use network_power_4::caches::{KnowledgeCacheMultiThread, KnowledgeCacheSingleThread};
use network_power_4::evaluation::async_wrapper::BlockingTaskWrapper;
use network_power_4::evaluation::min_max::{max, MinMaxPolicy};
use network_power_4::evaluation::min_max_cached::MinMaxPolicyCached;
use network_power_4::evaluation::random_ai::RandomPolicy;
use network_power_4::evaluation::threaded_wrapper::ThreadedPolicy;
use network_power_4::evaluation::{GameEvaluator, SyncEvaluator};
use network_power_4::{Board, End, EstimationResult, Game, Play, Player, WIDTH};

fn play(column: usize, player: Player) -> Play {
    Play::try_from((column, player)).unwrap()
}

fn board_after(columns: &[usize]) -> Board {
    let mut board = Board::default();
    let mut player = Player::FIRST;
    for c in columns {
        board = board.apply(play(*c, player)).unwrap().0;
        player = player.other();
    }
    board
}

fn same(a: EstimationResult, b: EstimationResult) -> bool {
    match (a, b) {
        (EstimationResult::Partial(x), EstimationResult::Partial(y)) => x == y,
        (EstimationResult::Full(x), EstimationResult::Full(y)) => x == y,
        _ => false,
    }
}

fn samples() -> Vec<(Board, Player)> {
    vec![
        (Board::default(), Player::FIRST),
        (board_after(&[4]), Player::SECOND),
        (board_after(&[4, 4, 3, 5]), Player::FIRST),
        (board_after(&[0, 0, 1, 1, 2]), Player::SECOND),
        (board_after(&[0, 0, 1, 1, 2, 8]), Player::FIRST),
        (board_after(&[4, 4, 4, 4, 4, 4, 3, 3, 3]), Player::SECOND),
    ]
}

#[test]
fn depth_zero_is_the_score_and_the_middle_column() {
    for (board, player) in samples() {
        let (column, estimation) = max(&board, player, 0);
        assert_eq!(column, WIDTH / 2);
        assert!(same(
            estimation,
            EstimationResult::Partial(board.naive_eval())
        ));
    }
}

#[test]
fn depth_one_takes_an_immediate_win() {
    let board = board_after(&[0, 0, 1, 1, 2, 8]);
    let (column, estimation) = max(&board, Player::FIRST, 1);
    assert_eq!(column, 3);
    assert!(same(
        estimation,
        EstimationResult::Full(End::Win {
            player: Player::FIRST
        })
    ));
}

#[test]
fn depth_one_turns_the_scores_round() {
    // Each candidate of a search of one ply is the score of the board behind
    // the play, with its sign changed.
    let board = board_after(&[4]);
    let player = Player::SECOND;
    let mut candidates = Vec::new();
    for (col, next, end) in board.legal_moves(player) {
        assert_eq!(end, None);
        candidates.push((col, EstimationResult::Partial(-next.naive_eval())));
    }
    let expected = EstimationResult::best_for(&candidates[..], player);
    let found = max(&board, player, 1);
    assert_eq!(found.0, expected.0);
    assert!(same(found.1, expected.1));
}

#[test]
fn policy_returns_the_search_as_a_play() {
    for (board, player) in samples() {
        for depth in 0..3 {
            let found = max(&board, player, depth);
            let mut policy = MinMaxPolicy::new(depth);
            let (p, estimation) = policy.evaluate(&board, player);
            assert_eq!(p.column(), found.0);
            assert_eq!(p.player(), player);
            assert!(same(estimation, found.1));
        }
    }
}

#[test]
fn won_position_evaluates_to_its_end() {
    let won = board_after(&[0, 0, 1, 1, 2, 2, 3]);
    let end = End::Win {
        player: Player::FIRST,
    };
    assert_eq!(won.end(), Some(end));
    for depth in 1..4 {
        for player in [Player::FIRST, Player::SECOND] {
            let found = max(&won, player, depth);
            assert!(same(found.1, EstimationResult::Full(end)));
        }
    }
    let won_by_second = board_after(&[0, 5, 1, 5, 0, 5, 1, 5]);
    let end = End::Win {
        player: Player::SECOND,
    };
    assert_eq!(won_by_second.end(), Some(end));
    for depth in 1..4 {
        for player in [Player::FIRST, Player::SECOND] {
            let found = max(&won_by_second, player, depth);
            assert!(same(found.1, EstimationResult::Full(end)));
        }
    }
}

#[test]
fn won_by_second_with_a_line_open_to_first() {
    // SECOND holds a line; FIRST has three in a row and is to move: the play
    // that completes its line shows a win of FIRST.
    let mut board = Board::default();
    for c in 0..3 {
        board = board.apply(play(c, Player::FIRST)).unwrap().0;
    }
    for c in 5..9 {
        board = board.apply(play(c, Player::SECOND)).unwrap().0;
    }
    assert_eq!(
        board.end(),
        Some(End::Win {
            player: Player::SECOND
        })
    );
    let found = max(&board, Player::FIRST, 1);
    assert_eq!(found.0, 3);
    assert!(same(
        found.1,
        EstimationResult::Full(End::Win {
            player: Player::FIRST
        })
    ));
    let found = max(&board, Player::SECOND, 1);
    assert!(same(
        found.1,
        EstimationResult::Full(End::Win {
            player: Player::SECOND
        })
    ));
}

#[test]
fn cached_and_plain_search_agree() {
    for (board, player) in samples() {
        for depth in 0..4 {
            let plain = max(&board, player, depth);
            let mut cached = MinMaxPolicyCached::<KnowledgeCacheSingleThread>::new(depth);
            let found = cached.max(&board, player, depth);
            assert_eq!(found.0, plain.0);
            assert!(same(found.1, plain.1));
            // The same question again, now with what the first search kept.
            let again = cached.max(&board, player, depth);
            assert_eq!(again.0, plain.0);
            assert!(same(again.1, plain.1));

            let mut shared = MinMaxPolicyCached::<KnowledgeCacheMultiThread>::new(depth);
            let (p, estimation) = shared.evaluate(&board, player);
            assert_eq!(p.column(), plain.0);
            assert_eq!(p.player(), player);
            assert!(same(estimation, plain.1));
        }
    }
}

#[test]
fn cached_search_keeps_full_estimations_only() {
    let board = board_after(&[4, 4, 3, 5]);
    let mut policy = MinMaxPolicyCached::<KnowledgeCacheSingleThread>::new(1);
    assert_eq!(policy.get_knowledge_size(), 0);
    policy.evaluate(&board, Player::FIRST);
    // One ply deep every estimation below the root is a score.
    assert_eq!(policy.get_knowledge_size(), 0);

    // FIRST threatens to complete a line: below each play of SECOND but the
    // one that blocks, FIRST wins at once, and that is kept.
    let board = board_after(&[0, 0, 1, 1, 2]);
    let mut policy = MinMaxPolicyCached::<KnowledgeCacheSingleThread>::new(2);
    policy.evaluate(&board, Player::SECOND);
    assert_eq!(policy.get_knowledge_size(), 8);
}

#[test]
fn evaluate_game_asks_about_the_game_s_position() {
    let mut game = Game::default();
    for c in [4, 4, 3] {
        game.play(c).unwrap();
    }
    let mut policy = MinMaxPolicy::new(2);
    let (p, estimation) = policy.evaluate_game(&game);
    let found = max(&game.board(), Player::SECOND, 2);
    assert_eq!(p.column(), found.0);
    assert_eq!(p.player(), Player::SECOND);
    assert!(same(estimation, found.1));
}

#[test]
fn thread_fan_out_agrees_with_search() {
    for (board, player) in samples() {
        let moves = board.legal_moves(player);
        if moves.iter().any(|m| m.2.is_some()) {
            continue;
        }
        for depth in 1..4 {
            let wrapper = ThreadedPolicy::from(MinMaxPolicy::new(depth - 1));
            let tasks = ThreadedPolicy::<MinMaxPolicy>::tasks(&board, player);
            assert_eq!(tasks.len(), moves.len());
            let mut results = Vec::new();
            for (p, next) in tasks {
                let mut eval = *wrapper.evaluator();
                results.push(ThreadedPolicy::run_task(&mut eval, p, &next));
            }
            let folded = ThreadedPolicy::<MinMaxPolicy>::fold(&results[..], player);
            let plain = max(&board, player, depth);
            assert_eq!(folded.0.column(), plain.0);
            assert_eq!(folded.0.player(), player);
            assert!(same(folded.1, plain.1));
        }
    }
}

#[test]
fn thread_fan_out_tasks_are_the_legal_plays() {
    let board = board_after(&[4, 4, 4, 4, 4, 4]);
    let tasks = ThreadedPolicy::<MinMaxPolicy>::tasks(&board, Player::FIRST);
    let columns: Vec<usize> = tasks.iter().map(|t| t.0.column()).collect();
    assert_eq!(columns, vec![0, 1, 2, 3, 5, 6, 7, 8]);
    for (p, next) in tasks {
        assert_eq!(p.player(), Player::FIRST);
        assert_eq!(next, board.apply(p).unwrap().0);
    }
}

#[test]
fn thread_fan_out_task_turns_the_estimation_round() {
    let board = board_after(&[4]);
    let mut eval = MinMaxPolicy::new(0);
    let p = play(3, Player::SECOND);
    let next = board.apply(p).unwrap().0;
    let (q, estimation) = ThreadedPolicy::run_task(&mut eval, p, &next);
    assert_eq!(q, p);
    assert!(same(
        estimation,
        EstimationResult::Partial(-next.naive_eval())
    ));
}

#[test]
fn pool_tasks_settle_endings_and_ask_the_evaluator() {
    let board = board_after(&[0, 0, 1, 1, 2, 8]);
    let player = Player::FIRST;
    let mut results = Vec::new();
    for (idx, next, end) in board.legal_moves(player) {
        let mut eval = MinMaxPolicy::new(1);
        let r = BlockingTaskWrapper::run_task(&mut eval, idx, &next, end, player.other());
        assert_eq!(r.0, idx);
        match end {
            Some(e) => assert!(same(r.1, EstimationResult::Full(e))),
            None => assert!(same(r.1, max(&next, player.other(), 1).1)),
        }
        results.push(r);
    }
    let best = BlockingTaskWrapper::<MinMaxPolicy>::conclude(&results, player);
    assert_eq!(best.0.column(), 3);
    assert_eq!(best.0.player(), player);
    assert!(same(
        best.1,
        EstimationResult::Full(End::Win {
            player: Player::FIRST
        })
    ));
    let expected = EstimationResult::best_for(&results[..], player);
    assert_eq!(best.0.column(), expected.0);
}

#[test]
fn random_policy_plays_a_legal_column() {
    let mut policy = RandomPolicy::default();
    let board = board_after(&[4, 4, 4, 4, 4, 4]);
    for _ in 0..50 {
        let (p, estimation) = policy.evaluate(&board, Player::FIRST);
        assert_eq!(p.player(), Player::FIRST);
        assert_ne!(p.column(), 4);
        assert!(p.column() < WIDTH);
        assert!(same(estimation, EstimationResult::Partial(0)));
    }
}

#[test]
fn random_policy_takes_the_only_column_left() {
    // Every column but the last is filled, in an order that gives nobody a
    // line.
    let mut board = Board::default();
    for row in 0..6 {
        for col in 0..8 {
            let p = if (col / 2 + row) % 2 == 0 {
                Player::FIRST
            } else {
                Player::SECOND
            };
            board = board.apply(play(col, p)).unwrap().0;
        }
    }
    assert_eq!(board.end(), None);
    let mut policy = RandomPolicy::default();
    for _ in 0..10 {
        let (p, _) = policy.evaluate(&board, Player::SECOND);
        assert_eq!(p.column(), 8);
        assert_eq!(p.player(), Player::SECOND);
    }
}

#[test]
fn random_policy_reaches_every_column() {
    let mut policy = RandomPolicy::default();
    let board = Board::default();
    let mut seen = [false; WIDTH];
    for _ in 0..2000 {
        let (p, _) = policy.evaluate(&board, Player::FIRST);
        seen[p.column()] = true;
    }
    assert!(seen.iter().all(|s| *s));
}

#[test]
fn random_decide() {
    let (p, estimation) = RandomPolicy::decide(6, Player::SECOND);
    assert_eq!(p.column(), 6);
    assert_eq!(p.player(), Player::SECOND);
    assert!(same(estimation, EstimationResult::Partial(0)));
}

#[test]
fn evaluators_say_what_they_can_evaluate() {
    let mut full = Board::default();
    for row in 0..6 {
        for col in 0..WIDTH {
            let p = if (col / 2 + row) % 2 == 0 {
                Player::FIRST
            } else {
                Player::SECOND
            };
            full = full.apply(play(col, p)).unwrap().0;
        }
    }
    let open = Board::default();
    let won = board_after(&[0, 0, 1, 1, 2, 2, 3]);
    assert!(MinMaxPolicy::new(0).can_evaluate(&full, Player::FIRST));
    assert!(!MinMaxPolicy::new(1).can_evaluate(&full, Player::FIRST));
    assert!(MinMaxPolicy::new(1).can_evaluate(&open, Player::FIRST));
    assert!(MinMaxPolicy::new(3).can_evaluate(&won, Player::SECOND));
    let cached = MinMaxPolicyCached::<KnowledgeCacheSingleThread>::new(2);
    assert!(!cached.can_evaluate(&full, Player::SECOND));
    assert!(cached.can_evaluate(&open, Player::SECOND));
    let random = RandomPolicy::default();
    assert!(random.can_evaluate(&open, Player::FIRST));
    assert!(!random.can_evaluate(&won, Player::FIRST));
    assert!(!random.can_evaluate(&full, Player::FIRST));
}

#[test]
fn cached_search_finds_a_win_whatever_the_cache_holds() {
    let board = board_after(&[0, 0, 1, 1, 2, 8]);
    let mut policy = MinMaxPolicyCached::<KnowledgeCacheMultiThread>::new(3);
    for _ in 0..3 {
        let (p, estimation) = policy.evaluate(&board, Player::FIRST);
        assert_eq!(p.player(), Player::FIRST);
        assert!(same(
            estimation,
            EstimationResult::Full(End::Win {
                player: Player::FIRST
            })
        ));
    }
}

#[test]
fn wrappers_keep_their_evaluator() {
    let threaded = ThreadedPolicy::from(MinMaxPolicy::new(2));
    let mut inner = *threaded.evaluator();
    let pooled = BlockingTaskWrapper::from(MinMaxPolicy::new(2));
    let mut other = *pooled.evaluator();
    let board = board_after(&[4, 4, 3]);
    let a = inner.evaluate(&board, Player::SECOND);
    let b = other.evaluate(&board, Player::SECOND);
    let plain = max(&board, Player::SECOND, 2);
    assert_eq!(a.0.column(), plain.0);
    assert_eq!(b.0.column(), plain.0);
    assert!(same(a.1, plain.1));
    assert!(same(b.1, plain.1));
}

#[test]
fn cached_search_agrees_along_a_game() {
    // One policy, one cache, asked at each position of a game in turn.
    for depth in 1..4 {
        let mut single = MinMaxPolicyCached::<KnowledgeCacheSingleThread>::new(depth);
        let mut shared = MinMaxPolicyCached::<KnowledgeCacheMultiThread>::new(depth);
        let mut board = Board::default();
        let mut player = Player::FIRST;
        for column in [4, 3, 4, 3, 5, 2, 6, 6, 0, 1] {
            assert_eq!(board.end(), None);
            let plain = max(&board, player, depth);
            let (p, estimation) = single.evaluate(&board, player);
            assert_eq!(p.column(), plain.0);
            assert!(same(estimation, plain.1));
            let (p, estimation) = shared.evaluate(&board, player);
            assert_eq!(p.column(), plain.0);
            assert!(same(estimation, plain.1));
            board = board.apply(play(column, player)).unwrap().0;
            player = player.other();
        }
    }
}

#[test]
fn cached_search_of_a_won_board_is_its_end() {
    let won = board_after(&[0, 0, 1, 1, 2, 2, 3]);
    let end = End::Win {
        player: Player::FIRST,
    };
    assert_eq!(won.end(), Some(end));
    for depth in 1..4 {
        for player in [Player::FIRST, Player::SECOND] {
            let mut single = MinMaxPolicyCached::<KnowledgeCacheSingleThread>::new(depth);
            let mut shared = MinMaxPolicyCached::<KnowledgeCacheMultiThread>::new(depth);
            // Whatever the cache holds, it is not asked.
            let mut other = MinMaxPolicyCached::<KnowledgeCacheSingleThread>::new(3);
            other.evaluate(&board_after(&[4, 3, 4, 3, 4]), Player::SECOND);
            let plain = max(&won, player, depth);
            let estimations = [
                single.evaluate(&won, player).1,
                shared.evaluate(&won, player).1,
                other.max(&won, player, depth).1,
            ];
            for estimation in estimations {
                assert!(same(estimation, EstimationResult::Full(end)));
                assert!(same(estimation, plain.1));
            }
        }
    }
}
