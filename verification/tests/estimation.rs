use network_power_4::evaluation::SCORE_UNIT;
use network_power_4::{End, EstimationResult, Player};

fn points(x: f64) -> i64 {
    (x * SCORE_UNIT as f64).round() as i64
}

fn win(player: Player) -> EstimationResult {
    EstimationResult::Full(End::Win { player })
}

fn estimations() -> [EstimationResult; 6] {
    [
        EstimationResult::Full(End::Win {
            player: Player::FIRST,
        }),
        EstimationResult::Full(End::Win {
            player: Player::SECOND,
        }),
        EstimationResult::Full(End::Stall),
        EstimationResult::Partial(points(1.7)),
        EstimationResult::Partial(points(2.2)),
        EstimationResult::Partial(points(-0.1)),
    ]
}

#[test]
fn is_better_eq_comp() {
    for a in estimations() {
        for b in estimations() {
            assert_eq!((&a).is_better(&b, &Player::FIRST), a < b);
        }
    }
}

#[test]
fn is_better_for_second_is_the_reverse() {
    for a in estimations() {
        for b in estimations() {
            assert_eq!((&a).is_better(&b, &Player::SECOND), a > b);
            assert_eq!(
                a.is_better(&b, &Player::SECOND),
                b.is_better(&a, &Player::FIRST)
            );
        }
    }
}

#[test]
fn is_better_examples() {
    let w1 = win(Player::FIRST);
    let w2 = win(Player::SECOND);
    let s = EstimationResult::Full(End::Stall);
    let a1 = EstimationResult::Partial(points(1.0));
    let a2 = EstimationResult::Partial(points(-1.0));
    assert!(s.is_better(&w1, &Player::FIRST));
    assert!(!s.is_better(&w2, &Player::FIRST));
    assert!(s.is_better(&w2, &Player::SECOND));
    assert!(s.is_better(&a1, &Player::FIRST));
    assert!(!s.is_better(&a2, &Player::FIRST));
    assert!(s.is_better(&a2, &Player::SECOND));
    assert!(!s.is_better(&s, &Player::FIRST));
    assert!(!s.is_better(&s, &Player::SECOND));
}

#[test]
fn order_is_strict_and_total_on_samples() {
    let all = estimations();
    for a in all {
        assert!(!(a < a));
        assert!(a == a);
        for b in all {
            let below = a < b;
            let above = b < a;
            let same = a == b;
            assert_eq!(1, below as u8 + above as u8 + same as u8);
            for c in all {
                if a < b && b < c {
                    assert!(a < c);
                }
            }
        }
    }
}

#[test]
fn stall_is_neutral() {
    let stall = EstimationResult::Full(End::Stall);
    assert!(stall == EstimationResult::Partial(0));
    assert!(stall < EstimationResult::Partial(1));
    assert!(stall > EstimationResult::Partial(-1));
    assert_eq!(i64::from(stall), 0);
}

#[test]
fn negation_is_an_involution_on_samples() {
    for a in estimations() {
        let back = -(-a);
        assert!(matches!(
            (a, back),
            (EstimationResult::Partial(x), EstimationResult::Partial(y)) if x == y
        ) || matches!(
            (a, back),
            (EstimationResult::Full(x), EstimationResult::Full(y)) if x == y
        ));
    }
}

#[test]
fn negation_flips_wins_and_scores() {
    assert!(matches!(
        -win(Player::FIRST),
        EstimationResult::Full(End::Win {
            player: Player::SECOND
        })
    ));
    assert!(matches!(
        -win(Player::SECOND),
        EstimationResult::Full(End::Win {
            player: Player::FIRST
        })
    ));
    assert!(matches!(
        -EstimationResult::Full(End::Stall),
        EstimationResult::Full(End::Stall)
    ));
    assert!(matches!(
        -EstimationResult::Partial(42),
        EstimationResult::Partial(-42)
    ));
    assert!(matches!(
        -EstimationResult::Partial(i64::MAX - 1),
        EstimationResult::Partial(x) if x == -(i64::MAX - 1)
    ));
}

#[test]
fn negation_reverses_order_on_samples() {
    for a in estimations() {
        for b in estimations() {
            assert_eq!(a < b, -b < -a);
        }
    }
}

#[test]
fn into_partial_keeps_the_score() {
    assert!(matches!(
        win(Player::FIRST).into_partial(),
        EstimationResult::Partial(i64::MAX)
    ));
    assert!(matches!(
        win(Player::SECOND).into_partial(),
        EstimationResult::Partial(x) if x == -i64::MAX
    ));
    assert!(matches!(
        EstimationResult::Full(End::Stall).into_partial(),
        EstimationResult::Partial(0)
    ));
    assert!(matches!(
        EstimationResult::Partial(17).into_partial(),
        EstimationResult::Partial(17)
    ));
    assert_eq!(i64::from(win(Player::FIRST)), i64::MAX);
    assert_eq!(i64::from(win(Player::SECOND)), -i64::MAX);
    assert_eq!(i64::from(EstimationResult::Partial(-5)), -5);
}

#[test]
fn best_for_exact_win_outranks_any_heuristic() {
    let moves = [
        (0usize, win(Player::FIRST)),
        (1usize, EstimationResult::Partial(points(1000.0))),
    ];
    let best = EstimationResult::best_for(&moves[..], Player::FIRST);
    assert_eq!(best.0, 0);
    assert!(matches!(
        best.1,
        EstimationResult::Full(End::Win {
            player: Player::FIRST
        })
    ));

    let moves = [
        (0usize, EstimationResult::Partial(points(-1000.0))),
        (1usize, win(Player::SECOND)),
    ];
    let best = EstimationResult::best_for(&moves[..], Player::SECOND);
    assert_eq!(best.0, 1);
}

#[test]
fn best_for_heuristics() {
    let moves = [
        (0u8, EstimationResult::Partial(points(0.1))),
        (1u8, EstimationResult::Partial(points(101.3))),
        (5u8, EstimationResult::Partial(points(-3.2))),
    ];
    let moves: &[(u8, EstimationResult)] = &moves[..];
    let first = EstimationResult::best_for(moves, Player::FIRST);
    assert_eq!(first.0, 1);
    assert!(matches!(first.1, EstimationResult::Partial(x) if x == points(101.3)));
    let second = EstimationResult::best_for(moves, Player::SECOND);
    assert_eq!(second.0, 5);
    assert!(matches!(second.1, EstimationResult::Partial(x) if x == points(-3.2)));
}

#[test]
fn best_for_ties_go_to_the_first() {
    let moves = [
        (0usize, EstimationResult::Partial(3)),
        (1usize, EstimationResult::Partial(7)),
        (2usize, EstimationResult::Partial(7)),
        (3usize, EstimationResult::Partial(3)),
    ];
    assert_eq!(EstimationResult::best_for(&moves[..], Player::FIRST).0, 1);
    assert_eq!(EstimationResult::best_for(&moves[..], Player::SECOND).0, 0);

    let moves = [
        (0usize, EstimationResult::Partial(0)),
        (1usize, EstimationResult::Full(End::Stall)),
    ];
    assert_eq!(EstimationResult::best_for(&moves[..], Player::FIRST).0, 0);
    assert_eq!(EstimationResult::best_for(&moves[..], Player::SECOND).0, 0);
}

#[test]
fn best_for_single_candidate() {
    let moves = [(8usize, win(Player::SECOND))];
    assert_eq!(EstimationResult::best_for(&moves[..], Player::FIRST).0, 8);
    assert_eq!(EstimationResult::best_for(&moves[..], Player::SECOND).0, 8);
}
