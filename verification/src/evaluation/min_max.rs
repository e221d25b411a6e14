//! Depth-bounded search over every line of play.
use vstd::prelude::*;

use crate::evaluation::{best_index, best_index_is_first_best, EstimationResult, SyncEvaluator};
use crate::game::board::Board;
use crate::game::play::Play;
use crate::game::{End, Player};
use crate::{HEIGHT, POWER, WIDTH};
use std::ops::Neg;

verus! {

/// A basic MinMaxing policy, with a fixed depth
///
/// Every line of play is followed to the depth; nothing is pruned and nothing
/// is remembered.
#[derive(Debug, Copy, Clone)]
pub struct MinMaxPolicy {
    max_depth: usize,
}

/// What a search of `depth` plies returns for the player to move: the column
/// it advises and its estimation of the position.
///
/// With no ply left the advice is the middle column and the estimation the
/// position's own score. Otherwise each open play is a candidate, and the
/// player's best candidate is returned.
pub open spec fn minimax(board: Board, player: Player, depth: nat) -> (usize, EstimationResult)
    decreases depth, 1nat, 0nat,
{
    if depth == 0 {
        ((WIDTH / 2) as usize, EstimationResult::Partial(board.spec_naive_eval() as i64))
    } else {
        let found = candidates(player, depth, board.spec_legal_moves(player));
        found[best_index(found, player)]
    }
}

/// The candidates that a list of plays gives a search of `depth` plies: a play
/// that ends the game stands with that ending, any other with the opponent's
/// search of the board it leads to, one ply shorter and turned round.
pub open spec fn candidates(
    player: Player,
    depth: nat,
    moves: Seq<(usize, Board, Option<End>)>,
) -> Seq<(usize, EstimationResult)>
    decreases depth, 0nat, moves.len(),
{
    if moves.len() == 0 || depth == 0 {
        Seq::empty()
    } else {
        candidates(player, depth, moves.drop_last()).push(
            (
                moves.last().0,
                match moves.last().2 {
                    Some(e) => EstimationResult::Full(e),
                    None => minimax(
                        moves.last().1,
                        player.spec_other(),
                        (depth - 1) as nat,
                    ).1.negated(),
                },
            ),
        )
    }
}

/// Search `depth` plies ahead for the player to move.
pub fn max(board: &Board, player: Player, depth: usize) -> (out: (usize, EstimationResult))
    requires
        depth > 0 ==> !board.is_full(),
    ensures
        out == minimax(*board, player, depth as nat),
        out.1.wf(),
        out.0 < WIDTH,
        depth > 0 ==> !board.column_full(out.0 as int),
    decreases depth,
{
    if depth == 0 {
        proof {
            board.naive_eval_bounded();
        }
        return (WIDTH / 2, EstimationResult::Partial(board.naive_eval()));
    }
    let legal_move = board.legal_moves(player);
    proof {
        board.legal_moves_are_open(player);
        board.open_board_has_moves(player);
    }
    let mut move_evaluation: Vec<(usize, EstimationResult)> = Vec::new();
    let mut i: usize = 0;
    assert(legal_move@.take(0) =~= Seq::empty());
    while i < legal_move.len()
        invariant
            depth > 0,
            i <= legal_move@.len(),
            legal_move@ == board.spec_legal_moves(player),
            move_evaluation@ == candidates(player, depth as nat, legal_move@.take(i as int)),
            move_evaluation@.len() == i,
            forall|j: int|
                0 <= j < legal_move@.len() ==> {
                    &&& (#[trigger] legal_move@[j]).0 < WIDTH
                    &&& !board.column_full(legal_move@[j].0 as int)
                    &&& legal_move@[j].2 == legal_move@[j].1.spec_end()
                },
            forall|j: int|
                0 <= j < i ==> {
                    &&& (#[trigger] move_evaluation@[j]).1.wf()
                    &&& move_evaluation@[j].0 == legal_move@[j].0
                },
        decreases legal_move@.len() - i,
    {
        proof {
            assert(legal_move@.take(i + 1).drop_last() =~= legal_move@.take(i as int));
            assert(legal_move@.take(i + 1).last() == legal_move@[i as int]);
        }
        let (idx, b, e) = legal_move[i];
        let estimation = match e {
            Some(e) => EstimationResult::Full(e),
            None => max(&b, player.other(), depth - 1).1.neg(),
        };
        move_evaluation.push((idx, estimation));
        i = i + 1;
    }
    assert(legal_move@.take(i as int) =~= legal_move@);
    proof {
        best_index_is_first_best(move_evaluation@, player);
    }
    EstimationResult::best_for(move_evaluation.as_slice(), player)
}

impl MinMaxPolicy {
    /// The depth to which the policy searches.
    pub closed spec fn depth(&self) -> nat {
        self.max_depth as nat
    }

    /// A policy that searches `max_depth` plies ahead.
    pub fn new(max_depth: usize) -> (out: Self)
        ensures
            out.depth() == max_depth,
    {
        Self { max_depth }
    }
}

impl SyncEvaluator for MinMaxPolicy {
    open spec fn accepts(&self, board: Board, player: Player) -> bool {
        self.depth() > 0 ==> !board.is_full()
    }

    open spec fn yields(&self, board: Board, player: Player, out: (Play, EstimationResult)) -> bool {
        &&& out.0.spec_column() == minimax(board, player, self.depth()).0
        &&& out.0.spec_player() == player
        &&& out.1 == minimax(board, player, self.depth()).1
    }

    fn can_evaluate(&self, board: &Board, player: Player) -> (out: bool) {
        self.max_depth == 0 || !board.is_full()
    }

    fn evaluate(&mut self, board: &Board, player: Player) -> (out: (Play, EstimationResult)) {
        let best = max(board, player, self.max_depth);
        (Play::try_from((best.0, player)).unwrap(), best.1)
    }
}

/// The candidates of a search stand one for each play, in the order of the
/// plays and under their columns: the ending of a play that ends the game,
/// else the opponent's shorter search of the board behind it, turned round.
pub proof fn candidates_follow_moves(
    player: Player,
    depth: nat,
    moves: Seq<(usize, Board, Option<End>)>,
)
    requires
        depth > 0,
    ensures
        candidates(player, depth, moves).len() == moves.len(),
        forall|j: int|
            0 <= j < moves.len() ==> #[trigger] candidates(player, depth, moves)[j] == (
                moves[j].0,
                match moves[j].2 {
                    Some(e) => EstimationResult::Full(e),
                    None => minimax(
                        moves[j].1,
                        player.spec_other(),
                        (depth - 1) as nat,
                    ).1.negated(),
                },
            ),
    decreases moves.len(),
{
    if moves.len() > 0 {
        candidates_follow_moves(player, depth, moves.drop_last());
    }
}

/// On a board that a player has won and that is not full, a search of one ply
/// or more returns that win as its estimation, unless `SECOND` holds the win,
/// `FIRST` is to move and has a play that completes a line of its own.
pub proof fn won_position_evaluates_to_its_end(
    board: Board,
    player: Player,
    depth: nat,
    winner: Player,
)
    requires
        depth > 0,
        !board.is_full(),
        board.spec_end() == Some(End::Win { player: winner }),
        winner == Player::FIRST || player == Player::SECOND || forall|col: int|
            0 <= col < WIDTH && !board.column_full(col) ==> !(#[trigger] board.applied(
                col,
                player,
            )).holds_line(POWER as int, Player::FIRST),
    ensures
        minimax(board, player, depth).1 == EstimationResult::Full(End::Win { player: winner }),
{
    let moves = board.spec_legal_moves(player);
    let found = candidates(player, depth, moves);
    board.legal_moves_are_open(player);
    board.open_board_has_moves(player);
    candidates_follow_moves(player, depth, moves);
    best_index_is_first_best(found, player);
    assert forall|j: int| 0 <= j < moves.len() implies (#[trigger] moves[j]).2 == Some(
        End::Win { player: winner },
    ) by {
        let col = moves[j].0 as int;
        board.applied_keeps_lines(col, player, POWER as int, Player::FIRST);
        board.applied_keeps_lines(col, player, POWER as int, Player::SECOND);
    }
    let k = best_index(found, player);
    assert(found[k].1 == EstimationResult::Full(End::Win { player: winner }));
}

/// Whether every legal play of `player` ends the game.
pub open spec fn every_play_ends(board: Board, player: Player) -> bool {
    forall|j: int|
        0 <= j < board.spec_legal_moves(player).len() ==> (#[trigger] board.spec_legal_moves(
            player,
        )[j]).2 is Some
}

/// On a board that a player has won every play ends the game: a line stays
/// where it is whatever is played.
pub proof fn plays_on_a_won_board_end_the_game(board: Board, player: Player, winner: Player)
    requires
        board.spec_end() == Some(End::Win { player: winner }),
    ensures
        every_play_ends(board, player),
{
    let moves = board.spec_legal_moves(player);
    board.legal_moves_are_open(player);
    assert forall|j: int| 0 <= j < moves.len() implies (#[trigger] moves[j]).2 is Some by {
        board.applied_keeps_lines(moves[j].0 as int, player, POWER as int, winner);
    }
}

/// Whether a legal play of `player` ends the game with that player's win.
pub open spec fn wins_at_once(board: Board, player: Player) -> bool {
    exists|j: int|
        0 <= j < board.spec_legal_moves(player).len() && (#[trigger] board.spec_legal_moves(
            player,
        )[j]).2 == Some(End::Win { player })
}

/// A search of one ply or more finds a win that is one play away: when a
/// legal play of the player to move ends the game with that player's win, the
/// estimation is that win.
pub proof fn immediate_win_is_found(board: Board, player: Player, depth: nat)
    requires
        depth > 0,
        wins_at_once(board, player),
    ensures
        minimax(board, player, depth).1 == EstimationResult::Full(End::Win { player }),
{
    let moves = board.spec_legal_moves(player);
    let j = choose|j: int|
        0 <= j < moves.len() && (#[trigger] moves[j]).2 == Some(End::Win { player });
    let found = candidates(player, depth, moves);
    board.legal_moves_are_open(player);
    candidates_follow_moves(player, depth, moves);
    candidates_are_well_formed(player, depth, moves);
    best_index_is_first_best(found, player);
    assert(found[j].1 == EstimationResult::Full(End::Win { player }));
    assert(found[best_index(found, player)].1.wf());
}

/// Every candidate of a search is a well-formed estimation.
pub proof fn candidates_are_well_formed(
    player: Player,
    depth: nat,
    moves: Seq<(usize, Board, Option<End>)>,
)
    requires
        forall|j: int|
            0 <= j < moves.len() ==> (#[trigger] moves[j]).2 == moves[j].1.spec_end(),
    ensures
        forall|j: int|
            0 <= j < candidates(player, depth, moves).len() ==> (#[trigger] candidates(
                player,
                depth,
                moves,
            )[j]).1.wf(),
    decreases depth, 0nat, moves.len(),
{
    if moves.len() > 0 && depth > 0 {
        assert forall|j: int| 0 <= j < moves.drop_last().len() implies (
        #[trigger] moves.drop_last()[j]).2 == moves.drop_last()[j].1.spec_end() by {
            assert(moves.drop_last()[j] == moves[j]);
        }
        candidates_are_well_formed(player, depth, moves.drop_last());
        let last = moves.last();
        assert(last == moves[moves.len() - 1]);
        if last.2 is None {
            search_is_well_formed(last.1, player.spec_other(), (depth - 1) as nat);
        }
        let found = candidates(player, depth, moves);
        let before = candidates(player, depth, moves.drop_last());
        assert forall|j: int| 0 <= j < found.len() implies (#[trigger] found[j]).1.wf() by {
            if j < before.len() {
                assert(found[j] == before[j]);
            }
        }
    }
}

/// The estimation of a search is well formed, on a board that is not full or
/// with no ply left.
pub proof fn search_is_well_formed(board: Board, player: Player, depth: nat)
    requires
        depth > 0 ==> !board.is_full(),
    ensures
        minimax(board, player, depth).1.wf(),
        minimax(board, player, depth).0 < WIDTH,
        depth > 0 ==> !board.column_full(minimax(board, player, depth).0 as int),
    decreases depth, 1nat, 0nat,
{
    if depth == 0 {
        board.naive_eval_bounded();
    } else {
        let moves = board.spec_legal_moves(player);
        board.legal_moves_are_open(player);
        board.open_board_has_moves(player);
        candidates_are_well_formed(player, depth, moves);
        candidates_follow_moves(player, depth, moves);
        best_index_is_first_best(candidates(player, depth, moves), player);
    }
}

proof fn settled_candidates(board: Board, player: Player, depth: nat, n: int)
    requires
        depth >= 1,
        !board.is_full(),
        depth + board.pieces() >= HEIGHT * WIDTH,
        0 <= n <= board.spec_legal_moves(player).len(),
    ensures
        candidates(player, depth + 1, board.spec_legal_moves(player).take(n)) == candidates(
            player,
            depth,
            board.spec_legal_moves(player).take(n),
        ),
    decreases depth, 0nat, n,
{
    if n > 0 {
        let moves = board.spec_legal_moves(player).take(n);
        settled_candidates(board, player, depth, n - 1);
        assert(moves.drop_last() =~= board.spec_legal_moves(player).take(n - 1));
        let last = moves.last();
        assert(last == board.spec_legal_moves(player)[n - 1]);
        board.legal_moves_are_open(player);
        board.applied_adds_a_piece(last.0 as int, player);
        if last.2 is None {
            last.1.full_board_has_every_piece();
            search_is_settled(last.1, player.spec_other(), (depth - 1) as nat);
        }
    }
}

/// Once the depth covers every square that is still free, a deeper search
/// returns the same: no line of play is longer than the board has room for.
pub proof fn search_is_settled(board: Board, player: Player, depth: nat)
    requires
        depth >= 1,
        !board.is_full(),
        depth + board.pieces() >= HEIGHT * WIDTH,
    ensures
        minimax(board, player, depth + 1) == minimax(board, player, depth),
    decreases depth, 1nat, 0nat,
{
    let moves = board.spec_legal_moves(player);
    settled_candidates(board, player, depth, moves.len() as int);
    assert(moves.take(moves.len() as int) =~= moves);
}

/// A search that returns a stall has followed a line of play to the last free
/// square: its depth covers every square that is still free.
pub proof fn stall_needs_a_full_search(board: Board, player: Player, depth: nat)
    requires
        depth >= 1,
        !board.is_full(),
        minimax(board, player, depth).1 == EstimationResult::Full(End::Stall),
    ensures
        depth + board.pieces() >= HEIGHT * WIDTH,
    decreases depth,
{
    let moves = board.spec_legal_moves(player);
    let found = candidates(player, depth, moves);
    board.legal_moves_are_open(player);
    board.open_board_has_moves(player);
    candidates_follow_moves(player, depth, moves);
    best_index_is_first_best(found, player);
    let k = best_index(found, player);
    let m = moves[k];
    assert(found[k].1 == EstimationResult::Full(End::Stall));
    board.applied_adds_a_piece(m.0 as int, player);
    m.1.full_board_has_every_piece();
    if m.2 is None {
        let below = minimax(m.1, player.spec_other(), (depth - 1) as nat).1;
        assert(below.negated() == EstimationResult::Full(End::Stall));
        assert(below == EstimationResult::Full(End::Stall));
        stall_needs_a_full_search(m.1, player.spec_other(), (depth - 1) as nat);
    }
}

/// A full estimation stays when the search goes one ply deeper: what a search
/// has settled, a deeper search does not unsettle.
pub proof fn full_estimation_stays(board: Board, player: Player, depth: nat)
    requires
        depth >= 1,
        !board.is_full(),
        minimax(board, player, depth).1 is Full,
    ensures
        minimax(board, player, depth + 1).1 == minimax(board, player, depth).1,
    decreases depth,
{
    let moves = board.spec_legal_moves(player);
    let found = candidates(player, depth, moves);
    let deeper = candidates(player, depth + 1, moves);
    let other = player.spec_other();
    board.legal_moves_are_open(player);
    board.open_board_has_moves(player);
    candidates_follow_moves(player, depth, moves);
    candidates_follow_moves(player, depth + 1, moves);
    candidates_are_well_formed(player, depth, moves);
    candidates_are_well_formed(player, depth + 1, moves);
    best_index_is_first_best(found, player);
    best_index_is_first_best(deeper, player);
    let k = best_index(found, player);
    let best = found[k].1;
    if best == EstimationResult::Full(End::Stall) {
        stall_needs_a_full_search(board, player, depth);
        search_is_settled(board, player, depth);
    } else {
        // A candidate that stands at a win stands there one ply deeper too.
        assert forall|j: int|
            0 <= j < moves.len() && (#[trigger] found[j]).1 is Full && found[j].1
                != EstimationResult::Full(End::Stall) implies deeper[j].1 == found[j].1 by {
            if moves[j].2 is None {
                let below = minimax(moves[j].1, other, (depth - 1) as nat).1;
                assert(found[j].1 == below.negated());
                assert(below is Full);
                full_estimation_stays(moves[j].1, other, (depth - 1) as nat);
            }
        }
        assert(deeper[k].1 == best);
        let kept = deeper[best_index(deeper, player)].1;
        if best == (EstimationResult::Full(End::Win { player })) {
            assert(!kept.spec_is_better(&deeper[k].1, &player));
            assert(kept == best);
        } else {
            assert(best == EstimationResult::Full(End::Win { player: other }));
            assert forall|j: int| 0 <= j < moves.len() implies (#[trigger] deeper[j]).1 == best by {
                assert(!best.spec_is_better(&found[j].1, &player));
                assert(found[j].1.wf());
                assert(found[j].1 == best);
            }
            assert(kept == best);
        }
    }
}

/// A full estimation stays at every greater depth.
pub proof fn full_estimation_stays_deeper(board: Board, player: Player, depth: nat, deeper: nat)
    requires
        1 <= depth <= deeper,
        !board.is_full(),
        minimax(board, player, depth).1 is Full,
    ensures
        minimax(board, player, deeper).1 == minimax(board, player, depth).1,
    decreases deeper - depth,
{
    if deeper > depth {
        full_estimation_stays(board, player, depth);
        full_estimation_stays_deeper(board, player, depth + 1, deeper);
    }
}

} // verus!
