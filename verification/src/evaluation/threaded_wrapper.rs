//! One level of a search, cut into tasks that can run side by side.
use vstd::prelude::*;

use crate::evaluation::min_max::{candidates, candidates_follow_moves, minimax};
use crate::evaluation::{
    best_index, best_index_by_estimations, best_index_is_first_best, EstimationResult,
    SyncEvaluator,
};
use crate::game::board::Board;
use crate::game::play::Play;
use crate::game::Player;
use std::ops::Neg;

verus! {

/// A wrapper around a `SyncEvaluator` to make it multi-threaded
///
/// The wrapper cuts the evaluation of a position into one task for each legal
/// play. The tasks do not depend on each other: each can run on a thread of
/// its own, with a copy of the evaluator, and their results are folded once
/// all are there. Which threads run them is left to the caller.
#[derive(Debug, Clone)]
pub struct ThreadedPolicy<T: SyncEvaluator> {
    eval: T,
}

impl<T: SyncEvaluator> vstd::std_specs::convert::FromSpecImpl<T> for ThreadedPolicy<T> {
    open spec fn obeys_from_spec() -> bool {
        true
    }

    closed spec fn from_spec(value: T) -> ThreadedPolicy<T> {
        ThreadedPolicy { eval: value }
    }
}

impl<T: SyncEvaluator> From<T> for ThreadedPolicy<T> {
    fn from(value: T) -> (out: Self)
        ensures
            out.inner() == value,
    {
        Self { eval: value }
    }
}

/// The tasks of a position: each legal play of `player` with the board that
/// it leads to, in the order of the columns.
pub open spec fn spec_tasks(board: Board, player: Player) -> Seq<(Play, Board)> {
    Seq::new(
        board.spec_legal_moves(player).len(),
        |j: int|
            (Play::at(board.spec_legal_moves(player)[j].0, player), board.spec_legal_moves(player)[j].1),
    )
}

impl<T: SyncEvaluator> ThreadedPolicy<T> {
    /// The evaluator that the wrapper hands to its tasks.
    pub closed spec fn inner(&self) -> T {
        self.eval
    }

    /// The evaluator that the wrapper hands to its tasks.
    pub fn evaluator(&self) -> (out: &T)
        ensures
            *out == self.inner(),
    {
        &self.eval
    }

    /// Cut the evaluation of a position into its tasks.
    pub fn tasks(board: &Board, player: Player) -> (out: Vec<(Play, Board)>)
        ensures
            out@ == spec_tasks(*board, player),
    {
        let moves = board.legal_moves(player);
        proof {
            board.legal_moves_are_open(player);
        }
        let mut out: Vec<(Play, Board)> = Vec::new();
        let mut i: usize = 0;
        while i < moves.len()
            invariant
                i <= moves@.len(),
                moves@ == board.spec_legal_moves(player),
                out@.len() == i,
                forall|j: int| 0 <= j < moves@.len() ==> (#[trigger] moves@[j]).0 < crate::WIDTH,
                forall|j: int| 0 <= j < i ==> #[trigger] out@[j] == spec_tasks(*board, player)[j],
            decreases moves@.len() - i,
        {
            let (col, new_board, _) = moves[i];
            let play = Play::try_from((col, player)).unwrap();
            out.push((play, new_board));
            i = i + 1;
        }
        assert(out@ =~= spec_tasks(*board, player));
        out
    }

    /// Run one task: evaluate the board that the play leads to, for the
    /// opponent, and turn the estimation round.
    pub fn run_task(eval: &mut T, play: Play, new_board: &Board) -> (out: (Play, EstimationResult))
        requires
            old(eval).accepts(*new_board, play.spec_player().spec_other()),
        ensures
            out.0 == play,
            out.1.wf(),
            exists|found: (Play, EstimationResult)|
                #[trigger] old(eval).yields(*new_board, play.spec_player().spec_other(), found)
                    && out.1 == found.1.negated(),
            forall|b: Board, p: Player| old(eval).accepts(b, p) ==> final(eval).accepts(b, p),
    {
        let opponent = play.player().other();
        let found = eval.evaluate(new_board, opponent);
        (play, found.1.neg())
    }

    /// Fold the results of the tasks: the play that `player` likes best.
    pub fn fold(results: &[(Play, EstimationResult)], player: Player) -> (out: (
        Play,
        EstimationResult,
    ))
        requires
            results@.len() > 0,
        ensures
            out == results@[best_index(results@, player)],
    {
        EstimationResult::best_for(results, player)
    }
}

/// The results of the tasks of a position when each task asks the plain
/// search of `depth` plies.
pub open spec fn fan_out(board: Board, player: Player, depth: nat) -> Seq<
    (Play, EstimationResult),
> {
    Seq::new(
        spec_tasks(board, player).len(),
        |j: int|
            (
                spec_tasks(board, player)[j].0,
                minimax(spec_tasks(board, player)[j].1, player.spec_other(), depth).1.negated(),
            ),
    )
}

/// Folding the tasks of a position, each run with the plain search of `depth`
/// plies, gives the play and the estimation of the plain search one ply
/// deeper, as long as no legal play ends the game.
pub proof fn fan_out_agrees_with_search(board: Board, player: Player, depth: nat)
    requires
        !board.is_full(),
        forall|j: int|
            0 <= j < board.spec_legal_moves(player).len() ==> (#[trigger] board.spec_legal_moves(
                player,
            )[j]).2 is None,
    ensures
        fan_out(board, player, depth).len() > 0,
        fan_out(board, player, depth)[best_index(fan_out(board, player, depth), player)] == (
            Play::at(minimax(board, player, depth + 1).0, player),
            minimax(board, player, depth + 1).1,
        ),
{
    let moves = board.spec_legal_moves(player);
    let results = fan_out(board, player, depth);
    let found = candidates(player, depth + 1, moves);
    board.open_board_has_moves(player);
    candidates_follow_moves(player, depth + 1, moves);
    assert forall|j: int| 0 <= j < results.len() implies (#[trigger] results[j]).1 == found[j].1 by {
        assert(moves[j].2 is None);
    }
    best_index_by_estimations(results, found, player);
    best_index_is_first_best(found, player);
}

} // verus!
