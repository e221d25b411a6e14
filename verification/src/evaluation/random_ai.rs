//! An evaluator that plays at random.
use vstd::prelude::*;

use crate::evaluation::{EstimationResult, SyncEvaluator};
use crate::game::board::Board;
use crate::game::play::Play;
use crate::game::{End, Player};
use rand::rngs::ThreadRng;
use rand::seq::IndexedRandom;

verus! {

/// The random number generator of `rand` that belongs to the running thread.
#[verifier::external_type_specification]
#[verifier::external_body]
pub struct ExThreadRng(ThreadRng);

/// A evaluator playing at random
pub struct RandomPolicy {
    rand: ThreadRng,
}

/// Gets the generator of the running thread from `rand::rng`.
///
/// Nothing is claimed of the generator.
#[verifier::external_body]
fn thread_generator() -> (out: ThreadRng) {
    rand::rng()
}

/// Draws one of the moves with `IndexedRandom::choose` and hands out its
/// column.
///
/// An empty list gives nothing. Otherwise the column is that of one of the
/// moves of the list; which one is left to chance.
#[verifier::external_body]
fn choose_column(
    generator: &mut ThreadRng,
    moves: &Vec<(usize, Board, Option<End>)>,
) -> (out: Option<usize>)
    ensures
        out is None <==> moves@.len() == 0,
        out is Some ==> exists|j: int|
            0 <= j < moves@.len() && (#[trigger] moves@[j]).0 == out.unwrap(),
{
    moves.choose(generator).map(|m| m.0)
}

impl RandomPolicy {
    /// The play that the policy makes of a drawn column: the column is played
    /// by `player`, and the estimation says nothing either way.
    pub fn decide(column: usize, player: Player) -> (out: (Play, EstimationResult))
        requires
            column < crate::WIDTH,
        ensures
            out.0 == Play::at(column, player),
            out.1 == EstimationResult::Partial(0),
    {
        (Play::try_from((column, player)).unwrap(), EstimationResult::Partial(0))
    }
}

impl Default for RandomPolicy {
    /// A policy that draws from the generator of the running thread.
    fn default() -> (out: Self) {
        RandomPolicy { rand: thread_generator() }
    }
}

impl SyncEvaluator for RandomPolicy {
    open spec fn accepts(&self, board: Board, player: Player) -> bool {
        board.spec_end() is None
    }

    open spec fn yields(&self, board: Board, player: Player, out: (Play, EstimationResult)) -> bool {
        &&& out.0.spec_player() == player
        &&& out.0.spec_column() < crate::WIDTH
        &&& !board.column_full(out.0.spec_column() as int)
        &&& out.1 == EstimationResult::Partial(0)
    }

    fn can_evaluate(&self, board: &Board, player: Player) -> (out: bool) {
        board.end().is_none()
    }

    fn evaluate(&mut self, board: &Board, player: Player) -> (out: (Play, EstimationResult)) {
        let moves = board.legal_moves(player);
        proof {
            board.legal_moves_are_open(player);
            board.open_board_has_moves(player);
            Play::at_is_the_play(0, player);
        }
        let c = choose_column(&mut self.rand, &moves).unwrap();
        proof {
            Play::at_is_the_play(c, player);
        }
        Self::decide(c, player)
    }
}

} // verus!
