//! One level of a search, cut into tasks for a pool of workers.
use vstd::prelude::*;

use crate::evaluation::{best_index, EstimationResult, SyncEvaluator};
use crate::game::board::Board;
use crate::game::play::Play;
use crate::game::{End, Player};
use crate::WIDTH;

verus! {

/// A wrapper around a [`SyncEvaluator`] that prepares its work for a pool of
/// workers
///
/// Each legal play of a position is one task. A task whose play ends the game
/// is settled at once; any other asks the evaluator about the board that the
/// play leads to. The tasks do not depend on each other, and their results are
/// folded once all are there. Where the tasks run is left to the caller.
#[derive(Debug, Clone)]
pub struct BlockingTaskWrapper<T: SyncEvaluator> {
    evaluator: T,
}

impl<T: SyncEvaluator> vstd::std_specs::convert::FromSpecImpl<T> for BlockingTaskWrapper<T> {
    open spec fn obeys_from_spec() -> bool {
        true
    }

    closed spec fn from_spec(value: T) -> BlockingTaskWrapper<T> {
        BlockingTaskWrapper { evaluator: value }
    }
}

impl<T: SyncEvaluator> From<T> for BlockingTaskWrapper<T> {
    fn from(value: T) -> (out: Self)
        ensures
            out.inner() == value,
    {
        Self { evaluator: value }
    }
}

/// The plays of a list of results, each column made the play of `player`.
pub open spec fn as_plays(results: Seq<(usize, EstimationResult)>, player: Player) -> Seq<
    (Play, EstimationResult),
> {
    Seq::new(results.len(), |j: int| (Play::at(results[j].0, player), results[j].1))
}

impl<T: SyncEvaluator> BlockingTaskWrapper<T> {
    /// The evaluator that the wrapper hands to its tasks.
    pub closed spec fn inner(&self) -> T {
        self.evaluator
    }

    /// The evaluator that the wrapper hands to its tasks.
    pub fn evaluator(&self) -> (out: &T)
        ensures
            *out == self.inner(),
    {
        &self.evaluator
    }

    /// Run the task of one legal play: the ending, where the play ends the
    /// game; else what the evaluator makes of the board for `player`, who
    /// moves next there.
    pub fn run_task(evaluator: &mut T, idx: usize, b: &Board, e: Option<End>, player: Player) -> (out:
        (usize, EstimationResult))
        requires
            e is None ==> old(evaluator).accepts(*b, player),
        ensures
            out.0 == idx,
            out.1.wf(),
            match e {
                Some(end) => out.1 == EstimationResult::Full(end),
                None => exists|found: (Play, EstimationResult)|
                    #[trigger] old(evaluator).yields(*b, player, found) && out.1 == found.1,
            },
            forall|board: Board, p: Player|
                old(evaluator).accepts(board, p) ==> final(evaluator).accepts(board, p),
    {
        match e {
            Some(e) => (idx, EstimationResult::Full(e)),
            None => (idx, evaluator.evaluate(b, player).1),
        }
    }

    /// Fold the results of the tasks: the play that `player` likes best.
    pub fn conclude(results: &Vec<(usize, EstimationResult)>, player: Player) -> (out: (
        Play,
        EstimationResult,
    ))
        requires
            results@.len() > 0,
            forall|j: int| 0 <= j < results@.len() ==> (#[trigger] results@[j]).0 < WIDTH,
        ensures
            out == as_plays(results@, player)[best_index(as_plays(results@, player), player)],
    {
        let mut plays: Vec<(Play, EstimationResult)> = Vec::new();
        let mut i: usize = 0;
        while i < results.len()
            invariant
                i <= results@.len(),
                plays@.len() == i,
                forall|j: int| 0 <= j < results@.len() ==> (#[trigger] results@[j]).0 < WIDTH,
                forall|j: int| 0 <= j < i ==> #[trigger] plays@[j] == as_plays(results@, player)[j],
            decreases results@.len() - i,
        {
            let (idx, est) = results[i];
            plays.push((Play::try_from((idx, player)).unwrap(), est));
            i = i + 1;
        }
        assert(plays@ =~= as_plays(results@, player));
        EstimationResult::best_for(plays.as_slice(), player)
    }
}

} // verus!
