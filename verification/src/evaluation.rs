//! Estimations of a position and the evaluators that produce them.
use vstd::prelude::*;

use crate::game::board::Board;
use crate::game::play::Play;
use crate::game::{End, Game, Player};
use std::cmp::Ordering;
use std::ops::Neg;
use vstd::std_specs::cmp::{PartialEqSpec, PartialOrdSpec};

pub mod async_wrapper;
pub mod min_max;
pub mod min_max_cached;
pub mod random_ai;
pub mod threaded_wrapper;

verus! {

/// Number of score units in one whole point of a partial estimation.
///
/// Every weight that the board's own scoring hands out is a whole number of
/// these units.
pub const SCORE_UNIT: i64 = 765765;

/// Estimation of the ending from a position.
#[derive(Debug, Clone, Copy)]
pub enum EstimationResult {
    /// The estimation can't determine if the position is winning or losing.
    ///
    /// The score is counted in units of which `SCORE_UNIT` make one point.
    /// A positive value means that the `FIRST` player has an advantage, a
    /// negative one that the `SECOND` player has.
    Partial(i64),
    /// The estimation can determine the best play for this position.
    ///
    /// The game will end as `End`.
    Full(End),
}

impl EstimationResult {
    /// The place of an estimation on the scale by which estimations are
    /// compared: a win of `FIRST` at the top, a win of `SECOND` at the bottom,
    /// a stall in the middle, a partial estimation at its own score.
    pub open spec fn score(&self) -> int {
        match *self {
            EstimationResult::Partial(f) => f as int,
            EstimationResult::Full(End::Stall) => 0,
            EstimationResult::Full(End::Win { player: Player::FIRST }) => i64::MAX as int,
            EstimationResult::Full(End::Win { player: Player::SECOND }) => -(i64::MAX as int),
        }
    }

    /// A partial estimation is well formed when its score lies strictly between
    /// the two wins; a full estimation always is.
    pub open spec fn wf(&self) -> bool {
        match *self {
            EstimationResult::Partial(f) => -(i64::MAX as int) < f < i64::MAX as int,
            EstimationResult::Full(_) => true,
        }
    }

    /// Whether `player` strictly prefers `e2` to `self`.
    pub open spec fn spec_is_better(&self, e2: &EstimationResult, player: &Player) -> bool {
        match *player {
            Player::FIRST => e2.score() > self.score(),
            Player::SECOND => e2.score() < self.score(),
        }
    }

    /// The estimation as seen from the other side of the board.
    pub open spec fn negated(&self) -> EstimationResult {
        match *self {
            EstimationResult::Full(End::Stall) => EstimationResult::Full(End::Stall),
            EstimationResult::Full(End::Win { player }) => EstimationResult::Full(
                End::Win { player: player.spec_other() },
            ),
            EstimationResult::Partial(f) => EstimationResult::Partial((-f) as i64),
        }
    }

    /// The partial estimation that stands at the same place of the scale.
    pub open spec fn spec_into_partial(&self) -> EstimationResult {
        EstimationResult::Partial(self.score() as i64)
    }

    /// Express an estimation as a partial one of the same score.
    #[verifier::when_used_as_spec(spec_into_partial)]
    pub fn into_partial(&self) -> (out: EstimationResult)
        ensures
            out == self.spec_into_partial(),
            out.score() == self.score(),
    {
        match *self {
            EstimationResult::Partial(_) => *self,
            EstimationResult::Full(e) => match e {
                End::Stall => EstimationResult::Partial(0),
                End::Win { player } => match player {
                    Player::FIRST => EstimationResult::Partial(i64::MAX),
                    Player::SECOND => EstimationResult::Partial(-i64::MAX),
                },
            },
        }
    }

    /// Compare two estimations to get the best for a player: whether `e2` is
    /// strictly better than `self` in the eyes of `player`.
    #[verifier::when_used_as_spec(spec_is_better)]
    pub fn is_better(&self, e2: &EstimationResult, player: &Player) -> (out: bool)
        ensures
            out == self.spec_is_better(e2, player),
    {
        let a: i64 = i64::from(*self);
        let b: i64 = i64::from(*e2);
        match player {
            Player::FIRST => b > a,
            Player::SECOND => b < a,
        }
    }
}

/// Index of the candidate that `player` likes best: the first one that no
/// other candidate beats. It is 0 for an empty list.
pub open spec fn best_index<T>(inputs: Seq<(T, EstimationResult)>, player: Player) -> int
    decreases inputs.len(),
{
    if inputs.len() <= 1 {
        0
    } else {
        let k = best_index(inputs.drop_last(), player);
        if inputs[k].1.spec_is_better(&inputs.last().1, &player) {
            inputs.len() - 1
        } else {
            k
        }
    }
}

/// The candidate at `best_index` is in range, is beaten by none, and beats
/// every candidate that comes before it: ties go to the first occurrence.
pub proof fn best_index_is_first_best<T>(inputs: Seq<(T, EstimationResult)>, player: Player)
    requires
        inputs.len() > 0,
    ensures
        0 <= best_index(inputs, player) < inputs.len(),
        forall|j: int|
            0 <= j < inputs.len() ==> !inputs[best_index(inputs, player)].1.spec_is_better(
                &(#[trigger] inputs[j]).1,
                &player,
            ),
        forall|j: int|
            0 <= j < best_index(inputs, player) ==> (#[trigger] inputs[j]).1.spec_is_better(
                &inputs[best_index(inputs, player)].1,
                &player,
            ),
    decreases inputs.len(),
{
    if inputs.len() > 1 {
        let front = inputs.drop_last();
        best_index_is_first_best(front, player);
        let k = best_index(front, player);
        assert forall|j: int| 0 <= j < front.len() implies #[trigger] inputs[j] == front[j] by {}
        assert forall|j: int| 0 <= j < inputs.len() implies !inputs[best_index(
            inputs,
            player,
        )].1.spec_is_better(&(#[trigger] inputs[j]).1, &player) by {
            if j < front.len() {
                assert(!front[k].1.spec_is_better(&front[j].1, &player));
            }
        }
        assert forall|j: int| 0 <= j < best_index(inputs, player) implies (#[trigger] inputs[j]).1.spec_is_better(
            &inputs[best_index(inputs, player)].1,
            &player,
        ) by {
            if j < k {
                assert(front[j].1.spec_is_better(&front[k].1, &player));
            } else if j < front.len() {
                assert(!front[k].1.spec_is_better(&front[j].1, &player));
            }
        }
    }
}

/// Which candidate is best depends on the estimations alone, not on what
/// they are attached to.
pub proof fn best_index_by_estimations<T, U>(
    a: Seq<(T, EstimationResult)>,
    b: Seq<(U, EstimationResult)>,
    player: Player,
)
    requires
        a.len() == b.len(),
        forall|j: int| 0 <= j < a.len() ==> (#[trigger] a[j]).1 == b[j].1,
    ensures
        best_index(a, player) == best_index(b, player),
    decreases a.len(),
{
    if a.len() > 1 {
        best_index_by_estimations(a.drop_last(), b.drop_last(), player);
        best_index_is_first_best(a.drop_last(), player);
    }
}

/// The place on the scale of the best candidate does not depend on the order
/// of the candidates: two lists with the same candidates give best candidates
/// that are equal as estimations. Only which of several equal ones is chosen
/// depends on the order.
pub proof fn best_score_ignores_order<T>(
    a: Seq<(T, EstimationResult)>,
    b: Seq<(T, EstimationResult)>,
    player: Player,
)
    requires
        a.len() > 0,
        a.to_multiset() == b.to_multiset(),
    ensures
        a[best_index(a, player)].1.score() == b[best_index(b, player)].1.score(),
{
    vstd::seq_lib::to_multiset_len(a);
    vstd::seq_lib::to_multiset_len(b);
    best_index_is_first_best(a, player);
    best_index_is_first_best(b, player);
    let best_a = a[best_index(a, player)];
    let best_b = b[best_index(b, player)];
    vstd::seq_lib::to_multiset_contains(a, best_a);
    vstd::seq_lib::to_multiset_contains(b, best_a);
    vstd::seq_lib::to_multiset_contains(a, best_b);
    vstd::seq_lib::to_multiset_contains(b, best_b);
    assert(a.contains(best_a));
    assert(b.contains(best_b));
    let i = choose|i: int| 0 <= i < b.len() && b[i] == best_a;
    let j = choose|j: int| 0 <= j < a.len() && a[j] == best_b;
    assert(!best_b.1.spec_is_better(&b[i].1, &player));
    assert(!best_a.1.spec_is_better(&a[j].1, &player));
}

impl EstimationResult {
    /// Get the best move from a list for a given player.
    ///
    /// Among equally good candidates the one that comes first in the list is
    /// chosen.
    pub fn best_for<T: Copy>(inputs: &[(T, EstimationResult)], player: Player) -> (out: (
        T,
        EstimationResult,
    ))
        requires
            inputs@.len() > 0,
        ensures
            out == inputs@[best_index(inputs@, player)],
    {
        let mut best: usize = 0;
        let mut i: usize = 1;
        assert(inputs@.take(1).len() == 1);
        while i < inputs.len()
            invariant
                1 <= i <= inputs@.len(),
                0 <= best < i,
                best == best_index(inputs@.take(i as int), player),
            decreases inputs@.len() - i,
        {
            proof {
                let next = inputs@.take(i + 1);
                assert(next.drop_last() =~= inputs@.take(i as int));
                assert(next.last() == inputs@[i as int]);
                assert(next[best as int] == inputs@[best as int]);
            }
            if inputs[best].1.is_better(&inputs[i].1, &player) {
                best = i;
            }
            i = i + 1;
        }
        assert(inputs@.take(i as int) =~= inputs@);
        inputs[best]
    }
}

impl vstd::std_specs::convert::FromSpecImpl<EstimationResult> for i64 {
    open spec fn obeys_from_spec() -> bool {
        true
    }

    open spec fn from_spec(value: EstimationResult) -> i64 {
        value.score() as i64
    }
}

impl From<EstimationResult> for i64 {
    /// The score of an estimation.
    fn from(value: EstimationResult) -> (out: i64)
        ensures
            out == value.score(),
    {
        match value.into_partial() {
            EstimationResult::Partial(f) => f,
            EstimationResult::Full(_) => 0,
        }
    }
}


impl vstd::std_specs::ops::NegSpecImpl for EstimationResult {
    open spec fn obeys_neg_spec() -> bool {
        true
    }

    open spec fn neg_req(self) -> bool {
        self.wf()
    }

    open spec fn neg_spec(self) -> EstimationResult {
        self.negated()
    }
}

impl Neg for EstimationResult {
    type Output = EstimationResult;

    /// Flip the estimation to the other player's side: a win changes hands, a
    /// score changes sign, a stall stays a stall.
    fn neg(self) -> (out: EstimationResult)
        ensures
            out == self.negated(),
            out.wf(),
            out.score() == -self.score(),
    {
        match self {
            EstimationResult::Full(e) => match e {
                End::Stall => EstimationResult::Full(End::Stall),
                End::Win { player } => EstimationResult::Full(End::Win { player: player.other() }),
            },
            EstimationResult::Partial(f) => EstimationResult::Partial(-f),
        }
    }
}

impl vstd::std_specs::cmp::PartialEqSpecImpl for EstimationResult {
    open spec fn obeys_eq_spec() -> bool {
        true
    }

    open spec fn eq_spec(&self, other: &EstimationResult) -> bool {
        self.score() == other.score()
    }
}

impl PartialEq for EstimationResult {
    /// Two estimations are equal when they stand at the same place of the
    /// scale.
    fn eq(&self, other: &Self) -> (out: bool) {
        let a: i64 = i64::from(*self);
        let b: i64 = i64::from(*other);
        a == b
    }
}

impl Eq for EstimationResult {

}

impl vstd::std_specs::cmp::PartialOrdSpecImpl for EstimationResult {
    open spec fn obeys_partial_cmp_spec() -> bool {
        true
    }

    open spec fn partial_cmp_spec(&self, other: &EstimationResult) -> Option<Ordering> {
        if self.score() < other.score() {
            Some(Ordering::Less)
        } else if other.score() < self.score() {
            Some(Ordering::Greater)
        } else {
            Some(Ordering::Equal)
        }
    }
}

impl PartialOrd for EstimationResult {
    /// Estimations are ordered by their place on the scale.
    fn partial_cmp(&self, other: &Self) -> (out: Option<Ordering>) {
        let a: i64 = i64::from(*self);
        let b: i64 = i64::from(*other);
        if a < b {
            Some(Ordering::Less)
        } else if b < a {
            Some(Ordering::Greater)
        } else {
            Some(Ordering::Equal)
        }
    }
}


/// Estimations are strictly and totally ordered by their place on the scale:
/// none is below itself, no two are below each other, being below carries
/// through a third, and of two estimations one is below the other unless they
/// are equal.
pub proof fn order_is_strict_and_total(a: EstimationResult, b: EstimationResult, c: EstimationResult)
    ensures
        a.partial_cmp_spec(&a) == Some(Ordering::Equal),
        a.partial_cmp_spec(&b) == Some(Ordering::Less) ==> b.partial_cmp_spec(&a) == Some(
            Ordering::Greater,
        ),
        a.partial_cmp_spec(&b) == Some(Ordering::Less) && b.partial_cmp_spec(&c) == Some(
            Ordering::Less,
        ) ==> a.partial_cmp_spec(&c) == Some(Ordering::Less),
        a.partial_cmp_spec(&b) == Some(Ordering::Less) || b.partial_cmp_spec(&a) == Some(
            Ordering::Less,
        ) || a.eq_spec(&b),
        a.eq_spec(&b) <==> a.partial_cmp_spec(&b) == Some(Ordering::Equal),
        a.eq_spec(&b) && b.eq_spec(&c) ==> a.eq_spec(&c),
        a.eq_spec(&b) ==> b.eq_spec(&a),
{
}

/// What each player prefers follows the same order: `FIRST` prefers what is
/// above, `SECOND` what is below, and neither prefers one of two equal
/// estimations.
pub proof fn preference_follows_order(a: EstimationResult, b: EstimationResult)
    ensures
        a.spec_is_better(&b, &Player::FIRST) <==> a.partial_cmp_spec(&b) == Some(Ordering::Less),
        a.spec_is_better(&b, &Player::SECOND) <==> a.partial_cmp_spec(&b) == Some(
            Ordering::Greater,
        ),
        a.spec_is_better(&b, &Player::FIRST) <==> b.spec_is_better(&a, &Player::SECOND),
{
}

/// Well-formed estimations that are equal are the same, but for a stall and
/// the partial estimation of score zero.
pub proof fn equal_estimations(a: EstimationResult, b: EstimationResult)
    requires
        a.wf(),
        b.wf(),
        a.eq_spec(&b),
    ensures
        a == b || a.score() == 0,
{
}

/// Turning an estimation round twice gives it back.
pub proof fn negation_is_an_involution(a: EstimationResult)
    requires
        a.wf(),
    ensures
        a.negated().negated() == a,
        a.negated().wf(),
{
}

/// Turning two estimations round swaps their order.
pub proof fn negation_reverses_order(a: EstimationResult, b: EstimationResult)
    requires
        a.wf(),
        b.wf(),
    ensures
        a.negated().score() == -a.score(),
        a.partial_cmp_spec(&b) == Some(Ordering::Less) <==> b.negated().partial_cmp_spec(
            &a.negated(),
        ) == Some(Ordering::Less),
{
}

/// A win outranks every well-formed partial estimation, whatever its score.
pub proof fn win_outranks_partial(winner: Player, score: i64)
    requires
        EstimationResult::Partial(score).wf(),
    ensures
        EstimationResult::Partial(score).spec_is_better(
            &EstimationResult::Full(End::Win { player: winner }),
            &winner,
        ),
{
}

/// Evaluator that can give a recommendation for a play for a state of the game.
///
/// This one has a blocking interface.
pub trait SyncEvaluator {
    /// The positions about which the evaluator may be asked.
    spec fn accepts(&self, board: Board, player: Player) -> bool;

    /// What the evaluator may answer about a position.
    spec fn yields(&self, board: Board, player: Player, out: (Play, EstimationResult)) -> bool;

    /// Whether the evaluator may be asked about a position.
    fn can_evaluate(&self, board: &Board, player: Player) -> (out: bool)
        ensures
            out == self.accepts(*board, player),
    ;

    /// Return the estimated best play for the player `player` in the state `board`
    fn evaluate(&mut self, board: &Board, player: Player) -> (out: (Play, EstimationResult))
        requires
            old(self).accepts(*board, player),
        ensures
            old(self).yields(*board, player, out),
            out.1.wf(),
            forall|b: Board, p: Player| old(self).accepts(b, p) ==> final(self).accepts(b, p),
    ;
}

/// What every `SyncEvaluator` can do besides: evaluate the position of a
/// game.
pub trait GameEvaluator: SyncEvaluator {
    /// Return the estimated best play for the player `player` for the game state
    fn evaluate_game(&mut self, game: &Game) -> (out: (Play, EstimationResult))
        requires
            old(self).accepts(game.spec_board(), game.spec_next_to_play()),
        ensures
            old(self).yields(game.spec_board(), game.spec_next_to_play(), out),
            out.1.wf(),
            forall|b: Board, p: Player| old(self).accepts(b, p) ==> final(self).accepts(b, p),
    ;
}

impl<E: SyncEvaluator> GameEvaluator for E {
    fn evaluate_game(&mut self, game: &Game) -> (out: (Play, EstimationResult)) {
        self.evaluate(&game.board(), game.next_to_play())
    }
}

} // verus!
