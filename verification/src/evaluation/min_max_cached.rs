//! Depth-bounded search that remembers the endings it has found.
use vstd::prelude::*;

use crate::caches::KnowledgeCache;
use crate::evaluation::min_max::{
    candidates, candidates_follow_moves, every_play_ends, full_estimation_stays_deeper, minimax,
    wins_at_once,
};
use crate::evaluation::{best_index, best_index_is_first_best, EstimationResult, SyncEvaluator};
use crate::game::board::Board;
use crate::game::play::Play;
use crate::game::{End, Player};
use crate::WIDTH;
use std::ops::Neg;

verus! {

/// A MinMax evaluator with a cache
///
/// Before it searches below a play it asks the cache for the position that
/// the play leads to, with the opponent to move. Of what it searches it keeps
/// the full estimations, never the partial ones.
///
/// With a cache of its own the policy answers as the plain search does, as
/// long as it is asked about the positions of a game in the order in which
/// they come: see `cached_search_agrees` and `agreement_carries_forward`.
#[derive(Debug, Clone)]
pub struct MinMaxPolicyCached<C: KnowledgeCache> {
    max_depth: usize,
    knowledge_cache: C,
}

/// The entries after the result of a search has been offered to the cache
/// under `key`: a full estimation is stored with its column, a partial one is
/// not.
pub open spec fn remembered(
    entries: Map<u128, (usize, End)>,
    key: u128,
    result: (usize, EstimationResult),
) -> Map<u128, (usize, End)> {
    match result.1 {
        EstimationResult::Full(e) => entries.insert(key, (result.0, e)),
        EstimationResult::Partial(_) => entries,
    }
}

/// What a search of `depth` plies returns when it starts with the given
/// entries in its cache, and the entries that it leaves there.
pub open spec fn cached_minimax(
    entries: Map<u128, (usize, End)>,
    board: Board,
    player: Player,
    depth: nat,
) -> (Map<u128, (usize, End)>, (usize, EstimationResult))
    decreases depth, 1nat, 0nat,
{
    if depth == 0 {
        (
            entries,
            ((WIDTH / 2) as usize, EstimationResult::Partial(board.spec_naive_eval() as i64)),
        )
    } else {
        let found = cached_candidates(entries, player, depth, board.spec_legal_moves(player));
        (found.0, found.1[best_index(found.1, player)])
    }
}

/// The candidates that a list of plays gives a search with a cache, and the
/// entries left in the cache once the last play has been looked at.
///
/// A play that ends the game stands with that ending. For any other the
/// position it leads to is looked up with the opponent to move: a stored
/// ending stands for the opponent's search; without one the opponent's search
/// is made, one ply shorter, and offered to the cache. Either is turned round.
pub open spec fn cached_candidates(
    entries: Map<u128, (usize, End)>,
    player: Player,
    depth: nat,
    moves: Seq<(usize, Board, Option<End>)>,
) -> (Map<u128, (usize, End)>, Seq<(usize, EstimationResult)>)
    decreases depth, 0nat, moves.len(),
{
    if moves.len() == 0 || depth == 0 {
        (entries, Seq::empty())
    } else {
        let before = cached_candidates(entries, player, depth, moves.drop_last());
        let last = moves.last();
        match last.2 {
            Some(e) => (before.0, before.1.push((last.0, EstimationResult::Full(e)))),
            None => {
                let key = last.1.spec_key(player.spec_other());
                if before.0.contains_key(key) {
                    (
                        before.0,
                        before.1.push(
                            (last.0, EstimationResult::Full(before.0[key].1).negated()),
                        ),
                    )
                } else {
                    let deeper = cached_minimax(
                        before.0,
                        last.1,
                        player.spec_other(),
                        (depth - 1) as nat,
                    );
                    (
                        remembered(deeper.0, key, deeper.1),
                        before.1.push((last.0, deeper.1.1.negated())),
                    )
                }
            },
        }
    }
}

impl<C: KnowledgeCache + Default> MinMaxPolicyCached<C> {
    /// A policy that searches `max_depth` plies ahead, with a cache of its
    /// own that holds nothing yet.
    pub fn new(max_depth: usize) -> (out: Self)
        ensures
            out.depth() == max_depth,
            out.cache().exclusive() ==> out.cache().entries() == Map::<u128, (usize, End)>::empty(),
    {
        let mut knowledge_cache = C::default();
        knowledge_cache.clean();
        Self { max_depth, knowledge_cache }
    }
}

impl<C: KnowledgeCache> MinMaxPolicyCached<C> {
    /// The depth to which the policy searches.
    pub closed spec fn depth(&self) -> nat {
        self.max_depth as nat
    }

    /// The cache of the policy.
    pub closed spec fn cache(&self) -> C {
        self.knowledge_cache
    }

    /// Number of positions whose ending the policy remembers.
    pub fn get_knowledge_size(&self) -> (out: usize)
        ensures
            self.cache().exclusive() ==> out == self.cache().entries().len(),
    {
        self.knowledge_cache.len()
    }

    /// Search `depth` plies ahead for the player to move, with the cache.
    pub fn max(&mut self, board: &Board, player: Player, depth: usize) -> (out: (
        usize,
        EstimationResult,
    ))
        requires
            depth > 0 ==> !board.is_full(),
        ensures
            out.1.wf(),
            out.0 < WIDTH,
            depth > 0 ==> !board.column_full(out.0 as int),
            depth > 0 && wins_at_once(*board, player) ==> out.1 == EstimationResult::Full(
                End::Win { player },
            ),
            depth > 0 && every_play_ends(*board, player) ==> out == minimax(
                *board,
                player,
                depth as nat,
            ),
            final(self).depth() == old(self).depth(),
            final(self).cache().exclusive() == old(self).cache().exclusive(),
            old(self).cache().exclusive() ==> {
                let found = cached_minimax(
                    old(self).cache().entries(),
                    *board,
                    player,
                    depth as nat,
                );
                &&& final(self).cache().entries() == found.0
                &&& out == found.1
            },
            old(self).cache().exclusive() && cache_agrees(
                old(self).cache().entries(),
                board.pieces() + depth as nat,
            ) ==> {
                &&& out == minimax(*board, player, depth as nat)
                &&& cache_agrees(final(self).cache().entries(), board.pieces() + depth as nat)
            },
        decreases depth,
    {
        proof {
            if self.knowledge_cache.exclusive() && cache_agrees(
                self.knowledge_cache.entries(),
                board.pieces() + depth as nat,
            ) {
                cached_search_agrees(self.knowledge_cache.entries(), *board, player, depth as nat);
            }
        }
        if depth == 0 {
            proof {
                board.naive_eval_bounded();
            }
            return (WIDTH / 2, EstimationResult::Partial(board.naive_eval()));
        }
        let legal_move = board.legal_moves(player);
        proof {
            board.legal_moves_are_open(player);
            board.open_board_has_moves(player);
        }
        let ghost start = self.knowledge_cache.entries();
        let ghost owned = self.knowledge_cache.exclusive();
        let mut move_evaluation: Vec<(usize, EstimationResult)> = Vec::new();
        let mut i: usize = 0;
        assert(legal_move@.take(0) =~= Seq::empty());
        while i < legal_move.len()
            invariant
                depth > 0,
                i <= legal_move@.len(),
                legal_move@ == board.spec_legal_moves(player),
                self.max_depth == old(self).max_depth,
                self.knowledge_cache.exclusive() == owned,
                owned ==> {
                    let found = cached_candidates(
                        start,
                        player,
                        depth as nat,
                        legal_move@.take(i as int),
                    );
                    &&& self.knowledge_cache.entries() == found.0
                    &&& move_evaluation@ == found.1
                },
                move_evaluation@.len() == i,
                forall|j: int|
                    0 <= j < legal_move@.len() ==> {
                        &&& (#[trigger] legal_move@[j]).0 < WIDTH
                        &&& !board.column_full(legal_move@[j].0 as int)
                        &&& legal_move@[j].2 == legal_move@[j].1.spec_end()
                    },
                forall|j: int|
                    0 <= j < i ==> {
                        &&& (#[trigger] move_evaluation@[j]).1.wf()
                        &&& move_evaluation@[j].0 == legal_move@[j].0
                        &&& legal_move@[j].2 is Some ==> move_evaluation@[j].1
                            == EstimationResult::Full(legal_move@[j].2.unwrap())
                    },
            decreases legal_move@.len() - i,
        {
            proof {
                assert(legal_move@.take(i + 1).drop_last() =~= legal_move@.take(i as int));
                assert(legal_move@.take(i + 1).last() == legal_move@[i as int]);
            }
            let (idx, b, e) = legal_move[i];
            let estimation = match e {
                Some(e) => EstimationResult::Full(e),
                None => match self.knowledge_cache.lookup(b, player.other()) {
                    None => {
                        let deeper = self.max(&b, player.other(), depth - 1);
                        if let EstimationResult::Full(e) = deeper.1 {
                            self.knowledge_cache.remember(b, player.other(), deeper.0, e);
                        }
                        deeper.1.neg()
                    },
                    Some(x) => EstimationResult::Full(x.1).neg(),
                },
            };
            move_evaluation.push((idx, estimation));
            i = i + 1;
        }
        assert(legal_move@.take(i as int) =~= legal_move@);
        proof {
            best_index_is_first_best(move_evaluation@, player);
            if every_play_ends(*board, player) {
                candidates_follow_moves(player, depth as nat, legal_move@);
                assert(move_evaluation@ =~= candidates(player, depth as nat, legal_move@));
            }
            if wins_at_once(*board, player) {
                let j = choose|j: int|
                    0 <= j < legal_move@.len() && (#[trigger] legal_move@[j]).2 == Some(
                        End::Win { player },
                    );
                assert(move_evaluation@[j].1 == EstimationResult::Full(End::Win { player }));
            }
        }
        EstimationResult::best_for(move_evaluation.as_slice(), player)
    }
}


impl<C: KnowledgeCache> SyncEvaluator for MinMaxPolicyCached<C> {
    open spec fn accepts(&self, board: Board, player: Player) -> bool {
        self.depth() > 0 ==> !board.is_full()
    }

    open spec fn yields(&self, board: Board, player: Player, out: (Play, EstimationResult)) -> bool {
        &&& out.0.spec_player() == player
        &&& self.depth() > 0 ==> !board.column_full(out.0.spec_column() as int)
        &&& self.depth() > 0 && wins_at_once(board, player) ==> out.1 == EstimationResult::Full(
            End::Win { player },
        )
        &&& self.depth() > 0 && every_play_ends(board, player) ==> {
            &&& out.0.spec_column() == minimax(board, player, self.depth()).0
            &&& out.1 == minimax(board, player, self.depth()).1
        }
        &&& self.cache().exclusive() ==> {
            let found = cached_minimax(self.cache().entries(), board, player, self.depth());
            &&& out.0.spec_column() == found.1.0
            &&& out.1 == found.1.1
        }
        &&& self.cache().exclusive() && cache_agrees(
            self.cache().entries(),
            board.pieces() + self.depth(),
        ) ==> {
            &&& out.0.spec_column() == minimax(board, player, self.depth()).0
            &&& out.1 == minimax(board, player, self.depth()).1
        }
    }

    fn can_evaluate(&self, board: &Board, player: Player) -> (out: bool) {
        self.max_depth == 0 || !board.is_full()
    }

    fn evaluate(&mut self, board: &Board, player: Player) -> (out: (Play, EstimationResult))
        ensures
            final(self).depth() == old(self).depth(),
            final(self).cache().exclusive() == old(self).cache().exclusive(),
            old(self).cache().exclusive() ==> final(self).cache().entries() == cached_minimax(
                old(self).cache().entries(),
                *board,
                player,
                old(self).depth(),
            ).0,
            old(self).cache().exclusive() && cache_agrees(
                old(self).cache().entries(),
                board.pieces() + old(self).depth(),
            ) ==> cache_agrees(
                final(self).cache().entries(),
                board.pieces() + old(self).depth(),
            ),
    {
        let depth = self.max_depth;
        let best = self.max(board, player, depth);
        (Play::try_from((best.0, player)).unwrap(), best.1)
    }
}

/// Whether each entry holds the ending that the plain search returns for its
/// position, at the depth that is left once the position's pawns are taken
/// from `total`: a depth of one ply or more, on a board that is not full.
pub open spec fn cache_agrees(entries: Map<u128, (usize, End)>, total: nat) -> bool {
    forall|board: Board, player: Player|
        entries.contains_key(#[trigger] board.spec_key(player)) ==> {
            &&& !board.is_full()
            &&& board.pieces() < total
            &&& minimax(board, player, (total - board.pieces()) as nat).1 == EstimationResult::Full(
                entries[board.spec_key(player)].1,
            )
        }
}

/// Entries that agree with the plain search keep agreeing as the game goes
/// on: what agrees for one total of pawns and depth agrees for every greater
/// one. So a cache that was filled for a position serves every position that
/// holds as many pawns or more, at the same depth or a greater one.
pub proof fn agreement_carries_forward(entries: Map<u128, (usize, End)>, total: nat, later: nat)
    requires
        cache_agrees(entries, total),
        total <= later,
    ensures
        cache_agrees(entries, later),
{
    assert forall|board: Board, player: Player|
        entries.contains_key(#[trigger] board.spec_key(player)) implies {
        &&& !board.is_full()
        &&& board.pieces() < later
        &&& minimax(board, player, (later - board.pieces()) as nat).1 == EstimationResult::Full(
            entries[board.spec_key(player)].1,
        )
    } by {
        full_estimation_stays_deeper(
            board,
            player,
            (total - board.pieces()) as nat,
            (later - board.pieces()) as nat,
        );
    }
}

/// A search with a cache returns the move and the estimation that the plain
/// search returns, whenever the entries it starts with agree with the plain
/// search; the entries it leaves agree as well. An empty cache always agrees.
pub proof fn cached_search_agrees(
    entries: Map<u128, (usize, End)>,
    board: Board,
    player: Player,
    depth: nat,
)
    requires
        cache_agrees(entries, board.pieces() + depth),
        depth > 0 ==> !board.is_full(),
    ensures
        cached_minimax(entries, board, player, depth).1 == minimax(board, player, depth),
        cache_agrees(cached_minimax(entries, board, player, depth).0, board.pieces() + depth),
        cache_agrees(Map::<u128, (usize, End)>::empty(), board.pieces() + depth),
    decreases depth, 1nat, 0nat,
{
    if depth > 0 {
        let moves = board.spec_legal_moves(player);
        cached_candidates_agree(entries, board, player, depth, moves.len() as int);
        assert(moves.take(moves.len() as int) =~= moves);
    }
}

proof fn cached_candidates_agree(
    entries: Map<u128, (usize, End)>,
    board: Board,
    player: Player,
    depth: nat,
    n: int,
)
    requires
        cache_agrees(entries, board.pieces() + depth),
        depth > 0,
        0 <= n <= board.spec_legal_moves(player).len(),
    ensures
        cached_candidates(entries, player, depth, board.spec_legal_moves(player).take(n)).1
            == candidates(player, depth, board.spec_legal_moves(player).take(n)),
        cache_agrees(
            cached_candidates(entries, player, depth, board.spec_legal_moves(player).take(n)).0,
            board.pieces() + depth,
        ),
    decreases depth, 0nat, n,
{
    let moves = board.spec_legal_moves(player).take(n);
    let total = board.pieces() + depth;
    if n > 0 {
        cached_candidates_agree(entries, board, player, depth, n - 1);
        assert(moves.drop_last() =~= board.spec_legal_moves(player).take(n - 1));
        let before = cached_candidates(entries, player, depth, moves.drop_last());
        let last = moves.last();
        assert(last == board.spec_legal_moves(player)[n - 1]);
        board.legal_moves_are_open(player);
        board.applied_adds_a_piece(last.0 as int, player);
        let other = player.spec_other();
        if last.2 is None {
            let key = last.1.spec_key(other);
            assert(total - last.1.pieces() == depth - 1);
            if !before.0.contains_key(key) {
                cached_search_agrees(before.0, last.1, other, (depth - 1) as nat);
                let deeper = cached_minimax(before.0, last.1, other, (depth - 1) as nat);
                let after = remembered(deeper.0, key, deeper.1);
                assert forall|b: Board, p: Player|
                    after.contains_key(#[trigger] b.spec_key(p)) implies {
                    &&& !b.is_full()
                    &&& b.pieces() < total
                    &&& minimax(b, p, (total - b.pieces()) as nat).1 == EstimationResult::Full(
                        after[b.spec_key(p)].1,
                    )
                } by {
                    if b.spec_key(p) == key {
                        Board::key_is_injective(b, p, last.1, other);
                    }
                }
            }
        }
    }
}

} // verus!
