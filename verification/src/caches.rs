//! Caches to store information
use vstd::prelude::*;

pub mod multi_thread;
pub mod single_thread;

pub use multi_thread::KnowledgeCacheMultiThread;
pub use single_thread::KnowledgeCacheSingleThread;

use crate::game::board::Board;
use crate::game::{End, Player};

verus! {

/// What a cache with the given entries answers for a key.
pub open spec fn found(entries: Map<u128, (usize, End)>, key: u128) -> Option<(usize, End)> {
    if entries.contains_key(key) {
        Some(entries[key])
    } else {
        None
    }
}

/// In the entries of one owner, what has been remembered is found again, and
/// remembering it neither loses nor changes what is stored for another key.
pub proof fn remembered_is_found(
    entries: Map<u128, (usize, End)>,
    key: u128,
    entry: (usize, End),
    other: u128,
)
    ensures
        found(entries.insert(key, entry), key) == Some(entry),
        other != key ==> found(entries.insert(key, entry), other) == found(entries, other),
{
}

/// A cache implementation
///
/// A cache maps the key of a position to the best column to play there and
/// the ending that the play leads to. What it holds can be told from one
/// handle only while that handle is its exclusive owner; a cache shared with
/// other owners may change between any two calls. The entries of an exclusive
/// owner are finite in number.
pub trait KnowledgeCache {
    /// The entries of the cache, by the key of their position.
    spec fn entries(&self) -> Map<u128, (usize, End)>;

    /// Whether this handle alone owns the cache.
    spec fn exclusive(&self) -> bool;

    /// Lookup the already calculated ending from a `Board` and a `Player`, with the best column to play
    fn lookup(&self, board_state: Board, player: Player) -> (out: Option<(usize, End)>)
        ensures
            self.exclusive() ==> out == found(self.entries(), board_state.spec_key(player)),
            self.exclusive() ==> self.entries().dom().finite(),
    ;

    /// Store a newly calculated best move for a `Player` from a `Board`
    ///
    /// An entry already stored for the position is overwritten.
    fn remember(
        &mut self,
        board_state: Board,
        player: Player,
        best_choice: usize,
        projected_ending: End,
    )
        ensures
            final(self).exclusive() == old(self).exclusive(),
            old(self).exclusive() ==> final(self).entries() == old(self).entries().insert(
                board_state.spec_key(player),
                (best_choice, projected_ending),
            ),
            old(self).exclusive() ==> old(self).entries().dom().finite(),
            old(self).exclusive() ==> final(self).entries().dom().finite(),
    ;

    /// Empty the cache
    fn clean(&mut self)
        ensures
            final(self).exclusive() == old(self).exclusive(),
            old(self).exclusive() ==> final(self).entries() == Map::<u128, (usize, End)>::empty(),
            old(self).exclusive() ==> final(self).entries().dom().finite(),
    ;

    /// Number of entry in a cache
    fn len(&self) -> (out: usize)
        ensures
            self.exclusive() ==> out == self.entries().len(),
            self.exclusive() ==> self.entries().dom().finite(),
    ;

    /// Is the cache empty
    fn is_empty(&self) -> (out: bool)
        ensures
            self.exclusive() ==> out == (self.entries().len() == 0),
            self.exclusive() ==> self.entries().dom().finite(),
    {
        self.len() == 0
    }
}

} // verus!
