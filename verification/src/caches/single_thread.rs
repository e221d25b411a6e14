//! The cache of a single owner.
use vstd::prelude::*;

use crate::caches::KnowledgeCache;
use crate::game::board::Board;
use crate::game::{End, Player};
use std::collections::BTreeMap;

verus! {

broadcast use {vstd::std_specs::btree::group_btree_axioms, vstd::laws_cmp::group_laws_cmp};

/// A non-thread safe implementation of cache
#[derive(Debug)]
pub struct KnowledgeCacheSingleThread {
    inner: BTreeMap<u128, (usize, End)>,
}

impl KnowledgeCache for KnowledgeCacheSingleThread {
    closed spec fn entries(&self) -> Map<u128, (usize, End)> {
        self.inner@
    }

    open spec fn exclusive(&self) -> bool {
        true
    }

    fn lookup(&self, board_state: Board, player: Player) -> (out: Option<(usize, End)>) {
        let key = board_state.key(player);
        match self.inner.get(&key) {
            Some(entry) => Some(*entry),
            None => None,
        }
    }

    fn remember(
        &mut self,
        board_state: Board,
        player: Player,
        best_choice: usize,
        projected_ending: End,
    ) {
        let key = board_state.key(player);
        self.inner.insert(key, (best_choice, projected_ending));
    }

    fn clean(&mut self) {
        self.inner.clear();
    }

    fn len(&self) -> (out: usize) {
        self.inner.len()
    }
}

impl KnowledgeCacheSingleThread {
    /// A cache never holds more than finitely many entries.
    pub proof fn entries_are_finite(&self)
        ensures
            self.entries().dom().finite(),
    {
    }
}

impl Clone for KnowledgeCacheSingleThread {
    /// A cache of its own with the same entries: what is done to one of the
    /// two afterwards leaves the other as it was.
    fn clone(&self) -> (out: Self)
        ensures
            out.entries() == self.entries(),
    {
        Self { inner: self.inner.clone() }
    }
}

impl Default for KnowledgeCacheSingleThread {
    /// A cache with nothing in it.
    fn default() -> (out: Self)
        ensures
            out.entries() == Map::<u128, (usize, End)>::empty(),
    {
        Self { inner: BTreeMap::new() }
    }
}

} // verus!
