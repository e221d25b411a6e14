//! The cache that several owners share.
use vstd::prelude::*;

use crate::caches::KnowledgeCache;
use crate::game::board::Board;
use crate::game::{End, Player};
use parking_lot::lock_api::RwLock;
use parking_lot::RawRwLock;
use std::collections::BTreeMap;
use std::sync::Arc;

verus! {

/// The readers-writer lock of `lock_api`, which `parking_lot` builds on.
#[verifier::external_type_specification]
#[verifier::external_body]
#[verifier::reject_recursive_types(R)]
#[verifier::reject_recursive_types(T)]
pub struct ExRwLock<R, T: ?Sized>(RwLock<R, T>);

/// The raw lock of `parking_lot` that guards the shared entries.
#[verifier::external_type_specification]
#[verifier::external_body]
pub struct ExRawRwLock(RawRwLock);

/// A thread safe implementation of the caches
///
/// Every clone of the handle reaches the same entries. A lookup shares the
/// lock with other lookups, a change takes it alone, and no call keeps the
/// lock once it returns.
#[derive(Debug, Clone)]
pub struct KnowledgeCacheMultiThread {
    inner: Arc<RwLock<RawRwLock, BTreeMap<u128, (usize, End)>>>,
}

/// Makes the lock with `RwLock::new`, around an empty map.
///
/// Nothing is claimed of the lock.
#[verifier::external_body]
fn new_lock() -> (out: RwLock<RawRwLock, BTreeMap<u128, (usize, End)>>) {
    RwLock::new(BTreeMap::new())
}

/// Takes the lock for reading with `RwLock::read` and copies out the entry of
/// `key`, if the map holds one.
///
/// Nothing is claimed of the entry: another owner may have written since.
#[verifier::external_body]
fn read_entry(
    lock: &RwLock<RawRwLock, BTreeMap<u128, (usize, End)>>,
    key: u128,
) -> (out: Option<(usize, End)>) {
    lock.read().get(&key).copied()
}

/// Takes the lock for reading with `RwLock::read` and returns the number of
/// entries at that moment.
///
/// Nothing is claimed of the number.
#[verifier::external_body]
fn read_len(lock: &RwLock<RawRwLock, BTreeMap<u128, (usize, End)>>) -> (out: usize) {
    lock.read().len()
}

/// Takes the lock for writing with `RwLock::write` and stores an entry under
/// `key`, in place of an older one.
#[verifier::external_body]
fn write_entry(lock: &RwLock<RawRwLock, BTreeMap<u128, (usize, End)>>, key: u128, entry: (usize, End)) {
    lock.write().insert(key, entry);
}

/// Takes the lock for writing with `RwLock::write` and removes every entry.
#[verifier::external_body]
fn write_clear(lock: &RwLock<RawRwLock, BTreeMap<u128, (usize, End)>>) {
    lock.write().clear();
}

impl KnowledgeCache for KnowledgeCacheMultiThread {
    /// What a shared cache holds cannot be told from one handle: nothing is
    /// to be learnt from this value.
    closed spec fn entries(&self) -> Map<u128, (usize, End)> {
        Map::empty()
    }

    /// A shared cache may always have another owner.
    open spec fn exclusive(&self) -> bool {
        false
    }

    fn lookup(&self, board_state: Board, player: Player) -> (out: Option<(usize, End)>) {
        let key = board_state.key(player);
        read_entry(&self.inner, key)
    }

    fn remember(
        &mut self,
        board_state: Board,
        player: Player,
        best_choice: usize,
        projected_ending: End,
    ) {
        let key = board_state.key(player);
        write_entry(&self.inner, key, (best_choice, projected_ending));
    }

    fn clean(&mut self) {
        write_clear(&self.inner);
    }

    fn len(&self) -> (out: usize) {
        read_len(&self.inner)
    }
}

impl Default for KnowledgeCacheMultiThread {
    /// A cache of its own, with nothing in it and no other owner yet.
    fn default() -> (out: Self) {
        Self { inner: Arc::new(new_lock()) }
    }
}

} // verus!
