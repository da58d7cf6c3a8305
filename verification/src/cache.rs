//! The cache as the proxy shares it: one [`CacheState`] behind a lock that
//! admits many readers or one writer.
//!
//! Every operation takes the lock, does its work on the state and lets the
//! lock go. Between two operations other holders may have changed the state,
//! so the contracts here say what holds of every state; what an operation
//! does to the state it finds is the contract of the operation of the same
//! name on [`CacheState`].

use crate::dispatch::{ErrWrapper, Settled};
use crate::model::{PutOutcome, INSERT_TIMEOUT};
use crate::response::CachedResponse;
use crate::state::{CacheState, Eviction};
use crossbeam::sync::{ShardedLock, ShardedLockReadGuard, ShardedLockWriteGuard};
use vstd::prelude::*;

verus! {

/// `crossbeam::sync::ShardedLock`, a reader-writer lock. Nothing is known of
/// the value inside but its type.
#[verifier::external_type_specification]
#[verifier::external_body]
#[verifier::reject_recursive_types(T)]
pub struct ExShardedLock<T: ?Sized>(ShardedLock<T>);

/// `crossbeam::sync::ShardedLockReadGuard`: shared access, given up when the
/// guard is dropped.
#[verifier::external_type_specification]
#[verifier::external_body]
#[verifier::reject_recursive_types(T)]
pub struct ExShardedLockReadGuard<'a, T: ?Sized>(ShardedLockReadGuard<'a, T>);

/// `crossbeam::sync::ShardedLockWriteGuard`: exclusive access, given up when
/// the guard is dropped.
#[verifier::external_type_specification]
#[verifier::external_body]
#[verifier::reject_recursive_types(T)]
pub struct ExShardedLockWriteGuard<'a, T: ?Sized>(ShardedLockWriteGuard<'a, T>);

/// `ShardedLock::new`: a lock around `state`. Nothing is claimed of it.
#[verifier::external_body]
fn new_lock(state: CacheState) -> ShardedLock<CacheState> {
    ShardedLock::new(state)
}

/// `ShardedLock::read`: waits for shared access. The call fails only on a
/// lock that a writer poisoned by panicking, and a poisoned lock ends the
/// process here. The lock of a cache is taken by the functions of this
/// module alone: none of them panics while it holds a guard, and none takes
/// the lock while it holds one. Nothing is claimed of the guard.
#[verifier::external_body]
fn read_lock<'a>(lock: &'a ShardedLock<CacheState>) -> ShardedLockReadGuard<'a, CacheState> {
    lock.read().expect("Cache map stale!")
}

/// `ShardedLock::write`: waits for exclusive access. As for reading, a
/// poisoned lock ends the process. Nothing is claimed of the guard.
#[verifier::external_body]
fn write_lock<'a>(lock: &'a ShardedLock<CacheState>) -> ShardedLockWriteGuard<'a, CacheState> {
    lock.write().expect("Cache write stale!")
}

/// `Deref::deref` of the read guard: the state behind the lock. Nothing is
/// claimed of it.
#[verifier::external_body]
fn shared<'a, 'b>(guard: &'a ShardedLockReadGuard<'b, CacheState>) -> &'a CacheState {
    &**guard
}

/// `DerefMut::deref_mut` of the write guard: the state behind the lock, to
/// be changed in place. Nothing is claimed of it.
#[verifier::external_body]
fn exclusive<'a, 'b>(guard: &'a mut ShardedLockWriteGuard<'b, CacheState>) -> &'a mut CacheState {
    &mut **guard
}

/// A cache of bounded size, shared by many readers and writers.
pub struct ResponseCache {
    cache: ShardedLock<CacheState>,
    capacity: usize,
}

impl ResponseCache {
    /// The capacity that the cache was made with.
    pub closed spec fn limit(&self) -> nat {
        self.capacity as nat
    }

    /// An empty cache that holds at most `capacity` responses.
    pub fn with_capacity(capacity: usize) -> (r: ResponseCache)
        ensures
            r.limit() == capacity,
    {
        ResponseCache { cache: new_lock(CacheState::with_capacity(capacity)), capacity }
    }

    /// The capacity that the cache was made with.
    pub fn capacity(&self) -> (r: usize)
        ensures
            r == self.limit(),
    {
        self.capacity
    }

    /// The number of responses held at the moment of the call, and the
    /// capacity: the first never exceeds the second.
    pub fn usage(&self) -> (r: (usize, usize))
        ensures
            r.0 <= r.1,
    {
        let guard = read_lock(&self.cache);
        let state = shared(&guard);
        (state.len(), state.capacity())
    }

    /// A snapshot of the response held for `key`, stale or not.
    pub fn get(&self, key: &String) -> Option<CachedResponse> {
        let guard = read_lock(&self.cache);
        shared(&guard).get(key)
    }

    /// The response to replay for `key` at `now`, which is never stale.
    pub fn lookup(&self, key: &String, now: u64) -> (r: Option<CachedResponse>)
        ensures
            r matches Some(resp) ==> !resp@.expired(now),
    {
        let guard = read_lock(&self.cache);
        shared(&guard).lookup(key, now)
    }

    /// Tries once to store `value` under `key` and to schedule its eviction
    /// at `ttl`.
    pub fn try_put(&self, key: String, value: CachedResponse, ttl: u64) -> PutOutcome {
        let mut guard = write_lock(&self.cache);
        exclusive(&mut guard).try_put(key, value, ttl)
    }

    /// Tries once to store `value` under `key` and to schedule its eviction
    /// at `ttl`, and says whether it did.
    pub fn put(&self, key: String, value: CachedResponse, ttl: u64) -> bool {
        let mut guard = write_lock(&self.cache);
        exclusive(&mut guard).put(key, value, ttl)
    }

    /// Takes the answer of upstream to a request that missed the cache and
    /// stores a response if it can. The answer comes back as it came: to be
    /// handed on, or, while the schedule alone has no room and `waited` is
    /// short of the timeout, to be settled again after a pause.
    pub fn settle(&self, key: &String, answer: Result<CachedResponse, ErrWrapper>, waited: u64) -> (r:
        Settled)
        ensures
            r.answer() == answer,
            r is Retry ==> answer is Ok && waited < INSERT_TIMEOUT,
    {
        let mut guard = write_lock(&self.cache);
        exclusive(&mut guard).settle(key, answer, waited)
    }

    /// Evicts the earliest scheduled entry if it has fallen due at `now`.
    /// Otherwise it says what to wait for: an instant after `now`, or the
    /// next response to be stored.
    pub fn expire_head(&self, now: u64) -> (r: Eviction)
        ensures
            r matches Eviction::NotDue(at) ==> at > now,
    {
        let mut guard = write_lock(&self.cache);
        exclusive(&mut guard).expire_head(now)
    }
}

} // verus!
