//! The cache as a mathematical value: what it holds, what it has scheduled
//! for eviction, and how each operation changes both.
//!
//! The executable cache is specified by its view into this model, and the
//! laws of the cache are stated over it.

use crate::response::ResponseView;
use crate::schedule::{in_due_order, scheduled, Expiry};
use vstd::prelude::*;

verus! {

/// How an attempt to store a response ended.
#[derive(Clone, Copy, Debug, PartialEq, Eq, Structural)]
pub enum PutOutcome {
    /// The response is in the cache and its eviction is scheduled.
    Stored,
    /// The cache holds as many responses as it may: nothing was changed.
    CacheFull,
    /// The cache has room but the eviction schedule has none: nothing was
    /// changed.
    ScheduleFull,
}

/// How long a writer goes on trying to store a response that the eviction
/// schedule has no room for, in milliseconds.
pub const INSERT_TIMEOUT: u64 = 30000;

/// Whether a writer whose attempt ended in `outcome`, and who has waited
/// `waited` milliseconds since its first attempt, tries once more: it does
/// while the schedule alone is in its way and the timeout has not run out.
pub open spec fn tries_again(outcome: PutOutcome, waited: u64) -> bool {
    outcome == PutOutcome::ScheduleFull && waited < INSERT_TIMEOUT
}

/// Some entry of the schedule is for `key`.
pub open spec fn is_scheduled(pending: Seq<Expiry>, key: Seq<char>) -> bool {
    exists|j: int| 0 <= j < pending.len() && (#[trigger] pending[j]).key == key
}

/// Some entry of the schedule is for `key` and falls due at `now` or earlier.
pub open spec fn is_due(pending: Seq<Expiry>, key: Seq<char>, now: u64) -> bool {
    exists|j: int|
        0 <= j < pending.len() && (#[trigger] pending[j]).key == key && pending[j].due <= now
}

/// An operation that changes a cache.
pub enum CacheOp {
    Put { key: Seq<char>, value: ResponseView, ttl: u64 },
    ExpireHead { now: u64 },
}

/// The state of a cache.
pub struct CacheModel {
    /// The responses held, by key.
    pub contents: Map<Seq<char>, ResponseView>,
    /// The evictions scheduled, in the order in which they will happen.
    pub pending: Seq<Expiry>,
    /// The largest number of responses that the cache may hold, which is also
    /// the largest number of evictions that it may have scheduled.
    pub limit: nat,
}

impl CacheModel {
    /// The states that a cache can be in: it holds no more than its
    /// capacity, its schedule is in due order and no longer than the
    /// capacity, and every response held has an eviction scheduled.
    pub open spec fn wf(self) -> bool {
        &&& self.contents.dom().finite()
        &&& self.contents.len() <= self.limit
        &&& self.pending.len() <= self.limit
        &&& in_due_order(self.pending)
        &&& forall|k: Seq<char>| #[trigger]
            self.contents.contains_key(k) ==> is_scheduled(self.pending, k)
    }

    /// The cache of capacity `limit` that holds nothing.
    pub open spec fn empty(limit: nat) -> CacheModel {
        CacheModel { contents: Map::empty(), pending: Seq::empty(), limit }
    }

    /// The response held for `key`, if any. Staleness plays no part.
    pub open spec fn get(self, key: Seq<char>) -> Option<ResponseView> {
        if self.contents.contains_key(key) {
            Some(self.contents[key])
        } else {
            None
        }
    }

    /// The response held for `key` if there is one and it is fresh at `now`.
    pub open spec fn lookup(self, key: Seq<char>, now: u64) -> Option<ResponseView> {
        if self.contents.contains_key(key) && !self.contents[key].expired(now) {
            Some(self.contents[key])
        } else {
            None
        }
    }

    /// How an attempt to store a response ends in this state. The number of
    /// responses held is tested first, then the room in the schedule.
    pub open spec fn put_outcome(self) -> PutOutcome {
        if self.contents.len() >= self.limit {
            PutOutcome::CacheFull
        } else if self.pending.len() >= self.limit {
            PutOutcome::ScheduleFull
        } else {
            PutOutcome::Stored
        }
    }

    /// The state after an attempt to store `value` under `key`, to be evicted
    /// at `ttl`. A response already held for `key` is replaced, and its
    /// scheduled eviction stays beside the new one.
    pub open spec fn put(self, key: Seq<char>, value: ResponseView, ttl: u64) -> CacheModel {
        if self.put_outcome() == PutOutcome::Stored {
            CacheModel {
                contents: self.contents.insert(key, value),
                pending: scheduled(self.pending, Expiry { key, due: ttl }),
                limit: self.limit,
            }
        } else {
            self
        }
    }

    /// Whether the earliest scheduled entry has fallen due at `now`: there
    /// is one, and its instant is `now` or earlier.
    pub open spec fn head_due(self, now: u64) -> bool {
        self.pending.len() > 0 && self.pending[0].due <= now
    }

    /// The state after one eviction at `now`: if the earliest scheduled entry
    /// has fallen due it leaves the schedule and its key leaves the cache.
    pub open spec fn expire_head(self, now: u64) -> CacheModel {
        if self.head_due(now) {
            CacheModel {
                contents: self.contents.remove(self.pending[0].key),
                pending: self.pending.drop_first(),
                limit: self.limit,
            }
        } else {
            self
        }
    }

    /// The state after every entry that has fallen due at `now` was evicted.
    pub open spec fn expire_due(self, now: u64) -> CacheModel
        decreases self.pending.len(),
    {
        if self.head_due(now) {
            self.expire_head(now).expire_due(now)
        } else {
            self
        }
    }

    /// Every scheduled eviction is for a response that is held, and no key
    /// has two of them.
    pub open spec fn one_eviction_each(self) -> bool {
        &&& forall|i: int, j: int|
            0 <= i < j < self.pending.len() ==> self.pending[i].key != self.pending[j].key
        &&& forall|i: int|
            0 <= i < self.pending.len() ==> self.contents.contains_key(
                (#[trigger] self.pending[i]).key,
            )
    }

    /// The state after the proxy has heard from upstream about a request
    /// that missed the cache: a response is stored if there is room, to be
    /// evicted at its own expiry instant, and a failure changes nothing.
    pub open spec fn settle<E>(self, key: Seq<char>, upstream: Result<ResponseView, E>) -> CacheModel {
        match upstream {
            Ok(value) => self.put(key, value, value.ttl),
            Err(_) => self,
        }
    }

    /// The state after one operation.
    pub open spec fn step(self, op: CacheOp) -> CacheModel {
        match op {
            CacheOp::Put { key, value, ttl } => self.put(key, value, ttl),
            CacheOp::ExpireHead { now } => self.expire_head(now),
        }
    }

    /// The state after a run of operations, the first of `ops` first.
    pub open spec fn run(self, ops: Seq<CacheOp>) -> CacheModel
        decreases ops.len(),
    {
        if ops.len() == 0 {
            self
        } else {
            self.run(ops.drop_last()).step(ops.last())
        }
    }

    /// The number of entries that have fallen due at `now`, counted from the
    /// head of the schedule.
    pub open spec fn due_count(self, now: u64) -> nat
        decreases self.pending.len(),
    {
        if self.head_due(now) {
            self.expire_head(now).due_count(now) + 1
        } else {
            0
        }
    }
}

} // verus!
