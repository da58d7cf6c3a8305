//! The laws of the cache: what holds of every state that it can reach and
//! of every run of operations, stated over the model and proved.

use crate::model::{is_due, is_scheduled, CacheModel, CacheOp, PutOutcome};
use crate::response::ResponseView;
use crate::schedule::{lemma_rank_bound, lemma_scheduled_in_order, rank, scheduled, Expiry};
use vstd::prelude::*;

verus! {

/// Adding an entry to a schedule removes none: every key that was scheduled
/// still is, and so is the key of the entry added.
pub proof fn lemma_scheduled_keeps(pending: Seq<Expiry>, e: Expiry)
    ensures
        is_scheduled(scheduled(pending, e), e.key),
        forall|k: Seq<char>| is_scheduled(pending, k) ==> is_scheduled(scheduled(pending, e), k),
{
    lemma_rank_bound(pending, e.due);
    let at = rank(pending, e.due) as int;
    let after = scheduled(pending, e);
    assert(after[at] == e);
    assert forall|k: Seq<char>| is_scheduled(pending, k) implies is_scheduled(after, k) by {
        let j = choose|j: int| 0 <= j < pending.len() && (#[trigger] pending[j]).key == k;
        if j < at {
            assert(after[j] == pending[j]);
        } else {
            assert(after[j + 1] == pending[j]);
        }
    }
}

/// Taking the head off a schedule leaves every other key scheduled.
pub proof fn lemma_drop_first_keeps(pending: Seq<Expiry>, key: Seq<char>)
    requires
        is_scheduled(pending, key),
        pending[0].key != key,
    ensures
        is_scheduled(pending.drop_first(), key),
{
    let j = choose|j: int| 0 <= j < pending.len() && (#[trigger] pending[j]).key == key;
    assert(pending.drop_first()[j - 1] == pending[j]);
}

/// An attempt to store leaves the cache in one of its states.
pub proof fn lemma_put_keeps_wf(m: CacheModel, key: Seq<char>, value: ResponseView, ttl: u64)
    requires
        m.wf(),
    ensures
        m.put(key, value, ttl).wf(),
{
    if m.put_outcome() == PutOutcome::Stored {
        let e = Expiry { key, due: ttl };
        lemma_scheduled_in_order(m.pending, e);
        lemma_scheduled_keeps(m.pending, e);
        let after = m.put(key, value, ttl);
        assert(after.contents.len() <= m.contents.len() + 1);
    }
}

/// An eviction leaves the cache in one of its states.
pub proof fn lemma_expire_head_keeps_wf(m: CacheModel, now: u64)
    requires
        m.wf(),
    ensures
        m.expire_head(now).wf(),
{
    if m.head_due(now) {
        let after = m.expire_head(now);
        assert(after.contents.len() <= m.contents.len());
        assert forall|k: Seq<char>| #[trigger] after.contents.contains_key(k) implies is_scheduled(
            after.pending,
            k,
        ) by {
            assert(m.contents.contains_key(k));
            lemma_drop_first_keeps(m.pending, k);
        }
    }
}

/// The capacity is never exceeded: whatever is put and whenever entries are
/// evicted, the cache never holds more responses than its capacity, and it
/// never has more evictions scheduled than that.
pub proof fn lemma_capacity_never_exceeded(m: CacheModel, ops: Seq<CacheOp>)
    requires
        m.wf(),
    ensures
        m.run(ops).wf(),
        m.run(ops).limit == m.limit,
        m.run(ops).contents.len() <= m.limit,
        m.run(ops).pending.len() <= m.limit,
    decreases ops.len(),
{
    if ops.len() > 0 {
        lemma_capacity_never_exceeded(m, ops.drop_last());
        let before = m.run(ops.drop_last());
        match ops.last() {
            CacheOp::Put { key, value, ttl } => lemma_put_keeps_wf(before, key, value, ttl),
            CacheOp::ExpireHead { now } => lemma_expire_head_keeps_wf(before, now),
        }
    }
}

/// A cache at capacity takes nothing in: every attempt to store is refused
/// and leaves the cache as it was, until an eviction makes room.
pub proof fn lemma_full_cache_refuses(m: CacheModel, key: Seq<char>, value: ResponseView, ttl: u64)
    requires
        m.contents.len() >= m.limit,
    ensures
        m.put_outcome() == PutOutcome::CacheFull,
        m.put(key, value, ttl) == m,
{
}

/// A cache with room in it and in its schedule takes a response in, and
/// then holds exactly one response more, unless it replaced one.
pub proof fn lemma_put_with_room(m: CacheModel, key: Seq<char>, value: ResponseView, ttl: u64)
    requires
        m.wf(),
        m.contents.len() < m.limit,
        m.pending.len() < m.limit,
    ensures
        m.put_outcome() == PutOutcome::Stored,
        m.put(key, value, ttl).contents.len() == m.contents.len() + (if m.contents.contains_key(
            key,
        ) {
            0nat
        } else {
            1nat
        }),
        m.put(key, value, ttl).pending.len() == m.pending.len() + 1,
{
    lemma_scheduled_in_order(m.pending, Expiry { key, due: ttl });
}

/// What was stored is what is found: after a response was stored under a
/// key, the cache holds that very response for the key, and holds for every
/// other key what it held before.
pub proof fn lemma_put_then_get(
    m: CacheModel,
    key: Seq<char>,
    value: ResponseView,
    ttl: u64,
    other: Seq<char>,
)
    requires
        m.put_outcome() == PutOutcome::Stored,
        other != key,
    ensures
        m.put(key, value, ttl).get(key) == Some(value),
        m.put(key, value, ttl).get(other) == m.get(other),
{
}

/// A request that missed, was answered by upstream and stored, is answered
/// from the cache with the same response for as long as that response is
/// fresh.
pub proof fn lemma_hit_replays_stored<E>(m: CacheModel, key: Seq<char>, value: ResponseView, at: u64)
    requires
        m.put_outcome() == PutOutcome::Stored,
        !value.expired(at),
    ensures
        m.settle::<E>(key, Ok(value)).lookup(key, at) == Some(value),
{
}

/// A failure upstream leaves no trace: the cache is as it was, so a key that
/// had no response has none afterwards.
pub proof fn lemma_failure_stores_nothing<E>(m: CacheModel, key: Seq<char>, error: E, at: u64)
    ensures
        m.settle(key, Err::<ResponseView, E>(error)) == m,
        m.get(key).is_none() ==> m.settle(key, Err::<ResponseView, E>(error)).get(key).is_none(),
        m.lookup(key, at).is_none() ==> m.settle(key, Err::<ResponseView, E>(error)).lookup(
            key,
            at,
        ).is_none(),
{
}

/// A stale response is never handed out as fresh, and a fresh one is handed
/// out as it is held.
pub proof fn lemma_lookup_is_fresh(m: CacheModel, key: Seq<char>, now: u64)
    ensures
        m.lookup(key, now) matches Some(value) ==> !value.expired(now) && m.get(key) == Some(value),
        m.lookup(key, now).is_none() <==> (m.get(key) matches Some(value) ==> value.expired(now)),
{
}

/// One eviction removes exactly the key at the head of the schedule: that
/// key is gone, and every other key has the response it had.
pub proof fn lemma_expire_head_exact(m: CacheModel, now: u64, other: Seq<char>)
    requires
        m.head_due(now),
        other != m.pending[0].key,
    ensures
        m.expire_head(now).get(m.pending[0].key).is_none(),
        m.expire_head(now).get(other) == m.get(other),
        m.expire_head(now).pending == m.pending.drop_first(),
{
}

/// Before its head has fallen due the cache is left alone.
pub proof fn lemma_expire_head_waits(m: CacheModel, now: u64)
    requires
        !m.head_due(now),
    ensures
        m.expire_head(now) == m,
{
}

/// Evicting all that has fallen due removes exactly the keys that had an
/// entry due: each of them is gone, every other key has the response it
/// had, and nothing that is left in the schedule has fallen due.
pub proof fn lemma_expire_due_exact(m: CacheModel, now: u64)
    requires
        m.wf(),
    ensures
        m.expire_due(now).wf(),
        !m.expire_due(now).head_due(now),
        forall|k: Seq<char>|
            is_due(m.pending, k, now) ==> !(#[trigger] m.expire_due(now).contents.contains_key(k)),
        forall|k: Seq<char>|
            !is_due(m.pending, k, now) ==> (#[trigger] m.expire_due(now).get(k)) == m.get(k),
        forall|k: Seq<char>|
            !is_due(m.pending, k, now) && is_scheduled(m.pending, k) ==> is_scheduled(
                #[trigger] m.expire_due(now).pending,
                k,
            ),
    decreases m.pending.len(),
{
    if m.head_due(now) {
        let head = m.pending[0];
        let next = m.expire_head(now);
        lemma_expire_head_keeps_wf(m, now);
        lemma_expire_due_exact(next, now);
        lemma_expire_due_shrinks(next, now);
        let last = m.expire_due(now);
        assert(last == next.expire_due(now));
        assert forall|k: Seq<char>| is_due(m.pending, k, now) implies !(
        #[trigger] last.contents.contains_key(k)) by {
            if k != head.key {
                let j = choose|j: int|
                    0 <= j < m.pending.len() && (#[trigger] m.pending[j]).key == k
                        && m.pending[j].due <= now;
                assert(next.pending[j - 1] == m.pending[j]);
                assert(is_due(next.pending, k, now));
            }
        }
        assert forall|k: Seq<char>| !is_due(m.pending, k, now) implies (#[trigger] last.get(k))
            == m.get(k) by {
            assert(k != head.key);
            if is_due(next.pending, k, now) {
                let j = choose|j: int|
                    0 <= j < next.pending.len() && (#[trigger] next.pending[j]).key == k
                        && next.pending[j].due <= now;
                assert(m.pending[j + 1] == next.pending[j]);
            }
        }
        assert forall|k: Seq<char>|
            !is_due(m.pending, k, now) && is_scheduled(m.pending, k) implies is_scheduled(
            #[trigger] last.pending,
            k,
        ) by {
            assert(k != head.key);
            lemma_drop_first_keeps(m.pending, k);
            if is_due(next.pending, k, now) {
                let j = choose|j: int|
                    0 <= j < next.pending.len() && (#[trigger] next.pending[j]).key == k
                        && next.pending[j].due <= now;
                assert(m.pending[j + 1] == next.pending[j]);
            }
        }
    }
}

/// Evicting all that has fallen due adds nothing: what the cache holds
/// afterwards it held before.
pub proof fn lemma_expire_due_shrinks(m: CacheModel, now: u64)
    ensures
        m.expire_due(now).limit == m.limit,
        m.expire_due(now).pending.len() + m.due_count(now) == m.pending.len(),
        forall|k: Seq<char>| #[trigger]
            m.expire_due(now).contents.contains_key(k) ==> m.contents.contains_key(k)
                && m.expire_due(now).contents[k] == m.contents[k],
    decreases m.pending.len(),
{
    if m.head_due(now) {
        lemma_expire_due_shrinks(m.expire_head(now), now);
    }
}

/// While no key is stored that the cache already holds, every response held
/// has exactly one eviction scheduled: storing under a new key keeps it so.
pub proof fn lemma_new_key_keeps_one_eviction_each(
    m: CacheModel,
    key: Seq<char>,
    value: ResponseView,
    ttl: u64,
)
    requires
        m.one_eviction_each(),
        !m.contents.contains_key(key),
    ensures
        m.put(key, value, ttl).one_eviction_each(),
{
    if m.put_outcome() == PutOutcome::Stored {
        lemma_rank_bound(m.pending, ttl);
        let at = rank(m.pending, ttl) as int;
        let after = m.put(key, value, ttl);
        let origin = |i: int| if i < at { i } else { i - 1 };
        assert forall|i: int| 0 <= i < after.pending.len() && i != at implies after.pending[i]
            == m.pending[origin(i)] by {}
        assert forall|i: int, j: int| 0 <= i < j < after.pending.len() implies after.pending[i].key
            != after.pending[j].key by {
            if i != at && j != at {
                assert(m.pending[origin(i)].key != m.pending[origin(j)].key);
            } else if i == at {
                assert(m.contents.contains_key(m.pending[origin(j)].key));
            } else {
                assert(m.contents.contains_key(m.pending[origin(i)].key));
            }
        }
        assert forall|i: int| 0 <= i < after.pending.len() implies after.contents.contains_key(
            (#[trigger] after.pending[i]).key,
        ) by {
            if i != at {
                assert(m.contents.contains_key(m.pending[origin(i)].key));
            }
        }
    }
}

/// An eviction keeps one scheduled eviction for every response held.
pub proof fn lemma_expire_head_keeps_one_eviction_each(m: CacheModel, now: u64)
    requires
        m.one_eviction_each(),
    ensures
        m.expire_head(now).one_eviction_each(),
{
    if m.head_due(now) {
        let after = m.expire_head(now);
        assert forall|i: int| 0 <= i < after.pending.len() implies after.pending[i] == m.pending[i
            + 1] by {}
        assert forall|i: int, j: int| 0 <= i < j < after.pending.len() implies after.pending[i].key
            != after.pending[j].key by {
            assert(m.pending[i + 1].key != m.pending[j + 1].key);
        }
        assert forall|i: int| 0 <= i < after.pending.len() implies after.contents.contains_key(
            (#[trigger] after.pending[i]).key,
        ) by {
            assert(m.pending[0].key != m.pending[i + 1].key);
            assert(m.contents.contains_key(m.pending[i + 1].key));
        }
    }
}

/// Where every response held has exactly one eviction scheduled, the
/// schedule is as long as the cache is full, so that it never stands in the
/// way alone: a response is refused only when the cache is at capacity.
pub proof fn lemma_one_eviction_each_never_waits(m: CacheModel)
    requires
        m.wf(),
        m.one_eviction_each(),
    ensures
        m.pending.len() == m.contents.len(),
        m.put_outcome() != PutOutcome::ScheduleFull,
{
    let keys = Seq::new(m.pending.len(), |i: int| m.pending[i].key);
    assert(keys.no_duplicates());
    keys.unique_seq_to_set();
    assert forall|k: Seq<char>| keys.to_set().contains(k) implies m.contents.dom().contains(k) by {
        let i = choose|i: int| 0 <= i < keys.len() && keys[i] == k;
        assert(m.contents.contains_key(m.pending[i].key));
    }
    assert forall|k: Seq<char>| m.contents.dom().contains(k) implies keys.to_set().contains(k) by {
        assert(m.contents.contains_key(k));
        let j = choose|j: int| 0 <= j < m.pending.len() && (#[trigger] m.pending[j]).key == k;
        assert(keys[j] == k);
    }
    assert(keys.to_set() =~= m.contents.dom());
}

} // verus!
