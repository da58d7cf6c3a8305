//! The cache itself, for one owner at a time: the responses held, the
//! evictions scheduled for them, and the capacity that bounds both.

use crate::laws::{lemma_drop_first_keeps, lemma_scheduled_keeps};
use crate::model::{is_scheduled, tries_again, CacheModel, PutOutcome, INSERT_TIMEOUT};
use crate::response::{snapshot, CachedResponse, ResponseView};
use crate::schedule::{Expiry, ExpirySchedule};
use vstd::prelude::*;

verus! {

/// What became of a request to evict the earliest scheduled entry.
#[derive(Debug, PartialEq, Eq)]
pub enum Eviction {
    /// Nothing is scheduled.
    Idle,
    /// The earliest entry falls due at the given instant, which lies ahead.
    NotDue(u64),
    /// The earliest entry had fallen due: it left the schedule, and the
    /// cache holds nothing for its key any more.
    Evicted(String),
}

/// Whether a writer whose attempt ended in `outcome`, and who has waited
/// `waited` milliseconds since its first attempt, should try once more.
pub fn keep_trying(outcome: PutOutcome, waited: u64) -> (r: bool)
    ensures
        r == tries_again(outcome, waited),
{
    match outcome {
        PutOutcome::ScheduleFull => waited < INSERT_TIMEOUT,
        _ => false,
    }
}

struct Slot {
    key: String,
    value: CachedResponse,
}

spec fn slot_keys(slots: Seq<Slot>) -> Seq<Seq<char>> {
    Seq::new(slots.len(), |i: int| slots[i].key@)
}

spec fn slot_map(slots: Seq<Slot>) -> Map<Seq<char>, ResponseView> {
    Map::new(
        |k: Seq<char>| slot_keys(slots).contains(k),
        |k: Seq<char>| slots[slot_keys(slots).index_of(k)].value@,
    )
}

proof fn lemma_slot_map(slots: Seq<Slot>)
    requires
        slot_keys(slots).no_duplicates(),
    ensures
        slot_map(slots).dom().finite(),
        slot_map(slots).len() == slots.len(),
        forall|i: int|
            0 <= i < slots.len() ==> slot_map(slots).contains_key((#[trigger] slots[i]).key@)
                && slot_map(slots)[slots[i].key@] == slots[i].value@,
        forall|k: Seq<char>| #[trigger]
            slot_map(slots).contains_key(k) ==> exists|i: int|
                0 <= i < slots.len() && (#[trigger] slots[i]).key@ == k,
{
    let keys = slot_keys(slots);
    assert(slot_map(slots).dom() =~= keys.to_set());
    vstd::seq_lib::seq_to_set_is_finite(keys);
    keys.unique_seq_to_set();
    assert forall|i: int| 0 <= i < slots.len() implies slot_map(slots).contains_key(
        (#[trigger] slots[i]).key@,
    ) && slot_map(slots)[slots[i].key@] == slots[i].value@ by {
        assert(keys[i] == slots[i].key@);
        let j = keys.index_of(slots[i].key@);
        assert(keys[j] == keys[i]);
    }
    assert forall|k: Seq<char>| #[trigger] slot_map(slots).contains_key(k) implies exists|i: int|
        0 <= i < slots.len() && (#[trigger] slots[i]).key@ == k by {
        let i = keys.index_of(k);
        assert(slots[i].key@ == k);
    }
}

fn find(slots: &Vec<Slot>, key: &String) -> (r: Option<usize>)
    ensures
        r matches Some(i) ==> i < slots.len() && slots[i as int].key@ == key@,
        r.is_none() ==> forall|i: int| 0 <= i < slots.len() ==> slots[i].key@ != key@,
{
    let mut i: usize = 0;
    while i < slots.len()
        invariant
            i <= slots.len(),
            forall|j: int| 0 <= j < i ==> slots[j].key@ != key@,
        decreases slots.len() - i,
    {
        if slots[i].key == *key {
            return Some(i);
        }
        i += 1;
    }
    None
}

proof fn lemma_push(slots: Seq<Slot>, slot: Slot)
    requires
        slot_keys(slots).no_duplicates(),
        forall|i: int| 0 <= i < slots.len() ==> slots[i].key@ != slot.key@,
    ensures
        slot_keys(slots.push(slot)).no_duplicates(),
        slot_map(slots.push(slot)) == slot_map(slots).insert(slot.key@, slot.value@),
{
    let after = slots.push(slot);
    assert forall|i: int, j: int|
        0 <= i < after.len() && 0 <= j < after.len() && i != j implies slot_keys(after)[i]
        != slot_keys(after)[j] by {
        if i < slots.len() {
            assert(slot_keys(after)[i] == slot_keys(slots)[i]);
        }
        if j < slots.len() {
            assert(slot_keys(after)[j] == slot_keys(slots)[j]);
        }
    }
    lemma_slot_map(slots);
    lemma_slot_map(after);
    let grown = slot_map(slots).insert(slot.key@, slot.value@);
    assert forall|k: Seq<char>| slot_map(after).contains_key(k) implies grown.contains_key(k)
        && grown[k] == slot_map(after)[k] by {
        let i = choose|i: int| 0 <= i < after.len() && (#[trigger] after[i]).key@ == k;
        if i < slots.len() {
            assert(after[i] == slots[i]);
        }
    }
    assert forall|k: Seq<char>| grown.contains_key(k) implies slot_map(after).contains_key(k) by {
        if k == slot.key@ {
            assert(after[slots.len() as int].key@ == k);
        } else {
            let i = choose|i: int| 0 <= i < slots.len() && (#[trigger] slots[i]).key@ == k;
            assert(after[i] == slots[i]);
        }
    }
    assert(slot_map(after) =~= grown);
}

proof fn lemma_remove(slots: Seq<Slot>, at: int)
    requires
        slot_keys(slots).no_duplicates(),
        0 <= at < slots.len(),
    ensures
        slot_keys(slots.remove(at)).no_duplicates(),
        slot_map(slots.remove(at)) == slot_map(slots).remove(slots[at].key@),
        forall|i: int| 0 <= i < slots.remove(at).len() ==> slots.remove(at)[i].key@ != slots[at].key@,
{
    let after = slots.remove(at);
    let origin = |i: int| if i < at { i } else { i + 1 };
    assert forall|i: int| 0 <= i < after.len() implies after[i] == slots[origin(i)] by {}
    assert forall|i: int| 0 <= i < after.len() implies after[i].key@ != slots[at].key@ by {
        assert(slot_keys(slots)[origin(i)] != slot_keys(slots)[at]);
    }
    assert forall|i: int, j: int|
        0 <= i < after.len() && 0 <= j < after.len() && i != j implies slot_keys(after)[i]
        != slot_keys(after)[j] by {
        assert(slot_keys(slots)[origin(i)] != slot_keys(slots)[origin(j)]);
    }
    lemma_slot_map(slots);
    lemma_slot_map(after);
    let shrunk = slot_map(slots).remove(slots[at].key@);
    assert forall|k: Seq<char>| slot_map(after).contains_key(k) implies shrunk.contains_key(k)
        && shrunk[k] == slot_map(after)[k] by {
        let i = choose|i: int| 0 <= i < after.len() && (#[trigger] after[i]).key@ == k;
        assert(after[i] == slots[origin(i)]);
    }
    assert forall|k: Seq<char>| shrunk.contains_key(k) implies slot_map(after).contains_key(k) by {
        let i = choose|i: int| 0 <= i < slots.len() && (#[trigger] slots[i]).key@ == k;
        if i < at {
            assert(after[i] == slots[i]);
        } else {
            assert(after[i - 1] == slots[i]);
        }
    }
    assert(slot_map(after) =~= shrunk);
}

/// A cache of bounded size whose entries are evicted on schedule.
pub struct CacheState {
    slots: Vec<Slot>,
    schedule: ExpirySchedule,
    capacity: usize,
}

impl View for CacheState {
    type V = CacheModel;

    closed spec fn view(&self) -> CacheModel {
        CacheModel {
            contents: slot_map(self.slots@),
            pending: self.schedule@,
            limit: self.capacity as nat,
        }
    }
}

impl CacheState {
    /// What holds of every cache, of its model and of the way it is kept.
    #[verifier::type_invariant]
    pub closed spec fn well_formed(self) -> bool {
        &&& self.schedule.well_formed()
        &&& slot_keys(self.slots@).no_duplicates()
        &&& self.slots.len() <= self.capacity
        &&& self.schedule.bound() == self.capacity
        &&& forall|i: int|
            0 <= i < self.slots.len() ==> is_scheduled(self.schedule@, (#[trigger] self.slots[i]).key@)
    }

    /// An empty cache that holds at most `capacity` responses.
    pub fn with_capacity(capacity: usize) -> (r: CacheState)
        ensures
            r@ == CacheModel::empty(capacity as nat),
            r@.wf(),
    {
        let r = CacheState {
            slots: Vec::new(),
            schedule: ExpirySchedule::with_capacity(capacity),
            capacity,
        };
        proof {
            lemma_slot_map(r.slots@);
            assert(r@.contents =~= Map::<Seq<char>, ResponseView>::empty());
        }
        r
    }

    /// The largest number of responses that the cache may hold.
    pub fn capacity(&self) -> (r: usize)
        ensures
            r == self@.limit,
    {
        self.capacity
    }

    /// The number of responses held, stale ones included.
    pub fn len(&self) -> (r: usize)
        ensures
            r == self@.contents.len(),
            r <= self@.limit,
            self@.wf(),
    {
        self.check();
        self.slots.len()
    }

    /// Every cache is in one of the states of its model.
    pub proof fn lemma_well_formed(self)
        requires
            self.well_formed(),
        ensures
            self@.wf(),
    {
        self.schedule.lemma_well_formed();
        lemma_slot_map(self.slots@);
    }

    /// Brings what holds of every cache into the caller's context.
    fn check(&self)
        ensures
            self.well_formed(),
            self@.wf(),
            self@.contents.len() == self.slots.len(),
    {
        proof {
            use_type_invariant(self);
            self.lemma_well_formed();
            lemma_slot_map(self.slots@);
        }
    }

    /// A snapshot of the response held for `key`, stale or not.
    pub fn get(&self, key: &String) -> (r: Option<CachedResponse>)
        ensures
            snapshot(r) == self@.get(key@),
            self@.wf(),
    {
        self.check();
        proof {
            lemma_slot_map(self.slots@);
        }
        match find(&self.slots, key) {
            Some(i) => {
                assert(self.slots[i as int].key@ == key@);
                Some(self.slots[i].value.duplicate())
            },
            None => None,
        }
    }

    /// Tries to store `value` under `key` and to schedule its eviction at
    /// `ttl`. Nothing changes unless both can be done.
    pub fn try_put(&mut self, key: String, value: CachedResponse, ttl: u64) -> (r: PutOutcome)
        ensures
            r == old(self)@.put_outcome(),
            final(self)@ == old(self)@.put(key@, value@, ttl),
            final(self)@.wf(),
    {
        self.check();
        if self.slots.len() >= self.capacity {
            return PutOutcome::CacheFull;
        }
        if self.schedule.len() >= self.capacity {
            return PutOutcome::ScheduleFull;
        }
        let ghost before = self@;
        let mut slots: Vec<Slot> = Vec::new();
        std::mem::swap(&mut slots, &mut self.slots);
        let mut schedule = ExpirySchedule::with_capacity(self.capacity);
        std::mem::swap(&mut schedule, &mut self.schedule);
        let ghost held = slots@;
        let ghost entry = Expiry { key: key@, due: ttl };
        let offered = schedule.offer(key.clone(), ttl);
        proof {
            schedule.lemma_well_formed();
            lemma_scheduled_keeps(before.pending, entry);
        }
        match find(&slots, &key) {
            Some(i) => {
                proof {
                    lemma_remove(held, i as int);
                }
                slots.remove(i);
            },
            None => {},
        }
        let ghost rest = slots@;
        let slot = Slot { key, value };
        proof {
            lemma_push(rest, slot);
            assert(slot_map(rest.push(slot)) =~= before.contents.insert(slot.key@, slot.value@));
        }
        slots.push(slot);
        proof {
            assert forall|i: int| 0 <= i < slots.len() implies is_scheduled(
                schedule@,
                (#[trigger] slots[i]).key@,
            ) by {
                if i < rest.len() {
                    assert(rest[i] == slots[i]);
                    lemma_slot_map(rest);
                    lemma_slot_map(held);
                    assert(slot_map(rest).contains_key(rest[i].key@));
                    assert(slot_map(held).contains_key(rest[i].key@));
                    let j = choose|j: int| 0 <= j < held.len() && (#[trigger] held[j]).key@ == rest[i].key@;
                    assert(is_scheduled(before.pending, held[j].key@));
                }
            }
            lemma_slot_map(slots@);
        }
        self.schedule = schedule;
        self.slots = slots;
        PutOutcome::Stored
    }

    /// Stores `value` under `key` and schedules its eviction at `ttl`, if the
    /// cache and its schedule both have room. Says whether it did.
    pub fn put(&mut self, key: String, value: CachedResponse, ttl: u64) -> (r: bool)
        ensures
            r == (old(self)@.put_outcome() == PutOutcome::Stored),
            final(self)@ == old(self)@.put(key@, value@, ttl),
            final(self)@.wf(),
    {
        match self.try_put(key, value, ttl) {
            PutOutcome::Stored => true,
            _ => false,
        }
    }

    /// Evicts the earliest scheduled entry if it has fallen due at `now`:
    /// the entry leaves the schedule and its key leaves the cache. No other
    /// operation removes a response.
    pub fn expire_head(&mut self, now: u64) -> (r: Eviction)
        ensures
            final(self)@ == old(self)@.expire_head(now),
            final(self)@.wf(),
            match r {
                Eviction::Idle => old(self)@.pending.len() == 0,
                Eviction::NotDue(at) => old(self)@.pending.len() > 0 && at == old(
                    self,
                )@.pending[0].due && at > now,
                Eviction::Evicted(key) => old(self)@.head_due(now) && key@ == old(
                    self,
                )@.pending[0].key,
            },
    {
        self.check();
        let ghost before = self@;
        let mut slots: Vec<Slot> = Vec::new();
        std::mem::swap(&mut slots, &mut self.slots);
        let mut schedule = ExpirySchedule::with_capacity(self.capacity);
        std::mem::swap(&mut schedule, &mut self.schedule);
        let ghost held = slots@;
        let result = match schedule.take(now) {
            Some(entry) => {
                proof {
                    lemma_slot_map(held);
                }
                match find(&slots, &entry.key) {
                    Some(i) => {
                        proof {
                            lemma_remove(held, i as int);
                        }
                        slots.remove(i);
                    },
                    None => {
                        assert(slot_map(held) =~= slot_map(held).remove(entry.key@));
                    },
                }
                proof {
                    assert forall|i: int| 0 <= i < slots.len() implies is_scheduled(
                        schedule@,
                        (#[trigger] slots[i]).key@,
                    ) by {
                        lemma_slot_map(slots@);
                        assert(slot_map(slots@).contains_key(slots[i].key@));
                        assert(slot_map(held).contains_key(slots[i].key@));
                        let j = choose|j: int| 0 <= j < held.len() && (#[trigger] held[j]).key@ == slots[i].key@;
                        assert(is_scheduled(before.pending, held[j].key@));
                        lemma_drop_first_keeps(before.pending, slots[i].key@);
                    }
                }
                Eviction::Evicted(entry.key)
            },
            None => match schedule.head_due() {
                Some(at) => Eviction::NotDue(at),
                None => Eviction::Idle,
            },
        };
        proof {
            lemma_slot_map(slots@);
        }
        self.schedule = schedule;
        self.slots = slots;
        result
    }

    /// Evicts every entry that has fallen due at `now`, earliest first, and
    /// returns how many there were.
    pub fn expire_due(&mut self, now: u64) -> (r: usize)
        ensures
            final(self)@ == old(self)@.expire_due(now),
            final(self)@.wf(),
            r == old(self)@.due_count(now),
    {
        self.check();
        let mut evicted: usize = 0;
        loop
            invariant
                self@.wf(),
                self@.expire_due(now) == old(self)@.expire_due(now),
                evicted + self@.due_count(now) == old(self)@.due_count(now),
                evicted + self@.pending.len() <= self@.limit,
            decreases self@.pending.len(),
        {
            match self.expire_head(now) {
                Eviction::Evicted(_) => {
                    evicted += 1;
                },
                _ => {
                    return evicted;
                },
            }
        }
    }
}

} // verus!
