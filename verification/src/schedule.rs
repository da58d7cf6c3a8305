//! The eviction schedule: which key is to leave the cache at which instant.
//!
//! The schedule is bounded and kept in the order in which its entries fall
//! due. Entries that fall due at the same instant leave in the order in which
//! they were offered.

use vstd::prelude::*;

verus! {

/// A key and the instant at which it is to be evicted.
#[derive(Debug, PartialEq, Eq)]
pub struct ExpiryEntry {
    pub key: String,
    pub due: u64,
}

/// What an [`ExpiryEntry`] stands for.
pub struct Expiry {
    pub key: Seq<char>,
    pub due: u64,
}

impl View for ExpiryEntry {
    type V = Expiry;

    open spec fn view(&self) -> Expiry {
        Expiry { key: self.key@, due: self.due }
    }
}

/// No entry stands before one that falls due earlier.
pub open spec fn in_due_order(s: Seq<Expiry>) -> bool {
    forall|i: int, j: int| 0 <= i <= j < s.len() ==> s[i].due <= s[j].due
}

/// The number of entries of `s` that fall due no later than `due`.
pub open spec fn rank(s: Seq<Expiry>, due: u64) -> nat
    decreases s.len(),
{
    if s.len() == 0 {
        0
    } else if s.last().due <= due {
        rank(s.drop_last(), due) + 1
    } else {
        rank(s.drop_last(), due)
    }
}

/// The schedule `s` with `e` added: `e` goes behind every entry that falls
/// due no later than it, and before every entry that falls due later.
pub open spec fn scheduled(s: Seq<Expiry>, e: Expiry) -> Seq<Expiry> {
    s.insert(rank(s, e.due) as int, e)
}

/// The views of a run of entries, in order.
pub open spec fn expiry_views(items: Seq<ExpiryEntry>) -> Seq<Expiry> {
    Seq::new(items.len(), |i: int| items[i]@)
}

/// Where the entries up to `at` fall due no later than `due` and the others
/// later, `at` is the rank of `due`.
pub proof fn lemma_rank_at_split(s: Seq<Expiry>, due: u64, at: int)
    requires
        0 <= at <= s.len(),
        forall|j: int| 0 <= j < at ==> s[j].due <= due,
        forall|j: int| at <= j < s.len() ==> s[j].due > due,
    ensures
        rank(s, due) == at,
    decreases s.len(),
{
    if s.len() > 0 {
        let front = s.drop_last();
        if at == s.len() {
            lemma_rank_at_split(front, due, at - 1);
        } else {
            lemma_rank_at_split(front, due, at);
        }
    }
}

/// The rank of an instant is a position of the schedule.
pub proof fn lemma_rank_bound(s: Seq<Expiry>, due: u64)
    ensures
        rank(s, due) <= s.len(),
    decreases s.len(),
{
    if s.len() > 0 {
        lemma_rank_bound(s.drop_last(), due);
    }
}

/// In an ordered schedule the rank of an instant parts the entries that fall
/// due no later than it from those that fall due later.
pub proof fn lemma_rank_splits(s: Seq<Expiry>, due: u64)
    requires
        in_due_order(s),
    ensures
        rank(s, due) <= s.len(),
        forall|j: int| 0 <= j < rank(s, due) ==> (#[trigger] s[j]).due <= due,
        forall|j: int| rank(s, due) <= j < s.len() ==> (#[trigger] s[j]).due > due,
    decreases s.len(),
{
    if s.len() > 0 {
        let front = s.drop_last();
        lemma_rank_splits(front, due);
        assert forall|j: int| 0 <= j < rank(s, due) implies (#[trigger] s[j]).due <= due by {
            if j < front.len() {
                if j < rank(front, due) {
                    assert(front[j].due <= due);
                } else {
                    assert(s.last().due <= due);
                    assert(s[j].due <= s[s.len() - 1].due);
                }
            }
        }
        assert forall|j: int| rank(s, due) <= j < s.len() implies (#[trigger] s[j]).due > due by {
            if j < front.len() {
                assert(front[j].due > due);
            }
        }
    }
}

/// Adding an entry keeps the order of the schedule.
pub proof fn lemma_scheduled_in_order(s: Seq<Expiry>, e: Expiry)
    requires
        in_due_order(s),
    ensures
        in_due_order(scheduled(s, e)),
        scheduled(s, e).len() == s.len() + 1,
{
    lemma_rank_splits(s, e.due);
    let at = rank(s, e.due) as int;
    let t = scheduled(s, e);
    assert forall|i: int, j: int| 0 <= i <= j < t.len() implies t[i].due <= t[j].due by {
        if i < at {
            assert(t[i] == s[i]);
        } else if i > at {
            assert(t[i] == s[i - 1]);
        }
        if j < at {
            assert(t[j] == s[j]);
        } else if j > at {
            assert(t[j] == s[j - 1]);
        }
    }
}

/// A bounded schedule of evictions in due order.
pub struct ExpirySchedule {
    items: Vec<ExpiryEntry>,
    limit: usize,
}

impl View for ExpirySchedule {
    type V = Seq<Expiry>;

    closed spec fn view(&self) -> Seq<Expiry> {
        expiry_views(self.items@)
    }
}

impl ExpirySchedule {
    /// What holds of every schedule: it is in due order and within its
    /// bound.
    #[verifier::type_invariant]
    pub closed spec fn well_formed(self) -> bool {
        &&& in_due_order(self@)
        &&& self.items.len() <= self.limit
    }

    /// A schedule is in due order and within its bound.
    pub proof fn lemma_well_formed(self)
        requires
            self.well_formed(),
        ensures
            in_due_order(self@),
            self@.len() <= self.bound(),
    {
    }

    /// The number of entries that the schedule can hold.
    pub closed spec fn bound(&self) -> nat {
        self.limit as nat
    }

    /// An empty schedule for at most `limit` entries.
    pub fn with_capacity(limit: usize) -> (r: ExpirySchedule)
        ensures
            r@ == Seq::<Expiry>::empty(),
            r.bound() == limit,
            r.well_formed(),
    {
        let r = ExpirySchedule { items: Vec::new(), limit };
        assert(r@ =~= Seq::<Expiry>::empty());
        r
    }

    /// The number of entries scheduled.
    pub fn len(&self) -> (r: usize)
        ensures
            r == self@.len(),
            r <= self.bound(),
    {
        proof {
            use_type_invariant(self);
        }
        self.items.len()
    }

    /// Schedules the eviction of `key` at `due`, unless the schedule is full.
    pub fn offer(&mut self, key: String, due: u64) -> (r: bool)
        ensures
            r == (old(self)@.len() < old(self).bound()),
            r ==> final(self)@ == scheduled(old(self)@, Expiry { key: key@, due }),
            !r ==> final(self)@ == old(self)@,
            final(self).bound() == old(self).bound(),
            final(self).well_formed(),
    {
        proof {
            use_type_invariant(&*self);
        }
        if self.items.len() >= self.limit {
            return false;
        }
        let ghost before = self@;
        let ghost e = Expiry { key: key@, due };
        let mut items: Vec<ExpiryEntry> = Vec::new();
        std::mem::swap(&mut items, &mut self.items);
        assert(expiry_views(items@) == before);
        let mut at: usize = 0;
        while at < items.len() && items[at].due <= due
            invariant
                at <= items.len(),
                forall|j: int| 0 <= j < at ==> items[j].due <= due,
            decreases items.len() - at,
        {
            at += 1;
        }
        proof {
            assert forall|j: int| at <= j < before.len() implies before[j].due > due by {
                assert(before[at as int].due <= before[j].due);
            }
            assert forall|j: int| 0 <= j < at implies before[j].due <= due by {
                assert(before[j] == items[j]@);
            }
            lemma_rank_at_split(before, due, at as int);
            lemma_scheduled_in_order(before, e);
        }
        items.insert(at, ExpiryEntry { key, due });
        assert(expiry_views(items@) =~= scheduled(before, e));
        self.items = items;
        true
    }

    /// The instant at which the earliest entry falls due, if there is one.
    pub fn head_due(&self) -> (r: Option<u64>)
        ensures
            r == (if self@.len() > 0 {
                Some(self@[0].due)
            } else {
                None
            }),
    {
        if self.items.len() > 0 {
            Some(self.items[0].due)
        } else {
            None
        }
    }

    /// Takes the earliest entry out if it has fallen due at `now`, that is if
    /// its instant is `now` or earlier.
    pub fn take(&mut self, now: u64) -> (r: Option<ExpiryEntry>)
        ensures
            r.is_some() == (old(self)@.len() > 0 && old(self)@[0].due <= now),
            r matches Some(e) ==> e@ == old(self)@[0] && final(self)@ == old(self)@.drop_first(),
            r.is_none() ==> final(self)@ == old(self)@,
            final(self).bound() == old(self).bound(),
            final(self).well_formed(),
    {
        proof {
            use_type_invariant(&*self);
        }
        if self.items.len() > 0 && self.items[0].due <= now {
            let ghost before = self@;
            let mut items: Vec<ExpiryEntry> = Vec::new();
            std::mem::swap(&mut items, &mut self.items);
            let e = items.remove(0);
            assert(expiry_views(items@) =~= before.drop_first());
            self.items = items;
            Some(e)
        } else {
            None
        }
    }
}

} // verus!
