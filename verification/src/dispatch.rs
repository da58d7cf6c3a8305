//! What the proxy decides for each request: under which key it looks, when
//! it answers from the cache, and what it stores once upstream has answered.
//!
//! A request is looked up first. A fresh response is replayed as it is held.
//! Otherwise the request goes upstream, and [`CacheState::settle`] stores
//! what came back, if it can, and hands the answer on either way.

use crate::response::{snapshot, CachedResponse, ResponseView};
use crate::model::tries_again;
use crate::state::{keep_trying, CacheState};
use crate::text::{append, quote, quoted};
use vstd::prelude::*;

verus! {

/// Why a request could not be answered.
#[derive(Debug, PartialEq, Eq)]
pub struct ErrWrapper {
    pub msg: String,
}

impl View for ErrWrapper {
    type V = Seq<char>;

    open spec fn view(&self) -> Seq<char> {
        self.msg@
    }
}

impl ErrWrapper {
    /// The error as it is shown: its message, quoted.
    pub fn describe(&self) -> (r: String)
        ensures
            r@ == quoted(self.msg@),
    {
        quote(self.msg.as_str())
    }
}

/// What an answer from upstream stands for.
pub open spec fn answer_view(answer: Result<CachedResponse, ErrWrapper>) -> Result<
    ResponseView,
    Seq<char>,
> {
    match answer {
        Ok(resp) => Ok(resp@),
        Err(e) => Err(e@),
    }
}

/// What the proxy does with an answer from upstream once the cache has seen
/// it.
#[derive(Debug, PartialEq, Eq)]
pub enum Settled {
    /// The request is done: this is its answer.
    Respond(Result<CachedResponse, ErrWrapper>),
    /// The response could not be stored for want of room in the schedule:
    /// after a pause it is to be settled again.
    Retry(CachedResponse),
}

impl Settled {
    /// The answer that was settled.
    pub open spec fn answer(self) -> Result<CachedResponse, ErrWrapper> {
        match self {
            Settled::Respond(answer) => answer,
            Settled::Retry(resp) => Ok(resp),
        }
    }
}

/// The key of a request: its method, a space, its path, a question mark and
/// its query.
pub open spec fn key_of(method: Seq<char>, path: Seq<char>, query: Seq<char>) -> Seq<char> {
    method + seq![' '] + path + seq!['?'] + query
}

/// What stands where in a key.
proof fn lemma_key_layout(method: Seq<char>, path: Seq<char>, query: Seq<char>)
    ensures
        key_of(method, path, query).len() == method.len() + path.len() + query.len() + 2,
        forall|i: int| 0 <= i < method.len() ==> key_of(method, path, query)[i] == method[i],
        key_of(method, path, query)[method.len() as int] == ' ',
        forall|i: int|
            0 <= i < path.len() ==> key_of(method, path, query)[method.len() + 1 + i] == path[i],
        key_of(method, path, query)[(method.len() + 1 + path.len()) as int] == '?',
        forall|i: int|
            0 <= i < query.len() ==> key_of(method, path, query)[method.len() + path.len() + 2 + i]
                == query[i],
{
    let head = method + seq![' '];
    let middle = head + path;
    let front = middle + seq!['?'];
    assert(head.len() == method.len() + 1);
    assert(middle.len() == head.len() + path.len());
    assert(front.len() == middle.len() + 1);
    assert forall|i: int| 0 <= i < path.len() implies key_of(method, path, query)[method.len() + 1
        + i] == path[i] by {
        assert(middle[head.len() + i] == path[i]);
        assert(front[head.len() + i] == middle[head.len() + i]);
    }
    assert forall|i: int| 0 <= i < method.len() implies key_of(method, path, query)[i]
        == method[i] by {
        assert(head[i] == method[i]);
        assert(middle[i] == head[i]);
        assert(front[i] == middle[i]);
    }
    assert(head[method.len() as int] == ' ');
    assert(middle[method.len() as int] == ' ');
    assert(front[method.len() as int] == ' ');
    assert(front[middle.len() as int] == '?');
}

/// Two requests have the same key only if they are the same request: where
/// no method holds a space and no path a question mark, equal keys come from
/// equal methods, equal paths and equal queries.
pub proof fn lemma_key_tells_requests_apart(
    method_a: Seq<char>,
    path_a: Seq<char>,
    query_a: Seq<char>,
    method_b: Seq<char>,
    path_b: Seq<char>,
    query_b: Seq<char>,
)
    requires
        !method_a.contains(' '),
        !method_b.contains(' '),
        !path_a.contains('?'),
        !path_b.contains('?'),
        key_of(method_a, path_a, query_a) == key_of(method_b, path_b, query_b),
    ensures
        method_a == method_b,
        path_a == path_b,
        query_a == query_b,
{
    let key = key_of(method_a, path_a, query_a);
    lemma_key_layout(method_a, path_a, query_a);
    lemma_key_layout(method_b, path_b, query_b);
    if method_a.len() < method_b.len() {
        assert(method_b[method_a.len() as int] == ' ');
        assert(false);
    }
    if method_b.len() < method_a.len() {
        assert(method_a[method_b.len() as int] == ' ');
        assert(false);
    }
    assert(method_a =~= method_b);
    let start = (method_a.len() + 1) as int;
    if path_a.len() < path_b.len() {
        assert(key[start + path_a.len()] == path_b[path_a.len() as int]);
        assert(false);
    }
    if path_b.len() < path_a.len() {
        assert(key[start + path_b.len()] == path_a[path_b.len() as int]);
        assert(false);
    }
    assert forall|i: int| 0 <= i < path_a.len() implies path_a[i] == path_b[i] by {
        assert(key[start + i] == path_a[i]);
    }
    assert(path_a =~= path_b);
    assert forall|i: int| 0 <= i < query_a.len() implies query_a[i] == query_b[i] by {
        assert(key[start + path_a.len() + 1 + i] == query_a[i]);
    }
    assert(query_a =~= query_b);
}

/// Derives the key under which a request is cached.
pub fn cache_key(method: &str, path: &str, query: &str) -> (key: String)
    ensures
        key@ == key_of(method@, path@, query@),
{
    let mut key = String::new();
    append(&mut key, method);
    append(&mut key, " ");
    append(&mut key, path);
    append(&mut key, "?");
    append(&mut key, query);
    proof {
        reveal_strlit(" ");
        reveal_strlit("?");
        assert(" "@ =~= seq![' ']);
        assert("?"@ =~= seq!['?']);
        assert(key@ =~= key_of(method@, path@, query@));
    }
    key
}

/// The instant at which a response received at `now` goes stale if it is to
/// live for `lifetime`: `now + lifetime`, or the last instant of the clock
/// where that lies beyond it.
pub fn expiry_after(now: u64, lifetime: u64) -> (r: u64)
    ensures
        r == (if now + lifetime <= u64::MAX {
            now + lifetime
        } else {
            u64::MAX as int
        }),
{
    if lifetime <= u64::MAX - now {
        now + lifetime
    } else {
        u64::MAX
    }
}

/// Picks the fresh response out of what the cache returned.
pub fn fresh(found: Option<CachedResponse>, now: u64) -> (r: Option<CachedResponse>)
    ensures
        r == (match found {
            Some(resp) if !resp@.expired(now) => found,
            _ => None,
        }),
{
    match found {
        Some(resp) => {
            if resp.expired(now) {
                None
            } else {
                Some(resp)
            }
        },
        None => None,
    }
}

impl CacheState {
    /// The response to replay for `key` at `now`: the one held, if it is
    /// fresh. A stale response is passed over and stays where it is.
    pub fn lookup(&self, key: &String, now: u64) -> (r: Option<CachedResponse>)
        ensures
            snapshot(r) == self@.lookup(key@, now),
            self@.wf(),
    {
        fresh(self.get(key), now)
    }

    /// Takes the answer of upstream to a request that missed the cache. A
    /// response is stored under `key`, to be evicted at its expiry instant,
    /// if the cache has room; a failure is not stored. The answer comes back
    /// as it came: to be tried again where the schedule alone had no room and
    /// the caller has waited less than the timeout, to be handed on otherwise.
    pub fn settle(&mut self, key: &String, answer: Result<CachedResponse, ErrWrapper>, waited: u64) -> (r:
        Settled)
        ensures
            final(self)@ == old(self)@.settle(key@, answer_view(answer)),
            final(self)@.wf(),
            r.answer() == answer,
            r is Retry <==> answer is Ok && tries_again(old(self)@.put_outcome(), waited),
    {
        match answer {
            Ok(resp) => {
                let ttl: u64 = resp.ttl;
                let outcome = self.try_put(key.clone(), resp.duplicate(), ttl);
                if keep_trying(outcome, waited) {
                    Settled::Retry(resp)
                } else {
                    Settled::Respond(Ok(resp))
                }
            },
            Err(e) => {
                proof {
                    use_type_invariant(&*self);
                    self.lemma_well_formed();
                }
                Settled::Respond(Err(e))
            },
        }
    }
}

} // verus!
