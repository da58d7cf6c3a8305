//! The value that the cache stores: one complete response together with the
//! instant at which it goes stale.
//!
//! Instants are readings of one monotonic clock, in milliseconds from an
//! origin that the caller chooses. The library never reads a clock itself:
//! every operation that depends on the time takes the current reading as an
//! argument.

use vstd::prelude::*;

verus! {

/// One header line. Names may repeat within a response, and the order of the
/// lines is part of the response.
#[derive(Debug, PartialEq, Eq)]
pub struct Header {
    pub name: String,
    pub value: Vec<u8>,
}

/// What a [`Header`] stands for.
pub struct HeaderView {
    pub name: Seq<char>,
    pub value: Seq<u8>,
}

impl View for Header {
    type V = HeaderView;

    open spec fn view(&self) -> HeaderView {
        HeaderView { name: self.name@, value: self.value@ }
    }
}

impl Header {
    /// An independent copy of the line.
    pub fn duplicate(&self) -> (r: Header)
        ensures
            r@ == self@,
    {
        let name = self.name.clone();
        let value = self.value.clone();
        assert(value@ =~= self.value@);
        Header { name, value }
    }
}

/// The status codes that a response may carry.
pub open spec fn valid_status(code: u16) -> bool {
    100 <= code <= 999
}

/// The status of a response: a number from 100 to 999.
#[derive(Clone, Copy, Debug, PartialEq, Eq)]
pub struct StatusCode {
    code: u16,
}

impl View for StatusCode {
    type V = u16;

    closed spec fn view(&self) -> u16 {
        self.code
    }
}

impl StatusCode {
    #[verifier::type_invariant]
    spec fn in_range(self) -> bool {
        valid_status(self.code)
    }

    /// The status with the number `code`, if there is one.
    pub fn from_u16(code: u16) -> (r: Option<StatusCode>)
        ensures
            r.is_some() == valid_status(code),
            r matches Some(status) ==> status@ == code,
    {
        if 100 <= code && code <= 999 {
            Some(StatusCode { code })
        } else {
            None
        }
    }

    /// The number of the status.
    pub fn as_u16(&self) -> (r: u16)
        ensures
            r == self@,
            valid_status(r),
    {
        proof {
            use_type_invariant(self);
        }
        self.code
    }
}

/// A response as it is kept in the cache.
#[derive(Debug, PartialEq, Eq)]
pub struct CachedResponse {
    pub status_code: StatusCode,
    pub headers: Vec<Header>,
    pub body: Vec<u8>,
    /// The instant after which the response is stale.
    pub ttl: u64,
}

/// What a [`CachedResponse`] stands for.
pub struct ResponseView {
    pub status_code: u16,
    pub headers: Seq<HeaderView>,
    pub body: Seq<u8>,
    pub ttl: u64,
}

impl ResponseView {
    /// Whether the response is stale at the instant `now`: the clock has
    /// passed the expiry instant. At the expiry instant itself it is not.
    pub open spec fn expired(self, now: u64) -> bool {
        self.ttl < now
    }
}

/// The views of a run of header lines, in order.
pub open spec fn header_views(headers: Seq<Header>) -> Seq<HeaderView> {
    Seq::new(headers.len(), |i: int| headers[i]@)
}

impl View for CachedResponse {
    type V = ResponseView;

    open spec fn view(&self) -> ResponseView {
        ResponseView {
            status_code: self.status_code@,
            headers: header_views(self.headers@),
            body: self.body@,
            ttl: self.ttl,
        }
    }
}

/// What a response that may be missing stands for.
pub open spec fn snapshot(found: Option<CachedResponse>) -> Option<ResponseView> {
    match found {
        Some(resp) => Some(resp@),
        None => None,
    }
}

impl CachedResponse {
    /// Builds a response, or refuses a status code outside 100..=999.
    pub fn new(status_code: u16, headers: Vec<Header>, body: Vec<u8>, ttl: u64) -> (r: Option<
        CachedResponse,
    >)
        ensures
            r.is_some() == valid_status(status_code),
            r matches Some(resp) ==> resp@ == (ResponseView {
                status_code,
                headers: header_views(headers@),
                body: body@,
                ttl,
            }),
    {
        match StatusCode::from_u16(status_code) {
            Some(status) => Some(CachedResponse { status_code: status, headers, body, ttl }),
            None => None,
        }
    }

    /// Whether the response is stale at the instant `now`.
    pub fn expired(&self, now: u64) -> (r: bool)
        ensures
            r == self@.expired(now),
    {
        self.ttl < now
    }

    /// An independent snapshot: status, header lines, body and expiry instant
    /// are those of `self`.
    pub fn duplicate(&self) -> (r: CachedResponse)
        ensures
            r@ == self@,
    {
        let mut headers: Vec<Header> = Vec::new();
        let mut i: usize = 0;
        while i < self.headers.len()
            invariant
                i <= self.headers.len(),
                headers.len() == i,
                forall|j: int| 0 <= j < i ==> headers[j]@ == self.headers[j]@,
            decreases self.headers.len() - i,
        {
            headers.push(self.headers[i].duplicate());
            i += 1;
        }
        let body = self.body.clone();
        assert(body@ =~= self.body@);
        assert(header_views(headers@) =~= header_views(self.headers@));
        CachedResponse { status_code: self.status_code, headers, body, ttl: self.ttl }
    }
}

/// A response goes stale exactly when the clock passes its expiry instant:
/// stored at `stored_at` to live for `lifetime`, it is fresh at every
/// instant before `stored_at + lifetime` and stale at every instant after it.
pub proof fn lemma_stale_after_lifetime(resp: ResponseView, stored_at: u64, lifetime: u64, at: u64)
    requires
        resp.ttl == stored_at + lifetime,
        at != resp.ttl,
    ensures
        at < stored_at + lifetime ==> !resp.expired(at),
        at > stored_at + lifetime ==> resp.expired(at),
{
}

} // verus!
