use caching_proxy::dispatch::{cache_key, expiry_after, fresh, ErrWrapper, Settled};
use caching_proxy::response::{CachedResponse, Header, StatusCode};
use caching_proxy::state::{CacheState, Eviction};

fn page(body: &str, ttl: u64) -> CachedResponse {
    CachedResponse {
        status_code: StatusCode::from_u16(203).expect("a status"),
        headers: vec![Header { name: "etag".to_string(), value: vec![0x22, 0xff, 0x22] }],
        body: body.as_bytes().to_vec(),
        ttl,
    }
}

#[test]
fn key_joins_method_path_and_query() {
    assert_eq!(cache_key("GET", "/a/b", "x=1&y=2"), "GET /a/b?x=1&y=2");
    assert_eq!(cache_key("POST", "/", ""), "POST /?");
    assert_eq!(cache_key("", "", ""), " ?");
}

#[test]
fn keys_of_different_requests_differ() {
    assert_ne!(cache_key("GET", "/a", "b"), cache_key("GET", "/a?b", ""));
    assert_ne!(cache_key("GET", "/a", ""), cache_key("HEAD", "/a", ""));
    assert_eq!(cache_key("GET", "/a", "q"), cache_key("GET", "/a", "q"));
}

#[test]
fn expiry_is_now_plus_lifetime() {
    assert_eq!(expiry_after(1_000, 100), 1_100);
    assert_eq!(expiry_after(0, 0), 0);
    assert_eq!(expiry_after(u64::MAX - 5, 5), u64::MAX);
    assert_eq!(expiry_after(u64::MAX - 5, 6), u64::MAX);
    assert_eq!(expiry_after(u64::MAX, u64::MAX), u64::MAX);
}

#[test]
fn response_is_fresh_until_its_instant_has_passed() {
    let stored_at = 1_000;
    let resp = page("p", expiry_after(stored_at, 100));
    assert!(!resp.expired(stored_at));
    assert!(!resp.expired(1_099));
    assert!(!resp.expired(1_100));
    assert!(resp.expired(1_101));
    assert!(resp.expired(u64::MAX));
}

#[test]
fn fresh_passes_only_unexpired_hits() {
    assert_eq!(fresh(None, 5), None);
    assert_eq!(fresh(Some(page("p", 10)), 10), Some(page("p", 10)));
    assert_eq!(fresh(Some(page("p", 10)), 11), None);
}

#[test]
fn miss_store_hit_replays_the_same_response() {
    let mut cache = CacheState::with_capacity(4);
    let key = cache_key("GET", "/index", "");
    assert!(cache.lookup(&key, 0).is_none());
    let upstream = page("<html>", expiry_after(0, 100));
    let settled = cache.settle(&key, Ok(upstream), 0);
    assert_eq!(settled, Settled::Respond(Ok(page("<html>", 100))));
    let hit = cache.lookup(&key, 50).expect("stored on the miss");
    assert_eq!(hit, page("<html>", 100));
    assert_eq!(hit.status_code.as_u16(), 203);
    assert_eq!(hit.headers, page("<html>", 100).headers);
    assert_eq!(hit.body, b"<html>".to_vec());
    assert!(cache.lookup(&key, 101).is_none());
    assert_eq!(cache.len(), 1);
}

#[test]
fn upstream_failure_is_handed_on_and_not_stored() {
    let mut cache = CacheState::with_capacity(4);
    let key = cache_key("GET", "/down", "");
    let failed = cache.settle(&key, Err(ErrWrapper { msg: "connection refused".to_string() }), 0);
    assert_eq!(
        failed,
        Settled::Respond(Err(ErrWrapper { msg: "connection refused".to_string() }))
    );
    assert!(cache.get(&key).is_none());
    assert_eq!(cache.len(), 0);
    assert_eq!(cache.expire_head(u64::MAX), Eviction::Idle);
}

#[test]
fn answer_is_handed_on_when_the_cache_is_full() {
    let mut cache = CacheState::with_capacity(1);
    assert!(cache.put("other".to_string(), page("o", 500), 500));
    let key = cache_key("GET", "/late", "");
    let answered = cache.settle(&key, Ok(page("late", 100)), 0);
    assert_eq!(answered, Settled::Respond(Ok(page("late", 100))));
    assert!(cache.get(&key).is_none());
    assert_eq!(cache.get(&"other".to_string()), Some(page("o", 500)));
}

#[test]
fn response_refuses_status_out_of_range() {
    assert!(CachedResponse::new(99, vec![], vec![], 0).is_none());
    assert!(CachedResponse::new(1000, vec![], vec![], 0).is_none());
    assert!(CachedResponse::new(0, vec![], vec![], 0).is_none());
    let ok = CachedResponse::new(100, vec![], vec![1, 2], 7).expect("in range");
    assert_eq!(ok.status_code.as_u16(), 100);
    assert_eq!(ok.headers, vec![]);
    assert_eq!(ok.body, vec![1, 2]);
    assert_eq!(ok.ttl, 7);
    assert!(CachedResponse::new(999, vec![], vec![], 0).is_some());
}

#[test]
fn duplicate_is_equal_and_independent() {
    let first = page("body", 9);
    let mut copy = first.duplicate();
    assert_eq!(copy, first);
    copy.body.push(0);
    copy.headers[0].value.clear();
    assert_eq!(first, page("body", 9));
    let line = Header { name: "n".to_string(), value: vec![1] };
    assert_eq!(line.duplicate(), line);
}

#[test]
fn full_schedule_asks_for_another_try_until_the_timeout() {
    let mut cache = CacheState::with_capacity(2);
    assert!(cache.put("a".to_string(), page("1", 40), 40));
    assert!(cache.put("a".to_string(), page("2", 50), 50));
    let key = cache_key("GET", "/b", "");
    assert_eq!(cache.settle(&key, Ok(page("b", 90)), 0), Settled::Retry(page("b", 90)));
    assert_eq!(cache.settle(&key, Ok(page("b", 90)), 29_999), Settled::Retry(page("b", 90)));
    assert!(cache.get(&key).is_none());
    assert_eq!(
        cache.settle(&key, Ok(page("b", 90)), 30_000),
        Settled::Respond(Ok(page("b", 90)))
    );
    assert!(cache.get(&key).is_none());
    assert_eq!(cache.expire_head(40), Eviction::Evicted("a".to_string()));
    assert_eq!(cache.settle(&key, Ok(page("b", 90)), 10), Settled::Respond(Ok(page("b", 90))));
    assert_eq!(cache.get(&key), Some(page("b", 90)));
}

#[test]
fn status_is_a_number_from_100_to_999() {
    assert!(StatusCode::from_u16(0).is_none());
    assert!(StatusCode::from_u16(99).is_none());
    assert_eq!(StatusCode::from_u16(100).map(|s| s.as_u16()), Some(100));
    assert_eq!(StatusCode::from_u16(418).map(|s| s.as_u16()), Some(418));
    assert_eq!(StatusCode::from_u16(999).map(|s| s.as_u16()), Some(999));
    assert!(StatusCode::from_u16(1000).is_none());
    assert!(StatusCode::from_u16(u16::MAX).is_none());
    assert_eq!(StatusCode::from_u16(200), StatusCode::from_u16(200));
    assert_ne!(StatusCode::from_u16(200), StatusCode::from_u16(201));
}

#[test]
fn error_is_shown_as_its_quoted_message() {
    let plain = ErrWrapper { msg: "upstream timed out".to_string() };
    assert_eq!(plain.describe(), "\"upstream timed out\"");
    let odd = ErrWrapper { msg: "bad \"host\"\n".to_string() };
    assert_eq!(odd.describe(), "\"bad \\\"host\\\"\\n\"");
    assert_eq!(ErrWrapper { msg: String::new() }.describe(), "\"\"");
}
