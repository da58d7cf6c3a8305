use caching_proxy::cache::ResponseCache;
use caching_proxy::dispatch::{ErrWrapper, Settled};
use caching_proxy::model::{PutOutcome, INSERT_TIMEOUT};
use caching_proxy::response::{CachedResponse, Header, StatusCode};
use caching_proxy::state::{keep_trying, Eviction};

fn reply(body: &str, ttl: u64) -> CachedResponse {
    CachedResponse {
        status_code: StatusCode::from_u16(404).expect("a status"),
        headers: vec![Header { name: "x".to_string(), value: b"y".to_vec() }],
        body: body.as_bytes().to_vec(),
        ttl,
    }
}

#[test]
fn shared_cache_starts_empty() {
    let cache = ResponseCache::with_capacity(7);
    assert_eq!(cache.capacity(), 7);
    assert_eq!(cache.usage(), (0, 7));
    assert!(cache.get(&"k".to_string()).is_none());
    assert_eq!(cache.expire_head(0), Eviction::Idle);
}

#[test]
fn shared_cache_scenario() {
    let cache = ResponseCache::with_capacity(2);
    assert!(cache.put("A".to_string(), reply("a", 100), 100));
    assert!(cache.put("B".to_string(), reply("b", 100), 100));
    assert!(!cache.put("C".to_string(), reply("c", 100), 100));
    assert_eq!(cache.usage(), (2, 2));
    assert_eq!(cache.expire_head(99), Eviction::NotDue(100));
    assert_eq!(cache.expire_head(150), Eviction::Evicted("A".to_string()));
    assert_eq!(cache.expire_head(150), Eviction::Evicted("B".to_string()));
    assert_eq!(cache.expire_head(150), Eviction::Idle);
    assert!(cache.get(&"A".to_string()).is_none());
    assert!(cache.get(&"B".to_string()).is_none());
    assert!(cache.put("C".to_string(), reply("c", 250), 250));
    assert_eq!(cache.get(&"C".to_string()), Some(reply("c", 250)));
    assert_eq!(cache.usage(), (1, 2));
}

#[test]
fn shared_cache_replays_only_fresh_responses() {
    let cache = ResponseCache::with_capacity(2);
    let key = "GET /?".to_string();
    let answered = cache.settle(&key, Ok(reply("r", 10)), 0);
    assert_eq!(answered, Settled::Respond(Ok(reply("r", 10))));
    assert_eq!(cache.lookup(&key, 10), Some(reply("r", 10)));
    assert_eq!(cache.lookup(&key, 11), None);
    assert_eq!(cache.get(&key), Some(reply("r", 10)));
}

#[test]
fn shared_cache_keeps_failures_out() {
    let cache = ResponseCache::with_capacity(2);
    let answered = cache.settle(&"k".to_string(), Err(ErrWrapper { msg: "timeout".to_string() }), 0);
    assert_eq!(answered, Settled::Respond(Err(ErrWrapper { msg: "timeout".to_string() })));
    assert_eq!(cache.usage(), (0, 2));
}

#[test]
fn shared_cache_reports_why_it_refused() {
    let cache = ResponseCache::with_capacity(2);
    assert_eq!(cache.try_put("a".to_string(), reply("1", 5), 5), PutOutcome::Stored);
    assert_eq!(cache.try_put("a".to_string(), reply("2", 6), 6), PutOutcome::Stored);
    assert_eq!(cache.try_put("b".to_string(), reply("3", 7), 7), PutOutcome::ScheduleFull);
    assert_eq!(cache.expire_head(5), Eviction::Evicted("a".to_string()));
    assert_eq!(cache.try_put("b".to_string(), reply("3", 7), 7), PutOutcome::Stored);
    assert_eq!(cache.try_put("c".to_string(), reply("4", 8), 8), PutOutcome::ScheduleFull);
    assert_eq!(cache.expire_head(6), Eviction::Evicted("a".to_string()));
    assert_eq!(cache.try_put("c".to_string(), reply("4", 8), 8), PutOutcome::Stored);
    assert_eq!(cache.try_put("d".to_string(), reply("5", 9), 9), PutOutcome::CacheFull);
}

#[test]
fn writer_retries_only_a_full_schedule_within_the_timeout() {
    assert_eq!(INSERT_TIMEOUT, 30_000);
    assert!(keep_trying(PutOutcome::ScheduleFull, 0));
    assert!(keep_trying(PutOutcome::ScheduleFull, 29_999));
    assert!(!keep_trying(PutOutcome::ScheduleFull, 30_000));
    assert!(!keep_trying(PutOutcome::CacheFull, 0));
    assert!(!keep_trying(PutOutcome::Stored, 0));
}

#[test]
fn shared_cache_asks_for_another_try_when_only_the_schedule_is_full() {
    let cache = ResponseCache::with_capacity(2);
    assert!(cache.put("a".to_string(), reply("1", 5), 5));
    assert!(cache.put("a".to_string(), reply("2", 6), 6));
    let key = "b".to_string();
    assert_eq!(cache.settle(&key, Ok(reply("3", 7)), 100), Settled::Retry(reply("3", 7)));
    assert_eq!(cache.settle(&key, Ok(reply("3", 7)), 30_000), Settled::Respond(Ok(reply("3", 7))));
    assert!(cache.get(&key).is_none());
}
