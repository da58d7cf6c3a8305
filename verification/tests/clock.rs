use caching_proxy::clock::{instant_at, Clock};

#[test]
fn instant_is_the_milliseconds_elapsed() {
    assert_eq!(instant_at(0), 0);
    assert_eq!(instant_at(1), 1);
    assert_eq!(instant_at(30_000), 30_000);
    assert_eq!(instant_at(u64::MAX as u128), u64::MAX);
}

#[test]
fn instant_stops_at_the_end_of_the_clock() {
    assert_eq!(instant_at(u64::MAX as u128 + 1), u64::MAX);
    assert_eq!(instant_at(u128::MAX), u64::MAX);
}

#[test]
fn clock_starts_near_zero_and_does_not_run_backwards() {
    let clock = Clock::start();
    let first = clock.now();
    let copy = clock;
    let mut last = first;
    for _ in 0..1000 {
        let next = copy.now();
        assert!(last <= next);
        last = next;
    }
    assert!(first < 10_000);
    assert!(clock.now() >= last);
}
