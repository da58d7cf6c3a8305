use caching_proxy::schedule::{ExpiryEntry, ExpirySchedule};

#[test]
fn empty_schedule_has_no_head() {
    let mut q = ExpirySchedule::with_capacity(2);
    assert_eq!(q.len(), 0);
    assert_eq!(q.head_due(), None);
    assert_eq!(q.take(u64::MAX), None);
}

#[test]
fn entries_come_out_in_due_order() {
    let mut q = ExpirySchedule::with_capacity(8);
    assert!(q.offer("c".to_string(), 30));
    assert!(q.offer("a".to_string(), 10));
    assert!(q.offer("d".to_string(), 40));
    assert!(q.offer("b".to_string(), 20));
    assert_eq!(q.len(), 4);
    assert_eq!(q.head_due(), Some(10));
    assert_eq!(q.take(100), Some(ExpiryEntry { key: "a".to_string(), due: 10 }));
    assert_eq!(q.take(100), Some(ExpiryEntry { key: "b".to_string(), due: 20 }));
    assert_eq!(q.take(100), Some(ExpiryEntry { key: "c".to_string(), due: 30 }));
    assert_eq!(q.take(100), Some(ExpiryEntry { key: "d".to_string(), due: 40 }));
    assert_eq!(q.take(100), None);
}

#[test]
fn equal_instants_keep_order_of_arrival() {
    let mut q = ExpirySchedule::with_capacity(8);
    assert!(q.offer("first".to_string(), 5));
    assert!(q.offer("second".to_string(), 5));
    assert!(q.offer("zero".to_string(), 4));
    assert!(q.offer("third".to_string(), 5));
    assert_eq!(q.take(5).map(|e| e.key), Some("zero".to_string()));
    assert_eq!(q.take(5).map(|e| e.key), Some("first".to_string()));
    assert_eq!(q.take(5).map(|e| e.key), Some("second".to_string()));
    assert_eq!(q.take(5).map(|e| e.key), Some("third".to_string()));
}

#[test]
fn take_waits_until_the_head_is_due() {
    let mut q = ExpirySchedule::with_capacity(2);
    assert!(q.offer("k".to_string(), 100));
    assert_eq!(q.take(99), None);
    assert_eq!(q.len(), 1);
    assert_eq!(q.take(100), Some(ExpiryEntry { key: "k".to_string(), due: 100 }));
    assert_eq!(q.len(), 0);
}

#[test]
fn full_schedule_refuses() {
    let mut q = ExpirySchedule::with_capacity(2);
    assert!(q.offer("a".to_string(), 1));
    assert!(q.offer("b".to_string(), 2));
    assert!(!q.offer("c".to_string(), 0));
    assert_eq!(q.len(), 2);
    assert_eq!(q.head_due(), Some(1));
    assert!(q.take(1).is_some());
    assert!(q.offer("c".to_string(), 0));
    assert_eq!(q.head_due(), Some(0));
}

#[test]
fn schedule_of_no_capacity_takes_nothing() {
    let mut q = ExpirySchedule::with_capacity(0);
    assert!(!q.offer("a".to_string(), 1));
    assert_eq!(q.len(), 0);
}
