use groupware::queue::{
    ConcurrencyLimiter, Domain, Due, Message, OnHold, Queue, QueueEventLock, Schedule, Status, Wait,
};
use std::sync::atomic::AtomicU64;
use std::sync::Arc;
use std::time::{SystemTime, UNIX_EPOCH};

fn domain(status: Status, retry: u64, notify: u64, expires: u64) -> Domain {
    Domain { status, retry: Schedule { due: retry }, notify: Schedule { due: notify }, expires }
}

fn message() -> Message {
    Message {
        domains: vec![
            domain(Status::Completed, 1, 2, 3),
            domain(Status::Scheduled, 50, 70, 90),
            domain(Status::TemporaryFailure, 60, 40, 80),
            domain(Status::PermanentFailure, 5, 6, 7),
        ],
    }
}

fn idle() -> Message {
    Message { domains: vec![domain(Status::Completed, 1, 2, 3), domain(Status::PermanentFailure, 5, 6, 7)] }
}

fn lock(queue_id: u64) -> QueueEventLock {
    QueueEventLock { due: 10, queue_id, lock_expiry: 20 }
}

fn limiter(max_concurrent: u64, concurrent: u64) -> ConcurrencyLimiter {
    ConcurrencyLimiter { max_concurrent, concurrent: Arc::new(AtomicU64::new(concurrent)) }
}

fn held(queue_id: u64, next_due: Option<u64>, limiters: Vec<ConcurrencyLimiter>) -> OnHold<QueueEventLock> {
    OnHold { next_due, limiters, message: lock(queue_id) }
}

#[test]
fn next_event_is_the_earliest_of_the_active_domains() {
    assert_eq!(message().next_event(), Some(40));
    assert_eq!(idle().next_event(), None);
    assert_eq!(Message { domains: vec![] }.next_event(), None);
}

#[test]
fn next_event_after_skips_what_is_past() {
    let m = message();
    assert_eq!(m.next_event_after(0), Some(40));
    assert_eq!(m.next_event_after(40), Some(50));
    assert_eq!(m.next_event_after(50), Some(60));
    assert_eq!(m.next_event_after(79), Some(80));
    assert_eq!(m.next_event_after(89), Some(90));
    assert_eq!(m.next_event_after(90), None);
    assert_eq!(idle().next_event_after(0), None);
}

#[test]
fn earliest_of_each_kind() {
    let m = message();
    assert_eq!(m.earliest(Due::Retry, 1000), 50);
    assert_eq!(m.earliest(Due::Notify, 1000), 40);
    assert_eq!(m.earliest(Due::Expiry, 1000), 80);
    assert_eq!(idle().earliest(Due::Retry, 1000), 1000);
}

#[test]
fn delivery_dsn_and_expiry_of_an_active_message() {
    let m = message();
    assert_eq!(m.next_delivery_event(), 50);
    assert_eq!(m.next_dsn(), 40);
    assert_eq!(m.expires(), 80);
}

#[test]
fn an_idle_message_is_due_now() {
    let before = SystemTime::now().duration_since(UNIX_EPOCH).unwrap().as_secs();
    let due = idle().next_delivery_event();
    let after = SystemTime::now().duration_since(UNIX_EPOCH).unwrap().as_secs();
    assert!(before <= due && due <= after);
    assert!(idle().next_dsn() >= before);
    assert!(idle().expires() >= before);
}

#[test]
fn a_new_queue_wakes_up_soon() {
    let queue = Queue::new(Arc::new(7u8));
    assert_eq!(*queue.core, 7);
    assert!(queue.on_hold.is_empty());
    assert_eq!(queue.next_wake_up, Wait { secs: 0, nanos: 1_000_000 });
}

#[test]
fn on_hold_appends() {
    let mut queue = Queue::new(Arc::new(()));
    queue.on_hold(held(1, Some(5), vec![]));
    queue.on_hold(held(2, None, vec![limiter(2, 2)]));
    assert_eq!(queue.on_hold.len(), 2);
    assert_eq!(queue.on_hold[0].message.queue_id, 1);
    assert_eq!(queue.on_hold[1].message.queue_id, 2);
    assert_eq!(queue.on_hold[1].limiters[0].max_concurrent, 2);
}

#[test]
fn readiness_follows_the_counts_and_the_instant() {
    let waiting = held(1, Some(100), vec![limiter(2, 2), limiter(3, 9)]);
    assert!(!waiting.ready_with(&vec![2, 9], 99));
    assert!(waiting.ready_with(&vec![2, 9], 100));
    assert!(waiting.ready_with(&vec![2, 2], 0));
    assert!(waiting.ready_with(&vec![1], 0));
    assert!(!waiting.ready_with(&vec![], 0));
    assert_eq!(waiting.counts(), vec![2, 9]);
    assert!(!waiting.is_ready(99));
    assert!(waiting.is_ready(100));
    assert!(held(2, None, vec![limiter(2, 1)]).is_ready(0));
    assert!(!held(3, None, vec![]).is_ready(u64::MAX));
}

#[test]
fn next_on_hold_takes_the_first_that_may_go() {
    let mut queue = Queue::new(Arc::new(()));
    queue.on_hold(held(1, Some(100), vec![limiter(1, 1)]));
    queue.on_hold(held(2, Some(50), vec![]));
    queue.on_hold(held(3, None, vec![limiter(4, 0)]));
    assert_eq!(queue.next_on_hold_at(10).map(|m| m.queue_id), Some(3));
    assert_eq!(queue.next_on_hold_at(10), None);
    assert_eq!(queue.on_hold.len(), 2);
    assert_eq!(queue.next_on_hold_at(60).map(|m| m.queue_id), Some(2));
    assert_eq!(queue.next_on_hold_at(100).map(|m| m.queue_id), Some(1));
    assert!(queue.on_hold.is_empty());
    assert_eq!(queue.next_on_hold_at(100), None);
}

#[test]
fn next_on_hold_reads_the_clock() {
    let mut queue = Queue::new(Arc::new(()));
    queue.on_hold(held(1, Some(u64::MAX), vec![]));
    queue.on_hold(held(2, Some(1), vec![]));
    assert_eq!(queue.next_on_hold().map(|m| m.queue_id), Some(2));
    assert_eq!(queue.next_on_hold(), None);
    assert_eq!(queue.on_hold.len(), 1);
}

#[test]
fn a_round_sets_the_wake_up_time() {
    let mut queue = Queue::new(Arc::new(()));
    queue.begin_round();
    assert_eq!(queue.next_wake_up, Wait { secs: 86400 * 365, nanos: 0 });
    assert!(queue.schedule(10, 10));
    assert!(queue.schedule(9, 10));
    assert_eq!(queue.next_wake_up, Wait { secs: 86400 * 365, nanos: 0 });
    assert!(!queue.schedule(25, 10));
    assert_eq!(queue.next_wake_up, Wait { secs: 15, nanos: 0 });
}

#[test]
fn a_message_due_at_zero_is_always_taken() {
    let mut queue = Queue::new(Arc::new(()));
    assert_eq!(queue.next_on_hold(), None);
    queue.on_hold(held(1, None, vec![]));
    queue.on_hold(held(2, Some(0), vec![]));
    assert_eq!(queue.next_on_hold().map(|m| m.queue_id), Some(2));
    assert_eq!(queue.on_hold.len(), 1);
    assert_eq!(queue.on_hold[0].message.queue_id, 1);
    assert_eq!(queue.next_on_hold(), None);
}
