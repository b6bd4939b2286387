use fanout_core::queue::OfflineQueues;

const U: u128 = 0x77;
const V: u128 = 0x88;

#[test]
fn p5_drain_is_exhausting() {
    let mut queues = OfflineQueues::new();
    queues.enqueue(U, "a".to_string(), 0);
    queues.enqueue(U, "b".to_string(), 1);
    let first = queues.drain(U, 2);
    assert_eq!(first, vec!["a".to_string(), "b".to_string()]);
    let second = queues.drain(U, 3);
    assert_eq!(second, Vec::<String>::new());
}

#[test]
fn drain_preserves_enqueue_order() {
    let mut queues = OfflineQueues::new();
    for s in ["first", "second", "third"] {
        queues.enqueue(U, s.to_string(), 0);
    }
    assert_eq!(
        queues.drain(U, 1),
        vec!["first".to_string(), "second".to_string(), "third".to_string()]
    );
}

#[test]
fn queues_are_per_user() {
    let mut queues = OfflineQueues::new();
    queues.enqueue(U, "for-u".to_string(), 0);
    queues.enqueue(V, "for-v".to_string(), 0);
    assert_eq!(queues.drain(U, 1), vec!["for-u".to_string()]);
    assert_eq!(queues.drain(V, 1), vec!["for-v".to_string()]);
}

#[test]
fn queue_expires_a_day_after_last_append() {
    let mut queues = OfflineQueues::new();
    queues.enqueue(U, "old".to_string(), 0);
    // One tick before the TTL the message is still there ...
    let mut probe = OfflineQueues::new();
    probe.enqueue(U, "old".to_string(), 0);
    assert_eq!(probe.drain(U, 86399), vec!["old".to_string()]);
    // ... at the TTL it is gone.
    assert_eq!(queues.drain(U, 86400), Vec::<String>::new());
}

#[test]
fn append_refreshes_queue_expiry() {
    let mut queues = OfflineQueues::new();
    queues.enqueue(U, "a".to_string(), 0);
    queues.enqueue(U, "b".to_string(), 50000);
    // Both survive to 86400 because the second append pushed the expiry out.
    assert_eq!(queues.drain(U, 86400), vec!["a".to_string(), "b".to_string()]);
}

#[test]
fn append_to_expired_queue_starts_fresh() {
    let mut queues = OfflineQueues::new();
    queues.enqueue(U, "lost".to_string(), 0);
    queues.enqueue(U, "kept".to_string(), 90000);
    assert_eq!(queues.drain(U, 90001), vec!["kept".to_string()]);
}

#[test]
fn drain_of_unknown_user_is_empty() {
    let mut queues = OfflineQueues::new();
    assert_eq!(queues.drain(U, 0), Vec::<String>::new());
}
