use pubsub_core::worker::{Batch, WorkerState};

#[test]
fn test_push_batch() {
    let mut batch = Batch::new();
    assert!(batch.is_empty());

    batch.push("hello".to_string());
    assert_eq!(batch.len(), 1);

    batch.push(", ".to_string());
    assert_eq!(batch.len(), 2);

    batch.push("world".to_string());
    assert_eq!(batch.len(), 3);
}

#[test]
fn first_message_resets_timer_and_full_batch_is_sent() {
    let mut w = WorkerState::new(3);
    let s1 = w.on_message(1);
    assert!(s1.reset_timer);
    assert!(s1.send.is_none());
    let s2 = w.on_message(2);
    assert!(!s2.reset_timer);
    assert!(s2.send.is_none());
    let s3 = w.on_message(3);
    assert!(!s3.reset_timer);
    assert_eq!(s3.send, Some(vec![1, 2, 3]));
    let s4 = w.on_message(4);
    assert!(s4.reset_timer);
    assert!(s4.send.is_none());
}

#[test]
fn timer_sends_partial_batch_only() {
    let mut w = WorkerState::new(100);
    assert_eq!(w.on_timer(), None);
    w.on_message("a");
    w.on_message("b");
    assert_eq!(w.on_timer(), Some(vec!["a", "b"]));
    assert_eq!(w.on_timer(), None);
}

#[test]
fn close_flushes_remaining() {
    let mut w = WorkerState::new(10);
    w.on_message(5);
    assert_eq!(w.on_close(), Some(vec![5]));
    let empty: WorkerState<i32> = WorkerState::new(10);
    assert_eq!(empty.on_close(), None);
}

#[test]
fn zero_limit_sends_every_message() {
    let mut w = WorkerState::new(0);
    let s = w.on_message(9);
    assert!(s.reset_timer);
    assert_eq!(s.send, Some(vec![9]));
}
