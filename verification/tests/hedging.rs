use pubsub_core::attempt::{attempt_options, AttemptKind, HedgeTelemetry, RetryPolicy};
use pubsub_core::message::Timestamp;
use std::time::Duration;
use pubsub_core::hedging::{
    hedged_send_step, HedgeDispatch, HedgedSendAction, HedgedSendEvent, HedgingScheduler,
};
use pubsub_core::token_bucket::TokenBucket;

/// Scales a fractional refill ratio to the bucket's units, as the publisher does.
fn scaled(refill_ratio: f32) -> u32 {
    (refill_ratio * 1000_f32).round() as u32
}

// Times are in milliseconds in these tests.
fn scheduler() -> HedgingScheduler {
    HedgingScheduler::new(100, TokenBucket::new(10, scaled(0.1)))
}

#[test]
fn multiple_hedged_attempts_carry_growing_attempt_counts() {
    let mut s = scheduler();
    // Refill 20 times (2 tokens) so two hedges can be acquired.
    for _ in 0..20 {
        s.refill();
    }
    let id = s.register_batch(0, None);
    assert_eq!(s.next_deadline(), Some(100));
    assert_eq!(s.on_timer(100), vec![HedgeDispatch { batch: id, attempt_count: 1, start_time: None }]);
    assert_eq!(s.next_deadline(), Some(200));
    assert_eq!(s.on_timer(200), vec![HedgeDispatch { batch: id, attempt_count: 2, start_time: None }]);
    assert_eq!(s.available_scaled_tokens(), 0);
    // The second hedge succeeds.
    assert!(s.complete_hedged(id, true));
    assert!(s.is_done(id));
    assert_eq!(s.available_scaled_tokens(), 100);
}

#[test]
fn throttled_hedge_reschedules_and_maintains_attempt_count() {
    let mut s = scheduler();
    let id = s.register_batch(0, None);
    // At t = 100ms: throttled (no tokens), rescheduled for t = 200ms.
    assert!(s.on_timer(100).is_empty());
    assert!(!s.is_done(id));
    assert_eq!(s.next_deadline(), Some(200));
    // At t = 150ms: 10 refills of 0.1 = 1 token.
    for _ in 0..10 {
        s.refill();
    }
    assert_eq!(s.on_timer(200), vec![HedgeDispatch { batch: id, attempt_count: 1, start_time: None }]);
    assert!(s.complete_hedged(id, true));
    assert!(s.is_done(id));
}

#[test]
fn failed_hedged_attempt_ignored() {
    let mut s = scheduler();
    for _ in 0..10 {
        s.refill();
    }
    let id = s.register_batch(0, None);
    assert_eq!(s.on_timer(100), vec![HedgeDispatch { batch: id, attempt_count: 1, start_time: None }]);
    // The hedged attempt fails: nothing changes.
    assert!(!s.complete_hedged(id, false));
    assert!(!s.is_done(id));
    // The initial attempt then succeeds.
    assert!(s.complete(id, true));
    assert!(s.is_done(id));
    assert_eq!(s.available_scaled_tokens(), 100);
}

#[test]
fn scheduler_drops_done_batch() {
    let mut s = scheduler();
    for _ in 0..10 {
        s.refill();
    }
    let id = s.register_batch(0, None);
    assert!(s.complete(id, true));
    assert!(s.on_timer(10_000).is_empty());
    assert_eq!(s.next_deadline(), None);
    // The success refilled 100 units, and no token was spent on the done batch.
    assert_eq!(s.available_scaled_tokens(), 1100);
}

#[test]
fn first_completion_wins() {
    let mut s = scheduler();
    let id = s.register_batch(0, None);
    assert!(s.complete(id, true));
    assert_eq!(s.available_scaled_tokens(), 100);
    assert!(!s.complete(id, true));
    assert!(!s.complete_hedged(id, true));
    // Only the first completion refilled the bucket.
    assert_eq!(s.available_scaled_tokens(), 100);
}

#[test]
fn failed_initial_attempt_resolves_without_refill() {
    let mut s = scheduler();
    let id = s.register_batch(0, None);
    assert!(s.complete(id, false));
    assert!(s.is_done(id));
    assert_eq!(s.available_scaled_tokens(), 0);
}

#[test]
fn tokens_go_to_earliest_deadline_first() {
    let mut s = scheduler();
    for _ in 0..10 {
        s.refill();
    }
    let a = s.register_batch(0, None);
    let b = s.register_batch(30, None);
    // Both are due at 150; only one token: the earlier batch gets it.
    assert_eq!(s.on_timer(150), vec![HedgeDispatch { batch: a, attempt_count: 1, start_time: None }]);
    assert_eq!(s.next_deadline(), Some(250));
    for _ in 0..10 {
        s.refill();
    }
    assert_eq!(
        s.on_timer(250),
        vec![HedgeDispatch { batch: a, attempt_count: 2, start_time: None }]
    );
    // b was rescheduled at 250 with attempt count 1, behind a: no token left for it.
    assert!(s.attempts_below_max());
    assert_eq!(s.current_clock(), 250);
    let _ = b;
}

#[test]
fn entries_not_yet_due_wait() {
    let mut s = scheduler();
    for _ in 0..10 {
        s.refill();
    }
    let _a = s.register_batch(0, None);
    assert!(s.on_timer(99).is_empty());
    assert_eq!(s.next_deadline(), Some(100));
    assert_eq!(s.available_scaled_tokens(), 1000);
}

#[test]
fn hedged_send_steps() {
    let mut bucket = TokenBucket::new(10, scaled(0.1));
    assert_eq!(hedged_send_step(&mut bucket, HedgedSendEvent::DelayElapsed), HedgedSendAction::Wait);
    for _ in 0..10 {
        bucket.refill();
    }
    assert_eq!(
        hedged_send_step(&mut bucket, HedgedSendEvent::DelayElapsed),
        HedgedSendAction::SpawnHedge
    );
    assert_eq!(bucket.available_scaled_tokens(), 0);
    assert_eq!(
        hedged_send_step(&mut bucket, HedgedSendEvent::HedgeCompleted { ok: false }),
        HedgedSendAction::Wait
    );
    assert_eq!(bucket.available_scaled_tokens(), 0);
    assert_eq!(
        hedged_send_step(&mut bucket, HedgedSendEvent::HedgeCompleted { ok: true }),
        HedgedSendAction::ResolveWithHedge
    );
    assert_eq!(bucket.available_scaled_tokens(), 100);
    assert_eq!(
        hedged_send_step(&mut bucket, HedgedSendEvent::InitialCompleted { ok: true }),
        HedgedSendAction::ResolveWithInitial
    );
    assert_eq!(bucket.available_scaled_tokens(), 200);
    assert_eq!(
        hedged_send_step(&mut bucket, HedgedSendEvent::InitialCompleted { ok: false }),
        HedgedSendAction::ResolveWithInitial
    );
    assert_eq!(bucket.available_scaled_tokens(), 200);
}

#[test]
fn attempt_options_by_kind() {
    let initial = attempt_options(AttemptKind::Initial);
    assert_eq!(initial.retry, RetryPolicy::Default);
    assert!(initial.marker_header.is_none());
    assert!(initial.telemetry.is_none());

    let hedged = attempt_options(AttemptKind::Hedged);
    assert_eq!(hedged.retry, RetryPolicy::NeverRetry { time_limit: Duration::from_secs(10) });
    assert_eq!(hedged.marker_header, Some(("x-goog-pubsub-hedged", "true")));
    assert!(hedged.telemetry.is_none());

    let start = Timestamp { seconds: 1_700_000_000, nanos: 500_000_000 };
    let scheduled =
        HedgeDispatch { batch: 3, attempt_count: 2, start_time: Some(start) }.options();
    assert_eq!(scheduled.retry, RetryPolicy::NeverRetry { time_limit: Duration::from_secs(10) });
    assert!(scheduled.marker_header.is_none());
    assert_eq!(
        scheduled.telemetry,
        Some(HedgeTelemetry { hedged_attempt_count: 2, publish_start_time: Some(start) })
    );
}

#[test]
fn hedges_carry_the_batch_start_time() {
    let start = Timestamp { seconds: 1_700_000_000, nanos: 500_000_000 };
    let mut s = scheduler();
    for _ in 0..20 {
        s.refill();
    }
    let id = s.register_batch(0, Some(start));
    assert_eq!(
        s.on_timer(100),
        vec![HedgeDispatch { batch: id, attempt_count: 1, start_time: Some(start) }]
    );
    let second = s.on_timer(200);
    assert_eq!(
        second,
        vec![HedgeDispatch { batch: id, attempt_count: 2, start_time: Some(start) }]
    );
    assert_eq!(
        second[0].options().telemetry,
        Some(HedgeTelemetry { hedged_attempt_count: 2, publish_start_time: Some(start) })
    );
}
