use pubsub_core::token_bucket::TokenBucket;

/// Scales a fractional refill ratio to the bucket's units, as the publisher does.
fn scaled(refill_ratio: f32) -> u32 {
    (refill_ratio * 1000_f32).round() as u32
}

#[test]
fn starts_empty_and_cannot_acquire() {
    let mut bucket = TokenBucket::new(50, scaled(0.1));
    assert_eq!(bucket.available_scaled_tokens(), 0);
    assert!(!bucket.try_acquire());
}

#[test]
fn refill_and_acquire() {
    // refill_ratio 0.1 -> 100 scaled units per refill
    let mut bucket = TokenBucket::new(10, scaled(0.1));

    for _ in 0..9 {
        bucket.refill();
        assert!(!bucket.try_acquire());
    }
    assert_eq!(bucket.available_scaled_tokens(), 900);

    // 10th refill brings tokens to 1000 (1 token)
    bucket.refill();
    assert_eq!(bucket.available_scaled_tokens(), 1000);

    // Now try_acquire succeeds
    assert!(bucket.try_acquire());
    assert_eq!(bucket.available_scaled_tokens(), 0);

    // Cannot acquire again without refill
    assert!(!bucket.try_acquire());
}

#[test]
fn capped_at_max_tokens() {
    // max_tokens = 2 (scaled = 2000), refill_ratio = 0.5 (scaled = 500)
    let mut bucket = TokenBucket::new(2, scaled(0.5));

    for _ in 0..10 {
        bucket.refill();
    }
    assert_eq!(bucket.available_scaled_tokens(), 2000);

    assert!(bucket.try_acquire());
    assert_eq!(bucket.available_scaled_tokens(), 1000);

    assert!(bucket.try_acquire());
    assert_eq!(bucket.available_scaled_tokens(), 0);

    assert!(!bucket.try_acquire());
}

#[test]
fn many_refills_then_exact_number_of_acquires() {
    // 100 refills of 100 scaled units = 10000 scaled units = 10 tokens.
    let mut bucket = TokenBucket::new(50, scaled(0.1));
    for _ in 0..100 {
        bucket.refill();
    }
    assert_eq!(bucket.available_scaled_tokens(), 10_000);
    for _ in 0..10 {
        assert!(bucket.try_acquire());
    }
    assert!(!bucket.try_acquire());
}

#[test]
fn max_tokens_saturate() {
    let mut bucket = TokenBucket::new(u32::MAX, u32::MAX);
    bucket.refill();
    assert_eq!(bucket.available_scaled_tokens(), u32::MAX);
    bucket.refill();
    assert_eq!(bucket.available_scaled_tokens(), u32::MAX);
}

#[test]
fn zero_max_tokens_never_grants() {
    let mut bucket = TokenBucket::new(0, scaled(0.5));
    for _ in 0..10 {
        bucket.refill();
    }
    assert_eq!(bucket.available_scaled_tokens(), 0);
    assert!(!bucket.try_acquire());
}

#[test]
fn partial_refill_rounds_ratio() {
    // 0.0014 scales to 1 unit; 0.0016 scales to 2 units.
    let mut a = TokenBucket::new(1, scaled(0.0014));
    a.refill();
    assert_eq!(a.available_scaled_tokens(), 1);
    let mut b = TokenBucket::new(1, scaled(0.0016));
    b.refill();
    assert_eq!(b.available_scaled_tokens(), 2);
}
