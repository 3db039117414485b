use pubsub_core::options::BatchingOptions;
use std::time::Duration;

#[test]
fn batching_options() {
    let options = BatchingOptions::new()
        .set_byte_threshold(1_234_u32)
        .set_message_count_threshold(123_u32)
        .set_delay_threshold(std::time::Duration::from_millis(12));
    assert_eq!(options.byte_threshold, 1_234_u32);
    assert_eq!(options.message_count_threshold, 123_u32);
    assert_eq!(options.delay_threshold, std::time::Duration::from_millis(12));
}

#[test]
fn batching_options_defaults() {
    let options = BatchingOptions::default();
    assert_eq!(options.message_count_threshold, 100);
    assert_eq!(options.byte_threshold, 1_000_000);
    assert_eq!(options.delay_threshold, Duration::from_millis(10));
    let fresh = BatchingOptions::new();
    assert_eq!(fresh.message_count_threshold, 100);
    assert_eq!(fresh.byte_threshold, 1_000_000);
    assert_eq!(fresh.delay_threshold, Duration::from_millis(10));
}

#[test]
fn setters_leave_other_fields() {
    let options = BatchingOptions::new().set_delay_threshold(Duration::from_secs(3));
    assert_eq!(options.message_count_threshold, 100);
    assert_eq!(options.byte_threshold, 1_000_000);
    assert_eq!(options.delay_threshold, Duration::from_secs(3));
}
