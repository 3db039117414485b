use pubsub_core::bench::mock_server::{assign_message_ids, MockServerStats};
use pubsub_core::bench::report::{
    count_acknowledged, drain_timed_out, should_await_handles, IntervalReport, LatencyTally,
    ThroughputTally,
};
use pubsub_core::client::{required_topic, BuildError};
use pubsub_core::bench::{throughput, throughput_subscriber};
use pubsub_core::subscriber::effective_grpc_subchannel_count;
use std::time::Duration;

fn publisher_config(minimum_runtime: Duration, maximum_runtime: Duration) -> throughput::Config {
    throughput::Config {
        project: String::new(),
        topic_id: String::new(),
        payload_size: 1024,
        iteration_duration: Duration::from_secs(5),
        publisher_thread_count: 1,
        publisher_max_batch_size: 1000,
        publisher_max_batch_bytes: 10 * 1024 * 1024,
        minimum_samples: 10,
        maximum_samples: i64::MAX,
        minimum_runtime,
        maximum_runtime,
        endpoint: String::new(),
        publisher_io_threads: 0,
        publisher_io_channels: 1,
        publisher_pending_lwm: 112 * 1024 * 1024,
        publisher_pending_hwm: 128 * 1024 * 1024,
        publisher_target_messages_per_second: 1200 * 2000,
        max_outstanding_messages: 100_000,
    }
}

#[test]
fn publisher_benchmark_done_after_minimum_runtime() {
    let config = publisher_config(Duration::from_secs(5), Duration::from_secs(300));
    assert!(!throughput::done(&config, Duration::from_millis(4_999)));
    assert!(throughput::done(&config, Duration::from_secs(5)));
    assert!(throughput::done(&config, Duration::from_secs(301)));
    let odd = publisher_config(Duration::from_secs(10), Duration::from_secs(2));
    assert!(throughput::done(&odd, Duration::from_secs(2)));
    assert!(!throughput::done(&odd, Duration::from_secs(1)));
}

#[test]
fn subscriber_benchmark_done_after_maximum_runtime() {
    let config = throughput_subscriber::Config {
        project: String::new(),
        subscription_id: String::new(),
        iteration_duration: Duration::from_secs(5),
        maximum_runtime: Duration::from_secs(60),
        max_outstanding_messages: 100_000,
        subscriber_io_channels: 1,
        subscriber_thread_count: 1,
    };
    assert!(!throughput_subscriber::done(&config, Duration::from_secs(59)));
    assert!(throughput_subscriber::done(&config, Duration::from_secs(60)));
}

#[test]
fn mock_server_counts_requests() {
    let mut stats = MockServerStats::default();
    stats.record_publish(false);
    stats.record_publish(true);
    stats.record_publish(true);
    assert_eq!(stats.total_publish_requests, 3);
    assert_eq!(stats.hedged_publish_requests, 2);
    let mut wrap = MockServerStats { total_publish_requests: u64::MAX, hedged_publish_requests: 0 };
    wrap.record_publish(false);
    assert_eq!(wrap.total_publish_requests, 0);
}

#[test]
fn mock_server_assigns_consecutive_ids() {
    let mut next = 1u64;
    assert_eq!(assign_message_ids(&mut next, 3), vec![1, 2, 3]);
    assert_eq!(next, 4);
    assert_eq!(assign_message_ids(&mut next, 0), Vec::<u64>::new());
    let mut last = u64::MAX;
    assert_eq!(assign_message_ids(&mut last, 2), vec![u64::MAX, 0]);
    assert_eq!(last, 1);
}

#[test]
fn tally_reports_each_interval() {
    let mut t = ThroughputTally::new();
    t.record_published(10);
    t.record_acknowledged(4);
    assert_eq!(t.report_due(500, 1_000), None);
    t.record_published(5);
    assert_eq!(
        t.report_due(1_000, 1_000),
        Some(IntervalReport { elapsed_nanos: 1_000, published: 15, acknowledged: 4 })
    );
    assert_eq!(t.interval_published, 0);
    assert_eq!(t.total_published, 15);
    assert_eq!(t.last_report_nanos, 1_000);
}

#[test]
fn acknowledgements_count_successes() {
    let results: Vec<Result<u8, String>> = vec![Ok(1), Err("x".to_string()), Ok(2)];
    assert_eq!(count_acknowledged(&results), 2);
}

#[test]
fn grpc_subchannel_count() {
    assert_eq!(effective_grpc_subchannel_count(None), 1);
    assert_eq!(effective_grpc_subchannel_count(Some(0)), 1);
    assert_eq!(effective_grpc_subchannel_count(Some(8)), 8);
}

#[test]
fn handles_awaited_by_thousands() {
    assert!(!should_await_handles(999));
    assert!(should_await_handles(1000));
    assert!(should_await_handles(1001));
}

#[test]
fn latency_tally_classifies_outcomes() {
    let mut t = LatencyTally::new();
    t.record(Some((true, Duration::from_millis(5))));
    t.record(Some((false, Duration::from_millis(7))));
    t.record(None);
    t.record(Some((true, Duration::from_millis(9))));
    assert_eq!(t.total_succeeded, 2);
    assert_eq!(t.total_errors, 2);
    assert_eq!(t.latencies, vec![Duration::from_millis(5), Duration::from_millis(9)]);
}

#[test]
fn drain_waits_stall_latency_plus_five_seconds() {
    let stall = Duration::from_millis(4000);
    assert!(!drain_timed_out(Duration::from_millis(9000), stall));
    assert!(drain_timed_out(Duration::from_millis(9001), stall));
}

#[test]
fn publisher_needs_a_topic() {
    assert_eq!(required_topic(None), Err(BuildError::MissingTopic));
    assert_eq!(
        required_topic(Some("projects/p/topics/t".to_string())),
        Ok("projects/p/topics/t".to_string())
    );
}
