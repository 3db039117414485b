//! Configuration and run length of the publisher throughput benchmark.
use crate::duration::{as_nanos, duration_as_nanos};
use std::time::Duration;
use vstd::prelude::*;

verus! {

/// A throughput vs. CPU benchmark configuration.
#[derive(Debug)]
pub struct Config {
    pub project: String,
    pub topic_id: String,
    pub payload_size: i64,
    pub iteration_duration: Duration,
    pub publisher_thread_count: usize,
    pub publisher_max_batch_size: usize,
    pub publisher_max_batch_bytes: usize,
    pub minimum_samples: i64,
    pub maximum_samples: i64,
    pub minimum_runtime: Duration,
    pub maximum_runtime: Duration,
    pub endpoint: String,
    pub publisher_io_threads: usize,
    pub publisher_io_channels: usize,
    pub publisher_pending_lwm: usize,
    pub publisher_pending_hwm: usize,
    pub publisher_target_messages_per_second: i64,
    pub max_outstanding_messages: usize,
}

/// Whether the run is over after `elapsed`: it is once the maximum runtime has
/// passed, and already once the minimum runtime has passed.
pub fn done(config: &Config, elapsed: Duration) -> (over: bool)
    ensures
        over == (duration_as_nanos(elapsed) >= duration_as_nanos(config.maximum_runtime)
            || duration_as_nanos(elapsed) >= duration_as_nanos(config.minimum_runtime)),
{
    let now = as_nanos(&elapsed);
    if now >= as_nanos(&config.maximum_runtime) {
        return true;
    }
    now >= as_nanos(&config.minimum_runtime)
}

} // verus!
