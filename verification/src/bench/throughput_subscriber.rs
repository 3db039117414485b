//! Configuration and run length of the subscriber throughput benchmark.
use crate::duration::{as_nanos, duration_as_nanos};
use std::time::Duration;
use vstd::prelude::*;

verus! {

/// Configuration of the subscriber throughput benchmark.
#[derive(Debug)]
pub struct Config {
    pub project: String,
    pub subscription_id: String,
    pub iteration_duration: Duration,
    pub maximum_runtime: Duration,
    pub max_outstanding_messages: i64,
    pub subscriber_io_channels: usize,
    pub subscriber_thread_count: usize,
}

/// Whether the run is over after `elapsed`: once the maximum runtime has passed.
pub fn done(config: &Config, elapsed: Duration) -> (over: bool)
    ensures
        over == (duration_as_nanos(elapsed) >= duration_as_nanos(config.maximum_runtime)),
{
    as_nanos(&elapsed) >= as_nanos(&config.maximum_runtime)
}

} // verus!
