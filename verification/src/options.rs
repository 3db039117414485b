//! Publisher batching options.
use crate::duration::{duration_as_nanos, from_millis};
use std::time::Duration;
use vstd::prelude::*;

verus! {

/// Default number of messages that triggers sending a batch.
pub const DEFAULT_MESSAGE_COUNT_THRESHOLD: u32 = 100;

/// Default number of bytes that triggers sending a batch (1 MB).
pub const DEFAULT_BYTE_THRESHOLD: u32 = 1_000_000;

/// Default delay, in milliseconds, before a non-full batch is sent.
pub const DEFAULT_DELAY_THRESHOLD_MILLIS: u64 = 10;

/// Configure publisher batching behavior.
#[derive(Clone, Copy, Debug)]
#[non_exhaustive]
pub struct BatchingOptions {
    pub message_count_threshold: u32,
    pub byte_threshold: u32,
    pub delay_threshold: Duration,
}

/// Whether the options hold the default values.
pub open spec fn is_default_batching(o: BatchingOptions) -> bool {
    &&& o.message_count_threshold == DEFAULT_MESSAGE_COUNT_THRESHOLD
    &&& o.byte_threshold == DEFAULT_BYTE_THRESHOLD
    &&& duration_as_nanos(o.delay_threshold) == DEFAULT_DELAY_THRESHOLD_MILLIS * 1_000_000
}

impl BatchingOptions {
    /// Create a new instance.
    pub fn new() -> (options: Self)
        ensures
            is_default_batching(options),
    {
        Self::default()
    }

    /// Set the [BatchingOptions][Self::message_count_threshold] field.
    pub fn set_message_count_threshold(self, v: u32) -> (options: Self)
        ensures
            options == (BatchingOptions { message_count_threshold: v, ..self }),
    {
        let mut s = self;
        s.message_count_threshold = v;
        s
    }

    /// Set the [BatchingOptions][Self::byte_threshold] field.
    pub fn set_byte_threshold(self, v: u32) -> (options: Self)
        ensures
            options == (BatchingOptions { byte_threshold: v, ..self }),
    {
        let mut s = self;
        s.byte_threshold = v;
        s
    }

    /// Set the [BatchingOptions][Self::delay_threshold] field.
    pub fn set_delay_threshold(self, v: Duration) -> (options: Self)
        ensures
            options == (BatchingOptions { delay_threshold: v, ..self }),
    {
        let mut s = self;
        s.delay_threshold = v;
        s
    }
}

impl std::default::Default for BatchingOptions {
    fn default() -> (options: Self)
        ensures
            is_default_batching(options),
    {
        Self {
            message_count_threshold: DEFAULT_MESSAGE_COUNT_THRESHOLD,
            byte_threshold: DEFAULT_BYTE_THRESHOLD,
            delay_threshold: from_millis(DEFAULT_DELAY_THRESHOLD_MILLIS),
        }
    }
}

} // verus!
