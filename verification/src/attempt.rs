//! What each publish attempt of a batch carries: its retry policy and the
//! headers that tell the service an attempt is a hedge.
use crate::duration::{duration_as_nanos, from_millis};
use crate::message::Timestamp;
use std::time::Duration;
use vstd::prelude::*;

verus! {

/// Time limit, in milliseconds, of a hedged attempt.
pub const HEDGE_TIME_LIMIT_MILLIS: u64 = 10_000;

/// How the client retries an attempt.
#[derive(Clone, Copy, Debug, PartialEq)]
pub enum RetryPolicy {
    /// The client's configured retry policy.
    Default,
    /// No retry, and the attempt gives up after `time_limit`.
    NeverRetry { time_limit: Duration },
}

/// Which attempt of a batch is sent.
#[derive(Clone, Copy, Debug, PartialEq, Eq, Structural)]
pub enum AttemptKind {
    /// The first attempt.
    Initial,
    /// A hedge of a batch sent with its own hedging.
    Hedged,
    /// A hedge sent by the hedging scheduler, with its attempt count and the
    /// time its batch was first published.
    ScheduledHedge { attempt_count: i32, start_time: Option<Timestamp> },
}

/// What the client telemetry header of a scheduled hedge reports.
#[derive(Clone, Copy, Debug, PartialEq, Eq, Structural)]
pub struct HedgeTelemetry {
    /// The hedged attempt count.
    pub hedged_attempt_count: i32,
    /// When the batch was first published, if the clock could tell.
    pub publish_start_time: Option<Timestamp>,
}

/// The request options of one attempt.
#[derive(Clone, Copy, Debug)]
pub struct AttemptOptions {
    /// Retry policy of the attempt.
    pub retry: RetryPolicy,
    /// A header, name and value, that marks the attempt.
    pub marker_header: Option<(&'static str, &'static str)>,
    /// What the client telemetry header reports, for a scheduled hedge.
    pub telemetry: Option<HedgeTelemetry>,
}

/// No retry, limited to 10 seconds.
pub open spec fn is_hedge_retry(r: RetryPolicy) -> bool {
    r matches RetryPolicy::NeverRetry { time_limit } && duration_as_nanos(time_limit)
        == HEDGE_TIME_LIMIT_MILLIS * 1_000_000
}

/// The options that an attempt of each kind carries: the initial attempt
/// uses the default retry policy and no marker; a hedge is never retried and
/// gives up after 10 seconds; a batch's own hedge carries the header
/// `x-goog-pubsub-hedged: true`; a scheduled hedge reports its attempt count
/// and its batch's publish start time in the client telemetry header.
pub open spec fn options_for(kind: AttemptKind, o: AttemptOptions) -> bool {
    match kind {
        AttemptKind::Initial => {
            &&& o.retry == RetryPolicy::Default
            &&& o.marker_header.is_none()
            &&& o.telemetry.is_none()
        },
        AttemptKind::Hedged => {
            &&& is_hedge_retry(o.retry)
            &&& o.marker_header matches Some(h) && h.0@ == "x-goog-pubsub-hedged"@ && h.1@ == "true"@
            &&& o.telemetry.is_none()
        },
        AttemptKind::ScheduledHedge { attempt_count, start_time } => {
            &&& is_hedge_retry(o.retry)
            &&& o.marker_header.is_none()
            &&& o.telemetry == Some(
                HedgeTelemetry { hedged_attempt_count: attempt_count, publish_start_time: start_time },
            )
        },
    }
}

/// The request options of an attempt of the given kind.
pub fn attempt_options(kind: AttemptKind) -> (o: AttemptOptions)
    ensures
        options_for(kind, o),
{
    match kind {
        AttemptKind::Initial => AttemptOptions {
            retry: RetryPolicy::Default,
            marker_header: None,
            telemetry: None,
        },
        AttemptKind::Hedged => AttemptOptions {
            retry: RetryPolicy::NeverRetry { time_limit: from_millis(HEDGE_TIME_LIMIT_MILLIS) },
            marker_header: Some(("x-goog-pubsub-hedged", "true")),
            telemetry: None,
        },
        AttemptKind::ScheduledHedge { attempt_count, start_time } => AttemptOptions {
            retry: RetryPolicy::NeverRetry { time_limit: from_millis(HEDGE_TIME_LIMIT_MILLIS) },
            marker_header: None,
            telemetry: Some(
                HedgeTelemetry { hedged_attempt_count: attempt_count, publish_start_time: start_time },
            ),
        },
    }
}

} // verus!
