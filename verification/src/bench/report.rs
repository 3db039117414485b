//! Throughput accounting of the publisher benchmark.
use crate::duration::{as_nanos, duration_as_nanos};
use std::time::Duration;
use vstd::prelude::*;

verus! {

/// Messages published and acknowledged during one reporting interval.
#[derive(Clone, Copy, Debug, PartialEq, Eq, Structural)]
pub struct IntervalReport {
    /// Length of the interval, in nanoseconds.
    pub elapsed_nanos: u128,
    pub published: usize,
    pub acknowledged: usize,
}

/// Running totals and the counts of the current reporting interval.
#[derive(Debug)]
pub struct ThroughputTally {
    pub total_published: usize,
    pub total_acknowledged: usize,
    pub interval_published: usize,
    pub interval_acknowledged: usize,
    /// When the last report was made, in nanoseconds since the start.
    pub last_report_nanos: u128,
}

impl ThroughputTally {
    /// A tally with no message counted, whose first interval starts at time 0.
    pub fn new() -> (t: Self)
        ensures
            t.total_published == 0,
            t.total_acknowledged == 0,
            t.interval_published == 0,
            t.interval_acknowledged == 0,
            t.last_report_nanos == 0,
    {
        ThroughputTally {
            total_published: 0,
            total_acknowledged: 0,
            interval_published: 0,
            interval_acknowledged: 0,
            last_report_nanos: 0,
        }
    }

    /// Counts `n` published messages.
    pub fn record_published(&mut self, n: usize)
        requires
            old(self).total_published + n <= usize::MAX,
            old(self).interval_published + n <= usize::MAX,
        ensures
            *final(self) == (ThroughputTally {
                total_published: (old(self).total_published + n) as usize,
                interval_published: (old(self).interval_published + n) as usize,
                ..*old(self)
            }),
    {
        self.interval_published = self.interval_published + n;
        self.total_published = self.total_published + n;
    }

    /// Counts `n` acknowledged messages.
    pub fn record_acknowledged(&mut self, n: usize)
        requires
            old(self).total_acknowledged + n <= usize::MAX,
            old(self).interval_acknowledged + n <= usize::MAX,
        ensures
            *final(self) == (ThroughputTally {
                total_acknowledged: (old(self).total_acknowledged + n) as usize,
                interval_acknowledged: (old(self).interval_acknowledged + n) as usize,
                ..*old(self)
            }),
    {
        self.interval_acknowledged = self.interval_acknowledged + n;
        self.total_acknowledged = self.total_acknowledged + n;
    }

    /// At time `now`, reports the current interval if it lasted at least
    /// `iteration_nanos`, and starts a new one.
    pub fn report_due(&mut self, now: u128, iteration_nanos: u128) -> (report: Option<IntervalReport>)
        requires
            old(self).last_report_nanos <= now,
        ensures
            if now - old(self).last_report_nanos >= iteration_nanos {
                &&& report == Some(
                    IntervalReport {
                        elapsed_nanos: (now - old(self).last_report_nanos) as u128,
                        published: old(self).interval_published,
                        acknowledged: old(self).interval_acknowledged,
                    },
                )
                &&& *final(self) == (ThroughputTally {
                    interval_published: 0,
                    interval_acknowledged: 0,
                    last_report_nanos: now,
                    ..*old(self)
                })
            } else {
                &&& report.is_none()
                &&& *final(self) == *old(self)
            },
    {
        let elapsed = now - self.last_report_nanos;
        if elapsed >= iteration_nanos {
            let report = IntervalReport {
                elapsed_nanos: elapsed,
                published: self.interval_published,
                acknowledged: self.interval_acknowledged,
            };
            self.interval_published = 0;
            self.interval_acknowledged = 0;
            self.last_report_nanos = now;
            Some(report)
        } else {
            None
        }
    }
}

/// Number of publish handles a publisher worker collects before awaiting them.
pub const ACK_BATCH_SIZE: usize = 1000;

/// Whether a publisher worker awaits its pending handles now.
pub fn should_await_handles(pending: usize) -> (now: bool)
    ensures
        now == (pending >= ACK_BATCH_SIZE),
{
    pending >= ACK_BATCH_SIZE
}

/// Extra time, in nanoseconds, that the hedging benchmark waits for
/// requests in flight beyond the stall latency.
pub const DRAIN_GRACE_NANOS: u128 = 5_000_000_000;

/// Outcomes of the publish tasks of the hedging benchmark.
#[derive(Debug)]
pub struct LatencyTally {
    pub total_succeeded: u64,
    pub total_errors: u64,
    /// Latencies of the successful publishes, in the order they finished.
    pub latencies: Vec<Duration>,
}

impl LatencyTally {
    /// A tally with no outcome.
    pub fn new() -> (t: Self)
        ensures
            t.total_succeeded == 0,
            t.total_errors == 0,
            t.latencies@.len() == 0,
    {
        LatencyTally { total_succeeded: 0, total_errors: 0, latencies: Vec::new() }
    }

    /// Counts the outcome of one publish task: `Some((ok, latency))` when the
    /// task finished, `None` when it failed to run. A successful publish counts
    /// as succeeded and keeps its latency; anything else counts as an error.
    pub fn record(&mut self, outcome: Option<(bool, Duration)>)
        requires
            old(self).total_succeeded < u64::MAX,
            old(self).total_errors < u64::MAX,
        ensures
            match outcome {
                Some((true, latency)) => {
                    &&& final(self).total_succeeded == old(self).total_succeeded + 1
                    &&& final(self).total_errors == old(self).total_errors
                    &&& final(self).latencies@ == old(self).latencies@.push(latency)
                },
                _ => {
                    &&& final(self).total_succeeded == old(self).total_succeeded
                    &&& final(self).total_errors == old(self).total_errors + 1
                    &&& final(self).latencies@ == old(self).latencies@
                },
            },
    {
        match outcome {
            Some((true, latency)) => {
                self.total_succeeded = self.total_succeeded + 1;
                self.latencies.push(latency);
            },
            _ => {
                self.total_errors = self.total_errors + 1;
            },
        }
    }
}

/// Whether the hedging benchmark stops waiting for requests in flight: once
/// more than the stall latency plus 5 seconds has passed since it started
/// waiting.
pub fn drain_timed_out(waited: Duration, stall_latency: Duration) -> (over: bool)
    ensures
        over == (duration_as_nanos(waited) > duration_as_nanos(stall_latency) + DRAIN_GRACE_NANOS),
{
    match as_nanos(&stall_latency).checked_add(DRAIN_GRACE_NANOS) {
        Some(limit) => as_nanos(&waited) > limit,
        None => false,
    }
}

/// Number of `Ok` results in a sequence.
pub open spec fn ok_count<T, E>(results: Seq<Result<T, E>>) -> nat
    decreases results.len(),
{
    if results.len() == 0 {
        0
    } else {
        ok_count(results.drop_last()) + if results.last() is Ok { 1nat } else { 0nat }
    }
}

/// Number of successful results, as a publisher worker counts acknowledgements.
pub fn count_acknowledged<T, E>(results: &Vec<Result<T, E>>) -> (n: usize)
    ensures
        n == ok_count(results@),
{
    let mut n: usize = 0;
    let mut i: usize = 0;
    while i < results.len()
        invariant
            i <= results.len(),
            n == ok_count(results@.take(i as int)),
            n <= i,
        decreases results.len() - i,
    {
        assert(results@.take(i as int + 1).drop_last() == results@.take(i as int));
        if results[i].is_ok() {
            n = n + 1;
        }
        i = i + 1;
    }
    assert(results@.take(results.len() as int) == results@);
    n
}

} // verus!
