//! The parts of `std::time::Duration` that the library's contracts speak of.
use std::time::Duration;
use vstd::prelude::*;

verus! {

/// The total number of nanoseconds that `std::time::Duration::as_nanos` reports.
pub uninterp spec fn duration_as_nanos(d: Duration) -> u128;

/// Calls `std::time::Duration::as_nanos`, which returns the total number of
/// nanoseconds in the duration.
#[verifier::external_body]
pub(crate) fn as_nanos(d: &Duration) -> (nanos: u128)
    ensures
        nanos == duration_as_nanos(*d),
{
    d.as_nanos()
}

/// Calls `std::time::Duration::from_millis`; the documentation says that the
/// result spans `millis` milliseconds, that is `millis * 1_000_000` nanoseconds.
#[verifier::external_body]
pub(crate) fn from_millis(millis: u64) -> (d: Duration)
    ensures
        duration_as_nanos(d) == millis as int * 1_000_000,
{
    Duration::from_millis(millis)
}

} // verus!
