//! Subscriber configuration.
use vstd::prelude::*;

verus! {

/// The number of gRPC subchannels a subscriber opens: the configured count,
/// 1 when none is configured, and never less than 1.
pub fn effective_grpc_subchannel_count(configured: Option<usize>) -> (count: usize)
    ensures
        count == match configured {
            Some(c) => if c >= 1 { c } else { 1 },
            None => 1,
        },
        count >= 1,
{
    let c = match configured {
        Some(c) => c,
        None => 1,
    };
    if 1 >= c { 1 } else { c }
}

} // verus!
