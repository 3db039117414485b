//! The seal that keeps the strategy traits closed to other crates.
use vstd::prelude::*;

verus! {

/// Implemented only by the marker types of this library.
pub trait Sealed {}

} // verus!
