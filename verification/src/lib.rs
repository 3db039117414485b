use vstd::prelude::*;

pub mod attempt;
pub mod batch;
pub mod bench;
pub mod client;
pub mod duration;
pub mod hedging;
pub mod message;
pub mod options;
pub mod strategy;
pub mod subscriber;
pub mod token_bucket;
pub mod traits;
pub mod worker;

verus! {
} // verus!
