//! Traits for generic programming with the publisher.
use vstd::prelude::*;

verus! {

/// A trait for types that can be published to Pub/Sub.
pub trait Publishable {
    fn ordering_key(&self) -> Option<&str>;
}

/// A marker trait indicating that a publisher can publish a message of type `M`.
pub trait CanPublish<M: Publishable> {}

} // verus!
