//! The typed publisher API: a publisher is generic over its publishing and
//! flow control strategies.
use crate::strategy::{FlowControlStrategy, PublishingStrategy};
use std::marker::PhantomData;
use vstd::prelude::*;

verus! {

/// A publisher for a specific topic.
///
/// This struct is generic over a `PublishingStrategy` (Ordered vs. Unordered)
/// and a `FlowControlStrategy` (Ignored vs. Enabled).
#[derive(Debug)]
pub struct Publisher<S: PublishingStrategy, F: FlowControlStrategy> {
    _strategy: PhantomData<(S, F)>,
}

/// A permit that grants the right to publish a single message.
pub struct PublishPermit<S: PublishingStrategy> {
    _strategy: PhantomData<S>,
}

/// A message with an ordering key.
pub struct OrderedMessage;

impl OrderedMessage {
    /// Creates an ordered message; the payload and key are not retained.
    pub fn new(msg: String, key: String) -> (m: Self) {
        OrderedMessage
    }
}

/// Flow control settings of a publisher.
pub struct FlowControlSettings;

/// Why a publisher could not be built.
#[derive(Clone, Copy, Debug, PartialEq, Eq, Structural)]
pub enum BuildError {
    /// No topic was set; the topic is required.
    MissingTopic,
}

/// The topic a publisher is built for: building fails when none was set.
pub fn required_topic(topic_name: Option<String>) -> (topic: Result<String, BuildError>)
    ensures
        match topic_name {
            Some(t) => topic matches Ok(u) && u == t,
            None => topic == Err::<String, BuildError>(BuildError::MissingTopic),
        },
{
    match topic_name {
        Some(t) => Ok(t),
        None => Err(BuildError::MissingTopic),
    }
}

} // verus!
