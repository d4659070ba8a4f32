//! Identifiers of the participants of a service: nodes (processes) and the
//! publisher and subscriber ports they own. Each identifier wraps a single
//! numeric value that is unique on the machine.

use vstd::prelude::*;

verus! {

/// The identifier of a node, the process that owns ports.
#[derive(Clone, Copy, Debug, PartialEq, Eq, Hash, Structural)]
pub struct NodeId {
    value: u128,
}

impl NodeId {
    /// Creates a node identifier from its numeric value.
    pub fn new(value: u128) -> (r: NodeId)
        ensures
            r.value() == value,
    {
        NodeId { value }
    }

    /// The numeric value of this identifier.
    pub closed spec fn value(&self) -> u128 {
        self.value
    }

    /// Returns the numeric value of this identifier.
    #[verifier::when_used_as_spec(value)]
    pub fn as_value(&self) -> (v: u128)
        ensures
            v == self.value(),
    {
        self.value
    }
}

/// The unique identifier of a publisher port.
#[derive(Clone, Copy, Debug, PartialEq, Eq, Hash, Structural)]
pub struct UniquePublisherId {
    value: u128,
}

impl UniquePublisherId {
    /// Creates a publisher identifier from its numeric value.
    pub fn new(value: u128) -> (r: UniquePublisherId)
        ensures
            r.value() == value,
    {
        UniquePublisherId { value }
    }

    /// The numeric value of this identifier.
    pub closed spec fn value(&self) -> u128 {
        self.value
    }

    /// Returns the numeric value of this identifier.
    #[verifier::when_used_as_spec(value)]
    pub fn as_value(&self) -> (v: u128)
        ensures
            v == self.value(),
    {
        self.value
    }
}

/// The unique identifier of a subscriber port.
#[derive(Clone, Copy, Debug, PartialEq, Eq, Hash, Structural)]
pub struct UniqueSubscriberId {
    value: u128,
}

impl UniqueSubscriberId {
    /// Creates a subscriber identifier from its numeric value.
    pub fn new(value: u128) -> (r: UniqueSubscriberId)
        ensures
            r.value() == value,
    {
        UniqueSubscriberId { value }
    }

    /// The numeric value of this identifier.
    pub closed spec fn value(&self) -> u128 {
        self.value
    }

    /// Returns the numeric value of this identifier.
    #[verifier::when_used_as_spec(value)]
    pub fn as_value(&self) -> (v: u128)
        ensures
            v == self.value(),
    {
        self.value
    }
}

/// The identifier of a port of either kind.
#[derive(Clone, Copy, Debug, PartialEq, Eq, Hash, Structural)]
pub enum UniquePortId {
    /// The port is a publisher.
    Publisher(UniquePublisherId),
    /// The port is a subscriber.
    Subscriber(UniqueSubscriberId),
}

} // verus!
