//! The static configuration of a service: capacities, delivery policy and the
//! payload type layout. It is fixed when the service is created and shared by
//! every endpoint that opens the service.

use vstd::prelude::*;

verus! {

/// Whether a payload type has a fixed size or is a slice of elements.
#[derive(Clone, Copy, Debug, PartialEq, Eq, Structural)]
pub enum TypeVariant {
    /// The payload is one value of a fixed size; a loan covers exactly one
    /// element.
    FixedSize,
    /// The payload is a slice; a loan covers a number of elements chosen per
    /// loan.
    Dynamic,
}

/// The layout of the payload type of a service.
#[derive(Clone, Copy, Debug, PartialEq, Eq, Structural)]
pub struct TypeDetail {
    /// The size of one element in bytes.
    pub size: usize,
    /// The alignment of one element in bytes.
    pub alignment: usize,
    /// Whether the payload is fixed-size or a slice.
    pub variant: TypeVariant,
}

/// The static configuration of a publish/subscribe service.
#[derive(Clone, Copy, Debug)]
pub struct StaticConfig {
    /// How many publishers the service supports at most.
    pub max_publishers: usize,
    /// How many subscribers the service supports at most.
    pub max_subscribers: usize,
    /// The largest receive buffer a subscriber of this service may have; also
    /// the default buffer size of a new subscriber.
    pub subscriber_max_buffer_size: usize,
    /// Whether a full subscriber queue evicts its oldest entry to accept a
    /// new one.
    pub enable_safe_overflow: bool,
    /// The layout of the payload type.
    pub type_detail: TypeDetail,
}

} // verus!
