//! The error kinds and policies of the publish/subscribe data plane. Every
//! error has a stable string form for logs and foreign bindings.

use vstd::prelude::*;

verus! {

/// Why a loan of a payload slot failed.
#[derive(Clone, Copy, Debug, PartialEq, Eq, Structural)]
pub enum LoanError {
    /// The data segment has no free slot left and cannot grow further.
    OutOfMemory,
    /// The publisher already has `max_loaned_samples` loans outstanding.
    ExceedsMaxLoans,
    /// The requested number of elements is larger than the publisher allows,
    /// or differs from one for a fixed-size payload type.
    ExceedsMaxLoanSize,
    /// The sample storage was in a state that permits no loan.
    InternalFailure,
}

impl LoanError {
    /// Returns the stable string form of this error.
    pub fn as_str(&self) -> (r: &'static str)
        ensures
            *self == LoanError::OutOfMemory ==> r@ == "LoanError::OutOfMemory"@,
            *self == LoanError::ExceedsMaxLoans ==> r@ == "LoanError::ExceedsMaxLoans"@,
            *self == LoanError::ExceedsMaxLoanSize ==> r@ == "LoanError::ExceedsMaxLoanSize"@,
            *self == LoanError::InternalFailure ==> r@ == "LoanError::InternalFailure"@,
    {
        match self {
            LoanError::OutOfMemory => "LoanError::OutOfMemory",
            LoanError::ExceedsMaxLoans => "LoanError::ExceedsMaxLoans",
            LoanError::ExceedsMaxLoanSize => "LoanError::ExceedsMaxLoanSize",
            LoanError::InternalFailure => "LoanError::InternalFailure",
        }
    }
}

/// Why creating a publisher port failed.
#[derive(Clone, Copy, Debug, PartialEq, Eq, Structural)]
pub enum PublisherCreateError {
    /// The service already has its maximum number of publishers.
    ExceedsMaxSupportedPublishers,
    /// The data segment of the new publisher could not be created.
    UnableToCreateDataSegment,
}

impl PublisherCreateError {
    /// Returns the stable string form of this error.
    pub fn as_str(&self) -> (r: &'static str)
        ensures
            *self == PublisherCreateError::ExceedsMaxSupportedPublishers
                ==> r@ == "PublisherCreateError::ExceedsMaxSupportedPublishers"@,
            *self == PublisherCreateError::UnableToCreateDataSegment
                ==> r@ == "PublisherCreateError::UnableToCreateDataSegment"@,
    {
        match self {
            PublisherCreateError::ExceedsMaxSupportedPublishers => {
                "PublisherCreateError::ExceedsMaxSupportedPublishers"
            },
            PublisherCreateError::UnableToCreateDataSegment => {
                "PublisherCreateError::UnableToCreateDataSegment"
            },
        }
    }
}

/// Why creating a subscriber port failed.
#[derive(Clone, Copy, Debug, PartialEq, Eq, Structural)]
pub enum SubscriberCreateError {
    /// The service already has its maximum number of subscribers.
    ExceedsMaxSupportedSubscribers,
    /// The requested buffer size is larger than the service supports.
    BufferSizeExceedsMaxSupportedBufferSizeOfService,
}

impl SubscriberCreateError {
    /// Returns the stable string form of this error.
    pub fn as_str(&self) -> (r: &'static str)
        ensures
            *self == SubscriberCreateError::ExceedsMaxSupportedSubscribers
                ==> r@ == "SubscriberCreateError::ExceedsMaxSupportedSubscribers"@,
            *self == SubscriberCreateError::BufferSizeExceedsMaxSupportedBufferSizeOfService
                ==> r@ == "SubscriberCreateError::BufferSizeExceedsMaxSupportedBufferSizeOfService"@,
    {
        match self {
            SubscriberCreateError::ExceedsMaxSupportedSubscribers => {
                "SubscriberCreateError::ExceedsMaxSupportedSubscribers"
            },
            SubscriberCreateError::BufferSizeExceedsMaxSupportedBufferSizeOfService => {
                "SubscriberCreateError::BufferSizeExceedsMaxSupportedBufferSizeOfService"
            },
        }
    }
}

/// Why sending a sample failed.
#[derive(Clone, Copy, Debug, PartialEq, Eq, Structural)]
pub enum SendError {
    /// A connection to a subscriber is in a broken state.
    ConnectionCorrupted,
    /// No payload slot could be loaned for the copy to send.
    OutOfMemory,
}

impl SendError {
    /// Returns the stable string form of this error.
    pub fn as_str(&self) -> (r: &'static str)
        ensures
            *self == SendError::ConnectionCorrupted ==> r@ == "SendError::ConnectionCorrupted"@,
            *self == SendError::OutOfMemory ==> r@ == "SendError::OutOfMemory"@,
    {
        match self {
            SendError::ConnectionCorrupted => "SendError::ConnectionCorrupted",
            SendError::OutOfMemory => "SendError::OutOfMemory",
        }
    }
}

/// Why receiving a sample failed.
#[derive(Clone, Copy, Debug, PartialEq, Eq, Structural)]
pub enum ReceiveError {
    /// A connection to a publisher is in a broken state.
    ConnectionCorrupted,
}

impl ReceiveError {
    /// Returns the stable string form of this error.
    pub fn as_str(&self) -> (r: &'static str)
        ensures
            *self == ReceiveError::ConnectionCorrupted
                ==> r@ == "ReceiveError::ConnectionCorrupted"@,
    {
        match self {
            ReceiveError::ConnectionCorrupted => "ReceiveError::ConnectionCorrupted",
        }
    }
}

/// What a publisher does with a sample when a subscriber queue is full and
/// safe overflow is disabled.
#[derive(Clone, Copy, Debug, PartialEq, Eq, Structural)]
pub enum UnableToDeliverStrategy {
    /// Wait until the queue has room or the subscriber disappears.
    Block,
    /// Skip the subscriber; it loses the sample.
    DiscardSample,
}

/// What to do when a connection appears corrupted or its node appears dead.
#[derive(Clone, Copy, Debug, PartialEq, Eq, Structural)]
pub enum DegradationAction {
    /// Silently continue.
    Ignore,
    /// Emit a warning and continue.
    WarnAndProceed,
    /// Abort the operation that observed the degradation.
    Abort,
}

} // verus!
