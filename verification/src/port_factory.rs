//! The factories that create publisher and subscriber ports on a service, and
//! the port tokens they hand out. A factory collects the settings of the port
//! to create; `create` (defined with the service operations) claims a registry
//! slot and returns the port token.

use vstd::prelude::*;

use crate::errors::{DegradationAction, UnableToDeliverStrategy};
use crate::ids::{UniquePublisherId, UniqueSubscriberId};
use crate::permission::Permission;
use crate::segment::DataSegmentType;

verus! {

/// A publisher port of a service. The token identifies the port in every
/// publisher operation of the service that created it.
#[derive(Debug)]
pub struct Publisher {
    pub handle: usize,
    pub publisher_id: UniquePublisherId,
    pub max_loaned_samples: usize,
    pub unable_to_deliver_strategy: UnableToDeliverStrategy,
}

impl Publisher {
    /// The registry handle of the port.
    pub open spec fn handle_spec(&self) -> int {
        self.handle as int
    }

    /// The unique identifier of the port.
    pub open spec fn id_spec(&self) -> UniquePublisherId {
        self.publisher_id
    }

    /// The delivery policy of the port.
    pub open spec fn strategy_spec(&self) -> UnableToDeliverStrategy {
        self.unable_to_deliver_strategy
    }

    /// How many loans the port may have outstanding at once.
    pub open spec fn max_loaned_spec(&self) -> int {
        self.max_loaned_samples as int
    }

    /// Returns the unique identifier of the port.
    pub fn id(&self) -> (r: UniquePublisherId)
        ensures
            r == self.id_spec(),
    {
        self.publisher_id
    }

    /// Returns the delivery policy of the port.
    pub fn unable_to_deliver_strategy(&self) -> (r: UnableToDeliverStrategy)
        ensures
            r == self.strategy_spec(),
    {
        self.unable_to_deliver_strategy
    }

    /// Returns how many loans the port may have outstanding at once.
    pub fn max_loaned_samples(&self) -> (r: usize)
        ensures
            r as int == self.max_loaned_spec(),
    {
        self.max_loaned_samples
    }
}

/// A subscriber port of a service. The token identifies the port in every
/// subscriber operation of the service that created it.
#[derive(Debug)]
pub struct Subscriber {
    pub handle: usize,
    pub subscriber_id: UniqueSubscriberId,
    pub buffer_size: usize,
}

impl Subscriber {
    /// The registry handle of the port.
    pub open spec fn handle_spec(&self) -> int {
        self.handle as int
    }

    /// The unique identifier of the port.
    pub open spec fn id_spec(&self) -> UniqueSubscriberId {
        self.subscriber_id
    }

    /// The receive buffer size of the port.
    pub open spec fn buffer_size_spec(&self) -> int {
        self.buffer_size as int
    }

    /// Returns the unique identifier of the port.
    pub fn id(&self) -> (r: UniqueSubscriberId)
        ensures
            r == self.id_spec(),
    {
        self.subscriber_id
    }

    /// Returns the receive buffer size of the port.
    pub fn buffer_size(&self) -> (r: usize)
        ensures
            r as int == self.buffer_size_spec(),
    {
        self.buffer_size
    }
}

/// Factory to create a new publisher port on a service.
#[derive(Debug)]
pub struct PortFactoryPublisher {
    pub max_loaned_samples: usize,
    pub unable_to_deliver_strategy: UnableToDeliverStrategy,
    pub initial_max_slice_len: usize,
    pub data_segment_type: DataSegmentType,
    pub max_number_of_segments: u8,
    pub owner_uid: u32,
    pub group_gid: u32,
    pub mode: u16,
}

impl PortFactoryPublisher {
    /// How many loans the publisher may have outstanding at once.
    pub open spec fn max_loaned_samples_spec(&self) -> int {
        self.max_loaned_samples as int
    }

    /// The delivery policy of the publisher.
    pub open spec fn strategy_spec(&self) -> UnableToDeliverStrategy {
        self.unable_to_deliver_strategy
    }

    /// The largest slice the publisher can loan.
    pub open spec fn max_slice_len_spec(&self) -> int {
        self.initial_max_slice_len as int
    }

    /// How the publisher's data segment is laid out.
    pub open spec fn data_segment_type_spec(&self) -> DataSegmentType {
        self.data_segment_type
    }

    /// How many segments a dynamic data segment may grow to.
    pub open spec fn max_number_of_segments_spec(&self) -> u8 {
        self.max_number_of_segments
    }

    /// The owner user ID of the publisher.
    pub open spec fn owner_uid_spec(&self) -> u32 {
        self.owner_uid
    }

    /// The group ID of the publisher.
    pub open spec fn group_gid_spec(&self) -> u32 {
        self.group_gid
    }

    /// The POSIX permission mode bits of the publisher.
    pub open spec fn mode_spec(&self) -> u16 {
        self.mode
    }

    /// Creates a factory with the default publisher settings.
    pub fn new() -> (r: PortFactoryPublisher)
        ensures
            r.max_loaned_samples_spec() == 2,
            r.strategy_spec() == UnableToDeliverStrategy::Block,
            r.max_slice_len_spec() == 1,
            r.data_segment_type_spec() == DataSegmentType::Static,
            r.max_number_of_segments_spec() == 1u8,
            r.owner_uid_spec() == 0u32,
            r.group_gid_spec() == 0u32,
            r.mode_spec() == 0o640u16,
    {
        PortFactoryPublisher {
            max_loaned_samples: 2,
            unable_to_deliver_strategy: UnableToDeliverStrategy::Block,
            initial_max_slice_len: 1,
            data_segment_type: DataSegmentType::Static,
            max_number_of_segments: 1,
            owner_uid: 0,
            group_gid: 0,
            mode: 0o640,
        }
    }

    /// Defines how many loans the publisher may have outstanding at once.
    pub fn max_loaned_samples(self, value: usize) -> (r: Self)
        ensures
            r.max_loaned_samples_spec() == value as int,
            r.strategy_spec() == self.strategy_spec(),
            r.max_slice_len_spec() == self.max_slice_len_spec(),
            r.data_segment_type_spec() == self.data_segment_type_spec(),
            r.max_number_of_segments_spec() == self.max_number_of_segments_spec(),
            r.owner_uid_spec() == self.owner_uid_spec(),
            r.group_gid_spec() == self.group_gid_spec(),
            r.mode_spec() == self.mode_spec(),
    {
        PortFactoryPublisher { max_loaned_samples: value, ..self }
    }

    /// Defines what the publisher does when a subscriber queue is full and
    /// safe overflow is disabled.
    pub fn unable_to_deliver_strategy(self, value: UnableToDeliverStrategy) -> (r: Self)
        ensures
            r.strategy_spec() == value,
            r.max_loaned_samples_spec() == self.max_loaned_samples_spec(),
            r.max_slice_len_spec() == self.max_slice_len_spec(),
            r.data_segment_type_spec() == self.data_segment_type_spec(),
            r.max_number_of_segments_spec() == self.max_number_of_segments_spec(),
            r.owner_uid_spec() == self.owner_uid_spec(),
            r.group_gid_spec() == self.group_gid_spec(),
            r.mode_spec() == self.mode_spec(),
    {
        PortFactoryPublisher { unable_to_deliver_strategy: value, ..self }
    }

    /// Defines the largest slice the publisher can loan.
    pub fn initial_max_slice_len(self, value: usize) -> (r: Self)
        ensures
            r.max_slice_len_spec() == value as int,
            r.max_loaned_samples_spec() == self.max_loaned_samples_spec(),
            r.strategy_spec() == self.strategy_spec(),
            r.data_segment_type_spec() == self.data_segment_type_spec(),
            r.max_number_of_segments_spec() == self.max_number_of_segments_spec(),
            r.owner_uid_spec() == self.owner_uid_spec(),
            r.group_gid_spec() == self.group_gid_spec(),
            r.mode_spec() == self.mode_spec(),
    {
        PortFactoryPublisher { initial_max_slice_len: value, ..self }
    }

    /// Defines how the publisher's data segment is laid out.
    pub fn data_segment_type(self, value: DataSegmentType) -> (r: Self)
        ensures
            r.data_segment_type_spec() == value,
            r.max_loaned_samples_spec() == self.max_loaned_samples_spec(),
            r.strategy_spec() == self.strategy_spec(),
            r.max_slice_len_spec() == self.max_slice_len_spec(),
            r.max_number_of_segments_spec() == self.max_number_of_segments_spec(),
            r.owner_uid_spec() == self.owner_uid_spec(),
            r.group_gid_spec() == self.group_gid_spec(),
            r.mode_spec() == self.mode_spec(),
    {
        PortFactoryPublisher { data_segment_type: value, ..self }
    }

    /// Defines how many segments a dynamic data segment may grow to.
    pub fn max_number_of_segments(self, value: u8) -> (r: Self)
        ensures
            r.max_number_of_segments_spec() == value,
            r.max_loaned_samples_spec() == self.max_loaned_samples_spec(),
            r.strategy_spec() == self.strategy_spec(),
            r.max_slice_len_spec() == self.max_slice_len_spec(),
            r.data_segment_type_spec() == self.data_segment_type_spec(),
            r.owner_uid_spec() == self.owner_uid_spec(),
            r.group_gid_spec() == self.group_gid_spec(),
            r.mode_spec() == self.mode_spec(),
    {
        PortFactoryPublisher { max_number_of_segments: value, ..self }
    }

    /// Sets the owner user ID of the publisher.
    pub fn owner_uid(self, uid: u32) -> (r: Self)
        ensures
            r.owner_uid_spec() == uid,
            r.max_loaned_samples_spec() == self.max_loaned_samples_spec(),
            r.strategy_spec() == self.strategy_spec(),
            r.max_slice_len_spec() == self.max_slice_len_spec(),
            r.data_segment_type_spec() == self.data_segment_type_spec(),
            r.max_number_of_segments_spec() == self.max_number_of_segments_spec(),
            r.group_gid_spec() == self.group_gid_spec(),
            r.mode_spec() == self.mode_spec(),
    {
        PortFactoryPublisher { owner_uid: uid, ..self }
    }

    /// Sets the group ID of the publisher.
    pub fn group_gid(self, gid: u32) -> (r: Self)
        ensures
            r.group_gid_spec() == gid,
            r.max_loaned_samples_spec() == self.max_loaned_samples_spec(),
            r.strategy_spec() == self.strategy_spec(),
            r.max_slice_len_spec() == self.max_slice_len_spec(),
            r.data_segment_type_spec() == self.data_segment_type_spec(),
            r.max_number_of_segments_spec() == self.max_number_of_segments_spec(),
            r.owner_uid_spec() == self.owner_uid_spec(),
            r.mode_spec() == self.mode_spec(),
    {
        PortFactoryPublisher { group_gid: gid, ..self }
    }

    /// Sets the POSIX permission mode of the publisher.
    pub fn mode(self, mode: u16) -> (r: Self)
        ensures
            r.mode_spec() == mode,
            r.max_loaned_samples_spec() == self.max_loaned_samples_spec(),
            r.strategy_spec() == self.strategy_spec(),
            r.max_slice_len_spec() == self.max_slice_len_spec(),
            r.data_segment_type_spec() == self.data_segment_type_spec(),
            r.max_number_of_segments_spec() == self.max_number_of_segments_spec(),
            r.owner_uid_spec() == self.owner_uid_spec(),
            r.group_gid_spec() == self.group_gid_spec(),
    {
        PortFactoryPublisher { mode, ..self }
    }

    /// Sets the POSIX permission of the publisher from raw permission bits;
    /// only the low 16 mode bits can be stored.
    pub fn permission(self, permission: u32) -> (r: Self)
        ensures
            r.mode_spec() == (permission & 0xffff) as u16,
            r.max_loaned_samples_spec() == self.max_loaned_samples_spec(),
            r.strategy_spec() == self.strategy_spec(),
            r.max_slice_len_spec() == self.max_slice_len_spec(),
            r.data_segment_type_spec() == self.data_segment_type_spec(),
            r.max_number_of_segments_spec() == self.max_number_of_segments_spec(),
            r.owner_uid_spec() == self.owner_uid_spec(),
            r.group_gid_spec() == self.group_gid_spec(),
    {
        let mode = (permission & 0xffff) as u16;
        PortFactoryPublisher { mode, ..self }
    }
}

/// Factory to create a new subscriber port on a service.
#[derive(Debug)]
pub struct PortFactorySubscriber {
    pub buffer_size: Option<usize>,
    pub degradation_callback: Option<DegradationAction>,
    pub owner_uid: Option<u32>,
    pub group_gid: Option<u32>,
    pub mode: Option<u16>,
}

impl PortFactorySubscriber {
    /// The buffer size the subscriber asks for, if any.
    pub open spec fn buffer_size_spec(&self) -> Option<usize> {
        self.buffer_size
    }

    /// The degradation action the subscriber records, if any.
    pub open spec fn degradation_callback_spec(&self) -> Option<DegradationAction> {
        self.degradation_callback
    }

    /// The owner user ID the subscriber asks for, if any.
    pub open spec fn owner_uid_spec(&self) -> Option<u32> {
        self.owner_uid
    }

    /// The group ID the subscriber asks for, if any.
    pub open spec fn group_gid_spec(&self) -> Option<u32> {
        self.group_gid
    }

    /// The POSIX permission mode the subscriber asks for, if any.
    pub open spec fn mode_spec(&self) -> Option<u16> {
        self.mode
    }

    /// Creates a factory with the default subscriber settings.
    pub fn new() -> (r: PortFactorySubscriber)
        ensures
            r.buffer_size_spec() is None,
            r.degradation_callback_spec() is None,
            r.owner_uid_spec() is None,
            r.group_gid_spec() is None,
            r.mode_spec() is None,
    {
        PortFactorySubscriber {
            buffer_size: None,
            degradation_callback: None,
            owner_uid: None,
            group_gid: None,
            mode: None,
        }
    }

    /// Returns a copy of this factory without the degradation action; the
    /// other settings are kept.
    pub fn __internal_partial_clone(&self) -> (r: Self)
        ensures
            r.buffer_size_spec() == self.buffer_size_spec(),
            r.degradation_callback_spec() is None,
            r.owner_uid_spec() == self.owner_uid_spec(),
            r.group_gid_spec() == self.group_gid_spec(),
            r.mode_spec() == self.mode_spec(),
    {
        PortFactorySubscriber {
            buffer_size: self.buffer_size,
            degradation_callback: None,
            owner_uid: self.owner_uid,
            group_gid: self.group_gid,
            mode: self.mode,
        }
    }

    /// Defines the buffer size of the subscriber. The smallest possible
    /// value is `1`.
    pub fn buffer_size(self, value: usize) -> (r: Self)
        ensures
            r.buffer_size_spec() == Some(if value >= 1 { value } else { 1usize }),
            r.degradation_callback_spec() == self.degradation_callback_spec(),
            r.owner_uid_spec() == self.owner_uid_spec(),
            r.group_gid_spec() == self.group_gid_spec(),
            r.mode_spec() == self.mode_spec(),
    {
        let clamped = if value >= 1 { value } else { 1 };
        PortFactorySubscriber { buffer_size: Some(clamped), ..self }
    }

    /// Records the action to take when a connection to this subscriber
    /// appears corrupted or its node appears dead.
    pub fn set_degradation_callback(self, callback: Option<DegradationAction>) -> (r: Self)
        ensures
            r.degradation_callback_spec() == callback,
            r.buffer_size_spec() == self.buffer_size_spec(),
            r.owner_uid_spec() == self.owner_uid_spec(),
            r.group_gid_spec() == self.group_gid_spec(),
            r.mode_spec() == self.mode_spec(),
    {
        PortFactorySubscriber { degradation_callback: callback, ..self }
    }

    /// Sets the owner user ID of the subscriber.
    pub fn owner_uid(self, uid: u32) -> (r: Self)
        ensures
            r.owner_uid_spec() == Some(uid),
            r.buffer_size_spec() == self.buffer_size_spec(),
            r.degradation_callback_spec() == self.degradation_callback_spec(),
            r.group_gid_spec() == self.group_gid_spec(),
            r.mode_spec() == self.mode_spec(),
    {
        PortFactorySubscriber { owner_uid: Some(uid), ..self }
    }

    /// Sets the group ID of the subscriber.
    pub fn group_gid(self, gid: u32) -> (r: Self)
        ensures
            r.group_gid_spec() == Some(gid),
            r.buffer_size_spec() == self.buffer_size_spec(),
            r.degradation_callback_spec() == self.degradation_callback_spec(),
            r.owner_uid_spec() == self.owner_uid_spec(),
            r.mode_spec() == self.mode_spec(),
    {
        PortFactorySubscriber { group_gid: Some(gid), ..self }
    }

    /// Sets the POSIX permission mode of the subscriber.
    pub fn mode(self, mode: u16) -> (r: Self)
        ensures
            r.mode_spec() == Some(mode),
            r.buffer_size_spec() == self.buffer_size_spec(),
            r.degradation_callback_spec() == self.degradation_callback_spec(),
            r.owner_uid_spec() == self.owner_uid_spec(),
            r.group_gid_spec() == self.group_gid_spec(),
    {
        PortFactorySubscriber { mode: Some(mode), ..self }
    }

    /// Sets the POSIX permission of the subscriber; only the low 16 mode
    /// bits of the permission can be stored.
    pub fn permission(self, permission: Permission) -> (r: Self)
        ensures
            r.mode_spec() == Some((permission.bits & 0xffff) as u16),
            r.buffer_size_spec() == self.buffer_size_spec(),
            r.degradation_callback_spec() == self.degradation_callback_spec(),
            r.owner_uid_spec() == self.owner_uid_spec(),
            r.group_gid_spec() == self.group_gid_spec(),
    {
        let bits = permission.bits();
        let mode = (bits & 0xffff) as u16;
        PortFactorySubscriber { mode: Some(mode), ..self }
    }
}

} // verus!
