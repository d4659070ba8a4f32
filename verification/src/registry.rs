//! The dynamic configuration of a publish/subscribe service: the registry of
//! its live publisher and subscriber endpoints. The registry holds one
//! fixed-capacity container per port kind, sized at service creation; adding
//! an endpoint returns a stable handle that releases it again.

use vstd::prelude::*;

use crate::container::{occupied_count, occupied_seq, ContainerHandle, FixedSizeContainer};
use crate::ids::{NodeId, UniquePortId, UniquePublisherId, UniqueSubscriberId};
use crate::permission::{mode_to_permission, permission_bits_of_mode, Permission};
use crate::segment::DataSegmentType;

verus! {

/// The registry capacities of a service, fixed at service creation.
#[derive(Clone, Copy, Debug)]
pub struct DynamicConfigSettings {
    /// How many subscribers the service supports at most.
    pub number_of_subscribers: usize,
    /// How many publishers the service supports at most.
    pub number_of_publishers: usize,
}

/// The communication settings of a connected publisher.
#[derive(Clone, Copy, Debug)]
pub struct PublisherDetails {
    /// The unique identifier of the publisher.
    pub publisher_id: UniquePublisherId,
    /// The node under which the publisher was created.
    pub node_id: NodeId,
    /// The total number of payload slots in the publisher's data segment.
    pub number_of_samples: usize,
    /// The current maximum length of a loaned slice.
    pub max_slice_len: usize,
    /// How the publisher's data segment is laid out.
    pub data_segment_type: DataSegmentType,
    /// How many segments a dynamic data segment may grow to at most.
    pub max_number_of_segments: u8,
    /// The user ID of the owner of the publisher.
    pub owner_uid: u32,
    /// The group ID of the publisher.
    pub group_gid: u32,
    /// The POSIX permission mode bits of the publisher.
    pub mode: u16,
}

impl PublisherDetails {
    /// Returns the owner user ID of the publisher.
    pub fn owner_uid(&self) -> (r: u32)
        ensures
            r == self.owner_uid,
    {
        self.owner_uid
    }

    /// Returns the group ID of the publisher.
    pub fn group_gid(&self) -> (r: u32)
        ensures
            r == self.group_gid,
    {
        self.group_gid
    }

    /// Returns the POSIX permission mode of the publisher.
    pub fn mode(&self) -> (r: u16)
        ensures
            r == self.mode,
    {
        self.mode
    }

    /// Returns the POSIX permission of the publisher as a [`Permission`].
    pub fn permission(&self) -> (p: Permission)
        ensures
            p.bits == permission_bits_of_mode(self.mode),
    {
        mode_to_permission(self.mode)
    }

    /// Sets the owner user ID of the publisher.
    pub fn set_owner_uid(&mut self, uid: u32)
        ensures
            *final(self) == (PublisherDetails { owner_uid: uid, ..*old(self) }),
    {
        self.owner_uid = uid;
    }

    /// Sets the group ID of the publisher.
    pub fn set_group_gid(&mut self, gid: u32)
        ensures
            *final(self) == (PublisherDetails { group_gid: gid, ..*old(self) }),
    {
        self.group_gid = gid;
    }

    /// Sets the POSIX permission mode of the publisher.
    pub fn set_mode(&mut self, mode: u16)
        ensures
            *final(self) == (PublisherDetails { mode, ..*old(self) }),
            final(self).mode == mode,
    {
        self.mode = mode;
    }

    /// Sets the POSIX permission of the publisher; only the low 16 mode bits
    /// of the permission can be stored.
    pub fn set_permission(&mut self, permission: Permission)
        ensures
            *final(self) == (PublisherDetails {
                mode: (permission.bits & 0xffff) as u16,
                ..*old(self)
            }),
    {
        let bits = permission.bits();
        let mode = (bits & 0xffff) as u16;
        self.mode = mode;
    }
}

/// The communication settings of a connected subscriber.
#[derive(Clone, Copy, Debug)]
pub struct SubscriberDetails {
    /// The unique identifier of the subscriber.
    pub subscriber_id: UniqueSubscriberId,
    /// The node under which the subscriber was created.
    pub node_id: NodeId,
    /// The size of the receive buffer of the subscriber.
    pub buffer_size: usize,
    /// The user ID of the owner of the subscriber.
    pub owner_uid: u32,
    /// The group ID of the subscriber.
    pub group_gid: u32,
    /// The POSIX permission mode bits of the subscriber.
    pub mode: u16,
}

impl SubscriberDetails {
    /// Returns the owner user ID of the subscriber.
    pub fn owner_uid(&self) -> (r: u32)
        ensures
            r == self.owner_uid,
    {
        self.owner_uid
    }

    /// Returns the group ID of the subscriber.
    pub fn group_gid(&self) -> (r: u32)
        ensures
            r == self.group_gid,
    {
        self.group_gid
    }

    /// Returns the POSIX permission mode of the subscriber.
    pub fn mode(&self) -> (r: u16)
        ensures
            r == self.mode,
    {
        self.mode
    }

    /// Returns the POSIX permission of the subscriber as a [`Permission`].
    pub fn permission(&self) -> (p: Permission)
        ensures
            p.bits == permission_bits_of_mode(self.mode),
    {
        mode_to_permission(self.mode)
    }

    /// Sets the owner user ID of the subscriber.
    pub fn set_owner_uid(&mut self, uid: u32)
        ensures
            *final(self) == (SubscriberDetails { owner_uid: uid, ..*old(self) }),
    {
        self.owner_uid = uid;
    }

    /// Sets the group ID of the subscriber.
    pub fn set_group_gid(&mut self, gid: u32)
        ensures
            *final(self) == (SubscriberDetails { group_gid: gid, ..*old(self) }),
    {
        self.group_gid = gid;
    }

    /// Sets the POSIX permission mode of the subscriber.
    pub fn set_mode(&mut self, mode: u16)
        ensures
            *final(self) == (SubscriberDetails { mode, ..*old(self) }),
            final(self).mode == mode,
    {
        self.mode = mode;
    }

    /// Sets the POSIX permission of the subscriber; only the low 16 mode bits
    /// of the permission can be stored.
    pub fn set_permission(&mut self, permission: Permission)
        ensures
            *final(self) == (SubscriberDetails {
                mode: (permission.bits & 0xffff) as u16,
                ..*old(self)
            }),
    {
        let bits = permission.bits();
        let mode = (bits & 0xffff) as u16;
        self.mode = mode;
    }
}

/// The slot states of the publisher container after the sweep of a dead
/// node: a publisher of that node is released unless the cleanup decision
/// for its port identifier was to skip it.
pub open spec fn sweep_publishers(
    s: Seq<Option<PublisherDetails>>,
    node: NodeId,
    skip: Seq<UniquePortId>,
) -> Seq<Option<PublisherDetails>> {
    Seq::new(
        s.len(),
        |i: int|
            if s[i] is Some && s[i]->0.node_id == node && !skip.contains(
                UniquePortId::Publisher(s[i]->0.publisher_id),
            ) {
                None
            } else {
                s[i]
            },
    )
}

/// The slot states of the subscriber container after the sweep of a dead
/// node: a subscriber of that node is released unless the cleanup decision
/// for its port identifier was to skip it.
pub open spec fn sweep_subscribers(
    s: Seq<Option<SubscriberDetails>>,
    node: NodeId,
    skip: Seq<UniquePortId>,
) -> Seq<Option<SubscriberDetails>> {
    Seq::new(
        s.len(),
        |i: int|
            if s[i] is Some && s[i]->0.node_id == node && !skip.contains(
                UniquePortId::Subscriber(s[i]->0.subscriber_id),
            ) {
                None
            } else {
                s[i]
            },
    )
}

/// Returns whether the list of port identifiers contains the identifier.
fn contains_port(list: &Vec<UniquePortId>, id: UniquePortId) -> (r: bool)
    ensures
        r == list@.contains(id),
{
    let n = list.len();
    let mut k: usize = 0;
    while k < n
        invariant
            k <= n,
            n == list@.len(),
            forall|j: int| 0 <= j < k ==> list@[j] != id,
        decreases n - k,
    {
        if list[k] == id {
            proof {
                assert(list@[k as int] == id);
            }
            return true;
        }
        k = k + 1;
    }
    proof {
        if list@.contains(id) {
            let j = choose|j: int| 0 <= j < list@.len() && list@[j] == id;
            assert(false);
        }
    }
    false
}

/// The port identifiers of the publishers of the dead node, in slot order.
pub open spec fn dead_publisher_ids(s: Seq<Option<PublisherDetails>>, node: NodeId) -> Seq<
    UniquePortId,
>
    decreases s.len(),
{
    if s.len() == 0 {
        Seq::empty()
    } else {
        dead_publisher_ids(s.drop_last(), node) + (match s.last() {
            Some(d) => if d.node_id == node {
                seq![UniquePortId::Publisher(d.publisher_id)]
            } else {
                Seq::empty()
            },
            None => Seq::empty(),
        })
    }
}

/// The port identifiers of the subscribers of the dead node, in slot order.
pub open spec fn dead_subscriber_ids(s: Seq<Option<SubscriberDetails>>, node: NodeId) -> Seq<
    UniquePortId,
>
    decreases s.len(),
{
    if s.len() == 0 {
        Seq::empty()
    } else {
        dead_subscriber_ids(s.drop_last(), node) + (match s.last() {
            Some(d) => if d.node_id == node {
                seq![UniquePortId::Subscriber(d.subscriber_id)]
            } else {
                Seq::empty()
            },
            None => Seq::empty(),
        })
    }
}

/// The registry of the live endpoints of a publish/subscribe service.
pub struct DynamicConfig {
    subscribers: FixedSizeContainer<SubscriberDetails>,
    publishers: FixedSizeContainer<PublisherDetails>,
}

impl DynamicConfig {
    /// The slot states of the publisher container.
    pub closed spec fn publishers_view(&self) -> Seq<Option<PublisherDetails>> {
        self.publishers@
    }

    /// The slot states of the subscriber container.
    pub closed spec fn subscribers_view(&self) -> Seq<Option<SubscriberDetails>> {
        self.subscribers@
    }

    /// The bookkeeping of both endpoint containers is sound.
    pub closed spec fn inv(&self) -> bool {
        self.publishers.inv() && self.subscribers.inv()
    }

    /// Creates an empty registry with the capacities of the settings.
    pub fn new(config: &DynamicConfigSettings) -> (r: DynamicConfig)
        ensures
            r.inv(),
            r.publishers_view().len() == config.number_of_publishers,
            r.subscribers_view().len() == config.number_of_subscribers,
            forall|i: int| 0 <= i < config.number_of_publishers ==> r.publishers_view()[i] is None,
            forall|i: int|
                0 <= i < config.number_of_subscribers ==> r.subscribers_view()[i] is None,
            occupied_count(r.publishers_view()) == 0,
            occupied_count(r.subscribers_view()) == 0,
    {
        DynamicConfig {
            subscribers: FixedSizeContainer::new(config.number_of_subscribers),
            publishers: FixedSizeContainer::new(config.number_of_publishers),
        }
    }

    /// Returns how many publisher ports are currently connected.
    pub fn number_of_publishers(&self) -> (r: usize)
        requires
            self.inv(),
        ensures
            r == occupied_count(self.publishers_view()),
    {
        self.publishers.len()
    }

    /// Returns how many subscriber ports are currently connected.
    pub fn number_of_subscribers(&self) -> (r: usize)
        requires
            self.inv(),
        ensures
            r == occupied_count(self.subscribers_view()),
    {
        self.subscribers.len()
    }

    /// Returns a snapshot of the details of every connected subscriber, in
    /// slot order.
    pub fn list_subscribers(&self) -> (r: Vec<SubscriberDetails>)
        ensures
            r@ == occupied_seq(self.subscribers_view()),
    {
        self.subscribers.contents()
    }

    /// Returns a snapshot of the details of every connected publisher, in
    /// slot order.
    pub fn list_publishers(&self) -> (r: Vec<PublisherDetails>)
        ensures
            r@ == occupied_seq(self.publishers_view()),
    {
        self.publishers.contents()
    }

    /// Registers a subscriber endpoint; returns its handle, or `None` when
    /// the service already has its maximum number of subscribers.
    pub fn add_subscriber_id(&mut self, details: SubscriberDetails) -> (r: Option<ContainerHandle>)
        requires
            old(self).inv(),
        ensures
            final(self).inv(),
            final(self).publishers_view() == old(self).publishers_view(),
            final(self).subscribers_view().len() == old(self).subscribers_view().len(),
            match r {
                Some(h) => {
                    &&& 0 <= h.index() < old(self).subscribers_view().len()
                    &&& old(self).subscribers_view()[h.index()] is None
                    &&& final(self).subscribers_view() == old(self).subscribers_view().update(
                        h.index(),
                        Some(details),
                    )
                    &&& occupied_count(final(self).subscribers_view()) == occupied_count(
                        old(self).subscribers_view(),
                    ) + 1
                },
                None => {
                    &&& occupied_count(old(self).subscribers_view()) == old(
                        self,
                    ).subscribers_view().len()
                    &&& final(self).subscribers_view() == old(self).subscribers_view()
                },
            },
            r is Some <==> occupied_count(old(self).subscribers_view()) < old(
                self,
            ).subscribers_view().len(),
    {
        self.subscribers.add(details)
    }

    /// Releases the subscriber endpoint that the handle refers to; a handle
    /// whose endpoint was already released is a no-op.
    pub fn release_subscriber_handle(&mut self, handle: ContainerHandle)
        requires
            old(self).inv(),
        ensures
            final(self).inv(),
            final(self).publishers_view() == old(self).publishers_view(),
            (0 <= handle.index() < old(self).subscribers_view().len() && old(
                self,
            ).subscribers_view()[handle.index()] is Some) ==> final(self).subscribers_view() == old(
                self,
            ).subscribers_view().update(handle.index(), None),
            !(0 <= handle.index() < old(self).subscribers_view().len() && old(
                self,
            ).subscribers_view()[handle.index()] is Some) ==> final(self).subscribers_view() == old(
                self,
            ).subscribers_view(),
    {
        let _removed = self.subscribers.remove(handle);
    }

    /// Registers a publisher endpoint; returns its handle, or `None` when the
    /// service already has its maximum number of publishers.
    pub fn add_publisher_id(&mut self, details: PublisherDetails) -> (r: Option<ContainerHandle>)
        requires
            old(self).inv(),
        ensures
            final(self).inv(),
            final(self).subscribers_view() == old(self).subscribers_view(),
            final(self).publishers_view().len() == old(self).publishers_view().len(),
            match r {
                Some(h) => {
                    &&& 0 <= h.index() < old(self).publishers_view().len()
                    &&& old(self).publishers_view()[h.index()] is None
                    &&& final(self).publishers_view() == old(self).publishers_view().update(
                        h.index(),
                        Some(details),
                    )
                    &&& occupied_count(final(self).publishers_view()) == occupied_count(
                        old(self).publishers_view(),
                    ) + 1
                },
                None => {
                    &&& occupied_count(old(self).publishers_view()) == old(
                        self,
                    ).publishers_view().len()
                    &&& final(self).publishers_view() == old(self).publishers_view()
                },
            },
            r is Some <==> occupied_count(old(self).publishers_view()) < old(
                self,
            ).publishers_view().len(),
    {
        self.publishers.add(details)
    }

    /// Releases the publisher endpoint that the handle refers to; a handle
    /// whose endpoint was already released is a no-op.
    pub fn release_publisher_handle(&mut self, handle: ContainerHandle)
        requires
            old(self).inv(),
        ensures
            final(self).inv(),
            final(self).subscribers_view() == old(self).subscribers_view(),
            (0 <= handle.index() < old(self).publishers_view().len() && old(
                self,
            ).publishers_view()[handle.index()] is Some) ==> final(self).publishers_view() == old(
                self,
            ).publishers_view().update(handle.index(), None),
            !(0 <= handle.index() < old(self).publishers_view().len() && old(
                self,
            ).publishers_view()[handle.index()] is Some) ==> final(self).publishers_view() == old(
                self,
            ).publishers_view(),
    {
        let _removed = self.publishers.remove(handle);
    }

    /// Returns the publisher details the handle refers to, or `None` when the
    /// handle's slot is empty.
    pub fn get_publisher(&self, handle: ContainerHandle) -> (r: Option<&PublisherDetails>)
        ensures
            match r {
                Some(d) => {
                    &&& 0 <= handle.index() < self.publishers_view().len()
                    &&& self.publishers_view()[handle.index()] is Some
                    &&& *d == self.publishers_view()[handle.index()]->0
                },
                None => !(0 <= handle.index() < self.publishers_view().len()
                    && self.publishers_view()[handle.index()] is Some),
            },
    {
        self.publishers.get(handle)
    }

    /// Returns the subscriber details the handle refers to, or `None` when
    /// the handle's slot is empty.
    pub fn get_subscriber(&self, handle: ContainerHandle) -> (r: Option<&SubscriberDetails>)
        ensures
            match r {
                Some(d) => {
                    &&& 0 <= handle.index() < self.subscribers_view().len()
                    &&& self.subscribers_view()[handle.index()] is Some
                    &&& *d == self.subscribers_view()[handle.index()]->0
                },
                None => !(0 <= handle.index() < self.subscribers_view().len()
                    && self.subscribers_view()[handle.index()] is Some),
            },
    {
        self.subscribers.get(handle)
    }

    /// Sweeps the dead node's endpoints, enumerating each of them exactly
    /// once and applying the caller's per-port cleanup decision: an endpoint
    /// whose identifier stands in `ports_to_skip` is kept registered, every
    /// other endpoint of the node is released. The returned identifiers are
    /// the enumeration the decisions were made over, one entry per endpoint
    /// of the dead node; publishers are processed before subscribers, so
    /// that no new delivery can target a dead publisher's remaining
    /// subscribers.
    pub fn remove_dead_node_id(
        &mut self,
        node_id: &NodeId,
        ports_to_skip: &Vec<UniquePortId>,
    ) -> (r: Vec<UniquePortId>)
        requires
            old(self).inv(),
        ensures
            final(self).inv(),
            final(self).publishers_view() == sweep_publishers(
                old(self).publishers_view(),
                *node_id,
                ports_to_skip@,
            ),
            final(self).subscribers_view() == sweep_subscribers(
                old(self).subscribers_view(),
                *node_id,
                ports_to_skip@,
            ),
            r@ == dead_publisher_ids(old(self).publishers_view(), *node_id)
                + dead_subscriber_ids(old(self).subscribers_view(), *node_id),
    {
        let ghost pubs0 = self.publishers@;
        let ghost subs0 = self.subscribers@;
        let mut out: Vec<UniquePortId> = Vec::new();
        let n = self.publishers.capacity();
        let mut i: usize = 0;
        while i < n
            invariant
                i <= n,
                self.publishers.inv(),
                self.subscribers.inv(),
                self.subscribers@ == subs0,
                n == pubs0.len(),
                self.publishers@.len() == pubs0.len(),
                forall|j: int|
                    0 <= j < pubs0.len() ==> self.publishers@[j] == (if j < i && pubs0[j] is Some
                        && pubs0[j]->0.node_id == *node_id && !ports_to_skip@.contains(
                        UniquePortId::Publisher(pubs0[j]->0.publisher_id),
                    ) {
                        None
                    } else {
                        pubs0[j]
                    }),
                out@ == dead_publisher_ids(pubs0.take(i as int), *node_id),
            decreases n - i,
        {
            let ghost pre = pubs0.take(i as int);
            assert(pubs0.take(i as int + 1).drop_last() =~= pre);
            let mut remove_here = false;
            match self.publishers.get_at(i) {
                Some(d) => {
                    if d.node_id == *node_id {
                        let id = UniquePortId::Publisher(d.publisher_id);
                        out.push(id);
                        remove_here = !contains_port(ports_to_skip, id);
                    }
                },
                None => {},
            }
            if remove_here {
                let _removed = self.publishers.remove(ContainerHandle::from_index(i));
            }
            proof {
                assert(out@ =~= dead_publisher_ids(pubs0.take(i as int + 1), *node_id));
            }
            i = i + 1;
        }
        proof {
            assert(pubs0.take(n as int) =~= pubs0);
            assert(self.publishers@ =~= sweep_publishers(pubs0, *node_id, ports_to_skip@));
        }
        let ghost pub_ids = out@;
        let m = self.subscribers.capacity();
        let mut i: usize = 0;
        while i < m
            invariant
                i <= m,
                self.publishers.inv(),
                self.subscribers.inv(),
                self.publishers@ == sweep_publishers(pubs0, *node_id, ports_to_skip@),
                m == subs0.len(),
                self.subscribers@.len() == subs0.len(),
                forall|j: int|
                    0 <= j < subs0.len() ==> self.subscribers@[j] == (if j < i && subs0[j] is Some
                        && subs0[j]->0.node_id == *node_id && !ports_to_skip@.contains(
                        UniquePortId::Subscriber(subs0[j]->0.subscriber_id),
                    ) {
                        None
                    } else {
                        subs0[j]
                    }),
                out@ == pub_ids + dead_subscriber_ids(subs0.take(i as int), *node_id),
            decreases m - i,
        {
            let ghost pre = subs0.take(i as int);
            assert(subs0.take(i as int + 1).drop_last() =~= pre);
            let mut remove_here = false;
            match self.subscribers.get_at(i) {
                Some(d) => {
                    if d.node_id == *node_id {
                        let id = UniquePortId::Subscriber(d.subscriber_id);
                        out.push(id);
                        remove_here = !contains_port(ports_to_skip, id);
                    }
                },
                None => {},
            }
            if remove_here {
                let _removed = self.subscribers.remove(ContainerHandle::from_index(i));
            }
            proof {
                assert(out@ =~= pub_ids + dead_subscriber_ids(subs0.take(i as int + 1), *node_id));
            }
            i = i + 1;
        }
        proof {
            assert(subs0.take(m as int) =~= subs0);
            assert(self.subscribers@ =~= sweep_subscribers(subs0, *node_id, ports_to_skip@));
        }
        out
    }
}

} // verus!
