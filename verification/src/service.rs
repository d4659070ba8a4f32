//! A publish/subscribe service: the named rendezvous that owns the endpoint
//! registry, the publisher ports with their data segments, and the subscriber
//! ports with their bounded receive queues.
//!
//! The service state is the arena that every port operation works on: ports
//! are addressed by stable handles, samples by the publisher handle and the
//! slot index they cover. The central well-formedness invariant ties the
//! reference count of every payload slot to the references that exist on it:
//! one for an outstanding loan, one per subscriber queue entry, and one per
//! read borrow that a received sample holds.

use vstd::prelude::*;

use crate::config::{StaticConfig, TypeDetail, TypeVariant};
use crate::container::occupied_count;
use crate::errors::{
    LoanError, PublisherCreateError, ReceiveError, SendError, SubscriberCreateError,
    UnableToDeliverStrategy,
};
use crate::ids::{NodeId, UniquePublisherId, UniqueSubscriberId};
use crate::port_factory::{PortFactoryPublisher, PortFactorySubscriber, Publisher, Subscriber};
use crate::registry::{DynamicConfig, DynamicConfigSettings, PublisherDetails, SubscriberDetails};
use crate::samples::{QueueEntry, Sample, SampleMut, SampleMutUninit, SendCopyStatus, SendStatus};
use crate::segment::{index_in, indices_distinct, DataSegment, DataSegmentType};

verus! {

/// A publisher port: its registry details, its loan bookkeeping and the data
/// segment that holds its payload slots.
pub(crate) struct PublisherPort {
    pub(crate) details: PublisherDetails,
    pub(crate) max_loaned_samples: usize,
    pub(crate) unable_to_deliver_strategy: UnableToDeliverStrategy,
    pub(crate) segment: DataSegment,
    pub(crate) loans: Vec<usize>,
}

/// A subscriber port: its registry details and its bounded receive queue.
pub(crate) struct SubscriberPort {
    pub(crate) details: SubscriberDetails,
    pub(crate) queue: Vec<QueueEntry>,
}

/// How often the queue refers to the payload slot `i` of publisher `p`.
pub open spec fn count_entry(q: Seq<QueueEntry>, p: int, i: int) -> nat
    decreases q.len(),
{
    if q.len() == 0 {
        0
    } else {
        count_entry(q.drop_last(), p, i) + (if q.last().publisher as int == p
            && q.last().slot as int == i {
            1nat
        } else {
            0nat
        })
    }
}

/// How often the queue of the subscriber port refers to the slot; an empty
/// port slot counts as zero.
pub(crate) open spec fn qcount(o: Option<SubscriberPort>, p: int, i: int) -> nat {
    match o {
        Some(sp) => count_entry(sp.queue@, p, i),
        None => 0,
    }
}

/// How often any subscriber queue of the service refers to the slot.
pub(crate) open spec fn total_occ(subs: Seq<Option<SubscriberPort>>, p: int, i: int) -> nat
    decreases subs.len(),
{
    if subs.len() == 0 {
        0
    } else {
        total_occ(subs.drop_last(), p, i) + qcount(subs.last(), p, i)
    }
}

/// Appending an entry to a queue raises its count for exactly that slot by
/// one.
pub proof fn lemma_count_entry_push(q: Seq<QueueEntry>, e: QueueEntry, p: int, i: int)
    ensures
        count_entry(q.push(e), p, i) == count_entry(q, p, i) + (if e.publisher as int == p
            && e.slot as int == i {
            1nat
        } else {
            0nat
        }),
{
    assert(q.push(e).drop_last() =~= q);
}

/// Removing the first entry of a queue lowers its count for exactly that
/// entry's slot by one.
pub proof fn lemma_count_entry_drop_first(q: Seq<QueueEntry>, p: int, i: int)
    requires
        q.len() > 0,
    ensures
        count_entry(q, p, i) == count_entry(q.subrange(1, q.len() as int), p, i) + (
        if q[0].publisher as int == p && q[0].slot as int == i {
            1nat
        } else {
            0nat
        }),
    decreases q.len(),
{
    let tail = q.subrange(1, q.len() as int);
    if q.len() == 1 {
        assert(tail =~= Seq::<QueueEntry>::empty());
        assert(q.drop_last() =~= Seq::<QueueEntry>::empty());
    } else {
        lemma_count_entry_drop_first(q.drop_last(), p, i);
        assert(q.drop_last().subrange(1, q.drop_last().len() as int) =~= tail.drop_last());
        assert(tail.last() == q.last());
    }
}

/// A queue that nowhere refers to the slot counts zero for it.
pub(crate) proof fn lemma_count_entry_zero(q: Seq<QueueEntry>, p: int, i: int)
    requires
        forall|k: int|
            0 <= k < q.len() ==> !((#[trigger] q[k]).publisher as int == p && q[k].slot as int
                == i),
    ensures
        count_entry(q, p, i) == 0,
    decreases q.len(),
{
    if q.len() > 0 {
        lemma_count_entry_zero(q.drop_last(), p, i);
    }
}

/// A queue whose entry `k` refers to the slot counts at least one for it.
pub(crate) proof fn lemma_count_entry_at_least_one(q: Seq<QueueEntry>, p: int, i: int, k: int)
    requires
        0 <= k < q.len(),
        q[k].publisher as int == p,
        q[k].slot as int == i,
    ensures
        count_entry(q, p, i) >= 1,
    decreases q.len(),
{
    if k < q.len() - 1 {
        lemma_count_entry_at_least_one(q.drop_last(), p, i, k);
    }
}

/// Replacing one subscriber port changes the total occurrence count of every
/// slot by the difference between the new and the old port's count.
pub(crate) proof fn lemma_total_occ_update(
    subs: Seq<Option<SubscriberPort>>,
    j: int,
    x: Option<SubscriberPort>,
    p: int,
    i: int,
)
    requires
        0 <= j < subs.len(),
    ensures
        total_occ(subs.update(j, x), p, i) + qcount(subs[j], p, i) == total_occ(subs, p, i)
            + qcount(x, p, i),
    decreases subs.len(),
{
    let t = subs.update(j, x);
    if j == subs.len() - 1 {
        assert(t.drop_last() =~= subs.drop_last());
    } else {
        assert(t.drop_last() =~= subs.drop_last().update(j, x));
        lemma_total_occ_update(subs.drop_last(), j, x, p, i);
    }
}

/// The total occurrence count of a slot is at least the count of any one
/// subscriber port.
pub(crate) proof fn lemma_total_occ_lower(
    subs: Seq<Option<SubscriberPort>>,
    j: int,
    p: int,
    i: int,
)
    requires
        0 <= j < subs.len(),
    ensures
        total_occ(subs, p, i) >= qcount(subs[j], p, i),
    decreases subs.len(),
{
    if j < subs.len() - 1 {
        lemma_total_occ_lower(subs.drop_last(), j, p, i);
    }
}

/// When every subscriber slot but one is empty, the total occurrence count
/// of a slot is the count in that one port's queue.
pub(crate) proof fn lemma_total_occ_single(
    subs: Seq<Option<SubscriberPort>>,
    s: int,
    p: int,
    i: int,
)
    requires
        0 <= s < subs.len(),
        forall|j: int| 0 <= j < subs.len() && j != s ==> (#[trigger] subs[j]) is None,
    ensures
        total_occ(subs, p, i) == qcount(subs[s], p, i),
    decreases subs.len(),
{
    if s == subs.len() - 1 {
        lemma_total_occ_zero(subs.drop_last(), p, i);
    } else {
        lemma_total_occ_single(subs.drop_last(), s, p, i);
    }
}

/// A slot that no subscriber queue refers to has a total occurrence count of
/// zero.
pub(crate) proof fn lemma_total_occ_zero(subs: Seq<Option<SubscriberPort>>, p: int, i: int)
    requires
        forall|j: int| 0 <= j < subs.len() ==> qcount(#[trigger] subs[j], p, i) == 0,
    ensures
        total_occ(subs, p, i) == 0,
    decreases subs.len(),
{
    if subs.len() > 0 {
        lemma_total_occ_zero(subs.drop_last(), p, i);
    }
}

/// Appending an entry to the queue of one subscriber port raises the total
/// occurrence count of exactly that entry's slot by one.
pub(crate) proof fn lemma_occ_after_push(
    subs1: Seq<Option<SubscriberPort>>,
    subs2: Seq<Option<SubscriberPort>>,
    k: int,
    e: QueueEntry,
    p: int,
    i: int,
)
    requires
        0 <= k < subs1.len(),
        subs1[k] is Some,
        subs2 == subs1.update(k, subs2[k]),
        subs2[k] is Some,
        subs2[k]->0.queue@ == subs1[k]->0.queue@.push(e),
    ensures
        total_occ(subs2, p, i) == total_occ(subs1, p, i) + (if e.publisher as int == p
            && e.slot as int == i {
            1nat
        } else {
            0nat
        }),
{
    lemma_total_occ_update(subs1, k, subs2[k], p, i);
    lemma_count_entry_push(subs1[k]->0.queue@, e, p, i);
}

/// Removing the oldest entry of the queue of one subscriber port lowers the
/// total occurrence count of exactly that entry's slot by one.
pub(crate) proof fn lemma_occ_after_drop_first(
    subs1: Seq<Option<SubscriberPort>>,
    subs2: Seq<Option<SubscriberPort>>,
    k: int,
    p: int,
    i: int,
)
    requires
        0 <= k < subs1.len(),
        subs1[k] is Some,
        subs1[k]->0.queue@.len() > 0,
        subs2 == subs1.update(k, subs2[k]),
        subs2[k] is Some,
        subs2[k]->0.queue@ == subs1[k]->0.queue@.subrange(
            1,
            subs1[k]->0.queue@.len() as int,
        ),
    ensures
        total_occ(subs2, p, i) + (if subs1[k]->0.queue@[0].publisher as int == p
            && subs1[k]->0.queue@[0].slot as int == i {
            1nat
        } else {
            0nat
        }) == total_occ(subs1, p, i),
{
    lemma_total_occ_update(subs1, k, subs2[k], p, i);
    lemma_count_entry_drop_first(subs1[k]->0.queue@, p, i);
}

/// The queue without the entries of one publisher, in its original order.
pub open spec fn queue_without_publisher(q: Seq<QueueEntry>, p: int) -> Seq<QueueEntry>
    decreases q.len(),
{
    if q.len() == 0 {
        Seq::empty()
    } else {
        queue_without_publisher(q.drop_last(), p) + (if q.last().publisher as int != p {
            seq![q.last()]
        } else {
            Seq::empty()
        })
    }
}

/// Scrubbing one publisher's entries from a queue leaves the counts of every
/// other publisher's slots unchanged and no entry of the scrubbed publisher.
pub(crate) proof fn lemma_count_queue_without_publisher(
    q: Seq<QueueEntry>,
    p: int,
    q2: int,
    j: int,
)
    ensures
        q2 != p ==> count_entry(queue_without_publisher(q, p), q2, j) == count_entry(q, q2, j),
        q2 == p ==> count_entry(queue_without_publisher(q, p), q2, j) == 0,
    decreases q.len(),
{
    if q.len() > 0 {
        lemma_count_queue_without_publisher(q.drop_last(), p, q2, j);
        let rest = queue_without_publisher(q.drop_last(), p);
        if q.last().publisher as int != p {
            assert(queue_without_publisher(q, p) == rest.push(q.last()));
            lemma_count_entry_push(rest, q.last(), q2, j);
        } else {
            assert(queue_without_publisher(q, p) =~= rest);
        }
    }
}

/// Every entry of the scrubbed queue is an entry of the original queue.
pub(crate) proof fn lemma_queue_without_publisher_entries(q: Seq<QueueEntry>, p: int, k: int)
    requires
        0 <= k < queue_without_publisher(q, p).len(),
    ensures
        exists|m: int|
            0 <= m < q.len() && q[m] == queue_without_publisher(q, p)[k] && (
            #[trigger] queue_without_publisher(q, p)[k]).publisher as int != p,
        queue_without_publisher(q, p).len() <= q.len(),
    decreases q.len(),
{
    if q.len() > 0 {
        let rest = queue_without_publisher(q.drop_last(), p);
        if k < rest.len() {
            lemma_queue_without_publisher_entries(q.drop_last(), p, k);
            let m = choose|m: int|
                0 <= m < q.drop_last().len() && q.drop_last()[m] == rest[k] && rest[k].publisher
                    as int != p;
            assert(q[m] == rest[k]);
        } else {
            lemma_queue_without_publisher_len(q.drop_last(), p);
            assert(q[q.len() - 1] == queue_without_publisher(q, p)[k]);
        }
    }
}

/// A scrubbed queue is never longer than the original.
pub(crate) proof fn lemma_queue_without_publisher_len(q: Seq<QueueEntry>, p: int)
    ensures
        queue_without_publisher(q, p).len() <= q.len(),
    decreases q.len(),
{
    if q.len() > 0 {
        lemma_queue_without_publisher_len(q.drop_last(), p);
    }
}

/// A publish/subscribe service.
pub struct Service {
    pub(crate) name: String,
    pub(crate) config: StaticConfig,
    pub(crate) dynamic: DynamicConfig,
    pub(crate) pub_ports: Vec<Option<PublisherPort>>,
    pub(crate) sub_ports: Vec<Option<SubscriberPort>>,
    pub(crate) next_port_id: u128,
}

impl Service {
    /// The name of the service.
    pub closed spec fn name_spec(&self) -> Seq<char> {
        self.name@
    }

    /// The static configuration of the service.
    pub closed spec fn config_spec(&self) -> StaticConfig {
        self.config
    }

    /// The next port identifier value the service will assign.
    pub closed spec fn next_id_spec(&self) -> u128 {
        self.next_port_id
    }

    /// How many publisher port slots the service has.
    pub closed spec fn n_publisher_slots(&self) -> int {
        self.pub_ports@.len() as int
    }

    /// How many subscriber port slots the service has.
    pub closed spec fn n_subscriber_slots(&self) -> int {
        self.sub_ports@.len() as int
    }

    /// The registry's view of the publisher endpoints.
    pub closed spec fn registry_publishers(&self) -> Seq<Option<PublisherDetails>> {
        self.dynamic.publishers_view()
    }

    /// The registry's view of the subscriber endpoints.
    pub closed spec fn registry_subscribers(&self) -> Seq<Option<SubscriberDetails>> {
        self.dynamic.subscribers_view()
    }

    /// Whether a publisher port is live at handle `p`.
    pub closed spec fn pub_live(&self, p: int) -> bool {
        0 <= p < self.pub_ports@.len() && self.pub_ports@[p] is Some
    }

    /// The registry details of the publisher at handle `p`.
    pub closed spec fn pub_details(&self, p: int) -> PublisherDetails {
        self.pub_ports@[p]->0.details
    }

    /// How many loans the publisher at handle `p` may have outstanding.
    pub closed spec fn pub_max_loaned(&self, p: int) -> int {
        self.pub_ports@[p]->0.max_loaned_samples as int
    }

    /// The delivery policy of the publisher at handle `p`.
    pub closed spec fn pub_strategy(&self, p: int) -> UnableToDeliverStrategy {
        self.pub_ports@[p]->0.unable_to_deliver_strategy
    }

    /// The slots currently loaned from the publisher at handle `p`.
    pub closed spec fn loans(&self, p: int) -> Seq<usize> {
        self.pub_ports@[p]->0.loans@
    }

    /// Whether slot `i` of publisher `p` is currently loaned.
    pub open spec fn loaned(&self, p: int, i: int) -> bool {
        index_in(self.loans(p), i)
    }

    /// How many payload slots the data segment of publisher `p` has.
    pub closed spec fn num_slots(&self, p: int) -> int {
        self.pub_ports@[p]->0.segment.num_slots()
    }

    /// How many payload slots the data segment of publisher `p` may grow to.
    pub closed spec fn seg_capacity(&self, p: int) -> int {
        self.pub_ports@[p]->0.segment.capacity()
    }

    /// How many payload slots of publisher `p` are free.
    pub closed spec fn seg_free_len(&self, p: int) -> int {
        self.pub_ports@[p]->0.segment.free_len()
    }

    /// The reference count of slot `i` of publisher `p`.
    pub closed spec fn slot_refcount(&self, p: int, i: int) -> u64 {
        self.pub_ports@[p]->0.segment.refcount(i)
    }

    /// How many read borrows subscribers hold on slot `i` of publisher `p`.
    pub closed spec fn slot_borrows(&self, p: int, i: int) -> u64 {
        self.pub_ports@[p]->0.segment.borrow_count(i)
    }

    /// The payload stored in slot `i` of publisher `p`.
    pub closed spec fn slot_payload(&self, p: int, i: int) -> Seq<u64> {
        self.pub_ports@[p]->0.segment.payload(i)
    }

    /// Whether a subscriber port is live at handle `s`.
    pub closed spec fn sub_live(&self, s: int) -> bool {
        0 <= s < self.sub_ports@.len() && self.sub_ports@[s] is Some
    }

    /// The registry details of the subscriber at handle `s`.
    pub closed spec fn sub_details(&self, s: int) -> SubscriberDetails {
        self.sub_ports@[s]->0.details
    }

    /// The receive buffer size of the subscriber at handle `s`.
    pub open spec fn sub_buffer(&self, s: int) -> int {
        self.sub_details(s).buffer_size as int
    }

    /// The receive queue of the subscriber at handle `s`, oldest entry first.
    pub closed spec fn queue(&self, s: int) -> Seq<QueueEntry> {
        self.sub_ports@[s]->0.queue@
    }

    /// How many subscriber queue entries refer to slot `i` of publisher `p`.
    pub closed spec fn queue_occurrences(&self, p: int, i: int) -> nat {
        total_occ(self.sub_ports@, p, i)
    }

    /// Whether a publisher token belongs to a live port of this service.
    pub open spec fn publisher_token_valid(&self, t: &Publisher) -> bool {
        &&& self.pub_live(t.handle as int)
        &&& self.pub_details(t.handle as int).publisher_id == t.publisher_id
        &&& self.pub_max_loaned(t.handle as int) == t.max_loaned_samples as int
        &&& self.pub_strategy(t.handle as int) == t.unable_to_deliver_strategy
    }

    /// Whether a subscriber token belongs to a live port of this service.
    pub open spec fn subscriber_token_valid(&self, t: &Subscriber) -> bool {
        &&& self.sub_live(t.handle as int)
        &&& self.sub_details(t.handle as int).subscriber_id == t.subscriber_id
        &&& self.sub_buffer(t.handle as int) == t.buffer_size as int
    }

    /// Whether an uninitialised sample token stands for an outstanding loan.
    pub open spec fn uninit_sample_valid(&self, s: &SampleMutUninit) -> bool {
        self.pub_live(s.publisher as int) && self.loaned(s.publisher as int, s.slot as int)
    }

    /// Whether an initialised sample token stands for an outstanding loan.
    pub open spec fn init_sample_valid(&self, s: &SampleMut) -> bool {
        self.pub_live(s.publisher as int) && self.loaned(s.publisher as int, s.slot as int)
    }

    /// Whether a received sample token stands for a read borrow that is still
    /// outstanding.
    pub open spec fn recv_sample_valid(&self, s: &Sample) -> bool {
        &&& self.pub_live(s.publisher as int)
        &&& (s.slot as int) < self.num_slots(s.publisher as int)
        &&& self.slot_borrows(s.publisher as int, s.slot as int) >= 1
    }

    /// Whether a queue entry refers to a payload slot of a live publisher.
    pub open spec fn entry_wf(&self, e: QueueEntry) -> bool {
        self.pub_live(e.publisher as int) && (e.slot as int) < self.num_slots(e.publisher as int)
    }

    /// The local invariant of a live publisher port: a sound segment, a
    /// duplicate-free loan list of slots that exist, no more loans than the
    /// port allows, and an identifier below the allocation counter.
    pub(crate) open spec fn pub_port_wf(&self, p: int) -> bool {
        let port = self.pub_ports@[p]->0;
        &&& port.segment.inv()
        &&& indices_distinct(port.loans@)
        &&& forall|k: int|
            0 <= k < port.loans@.len() ==> (port.loans@[k] as int) < port.segment.num_slots()
        &&& port.loans@.len() <= port.max_loaned_samples
        &&& port.details.publisher_id.value() < self.next_port_id
    }

    /// The local invariant of a live subscriber port: a queue within its
    /// buffer size, entries that refer to live slots, a buffer size within
    /// the service limit, and an identifier below the allocation counter.
    pub(crate) open spec fn sub_port_wf(&self, s: int) -> bool {
        let port = self.sub_ports@[s]->0;
        &&& port.details.buffer_size >= 1
        &&& port.details.buffer_size <= self.config.subscriber_max_buffer_size
        &&& port.queue@.len() <= port.details.buffer_size
        &&& forall|k: int| 0 <= k < port.queue@.len() ==> self.entry_wf(#[trigger] port.queue@[k])
        &&& port.details.subscriber_id.value() < self.next_port_id
    }

    /// The reference count of the slot equals the references that exist on
    /// it: one if it is loaned, one per subscriber queue entry, one per read
    /// borrow.
    pub open spec fn slot_accounted(&self, p: int, i: int) -> bool {
        self.slot_refcount(p, i) as int == (if self.loaned(p, i) {
            1int
        } else {
            0int
        }) + self.queue_occurrences(p, i) as int + self.slot_borrows(p, i) as int
    }

    /// A loaned slot is referenced by nothing but its loan: no queue holds it
    /// and no read borrow exists, so its reference count is exactly one.
    pub open spec fn loaned_slot_unshared(&self, p: int, i: int) -> bool {
        self.loaned(p, i) ==> self.queue_occurrences(p, i) == 0 && self.slot_borrows(p, i) == 0
    }

    /// The identifiers of the live ports are pairwise distinct.
    pub(crate) open spec fn ids_unique(&self) -> bool {
        &&& forall|p1: int, p2: int|
            self.pub_live(p1) && self.pub_live(p2) && p1 != p2 ==> #[trigger] self.pub_details(
                p1,
            ).publisher_id.value() != #[trigger] self.pub_details(p2).publisher_id.value()
        &&& forall|s1: int, s2: int|
            self.sub_live(s1) && self.sub_live(s2) && s1 != s2 ==> #[trigger] self.sub_details(
                s1,
            ).subscriber_id.value() != #[trigger] self.sub_details(s2).subscriber_id.value()
    }

    /// The well-formedness invariant of the service. Every constructor
    /// establishes it, every operation preserves it.
    pub closed spec fn wf(&self) -> bool {
        &&& self.config.subscriber_max_buffer_size >= 1
        &&& self.config.max_subscribers < u64::MAX
        &&& self.pub_ports@.len() == self.config.max_publishers
        &&& self.sub_ports@.len() == self.config.max_subscribers
        &&& self.dynamic.inv()
        &&& self.dynamic.publishers_view().len() == self.config.max_publishers
        &&& self.dynamic.subscribers_view().len() == self.config.max_subscribers
        &&& forall|p: int|
            0 <= p < self.pub_ports@.len() ==> ((#[trigger] self.pub_ports@[p]) is Some
                <==> self.dynamic.publishers_view()[p] is Some)
        &&& forall|p: int|
            0 <= p < self.pub_ports@.len() && self.pub_ports@[p] is Some
                ==> (#[trigger] self.dynamic.publishers_view()[p])->0 == self.pub_ports@[p]->0.details
        &&& forall|s: int|
            0 <= s < self.sub_ports@.len() ==> ((#[trigger] self.sub_ports@[s]) is Some
                <==> self.dynamic.subscribers_view()[s] is Some)
        &&& forall|s: int|
            0 <= s < self.sub_ports@.len() && self.sub_ports@[s] is Some
                ==> (#[trigger] self.dynamic.subscribers_view()[s])->0
                == self.sub_ports@[s]->0.details
        &&& forall|p: int| self.pub_live(p) ==> #[trigger] self.pub_port_wf(p)
        &&& forall|s: int| self.sub_live(s) ==> #[trigger] self.sub_port_wf(s)
        &&& forall|p: int, i: int|
            self.pub_live(p) && 0 <= i < self.num_slots(p) ==> #[trigger] self.slot_accounted(p, i)
        &&& forall|p: int, i: int|
            self.pub_live(p) && 0 <= i < self.num_slots(p) ==> #[trigger] self.loaned_slot_unshared(
                p,
                i,
            )
        &&& self.ids_unique()
    }

    /// Returns the name of the service.
    pub fn name(&self) -> (r: &String)
        ensures
            r@ == self.name_spec(),
    {
        &self.name
    }

    /// Returns the static configuration of the service.
    pub fn static_config(&self) -> (r: StaticConfig)
        ensures
            r == self.config_spec(),
    {
        self.config
    }

    /// Returns the registry of the live endpoints of the service.
    pub fn dynamic_config(&self) -> (r: &DynamicConfig)
        ensures
            r.publishers_view() == self.registry_publishers(),
            r.subscribers_view() == self.registry_subscribers(),
            self.wf() ==> r.inv(),
    {
        &self.dynamic
    }

    /// Returns how many publisher ports are currently connected.
    pub fn number_of_publishers(&self) -> (r: usize)
        requires
            self.wf(),
        ensures
            r == occupied_count(self.registry_publishers()),
    {
        self.dynamic.number_of_publishers()
    }

    /// Returns how many subscriber ports are currently connected.
    pub fn number_of_subscribers(&self) -> (r: usize)
        requires
            self.wf(),
        ensures
            r == occupied_count(self.registry_subscribers()),
    {
        self.dynamic.number_of_subscribers()
    }
}

/// Builder of a publish/subscribe service.
#[derive(Debug)]
pub struct ServiceBuilder {
    pub(crate) name: String,
    pub(crate) max_publishers: usize,
    pub(crate) max_subscribers: usize,
    pub(crate) subscriber_max_buffer_size: usize,
    pub(crate) enable_safe_overflow: bool,
    pub(crate) type_detail: TypeDetail,
}

impl ServiceBuilder {
    /// The name the service will carry.
    pub closed spec fn name_spec(&self) -> Seq<char> {
        self.name@
    }

    /// How many publishers the service will support.
    pub closed spec fn max_publishers_spec(&self) -> int {
        self.max_publishers as int
    }

    /// How many subscribers the service will support.
    pub closed spec fn max_subscribers_spec(&self) -> int {
        self.max_subscribers as int
    }

    /// The largest subscriber buffer the service will support.
    pub closed spec fn subscriber_max_buffer_size_spec(&self) -> int {
        self.subscriber_max_buffer_size as int
    }

    /// Whether a full subscriber queue will evict its oldest entry.
    pub closed spec fn enable_safe_overflow_spec(&self) -> bool {
        self.enable_safe_overflow
    }

    /// The payload type layout of the service.
    pub closed spec fn type_detail_spec(&self) -> TypeDetail {
        self.type_detail
    }

    /// Creates a builder with the default service settings and a payload
    /// layout of one eight-byte fixed-size value.
    pub fn new(name: String) -> (r: ServiceBuilder)
        ensures
            r.name_spec() == name@,
            r.max_publishers_spec() == 2,
            r.max_subscribers_spec() == 8,
            r.subscriber_max_buffer_size_spec() == 2,
            r.enable_safe_overflow_spec() == true,
            r.type_detail_spec() == (TypeDetail {
                size: 8usize,
                alignment: 8usize,
                variant: TypeVariant::FixedSize,
            }),
    {
        ServiceBuilder {
            name,
            max_publishers: 2,
            max_subscribers: 8,
            subscriber_max_buffer_size: 2,
            enable_safe_overflow: true,
            type_detail: TypeDetail { size: 8, alignment: 8, variant: TypeVariant::FixedSize },
        }
    }

    /// Defines how many publishers the service supports at most.
    pub fn max_publishers(self, value: usize) -> (r: Self)
        ensures
            r.max_publishers_spec() == value as int,
            r.name_spec() == self.name_spec(),
            r.max_subscribers_spec() == self.max_subscribers_spec(),
            r.subscriber_max_buffer_size_spec() == self.subscriber_max_buffer_size_spec(),
            r.enable_safe_overflow_spec() == self.enable_safe_overflow_spec(),
            r.type_detail_spec() == self.type_detail_spec(),
    {
        ServiceBuilder { max_publishers: value, ..self }
    }

    /// Defines how many subscribers the service supports at most.
    pub fn max_subscribers(self, value: usize) -> (r: Self)
        ensures
            r.max_subscribers_spec() == value as int,
            r.name_spec() == self.name_spec(),
            r.max_publishers_spec() == self.max_publishers_spec(),
            r.subscriber_max_buffer_size_spec() == self.subscriber_max_buffer_size_spec(),
            r.enable_safe_overflow_spec() == self.enable_safe_overflow_spec(),
            r.type_detail_spec() == self.type_detail_spec(),
    {
        ServiceBuilder { max_subscribers: value, ..self }
    }

    /// Defines the largest receive buffer a subscriber of the service may
    /// have. The smallest possible value is `1`.
    pub fn subscriber_max_buffer_size(self, value: usize) -> (r: Self)
        ensures
            r.subscriber_max_buffer_size_spec() == (if value >= 1 {
                value as int
            } else {
                1int
            }),
            r.name_spec() == self.name_spec(),
            r.max_publishers_spec() == self.max_publishers_spec(),
            r.max_subscribers_spec() == self.max_subscribers_spec(),
            r.enable_safe_overflow_spec() == self.enable_safe_overflow_spec(),
            r.type_detail_spec() == self.type_detail_spec(),
    {
        let clamped = if value >= 1 {
            value
        } else {
            1
        };
        ServiceBuilder { subscriber_max_buffer_size: clamped, ..self }
    }

    /// Defines whether a full subscriber queue evicts its oldest entry to
    /// accept a new one.
    pub fn enable_safe_overflow(self, value: bool) -> (r: Self)
        ensures
            r.enable_safe_overflow_spec() == value,
            r.name_spec() == self.name_spec(),
            r.max_publishers_spec() == self.max_publishers_spec(),
            r.max_subscribers_spec() == self.max_subscribers_spec(),
            r.subscriber_max_buffer_size_spec() == self.subscriber_max_buffer_size_spec(),
            r.type_detail_spec() == self.type_detail_spec(),
    {
        ServiceBuilder { enable_safe_overflow: value, ..self }
    }

    /// Defines the payload type layout of the service.
    pub fn payload_type_details(self, value: TypeDetail) -> (r: Self)
        ensures
            r.type_detail_spec() == value,
            r.name_spec() == self.name_spec(),
            r.max_publishers_spec() == self.max_publishers_spec(),
            r.max_subscribers_spec() == self.max_subscribers_spec(),
            r.subscriber_max_buffer_size_spec() == self.subscriber_max_buffer_size_spec(),
            r.enable_safe_overflow_spec() == self.enable_safe_overflow_spec(),
    {
        ServiceBuilder { type_detail: value, ..self }
    }

    /// Creates the service with the collected settings and no connected
    /// endpoints. The subscriber count bound is a machine limit of the slot
    /// reference counters.
    pub fn create(self) -> (s: Service)
        requires
            self.subscriber_max_buffer_size_spec() >= 1,
            self.max_subscribers_spec() < u64::MAX,
        ensures
            s.wf(),
            s.name_spec() == self.name_spec(),
            s.config_spec().max_publishers as int == self.max_publishers_spec(),
            s.config_spec().max_subscribers as int == self.max_subscribers_spec(),
            s.config_spec().subscriber_max_buffer_size as int
                == self.subscriber_max_buffer_size_spec(),
            s.config_spec().enable_safe_overflow == self.enable_safe_overflow_spec(),
            s.config_spec().type_detail == self.type_detail_spec(),
            s.next_id_spec() == 0,
            forall|p: int| !s.pub_live(p),
            forall|q: int| !s.sub_live(q),
            s.n_publisher_slots() == self.max_publishers_spec(),
            s.n_subscriber_slots() == self.max_subscribers_spec(),
            s.registry_publishers().len() == self.max_publishers_spec(),
            s.registry_subscribers().len() == self.max_subscribers_spec(),
            occupied_count(s.registry_publishers()) == 0,
            occupied_count(s.registry_subscribers()) == 0,
    {
        let config = StaticConfig {
            max_publishers: self.max_publishers,
            max_subscribers: self.max_subscribers,
            subscriber_max_buffer_size: self.subscriber_max_buffer_size,
            enable_safe_overflow: self.enable_safe_overflow,
            type_detail: self.type_detail,
        };
        let settings = DynamicConfigSettings {
            number_of_subscribers: self.max_subscribers,
            number_of_publishers: self.max_publishers,
        };
        let dynamic = DynamicConfig::new(&settings);
        let mut pub_ports: Vec<Option<PublisherPort>> = Vec::new();
        let mut i: usize = 0;
        while i < config.max_publishers
            invariant
                i <= config.max_publishers,
                pub_ports@.len() == i,
                forall|j: int| 0 <= j < i ==> pub_ports@[j] is None,
            decreases config.max_publishers - i,
        {
            pub_ports.push(None);
            i = i + 1;
        }
        let mut sub_ports: Vec<Option<SubscriberPort>> = Vec::new();
        let mut i: usize = 0;
        while i < config.max_subscribers
            invariant
                i <= config.max_subscribers,
                sub_ports@.len() == i,
                forall|j: int| 0 <= j < i ==> sub_ports@[j] is None,
            decreases config.max_subscribers - i,
        {
            sub_ports.push(None);
            i = i + 1;
        }
        Service { name: self.name, config, dynamic, pub_ports, sub_ports, next_port_id: 0 }
    }
}

impl Service {
    /// Whether the publisher at handle `p` already has as many loans
    /// outstanding as it allows.
    pub open spec fn loan_limit_reached(&self, p: int) -> bool {
        self.loans(p).len() >= self.pub_max_loaned(p)
    }

    /// Whether the data segment of the publisher at handle `p` has no free
    /// slot and cannot grow further.
    pub open spec fn loan_out_of_memory(&self, p: int) -> bool {
        self.seg_free_len(p) == 0 && self.num_slots(p) >= self.seg_capacity(p)
    }

    /// Whether a loan of `n` elements is rejected for its size: a fixed-size
    /// payload permits exactly one element per loan, and a slice loan cannot
    /// exceed the publisher's maximum slice length.
    pub open spec fn loan_size_rejected(&self, p: int, n: int) -> bool {
        (self.config_spec().type_detail.variant == TypeVariant::FixedSize && n != 1) || n
            > self.pub_details(p).max_slice_len
    }

    /// Whether a send of publisher `p` would block in this state: the
    /// delivery policy is to block, safe overflow is disabled, and some live
    /// subscriber queue is full.
    pub open spec fn send_would_block(&self, p: int) -> bool {
        &&& self.pub_strategy(p) == UnableToDeliverStrategy::Block
        &&& !self.config_spec().enable_safe_overflow
        &&& exists|j: int|
            self.sub_live(j) && (#[trigger] self.queue(j)).len() >= self.sub_buffer(j)
    }
}

/// Removes one occurrence of `value` from a duplicate-free index list.
fn remove_loan(loans: &mut Vec<usize>, value: usize)
    requires
        indices_distinct(old(loans)@),
        index_in(old(loans)@, value as int),
    ensures
        indices_distinct(final(loans)@),
        final(loans)@.len() + 1 == old(loans)@.len(),
        forall|i: int|
            #[trigger] index_in(final(loans)@, i) <==> (index_in(old(loans)@, i) && i != value as int),
{
    let n = loans.len();
    let mut k: usize = 0;
    while k < n
        invariant
            k <= n,
            n == loans@.len(),
            loans@ == old(loans)@,
            indices_distinct(loans@),
            index_in(loans@, value as int),
            forall|j: int| 0 <= j < k ==> loans@[j] != value,
        decreases n - k,
    {
        if loans[k] == value {
            let _ = loans.swap_remove(k);
            proof {
                let ghost pre = old(loans)@;
                let post = loans@;
                assert(post.len() + 1 == pre.len());
                assert forall|i: int| #[trigger] index_in(post, i) implies (index_in(pre, i) && i
                    != value as int) by {
                    let j = choose|j: int| 0 <= j < post.len() && post[j] as int == i;
                    if j == k {
                        assert(pre[pre.len() - 1] as int == i);
                        if i == value as int {
                            assert(pre[k as int] == value);
                            assert(k as int == pre.len() - 1 || pre[k as int] != pre[pre.len()
                                - 1]);
                        }
                    } else {
                        assert(pre[j] as int == i);
                        assert(pre[j] != value);
                    }
                }
                assert forall|i: int| (index_in(pre, i) && i != value as int) implies #[trigger]
                    index_in(post, i) by {
                    let j = choose|j: int| 0 <= j < pre.len() && pre[j] as int == i;
                    assert(j != k);
                    if j < pre.len() - 1 {
                        assert(post[j] as int == i);
                    } else {
                        assert(k < pre.len() - 1);
                        assert(post[k as int] as int == i);
                    }
                }
                assert forall|a: int, b: int| 0 <= a < b < post.len() implies post[a] != post[b] by {
                    let oa: int = if a == k {
                        pre.len() - 1
                    } else {
                        a
                    };
                    let ob: int = if b == k {
                        pre.len() - 1
                    } else {
                        b
                    };
                    assert(post[a] == pre[oa]);
                    assert(post[b] == pre[ob]);
                }
            }
            return ;
        }
        k = k + 1;
    }
    proof {
        let j = choose|j: int| 0 <= j < loans@.len() && loans@[j] as int == value as int;
        assert(false);
    }
}

/// Builds a payload of `n` default elements.
fn zero_vec(n: usize) -> (r: Vec<u64>)
    ensures
        r@ == Seq::new(n as nat, |i: int| 0u64),
{
    let mut out: Vec<u64> = Vec::new();
    let mut k: usize = 0;
    while k < n
        invariant
            k <= n,
            out@.len() == k,
            forall|j: int| 0 <= j < k ==> out@[j] == 0u64,
        decreases n - k,
    {
        out.push(0);
        k = k + 1;
    }
    proof {
        assert(out@ =~= Seq::new(n as nat, |i: int| 0u64));
    }
    out
}

/// The queue of a subscriber after a publisher delivers the entry `e` to it:
/// a queue with room gains the entry at its back; a full queue evicts its
/// oldest entry first when safe overflow is enabled, and is left unchanged
/// otherwise, so the subscriber loses the sample.
pub open spec fn spec_deliver(q: Seq<QueueEntry>, cap: int, overflow: bool, e: QueueEntry) -> Seq<
    QueueEntry,
> {
    if q.len() < cap {
        q.push(e)
    } else if overflow {
        q.subrange(1, q.len() as int).push(e)
    } else {
        q
    }
}

/// Whether the publisher port at handle `q` is the same in both service
/// states: same liveness, and for a live port the same details, limits,
/// loans and slot states.
pub open spec fn publisher_state_eq(pre: &Service, post: &Service, q: int) -> bool {
    &&& (post.pub_live(q) <==> pre.pub_live(q))
    &&& pre.pub_live(q) ==> {
        &&& post.pub_details(q) == pre.pub_details(q)
        &&& post.pub_max_loaned(q) == pre.pub_max_loaned(q)
        &&& post.pub_strategy(q) == pre.pub_strategy(q)
        &&& post.loans(q) == pre.loans(q)
        &&& post.num_slots(q) == pre.num_slots(q)
        &&& post.seg_capacity(q) == pre.seg_capacity(q)
        &&& post.seg_free_len(q) == pre.seg_free_len(q)
        &&& forall|i: int|
            0 <= i < pre.num_slots(q) ==> {
                &&& post.slot_refcount(q, i) == pre.slot_refcount(q, i)
                &&& post.slot_borrows(q, i) == pre.slot_borrows(q, i)
                &&& post.slot_payload(q, i) == pre.slot_payload(q, i)
            }
    }
}

/// Whether the subscriber port at handle `s` is the same in both service
/// states: same liveness, and for a live port the same details and queue.
pub open spec fn subscriber_state_eq(pre: &Service, post: &Service, s: int) -> bool {
    &&& (post.sub_live(s) <==> pre.sub_live(s))
    &&& pre.sub_live(s) ==> {
        &&& post.sub_details(s) == pre.sub_details(s)
        &&& post.queue(s) == pre.queue(s)
    }
}

/// How many payload slots the data segment of a new publisher gets: room for
/// every subscriber buffer plus the publisher's outstanding loans plus the
/// sample in flight.
pub open spec fn data_segment_slots(cfg: StaticConfig, max_loaned: int) -> int {
    cfg.max_subscribers * cfg.subscriber_max_buffer_size + max_loaned + 1
}

impl PortFactoryPublisher {
    /// How many payload slots the data segment of the new publisher may grow
    /// to on the given service.
    pub open spec fn segment_capacity_spec(&self, cfg: StaticConfig) -> int {
        if self.data_segment_type_spec() == DataSegmentType::Dynamic {
            data_segment_slots(cfg, self.max_loaned_samples_spec()) * (
            if self.max_number_of_segments_spec() == 0 {
                1int
            } else {
                self.max_number_of_segments_spec() as int
            })
        } else {
            data_segment_slots(cfg, self.max_loaned_samples_spec())
        }
    }

    /// Whether the data segment of the new publisher is representable on this
    /// machine.
    pub open spec fn segment_size_ok(&self, cfg: StaticConfig) -> bool {
        data_segment_slots(cfg, self.max_loaned_samples_spec()) <= usize::MAX
            && self.segment_capacity_spec(cfg) <= usize::MAX
    }

    /// Creates a new publisher port on the service for the node, or reports
    /// why none could be created: the service is at its publisher capacity,
    /// or the data segment size is not representable. The identifier bound is
    /// a machine limit of the port identifier counter.
    #[verifier::spinoff_prover]
    pub fn create(self, service: &mut Service, node_id: &NodeId) -> (r: Result<
        Publisher,
        PublisherCreateError,
    >)
        requires
            old(service).wf(),
            old(service).next_id_spec() < u128::MAX,
        ensures
            final(service).wf(),
            final(service).n_publisher_slots() == old(service).n_publisher_slots(),
            final(service).n_subscriber_slots() == old(service).n_subscriber_slots(),
            r is Err ==> *final(service) == *old(service),
            r == Err::<Publisher, PublisherCreateError>(
                PublisherCreateError::ExceedsMaxSupportedPublishers,
            ) <==> occupied_count(old(service).registry_publishers()) >= old(
                service,
            ).n_publisher_slots(),
            r == Err::<Publisher, PublisherCreateError>(
                PublisherCreateError::UnableToCreateDataSegment,
            ) <==> (occupied_count(old(service).registry_publishers()) < old(
                service,
            ).n_publisher_slots() && !self.segment_size_ok(old(service).config_spec())),
            r is Ok <==> (occupied_count(old(service).registry_publishers()) < old(
                service,
            ).n_publisher_slots() && self.segment_size_ok(old(service).config_spec())),
            r matches Ok(t) ==> {
                let h = t.handle_spec();
                &&& 0 <= h < old(service).n_publisher_slots()
                &&& !old(service).pub_live(h)
                &&& final(service).pub_live(h)
                &&& final(service).publisher_token_valid(&t)
                &&& t.id_spec().value() == old(service).next_id_spec()
                &&& t.max_loaned_spec() == self.max_loaned_samples_spec()
                &&& t.strategy_spec() == self.strategy_spec()
                &&& final(service).next_id_spec() == old(service).next_id_spec() + 1
                &&& final(service).pub_details(h) == (PublisherDetails {
                    publisher_id: t.id_spec(),
                    node_id: *node_id,
                    number_of_samples: data_segment_slots(
                        old(service).config_spec(),
                        self.max_loaned_samples_spec(),
                    ) as usize,
                    max_slice_len: self.max_slice_len_spec() as usize,
                    data_segment_type: self.data_segment_type_spec(),
                    max_number_of_segments: self.max_number_of_segments_spec(),
                    owner_uid: self.owner_uid_spec(),
                    group_gid: self.group_gid_spec(),
                    mode: self.mode_spec(),
                })
                &&& final(service).loans(h) == Seq::<usize>::empty()
                &&& final(service).num_slots(h) == data_segment_slots(
                    old(service).config_spec(),
                    self.max_loaned_samples_spec(),
                )
                &&& final(service).seg_free_len(h) == data_segment_slots(
                    old(service).config_spec(),
                    self.max_loaned_samples_spec(),
                )
                &&& final(service).seg_capacity(h) == self.segment_capacity_spec(
                    old(service).config_spec(),
                )
                &&& forall|j: int|
                    0 <= j < final(service).num_slots(h) ==> final(service).slot_refcount(h, j)
                        == 0 && final(service).slot_borrows(h, j) == 0
                &&& final(service).pub_max_loaned(h) == self.max_loaned_samples_spec()
                &&& final(service).pub_strategy(h) == self.strategy_spec()
                &&& occupied_count(final(service).registry_publishers()) == occupied_count(
                    old(service).registry_publishers(),
                ) + 1
                &&& final(service).registry_publishers() == old(
                    service,
                ).registry_publishers().update(h, Some(final(service).pub_details(h)))
                &&& forall|q: int|
                    q != h ==> #[trigger] publisher_state_eq(old(service), final(service), q)
                &&& forall|s: int| #[trigger] subscriber_state_eq(old(service), final(service), s)
                &&& final(service).registry_subscribers() == old(service).registry_subscribers()
                &&& final(service).config_spec() == old(service).config_spec()
            },
    {
        let cfg = service.config;
        let n_now = service.dynamic.number_of_publishers();
        if n_now >= cfg.max_publishers {
            proof {
                crate::container::lemma_occupied_count_le_len(service.dynamic.publishers_view());
            }
            return Err(PublisherCreateError::ExceedsMaxSupportedPublishers);
        }
        let ns_opt = match cfg.max_subscribers.checked_mul(cfg.subscriber_max_buffer_size) {
            Some(x) => match x.checked_add(self.max_loaned_samples) {
                Some(y) => y.checked_add(1),
                None => None,
            },
            None => None,
        };
        let ns = match ns_opt {
            Some(v) => v,
            None => {
                return Err(PublisherCreateError::UnableToCreateDataSegment);
            },
        };
        let segs: u8 = if self.max_number_of_segments == 0 {
            1
        } else {
            self.max_number_of_segments
        };
        let total = if self.data_segment_type == DataSegmentType::Dynamic {
            match ns.checked_mul(segs as usize) {
                Some(v) => v,
                None => {
                    return Err(PublisherCreateError::UnableToCreateDataSegment);
                },
            }
        } else {
            ns
        };
        assert(ns <= total) by {
            if self.data_segment_type == DataSegmentType::Dynamic {
                assert(ns * (segs as int) >= ns * 1) by (nonlinear_arith)
                    requires
                        segs >= 1,
                        ns >= 0,
                ;
            }
        };
        let id_value = service.next_port_id;
        let publisher_id = UniquePublisherId::new(id_value);
        let details = PublisherDetails {
            publisher_id,
            node_id: *node_id,
            number_of_samples: ns,
            max_slice_len: self.initial_max_slice_len,
            data_segment_type: self.data_segment_type,
            max_number_of_segments: self.max_number_of_segments,
            owner_uid: self.owner_uid,
            group_gid: self.group_gid,
            mode: self.mode,
        };
        let handle_opt = service.dynamic.add_publisher_id(details);
        let h = match handle_opt {
            Some(hh) => hh.value(),
            None => {
                proof {
                    assert(false);
                }
                0
            },
        };
        let segment = DataSegment::new(ns, total);
        let port = PublisherPort {
            details,
            max_loaned_samples: self.max_loaned_samples,
            unable_to_deliver_strategy: self.unable_to_deliver_strategy,
            segment,
            loans: Vec::new(),
        };
        service.pub_ports[h] = Some(port);
        service.next_port_id = id_value + 1;
        let token = Publisher {
            handle: h,
            publisher_id,
            max_loaned_samples: self.max_loaned_samples,
            unable_to_deliver_strategy: self.unable_to_deliver_strategy,
        };
        proof {
            let pre = old(service);
            let post = &*service;
            let h_i = h as int;
            assert(post.pub_ports@ == pre.pub_ports@.update(h_i, post.pub_ports@[h_i]));
            assert forall|p2: int| post.pub_live(p2) implies #[trigger] post.pub_port_wf(p2) by {
                if p2 != h_i {
                    assert(pre.pub_port_wf(p2));
                }
            }
            assert forall|s2: int| post.sub_live(s2) implies #[trigger] post.sub_port_wf(s2) by {
                assert(pre.sub_port_wf(s2));
                let q = pre.sub_ports@[s2]->0.queue@;
                assert forall|k: int| 0 <= k < q.len() implies post.entry_wf(#[trigger] q[k]) by {
                    assert(pre.entry_wf(q[k]));
                }
            }
            assert forall|p2: int, i: int|
                post.pub_live(p2) && 0 <= i < post.num_slots(p2) implies #[trigger] post
                .slot_accounted(p2, i) by {
                if p2 == h_i {
                    assert forall|j: int|
                        0 <= j < post.sub_ports@.len() implies qcount(
                        #[trigger] post.sub_ports@[j],
                        p2,
                        i,
                    ) == 0 by {
                        match post.sub_ports@[j] {
                            Some(sp) => {
                                assert(pre.sub_port_wf(j));
                                assert forall|k: int|
                                    0 <= k < sp.queue@.len() implies !((
                                    #[trigger] sp.queue@[k]).publisher as int == p2
                                    && sp.queue@[k].slot as int == i) by {
                                    assert(pre.entry_wf(sp.queue@[k]));
                                }
                                lemma_count_entry_zero(sp.queue@, p2, i);
                            },
                            None => {},
                        }
                    }
                    lemma_total_occ_zero(post.sub_ports@, p2, i);
                } else {
                    assert(pre.slot_accounted(p2, i));
                }
            }
            assert forall|p2: int, i: int|
                post.pub_live(p2) && 0 <= i < post.num_slots(p2) implies #[trigger] post
                .loaned_slot_unshared(p2, i) by {
                if p2 != h_i {
                    assert(pre.loaned_slot_unshared(p2, i));
                    assert(pre.slot_accounted(p2, i));
                }
            }
            assert(post.ids_unique()) by {
                assert forall|p1: int, p2: int|
                    post.pub_live(p1) && post.pub_live(p2) && p1 != p2 implies #[trigger] post
                    .pub_details(p1).publisher_id.value() != #[trigger] post.pub_details(
                    p2,
                ).publisher_id.value() by {
                    if p1 == h_i {
                        assert(pre.pub_port_wf(p2));
                    } else if p2 == h_i {
                        assert(pre.pub_port_wf(p1));
                    } else {
                        assert(pre.pub_details(p1).publisher_id.value() != pre.pub_details(
                            p2,
                        ).publisher_id.value());
                    }
                }
                assert forall|s1: int, s2: int|
                    post.sub_live(s1) && post.sub_live(s2) && s1 != s2 implies #[trigger] post
                    .sub_details(s1).subscriber_id.value() != #[trigger] post.sub_details(
                    s2,
                ).subscriber_id.value() by {
                    assert(pre.sub_details(s1).subscriber_id.value() != pre.sub_details(
                        s2,
                    ).subscriber_id.value());
                }
            }
            assert(post.wf());
            assert forall|q: int| q != h_i implies #[trigger] publisher_state_eq(pre, post, q) by {}
            assert forall|s2: int| #[trigger] subscriber_state_eq(pre, post, s2) by {}
        }
        Ok(token)
    }
}

impl PortFactorySubscriber {
    /// The buffer size the new subscriber will use on a service with the
    /// given configuration: the requested one, or the service default.
    pub open spec fn requested_buffer_size(&self, cfg: StaticConfig) -> int {
        match self.buffer_size_spec() {
            Some(b) => b as int,
            None => cfg.subscriber_max_buffer_size as int,
        }
    }

    /// Creates a new subscriber port on the service for the node, or reports
    /// why none could be created: the requested buffer size is over the
    /// service limit, or the service is at its subscriber capacity. The
    /// identifier bound is a machine limit of the port identifier counter.
    #[verifier::spinoff_prover]
    pub fn create(self, service: &mut Service, node_id: &NodeId) -> (r: Result<
        Subscriber,
        SubscriberCreateError,
    >)
        requires
            old(service).wf(),
            old(service).next_id_spec() < u128::MAX,
            self.buffer_size_spec() is Some ==> self.buffer_size_spec()->0 >= 1,
        ensures
            final(service).wf(),
            final(service).n_publisher_slots() == old(service).n_publisher_slots(),
            final(service).n_subscriber_slots() == old(service).n_subscriber_slots(),
            r is Err ==> *final(service) == *old(service),
            r == Err::<Subscriber, SubscriberCreateError>(
                SubscriberCreateError::BufferSizeExceedsMaxSupportedBufferSizeOfService,
            ) <==> self.requested_buffer_size(old(service).config_spec()) > old(
                service,
            ).config_spec().subscriber_max_buffer_size,
            r == Err::<Subscriber, SubscriberCreateError>(
                SubscriberCreateError::ExceedsMaxSupportedSubscribers,
            ) <==> (self.requested_buffer_size(old(service).config_spec()) <= old(
                service,
            ).config_spec().subscriber_max_buffer_size && occupied_count(
                old(service).registry_subscribers(),
            ) >= old(service).n_subscriber_slots()),
            r is Ok <==> (self.requested_buffer_size(old(service).config_spec()) <= old(
                service,
            ).config_spec().subscriber_max_buffer_size && occupied_count(
                old(service).registry_subscribers(),
            ) < old(service).n_subscriber_slots()),
            r matches Ok(t) ==> {
                let h = t.handle_spec();
                &&& 0 <= h < old(service).n_subscriber_slots()
                &&& !old(service).sub_live(h)
                &&& final(service).sub_live(h)
                &&& final(service).subscriber_token_valid(&t)
                &&& t.id_spec().value() == old(service).next_id_spec()
                &&& t.buffer_size_spec() == self.requested_buffer_size(old(service).config_spec())
                &&& final(service).next_id_spec() == old(service).next_id_spec() + 1
                &&& final(service).queue(h) == Seq::<QueueEntry>::empty()
                &&& final(service).sub_buffer(h) == t.buffer_size_spec()
                &&& final(service).sub_details(h) == (SubscriberDetails {
                    subscriber_id: t.id_spec(),
                    node_id: *node_id,
                    buffer_size: self.requested_buffer_size(old(service).config_spec()) as usize,
                    owner_uid: (match self.owner_uid_spec() {
                        Some(u) => u,
                        None => 0u32,
                    }),
                    group_gid: (match self.group_gid_spec() {
                        Some(g) => g,
                        None => 0u32,
                    }),
                    mode: (match self.mode_spec() {
                        Some(m) => m,
                        None => 0o640u16,
                    }),
                })
                &&& occupied_count(final(service).registry_subscribers()) == occupied_count(
                    old(service).registry_subscribers(),
                ) + 1
                &&& final(service).registry_subscribers() == old(
                    service,
                ).registry_subscribers().update(h, Some(final(service).sub_details(h)))
                &&& forall|q: int| #[trigger] publisher_state_eq(old(service), final(service), q)
                &&& forall|s: int|
                    s != h ==> #[trigger] subscriber_state_eq(old(service), final(service), s)
                &&& final(service).registry_publishers() == old(service).registry_publishers()
                &&& final(service).config_spec() == old(service).config_spec()
            },
    {
        let cfg = service.config;
        let buffer = match self.buffer_size {
            Some(b) => b,
            None => cfg.subscriber_max_buffer_size,
        };
        if buffer > cfg.subscriber_max_buffer_size {
            return Err(SubscriberCreateError::BufferSizeExceedsMaxSupportedBufferSizeOfService);
        }
        let n_now = service.dynamic.number_of_subscribers();
        if n_now >= cfg.max_subscribers {
            proof {
                crate::container::lemma_occupied_count_le_len(service.dynamic.subscribers_view());
            }
            return Err(SubscriberCreateError::ExceedsMaxSupportedSubscribers);
        }
        let id_value = service.next_port_id;
        let subscriber_id = UniqueSubscriberId::new(id_value);
        let details = SubscriberDetails {
            subscriber_id,
            node_id: *node_id,
            buffer_size: buffer,
            owner_uid: match self.owner_uid {
                Some(u) => u,
                None => 0,
            },
            group_gid: match self.group_gid {
                Some(g) => g,
                None => 0,
            },
            mode: match self.mode {
                Some(m) => m,
                None => 0o640,
            },
        };
        let handle_opt = service.dynamic.add_subscriber_id(details);
        let h = match handle_opt {
            Some(hh) => hh.value(),
            None => {
                proof {
                    assert(false);
                }
                0
            },
        };
        let port = SubscriberPort { details, queue: Vec::new() };
        service.sub_ports[h] = Some(port);
        service.next_port_id = id_value + 1;
        let token = Subscriber { handle: h, subscriber_id, buffer_size: buffer };
        proof {
            let pre = old(service);
            let post = &*service;
            let h_i = h as int;
            assert(post.sub_ports@ == pre.sub_ports@.update(h_i, post.sub_ports@[h_i]));
            assert forall|p2: int| post.pub_live(p2) implies #[trigger] post.pub_port_wf(p2) by {
                assert(pre.pub_port_wf(p2));
            }
            assert forall|s2: int| post.sub_live(s2) implies #[trigger] post.sub_port_wf(s2) by {
                if s2 != h_i {
                    assert(pre.sub_port_wf(s2));
                    let q = pre.sub_ports@[s2]->0.queue@;
                    assert forall|k: int| 0 <= k < q.len() implies post.entry_wf(
                        #[trigger] q[k],
                    ) by {
                        assert(pre.entry_wf(q[k]));
                    }
                } else {
                    assert(post.sub_ports@[h_i]->0.queue@.len() == 0);
                    assert(post.sub_ports@[h_i]->0.details.buffer_size >= 1);
                    assert(post.sub_ports@[h_i]->0.details.subscriber_id.value()
                        < post.next_port_id);
                }
            }
            assert forall|p2: int, i: int|
                post.pub_live(p2) && 0 <= i < post.num_slots(p2) implies #[trigger] post
                .slot_accounted(p2, i) by {
                assert(pre.slot_accounted(p2, i));
                lemma_total_occ_update(pre.sub_ports@, h_i, post.sub_ports@[h_i], p2, i);
            }
            assert forall|p2: int, i: int|
                post.pub_live(p2) && 0 <= i < post.num_slots(p2) implies #[trigger] post
                .loaned_slot_unshared(p2, i) by {
                assert(pre.loaned_slot_unshared(p2, i));
                assert(pre.slot_accounted(p2, i));
                lemma_total_occ_update(pre.sub_ports@, h_i, post.sub_ports@[h_i], p2, i);
            }
            assert(post.ids_unique()) by {
                assert forall|p1: int, p2: int|
                    post.pub_live(p1) && post.pub_live(p2) && p1 != p2 implies #[trigger] post
                    .pub_details(p1).publisher_id.value() != #[trigger] post.pub_details(
                    p2,
                ).publisher_id.value() by {
                    assert(pre.pub_details(p1).publisher_id.value() != pre.pub_details(
                        p2,
                    ).publisher_id.value());
                }
                assert forall|s1: int, s2: int|
                    post.sub_live(s1) && post.sub_live(s2) && s1 != s2 implies #[trigger] post
                    .sub_details(s1).subscriber_id.value() != #[trigger] post.sub_details(
                    s2,
                ).subscriber_id.value() by {
                    if s1 == h_i {
                        assert(pre.sub_port_wf(s2));
                    } else if s2 == h_i {
                        assert(pre.sub_port_wf(s1));
                    } else {
                        assert(pre.sub_details(s1).subscriber_id.value() != pre.sub_details(
                            s2,
                        ).subscriber_id.value());
                    }
                }
            }
            assert(post.wf());
            assert forall|q: int| #[trigger] publisher_state_eq(pre, post, q) by {}
            assert forall|s2: int| s2 != h_i implies #[trigger] subscriber_state_eq(
                pre,
                post,
                s2,
            ) by {}
        }
        Ok(token)
    }
}

impl Service {
    /// Acquires a payload slot from the publisher's data segment and records
    /// the loan. The slot content is left as it is: the caller decides
    /// whether to fill it.
    #[verifier::spinoff_prover]
    fn loan_raw(&mut self, publisher: &Publisher, elements: usize) -> (r: Result<
        SampleMutUninit,
        LoanError,
    >)
        requires
            old(self).wf(),
            old(self).publisher_token_valid(publisher),
        ensures
            final(self).wf(),
            final(self).publisher_token_valid(publisher),
            r == Err::<SampleMutUninit, LoanError>(LoanError::ExceedsMaxLoans)
                <==> old(self).loan_limit_reached(publisher.handle_spec()),
            r == Err::<SampleMutUninit, LoanError>(LoanError::OutOfMemory) <==> (!old(
                self,
            ).loan_limit_reached(publisher.handle_spec()) && old(self).loan_out_of_memory(
                publisher.handle_spec(),
            )),
            r is Ok <==> (!old(self).loan_limit_reached(publisher.handle_spec()) && !old(
                self,
            ).loan_out_of_memory(publisher.handle_spec())),
            r is Err ==> *final(self) == *old(self),
            r matches Ok(s) ==> {
                let p = publisher.handle_spec();
                let i = s.slot as int;
                &&& s.publisher == publisher.handle
                &&& s.number_of_elements == elements
                &&& !old(self).loaned(p, i)
                &&& final(self).loaned(p, i)
                &&& final(self).loans(p) == old(self).loans(p).push(s.slot)
                &&& final(self).loans(p).len() == old(self).loans(p).len() + 1
                &&& 0 <= i < final(self).num_slots(p)
                &&& old(self).num_slots(p) <= final(self).num_slots(p) <= old(self).num_slots(p)
                    + 1
                &&& final(self).slot_refcount(p, i) == 1
                &&& final(self).slot_borrows(p, i) == 0
                &&& final(self).queue_occurrences(p, i) == 0
                &&& i < old(self).num_slots(p) ==> old(self).slot_refcount(p, i) == 0 && old(
                    self,
                ).slot_borrows(p, i) == 0
                &&& forall|q2: int, i2: int|
                    final(self).queue_occurrences(q2, i2) == old(self).queue_occurrences(q2, i2)
                &&& forall|j: int|
                    0 <= j < old(self).num_slots(p) && j != i ==> {
                        &&& final(self).slot_refcount(p, j) == old(self).slot_refcount(p, j)
                        &&& final(self).slot_borrows(p, j) == old(self).slot_borrows(p, j)
                        &&& final(self).slot_payload(p, j) == old(self).slot_payload(p, j)
                    }
                &&& i < old(self).num_slots(p) ==> final(self).slot_payload(p, i) == old(
                    self,
                ).slot_payload(p, i)
                &&& final(self).pub_details(p) == old(self).pub_details(p)
                &&& final(self).pub_max_loaned(p) == old(self).pub_max_loaned(p)
                &&& final(self).pub_strategy(p) == old(self).pub_strategy(p)
                &&& final(self).seg_capacity(p) == old(self).seg_capacity(p)
                &&& forall|q: int|
                    q != p ==> #[trigger] publisher_state_eq(old(self), final(self), q)
                &&& forall|s2: int| #[trigger] subscriber_state_eq(old(self), final(self), s2)
                &&& final(self).registry_publishers() == old(self).registry_publishers()
                &&& final(self).registry_subscribers() == old(self).registry_subscribers()
                &&& final(self).config_spec() == old(self).config_spec()
                &&& final(self).next_id_spec() == old(self).next_id_spec()
            },
    {
        let p = publisher.handle;
        let (loans_len, max_loaned, free_len, slot_cnt, seg_cap) = match &self.pub_ports[p] {
            Some(port) => (
                port.loans.len(),
                port.max_loaned_samples,
                port.segment.free_count(),
                port.segment.slot_count(),
                port.segment.capacity_count(),
            ),
            None => {
                proof {
                    assert(false);
                }
                (0, 0, 0, 0, 0)
            },
        };
        if loans_len >= max_loaned {
            return Err(LoanError::ExceedsMaxLoans);
        }
        if free_len == 0 && slot_cnt >= seg_cap {
            return Err(LoanError::OutOfMemory);
        }
        let mut out_slot: usize = 0;
        match &mut self.pub_ports[p] {
            Some(port) => {
                proof {
                    assert(old(self).pub_port_wf(p as int));
                }
                match port.segment.acquire() {
                    Some(slot) => {
                        port.loans.push(slot);
                        out_slot = slot;
                    },
                    None => {
                        proof {
                            assert(false);
                        }
                    },
                }
            },
            None => {
                proof {
                    assert(false);
                }
            },
        }
        proof {
            let pre = old(self);
            let post = &*self;
            let p_i = p as int;
            let s_i = out_slot as int;
            assert(post.pub_ports@ == pre.pub_ports@.update(p_i, post.pub_ports@[p_i]));
            assert(pre.pub_port_wf(p_i));
            // The acquired slot was referenced by nothing in the pre state.
            if s_i < pre.num_slots(p_i) {
                assert(pre.slot_refcount(p_i, s_i) == 0);
                assert(pre.slot_accounted(p_i, s_i));
                assert(!pre.loaned(p_i, s_i));
                assert(total_occ(pre.sub_ports@, p_i, s_i) == 0);
                assert(pre.slot_borrows(p_i, s_i) == 0);
            } else {
                assert(s_i == pre.num_slots(p_i));
                if index_in(pre.loans(p_i), s_i) {
                    let k = choose|k: int|
                        0 <= k < pre.loans(p_i).len() && pre.loans(p_i)[k] as int == s_i;
                    assert(false);
                }
                assert forall|j: int|
                    0 <= j < pre.sub_ports@.len() implies qcount(
                    #[trigger] pre.sub_ports@[j],
                    p_i,
                    s_i,
                ) == 0 by {
                    match pre.sub_ports@[j] {
                        Some(sp) => {
                            assert(pre.sub_port_wf(j));
                            assert forall|k: int|
                                0 <= k < sp.queue@.len() implies !((
                                #[trigger] sp.queue@[k]).publisher as int == p_i
                                && sp.queue@[k].slot as int == s_i) by {
                                assert(pre.entry_wf(sp.queue@[k]));
                            }
                            lemma_count_entry_zero(sp.queue@, p_i, s_i);
                        },
                        None => {},
                    }
                }
                lemma_total_occ_zero(pre.sub_ports@, p_i, s_i);
            }
            assert(!pre.loaned(p_i, s_i));
            assert(total_occ(pre.sub_ports@, p_i, s_i) == 0);
            // Membership of the loan list only gained the new slot.
            assert(post.loans(p_i) == pre.loans(p_i).push(out_slot));
            assert forall|i: int| #[trigger] index_in(post.loans(p_i), i) implies (index_in(
                pre.loans(p_i),
                i,
            ) || i == s_i) by {
                let k = choose|k: int|
                    0 <= k < post.loans(p_i).len() && post.loans(p_i)[k] as int == i;
                if k < pre.loans(p_i).len() {
                    assert(pre.loans(p_i)[k] as int == i);
                }
            }
            assert forall|i: int| index_in(pre.loans(p_i), i) implies #[trigger] index_in(
                post.loans(p_i),
                i,
            ) by {
                let k = choose|k: int|
                    0 <= k < pre.loans(p_i).len() && pre.loans(p_i)[k] as int == i;
                assert(post.loans(p_i)[k] as int == i);
            }
            assert(index_in(post.loans(p_i), s_i)) by {
                assert(post.loans(p_i)[pre.loans(p_i).len() as int] as int == s_i);
            }
            // Well-formedness of the publisher ports.
            assert forall|p2: int| post.pub_live(p2) implies #[trigger] post.pub_port_wf(p2) by {
                if p2 == p_i {
                    assert forall|a: int, b: int|
                        0 <= a < b < post.loans(p_i).len() implies post.loans(p_i)[a] != post.loans(
                        p_i,
                    )[b] by {
                        if b == post.loans(p_i).len() - 1 {
                            assert(post.loans(p_i)[a] == pre.loans(p_i)[a]);
                            if post.loans(p_i)[a] == out_slot {
                                assert(index_in(pre.loans(p_i), s_i));
                            }
                        }
                    }
                } else {
                    assert(pre.pub_port_wf(p2));
                }
            }
            assert forall|s2: int| post.sub_live(s2) implies #[trigger] post.sub_port_wf(s2) by {
                assert(pre.sub_port_wf(s2));
                let q = pre.sub_ports@[s2]->0.queue@;
                assert forall|k: int| 0 <= k < q.len() implies post.entry_wf(#[trigger] q[k]) by {
                    assert(pre.entry_wf(q[k]));
                }
            }
            // The slot accounting equation.
            assert forall|p2: int, i: int|
                post.pub_live(p2) && 0 <= i < post.num_slots(p2) implies #[trigger] post
                .slot_accounted(p2, i) by {
                if p2 == p_i {
                    if i == s_i {
                        assert(post.slot_refcount(p_i, s_i) == 1);
                        assert(post.loaned(p_i, s_i));
                    } else {
                        assert(pre.slot_accounted(p_i, i));
                        assert(index_in(post.loans(p_i), i) <==> index_in(pre.loans(p_i), i));
                    }
                } else {
                    assert(pre.slot_accounted(p2, i));
                }
            }
            assert forall|p2: int, i: int|
                post.pub_live(p2) && 0 <= i < post.num_slots(p2) implies #[trigger] post
                .loaned_slot_unshared(p2, i) by {
                if p2 == p_i {
                    if i != s_i {
                        assert(pre.loaned_slot_unshared(p_i, i));
                        assert(index_in(post.loans(p_i), i) <==> index_in(pre.loans(p_i), i));
                    }
                } else {
                    assert(pre.loaned_slot_unshared(p2, i));
                }
            }
            assert(post.ids_unique()) by {
                assert forall|p1: int, p2: int|
                    post.pub_live(p1) && post.pub_live(p2) && p1 != p2 implies #[trigger] post
                    .pub_details(p1).publisher_id.value() != #[trigger] post.pub_details(
                    p2,
                ).publisher_id.value() by {
                    assert(pre.pub_details(p1).publisher_id.value() != pre.pub_details(
                        p2,
                    ).publisher_id.value());
                }
                assert forall|s1: int, s2: int|
                    post.sub_live(s1) && post.sub_live(s2) && s1 != s2 implies #[trigger] post
                    .sub_details(s1).subscriber_id.value() != #[trigger] post.sub_details(
                    s2,
                ).subscriber_id.value() by {
                    assert(pre.sub_details(s1).subscriber_id.value() != pre.sub_details(
                        s2,
                    ).subscriber_id.value());
                }
            }
            assert(post.wf());
            assert forall|q: int| q != p_i implies #[trigger] publisher_state_eq(pre, post, q) by {}
            assert forall|s2: int| #[trigger] subscriber_state_eq(pre, post, s2) by {}
        }
        Ok(SampleMutUninit { publisher: p, slot: out_slot, number_of_elements: elements })
    }

    /// Stores a payload in a slot of a publisher's data segment.
    fn set_slot_payload(&mut self, p: usize, slot: usize, data: Vec<u64>)
        requires
            old(self).wf(),
            old(self).pub_live(p as int),
            (slot as int) < old(self).num_slots(p as int),
        ensures
            final(self).wf(),
            final(self).slot_payload(p as int, slot as int) == data@,
            forall|j: int|
                0 <= j < old(self).num_slots(p as int) && j != slot as int ==> final(self).slot_payload(p as int, j) == old(self).slot_payload(p as int, j),
            final(self).loans(p as int) == old(self).loans(p as int),
            final(self).num_slots(p as int) == old(self).num_slots(p as int),
            final(self).seg_capacity(p as int) == old(self).seg_capacity(p as int),
            final(self).seg_free_len(p as int) == old(self).seg_free_len(p as int),
            final(self).pub_details(p as int) == old(self).pub_details(p as int),
            final(self).pub_max_loaned(p as int) == old(self).pub_max_loaned(p as int),
            final(self).pub_strategy(p as int) == old(self).pub_strategy(p as int),
            forall|j: int|
                0 <= j < old(self).num_slots(p as int) ==> {
                    &&& final(self).slot_refcount(p as int, j) == old(self).slot_refcount(
                        p as int,
                        j,
                    )
                    &&& final(self).slot_borrows(p as int, j) == old(self).slot_borrows(p as int, j)
                },
            forall|q2: int, i2: int|
                final(self).queue_occurrences(q2, i2) == old(self).queue_occurrences(q2, i2),
            forall|q: int| q != p as int ==> #[trigger] publisher_state_eq(old(self), final(self), q),
            forall|s2: int| #[trigger] subscriber_state_eq(old(self), final(self), s2),
            final(self).registry_publishers() == old(self).registry_publishers(),
            final(self).registry_subscribers() == old(self).registry_subscribers(),
            final(self).config_spec() == old(self).config_spec(),
            final(self).next_id_spec() == old(self).next_id_spec(),
    {
        match &mut self.pub_ports[p] {
            Some(port) => {
                proof {
                    assert(old(self).pub_port_wf(p as int));
                }
                port.segment.payload_set(slot, data);
            },
            None => {
                proof {
                    assert(false);
                }
            },
        }
        proof {
            let pre = old(self);
            let post = &*self;
            let p_i = p as int;
            assert(post.pub_ports@ == pre.pub_ports@.update(p_i, post.pub_ports@[p_i]));
            assert forall|p2: int| post.pub_live(p2) implies #[trigger] post.pub_port_wf(p2) by {
                assert(pre.pub_port_wf(p2));
            }
            assert forall|s2: int| post.sub_live(s2) implies #[trigger] post.sub_port_wf(s2) by {
                assert(pre.sub_port_wf(s2));
                let q = pre.sub_ports@[s2]->0.queue@;
                assert forall|k: int| 0 <= k < q.len() implies post.entry_wf(#[trigger] q[k]) by {
                    assert(pre.entry_wf(q[k]));
                }
            }
            assert forall|p2: int, i: int|
                post.pub_live(p2) && 0 <= i < post.num_slots(p2) implies #[trigger] post
                .slot_accounted(p2, i) by {
                assert(pre.slot_accounted(p2, i));
            }
            assert forall|p2: int, i: int|
                post.pub_live(p2) && 0 <= i < post.num_slots(p2) implies #[trigger] post
                .loaned_slot_unshared(p2, i) by {
                assert(pre.loaned_slot_unshared(p2, i));
            }
            assert(post.ids_unique()) by {
                assert forall|p1: int, p2: int|
                    post.pub_live(p1) && post.pub_live(p2) && p1 != p2 implies #[trigger] post
                    .pub_details(p1).publisher_id.value() != #[trigger] post.pub_details(
                    p2,
                ).publisher_id.value() by {
                    assert(pre.pub_details(p1).publisher_id.value() != pre.pub_details(
                        p2,
                    ).publisher_id.value());
                }
                assert forall|s1: int, s2: int|
                    post.sub_live(s1) && post.sub_live(s2) && s1 != s2 implies #[trigger] post
                    .sub_details(s1).subscriber_id.value() != #[trigger] post.sub_details(
                    s2,
                ).subscriber_id.value() by {
                    assert(pre.sub_details(s1).subscriber_id.value() != pre.sub_details(
                        s2,
                    ).subscriber_id.value());
                }
            }
            assert(post.wf());
            assert forall|q: int| q != p_i implies #[trigger] publisher_state_eq(pre, post, q) by {}
            assert forall|s2: int| #[trigger] subscriber_state_eq(pre, post, s2) by {}
        }
    }

    /// Gives a loaned slot back without sending it: the loan ends, the slot's
    /// reference count drops to zero and the slot returns to the free list.
    #[verifier::spinoff_prover]
    #[verifier::rlimit(100)]
    fn return_loan(&mut self, p: usize, slot: usize)
        requires
            old(self).wf(),
            old(self).pub_live(p as int),
            old(self).loaned(p as int, slot as int),
        ensures
            final(self).wf(),
            final(self).loans(p as int).len() + 1 == old(self).loans(p as int).len(),
            !final(self).loaned(p as int, slot as int),
            forall|i: int|
                #[trigger] final(self).loaned(p as int, i) <==> (old(self).loaned(p as int, i) && i
                    != slot as int),
            final(self).slot_refcount(p as int, slot as int) == 0,
            final(self).slot_borrows(p as int, slot as int) == old(self).slot_borrows(
                p as int,
                slot as int,
            ),
            final(self).num_slots(p as int) == old(self).num_slots(p as int),
            final(self).seg_capacity(p as int) == old(self).seg_capacity(p as int),
            forall|j: int|
                0 <= j < old(self).num_slots(p as int) && j != slot as int ==> {
                    &&& final(self).slot_refcount(p as int, j) == old(self).slot_refcount(
                        p as int,
                        j,
                    )
                    &&& final(self).slot_borrows(p as int, j) == old(self).slot_borrows(p as int, j)
                    &&& final(self).slot_payload(p as int, j) == old(self).slot_payload(p as int, j)
                },
            final(self).pub_details(p as int) == old(self).pub_details(p as int),
            final(self).pub_max_loaned(p as int) == old(self).pub_max_loaned(p as int),
            final(self).pub_strategy(p as int) == old(self).pub_strategy(p as int),
            forall|q: int| #![auto] final(self).pub_live(q) <==> old(self).pub_live(q),
            forall|q2: int, i2: int|
                final(self).queue_occurrences(q2, i2) == old(self).queue_occurrences(q2, i2),
            forall|q: int| q != p as int ==> #[trigger] publisher_state_eq(old(self), final(self), q),
            forall|s2: int| #[trigger] subscriber_state_eq(old(self), final(self), s2),
            final(self).registry_publishers() == old(self).registry_publishers(),
            final(self).registry_subscribers() == old(self).registry_subscribers(),
            final(self).config_spec() == old(self).config_spec(),
            final(self).next_id_spec() == old(self).next_id_spec(),
    {
        proof {
            let pre = old(self);
            let p_i = p as int;
            let s_i = slot as int;
            assert(pre.pub_port_wf(p_i));
            if index_in(pre.loans(p_i), s_i) {
                let k = choose|k: int|
                    0 <= k < pre.loans(p_i).len() && pre.loans(p_i)[k] as int == s_i;
                assert((pre.loans(p_i)[k] as int) < pre.num_slots(p_i));
            }
            assert(0 <= s_i < pre.num_slots(p_i));
            assert(pre.slot_accounted(p_i, s_i));
            assert(pre.loaned_slot_unshared(p_i, s_i));
            assert(pre.slot_refcount(p_i, s_i) == 1);
        }
        match &mut self.pub_ports[p] {
            Some(port) => {
                remove_loan(&mut port.loans, slot);
                port.segment.release(slot);
            },
            None => {
                proof {
                    assert(false);
                }
            },
        }
        proof {
            let pre = old(self);
            let post = &*self;
            let p_i = p as int;
            let s_i = slot as int;
            assert(post.pub_ports@ == pre.pub_ports@.update(p_i, post.pub_ports@[p_i]));
            assert forall|p2: int| post.pub_live(p2) implies #[trigger] post.pub_port_wf(p2) by {
                if p2 == p_i {
                    assert(pre.pub_port_wf(p_i));
                    assert forall|k: int|
                        0 <= k < post.loans(p_i).len() implies (post.loans(p_i)[k] as int) < post
                        .num_slots(p_i) by {
                        assert(index_in(post.loans(p_i), post.loans(p_i)[k] as int));
                        assert(index_in(pre.loans(p_i), post.loans(p_i)[k] as int));
                        let m = choose|m: int|
                            0 <= m < pre.loans(p_i).len() && pre.loans(p_i)[m] as int == post.loans(
                                p_i,
                            )[k] as int;
                        assert((pre.loans(p_i)[m] as int) < pre.num_slots(p_i));
                    }
                    assert(indices_distinct(post.loans(p_i)));
                    assert(post.pub_ports@[p_i]->0.segment.inv());
                    assert(post.loans(p_i).len() <= post.pub_ports@[p_i]->0.max_loaned_samples);
                    assert(post.pub_ports@[p_i]->0.details.publisher_id.value()
                        < post.next_port_id);
                } else {
                    assert(pre.pub_port_wf(p2));
                }
            }
            assert forall|s2: int| post.sub_live(s2) implies #[trigger] post.sub_port_wf(s2) by {
                assert(pre.sub_port_wf(s2));
                let q = pre.sub_ports@[s2]->0.queue@;
                assert forall|k: int| 0 <= k < q.len() implies post.entry_wf(#[trigger] q[k]) by {
                    assert(pre.entry_wf(q[k]));
                }
            }
            assert forall|p2: int, i: int|
                post.pub_live(p2) && 0 <= i < post.num_slots(p2) implies #[trigger] post
                .slot_accounted(p2, i) by {
                assert(pre.slot_accounted(p2, i));
                if p2 == p_i {
                    if i == s_i {
                        assert(pre.loaned_slot_unshared(p_i, s_i));
                    } else {
                        assert(index_in(post.loans(p_i), i) <==> (index_in(pre.loans(p_i), i) && i
                            != s_i));
                    }
                }
            }
            assert forall|p2: int, i: int|
                post.pub_live(p2) && 0 <= i < post.num_slots(p2) implies #[trigger] post
                .loaned_slot_unshared(p2, i) by {
                assert(pre.loaned_slot_unshared(p2, i));
                if p2 == p_i && i != s_i {
                    assert(index_in(post.loans(p_i), i) <==> (index_in(pre.loans(p_i), i) && i
                        != s_i));
                }
            }
            assert(post.ids_unique()) by {
                assert forall|p1: int, p2: int|
                    post.pub_live(p1) && post.pub_live(p2) && p1 != p2 implies #[trigger] post
                    .pub_details(p1).publisher_id.value() != #[trigger] post.pub_details(
                    p2,
                ).publisher_id.value() by {
                    assert(pre.pub_details(p1).publisher_id.value() != pre.pub_details(
                        p2,
                    ).publisher_id.value());
                }
                assert forall|s1: int, s2: int|
                    post.sub_live(s1) && post.sub_live(s2) && s1 != s2 implies #[trigger] post
                    .sub_details(s1).subscriber_id.value() != #[trigger] post.sub_details(
                    s2,
                ).subscriber_id.value() by {
                    assert(pre.sub_details(s1).subscriber_id.value() != pre.sub_details(
                        s2,
                    ).subscriber_id.value());
                }
            }
            assert(post.wf());
            assert forall|q: int| q != p_i implies #[trigger] publisher_state_eq(pre, post, q) by {}
            assert forall|s2: int| #[trigger] subscriber_state_eq(pre, post, s2) by {}
        }
    }
}

impl Service {
    /// Loans a payload slot for `number_of_elements` elements without
    /// initialising it. The loan counts against the publisher's
    /// `max_loaned_samples`; sending or dropping the sample ends it.
    pub fn loan_slice_uninit(&mut self, publisher: &Publisher, number_of_elements: usize) -> (r:
        Result<SampleMutUninit, LoanError>)
        requires
            old(self).wf(),
            old(self).publisher_token_valid(publisher),
        ensures
            final(self).wf(),
            final(self).publisher_token_valid(publisher),
            r == Err::<SampleMutUninit, LoanError>(LoanError::ExceedsMaxLoanSize) <==> old(
                self,
            ).loan_size_rejected(publisher.handle_spec(), number_of_elements as int),
            r == Err::<SampleMutUninit, LoanError>(LoanError::ExceedsMaxLoans) <==> (!old(
                self,
            ).loan_size_rejected(publisher.handle_spec(), number_of_elements as int) && old(
                self,
            ).loan_limit_reached(publisher.handle_spec())),
            r == Err::<SampleMutUninit, LoanError>(LoanError::OutOfMemory) <==> (!old(
                self,
            ).loan_size_rejected(publisher.handle_spec(), number_of_elements as int) && !old(
                self,
            ).loan_limit_reached(publisher.handle_spec()) && old(self).loan_out_of_memory(
                publisher.handle_spec(),
            )),
            r is Ok <==> (!old(self).loan_size_rejected(
                publisher.handle_spec(),
                number_of_elements as int,
            ) && !old(self).loan_limit_reached(publisher.handle_spec()) && !old(
                self,
            ).loan_out_of_memory(publisher.handle_spec())),
            r is Err ==> *final(self) == *old(self),
            r matches Ok(s) ==> {
                let p = publisher.handle_spec();
                let i = s.slot as int;
                &&& s.publisher == publisher.handle
                &&& s.number_of_elements == number_of_elements
                &&& !old(self).loaned(p, i)
                &&& final(self).loaned(p, i)
                &&& final(self).loans(p) == old(self).loans(p).push(s.slot)
                &&& final(self).loans(p).len() == old(self).loans(p).len() + 1
                &&& 0 <= i < final(self).num_slots(p)
                &&& old(self).num_slots(p) <= final(self).num_slots(p) <= old(self).num_slots(p)
                    + 1
                &&& final(self).slot_refcount(p, i) == 1
                &&& final(self).slot_borrows(p, i) == 0
                &&& final(self).queue_occurrences(p, i) == 0
                &&& i < old(self).num_slots(p) ==> old(self).slot_refcount(p, i) == 0 && old(
                    self,
                ).slot_borrows(p, i) == 0
                &&& forall|j: int|
                    0 <= j < old(self).num_slots(p) && j != i ==> {
                        &&& final(self).slot_refcount(p, j) == old(self).slot_refcount(p, j)
                        &&& final(self).slot_borrows(p, j) == old(self).slot_borrows(p, j)
                        &&& final(self).slot_payload(p, j) == old(self).slot_payload(p, j)
                    }
                &&& final(self).pub_details(p) == old(self).pub_details(p)
                &&& final(self).pub_max_loaned(p) == old(self).pub_max_loaned(p)
                &&& final(self).pub_strategy(p) == old(self).pub_strategy(p)
                &&& final(self).seg_capacity(p) == old(self).seg_capacity(p)
                &&& forall|q: int|
                    q != p ==> #[trigger] publisher_state_eq(old(self), final(self), q)
                &&& forall|s2: int| #[trigger] subscriber_state_eq(old(self), final(self), s2)
                &&& final(self).registry_publishers() == old(self).registry_publishers()
                &&& final(self).registry_subscribers() == old(self).registry_subscribers()
                &&& final(self).config_spec() == old(self).config_spec()
                &&& final(self).next_id_spec() == old(self).next_id_spec()
            },
    {
        let p = publisher.handle;
        if self.config.type_detail.variant == TypeVariant::FixedSize && number_of_elements != 1 {
            return Err(LoanError::ExceedsMaxLoanSize);
        }
        let max_slice = match &self.pub_ports[p] {
            Some(port) => port.details.max_slice_len,
            None => {
                proof {
                    assert(false);
                }
                0
            },
        };
        if number_of_elements > max_slice {
            return Err(LoanError::ExceedsMaxLoanSize);
        }
        self.loan_raw(publisher, number_of_elements)
    }

    /// Loans one payload slot without initialising it.
    pub fn loan_uninit(&mut self, publisher: &Publisher) -> (r: Result<SampleMutUninit, LoanError>)
        requires
            old(self).wf(),
            old(self).publisher_token_valid(publisher),
        ensures
            final(self).wf(),
            final(self).publisher_token_valid(publisher),
            r == Err::<SampleMutUninit, LoanError>(LoanError::ExceedsMaxLoanSize) <==> old(
                self,
            ).loan_size_rejected(publisher.handle_spec(), 1),
            r == Err::<SampleMutUninit, LoanError>(LoanError::ExceedsMaxLoans) <==> (!old(
                self,
            ).loan_size_rejected(publisher.handle_spec(), 1) && old(self).loan_limit_reached(
                publisher.handle_spec(),
            )),
            r == Err::<SampleMutUninit, LoanError>(LoanError::OutOfMemory) <==> (!old(
                self,
            ).loan_size_rejected(publisher.handle_spec(), 1) && !old(self).loan_limit_reached(
                publisher.handle_spec(),
            ) && old(self).loan_out_of_memory(publisher.handle_spec())),
            r is Ok <==> (!old(self).loan_size_rejected(publisher.handle_spec(), 1) && !old(
                self,
            ).loan_limit_reached(publisher.handle_spec()) && !old(self).loan_out_of_memory(
                publisher.handle_spec(),
            )),
            r is Err ==> *final(self) == *old(self),
            r matches Ok(s) ==> {
                let p = publisher.handle_spec();
                let i = s.slot as int;
                &&& s.publisher == publisher.handle
                &&& s.number_of_elements == 1
                &&& !old(self).loaned(p, i)
                &&& final(self).loaned(p, i)
                &&& final(self).loans(p).len() == old(self).loans(p).len() + 1
                &&& 0 <= i < final(self).num_slots(p)
                &&& old(self).num_slots(p) <= final(self).num_slots(p) <= old(self).num_slots(p)
                    + 1
                &&& final(self).slot_refcount(p, i) == 1
                &&& final(self).slot_borrows(p, i) == 0
                &&& final(self).queue_occurrences(p, i) == 0
                &&& i < old(self).num_slots(p) ==> old(self).slot_refcount(p, i) == 0 && old(
                    self,
                ).slot_borrows(p, i) == 0
                &&& forall|j: int|
                    0 <= j < old(self).num_slots(p) && j != i ==> {
                        &&& final(self).slot_refcount(p, j) == old(self).slot_refcount(p, j)
                        &&& final(self).slot_borrows(p, j) == old(self).slot_borrows(p, j)
                        &&& final(self).slot_payload(p, j) == old(self).slot_payload(p, j)
                    }
                &&& final(self).pub_details(p) == old(self).pub_details(p)
                &&& final(self).pub_max_loaned(p) == old(self).pub_max_loaned(p)
                &&& final(self).pub_strategy(p) == old(self).pub_strategy(p)
                &&& final(self).seg_capacity(p) == old(self).seg_capacity(p)
                &&& forall|q: int|
                    q != p ==> #[trigger] publisher_state_eq(old(self), final(self), q)
                &&& forall|s2: int| #[trigger] subscriber_state_eq(old(self), final(self), s2)
                &&& final(self).registry_publishers() == old(self).registry_publishers()
                &&& final(self).registry_subscribers() == old(self).registry_subscribers()
                &&& final(self).config_spec() == old(self).config_spec()
                &&& final(self).next_id_spec() == old(self).next_id_spec()
            },
    {
        self.loan_slice_uninit(publisher, 1)
    }

    /// Loans a payload slot for `number_of_elements` elements, filled with
    /// the default value of the element type.
    pub fn loan_slice(&mut self, publisher: &Publisher, number_of_elements: usize) -> (r: Result<
        SampleMut,
        LoanError,
    >)
        requires
            old(self).wf(),
            old(self).publisher_token_valid(publisher),
        ensures
            final(self).wf(),
            final(self).publisher_token_valid(publisher),
            r == Err::<SampleMut, LoanError>(LoanError::ExceedsMaxLoanSize) <==> old(
                self,
            ).loan_size_rejected(publisher.handle_spec(), number_of_elements as int),
            r == Err::<SampleMut, LoanError>(LoanError::ExceedsMaxLoans) <==> (!old(
                self,
            ).loan_size_rejected(publisher.handle_spec(), number_of_elements as int) && old(
                self,
            ).loan_limit_reached(publisher.handle_spec())),
            r == Err::<SampleMut, LoanError>(LoanError::OutOfMemory) <==> (!old(
                self,
            ).loan_size_rejected(publisher.handle_spec(), number_of_elements as int) && !old(
                self,
            ).loan_limit_reached(publisher.handle_spec()) && old(self).loan_out_of_memory(
                publisher.handle_spec(),
            )),
            r is Ok <==> (!old(self).loan_size_rejected(
                publisher.handle_spec(),
                number_of_elements as int,
            ) && !old(self).loan_limit_reached(publisher.handle_spec()) && !old(
                self,
            ).loan_out_of_memory(publisher.handle_spec())),
            r is Err ==> *final(self) == *old(self),
            r matches Ok(s) ==> {
                let p = publisher.handle_spec();
                let i = s.slot as int;
                &&& s.publisher == publisher.handle
                &&& s.number_of_elements == number_of_elements
                &&& !old(self).loaned(p, i)
                &&& final(self).loaned(p, i)
                &&& final(self).loans(p).len() == old(self).loans(p).len() + 1
                &&& 0 <= i < final(self).num_slots(p)
                &&& old(self).num_slots(p) <= final(self).num_slots(p) <= old(self).num_slots(p)
                    + 1
                &&& final(self).slot_refcount(p, i) == 1
                &&& final(self).slot_borrows(p, i) == 0
                &&& final(self).queue_occurrences(p, i) == 0
                &&& i < old(self).num_slots(p) ==> old(self).slot_refcount(p, i) == 0 && old(
                    self,
                ).slot_borrows(p, i) == 0
                &&& final(self).pub_details(p) == old(self).pub_details(p)
                &&& final(self).pub_max_loaned(p) == old(self).pub_max_loaned(p)
                &&& final(self).pub_strategy(p) == old(self).pub_strategy(p)
                &&& final(self).seg_capacity(p) == old(self).seg_capacity(p)
                &&& final(self).slot_payload(p, i) == (Seq::new(
                    number_of_elements as nat,
                    |k: int| 0u64,
                ))
                &&& forall|j: int|
                    0 <= j < old(self).num_slots(p) && j != i ==> {
                        &&& final(self).slot_refcount(p, j) == old(self).slot_refcount(p, j)
                        &&& final(self).slot_borrows(p, j) == old(self).slot_borrows(p, j)
                        &&& final(self).slot_payload(p, j) == old(self).slot_payload(p, j)
                    }
                &&& forall|q: int|
                    q != p ==> #[trigger] publisher_state_eq(old(self), final(self), q)
                &&& forall|s2: int| #[trigger] subscriber_state_eq(old(self), final(self), s2)
                &&& final(self).registry_publishers() == old(self).registry_publishers()
                &&& final(self).registry_subscribers() == old(self).registry_subscribers()
                &&& final(self).config_spec() == old(self).config_spec()
                &&& final(self).next_id_spec() == old(self).next_id_spec()
            },
    {
        let got = self.loan_slice_uninit(publisher, number_of_elements);
        match got {
            Ok(s) => {
                let ghost mid = *self;
                let data = zero_vec(number_of_elements);
                self.set_slot_payload(s.publisher, s.slot, data);
                proof {
                    let pre = old(self);
                    let post = &*self;
                    let p_i = publisher.handle_spec();
                    assert(data@ =~= Seq::new(number_of_elements as nat, |k: int| 0u64));
                    assert forall|j: int|
                        0 <= j < pre.num_slots(p_i) && j != s.slot as int implies {
                        &&& post.slot_refcount(p_i, j) == pre.slot_refcount(p_i, j)
                        &&& post.slot_borrows(p_i, j) == pre.slot_borrows(p_i, j)
                        &&& post.slot_payload(p_i, j) == pre.slot_payload(p_i, j)
                    } by {
                        let sp = s.publisher as int;
                        assert(mid.slot_refcount(p_i, j) == pre.slot_refcount(p_i, j));
                        assert(mid.slot_borrows(p_i, j) == pre.slot_borrows(p_i, j));
                        assert(mid.slot_payload(p_i, j) == pre.slot_payload(p_i, j));
                        assert(post.slot_refcount(sp, j) == mid.slot_refcount(sp, j));
                        assert(post.slot_borrows(sp, j) == mid.slot_borrows(sp, j));
                        assert(post.slot_payload(sp, j) == mid.slot_payload(sp, j));
                    }
                    assert forall|q: int| q != p_i implies #[trigger] publisher_state_eq(
                        pre,
                        post,
                        q,
                    ) by {
                        assert(publisher_state_eq(pre, &mid, q));
                        assert(publisher_state_eq(&mid, post, q));
                    }
                    assert forall|s2: int| #[trigger] subscriber_state_eq(pre, post, s2) by {
                        assert(subscriber_state_eq(pre, &mid, s2));
                        assert(subscriber_state_eq(&mid, post, s2));
                    }
                }
                Ok(s.assume_init())
            },
            Err(e) => Err(e),
        }
    }

    /// Loans a payload slot for `number_of_elements` elements of a custom
    /// payload type, default-filled, with one payload element per byte of the
    /// type's size. A fixed-size custom payload permits exactly one element
    /// per loan.
    pub fn loan_custom_payload(&mut self, publisher: &Publisher, number_of_elements: usize) -> (r:
        Result<SampleMut, LoanError>)
        requires
            old(self).wf(),
            old(self).publisher_token_valid(publisher),
        ensures
            final(self).wf(),
            final(self).publisher_token_valid(publisher),
            r == Err::<SampleMut, LoanError>(LoanError::ExceedsMaxLoanSize) <==> old(
                self,
            ).loan_size_rejected(publisher.handle_spec(), number_of_elements as int),
            r == Err::<SampleMut, LoanError>(LoanError::ExceedsMaxLoans) <==> (!old(
                self,
            ).loan_size_rejected(publisher.handle_spec(), number_of_elements as int)
                && number_of_elements * old(self).config_spec().type_detail.size <= usize::MAX
                && old(self).loan_limit_reached(publisher.handle_spec())),
            r == Err::<SampleMut, LoanError>(LoanError::OutOfMemory) <==> (!old(
                self,
            ).loan_size_rejected(publisher.handle_spec(), number_of_elements as int) && (
            number_of_elements * old(self).config_spec().type_detail.size > usize::MAX || (!old(
                self,
            ).loan_limit_reached(publisher.handle_spec()) && old(self).loan_out_of_memory(
                publisher.handle_spec(),
            )))),
            r is Err ==> *final(self) == *old(self),
            r matches Ok(s) ==> {
                let p = publisher.handle_spec();
                let i = s.slot as int;
                &&& s.publisher == publisher.handle
                &&& s.number_of_elements == number_of_elements * old(
                    self,
                ).config_spec().type_detail.size
                &&& final(self).loaned(p, i)
                &&& final(self).loans(p).len() == old(self).loans(p).len() + 1
                &&& 0 <= i < final(self).num_slots(p)
                &&& old(self).num_slots(p) <= final(self).num_slots(p) <= old(self).num_slots(p)
                    + 1
                &&& final(self).slot_refcount(p, i) == 1
                &&& final(self).slot_borrows(p, i) == 0
                &&& final(self).pub_details(p) == old(self).pub_details(p)
                &&& final(self).pub_max_loaned(p) == old(self).pub_max_loaned(p)
                &&& final(self).pub_strategy(p) == old(self).pub_strategy(p)
                &&& final(self).slot_payload(p, i) == (Seq::new(
                    (number_of_elements * old(self).config_spec().type_detail.size) as nat,
                    |k: int| 0u64,
                ))
                &&& forall|q: int|
                    q != p ==> #[trigger] publisher_state_eq(old(self), final(self), q)
                &&& forall|s2: int| #[trigger] subscriber_state_eq(old(self), final(self), s2)
                &&& final(self).registry_publishers() == old(self).registry_publishers()
                &&& final(self).registry_subscribers() == old(self).registry_subscribers()
                &&& final(self).config_spec() == old(self).config_spec()
                &&& final(self).next_id_spec() == old(self).next_id_spec()
            },
    {
        let p = publisher.handle;
        if self.config.type_detail.variant == TypeVariant::FixedSize && number_of_elements != 1 {
            return Err(LoanError::ExceedsMaxLoanSize);
        }
        let max_slice = match &self.pub_ports[p] {
            Some(port) => port.details.max_slice_len,
            None => {
                proof {
                    assert(false);
                }
                0
            },
        };
        if number_of_elements > max_slice {
            return Err(LoanError::ExceedsMaxLoanSize);
        }
        let elements = match number_of_elements.checked_mul(self.config.type_detail.size) {
            Some(v) => v,
            None => {
                return Err(LoanError::OutOfMemory);
            },
        };
        let got = self.loan_raw(publisher, elements);
        match got {
            Ok(s) => {
                let ghost mid = *self;
                let data = zero_vec(elements);
                self.set_slot_payload(s.publisher, s.slot, data);
                proof {
                    let pre = old(self);
                    let post = &*self;
                    let p_i = publisher.handle_spec();
                    assert(data@ =~= Seq::new(
                        (number_of_elements * pre.config_spec().type_detail.size) as nat,
                        |k: int| 0u64,
                    ));
                    assert forall|q: int| q != p_i implies #[trigger] publisher_state_eq(
                        pre,
                        post,
                        q,
                    ) by {
                        assert(publisher_state_eq(pre, &mid, q));
                        assert(publisher_state_eq(&mid, post, q));
                    }
                    assert forall|s2: int| #[trigger] subscriber_state_eq(pre, post, s2) by {
                        assert(subscriber_state_eq(pre, &mid, s2));
                        assert(subscriber_state_eq(&mid, post, s2));
                    }
                }
                Ok(s.assume_init())
            },
            Err(e) => Err(e),
        }
    }

    /// Loans one payload slot, filled with the default value of the element
    /// type.
    pub fn loan(&mut self, publisher: &Publisher) -> (r: Result<SampleMut, LoanError>)
        requires
            old(self).wf(),
            old(self).publisher_token_valid(publisher),
        ensures
            final(self).wf(),
            final(self).publisher_token_valid(publisher),
            r == Err::<SampleMut, LoanError>(LoanError::ExceedsMaxLoanSize) <==> old(
                self,
            ).loan_size_rejected(publisher.handle_spec(), 1),
            r == Err::<SampleMut, LoanError>(LoanError::ExceedsMaxLoans) <==> (!old(
                self,
            ).loan_size_rejected(publisher.handle_spec(), 1) && old(self).loan_limit_reached(
                publisher.handle_spec(),
            )),
            r == Err::<SampleMut, LoanError>(LoanError::OutOfMemory) <==> (!old(
                self,
            ).loan_size_rejected(publisher.handle_spec(), 1) && !old(self).loan_limit_reached(
                publisher.handle_spec(),
            ) && old(self).loan_out_of_memory(publisher.handle_spec())),
            r is Ok <==> (!old(self).loan_size_rejected(publisher.handle_spec(), 1) && !old(
                self,
            ).loan_limit_reached(publisher.handle_spec()) && !old(self).loan_out_of_memory(
                publisher.handle_spec(),
            )),
            r is Err ==> *final(self) == *old(self),
            r matches Ok(s) ==> {
                let p = publisher.handle_spec();
                let i = s.slot as int;
                &&& s.publisher == publisher.handle
                &&& s.number_of_elements == 1
                &&& final(self).loaned(p, i)
                &&& !old(self).loaned(p, i)
                &&& final(self).loans(p).len() == old(self).loans(p).len() + 1
                &&& 0 <= i < final(self).num_slots(p)
                &&& old(self).num_slots(p) <= final(self).num_slots(p) <= old(self).num_slots(p)
                    + 1
                &&& final(self).slot_refcount(p, i) == 1
                &&& final(self).slot_borrows(p, i) == 0
                &&& final(self).queue_occurrences(p, i) == 0
                &&& i < old(self).num_slots(p) ==> old(self).slot_refcount(p, i) == 0 && old(
                    self,
                ).slot_borrows(p, i) == 0
                &&& forall|j: int|
                    0 <= j < old(self).num_slots(p) && j != i ==> {
                        &&& final(self).slot_refcount(p, j) == old(self).slot_refcount(p, j)
                        &&& final(self).slot_borrows(p, j) == old(self).slot_borrows(p, j)
                        &&& final(self).slot_payload(p, j) == old(self).slot_payload(p, j)
                    }
                &&& final(self).pub_details(p) == old(self).pub_details(p)
                &&& final(self).pub_max_loaned(p) == old(self).pub_max_loaned(p)
                &&& final(self).pub_strategy(p) == old(self).pub_strategy(p)
                &&& final(self).seg_capacity(p) == old(self).seg_capacity(p)
                &&& final(self).slot_payload(p, i) == seq![0u64]
                &&& forall|q: int|
                    q != p ==> #[trigger] publisher_state_eq(old(self), final(self), q)
                &&& forall|s2: int| #[trigger] subscriber_state_eq(old(self), final(self), s2)
                &&& final(self).registry_publishers() == old(self).registry_publishers()
                &&& final(self).registry_subscribers() == old(self).registry_subscribers()
                &&& final(self).config_spec() == old(self).config_spec()
                &&& final(self).next_id_spec() == old(self).next_id_spec()
            },
    {
        let r = self.loan_slice(publisher, 1);
        proof {
            match &r {
                Ok(s) => {
                    assert(final(self).slot_payload(publisher.handle_spec(), s.slot as int) =~= seq![
                        0u64,
                    ]);
                },
                Err(_) => {},
            }
        }
        r
    }

    /// Writes the payload of an uninitialised one-element sample and yields
    /// the initialised sample, ready to send.
    pub fn write_payload(&mut self, sample: SampleMutUninit, value: u64) -> (r: SampleMut)
        requires
            old(self).wf(),
            old(self).uninit_sample_valid(&sample),
            sample.number_of_elements == 1,
        ensures
            final(self).wf(),
            final(self).init_sample_valid(&r),
            r.publisher == sample.publisher,
            r.slot == sample.slot,
            r.number_of_elements == sample.number_of_elements,
            final(self).slot_payload(sample.publisher as int, sample.slot as int) == seq![value],
            final(self).loans(sample.publisher as int) == old(self).loans(sample.publisher as int),
            final(self).num_slots(sample.publisher as int) == old(self).num_slots(
                sample.publisher as int,
            ),
            forall|j: int|
                0 <= j < old(self).num_slots(sample.publisher as int) && j != sample.slot as int
                    ==> {
                    &&& final(self).slot_refcount(sample.publisher as int, j) == old(
                        self,
                    ).slot_refcount(sample.publisher as int, j)
                    &&& final(self).slot_borrows(sample.publisher as int, j) == old(
                        self,
                    ).slot_borrows(sample.publisher as int, j)
                    &&& final(self).slot_payload(sample.publisher as int, j) == old(
                        self,
                    ).slot_payload(sample.publisher as int, j)
                },
            final(self).slot_refcount(sample.publisher as int, sample.slot as int) == old(
                self,
            ).slot_refcount(sample.publisher as int, sample.slot as int),
            final(self).slot_borrows(sample.publisher as int, sample.slot as int) == old(
                self,
            ).slot_borrows(sample.publisher as int, sample.slot as int),
            forall|q: int| #![auto] final(self).pub_live(q) <==> old(self).pub_live(q),
            final(self).pub_details(sample.publisher as int) == old(self).pub_details(
                sample.publisher as int,
            ),
            final(self).pub_max_loaned(sample.publisher as int) == old(self).pub_max_loaned(
                sample.publisher as int,
            ),
            final(self).pub_strategy(sample.publisher as int) == old(self).pub_strategy(
                sample.publisher as int,
            ),
            forall|q: int|
                q != sample.publisher as int ==> #[trigger] publisher_state_eq(
                    old(self),
                    final(self),
                    q,
                ),
            forall|s2: int| #[trigger] subscriber_state_eq(old(self), final(self), s2),
            final(self).registry_publishers() == old(self).registry_publishers(),
            final(self).registry_subscribers() == old(self).registry_subscribers(),
            final(self).config_spec() == old(self).config_spec(),
            final(self).next_id_spec() == old(self).next_id_spec(),
    {
        proof {
            let pre = old(self);
            let p_i = sample.publisher as int;
            let s_i = sample.slot as int;
            assert(pre.pub_port_wf(p_i));
            let k = choose|k: int| 0 <= k < pre.loans(p_i).len() && pre.loans(p_i)[k] as int == s_i;
            assert((pre.loans(p_i)[k] as int) < pre.num_slots(p_i));
        }
        let mut data: Vec<u64> = Vec::new();
        data.push(value);
        proof {
            assert(data@ =~= seq![value]);
        }
        self.set_slot_payload(sample.publisher, sample.slot, data);
        sample.assume_init()
    }

    /// Returns the payload a loaned, initialised sample currently holds.
    pub fn sample_payload(&self, sample: &SampleMut) -> (r: &Vec<u64>)
        requires
            self.wf(),
            self.init_sample_valid(sample),
        ensures
            r@ == self.slot_payload(sample.publisher as int, sample.slot as int),
    {
        proof {
            let p_i = sample.publisher as int;
            let s_i = sample.slot as int;
            assert(self.pub_port_wf(p_i));
            let k = choose|k: int|
                0 <= k < self.loans(p_i).len() && self.loans(p_i)[k] as int == s_i;
            assert((self.loans(p_i)[k] as int) < self.num_slots(p_i));
        }
        match &self.pub_ports[sample.publisher] {
            Some(port) => port.segment.payload_ref(sample.slot),
            None => {
                proof {
                    assert(false);
                }
                match &self.pub_ports[sample.publisher] {
                    Some(port) => port.segment.payload_ref(sample.slot),
                    None => unreached(),
                }
            },
        }
    }

    /// Drops an initialised sample without sending it: the loan ends and the
    /// slot is reclaimed. The publisher's outstanding-loan count decreases by
    /// exactly one.
    pub fn drop_sample(&mut self, sample: SampleMut)
        requires
            old(self).wf(),
            old(self).init_sample_valid(&sample),
        ensures
            final(self).wf(),
            final(self).loans(sample.publisher as int).len() + 1 == old(self).loans(
                sample.publisher as int,
            ).len(),
            !final(self).loaned(sample.publisher as int, sample.slot as int),
            forall|i: int|
                #[trigger] final(self).loaned(sample.publisher as int, i) <==> (old(self).loaned(
                    sample.publisher as int,
                    i,
                ) && i != sample.slot as int),
            final(self).slot_refcount(sample.publisher as int, sample.slot as int) == 0,
            final(self).slot_borrows(sample.publisher as int, sample.slot as int) == old(
                self,
            ).slot_borrows(sample.publisher as int, sample.slot as int),
            final(self).num_slots(sample.publisher as int) == old(self).num_slots(
                sample.publisher as int,
            ),
            forall|j: int|
                0 <= j < old(self).num_slots(sample.publisher as int) && j != sample.slot as int
                    ==> {
                    &&& final(self).slot_refcount(sample.publisher as int, j) == old(
                        self,
                    ).slot_refcount(sample.publisher as int, j)
                    &&& final(self).slot_borrows(sample.publisher as int, j) == old(
                        self,
                    ).slot_borrows(sample.publisher as int, j)
                    &&& final(self).slot_payload(sample.publisher as int, j) == old(
                        self,
                    ).slot_payload(sample.publisher as int, j)
                },
            forall|q: int|
                q != sample.publisher as int ==> #[trigger] publisher_state_eq(
                    old(self),
                    final(self),
                    q,
                ),
            forall|s2: int| #[trigger] subscriber_state_eq(old(self), final(self), s2),
            final(self).pub_details(sample.publisher as int) == old(self).pub_details(
                sample.publisher as int,
            ),
            final(self).pub_max_loaned(sample.publisher as int) == old(self).pub_max_loaned(
                sample.publisher as int,
            ),
            final(self).pub_strategy(sample.publisher as int) == old(self).pub_strategy(
                sample.publisher as int,
            ),
            forall|q: int| #![auto] final(self).pub_live(q) <==> old(self).pub_live(q),
            final(self).registry_publishers() == old(self).registry_publishers(),
            final(self).registry_subscribers() == old(self).registry_subscribers(),
            final(self).config_spec() == old(self).config_spec(),
            final(self).next_id_spec() == old(self).next_id_spec(),
    {
        self.return_loan(sample.publisher, sample.slot);
    }

    /// Drops an uninitialised sample without sending it: the loan ends and
    /// the slot is reclaimed. The publisher's outstanding-loan count
    /// decreases by exactly one.
    pub fn drop_sample_uninit(&mut self, sample: SampleMutUninit)
        requires
            old(self).wf(),
            old(self).uninit_sample_valid(&sample),
        ensures
            final(self).wf(),
            final(self).loans(sample.publisher as int).len() + 1 == old(self).loans(
                sample.publisher as int,
            ).len(),
            !final(self).loaned(sample.publisher as int, sample.slot as int),
            forall|i: int|
                #[trigger] final(self).loaned(sample.publisher as int, i) <==> (old(self).loaned(
                    sample.publisher as int,
                    i,
                ) && i != sample.slot as int),
            final(self).slot_refcount(sample.publisher as int, sample.slot as int) == 0,
            final(self).slot_borrows(sample.publisher as int, sample.slot as int) == old(
                self,
            ).slot_borrows(sample.publisher as int, sample.slot as int),
            final(self).num_slots(sample.publisher as int) == old(self).num_slots(
                sample.publisher as int,
            ),
            forall|j: int|
                0 <= j < old(self).num_slots(sample.publisher as int) && j != sample.slot as int
                    ==> {
                    &&& final(self).slot_refcount(sample.publisher as int, j) == old(
                        self,
                    ).slot_refcount(sample.publisher as int, j)
                    &&& final(self).slot_borrows(sample.publisher as int, j) == old(
                        self,
                    ).slot_borrows(sample.publisher as int, j)
                    &&& final(self).slot_payload(sample.publisher as int, j) == old(
                        self,
                    ).slot_payload(sample.publisher as int, j)
                },
            forall|q: int|
                q != sample.publisher as int ==> #[trigger] publisher_state_eq(
                    old(self),
                    final(self),
                    q,
                ),
            forall|s2: int| #[trigger] subscriber_state_eq(old(self), final(self), s2),
            final(self).pub_details(sample.publisher as int) == old(self).pub_details(
                sample.publisher as int,
            ),
            final(self).pub_max_loaned(sample.publisher as int) == old(self).pub_max_loaned(
                sample.publisher as int,
            ),
            final(self).pub_strategy(sample.publisher as int) == old(self).pub_strategy(
                sample.publisher as int,
            ),
            forall|q: int| #![auto] final(self).pub_live(q) <==> old(self).pub_live(q),
            final(self).registry_publishers() == old(self).registry_publishers(),
            final(self).registry_subscribers() == old(self).registry_subscribers(),
            final(self).config_spec() == old(self).config_spec(),
            final(self).next_id_spec() == old(self).next_id_spec(),
    {
        self.return_loan(sample.publisher, sample.slot);
    }
}

impl Service {
    /// Sends an initialised sample. The loan counter is decremented before
    /// the fan-out, the slot identifier is enqueued into every connected
    /// subscriber queue that accepts it (a full queue evicts its oldest entry
    /// when safe overflow is enabled, and loses the sample otherwise under
    /// the discard policy), and the publisher's own slot reference is
    /// released after the fan-out, so the slot is reclaimed once the last
    /// subscriber releases it. Under the blocking policy a full queue with
    /// safe overflow disabled hands the sample back unsent: the caller parks
    /// until a subscriber caught up and then sends again.
    #[verifier::spinoff_prover]
    #[verifier::rlimit(100)]
    pub fn send(&mut self, sample: SampleMut) -> (r: SendStatus)
        requires
            old(self).wf(),
            old(self).init_sample_valid(&sample),
        ensures
            final(self).wf(),
            r matches SendStatus::WouldBlock(_) <==> old(self).send_would_block(
                sample.publisher as int,
            ),
            r matches SendStatus::WouldBlock(s2) ==> {
                &&& s2 == sample
                &&& *final(self) == *old(self)
            },
            r matches SendStatus::Delivered(n) ==> {
                let p = sample.publisher as int;
                let i = sample.slot as int;
                &&& n as nat == final(self).queue_occurrences(p, i)
                &&& n <= old(self).n_subscriber_slots()
                &&& final(self).slot_refcount(p, i) == n as u64
                &&& final(self).slot_borrows(p, i) == 0
                &&& !final(self).loaned(p, i)
                &&& final(self).loans(p).len() + 1 == old(self).loans(p).len()
                &&& forall|l: int|
                    #[trigger] final(self).loaned(p, l) <==> (old(self).loaned(p, l) && l != i)
                &&& forall|q: int| #![auto] final(self).pub_live(q) <==> old(self).pub_live(q)
                &&& forall|q: int| #![auto]
                    old(self).pub_live(q) && q != p ==> final(self).loans(q) == old(self).loans(q)
                &&& forall|q: int| #![auto]
                    old(self).pub_live(q) ==> {
                        &&& final(self).pub_details(q) == old(self).pub_details(q)
                        &&& final(self).pub_max_loaned(q) == old(self).pub_max_loaned(q)
                        &&& final(self).pub_strategy(q) == old(self).pub_strategy(q)
                        &&& final(self).num_slots(q) == old(self).num_slots(q)
                        &&& final(self).seg_capacity(q) == old(self).seg_capacity(q)
                    }
                &&& forall|q: int, j: int| #![auto]
                    old(self).pub_live(q) && 0 <= j < old(self).num_slots(q) ==> {
                        &&& final(self).slot_payload(q, j) == old(self).slot_payload(q, j)
                        &&& final(self).slot_borrows(q, j) == old(self).slot_borrows(q, j)
                    }
                &&& forall|s2: int| #![auto] final(self).sub_live(s2) <==> old(self).sub_live(s2)
                &&& forall|s2: int| #![auto]
                    old(self).sub_live(s2) ==> final(self).sub_details(s2) == old(
                        self,
                    ).sub_details(s2)
                &&& forall|s2: int| #![auto]
                    old(self).sub_live(s2) ==> final(self).queue(s2) == spec_deliver(
                        old(self).queue(s2),
                        old(self).sub_buffer(s2),
                        old(self).config_spec().enable_safe_overflow,
                        (QueueEntry { publisher: sample.publisher, slot: sample.slot }),
                    )
                &&& final(self).registry_publishers() == old(self).registry_publishers()
                &&& final(self).registry_subscribers() == old(self).registry_subscribers()
                &&& final(self).config_spec() == old(self).config_spec()
                &&& final(self).next_id_spec() == old(self).next_id_spec()
            },
    {
        let p = sample.publisher;
        let slot = sample.slot;
        let ghost p_i = p as int;
        let ghost s_i = slot as int;
        let strategy = match &self.pub_ports[p] {
            Some(port) => port.unable_to_deliver_strategy,
            None => {
                proof {
                    assert(false);
                }
                UnableToDeliverStrategy::Block
            },
        };
        let overflow = self.config.enable_safe_overflow;
        let n_subs = self.sub_ports.len();
        proof {
            // The loaned slot exists and nothing but the loan refers to it.
            assert(old(self).pub_port_wf(p_i));
            let kk = choose|kk: int|
                0 <= kk < old(self).loans(p_i).len() && old(self).loans(p_i)[kk] as int == s_i;
            assert((old(self).loans(p_i)[kk] as int) < old(self).num_slots(p_i));
            assert(old(self).loaned_slot_unshared(p_i, s_i));
            assert(old(self).slot_accounted(p_i, s_i));
            assert(old(self).slot_refcount(p_i, s_i) == 1);
            assert forall|j: int|
                0 <= j < old(self).sub_ports@.len() implies qcount(
                #[trigger] old(self).sub_ports@[j],
                p_i,
                s_i,
            ) == 0 by {
                lemma_total_occ_lower(old(self).sub_ports@, j, p_i, s_i);
            }
        }
        if strategy == UnableToDeliverStrategy::Block && !overflow {
            let mut k: usize = 0;
            while k < n_subs
                invariant
                    k <= n_subs,
                    n_subs == self.sub_ports@.len(),
                    *self == *old(self),
                    self.wf(),
                    old(self).pub_strategy(sample.publisher as int)
                        == UnableToDeliverStrategy::Block,
                    !old(self).config_spec().enable_safe_overflow,
                    forall|j: int|
                        0 <= j < k ==> !(old(self).sub_live(j) && (#[trigger] old(self).queue(
                            j,
                        )).len() >= old(self).sub_buffer(j)),
                decreases n_subs - k,
            {
                let full = match &self.sub_ports[k] {
                    Some(sp) => sp.queue.len() >= sp.details.buffer_size,
                    None => false,
                };
                if full {
                    proof {
                        assert(old(self).sub_live(k as int));
                        assert(old(self).queue(k as int).len() >= old(self).sub_buffer(k as int));
                        assert(self.wf());
                    }
                    return SendStatus::WouldBlock(sample);
                }
                k = k + 1;
            }
        }
        let entry = QueueEntry { publisher: p, slot };
        match &mut self.pub_ports[p] {
            Some(port) => {
                remove_loan(&mut port.loans, slot);
            },
            None => {
                proof {
                    assert(false);
                }
            },
        }
        proof {
            let pre0 = old(self);
            let post = &*self;
            assert(post.pub_ports@ == pre0.pub_ports@.update(p_i, post.pub_ports@[p_i]));
            assert forall|q: int| post.pub_live(q) implies #[trigger] post.pub_port_wf(q) by {
                assert(pre0.pub_port_wf(q));
                if q == p_i {
                    assert forall|kk: int|
                        0 <= kk < post.loans(p_i).len() implies (post.loans(p_i)[kk] as int) < post
                        .num_slots(p_i) by {
                        assert(index_in(post.loans(p_i), post.loans(p_i)[kk] as int));
                        assert(index_in(pre0.loans(p_i), post.loans(p_i)[kk] as int));
                        let m = choose|m: int|
                            0 <= m < pre0.loans(p_i).len() && pre0.loans(p_i)[m] as int
                                == post.loans(p_i)[kk] as int;
                        assert((pre0.loans(p_i)[m] as int) < pre0.num_slots(p_i));
                    }
                }
            }
            assert forall|s2: int| post.sub_live(s2) implies #[trigger] post.sub_port_wf(s2) by {
                assert(pre0.sub_port_wf(s2));
                let q = pre0.sub_ports@[s2]->0.queue@;
                assert forall|kk: int| 0 <= kk < q.len() implies post.entry_wf(
                    #[trigger] q[kk],
                ) by {
                    assert(pre0.entry_wf(q[kk]));
                }
            }
            assert forall|q: int, j: int|
                post.pub_live(q) && 0 <= j < post.num_slots(q) && !(q == p_i && j == s_i) implies
                #[trigger] post.slot_accounted(q, j) by {
                assert(pre0.slot_accounted(q, j));
                if q == p_i {
                    assert(index_in(post.loans(p_i), j) <==> (index_in(pre0.loans(p_i), j) && j
                        != s_i));
                }
            }
            assert forall|q: int, j: int|
                post.pub_live(q) && 0 <= j < post.num_slots(q) implies #[trigger] post
                .loaned_slot_unshared(q, j) by {
                assert(pre0.loaned_slot_unshared(q, j));
                if q == p_i {
                    assert(index_in(post.loans(p_i), j) ==> index_in(pre0.loans(p_i), j));
                }
            }
            lemma_total_occ_zero(post.sub_ports@, p_i, s_i);
            assert(post.slot_refcount(p_i, s_i) as int == 1 + post.queue_occurrences(p_i, s_i));
        }
        let ghost pre = *old(self);
        let mut delivered: usize = 0;
        let mut k: usize = 0;
        while k < n_subs
            invariant
                k <= n_subs,
                n_subs == self.sub_ports@.len(),
                self.sub_ports@.len() == pre.sub_ports@.len(),
                self.pub_ports@.len() == pre.pub_ports@.len(),
                self.config == pre.config,
                self.dynamic == pre.dynamic,
                self.next_port_id == pre.next_port_id,
                pre.wf(),
                pre.pub_live(p_i),
                p_i == p as int,
                s_i == slot as int,
                0 <= s_i < pre.num_slots(p_i),
                entry == (QueueEntry { publisher: p, slot }),
                overflow == pre.config_spec().enable_safe_overflow,
                strategy == pre.pub_strategy(p_i),
                forall|q: int| #![auto] self.pub_live(q) <==> pre.pub_live(q),
                forall|q: int| self.pub_live(q) ==> #[trigger] self.pub_port_wf(q),
                forall|s: int| self.sub_live(s) ==> #[trigger] self.sub_port_wf(s),
                forall|q: int| #![auto]
                    pre.pub_live(q) ==> {
                        &&& self.pub_details(q) == pre.pub_details(q)
                        &&& self.pub_max_loaned(q) == pre.pub_max_loaned(q)
                        &&& self.pub_strategy(q) == pre.pub_strategy(q)
                        &&& self.num_slots(q) == pre.num_slots(q)
                        &&& self.seg_capacity(q) == pre.seg_capacity(q)
                    },
                forall|q: int| #![auto]
                    pre.pub_live(q) && q != p_i ==> self.loans(q) == pre.loans(q),
                self.loans(p_i).len() + 1 == pre.loans(p_i).len(),
                forall|l: int|
                    #[trigger] index_in(self.loans(p_i), l) <==> (index_in(pre.loans(p_i), l) && l
                        != s_i),
                forall|q: int, j: int| #![auto]
                    pre.pub_live(q) && 0 <= j < pre.num_slots(q) ==> {
                        &&& self.slot_payload(q, j) == pre.slot_payload(q, j)
                        &&& self.slot_borrows(q, j) == pre.slot_borrows(q, j)
                    },
                forall|q: int, j: int|
                    self.pub_live(q) && 0 <= j < self.num_slots(q) && !(q == p_i && j == s_i)
                        ==> #[trigger] self.slot_accounted(q, j),
                forall|q: int, j: int|
                    self.pub_live(q) && 0 <= j < self.num_slots(q) ==> #[trigger] self
                        .loaned_slot_unshared(q, j),
                self.slot_refcount(p_i, s_i) as int == 1 + self.queue_occurrences(p_i, s_i),
                self.slot_borrows(p_i, s_i) == 0,
                !self.loaned(p_i, s_i),
                delivered as nat == self.queue_occurrences(p_i, s_i),
                delivered <= k,
                forall|j: int| k <= j < n_subs ==> self.sub_ports@[j] == pre.sub_ports@[j],
                forall|j: int| #![auto] self.sub_live(j) <==> pre.sub_live(j),
                forall|j: int| #![auto]
                    0 <= j < k && pre.sub_live(j) ==> {
                        &&& self.sub_details(j) == pre.sub_details(j)
                        &&& self.queue(j) == spec_deliver(
                            pre.queue(j),
                            pre.sub_buffer(j),
                            overflow,
                            entry,
                        )
                    },
                forall|j: int|
                    0 <= j < pre.sub_ports@.len() ==> qcount(
                        #[trigger] pre.sub_ports@[j],
                        p_i,
                        s_i,
                    ) == 0,
                (strategy == UnableToDeliverStrategy::Block && !overflow) ==> forall|j: int|
                    pre.sub_live(j) ==> (#[trigger] pre.queue(j)).len() < pre.sub_buffer(j),
            decreases n_subs - k,
        {
            let ghost it0 = *self;
            let (is_live, has_room, is_full) = match &self.sub_ports[k] {
                Some(sp) => (
                    true,
                    sp.queue.len() < sp.details.buffer_size,
                    sp.queue.len() >= sp.details.buffer_size,
                ),
                None => (false, false, false),
            };
            if is_live {
                proof {
                    assert(it0.sub_port_wf(k as int));
                    assert(qcount(pre.sub_ports@[k as int], p_i, s_i) == 0);
                    assert(it0.sub_ports@[k as int] == pre.sub_ports@[k as int]);
                }
                if has_room {
                    match &mut self.pub_ports[p] {
                        Some(port) => {
                            proof {
                                assert(it0.pub_port_wf(p_i));
                                assert(it0.slot_refcount(p_i, s_i) as int == 1 + delivered);
                            }
                            port.segment.retain(slot);
                        },
                        None => {
                            proof {
                                assert(false);
                            }
                        },
                    }
                    let ghost st1 = *self;
                    match &mut self.sub_ports[k] {
                        Some(sp) => {
                            sp.queue.push(entry);
                        },
                        None => {
                            proof {
                                assert(false);
                            }
                        },
                    }
                    delivered = delivered + 1;
                    proof {
                        let post = &*self;
                        assert(post.pub_ports@ == it0.pub_ports@.update(
                            p_i,
                            post.pub_ports@[p_i],
                        ));
                        assert(post.sub_ports@ == st1.sub_ports@.update(
                            k as int,
                            post.sub_ports@[k as int],
                        ));
                        assert(st1.sub_ports@ == it0.sub_ports@);
                        assert forall|q: int, i2: int| true implies total_occ(
                            post.sub_ports@,
                            q,
                            i2,
                        ) == total_occ(it0.sub_ports@, q, i2) + (
                        if entry.publisher as int == q && entry.slot as int == i2 {
                            1nat
                        } else {
                            0nat
                        }) by {
                            lemma_occ_after_push(
                                st1.sub_ports@,
                                post.sub_ports@,
                                k as int,
                                entry,
                                q,
                                i2,
                            );
                        }
                        assert forall|q: int, j: int|
                            post.pub_live(q) && 0 <= j < post.num_slots(q) && !(q == p_i && j
                                == s_i) implies #[trigger] post.slot_accounted(q, j) by {
                            assert(it0.slot_accounted(q, j));
                        }
                        assert forall|q: int, j: int|
                            post.pub_live(q) && 0 <= j < post.num_slots(q) implies #[trigger] post
                            .loaned_slot_unshared(q, j) by {
                            assert(it0.loaned_slot_unshared(q, j));
                        }
                        assert forall|q2: int| post.pub_live(q2) implies #[trigger] post
                            .pub_port_wf(q2) by {
                            assert(it0.pub_port_wf(q2));
                        }
                        assert forall|s2: int| post.sub_live(s2) implies #[trigger] post
                            .sub_port_wf(s2) by {
                            assert(it0.sub_port_wf(s2));
                            if s2 == k as int {
                                assert(post.queue(s2) == it0.queue(s2).push(entry));
                                assert forall|kk: int|
                                    0 <= kk < post.queue(s2).len() implies post.entry_wf(
                                    #[trigger] post.queue(s2)[kk],
                                ) by {
                                    if kk < it0.queue(s2).len() {
                                        assert(it0.entry_wf(it0.queue(s2)[kk]));
                                    }
                                }
                            } else {
                                assert forall|kk: int|
                                    0 <= kk < post.queue(s2).len() implies post.entry_wf(
                                    #[trigger] post.queue(s2)[kk],
                                ) by {
                                    assert(it0.entry_wf(it0.queue(s2)[kk]));
                                }
                            }
                        }
                        assert(post.queue(k as int) == spec_deliver(
                            pre.queue(k as int),
                            pre.sub_buffer(k as int),
                            overflow,
                            entry,
                        ));
                    }
                } else if overflow {
                    let mut victim = entry;
                    match &mut self.sub_ports[k] {
                        Some(sp) => {
                            victim = sp.queue.remove(0);
                        },
                        None => {
                            proof {
                                assert(false);
                            }
                        },
                    }
                    let ghost st1 = *self;
                    proof {
                        let q0 = it0.queue(k as int);
                        assert(victim == q0[0]);
                        assert(st1.queue(k as int) =~= q0.subrange(1, q0.len() as int));
                        assert(st1.sub_ports@ == it0.sub_ports@.update(
                            k as int,
                            st1.sub_ports@[k as int],
                        ));
                        // The victim is not the sent slot, and its slot keeps
                        // at least one reference in the pre-iteration state.
                        assert(it0.entry_wf(q0[0]));
                        if victim.publisher as int == p_i && victim.slot as int == s_i {
                            lemma_count_entry_at_least_one(q0, p_i, s_i, 0);
                        }
                        lemma_count_entry_at_least_one(
                            q0,
                            victim.publisher as int,
                            victim.slot as int,
                            0,
                        );
                        lemma_total_occ_lower(
                            it0.sub_ports@,
                            k as int,
                            victim.publisher as int,
                            victim.slot as int,
                        );
                        assert(it0.slot_accounted(victim.publisher as int, victim.slot as int));
                        assert(it0.slot_refcount(victim.publisher as int, victim.slot as int)
                            >= 1);
                        assert forall|q: int, i2: int| true implies total_occ(
                            st1.sub_ports@,
                            q,
                            i2,
                        ) + (if victim.publisher as int == q && victim.slot as int == i2 {
                            1nat
                        } else {
                            0nat
                        }) == total_occ(it0.sub_ports@, q, i2) by {
                            lemma_occ_after_drop_first(
                                it0.sub_ports@,
                                st1.sub_ports@,
                                k as int,
                                q,
                                i2,
                            );
                        }
                    }
                    proof {
                        assert(st1.pub_ports@ == it0.pub_ports@);
                        assert(it0.pub_port_wf(victim.publisher as int));
                    }
                    let vp = victim.publisher;
                    let vs = victim.slot;
                    match &mut self.pub_ports[vp] {
                        Some(port) => {
                            port.segment.release(vs);
                        },
                        None => {
                            proof {
                                assert(false);
                            }
                        },
                    }
                    let ghost st2 = *self;
                    proof {
                        assert(st2.pub_ports@ == st1.pub_ports@.update(
                            vp as int,
                            st2.pub_ports@[vp as int],
                        ));
                    }
                    proof {
                        if vp as int == p_i {
                            assert(st2.pub_ports@[p_i]->0.segment.inv());
                            assert(st2.slot_refcount(p_i, s_i) == st1.slot_refcount(p_i, s_i));
                        } else {
                            assert(st2.pub_ports@[p_i] == st1.pub_ports@[p_i]);
                            assert(it0.pub_port_wf(p_i));
                        }
                        assert(st1.slot_refcount(p_i, s_i) == it0.slot_refcount(p_i, s_i));
                        assert(st2.slot_refcount(p_i, s_i) as int == 1 + delivered);
                    }
                    match &mut self.pub_ports[p] {
                        Some(port) => {
                            port.segment.retain(slot);
                        },
                        None => {
                            proof {
                                assert(false);
                            }
                        },
                    }
                    let ghost st3 = *self;
                    match &mut self.sub_ports[k] {
                        Some(sp) => {
                            sp.queue.push(entry);
                        },
                        None => {
                            proof {
                                assert(false);
                            }
                        },
                    }
                    delivered = delivered + 1;
                    proof {
                        let post = &*self;
                        assert(st3.pub_ports@ == st2.pub_ports@.update(
                            p_i,
                            st3.pub_ports@[p_i],
                        ));
                        assert(post.sub_ports@ == st3.sub_ports@.update(
                            k as int,
                            post.sub_ports@[k as int],
                        ));
                        assert(st3.sub_ports@ == st1.sub_ports@);
                        assert forall|q: int, i2: int| true implies total_occ(
                            post.sub_ports@,
                            q,
                            i2,
                        ) == total_occ(st1.sub_ports@, q, i2) + (
                        if entry.publisher as int == q && entry.slot as int == i2 {
                            1nat
                        } else {
                            0nat
                        }) by {
                            lemma_occ_after_push(
                                st1.sub_ports@,
                                post.sub_ports@,
                                k as int,
                                entry,
                                q,
                                i2,
                            );
                        }
                        assert forall|q: int, j: int|
                            post.pub_live(q) && 0 <= j < post.num_slots(q) && !(q == p_i && j
                                == s_i) implies #[trigger] post.slot_accounted(q, j) by {
                            assert(it0.slot_accounted(q, j));
                            assert(total_occ(post.sub_ports@, q, j) == total_occ(
                                st1.sub_ports@,
                                q,
                                j,
                            ) + (if entry.publisher as int == q && entry.slot as int == j {
                                1nat
                            } else {
                                0nat
                            }));
                            assert(total_occ(st1.sub_ports@, q, j) + (
                            if victim.publisher as int == q && victim.slot as int == j {
                                1nat
                            } else {
                                0nat
                            }) == total_occ(it0.sub_ports@, q, j));
                        }
                        assert forall|q: int, j: int|
                            post.pub_live(q) && 0 <= j < post.num_slots(q) implies #[trigger] post
                            .loaned_slot_unshared(q, j) by {
                            assert(it0.loaned_slot_unshared(q, j));
                            assert(it0.slot_accounted(q, j) || (q == p_i && j == s_i));
                            if index_in(post.loans(q), j) {
                                assert(total_occ(it0.sub_ports@, q, j) == 0);
                                assert(total_occ(st1.sub_ports@, q, j) == 0);
                            }
                        }
                        assert forall|q2: int| post.pub_live(q2) implies #[trigger] post
                            .pub_port_wf(q2) by {
                            assert(it0.pub_port_wf(q2));
                        }
                        assert forall|s2: int| post.sub_live(s2) implies #[trigger] post
                            .sub_port_wf(s2) by {
                            assert(it0.sub_port_wf(s2));
                            if s2 == k as int {
                                let q0 = it0.queue(s2);
                                assert(post.queue(s2) == q0.subrange(1, q0.len() as int).push(
                                    entry,
                                ));
                                assert forall|kk: int|
                                    0 <= kk < post.queue(s2).len() implies post.entry_wf(
                                    #[trigger] post.queue(s2)[kk],
                                ) by {
                                    if kk < post.queue(s2).len() - 1 {
                                        assert(post.queue(s2)[kk] == q0[kk + 1]);
                                        assert(it0.entry_wf(q0[kk + 1]));
                                    }
                                }
                            } else {
                                assert forall|kk: int|
                                    0 <= kk < post.queue(s2).len() implies post.entry_wf(
                                    #[trigger] post.queue(s2)[kk],
                                ) by {
                                    assert(it0.entry_wf(it0.queue(s2)[kk]));
                                }
                            }
                        }
                        assert(post.queue(k as int) =~= spec_deliver(
                            pre.queue(k as int),
                            pre.sub_buffer(k as int),
                            overflow,
                            entry,
                        ));
                    }
                } else {
                    proof {
                        assert(it0.queue(k as int).len() >= it0.sub_buffer(k as int));
                        if strategy == UnableToDeliverStrategy::Block && !overflow {
                            assert(pre.sub_live(k as int));
                            assert(it0.sub_ports@[k as int] == pre.sub_ports@[k as int]);
                            assert(pre.queue(k as int).len() < pre.sub_buffer(k as int));
                            assert(false);
                        }
                        assert(self.queue(k as int) == spec_deliver(
                            pre.queue(k as int),
                            pre.sub_buffer(k as int),
                            overflow,
                            entry,
                        ));
                    }
                }
            }
            k = k + 1;
        }
        let ghost fin0 = *self;
        proof {
            assert(self.pub_port_wf(p_i));
            assert(self.slot_refcount(p_i, s_i) as int == 1 + delivered);
        }
        match &mut self.pub_ports[p] {
            Some(port) => {
                port.segment.release(slot);
            },
            None => {
                proof {
                    assert(false);
                }
            },
        }
        proof {
            let post = &*self;
            assert(post.pub_ports@ == fin0.pub_ports@.update(p_i, post.pub_ports@[p_i]));
            assert(post.sub_ports@ == fin0.sub_ports@);
            assert forall|q2: int| post.pub_live(q2) implies #[trigger] post.pub_port_wf(q2) by {
                assert(fin0.pub_port_wf(q2));
            }
            assert forall|s2: int| post.sub_live(s2) implies #[trigger] post.sub_port_wf(s2) by {
                assert(fin0.sub_port_wf(s2));
                let q = fin0.sub_ports@[s2]->0.queue@;
                assert forall|kk: int| 0 <= kk < q.len() implies post.entry_wf(
                    #[trigger] q[kk],
                ) by {
                    assert(fin0.entry_wf(q[kk]));
                }
            }
            assert forall|q: int, j: int|
                post.pub_live(q) && 0 <= j < post.num_slots(q) implies #[trigger] post
                .slot_accounted(q, j) by {
                if q == p_i && j == s_i {
                    assert(post.slot_refcount(p_i, s_i) as int == delivered);
                    assert(!post.loaned(p_i, s_i));
                    assert(post.slot_borrows(p_i, s_i) == 0);
                } else {
                    assert(fin0.slot_accounted(q, j));
                }
            }
            assert forall|q: int, j: int|
                post.pub_live(q) && 0 <= j < post.num_slots(q) implies #[trigger] post
                .loaned_slot_unshared(q, j) by {
                assert(fin0.loaned_slot_unshared(q, j));
            }
            assert(post.ids_unique()) by {
                assert forall|p1: int, p2: int|
                    post.pub_live(p1) && post.pub_live(p2) && p1 != p2 implies #[trigger] post
                    .pub_details(p1).publisher_id.value() != #[trigger] post.pub_details(
                    p2,
                ).publisher_id.value() by {
                    assert(pre.pub_details(p1).publisher_id.value() != pre.pub_details(
                        p2,
                    ).publisher_id.value());
                }
                assert forall|s1: int, s2: int|
                    post.sub_live(s1) && post.sub_live(s2) && s1 != s2 implies #[trigger] post
                    .sub_details(s1).subscriber_id.value() != #[trigger] post.sub_details(
                    s2,
                ).subscriber_id.value() by {
                    assert(pre.sub_details(s1).subscriber_id.value() != pre.sub_details(
                        s2,
                    ).subscriber_id.value());
                }
            }
            assert(post.dynamic == pre.dynamic);
            assert(post.config == pre.config);
            assert forall|p2: int|
                0 <= p2 < post.pub_ports@.len() implies ((#[trigger] post.pub_ports@[p2]) is Some
                <==> post.dynamic.publishers_view()[p2] is Some) by {
                assert(post.pub_live(p2) <==> pre.pub_live(p2));
            }
            assert forall|p2: int|
                0 <= p2 < post.pub_ports@.len() && post.pub_ports@[p2] is Some implies (
            #[trigger] post.dynamic.publishers_view()[p2])->0 == post.pub_ports@[p2]->0.details by {
                assert(post.pub_live(p2) && pre.pub_live(p2));
                assert(post.pub_details(p2) == pre.pub_details(p2));
            }
            assert forall|s2: int|
                0 <= s2 < post.sub_ports@.len() implies ((#[trigger] post.sub_ports@[s2]) is Some
                <==> post.dynamic.subscribers_view()[s2] is Some) by {
                assert(post.sub_live(s2) <==> pre.sub_live(s2));
            }
            assert forall|s2: int|
                0 <= s2 < post.sub_ports@.len() && post.sub_ports@[s2] is Some implies (
            #[trigger] post.dynamic.subscribers_view()[s2])->0
                == post.sub_ports@[s2]->0.details by {
                assert(post.sub_live(s2) && pre.sub_live(s2));
                assert(post.sub_details(s2) == pre.sub_details(s2));
            }
            assert(post.wf());
        }
        SendStatus::Delivered(delivered)
    }
}

impl Service {
    /// Returns whether the subscriber has undelivered samples in its queue.
    pub fn has_samples(&self, subscriber: &Subscriber) -> (r: bool)
        requires
            self.subscriber_token_valid(subscriber),
        ensures
            r == (self.queue(subscriber.handle_spec()).len() > 0),
    {
        match &self.sub_ports[subscriber.handle] {
            Some(sp) => sp.queue.len() > 0,
            None => {
                proof {
                    assert(false);
                }
                false
            },
        }
    }

    /// Returns how many undelivered samples the subscriber's queue holds.
    pub fn number_of_queued_samples(&self, subscriber: &Subscriber) -> (r: usize)
        requires
            self.subscriber_token_valid(subscriber),
        ensures
            r == self.queue(subscriber.handle_spec()).len(),
    {
        match &self.sub_ports[subscriber.handle] {
            Some(sp) => sp.queue.len(),
            None => {
                proof {
                    assert(false);
                }
                0
            },
        }
    }

    /// Receives the oldest undelivered sample of the subscriber, or `None`
    /// when its queue is empty. The returned sample is a read borrow of the
    /// slot: the slot keeps its reference until the sample is released.
    pub fn receive(&mut self, subscriber: &Subscriber) -> (r: Result<Option<Sample>, ReceiveError>)
        requires
            old(self).wf(),
            old(self).subscriber_token_valid(subscriber),
        ensures
            final(self).wf(),
            final(self).subscriber_token_valid(subscriber),
            r is Ok,
            r == Ok::<Option<Sample>, ReceiveError>(None) <==> old(self).queue(
                subscriber.handle_spec(),
            ).len() == 0,
            r == Ok::<Option<Sample>, ReceiveError>(None) ==> *final(self) == *old(self),
            r matches Ok(Some(sample)) ==> {
                let sh = subscriber.handle_spec();
                let e = old(self).queue(sh)[0];
                &&& old(self).queue(sh).len() > 0
                &&& sample.publisher == e.publisher
                &&& sample.slot == e.slot
                &&& sample.payload_view() == old(self).slot_payload(
                    e.publisher as int,
                    e.slot as int,
                )
                &&& final(self).queue(sh) == old(self).queue(sh).subrange(
                    1,
                    old(self).queue(sh).len() as int,
                )
                &&& final(self).recv_sample_valid(&sample)
                &&& final(self).slot_refcount(e.publisher as int, e.slot as int) == old(
                    self,
                ).slot_refcount(e.publisher as int, e.slot as int)
                &&& final(self).slot_refcount(e.publisher as int, e.slot as int) >= 1
                &&& final(self).slot_borrows(e.publisher as int, e.slot as int) == old(
                    self,
                ).slot_borrows(e.publisher as int, e.slot as int) + 1
                &&& final(self).slot_payload(e.publisher as int, e.slot as int) == old(
                    self,
                ).slot_payload(e.publisher as int, e.slot as int)
                &&& forall|q: int|
                    q != e.publisher as int ==> #[trigger] publisher_state_eq(
                        old(self),
                        final(self),
                        q,
                    )
                &&& forall|q: int| #![auto] final(self).pub_live(q) <==> old(self).pub_live(q)
                &&& forall|q: int| #![auto]
                    old(self).pub_live(q) ==> final(self).loans(q) == old(self).loans(q)
                        && final(self).num_slots(q) == old(self).num_slots(q)
                        && final(self).pub_details(q) == old(self).pub_details(q)
                &&& forall|q: int, j: int| #![auto]
                    old(self).pub_live(q) && 0 <= j < old(self).num_slots(q) ==> final(self).slot_payload(q, j) == old(self).slot_payload(q, j) && final(self).slot_refcount(q, j) == old(self).slot_refcount(q, j)
                &&& forall|s2: int|
                    s2 != sh ==> #[trigger] subscriber_state_eq(old(self), final(self), s2)
                &&& final(self).sub_details(sh) == old(self).sub_details(sh)
                &&& final(self).registry_publishers() == old(self).registry_publishers()
                &&& final(self).registry_subscribers() == old(self).registry_subscribers()
                &&& final(self).config_spec() == old(self).config_spec()
                &&& final(self).next_id_spec() == old(self).next_id_spec()
            },
    {
        let sh = subscriber.handle;
        let ghost sh_i = sh as int;
        let is_empty = match &self.sub_ports[sh] {
            Some(sp) => sp.queue.len() == 0,
            None => {
                proof {
                    assert(false);
                }
                true
            },
        };
        if is_empty {
            return Ok(None);
        }
        let mut entry_out = QueueEntry { publisher: 0, slot: 0 };
        match &mut self.sub_ports[sh] {
            Some(sp) => {
                entry_out = sp.queue.remove(0);
            },
            None => {
                proof {
                    assert(false);
                }
            },
        }
        let ghost st1 = *self;
        proof {
            let pre = old(self);
            let q0 = pre.queue(sh_i);
            assert(pre.sub_port_wf(sh_i));
            assert(pre.entry_wf(q0[0]));
            assert(entry_out == q0[0]);
            assert(st1.queue(sh_i) =~= q0.subrange(1, q0.len() as int));
            assert(st1.sub_ports@ == pre.sub_ports@.update(sh_i, st1.sub_ports@[sh_i]));
            let ep = entry_out.publisher as int;
            let es = entry_out.slot as int;
            lemma_count_entry_at_least_one(q0, ep, es, 0);
            lemma_total_occ_lower(pre.sub_ports@, sh_i, ep, es);
            assert(pre.slot_accounted(ep, es));
            assert(pre.slot_refcount(ep, es) >= 1);
            assert(pre.loaned_slot_unshared(ep, es));
            assert(!pre.loaned(ep, es));
            assert(pre.slot_borrows(ep, es) < u64::MAX);
            assert forall|q: int, i2: int| true implies total_occ(st1.sub_ports@, q, i2) + (
            if entry_out.publisher as int == q && entry_out.slot as int == i2 {
                1nat
            } else {
                0nat
            }) == total_occ(pre.sub_ports@, q, i2) by {
                lemma_occ_after_drop_first(pre.sub_ports@, st1.sub_ports@, sh_i, q, i2);
            }
            assert(st1.pub_ports@ == pre.pub_ports@);
            assert(pre.pub_port_wf(ep));
            assert(st1.pub_port_wf(ep));
        }
        let payload = match &self.pub_ports[entry_out.publisher] {
            Some(port) => port.segment.payload_copy(entry_out.slot),
            None => {
                proof {
                    assert(false);
                }
                Vec::new()
            },
        };
        match &mut self.pub_ports[entry_out.publisher] {
            Some(port) => {
                port.segment.borrow_inc(entry_out.slot);
            },
            None => {
                proof {
                    assert(false);
                }
            },
        }
        proof {
            let pre = old(self);
            let post = &*self;
            let ep = entry_out.publisher as int;
            let es = entry_out.slot as int;
            assert(post.pub_ports@ == st1.pub_ports@.update(ep, post.pub_ports@[ep]));
            assert forall|q2: int| post.pub_live(q2) implies #[trigger] post.pub_port_wf(q2) by {
                assert(pre.pub_port_wf(q2));
            }
            assert forall|s2: int| post.sub_live(s2) implies #[trigger] post.sub_port_wf(s2) by {
                assert(pre.sub_port_wf(s2));
                if s2 == sh_i {
                    let q0 = pre.queue(sh_i);
                    assert forall|kk: int|
                        0 <= kk < post.queue(s2).len() implies post.entry_wf(
                        #[trigger] post.queue(s2)[kk],
                    ) by {
                        assert(post.queue(s2)[kk] == q0[kk + 1]);
                        assert(pre.entry_wf(q0[kk + 1]));
                    }
                } else {
                    assert forall|kk: int|
                        0 <= kk < post.queue(s2).len() implies post.entry_wf(
                        #[trigger] post.queue(s2)[kk],
                    ) by {
                        assert(pre.entry_wf(pre.queue(s2)[kk]));
                    }
                }
            }
            assert forall|q: int, j: int|
                post.pub_live(q) && 0 <= j < post.num_slots(q) implies #[trigger] post
                .slot_accounted(q, j) by {
                assert(pre.slot_accounted(q, j));
            }
            assert forall|q: int, j: int|
                post.pub_live(q) && 0 <= j < post.num_slots(q) implies #[trigger] post
                .loaned_slot_unshared(q, j) by {
                assert(pre.loaned_slot_unshared(q, j));
                if index_in(post.loans(q), j) {
                    assert(total_occ(pre.sub_ports@, q, j) == 0);
                    if q == ep && j == es {
                        assert(false);
                    }
                }
            }
            assert(post.ids_unique()) by {
                assert forall|p1: int, p2: int|
                    post.pub_live(p1) && post.pub_live(p2) && p1 != p2 implies #[trigger] post
                    .pub_details(p1).publisher_id.value() != #[trigger] post.pub_details(
                    p2,
                ).publisher_id.value() by {
                    assert(pre.pub_details(p1).publisher_id.value() != pre.pub_details(
                        p2,
                    ).publisher_id.value());
                }
                assert forall|s1: int, s2: int|
                    post.sub_live(s1) && post.sub_live(s2) && s1 != s2 implies #[trigger] post
                    .sub_details(s1).subscriber_id.value() != #[trigger] post.sub_details(
                    s2,
                ).subscriber_id.value() by {
                    assert(pre.sub_details(s1).subscriber_id.value() != pre.sub_details(
                        s2,
                    ).subscriber_id.value());
                }
            }
            assert(post.wf());
            assert forall|q: int| q != ep implies #[trigger] publisher_state_eq(pre, post, q) by {}
            assert forall|s2: int| s2 != sh_i implies #[trigger] subscriber_state_eq(
                pre,
                post,
                s2,
            ) by {}
        }
        Ok(Some(Sample::from_parts(entry_out.publisher, entry_out.slot, payload)))
    }

    /// Releases a received sample: the read borrow ends and the slot gives
    /// one reference back; a slot nobody refers to any more is reclaimed.
    pub fn release_sample(&mut self, sample: Sample)
        requires
            old(self).wf(),
            old(self).recv_sample_valid(&sample),
        ensures
            final(self).wf(),
            final(self).slot_borrows(sample.publisher as int, sample.slot as int) + 1 == old(
                self,
            ).slot_borrows(sample.publisher as int, sample.slot as int),
            final(self).slot_refcount(sample.publisher as int, sample.slot as int) + 1 == old(
                self,
            ).slot_refcount(sample.publisher as int, sample.slot as int),
            forall|q: int|
                q != sample.publisher as int ==> #[trigger] publisher_state_eq(
                    old(self),
                    final(self),
                    q,
                ),
            forall|s2: int| #[trigger] subscriber_state_eq(old(self), final(self), s2),
            forall|q: int| #![auto]
                old(self).pub_live(q) ==> final(self).loans(q) == old(self).loans(q) && final(self).num_slots(q) == old(self).num_slots(q),
            forall|q: int, j: int| #![auto]
                old(self).pub_live(q) && 0 <= j < old(self).num_slots(q) ==> final(self).slot_payload(q, j) == old(self).slot_payload(q, j),
            final(self).registry_publishers() == old(self).registry_publishers(),
            final(self).registry_subscribers() == old(self).registry_subscribers(),
            final(self).config_spec() == old(self).config_spec(),
            final(self).next_id_spec() == old(self).next_id_spec(),
    {
        let p = sample.publisher;
        let slot = sample.slot;
        let ghost p_i = p as int;
        let ghost s_i = slot as int;
        proof {
            let pre = old(self);
            assert(pre.pub_port_wf(p_i));
            assert(pre.slot_accounted(p_i, s_i));
            assert(pre.slot_refcount(p_i, s_i) >= 1);
        }
        match &mut self.pub_ports[p] {
            Some(port) => {
                port.segment.borrow_dec(slot);
                port.segment.release(slot);
            },
            None => {
                proof {
                    assert(false);
                }
            },
        }
        proof {
            let pre = old(self);
            let post = &*self;
            assert(post.pub_ports@ == pre.pub_ports@.update(p_i, post.pub_ports@[p_i]));
            assert forall|q2: int| post.pub_live(q2) implies #[trigger] post.pub_port_wf(q2) by {
                assert(pre.pub_port_wf(q2));
            }
            assert forall|s2: int| post.sub_live(s2) implies #[trigger] post.sub_port_wf(s2) by {
                assert(pre.sub_port_wf(s2));
                let q = pre.sub_ports@[s2]->0.queue@;
                assert forall|kk: int| 0 <= kk < q.len() implies post.entry_wf(#[trigger] q[kk]) by {
                    assert(pre.entry_wf(q[kk]));
                }
            }
            assert forall|q: int, j: int|
                post.pub_live(q) && 0 <= j < post.num_slots(q) implies #[trigger] post
                .slot_accounted(q, j) by {
                assert(pre.slot_accounted(q, j));
            }
            assert forall|q: int, j: int|
                post.pub_live(q) && 0 <= j < post.num_slots(q) implies #[trigger] post
                .loaned_slot_unshared(q, j) by {
                assert(pre.loaned_slot_unshared(q, j));
                if index_in(post.loans(q), j) && q == p_i && j == s_i {
                    assert(pre.slot_borrows(p_i, s_i) == 0);
                }
            }
            assert(post.ids_unique()) by {
                assert forall|p1: int, p2: int|
                    post.pub_live(p1) && post.pub_live(p2) && p1 != p2 implies #[trigger] post
                    .pub_details(p1).publisher_id.value() != #[trigger] post.pub_details(
                    p2,
                ).publisher_id.value() by {
                    assert(pre.pub_details(p1).publisher_id.value() != pre.pub_details(
                        p2,
                    ).publisher_id.value());
                }
                assert forall|s1: int, s2: int|
                    post.sub_live(s1) && post.sub_live(s2) && s1 != s2 implies #[trigger] post
                    .sub_details(s1).subscriber_id.value() != #[trigger] post.sub_details(
                    s2,
                ).subscriber_id.value() by {
                    assert(pre.sub_details(s1).subscriber_id.value() != pre.sub_details(
                        s2,
                    ).subscriber_id.value());
                }
            }
            assert(post.wf());
            assert forall|q: int| q != p_i implies #[trigger] publisher_state_eq(pre, post, q) by {}
            assert forall|s2: int| #[trigger] subscriber_state_eq(pre, post, s2) by {}
        }
    }
}

impl Service {
    /// Disconnects a subscriber: every slot identifier still in its queue is
    /// released, so the publishers' arenas are fully reclaimed even if the
    /// subscriber never received, and the endpoint leaves the registry.
    #[verifier::spinoff_prover]
    #[verifier::rlimit(100)]
    pub fn drop_subscriber(&mut self, subscriber: Subscriber)
        requires
            old(self).wf(),
            old(self).subscriber_token_valid(&subscriber),
        ensures
            final(self).wf(),
            !final(self).sub_live(subscriber.handle_spec()),
            occupied_count(final(self).registry_subscribers()) + 1 == occupied_count(
                old(self).registry_subscribers(),
            ),
            forall|s2: int|
                s2 != subscriber.handle_spec() ==> #[trigger] subscriber_state_eq(
                    old(self),
                    final(self),
                    s2,
                ),
            forall|q: int| #![auto] final(self).pub_live(q) <==> old(self).pub_live(q),
            forall|q: int| #![auto]
                old(self).pub_live(q) ==> {
                    &&& final(self).loans(q) == old(self).loans(q)
                    &&& final(self).num_slots(q) == old(self).num_slots(q)
                    &&& final(self).pub_details(q) == old(self).pub_details(q)
                    &&& final(self).pub_max_loaned(q) == old(self).pub_max_loaned(q)
                    &&& final(self).pub_strategy(q) == old(self).pub_strategy(q)
                },
            forall|q: int, j: int| #![auto]
                old(self).pub_live(q) && 0 <= j < old(self).num_slots(q) ==> {
                    &&& final(self).slot_payload(q, j) == old(self).slot_payload(q, j)
                    &&& final(self).slot_borrows(q, j) == old(self).slot_borrows(q, j)
                    &&& final(self).slot_refcount(q, j) as int == old(self).slot_refcount(q, j)
                        - count_entry(old(self).queue(subscriber.handle_spec()), q, j)
                },
            final(self).registry_publishers() == old(self).registry_publishers(),
            final(self).config_spec() == old(self).config_spec(),
            final(self).next_id_spec() == old(self).next_id_spec(),
    {
        let sh = subscriber.handle;
        let ghost sh_i = sh as int;
        let ghost pre = *old(self);
        let total = match &self.sub_ports[sh] {
            Some(sp) => sp.queue.len(),
            None => {
                proof {
                    assert(false);
                }
                0
            },
        };
        let mut t: usize = 0;
        while t < total
            invariant
                t <= total,
                pre.wf(),
                pre.sub_live(sh_i),
                sh_i == sh as int,
                total == pre.queue(sh_i).len(),
                (sh as int) < self.sub_ports@.len(),
                self.sub_ports@.len() == pre.sub_ports@.len(),
                self.pub_ports@.len() == pre.pub_ports@.len(),
                self.config == pre.config,
                self.dynamic == pre.dynamic,
                self.next_port_id == pre.next_port_id,
                forall|j: int|
                    0 <= j < pre.sub_ports@.len() && j != sh_i ==> self.sub_ports@[j]
                        == pre.sub_ports@[j],
                self.sub_live(sh_i),
                self.sub_details(sh_i) == pre.sub_details(sh_i),
                self.queue(sh_i) == pre.queue(sh_i).subrange(t as int, total as int),
                forall|q: int| #![auto] self.pub_live(q) <==> pre.pub_live(q),
                forall|q: int| self.pub_live(q) ==> #[trigger] self.pub_port_wf(q),
                forall|s: int| self.sub_live(s) ==> #[trigger] self.sub_port_wf(s),
                forall|q: int| #![auto]
                    pre.pub_live(q) ==> {
                        &&& self.pub_details(q) == pre.pub_details(q)
                        &&& self.pub_max_loaned(q) == pre.pub_max_loaned(q)
                        &&& self.pub_strategy(q) == pre.pub_strategy(q)
                        &&& self.num_slots(q) == pre.num_slots(q)
                        &&& self.seg_capacity(q) == pre.seg_capacity(q)
                        &&& self.loans(q) == pre.loans(q)
                    },
                forall|q: int, j: int| #![auto]
                    pre.pub_live(q) && 0 <= j < pre.num_slots(q) ==> {
                        &&& self.slot_payload(q, j) == pre.slot_payload(q, j)
                        &&& self.slot_borrows(q, j) == pre.slot_borrows(q, j)
                        &&& self.slot_refcount(q, j) as int == pre.slot_refcount(q, j) - (
                        count_entry(pre.queue(sh_i), q, j) - count_entry(self.queue(sh_i), q, j))
                    },
                forall|q: int, j: int|
                    self.pub_live(q) && 0 <= j < self.num_slots(q) ==> #[trigger] self
                        .slot_accounted(q, j),
                forall|q: int, j: int|
                    self.pub_live(q) && 0 <= j < self.num_slots(q) ==> #[trigger] self
                        .loaned_slot_unshared(q, j),
            decreases total - t,
        {
            let ghost it0 = *self;
            let mut entry = QueueEntry { publisher: 0, slot: 0 };
            match &mut self.sub_ports[sh] {
                Some(sp) => {
                    entry = sp.queue.remove(0);
                },
                None => {
                    proof {
                        assert(false);
                    }
                },
            }
            let ghost st1 = *self;
            proof {
                let q0 = it0.queue(sh_i);
                assert(entry == q0[0]);
                assert(q0[0] == pre.queue(sh_i)[t as int]);
                assert(st1.queue(sh_i) =~= q0.subrange(1, q0.len() as int));
                assert(st1.queue(sh_i) =~= pre.queue(sh_i).subrange(t as int + 1, total as int));
                assert(st1.sub_ports@ == it0.sub_ports@.update(sh_i, st1.sub_ports@[sh_i]));
                let ep = entry.publisher as int;
                let es = entry.slot as int;
                assert(it0.sub_port_wf(sh_i));
                assert(it0.entry_wf(q0[0]));
                lemma_count_entry_at_least_one(q0, ep, es, 0);
                lemma_total_occ_lower(it0.sub_ports@, sh_i, ep, es);
                assert(it0.slot_accounted(ep, es));
                assert(it0.slot_refcount(ep, es) >= 1);
                assert forall|q: int, i2: int| true implies total_occ(st1.sub_ports@, q, i2) + (
                if entry.publisher as int == q && entry.slot as int == i2 {
                    1nat
                } else {
                    0nat
                }) == total_occ(it0.sub_ports@, q, i2) by {
                    lemma_occ_after_drop_first(it0.sub_ports@, st1.sub_ports@, sh_i, q, i2);
                }
                lemma_count_entry_drop_first(q0, ep, es);
                assert(st1.pub_ports@ == it0.pub_ports@);
                assert(it0.pub_port_wf(ep));
            }
            match &mut self.pub_ports[entry.publisher] {
                Some(port) => {
                    port.segment.release(entry.slot);
                },
                None => {
                    proof {
                        assert(false);
                    }
                },
            }
            proof {
                let post = &*self;
                let ep = entry.publisher as int;
                let es = entry.slot as int;
                assert(post.pub_ports@ == st1.pub_ports@.update(ep, post.pub_ports@[ep]));
                assert forall|q2: int| post.pub_live(q2) implies #[trigger] post.pub_port_wf(
                    q2,
                ) by {
                    assert(it0.pub_port_wf(q2));
                }
                assert forall|s2: int| post.sub_live(s2) implies #[trigger] post.sub_port_wf(
                    s2,
                ) by {
                    assert(it0.sub_port_wf(s2));
                    if s2 == sh_i {
                        let q0 = it0.queue(sh_i);
                        assert forall|kk: int|
                            0 <= kk < post.queue(s2).len() implies post.entry_wf(
                            #[trigger] post.queue(s2)[kk],
                        ) by {
                            assert(post.queue(s2)[kk] == q0[kk + 1]);
                            assert(it0.entry_wf(q0[kk + 1]));
                        }
                    } else {
                        assert forall|kk: int|
                            0 <= kk < post.queue(s2).len() implies post.entry_wf(
                            #[trigger] post.queue(s2)[kk],
                        ) by {
                            assert(it0.entry_wf(it0.queue(s2)[kk]));
                        }
                    }
                }
                assert forall|q: int, j: int|
                    post.pub_live(q) && 0 <= j < post.num_slots(q) implies #[trigger] post
                    .slot_accounted(q, j) by {
                    assert(it0.slot_accounted(q, j));
                }
                assert forall|q: int, j: int|
                    post.pub_live(q) && 0 <= j < post.num_slots(q) implies #[trigger] post
                    .loaned_slot_unshared(q, j) by {
                    assert(it0.loaned_slot_unshared(q, j));
                    if index_in(post.loans(q), j) {
                        assert(total_occ(it0.sub_ports@, q, j) == 0);
                        if q == ep && j == es {
                            assert(false);
                        }
                    }
                }
                assert forall|q: int, j: int|
                    pre.pub_live(q) && 0 <= j < pre.num_slots(q) implies {
                    &&& post.slot_payload(q, j) == pre.slot_payload(q, j)
                    &&& post.slot_borrows(q, j) == pre.slot_borrows(q, j)
                    &&& post.slot_refcount(q, j) as int == pre.slot_refcount(q, j) - (count_entry(
                        pre.queue(sh_i),
                        q,
                        j,
                    ) - count_entry(post.queue(sh_i), q, j))
                } by {
                    let q0 = it0.queue(sh_i);
                    assert(it0.slot_payload(q, j) == pre.slot_payload(q, j));
                    assert(it0.slot_borrows(q, j) == pre.slot_borrows(q, j));
                    assert(it0.slot_refcount(q, j) as int == pre.slot_refcount(q, j) - (
                    count_entry(pre.queue(sh_i), q, j) - count_entry(it0.queue(sh_i), q, j)));
                    lemma_count_entry_drop_first(q0, q, j);
                    assert(q0.subrange(1, q0.len() as int) =~= post.queue(sh_i));
                    assert(count_entry(q0, q, j) == count_entry(post.queue(sh_i), q, j) + (
                    if q0[0].publisher as int == q && q0[0].slot as int == j {
                        1nat
                    } else {
                        0nat
                    }));
                    if q == ep && j == es {
                        assert(post.slot_refcount(q, j) as int == it0.slot_refcount(q, j) - 1);
                        assert(count_entry(post.queue(sh_i), q, j) + 1 == count_entry(
                            it0.queue(sh_i),
                            q,
                            j,
                        ));
                    } else {
                        assert(post.slot_refcount(q, j) == it0.slot_refcount(q, j));
                        assert(count_entry(post.queue(sh_i), q, j) == count_entry(
                            it0.queue(sh_i),
                            q,
                            j,
                        ));
                    }
                }
            }
            t = t + 1;
        }
        proof {
            assert(self.queue(sh_i) =~= Seq::<QueueEntry>::empty());
        }
        let ghost st_loop = *self;
        self.sub_ports[sh] = None;
        let ghost st_removed = *self;
        self.dynamic.release_subscriber_handle(crate::container::ContainerHandle::from_index(sh));
        proof {
            let post = &*self;
            assert(st_removed.sub_ports@ == st_loop.sub_ports@.update(
                sh_i,
                Option::<SubscriberPort>::None,
            ));
            assert(post.sub_ports@ == st_removed.sub_ports@);
            assert(post.pub_ports@ == st_loop.pub_ports@);
            assert(pre.dynamic.subscribers_view()[sh_i] is Some);
            assert(post.dynamic.subscribers_view() == pre.dynamic.subscribers_view().update(
                sh_i,
                Option::<SubscriberDetails>::None,
            ));
            crate::container::lemma_occupied_count_update(
                pre.dynamic.subscribers_view(),
                sh_i,
                Option::<SubscriberDetails>::None,
            );
            assert forall|q2: int| post.pub_live(q2) implies #[trigger] post.pub_port_wf(q2) by {
                assert(st_loop.pub_port_wf(q2));
            }
            assert forall|s2: int| post.sub_live(s2) implies #[trigger] post.sub_port_wf(s2) by {
                assert(st_loop.sub_port_wf(s2));
                let q = st_loop.sub_ports@[s2]->0.queue@;
                assert forall|kk: int| 0 <= kk < q.len() implies post.entry_wf(#[trigger] q[kk]) by {
                    assert(st_loop.entry_wf(q[kk]));
                }
            }
            assert forall|q: int, j: int|
                post.pub_live(q) && 0 <= j < post.num_slots(q) implies #[trigger] post
                .slot_accounted(q, j) by {
                assert(st_loop.slot_accounted(q, j));
                lemma_total_occ_update(
                    st_loop.sub_ports@,
                    sh_i,
                    Option::<SubscriberPort>::None,
                    q,
                    j,
                );
            }
            assert forall|q: int, j: int|
                post.pub_live(q) && 0 <= j < post.num_slots(q) implies #[trigger] post
                .loaned_slot_unshared(q, j) by {
                assert(st_loop.loaned_slot_unshared(q, j));
                lemma_total_occ_update(
                    st_loop.sub_ports@,
                    sh_i,
                    Option::<SubscriberPort>::None,
                    q,
                    j,
                );
            }
            assert(post.ids_unique()) by {
                assert forall|p1: int, p2: int|
                    post.pub_live(p1) && post.pub_live(p2) && p1 != p2 implies #[trigger] post
                    .pub_details(p1).publisher_id.value() != #[trigger] post.pub_details(
                    p2,
                ).publisher_id.value() by {
                    assert(pre.pub_details(p1).publisher_id.value() != pre.pub_details(
                        p2,
                    ).publisher_id.value());
                }
                assert forall|s1: int, s2: int|
                    post.sub_live(s1) && post.sub_live(s2) && s1 != s2 implies #[trigger] post
                    .sub_details(s1).subscriber_id.value() != #[trigger] post.sub_details(
                    s2,
                ).subscriber_id.value() by {
                    assert(pre.sub_details(s1).subscriber_id.value() != pre.sub_details(
                        s2,
                    ).subscriber_id.value());
                }
            }
            assert forall|p2: int|
                0 <= p2 < post.pub_ports@.len() implies ((#[trigger] post.pub_ports@[p2]) is Some
                <==> post.dynamic.publishers_view()[p2] is Some) by {
                assert(post.pub_live(p2) <==> pre.pub_live(p2));
            }
            assert forall|p2: int|
                0 <= p2 < post.pub_ports@.len() && post.pub_ports@[p2] is Some implies (
            #[trigger] post.dynamic.publishers_view()[p2])->0 == post.pub_ports@[p2]->0.details by {
                assert(post.pub_live(p2) && pre.pub_live(p2));
                assert(post.pub_details(p2) == pre.pub_details(p2));
            }
            assert forall|s2: int|
                0 <= s2 < post.sub_ports@.len() implies ((#[trigger] post.sub_ports@[s2]) is Some
                <==> post.dynamic.subscribers_view()[s2] is Some) by {
                if s2 != sh_i {
                    assert(post.sub_ports@[s2] == pre.sub_ports@[s2]);
                }
            }
            assert forall|s2: int|
                0 <= s2 < post.sub_ports@.len() && post.sub_ports@[s2] is Some implies (
            #[trigger] post.dynamic.subscribers_view()[s2])->0
                == post.sub_ports@[s2]->0.details by {
                assert(s2 != sh_i);
                assert(post.sub_ports@[s2] == pre.sub_ports@[s2]);
            }
            assert(post.wf());
            assert forall|q: int, j: int|
                pre.pub_live(q) && 0 <= j < pre.num_slots(q) implies {
                &&& post.slot_payload(q, j) == pre.slot_payload(q, j)
                &&& post.slot_borrows(q, j) == pre.slot_borrows(q, j)
                &&& post.slot_refcount(q, j) as int == pre.slot_refcount(q, j) - count_entry(
                    pre.queue(sh_i),
                    q,
                    j,
                )
            } by {
                assert(st_loop.slot_payload(q, j) == pre.slot_payload(q, j));
                assert(st_loop.slot_borrows(q, j) == pre.slot_borrows(q, j));
                assert(count_entry(st_loop.queue(sh_i), q, j) == 0);
                assert(st_loop.slot_refcount(q, j) as int == pre.slot_refcount(q, j) - (
                count_entry(pre.queue(sh_i), q, j) - count_entry(st_loop.queue(sh_i), q, j)));
                assert(post.slot_refcount(q, j) == st_loop.slot_refcount(q, j));
            }
            assert forall|s2: int| s2 != sh_i implies #[trigger] subscriber_state_eq(
                &pre,
                post,
                s2,
            ) by {}
        }
    }
}

impl Service {
    /// Loans a slot, writes a copy of the value into it and sends it in one
    /// step. Any loan failure is reported as an out-of-memory condition; a
    /// blocked delivery gives the slot back and reports that the caller may
    /// try again once a subscriber caught up.
    #[verifier::spinoff_prover]
    pub fn send_copy(&mut self, publisher: &Publisher, value: u64) -> (r: Result<
        SendCopyStatus,
        SendError,
    >)
        requires
            old(self).wf(),
            old(self).publisher_token_valid(publisher),
        ensures
            final(self).wf(),
            final(self).publisher_token_valid(publisher),
            r == Err::<SendCopyStatus, SendError>(SendError::OutOfMemory) <==> (old(
                self,
            ).loan_size_rejected(publisher.handle_spec(), 1) || old(self).loan_limit_reached(
                publisher.handle_spec(),
            ) || old(self).loan_out_of_memory(publisher.handle_spec())),
            r is Ok <==> !(old(self).loan_size_rejected(publisher.handle_spec(), 1) || old(
                self,
            ).loan_limit_reached(publisher.handle_spec()) || old(self).loan_out_of_memory(
                publisher.handle_spec(),
            )),
            r is Err ==> *final(self) == *old(self),
            r == Ok::<SendCopyStatus, SendError>(SendCopyStatus::WouldBlock) <==> (r is Ok && old(
                self,
            ).send_would_block(publisher.handle_spec())),
            r == Ok::<SendCopyStatus, SendError>(SendCopyStatus::WouldBlock) ==> {
                &&& (forall|s2: int| #[trigger] subscriber_state_eq(old(self), final(self), s2))
                &&& (forall|q: int|
                    q != publisher.handle_spec() ==> #[trigger] publisher_state_eq(
                        old(self),
                        final(self),
                        q,
                    ))
            },
            r is Ok ==> {
                let p = publisher.handle_spec();
                &&& (forall|l: int| #[trigger] final(self).loaned(p, l) <==> old(self).loaned(p, l))
                &&& final(self).loans(p).len() == old(self).loans(p).len()
                &&& final(self).pub_details(p) == old(self).pub_details(p)
                &&& final(self).pub_max_loaned(p) == old(self).pub_max_loaned(p)
                &&& final(self).pub_strategy(p) == old(self).pub_strategy(p)
                &&& old(self).num_slots(p) <= final(self).num_slots(p) <= old(self).num_slots(p)
                    + 1
                &&& (forall|q: int| #![auto] final(self).pub_live(q) <==> old(self).pub_live(q))
                &&& (forall|q: int| #![auto]
                    old(self).pub_live(q) && q != p ==> final(self).loans(q) == old(self).loans(
                        q,
                    ))
                &&& (forall|q: int| #![auto]
                    old(self).pub_live(q) && q != p ==> {
                        &&& final(self).pub_details(q) == old(self).pub_details(q)
                        &&& final(self).pub_max_loaned(q) == old(self).pub_max_loaned(q)
                        &&& final(self).pub_strategy(q) == old(self).pub_strategy(q)
                        &&& final(self).num_slots(q) == old(self).num_slots(q)
                        &&& final(self).seg_capacity(q) == old(self).seg_capacity(q)
                    })
                &&& (forall|q: int, j: int| #![auto]
                    old(self).pub_live(q) && 0 <= j < old(self).num_slots(q) ==> final(self).slot_borrows(q, j) == old(self).slot_borrows(q, j))
                &&& (forall|s2: int| #![auto] final(self).sub_live(s2) <==> old(self).sub_live(s2))
                &&& (forall|s2: int| #![auto]
                    old(self).sub_live(s2) ==> final(self).sub_details(s2) == old(
                        self,
                    ).sub_details(s2))
                &&& final(self).registry_publishers() == old(self).registry_publishers()
                &&& final(self).registry_subscribers() == old(self).registry_subscribers()
                &&& final(self).config_spec() == old(self).config_spec()
                &&& final(self).next_id_spec() == old(self).next_id_spec()
            },
            r matches Ok(SendCopyStatus::Delivered(n)) ==> (exists|i: usize|
                {
                    &&& !old(self).loaned(publisher.handle_spec(), i as int)
                    &&& (i as int) < final(self).num_slots(publisher.handle_spec())
                    &&& #[trigger] final(self).slot_payload(publisher.handle_spec(), i as int)
                        == seq![value]
                    &&& n as nat == final(self).queue_occurrences(publisher.handle_spec(), i as int)
                    &&& final(self).slot_refcount(publisher.handle_spec(), i as int) == n as u64
                    &&& !final(self).loaned(publisher.handle_spec(), i as int)
                    &&& (forall|q: int, j: int| #![auto]
                        old(self).pub_live(q) && 0 <= j < old(self).num_slots(q) && !(q
                            == publisher.handle_spec() && j == i as int) ==> final(self).slot_payload(q, j) == old(self).slot_payload(q, j))
                    &&& forall|s2: int| #![auto]
                        old(self).sub_live(s2) ==> final(self).queue(s2) == spec_deliver(
                            old(self).queue(s2),
                            old(self).sub_buffer(s2),
                            old(self).config_spec().enable_safe_overflow,
                            (QueueEntry { publisher: publisher.handle, slot: i }),
                        )
                }),
    {
        let got = self.loan_slice_uninit(publisher, 1);
        let s = match got {
            Ok(s) => s,
            Err(_) => {
                return Err(SendError::OutOfMemory);
            },
        };
        let ghost mid1 = *self;
        let ghost slot_g = s.slot;
        let sm = self.write_payload(s, value);
        let ghost mid2 = *self;
        proof {
            let pre = old(self);
            let p_i = publisher.handle_spec();
            assert(mid2.publisher_token_valid(publisher)) by {
                assert(mid1.publisher_token_valid(publisher));
                assert(publisher_state_eq(&mid1, &mid2, p_i) || mid2.pub_details(p_i) == mid1
                    .pub_details(p_i));
            }
            assert forall|s2: int| #[trigger] subscriber_state_eq(pre, &mid2, s2) by {
                assert(subscriber_state_eq(pre, &mid1, s2));
                assert(subscriber_state_eq(&mid1, &mid2, s2));
            }
            assert(mid2.pub_strategy(p_i) == pre.pub_strategy(p_i));
            assert(mid2.config_spec() == pre.config_spec());
            assert(mid2.send_would_block(p_i) <==> pre.send_would_block(p_i)) by {
                if mid2.send_would_block(p_i) {
                    let j = choose|j: int|
                        mid2.sub_live(j) && (#[trigger] mid2.queue(j)).len() >= mid2.sub_buffer(j);
                    assert(subscriber_state_eq(pre, &mid2, j));
                    assert(pre.sub_live(j) && pre.queue(j).len() >= pre.sub_buffer(j));
                }
                if pre.send_would_block(p_i) {
                    let j = choose|j: int|
                        pre.sub_live(j) && (#[trigger] pre.queue(j)).len() >= pre.sub_buffer(j);
                    assert(subscriber_state_eq(pre, &mid2, j));
                    assert(mid2.sub_live(j) && mid2.queue(j).len() >= mid2.sub_buffer(j));
                }
            }
            assert forall|l: int| #[trigger] mid2.loaned(p_i, l) <==> (pre.loaned(p_i, l) || l
                == slot_g as int) by {
                assert(mid2.loans(p_i) == pre.loans(p_i).push(slot_g));
                if mid2.loaned(p_i, l) {
                    let k = choose|k: int|
                        0 <= k < mid2.loans(p_i).len() && mid2.loans(p_i)[k] as int == l;
                    if k < pre.loans(p_i).len() {
                        assert(pre.loans(p_i)[k] as int == l);
                    }
                }
                if pre.loaned(p_i, l) {
                    let k = choose|k: int|
                        0 <= k < pre.loans(p_i).len() && pre.loans(p_i)[k] as int == l;
                    assert(mid2.loans(p_i)[k] as int == l);
                }
                if l == slot_g as int {
                    assert(mid2.loans(p_i)[pre.loans(p_i).len() as int] as int == l);
                }
            }
            assert forall|q: int, j: int| #![auto]
                pre.pub_live(q) && 0 <= j < pre.num_slots(q) implies mid2.slot_borrows(q, j)
                == pre.slot_borrows(q, j) by {
                if q != p_i {
                    assert(publisher_state_eq(pre, &mid1, q));
                    assert(publisher_state_eq(&mid1, &mid2, q));
                } else {
                    if j != slot_g as int {
                        assert(mid1.slot_borrows(q, j) == pre.slot_borrows(q, j));
                        assert(mid2.slot_borrows(q, j) == mid1.slot_borrows(q, j));
                    } else {
                        assert(pre.slot_borrows(p_i, j) == 0);
                        assert(mid1.slot_borrows(p_i, j) == 0);
                        assert(mid2.slot_borrows(p_i, j) == mid1.slot_borrows(p_i, j));
                    }
                }
            }
        }
        let sent = self.send(sm);
        match sent {
            SendStatus::Delivered(n) => {
                proof {
                    let pre = old(self);
                    let post = &*self;
                    let p_i = publisher.handle_spec();
                    let i = slot_g;
                    assert forall|s2: int| #![auto]
                        pre.sub_live(s2) implies post.queue(s2) == spec_deliver(
                        pre.queue(s2),
                        pre.sub_buffer(s2),
                        pre.config_spec().enable_safe_overflow,
                        (QueueEntry { publisher: publisher.handle, slot: i }),
                    ) by {
                        assert(subscriber_state_eq(pre, &mid2, s2));
                        assert(mid2.sub_live(s2));
                        assert(post.queue(s2) == spec_deliver(
                            mid2.queue(s2),
                            mid2.sub_buffer(s2),
                            mid2.config_spec().enable_safe_overflow,
                            (QueueEntry { publisher: publisher.handle, slot: i }),
                        ));
                    }
                    assert(post.slot_payload(p_i, i as int) == mid2.slot_payload(p_i, i as int));
                    assert(post.slot_payload(p_i, i as int) == seq![value]);
                    assert(post.loans(p_i).len() == pre.loans(p_i).len());
                    assert(!mid2.send_would_block(p_i));
                    assert(!pre.send_would_block(p_i));
                    assert forall|l: int| #[trigger] post.loaned(p_i, l) <==> pre.loaned(
                        p_i,
                        l,
                    ) by {
                        assert(post.loaned(p_i, l) <==> (mid2.loaned(p_i, l) && l != i as int));
                        if l == i as int {
                            assert(!pre.loaned(p_i, l));
                        }
                    }
                    assert forall|q: int| #![auto]
                        pre.pub_live(q) && q != p_i implies {
                        &&& post.loans(q) == pre.loans(q)
                        &&& post.pub_details(q) == pre.pub_details(q)
                        &&& post.pub_max_loaned(q) == pre.pub_max_loaned(q)
                        &&& post.pub_strategy(q) == pre.pub_strategy(q)
                        &&& post.num_slots(q) == pre.num_slots(q)
                        &&& post.seg_capacity(q) == pre.seg_capacity(q)
                    } by {
                        assert(publisher_state_eq(pre, &mid1, q));
                        assert(publisher_state_eq(&mid1, &mid2, q));
                        assert(mid2.pub_live(q));
                    }
                    assert forall|q: int, j: int| #![auto]
                        pre.pub_live(q) && 0 <= j < pre.num_slots(q) implies post.slot_borrows(
                        q,
                        j,
                    ) == pre.slot_borrows(q, j) by {
                        assert(mid2.slot_borrows(q, j) == pre.slot_borrows(q, j));
                        assert(mid2.pub_live(q));
                        assert(post.slot_borrows(q, j) == mid2.slot_borrows(q, j));
                    }
                    assert forall|q: int, j: int| #![auto]
                        pre.pub_live(q) && 0 <= j < pre.num_slots(q) && !(q == p_i && j
                            == i as int) implies post.slot_payload(q, j) == pre.slot_payload(
                        q,
                        j,
                    ) by {
                        if q != p_i {
                            assert(publisher_state_eq(pre, &mid1, q));
                            assert(publisher_state_eq(&mid1, &mid2, q));
                        } else {
                            assert(mid1.slot_payload(q, j) == pre.slot_payload(q, j));
                            assert(mid2.slot_payload(q, j) == mid1.slot_payload(q, j));
                        }
                        assert(mid2.pub_live(q));
                        assert(post.slot_payload(q, j) == mid2.slot_payload(q, j));
                    }
                    assert(post.pub_details(p_i) == mid2.pub_details(p_i));
                    assert(post.pub_max_loaned(p_i) == mid2.pub_max_loaned(p_i));
                    assert(post.pub_strategy(p_i) == mid2.pub_strategy(p_i));
                    assert(post.num_slots(p_i) == mid2.num_slots(p_i));
                    assert(mid2.num_slots(p_i) == mid1.num_slots(p_i));
                    assert forall|q: int| #![auto] post.pub_live(q) <==> pre.pub_live(q) by {
                        if q != p_i {
                            assert(publisher_state_eq(pre, &mid1, q));
                            assert(publisher_state_eq(&mid1, &mid2, q));
                        }
                        assert(post.pub_live(q) <==> mid2.pub_live(q));
                    }
                    assert forall|s2: int| #![auto] post.sub_live(s2) <==> pre.sub_live(s2) by {
                        assert(subscriber_state_eq(pre, &mid2, s2));
                        assert(post.sub_live(s2) <==> mid2.sub_live(s2));
                    }
                    assert forall|s2: int| #![auto]
                        pre.sub_live(s2) implies post.sub_details(s2) == pre.sub_details(s2) by {
                        assert(subscriber_state_eq(pre, &mid2, s2));
                        assert(mid2.sub_live(s2));
                        assert(post.sub_details(s2) == mid2.sub_details(s2));
                    }
                }
                Ok(SendCopyStatus::Delivered(n))
            },
            SendStatus::WouldBlock(sm2) => {
                let ghost mid3 = *self;
                proof {
                    assert(mid3 == mid2);
                    assert(mid2.init_sample_valid(&sm2));
                    assert(sm2.publisher == publisher.handle);
                    assert(sm2.slot == slot_g);
                }
                let ghost sp = sm2.publisher;
                let ghost ss = sm2.slot;
                self.drop_sample(sm2);
                proof {
                    let pre = old(self);
                    let post = &*self;
                    let p_i = publisher.handle_spec();
                    assert forall|s2: int| #[trigger] subscriber_state_eq(pre, post, s2) by {
                        assert(subscriber_state_eq(pre, &mid2, s2));
                        assert(subscriber_state_eq(&mid2, post, s2));
                    }
                    assert(post.loans(p_i).len() == pre.loans(p_i).len());
                    assert(post.publisher_token_valid(publisher)) by {
                        assert(mid2.publisher_token_valid(publisher));
                        assert(post.pub_details(p_i) == mid2.pub_details(p_i));
                        assert(post.pub_max_loaned(p_i) == mid2.pub_max_loaned(p_i));
                    }
                    assert(mid2.send_would_block(p_i));
                    assert(pre.send_would_block(p_i));
                    assert forall|l: int| #[trigger] post.loaned(p_i, l) <==> pre.loaned(
                        p_i,
                        l,
                    ) by {
                        assert(post.loaned(p_i, l) <==> (mid2.loaned(p_i, l) && l
                            != slot_g as int));
                        if l == slot_g as int {
                            assert(!pre.loaned(p_i, l));
                        }
                    }
                    assert forall|q: int| q != p_i implies #[trigger] publisher_state_eq(
                        pre,
                        post,
                        q,
                    ) by {
                        assert(publisher_state_eq(pre, &mid1, q));
                        assert(publisher_state_eq(&mid1, &mid2, q));
                        assert(publisher_state_eq(&mid2, post, q));
                    }
                    assert forall|q: int| #![auto]
                        pre.pub_live(q) && q != p_i implies {
                        &&& post.loans(q) == pre.loans(q)
                        &&& post.pub_details(q) == pre.pub_details(q)
                        &&& post.pub_max_loaned(q) == pre.pub_max_loaned(q)
                        &&& post.pub_strategy(q) == pre.pub_strategy(q)
                        &&& post.num_slots(q) == pre.num_slots(q)
                        &&& post.seg_capacity(q) == pre.seg_capacity(q)
                    } by {
                        assert(publisher_state_eq(pre, post, q));
                    }
                    assert forall|q: int, j: int| #![auto]
                        pre.pub_live(q) && 0 <= j < pre.num_slots(q) implies post.slot_borrows(
                        q,
                        j,
                    ) == pre.slot_borrows(q, j) by {
                        assert(mid2.slot_borrows(q, j) == pre.slot_borrows(q, j));
                        assert(mid2.pub_live(q));
                        if q != p_i {
                            assert(publisher_state_eq(pre, &mid1, q));
                            assert(publisher_state_eq(&mid1, &mid2, q));
                        } else {
                            assert(mid2.num_slots(q) == mid1.num_slots(q));
                        }
                        assert(pre.num_slots(q) <= mid2.num_slots(q));
                        if q == p_i && j == slot_g as int {
                            assert(post.slot_borrows(sp as int, ss as int) == mid2.slot_borrows(
                                sp as int,
                                ss as int,
                            ));
                        } else if q == p_i {
                            assert(post.slot_borrows(q, j) == mid2.slot_borrows(q, j));
                        } else {
                            assert(publisher_state_eq(&mid2, post, q));
                        }
                    }
                    assert(post.pub_details(p_i) == mid2.pub_details(p_i));
                    assert(post.pub_strategy(p_i) == mid2.pub_strategy(p_i));
                    assert(post.num_slots(p_i) == mid2.num_slots(p_i));
                    assert(mid2.num_slots(p_i) == mid1.num_slots(p_i));
                    assert forall|q: int| #![auto] post.pub_live(q) <==> pre.pub_live(q) by {
                        if q != p_i {
                            assert(publisher_state_eq(pre, &mid1, q));
                            assert(publisher_state_eq(&mid1, &mid2, q));
                        }
                        assert(post.pub_live(q) <==> mid2.pub_live(q));
                    }
                }
                Ok(SendCopyStatus::WouldBlock)
            },
        }
    }
}

/// The queue of one subscriber after a publisher delivered the entries `es`
/// to it one send at a time, oldest first.
pub open spec fn deliver_all(
    q: Seq<QueueEntry>,
    cap: int,
    overflow: bool,
    es: Seq<QueueEntry>,
) -> Seq<QueueEntry>
    decreases es.len(),
{
    if es.len() == 0 {
        q
    } else {
        deliver_all(spec_deliver(q, cap, overflow, es[0]), cap, overflow, es.drop_first())
    }
}

/// FIFO order per publisher/subscriber pair: a sequence of sends whose
/// entries all fit into the subscriber's buffer queues them in send order
/// behind what the queue already held. Since `receive` always pops the front
/// of the queue, the j-th receive afterwards returns the j-th entry — and
/// with it the j-th sent payload — with no gap in the received prefix.
pub proof fn lemma_fifo_order(q0: Seq<QueueEntry>, cap: int, overflow: bool, es: Seq<QueueEntry>)
    requires
        q0.len() + es.len() <= cap,
    ensures
        deliver_all(q0, cap, overflow, es) == q0 + es,
    decreases es.len(),
{
    if es.len() == 0 {
        assert(q0 + es =~= q0);
    } else {
        assert(spec_deliver(q0, cap, overflow, es[0]) == q0.push(es[0]));
        lemma_fifo_order(q0.push(es[0]), cap, overflow, es.drop_first());
        assert(q0.push(es[0]) + es.drop_first() =~= q0 + es);
    }
}

/// The entries a subscriber sees when it pops the front of its queue `j`
/// times, in the order it sees them.
pub open spec fn received_entries(q: Seq<QueueEntry>, j: int) -> Seq<QueueEntry>
    decreases j,
{
    if j <= 0 || q.len() == 0 {
        Seq::empty()
    } else {
        seq![q[0]] + received_entries(q.subrange(1, q.len() as int), j - 1)
    }
}

/// Popping the front of a queue `j` times yields exactly its first `j`
/// entries, in queue order: the received prefix has no gap and no
/// reordering.
pub proof fn lemma_received_prefix(q: Seq<QueueEntry>, j: int)
    requires
        0 <= j <= q.len(),
    ensures
        received_entries(q, j) == q.take(j),
    decreases j,
{
    if j == 0 {
        assert(received_entries(q, j) =~= q.take(0));
    } else {
        let tail = q.subrange(1, q.len() as int);
        lemma_received_prefix(tail, j - 1);
        assert(seq![q[0]] + tail.take(j - 1) =~= q.take(j));
    }
}

/// A send into an empty subscriber queue leaves exactly the sent entry in
/// the queue: the next receive returns that entry's slot payload. Together
/// with `write_payload`'s contract (the slot holds the written value) and
/// `send`'s payload preservation, the received payload equals the value the
/// publisher wrote; a default-filled loan is received as the default value.
pub proof fn lemma_empty_queue_roundtrip(cap: int, overflow: bool, e: QueueEntry)
    requires
        cap >= 1,
    ensures
        spec_deliver(Seq::<QueueEntry>::empty(), cap, overflow, e) =~= seq![e],
{
}

impl Service {
    /// How often the queues of the subscriber handles below `k` refer to
    /// slot `i` of publisher `p`: one term per live handle.
    pub open spec fn queue_occ_upto(&self, p: int, i: int, k: int) -> nat
        decreases k,
    {
        if k <= 0 {
            0
        } else {
            self.queue_occ_upto(p, i, k - 1) + (if self.sub_live(k - 1) {
                count_entry(self.queue(k - 1), p, i)
            } else {
                0nat
            })
        }
    }

    proof fn lemma_occ_upto(&self, p: int, i: int, k: int)
        requires
            0 <= k <= self.sub_ports@.len(),
        ensures
            total_occ(self.sub_ports@.take(k), p, i) == self.queue_occ_upto(p, i, k),
        decreases k,
    {
        if k > 0 {
            self.lemma_occ_upto(p, i, k - 1);
            assert(self.sub_ports@.take(k).drop_last() =~= self.sub_ports@.take(k - 1));
        }
    }

    /// The total occurrence count of a slot is the sum of the per-queue
    /// counts over all subscriber handles: the bridge from
    /// [`Self::queue_occurrences`] to the individual queues.
    pub proof fn lemma_queue_occurrences_decomposed(&self, p: int, i: int)
        ensures
            self.queue_occurrences(p, i) == self.queue_occ_upto(
                p,
                i,
                self.n_subscriber_slots(),
            ),
    {
        self.lemma_occ_upto(p, i, self.n_subscriber_slots());
        assert(self.sub_ports@.take(self.sub_ports@.len() as int) =~= self.sub_ports@);
    }

    /// With no live subscriber, no queue refers to any slot.
    pub proof fn lemma_queue_occurrences_none(&self, p: int, i: int)
        requires
            forall|j: int| !self.sub_live(j),
        ensures
            self.queue_occurrences(p, i) == 0,
    {
        assert forall|j: int| 0 <= j < self.sub_ports@.len() implies qcount(
            #[trigger] self.sub_ports@[j],
            p,
            i,
        ) == 0 by {
            assert(!self.sub_live(j));
        }
        lemma_total_occ_zero(self.sub_ports@, p, i);
    }

    /// With exactly one live subscriber, the total occurrence count of every
    /// slot is the count in that subscriber's queue.
    pub proof fn lemma_queue_occurrences_single(&self, p: int, i: int, s: int)
        requires
            self.sub_live(s),
            forall|j: int| j != s ==> !self.sub_live(j),
        ensures
            self.queue_occurrences(p, i) == count_entry(self.queue(s), p, i),
    {
        assert forall|j: int|
            0 <= j < self.sub_ports@.len() && j != s implies (#[trigger] self.sub_ports@[j])
            is None by {
            assert(!self.sub_live(j));
        }
        lemma_total_occ_single(self.sub_ports@, s, p, i);
    }

    /// Under well-formedness the accounting equation holds of every slot —
    /// its reference count equals loan plus queue occurrences plus read
    /// borrows — and a loaned slot is referenced by nothing but its loan.
    pub proof fn lemma_slot_accounting(&self, p: int, i: int)
        requires
            self.wf(),
            self.pub_live(p),
            0 <= i < self.num_slots(p),
        ensures
            self.slot_accounted(p, i),
            self.loaned_slot_unshared(p, i),
    {
    }

    /// A loaned slot index lies below the segment's slot count, so the other
    /// slot lemmas apply to a bare loan token.
    pub proof fn lemma_loaned_slot_in_range(&self, p: int, i: int)
        requires
            self.wf(),
            self.pub_live(p),
            self.loaned(p, i),
        ensures
            0 <= i < self.num_slots(p),
    {
        assert(self.pub_port_wf(p));
        let k = choose|k: int| 0 <= k < self.loans(p).len() && self.loans(p)[k] as int == i;
        assert((self.loans(p)[k] as int) < self.num_slots(p));
    }

    /// A slot whose reference count is zero is on the publisher's free list,
    /// so a loan from that publisher is not out of memory.
    pub proof fn lemma_free_slot_available(&self, p: int, i: int)
        requires
            self.wf(),
            self.pub_live(p),
            0 <= i < self.num_slots(p),
            self.slot_refcount(p, i) == 0,
        ensures
            !self.loan_out_of_memory(p),
    {
        assert(self.pub_port_wf(p));
        let seg = self.pub_ports@[p]->0.segment;
        seg.lemma_zero_refcount_slot_is_free(i);
    }

    /// Every publisher has at most `max_loaned_samples` loans outstanding.
    pub proof fn lemma_outstanding_loans_bounded(&self, p: int)
        requires
            self.wf(),
            self.pub_live(p),
        ensures
            self.loans(p).len() <= self.pub_max_loaned(p),
    {
        assert(self.pub_port_wf(p));
    }

    /// Every subscriber queue holds at most `buffer_size` undelivered
    /// samples, and no buffer exceeds the service-wide limit.
    pub proof fn lemma_queue_bounded(&self, s: int)
        requires
            self.wf(),
            self.sub_live(s),
        ensures
            self.queue(s).len() <= self.sub_buffer(s),
            self.sub_buffer(s) <= self.config_spec().subscriber_max_buffer_size,
    {
        assert(self.sub_port_wf(s));
    }

    /// A slot that anything still refers to — an outstanding loan, a
    /// subscriber queue entry, or a read borrow held by a received sample —
    /// has a reference count of at least one: no slot with a reference count
    /// of zero is ever observed through a live sample, and no such slot is
    /// reallocated while referenced.
    pub proof fn lemma_referenced_slot_alive(&self, p: int, i: int)
        requires
            self.wf(),
            self.pub_live(p),
            0 <= i < self.num_slots(p),
            self.loaned(p, i) || self.queue_occurrences(p, i) >= 1 || self.slot_borrows(p, i)
                >= 1,
        ensures
            self.slot_refcount(p, i) >= 1,
    {
        assert(self.slot_accounted(p, i));
    }

    /// A received sample always refers to a slot whose reference count is at
    /// least one until the sample is released.
    pub proof fn lemma_live_sample_slot_alive(&self, sample: &Sample)
        requires
            self.wf(),
            self.recv_sample_valid(sample),
        ensures
            self.slot_refcount(sample.publisher as int, sample.slot as int) >= 1,
    {
        self.lemma_referenced_slot_alive(sample.publisher as int, sample.slot as int);
    }
}

impl Service {
    /// Disconnects a publisher that has no loans outstanding: its remaining
    /// entries are scrubbed from every subscriber queue — no stale identifier
    /// into the vanished data segment survives — and the endpoint leaves the
    /// registry together with its data segment.
    #[verifier::spinoff_prover]
    #[verifier::rlimit(100)]
    pub fn drop_publisher(&mut self, publisher: Publisher)
        requires
            old(self).wf(),
            old(self).publisher_token_valid(&publisher),
            old(self).loans(publisher.handle_spec()).len() == 0,
        ensures
            final(self).wf(),
            !final(self).pub_live(publisher.handle_spec()),
            occupied_count(final(self).registry_publishers()) + 1 == occupied_count(
                old(self).registry_publishers(),
            ),
            forall|q: int|
                q != publisher.handle_spec() ==> #[trigger] publisher_state_eq(
                    old(self),
                    final(self),
                    q,
                ),
            forall|s: int| #![auto] final(self).sub_live(s) <==> old(self).sub_live(s),
            forall|s: int| #![auto]
                old(self).sub_live(s) ==> {
                    &&& final(self).sub_details(s) == old(self).sub_details(s)
                    &&& final(self).queue(s) == queue_without_publisher(
                        old(self).queue(s),
                        publisher.handle_spec(),
                    )
                },
            final(self).registry_subscribers() == old(self).registry_subscribers(),
            final(self).config_spec() == old(self).config_spec(),
            final(self).next_id_spec() == old(self).next_id_spec(),
    {
        let p = publisher.handle;
        let ghost p_i = p as int;
        let ghost pre = *old(self);
        let n_subs = self.sub_ports.len();
        let mut k: usize = 0;
        while k < n_subs
            invariant
                k <= n_subs,
                pre.wf(),
                pre.pub_live(p_i),
                pre.loans(p_i).len() == 0,
                p_i == p as int,
                n_subs == self.sub_ports@.len(),
                self.sub_ports@.len() == pre.sub_ports@.len(),
                self.pub_ports@ == pre.pub_ports@,
                self.config == pre.config,
                self.dynamic == pre.dynamic,
                self.next_port_id == pre.next_port_id,
                forall|j: int| k <= j < n_subs ==> self.sub_ports@[j] == pre.sub_ports@[j],
                forall|j: int| #![auto] self.sub_live(j) <==> pre.sub_live(j),
                forall|j: int| #![auto]
                    0 <= j < k && pre.sub_live(j) ==> {
                        &&& self.sub_details(j) == pre.sub_details(j)
                        &&& self.queue(j) == queue_without_publisher(pre.queue(j), p_i)
                    },
                forall|s: int| self.sub_live(s) ==> #[trigger] self.sub_port_wf(s),
                forall|q2: int, j2: int|
                    q2 != p_i && self.pub_live(q2) && 0 <= j2 < self.num_slots(q2)
                        ==> #[trigger] self.slot_accounted(q2, j2),
                forall|q2: int, j2: int|
                    self.pub_live(q2) && 0 <= j2 < self.num_slots(q2) ==> #[trigger] self
                        .loaned_slot_unshared(q2, j2),
            decreases n_subs - k,
        {
            let ghost it0 = *self;
            let present = match &self.sub_ports[k] {
                Some(_) => true,
                None => false,
            };
            if present {
                let mut old_q: Vec<QueueEntry> = Vec::new();
                match &mut self.sub_ports[k] {
                    Some(sp) => {
                        core::mem::swap(&mut sp.queue, &mut old_q);
                    },
                    None => {
                        proof {
                            assert(false);
                        }
                    },
                }
                proof {
                    assert(old_q@ == it0.queue(k as int));
                }
                let m = old_q.len();
                let mut kept: Vec<QueueEntry> = Vec::new();
                let mut t: usize = 0;
                while t < m
                    invariant
                        t <= m,
                        m == old_q@.len(),
                        p_i == p as int,
                        kept@ == queue_without_publisher(old_q@.take(t as int), p_i),
                    decreases m - t,
                {
                    let ghost preq = old_q@.take(t as int);
                    assert(old_q@.take(t as int + 1).drop_last() =~= preq);
                    if old_q[t].publisher != p {
                        kept.push(old_q[t]);
                        assert(kept@ =~= queue_without_publisher(old_q@.take(t as int + 1), p_i));
                    } else {
                        assert(kept@ =~= queue_without_publisher(old_q@.take(t as int + 1), p_i));
                    }
                    t = t + 1;
                }
                proof {
                    assert(old_q@.take(m as int) =~= old_q@);
                }
                match &mut self.sub_ports[k] {
                    Some(sp) => {
                        sp.queue = kept;
                    },
                    None => {
                        proof {
                            assert(false);
                        }
                    },
                }
                proof {
                    let post = &*self;
                    let k_i = k as int;
                    let q0 = it0.queue(k_i);
                    assert(post.sub_ports@ =~= it0.sub_ports@.update(k_i, post.sub_ports@[k_i]));
                    assert(post.queue(k_i) == queue_without_publisher(q0, p_i));
                    assert(it0.sub_ports@[k_i] == pre.sub_ports@[k_i]);
                    assert(it0.sub_port_wf(k_i));
                    assert forall|s2: int| post.sub_live(s2) implies #[trigger] post.sub_port_wf(
                        s2,
                    ) by {
                        assert(it0.sub_port_wf(s2));
                        if s2 == k_i {
                            lemma_queue_without_publisher_len(q0, p_i);
                            assert forall|kk: int|
                                0 <= kk < post.queue(s2).len() implies post.entry_wf(
                                #[trigger] post.queue(s2)[kk],
                            ) by {
                                lemma_queue_without_publisher_entries(q0, p_i, kk);
                                let mm = choose|mm: int|
                                    0 <= mm < q0.len() && q0[mm] == queue_without_publisher(
                                        q0,
                                        p_i,
                                    )[kk] && queue_without_publisher(q0, p_i)[kk].publisher as int
                                        != p_i;
                                assert(it0.entry_wf(q0[mm]));
                            }
                        } else {
                            assert forall|kk: int|
                                0 <= kk < post.queue(s2).len() implies post.entry_wf(
                                #[trigger] post.queue(s2)[kk],
                            ) by {
                                assert(it0.entry_wf(it0.queue(s2)[kk]));
                            }
                        }
                    }
                    assert forall|q2: int, j2: int|
                        q2 != p_i && post.pub_live(q2) && 0 <= j2 < post.num_slots(q2) implies
                        #[trigger] post.slot_accounted(q2, j2) by {
                        assert(it0.slot_accounted(q2, j2));
                        lemma_total_occ_update(it0.sub_ports@, k_i, post.sub_ports@[k_i], q2, j2);
                        lemma_count_queue_without_publisher(q0, p_i, q2, j2);
                    }
                    assert forall|q2: int, j2: int|
                        post.pub_live(q2) && 0 <= j2 < post.num_slots(q2) implies #[trigger] post
                        .loaned_slot_unshared(q2, j2) by {
                        assert(it0.loaned_slot_unshared(q2, j2));
                        if index_in(post.loans(q2), j2) {
                            if q2 == p_i {
                                assert(pre.pub_port_wf(p_i));
                                let kk = choose|kk: int|
                                    0 <= kk < post.loans(p_i).len() && post.loans(p_i)[kk] as int
                                        == j2;
                                assert(false);
                            } else {
                                lemma_total_occ_update(
                                    it0.sub_ports@,
                                    k_i,
                                    post.sub_ports@[k_i],
                                    q2,
                                    j2,
                                );
                                lemma_count_queue_without_publisher(q0, p_i, q2, j2);
                            }
                        }
                    }
                }
            }
            k = k + 1;
        }
        let ghost st_loop = *self;
        self.pub_ports[p] = None;
        self.dynamic.release_publisher_handle(crate::container::ContainerHandle::from_index(p));
        proof {
            let post = &*self;
            assert(post.pub_ports@ == st_loop.pub_ports@.update(
                p_i,
                Option::<PublisherPort>::None,
            ));
            assert(post.sub_ports@ == st_loop.sub_ports@);
            assert(pre.dynamic.publishers_view()[p_i] is Some);
            assert(post.dynamic.publishers_view() == pre.dynamic.publishers_view().update(
                p_i,
                Option::<PublisherDetails>::None,
            ));
            crate::container::lemma_occupied_count_update(
                pre.dynamic.publishers_view(),
                p_i,
                Option::<PublisherDetails>::None,
            );
            assert forall|q2: int| post.pub_live(q2) implies #[trigger] post.pub_port_wf(q2) by {
                assert(pre.pub_port_wf(q2));
            }
            assert forall|s2: int| post.sub_live(s2) implies #[trigger] post.sub_port_wf(s2) by {
                assert(st_loop.sub_port_wf(s2));
                let q = st_loop.sub_ports@[s2]->0.queue@;
                assert(pre.sub_live(s2));
                assert(st_loop.sub_live(s2));
                assert(st_loop.queue(s2) == queue_without_publisher(pre.queue(s2), p_i));
                assert(q == queue_without_publisher(pre.queue(s2), p_i));
                assert forall|kk: int| 0 <= kk < q.len() implies post.entry_wf(#[trigger] q[kk]) by {
                    assert(st_loop.entry_wf(q[kk]));
                    lemma_queue_without_publisher_entries(pre.queue(s2), p_i, kk);
                }
            }
            assert forall|q2: int, j2: int|
                post.pub_live(q2) && 0 <= j2 < post.num_slots(q2) implies #[trigger] post
                .slot_accounted(q2, j2) by {
                assert(q2 != p_i);
                assert(st_loop.slot_accounted(q2, j2));
            }
            assert forall|q2: int, j2: int|
                post.pub_live(q2) && 0 <= j2 < post.num_slots(q2) implies #[trigger] post
                .loaned_slot_unshared(q2, j2) by {
                assert(st_loop.loaned_slot_unshared(q2, j2));
            }
            assert(post.ids_unique()) by {
                assert forall|p1: int, p2: int|
                    post.pub_live(p1) && post.pub_live(p2) && p1 != p2 implies #[trigger] post
                    .pub_details(p1).publisher_id.value() != #[trigger] post.pub_details(
                    p2,
                ).publisher_id.value() by {
                    assert(pre.pub_details(p1).publisher_id.value() != pre.pub_details(
                        p2,
                    ).publisher_id.value());
                }
                assert forall|s1: int, s2: int|
                    post.sub_live(s1) && post.sub_live(s2) && s1 != s2 implies #[trigger] post
                    .sub_details(s1).subscriber_id.value() != #[trigger] post.sub_details(
                    s2,
                ).subscriber_id.value() by {
                    assert(pre.sub_details(s1).subscriber_id.value() != pre.sub_details(
                        s2,
                    ).subscriber_id.value());
                }
            }
            assert forall|p2: int|
                0 <= p2 < post.pub_ports@.len() implies ((#[trigger] post.pub_ports@[p2]) is Some
                <==> post.dynamic.publishers_view()[p2] is Some) by {
                if p2 != p_i {
                    assert(post.pub_ports@[p2] == pre.pub_ports@[p2]);
                }
            }
            assert forall|p2: int|
                0 <= p2 < post.pub_ports@.len() && post.pub_ports@[p2] is Some implies (
            #[trigger] post.dynamic.publishers_view()[p2])->0 == post.pub_ports@[p2]->0.details by {
                assert(p2 != p_i);
                assert(post.pub_ports@[p2] == pre.pub_ports@[p2]);
            }
            assert forall|s2: int|
                0 <= s2 < post.sub_ports@.len() implies ((#[trigger] post.sub_ports@[s2]) is Some
                <==> post.dynamic.subscribers_view()[s2] is Some) by {
                assert(post.sub_live(s2) <==> pre.sub_live(s2));
            }
            assert forall|s2: int|
                0 <= s2 < post.sub_ports@.len() && post.sub_ports@[s2] is Some implies (
            #[trigger] post.dynamic.subscribers_view()[s2])->0
                == post.sub_ports@[s2]->0.details by {
                assert(post.sub_live(s2) && pre.sub_live(s2));
                assert(post.sub_details(s2) == pre.sub_details(s2));
            }
            assert(post.wf());
            assert forall|q: int| q != p_i implies #[trigger] publisher_state_eq(
                &pre,
                post,
                q,
            ) by {}
        }
    }
}

} // verus!
