use pubsub_core::container::{ContainerHandle, FixedSizeContainer};
use pubsub_core::segment::DataSegment;
use pubsub_core::ids::{NodeId, UniquePortId, UniquePublisherId, UniqueSubscriberId};
use pubsub_core::registry::{
    DynamicConfig, DynamicConfigSettings, PublisherDetails, SubscriberDetails,
};
use pubsub_core::segment::DataSegmentType;

fn publisher_details(id: u128, node: u128) -> PublisherDetails {
    PublisherDetails {
        publisher_id: UniquePublisherId::new(id),
        node_id: NodeId::new(node),
        number_of_samples: 8,
        max_slice_len: 1,
        data_segment_type: DataSegmentType::Static,
        max_number_of_segments: 1,
        owner_uid: 1000,
        group_gid: 1000,
        mode: 0o640,
    }
}

fn subscriber_details(id: u128, node: u128) -> SubscriberDetails {
    SubscriberDetails {
        subscriber_id: UniqueSubscriberId::new(id),
        node_id: NodeId::new(node),
        buffer_size: 2,
        owner_uid: 1000,
        group_gid: 1000,
        mode: 0o640,
    }
}

#[test]
fn container_add_and_remove_track_length() {
    // After N inserts and M removes with M <= N the container reports a
    // length of N - M.
    let mut sut: FixedSizeContainer<u64> = FixedSizeContainer::new(8);
    let mut handles: Vec<ContainerHandle> = vec![];

    for i in 0..5u64 {
        handles.push(sut.add(i).unwrap());
    }
    assert_eq!(sut.len(), 5);

    assert!(sut.remove(handles[1]));
    assert!(sut.remove(handles[3]));
    assert_eq!(sut.len(), 3);
}

#[test]
fn container_remove_is_idempotent() {
    let mut sut: FixedSizeContainer<u64> = FixedSizeContainer::new(4);
    let handle = sut.add(7).unwrap();

    assert!(sut.remove(handle));
    assert!(!sut.remove(handle));
    assert_eq!(sut.len(), 0);
}

#[test]
fn container_rejects_insert_when_full() {
    let mut sut: FixedSizeContainer<u64> = FixedSizeContainer::new(2);
    assert!(sut.add(1).is_some());
    assert!(sut.add(2).is_some());
    assert!(sut.add(3).is_none());
}

#[test]
fn container_handle_stays_valid_across_other_removals() {
    let mut sut: FixedSizeContainer<u64> = FixedSizeContainer::new(4);
    let a = sut.add(10).unwrap();
    let b = sut.add(20).unwrap();
    let c = sut.add(30).unwrap();

    assert!(sut.remove(b));
    assert_eq!(*sut.get(a).unwrap(), 10);
    assert_eq!(*sut.get(c).unwrap(), 30);
    assert!(sut.get(b).is_none());
}

#[test]
fn container_contents_lists_records_in_slot_order() {
    let mut sut: FixedSizeContainer<u64> = FixedSizeContainer::new(4);
    let _a = sut.add(10).unwrap();
    let b = sut.add(20).unwrap();
    let _c = sut.add(30).unwrap();
    assert!(sut.remove(b));

    assert_eq!(sut.contents(), vec![10, 30]);
}

#[test]
fn registry_len_is_inserts_minus_removes() {
    let settings = DynamicConfigSettings { number_of_subscribers: 8, number_of_publishers: 8 };
    let mut sut = DynamicConfig::new(&settings);

    let mut handles = vec![];
    for i in 0..6u128 {
        handles.push(sut.add_publisher_id(publisher_details(i, 1)).unwrap());
    }
    for handle in handles.iter().take(2) {
        sut.release_publisher_handle(*handle);
    }

    assert_eq!(sut.number_of_publishers(), 4);
    assert_eq!(sut.number_of_subscribers(), 0);
}

#[test]
fn registry_rejects_endpoints_over_capacity() {
    let settings = DynamicConfigSettings { number_of_subscribers: 1, number_of_publishers: 1 };
    let mut sut = DynamicConfig::new(&settings);

    assert!(sut.add_publisher_id(publisher_details(1, 1)).is_some());
    assert!(sut.add_publisher_id(publisher_details(2, 1)).is_none());
    assert!(sut.add_subscriber_id(subscriber_details(3, 1)).is_some());
    assert!(sut.add_subscriber_id(subscriber_details(4, 1)).is_none());
}

#[test]
fn registry_lists_connected_endpoints() {
    let settings = DynamicConfigSettings { number_of_subscribers: 4, number_of_publishers: 4 };
    let mut sut = DynamicConfig::new(&settings);

    let _ = sut.add_publisher_id(publisher_details(1, 1)).unwrap();
    let _ = sut.add_publisher_id(publisher_details(2, 1)).unwrap();
    let _ = sut.add_subscriber_id(subscriber_details(3, 1)).unwrap();

    let publishers = sut.list_publishers();
    assert_eq!(publishers.len(), 2);
    assert_eq!(publishers[0].publisher_id, UniquePublisherId::new(1));
    assert_eq!(publishers[1].publisher_id, UniquePublisherId::new(2));

    let subscribers = sut.list_subscribers();
    assert_eq!(subscribers.len(), 1);
    assert_eq!(subscribers[0].subscriber_id, UniqueSubscriberId::new(3));
}

#[test]
fn dead_node_sweep_releases_only_its_ports() {
    let settings = DynamicConfigSettings { number_of_subscribers: 4, number_of_publishers: 4 };
    let mut sut = DynamicConfig::new(&settings);

    let _ = sut.add_publisher_id(publisher_details(1, 1)).unwrap();
    let _ = sut.add_publisher_id(publisher_details(2, 2)).unwrap();
    let _ = sut.add_subscriber_id(subscriber_details(3, 1)).unwrap();
    let _ = sut.add_subscriber_id(subscriber_details(4, 2)).unwrap();

    let enumerated = sut.remove_dead_node_id(&NodeId::new(1), &vec![]);

    // Publishers of the dead node are processed before its subscribers.
    assert_eq!(
        enumerated,
        vec![
            UniquePortId::Publisher(UniquePublisherId::new(1)),
            UniquePortId::Subscriber(UniqueSubscriberId::new(3)),
        ]
    );
    assert_eq!(sut.number_of_publishers(), 1);
    assert_eq!(sut.number_of_subscribers(), 1);
    assert_eq!(sut.list_publishers()[0].publisher_id, UniquePublisherId::new(2));
    assert_eq!(sut.list_subscribers()[0].subscriber_id, UniqueSubscriberId::new(4));
}

#[test]
fn dead_node_sweep_honours_skip_decisions() {
    let settings = DynamicConfigSettings { number_of_subscribers: 4, number_of_publishers: 4 };
    let mut sut = DynamicConfig::new(&settings);

    let _ = sut.add_publisher_id(publisher_details(1, 1)).unwrap();
    let _ = sut.add_publisher_id(publisher_details(2, 1)).unwrap();
    let _ = sut.add_subscriber_id(subscriber_details(3, 1)).unwrap();

    // The cleanup decision keeps publisher 2 of the dead node registered.
    let skip = vec![UniquePortId::Publisher(UniquePublisherId::new(2))];
    let enumerated = sut.remove_dead_node_id(&NodeId::new(1), &skip);

    // Every endpoint of the dead node is enumerated exactly once, the
    // skipped one included.
    assert_eq!(
        enumerated,
        vec![
            UniquePortId::Publisher(UniquePublisherId::new(1)),
            UniquePortId::Publisher(UniquePublisherId::new(2)),
            UniquePortId::Subscriber(UniqueSubscriberId::new(3)),
        ]
    );
    assert_eq!(sut.number_of_publishers(), 1);
    assert_eq!(sut.number_of_subscribers(), 0);
    assert_eq!(sut.list_publishers()[0].publisher_id, UniquePublisherId::new(2));
}

#[test]
fn slot_refcounts_follow_acquire_retain_release() {
    let mut segment = DataSegment::new(2, 2);

    let slot = segment.acquire().unwrap();
    assert_eq!(segment.refcount_of(slot), 1);

    segment.retain(slot);
    assert_eq!(segment.refcount_of(slot), 2);

    segment.release(slot);
    assert_eq!(segment.refcount_of(slot), 1);
    segment.release(slot);
    assert_eq!(segment.refcount_of(slot), 0);

    // The slot went back onto the free list: both slots can be acquired, a
    // third acquire finds the static segment exhausted.
    assert!(segment.acquire().is_some());
    assert!(segment.acquire().is_some());
    assert!(segment.acquire().is_none());
}

#[test]
fn dynamic_segment_grows_on_demand_up_to_capacity() {
    let mut segment = DataSegment::new(1, 3);

    let a = segment.acquire().unwrap();
    let b = segment.acquire().unwrap();
    let c = segment.acquire().unwrap();
    assert!(segment.acquire().is_none());
    assert_ne!(a, b);
    assert_ne!(b, c);

    segment.release(b);
    assert!(segment.acquire().is_some());
}

#[test]
fn publisher_details_accessors_round_trip() {
    let mut details = publisher_details(9, 9);

    details.set_owner_uid(42);
    details.set_group_gid(43);
    details.set_mode(0o600);
    assert_eq!(details.owner_uid(), 42);
    assert_eq!(details.group_gid(), 43);
    assert_eq!(details.mode(), 0o600);
    assert_eq!(details.permission().bits(), 0o600);

    let p = pubsub_core::permission::mode_to_permission(0o644);
    details.set_permission(p);
    assert_eq!(details.mode(), 0o644);
}

#[test]
fn subscriber_details_accessors_round_trip() {
    let mut details = subscriber_details(9, 9);

    details.set_owner_uid(52);
    details.set_group_gid(53);
    details.set_mode(0o640);
    assert_eq!(details.owner_uid(), 52);
    assert_eq!(details.group_gid(), 53);
    assert_eq!(details.mode(), 0o640);
    assert_eq!(details.permission().bits(), 0o640);

    let p = pubsub_core::permission::mode_to_permission(0o400);
    details.set_permission(p);
    assert_eq!(details.mode(), 0o400);
}
