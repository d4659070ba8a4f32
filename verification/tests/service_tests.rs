use pubsub_core::errors::{
    LoanError, ReceiveError, SendError, SubscriberCreateError, UnableToDeliverStrategy,
};
use pubsub_core::ids::NodeId;
use pubsub_core::port_factory::{PortFactoryPublisher, PortFactorySubscriber};
use pubsub_core::samples::{SendCopyStatus, SendStatus};
use pubsub_core::service::{Service, ServiceBuilder};

fn u64_service(name: &str) -> Service {
    ServiceBuilder::new(String::from(name)).create()
}

#[test]
fn loan_and_send_delivers_written_value() {
    // Loan an uninitialised sample, write 42, send it: the subscriber
    // receives a sample whose value is 42, bit-identical.
    let node = NodeId::new(20);
    let mut service = u64_service("svc/A");
    let publisher = PortFactoryPublisher::new()
        .max_loaned_samples(2)
        .create(&mut service, &node)
        .unwrap();
    let subscriber = PortFactorySubscriber::new().create(&mut service, &node).unwrap();

    let sample = service.loan_uninit(&publisher).unwrap();
    let sample = service.write_payload(sample, 42);
    assert!(matches!(service.send(sample), SendStatus::Delivered(1)));

    let received = service.receive(&subscriber).unwrap().unwrap();
    assert_eq!(received.payload().as_slice(), &[42u64]);
    service.release_sample(received);
}

#[test]
fn loan_send_receive_yields_default_value() {
    // A default-filled loan that is sent unchanged is received as the
    // default value of the payload type.
    let node = NodeId::new(21);
    let mut service = u64_service("svc/defaults");
    let publisher = PortFactoryPublisher::new().create(&mut service, &node).unwrap();
    let subscriber = PortFactorySubscriber::new().create(&mut service, &node).unwrap();

    let sample = service.loan(&publisher).unwrap();
    assert!(matches!(service.send(sample), SendStatus::Delivered(1)));

    let received = service.receive(&subscriber).unwrap().unwrap();
    assert_eq!(received.payload().as_slice(), &[0u64]);
}

#[test]
fn max_loans_exceeded_recovers_after_drop() {
    // Three consecutive uninitialised loans with a limit of two: the third
    // fails; dropping one loan allows a new loan to succeed.
    let node = NodeId::new(22);
    let mut service = u64_service("svc/limits");
    let publisher = PortFactoryPublisher::new()
        .max_loaned_samples(2)
        .create(&mut service, &node)
        .unwrap();

    let _sample1 = service.loan_uninit(&publisher).unwrap();
    let sample2 = service.loan_uninit(&publisher).unwrap();
    let sample3 = service.loan_uninit(&publisher);
    assert_eq!(sample3.err().unwrap(), LoanError::ExceedsMaxLoans);

    service.drop_sample_uninit(sample2);

    assert!(service.loan_uninit(&publisher).is_ok());
}

#[test]
fn block_strategy_hands_sample_back_until_subscriber_caught_up() {
    // Buffer of one, safe overflow off, blocking policy: the second send
    // cannot complete until the subscriber received the first value, and the
    // values arrive in order.
    let node = NodeId::new(23);
    let mut service = ServiceBuilder::new(String::from("svc/block"))
        .subscriber_max_buffer_size(1)
        .enable_safe_overflow(false)
        .create();
    let publisher = PortFactoryPublisher::new()
        .unable_to_deliver_strategy(UnableToDeliverStrategy::Block)
        .create(&mut service, &node)
        .unwrap();
    assert_eq!(publisher.unable_to_deliver_strategy(), UnableToDeliverStrategy::Block);
    let subscriber = PortFactorySubscriber::new().create(&mut service, &node).unwrap();

    assert!(matches!(
        service.send_copy(&publisher, 8192),
        Ok(SendCopyStatus::Delivered(1))
    ));
    assert!(matches!(
        service.send_copy(&publisher, 2),
        Ok(SendCopyStatus::WouldBlock)
    ));

    let first = service.receive(&subscriber).unwrap().unwrap();
    assert_eq!(first.payload()[0], 8192);
    service.release_sample(first);

    assert!(matches!(
        service.send_copy(&publisher, 2),
        Ok(SendCopyStatus::Delivered(1))
    ));
    let second = service.receive(&subscriber).unwrap().unwrap();
    assert_eq!(second.payload()[0], 2);
}

#[test]
fn fifo_order_is_kept_per_publisher() {
    // Sends v1..vk are received as v1..vj in order, with no gap in the
    // received prefix.
    let node = NodeId::new(24);
    let mut service = ServiceBuilder::new(String::from("svc/fifo"))
        .subscriber_max_buffer_size(5)
        .create();
    let publisher = PortFactoryPublisher::new().create(&mut service, &node).unwrap();
    let subscriber = PortFactorySubscriber::new().create(&mut service, &node).unwrap();

    for value in [10u64, 20, 30, 40, 50] {
        assert!(matches!(
            service.send_copy(&publisher, value),
            Ok(SendCopyStatus::Delivered(1))
        ));
    }

    for expected in [10u64, 20, 30] {
        let received = service.receive(&subscriber).unwrap().unwrap();
        assert_eq!(received.payload()[0], expected);
        service.release_sample(received);
    }
}

#[test]
fn safe_overflow_evicts_oldest_entry() {
    // With safe overflow enabled a full queue evicts its oldest entry to
    // accept a new one: the subscriber loses the oldest value.
    let node = NodeId::new(25);
    let mut service = ServiceBuilder::new(String::from("svc/overflow"))
        .subscriber_max_buffer_size(1)
        .enable_safe_overflow(true)
        .create();
    let publisher = PortFactoryPublisher::new().create(&mut service, &node).unwrap();
    let subscriber = PortFactorySubscriber::new().create(&mut service, &node).unwrap();

    assert!(service.send_copy(&publisher, 1).is_ok());
    assert!(service.send_copy(&publisher, 2).is_ok());

    let received = service.receive(&subscriber).unwrap().unwrap();
    assert_eq!(received.payload()[0], 2);
    assert_eq!(service.receive(&subscriber).unwrap().is_none(), true);
}

#[test]
fn discard_strategy_skips_full_queue() {
    // Discard policy with safe overflow off: a full queue loses the new
    // sample and keeps the old one.
    let node = NodeId::new(26);
    let mut service = ServiceBuilder::new(String::from("svc/discard"))
        .subscriber_max_buffer_size(1)
        .enable_safe_overflow(false)
        .create();
    let publisher = PortFactoryPublisher::new()
        .unable_to_deliver_strategy(UnableToDeliverStrategy::DiscardSample)
        .create(&mut service, &node)
        .unwrap();
    let subscriber = PortFactorySubscriber::new().create(&mut service, &node).unwrap();

    assert!(matches!(
        service.send_copy(&publisher, 7),
        Ok(SendCopyStatus::Delivered(1))
    ));
    assert!(matches!(
        service.send_copy(&publisher, 8),
        Ok(SendCopyStatus::Delivered(0))
    ));

    let received = service.receive(&subscriber).unwrap().unwrap();
    assert_eq!(received.payload()[0], 7);
}

#[test]
fn receive_on_empty_queue_returns_none() {
    let node = NodeId::new(27);
    let mut service = u64_service("svc/empty");
    let subscriber = PortFactorySubscriber::new().create(&mut service, &node).unwrap();

    assert!(service.receive(&subscriber).unwrap().is_none());
    assert_eq!(service.has_samples(&subscriber), false);
}

#[test]
fn queue_never_exceeds_buffer_size() {
    let node = NodeId::new(28);
    let mut service = ServiceBuilder::new(String::from("svc/bounded"))
        .subscriber_max_buffer_size(3)
        .create();
    let publisher = PortFactoryPublisher::new().create(&mut service, &node).unwrap();
    let subscriber = PortFactorySubscriber::new()
        .buffer_size(2)
        .create(&mut service, &node)
        .unwrap();
    assert_eq!(subscriber.buffer_size(), 2);

    for value in 0..5u64 {
        assert!(service.send_copy(&publisher, value).is_ok());
    }

    assert_eq!(service.number_of_queued_samples(&subscriber), 2);
}

#[test]
fn subscriber_buffer_size_over_service_limit_is_rejected() {
    let node = NodeId::new(29);
    let mut service = ServiceBuilder::new(String::from("svc/bufcap"))
        .subscriber_max_buffer_size(4)
        .create();

    let result = PortFactorySubscriber::new().buffer_size(5).create(&mut service, &node);
    assert_eq!(
        result.err().unwrap(),
        SubscriberCreateError::BufferSizeExceedsMaxSupportedBufferSizeOfService
    );
}

#[test]
fn exceeding_max_subscribers_is_rejected() {
    let node = NodeId::new(30);
    let mut service = ServiceBuilder::new(String::from("svc/subcap"))
        .max_subscribers(1)
        .create();

    let _first = PortFactorySubscriber::new().create(&mut service, &node).unwrap();
    let second = PortFactorySubscriber::new().create(&mut service, &node);
    assert_eq!(
        second.err().unwrap(),
        SubscriberCreateError::ExceedsMaxSupportedSubscribers
    );
}

#[test]
fn exceeding_max_publishers_is_rejected() {
    let node = NodeId::new(31);
    let mut service = ServiceBuilder::new(String::from("svc/pubcap"))
        .max_publishers(1)
        .create();

    let _first = PortFactoryPublisher::new().create(&mut service, &node).unwrap();
    let second = PortFactoryPublisher::new().create(&mut service, &node);
    assert_eq!(
        second.err().unwrap(),
        pubsub_core::errors::PublisherCreateError::ExceedsMaxSupportedPublishers
    );
}

#[test]
fn registry_counts_follow_port_lifecycle() {
    let node = NodeId::new(32);
    let mut service = ServiceBuilder::new(String::from("svc/counts"))
        .max_publishers(3)
        .max_subscribers(3)
        .create();

    assert_eq!(service.number_of_publishers(), 0);
    assert_eq!(service.number_of_subscribers(), 0);

    let _p1 = PortFactoryPublisher::new().create(&mut service, &node).unwrap();
    let _p2 = PortFactoryPublisher::new().create(&mut service, &node).unwrap();
    let s1 = PortFactorySubscriber::new().create(&mut service, &node).unwrap();
    let _s2 = PortFactorySubscriber::new().create(&mut service, &node).unwrap();

    assert_eq!(service.number_of_publishers(), 2);
    assert_eq!(service.number_of_subscribers(), 2);
    assert_eq!(service.dynamic_config().list_publishers().len(), 2);
    assert_eq!(service.dynamic_config().list_subscribers().len(), 2);

    service.drop_subscriber(s1);
    assert_eq!(service.number_of_subscribers(), 1);
    assert_eq!(service.dynamic_config().list_subscribers().len(), 1);
}

#[test]
fn dropping_a_publisher_scrubs_its_queued_samples() {
    // A publisher that disconnects leaves no stale slot identifiers behind:
    // its undelivered entries vanish from the subscriber queues while the
    // entries of other publishers stay, in order.
    let node = NodeId::new(40);
    let mut service = ServiceBuilder::new(String::from("svc/pubdrop"))
        .subscriber_max_buffer_size(4)
        .create();
    let leaving = PortFactoryPublisher::new().create(&mut service, &node).unwrap();
    let staying = PortFactoryPublisher::new().create(&mut service, &node).unwrap();
    let subscriber = PortFactorySubscriber::new().create(&mut service, &node).unwrap();

    assert!(service.send_copy(&leaving, 1).is_ok());
    assert!(service.send_copy(&staying, 2).is_ok());
    assert!(service.send_copy(&leaving, 3).is_ok());
    assert!(service.send_copy(&staying, 4).is_ok());
    assert_eq!(service.number_of_queued_samples(&subscriber), 4);

    service.drop_publisher(leaving);

    assert_eq!(service.number_of_publishers(), 1);
    assert_eq!(service.number_of_queued_samples(&subscriber), 2);
    let first = service.receive(&subscriber).unwrap().unwrap();
    assert_eq!(first.payload()[0], 2);
    let second = service.receive(&subscriber).unwrap().unwrap();
    assert_eq!(second.payload()[0], 4);
}

#[test]
fn subscriber_ids_are_unique() {
    let node = NodeId::new(33);
    let mut service = ServiceBuilder::new(String::from("svc/subids"))
        .max_subscribers(4)
        .create();

    let a = PortFactorySubscriber::new().create(&mut service, &node).unwrap();
    let b = PortFactorySubscriber::new().create(&mut service, &node).unwrap();
    assert_ne!(a.id(), b.id());
    assert_ne!(a.id().as_value(), b.id().as_value());
    assert_eq!(node.as_value(), 33);
}

#[test]
fn send_error_display_works() {
    assert_eq!(
        SendError::ConnectionCorrupted.as_str(),
        "SendError::ConnectionCorrupted"
    );
    assert_eq!(SendError::OutOfMemory.as_str(), "SendError::OutOfMemory");
}

#[test]
fn receive_error_display_works() {
    assert_eq!(
        ReceiveError::ConnectionCorrupted.as_str(),
        "ReceiveError::ConnectionCorrupted"
    );
}

#[test]
fn subscriber_create_error_display_works() {
    assert_eq!(
        SubscriberCreateError::ExceedsMaxSupportedSubscribers.as_str(),
        "SubscriberCreateError::ExceedsMaxSupportedSubscribers"
    );
    assert_eq!(
        SubscriberCreateError::BufferSizeExceedsMaxSupportedBufferSizeOfService.as_str(),
        "SubscriberCreateError::BufferSizeExceedsMaxSupportedBufferSizeOfService"
    );
}

#[test]
fn service_reports_its_name_and_config() {
    let service = ServiceBuilder::new(String::from("svc/meta"))
        .max_publishers(5)
        .enable_safe_overflow(false)
        .create();
    assert_eq!(service.name().as_str(), "svc/meta");
    let config = service.static_config();
    assert_eq!(config.max_publishers, 5);
    assert_eq!(config.enable_safe_overflow, false);
}

#[test]
fn fixed_size_payload_rejects_slice_loans_of_other_lengths() {
    // For a fixed-size payload, a slice loan of any length other than one
    // fails deterministically.
    let node = NodeId::new(34);
    let mut service = u64_service("svc/fixed");
    let publisher = PortFactoryPublisher::new()
        .initial_max_slice_len(10)
        .create(&mut service, &node)
        .unwrap();

    assert_eq!(
        service.loan_slice(&publisher, 2).err().unwrap(),
        LoanError::ExceedsMaxLoanSize
    );
    assert_eq!(
        service.loan_slice(&publisher, 0).err().unwrap(),
        LoanError::ExceedsMaxLoanSize
    );
    assert_eq!(
        service.loan_custom_payload(&publisher, 2).err().unwrap(),
        LoanError::ExceedsMaxLoanSize
    );
    assert!(service.loan_slice(&publisher, 1).is_ok());
}
