use std::collections::HashSet;

use pubsub_core::config::{TypeDetail, TypeVariant};
use pubsub_core::errors::{LoanError, PublisherCreateError};
use pubsub_core::ids::NodeId;
use pubsub_core::port_factory::{PortFactoryPublisher, PortFactorySubscriber};
use pubsub_core::samples::{SendCopyStatus, SendStatus};
use pubsub_core::service::{Service, ServiceBuilder};

fn u64_service(name: &str) -> Service {
    ServiceBuilder::new(String::from(name)).create()
}

fn slice_service(name: &str) -> Service {
    ServiceBuilder::new(String::from(name))
        .payload_type_details(TypeDetail { size: 8, alignment: 8, variant: TypeVariant::Dynamic })
        .create()
}

#[test]
fn publisher_loan_and_send_sample_works() {
    let node = NodeId::new(1);
    let mut service = u64_service("service_tests_a");
    let sut = PortFactoryPublisher::new()
        .max_loaned_samples(2)
        .create(&mut service, &node)
        .unwrap();

    let sample = service.loan(&sut).unwrap();

    assert!(matches!(service.send(sample), SendStatus::Delivered(_)));
}

#[test]
fn loan_initializes_sample_with_default() {
    let node = NodeId::new(2);
    let mut service = u64_service("service_tests_b");
    let publisher = PortFactoryPublisher::new().create(&mut service, &node).unwrap();

    let sut = service.loan(&publisher).unwrap();

    assert_eq!(service.sample_payload(&sut).as_slice(), &[0u64]);
}

#[test]
fn loan_uninit_does_not_initialize_sample() {
    // An uninitialised loan writes nothing into the slot: sending it as-is
    // hands the subscriber whatever the fresh slot held, not a default value.
    let node = NodeId::new(3);
    let mut service = u64_service("service_tests_c");
    let publisher = PortFactoryPublisher::new().create(&mut service, &node).unwrap();
    let subscriber = PortFactorySubscriber::new().create(&mut service, &node).unwrap();

    let sut = service.loan_uninit(&publisher).unwrap();
    let status = service.send(sut.assume_init());
    assert!(matches!(status, SendStatus::Delivered(1)));

    let received = service.receive(&subscriber).unwrap().unwrap();
    assert_eq!(received.payload().len(), 0);
}

#[test]
fn publisher_loan_slice_initializes_sample_with_default() {
    const NUMBER_OF_ELEMENTS: usize = 120;
    let node = NodeId::new(4);
    let mut service = slice_service("service_tests_d");
    let publisher = PortFactoryPublisher::new()
        .initial_max_slice_len(NUMBER_OF_ELEMENTS)
        .create(&mut service, &node)
        .unwrap();

    let sut = service.loan_slice(&publisher, NUMBER_OF_ELEMENTS).unwrap();

    let payload = service.sample_payload(&sut);
    assert_eq!(payload.len(), NUMBER_OF_ELEMENTS);
    for value in payload.iter() {
        assert_eq!(*value, 0);
    }
}

#[test]
fn publisher_loan_slice_up_to_max_elements_works() {
    const NUMBER_OF_ELEMENTS: usize = 125;
    let node = NodeId::new(5);
    let mut service = slice_service("service_tests_e");
    let publisher = PortFactoryPublisher::new()
        .initial_max_slice_len(NUMBER_OF_ELEMENTS)
        .create(&mut service, &node)
        .unwrap();

    for i in 0..NUMBER_OF_ELEMENTS {
        let sut = service.loan_slice(&publisher, i).unwrap();
        assert_eq!(service.sample_payload(&sut).len(), i);
        service.drop_sample(sut);
    }
}

#[test]
fn publisher_loan_slice_more_than_max_elements_fails() {
    const NUMBER_OF_ELEMENTS: usize = 125;
    let node = NodeId::new(6);
    let mut service = slice_service("service_tests_f");
    let publisher = PortFactoryPublisher::new()
        .initial_max_slice_len(NUMBER_OF_ELEMENTS)
        .create(&mut service, &node)
        .unwrap();

    let sut = service.loan_slice(&publisher, NUMBER_OF_ELEMENTS + 1);
    assert!(sut.is_err());
    assert_eq!(sut.err().unwrap(), LoanError::ExceedsMaxLoanSize);
}

#[test]
fn publisher_loan_unit_and_send_sample_works() {
    let node = NodeId::new(7);
    let mut service = u64_service("service_tests_g");
    let sut = PortFactoryPublisher::new()
        .max_loaned_samples(2)
        .create(&mut service, &node)
        .unwrap();

    let sample = service.loan_uninit(&sut).unwrap();
    let sample = service.write_payload(sample, 42);

    assert!(matches!(service.send(sample), SendStatus::Delivered(_)));
}

#[test]
fn publisher_can_borrow_multiple_sample_at_once() {
    let node = NodeId::new(8);
    let mut service = u64_service("service_tests_h");
    let sut = PortFactoryPublisher::new()
        .max_loaned_samples(4)
        .create(&mut service, &node)
        .unwrap();

    let sample1 = service.loan_uninit(&sut).unwrap();
    let sample1 = service.write_payload(sample1, 1);
    let sample2 = service.loan_uninit(&sut).unwrap();
    let sample2 = service.write_payload(sample2, 2);
    let sample3 = service.loan_uninit(&sut).unwrap();
    let sample3 = service.write_payload(sample3, 3);

    let subscriber = PortFactorySubscriber::new().create(&mut service, &node).unwrap();

    assert!(matches!(
        service.send_copy(&sut, 4),
        Ok(SendCopyStatus::Delivered(_))
    ));
    assert!(matches!(service.send(sample3), SendStatus::Delivered(_)));
    service.drop_sample(sample2);
    service.drop_sample(sample1);

    let r = service.receive(&subscriber).unwrap();
    assert!(r.is_some());
    assert_eq!(r.unwrap().payload()[0], 4);
    let r = service.receive(&subscriber).unwrap();
    assert!(r.is_some());
    assert_eq!(r.unwrap().payload()[0], 3);
}

#[test]
fn publisher_max_loaned_samples_works() {
    let node = NodeId::new(9);
    let mut service = u64_service("service_tests_i");
    let sut = PortFactoryPublisher::new()
        .max_loaned_samples(2)
        .create(&mut service, &node)
        .unwrap();

    let _sample1 = service.loan_uninit(&sut).unwrap();
    let _sample2 = service.loan_uninit(&sut).unwrap();

    let sample3 = service.loan_uninit(&sut);
    assert!(sample3.is_err());
    assert_eq!(sample3.err().unwrap(), LoanError::ExceedsMaxLoans);
}

#[test]
fn publisher_sending_sample_reduces_loan_counter() {
    let node = NodeId::new(10);
    let mut service = u64_service("service_tests_j");
    let sut = PortFactoryPublisher::new()
        .max_loaned_samples(2)
        .create(&mut service, &node)
        .unwrap();

    let _sample1 = service.loan_uninit(&sut).unwrap();
    let sample2 = service.loan_uninit(&sut).unwrap();
    let sample2 = service.write_payload(sample2, 2);

    assert!(matches!(service.send(sample2), SendStatus::Delivered(_)));

    let _sample3 = service.loan_uninit(&sut).unwrap();
    let sample4 = service.loan_uninit(&sut);
    assert!(sample4.is_err());
    assert_eq!(sample4.err().unwrap(), LoanError::ExceedsMaxLoans);
}

#[test]
fn publisher_dropping_sample_reduces_loan_counter() {
    let node = NodeId::new(11);
    let mut service = u64_service("service_tests_k");
    let sut = PortFactoryPublisher::new()
        .max_loaned_samples(2)
        .create(&mut service, &node)
        .unwrap();

    let _sample1 = service.loan_uninit(&sut).unwrap();
    let sample2 = service.loan_uninit(&sut).unwrap();

    service.drop_sample_uninit(sample2);

    let _sample3 = service.loan_uninit(&sut).unwrap();
    let sample4 = service.loan_uninit(&sut);
    assert!(sample4.is_err());
    assert_eq!(sample4.err().unwrap(), LoanError::ExceedsMaxLoans);
}

#[test]
fn create_error_display_works() {
    assert_eq!(
        PublisherCreateError::ExceedsMaxSupportedPublishers.as_str(),
        "PublisherCreateError::ExceedsMaxSupportedPublishers"
    );
    assert_eq!(
        PublisherCreateError::UnableToCreateDataSegment.as_str(),
        "PublisherCreateError::UnableToCreateDataSegment"
    );
}

#[test]
fn loan_error_display_works() {
    assert_eq!(LoanError::OutOfMemory.as_str(), "LoanError::OutOfMemory");
    assert_eq!(LoanError::ExceedsMaxLoans.as_str(), "LoanError::ExceedsMaxLoans");
    assert_eq!(LoanError::ExceedsMaxLoanSize.as_str(), "LoanError::ExceedsMaxLoanSize");
    assert_eq!(LoanError::InternalFailure.as_str(), "LoanError::InternalFailure");
}

#[test]
fn id_is_unique() {
    const MAX_PUBLISHERS: usize = 8;
    let node = NodeId::new(12);
    let mut service = ServiceBuilder::new(String::from("service_tests_l"))
        .max_publishers(MAX_PUBLISHERS)
        .create();

    let mut publishers = vec![];
    let mut publisher_id_set = HashSet::new();

    for _ in 0..MAX_PUBLISHERS {
        let publisher = PortFactoryPublisher::new().create(&mut service, &node).unwrap();
        assert!(publisher_id_set.insert(publisher.id()));
        publishers.push(publisher);
    }
}

#[test]
fn publisher_with_custom_payload_details_adjusts_slice_len() {
    const TYPE_SIZE_OVERRIDE: usize = 128;
    let node = NodeId::new(13);
    let mut service = ServiceBuilder::new(String::from("service_tests_m"))
        .payload_type_details(TypeDetail {
            size: TYPE_SIZE_OVERRIDE,
            alignment: 1,
            variant: TypeVariant::FixedSize,
        })
        .create();

    let sut = PortFactoryPublisher::new().create(&mut service, &node).unwrap();

    let sample = service.loan_custom_payload(&sut, 1).unwrap();

    assert_eq!(service.sample_payload(&sample).len(), TYPE_SIZE_OVERRIDE);
}

#[test]
fn reclaims_all_samples_when_subscriber_is_disconnected_and_never_received_them() {
    const MAX_SUBSCRIBERS: usize = 4;
    const ITERATIONS: usize = 20;
    const SUBSCRIBER_BUFFER_SIZE: usize = 7;
    let node = NodeId::new(14);
    let mut service = ServiceBuilder::new(String::from("service_tests_n"))
        .max_subscribers(MAX_SUBSCRIBERS)
        .subscriber_max_buffer_size(SUBSCRIBER_BUFFER_SIZE)
        .create();

    let sut = PortFactoryPublisher::new()
        .max_loaned_samples(2)
        .create(&mut service, &node)
        .unwrap();

    for n in 0..MAX_SUBSCRIBERS {
        for _ in 0..ITERATIONS {
            let mut subscribers = vec![];

            for _ in 0..n {
                subscribers.push(
                    PortFactorySubscriber::new().create(&mut service, &node).unwrap(),
                );
            }

            for _ in 0..SUBSCRIBER_BUFFER_SIZE {
                assert!(service.send_copy(&sut, 1293).is_ok());
            }

            // disconnect all subscribers
            for subscriber in subscribers {
                service.drop_subscriber(subscriber);
            }
        }
    }

    let sample = service.loan(&sut).unwrap();

    assert!(matches!(service.send(sample), SendStatus::Delivered(_)));
}

#[test]
fn publisher_permission_method_exists() {
    let node = NodeId::new(15);
    let mut service = u64_service("service_tests_o");

    let custom_permission = 0o644u32; // owner read/write, group/others read
    let publisher_result = PortFactoryPublisher::new()
        .permission(custom_permission)
        .create(&mut service, &node);

    assert!(publisher_result.is_ok());
}
