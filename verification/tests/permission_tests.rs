use pubsub_core::errors::DegradationAction;
use pubsub_core::permission::{
    mode_to_permission, Permission, GROUP_READ, GROUP_WRITE, OTHERS_READ, OWNER_READ, OWNER_WRITE,
};
use pubsub_core::port_factory::PortFactorySubscriber;
use pubsub_core::samples::{SampleCell, SampleMut, ServiceKind};

#[test]
fn mode_to_permission_maps_posix_bits_exactly() {
    assert_eq!(mode_to_permission(0o640).bits(), 0o640);
    assert_eq!(mode_to_permission(0o755).bits(), 0o755);
    assert_eq!(mode_to_permission(0o000).bits(), 0o000);
    assert_eq!(mode_to_permission(0o777).bits(), 0o777);
    // Bits above the rwx triplets are not permission flags.
    assert_eq!(mode_to_permission(0o7777).bits(), 0o777);
}

#[test]
fn mode_to_permission_sets_the_expected_flags() {
    let p = mode_to_permission(0o640);
    assert!(p.has(OWNER_READ));
    assert!(p.has(OWNER_WRITE));
    assert!(p.has(GROUP_READ));
    assert!(!p.has(GROUP_WRITE));
    assert!(!p.has(OTHERS_READ));
}

#[test]
fn permission_union_and_none_behave_as_bit_sets() {
    let none = Permission::none();
    assert_eq!(none.bits(), 0);
    let p = none
        .union(Permission { bits: OWNER_READ })
        .union(Permission { bits: GROUP_READ });
    assert_eq!(p.bits(), OWNER_READ | GROUP_READ);
    assert_eq!(p, mode_to_permission(0o440));
}

#[test]
fn subscriber_factory_records_settings() {
    let factory = PortFactorySubscriber::new()
        .buffer_size(0)
        .owner_uid(12)
        .group_gid(13)
        .mode(0o600)
        .set_degradation_callback(Some(DegradationAction::WarnAndProceed));

    // The smallest possible buffer size is one.
    assert_eq!(factory.buffer_size, Some(1));
    assert_eq!(factory.owner_uid, Some(12));
    assert_eq!(factory.group_gid, Some(13));
    assert_eq!(factory.mode, Some(0o600));
    assert_eq!(factory.degradation_callback, Some(DegradationAction::WarnAndProceed));

    let clone = factory.__internal_partial_clone();
    assert_eq!(clone.buffer_size, Some(1));
    assert_eq!(clone.degradation_callback, None);

    let with_permission = clone.permission(mode_to_permission(0o644));
    assert_eq!(with_permission.mode, Some(0o644));
}

fn sample_token(slot: usize) -> SampleMut {
    SampleMut { publisher: 0, slot, number_of_elements: 1 }
}

#[test]
fn sample_cell_detects_double_send() {
    // The storage cell is emptied when the sample is taken for a send; a
    // second take observes the empty cell instead of reusing the token.
    let mut cell = SampleCell::new_ipc(sample_token(3));
    assert!(cell.holds_sample());

    let first = cell.take();
    assert!(first.is_some());
    assert_eq!(first.unwrap().slot, 3);

    assert!(!cell.holds_sample());
    assert!(cell.take().is_none());
}

#[test]
fn sample_cell_move_empties_the_source() {
    let mut source = SampleCell::new_local(sample_token(5));
    let mut destination = SampleCell::new_ipc(sample_token(0));
    let _ = destination.take();

    source.move_into(&mut destination);

    assert!(!source.holds_sample());
    assert!(destination.holds_sample());
    let moved = destination.take().unwrap();
    assert_eq!(moved.slot, 5);
}

#[test]
fn sample_cell_keeps_its_service_kind() {
    let mut cell = SampleCell::new_local(sample_token(1));
    let _ = cell.take();
    let mut other = SampleCell::new_local(sample_token(2));
    other.move_into(&mut cell);
    assert!(cell.holds_sample());
    let _ = ServiceKind::Local;
}
