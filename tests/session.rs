use rustycore::error::Error;
use rustycore::gatt::{Characteristic, CharacteristicWriteType, Descriptor, Service};
use rustycore::session::{NativeRequest, Peripheral, Reply, SessionAction, SessionCommand, SessionEvent};

const P: u128 = 0x1234;
const S: u128 = 0x180d;
const C: u128 = 0x2a37;
const D: u128 = 0x2902;

fn service(uuid: u128) -> Service {
    Service { uuid, primary: true, characteristics: vec![] }
}

/// A service reported with its characteristic `C` already known, so that it
/// waits for the characteristic list.
fn service_with_c(uuid: u128) -> Service {
    Service { uuid, primary: true, characteristics: vec![characteristic(C)] }
}

fn characteristic(uuid: u128) -> Characteristic {
    Characteristic { uuid, service_uuid: S, properties: vec![], permissions: vec![], value: None, descriptors: vec![] }
}

fn descriptor(uuid: u128) -> Descriptor {
    Descriptor { uuid, service_uuid: S, characteristic_uuid: C, properties: vec![], permissions: vec![], value: None }
}

fn ready_session() -> Peripheral<u32> {
    let mut s = Peripheral::new(P);
    s.handle_command(SessionCommand::Connect, 1);
    s.handle_event(SessionEvent::Connected);
    s.handle_event(SessionEvent::ServicesDiscovered { services: vec![service_with_c(S)], error: None });
    s.handle_event(SessionEvent::CharacteristicsDiscovered { service: S, characteristics: vec![characteristic(C)], error: None });
    let out = s.handle_event(SessionEvent::DescriptorsDiscovered {
        service: S,
        characteristic: C,
        descriptors: vec![descriptor(D)],
        error: None,
    });
    assert_eq!(out.len(), 1);
    s
}

fn ready_count(actions: &[SessionAction<u32>]) -> usize {
    actions.iter().filter(|a| matches!(a, SessionAction::Resolve(_, Reply::Services(_)))).count()
}

#[test]
fn connect_completes_only_after_full_discovery() {
    let mut s: Peripheral<u32> = Peripheral::new(P);
    let out = s.handle_command(SessionCommand::Connect, 1);
    assert!(matches!(out.as_slice(), [SessionAction::Send(NativeRequest::Connect)]));
    let out = s.handle_event(SessionEvent::Connected);
    assert!(matches!(out.as_slice(), [SessionAction::Send(NativeRequest::DiscoverServices)]));
    let out = s.handle_event(SessionEvent::ServicesDiscovered { services: vec![service_with_c(S)], error: None });
    assert!(matches!(out.as_slice(), [SessionAction::Send(NativeRequest::DiscoverCharacteristics { service: S })]));
    let out = s.handle_event(SessionEvent::CharacteristicsDiscovered {
        service: S,
        characteristics: vec![characteristic(C)],
        error: None,
    });
    assert!(matches!(
        out.as_slice(),
        [SessionAction::Send(NativeRequest::DiscoverDescriptors { service: S, characteristic: C })]
    ));
    let out = s.handle_event(SessionEvent::DescriptorsDiscovered {
        service: S,
        characteristic: C,
        descriptors: vec![descriptor(D)],
        error: None,
    });
    match out.as_slice() {
        [SessionAction::Resolve(1, Reply::Services(tree))] => {
            assert_eq!(tree.len(), 1);
            assert_eq!(tree[0].uuid, S);
            assert_eq!(tree[0].characteristics[0].uuid, C);
            assert_eq!(tree[0].characteristics[0].descriptors[0].uuid, D);
        },
        other => panic!("unexpected {:?}", other),
    }
    assert_eq!(s.count(), 0);
}

#[test]
fn empty_service_connects_at_once() {
    let mut s: Peripheral<u32> = Peripheral::new(P);
    s.handle_command(SessionCommand::Connect, 4);
    s.handle_event(SessionEvent::Connected);
    let out = s.handle_event(SessionEvent::ServicesDiscovered { services: vec![service(S)], error: None });
    assert_eq!(out.len(), 2);
    assert!(matches!(&out[0], SessionAction::Send(NativeRequest::DiscoverCharacteristics { service: S })));
    match &out[1] {
        SessionAction::Resolve(4, Reply::Services(tree)) => {
            assert_eq!(tree, &vec![Service { uuid: S, primary: true, characteristics: vec![] }]);
        },
        other => panic!("unexpected {:?}", other),
    }
    let out = s.handle_event(SessionEvent::CharacteristicsDiscovered { service: S, characteristics: vec![], error: None });
    assert!(out.is_empty());
}

#[test]
fn device_without_services_is_ready_at_once() {
    let mut s: Peripheral<u32> = Peripheral::new(P);
    s.handle_command(SessionCommand::Connect, 8);
    s.handle_event(SessionEvent::Connected);
    let out = s.handle_event(SessionEvent::ServicesDiscovered { services: vec![], error: None });
    match out.as_slice() {
        [SessionAction::Resolve(8, Reply::Services(tree))] => assert!(tree.is_empty()),
        other => panic!("unexpected {:?}", other),
    }
}

#[test]
fn connect_when_ready_answers_with_tree() {
    let mut s = ready_session();
    let out = s.handle_command(SessionCommand::Connect, 9);
    match out.as_slice() {
        [SessionAction::Resolve(9, Reply::Services(tree))] => assert_eq!(tree[0].uuid, S),
        other => panic!("unexpected {:?}", other),
    }
}

#[test]
fn disconnect_resolves_every_outstanding_operation() {
    let mut s = ready_session();
    s.handle_command(SessionCommand::ReadCharacteristic { service: S, characteristic: C }, 10);
    s.handle_command(SessionCommand::Subscribe { service: S, characteristic: C }, 11);
    s.handle_command(
        SessionCommand::WriteCharacteristic {
            service: S,
            characteristic: C,
            data: vec![1, 2],
            write_type: CharacteristicWriteType::WriteWithResponse,
        },
        12,
    );
    s.handle_command(SessionCommand::ReadDescriptor { service: S, characteristic: C, descriptor: D }, 13);
    assert_eq!(s.count(), 4);
    let out = s.handle_event(SessionEvent::Disconnected);
    assert_eq!(out.len(), 4);
    let mut ids: Vec<u32> = Vec::new();
    for a in out {
        match a {
            SessionAction::Resolve(v, Reply::Failed(Error::Disconnected)) => ids.push(v),
            other => panic!("unexpected {:?}", other),
        }
    }
    ids.sort();
    assert_eq!(ids, vec![10, 11, 12, 13]);
    assert_eq!(s.count(), 0);
    let out = s.handle_command(SessionCommand::IsConnected, 14);
    assert!(matches!(out.as_slice(), [SessionAction::Resolve(14, Reply::Connected(false))]));
}

#[test]
fn requested_disconnect_succeeds_on_link_loss() {
    let mut s = ready_session();
    let out = s.handle_command(SessionCommand::Disconnect, 20);
    assert!(matches!(out.as_slice(), [SessionAction::Send(NativeRequest::CancelConnection)]));
    let out = s.handle_event(SessionEvent::Disconnected);
    assert!(matches!(out.as_slice(), [SessionAction::Resolve(20, Reply::Done)]));
}

#[test]
fn disconnect_when_not_connected_is_done() {
    let mut s: Peripheral<u32> = Peripheral::new(P);
    let out = s.handle_command(SessionCommand::Disconnect, 3);
    assert!(matches!(out.as_slice(), [SessionAction::Resolve(3, Reply::Done)]));
}

#[test]
fn duplicate_read_is_already_in_progress() {
    let mut s = ready_session();
    let out = s.handle_command(SessionCommand::ReadCharacteristic { service: S, characteristic: C }, 1);
    assert!(matches!(
        out.as_slice(),
        [SessionAction::Send(NativeRequest::ReadValue { service: S, characteristic: C })]
    ));
    let out = s.handle_command(SessionCommand::ReadCharacteristic { service: S, characteristic: C }, 2);
    assert!(matches!(out.as_slice(), [SessionAction::Resolve(2, Reply::Failed(Error::AlreadyInProgress))]));
    let out = s.handle_event(SessionEvent::CharacteristicValue {
        service: S,
        characteristic: C,
        value: vec![0x42],
        error: None,
    });
    match out.as_slice() {
        [SessionAction::Resolve(1, Reply::Value(v))] => assert_eq!(v, &vec![0x42]),
        other => panic!("unexpected {:?}", other),
    }
    let out = s.handle_event(SessionEvent::CharacteristicValue { service: S, characteristic: C, value: vec![1], error: None });
    assert!(out.is_empty());
}

#[test]
fn native_error_is_surfaced_verbatim() {
    let mut s = ready_session();
    s.handle_command(
        SessionCommand::WriteDescriptor { service: S, characteristic: C, descriptor: D, data: vec![1, 0] },
        5,
    );
    let out = s.handle_event(SessionEvent::DescriptorWritten {
        service: S,
        characteristic: C,
        descriptor: D,
        error: Some("Writing is not permitted.".to_string()),
    });
    match out.as_slice() {
        [SessionAction::Resolve(5, Reply::Failed(Error::Native(msg)))] => assert_eq!(msg, "Writing is not permitted."),
        other => panic!("unexpected {:?}", other),
    }
}

#[test]
fn unknown_attribute_is_not_found() {
    let mut s = ready_session();
    let out = s.handle_command(SessionCommand::ReadCharacteristic { service: S, characteristic: 0x9999 }, 1);
    assert!(matches!(out.as_slice(), [SessionAction::Resolve(1, Reply::Failed(Error::NotFound))]));
    let out = s.handle_command(SessionCommand::ReadDescriptor { service: S, characteristic: C, descriptor: 0x1 }, 2);
    assert!(matches!(out.as_slice(), [SessionAction::Resolve(2, Reply::Failed(Error::NotFound))]));
    assert_eq!(s.count(), 0);
}

#[test]
fn write_without_response_completes_at_once() {
    let mut s = ready_session();
    let out = s.handle_command(
        SessionCommand::WriteCharacteristic {
            service: S,
            characteristic: C,
            data: vec![7],
            write_type: CharacteristicWriteType::WriteWithoutResponse,
        },
        6,
    );
    assert_eq!(out.len(), 2);
    assert!(matches!(&out[0], SessionAction::Send(NativeRequest::WriteValue { data, .. }) if data == &vec![7]));
    assert!(matches!(&out[1], SessionAction::Resolve(6, Reply::Done)));
    assert_eq!(s.count(), 0);
}

#[test]
fn subscribe_and_unsubscribe_resolve_separately() {
    let mut s = ready_session();
    s.handle_command(SessionCommand::Subscribe { service: S, characteristic: C }, 1);
    s.handle_command(SessionCommand::Unsubscribe { service: S, characteristic: C }, 2);
    let out = s.handle_event(SessionEvent::SubscriptionChanged { service: S, characteristic: C, subscribed: false, error: None });
    assert!(matches!(out.as_slice(), [SessionAction::Resolve(2, Reply::Done)]));
    let out = s.handle_event(SessionEvent::SubscriptionChanged { service: S, characteristic: C, subscribed: true, error: None });
    assert!(matches!(out.as_slice(), [SessionAction::Resolve(1, Reply::Done)]));
}

#[test]
fn connection_failure_fails_the_connect() {
    let mut s: Peripheral<u32> = Peripheral::new(P);
    s.handle_command(SessionCommand::Connect, 1);
    let out = s.handle_command(SessionCommand::Connect, 2);
    assert!(matches!(out.as_slice(), [SessionAction::Resolve(2, Reply::Failed(Error::AlreadyInProgress))]));
    let out = s.handle_event(SessionEvent::ConnectionFailed { error: "Peer removed pairing information".to_string() });
    match out.as_slice() {
        [SessionAction::Resolve(1, Reply::Failed(Error::Native(m)))] => assert_eq!(m, "Peer removed pairing information"),
        other => panic!("unexpected {:?}", other),
    }
}

#[test]
fn reconnect_gets_a_fresh_cache() {
    let mut s = ready_session();
    s.handle_event(SessionEvent::Disconnected);
    s.handle_event(SessionEvent::Connected);
    let out = s.handle_command(SessionCommand::ReadCharacteristic { service: S, characteristic: C }, 1);
    assert!(matches!(out.as_slice(), [SessionAction::Resolve(1, Reply::Failed(Error::NotFound))]));
    let out = s.handle_command(SessionCommand::IsConnected, 2);
    assert!(matches!(out.as_slice(), [SessionAction::Resolve(2, Reply::Connected(true))]));
    assert_eq!(s.id(), P);
}

#[test]
fn read_and_notified_values_are_cached() {
    let mut s = ready_session();
    s.handle_command(SessionCommand::ReadCharacteristic { service: S, characteristic: C }, 1);
    s.handle_event(SessionEvent::CharacteristicValue { service: S, characteristic: C, value: vec![3], error: None });
    let out = s.handle_command(SessionCommand::Connect, 2);
    match out.as_slice() {
        [SessionAction::Resolve(2, Reply::Services(tree))] => assert_eq!(tree[0].characteristics[0].value, Some(vec![3])),
        other => panic!("unexpected {:?}", other),
    }
    let out = s.handle_event(SessionEvent::CharacteristicValue { service: S, characteristic: C, value: vec![4, 5], error: None });
    assert!(out.is_empty());
    let out = s.handle_command(SessionCommand::Connect, 3);
    match out.as_slice() {
        [SessionAction::Resolve(3, Reply::Services(tree))] => {
            assert_eq!(tree[0].characteristics[0].value, Some(vec![4, 5]))
        },
        other => panic!("unexpected {:?}", other),
    }
}

#[test]
fn failed_read_keeps_cached_value() {
    let mut s = ready_session();
    s.handle_command(SessionCommand::ReadCharacteristic { service: S, characteristic: C }, 1);
    let out = s.handle_event(SessionEvent::CharacteristicValue {
        service: S,
        characteristic: C,
        value: vec![],
        error: Some("Reading is not permitted.".to_string()),
    });
    assert!(matches!(out.as_slice(), [SessionAction::Resolve(1, Reply::Failed(Error::Native(_)))]));
    let out = s.handle_command(SessionCommand::Connect, 2);
    match out.as_slice() {
        [SessionAction::Resolve(2, Reply::Services(tree))] => assert_eq!(tree[0].characteristics[0].value, None),
        other => panic!("unexpected {:?}", other),
    }
}

#[test]
fn timed_out_caller_cancels_its_wait() {
    let mut s = ready_session();
    let read = SessionCommand::ReadCharacteristic { service: S, characteristic: C };
    s.handle_command(read.clone(), 1);
    let key = s.operation_key(&read).unwrap();
    assert!(s.operation_key(&SessionCommand::IsConnected).is_none());
    assert!(s.cancel(&key));
    assert!(!s.cancel(&key));
    let out = s.handle_event(SessionEvent::CharacteristicValue { service: S, characteristic: C, value: vec![9], error: None });
    assert!(out.is_empty());
    let out = s.handle_command(read, 2);
    assert_eq!(out.len(), 1);
    assert!(matches!(&out[0], SessionAction::Send(NativeRequest::ReadValue { .. })));
}

#[test]
fn cached_updates_drive_discovery_directly() {
    let mut s: Peripheral<u32> = Peripheral::new(P);
    s.handle_command(SessionCommand::Connect, 1);
    s.handle_event(SessionEvent::Connected);
    s.handle_event(SessionEvent::ServicesDiscovered { services: vec![service_with_c(S)], error: None });
    let out = s.update_cached_characteristics(0x9999, &vec![characteristic(C)]);
    assert!(out.is_empty());
    let out = s.update_cached_characteristics(S, &vec![characteristic(C), characteristic(C)]);
    assert_eq!(out.len(), 1);
    let out = s.update_cached_characteristic_descriptors(S, 0x7777, &vec![]);
    assert!(out.is_empty());
    let out = s.update_cached_characteristic_descriptors(S, C, &vec![]);
    assert!(matches!(out.as_slice(), [SessionAction::Resolve(1, Reply::Services(_))]));
    let out = s.confirm_disconnect();
    assert!(out.is_empty());
    assert_eq!(s.count(), 0);
}
