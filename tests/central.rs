use rustycore::central::{
    convert_state, split_manufacturer_data, Central, CentralCommand, CentralEvent, CentralNativeEvent, CentralReply,
    CentralRequest, CentralState, PeripheralId, ScanFilter,
};
use rustycore::error::Error;

fn powered_on() -> Central {
    let mut c = Central::new();
    c.handle_event(CentralNativeEvent::StateChanged { code: 5 });
    c
}

#[test]
fn state_codes_map_to_states() {
    assert_eq!(convert_state(0), CentralState::Unknown);
    assert_eq!(convert_state(1), CentralState::Resetting);
    assert_eq!(convert_state(2), CentralState::Unsupported);
    assert_eq!(convert_state(3), CentralState::Unauthorized);
    assert_eq!(convert_state(4), CentralState::PoweredOff);
    assert_eq!(convert_state(5), CentralState::PoweredOn);
    assert_eq!(convert_state(42), CentralState::Unknown);
    assert_eq!(convert_state(-1), CentralState::Unknown);
}

#[test]
fn manufacturer_block_splits_little_endian_id() {
    assert_eq!(split_manufacturer_data(&vec![0x4c, 0x00, 0x02, 0x15]), Some((0x004c, vec![0x02, 0x15])));
    assert_eq!(split_manufacturer_data(&vec![0x34, 0x12]), Some((0x1234, vec![])));
    assert_eq!(split_manufacturer_data(&vec![0x01]), None);
    assert_eq!(split_manufacturer_data(&vec![]), None);
}

#[test]
fn scan_starts_only_when_powered_on() {
    let mut c = Central::new();
    let (reply, request) = c.handle_command(CentralCommand::StartScanning { filter: ScanFilter::default() });
    assert_eq!(reply, CentralReply::Started(false));
    assert_eq!(request, None);
    let mut c = powered_on();
    let (reply, request) = c.handle_command(CentralCommand::StartScanning { filter: ScanFilter { services: vec![0x180d] } });
    assert_eq!(reply, CentralReply::Started(true));
    assert_eq!(request, Some(CentralRequest::Scan { services: vec![0x180d] }));
    assert!(c.is_scanning());
    let (reply, request) = c.handle_command(CentralCommand::StopScanning);
    assert_eq!(reply, CentralReply::Done);
    assert_eq!(request, Some(CentralRequest::StopScan));
    assert!(!c.is_scanning());
}

#[test]
fn power_loss_ends_scan() {
    let mut c = powered_on();
    c.handle_command(CentralCommand::StartScanning { filter: ScanFilter::default() });
    let events = c.handle_event(CentralNativeEvent::StateChanged { code: 4 });
    assert_eq!(events, vec![CentralEvent::StateUpdate { state: CentralState::PoweredOff }]);
    assert!(!c.is_scanning());
    let (reply, _) = c.handle_command(CentralCommand::GetAdapterState);
    assert_eq!(reply, CentralReply::State(CentralState::PoweredOff));
}

#[test]
fn discovery_reports_device_then_fragments() {
    let mut c = powered_on();
    let events = c.handle_event(CentralNativeEvent::Discovered {
        id: 77,
        name: Some("Sensor".to_string()),
        rssi: -60,
        manufacturer_data: Some(vec![0x59, 0x00, 0xaa]),
        service_data: Some(vec![(0x180f, vec![99])]),
        services: Some(vec![0x180d]),
    });
    assert_eq!(
        events,
        vec![
            CentralEvent::DeviceDiscovered { id: PeripheralId(77), name: Some("Sensor".to_string()), rssi: -60 },
            CentralEvent::ManufacturerDataAdvertisement {
                id: PeripheralId(77),
                manufacturer_id: 0x0059,
                data: vec![0xaa],
                rssi: -60
            },
            CentralEvent::ServiceDataAdvertisement { id: PeripheralId(77), service_data: vec![(0x180f, vec![99])], rssi: -60 },
            CentralEvent::ServicesAdvertisement { id: PeripheralId(77), services: vec![0x180d], rssi: -60 },
        ]
    );
    let again = c.handle_event(CentralNativeEvent::Discovered {
        id: 77,
        name: None,
        rssi: -58,
        manufacturer_data: Some(vec![0x59]),
        service_data: None,
        services: None,
    });
    assert_eq!(again, vec![CentralEvent::DeviceUpdated { id: PeripheralId(77), name: None, rssi: -58 }]);
    assert_eq!(c.peripherals(), vec![PeripheralId(77)]);
    assert_eq!(c.peripheral(&PeripheralId(77)), Ok(PeripheralId(77)));
    assert_eq!(c.peripheral(&PeripheralId(78)), Err(Error::NotFound));
}

#[test]
fn connection_events_pass_through() {
    let mut c = powered_on();
    assert_eq!(
        c.handle_event(CentralNativeEvent::Connected { id: 5 }),
        vec![CentralEvent::DeviceConnected { id: PeripheralId(5) }]
    );
    assert_eq!(
        c.handle_event(CentralNativeEvent::Disconnected { id: 5 }),
        vec![CentralEvent::DeviceDisconnected { id: PeripheralId(5) }]
    );
    assert_eq!(
        c.handle_event(CentralNativeEvent::ConnectionFailed { id: 5, error: Some("timeout".to_string()) }),
        vec![CentralEvent::DeviceConnectionFailed { id: PeripheralId(5), error: Some("timeout".to_string()) }]
    );
}
