use rustycore::error::Error;
use rustycore::gatt::{Characteristic, Service};
use rustycore::peripheral_manager::{
    is_authorized, read_reply, write_reply, AttReply, DelegateAction, ManagerRequest, PeripheralEvent, PeripheralManagerDelegate,
    PeripheralManagerDelegateEvent, PeripheralRequest, PeripheralManager, ReadRequestResponse, RequestResponse,
    WaitOutcome, WriteRequestResponse,
};
use rustycore::registry::Registration;

fn service(uuid: u128, characteristics: Vec<u128>) -> Service {
    Service {
        uuid,
        primary: true,
        characteristics: characteristics
            .into_iter()
            .map(|c| Characteristic { uuid: c, service_uuid: uuid, ..Characteristic::default() })
            .collect(),
    }
}

#[test]
fn unanswered_write_gets_invalid_handle() {
    assert_eq!(write_reply(None), 0x01);
    assert_eq!(write_reply(Some(WriteRequestResponse { response: RequestResponse::Success })), 0x00);
}

#[test]
fn unanswered_read_gets_invalid_handle_without_value() {
    assert_eq!(read_reply(None), AttReply { code: 0x01, value: None });
    assert_eq!(
        read_reply(Some(ReadRequestResponse { value: vec![1, 2], response: RequestResponse::Success })),
        AttReply { code: 0x00, value: Some(vec![1, 2]) }
    );
}

#[test]
fn result_codes_are_att_codes() {
    assert_eq!(RequestResponse::Success.att_code(), 0x00);
    assert_eq!(RequestResponse::InvalidHandle.att_code(), 0x01);
    assert_eq!(RequestResponse::RequestNotSupported.att_code(), 0x06);
    assert_eq!(RequestResponse::InvalidOffset.att_code(), 0x07);
    assert_eq!(RequestResponse::UnlikelyError.att_code(), 0x0e);
}

#[test]
fn advertising_timeout_frees_the_slot() {
    let mut role: PeripheralManager<u32> = PeripheralManager::new();
    let first = role.start_advertising("node".to_string(), vec![0x180d], 1);
    assert_eq!(first, Ok(ManagerRequest::StartAdvertising { name: "node".to_string(), uuids: vec![0x180d] }));
    assert_eq!(role.start_advertising("node".to_string(), vec![], 2), Err(2));
    assert_eq!(role.finish_advertising(WaitOutcome::TimedOut), Err(Error::Timeout));
    assert!(!role.delegate().is_waiting_for_advertisement_result());
    assert!(role.start_advertising("node".to_string(), vec![0x180d], 3).is_ok());
    let late = role.handle_event::<u8, u8>(PeripheralManagerDelegateEvent::AdvertisingStarted { error: None });
    assert!(matches!(late, DelegateAction::Wake(3, None)));
    let later = role.handle_event::<u8, u8>(PeripheralManagerDelegateEvent::AdvertisingStarted { error: None });
    assert!(matches!(later, DelegateAction::Nothing));
}

#[test]
fn wait_outcomes_become_results() {
    let d: PeripheralManagerDelegate<u32> = PeripheralManagerDelegate::new();
    assert_eq!(d.resolve_event(WaitOutcome::Completed(None)), Ok(()));
    assert_eq!(
        d.resolve_event(WaitOutcome::Completed(Some("Advertising failed".to_string()))),
        Err(Error::Native("Advertising failed".to_string()))
    );
    assert_eq!(d.resolve_event(WaitOutcome::ChannelClosed), Err(Error::ChannelClosed));
    assert_eq!(d.resolve_event(WaitOutcome::TimedOut), Err(Error::Timeout));
}

#[test]
fn add_service_waits_per_service() {
    let mut role: PeripheralManager<u32> = PeripheralManager::new();
    assert!(role.add_service(service(0xa, vec![0x1, 0x2]), 1).is_ok());
    assert!(role.delegate().is_waiting_for_service_result(0xa));
    assert_eq!(role.add_service(service(0xa, vec![]), 2).err(), Some(2));
    assert!(role.add_service(service(0xb, vec![0x3]), 3).is_ok());
    let woke = role.handle_event::<u8, u8>(PeripheralManagerDelegateEvent::ServiceAdded { service: 0xa, error: Some("bad".to_string()) });
    assert!(matches!(woke, DelegateAction::Wake(1, Some(ref e)) if e == "bad"));
    assert_eq!(role.finish_service(0xa, WaitOutcome::Completed(Some("bad".to_string()))), Err(Error::Native("bad".to_string())));
    assert_eq!(role.finish_service(0xb, WaitOutcome::TimedOut), Err(Error::Timeout));
    assert!(!role.delegate().is_waiting_for_service_result(0xb));
}

#[test]
fn update_of_unserved_characteristic_is_not_found() {
    let mut role: PeripheralManager<u32> = PeripheralManager::new();
    role.add_service(service(0xa, vec![0x1]), 1).ok();
    assert_eq!(
        role.update_characteristic(0x1, vec![5]),
        Ok(ManagerRequest::UpdateValue { characteristic: 0x1, value: vec![5] })
    );
    assert_eq!(role.update_characteristic(0x2, vec![5]), Err(Error::NotFound));
}

#[test]
fn state_and_subscriptions_are_published() {
    let mut role: PeripheralManager<u32> = PeripheralManager::new();
    let a = role.handle_event::<u8, u8>(PeripheralManagerDelegateEvent::StateUpdated { powered: true });
    assert!(matches!(a, DelegateAction::Publish(PeripheralEvent::StateUpdate { is_powered: true })));
    let request = PeripheralRequest { client: "c1".to_string(), service: 0xa, characteristic: 0x1 };
    let a = role.handle_event::<u8, u8>(PeripheralManagerDelegateEvent::SubscriptionChanged { request: request.clone(), subscribed: true });
    match a {
        DelegateAction::Publish(PeripheralEvent::CharacteristicSubscriptionUpdate { request: r, subscribed: true }) => {
            assert_eq!(r, request)
        },
        _ => panic!("unexpected action"),
    }
}

#[test]
fn begin_advertisement_twice_is_refused() {
    let mut d: PeripheralManagerDelegate<u32> = PeripheralManagerDelegate::new();
    assert_eq!(d.begin_advertisement(1), Registration::Registered);
    assert_eq!(d.begin_advertisement(2), Registration::AlreadyInProgress(2));
    assert_eq!(d.end_advertisement_wait(WaitOutcome::Completed(None)), Ok(()));
    assert_eq!(d.begin_service(0xa, 3), Registration::Registered);
    assert_eq!(d.end_service_wait(0xa, WaitOutcome::ChannelClosed), Err(Error::ChannelClosed));
}

#[test]
fn only_restricted_or_denied_is_unauthorized() {
    assert!(is_authorized(0));
    assert!(!is_authorized(1));
    assert!(!is_authorized(2));
    assert!(is_authorized(3));
}
