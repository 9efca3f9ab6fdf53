use rustycore::registry::{AdvertisementResolver, OperationKey, PendingRegistry, Registration, ServiceResolver};

fn read_key(characteristic: u128) -> OperationKey {
    OperationKey::ReadCharacteristic { peripheral: 7, service: 0x180d, characteristic }
}

#[test]
fn second_registration_is_refused_and_keeps_first() {
    let mut reg: PendingRegistry<u32> = PendingRegistry::new();
    assert_eq!(reg.register(read_key(1), 10), Registration::Registered);
    assert!(reg.is_waiting_for(&read_key(1)));
    assert_eq!(reg.register(read_key(1), 20), Registration::AlreadyInProgress(20));
    assert_eq!(reg.count(), 1);
    assert_eq!(reg.take(&read_key(1)), Some(10));
}

#[test]
fn distinct_keys_register_independently() {
    let mut reg: PendingRegistry<u32> = PendingRegistry::new();
    assert_eq!(reg.register(read_key(1), 1), Registration::Registered);
    assert_eq!(reg.register(read_key(2), 2), Registration::Registered);
    let write = OperationKey::WriteCharacteristic { peripheral: 7, service: 0x180d, characteristic: 1 };
    assert_eq!(reg.register(write, 3), Registration::Registered);
    assert_eq!(reg.count(), 3);
    assert!(reg.has_pending());
}

#[test]
fn second_take_reports_not_found() {
    let mut reg: PendingRegistry<u32> = PendingRegistry::new();
    reg.register(read_key(1), 5);
    assert_eq!(reg.take(&read_key(1)), Some(5));
    assert_eq!(reg.take(&read_key(1)), None);
    assert!(!reg.cancel(&read_key(1)));
    assert_eq!(reg.count(), 0);
}

#[test]
fn cancel_then_late_take_finds_nothing() {
    let mut reg: PendingRegistry<u32> = PendingRegistry::new();
    reg.register(read_key(3), 9);
    assert!(reg.cancel(&read_key(3)));
    assert!(!reg.cancel(&read_key(3)));
    assert_eq!(reg.take(&read_key(3)), None);
    assert!(!reg.has_pending());
}

#[test]
fn freed_slot_accepts_a_new_registration() {
    let mut reg: PendingRegistry<u32> = PendingRegistry::new();
    reg.register(read_key(1), 1);
    reg.cancel(&read_key(1));
    assert_eq!(reg.register(read_key(1), 2), Registration::Registered);
    assert_eq!(reg.take(&read_key(1)), Some(2));
}

#[test]
fn drain_hands_out_every_entry_once() {
    let mut reg: PendingRegistry<u32> = PendingRegistry::new();
    reg.register(read_key(1), 1);
    reg.register(read_key(2), 2);
    reg.register(OperationKey::Connect { peripheral: 7 }, 3);
    let mut values: Vec<u32> = reg.drain().into_iter().map(|(_, v)| v).collect();
    values.sort();
    assert_eq!(values, vec![1, 2, 3]);
    assert_eq!(reg.count(), 0);
    assert!(reg.drain().is_empty());
}

#[test]
fn service_resolver_one_wait_per_service() {
    let mut res: ServiceResolver<u32> = ServiceResolver::default();
    assert_eq!(res.register(0xaaaa, 1), Registration::Registered);
    assert_eq!(res.register(0xaaaa, 2), Registration::AlreadyInProgress(2));
    assert_eq!(res.register(0xbbbb, 3), Registration::Registered);
    assert!(res.is_waiting_for(0xaaaa));
    assert!(!res.is_waiting_for(0xcccc));
    assert_eq!(res.count(), 2);
    assert_eq!(res.take(0xaaaa), Some(1));
    assert_eq!(res.take(0xaaaa), None);
    assert!(res.cancel(0xbbbb));
    assert!(!res.has_pending());
}

#[test]
fn advertisement_resolver_refuses_reentry() {
    let mut res: AdvertisementResolver<u32> = AdvertisementResolver::new();
    assert!(!res.is_waiting());
    assert_eq!(res.register(1), Registration::Registered);
    assert_eq!(res.register(2), Registration::AlreadyInProgress(2));
    assert_eq!(res.take(), Some(1));
    assert_eq!(res.take(), None);
    assert!(!res.cancel());
}
