use rustycore::discovery::DiscoveryCache;
use rustycore::gatt::{Characteristic, CharacteristicProperty, Descriptor, Service};

const S: u128 = 0x0000180d_0000_1000_8000_00805f9b34fb;
const T: u128 = 0x0000180f_0000_1000_8000_00805f9b34fb;
const C: u128 = 0x00002a37_0000_1000_8000_00805f9b34fb;
const D: u128 = 0x00002902_0000_1000_8000_00805f9b34fb;

fn service(uuid: u128) -> Service {
    Service { uuid, primary: true, characteristics: vec![] }
}

fn characteristic(uuid: u128, service_uuid: u128, properties: Vec<CharacteristicProperty>) -> Characteristic {
    Characteristic { uuid, service_uuid, properties, permissions: vec![], value: None, descriptors: vec![] }
}

fn descriptor(uuid: u128) -> Descriptor {
    Descriptor { uuid, service_uuid: S, characteristic_uuid: C, properties: vec![], permissions: vec![], value: None }
}

#[test]
fn empty_service_is_discovered_at_once() {
    let mut cache = DiscoveryCache::new();
    assert!(!cache.is_fully_discovered());
    let asked = cache.set_services(&vec![service(S)]);
    assert_eq!(asked, vec![S]);
    assert!(cache.is_fully_discovered());
    assert_eq!(cache.services(), vec![Service { uuid: S, primary: true, characteristics: vec![] }]);
}

#[test]
fn no_services_reported_means_nothing_discovered_yet() {
    let cache = DiscoveryCache::new();
    assert!(!cache.is_fully_discovered());
    assert!(cache.services().is_empty());
}

#[test]
fn duplicate_characteristic_keeps_first_properties() {
    let mut cache = DiscoveryCache::new();
    cache.set_services(&vec![service(S)]);
    let asked = cache.set_characteristics(
        S,
        &vec![
            characteristic(C, S, vec![CharacteristicProperty::Read]),
            characteristic(C, S, vec![CharacteristicProperty::Write]),
        ],
    );
    assert_eq!(asked, Some(vec![C]));
    let tree = cache.services();
    assert_eq!(tree.len(), 1);
    assert_eq!(tree[0].characteristics.len(), 1);
    assert_eq!(tree[0].characteristics[0].uuid, C);
    assert_eq!(tree[0].characteristics[0].properties, vec![CharacteristicProperty::Read]);
}

#[test]
fn characteristics_wait_for_their_descriptors() {
    let mut cache = DiscoveryCache::new();
    cache.set_services(&vec![service(S)]);
    cache.set_characteristics(S, &vec![characteristic(C, S, vec![CharacteristicProperty::Notify])]);
    assert!(!cache.is_fully_discovered());
    assert!(cache.set_descriptors(S, C, &vec![descriptor(D)]));
    assert!(cache.is_fully_discovered());
    assert!(cache.knows_characteristic(S, C));
    assert!(cache.knows_descriptor(S, C, D));
    assert!(!cache.knows_descriptor(S, C, C));
    let tree = cache.services();
    assert_eq!(tree[0].characteristics[0].descriptors.len(), 1);
    assert_eq!(tree[0].characteristics[0].descriptors[0].uuid, D);
}

#[test]
fn zero_descriptors_complete_a_characteristic() {
    let mut cache = DiscoveryCache::new();
    cache.set_services(&vec![service(S), service(T)]);
    cache.set_characteristics(S, &vec![characteristic(C, S, vec![])]);
    cache.set_characteristics(T, &vec![]);
    assert!(!cache.is_fully_discovered());
    assert!(cache.set_descriptors(S, C, &vec![]));
    assert!(cache.is_fully_discovered());
}

#[test]
fn reports_for_unknown_attributes_change_nothing() {
    let mut cache = DiscoveryCache::new();
    cache.set_services(&vec![service(S)]);
    assert_eq!(cache.set_characteristics(T, &vec![characteristic(C, T, vec![])]), None);
    assert!(!cache.set_descriptors(S, C, &vec![descriptor(D)]));
    assert!(!cache.knows_characteristic(T, C));
    assert!(cache.is_fully_discovered());
}

#[test]
fn duplicate_services_keep_first() {
    let mut cache = DiscoveryCache::new();
    let mut second = service(S);
    second.primary = false;
    let asked = cache.set_services(&vec![service(S), second, service(T)]);
    assert_eq!(asked, vec![S, T]);
    let tree = cache.services();
    assert_eq!(tree.len(), 2);
    assert!(tree[0].primary);
}

#[test]
fn clear_forgets_everything() {
    let mut cache = DiscoveryCache::new();
    cache.set_services(&vec![service(S)]);
    cache.clear();
    assert!(!cache.is_fully_discovered());
    assert!(cache.services().is_empty());
}

#[test]
fn same_characteristics_twice_is_same_as_once() {
    let mut cache = DiscoveryCache::new();
    cache.set_services(&vec![service(S)]);
    let list = vec![characteristic(C, S, vec![CharacteristicProperty::Read])];
    cache.set_characteristics(S, &list);
    cache.set_descriptors(S, C, &vec![descriptor(D)]);
    let before = cache.services();
    cache.set_descriptors(S, C, &vec![descriptor(D)]);
    assert_eq!(cache.services(), before);
    assert!(cache.is_fully_discovered());
}

#[test]
fn defaults_are_readable_writeable_notifying() {
    let c = Characteristic::default();
    assert_eq!(c.uuid, 0);
    assert_eq!(
        c.properties,
        vec![CharacteristicProperty::Read, CharacteristicProperty::Write, CharacteristicProperty::Notify]
    );
    assert_eq!(c.permissions.len(), 2);
    let d = Descriptor::default();
    assert_eq!(d.value, None);
    assert_eq!(d.properties.len(), 3);
}
