use rustycore::bits::{
    permissions_to_bits, properties_from_bits, properties_to_bits, uuid_from_bytes, BLUETOOTH_BASE_UUID,
};
use rustycore::gatt::{AttributePermission, CharacteristicProperty};

#[test]
fn property_field_lists_set_bits_in_order() {
    assert_eq!(properties_from_bits(0x12), vec![CharacteristicProperty::Read, CharacteristicProperty::Notify]);
    assert_eq!(properties_from_bits(0), vec![]);
    assert_eq!(properties_from_bits(0x3ff).len(), 10);
    assert_eq!(
        properties_from_bits(0x300),
        vec![CharacteristicProperty::NotifyEncryptionRequired, CharacteristicProperty::IndicateEncryptionRequired]
    );
}

#[test]
fn property_list_becomes_field() {
    assert_eq!(properties_to_bits(&vec![CharacteristicProperty::Write, CharacteristicProperty::Indicate]), 0x28);
    assert_eq!(properties_to_bits(&vec![]), 0);
    assert_eq!(properties_to_bits(&properties_from_bits(0x1a5)), 0x1a5);
}

#[test]
fn permission_list_becomes_field() {
    assert_eq!(permissions_to_bits(&vec![AttributePermission::Readable, AttributePermission::Writeable]), 0x03);
    assert_eq!(permissions_to_bits(&vec![AttributePermission::WriteEncryptionRequired]), 0x08);
}

#[test]
fn short_uuids_expand_over_the_base() {
    assert_eq!(uuid_from_bytes(&vec![0x18, 0x0d]), Some(0x0000180d_0000_1000_8000_00805f9b34fb));
    assert_eq!(uuid_from_bytes(&vec![0x12, 0x34, 0x56, 0x78]), Some(0x12345678_0000_1000_8000_00805f9b34fb));
    assert_eq!(uuid_from_bytes(&vec![0, 0]), Some(BLUETOOTH_BASE_UUID));
}

#[test]
fn full_uuid_is_big_endian() {
    let bytes: Vec<u8> = (1..=16).collect();
    assert_eq!(uuid_from_bytes(&bytes), Some(0x0102030405060708090a0b0c0d0e0f10));
    assert_eq!(uuid_from_bytes(&vec![0xff; 16]), Some(u128::MAX));
}

#[test]
fn other_lengths_are_refused() {
    assert_eq!(uuid_from_bytes(&vec![]), None);
    assert_eq!(uuid_from_bytes(&vec![1, 2, 3]), None);
    assert_eq!(uuid_from_bytes(&vec![0; 17]), None);
}
