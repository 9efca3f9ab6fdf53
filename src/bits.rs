use vstd::prelude::*;
use crate::gatt::{AttributePermission, CharacteristicProperty};

verus! {

/// The bit of each property in a GATT characteristic-properties field.
pub open spec fn property_bit(p: CharacteristicProperty) -> u16 {
    match p {
        CharacteristicProperty::Broadcast => 0x01,
        CharacteristicProperty::Read => 0x02,
        CharacteristicProperty::WriteWithoutResponse => 0x04,
        CharacteristicProperty::Write => 0x08,
        CharacteristicProperty::Notify => 0x10,
        CharacteristicProperty::Indicate => 0x20,
        CharacteristicProperty::AuthenticatedSignedWrites => 0x40,
        CharacteristicProperty::ExtendedProperties => 0x80,
        CharacteristicProperty::NotifyEncryptionRequired => 0x100,
        CharacteristicProperty::IndicateEncryptionRequired => 0x200,
    }
}

/// `p` alone where its bit is set in `bits`, else nothing.
pub open spec fn if_set(bits: u16, p: CharacteristicProperty) -> Seq<CharacteristicProperty> {
    if bits & property_bit(p) != 0 {
        seq![p]
    } else {
        Seq::empty()
    }
}

/// The properties whose bits are set, in the order of their bits.
pub open spec fn properties_in(bits: u16) -> Seq<CharacteristicProperty> {
    if_set(bits, CharacteristicProperty::Broadcast) + if_set(bits, CharacteristicProperty::Read) + if_set(
        bits,
        CharacteristicProperty::WriteWithoutResponse,
    ) + if_set(bits, CharacteristicProperty::Write) + if_set(bits, CharacteristicProperty::Notify) + if_set(
        bits,
        CharacteristicProperty::Indicate,
    ) + if_set(bits, CharacteristicProperty::AuthenticatedSignedWrites) + if_set(
        bits,
        CharacteristicProperty::ExtendedProperties,
    ) + if_set(bits, CharacteristicProperty::NotifyEncryptionRequired) + if_set(
        bits,
        CharacteristicProperty::IndicateEncryptionRequired,
    )
}

fn push_if_set(r: &mut Vec<CharacteristicProperty>, bits: u16, p: CharacteristicProperty, bit: u16)
    requires
        bit == property_bit(p),
    ensures
        final(r)@ == old(r)@ + if_set(bits, p),
{
    if bits & bit != 0 {
        r.push(p);
        assert(final(r)@ =~= old(r)@ + if_set(bits, p));
    } else {
        assert(final(r)@ =~= old(r)@ + if_set(bits, p));
    }
}

/// The properties that a characteristic-properties field lists.
pub fn properties_from_bits(bits: u16) -> (r: Vec<CharacteristicProperty>)
    ensures
        r@ == properties_in(bits),
{
    let mut r: Vec<CharacteristicProperty> = Vec::new();
    push_if_set(&mut r, bits, CharacteristicProperty::Broadcast, 0x01);
    push_if_set(&mut r, bits, CharacteristicProperty::Read, 0x02);
    push_if_set(&mut r, bits, CharacteristicProperty::WriteWithoutResponse, 0x04);
    push_if_set(&mut r, bits, CharacteristicProperty::Write, 0x08);
    push_if_set(&mut r, bits, CharacteristicProperty::Notify, 0x10);
    push_if_set(&mut r, bits, CharacteristicProperty::Indicate, 0x20);
    push_if_set(&mut r, bits, CharacteristicProperty::AuthenticatedSignedWrites, 0x40);
    push_if_set(&mut r, bits, CharacteristicProperty::ExtendedProperties, 0x80);
    push_if_set(&mut r, bits, CharacteristicProperty::NotifyEncryptionRequired, 0x100);
    push_if_set(&mut r, bits, CharacteristicProperty::IndicateEncryptionRequired, 0x200);
    assert(r@ =~= properties_in(bits));
    r
}

pub fn property_bit_of(p: CharacteristicProperty) -> (r: u16)
    ensures
        r == property_bit(p),
{
    match p {
        CharacteristicProperty::Broadcast => 0x01,
        CharacteristicProperty::Read => 0x02,
        CharacteristicProperty::WriteWithoutResponse => 0x04,
        CharacteristicProperty::Write => 0x08,
        CharacteristicProperty::Notify => 0x10,
        CharacteristicProperty::Indicate => 0x20,
        CharacteristicProperty::AuthenticatedSignedWrites => 0x40,
        CharacteristicProperty::ExtendedProperties => 0x80,
        CharacteristicProperty::NotifyEncryptionRequired => 0x100,
        CharacteristicProperty::IndicateEncryptionRequired => 0x200,
    }
}

/// The field with the bit of every listed property set.
pub open spec fn properties_field(ps: Seq<CharacteristicProperty>) -> u16
    decreases ps.len(),
{
    if ps.len() == 0 {
        0
    } else {
        properties_field(ps.drop_last()) | property_bit(ps.last())
    }
}

/// The characteristic-properties field that lists `properties`.
pub fn properties_to_bits(properties: &Vec<CharacteristicProperty>) -> (r: u16)
    ensures
        r == properties_field(properties@),
{
    let mut r: u16 = 0;
    let mut i: usize = 0;
    while i < properties.len()
        invariant
            i <= properties@.len(),
            r == properties_field(properties@.subrange(0, i as int)),
        decreases properties@.len() - i,
    {
        assert(properties@.subrange(0, i as int + 1).drop_last() =~= properties@.subrange(0, i as int));
        r = r | property_bit_of(properties[i]);
        i = i + 1;
    }
    assert(properties@.subrange(0, i as int) =~= properties@);
    r
}

/// The bit of each permission in an attribute-permissions field.
pub open spec fn permission_bit(p: AttributePermission) -> u16 {
    match p {
        AttributePermission::Readable => 0x01,
        AttributePermission::Writeable => 0x02,
        AttributePermission::ReadEncryptionRequired => 0x04,
        AttributePermission::WriteEncryptionRequired => 0x08,
    }
}

pub open spec fn permissions_field(ps: Seq<AttributePermission>) -> u16
    decreases ps.len(),
{
    if ps.len() == 0 {
        0
    } else {
        permissions_field(ps.drop_last()) | permission_bit(ps.last())
    }
}

/// The attribute-permissions field that grants `permissions`.
pub fn permissions_to_bits(permissions: &Vec<AttributePermission>) -> (r: u16)
    ensures
        r == permissions_field(permissions@),
{
    let mut r: u16 = 0;
    let mut i: usize = 0;
    while i < permissions.len()
        invariant
            i <= permissions@.len(),
            r == permissions_field(permissions@.subrange(0, i as int)),
        decreases permissions@.len() - i,
    {
        assert(permissions@.subrange(0, i as int + 1).drop_last() =~= permissions@.subrange(0, i as int));
        let bit: u16 = match permissions[i] {
            AttributePermission::Readable => 0x01,
            AttributePermission::Writeable => 0x02,
            AttributePermission::ReadEncryptionRequired => 0x04,
            AttributePermission::WriteEncryptionRequired => 0x08,
        };
        r = r | bit;
        i = i + 1;
    }
    assert(permissions@.subrange(0, i as int) =~= permissions@);
    r
}

/// The Bluetooth base UUID, which 16- and 32-bit UUIDs abbreviate.
pub const BLUETOOTH_BASE_UUID: u128 = 0x0000_0000_0000_1000_8000_0080_5f9b_34fb;

/// The big-endian value of a byte string.
pub open spec fn be_value(b: Seq<u8>) -> nat
    decreases b.len(),
{
    if b.len() == 0 {
        0
    } else {
        be_value(b.drop_last()) * 256 + b.last() as nat
    }
}

pub open spec fn pow256(n: nat) -> nat
    decreases n,
{
    if n == 0 {
        1
    } else {
        256 * pow256((n - 1) as nat)
    }
}

/// The 128-bit UUID that a 2-, 4- or 16-byte big-endian UUID stands for.
pub open spec fn uuid_of_bytes(b: Seq<u8>) -> Option<u128> {
    if b.len() == 16 {
        Some(be_value(b) as u128)
    } else if b.len() == 2 || b.len() == 4 {
        Some((BLUETOOTH_BASE_UUID + be_value(b) * pow256(12)) as u128)
    } else {
        None
    }
}

proof fn lemma_be_value_bound(b: Seq<u8>)
    ensures
        be_value(b) < pow256(b.len()),
    decreases b.len(),
{
    if b.len() > 0 {
        lemma_be_value_bound(b.drop_last());
        let v = be_value(b.drop_last());
        let p = pow256(b.drop_last().len());
        assert(v * 256 + b.last() < 256 * p) by (nonlinear_arith)
            requires
                v < p,
                b.last() < 256,
        ;
    }
}

/// The 128-bit UUID of a 2-, 4- or 16-byte big-endian UUID; `None` for any
/// other length.
pub fn uuid_from_bytes(bytes: &Vec<u8>) -> (r: Option<u128>)
    ensures
        r == uuid_of_bytes(bytes@),
{
    let n = bytes.len();
    if n != 2 && n != 4 && n != 16 {
        return None;
    }
    let mut acc: u128 = 0;
    let mut i: usize = 0;
    assert(bytes@.subrange(0, 0) =~= Seq::<u8>::empty());
    while i < n
        invariant
            n == bytes@.len(),
            n <= 16,
            i <= n,
            acc == be_value(bytes@.subrange(0, i as int)),
        decreases n - i,
    {
        let ghost prefix = bytes@.subrange(0, i as int + 1);
        assert(prefix.drop_last() =~= bytes@.subrange(0, i as int));
        proof {
            lemma_be_value_bound(prefix);
            assert(pow256(prefix.len()) <= pow256(16)) by {
                lemma_pow256_monotone(prefix.len(), 16);
            }
            lemma_pow256_values();
        }
        acc = acc * 256 + bytes[i] as u128;
        i = i + 1;
    }
    assert(bytes@.subrange(0, n as int) =~= bytes@);
    if n == 16 {
        Some(acc)
    } else {
        proof {
            lemma_be_value_bound(bytes@);
            lemma_pow256_values();
            lemma_pow256_monotone(n as nat, 4);
            assert(acc * pow256(12) <= 0xffff_ffff * 0x1_0000_0000_0000_0000_0000_0000) by (nonlinear_arith)
                requires
                    acc < 0x1_0000_0000,
                    pow256(12) == 0x1_0000_0000_0000_0000_0000_0000,
            ;
        }
        Some(BLUETOOTH_BASE_UUID + acc * 0x1_0000_0000_0000_0000_0000_0000)
    }
}

proof fn lemma_pow256_values()
    ensures
        pow256(4) == 0x1_0000_0000,
        pow256(12) == 0x1_0000_0000_0000_0000_0000_0000,
        pow256(16) == 0x1_0000_0000_0000_0000_0000_0000_0000_0000,
{
    reveal_with_fuel(pow256, 17);
}

proof fn lemma_pow256_monotone(a: nat, b: nat)
    requires
        a <= b,
    ensures
        pow256(a) <= pow256(b),
    decreases b,
{
    if a < b {
        lemma_pow256_monotone(a, (b - 1) as nat);
    }
}

} // verus!
