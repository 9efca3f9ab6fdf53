use vstd::prelude::*;

verus! {

/// What a remote client may do with a characteristic.
#[derive(Debug, Clone, Copy, PartialOrd, Ord, PartialEq, Eq, Structural)]
pub enum CharacteristicProperty {
    Broadcast,
    Read,
    WriteWithoutResponse,
    Write,
    AuthenticatedSignedWrites,
    Notify,
    NotifyEncryptionRequired,
    Indicate,
    IndicateEncryptionRequired,
    ExtendedProperties,
}

/// Whether a write waits for the remote's acknowledgement.
#[derive(Debug, Clone, Copy, PartialOrd, Ord, PartialEq, Eq, Structural)]
pub enum CharacteristicWriteType {
    WriteWithoutResponse,
    WriteWithResponse,
}

/// Access rights on an attribute served by the peripheral role.
#[derive(Debug, Clone, Copy, PartialOrd, Ord, PartialEq, Eq, Structural)]
pub enum AttributePermission {
    Readable,
    Writeable,
    ReadEncryptionRequired,
    WriteEncryptionRequired,
}

/// A descriptor of a characteristic, identified by 128-bit UUIDs.
#[derive(Debug, Clone, PartialEq, Eq, PartialOrd, Ord)]
pub struct Descriptor {
    pub uuid: u128,
    pub service_uuid: u128,
    pub characteristic_uuid: u128,
    pub properties: Vec<CharacteristicProperty>,
    pub permissions: Vec<AttributePermission>,
    /// The last value read or notified; a cache, not authoritative.
    pub value: Option<Vec<u8>>,
}

/// A characteristic of a service.
#[derive(Debug, Clone, PartialEq, Eq, PartialOrd, Ord)]
pub struct Characteristic {
    pub uuid: u128,
    pub service_uuid: u128,
    pub properties: Vec<CharacteristicProperty>,
    pub permissions: Vec<AttributePermission>,
    /// The last value read or notified; a cache, not authoritative.
    pub value: Option<Vec<u8>>,
    pub descriptors: Vec<Descriptor>,
}

/// A GATT service and the characteristics it holds.
#[derive(Debug, Clone, PartialEq, Eq, PartialOrd, Ord)]
pub struct Service {
    pub uuid: u128,
    pub primary: bool,
    pub characteristics: Vec<Characteristic>,
}

pub struct DescriptorModel {
    pub uuid: u128,
    pub service_uuid: u128,
    pub characteristic_uuid: u128,
    pub properties: Seq<CharacteristicProperty>,
    pub permissions: Seq<AttributePermission>,
    pub value: Option<Seq<u8>>,
}

pub struct CharacteristicModel {
    pub uuid: u128,
    pub service_uuid: u128,
    pub properties: Seq<CharacteristicProperty>,
    pub permissions: Seq<AttributePermission>,
    pub value: Option<Seq<u8>>,
    pub descriptors: Seq<DescriptorModel>,
}

pub struct ServiceModel {
    pub uuid: u128,
    pub primary: bool,
    pub characteristics: Seq<CharacteristicModel>,
}

pub open spec fn bytes_model(v: Option<Vec<u8>>) -> Option<Seq<u8>> {
    match v {
        Some(b) => Some(b@),
        None => None,
    }
}

impl View for Descriptor {
    type V = DescriptorModel;

    open spec fn view(&self) -> DescriptorModel {
        DescriptorModel {
            uuid: self.uuid,
            service_uuid: self.service_uuid,
            characteristic_uuid: self.characteristic_uuid,
            properties: self.properties@,
            permissions: self.permissions@,
            value: bytes_model(self.value),
        }
    }
}

impl View for Characteristic {
    type V = CharacteristicModel;

    open spec fn view(&self) -> CharacteristicModel {
        CharacteristicModel {
            uuid: self.uuid,
            service_uuid: self.service_uuid,
            properties: self.properties@,
            permissions: self.permissions@,
            value: bytes_model(self.value),
            descriptors: self.descriptors@.map_values(|d: Descriptor| d@),
        }
    }
}

impl View for Service {
    type V = ServiceModel;

    open spec fn view(&self) -> ServiceModel {
        ServiceModel {
            uuid: self.uuid,
            primary: self.primary,
            characteristics: self.characteristics@.map_values(|c: Characteristic| c@),
        }
    }
}

/// An element-wise copy of a vector of plain values.
pub fn copy_values<T: Copy>(v: &Vec<T>) -> (r: Vec<T>)
    ensures
        r@ == v@,
{
    let mut r: Vec<T> = Vec::new();
    let mut i: usize = 0;
    while i < v.len()
        invariant
            i <= v@.len(),
            r@ == v@.subrange(0, i as int),
        decreases v@.len() - i,
    {
        r.push(v[i]);
        i = i + 1;
        assert(r@ =~= v@.subrange(0, i as int));
    }
    assert(r@ =~= v@);
    r
}

pub fn copy_bytes(v: &Option<Vec<u8>>) -> (r: Option<Vec<u8>>)
    ensures
        bytes_model(r) == bytes_model(*v),
{
    match v {
        Some(b) => Some(copy_values(b)),
        None => None,
    }
}

/// A copy of a descriptor list with the same models.
pub fn copy_descriptors(ds: &Vec<Descriptor>) -> (r: Vec<Descriptor>)
    ensures
        r@.map_values(|d: Descriptor| d@) == ds@.map_values(|d: Descriptor| d@),
{
    let mut r: Vec<Descriptor> = Vec::new();
    let mut i: usize = 0;
    while i < ds.len()
        invariant
            i <= ds@.len(),
            r@.len() == i,
            forall|j: int| 0 <= j < i ==> #[trigger] r@[j]@ == ds@[j]@,
        decreases ds@.len() - i,
    {
        r.push(ds[i].snapshot());
        i = i + 1;
    }
    assert(r@.map_values(|d: Descriptor| d@) =~= ds@.map_values(|d: Descriptor| d@));
    r
}

impl Descriptor {
    /// A copy of this descriptor with the same model.
    pub fn snapshot(&self) -> (r: Descriptor)
        ensures
            r@ == self@,
    {
        Descriptor {
            uuid: self.uuid,
            service_uuid: self.service_uuid,
            characteristic_uuid: self.characteristic_uuid,
            properties: copy_values(&self.properties),
            permissions: copy_values(&self.permissions),
            value: copy_bytes(&self.value),
        }
    }
}

/// The properties that a new attribute gets unless told otherwise.
pub open spec fn default_properties() -> Seq<CharacteristicProperty> {
    seq![CharacteristicProperty::Read, CharacteristicProperty::Write, CharacteristicProperty::Notify]
}

/// The permissions that a new attribute gets unless told otherwise.
pub open spec fn default_permissions() -> Seq<AttributePermission> {
    seq![AttributePermission::Readable, AttributePermission::Writeable]
}

impl Characteristic {
    /// A copy of this characteristic, its descriptors included, with the same model.
    pub fn snapshot(&self) -> (r: Characteristic)
        ensures
            r@ == self@,
    {
        let descriptors = copy_descriptors(&self.descriptors);
        let r = Characteristic {
            uuid: self.uuid,
            service_uuid: self.service_uuid,
            properties: copy_values(&self.properties),
            permissions: copy_values(&self.permissions),
            value: copy_bytes(&self.value),
            descriptors,
        };
        r
    }
}

impl Default for Descriptor {
    /// A readable, writeable and notifying descriptor with the nil UUID and no
    /// cached value.
    fn default() -> (r: Descriptor)
        ensures
            r.uuid == 0,
            r.service_uuid == 0,
            r.characteristic_uuid == 0,
            r.properties@ == default_properties(),
            r.permissions@ == default_permissions(),
            r.value is None,
    {
        let r = Descriptor {
            uuid: 0,
            service_uuid: 0,
            characteristic_uuid: 0,
            properties: vec![
                CharacteristicProperty::Read,
                CharacteristicProperty::Write,
                CharacteristicProperty::Notify,
            ],
            permissions: vec![AttributePermission::Readable, AttributePermission::Writeable],
            value: None,
        };
        assert(r.properties@ =~= default_properties());
        assert(r.permissions@ =~= default_permissions());
        r
    }
}

impl Default for Characteristic {
    /// A readable, writeable and notifying characteristic with the nil UUID, no
    /// cached value and no descriptors.
    fn default() -> (r: Characteristic)
        ensures
            r.uuid == 0,
            r.service_uuid == 0,
            r.properties@ == default_properties(),
            r.permissions@ == default_permissions(),
            r.value is None,
            r.descriptors@.len() == 0,
    {
        let r = Characteristic {
            uuid: 0,
            service_uuid: 0,
            properties: vec![
                CharacteristicProperty::Read,
                CharacteristicProperty::Write,
                CharacteristicProperty::Notify,
            ],
            permissions: vec![AttributePermission::Readable, AttributePermission::Writeable],
            value: None,
            descriptors: Vec::new(),
        };
        assert(r.properties@ =~= default_properties());
        assert(r.permissions@ =~= default_permissions());
        r
    }
}

} // verus!
