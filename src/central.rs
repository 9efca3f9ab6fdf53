use vstd::prelude::*;
use crate::error::Error;

verus! {

/// The state of the local Bluetooth adapter.
#[derive(Clone, Copy, Debug, PartialEq, Eq, Structural)]
pub enum CentralState {
    Unknown,
    Resetting,
    Unsupported,
    Unauthorized,
    PoweredOff,
    PoweredOn,
}

/// The adapter state that a raw native state code stands for; codes outside
/// the known range read as `Unknown`.
pub open spec fn state_of_code(code: i64) -> CentralState {
    if code == 1 {
        CentralState::Resetting
    } else if code == 2 {
        CentralState::Unsupported
    } else if code == 3 {
        CentralState::Unauthorized
    } else if code == 4 {
        CentralState::PoweredOff
    } else if code == 5 {
        CentralState::PoweredOn
    } else {
        CentralState::Unknown
    }
}

/// Reads a raw native adapter state code.
pub fn convert_state(code: i64) -> (r: CentralState)
    ensures
        r == state_of_code(code),
{
    match code {
        1 => CentralState::Resetting,
        2 => CentralState::Unsupported,
        3 => CentralState::Unauthorized,
        4 => CentralState::PoweredOff,
        5 => CentralState::PoweredOn,
        _ => CentralState::Unknown,
    }
}

/// The handle of a remote device, backed by its 128-bit identifier.
#[derive(Clone, Copy, Debug, PartialEq, Eq, Hash, PartialOrd, Ord, Structural)]
pub struct PeripheralId(pub u128);

/// Which services a scan looks for; an empty list scans for everything.
#[derive(Clone, Debug, PartialEq, Eq)]
pub struct ScanFilter {
    pub services: Vec<u128>,
}

impl Default for ScanFilter {
    fn default() -> (r: Self)
        ensures
            r.services@.len() == 0,
    {
        ScanFilter { services: Vec::new() }
    }
}

/// A public notification of the central role.
#[derive(Debug, Clone, PartialEq, Eq)]
pub enum CentralEvent {
    DeviceDiscovered { id: PeripheralId, name: Option<String>, rssi: i16 },
    DeviceUpdated { id: PeripheralId, name: Option<String>, rssi: i16 },
    DeviceConnected { id: PeripheralId },
    DeviceDisconnected { id: PeripheralId },
    DeviceConnectionFailed { id: PeripheralId, error: Option<String> },
    ManufacturerDataAdvertisement { id: PeripheralId, manufacturer_id: u16, data: Vec<u8>, rssi: i16 },
    ServiceDataAdvertisement { id: PeripheralId, service_data: Vec<(u128, Vec<u8>)>, rssi: i16 },
    ServicesAdvertisement { id: PeripheralId, services: Vec<u128>, rssi: i16 },
    StateUpdate { state: CentralState },
}

/// The manufacturer-specific block of an advertisement: a little-endian
/// company identifier in the first two bytes, then the payload.
pub open spec fn manufacturer_id_of(bytes: Seq<u8>) -> u16 {
    (bytes[0] as int + 256 * bytes[1] as int) as u16
}

/// Splits a manufacturer-specific advertisement block into its company
/// identifier and payload; `None` where it is shorter than two bytes.
pub fn split_manufacturer_data(bytes: &Vec<u8>) -> (r: Option<(u16, Vec<u8>)>)
    ensures
        r is None <==> bytes@.len() < 2,
        r matches Some((id, data)) ==> id == manufacturer_id_of(bytes@) && data@ == bytes@.subrange(
            2,
            bytes@.len() as int,
        ),
{
    if bytes.len() < 2 {
        return None;
    }
    let id: u16 = bytes[0] as u16 + 256 * (bytes[1] as u16);
    let mut data: Vec<u8> = Vec::new();
    let mut i: usize = 2;
    while i < bytes.len()
        invariant
            2 <= i <= bytes@.len(),
            data@ == bytes@.subrange(2, i as int),
        decreases bytes@.len() - i,
    {
        data.push(bytes[i]);
        i = i + 1;
        assert(data@ =~= bytes@.subrange(2, i as int));
    }
    Some((id, data))
}

/// A caller's command to the central role.
#[derive(Debug, Clone, PartialEq, Eq)]
pub enum CentralCommand {
    GetAdapterState,
    StartScanning { filter: ScanFilter },
    StopScanning,
}

/// The answer to a central command.
#[derive(Clone, Copy, Debug, PartialEq, Eq, Structural)]
pub enum CentralReply {
    State(CentralState),
    /// Whether scanning was started.
    Started(bool),
    Done,
}

/// A request to the native stack on behalf of the central role; the stack
/// itself filters by service.
#[derive(Debug, Clone, PartialEq, Eq)]
pub enum CentralRequest {
    Scan { services: Vec<u128> },
    StopScan,
}

/// An adapter-level callback of the native stack.
#[derive(Debug, Clone, PartialEq, Eq)]
pub enum CentralNativeEvent {
    StateChanged { code: i64 },
    Discovered {
        id: u128,
        name: Option<String>,
        rssi: i16,
        manufacturer_data: Option<Vec<u8>>,
        service_data: Option<Vec<(u128, Vec<u8>)>>,
        services: Option<Vec<u128>>,
    },
    Connected { id: u128 },
    Disconnected { id: u128 },
    ConnectionFailed { id: u128, error: Option<String> },
}

pub struct CentralModel {
    pub state: CentralState,
    pub scanning: bool,
    /// The devices reported so far, each once, in the order first seen.
    pub known: Seq<u128>,
}

/// The scan state and known devices of the central role.
pub struct Central {
    state: CentralState,
    scanning: bool,
    known: Vec<u128>,
}

impl View for Central {
    type V = CentralModel;

    closed spec fn view(&self) -> CentralModel {
        CentralModel { state: self.state, scanning: self.scanning, known: self.known@ }
    }
}

/// Whether a manufacturer block yields an event.
pub open spec fn manufacturer_count(md: Option<Vec<u8>>) -> int {
    match md {
        Some(b) => if b@.len() >= 2 { 1 } else { 0 },
        None => 0,
    }
}

pub open spec fn present<T>(o: Option<T>) -> int {
    if o is Some { 1 } else { 0 }
}

/// `e` announces the manufacturer block `b` of device `id`.
pub open spec fn is_manufacturer_event(e: CentralEvent, id: u128, b: Seq<u8>, rssi: i16) -> bool {
    match e {
        CentralEvent::ManufacturerDataAdvertisement { id: i, manufacturer_id, data, rssi: r } => i == PeripheralId(id)
            && manufacturer_id == manufacturer_id_of(b) && data@ == b.subrange(2, b.len() as int) && r == rssi,
        _ => false,
    }
}

/// The public events for one discovery callback: the device first, then its
/// manufacturer block, service data and service list, each where present.
pub open spec fn discovery_events(
    known: Seq<u128>,
    id: u128,
    name: Option<String>,
    rssi: i16,
    md: Option<Vec<u8>>,
    sd: Option<Vec<(u128, Vec<u8>)>>,
    services: Option<Vec<u128>>,
    events: Seq<CentralEvent>,
) -> bool {
    let m = manufacturer_count(md);
    let s = present(sd);
    let v = present(services);
    &&& events.len() == 1 + m + s + v
    &&& events[0] == if known.contains(id) {
        CentralEvent::DeviceUpdated { id: PeripheralId(id), name, rssi }
    } else {
        CentralEvent::DeviceDiscovered { id: PeripheralId(id), name, rssi }
    }
    &&& m == 1 ==> is_manufacturer_event(events[1], id, md.unwrap()@, rssi)
    &&& s == 1 ==> events[1 + m] == CentralEvent::ServiceDataAdvertisement {
        id: PeripheralId(id),
        service_data: sd.unwrap(),
        rssi,
    }
    &&& v == 1 ==> events[1 + m + s] == CentralEvent::ServicesAdvertisement {
        id: PeripheralId(id),
        services: services.unwrap(),
        rssi,
    }
}

impl Central {
    /// No device is known twice.
    pub closed spec fn wf(&self) -> bool {
        self.known@.no_duplicates()
    }

    pub fn new() -> (r: Self)
        ensures
            r.wf(),
            r@.state == CentralState::Unknown,
            !r@.scanning,
            r@.known.len() == 0,
    {
        Central { state: CentralState::Unknown, scanning: false, known: Vec::new() }
    }

    pub fn adapter_state(&self) -> (r: CentralState)
        ensures
            r == self@.state,
    {
        self.state
    }

    pub fn is_scanning(&self) -> (r: bool)
        ensures
            r == self@.scanning,
    {
        self.scanning
    }

    fn is_known(&self, id: u128) -> (r: bool)
        ensures
            r == self@.known.contains(id),
    {
        let mut i: usize = 0;
        while i < self.known.len()
            invariant
                i <= self.known@.len(),
                forall|j: int| 0 <= j < i ==> self.known@[j] != id,
            decreases self.known@.len() - i,
        {
            if self.known[i] == id {
                assert(self.known@[i as int] == id);
                return true;
            }
            i = i + 1;
        }
        false
    }

    /// The devices reported so far.
    pub fn peripherals(&self) -> (r: Vec<PeripheralId>)
        ensures
            r@ == self@.known.map_values(|u: u128| PeripheralId(u)),
    {
        let mut r: Vec<PeripheralId> = Vec::new();
        let mut i: usize = 0;
        while i < self.known.len()
            invariant
                i <= self.known@.len(),
                r@ == self@.known.subrange(0, i as int).map_values(|u: u128| PeripheralId(u)),
            decreases self.known@.len() - i,
        {
            r.push(PeripheralId(self.known[i]));
            i = i + 1;
            assert(r@ =~= self@.known.subrange(0, i as int).map_values(|u: u128| PeripheralId(u)));
        }
        assert(self@.known.subrange(0, i as int) =~= self@.known);
        r
    }

    /// The handle of a reported device; `NotFound` for any other.
    pub fn peripheral(&self, address: &PeripheralId) -> (r: Result<PeripheralId, Error>)
        ensures
            self@.known.contains(address.0) ==> r == Ok::<PeripheralId, Error>(*address),
            !self@.known.contains(address.0) ==> r == Err::<PeripheralId, Error>(Error::NotFound),
    {
        if self.is_known(address.0) {
            Ok(*address)
        } else {
            Err(Error::NotFound)
        }
    }

    /// Serves one caller command. Scanning starts only on a powered-on adapter.
    pub fn handle_command(&mut self, command: CentralCommand) -> (r: (CentralReply, Option<CentralRequest>))
        requires
            old(self).wf(),
        ensures
            final(self).wf(),
            final(self)@.state == old(self)@.state,
            final(self)@.known == old(self)@.known,
            match command {
                CentralCommand::GetAdapterState => final(self)@ == old(self)@ && r == (
                    CentralReply::State(old(self)@.state),
                    None::<CentralRequest>,
                ),
                CentralCommand::StartScanning { filter } => if old(self)@.state == CentralState::PoweredOn {
                    final(self)@.scanning && r == (
                        CentralReply::Started(true),
                        Some(CentralRequest::Scan { services: filter.services }),
                    )
                } else {
                    final(self)@ == old(self)@ && r == (CentralReply::Started(false), None::<CentralRequest>)
                },
                CentralCommand::StopScanning => !final(self)@.scanning && r == (
                    CentralReply::Done,
                    if old(self)@.scanning {
                        Some(CentralRequest::StopScan)
                    } else {
                        None
                    },
                ),
            },
    {
        match command {
            CentralCommand::GetAdapterState => (CentralReply::State(self.state), None),
            CentralCommand::StartScanning { filter } => {
                if self.state == CentralState::PoweredOn {
                    self.scanning = true;
                    (CentralReply::Started(true), Some(CentralRequest::Scan { services: filter.services }))
                } else {
                    (CentralReply::Started(false), None)
                }
            },
            CentralCommand::StopScanning => {
                let was = self.scanning;
                self.scanning = false;
                (CentralReply::Done, if was { Some(CentralRequest::StopScan) } else { None })
            },
        }
    }

    /// Translates one adapter callback into public events. A device is
    /// `DeviceDiscovered` the first time and `DeviceUpdated` after that; a
    /// scan ends when the adapter leaves the powered-on state.
    pub fn handle_event(&mut self, event: CentralNativeEvent) -> (r: Vec<CentralEvent>)
        requires
            old(self).wf(),
        ensures
            final(self).wf(),
            match event {
                CentralNativeEvent::StateChanged { code } => final(self)@ == CentralModel {
                    state: state_of_code(code),
                    scanning: old(self)@.scanning && state_of_code(code) == CentralState::PoweredOn,
                    known: old(self)@.known,
                } && r@ == seq![CentralEvent::StateUpdate { state: state_of_code(code) }],
                CentralNativeEvent::Discovered { id, name, rssi, manufacturer_data, service_data, services } => {
                    &&& final(self)@.state == old(self)@.state
                    &&& final(self)@.scanning == old(self)@.scanning
                    &&& final(self)@.known == if old(self)@.known.contains(id) {
                        old(self)@.known
                    } else {
                        old(self)@.known.push(id)
                    }
                    &&& discovery_events(
                        old(self)@.known,
                        id,
                        name,
                        rssi,
                        manufacturer_data,
                        service_data,
                        services,
                        r@,
                    )
                },
                CentralNativeEvent::Connected { id } => final(self)@ == old(self)@ && r@ == seq![
                    CentralEvent::DeviceConnected { id: PeripheralId(id) },
                ],
                CentralNativeEvent::Disconnected { id } => final(self)@ == old(self)@ && r@ == seq![
                    CentralEvent::DeviceDisconnected { id: PeripheralId(id) },
                ],
                CentralNativeEvent::ConnectionFailed { id, error } => final(self)@ == old(self)@ && r@ == seq![
                    CentralEvent::DeviceConnectionFailed { id: PeripheralId(id), error },
                ],
            },
    {
        let mut r: Vec<CentralEvent> = Vec::new();
        match event {
            CentralNativeEvent::StateChanged { code } => {
                let state = convert_state(code);
                self.state = state;
                self.scanning = self.scanning && state == CentralState::PoweredOn;
                r.push(CentralEvent::StateUpdate { state });
            },
            CentralNativeEvent::Discovered { id, name, rssi, manufacturer_data, service_data, services } => {
                let ghost md = manufacturer_data;
                let ghost sd = service_data;
                let ghost sv = services;
                if self.is_known(id) {
                    r.push(CentralEvent::DeviceUpdated { id: PeripheralId(id), name, rssi });
                } else {
                    self.known.push(id);
                    r.push(CentralEvent::DeviceDiscovered { id: PeripheralId(id), name, rssi });
                }
                match manufacturer_data {
                    Some(bytes) => match split_manufacturer_data(&bytes) {
                        Some((manufacturer_id, data)) => {
                            r.push(CentralEvent::ManufacturerDataAdvertisement {
                                id: PeripheralId(id),
                                manufacturer_id,
                                data,
                                rssi,
                            });
                        },
                        None => {},
                    },
                    None => {},
                }
                let ghost m = r@.len();
                match service_data {
                    Some(service_data) => {
                        r.push(CentralEvent::ServiceDataAdvertisement { id: PeripheralId(id), service_data, rssi });
                    },
                    None => {},
                }
                let ghost s = r@.len();
                match services {
                    Some(services) => {
                        r.push(CentralEvent::ServicesAdvertisement { id: PeripheralId(id), services, rssi });
                    },
                    None => {},
                }
                assert(m == 1 + manufacturer_count(md));
                assert(s == m + present(sd));
            },
            CentralNativeEvent::Connected { id } => {
                r.push(CentralEvent::DeviceConnected { id: PeripheralId(id) });
            },
            CentralNativeEvent::Disconnected { id } => {
                r.push(CentralEvent::DeviceDisconnected { id: PeripheralId(id) });
            },
            CentralNativeEvent::ConnectionFailed { id, error } => {
                r.push(CentralEvent::DeviceConnectionFailed { id: PeripheralId(id), error });
            },
        }
        r
    }
}

} // verus!
