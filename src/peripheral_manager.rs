use vstd::prelude::*;
use crate::error::Error;
use crate::gatt::Service;
use crate::registry::{service_key, AdvertisementResolver, OperationKey, Registration, ServiceResolver};

verus! {

/// How long the peripheral role waits for the native stack to confirm that
/// advertising started or that a service was added.
pub const CONFIRMATION_TIMEOUT_SECS: u64 = 5;

/// Whether the app may use Bluetooth, given the platform's authorization
/// code: not determined 0, restricted 1, denied 2, allowed 3. Only a
/// restricted or denied app is refused.
pub fn is_authorized(authorization: i64) -> (r: bool)
    ensures
        r == (authorization != 1 && authorization != 2),
{
    authorization != 1 && authorization != 2
}

/// The result code with which the peripheral role answers a remote read or write.
#[derive(Clone, Copy, Debug, PartialEq, Eq, Structural)]
pub enum RequestResponse {
    Success,
    InvalidHandle,
    RequestNotSupported,
    InvalidOffset,
    UnlikelyError,
}

/// The ATT error code of each result: success 0x00, invalid handle 0x01,
/// request not supported 0x06, invalid offset 0x07, unlikely error 0x0E.
pub open spec fn att_code_of(r: RequestResponse) -> u8 {
    match r {
        RequestResponse::Success => 0,
        RequestResponse::InvalidHandle => 1,
        RequestResponse::RequestNotSupported => 6,
        RequestResponse::InvalidOffset => 7,
        RequestResponse::UnlikelyError => 14,
    }
}

impl RequestResponse {
    /// The ATT error code that carries this result to the remote.
    pub fn att_code(&self) -> (r: u8)
        ensures
            r == att_code_of(*self),
    {
        match self {
            RequestResponse::Success => 0,
            RequestResponse::InvalidHandle => 1,
            RequestResponse::RequestNotSupported => 6,
            RequestResponse::InvalidOffset => 7,
            RequestResponse::UnlikelyError => 14,
        }
    }
}

/// A caller's answer to a remote read.
#[derive(Debug)]
pub struct ReadRequestResponse {
    pub value: Vec<u8>,
    pub response: RequestResponse,
}

/// A caller's answer to a remote write.
#[derive(Debug)]
pub struct WriteRequestResponse {
    pub response: RequestResponse,
}

/// The ATT reply to a remote read: the result code, and the value to hand
/// back where the caller answered.
#[derive(Debug, Clone, PartialEq, Eq)]
pub struct AttReply {
    pub code: u8,
    pub value: Option<Vec<u8>>,
}

/// Who asked, and for which attribute.
#[derive(Clone, Debug, PartialEq, Eq)]
pub struct PeripheralRequest {
    pub client: String,
    pub service: u128,
    pub characteristic: u128,
}

/// A public notification of the peripheral role; `R` and `W` are the
/// single-use responders through which a caller answers a remote read or write.
#[derive(Debug)]
pub enum PeripheralEvent<R, W> {
    StateUpdate { is_powered: bool },
    CharacteristicSubscriptionUpdate { request: PeripheralRequest, subscribed: bool },
    ReadRequest { request: PeripheralRequest, offset: u64, responder: R },
    WriteRequest { request: PeripheralRequest, value: Vec<u8>, offset: u64, responder: W },
}

/// The one ATT reply owed for a remote read; `None` means that the caller
/// dropped its responder without answering, which is answered with
/// "invalid handle".
pub fn read_reply(answer: Option<ReadRequestResponse>) -> (r: AttReply)
    ensures
        match answer {
            Some(a) => r.code == att_code_of(a.response) && r.value == Some(a.value),
            None => r.code == att_code_of(RequestResponse::InvalidHandle) && r.value is None,
        },
{
    match answer {
        Some(a) => AttReply { code: a.response.att_code(), value: Some(a.value) },
        None => AttReply { code: RequestResponse::InvalidHandle.att_code(), value: None },
    }
}

/// The one ATT result code owed for a remote write; `None` means that the
/// caller dropped its responder without answering, which is answered with
/// "invalid handle".
pub fn write_reply(answer: Option<WriteRequestResponse>) -> (r: u8)
    ensures
        match answer {
            Some(a) => r == att_code_of(a.response),
            None => r == att_code_of(RequestResponse::InvalidHandle),
        },
{
    match answer {
        Some(a) => a.response.att_code(),
        None => RequestResponse::InvalidHandle.att_code(),
    }
}

/// How a bounded wait for a native confirmation ended.
#[derive(Debug, Clone, PartialEq, Eq)]
pub enum WaitOutcome {
    /// The confirmation arrived, with the native error if there was one.
    Completed(Option<String>),
    /// The waiting channel was closed before any confirmation.
    ChannelClosed,
    /// The deadline passed first.
    TimedOut,
}

pub open spec fn wait_result(outcome: WaitOutcome) -> Result<(), Error> {
    match outcome {
        WaitOutcome::Completed(None) => Ok(()),
        WaitOutcome::Completed(Some(e)) => Err(Error::Native(e)),
        WaitOutcome::ChannelClosed => Err(Error::ChannelClosed),
        WaitOutcome::TimedOut => Err(Error::Timeout),
    }
}

/// A callback of the native peripheral-role stack, other than a remote read or write.
#[derive(Debug, Clone)]
pub enum PeripheralManagerDelegateEvent {
    StateUpdated { powered: bool },
    AdvertisingStarted { error: Option<String> },
    ServiceAdded { service: u128, error: Option<String> },
    SubscriptionChanged { request: PeripheralRequest, subscribed: bool },
}

/// What a delegate callback calls for: a waiting caller to wake with the
/// native error, if any, or a public event to publish.
#[derive(Debug)]
pub enum DelegateAction<V, R, W> {
    Wake(V, Option<String>),
    Publish(PeripheralEvent<R, W>),
    Nothing,
}

pub struct DelegateModel<V> {
    pub advertising: Option<V>,
    pub services: Map<OperationKey, V>,
}

/// The pending confirmations of the peripheral role: at most one start of
/// advertising, and at most one addition per service.
pub struct PeripheralManagerDelegate<V> {
    services_resolver: ServiceResolver<V>,
    advertisement_resolver: AdvertisementResolver<V>,
}

impl<V> View for PeripheralManagerDelegate<V> {
    type V = DelegateModel<V>;

    closed spec fn view(&self) -> DelegateModel<V> {
        DelegateModel { advertising: self.advertisement_resolver@, services: self.services_resolver@ }
    }
}

impl<V> PeripheralManagerDelegate<V> {
    pub closed spec fn wf(&self) -> bool {
        self.services_resolver.wf()
    }

    pub fn new() -> (r: Self)
        ensures
            r.wf(),
            r@.advertising is None,
            r@.services == Map::<OperationKey, V>::empty(),
    {
        PeripheralManagerDelegate {
            services_resolver: ServiceResolver::new(),
            advertisement_resolver: AdvertisementResolver::new(),
        }
    }

    /// Whether a start of advertising awaits its confirmation.
    pub fn is_waiting_for_advertisement_result(&self) -> (r: bool)
        ensures
            r == self@.advertising is Some,
    {
        self.advertisement_resolver.is_waiting()
    }

    /// Whether the addition of `service` awaits its confirmation.
    pub fn is_waiting_for_service_result(&self, service: u128) -> (r: bool)
        requires
            self.wf(),
        ensures
            r == self@.services.contains_key(service_key(service)),
    {
        self.services_resolver.is_waiting_for(service)
    }

    /// Starts waiting for the advertising confirmation, unless a wait is already
    /// outstanding: `sender` then comes back.
    pub fn begin_advertisement(&mut self, sender: V) -> (r: Registration<V>)
        requires
            old(self).wf(),
        ensures
            final(self).wf(),
            final(self)@.services == old(self)@.services,
            old(self)@.advertising is Some ==> final(self)@ == old(self)@ && r == Registration::AlreadyInProgress(
                sender,
            ),
            old(self)@.advertising is None ==> final(self)@.advertising == Some(sender) && r is Registered,
    {
        self.advertisement_resolver.register(sender)
    }

    /// Ends the wait for the advertising confirmation: the slot is freed
    /// whatever happened, and the outcome becomes the caller's result.
    pub fn end_advertisement_wait(&mut self, outcome: WaitOutcome) -> (r: Result<(), Error>)
        requires
            old(self).wf(),
        ensures
            final(self).wf(),
            final(self)@.services == old(self)@.services,
            final(self)@.advertising is None,
            r == wait_result(outcome),
    {
        self.advertisement_resolver.cancel();
        self.resolve_event(outcome)
    }

    /// Starts waiting for the confirmation that `service` was added, unless such
    /// a wait is already outstanding: `sender` then comes back.
    pub fn begin_service(&mut self, service: u128, sender: V) -> (r: Registration<V>)
        requires
            old(self).wf(),
        ensures
            final(self).wf(),
            final(self)@.advertising == old(self)@.advertising,
            old(self)@.services.contains_key(service_key(service)) ==> final(self)@ == old(self)@
                && r == Registration::AlreadyInProgress(sender),
            !old(self)@.services.contains_key(service_key(service)) ==> final(self)@.services == old(
                self,
            )@.services.insert(service_key(service), sender) && r is Registered,
    {
        self.services_resolver.register(service, sender)
    }

    /// Ends the wait for `service`: its slot is freed whatever happened, and the
    /// outcome becomes the caller's result.
    pub fn end_service_wait(&mut self, service: u128, outcome: WaitOutcome) -> (r: Result<(), Error>)
        requires
            old(self).wf(),
        ensures
            final(self).wf(),
            final(self)@.advertising == old(self)@.advertising,
            final(self)@.services == old(self)@.services.remove(service_key(service)),
            r == wait_result(outcome),
    {
        self.services_resolver.cancel(service);
        self.resolve_event(outcome)
    }

    /// The caller's result for a wait that ended with `event`.
    pub fn resolve_event(&self, event: WaitOutcome) -> (r: Result<(), Error>)
        ensures
            r == wait_result(event),
    {
        match event {
            WaitOutcome::Completed(None) => Ok(()),
            WaitOutcome::Completed(Some(e)) => Err(Error::Native(e)),
            WaitOutcome::ChannelClosed => Err(Error::ChannelClosed),
            WaitOutcome::TimedOut => Err(Error::Timeout),
        }
    }

    /// Applies one delegate callback. A confirmation wakes the caller waiting
    /// for it, if any, and frees its slot; a late one finds nothing and is
    /// dropped.
    pub fn handle_event<R, W>(&mut self, event: PeripheralManagerDelegateEvent) -> (r: DelegateAction<V, R, W>)
        requires
            old(self).wf(),
        ensures
            final(self).wf(),
            match event {
                PeripheralManagerDelegateEvent::StateUpdated { powered } => final(self)@ == old(self)@ && r
                    == DelegateAction::<V, R, W>::Publish(PeripheralEvent::StateUpdate { is_powered: powered }),
                PeripheralManagerDelegateEvent::AdvertisingStarted { error } => {
                    &&& final(self)@.advertising is None
                    &&& final(self)@.services == old(self)@.services
                    &&& r == match old(self)@.advertising {
                        Some(v) => DelegateAction::<V, R, W>::Wake(v, error),
                        None => DelegateAction::<V, R, W>::Nothing,
                    }
                },
                PeripheralManagerDelegateEvent::ServiceAdded { service, error } => {
                    &&& final(self)@.advertising == old(self)@.advertising
                    &&& final(self)@.services == old(self)@.services.remove(service_key(service))
                    &&& r == if old(self)@.services.contains_key(service_key(service)) {
                        DelegateAction::<V, R, W>::Wake(old(self)@.services[service_key(service)], error)
                    } else {
                        DelegateAction::<V, R, W>::Nothing
                    }
                },
                PeripheralManagerDelegateEvent::SubscriptionChanged { request, subscribed } => final(self)@ == old(
                    self,
                )@ && r == DelegateAction::<V, R, W>::Publish(
                    PeripheralEvent::CharacteristicSubscriptionUpdate { request, subscribed },
                ),
            },
    {
        match event {
            PeripheralManagerDelegateEvent::StateUpdated { powered } => DelegateAction::Publish(
                PeripheralEvent::StateUpdate { is_powered: powered },
            ),
            PeripheralManagerDelegateEvent::AdvertisingStarted { error } => match self.advertisement_resolver.take() {
                Some(v) => DelegateAction::Wake(v, error),
                None => DelegateAction::Nothing,
            },
            PeripheralManagerDelegateEvent::ServiceAdded { service, error } => match self.services_resolver.take(
                service,
            ) {
                Some(v) => DelegateAction::Wake(v, error),
                None => DelegateAction::Nothing,
            },
            PeripheralManagerDelegateEvent::SubscriptionChanged { request, subscribed } => DelegateAction::Publish(
                PeripheralEvent::CharacteristicSubscriptionUpdate { request, subscribed },
            ),
        }
    }
}

/// A request to the native stack on behalf of the peripheral role.
#[derive(Debug, Clone, PartialEq, Eq)]
pub enum ManagerRequest {
    StartAdvertising { name: String, uuids: Vec<u128> },
    AddService { service: Service },
    UpdateValue { characteristic: u128, value: Vec<u8> },
}

pub struct ManagerModel<V> {
    pub delegate: DelegateModel<V>,
    /// The characteristics of the services added so far.
    pub published: Seq<u128>,
}

/// The decisions of the peripheral role: which commands may go to the native
/// stack, and which characteristics it serves.
pub struct PeripheralManager<V> {
    delegate: PeripheralManagerDelegate<V>,
    published: Vec<u128>,
}

impl<V> View for PeripheralManager<V> {
    type V = ManagerModel<V>;

    closed spec fn view(&self) -> ManagerModel<V> {
        ManagerModel { delegate: self.delegate@, published: self.published@ }
    }
}

impl<V> PeripheralManager<V> {
    pub closed spec fn wf(&self) -> bool {
        self.delegate.wf()
    }

    pub fn new() -> (r: Self)
        ensures
            r.wf(),
            r@.delegate.advertising is None,
            r@.delegate.services == Map::<OperationKey, V>::empty(),
            r@.published.len() == 0,
    {
        PeripheralManager { delegate: PeripheralManagerDelegate::new(), published: Vec::new() }
    }

    pub fn delegate(&self) -> (r: &PeripheralManagerDelegate<V>)
        ensures
            r@ == self@.delegate,
            self.wf() ==> r.wf(),
    {
        &self.delegate
    }

    /// Asks to start advertising `name` and `uuids` and waits under the
    /// advertising key; while a start is outstanding the command is refused and
    /// `sender` comes back.
    pub fn start_advertising(&mut self, name: String, uuids: Vec<u128>, sender: V) -> (r: Result<ManagerRequest, V>)
        requires
            old(self).wf(),
        ensures
            final(self).wf(),
            final(self)@.published == old(self)@.published,
            final(self)@.delegate.services == old(self)@.delegate.services,
            old(self)@.delegate.advertising is Some ==> final(self)@ == old(self)@ && r == Err::<ManagerRequest, V>(sender),
            old(self)@.delegate.advertising is None ==> final(self)@.delegate.advertising == Some(sender) && r == Ok::<
                ManagerRequest,
                V,
            >(ManagerRequest::StartAdvertising { name, uuids }),
    {
        match self.delegate.begin_advertisement(sender) {
            Registration::Registered => Ok(ManagerRequest::StartAdvertising { name, uuids }),
            Registration::AlreadyInProgress(sender) => Err(sender),
        }
    }

    /// The advertising wait ended with `outcome`.
    pub fn finish_advertising(&mut self, outcome: WaitOutcome) -> (r: Result<(), Error>)
        requires
            old(self).wf(),
        ensures
            final(self).wf(),
            final(self)@.published == old(self)@.published,
            final(self)@.delegate.services == old(self)@.delegate.services,
            final(self)@.delegate.advertising is None,
            r == wait_result(outcome),
    {
        self.delegate.end_advertisement_wait(outcome)
    }

    /// Asks to add `service` and waits under its UUID; while an addition of the
    /// same service is outstanding the command is refused and `sender` comes back.
    /// Its characteristics become ones that the role serves.
    pub fn add_service(&mut self, service: Service, sender: V) -> (r: Result<ManagerRequest, V>)
        requires
            old(self).wf(),
        ensures
            final(self).wf(),
            final(self)@.delegate.advertising == old(self)@.delegate.advertising,
            old(self)@.delegate.services.contains_key(service_key(service.uuid)) ==> final(self)@ == old(self)@ && r
                == Err::<ManagerRequest, V>(sender),
            !old(self)@.delegate.services.contains_key(service_key(service.uuid)) ==> {
                &&& final(self)@.delegate.services == old(self)@.delegate.services.insert(
                    service_key(service.uuid),
                    sender,
                )
                &&& final(self)@.published == old(self)@.published + service.characteristics@.map_values(
                    |c: crate::gatt::Characteristic| c.uuid,
                )
                &&& r == Ok::<ManagerRequest, V>(ManagerRequest::AddService { service })
            },
    {
        match self.delegate.begin_service(service.uuid, sender) {
            Registration::AlreadyInProgress(sender) => Err(sender),
            Registration::Registered => {
                let ghost before = self.published@;
                let ghost del = self.delegate@;
                let mut i: usize = 0;
                while i < service.characteristics.len()
                    invariant
                        self.wf(),
                        self.delegate@ == del,
                        i <= service.characteristics@.len(),
                        self.published@ == before + service.characteristics@.subrange(0, i as int).map_values(
                            |c: crate::gatt::Characteristic| c.uuid,
                        ),
                    decreases service.characteristics@.len() - i,
                {
                    self.published.push(service.characteristics[i].uuid);
                    i = i + 1;
                    assert(self.published@ =~= before + service.characteristics@.subrange(0, i as int).map_values(
                        |c: crate::gatt::Characteristic| c.uuid,
                    ));
                }
                assert(service.characteristics@.subrange(0, i as int) =~= service.characteristics@);
                Ok(ManagerRequest::AddService { service })
            },
        }
    }

    /// The wait for adding `service` ended with `outcome`.
    pub fn finish_service(&mut self, service: u128, outcome: WaitOutcome) -> (r: Result<(), Error>)
        requires
            old(self).wf(),
        ensures
            final(self).wf(),
            final(self)@.published == old(self)@.published,
            final(self)@.delegate.advertising == old(self)@.delegate.advertising,
            final(self)@.delegate.services == old(self)@.delegate.services.remove(service_key(service)),
            r == wait_result(outcome),
    {
        self.delegate.end_service_wait(service, outcome)
    }

    /// Pushes a new value of a served characteristic to its subscribers;
    /// `NotFound` for a characteristic that no added service holds.
    pub fn update_characteristic(&self, characteristic: u128, value: Vec<u8>) -> (r: Result<ManagerRequest, Error>)
        ensures
            self@.published.contains(characteristic) ==> r == Ok::<ManagerRequest, Error>(
                ManagerRequest::UpdateValue { characteristic, value },
            ),
            !self@.published.contains(characteristic) ==> r == Err::<ManagerRequest, Error>(Error::NotFound),
    {
        let mut i: usize = 0;
        while i < self.published.len()
            invariant
                i <= self.published@.len(),
                forall|j: int| 0 <= j < i ==> self.published@[j] != characteristic,
            decreases self.published@.len() - i,
        {
            if self.published[i] == characteristic {
                assert(self.published@[i as int] == characteristic);
                return Ok(ManagerRequest::UpdateValue { characteristic, value });
            }
            i = i + 1;
        }
        Err(Error::NotFound)
    }

    /// Applies one delegate callback; see `PeripheralManagerDelegate::handle_event`.
    pub fn handle_event<R, W>(&mut self, event: PeripheralManagerDelegateEvent) -> (r: DelegateAction<V, R, W>)
        requires
            old(self).wf(),
        ensures
            final(self).wf(),
            final(self)@.published == old(self)@.published,
            match event {
                PeripheralManagerDelegateEvent::StateUpdated { powered } => final(self)@ == old(self)@ && r
                    == DelegateAction::<V, R, W>::Publish(PeripheralEvent::StateUpdate { is_powered: powered }),
                PeripheralManagerDelegateEvent::AdvertisingStarted { error } => {
                    &&& final(self)@.delegate.advertising is None
                    &&& final(self)@.delegate.services == old(self)@.delegate.services
                    &&& r == match old(self)@.delegate.advertising {
                        Some(v) => DelegateAction::<V, R, W>::Wake(v, error),
                        None => DelegateAction::<V, R, W>::Nothing,
                    }
                },
                PeripheralManagerDelegateEvent::ServiceAdded { service, error } => {
                    &&& final(self)@.delegate.advertising == old(self)@.delegate.advertising
                    &&& final(self)@.delegate.services == old(self)@.delegate.services.remove(service_key(service))
                    &&& r == if old(self)@.delegate.services.contains_key(service_key(service)) {
                        DelegateAction::<V, R, W>::Wake(old(self)@.delegate.services[service_key(service)], error)
                    } else {
                        DelegateAction::<V, R, W>::Nothing
                    }
                },
                PeripheralManagerDelegateEvent::SubscriptionChanged { request, subscribed } => final(self)@ == old(
                    self,
                )@ && r == DelegateAction::<V, R, W>::Publish(
                    PeripheralEvent::CharacteristicSubscriptionUpdate { request, subscribed },
                ),
            },
    {
        self.delegate.handle_event(event)
    }
}

} // verus!
