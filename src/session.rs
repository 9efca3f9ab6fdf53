use vstd::prelude::*;
use crate::discovery::{
    ServiceEntry, fresh_characteristics, has_service,
    after_characteristics, after_descriptors, after_services, empty_cache, fully_discovered,
    has_characteristic, has_descriptor, tree_of, CacheModel, DiscoveryCache,
};
use crate::error::Error;
use crate::gatt::{CharacteristicModel, Characteristic, CharacteristicWriteType, Descriptor, Service};
use crate::registry::{OperationKey, PendingRegistry, Registration};

verus! {

/// A caller's command to the session of one remote peripheral.
#[derive(Debug, Clone, PartialEq, Eq)]
pub enum SessionCommand {
    Connect,
    Disconnect,
    IsConnected,
    ReadCharacteristic { service: u128, characteristic: u128 },
    WriteCharacteristic {
        service: u128,
        characteristic: u128,
        data: Vec<u8>,
        write_type: CharacteristicWriteType,
    },
    Subscribe { service: u128, characteristic: u128 },
    Unsubscribe { service: u128, characteristic: u128 },
    ReadDescriptor { service: u128, characteristic: u128, descriptor: u128 },
    WriteDescriptor { service: u128, characteristic: u128, descriptor: u128, data: Vec<u8> },
}

/// A fire-and-forget request to the native Bluetooth stack.
#[derive(Debug, Clone, PartialEq, Eq)]
pub enum NativeRequest {
    Connect,
    CancelConnection,
    DiscoverServices,
    /// Discover the characteristics and the included services of one service.
    DiscoverCharacteristics { service: u128 },
    DiscoverDescriptors { service: u128, characteristic: u128 },
    ReadValue { service: u128, characteristic: u128 },
    WriteValue {
        service: u128,
        characteristic: u128,
        data: Vec<u8>,
        write_type: CharacteristicWriteType,
    },
    SetNotify { service: u128, characteristic: u128, enabled: bool },
    ReadDescriptor { service: u128, characteristic: u128, descriptor: u128 },
    WriteDescriptor { service: u128, characteristic: u128, descriptor: u128, data: Vec<u8> },
}

/// The answer a waiting caller receives.
#[derive(Debug, Clone, PartialEq, Eq)]
pub enum Reply {
    Done,
    Connected(bool),
    Value(Vec<u8>),
    Services(Vec<Service>),
    Failed(Error),
}

/// A completion or lifecycle callback of the native stack for this peripheral.
#[derive(Debug, Clone, PartialEq, Eq)]
pub enum SessionEvent {
    Connected,
    ConnectionFailed { error: String },
    Disconnected,
    /// The services found on the peripheral, each with the characteristics
    /// already known of it. A service that comes with none is discovered at
    /// once; the characteristics of every service are asked for next.
    ServicesDiscovered { services: Vec<Service>, error: Option<String> },
    CharacteristicsDiscovered {
        service: u128,
        characteristics: Vec<Characteristic>,
        error: Option<String>,
    },
    DescriptorsDiscovered {
        service: u128,
        characteristic: u128,
        descriptors: Vec<Descriptor>,
        error: Option<String>,
    },
    /// A value read or notified: it becomes the cached value of the
    /// characteristic and answers a pending read.
    CharacteristicValue { service: u128, characteristic: u128, value: Vec<u8>, error: Option<String> },
    CharacteristicWritten { service: u128, characteristic: u128, error: Option<String> },
    SubscriptionChanged { service: u128, characteristic: u128, subscribed: bool, error: Option<String> },
    DescriptorValue {
        service: u128,
        characteristic: u128,
        descriptor: u128,
        value: Vec<u8>,
        error: Option<String>,
    },
    DescriptorWritten { service: u128, characteristic: u128, descriptor: u128, error: Option<String> },
}

/// What the event loop must do after a step: send a request to the native
/// stack, or hand a reply to a waiting caller.
#[derive(Debug)]
pub enum SessionAction<V> {
    Send(NativeRequest),
    Resolve(V, Reply),
}

pub struct SessionModel<V> {
    pub id: u128,
    pub connected: bool,
    /// Whether the caller of this connection has been told that it is usable.
    pub ready: bool,
    pub cache: CacheModel,
    pub pending: Map<OperationKey, V>,
}

pub open spec fn connect_key(id: u128) -> OperationKey {
    OperationKey::Connect { peripheral: id }
}

/// The key under which a command waits for its completion (`IsConnected`
/// never waits).
pub open spec fn command_key(id: u128, c: SessionCommand) -> OperationKey {
    match c {
        SessionCommand::Connect => OperationKey::Connect { peripheral: id },
        SessionCommand::Disconnect => OperationKey::Disconnect { peripheral: id },
        SessionCommand::IsConnected => OperationKey::Connect { peripheral: id },
        SessionCommand::ReadCharacteristic { service, characteristic } => OperationKey::ReadCharacteristic {
            peripheral: id,
            service,
            characteristic,
        },
        SessionCommand::WriteCharacteristic { service, characteristic, .. } => OperationKey::WriteCharacteristic {
            peripheral: id,
            service,
            characteristic,
        },
        SessionCommand::Subscribe { service, characteristic } => OperationKey::Subscribe {
            peripheral: id,
            service,
            characteristic,
        },
        SessionCommand::Unsubscribe { service, characteristic } => OperationKey::Unsubscribe {
            peripheral: id,
            service,
            characteristic,
        },
        SessionCommand::ReadDescriptor { service, characteristic, descriptor } => OperationKey::ReadDescriptor {
            peripheral: id,
            service,
            characteristic,
            descriptor,
        },
        SessionCommand::WriteDescriptor { service, characteristic, descriptor, .. } => OperationKey::WriteDescriptor {
            peripheral: id,
            service,
            characteristic,
            descriptor,
        },
    }
}

/// The native request that carries out a GATT command.
pub open spec fn request_of(c: SessionCommand) -> NativeRequest {
    match c {
        SessionCommand::ReadCharacteristic { service, characteristic } => NativeRequest::ReadValue {
            service,
            characteristic,
        },
        SessionCommand::WriteCharacteristic { service, characteristic, data, write_type } => NativeRequest::WriteValue {
            service,
            characteristic,
            data,
            write_type,
        },
        SessionCommand::Subscribe { service, characteristic } => NativeRequest::SetNotify {
            service,
            characteristic,
            enabled: true,
        },
        SessionCommand::Unsubscribe { service, characteristic } => NativeRequest::SetNotify {
            service,
            characteristic,
            enabled: false,
        },
        SessionCommand::ReadDescriptor { service, characteristic, descriptor } => NativeRequest::ReadDescriptor {
            service,
            characteristic,
            descriptor,
        },
        SessionCommand::WriteDescriptor { service, characteristic, descriptor, data } => NativeRequest::WriteDescriptor {
            service,
            characteristic,
            descriptor,
            data,
        },
        SessionCommand::Connect => NativeRequest::Connect,
        _ => NativeRequest::CancelConnection,
    }
}

/// Whether the attribute that a GATT command names is in the cache.
pub open spec fn target_known(m: CacheModel, c: SessionCommand) -> bool {
    match c {
        SessionCommand::ReadCharacteristic { service, characteristic } => has_characteristic(m, service, characteristic),
        SessionCommand::WriteCharacteristic { service, characteristic, .. } => has_characteristic(
            m,
            service,
            characteristic,
        ),
        SessionCommand::Subscribe { service, characteristic } => has_characteristic(m, service, characteristic),
        SessionCommand::Unsubscribe { service, characteristic } => has_characteristic(m, service, characteristic),
        SessionCommand::ReadDescriptor { service, characteristic, descriptor } => has_descriptor(
            m,
            service,
            characteristic,
            descriptor,
        ),
        SessionCommand::WriteDescriptor { service, characteristic, descriptor, .. } => has_descriptor(
            m,
            service,
            characteristic,
            descriptor,
        ),
        _ => true,
    }
}

/// A command that waits on `key`: refused while an operation with that key is
/// outstanding, otherwise registered, with `sends` issued.
pub open spec fn keyed_outcome<V>(
    o: SessionModel<V>,
    f: SessionModel<V>,
    key: OperationKey,
    reply: V,
    actions: Seq<SessionAction<V>>,
    sends: Seq<SessionAction<V>>,
) -> bool {
    if o.pending.contains_key(key) {
        f.pending == o.pending && actions == seq![SessionAction::Resolve(reply, Reply::Failed(Error::AlreadyInProgress))]
    } else {
        f.pending == o.pending.insert(key, reply) && actions == sends
    }
}

/// `a` hands `v` the service tree of `m`.
pub open spec fn is_ready_reply<V>(a: SessionAction<V>, v: V, m: CacheModel) -> bool {
    match a {
        SessionAction::Resolve(w, Reply::Services(t)) => w == v && t@.map_values(|s: Service| s@) == tree_of(m),
        _ => false,
    }
}

/// Whether a command is a write that expects no acknowledgement.
pub open spec fn unacknowledged(c: SessionCommand) -> bool {
    match c {
        SessionCommand::WriteCharacteristic { write_type, .. } => write_type == CharacteristicWriteType::WriteWithoutResponse,
        _ => false,
    }
}

/// What a command does: `o` and `f` are the session before and after, `actions`
/// what the event loop is told to do.
pub open spec fn command_outcome<V>(
    o: SessionModel<V>,
    f: SessionModel<V>,
    c: SessionCommand,
    reply: V,
    actions: Seq<SessionAction<V>>,
) -> bool {
    match c {
        SessionCommand::IsConnected => f.pending == o.pending && actions == seq![
            SessionAction::Resolve(reply, Reply::Connected(o.connected)),
        ],
        SessionCommand::Connect => if o.ready {
            f.pending == o.pending && actions.len() == 1 && is_ready_reply(actions[0], reply, o.cache)
        } else {
            keyed_outcome(
                o,
                f,
                command_key(o.id, c),
                reply,
                actions,
                if o.connected {
                    seq![]
                } else {
                    seq![SessionAction::Send(NativeRequest::Connect)]
                },
            )
        },
        SessionCommand::Disconnect => if !o.connected {
            f.pending == o.pending && actions == seq![SessionAction::Resolve(reply, Reply::Done)]
        } else {
            keyed_outcome(
                o,
                f,
                command_key(o.id, c),
                reply,
                actions,
                seq![SessionAction::Send(NativeRequest::CancelConnection)],
            )
        },
        _ => if !target_known(o.cache, c) {
            f.pending == o.pending && actions == seq![SessionAction::Resolve(reply, Reply::Failed(Error::NotFound))]
        } else if unacknowledged(c) {
            f.pending == o.pending && actions == seq![
                SessionAction::Send(request_of(c)),
                SessionAction::Resolve(reply, Reply::Done),
            ]
        } else {
            keyed_outcome(o, f, command_key(o.id, c), reply, actions, seq![SessionAction::Send(request_of(c))])
        },
    }
}

/// Whether a step that leaves the cache at `m` makes the connection usable: it
/// is connected, was not ready, and discovery is now complete.
pub open spec fn fires_ready(ready: bool, connected: bool, m: CacheModel) -> bool {
    !ready && connected && fully_discovered(m)
}

pub open spec fn ready_after(ready: bool, connected: bool, m: CacheModel) -> bool {
    ready || (connected && fully_discovered(m))
}

pub open spec fn characteristic_requests<V>(services: Seq<u128>) -> Seq<SessionAction<V>> {
    services.map_values(|u: u128| SessionAction::<V>::Send(NativeRequest::DiscoverCharacteristics { service: u }))
}

pub open spec fn descriptor_requests<V>(service: u128, characteristics: Seq<u128>) -> Seq<SessionAction<V>> {
    characteristics.map_values(
        |u: u128| SessionAction::<V>::Send(NativeRequest::DiscoverDescriptors { service, characteristic: u }),
    )
}

/// A discovery step: the cache becomes `m`, `sends` are issued, and where the
/// connection has just become usable its waiting caller gets the service tree.
pub open spec fn discovery_outcome<V>(
    o: SessionModel<V>,
    f: SessionModel<V>,
    m: CacheModel,
    sends: Seq<SessionAction<V>>,
    actions: Seq<SessionAction<V>>,
) -> bool {
    &&& f.id == o.id
    &&& f.connected == o.connected
    &&& f.cache == m
    &&& f.ready == ready_after(o.ready, o.connected, m)
    &&& actions.len() >= sends.len()
    &&& actions.subrange(0, sends.len() as int) == sends
    &&& if fires_ready(o.ready, o.connected, m) && o.pending.contains_key(connect_key(o.id)) {
        &&& f.pending == o.pending.remove(connect_key(o.id))
        &&& actions.len() == sends.len() + 1
        &&& is_ready_reply(actions[sends.len() as int], o.pending[connect_key(o.id)], m)
    } else {
        f.pending == o.pending && actions.len() == sends.len()
    }
}

/// The answer for a completion: the native error, if any, else `ok`.
pub open spec fn completion_reply(ok: Reply, error: Option<String>) -> Reply {
    match error {
        Some(e) => Reply::Failed(Error::Native(e)),
        None => ok,
    }
}

/// A completion for `key`: the caller waiting under it, if any, gets `answer`
/// and the key is freed; nothing else changes.
pub open spec fn completion_outcome<V>(
    o: SessionModel<V>,
    f: SessionModel<V>,
    key: OperationKey,
    answer: Reply,
    actions: Seq<SessionAction<V>>,
) -> bool {
    &&& f.id == o.id
    &&& f.connected == o.connected
    &&& f.ready == o.ready
    &&& f.cache == o.cache
    &&& completion_resolution(o, f, key, answer, actions)
}

/// The caller waiting under `key`, if any, gets `answer` and the key is freed.
pub open spec fn completion_resolution<V>(
    o: SessionModel<V>,
    f: SessionModel<V>,
    key: OperationKey,
    answer: Reply,
    actions: Seq<SessionAction<V>>,
) -> bool {
    &&& if o.pending.contains_key(key) {
        f.pending == o.pending.remove(key) && actions == seq![SessionAction::Resolve(o.pending[key], answer)]
    } else {
        f.pending == o.pending && actions == Seq::<SessionAction<V>>::empty()
    }
}

/// What an operation waiting under `key` is told when the link drops: a
/// disconnect that was asked for has succeeded, anything else has failed.
pub open spec fn disconnect_reply(key: OperationKey) -> Reply {
    match key {
        OperationKey::Disconnect { .. } => Reply::Done,
        _ => Reply::Failed(Error::Disconnected),
    }
}

/// `a` resolves one of the operations of `p` as a disconnect does.
pub open spec fn resolves_pending<V>(p: Map<OperationKey, V>, a: SessionAction<V>) -> bool {
    exists|k: OperationKey| p.contains_key(k) && a == SessionAction::Resolve(p[k], disconnect_reply(k))
}

/// The link dropped: the cache and every outstanding operation are gone, and
/// each of those operations is resolved exactly once.
pub open spec fn disconnect_outcome<V>(o: SessionModel<V>, f: SessionModel<V>, actions: Seq<SessionAction<V>>) -> bool {
    &&& f.id == o.id
    &&& !f.connected
    &&& !f.ready
    &&& f.cache == empty_cache()
    &&& f.pending == Map::<OperationKey, V>::empty()
    &&& actions.len() == o.pending.len()
    &&& forall|i: int| 0 <= i < actions.len() ==> #[trigger] resolves_pending(o.pending, actions[i])
    &&& forall|k: OperationKey| #[trigger] o.pending.contains_key(k) ==> exists|i: int|
        0 <= i < actions.len() && actions[i] == SessionAction::Resolve(o.pending[k], disconnect_reply(k))
}

/// What a native event does to the session.
pub open spec fn event_outcome<V>(
    o: SessionModel<V>,
    f: SessionModel<V>,
    e: SessionEvent,
    actions: Seq<SessionAction<V>>,
) -> bool {
    let id = o.id;
    match e {
        SessionEvent::Connected => f == SessionModel {
            connected: true,
            ready: false,
            cache: empty_cache(),
            ..o
        } && actions == seq![SessionAction::<V>::Send(NativeRequest::DiscoverServices)],
        SessionEvent::ConnectionFailed { error } => completion_outcome(
            o,
            f,
            connect_key(id),
            Reply::Failed(Error::Native(error)),
            actions,
        ),
        SessionEvent::Disconnected => disconnect_outcome(o, f, actions),
        SessionEvent::ServicesDiscovered { services, error } => match error {
            Some(msg) => completion_outcome(o, f, connect_key(id), Reply::Failed(Error::Native(msg)), actions),
            None => {
                let m = after_services(services@.map_values(|s: Service| s@));
                discovery_outcome(
                    o,
                    f,
                    m,
                    characteristic_requests(m.services.map_values(|s: ServiceEntry| s.uuid)),
                    actions,
                )
            },
        },
        SessionEvent::CharacteristicsDiscovered { service, characteristics, error } => match error {
            Some(msg) => completion_outcome(o, f, connect_key(id), Reply::Failed(Error::Native(msg)), actions),
            None => {
                let cs = characteristics@.map_values(|c: Characteristic| c@);
                discovery_outcome(
                    o,
                    f,
                    after_characteristics(o.cache, service, cs),
                    if has_service(o.cache, service) {
                        descriptor_requests(
                            service,
                            fresh_characteristics(cs).map_values(
                                |e: (CharacteristicModel, bool)| e.0.uuid,
                            ),
                        )
                    } else {
                        Seq::empty()
                    },
                    actions,
                )
            },
        },
        SessionEvent::DescriptorsDiscovered { service, characteristic, descriptors, error } => match error {
            Some(msg) => completion_outcome(o, f, connect_key(id), Reply::Failed(Error::Native(msg)), actions),
            None => discovery_outcome(
                o,
                f,
                after_descriptors(o.cache, service, characteristic, descriptors@.map_values(|d: Descriptor| d@)),
                Seq::empty(),
                actions,
            ),
        },
        SessionEvent::CharacteristicValue { service, characteristic, value, error } => {
            &&& f.id == o.id
            &&& f.connected == o.connected
            &&& f.ready == o.ready
            &&& f.cache == if error is None {
                crate::discovery::after_value(o.cache, service, characteristic, value@)
            } else {
                o.cache
            }
            &&& completion_resolution(
                o,
                f,
                OperationKey::ReadCharacteristic { peripheral: id, service, characteristic },
                completion_reply(Reply::Value(value), error),
                actions,
            )
        },
        SessionEvent::CharacteristicWritten { service, characteristic, error } => completion_outcome(
            o,
            f,
            OperationKey::WriteCharacteristic { peripheral: id, service, characteristic },
            completion_reply(Reply::Done, error),
            actions,
        ),
        SessionEvent::SubscriptionChanged { service, characteristic, subscribed, error } => completion_outcome(
            o,
            f,
            if subscribed {
                OperationKey::Subscribe { peripheral: id, service, characteristic }
            } else {
                OperationKey::Unsubscribe { peripheral: id, service, characteristic }
            },
            completion_reply(Reply::Done, error),
            actions,
        ),
        SessionEvent::DescriptorValue { service, characteristic, descriptor, value, error } => completion_outcome(
            o,
            f,
            OperationKey::ReadDescriptor { peripheral: id, service, characteristic, descriptor },
            completion_reply(Reply::Value(value), error),
            actions,
        ),
        SessionEvent::DescriptorWritten { service, characteristic, descriptor, error } => completion_outcome(
            o,
            f,
            OperationKey::WriteDescriptor { peripheral: id, service, characteristic, descriptor },
            completion_reply(Reply::Done, error),
            actions,
        ),
    }
}

/// Once a connection is ready it stays ready until the link drops or a new
/// connection starts: no other event can make the ready answer due again.
pub proof fn lemma_ready_persists<V>(
    o: SessionModel<V>,
    f: SessionModel<V>,
    e: SessionEvent,
    actions: Seq<SessionAction<V>>,
)
    requires
        event_outcome(o, f, e, actions),
        o.ready,
        !(e is Disconnected),
        !(e is Connected),
    ensures
        f.ready,
{
}

/// A dropped link leaves no operation outstanding, and every operation that
/// was outstanding is answered once: with `Disconnected`, but for a requested
/// disconnect, which has thereby succeeded.
pub proof fn lemma_disconnect_cleanup<V>(o: SessionModel<V>, f: SessionModel<V>, actions: Seq<SessionAction<V>>)
    requires
        event_outcome(o, f, SessionEvent::Disconnected, actions),
    ensures
        f.pending.len() == 0,
        actions.len() == o.pending.len(),
        forall|k: OperationKey|
            #[trigger] o.pending.contains_key(k) && !(k is Disconnect) ==> exists|i: int|
                0 <= i < actions.len() && actions[i] == SessionAction::Resolve(
                    o.pending[k],
                    Reply::Failed(Error::Disconnected),
                ),
{
    assert forall|k: OperationKey| #[trigger] o.pending.contains_key(k) && !(k is Disconnect) implies exists|i: int|
        0 <= i < actions.len() && actions[i] == SessionAction::Resolve(o.pending[k], Reply::Failed(Error::Disconnected)) by {
        assert(disconnect_reply(k) == Reply::Failed(Error::Disconnected));
    }
}

/// Whether `a` answers a caller with a service tree.
pub open spec fn is_tree_answer<V>(a: SessionAction<V>) -> bool {
    a matches SessionAction::Resolve(_, Reply::Services(_))
}

/// A native event hands out the service tree only in the step that makes the
/// connection ready: together with `lemma_ready_persists`, the ready answer
/// goes out at most once per connection.
pub proof fn lemma_tree_answer_only_when_becoming_ready<V>(
    o: SessionModel<V>,
    f: SessionModel<V>,
    e: SessionEvent,
    actions: Seq<SessionAction<V>>,
    i: int,
)
    requires
        event_outcome(o, f, e, actions),
        0 <= i < actions.len(),
        is_tree_answer(actions[i]),
    ensures
        !o.ready,
        f.ready,
{
    match e {
        SessionEvent::ServicesDiscovered { services, error } => {
            if error is None {
                let m = after_services(services@.map_values(|s: Service| s@));
                let sends = characteristic_requests::<V>(m.services.map_values(|s: ServiceEntry| s.uuid));
                if i < sends.len() {
                    assert(actions.subrange(0, sends.len() as int)[i] == actions[i]);
                }
            }
        },
        SessionEvent::CharacteristicsDiscovered { service, characteristics, error } => {
            if error is None {
                let cs = characteristics@.map_values(|c: Characteristic| c@);
                let sends: Seq<SessionAction<V>> = if has_service(o.cache, service) {
                    descriptor_requests(
                        service,
                        fresh_characteristics(cs).map_values(|e: (CharacteristicModel, bool)| e.0.uuid),
                    )
                } else {
                    Seq::empty()
                };
                if i < sends.len() {
                    assert(actions.subrange(0, sends.len() as int)[i] == actions[i]);
                }
            }
        },
        SessionEvent::Disconnected => {
            assert(resolves_pending(o.pending, actions[i]));
        },
        _ => {},
    }
}

/// Once the ready answer has gone out on a connection, no native event hands
/// out the service tree again.
pub proof fn lemma_no_tree_answer_once_ready<V>(
    o: SessionModel<V>,
    f: SessionModel<V>,
    e: SessionEvent,
    actions: Seq<SessionAction<V>>,
)
    requires
        event_outcome(o, f, e, actions),
        o.ready,
    ensures
        forall|i: int| 0 <= i < actions.len() ==> !is_tree_answer(#[trigger] actions[i]),
{
    assert forall|i: int| 0 <= i < actions.len() implies !is_tree_answer(#[trigger] actions[i]) by {
        if is_tree_answer(actions[i]) {
            lemma_tree_answer_only_when_becoming_ready(o, f, e, actions, i);
        }
    }
}

/// Handling the same characteristic list twice in a row: the second step
/// leaves the cache and readiness as the first left them, and hands out no
/// service tree.
pub proof fn lemma_repeated_characteristics_event<V>(
    p: Peripheral<V>,
    f: SessionModel<V>,
    g: SessionModel<V>,
    service: u128,
    characteristics: Vec<Characteristic>,
    first: Seq<SessionAction<V>>,
    second: Seq<SessionAction<V>>,
)
    requires
        p.wf(),
        event_outcome(p@, f, SessionEvent::CharacteristicsDiscovered { service, characteristics, error: None }, first),
        event_outcome(f, g, SessionEvent::CharacteristicsDiscovered { service, characteristics, error: None }, second),
    ensures
        g.cache == f.cache,
        g.ready == f.ready,
        forall|i: int| 0 <= i < second.len() ==> !is_tree_answer(#[trigger] second[i]),
{
    p.lemma_wf();
    let cs = characteristics@.map_values(|c: Characteristic| c@);
    crate::discovery::lemma_characteristics_idempotent(p@.cache, service, cs);
    assert forall|i: int| 0 <= i < second.len() implies !is_tree_answer(#[trigger] second[i]) by {
        if is_tree_answer(second[i]) {
            lemma_tree_answer_only_when_becoming_ready(
                f,
                g,
                SessionEvent::CharacteristicsDiscovered { service, characteristics, error: None },
                second,
                i,
            );
        }
    }
}

/// Handling the same descriptor list twice in a row: the second step leaves
/// the cache and readiness as the first left them, and hands out no service
/// tree.
pub proof fn lemma_repeated_descriptors_event<V>(
    p: Peripheral<V>,
    f: SessionModel<V>,
    g: SessionModel<V>,
    service: u128,
    characteristic: u128,
    descriptors: Vec<Descriptor>,
    first: Seq<SessionAction<V>>,
    second: Seq<SessionAction<V>>,
)
    requires
        p.wf(),
        event_outcome(
            p@,
            f,
            SessionEvent::DescriptorsDiscovered { service, characteristic, descriptors, error: None },
            first,
        ),
        event_outcome(
            f,
            g,
            SessionEvent::DescriptorsDiscovered { service, characteristic, descriptors, error: None },
            second,
        ),
    ensures
        g.cache == f.cache,
        g.ready == f.ready,
        forall|i: int| 0 <= i < second.len() ==> !is_tree_answer(#[trigger] second[i]),
{
    p.lemma_wf();
    let ds = descriptors@.map_values(|d: Descriptor| d@);
    crate::discovery::lemma_descriptors_idempotent(p@.cache, service, characteristic, ds);
    assert forall|i: int| 0 <= i < second.len() implies !is_tree_answer(#[trigger] second[i]) by {
        if is_tree_answer(second[i]) {
            lemma_tree_answer_only_when_becoming_ready(
                f,
                g,
                SessionEvent::DescriptorsDiscovered { service, characteristic, descriptors, error: None },
                second,
                i,
            );
        }
    }
}

/// The session of one remote peripheral: its discovery cache and its
/// outstanding operations.
pub struct Peripheral<V> {
    id: u128,
    connected: bool,
    ready: bool,
    cache: DiscoveryCache,
    pending: PendingRegistry<V>,
}

impl<V> View for Peripheral<V> {
    type V = SessionModel<V>;

    closed spec fn view(&self) -> SessionModel<V> {
        SessionModel {
            id: self.id,
            connected: self.connected,
            ready: self.ready,
            cache: self.cache@,
            pending: self.pending@,
        }
    }
}

impl<V> Peripheral<V> {
    /// The parts are well formed, every outstanding operation belongs to this
    /// peripheral, and only a connected session is ready.
    pub closed spec fn wf(&self) -> bool {
        &&& self.parts_wf()
        &&& self.connected && !self.ready ==> !fully_discovered(self.cache@)
    }

    /// The parts are well formed and only a connected session is ready; what
    /// holds in the middle of a discovery step, before readiness is settled.
    closed spec fn parts_wf(&self) -> bool {
        &&& self.cache.wf()
        &&& self.pending.wf()
        &&& self.ready ==> self.connected
    }

    /// What well-formedness promises of the model: the cache's UUIDs are
    /// unique, finitely many operations are outstanding, only a connected
    /// session is ready, and a connected session that is not ready has not
    /// completed discovery.
    pub proof fn lemma_wf(&self)
        requires
            self.wf(),
        ensures
            crate::discovery::unique_uuids(self@.cache),
            self@.pending.dom().finite(),
            self@.ready ==> self@.connected,
            self@.connected && !self@.ready ==> !fully_discovered(self@.cache),
    {
        self.pending.lemma_finite();
    }

    /// A session for the peripheral `id`, not connected, with nothing discovered.
    pub fn new(id: u128) -> (r: Self)
        ensures
            r.wf(),
            r@.id == id,
            !r@.connected,
            !r@.ready,
            r@.cache == empty_cache(),
            r@.pending == Map::<OperationKey, V>::empty(),
    {
        Peripheral {
            id,
            connected: false,
            ready: false,
            cache: DiscoveryCache::new(),
            pending: PendingRegistry::new(),
        }
    }

    pub fn id(&self) -> (r: u128)
        ensures
            r == self@.id,
    {
        self.id
    }

    /// The number of outstanding operations.
    pub fn count(&self) -> (r: usize)
        requires
            self.wf(),
        ensures
            r == self@.pending.len(),
    {
        self.pending.count()
    }

    fn register_and_send(&mut self, key: OperationKey, reply: V, sends: Vec<SessionAction<V>>) -> (r: Vec<
        SessionAction<V>,
    >)
        requires
            old(self).wf(),
        ensures
            final(self).wf(),
            final(self)@.id == old(self)@.id,
            final(self)@.connected == old(self)@.connected,
            final(self)@.ready == old(self)@.ready,
            final(self)@.cache == old(self)@.cache,
            keyed_outcome(old(self)@, final(self)@, key, reply, r@, sends@),
    {
        match self.pending.register(key, reply) {
            Registration::Registered => sends,
            Registration::AlreadyInProgress(reply) => {
                let r = vec![SessionAction::Resolve(reply, Reply::Failed(Error::AlreadyInProgress))];
                assert(r@ =~= seq![SessionAction::Resolve(reply, Reply::Failed(Error::AlreadyInProgress))]);
                r
            },
        }
    }

    fn not_found(reply: V) -> (r: Vec<SessionAction<V>>)
        ensures
            r@ == seq![SessionAction::Resolve(reply, Reply::Failed(Error::NotFound))],
    {
        let r = vec![SessionAction::Resolve(reply, Reply::Failed(Error::NotFound))];
        assert(r@ =~= seq![SessionAction::Resolve(reply, Reply::Failed(Error::NotFound))]);
        r
    }

    fn send_one(request: NativeRequest) -> (r: Vec<SessionAction<V>>)
        ensures
            r@ == seq![SessionAction::<V>::Send(request)],
    {
        let r = vec![SessionAction::Send(request)];
        assert(r@ =~= seq![SessionAction::<V>::Send(request)]);
        r
    }

    /// Serves one caller command. A command that needs the native stack waits
    /// under its key; a second one for the same key is refused with
    /// `AlreadyInProgress`, and one naming an attribute that discovery has not
    /// reported gets `NotFound`.
    pub fn handle_command(&mut self, command: SessionCommand, reply: V) -> (r: Vec<SessionAction<V>>)
        requires
            old(self).wf(),
        ensures
            final(self).wf(),
            final(self)@.id == old(self)@.id,
            final(self)@.connected == old(self)@.connected,
            final(self)@.ready == old(self)@.ready,
            final(self)@.cache == old(self)@.cache,
            command_outcome(old(self)@, final(self)@, command, reply, r@),
    {
        let ghost c = command;
        let id = self.id;
        match command {
            SessionCommand::IsConnected => {
                let r = vec![SessionAction::Resolve(reply, Reply::Connected(self.connected))];
                assert(r@ =~= seq![SessionAction::Resolve(reply, Reply::Connected(self.connected))]);
                r
            },
            SessionCommand::Connect => {
                if self.ready {
                    let r = vec![SessionAction::Resolve(reply, Reply::Services(self.cache.services()))];
                    r
                } else if self.connected {
                    let none: Vec<SessionAction<V>> = Vec::new();
                    assert(none@ =~= seq![]);
                    self.register_and_send(OperationKey::Connect { peripheral: id }, reply, none)
                } else {
                    self.register_and_send(
                        OperationKey::Connect { peripheral: id },
                        reply,
                        Self::send_one(NativeRequest::Connect),
                    )
                }
            },
            SessionCommand::Disconnect => {
                if !self.connected {
                    let r = vec![SessionAction::Resolve(reply, Reply::Done)];
                    assert(r@ =~= seq![SessionAction::Resolve(reply, Reply::Done)]);
                    r
                } else {
                    self.register_and_send(
                        OperationKey::Disconnect { peripheral: id },
                        reply,
                        Self::send_one(NativeRequest::CancelConnection),
                    )
                }
            },
            SessionCommand::ReadCharacteristic { service, characteristic } => {
                if !self.cache.knows_characteristic(service, characteristic) {
                    return Self::not_found(reply);
                }
                self.register_and_send(
                    OperationKey::ReadCharacteristic { peripheral: id, service, characteristic },
                    reply,
                    Self::send_one(NativeRequest::ReadValue { service, characteristic }),
                )
            },
            SessionCommand::WriteCharacteristic { service, characteristic, data, write_type } => {
                if !self.cache.knows_characteristic(service, characteristic) {
                    return Self::not_found(reply);
                }
                let request = NativeRequest::WriteValue { service, characteristic, data, write_type };
                match write_type {
                    CharacteristicWriteType::WriteWithoutResponse => {
                        let r = vec![SessionAction::Send(request), SessionAction::Resolve(reply, Reply::Done)];
                        assert(r@ =~= seq![
                            SessionAction::Send(request_of(c)),
                            SessionAction::Resolve(reply, Reply::Done),
                        ]);
                        r
                    },
                    CharacteristicWriteType::WriteWithResponse => self.register_and_send(
                        OperationKey::WriteCharacteristic { peripheral: id, service, characteristic },
                        reply,
                        Self::send_one(request),
                    ),
                }
            },
            SessionCommand::Subscribe { service, characteristic } => {
                if !self.cache.knows_characteristic(service, characteristic) {
                    return Self::not_found(reply);
                }
                self.register_and_send(
                    OperationKey::Subscribe { peripheral: id, service, characteristic },
                    reply,
                    Self::send_one(NativeRequest::SetNotify { service, characteristic, enabled: true }),
                )
            },
            SessionCommand::Unsubscribe { service, characteristic } => {
                if !self.cache.knows_characteristic(service, characteristic) {
                    return Self::not_found(reply);
                }
                self.register_and_send(
                    OperationKey::Unsubscribe { peripheral: id, service, characteristic },
                    reply,
                    Self::send_one(NativeRequest::SetNotify { service, characteristic, enabled: false }),
                )
            },
            SessionCommand::ReadDescriptor { service, characteristic, descriptor } => {
                if !self.cache.knows_descriptor(service, characteristic, descriptor) {
                    return Self::not_found(reply);
                }
                self.register_and_send(
                    OperationKey::ReadDescriptor { peripheral: id, service, characteristic, descriptor },
                    reply,
                    Self::send_one(NativeRequest::ReadDescriptor { service, characteristic, descriptor }),
                )
            },
            SessionCommand::WriteDescriptor { service, characteristic, descriptor, data } => {
                if !self.cache.knows_descriptor(service, characteristic, descriptor) {
                    return Self::not_found(reply);
                }
                self.register_and_send(
                    OperationKey::WriteDescriptor { peripheral: id, service, characteristic, descriptor },
                    reply,
                    Self::send_one(NativeRequest::WriteDescriptor { service, characteristic, descriptor, data }),
                )
            },
        }
    }


    /// Appends the ready reply where this step has just made the connection usable.
    fn check_discovered(&mut self, actions: &mut Vec<SessionAction<V>>)
        requires
            old(self).parts_wf(),
        ensures
            final(self).wf(),
            final(self)@.id == old(self)@.id,
            final(self)@.connected == old(self)@.connected,
            final(self)@.cache == old(self)@.cache,
            final(self)@.ready == ready_after(old(self)@.ready, old(self)@.connected, old(self)@.cache),
            if fires_ready(old(self)@.ready, old(self)@.connected, old(self)@.cache) && old(self)@.pending.contains_key(
                connect_key(old(self)@.id),
            ) {
                &&& final(self)@.pending == old(self)@.pending.remove(connect_key(old(self)@.id))
                &&& final(actions)@.len() == old(actions)@.len() + 1
                &&& final(actions)@.subrange(0, old(actions)@.len() as int) == old(actions)@
                &&& is_ready_reply(
                    final(actions)@[old(actions)@.len() as int],
                    old(self)@.pending[connect_key(old(self)@.id)],
                    old(self)@.cache,
                )
            } else {
                final(self)@.pending == old(self)@.pending && final(actions)@ == old(actions)@
            },
    {
        if !self.ready && self.connected && self.cache.is_fully_discovered() {
            self.ready = true;
            match self.pending.take(&OperationKey::Connect { peripheral: self.id }) {
                Some(v) => {
                    let ghost before = actions@;
                    actions.push(SessionAction::Resolve(v, Reply::Services(self.cache.services())));
                    assert(actions@.subrange(0, before.len() as int) =~= before);
                },
                None => {},
            }
        }
    }

    /// Resolves the operation waiting under `key`, if any, with `answer`.
    fn complete(&mut self, key: OperationKey, answer: Reply) -> (r: Vec<SessionAction<V>>)
        requires
            old(self).wf(),
        ensures
            final(self).wf(),
            completion_outcome(old(self)@, final(self)@, key, answer, r@),
    {
        match self.pending.take(&key) {
            Some(v) => {
                let r = vec![SessionAction::Resolve(v, answer)];
                assert(r@ =~= seq![SessionAction::Resolve(v, answer)]);
                r
            },
            None => {
                let r: Vec<SessionAction<V>> = Vec::new();
                assert(r@ =~= Seq::<SessionAction<V>>::empty());
                assert(self@.pending =~= old(self)@.pending);
                r
            },
        }
    }

    fn answer(ok: Reply, error: Option<String>) -> (r: Reply)
        ensures
            r == completion_reply(ok, error),
    {
        match error {
            Some(e) => Reply::Failed(Error::Native(e)),
            None => ok,
        }
    }

    fn disconnect_answer(key: &OperationKey) -> (r: Reply)
        ensures
            r == disconnect_reply(*key),
    {
        match key {
            OperationKey::Disconnect { .. } => Reply::Done,
            _ => Reply::Failed(Error::Disconnected),
        }
    }

    /// The link dropped: forgets the cache and resolves every outstanding operation.
    pub fn confirm_disconnect(&mut self) -> (r: Vec<SessionAction<V>>)
        requires
            old(self).wf(),
        ensures
            final(self).wf(),
            disconnect_outcome(old(self)@, final(self)@, r@),
    {
        self.connected = false;
        self.ready = false;
        self.cache.clear();
        let mut drained = self.pending.drain();
        let ghost d = drained@;
        let ghost p = old(self)@.pending;
        let mut r: Vec<SessionAction<V>> = Vec::new();
        let mut i: usize = 0;
        let n = drained.len();
        while i < n
            invariant
                n == d.len(),
                i <= n,
                drained@ == d.subrange(i as int, n as int),
                r@.len() == i,
                forall|j: int| 0 <= j < i ==> #[trigger] r@[j] == SessionAction::Resolve(d[j].1, disconnect_reply(d[j].0)),
            decreases n - i,
        {
            assert(drained@[0] == d[i as int]);
            let (key, v) = drained.remove(0);
            let answer = Self::disconnect_answer(&key);
            r.push(SessionAction::Resolve(v, answer));
            i = i + 1;
            assert(drained@ =~= d.subrange(i as int, n as int));
        }
        proof {
            assert(self@.cache == empty_cache());
            assert(self@.pending == Map::<OperationKey, V>::empty());
            assert(r@.len() == p.len());
            assert forall|j: int| 0 <= j < r@.len() implies #[trigger] resolves_pending(p, r@[j]) by {
                assert(p.contains_key(d[j].0));
                assert(r@[j] == SessionAction::Resolve(p[d[j].0], disconnect_reply(d[j].0)));
            }
            assert forall|k: OperationKey| #[trigger] p.contains_key(k) implies exists|j: int|
                0 <= j < r@.len() && r@[j] == SessionAction::Resolve(p[k], disconnect_reply(k)) by {
                let j = choose|j: int| 0 <= j < d.len() && d[j].0 == k;
                assert(r@[j] == SessionAction::Resolve(d[j].1, disconnect_reply(d[j].0)));
            }
        }
        r
    }

    fn characteristic_sends(services: &Vec<u128>) -> (r: Vec<SessionAction<V>>)
        ensures
            r@ == characteristic_requests::<V>(services@),
    {
        let mut r: Vec<SessionAction<V>> = Vec::new();
        let mut i: usize = 0;
        while i < services.len()
            invariant
                i <= services@.len(),
                r@.len() == i,
                forall|j: int| 0 <= j < i ==> #[trigger] r@[j] == SessionAction::<V>::Send(
                    NativeRequest::DiscoverCharacteristics { service: services@[j] },
                ),
            decreases services@.len() - i,
        {
            r.push(SessionAction::Send(NativeRequest::DiscoverCharacteristics { service: services[i] }));
            i = i + 1;
        }
        assert(r@ =~= characteristic_requests::<V>(services@));
        r
    }

    fn descriptor_sends(service: u128, characteristics: &Vec<u128>) -> (r: Vec<SessionAction<V>>)
        ensures
            r@ == descriptor_requests::<V>(service, characteristics@),
    {
        let mut r: Vec<SessionAction<V>> = Vec::new();
        let mut i: usize = 0;
        while i < characteristics.len()
            invariant
                i <= characteristics@.len(),
                r@.len() == i,
                forall|j: int| 0 <= j < i ==> #[trigger] r@[j] == SessionAction::<V>::Send(
                    NativeRequest::DiscoverDescriptors { service, characteristic: characteristics@[j] },
                ),
            decreases characteristics@.len() - i,
        {
            r.push(SessionAction::Send(NativeRequest::DiscoverDescriptors { service, characteristic: characteristics[i] }));
            i = i + 1;
        }
        assert(r@ =~= descriptor_requests::<V>(service, characteristics@));
        r
    }

    /// Records the services the stack found and asks for the characteristics of each.
    fn discovered_services(&mut self, services: &Vec<Service>) -> (r: Vec<SessionAction<V>>)
        requires
            old(self).wf(),
        ensures
            final(self).wf(),
            ({
                let m = after_services(services@.map_values(|s: Service| s@));
                discovery_outcome(
                    old(self)@,
                    final(self)@,
                    m,
                    characteristic_requests(m.services.map_values(|s: ServiceEntry| s.uuid)),
                    r@,
                )
            }),
    {
        let uuids = self.cache.set_services(services);
        let mut actions = Self::characteristic_sends(&uuids);
        let ghost sends = actions@;
        self.check_discovered(&mut actions);
        assert(actions@.subrange(0, sends.len() as int) =~= sends);
        actions
    }

    /// Records the characteristics found for a service, asks for the
    /// descriptors of each, and answers the waiting `Connect` if discovery is
    /// now complete. A list for an unknown service changes nothing.
    pub fn update_cached_characteristics(&mut self, service_uuid: u128, characteristics: &Vec<Characteristic>) -> (r:
        Vec<SessionAction<V>>)
        requires
            old(self).wf(),
        ensures
            final(self).wf(),
            ({
                let cs = characteristics@.map_values(|c: Characteristic| c@);
                discovery_outcome(
                    old(self)@,
                    final(self)@,
                    after_characteristics(old(self)@.cache, service_uuid, cs),
                    if has_service(old(self)@.cache, service_uuid) {
                        descriptor_requests(
                            service_uuid,
                            fresh_characteristics(cs).map_values(|e: (CharacteristicModel, bool)| e.0.uuid),
                        )
                    } else {
                        Seq::empty()
                    },
                    r@,
                )
            }),
    {
        let mut actions = match self.cache.set_characteristics(service_uuid, characteristics) {
            Some(uuids) => Self::descriptor_sends(service_uuid, &uuids),
            None => Vec::new(),
        };
        let ghost sends = actions@;
        self.check_discovered(&mut actions);
        assert(actions@.subrange(0, sends.len() as int) =~= sends);
        actions
    }

    /// Records the descriptors found for a characteristic, and answers the
    /// waiting `Connect` if discovery is now complete. A list for an unknown
    /// characteristic changes nothing.
    pub fn update_cached_characteristic_descriptors(
        &mut self,
        service_uuid: u128,
        characteristic_uuid: u128,
        descriptors: &Vec<Descriptor>,
    ) -> (r: Vec<SessionAction<V>>)
        requires
            old(self).wf(),
        ensures
            final(self).wf(),
            discovery_outcome(
                old(self)@,
                final(self)@,
                after_descriptors(
                    old(self)@.cache,
                    service_uuid,
                    characteristic_uuid,
                    descriptors@.map_values(|d: Descriptor| d@),
                ),
                Seq::empty(),
                r@,
            ),
    {
        self.cache.set_descriptors(service_uuid, characteristic_uuid, descriptors);
        let mut actions: Vec<SessionAction<V>> = Vec::new();
        self.check_discovered(&mut actions);
        assert(actions@.subrange(0, 0) =~= Seq::<SessionAction<V>>::empty());
        actions
    }

    /// Applies one native event. Discovery results update the cache and ask for
    /// the next level; the first step after which discovery is complete answers
    /// the waiting `Connect` with the service tree, and no later step does so
    /// again on this connection. A completion resolves the operation waiting
    /// under its key; one that finds none is dropped. A value read or notified
    /// is also kept as the characteristic's cached value. A disconnect forgets
    /// the cache and resolves every outstanding operation.
    pub fn handle_event(&mut self, event: SessionEvent) -> (r: Vec<SessionAction<V>>)
        requires
            old(self).wf(),
        ensures
            final(self).wf(),
            event_outcome(old(self)@, final(self)@, event, r@),
    {
        let id = self.id;
        match event {
            SessionEvent::Connected => {
                self.connected = true;
                self.ready = false;
                self.cache.clear();
                Self::send_one(NativeRequest::DiscoverServices)
            },
            SessionEvent::ConnectionFailed { error } => self.complete(
                OperationKey::Connect { peripheral: id },
                Reply::Failed(Error::Native(error)),
            ),
            SessionEvent::Disconnected => self.confirm_disconnect(),
            SessionEvent::ServicesDiscovered { services, error } => match error {
                Some(msg) => self.complete(OperationKey::Connect { peripheral: id }, Reply::Failed(Error::Native(msg))),
                None => self.discovered_services(&services),
            },
            SessionEvent::CharacteristicsDiscovered { service, characteristics, error } => match error {
                Some(msg) => self.complete(OperationKey::Connect { peripheral: id }, Reply::Failed(Error::Native(msg))),
                None => self.update_cached_characteristics(service, &characteristics),
            },
            SessionEvent::DescriptorsDiscovered { service, characteristic, descriptors, error } => match error {
                Some(msg) => self.complete(OperationKey::Connect { peripheral: id }, Reply::Failed(Error::Native(msg))),
                None => self.update_cached_characteristic_descriptors(service, characteristic, &descriptors),
            },
            SessionEvent::CharacteristicValue { service, characteristic, value, error } => {
                if error.is_none() {
                    let ghost before = self.cache@;
                    self.cache.set_value(service, characteristic, &value);
                    proof {
                        crate::discovery::lemma_value_keeps_discovery(before, service, characteristic, value@);
                    }
                }
                self.complete(
                    OperationKey::ReadCharacteristic { peripheral: id, service, characteristic },
                    Self::answer(Reply::Value(value), error),
                )
            },
            SessionEvent::CharacteristicWritten { service, characteristic, error } => self.complete(
                OperationKey::WriteCharacteristic { peripheral: id, service, characteristic },
                Self::answer(Reply::Done, error),
            ),
            SessionEvent::SubscriptionChanged { service, characteristic, subscribed, error } => {
                let key = if subscribed {
                    OperationKey::Subscribe { peripheral: id, service, characteristic }
                } else {
                    OperationKey::Unsubscribe { peripheral: id, service, characteristic }
                };
                self.complete(key, Self::answer(Reply::Done, error))
            },
            SessionEvent::DescriptorValue { service, characteristic, descriptor, value, error } => self.complete(
                OperationKey::ReadDescriptor { peripheral: id, service, characteristic, descriptor },
                Self::answer(Reply::Value(value), error),
            ),
            SessionEvent::DescriptorWritten { service, characteristic, descriptor, error } => self.complete(
                OperationKey::WriteDescriptor { peripheral: id, service, characteristic, descriptor },
                Self::answer(Reply::Done, error),
            ),
        }
    }


    /// The key under which `command` waits, for a caller whose deadline
    /// passed; `IsConnected` is answered at once and waits under none.
    pub fn operation_key(&self, command: &SessionCommand) -> (r: Option<OperationKey>)
        ensures
            command is IsConnected ==> r is None,
            !(command is IsConnected) ==> r == Some(command_key(self@.id, *command)),
    {
        let id = self.id;
        match command {
            SessionCommand::Connect => Some(OperationKey::Connect { peripheral: id }),
            SessionCommand::Disconnect => Some(OperationKey::Disconnect { peripheral: id }),
            SessionCommand::IsConnected => None,
            SessionCommand::ReadCharacteristic { service, characteristic } => Some(OperationKey::ReadCharacteristic {
                peripheral: id,
                service: *service,
                characteristic: *characteristic,
            }),
            SessionCommand::WriteCharacteristic { service, characteristic, .. } => Some(OperationKey::WriteCharacteristic {
                peripheral: id,
                service: *service,
                characteristic: *characteristic,
            }),
            SessionCommand::Subscribe { service, characteristic } => Some(OperationKey::Subscribe {
                peripheral: id,
                service: *service,
                characteristic: *characteristic,
            }),
            SessionCommand::Unsubscribe { service, characteristic } => Some(OperationKey::Unsubscribe {
                peripheral: id,
                service: *service,
                characteristic: *characteristic,
            }),
            SessionCommand::ReadDescriptor { service, characteristic, descriptor } => Some(OperationKey::ReadDescriptor {
                peripheral: id,
                service: *service,
                characteristic: *characteristic,
                descriptor: *descriptor,
            }),
            SessionCommand::WriteDescriptor { service, characteristic, descriptor, .. } => Some(OperationKey::WriteDescriptor {
                peripheral: id,
                service: *service,
                characteristic: *characteristic,
                descriptor: *descriptor,
            }),
        }
    }

    /// Gives up the wait under `key`, as a caller whose deadline passed does: a
    /// completion that arrives later finds nothing. Says whether there was one.
    pub fn cancel(&mut self, key: &OperationKey) -> (r: bool)
        requires
            old(self).wf(),
        ensures
            final(self).wf(),
            final(self)@ == (SessionModel { pending: old(self)@.pending.remove(*key), ..old(self)@ }),
            r == old(self)@.pending.contains_key(*key),
    {
        self.pending.cancel(key)
    }

}

} // verus!
