use vstd::prelude::*;

verus! {

/// Which operation a pending entry belongs to, and the GATT path it targets.
#[derive(Debug, Clone, Copy, PartialEq, Eq, Structural)]
pub enum OperationKey {
    Connect { peripheral: u128 },
    Disconnect { peripheral: u128 },
    ReadCharacteristic { peripheral: u128, service: u128, characteristic: u128 },
    WriteCharacteristic { peripheral: u128, service: u128, characteristic: u128 },
    Subscribe { peripheral: u128, service: u128, characteristic: u128 },
    Unsubscribe { peripheral: u128, service: u128, characteristic: u128 },
    ReadDescriptor { peripheral: u128, service: u128, characteristic: u128, descriptor: u128 },
    WriteDescriptor { peripheral: u128, service: u128, characteristic: u128, descriptor: u128 },
    AddService { service: u128 },
    Advertising,
}

/// What `register` did with the reply handle it was given.
#[derive(Debug, PartialEq, Eq)]
pub enum Registration<V> {
    /// The handle is now stored under its key.
    Registered,
    /// Another operation with the same key is outstanding; the handle is handed back
    /// untouched so that its owner can be told.
    AlreadyInProgress(V),
}

/// A correlation table from request keys to single-use reply handles, holding at
/// most one entry per key.
pub struct PendingRegistry<V> {
    entries: Vec<(OperationKey, V)>,
    model: Ghost<Map<OperationKey, V>>,
}

impl<V> View for PendingRegistry<V> {
    type V = Map<OperationKey, V>;

    closed spec fn view(&self) -> Map<OperationKey, V> {
        self.model@
    }
}

impl<V> PendingRegistry<V> {
    /// The entry vector and the map agree, and no key is stored twice.
    pub closed spec fn wf(&self) -> bool {
        &&& self.model@.dom().finite()
        &&& self.entries@.len() == self.model@.len()
        &&& forall|i: int| 0 <= i < self.entries@.len() ==> {
            &&& #[trigger] self.model@.contains_key(self.entries@[i].0)
            &&& self.model@[self.entries@[i].0] == self.entries@[i].1
        }
        &&& forall|k: OperationKey| #[trigger] self.model@.contains_key(k) ==>
            exists|i: int| 0 <= i < self.entries@.len() && self.entries@[i].0 == k
        &&& forall|i: int, j: int| 0 <= i < j < self.entries@.len() ==>
            self.entries@[i].0 != self.entries@[j].0
    }

    /// A well-formed table holds finitely many entries, as many as its vector.
    pub proof fn lemma_finite(&self)
        requires
            self.wf(),
        ensures
            self@.dom().finite(),
    {
    }

    pub fn new() -> (r: Self)
        ensures
            r.wf(),
            r@ == Map::<OperationKey, V>::empty(),
    {
        PendingRegistry { entries: Vec::new(), model: Ghost(Map::empty()) }
    }

    fn position(&self, key: &OperationKey) -> (r: Option<usize>)
        requires
            self.wf(),
        ensures
            match r {
                Some(i) => i < self.entries@.len() && self.entries@[i as int].0 == *key,
                None => !self@.contains_key(*key),
            },
    {
        let mut i: usize = 0;
        while i < self.entries.len()
            invariant
                self.wf(),
                i <= self.entries@.len(),
                forall|j: int| 0 <= j < i ==> self.entries@[j].0 != *key,
            decreases self.entries@.len() - i,
        {
            if self.entries[i].0 == *key {
                return Some(i);
            }
            i = i + 1;
        }
        None
    }

    /// Whether an operation with this key is outstanding.
    pub fn is_waiting_for(&self, key: &OperationKey) -> (r: bool)
        requires
            self.wf(),
        ensures
            r == self@.contains_key(*key),
    {
        self.position(key).is_some()
    }

    /// The number of outstanding operations.
    pub fn count(&self) -> (r: usize)
        requires
            self.wf(),
        ensures
            r == self@.len(),
    {
        self.entries.len()
    }

    /// Whether any operation is outstanding.
    pub fn has_pending(&self) -> (r: bool)
        requires
            self.wf(),
        ensures
            r == (self@.len() > 0),
    {
        self.entries.len() > 0
    }

    /// Stores `reply` under `key`, unless an entry for `key` is outstanding: that
    /// entry is then kept and `reply` comes back.
    pub fn register(&mut self, key: OperationKey, reply: V) -> (r: Registration<V>)
        requires
            old(self).wf(),
        ensures
            final(self).wf(),
            old(self)@.contains_key(key) ==> final(self)@ == old(self)@ && r == Registration::AlreadyInProgress(reply),
            !old(self)@.contains_key(key) ==> final(self)@ == old(self)@.insert(key, reply) && r is Registered,
    {
        if self.position(&key).is_some() {
            return Registration::AlreadyInProgress(reply);
        }
        let ghost old_model = self.model@;
        let ghost old_entries = self.entries@;
        self.model = Ghost(self.model@.insert(key, reply));
        self.entries.push((key, reply));
        proof {
            assert forall|k: OperationKey| #[trigger] self.model@.contains_key(k) implies
                exists|i: int| 0 <= i < self.entries@.len() && self.entries@[i].0 == k by {
                if k == key {
                    assert(self.entries@[old_entries.len() as int].0 == k);
                } else {
                    assert(old_model.contains_key(k));
                    let j = choose|j: int| 0 <= j < old_entries.len() && old_entries[j].0 == k;
                    assert(self.entries@[j] == old_entries[j]);
                }
            }
        }
        Registration::Registered
    }

    /// Removes the entry for `key` and hands its reply handle out, if there is one.
    pub fn take(&mut self, key: &OperationKey) -> (r: Option<V>)
        requires
            old(self).wf(),
        ensures
            final(self).wf(),
            final(self)@ == old(self)@.remove(*key),
            old(self)@.contains_key(*key) ==> r == Some(old(self)@[*key]),
            !old(self)@.contains_key(*key) ==> r is None,
    {
        match self.position(key) {
            None => None,
            Some(i) => {
                let ghost old_model = self.model@;
                let ghost old_entries = self.entries@;
                let (_, v) = self.entries.remove(i);
                self.model = Ghost(self.model@.remove(*key));
                proof {
                    assert forall|j: int| 0 <= j < self.entries@.len() implies {
                        &&& #[trigger] self.model@.contains_key(self.entries@[j].0)
                        &&& self.model@[self.entries@[j].0] == self.entries@[j].1
                    } by {
                        if j < i {
                            assert(self.entries@[j] == old_entries[j]);
                        } else {
                            assert(self.entries@[j] == old_entries[j + 1]);
                        }
                    }
                    assert forall|k: OperationKey| #[trigger] self.model@.contains_key(k) implies
                        exists|j: int| 0 <= j < self.entries@.len() && self.entries@[j].0 == k by {
                        assert(old_model.contains_key(k));
                        let j = choose|j: int| 0 <= j < old_entries.len() && old_entries[j].0 == k;
                        if j < i {
                            assert(self.entries@[j].0 == k);
                        } else {
                            assert(self.entries@[j - 1].0 == k);
                        }
                    }
                }
                Some(v)
            },
        }
    }

    /// Drops the entry for `key`; says whether there was one.
    pub fn cancel(&mut self, key: &OperationKey) -> (r: bool)
        requires
            old(self).wf(),
        ensures
            final(self).wf(),
            final(self)@ == old(self)@.remove(*key),
            r == old(self)@.contains_key(*key),
    {
        self.take(key).is_some()
    }

    /// Removes every entry and hands them all out, each key once.
    pub fn drain(&mut self) -> (r: Vec<(OperationKey, V)>)
        requires
            old(self).wf(),
        ensures
            final(self).wf(),
            final(self)@ == Map::<OperationKey, V>::empty(),
            r@.len() == old(self)@.len(),
            forall|i: int| 0 <= i < r@.len() ==> {
                &&& #[trigger] old(self)@.contains_key(r@[i].0)
                &&& old(self)@[r@[i].0] == r@[i].1
            },
            forall|k: OperationKey| #[trigger] old(self)@.contains_key(k) ==>
                exists|i: int| 0 <= i < r@.len() && r@[i].0 == k,
            forall|i: int, j: int| 0 <= i < j < r@.len() ==> r@[i].0 != r@[j].0,
    {
        let mut r: Vec<(OperationKey, V)> = Vec::new();
        std::mem::swap(&mut r, &mut self.entries);
        proof {
            let m = old(self)@;
            assert(r@ == old(self).entries@);
            assert forall|i: int| 0 <= i < r@.len() implies {
                &&& #[trigger] m.contains_key(r@[i].0)
                &&& m[r@[i].0] == r@[i].1
            } by {
                assert(old(self).model@.contains_key(old(self).entries@[i].0));
            }
        }
        self.model = Ghost(Map::empty());
        r
    }
}

/// Once an entry has been resolved (taken, cancelled or drained), a second
/// attempt to resolve it finds nothing: a reply handle is handed out at most once.
pub proof fn lemma_resolved_at_most_once<V>(reg: PendingRegistry<V>, key: OperationKey)
    ensures
        !reg@.remove(key).contains_key(key),
        reg@.remove(key).remove(key) == reg@.remove(key),
        !Map::<OperationKey, V>::empty().contains_key(key),
{
    assert(reg@.remove(key).remove(key) =~= reg@.remove(key));
}

/// The pending add-service operations of the peripheral role, one per service.
pub struct ServiceResolver<V> {
    pending: PendingRegistry<V>,
}

impl<V> View for ServiceResolver<V> {
    type V = Map<OperationKey, V>;

    closed spec fn view(&self) -> Map<OperationKey, V> {
        self.pending@
    }
}

/// The key under which the addition of `service` waits.
pub open spec fn service_key(service: u128) -> OperationKey {
    OperationKey::AddService { service }
}

impl<V> ServiceResolver<V> {
    pub closed spec fn wf(&self) -> bool {
        self.pending.wf()
    }

    /// A well-formed resolver holds finitely many waits.
    pub proof fn lemma_finite(&self)
        requires
            self.wf(),
        ensures
            self@.dom().finite(),
    {
    }

    pub fn new() -> (r: Self)
        ensures
            r.wf(),
            r@ == Map::<OperationKey, V>::empty(),
    {
        ServiceResolver { pending: PendingRegistry::new() }
    }

    pub fn is_waiting_for(&self, service_uuid: u128) -> (r: bool)
        requires
            self.wf(),
        ensures
            r == self@.contains_key(service_key(service_uuid)),
    {
        self.pending.is_waiting_for(&OperationKey::AddService { service: service_uuid })
    }

    pub fn has_pending(&self) -> (r: bool)
        requires
            self.wf(),
        ensures
            r == (self@.len() > 0),
    {
        self.pending.has_pending()
    }

    pub fn register(&mut self, service_uuid: u128, sender: V) -> (r: Registration<V>)
        requires
            old(self).wf(),
        ensures
            final(self).wf(),
            old(self)@.contains_key(service_key(service_uuid)) ==> final(self)@ == old(self)@
                && r == Registration::AlreadyInProgress(sender),
            !old(self)@.contains_key(service_key(service_uuid)) ==> final(self)@ == old(
                self,
            )@.insert(service_key(service_uuid), sender) && r is Registered,
    {
        self.pending.register(OperationKey::AddService { service: service_uuid }, sender)
    }

    pub fn take(&mut self, service_uuid: u128) -> (r: Option<V>)
        requires
            old(self).wf(),
        ensures
            final(self).wf(),
            final(self)@ == old(self)@.remove(service_key(service_uuid)),
            old(self)@.contains_key(service_key(service_uuid)) ==> r == Some(
                old(self)@[service_key(service_uuid)],
            ),
            !old(self)@.contains_key(service_key(service_uuid)) ==> r is None,
    {
        self.pending.take(&OperationKey::AddService { service: service_uuid })
    }

    pub fn cancel(&mut self, service_uuid: u128) -> (r: bool)
        requires
            old(self).wf(),
        ensures
            final(self).wf(),
            final(self)@ == old(self)@.remove(service_key(service_uuid)),
            r == old(self)@.contains_key(service_key(service_uuid)),
    {
        self.pending.cancel(&OperationKey::AddService { service: service_uuid })
    }

    pub fn count(&self) -> (r: usize)
        requires
            self.wf(),
        ensures
            r == self@.len(),
    {
        self.pending.count()
    }
}

impl<V> Default for ServiceResolver<V> {
    fn default() -> (r: Self)
        ensures
            r.wf(),
            r@ == Map::<OperationKey, V>::empty(),
    {
        ServiceResolver::new()
    }
}

/// The single pending start-advertising operation of the peripheral role.
pub struct AdvertisementResolver<V> {
    pending: Option<V>,
}

impl<V> View for AdvertisementResolver<V> {
    type V = Option<V>;

    closed spec fn view(&self) -> Option<V> {
        self.pending
    }
}

impl<V> AdvertisementResolver<V> {
    pub fn new() -> (r: Self)
        ensures
            r@ is None,
    {
        AdvertisementResolver { pending: None }
    }

    pub fn is_waiting(&self) -> (r: bool)
        ensures
            r == self@ is Some,
    {
        self.pending.is_some()
    }

    /// Stores `sender` unless a start is already awaited: that one is kept and
    /// `sender` comes back.
    pub fn register(&mut self, sender: V) -> (r: Registration<V>)
        ensures
            old(self)@ is Some ==> final(self)@ == old(self)@ && r == Registration::AlreadyInProgress(sender),
            old(self)@ is None ==> final(self)@ == Some(sender) && r is Registered,
    {
        if self.pending.is_some() {
            return Registration::AlreadyInProgress(sender);
        }
        self.pending = Some(sender);
        Registration::Registered
    }

    pub fn take(&mut self) -> (r: Option<V>)
        ensures
            r == old(self)@,
            final(self)@ is None,
    {
        self.pending.take()
    }

    pub fn cancel(&mut self) -> (r: bool)
        ensures
            r == old(self)@ is Some,
            final(self)@ is None,
    {
        self.take().is_some()
    }
}

} // verus!
