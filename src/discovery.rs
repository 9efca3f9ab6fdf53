use vstd::prelude::*;
use crate::gatt::{copy_values, copy_descriptors, Characteristic, CharacteristicModel, Descriptor, DescriptorModel, Service, ServiceModel};

verus! {

/// The elements of `s` whose key has not occurred earlier in `s`, in order: the
/// first occurrence of each key wins.
pub open spec fn dedup_first<A>(s: Seq<A>, key: spec_fn(A) -> u128) -> Seq<A>
    decreases s.len(),
{
    if s.len() == 0 {
        Seq::empty()
    } else {
        let p = dedup_first(s.drop_last(), key);
        if exists|k: int| 0 <= k < p.len() && key(p[k]) == key(s.last()) {
            p
        } else {
            p.push(s.last())
        }
    }
}

pub open spec fn by_characteristic_uuid() -> spec_fn(CharacteristicModel) -> u128 {
    |c: CharacteristicModel| c.uuid
}

pub open spec fn by_service_uuid() -> spec_fn(ServiceModel) -> u128 {
    |s: ServiceModel| s.uuid
}

/// One service as the cache knows it: whether its characteristic list has been
/// received, and for each characteristic whether its descriptor list has.
pub struct ServiceEntry {
    pub uuid: u128,
    pub primary: bool,
    pub characterized: bool,
    pub characteristics: Seq<(CharacteristicModel, bool)>,
}

pub struct CacheModel {
    /// Whether a service list has been received since the cache was emptied.
    pub services_known: bool,
    pub services: Seq<ServiceEntry>,
}

/// The characteristics of a fresh list, deduplicated, none of them with a known
/// descriptor list yet.
pub open spec fn fresh_characteristics(cs: Seq<CharacteristicModel>) -> Seq<(CharacteristicModel, bool)> {
    dedup_first(cs, by_characteristic_uuid()).map_values(|c: CharacteristicModel| (c, false))
}

/// How a reported service enters the cache: a service that comes with no
/// characteristics is characterized at once.
pub open spec fn service_entry_of(s: ServiceModel) -> ServiceEntry {
    ServiceEntry {
        uuid: s.uuid,
        primary: s.primary,
        characterized: s.characteristics.len() == 0,
        characteristics: fresh_characteristics(s.characteristics),
    }
}

pub open spec fn empty_cache() -> CacheModel {
    CacheModel { services_known: false, services: Seq::empty() }
}

/// The cache after a service list `services` has been reported, the first of
/// each UUID kept.
pub open spec fn after_services(services: Seq<ServiceModel>) -> CacheModel {
    CacheModel {
        services_known: true,
        services: dedup_first(services, by_service_uuid()).map_values(|s: ServiceModel| service_entry_of(s)),
    }
}

/// Whether `i` is the position of the service `uuid`.
pub open spec fn is_service_at(m: CacheModel, uuid: u128, i: int) -> bool {
    0 <= i < m.services.len() && m.services[i].uuid == uuid
}

pub open spec fn has_service(m: CacheModel, uuid: u128) -> bool {
    exists|i: int| is_service_at(m, uuid, i)
}

pub open spec fn service_index(m: CacheModel, uuid: u128) -> int {
    choose|i: int| is_service_at(m, uuid, i)
}

/// Whether `j` is the position of the characteristic `uuid` within service `i`.
pub open spec fn is_characteristic_at(m: CacheModel, i: int, uuid: u128, j: int) -> bool {
    0 <= j < m.services[i].characteristics.len() && m.services[i].characteristics[j].0.uuid == uuid
}

pub open spec fn has_characteristic(m: CacheModel, service: u128, uuid: u128) -> bool {
    has_service(m, service) && exists|j: int|
        is_characteristic_at(m, service_index(m, service), uuid, j)
}

pub open spec fn characteristic_index(m: CacheModel, service: u128, uuid: u128) -> int {
    choose|j: int| is_characteristic_at(m, service_index(m, service), uuid, j)
}

/// The cache after the characteristic list `cs` has been reported for `service`;
/// unchanged where the service is unknown.
pub open spec fn after_characteristics(m: CacheModel, service: u128, cs: Seq<CharacteristicModel>) -> CacheModel {
    if has_service(m, service) {
        let i = service_index(m, service);
        CacheModel {
            services: m.services.update(
                i,
                ServiceEntry {
                    characterized: true,
                    characteristics: fresh_characteristics(cs),
                    ..m.services[i]
                },
            ),
            ..m
        }
    } else {
        m
    }
}

/// The characteristic `c` with the descriptor list `ds` recorded.
pub open spec fn with_descriptors(c: CharacteristicModel, ds: Seq<DescriptorModel>) -> CharacteristicModel {
    CharacteristicModel { descriptors: ds, ..c }
}

/// The cache after the descriptor list `ds` has been reported for one
/// characteristic; unchanged where the characteristic is unknown.
pub open spec fn after_descriptors(
    m: CacheModel,
    service: u128,
    characteristic: u128,
    ds: Seq<DescriptorModel>,
) -> CacheModel {
    if has_characteristic(m, service, characteristic) {
        let i = service_index(m, service);
        let j = characteristic_index(m, service, characteristic);
        let cs = m.services[i].characteristics;
        CacheModel {
            services: m.services.update(
                i,
                ServiceEntry {
                    characteristics: cs.update(j, (with_descriptors(cs[j].0, ds), true)),
                    ..m.services[i]
                },
            ),
            ..m
        }
    } else {
        m
    }
}

/// The characteristic `c` with `v` as its last known value.
pub open spec fn with_value(c: CharacteristicModel, v: Seq<u8>) -> CharacteristicModel {
    CharacteristicModel { value: Some(v), ..c }
}

/// The cache after a value `v` was read or notified for one characteristic;
/// unchanged where the characteristic is unknown.
pub open spec fn after_value(m: CacheModel, service: u128, characteristic: u128, v: Seq<u8>) -> CacheModel {
    if has_characteristic(m, service, characteristic) {
        let i = service_index(m, service);
        let j = characteristic_index(m, service, characteristic);
        let cs = m.services[i].characteristics;
        CacheModel {
            services: m.services.update(
                i,
                ServiceEntry { characteristics: cs.update(j, (with_value(cs[j].0, v), cs[j].1)), ..m.services[i] },
            ),
            ..m
        }
    } else {
        m
    }
}

/// A service is discovered when its characteristics are known and so are the
/// descriptors of each of them.
pub open spec fn service_discovered(s: ServiceEntry) -> bool {
    s.characterized && forall|j: int| 0 <= j < s.characteristics.len() ==> #[trigger] s.characteristics[j].1
}

pub open spec fn fully_discovered(m: CacheModel) -> bool {
    m.services_known && forall|i: int| 0 <= i < m.services.len() ==> #[trigger] service_discovered(m.services[i])
}

/// The service tree that a caller sees.
pub open spec fn tree_of(m: CacheModel) -> Seq<ServiceModel> {
    m.services.map_values(
        |s: ServiceEntry|
            ServiceModel {
                uuid: s.uuid,
                primary: s.primary,
                characteristics: s.characteristics.map_values(|e: (CharacteristicModel, bool)| e.0),
            },
    )
}

/// Whether the characteristic at `service`/`characteristic` lists a descriptor `descriptor`.
pub open spec fn has_descriptor(m: CacheModel, service: u128, characteristic: u128, descriptor: u128) -> bool {
    has_characteristic(m, service, characteristic) && exists|k: int|
        0 <= k < m.services[service_index(m, service)].characteristics[characteristic_index(
            m,
            service,
            characteristic,
        )].0.descriptors.len() && m.services[service_index(m, service)].characteristics[characteristic_index(
            m,
            service,
            characteristic,
        )].0.descriptors[k].uuid == descriptor
}

/// No two services share a UUID, nor two characteristics of one service.
pub open spec fn unique_uuids(m: CacheModel) -> bool {
    &&& forall|a: int, b: int|
        0 <= a < b < m.services.len() ==> m.services[a].uuid != m.services[b].uuid
    &&& forall|i: int, a: int, b: int|
        0 <= i < m.services.len() && 0 <= a < b < m.services[i].characteristics.len()
            ==> m.services[i].characteristics[a].0.uuid != m.services[i].characteristics[b].0.uuid
}

/// Recording a value changes no flag of discovery.
pub proof fn lemma_value_keeps_discovery(m: CacheModel, service: u128, characteristic: u128, v: Seq<u8>)
    ensures
        fully_discovered(after_value(m, service, characteristic, v)) == fully_discovered(m),
        after_value(m, service, characteristic, v).services_known == m.services_known,
{
    if has_characteristic(m, service, characteristic) {
        let m1 = after_value(m, service, characteristic, v);
        let i = service_index(m, service);
        let j = characteristic_index(m, service, characteristic);
        assert forall|k: int| 0 <= k < m.services.len() implies #[trigger] service_discovered(m1.services[k])
            == service_discovered(m.services[k]) by {
            if k == i {
                let a = m1.services[k].characteristics;
                let b = m.services[k].characteristics;
                assert(a.len() == b.len());
                assert(m1.services[k].characterized == m.services[k].characterized);
                assert forall|x: int| 0 <= x < a.len() implies #[trigger] a[x].1 == b[x].1 by {
                    if x == j {
                    }
                }
                if service_discovered(m.services[k]) {
                    assert forall|x: int| 0 <= x < a.len() implies #[trigger] a[x].1 by {
                        assert(b[x].1);
                    }
                }
                if service_discovered(m1.services[k]) {
                    assert forall|x: int| 0 <= x < b.len() implies #[trigger] b[x].1 by {
                        assert(a[x].1);
                    }
                }
            } else {
                assert(m1.services[k] == m.services[k]);
            }
        }
        if fully_discovered(m) {
            assert forall|k: int| 0 <= k < m1.services.len() implies #[trigger] service_discovered(m1.services[k]) by {
                assert(service_discovered(m.services[k]));
            }
        }
        if fully_discovered(m1) {
            assert forall|k: int| 0 <= k < m.services.len() implies #[trigger] service_discovered(m.services[k]) by {
                assert(service_discovered(m1.services[k]));
            }
        }
    }
}

/// Reporting the same characteristic list for a service twice leaves the cache
/// as reporting it once.
pub proof fn lemma_characteristics_idempotent(m: CacheModel, service: u128, cs: Seq<CharacteristicModel>)
    requires
        unique_uuids(m),
    ensures
        after_characteristics(after_characteristics(m, service, cs), service, cs) == after_characteristics(
            m,
            service,
            cs,
        ),
{
    if has_service(m, service) {
        let i = service_index(m, service);
        let m1 = after_characteristics(m, service, cs);
        assert(is_service_at(m1, service, i));
        let i1 = service_index(m1, service);
        assert(is_service_at(m1, service, i1));
        if i1 != i {
            assert(m.services[i1].uuid == m1.services[i1].uuid);
            assert(m.services[i1].uuid == m.services[i].uuid);
            assert(false);
        }
        let m2 = after_characteristics(m1, service, cs);
        assert(m2.services =~= m1.services);
    }
}

/// Reporting the same descriptor list for a characteristic twice leaves the
/// cache as reporting it once.
pub proof fn lemma_descriptors_idempotent(
    m: CacheModel,
    service: u128,
    characteristic: u128,
    ds: Seq<DescriptorModel>,
)
    requires
        unique_uuids(m),
    ensures
        after_descriptors(after_descriptors(m, service, characteristic, ds), service, characteristic, ds)
            == after_descriptors(m, service, characteristic, ds),
{
    if has_characteristic(m, service, characteristic) {
        let i = service_index(m, service);
        let j = characteristic_index(m, service, characteristic);
        let m1 = after_descriptors(m, service, characteristic, ds);
        assert(is_service_at(m1, service, i));
        let i1 = service_index(m1, service);
        assert(is_service_at(m1, service, i1));
        if i1 != i {
            assert(m.services[i1].uuid == m1.services[i1].uuid);
            assert(m.services[i1].uuid == m.services[i].uuid);
            assert(false);
        }
        assert(is_characteristic_at(m1, i, characteristic, j));
        let j1 = characteristic_index(m1, service, characteristic);
        assert(is_characteristic_at(m1, i, characteristic, j1));
        if j1 != j {
            assert(m.services[i].characteristics[j1].0.uuid == m1.services[i].characteristics[j1].0.uuid);
            assert(false);
        }
        let m2 = after_descriptors(m1, service, characteristic, ds);
        assert(m2.services[i].characteristics =~= m1.services[i].characteristics);
        assert(m2.services =~= m1.services);
    }
}

struct CachedCharacteristic {
    characteristic: Characteristic,
    descriptors_known: bool,
}

impl View for CachedCharacteristic {
    type V = (CharacteristicModel, bool);

    closed spec fn view(&self) -> (CharacteristicModel, bool) {
        (self.characteristic@, self.descriptors_known)
    }
}

struct CachedService {
    uuid: u128,
    primary: bool,
    characterized: bool,
    characteristics: Vec<CachedCharacteristic>,
}

impl View for CachedService {
    type V = ServiceEntry;

    closed spec fn view(&self) -> ServiceEntry {
        ServiceEntry {
            uuid: self.uuid,
            primary: self.primary,
            characterized: self.characterized,
            characteristics: self.characteristics@.map_values(|e: CachedCharacteristic| e@),
        }
    }
}

/// The hierarchical store of what one connection has discovered.
pub struct DiscoveryCache {
    services_known: bool,
    services: Vec<CachedService>,
}

impl View for DiscoveryCache {
    type V = CacheModel;

    closed spec fn view(&self) -> CacheModel {
        CacheModel {
            services_known: self.services_known,
            services: self.services@.map_values(|s: CachedService| s@),
        }
    }
}

/// Keys are unique after deduplication.
pub proof fn lemma_dedup_unique<A>(s: Seq<A>, key: spec_fn(A) -> u128)
    ensures
        forall|a: int, b: int|
            0 <= a < b < dedup_first(s, key).len() ==> key(dedup_first(s, key)[a]) != key(
                dedup_first(s, key)[b],
            ),
    decreases s.len(),
{
    if s.len() > 0 {
        lemma_dedup_unique(s.drop_last(), key);
        let p = dedup_first(s.drop_last(), key);
        if !(exists|k: int| 0 <= k < p.len() && key(p[k]) == key(s.last())) {
            let d = p.push(s.last());
            assert(dedup_first(s, key) == d);
            assert forall|a: int, b: int| 0 <= a < b < d.len() implies key(d[a]) != key(d[b]) by {
                if b == p.len() {
                    assert(d[a] == p[a]);
                } else {
                    assert(d[a] == p[a] && d[b] == p[b]);
                }
            }
        }
    }
}

fn contains_characteristic(v: &Vec<CachedCharacteristic>, uuid: u128) -> (r: bool)
    ensures
        r == exists|k: int| 0 <= k < v@.len() && v@[k].characteristic.uuid == uuid,
{
    let mut i: usize = 0;
    while i < v.len()
        invariant
            i <= v@.len(),
            forall|k: int| 0 <= k < i ==> v@[k].characteristic.uuid != uuid,
        decreases v@.len() - i,
    {
        if v[i].characteristic.uuid == uuid {
            return true;
        }
        i = i + 1;
    }
    false
}

/// The characteristics of `cs` in cache form, the first of each UUID kept.
fn fresh_entries(cs: &Vec<Characteristic>) -> (r: Vec<CachedCharacteristic>)
    ensures
        r@.map_values(|e: CachedCharacteristic| e@) == fresh_characteristics(
            cs@.map_values(|c: Characteristic| c@),
        ),
{
    let ghost m = cs@.map_values(|c: Characteristic| c@);
    let mut r: Vec<CachedCharacteristic> = Vec::new();
    let mut i: usize = 0;
    assert(m.subrange(0, 0) =~= Seq::<CharacteristicModel>::empty());
    assert(r@.map_values(|e: CachedCharacteristic| e@) =~= fresh_characteristics(m.subrange(0, 0)));
    while i < cs.len()
        invariant
            i <= cs@.len(),
            m == cs@.map_values(|c: Characteristic| c@),
            r@.map_values(|e: CachedCharacteristic| e@) == fresh_characteristics(m.subrange(0, i as int)),
        decreases cs@.len() - i,
    {
        let ghost prev = dedup_first(m.subrange(0, i as int), by_characteristic_uuid());
        let ghost next = m.subrange(0, i as int + 1);
        assert(next.drop_last() =~= m.subrange(0, i as int));
        assert(next.last() == cs@[i as int]@);
        let seen = contains_characteristic(&r, cs[i].uuid);
        proof {
            assert(r@.map_values(|e: CachedCharacteristic| e@).len() == r@.len());
            assert(prev.map_values(|c: CharacteristicModel| (c, false)).len() == prev.len());
            assert(r@.len() == prev.len());
            assert forall|k: int| 0 <= k < r@.len() implies r@[k].characteristic.uuid == prev[k].uuid by {
                assert(r@.map_values(|e: CachedCharacteristic| e@)[k] == prev.map_values(
                    |c: CharacteristicModel| (c, false),
                )[k]);
            }
            if seen {
                let k = choose|k: int| 0 <= k < r@.len() && r@[k].characteristic.uuid == cs@[i as int].uuid;
                assert(by_characteristic_uuid()(prev[k]) == by_characteristic_uuid()(next.last()));
            } else {
                assert forall|k: int| 0 <= k < prev.len() implies by_characteristic_uuid()(prev[k])
                    != by_characteristic_uuid()(next.last()) by {
                    assert(r@[k].characteristic.uuid == prev[k].uuid);
                }
            }
        }
        if !seen {
            let ghost before = r@;
            let entry = CachedCharacteristic { characteristic: cs[i].snapshot(), descriptors_known: false };
            assert(entry@ == (next.last(), false));
            r.push(entry);
            assert(dedup_first(next, by_characteristic_uuid()) == prev.push(next.last()));
            assert(r@ == before.push(entry));
            assert forall|k: int| 0 <= k < r@.len() implies r@.map_values(|e: CachedCharacteristic| e@)[k]
                == fresh_characteristics(next)[k] by {
                if k < before.len() {
                    assert(r@[k] == before[k]);
                    assert(before.map_values(|e: CachedCharacteristic| e@)[k] == prev.map_values(
                        |c: CharacteristicModel| (c, false),
                    )[k]);
                }
            }
            assert(r@.map_values(|e: CachedCharacteristic| e@) =~= fresh_characteristics(next));
        } else {
            assert(r@.map_values(|e: CachedCharacteristic| e@) =~= fresh_characteristics(next));
        }
        i = i + 1;
    }
    assert(m.subrange(0, i as int) =~= m);
    r
}

/// Cache entries are unique after a fresh characteristic list.
proof fn lemma_fresh_unique(cs: Seq<CharacteristicModel>)
    ensures
        forall|a: int, b: int|
            0 <= a < b < fresh_characteristics(cs).len() ==> fresh_characteristics(cs)[a].0.uuid
                != fresh_characteristics(cs)[b].0.uuid,
{
    lemma_dedup_unique(cs, by_characteristic_uuid());
    let d = dedup_first(cs, by_characteristic_uuid());
    assert forall|a: int, b: int| 0 <= a < b < fresh_characteristics(cs).len() implies fresh_characteristics(
        cs,
    )[a].0.uuid != fresh_characteristics(cs)[b].0.uuid by {
        assert(by_characteristic_uuid()(d[a]) != by_characteristic_uuid()(d[b]));
    }
}

fn entry_of(s: &Service) -> (r: CachedService)
    ensures
        r@ == service_entry_of(s@),
{
    let characteristics = fresh_entries(&s.characteristics);
    let r = CachedService {
        uuid: s.uuid,
        primary: s.primary,
        characterized: s.characteristics.len() == 0,
        characteristics,
    };
    r
}

fn contains_service(v: &Vec<CachedService>, uuid: u128) -> (r: bool)
    ensures
        r == exists|k: int| 0 <= k < v@.len() && v@[k].uuid == uuid,
{
    let mut i: usize = 0;
    while i < v.len()
        invariant
            i <= v@.len(),
            forall|k: int| 0 <= k < i ==> v@[k].uuid != uuid,
        decreases v@.len() - i,
    {
        if v[i].uuid == uuid {
            return true;
        }
        i = i + 1;
    }
    false
}

/// The services of `ss` in cache form, the first of each UUID kept.
fn service_entries(ss: &Vec<Service>) -> (r: Vec<CachedService>)
    ensures
        r@.map_values(|e: CachedService| e@) == dedup_first(ss@.map_values(|s: Service| s@), by_service_uuid()).map_values(
            |s: ServiceModel| service_entry_of(s),
        ),
{
    let ghost m = ss@.map_values(|s: Service| s@);
    let mut r: Vec<CachedService> = Vec::new();
    let mut i: usize = 0;
    assert(m.subrange(0, 0) =~= Seq::<ServiceModel>::empty());
    assert(r@.map_values(|e: CachedService| e@) =~= dedup_first(m.subrange(0, 0), by_service_uuid()).map_values(
        |s: ServiceModel| service_entry_of(s),
    ));
    while i < ss.len()
        invariant
            i <= ss@.len(),
            m == ss@.map_values(|s: Service| s@),
            r@.map_values(|e: CachedService| e@) == dedup_first(m.subrange(0, i as int), by_service_uuid()).map_values(
                |s: ServiceModel| service_entry_of(s),
            ),
        decreases ss@.len() - i,
    {
        let ghost prev = dedup_first(m.subrange(0, i as int), by_service_uuid());
        let ghost next = m.subrange(0, i as int + 1);
        assert(next.drop_last() =~= m.subrange(0, i as int));
        assert(next.last() == ss@[i as int]@);
        let seen = contains_service(&r, ss[i].uuid);
        proof {
            assert(r@.map_values(|e: CachedService| e@).len() == r@.len());
            assert(prev.map_values(|s: ServiceModel| service_entry_of(s)).len() == prev.len());
            assert forall|k: int| 0 <= k < r@.len() implies r@[k].uuid == prev[k].uuid by {
                assert(r@.map_values(|e: CachedService| e@)[k] == prev.map_values(
                    |s: ServiceModel| service_entry_of(s),
                )[k]);
            }
            if seen {
                let k = choose|k: int| 0 <= k < r@.len() && r@[k].uuid == ss@[i as int].uuid;
                assert(by_service_uuid()(prev[k]) == by_service_uuid()(next.last()));
            } else {
                assert forall|k: int| 0 <= k < prev.len() implies by_service_uuid()(prev[k])
                    != by_service_uuid()(next.last()) by {
                    assert(r@[k].uuid == prev[k].uuid);
                }
            }
        }
        if !seen {
            let ghost before = r@;
            let entry = entry_of(&ss[i]);
            r.push(entry);
            assert(dedup_first(next, by_service_uuid()) == prev.push(next.last()));
            assert forall|k: int| 0 <= k < r@.len() implies (#[trigger] r@[k])@
                == service_entry_of(dedup_first(next, by_service_uuid())[k]) by {
                if k < before.len() {
                    assert(r@[k] == before[k]);
                    assert(before.map_values(|e: CachedService| e@)[k] == prev.map_values(
                        |s: ServiceModel| service_entry_of(s),
                    )[k]);
                }
            }
            assert(r@.map_values(|e: CachedService| e@) =~= dedup_first(next, by_service_uuid()).map_values(
                |s: ServiceModel| service_entry_of(s),
            ));
        } else {
            assert(r@.map_values(|e: CachedService| e@) =~= dedup_first(next, by_service_uuid()).map_values(
                |s: ServiceModel| service_entry_of(s),
            ));
        }
        i = i + 1;
    }
    assert(m.subrange(0, i as int) =~= m);
    r
}

impl DiscoveryCache {
    /// Service UUIDs are unique, and so are characteristic UUIDs within a service.
    pub open spec fn wf(&self) -> bool {
        unique_uuids(self@)
    }

    /// An empty cache, before any service list.
    pub fn new() -> (r: Self)
        ensures
            r.wf(),
            r@ == empty_cache(),
    {
        let r = DiscoveryCache { services_known: false, services: Vec::new() };
        assert(r@.services =~= Seq::<ServiceEntry>::empty());
        r
    }

    /// Forgets everything, as after a disconnect.
    pub fn clear(&mut self)
        ensures
            final(self).wf(),
            final(self)@ == empty_cache(),
    {
        self.services_known = false;
        self.services = Vec::new();
        assert(self@.services =~= Seq::<ServiceEntry>::empty());
    }

    /// Records a service list in place of what was known, the first of each UUID
    /// kept; a service that comes with no characteristics is characterized at
    /// once. Gives the UUIDs of the recorded services, each of which is to be
    /// asked for its characteristics.
    pub fn set_services(&mut self, services: &Vec<Service>) -> (r: Vec<u128>)
        ensures
            final(self).wf(),
            final(self)@ == after_services(services@.map_values(|s: Service| s@)),
            r@ == final(self)@.services.map_values(|e: ServiceEntry| e.uuid),
    {
        let entries = service_entries(services);
        self.services = entries;
        self.services_known = true;
        let ghost m = services@.map_values(|s: Service| s@);
        assert(self@.services =~= after_services(m).services);
        proof {
            lemma_dedup_unique(m, by_service_uuid());
            let d = dedup_first(m, by_service_uuid());
            assert forall|i: int, a: int, b: int|
                0 <= i < self@.services.len() && 0 <= a < b < self@.services[i].characteristics.len()
                    implies self@.services[i].characteristics[a].0.uuid
                    != self@.services[i].characteristics[b].0.uuid by {
                lemma_fresh_unique(d[i].characteristics);
            }
            assert forall|a: int, b: int| 0 <= a < b < self@.services.len() implies self@.services[a].uuid
                != self@.services[b].uuid by {
                assert(by_service_uuid()(d[a]) != by_service_uuid()(d[b]));
            }
        }
        let mut r: Vec<u128> = Vec::new();
        let mut i: usize = 0;
        while i < self.services.len()
            invariant
                i <= self.services@.len(),
                r@ == self@.services.map_values(|e: ServiceEntry| e.uuid).subrange(0, i as int),
            decreases self.services@.len() - i,
        {
            r.push(self.services[i].uuid);
            i = i + 1;
            assert(r@ =~= self@.services.map_values(|e: ServiceEntry| e.uuid).subrange(0, i as int));
        }
        assert(r@ =~= self@.services.map_values(|e: ServiceEntry| e.uuid));
        r
    }

    fn find_service(&self, uuid: u128) -> (r: Option<usize>)
        requires
            self.wf(),
        ensures
            r is None <==> !has_service(self@, uuid),
            r matches Some(i) ==> i == service_index(self@, uuid) && is_service_at(self@, uuid, i as int),
    {
        let mut i: usize = 0;
        while i < self.services.len()
            invariant
                self.wf(),
                i <= self.services@.len(),
                forall|k: int| 0 <= k < i ==> self@.services[k].uuid != uuid,
            decreases self.services@.len() - i,
        {
            if self.services[i].uuid == uuid {
                proof {
                    assert(is_service_at(self@, uuid, i as int));
                    let j = service_index(self@, uuid);
                    assert(is_service_at(self@, uuid, j));
                    if j != i {
                        assert(self@.services[j].uuid == self@.services[i as int].uuid);
                        assert(false);
                    }
                }
                return Some(i);
            }
            i = i + 1;
        }
        None
    }

    /// Records the characteristic list reported for `service_uuid` in place of
    /// the one known, the first of each UUID kept, and marks the service
    /// characterized. Gives the UUIDs of the recorded characteristics, each of
    /// which is to be asked for its descriptors; `None`, with nothing changed,
    /// where the service is unknown.
    pub fn set_characteristics(&mut self, service_uuid: u128, characteristics: &Vec<Characteristic>) -> (r:
        Option<Vec<u128>>)
        requires
            old(self).wf(),
        ensures
            final(self).wf(),
            final(self)@ == after_characteristics(
                old(self)@,
                service_uuid,
                characteristics@.map_values(|c: Characteristic| c@),
            ),
            r is None <==> !has_service(old(self)@, service_uuid),
            r matches Some(v) ==> v@ == fresh_characteristics(
                characteristics@.map_values(|c: Characteristic| c@),
            ).map_values(|e: (CharacteristicModel, bool)| e.0.uuid),
    {
        match self.find_service(service_uuid) {
            None => None,
            Some(i) => {
                let ghost cs = characteristics@.map_values(|c: Characteristic| c@);
                let entries = fresh_entries(characteristics);
                let mut uuids: Vec<u128> = Vec::new();
                let mut k: usize = 0;
                while k < entries.len()
                    invariant
                        k <= entries@.len(),
                        uuids@.len() == k,
                        forall|x: int| 0 <= x < k ==> #[trigger] uuids@[x] == entries@[x].characteristic.uuid,
                    decreases entries@.len() - k,
                {
                    uuids.push(entries[k].characteristic.uuid);
                    k = k + 1;
                }
                proof {
                    assert forall|x: int| 0 <= x < uuids@.len() implies uuids@[x] == fresh_characteristics(
                        cs,
                    ).map_values(|e: (CharacteristicModel, bool)| e.0.uuid)[x] by {
                        assert(entries@.map_values(|e: CachedCharacteristic| e@)[x] == entries@[x]@);
                    }
                    assert(uuids@ =~= fresh_characteristics(cs).map_values(
                        |e: (CharacteristicModel, bool)| e.0.uuid,
                    ));
                }
                let updated = CachedService {
                    uuid: self.services[i].uuid,
                    primary: self.services[i].primary,
                    characterized: true,
                    characteristics: entries,
                };
                let ghost before = self@;
                self.services.set(i, updated);
                proof {
                    assert(self@.services =~= after_characteristics(before, service_uuid, cs).services);
                    lemma_fresh_unique(cs);
                    assert forall|a: int, b: int| 0 <= a < b < self@.services.len() implies self@.services[a].uuid
                        != self@.services[b].uuid by {
                        assert(self@.services[a].uuid == before.services[a].uuid);
                        assert(self@.services[b].uuid == before.services[b].uuid);
                    }
                    assert forall|s: int, a: int, b: int|
                        0 <= s < self@.services.len() && 0 <= a < b < self@.services[s].characteristics.len()
                            implies self@.services[s].characteristics[a].0.uuid
                            != self@.services[s].characteristics[b].0.uuid by {
                        if s != i {
                            assert(self@.services[s] == before.services[s]);
                        }
                    }
                }
                Some(uuids)
            },
        }
    }

    fn find_characteristic(&self, i: usize, uuid: u128) -> (r: Option<usize>)
        requires
            self.wf(),
            i < self@.services.len(),
        ensures
            r is None <==> !(exists|j: int| is_characteristic_at(self@, i as int, uuid, j)),
            r matches Some(j) ==> is_characteristic_at(self@, i as int, uuid, j as int) && forall|x: int|
                is_characteristic_at(self@, i as int, uuid, x) ==> x == j,
    {
        let ghost cs = self@.services[i as int].characteristics;
        let mut j: usize = 0;
        while j < self.services[i].characteristics.len()
            invariant
                self.wf(),
                i < self@.services.len(),
                cs == self@.services[i as int].characteristics,
                j <= cs.len(),
                forall|k: int| 0 <= k < j ==> cs[k].0.uuid != uuid,
            decreases cs.len() - j,
        {
            assert(self.services@[i as int].characteristics@.map_values(|e: CachedCharacteristic| e@)[j as int]
                == self.services@[i as int].characteristics@[j as int]@);
            if self.services[i].characteristics[j].characteristic.uuid == uuid {
                proof {
                    assert(cs[j as int].0.uuid == uuid);
                    assert(is_characteristic_at(self@, i as int, uuid, j as int));
                    assert forall|x: int| is_characteristic_at(self@, i as int, uuid, x) implies x == j by {
                        if x != j {
                            assert(cs[x].0.uuid == cs[j as int].0.uuid);
                        }
                    }
                }
                return Some(j);
            }
            j = j + 1;
        }
        None
    }

    /// Records the descriptor list reported for one characteristic and marks its
    /// descriptors known. Says whether the characteristic was found; where it was
    /// not, nothing changes.
    pub fn set_descriptors(
        &mut self,
        service_uuid: u128,
        characteristic_uuid: u128,
        descriptors: &Vec<Descriptor>,
    ) -> (r: bool)
        requires
            old(self).wf(),
        ensures
            final(self).wf(),
            final(self)@ == after_descriptors(
                old(self)@,
                service_uuid,
                characteristic_uuid,
                descriptors@.map_values(|d: Descriptor| d@),
            ),
            r == has_characteristic(old(self)@, service_uuid, characteristic_uuid),
    {
        let i = match self.find_service(service_uuid) {
            None => return false,
            Some(i) => i,
        };
        let j = match self.find_characteristic(i, characteristic_uuid) {
            None => return false,
            Some(j) => j,
        };
        let ghost before = self@;
        let ghost ds = descriptors@.map_values(|d: Descriptor| d@);
        proof {
            assert(characteristic_index(before, service_uuid, characteristic_uuid) == j);
        }
        let copies = copy_descriptors(descriptors);
        let mut service = self.services.remove(i);
        let ghost svc_before = service@;
        let mut entry = service.characteristics.remove(j);
        entry.characteristic.descriptors = copies;
        entry.descriptors_known = true;
        service.characteristics.insert(j, entry);
        assert(service@.characteristics =~= svc_before.characteristics.update(
            j as int,
            (with_descriptors(svc_before.characteristics[j as int].0, ds), true),
        ));
        self.services.insert(i, service);
        proof {
            assert(self@.services =~= after_descriptors(before, service_uuid, characteristic_uuid, ds).services);
            assert forall|a: int, b: int| 0 <= a < b < self@.services.len() implies self@.services[a].uuid
                != self@.services[b].uuid by {
                assert(self@.services[a].uuid == before.services[a].uuid);
                assert(self@.services[b].uuid == before.services[b].uuid);
            }
            assert forall|s: int, a: int, b: int|
                0 <= s < self@.services.len() && 0 <= a < b < self@.services[s].characteristics.len()
                    implies self@.services[s].characteristics[a].0.uuid
                    != self@.services[s].characteristics[b].0.uuid by {
                if s != i {
                    assert(self@.services[s] == before.services[s]);
                } else {
                    assert(self@.services[s].characteristics[a].0.uuid == before.services[s].characteristics[a].0.uuid);
                    assert(self@.services[s].characteristics[b].0.uuid == before.services[s].characteristics[b].0.uuid);
                }
            }
        }
        true
    }


    /// Records `value` as the last known value of one characteristic. Says
    /// whether the characteristic was found; where it was not, nothing changes.
    pub fn set_value(&mut self, service_uuid: u128, characteristic_uuid: u128, value: &Vec<u8>) -> (r: bool)
        requires
            old(self).wf(),
        ensures
            final(self).wf(),
            final(self)@ == after_value(old(self)@, service_uuid, characteristic_uuid, value@),
            r == has_characteristic(old(self)@, service_uuid, characteristic_uuid),
    {
        let i = match self.find_service(service_uuid) {
            None => return false,
            Some(i) => i,
        };
        let j = match self.find_characteristic(i, characteristic_uuid) {
            None => return false,
            Some(j) => j,
        };
        let ghost before = self@;
        proof {
            assert(characteristic_index(before, service_uuid, characteristic_uuid) == j);
        }
        let copy = copy_values(value);
        let mut service = self.services.remove(i);
        let ghost svc_before = service@;
        let mut entry = service.characteristics.remove(j);
        entry.characteristic.value = Some(copy);
        service.characteristics.insert(j, entry);
        assert(service@.characteristics =~= svc_before.characteristics.update(
            j as int,
            (with_value(svc_before.characteristics[j as int].0, value@), svc_before.characteristics[j as int].1),
        ));
        self.services.insert(i, service);
        proof {
            assert(self@.services =~= after_value(before, service_uuid, characteristic_uuid, value@).services);
            assert forall|a: int, b: int| 0 <= a < b < self@.services.len() implies self@.services[a].uuid
                != self@.services[b].uuid by {
                assert(self@.services[a].uuid == before.services[a].uuid);
                assert(self@.services[b].uuid == before.services[b].uuid);
            }
            assert forall|s: int, a: int, b: int|
                0 <= s < self@.services.len() && 0 <= a < b < self@.services[s].characteristics.len()
                    implies self@.services[s].characteristics[a].0.uuid
                    != self@.services[s].characteristics[b].0.uuid by {
                if s != i {
                    assert(self@.services[s] == before.services[s]);
                } else {
                    assert(self@.services[s].characteristics[a].0.uuid == before.services[s].characteristics[a].0.uuid);
                    assert(self@.services[s].characteristics[b].0.uuid == before.services[s].characteristics[b].0.uuid);
                }
            }
        }
        true
    }

    /// Whether every service has been characterized, with the descriptors of each
    /// of its characteristics, since a service list arrived.
    pub fn is_fully_discovered(&self) -> (r: bool)
        ensures
            r == fully_discovered(self@),
    {
        if !self.services_known {
            return false;
        }
        let mut i: usize = 0;
        while i < self.services.len()
            invariant
                self.services_known,
                i <= self@.services.len(),
                forall|k: int| 0 <= k < i ==> #[trigger] service_discovered(self@.services[k]),
            decreases self@.services.len() - i,
        {
            assert(self.services@.map_values(|e: CachedService| e@)[i as int] == self.services@[i as int]@);
            if !self.services[i].characterized {
                assert(!service_discovered(self@.services[i as int]));
                return false;
            }
            let ghost cs = self@.services[i as int].characteristics;
            let mut j: usize = 0;
            while j < self.services[i].characteristics.len()
                invariant
                    i < self@.services.len(),
                    cs == self@.services[i as int].characteristics,
                    j <= cs.len(),
                    forall|k: int| 0 <= k < j ==> #[trigger] cs[k].1,
                decreases cs.len() - j,
            {
                assert(self.services@[i as int].characteristics@.map_values(|e: CachedCharacteristic| e@)[j as int]
                    == self.services@[i as int].characteristics@[j as int]@);
                if !self.services[i].characteristics[j].descriptors_known {
                    assert(!cs[j as int].1);
                    assert(!service_discovered(self@.services[i as int]));
                    return false;
                }
                j = j + 1;
            }
            i = i + 1;
        }
        true
    }

    /// Whether the cache knows the characteristic `characteristic_uuid` of `service_uuid`.
    pub fn knows_characteristic(&self, service_uuid: u128, characteristic_uuid: u128) -> (r: bool)
        requires
            self.wf(),
        ensures
            r == has_characteristic(self@, service_uuid, characteristic_uuid),
    {
        match self.find_service(service_uuid) {
            None => false,
            Some(i) => self.find_characteristic(i, characteristic_uuid).is_some(),
        }
    }

    /// Whether the cache knows the descriptor `descriptor_uuid` of that characteristic.
    pub fn knows_descriptor(&self, service_uuid: u128, characteristic_uuid: u128, descriptor_uuid: u128) -> (r:
        bool)
        requires
            self.wf(),
        ensures
            r == has_descriptor(self@, service_uuid, characteristic_uuid, descriptor_uuid),
    {
        let i = match self.find_service(service_uuid) {
            None => return false,
            Some(i) => i,
        };
        let j = match self.find_characteristic(i, characteristic_uuid) {
            None => return false,
            Some(j) => j,
        };
        proof {
            assert(characteristic_index(self@, service_uuid, characteristic_uuid) == j);
            assert(self.services@[i as int].characteristics@.map_values(|e: CachedCharacteristic| e@)[j as int]
                == self.services@[i as int].characteristics@[j as int]@);
        }
        let ds = &self.services[i].characteristics[j].characteristic.descriptors;
        let ghost dm = self@.services[i as int].characteristics[j as int].0.descriptors;
        assert(dm == ds@.map_values(|d: Descriptor| d@));
        let mut k: usize = 0;
        while k < ds.len()
            invariant
                k <= ds@.len(),
                dm == ds@.map_values(|d: Descriptor| d@),
                has_characteristic(self@, service_uuid, characteristic_uuid),
                service_index(self@, service_uuid) == i,
                characteristic_index(self@, service_uuid, characteristic_uuid) == j,
                dm == self@.services[i as int].characteristics[j as int].0.descriptors,
                forall|x: int| 0 <= x < k ==> ds@[x].uuid != descriptor_uuid,
            decreases ds@.len() - k,
        {
            if ds[k].uuid == descriptor_uuid {
                assert(ds@.map_values(|d: Descriptor| d@)[k as int] == ds@[k as int]@);
                assert(dm[k as int].uuid == descriptor_uuid);
                return true;
            }
            k = k + 1;
        }
        proof {
            assert forall|x: int| 0 <= x < ds@.len() implies (#[trigger] ds@[x])@.uuid
                != descriptor_uuid by {
                assert(ds@.map_values(|d: Descriptor| d@)[x] == ds@[x]@);
            }
        }
        false
    }

    /// A snapshot of the service tree, for the caller who connected.
    pub fn services(&self) -> (r: Vec<Service>)
        ensures
            r@.map_values(|s: Service| s@) == tree_of(self@),
    {
        let mut r: Vec<Service> = Vec::new();
        let mut i: usize = 0;
        while i < self.services.len()
            invariant
                i <= self@.services.len(),
                r@.len() == i,
                forall|k: int| 0 <= k < i ==> #[trigger] r@[k]@ == tree_of(self@)[k],
            decreases self@.services.len() - i,
        {
            let entry = &self.services[i];
            assert(self.services@.map_values(|e: CachedService| e@)[i as int] == entry@);
            let mut characteristics: Vec<Characteristic> = Vec::new();
            let mut j: usize = 0;
            while j < entry.characteristics.len()
                invariant
                    j <= entry.characteristics@.len(),
                    characteristics@.len() == j,
                    forall|k: int| 0 <= k < j ==> #[trigger] characteristics@[k]@ == entry.characteristics@[k].characteristic@,
                decreases entry.characteristics@.len() - j,
            {
                characteristics.push(entry.characteristics[j].characteristic.snapshot());
                j = j + 1;
            }
            let service = Service { uuid: entry.uuid, primary: entry.primary, characteristics };
            proof {
                assert forall|k: int| 0 <= k < j implies (#[trigger] service.characteristics@[k])@
                    == entry@.characteristics[k].0 by {
                    assert(entry.characteristics@.map_values(|e: CachedCharacteristic| e@)[k] == entry.characteristics@[k]@);
                }
                assert(service@.characteristics =~= entry@.characteristics.map_values(
                    |e: (CharacteristicModel, bool)| e.0,
                ));
            }
            r.push(service);
            i = i + 1;
        }
        assert(r@.map_values(|s: Service| s@) =~= tree_of(self@));
        r
    }

}

} // verus!
