use vstd::prelude::*;

verus! {

/// The persisted allocator counter: a scalar cell in its own memory region.
/// Held opaquely because Verus cannot read the storage crate's memory types.
#[verifier::external_body]
pub struct CounterCell {
    cell: ic_stable_structures::Cell<
        u64,
        ic_stable_structures::memory_manager::VirtualMemory<
            ic_stable_structures::DefaultMemoryImpl,
        >,
    >,
}

/// The value the counter cell holds.
pub uninterp spec fn counter_value(c: CounterCell) -> u64;

/// The durable record store: an ordered map from id to serialized record
/// bytes, in its own memory region. Held opaquely because Verus cannot read
/// the storage crate's memory types.
#[verifier::external_body]
pub struct StableGigMap {
    map: ic_stable_structures::StableBTreeMap<
        u64,
        Vec<u8>,
        ic_stable_structures::memory_manager::VirtualMemory<
            ic_stable_structures::DefaultMemoryImpl,
        >,
    >,
}

/// The entries the record store holds.
pub uninterp spec fn store_contents(m: StableGigMap) -> Map<u64, Seq<u8>>;

/// Relies on ic_stable_structures::memory_manager::MemoryManager::init,
/// Cell::init and BTreeMap::init: one manager over the process's default
/// memory (the canister's stable memory on that target, a fresh in-process
/// vector elsewhere) carves out two distinct virtual regions; the counter
/// cell lives in region zero and the record map in region one. Each
/// structure holds whatever its region held: the persisted image where the
/// memory survives restarts, or zero and empty where the memory is fresh.
/// Nothing is promised of the values; callers must read and validate them.
/// A persisted image of an incompatible layout makes initialization panic:
/// the fatal startup storage fault, not a normal error path.
#[verifier::external_body]
pub fn open_backing() -> (r: (CounterCell, StableGigMap)) {
    let manager = ic_stable_structures::memory_manager::MemoryManager::init(
        ic_stable_structures::DefaultMemoryImpl::default(),
    );
    let counter = ic_stable_structures::Cell::init(
        manager.get(ic_stable_structures::memory_manager::MemoryId::new(0)),
        0,
    );
    let map = ic_stable_structures::StableBTreeMap::init(
        manager.get(ic_stable_structures::memory_manager::MemoryId::new(1)),
    );
    (CounterCell { cell: counter }, StableGigMap { map })
}

/// Relies on ic_stable_structures::cell::Cell::get: returns the value the
/// cell holds.
#[verifier::external_body]
pub fn counter_get(c: &CounterCell) -> (v: u64)
    ensures
        v == counter_value(*c),
{
    *c.cell.get()
}

/// Relies on ic_stable_structures::cell::Cell::set: persists the given value
/// and replaces the held one. A failed substrate write makes it panic: the
/// fatal, non-recoverable storage fault, not a normal error path.
#[verifier::external_body]
pub fn counter_set(c: &mut CounterCell, v: u64)
    ensures
        counter_value(*final(c)) == v,
{
    c.cell.set(v);
}

/// Relies on ic_stable_structures::btreemap::BTreeMap::get: returns the value
/// stored under the key, if any.
#[verifier::external_body]
pub fn store_get(m: &StableGigMap, id: u64) -> (r: Option<Vec<u8>>)
    ensures
        match r {
            Option::Some(v) => store_contents(*m).contains_key(id) && v@ == store_contents(*m)[id],
            Option::None => !store_contents(*m).contains_key(id),
        },
{
    m.map.get(&id)
}

/// Relies on ic_stable_structures::btreemap::BTreeMap::insert: stores the
/// value under the key, replacing any previous value.
#[verifier::external_body]
pub fn store_insert(m: &mut StableGigMap, id: u64, bytes: Vec<u8>)
    ensures
        store_contents(*final(m)) == store_contents(*old(m)).insert(id, bytes@),
{
    m.map.insert(id, bytes);
}

/// Relies on ic_stable_structures::btreemap::BTreeMap::remove: removes the
/// entry under the key, if any.
#[verifier::external_body]
pub fn store_remove(m: &mut StableGigMap, id: u64)
    ensures
        store_contents(*final(m)) == store_contents(*old(m)).remove(id),
{
    m.map.remove(&id);
}

/// Relies on ic_stable_structures::btreemap::BTreeMap::iter (and
/// LazyEntry::into_pair): yields every entry exactly once, in ascending key
/// order.
#[verifier::external_body]
pub fn store_entries(m: &StableGigMap) -> (r: Vec<(u64, Vec<u8>)>)
    ensures
        forall|i: int|
            0 <= i < r@.len() ==> #[trigger] store_contents(*m).contains_key(r@[i].0) && r@[i].1@
                == store_contents(*m)[r@[i].0],
        forall|k: u64|
            #[trigger] store_contents(*m).contains_key(k) ==> exists|i: int|
                0 <= i < r@.len() && r@[i].0 == k,
        forall|i: int, j: int| 0 <= i < j < r@.len() ==> r@[i].0 < r@[j].0,
{
    let mut out = Vec::new();
    for e in m.map.iter() {
        out.push(e.into_pair());
    }
    out
}

} // verus!
