//! A concurrent table from integer keys to integer slots, held in a `DashMap`.
//! The runtime keeps the things a slot points at (a handler, a child handle)
//! in a table of its own; this map only says which slot belongs to which key.
use dashmap::DashMap;
use vstd::prelude::*;

verus! {

#[verifier::external_type_specification]
#[verifier::external_body]
#[verifier::reject_recursive_types(K)]
#[verifier::reject_recursive_types(V)]
#[verifier::reject_recursive_types(S)]
pub struct ExDashMap<K, V, S>(DashMap<K, V, S>);

/// The key/value pairs that a `DashMap<u64, u64>` holds.
pub uninterp spec fn dash_entries(m: DashMap<u64, u64>) -> Map<u64, u64>;

/// Relies on `DashMap::new`: a new map holds no entry.
#[verifier::external_body]
fn dash_new() -> (r: DashMap<u64, u64>)
    ensures
        dash_entries(r) =~= Map::empty(),
{
    DashMap::new()
}

/// Relies on `DashMap::insert`: the key now maps to the value, and the value it
/// mapped to before, if any, is returned.
#[verifier::external_body]
fn dash_insert(m: &mut DashMap<u64, u64>, k: u64, v: u64) -> (r: Option<u64>)
    ensures
        dash_entries(*final(m)) == dash_entries(*old(m)).insert(k, v),
        r == (if dash_entries(*old(m)).contains_key(k) {
            Some(dash_entries(*old(m))[k])
        } else {
            None
        }),
{
    m.insert(k, v)
}

/// Relies on `DashMap::remove`: the key leaves the map, and the value it mapped
/// to, if any, is returned.
#[verifier::external_body]
fn dash_remove(m: &mut DashMap<u64, u64>, k: u64) -> (r: Option<u64>)
    ensures
        dash_entries(*final(m)) == dash_entries(*old(m)).remove(k),
        r == (if dash_entries(*old(m)).contains_key(k) {
            Some(dash_entries(*old(m))[k])
        } else {
            None
        }),
{
    m.remove(&k).map(|e| e.1)
}

/// Relies on `DashMap::get`: the value that the key maps to, if any.
#[verifier::external_body]
fn dash_get(m: &DashMap<u64, u64>, k: u64) -> (r: Option<u64>)
    ensures
        r == (if dash_entries(*m).contains_key(k) {
            Some(dash_entries(*m)[k])
        } else {
            None
        }),
{
    m.get(&k).map(|e| *e.value())
}

/// Relies on `DashMap::iter`: every entry once, in an order that the map's
/// hasher decides.
#[verifier::external_body]
fn dash_entries_vec(m: &DashMap<u64, u64>) -> (r: Vec<(u64, u64)>)
    ensures
        forall|i: int|
            0 <= i < r@.len() ==> #[trigger] dash_entries(*m).contains_key(r@[i].0)
                && dash_entries(*m)[r@[i].0] == r@[i].1,
        forall|k: u64|
            #[trigger] dash_entries(*m).contains_key(k) ==> exists|i: int|
                0 <= i < r@.len() && #[trigger] r@[i].0 == k,
        forall|i: int, j: int| 0 <= i < j < r@.len() ==> r@[i].0 != r@[j].0,
{
    m.iter().map(|e| (*e.key(), *e.value())).collect()
}

/// A table from keys to slots.
pub struct SlotMap {
    inner: DashMap<u64, u64>,
}

impl View for SlotMap {
    type V = Map<u64, u64>;

    closed spec fn view(&self) -> Map<u64, u64> {
        dash_entries(self.inner)
    }
}

impl SlotMap {
    pub open spec fn wf(&self) -> bool {
        self@.dom().finite()
    }

    pub fn new() -> (r: SlotMap)
        ensures
            r.wf(),
            r@ == Map::<u64, u64>::empty(),
    {
        SlotMap { inner: dash_new() }
    }

    /// Maps `key` to `slot`, replacing what it mapped to before.
    pub fn insert(&mut self, key: u64, slot: u64) -> (r: Option<u64>)
        requires
            old(self).wf(),
        ensures
            final(self).wf(),
            final(self)@ == old(self)@.insert(key, slot),
            r == (if old(self)@.contains_key(key) { Some(old(self)@[key]) } else { None }),
    {
        dash_insert(&mut self.inner, key, slot)
    }

    pub fn remove(&mut self, key: u64) -> (r: Option<u64>)
        requires
            old(self).wf(),
        ensures
            final(self).wf(),
            final(self)@ == old(self)@.remove(key),
            r == (if old(self)@.contains_key(key) { Some(old(self)@[key]) } else { None }),
    {
        dash_remove(&mut self.inner, key)
    }

    pub fn get(&self, key: u64) -> (r: Option<u64>)
        ensures
            r == (if self@.contains_key(key) { Some(self@[key]) } else { None }),
    {
        dash_get(&self.inner, key)
    }

    /// Every entry exactly once, in no promised order.
    pub fn entries(&self) -> (r: Vec<(u64, u64)>)
        ensures
            entries_exactly(r@, self@),
    {
        dash_entries_vec(&self.inner)
    }
}

/// `s` lists each entry of `m` exactly once.
pub open spec fn entries_exactly(s: Seq<(u64, u64)>, m: Map<u64, u64>) -> bool {
    &&& forall|i: int|
        0 <= i < s.len() ==> #[trigger] m.contains_key(s[i].0) && m[s[i].0] == s[i].1
    &&& forall|k: u64| #[trigger] m.contains_key(k) ==> exists|i: int| 0 <= i < s.len() && #[trigger] s[i].0 == k
    &&& forall|i: int, j: int| 0 <= i < j < s.len() ==> s[i].0 != s[j].0
}

} // verus!
