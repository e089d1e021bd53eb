//! Trusted bridges to `rustc_hash::FxHashMap`.
//!
//! The type pool and the constant pool key their entries by 64-bit ids
//! held in Fx-hashed maps.  The Fx hasher is a pure function of the bytes
//! it is fed, so the map behaves as `HashMap`'s documentation describes;
//! each wrapper states that behaviour over the map's abstract view.

use vstd::prelude::*;

use rustc_hash::FxHashMap;

verus! {

#[verifier::external_type_specification]
#[verifier::external_body]
pub struct ExFxBuildHasher(rustc_hash::FxBuildHasher);

/// Relies on `FxHashMap::default`: a fresh map with no entries.
#[verifier::external_body]
pub(crate) fn fx_map_new<V>() -> (r: FxHashMap<i64, V>)
    ensures
        forall|k: i64| !r@.contains_key(k),
{
    FxHashMap::default()
}

/// Relies on `HashMap::insert`: the entry for `k` is set to `v` and no
/// other entry changes.
#[verifier::external_body]
pub(crate) fn fx_map_insert<V>(m: &mut FxHashMap<i64, V>, k: i64, v: V)
    ensures
        final(m)@ == old(m)@.insert(k, v),
{
    m.insert(k, v);
}

/// Relies on `HashMap::get`: the entry for `k`, if present.
#[verifier::external_body]
pub(crate) fn fx_map_get<'a, V>(m: &'a FxHashMap<i64, V>, k: i64) -> (r: Option<&'a V>)
    ensures
        match r {
            Some(v) => m@.contains_key(k) && *v == m@[k],
            None => !m@.contains_key(k),
        },
{
    m.get(&k)
}

/// Relies on `HashMap::remove`: takes the entry for `k` out of the map.
#[verifier::external_body]
pub(crate) fn fx_map_remove<V>(m: &mut FxHashMap<i64, V>, k: i64) -> (r: Option<V>)
    ensures
        final(m)@ == old(m)@.remove(k),
        match r {
            Some(v) => old(m)@.contains_key(k) && v == old(m)@[k],
            None => !old(m)@.contains_key(k),
        },
{
    m.remove(&k)
}

/// Relies on `HashMap::len`: the number of entries.
#[verifier::external_body]
pub(crate) fn fx_map_len<V>(m: &FxHashMap<i64, V>) -> (r: usize)
    ensures
        r == m@.dom().len(),
{
    m.len()
}

/// Relies on `HashMap::values`: one reference per entry, in an order the
/// hash layout decides and nothing here constrains.
#[verifier::external_body]
pub(crate) fn fx_map_values<'a, V>(m: &'a FxHashMap<i64, V>) -> (r: Vec<&'a V>)
    ensures
        r@.len() == m@.dom().len(),
        forall|i: int| #![trigger r@[i]]
            0 <= i < r@.len() ==> exists|k: i64| #[trigger] m@.contains_key(k) && *r@[i] == m@[k],
{
    m.values().collect()
}

} // verus!
