//! The hash map and hash set of `fnv` that a session keeps its streams in.
//! `FnvHashMap` and `FnvHashSet` are std's `HashMap` and `HashSet` with the
//! FNV hasher, whose hashers all start from the same fixed state; with `u32`
//! keys they behave as a map and a set of the keys.
use vstd::prelude::*;
use fnv::{FnvHashMap, FnvHashSet};

verus! {

/// `fnv::FnvHasher`, the hasher behind the maps.
#[verifier::external_type_specification]
#[verifier::external_body]
pub struct ExFnvHasher(fnv::FnvHasher);

/// `std::hash::BuildHasherDefault`, which builds the maps' hashers.
#[verifier::external_type_specification]
#[verifier::external_body]
#[verifier::reject_recursive_types(H)]
pub struct ExBuildHasherDefault<H>(std::hash::BuildHasherDefault<H>);

/// Calls `FnvHashMap::default()`: an empty map.
#[verifier::external_body]
pub(crate) fn map_new<V>() -> (r: FnvHashMap<u32, V>)
    ensures
        r@ =~= Map::empty(),
{
    FnvHashMap::default()
}

/// Calls `HashMap::insert` on an `FnvHashMap`: `k` now maps to `v`.
#[verifier::external_body]
pub(crate) fn map_insert<V>(m: &mut FnvHashMap<u32, V>, k: u32, v: V)
    ensures
        final(m)@ == old(m)@.insert(k, v),
{
    m.insert(k, v);
}

/// Calls `HashMap::remove` on an `FnvHashMap`: `k` no longer maps to
/// anything, and its value, if it had one, is given back.
#[verifier::external_body]
pub(crate) fn map_take<V>(m: &mut FnvHashMap<u32, V>, k: u32) -> (r: Option<V>)
    ensures
        final(m)@ == old(m)@.remove(k),
        r matches Some(v) ==> old(m)@.contains_key(k) && v == old(m)@[k],
        r is None ==> !old(m)@.contains_key(k),
{
    m.remove(&k)
}

/// Calls `FnvHashSet::default()`: an empty set.
#[verifier::external_body]
pub(crate) fn set_new() -> (r: FnvHashSet<u32>)
    ensures
        r@ == Set::<u32>::empty(),
{
    FnvHashSet::default()
}

/// Calls `HashSet::insert` on an `FnvHashSet`: `k` is now in the set.
#[verifier::external_body]
pub(crate) fn set_insert(s: &mut FnvHashSet<u32>, k: u32)
    ensures
        final(s)@ == old(s)@.insert(k),
{
    s.insert(k);
}

/// Calls `HashSet::remove` on an `FnvHashSet`: `k` is no longer in the set.
#[verifier::external_body]
pub(crate) fn set_remove(s: &mut FnvHashSet<u32>, k: u32)
    ensures
        final(s)@ == old(s)@.remove(k),
{
    s.remove(&k);
}

} // verus!
