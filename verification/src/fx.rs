//! The hash maps of `rustc_hash` that the phases use, behind trusted wrappers.

use vstd::prelude::*;
use rustc_hash::{FxHashMap, FxHashSet};

verus! {

/// `rustc_hash::FxBuildHasher`, the (unseeded, deterministic) hasher builder of `FxHashMap`.
#[verifier::external_type_specification]
#[verifier::external_body]
pub struct ExFxBuildHasher(rustc_hash::FxBuildHasher);

/// Calls `FxHashMap::default()`; claims that the new map is empty.
#[verifier::external_body]
pub(crate) fn fx_map_new<V>() -> (fresh: FxHashMap<u32, V>)
    ensures
        fresh@.dom() == Set::<u32>::empty(),
{
    FxHashMap::default()
}

/// Calls `HashMap::insert` on an `FxHashMap`; claims that afterwards the key maps
/// to the value and every other entry is unchanged (`FxBuildHasher` builds
/// identical hashers, so equal keys always hash alike).
#[verifier::external_body]
pub(crate) fn fx_map_insert<V>(m: &mut FxHashMap<u32, V>, k: u32, v: V)
    ensures
        final(m)@ == old(m)@.insert(k, v),
{
    m.insert(k, v);
}

/// Calls `HashMap::get` on an `FxHashMap`; claims that it returns the value the key
/// maps to, or `None` when the key is absent.
#[verifier::external_body]
pub(crate) fn fx_map_get<V: Copy>(m: &FxHashMap<u32, V>, k: u32) -> (r: Option<V>)
    ensures
        r == (if m@.contains_key(k) { Some(m@[k]) } else { None::<V> }),
{
    m.get(&k).copied()
}

/// Calls `FxHashSet::default()`; claims that the new set is empty.
#[verifier::external_body]
pub(crate) fn fx_set_new() -> (fresh: FxHashSet<u32>)
    ensures
        fresh@ == Set::<u32>::empty(),
{
    FxHashSet::default()
}

/// Calls `HashSet::insert` on an `FxHashSet`; claims that afterwards the set
/// holds the value besides what it held before.
#[verifier::external_body]
pub(crate) fn fx_set_insert(s: &mut FxHashSet<u32>, v: u32)
    ensures
        final(s)@ == old(s)@.insert(v),
{
    s.insert(v);
}

/// Calls `HashSet::contains` on an `FxHashSet`; claims that it tells whether the
/// set holds the value.
#[verifier::external_body]
pub(crate) fn fx_set_contains(s: &FxHashSet<u32>, v: u32) -> (r: bool)
    ensures
        r == s@.contains(v),
{
    s.contains(&v)
}

} // verus!
