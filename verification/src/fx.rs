//! The hash collections of the `fxhash` crate, keyed by 64-bit numbers.
//!
//! `FxHashMap` and `FxHashSet` are the standard collections with the fast,
//! unseeded Fx hasher. The hasher is not verified here: what this module
//! states of the calls below is taken on trust from the two libraries.

use fxhash::{FxHashMap, FxHashSet};
use vstd::prelude::*;

verus! {

/// `fxhash::FxHasher`, the hasher of both collections. Nothing is stated
/// of it; it only occurs in their types.
#[verifier::external_type_specification]
#[verifier::external_body]
pub struct ExFxHasher(fxhash::FxHasher);

/// `std::hash::BuildHasherDefault`, which makes the hasher for each
/// collection. Nothing is stated of it; it only occurs in their types.
#[verifier::external_type_specification]
#[verifier::external_body]
#[verifier::reject_recursive_types(H)]
pub struct ExBuildHasherDefault<H>(std::hash::BuildHasherDefault<H>);

/// `HashMap::insert` on an `FxHashMap`: afterwards the map holds `value`
/// under `key` and is otherwise unchanged; the value that `key` had before
/// is returned.
#[verifier::external_body]
pub(crate) fn map_insert<V>(map: &mut FxHashMap<u64, V>, key: u64, value: V) -> (prev: Option<V>)
    ensures
        final(map)@ == old(map)@.insert(key, value),
        prev == (if old(map)@.contains_key(key) {
            Some(old(map)@[key])
        } else {
            None
        }),
{
    map.insert(key, value)
}

/// `HashMap::get` on an `FxHashMap`: the value stored under `key`, if there
/// is one.
#[verifier::external_body]
pub(crate) fn map_get<V>(map: &FxHashMap<u64, V>, key: u64) -> (found: Option<&V>)
    ensures
        found == (if map@.contains_key(key) {
            Some(&map@[key])
        } else {
            None
        }),
{
    map.get(&key)
}

/// `HashMap::remove` on an `FxHashMap`: afterwards `key` is absent and the
/// map is otherwise unchanged; the value that `key` had is returned.
#[verifier::external_body]
pub(crate) fn map_remove<V>(map: &mut FxHashMap<u64, V>, key: u64) -> (prev: Option<V>)
    ensures
        final(map)@ == old(map)@.remove(key),
        prev == (if old(map)@.contains_key(key) {
            Some(old(map)@[key])
        } else {
            None
        }),
{
    map.remove(&key)
}

/// `HashSet::insert` on an `FxHashSet`: afterwards the set holds `key`;
/// returns whether it was absent before.
#[verifier::external_body]
pub(crate) fn set_insert(set: &mut FxHashSet<u64>, key: u64) -> (fresh: bool)
    ensures
        final(set)@ == old(set)@.insert(key),
        fresh == !old(set)@.contains(key),
{
    set.insert(key)
}

/// `HashSet::remove` on an `FxHashSet`: afterwards the set does not hold
/// `key`; returns whether it was present before.
#[verifier::external_body]
pub(crate) fn set_remove(set: &mut FxHashSet<u64>, key: u64) -> (present: bool)
    ensures
        final(set)@ == old(set)@.remove(key),
        present == old(set)@.contains(key),
{
    set.remove(&key)
}

/// `HashSet::contains` on an `FxHashSet`: whether the set holds `key`.
#[verifier::external_body]
pub(crate) fn set_contains(set: &FxHashSet<u64>, key: u64) -> (present: bool)
    ensures
        present == set@.contains(key),
{
    set.contains(&key)
}

} // verus!
