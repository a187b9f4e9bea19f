//! `dashmap::DashMap` as a verified collection's store.
//!
//! A map is only ever reached through an exclusive borrow here, so what its methods do is stated as
//! for a map without concurrent writers.

use dashmap::DashMap;
use vstd::prelude::*;

verus! {

/// `dashmap::DashMap`, opaque to the verifier.
#[verifier::external_type_specification]
#[verifier::external_body]
#[verifier::reject_recursive_types(K)]
#[verifier::reject_recursive_types(V)]
#[verifier::reject_recursive_types(S)]
pub struct ExDashMap<K, V, S>(dashmap::DashMap<K, V, S>);

/// `ids` lists each key of `keys` once.
pub open spec fn lists_keys(ids: Seq<String>, keys: Set<Seq<char>>) -> bool {
    &&& forall|i: int| 0 <= i < ids.len() ==> keys.contains(#[trigger] ids[i]@)
    &&& forall|key: Seq<char>| #[trigger]
        keys.contains(key) ==> exists|i: int| 0 <= i < ids.len() && ids[i]@ == key
    &&& forall|i: int, j: int| 0 <= i < j < ids.len() ==> ids[i]@ != ids[j]@
}

/// `entries` lists each number of `map` once.
pub open spec fn lists_numbers(entries: Seq<(String, u64)>, map: Map<Seq<char>, u64>) -> bool {
    &&& forall|i: int|
        0 <= i < entries.len() ==> map.contains_key((#[trigger] entries[i]).0@) && map[entries[i].0@]
            == entries[i].1
    &&& forall|name: Seq<char>| #[trigger]
        map.contains_key(name) ==> exists|i: int| 0 <= i < entries.len() && entries[i].0@ == name
    &&& forall|i: int, j: int| 0 <= i < j < entries.len() ==> entries[i].0@ != entries[j].0@
}

/// The numbers that a map holds, by name.
pub uninterp spec fn numbers_of(map: DashMap<String, u64>) -> Map<Seq<char>, u64>;

/// `DashMap::new` makes a map that holds nothing.
#[verifier::external_body]
pub(crate) fn numbers_new() -> (map: DashMap<String, u64>)
    ensures
        (numbers_of(map) == Map::<Seq<char>, u64>::empty()),
{
    DashMap::new()
}

/// `DashMap::get` finds the value stored under the key.
#[verifier::external_body]
pub(crate) fn numbers_get(map: &DashMap<String, u64>, name: &str) -> (number: Option<u64>)
    ensures
        match number {
            Some(number) => numbers_of(*map).contains_key(name@) && number == numbers_of(
                *map,
            )[name@],
            None => !numbers_of(*map).contains_key(name@),
        },
{
    map.get(name).map(|entry| *entry.value())
}

/// `DashMap::insert` stores the value under the key, in place of an earlier one.
#[verifier::external_body]
pub(crate) fn numbers_insert(map: &mut DashMap<String, u64>, name: String, number: u64)
    ensures
        numbers_of(*final(map)) == numbers_of(*old(map)).insert(name@, number),
{
    map.insert(name, number);
}

/// `DashMap::remove` takes out the value stored under the key and tells whether there was one.
#[verifier::external_body]
pub(crate) fn numbers_remove(map: &mut DashMap<String, u64>, name: &str) -> (removed: bool)
    ensures
        removed == numbers_of(*old(map)).contains_key(name@),
        numbers_of(*final(map)) == numbers_of(*old(map)).remove(name@),
{
    map.remove(name).is_some()
}

/// `DashMap::clear` takes out everything.
#[verifier::external_body]
pub(crate) fn numbers_clear(map: &mut DashMap<String, u64>)
    ensures
        (numbers_of(*final(map)) == Map::<Seq<char>, u64>::empty()),
{
    map.clear();
}

/// `DashMap::iter` walks every entry once, in an order that is not specified.
#[verifier::external_body]
pub(crate) fn numbers_entries(map: &DashMap<String, u64>) -> (entries: Vec<(String, u64)>)
    ensures
        lists_numbers(entries@, numbers_of(*map)),
{
    map.iter().map(|entry| (entry.key().clone(), *entry.value())).collect()
}

} // verus!
