//! Which memory holder was handed out last for a key.

use crate::dash::{numbers_clear, numbers_get, numbers_insert, numbers_new, numbers_remove};
use dashmap::DashMap;
use vstd::prelude::*;

verus! {

/// key -> holder. The index does not keep a holder alive: whether it still exists is asked
/// elsewhere.
pub struct WeakIndex {
    map: DashMap<String, u64>,
}

impl View for WeakIndex {
    type V = Map<Seq<char>, u64>;

    closed spec fn view(&self) -> Map<Seq<char>, u64> {
        crate::dash::numbers_of(self.map)
    }
}

/// The index without some keys.
pub open spec fn without_keys(index: Map<Seq<char>, u64>, keys: Seq<String>) -> Map<Seq<char>, u64>
    decreases keys.len(),
{
    if keys.len() == 0 {
        index
    } else {
        without_keys(index, keys.drop_last()).remove(keys.last()@)
    }
}

/// How many entries go when the keys are forgotten, one after the other.
pub open spec fn forgotten(index: Map<Seq<char>, u64>, keys: Seq<String>) -> nat
    decreases keys.len(),
{
    if keys.len() == 0 {
        0
    } else if without_keys(index, keys.drop_last()).contains_key(keys.last()@) {
        forgotten(index, keys.drop_last()) + 1
    } else {
        forgotten(index, keys.drop_last())
    }
}

impl WeakIndex {
    pub fn new() -> (index: Self)
        ensures
            index@ == Map::<Seq<char>, u64>::empty(),
    {
        WeakIndex { map: numbers_new() }
    }

    pub fn get(&self, key: &str) -> (holder: Option<u64>)
        ensures
            holder == if self@.contains_key(key@) {
                Some(self@[key@])
            } else {
                None
            },
    {
        numbers_get(&self.map, key)
    }

    pub fn insert(&mut self, key: String, holder: u64)
        ensures
            final(self)@ == old(self)@.insert(key@, holder),
    {
        numbers_insert(&mut self.map, key, holder);
    }

    pub fn remove(&mut self, key: &str) -> (removed: bool)
        ensures
            removed == old(self)@.contains_key(key@),
            final(self)@ == old(self)@.remove(key@),
    {
        numbers_remove(&mut self.map, key)
    }

    pub fn clear(&mut self)
        ensures
            final(self)@ == Map::<Seq<char>, u64>::empty(),
    {
        numbers_clear(&mut self.map);
    }

    /// The owner asks to forget keys, because their values are no longer what they were. Returns
    /// how many entries there were.
    pub fn handle_external_invalidate_weak_index(&mut self, keys: &Vec<String>) -> (removed: usize)
        ensures
            final(self)@ == without_keys(old(self)@, keys@),
            removed == forgotten(old(self)@, keys@),
    {
        let mut removed: usize = 0;
        let mut i: usize = 0;
        assert(keys@.take(0) =~= Seq::<String>::empty());
        while i < keys.len()
            invariant
                i <= keys@.len(),
                removed <= i,
                self@ == without_keys(old(self)@, keys@.take(i as int)),
                removed == forgotten(old(self)@, keys@.take(i as int)),
            decreases keys@.len() - i,
        {
            assert(keys@.take(i + 1).drop_last() =~= keys@.take(i as int));
            if self.remove(keys[i].as_str()) {
                removed = removed + 1;
            }
            i = i + 1;
        }
        assert(keys@.take(i as int) =~= keys@);
        removed
    }
}

proof fn lemma_without_keys(index: Map<Seq<char>, u64>, keys: Seq<String>, key: Seq<char>)
    ensures
        without_keys(index, keys).contains_key(key) <==> index.contains_key(key) && forall|i: int|
            0 <= i < keys.len() ==> (#[trigger] keys[i])@ != key,
    decreases keys.len(),
{
    if keys.len() > 0 {
        lemma_without_keys(index, keys.drop_last(), key);
        let n = keys.len() - 1;
        if without_keys(index, keys).contains_key(key) {
            assert forall|i: int| 0 <= i < keys.len() implies (#[trigger] keys[i])@ != key by {
                if i < n {
                    assert(keys.drop_last()[i] == keys[i]);
                }
            }
        } else if index.contains_key(key) {
            if keys.last()@ != key {
                let i = choose|i: int| 0 <= i < n && (#[trigger] keys.drop_last()[i])@ == key;
                assert(keys[i]@ == key);
            } else {
                assert(keys[n]@ == key);
            }
        }
    }
}

/// A key that the owner asked to forget is not found afterwards, and every other key is as before.
pub proof fn law_invalidated_keys_are_not_found(
    index: Map<Seq<char>, u64>,
    keys: Seq<String>,
    key: Seq<char>,
)
    ensures
        (exists|i: int| 0 <= i < keys.len() && (#[trigger] keys[i])@ == key) ==> !without_keys(
            index,
            keys,
        ).contains_key(key),
        !(exists|i: int| 0 <= i < keys.len() && (#[trigger] keys[i])@ == key)
            && index.contains_key(key) ==> without_keys(index, keys).contains_key(key)
            && without_keys(index, keys)[key] == index[key],
    decreases keys.len(),
{
    lemma_without_keys(index, keys, key);
    if keys.len() > 0 {
        law_invalidated_keys_are_not_found(index, keys.drop_last(), key);
        if !(exists|i: int| 0 <= i < keys.len() && (#[trigger] keys[i])@ == key) {
            assert forall|i: int| 0 <= i < keys.len() - 1 implies (#[trigger] keys.drop_last()[i])@
                != key by {
                assert(keys[i]@ != key);
            }
        }
    }
}

} // verus!
