//! Which keys are being written.

use crate::error::{ApiError, ApiErrorOf, KvError, KvErrorOf, KvResult};
use dashmap::DashMap;
use vstd::prelude::*;

verus! {

/// The counts that a map holds, by key.
pub uninterp spec fn key_counts(map: DashMap<String, u32>) -> Map<Seq<char>, u32>;

/// `DashMap::new` makes a map that holds nothing.
#[verifier::external_body]
fn counts_new() -> (map: DashMap<String, u32>)
    ensures
        (key_counts(map) == Map::<Seq<char>, u32>::empty()),
{
    DashMap::new()
}

/// `DashMap::get` finds the value stored under the key.
#[verifier::external_body]
fn counts_get(map: &DashMap<String, u32>, key: &str) -> (count: Option<u32>)
    ensures
        match count {
            Some(count) => key_counts(*map).contains_key(key@) && count == key_counts(*map)[key@],
            None => !key_counts(*map).contains_key(key@),
        },
{
    map.get(key).map(|entry| *entry.value())
}

/// `DashMap::insert` stores the value under the key, in place of an earlier one.
#[verifier::external_body]
fn counts_insert(map: &mut DashMap<String, u32>, key: String, count: u32)
    ensures
        key_counts(*final(map)) == key_counts(*old(map)).insert(key@, count),
{
    map.insert(key, count);
}

/// `DashMap::remove` takes out the value stored under the key, if there is one.
#[verifier::external_body]
fn counts_remove(map: &mut DashMap<String, u32>, key: &str)
    ensures
        key_counts(*final(map)) == key_counts(*old(map)).remove(key@),
{
    map.remove(key);
}

/// key -> inflight put count
pub struct InflightPutKeys {
    counts: DashMap<String, u32>,
}

impl View for InflightPutKeys {
    type V = Map<Seq<char>, u32>;

    closed spec fn view(&self) -> Map<Seq<char>, u32> {
        key_counts(self.counts)
    }
}

/// How many puts of the key are in flight.
pub open spec fn count_of(counts: Map<Seq<char>, u32>, key: Seq<char>) -> u32 {
    if counts.contains_key(key) {
        counts[key]
    } else {
        0
    }
}

/// The counts with one put of the key more.
pub open spec fn with_one_more(counts: Map<Seq<char>, u32>, key: Seq<char>) -> Map<
    Seq<char>,
    u32,
> {
    counts.insert(key, (count_of(counts, key) + 1) as u32)
}

/// The counts with one put of the key less; a key without puts is not listed.
pub open spec fn with_one_less(counts: Map<Seq<char>, u32>, key: Seq<char>) -> Map<
    Seq<char>,
    u32,
> {
    if count_of(counts, key) <= 1 {
        counts.remove(key)
    } else {
        counts.insert(key, (counts[key] - 1) as u32)
    }
}

/// Only keys with puts in flight are listed.
pub open spec fn counts_positive(counts: Map<Seq<char>, u32>) -> bool {
    forall|key: Seq<char>| #[trigger] counts.contains_key(key) ==> counts[key] > 0
}

/// The error for a key that is being written already.
pub open spec fn key_being_written(key: Seq<char>) -> KvErrorOf<Seq<char>> {
    KvErrorOf::Api(ApiErrorOf::KeyBeingWritten { key })
}

impl InflightPutKeys {
    pub fn new() -> (keys: Self)
        ensures
            keys@ == Map::<Seq<char>, u32>::empty(),
    {
        InflightPutKeys { counts: counts_new() }
    }

    /// How many puts of the key are in flight.
    pub fn count(&self, key: &str) -> (count: u32)
        ensures
            count == count_of(self@, key@),
    {
        match counts_get(&self.counts, key) {
            Some(count) => count,
            None => 0,
        }
    }

    /// Counts a put of the key, unless the caller asked to be rejected while another is in flight.
    pub fn reserve_inflight_put_key(
        &mut self,
        key: &str,
        reject_if_inflight_same_key: bool,
    ) -> (result: KvResult<()>)
        requires
            count_of(old(self)@, key@) < u32::MAX,
        ensures
            if reject_if_inflight_same_key && count_of(old(self)@, key@) > 0 {
                &&& result matches Err(e) && e@ == key_being_written(key@)
                &&& final(self)@ == old(self)@
            } else {
                &&& result is Ok
                &&& final(self)@ == with_one_more(old(self)@, key@)
            },
    {
        let count: u32 = self.count(key);
        if reject_if_inflight_same_key && count > 0 {
            return Err(KvError::Api(ApiError::KeyBeingWritten { key: key.to_owned() }));
        }
        counts_insert(&mut self.counts, key.to_owned(), count + 1);
        Ok(())
    }

    /// Counts a put of the key no more.
    pub fn release_inflight_put_key(&mut self, key: &str)
        ensures
            final(self)@ == with_one_less(old(self)@, key@),
    {
        match counts_get(&self.counts, key) {
            Some(count) => {
                if count <= 1 {
                    counts_remove(&mut self.counts, key);
                } else {
                    counts_insert(&mut self.counts, key.to_owned(), count - 1);
                }
            },
            None => {
                assert(self@ =~= self@.remove(key@));
            },
        }
    }
}

/// Releasing a key undoes reserving it.
pub proof fn law_release_undoes_reserve(counts: Map<Seq<char>, u32>, key: Seq<char>)
    requires
        counts_positive(counts),
        count_of(counts, key) < u32::MAX,
    ensures
        with_one_less(with_one_more(counts, key), key) == counts,
        counts_positive(with_one_more(counts, key)),
{
    assert(with_one_less(with_one_more(counts, key), key) =~= counts);
}

/// Releasing keeps the listed counts positive.
pub proof fn law_release_keeps_counts_positive(counts: Map<Seq<char>, u32>, key: Seq<char>)
    requires
        counts_positive(counts),
    ensures
        counts_positive(with_one_less(counts, key)),
{
}

} // verus!
