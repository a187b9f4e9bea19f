//! Version numbers of puts to the same key.

use crate::master_kv_router::put::PutIDForAKey;
use moka::sync::SegmentedCache;
use std::time::Duration;
use vstd::prelude::*;

verus! {

/// Into how many parts the cache of version numbers is divided.
pub const VERSION_CACHE_SEGMENTS: usize = 8;

/// How long a key may be idle before its version numbers start over.
pub const VERSION_IDLE_SECONDS: u64 = 5;

/// The version numbers that were noted last. The cache may have forgotten some of them: it drops a
/// key that was idle for too long.
pub uninterp spec fn versions_noted(cache: SegmentedCache<String, u32>) -> Map<Seq<char>, u32>;

/// `SegmentedCache::builder` with a time to idle makes an empty cache. It panics without a segment,
/// and for times of more than a thousand years.
#[verifier::external_body]
fn versions_cache(segments: usize, idle_seconds: u64) -> (cache: SegmentedCache<String, u32>)
    requires
        0 < segments <= 64,
        idle_seconds <= 31_536_000_000,
    ensures
        (versions_noted(cache) == Map::<Seq<char>, u32>::empty()),
{
    SegmentedCache::builder(segments).time_to_idle(Duration::from_secs(idle_seconds)).build()
}

/// `SegmentedCache::get` finds the value that was last stored under the key. Whether it still finds
/// it depends on the time.
#[verifier::external_body]
fn versions_get(cache: &SegmentedCache<String, u32>, key: &str) -> (found: Option<u32>)
    ensures
        found matches Some(version) ==> versions_noted(*cache).contains_key(key@)
            && versions_noted(*cache)[key@] == version,
{
    cache.get(key)
}

/// `SegmentedCache::insert` stores the value under the key, in place of an earlier one.
#[verifier::external_body]
fn versions_insert(cache: &mut SegmentedCache<String, u32>, key: String, version: u32)
    ensures
        versions_noted(*final(cache)) == versions_noted(*old(cache)).insert(key@, version),
{
    cache.insert(key, version);
}

/// The number after this one; after the largest they start over.
pub open spec fn version_after(version: u32) -> u32 {
    if version == u32::MAX {
        0
    } else {
        (version + 1) as u32
    }
}

/// The id of a put at `put_time_ms`, and the version number of the key's next put. `found` is what
/// was noted for the key; a key without a note starts at zero.
pub fn next_put_id(put_time_ms: u64, found: Option<u32>) -> (next: (PutIDForAKey, u32))
    ensures
        next.0 == (
            put_time_ms,
            match found {
                Some(version) => version,
                None => 0,
            },
        ),
        next.1 == version_after(next.0.1),
{
    let version: u32 = match found {
        Some(version) => version,
        None => 0,
    };
    let after: u32 = if version == u32::MAX {
        0
    } else {
        version + 1
    };
    ((put_time_ms, version), after)
}

/// The version numbers that keys were given recently.
pub struct RecentKeyVersions {
    recent_key_versionid_allocator: SegmentedCache<String, u32>,
}

impl View for RecentKeyVersions {
    type V = Map<Seq<char>, u32>;

    /// The next version number of each key that was put. Some may be forgotten.
    closed spec fn view(&self) -> Map<Seq<char>, u32> {
        versions_noted(self.recent_key_versionid_allocator)
    }
}

/// What giving a key its next version does: the number is the one noted for the key, or zero where
/// the note was forgotten or there is none, and the number after it is noted.
pub open spec fn version_given(
    before: Map<Seq<char>, u32>,
    after: Map<Seq<char>, u32>,
    key: Seq<char>,
    version: u32,
) -> bool {
    &&& version == 0 || (before.contains_key(key) && version == before[key])
    &&& after == before.insert(key, version_after(version))
}

impl RecentKeyVersions {
    pub fn new() -> (versions: Self)
        ensures
            versions@ == Map::<Seq<char>, u32>::empty(),
    {
        RecentKeyVersions {
            recent_key_versionid_allocator: versions_cache(
                VERSION_CACHE_SEGMENTS,
                VERSION_IDLE_SECONDS,
            ),
        }
    }

    /// return (put_time_ms, put_version)
    ///
    /// Whether the note for a key is still found depends on the time.
    pub fn get_recent_key_versionid(&mut self, key: String, put_time_ms: u64) -> (put_id:
        PutIDForAKey)
        ensures
            put_id.0 == put_time_ms,
            version_given(old(self)@, final(self)@, key@, put_id.1),
    {
        let found = versions_get(&self.recent_key_versionid_allocator, key.as_str());
        let (put_id, after) = next_put_id(put_time_ms, found);
        versions_insert(&mut self.recent_key_versionid_allocator, key, after);
        put_id
    }
}

/// Two puts of a key in the same millisecond get different ids, as long as the note made for the
/// first one is found for the second.
pub proof fn law_versions_of_a_key_differ(
    before: Map<Seq<char>, u32>,
    between: Map<Seq<char>, u32>,
    key: Seq<char>,
    first: u32,
)
    requires
        version_given(before, between, key, first),
    ensures
        between.contains_key(key),
        between[key] != first,
{
}

} // verus!
