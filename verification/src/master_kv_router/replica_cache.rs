//! The replica cache of a node: which of its replicas were used lately.

use super::{CacheUpdate, NodeValueReplicaDesc};
use moka::sync::SegmentedCache;
use vstd::prelude::*;

verus! {

/// What was entered last for each key. The cache may have driven some of it out: it has a limit.
pub uninterp spec fn replicas_entered(
    cache: SegmentedCache<String, NodeValueReplicaDesc>,
) -> Map<Seq<char>, NodeValueReplicaDesc>;

/// `SegmentedCache::insert` stores the value under the key, in place of an earlier one.
#[verifier::external_body]
fn replicas_insert(
    cache: &mut SegmentedCache<String, NodeValueReplicaDesc>,
    key: String,
    desc: NodeValueReplicaDesc,
)
    ensures
        replicas_entered(*final(cache)) == replicas_entered(*old(cache)).insert(key@, desc),
{
    cache.insert(key, desc);
}

/// `SegmentedCache::get` finds the value that was last stored under the key, and counts as a use of
/// it. Whether it is still found depends on what the cache drove out.
#[verifier::external_body]
fn replicas_get(cache: &SegmentedCache<String, NodeValueReplicaDesc>, key: &str) -> (found: Option<
    NodeValueReplicaDesc,
>)
    ensures
        found matches Some(desc) ==> replicas_entered(*cache).contains_key(key@)
            && replicas_entered(*cache)[key@] == desc,
{
    cache.get(key)
}

/// The replica cache of a node.
pub struct NodeReplicaCache {
    cache: SegmentedCache<String, NodeValueReplicaDesc>,
}

impl View for NodeReplicaCache {
    type V = Map<Seq<char>, NodeValueReplicaDesc>;

    closed spec fn view(&self) -> Map<Seq<char>, NodeValueReplicaDesc> {
        replicas_entered(self.cache)
    }
}

impl NodeReplicaCache {
    /// A node's cache, which its maker gave a limit and a listener for what is driven out.
    pub fn new(cache: SegmentedCache<String, NodeValueReplicaDesc>) -> (replicas: Self)
        ensures
            replicas@ == replicas_entered(cache),
    {
        NodeReplicaCache { cache }
    }

    /// What the cache still has for a key. Looking counts as a use.
    pub fn used(&self, key: &str) -> (found: Option<NodeValueReplicaDesc>)
        ensures
            found matches Some(desc) ==> self@.contains_key(key@) && self@[key@] == desc,
    {
        replicas_get(&self.cache, key)
    }

    /// Enters a value, or notes that it was used.
    pub fn update_moka_for_node(&mut self, update: CacheUpdate)
        ensures
            final(self)@ == match update {
                CacheUpdate::Insert { key, desc, .. } => old(self)@.insert(key@, desc),
                CacheUpdate::Touch { .. } => old(self)@,
            },
    {
        match update {
            CacheUpdate::Insert { key, desc, .. } => {
                replicas_insert(&mut self.cache, key, desc);
            },
            CacheUpdate::Touch { key, .. } => {
                let _ = self.used(key.as_str());
            },
        }
    }

    /// Gives the cache back to its maker, which may move what it holds to another one.
    pub fn into_cache(self) -> (cache: SegmentedCache<String, NodeValueReplicaDesc>)
        ensures
            replicas_entered(cache) == self@,
    {
        self.cache
    }
}

} // verus!
