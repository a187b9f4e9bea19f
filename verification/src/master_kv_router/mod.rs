//! The master's routing of keys to replicas.

pub mod blocks;
pub mod cache_capacity;
pub mod count_prefix_index;
pub mod delete;
pub mod get;
pub mod inflight_keys;
pub mod msg_pack;
pub mod placement;
pub mod placement_metrics;
pub mod put;
pub mod registration;
pub mod replica_cache;
pub mod routes;
pub mod version_ids;

use self::cache_capacity::{CacheResize, CapacityStep, LeaseReservedBytes};
use self::count_prefix_index::PrefixRadixTree;
use self::get::InflightGetInfo;
use self::inflight_keys::InflightPutKeys;
use self::msg_pack::{CountPrefixReq, CountPrefixResp};
use self::placement_metrics::PlacementCounters;
use self::put::{InflightPutInfo, PutIDForAKey};
use self::routes::{KvRoutes, RouteModel};
use self::version_ids::RecentKeyVersions;
use crate::cluster_manager::{ClusterMember, NodeID};
use crate::config::MasterTestSwitches;
use crate::error::KvResult;
use crate::master_seg_manager::MasterSegManager;
use crate::p2p::OK;
use std::collections::HashMap;
use vstd::multiset::Multiset;
use vstd::prelude::*;

verus! {

/// Seconds after which a put in flight is forgotten.
pub const INFLIGHT_PUT_TTL_SECONDS: u64 = 60;

/// The same, where clients skip the commit of puts.
pub const INFLIGHT_PUT_TTL_SECONDS_SKIP_PUT_END_COMMIT: u64 = 5;

/// Seconds after which a get in flight is forgotten.
pub const INFLIGHT_GET_TTL_SECONDS: u64 = 60;

/// MasterKvRouter module creation parameters
#[derive(Clone, Copy, Debug, Default)]
pub struct MasterKvRouterNewArg {
    pub test_spec_config: MasterTestSwitches,
}

/// What a node's replica cache keeps of a value.
#[derive(Clone, Copy)]
pub struct NodeValueReplicaDesc {
    pub weight_bytes: u32,
    pub put_id: PutIDForAKey,
}

/// What is to be done with a node's replica cache.
pub enum CacheUpdate {
    /// The value is to be put in.
    Insert { node_id: NodeID, key: String, desc: NodeValueReplicaDesc },
    /// The value was used.
    Touch { node_id: NodeID, key: String },
}

/// Why a value left a node's replica cache.
#[derive(Clone, Copy, PartialEq, Eq, Structural)]
pub enum CacheRemoval {
    Expired,
    Explicit,
    Replaced,
    Size,
}

/// A replica that is to be deleted from its node, unless another version of its key is current.
pub struct EvictedReplica {
    pub key: String,
    pub node_id: NodeID,
    pub put_id: PutIDForAKey,
}

/// A value left a node's replica cache: the replica goes with it if the cache itself drove it out.
pub fn evicted_replica(
    key: String,
    node_id: NodeID,
    desc: NodeValueReplicaDesc,
    removal: CacheRemoval,
) -> (evicted: Option<EvictedReplica>)
    ensures
        evicted == match removal {
            CacheRemoval::Size | CacheRemoval::Expired => Some(
                EvictedReplica { key, node_id, put_id: desc.put_id },
            ),
            CacheRemoval::Explicit | CacheRemoval::Replaced => None,
        },
{
    match removal {
        CacheRemoval::Size | CacheRemoval::Expired => Some(
            EvictedReplica { key, node_id, put_id: desc.put_id },
        ),
        CacheRemoval::Explicit | CacheRemoval::Replaced => None,
    }
}

/// The weight of a block in a replica cache: its bytes, or the largest weight there is.
pub open spec fn cache_weight(capcity: u64) -> u32 {
    if capcity > u32::MAX {
        u32::MAX
    } else {
        capcity as u32
    }
}

/// The weight of a block in a replica cache. A weight that was cut off could come out as zero, and
/// such a block would never be evicted.
pub fn saturated_weight(capcity: u64) -> (weight: u32)
    ensures
        weight == cache_weight(capcity),
{
    if capcity > 4294967295 {
        4294967295
    } else {
        capcity as u32
    }
}

/// The next of the numbers of a counter that starts over after the largest.
pub open spec fn next_number(number: u64) -> u64 {
    if number == u64::MAX {
        0
    } else {
        (number + 1) as u64
    }
}

pub(crate) fn count_up(number: u64) -> (next: u64)
    ensures
        next == next_number(number),
{
    if number == u64::MAX {
        0
    } else {
        number + 1
    }
}

/// The routes of all keys, and the puts and gets in progress.
///
/// Values in progress that are not finished in time are forgotten by the caller, which knows the
/// time: see `expire_inflight_put` and `expire_inflight_get`.
pub struct MasterKvRouter {
    pub test_spec_config: MasterTestSwitches,
    pub inflight_puts: Vec<InflightPutInfo>,
    pub inflight_put_keys: InflightPutKeys,
    pub inflight_gets: HashMap<u64, InflightGetInfo>,
    /// Counter for get_id
    pub next_get_id: u64,
    /// Counter for holder_id
    pub next_holder_id: u64,
    /// Counter for route_id
    pub next_route_id: u64,
    /// Latest version of key-value replicas
    pub kv_routes: KvRoutes,
    /// Prefix-counting index for keys
    pub prefix_index: PrefixRadixTree,
    pub lease_reserved_bytes: LeaseReservedBytes,
    pub placement_counters: PlacementCounters,
    pub recent_versions: RecentKeyVersions,
}

impl MasterKvRouter {
    /// Everything that is noted is sound, each put in flight is noted once and counted for its
    /// key, the index holds each routed key once, and of a route's durable slots at least as many are
    /// in use as gets in flight hold.
    pub open spec fn wf(self) -> bool {
        &&& self.prefix_index.wf()
        &&& index_sound(self.test_spec_config, self.prefix_index@, self.kv_routes@)
        &&& put::puts_distinct(self.inflight_puts@)
        &&& inflight_keys::counts_positive(self.inflight_put_keys@)
        &&& put::puts_counted(self.inflight_puts@, self.inflight_put_keys@)
        &&& forall|i: int|
            0 <= i < self.inflight_puts@.len() ==> (#[trigger] self.inflight_puts@[i]).sound()
        &&& forall|key: Seq<char>| #[trigger]
            self.kv_routes@.contains_key(key) ==> self.route_wf(key, self.kv_routes@[key])
        &&& forall|id: u64| #[trigger]
            self.inflight_gets@.contains_key(id) ==> self.inflight_gets@[id].route_id
                < self.next_route_id && self.inflight_gets@[id].allocation.sound()
    }

    /// A route is sound, and the gets in flight hold no more of its durable slots than are in use.
    pub open spec fn route_wf(self, key: Seq<char>, route: RouteModel) -> bool {
        &&& route.wf()
        &&& route.route_id < self.next_route_id
        &&& get::durable_gets(self.inflight_gets@, key, route.route_id).len() <= route.slots
    }

    pub fn construct(arg: MasterKvRouterNewArg) -> (router: Self)
        ensures
            router.wf(),
            router.test_spec_config == arg.test_spec_config,
            router.inflight_puts@.len() == 0,
            router.inflight_put_keys@ == Map::<Seq<char>, u32>::empty(),
            router.inflight_gets@ == Map::<u64, InflightGetInfo>::empty(),
            router.next_get_id == 0,
            router.next_holder_id == 0,
            router.next_route_id == 0,
            router.kv_routes@ == Map::<Seq<char>, RouteModel>::empty(),
            router.prefix_index@ == Multiset::<Seq<char>>::empty(),
            router.lease_reserved_bytes@ == Map::<Seq<char>, u64>::empty(),
            router.placement_counters@.by_target == Map::<Seq<char>, u64>::empty(),
            router.placement_counters@.by_pair == Map::<(Seq<char>, Seq<char>), u64>::empty(),
            router.placement_counters@.by_mode == Map::<Seq<char>, u64>::empty(),
            router.recent_versions@ == Map::<Seq<char>, u32>::empty(),
    {
        MasterKvRouter {
            test_spec_config: arg.test_spec_config,
            inflight_puts: Vec::new(),
            inflight_put_keys: InflightPutKeys::new(),
            inflight_gets: HashMap::new(),
            next_get_id: 0,
            next_holder_id: 0,
            next_route_id: 0,
            kv_routes: KvRoutes::new(),
            prefix_index: PrefixRadixTree::new(),
            lease_reserved_bytes: LeaseReservedBytes::new(),
            placement_counters: PlacementCounters::new(),
            recent_versions: RecentKeyVersions::new(),
        }
    }

    /// How long a put in flight is kept, in seconds.
    pub fn inflight_put_ttl_seconds(&self) -> (seconds: u64)
        ensures
            seconds == if self.test_spec_config.skip_put_end_commit {
                INFLIGHT_PUT_TTL_SECONDS_SKIP_PUT_END_COMMIT
            } else {
                INFLIGHT_PUT_TTL_SECONDS
            },
    {
        if self.test_spec_config.skip_put_end_commit {
            INFLIGHT_PUT_TTL_SECONDS_SKIP_PUT_END_COMMIT
        } else {
            INFLIGHT_PUT_TTL_SECONDS
        }
    }

    pub fn replica_cache_enabled(&self) -> (enabled: bool)
        ensures
            enabled == !self.test_spec_config.disable_master_replica_cache,
    {
        !self.test_spec_config.disable_master_replica_cache
    }

    /// The bytes that a node's replica cache is sized by; none if the node has no cache.
    pub fn get_node_cache_controller(&self, manager: &MasterSegManager, node_id: &str) -> (size:
        Option<u64>)
        ensures
            size == if !self.test_spec_config.disable_master_replica_cache
                && manager.nodes().contains_key(node_id@) && manager.nodes()[node_id@].total_size
                > 0 {
                Some(manager.nodes()[node_id@].total_size)
            } else {
                None
            },
    {
        if !self.replica_cache_enabled() {
            return None;
        }
        let size: u64 = manager.get_node_space_size(node_id);
        if size == 0 {
            None
        } else {
            Some(size)
        }
    }

    pub fn prefix_index_enabled(&self) -> (enabled: bool)
        ensures
            enabled == !self.test_spec_config.disable_prefix_index,
    {
        !self.test_spec_config.disable_prefix_index
    }

    /// return (put_time_ms, put_version)
    pub fn get_recent_key_versionid(&mut self, key: String, put_time_ms: u64) -> (put_id:
        PutIDForAKey)
        ensures
            old(self).wf() ==> final(self).wf(),
            *final(self) == (MasterKvRouter {
                recent_versions: final(self).recent_versions,
                ..*old(self)
            }),
            put_id.0 == put_time_ms,
            version_ids::version_given(
                old(self).recent_versions@,
                final(self).recent_versions@,
                key@,
                put_id.1,
            ),
    {
        self.recent_versions.get_recent_key_versionid(key, put_time_ms)
    }

    /// A member is a real owner client, whose segments are to be registered. This follows the roles
    /// that the member publishes, not whether it offers local IPC.
    pub open spec fn ready_for_segment_registration(member: ClusterMember) -> bool {
        &&& member.metadata.flag("client"@)
        &&& member.metadata.flag("p2p_relay"@)
        &&& !member.metadata.flag("external_client"@)
        &&& !member.metadata.flag("side_transfer_worker"@)
    }

    pub fn member_ready_for_segment_registration(member: &ClusterMember) -> (ready: bool)
        ensures
            ready == Self::ready_for_segment_registration(*member),
    {
        member.metadata.is_true("client") && member.metadata.is_true("p2p_relay")
            && !member.metadata.is_true("external_client") && !member.metadata.is_true(
            "side_transfer_worker",
        )
    }

    /// Adjust a node's cache capacity reservation by `delta_bytes`. Positive delta reserves
    /// capacity, negative delta releases reservation. `base_capacity` is the share of the node's
    /// memory that its cache may use.
    pub fn adjust_node_cache_capacity_for_lease(
        &mut self,
        manager: &MasterSegManager,
        node_id: &str,
        delta_bytes: i64,
        base_capacity: u64,
    ) -> (step: CapacityStep)
        requires
            delta_bytes > i64::MIN,
        ensures
            old(self).wf() ==> final(self).wf(),
            *final(self) == (MasterKvRouter {
                lease_reserved_bytes: final(self).lease_reserved_bytes,
                ..*old(self)
            }),
            capacity_adjusted(
                old(self).test_spec_config,
                *manager,
                old(self).lease_reserved_bytes@,
                final(self).lease_reserved_bytes@,
                node_id@,
                delta_bytes as int,
                base_capacity,
                step,
            ),
    {
        if !self.replica_cache_enabled() {
            return CapacityStep::Done(Ok(()));
        }
        let node_space_size: u64 = manager.get_node_space_size(node_id);
        self.lease_reserved_bytes.begin_adjustment(
            node_id,
            delta_bytes,
            node_space_size,
            base_capacity,
        )
    }

    /// Takes what came of resizing the node's cache.
    pub fn finish_capacity_adjustment(
        &mut self,
        node_id: &str,
        delta_bytes: i64,
        resize: CacheResize,
    ) -> (result: KvResult<()>)
        requires
            delta_bytes > i64::MIN,
        ensures
            old(self).wf() ==> final(self).wf(),
            *final(self) == (MasterKvRouter {
                lease_reserved_bytes: final(self).lease_reserved_bytes,
                ..*old(self)
            }),
            match cache_capacity::resize_error(node_id@, resize) {
                None => result is Ok && final(self).lease_reserved_bytes@ == old(
                    self,
                ).lease_reserved_bytes@,
                Some(error) => {
                    &&& result matches Err(e) && e@ == error
                    &&& final(self).lease_reserved_bytes@ == cache_capacity::with_shift(
                        old(self).lease_reserved_bytes@,
                        node_id@,
                        -(delta_bytes as int),
                    )
                },
            },
    {
        self.lease_reserved_bytes.finish_adjustment(node_id, delta_bytes, resize)
    }

    /// The number of keys with a route that begin with `prefix`.
    fn count_routes(&self, prefix: &str) -> (count: u64)
        requires
            self.kv_routes@.len() <= u64::MAX,
        ensures
            count == routed_keys_with_prefix(self.kv_routes@, prefix@),
    {
        let keys = self.kv_routes.keys();
        let mut count: u64 = 0;
        let mut i: usize = 0;
        let ghost mut found = Set::<Seq<char>>::empty();
        while i < keys.len()
            invariant
                i <= keys@.len(),
                crate::dash::lists_keys(keys@, self.kv_routes@.dom()),
                found.finite(),
                count == found.len(),
                count <= i,
                forall|key: Seq<char>| #[trigger]
                    found.contains(key) <==> prefix@.is_prefix_of(key) && exists|j: int|
                        0 <= j < i && keys@[j]@ == key,
            decreases keys@.len() - i,
        {
            let ghost name = keys@[i as int]@;
            assert(!found.contains(name)) by {
                if found.contains(name) {
                    let j = choose|j: int| 0 <= j < i && keys@[j]@ == name;
                    assert(keys@[j]@ != keys@[i as int]@);
                }
            }
            let ghost before = found;
            if crate::text::starts_with(keys[i].as_str(), prefix) {
                count = count + 1;
                proof {
                    found = found.insert(name);
                }
            }
            assert forall|key: Seq<char>| #[trigger]
                found.contains(key) <==> prefix@.is_prefix_of(key) && exists|j: int|
                    0 <= j < i + 1 && keys@[j]@ == key by {
                if exists|j: int| 0 <= j < i + 1 && keys@[j]@ == key {
                    let j = choose|j: int| 0 <= j < i + 1 && keys@[j]@ == key;
                    if j < i {
                        assert(exists|k: int| 0 <= k < i && keys@[k]@ == key);
                    }
                }
                if before.contains(key) {
                    let j = choose|j: int| 0 <= j < i && keys@[j]@ == key;
                    assert(0 <= j < i + 1 && keys@[j]@ == key);
                }
                assert(keys@[i as int]@ == name);
            }
            i = i + 1;
        }
        assert(found =~= self.kv_routes@.dom().filter(
            |key: Seq<char>| prefix@.is_prefix_of(key),
        ));
        count
    }

    /// Counts the keys that begin with a prefix: by the index, or over the routes where the index is
    /// switched off.
    pub fn handle_count_prefix(&self, req: &CountPrefixReq) -> (resp: CountPrefixResp)
        requires
            self.wf(),
            self.kv_routes@.len() <= u64::MAX,
        ensures
            resp.error_code == OK,
            resp.error_json@ == Seq::<char>::empty(),
            resp.count == routed_keys_with_prefix(self.kv_routes@, req.prefix@),
    {
        proof {
            if !self.test_spec_config.disable_prefix_index {
                lemma_indexed_keys_are_finite(self.prefix_index@, self.kv_routes@);
                law_index_agrees_with_routes(self.prefix_index@, self.kv_routes@, req.prefix@);
            }
        }
        let count: u64 = if self.prefix_index_enabled() {
            self.prefix_index.count_prefix(req.prefix.as_str())
        } else {
            self.count_routes(req.prefix.as_str())
        };
        CountPrefixResp { count, error_code: OK, error_json: String::new() }
    }
}

/// The multiset holds each routed key once, and nothing else.
pub open spec fn indexes(keys: Multiset<Seq<char>>, routes: Map<Seq<char>, RouteModel>) -> bool {
    forall|key: Seq<char>| #[trigger]
        keys.count(key) == if routes.contains_key(key) {
            1nat
        } else {
            0
        }
}

/// The index holds each routed key once; one that is switched off holds nothing.
pub open spec fn index_sound(
    switches: MasterTestSwitches,
    keys: Multiset<Seq<char>>,
    routes: Map<Seq<char>, RouteModel>,
) -> bool {
    if switches.disable_prefix_index {
        keys == Multiset::<Seq<char>>::empty()
    } else {
        indexes(keys, routes)
    }
}

/// The index after the route of one key changed: a key that got its first route enters it, and a key
/// that lost its route leaves it.
pub open spec fn reindexed(
    before: MasterKvRouter,
    routes: Map<Seq<char>, RouteModel>,
    key: Seq<char>,
) -> Multiset<Seq<char>> {
    if before.test_spec_config.disable_prefix_index {
        before.prefix_index@
    } else if routes.contains_key(key) && !before.kv_routes@.contains_key(key) {
        before.prefix_index@.insert(key)
    } else if !routes.contains_key(key) && before.kv_routes@.contains_key(key) {
        before.prefix_index@.remove(key)
    } else {
        before.prefix_index@
    }
}

/// The number of routed keys that begin with `prefix`.
pub open spec fn routed_keys_with_prefix(
    routes: Map<Seq<char>, RouteModel>,
    prefix: Seq<char>,
) -> nat {
    routes.dom().filter(|key: Seq<char>| prefix.is_prefix_of(key)).len()
}

/// What adjusting a node's reservation does, and what it asks for. With the replica caches switched
/// off there is nothing to do.
pub open spec fn capacity_adjusted(
    switches: MasterTestSwitches,
    manager: MasterSegManager,
    before: Map<Seq<char>, u64>,
    after: Map<Seq<char>, u64>,
    node_id: Seq<char>,
    delta: int,
    base_capacity: u64,
    step: CapacityStep,
) -> bool {
    if switches.disable_master_replica_cache {
        &&& step matches CapacityStep::Done(Ok(_))
        &&& after == before
    } else if !manager.nodes().contains_key(node_id) || manager.nodes()[node_id].total_size == 0 {
        &&& step matches CapacityStep::Done(Err(e)) && e@ == cache_capacity::no_space_to_adjust(
            node_id,
        )
        &&& after == before.insert(node_id, cache_capacity::reserved_on(before, node_id))
    } else {
        &&& after == cache_capacity::with_shift(before, node_id, delta)
        &&& step == (CapacityStep::SetMaxCapacity {
            new_capacity: cache_capacity::capacity_left(
                base_capacity,
                cache_capacity::reserved_on(after, node_id),
            ),
        })
    }
}

/// A router that may be gone.
pub struct MasterKvRouterView {
    pub router: Option<MasterKvRouter>,
}

impl MasterKvRouterView {
    /// Adjusts a node's reservation as long as the router is there.
    pub fn try_adjust_node_cache_capacity_for_lease(
        &mut self,
        manager: &MasterSegManager,
        node_id: &str,
        delta_bytes: i64,
        base_capacity: u64,
    ) -> (step: Option<CapacityStep>)
        requires
            delta_bytes > i64::MIN,
        ensures
            old(self).router is None ==> step is None && final(self).router is None,
            old(self).router is Some ==> {
                &&& step is Some
                &&& final(self).router is Some
                &&& capacity_adjusted(
                    old(self).router->0.test_spec_config,
                    *manager,
                    old(self).router->0.lease_reserved_bytes@,
                    final(self).router->0.lease_reserved_bytes@,
                    node_id@,
                    delta_bytes as int,
                    base_capacity,
                    step->0,
                )
                &&& final(self).router->0 == (MasterKvRouter {
                    lease_reserved_bytes: final(self).router->0.lease_reserved_bytes,
                    ..old(self).router->0
                })
            },
    {
        match self.router.take() {
            None => None,
            Some(router) => {
                let mut router = router;
                let step = router.adjust_node_cache_capacity_for_lease(
                    manager,
                    node_id,
                    delta_bytes,
                    base_capacity,
                );
                self.router = Some(router);
                Some(step)
            },
        }
    }
}

/// A multiset that holds each of some keys once has as many elements as there are keys.
proof fn lemma_one_of_each(keys: Multiset<Seq<char>>, set: Set<Seq<char>>)
    requires
        set.finite(),
        forall|key: Seq<char>| #[trigger]
            keys.count(key) == if set.contains(key) {
                1nat
            } else {
                0
            },
    ensures
        keys.len() == set.len(),
    decreases set.len(),
{
    broadcast use vstd::multiset::group_multiset_axioms;

    if set.len() == 0 {
        assert(set =~= Set::empty());
        assert(keys =~= Multiset::empty());
    } else {
        let key = set.choose();
        let fewer = keys.remove(key);
        lemma_one_of_each(fewer, set.remove(key));
        assert(fewer.insert(key) =~= keys);
    }
}

proof fn lemma_indexed_keys_are_finite(
    keys: Multiset<Seq<char>>,
    routes: Map<Seq<char>, RouteModel>,
)
    requires
        indexes(keys, routes),
    ensures
        routes.dom().finite(),
{
    broadcast use vstd::multiset::group_multiset_axioms;

    assert forall|key: Seq<char>| #[trigger] routes.dom().contains(key) implies keys.dom().contains(
        key,
    ) by {
        assert(keys.count(key) == 1);
    }
    assert(routes.dom().subset_of(keys.dom()));
    vstd::set_lib::lemma_set_subset_finite(keys.dom(), routes.dom());
}

/// The index and the scan of the routes count the same.
pub proof fn law_index_agrees_with_routes(
    keys: Multiset<Seq<char>>,
    routes: Map<Seq<char>, RouteModel>,
    prefix: Seq<char>,
)
    requires
        indexes(keys, routes),
    ensures
        count_prefix_index::keys_with_prefix(keys, prefix) == routed_keys_with_prefix(
            routes,
            prefix,
        ),
{
    broadcast use vstd::multiset::group_multiset_axioms;

    lemma_indexed_keys_are_finite(keys, routes);
    let begins = |key: Seq<char>| prefix.is_prefix_of(key);
    lemma_one_of_each(keys.filter(begins), routes.dom().filter(begins));
}

/// A key that is put again counts as before, whether the index is switched on or not.
pub proof fn law_overwritten_key_counts_once(
    before: MasterKvRouter,
    after: MasterKvRouter,
    key: Seq<char>,
    put_id: PutIDForAKey,
    lease_id: Option<u64>,
    replica: routes::KvRouteInfo,
    released: Seq<crate::master_seg_manager::one_seg_allocator::Allocation>,
    outcome: put::PutDoneOutcome,
    prefix: Seq<char>,
)
    requires
        put::committed(before, after, key, put_id, lease_id, replica, released, outcome),
        before.kv_routes@.contains_key(key),
    ensures
        routed_keys_with_prefix(after.kv_routes@, prefix) == routed_keys_with_prefix(
            before.kv_routes@,
            prefix,
        ),
        after.prefix_index@ == before.prefix_index@,
{
    assert(after.kv_routes@.dom() =~= before.kv_routes@.dom());
}

} // verus!
