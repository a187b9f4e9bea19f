//! Reading values: the get protocol.
//!
//! A get is started, transferred by the clients, and then completed or revoked. It is served from a
//! replica on a node that is not gone, into memory of the requester.

use super::msg_pack::{
    GetAllocationMode, GetDoneReq, GetDoneResp, GetMetaReq, GetMetaResp, GetRevokeReq, GetRevokeResp,
    GetStartReq, GetStartResp,
};
use super::put::PutIDForAKey;
use super::routes::{KvRouteInfo, OneKvNodesRoutes, RouteModel};
use super::{CacheUpdate, MasterKvRouter, NodeValueReplicaDesc};
use crate::choice::{random_index, random_item};
use crate::cluster_manager::NodeID;
use crate::error::{ApiError, ApiErrorOf, KvError, KvErrorOf, KvResult, UnreachableError, UnreachableErrorOf};
use crate::master_seg_manager::one_seg_allocator::{Allocation, AllocationOutcome, OneSegAllocator};
use crate::master_seg_manager::{MasterSegManager, TombBoard};
use crate::p2p::OK;
use crate::text;
use vstd::prelude::*;

verus! {

/// How often the requester's segment is tried.
pub const TARGET_ATTEMPTS: u8 = 3;

/// Information about a `get` operation that is currently in progress.
pub struct InflightGetInfo {
    pub put_id: PutIDForAKey,
    pub src_node_id: NodeID,
    pub key: String,
    pub req_node_id: NodeID,
    pub len: u64,
    pub allocation: Allocation,
    /// The route that the get was served from.
    pub route_id: u64,
    pub allocation_mode: GetAllocationMode,
}

/// Information about a `get` operation that has completed transfer and is being held.
pub struct OwnerHoldingGetInfo {
    pub key: String,
    /// The node that requested the get (holder of the memory)
    pub holding_node_id: NodeID,
    pub len: u64,
    /// The target allocation where data was transferred
    pub allocation: Allocation,
}

impl InflightGetInfo {
    /// The get holds a durable slot of a route.
    pub open spec fn holds_slot_of(self, key: Seq<char>, route_id: u64) -> bool {
        &&& self.allocation_mode == GetAllocationMode::DurableReplica
        &&& self.key@ == key
        &&& self.route_id == route_id
    }
}

/// The gets in flight that hold a durable slot of a route.
pub open spec fn durable_gets(
    gets: Map<u64, InflightGetInfo>,
    key: Seq<char>,
    route_id: u64,
) -> Set<u64> {
    gets.dom().filter(|id: u64| gets[id].holds_slot_of(key, route_id))
}

/// No get in flight is of a route with a new number.
pub proof fn lemma_no_gets_of_new_route(
    gets: Map<u64, InflightGetInfo>,
    key: Seq<char>,
    route_id: u64,
)
    requires
        forall|id: u64| #[trigger] gets.contains_key(id) ==> gets[id].route_id < route_id,
    ensures
        durable_gets(gets, key, route_id).len() == 0,
{
    assert(durable_gets(gets, key, route_id) =~= Set::empty());
}

/// How many gets hold a slot of a route, once one more get is in flight.
proof fn lemma_durable_gets_insert(
    gets: Map<u64, InflightGetInfo>,
    id: u64,
    info: InflightGetInfo,
    key: Seq<char>,
    route_id: u64,
)
    requires
        gets.dom().finite(),
    ensures
        durable_gets(gets.insert(id, info), key, route_id).len() <= durable_gets(
            gets,
            key,
            route_id,
        ).len() + if info.holds_slot_of(key, route_id) {
            1nat
        } else {
            0
        },
{
    let before = durable_gets(gets, key, route_id);
    let after = durable_gets(gets.insert(id, info), key, route_id);
    if info.holds_slot_of(key, route_id) {
        assert(after =~= before.insert(id));
    } else {
        assert(after =~= before.remove(id));
    }
}

/// How many gets hold a slot of a route, once a get is not in flight any more.
proof fn lemma_durable_gets_remove(
    gets: Map<u64, InflightGetInfo>,
    id: u64,
    key: Seq<char>,
    route_id: u64,
)
    requires
        gets.dom().finite(),
        gets.contains_key(id),
    ensures
        durable_gets(gets.remove(id), key, route_id).len() == durable_gets(
            gets,
            key,
            route_id,
        ).len() - if gets[id].holds_slot_of(key, route_id) {
            1nat
        } else {
            0
        },
{
    let before = durable_gets(gets, key, route_id);
    let after = durable_gets(gets.remove(id), key, route_id);
    assert(after =~= before.remove(id));
    if gets[id].holds_slot_of(key, route_id) {
        assert(before.contains(id));
    } else {
        assert(!before.contains(id));
    }
}

/// Whether `tombs` may be what was found to be gone while looking for the replica `chosen`: only
/// nodes that are gone, and all of them if no replica was found.
pub open spec fn selection_ok(
    route: RouteModel,
    marks: Seq<bool>,
    chosen: Option<KvRouteInfo>,
    tombs: Seq<String>,
) -> bool {
    &&& forall|i: int|
        0 <= i < route.replicas.len() && super::routes::names_contain(
            tombs,
            (#[trigger] route.replicas[i]).node_id@,
        ) ==> route.replicas[i].tomb_tag.tombed(marks)
    &&& match chosen {
        Some(replica) => route.replicas.contains(replica) && !replica.tomb_tag.tombed(marks),
        None => forall|i: int|
            0 <= i < route.replicas.len() ==> super::routes::names_contain(
                tombs,
                (#[trigger] route.replicas[i]).node_id@,
            ),
    }
}

/// A replica on the node with this name is gone.
spec fn gone_node(route: RouteModel, marks: Seq<bool>, name: Seq<char>) -> bool {
    exists|i: int|
        0 <= i < route.replicas.len() && (#[trigger] route.replicas[i]).node_id@ == name
            && route.replicas[i].tomb_tag.tombed(marks)
}

/// `i` is among the positions that are left.
spec fn still_left(left: Seq<usize>, i: int) -> bool {
    exists|k: int| 0 <= k < left.len() && #[trigger] left[k] == i
}

/// Looks for a replica on a node that is not gone, in random order, and collects the nodes that are
/// gone on the way.
fn select_replica(route: &OneKvNodesRoutes, board: &TombBoard) -> (selected: (
    Option<KvRouteInfo>,
    Vec<NodeID>,
))
    requires
        route@.wf(),
    ensures
        selection_ok(route@, board@, selected.0, selected.1@),
{
    let ghost replicas = route@.replicas;
    let mut left: Vec<usize> = Vec::new();
    let mut n: usize = 0;
    while n < route.nodes_replicas.len()
        invariant
            n <= route.nodes_replicas@.len(),
            left@.len() == n,
            forall|k: int| 0 <= k < n ==> left@[k] == k,
        decreases route.nodes_replicas@.len() - n,
    {
        left.push(n);
        n = n + 1;
    }
    let mut tombs: Vec<NodeID> = Vec::new();
    proof {
        assert forall|i: int| 0 <= i < replicas.len() implies still_left(left@, i)
            || super::routes::names_contain(tombs@, (#[trigger] replicas[i]).node_id@) by {
            assert(left@[i] == i);
        }
    }
    while left.len() > 0
        invariant
            replicas == route@.replicas,
            route@.wf(),
            forall|k: int| 0 <= k < left@.len() ==> (#[trigger] left@[k]) < replicas.len(),
            forall|i: int|
                0 <= i < replicas.len() ==> still_left(left@, i) || super::routes::names_contain(
                    tombs@,
                    (#[trigger] replicas[i]).node_id@,
                ),
            forall|t: int|
                0 <= t < tombs@.len() ==> gone_node(route@, board@, (#[trigger] tombs@[t])@),
        decreases left@.len(),
    {
        let pick: usize = random_index(left.len());
        let ghost before = left@;
        let at: usize = left.remove(pick);
        proof {
            assert(before[pick as int] == at);
            assert forall|k: int| 0 <= k < left@.len() implies (#[trigger] left@[k])
                < replicas.len() by {
                if k < pick {
                    assert(left@[k] == before[k]);
                } else {
                    assert(left@[k] == before[k + 1]);
                }
            }
        }
        if !route.nodes_replicas[at].tomb_tag.is_tomb(board) {
            proof {
                lemma_tombs_are_gone(route@, board@, tombs@);
                assert(replicas.contains(replicas[at as int]));
            }
            return (Some(route.nodes_replicas[at].duplicate()), tombs);
        }
        let ghost found = tombs@;
        tombs.push(route.nodes_replicas[at].node_id.clone());
        proof {
            assert(tombs@[found.len() as int]@ == replicas[at as int].node_id@);
            assert forall|i: int| 0 <= i < replicas.len() implies still_left(left@, i)
                || super::routes::names_contain(tombs@, (#[trigger] replicas[i]).node_id@) by {
                if i != at {
                    if still_left(before, i) {
                        let k = choose|k: int| 0 <= k < before.len() && #[trigger] before[k] == i;
                        if k < pick {
                            assert(left@[k] == i);
                        } else {
                            assert(left@[k - 1] == i);
                        }
                    } else {
                        let t = choose|t: int|
                            0 <= t < found.len() && (#[trigger] found[t])@
                                == replicas[i].node_id@;
                        assert(tombs@[t]@ == replicas[i].node_id@);
                    }
                }
            }
            assert forall|t: int| 0 <= t < tombs@.len() implies gone_node(
                route@,
                board@,
                (#[trigger] tombs@[t])@,
            ) by {
                if t < found.len() {
                    assert(tombs@[t] == found[t]);
                } else {
                    assert(route@.replicas[at as int].node_id@ == tombs@[t]@);
                }
            }
        }
    }
    proof {
        lemma_tombs_are_gone(route@, board@, tombs@);
        assert forall|i: int| 0 <= i < replicas.len() implies super::routes::names_contain(
            tombs@,
            (#[trigger] replicas[i]).node_id@,
        ) by {
            assert(!still_left(left@, i));
        }
    }
    (None, tombs)
}

/// Since replicas are on distinct nodes, a replica on a node that was found to be gone is gone.
proof fn lemma_tombs_are_gone(route: RouteModel, marks: Seq<bool>, tombs: Seq<String>)
    requires
        route.wf(),
        forall|t: int| 0 <= t < tombs.len() ==> gone_node(route, marks, (#[trigger] tombs[t])@),
    ensures
        forall|i: int|
            0 <= i < route.replicas.len() && super::routes::names_contain(
                tombs,
                (#[trigger] route.replicas[i]).node_id@,
            ) ==> route.replicas[i].tomb_tag.tombed(marks),
{
    assert forall|i: int|
        0 <= i < route.replicas.len() && super::routes::names_contain(
            tombs,
            (#[trigger] route.replicas[i]).node_id@,
        ) implies route.replicas[i].tomb_tag.tombed(marks) by {
        let t = choose|t: int|
            0 <= t < tombs.len() && (#[trigger] tombs[t])@ == route.replicas[i].node_id@;
        let j = choose|j: int|
            0 <= j < route.replicas.len() && (#[trigger] route.replicas[j]).node_id@ == tombs[t]@
                && route.replicas[j].tomb_tag.tombed(marks);
        if i < j {
            assert(route.replicas[i].node_id@ != route.replicas[j].node_id@);
        } else if j < i {
            assert(route.replicas[j].node_id@ != route.replicas[i].node_id@);
        }
    }
}

/// The routes once the replicas on nodes that are gone were dropped from one version of a key; a
/// route without replicas goes with them.
pub open spec fn cleaned(
    routes: Map<Seq<char>, RouteModel>,
    key: Seq<char>,
    put_id: PutIDForAKey,
    tombs: Seq<String>,
) -> Map<Seq<char>, RouteModel> {
    if routes.contains_key(key) && routes[key].put_id == put_id {
        let kept = super::routes::replicas_off(routes[key].replicas, tombs);
        if kept.len() == 0 {
            routes.remove(key)
        } else {
            routes.insert(key, RouteModel { replicas: kept, ..routes[key] })
        }
    } else {
        routes
    }
}

/// The replicas that such a cleanup drops.
pub open spec fn cleaned_off(
    routes: Map<Seq<char>, RouteModel>,
    key: Seq<char>,
    put_id: PutIDForAKey,
    tombs: Seq<String>,
) -> Seq<KvRouteInfo> {
    if routes.contains_key(key) && routes[key].put_id == put_id {
        super::routes::replicas_on(routes[key].replicas, tombs)
    } else {
        Seq::empty()
    }
}

/// A get that is being started.
pub struct StartingGet {
    pub get_id: u64,
    pub key: String,
    pub req_node_id: NodeID,
    pub put_id: PutIDForAKey,
    pub route_id: u64,
    pub lease_id: Option<u64>,
    /// The replica that the get is served from.
    pub src: KvRouteInfo,
    /// The nodes that were found to be gone.
    pub tombs: Vec<NodeID>,
}

/// A get that waits for memory.
pub struct PendingGet {
    pub get: StartingGet,
    pub allocator: OneSegAllocator,
    pub attempts_left: u8,
}

impl PendingGet {
    pub open spec fn wf(self) -> bool {
        self.get.src.allocation.sound()
    }

    /// The block that was granted is sound.
    pub open spec fn accepts(self, outcome: AllocationOutcome) -> bool {
        outcome.region matches Some(region) ==> self.allocator.allocation(
            self.get.src.allocation.size,
            region,
        ).sound()
    }
}

/// What starting a get comes to.
pub enum GetStartStep {
    /// As many bytes as the value has are to be allocated for the requester.
    TryAllocate(PendingGet),
    /// The start is over. `get_id` is zero if it failed.
    Done(GetStartOutcome),
}

pub struct GetStartOutcome {
    pub get_id: u64,
    pub reply: KvResult<GetStartResp>,
    /// Replicas that are not held any more.
    pub dropped: Vec<KvRouteInfo>,
    pub cache_update: Option<CacheUpdate>,
}

/// The error for a key without a value.
pub open spec fn key_not_found(key: Seq<char>) -> KvErrorOf<Seq<char>> {
    KvErrorOf::Api(ApiErrorOf::KeyNotFound { key })
}

/// The error for a requester without segments.
pub open spec fn requester_without_segments() -> KvErrorOf<Seq<char>> {
    KvErrorOf::Unreachable(
        UnreachableErrorOf::OwnerNoSeg {
            detail: "config=0 initializes as external; non-zero initializes as owner; the owner must have memory space (segment)"@,
        },
    )
}

/// The start failed with an error.
pub open spec fn get_failed(
    step: GetStartStep,
    error: KvErrorOf<Seq<char>>,
    dropped: Seq<KvRouteInfo>,
) -> bool {
    step matches GetStartStep::Done(outcome) && outcome.get_id == 0 && (
    outcome.reply matches Err(e) && e@ == error) && outcome.dropped@ == dropped
        && outcome.cache_update is None
}

/// Whether a get takes a durable slot: the route that it is served from is still the current one,
/// and has a slot left.
pub open spec fn slot_free(routes: Map<Seq<char>, RouteModel>, key: Seq<char>, route_id: u64) -> bool {
    &&& routes.contains_key(key)
    &&& routes[key].route_id == route_id
    &&& routes[key].slots < super::routes::MAX_GET_DURABLE_REPLICA_SLOTS
}

/// The mode of a get into new memory.
pub open spec fn mode_of_new_block(
    routes: Map<Seq<char>, RouteModel>,
    key: Seq<char>,
    route_id: u64,
) -> GetAllocationMode {
    if slot_free(routes, key, route_id) {
        GetAllocationMode::DurableReplica
    } else {
        GetAllocationMode::Temporary
    }
}

/// The routes once a get of that mode took its slot.
pub open spec fn with_slot_taken(
    routes: Map<Seq<char>, RouteModel>,
    key: Seq<char>,
    mode: GetAllocationMode,
) -> Map<Seq<char>, RouteModel> {
    if mode == GetAllocationMode::DurableReplica {
        routes.insert(key, RouteModel { slots: (routes[key].slots + 1) as u32, ..routes[key] })
    } else {
        routes
    }
}

/// The get in progress that is noted.
pub open spec fn noted_get(
    get: StartingGet,
    target: Allocation,
    mode: GetAllocationMode,
) -> InflightGetInfo {
    InflightGetInfo {
        put_id: get.put_id,
        src_node_id: get.src.node_id,
        key: get.key,
        req_node_id: get.req_node_id,
        len: get.src.allocation.size,
        allocation: target,
        route_id: get.route_id,
        allocation_mode: mode,
    }
}

/// The response to a get that was started. Where the requester has the value already, source and
/// target are its own replica.
pub open spec fn get_answered(
    resp: GetStartResp,
    get: StartingGet,
    target: Allocation,
    mode: GetAllocationMode,
) -> bool {
    let reuse = mode == GetAllocationMode::ReuseReplica;
    let src = if reuse {
        target
    } else {
        get.src.allocation
    };
    &&& resp.put_id == get.put_id
    &&& resp.get_id == get.get_id
    &&& resp.node_id@ == if reuse {
        get.req_node_id@
    } else {
        get.src.node_id@
    }
    &&& resp.src_addr == src.base + src.addr
    &&& resp.target_addr == target.base + target.addr
    &&& resp.src_base_addr == src.base
    &&& resp.target_base_addr == target.base
    &&& resp.len == get.src.allocation.size
    &&& resp.error_code == OK
    &&& resp.error_json@ == Seq::<char>::empty()
    &&& resp.server_process_us == 0
}

/// What a get that found its target does to the router, and what it comes to.
pub open spec fn get_started(
    before: MasterKvRouter,
    after: MasterKvRouter,
    get: StartingGet,
    target: Allocation,
    mode: GetAllocationMode,
    step: GetStartStep,
) -> bool {
    let taken = with_slot_taken(before.kv_routes@, get.key@, mode);
    &&& after.inflight_gets@ == before.inflight_gets@.insert(
        get.get_id,
        noted_get(get, target, mode),
    )
    &&& after.kv_routes@ == cleaned(taken, get.key@, get.put_id, get.tombs@)
    &&& after.prefix_index@ == super::reindexed(before, after.kv_routes@, get.key@)
    &&& after == (MasterKvRouter {
        inflight_gets: after.inflight_gets,
        kv_routes: after.kv_routes,
        prefix_index: after.prefix_index,
        ..before
    })
    &&& step matches GetStartStep::Done(outcome) && outcome.get_id == get.get_id && (
    outcome.reply matches Ok(resp) && get_answered(resp, get, target, mode)) && outcome.dropped@
        == cleaned_off(taken, get.key@, get.put_id, get.tombs@) && if get.lease_id is None
        && !before.test_spec_config.disable_master_replica_cache {
        outcome.cache_update matches Some(CacheUpdate::Touch { node_id, key }) && node_id@
            == get.src.node_id@ && key@ == get.key@
    } else {
        outcome.cache_update is None
    }
}

/// What a get that failed does to the router: the replicas that were found to be gone are dropped.
pub open spec fn get_abandoned(
    before: MasterKvRouter,
    after: MasterKvRouter,
    key: Seq<char>,
    put_id: PutIDForAKey,
    tombs: Seq<String>,
    error: KvErrorOf<Seq<char>>,
    step: GetStartStep,
) -> bool {
    &&& after.kv_routes@ == cleaned(before.kv_routes@, key, put_id, tombs)
    &&& after.prefix_index@ == super::reindexed(before, after.kv_routes@, key)
    &&& after == (MasterKvRouter {
        kv_routes: after.kv_routes,
        prefix_index: after.prefix_index,
        ..before
    })
    &&& get_failed(step, error, cleaned_off(before.kv_routes@, key, put_id, tombs))
}

/// What starting a get does once a replica was looked for, with `allocator` chosen among the
/// requester's segments.
pub open spec fn get_begun(
    before: MasterKvRouter,
    after: MasterKvRouter,
    get_id: u64,
    key: String,
    req_node_id: NodeID,
    chosen: Option<KvRouteInfo>,
    tombs: Vec<NodeID>,
    allocator: Option<OneSegAllocator>,
    step: GetStartStep,
) -> bool {
    let route = before.kv_routes@[key@];
    match chosen {
        None => get_abandoned(
            before,
            after,
            key@,
            route.put_id,
            tombs@,
            key_not_found(key@),
            step,
        ),
        Some(src) => {
            let get = StartingGet {
                get_id,
                key,
                req_node_id,
                put_id: route.put_id,
                route_id: route.route_id,
                lease_id: route.lease_id,
                src,
                tombs,
            };
            match route.replica_on(req_node_id@) {
                Some(own) => get_started(
                    before,
                    after,
                    get,
                    own.allocation,
                    GetAllocationMode::ReuseReplica,
                    step,
                ),
                None => match allocator {
                    None => get_abandoned(
                        before,
                        after,
                        key@,
                        route.put_id,
                        tombs@,
                        requester_without_segments(),
                        step,
                    ),
                    Some(allocator) => {
                        &&& after == before
                        &&& step == GetStartStep::TryAllocate(
                            PendingGet { get, allocator, attempts_left: TARGET_ATTEMPTS },
                        )
                    },
                },
            }
        },
    }
}

fn failed_get(error: KvError, dropped: Vec<KvRouteInfo>) -> (step: GetStartStep)
    ensures
        get_failed(step, error@, dropped@),
{
    GetStartStep::Done(
        GetStartOutcome { get_id: 0, reply: Err(error), dropped, cache_update: None },
    )
}

fn not_found(key: &str) -> (error: KvError)
    ensures
        error@ == key_not_found(key@),
{
    KvError::Api(ApiError::KeyNotFound { key: key.to_owned() })
}

/// The cleanup of one key's route keeps the router sound.
proof fn lemma_cleaned_wf(
    router: MasterKvRouter,
    routes: Map<Seq<char>, RouteModel>,
    key: Seq<char>,
    put_id: PutIDForAKey,
    tombs: Seq<String>,
)
    requires
        forall|k: Seq<char>| #[trigger] routes.contains_key(k) ==> router.route_wf(k, routes[k]),
    ensures
        forall|k: Seq<char>| #[trigger]
            cleaned(routes, key, put_id, tombs).contains_key(k) ==> router.route_wf(
                k,
                cleaned(routes, key, put_id, tombs)[k],
            ),
{
    if routes.contains_key(key) && routes[key].put_id == put_id {
        super::routes::lemma_replicas_off_distinct(routes[key], tombs);
    }
}

impl MasterKvRouter {
    /// Drops the replicas on nodes that are gone from one version of a key, and returns them.
    fn clean_up_tombs(&mut self, key: &str, put_id: PutIDForAKey, tombs: &Vec<NodeID>) -> (dropped:
        Vec<KvRouteInfo>)
        requires
            old(self).wf(),
        ensures
            final(self).wf(),
            *final(self) == (MasterKvRouter {
                kv_routes: final(self).kv_routes,
                prefix_index: final(self).prefix_index,
                ..*old(self)
            }),
            final(self).kv_routes@ == cleaned(old(self).kv_routes@, key@, put_id, tombs@),
            final(self).prefix_index@ == super::reindexed(
                *old(self),
                final(self).kv_routes@,
                key@,
            ),
            dropped@ == cleaned_off(old(self).kv_routes@, key@, put_id, tombs@),
    {
        proof {
            lemma_cleaned_wf(*self, self.kv_routes@, key@, put_id, tombs@);
        }
        let dropped = match self.kv_routes.get(key) {
            None => Vec::new(),
            Some(route) => {
                let mut route = route;
                match route.clean_up_tomb_nodes_replicas(put_id, tombs) {
                    None => Vec::new(),
                    Some(dropped) => {
                        if route.nodes_replicas.len() == 0 {
                            let _ = self.kv_routes.remove(key);
                            if self.prefix_index_enabled() {
                                self.prefix_index.remove(key);
                            }
                        } else {
                            let _ = self.kv_routes.insert(key.to_owned(), route);
                        }
                        dropped
                    },
                }
            },
        };
        proof {
            broadcast use vstd::multiset::group_multiset_axioms;

            let after = cleaned(old(self).kv_routes@, key@, put_id, tombs@);
            assert(self.kv_routes@ =~= after);
            assert forall|k: Seq<char>| #[trigger] self.kv_routes@.contains_key(k) implies
                self.route_wf(k, self.kv_routes@[k]) by {
                assert(after.contains_key(k));
            }
        }
        dropped
    }

    /// Ends the start of a get with an error.
    fn abandon_get(
        &mut self,
        key: &str,
        put_id: PutIDForAKey,
        tombs: &Vec<NodeID>,
        error: KvError,
    ) -> (step: GetStartStep)
        requires
            old(self).wf(),
        ensures
            final(self).wf(),
            get_abandoned(*old(self), *final(self), key@, put_id, tombs@, error@, step),
    {
        let dropped = self.clean_up_tombs(key, put_id, tombs);
        failed_get(error, dropped)
    }

    /// Notes a get in progress whose target is decided.
    fn finish_get_start(&mut self, get: StartingGet, target: Allocation, mode: GetAllocationMode) -> (
    step: GetStartStep)
        requires
            old(self).wf(),
            get.src.allocation.sound(),
            target.sound(),
            get.route_id < old(self).next_route_id,
            mode == GetAllocationMode::DurableReplica ==> slot_free(
                old(self).kv_routes@,
                get.key@,
                get.route_id,
            ),
        ensures
            final(self).wf(),
            get_started(*old(self), *final(self), get, target, mode, step),
    {
        let ghost request = get;
        let ghost taken = with_slot_taken(self.kv_routes@, get.key@, mode);
        if mode == GetAllocationMode::DurableReplica {
            if let Some(route) = self.kv_routes.get(get.key.as_str()) {
                let mut route = route;
                let _ = route.try_reserve_get_durable_slot();
                let _ = self.kv_routes.insert(get.key.clone(), route);
            }
        }
        assert(self.kv_routes@ =~= taken);
        let src = get.src.allocation;
        let reuse = mode == GetAllocationMode::ReuseReplica;
        let resp = GetStartResp {
            get_id: get.get_id,
            node_id: if reuse {
                get.req_node_id.clone()
            } else {
                get.src.node_id.clone()
            },
            put_id: get.put_id,
            target_addr: target.absolute(),
            src_addr: if reuse {
                target.absolute()
            } else {
                src.absolute()
            },
            target_base_addr: target.base_addr(),
            src_base_addr: if reuse {
                target.base_addr()
            } else {
                src.base_addr()
            },
            len: src.size(),
            error_code: OK,
            error_json: String::new(),
            server_process_us: 0,
        };
        let cache_update = if get.lease_id.is_none() && self.replica_cache_enabled() {
            Some(CacheUpdate::Touch { node_id: get.src.node_id.clone(), key: get.key.clone() })
        } else {
            None
        };
        let info = InflightGetInfo {
            put_id: get.put_id,
            src_node_id: get.src.node_id,
            key: get.key.clone(),
            req_node_id: get.req_node_id,
            len: src.size(),
            allocation: target,
            route_id: get.route_id,
            allocation_mode: mode,
        };
        assert(info == noted_get(request, target, mode));
        self.inflight_gets.insert(get.get_id, info);
        proof {
            let gets = old(self).inflight_gets@;
            assert forall|k: Seq<char>| #[trigger] self.kv_routes@.contains_key(k) implies
                self.route_wf(k, self.kv_routes@[k]) by {
                let route = self.kv_routes@[k];
                assert(old(self).kv_routes@.contains_key(k));
                assert(old(self).route_wf(k, old(self).kv_routes@[k]));
                lemma_durable_gets_insert(gets, get.get_id, info, k, route.route_id);
            }
        }
        let dropped = self.clean_up_tombs(get.key.as_str(), get.put_id, &get.tombs);
        GetStartStep::Done(
            GetStartOutcome { get_id: get.get_id, reply: Ok(resp), dropped, cache_update },
        )
    }

    /// Starts a get of a key that has a route, once a replica was looked for: `chosen` is the replica
    /// to serve it from, `tombs` are the nodes that were found to be gone, and `allocator` was chosen
    /// among the requester's segments.
    pub fn get_start_from(
        &mut self,
        get_id: u64,
        key: String,
        req_node_id: NodeID,
        chosen: Option<KvRouteInfo>,
        tombs: Vec<NodeID>,
        allocator: Option<OneSegAllocator>,
    ) -> (step: GetStartStep)
        requires
            old(self).wf(),
            old(self).kv_routes@.contains_key(key@),
            chosen matches Some(replica) ==> replica.allocation.sound(),
        ensures
            final(self).wf(),
            step matches GetStartStep::TryAllocate(pending) ==> pending.wf()
                && pending.get.route_id < final(self).next_route_id,
            get_begun(
                *old(self),
                *final(self),
                get_id,
                key,
                req_node_id,
                chosen,
                tombs,
                allocator,
                step,
            ),
    {
        assert(self.route_wf(key@, self.kv_routes@[key@]));
        match self.kv_routes.get(key.as_str()) {
            None => failed_get(not_found(key.as_str()), Vec::new()),
            Some(route) => {
                match chosen {
                    None => {
                        let error = not_found(key.as_str());
                        self.abandon_get(key.as_str(), route.put_id, &tombs, error)
                    },
                    Some(src) => {
                        let own = route.find_replica(req_node_id.as_str());
                        let get = StartingGet {
                            get_id,
                            key,
                            req_node_id,
                            put_id: route.put_id,
                            route_id: route.route_id,
                            lease_id: route.lease_id,
                            src,
                            tombs,
                        };
                        match own {
                            Some(i) => {
                                assert(route@.replicas[i as int].allocation.sound());
                                self.finish_get_start(
                                    get,
                                    route.nodes_replicas[i].allocation,
                                    GetAllocationMode::ReuseReplica,
                                )
                            },
                            None => match allocator {
                                None => {
                                    let error = KvError::Unreachable(
                                        UnreachableError::OwnerNoSeg {
                                            detail:
                                                "config=0 initializes as external; non-zero initializes as owner; the owner must have memory space (segment)".to_owned(),
                                        },
                                    );
                                    self.abandon_get(
                                        get.key.as_str(),
                                        get.put_id,
                                        &get.tombs,
                                        error,
                                    )
                                },
                                Some(allocator) => GetStartStep::TryAllocate(
                                    PendingGet { get, allocator, attempts_left: TARGET_ATTEMPTS },
                                ),
                            },
                        }
                    },
                }
            },
        }
    }

    /// Starts a get.
    pub fn handle_get_start(
        &mut self,
        manager: &MasterSegManager,
        req: &GetStartReq,
        req_node_id: NodeID,
    ) -> (step: GetStartStep)
        requires
            old(self).wf(),
        ensures
            final(self).wf(),
            final(self).next_get_id == super::next_number(old(self).next_get_id),
            step matches GetStartStep::TryAllocate(pending) ==> pending.wf()
                && pending.get.route_id < final(self).next_route_id && manager.usable_allocators(
                req_node_id@,
            ).contains(pending.allocator),
            ({
                let counted = MasterKvRouter {
                    next_get_id: super::next_number(old(self).next_get_id),
                    ..*old(self)
                };
                if !old(self).kv_routes@.contains_key(req.key@) {
                    &&& *final(self) == counted
                    &&& get_failed(step, key_not_found(req.key@), Seq::empty())
                } else {
                    exists|
                        chosen: Option<KvRouteInfo>,
                        tombs: Vec<NodeID>,
                        allocator: Option<OneSegAllocator>,
                    | #[trigger]
                        get_begun(
                            counted,
                            *final(self),
                            old(self).next_get_id,
                            req.key,
                            req_node_id,
                            chosen,
                            tombs,
                            allocator,
                            step,
                        ) && selection_ok(
                            old(self).kv_routes@[req.key@],
                            manager.marks(),
                            chosen,
                            tombs@,
                        ) && match allocator {
                            Some(allocator) => manager.usable_allocators(req_node_id@).contains(
                                allocator,
                            ),
                            None => manager.usable_allocators(req_node_id@).len() == 0,
                        }
                }
            }),
            crate::laws::gets::living_replicas_kept(
                old(self).kv_routes@,
                final(self).kv_routes@,
                manager.marks(),
            ),
            crate::laws::gets::only_key_loses(
                old(self).kv_routes@,
                final(self).kv_routes@,
                req.key@,
            ),
    {
        let get_id: u64 = self.next_get_id;
        self.next_get_id = super::count_up(get_id);
        let ghost counted = *self;
        match self.kv_routes.get(req.key.as_str()) {
            None => {
                assert(crate::laws::gets::living_replicas_kept(
                    old(self).kv_routes@,
                    self.kv_routes@,
                    manager.marks(),
                ));
                failed_get(not_found(req.key.as_str()), Vec::new())
            },
            Some(route) => {
                assert(self.route_wf(req.key@, self.kv_routes@[req.key@]));
                let (chosen, tombs) = select_replica(&route, manager.board());
                let allocators = manager.get_node_allocators(req_node_id.as_str());
                let allocator = match random_item(&allocators) {
                    Some(allocator) => Some(allocator.duplicate()),
                    None => None,
                };
                let ghost found = (req.key, req_node_id, chosen, tombs, allocator);
                let step = self.get_start_from(
                    get_id,
                    req.key.clone(),
                    req_node_id,
                    chosen,
                    tombs,
                    allocator,
                );
                proof {
                    crate::laws::gets::law_get_start_keeps_living_replicas(
                        counted,
                        *self,
                        get_id,
                        found.0,
                        found.1,
                        manager.marks(),
                        found.2,
                        found.3,
                        found.4,
                        step,
                    );
                }
                step
            },
        }
    }

    /// Goes on with a get once memory was asked for.
    pub fn get_start_allocated(&mut self, pending: PendingGet, outcome: &AllocationOutcome) -> (step:
        GetStartStep)
        requires
            old(self).wf(),
            pending.wf(),
            pending.accepts(*outcome),
            pending.get.route_id < old(self).next_route_id,
        ensures
            final(self).wf(),
            step matches GetStartStep::TryAllocate(next) ==> next.wf() && next.get.route_id
                < final(self).next_route_id,
            get_allocated(*old(self), *final(self), pending, *outcome, step),
            crate::laws::gets::replicas_elsewhere_kept(
                old(self).kv_routes@,
                final(self).kv_routes@,
                pending.get.tombs@,
            ),
    {
        let ghost request = pending.get;
        let PendingGet { get, allocator, attempts_left } = pending;
        match allocator.allocate(get.src.allocation.size(), outcome) {
            Some(target) => {
                let free = match self.kv_routes.get(get.key.as_str()) {
                    Some(route) => route.route_id == get.route_id && route.get_durable_slots_used
                        < super::routes::MAX_GET_DURABLE_REPLICA_SLOTS,
                    None => false,
                };
                let mode = if free {
                    GetAllocationMode::DurableReplica
                } else {
                    GetAllocationMode::Temporary
                };
                let step = self.finish_get_start(get, target, mode);
                proof {
                    crate::laws::gets::law_started_get_is_noted(
                        *old(self),
                        *self,
                        request,
                        target,
                        mode,
                        step,
                    );
                }
                step
            },
            None => {
                if attempts_left > 1 {
                    GetStartStep::TryAllocate(
                        PendingGet { get, allocator, attempts_left: attempts_left - 1 },
                    )
                } else {
                    let error = KvError::Api(
                        ApiError::NoSpace {
                            node: get.req_node_id.clone(),
                            segment: allocator.seg_device_id.clone(),
                            total_capacity: allocator.total_size_bytes(),
                            free_capacity: allocator.free_size_bytes(outcome.used),
                        },
                    );
                    let ghost reason = error@;
                    let step = self.abandon_get(get.key.as_str(), get.put_id, &get.tombs, error);
                    proof {
                        crate::laws::gets::law_abandoned_get_keeps_replicas(
                            *old(self),
                            *self,
                            request.key@,
                            request.put_id,
                            request.tombs@,
                            reason,
                            step,
                        );
                    }
                    step
                }
            },
        }
    }
}

/// What completing a get comes to.
pub struct GetDoneOutcome {
    pub reply: KvResult<GetDoneResp>,
    /// What the requester holds from now on, under the holder id of the response.
    pub holding: Option<OwnerHoldingGetInfo>,
    /// The replica whose place the get's block took.
    pub replaced: Option<KvRouteInfo>,
    pub cache_update: Option<CacheUpdate>,
}

/// The error for a get that is not in progress any more.
pub open spec fn get_timed_out(get_id: u64) -> KvErrorOf<Seq<char>> {
    KvErrorOf::Api(
        ApiErrorOf::GetTimeout {
            timeout_ms: 60_000,
            detail: "Get operation with get_id "@ + text::decimal(get_id as nat)
                + " not found for completion; this is rare unless the system is overloaded or unstable"@,
        },
    )
}

/// The block of a get becomes a replica: the version that it was read from is still current, and the
/// node that it was read from is not gone.
pub open spec fn promotes(
    routes: Map<Seq<char>, RouteModel>,
    manager: MasterSegManager,
    info: InflightGetInfo,
) -> bool {
    &&& info.allocation_mode == GetAllocationMode::DurableReplica
    &&& routes.contains_key(info.key@)
    &&& routes[info.key@].put_id == info.put_id
    &&& manager.alive(info.src_node_id@)
}

/// The replica that the block of a get becomes. It counts as gone with the node that it was read
/// from.
pub open spec fn promoted_replica(manager: MasterSegManager, info: InflightGetInfo) -> KvRouteInfo {
    KvRouteInfo {
        node_id: info.req_node_id,
        allocation: info.allocation,
        tomb_tag: manager.nodes()[info.src_node_id@].tomb_tag,
    }
}

/// The routes once a get gave back the slot that it held.
pub open spec fn with_slot_returned(
    routes: Map<Seq<char>, RouteModel>,
    info: InflightGetInfo,
) -> Map<Seq<char>, RouteModel> {
    let key = info.key@;
    if info.allocation_mode == GetAllocationMode::DurableReplica && routes.contains_key(key)
        && routes[key].route_id == info.route_id {
        routes.insert(key, RouteModel { slots: (routes[key].slots - 1) as u32, ..routes[key] })
    } else {
        routes
    }
}

/// What the answer to a request for a block does to a get that is being started, and what it comes to.
pub open spec fn get_allocated(
    before: MasterKvRouter,
    after: MasterKvRouter,
    pending: PendingGet,
    outcome: AllocationOutcome,
    step: GetStartStep,
) -> bool {
    match outcome.region {
        Some(region) => get_started(
            before,
            after,
            pending.get,
            pending.allocator.allocation(pending.get.src.allocation.size, region),
            mode_of_new_block(
                before.kv_routes@,
                pending.get.key@,
                pending.get.route_id,
            ),
            step,
        ),
        None => if pending.attempts_left > 1 {
            &&& after == before
            &&& step == GetStartStep::TryAllocate(
                PendingGet {
                    attempts_left: (pending.attempts_left - 1) as u8,
                    ..pending
                },
            )
        } else {
            get_abandoned(
                before,
                after,
                pending.get.key@,
                pending.get.put_id,
                pending.get.tombs@,
                super::put::source_no_space(
                    pending.get.req_node_id@,
                    pending.allocator,
                    outcome.used,
                ),
                step,
            )
        },
    }
}

/// What completing a get does to the router, and what it comes to.
pub open spec fn get_completed(
    before: MasterKvRouter,
    after: MasterKvRouter,
    manager: MasterSegManager,
    get_id: u64,
    outcome: GetDoneOutcome,
) -> bool {
    if !before.inflight_gets@.contains_key(get_id) {
        &&& after.inflight_gets@ == before.inflight_gets@
        &&& after == (MasterKvRouter { inflight_gets: after.inflight_gets, ..before })
        &&& outcome.reply matches Err(e) && e@ == get_timed_out(get_id)
        &&& outcome.holding is None
        &&& outcome.replaced is None
        &&& outcome.cache_update is None
    } else {
        let info = before.inflight_gets@[get_id];
        let promoted = promotes(before.kv_routes@, manager, info);
        let mode = if info.allocation_mode == GetAllocationMode::DurableReplica && !promoted {
            GetAllocationMode::Temporary
        } else {
            info.allocation_mode
        };
        let route = before.kv_routes@[info.key@];
        &&& after.inflight_gets@ == before.inflight_gets@.remove(get_id)
        &&& after.next_holder_id == super::next_number(before.next_holder_id)
        &&& after.kv_routes@ == if promoted {
            before.kv_routes@.insert(
                info.key@,
                route.with_replica(promoted_replica(manager, info)),
            )
        } else {
            with_slot_returned(before.kv_routes@, info)
        }
        &&& after == (MasterKvRouter {
            inflight_gets: after.inflight_gets,
            next_holder_id: after.next_holder_id,
            kv_routes: after.kv_routes,
            ..before
        })
        &&& outcome.reply matches Ok(resp) && resp.holder_id == before.next_holder_id
            && resp.allocation_mode == mode && resp.error_code == OK && resp.error_json@ == Seq::<
            char,
        >::empty() && resp.server_process_us == 0
        &&& outcome.holding matches Some(holding) && holding.key@ == info.key@
            && holding.holding_node_id@ == info.req_node_id@ && holding.len == info.len
            && holding.allocation == info.allocation
        &&& outcome.replaced == if promoted {
            route.replica_on(info.req_node_id@)
        } else {
            None
        }
        &&& if promoted && route.lease_id is None
            && !before.test_spec_config.disable_master_replica_cache {
            outcome.cache_update matches Some(CacheUpdate::Insert { node_id, key, desc })
                && node_id@ == info.req_node_id@ && key@ == info.key@ && desc.put_id == info.put_id
                && desc.weight_bytes == super::cache_weight(info.allocation.capcity)
        } else {
            outcome.cache_update is None
        }
    }
}

/// What ending a get in progress without completing it does.
pub open spec fn get_dropped(
    before: MasterKvRouter,
    after: MasterKvRouter,
    get_id: u64,
    dropped: Option<InflightGetInfo>,
) -> bool {
    if before.inflight_gets@.contains_key(get_id) {
        &&& dropped == Some(before.inflight_gets@[get_id])
        &&& after.inflight_gets@ == before.inflight_gets@.remove(get_id)
        &&& after.kv_routes@ == with_slot_returned(
            before.kv_routes@,
            before.inflight_gets@[get_id],
        )
        &&& after == (MasterKvRouter {
            inflight_gets: after.inflight_gets,
            kv_routes: after.kv_routes,
            ..before
        })
    } else {
        &&& dropped is None
        &&& after.inflight_gets@ == before.inflight_gets@
        &&& after == (MasterKvRouter { inflight_gets: after.inflight_gets, ..before })
    }
}

/// Taking a get out of those in flight leaves fewer holders of slots: one less for the route whose
/// slot it held.
proof fn lemma_without_get(
    router: MasterKvRouter,
    get_id: u64,
    key: Seq<char>,
    route: RouteModel,
)
    requires
        router.inflight_gets@.dom().finite(),
        router.inflight_gets@.contains_key(get_id),
        router.route_wf(key, route),
    ensures
        ({
            let left = durable_gets(router.inflight_gets@.remove(get_id), key, route.route_id).len();
            &&& left <= route.slots
            &&& router.inflight_gets@[get_id].holds_slot_of(key, route.route_id) ==> left + 1
                <= route.slots
        }),
{
    lemma_durable_gets_remove(router.inflight_gets@, get_id, key, route.route_id);
}

impl MasterKvRouter {
    /// Gives back the durable slot that a get held, if it held one of the route that is current.
    /// The get has been taken out of those in flight.
    fn release_durable_slot_if_needed(&mut self, info: &InflightGetInfo)
        requires
            old(self).wf(),
            info.allocation_mode == GetAllocationMode::DurableReplica && old(
                self,
            ).kv_routes@.contains_key(info.key@) && old(self).kv_routes@[info.key@].route_id
                == info.route_id ==> durable_gets(
                old(self).inflight_gets@,
                info.key@,
                info.route_id,
            ).len() + 1 <= old(self).kv_routes@[info.key@].slots,
        ensures
            final(self).wf(),
            *final(self) == (MasterKvRouter { kv_routes: final(self).kv_routes, ..*old(self) }),
            final(self).kv_routes@ == with_slot_returned(old(self).kv_routes@, *info),
    {
        if info.allocation_mode != GetAllocationMode::DurableReplica {
            return ;
        }
        if let Some(route) = self.kv_routes.get(info.key.as_str()) {
            assert(self.route_wf(info.key@, self.kv_routes@[info.key@]));
            if route.route_id == info.route_id {
                let mut route = route;
                route.release_get_durable_slot();
                let _ = self.kv_routes.insert(info.key.clone(), route);
            }
        }
    }

    /// Takes a get out of those in flight.
    fn remove_inflight_get(&mut self, get_id: u64) -> (removed: Option<InflightGetInfo>)
        requires
            old(self).wf(),
        ensures
            final(self).wf(),
            *final(self) == (MasterKvRouter {
                inflight_gets: final(self).inflight_gets,
                ..*old(self)
            }),
            final(self).inflight_gets@ == old(self).inflight_gets@.remove(get_id),
            removed == if old(self).inflight_gets@.contains_key(get_id) {
                Some(old(self).inflight_gets@[get_id])
            } else {
                None
            },
            removed matches Some(info) ==> forall|key: Seq<char>| #[trigger]
                old(self).kv_routes@.contains_key(key) && info.holds_slot_of(
                    key,
                    old(self).kv_routes@[key].route_id,
                ) ==> durable_gets(
                    final(self).inflight_gets@,
                    key,
                    old(self).kv_routes@[key].route_id,
                ).len() + 1 <= old(self).kv_routes@[key].slots,
    {
        let removed = self.inflight_gets.remove(&get_id);
        proof {
            let before = old(self).inflight_gets@;
            if before.contains_key(get_id) {
                assert forall|k: Seq<char>| #[trigger] self.kv_routes@.contains_key(k) implies
                    self.route_wf(k, self.kv_routes@[k]) && (before[get_id].holds_slot_of(
                    k,
                    self.kv_routes@[k].route_id,
                ) ==> durable_gets(self.inflight_gets@, k, self.kv_routes@[k].route_id).len() + 1
                    <= self.kv_routes@[k].slots) by {
                    assert(old(self).route_wf(k, old(self).kv_routes@[k]));
                    lemma_without_get(*old(self), get_id, k, self.kv_routes@[k]);
                }
            } else {
                assert(self.inflight_gets@ =~= before);
            }
        }
        removed
    }

    /// Ends a get in progress without completing it, and returns it.
    fn drop_inflight_get(&mut self, get_id: u64) -> (dropped: Option<InflightGetInfo>)
        requires
            old(self).wf(),
        ensures
            final(self).wf(),
            get_dropped(*old(self), *final(self), get_id, dropped),
    {
        match self.remove_inflight_get(get_id) {
            Some(info) => {
                self.release_durable_slot_if_needed(&info);
                Some(info)
            },
            None => {
                assert(self.inflight_gets@ =~= old(self).inflight_gets@);
                None
            },
        }
    }

    /// Revokes a get. It is no error if there is no such get. The block of the get is not held any
    /// more.
    pub fn handle_get_revoke(&mut self, req: &GetRevokeReq) -> (revoked: (
        GetRevokeResp,
        Option<InflightGetInfo>,
    ))
        requires
            old(self).wf(),
        ensures
            final(self).wf(),
            revoked.0.error_code == OK,
            revoked.0.error_json@ == Seq::<char>::empty(),
            get_dropped(*old(self), *final(self), req.get_id, revoked.1),
    {
        let dropped = self.drop_inflight_get(req.get_id);
        (GetRevokeResp { error_code: OK, error_json: String::new() }, dropped)
    }

    /// Forgets a get that was not completed in time.
    pub fn expire_inflight_get(&mut self, get_id: u64) -> (expired: Option<InflightGetInfo>)
        requires
            old(self).wf(),
        ensures
            final(self).wf(),
            get_dropped(*old(self), *final(self), get_id, expired),
    {
        self.drop_inflight_get(get_id)
    }

    /// Forgets a get whose start could not be answered. The id of a failed start is zero; the first
    /// get that is started has that id too, and is left to expire.
    pub fn forget_unanswered_get(&mut self, get_id: u64) -> (forgotten: Option<InflightGetInfo>)
        requires
            old(self).wf(),
        ensures
            final(self).wf(),
            if get_id == 0 {
                *final(self) == *old(self) && forgotten is None
            } else {
                get_dropped(*old(self), *final(self), get_id, forgotten)
            },
    {
        if get_id == 0 {
            return None;
        }
        self.drop_inflight_get(get_id)
    }

    /// Makes the block of a completed get a replica, if it may become one.
    fn promote_get(&mut self, manager: &MasterSegManager, info: &InflightGetInfo) -> (promoted: (
        bool,
        Option<KvRouteInfo>,
        Option<CacheUpdate>,
    ))
        requires
            old(self).wf(),
            info.allocation.sound(),
        ensures
            final(self).wf(),
            *final(self) == (MasterKvRouter { kv_routes: final(self).kv_routes, ..*old(self) }),
            promoted.0 == promotes(old(self).kv_routes@, *manager, *info),
            ({
                let route = old(self).kv_routes@[info.key@];
                if promoted.0 {
                    &&& final(self).kv_routes@ == old(self).kv_routes@.insert(
                        info.key@,
                        route.with_replica(promoted_replica(*manager, *info)),
                    )
                    &&& promoted.1 == route.replica_on(info.req_node_id@)
                    &&& if route.lease_id is None && !old(
                        self,
                    ).test_spec_config.disable_master_replica_cache {
                        promoted.2 matches Some(CacheUpdate::Insert { node_id, key, desc })
                            && node_id@ == info.req_node_id@ && key@ == info.key@ && desc.put_id
                            == info.put_id && desc.weight_bytes == super::cache_weight(
                            info.allocation.capcity,
                        )
                    } else {
                        promoted.2 is None
                    }
                } else {
                    &&& final(self).kv_routes@ == old(self).kv_routes@
                    &&& promoted.1 is None
                    &&& promoted.2 is None
                }
            }),
    {
        if info.allocation_mode != GetAllocationMode::DurableReplica {
            return (false, None, None);
        }
        let mut route = match self.kv_routes.get(info.key.as_str()) {
            Some(route) => route,
            None => {
                return (false, None, None);
            },
        };
        assert(self.route_wf(info.key@, self.kv_routes@[info.key@]));
        if route.put_id.0 != info.put_id.0 || route.put_id.1 != info.put_id.1 {
            return (false, None, None);
        }
        let tomb_tag = match manager.get_node_tomb_tag(info.src_node_id.as_str()) {
            Some(tomb_tag) => tomb_tag,
            None => {
                return (false, None, None);
            },
        };
        if tomb_tag.is_tomb(manager.board()) {
            return (false, None, None);
        }
        let replica = KvRouteInfo {
            node_id: info.req_node_id.clone(),
            allocation: info.allocation,
            tomb_tag,
        };
        proof {
            super::routes::lemma_with_replica_wf(route@, replica);
        }
        let leased = route.lease_id.is_some();
        let replaced = route.insert_replica(replica);
        let _ = self.kv_routes.insert(info.key.clone(), route);
        let cache_update = if !leased && self.replica_cache_enabled() {
            Some(
                CacheUpdate::Insert {
                    node_id: info.req_node_id.clone(),
                    key: info.key.clone(),
                    desc: NodeValueReplicaDesc {
                        weight_bytes: super::saturated_weight(info.allocation.capcity()),
                        put_id: info.put_id,
                    },
                },
            )
        } else {
            None
        };
        (true, replaced, cache_update)
    }

    /// Completes a get: the requester holds the value from now on, and its block becomes a replica
    /// where the get took a durable slot.
    pub fn handle_get_done(&mut self, manager: &MasterSegManager, req: &GetDoneReq) -> (outcome:
        GetDoneOutcome)
        requires
            old(self).wf(),
        ensures
            final(self).wf(),
            get_completed(*old(self), *final(self), *manager, req.get_id, outcome),
    {
        match self.remove_inflight_get(req.get_id) {
            Some(info) => {
                let holder_id: u64 = self.next_holder_id;
                self.next_holder_id = super::count_up(holder_id);
                let ghost taken = *self;
                let (promoted, replaced, cache_update) = self.promote_get(manager, &info);
                let mut allocation_mode = info.allocation_mode;
                if allocation_mode == GetAllocationMode::DurableReplica && !promoted {
                    allocation_mode = GetAllocationMode::Temporary;
                    self.release_durable_slot_if_needed(&info);
                }
                GetDoneOutcome {
                    reply: Ok(
                        GetDoneResp {
                            holder_id,
                            allocation_mode,
                            error_code: OK,
                            error_json: String::new(),
                            server_process_us: 0,
                        },
                    ),
                    holding: Some(
                        OwnerHoldingGetInfo {
                            key: info.key,
                            holding_node_id: info.req_node_id,
                            len: info.len,
                            allocation: info.allocation,
                        },
                    ),
                    replaced,
                    cache_update,
                }
            },
            None => {
                assert(self.inflight_gets@ =~= old(self).inflight_gets@);
                let mut detail = "Get operation with get_id ".to_owned();
                text::append_u64(&mut detail, req.get_id);
                detail.append(
                    " not found for completion; this is rare unless the system is overloaded or unstable",
                );
                let error = KvError::Api(ApiError::GetTimeout { timeout_ms: 60_000, detail });
                GetDoneOutcome {
                    reply: Err(error),
                    holding: None,
                    replaced: None,
                    cache_update: None,
                }
            },
        }
    }

    /// Tells whether a key has a value, and its size.
    pub fn handle_get_meta(&self, manager: &MasterSegManager, req: &GetMetaReq) -> (reply: KvResult<
        GetMetaResp,
    >)
        ensures
            match reply {
                Ok(resp) => {
                    &&& resp.exists
                    &&& resp.error_code == OK
                    &&& resp.error_json@ == Seq::<char>::empty()
                    &&& self.kv_routes@.contains_key(req.key@)
                    &&& self.kv_routes@[req.key@].has_living_replica_of_size(
                        manager.marks(),
                        resp.len,
                    )
                },
                Err(error) => {
                    &&& error@ == key_not_found(req.key@)
                    &&& self.kv_routes@.contains_key(req.key@) ==> !self.kv_routes@[
                        req.key@
                    ].has_living_replica(manager.marks())
                },
            },
    {
        match self.kv_routes.get(req.key.as_str()) {
            Some(route) => match route.living_size(manager.board()) {
                Some(len) => Ok(
                    GetMetaResp { exists: true, len, error_code: OK, error_json: String::new() },
                ),
                None => Err(not_found(req.key.as_str())),
            },
            None => Err(not_found(req.key.as_str())),
        }
    }
}

/// A value that was put is found, with its size, as long as its node is not gone.
pub proof fn law_committed_value_is_found(
    before: MasterKvRouter,
    after: MasterKvRouter,
    key: Seq<char>,
    put_id: PutIDForAKey,
    lease_id: Option<u64>,
    replica: KvRouteInfo,
    released: Seq<Allocation>,
    outcome: super::put::PutDoneOutcome,
    marks: Seq<bool>,
)
    requires
        super::put::committed(before, after, key, put_id, lease_id, replica, released, outcome),
        !replica.tomb_tag.tombed(marks),
    ensures
        after.kv_routes@.contains_key(key),
        after.kv_routes@[key].put_id == put_id,
        after.kv_routes@[key].has_living_replica(marks),
        forall|i: int|
            0 <= i < after.kv_routes@[key].replicas.len() ==> (
            #[trigger] after.kv_routes@[key].replicas[i]).allocation == replica.allocation,
        selection_ok(after.kv_routes@[key], marks, Some(replica), Seq::empty()),
{
    let route = after.kv_routes@[key];
    assert(route.replicas[0] == replica);
}

/// A get that follows a put reads the block that the put filled, as long as its node is not gone: the
/// node of the block finds the value in place, another node is to read it from there, and only a
/// node without segments is refused. Nothing else may have touched the key's route in between.
pub proof fn law_get_reads_what_was_put(
    before: MasterKvRouter,
    put: MasterKvRouter,
    key: String,
    put_id: PutIDForAKey,
    lease_id: Option<u64>,
    replica: KvRouteInfo,
    released: Seq<Allocation>,
    put_outcome: super::put::PutDoneOutcome,
    marks: Seq<bool>,
    asked: MasterKvRouter,
    after: MasterKvRouter,
    get_id: u64,
    req_node_id: NodeID,
    chosen: Option<KvRouteInfo>,
    tombs: Vec<NodeID>,
    allocator: Option<OneSegAllocator>,
    step: GetStartStep,
)
    requires
        super::put::committed(
            before,
            put,
            key@,
            put_id,
            lease_id,
            replica,
            released,
            put_outcome,
        ),
        !replica.tomb_tag.tombed(marks),
        asked.kv_routes@.contains_key(key@),
        asked.kv_routes@[key@] == put.kv_routes@[key@],
        selection_ok(asked.kv_routes@[key@], marks, chosen, tombs@),
        get_begun(asked, after, get_id, key, req_node_id, chosen, tombs, allocator, step),
    ensures
        match step {
            GetStartStep::TryAllocate(pending) => {
                &&& replica.node_id@ != req_node_id@
                &&& pending.get.src == replica
                &&& pending.get.put_id == put_id
            },
            GetStartStep::Done(outcome) => match outcome.reply {
                Ok(resp) => {
                    let block = replica.allocation;
                    &&& replica.node_id@ == req_node_id@
                    &&& resp.node_id@ == replica.node_id@
                    &&& resp.put_id == put_id
                    &&& resp.len == block.size
                    &&& resp.src_addr == block.base + block.addr
                    &&& resp.target_addr == block.base + block.addr
                },
                Err(_) => replica.node_id@ != req_node_id@ && allocator is None,
            },
        },
{
    let route = asked.kv_routes@[key@];
    assert(route.replicas[0] == replica);
    super::routes::lemma_replica_index(route.replicas, req_node_id@);
}

/// A get of a key whose replicas are all gone finds nothing, whatever is tried first.
pub proof fn law_gone_replicas_are_not_served(
    route: RouteModel,
    marks: Seq<bool>,
    chosen: Option<KvRouteInfo>,
    tombs: Seq<String>,
)
    requires
        selection_ok(route, marks, chosen, tombs),
        !route.has_living_replica(marks),
    ensures
        chosen is None,
        super::routes::replicas_off(route.replicas, tombs).len() == 0,
{
    if let Some(replica) = chosen {
        let i = choose|i: int| 0 <= i < route.replicas.len() && route.replicas[i] == replica;
        assert(route.replicas[i].tomb_tag.tombed(marks));
    }
    super::routes::lemma_replicas_off(route.replicas, tombs);
    let kept = super::routes::replicas_off(route.replicas, tombs);
    if kept.len() > 0 {
        assert(route.replicas.contains(kept[0]));
        let i = choose|i: int| 0 <= i < route.replicas.len() && route.replicas[i] == kept[0];
        assert(super::routes::names_contain(tombs, route.replicas[i].node_id@));
    }
}

/// The cleanup that follows a look for a replica drops no replica on a node that is not gone.
pub proof fn law_cleanup_keeps_living_replicas(
    route: RouteModel,
    marks: Seq<bool>,
    chosen: Option<KvRouteInfo>,
    tombs: Seq<String>,
    i: int,
)
    requires
        selection_ok(route, marks, chosen, tombs),
        0 <= i < route.replicas.len(),
        !route.replicas[i].tomb_tag.tombed(marks),
    ensures
        super::routes::replicas_off(route.replicas, tombs).contains(route.replicas[i]),
{
    super::routes::lemma_replicas_off(route.replicas, tombs);
}

/// A get that took a durable slot and is dropped gives the slot back.
pub proof fn law_dropped_get_returns_its_slot(
    routes: Map<Seq<char>, RouteModel>,
    info: InflightGetInfo,
)
    requires
        slot_free(routes, info.key@, info.route_id),
        info.allocation_mode == GetAllocationMode::DurableReplica,
    ensures
        with_slot_returned(
            with_slot_taken(routes, info.key@, info.allocation_mode),
            info,
        ) == routes,
{
    assert(with_slot_returned(
        with_slot_taken(routes, info.key@, info.allocation_mode),
        info,
    ) =~= routes);
}

/// A put with a lease does not enter its value into a replica cache.
pub proof fn law_leased_put_is_not_cached(
    before: MasterKvRouter,
    after: MasterKvRouter,
    key: Seq<char>,
    put_id: PutIDForAKey,
    lease_id: u64,
    replica: KvRouteInfo,
    released: Seq<Allocation>,
    outcome: super::put::PutDoneOutcome,
)
    requires
        super::put::committed(
            before,
            after,
            key,
            put_id,
            Some(lease_id),
            replica,
            released,
            outcome,
        ),
    ensures
        outcome.cache_update is None,
{
}

/// A get that replicates a leased key does not enter the replica into a cache.
pub proof fn law_leased_replica_is_not_cached(
    before: MasterKvRouter,
    after: MasterKvRouter,
    manager: MasterSegManager,
    get_id: u64,
    outcome: GetDoneOutcome,
)
    requires
        get_completed(before, after, manager, get_id, outcome),
        before.inflight_gets@.contains_key(get_id),
        before.kv_routes@[before.inflight_gets@[get_id].key@].lease_id is Some,
    ensures
        outcome.cache_update is None,
{
}

} // verus!
