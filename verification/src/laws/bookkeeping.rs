//! Bookkeeping: puts are counted while they are in progress, the index and the caches follow the
//! routes, and what an operation is not about stays as it was.

use crate::cluster_manager::{ClusterMember, NodeID};
use crate::error::KvErrorOf;
use crate::laws::{measures, puts};
use crate::master_kv_router::get::{
    self, GetDoneOutcome, GetStartStep, InflightGetInfo, StartingGet,
};
use crate::master_kv_router::msg_pack::{GetAllocationMode, PutDoneReq, PutStartReq};
use crate::master_kv_router::placement::{PlacementSearch, PlacementStep, PutPlacementTarget};
use crate::master_kv_router::put::{
    self, InflightPutAllocation, InflightPutInfo, PutDoneOutcome, PutDoneStep, PutIDForAKey,
    PutStage, PutStartStep, StartingPut,
};
use crate::master_kv_router::routes::{KvRouteInfo, RouteModel};
use crate::master_kv_router::{CacheUpdate, MasterKvRouter};
use crate::master_lease_manager::master_lease_manager::MasterLeaseManager;
use crate::master_seg_manager::one_seg_allocator::Allocation;
use crate::master_seg_manager::MasterSegManager;
use vstd::prelude::*;

verus! {

/// How many puts of a key are counted.
pub open spec fn writers(router: MasterKvRouter, key: Seq<char>) -> int {
    if router.inflight_put_keys@.contains_key(key) {
        router.inflight_put_keys@[key] as int
    } else {
        0
    }
}

/// The count of one key changed by so much, though not below zero, and that of no other.
pub open spec fn writers_changed(
    before: MasterKvRouter,
    after: MasterKvRouter,
    key: Seq<char>,
    by: int,
) -> bool {
    &&& writers(after, key) == if writers(before, key) + by < 0 {
        0
    } else {
        writers(before, key) + by
    }
    &&& forall|other: Seq<char>|
        other != key ==> #[trigger] writers(after, other) == writers(before, other)
}

/// The index follows the route of the key: it enters with its first route, and leaves with its last.
pub open spec fn index_follows(
    before: MasterKvRouter,
    after: MasterKvRouter,
    key: Seq<char>,
) -> bool {
    let was = before.kv_routes@.contains_key(key);
    let is = after.kv_routes@.contains_key(key);
    if before.test_spec_config.disable_prefix_index || was == is {
        after.prefix_index@ == before.prefix_index@
    } else if is {
        after.prefix_index@ == before.prefix_index@.insert(key)
    } else {
        after.prefix_index@ == before.prefix_index@.remove(key)
    }
}

/// Neither the gets in progress, nor the routes, nor what follows them differ.
pub open spec fn reading_untouched(before: MasterKvRouter, after: MasterKvRouter) -> bool {
    &&& after.test_spec_config == before.test_spec_config
    &&& after.kv_routes@ == before.kv_routes@
    &&& after.prefix_index@ == before.prefix_index@
    &&& after.inflight_gets@ == before.inflight_gets@
    &&& after.next_get_id == before.next_get_id
    &&& after.next_holder_id == before.next_holder_id
    &&& after.next_route_id == before.next_route_id
    &&& after.lease_reserved_bytes@ == before.lease_reserved_bytes@
}

/// Neither the puts in progress, nor their counts, versions and places, nor the reservations differ.
pub open spec fn writing_untouched(before: MasterKvRouter, after: MasterKvRouter) -> bool {
    &&& after.test_spec_config == before.test_spec_config
    &&& after.inflight_puts@ == before.inflight_puts@
    &&& after.inflight_put_keys@ == before.inflight_put_keys@
    &&& after.placement_counters@ == before.placement_counters@
    &&& after.recent_versions@ == before.recent_versions@
    &&& after.lease_reserved_bytes@ == before.lease_reserved_bytes@
    &&& after.next_route_id == before.next_route_id
}

/// A put that goes on is counted for its key, and gets the version that is noted for the key, or zero;
/// the one after it is noted. One that is refused is not counted.
pub proof fn law_started_puts_are_counted(
    before: MasterKvRouter,
    after: MasterKvRouter,
    manager: MasterSegManager,
    req: PutStartReq,
    req_node_id: NodeID,
    requester: Option<&ClusterMember>,
    source: Option<&ClusterMember>,
    put_time_ms: u64,
    step: PutStartStep,
)
    requires
        put::put_begun(
            before,
            after,
            manager,
            req,
            req_node_id,
            requester,
            source,
            put_time_ms,
            step,
        ),
        writers(before, req.key@) < u32::MAX,
    ensures
        writers_changed(
            before,
            after,
            req.key@,
            if step is TryAllocate {
                1
            } else {
                0
            },
        ),
        step matches PutStartStep::TryAllocate(pending) ==> {
            let version = pending.put.put_id.1;
            &&& version == 0 || before.recent_versions@.contains_key(req.key@) && version
                == before.recent_versions@[req.key@]
            &&& after.recent_versions@.contains_key(req.key@)
            &&& version < u32::MAX ==> after.recent_versions@[req.key@] == version + 1
            &&& pending.stage matches PutStage::Source { attempts_left, .. } && attempts_left == 3
        },
        !puts::may_stage_on(
            req_node_id@,
            puts::staged_on(req, req_node_id),
            requester,
            source,
        ) ==> after.recent_versions@ == before.recent_versions@,
        forall|other: Seq<char>|
            other != req.key@ ==> (#[trigger] after.recent_versions@.contains_key(other)
                <==> before.recent_versions@.contains_key(other)) && (
            before.recent_versions@.contains_key(other) ==> after.recent_versions@[other]
                == before.recent_versions@[other]),
        after.inflight_puts@ == before.inflight_puts@,
        after.placement_counters@ == before.placement_counters@,
        reading_untouched(before, after),
{
    puts::law_only_own_workers_stage_elsewhere(
        req_node_id@,
        puts::staged_on(req, req_node_id),
        requester,
        source,
    );
}

/// A put that is placed stays counted, once for its key however often it was noted; the blocks of an
/// earlier note are given back. Where it was placed is counted.
pub proof fn law_placed_puts_stay_counted(
    before: MasterKvRouter,
    after: MasterKvRouter,
    starting: StartingPut,
    src: Allocation,
    search: PlacementSearch,
    target: PutPlacementTarget,
    step: PutStartStep,
)
    requires
        before.wf(),
        put::concluded(before, after, starting, src, search, PlacementStep::Placed(target), step),
    ensures
        writers_changed(
            before,
            after,
            starting.key@,
            if puts::is_in_progress(before.inflight_puts@, starting.key@, starting.put_id) {
                -1
            } else {
                0
            },
        ),
        ({
            let (node, mode) = match target {
                PutPlacementTarget::Local { node_id } => (node_id@, "local"@),
                PutPlacementTarget::Remote { node_id, .. } => (node_id@, "remote"@),
            };
            let was = before.placement_counters@;
            let is = after.placement_counters@;
            &&& measures::one_more(was.by_target, is.by_target, node)
            &&& measures::one_more(was.by_pair, is.by_pair, (starting.req_node_id@, node))
            &&& measures::one_more(was.by_mode, is.by_mode, mode)
        }),
        step matches PutStartStep::Done { reply, released, .. } ==> {
            &&& reply is Ok
            &&& reply->Ok_0.error_code == 0
            &&& reply->Ok_0.error_json@.len() == 0
            &&& reply->Ok_0.server_process_us == 0
            &&& !puts::is_in_progress(before.inflight_puts@, starting.key@, starting.put_id)
                ==> released@.len() == 0
        },
        after.recent_versions@ == before.recent_versions@,
        reading_untouched(before, after),
{
    puts::lemma_taken_out(before.inflight_puts@, starting.key@, starting.put_id);
    if let Some(i) = put::put_index(before.inflight_puts@, starting.key@, starting.put_id) {
        assert(before.inflight_puts@[i].key@ == starting.key@);
    }
    let mode = match target {
        PutPlacementTarget::Local { .. } => {
            crate::master_kv_router::placement_metrics::PutPlacementMode::Local
        },
        PutPlacementTarget::Remote { .. } => {
            crate::master_kv_router::placement_metrics::PutPlacementMode::Remote
        },
    };
    measures::law_decisions_are_counted_once(
        before.placement_counters@,
        starting.req_node_id@,
        put::placed_put(starting, src, target).node_id@,
        mode,
    );
}

/// A put that looks further for its target asks the segment that was chosen, and changes nothing.
pub proof fn law_unplaced_puts_ask_the_chosen_segment(
    before: MasterKvRouter,
    after: MasterKvRouter,
    starting: StartingPut,
    src: Allocation,
    search: PlacementSearch,
    placement: PlacementStep,
    step: PutStartStep,
)
    requires
        placement is TryAllocate,
        put::concluded(before, after, starting, src, search, placement, step),
    ensures
        after == before,
        step matches PutStartStep::TryAllocate(pending) && pending.put == starting && (
        pending.stage matches PutStage::Target { src: held, search: so_far, node_id, allocator }
            && held == src && so_far == search && node_id == placement->node_id && allocator
            == placement->allocator),
{
}

/// A put that finds no target is counted no more, and nothing else changes.
pub proof fn law_unplaceable_puts_are_not_counted(
    before: MasterKvRouter,
    after: MasterKvRouter,
    starting: StartingPut,
    src: Allocation,
    search: PlacementSearch,
    placement: PlacementStep,
    step: PutStartStep,
)
    requires
        placement is Failed,
        put::concluded(before, after, starting, src, search, placement, step),
    ensures
        writers_changed(before, after, starting.key@, -1),
        after.inflight_puts@ == before.inflight_puts@,
        after.recent_versions@ == before.recent_versions@,
        after.placement_counters@ == before.placement_counters@,
        reading_untouched(before, after),
{
}

/// A put that is ended is counted no more; one that was not in progress changes nothing.
pub proof fn law_ended_puts_are_not_counted(
    before: MasterKvRouter,
    after: MasterKvRouter,
    key: Seq<char>,
    put_id: PutIDForAKey,
    dropped: Option<InflightPutInfo>,
)
    requires
        put::put_dropped(before, after, key, put_id, dropped),
    ensures
        writers_changed(
            before,
            after,
            key,
            if dropped is Some {
                -1
            } else {
                0
            },
        ),
        after.recent_versions@ == before.recent_versions@,
        after.placement_counters@ == before.placement_counters@,
        reading_untouched(before, after),
{
}

/// A completion that fails replaces nothing and caches nothing: it gives blocks back, and says why.
pub proof fn law_failed_completions_replace_nothing(
    outcome: PutDoneOutcome,
    error: KvErrorOf<Seq<char>>,
    released: Seq<Allocation>,
)
    requires
        put::done_failed(outcome, error, released),
    ensures
        outcome.reply is Err,
        outcome.reply->Err_0@ == error,
        outcome.released@ == released,
        outcome.replaced is None,
        outcome.cache_update is None,
{
}

/// The completion of a put that is not in progress fails, and changes nothing.
pub proof fn law_unknown_puts_are_refused(
    before: MasterKvRouter,
    after: MasterKvRouter,
    manager: MasterSegManager,
    leases_before: MasterLeaseManager,
    leases_after: MasterLeaseManager,
    req: PutDoneReq,
    base_capacity: u64,
    step: PutDoneStep,
)
    requires
        before.wf(),
        put::put_completed(
            before,
            after,
            manager,
            leases_before,
            leases_after,
            req,
            base_capacity,
            step,
        ),
        !puts::is_in_progress(before.inflight_puts@, req.key@, req.put_id),
    ensures
        after == before,
        leases_after == leases_before,
        step matches PutDoneStep::Done(outcome) && outcome.reply is Err && outcome.released@.len()
            == 0 && outcome.replaced is None && outcome.cache_update is None,
{
    puts::lemma_taken_out(before.inflight_puts@, req.key@, req.put_id);
    if let Some(i) = put::put_index(before.inflight_puts@, req.key@, req.put_id) {
        assert(before.inflight_puts@[i].key@ == req.key@);
    }
}

/// A put that is completed, with or without a lease and whatever comes of it, is counted no more. The
/// gets in progress, the versions and the counts of where puts went are not its business.
pub proof fn law_completed_puts_are_not_counted(
    before: MasterKvRouter,
    after: MasterKvRouter,
    manager: MasterSegManager,
    leases_before: MasterLeaseManager,
    leases_after: MasterLeaseManager,
    req: PutDoneReq,
    base_capacity: u64,
    step: PutDoneStep,
)
    requires
        before.wf(),
        put::put_completed(
            before,
            after,
            manager,
            leases_before,
            leases_after,
            req,
            base_capacity,
            step,
        ),
        puts::is_in_progress(before.inflight_puts@, req.key@, req.put_id),
    ensures
        writers_changed(before, after, req.key@, -1),
        after.inflight_gets@ == before.inflight_gets@,
        after.recent_versions@ == before.recent_versions@,
        after.placement_counters@ == before.placement_counters@,
        after.next_get_id == before.next_get_id,
        after.next_holder_id == before.next_holder_id,
        req.lease_id is None ==> after.lease_reserved_bytes@ == before.lease_reserved_bytes@,
        index_follows(before, after, req.key@),
{
    puts::lemma_taken_out(before.inflight_puts@, req.key@, req.put_id);
    assert(put::put_index(before.inflight_puts@, req.key@, req.put_id) is Some);
    let i = put::put_index(before.inflight_puts@, req.key@, req.put_id)->0;
    assert(before.inflight_puts@[i].key@ == req.key@);
}

/// The bytes that are set aside on a node for values with a lease.
pub open spec fn set_aside(router: MasterKvRouter, node: Seq<char>) -> int {
    if router.lease_reserved_bytes@.contains_key(node) {
        router.lease_reserved_bytes@[node] as int
    } else {
        0
    }
}

/// A put with a lease sets the bytes of its block aside on its node, and on no other; what is left of
/// the node's cache shrinks to the rest.
pub proof fn law_leased_bytes_are_set_aside(
    before: MasterKvRouter,
    after: MasterKvRouter,
    manager: MasterSegManager,
    leases_before: MasterLeaseManager,
    leases_after: MasterLeaseManager,
    req: PutDoneReq,
    base_capacity: u64,
    step: PutDoneStep,
    at: int,
)
    requires
        before.wf(),
        put::put_completed(
            before,
            after,
            manager,
            leases_before,
            leases_after,
            req,
            base_capacity,
            step,
        ),
        0 <= at < before.inflight_puts@.len(),
        before.inflight_puts@[at].key@ == req.key@,
        before.inflight_puts@[at].put_id == req.put_id,
        before.inflight_puts@[at].src_target_allocation is Some,
        step is SetMaxCapacity,
    ensures
        ({
            let info = before.inflight_puts@[at];
            let block = match info.src_target_allocation->0 {
                InflightPutAllocation::Local(block) => block,
                InflightPutAllocation::Remote { target, .. } => target,
            };
            let node = info.node_id@;
            let total = set_aside(before, node) + block.capcity;
            &&& total <= u64::MAX ==> set_aside(after, node) == total
            &&& total <= u64::MAX ==> step->new_capacity == if total <= base_capacity {
                base_capacity - total
            } else {
                0
            }
            &&& forall|other: Seq<char>|
                other != node ==> #[trigger] set_aside(after, other) == set_aside(before, other)
        }),
{
    puts::lemma_found_at(before.inflight_puts@, at);
}

/// A version that is committed is in the index, and goes into the cache of its node with its weight
/// unless it has a lease or the caches are switched off.
pub proof fn law_committed_versions_are_indexed_and_cached(
    before: MasterKvRouter,
    after: MasterKvRouter,
    key: Seq<char>,
    put_id: PutIDForAKey,
    lease_id: Option<u64>,
    replica: KvRouteInfo,
    released: Seq<Allocation>,
    outcome: PutDoneOutcome,
)
    requires
        put::committed(before, after, key, put_id, lease_id, replica, released, outcome),
    ensures
        index_follows(before, after, key),
        outcome.reply->Ok_0.error_code == 0,
        outcome.reply->Ok_0.error_json@.len() == 0,
        outcome.reply->Ok_0.server_process_us == 0,
        outcome.cache_update is Some <==> lease_id is None
            && !before.test_spec_config.disable_master_replica_cache,
        outcome.cache_update matches Some(update) ==> (update matches CacheUpdate::Insert {
            node_id,
            key: name,
            desc,
        } && node_id@ == replica.node_id@ && name@ == key && desc.put_id == put_id && (
        replica.allocation.capcity <= u32::MAX ==> desc.weight_bytes
            == replica.allocation.capcity)),
        after.inflight_put_keys@ == before.inflight_put_keys@,
        after.lease_reserved_bytes@ == before.lease_reserved_bytes@,
        after.recent_versions@ == before.recent_versions@,
        after.next_get_id == before.next_get_id,
        after.next_holder_id == before.next_holder_id,
{
}

/// A get that starts touches no put. The index follows what it cleans up, and the cache of the node that
/// it reads from learns that the value was used, unless it has a lease or the caches are switched off.
pub proof fn law_started_gets_touch_no_put(
    before: MasterKvRouter,
    after: MasterKvRouter,
    starting: StartingGet,
    target: Allocation,
    mode: GetAllocationMode,
    step: GetStartStep,
)
    requires
        get::get_started(before, after, starting, target, mode, step),
    ensures
        writing_untouched(before, after),
        index_follows(before, after, starting.key@),
        after.next_holder_id == before.next_holder_id,
        after.next_get_id == before.next_get_id,
        step matches GetStartStep::Done(outcome) && outcome.get_id == starting.get_id && {
            &&& outcome.reply is Ok
            &&& outcome.reply->Ok_0.error_code == 0
            &&& outcome.reply->Ok_0.error_json@.len() == 0
            &&& outcome.reply->Ok_0.server_process_us == 0
            &&& outcome.cache_update is Some <==> starting.lease_id is None
                && !before.test_spec_config.disable_master_replica_cache
            &&& outcome.cache_update matches Some(update) ==> (update matches CacheUpdate::Touch {
                node_id,
                key,
            } && node_id@ == starting.src.node_id@ && key@ == starting.key@)
        },
{
}

/// A get that fails touches nothing but the replicas that are gone.
pub proof fn law_failed_gets_touch_no_put(
    before: MasterKvRouter,
    after: MasterKvRouter,
    key: Seq<char>,
    put_id: PutIDForAKey,
    tombs: Seq<String>,
    error: KvErrorOf<Seq<char>>,
    step: GetStartStep,
)
    requires
        get::get_abandoned(before, after, key, put_id, tombs, error, step),
    ensures
        writing_untouched(before, after),
        index_follows(before, after, key),
        after.inflight_gets@ == before.inflight_gets@,
        after.next_holder_id == before.next_holder_id,
        after.next_get_id == before.next_get_id,
        step matches GetStartStep::Done(outcome) && outcome.get_id == 0 && outcome.reply is Err
            && outcome.reply->Err_0@ == error && outcome.cache_update is None,
{
}

/// The replicas that a cleanup hands out are those of the version on the nodes that are gone, in their
/// order, and none where another version is current.
pub proof fn law_cleanup_hands_out_what_it_drops(
    routes: Map<Seq<char>, RouteModel>,
    key: Seq<char>,
    put_id: PutIDForAKey,
    tombs: Seq<String>,
)
    ensures
        get::cleaned_off(routes, key, put_id, tombs) == if routes.contains_key(key)
            && routes[key].put_id == put_id {
            routes[key].replicas.filter(
                |replica: KvRouteInfo|
                    exists|i: int|
                        0 <= i < tombs.len() && (#[trigger] tombs[i])@ == replica.node_id@,
            )
        } else {
            Seq::empty()
        },
{
    if routes.contains_key(key) && routes[key].put_id == put_id {
        lemma_replicas_on(routes[key].replicas, tombs);
    }
}

proof fn lemma_replicas_on(replicas: Seq<KvRouteInfo>, tombs: Seq<String>)
    ensures
        crate::master_kv_router::routes::replicas_on(replicas, tombs) == replicas.filter(
            |replica: KvRouteInfo|
                exists|i: int| 0 <= i < tombs.len() && (#[trigger] tombs[i])@ == replica.node_id@,
        ),
    decreases replicas.len(),
{
    reveal(Seq::filter);
    if replicas.len() > 0 {
        lemma_replicas_on(replicas.drop_last(), tombs);
    }
}

/// A get that is completed touches no put and no index. A value that becomes a replica goes into the
/// cache of its node, unless it has a lease or the caches are switched off. One that is not in progress
/// changes nothing, and hands out nothing.
pub proof fn law_completed_gets_touch_no_put(
    before: MasterKvRouter,
    after: MasterKvRouter,
    manager: MasterSegManager,
    get_id: u64,
    outcome: GetDoneOutcome,
)
    requires
        get::get_completed(before, after, manager, get_id, outcome),
    ensures
        writing_untouched(before, after),
        after.prefix_index@ == before.prefix_index@,
        after.next_get_id == before.next_get_id,
        outcome.reply is Ok <==> before.inflight_gets@.contains_key(get_id),
        outcome.reply is Err ==> {
            &&& after.kv_routes@ == before.kv_routes@
            &&& after.inflight_gets@ == before.inflight_gets@
            &&& after.next_holder_id == before.next_holder_id
            &&& outcome.holding is None
            &&& outcome.replaced is None
            &&& outcome.cache_update is None
        },
        outcome.reply matches Ok(resp) ==> {
            let info = before.inflight_gets@[get_id];
            let becomes = resp.allocation_mode == GetAllocationMode::DurableReplica;
            &&& resp.error_code == 0
            &&& resp.error_json@.len() == 0
            &&& resp.server_process_us == 0
            &&& outcome.cache_update is Some <==> becomes
                && before.kv_routes@[info.key@].lease_id is None
                && !before.test_spec_config.disable_master_replica_cache
            &&& outcome.cache_update matches Some(update) ==> (update matches CacheUpdate::Insert {
                node_id,
                key,
                desc,
            } && node_id@ == info.req_node_id@ && key@ == info.key@ && desc.put_id == info.put_id
                && (info.allocation.capcity <= u32::MAX ==> desc.weight_bytes
                == info.allocation.capcity))
            &&& !becomes ==> outcome.replaced is None
        },
{
}

/// A get that is dropped touches no put, no index and no counter.
pub proof fn law_dropped_gets_touch_no_put(
    before: MasterKvRouter,
    after: MasterKvRouter,
    get_id: u64,
    dropped: Option<InflightGetInfo>,
)
    requires
        get::get_dropped(before, after, get_id, dropped),
    ensures
        writing_untouched(before, after),
        after.prefix_index@ == before.prefix_index@,
        after.next_get_id == before.next_get_id,
        after.next_holder_id == before.next_holder_id,
        dropped is Some <==> before.inflight_gets@.contains_key(get_id),
        !after.inflight_gets@.contains_key(get_id),
        forall|other: u64|
            other != get_id ==> (#[trigger] after.inflight_gets@.contains_key(other)
                <==> before.inflight_gets@.contains_key(other)) && (
            before.inflight_gets@.contains_key(other) ==> after.inflight_gets@[other]
                == before.inflight_gets@[other]),
{
}

/// A get holds a slot of the route that it was started on, if its block is to become a replica.
pub proof fn law_slots_are_held_for_replicas(info: InflightGetInfo, key: Seq<char>, route_id: u64)
    ensures
        info.holds_slot_of(key, route_id) <==> info.allocation_mode
            == GetAllocationMode::DurableReplica && info.key@ == key && info.route_id == route_id,
{
}

/// In every state of the router the gets that are to leave a replica behind hold no more of a route's
/// slots than are in use, of which there are two; and no route has the id that the next one gets.
pub proof fn law_slots_cover_the_gets(router: MasterKvRouter, key: Seq<char>)
    requires
        router.wf(),
        router.kv_routes@.contains_key(key),
    ensures
        ({
            let route = router.kv_routes@[key];
            &&& get::durable_gets(router.inflight_gets@, key, route.route_id).len() <= route.slots
            &&& route.slots <= 2
            &&& route.route_id < router.next_route_id
        }),
{
}

} // verus!
