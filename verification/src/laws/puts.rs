//! Puts: a value is staged where the request says, and becomes the current version of its key.

use crate::cluster_manager::{ClusterMember, NodeID};
use crate::error::{ApiErrorOf, KvErrorOf};
use crate::master_kv_router::msg_pack::{PutDoneReq, PutStartReq};
use crate::master_kv_router::placement::{PlacementSearch, PlacementStep, PutPlacementTarget};
use crate::master_kv_router::put::{
    InflightPutAllocation, InflightPutInfo, PutDoneOutcome, PutDoneStep, PutIDForAKey, PutStage,
    PutStartStep, StartingPut,
};
use crate::master_kv_router::routes::KvRouteInfo;
use crate::master_kv_router::MasterKvRouter;
use crate::master_lease_manager::master_lease_manager::MasterLeaseManager;
use crate::master_seg_manager::one_seg_allocator::{Allocation, OneSegAllocator};
use crate::master_seg_manager::MasterSegManager;
use vstd::prelude::*;

verus! {

/// The requester may stage its puts on the source node: it is that node, or it is a side-transfer
/// worker that names the node as its owner, in the node's current incarnation, with the same
/// directory for local IPC.
pub open spec fn may_stage_on(
    requester_node_id: Seq<char>,
    source_node_id: Seq<char>,
    requester: Option<&ClusterMember>,
    source: Option<&ClusterMember>,
) -> bool {
    requester_node_id == source_node_id || {
        &&& requester is Some
        &&& source is Some
        &&& requester->0.metadata.value("side_transfer_worker"@) == Some("true"@)
        &&& requester->0.metadata.value("shared_storage_node_id"@) == Some(source_node_id)
        &&& requester->0.metadata.value("shared_storage_node_start_time"@) matches Some(time)
            && crate::text::parsed_i64(time) == Some(source->0.node_start_time as int)
        &&& requester->0.metadata.value("local_ipc_root"@) is Some
        &&& requester->0.metadata.value("local_ipc_root"@) == source->0.metadata.value(
            "local_ipc_root"@,
        )
    }
}

/// A put is refused the source node that it names exactly if the requester may not stage there.
pub proof fn law_only_own_workers_stage_elsewhere(
    requester_node_id: Seq<char>,
    source_node_id: Seq<char>,
    requester: Option<&ClusterMember>,
    source: Option<&ClusterMember>,
)
    ensures
        crate::master_kv_router::put::source_override_refusal(
            requester_node_id,
            source_node_id,
            requester,
            source,
        ) is None <==> may_stage_on(requester_node_id, source_node_id, requester, source),
{
}

/// The node that a put is to be staged on: the one that the request names, or else the requester.
pub open spec fn staged_on(req: PutStartReq, req_node_id: NodeID) -> Seq<char> {
    if req.source_node_id is Some {
        req.source_node_id->0@
    } else {
        req_node_id@
    }
}

/// A put goes on exactly if its key may be written, the requester may stage it where it says, and
/// that node lives and has a segment. It then asks for its bytes on a segment of that very node, and
/// carries what the request said; its id has the time of the start. In every other case it fails and
/// holds nothing.
pub proof fn law_put_is_staged_where_it_says(
    before: MasterKvRouter,
    after: MasterKvRouter,
    manager: MasterSegManager,
    req: PutStartReq,
    req_node_id: NodeID,
    requester: Option<&ClusterMember>,
    source: Option<&ClusterMember>,
    put_time_ms: u64,
    step: PutStartStep,
)
    requires
        crate::master_kv_router::put::put_begun(
            before,
            after,
            manager,
            req,
            req_node_id,
            requester,
            source,
            put_time_ms,
            step,
        ),
    ensures
        ({
            let node = staged_on(req, req_node_id);
            let written = before.inflight_put_keys@.contains_key(req.key@)
                && before.inflight_put_keys@[req.key@] > 0;
            &&& step is TryAllocate <==> !(req.reject_if_inflight_same_key && written)
                && may_stage_on(req_node_id@, node, requester, source)
                && crate::laws::segments::living(manager, node)
                && manager.nodes()[node].allocators.len() > 0
            &&& step matches PutStartStep::TryAllocate(pending) ==> {
                &&& pending.put.source_node_id@ == node
                &&& pending.put.req_node_id@ == req_node_id@
                &&& pending.put.key@ == req.key@
                &&& pending.put.len == req.len
                &&& pending.put.preferred_sub_cluster == req.preferred_sub_cluster
                &&& pending.put.put_id.0 == put_time_ms
                &&& pending.stage matches PutStage::Source { allocator, .. }
                    && manager.nodes()[node].allocators.contains(allocator)
            }
            &&& step matches PutStartStep::Done { put_id, reply, released } ==> {
                &&& put_id == (0u64, 0u32)
                &&& released@.len() == 0
                &&& reply is Err
                &&& (req.reject_if_inflight_same_key && written) <==> reply->Err_0@
                    == KvErrorOf::Api(ApiErrorOf::KeyBeingWritten { key: req.key@ })
            }
        }),
        after.inflight_puts@ == before.inflight_puts@,
        after.kv_routes@ == before.kv_routes@,
        after.inflight_gets@ == before.inflight_gets@,
{
    law_only_own_workers_stage_elsewhere(
        req_node_id@,
        staged_on(req, req_node_id),
        requester,
        source,
    );
}

/// The put is in progress, noted with these blocks for this node.
pub open spec fn in_progress(
    router: MasterKvRouter,
    key: Seq<char>,
    put_id: PutIDForAKey,
    node_id: Seq<char>,
    blocks: InflightPutAllocation,
) -> bool {
    exists|i: int|
        0 <= i < router.inflight_puts@.len() && (#[trigger] router.inflight_puts@[i]).key@ == key
            && router.inflight_puts@[i].put_id == put_id && router.inflight_puts@[i].node_id@
            == node_id && router.inflight_puts@[i].src_target_allocation == Some(blocks)
}

/// A put of the key and id is in progress.
pub open spec fn is_in_progress(
    puts: Seq<InflightPutInfo>,
    key: Seq<char>,
    put_id: PutIDForAKey,
) -> bool {
    exists|i: int|
        0 <= i < puts.len() && (#[trigger] puts[i]).key@ == key && puts[i].put_id == put_id
}

/// Puts of other keys or ids are in progress as before.
pub open spec fn other_puts_stay(
    before: Seq<InflightPutInfo>,
    after: Seq<InflightPutInfo>,
    key: Seq<char>,
    put_id: PutIDForAKey,
) -> bool {
    &&& forall|i: int|
        0 <= i < before.len() && ((#[trigger] before[i]).key@ != key || before[i].put_id != put_id)
            ==> after.contains(before[i])
    &&& forall|i: int|
        0 <= i < after.len() && ((#[trigger] after[i]).key@ != key || after[i].put_id != put_id)
            ==> before.contains(after[i])
}

proof fn lemma_noted(puts: Seq<InflightPutInfo>, info: InflightPutInfo)
    ensures
        crate::master_kv_router::put::with_put(puts, info).contains(info),
        other_puts_stay(
            puts,
            crate::master_kv_router::put::with_put(puts, info),
            info.key@,
            info.put_id,
        ),
{
    let after = crate::master_kv_router::put::with_put(puts, info);
    crate::master_kv_router::put::lemma_put_index(puts, info.key@, info.put_id);
    match crate::master_kv_router::put::put_index(puts, info.key@, info.put_id) {
        Some(at) => {
            assert(after[at] == info);
            assert forall|i: int|
                0 <= i < puts.len() && ((#[trigger] puts[i]).key@ != info.key@ || puts[i].put_id
                    != info.put_id) implies after.contains(puts[i]) by {
                assert(after[i] == puts[i]);
            }
            assert forall|i: int|
                0 <= i < after.len() && ((#[trigger] after[i]).key@ != info.key@ || after[i].put_id
                    != info.put_id) implies puts.contains(after[i]) by {
                assert(after[i] == puts[i]);
            }
        },
        None => {
            assert(after[puts.len() as int] == info);
            assert forall|i: int|
                0 <= i < puts.len() implies after.contains(#[trigger] puts[i]) by {
                assert(after[i] == puts[i]);
            }
            assert forall|i: int|
                0 <= i < after.len() && ((#[trigger] after[i]).key@ != info.key@ || after[i].put_id
                    != info.put_id) implies puts.contains(after[i]) by {
                assert(after[i] == puts[i]);
            }
        },
    }
}

pub proof fn lemma_taken_out(puts: Seq<InflightPutInfo>, key: Seq<char>, put_id: PutIDForAKey)
    requires
        crate::master_kv_router::put::puts_distinct(puts),
    ensures
        !is_in_progress(
            crate::master_kv_router::put::without_put(puts, key, put_id),
            key,
            put_id,
        ),
        other_puts_stay(
            puts,
            crate::master_kv_router::put::without_put(puts, key, put_id),
            key,
            put_id,
        ),
        match crate::master_kv_router::put::put_index(puts, key, put_id) {
            Some(i) => 0 <= i < puts.len() && puts[i].key@ == key && puts[i].put_id == put_id,
            None => !is_in_progress(puts, key, put_id),
        },
{
    let after = crate::master_kv_router::put::without_put(puts, key, put_id);
    crate::master_kv_router::put::lemma_put_index(puts, key, put_id);
    crate::master_kv_router::put::lemma_without_put(puts, key, put_id);
    crate::master_kv_router::put::lemma_put_index(after, key, put_id);
    if let Some(at) = crate::master_kv_router::put::put_index(puts, key, put_id) {
        assert forall|i: int|
            0 <= i < puts.len() && ((#[trigger] puts[i]).key@ != key || puts[i].put_id
                != put_id) implies after.contains(puts[i]) by {
            if i < at {
                assert(after[i] == puts[i]);
            } else {
                assert(after[i - 1] == puts[i]);
            }
        }
        assert forall|i: int| 0 <= i < after.len() implies puts.contains(#[trigger] after[i]) by {
            if i < at {
                assert(after[i] == puts[i]);
            } else {
                assert(after[i] == puts[i + 1]);
            }
        }
    } else {
        assert forall|i: int| 0 <= i < puts.len() implies after.contains(#[trigger] puts[i]) by {}
    }
}

/// A put in progress is found by its key and id.
pub proof fn lemma_found_at(puts: Seq<InflightPutInfo>, at: int)
    requires
        crate::master_kv_router::put::puts_distinct(puts),
        0 <= at < puts.len(),
    ensures
        crate::master_kv_router::put::put_index(puts, puts[at].key@, puts[at].put_id) == Some(at),
{
    crate::master_kv_router::put::lemma_put_index(puts, puts[at].key@, puts[at].put_id);
    let found = crate::master_kv_router::put::put_index(puts, puts[at].key@, puts[at].put_id);
    assert(found is Some) by {
        if found is None {
            assert(puts[at].key@ == puts[at].key@);
        }
    }
    let i = found->0;
    if i < at {
        assert(puts[i].key@ != puts[at].key@ || puts[i].put_id != puts[at].put_id);
    } else if at < i {
        assert(puts[at].key@ != puts[i].key@ || puts[at].put_id != puts[i].put_id);
    }
}

/// A put whose target is decided is in progress, for the node that was decided on and with its
/// blocks, and the answer names them: the source block, and as target that same block where the
/// value stays, or else the block on the other node.
pub proof fn law_placed_put_is_in_progress(
    before: MasterKvRouter,
    after: MasterKvRouter,
    put: StartingPut,
    src: Allocation,
    search: PlacementSearch,
    target: PutPlacementTarget,
    step: PutStartStep,
)
    requires
        crate::master_kv_router::put::concluded(
            before,
            after,
            put,
            src,
            search,
            PlacementStep::Placed(target),
            step,
        ),
    ensures
        ({
            let (node, block, blocks) = match target {
                PutPlacementTarget::Local { node_id } => (
                    node_id@,
                    src,
                    InflightPutAllocation::Local(src),
                ),
                PutPlacementTarget::Remote { node_id, allocation, .. } => (
                    node_id@,
                    allocation,
                    InflightPutAllocation::Remote { src, target: allocation },
                ),
            };
            &&& in_progress(after, put.key@, put.put_id, node, blocks)
            &&& other_puts_stay(
                before.inflight_puts@,
                after.inflight_puts@,
                put.key@,
                put.put_id,
            )
            &&& step matches PutStartStep::Done { put_id, reply, .. } && put_id == put.put_id && (
            reply matches Ok(resp) && {
                &&& resp.put_id == put.put_id
                &&& resp.node_id@ == node
                &&& resp.src_addr == src.base + src.addr
                &&& resp.src_base_addr == src.base
                &&& resp.target_addr == block.base + block.addr
                &&& resp.target_base_addr == block.base
                &&& resp.len == block.size
            })
        }),
        after.kv_routes@ == before.kv_routes@,
        after.inflight_gets@ == before.inflight_gets@,
{
    let info = crate::master_kv_router::put::placed_put(put, src, target);
    lemma_noted(before.inflight_puts@, info);
    let puts = after.inflight_puts@;
    let i = choose|i: int| 0 <= i < puts.len() && puts[i] == info;
    assert(puts[i].key@ == put.key@);
}

/// A put that found no target is not in progress, gives its source block back and changes no value.
pub proof fn law_unplaced_put_leaves_nothing(
    before: MasterKvRouter,
    after: MasterKvRouter,
    put: StartingPut,
    src: Allocation,
    search: PlacementSearch,
    placement: PlacementStep,
    step: PutStartStep,
)
    requires
        crate::master_kv_router::put::concluded(before, after, put, src, search, placement, step),
        placement is Failed,
    ensures
        after.inflight_puts@ == before.inflight_puts@,
        after.kv_routes@ == before.kv_routes@,
        step matches PutStartStep::Done { put_id, reply, released } && put_id == (0u64, 0u32)
            && released@ == seq![src] && (reply matches Err(e) && e@ == placement->Failed_0@),
{
}

/// A version that is committed is the current one of its key: the route has its id, its lease and
/// the one replica, and the routes of other keys stay as they are. The route that it replaces, if
/// there is one, is handed out.
pub proof fn law_committed_version_is_current(
    before: MasterKvRouter,
    after: MasterKvRouter,
    key: Seq<char>,
    put_id: PutIDForAKey,
    lease_id: Option<u64>,
    replica: KvRouteInfo,
    released: Seq<Allocation>,
    outcome: PutDoneOutcome,
)
    requires
        crate::master_kv_router::put::committed(
            before,
            after,
            key,
            put_id,
            lease_id,
            replica,
            released,
            outcome,
        ),
    ensures
        after.kv_routes@.contains_key(key),
        after.kv_routes@[key].put_id == put_id,
        after.kv_routes@[key].lease_id == lease_id,
        after.kv_routes@[key].replicas.len() == 1,
        after.kv_routes@[key].replicas[0] == replica,
        after.kv_routes@[key].slots == 0,
        after.kv_routes@[key].route_id == before.next_route_id,
        after.next_route_id > before.next_route_id,
        forall|other: Seq<char>|
            other != key ==> (#[trigger] after.kv_routes@.contains_key(other)
                <==> before.kv_routes@.contains_key(other)) && (
            before.kv_routes@.contains_key(other) ==> after.kv_routes@[other]
                == before.kv_routes@[other]),
        outcome.reply is Ok,
        outcome.released@ == released,
        outcome.replaced is Some <==> before.kv_routes@.contains_key(key),
        outcome.replaced matches Some(route) ==> route@ == before.kv_routes@[key],
        after.inflight_puts@ == before.inflight_puts@,
        after.inflight_gets@ == before.inflight_gets@,
{
}

/// A put that is ended before its time is over: it is not in progress, the others are, and what is
/// handed out is that put with its blocks.
pub proof fn law_dropped_put_is_over(
    before: MasterKvRouter,
    after: MasterKvRouter,
    key: Seq<char>,
    put_id: PutIDForAKey,
    dropped: Option<InflightPutInfo>,
)
    requires
        before.wf(),
        crate::master_kv_router::put::put_dropped(before, after, key, put_id, dropped),
    ensures
        !is_in_progress(after.inflight_puts@, key, put_id),
        other_puts_stay(before.inflight_puts@, after.inflight_puts@, key, put_id),
        dropped is Some <==> is_in_progress(before.inflight_puts@, key, put_id),
        dropped matches Some(info) ==> info.key@ == key && info.put_id == put_id
            && before.inflight_puts@.contains(info),
        after.kv_routes@ == before.kv_routes@,
{
    lemma_taken_out(before.inflight_puts@, key, put_id);
}

/// Completing a put takes it out of those in progress whatever comes of it. Without a lease it
/// succeeds exactly if the put was in progress with its blocks and its node is not gone: the block
/// that the put was placed in, on the node that it was placed on, is then the one replica of the
/// key's current version, and a separate source block is given back. Where it fails no route changes
/// and every block of the put is given back.
pub proof fn law_completed_put_is_current(
    before: MasterKvRouter,
    after: MasterKvRouter,
    manager: MasterSegManager,
    leases_before: MasterLeaseManager,
    leases_after: MasterLeaseManager,
    req: PutDoneReq,
    base_capacity: u64,
    step: PutDoneStep,
    at: int,
)
    requires
        before.wf(),
        req.lease_id is None,
        crate::master_kv_router::put::put_completed(
            before,
            after,
            manager,
            leases_before,
            leases_after,
            req,
            base_capacity,
            step,
        ),
        0 <= at < before.inflight_puts@.len(),
        before.inflight_puts@[at].key@ == req.key@,
        before.inflight_puts@[at].put_id == req.put_id,
        before.inflight_puts@[at].src_target_allocation is Some,
    ensures
        leases_after == leases_before,
        !is_in_progress(after.inflight_puts@, req.key@, req.put_id),
        other_puts_stay(before.inflight_puts@, after.inflight_puts@, req.key@, req.put_id),
        step matches PutDoneStep::Done(outcome) && {
            let put = before.inflight_puts@[at];
            let (src, target) = match put.src_target_allocation->0 {
                InflightPutAllocation::Local(block) => (None, block),
                InflightPutAllocation::Remote { src, target } => (Some(src), target),
            };
            if crate::laws::segments::living(manager, put.node_id@) {
                let route = after.kv_routes@[req.key@];
                &&& outcome.reply is Ok
                &&& after.kv_routes@.contains_key(req.key@)
                &&& route.put_id == req.put_id
                &&& route.lease_id is None
                &&& route.replicas.len() == 1
                &&& route.replicas[0].node_id@ == put.node_id@
                &&& route.replicas[0].allocation == target
                &&& route.replicas[0].tomb_tag == manager.nodes()[put.node_id@].tomb_tag
                &&& forall|other: Seq<char>|
                    other != req.key@ ==> (#[trigger] after.kv_routes@.contains_key(other)
                        <==> before.kv_routes@.contains_key(other)) && (
                    before.kv_routes@.contains_key(other) ==> after.kv_routes@[other]
                        == before.kv_routes@[other])
                &&& outcome.released@ == match src {
                    Some(src) => seq![src],
                    None => Seq::empty(),
                }
            } else {
                &&& outcome.reply is Err
                &&& after.kv_routes@ == before.kv_routes@
                &&& outcome.released@ == match src {
                    Some(src) => seq![src, target],
                    None => seq![target],
                }
            }
        },
{
    lemma_taken_out(before.inflight_puts@, req.key@, req.put_id);
    let puts = before.inflight_puts@;
    lemma_found_at(puts, at);
    let put = puts[at];
    if let PutDoneStep::Done(outcome) = step {
        if crate::laws::segments::living(manager, put.node_id@) {
            assert(outcome.released@ =~= crate::master_kv_router::put::target_and_rest(
                put.src_target_allocation->0,
            ).1);
        } else {
            let (target, rest) = crate::master_kv_router::put::target_and_rest(
                put.src_target_allocation->0,
            );
            assert(rest.push(target) =~= match put.src_target_allocation->0 {
                InflightPutAllocation::Local(block) => seq![block],
                InflightPutAllocation::Remote { src, target } => seq![src, target],
            });
        }
    }
}

/// A source that had no room is told of: its node, its segment, its size, and the bytes that were not
/// in use.
pub proof fn law_full_sources_are_told_of(
    source_node_id: Seq<char>,
    allocator: OneSegAllocator,
    used: u64,
)
    ensures
        crate::master_kv_router::put::source_no_space(
            source_node_id,
            allocator,
            used,
        ) matches KvErrorOf::Api(
            ApiErrorOf::NoSpace { node, segment, total_capacity, free_capacity },
        ) && node == source_node_id && segment == allocator.seg_device_id@ && total_capacity
            == allocator.total_size && (used <= allocator.total_size ==> free_capacity + used
            == allocator.total_size) && (used > allocator.total_size ==> free_capacity == 0),
{
}

} // verus!
