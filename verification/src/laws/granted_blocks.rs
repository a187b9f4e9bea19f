//! Granted blocks: what a put or a get does once a segment has answered.

use crate::cluster_manager::ClusterMember;
use crate::error::{ApiErrorOf, KvErrorOf};
use crate::laws::{bookkeeping, gets, puts};
use crate::master_kv_router::cache_capacity::CacheResize;
use crate::master_kv_router::get::{self, GetStartStep, PendingGet};
use crate::master_kv_router::msg_pack::GetAllocationMode;
use crate::master_kv_router::placement::{PlacementSearch, PlacementStep, PutPlacementTarget};
use crate::master_kv_router::put::{
    self, InflightPutAllocation, PendingCommit, PendingPut, PutDoneOutcome, PutStage, PutStartStep,
};
use crate::master_kv_router::MasterKvRouter;
use crate::master_seg_manager::one_seg_allocator::{
    Allocation, AllocationOutcome, OneSegAllocator, Region,
};
use crate::master_seg_manager::MasterSegManager;
use vstd::prelude::*;

verus! {

/// The block is the region that was granted, in the segment that granted it, for so many bytes.
pub open spec fn is_granted(
    block: Allocation,
    segment: OneSegAllocator,
    region: Region,
    len: u64,
) -> bool {
    &&& block.addr == region.start_addr
    &&& block.capcity == region.size
    &&& block.base == segment.base_addr
    &&& block.allocator == segment.id
    &&& block.size == len
    &&& !block.lease_reserved
}

/// A block is where its region was granted.
pub proof fn law_blocks_are_where_they_were_granted(
    segment: OneSegAllocator,
    region: Region,
    len: u64,
)
    ensures
        is_granted(segment.allocation(len, region), segment, region, len),
{
}

/// A source that refuses is asked again while there are tries left, each of which counts. After the
/// last one the put fails for want of space, and holds nothing.
pub proof fn law_refused_sources_are_asked_again(
    before: MasterKvRouter,
    after: MasterKvRouter,
    manager: MasterSegManager,
    pending: PendingPut,
    outcome: AllocationOutcome,
    members: Seq<ClusterMember>,
    step: PutStartStep,
)
    requires
        put::put_allocated(before, after, manager, pending, outcome, members, step),
        pending.stage is Source,
        outcome.region is None,
    ensures
        ({
            let tries = pending.stage->attempts_left;
            &&& tries > 1 ==> after == before && (step matches PutStartStep::TryAllocate(next)
                && next.put == pending.put && (next.stage matches PutStage::Source {
                allocator,
                attempts_left,
            } && allocator == pending.stage->Source_allocator && attempts_left == tries - 1))
            &&& tries <= 1 ==> {
                &&& bookkeeping::writers_changed(before, after, pending.put.key@, -1)
                &&& bookkeeping::reading_untouched(before, after)
                &&& after.inflight_puts@ == before.inflight_puts@
                &&& step matches PutStartStep::Done { reply, released, .. } && released@.len() == 0
                    && (reply matches Err(error) && (error@ matches KvErrorOf::Api(
                    ApiErrorOf::NoSpace { node, segment, .. },
                ) && node == pending.put.source_node_id@ && segment
                    == pending.stage->Source_allocator.seg_device_id@))
            }
        }),
{
}

/// A put that got its source block keeps it: it is in progress with that block, looks for a target
/// with it, or gives it back.
pub proof fn law_granted_source_blocks_are_kept(
    before: MasterKvRouter,
    after: MasterKvRouter,
    manager: MasterSegManager,
    pending: PendingPut,
    outcome: AllocationOutcome,
    members: Seq<ClusterMember>,
    step: PutStartStep,
)
    requires
        put::put_allocated(before, after, manager, pending, outcome, members, step),
        pending.stage is Source,
        outcome.region is Some,
    ensures
        ({
            let block = pending.stage->Source_allocator.allocation(
                pending.put.len,
                outcome.region->0,
            );
            &&& step matches PutStartStep::TryAllocate(next) ==> {
                &&& after == before
                &&& next.put == pending.put
                &&& next.stage is Target
                &&& next.stage->src == block
            }
            &&& step matches PutStartStep::Done { reply, released, .. } ==> if reply is Ok {
                &&& puts::in_progress(
                    after,
                    pending.put.key@,
                    pending.put.put_id,
                    pending.put.source_node_id@,
                    InflightPutAllocation::Local(block),
                )
                &&& reply->Ok_0.src_addr == block.base + block.addr
                &&& reply->Ok_0.target_addr == block.base + block.addr
            } else {
                &&& released@ == seq![block]
                &&& after.inflight_puts@ == before.inflight_puts@
                &&& bookkeeping::writers_changed(before, after, pending.put.key@, -1)
            }
        }),
{
    let block = pending.stage->Source_allocator.allocation(pending.put.len, outcome.region->0);
    let nodes = crate::master_kv_router::placement::preferred_nodes(
        members,
        match pending.put.preferred_sub_cluster {
            Some(name) => Some(name@),
            None => None,
        },
    );
    let (search, placement) = choose|search: PlacementSearch, placement: PlacementStep|
        #![trigger put::concluded(before, after, pending.put, block, search, placement, step)]
        crate::master_kv_router::placement::may_begin(
            false,
            manager,
            pending.put.source_node_id@,
            nodes,
            pending.put.len,
            search,
            placement,
        ) && put::concluded(before, after, pending.put, block, search, placement, step);
    crate::laws::placement::law_placement_begins_with_the_preferred(
        manager,
        pending.put.source_node_id@,
        nodes,
        pending.put.len,
        search,
        placement,
    );
    if let PlacementStep::Placed(target) = placement {
        puts::law_placed_put_is_in_progress(
            before,
            after,
            pending.put,
            block,
            search,
            target,
            step,
        );
    }
}

/// A put whose target granted a block is in progress, with its source block and the one that was
/// granted, on the node that granted it.
pub proof fn law_granted_target_blocks_are_kept(
    before: MasterKvRouter,
    after: MasterKvRouter,
    manager: MasterSegManager,
    pending: PendingPut,
    outcome: AllocationOutcome,
    members: Seq<ClusterMember>,
    step: PutStartStep,
)
    requires
        put::put_allocated(before, after, manager, pending, outcome, members, step),
        pending.stage is Target,
        outcome.region is Some,
    ensures
        ({
            let block = pending.stage->Target_allocator.allocation(
                pending.stage->search.len,
                outcome.region->0,
            );
            &&& puts::in_progress(
                after,
                pending.put.key@,
                pending.put.put_id,
                pending.stage->node_id@,
                InflightPutAllocation::Remote { src: pending.stage->src, target: block },
            )
            &&& step matches PutStartStep::Done { put_id, reply, .. } && put_id
                == pending.put.put_id && reply is Ok && reply->Ok_0.target_addr == block.base
                + block.addr && reply->Ok_0.node_id@ == pending.stage->node_id@
        }),
{
    let target = PutPlacementTarget::Remote {
        node_id: pending.stage->node_id,
        allocator: pending.stage->Target_allocator,
        allocation: pending.stage->Target_allocator.allocation(
            pending.stage->search.len,
            outcome.region->0,
        ),
    };
    let next = choose|next: PlacementSearch| #[trigger]
        put::concluded(
            before,
            after,
            pending.put,
            pending.stage->src,
            next,
            PlacementStep::Placed(target),
            step,
        );
    puts::law_placed_put_is_in_progress(
        before,
        after,
        pending.put,
        pending.stage->src,
        next,
        target,
        step,
    );
}

/// A put whose target refused keeps its source block while it looks on, and gives it back when it
/// fails.
pub proof fn law_refused_targets_are_passed_by(
    before: MasterKvRouter,
    after: MasterKvRouter,
    manager: MasterSegManager,
    pending: PendingPut,
    outcome: AllocationOutcome,
    members: Seq<ClusterMember>,
    step: PutStartStep,
)
    requires
        put::put_allocated(before, after, manager, pending, outcome, members, step),
        pending.stage is Target,
        outcome.region is None,
    ensures
        step matches PutStartStep::TryAllocate(next) ==> {
            &&& after == before
            &&& next.put == pending.put
            &&& next.stage is Target
            &&& next.stage->src == pending.stage->src
        },
        step matches PutStartStep::Done { reply, released, .. } ==> reply is Err ==> {
            &&& released@ == seq![pending.stage->src]
            &&& after.inflight_puts@ == before.inflight_puts@
            &&& bookkeeping::writers_changed(before, after, pending.put.key@, -1)
        },
{
}

/// A get that was granted a block is answered with it, and noted with it; the mode is that of a
/// replica only while the route that it reads from is the current one and has a slot left.
pub proof fn law_granted_blocks_are_read_into(
    before: MasterKvRouter,
    after: MasterKvRouter,
    pending: PendingGet,
    outcome: AllocationOutcome,
    step: GetStartStep,
)
    requires
        get::get_allocated(before, after, pending, outcome, step),
        outcome.region is Some,
    ensures
        ({
            let block = pending.allocator.allocation(
                pending.get.src.allocation.size,
                outcome.region->0,
            );
            let get_id = pending.get.get_id;
            &&& after.inflight_gets@.contains_key(get_id)
            &&& after.inflight_gets@[get_id].key@ == pending.get.key@
            &&& after.inflight_gets@[get_id].allocation == block
            &&& after.inflight_gets@[get_id].req_node_id@ == pending.get.req_node_id@
            &&& after.inflight_gets@[get_id].allocation_mode != GetAllocationMode::ReuseReplica
            &&& after.inflight_gets@[get_id].allocation_mode == GetAllocationMode::DurableReplica
                ==> before.kv_routes@.contains_key(pending.get.key@)
                && before.kv_routes@[pending.get.key@].route_id == pending.get.route_id
                && before.kv_routes@[pending.get.key@].slots < 2
            &&& step matches GetStartStep::Done(done) && done.reply is Ok
                && done.reply->Ok_0.target_addr == block.base + block.addr
                && done.reply->Ok_0.src_addr == pending.get.src.allocation.base
                + pending.get.src.allocation.addr && done.reply->Ok_0.node_id@
                == pending.get.src.node_id@ && done.reply->Ok_0.len
                == pending.get.src.allocation.size
        }),
{
}

/// A get that was refused asks again while there are tries left, each of which counts. After the last
/// one it fails for want of space, and is not noted.
pub proof fn law_refused_gets_ask_again(
    before: MasterKvRouter,
    after: MasterKvRouter,
    pending: PendingGet,
    outcome: AllocationOutcome,
    step: GetStartStep,
)
    requires
        get::get_allocated(before, after, pending, outcome, step),
        outcome.region is None,
    ensures
        pending.attempts_left > 1 ==> after == before && (step matches GetStartStep::TryAllocate(
            next,
        ) && next.get == pending.get && next.allocator == pending.allocator && next.attempts_left
            == pending.attempts_left - 1),
        pending.attempts_left <= 1 ==> {
            &&& after.inflight_gets@ == before.inflight_gets@
            &&& gets::replicas_elsewhere_kept(
                before.kv_routes@,
                after.kv_routes@,
                pending.get.tombs@,
            )
            &&& step matches GetStartStep::Done(done) && (done.reply matches Err(error) && (
            error@ matches KvErrorOf::Api(ApiErrorOf::NoSpace { node, segment, .. }) && node
                == pending.get.req_node_id@ && segment == pending.allocator.seg_device_id@))
        },
{
    if pending.attempts_left <= 1 {
        gets::law_cleanup_leaves_the_other_replicas(
            before.kv_routes@,
            pending.get.key@,
            pending.get.put_id,
            pending.get.tombs@,
        );
    }
}

/// Once the cache of its node was resized a put with a lease is the current version of its key. Where
/// it could not be resized no route changes, every block is given back, and what was set aside for
/// the put is set aside no more.
pub proof fn law_resized_puts_are_current(
    before: MasterKvRouter,
    after: MasterKvRouter,
    pending: PendingCommit,
    resize: CacheResize,
    outcome: PutDoneOutcome,
)
    requires
        put::put_resized(before, after, pending, resize, outcome),
    ensures
        outcome.reply is Ok ==> {
            let route = after.kv_routes@[pending.key@];
            &&& after.kv_routes@.contains_key(pending.key@)
            &&& route.put_id == pending.put_id
            &&& route.lease_id == Some(pending.lease_id)
            &&& route.replicas.len() == 1
            &&& route.replicas[0].node_id@ == pending.node_id@
            &&& route.replicas[0].tomb_tag == pending.tomb_tag
            &&& route.replicas[0].allocation.shares_block(pending.target)
            &&& route.replicas[0].allocation.lease_reserved
            &&& outcome.released@ == pending.released@
            &&& outcome.cache_update is None
            &&& after.lease_reserved_bytes@ == before.lease_reserved_bytes@
            &&& bookkeeping::index_follows(before, after, pending.key@)
        },
        outcome.reply is Err ==> {
            let was = bookkeeping::set_aside(before, pending.node_id@);
            &&& was >= pending.target.capcity ==> bookkeeping::set_aside(after, pending.node_id@)
                == was - pending.target.capcity
            &&& after.kv_routes@ == before.kv_routes@
            &&& after.prefix_index@ == before.prefix_index@
            &&& outcome.released@ == pending.released@.push(pending.target)
            &&& outcome.replaced is None
        },
        outcome.reply is Ok <==> resize is Resized,
{
}

} // verus!
