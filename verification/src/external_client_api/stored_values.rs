//! A value on its way through the cluster's memory: written by an external client, stored by the
//! master's route, brought to the node that asks and read by a client there.
//!
//! The memory is that of the segments, by the number of the segment's allocator. What the transfer
//! engine does is taken as one copy from block to block, and the owner's answers as the places that
//! the master named, less the base address of their segment.

use crate::cluster_manager::NodeID;
use crate::external_client_api::calls::OwnerCall;
use crate::external_client_api::owner::SharedMemoryPtr;
use crate::external_client_api::put::{ExternalGetInfo, ExternalMemHolder, ExternalPutStartOk};
use crate::master_kv_router::get::{
    GetDoneOutcome, GetStartStep, InflightGetInfo, StartingGet,
};
use crate::master_kv_router::msg_pack::{GetAllocationMode, GetStartResp, PutStartResp};
use crate::master_kv_router::put::{PutDoneOutcome, PutIDForAKey};
use crate::master_kv_router::routes::{KvRouteInfo, RouteModel};
use crate::master_kv_router::MasterKvRouter;
use crate::master_seg_manager::one_seg_allocator::{Allocation, OneSegAllocator};
use crate::master_seg_manager::MasterSegManager;
use vstd::prelude::*;

verus! {

/// The block stands in the memory.
pub open spec fn stands_in(memory: Map<u64, Seq<u8>>, block: Allocation) -> bool {
    memory.contains_key(block.allocator) && block.addr + block.size
        <= memory[block.allocator].len()
}

/// The value in a block.
pub open spec fn block_bytes(memory: Map<u64, Seq<u8>>, block: Allocation) -> Seq<u8> {
    memory[block.allocator].subrange(block.addr as int, block.addr + block.size)
}

/// No byte belongs to both blocks.
pub open spec fn apart(one: Allocation, other: Allocation) -> bool {
    one.allocator != other.allocator || one.addr + one.size <= other.addr || other.addr + other.size
        <= one.addr
}

/// The memory once the value in one block was copied to the beginning of another.
pub open spec fn transferred(
    memory: Map<u64, Seq<u8>>,
    from: Allocation,
    to: Allocation,
) -> Map<u64, Seq<u8>> {
    memory.insert(
        to.allocator,
        super::shared_bytes::overwritten(
            memory[to.allocator],
            to.addr as int,
            block_bytes(memory, from),
        ),
    )
}

/// The owner's answer to the start of a put gives the source block that the master named.
pub open spec fn relays_put_start(answer: ExternalPutStartOk, resp: PutStartResp) -> bool {
    answer.src_offset == resp.src_addr - resp.src_base_addr
}

/// The owner's answer to a get gives the target block that the master named.
pub open spec fn relays_get(info: ExternalGetInfo, resp: GetStartResp) -> bool {
    info.offset == resp.target_addr - resp.target_base_addr && info.len == resp.len
}

/// Every replica of the route holds the value.
pub open spec fn holds(route: RouteModel, memory: Map<u64, Seq<u8>>, value: Seq<u8>) -> bool {
    forall|i: int|
        0 <= i < route.replicas.len() ==> has_value(#[trigger] route.replicas[i], memory, value)
}

/// The replica holds the value.
pub open spec fn has_value(
    replica: KvRouteInfo,
    memory: Map<u64, Seq<u8>>,
    value: Seq<u8>,
) -> bool {
    &&& replica.allocation.size == value.len()
    &&& stands_in(memory, replica.allocation)
    &&& block_bytes(memory, replica.allocation) == value
}

/// The block holds in `later` what a replica of the route held in `memory`.
pub open spec fn carries(
    block: Allocation,
    later: Map<u64, Seq<u8>>,
    route: RouteModel,
    memory: Map<u64, Seq<u8>>,
) -> bool {
    &&& stands_in(later, block)
    &&& exists|j: int|
        0 <= j < route.replicas.len() && (#[trigger] route.replicas[j]).allocation.size
            == block.size && block_bytes(memory, route.replicas[j].allocation) == block_bytes(
            later,
            block,
        )
}

/// Every replica of the later route holds what one of the earlier route held.
pub open spec fn carried_on(
    route: RouteModel,
    memory: Map<u64, Seq<u8>>,
    after: RouteModel,
    later: Map<u64, Seq<u8>>,
) -> bool {
    forall|i: int|
        0 <= i < after.replicas.len() ==> carries(
            (#[trigger] after.replicas[i]).allocation,
            later,
            route,
            memory,
        )
}

/// No replica of the route was written meanwhile.
pub open spec fn untouched(
    route: RouteModel,
    memory: Map<u64, Seq<u8>>,
    later: Map<u64, Seq<u8>>,
) -> bool {
    forall|i: int|
        0 <= i < route.replicas.len() ==> {
            let block = (#[trigger] route.replicas[i]).allocation;
            stands_in(later, block) && block_bytes(later, block) == block_bytes(memory, block)
        }
}

/// The memory once a client wrote the value of a put into the source block, and it was copied to the
/// target block; the two are one where the value stays.
pub open spec fn stored(
    memory: Map<u64, Seq<u8>>,
    mapped: SharedMemoryPtr,
    addr: int,
    src: Allocation,
    target: Allocation,
    value: Seq<u8>,
) -> Map<u64, Seq<u8>> {
    transferred(
        memory.insert(
            src.allocator,
            super::shared_bytes::written_at(memory[src.allocator], mapped, addr, value),
        ),
        src,
        target,
    )
}

/// The block that a get reads from, and the one that the value is in once it was brought: where the
/// requester has a replica both are that one.
pub open spec fn get_blocks(
    route: RouteModel,
    req_node_id: Seq<char>,
    chosen: KvRouteInfo,
    target: Allocation,
) -> (Allocation, Allocation) {
    match route.replica_on(req_node_id) {
        Some(own) => (own.allocation, own.allocation),
        None => (chosen.allocation, target),
    }
}

/// The master answered the get, at once or once memory for it was found at `target`.
pub open spec fn get_replied(step: GetStartStep, target: Allocation, resp: GetStartResp) -> bool {
    match step {
        GetStartStep::Done(outcome) => outcome.reply matches Ok(reply) && reply == resp,
        GetStartStep::TryAllocate(pending) => {
            &&& target.size == pending.get.src.allocation.size
            &&& exists|mode: GetAllocationMode|
                mode != GetAllocationMode::ReuseReplica
                    && #[trigger] crate::master_kv_router::get::get_answered(
                    resp,
                    pending.get,
                    target,
                    mode,
                )
        },
    }
}

/// A copy fills the block that it goes to, and no byte of a block apart from it changes.
proof fn lemma_transferred(memory: Map<u64, Seq<u8>>, from: Allocation, to: Allocation)
    requires
        stands_in(memory, from),
        stands_in(memory, to),
        from.size == to.size,
    ensures
        block_bytes(transferred(memory, from, to), to) == block_bytes(memory, from),
        from == to ==> transferred(memory, from, to) == memory,
        forall|block: Allocation| #[trigger]
            stands_in(memory, block) ==> stands_in(transferred(memory, from, to), block),
        forall|block: Allocation|
            stands_in(memory, block) && apart(block, to) ==> #[trigger] block_bytes(
                transferred(memory, from, to),
                block,
            ) == block_bytes(memory, block),
{
    let after = transferred(memory, from, to);
    let value = block_bytes(memory, from);
    assert(after[to.allocator].len() == memory[to.allocator].len());
    assert(block_bytes(after, to) =~= value);
    if from == to {
        assert(after[to.allocator] =~= memory[to.allocator]);
        assert(after =~= memory);
    }
    assert forall|block: Allocation| stands_in(memory, block) && apart(block, to) implies (
    #[trigger] block_bytes(after, block)) == block_bytes(memory, block) by {
        assert(block_bytes(after, block) =~= block_bytes(memory, block));
    }
}

/// A put that is completed stores the value that the external client wrote where the owner told it
/// to, and no other value changes. `addr` is where the put was told to write.
pub proof fn law_put_stores_the_value(
    memory: Map<u64, Seq<u8>>,
    mapped: SharedMemoryPtr,
    call: OwnerCall,
    value: Seq<u8>,
    resp: PutStartResp,
    put_id: PutIDForAKey,
    node_id: Seq<char>,
    src: Allocation,
    target: Allocation,
    answer: ExternalPutStartOk,
    addr: u64,
    before: MasterKvRouter,
    after: MasterKvRouter,
    key: Seq<char>,
    lease_id: Option<u64>,
    replica: KvRouteInfo,
    released: Seq<Allocation>,
    outcome: PutDoneOutcome,
)
    requires
        crate::master_kv_router::put::started(resp, put_id, node_id, src, target),
        src.size == value.len(),
        target.size == value.len(),
        stands_in(memory, src),
        stands_in(memory, target),
        relays_put_start(answer, resp),
        call.base_addr == mapped.ptr_rw,
        addr == call.base_addr + answer.write_offset(),
        crate::master_kv_router::put::committed(
            before,
            after,
            key,
            put_id,
            lease_id,
            replica,
            released,
            outcome,
        ),
        replica.allocation == target || replica.allocation == target.reserved(),
    ensures
        after.kv_routes@.contains_key(key),
        after.kv_routes@[key].put_id == put_id,
        holds(
            after.kv_routes@[key],
            stored(memory, mapped, addr as int, src, target, value),
            value,
        ),
        forall|block: Allocation|
            stands_in(memory, block) && apart(block, src) && apart(block, target)
                ==> #[trigger] block_bytes(
                stored(memory, mapped, addr as int, src, target, value),
                block,
            ) == block_bytes(memory, block),
{
    let written = memory.insert(
        src.allocator,
        super::shared_bytes::written_at(memory[src.allocator], mapped, addr as int, value),
    );
    let kept = stored(memory, mapped, addr as int, src, target, value);
    assert(written[src.allocator].len() == memory[src.allocator].len());
    assert(block_bytes(written, src) =~= value);
    lemma_transferred(written, src, target);
    let route = after.kv_routes@[key];
    assert(route.replicas[0] == replica);
    assert(block_bytes(kept, replica.allocation) == block_bytes(kept, target));
    assert(stands_in(written, target));
    assert(stands_in(kept, target));
    assert forall|block: Allocation|
        stands_in(memory, block) && apart(block, src) && apart(block, target) implies (
    #[trigger] block_bytes(kept, block)) == block_bytes(memory, block) by {
        assert(stands_in(written, block));
        assert(block_bytes(written, block) =~= block_bytes(memory, block));
    }
}

/// A get that an external client makes brings the value that the key's route holds, and the route
/// goes on holding it: the get changes no stored value. `shared` is the segment that the client has
/// mapped, and `target` the memory that was found where the owner had no replica.
pub proof fn law_get_brings_the_stored_value(
    memory: Map<u64, Seq<u8>>,
    value: Seq<u8>,
    asked: MasterKvRouter,
    after: MasterKvRouter,
    marks: Seq<bool>,
    get_id: u64,
    key: String,
    owner: NodeID,
    chosen: Option<KvRouteInfo>,
    tombs: Vec<NodeID>,
    allocator: Option<OneSegAllocator>,
    step: GetStartStep,
    target: Allocation,
    resp: GetStartResp,
    info: ExternalGetInfo,
    mapped: SharedMemoryPtr,
    shared: u64,
    holder: ExternalMemHolder,
    external_client_id: Seq<char>,
    started_time: i64,
)
    requires
        asked.kv_routes@.contains_key(key@),
        holds(asked.kv_routes@[key@], memory, value),
        crate::master_kv_router::get::selection_ok(
            asked.kv_routes@[key@],
            marks,
            chosen,
            tombs@,
        ),
        crate::master_kv_router::get::get_begun(
            asked,
            after,
            get_id,
            key,
            owner,
            chosen,
            tombs,
            allocator,
            step,
        ),
        get_replied(step, target, resp),
        step is TryAllocate ==> stands_in(memory, target) && forall|i: int|
            0 <= i < asked.kv_routes@[key@].replicas.len() ==> apart(
                (#[trigger] asked.kv_routes@[key@].replicas[i]).allocation,
                target,
            ),
        relays_get(info, resp),
        get_blocks(asked.kv_routes@[key@], owner@, chosen->0, target).1.allocator == shared,
        crate::external_client_api::put::held(
            Some(holder),
            Some(info),
            mapped.ptr_ro,
            key@,
            external_client_id,
            started_time,
        ),
    ensures
        chosen is Some,
        ({
            let (from, to) = get_blocks(asked.kv_routes@[key@], owner@, chosen->0, target);
            let brought = transferred(memory, from, to);
            &&& super::shared_bytes::bytes_held(brought[shared], mapped, holder) == value
            &&& holds(asked.kv_routes@[key@], brought, value)
            &&& to.size == value.len()
            &&& stands_in(brought, to)
            &&& block_bytes(brought, to) == value
        }),
{
    let route = asked.kv_routes@[key@];
    crate::master_kv_router::routes::lemma_replica_index(route.replicas, owner@);
    let source = chosen->0;
    let at = choose|i: int| 0 <= i < route.replicas.len() && route.replicas[i] == source;
    assert(has_value(route.replicas[at], memory, value));
    let (from, to) = get_blocks(route, owner@, source, target);
    if let Some(i) = crate::master_kv_router::routes::replica_index(route.replicas, owner@) {
        assert(has_value(route.replicas[i], memory, value));
    }
    lemma_transferred(memory, from, to);
    let brought = transferred(memory, from, to);
    assert forall|i: int| 0 <= i < route.replicas.len() implies has_value(
        #[trigger] route.replicas[i],
        brought,
        value,
    ) by {
        assert(has_value(route.replicas[i], memory, value));
    }
    assert(super::shared_bytes::bytes_held(brought[shared], mapped, holder) =~= block_bytes(
        brought,
        to,
    ));
}

/// The replicas that a route still has hold what they held.
proof fn lemma_fewer_replicas(
    route: RouteModel,
    memory: Map<u64, Seq<u8>>,
    after: RouteModel,
    later: Map<u64, Seq<u8>>,
)
    requires
        untouched(route, memory, later),
        forall|i: int|
            0 <= i < after.replicas.len() ==> route.replicas.contains(#[trigger] after.replicas[i]),
    ensures
        carried_on(route, memory, after, later),
{
    assert forall|i: int| 0 <= i < after.replicas.len() implies carries(
        (#[trigger] after.replicas[i]).allocation,
        later,
        route,
        memory,
    ) by {
        assert(route.replicas.contains(after.replicas[i]));
        let j = choose|j: int| 0 <= j < route.replicas.len() && route.replicas[j]
            == after.replicas[i];
        assert(stands_in(later, route.replicas[j].allocation));
    }
}

/// A get that is started carries on every route that it leaves: it takes a slot, and replicas on
/// nodes that are gone are dropped.
pub proof fn law_started_get_keeps_the_value(
    memory: Map<u64, Seq<u8>>,
    later: Map<u64, Seq<u8>>,
    before: MasterKvRouter,
    after: MasterKvRouter,
    get: StartingGet,
    target: Allocation,
    mode: GetAllocationMode,
    step: GetStartStep,
    key: Seq<char>,
)
    requires
        before.kv_routes@.contains_key(key),
        untouched(before.kv_routes@[key], memory, later),
        crate::master_kv_router::get::get_started(before, after, get, target, mode, step),
        mode == GetAllocationMode::DurableReplica ==> before.kv_routes@.contains_key(get.key@),
        after.kv_routes@.contains_key(key),
    ensures
        after.kv_routes@[key].put_id == before.kv_routes@[key].put_id,
        carried_on(before.kv_routes@[key], memory, after.kv_routes@[key], later),
{
    let route = before.kv_routes@[key];
    let kept = after.kv_routes@[key];
    crate::master_kv_router::routes::lemma_replicas_off(route.replicas, get.tombs@);
    lemma_fewer_replicas(route, memory, kept, later);
}

/// A get that is completed carries on every route: the replica that it may leave behind holds what it
/// was copied from.
pub proof fn law_completed_get_keeps_the_value(
    memory: Map<u64, Seq<u8>>,
    later: Map<u64, Seq<u8>>,
    before: MasterKvRouter,
    after: MasterKvRouter,
    manager: MasterSegManager,
    get_id: u64,
    outcome: GetDoneOutcome,
    key: Seq<char>,
)
    requires
        before.kv_routes@.contains_key(key),
        untouched(before.kv_routes@[key], memory, later),
        before.inflight_gets@.contains_key(get_id) && before.inflight_gets@[get_id].key@ == key
            && before.inflight_gets@[get_id].put_id == before.kv_routes@[key].put_id ==> carries(
            before.inflight_gets@[get_id].allocation,
            later,
            before.kv_routes@[key],
            memory,
        ),
        crate::master_kv_router::get::get_completed(before, after, manager, get_id, outcome),
    ensures
        after.kv_routes@.contains_key(key),
        after.kv_routes@[key].put_id == before.kv_routes@[key].put_id,
        carried_on(before.kv_routes@[key], memory, after.kv_routes@[key], later),
{
    let info = before.inflight_gets@[get_id];
    let route = before.kv_routes@[key];
    let kept = after.kv_routes@[key];
    lemma_fewer_replicas(route, memory, route, later);
    if before.inflight_gets@.contains_key(get_id) && info.key@ == key
        && crate::master_kv_router::get::promotes(before.kv_routes@, manager, info) {
        crate::master_kv_router::routes::lemma_replica_index(route.replicas, info.req_node_id@);
        let replica = crate::master_kv_router::get::promoted_replica(manager, info);
        assert forall|i: int| 0 <= i < kept.replicas.len() implies carries(
            (#[trigger] kept.replicas[i]).allocation,
            later,
            route,
            memory,
        ) by {
            if kept.replicas[i] != replica {
                assert(kept.replicas[i] == route.replicas[i]);
            }
        }
    } else {
        assert(kept.replicas == route.replicas);
        lemma_fewer_replicas(route, memory, kept, later);
    }
}

/// A get that is revoked, forgotten or expires carries on every route.
pub proof fn law_dropped_get_keeps_the_value(
    memory: Map<u64, Seq<u8>>,
    later: Map<u64, Seq<u8>>,
    before: MasterKvRouter,
    after: MasterKvRouter,
    get_id: u64,
    dropped: Option<InflightGetInfo>,
    key: Seq<char>,
)
    requires
        before.kv_routes@.contains_key(key),
        untouched(before.kv_routes@[key], memory, later),
        crate::master_kv_router::get::get_dropped(before, after, get_id, dropped),
    ensures
        after.kv_routes@.contains_key(key),
        after.kv_routes@[key].put_id == before.kv_routes@[key].put_id,
        carried_on(before.kv_routes@[key], memory, after.kv_routes@[key], later),
{
    let route = before.kv_routes@[key];
    let kept = after.kv_routes@[key];
    assert(kept.replicas == route.replicas);
    lemma_fewer_replicas(route, memory, kept, later);
}

/// A route that is carried on, time after time, goes on holding its value.
proof fn lemma_carried_on_holds(
    history: Seq<(RouteModel, Map<u64, Seq<u8>>)>,
    value: Seq<u8>,
)
    requires
        history.len() > 0,
        holds(history[0].0, history[0].1, value),
        forall|i: int|
            0 <= i < history.len() - 1 ==> carried_on(
                (#[trigger] history[i]).0,
                history[i].1,
                history[i + 1].0,
                history[i + 1].1,
            ),
    ensures
        holds(history.last().0, history.last().1, value),
    decreases history.len(),
{
    if history.len() > 1 {
        let earlier = history.drop_last();
        assert forall|i: int| 0 <= i < earlier.len() - 1 implies carried_on(
            (#[trigger] earlier[i]).0,
            earlier[i].1,
            earlier[i + 1].0,
            earlier[i + 1].1,
        ) by {
            assert(history[i] == earlier[i]);
            assert(history[i + 1] == earlier[i + 1]);
        }
        assert(earlier[0] == history[0]);
        lemma_carried_on_holds(earlier, value);
        let n = history.len() - 2;
        assert(history[n] == earlier.last());
        let (route, memory) = history[n];
        let (after, later) = history.last();
        assert(carried_on(route, memory, after, later));
        assert forall|i: int| 0 <= i < after.replicas.len() implies has_value(
            #[trigger] after.replicas[i],
            later,
            value,
        ) by {
            let block = after.replicas[i].allocation;
            assert(carries(block, later, route, memory));
            let j = choose|j: int|
                0 <= j < route.replicas.len() && (#[trigger] route.replicas[j]).allocation.size
                    == block.size && block_bytes(memory, route.replicas[j].allocation)
                    == block_bytes(later, block);
            assert(has_value(route.replicas[j], memory, value));
        }
    }
}

/// What an external client put is what an external client of an owner gets, until the key is put
/// again or deleted, and the get leaves the stored value as it is.
///
/// The put was started with the blocks `src` and `target`, answered, written at `addr` and completed.
/// `history` is the key's route, with the memory, from then until the get is made: gets that are
/// started, completed and dropped carry it on. `written` and `read` are the mappings of the two
/// clients; `shared` is the segment that `read` maps.
pub proof fn law_external_get_reads_what_was_put(
    memory: Map<u64, Seq<u8>>,
    written: SharedMemoryPtr,
    call: OwnerCall,
    value: Seq<u8>,
    put_resp: PutStartResp,
    put_id: PutIDForAKey,
    node_id: Seq<char>,
    src: Allocation,
    target: Allocation,
    answer: ExternalPutStartOk,
    addr: u64,
    before: MasterKvRouter,
    put: MasterKvRouter,
    key: String,
    lease_id: Option<u64>,
    replica: KvRouteInfo,
    released: Seq<Allocation>,
    put_outcome: PutDoneOutcome,
    history: Seq<(RouteModel, Map<u64, Seq<u8>>)>,
    asked: MasterKvRouter,
    after: MasterKvRouter,
    marks: Seq<bool>,
    get_id: u64,
    owner: NodeID,
    chosen: Option<KvRouteInfo>,
    tombs: Vec<NodeID>,
    allocator: Option<OneSegAllocator>,
    step: GetStartStep,
    brought_to: Allocation,
    get_resp: GetStartResp,
    info: ExternalGetInfo,
    read: SharedMemoryPtr,
    shared: u64,
    holder: ExternalMemHolder,
    external_client_id: Seq<char>,
    started_time: i64,
)
    requires
        crate::master_kv_router::put::started(put_resp, put_id, node_id, src, target),
        src.size == value.len(),
        target.size == value.len(),
        stands_in(memory, src),
        stands_in(memory, target),
        relays_put_start(answer, put_resp),
        call.base_addr == written.ptr_rw,
        addr == call.base_addr + answer.write_offset(),
        crate::master_kv_router::put::committed(
            before,
            put,
            key@,
            put_id,
            lease_id,
            replica,
            released,
            put_outcome,
        ),
        replica.allocation == target || replica.allocation == target.reserved(),
        history.len() > 0,
        history[0].0 == put.kv_routes@[key@],
        history[0].1 == stored(memory, written, addr as int, src, target, value),
        forall|i: int|
            0 <= i < history.len() - 1 ==> carried_on(
                (#[trigger] history[i]).0,
                history[i].1,
                history[i + 1].0,
                history[i + 1].1,
            ),
        asked.kv_routes@.contains_key(key@),
        asked.kv_routes@[key@] == history.last().0,
        crate::master_kv_router::get::selection_ok(
            asked.kv_routes@[key@],
            marks,
            chosen,
            tombs@,
        ),
        crate::master_kv_router::get::get_begun(
            asked,
            after,
            get_id,
            key,
            owner,
            chosen,
            tombs,
            allocator,
            step,
        ),
        get_replied(step, brought_to, get_resp),
        step is TryAllocate ==> stands_in(history.last().1, brought_to) && forall|i: int|
            0 <= i < asked.kv_routes@[key@].replicas.len() ==> apart(
                (#[trigger] asked.kv_routes@[key@].replicas[i]).allocation,
                brought_to,
            ),
        relays_get(info, get_resp),
        get_blocks(asked.kv_routes@[key@], owner@, chosen->0, brought_to).1.allocator == shared,
        crate::external_client_api::put::held(
            Some(holder),
            Some(info),
            read.ptr_ro,
            key@,
            external_client_id,
            started_time,
        ),
    ensures
        chosen is Some,
        ({
            let (from, to) = get_blocks(asked.kv_routes@[key@], owner@, chosen->0, brought_to);
            let brought = transferred(history.last().1, from, to);
            &&& super::shared_bytes::bytes_held(brought[shared], read, holder) == value
            &&& holds(asked.kv_routes@[key@], brought, value)
        }),
{
    law_put_stores_the_value(
        memory,
        written,
        call,
        value,
        put_resp,
        put_id,
        node_id,
        src,
        target,
        answer,
        addr,
        before,
        put,
        key@,
        lease_id,
        replica,
        released,
        put_outcome,
    );
    lemma_carried_on_holds(history, value);
    law_get_brings_the_stored_value(
        history.last().1,
        value,
        asked,
        after,
        marks,
        get_id,
        key,
        owner,
        chosen,
        tombs,
        allocator,
        step,
        brought_to,
        get_resp,
        info,
        read,
        shared,
        holder,
        external_client_id,
        started_time,
    );
}

} // verus!
