//! Storing values: the put protocol.
//!
//! A put is started, transferred by the clients, and then completed or revoked. Where the start
//! needs memory it names the segment to allocate from and goes on when it is told what came of it.

use super::cache_capacity::{CacheResize, CapacityStep};
use super::msg_pack::{PutDoneReq, PutDoneResp, PutRevokeReq, PutRevokeResp, PutStartReq, PutStartResp};
use super::placement::{
    PlacementDefault, PlacementPolicy, PlacementSearch, PlacementStep, PutPlacementTarget,
};
use super::placement_metrics::PutPlacementMode;
use super::routes::{KvRouteInfo, OneKvNodesRoutes, RouteModel};
use super::{CacheUpdate, MasterKvRouter, NodeValueReplicaDesc};
use crate::choice::random_item;
use crate::cluster_manager::{ClusterMember, NodeID, META_KEY_LOCAL_IPC_ROOT};
use crate::error::{ApiError, ApiErrorOf, KvError, KvErrorOf, KvResult};
use crate::master_lease_manager::master_lease_manager::MasterLeaseManager;
use crate::master_seg_manager::one_seg_allocator::{Allocation, AllocationOutcome, OneSegAllocator};
use crate::master_seg_manager::{MasterSegManager, NodeTombTag};
use crate::p2p::OK;
use crate::text;
use vstd::prelude::*;

verus! {

/// `(time in milliseconds, version)` of a put; it tells the versions of a key apart.
pub type PutIDForAKey = (u64, u32);

/// Metadata key of the node whose memory a side-transfer worker shares.
pub const META_KEY_SHARED_STORAGE_NODE_ID: &'static str = "shared_storage_node_id";

/// Metadata key of that node's start time.
pub const META_KEY_SHARED_STORAGE_NODE_START_TIME: &'static str = "shared_storage_node_start_time";

/// How often the source segment is tried.
pub const SOURCE_ATTEMPTS: u8 = 3;

/// The memory of a put in progress.
#[derive(Clone, Copy)]
pub enum InflightPutAllocation {
    /// Local fast path: the same allocation is used as both src (staging) and target (final).
    Local(Allocation),
    /// Remote path: separate allocations for src (on requester) and target (on selected node).
    Remote { src: Allocation, target: Allocation },
}

/// Information about a `put` operation that is currently in progress.
pub struct InflightPutInfo {
    pub node_id: NodeID,
    pub key: String,
    pub put_id: PutIDForAKey,
    pub req_node_id: NodeID,
    pub len: u64,
    pub src_target_allocation: Option<InflightPutAllocation>,
}

impl InflightPutInfo {
    /// The blocks that the put holds.
    pub open spec fn blocks(self) -> Seq<Allocation> {
        match self.src_target_allocation {
            Some(InflightPutAllocation::Local(block)) => seq![block],
            Some(InflightPutAllocation::Remote { src, target }) => seq![src, target],
            None => Seq::empty(),
        }
    }

    /// The blocks that the put holds are sound.
    pub open spec fn sound(self) -> bool {
        match self.src_target_allocation {
            Some(InflightPutAllocation::Local(block)) => block.sound(),
            Some(InflightPutAllocation::Remote { src, target }) => src.sound() && target.sound(),
            None => true,
        }
    }
}

/// The position of a put among those in progress.
pub open spec fn put_index(
    puts: Seq<InflightPutInfo>,
    key: Seq<char>,
    put_id: PutIDForAKey,
) -> Option<int>
    decreases puts.len(),
{
    if puts.len() == 0 {
        None
    } else {
        match put_index(puts.drop_last(), key, put_id) {
            Some(i) => Some(i),
            None => if puts.last().key@ == key && puts.last().put_id == put_id {
                Some(puts.len() - 1)
            } else {
                None
            },
        }
    }
}

/// The puts in progress, with one more; a put of the same key and id is replaced.
pub open spec fn with_put(puts: Seq<InflightPutInfo>, info: InflightPutInfo) -> Seq<
    InflightPutInfo,
> {
    match put_index(puts, info.key@, info.put_id) {
        Some(i) => puts.update(i, info),
        None => puts.push(info),
    }
}

/// The puts in progress without one.
pub open spec fn without_put(
    puts: Seq<InflightPutInfo>,
    key: Seq<char>,
    put_id: PutIDForAKey,
) -> Seq<InflightPutInfo> {
    match put_index(puts, key, put_id) {
        Some(i) => puts.remove(i),
        None => puts,
    }
}

/// How many puts of a key are in progress.
pub open spec fn puts_of(puts: Seq<InflightPutInfo>, key: Seq<char>) -> nat
    decreases puts.len(),
{
    if puts.len() == 0 {
        0
    } else {
        puts_of(puts.drop_last(), key) + if puts.last().key@ == key {
            1nat
        } else {
            0
        }
    }
}

/// Every put in progress is counted for its key.
pub open spec fn puts_counted(puts: Seq<InflightPutInfo>, counts: Map<Seq<char>, u32>) -> bool {
    forall|key: Seq<char>|
        #[trigger] puts_of(puts, key) <= super::inflight_keys::count_of(counts, key)
}

/// A key has one put less once one of its puts is taken out.
proof fn lemma_puts_of_remove(puts: Seq<InflightPutInfo>, at: int, key: Seq<char>)
    requires
        0 <= at < puts.len(),
    ensures
        puts_of(puts, key) == puts_of(puts.remove(at), key) + if puts[at].key@ == key {
            1nat
        } else {
            0
        },
    decreases puts.len(),
{
    let after = puts.remove(at);
    if at == puts.len() - 1 {
        assert(after =~= puts.drop_last());
    } else {
        assert(after.drop_last() =~= puts.drop_last().remove(at));
        assert(after.last() == puts.last());
        lemma_puts_of_remove(puts.drop_last(), at, key);
    }
}

/// How many puts a key has does not change when one takes the place of another of its key.
proof fn lemma_puts_of_update(
    puts: Seq<InflightPutInfo>,
    at: int,
    info: InflightPutInfo,
    key: Seq<char>,
)
    requires
        0 <= at < puts.len(),
        puts[at].key@ == info.key@,
    ensures
        puts_of(puts.update(at, info), key) == puts_of(puts, key),
    decreases puts.len(),
{
    let after = puts.update(at, info);
    if at == puts.len() - 1 {
        assert(after.drop_last() =~= puts.drop_last());
    } else {
        assert(after.drop_last() =~= puts.drop_last().update(at, info));
        lemma_puts_of_update(puts.drop_last(), at, info, key);
    }
}

/// Taking a put out leaves its key with one put less, and the other keys with as many as before.
proof fn lemma_puts_of_without(puts: Seq<InflightPutInfo>, key: Seq<char>, put_id: PutIDForAKey)
    ensures
        forall|other: Seq<char>|
            #[trigger] puts_of(without_put(puts, key, put_id), other) == puts_of(puts, other)
                - if other == key && put_index(puts, key, put_id) is Some {
                1int
            } else {
                0
            },
{
    lemma_put_index(puts, key, put_id);
    if let Some(at) = put_index(puts, key, put_id) {
        assert forall|other: Seq<char>|
            #[trigger] puts_of(without_put(puts, key, put_id), other) == puts_of(puts, other)
                - if other == key {
                1int
            } else {
                0
            } by {
            lemma_puts_of_remove(puts, at, other);
        }
    }
}

/// Noting a put gives its key one put more, unless it takes the place of one.
proof fn lemma_puts_of_with(puts: Seq<InflightPutInfo>, info: InflightPutInfo)
    ensures
        forall|other: Seq<char>|
            #[trigger] puts_of(with_put(puts, info), other) == puts_of(puts, other)
                + if other == info.key@ && put_index(puts, info.key@, info.put_id) is None {
                1int
            } else {
                0
            },
{
    lemma_put_index(puts, info.key@, info.put_id);
    match put_index(puts, info.key@, info.put_id) {
        Some(at) => {
            assert forall|other: Seq<char>|
                #[trigger] puts_of(with_put(puts, info), other) == puts_of(puts, other) by {
                lemma_puts_of_update(puts, at, info, other);
            }
        },
        None => {
            assert(puts.push(info).drop_last() =~= puts);
        },
    }
}

/// A key that has puts has one in progress.
proof fn lemma_some_put_of(puts: Seq<InflightPutInfo>, key: Seq<char>)
    requires
        puts_of(puts, key) > 0,
    ensures
        exists|i: int| 0 <= i < puts.len() && (#[trigger] puts[i]).key@ == key,
    decreases puts.len(),
{
    if puts.last().key@ == key {
        assert(puts[puts.len() - 1].key@ == key);
    } else {
        let before = puts.drop_last();
        lemma_some_put_of(before, key);
        let i = choose|i: int| 0 <= i < before.len() && (#[trigger] before[i]).key@ == key;
        assert(puts[i].key@ == key);
    }
}

/// No two puts in progress share key and id.
pub open spec fn puts_distinct(puts: Seq<InflightPutInfo>) -> bool {
    forall|i: int, j: int|
        0 <= i < j < puts.len() ==> (#[trigger] puts[i]).key@ != (#[trigger] puts[j]).key@
            || puts[i].put_id != puts[j].put_id
}

/// Where [`put_index`] finds a put.
pub proof fn lemma_put_index(puts: Seq<InflightPutInfo>, key: Seq<char>, put_id: PutIDForAKey)
    ensures
        match put_index(puts, key, put_id) {
            Some(i) => 0 <= i < puts.len() && puts[i].key@ == key && puts[i].put_id == put_id,
            None => forall|i: int|
                0 <= i < puts.len() ==> (#[trigger] puts[i]).key@ != key || puts[i].put_id
                    != put_id,
        },
    decreases puts.len(),
{
    if puts.len() > 0 {
        let before = puts.drop_last();
        lemma_put_index(before, key, put_id);
        if put_index(puts, key, put_id) is None {
            assert forall|i: int| 0 <= i < puts.len() implies (#[trigger] puts[i]).key@ != key
                || puts[i].put_id != put_id by {
                if i < before.len() {
                    assert(before[i] == puts[i]);
                }
            }
        }
    }
}

/// Puts in progress stay distinct, and a put that was taken out is not in progress any more.
pub proof fn lemma_without_put(puts: Seq<InflightPutInfo>, key: Seq<char>, put_id: PutIDForAKey)
    requires
        puts_distinct(puts),
    ensures
        puts_distinct(without_put(puts, key, put_id)),
        put_index(without_put(puts, key, put_id), key, put_id) is None,
{
    lemma_put_index(puts, key, put_id);
    let after = without_put(puts, key, put_id);
    lemma_put_index(after, key, put_id);
    if let Some(at) = put_index(puts, key, put_id) {
        assert forall|i: int| 0 <= i < after.len() implies #[trigger] after[i] == puts[if i < at {
            i
        } else {
            i + 1
        }] by {}
        if let Some(i) = put_index(after, key, put_id) {
            assert(after[i] == puts[if i < at {
                i
            } else {
                i + 1
            }]);
        }
    }
}

/// Puts in progress stay distinct when one is noted.
proof fn lemma_with_put(puts: Seq<InflightPutInfo>, info: InflightPutInfo)
    requires
        puts_distinct(puts),
    ensures
        puts_distinct(with_put(puts, info)),
{
    lemma_put_index(puts, info.key@, info.put_id);
}

fn find_put(puts: &Vec<InflightPutInfo>, key: &str, put_id: PutIDForAKey) -> (found: Option<usize>)
    ensures
        match found {
            Some(i) => put_index(puts@, key@, put_id) == Some(i as int) && i < puts@.len(),
            None => put_index(puts@, key@, put_id) is None,
        },
{
    let mut found: Option<usize> = None;
    let mut i: usize = 0;
    assert(puts@.take(0) =~= Seq::<InflightPutInfo>::empty());
    while i < puts.len()
        invariant
            i <= puts@.len(),
            match found {
                Some(at) => at < i && put_index(puts@.take(i as int), key@, put_id) == Some(
                    at as int,
                ),
                None => put_index(puts@.take(i as int), key@, put_id) is None,
            },
        decreases puts@.len() - i,
    {
        assert(puts@.take(i + 1).drop_last() =~= puts@.take(i as int));
        if found.is_none() && puts[i].put_id.0 == put_id.0 && puts[i].put_id.1 == put_id.1
            && text::same_text(puts[i].key.as_str(), key) {
            found = Some(i);
        }
        i = i + 1;
    }
    assert(puts@.take(i as int) =~= puts@);
    found
}

/// Why a put may not take its source block from another node than the requester; none if it may.
///
/// Only a side-transfer worker may, from the owner that it is attached to: the same owner
/// incarnation, with the same local IPC directory.
pub open spec fn source_override_refusal(
    requester_node_id: Seq<char>,
    source_node_id: Seq<char>,
    requester: Option<&ClusterMember>,
    source: Option<&ClusterMember>,
) -> Option<Seq<char>> {
    let nodes = "requester="@ + requester_node_id + " source="@ + source_node_id;
    if requester_node_id == source_node_id {
        None
    } else if requester is None {
        Some("put_start source override requester not found in cluster cache: "@ + nodes)
    } else if source is None {
        Some("put_start source override source node not found in cluster cache: "@ + nodes)
    } else {
        let asking = requester->0.metadata;
        let owner = asking.value(META_KEY_SHARED_STORAGE_NODE_ID@);
        let owner_start = match asking.value(META_KEY_SHARED_STORAGE_NODE_START_TIME@) {
            Some(value) => text::parsed_i64(value),
            None => None,
        };
        let asking_root = asking.value(META_KEY_LOCAL_IPC_ROOT@);
        let source_root = source->0.metadata.value(META_KEY_LOCAL_IPC_ROOT@);
        if !asking.flag("side_transfer_worker"@) {
            Some(
                "put_start source override is only allowed for side-transfer workers: "@ + nodes,
            )
        } else if owner != Some(source_node_id) {
            Some(
                "put_start source override owner mismatch: "@ + nodes + " requester_owner="@
                    + text::debug_option_text(owner),
            )
        } else if owner_start != Some(source->0.node_start_time as int) {
            Some(
                "put_start source override owner generation mismatch: "@ + nodes
                    + " requester_owner_start="@ + text::debug_option_int(owner_start)
                    + " source_start="@ + text::signed_decimal(source->0.node_start_time as int),
            )
        } else if asking_root is None || asking_root != source_root {
            Some(
                "put_start source override local_ipc_root mismatch: "@ + nodes
                    + " requester_ipc_root="@ + text::debug_option_text(asking_root)
                    + " source_ipc_root="@ + text::debug_option_text(source_root),
            )
        } else {
            None
        }
    }
}

fn unknown_error(detail: String) -> (error: KvError)
    ensures
        error@ == KvErrorOf::Api(ApiErrorOf::Unknown { detail: detail@ }),
{
    KvError::Api(ApiError::Unknown { detail })
}

/// `intro`, then which nodes a put is between.
fn between_nodes(intro: &str, requester_node_id: &str, source_node_id: &str) -> (message: String)
    ensures
        message@ == intro@ + ("requester="@ + requester_node_id@ + " source="@ + source_node_id@),
{
    let mut message = intro.to_owned();
    message.append("requester=");
    message.append(requester_node_id);
    message.append(" source=");
    message.append(source_node_id);
    assert(message@ =~= intro@ + ("requester="@ + requester_node_id@ + " source="@
        + source_node_id@));
    message
}

/// Whether a put may take its source block from another node than the requester.
pub fn validate_put_start_source_node_override(
    requester_node_id: &str,
    source_node_id: &str,
    requester: Option<&ClusterMember>,
    source: Option<&ClusterMember>,
) -> (result: KvResult<()>)
    ensures
        match source_override_refusal(requester_node_id@, source_node_id@, requester, source) {
            None => result is Ok,
            Some(detail) => result matches Err(e) && e@ == KvErrorOf::Api(
                ApiErrorOf::Unknown { detail },
            ),
        },
{
    if text::same_text(requester_node_id, source_node_id) {
        return Ok(());
    }
    let requester = match requester {
        Some(member) => member,
        None => {
            let detail = between_nodes(
                "put_start source override requester not found in cluster cache: ",
                requester_node_id,
                source_node_id,
            );
            return Err(unknown_error(detail));
        },
    };
    let source = match source {
        Some(member) => member,
        None => {
            let detail = between_nodes(
                "put_start source override source node not found in cluster cache: ",
                requester_node_id,
                source_node_id,
            );
            return Err(unknown_error(detail));
        },
    };
    if !requester.metadata.is_true("side_transfer_worker") {
        let detail = between_nodes(
            "put_start source override is only allowed for side-transfer workers: ",
            requester_node_id,
            source_node_id,
        );
        return Err(unknown_error(detail));
    }
    let owner = requester.metadata.get(META_KEY_SHARED_STORAGE_NODE_ID);
    if !text::option_is(owner, source_node_id) {
        let mut detail = between_nodes(
            "put_start source override owner mismatch: ",
            requester_node_id,
            source_node_id,
        );
        detail.append(" requester_owner=");
        detail.append(text::debug_option_string(owner).as_str());
        return Err(unknown_error(detail));
    }
    let owner_start: Option<i64> = match requester.metadata.get(
        META_KEY_SHARED_STORAGE_NODE_START_TIME,
    ) {
        Some(value) => text::parse_i64(value.as_str()),
        None => None,
    };
    let same_start = match owner_start {
        Some(start) => start == source.node_start_time,
        None => false,
    };
    if !same_start {
        let mut detail = between_nodes(
            "put_start source override owner generation mismatch: ",
            requester_node_id,
            source_node_id,
        );
        detail.append(" requester_owner_start=");
        detail.append(text::debug_option_i64(owner_start).as_str());
        detail.append(" source_start=");
        text::append_i64(&mut detail, source.node_start_time);
        return Err(unknown_error(detail));
    }
    let requester_ipc_root = requester.metadata.get(META_KEY_LOCAL_IPC_ROOT);
    let source_ipc_root = source.metadata.get(META_KEY_LOCAL_IPC_ROOT);
    let same_root = match requester_ipc_root {
        Some(root) => text::option_is(source_ipc_root, root.as_str()),
        None => false,
    };
    if !same_root {
        let mut detail = between_nodes(
            "put_start source override local_ipc_root mismatch: ",
            requester_node_id,
            source_node_id,
        );
        detail.append(" requester_ipc_root=");
        detail.append(text::debug_option_string(requester_ipc_root).as_str());
        detail.append(" source_ipc_root=");
        detail.append(text::debug_option_string(source_ipc_root).as_str());
        return Err(unknown_error(detail));
    }
    Ok(())
}

/// Where a put that is being started stands.
pub enum PutStage {
    /// The source block is being allocated.
    Source { allocator: OneSegAllocator, attempts_left: u8 },
    /// The source block is there, and a target block is being allocated.
    Target {
        src: Allocation,
        search: PlacementSearch,
        node_id: NodeID,
        allocator: OneSegAllocator,
    },
}

/// A put that is being started. It counts as in flight for its key.
pub struct StartingPut {
    pub key: String,
    pub req_node_id: NodeID,
    pub source_node_id: NodeID,
    pub put_id: PutIDForAKey,
    pub len: u64,
    pub preferred_sub_cluster: Option<String>,
}

/// A put that waits for memory.
pub struct PendingPut {
    pub put: StartingPut,
    pub stage: PutStage,
}

impl PendingPut {
    /// The segment that `len` bytes are to be allocated from.
    pub open spec fn segment(self) -> OneSegAllocator {
        match self.stage {
            PutStage::Source { allocator, .. } => allocator,
            PutStage::Target { allocator, .. } => allocator,
        }
    }

    /// The source block is sound, the placement is for this put, and a second block is looked for on
    /// another node than the source.
    pub open spec fn wf(self) -> bool {
        match self.stage {
            PutStage::Source { .. } => true,
            PutStage::Target { src, search, node_id, .. } => {
                &&& src.sound()
                &&& !search.local_first
                &&& node_id@ != self.put.source_node_id@
                &&& search.wf()
                &&& search.len == self.put.len
                &&& search.req_node_id@ == self.put.source_node_id@
            },
        }
    }

    /// The block that was granted is sound.
    pub open spec fn accepts(self, outcome: AllocationOutcome) -> bool {
        outcome.region matches Some(region) ==> self.segment().allocation(
            self.put.len,
            region,
        ).sound()
    }
}

/// What starting a put comes to.
pub enum PutStartStep {
    /// Memory is to be allocated for the put.
    TryAllocate(PendingPut),
    /// The start is over. `put_id` is `(0, 0)` if it failed. The released blocks are not held any
    /// more.
    Done { put_id: PutIDForAKey, reply: KvResult<PutStartResp>, released: Vec<Allocation> },
}

/// The response to a put that was started.
pub open spec fn started(
    resp: PutStartResp,
    put_id: PutIDForAKey,
    node_id: Seq<char>,
    src: Allocation,
    target: Allocation,
) -> bool {
    &&& resp.put_id == put_id
    &&& resp.node_id@ == node_id
    &&& resp.src_addr == src.base + src.addr
    &&& resp.target_addr == target.base + target.addr
    &&& resp.src_base_addr == src.base
    &&& resp.target_base_addr == target.base
    &&& resp.len == target.size
    &&& resp.error_code == OK
    &&& resp.error_json@ == Seq::<char>::empty()
    &&& resp.server_process_us == 0
}

/// The start failed with an error.
pub open spec fn failed_with(step: PutStartStep, error: KvErrorOf<Seq<char>>, released: Seq<
    Allocation,
>) -> bool {
    step matches PutStartStep::Done { put_id, reply, released: blocks } && put_id == (0u64, 0u32)
        && (reply matches Err(e) && e@ == error) && blocks@ == released
}

/// The put in progress that a decided placement makes.
pub open spec fn placed_put(
    put: StartingPut,
    src: Allocation,
    target: PutPlacementTarget,
) -> InflightPutInfo {
    match target {
        PutPlacementTarget::Local { node_id } => InflightPutInfo {
            node_id,
            key: put.key,
            put_id: put.put_id,
            req_node_id: put.req_node_id,
            len: src.size,
            src_target_allocation: Some(InflightPutAllocation::Local(src)),
        },
        PutPlacementTarget::Remote { node_id, allocation, .. } => InflightPutInfo {
            node_id,
            key: put.key,
            put_id: put.put_id,
            req_node_id: put.req_node_id,
            len: allocation.size,
            src_target_allocation: Some(
                InflightPutAllocation::Remote { src, target: allocation },
            ),
        },
    }
}

/// The blocks of the put that a new one replaces.
pub open spec fn replaced_blocks(
    puts: Seq<InflightPutInfo>,
    key: Seq<char>,
    put_id: PutIDForAKey,
) -> Seq<Allocation> {
    match put_index(puts, key, put_id) {
        Some(i) => puts[i].blocks(),
        None => Seq::empty(),
    }
}

/// The counts of puts in flight once a put that was counted is noted: the put that it replaces is
/// counted no more.
pub open spec fn counts_once_noted(
    puts: Seq<InflightPutInfo>,
    counts: Map<Seq<char>, u32>,
    key: Seq<char>,
    put_id: PutIDForAKey,
) -> Map<Seq<char>, u32> {
    match put_index(puts, key, put_id) {
        Some(_) => super::inflight_keys::with_one_less(counts, key),
        None => counts,
    }
}

/// What a step of the placement does to the router and comes to, for a put with the source block
/// `src`.
pub open spec fn concluded(
    before: MasterKvRouter,
    after: MasterKvRouter,
    put: StartingPut,
    src: Allocation,
    search: PlacementSearch,
    placement: PlacementStep,
    step: PutStartStep,
) -> bool {
    match placement {
        PlacementStep::Placed(target) => {
            let info = placed_put(put, src, target);
            let (mode, block) = match target {
                PutPlacementTarget::Local { .. } => (PutPlacementMode::Local, src),
                PutPlacementTarget::Remote { allocation, .. } => (
                    PutPlacementMode::Remote,
                    allocation,
                ),
            };
            &&& after.inflight_puts@ == with_put(before.inflight_puts@, info)
            &&& after.placement_counters@ == before.placement_counters@.recorded(
                put.req_node_id@,
                info.node_id@,
                mode,
            )
            &&& after.inflight_put_keys@ == counts_once_noted(
                before.inflight_puts@,
                before.inflight_put_keys@,
                put.key@,
                put.put_id,
            )
            &&& after == (MasterKvRouter {
                inflight_puts: after.inflight_puts,
                inflight_put_keys: after.inflight_put_keys,
                placement_counters: after.placement_counters,
                ..before
            })
            &&& step matches PutStartStep::Done { put_id, reply, released } && put_id
                == put.put_id && (reply matches Ok(resp) && started(
                resp,
                put_id,
                info.node_id@,
                src,
                block,
            )) && released@ == replaced_blocks(
                before.inflight_puts@,
                put.key@,
                put.put_id,
            )
        },
        PlacementStep::TryAllocate { node_id, allocator } => {
            &&& after == before
            &&& step == PutStartStep::TryAllocate(
                PendingPut { put, stage: PutStage::Target { src, search, node_id, allocator } },
            )
        },
        PlacementStep::Failed(error) => {
            &&& after.inflight_put_keys@ == super::inflight_keys::with_one_less(
                before.inflight_put_keys@,
                put.key@,
            )
            &&& after == (MasterKvRouter { inflight_put_keys: after.inflight_put_keys, ..before })
            &&& failed_with(step, error@, seq![src])
        },
    }
}

/// The error for a source segment that refused every try.
pub open spec fn source_no_space(
    source_node_id: Seq<char>,
    allocator: OneSegAllocator,
    used: u64,
) -> KvErrorOf<Seq<char>> {
    KvErrorOf::Api(
        ApiErrorOf::NoSpace {
            node: source_node_id,
            segment: allocator.seg_device_id@,
            total_capacity: allocator.total_size,
            free_capacity: if used <= allocator.total_size {
                (allocator.total_size - used) as u64
            } else {
                0
            },
        },
    )
}

/// The error for a source node without segments.
pub open spec fn source_without_segments(
    requester_node_id: Seq<char>,
    source_node_id: Seq<char>,
) -> KvErrorOf<Seq<char>> {
    KvErrorOf::Api(
        ApiErrorOf::RegisterSegmentFailed {
            detail: "put_start source node has no registered segments: "@ + ("requester="@
                + requester_node_id + " source="@ + source_node_id),
        },
    )
}

/// The node that a put takes its source block from.
pub open spec fn source_of(req: PutStartReq, req_node_id: NodeID) -> NodeID {
    match req.source_node_id {
        Some(source_node_id) => source_node_id,
        None => req_node_id,
    }
}

/// What starting a put does to the router, and what it comes to. `requester` and `source` are the
/// members with the ids of the requester and of the source node, as far as they are known.
pub open spec fn put_begun(
    before: MasterKvRouter,
    after: MasterKvRouter,
    manager: MasterSegManager,
    req: PutStartReq,
    req_node_id: NodeID,
    requester: Option<&ClusterMember>,
    source: Option<&ClusterMember>,
    put_time_ms: u64,
    step: PutStartStep,
) -> bool {
    let counts = before.inflight_put_keys@;
    let source_node = source_of(req, req_node_id);
    let refusal = source_override_refusal(
        req_node_id@,
        source_node@,
        requester,
        source,
    );
    let segments = manager.usable_allocators(source_node@);
    &&& after == (MasterKvRouter {
        inflight_put_keys: after.inflight_put_keys,
        recent_versions: after.recent_versions,
        ..before
    })
    &&& if req.reject_if_inflight_same_key && super::inflight_keys::count_of(
        counts,
        req.key@,
    ) > 0 {
        &&& after.inflight_put_keys@ == counts
        &&& after.recent_versions@ == before.recent_versions@
        &&& failed_with(
            step,
            super::inflight_keys::key_being_written(req.key@),
            Seq::empty(),
        )
    } else if refusal is Some {
        &&& after.inflight_put_keys@ == counts
        &&& after.recent_versions@ == before.recent_versions@
        &&& failed_with(
            step,
            KvErrorOf::Api(ApiErrorOf::Unknown { detail: refusal->0 }),
            Seq::empty(),
        )
    } else if segments.len() == 0 {
        &&& after.inflight_put_keys@ == counts
        &&& exists|version: u32| #[trigger]
            super::version_ids::version_given(
                before.recent_versions@,
                after.recent_versions@,
                req.key@,
                version,
            )
        &&& failed_with(
            step,
            source_without_segments(req_node_id@, source_node@),
            Seq::empty(),
        )
    } else {
        &&& after.inflight_put_keys@ == super::inflight_keys::with_one_more(
            counts,
            req.key@,
        )
        &&& step matches PutStartStep::TryAllocate(pending) && pending.wf()
            && super::version_ids::version_given(
            before.recent_versions@,
            after.recent_versions@,
            req.key@,
            pending.put.put_id.1,
        ) && segments.contains(pending.segment()) && pending == (PendingPut {
            put: StartingPut {
                key: req.key,
                req_node_id,
                source_node_id: source_node,
                put_id: (put_time_ms, pending.put.put_id.1),
                len: req.len,
                preferred_sub_cluster: req.preferred_sub_cluster,
            },
            stage: PutStage::Source {
                allocator: pending.segment(),
                attempts_left: SOURCE_ATTEMPTS,
            },
        })
    }
}

fn failed_start(error: KvError, released: Vec<Allocation>) -> (step: PutStartStep)
    ensures
        failed_with(step, error@, released@),
{
    PutStartStep::Done { put_id: (0, 0), reply: Err(error), released }
}

fn start_response(
    put_id: PutIDForAKey,
    node_id: NodeID,
    src: &Allocation,
    target: &Allocation,
) -> (resp: PutStartResp)
    requires
        src.addressable(),
        target.addressable(),
    ensures
        started(resp, put_id, node_id@, *src, *target),
{
    PutStartResp {
        put_id,
        node_id,
        target_addr: target.absolute(),
        src_addr: src.absolute(),
        target_base_addr: target.base_addr(),
        src_base_addr: src.base_addr(),
        len: target.size(),
        error_code: OK,
        error_json: String::new(),
        server_process_us: 0,
    }
}

impl MasterKvRouter {
    /// How many puts of the key have been started and are neither in progress yet nor given up.
    pub open spec fn starts_pending(self, key: Seq<char>) -> int {
        super::inflight_keys::count_of(self.inflight_put_keys@, key) - puts_of(
            self.inflight_puts@,
            key,
        )
    }

    /// Counts a put of the key as in flight.
    pub fn reserve_inflight_put_key(
        &mut self,
        key: &str,
        reject_if_inflight_same_key: bool,
    ) -> (result: KvResult<()>)
        requires
            old(self).wf(),
            super::inflight_keys::count_of(old(self).inflight_put_keys@, key@) < u32::MAX,
        ensures
            final(self).wf(),
            *final(self) == (MasterKvRouter {
                inflight_put_keys: final(self).inflight_put_keys,
                ..*old(self)
            }),
            if reject_if_inflight_same_key && super::inflight_keys::count_of(
                old(self).inflight_put_keys@,
                key@,
            ) > 0 {
                &&& result matches Err(e) && e@ == super::inflight_keys::key_being_written(key@)
                &&& final(self).inflight_put_keys@ == old(self).inflight_put_keys@
            } else {
                &&& result is Ok
                &&& final(self).inflight_put_keys@ == super::inflight_keys::with_one_more(
                    old(self).inflight_put_keys@,
                    key@,
                )
            },
    {
        self.inflight_put_keys.reserve_inflight_put_key(key, reject_if_inflight_same_key)
    }

    /// Counts a put of the key as in flight no more.
    pub fn release_inflight_put_key(&mut self, key: &str)
        requires
            old(self).wf(),
        ensures
            old(self).starts_pending(key@) > 0 ==> final(self).wf(),
            *final(self) == (MasterKvRouter {
                inflight_put_keys: final(self).inflight_put_keys,
                ..*old(self)
            }),
            final(self).inflight_put_keys@ == super::inflight_keys::with_one_less(
                old(self).inflight_put_keys@,
                key@,
            ),
    {
        self.inflight_put_keys.release_inflight_put_key(key);
        proof {
            assert forall|other: Seq<char>| old(self).starts_pending(key@) > 0 implies #[trigger]
                puts_of(self.inflight_puts@, other) <= super::inflight_keys::count_of(
                self.inflight_put_keys@,
                other,
            ) by {
                assert(puts_of(old(self).inflight_puts@, other) <= super::inflight_keys::count_of(
                    old(self).inflight_put_keys@,
                    other,
                ));
            }
        }
    }

    /// Starts a put whose key is counted as in flight, with the segment `chosen` among those of the
    /// source node.
    pub fn put_start_from(
        &mut self,
        req: &PutStartReq,
        req_node_id: NodeID,
        source_node_id: NodeID,
        put_id: PutIDForAKey,
        chosen: Option<OneSegAllocator>,
    ) -> (step: PutStartStep)
        requires
            old(self).wf(),
            old(self).starts_pending(req.key@) > 0,
        ensures
            final(self).wf(),
            match chosen {
                Some(allocator) => {
                    &&& *final(self) == *old(self)
                    &&& step matches PutStartStep::TryAllocate(pending) && pending == (PendingPut {
                        put: StartingPut {
                            key: req.key,
                            req_node_id,
                            source_node_id,
                            put_id,
                            len: req.len,
                            preferred_sub_cluster: req.preferred_sub_cluster,
                        },
                        stage: PutStage::Source { allocator, attempts_left: SOURCE_ATTEMPTS },
                    })
                },
                None => {
                    &&& *final(self) == (MasterKvRouter {
                        inflight_put_keys: final(self).inflight_put_keys,
                        ..*old(self)
                    })
                    &&& final(self).inflight_put_keys@ == super::inflight_keys::with_one_less(
                        old(self).inflight_put_keys@,
                        req.key@,
                    )
                    &&& failed_with(
                        step,
                        source_without_segments(req_node_id@, source_node_id@),
                        Seq::empty(),
                    )
                },
            },
    {
        match chosen {
            Some(allocator) => PutStartStep::TryAllocate(
                PendingPut {
                    put: StartingPut {
                        key: req.key.clone(),
                        req_node_id,
                        source_node_id,
                        put_id,
                        len: req.len,
                        preferred_sub_cluster: text::clone_option(&req.preferred_sub_cluster),
                    },
                    stage: PutStage::Source { allocator, attempts_left: SOURCE_ATTEMPTS },
                },
            ),
            None => {
                self.release_inflight_put_key(req.key.as_str());
                let detail = between_nodes(
                    "put_start source node has no registered segments: ",
                    req_node_id.as_str(),
                    source_node_id.as_str(),
                );
                failed_start(
                    KvError::Api(ApiError::RegisterSegmentFailed { detail }),
                    Vec::new(),
                )
            },
        }
    }

    /// Starts a put at the time `put_time_ms`. `requester` and `source` are the members with the ids
    /// of the requester and of the source node, as far as they are known.
    pub fn handle_put_start(
        &mut self,
        manager: &MasterSegManager,
        req: &PutStartReq,
        req_node_id: NodeID,
        requester: Option<&ClusterMember>,
        source: Option<&ClusterMember>,
        put_time_ms: u64,
    ) -> (step: PutStartStep)
        requires
            old(self).wf(),
            super::inflight_keys::count_of(old(self).inflight_put_keys@, req.key@) < u32::MAX,
        ensures
            final(self).wf(),
            put_begun(
                *old(self),
                *final(self),
                *manager,
                *req,
                req_node_id,
                requester,
                source,
                put_time_ms,
                step,
            ),
            step matches PutStartStep::TryAllocate(pending) ==> pending.put.source_node_id@ == (
            match req.source_node_id {
                Some(named) => named@,
                None => req_node_id@,
            }) && manager.usable_allocators(pending.put.source_node_id@).contains(pending.segment())
                && pending.put.len == req.len && pending.put.key@ == req.key@,
            forall|key: Seq<char>| #[trigger]
                final(self).starts_pending(key) == old(self).starts_pending(key) + if step
                    is TryAllocate && key == req.key@ {
                    1int
                } else {
                    0
                },
    {
        proof {
            super::inflight_keys::law_release_undoes_reserve(self.inflight_put_keys@, req.key@);
        }
        if let Err(error) = self.reserve_inflight_put_key(
            req.key.as_str(),
            req.reject_if_inflight_same_key,
        ) {
            return failed_start(error, Vec::new());
        }
        let source_node_id = match &req.source_node_id {
            Some(source_node_id) => {
                if let Err(error) = validate_put_start_source_node_override(
                    req_node_id.as_str(),
                    source_node_id.as_str(),
                    requester,
                    source,
                ) {
                    self.release_inflight_put_key(req.key.as_str());
                    return failed_start(error, Vec::new());
                }
                source_node_id.clone()
            },
            None => req_node_id.clone(),
        };
        let put_id: PutIDForAKey = self.get_recent_key_versionid(req.key.clone(), put_time_ms);
        let allocators = manager.get_node_allocators(source_node_id.as_str());
        let chosen = match random_item(&allocators) {
            Some(allocator) => Some(allocator.duplicate()),
            None => None,
        };
        self.put_start_from(req, req_node_id, source_node_id, put_id, chosen)
    }

    /// Notes a put that was counted as in progress, and returns the blocks of the one that it
    /// replaces, which is over.
    fn insert_inflight_put(&mut self, info: InflightPutInfo) -> (released: Vec<Allocation>)
        requires
            old(self).wf(),
            old(self).starts_pending(info.key@) > 0,
            info.sound(),
        ensures
            final(self).wf(),
            *final(self) == (MasterKvRouter {
                inflight_puts: final(self).inflight_puts,
                inflight_put_keys: final(self).inflight_put_keys,
                ..*old(self)
            }),
            final(self).inflight_put_keys@ == counts_once_noted(
                old(self).inflight_puts@,
                old(self).inflight_put_keys@,
                info.key@,
                info.put_id,
            ),
            final(self).inflight_puts@ == with_put(old(self).inflight_puts@, info),
            released@ == replaced_blocks(old(self).inflight_puts@, info.key@, info.put_id),
    {
        proof {
            lemma_with_put(self.inflight_puts@, info);
            lemma_puts_of_with(self.inflight_puts@, info);
            assert forall|key: Seq<char>|
                #[trigger] puts_of(with_put(self.inflight_puts@, info), key)
                    <= super::inflight_keys::count_of(self.inflight_put_keys@, key) by {
                assert(puts_of(self.inflight_puts@, key) <= super::inflight_keys::count_of(
                    self.inflight_put_keys@,
                    key,
                ));
            }
        }
        match find_put(&self.inflight_puts, info.key.as_str(), info.put_id) {
            Some(i) => {
                let released = blocks_of(&self.inflight_puts[i]);
                self.release_inflight_put_key(info.key.as_str());
                self.inflight_puts.set(i, info);
                released
            },
            None => {
                self.inflight_puts.push(info);
                Vec::new()
            },
        }
    }

    /// Takes the next step of a put's placement: the put is in progress once the target is decided,
    /// or given up if there is none.
    pub fn conclude_placement(
        &mut self,
        put: StartingPut,
        src: Allocation,
        search: PlacementSearch,
        placement: PlacementStep,
    ) -> (step: PutStartStep)
        requires
            old(self).wf(),
            old(self).starts_pending(put.key@) > 0,
            src.sound(),
            placement matches PlacementStep::Placed(PutPlacementTarget::Remote { allocation, .. })
                ==> allocation.sound(),
        ensures
            final(self).wf(),
            concluded(*old(self), *final(self), put, src, search, placement, step),
            forall|key: Seq<char>| #[trigger]
                final(self).starts_pending(key) == old(self).starts_pending(key) - if step is Done
                    && key == put.key@ {
                    1int
                } else {
                    0
                },
    {
        proof {
            if placement is Placed {
                lemma_puts_of_with(self.inflight_puts@, placed_put(put, src, placement->Placed_0));
            }
        }
        match placement {
            PlacementStep::Placed(PutPlacementTarget::Local { node_id }) => {
                self.placement_counters.record_put_placement_decision(
                    put.req_node_id.as_str(),
                    node_id.as_str(),
                    PutPlacementMode::Local,
                );
                let resp = start_response(put.put_id, node_id.clone(), &src, &src);
                let released = self.insert_inflight_put(
                    InflightPutInfo {
                        node_id,
                        key: put.key,
                        put_id: put.put_id,
                        req_node_id: put.req_node_id,
                        len: src.size(),
                        src_target_allocation: Some(InflightPutAllocation::Local(src)),
                    },
                );
                PutStartStep::Done { put_id: put.put_id, reply: Ok(resp), released }
            },
            PlacementStep::Placed(PutPlacementTarget::Remote { node_id, allocator, allocation }) => {
                self.placement_counters.record_put_placement_decision(
                    put.req_node_id.as_str(),
                    node_id.as_str(),
                    PutPlacementMode::Remote,
                );
                let resp = start_response(put.put_id, node_id.clone(), &src, &allocation);
                let released = self.insert_inflight_put(
                    InflightPutInfo {
                        node_id,
                        key: put.key,
                        put_id: put.put_id,
                        req_node_id: put.req_node_id,
                        len: allocation.size(),
                        src_target_allocation: Some(
                            InflightPutAllocation::Remote { src, target: allocation },
                        ),
                    },
                );
                PutStartStep::Done { put_id: put.put_id, reply: Ok(resp), released }
            },
            PlacementStep::TryAllocate { node_id, allocator } => PutStartStep::TryAllocate(
                PendingPut { put, stage: PutStage::Target { src, search, node_id, allocator } },
            ),
            PlacementStep::Failed(error) => {
                self.release_inflight_put_key(put.key.as_str());
                let mut released: Vec<Allocation> = Vec::new();
                released.push(src);
                assert(released@ =~= seq![src]);
                failed_start(error, released)
            },
        }
    }

    /// Goes on with a put once memory was asked for. `members` are the cluster's clients.
    pub fn put_start_allocated(
        &mut self,
        manager: &mut MasterSegManager,
        pending: PendingPut,
        outcome: &AllocationOutcome,
        members: &Vec<ClusterMember>,
    ) -> (step: PutStartStep)
        requires
            old(self).wf(),
            old(self).starts_pending(pending.put.key@) > 0,
            pending.wf(),
            pending.accepts(*outcome),
        ensures
            final(self).wf(),
            step matches PutStartStep::TryAllocate(next) ==> next.wf(),
            final(manager).marks() == old(manager).marks(),
            old(manager).wf() ==> final(manager).wf(),
            forall|node: Seq<char>| #[trigger]
                final(manager).usable_allocators(node) == old(manager).usable_allocators(node),
            put_allocated(
                *old(self),
                *final(self),
                *old(manager),
                pending,
                *outcome,
                members@,
                step,
            ),
            forall|key: Seq<char>| #[trigger]
                final(self).starts_pending(key) == old(self).starts_pending(key) - if step is Done
                    && key == pending.put.key@ {
                    1int
                } else {
                    0
                },
    {
        let PendingPut { put, stage } = pending;
        match stage {
            PutStage::Source { allocator, attempts_left } => {
                match allocator.allocate(put.len, outcome) {
                    Some(src) => {
                        let policy = PlacementDefault::new();
                        let preferred = match &put.preferred_sub_cluster {
                            Some(name) => Some(name.as_str()),
                            None => None,
                        };
                        let (search, placement) = policy.select_put_target(
                            manager,
                            &put.source_node_id,
                            members,
                            preferred,
                            put.len,
                        );
                        let ghost request = put;
                        let step = self.conclude_placement(put, src, search, placement);
                        assert(concluded(*old(self), *self, request, src, search, placement, step));
                        step
                    },
                    None => {
                        if attempts_left > 1 {
                            PutStartStep::TryAllocate(
                                PendingPut {
                                    put,
                                    stage: PutStage::Source {
                                        allocator,
                                        attempts_left: attempts_left - 1,
                                    },
                                },
                            )
                        } else {
                            self.release_inflight_put_key(put.key.as_str());
                            let error = KvError::Api(
                                ApiError::NoSpace {
                                    node: put.source_node_id,
                                    segment: allocator.seg_device_id.clone(),
                                    total_capacity: allocator.total_size_bytes(),
                                    free_capacity: allocator.free_size_bytes(outcome.used),
                                },
                            );
                            failed_start(error, Vec::new())
                        }
                    },
                }
            },
            PutStage::Target { src, search, node_id, allocator } => {
                let mut search = search;
                let placement = search.resume(manager, node_id, allocator, outcome);
                let ghost request = put;
                let step = self.conclude_placement(put, src, search, placement);
                assert(concluded(*old(self), *self, request, src, search, placement, step));
                step
            },
        }
    }
}

fn blocks_of(info: &InflightPutInfo) -> (blocks: Vec<Allocation>)
    ensures
        blocks@ == info.blocks(),
{
    let mut blocks: Vec<Allocation> = Vec::new();
    match info.src_target_allocation {
        Some(InflightPutAllocation::Local(block)) => {
            blocks.push(block);
        },
        Some(InflightPutAllocation::Remote { src, target }) => {
            blocks.push(src);
            blocks.push(target);
        },
        None => {},
    }
    assert(blocks@ =~= info.blocks());
    blocks
}

/// A put with a lease that waits for its node's cache to be resized.
pub struct PendingCommit {
    pub key: String,
    pub put_id: PutIDForAKey,
    pub lease_id: u64,
    pub node_id: NodeID,
    pub tomb_tag: NodeTombTag,
    pub target: Allocation,
    /// The source block, which is not held any more.
    pub released: Vec<Allocation>,
}

/// What completing a put comes to.
pub struct PutDoneOutcome {
    pub reply: KvResult<PutDoneResp>,
    /// Blocks that are not held any more.
    pub released: Vec<Allocation>,
    /// The route of the version that this put replaces: its replicas are to be deleted.
    pub replaced: Option<OneKvNodesRoutes>,
    pub cache_update: Option<CacheUpdate>,
}

pub enum PutDoneStep {
    Done(PutDoneOutcome),
    /// The cache of the put's node is to be resized.
    SetMaxCapacity { new_capacity: u64, pending: PendingCommit },
}

/// The error for a put that cannot be completed.
pub open spec fn invalid_put_state(detail: Seq<char>) -> KvErrorOf<Seq<char>> {
    KvErrorOf::Api(ApiErrorOf::InvalidPutMasterState { detail })
}

/// What the answer to a request for a block does to a put that is being started, and what it comes to.
pub open spec fn put_allocated(
    before: MasterKvRouter,
    after: MasterKvRouter,
    manager: MasterSegManager,
    pending: PendingPut,
    outcome: AllocationOutcome,
    members: Seq<ClusterMember>,
    step: PutStartStep,
) -> bool {
    match (pending.stage, outcome.region) {
        (PutStage::Source { allocator, attempts_left }, None) => if attempts_left > 1 {
            &&& after == before
            &&& step == PutStartStep::TryAllocate(
                PendingPut {
                    stage: PutStage::Source {
                        allocator,
                        attempts_left: (attempts_left - 1) as u8,
                    },
                    ..pending
                },
            )
        } else {
            &&& after.inflight_put_keys@ == super::inflight_keys::with_one_less(
                before.inflight_put_keys@,
                pending.put.key@,
            )
            &&& after == (MasterKvRouter {
                inflight_put_keys: after.inflight_put_keys,
                ..before
            })
            &&& failed_with(
                step,
                source_no_space(pending.put.source_node_id@, allocator, outcome.used),
                Seq::empty(),
            )
        },
        (PutStage::Source { allocator, .. }, Some(region)) => exists|
            search: PlacementSearch,
            placement: PlacementStep,
        |
            #![trigger concluded(
                before,
                after,
                pending.put,
                allocator.allocation(pending.put.len, region),
                search,
                placement,
                step,
            )]
            super::placement::may_begin(
                false,
                manager,
                pending.put.source_node_id@,
                super::placement::preferred_nodes(
                    members,
                    match pending.put.preferred_sub_cluster {
                        Some(name) => Some(name@),
                        None => None,
                    },
                ),
                pending.put.len,
                search,
                placement,
            ) && concluded(
                before,
                after,
                pending.put,
                allocator.allocation(pending.put.len, region),
                search,
                placement,
                step,
            ),
        (PutStage::Target { src, search, node_id, allocator }, Some(region)) => exists|
            next: PlacementSearch,
        |
            #[trigger] concluded(
                before,
                after,
                pending.put,
                src,
                next,
                PlacementStep::Placed(
                    PutPlacementTarget::Remote {
                        node_id,
                        allocator,
                        allocation: allocator.allocation(search.len, region),
                    },
                ),
                step,
            ),
        (PutStage::Target { src, search, node_id, allocator }, None) => exists|
            refused: PlacementSearch,
            next: PlacementSearch,
            placement: PlacementStep,
        |
            #![trigger refused.may_take(next, manager, placement), concluded(
                before,
                after,
                pending.put,
                src,
                next,
                placement,
                step,
            )]
            search.refused_at(refused, node_id@, allocator, outcome.used)
                && refused.may_take(next, manager, placement) && concluded(
                before,
                after,
                pending.put,
                src,
                next,
                placement,
                step,
            ),
    }
}

/// The put failed with an error and left no trace; the blocks are not held any more.
pub open spec fn done_failed(
    outcome: PutDoneOutcome,
    error: KvErrorOf<Seq<char>>,
    released: Seq<Allocation>,
) -> bool {
    &&& outcome.reply matches Err(e) && e@ == error
    &&& outcome.released@ == released
    &&& outcome.replaced is None
    &&& outcome.cache_update is None
}

/// The block that the value is in, and the blocks that were only needed to bring it there.
pub open spec fn target_and_rest(blocks: InflightPutAllocation) -> (Allocation, Seq<Allocation>) {
    match blocks {
        InflightPutAllocation::Local(target) => (target, Seq::empty()),
        InflightPutAllocation::Remote { src, target } => (target, seq![src]),
    }
}

/// The route of a version that was just put.
pub open spec fn new_route(
    put_id: PutIDForAKey,
    lease_id: Option<u64>,
    route_id: u64,
    replica: KvRouteInfo,
) -> RouteModel {
    RouteModel { put_id, lease_id, replicas: seq![replica], slots: 0, route_id }
}

/// What committing a put does to the router, and what it comes to.
pub open spec fn committed(
    before: MasterKvRouter,
    after: MasterKvRouter,
    key: Seq<char>,
    put_id: PutIDForAKey,
    lease_id: Option<u64>,
    replica: KvRouteInfo,
    released: Seq<Allocation>,
    outcome: PutDoneOutcome,
) -> bool {
    &&& after.kv_routes@ == before.kv_routes@.insert(
        key,
        new_route(put_id, lease_id, before.next_route_id, replica),
    )
    &&& after.next_route_id == before.next_route_id + 1
    &&& after.prefix_index@ == super::reindexed(before, after.kv_routes@, key)
    &&& after == (MasterKvRouter {
        kv_routes: after.kv_routes,
        next_route_id: after.next_route_id,
        prefix_index: after.prefix_index,
        ..before
    })
    &&& outcome.reply matches Ok(resp) && resp.error_code == OK && resp.error_json@ == Seq::<
        char,
    >::empty() && resp.server_process_us == 0
    &&& outcome.released@ == released
    &&& match outcome.replaced {
        Some(route) => before.kv_routes@.contains_key(key) && route@ == before.kv_routes@[key],
        None => !before.kv_routes@.contains_key(key),
    }
    &&& if lease_id is None && !before.test_spec_config.disable_master_replica_cache {
        outcome.cache_update matches Some(CacheUpdate::Insert { node_id, key: name, desc })
            && node_id@ == replica.node_id@ && name@ == key && desc.put_id == put_id
            && desc.weight_bytes == super::cache_weight(replica.allocation.capcity)
    } else {
        outcome.cache_update is None
    }
}

fn failed_done(error: KvError, released: Vec<Allocation>) -> (outcome: PutDoneOutcome)
    ensures
        done_failed(outcome, error@, released@),
{
    PutDoneOutcome { reply: Err(error), released, replaced: None, cache_update: None }
}

fn invalid_state(detail: String) -> (error: KvError)
    ensures
        error@ == invalid_put_state(detail@),
{
    KvError::Api(ApiError::InvalidPutMasterState { detail })
}

/// `before`, the put id, `after`.
fn about_put(before: &str, put_id: PutIDForAKey, after: &str) -> (message: String)
    ensures
        message@ == before@ + text::debug_pair(put_id) + after@,
{
    before.to_owned().concat(text::debug_pair_text(put_id).as_str()).concat(after)
}

impl MasterKvRouter {
    /// There is room to commit a put.
    pub open spec fn can_commit(self) -> bool {
        &&& self.wf()
        &&& self.next_route_id < u64::MAX
        &&& self.prefix_index@.len() < u64::MAX
    }

    /// Takes a put out of those in progress.
    fn remove_inflight_put(&mut self, key: &str, put_id: PutIDForAKey) -> (removed: Option<
        InflightPutInfo,
    >)
        requires
            old(self).wf(),
        ensures
            final(self).wf(),
            *final(self) == (MasterKvRouter {
                inflight_puts: final(self).inflight_puts,
                ..*old(self)
            }),
            final(self).inflight_puts@ == without_put(old(self).inflight_puts@, key@, put_id),
            removed == match put_index(old(self).inflight_puts@, key@, put_id) {
                Some(i) => Some(old(self).inflight_puts@[i]),
                None => None,
            },
            removed is None ==> *final(self) == *old(self),
            removed is Some ==> final(self).starts_pending(key@) > 0,
    {
        proof {
            lemma_without_put(self.inflight_puts@, key@, put_id);
            lemma_puts_of_without(self.inflight_puts@, key@, put_id);
            assert forall|other: Seq<char>|
                #[trigger] puts_of(without_put(self.inflight_puts@, key@, put_id), other)
                    <= super::inflight_keys::count_of(self.inflight_put_keys@, other) by {
                assert(puts_of(self.inflight_puts@, other) <= super::inflight_keys::count_of(
                    self.inflight_put_keys@,
                    other,
                ));
            }
        }
        match find_put(&self.inflight_puts, key, put_id) {
            Some(i) => Some(self.inflight_puts.remove(i)),
            None => None,
        }
    }

    /// Ends a put in progress without completing it, and returns it.
    fn drop_inflight_put(&mut self, key: &str, put_id: PutIDForAKey) -> (dropped: Option<
        InflightPutInfo,
    >)
        requires
            old(self).wf(),
        ensures
            final(self).wf(),
            put_dropped(*old(self), *final(self), key@, put_id, dropped),
            forall|other: Seq<char>| #[trigger]
                final(self).starts_pending(other) == old(self).starts_pending(other),
    {
        proof {
            lemma_puts_of_without(self.inflight_puts@, key@, put_id);
        }
        match self.remove_inflight_put(key, put_id) {
            Some(info) => {
                proof {
                    lemma_put_index(old(self).inflight_puts@, key@, put_id);
                }
                self.release_inflight_put_key(info.key.as_str());
                Some(info)
            },
            None => None,
        }
    }

    /// Revokes a put. It is no error if there is no such put. The blocks of the put are not held any
    /// more.
    pub fn handle_put_revoke(&mut self, req: &PutRevokeReq) -> (revoked: (
        PutRevokeResp,
        Option<InflightPutInfo>,
    ))
        requires
            old(self).wf(),
        ensures
            final(self).wf(),
            revoked.0.error_code == OK,
            revoked.0.error_json@ == Seq::<char>::empty(),
            put_dropped(*old(self), *final(self), req.key@, req.put_id, revoked.1),
            forall|key: Seq<char>| #[trigger]
                final(self).starts_pending(key) == old(self).starts_pending(key),
    {
        let dropped = self.drop_inflight_put(req.key.as_str(), req.put_id);
        (PutRevokeResp { error_code: OK, error_json: String::new() }, dropped)
    }

    /// Forgets a put that was not completed in time.
    pub fn expire_inflight_put(&mut self, key: &str, put_id: PutIDForAKey) -> (expired: Option<
        InflightPutInfo,
    >)
        requires
            old(self).wf(),
        ensures
            final(self).wf(),
            put_dropped(*old(self), *final(self), key@, put_id, expired),
            forall|other: Seq<char>| #[trigger]
                final(self).starts_pending(other) == old(self).starts_pending(other),
    {
        self.drop_inflight_put(key, put_id)
    }

    /// Forgets a put whose start could not be answered, unless the start failed.
    pub fn forget_unanswered_put(&mut self, key: &str, put_id: PutIDForAKey) -> (forgotten: Option<
        InflightPutInfo,
    >)
        requires
            old(self).wf(),
        ensures
            final(self).wf(),
            if put_id == (0u64, 0u32) {
                *final(self) == *old(self) && forgotten is None
            } else {
                put_dropped(*old(self), *final(self), key@, put_id, forgotten)
            },
            forall|other: Seq<char>| #[trigger]
                final(self).starts_pending(other) == old(self).starts_pending(other),
    {
        if put_id.0 == 0 && put_id.1 == 0 {
            return None;
        }
        self.drop_inflight_put(key, put_id)
    }

    /// Makes a put the current version of its key.
    fn commit_put(
        &mut self,
        key: String,
        put_id: PutIDForAKey,
        lease_id: Option<u64>,
        replica: KvRouteInfo,
        released: Vec<Allocation>,
    ) -> (outcome: PutDoneOutcome)
        requires
            old(self).can_commit(),
            replica.allocation.sound(),
        ensures
            final(self).wf(),
            committed(
                *old(self),
                *final(self),
                key@,
                put_id,
                lease_id,
                replica,
                released@,
                outcome,
            ),
    {
        let node_id = replica.node_id.clone();
        let weight_bytes: u32 = super::saturated_weight(replica.allocation.capcity());
        let mut route = OneKvNodesRoutes::new(put_id, lease_id, self.next_route_id);
        let _ = route.insert_replica(replica);
        assert(route@ == new_route(put_id, lease_id, self.next_route_id, replica)) by {
            assert(Seq::<KvRouteInfo>::empty().push(replica) =~= seq![replica]);
        }
        self.next_route_id = self.next_route_id + 1;
        let replaced = self.kv_routes.insert(key.clone(), route);
        if replaced.is_none() && self.prefix_index_enabled() {
            self.prefix_index.insert(key.as_str());
        }
        proof {
            broadcast use vstd::multiset::group_multiset_axioms;

            let fresh = old(self).next_route_id;
            super::get::lemma_no_gets_of_new_route(self.inflight_gets@, key@, fresh);
        }
        let cache_update = if lease_id.is_none() && self.replica_cache_enabled() {
            Some(
                CacheUpdate::Insert {
                    node_id,
                    key,
                    desc: NodeValueReplicaDesc { weight_bytes, put_id },
                },
            )
        } else {
            None
        };
        PutDoneOutcome {
            reply: Ok(
                PutDoneResp { error_code: OK, error_json: String::new(), server_process_us: 0 },
            ),
            released,
            replaced,
            cache_update,
        }
    }

    /// Completes a put: the value becomes the current version of its key.
    ///
    /// A lease is attached first, and cache capacity for the block is set aside on its node;
    /// `base_capacity` is the share of that node's memory that its cache may use.
    pub fn handle_put_done(
        &mut self,
        manager: &MasterSegManager,
        leases: &mut MasterLeaseManager,
        req: &PutDoneReq,
        base_capacity: u64,
    ) -> (step: PutDoneStep)
        requires
            old(self).can_commit(),
            old(leases).wf(),
        ensures
            final(self).wf(),
            final(leases).wf(),
            put_completed(
                *old(self),
                *final(self),
                *manager,
                *old(leases),
                *final(leases),
                *req,
                base_capacity,
                step,
            ),
            forall|key: Seq<char>| #[trigger]
                final(self).starts_pending(key) == old(self).starts_pending(key),
    {
        let put_id: PutIDForAKey = req.put_id;
        proof {
            lemma_puts_of_without(self.inflight_puts@, req.key@, put_id);
            lemma_put_index(self.inflight_puts@, req.key@, put_id);
        }
        let info = match self.remove_inflight_put(req.key.as_str(), put_id) {
            Some(info) => info,
            None => {
                let detail = about_put("Put operation ", put_id, " not found for completion");
                return PutDoneStep::Done(failed_done(invalid_state(detail), Vec::new()));
            },
        };
        self.release_inflight_put_key(info.key.as_str());
        let InflightPutInfo { node_id, key, src_target_allocation, .. } = info;
        let mut released: Vec<Allocation> = Vec::new();
        let mut target = match src_target_allocation {
            Some(InflightPutAllocation::Local(target)) => target,
            Some(InflightPutAllocation::Remote { src, target }) => {
                released.push(src);
                target
            },
            None => {
                let mut detail = "Put operation with put_id ".to_owned();
                text::append_u64(&mut detail, put_id.0);
                detail.append(" not found for completion");
                return PutDoneStep::Done(failed_done(invalid_state(detail), Vec::new()));
            },
        };
        let ghost rest = target_and_rest(src_target_allocation->0).1;
        assert(released@ =~= rest);
        let tomb_tag = match manager.get_node_tomb_tag(node_id.as_str()) {
            Some(tomb_tag) => tomb_tag,
            None => {
                let detail = about_put(
                    "Put operation with put_id ",
                    put_id,
                    " not found for completion",
                );
                released.push(target);
                return PutDoneStep::Done(failed_done(invalid_state(detail), released));
            },
        };
        if tomb_tag.is_tomb(manager.board()) {
            let detail = about_put("Put operation with put_id ", put_id, " is tomb, skip");
            released.push(target);
            return PutDoneStep::Done(failed_done(invalid_state(detail), released));
        }
        match req.lease_id {
            None => {
                let replica = KvRouteInfo { node_id, allocation: target, tomb_tag };
                PutDoneStep::Done(self.commit_put(key, put_id, None, replica, released))
            },
            Some(lease_id) => {
                if let Err(error) = leases.attach_key(lease_id, key.clone(), put_id) {
                    assert(leases.leases() =~= old(leases).leases());
                    released.push(target);
                    return PutDoneStep::Done(failed_done(KvError::LeaseMgr(error), released));
                }
                let delta: i64 = target.capcity() as i64;
                let adjusted = self.adjust_node_cache_capacity_for_lease(
                    manager,
                    node_id.as_str(),
                    delta,
                    base_capacity,
                );
                let ghost middle = *self;
                assert(put_taken(
                    *old(self),
                    middle,
                    key@,
                    put_id,
                    middle.lease_reserved_bytes@,
                ));
                match adjusted {
                    CapacityStep::Done(Ok(())) => {
                        target.set_on_drop();
                        let replica = KvRouteInfo { node_id, allocation: target, tomb_tag };
                        PutDoneStep::Done(
                            self.commit_put(key, put_id, Some(lease_id), replica, released),
                        )
                    },
                    CapacityStep::Done(Err(error)) => {
                        released.push(target);
                        PutDoneStep::Done(failed_done(error, released))
                    },
                    CapacityStep::SetMaxCapacity { new_capacity } => PutDoneStep::SetMaxCapacity {
                        new_capacity,
                        pending: PendingCommit {
                            key,
                            put_id,
                            lease_id,
                            node_id,
                            tomb_tag,
                            target,
                            released,
                        },
                    },
                }
            },
        }
    }

    /// Goes on with a put once the cache of its node was resized, or could not be.
    pub fn put_done_resized(&mut self, pending: PendingCommit, resize: CacheResize) -> (outcome:
        PutDoneOutcome)
        requires
            old(self).can_commit(),
            pending.target.sound(),
        ensures
            final(self).wf(),
            put_resized(*old(self), *final(self), pending, resize, outcome),
            forall|key: Seq<char>| #[trigger]
                final(self).starts_pending(key) == old(self).starts_pending(key),
    {
        let PendingCommit { key, put_id, lease_id, node_id, tomb_tag, target, released } = pending;
        let mut released = released;
        let delta: i64 = target.capcity() as i64;
        match self.finish_capacity_adjustment(node_id.as_str(), delta, resize) {
            Err(error) => {
                released.push(target);
                failed_done(error, released)
            },
            Ok(()) => {
                let ghost middle = *self;
                let mut target = target;
                target.set_on_drop();
                let replica = KvRouteInfo { node_id, allocation: target, tomb_tag };
                self.commit_put(key, put_id, Some(lease_id), replica, released)
            },
        }
    }
}

/// What ending a put in progress does: it is taken out, and its key is counted in flight once less.
pub open spec fn put_dropped(
    before: MasterKvRouter,
    after: MasterKvRouter,
    key: Seq<char>,
    put_id: PutIDForAKey,
    dropped: Option<InflightPutInfo>,
) -> bool {
    &&& after.inflight_puts@ == without_put(before.inflight_puts@, key, put_id)
    &&& after == (MasterKvRouter {
        inflight_puts: after.inflight_puts,
        inflight_put_keys: after.inflight_put_keys,
        ..before
    })
    &&& match put_index(before.inflight_puts@, key, put_id) {
        Some(i) => {
            &&& dropped == Some(before.inflight_puts@[i])
            &&& after.inflight_put_keys@ == super::inflight_keys::with_one_less(
                before.inflight_put_keys@,
                key,
            )
        },
        None => {
            &&& dropped is None
            &&& after.inflight_put_keys@ == before.inflight_put_keys@
        },
    }
}

/// `middle` is `before` once the put was taken out of those in progress, with `reserved` bytes set
/// aside for leases.
pub open spec fn put_taken(
    before: MasterKvRouter,
    middle: MasterKvRouter,
    key: Seq<char>,
    put_id: PutIDForAKey,
    reserved: Map<Seq<char>, u64>,
) -> bool {
    &&& middle.inflight_puts@ == without_put(before.inflight_puts@, key, put_id)
    &&& middle.inflight_put_keys@ == super::inflight_keys::with_one_less(
        before.inflight_put_keys@,
        key,
    )
    &&& middle.lease_reserved_bytes@ == reserved
    &&& middle == (MasterKvRouter {
        inflight_puts: middle.inflight_puts,
        inflight_put_keys: middle.inflight_put_keys,
        lease_reserved_bytes: middle.lease_reserved_bytes,
        ..before
    })
}

/// What the answer to a request to resize a cache does to a put with a lease, and what it comes to.
pub open spec fn put_resized(
    before: MasterKvRouter,
    after: MasterKvRouter,
    pending: PendingCommit,
    resize: CacheResize,
    outcome: PutDoneOutcome,
) -> bool {
    match super::cache_capacity::resize_error(pending.node_id@, resize) {
        Some(error) => {
            &&& done_failed(outcome, error, pending.released@.push(pending.target))
            &&& after.lease_reserved_bytes@ == super::cache_capacity::with_shift(
                before.lease_reserved_bytes@,
                pending.node_id@,
                -(pending.target.capcity as int),
            )
            &&& after == (MasterKvRouter {
                lease_reserved_bytes: after.lease_reserved_bytes,
                ..before
            })
        },
        None => exists|middle: MasterKvRouter|
            {
                &&& middle.lease_reserved_bytes@ == before.lease_reserved_bytes@
                &&& middle == (MasterKvRouter {
                    lease_reserved_bytes: middle.lease_reserved_bytes,
                    ..before
                })
                &&& #[trigger] committed(
                    middle,
                    after,
                    pending.key@,
                    pending.put_id,
                    Some(pending.lease_id),
                    KvRouteInfo {
                        node_id: pending.node_id,
                        allocation: pending.target.reserved(),
                        tomb_tag: pending.tomb_tag,
                    },
                    pending.released@,
                    outcome,
                )
            },
    }
}

/// What completing a put does, and what it comes to.
pub open spec fn put_completed(
    before: MasterKvRouter,
    after: MasterKvRouter,
    manager: MasterSegManager,
    leases_before: MasterLeaseManager,
    leases_after: MasterLeaseManager,
    req: PutDoneReq,
    base_capacity: u64,
    step: PutDoneStep,
) -> bool {
    let put_id = req.put_id;
    match put_index(before.inflight_puts@, req.key@, put_id) {
        None => {
            &&& after == before
            &&& leases_after == leases_before
            &&& step matches PutDoneStep::Done(outcome) && done_failed(
                outcome,
                invalid_put_state(
                    "Put operation "@ + text::debug_pair(put_id) + " not found for completion"@,
                ),
                Seq::empty(),
            )
        },
        Some(i) => {
            let info = before.inflight_puts@[i];
            let node = info.node_id;
            match info.src_target_allocation {
                None => {
                    &&& put_taken(before, after, req.key@, put_id, before.lease_reserved_bytes@)
                    &&& leases_after == leases_before
                    &&& step matches PutDoneStep::Done(outcome) && done_failed(
                        outcome,
                        invalid_put_state(
                            "Put operation with put_id "@ + text::decimal(put_id.0 as nat)
                                + " not found for completion"@,
                        ),
                        Seq::empty(),
                    )
                },
                Some(blocks) => {
                    let (target, rest) = target_and_rest(blocks);
                    if !manager.alive(node@) {
                        &&& put_taken(before, after, req.key@, put_id, before.lease_reserved_bytes@)
                        &&& leases_after == leases_before
                        &&& step matches PutDoneStep::Done(outcome) && done_failed(
                            outcome,
                            invalid_put_state(
                                "Put operation with put_id "@ + text::debug_pair(put_id) + (
                                if manager.nodes().contains_key(node@) {
                                    " is tomb, skip"@
                                } else {
                                    " not found for completion"@
                                }),
                            ),
                            rest.push(target),
                        )
                    } else {
                        let tag = manager.nodes()[node@].tomb_tag;
                        match req.lease_id {
                            None => {
                                &&& leases_after == leases_before
                                &&& step is Done
                                &&& exists|middle: MasterKvRouter|
                                    put_taken(
                                        before,
                                        middle,
                                        req.key@,
                                        put_id,
                                        before.lease_reserved_bytes@,
                                    ) && #[trigger] committed(
                                        middle,
                                        after,
                                        req.key@,
                                        put_id,
                                        None,
                                        KvRouteInfo {
                                            node_id: node,
                                            allocation: target,
                                            tomb_tag: tag,
                                        },
                                        rest,
                                        step->Done_0,
                                    )
                            },
                            Some(lease_id) => put_leased(
                                before,
                                after,
                                manager,
                                leases_before,
                                leases_after,
                                info,
                                lease_id,
                                target,
                                rest,
                                base_capacity,
                                step,
                            ),
                        }
                    }
                },
            }
        },
    }
}

/// What completing a put with a lease does, and what it comes to.
pub open spec fn put_leased(
    before: MasterKvRouter,
    after: MasterKvRouter,
    manager: MasterSegManager,
    leases_before: MasterLeaseManager,
    leases_after: MasterLeaseManager,
    info: InflightPutInfo,
    lease_id: u64,
    target: Allocation,
    rest: Seq<Allocation>,
    base_capacity: u64,
    step: PutDoneStep,
) -> bool {
    let key = info.key@;
    let put_id = info.put_id;
    let node = info.node_id;
    let tag = manager.nodes()[node@].tomb_tag;
    let known = leases_before.leases().contains_key(lease_id);
    let (lease, attached) = leases_before.leases()[lease_id].attached(key, put_id);
    if !known || attached is Err {
        &&& put_taken(before, after, key, put_id, before.lease_reserved_bytes@)
        &&& leases_after.leases() == leases_before.leases()
        &&& step matches PutDoneStep::Done(outcome) && done_failed(
            outcome,
            KvErrorOf::LeaseMgr(
                if known {
                    attached->Err_0
                } else {
                    crate::error::LeaseMgrErrorOf::LeaseNotFound {
                        lease_id,
                        message: text::decimal(lease_id as nat),
                    }
                },
            ),
            rest.push(target),
        )
    } else {
        &&& leases_after.leases() == leases_before.leases().insert(lease_id, lease)
        &&& exists|middle: MasterKvRouter, adjusted: CapacityStep|
            {
                &&& put_taken(before, middle, key, put_id, middle.lease_reserved_bytes@)
                &&& #[trigger] super::capacity_adjusted(
                    before.test_spec_config,
                    manager,
                    before.lease_reserved_bytes@,
                    middle.lease_reserved_bytes@,
                    node@,
                    target.capcity as int,
                    base_capacity,
                    adjusted,
                )
                &&& match adjusted {
                    CapacityStep::Done(Ok(_)) => step matches PutDoneStep::Done(outcome)
                        && committed(
                        middle,
                        after,
                        key,
                        put_id,
                        Some(lease_id),
                        KvRouteInfo {
                            node_id: node,
                            allocation: target.reserved(),
                            tomb_tag: tag,
                        },
                        rest,
                        outcome,
                    ),
                    CapacityStep::Done(Err(error)) => {
                        &&& after == middle
                        &&& step matches PutDoneStep::Done(outcome) && done_failed(
                            outcome,
                            error@,
                            rest.push(target),
                        )
                    },
                    CapacityStep::SetMaxCapacity { new_capacity } => {
                        &&& after == middle
                        &&& step matches PutDoneStep::SetMaxCapacity { new_capacity: capacity, pending }
                            && capacity == new_capacity && pending.key@ == key && pending.put_id
                            == put_id && pending.lease_id == lease_id && pending.node_id == node
                            && pending.tomb_tag == tag && pending.target == target
                            && pending.released@ == rest
                    },
                }
            }
    }
}

/// A put that asks to be rejected while its key is being written is rejected just as long as a put
/// of the key is in progress or a start of one is not decided: no put that has ended keeps others
/// out.
pub proof fn law_key_is_being_written_while_puts_are(router: MasterKvRouter, key: Seq<char>)
    requires
        router.wf(),
    ensures
        super::inflight_keys::count_of(router.inflight_put_keys@, key) > 0 <==> {
            ||| router.starts_pending(key) > 0
            ||| exists|i: int|
                0 <= i < router.inflight_puts@.len() && (#[trigger] router.inflight_puts@[i]).key@
                    == key
        },
{
    let puts = router.inflight_puts@;
    assert(puts_of(puts, key) <= super::inflight_keys::count_of(router.inflight_put_keys@, key));
    if puts_of(puts, key) > 0 {
        lemma_some_put_of(puts, key);
    }
    if exists|i: int| 0 <= i < puts.len() && (#[trigger] puts[i]).key@ == key {
        let i = choose|i: int| 0 <= i < puts.len() && (#[trigger] puts[i]).key@ == key;
        lemma_puts_of_remove(puts, i, key);
    }
}

/// A put that was completed, or that failed to be, is not in progress any more, so that completing
/// it again is refused. No error changes a route.
pub proof fn law_put_is_completed_once(
    before: MasterKvRouter,
    after: MasterKvRouter,
    manager: MasterSegManager,
    leases_before: MasterLeaseManager,
    leases_after: MasterLeaseManager,
    req: PutDoneReq,
    base_capacity: u64,
    step: PutDoneStep,
    again: MasterKvRouter,
    later: MasterSegManager,
    leases_again: MasterLeaseManager,
    base_again: u64,
    second: PutDoneStep,
)
    requires
        before.wf(),
        put_completed(
            before,
            after,
            manager,
            leases_before,
            leases_after,
            req,
            base_capacity,
            step,
        ),
        put_completed(after, again, later, leases_after, leases_again, req, base_again, second),
    ensures
        put_index(after.inflight_puts@, req.key@, req.put_id) is None,
        step matches PutDoneStep::Done(outcome) ==> (outcome.reply is Err ==> after.kv_routes@
            == before.kv_routes@),
        second matches PutDoneStep::Done(outcome) && done_failed(
            outcome,
            invalid_put_state(
                "Put operation "@ + text::debug_pair(req.put_id) + " not found for completion"@,
            ),
            Seq::empty(),
        ),
        again == after,
{
    lemma_put_index(before.inflight_puts@, req.key@, req.put_id);
    lemma_without_put(before.inflight_puts@, req.key@, req.put_id);
}

} // verus!
