//! The owner whose memory an external client shares: how it is found, and found again after it has
//! restarted.

use crate::cluster_manager::ClusterMember;
use crate::config::LargeFilePaths;
use crate::error::{ApiErrorOf, KvError, KvErrorOf, KvResult, SharedMemErrorOf};
use crate::external_client_api::side_transfer::SideTransferBindings;
use crate::external_client_api::weak_index::WeakIndex;
use crate::external_client_api::ExternalClientApiNewArg;
use crate::text;
use vstd::prelude::*;

verus! {

/// What tells two versions of a file apart.
#[derive(Clone, Copy, PartialEq, Eq, Structural, Debug)]
pub struct SharedMetaSignature {
    pub modified_ns: u64,
    pub len: u64,
    pub inode: u64,
}

/// What an owner writes about itself into its shared directory.
pub struct SharedJsonMeta {
    pub protocol_version: String,
    pub cluster_name: String,
    pub owner_id: String,
    pub node_start_time: i64,
    pub segment_len: u64,
    pub segment_label: Option<String>,
    pub sub_cluster: Option<String>,
    pub etcd_addresses: Vec<String>,
    pub share_mem_path: String,
    pub large_file_paths: LargeFilePaths,
    pub write_ts: Option<i64>,
}

/// A mapping of the owner's memory: the same bytes twice, once writable.
#[derive(Clone, Copy)]
pub struct SharedMemoryPtr {
    pub ptr_rw: u64,
    pub ptr_ro: u64,
    pub len: u64,
    pub memory_signature: SharedMetaSignature,
}

/// The owner that the client is attached to.
pub struct CurrentOwner {
    pub node_id: String,
    /// Owner's node_start_time (seconds) observed from shared.json
    pub owner_start_time: i64,
    pub shared_memory: SharedMemoryPtr,
}

/// The owner's description and the version of the file that it was read from.
pub struct OwnerRestartPayload {
    pub meta: SharedJsonMeta,
    pub signature: SharedMetaSignature,
}

/// Whether the owner can be attached to.
pub enum OwnerRestartProbe {
    Ready(OwnerRestartPayload),
    Pending(String),
}

/// What came of reading the owner's description.
pub enum SharedJsonRead {
    /// The file was read; its version before and after.
    Read { before: SharedMetaSignature, meta: SharedJsonMeta, after: SharedMetaSignature },
    /// The file could not be read or does not hold a description.
    Failed { error: String },
}

/// A description counts only if its file did not change while it was read.
pub fn read_shared_json_snapshot(
    before: SharedMetaSignature,
    meta: SharedJsonMeta,
    after: SharedMetaSignature,
) -> (snapshot: Option<(SharedJsonMeta, SharedMetaSignature)>)
    ensures
        snapshot == if before == after {
            Some((meta, after))
        } else {
            None
        },
{
    if before != after {
        return None;
    }
    Some((meta, after))
}

/// What a probe looks at.
pub struct OwnerProbeInput {
    pub mmap_file_ready: bool,
    pub shared_json_ready: bool,
    pub read: SharedJsonRead,
    /// The member that the description names, where the cluster knows it.
    pub owner_member: Option<ClusterMember>,
}

/// What a probe expects.
pub struct OwnerProbeExpectation<'a> {
    pub shared_memory_path: &'a str,
    pub shared_file_path: &'a str,
    /// The version of the description that the client is attached to.
    pub current_signature: Option<SharedMetaSignature>,
    pub wait_start_ts: i64,
    pub old_owner_id: Option<&'a str>,
    pub expected_cluster_name: &'a str,
    pub expected_protocol_version: &'a str,
}

/// The outcome of a probe, in character sequences.
pub enum ProbeView {
    Ready,
    Pending(Seq<char>),
    Changed(Seq<char>),
}

/// Where the owner's description stands.
pub open spec fn shared_meta_path_text(shared_file_path: Seq<char>) -> Seq<char> {
    shared_file_path + "/shared.json"@
}

/// Where the owner's memory stands.
pub open spec fn mmap_file_path_text(shared_memory_path: Seq<char>) -> Seq<char> {
    shared_memory_path + "/mmap.file"@
}

pub fn shared_meta_path(shared_file_path: &str) -> (path: String)
    ensures
        path@ == shared_meta_path_text(shared_file_path@),
{
    shared_file_path.to_owned().concat("/shared.json")
}

pub fn mmap_file_path(shared_memory_path: &str) -> (path: String)
    ensures
        path@ == mmap_file_path_text(shared_memory_path@),
{
    shared_memory_path.to_owned().concat("/mmap.file")
}

/// The description's time of writing; zero where it has none.
pub open spec fn write_time(meta: SharedJsonMeta) -> i64 {
    match meta.write_ts {
        Some(ts) => ts,
        None => 0,
    }
}

/// What a description that was read says of the owner.
pub open spec fn probe_meta(
    expected: OwnerProbeExpectation<'_>,
    meta: SharedJsonMeta,
    signature: SharedMetaSignature,
    owner_member: Option<ClusterMember>,
) -> ProbeView {
    let path = shared_meta_path_text(expected.shared_file_path@);
    if meta.protocol_version@ != expected.expected_protocol_version@ {
        ProbeView::Pending(
            "shared.json protocol_version mismatch; waiting: shm_dir='"@
                + expected.shared_memory_path@ + "' shared='"@ + meta.protocol_version@
                + "' local='"@ + expected.expected_protocol_version@ + "'"@,
        )
    } else if meta.cluster_name@ != expected.expected_cluster_name@ {
        ProbeView::Pending(
            "shared.json cluster_name mismatch; waiting: shm_dir='"@ + expected.shared_memory_path@
                + "' shared='"@ + meta.cluster_name@ + "' local='"@
                + expected.expected_cluster_name@ + "'"@,
        )
    } else if expected.old_owner_id matches Some(old_id) && old_id@ != meta.owner_id@ {
        ProbeView::Changed(
            "shared.json owner_id changed unexpectedly: old_owner_id="@
                + expected.old_owner_id->0@ + " new_owner_id="@ + meta.owner_id@,
        )
    } else if expected.current_signature is None && write_time(meta) <= expected.wait_start_ts {
        ProbeView::Pending(
            "shared.json write_ts is not newer yet: path="@ + path + " write_ts="@
                + text::signed_decimal(write_time(meta) as int) + " wait_start_ts="@
                + text::signed_decimal(expected.wait_start_ts as int),
        )
    } else if owner_member is None {
        ProbeView::Pending(
            "shared.json observed but owner member is not in cache yet: owner_id="@
                + meta.owner_id@ + " shared_start_time="@ + text::signed_decimal(
                meta.node_start_time as int,
            ),
        )
    } else if owner_member->0.node_start_time != meta.node_start_time {
        ProbeView::Pending(
            "owner generation mismatch: owner_id="@ + meta.owner_id@ + " cluster_start_time="@
                + text::signed_decimal(owner_member->0.node_start_time as int)
                + " shared_start_time="@ + text::signed_decimal(meta.node_start_time as int),
        )
    } else if expected.current_signature == Some(signature) {
        ProbeView::Pending(
            "shared.json unchanged after cluster convergence: owner_id="@ + meta.owner_id@
                + " start_time="@ + text::signed_decimal(meta.node_start_time as int) + " path="@
                + path,
        )
    } else {
        ProbeView::Ready
    }
}

/// What a probe comes to.
pub open spec fn probe_outcome(
    expected: OwnerProbeExpectation<'_>,
    input: OwnerProbeInput,
) -> ProbeView {
    let path = shared_meta_path_text(expected.shared_file_path@);
    if !input.mmap_file_ready {
        ProbeView::Pending(
            "shared memory mmap.file not ready yet: path="@ + expected.shared_memory_path@,
        )
    } else if !input.shared_json_ready {
        ProbeView::Pending(
            "shared metadata shared.json not ready yet: path="@ + expected.shared_file_path@,
        )
    } else {
        match input.read {
            SharedJsonRead::Failed { error } => ProbeView::Pending(
                "shared.json not ready or invalid yet: path="@ + path + " err="@ + error@,
            ),
            SharedJsonRead::Read { before, meta, after } => if before != after {
                ProbeView::Pending(
                    "shared.json changed while being read; retrying: path="@ + path,
                )
            } else {
                probe_meta(expected, meta, after, input.owner_member)
            },
        }
    }
}

/// An owner is waited for until its description, its memory and the cluster agree on one
/// generation; a description that names another owner is an error.
pub fn probe_owner_restart_payload(
    expected: &OwnerProbeExpectation<'_>,
    input: OwnerProbeInput,
) -> (probe: KvResult<OwnerRestartProbe>)
    ensures
        match probe_outcome(*expected, input) {
            ProbeView::Pending(reason) => probe matches Ok(OwnerRestartProbe::Pending(pending))
                && pending@ == reason,
            ProbeView::Changed(detail) => probe matches Err(err) && err@ == KvErrorOf::Api(
                ApiErrorOf::Unknown { detail },
            ),
            ProbeView::Ready => probe matches Ok(OwnerRestartProbe::Ready(payload)) && input.read
                == (SharedJsonRead::Read {
                before: payload.signature,
                meta: payload.meta,
                after: payload.signature,
            }),
        },
{
    if !input.mmap_file_ready {
        let reason = "shared memory mmap.file not ready yet: path=".to_owned().concat(
            expected.shared_memory_path,
        );
        return Ok(OwnerRestartProbe::Pending(reason));
    }
    if !input.shared_json_ready {
        let reason = "shared metadata shared.json not ready yet: path=".to_owned().concat(
            expected.shared_file_path,
        );
        return Ok(OwnerRestartProbe::Pending(reason));
    }
    let path = shared_meta_path(expected.shared_file_path);
    match input.read {
        SharedJsonRead::Failed { error } => {
            let reason = "shared.json not ready or invalid yet: path=".to_owned().concat(
                path.as_str(),
            ).concat(" err=").concat(error.as_str());
            Ok(OwnerRestartProbe::Pending(reason))
        },
        SharedJsonRead::Read { before, meta, after } => {
            match read_shared_json_snapshot(before, meta, after) {
                None => {
                    let reason =
                        "shared.json changed while being read; retrying: path=".to_owned().concat(
                        path.as_str(),
                    );
                    Ok(OwnerRestartProbe::Pending(reason))
                },
                Some((meta, signature)) => probe_description(
                    expected,
                    meta,
                    signature,
                    &input.owner_member,
                ),
            }
        },
    }
}

fn probe_description(
    expected: &OwnerProbeExpectation<'_>,
    meta: SharedJsonMeta,
    signature: SharedMetaSignature,
    owner_member: &Option<ClusterMember>,
) -> (probe: KvResult<OwnerRestartProbe>)
    ensures
        match probe_meta(*expected, meta, signature, *owner_member) {
            ProbeView::Pending(reason) => probe matches Ok(OwnerRestartProbe::Pending(pending))
                && pending@ == reason,
            ProbeView::Changed(detail) => probe matches Err(err) && err@ == KvErrorOf::Api(
                ApiErrorOf::Unknown { detail },
            ),
            ProbeView::Ready => probe == Ok::<OwnerRestartProbe, KvError>(
                OwnerRestartProbe::Ready(OwnerRestartPayload { meta, signature }),
            ),
        },
{
    if !text::same_text(meta.protocol_version.as_str(), expected.expected_protocol_version) {
        let reason =
            "shared.json protocol_version mismatch; waiting: shm_dir='".to_owned().concat(
            expected.shared_memory_path,
        ).concat("' shared='").concat(meta.protocol_version.as_str()).concat("' local='").concat(
            expected.expected_protocol_version,
        ).concat("'");
        return Ok(OwnerRestartProbe::Pending(reason));
    }
    if !text::same_text(meta.cluster_name.as_str(), expected.expected_cluster_name) {
        let reason = "shared.json cluster_name mismatch; waiting: shm_dir='".to_owned().concat(
            expected.shared_memory_path,
        ).concat("' shared='").concat(meta.cluster_name.as_str()).concat("' local='").concat(
            expected.expected_cluster_name,
        ).concat("'");
        return Ok(OwnerRestartProbe::Pending(reason));
    }
    if let Some(old_owner_id) = expected.old_owner_id {
        if !text::same_text(meta.owner_id.as_str(), old_owner_id) {
            let detail =
                "shared.json owner_id changed unexpectedly: old_owner_id=".to_owned().concat(
                old_owner_id,
            ).concat(" new_owner_id=").concat(meta.owner_id.as_str());
            return Err(KvErrorOf::Api(ApiErrorOf::Unknown { detail }));
        }
    }
    let path = shared_meta_path(expected.shared_file_path);
    let written: i64 = match meta.write_ts {
        Some(ts) => ts,
        None => 0,
    };
    if expected.current_signature.is_none() && written <= expected.wait_start_ts {
        let mut reason = "shared.json write_ts is not newer yet: path=".to_owned().concat(
            path.as_str(),
        ).concat(" write_ts=");
        text::append_i64(&mut reason, written);
        reason.append(" wait_start_ts=");
        text::append_i64(&mut reason, expected.wait_start_ts);
        return Ok(OwnerRestartProbe::Pending(reason));
    }
    match owner_member {
        None => {
            let mut reason =
                "shared.json observed but owner member is not in cache yet: owner_id=".to_owned().concat(
            meta.owner_id.as_str()).concat(" shared_start_time=");
            text::append_i64(&mut reason, meta.node_start_time);
            return Ok(OwnerRestartProbe::Pending(reason));
        },
        Some(member) => {
            if member.node_start_time != meta.node_start_time {
                let mut reason = "owner generation mismatch: owner_id=".to_owned().concat(
                    meta.owner_id.as_str(),
                ).concat(" cluster_start_time=");
                text::append_i64(&mut reason, member.node_start_time);
                reason.append(" shared_start_time=");
                text::append_i64(&mut reason, meta.node_start_time);
                return Ok(OwnerRestartProbe::Pending(reason));
            }
        },
    }
    if let Some(prev_signature) = expected.current_signature {
        if signature == prev_signature {
            let mut reason =
                "shared.json unchanged after cluster convergence: owner_id=".to_owned().concat(
                meta.owner_id.as_str(),
            ).concat(" start_time=");
            text::append_i64(&mut reason, meta.node_start_time);
            reason.append(" path=");
            return Ok(OwnerRestartProbe::Pending(reason.concat(path.as_str())));
        }
    }
    Ok(OwnerRestartProbe::Ready(OwnerRestartPayload { meta, signature }))
}

/// An owner that a probe finds ready is the one that was looked for, in a generation that the
/// cluster knows, of the expected cluster and protocol.
pub proof fn law_ready_owner_is_consistent(
    expected: OwnerProbeExpectation<'_>,
    input: OwnerProbeInput,
)
    requires
        probe_outcome(expected, input) is Ready,
    ensures
        input.read matches SharedJsonRead::Read { before, meta, after } && {
            &&& before == after
            &&& meta.cluster_name@ == expected.expected_cluster_name@
            &&& meta.protocol_version@ == expected.expected_protocol_version@
            &&& input.owner_member matches Some(member) && member.node_start_time
                == meta.node_start_time
            &&& expected.old_owner_id matches Some(old_id) ==> old_id@ == meta.owner_id@
            &&& expected.current_signature != Some(after)
        },
{
}

/// The state of an external client.
pub struct ExternalInner {
    /// None until ready
    pub current_owner: Option<CurrentOwner>,
    pub expected_cluster_name: String,
    pub expected_protocol_version: String,
    pub external_shared_memory_path: String,
    pub external_shared_file_path: String,
    pub enable_side_transfer: bool,
    pub short_circuit_put_payload_path: bool,
    pub side_rr_next: usize,
    pub side_transfer_put_bindings: SideTransferBindings,
    /// key -> memory holder that was handed out for it
    pub key_weak_memholder_index: WeakIndex,
}

/// The error for an owner that is not attached yet.
pub open spec fn memory_not_ready() -> KvErrorOf<Seq<char>> {
    KvErrorOf::SharedMem(
        SharedMemErrorOf::NotConfigured { node_id: None, detail: Some("Shared memory not ready"@) },
    )
}

/// The error for an owner whose id is not known.
pub open spec fn owner_id_unavailable() -> KvErrorOf<Seq<char>> {
    KvErrorOf::SharedMem(
        SharedMemErrorOf::NotConfigured {
            node_id: None,
            detail: Some("Shared storage node id unavailable"@),
        },
    )
}

/// The error for a wait that the shutdown ends.
pub open spec fn recovery_aborted() -> KvErrorOf<Seq<char>> {
    KvErrorOf::Api(
        ApiErrorOf::SystemShutdown { detail: "Owner recovery wait aborted due to shutdown"@ },
    )
}

/// How a client goes on after a call failed for the transport.
pub enum RecoverStep {
    /// The memory at this address can be used, in the generation given.
    Ready { owner_start_time: i64, base_addr: u64 },
    /// The owner has to be waited for.
    Wait,
    Failed(KvError),
}

impl ExternalInner {
    pub fn construct(arg: ExternalClientApiNewArg) -> (inner: Self)
        ensures
            inner.current_owner is None,
            inner.expected_cluster_name == arg.expected_cluster_name,
            inner.expected_protocol_version == arg.expected_protocol_version,
            inner.external_shared_memory_path == arg.shared_memory_path,
            inner.external_shared_file_path == arg.shared_file_path,
            inner.enable_side_transfer == arg.enable_side_transfer,
            inner.short_circuit_put_payload_path == arg.short_circuit_put_payload_path,
            inner.side_rr_next == 0,
            inner.side_transfer_put_bindings@ == Map::<(u64, u32), (Seq<char>, u16)>::empty(),
            inner.key_weak_memholder_index@ == Map::<Seq<char>, u64>::empty(),
    {
        ExternalInner {
            current_owner: None,
            expected_cluster_name: arg.expected_cluster_name,
            expected_protocol_version: arg.expected_protocol_version,
            external_shared_memory_path: arg.shared_memory_path,
            external_shared_file_path: arg.shared_file_path,
            enable_side_transfer: arg.enable_side_transfer,
            short_circuit_put_payload_path: arg.short_circuit_put_payload_path,
            side_rr_next: 0,
            side_transfer_put_bindings: SideTransferBindings::new(),
            key_weak_memholder_index: WeakIndex::new(),
        }
    }

    /// The generation of the owner that the client is attached to; zero where there is none.
    pub open spec fn owner_start_time(self) -> i64 {
        match self.current_owner {
            Some(owner) => owner.owner_start_time,
            None => 0,
        }
    }

    pub fn current_owner_start_time(&self) -> (start_time: i64)
        ensures
            start_time == self.owner_start_time(),
    {
        match &self.current_owner {
            Some(owner) => owner.owner_start_time,
            None => 0,
        }
    }

    /// Get the shared storage node ID this client connects to
    pub fn shared_storage_node_id(&self) -> (node_id: Option<String>)
        ensures
            match self.current_owner {
                Some(owner) => node_id == Some(owner.node_id),
                None => node_id is None,
            },
    {
        match &self.current_owner {
            Some(owner) => Some(owner.node_id.clone()),
            None => None,
        }
    }

    /// Get the configured shared-memory base path.
    pub fn shared_memory_path(&self) -> (path: String)
        ensures
            path == self.external_shared_memory_path,
    {
        self.external_shared_memory_path.clone()
    }

    /// Get the configured shared-file base path.
    pub fn shared_file_path(&self) -> (path: String)
        ensures
            path == self.external_shared_file_path,
    {
        self.external_shared_file_path.clone()
    }

    /// The owner to send a request to.
    pub fn owner_to_call(&self) -> (owner: KvResult<String>)
        ensures
            match self.current_owner {
                Some(current) => owner == Ok::<String, KvError>(current.node_id),
                None => owner matches Err(err) && err@ == owner_id_unavailable(),
            },
    {
        match &self.current_owner {
            Some(owner) => Ok(owner.node_id.clone()),
            None => Err(
                KvErrorOf::SharedMem(
                    SharedMemErrorOf::NotConfigured {
                        node_id: None,
                        detail: Some("Shared storage node id unavailable".to_owned()),
                    },
                ),
            ),
        }
    }

    /// Where the owner's memory can be written; an error while it is not ready.
    pub fn base_ptr(&self) -> (addr: KvResult<u64>)
        ensures
            match self.current_owner {
                Some(owner) => addr == Ok::<u64, KvError>(owner.shared_memory.ptr_rw),
                None => addr matches Err(err) && err@ == memory_not_ready(),
            },
    {
        match &self.current_owner {
            Some(owner) => Ok(owner.shared_memory.ptr_rw),
            None => Err(not_ready()),
        }
    }

    /// Where the owner's memory can be read; an error while it is not ready.
    pub fn base_ptr_ro(&self) -> (addr: KvResult<u64>)
        ensures
            match self.current_owner {
                Some(owner) => addr == Ok::<u64, KvError>(owner.shared_memory.ptr_ro),
                None => addr matches Err(err) && err@ == memory_not_ready(),
            },
    {
        match &self.current_owner {
            Some(owner) => Ok(owner.shared_memory.ptr_ro),
            None => Err(not_ready()),
        }
    }

    /// The generation and the memory of the owner, if it is of another generation than the one given.
    pub open spec fn awaited_owner(self, prev_owner_start_time: i64) -> Option<(i64, u64)> {
        match self.current_owner {
            Some(owner) => if owner.owner_start_time == prev_owner_start_time {
                None
            } else {
                Some((owner.owner_start_time, owner.shared_memory.ptr_rw))
            },
            None => None,
        }
    }

    /// The memory of the owner, if it is of another generation than the one that a call failed in.
    pub fn current_owner_base_if_advanced(&self, prev_owner_start_time: i64) -> (base: Option<
        (i64, u64),
    >)
        ensures
            base == self.awaited_owner(prev_owner_start_time),
    {
        match &self.current_owner {
            Some(owner) => {
                if owner.owner_start_time == prev_owner_start_time {
                    return None;
                }
                Some((owner.owner_start_time, owner.shared_memory.ptr_rw))
            },
            None => None,
        }
    }

    /// The cluster knows the owner in the generation that the client is attached to.
    pub open spec fn owner_present_in(self, owner_member: Option<ClusterMember>) -> bool {
        owner_member matches Some(member) && member.node_start_time == self.owner_start_time()
    }

    /// The wait for the owner at start-up is over. `owner_member` is what the cluster knows of the
    /// owner.
    pub fn owner_present(&self, owner_member: &Option<ClusterMember>) -> (present: bool)
        ensures
            present == self.owner_present_in(*owner_member),
    {
        match owner_member {
            Some(member) => member.node_start_time == self.current_owner_start_time(),
            None => false,
        }
    }

    /// The cluster knows the owner in another generation than the one that a call failed in.
    pub open spec fn generation_changed(
        self,
        owner_member: Option<ClusterMember>,
        prev_owner_start_time: i64,
    ) -> bool {
        self.current_owner is Some && owner_member is Some && owner_member->0.node_start_time
            != prev_owner_start_time
    }

    pub fn owner_generation_changed_in_cluster(
        &self,
        owner_member: &Option<ClusterMember>,
        prev_owner_start_time: i64,
    ) -> (changed: bool)
        ensures
            changed == self.generation_changed(*owner_member, prev_owner_start_time),
    {
        if self.current_owner.is_none() {
            return false;
        }
        match owner_member {
            Some(member) => member.node_start_time != prev_owner_start_time,
            None => false,
        }
    }

    /// What a wait for the owner has come to: over once the owner's memory is mapped in another
    /// generation than the one given, given up on shutdown.
    pub fn wait_owner_recover(&self, prev_owner_start_time: i64, running: bool) -> (step:
        RecoverStep)
        ensures
            match self.awaited_owner(prev_owner_start_time) {
                Some((owner_start_time, base_addr)) => step == (RecoverStep::Ready {
                    owner_start_time,
                    base_addr,
                }),
                None => if running {
                    step == RecoverStep::Wait
                } else {
                    step matches RecoverStep::Failed(err) && err@ == recovery_aborted()
                },
            },
    {
        if let Some((owner_start_time, base_addr)) = self.current_owner_base_if_advanced(
            prev_owner_start_time,
        ) {
            return RecoverStep::Ready { owner_start_time, base_addr };
        }
        if !running {
            return RecoverStep::Failed(
                KvErrorOf::Api(
                    ApiErrorOf::SystemShutdown {
                        detail: "Owner recovery wait aborted due to shutdown".to_owned(),
                    },
                ),
            );
        }
        RecoverStep::Wait
    }

    /// A call needs the owner's memory: used as it is mapped, and else waited for.
    pub fn ensure_owner_ready(&self, prev_owner_start_time: i64) -> (step: RecoverStep)
        ensures
            step == match self.current_owner {
                Some(owner) => RecoverStep::Ready {
                    owner_start_time: prev_owner_start_time,
                    base_addr: owner.shared_memory.ptr_rw,
                },
                None => RecoverStep::Wait,
            },
    {
        match self.base_ptr() {
            Ok(base_addr) => RecoverStep::Ready {
                owner_start_time: prev_owner_start_time,
                base_addr,
            },
            Err(_) => RecoverStep::Wait,
        }
    }

    /// A call failed for the transport: while the cluster shows no other generation of the owner,
    /// the memory stays in use; and else the owner is waited for.
    pub fn recover_after_p2p_error(
        &self,
        owner_member: &Option<ClusterMember>,
        prev_owner_start_time: i64,
    ) -> (step: RecoverStep)
        ensures
            step == match self.current_owner {
                Some(owner) if !self.generation_changed(*owner_member, prev_owner_start_time) => {
                    RecoverStep::Ready {
                        owner_start_time: prev_owner_start_time,
                        base_addr: owner.shared_memory.ptr_rw,
                    }
                },
                _ => RecoverStep::Wait,
            },
    {
        if !self.owner_generation_changed_in_cluster(owner_member, prev_owner_start_time) {
            return self.ensure_owner_ready(prev_owner_start_time);
        }
        RecoverStep::Wait
    }

    /// Attaches the client to the owner that a probe found, whose memory was mapped. What was
    /// handed out before is not handed out again.
    pub fn remap_shared_memory_with_payload(
        &mut self,
        shared_memory: SharedMemoryPtr,
        payload: &OwnerRestartPayload,
    )
        ensures
            final(self).current_owner == Some(
                CurrentOwner {
                    node_id: payload.meta.owner_id,
                    owner_start_time: payload.meta.node_start_time,
                    shared_memory,
                },
            ),
            final(self).key_weak_memholder_index@ == Map::<Seq<char>, u64>::empty(),
            final(self).expected_cluster_name == old(self).expected_cluster_name,
            final(self).expected_protocol_version == old(self).expected_protocol_version,
            final(self).external_shared_memory_path == old(self).external_shared_memory_path,
            final(self).external_shared_file_path == old(self).external_shared_file_path,
            final(self).enable_side_transfer == old(self).enable_side_transfer,
            final(self).short_circuit_put_payload_path == old(self).short_circuit_put_payload_path,
            final(self).side_rr_next == old(self).side_rr_next,
            final(self).side_transfer_put_bindings == old(self).side_transfer_put_bindings,
    {
        self.current_owner = Some(
            CurrentOwner {
                node_id: payload.meta.owner_id.clone(),
                owner_start_time: payload.meta.node_start_time,
                shared_memory,
            },
        );
        self.key_weak_memholder_index.clear();
    }

    /// The memory holder that still stands for the value of a key, if there is one. `live` tells of
    /// the holder that the index names whether it still exists, and of which generation of the
    /// owner it is.
    pub open spec fn weak_holder(self, key: Seq<char>, live: Option<i64>) -> Option<u64> {
        let index = self.key_weak_memholder_index@;
        if index.contains_key(key) && live == Some(self.owner_start_time()) {
            Some(index[key])
        } else {
            None
        }
    }

    /// The client after a holder was looked for: a holder that does not stand for the value leaves
    /// the index.
    pub open spec fn looked_up(self, after: ExternalInner, key: Seq<char>, live: Option<i64>) -> bool {
        &&& after.key_weak_memholder_index@ == if self.weak_holder(key, live) is Some {
            self.key_weak_memholder_index@
        } else {
            self.key_weak_memholder_index@.remove(key)
        }
        &&& after == (ExternalInner {
            key_weak_memholder_index: after.key_weak_memholder_index,
            ..self
        })
    }

    /// Finds a memory holder that was handed out for the key. One that is gone, or of another
    /// generation of the owner, leaves the index.
    pub fn try_get_from_weak_cache(&mut self, key: &str, live: Option<i64>) -> (found: Option<u64>)
        ensures
            found == old(self).weak_holder(key@, live),
            old(self).looked_up(*final(self), key@, live),
    {
        let current: i64 = self.current_owner_start_time();
        match self.key_weak_memholder_index.get(key) {
            Some(holder) => {
                let usable = match live {
                    Some(generation) => generation == current,
                    None => false,
                };
                if usable {
                    return Some(holder);
                }
                self.key_weak_memholder_index.remove(key);
                None
            },
            None => {
                assert(self.key_weak_memholder_index@.remove(key@)
                    =~= self.key_weak_memholder_index@);
                None
            },
        }
    }
}

fn not_ready() -> (err: KvError)
    ensures
        err@ == memory_not_ready(),
{
    KvErrorOf::SharedMem(
        SharedMemErrorOf::NotConfigured {
            node_id: None,
            detail: Some("Shared memory not ready".to_owned()),
        },
    )
}

/// A wait for the owner ends only in another generation than the one that a call failed in, and
/// a new mapping of another generation ends it.
pub proof fn law_recovery_moves_to_another_generation(
    inner: ExternalInner,
    remapped: ExternalInner,
    prev_owner_start_time: i64,
)
    ensures
        inner.awaited_owner(prev_owner_start_time) matches Some((owner_start_time, base_addr))
            ==> owner_start_time != prev_owner_start_time && owner_start_time
            == inner.owner_start_time(),
        remapped.current_owner is Some && remapped.owner_start_time() != prev_owner_start_time
            ==> remapped.awaited_owner(prev_owner_start_time) == Some(
            (remapped.owner_start_time(), remapped.current_owner->0.shared_memory.ptr_rw),
        ),
{
}

} // verus!
