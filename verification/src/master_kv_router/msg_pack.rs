//! Messages of the key-value protocol between clients and the master.

use super::put::PutIDForAKey;
use crate::cluster_manager::NodeIDString;
use crate::p2p::{ErrorCode, MsgId, MsgPackSerializePart, RPCReq};
use std::collections::HashMap;
use vstd::prelude::*;

verus! {

/// Whose memory a get is served into.
#[derive(Default, Debug, Clone, Copy, PartialEq, Eq, Structural)]
pub enum GetAllocationMode {
    /// Memory that is freed with the holder.
    #[default]
    Temporary,
    /// The replica that the requester has already.
    ReuseReplica,
    /// Memory that becomes a replica.
    DurableReplica,
}

#[derive(Default, Debug)]
pub struct GetStartReq {
    pub key: String,
}

impl MsgPackSerializePart for GetStartReq {
    open spec fn id_of_message(&self) -> MsgId {
        MsgId::GetStartReq
    }

    fn msg_id(&self) -> MsgId {
        MsgId::GetStartReq
    }
}

#[derive(Default, Debug)]
pub struct GetStartResp {
    pub get_id: u64,
    pub node_id: NodeIDString,
    pub put_id: PutIDForAKey,
    /// Absolute address: the transfer engine does not take offsets.
    pub target_addr: u64,
    pub src_addr: u64,
    /// Base address, to convert an absolute address to an offset.
    pub target_base_addr: u64,
    pub src_base_addr: u64,
    pub len: u64,
    pub error_code: ErrorCode,
    pub error_json: String,
    /// Server-side processing time in microseconds for this RPC handler
    pub server_process_us: i64,
}

impl MsgPackSerializePart for GetStartResp {
    open spec fn id_of_message(&self) -> MsgId {
        MsgId::GetStartResp
    }

    fn msg_id(&self) -> MsgId {
        MsgId::GetStartResp
    }
}

#[derive(Default, Debug)]
pub struct GetRevokeReq {
    pub get_id: u64,
}

impl MsgPackSerializePart for GetRevokeReq {
    open spec fn id_of_message(&self) -> MsgId {
        MsgId::GetRevokeReq
    }

    fn msg_id(&self) -> MsgId {
        MsgId::GetRevokeReq
    }
}

#[derive(Default, Debug)]
pub struct GetRevokeResp {
    pub error_code: ErrorCode,
    pub error_json: String,
}

impl MsgPackSerializePart for GetRevokeResp {
    open spec fn id_of_message(&self) -> MsgId {
        MsgId::GetRevokeResp
    }

    fn msg_id(&self) -> MsgId {
        MsgId::GetRevokeResp
    }
}

#[derive(Default, Debug)]
pub struct GetDoneReq {
    pub get_id: u64,
}

impl MsgPackSerializePart for GetDoneReq {
    open spec fn id_of_message(&self) -> MsgId {
        MsgId::GetDoneReq
    }

    fn msg_id(&self) -> MsgId {
        MsgId::GetDoneReq
    }
}

#[derive(Default, Debug)]
pub struct GetDoneResp {
    pub holder_id: u64,
    pub allocation_mode: GetAllocationMode,
    pub error_code: ErrorCode,
    pub error_json: String,
    /// Server-side processing time in microseconds for this RPC handler
    pub server_process_us: i64,
}

impl MsgPackSerializePart for GetDoneResp {
    open spec fn id_of_message(&self) -> MsgId {
        MsgId::GetDoneResp
    }

    fn msg_id(&self) -> MsgId {
        MsgId::GetDoneResp
    }
}

#[derive(Default, Debug)]
pub struct CountPrefixReq {
    pub prefix: String,
}

impl MsgPackSerializePart for CountPrefixReq {
    open spec fn id_of_message(&self) -> MsgId {
        MsgId::CountPrefixReq
    }

    fn msg_id(&self) -> MsgId {
        MsgId::CountPrefixReq
    }
}

#[derive(Default, Debug)]
pub struct CountPrefixResp {
    pub count: u64,
    pub error_code: ErrorCode,
    pub error_json: String,
}

impl MsgPackSerializePart for CountPrefixResp {
    open spec fn id_of_message(&self) -> MsgId {
        MsgId::CountPrefixResp
    }

    fn msg_id(&self) -> MsgId {
        MsgId::CountPrefixResp
    }
}

#[derive(Default, Debug)]
pub struct GetMasterOnlyMetricPartReq {
    /// E.g. "segment_bytes"
    pub part: String,
}

impl MsgPackSerializePart for GetMasterOnlyMetricPartReq {
    open spec fn id_of_message(&self) -> MsgId {
        MsgId::GetMasterOnlyMetricPartReq
    }

    fn msg_id(&self) -> MsgId {
        MsgId::GetMasterOnlyMetricPartReq
    }
}

#[derive(Default, Debug)]
pub struct GetMasterOnlyMetricPartResp {
    /// Used when part=="segment_bytes"
    pub seg_bytes_map: HashMap<String, (u64, u64)>,
    pub error_code: ErrorCode,
    pub error_json: String,
}

impl MsgPackSerializePart for GetMasterOnlyMetricPartResp {
    open spec fn id_of_message(&self) -> MsgId {
        MsgId::GetMasterOnlyMetricPartResp
    }

    fn msg_id(&self) -> MsgId {
        MsgId::GetMasterOnlyMetricPartResp
    }
}

#[derive(Default, Debug)]
pub struct PutStartReq {
    pub key: String,
    pub len: u64,
    pub reject_if_inflight_same_key: bool,
    /// Prefer placing the target allocation on any kvclient within this sub_cluster.
    pub preferred_sub_cluster: Option<String>,
    /// Optional source-node override for side-transfer workers that share an owner's mmap.
    pub source_node_id: Option<NodeIDString>,
}

impl MsgPackSerializePart for PutStartReq {
    open spec fn id_of_message(&self) -> MsgId {
        MsgId::PutStartReq
    }

    fn msg_id(&self) -> MsgId {
        MsgId::PutStartReq
    }
}

#[derive(Default, Debug)]
pub struct PutStartResp {
    pub put_id: PutIDForAKey,
    pub node_id: NodeIDString,
    /// Absolute address: the transfer engine does not take offsets.
    pub target_addr: u64,
    pub src_addr: u64,
    /// Base address, to convert an absolute address to an offset.
    pub target_base_addr: u64,
    pub src_base_addr: u64,
    pub len: u64,
    pub error_code: ErrorCode,
    pub error_json: String,
    /// Server-side processing time in microseconds for this RPC handler
    pub server_process_us: i64,
}

impl MsgPackSerializePart for PutStartResp {
    open spec fn id_of_message(&self) -> MsgId {
        MsgId::PutStartResp
    }

    fn msg_id(&self) -> MsgId {
        MsgId::PutStartResp
    }
}

#[derive(Default, Debug)]
pub struct PutRevokeReq {
    pub key: String,
    pub put_id: PutIDForAKey,
}

impl MsgPackSerializePart for PutRevokeReq {
    open spec fn id_of_message(&self) -> MsgId {
        MsgId::PutRevokeReq
    }

    fn msg_id(&self) -> MsgId {
        MsgId::PutRevokeReq
    }
}

#[derive(Default, Debug)]
pub struct PutRevokeResp {
    pub error_code: ErrorCode,
    pub error_json: String,
}

impl MsgPackSerializePart for PutRevokeResp {
    open spec fn id_of_message(&self) -> MsgId {
        MsgId::PutRevokeResp
    }

    fn msg_id(&self) -> MsgId {
        MsgId::PutRevokeResp
    }
}

#[derive(Default, Debug)]
pub struct PutDoneReq {
    pub key: String,
    pub put_id: PutIDForAKey,
    /// Optional lease to attach this key to on commit
    pub lease_id: Option<u64>,
}

impl MsgPackSerializePart for PutDoneReq {
    open spec fn id_of_message(&self) -> MsgId {
        MsgId::PutDoneReq
    }

    fn msg_id(&self) -> MsgId {
        MsgId::PutDoneReq
    }
}

#[derive(Default, Debug)]
pub struct PutDoneResp {
    pub error_code: ErrorCode,
    pub error_json: String,
    /// Server-side processing time in microseconds for this RPC handler
    pub server_process_us: i64,
}

impl MsgPackSerializePart for PutDoneResp {
    open spec fn id_of_message(&self) -> MsgId {
        MsgId::PutDoneResp
    }

    fn msg_id(&self) -> MsgId {
        MsgId::PutDoneResp
    }
}

#[derive(Default, Debug)]
pub struct MemHolderKeepAliveReq {
    pub holder_id: u64,
}

impl MsgPackSerializePart for MemHolderKeepAliveReq {
    open spec fn id_of_message(&self) -> MsgId {
        MsgId::MemHolderKeepAliveReq
    }

    fn msg_id(&self) -> MsgId {
        MsgId::MemHolderKeepAliveReq
    }
}

#[derive(Default, Debug)]
pub struct MemHolderKeepAliveResp {
    pub error_code: ErrorCode,
    pub error_json: String,
}

impl MsgPackSerializePart for MemHolderKeepAliveResp {
    open spec fn id_of_message(&self) -> MsgId {
        MsgId::MemHolderKeepAliveResp
    }

    fn msg_id(&self) -> MsgId {
        MsgId::MemHolderKeepAliveResp
    }
}

#[derive(Default, Debug)]
pub struct MemHolderReleaseReq {
    pub holder_id: u64,
}

impl MsgPackSerializePart for MemHolderReleaseReq {
    open spec fn id_of_message(&self) -> MsgId {
        MsgId::MemHolderReleaseReq
    }

    fn msg_id(&self) -> MsgId {
        MsgId::MemHolderReleaseReq
    }
}

#[derive(Default, Debug)]
pub struct MemHolderReleaseResp {
    pub error_code: ErrorCode,
    pub error_json: String,
}

impl MsgPackSerializePart for MemHolderReleaseResp {
    open spec fn id_of_message(&self) -> MsgId {
        MsgId::MemHolderReleaseResp
    }

    fn msg_id(&self) -> MsgId {
        MsgId::MemHolderReleaseResp
    }
}

#[derive(Default, Debug)]
pub struct DeleteReq {
    pub key: String,
}

impl MsgPackSerializePart for DeleteReq {
    open spec fn id_of_message(&self) -> MsgId {
        MsgId::DeleteReq
    }

    fn msg_id(&self) -> MsgId {
        MsgId::DeleteReq
    }
}

#[derive(Default, Debug)]
pub struct DeleteResp {
    pub error_code: ErrorCode,
    pub error_json: String,
}

impl MsgPackSerializePart for DeleteResp {
    open spec fn id_of_message(&self) -> MsgId {
        MsgId::DeleteResp
    }

    fn msg_id(&self) -> MsgId {
        MsgId::DeleteResp
    }
}

#[derive(Default, Debug)]
pub struct DeleteAckReq {
    pub key: String,
    pub client_id: String,
    pub holder_id: u64,
}

impl MsgPackSerializePart for DeleteAckReq {
    open spec fn id_of_message(&self) -> MsgId {
        MsgId::DeleteAckReq
    }

    fn msg_id(&self) -> MsgId {
        MsgId::DeleteAckReq
    }
}

#[derive(Default, Debug)]
pub struct DeleteAckResp {
    pub error_code: ErrorCode,
    pub error_json: String,
}

impl MsgPackSerializePart for DeleteAckResp {
    open spec fn id_of_message(&self) -> MsgId {
        MsgId::DeleteAckResp
    }

    fn msg_id(&self) -> MsgId {
        MsgId::DeleteAckResp
    }
}

#[derive(Default, Debug)]
pub struct DeleteAckItem {
    pub key: String,
    pub client_id: String,
    pub holder_id: u64,
}

#[derive(Default, Debug)]
pub struct BatchDeleteAckReq {
    pub delete_acks: Vec<DeleteAckItem>,
}

impl MsgPackSerializePart for BatchDeleteAckReq {
    open spec fn id_of_message(&self) -> MsgId {
        MsgId::BatchDeleteAckReq
    }

    fn msg_id(&self) -> MsgId {
        MsgId::BatchDeleteAckReq
    }
}

#[derive(Default, Debug)]
pub struct BatchDeleteAckResp {
    pub deleted_count: u32,
    pub error_code: ErrorCode,
    pub error_json: String,
}

impl MsgPackSerializePart for BatchDeleteAckResp {
    open spec fn id_of_message(&self) -> MsgId {
        MsgId::BatchDeleteAckResp
    }

    fn msg_id(&self) -> MsgId {
        MsgId::BatchDeleteAckResp
    }
}

#[derive(Default, Debug)]
pub struct GetMetaReq {
    pub key: String,
}

impl MsgPackSerializePart for GetMetaReq {
    open spec fn id_of_message(&self) -> MsgId {
        MsgId::GetMetaReq
    }

    fn msg_id(&self) -> MsgId {
        MsgId::GetMetaReq
    }
}

#[derive(Default, Debug)]
pub struct GetMetaResp {
    pub exists: bool,
    pub len: u64,
    pub error_code: ErrorCode,
    pub error_json: String,
}

impl MsgPackSerializePart for GetMetaResp {
    open spec fn id_of_message(&self) -> MsgId {
        MsgId::GetMetaResp
    }

    fn msg_id(&self) -> MsgId {
        MsgId::GetMetaResp
    }
}

#[derive(Default, Debug)]
pub struct BatchDeleteClientKvMetaCacheReq {
    /// List of keys with their metadata for batch deletion
    pub delete_items: Vec<DeleteClientKvMetaCacheItem>,
}

impl MsgPackSerializePart for BatchDeleteClientKvMetaCacheReq {
    open spec fn id_of_message(&self) -> MsgId {
        MsgId::BatchDeleteClientKvMetaCacheReq
    }

    fn msg_id(&self) -> MsgId {
        MsgId::BatchDeleteClientKvMetaCacheReq
    }
}

#[derive(Default, Debug)]
pub struct DeleteClientKvMetaCacheItem {
    pub key: String,
    pub put_time_ms: u64,
    pub put_version: u32,
}

#[derive(Default, Debug)]
pub struct BatchDeleteClientKvMetaCacheResp {
    pub deleted_count: u32,
    pub error_code: ErrorCode,
    pub error_json: String,
}

impl MsgPackSerializePart for BatchDeleteClientKvMetaCacheResp {
    open spec fn id_of_message(&self) -> MsgId {
        MsgId::BatchDeleteClientKvMetaCacheResp
    }

    fn msg_id(&self) -> MsgId {
        MsgId::BatchDeleteClientKvMetaCacheResp
    }
}

impl RPCReq for GetStartReq {
    type Resp = GetStartResp;
}

impl RPCReq for GetRevokeReq {
    type Resp = GetRevokeResp;
}

impl RPCReq for GetDoneReq {
    type Resp = GetDoneResp;
}

impl RPCReq for CountPrefixReq {
    type Resp = CountPrefixResp;
}

impl RPCReq for GetMasterOnlyMetricPartReq {
    type Resp = GetMasterOnlyMetricPartResp;
}

impl RPCReq for PutStartReq {
    type Resp = PutStartResp;
}

impl RPCReq for PutRevokeReq {
    type Resp = PutRevokeResp;
}

impl RPCReq for PutDoneReq {
    type Resp = PutDoneResp;
}

impl RPCReq for MemHolderKeepAliveReq {
    type Resp = MemHolderKeepAliveResp;
}

impl RPCReq for MemHolderReleaseReq {
    type Resp = MemHolderReleaseResp;
}

impl RPCReq for DeleteReq {
    type Resp = DeleteResp;
}

impl RPCReq for DeleteAckReq {
    type Resp = DeleteAckResp;
}

impl RPCReq for BatchDeleteAckReq {
    type Resp = BatchDeleteAckResp;
}

impl RPCReq for GetMetaReq {
    type Resp = GetMetaResp;
}

impl RPCReq for BatchDeleteClientKvMetaCacheReq {
    type Resp = BatchDeleteClientKvMetaCacheResp;
}

} // verus!
