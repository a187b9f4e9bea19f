//! Messages of lease management.

use crate::p2p::{ErrorCode, MsgId, MsgPackSerializePart, RPCReq};
use vstd::prelude::*;

verus! {

#[derive(Debug, Clone, Copy)]
pub struct AllocateClientLeaseReq {
    /// Requested TTL seconds for the client lease.
    ///
    /// It must be at least `MasterLeaseManager::MIN_CLIENT_TTL_SECONDS`, otherwise InvalidTTL is
    /// returned. The value 0 does not mean "use default".
    pub requested_ttl_seconds: u64,
}

#[derive(Debug)]
pub struct AllocateClientLeaseResp {
    pub error_code: ErrorCode,
    pub error_json: String,
    pub lease_id: u64,
    pub ttl_seconds: u64,
}

#[derive(Debug, Clone, Copy)]
pub struct ClientLeaseKeepaliveReq {
    pub lease_id: u64,
    /// Optional custom TTL in seconds encoded as:
    ///   - 0: no custom TTL override (server uses the lease's own TTL)
    ///   - x>0: one-shot custom TTL override for this keepalive
    pub custom_ttl: u64,
}

#[derive(Debug)]
pub struct ClientLeaseKeepaliveResp {
    pub error_code: ErrorCode,
    pub error_json: String,
}

impl MsgPackSerializePart for AllocateClientLeaseReq {
    open spec fn id_of_message(&self) -> MsgId {
        MsgId::AllocateClientLeaseReq
    }

    fn msg_id(&self) -> MsgId {
        MsgId::AllocateClientLeaseReq
    }
}

impl MsgPackSerializePart for AllocateClientLeaseResp {
    open spec fn id_of_message(&self) -> MsgId {
        MsgId::AllocateClientLeaseResp
    }

    fn msg_id(&self) -> MsgId {
        MsgId::AllocateClientLeaseResp
    }
}

impl RPCReq for AllocateClientLeaseReq {
    type Resp = AllocateClientLeaseResp;
}

impl MsgPackSerializePart for ClientLeaseKeepaliveReq {
    open spec fn id_of_message(&self) -> MsgId {
        MsgId::ClientLeaseKeepaliveReq
    }

    fn msg_id(&self) -> MsgId {
        MsgId::ClientLeaseKeepaliveReq
    }
}

impl MsgPackSerializePart for ClientLeaseKeepaliveResp {
    open spec fn id_of_message(&self) -> MsgId {
        MsgId::ClientLeaseKeepaliveResp
    }

    fn msg_id(&self) -> MsgId {
        MsgId::ClientLeaseKeepaliveResp
    }
}

impl RPCReq for ClientLeaseKeepaliveReq {
    type Resp = ClientLeaseKeepaliveResp;
}

} // verus!
