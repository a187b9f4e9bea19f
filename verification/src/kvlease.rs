//! Leases, as clients ask the master for them.

use crate::error::{KvError, KvResult};
use crate::master_lease_manager::msg_pack::{
    AllocateClientLeaseReq,
    AllocateClientLeaseResp,
    ClientLeaseKeepaliveReq,
};
use crate::p2p::{MsgId, P2pCallers};
use vstd::prelude::*;

verus! {

/// How long a client waits for an answer about a lease.
pub const LEASE_RPC_TIMEOUT_SECS: u64 = 10;

/// How often a request for a lease is tried again: without end.
pub const ALLOCATE_LEASE_RETRIES: usize = usize::MAX;

/// A request to keep a lease is not tried again.
pub const KEEPALIVE_LEASE_RETRIES: usize = 0;

/// Registers the requests with the transport. Clients of both roles do so when they start.
pub fn init_for_p2p_owner(p2p: &mut P2pCallers)
    ensures
        forall|id: MsgId| #[trigger]
            final(p2p).can_call(id) <==> old(p2p).can_call(id) || id
                == MsgId::AllocateClientLeaseReq || id == MsgId::ClientLeaseKeepaliveReq,
{
    p2p.regist(MsgId::AllocateClientLeaseReq);
    p2p.regist(MsgId::ClientLeaseKeepaliveReq);
}

/// The request for a lease.
pub fn allocate_lease_request(ttl_seconds: u64) -> (req: AllocateClientLeaseReq)
    ensures
        req.requested_ttl_seconds == ttl_seconds,
{
    AllocateClientLeaseReq { requested_ttl_seconds: ttl_seconds }
}

/// The lease that the master granted, unless it says that the request failed. `outcome` is what the
/// answer's error code stands for.
pub fn allocate_lease_result(outcome: KvResult<()>, resp: &AllocateClientLeaseResp) -> (lease_id:
    KvResult<u64>)
    ensures
        match outcome {
            Ok(_) => lease_id == Ok::<u64, KvError>(resp.lease_id),
            Err(err) => lease_id == Err::<u64, KvError>(err),
        },
{
    match outcome {
        Ok(_) => Ok(resp.lease_id),
        Err(err) => Err(err),
    }
}

/// The request to keep a lease for another of its own terms.
pub fn keepalive_lease_request(lease_id: u64) -> (req: ClientLeaseKeepaliveReq)
    ensures
        req.lease_id == lease_id,
        req.custom_ttl == 0,
{
    ClientLeaseKeepaliveReq { lease_id, custom_ttl: 0 }
}

} // verus!
