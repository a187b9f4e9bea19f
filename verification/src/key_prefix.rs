//! Counting keys by prefix, as clients ask the master for it.

use crate::error::{KvError, KvResult};
use crate::master_kv_router::msg_pack::{CountPrefixReq, CountPrefixResp};
use crate::p2p::{MsgId, P2pCallers};
use vstd::prelude::*;

verus! {

/// How long a client waits for a count.
pub const COUNT_PREFIX_RPC_TIMEOUT_SECS: u64 = 60;

/// Registers the request with the transport. Clients of both roles do so when they start.
pub fn init_for_p2p_owner(p2p: &mut P2pCallers)
    ensures
        forall|id: MsgId| #[trigger]
            final(p2p).can_call(id) <==> old(p2p).can_call(id) || id == MsgId::CountPrefixReq,
{
    p2p.regist(MsgId::CountPrefixReq);
}

/// The request that is sent to the master.
pub fn count_prefix_request(prefix: &str) -> (req: CountPrefixReq)
    ensures
        req.prefix@ == prefix@,
{
    CountPrefixReq { prefix: prefix.to_owned() }
}

/// What the master's answer says: its count, unless it says that the request failed. `outcome` is
/// what the answer's error code stands for.
pub fn count_prefix_result(outcome: KvResult<()>, resp: &CountPrefixResp) -> (count: KvResult<u64>)
    ensures
        match outcome {
            Ok(_) => count == Ok::<u64, KvError>(resp.count),
            Err(err) => count == Err::<u64, KvError>(err),
        },
{
    match outcome {
        Ok(_) => Ok(resp.count),
        Err(err) => Err(err),
    }
}

} // verus!
