//! What the messages between nodes have in common.

use vstd::prelude::*;

verus! {

/// Code by which a response tells success from each error.
pub type ErrorCode = u32;

/// The code of a response without an error.
pub const OK: ErrorCode = 0;

/// The kinds of messages. Their numbers on the wire are assigned by the transport.
#[derive(Debug, Clone, Copy, PartialEq, Eq, Structural)]
pub enum MsgId {
    GetStartReq,
    GetStartResp,
    GetRevokeReq,
    GetRevokeResp,
    GetDoneReq,
    GetDoneResp,
    CountPrefixReq,
    CountPrefixResp,
    GetMasterOnlyMetricPartReq,
    GetMasterOnlyMetricPartResp,
    PutStartReq,
    PutStartResp,
    PutRevokeReq,
    PutRevokeResp,
    PutDoneReq,
    PutDoneResp,
    MemHolderKeepAliveReq,
    MemHolderKeepAliveResp,
    MemHolderReleaseReq,
    MemHolderReleaseResp,
    DeleteReq,
    DeleteResp,
    DeleteAckReq,
    DeleteAckResp,
    BatchDeleteAckReq,
    BatchDeleteAckResp,
    GetMetaReq,
    GetMetaResp,
    BatchDeleteClientKvMetaCacheReq,
    BatchDeleteClientKvMetaCacheResp,
    AllocateClientLeaseReq,
    AllocateClientLeaseResp,
    ClientLeaseKeepaliveReq,
    ClientLeaseKeepaliveResp,
    RequestSegmentRegistrationReq,
    RequestSegmentRegistrationResp,
}

/// The requests that a node can make: the transport delivers a response only where its request was
/// registered before.
pub struct P2pCallers {
    pub registered: Vec<MsgId>,
}

impl P2pCallers {
    pub open spec fn can_call(self, id: MsgId) -> bool {
        self.registered@.contains(id)
    }

    pub fn new() -> (callers: Self)
        ensures
            forall|id: MsgId| !#[trigger] callers.can_call(id),
    {
        P2pCallers { registered: Vec::new() }
    }

    /// Registers a request; registering it again changes nothing.
    pub fn regist(&mut self, id: MsgId)
        ensures
            forall|other: MsgId| #[trigger]
                final(self).can_call(other) <==> old(self).can_call(other) || other == id,
            old(self).can_call(id) ==> final(self).registered@ == old(self).registered@,
    {
        let ghost before = self.registered@;
        let mut i: usize = 0;
        while i < self.registered.len()
            invariant
                self.registered@ == before,
                before == old(self).registered@,
                i <= before.len(),
                forall|k: int| 0 <= k < i ==> before[k] != id,
            decreases before.len() - i,
        {
            if self.registered[i] == id {
                assert(before[i as int] == id);
                return ;
            }
            i = i + 1;
        }
        self.registered.push(id);
        proof {
            let after = self.registered@;
            assert forall|other: MsgId| #[trigger] after.contains(other) <==> before.contains(other)
                || other == id by {
                if before.contains(other) {
                    let k = choose|k: int| 0 <= k < before.len() && before[k] == other;
                    assert(after[k] == other);
                }
                if other == id {
                    assert(after[before.len() as int] == other);
                }
            }
        }
    }
}

/// The part of a message that is serialized.
pub trait MsgPackSerializePart {
    spec fn id_of_message(&self) -> MsgId;

    fn msg_id(&self) -> (id: MsgId)
        ensures
            id == self.id_of_message(),
    ;
}

/// A request, with the type of its response.
pub trait RPCReq: MsgPackSerializePart {
    type Resp: MsgPackSerializePart;
}

} // verus!
