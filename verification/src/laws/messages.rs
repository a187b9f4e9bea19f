//! Messages: each kind is known by an id of its own, so that none is taken for another.

use crate::master_seg_manager::msg_pack::{
    RequestSegmentRegistrationReq, RequestSegmentRegistrationResp,
};
use crate::master_kv_router::msg_pack::{
    BatchDeleteAckReq, BatchDeleteAckResp, BatchDeleteClientKvMetaCacheReq,
    BatchDeleteClientKvMetaCacheResp, CountPrefixReq, CountPrefixResp, DeleteAckReq,
    DeleteAckResp, DeleteReq, DeleteResp, GetDoneReq, GetDoneResp, GetMasterOnlyMetricPartReq,
    GetMasterOnlyMetricPartResp, GetMetaReq, GetMetaResp, GetRevokeReq, GetRevokeResp,
    GetStartReq, GetStartResp, MemHolderKeepAliveReq, MemHolderKeepAliveResp,
    MemHolderReleaseReq, MemHolderReleaseResp, PutDoneReq, PutDoneResp, PutRevokeReq,
    PutRevokeResp, PutStartReq, PutStartResp,
};
use crate::master_lease_manager::msg_pack::{
    AllocateClientLeaseReq, AllocateClientLeaseResp, ClientLeaseKeepaliveReq,
    ClientLeaseKeepaliveResp,
};
use crate::p2p::{MsgId, MsgPackSerializePart};
use vstd::prelude::*;

verus! {

/// Every message of a kind carries the id of that kind.
pub proof fn law_messages_are_known_by_their_kind()
    ensures
        forall|message: RequestSegmentRegistrationReq| #[trigger] message.id_of_message() == MsgId::RequestSegmentRegistrationReq,
        forall|message: RequestSegmentRegistrationResp| #[trigger] message.id_of_message() == MsgId::RequestSegmentRegistrationResp,
        forall|message: GetStartReq| #[trigger] message.id_of_message() == MsgId::GetStartReq,
        forall|message: GetStartResp| #[trigger] message.id_of_message() == MsgId::GetStartResp,
        forall|message: GetRevokeReq| #[trigger] message.id_of_message() == MsgId::GetRevokeReq,
        forall|message: GetRevokeResp| #[trigger] message.id_of_message() == MsgId::GetRevokeResp,
        forall|message: GetDoneReq| #[trigger] message.id_of_message() == MsgId::GetDoneReq,
        forall|message: GetDoneResp| #[trigger] message.id_of_message() == MsgId::GetDoneResp,
        forall|message: CountPrefixReq| #[trigger] message.id_of_message() == MsgId::CountPrefixReq,
        forall|message: CountPrefixResp| #[trigger] message.id_of_message() == MsgId::CountPrefixResp,
        forall|message: GetMasterOnlyMetricPartReq| #[trigger] message.id_of_message() == MsgId::GetMasterOnlyMetricPartReq,
        forall|message: GetMasterOnlyMetricPartResp| #[trigger] message.id_of_message() == MsgId::GetMasterOnlyMetricPartResp,
        forall|message: PutStartReq| #[trigger] message.id_of_message() == MsgId::PutStartReq,
        forall|message: PutStartResp| #[trigger] message.id_of_message() == MsgId::PutStartResp,
        forall|message: PutRevokeReq| #[trigger] message.id_of_message() == MsgId::PutRevokeReq,
        forall|message: PutRevokeResp| #[trigger] message.id_of_message() == MsgId::PutRevokeResp,
        forall|message: PutDoneReq| #[trigger] message.id_of_message() == MsgId::PutDoneReq,
        forall|message: PutDoneResp| #[trigger] message.id_of_message() == MsgId::PutDoneResp,
        forall|message: MemHolderKeepAliveReq| #[trigger] message.id_of_message() == MsgId::MemHolderKeepAliveReq,
        forall|message: MemHolderKeepAliveResp| #[trigger] message.id_of_message() == MsgId::MemHolderKeepAliveResp,
        forall|message: MemHolderReleaseReq| #[trigger] message.id_of_message() == MsgId::MemHolderReleaseReq,
        forall|message: MemHolderReleaseResp| #[trigger] message.id_of_message() == MsgId::MemHolderReleaseResp,
        forall|message: DeleteReq| #[trigger] message.id_of_message() == MsgId::DeleteReq,
        forall|message: DeleteResp| #[trigger] message.id_of_message() == MsgId::DeleteResp,
        forall|message: DeleteAckReq| #[trigger] message.id_of_message() == MsgId::DeleteAckReq,
        forall|message: DeleteAckResp| #[trigger] message.id_of_message() == MsgId::DeleteAckResp,
        forall|message: BatchDeleteAckReq| #[trigger] message.id_of_message() == MsgId::BatchDeleteAckReq,
        forall|message: BatchDeleteAckResp| #[trigger] message.id_of_message() == MsgId::BatchDeleteAckResp,
        forall|message: GetMetaReq| #[trigger] message.id_of_message() == MsgId::GetMetaReq,
        forall|message: GetMetaResp| #[trigger] message.id_of_message() == MsgId::GetMetaResp,
        forall|message: BatchDeleteClientKvMetaCacheReq| #[trigger] message.id_of_message() == MsgId::BatchDeleteClientKvMetaCacheReq,
        forall|message: BatchDeleteClientKvMetaCacheResp| #[trigger] message.id_of_message() == MsgId::BatchDeleteClientKvMetaCacheResp,
        forall|message: AllocateClientLeaseReq| #[trigger] message.id_of_message() == MsgId::AllocateClientLeaseReq,
        forall|message: AllocateClientLeaseResp| #[trigger] message.id_of_message() == MsgId::AllocateClientLeaseResp,
        forall|message: ClientLeaseKeepaliveReq| #[trigger] message.id_of_message() == MsgId::ClientLeaseKeepaliveReq,
        forall|message: ClientLeaseKeepaliveResp| #[trigger] message.id_of_message() == MsgId::ClientLeaseKeepaliveResp,
{
}

} // verus!
