//! The requests of an external client, and where it writes and reads the values.

use crate::external_client_api::owner::ExternalInner;
use vstd::prelude::*;

verus! {

#[derive(Debug)]
pub struct ExternalGetReq {
    pub key: String,
    pub req_node_id: String,
    pub started_time: i64,
}

/// Where the owner keeps the value of a key, and under which number it is held.
#[derive(Clone, Copy, Debug)]
pub struct ExternalGetInfo {
    pub offset: u64,
    pub len: u64,
    pub holder_id: u64,
}

/// A value in the owner's memory that a client holds.
#[derive(Debug)]
pub struct ExternalMemHolder {
    pub offset: u64,
    pub addr: u64,
    pub len: u64,
    pub holder_id: u64,
    pub key: String,
    pub external_client_id: String,
    pub owner_start_time: i64,
}

#[derive(Debug)]
pub struct ExternalPutStartReq {
    pub key: String,
    pub len: u64,
    pub reject_if_inflight_same_key: bool,
    pub preferred_sub_cluster: Option<String>,
    pub started_time: i64,
    pub test_observe_put_phases: bool,
}

/// What the start of a put is answered with.
#[derive(Debug)]
pub struct ExternalPutStartOk {
    pub put_id: Option<(u64, u32)>,
    pub src_offset: u64,
    pub target_offset: u64,
    /// The target's offset on the node that it is transferred to.
    pub transfer_target_offset: Option<u64>,
    pub peer_id: Option<String>,
    pub target_base_addr: u64,
}

#[derive(Debug)]
pub struct ExternalPutCommitReq {
    pub key: String,
    pub put_id: Option<(u64, u32)>,
    pub lease_id: Option<u64>,
    pub started_time: i64,
    pub test_observe_put_phases: bool,
}

#[derive(Debug)]
pub struct ExternalPutTransferEndReq {
    pub key: String,
    pub len: u64,
    pub src_offset: u64,
    pub target_offset: u64,
    pub peer_id: Option<String>,
    pub target_base_addr: Option<u64>,
    pub put_id: Option<(u64, u32)>,
    pub lease_id: Option<u64>,
    pub started_time: i64,
    pub test_observe_put_phases: bool,
}

#[derive(Debug)]
pub struct ExternalKeyReq {
    pub key: String,
    pub started_time: i64,
}

/// A client lets go of a value that it held in the owner's memory.
#[derive(Debug)]
pub struct ExternalDeleteAckReq {
    pub key: String,
    pub external_client_id: String,
    pub holder_id: u64,
    pub started_time: i64,
}

/// The request of a get, in the generation of the owner that the client has seen.
pub fn external_get_request(key: &str, req_node_id: &str, started_time: i64) -> (req:
    ExternalGetReq)
    ensures
        req.key@ == key@,
        req.req_node_id@ == req_node_id@,
        req.started_time == started_time,
{
    ExternalGetReq { key: key.to_owned(), req_node_id: req_node_id.to_owned(), started_time }
}

impl ExternalInner {
    /// The request of an existence check or a deletion, in the generation of the owner that the
    /// client is attached to.
    pub fn external_key_request(&self, key: &str) -> (req: ExternalKeyReq)
        ensures
            req.key@ == key@,
            req.started_time == self.owner_start_time(),
    {
        ExternalKeyReq { key: key.to_owned(), started_time: self.current_owner_start_time() }
    }

    /// Tells the owner that a value is not held any more: the node to send to, and what is sent.
    pub fn send_external_delete_ack(
        &self,
        key: &str,
        external_client_id: &str,
        holder_id: u64,
        started_time: i64,
    ) -> (call: (String, ExternalDeleteAckReq))
        requires
            self.current_owner is Some,
        ensures
            call.0 == self.current_owner->0.node_id,
            call.1.key@ == key@,
            call.1.external_client_id@ == external_client_id@,
            call.1.holder_id == holder_id,
            call.1.started_time == started_time,
    {
        let owner = match &self.current_owner {
            Some(owner) => owner.node_id.clone(),
            None => String::new(),
        };
        let req = ExternalDeleteAckReq {
            key: key.to_owned(),
            external_client_id: external_client_id.to_owned(),
            holder_id,
            started_time,
        };
        (owner, req)
    }
}

/// What a get holds once it was answered with `info`, where the owner's memory is mapped for reading
/// at `base_ro`.
pub open spec fn held(
    holder: Option<ExternalMemHolder>,
    info: Option<ExternalGetInfo>,
    base_ro: u64,
    key: Seq<char>,
    external_client_id: Seq<char>,
    started_time: i64,
) -> bool {
    match info {
        Some(info) => holder matches Some(holder) && {
            &&& holder.offset == info.offset
            &&& holder.addr == base_ro + info.offset
            &&& holder.len == info.len
            &&& holder.holder_id == info.holder_id
            &&& holder.key@ == key
            &&& holder.external_client_id@ == external_client_id
            &&& holder.owner_start_time == started_time
        },
        None => holder is None,
    }
}

/// The value that a get was answered with: it stands in the owner's memory at its offset.
pub fn held_value(
    info: Option<ExternalGetInfo>,
    base_ro: u64,
    key: &str,
    external_client_id: &str,
    started_time: i64,
) -> (holder: Option<ExternalMemHolder>)
    requires
        info matches Some(info) ==> base_ro + info.offset <= u64::MAX,
    ensures
        held(holder, info, base_ro, key@, external_client_id@, started_time),
{
    match info {
        Some(info) => Some(
            ExternalMemHolder {
                offset: info.offset,
                addr: base_ro + info.offset,
                len: info.len,
                holder_id: info.holder_id,
                key: key.to_owned(),
                external_client_id: external_client_id.to_owned(),
                owner_start_time: started_time,
            },
        ),
        None => None,
    }
}

/// What a caller of put may ask for.
#[derive(Debug)]
pub struct PutOptions {
    pub lease_id: Option<u64>,
    pub reject_if_inflight_same_key: bool,
    pub preferred_sub_cluster: Option<String>,
}

impl ExternalPutStartReq {
    /// The request starts such a put.
    pub open spec fn starts(
        self,
        key: Seq<char>,
        len: u64,
        opts: PutOptions,
        started_time: i64,
    ) -> bool {
        &&& self.key@ == key
        &&& self.len == len
        &&& self.reject_if_inflight_same_key == opts.reject_if_inflight_same_key
        &&& self.preferred_sub_cluster == opts.preferred_sub_cluster
        &&& self.started_time == started_time
        &&& self.test_observe_put_phases
    }
}

impl ExternalPutCommitReq {
    /// The request ends such a put without a payload.
    pub open spec fn commits(
        self,
        put_id: Option<(u64, u32)>,
        key: Seq<char>,
        opts: PutOptions,
        started_time: i64,
    ) -> bool {
        &&& self.key@ == key
        &&& self.put_id == put_id
        &&& self.lease_id == opts.lease_id
        &&& self.started_time == started_time
        &&& self.test_observe_put_phases
    }
}

impl ExternalPutTransferEndReq {
    /// The request transfers the written value of a started put, if its target is another node, and
    /// ends the put.
    pub open spec fn ends(
        self,
        started: ExternalPutStartOk,
        key: Seq<char>,
        len: u64,
        opts: PutOptions,
        started_time: i64,
    ) -> bool {
        &&& self.key@ == key
        &&& self.len == len
        &&& self.src_offset == started.src_offset
        &&& self.target_offset == match started.transfer_target_offset {
            Some(offset) => offset,
            None => started.target_offset,
        }
        &&& self.peer_id == started.peer_id
        &&& self.target_base_addr == if started.peer_id is Some {
            Some(started.target_base_addr)
        } else {
            None
        }
        &&& self.put_id == started.put_id
        &&& self.lease_id == opts.lease_id
        &&& self.started_time == started_time
        &&& self.test_observe_put_phases
    }
}

/// The request that starts a put.
pub fn external_put_start_request(
    key: &str,
    len: u64,
    opts: &PutOptions,
    started_time: i64,
) -> (req: ExternalPutStartReq)
    ensures
        req.starts(key@, len, *opts, started_time),
{
    ExternalPutStartReq {
        key: key.to_owned(),
        len,
        reject_if_inflight_same_key: opts.reject_if_inflight_same_key,
        preferred_sub_cluster: match &opts.preferred_sub_cluster {
            Some(preferred) => Some(preferred.clone()),
            None => None,
        },
        started_time,
        test_observe_put_phases: true,
    }
}

impl ExternalPutStartOk {
    /// The value is written where it stays, or else where it is transferred from.
    pub open spec fn write_offset(self) -> u64 {
        if self.src_offset == self.target_offset {
            self.target_offset
        } else {
            self.src_offset
        }
    }

    /// The address that the value is written to.
    pub fn write_addr(&self, base_addr: u64) -> (addr: u64)
        requires
            base_addr + self.write_offset() <= u64::MAX,
        ensures
            addr == base_addr + self.write_offset(),
    {
        if self.src_offset == self.target_offset {
            base_addr + self.target_offset
        } else {
            base_addr + self.src_offset
        }
    }

    /// The request that ends a put without a payload.
    pub fn commit_request(&self, key: &str, opts: &PutOptions, started_time: i64) -> (req:
        ExternalPutCommitReq)
        ensures
            req.commits(self.put_id, key@, *opts, started_time),
    {
        ExternalPutCommitReq {
            key: key.to_owned(),
            put_id: self.put_id,
            lease_id: opts.lease_id,
            started_time,
            test_observe_put_phases: true,
        }
    }

    /// The request that transfers a written value to its target, if that is another node, and ends
    /// the put.
    pub fn transfer_end_request(
        &self,
        key: &str,
        len: u64,
        opts: &PutOptions,
        started_time: i64,
    ) -> (req: ExternalPutTransferEndReq)
        ensures
            req.ends(*self, key@, len, *opts, started_time),
    {
        ExternalPutTransferEndReq {
            key: key.to_owned(),
            len,
            src_offset: self.src_offset,
            target_offset: match self.transfer_target_offset {
                Some(offset) => offset,
                None => self.target_offset,
            },
            peer_id: match &self.peer_id {
                Some(peer_id) => Some(peer_id.clone()),
                None => None,
            },
            target_base_addr: if self.peer_id.is_some() {
                Some(self.target_base_addr)
            } else {
                None
            },
            put_id: self.put_id,
            lease_id: opts.lease_id,
            started_time,
            test_observe_put_phases: true,
        }
    }
}

} // verus!
