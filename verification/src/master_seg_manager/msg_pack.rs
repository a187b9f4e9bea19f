//! Messages of segment registration.

use super::one_seg_allocator::CreatedAllocator;
use crate::error::KvError;
use crate::p2p::{ErrorCode, MsgId, MsgPackSerializePart, RPCReq};
use vstd::prelude::*;

verus! {

#[derive(Debug, Clone, Copy, PartialEq, Eq, Structural)]
pub enum SegmentDeviceDescription {
    Uninitialized,
    Cpu,
    Gpu,
    Nvme,
}

impl Default for SegmentDeviceDescription {
    fn default() -> (desc: Self)
        ensures
            desc == SegmentDeviceDescription::Uninitialized,
    {
        SegmentDeviceDescription::Uninitialized
    }
}

#[derive(Debug, Clone, Copy)]
pub struct SegmentDeviceMemInfo {
    pub addr: u64,
    pub len: u64,
}

pub type SegmentDeviceID = String;

/// Request that the master sends to a client.
#[derive(Debug, Clone, Copy)]
pub struct RequestSegmentRegistrationReq {
    /// Master-side epoch guard.
    ///
    /// The master sets this to the target member's `node_start_time` from cluster membership. The
    /// client must reject requests whose expected epoch does not match its current one.
    pub expected_node_start_time: i64,
}

/// The client's answer: the segments that it offers.
#[derive(Debug)]
pub struct RequestSegmentRegistrationResp {
    pub error_code: ErrorCode,
    pub error_json: String,
    pub seg_map: Vec<(SegmentDeviceID, (SegmentDeviceDescription, SegmentDeviceMemInfo))>,
}

impl MsgPackSerializePart for RequestSegmentRegistrationReq {
    open spec fn id_of_message(&self) -> MsgId {
        MsgId::RequestSegmentRegistrationReq
    }

    fn msg_id(&self) -> MsgId {
        MsgId::RequestSegmentRegistrationReq
    }
}

impl MsgPackSerializePart for RequestSegmentRegistrationResp {
    open spec fn id_of_message(&self) -> MsgId {
        MsgId::RequestSegmentRegistrationResp
    }

    fn msg_id(&self) -> MsgId {
        MsgId::RequestSegmentRegistrationResp
    }
}

impl RPCReq for RequestSegmentRegistrationReq {
    type Resp = RequestSegmentRegistrationResp;
}

/// One segment to register, with what came of creating an allocator for it: the allocator, or the
/// error that it was refused with.
pub struct SegmentRegistration {
    pub device_id: SegmentDeviceID,
    pub desc: SegmentDeviceDescription,
    pub mem: SegmentDeviceMemInfo,
    pub allocator: Result<CreatedAllocator, KvError>,
}

} // verus!
