//! Values that are sent through a cluster to see which way they take.

use crate::error::KvError;
use crate::kv_test::same_bytes;
use crate::text;
use vstd::prelude::*;

verus! {

pub const TRANSFER_DATA_PROBE_VALUE_LEN: usize = 262144;

/// The pattern that a probe's value repeats.
pub open spec fn probe_pattern(tag: Seq<char>) -> Seq<u8> {
    vstd::utf8::encode_utf8("kv_test_transfer_data_probe:"@ + tag + ":"@)
}

/// The value of a probe: its pattern, over and over.
pub open spec fn is_probe_value(tag: Seq<char>, value: Seq<u8>) -> bool {
    &&& value.len() == TRANSFER_DATA_PROBE_VALUE_LEN
    &&& forall|i: int|
        0 <= i < value.len() ==> #[trigger] value[i] == probe_pattern(tag)[i % (probe_pattern(
            tag,
        ).len() as int)]
}

pub fn build_transfer_data_probe_value(tag: &str) -> (value: Vec<u8>)
    ensures
        is_probe_value(tag@, value@),
{
    let pattern_text = "kv_test_transfer_data_probe:".to_owned().concat(tag).concat(":");
    let pattern = pattern_text.as_str().as_bytes();
    proof {
        reveal_strlit("kv_test_transfer_data_probe:");
        let whole = "kv_test_transfer_data_probe:"@ + tag@ + ":"@;
        assert(whole.len() > 0);
        vstd::utf8::encode_utf8_first_scalar(whole);
    }
    let mut value: Vec<u8> = Vec::new();
    let mut at: usize = 0;
    while value.len() < TRANSFER_DATA_PROBE_VALUE_LEN
        invariant
            pattern@ == probe_pattern(tag@),
            pattern@.len() > 0,
            value@.len() <= TRANSFER_DATA_PROBE_VALUE_LEN,
            at < pattern@.len(),
            at == value@.len() % pattern@.len(),
            forall|i: int|
                0 <= i < value@.len() ==> #[trigger] value@[i] == pattern@[i % (
                pattern@.len() as int)],
        decreases TRANSFER_DATA_PROBE_VALUE_LEN - value@.len(),
    {
        let ghost n = value@.len() as int;
        let ghost m = pattern@.len() as int;
        value.push(pattern[at]);
        proof {
            vstd::arithmetic::div_mod::lemma_fundamental_div_mod(n, m);
            let q = n / m;
            assert(n == m * q + at);
            if at + 1 == m {
                assert(n + 1 == m * (q + 1)) by (nonlinear_arith)
                    requires
                        n == m * q + at,
                        at + 1 == m,
                ;
                vstd::arithmetic::div_mod::lemma_fundamental_div_mod_converse(n + 1, m, q + 1, 0);
            } else {
                vstd::arithmetic::div_mod::lemma_fundamental_div_mod_converse(
                    n + 1,
                    m,
                    q,
                    at + 1,
                );
            }
        }
        at = at + 1;
        if at == pattern.len() {
            at = 0;
        }
    }
    value
}

/// The key of a probe's attempt.
pub open spec fn probe_key(prefix: Seq<char>, attempt: u64) -> Seq<char> {
    prefix + "__attempt_"@ + text::decimal(attempt as nat)
}

/// The tag of a probe's attempt.
pub open spec fn probe_tag(tag: Seq<char>, attempt: u64) -> Seq<char> {
    tag + ":attempt:"@ + text::decimal(attempt as nat)
}

pub fn build_transfer_data_probe_attempt(
    probe_key_prefix: &str,
    probe_value_tag: &str,
    attempt: u64,
) -> (probe: (String, Vec<u8>))
    ensures
        probe.0@ == probe_key(probe_key_prefix@, attempt),
        is_probe_value(probe_tag(probe_value_tag@, attempt), probe.1@),
{
    let mut key = probe_key_prefix.to_owned().concat("__attempt_");
    text::append_u64(&mut key, attempt);
    let mut tag = probe_value_tag.to_owned().concat(":attempt:");
    text::append_u64(&mut tag, attempt);
    let value = build_transfer_data_probe_value(tag.as_str());
    (key, value)
}

/// What the trace of a probe says of the way that its value took.
pub struct LaneProbeTrace {
    pub owner_put_transfer_peer_id: Option<String>,
    pub external_side_transfer_peer_id: Option<String>,
    pub external_side_transfer_lane_idx: Option<u16>,
    /// The lane that the local side worker's id names.
    pub local_side_lane: Option<u16>,
    /// The lane that the remote peer's id names.
    pub remote_lane: Option<u16>,
}

impl LaneProbeTrace {
    /// The lane in the trace, and else the one that the local side worker's id names.
    pub open spec fn lane(self) -> Option<u16> {
        if self.external_side_transfer_lane_idx is Some {
            self.external_side_transfer_lane_idx
        } else {
            self.local_side_lane
        }
    }

    /// The lane in the trace, and else the one that the local side worker's id names.
    pub fn local_lane(&self) -> (lane: Option<u16>)
        ensures
            lane == self.lane(),
    {
        match self.external_side_transfer_lane_idx {
            Some(lane) => Some(lane),
            None => self.local_side_lane,
        }
    }
}

/// Why a lane probe is not satisfied yet.
#[derive(Debug, Clone, Copy, PartialEq, Eq, Structural)]
pub enum LaneProbeWait {
    RemotePeer,
    OwnerNamespace,
    LocalSide,
    LocalLane,
    RemoteSideWorker,
    RemoteLane,
    LaneAlignment,
}

/// Why a lane probe is not satisfied yet, if it is not.
pub open spec fn lane_probe_wait(trace: LaneProbeTrace, remote_owner_id: Seq<char>) -> Option<
    LaneProbeWait,
> {
    if trace.owner_put_transfer_peer_id is None {
        Some(LaneProbeWait::RemotePeer)
    } else if !remote_owner_id.is_prefix_of(trace.owner_put_transfer_peer_id->0@) {
        Some(LaneProbeWait::OwnerNamespace)
    } else if trace.external_side_transfer_peer_id is None {
        Some(LaneProbeWait::LocalSide)
    } else if trace.lane() is None {
        Some(LaneProbeWait::LocalLane)
    } else if !(remote_owner_id + "__side_"@).is_prefix_of(
        trace.owner_put_transfer_peer_id->0@,
    ) {
        Some(LaneProbeWait::RemoteSideWorker)
    } else if trace.remote_lane is None {
        Some(LaneProbeWait::RemoteLane)
    } else if trace.lane() != trace.remote_lane {
        Some(LaneProbeWait::LaneAlignment)
    } else {
        None
    }
}

/// What a lane probe does next.
#[derive(Debug, Clone, Copy, PartialEq, Eq, Structural)]
pub enum LaneProbeStep {
    /// The value went from a local side worker to the remote owner's side worker on the same lane.
    Verified { lane: u16 },
    /// Sleep for a second and try again.
    Retry(LaneProbeWait),
    TimedOut(LaneProbeWait),
}

/// Judges an attempt of the lane probe: it is repeated until the lanes agree, up to a deadline.
pub fn verify_external_side_transfer_lane_mapping(
    trace: &LaneProbeTrace,
    remote_owner_id: &str,
    deadline_passed: bool,
) -> (step: LaneProbeStep)
    ensures
        match lane_probe_wait(*trace, remote_owner_id@) {
            None => step == (LaneProbeStep::Verified { lane: trace.lane()->0 }),
            Some(wait) => step == if deadline_passed {
                LaneProbeStep::TimedOut(wait)
            } else {
                LaneProbeStep::Retry(wait)
            },
        },
{
    let wait = match &trace.owner_put_transfer_peer_id {
        None => LaneProbeWait::RemotePeer,
        Some(remote_peer_id) => {
            if !text::starts_with(remote_peer_id.as_str(), remote_owner_id) {
                LaneProbeWait::OwnerNamespace
            } else if trace.external_side_transfer_peer_id.is_none() {
                LaneProbeWait::LocalSide
            } else {
                match trace.local_lane() {
                    None => LaneProbeWait::LocalLane,
                    Some(local_lane) => {
                        let side_prefix = remote_owner_id.to_owned().concat("__side_");
                        if !text::starts_with(remote_peer_id.as_str(), side_prefix.as_str()) {
                            LaneProbeWait::RemoteSideWorker
                        } else {
                            match trace.remote_lane {
                                None => LaneProbeWait::RemoteLane,
                                Some(remote_lane) => {
                                    if local_lane == remote_lane {
                                        return LaneProbeStep::Verified { lane: local_lane };
                                    }
                                    LaneProbeWait::LaneAlignment
                                },
                            }
                        }
                    },
                }
            }
        },
    };
    if deadline_passed {
        LaneProbeStep::TimedOut(wait)
    } else {
        LaneProbeStep::Retry(wait)
    }
}

/// One of the tokens of a transfer link, between plus signs, is `closed`.
pub open spec fn link_is_closed(raw: Seq<char>) -> bool {
    exists|i: int|
        0 <= i < text::parts(raw, '+').len() && text::trimmed(#[trigger] text::parts(raw, '+')[i])
            == "closed"@
}

pub fn transfer_link_is_closed(raw: &str) -> (closed: bool)
    ensures
        closed == link_is_closed(raw@),
{
    let chars = text::chars_of(raw);
    let split = text::split_chars(&chars, '+');
    let ghost all = text::parts(raw@, '+');
    let mut i: usize = 0;
    while i < split.len()
        invariant
            i <= split@.len(),
            all == text::parts(raw@, '+'),
            text::char_views(split@) == all,
            all.len() == split@.len(),
            forall|k: int| 0 <= k < i ==> text::trimmed(#[trigger] all[k]) != "closed"@,
        decreases split@.len() - i,
    {
        assert(all[i as int] == split@[i as int]@);
        let token = text::trim(&split[i]);
        if text::same_text(token.as_str(), "closed") {
            return true;
        }
        i = i + 1;
    }
    false
}

/// Where the cluster records how two nodes transfer values.
pub open spec fn link_key(cluster: Seq<char>, from: Seq<char>, to: Seq<char>) -> Seq<char> {
    "/"@ + cluster + "/transfer_link/te/"@ + from + "/"@ + to
}

/// Where the cluster records how two nodes transfer values.
pub fn transfer_link_te_key(
    cluster_name: &str,
    from_instance_key: &str,
    to_instance_key: &str,
) -> (key: String)
    ensures
        key@ == link_key(cluster_name@, from_instance_key@, to_instance_key@),
{
    "/".to_owned().concat(cluster_name).concat("/transfer_link/te/").concat(
        from_instance_key,
    ).concat("/").concat(to_instance_key)
}

/// How a call of a probe ended; a call may take ten seconds.
#[derive(Debug)]
pub enum ProbeCall<T> {
    Answered(T),
    Failed(KvError),
    TimedOut,
}

/// What a part of an attempt of the data link probe came to.
#[derive(Debug)]
pub enum DataLinkEvent {
    /// An external client was to put the probe's value.
    Put(ProbeCall<()>),
    /// An owner was to get it.
    Get(ProbeCall<Option<Vec<u8>>>),
    /// How the two owners transfer values, as the cluster records it; `Err` where the record could
    /// not be read.
    Link(Result<Option<String>, String>),
}

/// Why the data link probe is not satisfied.
#[derive(Debug)]
#[allow(inconsistent_fields)]
pub enum DataLinkFault {
    PutFailed(KvError),
    PutTimedOut,
    GetFailed(KvError),
    GetTimedOut,
    GetReturnedNone,
    /// The value that came back is not the one that was put.
    PayloadMismatch,
    NoLink,
    /// The link holds no `closed` token.
    LinkNotClosed { link: String },
    LinkNotRead { detail: String },
}

impl DataLinkFault {
    /// The fault is no matter of waiting: another attempt is not made.
    pub open spec fn is_final(self) -> bool {
        self is PayloadMismatch || self is LinkNotRead
    }
}

/// What the data link probe does next.
#[derive(Debug)]
pub enum DataLinkStep {
    Get,
    FetchLink,
    Verified,
    /// Sleep for a second and make another attempt.
    Retry(DataLinkFault),
    Failed(DataLinkFault),
}

/// What is wrong with a part of an attempt, if anything is.
pub open spec fn data_link_fault(event: DataLinkEvent, value: Seq<u8>) -> Option<DataLinkFault> {
    match event {
        DataLinkEvent::Put(ProbeCall::Answered(_)) => None,
        DataLinkEvent::Put(ProbeCall::Failed(error)) => Some(DataLinkFault::PutFailed(error)),
        DataLinkEvent::Put(ProbeCall::TimedOut) => Some(DataLinkFault::PutTimedOut),
        DataLinkEvent::Get(ProbeCall::Answered(None)) => Some(DataLinkFault::GetReturnedNone),
        DataLinkEvent::Get(ProbeCall::Answered(Some(payload))) => if payload@ == value {
            None
        } else {
            Some(DataLinkFault::PayloadMismatch)
        },
        DataLinkEvent::Get(ProbeCall::Failed(error)) => Some(DataLinkFault::GetFailed(error)),
        DataLinkEvent::Get(ProbeCall::TimedOut) => Some(DataLinkFault::GetTimedOut),
        DataLinkEvent::Link(Ok(None)) => Some(DataLinkFault::NoLink),
        DataLinkEvent::Link(Ok(Some(link))) => if link_is_closed(link@) {
            None
        } else {
            Some(DataLinkFault::LinkNotClosed { link })
        },
        DataLinkEvent::Link(Err(detail)) => Some(DataLinkFault::LinkNotRead { detail }),
    }
}

/// What follows a part of an attempt.
pub open spec fn data_link_step(
    event: DataLinkEvent,
    value: Seq<u8>,
    deadline_passed: bool,
) -> DataLinkStep {
    match data_link_fault(event, value) {
        Some(fault) => if fault.is_final() || deadline_passed {
            DataLinkStep::Failed(fault)
        } else {
            DataLinkStep::Retry(fault)
        },
        None => match event {
            DataLinkEvent::Put(_) => DataLinkStep::Get,
            DataLinkEvent::Get(_) => DataLinkStep::FetchLink,
            DataLinkEvent::Link(_) => DataLinkStep::Verified,
        },
    }
}

fn retry_or_fail(fault: DataLinkFault, deadline_passed: bool) -> (step: DataLinkStep)
    ensures
        step == if deadline_passed {
            DataLinkStep::Failed(fault)
        } else {
            DataLinkStep::Retry(fault)
        },
{
    if deadline_passed {
        DataLinkStep::Failed(fault)
    } else {
        DataLinkStep::Retry(fault)
    }
}

/// Judges a part of an attempt of the data link probe: an external client puts a value, an owner
/// gets it, and the cluster has to record that the two owners transfer values over a closed link.
/// Attempts are made until that is so, up to a deadline.
pub fn verify_rdma_transfer_data_link(
    event: DataLinkEvent,
    value: &[u8],
    deadline_passed: bool,
) -> (step: DataLinkStep)
    ensures
        step == data_link_step(event, value@, deadline_passed),
{
    match event {
        DataLinkEvent::Put(ProbeCall::Answered(_)) => DataLinkStep::Get,
        DataLinkEvent::Put(ProbeCall::Failed(error)) => retry_or_fail(
            DataLinkFault::PutFailed(error),
            deadline_passed,
        ),
        DataLinkEvent::Put(ProbeCall::TimedOut) => retry_or_fail(
            DataLinkFault::PutTimedOut,
            deadline_passed,
        ),
        DataLinkEvent::Get(ProbeCall::Answered(None)) => retry_or_fail(
            DataLinkFault::GetReturnedNone,
            deadline_passed,
        ),
        DataLinkEvent::Get(ProbeCall::Answered(Some(payload))) => {
            if same_bytes(payload.as_slice(), value) {
                DataLinkStep::FetchLink
            } else {
                DataLinkStep::Failed(DataLinkFault::PayloadMismatch)
            }
        },
        DataLinkEvent::Get(ProbeCall::Failed(error)) => retry_or_fail(
            DataLinkFault::GetFailed(error),
            deadline_passed,
        ),
        DataLinkEvent::Get(ProbeCall::TimedOut) => retry_or_fail(
            DataLinkFault::GetTimedOut,
            deadline_passed,
        ),
        DataLinkEvent::Link(Ok(None)) => retry_or_fail(DataLinkFault::NoLink, deadline_passed),
        DataLinkEvent::Link(Ok(Some(link))) => {
            if transfer_link_is_closed(link.as_str()) {
                DataLinkStep::Verified
            } else {
                retry_or_fail(DataLinkFault::LinkNotClosed { link }, deadline_passed)
            }
        },
        DataLinkEvent::Link(Err(detail)) => DataLinkStep::Failed(
            DataLinkFault::LinkNotRead { detail },
        ),
    }
}

/// A link is verified exactly by a value that was put and came back whole, and by a record that
/// names it closed; before the deadline, only a value that came back changed or a record that
/// cannot be read ends the probe in failure.
pub proof fn law_data_link_is_verified_by_its_value(
    put: ProbeCall<()>,
    get: ProbeCall<Option<Vec<u8>>>,
    link: Result<Option<String>, String>,
    value: Seq<u8>,
    deadline_passed: bool,
)
    ensures
        (data_link_step(DataLinkEvent::Put(put), value, deadline_passed) is Get && data_link_step(
            DataLinkEvent::Get(get),
            value,
            deadline_passed,
        ) is FetchLink && data_link_step(
            DataLinkEvent::Link(link),
            value,
            deadline_passed,
        ) is Verified) <==> (put is Answered && (get matches ProbeCall::Answered(Some(payload))
            && payload@ == value) && (link matches Ok(Some(link)) && link_is_closed(link@))),
        !deadline_passed ==> {
            &&& !(data_link_step(DataLinkEvent::Put(put), value, deadline_passed) is Failed)
            &&& data_link_step(DataLinkEvent::Get(get), value, deadline_passed) is Failed <==> (
            get matches ProbeCall::Answered(Some(payload)) && payload@ != value)
            &&& data_link_step(DataLinkEvent::Link(link), value, deadline_passed) is Failed
                <==> link is Err
        },
{
}

} // verus!
