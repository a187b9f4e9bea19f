//! Attaching to an owner: it is looked for, its memory is mapped, and the cluster is told. A client
//! does so when it starts, and again for each later generation of the owner.

use crate::cluster_manager::ClusterMember;
use crate::error::{ApiErrorOf, KvError, KvErrorOf, KvResult, P2PError};
use crate::external_client_api::owner::{
    probe_owner_restart_payload,
    CurrentOwner,
    ExternalInner,
    OwnerProbeExpectation,
    OwnerProbeInput,
    OwnerRestartPayload,
    OwnerRestartProbe,
    SharedMemoryPtr,
};
use crate::external_client_api::retry::{SendReadyStep, SendReadyWait};
use crate::text;
use vstd::prelude::*;

verus! {

/// What a look at the owner comes to.
pub enum ProbeStep {
    /// Look again in 200 ms, or once the cluster has changed.
    Wait { reason: String },
    /// Map the owner's memory.
    MapMemory(OwnerRestartPayload),
    /// The client is attached, and the system goes down: the owner is not looked at any more.
    Stop,
    Failed(KvError),
}

/// What the cluster is told about a client: the owner whose memory it shares, and the sub-cluster
/// that it is in with its owner.
#[derive(Debug)]
pub struct OwnerBinding {
    pub owner_id: String,
    pub owner_start_time: i64,
    pub sub_cluster: Option<String>,
}

impl ExternalInner {
    /// A client that is not attached takes any owner of its cluster and version. One that is attached
    /// takes only its owner, with another description than the one it is attached by.
    pub open spec fn expects(self, expected: OwnerProbeExpectation<'_>) -> bool {
        &&& expected.shared_memory_path@ == self.external_shared_memory_path@
        &&& expected.shared_file_path@ == self.external_shared_file_path@
        &&& expected.wait_start_ts == i64::MIN
        &&& expected.expected_cluster_name@ == self.expected_cluster_name@
        &&& expected.expected_protocol_version@ == self.expected_protocol_version@
        &&& match self.current_owner {
            Some(owner) => {
                &&& expected.current_signature == Some(owner.shared_memory.memory_signature)
                &&& expected.old_owner_id matches Some(id) && id@ == owner.node_id@
            },
            None => expected.current_signature is None && expected.old_owner_id is None,
        }
    }

    /// What an owner is looked for with.
    pub fn owner_expectation(&self) -> (expected: OwnerProbeExpectation<'_>)
        ensures
            self.expects(expected),
    {
        let (current_signature, old_owner_id) = match &self.current_owner {
            Some(owner) => (
                Some(owner.shared_memory.memory_signature),
                Some(owner.node_id.as_str()),
            ),
            None => (None, None),
        };
        OwnerProbeExpectation {
            shared_memory_path: self.external_shared_memory_path.as_str(),
            shared_file_path: self.external_shared_file_path.as_str(),
            current_signature,
            wait_start_ts: i64::MIN,
            old_owner_id,
            expected_cluster_name: self.expected_cluster_name.as_str(),
            expected_protocol_version: self.expected_protocol_version.as_str(),
        }
    }

    /// Looks at the owner, as far as it can be seen.
    pub fn look_for_owner(&self, input: OwnerProbeInput, running: bool) -> (step: ProbeStep)
        ensures
            if !running {
                if self.current_owner is Some {
                    step == ProbeStep::Stop
                } else {
                    step matches ProbeStep::Failed(err) && err@
                        == crate::external_client_api::owner::recovery_aborted()
                }
            } else {
                exists|expected: OwnerProbeExpectation<'_>| #[trigger]
                    self.expects(expected) && match crate::external_client_api::owner::probe_outcome(
                        expected,
                        input,
                    ) {
                        crate::external_client_api::owner::ProbeView::Pending(why) => {
                            step matches ProbeStep::Wait { reason } && reason@ == why
                        },
                        crate::external_client_api::owner::ProbeView::Changed(detail) => {
                            step matches ProbeStep::Failed(err) && err@ == KvErrorOf::Api(
                                ApiErrorOf::Unknown { detail },
                            )
                        },
                        crate::external_client_api::owner::ProbeView::Ready => {
                            step matches ProbeStep::MapMemory(payload) && input.read
                                == (crate::external_client_api::owner::SharedJsonRead::Read {
                                before: payload.signature,
                                meta: payload.meta,
                                after: payload.signature,
                            })
                        },
                    }
            },
    {
        if !running {
            if self.current_owner.is_some() {
                return ProbeStep::Stop;
            }
            return ProbeStep::Failed(
                KvErrorOf::Api(
                    ApiErrorOf::SystemShutdown {
                        detail: "Owner recovery wait aborted due to shutdown".to_owned(),
                    },
                ),
            );
        }
        let expected = self.owner_expectation();
        let ghost seen = input;
        match probe_owner_restart_payload(&expected, input) {
            Ok(OwnerRestartProbe::Ready(payload)) => {
                proof {
                    crate::external_client_api::owner::law_ready_owner_is_consistent(
                        expected,
                        seen,
                    );
                }
                assert(self.current_owner matches Some(owner) ==> payload.signature
                    != owner.shared_memory.memory_signature);
                ProbeStep::MapMemory(payload)
            },
            Ok(OwnerRestartProbe::Pending(reason)) => ProbeStep::Wait { reason },
            Err(err) => ProbeStep::Failed(err),
        }
    }

    /// Attaches the client once the owner's memory was mapped, or could not be. Returns what the
    /// cluster is to be told.
    pub fn attach(
        &mut self,
        mapped: KvResult<SharedMemoryPtr>,
        payload: &OwnerRestartPayload,
    ) -> (binding: KvResult<OwnerBinding>)
        ensures
            match mapped {
                Ok(shared_memory) => {
                    &&& binding matches Ok(binding) && binding.owner_id == payload.meta.owner_id
                        && binding.owner_start_time == payload.meta.node_start_time
                        && binding.sub_cluster == payload.meta.sub_cluster
                    &&& final(self).key_weak_memholder_index@ == Map::<Seq<char>, u64>::empty()
                    &&& *final(self) == (ExternalInner {
                        current_owner: Some(
                            CurrentOwner {
                                node_id: payload.meta.owner_id,
                                owner_start_time: payload.meta.node_start_time,
                                shared_memory,
                            },
                        ),
                        key_weak_memholder_index: final(self).key_weak_memholder_index,
                        ..*old(self)
                    })
                },
                Err(err) => {
                    &&& binding == Err::<OwnerBinding, KvError>(err)
                    &&& *final(self) == *old(self)
                },
            },
    {
        match mapped {
            Ok(shared_memory) => {
                self.remap_shared_memory_with_payload(shared_memory, payload);
                Ok(
                    OwnerBinding {
                        owner_id: payload.meta.owner_id.clone(),
                        owner_start_time: payload.meta.node_start_time,
                        sub_cluster: text::clone_option(&payload.meta.sub_cluster),
                    },
                )
            },
            Err(err) => Err(err),
        }
    }

    /// What is said of a wait for the owner that cannot go on.
    pub open spec fn events_closed(self, error: Seq<char>) -> KvErrorOf<Seq<char>> {
        KvErrorOf::Api(
            ApiErrorOf::Unknown {
                detail:
                    "cluster event channel closed while waiting for owner generation (owner_id="@
                    + self.current_owner->0.node_id@ + " owner_start_time="@ + text::signed_decimal(
                    self.owner_start_time() as int,
                ) + "): "@ + error,
            },
        )
    }

    /// At start-up the client waits until the cluster shows its owner, in the generation that it is
    /// attached to. `closed` is the error with which the cluster's events ended, if they did.
    pub fn wait_owner_present(
        &self,
        owner_member: &Option<ClusterMember>,
        closed: Option<String>,
    ) -> (over: Option<KvResult<()>>)
        requires
            self.current_owner is Some,
        ensures
            if self.owner_present_in(*owner_member) {
                over matches Some(result) && result is Ok
            } else {
                match closed {
                    Some(error) => over matches Some(Err(err)) && err@ == self.events_closed(
                        error@,
                    ),
                    None => over is None,
                }
            },
    {
        if self.owner_present(owner_member) {
            return Some(Ok(()));
        }
        match (closed, &self.current_owner) {
            (Some(error), Some(owner)) => {
                let mut detail =
                    "cluster event channel closed while waiting for owner generation (owner_id=".to_owned().concat(
                owner.node_id.as_str()).concat(" owner_start_time=");
                text::append_i64(&mut detail, owner.owner_start_time);
                let detail = detail.concat("): ").concat(error.as_str());
                Some(Err(KvErrorOf::Api(ApiErrorOf::Unknown { detail })))
            },
            _ => None,
        }
    }
}

/// A client that found its owner again waits until it can send to it, and then to the master.
pub enum RecoverRoutes {
    Owner(SendReadyWait),
    FindMaster,
    Master(SendReadyWait),
}

/// What a client that found its owner again does next.
pub enum RecoverRoutesStep {
    /// Ask the transport again, after a sleep.
    Sleep,
    FindMaster,
    /// Ask the transport for the route to the master.
    AskMaster,
    /// The owner is usable again, in this generation and at this address.
    Done { owner_start_time: i64, base_addr: u64 },
    Failed(KvError),
}

impl RecoverRoutes {
    /// The wait is for this peer, from this time on.
    pub open spec fn waits_for(
        wait: SendReadyWait,
        target: Seq<char>,
        role: Seq<char>,
        now_ms: u64,
    ) -> bool {
        &&& wait.logical_target@ == target
        &&& wait.target_role@ == role
        &&& wait.phase@ == "owner_recover"@
        &&& wait.deadline_ms == now_ms
            + crate::external_client_api::retry::EXTERNAL_INIT_CONTROL_PLANE_READY_TIMEOUT_MS
        &&& wait.attempts == 0
        &&& wait.consecutive_ready == 0
        &&& wait.last_transient_err is None
    }

    /// The wait that is under way, if there is one.
    pub open spec fn current(self) -> Option<SendReadyWait> {
        match self {
            RecoverRoutes::Owner(wait) => Some(wait),
            RecoverRoutes::FindMaster => None,
            RecoverRoutes::Master(wait) => Some(wait),
        }
    }

    /// The owner that the client was attached to comes first.
    pub fn begin(owner_id: String, now_ms: u64) -> (routes: Self)
        requires
            now_ms + crate::external_client_api::retry::EXTERNAL_INIT_CONTROL_PLANE_READY_TIMEOUT_MS
                <= u64::MAX,
        ensures
            routes matches RecoverRoutes::Owner(wait) && Self::waits_for(
                wait,
                owner_id@,
                "owner"@,
                now_ms,
            ),
    {
        RecoverRoutes::Owner(SendReadyWait::begin(owner_id, "owner", "owner_recover", now_ms))
    }

    /// Takes what the search for the master gave.
    pub fn on_master(self, master: KvResult<String>, now_ms: u64) -> (next: (
        RecoverRoutes,
        RecoverRoutesStep,
    ))
        requires
            self is FindMaster,
            now_ms + crate::external_client_api::retry::EXTERNAL_INIT_CONTROL_PLANE_READY_TIMEOUT_MS
                <= u64::MAX,
        ensures
            match master {
                Ok(master_id) => {
                    &&& next.0 matches RecoverRoutes::Master(wait) && Self::waits_for(
                        wait,
                        master_id@,
                        "master"@,
                        now_ms,
                    )
                    &&& next.1 == RecoverRoutesStep::AskMaster
                },
                Err(err) => next.0 == self && next.1 == RecoverRoutesStep::Failed(err),
            },
    {
        match master {
            Ok(master_id) => (
                RecoverRoutes::Master(
                    SendReadyWait::begin(master_id, "master", "owner_recover", now_ms),
                ),
                RecoverRoutesStep::AskMaster,
            ),
            Err(err) => (self, RecoverRoutesStep::Failed(err)),
        }
    }

    /// What follows an answer of the transport.
    pub open spec fn followed_by(
        self,
        inner: ExternalInner,
        readiness: Result<(), P2PError>,
        printed: String,
        now_ms: u64,
        next: (RecoverRoutes, RecoverRoutesStep),
    ) -> bool {
        let wait = self.current()->0;
        let asked = wait.asked_again(readiness, printed);
        match wait.answered(readiness, printed, now_ms) {
            crate::external_client_api::retry::ReadinessView::Ready => match self {
                RecoverRoutes::Owner(_) => next.0 == RecoverRoutes::FindMaster && next.1
                    == RecoverRoutesStep::FindMaster,
                _ => match inner.current_owner {
                    Some(owner) => next.1 == (RecoverRoutesStep::Done {
                        owner_start_time: owner.owner_start_time,
                        base_addr: owner.shared_memory.ptr_rw,
                    }),
                    None => next.1 matches RecoverRoutesStep::Failed(err) && err@
                        == crate::external_client_api::owner::memory_not_ready(),
                },
            },
            crate::external_client_api::retry::ReadinessView::Sleep => {
                &&& next.1 == RecoverRoutesStep::Sleep
                &&& next.0 == match self {
                    RecoverRoutes::Owner(_) => RecoverRoutes::Owner(asked),
                    _ => RecoverRoutes::Master(asked),
                }
            },
            crate::external_client_api::retry::ReadinessView::Failed(error) => {
                next.1 matches RecoverRoutesStep::Failed(err) && err@ == error
            },
        }
    }

    /// Takes the transport's answer to whether the peer can be sent to.
    pub fn on_readiness(
        self,
        inner: &ExternalInner,
        readiness: Result<(), P2PError>,
        printed: String,
        now_ms: u64,
    ) -> (next: (RecoverRoutes, RecoverRoutesStep))
        requires
            self.current() matches Some(wait) && wait.can_ask(),
        ensures
            self.followed_by(*inner, readiness, printed, now_ms, next),
            next.1 is Sleep ==> (next.0.current() matches Some(wait) && (wait.attempts < u64::MAX
                ==> wait.can_ask())),
    {
        match self {
            RecoverRoutes::Owner(wait) => {
                let mut wait = wait;
                match wait.on_readiness(readiness, printed, now_ms) {
                    SendReadyStep::Ready => (
                        RecoverRoutes::FindMaster,
                        RecoverRoutesStep::FindMaster,
                    ),
                    SendReadyStep::Sleep => (
                        RecoverRoutes::Owner(wait),
                        RecoverRoutesStep::Sleep,
                    ),
                    SendReadyStep::Failed(err) => (
                        RecoverRoutes::Owner(wait),
                        RecoverRoutesStep::Failed(err),
                    ),
                }
            },
            RecoverRoutes::Master(wait) => {
                let mut wait = wait;
                match wait.on_readiness(readiness, printed, now_ms) {
                    SendReadyStep::Ready => {
                        let step = match inner.base_ptr() {
                            Ok(base_addr) => RecoverRoutesStep::Done {
                                owner_start_time: inner.current_owner_start_time(),
                                base_addr,
                            },
                            Err(err) => RecoverRoutesStep::Failed(err),
                        };
                        (RecoverRoutes::Master(wait), step)
                    },
                    SendReadyStep::Sleep => (
                        RecoverRoutes::Master(wait),
                        RecoverRoutesStep::Sleep,
                    ),
                    SendReadyStep::Failed(err) => (
                        RecoverRoutes::Master(wait),
                        RecoverRoutesStep::Failed(err),
                    ),
                }
            },
            RecoverRoutes::FindMaster => (RecoverRoutes::FindMaster, RecoverRoutesStep::FindMaster),
        }
    }
}

/// An attached client maps memory again only for another description of the same owner: nothing is
/// mapped twice.
pub proof fn law_memory_is_mapped_once_per_description(
    inner: ExternalInner,
    expected: OwnerProbeExpectation<'_>,
    input: OwnerProbeInput,
)
    requires
        inner.expects(expected),
        crate::external_client_api::owner::probe_outcome(expected, input) is Ready,
    ensures
        inner.current_owner matches Some(owner) ==> (input.read
            matches crate::external_client_api::owner::SharedJsonRead::Read { meta, after, .. }
            && meta.owner_id@ == owner.node_id@ && after != owner.shared_memory.memory_signature),
{
}

} // verus!
