//! When an external client tries a call again, and how long it waits for a route.

use crate::error::{ApiErrorOf, KvError, KvErrorOf, P2PError, P2PErrorOf};
use crate::text;
use vstd::prelude::*;

verus! {

/// How often a call that failed for the transport is tried again.
pub const EXTERNAL_RPC_P2P_RECOVER_MAX_ATTEMPTS: usize = 3;

pub const EXTERNAL_PUT_START_RPC_TIMEOUT_SECS: u64 = 30;

pub const EXTERNAL_PUT_TRANSFER_END_RPC_TIMEOUT_SECS: u64 = 30;

pub const EXTERNAL_INIT_CONTROL_PLANE_READY_TIMEOUT_MS: u64 = 30_000;

pub const EXTERNAL_INIT_CONTROL_PLANE_READY_POLL_MS: u64 = 100;

pub const EXTERNAL_INIT_CONTROL_PLANE_READY_CONSECUTIVE_SUCCESSES: usize = 2;

/// What a client does about an error.
pub enum RetryDecision {
    /// The owner restarted: wait for its new generation, then try again.
    AwaitOwner,
    /// The owner was not reached: look at its generation, then try again.
    CheckOwner,
    Fail(KvError),
}

/// How a call has been retried.
pub struct RetryState {
    pub recover_attempts: usize,
    /// None for a call that is tried until it gets an answer.
    pub max_attempts: Option<usize>,
}

/// The owner that was asked is another generation of it.
pub open spec fn owner_restarted<S>(err: KvErrorOf<S>) -> bool {
    err matches KvErrorOf::Api(api) && api is OwnerStartTimeMismatch
}

impl RetryState {
    /// The state of a get, an existence check or a deletion.
    pub open spec fn bounded_state() -> RetryState {
        RetryState {
            recover_attempts: 0,
            max_attempts: Some(EXTERNAL_RPC_P2P_RECOVER_MAX_ATTEMPTS),
        }
    }

    /// The state of a put.
    pub open spec fn unbounded_state() -> RetryState {
        RetryState { recover_attempts: 0, max_attempts: None }
    }

    pub fn bounded() -> (state: Self)
        ensures
            state == Self::bounded_state(),
    {
        RetryState {
            recover_attempts: 0,
            max_attempts: Some(EXTERNAL_RPC_P2P_RECOVER_MAX_ATTEMPTS),
        }
    }

    pub fn unbounded() -> (state: Self)
        ensures
            state == Self::unbounded_state(),
    {
        RetryState { recover_attempts: 0, max_attempts: None }
    }

    /// Transport errors are still worth another try.
    pub open spec fn may_retry(self) -> bool {
        self.max_attempts matches Some(max) ==> self.recover_attempts < max
    }

    /// The state after another try for the transport.
    pub open spec fn retried(self) -> RetryState {
        RetryState {
            recover_attempts: if self.max_attempts is Some {
                (self.recover_attempts + 1) as usize
            } else {
                self.recover_attempts
            },
            max_attempts: self.max_attempts,
        }
    }

    /// Decides about an error: a restarted owner is waited for every time, a transport error is
    /// retried as often as the call allows, any other error is final.
    pub fn on_error(&mut self, err: KvError) -> (decision: RetryDecision)
        ensures
            if owner_restarted(err) {
                &&& decision == RetryDecision::AwaitOwner
                &&& *final(self) == *old(self)
            } else if err is P2p && old(self).may_retry() {
                &&& decision == RetryDecision::CheckOwner
                &&& *final(self) == old(self).retried()
            } else {
                &&& decision == RetryDecision::Fail(err)
                &&& *final(self) == *old(self)
            },
    {
        let restarted = match &err {
            KvErrorOf::Api(ApiErrorOf::OwnerStartTimeMismatch { .. }) => true,
            _ => false,
        };
        if restarted {
            return RetryDecision::AwaitOwner;
        }
        let transport = match &err {
            KvErrorOf::P2p(_) => true,
            _ => false,
        };
        if !transport {
            return RetryDecision::Fail(err);
        }
        match self.max_attempts {
            None => RetryDecision::CheckOwner,
            Some(max) => {
                if self.recover_attempts < max {
                    self.recover_attempts = self.recover_attempts + 1;
                    RetryDecision::CheckOwner
                } else {
                    RetryDecision::Fail(err)
                }
            },
        }
    }
}

/// The states that transport errors alone lead to.
pub open spec fn after_transport_errors(state: RetryState, errors: nat) -> RetryState
    decreases errors,
{
    if errors == 0 {
        state
    } else {
        let before = after_transport_errors(state, (errors - 1) as nat);
        if before.may_retry() {
            before.retried()
        } else {
            before
        }
    }
}

/// A call with a limit is retried that often for the transport, and the next transport error is
/// final.
pub proof fn law_retries_are_bounded(state: RetryState, errors: nat)
    requires
        state.recover_attempts == 0,
        state.max_attempts is Some,
    ensures
        after_transport_errors(state, errors).may_retry() <==> errors < state.max_attempts->0,
        after_transport_errors(state, errors).recover_attempts == if errors
            < state.max_attempts->0 {
            errors as int
        } else {
            state.max_attempts->0 as int
        },
        after_transport_errors(state, errors).max_attempts == state.max_attempts,
    decreases errors,
{
    if errors > 0 {
        law_retries_are_bounded(state, (errors - 1) as nat);
    }
}

/// A put is retried for the transport however often it fails.
pub proof fn law_puts_are_retried_until_answered(state: RetryState, errors: nat)
    requires
        state.max_attempts is None,
    ensures
        after_transport_errors(state, errors).may_retry(),
        after_transport_errors(state, errors).max_attempts is None,
    decreases errors,
{
    if errors > 0 {
        law_puts_are_retried_until_answered(state, (errors - 1) as nat);
    }
}

/// The answer to an acknowledged release: a restarted owner holds nothing any more, so its refusal
/// counts as success.
pub fn delete_ack_result(answer: Result<(), KvError>) -> (result: Result<(), KvError>)
    ensures
        match answer {
            Ok(_) => result is Ok,
            Err(err) => if owner_restarted(err) {
                result is Ok
            } else {
                result == Err::<(), KvError>(err)
            },
        },
{
    match answer {
        Ok(_) => Ok(()),
        Err(err) => {
            let restarted = match &err {
                KvErrorOf::Api(ApiErrorOf::OwnerStartTimeMismatch { .. }) => true,
                _ => false,
            };
            if restarted {
                Ok(())
            } else {
                Err(err)
            }
        },
    }
}

/// A wait for the route to a peer.
pub struct SendReadyWait {
    pub logical_target: String,
    pub target_role: &'static str,
    pub phase: &'static str,
    pub deadline_ms: u64,
    pub attempts: u64,
    pub consecutive_ready: usize,
    pub last_transient_err: Option<String>,
}

/// What a wait for a route does next.
pub enum SendReadyStep {
    Ready,
    /// Sleep for `EXTERNAL_INIT_CONTROL_PLANE_READY_POLL_MS` and ask again.
    Sleep,
    Failed(KvError),
}

/// What an answer of the transport comes to.
pub enum ReadinessView {
    Ready,
    Sleep,
    Failed(KvErrorOf<Seq<char>>),
}

/// The transport errors that a route still being set up gives.
pub open spec fn is_transient<S>(err: P2PErrorOf<S>) -> bool {
    err is NoConnectionReady || err is NodeNotFound || err is NodeNotConnected
        || err is NodePortNotReady || err is ConnectionError || err is SendFailed
        || err is Iceoryx2TransportNotStarted
}

fn transient(err: &P2PError) -> (is: bool)
    ensures
        is == is_transient(*err),
{
    match err {
        P2PErrorOf::NoConnectionReady { .. } => true,
        P2PErrorOf::NodeNotFound { .. } => true,
        P2PErrorOf::NodeNotConnected { .. } => true,
        P2PErrorOf::NodePortNotReady { .. } => true,
        P2PErrorOf::ConnectionError { .. } => true,
        P2PErrorOf::SendFailed { .. } => true,
        P2PErrorOf::Iceoryx2TransportNotStarted => true,
        P2PErrorOf::StartServerError { .. } => false,
        P2PErrorOf::Other { .. } => false,
    }
}

/// The text of an optional error.
pub open spec fn optional_text(text: Option<String>) -> Option<Seq<char>> {
    match text {
        Some(text) => Some(text@),
        None => None,
    }
}

impl SendReadyWait {
    pub fn begin(
        logical_target: String,
        target_role: &'static str,
        phase: &'static str,
        now_ms: u64,
    ) -> (wait: Self)
        requires
            now_ms + EXTERNAL_INIT_CONTROL_PLANE_READY_TIMEOUT_MS <= u64::MAX,
        ensures
            wait == (SendReadyWait {
                logical_target,
                target_role,
                phase,
                deadline_ms: (now_ms + EXTERNAL_INIT_CONTROL_PLANE_READY_TIMEOUT_MS) as u64,
                attempts: 0,
                consecutive_ready: 0,
                last_transient_err: None,
            }),
    {
        SendReadyWait {
            logical_target,
            target_role,
            phase,
            deadline_ms: now_ms + EXTERNAL_INIT_CONTROL_PLANE_READY_TIMEOUT_MS,
            attempts: 0,
            consecutive_ready: 0,
            last_transient_err: None,
        }
    }

    /// Before each question: the wait stops with the system.
    pub fn check_running(&self, running: bool) -> (stopped: Option<KvError>)
        ensures
            if running {
                stopped is None
            } else {
                stopped matches Some(err) && err@ == KvErrorOf::Api(
                    ApiErrorOf::SystemShutdown {
                        detail: "external control-plane wait stopped during "@ + self.phase@
                            + ": target_role="@ + self.target_role@ + " target="@
                            + self.logical_target@,
                    },
                )
            },
    {
        if running {
            return None;
        }
        let detail = "external control-plane wait stopped during ".to_owned().concat(
            self.phase,
        ).concat(": target_role=").concat(self.target_role).concat(" target=").concat(
            self.logical_target.as_str(),
        );
        Some(KvErrorOf::Api(ApiErrorOf::SystemShutdown { detail }))
    }

    /// What a wait that ran out of time says.
    pub open spec fn timed_out(self) -> KvErrorOf<Seq<char>> {
        KvErrorOf::Api(
            ApiErrorOf::Unknown {
                detail: "timed out waiting for external control-plane route during "@ + self.phase@
                    + ": target_role="@ + self.target_role@ + " target="@ + self.logical_target@
                    + " attempts="@ + text::decimal(self.attempts as nat)
                    + " last_transient_err="@ + text::debug_option_text(
                    optional_text(self.last_transient_err),
                ),
            },
        )
    }

    fn time_out(&self) -> (err: KvError)
        ensures
            err@ == self.timed_out(),
    {
        let mut detail =
            "timed out waiting for external control-plane route during ".to_owned().concat(
            self.phase,
        ).concat(": target_role=").concat(self.target_role).concat(" target=").concat(
            self.logical_target.as_str(),
        ).concat(" attempts=");
        text::append_u64(&mut detail, self.attempts);
        detail.append(" last_transient_err=");
        let printed = text::debug_option_string(self.last_transient_err.as_ref());
        KvErrorOf::Api(ApiErrorOf::Unknown { detail: detail.concat(printed.as_str()) })
    }

    /// The wait after an answer that did not end it.
    pub open spec fn asked_again(self, readiness: Result<(), P2PError>, printed: String) -> Self {
        SendReadyWait {
            attempts: (self.attempts + 1) as u64,
            consecutive_ready: if readiness is Ok {
                (self.consecutive_ready + 1) as usize
            } else {
                0
            },
            last_transient_err: if readiness is Ok {
                self.last_transient_err
            } else {
                Some(printed)
            },
            ..self
        }
    }

    /// The route did not count as ready yet, and the answers can be counted on.
    pub open spec fn can_ask(self) -> bool {
        &&& self.attempts < u64::MAX
        &&& self.consecutive_ready < EXTERNAL_INIT_CONTROL_PLANE_READY_CONSECUTIVE_SUCCESSES
    }

    /// What the transport's answer comes to: the route counts as ready after two good answers in a
    /// row, a transient error starts the count anew, any other error ends the wait, and so does the
    /// deadline.
    pub open spec fn answered(
        self,
        readiness: Result<(), P2PError>,
        printed: String,
        now_ms: u64,
    ) -> ReadinessView {
        let next = self.asked_again(readiness, printed);
        if readiness is Ok && next.consecutive_ready
            >= EXTERNAL_INIT_CONTROL_PLANE_READY_CONSECUTIVE_SUCCESSES {
            ReadinessView::Ready
        } else if readiness matches Err(err) && !is_transient(err) {
            ReadinessView::Failed(KvErrorOf::P2p(readiness->Err_0)@)
        } else if now_ms >= self.deadline_ms {
            ReadinessView::Failed(next.timed_out())
        } else {
            ReadinessView::Sleep
        }
    }

    /// Takes the transport's answer. `printed` is the error as it is shown.
    pub fn on_readiness(
        &mut self,
        readiness: Result<(), P2PError>,
        printed: String,
        now_ms: u64,
    ) -> (step: SendReadyStep)
        requires
            old(self).can_ask(),
        ensures
            match old(self).answered(readiness, printed, now_ms) {
                ReadinessView::Ready => step == SendReadyStep::Ready,
                ReadinessView::Sleep => {
                    &&& step == SendReadyStep::Sleep
                    &&& *final(self) == old(self).asked_again(readiness, printed)
                    &&& final(self).consecutive_ready
                        < EXTERNAL_INIT_CONTROL_PLANE_READY_CONSECUTIVE_SUCCESSES
                },
                ReadinessView::Failed(error) => step matches SendReadyStep::Failed(err) && err@
                    == error,
            },
    {
        match readiness {
            Ok(_) => {
                self.consecutive_ready = self.consecutive_ready + 1;
                if self.consecutive_ready
                    >= EXTERNAL_INIT_CONTROL_PLANE_READY_CONSECUTIVE_SUCCESSES {
                    return SendReadyStep::Ready;
                }
            },
            Err(err) => {
                if !transient(&err) {
                    return SendReadyStep::Failed(KvErrorOf::P2p(err));
                }
                self.consecutive_ready = 0;
                self.last_transient_err = Some(printed);
            },
        }
        self.attempts = self.attempts + 1;
        if now_ms >= self.deadline_ms {
            return SendReadyStep::Failed(self.time_out());
        }
        SendReadyStep::Sleep
    }
}

} // verus!
