//! The calls of an external client to its owner, step by step.
//!
//! The caller sends the requests and waits for the owner; a call is told what came of it and says
//! how it goes on.

use crate::cluster_manager::ClusterMember;
use crate::error::{KvError, KvErrorOf, KvResult};
use crate::external_client_api::owner::{ExternalInner, RecoverStep};
use crate::external_client_api::put::{
    external_get_request,
    held_value,
    ExternalGetInfo,
    ExternalGetReq,
    ExternalKeyReq,
    ExternalMemHolder,
};
use crate::external_client_api::retry::{RetryDecision, RetryState};
use vstd::prelude::*;

verus! {

/// What a call waits for.
#[derive(Clone, Copy, Debug, PartialEq, Eq, Structural)]
pub enum OwnerWait {
    /// The owner's memory is not mapped yet.
    Mapped,
    /// The owner was not reached, and may be of another generation.
    Reached,
    /// The owner is of another generation than the one that was asked.
    Restarted,
}

/// A call to the owner.
pub struct OwnerCall {
    /// The generation of the owner that is asked.
    pub prev_owner_start_time: i64,
    /// Where the owner's memory can be written.
    pub base_addr: u64,
    pub retry: RetryState,
    pub wait: Option<OwnerWait>,
}

impl OwnerCall {
    /// A new call waits only where the owner's memory is not mapped.
    pub open spec fn fresh(inner: ExternalInner, retry: RetryState) -> OwnerCall {
        OwnerCall {
            prev_owner_start_time: inner.owner_start_time(),
            base_addr: match inner.current_owner {
                Some(owner) => owner.shared_memory.ptr_rw,
                None => 0,
            },
            retry,
            wait: match inner.current_owner {
                Some(_) => None,
                None => Some(OwnerWait::Mapped),
            },
        }
    }

    pub fn begin(inner: &ExternalInner, retry: RetryState) -> (call: Self)
        ensures
            call == Self::fresh(*inner, retry),
    {
        let prev_owner_start_time: i64 = inner.current_owner_start_time();
        match inner.base_ptr() {
            Ok(base_addr) => OwnerCall { prev_owner_start_time, base_addr, retry, wait: None },
            Err(_) => OwnerCall {
                prev_owner_start_time,
                base_addr: 0,
                retry,
                wait: Some(OwnerWait::Mapped),
            },
        }
    }

    /// The generation and the memory that the call goes on with, if its wait is over.
    /// `owner_member` is what the cluster knows of the owner.
    pub open spec fn recovered(
        self,
        inner: ExternalInner,
        owner_member: Option<ClusterMember>,
    ) -> Option<(i64, u64)> {
        let stays = match self.wait {
            Some(OwnerWait::Mapped) => true,
            Some(OwnerWait::Reached) => !inner.generation_changed(
                owner_member,
                self.prev_owner_start_time,
            ),
            _ => false,
        };
        match inner.current_owner {
            Some(owner) if stays => Some(
                (self.prev_owner_start_time, owner.shared_memory.ptr_rw),
            ),
            _ => inner.awaited_owner(self.prev_owner_start_time),
        }
    }

    /// Looks whether the wait is over. It fails with the system.
    pub fn poll_owner(
        &mut self,
        inner: &ExternalInner,
        owner_member: &Option<ClusterMember>,
        running: bool,
    ) -> (over: Option<KvResult<()>>)
        ensures
            match old(self).recovered(*inner, *owner_member) {
                Some((owner_start_time, base_addr)) => {
                    &&& over matches Some(result) && result is Ok
                    &&& *final(self) == (OwnerCall {
                        prev_owner_start_time: owner_start_time,
                        base_addr,
                        retry: old(self).retry,
                        wait: None,
                    })
                },
                None => {
                    &&& *final(self) == (OwnerCall {
                        wait: Some(OwnerWait::Restarted),
                        ..*old(self)
                    })
                    &&& if running {
                        over is None
                    } else {
                        over matches Some(Err(err)) && err@
                            == crate::external_client_api::owner::recovery_aborted()
                    }
                },
            },
    {
        let prev: i64 = self.prev_owner_start_time;
        let first = match self.wait {
            Some(OwnerWait::Mapped) => inner.ensure_owner_ready(prev),
            Some(OwnerWait::Reached) => inner.recover_after_p2p_error(owner_member, prev),
            _ => RecoverStep::Wait,
        };
        let step = match first {
            RecoverStep::Wait => inner.wait_owner_recover(prev, running),
            step => step,
        };
        match step {
            RecoverStep::Ready { owner_start_time, base_addr } => {
                self.prev_owner_start_time = owner_start_time;
                self.base_addr = base_addr;
                self.wait = None;
                Some(Ok(()))
            },
            RecoverStep::Wait => {
                self.wait = Some(OwnerWait::Restarted);
                None
            },
            RecoverStep::Failed(err) => {
                self.wait = Some(OwnerWait::Restarted);
                Some(Err(err))
            },
        }
    }

    /// The call after an error, and the error if it is final.
    pub open spec fn after_error(self, err: KvError) -> (OwnerCall, Option<KvError>) {
        if crate::external_client_api::retry::owner_restarted(err) {
            (OwnerCall { wait: Some(OwnerWait::Restarted), ..self }, None)
        } else if err is P2p && self.retry.may_retry() {
            (
                OwnerCall { wait: Some(OwnerWait::Reached), retry: self.retry.retried(), ..self },
                None,
            )
        } else {
            (self, Some(err))
        }
    }

    /// Takes an error: the call waits for the owner and is tried again, unless the error is final.
    pub fn on_error(&mut self, err: KvError) -> (last: Option<KvError>)
        ensures
            (*final(self), last) == old(self).after_error(err),
    {
        match self.retry.on_error(err) {
            RetryDecision::AwaitOwner => {
                self.wait = Some(OwnerWait::Restarted);
                None
            },
            RetryDecision::CheckOwner => {
                self.wait = Some(OwnerWait::Reached);
                None
            },
            RetryDecision::Fail(err) => Some(err),
        }
    }
}

/// An existence check or a deletion.
pub struct KeyCall {
    pub key: String,
    pub call: OwnerCall,
}

/// What an existence check or a deletion does next.
pub enum KeyCallStep {
    /// Wait for the owner: poll it until the wait is over.
    AwaitOwner,
    Send { owner: String, req: ExternalKeyReq },
    Failed(KvError),
}

impl KeyCall {
    pub fn begin(inner: &ExternalInner, key: &str) -> (call: Self)
        ensures
            call.key@ == key@,
            call.call == OwnerCall::fresh(*inner, RetryState::bounded_state()),
    {
        KeyCall { key: key.to_owned(), call: OwnerCall::begin(inner, RetryState::bounded()) }
    }

    /// The request goes to the owner that the client is attached to, in its generation.
    pub fn next(&self, inner: &ExternalInner) -> (step: KeyCallStep)
        ensures
            match (self.call.wait, inner.current_owner) {
                (Some(_), _) => step == KeyCallStep::AwaitOwner,
                (None, Some(current)) => step matches KeyCallStep::Send { owner, req } && owner
                    == current.node_id && req.key@ == self.key@ && req.started_time
                    == inner.owner_start_time(),
                (None, None) => step matches KeyCallStep::Failed(err) && err@
                    == crate::external_client_api::owner::owner_id_unavailable(),
            },
    {
        if self.call.wait.is_some() {
            return KeyCallStep::AwaitOwner;
        }
        match inner.owner_to_call() {
            Ok(owner) => KeyCallStep::Send {
                owner,
                req: inner.external_key_request(self.key.as_str()),
            },
            Err(err) => KeyCallStep::Failed(err),
        }
    }

    /// Takes the answer, or the error that the transport or the owner gave. The call is over with
    /// the result that is returned.
    pub fn on_reply<T>(&mut self, reply: KvResult<T>) -> (result: Option<KvResult<T>>)
        ensures
            final(self).key == old(self).key,
            match reply {
                Ok(value) => {
                    &&& result == Some(Ok::<T, KvError>(value))
                    &&& final(self).call == old(self).call
                },
                Err(err) => {
                    let (call, last) = old(self).call.after_error(err);
                    &&& final(self).call == call
                    &&& result == match last {
                        Some(err) => Some(Err::<T, KvError>(err)),
                        None => None,
                    }
                },
            },
    {
        match reply {
            Ok(value) => Some(Ok(value)),
            Err(err) => match self.call.on_error(err) {
                Some(err) => Some(Err(err)),
                None => None,
            },
        }
    }
}

/// How far a get has come.
pub enum GetStage {
    /// A holder of the value is looked for.
    Looking,
    /// No other get of the key is under way, and a holder is looked for again.
    Acquired,
    /// The owner was asked. The value is read where its memory was mapped then.
    Asked { base_ro: u64 },
}

/// A get. Of several gets of a key one asks the owner, and the others find what it got.
pub struct GetCall {
    pub key: String,
    pub self_id: String,
    pub call: OwnerCall,
    pub stage: GetStage,
}

/// What a get does next.
pub enum GetCallStep {
    /// Wait for the owner: poll it until the wait is over.
    AwaitOwner,
    /// The get is over: this holder stands for the value.
    Held { holder_id: u64 },
    /// Go on once no other get of the key is under way. The get is under way until it is over.
    Acquire,
    Send { owner: String, req: ExternalGetReq },
    /// The get is over.
    Failed(KvError),
}

/// What the answer to a get does, and what it comes to.
pub open spec fn get_call_answered(
    before: GetCall,
    after: GetCall,
    inner: ExternalInner,
    inner_after: ExternalInner,
    reply: KvResult<Option<ExternalGetInfo>>,
    result: Option<KvResult<Option<ExternalMemHolder>>>,
) -> bool {
    match reply {
        Ok(found) => {
            &&& after.call == before.call
            &&& result matches Some(Ok(holder)) && crate::external_client_api::put::held(
                holder,
                found,
                before.stage->base_ro,
                before.key@,
                before.self_id@,
                before.call.prev_owner_start_time,
            )
            &&& inner_after.key_weak_memholder_index@ == match found {
                Some(info) => inner.key_weak_memholder_index@.insert(
                    before.key@,
                    info.holder_id,
                ),
                None => inner.key_weak_memholder_index@,
            }
        },
        Err(err) => {
            let (call, last) = before.call.after_error(err);
            &&& after.call == call
            &&& result == match last {
                Some(err) => Some(Err::<Option<ExternalMemHolder>, KvError>(err)),
                None => None,
            }
            &&& inner_after.key_weak_memholder_index@ == inner.key_weak_memholder_index@
        },
    }
}

impl GetCall {
    pub fn begin(inner: &ExternalInner, key: &str, self_id: &str) -> (call: Self)
        ensures
            call.key@ == key@,
            call.self_id@ == self_id@,
            call.call == OwnerCall::fresh(*inner, RetryState::bounded_state()),
            call.stage == GetStage::Looking,
    {
        GetCall {
            key: key.to_owned(),
            self_id: self_id.to_owned(),
            call: OwnerCall::begin(inner, RetryState::bounded()),
            stage: GetStage::Looking,
        }
    }

    /// The get asks the owner, in the generation that it has seen.
    pub open spec fn asks(self, after: GetCall, inner: ExternalInner, step: GetCallStep) -> bool {
        match inner.current_owner {
            Some(current) => {
                &&& step matches GetCallStep::Send { owner, req } && owner == current.node_id
                    && req.key@ == self.key@ && req.req_node_id@ == self.self_id@
                    && req.started_time == self.call.prev_owner_start_time
                &&& after == (GetCall {
                    stage: GetStage::Asked { base_ro: current.shared_memory.ptr_ro },
                    ..self
                })
            },
            None => {
                &&& step matches GetCallStep::Failed(err) && err@
                    == crate::external_client_api::owner::owner_id_unavailable()
                &&& after == self
            },
        }
    }

    /// What a get does next. `live` tells of the holder that the client's index names for the key
    /// whether it still exists, and of which generation of the owner it is.
    pub fn next(&mut self, inner: &mut ExternalInner, live: Option<i64>) -> (step: GetCallStep)
        ensures
            match (old(self).call.wait, old(self).stage) {
                (Some(_), _) => {
                    &&& step == GetCallStep::AwaitOwner
                    &&& *final(self) == *old(self)
                    &&& *final(inner) == *old(inner)
                },
                (None, GetStage::Asked { .. }) => {
                    &&& *final(inner) == *old(inner)
                    &&& old(self).asks(*final(self), *old(inner), step)
                },
                (None, stage) => {
                    &&& old(inner).looked_up(*final(inner), old(self).key@, live)
                    &&& match old(inner).weak_holder(old(self).key@, live) {
                        Some(holder_id) => {
                            &&& step == (GetCallStep::Held { holder_id })
                            &&& *final(self) == *old(self)
                        },
                        None => if stage is Looking {
                            &&& step == GetCallStep::Acquire
                            &&& *final(self) == (GetCall {
                                stage: GetStage::Acquired,
                                ..*old(self)
                            })
                        } else {
                            old(self).asks(*final(self), *old(inner), step)
                        },
                    }
                },
            },
    {
        if self.call.wait.is_some() {
            return GetCallStep::AwaitOwner;
        }
        match self.stage {
            GetStage::Looking => {
                if let Some(holder_id) = inner.try_get_from_weak_cache(self.key.as_str(), live) {
                    return GetCallStep::Held { holder_id };
                }
                self.stage = GetStage::Acquired;
                return GetCallStep::Acquire;
            },
            GetStage::Acquired => {
                if let Some(holder_id) = inner.try_get_from_weak_cache(self.key.as_str(), live) {
                    return GetCallStep::Held { holder_id };
                }
            },
            GetStage::Asked { .. } => {},
        }
        match (inner.owner_to_call(), inner.base_ptr_ro()) {
            (Ok(owner), Ok(base_ro)) => {
                self.stage = GetStage::Asked { base_ro };
                GetCallStep::Send {
                    owner,
                    req: external_get_request(
                        self.key.as_str(),
                        self.self_id.as_str(),
                        self.call.prev_owner_start_time,
                    ),
                }
            },
            (Err(err), _) => GetCallStep::Failed(err),
            (_, Err(err)) => GetCallStep::Failed(err),
        }
    }

    /// Takes the answer, or the error that the transport or the owner gave. A value that was found
    /// is held in the owner's memory, and found again as long as its holder exists.
    pub fn on_reply(
        &mut self,
        inner: &mut ExternalInner,
        reply: KvResult<Option<ExternalGetInfo>>,
    ) -> (result: Option<KvResult<Option<ExternalMemHolder>>>)
        requires
            old(self).stage matches GetStage::Asked { base_ro } && (reply matches Ok(Some(info))
                ==> base_ro + info.offset <= u64::MAX),
        ensures
            *final(self) == (GetCall { call: final(self).call, ..*old(self) }),
            *final(inner) == (ExternalInner {
                key_weak_memholder_index: final(inner).key_weak_memholder_index,
                ..*old(inner)
            }),
            get_call_answered(
                *old(self),
                *final(self),
                *old(inner),
                *final(inner),
                reply,
                result,
            ),
    {
        match reply {
            Ok(found) => {
                let base_ro: u64 = match self.stage {
                    GetStage::Asked { base_ro } => base_ro,
                    _ => 0,
                };
                if let Some(info) = &found {
                    inner.key_weak_memholder_index.insert(self.key.clone(), info.holder_id);
                }
                Some(
                    Ok(
                        held_value(
                            found,
                            base_ro,
                            self.key.as_str(),
                            self.self_id.as_str(),
                            self.call.prev_owner_start_time,
                        ),
                    ),
                )
            },
            Err(err) => match self.call.on_error(err) {
                Some(err) => Some(Err(err)),
                None => None,
            },
        }
    }
}

/// What a get was answered with stands for the value from then on: a later get in the same
/// generation of the owner finds it without asking, as long as its holder exists.
pub proof fn law_held_value_is_found_again(
    after: ExternalInner,
    index: Map<Seq<char>, u64>,
    key: Seq<char>,
    info: ExternalGetInfo,
)
    requires
        after.key_weak_memholder_index@ == index.insert(key, info.holder_id),
    ensures
        after.weak_holder(key, Some(after.owner_start_time())) == Some(info.holder_id),
        after.weak_holder(key, None) is None,
{
}

/// A call goes on only with memory of the owner that the client is attached to, and after a restart
/// of the owner only in another generation.
pub proof fn law_calls_go_on_with_mapped_memory(
    call: OwnerCall,
    inner: ExternalInner,
    owner_member: Option<ClusterMember>,
)
    ensures
        call.recovered(inner, owner_member) matches Some((owner_start_time, base_addr)) ==> {
            &&& inner.current_owner matches Some(owner) && base_addr == owner.shared_memory.ptr_rw
            &&& call.wait == Some(OwnerWait::Restarted) ==> owner_start_time
                != call.prev_owner_start_time
        },
{
}

/// A call that is tried without a limit is given up only for an error that neither the transport nor
/// a restart of the owner explains.
pub proof fn law_unlimited_calls_outlast_the_transport(call: OwnerCall, err: KvError)
    requires
        call.retry.max_attempts is None,
    ensures
        call.after_error(err).1 is Some <==> !(err is P2p)
            && !crate::external_client_api::retry::owner_restarted(err),
        call.after_error(err).0.retry.max_attempts is None,
{
}

} // verus!
