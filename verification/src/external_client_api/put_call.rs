//! A put of an external client, step by step.
//!
//! A put is started, its value is written into the owner's memory, and it is ended. The start and
//! the end go to a side worker where one serves, and to the owner where it cannot be reached. The
//! caller sends the requests, writes the value and waits for the owner; the put is told what came of
//! it and says how it goes on.

use crate::cluster_manager::ClusterMember;
use crate::error::{KvError, KvErrorOf, KvResult, P2PError};
use crate::external_client_api::calls::OwnerCall;
use crate::external_client_api::owner::ExternalInner;
use crate::external_client_api::put::{
    external_put_start_request,
    ExternalPutCommitReq,
    ExternalPutStartOk,
    ExternalPutStartReq,
    ExternalPutTransferEndReq,
    PutOptions,
};
use crate::external_client_api::retry::RetryState;
use crate::external_client_api::side_transfer::{
    pick_side_transfer_peer,
    put_start_target,
    put_transfer_end_target,
    settle_call,
    CallOutcome,
    CallTarget,
    SideTransferPeer,
};
use vstd::prelude::*;

verus! {

/// What a caller wants to put.
pub struct PutArgs {
    pub key: String,
    pub len: u64,
    pub opts: PutOptions,
}

/// Where a put stands.
pub enum PutStage {
    /// Nothing was sent, or the put is tried anew.
    Idle,
    /// The start was sent.
    Starting { owner: String, target: CallTarget },
    /// The end of a put without a payload was sent.
    Committing { put_id: Option<(u64, u32)> },
    /// The value is being written.
    Writing { started: ExternalPutStartOk },
    /// The value is written, and a side worker is looked for.
    Picking { owner: String, started: ExternalPutStartOk, tried: Option<(String, u16)> },
    /// The end was sent. `bound` tells that it went to the worker that answered the start.
    Ending {
        owner: String,
        started: ExternalPutStartOk,
        target: CallTarget,
        tried: Option<(String, u16)>,
        bound: bool,
    },
}

/// A put under way.
pub struct ExternalPut {
    pub args: PutArgs,
    pub call: OwnerCall,
    /// The side worker that answered last.
    pub side: Option<(String, u16)>,
    pub stage: PutStage,
}

/// What a put does next. A request to a side worker goes to that worker, any other to the owner.
#[allow(inconsistent_fields)]
pub enum PutStep {
    /// Wait for the owner: poll it until the wait is over.
    AwaitOwner,
    /// Look at the side workers and start.
    Start,
    CallStart { owner: String, target: CallTarget, req: ExternalPutStartReq },
    Commit { owner: String, req: ExternalPutCommitReq },
    /// Write the value there.
    Write { addr: u64 },
    /// Look at the side workers and end.
    Pick,
    CallEnd { owner: String, target: CallTarget, req: ExternalPutTransferEndReq },
    /// The put is over, with the side worker that answered last.
    Done(KvResult<Option<(String, u16)>>),
}

impl ExternalInner {
    /// The side worker that serves the owner that the client is attached to.
    pub open spec fn picked(self, peers: Seq<SideTransferPeer>, put_id: Option<(u64, u32)>) -> Option<
        crate::external_client_api::side_transfer::LanePeer,
    > {
        match self.current_owner {
            Some(owner) => crate::external_client_api::side_transfer::picked_peer(
                crate::external_client_api::side_transfer::serving_lanes(
                    peers,
                    owner.node_id@,
                    owner.owner_start_time,
                ),
                put_id,
                self.side_rr_next,
            ),
            None => None,
        }
    }

    /// The number of the next turn among the side workers, once one was picked: calls that belong to
    /// no put take turns.
    pub open spec fn turn_after(
        self,
        peers: Seq<SideTransferPeer>,
        put_id: Option<(u64, u32)>,
    ) -> usize {
        if put_id is None && self.picked(peers, put_id) is Some {
            self.side_rr_next.wrapping_add(1)
        } else {
            self.side_rr_next
        }
    }

    /// Picks the side worker to send to, among those that published themselves.
    pub fn pick_side_worker(
        &mut self,
        peers: &Vec<SideTransferPeer>,
        put_id: Option<(u64, u32)>,
    ) -> (picked: Option<(String, u16)>)
        ensures
            *final(self) == (ExternalInner {
                side_rr_next: old(self).turn_after(peers@, put_id),
                ..*old(self)
            }),
            match picked {
                Some(picked) => old(self).picked(peers@, put_id) == Some((picked.1, picked.0@)),
                None => old(self).picked(peers@, put_id) is None,
            },
    {
        match self.shared_storage_node_id() {
            Some(owner_id) => {
                let owner_start_time: i64 = self.current_owner_start_time();
                pick_side_transfer_peer(
                    peers,
                    owner_id.as_str(),
                    owner_start_time,
                    put_id,
                    &mut self.side_rr_next,
                )
            },
            None => None,
        }
    }
}

fn later_side(first: Option<(String, u16)>, last: Option<(String, u16)>) -> (side: Option<
    (String, u16),
>)
    ensures
        side == latest(first, last),
{
    match last {
        Some(last) => Some(last),
        None => first,
    }
}

/// The side worker that answered last.
pub open spec fn latest(first: Option<(String, u16)>, last: Option<(String, u16)>) -> Option<
    (String, u16),
> {
    match last {
        Some(last) => Some(last),
        None => first,
    }
}

fn copy_side(side: &Option<(String, u16)>) -> (copy: Option<(String, u16)>)
    ensures
        copy == *side,
{
    match side {
        Some(side) => Some((side.0.clone(), side.1)),
        None => None,
    }
}

/// The bindings of the puts without one.
pub open spec fn unbound(
    bindings: Map<(u64, u32), (Seq<char>, u16)>,
    put_id: Option<(u64, u32)>,
) -> Map<(u64, u32), (Seq<char>, u16)> {
    match put_id {
        Some(put_id) => bindings.remove(put_id),
        None => bindings,
    }
}

/// The bindings with a put bound to the worker that answered its start.
pub open spec fn bound_to(
    bindings: Map<(u64, u32), (Seq<char>, u16)>,
    put_id: Option<(u64, u32)>,
    side: Option<(String, u16)>,
) -> Map<(u64, u32), (Seq<char>, u16)> {
    match (put_id, side) {
        (Some(put_id), Some(side)) => bindings.insert(put_id, (side.0@, side.1)),
        _ => bindings,
    }
}

/// What the answer to the start of a put does, and what it comes to.
pub open spec fn start_answered(
    inner: ExternalInner,
    inner_after: ExternalInner,
    put: ExternalPut,
    reply: Result<KvResult<ExternalPutStartOk>, P2PError>,
    next: (ExternalPut, PutStep),
) -> bool {
    let bindings = inner.side_transfer_put_bindings@;
    let owner = put.stage->Starting_owner;
    let target = put.stage->Starting_target;
    match reply {
        Err(err) => {
            &&& inner_after.side_transfer_put_bindings@ == bindings
            &&& if target is Side
                && crate::external_client_api::side_transfer::falls_back(err) {
                put.starting(next.0, next.1, owner, CallTarget::Owner)
            } else {
                put.failed(next.0, next.1, KvErrorOf::P2p(err))
            }
        },
        Ok(Err(err)) => {
            &&& inner_after.side_transfer_put_bindings@ == bindings
            &&& put.failed(next.0, next.1, err)
        },
        Ok(Ok(started)) => {
            let side = target.side();
            &&& inner_after.side_transfer_put_bindings@ == bound_to(
                bindings,
                started.put_id,
                side,
            )
            &&& if !inner.short_circuit_put_payload_path {
                &&& next.0 == (ExternalPut {
                    side,
                    stage: PutStage::Writing { started },
                    ..put
                })
                &&& next.1 == (PutStep::Write {
                    addr: (put.call.base_addr + started.write_offset()) as u64,
                })
            } else {
                match inner.current_owner {
                    Some(current) => {
                        &&& next.0 == (ExternalPut {
                            side,
                            stage: PutStage::Committing { put_id: started.put_id },
                            ..put
                        })
                        &&& next.1 matches PutStep::Commit { owner: to, req } && to
                            == current.node_id && req.commits(
                            started.put_id,
                            put.args.key@,
                            put.args.opts,
                            put.call.prev_owner_start_time,
                        )
                    },
                    None => put.failed_without_owner(next.0, next.1),
                }
            }
        },
    }
}

/// What the answer to the end of a put does, and what it comes to.
pub open spec fn end_answered(
    inner: ExternalInner,
    inner_after: ExternalInner,
    put: ExternalPut,
    reply: Result<KvResult<()>, P2PError>,
    next: (ExternalPut, PutStep),
) -> bool {
    let owner = put.stage->Ending_owner;
    let started = put.stage->Ending_started;
    let target = put.stage->Ending_target;
    let tried = put.stage->Ending_tried;
    let bindings = inner.side_transfer_put_bindings@;
    let again = target is Side && (reply matches Err(err)
        && crate::external_client_api::side_transfer::falls_back(err));
    &&& inner_after.side_transfer_put_bindings@ == if again {
        bindings
    } else {
        unbound(bindings, started.put_id)
    }
    &&& if again && put.stage->Ending_bound {
        &&& next.1 == PutStep::Pick
        &&& next.0 == (ExternalPut {
            stage: PutStage::Picking { owner, started, tried },
            ..put
        })
    } else if again {
        put.ending(next.0, next.1, owner, started, CallTarget::Owner, tried, false)
    } else {
        match reply {
            Err(err) => put.failed(next.0, next.1, KvErrorOf::P2p(err)),
            Ok(Err(err)) => put.failed(next.0, next.1, err),
            Ok(Ok(_)) => {
                &&& next.0 == (ExternalPut { side: None, stage: PutStage::Idle, ..put })
                &&& next.1 == PutStep::Done(Ok(latest(put.side, target.side())))
            },
        }
    }
}

impl ExternalPut {
    pub fn begin(inner: &ExternalInner, args: PutArgs) -> (put: Self)
        ensures
            put.args == args,
            put.call == OwnerCall::fresh(*inner, RetryState::unbounded_state()),
            put.side is None,
            put.stage == PutStage::Idle,
    {
        ExternalPut {
            args,
            call: OwnerCall::begin(inner, RetryState::unbounded()),
            side: None,
            stage: PutStage::Idle,
        }
    }

    /// What a put that has sent nothing does.
    pub fn next(&self) -> (step: PutStep)
        requires
            self.stage is Idle,
        ensures
            step == if self.call.wait is Some {
                PutStep::AwaitOwner
            } else {
                PutStep::Start
            },
    {
        if self.call.wait.is_some() {
            PutStep::AwaitOwner
        } else {
            PutStep::Start
        }
    }

    /// Looks whether the wait for the owner is over.
    pub fn poll_owner(
        &mut self,
        inner: &ExternalInner,
        owner_member: &Option<ClusterMember>,
        running: bool,
    ) -> (step: PutStep)
        requires
            old(self).stage is Idle,
        ensures
            final(self).args == old(self).args,
            final(self).side == old(self).side,
            final(self).stage == old(self).stage,
            final(self).call.retry == old(self).call.retry,
            match old(self).call.recovered(*inner, *owner_member) {
                Some((owner_start_time, base_addr)) => {
                    &&& step == PutStep::Start
                    &&& final(self).call.wait is None
                    &&& final(self).call.prev_owner_start_time == owner_start_time
                    &&& final(self).call.base_addr == base_addr
                },
                None => {
                    &&& final(self).call.wait is Some
                    &&& if running {
                        step == PutStep::AwaitOwner
                    } else {
                        step matches PutStep::Done(Err(err)) && err@
                            == crate::external_client_api::owner::recovery_aborted()
                    }
                },
            },
    {
        match self.call.poll_owner(inner, owner_member, running) {
            Some(Ok(())) => PutStep::Start,
            Some(Err(err)) => PutStep::Done(Err(err)),
            None => PutStep::AwaitOwner,
        }
    }

    /// The put failed with an error: it is tried anew once the owner was waited for, unless the
    /// error is final.
    pub open spec fn failed(self, next: ExternalPut, step: PutStep, err: KvError) -> bool {
        let (call, last) = self.call.after_error(err);
        &&& next.args == self.args
        &&& next.call == call
        &&& next.stage == PutStage::Idle
        &&& next.side is None
        &&& step == match last {
            Some(err) => PutStep::Done(Err(err)),
            None => PutStep::AwaitOwner,
        }
    }

    /// The put failed for want of an owner to send to.
    pub open spec fn failed_without_owner(self, next: ExternalPut, step: PutStep) -> bool {
        exists|err: KvError| #[trigger]
            self.failed(next, step, err) && err@
                == crate::external_client_api::owner::owner_id_unavailable()
    }

    fn fail(self, err: KvError) -> (next: (ExternalPut, PutStep))
        ensures
            self.failed(next.0, next.1, err),
    {
        let mut call = self.call;
        let last = call.on_error(err);
        let put = ExternalPut { args: self.args, call, side: None, stage: PutStage::Idle };
        match last {
            Some(err) => (put, PutStep::Done(Err(err))),
            None => (put, PutStep::AwaitOwner),
        }
    }

    /// A start that goes to the target.
    pub open spec fn starting(
        self,
        next: ExternalPut,
        step: PutStep,
        owner: String,
        target: CallTarget,
    ) -> bool {
        &&& next == (ExternalPut { stage: PutStage::Starting { owner, target }, ..self })
        &&& step matches PutStep::CallStart { owner: to, target: via, req } && to == owner && via
            == target && req.starts(
            self.args.key@,
            self.args.len,
            self.args.opts,
            self.call.prev_owner_start_time,
        )
    }

    fn send_start(self, owner: String, target: CallTarget) -> (next: (ExternalPut, PutStep))
        ensures
            self.starting(next.0, next.1, owner, target),
    {
        let req = external_put_start_request(
            self.args.key.as_str(),
            self.args.len,
            &self.args.opts,
            self.call.prev_owner_start_time,
        );
        let step = PutStep::CallStart { owner: owner.clone(), target: target.duplicate(), req };
        let put = ExternalPut {
            args: self.args,
            call: self.call,
            side: self.side,
            stage: PutStage::Starting { owner, target },
        };
        (put, step)
    }

    /// Starts: with the side worker whose turn it is, or else with the owner. `peers` are the side
    /// workers that published themselves.
    pub fn start(self, inner: &mut ExternalInner, peers: &Vec<SideTransferPeer>) -> (next: (
        ExternalPut,
        PutStep,
    ))
        requires
            self.stage is Idle,
            self.call.wait is None,
        ensures
            *final(inner) == (ExternalInner {
                side_rr_next: old(inner).turn_after(peers@, None),
                ..*old(inner)
            }),
            match old(inner).current_owner {
                Some(owner) => exists|target: CallTarget|
                    {
                        &&& #[trigger] self.starting(next.0, next.1, owner.node_id, target)
                        &&& target.is_picked(old(inner).picked(peers@, None))
                    },
                None => self.failed_without_owner(next.0, next.1),
            },
    {
        match inner.owner_to_call() {
            Ok(owner) => {
                let target = put_start_target(inner.pick_side_worker(peers, None));
                let ghost sent = target;
                let next = self.send_start(owner, target);
                assert(self.starting(next.0, next.1, owner, sent));
                next
            },
            Err(err) => {
                let ghost missing = err;
                let next = self.fail(err);
                assert(self.failed(next.0, next.1, missing));
                next
            },
        }
    }

    /// Takes the answer to the start, or the error of the transport. A side worker that cannot be
    /// reached is replaced by the owner. A put that was started is bound to the worker that answered;
    /// its value is written next, unless values are not written at all.
    pub fn on_start_reply(
        self,
        inner: &mut ExternalInner,
        reply: Result<KvResult<ExternalPutStartOk>, P2PError>,
    ) -> (next: (ExternalPut, PutStep))
        requires
            self.stage is Starting,
            reply matches Ok(Ok(started)) ==> self.call.base_addr + started.write_offset()
                <= u64::MAX,
        ensures
            *final(inner) == (ExternalInner {
                side_transfer_put_bindings: final(inner).side_transfer_put_bindings,
                ..*old(inner)
            }),
            start_answered(*old(inner), *final(inner), self, reply, next),
    {
        let ghost before = self;
        let ExternalPut { args, call, side, stage } = self;
        let (owner, target) = match stage {
            PutStage::Starting { owner, target } => (owner, target),
            other => {
                return (ExternalPut { args, call, side, stage: other }, PutStep::AwaitOwner);
            },
        };
        match settle_call(target, reply) {
            CallOutcome::Fallback => {
                let put = ExternalPut { args, call, side, stage: PutStage::Idle };
                put.send_start(owner, CallTarget::Owner)
            },
            CallOutcome::Failed(err) => {
                ExternalPut { args, call, side, stage: PutStage::Idle }.fail(err)
            },
            CallOutcome::Answered { resp: Err(err), .. } => {
                ExternalPut { args, call, side, stage: PutStage::Idle }.fail(err)
            },
            CallOutcome::Answered { resp: Ok(started), side: answered } => {
                inner.side_transfer_put_bindings.remember_side_transfer_binding(
                    started.put_id,
                    copy_side(&answered),
                );
                if inner.short_circuit_put_payload_path {
                    match inner.owner_to_call() {
                        Ok(owner) => {
                            let req = started.commit_request(
                                args.key.as_str(),
                                &args.opts,
                                call.prev_owner_start_time,
                            );
                            let stage = PutStage::Committing { put_id: started.put_id };
                            (
                                ExternalPut { args, call, side: answered, stage },
                                PutStep::Commit { owner, req },
                            )
                        },
                        Err(err) => {
                            let ghost missing = err;
                            let put = ExternalPut { args, call, side, stage: PutStage::Idle };
                            let next = put.fail(err);
                            assert(before.failed(next.0, next.1, missing));
                            next
                        },
                    }
                } else {
                    let addr: u64 = started.write_addr(call.base_addr);
                    let stage = PutStage::Writing { started };
                    (ExternalPut { args, call, side: answered, stage }, PutStep::Write { addr })
                }
            },
        }
    }

    /// Takes the answer to the end of a put without a payload, or the error of the transport. The
    /// put is bound no more.
    pub fn on_commit_reply(
        self,
        inner: &mut ExternalInner,
        reply: Result<KvResult<()>, P2PError>,
    ) -> (next: (ExternalPut, PutStep))
        requires
            self.stage is Committing,
        ensures
            *final(inner) == (ExternalInner {
                side_transfer_put_bindings: final(inner).side_transfer_put_bindings,
                ..*old(inner)
            }),
            final(inner).side_transfer_put_bindings@ == unbound(
                old(inner).side_transfer_put_bindings@,
                self.stage->Committing_put_id,
            ),
            match reply {
                Err(err) => self.failed(next.0, next.1, KvErrorOf::P2p(err)),
                Ok(Err(err)) => self.failed(next.0, next.1, err),
                Ok(Ok(_)) => {
                    &&& next.0 == (ExternalPut { stage: PutStage::Idle, ..self })
                    &&& next.1 == PutStep::Done(Ok(self.side))
                },
            },
    {
        let ExternalPut { args, call, side, stage } = self;
        if let PutStage::Committing { put_id } = stage {
            inner.side_transfer_put_bindings.clear_side_transfer_binding(put_id);
        }
        let put = ExternalPut { args, call, side: copy_side(&side), stage: PutStage::Idle };
        match reply {
            Err(err) => put.fail(KvErrorOf::P2p(err)),
            Ok(Err(err)) => put.fail(err),
            Ok(Ok(_)) => (put, PutStep::Done(Ok(side))),
        }
    }

    /// An end that goes to the target.
    pub open spec fn ending(
        self,
        next: ExternalPut,
        step: PutStep,
        owner: String,
        started: ExternalPutStartOk,
        target: CallTarget,
        tried: Option<(String, u16)>,
        bound: bool,
    ) -> bool {
        &&& next == (ExternalPut {
            stage: PutStage::Ending { owner, started, target, tried, bound },
            ..self
        })
        &&& step matches PutStep::CallEnd { owner: to, target: via, req } && to == owner && via
            == target && req.ends(
            started,
            self.args.key@,
            self.args.len,
            self.args.opts,
            self.call.prev_owner_start_time,
        )
    }

    fn send_end(
        self,
        owner: String,
        started: ExternalPutStartOk,
        target: CallTarget,
        tried: Option<(String, u16)>,
        bound: bool,
    ) -> (next: (ExternalPut, PutStep))
        ensures
            self.ending(next.0, next.1, owner, started, target, tried, bound),
    {
        let req = started.transfer_end_request(
            self.args.key.as_str(),
            self.args.len,
            &self.args.opts,
            self.call.prev_owner_start_time,
        );
        let step = PutStep::CallEnd { owner: owner.clone(), target: target.duplicate(), req };
        let put = ExternalPut {
            args: self.args,
            call: self.call,
            side: self.side,
            stage: PutStage::Ending { owner, started, target, tried, bound },
        };
        (put, step)
    }

    /// The value was written, and `bound` is the worker that the put is bound to: the end goes to it,
    /// and a worker is looked for where there is none.
    pub fn end_with(self, inner: &ExternalInner, bound: Option<(String, u16)>) -> (next: (
        ExternalPut,
        PutStep,
    ))
        requires
            self.stage is Writing,
        ensures
            ({
                let started = self.stage->Writing_started;
                match (inner.current_owner, bound) {
                    (None, _) => self.failed_without_owner(next.0, next.1),
                    (Some(owner), Some(peer)) => self.ending(
                        next.0,
                        next.1,
                        owner.node_id,
                        started,
                        CallTarget::Side { side_id: peer.0, lane_idx: peer.1 },
                        Some(peer),
                        true,
                    ),
                    (Some(owner), None) => {
                        &&& next.1 == PutStep::Pick
                        &&& next.0 == (ExternalPut {
                            stage: PutStage::Picking {
                                owner: owner.node_id,
                                started,
                                tried: None,
                            },
                            ..self
                        })
                    },
                }
            }),
    {
        let ghost before = self;
        let ExternalPut { args, call, side, stage } = self;
        let started = match stage {
            PutStage::Writing { started } => started,
            other => {
                return (ExternalPut { args, call, side, stage: other }, PutStep::AwaitOwner);
            },
        };
        match inner.owner_to_call() {
            Err(err) => {
                let ghost missing = err;
                let next = ExternalPut { args, call, side, stage: PutStage::Idle }.fail(err);
                assert(before.failed(next.0, next.1, missing));
                next
            },
            Ok(owner) => {
                match bound {
                    Some(peer) => {
                        let target = CallTarget::Side {
                            side_id: peer.0.clone(),
                            lane_idx: peer.1,
                        };
                        let put = ExternalPut { args, call, side, stage: PutStage::Idle };
                        put.send_end(owner, started, target, Some(peer), true)
                    },
                    None => {
                        let stage = PutStage::Picking { owner, started, tried: None };
                        (ExternalPut { args, call, side, stage }, PutStep::Pick)
                    },
                }
            },
        }
    }

    /// The value was written: the end goes to the worker that the put is bound to. A binding may
    /// have been forgotten.
    pub fn on_written(self, inner: &ExternalInner) -> (next: (ExternalPut, PutStep))
        requires
            self.stage is Writing,
        ensures
            ({
                let started = self.stage->Writing_started;
                let bindings = inner.side_transfer_put_bindings@;
                match inner.current_owner {
                    None => self.failed_without_owner(next.0, next.1),
                    Some(owner) => {
                        ||| {
                            &&& next.1 == PutStep::Pick
                            &&& next.0 == (ExternalPut {
                                stage: PutStage::Picking {
                                    owner: owner.node_id,
                                    started,
                                    tried: None,
                                },
                                ..self
                            })
                        }
                        ||| exists|peer: (String, u16)|
                            {
                                &&& started.put_id matches Some(put_id) && bindings.contains_key(
                                    put_id,
                                ) && bindings[put_id] == (peer.0@, peer.1)
                                &&& #[trigger] self.ending(
                                    next.0,
                                    next.1,
                                    owner.node_id,
                                    started,
                                    CallTarget::Side { side_id: peer.0, lane_idx: peer.1 },
                                    Some(peer),
                                    true,
                                )
                            }
                    },
                }
            }),
    {
        let put_id: Option<(u64, u32)> = match &self.stage {
            PutStage::Writing { started } => started.put_id,
            _ => None,
        };
        let bound = inner.side_transfer_put_bindings.bound_side_transfer_peer(put_id);
        let ghost found = bound;
        let next = self.end_with(inner, bound);
        proof {
            if let Some(peer) = found {
                if let Some(owner) = &inner.current_owner {
                    assert(self.ending(
                        next.0,
                        next.1,
                        owner.node_id,
                        self.stage->Writing_started,
                        CallTarget::Side { side_id: peer.0, lane_idx: peer.1 },
                        Some(peer),
                        true,
                    ));
                }
            }
        }
        next
    }

    /// Sends the end to the worker on the put's lane, unless it was tried, or else to the owner.
    pub fn pick_and_end(self, inner: &mut ExternalInner, peers: &Vec<SideTransferPeer>) -> (next: (
        ExternalPut,
        PutStep,
    ))
        requires
            self.stage is Picking,
        ensures
            *final(inner) == (ExternalInner {
                side_rr_next: old(inner).turn_after(
                    peers@,
                    self.stage->Picking_started.put_id,
                ),
                ..*old(inner)
            }),
            ({
                let owner = self.stage->Picking_owner;
                let started = self.stage->Picking_started;
                let tried = self.stage->Picking_tried;
                let picked = old(inner).picked(peers@, started.put_id);
                let again = tried matches Some(peer) && picked == Some((peer.1, peer.0@));
                exists|target: CallTarget|
                    {
                        &&& #[trigger] self.ending(
                            next.0,
                            next.1,
                            owner,
                            started,
                            target,
                            tried,
                            false,
                        )
                        &&& if again {
                            target == CallTarget::Owner
                        } else {
                            target.is_picked(picked)
                        }
                    }
            }),
    {
        let ghost before = self;
        let ExternalPut { args, call, side, stage } = self;
        let (owner, started, tried) = match stage {
            PutStage::Picking { owner, started, tried } => (owner, started, tried),
            other => {
                return (ExternalPut { args, call, side, stage: other }, PutStep::AwaitOwner);
            },
        };
        let picked = inner.pick_side_worker(peers, started.put_id);
        let target = put_transfer_end_target(&tried, picked);
        let ghost sent = target;
        let put = ExternalPut { args, call, side, stage: PutStage::Idle };
        let next = put.send_end(owner, started, target, tried, false);
        assert(before.ending(
            next.0,
            next.1,
            before.stage->Picking_owner,
            before.stage->Picking_started,
            sent,
            before.stage->Picking_tried,
            false,
        ));
        next
    }

    /// Takes the answer to the end, or the error of the transport. After the bound worker another
    /// one is looked for, and after that one the owner is asked. Once the end was answered, or failed
    /// for good, the put is bound no more.
    pub fn on_end_reply(
        self,
        inner: &mut ExternalInner,
        reply: Result<KvResult<()>, P2PError>,
    ) -> (next: (ExternalPut, PutStep))
        requires
            self.stage is Ending,
        ensures
            *final(inner) == (ExternalInner {
                side_transfer_put_bindings: final(inner).side_transfer_put_bindings,
                ..*old(inner)
            }),
            end_answered(*old(inner), *final(inner), self, reply, next),
    {
        let ExternalPut { args, call, side, stage } = self;
        let (owner, started, target, tried, bound) = match stage {
            PutStage::Ending { owner, started, target, tried, bound } => {
                (owner, started, target, tried, bound)
            },
            other => {
                return (ExternalPut { args, call, side, stage: other }, PutStep::AwaitOwner);
            },
        };
        match settle_call(target, reply) {
            CallOutcome::Fallback => {
                if bound {
                    let stage = PutStage::Picking { owner, started, tried };
                    (ExternalPut { args, call, side, stage }, PutStep::Pick)
                } else {
                    let put = ExternalPut { args, call, side, stage: PutStage::Idle };
                    put.send_end(owner, started, CallTarget::Owner, tried, false)
                }
            },
            CallOutcome::Failed(err) => {
                inner.side_transfer_put_bindings.clear_side_transfer_binding(started.put_id);
                ExternalPut { args, call, side, stage: PutStage::Idle }.fail(err)
            },
            CallOutcome::Answered { resp, side: answered } => {
                inner.side_transfer_put_bindings.clear_side_transfer_binding(started.put_id);
                match resp {
                    Err(err) => ExternalPut { args, call, side, stage: PutStage::Idle }.fail(err),
                    Ok(_) => {
                        let last = later_side(side, answered);
                        let put = ExternalPut { args, call, side: None, stage: PutStage::Idle };
                        (put, PutStep::Done(Ok(last)))
                    },
                }
            },
        }
    }
}

/// A put that was started and then ended, or given up, leaves no binding of its own behind.
pub proof fn law_ended_put_is_unbound(
    bindings: Map<(u64, u32), (Seq<char>, u16)>,
    put_id: (u64, u32),
    side: Option<(String, u16)>,
)
    requires
        !bindings.contains_key(put_id),
    ensures
        unbound(bound_to(bindings, Some(put_id), side), Some(put_id)) == bindings,
{
    assert(unbound(bound_to(bindings, Some(put_id), side), Some(put_id)) =~= bindings);
}

} // verus!
