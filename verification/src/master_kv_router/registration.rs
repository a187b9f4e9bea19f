//! Asking the owners in the cluster for their segments.
//!
//! Each node has an actor that follows the node's membership events and decides when to ask it. The
//! caller runs the waiting: it sleeps, sends the request, and reports back what happened.

use super::MasterKvRouter;
use crate::cluster_manager::{ClusterEvent, ClusterMember, NodeIDString, NodeRole};
use crate::error::{ApiErrorOf, KvError, KvErrorOf, KvResult};
use crate::master_seg_manager::MasterSegManager;
use crate::text;
use vstd::prelude::*;

verus! {

/// Seconds for which an actor without work is kept.
pub const KEEP_ALIVE_SECONDS: u64 = 30;

/// Seconds until the first retry.
pub const INITIAL_BACKOFF_SECONDS: u64 = 3;

/// Seconds between retries, at most.
pub const MAX_BACKOFF_SECONDS: u64 = 60;

/// Seconds between two rounds in which every client member is looked at, so that nothing depends on
/// each event being delivered.
pub const RECONCILE_INTERVAL_SECONDS: u64 = 2;

/// What an actor waits for, besides events.
#[derive(Clone, Copy, PartialEq, Eq, Structural)]
pub enum Waiting {
    /// There is no work; the actor ends after this many seconds.
    Idle { seconds: u64 },
    /// The next attempt is due in this many seconds.
    Retry { seconds: u64 },
    /// The answer to the request for this epoch.
    Reply { epoch: i64 },
}

/// What an event calls for.
#[derive(Clone, Copy, PartialEq, Eq, Structural)]
pub struct EventEffect {
    /// The event was about another node than the actor's: events are misrouted.
    pub misrouted: bool,
    /// The node's memory is gone.
    pub mark_tomb: bool,
}

/// What an attempt that is due does, and which generation it asks for.
pub open spec fn attempt_made(
    before: RegistrationActor,
    member: Option<&ClusterMember>,
    after: RegistrationActor,
    ask: Option<i64>,
) -> bool {
    let due = RegistrationActor { retry_sleep: None, ..before };
    match before.desired_epoch {
        None => after == due && ask is None,
        Some(epoch) => if may_ask(member, epoch) {
            &&& ask == Some(epoch)
            &&& after == (RegistrationActor { inflight: Some(epoch), ..due })
        } else {
            &&& ask is None
            &&& after == (RegistrationActor { desired_epoch: None, ..due })
        },
    }
}

/// What the answer to a request for segments does.
pub open spec fn reply_taken(
    before: RegistrationActor,
    result: KvResult<()>,
    after: RegistrationActor,
) -> bool {
    let answered = RegistrationActor { inflight: None, ..before };
    let epoch = before.inflight->0;
    if before.desired_epoch != Some(epoch) {
        after == answered
    } else {
        match result {
            Ok(_) => after == (RegistrationActor {
                registered_epoch: Some(epoch),
                desired_epoch: None,
                backoff: INITIAL_BACKOFF_SECONDS,
                ..answered
            }),
            Err(error) => if epoch_mismatch(error@) {
                after == (RegistrationActor { desired_epoch: None, ..answered })
            } else {
                after == (RegistrationActor {
                    retry_sleep: Some(before.backoff),
                    backoff: bumped_backoff(before.backoff),
                    ..answered
                })
            },
        }
    }
}

/// The registration of one node. An epoch is the start time of the node's process.
pub struct RegistrationActor {
    pub actor_node_id: Option<NodeIDString>,
    /// The epoch to register.
    pub desired_epoch: Option<i64>,
    /// The epoch that was registered.
    pub registered_epoch: Option<i64>,
    pub last_seen_epoch: Option<i64>,
    pub backoff: u64,
    /// Seconds until the next attempt.
    pub retry_sleep: Option<u64>,
    /// The epoch that was asked for and not answered yet.
    pub inflight: Option<i64>,
}

/// Twice as long, up to the maximum.
pub open spec fn bumped_backoff(backoff: u64) -> u64 {
    if backoff * 2 > MAX_BACKOFF_SECONDS {
        MAX_BACKOFF_SECONDS
    } else {
        (backoff * 2) as u64
    }
}

/// The actor's node, once an event about `node_id` was seen.
pub open spec fn node_after(actor: Option<NodeIDString>, node_id: NodeIDString) -> Option<
    NodeIDString,
> {
    match actor {
        Some(existing) => Some(existing),
        None => Some(node_id),
    }
}

/// An event about `node_id` does not belong to the actor.
pub open spec fn misrouted(actor: Option<NodeIDString>, node_id: Seq<char>) -> bool {
    actor matches Some(existing) && existing@ != node_id
}

/// A member that may be asked for its segments as of `epoch`.
pub open spec fn may_ask(member: Option<&ClusterMember>, epoch: i64) -> bool {
    match member {
        Some(member) => {
            &&& member.role == NodeRole::Client
            &&& member.node_start_time == epoch
            &&& MasterKvRouter::ready_for_segment_registration(*member)
        },
        None => false,
    }
}

/// The peer has another epoch than the one it was asked for.
pub open spec fn epoch_mismatch(error: KvErrorOf<Seq<char>>) -> bool {
    error matches KvErrorOf::Api(inner) && inner is OwnerStartTimeMismatch
}

fn is_epoch_mismatch(error: &KvError) -> (is: bool)
    ensures
        is == epoch_mismatch(error@),
{
    match error {
        KvErrorOf::Api(ApiErrorOf::OwnerStartTimeMismatch { .. }) => true,
        _ => false,
    }
}

impl RegistrationActor {
    /// The backoff is in bounds, and the actor knows its node once it has work.
    pub open spec fn wf(self) -> bool {
        &&& INITIAL_BACKOFF_SECONDS <= self.backoff <= MAX_BACKOFF_SECONDS
        &&& self.retry_sleep is Some || self.desired_epoch is Some || self.inflight is Some
            ==> self.actor_node_id is Some
        &&& self.retry_sleep matches Some(seconds) ==> seconds <= MAX_BACKOFF_SECONDS
    }

    /// An actor that has seen no event.
    pub open spec fn fresh() -> RegistrationActor {
        RegistrationActor {
            actor_node_id: None,
            desired_epoch: None,
            registered_epoch: None,
            last_seen_epoch: None,
            backoff: INITIAL_BACKOFF_SECONDS,
            retry_sleep: None,
            inflight: None,
        }
    }

    /// There is nothing to ask for, and nothing was asked for.
    pub open spec fn is_idle(self) -> bool {
        self.desired_epoch is None && self.inflight is None && self.retry_sleep is None
    }

    pub fn new() -> (actor: Self)
        ensures
            actor.wf(),
            actor == RegistrationActor::fresh(),
    {
        RegistrationActor {
            actor_node_id: None,
            desired_epoch: None,
            registered_epoch: None,
            last_seen_epoch: None,
            backoff: INITIAL_BACKOFF_SECONDS,
            retry_sleep: None,
            inflight: None,
        }
    }

    /// Remembers the node that events are about, and tells whether this one is about another.
    fn ensure_actor_node_id(&mut self, node_id: &NodeIDString) -> (wrong: bool)
        ensures
            wrong == misrouted(old(self).actor_node_id, node_id@),
            *final(self) == (RegistrationActor {
                actor_node_id: node_after(old(self).actor_node_id, *node_id),
                ..*old(self)
            }),
    {
        match &self.actor_node_id {
            Some(existing) => !text::same_text(existing.as_str(), node_id.as_str()),
            None => {
                self.actor_node_id = Some(node_id.clone());
                false
            },
        }
    }

    /// What a member that joined or changed does to the actor.
    pub open spec fn observed(self, member: ClusterMember) -> RegistrationActor {
        let known = RegistrationActor {
            actor_node_id: node_after(self.actor_node_id, member.id),
            ..self
        };
        if member.role != NodeRole::Client {
            known
        } else {
            let seen = RegistrationActor {
                last_seen_epoch: Some(member.node_start_time),
                ..known
            };
            if self.registered_epoch == Some(member.node_start_time)
                || !MasterKvRouter::ready_for_segment_registration(member) {
                seen
            } else {
                RegistrationActor {
                    desired_epoch: Some(member.node_start_time),
                    backoff: INITIAL_BACKOFF_SECONDS,
                    retry_sleep: Some(0),
                    ..seen
                }
            }
        }
    }

    /// A member joined or changed. A client that is seen with another epoch than before was
    /// restarted: its memory is gone.
    pub fn on_member(&mut self, member: &ClusterMember) -> (effect: EventEffect)
        requires
            old(self).wf(),
        ensures
            final(self).wf(),
            *final(self) == old(self).observed(*member),
            effect.misrouted == misrouted(old(self).actor_node_id, member.id@),
            effect.mark_tomb == (member.role == NodeRole::Client && old(
                self,
            ).last_seen_epoch is Some && old(self).last_seen_epoch != Some(
                member.node_start_time,
            )),
    {
        let misrouted: bool = self.ensure_actor_node_id(&member.id);
        if member.role != NodeRole::Client {
            return EventEffect { misrouted, mark_tomb: false };
        }
        let epoch: i64 = member.node_start_time;
        let mark_tomb: bool = match self.last_seen_epoch {
            Some(seen) => seen != epoch,
            None => false,
        };
        self.last_seen_epoch = Some(epoch);
        let registered: bool = match self.registered_epoch {
            Some(registered) => registered == epoch,
            None => false,
        };
        if !registered && MasterKvRouter::member_ready_for_segment_registration(member) {
            self.desired_epoch = Some(epoch);
            self.backoff = INITIAL_BACKOFF_SECONDS;
            self.retry_sleep = Some(0);
        }
        EventEffect { misrouted, mark_tomb }
    }

    /// What a node that left does to the actor.
    pub open spec fn abandoned(self, node_id: NodeIDString) -> RegistrationActor {
        RegistrationActor {
            actor_node_id: node_after(self.actor_node_id, node_id),
            desired_epoch: None,
            registered_epoch: None,
            last_seen_epoch: None,
            retry_sleep: None,
            inflight: None,
            ..self
        }
    }

    /// The node left: there is nothing to register, and its memory is gone.
    pub fn on_left(&mut self, node_id: &NodeIDString) -> (effect: EventEffect)
        requires
            old(self).wf(),
        ensures
            final(self).wf(),
            effect.misrouted == misrouted(old(self).actor_node_id, node_id@),
            effect.mark_tomb,
            *final(self) == old(self).abandoned(*node_id),
    {
        let misrouted: bool = self.ensure_actor_node_id(node_id);
        self.desired_epoch = None;
        self.registered_epoch = None;
        self.last_seen_epoch = None;
        self.retry_sleep = None;
        self.inflight = None;
        EventEffect { misrouted, mark_tomb: true }
    }

    /// What to wait for. Work that is neither asked for nor scheduled is scheduled at once.
    pub fn next_wait(&mut self) -> (waiting: Waiting)
        requires
            old(self).wf(),
        ensures
            final(self).wf(),
            *final(self) == (RegistrationActor {
                retry_sleep: if old(self).desired_epoch is Some && old(self).inflight is None
                    && old(self).retry_sleep is None {
                    Some(0)
                } else {
                    old(self).retry_sleep
                },
                ..*old(self)
            }),
            waiting == match final(self).retry_sleep {
                Some(seconds) => Waiting::Retry { seconds },
                None => match final(self).inflight {
                    Some(epoch) => Waiting::Reply { epoch },
                    None => Waiting::Idle { seconds: KEEP_ALIVE_SECONDS },
                },
            },
            waiting is Idle <==> old(self).is_idle(),
    {
        if self.desired_epoch.is_some() && self.inflight.is_none() && self.retry_sleep.is_none() {
            self.retry_sleep = Some(0);
        }
        match self.retry_sleep {
            Some(seconds) => Waiting::Retry { seconds },
            None => match self.inflight {
                Some(epoch) => Waiting::Reply { epoch },
                None => Waiting::Idle { seconds: KEEP_ALIVE_SECONDS },
            },
        }
    }

    /// An attempt is due. `member` is the actor's node as the cluster knows it now. If it may still
    /// be asked as of the desired epoch, that epoch is returned, and the request is to be sent;
    /// otherwise the epoch is given up.
    pub fn on_retry_due(&mut self, member: Option<&ClusterMember>) -> (ask: Option<i64>)
        requires
            old(self).wf(),
            old(self).retry_sleep is Some,
        ensures
            final(self).wf(),
            attempt_made(*old(self), member, *final(self), ask),
    {
        self.retry_sleep = None;
        let epoch: i64 = match self.desired_epoch {
            Some(epoch) => epoch,
            None => {
                return None;
            },
        };
        let may = match member {
            Some(member) => member.role == NodeRole::Client && member.node_start_time == epoch
                && MasterKvRouter::member_ready_for_segment_registration(member),
            None => false,
        };
        if may {
            self.inflight = Some(epoch);
            Some(epoch)
        } else {
            self.desired_epoch = None;
            None
        }
    }

    /// The request was answered. The answer counts only if its epoch is still the desired one: then
    /// the epoch is registered, given up because the peer was restarted, or tried again later.
    pub fn on_reply(&mut self, result: &KvResult<()>)
        requires
            old(self).wf(),
            old(self).inflight is Some,
        ensures
            final(self).wf(),
            reply_taken(*old(self), *result, *final(self)),
    {
        if let Some(epoch) = self.inflight {
            self.inflight = None;
            let current = match self.desired_epoch {
                Some(desired) => desired == epoch,
                None => false,
            };
            if !current {
                return ;
            }
            match result {
                Ok(_) => {
                    self.registered_epoch = Some(epoch);
                    self.desired_epoch = None;
                    self.backoff = INITIAL_BACKOFF_SECONDS;
                },
                Err(error) => {
                    if is_epoch_mismatch(error) {
                        self.desired_epoch = None;
                        return ;
                    }
                    self.retry_sleep = Some(self.backoff);
                    let next: u64 = self.backoff * 2;
                    self.backoff = if next > MAX_BACKOFF_SECONDS {
                        MAX_BACKOFF_SECONDS
                    } else {
                        next
                    };
                },
            }
        }
    }
}

/// The actors of the nodes.
pub struct RegistrationActors {
    pub actors: Vec<(NodeIDString, RegistrationActor)>,
}

/// The position of a node's actor.
pub open spec fn actor_index(
    actors: Seq<(NodeIDString, RegistrationActor)>,
    node_id: Seq<char>,
) -> Option<int>
    decreases actors.len(),
{
    if actors.len() == 0 {
        None
    } else {
        match actor_index(actors.drop_last(), node_id) {
            Some(i) => Some(i),
            None => if actors.last().0@ == node_id {
                Some(actors.len() - 1)
            } else {
                None
            },
        }
    }
}

proof fn lemma_actor_index(actors: Seq<(NodeIDString, RegistrationActor)>, node_id: Seq<char>)
    ensures
        match actor_index(actors, node_id) {
            Some(i) => 0 <= i < actors.len() && actors[i].0@ == node_id,
            None => true,
        },
    decreases actors.len(),
{
    if actors.len() > 0 {
        lemma_actor_index(actors.drop_last(), node_id);
    }
}

impl RegistrationActors {
    /// Every actor is sound and is the actor of the node that it is listed under.
    pub open spec fn wf(self) -> bool {
        forall|i: int|
            0 <= i < self.actors@.len() ==> {
                &&& (#[trigger] self.actors@[i]).1.wf()
                &&& !misrouted(self.actors@[i].1.actor_node_id, self.actors@[i].0@)
            }
    }

    pub fn new() -> (actors: Self)
        ensures
            actors.wf(),
            actors.actors@.len() == 0,
    {
        RegistrationActors { actors: Vec::new() }
    }

    /// The position of a node's actor.
    pub fn find(&self, node_id: &str) -> (found: Option<usize>)
        ensures
            match found {
                Some(i) => actor_index(self.actors@, node_id@) == Some(i as int) && i
                    < self.actors@.len(),
                None => actor_index(self.actors@, node_id@) is None,
            },
    {
        let mut found: Option<usize> = None;
        let mut i: usize = 0;
        assert(self.actors@.take(0) =~= Seq::<(NodeIDString, RegistrationActor)>::empty());
        while i < self.actors.len()
            invariant
                i <= self.actors@.len(),
                match found {
                    Some(at) => at < i && actor_index(self.actors@.take(i as int), node_id@)
                        == Some(at as int),
                    None => actor_index(self.actors@.take(i as int), node_id@) is None,
                },
            decreases self.actors@.len() - i,
        {
            assert(self.actors@.take(i + 1).drop_last() =~= self.actors@.take(i as int));
            if found.is_none() && text::same_text(self.actors[i].0.as_str(), node_id) {
                found = Some(i);
            }
            i = i + 1;
        }
        assert(self.actors@.take(i as int) =~= self.actors@);
        found
    }

    /// Takes a membership event to the actor of its node, which is made if there is none, and marks
    /// the node as gone if its memory is. Returns the position of the actor.
    pub fn deliver_event(&mut self, manager: &mut MasterSegManager, event: &ClusterEvent) -> (at:
        usize)
        requires
            old(self).wf(),
        ensures
            final(self).wf(),
            at < final(self).actors@.len(),
            final(self).actors@[at as int].0@ == event.about(),
            final(manager).nodes() == old(manager).nodes(),
            old(manager).wf() ==> final(manager).wf(),
            ({
                let found = actor_index(old(self).actors@, event.about());
                let before = match found {
                    Some(i) => old(self).actors@[i].1,
                    None => RegistrationActor::fresh(),
                };
                let after = final(self).actors@[at as int].1;
                &&& match found {
                    Some(i) => at == i && final(self).actors@ == old(self).actors@.update(
                        i,
                        final(self).actors@[i],
                    ),
                    None => at == old(self).actors@.len() && final(self).actors@ == old(
                        self,
                    ).actors@.push(final(self).actors@[at as int]),
                }
                &&& match event {
                    ClusterEvent::MemberJoined(member) => after == before.observed(*member)
                        && event_marks(*old(manager), *final(manager), before, *member),
                    ClusterEvent::MemberUpdated(member) => after == before.observed(*member)
                        && event_marks(*old(manager), *final(manager), before, *member),
                    ClusterEvent::MemberLeft(node_id) => {
                        &&& after == before.abandoned(*node_id)
                        &&& final(manager).marks() == marked(*old(manager), node_id@)
                    },
                }
            }),
    {
        let node_id = event.node_id();
        proof {
            lemma_actor_index(self.actors@, node_id@);
        }
        let ghost known = self.actors@;
        let found = self.find(node_id.as_str());
        let at: usize = match found {
            Some(i) => i,
            None => {
                let i: usize = self.actors.len();
                self.actors.push((node_id.clone(), RegistrationActor::new()));
                i
            },
        };
        let ghost listed = self.actors@;
        let (name, mut actor) = take_actor(&mut self.actors, at);
        let effect = match event {
            ClusterEvent::MemberJoined(member) => actor.on_member(member),
            ClusterEvent::MemberUpdated(member) => actor.on_member(member),
            ClusterEvent::MemberLeft(node) => actor.on_left(node),
        };
        self.actors.set(at, (name, actor));
        if effect.mark_tomb {
            manager.mark_node_tomb(node_id.as_str());
        }
        proof {
            assert(self.actors@ =~= listed.update(at as int, self.actors@[at as int]));
            if found is None {
                assert(self.actors@ =~= known.push(self.actors@[at as int]));
            }
        }
        at
    }

    /// Ends the actor of a node that has had neither work nor events for this long, if that is long
    /// enough.
    pub fn end_idle(&mut self, node_id: &str, idle_seconds: u64) -> (ended: bool)
        requires
            old(self).wf(),
        ensures
            final(self).wf(),
            match actor_index(old(self).actors@, node_id@) {
                Some(i) if old(self).actors@[i].1.is_idle() && idle_seconds >= KEEP_ALIVE_SECONDS => {
                    ended && final(self).actors@ == old(self).actors@.remove(i)
                },
                _ => !ended && *final(self) == *old(self),
            },
    {
        if idle_seconds < KEEP_ALIVE_SECONDS {
            return false;
        }
        match self.find(node_id) {
            Some(i) => {
                let actor = &self.actors[i].1;
                let idle = actor.desired_epoch.is_none() && actor.inflight.is_none()
                    && actor.retry_sleep.is_none();
                if idle {
                    let _ = self.actors.remove(i);
                }
                idle
            },
            None => false,
        }
    }
}

/// Takes an actor out of its place, which is left with an idle one.
fn take_actor(actors: &mut Vec<(NodeIDString, RegistrationActor)>, at: usize) -> (taken: (
    NodeIDString,
    RegistrationActor,
))
    requires
        at < old(actors)@.len(),
    ensures
        taken == old(actors)@[at as int],
        final(actors)@.len() == old(actors)@.len(),
        forall|i: int|
            0 <= i < old(actors)@.len() && i != at ==> #[trigger] final(actors)@[i] == old(
                actors,
            )@[i],
{
    let mut slot = (String::new(), RegistrationActor::new());
    std::mem::swap(&mut actors[at], &mut slot);
    slot
}

/// The marks once a node is marked as gone.
pub open spec fn marked(manager: MasterSegManager, node_id: Seq<char>) -> Seq<bool> {
    if manager.nodes().contains_key(node_id) && manager.nodes()[node_id].tomb_tag.slot()
        < manager.marks().len() {
        manager.marks().update(manager.nodes()[node_id].tomb_tag.slot() as int, true)
    } else {
        manager.marks()
    }
}

/// What a member that joined or changed does to the marks: a client with another epoch than before
/// is marked as gone.
pub open spec fn event_marks(
    before: MasterSegManager,
    after: MasterSegManager,
    actor: RegistrationActor,
    member: ClusterMember,
) -> bool {
    after.marks() == if member.role == NodeRole::Client && actor.last_seen_epoch is Some
        && actor.last_seen_epoch != Some(member.node_start_time) {
        marked(before, member.id@)
    } else {
        before.marks()
    }
}

/// The wait between retries doubles and stays between three seconds and a minute.
pub proof fn law_backoff_is_bounded(backoff: u64)
    requires
        INITIAL_BACKOFF_SECONDS <= backoff <= MAX_BACKOFF_SECONDS,
    ensures
        INITIAL_BACKOFF_SECONDS <= bumped_backoff(backoff) <= MAX_BACKOFF_SECONDS,
        backoff <= bumped_backoff(backoff),
        backoff * 2 <= MAX_BACKOFF_SECONDS ==> bumped_backoff(backoff) == backoff * 2,
{
}

/// An epoch that was registered is not scheduled again, however often the member is seen with it.
pub proof fn law_registered_epoch_is_not_asked_again(
    actor: RegistrationActor,
    member: ClusterMember,
)
    requires
        actor.registered_epoch == Some(member.node_start_time),
        actor.desired_epoch is None,
    ensures
        actor.observed(member).desired_epoch is None,
        actor.observed(member).registered_epoch == actor.registered_epoch,
{
}

/// A client that is ready and was restarted is scheduled under its new epoch.
pub proof fn law_restarted_client_is_scheduled(actor: RegistrationActor, member: ClusterMember)
    requires
        member.role == NodeRole::Client,
        MasterKvRouter::ready_for_segment_registration(member),
        actor.registered_epoch != Some(member.node_start_time),
    ensures
        actor.observed(member).desired_epoch == Some(member.node_start_time),
        actor.observed(member).retry_sleep == Some(0u64),
{
}

/// What was registered is forgotten with an actor that ended: a client that is ready is asked again
/// by the actor that its next event makes.
pub proof fn law_ended_actor_asks_again(member: ClusterMember)
    requires
        member.role == NodeRole::Client,
        MasterKvRouter::ready_for_segment_registration(member),
    ensures
        RegistrationActor::fresh().observed(member).desired_epoch == Some(member.node_start_time),
        !RegistrationActor::fresh().observed(member).is_idle(),
{
}

} // verus!
