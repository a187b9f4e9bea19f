//! Asking owners for their segments: in the generation that runs, and again when it changes.

use crate::cluster_manager::{ClusterMember, NodeIDString, NodeRole};
use crate::error::{ApiErrorOf, KvErrorOf, KvResult};
use crate::master_kv_router::registration::RegistrationActor;
use crate::master_seg_manager::MasterSegManager;
use vstd::prelude::*;

verus! {

/// The member is an owner: a client that publishes itself as one that relays, and neither as an
/// external client nor as a side-transfer worker.
pub open spec fn is_owner(member: ClusterMember) -> bool {
    &&& member.role == NodeRole::Client
    &&& member.metadata.value("client"@) == Some("true"@)
    &&& member.metadata.value("p2p_relay"@) == Some("true"@)
    &&& member.metadata.value("external_client"@) != Some("true"@)
    &&& member.metadata.value("side_transfer_worker"@) != Some("true"@)
}

/// An owner is asked exactly while the cluster knows it in the generation that is wanted.
pub proof fn law_owners_are_asked_in_their_generation(
    member: Option<&ClusterMember>,
    epoch: i64,
)
    ensures
        crate::master_kv_router::registration::may_ask(member, epoch) <==> member is Some
            && is_owner(*member->0) && member->0.node_start_time == epoch,
{
}

/// An owner in a generation that was not registered is wanted, in that generation and at once. Any
/// other member, and a generation that was registered, changes nothing about what is wanted. What was
/// registered and what was asked for stays.
pub proof fn law_new_generations_are_wanted(actor: RegistrationActor, member: ClusterMember)
    ensures
        ({
            let after = actor.observed(member);
            let wanted = is_owner(member) && actor.registered_epoch != Some(member.node_start_time);
            &&& wanted ==> after.desired_epoch == Some(member.node_start_time) && after.retry_sleep
                == Some(0u64) && after.backoff == 3
            &&& !wanted ==> after.desired_epoch == actor.desired_epoch && after.retry_sleep
                == actor.retry_sleep && after.backoff == actor.backoff
            &&& after.registered_epoch == actor.registered_epoch
            &&& after.inflight == actor.inflight
            &&& member.role == NodeRole::Client ==> after.last_seen_epoch == Some(
                member.node_start_time,
            )
            &&& member.role != NodeRole::Client ==> after.last_seen_epoch == actor.last_seen_epoch
            &&& actor.actor_node_id is Some ==> after.actor_node_id == actor.actor_node_id
            &&& actor.actor_node_id is None ==> after.actor_node_id == Some(member.id)
        }),
{
}

/// Of a member that left nothing is wanted, asked for or registered any more.
pub proof fn law_members_that_left_are_forgotten(actor: RegistrationActor, node_id: NodeIDString)
    ensures
        ({
            let after = actor.abandoned(node_id);
            &&& after.desired_epoch is None
            &&& after.registered_epoch is None
            &&& after.last_seen_epoch is None
            &&& after.retry_sleep is None
            &&& after.inflight is None
        }),
{
}

/// The mark of a node's incarnation is set, and no other mark changes.
pub open spec fn only_mark_set(manager: MasterSegManager, after: Seq<bool>, node_id: Seq<char>) -> bool {
    let marks = manager.marks();
    &&& after.len() == marks.len()
    &&& forall|slot: int|
        0 <= slot < marks.len() ==> #[trigger] after[slot] == (marks[slot] || (
        manager.nodes().contains_key(node_id) && slot == manager.nodes()[node_id].tomb_tag.slot()))
}

/// A client that comes back in another generation than the one that was last seen has lost its
/// memory: its incarnation is marked as gone. Nothing is marked otherwise.
pub proof fn law_restarted_clients_are_marked(
    before: MasterSegManager,
    after: MasterSegManager,
    actor: RegistrationActor,
    member: ClusterMember,
)
    requires
        crate::master_kv_router::registration::event_marks(before, after, actor, member),
    ensures
        member.role == NodeRole::Client && actor.last_seen_epoch is Some
            && actor.last_seen_epoch->0 != member.node_start_time ==> only_mark_set(
            before,
            after.marks(),
            member.id@,
        ),
        !(member.role == NodeRole::Client && actor.last_seen_epoch is Some
            && actor.last_seen_epoch->0 != member.node_start_time) ==> after.marks()
            == before.marks(),
{
}

/// A node that left is marked as gone, and no other.
pub proof fn law_nodes_that_left_are_marked(manager: MasterSegManager, node_id: Seq<char>)
    ensures
        only_mark_set(
            manager,
            crate::master_kv_router::registration::marked(manager, node_id),
            node_id,
        ),
{
}

/// The wait between two attempts doubles, up to a minute.
pub proof fn law_attempts_back_off(backoff: u64)
    requires
        3 <= backoff <= 60,
    ensures
        crate::master_kv_router::registration::bumped_backoff(backoff) == if backoff <= 30 {
            backoff * 2
        } else {
            60
        },
{
}

/// An answer that names another generation is told by its error alone.
pub proof fn law_other_generations_are_told_by_the_error(error: KvErrorOf<Seq<char>>)
    ensures
        crate::master_kv_router::registration::epoch_mismatch(error) <==> error matches KvErrorOf::Api(
            ApiErrorOf::OwnerStartTimeMismatch { .. },
        ),
{
}

/// Events about a node go to the first actor of that name, if there is one.
pub proof fn law_events_find_their_actor(
    actors: Seq<(NodeIDString, RegistrationActor)>,
    node_id: Seq<char>,
)
    ensures
        match crate::master_kv_router::registration::actor_index(actors, node_id) {
            Some(i) => 0 <= i < actors.len() && actors[i].0@ == node_id && forall|j: int|
                0 <= j < i ==> (#[trigger] actors[j]).0@ != node_id,
            None => forall|j: int| 0 <= j < actors.len() ==> (#[trigger] actors[j]).0@ != node_id,
        },
    decreases actors.len(),
{
    if actors.len() > 0 {
        let before = actors.drop_last();
        law_events_find_their_actor(before, node_id);
        assert forall|j: int| 0 <= j < before.len() implies #[trigger] actors[j] == before[j] by {}
    }
}

/// An attempt that is due asks the node for its segments in the generation that is wanted, while the
/// cluster knows it as an owner in that generation. Otherwise nothing is wanted any more.
pub proof fn law_due_attempts_ask_what_is_wanted(
    before: RegistrationActor,
    member: Option<&ClusterMember>,
    after: RegistrationActor,
    ask: Option<i64>,
)
    requires
        crate::master_kv_router::registration::attempt_made(before, member, after, ask),
    ensures
        ({
            let known = before.desired_epoch is Some && member is Some && is_owner(*member->0)
                && member->0.node_start_time == before.desired_epoch->0;
            &&& ask == if known {
                before.desired_epoch
            } else {
                None
            }
            &&& after.desired_epoch == if known {
                before.desired_epoch
            } else {
                None
            }
            &&& known ==> after.inflight == before.desired_epoch
            &&& !known ==> after.inflight == before.inflight
        }),
        after.retry_sleep is None,
        after.registered_epoch == before.registered_epoch,
        after.last_seen_epoch == before.last_seen_epoch,
        after.backoff == before.backoff,
        after.actor_node_id == before.actor_node_id,
{
}

/// A generation that answered well is registered, and not asked for again. An answer from another
/// generation ends the attempts; any other error has them go on after a pause, and the next pause is
/// longer. An answer for a generation that is not wanted any more changes nothing about that.
pub proof fn law_replies_register_the_generation(
    before: RegistrationActor,
    result: KvResult<()>,
    after: RegistrationActor,
)
    requires
        before.wf(),
        before.inflight is Some,
        crate::master_kv_router::registration::reply_taken(before, result, after),
    ensures
        after.inflight is None,
        ({
            let wanted = before.desired_epoch == before.inflight;
            let elsewhere = result matches Err(error) && (error@ matches KvErrorOf::Api(
                ApiErrorOf::OwnerStartTimeMismatch { .. },
            ));
            &&& wanted && result is Ok ==> after.registered_epoch == before.inflight
                && after.desired_epoch is None && after.backoff == 3
            &&& !(wanted && result is Ok) ==> after.registered_epoch == before.registered_epoch
            &&& wanted && elsewhere ==> after.desired_epoch is None && after.retry_sleep
                == before.retry_sleep
            &&& wanted && result is Err && !elsewhere ==> {
                &&& after.desired_epoch == before.desired_epoch
                &&& after.retry_sleep == Some(before.backoff)
                &&& after.backoff == if before.backoff <= 30 {
                    before.backoff * 2
                } else {
                    60
                }
            }
            &&& !wanted ==> after.desired_epoch == before.desired_epoch && after.retry_sleep
                == before.retry_sleep && after.backoff == before.backoff
        }),
        after.last_seen_epoch == before.last_seen_epoch,
        after.actor_node_id == before.actor_node_id,
{
}

} // verus!
