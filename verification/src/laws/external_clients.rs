//! External clients: whom they call, which owner they attach to, and when they try again.

use crate::cluster_manager::ClusterMember;
use crate::error::{ApiErrorOf, KvError, KvErrorOf, KvResult, P2PError};
use crate::external_client_api::attach::{RecoverRoutes, RecoverRoutesStep};
use crate::external_client_api::calls::{GetCall, GetCallStep, GetStage, OwnerCall, OwnerWait};
use crate::external_client_api::owner::{
    ExternalInner, OwnerProbeExpectation, OwnerProbeInput, SharedJsonRead,
};
use crate::external_client_api::put::{
    ExternalGetInfo, ExternalMemHolder, ExternalPutCommitReq, ExternalPutStartOk, PutOptions,
};
use crate::external_client_api::put_call::{ExternalPut, PutStage, PutStep};
use crate::external_client_api::retry::{ReadinessView, RetryState, SendReadyWait};
use crate::external_client_api::side_transfer::{CallTarget, LanePeer, SideTransferPeer};
use vstd::prelude::*;

verus! {

/// The peer is a side-transfer worker of this generation of the owner, by its file and by what it
/// publishes in the cluster, on this lane and with this id.
pub open spec fn works_for(
    peer: SideTransferPeer,
    owner_id: Seq<char>,
    owner_start_time: i64,
    worker: LanePeer,
) -> bool {
    &&& peer.meta.owner_id@ == owner_id
    &&& peer.meta.owner_start_time == owner_start_time
    &&& peer.meta.worker_idx == Some(worker.0)
    &&& peer.meta.side_id@ == worker.1
    &&& peer.member is Some
    &&& peer.member->0.metadata.value("side_transfer_worker"@) == Some("true"@)
    &&& peer.member->0.metadata.value("shared_storage_node_id"@) == Some(owner_id)
    &&& peer.member->0.metadata.value("shared_storage_node_start_time"@) is Some
    &&& crate::text::parsed_i64(
        peer.member->0.metadata.value("shared_storage_node_start_time"@)->0,
    ) == Some(owner_start_time as int)
}

/// A worker can be picked exactly if some peer works for this generation of the owner on that lane
/// and with that id.
pub proof fn law_only_workers_of_the_owner_serve(
    peers: Seq<SideTransferPeer>,
    owner_id: Seq<char>,
    owner_start_time: i64,
    worker: LanePeer,
)
    ensures
        crate::external_client_api::side_transfer::serving_lanes(
            peers,
            owner_id,
            owner_start_time,
        ).contains(worker) <==> exists|i: int|
            0 <= i < peers.len() && works_for(
                #[trigger] peers[i],
                owner_id,
                owner_start_time,
                worker,
            ),
    decreases peers.len(),
{
    if peers.len() > 0 {
        let rest = peers.drop_last();
        law_only_workers_of_the_owner_serve(rest, owner_id, owner_start_time, worker);
        let before = crate::external_client_api::side_transfer::serving_lanes(
            rest,
            owner_id,
            owner_start_time,
        );
        let serving = crate::external_client_api::side_transfer::serving_lanes(
            peers,
            owner_id,
            owner_start_time,
        );
        let last = peers.len() - 1;
        if before.contains(worker) {
            let i = choose|i: int| 0 <= i < before.len() && before[i] == worker;
            assert(serving[i] == worker);
            let k = choose|k: int|
                0 <= k < rest.len() && works_for(
                    #[trigger] rest[k],
                    owner_id,
                    owner_start_time,
                    worker,
                );
            assert(works_for(peers[k], owner_id, owner_start_time, worker));
        }
        if serving.contains(worker) && !before.contains(worker) {
            let i = choose|i: int| 0 <= i < serving.len() && serving[i] == worker;
            if i < before.len() {
                assert(before[i] == worker);
            }
            assert(works_for(peers[last], owner_id, owner_start_time, worker));
        }
        if exists|k: int|
            0 <= k < peers.len() && works_for(
                #[trigger] peers[k],
                owner_id,
                owner_start_time,
                worker,
            ) {
            let k = choose|k: int|
                0 <= k < peers.len() && works_for(
                    #[trigger] peers[k],
                    owner_id,
                    owner_start_time,
                    worker,
                );
            if k < last {
                assert(works_for(rest[k], owner_id, owner_start_time, worker));
            } else {
                assert(serving[before.len() as int] == worker);
            }
        }
    }
}

/// The number of lanes is one more than the highest lane that is served.
pub proof fn law_lanes_reach_to_the_highest(serving: Seq<LanePeer>)
    requires
        serving.len() > 0,
    ensures
        forall|i: int|
            0 <= i < serving.len() ==> (#[trigger] serving[i]).0
                < crate::external_client_api::side_transfer::lane_space(serving),
        exists|i: int|
            0 <= i < serving.len() && (#[trigger] serving[i]).0 + 1
                == crate::external_client_api::side_transfer::lane_space(serving),
    decreases serving.len(),
{
    let rest = serving.drop_last();
    let last = serving.len() - 1;
    reveal_with_fuel(crate::external_client_api::side_transfer::lane_space, 2);
    if rest.len() > 0 {
        law_lanes_reach_to_the_highest(rest);
        let k = choose|k: int|
            0 <= k < rest.len() && (#[trigger] rest[k]).0 + 1
                == crate::external_client_api::side_transfer::lane_space(rest);
        assert(serving[k] == rest[k]);
    }
    assert(serving[last] == serving.last());
    assert forall|i: int| 0 <= i < serving.len() implies (#[trigger] serving[i]).0
        < crate::external_client_api::side_transfer::lane_space(serving) by {
        if i < last {
            assert(rest[i] == serving[i]);
        }
    }
}

/// The lane of a put follows from its time and version alone: their bits together, counted around
/// the lanes.
pub proof fn law_lane_follows_from_the_put(put_id: (u64, u32), lane_count: usize)
    requires
        0 < lane_count <= 65536,
    ensures
        crate::external_client_api::side_transfer::lane_of_put(put_id, lane_count) == ((put_id.0
            ^ (put_id.1 as u64)) as usize) % lane_count,
{
}

proof fn lemma_first_on_lane(peers: Seq<LanePeer>, lane: u16)
    ensures
        match crate::external_client_api::side_transfer::first_on_lane(peers, lane) {
            Some(peer) => exists|i: int|
                0 <= i < peers.len() && #[trigger] peers[i] == peer && peer.0 == lane && forall|
                    j: int,
                |
                    0 <= j < i ==> (#[trigger] peers[j]).0 != lane,
            None => forall|j: int| 0 <= j < peers.len() ==> (#[trigger] peers[j]).0 != lane,
        },
    decreases peers.len(),
{
    if peers.len() > 0 && peers[0].0 != lane {
        let rest = peers.drop_first();
        lemma_first_on_lane(rest, lane);
        match crate::external_client_api::side_transfer::first_on_lane(rest, lane) {
            Some(peer) => {
                let i = choose|i: int|
                    0 <= i < rest.len() && #[trigger] rest[i] == peer && peer.0 == lane && forall|
                        j: int,
                    |
                        0 <= j < i ==> (#[trigger] rest[j]).0 != lane;
                assert(peers[i + 1] == peer);
                assert forall|j: int| 0 <= j < i + 1 implies (#[trigger] peers[j]).0 != lane by {
                    if j > 0 {
                        assert(rest[j - 1].0 != lane);
                    }
                }
            },
            None => {
                assert forall|j: int| 0 <= j < peers.len() implies (#[trigger] peers[j]).0
                    != lane by {
                    if j > 0 {
                        assert(rest[j - 1].0 != lane);
                    }
                }
            },
        }
    } else if peers.len() > 0 {
        assert(peers[0].0 == lane);
    }
}

/// A put goes to a worker exactly if one serves its lane: to one of those that do, and among them to
/// the one whose id comes first. A call without a put goes to a worker exactly if one serves at all.
pub proof fn law_served_lane_is_used(
    serving: Seq<LanePeer>,
    put_id: Option<(u64, u32)>,
    turn: usize,
)
    ensures
        ({
            let picked = crate::external_client_api::side_transfer::picked_peer(
                serving,
                put_id,
                turn,
            );
            &&& picked matches Some(peer) ==> serving.contains(peer)
            &&& put_id is None ==> (picked is Some <==> serving.len() > 0)
            &&& put_id matches Some(id) ==> {
                let lane = crate::external_client_api::side_transfer::lane_of_put(
                    id,
                    crate::external_client_api::side_transfer::lane_space(serving) as usize,
                );
                &&& picked is Some <==> exists|i: int|
                    0 <= i < serving.len() && (#[trigger] serving[i]).0 == lane
                &&& picked matches Some(peer) ==> peer.0 == lane && forall|i: int|
                    0 <= i < serving.len() && (#[trigger] serving[i]).0 == lane
                        ==> !crate::text::text_before(serving[i].1, peer.1)
            }
        }),
{
    broadcast use vstd::seq_lib::group_to_multiset_ensures;

    let ordered = crate::external_client_api::side_transfer::in_lane_order(serving);
    crate::external_client_api::side_transfer::law_lane_order_is_a_sort(serving);
    let picked = crate::external_client_api::side_transfer::picked_peer(serving, put_id, turn);
    assert forall|peer: LanePeer| ordered.contains(peer) <==> #[trigger] serving.contains(peer) by {
        assert(ordered.to_multiset().contains(peer) <==> serving.to_multiset().contains(peer));
    }
    if serving.len() > 0 {
        match put_id {
            None => {
                let at = turn as int % ordered.len() as int;
                assert(ordered.contains(ordered[at]));
            },
            Some(id) => {
                let lane = crate::external_client_api::side_transfer::lane_of_put(
                    id,
                    crate::external_client_api::side_transfer::lane_space(serving) as usize,
                );
                lemma_first_on_lane(ordered, lane);
                if let Some(peer) = picked {
                    let at = choose|i: int|
                        0 <= i < ordered.len() && #[trigger] ordered[i] == peer && peer.0 == lane
                            && forall|j: int| 0 <= j < i ==> (#[trigger] ordered[j]).0 != lane;
                    assert(ordered.contains(peer));
                    assert(serving.contains(peer));
                    let k = choose|k: int| 0 <= k < serving.len() && serving[k] == peer;
                    assert(serving[k].0 == lane);
                    assert forall|i: int|
                        0 <= i < serving.len() && (#[trigger] serving[i]).0
                            == lane implies !crate::text::text_before(serving[i].1, peer.1) by {
                        assert(serving.contains(serving[i]));
                        let j = choose|j: int| 0 <= j < ordered.len() && ordered[j] == serving[i];
                        if j < at {
                            assert(ordered[j].0 != lane);
                        } else if j > at {
                            assert(!crate::external_client_api::side_transfer::lane_before(
                                ordered[j],
                                ordered[at],
                            ));
                        } else {
                            crate::text::lemma_bytes_before_total(
                                vstd::utf8::encode_utf8(peer.1),
                                vstd::utf8::encode_utf8(peer.1),
                            );
                        }
                    }
                } else if exists|i: int| 0 <= i < serving.len() && (#[trigger] serving[i]).0 == lane {
                    let i = choose|i: int| 0 <= i < serving.len() && (#[trigger] serving[i]).0 == lane;
                    assert(serving.contains(serving[i]));
                    let j = choose|j: int| 0 <= j < ordered.len() && ordered[j] == serving[i];
                    assert(ordered[j].0 == lane);
                }
            },
        }
    }
}

/// Another node is asked after every error of the transport that says that the worker was not
/// reached; the one error that does not say why is passed on.
pub proof fn law_unreached_workers_are_passed_by(err: P2PError)
    ensures
        crate::external_client_api::side_transfer::falls_back(err) <==> !(err is Other),
        crate::external_client_api::retry::is_transient(err) <==> !(err is Other) && !(err
            is StartServerError),
{
}

/// What a client attaches to: an owner whose memory and description are there, whose description did
/// not change while it was read, of the expected protocol and cluster, in the generation that the
/// cluster knows, and described anew since the client attached last. A client that has an owner
/// refuses a description of another one, and a client without one waits for a description that was
/// written since it began to wait.
pub proof fn law_just_the_expected_owner_is_attached(
    expected: OwnerProbeExpectation<'_>,
    input: OwnerProbeInput,
)
    ensures
        ({
            let outcome = crate::external_client_api::owner::probe_outcome(expected, input);
            let described = input.mmap_file_ready && input.shared_json_ready
                && (input.read matches SharedJsonRead::Read { before, meta, after } && before == after
                && meta.protocol_version@ == expected.expected_protocol_version@
                && meta.cluster_name@ == expected.expected_cluster_name@);
            let other_owner = input.read matches SharedJsonRead::Read { meta, .. } && (
            expected.old_owner_id matches Some(id) && id@ != meta.owner_id@);
            &&& outcome is Changed <==> described && other_owner
            &&& outcome is Ready <==> described && !other_owner && (
            input.read matches SharedJsonRead::Read { meta, after, .. } && {
                &&& expected.current_signature is Some || (meta.write_ts matches Some(written)
                    && written > expected.wait_start_ts) || (meta.write_ts is None && 0
                    > expected.wait_start_ts)
                &&& input.owner_member matches Some(member) && member.node_start_time
                    == meta.node_start_time
                &&& expected.current_signature != Some(after)
            })
        }),
{
}

/// A client moves on to a mapped owner of another generation than the one that it saw, and to that
/// one's memory; an owner is present if the cluster knows it in the generation that is mapped, and
/// has changed if the cluster knows it in another one than the call saw.
pub proof fn law_generations_are_told_apart(
    inner: ExternalInner,
    member: Option<ClusterMember>,
    seen: i64,
)
    ensures
        match inner.awaited_owner(seen) {
            Some((time, base)) => inner.current_owner is Some && time
                == inner.current_owner->0.owner_start_time && time != seen && base
                == inner.current_owner->0.shared_memory.ptr_rw,
            None => inner.current_owner is None || inner.current_owner->0.owner_start_time == seen,
        },
        inner.current_owner is Some ==> (inner.owner_present_in(member) <==> member is Some
            && member->0.node_start_time == inner.current_owner->0.owner_start_time),
        inner.generation_changed(member, seen) <==> inner.current_owner is Some && member is Some
            && member->0.node_start_time != seen,
{
}

/// A call begins at once exactly if an owner's memory is mapped, for that owner's generation and with
/// its memory.
pub proof fn law_calls_begin_with_the_mapped_owner(inner: ExternalInner, retry: RetryState)
    ensures
        ({
            let call = OwnerCall::fresh(inner, retry);
            &&& call.wait is None <==> inner.current_owner is Some
            &&& inner.current_owner matches Some(owner) ==> call.prev_owner_start_time
                == owner.owner_start_time && call.base_addr == owner.shared_memory.ptr_rw
            &&& call.retry == retry
        }),
{
}

/// What an error of a call comes to: a restart of the owner is waited out however often it happens, an
/// error of the transport is retried as often as the call may be, and any other error ends the call
/// and is the one that is told.
pub proof fn law_errors_are_retried_or_told(call: OwnerCall, err: KvError)
    ensures
        ({
            let (after, last) = call.after_error(err);
            let restarted = err matches KvErrorOf::Api(ApiErrorOf::OwnerStartTimeMismatch { .. });
            let again = err is P2p && (call.retry.max_attempts is None
                || call.retry.recover_attempts < call.retry.max_attempts->0);
            &&& restarted ==> last is None && after.wait == Some(OwnerWait::Restarted)
                && after.retry == call.retry
            &&& !restarted && again ==> last is None && after.wait == Some(OwnerWait::Reached)
                && after.retry.max_attempts == call.retry.max_attempts && (
            call.retry.max_attempts is Some ==> after.retry.recover_attempts
                == call.retry.recover_attempts + 1)
            &&& !restarted && !again ==> last == Some(err) && after == call
            &&& after.prev_owner_start_time == call.prev_owner_start_time
            &&& after.base_addr == call.base_addr
        }),
{
}

/// A get, an existence check and a deletion are retried three times for the transport, and a put
/// until it is answered.
pub proof fn law_three_retries_for_the_transport()
    ensures
        RetryState::bounded_state().max_attempts == Some(3usize),
        RetryState::bounded_state().recover_attempts == 0,
        RetryState::unbounded_state().max_attempts is None,
{
}

/// A call that waits goes on with the mapped memory of the current owner: a call that waited for a
/// restart only with another generation than it saw, a call that waited for the memory to be mapped
/// as soon as it is, and a call that waited for the owner to be reached as long as the cluster does not
/// know another generation.
pub proof fn law_waiting_calls_go_on_with_the_mapped_owner(
    call: OwnerCall,
    inner: ExternalInner,
    member: Option<ClusterMember>,
)
    ensures
        call.recovered(inner, member) matches Some((time, base)) ==> {
            &&& inner.current_owner is Some
            &&& base == inner.current_owner->0.shared_memory.ptr_rw
            &&& time == call.prev_owner_start_time || time
                == inner.current_owner->0.owner_start_time
        },
        inner.current_owner is None ==> call.recovered(inner, member) is None,
        call.wait == Some(OwnerWait::Restarted) && inner.current_owner is Some ==> {
            &&& call.recovered(inner, member) is Some <==> inner.current_owner->0.owner_start_time
                != call.prev_owner_start_time
            &&& call.recovered(inner, member) matches Some((time, _)) ==> time
                == inner.current_owner->0.owner_start_time
        },
        call.wait == Some(OwnerWait::Mapped) && inner.current_owner is Some ==> (call.recovered(
            inner,
            member,
        ) matches Some((time, _)) && time == call.prev_owner_start_time),
        call.wait == Some(OwnerWait::Reached) && inner.current_owner is Some && (member is None
            || member->0.node_start_time == call.prev_owner_start_time) ==> (call.recovered(
            inner,
            member,
        ) matches Some((time, _)) && time == call.prev_owner_start_time),
{
}

/// A get that asks, asks the owner that is mapped, for its own key and in its own name, and will read
/// in the memory of that owner.
pub proof fn law_gets_ask_the_mapped_owner(
    get: GetCall,
    after: GetCall,
    inner: ExternalInner,
    step: GetCallStep,
)
    requires
        get.asks(after, inner, step),
    ensures
        step is Send <==> inner.current_owner is Some,
        step matches GetCallStep::Send { owner, req } ==> {
            &&& owner@ == inner.current_owner->0.node_id@
            &&& req.key@ == get.key@
            &&& req.req_node_id@ == get.self_id@
            &&& req.started_time == get.call.prev_owner_start_time
            &&& after.stage == (GetStage::Asked {
                base_ro: inner.current_owner->0.shared_memory.ptr_ro,
            })
        },
        after.key == get.key,
        after.self_id == get.self_id,
        after.call == get.call,
{
}

/// A value that a client holds is used again exactly if the index names a holder for the key that
/// still exists and is of the generation that is mapped. Otherwise the index forgets the key, and in
/// either case it keeps every other key.
pub proof fn law_held_values_are_used_in_their_generation(
    inner: ExternalInner,
    after: ExternalInner,
    key: Seq<char>,
    live: Option<i64>,
)
    requires
        inner.looked_up(after, key, live),
    ensures
        ({
            let index = inner.key_weak_memholder_index@;
            let generation = if inner.current_owner is Some {
                inner.current_owner->0.owner_start_time
            } else {
                0
            };
            &&& inner.weak_holder(key, live) is Some <==> index.contains_key(key) && live == Some(
                generation,
            )
            &&& inner.weak_holder(key, live) matches Some(holder) ==> holder == index[key]
            &&& after.key_weak_memholder_index@.contains_key(key) <==> inner.weak_holder(
                key,
                live,
            ) is Some
            &&& forall|other: Seq<char>|
                other != key ==> (#[trigger] after.key_weak_memholder_index@.contains_key(other)
                    <==> index.contains_key(other)) && (index.contains_key(other)
                    ==> after.key_weak_memholder_index@[other] == index[other])
            &&& after.current_owner == inner.current_owner
        }),
{
}

/// As many keys are told to be forgotten as the index has fewer afterwards.
pub proof fn law_forgotten_keys_are_counted(index: Map<Seq<char>, u64>, keys: Seq<String>)
    requires
        index.dom().finite(),
    ensures
        crate::external_client_api::weak_index::without_keys(index, keys).dom().finite(),
        crate::external_client_api::weak_index::forgotten(index, keys)
            + crate::external_client_api::weak_index::without_keys(index, keys).dom().len()
            == index.dom().len(),
    decreases keys.len(),
{
    if keys.len() > 0 {
        law_forgotten_keys_are_counted(index, keys.drop_last());
        let before = crate::external_client_api::weak_index::without_keys(index, keys.drop_last());
        assert(before.remove(keys.last()@).dom() =~= before.dom().remove(keys.last()@));
    }
}

/// A route counts as ready after two good answers in a row. A transient error starts the count anew,
/// any other error ends the wait with it, and the deadline ends it too.
pub proof fn law_routes_are_ready_after_two_good_answers(
    wait: SendReadyWait,
    readiness: Result<(), P2PError>,
    printed: String,
    now_ms: u64,
)
    requires
        wait.can_ask(),
    ensures
        ({
            let outcome = wait.answered(readiness, printed, now_ms);
            let next = wait.asked_again(readiness, printed);
            &&& outcome is Ready <==> readiness is Ok && wait.consecutive_ready >= 1
            &&& outcome is Sleep ==> now_ms < wait.deadline_ms
            &&& readiness is Err && !(readiness->Err_0 is Other) && !(readiness->Err_0
                is StartServerError) && now_ms < wait.deadline_ms ==> outcome is Sleep
                && next.consecutive_ready == 0
            &&& readiness is Ok && wait.consecutive_ready == 0 && now_ms < wait.deadline_ms
                ==> outcome is Sleep && next.consecutive_ready == 1
            &&& readiness is Err && (readiness->Err_0 is Other || readiness->Err_0
                is StartServerError) ==> (outcome matches ReadinessView::Failed(error) && error
                is P2p)
            &&& next.deadline_ms == wait.deadline_ms
            &&& next.attempts == wait.attempts + 1
            &&& next.logical_target == wait.logical_target
            &&& next.last_transient_err == if readiness is Ok {
                wait.last_transient_err
            } else {
                Some(printed)
            }
        }),
{
}

/// After an owner is attached the route to it is waited for, and then the route to the master, each
/// for half a minute. The owner is usable, in the generation and at the address that were mapped, once
/// both are ready.
pub proof fn law_both_routes_are_waited_for(
    routes: RecoverRoutes,
    inner: ExternalInner,
    readiness: Result<(), P2PError>,
    printed: String,
    now_ms: u64,
    next: (RecoverRoutes, RecoverRoutesStep),
)
    requires
        routes.current() is Some,
        routes.current()->0.can_ask(),
        routes.followed_by(inner, readiness, printed, now_ms, next),
    ensures
        ({
            let wait = routes.current()->0;
            let ready = readiness is Ok && wait.consecutive_ready >= 1;
            &&& next.1 is FindMaster <==> routes is Owner && ready
            &&& next.1 is Done <==> routes is Master && ready && inner.current_owner is Some
            &&& next.1 matches RecoverRoutesStep::Done { owner_start_time, base_addr } ==> {
                &&& owner_start_time == inner.current_owner->0.owner_start_time
                &&& base_addr == inner.current_owner->0.shared_memory.ptr_rw
            }
            &&& next.1 is Sleep ==> {
                &&& next.0 is Owner <==> routes is Owner
                &&& next.0.current() is Some
                &&& next.0.current()->0.logical_target == wait.logical_target
                &&& next.0.current()->0.deadline_ms == wait.deadline_ms
                &&& now_ms < wait.deadline_ms
            }
        }),
{
}

/// A wait for a route begins without answers, and ends after half a minute.
pub proof fn law_routes_are_waited_for_half_a_minute(
    wait: SendReadyWait,
    target: Seq<char>,
    role: Seq<char>,
    now_ms: u64,
)
    requires
        RecoverRoutes::waits_for(wait, target, role, now_ms),
    ensures
        wait.logical_target@ == target,
        wait.target_role@ == role,
        wait.deadline_ms == now_ms + 30_000,
        wait.phase@ == "owner_recover"@,
        wait.consecutive_ready == 0,
        wait.attempts == 0,
        wait.last_transient_err is None,
{
}

/// A client looks for an owner in the directory, cluster and version that it was started with. Once it
/// is attached it looks for the same owner with another description.
pub proof fn law_the_same_owner_is_looked_for(
    inner: ExternalInner,
    expected: OwnerProbeExpectation<'_>,
)
    requires
        inner.expects(expected),
    ensures
        expected.shared_memory_path@ == inner.external_shared_memory_path@,
        expected.shared_file_path@ == inner.external_shared_file_path@,
        expected.expected_cluster_name@ == inner.expected_cluster_name@,
        expected.wait_start_ts == i64::MIN,
        expected.expected_protocol_version@ == inner.expected_protocol_version@,
        inner.current_owner is None ==> expected.old_owner_id is None
            && expected.current_signature is None,
        inner.current_owner is Some ==> expected.old_owner_id is Some && expected.old_owner_id->0@
            == inner.current_owner->0.node_id@ && expected.current_signature == Some(
            inner.current_owner->0.shared_memory.memory_signature,
        ),
{
}

/// The start of a put goes to its target with the key, the length and the options of the put, for the
/// generation that the call saw; the put itself stays the same.
pub proof fn law_put_start_says_what_is_put(
    put: ExternalPut,
    next: ExternalPut,
    step: PutStep,
    owner: String,
    target: CallTarget,
)
    requires
        put.starting(next, step, owner, target),
    ensures
        step matches PutStep::CallStart { owner: to, target: via, req } && to@ == owner@ && via
            == target && req.key@ == put.args.key@ && req.len == put.args.len
            && req.reject_if_inflight_same_key == put.args.opts.reject_if_inflight_same_key
            && req.preferred_sub_cluster == put.args.opts.preferred_sub_cluster && req.started_time
            == put.call.prev_owner_start_time && req.test_observe_put_phases,
        next.args == put.args,
        next.call == put.call,
        next.stage matches PutStage::Starting { owner: to, target: via } && to@ == owner@ && via
            == target,
{
}

/// The end of a put goes to its target with what the start gave: where the value was written, where it
/// is to go and on which node, under the id and the lease of the put.
pub proof fn law_put_end_says_what_was_started(
    put: ExternalPut,
    next: ExternalPut,
    step: PutStep,
    owner: String,
    started: ExternalPutStartOk,
    target: CallTarget,
    tried: Option<(String, u16)>,
    bound: bool,
)
    requires
        put.ending(next, step, owner, started, target, tried, bound),
    ensures
        step matches PutStep::CallEnd { owner: to, target: via, req } && to@ == owner@ && via
            == target && req.key@ == put.args.key@ && req.len == put.args.len && req.put_id
            == started.put_id && req.lease_id == put.args.opts.lease_id && req.src_offset
            == started.src_offset && req.target_offset == (
        if started.transfer_target_offset is Some {
            started.transfer_target_offset->0
        } else {
            started.target_offset
        }) && req.peer_id == started.peer_id && req.target_base_addr == (
        if started.peer_id is Some {
            Some(started.target_base_addr)
        } else {
            None
        }) && req.started_time == put.call.prev_owner_start_time && req.test_observe_put_phases,
        next.args == put.args,
        next.call == put.call,
{
}

/// The value of a put is written at its source: that is where a transfer takes it from, and where it
/// stays if there is none.
pub proof fn law_values_are_written_at_their_source(started: ExternalPutStartOk)
    ensures
        started.write_offset() == started.src_offset,
{
}

/// A put that fails keeps its arguments: it is over with the error, or waits for the owner to be tried
/// anew.
pub proof fn law_failed_put_is_over_or_tried_anew(
    put: ExternalPut,
    next: ExternalPut,
    step: PutStep,
    err: KvError,
)
    requires
        put.failed(next, step, err),
    ensures
        next.args == put.args,
        next.stage is Idle,
        ({
            let restarted = err matches KvErrorOf::Api(ApiErrorOf::OwnerStartTimeMismatch { .. });
            let again = restarted || (err is P2p && (put.call.retry.max_attempts is None
                || put.call.retry.recover_attempts < put.call.retry.max_attempts->0));
            &&& again ==> step == PutStep::AwaitOwner && next.call.wait is Some
            &&& !again ==> step == PutStep::Done(Err(err))
        }),
{
}

/// A put is bound to the worker that answered its start, and to no worker once it ended; the bindings
/// of other puts stay as they are.
pub proof fn law_puts_are_bound_until_they_end(
    bindings: Map<(u64, u32), (Seq<char>, u16)>,
    put_id: (u64, u32),
    side: (String, u16),
    other: (u64, u32),
)
    ensures
        ({
            let bound = crate::external_client_api::put_call::bound_to(
                bindings,
                Some(put_id),
                Some(side),
            );
            let ended = crate::external_client_api::put_call::unbound(bound, Some(put_id));
            &&& bound.contains_key(put_id) && bound[put_id] == (side.0@, side.1)
            &&& !ended.contains_key(put_id)
            &&& other != put_id ==> (bound.contains_key(other) <==> bindings.contains_key(other))
                && (ended.contains_key(other) <==> bindings.contains_key(other))
            &&& other != put_id && bindings.contains_key(other) ==> bound[other]
                == bindings[other] && ended[other] == bindings[other]
        }),
        crate::external_client_api::put_call::bound_to(bindings, Some(put_id), None) == bindings,
        crate::external_client_api::put_call::bound_to(bindings, None, Some(side)) == bindings,
        crate::external_client_api::put_call::unbound(bindings, None) == bindings,
{
}

/// Calls that belong to no put reach every worker that serves, each in its turn.
pub proof fn law_turns_reach_every_worker(serving: Seq<LanePeer>, worker: LanePeer)
    requires
        serving.contains(worker),
        serving.len() <= usize::MAX,
    ensures
        exists|turn: usize|
            turn < serving.len()
                && #[trigger] crate::external_client_api::side_transfer::picked_peer(
                serving,
                None,
                turn,
            ) == Some(worker),
{
    broadcast use vstd::seq_lib::group_to_multiset_ensures;

    let ordered = crate::external_client_api::side_transfer::in_lane_order(serving);
    crate::external_client_api::side_transfer::law_lane_order_is_a_sort(serving);
    assert(serving.to_multiset().contains(worker));
    assert(ordered.contains(worker));
    let at = choose|at: int| 0 <= at < ordered.len() && ordered[at] == worker;
    assert(ordered.len() == serving.len()) by {
        assert(ordered.to_multiset().len() == serving.to_multiset().len());
    }
    let turn = at as usize;
    assert(turn as int % ordered.len() as int == at) by (nonlinear_arith)
        requires
            0 <= at < ordered.len(),
            turn == at,
    ;
    assert(crate::external_client_api::side_transfer::picked_peer(serving, None, turn) == Some(
        worker,
    ));
}

/// A worker is picked only for the owner that the client is attached to, among the workers of its
/// generation. Each call that belongs to no put and finds one takes the next turn; other calls take
/// none.
pub proof fn law_workers_of_the_attached_owner_are_picked(
    inner: ExternalInner,
    peers: Seq<SideTransferPeer>,
    put_id: Option<(u64, u32)>,
)
    ensures
        inner.current_owner is None ==> inner.picked(peers, put_id) is None,
        inner.picked(peers, put_id) matches Some(worker) ==> inner.current_owner is Some && exists|
            i: int,
        |
            0 <= i < peers.len() && works_for(
                #[trigger] peers[i],
                inner.current_owner->0.node_id@,
                inner.current_owner->0.owner_start_time,
                worker,
            ),
        inner.turn_after(peers, put_id) != inner.side_rr_next ==> put_id is None && inner.picked(
            peers,
            put_id,
        ) is Some,
        put_id is None && inner.picked(peers, put_id) is Some && inner.side_rr_next < usize::MAX
            ==> inner.turn_after(peers, put_id) == inner.side_rr_next + 1,
{
    if let Some(owner) = inner.current_owner {
        let serving = crate::external_client_api::side_transfer::serving_lanes(
            peers,
            owner.node_id@,
            owner.owner_start_time,
        );
        law_served_lane_is_used(serving, put_id, inner.side_rr_next);
        if let Some(worker) = inner.picked(peers, put_id) {
            law_only_workers_of_the_owner_serve(
                peers,
                owner.node_id@,
                owner.owner_start_time,
                worker,
            );
        }
    }
}

/// A call goes to the worker that was picked for it, on its lane, and to the owner where none was. The
/// worker that a put is bound to is the one that answered last.
pub proof fn law_calls_go_where_they_were_sent(
    target: CallTarget,
    picked: Option<LanePeer>,
    first: Option<(String, u16)>,
    last: Option<(String, u16)>,
)
    requires
        target.is_picked(picked),
    ensures
        picked is None <==> target.side() is None,
        picked matches Some(worker) ==> (target.side() matches Some((side_id, lane)) && side_id@
            == worker.1 && lane == worker.0),
        last is Some ==> crate::external_client_api::put_call::latest(first, last) == last,
        last is None ==> crate::external_client_api::put_call::latest(first, last) == first,
{
}

/// A commit ends the put that was started: its key, its id, its lease, in its generation.
pub proof fn law_commit_ends_the_put_that_was_started(
    req: ExternalPutCommitReq,
    put_id: Option<(u64, u32)>,
    key: Seq<char>,
    opts: PutOptions,
    started_time: i64,
)
    requires
        req.commits(put_id, key, opts, started_time),
    ensures
        req.key@ == key,
        req.put_id == put_id,
        req.lease_id == opts.lease_id,
        req.started_time == started_time,
        req.test_observe_put_phases,
{
}

/// A put that finds no owner is not done: it is over with an error, or waits for one.
pub proof fn law_puts_without_an_owner_fail_or_wait(put: ExternalPut, next: ExternalPut, step: PutStep)
    requires
        put.failed_without_owner(next, step),
    ensures
        step matches PutStep::Done(result) ==> result is Err,
        step is Done || step is AwaitOwner,
        next.args == put.args,
        next.stage == PutStage::Idle,
        next.side is None,
{
}

/// A get holds what it was answered with: the bytes that the owner named, where they are mapped for
/// reading, for the key and the client that asked and in the generation that answered. Without an
/// answer it holds nothing.
pub proof fn law_gets_hold_what_was_answered(
    holder: Option<ExternalMemHolder>,
    info: Option<ExternalGetInfo>,
    base_ro: u64,
    key: Seq<char>,
    external_client_id: Seq<char>,
    started_time: i64,
)
    requires
        crate::external_client_api::put::held(
            holder,
            info,
            base_ro,
            key,
            external_client_id,
            started_time,
        ),
    ensures
        holder is Some <==> info is Some,
        holder matches Some(held) ==> {
            &&& held.addr - base_ro == info->0.offset
            &&& held.offset == info->0.offset
            &&& held.len == info->0.len
            &&& held.holder_id == info->0.holder_id
            &&& held.key@ == key
            &&& held.external_client_id@ == external_client_id
            &&& held.owner_start_time == started_time
        },
{
}

/// A start that was answered has the value written where the put begins in the mapped memory, or is
/// committed without a value where that is switched on, and binds the put to the worker that answered.
/// A worker that was not reached is passed by for the owner; every other error fails the put.
pub proof fn law_answered_starts_are_written(
    inner: ExternalInner,
    inner_after: ExternalInner,
    put: ExternalPut,
    reply: Result<KvResult<ExternalPutStartOk>, P2PError>,
    next: (ExternalPut, PutStep),
)
    requires
        crate::external_client_api::put_call::start_answered(inner, inner_after, put, reply, next),
        put.stage is Starting,
        reply matches Ok(Ok(started)) ==> put.call.base_addr + started.src_offset <= u64::MAX,
    ensures
        reply matches Ok(Ok(started)) ==> {
            let side = put.stage->Starting_target.side();
            &&& !inner.short_circuit_put_payload_path ==> next.1 == (PutStep::Write {
                addr: (put.call.base_addr + started.src_offset) as u64,
            }) && next.0.stage == (PutStage::Writing { started }) && next.0.side == side
            &&& inner.short_circuit_put_payload_path && inner.current_owner is Some ==> (
            next.1 matches PutStep::Commit { owner, req } && owner@
                == inner.current_owner->0.node_id@ && req.put_id == started.put_id && req.key@
                == put.args.key@ && req.lease_id == put.args.opts.lease_id)
            &&& inner.short_circuit_put_payload_path && inner.current_owner is None ==> !(next.1
                is Write) && !(next.1 is Commit)
            &&& side is None || started.put_id is None
                ==> inner_after.side_transfer_put_bindings@ == inner.side_transfer_put_bindings@
            &&& (side, started.put_id) matches (Some((side_id, lane)), Some(put_id)) ==> {
                &&& inner_after.side_transfer_put_bindings@.contains_key(put_id)
                &&& inner_after.side_transfer_put_bindings@[put_id] == (side_id@, lane)
            }
        },
        !(reply matches Ok(Ok(_))) ==> {
            &&& inner_after.side_transfer_put_bindings@ == inner.side_transfer_put_bindings@
            &&& next.1 is CallStart <==> put.stage->Starting_target is Side && (reply matches Err(
                err,
            ) && !(err is Other))
            &&& next.1 matches PutStep::CallStart { owner, target, req } ==> owner
                == put.stage->Starting_owner && target == CallTarget::Owner && req.key@
                == put.args.key@ && req.len == put.args.len
            &&& !(next.1 is Write) && !(next.1 is Commit) && !(next.1 matches PutStep::Done(Ok(_)))
        },
        next.0.args == put.args,
{
}

/// A put is done, and says through which worker, exactly when its end was answered well. A worker that
/// was not reached is passed by: for another one where the put was bound to it, and else for the
/// owner. Every other error fails the put. The binding ends with the put.
pub proof fn law_answered_ends_are_done(
    inner: ExternalInner,
    inner_after: ExternalInner,
    put: ExternalPut,
    reply: Result<KvResult<()>, P2PError>,
    next: (ExternalPut, PutStep),
)
    requires
        crate::external_client_api::put_call::end_answered(inner, inner_after, put, reply, next),
        put.stage is Ending,
    ensures
        ({
            let again = put.stage->Ending_target is Side && (reply matches Err(err) && !(err
                is Other));
            let bound = put.stage->Ending_bound;
            &&& (next.1 matches PutStep::Done(Ok(_))) <==> (reply matches Ok(Ok(_)))
            &&& next.1 matches PutStep::Done(Ok(side)) ==> side
                == if put.stage->Ending_target.side() is Some {
                put.stage->Ending_target.side()
            } else {
                put.side
            }
            &&& next.1 is Pick <==> again && bound
            &&& next.1 is CallEnd <==> again && !bound
            &&& next.1 matches PutStep::CallEnd { owner, target, req } ==> owner
                == put.stage->Ending_owner && target == CallTarget::Owner && req.key@
                == put.args.key@ && req.put_id == put.stage->Ending_started.put_id
            &&& again ==> inner_after.side_transfer_put_bindings@
                == inner.side_transfer_put_bindings@
            &&& !again && put.stage->Ending_started.put_id is Some
                ==> !inner_after.side_transfer_put_bindings@.contains_key(
                put.stage->Ending_started.put_id->0,
            )
        }),
        next.0.args == put.args,
{
}

/// A get that was answered hands out what it holds, and notes it under its key for the next one; the
/// other keys stay as they are. An error is handed out, or has the get wait for the owner, and notes
/// nothing.
pub proof fn law_answered_gets_are_noted(
    before: GetCall,
    after: GetCall,
    inner: ExternalInner,
    inner_after: ExternalInner,
    reply: KvResult<Option<ExternalGetInfo>>,
    result: Option<KvResult<Option<ExternalMemHolder>>>,
)
    requires
        crate::external_client_api::calls::get_call_answered(
            before,
            after,
            inner,
            inner_after,
            reply,
            result,
        ),
        before.stage is Asked,
    ensures
        ({
            let was = inner.key_weak_memholder_index@;
            let is = inner_after.key_weak_memholder_index@;
            &&& reply matches Ok(found) ==> (result matches Some(Ok(holder)) && {
                &&& holder is Some <==> found is Some
                &&& found matches Some(info) ==> {
                    &&& holder->0.addr - before.stage->base_ro == info.offset
                    &&& holder->0.len == info.len
                    &&& holder->0.key@ == before.key@
                    &&& is.contains_key(before.key@) && is[before.key@] == info.holder_id
                }
                &&& found is None ==> is == was
            })
            &&& reply is Ok ==> after.call == before.call
            &&& reply is Err ==> is == was && !(result matches Some(Ok(_)))
            &&& reply matches Err(err) ==> match result {
                Some(told) => told == Err::<Option<ExternalMemHolder>, KvError>(err) && after.call
                    == before.call,
                None => after.call.wait is Some && after.call.base_addr == before.call.base_addr
                    && after.call.prev_owner_start_time == before.call.prev_owner_start_time,
            }
            &&& forall|other: Seq<char>|
                other != before.key@ ==> (#[trigger] is.contains_key(other)
                    <==> was.contains_key(other)) && (was.contains_key(other) ==> is[other]
                    == was[other])
        }),
{
}

} // verus!
