//! Gets: a key is served from a living replica, and goes on being served while one lives.

use crate::cluster_manager::NodeID;
use crate::error::{ApiErrorOf, KvErrorOf};
use crate::master_kv_router::get::{
    GetDoneOutcome, GetStartStep, InflightGetInfo, StartingGet,
};
use crate::master_kv_router::msg_pack::GetAllocationMode;
use crate::master_kv_router::put::PutIDForAKey;
use crate::master_kv_router::routes::{KvRouteInfo, RouteModel};
use crate::master_kv_router::MasterKvRouter;
use crate::master_seg_manager::one_seg_allocator::{Allocation, OneSegAllocator};
use crate::master_seg_manager::MasterSegManager;
use vstd::prelude::*;

verus! {

/// The mark of the replica's node is not set.
pub open spec fn lives(replica: KvRouteInfo, marks: Seq<bool>) -> bool {
    !(replica.tomb_tag.slot() < marks.len() && marks[replica.tomb_tag.slot() as int])
}

/// The key still has a route of the same version, with this replica.
pub open spec fn still_has(
    before: Map<Seq<char>, RouteModel>,
    after: Map<Seq<char>, RouteModel>,
    key: Seq<char>,
    replica: KvRouteInfo,
) -> bool {
    &&& after.contains_key(key)
    &&& after[key].put_id == before[key].put_id
    &&& after[key].lease_id == before[key].lease_id
    &&& after[key].route_id == before[key].route_id
    &&& after[key].replicas.contains(replica)
}

/// Every living replica of every key is kept.
pub open spec fn living_replicas_kept(
    before: Map<Seq<char>, RouteModel>,
    after: Map<Seq<char>, RouteModel>,
    marks: Seq<bool>,
) -> bool {
    forall|key: Seq<char>, i: int|
        before.contains_key(key) && 0 <= i < before[key].replicas.len() && lives(
            #[trigger] before[key].replicas[i],
            marks,
        ) ==> still_has(before, after, key, before[key].replicas[i])
}

/// Every replica that is not on one of the nodes is kept.
pub open spec fn replicas_elsewhere_kept(
    before: Map<Seq<char>, RouteModel>,
    after: Map<Seq<char>, RouteModel>,
    nodes: Seq<NodeID>,
) -> bool {
    forall|key: Seq<char>, i: int|
        before.contains_key(key) && 0 <= i < before[key].replicas.len() && (forall|t: int|
            0 <= t < nodes.len() ==> (#[trigger] nodes[t])@ != before[key].replicas[i].node_id@)
            ==> still_has(before, after, key, #[trigger] before[key].replicas[i])
}

/// No route and no replica is new, and no other key loses anything.
pub open spec fn only_key_loses(
    before: Map<Seq<char>, RouteModel>,
    after: Map<Seq<char>, RouteModel>,
    key: Seq<char>,
) -> bool {
    &&& forall|other: Seq<char>|
        other != key ==> (#[trigger] after.contains_key(other) <==> before.contains_key(other))
            && (before.contains_key(other) ==> after[other] == before[other])
    &&& after.contains_key(key) ==> before.contains_key(key) && forall|i: int|
        0 <= i < after[key].replicas.len() ==> before[key].replicas.contains(
            #[trigger] after[key].replicas[i],
        )
}

/// What the cleanup after a look for a replica leaves: every replica on a node that was not found to
/// be gone, under the same version, and so a route wherever such a replica is.
pub proof fn law_cleanup_leaves_the_other_replicas(
    routes: Map<Seq<char>, RouteModel>,
    key: Seq<char>,
    put_id: PutIDForAKey,
    tombs: Seq<NodeID>,
)
    ensures
        replicas_elsewhere_kept(
            routes,
            crate::master_kv_router::get::cleaned(routes, key, put_id, tombs),
            tombs,
        ),
        only_key_loses(
            routes,
            crate::master_kv_router::get::cleaned(routes, key, put_id, tombs),
            key,
        ),
        routes.contains_key(key) && routes[key].put_id == put_id ==> forall|i: int, t: int|
            0 <= i < crate::master_kv_router::get::cleaned(
                routes,
                key,
                put_id,
                tombs,
            )[key].replicas.len() && 0 <= t < tombs.len()
                && crate::master_kv_router::get::cleaned(
                routes,
                key,
                put_id,
                tombs,
            ).contains_key(key) ==> (#[trigger] crate::master_kv_router::get::cleaned(
                routes,
                key,
                put_id,
                tombs,
            )[key].replicas[i]).node_id@ != (#[trigger] tombs[t])@,
{
    let after = crate::master_kv_router::get::cleaned(routes, key, put_id, tombs);
    if routes.contains_key(key) && routes[key].put_id == put_id {
        let replicas = routes[key].replicas;
        let kept = crate::master_kv_router::routes::replicas_off(replicas, tombs);
        crate::master_kv_router::routes::lemma_replicas_off(replicas, tombs);
        assert forall|other: Seq<char>, i: int|
            routes.contains_key(other) && 0 <= i < routes[other].replicas.len() && (forall|t: int|
                0 <= t < tombs.len() ==> (#[trigger] tombs[t])@
                    != routes[other].replicas[i].node_id@) implies still_has(
            routes,
            after,
            other,
            #[trigger] routes[other].replicas[i],
        ) by {
            if other == key {
                assert(!crate::master_kv_router::routes::names_contain(
                    tombs,
                    replicas[i].node_id@,
                ));
                assert(kept.contains(replicas[i]));
                assert(kept.len() > 0);
            } else {
                assert(after[other].replicas.contains(routes[other].replicas[i]));
            }
        }
        if kept.len() > 0 {
            assert forall|i: int, t: int|
                0 <= i < kept.len() && 0 <= t < tombs.len() implies (
            #[trigger] kept[i]).node_id@ != (#[trigger] tombs[t])@ by {
                if kept[i].node_id@ == tombs[t]@ {
                    assert(crate::master_kv_router::routes::names_contain(
                        tombs,
                        kept[i].node_id@,
                    ));
                }
            }
        }
    } else {
        assert forall|other: Seq<char>, i: int|
            routes.contains_key(other) && 0 <= i < routes[other].replicas.len() implies still_has(
            routes,
            after,
            other,
            #[trigger] routes[other].replicas[i],
        ) by {
            assert(after[other].replicas.contains(routes[other].replicas[i]));
        }
        if after.contains_key(key) {
            assert forall|i: int| 0 <= i < after[key].replicas.len() implies routes[key].replicas.contains(
                #[trigger] after[key].replicas[i],
            ) by {}
        }
    }
}

/// The look for a replica finds only nodes that are gone on its way, gives up only where every
/// replica is gone, and chooses a living replica of the route.
pub proof fn law_look_finds_a_living_replica(
    route: RouteModel,
    marks: Seq<bool>,
    chosen: Option<KvRouteInfo>,
    tombs: Seq<NodeID>,
)
    requires
        crate::master_kv_router::get::selection_ok(route, marks, chosen, tombs),
    ensures
        forall|i: int, t: int|
            0 <= i < route.replicas.len() && 0 <= t < tombs.len() && (
            #[trigger] route.replicas[i]).node_id@ == (#[trigger] tombs[t])@ ==> !lives(
                route.replicas[i],
                marks,
            ),
        chosen is None <==> forall|i: int|
            0 <= i < route.replicas.len() ==> !lives(#[trigger] route.replicas[i], marks),
        chosen matches Some(replica) ==> route.replicas.contains(replica) && lives(replica, marks),
{
    assert forall|i: int, t: int|
        0 <= i < route.replicas.len() && 0 <= t < tombs.len() && (
        #[trigger] route.replicas[i]).node_id@ == (#[trigger] tombs[t])@ implies !lives(
        route.replicas[i],
        marks,
    ) by {
        assert(crate::master_kv_router::routes::names_contain(tombs, route.replicas[i].node_id@));
    }
    if let Some(replica) = chosen {
        let i = choose|i: int| 0 <= i < route.replicas.len() && route.replicas[i] == replica;
        assert(lives(route.replicas[i], marks));
    } else {
        assert forall|i: int| 0 <= i < route.replicas.len() implies !lives(
            #[trigger] route.replicas[i],
            marks,
        ) by {
            assert(crate::master_kv_router::routes::names_contain(
                tombs,
                route.replicas[i].node_id@,
            ));
        }
    }
}

/// A get that is started, refused for want of memory or not found takes no living replica away: the
/// key keeps its route, in the same version, with every replica whose node is not gone.
pub proof fn law_get_start_keeps_living_replicas(
    before: MasterKvRouter,
    after: MasterKvRouter,
    get_id: u64,
    key: String,
    req_node_id: NodeID,
    marks: Seq<bool>,
    chosen: Option<KvRouteInfo>,
    tombs: Vec<NodeID>,
    allocator: Option<OneSegAllocator>,
    step: GetStartStep,
)
    requires
        before.kv_routes@.contains_key(key@),
        crate::master_kv_router::get::selection_ok(
            before.kv_routes@[key@],
            marks,
            chosen,
            tombs@,
        ),
        crate::master_kv_router::get::get_begun(
            before,
            after,
            get_id,
            key,
            req_node_id,
            chosen,
            tombs,
            allocator,
            step,
        ),
    ensures
        living_replicas_kept(before.kv_routes@, after.kv_routes@, marks),
        only_key_loses(before.kv_routes@, after.kv_routes@, key@),
{
    let routes = before.kv_routes@;
    law_look_finds_a_living_replica(routes[key@], marks, chosen, tombs@);
    law_cleanup_leaves_the_other_replicas(routes, key@, routes[key@].put_id, tombs@);
    let cleaned = crate::master_kv_router::get::cleaned(
        routes,
        key@,
        routes[key@].put_id,
        tombs@,
    );
    assert(after.kv_routes@ == routes || after.kv_routes@ == cleaned);
    assert forall|k: Seq<char>, i: int|
        routes.contains_key(k) && 0 <= i < routes[k].replicas.len() && lives(
            #[trigger] routes[k].replicas[i],
            marks,
        ) implies still_has(routes, after.kv_routes@, k, routes[k].replicas[i]) by {
        if after.kv_routes@ == routes {
            assert(routes[k].replicas.contains(routes[k].replicas[i]));
        } else if k == key@ {
            assert forall|t: int| 0 <= t < tombs@.len() implies (#[trigger] tombs@[t])@
                != routes[k].replicas[i].node_id@ by {}
            assert(still_has(routes, cleaned, k, routes[k].replicas[i]));
        } else {
            assert(cleaned.contains_key(k));
            assert(routes[k].replicas.contains(routes[k].replicas[i]));
        }
    }
    if after.kv_routes@ == routes {
        assert forall|i: int| 0 <= i < routes[key@].replicas.len() implies routes[key@].replicas.contains(
            #[trigger] after.kv_routes@[key@].replicas[i],
        ) by {}
    }
}

/// A get is served exactly as far as there is something to serve it from: with a living replica and
/// a replica or memory on the requester it goes on, from a living replica and in the current
/// version. `KeyNotFound` means that every replica is gone, and want of segments that the requester
/// has neither a replica nor a segment.
pub proof fn law_get_start_is_served_while_a_replica_lives(
    before: MasterKvRouter,
    after: MasterKvRouter,
    get_id: u64,
    key: String,
    req_node_id: NodeID,
    marks: Seq<bool>,
    chosen: Option<KvRouteInfo>,
    tombs: Vec<NodeID>,
    allocator: Option<OneSegAllocator>,
    step: GetStartStep,
)
    requires
        before.kv_routes@.contains_key(key@),
        crate::master_kv_router::get::selection_ok(
            before.kv_routes@[key@],
            marks,
            chosen,
            tombs@,
        ),
        crate::master_kv_router::get::get_begun(
            before,
            after,
            get_id,
            key,
            req_node_id,
            chosen,
            tombs,
            allocator,
            step,
        ),
    ensures
        ({
            let route = before.kv_routes@[key@];
            match step {
                GetStartStep::TryAllocate(pending) => {
                    &&& allocator == Some(pending.allocator)
                    &&& pending.get.get_id == get_id
                    &&& pending.get.key@ == key@
                    &&& pending.get.req_node_id@ == req_node_id@
                    &&& pending.get.put_id == route.put_id
                    &&& pending.get.route_id == route.route_id
                    &&& pending.get.lease_id == route.lease_id
                    &&& pending.get.tombs@ == tombs@
                    &&& route.replicas.contains(pending.get.src) && lives(pending.get.src, marks)
                    &&& forall|i: int|
                        0 <= i < route.replicas.len() ==> (#[trigger] route.replicas[i]).node_id@
                            != req_node_id@
                },
                GetStartStep::Done(outcome) => match outcome.reply {
                    Ok(resp) => exists|own: int, from: int|
                        {
                            &&& 0 <= own < route.replicas.len() && (
                            #[trigger] route.replicas[own]).node_id@ == req_node_id@
                            &&& 0 <= from < route.replicas.len() && lives(
                                #[trigger] route.replicas[from],
                                marks,
                            )
                            &&& resp.put_id == route.put_id
                            &&& resp.get_id == get_id && outcome.get_id == get_id
                            &&& resp.node_id@ == req_node_id@
                            &&& resp.len == route.replicas[from].allocation.size
                            &&& resp.target_addr == route.replicas[own].allocation.base
                                + route.replicas[own].allocation.addr
                            &&& resp.src_addr == resp.target_addr
                            &&& resp.target_base_addr == route.replicas[own].allocation.base
                            &&& resp.src_base_addr == resp.target_base_addr
                        },
                    Err(error) => {
                        ||| error@ == KvErrorOf::Api(ApiErrorOf::KeyNotFound { key: key@ })
                            && forall|i: int|
                            0 <= i < route.replicas.len() ==> !lives(
                                #[trigger] route.replicas[i],
                                marks,
                            )
                        ||| error@ is Unreachable && allocator is None && forall|i: int|
                            0 <= i < route.replicas.len() ==> (
                            #[trigger] route.replicas[i]).node_id@ != req_node_id@
                    },
                },
            }
        }),
{
    let route = before.kv_routes@[key@];
    law_look_finds_a_living_replica(route, marks, chosen, tombs@);
    crate::master_kv_router::routes::lemma_replica_index(route.replicas, req_node_id@);
    if let Some(replica) = chosen {
        let from = choose|i: int| 0 <= i < route.replicas.len() && route.replicas[i] == replica;
        assert(lives(route.replicas[from], marks));
        if let Some(own) = crate::master_kv_router::routes::replica_index(
            route.replicas,
            req_node_id@,
        ) {
            assert(route.replicas[own].node_id@ == req_node_id@);
        }
    }
}

/// A get whose memory was found keeps every replica that is not on a node that was found to be gone
/// at its start, is noted with its block, and answers with the replica that it was started from.
pub proof fn law_started_get_is_noted(
    before: MasterKvRouter,
    after: MasterKvRouter,
    get: StartingGet,
    target: Allocation,
    mode: GetAllocationMode,
    step: GetStartStep,
)
    requires
        crate::master_kv_router::get::get_started(before, after, get, target, mode, step),
        mode == GetAllocationMode::DurableReplica ==> before.kv_routes@.contains_key(get.key@),
        mode != GetAllocationMode::ReuseReplica,
    ensures
        replicas_elsewhere_kept(before.kv_routes@, after.kv_routes@, get.tombs@),
        after.inflight_gets@.contains_key(get.get_id),
        ({
            let noted = after.inflight_gets@[get.get_id];
            &&& noted.key@ == get.key@
            &&& noted.put_id == get.put_id
            &&& noted.route_id == get.route_id
            &&& noted.req_node_id@ == get.req_node_id@
            &&& noted.src_node_id@ == get.src.node_id@
            &&& noted.allocation == target
            &&& noted.len == get.src.allocation.size
            &&& noted.allocation_mode == mode
        }),
        forall|other: u64|
            other != get.get_id ==> (#[trigger] after.inflight_gets@.contains_key(other)
                <==> before.inflight_gets@.contains_key(other)) && (
            before.inflight_gets@.contains_key(other) ==> after.inflight_gets@[other]
                == before.inflight_gets@[other]),
        step matches GetStartStep::Done(outcome) && outcome.reply matches Ok(resp) && {
            &&& outcome.get_id == get.get_id
            &&& resp.get_id == get.get_id
            &&& resp.put_id == get.put_id
            &&& resp.node_id@ == get.src.node_id@
            &&& resp.src_addr == get.src.allocation.base + get.src.allocation.addr
            &&& resp.src_base_addr == get.src.allocation.base
            &&& resp.target_addr == target.base + target.addr
            &&& resp.target_base_addr == target.base
            &&& resp.len == get.src.allocation.size
        },
{
    let taken = crate::master_kv_router::get::with_slot_taken(before.kv_routes@, get.key@, mode);
    law_cleanup_leaves_the_other_replicas(taken, get.key@, get.put_id, get.tombs@);
    assert forall|key: Seq<char>, i: int|
        before.kv_routes@.contains_key(key) && 0 <= i < before.kv_routes@[key].replicas.len() && (
        forall|t: int|
            0 <= t < get.tombs@.len() ==> (#[trigger] get.tombs@[t])@
                != before.kv_routes@[key].replicas[i].node_id@) implies still_has(
        before.kv_routes@,
        after.kv_routes@,
        key,
        #[trigger] before.kv_routes@[key].replicas[i],
    ) by {
        assert(taken.contains_key(key));
        assert(taken[key].replicas[i] == before.kv_routes@[key].replicas[i]);
    }
}

/// A get that is given up for want of memory keeps every replica that is not on a node that was found
/// to be gone.
pub proof fn law_abandoned_get_keeps_replicas(
    before: MasterKvRouter,
    after: MasterKvRouter,
    key: Seq<char>,
    put_id: PutIDForAKey,
    tombs: Seq<NodeID>,
    error: KvErrorOf<Seq<char>>,
    step: GetStartStep,
)
    requires
        crate::master_kv_router::get::get_abandoned(
            before,
            after,
            key,
            put_id,
            tombs,
            error,
            step,
        ),
    ensures
        replicas_elsewhere_kept(before.kv_routes@, after.kv_routes@, tombs),
        only_key_loses(before.kv_routes@, after.kv_routes@, key),
        after.inflight_gets@ == before.inflight_gets@,
        step matches GetStartStep::Done(outcome) && outcome.reply matches Err(e) && e@ == error,
{
    law_cleanup_leaves_the_other_replicas(before.kv_routes@, key, put_id, tombs);
}

/// A get that is completed is over and hands its block to the requester under a holder id of its own.
/// A get that is unknown changes nothing and times out.
pub proof fn law_completed_get_hands_over_its_block(
    before: MasterKvRouter,
    after: MasterKvRouter,
    manager: MasterSegManager,
    get_id: u64,
    outcome: GetDoneOutcome,
)
    requires
        crate::master_kv_router::get::get_completed(before, after, manager, get_id, outcome),
    ensures
        !after.inflight_gets@.contains_key(get_id),
        forall|other: u64|
            other != get_id ==> (#[trigger] after.inflight_gets@.contains_key(other)
                <==> before.inflight_gets@.contains_key(other)) && (
            before.inflight_gets@.contains_key(other) ==> after.inflight_gets@[other]
                == before.inflight_gets@[other]),
        outcome.reply is Ok <==> before.inflight_gets@.contains_key(get_id),
        !before.inflight_gets@.contains_key(get_id) ==> after.kv_routes@ == before.kv_routes@ && (
        outcome.reply matches Err(e) && e@ is Api && e@->Api_0 is GetTimeout),
        before.inflight_gets@.contains_key(get_id) ==> {
            let info = before.inflight_gets@[get_id];
            &&& outcome.reply->Ok_0.holder_id == before.next_holder_id
            &&& before.next_holder_id < u64::MAX ==> after.next_holder_id == before.next_holder_id
                + 1
            &&& outcome.holding matches Some(holding) && holding.key@ == info.key@
                && holding.holding_node_id@ == info.req_node_id@ && holding.len == info.len
                && holding.allocation == info.allocation
        },
{
}

/// The block of a completed get becomes a replica exactly if it was meant to be kept, the version is
/// still current and the node that it was read from is not gone. Then the requester has it, and the
/// replicas on other nodes stay; otherwise no replica comes or goes.
pub proof fn law_completed_get_adds_its_replica(
    before: MasterKvRouter,
    after: MasterKvRouter,
    manager: MasterSegManager,
    get_id: u64,
    outcome: GetDoneOutcome,
)
    requires
        crate::master_kv_router::get::get_completed(before, after, manager, get_id, outcome),
        before.inflight_gets@.contains_key(get_id),
    ensures
        ({
            let info = before.inflight_gets@[get_id];
            let key = info.key@;
            let kept = info.allocation_mode == GetAllocationMode::DurableReplica
                && before.kv_routes@.contains_key(key) && before.kv_routes@[key].put_id
                == info.put_id && crate::laws::segments::living(manager, info.src_node_id@);
            &&& forall|other: Seq<char>|
                other != key ==> (#[trigger] after.kv_routes@.contains_key(other)
                    <==> before.kv_routes@.contains_key(other)) && (
                before.kv_routes@.contains_key(other) ==> after.kv_routes@[other]
                    == before.kv_routes@[other])
            &&& kept ==> {
                &&& after.kv_routes@.contains_key(key)
                &&& after.kv_routes@[key].put_id == info.put_id
                &&& exists|i: int|
                    0 <= i < after.kv_routes@[key].replicas.len() && (
                    #[trigger] after.kv_routes@[key].replicas[i]).node_id@ == info.req_node_id@
                        && after.kv_routes@[key].replicas[i].allocation == info.allocation
                &&& forall|i: int|
                    0 <= i < before.kv_routes@[key].replicas.len() && (
                    #[trigger] before.kv_routes@[key].replicas[i]).node_id@ != info.req_node_id@
                        ==> after.kv_routes@[key].replicas.contains(
                        before.kv_routes@[key].replicas[i],
                    )
                &&& outcome.reply->Ok_0.allocation_mode == GetAllocationMode::DurableReplica
            }
            &&& !kept ==> {
                &&& after.kv_routes@.contains_key(key) <==> before.kv_routes@.contains_key(key)
                &&& before.kv_routes@.contains_key(key) ==> after.kv_routes@[key].replicas
                    == before.kv_routes@[key].replicas && after.kv_routes@[key].put_id
                    == before.kv_routes@[key].put_id
                &&& outcome.reply->Ok_0.allocation_mode != GetAllocationMode::DurableReplica
                &&& outcome.replaced is None
                &&& outcome.cache_update is None
            }
        }),
{
    let info = before.inflight_gets@[get_id];
    let key = info.key@;
    if crate::master_kv_router::get::promotes(before.kv_routes@, manager, info) {
        let had = before.kv_routes@[key].replicas;
        let has = after.kv_routes@[key].replicas;
        crate::master_kv_router::routes::lemma_replica_index(had, info.req_node_id@);
        match crate::master_kv_router::routes::replica_index(had, info.req_node_id@) {
            Some(at) => {
                assert(has[at].node_id@ == info.req_node_id@);
                assert forall|i: int|
                    0 <= i < had.len() && (#[trigger] had[i]).node_id@
                        != info.req_node_id@ implies has.contains(had[i]) by {
                    assert(has[i] == had[i]);
                }
            },
            None => {
                assert(has[had.len() as int].node_id@ == info.req_node_id@);
                assert forall|i: int|
                    0 <= i < had.len() && (#[trigger] had[i]).node_id@
                        != info.req_node_id@ implies has.contains(had[i]) by {
                    assert(has[i] == had[i]);
                }
            },
        }
    }
}

/// A get that is revoked, forgotten or expires is over; no replica comes or goes.
pub proof fn law_dropped_get_changes_no_replica(
    before: MasterKvRouter,
    after: MasterKvRouter,
    get_id: u64,
    dropped: Option<InflightGetInfo>,
)
    requires
        crate::master_kv_router::get::get_dropped(before, after, get_id, dropped),
    ensures
        !after.inflight_gets@.contains_key(get_id),
        dropped is Some <==> before.inflight_gets@.contains_key(get_id),
        dropped matches Some(info) ==> info == before.inflight_gets@[get_id],
        forall|other: u64|
            other != get_id ==> (#[trigger] after.inflight_gets@.contains_key(other)
                <==> before.inflight_gets@.contains_key(other)) && (
            before.inflight_gets@.contains_key(other) ==> after.inflight_gets@[other]
                == before.inflight_gets@[other]),
        forall|key: Seq<char>|
            (#[trigger] after.kv_routes@.contains_key(key) <==> before.kv_routes@.contains_key(key))
                && (before.kv_routes@.contains_key(key) ==> after.kv_routes@[key].replicas
                == before.kv_routes@[key].replicas && after.kv_routes@[key].put_id
                == before.kv_routes@[key].put_id),
{
}

/// Two gets of a version may keep their blocks at a time: a get into new memory is meant to be kept
/// exactly if the version that it was started for is current and fewer than two of its slots are in
/// use, and it takes one of them.
pub proof fn law_two_gets_keep_their_blocks(
    before: MasterKvRouter,
    after: MasterKvRouter,
    get: StartingGet,
    target: Allocation,
    step: GetStartStep,
)
    requires
        crate::master_kv_router::get::get_started(
            before,
            after,
            get,
            target,
            crate::master_kv_router::get::mode_of_new_block(
                before.kv_routes@,
                get.key@,
                get.route_id,
            ),
            step,
        ),
    ensures
        ({
            let routes = before.kv_routes@;
            let free = routes.contains_key(get.key@) && routes[get.key@].route_id == get.route_id
                && routes[get.key@].slots < 2;
            let noted = after.inflight_gets@[get.get_id];
            &&& noted.allocation_mode == GetAllocationMode::DurableReplica <==> free
            &&& noted.allocation_mode == GetAllocationMode::Temporary <==> !free
            &&& after.kv_routes@.contains_key(get.key@) ==> routes.contains_key(get.key@)
                && after.kv_routes@[get.key@].slots == routes[get.key@].slots + if free {
                1int
            } else {
                0
            }
        }),
{
}

/// A get that was meant to be kept and does not become a replica gives its slot back, if the version
/// that it took it from is still there; any other get gives back nothing.
pub proof fn law_unused_slot_is_given_back(
    routes: Map<Seq<char>, RouteModel>,
    info: InflightGetInfo,
    key: Seq<char>,
)
    requires
        routes.contains_key(key),
        routes[key].slots > 0,
    ensures
        crate::master_kv_router::get::with_slot_returned(routes, info).contains_key(key),
        crate::master_kv_router::get::with_slot_returned(routes, info)[key].slots
            == routes[key].slots - if info.allocation_mode == GetAllocationMode::DurableReplica
            && info.key@ == key && info.route_id == routes[key].route_id {
            1int
        } else {
            0
        },
{
}

} // verus!
