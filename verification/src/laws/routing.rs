//! The router: deletes, counts, reservations, versions and leased puts.

use crate::cluster_manager::ClusterMember;
use crate::config::MasterTestSwitches;
use crate::master_kv_router::cache_capacity::{CacheResize, CapacityStep};
use crate::master_kv_router::msg_pack::PutDoneReq;
use crate::master_kv_router::put::{InflightPutAllocation, PutDoneStep};
use crate::master_kv_router::routes::RouteModel;
use crate::master_kv_router::MasterKvRouter;
use crate::master_lease_manager::lease::LeaseState;
use crate::master_lease_manager::master_lease_manager::MasterLeaseManager;
use crate::master_seg_manager::MasterSegManager;
use vstd::prelude::*;

verus! {

/// A key that is deleted has no route any more, and what it had is handed out; the other keys keep
/// theirs. Where the index is in use it holds every other key as before, and that key no more.
pub proof fn law_deleted_key_is_gone(
    before: MasterKvRouter,
    after: MasterKvRouter,
    key: Seq<char>,
    route: Option<RouteModel>,
)
    requires
        before.wf(),
        crate::master_kv_router::delete::deleted(before, after, key, route),
    ensures
        !after.kv_routes@.contains_key(key),
        route is Some <==> before.kv_routes@.contains_key(key),
        route matches Some(route) ==> route == before.kv_routes@[key],
        forall|other: Seq<char>|
            other != key ==> (#[trigger] after.kv_routes@.contains_key(other)
                <==> before.kv_routes@.contains_key(other)) && (
            before.kv_routes@.contains_key(other) ==> after.kv_routes@[other]
                == before.kv_routes@[other]),
        !before.test_spec_config.disable_prefix_index ==> forall|other: Seq<char>| #[trigger]
            after.prefix_index@.count(other) == if other == key {
                0
            } else {
                before.prefix_index@.count(other)
            },
        after.inflight_puts@ == before.inflight_puts@,
        after.inflight_gets@ == before.inflight_gets@,
{
    broadcast use vstd::multiset::group_multiset_axioms;

}

/// The index holds a key once exactly if the key has a route, after any change of one key's route.
pub proof fn law_index_follows_the_routes(
    before: MasterKvRouter,
    routes: Map<Seq<char>, RouteModel>,
    key: Seq<char>,
    other: Seq<char>,
)
    requires
        before.wf(),
        !before.test_spec_config.disable_prefix_index,
        forall|k: Seq<char>|
            k != key ==> (#[trigger] routes.contains_key(k) <==> before.kv_routes@.contains_key(k)),
    ensures
        crate::master_kv_router::reindexed(before, routes, key).count(other) == if routes.contains_key(
            other,
        ) {
            1nat
        } else {
            0
        },
{
    broadcast use vstd::multiset::group_multiset_axioms;

    assert(before.prefix_index@.count(other) == if before.kv_routes@.contains_key(other) {
        1nat
    } else {
        0
    });
    assert(before.prefix_index@.count(key) == if before.kv_routes@.contains_key(key) {
        1nat
    } else {
        0
    });
}

/// The text begins with the prefix.
pub open spec fn begins_with(text: Seq<char>, prefix: Seq<char>) -> bool {
    prefix.len() <= text.len() && forall|i: int|
        0 <= i < prefix.len() ==> #[trigger] text[i] == prefix[i]
}

/// A count of keys by prefix goes up by one with each key that comes and begins with the prefix, and
/// with no other; without keys it is zero.
pub proof fn law_each_key_is_counted_once(
    routes: Map<Seq<char>, RouteModel>,
    key: Seq<char>,
    route: RouteModel,
    prefix: Seq<char>,
)
    requires
        routes.dom().finite(),
        !routes.contains_key(key),
    ensures
        crate::master_kv_router::routed_keys_with_prefix(routes.insert(key, route), prefix)
            == crate::master_kv_router::routed_keys_with_prefix(routes, prefix) + if begins_with(
            key,
            prefix,
        ) {
            1nat
        } else {
            0
        },
        crate::master_kv_router::routed_keys_with_prefix(
            Map::<Seq<char>, RouteModel>::empty(),
            prefix,
        ) == 0,
{
    let begins = |key: Seq<char>| prefix.is_prefix_of(key);
    let counted = routes.dom().filter(begins);
    let more = routes.insert(key, route).dom().filter(begins);
    assert(begins_with(key, prefix) <==> prefix.is_prefix_of(key)) by {
        if begins_with(key, prefix) {
            assert(prefix =~= key.subrange(0, prefix.len() as int));
        }
        if prefix.is_prefix_of(key) {
            assert forall|i: int| 0 <= i < prefix.len() implies #[trigger] key[i] == prefix[i] by {
                assert(key.subrange(0, prefix.len() as int)[i] == key[i]);
            }
        }
    }
    if begins_with(key, prefix) {
        assert(more =~= counted.insert(key));
    } else {
        assert(more =~= counted);
    }
    assert(Map::<Seq<char>, RouteModel>::empty().dom().filter(begins) =~= Set::empty());
}

/// The weight of a block in a replica cache is its size, as long as a weight can be that large; a
/// block with bytes has a weight, and a larger block never weighs less.
pub proof fn law_weights_are_sizes(small: u64, large: u64)
    requires
        small <= large,
    ensures
        crate::master_kv_router::cache_weight(small) <= crate::master_kv_router::cache_weight(large),
        small > 0 ==> crate::master_kv_router::cache_weight(small) > 0,
        small < 0x1_0000_0000 ==> crate::master_kv_router::cache_weight(small) == small,
        small >= 0x1_0000_0000 ==> crate::master_kv_router::cache_weight(small) == 0xffff_ffff,
{
}

/// The bytes set aside on a node.
pub open spec fn set_aside(reserved: Map<Seq<char>, u64>, node_id: Seq<char>) -> int {
    if reserved.contains_key(node_id) {
        reserved[node_id] as int
    } else {
        0
    }
}

/// Setting bytes aside on a node that has memory takes them from what its cache may use, byte for
/// byte, and from no other node; giving them back returns them. Where the caches are switched off, or
/// the node has no memory, nothing is set aside.
pub proof fn law_reserved_bytes_are_taken_from_the_cache(
    switches: MasterTestSwitches,
    manager: MasterSegManager,
    before: Map<Seq<char>, u64>,
    after: Map<Seq<char>, u64>,
    node_id: Seq<char>,
    delta: int,
    base_capacity: u64,
    step: CapacityStep,
)
    requires
        crate::master_kv_router::capacity_adjusted(
            switches,
            manager,
            before,
            after,
            node_id,
            delta,
            base_capacity,
            step,
        ),
        0 <= set_aside(before, node_id) + delta <= u64::MAX,
    ensures
        ({
            let adjusts = !switches.disable_master_replica_cache && manager.nodes().contains_key(
                node_id,
            ) && manager.nodes()[node_id].total_size > 0;
            &&& adjusts ==> set_aside(after, node_id) == set_aside(before, node_id) + delta
            &&& !adjusts ==> set_aside(after, node_id) == set_aside(before, node_id)
            &&& adjusts <==> step is SetMaxCapacity
            &&& step matches CapacityStep::SetMaxCapacity { new_capacity } ==> if set_aside(
                after,
                node_id,
            ) <= base_capacity {
                new_capacity + set_aside(after, node_id) == base_capacity
            } else {
                new_capacity == 0
            }
            &&& step matches CapacityStep::Done(result) ==> (result is Ok
                <==> switches.disable_master_replica_cache)
        }),
        forall|other: Seq<char>|
            other != node_id ==> #[trigger] set_aside(after, other) == set_aside(before, other),
{
    assert forall|other: Seq<char>| other != node_id implies #[trigger] set_aside(after, other)
        == set_aside(before, other) by {}
}

/// A cache that was not resized is an error, and one that was is none.
pub proof fn law_resize_that_fails_is_an_error(node_id: Seq<char>, resize: CacheResize)
    ensures
        crate::master_kv_router::cache_capacity::resize_error(node_id, resize) is None <==> resize
            is Resized,
{
}

/// The version that a put of a key gets is the one noted for the key or zero; the next number is noted
/// for the key, and the notes of other keys stay as they are.
pub proof fn law_versions_count_up(
    before: Map<Seq<char>, u32>,
    after: Map<Seq<char>, u32>,
    key: Seq<char>,
    version: u32,
)
    requires
        crate::master_kv_router::version_ids::version_given(before, after, key, version),
    ensures
        version != 0 ==> before.contains_key(key) && before[key] == version,
        after.contains_key(key),
        version < u32::MAX ==> after[key] == version + 1,
        version == u32::MAX ==> after[key] == 0,
        forall|other: Seq<char>|
            other != key ==> (#[trigger] after.contains_key(other) <==> before.contains_key(other))
                && (before.contains_key(other) ==> after[other] == before[other]),
{
}

/// The numbers of gets and holders count up one by one.
pub proof fn law_numbers_count_up(number: u64)
    ensures
        number < u64::MAX ==> crate::master_kv_router::next_number(number) == number + 1,
        number == u64::MAX ==> crate::master_kv_router::next_number(number) == 0,
{
}

/// A member is asked for its segments exactly if it publishes itself as a client that relays and
/// neither as an external client nor as a side-transfer worker; nothing else that it publishes
/// matters.
pub proof fn law_owners_are_asked_for_segments(member: ClusterMember)
    ensures
        MasterKvRouter::ready_for_segment_registration(member) <==> {
            &&& member.metadata.value("client"@) == Some("true"@)
            &&& member.metadata.value("p2p_relay"@) == Some("true"@)
            &&& member.metadata.value("external_client"@) != Some("true"@)
            &&& member.metadata.value("side_transfer_worker"@) != Some("true"@)
        },
{
}

/// The size that a key is said to have is that of a living replica, and a key is said to be missing
/// only if no replica of it lives.
pub proof fn law_living_replicas_are_told_of(route: RouteModel, marks: Seq<bool>, size: u64)
    ensures
        route.has_living_replica(marks) <==> exists|i: int|
            0 <= i < route.replicas.len() && crate::laws::gets::lives(
                #[trigger] route.replicas[i],
                marks,
            ),
        route.has_living_replica_of_size(marks, size) <==> exists|i: int|
            0 <= i < route.replicas.len() && crate::laws::gets::lives(
                #[trigger] route.replicas[i],
                marks,
            ) && route.replicas[i].allocation.size == size,
{
    if route.has_living_replica(marks) {
        let i = choose|i: int|
            0 <= i < route.replicas.len() && !(#[trigger] route.replicas[i]).tomb_tag.tombed(marks);
        assert(crate::laws::gets::lives(route.replicas[i], marks));
    }
    if route.has_living_replica_of_size(marks, size) {
        let i = choose|i: int|
            0 <= i < route.replicas.len() && !(#[trigger] route.replicas[i]).tomb_tag.tombed(marks)
                && route.replicas[i].allocation.size == size;
        assert(crate::laws::gets::lives(route.replicas[i], marks));
    }
}

/// Completing a put with a lease binds the version to that lease, and attaches the key to it in that
/// version. A lease that is unknown or not active refuses the put. As long as the node's cache has to
/// be resized first, what is to be committed is the put's own block. Where the put is refused no
/// route changes and its blocks are given back.
pub proof fn law_leased_put_is_bound_to_its_lease(
    before: MasterKvRouter,
    after: MasterKvRouter,
    manager: MasterSegManager,
    leases_before: MasterLeaseManager,
    leases_after: MasterLeaseManager,
    req: PutDoneReq,
    base_capacity: u64,
    step: PutDoneStep,
    at: int,
)
    requires
        before.wf(),
        req.lease_id is Some,
        crate::master_kv_router::put::put_completed(
            before,
            after,
            manager,
            leases_before,
            leases_after,
            req,
            base_capacity,
            step,
        ),
        0 <= at < before.inflight_puts@.len(),
        before.inflight_puts@[at].key@ == req.key@,
        before.inflight_puts@[at].put_id == req.put_id,
        before.inflight_puts@[at].src_target_allocation is Some,
    ensures
        !crate::laws::puts::is_in_progress(after.inflight_puts@, req.key@, req.put_id),
        crate::laws::puts::other_puts_stay(
            before.inflight_puts@,
            after.inflight_puts@,
            req.key@,
            req.put_id,
        ),
        ({
            let put = before.inflight_puts@[at];
            let lease_id = req.lease_id->0;
            let (src, target) = match put.src_target_allocation->0 {
                InflightPutAllocation::Local(block) => (Seq::empty(), block),
                InflightPutAllocation::Remote { src, target } => (seq![src], target),
            };
            let accepted = crate::laws::segments::living(manager, put.node_id@)
                && leases_before.leases().contains_key(lease_id)
                && leases_before.leases()[lease_id].state == LeaseState::Active;
            &&& accepted ==> {
                &&& leases_after.leases().contains_key(lease_id)
                &&& leases_after.leases()[lease_id].keys.contains_key(req.key@)
                &&& leases_after.leases()[lease_id].keys[req.key@] == req.put_id
                &&& leases_after.leases()[lease_id].expiration_time
                    == leases_before.leases()[lease_id].expiration_time
            }
            &&& !accepted ==> leases_after.leases() == leases_before.leases() && (
            step matches PutDoneStep::Done(outcome) && outcome.reply is Err)
            &&& step matches PutDoneStep::Done(outcome) ==> if outcome.reply is Ok {
                let route = after.kv_routes@[req.key@];
                &&& after.kv_routes@.contains_key(req.key@)
                &&& route.put_id == req.put_id
                &&& route.lease_id == Some(lease_id)
                &&& route.replicas.len() == 1
                &&& route.replicas[0].node_id@ == put.node_id@
                &&& route.replicas[0].allocation.shares_block(target)
                &&& route.replicas[0].allocation.lease_reserved
                &&& outcome.released@ == src
            } else {
                &&& after.kv_routes@ == before.kv_routes@
                &&& outcome.released@ == src.push(target)
            }
            &&& step matches PutDoneStep::SetMaxCapacity { pending, .. } ==> {
                &&& accepted
                &&& after.kv_routes@ == before.kv_routes@
                &&& pending.key@ == req.key@
                &&& pending.put_id == req.put_id
                &&& pending.lease_id == lease_id
                &&& pending.node_id@ == put.node_id@
                &&& pending.target == target
                &&& pending.released@ == src
            }
        }),
{
    crate::laws::puts::lemma_taken_out(before.inflight_puts@, req.key@, req.put_id);
    crate::laws::puts::lemma_found_at(before.inflight_puts@, at);
    let put = before.inflight_puts@[at];
    let (target, rest) = crate::master_kv_router::put::target_and_rest(
        put.src_target_allocation->0,
    );
    assert(rest =~= match put.src_target_allocation->0 {
        InflightPutAllocation::Local(_) => Seq::empty(),
        InflightPutAllocation::Remote { src, .. } => seq![src],
    });
}

} // verus!
