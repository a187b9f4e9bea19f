//! Leases: how long they live, and which keys go with them.

use crate::error::{LeaseMgrError, LeaseMgrErrorOf};
use crate::master_kv_router::put::PutIDForAKey;
use crate::master_kv_router::routes::RouteModel;
use crate::master_lease_manager::expire_heap::ExpireHeap;
use crate::master_lease_manager::lease::{LeaseModel, LeaseState};
use crate::master_lease_manager::master_lease_manager::MasterLeaseManager;
use vstd::prelude::*;

verus! {

/// The lease `id` is as told, and no other lease is touched.
pub open spec fn only_differs_at(
    before: MasterLeaseManager,
    after: MasterLeaseManager,
    id: u64,
) -> bool {
    forall|other: u64|
        other != id ==> (#[trigger] after.leases().contains_key(other)
            <==> before.leases().contains_key(other)) && (before.leases().contains_key(other)
            ==> after.leases()[other] == before.leases()[other])
}

/// A lease that is kept alive at `now` expires as many seconds later as the request says, or as its
/// own TTL says where the request says nothing, no sooner and no later. It keeps its keys, and the
/// new time is recorded.
pub proof fn law_keepalive_sets_the_expiration(
    before: MasterLeaseManager,
    after: MasterLeaseManager,
    id: u64,
    custom_ttl: Option<u64>,
    now: u64,
)
    requires
        before.leases().contains_key(id),
        before.leases()[id].id == id,
        before.leases()[id].state == LeaseState::Active,
        now + (if custom_ttl is Some {
            custom_ttl->0
        } else {
            before.leases()[id].ttl
        }) * 1000 <= u64::MAX,
        before.stored(after, before.leases()[id].refreshed(custom_ttl, now).0),
    ensures
        after.leases().contains_key(id),
        custom_ttl matches Some(ttl) ==> after.leases()[id].expiration_time == now + ttl * 1000,
        custom_ttl is None ==> after.leases()[id].expiration_time == now + before.leases()[id].ttl
            * 1000,
        after.leases()[id].id == id,
        after.leases()[id].ttl == before.leases()[id].ttl,
        after.leases()[id].state == LeaseState::Active,
        after.leases()[id].keys == before.leases()[id].keys,
        only_differs_at(before, after, id),
        after.records().count((after.leases()[id].expiration_time, id)) == before.records().count(
            (after.leases()[id].expiration_time, id),
        ) + 1,
{
    broadcast use vstd::multiset::group_multiset_axioms;

}

/// Keeping a lease alive longer never makes it expire sooner: of two keepalives at one time the one
/// with more seconds sets the later time, a thousand milliseconds for each second.
pub proof fn law_longer_keepalive_lasts_longer(
    lease: LeaseModel,
    now: u64,
    shorter: u64,
    longer: u64,
)
    requires
        lease.state == LeaseState::Active,
        shorter <= longer,
        now + longer * 1000 <= u64::MAX,
    ensures
        lease.refreshed(Some(longer), now).0.expiration_time - lease.refreshed(
            Some(shorter),
            now,
        ).0.expiration_time == (longer - shorter) * 1000,
{
}

/// A new lease is active, has no keys, and expires `ttl` seconds after it is granted, or never where
/// that does not fit.
pub proof fn law_granted_lease_lasts_its_ttl(
    before: MasterLeaseManager,
    after: MasterLeaseManager,
    id: u64,
    ttl: u64,
    now: u64,
)
    requires
        before.stored(after, LeaseModel::granted(id, ttl, now)),
    ensures
        after.leases().contains_key(id),
        after.leases()[id].id == id,
        after.leases()[id].ttl == ttl,
        after.leases()[id].state == LeaseState::Active,
        after.leases()[id].keys =~= Map::<Seq<char>, PutIDForAKey>::empty(),
        now + ttl * 1000 <= u64::MAX ==> after.leases()[id].expiration_time == now + ttl * 1000,
        now + ttl * 1000 > u64::MAX ==> after.leases()[id].expiration_time == u64::MAX,
        only_differs_at(before, after, id),
        after.records().count((after.leases()[id].expiration_time, id)) == before.records().count(
            (after.leases()[id].expiration_time, id),
        ) + 1,
{
    broadcast use vstd::multiset::group_multiset_axioms;

}

/// The cleanup task is woken by a lease exactly if that lease expires before all that are recorded,
/// or if it was woken already.
pub proof fn law_earliest_expiry_wakes_the_cleanup(
    before: MasterLeaseManager,
    after: MasterLeaseManager,
    lease: LeaseModel,
)
    requires
        before.stored(after, lease),
    ensures
        after.notified() <==> before.notified() || forall|time: u64, id: u64|
            before.records().count((time, id)) > 0 ==> lease.expiration_time < time,
{
    broadcast use vstd::multiset::group_multiset_axioms;

    if forall|time: u64, id: u64|
        before.records().count((time, id)) > 0 ==> lease.expiration_time < time {
        assert forall|record: (u64, u64)| #[trigger]
            before.records().contains(record) implies lease.expiration_time < record.0 by {
            assert(before.records().count((record.0, record.1)) > 0);
        }
    } else {
        let (time, id) = choose|time: u64, id: u64|
            before.records().count((time, id)) > 0 && !(lease.expiration_time < time);
        assert(before.records().contains((time, id)));
    }
}

/// A key that is attached to an active lease is among its keys with its version, the other keys stay
/// as they are, and the lease lives as long as before. A lease that is not active takes no key.
pub proof fn law_attached_key_is_kept(lease: LeaseModel, key: Seq<char>, put_id: PutIDForAKey)
    ensures
        ({
            let (after, result) = lease.attached(key, put_id);
            &&& result is Ok <==> lease.state == LeaseState::Active
            &&& result is Ok ==> {
                &&& after.keys.contains_key(key) && after.keys[key] == put_id
                &&& forall|other: Seq<char>|
                    other != key ==> (#[trigger] after.keys.contains_key(other)
                        <==> lease.keys.contains_key(other)) && (lease.keys.contains_key(other)
                        ==> after.keys[other] == lease.keys[other])
            }
            &&& result is Err ==> after == lease
            &&& after.id == lease.id && after.ttl == lease.ttl && after.state == lease.state
                && after.expiration_time == lease.expiration_time
        }),
{
}

/// With an expired lease go just the keys that were attached to it in the version that is current, or
/// that have no version any more.
pub proof fn law_lease_takes_its_own_versions(
    keys: Map<Seq<char>, PutIDForAKey>,
    routes: Map<Seq<char>, RouteModel>,
    key: Seq<char>,
)
    ensures
        crate::master_lease_manager::master_lease_manager::keys_to_delete(
            keys,
            routes,
        ).contains(key) <==> keys.contains_key(key) && (!routes.contains_key(key)
            || routes[key].put_id == keys[key]),
{
}

/// A pass of the cleanup at `now` deletes a key exactly if one of the leases that have expired by then
/// has it and no later version was put; a lease that lives on takes nothing along.
pub proof fn law_only_expired_leases_take_keys_along(
    manager: MasterLeaseManager,
    routes: Map<Seq<char>, RouteModel>,
    key: Seq<char>,
    now: u64,
)
    ensures
        manager.takes_along(routes, key, now) ==> exists|id: u64|
            #[trigger] manager.leases().contains_key(id) && manager.leases()[id].expiration_time
                <= now && manager.leases()[id].keys.contains_key(key) && (routes.contains_key(key)
                ==> routes[key].put_id == manager.leases()[id].keys[key]),
        forall|id: u64|
            #[trigger] manager.leases().contains_key(id) && manager.leases()[id].expiration_time
                <= now && manager.leases()[id].keys.contains_key(key) && (routes.contains_key(key)
                ==> routes[key].put_id == manager.leases()[id].keys[key]) ==> manager.takes_along(
                routes,
                key,
                now,
            ),
{
}

/// A request to keep a lease alive is refused for its TTL exactly where it names one of less than
/// ninety seconds; zero names none.
pub proof fn law_short_ttls_are_refused(custom_ttl: u64)
    ensures
        crate::master_lease_manager::master_lease_manager::ttl_allowed(
            crate::master_lease_manager::master_lease_manager::requested_custom_ttl(custom_ttl),
        ) <==> custom_ttl == 0 || custom_ttl >= 90,
        crate::master_lease_manager::master_lease_manager::requested_custom_ttl(custom_ttl)
            == if custom_ttl == 0 {
            None
        } else {
            Some(custom_ttl)
        },
{
}

/// The error for a TTL says which TTL it was.
pub proof fn law_refused_ttls_are_named(ttl: u64)
    ensures
        crate::master_lease_manager::master_lease_manager::invalid_ttl(
            ttl,
        ) matches LeaseMgrErrorOf::InvalidTTL { ttl: named, .. } && named == ttl,
{
}

/// Each lease gets the id after the one before; after the largest they start over.
pub proof fn law_lease_ids_count_up(id: u64)
    ensures
        id < u64::MAX ==> crate::master_lease_manager::master_lease_manager::id_after(id) == id + 1,
        id == u64::MAX ==> crate::master_lease_manager::master_lease_manager::id_after(id) == 0,
{
}

/// What is refused changes no lease, no record of when one expires, and no id.
pub proof fn law_refused_requests_change_nothing(
    before: MasterLeaseManager,
    after: MasterLeaseManager,
)
    requires
        before.same(after),
    ensures
        after.leases() == before.leases(),
        after.records() == before.records(),
        after.next_id() == before.next_id(),
        after.notified() == before.notified(),
{
}

/// The earliest record expires no later than any other.
pub proof fn law_the_earliest_record_comes_first(
    heap: ExpireHeap,
    record: (u64, u64),
    other: (u64, u64),
)
    requires
        heap.earliest(record),
        heap@.contains(other),
    ensures
        heap@.contains(record),
        record.0 <= other.0,
{
    assert(crate::master_lease_manager::expire_heap::no_later(record, other));
}

/// A record counts only for the time at which its lease really expires: one that was made before the
/// lease was kept alive does not.
pub proof fn law_only_current_records_count(manager: MasterLeaseManager, record: (u64, u64))
    ensures
        manager.due(record) <==> manager.leases().contains_key(record.1)
            && manager.leases()[record.1].expiration_time == record.0,
{
}

/// A key expires with a lease exactly where the lease has ended, had the key, and no later version was
/// put.
pub proof fn law_keys_expire_with_their_lease(
    before: MasterLeaseManager,
    after: MasterLeaseManager,
    routes: Map<Seq<char>, RouteModel>,
    id: u64,
    key: Seq<char>,
)
    ensures
        before.expires_with(after, routes, id, key) <==> {
            &&& before.leases().contains_key(id)
            &&& !after.leases().contains_key(id)
            &&& before.leases()[id].keys.contains_key(key)
            &&& routes.contains_key(key) ==> routes[key].put_id == before.leases()[id].keys[key]
        },
{
}

/// A new lease gets an id that no lease has: the one that is next, if it is free.
pub proof fn law_new_leases_get_a_free_id(manager: MasterLeaseManager, id: u64)
    requires
        manager.next_free(id),
    ensures
        !manager.leases().contains_key(id),
        !manager.leases().contains_key(manager.next_id()) ==> id == manager.next_id(),
        manager.next_id() <= id ==> forall|other: u64|
            manager.next_id() <= other < id ==> #[trigger] manager.leases().contains_key(other),
{
    assert forall|other: u64|
        manager.next_id() <= id && manager.next_id() <= other
            < id implies #[trigger] manager.leases().contains_key(other) by {
        assert(crate::master_lease_manager::master_lease_manager::id_distance(
            manager.next_id(),
            other,
        ) < crate::master_lease_manager::master_lease_manager::id_distance(manager.next_id(), id));
    }
}

/// The cleanup looks at every lease when it expires.
pub proof fn law_no_lease_is_forgotten(manager: MasterLeaseManager, id: u64)
    requires
        manager.covers(Seq::empty()),
        manager.leases().contains_key(id),
    ensures
        manager.records().contains((manager.leases()[id].expiration_time, id)),
        manager.leases()[id].state == LeaseState::Active,
        manager.leases()[id].id == id,
{
}

/// A lease is granted exactly for a TTL of at least ninety seconds. It is a new one, without keys, that
/// expires after its TTL; the other leases stay as they are. Nothing changes where it is refused.
pub proof fn law_granted_leases_are_new(
    before: MasterLeaseManager,
    after: MasterLeaseManager,
    ttl: u64,
    now: u64,
    result: Result<u64, LeaseMgrError>,
)
    requires
        crate::master_lease_manager::master_lease_manager::lease_granted(
            before,
            after,
            ttl,
            now,
            result,
        ),
    ensures
        result is Ok <==> ttl >= 90,
        result matches Ok(id) ==> {
            &&& !before.leases().contains_key(id)
            &&& after.leases().contains_key(id)
            &&& after.leases()[id].state == LeaseState::Active
            &&& after.leases()[id].ttl == ttl
            &&& after.leases()[id].keys == Map::<Seq<char>, PutIDForAKey>::empty()
            &&& now + ttl * 1000 <= u64::MAX ==> after.leases()[id].expiration_time == now + ttl
                * 1000
            &&& after.records().contains((after.leases()[id].expiration_time, id))
            &&& forall|other: u64|
                other != id ==> (#[trigger] after.leases().contains_key(other)
                    <==> before.leases().contains_key(other)) && (before.leases().contains_key(
                    other,
                ) ==> after.leases()[other] == before.leases()[other])
        },
        result is Err ==> after.leases() == before.leases() && after.next_id() == before.next_id(),
{
    broadcast use vstd::multiset::group_multiset_axioms;

}

/// A lease is kept alive exactly if it is active and the TTL that is asked for, if one is, has ninety
/// seconds. It then expires after that TTL, or else its own, from now on; its keys stay, and so do the
/// other leases. Nothing changes where it is refused.
pub proof fn law_kept_leases_last_on(
    before: MasterLeaseManager,
    after: MasterLeaseManager,
    lease_id: u64,
    custom_ttl: Option<u64>,
    now: u64,
    result: Result<(), LeaseMgrError>,
)
    requires
        before.wf(),
        before.leases().contains_key(lease_id),
        crate::master_lease_manager::master_lease_manager::kept_alive(
            before,
            after,
            lease_id,
            custom_ttl,
            now,
            result,
        ),
    ensures
        ({
            let lease = before.leases()[lease_id];
            let ttl = if custom_ttl is Some {
                custom_ttl->0
            } else {
                lease.ttl
            };
            &&& result is Ok <==> lease.state == LeaseState::Active && (custom_ttl is None
                || custom_ttl->0 >= 90)
            &&& result is Ok ==> {
                &&& after.leases().contains_key(lease.id)
                &&& now + ttl * 1000 <= u64::MAX ==> after.leases()[lease.id].expiration_time
                    == now + ttl * 1000
                &&& after.leases()[lease.id].keys == lease.keys
                &&& after.records().contains((after.leases()[lease.id].expiration_time, lease.id))
                &&& forall|other: u64|
                    other != lease.id ==> (#[trigger] after.leases().contains_key(other)
                        <==> before.leases().contains_key(other)) && (
                    before.leases().contains_key(other) ==> after.leases()[other]
                        == before.leases()[other])
            }
            &&& result is Err ==> after.leases() == before.leases()
        }),
{
    broadcast use vstd::multiset::group_multiset_axioms;

}

} // verus!
