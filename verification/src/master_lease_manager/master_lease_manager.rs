//! The master's leases and their cleanup.

use super::expire_heap::{ExpireHeap, ExpireRecord};
use super::lease::{Lease, LeaseID, LeaseKey, LeaseModel, LeaseSecTTl, LeaseState};
use super::msg_pack::{
    AllocateClientLeaseReq, AllocateClientLeaseResp, ClientLeaseKeepaliveReq,
    ClientLeaseKeepaliveResp,
};
use crate::error::{LeaseMgrError, LeaseMgrErrorOf};
use crate::master_kv_router::put::PutIDForAKey;
use crate::master_kv_router::routes::{KvRoutes, RouteModel};
use crate::p2p::OK;
use crate::text;
use dashmap::DashMap;
use vstd::multiset::Multiset;
use vstd::prelude::*;

verus! {

/// The leases that a map holds, by lease id.
pub uninterp spec fn leases_of(map: DashMap<u64, Lease>) -> Map<u64, LeaseModel>;

/// `DashMap::new` makes a map that holds nothing.
#[verifier::external_body]
fn leases_new() -> (map: DashMap<u64, Lease>)
    ensures
        (leases_of(map) == Map::<u64, LeaseModel>::empty()),
{
    DashMap::new()
}

/// `DashMap::insert` stores the value under the key, in place of an earlier one.
#[verifier::external_body]
fn leases_insert(map: &mut DashMap<u64, Lease>, lease_id: u64, lease: Lease)
    ensures
        leases_of(*final(map)) == leases_of(*old(map)).insert(lease_id, lease@),
{
    map.insert(lease_id, lease);
}

/// `DashMap::contains_key` tells whether a value is stored under the key.
#[verifier::external_body]
fn leases_contain(map: &DashMap<u64, Lease>, lease_id: u64) -> (contained: bool)
    ensures
        contained == leases_of(*map).contains_key(lease_id),
{
    map.contains_key(&lease_id)
}

/// `DashMap::len` is the number of keys.
#[verifier::external_body]
fn leases_len(map: &DashMap<u64, Lease>) -> (len: usize)
    ensures
        len == leases_of(*map).len(),
{
    map.len()
}

/// `DashMap::get` finds the value stored under the key; its TTL and state are handed out.
#[verifier::external_body]
fn leases_ttl(map: &DashMap<u64, Lease>, lease_id: u64) -> (found: Option<(u64, LeaseState)>)
    ensures
        found == if leases_of(*map).contains_key(lease_id) {
            Some((leases_of(*map)[lease_id].ttl, leases_of(*map)[lease_id].state))
        } else {
            None
        },
{
    map.get(&lease_id).map(|entry| (entry.value().ttl, entry.value().state))
}

/// `DashMap::remove` takes out the value stored under the key, if there is one.
#[verifier::external_body]
fn leases_remove(map: &mut DashMap<u64, Lease>, lease_id: u64) -> (lease: Option<Lease>)
    ensures
        leases_of(*final(map)) == leases_of(*old(map)).remove(lease_id),
        match lease {
            Some(lease) => leases_of(*old(map)).contains_key(lease_id) && lease@ == leases_of(
                *old(map),
            )[lease_id],
            None => !leases_of(*old(map)).contains_key(lease_id),
        },
{
    map.remove(&lease_id).map(|entry| entry.1)
}

/// `DashMap::iter` walks every key once, in an order that is not specified.
#[verifier::external_body]
fn leases_ids(map: &DashMap<u64, Lease>) -> (ids: Vec<u64>)
    ensures
        ids@.no_duplicates(),
        forall|id: u64| #[trigger] ids@.contains(id) <==> leases_of(*map).contains_key(id),
{
    map.iter().map(|entry| *entry.key()).collect()
}

/// Configuration for MasterLeaseManager module
#[derive(Debug, Clone, Copy)]
pub struct MasterLeaseManagerNewArg {
    /// Cleanup interval in seconds
    pub cleanup_interval: u64,
    /// Default TTL for leases
    pub default_ttl: u64,
}

/// Master lease manager
///
/// Provides lease management functionality similar to etcd. Times are milliseconds since the epoch
/// and are handed in by the caller.
pub struct MasterLeaseManager {
    /// Active leases: lease_id -> Lease
    leases: DashMap<LeaseID, Lease>,
    /// Next available lease ID
    next_lease_id: u64,
    /// When leases expire; a renewed lease leaves its earlier records behind.
    expire_heap: ExpireHeap,
    /// The cleanup task is to look at the records now.
    cleanup_notify: bool,
}

/// A record at `time` comes before all that are there, so that the cleanup task must be woken.
pub open spec fn comes_first(records: Multiset<ExpireRecord>, time: u64) -> bool {
    forall|record: ExpireRecord| #[trigger] records.contains(record) ==> time < record.0
}

/// Of the keys attached to an expired lease, those to delete: a key that was put again since, under
/// another version, is left alone.
pub open spec fn keys_to_delete(
    keys: Map<Seq<char>, PutIDForAKey>,
    routes: Map<Seq<char>, RouteModel>,
) -> Set<Seq<char>> {
    keys.dom().filter(
        |key: Seq<char>| !routes.contains_key(key) || routes[key].put_id == keys[key],
    )
}

/// The id after this one; after the largest they start over.
pub open spec fn id_after(id: LeaseID) -> LeaseID {
    if id == u64::MAX {
        0
    } else {
        (id + 1) as u64
    }
}

/// How many ids after `from` the id `to` comes.
pub open spec fn id_distance(from: LeaseID, to: LeaseID) -> int {
    if from <= to {
        to - from
    } else {
        to - from + 0x1_0000_0000_0000_0000
    }
}

/// There are fewer leases than ids, so that an id is free.
proof fn lemma_some_id_is_free(leases: Map<u64, LeaseModel>)
    requires
        leases.len() < 0x1_0000_0000_0000_0000,
    ensures
        exists|id: u64| !leases.contains_key(id),
{
    if forall|id: u64| leases.contains_key(id) {
        let numbers = vstd::set_lib::set_int_range(0, 0x1_0000_0000_0000_0000);
        let to_id = |n: int| n as u64;
        vstd::set_lib::lemma_int_range(0, 0x1_0000_0000_0000_0000);
        let ids = numbers.map(to_id);
        assert(ids =~= leases.dom()) by {
            assert forall|id: u64| #[trigger] leases.dom().contains(id) implies ids.contains(id) by {
                assert(numbers.contains(id as int));
                assert(to_id(id as int) == id);
            }
            assert forall|id: u64| #[trigger] ids.contains(id) implies leases.dom().contains(id) by {
                assert(leases.contains_key(id));
            }
        }
        vstd::set_lib::lemma_map_size(numbers, ids, to_id);
    }
}

/// The error for a TTL under the minimum.
pub open spec fn invalid_ttl(ttl: LeaseSecTTl) -> LeaseMgrErrorOf<Seq<char>> {
    LeaseMgrErrorOf::InvalidTTL {
        ttl,
        message: "invalid ttl: client lease TTL must be >= 90 seconds"@,
    }
}

fn ttl_too_short(ttl: LeaseSecTTl) -> (error: LeaseMgrError)
    ensures
        error@ == invalid_ttl(ttl),
{
    LeaseMgrError::InvalidTTL {
        ttl,
        message: "invalid ttl: client lease TTL must be >= 90 seconds".to_owned(),
    }
}

/// A custom TTL, where there is one, is not under the minimum.
pub open spec fn ttl_allowed(custom_ttl: Option<u64>) -> bool {
    custom_ttl matches Some(ttl) ==> ttl >= MasterLeaseManager::MIN_CLIENT_TTL_SECONDS
}

/// What keeping a lease alive does, and what it comes to.
pub open spec fn kept_alive(
    before: MasterLeaseManager,
    after: MasterLeaseManager,
    lease_id: LeaseID,
    custom_ttl: Option<u64>,
    now: u64,
    result: Result<(), LeaseMgrError>,
) -> bool {
    if before.leases()[lease_id].state != LeaseState::Active {
        &&& result matches Err(e) && e@ == (LeaseMgrErrorOf::LeaseExpired {
            lease_id,
            message: text::decimal(lease_id as nat),
        })
        &&& before.same(after)
    } else if !ttl_allowed(custom_ttl) {
        &&& result matches Err(e) && e@ == invalid_ttl(custom_ttl->0)
        &&& before.same(after)
    } else {
        &&& result is Ok
        &&& before.stored(
            after,
            before.leases()[lease_id].refreshed(custom_ttl, now).0,
        )
    }
}

/// What granting a lease does, and what it comes to.
pub open spec fn lease_granted(
    before: MasterLeaseManager,
    after: MasterLeaseManager,
    ttl: LeaseSecTTl,
    now: u64,
    result: Result<LeaseID, LeaseMgrError>,
) -> bool {
    if ttl < MasterLeaseManager::MIN_CLIENT_TTL_SECONDS {
        &&& result matches Err(e) && e@ == invalid_ttl(ttl)
        &&& before.same(after)
    } else {
        result matches Ok(id) && before.next_free(id) && before.stored(
            after,
            LeaseModel::granted(id, ttl, now),
        ) && after.next_id() == id_after(id)
    }
}

impl MasterLeaseManager {
    /// Default TTL for leases (90 seconds)
    pub const DEFAULT_TTL: u64 = 90;

    /// Minimum allowed TTL for client leases in seconds.
    pub const MIN_CLIENT_TTL_SECONDS: u64 = 90;

    pub closed spec fn leases(self) -> Map<u64, LeaseModel> {
        leases_of(self.leases)
    }

    pub closed spec fn records(self) -> Multiset<ExpireRecord> {
        self.expire_heap@
    }

    pub closed spec fn next_id(self) -> u64 {
        self.next_lease_id
    }

    pub closed spec fn notified(self) -> bool {
        self.cleanup_notify
    }

    /// The records are in order, and every lease is stored under its id.
    pub closed spec fn wf(self) -> bool {
        &&& self.expire_heap.wf()
        &&& forall|id: u64| #[trigger]
            self.leases().contains_key(id) ==> self.leases()[id].id == id
    }

    /// Every lease is active, under its id, and will be looked at when it expires: its expiration is
    /// recorded, or among the records that are being worked off.
    pub open spec fn covers(self, working: Seq<ExpireRecord>) -> bool {
        forall|id: u64| #[trigger]
            self.leases().contains_key(id) ==> {
                let lease = self.leases()[id];
                &&& lease.id == id
                &&& lease.state == LeaseState::Active
                &&& self.records().contains((lease.expiration_time, id)) || working.contains(
                    (lease.expiration_time, id),
                )
            }
    }

    /// `after` differs from `self` by one lease, whose expiration is recorded.
    pub open spec fn stored(self, after: MasterLeaseManager, lease: LeaseModel) -> bool {
        &&& after.leases() == self.leases().insert(lease.id, lease)
        &&& after.records() == self.records().insert((lease.expiration_time, lease.id))
        &&& after.notified() == (self.notified() || comes_first(
            self.records(),
            lease.expiration_time,
        ))
    }

    /// The id is that of no lease, and the first such id from the counter on.
    pub open spec fn next_free(self, id: LeaseID) -> bool {
        &&& !self.leases().contains_key(id)
        &&& forall|other: u64|
            id_distance(self.next_id(), other) < id_distance(self.next_id(), id)
                ==> #[trigger] self.leases().contains_key(other)
    }

    /// Nothing differs.
    pub open spec fn same(self, after: MasterLeaseManager) -> bool {
        &&& after.leases() == self.leases()
        &&& after.records() == self.records()
        &&& after.notified() == self.notified()
        &&& after.next_id() == self.next_id()
    }

    pub fn construct(arg: MasterLeaseManagerNewArg) -> (manager: Self)
        ensures
            manager.wf(),
            manager.leases() == Map::<u64, LeaseModel>::empty(),
            manager.records() == Multiset::<ExpireRecord>::empty(),
            manager.next_id() == 1,
            !manager.notified(),
            manager.covers(Seq::empty()),
    {
        MasterLeaseManager {
            leases: leases_new(),
            next_lease_id: 1,
            expire_heap: ExpireHeap::new(),
            cleanup_notify: false,
        }
    }

    /// Whether the cleanup task has been asked to look at the records since it was last asked this.
    pub fn take_cleanup_notification(&mut self) -> (notified: bool)
        requires
            old(self).wf(),
        ensures
            final(self).wf(),
            notified == old(self).notified(),
            !final(self).notified(),
            final(self).leases() == old(self).leases(),
            final(self).records() == old(self).records(),
            final(self).next_id() == old(self).next_id(),
    {
        let notified: bool = self.cleanup_notify;
        self.cleanup_notify = false;
        notified
    }

    /// Records when a lease expires, and wakes the cleanup task if that is earlier than all else.
    fn insert_lease_to_cleanup(&mut self, record: ExpireRecord)
        requires
            old(self).wf(),
        ensures
            final(self).wf(),
            final(self).leases() == old(self).leases(),
            final(self).next_id() == old(self).next_id(),
            final(self).records() == old(self).records().insert(record),
            final(self).notified() == (old(self).notified() || comes_first(
                old(self).records(),
                record.0,
            )),
    {
        let earliest = self.expire_heap.peek();
        let first = match earliest {
            Some(earliest) => record.0 < earliest.0,
            None => true,
        };
        self.expire_heap.push(record);
        if first {
            self.cleanup_notify = true;
        }
        proof {
            broadcast use vstd::multiset::group_multiset_axioms;

            assert(first == comes_first(old(self).records(), record.0));
        }
    }

    /// Stores a lease and records when it expires.
    fn store_lease(&mut self, lease: Lease)
        requires
            old(self).wf(),
            lease@.state == LeaseState::Active,
        ensures
            final(self).wf(),
            old(self).stored(*final(self), lease@),
            final(self).next_id() == old(self).next_id(),
            forall|working: Seq<ExpireRecord>|
                old(self).covers(working) ==> #[trigger] final(self).covers(working),
    {
        let record: ExpireRecord = (lease.expiration_time, lease.id);
        leases_insert(&mut self.leases, lease.id, lease);
        self.insert_lease_to_cleanup(record);
        proof {
            broadcast use vstd::multiset::group_multiset_axioms;

        }
    }

    /// Generate the next unique lease ID: ids of leases that were granted by their id are left out.
    fn generate_next_lease_id(&mut self) -> (id: LeaseID)
        requires
            old(self).wf(),
        ensures
            final(self).wf(),
            old(self).next_free(id),
            final(self).next_id() == id_after(id),
            final(self).leases() == old(self).leases(),
            final(self).records() == old(self).records(),
            final(self).notified() == old(self).notified(),
    {
        let _live: usize = leases_len(&self.leases);
        proof {
            lemma_some_id_is_free(self.leases());
        }
        let mut id: LeaseID = self.next_lease_id;
        let ghost start = self.next_lease_id;
        let ghost free = choose|free: u64| !self.leases().contains_key(free);
        while leases_contain(&self.leases, id)
            invariant
                self.wf(),
                *self == *old(self),
                start == self.next_id(),
                !self.leases().contains_key(free),
                forall|other: u64|
                    id_distance(start, other) < id_distance(start, id)
                        ==> #[trigger] self.leases().contains_key(other),
            decreases id_distance(start, free) - id_distance(start, id),
        {
            id = if id == u64::MAX {
                0
            } else {
                id + 1
            };
        }
        self.next_lease_id = if id == u64::MAX {
            0
        } else {
            id + 1
        };
        id
    }

    /// Grant a new lease with auto-generated unique lease_id
    pub fn grant_lease(&mut self, ttl: LeaseSecTTl, now: u64) -> (result: Result<
        LeaseID,
        LeaseMgrError,
    >)
        requires
            old(self).wf(),
        ensures
            final(self).wf(),
            lease_granted(*old(self), *final(self), ttl, now, result),
            forall|working: Seq<ExpireRecord>|
                old(self).covers(working) ==> #[trigger] final(self).covers(working),
    {
        if ttl < Self::MIN_CLIENT_TTL_SECONDS {
            return Err(ttl_too_short(ttl));
        }
        Ok(self.grant_lease_unchecked(ttl, now))
    }

    /// Grant a new lease whatever its TTL.
    pub fn grant_lease_unchecked(&mut self, ttl: LeaseSecTTl, now: u64) -> (lease_id: LeaseID)
        requires
            old(self).wf(),
        ensures
            final(self).wf(),
            old(self).next_free(lease_id),
            old(self).stored(*final(self), LeaseModel::granted(lease_id, ttl, now)),
            final(self).next_id() == id_after(lease_id),
            forall|working: Seq<ExpireRecord>|
                old(self).covers(working) ==> #[trigger] final(self).covers(working),
    {
        let lease_id: LeaseID = self.generate_next_lease_id();
        assert forall|working: Seq<ExpireRecord>|
            old(self).covers(working) implies #[trigger] self.covers(working) by {}
        self.store_lease(Lease::new(lease_id, ttl, now));
        lease_id
    }

    /// Grant a new lease with explicit lease_id (create if not exists)
    pub fn grant_lease_with_id(&mut self, ttl: LeaseSecTTl, lease_id: LeaseID, now: u64) -> (result:
        Result<LeaseID, LeaseMgrError>)
        requires
            old(self).wf(),
        ensures
            final(self).wf(),
            final(self).next_id() == old(self).next_id(),
            ttl < Self::MIN_CLIENT_TTL_SECONDS ==> {
                &&& result matches Err(e) && e@ == invalid_ttl(ttl)
                &&& old(self).same(*final(self))
            },
            ttl >= Self::MIN_CLIENT_TTL_SECONDS ==> {
                &&& result == Ok::<LeaseID, LeaseMgrError>(lease_id)
                &&& if old(self).leases().contains_key(lease_id) {
                    old(self).same(*final(self))
                } else {
                    old(self).stored(*final(self), LeaseModel::granted(lease_id, ttl, now))
                }
            },
            forall|working: Seq<ExpireRecord>|
                old(self).covers(working) ==> #[trigger] final(self).covers(working),
    {
        if ttl < Self::MIN_CLIENT_TTL_SECONDS {
            return Err(ttl_too_short(ttl));
        }
        if !leases_contain(&self.leases, lease_id) {
            self.store_lease(Lease::new(lease_id, ttl, now));
        }
        Ok(lease_id)
    }

    /// Attach a key to a lease with version information
    pub fn attach_key(&mut self, lease_id: LeaseID, key: LeaseKey, put_id: PutIDForAKey) -> (result:
        Result<(), LeaseMgrError>)
        requires
            old(self).wf(),
        ensures
            final(self).wf(),
            final(self).records() == old(self).records(),
            final(self).notified() == old(self).notified(),
            final(self).next_id() == old(self).next_id(),
            if old(self).leases().contains_key(lease_id) {
                let (lease, expected) = old(self).leases()[lease_id].attached(key@, put_id);
                &&& crate::error::lease_result_view(result) == expected
                &&& final(self).leases() == old(self).leases().insert(lease_id, lease)
            } else {
                &&& crate::error::lease_result_view(result) == Err::<
                    (),
                    LeaseMgrErrorOf<Seq<char>>,
                >(
                    LeaseMgrErrorOf::LeaseNotFound {
                        lease_id,
                        message: text::decimal(lease_id as nat),
                    },
                )
                &&& final(self).leases() == old(self).leases()
            },
            forall|working: Seq<ExpireRecord>|
                old(self).covers(working) ==> #[trigger] final(self).covers(working),
    {
        match leases_remove(&mut self.leases, lease_id) {
            Some(lease) => {
                let mut lease = lease;
                let result = lease.attach_key(key, put_id);
                leases_insert(&mut self.leases, lease_id, lease);
                proof {
                    let before = old(self).leases();
                    assert(self.leases() =~= before.insert(lease_id, lease@));
                }
                result
            },
            None => {
                assert(self.leases() =~= old(self).leases());
                Err(LeaseMgrError::LeaseNotFound { lease_id, message: text::u64_text(lease_id) })
            },
        }
    }

    /// List all active leases
    pub fn list_leases(&self) -> (ids: Vec<LeaseID>)
        ensures
            ids@.no_duplicates(),
            forall|id: u64| #[trigger] ids@.contains(id) <==> self.leases().contains_key(id),
    {
        leases_ids(&self.leases)
    }

    /// The time that keeping the lease alive would set fits, if there is such a lease and the custom
    /// TTL is allowed.
    pub open spec fn refreshable(self, lease_id: LeaseID, custom_ttl: Option<u64>, now: u64) -> bool {
        ttl_allowed(custom_ttl) && self.leases().contains_key(lease_id) ==> self.leases()[lease_id].can_refresh(
            custom_ttl,
            now,
        )
    }

    /// Whether the time that keeping the lease alive would set fits.
    pub fn can_keep_alive(&self, lease_id: LeaseID, custom_ttl: Option<u64>, now: u64) -> (can: bool)
        ensures
            can == self.refreshable(lease_id, custom_ttl, now),
    {
        if let Some(custom) = custom_ttl {
            if custom < Self::MIN_CLIENT_TTL_SECONDS {
                return true;
            }
        }
        match leases_ttl(&self.leases, lease_id) {
            Some((ttl, state)) => {
                let seconds: u64 = match custom_ttl {
                    Some(custom) => custom,
                    None => ttl,
                };
                state != LeaseState::Active || seconds as u128 * 1000 + now as u128
                    <= u64::MAX as u128
            },
            None => true,
        }
    }

    /// Keeps a lease alive: it expires the custom TTL, or else its own, after `now`. A custom TTL is
    /// held to the minimum for client leases.
    pub fn client_lease_keepalive(
        &mut self,
        lease_id: LeaseID,
        custom_ttl: Option<u64>,
        now: u64,
    ) -> (result: Result<(), LeaseMgrError>)
        requires
            old(self).wf(),
            old(self).leases().contains_key(lease_id),
            ttl_allowed(custom_ttl) ==> old(self).leases()[lease_id].can_refresh(custom_ttl, now),
        ensures
            final(self).wf(),
            final(self).next_id() == old(self).next_id(),
            kept_alive(*old(self), *final(self), lease_id, custom_ttl, now, result),
            result is Ok ==> final(self).leases()[lease_id].expiration_time == now + (
            match custom_ttl {
                Some(ttl) => ttl,
                None => old(self).leases()[lease_id].ttl,
            }) * 1000 && final(self).leases()[lease_id].keys == old(self).leases()[lease_id].keys,
            forall|working: Seq<ExpireRecord>|
                old(self).covers(working) ==> #[trigger] final(self).covers(working),
    {
        match leases_remove(&mut self.leases, lease_id) {
            Some(lease) => {
                let mut lease = lease;
                if lease.get_state() != LeaseState::Active {
                    leases_insert(&mut self.leases, lease_id, lease);
                    assert(self.leases() =~= old(self).leases());
                    return Err(
                        LeaseMgrError::LeaseExpired { lease_id, message: text::u64_text(lease_id) },
                    );
                }
                if let Some(ttl) = custom_ttl {
                    if ttl < Self::MIN_CLIENT_TTL_SECONDS {
                        leases_insert(&mut self.leases, lease_id, lease);
                        assert(self.leases() =~= old(self).leases());
                        return Err(ttl_too_short(ttl));
                    }
                }
                let _ = lease.refresh(custom_ttl, now);
                let ghost without = self.leases();
                let ghost renewed = lease@;
                self.store_lease(lease);
                proof {
                    broadcast use vstd::multiset::group_multiset_axioms;

                    assert(self.leases() =~= old(self).leases().insert(lease_id, renewed));
                }
                Ok(())
            },
            None => Ok(()),
        }
    }

    /// The records that have expired at `now`, earliest first. They leave the queue.
    pub fn collect_expired(&mut self, now: u64) -> (expired: Vec<ExpireRecord>)
        requires
            old(self).wf(),
        ensures
            final(self).wf(),
            final(self).leases() == old(self).leases(),
            final(self).notified() == old(self).notified(),
            final(self).next_id() == old(self).next_id(),
            expired@.to_multiset().add(final(self).records()) == old(self).records(),
            forall|i: int, j: int|
                0 <= i <= j < expired@.len() ==> super::expire_heap::no_later(
                    #[trigger] expired@[i],
                    #[trigger] expired@[j],
                ),
            forall|i: int| 0 <= i < expired@.len() ==> (#[trigger] expired@[i]).0 <= now,
            forall|record: ExpireRecord| #[trigger]
                final(self).records().contains(record) ==> record.0 > now,
            old(self).covers(Seq::empty()) ==> final(self).covers(expired@),
    {
        let mut expired: Vec<ExpireRecord> = Vec::new();
        proof {
            broadcast use vstd::multiset::group_multiset_axioms;

            expired@.to_multiset_ensures();
            assert(expired@.to_multiset() =~= Multiset::empty());
            assert(expired@.to_multiset().add(self.records()) =~= old(self).records());
        }
        loop
            invariant
                self.wf(),
                self.leases() == old(self).leases(),
                self.notified() == old(self).notified(),
                self.next_id() == old(self).next_id(),
                expired@.to_multiset().add(self.records()) == old(self).records(),
                forall|i: int| 0 <= i < expired@.len() ==> (#[trigger] expired@[i]).0 <= now,
                forall|i: int, j: int|
                    0 <= i <= j < expired@.len() ==> super::expire_heap::no_later(
                        #[trigger] expired@[i],
                        #[trigger] expired@[j],
                    ),
                forall|i: int, record: ExpireRecord|
                    0 <= i < expired@.len() && #[trigger] self.records().contains(record)
                        ==> super::expire_heap::no_later(#[trigger] expired@[i], record),
            ensures
                forall|record: ExpireRecord| #[trigger]
                    self.records().contains(record) ==> record.0 > now,
            decreases self.records().len(),
        {
            broadcast use vstd::multiset::group_multiset_axioms;

            match self.expire_heap.peek() {
                None => {
                    break ;
                },
                Some(record) => {
                    if record.0 > now {
                        break ;
                    }
                },
            }
            let ghost queued = self.records();
            if let Some(record) = self.expire_heap.pop() {
                proof {
                    expired@.to_multiset_ensures();
                    assert(expired@.push(record).to_multiset().add(self.records()) =~= old(
                        self,
                    ).records());
                    assert forall|other: ExpireRecord| #[trigger]
                        self.records().contains(other) implies queued.contains(other) by {
                        assert(self.records().count(other) <= queued.count(other));
                    }
                    assert(queued.contains(record));
                }
                expired.push(record);
            }
        }
        proof {
            broadcast use vstd::multiset::group_multiset_axioms;

            expired@.to_multiset_ensures();
        }
        expired
    }

    /// Works off one of the `expired` records. A lease that the record is still true of is removed,
    /// and the keys to delete with it are returned; a lease that was renewed since is left alone.
    pub fn cleanup_single_lease(
        &mut self,
        expired: &Vec<ExpireRecord>,
        at: usize,
        routes: &KvRoutes,
    ) -> (deletions: Option<Vec<LeaseKey>>)
        requires
            old(self).wf(),
            at < expired@.len(),
        ensures
            final(self).wf(),
            final(self).records() == old(self).records(),
            final(self).notified() == old(self).notified(),
            final(self).next_id() == old(self).next_id(),
            old(self).covers(expired@.skip(at as int)) ==> final(self).covers(
                expired@.skip(at + 1),
            ),
            if old(self).due(expired@[at as int]) {
                &&& final(self).leases() == old(self).leases().remove(expired@[at as int].1)
                &&& deletions matches Some(keys) && crate::dash::lists_keys(
                    keys@,
                    keys_to_delete(old(self).leases()[expired@[at as int].1].keys, routes@),
                )
            } else {
                &&& final(self).leases() == old(self).leases()
                &&& deletions is None
            },
    {
        let record: ExpireRecord = expired[at];
        let ghost working = expired@.skip(at as int);
        let ghost rest = expired@.skip(at + 1);
        proof {
            assert forall|other: ExpireRecord|
                working.contains(other) && other != record implies rest.contains(other) by {
                let i = choose|i: int| 0 <= i < working.len() && working[i] == other;
                assert(working[0] == record);
                assert(rest[i - 1] == other);
            }
        }
        match leases_remove(&mut self.leases, record.1) {
            None => {
                assert(self.leases() =~= old(self).leases());
                None
            },
            Some(lease) => {
                if lease.get_expiration_time() != record.0 {
                    leases_insert(&mut self.leases, record.1, lease);
                    assert(self.leases() =~= old(self).leases());
                    return None;
                }
                let mut lease = lease;
                let attached = lease.get_keys_with_put_ids();
                let keys = select_deletions(attached, Ghost(lease@.keys), routes);
                let _ = lease.expire();
                Some(keys)
            },
        }
    }

    /// One pass of the cleanup task: every lease that has expired at `now` is removed, and the keys
    /// to delete with them are returned.
    pub fn cleanup_expired(&mut self, now: u64, routes: &KvRoutes) -> (deletions: Vec<LeaseKey>)
        requires
            old(self).wf(),
            old(self).covers(Seq::empty()),
        ensures
            final(self).wf(),
            final(self).covers(Seq::empty()),
            final(self).notified() == old(self).notified(),
            final(self).next_id() == old(self).next_id(),
            final(self).records() == old(self).records().filter(
                |record: ExpireRecord| record.0 > now,
            ),
            forall|id: u64| #[trigger]
                final(self).leases().contains_key(id) <==> old(self).leases().contains_key(id)
                    && old(self).leases()[id].expiration_time > now,
            forall|id: u64| #[trigger]
                final(self).leases().contains_key(id) ==> final(self).leases()[id] == old(
                    self,
                ).leases()[id],
            forall|key: Seq<char>| #[trigger]
                crate::master_kv_router::routes::names_contain(deletions@, key) <==> exists|id: u64|
                    old(self).expires_with(*final(self), routes@, id, key),
            forall|i: int|
                0 <= i < deletions@.len() ==> old(self).takes_along(
                    routes@,
                    (#[trigger] deletions@[i])@,
                    now,
                ),
            forall|key: Seq<char>| #[trigger]
                old(self).takes_along(routes@, key, now) ==> exists|i: int|
                    0 <= i < deletions@.len() && (#[trigger] deletions@[i])@ == key,
    {
        let expired = self.collect_expired(now);
        let ghost records = self.records();
        proof {
            broadcast use vstd::multiset::group_multiset_axioms;

            let later = |record: ExpireRecord| record.0 > now;
            expired@.to_multiset_ensures();
            assert forall|record: ExpireRecord| #[trigger]
                records.count(record) == old(self).records().filter(later).count(record) by {
                if later(record) {
                    assert(!expired@.contains(record));
                    assert(!expired@.to_multiset().contains(record));
                } else {
                    assert(!records.contains(record));
                }
                assert(old(self).records().count(record) == expired@.to_multiset().count(record)
                    + records.count(record));
            }
            assert(records =~= old(self).records().filter(later));
        }
        let mut deletions: Vec<LeaseKey> = Vec::new();
        let mut i: usize = 0;
        assert(expired@.skip(0) =~= expired@);
        while i < expired.len()
            invariant
                i <= expired@.len(),
                self.wf(),
                self.covers(expired@.skip(i as int)),
                self.records() == records,
                self.notified() == old(self).notified(),
                self.next_id() == old(self).next_id(),
                forall|k: int| 0 <= k < expired@.len() ==> (#[trigger] expired@[k]).0 <= now,
                forall|id: u64| #[trigger]
                    self.leases().contains_key(id) ==> old(self).leases().contains_key(id)
                        && self.leases()[id] == old(self).leases()[id],
                forall|id: u64| #[trigger]
                    old(self).leases().contains_key(id) && old(self).leases()[id].expiration_time
                        > now ==> self.leases().contains_key(id),
                forall|key: Seq<char>| #[trigger]
                    crate::master_kv_router::routes::names_contain(deletions@, key) <==> exists|id: u64|
                        old(self).expires_with(*self, routes@, id, key),
            decreases expired@.len() - i,
        {
            let ghost before = *self;
            let ghost listed = deletions@;
            let cleaned = self.cleanup_single_lease(&expired, i, routes);
            let ghost gone = expired@[i as int].1;
            match cleaned {
                Some(keys) => {
                    let ghost added = keys@;
                    let mut keys = keys;
                    deletions.append(&mut keys);
                    proof {
                        assert(deletions@ =~= listed + added);
                        assert forall|key: Seq<char>| #[trigger]
                            crate::master_kv_router::routes::names_contain(deletions@, key) <==> exists|id: u64|
                                old(self).expires_with(*self, routes@, id, key) by {
                            Self::lemma_one_more(
                                *old(self),
                                before,
                                *self,
                                routes@,
                                gone,
                                listed,
                                added,
                                key,
                            );
                        }
                    }
                },
                None => {
                    assert forall|key: Seq<char>| #[trigger]
                        crate::master_kv_router::routes::names_contain(deletions@, key) <==> exists|id: u64|
                            old(self).expires_with(*self, routes@, id, key) by {
                        if exists|id: u64| old(self).expires_with(*self, routes@, id, key) {
                            let id = choose|id: u64|
                                old(self).expires_with(*self, routes@, id, key);
                            assert(old(self).expires_with(before, routes@, id, key));
                        }
                        if exists|id: u64| old(self).expires_with(before, routes@, id, key) {
                            let id = choose|id: u64|
                                old(self).expires_with(before, routes@, id, key);
                            assert(old(self).expires_with(*self, routes@, id, key));
                        }
                    }
                },
            }
            i = i + 1;
        }
        assert(expired@.skip(i as int) =~= Seq::<ExpireRecord>::empty());
        assert forall|id: u64| #[trigger] self.leases().contains_key(id) implies old(
            self,
        ).leases()[id].expiration_time > now by {
            let record = (self.leases()[id].expiration_time, id);
            assert(self.records().contains(record));
        }
        proof {
            assert forall|i: int| 0 <= i < deletions@.len() implies old(self).takes_along(
                routes@,
                (#[trigger] deletions@[i])@,
                now,
            ) by {
                let key = deletions@[i]@;
                assert(crate::master_kv_router::routes::names_contain(deletions@, key));
                let id = choose|id: u64| old(self).expires_with(*self, routes@, id, key);
                assert(old(self).leases().contains_key(id));
                assert(!self.leases().contains_key(id));
            }
            assert forall|key: Seq<char>| #[trigger]
                old(self).takes_along(routes@, key, now) implies exists|i: int|
                0 <= i < deletions@.len() && (#[trigger] deletions@[i])@ == key by {
                let id = choose|id: u64|
                    {
                        &&& #[trigger] old(self).leases().contains_key(id)
                        &&& old(self).leases()[id].expiration_time <= now
                        &&& old(self).leases()[id].keys.contains_key(key)
                        &&& !routes@.contains_key(key) || routes@[key].put_id
                            == old(self).leases()[id].keys[key]
                    };
                assert(!self.leases().contains_key(id));
                assert(old(self).expires_with(*self, routes@, id, key));
                assert(crate::master_kv_router::routes::names_contain(deletions@, key));
            }
        }
        deletions
    }

    /// Some lease that has expired at `now` has the key, in the version that is current or with no
    /// version left.
    pub open spec fn takes_along(
        self,
        routes: Map<Seq<char>, RouteModel>,
        key: Seq<char>,
        now: u64,
    ) -> bool {
        exists|id: u64|
            {
                &&& #[trigger] self.leases().contains_key(id)
                &&& self.leases()[id].expiration_time <= now
                &&& self.leases()[id].keys.contains_key(key)
                &&& !routes.contains_key(key) || routes[key].put_id
                    == self.leases()[id].keys[key]
            }
    }

    /// The lease is gone in `after`, and the key is to be deleted with it.
    pub open spec fn expires_with(
        self,
        after: MasterLeaseManager,
        routes: Map<Seq<char>, RouteModel>,
        id: u64,
        key: Seq<char>,
    ) -> bool {
        &&& self.leases().contains_key(id)
        &&& !after.leases().contains_key(id)
        &&& keys_to_delete(self.leases()[id].keys, routes).contains(key)
    }

    /// The keys to delete once the lease `gone` was removed: those before, and those of that lease.
    proof fn lemma_one_more(
        start: MasterLeaseManager,
        before: MasterLeaseManager,
        after: MasterLeaseManager,
        routes: Map<Seq<char>, RouteModel>,
        gone: u64,
        listed: Seq<String>,
        added: Seq<String>,
        key: Seq<char>,
    )
        requires
            start.leases().contains_key(gone),
            before.leases().contains_key(gone),
            after.leases() == before.leases().remove(gone),
            crate::dash::lists_keys(added, keys_to_delete(start.leases()[gone].keys, routes)),
            crate::master_kv_router::routes::names_contain(listed, key) <==> exists|id: u64|
                start.expires_with(before, routes, id, key),
        ensures
            crate::master_kv_router::routes::names_contain(listed + added, key) <==> exists|id: u64|
                start.expires_with(after, routes, id, key),
    {
        let all = listed + added;
        if crate::master_kv_router::routes::names_contain(all, key) {
            let i = choose|i: int| 0 <= i < all.len() && (#[trigger] all[i])@ == key;
            if i < listed.len() {
                assert(listed[i]@ == key);
                let id = choose|id: u64| start.expires_with(before, routes, id, key);
                assert(start.expires_with(after, routes, id, key));
            } else {
                assert(added[i - listed.len()]@ == key);
                assert(start.expires_with(after, routes, gone, key));
            }
        }
        if exists|id: u64| start.expires_with(after, routes, id, key) {
            let id = choose|id: u64| start.expires_with(after, routes, id, key);
            if id == gone {
                let i = choose|i: int| 0 <= i < added.len() && added[i]@ == key;
                assert(all[listed.len() + i]@ == key);
            } else {
                assert(start.expires_with(before, routes, id, key));
                let i = choose|i: int| 0 <= i < listed.len() && (#[trigger] listed[i])@ == key;
                assert(all[i]@ == key);
            }
        }
    }

    /// The record is still true of its lease.
    pub open spec fn due(self, record: ExpireRecord) -> bool {
        self.leases().contains_key(record.1) && self.leases()[record.1].expiration_time == record.0
    }

    /// How long the cleanup task sleeps, in milliseconds: until the next record expires, a moment if
    /// one has expired already, or a minute if there is none.
    pub fn next_sleep_ms(&self, now: u64) -> (sleep: u64)
        requires
            self.wf(),
        ensures
            self.records().len() == 0 ==> sleep == 60_000,
            self.records().len() > 0 ==> exists|record: ExpireRecord| #[trigger]
                self.records().contains(record) && sleep == if record.0 > now {
                    record.0 - now
                } else {
                    100
                } && forall|other: ExpireRecord| #[trigger]
                    self.records().contains(other) ==> record.0 <= other.0,
    {
        broadcast use vstd::multiset::group_multiset_axioms;

        match self.expire_heap.peek() {
            Some(record) => {
                assert(self.records().contains(record));
                if record.0 > now {
                    record.0 - now
                } else {
                    100
                }
            },
            None => 60_000,
        }
    }
}

/// Selects, of the keys attached to an expired lease, those to delete.
fn select_deletions(
    attached: Vec<(LeaseKey, PutIDForAKey)>,
    Ghost(keys): Ghost<Map<Seq<char>, PutIDForAKey>>,
    routes: &KvRoutes,
) -> (deletions: Vec<LeaseKey>)
    requires
        super::lease::lists_entries(attached@, keys),
    ensures
        crate::dash::lists_keys(deletions@, keys_to_delete(keys, routes@)),
{
    let ghost wanted = keys_to_delete(keys, routes@);
    let mut deletions: Vec<LeaseKey> = Vec::new();
    let mut i: usize = 0;
    while i < attached.len()
        invariant
            i <= attached@.len(),
            super::lease::lists_entries(attached@, keys),
            wanted == keys_to_delete(keys, routes@),
            forall|j: int|
                0 <= j < deletions@.len() ==> wanted.contains(#[trigger] deletions@[j]@) && exists|
                    k: int,
                |
                    0 <= k < i && attached@[k].0@ == deletions@[j]@,
            forall|k: int|
                0 <= k < i && wanted.contains((#[trigger] attached@[k]).0@) ==> exists|j: int|
                    0 <= j < deletions@.len() && deletions@[j]@ == attached@[k].0@,
            forall|j: int, l: int|
                0 <= j < l < deletions@.len() ==> deletions@[j]@ != deletions@[l]@,
        decreases attached@.len() - i,
    {
        let ghost before = deletions@;
        let key: &String = &attached[i].0;
        let put_id: PutIDForAKey = attached[i].1;
        let delete = match routes.get(key.as_str()) {
            Some(route) => route.put_id.0 == put_id.0 && route.put_id.1 == put_id.1,
            None => true,
        };
        assert(keys.contains_key(attached@[i as int].0@));
        assert(delete == wanted.contains(key@));
        if delete {
            deletions.push(key.clone());
            proof {
                assert forall|j: int| 0 <= j < before.len() implies before[j]@ != key@ by {
                    let k = choose|k: int| 0 <= k < i && attached@[k].0@ == before[j]@;
                    assert(attached@[k].0@ != attached@[i as int].0@);
                }
                assert forall|k: int|
                    0 <= k < i + 1 && wanted.contains((#[trigger] attached@[k]).0@) implies exists|
                    j: int,
                |
                    0 <= j < deletions@.len() && deletions@[j]@ == attached@[k].0@ by {
                    if k < i {
                        let j = choose|j: int|
                            0 <= j < before.len() && before[j]@ == attached@[k].0@;
                        assert(deletions@[j]@ == attached@[k].0@);
                    } else {
                        assert(deletions@[before.len() as int]@ == attached@[k].0@);
                    }
                }
                assert forall|j: int| 0 <= j < deletions@.len() implies wanted.contains(
                    #[trigger] deletions@[j]@,
                ) && exists|k: int| 0 <= k < i + 1 && attached@[k].0@ == deletions@[j]@ by {
                    if j < before.len() {
                        assert(deletions@[j] == before[j]);
                        let k = choose|k: int| 0 <= k < i && attached@[k].0@ == before[j]@;
                        assert(attached@[k].0@ == deletions@[j]@);
                    } else {
                        assert(attached@[i as int].0@ == deletions@[j]@);
                    }
                }
            }
        }
        i = i + 1;
    }
    proof {
        assert forall|key: Seq<char>| #[trigger] wanted.contains(key) implies exists|j: int|
            0 <= j < deletions@.len() && deletions@[j]@ == key by {
            assert(keys.contains_key(key));
            let k = choose|k: int| 0 <= k < attached@.len() && attached@[k].0@ == key;
            assert(wanted.contains(attached@[k].0@));
        }
    }
    deletions
}

/// Handle Client Lease allocation request: a new lease, or the error that the TTL is refused with.
pub fn handle_allocate_client_lease(
    manager: &mut MasterLeaseManager,
    req: &AllocateClientLeaseReq,
    now: u64,
) -> (resp: Result<AllocateClientLeaseResp, LeaseMgrError>)
    requires
        old(manager).wf(),
    ensures
        final(manager).wf(),
        req.requested_ttl_seconds < MasterLeaseManager::MIN_CLIENT_TTL_SECONDS ==> {
            &&& resp matches Err(e) && e@ == invalid_ttl(req.requested_ttl_seconds)
            &&& old(manager).same(*final(manager))
        },
        req.requested_ttl_seconds >= MasterLeaseManager::MIN_CLIENT_TTL_SECONDS ==> {
            &&& resp matches Ok(r) && r.error_code == OK && r.error_json@ == Seq::<char>::empty()
                && r.ttl_seconds == req.requested_ttl_seconds && old(manager).next_free(
                r.lease_id,
            ) && old(manager).stored(
                *final(manager),
                LeaseModel::granted(r.lease_id, req.requested_ttl_seconds, now),
            ) && final(manager).next_id() == id_after(r.lease_id)
        },
        forall|working: Seq<ExpireRecord>|
            old(manager).covers(working) ==> #[trigger] final(manager).covers(working),
{
    match manager.grant_lease(req.requested_ttl_seconds, now) {
        Ok(lease_id) => Ok(
            AllocateClientLeaseResp {
                error_code: OK,
                error_json: String::new(),
                lease_id,
                ttl_seconds: req.requested_ttl_seconds,
            },
        ),
        Err(error) => Err(error),
    }
}

/// The custom TTL of a keepalive request: zero means that there is none.
pub open spec fn requested_custom_ttl(custom_ttl: u64) -> Option<u64> {
    if custom_ttl > 0 {
        Some(custom_ttl)
    } else {
        None
    }
}

/// Handle Client Lease Keepalive request
pub fn handle_client_lease_keepalive(
    manager: &mut MasterLeaseManager,
    req: &ClientLeaseKeepaliveReq,
    now: u64,
) -> (resp: Result<ClientLeaseKeepaliveResp, LeaseMgrError>)
    requires
        old(manager).wf(),
        old(manager).refreshable(req.lease_id, requested_custom_ttl(req.custom_ttl), now),
    ensures
        final(manager).wf(),
        final(manager).next_id() == old(manager).next_id(),
        if !old(manager).leases().contains_key(req.lease_id) {
            &&& resp matches Err(e) && e@ == (LeaseMgrErrorOf::LeaseNotFound {
                lease_id: req.lease_id,
                message: "lease not found"@,
            })
            &&& old(manager).same(*final(manager))
        } else if old(manager).leases()[req.lease_id].state != LeaseState::Active {
            &&& resp matches Err(e) && e@ == (LeaseMgrErrorOf::LeaseExpired {
                lease_id: req.lease_id,
                message: text::decimal(req.lease_id as nat),
            })
            &&& old(manager).same(*final(manager))
        } else if 0 < req.custom_ttl < MasterLeaseManager::MIN_CLIENT_TTL_SECONDS {
            &&& resp matches Err(e) && e@ == invalid_ttl(req.custom_ttl)
            &&& old(manager).same(*final(manager))
        } else {
            &&& resp matches Ok(r) && r.error_code == OK && r.error_json@ == Seq::<char>::empty()
            &&& old(manager).stored(
                *final(manager),
                old(manager).leases()[req.lease_id].refreshed(
                    requested_custom_ttl(req.custom_ttl),
                    now,
                ).0,
            )
        },
        resp is Ok ==> final(manager).leases()[req.lease_id].expiration_time == now + (
        if req.custom_ttl == 0 {
            old(manager).leases()[req.lease_id].ttl
        } else {
            req.custom_ttl
        }) * 1000 && final(manager).leases()[req.lease_id].keys == old(
            manager,
        ).leases()[req.lease_id].keys,
        forall|working: Seq<ExpireRecord>|
            old(manager).covers(working) ==> #[trigger] final(manager).covers(working),
{
    let custom_ttl: Option<u64> = if req.custom_ttl > 0 {
        Some(req.custom_ttl)
    } else {
        None
    };
    if !leases_contain(&manager.leases, req.lease_id) {
        return Err(
            LeaseMgrError::LeaseNotFound {
                lease_id: req.lease_id,
                message: "lease not found".to_owned(),
            },
        );
    }
    match manager.client_lease_keepalive(req.lease_id, custom_ttl, now) {
        Ok(()) => Ok(ClientLeaseKeepaliveResp { error_code: OK, error_json: String::new() }),
        Err(error) => Err(error),
    }
}

/// No lease outlives its expiration unnoticed: when the expired records are collected, every lease
/// whose time has come is among them.
pub proof fn law_expired_leases_are_found(
    before: MasterLeaseManager,
    after: MasterLeaseManager,
    expired: Seq<ExpireRecord>,
    now: u64,
    id: u64,
)
    requires
        before.covers(Seq::empty()),
        expired.to_multiset().add(after.records()) == before.records(),
        forall|record: ExpireRecord| #[trigger]
            after.records().contains(record) ==> record.0 > now,
        before.leases().contains_key(id),
        before.leases()[id].expiration_time <= now,
    ensures
        expired.contains((before.leases()[id].expiration_time, id)),
{
    broadcast use vstd::multiset::group_multiset_axioms;

    expired.to_multiset_ensures();
    let record = (before.leases()[id].expiration_time, id);
    assert(before.records().contains(record));
    assert(!after.records().contains(record));
    assert(expired.to_multiset().contains(record));
}

/// A lease that is granted gets an id of its own: no lease that is there is touched, and the list of
/// leases gains just that id.
pub proof fn law_granted_lease_is_new(
    before: MasterLeaseManager,
    after: MasterLeaseManager,
    id: LeaseID,
    ttl: LeaseSecTTl,
    now: u64,
)
    requires
        before.next_free(id),
        before.stored(after, LeaseModel::granted(id, ttl, now)),
    ensures
        after.leases()[id] == LeaseModel::granted(id, ttl, now),
        forall|other: u64| #[trigger]
            after.leases().contains_key(other) <==> before.leases().contains_key(other) || other
                == id,
        forall|other: u64| #[trigger]
            before.leases().contains_key(other) ==> other != id && after.leases()[other]
                == before.leases()[other],
{
}

/// A lease that was kept alive is not cleaned up before the time that the keepalive set: no record
/// that expires earlier is true of it.
pub proof fn law_keepalive_defers_cleanup(
    lease: LeaseModel,
    custom_ttl: Option<u64>,
    now: u64,
    record: ExpireRecord,
)
    requires
        lease.state == LeaseState::Active,
        lease.can_refresh(custom_ttl, now),
        record.0 < now + lease.refresh_ttl(custom_ttl) * 1000,
    ensures
        lease.refreshed(custom_ttl, now).0.expiration_time != record.0,
{
}

/// A key that was put again, under another version, survives the cleanup of the lease that its
/// earlier version was attached to.
pub proof fn law_key_put_again_survives(
    keys: Map<Seq<char>, PutIDForAKey>,
    routes: Map<Seq<char>, RouteModel>,
    key: Seq<char>,
)
    requires
        keys.contains_key(key),
        routes.contains_key(key),
        routes[key].put_id != keys[key],
    ensures
        !keys_to_delete(keys, routes).contains(key),
{
}

/// A key whose current version was attached to the lease is deleted with it.
pub proof fn law_attached_key_is_deleted(
    keys: Map<Seq<char>, PutIDForAKey>,
    routes: Map<Seq<char>, RouteModel>,
    key: Seq<char>,
)
    requires
        keys.contains_key(key),
        routes.contains_key(key),
        routes[key].put_id == keys[key],
    ensures
        keys_to_delete(keys, routes).contains(key),
{
}

/// An expired lease takes no keys and no renewal.
pub proof fn law_expired_lease_is_inert(
    lease: LeaseModel,
    key: Seq<char>,
    put_id: PutIDForAKey,
    custom_ttl: Option<u64>,
    now: u64,
)
    requires
        lease.state == LeaseState::Expired,
    ensures
        lease.attached(key, put_id).0 == lease,
        lease.attached(key, put_id).1 is Err,
        lease.refreshed(custom_ttl, now).0 == lease,
        lease.refreshed(custom_ttl, now).1 is Err,
{
}

} // verus!
