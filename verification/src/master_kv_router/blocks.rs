//! Which blocks are in use.
//!
//! A block may be shared: a get that finds the value on the requester reads it where it is. Whoever
//! lets go of a block frees it only if nothing else uses it.

use super::get::{InflightGetInfo, OwnerHoldingGetInfo};
use super::routes::{KvRouteInfo, RouteModel};
use super::MasterKvRouter;
use crate::master_seg_manager::one_seg_allocator::Allocation;
use crate::text;
use vstd::prelude::*;

verus! {

/// One of the replicas is in the block.
pub open spec fn replica_in(replicas: Seq<KvRouteInfo>, block: Allocation) -> bool {
    exists|i: int| 0 <= i < replicas.len() && (#[trigger] replicas[i]).allocation.shares_block(block)
}

/// A get of the key is in flight that fills or reads the block.
pub open spec fn get_in(
    gets: Map<u64, InflightGetInfo>,
    key: Seq<char>,
    block: Allocation,
) -> bool {
    exists|id: u64| #[trigger] gets.contains_key(id) && gets[id].uses(key, block)
}

/// A value of the key is in the block, or a get of the key fills or reads it.
pub open spec fn in_use(
    routes: Map<Seq<char>, RouteModel>,
    gets: Map<u64, InflightGetInfo>,
    key: Seq<char>,
    block: Allocation,
) -> bool {
    ||| routes.contains_key(key) && replica_in(routes[key].replicas, block)
    ||| get_in(gets, key, block)
}

impl InflightGetInfo {
    /// The get is of the key, and fills or reads the block.
    pub open spec fn uses(self, key: Seq<char>, block: Allocation) -> bool {
        self.key@ == key && self.allocation.shares_block(block)
    }
}

impl OwnerHoldingGetInfo {
    /// The value that is held is one of the key, in the block.
    pub fn holds_block(&self, key: &str, block: &Allocation) -> (holds: bool)
        ensures
            holds == (self.key@ == key@ && self.allocation.shares_block(*block)),
    {
        text::same_text(self.key.as_str(), key) && self.allocation.same_block(block)
    }
}

impl MasterKvRouter {
    fn has_replica_in(&self, key: &str, block: &Allocation) -> (has: bool)
        ensures
            has == (self.kv_routes@.contains_key(key@) && replica_in(
                self.kv_routes@[key@].replicas,
                *block,
            )),
    {
        let route = match self.kv_routes.get(key) {
            Some(route) => route,
            None => {
                return false;
            },
        };
        let mut i: usize = 0;
        while i < route.nodes_replicas.len()
            invariant
                i <= route.nodes_replicas@.len(),
                self.kv_routes@.contains_key(key@),
                self.kv_routes@[key@].replicas == route.nodes_replicas@,
                forall|k: int|
                    0 <= k < i ==> !(#[trigger] route.nodes_replicas@[k]).allocation.shares_block(
                        *block,
                    ),
            decreases route.nodes_replicas@.len() - i,
        {
            if route.nodes_replicas[i].allocation.same_block(block) {
                assert(replica_in(route.nodes_replicas@, *block));
                return true;
            }
            i = i + 1;
        }
        false
    }

    fn has_get_in(&self, key: &str, block: &Allocation) -> (has: bool)
        ensures
            has == get_in(self.inflight_gets@, key@, *block),
    {
        broadcast use vstd::std_specs::hash::group_hash_axioms;

        let ghost gets = self.inflight_gets@;
        for get in it: self.inflight_gets.values()
            invariant
                gets == self.inflight_gets@,
                it.seq().unref().to_set() == gets.values(),
                forall|i: int|
                    0 <= i < it.index() ==> !(*#[trigger] it.seq()[i]).uses(key@, *block),
        {
            if text::same_text(get.key.as_str(), key) && get.allocation.same_block(block) {
                proof {
                    assert(it.seq()[it.index() as int] == get);
                    assert(it.seq().unref()[it.index() as int] == *get);
                    assert(it.seq().unref().to_set().contains(*get));
                    assert(gets.values().contains(*get));
                    let id = choose|id: u64| #[trigger] gets.dom().contains(id) && gets[id] == *get;
                    assert(gets.contains_key(id) && gets[id].uses(key@, *block));
                }
                return true;
            }
        }
        proof {
            assert forall|id: u64| #[trigger] gets.contains_key(id) implies !gets[id].uses(
                key@,
                *block,
            ) by {
                assert(gets.values().contains(gets[id]));
            }
        }
        false
    }

    /// Whether a value of the key is in the block, or a get of the key fills or reads it.
    pub fn block_in_use(&self, key: &str, block: &Allocation) -> (used: bool)
        ensures
            used == in_use(self.kv_routes@, self.inflight_gets@, key@, *block),
    {
        self.has_replica_in(key, block) || self.has_get_in(key, block)
    }
}

/// The block of a value that was put is in use, and so is that of a get that was started, until the
/// get ends.
pub proof fn law_blocks_of_values_are_in_use(
    before: MasterKvRouter,
    put: MasterKvRouter,
    key: Seq<char>,
    put_id: super::put::PutIDForAKey,
    lease_id: Option<u64>,
    replica: KvRouteInfo,
    released: Seq<Allocation>,
    put_outcome: super::put::PutDoneOutcome,
    asked: MasterKvRouter,
    started: MasterKvRouter,
    get: super::get::StartingGet,
    target: Allocation,
    mode: super::msg_pack::GetAllocationMode,
    step: super::get::GetStartStep,
)
    ensures
        super::put::committed(before, put, key, put_id, lease_id, replica, released, put_outcome)
            ==> in_use(put.kv_routes@, put.inflight_gets@, key, replica.allocation),
        super::get::get_started(asked, started, get, target, mode, step) ==> in_use(
            started.kv_routes@,
            started.inflight_gets@,
            get.key@,
            target,
        ),
{
    if super::put::committed(before, put, key, put_id, lease_id, replica, released, put_outcome) {
        let route = put.kv_routes@[key];
        assert(route.replicas[0] == replica);
    }
    if super::get::get_started(asked, started, get, target, mode, step) {
        let gets = started.inflight_gets@;
        assert(gets.contains_key(get.get_id) && gets[get.get_id].uses(get.key@, target));
    }
}

/// A get that read the value in place and ended leaves the block to the replica.
pub proof fn law_ended_get_leaves_the_replica(
    before: MasterKvRouter,
    after: MasterKvRouter,
    get_id: u64,
    dropped: Option<InflightGetInfo>,
    key: Seq<char>,
    block: Allocation,
)
    requires
        super::get::get_dropped(before, after, get_id, dropped),
        before.kv_routes@.contains_key(key),
        replica_in(before.kv_routes@[key].replicas, block),
    ensures
        in_use(after.kv_routes@, after.inflight_gets@, key, block),
{
    assert(after.kv_routes@[key].replicas == before.kv_routes@[key].replicas);
}

} // verus!
