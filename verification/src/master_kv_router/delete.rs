//! Taking keys out of the routes.

use super::routes::{OneKvNodesRoutes, RouteModel};
use super::MasterKvRouter;
use vstd::prelude::*;

verus! {

/// What taking a key out does: its route goes, and its entry in the index with it.
pub open spec fn deleted(
    before: MasterKvRouter,
    after: MasterKvRouter,
    key: Seq<char>,
    route: Option<RouteModel>,
) -> bool {
    &&& route == if before.kv_routes@.contains_key(key) {
        Some(before.kv_routes@[key])
    } else {
        None
    }
    &&& after.kv_routes@ == before.kv_routes@.remove(key)
    &&& after.prefix_index@ == super::reindexed(before, after.kv_routes@, key)
    &&& after == (MasterKvRouter {
        kv_routes: after.kv_routes,
        prefix_index: after.prefix_index,
        ..before
    })
}

impl MasterKvRouter {
    /// Takes a key out, with all its replicas, and returns its route: the replicas are to be deleted
    /// on their nodes. None where there is no such key.
    pub fn do_delete_one_kv_all_replicas(&mut self, key: &str) -> (route: Option<OneKvNodesRoutes>)
        requires
            old(self).wf(),
        ensures
            final(self).wf(),
            deleted(
                *old(self),
                *final(self),
                key@,
                match route {
                    Some(route) => Some(route@),
                    None => None,
                },
            ),
    {
        broadcast use vstd::multiset::group_multiset_axioms;

        let route = self.kv_routes.remove(key);
        if route.is_some() && self.prefix_index_enabled() {
            self.prefix_index.remove(key);
        }
        assert forall|k: Seq<char>| #[trigger] self.kv_routes@.contains_key(k) implies
            self.route_wf(k, self.kv_routes@[k]) by {
            assert(old(self).route_wf(k, old(self).kv_routes@[k]));
        }
        route
    }
}

/// A key that is put and then deleted leaves every count as it was before, if it was not there.
pub proof fn law_deleted_key_is_not_counted(
    before: MasterKvRouter,
    put: MasterKvRouter,
    after: MasterKvRouter,
    key: Seq<char>,
    put_id: super::put::PutIDForAKey,
    lease_id: Option<u64>,
    replica: super::routes::KvRouteInfo,
    released: Seq<crate::master_seg_manager::one_seg_allocator::Allocation>,
    outcome: super::put::PutDoneOutcome,
    route: Option<RouteModel>,
    prefix: Seq<char>,
)
    requires
        super::put::committed(before, put, key, put_id, lease_id, replica, released, outcome),
        deleted(put, after, key, route),
        !before.kv_routes@.contains_key(key),
    ensures
        route matches Some(route) && route.put_id == put_id && route.replicas == seq![replica],
        super::routed_keys_with_prefix(after.kv_routes@, prefix) == super::routed_keys_with_prefix(
            before.kv_routes@,
            prefix,
        ),
        after.prefix_index@ == before.prefix_index@,
{
    broadcast use vstd::multiset::group_multiset_axioms;

    assert(after.kv_routes@.dom() =~= before.kv_routes@.dom());
    assert(after.prefix_index@ =~= before.prefix_index@);
}

} // verus!
