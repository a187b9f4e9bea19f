//! Where the values are: the routes of each key.

use super::put::PutIDForAKey;
use crate::cluster_manager::NodeID;
use crate::master_seg_manager::one_seg_allocator::Allocation;
use crate::master_seg_manager::{NodeTombTag, TombBoard};
use crate::text;
use dashmap::DashMap;
use vstd::prelude::*;

verus! {

/// How many replicas of a value gets may add for good.
pub const MAX_GET_DURABLE_REPLICA_SLOTS: u32 = 2;

/// One replica of a value.
pub struct KvRouteInfo {
    pub node_id: NodeID,
    pub allocation: Allocation,
    pub tomb_tag: NodeTombTag,
}

impl KvRouteInfo {
    pub fn duplicate(&self) -> (copy: Self)
        ensures
            copy == *self,
    {
        KvRouteInfo {
            node_id: self.node_id.clone(),
            allocation: self.allocation,
            tomb_tag: self.tomb_tag,
        }
    }
}

/// The replicas of the current version of a key.
pub struct OneKvNodesRoutes {
    /// the version id for a kv put operation
    pub put_id: PutIDForAKey,
    /// Lease binding of this key-version, set when the put completes and never changed: `None` means
    /// "not leased" for this exact `put_id`. A leased key must stay out of the replica caches, so
    /// that only the lease's cleanup deletes it.
    pub lease_id: Option<u64>,
    /// Replicas, at most one per node.
    pub nodes_replicas: Vec<KvRouteInfo>,
    pub get_durable_slots_used: u32,
    /// Tells this route from earlier and later ones of the same key.
    pub route_id: u64,
}

/// Model of [`OneKvNodesRoutes`].
pub struct RouteModel {
    pub put_id: PutIDForAKey,
    pub lease_id: Option<u64>,
    pub replicas: Seq<KvRouteInfo>,
    pub slots: u32,
    pub route_id: u64,
}

impl View for OneKvNodesRoutes {
    type V = RouteModel;

    open spec fn view(&self) -> RouteModel {
        RouteModel {
            put_id: self.put_id,
            lease_id: self.lease_id,
            replicas: self.nodes_replicas@,
            slots: self.get_durable_slots_used,
            route_id: self.route_id,
        }
    }
}

/// `names` holds the text `name`.
pub open spec fn names_contain(names: Seq<String>, name: Seq<char>) -> bool {
    exists|i: int| 0 <= i < names.len() && (#[trigger] names[i])@ == name
}

/// The replicas that are not on one of the nodes.
pub open spec fn replicas_off(replicas: Seq<KvRouteInfo>, nodes: Seq<String>) -> Seq<KvRouteInfo>
    decreases replicas.len(),
{
    if replicas.len() == 0 {
        Seq::empty()
    } else {
        let before = replicas_off(replicas.drop_last(), nodes);
        if names_contain(nodes, replicas.last().node_id@) {
            before
        } else {
            before.push(replicas.last())
        }
    }
}

/// The replicas that are on one of the nodes.
pub open spec fn replicas_on(replicas: Seq<KvRouteInfo>, nodes: Seq<String>) -> Seq<KvRouteInfo>
    decreases replicas.len(),
{
    if replicas.len() == 0 {
        Seq::empty()
    } else {
        let before = replicas_on(replicas.drop_last(), nodes);
        if names_contain(nodes, replicas.last().node_id@) {
            before.push(replicas.last())
        } else {
            before
        }
    }
}

/// The position of the first replica on a node.
pub open spec fn replica_index(replicas: Seq<KvRouteInfo>, node_id: Seq<char>) -> Option<int>
    decreases replicas.len(),
{
    if replicas.len() == 0 {
        None
    } else {
        match replica_index(replicas.drop_last(), node_id) {
            Some(i) => Some(i),
            None => if replicas.last().node_id@ == node_id {
                Some(replicas.len() - 1)
            } else {
                None
            },
        }
    }
}

impl RouteModel {
    /// No two replicas are on one node, their blocks are sound, and no more durable slots are used
    /// than there are.
    pub open spec fn wf(self) -> bool {
        &&& self.slots <= MAX_GET_DURABLE_REPLICA_SLOTS
        &&& forall|i: int|
            0 <= i < self.replicas.len() ==> (#[trigger] self.replicas[i]).allocation.sound()
        &&& forall|i: int, j: int|
            0 <= i < j < self.replicas.len() ==> (#[trigger] self.replicas[i]).node_id@ != (
            #[trigger] self.replicas[j]).node_id@
    }

    /// A route without replicas.
    pub open spec fn fresh(put_id: PutIDForAKey, lease_id: Option<u64>, route_id: u64) -> RouteModel {
        RouteModel { put_id, lease_id, replicas: Seq::empty(), slots: 0, route_id }
    }

    /// The replica on a node.
    pub open spec fn replica_on(self, node_id: Seq<char>) -> Option<KvRouteInfo> {
        match replica_index(self.replicas, node_id) {
            Some(i) => Some(self.replicas[i]),
            None => None,
        }
    }

    /// The route with a replica put in place of the one on the same node, or added.
    pub open spec fn with_replica(self, replica: KvRouteInfo) -> RouteModel {
        RouteModel {
            replicas: match replica_index(self.replicas, replica.node_id@) {
                Some(i) => self.replicas.update(i, replica),
                None => self.replicas.push(replica),
            },
            ..self
        }
    }

    /// Some replica on a node that is not gone holds a value of this size.
    pub open spec fn has_living_replica_of_size(self, marks: Seq<bool>, size: u64) -> bool {
        exists|i: int|
            0 <= i < self.replicas.len() && !(#[trigger] self.replicas[i]).tomb_tag.tombed(marks)
                && self.replicas[i].allocation.size == size
    }

    /// Some replica is on a node that is not gone.
    pub open spec fn has_living_replica(self, marks: Seq<bool>) -> bool {
        exists|i: int|
            0 <= i < self.replicas.len() && !(#[trigger] self.replicas[i]).tomb_tag.tombed(marks)
    }
}

/// Where [`replica_index`] finds a replica, and where it does not.
pub proof fn lemma_replica_index(replicas: Seq<KvRouteInfo>, node_id: Seq<char>)
    ensures
        match replica_index(replicas, node_id) {
            Some(i) => 0 <= i < replicas.len() && replicas[i].node_id@ == node_id,
            None => forall|i: int|
                0 <= i < replicas.len() ==> (#[trigger] replicas[i]).node_id@ != node_id,
        },
    decreases replicas.len(),
{
    if replicas.len() > 0 {
        let before = replicas.drop_last();
        lemma_replica_index(before, node_id);
        if replica_index(replicas, node_id) is None {
            assert forall|i: int| 0 <= i < replicas.len() implies (#[trigger] replicas[i]).node_id@
                != node_id by {
                if i < before.len() {
                    assert(before[i] == replicas[i]);
                }
            }
        }
    }
}

/// Every replica that stays was there before, and in the same order.
pub proof fn lemma_replicas_off(replicas: Seq<KvRouteInfo>, nodes: Seq<String>)
    ensures
        replicas_off(replicas, nodes).len() <= replicas.len(),
        forall|i: int|
            0 <= i < replicas_off(replicas, nodes).len() ==> {
                &&& replicas.contains(#[trigger] replicas_off(replicas, nodes)[i])
                &&& !names_contain(nodes, replicas_off(replicas, nodes)[i].node_id@)
            },
        forall|k: int|
            0 <= k < replicas.len() && !names_contain(nodes, (#[trigger] replicas[k]).node_id@)
                ==> replicas_off(replicas, nodes).contains(replicas[k]),
    decreases replicas.len(),
{
    if replicas.len() > 0 {
        let before = replicas.drop_last();
        let kept = replicas_off(replicas, nodes);
        lemma_replicas_off(before, nodes);
        assert forall|i: int| 0 <= i < kept.len() implies {
            &&& replicas.contains(#[trigger] kept[i])
            &&& !names_contain(nodes, kept[i].node_id@)
        } by {
            if i < replicas_off(before, nodes).len() {
                assert(before.contains(replicas_off(before, nodes)[i]));
                let k = choose|k: int| 0 <= k < before.len() && before[k] == kept[i];
                assert(replicas[k] == kept[i]);
            } else {
                assert(replicas[replicas.len() - 1] == kept[i]);
            }
        }
        assert forall|k: int|
            0 <= k < replicas.len() && !names_contain(
                nodes,
                (#[trigger] replicas[k]).node_id@,
            ) implies kept.contains(replicas[k]) by {
            if k < before.len() {
                assert(before[k] == replicas[k]);
                let i = choose|i: int|
                    0 <= i < replicas_off(before, nodes).len() && replicas_off(before, nodes)[i]
                        == before[k];
                assert(kept[i] == replicas[k]);
            } else {
                assert(kept[kept.len() - 1] == replicas[k]);
            }
        }
    }
}

/// Dropping replicas keeps the rest on distinct nodes.
pub proof fn lemma_replicas_off_distinct(route: RouteModel, nodes: Seq<String>)
    requires
        route.wf(),
    ensures
        (RouteModel { replicas: replicas_off(route.replicas, nodes), ..route }).wf(),
    decreases route.replicas.len(),
{
    let replicas = route.replicas;
    if replicas.len() > 0 {
        let shorter = RouteModel { replicas: replicas.drop_last(), ..route };
        assert(shorter.wf()) by {
            assert forall|i: int, j: int| 0 <= i < j < shorter.replicas.len() implies (
            #[trigger] shorter.replicas[i]).node_id@ != (
            #[trigger] shorter.replicas[j]).node_id@ by {
                assert(replicas[i].node_id@ != replicas[j].node_id@);
            }
        }
        lemma_replicas_off_distinct(shorter, nodes);
        lemma_replicas_off(replicas.drop_last(), nodes);
        let kept = replicas_off(replicas, nodes);
        let before = replicas_off(replicas.drop_last(), nodes);
        assert forall|i: int, j: int| 0 <= i < j < kept.len() implies (
        #[trigger] kept[i]).node_id@ != (#[trigger] kept[j]).node_id@ by {
            assert(kept[i] == before[i]);
            if j < before.len() {
                let rest = RouteModel { replicas: before, ..shorter };
                assert(rest.replicas[i].node_id@ != rest.replicas[j].node_id@);
            } else {
                let k = choose|k: int|
                    0 <= k < replicas.drop_last().len() && replicas.drop_last()[k] == before[i];
                assert(replicas[k].node_id@ != replicas[replicas.len() - 1].node_id@);
            }
        }
    }
}

/// Putting a replica in keeps the replicas on distinct nodes.
pub proof fn lemma_with_replica_wf(route: RouteModel, replica: KvRouteInfo)
    requires
        route.wf(),
        replica.allocation.sound(),
    ensures
        route.with_replica(replica).wf(),
        route.with_replica(replica).replicas.contains(replica),
{
    lemma_replica_index(route.replicas, replica.node_id@);
    let after = route.with_replica(replica);
    match replica_index(route.replicas, replica.node_id@) {
        Some(at) => {
            assert(after.replicas[at] == replica);
            assert forall|i: int, j: int| 0 <= i < j < after.replicas.len() implies (
            #[trigger] after.replicas[i]).node_id@ != (#[trigger] after.replicas[j]).node_id@ by {
                assert(route.replicas[i].node_id@ != route.replicas[j].node_id@);
            }
        },
        None => {
            assert(after.replicas[after.replicas.len() - 1] == replica);
            assert forall|i: int, j: int| 0 <= i < j < after.replicas.len() implies (
            #[trigger] after.replicas[i]).node_id@ != (#[trigger] after.replicas[j]).node_id@ by {
                if j < route.replicas.len() {
                    assert(route.replicas[i].node_id@ != route.replicas[j].node_id@);
                } else {
                    assert(route.replicas[i].node_id@ != replica.node_id@);
                }
            }
        },
    }
}

/// `names` holds the text `name`.
pub fn contains_name(names: &Vec<String>, name: &str) -> (found: bool)
    ensures
        found == names_contain(names@, name@),
{
    let mut i: usize = 0;
    while i < names.len()
        invariant
            i <= names@.len(),
            forall|j: int| 0 <= j < i ==> (#[trigger] names@[j])@ != name@,
        decreases names@.len() - i,
    {
        if text::same_text(names[i].as_str(), name) {
            assert(names@[i as int]@ == name@);
            return true;
        }
        i = i + 1;
    }
    false
}

impl OneKvNodesRoutes {
    pub fn new(put_id: PutIDForAKey, lease_id: Option<u64>, route_id: u64) -> (routes: Self)
        ensures
            routes@ == RouteModel::fresh(put_id, lease_id, route_id),
    {
        OneKvNodesRoutes {
            put_id,
            lease_id,
            nodes_replicas: Vec::new(),
            get_durable_slots_used: 0,
            route_id,
        }
    }

    pub(crate) fn duplicate(&self) -> (copy: Self)
        ensures
            copy@ == self@,
    {
        let mut replicas: Vec<KvRouteInfo> = Vec::new();
        let mut i: usize = 0;
        while i < self.nodes_replicas.len()
            invariant
                i <= self.nodes_replicas@.len(),
                replicas@ =~= self.nodes_replicas@.take(i as int),
            decreases self.nodes_replicas@.len() - i,
        {
            replicas.push(self.nodes_replicas[i].duplicate());
            i = i + 1;
        }
        assert(replicas@ =~= self.nodes_replicas@);
        OneKvNodesRoutes {
            put_id: self.put_id,
            lease_id: self.lease_id,
            nodes_replicas: replicas,
            get_durable_slots_used: self.get_durable_slots_used,
            route_id: self.route_id,
        }
    }

    /// Drops the replicas on the nodes that are gone and returns them, unless the route is of
    /// another version.
    pub fn clean_up_tomb_nodes_replicas(
        &mut self,
        verify_put_id: PutIDForAKey,
        tombs: &Vec<NodeID>,
    ) -> (dropped: Option<Vec<KvRouteInfo>>)
        ensures
            match dropped {
                None => old(self)@.put_id != verify_put_id && final(self)@ == old(self)@,
                Some(dropped) => {
                    &&& old(self)@.put_id == verify_put_id
                    &&& dropped@ == replicas_on(old(self)@.replicas, tombs@)
                    &&& final(self)@ == (RouteModel {
                        replicas: replicas_off(old(self)@.replicas, tombs@),
                        ..old(self)@
                    })
                },
            },
    {
        if self.put_id.0 != verify_put_id.0 || self.put_id.1 != verify_put_id.1 {
            return None;
        }
        let mut kept: Vec<KvRouteInfo> = Vec::new();
        let mut dropped: Vec<KvRouteInfo> = Vec::new();
        let mut i: usize = 0;
        while i < self.nodes_replicas.len()
            invariant
                i <= self.nodes_replicas@.len(),
                self@ == old(self)@,
                kept@ == replicas_off(self.nodes_replicas@.take(i as int), tombs@),
                dropped@ == replicas_on(self.nodes_replicas@.take(i as int), tombs@),
            decreases self.nodes_replicas@.len() - i,
        {
            assert(self.nodes_replicas@.take(i + 1).drop_last() =~= self.nodes_replicas@.take(
                i as int,
            ));
            if contains_name(tombs, self.nodes_replicas[i].node_id.as_str()) {
                dropped.push(self.nodes_replicas[i].duplicate());
            } else {
                kept.push(self.nodes_replicas[i].duplicate());
            }
            i = i + 1;
        }
        assert(self.nodes_replicas@.take(i as int) =~= self.nodes_replicas@);
        self.nodes_replicas = kept;
        Some(dropped)
    }

    /// Takes a slot for a replica that a get adds for good, if one is left.
    pub fn try_reserve_get_durable_slot(&mut self) -> (reserved: bool)
        ensures
            reserved == (old(self)@.slots < MAX_GET_DURABLE_REPLICA_SLOTS),
            final(self)@ == (RouteModel {
                slots: if reserved {
                    (old(self)@.slots + 1) as u32
                } else {
                    old(self)@.slots
                },
                ..old(self)@
            }),
    {
        if self.get_durable_slots_used < MAX_GET_DURABLE_REPLICA_SLOTS {
            self.get_durable_slots_used = self.get_durable_slots_used + 1;
            true
        } else {
            false
        }
    }

    /// Gives back a slot that was reserved.
    pub fn release_get_durable_slot(&mut self)
        requires
            old(self)@.slots > 0,
        ensures
            final(self)@ == (RouteModel { slots: (old(self)@.slots - 1) as u32, ..old(self)@ }),
    {
        self.get_durable_slots_used = self.get_durable_slots_used - 1;
    }

    /// The position of the replica on a node.
    pub fn find_replica(&self, node_id: &str) -> (found: Option<usize>)
        ensures
            match found {
                Some(i) => replica_index(self@.replicas, node_id@) == Some(i as int) && i
                    < self.nodes_replicas@.len(),
                None => replica_index(self@.replicas, node_id@) is None,
            },
    {
        let mut i: usize = 0;
        let mut found: Option<usize> = None;
        while i < self.nodes_replicas.len()
            invariant
                i <= self.nodes_replicas@.len(),
                match found {
                    Some(at) => at < i && replica_index(
                        self.nodes_replicas@.take(i as int),
                        node_id@,
                    ) == Some(at as int),
                    None => replica_index(self.nodes_replicas@.take(i as int), node_id@) is None,
                },
            decreases self.nodes_replicas@.len() - i,
        {
            assert(self.nodes_replicas@.take(i + 1).drop_last() =~= self.nodes_replicas@.take(
                i as int,
            ));
            if found.is_none() && text::same_text(
                self.nodes_replicas[i].node_id.as_str(),
                node_id,
            ) {
                found = Some(i);
            }
            i = i + 1;
        }
        assert(self.nodes_replicas@.take(i as int) =~= self.nodes_replicas@);
        found
    }

    /// Puts a replica in place of the one on the same node, which is returned, or adds it.
    pub fn insert_replica(&mut self, replica: KvRouteInfo) -> (replaced: Option<KvRouteInfo>)
        ensures
            final(self)@ == old(self)@.with_replica(replica),
            replaced == old(self)@.replica_on(replica.node_id@),
    {
        match self.find_replica(replica.node_id.as_str()) {
            Some(i) => {
                let replaced = self.nodes_replicas[i].duplicate();
                self.nodes_replicas.set(i, replica);
                Some(replaced)
            },
            None => {
                self.nodes_replicas.push(replica);
                None
            },
        }
    }

    /// The value size that some living replica records, if there is one.
    pub fn living_size(&self, board: &TombBoard) -> (size: Option<u64>)
        ensures
            match size {
                Some(size) => self@.has_living_replica_of_size(board@, size),
                None => !self@.has_living_replica(board@),
            },
    {
        let mut i: usize = 0;
        while i < self.nodes_replicas.len()
            invariant
                i <= self.nodes_replicas@.len(),
                forall|j: int|
                    0 <= j < i ==> (#[trigger] self.nodes_replicas@[j]).tomb_tag.tombed(board@),
            decreases self.nodes_replicas@.len() - i,
        {
            if !self.nodes_replicas[i].tomb_tag.is_tomb(board) {
                let size: u64 = self.nodes_replicas[i].allocation.size();
                assert(!self@.replicas[i as int].tomb_tag.tombed(board@));
                return Some(size);
            }
            i = i + 1;
        }
        None
    }
}

/// The routes that a map holds, by key.
pub uninterp spec fn key_routes(map: DashMap<String, OneKvNodesRoutes>) -> Map<
    Seq<char>,
    RouteModel,
>;

/// `DashMap::new` makes a map that holds nothing.
#[verifier::external_body]
fn routes_new() -> (map: DashMap<String, OneKvNodesRoutes>)
    ensures
        (key_routes(map) == Map::<Seq<char>, RouteModel>::empty()),
{
    DashMap::new()
}

/// `DashMap::insert` stores the value under the key and returns the value that it replaced.
#[verifier::external_body]
fn routes_insert(
    map: &mut DashMap<String, OneKvNodesRoutes>,
    key: String,
    route: OneKvNodesRoutes,
) -> (replaced: Option<OneKvNodesRoutes>)
    ensures
        key_routes(*final(map)) == key_routes(*old(map)).insert(key@, route@),
        match replaced {
            Some(replaced) => key_routes(*old(map)).contains_key(key@) && replaced@ == key_routes(
                *old(map),
            )[key@],
            None => !key_routes(*old(map)).contains_key(key@),
        },
{
    map.insert(key, route)
}

/// `DashMap::get` finds the value stored under the key; the value is handed out as a copy.
#[verifier::external_body]
fn routes_get(map: &DashMap<String, OneKvNodesRoutes>, key: &str) -> (route: Option<
    OneKvNodesRoutes,
>)
    ensures
        match route {
            Some(route) => key_routes(*map).contains_key(key@) && route@ == key_routes(*map)[key@],
            None => !key_routes(*map).contains_key(key@),
        },
{
    map.get(key).map(|entry| entry.value().duplicate())
}

/// `DashMap::remove` takes out the value stored under the key, if there is one.
#[verifier::external_body]
fn routes_remove(map: &mut DashMap<String, OneKvNodesRoutes>, key: &str) -> (route: Option<
    OneKvNodesRoutes,
>)
    ensures
        key_routes(*final(map)) == key_routes(*old(map)).remove(key@),
        match route {
            Some(route) => key_routes(*old(map)).contains_key(key@) && route@ == key_routes(
                *old(map),
            )[key@],
            None => !key_routes(*old(map)).contains_key(key@),
        },
{
    map.remove(key).map(|entry| entry.1)
}

/// `DashMap::iter` walks every key once, in an order that is not specified.
#[verifier::external_body]
fn routes_keys(map: &DashMap<String, OneKvNodesRoutes>) -> (keys: Vec<String>)
    ensures
        crate::dash::lists_keys(keys@, key_routes(*map).dom()),
{
    map.iter().map(|entry| entry.key().clone()).collect()
}

/// Latest version of key-value replicas, by key.
pub struct KvRoutes {
    routes: DashMap<String, OneKvNodesRoutes>,
}

impl View for KvRoutes {
    type V = Map<Seq<char>, RouteModel>;

    closed spec fn view(&self) -> Map<Seq<char>, RouteModel> {
        key_routes(self.routes)
    }
}

impl KvRoutes {
    pub fn new() -> (routes: Self)
        ensures
            routes@ == Map::<Seq<char>, RouteModel>::empty(),
    {
        KvRoutes { routes: routes_new() }
    }

    /// Stores the route of a key and returns the one that it replaces.
    pub fn insert(&mut self, key: String, route: OneKvNodesRoutes) -> (replaced: Option<
        OneKvNodesRoutes,
    >)
        ensures
            final(self)@ == old(self)@.insert(key@, route@),
            match replaced {
                Some(replaced) => old(self)@.contains_key(key@) && replaced@ == old(self)@[key@],
                None => !old(self)@.contains_key(key@),
            },
    {
        routes_insert(&mut self.routes, key, route)
    }

    /// A copy of the route of a key.
    pub fn get(&self, key: &str) -> (route: Option<OneKvNodesRoutes>)
        ensures
            match route {
                Some(route) => self@.contains_key(key@) && route@ == self@[key@],
                None => !self@.contains_key(key@),
            },
    {
        routes_get(&self.routes, key)
    }

    /// Takes out the route of a key.
    pub fn remove(&mut self, key: &str) -> (route: Option<OneKvNodesRoutes>)
        ensures
            final(self)@ == old(self)@.remove(key@),
            match route {
                Some(route) => old(self)@.contains_key(key@) && route@ == old(self)@[key@],
                None => !old(self)@.contains_key(key@),
            },
    {
        routes_remove(&mut self.routes, key)
    }

    /// The keys that have a route, each once.
    pub fn keys(&self) -> (keys: Vec<String>)
        ensures
            crate::dash::lists_keys(keys@, self@.dom()),
    {
        routes_keys(&self.routes)
    }
}

} // verus!
