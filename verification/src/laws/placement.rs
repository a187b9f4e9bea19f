//! Placement: the preferred nodes first, then what there is, and only where memory can be had.

use crate::cluster_manager::{ClusterMember, NodeID};
use crate::error::{ApiErrorOf, KvErrorOf};
use crate::master_kv_router::placement::{
    LocalFirstPlacementPolicy, PlacementPolicy, PlacementSearch, PlacementStep, PutPlacementTarget,
    RandomPlacementPolicy,
};
use crate::master_seg_manager::one_seg_allocator::OneSegAllocator;
use crate::master_seg_manager::MasterSegManager;
use vstd::prelude::*;

verus! {

/// The node lives and has a segment.
pub open spec fn has_room(manager: MasterSegManager, node_id: Seq<char>) -> bool {
    crate::laws::segments::living(manager, node_id) && manager.nodes()[node_id].allocators.len() > 0
}

/// The segment is one of the node's, and the node lives.
pub open spec fn is_segment_of(
    manager: MasterSegManager,
    node_id: Seq<char>,
    segment: OneSegAllocator,
) -> bool {
    crate::laws::segments::living(manager, node_id) && manager.nodes()[node_id].allocators.contains(
        segment,
    )
}

/// A member with this id is in the sub-cluster.
pub open spec fn is_member_of(
    members: Seq<ClusterMember>,
    sub_cluster: Seq<char>,
    node_id: Seq<char>,
) -> bool {
    exists|i: int|
        0 <= i < members.len() && (#[trigger] members[i]).id@ == node_id
            && members[i].sub_cluster is Some && members[i].sub_cluster->0@ == sub_cluster
}

/// The node is in the list.
pub open spec fn is_among(nodes: Seq<NodeID>, node_id: Seq<char>) -> bool {
    exists|i: int| 0 <= i < nodes.len() && (#[trigger] nodes[i])@ == node_id
}

/// A request prefers just the members of the sub-cluster that it names, and no node where it names
/// none.
pub proof fn law_the_named_sub_cluster_is_preferred(
    members: Seq<ClusterMember>,
    sub_cluster: Option<Seq<char>>,
    node_id: Seq<char>,
)
    ensures
        is_among(
            crate::master_kv_router::placement::preferred_nodes(members, sub_cluster),
            node_id,
        ) <==> sub_cluster is Some && is_member_of(members, sub_cluster->0, node_id),
    decreases members.len(),
{
    if let Some(name) = sub_cluster {
        if members.len() > 0 {
            let rest = members.drop_last();
            law_the_named_sub_cluster_is_preferred(rest, sub_cluster, node_id);
            let before = crate::master_kv_router::placement::preferred_nodes(rest, sub_cluster);
            let nodes = crate::master_kv_router::placement::preferred_nodes(members, sub_cluster);
            let last = members.len() - 1;
            if is_among(before, node_id) {
                let i = choose|i: int| 0 <= i < before.len() && (#[trigger] before[i])@ == node_id;
                assert(nodes[i]@ == node_id);
                let k = choose|k: int|
                    0 <= k < rest.len() && (#[trigger] rest[k]).id@ == node_id
                        && rest[k].sub_cluster is Some && rest[k].sub_cluster->0@ == name;
                assert(members[k].id@ == node_id);
            }
            if is_among(nodes, node_id) && !is_among(before, node_id) {
                let i = choose|i: int| 0 <= i < nodes.len() && (#[trigger] nodes[i])@ == node_id;
                if i < before.len() {
                    assert(before[i]@ == node_id);
                }
                assert(members[last].id@ == node_id);
            }
            if is_member_of(members, name, node_id) {
                let k = choose|k: int|
                    0 <= k < members.len() && (#[trigger] members[k]).id@ == node_id
                        && members[k].sub_cluster is Some && members[k].sub_cluster->0@ == name;
                if k < last {
                    assert(rest[k].id@ == node_id);
                } else {
                    assert(nodes[before.len() as int]@ == node_id);
                }
            }
        }
    }
}

/// The preferred nodes are tried beginning at any of them, and each of them once.
pub proof fn law_turned_list_has_the_same_nodes(
    nodes: Seq<NodeID>,
    start: int,
    node_id: Seq<char>,
)
    requires
        0 <= start <= nodes.len(),
    ensures
        crate::master_kv_router::placement::rotated(nodes, start).len() == nodes.len(),
        is_among(crate::master_kv_router::placement::rotated(nodes, start), node_id) <==> is_among(
            nodes,
            node_id,
        ),
{
    let turned = crate::master_kv_router::placement::rotated(nodes, start);
    let back = nodes.len() - start;
    if is_among(turned, node_id) {
        let i = choose|i: int| 0 <= i < turned.len() && (#[trigger] turned[i])@ == node_id;
        if i < back {
            assert(nodes[i + start]@ == node_id);
        } else {
            assert(nodes[i - back]@ == node_id);
        }
    }
    if is_among(nodes, node_id) {
        let i = choose|i: int| 0 <= i < nodes.len() && (#[trigger] nodes[i])@ == node_id;
        if i < start {
            assert(turned[i + back]@ == node_id);
        } else {
            assert(turned[i - start]@ == node_id);
        }
    }
}

/// Some preferred node that was not tried yet has room; a search that does not put the requester
/// first leaves the requester out.
pub open spec fn some_preferred_has_room(
    search: PlacementSearch,
    manager: MasterSegManager,
) -> bool {
    exists|i: int|
        search.next <= i < search.preferred@.len() && has_room(
            manager,
            (#[trigger] search.preferred@[i])@,
        ) && (search.local_first || search.preferred@[i]@ != search.req_node_id@)
}

/// What a placement does next, whatever is chosen at random.
///
/// While a preferred node that was not tried has room, a segment of the first such node is tried.
/// After that a search that puts the requester first places the value there if it has room. Otherwise
/// a segment of any living node is tried as long as there are attempts, the value staying on the
/// requester where that is the node. A placement fails only if no attempt is left or no living node
/// has a segment, and says which segment refused last.
pub proof fn law_placement_takes_what_is_preferred(
    search: PlacementSearch,
    after: PlacementSearch,
    manager: MasterSegManager,
    step: PlacementStep,
)
    requires
        search.wf(),
        search.may_take(after, manager, step),
    ensures
        step matches PlacementStep::TryAllocate { node_id, allocator } ==> is_segment_of(
            manager,
            node_id@,
            allocator,
        ) && (search.local_first || node_id@ != search.req_node_id@),
        step matches PlacementStep::Placed(target) ==> (target matches PutPlacementTarget::Local {
            node_id,
        } && node_id@ == search.req_node_id@ && has_room(manager, node_id@)),
        some_preferred_has_room(search, manager) ==> {
            &&& step is TryAllocate
            &&& exists|k: int|
                search.next <= k < search.preferred@.len() && (
                #[trigger] search.preferred@[k])@ == step->node_id@ && after.next == k + 1
                    && forall|i: int|
                    search.next <= i < k ==> !has_room(manager, (#[trigger] search.preferred@[i])@)
                        || (!search.local_first && search.preferred@[i]@ == search.req_node_id@)
            &&& after.attempts_left == search.attempts_left
            &&& after.local_open == search.local_open
        },
        step is Placed ==> !some_preferred_has_room(search, manager) && (search.local_open || (
        !search.local_first && search.attempts_left > 0)),
        !some_preferred_has_room(search, manager) && step is TryAllocate ==> after.next
            == search.preferred@.len() && !after.local_open,
        !some_preferred_has_room(search, manager) && search.local_open && has_room(
            manager,
            search.req_node_id@,
        ) ==> step is Placed,
        !some_preferred_has_room(search, manager) && step is TryAllocate ==> search.attempts_left
            > 0 && after.attempts_left == search.attempts_left - 1,
        step matches PlacementStep::Failed(error) ==> {
            &&& !some_preferred_has_room(search, manager)
            &&& search.attempts_left == 0 || forall|node_id: Seq<char>| !has_room(manager, node_id)
            &&& match search.last_no_space {
                Some(refused) => error@ == KvErrorOf::Api(
                    ApiErrorOf::NoSpace {
                        node: refused.node@,
                        segment: refused.segment@,
                        total_capacity: refused.total_capacity,
                        free_capacity: refused.free_capacity,
                    },
                ),
                None => error@ is Api && error@->Api_0 is NoSpace,
            }
        },
        after.req_node_id@ == search.req_node_id@,
        after.len == search.len,
        after.preferred@ == search.preferred@,
        after.local_first == search.local_first,
        after.last_no_space == search.last_no_space,
{
    assert forall|node_id: Seq<char>| has_room(manager, node_id) <==> (
    #[trigger] manager.usable_allocators(node_id)).len() > 0 by {}
    let any = search.open_to_any(manager);
    if some_preferred_has_room(search, manager) {
        let i = choose|i: int|
            search.next <= i < search.preferred@.len() && has_room(
                manager,
                (#[trigger] search.preferred@[i])@,
            ) && (search.local_first || search.preferred@[i]@ != search.req_node_id@);
        assert(!search.passes_over(manager, search.preferred@[i]@));
        assert(!any);
        if step is TryAllocate {
            let k = after.next - 1;
            assert(search.preferred@[k]@ == step->node_id@);
            assert forall|j: int| search.next <= j < k implies !has_room(
                manager,
                (#[trigger] search.preferred@[j])@,
            ) || (!search.local_first && search.preferred@[j]@ == search.req_node_id@) by {
                assert(search.passes_over(manager, search.preferred@[j]@));
            }
        }
    } else {
        assert forall|i: int| search.next <= i < search.preferred@.len() implies search.passes_over(
            manager,
            (#[trigger] search.preferred@[i])@,
        ) by {}
        if step is TryAllocate && !any {
            let k = after.next - 1;
            assert(search.passes_over(manager, search.preferred@[k]@));
        }
    }
    if step is Failed && search.attempts_left > 0 {
        assert forall|node_id: Seq<char>| !has_room(manager, node_id) by {
            if has_room(manager, node_id) {
                assert(manager.usable_allocators(node_id).len() > 0);
            }
        }
    }
}

/// Where a placement begins: on the requester if it is among the preferred nodes and has room; on
/// another preferred node if one has room; and else where there is room, if there is any.
pub proof fn law_placement_begins_with_the_preferred(
    manager: MasterSegManager,
    req_node_id: Seq<char>,
    nodes: Seq<NodeID>,
    len: u64,
    search: PlacementSearch,
    step: PlacementStep,
)
    requires
        crate::master_kv_router::placement::may_begin(
            false,
            manager,
            req_node_id,
            nodes,
            len,
            search,
            step,
        ),
    ensures
        is_among(nodes, req_node_id) && has_room(manager, req_node_id) ==> (
        step matches PlacementStep::Placed(PutPlacementTarget::Local { node_id }) && node_id@
            == req_node_id),
        !(is_among(nodes, req_node_id) && has_room(manager, req_node_id)) && (exists|i: int|
            0 <= i < nodes.len() && (#[trigger] nodes[i])@ != req_node_id && has_room(
                manager,
                nodes[i]@,
            )) ==> (step matches PlacementStep::TryAllocate { node_id, allocator } && is_among(
            nodes,
            node_id@,
        ) && is_segment_of(manager, node_id@, allocator)),
        step is Failed ==> forall|node_id: Seq<char>| !has_room(manager, node_id),
        step matches PlacementStep::TryAllocate { node_id, allocator } ==> is_segment_of(
            manager,
            node_id@,
            allocator,
        ) && node_id@ != req_node_id,
        step matches PlacementStep::Placed(target) ==> (target matches PutPlacementTarget::Local {
            node_id,
        } && node_id@ == req_node_id && has_room(manager, req_node_id)),
{
    assert(crate::master_kv_router::routes::names_contain(nodes, req_node_id) <==> is_among(
        nodes,
        req_node_id,
    ));
    assert(has_room(manager, req_node_id) <==> manager.usable_allocators(req_node_id).len() > 0);
    if !(is_among(nodes, req_node_id) && has_room(manager, req_node_id)) {
        let (start, begun) = choose|start: int, begun: PlacementSearch|
            #![trigger crate::master_kv_router::placement::rotated(nodes, start), begun.may_take(search, manager, step)]
            {
                &&& 0 <= start <= nodes.len()
                &&& begun.local_first == false
                &&& begun.local_open == false
                &&& begun.req_node_id@ == req_node_id
                &&& begun.len == len
                &&& begun.preferred@ == crate::master_kv_router::placement::rotated(nodes, start)
                &&& begun.next == 0
                &&& begun.attempts_left == crate::master_kv_router::placement::PLACEMENT_ATTEMPTS
                &&& begun.last_no_space is None
                &&& begun.may_take(search, manager, step)
            };
        law_placement_takes_what_is_preferred(begun, search, manager, step);
        if exists|i: int|
            0 <= i < nodes.len() && (#[trigger] nodes[i])@ != req_node_id && has_room(
                manager,
                nodes[i]@,
            ) {
            let i = choose|i: int|
                0 <= i < nodes.len() && (#[trigger] nodes[i])@ != req_node_id && has_room(
                    manager,
                    nodes[i]@,
                );
            law_turned_list_has_the_same_nodes(nodes, start, nodes[i]@);
            let k = choose|k: int|
                0 <= k < begun.preferred@.len() && (#[trigger] begun.preferred@[k])@ == nodes[i]@;
            assert(some_preferred_has_room(begun, manager));
            law_turned_list_has_the_same_nodes(nodes, start, step->node_id@);
        }
    }
}

/// A segment that refused is told of as it was found: its node, its name, its size, and the bytes that
/// were not in use. What the placement tried before stays as it was.
pub proof fn law_refusals_tell_what_was_free(
    before: PlacementSearch,
    after: PlacementSearch,
    node_id: Seq<char>,
    allocator: OneSegAllocator,
    used: u64,
)
    requires
        before.refused_at(after, node_id, allocator, used),
    ensures
        after.last_no_space is Some,
        after.last_no_space->0.node@ == node_id,
        after.last_no_space->0.segment@ == allocator.seg_device_id@,
        after.last_no_space->0.total_capacity == allocator.total_size,
        used <= allocator.total_size ==> after.last_no_space->0.free_capacity + used
            == allocator.total_size,
        used > allocator.total_size ==> after.last_no_space->0.free_capacity == 0,
        after.next == before.next,
        after.attempts_left == before.attempts_left,
        after.local_open == before.local_open,
        after.len == before.len,
        after.local_first == before.local_first,
        after.req_node_id@ == before.req_node_id@,
{
}

/// One policy asks the requester's own segments before those of just any node; the other does not.
pub proof fn law_policies_differ_in_the_requester(
    local_first: LocalFirstPlacementPolicy,
    random: RandomPlacementPolicy,
)
    ensures
        local_first.places_local_first(),
        !random.places_local_first(),
{
}

/// Where a placement begins that puts the requester first: on the requester if it is among the
/// preferred nodes; on a preferred node if one has room; and else on the requester if it has room.
pub proof fn law_local_placement_begins_with_the_requester(
    manager: MasterSegManager,
    req_node_id: Seq<char>,
    nodes: Seq<NodeID>,
    len: u64,
    search: PlacementSearch,
    step: PlacementStep,
)
    requires
        crate::master_kv_router::placement::may_begin(
            true,
            manager,
            req_node_id,
            nodes,
            len,
            search,
            step,
        ),
    ensures
        is_among(nodes, req_node_id) ==> step is Placed,
        !is_among(nodes, req_node_id) && (exists|i: int|
            0 <= i < nodes.len() && has_room(manager, (#[trigger] nodes[i])@)) ==> (
        step matches PlacementStep::TryAllocate { node_id, allocator } && is_among(nodes, node_id@)
            && is_segment_of(manager, node_id@, allocator)),
        !is_among(nodes, req_node_id) && (forall|i: int|
            0 <= i < nodes.len() ==> !has_room(manager, (#[trigger] nodes[i])@)) && has_room(
            manager,
            req_node_id,
        ) ==> step is Placed,
        step matches PlacementStep::Placed(target) ==> (target matches PutPlacementTarget::Local {
            node_id,
        } && node_id@ == req_node_id),
        step is Failed ==> forall|node_id: Seq<char>| !has_room(manager, node_id),
{
    assert(crate::master_kv_router::routes::names_contain(nodes, req_node_id) <==> is_among(
        nodes,
        req_node_id,
    ));
    if !is_among(nodes, req_node_id) {
        let (start, begun) = choose|start: int, begun: PlacementSearch|
            #![trigger crate::master_kv_router::placement::rotated(nodes, start), begun.may_take(search, manager, step)]
            {
                &&& 0 <= start <= nodes.len()
                &&& begun.local_first == true
                &&& begun.local_open == true
                &&& begun.req_node_id@ == req_node_id
                &&& begun.len == len
                &&& begun.preferred@ == crate::master_kv_router::placement::rotated(nodes, start)
                &&& begun.next == 0
                &&& begun.attempts_left == crate::master_kv_router::placement::PLACEMENT_ATTEMPTS
                &&& begun.last_no_space is None
                &&& begun.may_take(search, manager, step)
            };
        law_placement_takes_what_is_preferred(begun, search, manager, step);
        if exists|i: int| 0 <= i < nodes.len() && has_room(manager, (#[trigger] nodes[i])@) {
            let i = choose|i: int| 0 <= i < nodes.len() && has_room(manager, (#[trigger] nodes[i])@);
            law_turned_list_has_the_same_nodes(nodes, start, nodes[i]@);
            let k = choose|k: int|
                0 <= k < begun.preferred@.len() && (#[trigger] begun.preferred@[k])@ == nodes[i]@;
            assert(some_preferred_has_room(begun, manager));
            law_turned_list_has_the_same_nodes(nodes, start, step->node_id@);
        } else if some_preferred_has_room(begun, manager) {
            let k = choose|k: int|
                begun.next <= k < begun.preferred@.len() && has_room(
                    manager,
                    (#[trigger] begun.preferred@[k])@,
                ) && (begun.local_first || begun.preferred@[k]@ != begun.req_node_id@);
            law_turned_list_has_the_same_nodes(nodes, start, begun.preferred@[k]@);
            let i = choose|i: int|
                0 <= i < nodes.len() && (#[trigger] nodes[i])@ == begun.preferred@[k]@;
            assert(has_room(manager, nodes[i]@));
        }
    }
}

} // verus!
