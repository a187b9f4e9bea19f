//! Where a put places its value.
//!
//! A policy does not allocate itself. It names the segment to try, is told what came of it, and goes
//! on from there: [`PlacementSearch`] is the state between two tries.

use crate::choice::{random_index, random_item};
use crate::cluster_manager::{ClusterMember, NodeID};
use crate::error::{ApiError, ApiErrorOf, KvError, KvErrorOf};
use crate::master_seg_manager::one_seg_allocator::{Allocation, AllocationOutcome, OneSegAllocator};
use crate::master_seg_manager::MasterSegManager;
use crate::text;
use vstd::prelude::*;

verus! {

pub enum PutPlacementTarget {
    /// Place locally by reusing the requester's src allocation as the target.
    Local { node_id: NodeID },
    /// Place remotely with a pre-allocated target allocation.
    Remote { node_id: NodeID, allocator: OneSegAllocator, allocation: Allocation },
}

/// What a placement does next.
pub enum PlacementStep {
    /// The target is decided.
    Placed(PutPlacementTarget),
    /// This segment of this node is to be tried.
    TryAllocate { node_id: NodeID, allocator: OneSegAllocator },
    /// There is no target.
    Failed(KvError),
}

/// The segment that was tried last.
pub struct NoSpaceContext {
    pub node: String,
    pub segment: String,
    pub total_capacity: u64,
    pub free_capacity: u64,
}

/// How many segments are tried at random once the preferred nodes are exhausted.
pub const PLACEMENT_ATTEMPTS: u8 = 3;

/// A placement under way.
pub struct PlacementSearch {
    /// Placing on the requester comes before placing on just any node.
    pub local_first: bool,
    pub req_node_id: NodeID,
    pub len: u64,
    /// The preferred nodes, in the order in which they are tried.
    pub preferred: Vec<NodeID>,
    /// How many of them were tried.
    pub next: usize,
    /// Whether placing on the requester may still come before placing on just any node.
    pub local_open: bool,
    pub attempts_left: u8,
    pub last_no_space: Option<NoSpaceContext>,
}

/// The error of a placement without a target, after the segment that was tried last.
pub open spec fn no_space(last: Option<NoSpaceContext>) -> KvErrorOf<Seq<char>> {
    KvErrorOf::Api(
        match last {
            Some(context) => ApiErrorOf::NoSpace {
                node: context.node@,
                segment: context.segment@,
                total_capacity: context.total_capacity,
                free_capacity: context.free_capacity,
            },
            None => ApiErrorOf::NoSpace {
                node: "unknown"@,
                segment: "unknown"@,
                total_capacity: 0,
                free_capacity: 0,
            },
        },
    )
}

/// The ids of the members in a sub-cluster.
pub open spec fn nodes_in_sub_cluster(members: Seq<ClusterMember>, sub_cluster: Seq<char>) -> Seq<
    NodeID,
>
    decreases members.len(),
{
    if members.len() == 0 {
        Seq::empty()
    } else {
        let before = nodes_in_sub_cluster(members.drop_last(), sub_cluster);
        match members.last().sub_cluster {
            Some(name) => if name@ == sub_cluster {
                before.push(members.last().id)
            } else {
                before
            },
            None => before,
        }
    }
}

/// The preferred nodes of a request.
pub open spec fn preferred_nodes(
    members: Seq<ClusterMember>,
    preferred_sub_cluster: Option<Seq<char>>,
) -> Seq<NodeID> {
    match preferred_sub_cluster {
        Some(sub_cluster) => nodes_in_sub_cluster(members, sub_cluster),
        None => Seq::empty(),
    }
}

/// `nodes`, beginning at `start`.
pub open spec fn rotated(nodes: Seq<NodeID>, start: int) -> Seq<NodeID> {
    nodes.skip(start) + nodes.take(start)
}

/// The ids of the members in a sub-cluster.
pub fn members_in_sub_cluster(members: &Vec<ClusterMember>, sub_cluster: &str) -> (nodes: Vec<
    NodeID,
>)
    ensures
        nodes@ == nodes_in_sub_cluster(members@, sub_cluster@),
{
    let mut nodes: Vec<NodeID> = Vec::new();
    let mut i: usize = 0;
    assert(members@.take(0) =~= Seq::<ClusterMember>::empty());
    while i < members.len()
        invariant
            i <= members@.len(),
            nodes@ == nodes_in_sub_cluster(members@.take(i as int), sub_cluster@),
        decreases members@.len() - i,
    {
        assert(members@.take(i + 1).drop_last() =~= members@.take(i as int));
        if let Some(name) = &members[i].sub_cluster {
            if text::same_text(name.as_str(), sub_cluster) {
                nodes.push(members[i].id.clone());
            }
        }
        i = i + 1;
    }
    assert(members@.take(i as int) =~= members@);
    nodes
}

fn rotate_left(nodes: &Vec<NodeID>, start: usize) -> (turned: Vec<NodeID>)
    requires
        start <= nodes@.len(),
    ensures
        turned@ == rotated(nodes@, start as int),
{
    let mut turned: Vec<NodeID> = Vec::new();
    let mut i: usize = start;
    while i < nodes.len()
        invariant
            start <= i <= nodes@.len(),
            turned@ =~= nodes@.subrange(start as int, i as int),
        decreases nodes@.len() - i,
    {
        turned.push(nodes[i].clone());
        i = i + 1;
    }
    let mut j: usize = 0;
    while j < start
        invariant
            j <= start <= nodes@.len(),
            turned@ =~= nodes@.skip(start as int) + nodes@.take(j as int),
        decreases start - j,
    {
        turned.push(nodes[j].clone());
        j = j + 1;
    }
    turned
}

impl PlacementSearch {
    /// How many segments can still be tried, at most.
    pub open spec fn tries_left(self) -> nat {
        (self.preferred@.len() - self.next + self.attempts_left) as nat
    }

    pub open spec fn wf(self) -> bool {
        &&& self.next <= self.preferred@.len()
        &&& self.attempts_left <= PLACEMENT_ATTEMPTS
    }

    /// Same request, same preferred nodes.
    pub open spec fn same_request(self, other: PlacementSearch) -> bool {
        &&& self.local_first == other.local_first
        &&& self.req_node_id@ == other.req_node_id@
        &&& self.len == other.len
        &&& self.preferred@ == other.preferred@
    }

    /// A placement that prefers `nodes`, in this order.
    pub fn new(local_first: bool, req_node_id: NodeID, len: u64, nodes: Vec<NodeID>) -> (search: Self)
        ensures
            search == (PlacementSearch {
                local_first,
                req_node_id,
                len,
                preferred: nodes,
                next: 0,
                local_open: local_first,
                attempts_left: PLACEMENT_ATTEMPTS,
                last_no_space: None,
            }),
            search.wf(),
    {
        PlacementSearch {
            local_first,
            req_node_id,
            len,
            preferred: nodes,
            next: 0,
            local_open: local_first,
            attempts_left: PLACEMENT_ATTEMPTS,
            last_no_space: None,
        }
    }

    /// Takes the next preferred node, for which `chosen` was chosen among the node's segments.
    pub fn consider_preferred(&mut self, chosen: Option<OneSegAllocator>) -> (step: Option<
        PlacementStep,
    >)
        requires
            old(self).wf(),
            old(self).next < old(self).preferred@.len(),
        ensures
            final(self).wf(),
            final(self).same_request(*old(self)),
            final(self).next == old(self).next + 1,
            final(self).local_open == old(self).local_open,
            final(self).attempts_left == old(self).attempts_left,
            final(self).last_no_space == old(self).last_no_space,
            ({
                let node = old(self).preferred@[old(self).next as int];
                let skipped = !old(self).local_first && node@ == old(self).req_node_id@;
                match chosen {
                    Some(allocator) => if skipped {
                        step is None
                    } else {
                        step == Some(PlacementStep::TryAllocate { node_id: node, allocator })
                    },
                    None => step is None,
                }
            }),
    {
        let node_id = self.preferred[self.next].clone();
        assert(self.next < self.preferred.len());
        self.next = self.next + 1;
        if !self.local_first && text::same_text(node_id.as_str(), self.req_node_id.as_str()) {
            return None;
        }
        match chosen {
            Some(allocator) => Some(PlacementStep::TryAllocate { node_id, allocator }),
            None => None,
        }
    }

    /// Once the preferred nodes are exhausted: whether to place on the requester, which has
    /// segments if `local_usable`.
    pub fn consider_local(&mut self, local_usable: bool) -> (step: Option<PlacementStep>)
        requires
            old(self).wf(),
        ensures
            final(self).wf(),
            final(self).same_request(*old(self)),
            final(self).next == old(self).next,
            !final(self).local_open,
            final(self).attempts_left == old(self).attempts_left,
            final(self).last_no_space == old(self).last_no_space,
            step == if old(self).local_open && local_usable {
                Some(
                    PlacementStep::Placed(
                        PutPlacementTarget::Local { node_id: old(self).req_node_id },
                    ),
                )
            } else {
                None
            },
    {
        let place = self.local_open && local_usable;
        self.local_open = false;
        if place {
            Some(
                PlacementStep::Placed(
                    PutPlacementTarget::Local { node_id: self.req_node_id.clone() },
                ),
            )
        } else {
            None
        }
    }

    /// Uses up an attempt, for which `chosen` was chosen among all segments.
    pub fn consider_any(
        &mut self,
        chosen: Option<(NodeID, OneSegAllocator)>,
        local_usable: bool,
    ) -> (step: Option<PlacementStep>)
        requires
            old(self).wf(),
            old(self).attempts_left > 0,
        ensures
            final(self).wf(),
            final(self).same_request(*old(self)),
            final(self).next == old(self).next,
            final(self).local_open == old(self).local_open,
            final(self).attempts_left == old(self).attempts_left - 1,
            final(self).last_no_space == old(self).last_no_space,
            match chosen {
                None => step is None,
                Some((node, allocator)) => if !old(self).local_first && node@ == old(
                    self,
                ).req_node_id@ {
                    step == if local_usable {
                        Some(
                            PlacementStep::Placed(
                                PutPlacementTarget::Local { node_id: old(self).req_node_id },
                            ),
                        )
                    } else {
                        None
                    }
                } else {
                    step == Some(PlacementStep::TryAllocate { node_id: node, allocator })
                },
            },
    {
        self.attempts_left = self.attempts_left - 1;
        match chosen {
            None => None,
            Some((node_id, allocator)) => {
                if !self.local_first && text::same_text(
                    node_id.as_str(),
                    self.req_node_id.as_str(),
                ) {
                    if local_usable {
                        Some(
                            PlacementStep::Placed(
                                PutPlacementTarget::Local { node_id: self.req_node_id.clone() },
                            ),
                        )
                    } else {
                        None
                    }
                } else {
                    Some(PlacementStep::TryAllocate { node_id, allocator })
                }
            },
        }
    }

    /// What came of trying a segment: the target if it was granted. The segment is remembered for
    /// the error in any case.
    pub fn tried(
        &mut self,
        node_id: NodeID,
        allocator: OneSegAllocator,
        outcome: &AllocationOutcome,
    ) -> (step: Option<PlacementStep>)
        requires
            old(self).wf(),
        ensures
            final(self).wf(),
            final(self).same_request(*old(self)),
            final(self).next == old(self).next,
            final(self).local_open == old(self).local_open,
            final(self).attempts_left == old(self).attempts_left,
            final(self).last_no_space matches Some(context) && context.node@ == node_id@
                && context.segment@ == allocator.seg_device_id@ && context.total_capacity
                == allocator.total_size && context.free_capacity == if outcome.used
                <= allocator.total_size {
                allocator.total_size - outcome.used
            } else {
                0
            },
            match outcome.region {
                Some(region) => step == Some(
                    PlacementStep::Placed(
                        PutPlacementTarget::Remote {
                            node_id,
                            allocator,
                            allocation: allocator.allocation(old(self).len, region),
                        },
                    ),
                ),
                None => step is None,
            },
    {
        self.last_no_space = Some(
            NoSpaceContext {
                node: node_id.clone(),
                segment: allocator.seg_device_id.clone(),
                total_capacity: allocator.total_size_bytes(),
                free_capacity: allocator.free_size_bytes(outcome.used),
            },
        );
        match allocator.allocate(self.len, outcome) {
            Some(allocation) => Some(
                PlacementStep::Placed(PutPlacementTarget::Remote { node_id, allocator, allocation }),
            ),
            None => None,
        }
    }

    fn failure(&self) -> (error: KvError)
        ensures
            error@ == no_space(self.last_no_space),
    {
        match &self.last_no_space {
            Some(context) => KvError::Api(
                ApiError::NoSpace {
                    node: context.node.clone(),
                    segment: context.segment.clone(),
                    total_capacity: context.total_capacity,
                    free_capacity: context.free_capacity,
                },
            ),
            None => KvError::Api(
                ApiError::NoSpace {
                    node: "unknown".to_owned(),
                    segment: "unknown".to_owned(),
                    total_capacity: 0,
                    free_capacity: 0,
                },
            ),
        }
    }

    /// A preferred node that is passed over: it has no segment to allocate from, or it is the
    /// requester, which only the local-first order treats as any other.
    pub open spec fn passes_over(self, manager: MasterSegManager, node_id: Seq<char>) -> bool {
        ||| !self.local_first && node_id == self.req_node_id@
        ||| manager.usable_allocators(node_id).len() == 0
    }

    /// The preferred nodes from the next one up to `end` are passed over.
    pub open spec fn passes_over_until(self, manager: MasterSegManager, end: int) -> bool {
        forall|i: int|
            self.next <= i < end ==> self.passes_over(manager, (#[trigger] self.preferred@[i])@)
    }

    /// Every preferred node is passed over, and placing on the requester does not come first.
    pub open spec fn open_to_any(self, manager: MasterSegManager) -> bool {
        &&& self.passes_over_until(manager, self.preferred@.len() as int)
        &&& self.local_open ==> manager.usable_allocators(self.req_node_id@).len() == 0
    }

    /// A step that the placement may take next, whatever is chosen at random.
    pub open spec fn may_take(
        self,
        after: PlacementSearch,
        manager: MasterSegManager,
        step: PlacementStep,
    ) -> bool {
        &&& after.same_request(self)
        &&& after.last_no_space == self.last_no_space
        &&& match step {
            PlacementStep::Placed(PutPlacementTarget::Local { node_id }) => {
                &&& node_id@ == self.req_node_id@
                &&& manager.usable_allocators(node_id@).len() > 0
                &&& self.passes_over_until(manager, self.preferred@.len() as int)
                &&& self.local_open || (!self.local_first && self.attempts_left > 0)
            },
            PlacementStep::Placed(PutPlacementTarget::Remote { .. }) => false,
            PlacementStep::TryAllocate { node_id, allocator } => {
                &&& manager.usable_allocators(node_id@).contains(allocator)
                &&& !self.local_first ==> node_id@ != self.req_node_id@
                &&& if self.open_to_any(manager) {
                    &&& after.next == self.preferred@.len()
                    &&& !after.local_open
                    &&& after.attempts_left == self.attempts_left - 1
                } else {
                    &&& self.next < after.next <= self.preferred@.len()
                    &&& self.passes_over_until(manager, after.next - 1)
                    &&& node_id@ == self.preferred@[after.next - 1]@
                    &&& after.local_open == self.local_open
                    &&& after.attempts_left == self.attempts_left
                }
            },
            PlacementStep::Failed(error) => {
                &&& error@ == no_space(self.last_no_space)
                &&& self.open_to_any(manager)
                &&& self.attempts_left > 0 ==> !manager.has_segments()
            },
        }
    }

    /// Goes on to the next segment to try, or to the end.
    pub fn advance(&mut self, manager: &mut MasterSegManager) -> (step: PlacementStep)
        requires
            old(self).wf(),
        ensures
            final(self).wf(),
            final(self).same_request(*old(self)),
            final(self).last_no_space == old(self).last_no_space,
            old(self).may_take(*final(self), *old(manager), step),
            final(manager).marks() == old(manager).marks(),
            old(manager).wf() ==> final(manager).wf(),
            forall|node_id: Seq<char>| #[trigger]
                final(manager).usable_allocators(node_id) == old(manager).usable_allocators(
                    node_id,
                ),
    {
        while self.next < self.preferred.len()
            invariant
                self.wf(),
                self.same_request(*old(self)),
                self.local_open == old(self).local_open,
                self.attempts_left == old(self).attempts_left,
                self.last_no_space == old(self).last_no_space,
                old(self).next <= self.next,
                old(self).passes_over_until(*manager, self.next as int),
                *manager == *old(manager),
            decreases self.preferred@.len() - self.next,
        {
            let allocators = manager.get_node_allocators(self.preferred[self.next].as_str());
            let chosen = match random_item(&allocators) {
                Some(allocator) => Some(allocator.duplicate()),
                None => None,
            };
            if let Some(step) = self.consider_preferred(chosen) {
                return step;
            }
        }
        let local_usable: bool = manager.get_node_allocators(self.req_node_id.as_str()).len() > 0;
        if let Some(step) = self.consider_local(local_usable) {
            return step;
        }
        while self.attempts_left > 0
            invariant
                self.wf(),
                self.same_request(*old(self)),
                self.next == self.preferred@.len(),
                !self.local_open,
                self.attempts_left <= old(self).attempts_left,
                self.last_no_space == old(self).last_no_space,
                old(self).open_to_any(*old(manager)),
                self.attempts_left < old(self).attempts_left ==> !old(manager).has_segments(),
                manager.marks() == old(manager).marks(),
                old(manager).wf() ==> manager.wf(),
                forall|node_id: Seq<char>| #[trigger]
                    manager.usable_allocators(node_id) == old(manager).usable_allocators(node_id),
            decreases self.attempts_left,
        {
            let ghost before = *manager;
            let segments = manager.get_all_segments_allocator();
            proof {
                let ids = choose|ids: Seq<String>| #[trigger]
                    crate::dash::lists_keys(ids, before.nodes().dom()) && segments@
                        == crate::master_seg_manager::all_usable(before, ids);
                assert forall|node_id: Seq<char>| #[trigger]
                    manager.usable_allocators(node_id) == before.usable_allocators(node_id) by {}
                assert forall|i: int| 0 <= i < segments@.len() implies before.usable_allocators(
                    (#[trigger] segments@[i]).0@,
                ).contains(segments@[i].1) by {
                    crate::master_seg_manager::lemma_all_usable(before, ids, i);
                }
                crate::master_seg_manager::lemma_all_usable_nonempty(before, ids);
                if old(manager).has_segments() {
                    let node_id = choose|node_id: Seq<char>|
                        (#[trigger] old(manager).usable_allocators(node_id)).len() > 0;
                    assert(before.usable_allocators(node_id).len() > 0);
                }
            }
            let chosen = match random_item(&segments) {
                Some(segment) => Some((segment.0.clone(), segment.1.duplicate())),
                None => None,
            };
            let local_usable: bool = manager.get_node_allocators(
                self.req_node_id.as_str(),
            ).len() > 0;
            if let Some(step) = self.consider_any(chosen, local_usable) {
                return step;
            }
        }
        PlacementStep::Failed(self.failure())
    }

    /// Takes what came of trying a segment, and goes on if it was refused.
    pub fn resume(
        &mut self,
        manager: &mut MasterSegManager,
        node_id: NodeID,
        allocator: OneSegAllocator,
        outcome: &AllocationOutcome,
    ) -> (step: PlacementStep)
        requires
            old(self).wf(),
        ensures
            final(self).wf(),
            final(self).same_request(*old(self)),
            final(manager).marks() == old(manager).marks(),
            old(manager).wf() ==> final(manager).wf(),
            forall|node: Seq<char>| #[trigger]
                final(manager).usable_allocators(node) == old(manager).usable_allocators(node),
            match outcome.region {
                Some(region) => step == PlacementStep::Placed(
                    PutPlacementTarget::Remote {
                        node_id,
                        allocator,
                        allocation: allocator.allocation(old(self).len, region),
                    },
                ),
                None => exists|refused: PlacementSearch| #[trigger]
                    old(self).refused_at(refused, node_id@, allocator, outcome.used)
                        && refused.may_take(*final(self), *old(manager), step),
            },
    {
        match self.tried(node_id, allocator, outcome) {
            Some(step) => step,
            None => {
                let ghost refused = *self;
                let step = self.advance(manager);
                assert(old(self).refused_at(refused, node_id@, allocator, outcome.used));
                step
            },
        }
    }

    /// `after` is this placement once the segment refused, with `used` bytes in use.
    pub open spec fn refused_at(
        self,
        after: PlacementSearch,
        node_id: Seq<char>,
        allocator: OneSegAllocator,
        used: u64,
    ) -> bool {
        &&& after.same_request(self)
        &&& after.next == self.next
        &&& after.local_open == self.local_open
        &&& after.attempts_left == self.attempts_left
        &&& after.last_no_space matches Some(context) && context.node@ == node_id
            && context.segment@ == allocator.seg_device_id@ && context.total_capacity
            == allocator.total_size && context.free_capacity == if used <= allocator.total_size {
            allocator.total_size - used
        } else {
            0
        }
    }
}

/// How a placement begins, whatever is chosen at random.
pub open spec fn may_begin(
    local_first: bool,
    manager: MasterSegManager,
    req_node_id: Seq<char>,
    nodes: Seq<NodeID>,
    len: u64,
    search: PlacementSearch,
    step: PlacementStep,
) -> bool {
    if super::routes::names_contain(nodes, req_node_id) && (local_first
        || manager.usable_allocators(req_node_id).len() > 0) {
        step matches PlacementStep::Placed(PutPlacementTarget::Local { node_id }) && node_id@
            == req_node_id
    } else {
        exists|start: int, begun: PlacementSearch|
            #![trigger rotated(nodes, start), begun.may_take(search, manager, step)]
            {
                &&& 0 <= start <= nodes.len()
                &&& begun.local_first == local_first
                &&& begun.local_open == local_first
                &&& begun.req_node_id@ == req_node_id
                &&& begun.len == len
                &&& begun.preferred@ == rotated(nodes, start)
                &&& begun.next == 0
                &&& begun.attempts_left == PLACEMENT_ATTEMPTS
                &&& begun.last_no_space is None
                &&& begun.may_take(search, manager, step)
            }
    }
}

/// Begins a placement.
fn begin_placement(
    local_first: bool,
    manager: &mut MasterSegManager,
    req_node_id: &NodeID,
    members: &Vec<ClusterMember>,
    preferred_sub_cluster: Option<&str>,
    len: u64,
) -> (begun: (PlacementSearch, PlacementStep))
    ensures
        begun.0.wf(),
        begun.0.len == len,
        begun.0.local_first == local_first,
        begun.0.req_node_id@ == req_node_id@,
        may_begin(
            local_first,
            *old(manager),
            req_node_id@,
            preferred_nodes(
                members@,
                match preferred_sub_cluster {
                    Some(name) => Some(name@),
                    None => None,
                },
            ),
            len,
            begun.0,
            begun.1,
        ),
        final(manager).marks() == old(manager).marks(),
        old(manager).wf() ==> final(manager).wf(),
        forall|node: Seq<char>| #[trigger]
            final(manager).usable_allocators(node) == old(manager).usable_allocators(node),
{
    let nodes = match preferred_sub_cluster {
        Some(name) => members_in_sub_cluster(members, name),
        None => Vec::new(),
    };
    if super::routes::contains_name(&nodes, req_node_id.as_str()) {
        let usable: bool = manager.get_node_allocators(req_node_id.as_str()).len() > 0;
        if local_first || usable {
            let search = PlacementSearch::new(local_first, req_node_id.clone(), len, nodes);
            let target = PutPlacementTarget::Local { node_id: req_node_id.clone() };
            return (search, PlacementStep::Placed(target));
        }
    }
    let start: usize = if nodes.len() == 0 {
        0
    } else {
        random_index(nodes.len())
    };
    let turned = rotate_left(&nodes, start);
    let mut search = PlacementSearch::new(local_first, req_node_id.clone(), len, turned);
    let ghost begun = search;
    let step = search.advance(manager);
    assert(begun.preferred@ == rotated(nodes@, start as int));
    (search, step)
}

/// A trait for defining placement policies.
pub trait PlacementPolicy {
    /// The policy places on the requester before it places on just any node.
    spec fn places_local_first(&self) -> bool;

    /// Begins selecting a target for a put operation.
    fn select_put_target(
        &self,
        manager: &mut MasterSegManager,
        req_node_id: &NodeID,
        members: &Vec<ClusterMember>,
        preferred_sub_cluster: Option<&str>,
        len: u64,
    ) -> (begun: (PlacementSearch, PlacementStep))
        ensures
            begun.0.wf(),
            begun.0.len == len,
            begun.0.local_first == self.places_local_first(),
            begun.0.req_node_id@ == req_node_id@,
            may_begin(
                self.places_local_first(),
                *old(manager),
                req_node_id@,
                preferred_nodes(
                    members@,
                    match preferred_sub_cluster {
                        Some(name) => Some(name@),
                        None => None,
                    },
                ),
                len,
                begun.0,
                begun.1,
            ),
            final(manager).marks() == old(manager).marks(),
            old(manager).wf() ==> final(manager).wf(),
            forall|node: Seq<char>| #[trigger]
                final(manager).usable_allocators(node) == old(manager).usable_allocators(node),
    ;
}

/// A policy that prefers placing on the requesting node when possible.
pub struct LocalFirstPlacementPolicy;

impl LocalFirstPlacementPolicy {
    pub fn new() -> (policy: Self)
        ensures
            policy.places_local_first(),
    {
        LocalFirstPlacementPolicy
    }
}

impl PlacementPolicy for LocalFirstPlacementPolicy {
    open spec fn places_local_first(&self) -> bool {
        true
    }

    fn select_put_target(
        &self,
        manager: &mut MasterSegManager,
        req_node_id: &NodeID,
        members: &Vec<ClusterMember>,
        preferred_sub_cluster: Option<&str>,
        len: u64,
    ) -> (begun: (PlacementSearch, PlacementStep)) {
        begin_placement(true, manager, req_node_id, members, preferred_sub_cluster, len)
    }
}

/// A policy that selects a target randomly across eligible nodes/segments.
pub struct RandomPlacementPolicy;

impl RandomPlacementPolicy {
    pub fn new() -> (policy: Self)
        ensures
            !policy.places_local_first(),
    {
        RandomPlacementPolicy
    }
}

impl PlacementPolicy for RandomPlacementPolicy {
    open spec fn places_local_first(&self) -> bool {
        false
    }

    fn select_put_target(
        &self,
        manager: &mut MasterSegManager,
        req_node_id: &NodeID,
        members: &Vec<ClusterMember>,
        preferred_sub_cluster: Option<&str>,
        len: u64,
    ) -> (begun: (PlacementSearch, PlacementStep)) {
        begin_placement(false, manager, req_node_id, members, preferred_sub_cluster, len)
    }
}

/// The policy that the master uses. Change the alias to switch behavior.
pub type PlacementDefault = RandomPlacementPolicy;

/// A target under the random policy is never a remote block on the requester: the requester is only
/// ever used by reusing the source block.
pub proof fn law_random_placement_is_local_on_requester(
    search: PlacementSearch,
    after: PlacementSearch,
    manager: MasterSegManager,
    step: PlacementStep,
)
    requires
        !search.local_first,
        search.may_take(after, manager, step),
    ensures
        step matches PlacementStep::TryAllocate { node_id, .. } ==> node_id@
            != search.req_node_id@,
{
}

/// A segment is only tried where one can be allocated from: never on a node that is unknown or gone.
pub proof fn law_placement_avoids_gone_nodes(
    search: PlacementSearch,
    after: PlacementSearch,
    manager: MasterSegManager,
    step: PlacementStep,
)
    requires
        search.may_take(after, manager, step),
    ensures
        step matches PlacementStep::TryAllocate { node_id, .. } ==> manager.alive(node_id@),
{
}

/// While attempts are left, a placement does not fail as long as some segment can be allocated from.
pub proof fn law_placement_tries_what_there_is(
    search: PlacementSearch,
    after: PlacementSearch,
    manager: MasterSegManager,
    step: PlacementStep,
)
    requires
        search.attempts_left > 0,
        manager.has_segments(),
        search.may_take(after, manager, step),
    ensures
        step !is Failed,
{
}

/// A placement ends: a try uses up one of finitely many, at most the preferred nodes and three more.
pub proof fn law_placement_ends(
    search: PlacementSearch,
    after: PlacementSearch,
    manager: MasterSegManager,
    step: PlacementStep,
)
    requires
        search.wf(),
        search.may_take(after, manager, step),
        step is TryAllocate,
    ensures
        after.tries_left() < search.tries_left() <= search.preferred@.len() + 3,
{
}

} // verus!
