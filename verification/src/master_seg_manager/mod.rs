//! Memory segments of the cluster's nodes, as the master knows them.

pub mod msg_pack;
pub mod one_seg_allocator;

use self::msg_pack::SegmentRegistration;
use self::one_seg_allocator::{CreatedAllocator, OneSegAllocator};
use crate::cluster_manager::NodeID;
use crate::error::{KvError, KvErrorOf, KvResult, UnreachableError, UnreachableErrorOf};
use crate::text;
use dashmap::DashMap;
use vstd::prelude::*;

verus! {

/// Which node incarnations are gone: one mark per registered incarnation.
pub struct TombBoard {
    marks: Vec<bool>,
}

impl View for TombBoard {
    type V = Seq<bool>;

    closed spec fn view(&self) -> Seq<bool> {
        self.marks@
    }
}

impl TombBoard {
    pub fn new() -> (board: Self)
        ensures
            board@ == Seq::<bool>::empty(),
    {
        TombBoard { marks: Vec::new() }
    }
}

/// The mark of one node incarnation. Copies of a tag share the mark.
#[derive(Clone, Copy, PartialEq, Eq, Structural)]
pub struct NodeTombTag {
    slot: usize,
}

impl NodeTombTag {
    pub closed spec fn slot(self) -> nat {
        self.slot as nat
    }

    /// The incarnation is marked as gone.
    pub open spec fn tombed(self, board: Seq<bool>) -> bool {
        self.slot() < board.len() && board[self.slot() as int]
    }

    /// A tag for a new incarnation, which is not gone.
    pub fn new(board: &mut TombBoard) -> (tag: Self)
        ensures
            tag.slot() == old(board)@.len(),
            final(board)@ == old(board)@.push(false),
            !tag.tombed(final(board)@),
    {
        let slot: usize = board.marks.len();
        board.marks.push(false);
        NodeTombTag { slot }
    }

    pub fn is_tomb(&self, board: &TombBoard) -> (tomb: bool)
        ensures
            tomb == self.tombed(board@),
    {
        self.slot < board.marks.len() && board.marks[self.slot]
    }

    /// Marks the incarnation as gone, for every copy of the tag.
    pub fn set_tomb(&self, board: &mut TombBoard)
        ensures
            final(board)@ == if self.slot() < old(board)@.len() {
                old(board)@.update(self.slot() as int, true)
            } else {
                old(board)@
            },
    {
        if self.slot < board.marks.len() {
            board.marks.set(self.slot, true);
        }
    }
}

/// The segments of one node incarnation.
pub struct NodeSegmentsManager {
    pub total_size: u64,
    /// At most one per device id.
    pub allocators: Vec<OneSegAllocator>,
    pub tomb_tag: NodeTombTag,
}

/// Model of [`NodeSegmentsManager`].
pub struct NodeSegments {
    pub total_size: u64,
    pub allocators: Seq<OneSegAllocator>,
    pub tomb_tag: NodeTombTag,
}

impl View for NodeSegmentsManager {
    type V = NodeSegments;

    open spec fn view(&self) -> NodeSegments {
        NodeSegments {
            total_size: self.total_size,
            allocators: self.allocators@,
            tomb_tag: self.tomb_tag,
        }
    }
}

impl NodeSegmentsManager {
    /// The segments of a new incarnation.
    pub fn new(
        total_size: u64,
        allocators: Vec<OneSegAllocator>,
        board: &mut TombBoard,
    ) -> (node: Self)
        ensures
            node.total_size == total_size,
            node.allocators == allocators,
            node.tomb_tag.slot() == old(board)@.len(),
            final(board)@ == old(board)@.push(false),
    {
        NodeSegmentsManager { total_size, allocators, tomb_tag: NodeTombTag::new(board) }
    }

    fn duplicate(&self) -> (copy: Self)
        ensures
            copy@ == self@,
    {
        NodeSegmentsManager {
            total_size: self.total_size,
            allocators: duplicate_allocators(&self.allocators),
            tomb_tag: self.tomb_tag,
        }
    }
}

fn duplicate_allocators(allocators: &Vec<OneSegAllocator>) -> (copy: Vec<OneSegAllocator>)
    ensures
        copy@ == allocators@,
{
    let mut copy: Vec<OneSegAllocator> = Vec::new();
    let mut i: usize = 0;
    while i < allocators.len()
        invariant
            i <= allocators@.len(),
            copy@ =~= allocators@.take(i as int),
        decreases allocators@.len() - i,
    {
        copy.push(allocators[i].duplicate());
        i = i + 1;
    }
    copy
}

/// The nodes that a map holds, by node id.
pub uninterp spec fn node_segments(map: DashMap<String, NodeSegmentsManager>) -> Map<
    Seq<char>,
    NodeSegments,
>;

/// `DashMap::new` makes a map that holds nothing.
#[verifier::external_body]
fn nodes_new() -> (map: DashMap<String, NodeSegmentsManager>)
    ensures
        (node_segments(map) == Map::<Seq<char>, NodeSegments>::empty()),
{
    DashMap::new()
}

/// `DashMap::insert` stores the value under the key, in place of an earlier one.
#[verifier::external_body]
fn nodes_insert(
    map: &mut DashMap<String, NodeSegmentsManager>,
    node_id: String,
    node: NodeSegmentsManager,
)
    ensures
        node_segments(*final(map)) == node_segments(*old(map)).insert(node_id@, node@),
{
    map.insert(node_id, node);
}

/// `DashMap::get` finds the value stored under the key; the value is handed out as a copy.
#[verifier::external_body]
fn nodes_get(map: &DashMap<String, NodeSegmentsManager>, node_id: &str) -> (node: Option<
    NodeSegmentsManager,
>)
    ensures
        match node {
            Some(node) => node_segments(*map).contains_key(node_id@) && node@ == node_segments(
                *map,
            )[node_id@],
            None => !node_segments(*map).contains_key(node_id@),
        },
{
    map.get(node_id).map(|entry| entry.value().duplicate())
}

/// `DashMap::remove` takes out the value stored under the key, if there is one.
#[verifier::external_body]
fn nodes_remove(map: &mut DashMap<String, NodeSegmentsManager>, node_id: &str) -> (node: Option<
    NodeSegmentsManager,
>)
    ensures
        node_segments(*final(map)) == node_segments(*old(map)).remove(node_id@),
        match node {
            Some(node) => node_segments(*old(map)).contains_key(node_id@) && node@
                == node_segments(*old(map))[node_id@],
            None => !node_segments(*old(map)).contains_key(node_id@),
        },
{
    map.remove(node_id).map(|entry| entry.1)
}

/// `DashMap::iter` walks every key once, in an order that is not specified.
#[verifier::external_body]
fn nodes_keys(map: &DashMap<String, NodeSegmentsManager>) -> (ids: Vec<String>)
    ensures
        crate::dash::lists_keys(ids@, node_segments(*map).dom()),
{
    map.iter().map(|entry| entry.key().clone()).collect()
}

/// The allocator in `allocators` for a device, if there is one.
pub open spec fn find_device(allocators: Seq<OneSegAllocator>, device_id: Seq<char>) -> Option<
    OneSegAllocator,
>
    decreases allocators.len(),
{
    if allocators.len() == 0 {
        None
    } else if allocators[0].seg_device_id@ == device_id {
        Some(allocators[0])
    } else {
        find_device(allocators.drop_first(), device_id)
    }
}

/// The device ids of the segments are distinct.
pub open spec fn one_per_device(allocators: Seq<OneSegAllocator>) -> bool {
    forall|i: int, j: int|
        0 <= i < j < allocators.len() ==> (#[trigger] allocators[i]).seg_device_id@ != (
        #[trigger] allocators[j]).seg_device_id@
}

impl SegmentRegistration {
    /// The segment, with the allocator that was created for it.
    pub open spec fn with_allocator(self, created: CreatedAllocator) -> OneSegAllocator {
        OneSegAllocator {
            seg_device_id: self.device_id,
            seg_device_desc: self.desc,
            base_addr: self.mem.addr,
            id: created.id,
            total_size: created.total_size,
        }
    }

    /// The allocator was created with exactly the registered length.
    pub open spec fn in_full(self) -> bool {
        self.allocator matches Ok(created) && created.total_size == self.mem.len
    }

    /// The node has this segment already.
    pub open spec fn present_on(self, node: NodeSegments) -> bool {
        find_device(node.allocators, self.device_id@) matches Some(existing)
            && self.matches_allocator(existing)
    }

    /// An existing allocator is the one that this registration asks for.
    pub open spec fn matches_allocator(self, existing: OneSegAllocator) -> bool {
        &&& existing.seg_device_desc == self.desc
        &&& existing.base_addr == self.mem.addr
        &&& existing.total_size == self.mem.len
    }
}

/// `total + len`, or the largest number where that does not fit.
pub open spec fn saturating_sum(total: u64, len: u64) -> u64 {
    if total + len > u64::MAX {
        u64::MAX
    } else {
        (total + len) as u64
    }
}

/// The segments of a new incarnation, or the error of the first allocator that was refused.
pub open spec fn fresh_segments(segments: Seq<SegmentRegistration>) -> Result<
    (u64, Seq<OneSegAllocator>),
    KvErrorOf<Seq<char>>,
>
    decreases segments.len(),
{
    if segments.len() == 0 {
        Ok((0, Seq::empty()))
    } else {
        match fresh_segments(segments.drop_last()) {
            Err(error) => Err(error),
            Ok((total, allocators)) => match segments.last().allocator {
                Err(error) => Err(error@),
                Ok(created) => Ok(
                    (
                        saturating_sum(total, segments.last().mem.len),
                        allocators.push(segments.last().with_allocator(created)),
                    ),
                ),
            },
        }
    }
}

/// Registration on a node that is alive: segments that it has already are kept, new ones are added,
/// and the first that disagrees or is refused ends it. What was added until then stays.
pub open spec fn extend_segments(
    node: NodeSegments,
    node_id: Seq<char>,
    segments: Seq<SegmentRegistration>,
) -> (NodeSegments, Result<(), KvErrorOf<Seq<char>>>)
    decreases segments.len(),
{
    if segments.len() == 0 {
        (node, Ok(()))
    } else {
        let segment = segments[0];
        match find_device(node.allocators, segment.device_id@) {
            Some(existing) => if segment.matches_allocator(existing) {
                extend_segments(node, node_id, segments.drop_first())
            } else {
                (
                    node,
                    Err(
                        KvErrorOf::Unreachable(
                            UnreachableErrorOf::DuplicateSegId {
                                device_id: segment.device_id@,
                                node_id,
                            },
                        ),
                    ),
                )
            },
            None => match segment.allocator {
                Err(error) => (node, Err(error@)),
                Ok(created) => extend_segments(
                    NodeSegments {
                        total_size: saturating_sum(node.total_size, segment.mem.len),
                        allocators: node.allocators.push(segment.with_allocator(created)),
                        tomb_tag: node.tomb_tag,
                    },
                    node_id,
                    segments.drop_first(),
                ),
            },
        }
    }
}

fn find_allocator<'a>(allocators: &'a Vec<OneSegAllocator>, device_id: &str) -> (found: Option<
    &'a OneSegAllocator,
>)
    ensures
        match found {
            Some(allocator) => find_device(allocators@, device_id@) == Some(*allocator),
            None => find_device(allocators@, device_id@) is None,
        },
{
    let mut i: usize = 0;
    assert(allocators@.skip(0) =~= allocators@);
    while i < allocators.len()
        invariant
            i <= allocators@.len(),
            find_device(allocators@, device_id@) == find_device(
                allocators@.skip(i as int),
                device_id@,
            ),
        decreases allocators@.len() - i,
    {
        assert(allocators@.skip(i as int).drop_first() =~= allocators@.skip(i + 1));
        if text::same_text(allocators[i].seg_device_id.as_str(), device_id) {
            return Some(&allocators[i]);
        }
        i = i + 1;
    }
    None
}

/// Builds the segments of a new incarnation.
fn build_fresh_segments(segments: Vec<SegmentRegistration>) -> (built: KvResult<
    (u64, Vec<OneSegAllocator>),
>)
    ensures
        match (built, fresh_segments(segments@)) {
            (Ok((total, allocators)), Ok((expected_total, expected))) => total == expected_total
                && allocators@ == expected,
            (Err(error), Err(expected)) => error@ == expected,
            _ => false,
        },
{
    let ghost all = segments@;
    let mut rest = segments;
    let mut total_size: u64 = 0;
    let mut allocators: Vec<OneSegAllocator> = Vec::new();
    let mut done: usize = 0;
    let count: usize = rest.len();
    assert(all.take(0) =~= Seq::<SegmentRegistration>::empty());
    assert(rest@ =~= all.skip(0));
    while done < count
        invariant
            all == segments@,
            count == all.len(),
            done <= count,
            rest@ == all.skip(done as int),
            fresh_segments(all.take(done as int)) == Ok::<
                (u64, Seq<OneSegAllocator>),
                KvErrorOf<Seq<char>>,
            >((total_size, allocators@)),
        decreases count - done,
    {
        let segment = rest.remove(0);
        proof {
            assert(rest@ =~= all.skip(done + 1));
            assert(all.take(done + 1).drop_last() =~= all.take(done as int));
            assert(all.take(done + 1).last() == segment);
            lemma_fresh_error_is_final(all, done + 1);
        }
        match segment.allocator {
            Err(error) => {
                return Err(error);
            },
            Ok(created) => {
                let ghost before = allocators@;
                total_size = total_size.saturating_add(segment.mem.len);
                allocators.push(
                    OneSegAllocator::new(
                        segment.device_id,
                        segment.desc,
                        segment.mem.addr,
                        created,
                    ),
                );
            },
        }
        done = done + 1;
    }
    assert(all.take(count as int) =~= all);
    Ok((total_size, allocators))
}

/// The first refused allocator decides, whatever follows it.
proof fn lemma_fresh_error_is_final(segments: Seq<SegmentRegistration>, n: int)
    requires
        0 <= n <= segments.len(),
    ensures
        fresh_segments(segments.take(n)) is Err ==> fresh_segments(segments) == fresh_segments(
            segments.take(n),
        ),
    decreases segments.len() - n,
{
    if n < segments.len() {
        assert(segments.take(n + 1).drop_last() =~= segments.take(n));
        lemma_fresh_error_is_final(segments, n + 1);
    } else {
        assert(segments.take(n) =~= segments);
    }
}

/// The segments of all nodes, and which node incarnations are gone.
pub struct MasterSegManager {
    /// node_id -> segments
    node_allocators_and_tomb_tag: DashMap<NodeID, NodeSegmentsManager>,
    board: TombBoard,
}

/// MasterSegManager module creation parameters.
#[derive(Clone, Copy, Debug)]
pub struct MasterSegManagerNewArg;

impl MasterSegManager {
    /// The segments of the nodes, by node id.
    pub closed spec fn nodes(self) -> Map<Seq<char>, NodeSegments> {
        node_segments(self.node_allocators_and_tomb_tag)
    }

    /// The marks of the node incarnations.
    pub closed spec fn marks(self) -> Seq<bool> {
        self.board@
    }

    /// The node is registered and not gone.
    pub open spec fn alive(self, node_id: Seq<char>) -> bool {
        self.nodes().contains_key(node_id) && !self.nodes()[node_id].tomb_tag.tombed(self.marks())
    }

    /// The segments that can be allocated from on a node: none unless the node is alive.
    pub open spec fn usable_allocators(self, node_id: Seq<char>) -> Seq<OneSegAllocator> {
        if self.alive(node_id) {
            self.nodes()[node_id].allocators
        } else {
            Seq::empty()
        }
    }

    /// A node has at most one segment per device.
    pub open spec fn wf(self) -> bool {
        forall|node_id: Seq<char>| #[trigger]
            self.nodes().contains_key(node_id) ==> one_per_device(
                self.nodes()[node_id].allocators,
            )
    }

    /// Some segment can be allocated from.
    pub open spec fn has_segments(self) -> bool {
        exists|node_id: Seq<char>| (#[trigger] self.usable_allocators(node_id)).len() > 0
    }

    pub fn construct(arg: MasterSegManagerNewArg) -> (manager: Self)
        ensures
            manager.nodes() == Map::<Seq<char>, NodeSegments>::empty(),
            manager.marks() == Seq::<bool>::empty(),
            manager.wf(),
    {
        MasterSegManager { node_allocators_and_tomb_tag: nodes_new(), board: TombBoard::new() }
    }

    pub fn board(&self) -> (board: &TombBoard)
        ensures
            board@ == self.marks(),
    {
        &self.board
    }

    /// Registers the segments of a node.
    ///
    /// A node that is unknown or gone gets the whole set as a new incarnation, or nothing if an
    /// allocator is refused. On a node that is alive registration is re-entrant.
    pub fn register_node_segments(
        &mut self,
        node_id: NodeID,
        segments: Vec<SegmentRegistration>,
    ) -> (result: KvResult<()>)
        ensures
            registered(*old(self), *final(self), node_id@, segments@, result),
            old(self).wf() && distinct_devices(segments@) ==> final(self).wf(),
    {
        proof {
            if self.wf() && self.alive(node_id@) {
                lemma_extended_distinct(self.nodes()[node_id@], node_id@, segments@);
            }
            lemma_fresh_ids(segments@);
        }
        let found = nodes_get(&self.node_allocators_and_tomb_tag, node_id.as_str());
        let alive = match &found {
            Some(node) => !node.tomb_tag.is_tomb(&self.board),
            None => false,
        };
        if !alive {
            match build_fresh_segments(segments) {
                Err(error) => {
                    return Err(error);
                },
                Ok((total_size, allocators)) => {
                    let node = NodeSegmentsManager::new(total_size, allocators, &mut self.board);
                    nodes_insert(&mut self.node_allocators_and_tomb_tag, node_id, node);
                    return Ok(());
                },
            }
        }
        match found {
            Some(node) => {
                let mut node = node;
                let result = extend_node(&mut node, &node_id, segments);
                nodes_insert(&mut self.node_allocators_and_tomb_tag, node_id, node);
                result
            },
            None => Ok(()),
        }
    }

    /// Takes what a node replied when it was asked for its segments: an error is passed on, no
    /// segments are nothing to do, and segments are registered.
    pub fn request_segment_registration(
        &mut self,
        node_id: NodeID,
        reply: KvResult<Vec<SegmentRegistration>>,
    ) -> (result: KvResult<()>)
        ensures
            match reply {
                Err(error) => {
                    &&& result matches Err(e) && e@ == error@
                    &&& final(self).nodes() == old(self).nodes()
                    &&& final(self).marks() == old(self).marks()
                },
                Ok(segments) => if segments@.len() == 0 {
                    &&& result is Ok
                    &&& final(self).nodes() == old(self).nodes()
                    &&& final(self).marks() == old(self).marks()
                } else {
                    registered(*old(self), *final(self), node_id@, segments@, result)
                },
            },
            old(self).wf() && (reply matches Ok(segments) ==> distinct_devices(segments@))
                ==> final(self).wf(),
    {
        match reply {
            Err(error) => Err(error),
            Ok(segments) => {
                if segments.len() == 0 {
                    Ok(())
                } else {
                    self.register_node_segments(node_id, segments)
                }
            },
        }
    }

    /// Marks a node as gone. What was allocated there, and every copy of its tag, sees it.
    pub fn mark_node_tomb(&mut self, node_id: &str)
        ensures
            old(self).wf() ==> final(self).wf(),
            final(self).nodes() == old(self).nodes(),
            final(self).marks() == if old(self).nodes().contains_key(node_id@)
                && old(self).nodes()[node_id@].tomb_tag.slot() < old(self).marks().len() {
                old(self).marks().update(
                    old(self).nodes()[node_id@].tomb_tag.slot() as int,
                    true,
                )
            } else {
                old(self).marks()
            },
    {
        if let Some(node) = nodes_get(&self.node_allocators_and_tomb_tag, node_id) {
            node.tomb_tag.set_tomb(&mut self.board);
        }
        assert(self.nodes() == old(self).nodes());
    }

    pub fn get_node_tomb_tag(&self, node_id: &str) -> (tag: Option<NodeTombTag>)
        ensures
            tag == if self.nodes().contains_key(node_id@) {
                Some(self.nodes()[node_id@].tomb_tag)
            } else {
                None
            },
    {
        match nodes_get(&self.node_allocators_and_tomb_tag, node_id) {
            Some(node) => Some(node.tomb_tag),
            None => None,
        }
    }

    pub fn get_node_allocators(&self, node_id: &str) -> (allocators: Vec<OneSegAllocator>)
        ensures
            allocators@ == self.usable_allocators(node_id@),
    {
        match nodes_get(&self.node_allocators_and_tomb_tag, node_id) {
            Some(node) => {
                if node.tomb_tag.is_tomb(&self.board) {
                    Vec::new()
                } else {
                    node.allocators
                }
            },
            None => Vec::new(),
        }
    }

    /// Every segment that can be allocated from, with its node. Nodes that are gone are forgotten.
    pub fn get_all_segments_allocator(&mut self) -> (segments: Vec<(NodeID, OneSegAllocator)>)
        ensures
            final(self).marks() == old(self).marks(),
            final(self).nodes() == living_nodes(old(self).nodes(), old(self).marks()),
            old(self).wf() ==> final(self).wf(),
            exists|ids: Seq<String>| #[trigger]
                crate::dash::lists_keys(ids, old(self).nodes().dom()) && segments@ == all_usable(
                    *old(self),
                    ids,
                ),
    {
        let ids = nodes_keys(&self.node_allocators_and_tomb_tag);
        let mut segments: Vec<(NodeID, OneSegAllocator)> = Vec::new();
        let mut i: usize = 0;
        assert(ids@.take(0) =~= Seq::<String>::empty());
        while i < ids.len()
            invariant
                i <= ids@.len(),
                crate::dash::lists_keys(ids@, old(self).nodes().dom()),
                self.marks() == old(self).marks(),
                segments@ == all_usable(*old(self), ids@.take(i as int)),
                forall|key: Seq<char>| #[trigger]
                    self.nodes().contains_key(key) <==> old(self).nodes().contains_key(key) && !(
                    gone(*old(self), key) && listed_before(ids@, i as int, key)),
                forall|key: Seq<char>| #[trigger]
                    self.nodes().contains_key(key) ==> self.nodes()[key] == old(self).nodes()[key],
            decreases ids@.len() - i,
        {
            let ghost known = self.nodes();
            let id = ids[i].clone();
            assert(ids@.take(i + 1).drop_last() =~= ids@.take(i as int));
            assert(old(self).nodes().contains_key(id@));
            assert(self.nodes().contains_key(id@)) by {
                if gone(*old(self), id@) && listed_before(ids@, i as int, id@) {
                    let j = choose|j: int| 0 <= j < i && #[trigger] ids@[j]@ == id@;
                    assert(ids@[j]@ != ids@[i as int]@);
                }
            }
            if let Some(node) = nodes_get(&self.node_allocators_and_tomb_tag, id.as_str()) {
                if node.tomb_tag.is_tomb(&self.board) {
                    nodes_remove(&mut self.node_allocators_and_tomb_tag, id.as_str());
                } else {
                    append_segments(&mut segments, &id, node.allocators);
                }
            }
            proof {
                assert forall|key: Seq<char>| #[trigger]
                    self.nodes().contains_key(key) <==> old(self).nodes().contains_key(key) && !(
                    gone(*old(self), key) && listed_before(ids@, i + 1, key)) by {
                    if listed_before(ids@, i + 1, key) && !listed_before(ids@, i as int, key) {
                        let j = choose|j: int| 0 <= j < i + 1 && #[trigger] ids@[j]@ == key;
                        assert(j == i);
                    }
                    if listed_before(ids@, i as int, key) {
                        let j = choose|j: int| 0 <= j < i && #[trigger] ids@[j]@ == key;
                        assert(0 <= j < i + 1 && ids@[j]@ == key);
                    }
                    assert(key == id@ ==> listed_before(ids@, i + 1, key)) by {
                        assert(ids@[i as int]@ == id@);
                    }
                }
            }
            i = i + 1;
        }
        proof {
            assert(ids@.take(ids@.len() as int) =~= ids@);
            assert(self.nodes() =~= living_nodes(old(self).nodes(), old(self).marks())) by {
                assert forall|key: Seq<char>|
                    old(self).nodes().contains_key(key) implies listed_before(
                    ids@,
                    ids@.len() as int,
                    key,
                ) by {
                    assert(old(self).nodes().dom().contains(key));
                }
            }
        }
        segments
    }

    /// The bytes that a node registered; zero for an unknown node.
    pub fn get_node_space_size(&self, node_id: &str) -> (size: u64)
        ensures
            size == if self.nodes().contains_key(node_id@) {
                self.nodes()[node_id@].total_size
            } else {
                0
            },
    {
        match nodes_get(&self.node_allocators_and_tomb_tag, node_id) {
            Some(node) => node.total_size,
            None => 0,
        }
    }
}

/// What registering `segments` for a node does to the manager, and what it returns.
pub open spec fn registered(
    before: MasterSegManager,
    after: MasterSegManager,
    node_id: Seq<char>,
    segments: Seq<SegmentRegistration>,
    result: KvResult<()>,
) -> bool {
    if before.alive(node_id) {
        let (node, expected) = extend_segments(before.nodes()[node_id], node_id, segments);
        &&& crate::error::result_view(result) == expected
        &&& after.nodes() == before.nodes().insert(node_id, node)
        &&& after.marks() == before.marks()
    } else {
        match fresh_segments(segments) {
            Err(error) => {
                &&& result matches Err(e) && e@ == error
                &&& after.nodes() == before.nodes()
                &&& after.marks() == before.marks()
            },
            Ok((total_size, allocators)) => {
                let node = after.nodes()[node_id];
                &&& result is Ok
                &&& node.total_size == total_size
                &&& node.allocators == allocators
                &&& node.tomb_tag.slot() == before.marks().len()
                &&& after.nodes() == before.nodes().insert(node_id, node)
                &&& after.marks() == before.marks().push(false)
            },
        }
    }
}

spec fn gone(manager: MasterSegManager, node_id: Seq<char>) -> bool {
    manager.nodes().contains_key(node_id) && !manager.alive(node_id)
}

spec fn listed_before(ids: Seq<String>, n: int, key: Seq<char>) -> bool {
    exists|j: int| 0 <= j < n && #[trigger] ids[j]@ == key
}

/// The nodes that are not gone.
pub open spec fn living_nodes(nodes: Map<Seq<char>, NodeSegments>, marks: Seq<bool>) -> Map<
    Seq<char>,
    NodeSegments,
> {
    nodes.restrict(
        nodes.dom().filter(|id: Seq<char>| !nodes[id].tomb_tag.tombed(marks)),
    )
}

/// The usable segments of the listed nodes, node by node.
pub open spec fn all_usable(manager: MasterSegManager, ids: Seq<String>) -> Seq<
    (NodeID, OneSegAllocator),
>
    decreases ids.len(),
{
    if ids.len() == 0 {
        Seq::empty()
    } else {
        let id = ids.last();
        all_usable(manager, ids.drop_last()) + manager.usable_allocators(id@).map_values(
            |allocator: OneSegAllocator| (id, allocator),
        )
    }
}

/// Every listed segment can be allocated from on its node.
pub proof fn lemma_all_usable(manager: MasterSegManager, ids: Seq<String>, i: int)
    requires
        0 <= i < all_usable(manager, ids).len(),
    ensures
        manager.usable_allocators(all_usable(manager, ids)[i].0@).contains(
            all_usable(manager, ids)[i].1,
        ),
    decreases ids.len(),
{
    let before = all_usable(manager, ids.drop_last());
    if i < before.len() {
        lemma_all_usable(manager, ids.drop_last(), i);
    } else {
        let usable = manager.usable_allocators(ids.last()@);
        assert(usable[i - before.len()] == all_usable(manager, ids)[i].1);
    }
}

/// Something is listed exactly if some listed node has a segment that can be allocated from.
proof fn lemma_some_usable(manager: MasterSegManager, ids: Seq<String>)
    ensures
        all_usable(manager, ids).len() > 0 <==> exists|i: int|
            0 <= i < ids.len() && manager.usable_allocators((#[trigger] ids[i])@).len() > 0,
    decreases ids.len(),
{
    if ids.len() > 0 {
        let rest = ids.drop_last();
        lemma_some_usable(manager, rest);
        if all_usable(manager, rest).len() > 0 {
            let i = choose|i: int|
                0 <= i < rest.len() && manager.usable_allocators((#[trigger] rest[i])@).len() > 0;
            assert(ids[i] == rest[i]);
        }
        if manager.usable_allocators(ids.last()@).len() > 0 {
            assert(ids[ids.len() - 1] == ids.last());
        }
        if exists|i: int|
            0 <= i < ids.len() && manager.usable_allocators((#[trigger] ids[i])@).len() > 0 {
            let i = choose|i: int|
                0 <= i < ids.len() && manager.usable_allocators((#[trigger] ids[i])@).len() > 0;
            if i < rest.len() {
                assert(rest[i] == ids[i]);
            }
        }
    }
}

/// With every node listed, nothing is listed only if no segment can be allocated from.
pub proof fn lemma_all_usable_nonempty(manager: MasterSegManager, ids: Seq<String>)
    requires
        crate::dash::lists_keys(ids, manager.nodes().dom()),
    ensures
        all_usable(manager, ids).len() > 0 <==> manager.has_segments(),
{
    lemma_some_usable(manager, ids);
    if manager.has_segments() {
        let node_id = choose|node_id: Seq<char>|
            (#[trigger] manager.usable_allocators(node_id)).len() > 0;
        assert(manager.nodes().dom().contains(node_id));
        let i = choose|i: int| 0 <= i < ids.len() && ids[i]@ == node_id;
        assert(manager.usable_allocators(ids[i]@).len() > 0);
    }
}

fn append_segments(
    segments: &mut Vec<(NodeID, OneSegAllocator)>,
    id: &String,
    allocators: Vec<OneSegAllocator>,
)
    ensures
        final(segments)@ == old(segments)@ + allocators@.map_values(
            |allocator: OneSegAllocator| (*id, allocator),
        ),
{
    let mut i: usize = 0;
    while i < allocators.len()
        invariant
            i <= allocators@.len(),
            segments@ =~= old(segments)@ + allocators@.take(i as int).map_values(
                |allocator: OneSegAllocator| (*id, allocator),
            ),
        decreases allocators@.len() - i,
    {
        segments.push((id.clone(), allocators[i].duplicate()));
        i = i + 1;
    }
    assert(allocators@.take(allocators@.len() as int) =~= allocators@);
}

/// Adds the segments that a living node does not have yet.
fn extend_node(
    node: &mut NodeSegmentsManager,
    node_id: &String,
    segments: Vec<SegmentRegistration>,
) -> (result: KvResult<()>)
    ensures
        ({
            let (expected, expected_result) = extend_segments(old(node)@, node_id@, segments@);
            &&& final(node)@ == expected
            &&& crate::error::result_view(result) == expected_result
        }),
{
    let ghost all = segments@;
    let mut rest = segments;
    assert(rest@ =~= all.skip(0));
    let count: usize = rest.len();
    let mut done: usize = 0;
    while done < count
        invariant
            all == segments@,
            count == all.len(),
            done <= count,
            rest@ == all.skip(done as int),
            extend_segments(old(node)@, node_id@, all) == extend_segments(
                node@,
                node_id@,
                rest@,
            ),
        decreases count - done,
    {
        let segment = rest.remove(0);
        proof {
            assert(rest@ =~= all.skip(done + 1));
            assert(all.skip(done as int).drop_first() =~= rest@);
            assert(all.skip(done as int)[0] == segment);
        }
        match find_allocator(&node.allocators, segment.device_id.as_str()) {
            Some(existing) => {
                let same = existing.seg_device_desc == segment.desc && existing.base_addr
                    == segment.mem.addr && existing.total_size == segment.mem.len;
                if !same {
                    return Err(
                        KvError::Unreachable(
                            UnreachableError::DuplicateSegId {
                                device_id: segment.device_id,
                                node_id: node_id.clone(),
                            },
                        ),
                    );
                }
            },
            None => {
                match segment.allocator {
                    Err(error) => {
                        return Err(error);
                    },
                    Ok(created) => {
                        node.allocators.push(
                            OneSegAllocator::new(
                                segment.device_id,
                                segment.desc,
                                segment.mem.addr,
                                created,
                            ),
                        );
                        node.total_size = node.total_size.saturating_add(segment.mem.len);
                    },
                }
            },
        }
        done = done + 1;
    }
    Ok(())
}

/// The device ids of a registration are distinct.
pub open spec fn distinct_devices(segments: Seq<SegmentRegistration>) -> bool {
    forall|i: int, j: int|
        0 <= i < j < segments.len() ==> (#[trigger] segments[i]).device_id@ != (
        #[trigger] segments[j]).device_id@
}

/// Every allocator was created with exactly the registered length.
pub open spec fn created_in_full(segments: Seq<SegmentRegistration>) -> bool {
    forall|i: int| 0 <= i < segments.len() ==> (#[trigger] segments[i]).in_full()
}

proof fn lemma_find_in_fresh(segments: Seq<SegmentRegistration>, i: int)
    requires
        distinct_devices(segments),
        created_in_full(segments),
        0 <= i < segments.len(),
    ensures
        fresh_segments(segments) matches Ok((_, allocators)) && find_device(
            allocators,
            segments[i].device_id@,
        ) == Some(segments[i].with_allocator(segments[i].allocator->Ok_0)),
    decreases segments.len(),
{
    let before = segments.drop_last();
    assert(distinct_devices(before)) by {
        assert forall|a: int, b: int| 0 <= a < b < before.len() implies (
        #[trigger] before[a]).device_id@ != (#[trigger] before[b]).device_id@ by {
            assert(segments[a].device_id@ != segments[b].device_id@);
        }
    }
    assert(created_in_full(before)) by {
        assert forall|a: int| 0 <= a < before.len() implies (#[trigger] before[a]).in_full() by {
            assert(segments[a].in_full());
        }
    }
    assert(segments.last().allocator is Ok) by {
        assert(segments[segments.len() - 1].in_full());
    }
    lemma_fresh_devices(before);
    let allocators = fresh_segments(before)->Ok_0.1;
    let last = segments.last().with_allocator(segments.last().allocator->Ok_0);
    lemma_find_push(allocators, last, segments[i].device_id@);
    if i < before.len() {
        lemma_find_in_fresh(before, i);
        assert(before[i] == segments[i]);
    } else {
        assert forall|k: int| 0 <= k < allocators.len() implies (
        #[trigger] allocators[k]).seg_device_id@ != segments[i].device_id@ by {
            assert(segments[k].device_id@ != segments[i].device_id@);
            assert(before[k] == segments[k]);
        }
        lemma_find_absent(allocators, segments[i].device_id@);
    }
}

proof fn lemma_fresh_devices(segments: Seq<SegmentRegistration>)
    requires
        created_in_full(segments),
    ensures
        fresh_segments(segments) matches Ok((_, allocators)) && allocators.len() == segments.len()
            && forall|k: int|
            0 <= k < segments.len() ==> (#[trigger] allocators[k]).seg_device_id
                == segments[k].device_id,
    decreases segments.len(),
{
    if segments.len() > 0 {
        let before = segments.drop_last();
        assert(created_in_full(before)) by {
            assert forall|a: int| 0 <= a < before.len() implies (
            #[trigger] before[a]).in_full() by {
                assert(segments[a].in_full());
            }
        }
        assert(segments[segments.len() - 1].in_full());
        lemma_fresh_devices(before);
        let allocators = fresh_segments(before)->Ok_0.1;
        let all = fresh_segments(segments)->Ok_0.1;
        assert forall|k: int| 0 <= k < segments.len() implies (#[trigger] all[k]).seg_device_id
            == segments[k].device_id by {
            if k < before.len() {
                assert(all[k] == allocators[k]);
                assert(before[k] == segments[k]);
            }
        }
    }
}

proof fn lemma_find_absent(allocators: Seq<OneSegAllocator>, device_id: Seq<char>)
    requires
        forall|k: int|
            0 <= k < allocators.len() ==> (#[trigger] allocators[k]).seg_device_id@ != device_id,
    ensures
        find_device(allocators, device_id) is None,
    decreases allocators.len(),
{
    if allocators.len() > 0 {
        assert(allocators[0].seg_device_id@ != device_id);
        let rest = allocators.drop_first();
        assert forall|k: int| 0 <= k < rest.len() implies (#[trigger] rest[k]).seg_device_id@
            != device_id by {
            assert(rest[k] == allocators[k + 1]);
        }
        lemma_find_absent(rest, device_id);
    }
}

proof fn lemma_find_push(
    allocators: Seq<OneSegAllocator>,
    last: OneSegAllocator,
    device_id: Seq<char>,
)
    ensures
        find_device(allocators.push(last), device_id) == match find_device(
            allocators,
            device_id,
        ) {
            Some(found) => Some(found),
            None => if last.seg_device_id@ == device_id {
                Some(last)
            } else {
                None
            },
        },
    decreases allocators.len(),
{
    let all = allocators.push(last);
    if allocators.len() > 0 {
        assert(all.drop_first() =~= allocators.drop_first().push(last));
        lemma_find_push(allocators.drop_first(), last, device_id);
    } else {
        reveal_with_fuel(find_device, 2);
        assert(all.drop_first() =~= Seq::<OneSegAllocator>::empty());
    }
}

/// A new incarnation has the devices that were asked for, in order.
proof fn lemma_fresh_ids(segments: Seq<SegmentRegistration>)
    ensures
        fresh_segments(segments) matches Ok((_, allocators)) ==> allocators.len()
            == segments.len() && forall|k: int|
            0 <= k < segments.len() ==> (#[trigger] allocators[k]).seg_device_id
                == segments[k].device_id,
    decreases segments.len(),
{
    if segments.len() > 0 {
        lemma_fresh_ids(segments.drop_last());
    }
}

/// Where no device is found, none of the segments is of it.
proof fn lemma_not_found(allocators: Seq<OneSegAllocator>, device_id: Seq<char>)
    requires
        find_device(allocators, device_id) is None,
    ensures
        forall|k: int|
            0 <= k < allocators.len() ==> (#[trigger] allocators[k]).seg_device_id@ != device_id,
    decreases allocators.len(),
{
    if allocators.len() > 0 {
        let rest = allocators.drop_first();
        lemma_not_found(rest, device_id);
        assert forall|k: int| 0 <= k < allocators.len() implies (
        #[trigger] allocators[k]).seg_device_id@ != device_id by {
            if k > 0 {
                assert(rest[k - 1] == allocators[k]);
            }
        }
    }
}

/// Registration on a living node adds no second segment for a device.
proof fn lemma_extended_distinct(
    node: NodeSegments,
    node_id: Seq<char>,
    segments: Seq<SegmentRegistration>,
)
    requires
        one_per_device(node.allocators),
    ensures
        one_per_device(extend_segments(node, node_id, segments).0.allocators),
    decreases segments.len(),
{
    if segments.len() > 0 {
        let segment = segments[0];
        match find_device(node.allocators, segment.device_id@) {
            Some(existing) => {
                if segment.matches_allocator(existing) {
                    lemma_extended_distinct(node, node_id, segments.drop_first());
                }
            },
            None => {
                lemma_not_found(node.allocators, segment.device_id@);
                if let Ok(created) = segment.allocator {
                    let more = NodeSegments {
                        total_size: saturating_sum(node.total_size, segment.mem.len),
                        allocators: node.allocators.push(segment.with_allocator(created)),
                        tomb_tag: node.tomb_tag,
                    };
                    lemma_extended_distinct(more, node_id, segments.drop_first());
                }
            },
        }
    }
}

/// However often nodes register, a node has at most one segment per device.
pub proof fn law_one_segment_per_device(
    before: MasterSegManager,
    after: MasterSegManager,
    node_id: Seq<char>,
    segments: Seq<SegmentRegistration>,
    result: KvResult<()>,
)
    requires
        before.wf(),
        distinct_devices(segments),
        registered(before, after, node_id, segments, result),
    ensures
        after.wf(),
{
    if before.alive(node_id) {
        lemma_extended_distinct(before.nodes()[node_id], node_id, segments);
    } else {
        lemma_fresh_ids(segments);
    }
}

/// Registering again what a living node has already changes nothing and succeeds.
pub proof fn law_registration_is_reentrant(
    node: NodeSegments,
    node_id: Seq<char>,
    segments: Seq<SegmentRegistration>,
)
    requires
        forall|i: int|
            0 <= i < segments.len() ==> (#[trigger] segments[i]).present_on(node),
    ensures
        extend_segments(node, node_id, segments) == (node, Ok::<(), KvErrorOf<Seq<char>>>(())),
    decreases segments.len(),
{
    if segments.len() > 0 {
        assert(segments[0].present_on(node));
        let rest = segments.drop_first();
        assert forall|i: int| 0 <= i < rest.len() implies (#[trigger] rest[i]).present_on(node) by {
            assert(rest[i] == segments[i + 1]);
        }
        law_registration_is_reentrant(node, node_id, rest);
    }
}

/// A retry of a registration that went through leaves the node as the first one made it.
pub proof fn law_retried_registration_changes_nothing(
    node: NodeSegments,
    node_id: Seq<char>,
    segments: Seq<SegmentRegistration>,
)
    requires
        distinct_devices(segments),
        created_in_full(segments),
        fresh_segments(segments) matches Ok((_, allocators)) && node.allocators == allocators,
    ensures
        extend_segments(node, node_id, segments) == (node, Ok::<(), KvErrorOf<Seq<char>>>(())),
{
    assert forall|i: int| 0 <= i < segments.len() implies (#[trigger] segments[i]).present_on(
        node,
    ) by {
        lemma_find_in_fresh(segments, i);
    }
    law_registration_is_reentrant(node, node_id, segments);
}

/// A node incarnation that is marked as gone stays so: later registrations and marks do not revive
/// it.
pub proof fn law_tomb_mark_is_permanent(tag: NodeTombTag, marks: Seq<bool>, slot: int)
    requires
        tag.tombed(marks),
    ensures
        tag.tombed(marks.push(false)),
        0 <= slot < marks.len() ==> tag.tombed(marks.update(slot, true)),
{
}

/// A new incarnation has a mark of its own: it is not gone while every earlier one keeps its mark.
pub proof fn law_new_incarnation_is_distinct(
    earlier: NodeTombTag,
    later: NodeTombTag,
    marks: Seq<bool>,
)
    requires
        earlier.slot() < marks.len(),
        later.slot() == marks.len(),
    ensures
        earlier != later,
        !later.tombed(marks.push(false)),
        earlier.tombed(marks.push(false)) == earlier.tombed(marks),
{
}

} // verus!
