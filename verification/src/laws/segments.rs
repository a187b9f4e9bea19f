//! Segment registration: what a node offers is what can be allocated from.

use crate::error::KvResult;
use crate::master_seg_manager::msg_pack::SegmentRegistration;
use crate::master_seg_manager::one_seg_allocator::OneSegAllocator;
use crate::master_seg_manager::{MasterSegManager, NodeSegments};
use vstd::prelude::*;

verus! {

/// The segment has the device, the description and the place that were asked for, and the capacity
/// of the registration or of the allocator that came with it.
pub open spec fn serves(segment: OneSegAllocator, asked: SegmentRegistration) -> bool {
    &&& segment.seg_device_id@ == asked.device_id@
    &&& segment.seg_device_desc == asked.desc
    &&& segment.base_addr == asked.mem.addr
    &&& segment.total_size == asked.mem.len || (asked.allocator matches Ok(created) && segment.id
        == created.id && segment.total_size == created.total_size)
}

/// The node is known, and the mark of its incarnation is not set.
pub open spec fn living(manager: MasterSegManager, node_id: Seq<char>) -> bool {
    manager.nodes().contains_key(node_id) && !gone(manager.nodes()[node_id], manager.marks())
}

/// The mark of the incarnation is set.
pub open spec fn gone(node: NodeSegments, marks: Seq<bool>) -> bool {
    node.tomb_tag.slot() < marks.len() && marks[node.tomb_tag.slot() as int]
}

/// The device is among those of the segments.
pub open spec fn offers(segments: Seq<OneSegAllocator>, device_id: Seq<char>) -> bool {
    exists|k: int| 0 <= k < segments.len() && (#[trigger] segments[k]).seg_device_id@ == device_id
}

/// The bytes of the registered devices that are not among the segments yet.
pub open spec fn new_bytes(
    asked: Seq<SegmentRegistration>,
    segments: Seq<OneSegAllocator>,
) -> int
    decreases asked.len(),
{
    if asked.len() == 0 {
        0
    } else {
        new_bytes(asked.drop_first(), segments) + if offers(segments, asked[0].device_id@) {
            0
        } else {
            asked[0].mem.len as int
        }
    }
}

/// A sum of sizes, as far as it fits.
pub open spec fn bounded(total: int) -> int {
    if total > u64::MAX {
        u64::MAX as int
    } else {
        total
    }
}

/// `find_device` finds a segment of the device if there is one.
proof fn lemma_find(segments: Seq<OneSegAllocator>, device_id: Seq<char>)
    ensures
        match crate::master_seg_manager::find_device(segments, device_id) {
            Some(found) => exists|k: int|
                0 <= k < segments.len() && #[trigger] segments[k] == found
                    && found.seg_device_id@ == device_id,
            None => !offers(segments, device_id),
        },
    decreases segments.len(),
{
    if segments.len() > 0 && segments[0].seg_device_id@ != device_id {
        let rest = segments.drop_first();
        lemma_find(rest, device_id);
        if let Some(found) = crate::master_seg_manager::find_device(rest, device_id) {
            let k = choose|k: int| 0 <= k < rest.len() && #[trigger] rest[k] == found;
            assert(segments[k + 1] == found);
        } else if offers(segments, device_id) {
            let k = choose|k: int|
                0 <= k < segments.len() && (#[trigger] segments[k]).seg_device_id@ == device_id;
            assert(rest[k - 1].seg_device_id@ == device_id);
        }
    } else if segments.len() > 0 {
        assert(segments[0].seg_device_id@ == device_id);
    }
}

/// How the bytes of new devices change when a segment of another device is added.
proof fn lemma_new_bytes_push(
    asked: Seq<SegmentRegistration>,
    segments: Seq<OneSegAllocator>,
    added: OneSegAllocator,
)
    requires
        forall|i: int|
            0 <= i < asked.len() ==> (#[trigger] asked[i]).device_id@ != added.seg_device_id@,
    ensures
        new_bytes(asked, segments.push(added)) == new_bytes(asked, segments),
        new_bytes(asked, segments) >= 0,
    decreases asked.len(),
{
    if asked.len() > 0 {
        let rest = asked.drop_first();
        assert forall|i: int| 0 <= i < rest.len() implies (#[trigger] rest[i]).device_id@
            != added.seg_device_id@ by {
            assert(rest[i] == asked[i + 1]);
        }
        lemma_new_bytes_push(rest, segments, added);
        let device = asked[0].device_id@;
        let more = segments.push(added);
        if offers(segments, device) {
            let k = choose|k: int|
                0 <= k < segments.len() && (#[trigger] segments[k]).seg_device_id@ == device;
            assert(more[k].seg_device_id@ == device);
        }
        if offers(more, device) {
            let k = choose|k: int|
                0 <= k < more.len() && (#[trigger] more[k]).seg_device_id@ == device;
            assert(more[k] == segments[k]);
        }
    }
}

/// What was there stays in its place.
pub open spec fn grew(before: Seq<OneSegAllocator>, after: Seq<OneSegAllocator>) -> bool {
    &&& before.len() <= after.len()
    &&& forall|k: int| 0 <= k < before.len() ==> #[trigger] after[k] == before[k]
}

/// Every registered device is served.
pub open spec fn all_served(asked: Seq<SegmentRegistration>, segments: Seq<OneSegAllocator>) -> bool {
    forall|i: int| 0 <= i < asked.len() ==> served(#[trigger] asked[i], segments)
}

pub open spec fn served(asked: SegmentRegistration, segments: Seq<OneSegAllocator>) -> bool {
    exists|k: int| 0 <= k < segments.len() && serves(#[trigger] segments[k], asked)
}

/// Every segment that is new was registered.
pub open spec fn all_asked(
    asked: Seq<SegmentRegistration>,
    before: Seq<OneSegAllocator>,
    after: Seq<OneSegAllocator>,
) -> bool {
    forall|k: int|
        before.len() <= k < after.len() ==> asked_for(#[trigger] after[k], asked)
}

pub open spec fn asked_for(segment: OneSegAllocator, asked: Seq<SegmentRegistration>) -> bool {
    exists|i: int| 0 <= i < asked.len() && serves(segment, #[trigger] asked[i])
}

proof fn lemma_extended(
    node: NodeSegments,
    node_id: Seq<char>,
    asked: Seq<SegmentRegistration>,
)
    ensures
        ({
            let (after, result) = crate::master_seg_manager::extend_segments(node, node_id, asked);
            &&& grew(node.allocators, after.allocators)
            &&& after.tomb_tag == node.tomb_tag
            &&& node.total_size <= after.total_size
            &&& result is Ok ==> all_served(asked, after.allocators)
            &&& all_asked(asked, node.allocators, after.allocators)
        }),
    decreases asked.len(),
{
    if asked.len() > 0 {
        let segment = asked[0];
        let rest = asked.drop_first();
        let (after, result) = crate::master_seg_manager::extend_segments(node, node_id, asked);
        lemma_find(node.allocators, segment.device_id@);
        match crate::master_seg_manager::find_device(node.allocators, segment.device_id@) {
            Some(existing) => {
                if segment.matches_allocator(existing) {
                    lemma_extended(node, node_id, rest);
                    let k = choose|k: int|
                        0 <= k < node.allocators.len() && #[trigger] node.allocators[k] == existing
                            && existing.seg_device_id@ == segment.device_id@;
                    assert(serves(after.allocators[k], segment));
                }
            },
            None => {
                if let Ok(created) = segment.allocator {
                    let added = segment.with_allocator(created);
                    let more = NodeSegments {
                        total_size: crate::master_seg_manager::saturating_sum(
                            node.total_size,
                            segment.mem.len,
                        ),
                        allocators: node.allocators.push(added),
                        tomb_tag: node.tomb_tag,
                    };
                    lemma_extended(more, node_id, rest);
                    let at = node.allocators.len() as int;
                    assert(after.allocators[at] == more.allocators[at]);
                    assert(serves(after.allocators[at], segment));
                    assert forall|k: int| 0 <= k < node.allocators.len() implies #[trigger]
                        after.allocators[k] == node.allocators[k] by {
                        assert(after.allocators[k] == more.allocators[k]);
                    }
                }
            },
        }
        assert forall|i: int| result is Ok && 0 <= i < asked.len() implies served(
            #[trigger] asked[i],
            after.allocators,
        ) by {
            if i > 0 {
                assert(served(rest[i - 1], after.allocators));
            }
        }
        assert forall|k: int| node.allocators.len() <= k < after.allocators.len() implies asked_for(
            #[trigger] after.allocators[k],
            asked,
        ) by {
            if k == node.allocators.len() && serves(after.allocators[k], asked[0]) {
            } else {
                assert(asked_for(after.allocators[k], rest));
                let i = choose|i: int|
                    0 <= i < rest.len() && serves(after.allocators[k], #[trigger] rest[i]);
                assert(serves(after.allocators[k], asked[i + 1]));
            }
        }
    }
}

proof fn lemma_extended_bytes(
    node: NodeSegments,
    node_id: Seq<char>,
    asked: Seq<SegmentRegistration>,
)
    requires
        each_device_once(asked),
    ensures
        ({
            let (after, result) = crate::master_seg_manager::extend_segments(node, node_id, asked);
            result is Ok ==> after.total_size == bounded(
                node.total_size + new_bytes(asked, node.allocators),
            )
        }),
        new_bytes(asked, node.allocators) >= 0,
    decreases asked.len(),
{
    if asked.len() > 0 {
        let segment = asked[0];
        let rest = asked.drop_first();
        assert(each_device_once(rest)) by {
            assert forall|i: int, j: int| 0 <= i < j < rest.len() implies (
            #[trigger] rest[i]).device_id@ != (#[trigger] rest[j]).device_id@ by {
                assert(asked[i + 1].device_id@ != asked[j + 1].device_id@);
            }
        }
        lemma_find(node.allocators, segment.device_id@);
        lemma_extended_bytes(node, node_id, rest);
        if let Ok(created) = segment.allocator {
            let added = segment.with_allocator(created);
            let more = NodeSegments {
                total_size: crate::master_seg_manager::saturating_sum(
                    node.total_size,
                    segment.mem.len,
                ),
                allocators: node.allocators.push(added),
                tomb_tag: node.tomb_tag,
            };
            lemma_extended_bytes(more, node_id, rest);
            assert forall|i: int| 0 <= i < rest.len() implies (#[trigger] rest[i]).device_id@
                != added.seg_device_id@ by {
                assert(asked[0].device_id@ != asked[i + 1].device_id@);
            }
            lemma_new_bytes_push(rest, node.allocators, added);
        }
        if crate::master_seg_manager::find_device(node.allocators, segment.device_id@) is Some {
            let existing = crate::master_seg_manager::find_device(
                node.allocators,
                segment.device_id@,
            )->0;
            let k = choose|k: int|
                0 <= k < node.allocators.len() && #[trigger] node.allocators[k] == existing
                    && existing.seg_device_id@ == segment.device_id@;
            assert(node.allocators[k].seg_device_id@ == segment.device_id@);
            assert(offers(node.allocators, segment.device_id@));
        }
    }
}

/// No device is registered twice at once.
pub open spec fn each_device_once(asked: Seq<SegmentRegistration>) -> bool {
    forall|i: int, j: int|
        0 <= i < j < asked.len() ==> (#[trigger] asked[i]).device_id@ != (
        #[trigger] asked[j]).device_id@
}

/// A registration on a living node that succeeds leaves the node with every device that it
/// registered, with all that it had before and with nothing else, in the same incarnation. Its size
/// grows by the bytes of the devices that are new.
pub proof fn law_registered_segments_are_there(
    before: MasterSegManager,
    after: MasterSegManager,
    node_id: Seq<char>,
    asked: Seq<SegmentRegistration>,
    result: KvResult<()>,
)
    requires
        crate::master_seg_manager::registered(before, after, node_id, asked, result),
        living(before, node_id),
    ensures
        after.marks() == before.marks(),
        living(after, node_id),
        ({
            let had = before.nodes()[node_id];
            let has = after.nodes()[node_id];
            &&& has.tomb_tag == had.tomb_tag
            &&& grew(had.allocators, has.allocators)
            &&& all_asked(asked, had.allocators, has.allocators)
            &&& result is Ok ==> all_served(asked, has.allocators)
            &&& result is Ok && each_device_once(asked) ==> has.total_size == bounded(
                had.total_size + new_bytes(asked, had.allocators),
            )
        }),
        after.usable_allocators(node_id) == after.nodes()[node_id].allocators,
        forall|other: Seq<char>|
            other != node_id ==> (#[trigger] after.nodes().contains_key(other)
                <==> before.nodes().contains_key(other)),
        forall|other: Seq<char>|
            other != node_id && before.nodes().contains_key(other) ==> #[trigger] after.nodes()[other]
                == before.nodes()[other],
{
    let had = before.nodes()[node_id];
    lemma_extended(had, node_id, asked);
    if each_device_once(asked) {
        lemma_extended_bytes(had, node_id, asked);
    }
}

/// The bytes that are registered.
pub open spec fn all_bytes(asked: Seq<SegmentRegistration>) -> int
    decreases asked.len(),
{
    if asked.len() == 0 {
        0
    } else {
        all_bytes(asked.drop_last()) + asked.last().mem.len
    }
}

proof fn lemma_fresh(asked: Seq<SegmentRegistration>)
    ensures
        match crate::master_seg_manager::fresh_segments(asked) {
            Ok((total, segments)) => {
                &&& total == bounded(all_bytes(asked))
                &&& segments.len() == asked.len()
                &&& forall|k: int|
                    0 <= k < asked.len() ==> (#[trigger] asked[k]).allocator is Ok && serves(
                        segments[k],
                        asked[k],
                    ) && segments[k].id == asked[k].allocator->Ok_0.id && segments[k].total_size
                        == asked[k].allocator->Ok_0.total_size
            },
            Err(error) => exists|i: int|
                0 <= i < asked.len() && (#[trigger] asked[i]).allocator is Err
                    && asked[i].allocator->Err_0@ == error && forall|j: int|
                    0 <= j < i ==> (#[trigger] asked[j]).allocator is Ok,
        },
        all_bytes(asked) >= 0,
    decreases asked.len(),
{
    if asked.len() > 0 {
        let before = asked.drop_last();
        lemma_fresh(before);
        match crate::master_seg_manager::fresh_segments(before) {
            Ok((total, segments)) => {
                assert forall|k: int| 0 <= k < before.len() implies #[trigger] asked[k]
                    == before[k] by {}
                if asked.last().allocator is Err {
                    let last = asked.len() - 1;
                    assert(asked[last].allocator is Err);
                    assert forall|j: int| 0 <= j < last implies (
                    #[trigger] asked[j]).allocator is Ok by {
                        assert(before[j].allocator is Ok);
                    }
                } else {
                    let all = crate::master_seg_manager::fresh_segments(asked)->Ok_0.1;
                    assert forall|k: int| 0 <= k < asked.len() implies (
                    #[trigger] asked[k]).allocator is Ok && serves(all[k], asked[k]) && all[k].id
                        == asked[k].allocator->Ok_0.id && all[k].total_size
                        == asked[k].allocator->Ok_0.total_size by {
                        if k < before.len() {
                            assert(before[k].allocator is Ok);
                            assert(all[k] == segments[k]);
                        }
                    }
                }
            },
            Err(error) => {
                let i = choose|i: int|
                    0 <= i < before.len() && (#[trigger] before[i]).allocator is Err
                        && before[i].allocator->Err_0@ == error && forall|j: int|
                        0 <= j < i ==> (#[trigger] before[j]).allocator is Ok;
                assert(asked[i].allocator is Err);
                assert forall|j: int| 0 <= j < i implies (#[trigger] asked[j]).allocator is Ok by {
                    assert(before[j].allocator is Ok);
                }
            },
        }
    }
}

/// A node that is unknown or gone registers as a new incarnation: with just the segments that it
/// names, in their order, and with a mark of its own that is not set. Where an allocator is refused
/// nothing changes, and the first refusal is the answer.
pub proof fn law_new_incarnation_has_what_it_registered(
    before: MasterSegManager,
    after: MasterSegManager,
    node_id: Seq<char>,
    asked: Seq<SegmentRegistration>,
    result: KvResult<()>,
)
    requires
        crate::master_seg_manager::registered(before, after, node_id, asked, result),
        !living(before, node_id),
    ensures
        result is Ok <==> forall|i: int|
            0 <= i < asked.len() ==> (#[trigger] asked[i]).allocator is Ok,
        result is Ok ==> {
            let has = after.nodes()[node_id];
            &&& living(after, node_id)
            &&& after.usable_allocators(node_id) == has.allocators
            &&& has.allocators.len() == asked.len()
            &&& forall|k: int|
                0 <= k < asked.len() ==> serves(#[trigger] has.allocators[k], asked[k])
                    && has.allocators[k].id == asked[k].allocator->Ok_0.id
                    && has.allocators[k].total_size == asked[k].allocator->Ok_0.total_size
            &&& has.total_size == bounded(all_bytes(asked))
            &&& after.marks() == before.marks().push(false)
            &&& has.tomb_tag.slot() == before.marks().len()
        },
        result matches Err(error) ==> {
            &&& after.nodes() == before.nodes()
            &&& after.marks() == before.marks()
            &&& exists|i: int|
                0 <= i < asked.len() && (#[trigger] asked[i]).allocator is Err
                    && asked[i].allocator->Err_0@ == error@ && forall|j: int|
                    0 <= j < i ==> (#[trigger] asked[j]).allocator is Ok
        },
        forall|other: Seq<char>|
            other != node_id ==> (#[trigger] after.nodes().contains_key(other)
                <==> before.nodes().contains_key(other)),
        forall|other: Seq<char>|
            other != node_id && before.nodes().contains_key(other) ==> #[trigger] after.nodes()[other]
                == before.nodes()[other],
{
    lemma_fresh(asked);
    if result is Ok {
        let has = after.nodes()[node_id];
        assert forall|k: int| 0 <= k < asked.len() implies serves(
            #[trigger] has.allocators[k],
            asked[k],
        ) && has.allocators[k].id == asked[k].allocator->Ok_0.id && has.allocators[k].total_size
            == asked[k].allocator->Ok_0.total_size by {
            assert(asked[k].allocator is Ok);
        }
    }
}

/// The registration agrees with what the node has of its device, and where the node has nothing of
/// it an allocator was created.
pub open spec fn agrees(asked: SegmentRegistration, segments: Seq<OneSegAllocator>) -> bool {
    &&& forall|k: int|
        0 <= k < segments.len() && (#[trigger] segments[k]).seg_device_id@ == asked.device_id@ ==> {
            &&& segments[k].seg_device_desc == asked.desc
            &&& segments[k].base_addr == asked.mem.addr
            &&& segments[k].total_size == asked.mem.len
        }
    &&& !offers(segments, asked.device_id@) ==> asked.allocator is Ok
}

proof fn lemma_extension_succeeds(
    node: NodeSegments,
    node_id: Seq<char>,
    asked: Seq<SegmentRegistration>,
)
    requires
        each_device_once(asked),
        forall|i: int, j: int|
            0 <= i < j < node.allocators.len() ==> (
            #[trigger] node.allocators[i]).seg_device_id@ != (
            #[trigger] node.allocators[j]).seg_device_id@,
    ensures
        crate::master_seg_manager::extend_segments(node, node_id, asked).1 is Ok <==> forall|
            i: int,
        |
            0 <= i < asked.len() ==> agrees(#[trigger] asked[i], node.allocators),
    decreases asked.len(),
{
    if asked.len() > 0 {
        let segment = asked[0];
        let rest = asked.drop_first();
        assert(each_device_once(rest)) by {
            assert forall|i: int, j: int| 0 <= i < j < rest.len() implies (
            #[trigger] rest[i]).device_id@ != (#[trigger] rest[j]).device_id@ by {
                assert(asked[i + 1].device_id@ != asked[j + 1].device_id@);
            }
        }
        lemma_find(node.allocators, segment.device_id@);
        lemma_extension_succeeds(node, node_id, rest);
        match crate::master_seg_manager::find_device(node.allocators, segment.device_id@) {
            Some(existing) => {
                let at = choose|k: int|
                    0 <= k < node.allocators.len() && #[trigger] node.allocators[k] == existing
                        && existing.seg_device_id@ == segment.device_id@;
                assert(offers(node.allocators, segment.device_id@)) by {
                    assert(node.allocators[at].seg_device_id@ == segment.device_id@);
                }
                assert(agrees(segment, node.allocators) <==> segment.matches_allocator(existing))
                    by {
                    assert forall|k: int|
                        0 <= k < node.allocators.len() && (
                        #[trigger] node.allocators[k]).seg_device_id@
                            == segment.device_id@ implies k == at by {
                        if k < at {
                            assert(node.allocators[k].seg_device_id@
                                != node.allocators[at].seg_device_id@);
                        } else if at < k {
                            assert(node.allocators[at].seg_device_id@
                                != node.allocators[k].seg_device_id@);
                        }
                    }
                }
            },
            None => {
                assert(agrees(segment, node.allocators) <==> segment.allocator is Ok);
                if let Ok(created) = segment.allocator {
                    let added = segment.with_allocator(created);
                    let more = NodeSegments {
                        total_size: crate::master_seg_manager::saturating_sum(
                            node.total_size,
                            segment.mem.len,
                        ),
                        allocators: node.allocators.push(added),
                        tomb_tag: node.tomb_tag,
                    };
                    lemma_extension_succeeds(more, node_id, rest);
                    assert forall|i: int| 0 <= i < rest.len() implies (agrees(
                        #[trigger] rest[i],
                        more.allocators,
                    ) <==> agrees(rest[i], node.allocators)) by {
                        assert(asked[0].device_id@ != asked[i + 1].device_id@);
                        let device = rest[i].device_id@;
                        assert forall|k: int| 0 <= k < node.allocators.len() implies #[trigger]
                            more.allocators[k] == node.allocators[k] by {}
                        if offers(node.allocators, device) {
                            let k = choose|k: int|
                                0 <= k < node.allocators.len() && (
                                #[trigger] node.allocators[k]).seg_device_id@ == device;
                            assert(more.allocators[k].seg_device_id@ == device);
                        }
                        if offers(more.allocators, device) {
                            let k = choose|k: int|
                                0 <= k < more.allocators.len() && (
                                #[trigger] more.allocators[k]).seg_device_id@ == device;
                            assert(node.allocators[k].seg_device_id@ == device);
                        }
                        if agrees(rest[i], more.allocators) {
                            assert forall|k: int|
                                0 <= k < node.allocators.len() && (
                                #[trigger] node.allocators[k]).seg_device_id@ == device implies {
                                &&& node.allocators[k].seg_device_desc == rest[i].desc
                                &&& node.allocators[k].base_addr == rest[i].mem.addr
                                &&& node.allocators[k].total_size == rest[i].mem.len
                            } by {
                                assert(more.allocators[k].seg_device_id@ == device);
                            }
                        }
                    }
                }
            },
        }
        let ok = crate::master_seg_manager::extend_segments(node, node_id, asked).1 is Ok;
        if ok {
            assert forall|i: int| 0 <= i < asked.len() implies agrees(
                #[trigger] asked[i],
                node.allocators,
            ) by {
                if i > 0 {
                    assert(asked[i] == rest[i - 1]);
                }
            }
        }
        if forall|i: int| 0 <= i < asked.len() ==> agrees(#[trigger] asked[i], node.allocators) {
            assert(agrees(asked[0], node.allocators));
            assert forall|i: int| 0 <= i < rest.len() implies agrees(
                #[trigger] rest[i],
                node.allocators,
            ) by {
                assert(rest[i] == asked[i + 1]);
            }
        }
    }
}

/// A registration on a living node succeeds exactly if every device agrees with what the node has of
/// it or is new and has an allocator.
pub proof fn law_registration_fails_only_on_disagreement(
    before: MasterSegManager,
    after: MasterSegManager,
    node_id: Seq<char>,
    asked: Seq<SegmentRegistration>,
    result: KvResult<()>,
)
    requires
        crate::master_seg_manager::registered(before, after, node_id, asked, result),
        living(before, node_id),
        before.wf(),
        each_device_once(asked),
    ensures
        result is Ok <==> forall|i: int|
            0 <= i < asked.len() ==> agrees(
                #[trigger] asked[i],
                before.nodes()[node_id].allocators,
            ),
{
    lemma_extension_succeeds(before.nodes()[node_id], node_id, asked);
}

/// The segment is listed for the node.
pub open spec fn is_listed(
    listed: Seq<(String, OneSegAllocator)>,
    node_id: Seq<char>,
    segment: OneSegAllocator,
) -> bool {
    exists|i: int|
        0 <= i < listed.len() && (#[trigger] listed[i]).0@ == node_id && listed[i].1 == segment
}

/// The list of segments to allocate from holds the segments of the living nodes, all of them and no
/// other; the nodes that are gone are forgotten and the living ones stay as they are.
pub proof fn law_segments_of_living_nodes_are_listed(
    before: MasterSegManager,
    after: MasterSegManager,
    ids: Seq<String>,
    listed: Seq<(String, OneSegAllocator)>,
)
    requires
        crate::dash::lists_keys(ids, before.nodes().dom()),
        listed == crate::master_seg_manager::all_usable(before, ids),
        after.nodes() == crate::master_seg_manager::living_nodes(before.nodes(), before.marks()),
    ensures
        forall|i: int|
            0 <= i < listed.len() ==> living(before, (#[trigger] listed[i]).0@)
                && before.nodes()[listed[i].0@].allocators.contains(listed[i].1),
        forall|node_id: Seq<char>, k: int|
            living(before, node_id) && 0 <= k < before.nodes()[node_id].allocators.len()
                ==> is_listed(
                listed,
                node_id,
                #[trigger] before.nodes()[node_id].allocators[k],
            ),
        forall|node_id: Seq<char>| #[trigger]
            after.nodes().contains_key(node_id) <==> living(before, node_id),
        forall|node_id: Seq<char>| #[trigger]
            after.nodes().contains_key(node_id) ==> after.nodes()[node_id]
                == before.nodes()[node_id],
{
    assert forall|i: int| 0 <= i < listed.len() implies living(before, (#[trigger] listed[i]).0@)
        && before.nodes()[listed[i].0@].allocators.contains(listed[i].1) by {
        crate::master_seg_manager::lemma_all_usable(before, ids, i);
    }
    assert forall|node_id: Seq<char>, k: int|
        living(before, node_id) && 0 <= k
            < before.nodes()[node_id].allocators.len() implies is_listed(
        listed,
        node_id,
        #[trigger] before.nodes()[node_id].allocators[k],
    ) by {
        assert(before.nodes().dom().contains(node_id));
        let n = choose|n: int| 0 <= n < ids.len() && ids[n]@ == node_id;
        lemma_listed(before, ids, n, k);
    }
}

proof fn lemma_listed(manager: MasterSegManager, ids: Seq<String>, n: int, k: int)
    requires
        0 <= n < ids.len(),
        living(manager, ids[n]@),
        0 <= k < manager.nodes()[ids[n]@].allocators.len(),
    ensures
        exists|i: int|
            0 <= i < crate::master_seg_manager::all_usable(manager, ids).len() && (
            #[trigger] crate::master_seg_manager::all_usable(manager, ids)[i]).0@ == ids[n]@
                && crate::master_seg_manager::all_usable(manager, ids)[i].1
                == manager.nodes()[ids[n]@].allocators[k],
    decreases ids.len(),
{
    let listed = crate::master_seg_manager::all_usable(manager, ids);
    let rest = ids.drop_last();
    let earlier = crate::master_seg_manager::all_usable(manager, rest);
    if n == rest.len() {
        let i = earlier.len() + k;
        assert(listed[i].1 == manager.nodes()[ids[n]@].allocators[k]);
        assert(listed[i].0@ == ids[n]@);
    } else {
        lemma_listed(manager, rest, n, k);
        let i = choose|i: int|
            0 <= i < earlier.len() && (#[trigger] earlier[i]).0@ == rest[n]@ && earlier[i].1
                == manager.nodes()[rest[n]@].allocators[k];
        assert(listed[i] == earlier[i]);
    }
}

} // verus!
