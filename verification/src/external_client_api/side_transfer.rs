//! Side workers: helpers of the owner that take over transfers, one per lane.

use crate::cluster_manager::ClusterMember;
use crate::error::{KvError, KvErrorOf, P2PError, P2PErrorOf};
use crate::master_kv_router::put::{META_KEY_SHARED_STORAGE_NODE_ID, META_KEY_SHARED_STORAGE_NODE_START_TIME};
use crate::text;
use moka::sync::SegmentedCache;
use std::time::Duration;
use vstd::prelude::*;

verus! {

/// Metadata key of the flag that marks a side worker.
pub const META_KEY_SIDE_TRANSFER_WORKER: &'static str = "side_transfer_worker";

/// What a side worker writes about itself into the owner's shared directory.
pub struct SideTransferPeerFileMeta {
    pub owner_id: String,
    pub owner_start_time: i64,
    pub side_id: String,
    pub worker_idx: Option<u16>,
}

/// A peer file that could be read, and the member that it names, where the cluster knows it.
pub struct SideTransferPeer {
    pub meta: SideTransferPeerFileMeta,
    pub member: Option<ClusterMember>,
}

/// The lane that a put belongs to. It depends on the put alone, so all clients agree on it.
pub open spec fn lane_of_put(put_id: (u64, u32), lane_count: usize) -> u16 {
    (((put_id.0 ^ (put_id.1 as u64)) as usize) % lane_count) as u16
}

/// The lane that a put belongs to, if there are lanes.
pub fn stable_side_transfer_lane_for_put(put_id: (u64, u32), lane_count: usize) -> (lane: Option<
    u16,
>)
    ensures
        lane is None <==> lane_count == 0,
        lane matches Some(lane) ==> lane == lane_of_put(put_id, lane_count),
{
    if lane_count == 0 {
        return None;
    }
    Some((((put_id.0 ^ (put_id.1 as u64)) as usize) % lane_count) as u16)
}

/// The lane of a put is one of the lanes that there are.
pub proof fn law_lane_of_put_exists(put_id: (u64, u32), lane_count: usize)
    requires
        0 < lane_count <= 65536,
    ensures
        lane_of_put(put_id, lane_count) < lane_count,
{
}

impl SideTransferPeer {
    /// The peer works for this generation of the owner, and the cluster says so too.
    pub open spec fn serves(self, owner_id: Seq<char>, owner_start_time: i64) -> bool {
        &&& self.meta.owner_id@ == owner_id
        &&& self.meta.owner_start_time == owner_start_time
        &&& self.member matches Some(member) && member.metadata.flag(
            META_KEY_SIDE_TRANSFER_WORKER@,
        ) && member.metadata.value(META_KEY_SHARED_STORAGE_NODE_ID@) == Some(owner_id)
            && announces_start_time(
            member.metadata.value(META_KEY_SHARED_STORAGE_NODE_START_TIME@),
            owner_start_time,
        )
        &&& self.meta.worker_idx is Some
    }

    fn is_serving(&self, owner_id: &str, owner_start_time: i64) -> (serving: bool)
        ensures
            serving == self.serves(owner_id@, owner_start_time),
    {
        if !text::same_text(self.meta.owner_id.as_str(), owner_id) || self.meta.owner_start_time
            != owner_start_time {
            return false;
        }
        match &self.member {
            None => false,
            Some(member) => {
                if !member.metadata.is_true(META_KEY_SIDE_TRANSFER_WORKER) {
                    return false;
                }
                let owner = member.metadata.get(META_KEY_SHARED_STORAGE_NODE_ID);
                if !text::option_is(owner, owner_id) {
                    return false;
                }
                let announced: Option<i64> = match member.metadata.get(
                    META_KEY_SHARED_STORAGE_NODE_START_TIME,
                ) {
                    Some(value) => text::parse_i64(value.as_str()),
                    None => None,
                };
                let same_start = match announced {
                    Some(start) => start == owner_start_time,
                    None => false,
                };
                same_start && self.meta.worker_idx.is_some()
            },
        }
    }
}

/// A published start time is a number, and this one.
pub open spec fn announces_start_time(value: Option<Seq<char>>, start_time: i64) -> bool {
    value matches Some(value) && text::parsed_i64(value) == Some(start_time as int)
}

/// A lane and the side worker on it.
pub type LanePeer = (u16, Seq<char>);

/// The lanes of the peers that serve this generation of the owner.
pub open spec fn serving_lanes(
    peers: Seq<SideTransferPeer>,
    owner_id: Seq<char>,
    owner_start_time: i64,
) -> Seq<LanePeer>
    decreases peers.len(),
{
    if peers.len() == 0 {
        Seq::empty()
    } else {
        let before = serving_lanes(peers.drop_last(), owner_id, owner_start_time);
        let peer = peers.last();
        if peer.serves(owner_id, owner_start_time) {
            before.push((peer.meta.worker_idx->0, peer.meta.side_id@))
        } else {
            before
        }
    }
}

/// Peers are ordered by lane, and on one lane by the worker's id.
pub open spec fn lane_before(a: LanePeer, b: LanePeer) -> bool {
    a.0 < b.0 || (a.0 == b.0 && text::text_before(a.1, b.1))
}

/// The sequence with one peer put in behind those that do not come after it.
pub open spec fn with_peer(ordered: Seq<LanePeer>, peer: LanePeer) -> Seq<LanePeer>
    decreases ordered.len(),
{
    if ordered.len() > 0 && lane_before(peer, ordered.last()) {
        with_peer(ordered.drop_last(), peer).push(ordered.last())
    } else {
        ordered.push(peer)
    }
}

/// The peers in their order.
pub open spec fn in_lane_order(peers: Seq<LanePeer>) -> Seq<LanePeer>
    decreases peers.len(),
{
    if peers.len() == 0 {
        Seq::empty()
    } else {
        with_peer(in_lane_order(peers.drop_last()), peers.last())
    }
}

/// No peer comes before an earlier one.
pub open spec fn lanes_ordered(peers: Seq<LanePeer>) -> bool {
    forall|i: int, j: int| 0 <= i < j < peers.len() ==> !lane_before(peers[j], peers[i])
}

proof fn lemma_with_peer(ordered: Seq<LanePeer>, peer: LanePeer)
    requires
        lanes_ordered(ordered),
    ensures
        lanes_ordered(with_peer(ordered, peer)),
        with_peer(ordered, peer).to_multiset() == ordered.to_multiset().insert(peer),
        with_peer(ordered, peer).len() == ordered.len() + 1,
    decreases ordered.len(),
{
    broadcast use vstd::seq_lib::group_to_multiset_ensures;

    if ordered.len() > 0 && lane_before(peer, ordered.last()) {
        let rest = ordered.drop_last();
        let last = ordered.last();
        lemma_with_peer(rest, peer);
        let inner = with_peer(rest, peer);
        let after = inner.push(last);
        assert(ordered =~= rest.push(last));
        assert(ordered.to_multiset().insert(peer) =~= rest.to_multiset().insert(peer).insert(last));
        assert forall|i: int, j: int| 0 <= i < j < after.len() implies !lane_before(
            after[j],
            after[i],
        ) by {
            if j == inner.len() {
                assert(inner.to_multiset().contains(inner[i])) by {
                    assert(inner.contains(inner[i]));
                }
                if inner[i] == peer {
                    text::lemma_bytes_before_total(
                        vstd::utf8::encode_utf8(peer.1),
                        vstd::utf8::encode_utf8(last.1),
                    );
                } else {
                    assert(rest.to_multiset().contains(inner[i]));
                    assert(rest.contains(inner[i]));
                    let k = choose|k: int| 0 <= k < rest.len() && rest[k] == inner[i];
                    assert(ordered[k] == inner[i]);
                    assert(ordered[rest.len() as int] == last);
                }
            }
        }
    } else {
        let after = ordered.push(peer);
        assert forall|i: int, j: int| 0 <= i < j < after.len() implies !lane_before(
            after[j],
            after[i],
        ) by {
            if j == ordered.len() && lane_before(peer, ordered[i]) {
                let last = ordered.last();
                if i < ordered.len() - 1 {
                    assert(!lane_before(last, ordered[i]));
                    let a = vstd::utf8::encode_utf8(peer.1);
                    let b = vstd::utf8::encode_utf8(ordered[i].1);
                    let c = vstd::utf8::encode_utf8(last.1);
                    text::lemma_bytes_before_total(c, b);
                    if b != c && text::bytes_before(b, c) && text::bytes_before(a, b) {
                        text::lemma_bytes_before_transitive(a, b, c);
                    }
                    assert(lane_before(peer, last));
                }
            }
        }
    }
}

/// Putting peers in order changes no peer, and leaves them in the order of their lanes.
pub proof fn law_lane_order_is_a_sort(peers: Seq<LanePeer>)
    ensures
        lanes_ordered(in_lane_order(peers)),
        in_lane_order(peers).to_multiset() == peers.to_multiset(),
        in_lane_order(peers).len() == peers.len(),
    decreases peers.len(),
{
    broadcast use vstd::seq_lib::group_to_multiset_ensures;

    if peers.len() > 0 {
        law_lane_order_is_a_sort(peers.drop_last());
        lemma_with_peer(in_lane_order(peers.drop_last()), peers.last());
        assert(peers =~= peers.drop_last().push(peers.last()));
    } else {
        assert(in_lane_order(peers) =~= peers);
    }
}

/// The number of lanes, if the highest lane among the peers is the last.
pub open spec fn lane_space(peers: Seq<LanePeer>) -> nat
    decreases peers.len(),
{
    if peers.len() == 0 {
        0
    } else {
        let before = lane_space(peers.drop_last());
        if peers.last().0 + 1 > before {
            (peers.last().0 + 1) as nat
        } else {
            before
        }
    }
}

/// The first peer on a lane.
pub open spec fn first_on_lane(peers: Seq<LanePeer>, lane: u16) -> Option<LanePeer>
    decreases peers.len(),
{
    if peers.len() == 0 {
        None
    } else if peers[0].0 == lane {
        Some(peers[0])
    } else {
        first_on_lane(peers.drop_first(), lane)
    }
}

/// The peer that is picked among those that serve: for a put the first one on its lane, and else
/// each in turn.
pub open spec fn picked_peer(
    serving: Seq<LanePeer>,
    put_id: Option<(u64, u32)>,
    turn: usize,
) -> Option<LanePeer> {
    let ordered = in_lane_order(serving);
    if serving.len() == 0 {
        None
    } else {
        match put_id {
            Some(put_id) => first_on_lane(
                ordered,
                lane_of_put(put_id, lane_space(serving) as usize),
            ),
            None => Some(ordered[turn as int % ordered.len() as int]),
        }
    }
}

/// The lane and the worker, in character sequences.
pub open spec fn lane_view(peer: (u16, String)) -> LanePeer {
    (peer.0, peer.1@)
}

/// The lanes and the workers, in character sequences.
pub open spec fn lane_views(peers: Seq<(u16, String)>) -> Seq<LanePeer> {
    peers.map_values(|peer: (u16, String)| lane_view(peer))
}

fn serving_peers(peers: &Vec<SideTransferPeer>, owner_id: &str, owner_start_time: i64) -> (serving:
    Vec<(u16, String)>)
    ensures
        lane_views(serving@) == serving_lanes(peers@, owner_id@, owner_start_time),
{
    let mut serving: Vec<(u16, String)> = Vec::new();
    let mut i: usize = 0;
    assert(peers@.take(0) =~= Seq::<SideTransferPeer>::empty());
    assert(lane_views(serving@) =~= Seq::<LanePeer>::empty());
    while i < peers.len()
        invariant
            i <= peers@.len(),
            lane_views(serving@) == serving_lanes(
                peers@.take(i as int),
                owner_id@,
                owner_start_time,
            ),
        decreases peers@.len() - i,
    {
        assert(peers@.take(i + 1).drop_last() =~= peers@.take(i as int));
        let peer = &peers[i];
        if peer.is_serving(owner_id, owner_start_time) {
            if let Some(lane) = peer.meta.worker_idx {
                let ghost before = serving@;
                serving.push((lane, peer.meta.side_id.clone()));
                assert(lane_views(serving@) =~= lane_views(before).push(
                    (lane, peer.meta.side_id@),
                ));
            }
        }
        i = i + 1;
    }
    assert(peers@.take(i as int) =~= peers@);
    serving
}

fn comes_before(a: &(u16, String), b: &(u16, String)) -> (before: bool)
    ensures
        before == lane_before(lane_view(*a), lane_view(*b)),
{
    a.0 < b.0 || (a.0 == b.0 && text::comes_before(a.1.as_str(), b.1.as_str()))
}

fn insert_peer(ordered: &mut Vec<(u16, String)>, peer: (u16, String))
    ensures
        lane_views(final(ordered)@) == with_peer(lane_views(old(ordered)@), lane_view(peer)),
{
    let ghost list = ordered@;
    let ghost views = lane_views(list);
    let ghost view = lane_view(peer);
    let mut at: usize = ordered.len();
    assert(views.take(at as int) =~= views);
    assert(views.skip(at as int) =~= Seq::<LanePeer>::empty());
    assert(with_peer(views.take(at as int), view) + views.skip(at as int) =~= with_peer(
        views,
        view,
    ));
    while at > 0 && comes_before(&peer, &ordered[at - 1])
        invariant
            ordered@ == list,
            views == lane_views(list),
            view == lane_view(peer),
            at <= list.len(),
            with_peer(views.take(at as int), view) + views.skip(at as int) == with_peer(
                views,
                view,
            ),
        decreases at,
    {
        proof {
            let shorter = views.take(at - 1);
            assert(views.take(at as int).drop_last() =~= shorter);
            assert(views[at - 1] == lane_view(list[at - 1]));
            assert(with_peer(shorter, view) + views.skip(at - 1) =~= with_peer(
                views.take(at as int),
                view,
            ) + views.skip(at as int));
        }
        at = at - 1;
    }
    proof {
        if at > 0 {
            assert(views.take(at as int).last() == lane_view(list[at - 1]));
        }
        assert(with_peer(views.take(at as int), view) == views.take(at as int).push(view));
    }
    ordered.insert(at, peer);
    assert(lane_views(ordered@) =~= with_peer(views, view));
}

fn order_peers(peers: Vec<(u16, String)>) -> (ordered: Vec<(u16, String)>)
    ensures
        lane_views(ordered@) == in_lane_order(lane_views(peers@)),
{
    let ghost views = lane_views(peers@);
    let mut ordered: Vec<(u16, String)> = Vec::new();
    let mut i: usize = 0;
    assert(views.take(0) =~= Seq::<LanePeer>::empty());
    assert(lane_views(ordered@) =~= Seq::<LanePeer>::empty());
    while i < peers.len()
        invariant
            i <= peers@.len(),
            views == lane_views(peers@),
            lane_views(ordered@) == in_lane_order(views.take(i as int)),
        decreases peers@.len() - i,
    {
        assert(views.take(i + 1).drop_last() =~= views.take(i as int));
        assert(views.take(i + 1).last() == lane_view(peers@[i as int]));
        let peer = (peers[i].0, peers[i].1.clone());
        insert_peer(&mut ordered, peer);
        i = i + 1;
    }
    assert(views.take(i as int) =~= views);
    ordered
}

fn count_lanes(peers: &Vec<(u16, String)>) -> (count: usize)
    ensures
        count == lane_space(lane_views(peers@)),
        count <= 65536,
        peers@.len() > 0 ==> count > 0,
{
    let ghost views = lane_views(peers@);
    let mut count: usize = 0;
    let mut i: usize = 0;
    assert(views.take(0) =~= Seq::<LanePeer>::empty());
    while i < peers.len()
        invariant
            i <= peers@.len(),
            views == lane_views(peers@),
            count == lane_space(views.take(i as int)),
            count <= 65536,
            i > 0 ==> count > 0,
        decreases peers@.len() - i,
    {
        assert(views.take(i + 1).drop_last() =~= views.take(i as int));
        assert(views.take(i + 1).last() == lane_view(peers@[i as int]));
        let needed: usize = peers[i].0 as usize + 1;
        if needed > count {
            count = needed;
        }
        i = i + 1;
    }
    assert(views.take(i as int) =~= views);
    count
}

fn find_on_lane(peers: &Vec<(u16, String)>, lane: u16) -> (found: Option<(String, u16)>)
    ensures
        match found {
            Some(found) => first_on_lane(lane_views(peers@), lane) == Some((found.1, found.0@)),
            None => first_on_lane(lane_views(peers@), lane) is None,
        },
{
    let ghost views = lane_views(peers@);
    let mut i: usize = 0;
    assert(views.skip(0) =~= views);
    while i < peers.len()
        invariant
            i <= peers@.len(),
            views == lane_views(peers@),
            first_on_lane(views.skip(i as int), lane) == first_on_lane(views, lane),
        decreases peers@.len() - i,
    {
        assert(views.skip(i as int)[0] == lane_view(peers@[i as int]));
        if peers[i].0 == lane {
            return Some((peers[i].1.clone(), lane));
        }
        assert(views.skip(i as int).drop_first() =~= views.skip(i + 1));
        i = i + 1;
    }
    None
}

/// Picks the side worker to send to, if one serves this generation of the owner. A put goes to the
/// first worker on its lane, and to the owner where that lane has none; other calls go to each
/// worker in turn, counted by `side_rr_next`.
pub fn pick_side_transfer_peer(
    peers: &Vec<SideTransferPeer>,
    owner_id: &str,
    owner_start_time: i64,
    put_id: Option<(u64, u32)>,
    side_rr_next: &mut usize,
) -> (picked: Option<(String, u16)>)
    ensures
        ({
            let serving = serving_lanes(peers@, owner_id@, owner_start_time);
            &&& match picked {
                Some(picked) => picked_peer(serving, put_id, *old(side_rr_next)) == Some(
                    (picked.1, picked.0@),
                ),
                None => picked_peer(serving, put_id, *old(side_rr_next)) is None,
            }
            &&& *final(side_rr_next) == if serving.len() > 0 && put_id is None {
                old(side_rr_next).wrapping_add(1)
            } else {
                *old(side_rr_next)
            }
        }),
{
    let serving = serving_peers(peers, owner_id, owner_start_time);
    assert(lane_views(serving@).len() == serving@.len());
    if serving.len() == 0 {
        return None;
    }
    let lane_count: usize = count_lanes(&serving);
    proof {
        law_lane_order_is_a_sort(lane_views(serving@));
    }
    let ready = order_peers(serving);
    assert(lane_views(ready@).len() == ready@.len());
    match put_id {
        Some(put_id) => {
            match stable_side_transfer_lane_for_put(put_id, lane_count) {
                Some(lane) => find_on_lane(&ready, lane),
                None => None,
            }
        },
        None => {
            let turn: usize = *side_rr_next;
            *side_rr_next = turn.wrapping_add(1);
            let at: usize = turn % ready.len();
            assert(lane_views(ready@)[at as int] == lane_view(ready@[at as int]));
            Some((ready[at].1.clone(), ready[at].0))
        },
    }
}

/// The peers that calls without a put go to, one after the other, from a turn on.
pub open spec fn taking_turns(serving: Seq<LanePeer>, turn: usize, calls: nat) -> Seq<LanePeer> {
    Seq::new(calls, |k: int| picked_peer(serving, None, (turn + k) as usize)->0)
}

/// As many calls without a put as there are peers go to each of them once, unless the count of turns
/// starts over in between.
pub proof fn law_peers_take_turns(serving: Seq<LanePeer>, turn: usize)
    requires
        turn + serving.len() <= usize::MAX,
    ensures
        forall|k: int|
            0 <= k < serving.len() ==> #[trigger] picked_peer(
                serving,
                None,
                (turn + k) as usize,
            ) is Some,
        taking_turns(serving, turn, serving.len()).to_multiset() == serving.to_multiset(),
{
    let n = serving.len() as int;
    if n > 0 {
        let ordered = in_lane_order(serving);
        law_lane_order_is_a_sort(serving);
        let r = turn as int % n;
        let q = turn as int / n;
        vstd::arithmetic::div_mod::lemma_fundamental_div_mod(turn as int, n);
        let first = ordered.skip(r);
        let second = ordered.take(r);
        let picks = taking_turns(serving, turn, serving.len());
        assert(picks =~= first + second) by {
            assert forall|k: int| 0 <= k < n implies #[trigger] picks[k] == (first + second)[k] by {
                assert(turn as int == n * q + r);
                if k < n - r {
                    vstd::arithmetic::div_mod::lemma_fundamental_div_mod_converse(
                        turn + k,
                        n,
                        q,
                        r + k,
                    );
                } else {
                    assert(n * (q + 1) == n * q + n) by (nonlinear_arith);
                    vstd::arithmetic::div_mod::lemma_fundamental_div_mod_converse(
                        turn + k,
                        n,
                        q + 1,
                        r + k - n,
                    );
                }
            }
        }
        vstd::seq_lib::lemma_multiset_commutative(first, second);
        vstd::seq_lib::lemma_multiset_commutative(second, first);
        assert(second + first =~= ordered);
        assert(first.to_multiset().add(second.to_multiset()) =~= second.to_multiset().add(
            first.to_multiset(),
        ));
    } else {
        assert(taking_turns(serving, turn, 0) =~= serving);
    }
}

/// A put is only ever sent to a worker on its own lane.
pub proof fn law_put_stays_on_its_lane(serving: Seq<LanePeer>, put_id: (u64, u32), turn: usize)
    ensures
        picked_peer(serving, Some(put_id), turn) matches Some(peer) ==> peer.0 == lane_of_put(
            put_id,
            lane_space(serving) as usize,
        ) && serving.contains(peer),
{
    if serving.len() > 0 {
        let ordered = in_lane_order(serving);
        let lane = lane_of_put(put_id, lane_space(serving) as usize);
        law_lane_order_is_a_sort(serving);
        lemma_first_on_lane(ordered, lane);
        if let Some(peer) = first_on_lane(ordered, lane) {
            broadcast use vstd::seq_lib::group_to_multiset_ensures;

            assert(ordered.to_multiset().contains(peer));
            assert(serving.to_multiset().contains(peer));
        }
    }
}

proof fn lemma_first_on_lane(peers: Seq<LanePeer>, lane: u16)
    ensures
        first_on_lane(peers, lane) matches Some(peer) ==> peer.0 == lane && peers.contains(peer),
    decreases peers.len(),
{
    if peers.len() > 0 {
        if peers[0].0 == lane {
            assert(peers.contains(peers[0]));
        } else {
            let rest = peers.drop_first();
            lemma_first_on_lane(rest, lane);
            if let Some(peer) = first_on_lane(rest, lane) {
                let i = choose|i: int| 0 <= i < rest.len() && rest[i] == peer;
                assert(peers[i + 1] == peer);
            }
        }
    }
}

/// Into how many parts the cache of bindings is divided.
pub const BINDING_CACHE_SEGMENTS: usize = 16;

/// How long a binding is kept.
pub const BINDING_LIVE_SECONDS: u64 = 600;

/// The bindings that were made and not taken back. The cache may have forgotten some of them: it
/// keeps a binding for ten minutes.
pub uninterp spec fn bindings_made(
    cache: SegmentedCache<(u64, u32), (String, u16)>,
) -> Map<(u64, u32), (Seq<char>, u16)>;

/// `SegmentedCache::builder` with a time to live makes an empty cache. It panics without a segment,
/// and for times of more than a thousand years.
#[verifier::external_body]
fn bindings_new(segments: usize, live_seconds: u64) -> (cache: SegmentedCache<
    (u64, u32),
    (String, u16),
>)
    requires
        0 < segments <= 64,
        live_seconds <= 31_536_000_000,
    ensures
        (bindings_made(cache) == Map::<(u64, u32), (Seq<char>, u16)>::empty()),
{
    SegmentedCache::builder(segments).time_to_live(Duration::from_secs(live_seconds)).build()
}

/// `SegmentedCache::insert` stores the value under the key, in place of an earlier one.
#[verifier::external_body]
fn bindings_insert(
    cache: &mut SegmentedCache<(u64, u32), (String, u16)>,
    put_id: (u64, u32),
    binding: (String, u16),
)
    ensures
        bindings_made(*final(cache)) == bindings_made(*old(cache)).insert(
            put_id,
            (binding.0@, binding.1),
        ),
{
    cache.insert(put_id, binding);
}

/// `SegmentedCache::get` finds the value that was last stored under the key and not invalidated
/// since. Whether it still finds it depends on the time.
#[verifier::external_body]
fn bindings_get(cache: &SegmentedCache<(u64, u32), (String, u16)>, put_id: &(u64, u32)) -> (found:
    Option<(String, u16)>)
    ensures
        found matches Some(binding) ==> bindings_made(*cache).contains_key(*put_id)
            && bindings_made(*cache)[*put_id] == (binding.0@, binding.1),
{
    cache.get(put_id)
}

/// `SegmentedCache::invalidate` discards the value stored under the key.
#[verifier::external_body]
fn bindings_invalidate(
    cache: &mut SegmentedCache<(u64, u32), (String, u16)>,
    put_id: &(u64, u32),
)
    ensures
        bindings_made(*final(cache)) == bindings_made(*old(cache)).remove(*put_id),
{
    cache.invalidate(put_id);
}

/// Which side worker answered the start of a put, until the put ends.
pub struct SideTransferBindings {
    cache: SegmentedCache<(u64, u32), (String, u16)>,
}

impl View for SideTransferBindings {
    type V = Map<(u64, u32), (Seq<char>, u16)>;

    closed spec fn view(&self) -> Map<(u64, u32), (Seq<char>, u16)> {
        bindings_made(self.cache)
    }
}

impl SideTransferBindings {
    pub fn new() -> (bindings: Self)
        ensures
            bindings@ == Map::<(u64, u32), (Seq<char>, u16)>::empty(),
    {
        SideTransferBindings { cache: bindings_new(BINDING_CACHE_SEGMENTS, BINDING_LIVE_SECONDS) }
    }

    /// Binds a put to the side worker that answered its start. Nothing is bound where the put got
    /// no id, or where the owner answered.
    pub fn remember_side_transfer_binding(
        &mut self,
        put_id: Option<(u64, u32)>,
        binding: Option<(String, u16)>,
    )
        ensures
            final(self)@ == match (put_id, binding) {
                (Some(put_id), Some(binding)) => old(self)@.insert(
                    put_id,
                    (binding.0@, binding.1),
                ),
                _ => old(self)@,
            },
    {
        if let Some(put_id) = put_id {
            if let Some(binding) = binding {
                bindings_insert(&mut self.cache, put_id, binding);
            }
        }
    }

    /// The side worker that a put is bound to. A binding may be found for ten minutes at most.
    pub fn bound_side_transfer_peer(&self, put_id: Option<(u64, u32)>) -> (bound: Option<
        (String, u16),
    >)
        ensures
            put_id is None ==> bound is None,
            bound matches Some(bound) ==> self@.contains_key(put_id->0) && self@[put_id->0] == (
                bound.0@,
                bound.1,
            ),
    {
        match put_id {
            Some(put_id) => bindings_get(&self.cache, &put_id),
            None => None,
        }
    }

    /// Takes back the binding of a put.
    pub fn clear_side_transfer_binding(&mut self, put_id: Option<(u64, u32)>)
        ensures
            final(self)@ == match put_id {
                Some(put_id) => old(self)@.remove(put_id),
                None => old(self)@,
            },
    {
        if let Some(put_id) = put_id {
            bindings_invalidate(&mut self.cache, &put_id);
        }
    }
}

/// The transport errors after which a call to a side worker is made to another node.
pub open spec fn falls_back<S>(err: P2PErrorOf<S>) -> bool {
    err is NoConnectionReady || err is NodeNotFound || err is NodeNotConnected
        || err is NodePortNotReady || err is ConnectionError || err is SendFailed
        || err is StartServerError || err is Iceoryx2TransportNotStarted
}

pub fn should_fallback_side_p2p_error(err: &P2PError) -> (fallback: bool)
    ensures
        fallback == falls_back(*err),
{
    match err {
        P2PErrorOf::NoConnectionReady { .. } => true,
        P2PErrorOf::NodeNotFound { .. } => true,
        P2PErrorOf::NodeNotConnected { .. } => true,
        P2PErrorOf::NodePortNotReady { .. } => true,
        P2PErrorOf::ConnectionError { .. } => true,
        P2PErrorOf::SendFailed { .. } => true,
        P2PErrorOf::StartServerError { .. } => true,
        P2PErrorOf::Iceoryx2TransportNotStarted => true,
        P2PErrorOf::Other { .. } => false,
    }
}

/// Whom a call of a put goes to.
#[derive(Debug)]
pub enum CallTarget {
    Side { side_id: String, lane_idx: u16 },
    Owner,
}

impl CallTarget {
    /// The call goes to the worker that was picked, and to the owner where there is none.
    pub open spec fn is_picked(self, picked: Option<LanePeer>) -> bool {
        match picked {
            Some(peer) => self matches CallTarget::Side { side_id, lane_idx } && side_id@ == peer.1
                && lane_idx == peer.0,
            None => self == CallTarget::Owner,
        }
    }

    /// The side worker that the call goes to.
    pub open spec fn side(self) -> Option<(String, u16)> {
        match self {
            CallTarget::Side { side_id, lane_idx } => Some((side_id, lane_idx)),
            CallTarget::Owner => None,
        }
    }

    pub fn duplicate(&self) -> (copy: Self)
        ensures
            copy == *self,
    {
        match self {
            CallTarget::Side { side_id, lane_idx } => CallTarget::Side {
                side_id: side_id.clone(),
                lane_idx: *lane_idx,
            },
            CallTarget::Owner => CallTarget::Owner,
        }
    }
}

/// What follows a reply, or the lack of one.
pub enum CallOutcome<R> {
    /// The reply, and the side worker that gave it.
    Answered { resp: R, side: Option<(String, u16)> },
    /// The side worker cannot be reached: another node is to be asked.
    Fallback,
    Failed(KvError),
}

/// The first call of a put's start: to the worker that was picked, and else to the owner.
pub fn put_start_target(picked: Option<(String, u16)>) -> (target: CallTarget)
    ensures
        match picked {
            Some(peer) => target == (CallTarget::Side { side_id: peer.0, lane_idx: peer.1 }),
            None => target == CallTarget::Owner,
        },
{
    match picked {
        Some((side_id, lane_idx)) => CallTarget::Side { side_id, lane_idx },
        None => CallTarget::Owner,
    }
}

/// The next call of a put's end, after a bound worker could not be reached or there was none: to
/// the worker that was picked, unless it is the one that was tried, and else to the owner.
pub fn put_transfer_end_target(
    attempted_side: &Option<(String, u16)>,
    picked: Option<(String, u16)>,
) -> (target: CallTarget)
    ensures
        match picked {
            Some(peer) => if attempted_side matches Some(attempted) && attempted.0@ == peer.0@
                && attempted.1 == peer.1 {
                target == CallTarget::Owner
            } else {
                target == (CallTarget::Side { side_id: peer.0, lane_idx: peer.1 })
            },
            None => target == CallTarget::Owner,
        },
{
    match picked {
        Some((side_id, lane_idx)) => {
            let tried = match attempted_side {
                Some(attempted) => attempted.1 == lane_idx && text::same_text(
                    attempted.0.as_str(),
                    side_id.as_str(),
                ),
                None => false,
            };
            if tried {
                CallTarget::Owner
            } else {
                CallTarget::Side { side_id, lane_idx }
            }
        },
        None => CallTarget::Owner,
    }
}

/// Settles a call: a side worker that cannot be reached is replaced by another node, any other
/// transport error fails the call.
pub fn settle_call<R>(target: CallTarget, reply: Result<R, P2PError>) -> (outcome: CallOutcome<R>)
    ensures
        match reply {
            Ok(resp) => outcome == (CallOutcome::Answered {
                resp,
                side: target.side(),
            }),
            Err(err) => if target is Side && falls_back(err) {
                outcome == CallOutcome::<R>::Fallback
            } else {
                outcome == CallOutcome::<R>::Failed(KvErrorOf::P2p(err))
            },
        },
{
    match reply {
        Ok(resp) => {
            let side = match target {
                CallTarget::Side { side_id, lane_idx } => Some((side_id, lane_idx)),
                CallTarget::Owner => None,
            };
            CallOutcome::Answered { resp, side }
        },
        Err(err) => {
            let is_side = match target {
                CallTarget::Side { .. } => true,
                CallTarget::Owner => false,
            };
            if is_side && should_fallback_side_p2p_error(&err) {
                CallOutcome::Fallback
            } else {
                CallOutcome::Failed(KvErrorOf::P2p(err))
            }
        },
    }
}

} // verus!
