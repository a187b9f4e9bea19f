//! Which placements were decided, for the master's periodic report.

use crate::cluster_manager::NodeIDString;
use crate::dash::{numbers_entries, numbers_get, numbers_insert, numbers_new};
use crate::text;
use dashmap::DashMap;
use vstd::prelude::*;

verus! {

#[derive(Clone, Copy, Debug, PartialEq, Eq, Structural)]
pub enum PutPlacementMode {
    Local,
    Remote,
}

impl PutPlacementMode {
    /// The label of the mode in the report.
    pub open spec fn name(self) -> Seq<char> {
        match self {
            PutPlacementMode::Local => "local"@,
            PutPlacementMode::Remote => "remote"@,
        }
    }

    pub fn label(&self) -> (label: &'static str)
        ensures
            label@ == self.name(),
    {
        match self {
            PutPlacementMode::Local => "local",
            PutPlacementMode::Remote => "remote",
        }
    }
}

#[derive(Debug, Eq, Hash, PartialEq)]
pub struct RequesterTargetPair {
    pub requester_node_id: NodeIDString,
    pub target_node_id: NodeIDString,
}

impl RequesterTargetPair {
    pub fn new(requester_node_id: &str, target_node_id: &str) -> (pair: Self)
        ensures
            pair.requester_node_id@ == requester_node_id@,
            pair.target_node_id@ == target_node_id@,
    {
        RequesterTargetPair {
            requester_node_id: requester_node_id.to_owned(),
            target_node_id: target_node_id.to_owned(),
        }
    }

    pub fn as_log_key(&self) -> (key: String)
        ensures
            key@ == self.requester_node_id@ + "->"@ + self.target_node_id@,
    {
        self.requester_node_id.clone().concat("->").concat(self.target_node_id.as_str())
    }
}

/// The counters that a map holds, by pair of names.
pub uninterp spec fn pair_counters(map: DashMap<(String, String), u64>) -> Map<
    (Seq<char>, Seq<char>),
    u64,
>;

/// `DashMap::new` makes a map that holds nothing.
#[verifier::external_body]
fn pairs_new() -> (map: DashMap<(String, String), u64>)
    ensures
        (pair_counters(map) == Map::<(Seq<char>, Seq<char>), u64>::empty()),
{
    DashMap::new()
}

/// `DashMap::get` finds the value stored under the key.
#[verifier::external_body]
fn pairs_get(map: &DashMap<(String, String), u64>, pair: &(String, String)) -> (count: Option<u64>)
    ensures
        match count {
            Some(count) => pair_counters(*map).contains_key((pair.0@, pair.1@)) && count
                == pair_counters(*map)[(pair.0@, pair.1@)],
            None => !pair_counters(*map).contains_key((pair.0@, pair.1@)),
        },
{
    map.get(pair).map(|entry| *entry.value())
}

/// `DashMap::insert` stores the value under the key, in place of an earlier one.
#[verifier::external_body]
fn pairs_insert(map: &mut DashMap<(String, String), u64>, pair: (String, String), count: u64)
    ensures
        pair_counters(*final(map)) == pair_counters(*old(map)).insert((pair.0@, pair.1@), count),
{
    map.insert(pair, count);
}

/// `DashMap::iter` walks every entry once, in an order that is not specified.
#[verifier::external_body]
fn pairs_entries(map: &DashMap<(String, String), u64>) -> (entries: Vec<((String, String), u64)>)
    ensures
        lists_pairs(entries@, pair_counters(*map)),
{
    map.iter().map(|entry| (entry.key().clone(), *entry.value())).collect()
}

/// `entries` lists each counter of `map` once.
pub open spec fn lists_pairs(
    entries: Seq<((String, String), u64)>,
    map: Map<(Seq<char>, Seq<char>), u64>,
) -> bool {
    &&& forall|i: int|
        0 <= i < entries.len() ==> map.contains_key(
            ((#[trigger] entries[i]).0.0@, entries[i].0.1@),
        ) && map[(entries[i].0.0@, entries[i].0.1@)] == entries[i].1
    &&& forall|pair: (Seq<char>, Seq<char>)| #[trigger]
        map.contains_key(pair) ==> exists|i: int|
            0 <= i < entries.len() && (entries[i].0.0@, entries[i].0.1@) == pair
    &&& forall|i: int, j: int|
        0 <= i < j < entries.len() ==> (entries[i].0.0@, entries[i].0.1@) != (
            entries[j].0.0@,
            entries[j].0.1@,
        )
}

/// One more, starting over after the largest number.
pub open spec fn bumped(count: Option<u64>) -> u64 {
    match count {
        Some(count) => if count == u64::MAX {
            0
        } else {
            (count + 1) as u64
        },
        None => 1,
    }
}

/// The counter under a key, if there is one.
pub open spec fn counter_at<K>(counters: Map<K, u64>, key: K) -> Option<u64> {
    if counters.contains_key(key) {
        Some(counters[key])
    } else {
        None
    }
}

fn bump(count: Option<u64>) -> (next: u64)
    ensures
        next == bumped(count),
{
    match count {
        Some(count) => if count == u64::MAX {
            0
        } else {
            count + 1
        },
        None => 1,
    }
}

/// Historical final put placement decisions.
pub struct PlacementCounters {
    /// By target node.
    put_target_decision_counts: DashMap<NodeIDString, u64>,
    /// By requester->target pair.
    put_requester_target_decision_counts: DashMap<(String, String), u64>,
    /// By placement mode.
    put_placement_mode_counts: DashMap<String, u64>,
}

/// Model of [`PlacementCounters`].
pub struct PlacementCounts {
    pub by_target: Map<Seq<char>, u64>,
    pub by_pair: Map<(Seq<char>, Seq<char>), u64>,
    pub by_mode: Map<Seq<char>, u64>,
}

impl PlacementCounts {
    /// The counts after one more decision.
    pub open spec fn recorded(
        self,
        requester: Seq<char>,
        target: Seq<char>,
        mode: PutPlacementMode,
    ) -> PlacementCounts {
        PlacementCounts {
            by_target: self.by_target.insert(target, bumped(counter_at(self.by_target, target))),
            by_pair: self.by_pair.insert(
                (requester, target),
                bumped(counter_at(self.by_pair, (requester, target))),
            ),
            by_mode: self.by_mode.insert(
                mode.name(),
                bumped(counter_at(self.by_mode, mode.name())),
            ),
        }
    }
}

impl View for PlacementCounters {
    type V = PlacementCounts;

    closed spec fn view(&self) -> PlacementCounts {
        PlacementCounts {
            by_target: crate::dash::numbers_of(self.put_target_decision_counts),
            by_pair: pair_counters(self.put_requester_target_decision_counts),
            by_mode: crate::dash::numbers_of(self.put_placement_mode_counts),
        }
    }
}

impl PlacementCounters {
    pub fn new() -> (counters: Self)
        ensures
            counters@.by_target == Map::<Seq<char>, u64>::empty(),
            counters@.by_pair == Map::<(Seq<char>, Seq<char>), u64>::empty(),
            counters@.by_mode == Map::<Seq<char>, u64>::empty(),
    {
        PlacementCounters {
            put_target_decision_counts: numbers_new(),
            put_requester_target_decision_counts: pairs_new(),
            put_placement_mode_counts: numbers_new(),
        }
    }

    /// Records the final accepted placement decision that is returned from put_start, so that tries
    /// of segments and failed attempts are not counted.
    pub fn record_put_placement_decision(
        &mut self,
        requester_node_id: &str,
        target_node_id: &str,
        placement_mode: PutPlacementMode,
    )
        ensures
            final(self)@ == old(self)@.recorded(
                requester_node_id@,
                target_node_id@,
                placement_mode,
            ),
    {
        let target: u64 = bump(numbers_get(&self.put_target_decision_counts, target_node_id));
        numbers_insert(
            &mut self.put_target_decision_counts,
            target_node_id.to_owned(),
            target,
        );
        let pair: (String, String) = (requester_node_id.to_owned(), target_node_id.to_owned());
        let both: u64 = bump(pairs_get(&self.put_requester_target_decision_counts, &pair));
        pairs_insert(&mut self.put_requester_target_decision_counts, pair, both);
        let label = placement_mode.label();
        let mode: u64 = bump(numbers_get(&self.put_placement_mode_counts, label));
        numbers_insert(&mut self.put_placement_mode_counts, label.to_owned(), mode);
    }

    /// Decisions for a target node.
    pub fn target_count(&self, target_node_id: &str) -> (count: Option<u64>)
        ensures
            count == counter_at(self@.by_target, target_node_id@),
    {
        numbers_get(&self.put_target_decision_counts, target_node_id)
    }

    /// Decisions for a requester and a target node.
    pub fn requester_target_count(&self, pair: &RequesterTargetPair) -> (count: Option<u64>)
        ensures
            count == counter_at(
                self@.by_pair,
                (pair.requester_node_id@, pair.target_node_id@),
            ),
    {
        let key: (String, String) = (pair.requester_node_id.clone(), pair.target_node_id.clone());
        pairs_get(&self.put_requester_target_decision_counts, &key)
    }

    /// Decisions in a placement mode.
    pub fn mode_count(&self, mode: PutPlacementMode) -> (count: Option<u64>)
        ensures
            count == counter_at(self@.by_mode, mode.name()),
    {
        numbers_get(&self.put_placement_mode_counts, mode.label())
    }
}

/// In the report, `a` stands before `b`: larger counts first, then by name.
pub open spec fn reported_before(a: (String, u64), b: (String, u64)) -> bool {
    a.1 > b.1 || (a.1 == b.1 && text::text_before(a.0@, b.0@))
}

/// The entries are in the order of the report.
pub open spec fn in_report_order(entries: Seq<(String, u64)>) -> bool {
    forall|i: int, j: int|
        0 <= i < j < entries.len() ==> !reported_before(
            #[trigger] entries[j],
            #[trigger] entries[i],
        )
}

proof fn lemma_report_order_transitive(a: (String, u64), b: (String, u64), c: (String, u64))
    requires
        reported_before(a, b),
        !reported_before(c, b),
    ensures
        reported_before(a, c),
{
    let x = vstd::utf8::encode_utf8(a.0@);
    let y = vstd::utf8::encode_utf8(b.0@);
    let z = vstd::utf8::encode_utf8(c.0@);
    text::lemma_bytes_before_total(y, z);
    if a.1 == b.1 && b.1 == c.1 && text::bytes_before(y, z) {
        text::lemma_bytes_before_transitive(x, y, z);
    }
}

fn stands_before(a: &(String, u64), b: &(String, u64)) -> (before: bool)
    ensures
        before == reported_before(*a, *b),
{
    a.1 > b.1 || (a.1 == b.1 && text::comes_before(a.0.as_str(), b.0.as_str()))
}

/// Puts counters in the order of the report.
pub fn sort_for_report(entries: Vec<(String, u64)>) -> (sorted: Vec<(String, u64)>)
    ensures
        in_report_order(sorted@),
        sorted@.to_multiset() == entries@.to_multiset(),
{
    let ghost all = entries@;
    let mut rest = entries;
    let mut sorted: Vec<(String, u64)> = Vec::new();
    proof {
        broadcast use vstd::multiset::group_multiset_axioms;

        sorted@.to_multiset_ensures();
        assert(sorted@.to_multiset() =~= vstd::multiset::Multiset::empty());
        assert(sorted@.to_multiset().add(rest@.to_multiset()) =~= all.to_multiset());
    }
    while rest.len() > 0
        invariant
            in_report_order(sorted@),
            sorted@.to_multiset().add(rest@.to_multiset()) == all.to_multiset(),
        decreases rest@.len(),
    {
        let ghost before = rest@;
        let entry = rest.remove(0);
        let ghost list = sorted@;
        let mut at: usize = 0;
        while at < sorted.len() && !stands_before(&entry, &sorted[at])
            invariant
                sorted@ == list,
                at <= list.len(),
                in_report_order(list),
                forall|k: int| 0 <= k < at ==> !reported_before(entry, #[trigger] list[k]),
            decreases list.len() - at,
        {
            at = at + 1;
        }
        let ghost placed = entry;
        sorted.insert(at, entry);
        proof {
            assert(sorted@ =~= list.insert(at as int, placed));
            assert forall|i: int, j: int| 0 <= i < j < sorted@.len() implies !reported_before(
                #[trigger] sorted@[j],
                #[trigger] sorted@[i],
            ) by {
                if j < at {
                    assert(sorted@[j] == list[j] && sorted@[i] == list[i]);
                } else if j == at {
                    assert(sorted@[i] == list[i]);
                } else if i == at {
                    assert(sorted@[j] == list[j - 1]);
                    if at < list.len() {
                        assert(reported_before(placed, list[at as int]));
                        if j - 1 > at {
                            assert(!reported_before(list[j - 1], list[at as int]));
                        }
                        lemma_not_before_self(list[at as int]);
                        lemma_report_order_transitive(placed, list[at as int], list[j - 1]);
                        lemma_before_is_strict(placed, list[j - 1]);
                    }
                } else {
                    assert(sorted@[j] == list[j - 1]);
                    if i < at {
                        assert(sorted@[i] == list[i]);
                    } else {
                        assert(sorted@[i] == list[i - 1]);
                    }
                }
            }
            broadcast use vstd::multiset::group_multiset_axioms;

            vstd::seq_lib::to_multiset_insert(list, at as int, placed);
            before.to_multiset_ensures();
            assert(rest@ =~= before.remove(0));
            assert(sorted@.to_multiset().add(rest@.to_multiset()) =~= all.to_multiset());
        }
    }
    proof {
        broadcast use vstd::multiset::group_multiset_axioms;

        rest@.to_multiset_ensures();
        assert(rest@.to_multiset() =~= vstd::multiset::Multiset::empty());
        assert(sorted@.to_multiset() =~= all.to_multiset());
    }
    sorted
}

proof fn lemma_before_is_strict(a: (String, u64), b: (String, u64))
    requires
        reported_before(a, b),
    ensures
        !reported_before(b, a),
{
    text::lemma_bytes_before_total(
        vstd::utf8::encode_utf8(a.0@),
        vstd::utf8::encode_utf8(b.0@),
    );
}

proof fn lemma_not_before_self(a: (String, u64))
    ensures
        !reported_before(a, a),
{
    let x = vstd::utf8::encode_utf8(a.0@);
    text::lemma_bytes_before_total(x, x);
}

/// The counters of the report, each group in order.
pub struct PlacementReport {
    pub target_counts: Vec<(String, u64)>,
    pub mode_counts: Vec<(String, u64)>,
    pub requester_target_counts: Vec<(String, u64)>,
}

/// `entries` are the pair counters with the pairs written as log keys.
pub open spec fn labelled(pairs: Seq<((String, String), u64)>, entries: Seq<(String, u64)>) -> bool {
    &&& entries.len() == pairs.len()
    &&& forall|i: int|
        0 <= i < pairs.len() ==> (#[trigger] entries[i]).1 == pairs[i].1 && entries[i].0@
            == pairs[i].0.0@ + "->"@ + pairs[i].0.1@
}

impl PlacementCounters {
    /// The report on all decisions so far.
    pub fn report(&self) -> (report: PlacementReport)
        ensures
            in_report_order(report.target_counts@),
            exists|entries: Seq<(String, u64)>| #[trigger]
                crate::dash::lists_numbers(entries, self@.by_target) && entries.to_multiset()
                    == report.target_counts@.to_multiset(),
            in_report_order(report.mode_counts@),
            exists|entries: Seq<(String, u64)>| #[trigger]
                crate::dash::lists_numbers(entries, self@.by_mode) && entries.to_multiset()
                    == report.mode_counts@.to_multiset(),
            in_report_order(report.requester_target_counts@),
            exists|pairs: Seq<((String, String), u64)>, entries: Seq<(String, u64)>| #[trigger]
                labelled(pairs, entries) && lists_pairs(pairs, self@.by_pair)
                    && entries.to_multiset() == report.requester_target_counts@.to_multiset(),
    {
        let targets = numbers_entries(&self.put_target_decision_counts);
        let modes = numbers_entries(&self.put_placement_mode_counts);
        let pairs = pairs_entries(&self.put_requester_target_decision_counts);
        assert(crate::dash::lists_numbers(targets@, self@.by_target));
        assert(crate::dash::lists_numbers(modes@, self@.by_mode));
        let mut keyed: Vec<(String, u64)> = Vec::new();
        let mut i: usize = 0;
        while i < pairs.len()
            invariant
                i <= pairs@.len(),
                labelled(pairs@.take(i as int), keyed@),
            decreases pairs@.len() - i,
        {
            let pair = RequesterTargetPair::new(pairs[i].0.0.as_str(), pairs[i].0.1.as_str());
            keyed.push((pair.as_log_key(), pairs[i].1));
            i = i + 1;
        }
        let ghost keyed_entries = keyed@;
        assert(pairs@.take(i as int) =~= pairs@);
        assert(labelled(pairs@, keyed_entries));
        PlacementReport {
            target_counts: sort_for_report(targets),
            mode_counts: sort_for_report(modes),
            requester_target_counts: sort_for_report(keyed),
        }
    }
}

} // verus!
