//! Measures: what is counted and timed is what happened.

use crate::external_client_api::trace::{self, PhaseSummary, PutPhase, TestPutPhaseTrace};
use crate::master_kv_router::placement_metrics::{self, PlacementCounts, PutPlacementMode};
use crate::text;
use vstd::prelude::*;

verus! {

/// How often something was counted; never, where there is no counter for it.
pub open spec fn times<K>(counters: Map<K, u64>, key: K) -> int {
    if counters.contains_key(key) {
        counters[key] as int
    } else {
        0
    }
}

/// Exactly one counter went up, by one.
pub open spec fn one_more<K>(before: Map<K, u64>, after: Map<K, u64>, key: K) -> bool {
    &&& after.contains_key(key)
    &&& times(before, key) < u64::MAX ==> times(after, key) == times(before, key) + 1
    &&& forall|other: K|
        other != key ==> #[trigger] times(after, other) == times(before, other) && (
        after.contains_key(other) <==> before.contains_key(other))
}

/// A decision where a put goes is counted once for its target, once for the requester with that
/// target, and once for whether the target is local.
pub proof fn law_decisions_are_counted_once(
    counts: PlacementCounts,
    requester: Seq<char>,
    target: Seq<char>,
    mode: PutPlacementMode,
)
    ensures
        ({
            let after = counts.recorded(requester, target, mode);
            &&& one_more(counts.by_target, after.by_target, target)
            &&& one_more(counts.by_pair, after.by_pair, (requester, target))
            &&& one_more(
                counts.by_mode,
                after.by_mode,
                match mode {
                    PutPlacementMode::Local => "local"@,
                    PutPlacementMode::Remote => "remote"@,
                },
            )
        }),
{
}

/// What happened more often is reported first; what happened equally often, in the order of the names.
pub proof fn law_frequent_entries_are_reported_first(entries: Seq<(String, u64)>, i: int, j: int)
    requires
        placement_metrics::in_report_order(entries),
        0 <= i < j < entries.len(),
    ensures
        entries[i].1 >= entries[j].1,
        entries[i].1 == entries[j].1 ==> !text::text_before(entries[j].0@, entries[i].0@),
{
    assert(!placement_metrics::reported_before(entries[j], entries[i]));
}

/// At the rank of a percentile at least that many of the values are reached, and one place before
/// they are not.
pub proof fn law_rank_reaches_the_percentile(len: nat, percentile: nat)
    requires
        len > 0,
        1 <= percentile <= 100,
    ensures
        ({
            let at = trace::nearest_rank(len, percentile);
            &&& 0 <= at < len
            &&& (at + 1) * 100 >= len * percentile
            &&& at * 100 < len * percentile
        }),
{
    assert(len * percentile <= len * 100) by (nonlinear_arith)
        requires
            percentile <= 100,
    ;
    assert(len * percentile >= 1) by (nonlinear_arith)
        requires
            percentile >= 1,
            len >= 1,
    ;
}

/// Each phase of a put has a time of its own.
pub proof fn law_phases_have_their_own_times(sample: TestPutPhaseTrace)
    ensures
        sample.phase(PutPhase::ExternalTotal) == sample.external_total_us,
        sample.phase(PutPhase::ExternalPutStartRpc) == sample.external_put_start_rpc_us,
        sample.phase(PutPhase::ExternalWritePayload) == sample.external_write_payload_us,
        sample.phase(PutPhase::ExternalPutTransferEndRpc)
            == sample.external_put_transfer_end_rpc_us,
        sample.phase(PutPhase::OwnerExternalPutStartTotal)
            == sample.owner_external_put_start_total_us,
        sample.phase(PutPhase::OwnerPutStartTotal) == sample.owner_put_start_total_us,
        sample.phase(PutPhase::OwnerMasterPutStartRpc) == sample.owner_master_put_start_rpc_us,
        sample.phase(PutPhase::OwnerMasterPutStartServer)
            == sample.owner_master_put_start_server_us,
        sample.phase(PutPhase::OwnerExternalPutTransferEndTotal)
            == sample.owner_external_put_transfer_end_total_us,
        sample.phase(PutPhase::OwnerPutTransferTotal) == sample.owner_put_transfer_total_us,
        sample.phase(PutPhase::OwnerPutEndTotal) == sample.owner_put_end_total_us,
        sample.phase(PutPhase::OwnerMasterPutEndRpc) == sample.owner_master_put_end_rpc_us,
        sample.phase(PutPhase::OwnerMasterPutEndServer) == sample.owner_master_put_end_server_us,
{
}

/// The time that the samples spent in a phase.
pub open spec fn time_spent(samples: Seq<TestPutPhaseTrace>, phase: PutPhase) -> int {
    samples.fold_left(
        0int,
        |sum: int, sample: TestPutPhaseTrace|
            if sample.phase(phase) > 0 {
                sum + sample.phase(phase)
            } else {
                sum
            },
    )
}

/// How many of the samples spent time in a phase.
pub open spec fn times_seen(samples: Seq<TestPutPhaseTrace>, phase: PutPhase) -> nat {
    samples.filter(|sample: TestPutPhaseTrace| sample.phase(phase) > 0).len()
}

/// The summary of a phase covers every sample that spent time in it, and no other.
pub proof fn law_summary_covers_the_samples(samples: Seq<TestPutPhaseTrace>, phase: PutPhase)
    ensures
        trace::sum_of(trace::positive_values(samples, phase)) == time_spent(samples, phase),
        trace::positive_values(samples, phase).len() == times_seen(samples, phase),
        forall|i: int|
            0 <= i < samples.len() && (#[trigger] samples[i]).phase(phase) > 0
                ==> trace::positive_values(samples, phase).contains(samples[i].phase(phase)),
    decreases samples.len(),
{
    reveal(Seq::filter);
    let values = trace::positive_values(samples, phase);
    if samples.len() == 0 {
        reveal_with_fuel(trace::sum_of, 2);
    } else {
        let fewer = samples.drop_last();
        let before = trace::positive_values(fewer, phase);
        law_summary_covers_the_samples(fewer, phase);
        if samples.last().phase(phase) > 0 {
            assert(values.drop_last() =~= before);
            assert(values.last() == samples.last().phase(phase));
        }
        assert forall|i: int|
            0 <= i < samples.len() && (#[trigger] samples[i]).phase(phase)
                > 0 implies values.contains(samples[i].phase(phase)) by {
            if i < fewer.len() {
                assert(fewer[i] == samples[i]);
                let k = choose|k: int| 0 <= k < before.len() && before[k] == samples[i].phase(phase);
                assert(values[k] == before[k]);
            } else {
                assert(values[values.len() - 1] == samples[i].phase(phase));
            }
        }
    }
}

/// The phases in which some sample spent time are reported, and no others.
pub proof fn law_phases_with_samples_are_reported(
    samples: Seq<TestPutPhaseTrace>,
    phases: Seq<PutPhase>,
    phase: PutPhase,
)
    ensures
        trace::phases_seen(samples, phases).contains(phase) <==> phases.contains(phase)
            && times_seen(samples, phase) > 0,
    decreases phases.len(),
{
    let seen = trace::phases_seen(samples, phases);
    if phases.len() > 0 {
        let fewer = phases.drop_last();
        let before = trace::phases_seen(samples, fewer);
        law_phases_with_samples_are_reported(samples, fewer, phase);
        law_summary_covers_the_samples(samples, phases.last());
        lemma_pushed(fewer, phases.last(), phase);
        assert(fewer.push(phases.last()) =~= phases);
        lemma_pushed(before, phases.last(), phase);
    }
}

proof fn lemma_pushed(phases: Seq<PutPhase>, last: PutPhase, phase: PutPhase)
    ensures
        phases.push(last).contains(phase) <==> phases.contains(phase) || phase == last,
{
    let more = phases.push(last);
    if phases.contains(phase) {
        let k = choose|k: int| 0 <= k < phases.len() && phases[k] == phase;
        assert(more[k] == phase);
    }
    if phase == last {
        assert(more[phases.len() as int] == phase);
    }
    if more.contains(phase) && phase != last {
        let k = choose|k: int| 0 <= k < more.len() && more[k] == phase;
        assert(phases[k] == phase);
    }
}

/// The summary of a phase tells how many samples spent time in it, how much in all, and a time that
/// ninety-five of a hundred of them did not exceed.
pub proof fn law_summaries_tell_the_times(summary: PhaseSummary, samples: Seq<TestPutPhaseTrace>)
    requires
        summary.of(samples),
        times_seen(samples, summary.phase) > 0,
    ensures
        summary.count == times_seen(samples, summary.phase),
        summary.sum == time_spent(samples, summary.phase),
        exists|sorted: Seq<i64>, at: int|
            #![trigger trace::ascending(sorted), sorted[at]]
            trace::ascending(sorted) && sorted.to_multiset() == trace::positive_values(
                samples,
                summary.phase,
            ).to_multiset() && 0 <= at < summary.count && summary.p95 == sorted[at] && (at + 1)
                * 100 >= summary.count * 95 && at * 100 < summary.count * 95,
{
    law_summary_covers_the_samples(samples, summary.phase);
    let values = trace::positive_values(samples, summary.phase);
    law_rank_reaches_the_percentile(values.len(), 95);
    let sorted = choose|sorted: Seq<i64>| #[trigger]
        trace::ascending(sorted) && sorted.to_multiset() == values.to_multiset() && summary.p95
            == sorted[trace::nearest_rank(values.len(), 95)];
    let at = trace::nearest_rank(values.len(), 95);
    assert(trace::ascending(sorted) && summary.p95 == sorted[at]);
}

/// In a report of pairs each pair that was counted stands once, with its count, and no other.
pub proof fn law_each_pair_is_reported_once(
    entries: Seq<((String, String), u64)>,
    counts: Map<(Seq<char>, Seq<char>), u64>,
    requester: Seq<char>,
    target: Seq<char>,
)
    requires
        placement_metrics::lists_pairs(entries, counts),
    ensures
        counts.contains_key((requester, target)) <==> exists|i: int|
            0 <= i < entries.len() && (#[trigger] entries[i]).0.0@ == requester && entries[i].0.1@
                == target && entries[i].1 == counts[(requester, target)],
        forall|i: int, j: int|
            0 <= i < j < entries.len() ==> (#[trigger] entries[i]).0.0@ != (
            #[trigger] entries[j]).0.0@ || entries[i].0.1@ != entries[j].0.1@,
{
    if counts.contains_key((requester, target)) {
        let i = choose|i: int|
            0 <= i < entries.len() && (entries[i].0.0@, entries[i].0.1@) == (requester, target);
        assert(entries[i].1 == counts[(requester, target)]);
    }
    assert forall|i: int, j: int| 0 <= i < j < entries.len() implies (#[trigger] entries[i]).0.0@
        != (#[trigger] entries[j]).0.0@ || entries[i].0.1@ != entries[j].0.1@ by {
        assert((entries[i].0.0@, entries[i].0.1@) != (entries[j].0.0@, entries[j].0.1@));
    }
}

/// A pair is reported as its requester, an arrow and its target, with its count.
pub proof fn law_pairs_are_labelled(
    pairs: Seq<((String, String), u64)>,
    entries: Seq<(String, u64)>,
    i: int,
)
    requires
        placement_metrics::labelled(pairs, entries),
        0 <= i < pairs.len(),
    ensures
        entries.len() == pairs.len(),
        entries[i].1 == pairs[i].1,
        entries[i].0@ == pairs[i].0.0@ + "->"@ + pairs[i].0.1@,
{
}

} // verus!
