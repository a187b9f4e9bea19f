//! Timing of puts, summed up over a window.

use vstd::prelude::*;

verus! {

/// Microseconds for which timings are collected before they are logged.
pub const EXTERNAL_PUT_TRACE_LOG_WINDOW_US: u64 = 10_000_000;

/// How long the phases of a put took, in microseconds; a phase that did not happen is zero.
#[derive(Clone, Copy, Debug)]
pub struct TestPutPhaseTrace {
    pub external_total_us: i64,
    pub external_put_start_rpc_us: i64,
    pub external_write_payload_us: i64,
    pub external_put_transfer_end_rpc_us: i64,
    pub owner_external_put_start_total_us: i64,
    pub owner_put_start_total_us: i64,
    pub owner_master_put_start_rpc_us: i64,
    pub owner_master_put_start_server_us: i64,
    pub owner_external_put_transfer_end_total_us: i64,
    pub owner_put_transfer_total_us: i64,
    pub owner_put_end_total_us: i64,
    pub owner_master_put_end_rpc_us: i64,
    pub owner_master_put_end_server_us: i64,
}

/// The phases, in the order in which they are logged.
#[derive(Clone, Copy, Debug, PartialEq, Eq, Structural)]
pub enum PutPhase {
    ExternalTotal,
    ExternalPutStartRpc,
    ExternalWritePayload,
    ExternalPutTransferEndRpc,
    OwnerExternalPutStartTotal,
    OwnerPutStartTotal,
    OwnerMasterPutStartRpc,
    OwnerMasterPutStartServer,
    OwnerExternalPutTransferEndTotal,
    OwnerPutTransferTotal,
    OwnerPutEndTotal,
    OwnerMasterPutEndRpc,
    OwnerMasterPutEndServer,
}

/// A duration in microseconds as a signed number, cut off at the largest.
pub fn duration_to_i64_us(micros: u128) -> (us: i64)
    ensures
        us == if micros <= i64::MAX {
            micros as int
        } else {
            i64::MAX as int
        },
{
    if micros > 9223372036854775807 {
        9223372036854775807
    } else {
        micros as i64
    }
}

impl PutPhase {
    /// All phases, in the order in which they are logged.
    pub open spec fn all() -> Seq<PutPhase> {
        seq![
            PutPhase::ExternalTotal,
            PutPhase::ExternalPutStartRpc,
            PutPhase::ExternalWritePayload,
            PutPhase::ExternalPutTransferEndRpc,
            PutPhase::OwnerExternalPutStartTotal,
            PutPhase::OwnerPutStartTotal,
            PutPhase::OwnerMasterPutStartRpc,
            PutPhase::OwnerMasterPutStartServer,
            PutPhase::OwnerExternalPutTransferEndTotal,
            PutPhase::OwnerPutTransferTotal,
            PutPhase::OwnerPutEndTotal,
            PutPhase::OwnerMasterPutEndRpc,
            PutPhase::OwnerMasterPutEndServer,
        ]
    }

    /// The phase's name in the log.
    pub open spec fn label(self) -> Seq<char> {
        match self {
            PutPhase::ExternalTotal => "external_total"@,
            PutPhase::ExternalPutStartRpc => "external_put_start_rpc"@,
            PutPhase::ExternalWritePayload => "external_write_payload"@,
            PutPhase::ExternalPutTransferEndRpc => "external_put_transfer_end_rpc"@,
            PutPhase::OwnerExternalPutStartTotal => "owner_external_put_start_total"@,
            PutPhase::OwnerPutStartTotal => "owner_put_start_total"@,
            PutPhase::OwnerMasterPutStartRpc => "owner_master_put_start_rpc"@,
            PutPhase::OwnerMasterPutStartServer => "owner_master_put_start_server"@,
            PutPhase::OwnerExternalPutTransferEndTotal => "owner_external_put_transfer_end_total"@,
            PutPhase::OwnerPutTransferTotal => "owner_put_transfer_total"@,
            PutPhase::OwnerPutEndTotal => "owner_put_end_total"@,
            PutPhase::OwnerMasterPutEndRpc => "owner_master_put_end_rpc"@,
            PutPhase::OwnerMasterPutEndServer => "owner_master_put_end_server"@,
        }
    }

    pub fn name(&self) -> (name: &'static str)
        ensures
            name@ == self.label(),
    {
        match self {
            PutPhase::ExternalTotal => "external_total",
            PutPhase::ExternalPutStartRpc => "external_put_start_rpc",
            PutPhase::ExternalWritePayload => "external_write_payload",
            PutPhase::ExternalPutTransferEndRpc => "external_put_transfer_end_rpc",
            PutPhase::OwnerExternalPutStartTotal => "owner_external_put_start_total",
            PutPhase::OwnerPutStartTotal => "owner_put_start_total",
            PutPhase::OwnerMasterPutStartRpc => "owner_master_put_start_rpc",
            PutPhase::OwnerMasterPutStartServer => "owner_master_put_start_server",
            PutPhase::OwnerExternalPutTransferEndTotal => "owner_external_put_transfer_end_total",
            PutPhase::OwnerPutTransferTotal => "owner_put_transfer_total",
            PutPhase::OwnerPutEndTotal => "owner_put_end_total",
            PutPhase::OwnerMasterPutEndRpc => "owner_master_put_end_rpc",
            PutPhase::OwnerMasterPutEndServer => "owner_master_put_end_server",
        }
    }
}

impl TestPutPhaseTrace {
    /// How long a phase took.
    pub open spec fn phase(self, phase: PutPhase) -> i64 {
        match phase {
            PutPhase::ExternalTotal => self.external_total_us,
            PutPhase::ExternalPutStartRpc => self.external_put_start_rpc_us,
            PutPhase::ExternalWritePayload => self.external_write_payload_us,
            PutPhase::ExternalPutTransferEndRpc => self.external_put_transfer_end_rpc_us,
            PutPhase::OwnerExternalPutStartTotal => self.owner_external_put_start_total_us,
            PutPhase::OwnerPutStartTotal => self.owner_put_start_total_us,
            PutPhase::OwnerMasterPutStartRpc => self.owner_master_put_start_rpc_us,
            PutPhase::OwnerMasterPutStartServer => self.owner_master_put_start_server_us,
            PutPhase::OwnerExternalPutTransferEndTotal => {
                self.owner_external_put_transfer_end_total_us
            },
            PutPhase::OwnerPutTransferTotal => self.owner_put_transfer_total_us,
            PutPhase::OwnerPutEndTotal => self.owner_put_end_total_us,
            PutPhase::OwnerMasterPutEndRpc => self.owner_master_put_end_rpc_us,
            PutPhase::OwnerMasterPutEndServer => self.owner_master_put_end_server_us,
        }
    }

    fn phase_us(&self, phase: PutPhase) -> (us: i64)
        ensures
            us == self.phase(phase),
    {
        match phase {
            PutPhase::ExternalTotal => self.external_total_us,
            PutPhase::ExternalPutStartRpc => self.external_put_start_rpc_us,
            PutPhase::ExternalWritePayload => self.external_write_payload_us,
            PutPhase::ExternalPutTransferEndRpc => self.external_put_transfer_end_rpc_us,
            PutPhase::OwnerExternalPutStartTotal => self.owner_external_put_start_total_us,
            PutPhase::OwnerPutStartTotal => self.owner_put_start_total_us,
            PutPhase::OwnerMasterPutStartRpc => self.owner_master_put_start_rpc_us,
            PutPhase::OwnerMasterPutStartServer => self.owner_master_put_start_server_us,
            PutPhase::OwnerExternalPutTransferEndTotal => {
                self.owner_external_put_transfer_end_total_us
            },
            PutPhase::OwnerPutTransferTotal => self.owner_put_transfer_total_us,
            PutPhase::OwnerPutEndTotal => self.owner_put_end_total_us,
            PutPhase::OwnerMasterPutEndRpc => self.owner_master_put_end_rpc_us,
            PutPhase::OwnerMasterPutEndServer => self.owner_master_put_end_server_us,
        }
    }
}

/// The timings collected since the last were logged.
pub struct ExternalPutTraceLogWindow {
    /// When the window began, in microseconds of a clock that does not go back.
    pub window_started_at: Option<u64>,
    pub samples: Vec<TestPutPhaseTrace>,
}

impl ExternalPutTraceLogWindow {
    pub fn new() -> (window: Self)
        ensures
            window.window_started_at is None,
            window.samples@.len() == 0,
    {
        ExternalPutTraceLogWindow { window_started_at: None, samples: Vec::new() }
    }

    /// Collects a sample. Once the window is over, its length and all samples are returned, and a
    /// new window begins.
    pub fn push_and_maybe_take(&mut self, sample: &TestPutPhaseTrace, now_us: u64) -> (taken: Option<
        (u64, Vec<TestPutPhaseTrace>),
    >)
        requires
            old(self).window_started_at matches Some(started) ==> started <= now_us,
        ensures
            ({
                let started = match old(self).window_started_at {
                    Some(started) => started,
                    None => now_us,
                };
                if now_us - started < EXTERNAL_PUT_TRACE_LOG_WINDOW_US {
                    &&& taken is None
                    &&& final(self).window_started_at == Some(started)
                    &&& final(self).samples@ == old(self).samples@.push(*sample)
                } else {
                    &&& taken matches Some((elapsed, samples)) && elapsed == now_us - started
                        && samples@ == old(self).samples@.push(*sample)
                    &&& final(self).window_started_at == Some(now_us)
                    &&& final(self).samples@.len() == 0
                }
            }),
    {
        let started: u64 = match self.window_started_at {
            Some(started) => started,
            None => now_us,
        };
        self.window_started_at = Some(started);
        self.samples.push(*sample);
        let elapsed: u64 = now_us - started;
        if elapsed < EXTERNAL_PUT_TRACE_LOG_WINDOW_US {
            return None;
        }
        self.window_started_at = Some(now_us);
        let mut samples: Vec<TestPutPhaseTrace> = Vec::new();
        std::mem::swap(&mut samples, &mut self.samples);
        Some((elapsed, samples))
    }
}

/// The values are in ascending order.
pub open spec fn ascending(values: Seq<i64>) -> bool {
    forall|i: int, j: int| 0 <= i <= j < values.len() ==> values[i] <= values[j]
}

/// The position of the nearest-rank percentile among `len` values in order: the smallest position
/// with at least that share of the values up to it.
pub open spec fn nearest_rank(len: nat, percentile: nat) -> int {
    let rank = (len * percentile + 99) / 100;
    let at = if rank == 0 {
        0
    } else {
        rank - 1
    };
    if at < len {
        at as int
    } else {
        len - 1
    }
}

/// The nearest-rank percentile of values in order.
pub fn percentile_nearest_rank_us(sorted_values: &Vec<i64>, percentile: usize) -> (value: i64)
    requires
        sorted_values@.len() > 0,
        sorted_values@.len() * percentile + 99 <= usize::MAX,
    ensures
        value == sorted_values@[nearest_rank(sorted_values@.len(), percentile as nat)],
{
    let len: usize = sorted_values.len();
    assert(len * percentile >= 0) by (nonlinear_arith);
    let rank: usize = (len * percentile + 99) / 100;
    let mut idx: usize = rank.saturating_sub(1);
    if idx > len - 1 {
        idx = len - 1;
    }
    sorted_values[idx]
}

/// The durations of a phase that happened, in the order of the samples.
pub open spec fn positive_values(samples: Seq<TestPutPhaseTrace>, phase: PutPhase) -> Seq<i64>
    decreases samples.len(),
{
    if samples.len() == 0 {
        Seq::empty()
    } else {
        let before = positive_values(samples.drop_last(), phase);
        if samples.last().phase(phase) > 0 {
            before.push(samples.last().phase(phase))
        } else {
            before
        }
    }
}

/// The sum of values.
pub open spec fn sum_of(values: Seq<i64>) -> int
    decreases values.len(),
{
    if values.len() == 0 {
        0
    } else {
        sum_of(values.drop_last()) + values.last()
    }
}

/// What is logged of a phase: the average is `sum` over `count`.
pub struct PhaseSummary {
    pub phase: PutPhase,
    pub count: usize,
    pub sum: i64,
    pub p95: i64,
}

impl PhaseSummary {
    /// The summary is that of a phase over some samples.
    pub open spec fn of(self, samples: Seq<TestPutPhaseTrace>) -> bool {
        let values = positive_values(samples, self.phase);
        &&& self.count == values.len()
        &&& self.sum == sum_of(values)
        &&& exists|sorted: Seq<i64>| #[trigger]
            ascending(sorted) && sorted.to_multiset() == values.to_multiset() && self.p95
                == sorted[nearest_rank(values.len(), 95)]
    }
}

/// The phases that happened in some sample.
pub open spec fn phases_seen(samples: Seq<TestPutPhaseTrace>, phases: Seq<PutPhase>) -> Seq<
    PutPhase,
>
    decreases phases.len(),
{
    if phases.len() == 0 {
        Seq::empty()
    } else {
        let before = phases_seen(samples, phases.drop_last());
        if positive_values(samples, phases.last()).len() > 0 {
            before.push(phases.last())
        } else {
            before
        }
    }
}

fn sort_ascending(values: Vec<i64>) -> (sorted: Vec<i64>)
    ensures
        ascending(sorted@),
        sorted@.to_multiset() == values@.to_multiset(),
        sorted@.len() == values@.len(),
{
    let ghost all = values@;
    let mut sorted: Vec<i64> = Vec::new();
    let mut i: usize = 0;
    proof {
        assert(all.take(0) =~= sorted@);
    }
    while i < values.len()
        invariant
            all == values@,
            i <= values@.len(),
            sorted@.len() == i,
            ascending(sorted@),
            sorted@.to_multiset() == all.take(i as int).to_multiset(),
        decreases values@.len() - i,
    {
        let value: i64 = values[i];
        let ghost list = sorted@;
        let mut at: usize = sorted.len();
        while at > 0 && sorted[at - 1] > value
            invariant
                sorted@ == list,
                at <= list.len(),
                ascending(list),
                forall|k: int| at <= k < list.len() ==> list[k] > value,
            decreases at,
        {
            at = at - 1;
        }
        sorted.insert(at, value);
        proof {
            assert(sorted@ =~= list.insert(at as int, value));
            vstd::seq_lib::to_multiset_insert(list, at as int, value);
            all.take(i as int).to_multiset_ensures();
            assert(all.take(i + 1) =~= all.take(i as int).push(value));
        }
        i = i + 1;
    }
    proof {
        assert(all.take(i as int) =~= all);
    }
    sorted
}

fn phase_values(samples: &Vec<TestPutPhaseTrace>, phase: PutPhase) -> (values: Vec<i64>)
    ensures
        values@ == positive_values(samples@, phase),
        values@.len() <= samples@.len(),
        forall|i: int| 0 <= i < values@.len() ==> (#[trigger] values@[i]) > 0,
{
    let mut values: Vec<i64> = Vec::new();
    let mut i: usize = 0;
    assert(samples@.take(0) =~= Seq::<TestPutPhaseTrace>::empty());
    while i < samples.len()
        invariant
            i <= samples@.len(),
            values@ == positive_values(samples@.take(i as int), phase),
            values@.len() <= i,
            forall|k: int| 0 <= k < values@.len() ==> (#[trigger] values@[k]) > 0,
        decreases samples@.len() - i,
    {
        assert(samples@.take(i + 1).drop_last() =~= samples@.take(i as int));
        let us: i64 = samples[i].phase_us(phase);
        if us > 0 {
            values.push(us);
        }
        i = i + 1;
    }
    assert(samples@.take(i as int) =~= samples@);
    values
}

proof fn lemma_sum_of_prefix(values: Seq<i64>, n: int)
    requires
        0 <= n <= values.len(),
        forall|i: int| 0 <= i < values.len() ==> (#[trigger] values[i]) > 0,
    ensures
        0 <= sum_of(values.take(n)) <= sum_of(values),
    decreases values.len(),
{
    if values.len() == 0 {
        assert(values.take(n) =~= values);
    } else {
        let before = values.drop_last();
        assert forall|i: int| 0 <= i < before.len() implies (#[trigger] before[i]) > 0 by {
            assert(values[i] > 0);
        }
        assert(values[values.len() - 1] > 0);
        if n == values.len() {
            lemma_sum_of_prefix(before, before.len() as int);
            assert(before.take(before.len() as int) =~= before);
            assert(values.take(n) =~= values);
        } else {
            lemma_sum_of_prefix(before, n);
            assert(before.take(n) =~= values.take(n));
        }
    }
}

fn add_up(values: &Vec<i64>) -> (sum: i64)
    requires
        sum_of(values@) <= i64::MAX,
        forall|i: int| 0 <= i < values@.len() ==> (#[trigger] values@[i]) > 0,
    ensures
        sum == sum_of(values@),
{
    let mut sum: i64 = 0;
    let mut i: usize = 0;
    assert(values@.take(0) =~= Seq::<i64>::empty());
    while i < values.len()
        invariant
            i <= values@.len(),
            sum == sum_of(values@.take(i as int)),
            sum_of(values@) <= i64::MAX,
            forall|k: int| 0 <= k < values@.len() ==> (#[trigger] values@[k]) > 0,
        decreases values@.len() - i,
    {
        proof {
            lemma_sum_of_prefix(values@, i as int);
            lemma_sum_of_prefix(values@, i + 1);
            assert(values@.take(i + 1).drop_last() =~= values@.take(i as int));
        }
        sum = sum + values[i];
        i = i + 1;
    }
    assert(values@.take(i as int) =~= values@);
    sum
}

/// Sums up a window, phase by phase; a phase that happened in no sample is left out.
pub fn summarize_external_put_trace_window(samples: &Vec<TestPutPhaseTrace>) -> (summary: Vec<
    PhaseSummary,
>)
    requires
        samples@.len() * 95 + 99 <= usize::MAX,
        forall|phase: PutPhase| #[trigger]
            sum_of(positive_values(samples@, phase)) <= i64::MAX,
    ensures
        summary@.len() == phases_seen(samples@, PutPhase::all()).len(),
        forall|i: int|
            0 <= i < summary@.len() ==> (#[trigger] summary@[i]).phase == phases_seen(
                samples@,
                PutPhase::all(),
            )[i] && summary@[i].of(samples@),
{
    let phases: Vec<PutPhase> = vec![
        PutPhase::ExternalTotal,
        PutPhase::ExternalPutStartRpc,
        PutPhase::ExternalWritePayload,
        PutPhase::ExternalPutTransferEndRpc,
        PutPhase::OwnerExternalPutStartTotal,
        PutPhase::OwnerPutStartTotal,
        PutPhase::OwnerMasterPutStartRpc,
        PutPhase::OwnerMasterPutStartServer,
        PutPhase::OwnerExternalPutTransferEndTotal,
        PutPhase::OwnerPutTransferTotal,
        PutPhase::OwnerPutEndTotal,
        PutPhase::OwnerMasterPutEndRpc,
        PutPhase::OwnerMasterPutEndServer,
    ];
    assert(phases@ =~= PutPhase::all());
    let mut summary: Vec<PhaseSummary> = Vec::new();
    let mut i: usize = 0;
    assert(phases@.take(0) =~= Seq::<PutPhase>::empty());
    while i < phases.len()
        invariant
            i <= phases@.len(),
            samples@.len() * 95 + 99 <= usize::MAX,
            forall|phase: PutPhase| #[trigger]
                sum_of(positive_values(samples@, phase)) <= i64::MAX,
            summary@.len() == phases_seen(samples@, phases@.take(i as int)).len(),
            forall|k: int|
                0 <= k < summary@.len() ==> (#[trigger] summary@[k]).phase == phases_seen(
                    samples@,
                    phases@.take(i as int),
                )[k] && summary@[k].of(samples@),
        decreases phases@.len() - i,
    {
        assert(phases@.take(i + 1).drop_last() =~= phases@.take(i as int));
        let phase = phases[i];
        let values = phase_values(samples, phase);
        if values.len() > 0 {
            let count: usize = values.len();
            let sum: i64 = add_up(&values);
            let ghost unsorted = values@;
            let sorted = sort_ascending(values);
            let p95: i64 = percentile_nearest_rank_us(&sorted, 95);
            let entry = PhaseSummary { phase, count, sum, p95 };
            assert(ascending(sorted@));
            assert(entry.of(samples@));
            summary.push(entry);
        }
        i = i + 1;
    }
    assert(phases@.take(i as int) =~= phases@);
    summary
}

} // verus!
