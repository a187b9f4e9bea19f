//! Which side workers run, and which have to be replaced.

use crate::external_client_api::side_transfer::SideTransferPeerFileMeta;
use crate::text;
use vstd::prelude::*;

verus! {

/// How long a side worker may take to get ready, in milliseconds.
pub const SIDE_TRANSFER_WORKER_READY_TIMEOUT_MS: u64 = 30_000;

pub const SIDE_TRANSFER_WORKER_RECONCILE_INTERVAL_MS: u64 = 2_000;

/// A side worker is ready once its peer file names this generation of its owner: it writes the file
/// when it has attached the owner's memory.
pub fn is_side_transfer_worker_ready(
    peer_file: Option<&SideTransferPeerFileMeta>,
    owner_id: &str,
    owner_start_time: i64,
) -> (ready: bool)
    ensures
        ready == (peer_file matches Some(meta) && meta.owner_id@ == owner_id@
            && meta.owner_start_time == owner_start_time),
{
    match peer_file {
        Some(meta) => text::same_text(meta.owner_id.as_str(), owner_id) && meta.owner_start_time
            == owner_start_time,
        None => false,
    }
}

/// What is seen of a side worker's process.
pub enum WorkerPoll {
    Running { ready: bool },
    Exited { status: String },
    /// The process could not be asked.
    Failed { error: String },
}

/// A side worker, and since when it is not ready, in milliseconds of a clock that does not go back.
pub type SideWorker = (u16, Option<u64>);

/// The side workers that run, in the order of their lanes.
pub struct SideWorkers {
    pub workers: Vec<SideWorker>,
}

/// Since when a worker is not ready, after it was seen.
pub open spec fn marked(since: Option<u64>, ready: bool, now: u64) -> Option<u64> {
    if ready {
        None
    } else {
        match since {
            Some(since) => Some(since),
            None => Some(now),
        }
    }
}

/// A poll that shows a running worker.
pub open spec fn shows_running(poll: WorkerPoll) -> bool {
    poll is Running
}

/// A poll that shows a ready worker.
pub open spec fn shows_ready(poll: WorkerPoll) -> bool {
    poll matches WorkerPoll::Running { ready } && ready
}

/// How many of the polls show a ready worker.
pub open spec fn count_ready(polls: Seq<WorkerPoll>) -> nat
    decreases polls.len(),
{
    if polls.len() == 0 {
        0
    } else {
        count_ready(polls.drop_last()) + if shows_ready(polls.last()) {
            1nat
        } else {
            0
        }
    }
}

/// The workers after the first `n` were seen.
pub open spec fn seen(
    before: Seq<SideWorker>,
    polls: Seq<WorkerPoll>,
    now: u64,
    n: int,
    after: Seq<SideWorker>,
) -> bool {
    &&& after.len() == before.len()
    &&& forall|i: int|
        0 <= i < before.len() ==> #[trigger] after[i] == if i < n {
            (before[i].0, marked(before[i].1, shows_ready(polls[i]), now))
        } else {
            before[i]
        }
}

/// Why the owner gives up on its side workers.
pub enum ReadyFailure {
    Exited { worker_idx: u16, status: String },
    PollFailed { error: String },
    TimedOut { ready: usize, expected: usize },
}

/// How a wait for the side workers goes on.
pub enum ReadyStep {
    Ready,
    /// Sleep for 200 ms and poll again.
    Sleep,
    Failed(ReadyFailure),
}

impl ReadyFailure {
    /// What is said of a wait that ran out of time.
    pub open spec fn timed_out_text(ready: usize, expected: usize) -> Seq<char> {
        "Timed out waiting for side-transfer workers to publish readiness: ready="@ + text::decimal(
            ready as nat,
        ) + "/"@ + text::decimal(expected as nat) + ", timeout=30s"@
    }

    pub fn timed_out_message(ready: usize, expected: usize) -> (message: String)
        ensures
            message@ == Self::timed_out_text(ready, expected),
    {
        let mut message =
            "Timed out waiting for side-transfer workers to publish readiness: ready=".to_owned();
        text::append_u64(&mut message, ready as u64);
        message.append("/");
        text::append_u64(&mut message, expected as u64);
        message.concat(", timeout=30s")
    }

    /// What is said of a worker that ended before it was ready. `outputs` is what it printed last.
    pub open spec fn exited_text(
        worker_idx: u16,
        status: Seq<char>,
        config_path: Seq<char>,
        outputs: Seq<char>,
    ) -> Seq<char> {
        "side-transfer worker "@ + text::decimal(worker_idx as nat)
            + " exited before ready: status="@ + status + ", config="@ + config_path + "\n"@ + outputs
    }

    pub fn exited_message(worker_idx: u16, status: &str, config_path: &str, outputs: &str) -> (message:
        String)
        ensures
            message@ == Self::exited_text(worker_idx, status@, config_path@, outputs@),
    {
        let mut message = "side-transfer worker ".to_owned();
        text::append_u64(&mut message, worker_idx as u64);
        message.concat(" exited before ready: status=").concat(status).concat(", config=").concat(
            config_path,
        ).concat("\n").concat(outputs)
    }
}

/// Why a side worker is replaced.
#[derive(Debug)]
pub enum RemovalReason {
    Exited { status: String },
    NotReady,
    PollFailed { error: String },
}

impl RemovalReason {
    pub open spec fn text(self) -> Seq<char> {
        match self {
            RemovalReason::Exited { status } => "exited unexpectedly with status "@ + status@,
            RemovalReason::NotReady => "not ready for >= 30s"@,
            RemovalReason::PollFailed { error } => "status poll failed: "@ + error@,
        }
    }

    pub fn message(&self) -> (message: String)
        ensures
            message@ == self.text(),
    {
        match self {
            RemovalReason::Exited { status } => {
                "exited unexpectedly with status ".to_owned().concat(status.as_str())
            },
            RemovalReason::NotReady => "not ready for >= 30s".to_owned(),
            RemovalReason::PollFailed { error } => "status poll failed: ".to_owned().concat(
                error.as_str(),
            ),
        }
    }
}

/// What a look at the side workers that were just started does, and what it comes to.
pub open spec fn start_judged(
    before: Seq<SideWorker>,
    after: Seq<SideWorker>,
    polls: Seq<WorkerPoll>,
    elapsed_ms: u64,
    now: u64,
    step: ReadyStep,
) -> bool {
    if forall|i: int| 0 <= i < polls.len() ==> shows_running(#[trigger] polls[i]) {
        let ready = count_ready(polls);
        &&& seen(before, polls, now, polls.len() as int, after)
        &&& if ready == polls.len() {
            step is Ready
        } else if elapsed_ms >= SIDE_TRANSFER_WORKER_READY_TIMEOUT_MS {
            step == ReadyStep::Failed(
                ReadyFailure::TimedOut {
                    ready: ready as usize,
                    expected: polls.len() as usize,
                },
            )
        } else {
            step is Sleep
        }
    } else {
        exists|n: int|
            {
                &&& 0 <= n < polls.len()
                &&& !shows_running(#[trigger] polls[n])
                &&& forall|i: int| 0 <= i < n ==> shows_running(#[trigger] polls[i])
                &&& seen(before, polls, now, n, after)
                &&& match polls[n] {
                    WorkerPoll::Exited { status } => step == ReadyStep::Failed(
                        ReadyFailure::Exited {
                            worker_idx: before[n].0,
                            status,
                        },
                    ),
                    WorkerPoll::Failed { error } => step == ReadyStep::Failed(
                        ReadyFailure::PollFailed { error },
                    ),
                    WorkerPoll::Running { .. } => true,
                }
            }
    }
}

/// For how long a worker is not ready.
pub open spec fn not_ready_for(since: Option<u64>, now: u64) -> int {
    match since {
        Some(since) if since <= now => now - since,
        _ => 0,
    }
}

/// Why a worker is replaced after it was seen, if it is.
pub open spec fn removal(since: Option<u64>, poll: WorkerPoll, now: u64) -> Option<RemovalReason> {
    match poll {
        WorkerPoll::Running { ready } => if !ready && not_ready_for(since, now)
            >= SIDE_TRANSFER_WORKER_READY_TIMEOUT_MS {
            Some(RemovalReason::NotReady)
        } else {
            None
        },
        WorkerPoll::Exited { status } => Some(RemovalReason::Exited { status }),
        WorkerPoll::Failed { error } => Some(RemovalReason::PollFailed { error }),
    }
}

/// The workers that stay.
pub open spec fn staying(workers: Seq<SideWorker>, polls: Seq<WorkerPoll>, now: u64) -> Seq<
    SideWorker,
>
    decreases workers.len(),
{
    if workers.len() == 0 {
        Seq::empty()
    } else {
        let before = staying(workers.drop_last(), polls.drop_last(), now);
        let (worker_idx, since) = workers.last();
        if removal(since, polls.last(), now) is None {
            before.push((worker_idx, marked(since, shows_ready(polls.last()), now)))
        } else {
            before
        }
    }
}

/// The workers that are replaced, and why.
pub open spec fn leaving(workers: Seq<SideWorker>, polls: Seq<WorkerPoll>, now: u64) -> Seq<
    (u16, RemovalReason),
>
    decreases workers.len(),
{
    if workers.len() == 0 {
        Seq::empty()
    } else {
        let before = leaving(workers.drop_last(), polls.drop_last(), now);
        let (worker_idx, since) = workers.last();
        match removal(since, polls.last(), now) {
            Some(reason) => before.push((worker_idx, reason)),
            None => before,
        }
    }
}

/// A worker with this index runs.
pub open spec fn runs(workers: Seq<SideWorker>, worker_idx: u16) -> bool {
    exists|i: int| 0 <= i < workers.len() && (#[trigger] workers[i]).0 == worker_idx
}

/// The indices below a bound that no worker has, in order.
pub open spec fn missing_below(workers: Seq<SideWorker>, bound: nat) -> Seq<u16>
    decreases bound,
{
    if bound == 0 {
        Seq::empty()
    } else {
        let before = missing_below(workers, (bound - 1) as nat);
        if runs(workers, (bound - 1) as u16) {
            before
        } else {
            before.push((bound - 1) as u16)
        }
    }
}

/// What a look at the side workers comes to.
pub struct Reconciled {
    /// The workers to stop.
    pub removed: Vec<(u16, RemovalReason)>,
    /// The workers to start.
    pub missing: Vec<u16>,
}

/// Workers are listed in ascending order, each once.
pub open spec fn ascending(workers: Seq<SideWorker>) -> bool {
    forall|i: int, j: int| 0 <= i < j < workers.len() ==> workers[i].0 < workers[j].0
}

proof fn lemma_staying_indices(workers: Seq<SideWorker>, polls: Seq<WorkerPoll>, now: u64)
    requires
        ascending(workers),
        workers.len() == polls.len(),
    ensures
        ascending(staying(workers, polls, now)),
        forall|i: int|
            0 <= i < staying(workers, polls, now).len() ==> runs(
                workers,
                (#[trigger] staying(workers, polls, now)[i]).0,
            ),
    decreases workers.len(),
{
    if workers.len() > 0 {
        let rest = workers.drop_last();
        let before = staying(rest, polls.drop_last(), now);
        lemma_staying_indices(rest, polls.drop_last(), now);
        let after = staying(workers, polls, now);
        assert forall|i: int| 0 <= i < after.len() implies runs(workers, (#[trigger] after[i]).0) by {
            if i < before.len() {
                assert(runs(rest, before[i].0));
                let k = choose|k: int| 0 <= k < rest.len() && (#[trigger] rest[k]).0
                    == before[i].0;
                assert(workers[k].0 == before[i].0);
            } else {
                assert(workers[workers.len() - 1].0 == after[i].0);
            }
        }
        assert forall|i: int, j: int| 0 <= i < j < after.len() implies after[i].0 < after[j].0 by {
            if j == before.len() {
                assert(runs(rest, before[i].0));
                let k = choose|k: int| 0 <= k < rest.len() && (#[trigger] rest[k]).0
                    == before[i].0;
                assert(workers[k].0 < workers[workers.len() - 1].0);
            }
        }
    }
}

impl SideWorkers {
    pub open spec fn wf(self) -> bool {
        ascending(self.workers@)
    }

    pub fn new() -> (workers: Self)
        ensures
            workers.wf(),
            workers.workers@.len() == 0,
    {
        SideWorkers { workers: Vec::new() }
    }

    /// Takes a worker in that was just started. A worker with an index that another one has is not
    /// taken in: it has to be stopped.
    pub fn insert_started(&mut self, worker_idx: u16, now: u64) -> (inserted: bool)
        requires
            old(self).wf(),
        ensures
            final(self).wf(),
            inserted == !runs(old(self).workers@, worker_idx),
            if inserted {
                exists|at: int|
                    0 <= at <= old(self).workers@.len() && final(self).workers@ == #[trigger] old(
                        self,
                    ).workers@.insert(at, (worker_idx, Some(now)))
            } else {
                final(self).workers@ == old(self).workers@
            },
    {
        let ghost before = self.workers@;
        let mut at: usize = 0;
        while at < self.workers.len() && self.workers[at].0 < worker_idx
            invariant
                self.workers@ == before,
                before == old(self).workers@,
                ascending(before),
                at <= before.len(),
                forall|i: int| 0 <= i < at ==> (#[trigger] before[i]).0 < worker_idx,
            decreases before.len() - at,
        {
            at = at + 1;
        }
        if at < self.workers.len() && self.workers[at].0 == worker_idx {
            assert(before[at as int].0 == worker_idx);
            return false;
        }
        proof {
            assert forall|i: int| 0 <= i < before.len() implies (#[trigger] before[i]).0
                != worker_idx by {
                if i > at {
                    assert(before[at as int].0 < before[i].0);
                }
            }
        }
        self.workers.insert(at, (worker_idx, Some(now)));
        proof {
            let after = self.workers@;
            assert(after == before.insert(at as int, (worker_idx, Some(now))));
            assert forall|i: int, j: int| 0 <= i < j < after.len() implies after[i].0
                < after[j].0 by {
                if i < at && j > at {
                    assert(after[j] == before[j - 1]);
                } else if i == at {
                    assert(after[j] == before[j - 1]);
                    assert(before[at as int].0 > worker_idx);
                    if j - 1 > at {
                        assert(before[at as int].0 < before[j - 1].0);
                    }
                } else if i > at {
                    assert(after[i] == before[i - 1]);
                    assert(after[j] == before[j - 1]);
                }
            }
        }
        true
    }

    /// At start-up: the owner waits until all its side workers are ready. One that ends, or cannot
    /// be asked, fails the start, and so does the time-out.
    pub fn on_start_poll(&mut self, polls: &Vec<WorkerPoll>, elapsed_ms: u64, now: u64) -> (step:
        ReadyStep)
        requires
            polls@.len() == old(self).workers@.len(),
        ensures
            start_judged(
                old(self).workers@,
                final(self).workers@,
                polls@,
                elapsed_ms,
                now,
                step,
            ),
            final(self).workers@.len() == old(self).workers@.len(),
            forall|i: int|
                0 <= i < old(self).workers@.len() ==> (#[trigger] final(self).workers@[i]).0
                    == old(self).workers@[i].0,
    {
        let ghost before = self.workers@;
        let mut ready: usize = 0;
        let mut i: usize = 0;
        assert(polls@.take(0) =~= Seq::<WorkerPoll>::empty());
        while i < polls.len()
            invariant
                before == old(self).workers@,
                polls@.len() == before.len(),
                i <= polls@.len(),
                ready <= i,
                ready == count_ready(polls@.take(i as int)),
                seen(before, polls@, now, i as int, self.workers@),
                forall|k: int| 0 <= k < i ==> shows_running(#[trigger] polls@[k]),
            decreases polls@.len() - i,
        {
            assert(polls@.take(i + 1).drop_last() =~= polls@.take(i as int));
            assert(self.workers@[i as int] == before[i as int]);
            match &polls[i] {
                WorkerPoll::Exited { status } => {
                    assert(!shows_running(polls@[i as int]));
                    return ReadyStep::Failed(
                        ReadyFailure::Exited {
                            worker_idx: self.workers[i].0,
                            status: status.clone(),
                        },
                    );
                },
                WorkerPoll::Failed { error } => {
                    assert(!shows_running(polls@[i as int]));
                    return ReadyStep::Failed(ReadyFailure::PollFailed { error: error.clone() });
                },
                WorkerPoll::Running { ready: is_ready } => {
                    let (worker_idx, since) = self.workers[i];
                    let mark: Option<u64> = if *is_ready {
                        ready = ready + 1;
                        None
                    } else {
                        match since {
                            Some(since) => Some(since),
                            None => Some(now),
                        }
                    };
                    self.workers.set(i, (worker_idx, mark));
                    assert(shows_running(polls@[i as int]));
                },
            }
            i = i + 1;
        }
        assert(polls@.take(i as int) =~= polls@);
        let expected: usize = polls.len();
        if ready == expected {
            return ReadyStep::Ready;
        }
        if elapsed_ms >= SIDE_TRANSFER_WORKER_READY_TIMEOUT_MS {
            return ReadyStep::Failed(ReadyFailure::TimedOut { ready, expected });
        }
        ReadyStep::Sleep
    }

    /// While the owner runs: workers that ended, cannot be asked, or are not ready for too long
    /// leave the list, and every lane without a worker is to get one.
    pub fn reconcile(&mut self, polls: &Vec<WorkerPoll>, now: u64, worker_count: u16) -> (outcome:
        Reconciled)
        requires
            old(self).wf(),
            polls@.len() == old(self).workers@.len(),
        ensures
            final(self).wf(),
            final(self).workers@ == staying(old(self).workers@, polls@, now),
            outcome.removed@ == leaving(old(self).workers@, polls@, now),
            outcome.missing@ == missing_below(final(self).workers@, worker_count as nat),
    {
        let ghost before = self.workers@;
        let mut stay: Vec<SideWorker> = Vec::new();
        let mut removed: Vec<(u16, RemovalReason)> = Vec::new();
        let mut i: usize = 0;
        assert(before.take(0) =~= Seq::<SideWorker>::empty());
        while i < polls.len()
            invariant
                before == old(self).workers@,
                self.workers@ == before,
                polls@.len() == before.len(),
                i <= polls@.len(),
                stay@ == staying(before.take(i as int), polls@.take(i as int), now),
                removed@ == leaving(before.take(i as int), polls@.take(i as int), now),
            decreases polls@.len() - i,
        {
            assert(polls@.take(i + 1).drop_last() =~= polls@.take(i as int));
            assert(before.take(i + 1).drop_last() =~= before.take(i as int));
            assert(before.take(i + 1).last() == before[i as int]);
            assert(polls@.take(i + 1).last() == polls@[i as int]);
            let (worker_idx, since) = self.workers[i];
            match &polls[i] {
                WorkerPoll::Exited { status } => {
                    removed.push((worker_idx, RemovalReason::Exited { status: status.clone() }));
                },
                WorkerPoll::Failed { error } => {
                    removed.push((worker_idx, RemovalReason::PollFailed { error: error.clone() }));
                },
                WorkerPoll::Running { ready } => {
                    if *ready {
                        stay.push((worker_idx, None));
                    } else {
                        let not_ready_since: u64 = match since {
                            Some(since) => since,
                            None => now,
                        };
                        if now.saturating_sub(not_ready_since)
                            >= SIDE_TRANSFER_WORKER_READY_TIMEOUT_MS {
                            removed.push((worker_idx, RemovalReason::NotReady));
                        } else {
                            stay.push((worker_idx, Some(not_ready_since)));
                        }
                    }
                },
            }
            i = i + 1;
        }
        proof {
            assert(polls@.take(i as int) =~= polls@);
            assert(before.take(i as int) =~= before);
            lemma_staying_indices(before, polls@, now);
        }
        self.workers = stay;
        let mut missing: Vec<u16> = Vec::new();
        let mut worker_idx: u16 = 0;
        while worker_idx < worker_count
            invariant
                worker_idx <= worker_count,
                missing@ == missing_below(self.workers@, worker_idx as nat),
            decreases worker_count - worker_idx,
        {
            if !self.has_worker(worker_idx) {
                missing.push(worker_idx);
            }
            worker_idx = worker_idx + 1;
        }
        Reconciled { removed, missing }
    }

    fn has_worker(&self, worker_idx: u16) -> (has: bool)
        ensures
            has == runs(self.workers@, worker_idx),
    {
        let mut i: usize = 0;
        while i < self.workers.len()
            invariant
                i <= self.workers@.len(),
                forall|k: int| 0 <= k < i ==> (#[trigger] self.workers@[k]).0 != worker_idx,
            decreases self.workers@.len() - i,
        {
            if self.workers[i].0 == worker_idx {
                assert(self.workers@[i as int].0 == worker_idx);
                return true;
            }
            i = i + 1;
        }
        false
    }
}

/// A worker that was seen ready stays.
pub proof fn law_ready_worker_stays(since: Option<u64>, poll: WorkerPoll, now: u64)
    requires
        shows_ready(poll),
    ensures
        removal(since, poll, now) is None,
        marked(since, shows_ready(poll), now) is None,
{
}

/// A worker that is not ready is replaced once, and only once, the time for getting ready is over.
pub proof fn law_worker_gets_its_time(since: u64, now: u64)
    requires
        since <= now,
    ensures
        removal(Some(since), WorkerPoll::Running { ready: false }, now) is Some <==> now - since
            >= SIDE_TRANSFER_WORKER_READY_TIMEOUT_MS,
        removal(None, WorkerPoll::Running { ready: false }, now) is None,
        marked(Some(since), false, now) == Some(since),
{
}

proof fn lemma_missing(workers: Seq<SideWorker>, bound: nat, worker_idx: u16)
    requires
        bound <= 65536,
    ensures
        missing_below(workers, bound).contains(worker_idx) <==> worker_idx < bound && !runs(
            workers,
            worker_idx,
        ),
    decreases bound,
{
    if bound > 0 {
        let before = missing_below(workers, (bound - 1) as nat);
        lemma_missing(workers, (bound - 1) as nat, worker_idx);
        if !runs(workers, (bound - 1) as u16) {
            let after = before.push((bound - 1) as u16);
            if before.contains(worker_idx) {
                let i = choose|i: int| 0 <= i < before.len() && before[i] == worker_idx;
                assert(after[i] == worker_idx);
            }
            if worker_idx == (bound - 1) as u16 {
                assert(after[before.len() as int] == worker_idx);
            }
            if after.contains(worker_idx) {
                let i = choose|i: int| 0 <= i < after.len() && after[i] == worker_idx;
                if i < before.len() {
                    assert(before[i] == worker_idx);
                }
            }
        }
    }
}

/// After a look at the workers, each lane has a worker or is to get one, and not both.
pub proof fn law_every_lane_is_served_or_missing(
    workers: Seq<SideWorker>,
    worker_count: u16,
    worker_idx: u16,
)
    requires
        worker_idx < worker_count,
    ensures
        runs(workers, worker_idx) <==> !missing_below(workers, worker_count as nat).contains(
            worker_idx,
        ),
{
    lemma_missing(workers, worker_count as nat, worker_idx);
}

} // verus!
