//! Side workers: those that work stay, those that do not are stopped, and every lane is served.

use crate::config::{ClientConfig, ClientConfigYaml, ProtocolType, SideTransferRole};
use crate::laws::texts;
use crate::side_workers::launch::{self, LauncherProgram, SideTransferWorkerLauncher};
use crate::side_workers::output;
use crate::side_workers::supervise::{
    ReadyFailure, ReadyStep, RemovalReason, SideWorker, WorkerPoll,
};
use crate::side_workers::worker_config;
use crate::text;
use vstd::prelude::*;

verus! {

/// The worker goes on: its process runs, and it is ready, or has not been unready for thirty seconds.
pub open spec fn goes_on(worker: SideWorker, poll: WorkerPoll, now: u64) -> bool {
    poll matches WorkerPoll::Running { ready } && (ready || (worker.1 is None || worker.1->0 > now
        || now - worker.1->0 < 30_000))
}

/// Why a worker is stopped: its process ended or could not be asked, or it was not ready in time.
pub open spec fn stopped_for(poll: WorkerPoll) -> RemovalReason {
    match poll {
        WorkerPoll::Running { .. } => RemovalReason::NotReady,
        WorkerPoll::Exited { status } => RemovalReason::Exited { status },
        WorkerPoll::Failed { error } => RemovalReason::PollFailed { error },
    }
}

/// Since when a worker is not ready: a worker that is ready is not unready at all, and one that is
/// not keeps the time when that was first seen.
pub open spec fn unready_since(worker: SideWorker, poll: WorkerPoll, now: u64) -> Option<u64> {
    if poll matches WorkerPoll::Running { ready } && ready {
        None
    } else if worker.1 is Some {
        worker.1
    } else {
        Some(now)
    }
}

/// The worker is among those that stay, with the time since when it is not ready, or among those that
/// are stopped, for its own reason.
pub open spec fn judged(
    stay: Seq<SideWorker>,
    stopped: Seq<(u16, RemovalReason)>,
    worker: SideWorker,
    poll: WorkerPoll,
    now: u64,
) -> bool {
    if goes_on(worker, poll, now) {
        stay.contains((worker.0, unready_since(worker, poll, now)))
    } else {
        stopped.contains((worker.0, stopped_for(poll)))
    }
}

/// Each worker that goes on stays, each other one is stopped, and no other worker appears.
pub proof fn law_workers_stay_or_are_stopped(
    workers: Seq<SideWorker>,
    polls: Seq<WorkerPoll>,
    now: u64,
)
    requires
        workers.len() == polls.len(),
    ensures
        ({
            let stay = crate::side_workers::supervise::staying(workers, polls, now);
            let stopped = crate::side_workers::supervise::leaving(workers, polls, now);
            &&& stay.len() + stopped.len() == workers.len()
            &&& forall|i: int|
                0 <= i < workers.len() ==> judged(stay, stopped, #[trigger] workers[i], polls[i], now)
        }),
    decreases workers.len(),
{
    if workers.len() > 0 {
        let fewer = workers.drop_last();
        let asked = polls.drop_last();
        law_workers_stay_or_are_stopped(fewer, asked, now);
        let stay = crate::side_workers::supervise::staying(workers, polls, now);
        let stopped = crate::side_workers::supervise::leaving(workers, polls, now);
        let stay_before = crate::side_workers::supervise::staying(fewer, asked, now);
        let stopped_before = crate::side_workers::supervise::leaving(fewer, asked, now);
        assert forall|i: int| 0 <= i < workers.len() implies judged(
            stay,
            stopped,
            #[trigger] workers[i],
            polls[i],
            now,
        ) by {
            let worker = workers[i];
            if i < fewer.len() {
                assert(judged(stay_before, stopped_before, fewer[i], asked[i], now));
                lemma_still_there(stay_before, stay, (worker.0, unready_since(worker, polls[i], now)));
                lemma_still_there(stopped_before, stopped, (worker.0, stopped_for(polls[i])));
            } else if goes_on(worker, polls[i], now) {
                assert(stay.last() == (worker.0, unready_since(worker, polls[i], now)));
            } else {
                assert(stopped.last() == (worker.0, stopped_for(polls[i])));
            }
        }
    }
}

proof fn lemma_still_there<T>(fewer: Seq<T>, more: Seq<T>, entry: T)
    requires
        more =~= fewer || more.len() > 0 && more.drop_last() =~= fewer,
    ensures
        fewer.contains(entry) ==> more.contains(entry),
{
    if fewer.contains(entry) {
        let k = choose|k: int| 0 <= k < fewer.len() && fewer[k] == entry;
        assert(more[k] == entry);
    }
}

/// The lanes that are to be started are those below the number of lanes on which no worker runs, each
/// once and in order.
pub proof fn law_lanes_without_a_worker_are_started(workers: Seq<SideWorker>, worker_count: nat)
    requires
        worker_count <= 65536,
    ensures
        ({
            let missing = crate::side_workers::supervise::missing_below(workers, worker_count);
            &&& forall|lane: u16| #[trigger]
                missing.contains(lane) <==> lane < worker_count && forall|i: int|
                    0 <= i < workers.len() ==> (#[trigger] workers[i]).0 != lane
            &&& forall|j: int, k: int|
                0 <= j < k < missing.len() ==> #[trigger] missing[j] < #[trigger] missing[k]
        }),
    decreases worker_count,
{
    let missing = crate::side_workers::supervise::missing_below(workers, worker_count);
    if worker_count > 0 {
        let n = (worker_count - 1) as nat;
        law_lanes_without_a_worker_are_started(workers, n);
        let before = crate::side_workers::supervise::missing_below(workers, n);
        let lane = n as u16;
        assert(crate::side_workers::supervise::runs(workers, lane) <==> exists|i: int|
            0 <= i < workers.len() && (#[trigger] workers[i]).0 == lane);
        assert forall|k: int| 0 <= k < before.len() implies (#[trigger] before[k]) < n by {
            assert(before.contains(before[k]));
        }
        assert forall|l: u16| #[trigger] missing.contains(l) <==> l < worker_count && forall|i: int|
            0 <= i < workers.len() ==> (#[trigger] workers[i]).0 != l by {
            if before.contains(l) {
                let k = choose|k: int| 0 <= k < before.len() && before[k] == l;
                assert(missing[k] == l);
            }
            if missing.contains(l) && !before.contains(l) {
                let k = choose|k: int| 0 <= k < missing.len() && missing[k] == l;
                if k < before.len() {
                    assert(before[k] == l);
                }
            }
            if l == lane && !crate::side_workers::supervise::runs(workers, lane) {
                assert(missing[before.len() as int] == lane);
            }
        }
    }
}

/// A worker works for its owner: in its cluster, on its memory, under the owner's name with the lane
/// behind it, and on the port of its lane. It gives no memory, and starts no workers of its own.
pub proof fn law_workers_work_for_their_owner(
    owner: ClientConfig,
    lane: u16,
    side: ClientConfig,
)
    requires
        worker_config::is_worker_config(owner, lane, side),
    ensures
        side.cluster_name == owner.cluster_name,
        side.fluxonkv_spec.cluster_name == owner.cluster_name,
        side.share_mem_path == owner.share_mem_path,
        side.large_file_paths.paths@ == owner.large_file_paths.paths@,
        side.instance_key@ == owner.instance_key@ + "__side_"@ + text::decimal(lane as nat),
        side.contribute_to_cluster_pool_size.dram == 0,
        side.contribute_to_cluster_pool_size.vram@ == Map::<u64, u64>::empty(),
        owner.test_spec_config.side_transfer_worker_p2p_port_base is None
            ==> side.fluxonkv_spec.p2p_listen_port is None,
        owner.test_spec_config.side_transfer_worker_p2p_port_base is Some
            ==> side.fluxonkv_spec.p2p_listen_port is Some && side.fluxonkv_spec.p2p_listen_port->0
            == owner.test_spec_config.side_transfer_worker_p2p_port_base->0 + lane,
        side.protocol.protocol_type == ProtocolType::Tcp,
        side.test_spec_config.enable_side_transfer,
        side.test_spec_config.side_transfer_role == Some(SideTransferRole::Worker),
        side.test_spec_config.side_transfer_worker_count == 0,
        side.test_spec_config.side_transfer_worker_p2p_port_base is None,
        side.test_spec_config.disable_local_ipc == owner.test_spec_config.disable_local_ipc,
        side.test_spec_config.disable_crossowner_ipc
            == owner.test_spec_config.disable_crossowner_ipc,
        side.test_spec_config.disable_observability == owner.test_spec_config.disable_observability,
{
}

/// What a worker is told in its file is what it is to be; where the cluster is and what memory there
/// is, it learns from the owner.
pub proof fn law_workers_are_told_what_they_are(side: ClientConfig, yaml: ClientConfigYaml)
    requires
        worker_config::is_worker_yaml(side, yaml),
    ensures
        yaml.instance_key == side.instance_key,
        yaml.fluxonkv_spec.cluster_name == side.cluster_name,
        yaml.fluxonkv_spec.share_mem_path == side.share_mem_path,
        yaml.fluxonkv_spec.p2p_listen_port == side.fluxonkv_spec.p2p_listen_port,
        yaml.protocol == Some(side.protocol),
        yaml.test_spec_config == side.test_spec_config,
        yaml.pprof_duration_seconds == side.pprof_duration_seconds,
        yaml.contribute_to_cluster_pool_size is None,
        yaml.fluxonkv_spec.etcd_addresses is None,
        yaml.fluxonkv_spec.large_file_paths is None,
        yaml.fluxonkv_spec.sub_cluster is None,
{
}

/// A program that the environment names comes before the one that runs, and this project's own
/// before Python.
pub proof fn law_named_programs_come_first(bin_env: bool, python_env: bool, current_exe: Seq<char>)
    ensures
        ({
            let chosen = launch::chosen_launcher(bin_env, python_env, current_exe);
            let own = crate::exe_name::is_fluxon_kv(current_exe);
            let python = crate::exe_name::is_python(current_exe);
            &&& chosen is None <==> !bin_env && !python_env && !own && !python
            &&& chosen matches Some(SideTransferWorkerLauncher::FluxonKvBinary { program })
                ==> (bin_env && program == LauncherProgram::BinEnv) || (!bin_env && !python_env && own
                && program == LauncherProgram::CurrentExe)
            &&& chosen matches Some(SideTransferWorkerLauncher::PythonFluxonPy { program })
                ==> !bin_env && ((python_env && program == LauncherProgram::PythonEnv) || (
            !python_env && !own && program == LauncherProgram::CurrentExe))
        }),
{
}

/// Each newline ends a line, with or without a carriage return before it; what stands behind the last
/// one is a line if it holds anything.
pub proof fn law_newlines_end_lines(raw: Seq<char>, line: Seq<char>)
    requires
        !line.contains('\n'),
    ensures
        ({
            let so_far = raw.push('\n');
            let ended = if line.len() > 0 && line.last() == '\r' {
                line.drop_last()
            } else {
                line
            };
            &&& output::lines((so_far + line).push('\n')) == output::lines(so_far).push(ended)
            &&& line.len() > 0 ==> output::lines(so_far + line) == output::lines(so_far).push(line)
        }),
{
    let so_far = raw.push('\n');
    let more = so_far + line;
    let none = Seq::<char>::empty();
    texts::lemma_parts_after_separator(raw, none, '\n');
    assert(so_far + none =~= so_far);
    texts::lemma_parts_after_separator(raw, line, '\n');
    texts::lemma_parts_after_separator(more, none, '\n');
    assert(more.push('\n') + none =~= more.push('\n'));
    let of_raw = text::parts(raw, '\n');
    assert(text::parts(so_far, '\n').drop_last() =~= of_raw);
    assert(text::parts(more, '\n').drop_last() =~= of_raw);
    assert(text::parts(more.push('\n'), '\n').drop_last() =~= of_raw.push(line));
    assert(output::lines(more.push('\n')) =~= output::lines(so_far).push(
        output::without_return(line),
    ));
}

/// The first line of an output ends with the first newline.
pub proof fn law_first_newline_ends_the_first_line(line: Seq<char>)
    requires
        !line.contains('\n'),
        line.len() == 0 || line.last() != '\r',
    ensures
        output::lines(line.push('\n')) == seq![line],
        output::lines(line) == if line.len() == 0 {
            Seq::empty()
        } else {
            seq![line]
        },
{
    texts::lemma_one_part(line, '\n');
    let none = Seq::<char>::empty();
    texts::lemma_parts_after_separator(line, none, '\n');
    assert(line.push('\n') + none =~= line.push('\n'));
    assert(text::parts(line.push('\n'), '\n').drop_last() =~= seq![line]);
    assert(output::lines(line.push('\n')) =~= seq![line]);
    assert(text::parts(line, '\n').drop_last() =~= Seq::empty());
    if line.len() == 0 {
        assert(output::lines(line) =~= Seq::empty());
    } else {
        assert(output::lines(line) =~= seq![line]);
    }
}

proof fn lemma_joined_lines(lines: Seq<Seq<char>>)
    requires
        lines.len() > 0,
        forall|i: int| 0 <= i < lines.len() ==> !(#[trigger] lines[i]).contains('\n'),
    ensures
        text::parts(output::joined(lines), '\n') == lines,
    decreases lines.len(),
{
    assert(!lines[lines.len() - 1].contains('\n'));
    if lines.len() == 1 {
        texts::lemma_one_part(lines[0], '\n');
        assert(lines =~= seq![lines[0]]);
    } else {
        let fewer = lines.drop_last();
        lemma_joined_lines(fewer);
        texts::lemma_parts_after_separator(output::joined(fewer), lines.last(), '\n');
        assert(output::joined(lines) =~= output::joined(fewer).push('\n') + lines.last());
        assert(fewer.push(lines.last()) =~= lines);
    }
}

/// Of an output that is not blank the last forty lines are shown, or all of it where it has no more.
pub proof fn law_last_forty_lines_are_shown(raw: Seq<char>)
    ensures
        output::output_tail(raw) is None <==> text::blank(raw),
        output::output_tail(raw) matches Some(tail) ==> if output::lines(raw).len() <= 40 {
            tail == raw
        } else {
            text::parts(tail, '\n') == output::lines(raw).skip(output::lines(raw).len() - 40)
        },
{
    let lines = output::lines(raw);
    if lines.len() > 40 {
        let split = text::parts(raw, '\n');
        texts::law_parts_make_up_the_text(raw, '\n');
        let last = lines.skip(lines.len() - 40);
        assert forall|i: int| 0 <= i < lines.len() implies !(#[trigger] lines[i]).contains('\n') by {
            assert(!split[i].contains('\n'));
            if lines[i].contains('\n') {
                let k = choose|k: int| 0 <= k < lines[i].len() && lines[i][k] == '\n';
                assert(split[i][k] == '\n');
            }
        }
        assert forall|i: int| 0 <= i < last.len() implies !(#[trigger] last[i]).contains('\n') by {
            assert(last[i] == lines[lines.len() - 40 + i]);
        }
        lemma_joined_lines(last);
    }
}

/// A lane has a port as long as the port of the first lane and the lane together are one.
pub proof fn law_lanes_have_ports_of_their_own(port_base: u16, lane: u16)
    ensures
        worker_config::worker_port_fits(None, lane),
        worker_config::worker_port_fits(Some(port_base), lane) <==> port_base + lane <= 65535,
{
}

/// The workers that are ready are those whose process runs and that say so.
pub proof fn law_ready_workers_are_counted(polls: Seq<WorkerPoll>)
    ensures
        crate::side_workers::supervise::count_ready(polls) == polls.filter(
            |poll: WorkerPoll| poll matches WorkerPoll::Running { ready } && ready,
        ).len(),
    decreases polls.len(),
{
    reveal(Seq::filter);
    if polls.len() > 0 {
        law_ready_workers_are_counted(polls.drop_last());
    }
}

/// Where a worker was seen its lane stays, and the time since when it is not ready is kept; where it
/// was not seen yet nothing changes.
pub proof fn law_seen_workers_keep_their_lanes(
    before: Seq<SideWorker>,
    polls: Seq<WorkerPoll>,
    now: u64,
    n: int,
    after: Seq<SideWorker>,
    i: int,
)
    requires
        crate::side_workers::supervise::seen(before, polls, now, n, after),
        0 <= i < before.len(),
    ensures
        after.len() == before.len(),
        after[i].0 == before[i].0,
        i >= n ==> after[i].1 == before[i].1,
        i < n ==> after[i].1 == unready_since(before[i], polls[i], now),
{
}

/// Workers that were started are ready once all of them run and say so. One that ended, or could not be
/// asked, fails the start, and it is the first such worker that is named; otherwise the start fails
/// after thirty seconds, and is looked at again until then.
pub proof fn law_started_workers_are_waited_for(
    before: Seq<SideWorker>,
    after: Seq<SideWorker>,
    polls: Seq<WorkerPoll>,
    elapsed_ms: u64,
    now: u64,
    step: ReadyStep,
)
    requires
        crate::side_workers::supervise::start_judged(before, after, polls, elapsed_ms, now, step),
        before.len() == polls.len(),
    ensures
        ({
            let all_run = forall|i: int| 0 <= i < polls.len() ==> (#[trigger] polls[i]) is Running;
            let all_ready = polls.filter(
                |poll: WorkerPoll| poll matches WorkerPoll::Running { ready } && ready,
            ).len() == polls.len();
            &&& step is Ready <==> all_run && all_ready
            &&& step is Sleep <==> all_run && !all_ready && elapsed_ms < 30_000
            &&& step matches ReadyStep::Failed(failure) ==> match failure {
                ReadyFailure::TimedOut { expected, .. } => all_run && elapsed_ms >= 30_000,
                ReadyFailure::Exited { worker_idx, status } => exists|n: int|
                    0 <= n < polls.len() && #[trigger] polls[n] == (WorkerPoll::Exited { status })
                        && worker_idx == before[n].0 && forall|i: int|
                        0 <= i < n ==> (#[trigger] polls[i]) is Running,
                ReadyFailure::PollFailed { error } => exists|n: int|
                    0 <= n < polls.len() && #[trigger] polls[n] == (WorkerPoll::Failed { error })
                        && forall|i: int| 0 <= i < n ==> (#[trigger] polls[i]) is Running,
            }
        }),
        after.len() == before.len(),
        forall|i: int| 0 <= i < before.len() ==> (#[trigger] after[i]).0 == before[i].0,
{
    law_ready_workers_are_counted(polls);
    assert forall|i: int| 0 <= i < polls.len() implies (
    crate::side_workers::supervise::shows_running(#[trigger] polls[i]) <==> polls[i] is Running) by {}
    if !(forall|i: int|
        0 <= i < polls.len() ==> crate::side_workers::supervise::shows_running(
            #[trigger] polls[i],
        )) {
        let n = choose|n: int|
            {
                &&& 0 <= n < polls.len()
                &&& !crate::side_workers::supervise::shows_running(#[trigger] polls[n])
                &&& forall|i: int|
                    0 <= i < n ==> crate::side_workers::supervise::shows_running(
                        #[trigger] polls[i],
                    )
                &&& crate::side_workers::supervise::seen(before, polls, now, n, after)
                &&& match polls[n] {
                    WorkerPoll::Exited { status } => step == ReadyStep::Failed(
                        ReadyFailure::Exited { worker_idx: before[n].0, status },
                    ),
                    WorkerPoll::Failed { error } => step == ReadyStep::Failed(
                        ReadyFailure::PollFailed { error },
                    ),
                    WorkerPoll::Running { .. } => true,
                }
            };
        assert(!(polls[n] is Running));
        assert forall|i: int| 0 <= i < n implies (#[trigger] polls[i]) is Running by {
            assert(crate::side_workers::supervise::shows_running(polls[i]));
        }
    }
}

} // verus!
