use fluxon_kv::external_client_api::side_transfer::SideTransferPeerFileMeta;
use fluxon_kv::side_workers::launch::{
    resolve_side_transfer_worker_launcher, LauncherProgram, SideTransferWorkerLauncher,
};
use fluxon_kv::side_workers::output::{
    format_side_transfer_worker_output_tails, side_transfer_worker_output_tail,
};
use fluxon_kv::side_workers::supervise::{
    is_side_transfer_worker_ready, ReadyFailure, ReadyStep, RemovalReason, SideWorkers, WorkerPoll,
};

fn running(ready: bool) -> WorkerPoll {
    WorkerPoll::Running { ready }
}

fn three_workers(now: u64) -> SideWorkers {
    let mut workers = SideWorkers::new();
    for idx in [2u16, 0, 1] {
        assert!(workers.insert_started(idx, now));
    }
    workers
}

#[test]
fn workers_are_kept_in_order_and_once() {
    let mut workers = three_workers(5);
    assert!(!workers.insert_started(1, 9));
    assert_eq!(
        workers.workers,
        vec![(0, Some(5)), (1, Some(5)), (2, Some(5))]
    );
}

#[test]
fn the_owner_starts_once_all_workers_are_ready() {
    let mut workers = three_workers(0);
    assert!(matches!(
        workers.on_start_poll(&vec![running(true), running(false), running(true)], 100, 100),
        ReadyStep::Sleep
    ));
    assert_eq!(workers.workers, vec![(0, None), (1, Some(0)), (2, None)]);
    assert!(matches!(
        workers.on_start_poll(&vec![running(true), running(true), running(true)], 200, 200),
        ReadyStep::Ready
    ));
}

#[test]
fn a_worker_that_ends_fails_the_start() {
    let mut workers = three_workers(0);
    match workers.on_start_poll(
        &vec![
            running(true),
            WorkerPoll::Exited {
                status: "exit status: 1".to_string(),
            },
            running(true),
        ],
        0,
        0,
    ) {
        ReadyStep::Failed(ReadyFailure::Exited { worker_idx, status }) => {
            assert_eq!(
                ReadyFailure::exited_message(worker_idx, &status, "/run/side_worker_1.yaml", "out"),
                "side-transfer worker 1 exited before ready: status=exit status: 1, config=/run/side_worker_1.yaml\nout"
            )
        }
        _ => panic!("the start has failed"),
    }
    match workers.on_start_poll(
        &vec![running(true), running(false), running(false)],
        30_000,
        30_000,
    ) {
        ReadyStep::Failed(ReadyFailure::TimedOut { ready, expected }) => assert_eq!(
            ReadyFailure::timed_out_message(ready, expected),
            "Timed out waiting for side-transfer workers to publish readiness: ready=1/3, timeout=30s"
        ),
        _ => panic!("the time is over"),
    }
    assert!(matches!(
        workers.on_start_poll(
            &vec![
                WorkerPoll::Failed {
                    error: "gone".to_string()
                },
                running(true),
                running(true)
            ],
            0,
            0
        ),
        ReadyStep::Failed(ReadyFailure::PollFailed { .. })
    ));
}

#[test]
fn lost_workers_are_replaced() {
    let mut workers = three_workers(0);
    let outcome = workers.reconcile(
        &vec![
            running(true),
            WorkerPoll::Exited {
                status: "signal: 9".to_string(),
            },
            running(false),
        ],
        10_000,
        4,
    );
    assert_eq!(outcome.removed.len(), 1);
    assert_eq!(outcome.removed[0].0, 1);
    assert_eq!(
        outcome.removed[0].1.message(),
        "exited unexpectedly with status signal: 9"
    );
    assert_eq!(outcome.missing, vec![1, 3]);
    assert_eq!(workers.workers, vec![(0, None), (2, Some(0))]);
    assert!(workers.insert_started(1, 10_000));
    assert!(workers.insert_started(3, 10_000));
    let outcome = workers.reconcile(
        &vec![running(true), running(true), running(false), running(true)],
        29_999,
        4,
    );
    assert!(outcome.removed.is_empty() && outcome.missing.is_empty());
    let outcome = workers.reconcile(
        &vec![running(true), running(false), running(false), running(true)],
        30_000,
        4,
    );
    assert!(matches!(outcome.removed[0], (2, RemovalReason::NotReady)));
    assert_eq!(outcome.removed[0].1.message(), "not ready for >= 30s");
    assert_eq!(outcome.missing, vec![2]);
    assert_eq!(workers.workers, vec![(0, None), (1, Some(30_000)), (3, None)]);
    let outcome = workers.reconcile(
        &vec![
            WorkerPoll::Failed {
                error: "denied".to_string(),
            },
            running(true),
            running(true),
        ],
        30_001,
        1,
    );
    assert_eq!(
        outcome.removed[0].1.message(),
        "status poll failed: denied"
    );
    assert_eq!(outcome.missing, vec![0]);
}

#[test]
fn a_peer_file_of_this_owner_generation_shows_readiness() {
    let meta = SideTransferPeerFileMeta {
        owner_id: "o".to_string(),
        owner_start_time: 7,
        side_id: "s".to_string(),
        worker_idx: Some(0),
    };
    assert!(is_side_transfer_worker_ready(Some(&meta), "o", 7));
    assert!(!is_side_transfer_worker_ready(Some(&meta), "o", 8));
    assert!(!is_side_transfer_worker_ready(Some(&meta), "p", 7));
    assert!(!is_side_transfer_worker_ready(None, "o", 7));
}

#[test]
fn the_launcher_follows_the_environment_then_the_program() {
    let resolve = resolve_side_transfer_worker_launcher;
    assert_eq!(
        resolve(true, true, "/usr/bin/python3"),
        Ok(SideTransferWorkerLauncher::FluxonKvBinary {
            program: LauncherProgram::BinEnv
        })
    );
    assert_eq!(
        resolve(false, true, "/a/fluxon_kv"),
        Ok(SideTransferWorkerLauncher::PythonFluxonPy {
            program: LauncherProgram::PythonEnv
        })
    );
    let binary = resolve(false, false, "/a/fluxon_kv").expect("this program");
    assert_eq!(binary.args(), vec!["client", "-f"]);
    assert!(!binary.runs_in_parent_dir(true, Some(true)));
    let python = resolve(false, false, "/usr/bin/python3.11").expect("python");
    assert_eq!(python.args(), vec!["-m", "fluxon_py", "--server", "--config"]);
    assert!(python.runs_in_parent_dir(true, Some(true)));
    assert!(!python.runs_in_parent_dir(true, None));
    assert!(!python.runs_in_parent_dir(false, Some(true)));
    assert_eq!(
        resolve(false, false, "/bin/sh").err().expect("neither"),
        "Unable to resolve side-transfer worker launcher from current executable '/bin/sh'; set FLUXON_KV_SIDE_WORKER_BIN or FLUXON_KV_SIDE_WORKER_PYTHON explicitly"
    );
}

fn tail_by_std(raw: &str) -> Option<String> {
    if raw.trim().is_empty() {
        return None;
    }
    let lines: Vec<&str> = raw.lines().collect();
    Some(if lines.len() > 40 {
        lines[lines.len() - 40..].join("\n")
    } else {
        raw.to_string()
    })
}

#[test]
fn the_last_forty_lines_are_shown() {
    let long: String = (0..45).map(|i| format!("line {}\r\n", i)).collect();
    let tail = side_transfer_worker_output_tail(long.clone()).expect("output");
    assert!(tail.starts_with("line 5\nline 6\n"));
    assert!(tail.ends_with("\nline 44"));
    let exact: String = (0..40).map(|i| format!("{}\n", i)).collect();
    let open_end: String = (0..41).map(|i| format!("\n{}\r", i)).collect();
    for raw in [long.as_str(), exact.as_str(), open_end.as_str(), "", " \n", "x"] {
        assert_eq!(
            side_transfer_worker_output_tail(raw.to_string()),
            tail_by_std(raw),
            "{:?}",
            raw
        );
    }
}

#[test]
fn both_outputs_are_shown() {
    assert_eq!(
        format_side_transfer_worker_output_tails(
            "/l/out",
            Some("hello\n".to_string()),
            "/l/err",
            None
        ),
        "stdout_log=/l/out\n--- stdout tail ---\nhello\n\n--- end stdout tail ---\nstderr_log=/l/err (empty)"
    );
}
