use fluxon_kv::cluster_manager::{ClusterMember, Metadata, NodeRole};
use fluxon_kv::error::{KvErrorOf, P2PError, P2PErrorOf};
use fluxon_kv::external_client_api::side_transfer::{
    pick_side_transfer_peer, put_start_target, put_transfer_end_target, settle_call,
    should_fallback_side_p2p_error, stable_side_transfer_lane_for_put, CallOutcome, CallTarget,
    SideTransferBindings, SideTransferPeer, SideTransferPeerFileMeta,
};
use fluxon_kv::external_client_api::trace::{
    duration_to_i64_us, percentile_nearest_rank_us, summarize_external_put_trace_window,
    ExternalPutTraceLogWindow, PutPhase, TestPutPhaseTrace,
};
use fluxon_kv::master_kv_router::put::{
    META_KEY_SHARED_STORAGE_NODE_ID, META_KEY_SHARED_STORAGE_NODE_START_TIME,
};

fn peer(side_id: &str, lane: Option<u16>) -> SideTransferPeer {
    let mut metadata = Metadata::new();
    metadata.insert("side_transfer_worker".to_string(), "true".to_string());
    metadata.insert(META_KEY_SHARED_STORAGE_NODE_ID.to_string(), "o".to_string());
    metadata.insert(
        META_KEY_SHARED_STORAGE_NODE_START_TIME.to_string(),
        "7".to_string(),
    );
    SideTransferPeer {
        meta: SideTransferPeerFileMeta {
            owner_id: "o".to_string(),
            owner_start_time: 7,
            side_id: side_id.to_string(),
            worker_idx: lane,
        },
        member: Some(ClusterMember {
            id: side_id.to_string(),
            node_start_time: 1,
            role: NodeRole::Client,
            metadata,
            sub_cluster: None,
        }),
    }
}

#[test]
fn a_put_has_one_lane() {
    assert_eq!(stable_side_transfer_lane_for_put((12, 3), 0), None);
    assert_eq!(stable_side_transfer_lane_for_put((12, 3), 4), Some((12 ^ 3) % 4));
    assert_eq!(stable_side_transfer_lane_for_put((12, 3), 5), Some(0));
    assert_eq!(
        stable_side_transfer_lane_for_put((1_700_000_000_123, 9), 7),
        Some(((1_700_000_000_123u64 ^ 9) % 7) as u16)
    );
}

#[test]
fn calls_without_a_put_go_round() {
    let peers = vec![peer("s2", Some(2)), peer("s0", Some(0)), peer("s1", Some(1))];
    let mut next = 0usize;
    let mut picked = Vec::new();
    for _ in 0..4 {
        picked.push(pick_side_transfer_peer(&peers, "o", 7, None, &mut next).expect("a worker"));
    }
    let names: Vec<(&str, u16)> = picked.iter().map(|(s, l)| (s.as_str(), *l)).collect();
    assert_eq!(names, vec![("s0", 0), ("s1", 1), ("s2", 2), ("s0", 0)]);
    assert_eq!(next, 4);
    let mut last = usize::MAX;
    pick_side_transfer_peer(&peers, "o", 7, None, &mut last);
    assert_eq!(last, 0);
}

#[test]
fn a_put_goes_to_the_worker_on_its_lane() {
    let peers = vec![peer("b", Some(2)), peer("a", Some(2)), peer("s0", Some(0))];
    let mut next = 0usize;
    // Lanes 0 to 2; (2, 0) is on lane 2, where `a` comes first.
    assert_eq!(
        pick_side_transfer_peer(&peers, "o", 7, Some((2, 0)), &mut next),
        Some(("a".to_string(), 2))
    );
    // Lane 1 has no worker.
    assert_eq!(
        pick_side_transfer_peer(&peers, "o", 7, Some((1, 0)), &mut next),
        None
    );
    assert_eq!(next, 0);
}

#[test]
fn only_workers_of_this_owner_generation_serve() {
    let mut next = 0usize;
    let pick = |p: SideTransferPeer, next: &mut usize| {
        pick_side_transfer_peer(&vec![p], "o", 7, None, next)
    };
    assert!(pick(peer("s", Some(0)), &mut next).is_some());
    assert!(pick(peer("s", None), &mut next).is_none());
    let mut other = peer("s", Some(0));
    other.meta.owner_id = "p".to_string();
    assert!(pick(other, &mut next).is_none());
    let mut other = peer("s", Some(0));
    other.meta.owner_start_time = 8;
    assert!(pick(other, &mut next).is_none());
    let mut other = peer("s", Some(0));
    other.member = None;
    assert!(pick(other, &mut next).is_none());
    for (key, value) in [
        ("side_transfer_worker", "false"),
        (META_KEY_SHARED_STORAGE_NODE_ID, "p"),
        (META_KEY_SHARED_STORAGE_NODE_START_TIME, "seven"),
        (META_KEY_SHARED_STORAGE_NODE_START_TIME, "8"),
    ] {
        let mut other = peer("s", Some(0));
        if let Some(member) = other.member.as_mut() {
            member.metadata.insert(key.to_string(), value.to_string());
        }
        assert!(pick(other, &mut next).is_none(), "{} {}", key, value);
    }
    assert_eq!(next, 1);
}

#[test]
fn a_put_stays_bound_to_the_worker_that_started_it() {
    let mut bindings = SideTransferBindings::new();
    bindings.remember_side_transfer_binding(Some((1, 0)), Some(("s".to_string(), 3)));
    bindings.remember_side_transfer_binding(None, Some(("s".to_string(), 3)));
    bindings.remember_side_transfer_binding(Some((2, 0)), None);
    assert_eq!(
        bindings.bound_side_transfer_peer(Some((1, 0))),
        Some(("s".to_string(), 3))
    );
    assert_eq!(bindings.bound_side_transfer_peer(Some((2, 0))), None);
    assert_eq!(bindings.bound_side_transfer_peer(None), None);
    bindings.remember_side_transfer_binding(Some((1, 0)), Some(("t".to_string(), 4)));
    assert_eq!(
        bindings.bound_side_transfer_peer(Some((1, 0))),
        Some(("t".to_string(), 4))
    );
    bindings.clear_side_transfer_binding(None);
    bindings.clear_side_transfer_binding(Some((1, 0)));
    assert_eq!(bindings.bound_side_transfer_peer(Some((1, 0))), None);
}

fn unreachable_error() -> P2PError {
    P2PErrorOf::StartServerError {
        detail: "x".to_string(),
    }
}

#[test]
fn an_unreachable_worker_is_replaced_by_the_owner() {
    assert!(should_fallback_side_p2p_error(&unreachable_error()));
    assert!(!should_fallback_side_p2p_error(&P2PErrorOf::Other {
        detail: "x".to_string()
    }));
    let side = || CallTarget::Side {
        side_id: "s".to_string(),
        lane_idx: 1,
    };
    assert!(matches!(
        settle_call::<u8>(side(), Err(unreachable_error())),
        CallOutcome::Fallback
    ));
    assert!(matches!(
        settle_call::<u8>(CallTarget::Owner, Err(unreachable_error())),
        CallOutcome::Failed(KvErrorOf::P2p(P2PErrorOf::StartServerError { .. }))
    ));
    assert!(matches!(
        settle_call::<u8>(
            side(),
            Err(P2PErrorOf::Other {
                detail: "x".to_string()
            })
        ),
        CallOutcome::Failed(KvErrorOf::P2p(P2PErrorOf::Other { .. }))
    ));
    match settle_call(side(), Ok(5u8)) {
        CallOutcome::Answered { resp, side } => {
            assert_eq!(resp, 5);
            assert_eq!(side, Some(("s".to_string(), 1)));
        }
        _ => panic!("the worker answered"),
    }
}

#[test]
fn calls_name_their_targets() {
    assert!(matches!(put_start_target(None), CallTarget::Owner));
    assert!(matches!(
        put_start_target(Some(("s".to_string(), 1))),
        CallTarget::Side { lane_idx: 1, .. }
    ));
    let tried = Some(("s".to_string(), 1));
    assert!(matches!(
        put_transfer_end_target(&tried, Some(("s".to_string(), 1))),
        CallTarget::Owner
    ));
    assert!(matches!(
        put_transfer_end_target(&tried, Some(("s".to_string(), 2))),
        CallTarget::Side { lane_idx: 2, .. }
    ));
    assert!(matches!(
        put_transfer_end_target(&None, Some(("s".to_string(), 1))),
        CallTarget::Side { lane_idx: 1, .. }
    ));
    assert!(matches!(
        put_transfer_end_target(&tried, None),
        CallTarget::Owner
    ));
}

fn sample(total: i64, write: i64) -> TestPutPhaseTrace {
    TestPutPhaseTrace {
        external_total_us: total,
        external_put_start_rpc_us: 0,
        external_write_payload_us: write,
        external_put_transfer_end_rpc_us: 0,
        owner_external_put_start_total_us: 0,
        owner_put_start_total_us: 0,
        owner_master_put_start_rpc_us: 0,
        owner_master_put_start_server_us: 0,
        owner_external_put_transfer_end_total_us: 0,
        owner_put_transfer_total_us: 0,
        owner_put_end_total_us: 0,
        owner_master_put_end_rpc_us: 0,
        owner_master_put_end_server_us: 0,
    }
}

#[test]
fn timings_are_taken_once_the_window_is_over() {
    let mut window = ExternalPutTraceLogWindow::new();
    assert!(window.push_and_maybe_take(&sample(1, 0), 5).is_none());
    assert!(window.push_and_maybe_take(&sample(2, 0), 10_000_004).is_none());
    let (elapsed, samples) = window
        .push_and_maybe_take(&sample(3, 0), 10_000_005)
        .expect("over");
    assert_eq!(elapsed, 10_000_000);
    assert_eq!(samples.len(), 3);
    assert!(window.push_and_maybe_take(&sample(4, 0), 10_000_006).is_none());
    assert_eq!(window.samples.len(), 1);
}

#[test]
fn timings_are_summed_up_by_phase() {
    let samples: Vec<TestPutPhaseTrace> =
        (1..=20).map(|i| sample(i * 10, if i == 7 { 9 } else { 0 })).collect();
    let summary = summarize_external_put_trace_window(&samples);
    assert_eq!(summary.len(), 2);
    assert_eq!(summary[0].phase, PutPhase::ExternalTotal);
    assert_eq!((summary[0].count, summary[0].sum, summary[0].p95), (20, 2100, 190));
    assert_eq!(summary[1].phase.name(), "external_write_payload");
    assert_eq!((summary[1].count, summary[1].sum, summary[1].p95), (1, 9, 9));
    assert!(summarize_external_put_trace_window(&vec![]).is_empty());
}

#[test]
fn percentiles_are_nearest_ranks() {
    let values = vec![10, 20, 30, 40];
    assert_eq!(percentile_nearest_rank_us(&values, 0), 10);
    assert_eq!(percentile_nearest_rank_us(&values, 25), 10);
    assert_eq!(percentile_nearest_rank_us(&values, 26), 20);
    assert_eq!(percentile_nearest_rank_us(&values, 95), 40);
    assert_eq!(percentile_nearest_rank_us(&values, 100), 40);
    assert_eq!(duration_to_i64_us(5), 5);
    assert_eq!(duration_to_i64_us(u128::MAX), i64::MAX);
}
