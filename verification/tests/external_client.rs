use fluxon_kv::cluster_manager::{ClusterMember, Metadata, NodeRole};
use fluxon_kv::config::LargeFilePaths;
use fluxon_kv::error::{ApiErrorOf, KvError, KvErrorOf, P2PErrorOf, SharedMemErrorOf};
use fluxon_kv::external_client_api::owner::{
    mmap_file_path, probe_owner_restart_payload, read_shared_json_snapshot, shared_meta_path,
    ExternalInner, OwnerProbeExpectation, OwnerProbeInput, OwnerRestartPayload, OwnerRestartProbe,
    RecoverStep, SharedJsonMeta, SharedJsonRead, SharedMemoryPtr, SharedMetaSignature,
};
use fluxon_kv::external_client_api::put::{
    external_get_request, held_value, external_put_start_request, ExternalGetInfo, ExternalPutStartOk,
    PutOptions,
};
use fluxon_kv::external_client_api::retry::{
    delete_ack_result, RetryDecision, RetryState, SendReadyStep, SendReadyWait,
};
use fluxon_kv::external_client_api::sync_file::{
    check_sync_key, held_or_not_found, sync_kv_bytes_field_range, write_all_at_step,
    FlatKvValueRange, WriteFault,
};
use fluxon_kv::external_client_api::ExternalClientApiNewArg;

fn signature(modified_ns: u64) -> SharedMetaSignature {
    SharedMetaSignature {
        modified_ns,
        len: 10,
        inode: 3,
    }
}

fn meta() -> SharedJsonMeta {
    SharedJsonMeta {
        protocol_version: "v1".to_string(),
        cluster_name: "c".to_string(),
        owner_id: "o".to_string(),
        node_start_time: 7,
        segment_len: 4096,
        segment_label: None,
        sub_cluster: None,
        etcd_addresses: vec![],
        share_mem_path: "/shm".to_string(),
        large_file_paths: LargeFilePaths { paths: vec![] },
        write_ts: Some(50),
    }
}

fn owner_member(start: i64) -> ClusterMember {
    ClusterMember {
        id: "o".to_string(),
        node_start_time: start,
        role: NodeRole::Client,
        metadata: Metadata::new(),
        sub_cluster: None,
    }
}

fn expectation<'a>() -> OwnerProbeExpectation<'a> {
    OwnerProbeExpectation {
        shared_memory_path: "/shm",
        shared_file_path: "/files",
        current_signature: None,
        wait_start_ts: i64::MIN,
        old_owner_id: None,
        expected_cluster_name: "c",
        expected_protocol_version: "v1",
    }
}

fn input(meta: SharedJsonMeta) -> OwnerProbeInput {
    OwnerProbeInput {
        mmap_file_ready: true,
        shared_json_ready: true,
        read: SharedJsonRead::Read {
            before: signature(1),
            meta,
            after: signature(1),
        },
        owner_member: Some(owner_member(7)),
    }
}

fn pending(expected: &OwnerProbeExpectation<'_>, input: OwnerProbeInput) -> String {
    match probe_owner_restart_payload(expected, input) {
        Ok(OwnerRestartProbe::Pending(reason)) => reason,
        Ok(OwnerRestartProbe::Ready(_)) => panic!("the owner is not ready"),
        Err(err) => panic!("unexpected: {:?}", err),
    }
}

#[test]
fn an_owner_is_ready_once_all_agree() {
    match probe_owner_restart_payload(&expectation(), input(meta())) {
        Ok(OwnerRestartProbe::Ready(payload)) => {
            assert_eq!(payload.meta.owner_id, "o");
            assert_eq!(payload.signature, signature(1));
        }
        _ => panic!("the owner is ready"),
    }
}

#[test]
fn every_doubt_about_an_owner_is_named() {
    let expected = expectation();
    let mut probe = input(meta());
    probe.mmap_file_ready = false;
    assert_eq!(
        pending(&expected, probe),
        "shared memory mmap.file not ready yet: path=/shm"
    );
    let mut probe = input(meta());
    probe.shared_json_ready = false;
    assert_eq!(
        pending(&expected, probe),
        "shared metadata shared.json not ready yet: path=/files"
    );
    let mut probe = input(meta());
    probe.read = SharedJsonRead::Failed {
        error: "bad".to_string(),
    };
    assert_eq!(
        pending(&expected, probe),
        "shared.json not ready or invalid yet: path=/files/shared.json err=bad"
    );
    let mut probe = input(meta());
    probe.read = SharedJsonRead::Read {
        before: signature(1),
        meta: meta(),
        after: signature(2),
    };
    assert_eq!(
        pending(&expected, probe),
        "shared.json changed while being read; retrying: path=/files/shared.json"
    );
    let mut other = meta();
    other.protocol_version = "v2".to_string();
    assert_eq!(
        pending(&expected, input(other)),
        "shared.json protocol_version mismatch; waiting: shm_dir='/shm' shared='v2' local='v1'"
    );
    let mut other = meta();
    other.cluster_name = "d".to_string();
    assert_eq!(
        pending(&expected, input(other)),
        "shared.json cluster_name mismatch; waiting: shm_dir='/shm' shared='d' local='c'"
    );
    let mut late = expectation();
    late.wait_start_ts = 50;
    assert_eq!(
        pending(&late, input(meta())),
        "shared.json write_ts is not newer yet: path=/files/shared.json write_ts=50 wait_start_ts=50"
    );
    let mut probe = input(meta());
    probe.owner_member = None;
    assert_eq!(
        pending(&expected, probe),
        "shared.json observed but owner member is not in cache yet: owner_id=o shared_start_time=7"
    );
    let mut probe = input(meta());
    probe.owner_member = Some(owner_member(8));
    assert_eq!(
        pending(&expected, probe),
        "owner generation mismatch: owner_id=o cluster_start_time=8 shared_start_time=7"
    );
    let mut same = expectation();
    same.current_signature = Some(signature(1));
    assert_eq!(
        pending(&same, input(meta())),
        "shared.json unchanged after cluster convergence: owner_id=o start_time=7 path=/files/shared.json"
    );
}

#[test]
fn another_owner_is_an_error() {
    let mut expected = expectation();
    expected.old_owner_id = Some("p");
    match probe_owner_restart_payload(&expected, input(meta())) {
        Err(KvErrorOf::Api(ApiErrorOf::Unknown { detail })) => assert_eq!(
            detail,
            "shared.json owner_id changed unexpectedly: old_owner_id=p new_owner_id=o"
        ),
        _ => panic!("the owner's id may not change"),
    }
}

#[test]
fn a_snapshot_counts_only_if_the_file_did_not_change() {
    assert!(read_shared_json_snapshot(signature(1), meta(), signature(2)).is_none());
    assert!(read_shared_json_snapshot(signature(2), meta(), signature(2)).is_some());
    assert_eq!(shared_meta_path("/a"), "/a/shared.json");
    assert_eq!(mmap_file_path("/b"), "/b/mmap.file");
}

fn attached(start: i64) -> ExternalInner {
    let mut inner = ExternalInner::construct(ExternalClientApiNewArg {
        shared_memory_path: "/shm".to_string(),
        shared_file_path: "/files".to_string(),
        expected_cluster_name: "c".to_string(),
        expected_protocol_version: "v1".to_string(),
        enable_side_transfer: true,
        short_circuit_put_payload_path: false,
    });
    attach(&mut inner, start, 1);
    inner
}

fn attach(inner: &mut ExternalInner, start: i64, modified: u64) {
    let mut described = meta();
    described.node_start_time = start;
    inner.remap_shared_memory_with_payload(
        SharedMemoryPtr {
            ptr_rw: 0x1000 * start as u64,
            ptr_ro: 0x9000,
            len: 4096,
            memory_signature: signature(modified),
        },
        &OwnerRestartPayload {
            meta: described,
            signature: signature(modified),
        },
    );
}

#[test]
fn without_an_owner_there_is_no_memory() {
    let inner = ExternalInner::construct(ExternalClientApiNewArg {
        shared_memory_path: "/shm".to_string(),
        shared_file_path: "/files".to_string(),
        expected_cluster_name: "c".to_string(),
        expected_protocol_version: "v1".to_string(),
        enable_side_transfer: false,
        short_circuit_put_payload_path: true,
    });
    assert!(inner.short_circuit_put_payload_path);
    assert_eq!(inner.current_owner_start_time(), 0);
    assert_eq!(inner.shared_storage_node_id(), None);
    assert!(matches!(
        inner.base_ptr(),
        Err(KvErrorOf::SharedMem(SharedMemErrorOf::NotConfigured { node_id: None, detail: Some(ref d) }))
            if d == "Shared memory not ready"
    ));
    assert!(inner.base_ptr_ro().is_err());
    assert!(matches!(
        inner.owner_to_call(),
        Err(KvErrorOf::SharedMem(SharedMemErrorOf::NotConfigured { node_id: None, detail: Some(ref d) }))
            if d == "Shared storage node id unavailable"
    ));
    assert!(matches!(inner.ensure_owner_ready(0), RecoverStep::Wait));
}

#[test]
fn recovery_waits_for_another_generation() {
    let mut inner = attached(7);
    assert!(matches!(inner.base_ptr(), Ok(0x7000)));
    assert!(inner.owner_present(&Some(owner_member(7))));
    assert!(!inner.owner_present(&Some(owner_member(8))));
    // The cluster shows the same generation: the memory stays in use.
    assert!(matches!(
        inner.recover_after_p2p_error(&Some(owner_member(7)), 7),
        RecoverStep::Ready {
            owner_start_time: 7,
            base_addr: 0x7000
        }
    ));
    // The cluster shows another one: it is waited for.
    assert!(matches!(
        inner.recover_after_p2p_error(&Some(owner_member(8)), 7),
        RecoverStep::Wait
    ));
    assert!(matches!(inner.wait_owner_recover(7, true), RecoverStep::Wait));
    assert!(matches!(
        inner.wait_owner_recover(7, false),
        RecoverStep::Failed(KvErrorOf::Api(ApiErrorOf::SystemShutdown { ref detail }))
            if detail == "Owner recovery wait aborted due to shutdown"
    ));
    attach(&mut inner, 8, 2);
    assert!(matches!(
        inner.wait_owner_recover(7, true),
        RecoverStep::Ready {
            owner_start_time: 8,
            base_addr: 0x8000
        }
    ));
}

#[test]
fn holders_are_found_again_only_in_their_generation() {
    let mut inner = attached(7);
    inner
        .key_weak_memholder_index
        .insert("k".to_string(), 11);
    assert_eq!(inner.try_get_from_weak_cache("k", Some(7)), Some(11));
    assert_eq!(inner.try_get_from_weak_cache("k", Some(6)), None);
    assert_eq!(inner.key_weak_memholder_index.get("k"), None);
    inner
        .key_weak_memholder_index
        .insert("k".to_string(), 12);
    assert_eq!(inner.try_get_from_weak_cache("k", None), None);
    inner
        .key_weak_memholder_index
        .insert("k".to_string(), 13);
    attach(&mut inner, 8, 2);
    assert_eq!(inner.try_get_from_weak_cache("k", Some(8)), None);
}

#[test]
fn keys_that_the_owner_invalidates_are_forgotten() {
    let mut inner = attached(7);
    for (key, holder) in [("a", 1), ("b", 2), ("c", 3)] {
        inner
            .key_weak_memholder_index
            .insert(key.to_string(), holder);
    }
    let removed = inner
        .key_weak_memholder_index
        .handle_external_invalidate_weak_index(&vec![
            "a".to_string(),
            "x".to_string(),
            "c".to_string(),
            "a".to_string(),
        ]);
    assert_eq!(removed, 2);
    assert_eq!(inner.key_weak_memholder_index.get("a"), None);
    assert_eq!(inner.key_weak_memholder_index.get("b"), Some(2));
}

#[test]
fn a_held_value_stands_at_its_offset() {
    let inner = attached(7);
    let info = ExternalGetInfo {
        offset: 0x20,
        len: 5,
        holder_id: 9,
    };
    let holder = held_value(Some(info), 0x9000, "k", "me", 7).expect("held");
    assert_eq!(holder.addr, 0x9020);
    assert_eq!(holder.key, "k");
    assert_eq!(holder.external_client_id, "me");
    assert_eq!(holder.owner_start_time, 7);
    assert!(held_value(None, 0x9000, "k", "me", 7).is_none());
    assert_eq!(inner.external_key_request("k").started_time, 7);
    let req = external_get_request("k", "me", 7);
    assert_eq!((req.key.as_str(), req.req_node_id.as_str()), ("k", "me"));
}

fn started(src: u64, target: u64, peer: Option<&str>) -> ExternalPutStartOk {
    ExternalPutStartOk {
        put_id: Some((5, 1)),
        src_offset: src,
        target_offset: target,
        transfer_target_offset: None,
        peer_id: peer.map(|p| p.to_string()),
        target_base_addr: 0x77,
    }
}

#[test]
fn puts_write_and_end_as_they_were_started() {
    let opts = PutOptions {
        lease_id: Some(3),
        reject_if_inflight_same_key: true,
        preferred_sub_cluster: Some("s".to_string()),
    };
    let req = external_put_start_request("k", 8, &opts, 7);
    assert!(req.reject_if_inflight_same_key);
    assert_eq!(req.preferred_sub_cluster.as_deref(), Some("s"));
    assert_eq!((req.len, req.started_time), (8, 7));

    let local = started(16, 16, None);
    assert_eq!(local.write_addr(0x1000), 0x1010);
    let end = local.transfer_end_request("k", 8, &opts, 7);
    assert_eq!(end.target_offset, 16);
    assert_eq!(end.target_base_addr, None);
    assert_eq!(end.lease_id, Some(3));

    let mut remote = started(16, 32, Some("peer"));
    remote.transfer_target_offset = Some(48);
    assert_eq!(remote.write_addr(0x1000), 0x1010);
    let end = remote.transfer_end_request("k", 8, &opts, 7);
    assert_eq!((end.src_offset, end.target_offset), (16, 48));
    assert_eq!(end.peer_id.as_deref(), Some("peer"));
    assert_eq!(end.target_base_addr, Some(0x77));
    assert_eq!(end.put_id, Some((5, 1)));
    let commit = remote.commit_request("k", &opts, 7);
    assert_eq!((commit.put_id, commit.lease_id), (Some((5, 1)), Some(3)));
}

fn transport_error() -> KvError {
    KvErrorOf::P2p(P2PErrorOf::SendFailed {
        detail: "x".to_string(),
    })
}

fn mismatch() -> KvError {
    KvErrorOf::Api(ApiErrorOf::OwnerStartTimeMismatch {
        detail: "x".to_string(),
    })
}

#[test]
fn bounded_calls_are_retried_three_times() {
    let mut state = RetryState::bounded();
    for _ in 0..3 {
        assert!(matches!(
            state.on_error(transport_error()),
            RetryDecision::CheckOwner
        ));
        assert!(matches!(state.on_error(mismatch()), RetryDecision::AwaitOwner));
    }
    assert!(matches!(
        state.on_error(transport_error()),
        RetryDecision::Fail(KvErrorOf::P2p(_))
    ));
    assert!(matches!(state.on_error(mismatch()), RetryDecision::AwaitOwner));
    assert!(matches!(
        state.on_error(KvErrorOf::Api(ApiErrorOf::KeyNotFound {
            key: "k".to_string()
        })),
        RetryDecision::Fail(KvErrorOf::Api(ApiErrorOf::KeyNotFound { .. }))
    ));
}

#[test]
fn puts_are_retried_until_they_are_answered() {
    let mut state = RetryState::unbounded();
    for _ in 0..100 {
        assert!(matches!(
            state.on_error(transport_error()),
            RetryDecision::CheckOwner
        ));
    }
    assert_eq!(state.recover_attempts, 0);
}

#[test]
fn a_release_that_a_restarted_owner_refuses_is_fine() {
    assert!(delete_ack_result(Ok(())).is_ok());
    assert!(delete_ack_result(Err(mismatch())).is_ok());
    assert!(delete_ack_result(Err(transport_error())).is_err());
    let (owner, req) = attached(7).send_external_delete_ack("k", "me", 9, 6);
    assert_eq!(owner, "o");
    assert_eq!((req.key.as_str(), req.external_client_id.as_str()), ("k", "me"));
    assert_eq!((req.holder_id, req.started_time), (9, 6));
}

#[test]
fn a_route_is_ready_after_two_good_answers_in_a_row() {
    let mut wait = SendReadyWait::begin("o".to_string(), "owner", "init", 0);
    assert!(wait.check_running(true).is_none());
    assert!(matches!(
        wait.on_readiness(Ok(()), String::new(), 100),
        SendReadyStep::Sleep
    ));
    assert!(matches!(
        wait.on_readiness(Err(P2PErrorOf::Iceoryx2TransportNotStarted), "soon".to_string(), 200),
        SendReadyStep::Sleep
    ));
    assert_eq!(wait.consecutive_ready, 0);
    assert!(matches!(
        wait.on_readiness(Ok(()), String::new(), 300),
        SendReadyStep::Sleep
    ));
    assert!(matches!(
        wait.on_readiness(Ok(()), String::new(), 400),
        SendReadyStep::Ready
    ));
}

#[test]
fn a_route_that_does_not_come_up_is_given_up() {
    let mut wait = SendReadyWait::begin("o".to_string(), "owner", "init", 0);
    match wait.check_running(false) {
        Some(KvErrorOf::Api(ApiErrorOf::SystemShutdown { detail })) => assert_eq!(
            detail,
            "external control-plane wait stopped during init: target_role=owner target=o"
        ),
        _ => panic!("the wait stops with the system"),
    }
    let step = wait.on_readiness(
        Err(P2PErrorOf::NodeNotFound {
            detail: "x".to_string(),
        }),
        "no such node".to_string(),
        30_000,
    );
    match step {
        SendReadyStep::Failed(KvErrorOf::Api(ApiErrorOf::Unknown { detail })) => assert_eq!(
            detail,
            "timed out waiting for external control-plane route during init: target_role=owner target=o attempts=1 last_transient_err=Some(\"no such node\")"
        ),
        _ => panic!("the deadline has passed"),
    }
    let mut wait = SendReadyWait::begin("o".to_string(), "owner", "init", 0);
    assert!(matches!(
        wait.on_readiness(
            Err(P2PErrorOf::Other {
                detail: "x".to_string()
            }),
            "x".to_string(),
            0
        ),
        SendReadyStep::Failed(KvErrorOf::P2p(P2PErrorOf::Other { .. }))
    ));
}

fn fields() -> Vec<(String, FlatKvValueRange)> {
    vec![
        ("n".to_string(), FlatKvValueRange::Other),
        (
            "b".to_string(),
            FlatKvValueRange::BytesRange { start: 4, len: 6 },
        ),
        ("b".to_string(), FlatKvValueRange::Other),
        (
            "far".to_string(),
            FlatKvValueRange::BytesRange { start: 8, len: 6 },
        ),
        (
            "huge".to_string(),
            FlatKvValueRange::BytesRange {
                start: usize::MAX,
                len: 2,
            },
        ),
    ]
}

fn refused(field: &str, path: &str) -> String {
    match sync_kv_bytes_field_range(Ok(fields()), 10, field, path) {
        Err(KvErrorOf::Api(ApiErrorOf::InvalidArgument { detail })) => detail,
        other => panic!("unexpected: {:?}", other),
    }
}

#[test]
fn a_field_is_found_by_its_first_entry() {
    assert!(matches!(
        sync_kv_bytes_field_range(Ok(fields()), 10, "b", "/f"),
        Ok((4, 10))
    ));
    assert_eq!(refused("", "/f"), "bytes_field_key must be non-empty");
    assert_eq!(refused("b", ""), "filepath must be non-empty");
    assert_eq!(refused("n", "/f"), "field is not bytes: n");
    assert_eq!(refused("x", "/f"), "missing bytes field: x");
    assert_eq!(refused("far", "/f"), "bytes range out of bounds");
    assert_eq!(refused("huge", "/f"), "bytes range overflow");
    match sync_kv_bytes_field_range(Err("short".to_string()), 10, "b", "/f") {
        Err(KvErrorOf::Api(ApiErrorOf::InvalidArgument { detail })) => {
            assert_eq!(detail, "flat dict decode failed: short")
        }
        other => panic!("unexpected: {:?}", other),
    }
}

#[test]
fn writes_go_on_where_they_stopped() {
    assert_eq!(write_all_at_step(10, 8, 3), Ok((13, 5)));
    assert_eq!(write_all_at_step(10, 8, 0), Err(WriteFault::WriteZero));
    assert_eq!(
        write_all_at_step(u64::MAX, 8, 1),
        Err(WriteFault::OffsetOverflow)
    );
    assert!(check_sync_key("k").is_ok());
    assert!(matches!(
        check_sync_key(""),
        Err(KvErrorOf::Api(ApiErrorOf::InvalidArgument { ref detail })) if detail == "key must be non-empty"
    ));
    assert!(matches!(held_or_not_found(Some(5), "k".to_string()), Ok(5)));
    assert!(matches!(
        held_or_not_found::<u8>(None, "k".to_string()),
        Err(KvErrorOf::Api(ApiErrorOf::KeyNotFound { ref key })) if key == "k"
    ));
}
