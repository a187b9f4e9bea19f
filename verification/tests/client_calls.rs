use fluxon_kv::cluster_manager::{ClusterMember, Metadata, NodeRole};
use fluxon_kv::config::LargeFilePaths;
use fluxon_kv::error::{ApiErrorOf, KvError, KvErrorOf, P2PError, P2PErrorOf, SharedMemErrorOf};
use fluxon_kv::external_client_api::attach::{ProbeStep, RecoverRoutes, RecoverRoutesStep};
use fluxon_kv::external_client_api::calls::{
    GetCall, GetCallStep, KeyCall, KeyCallStep, OwnerWait,
};
use fluxon_kv::external_client_api::owner::{
    ExternalInner, OwnerProbeInput, OwnerRestartPayload, SharedJsonMeta, SharedJsonRead,
    SharedMemoryPtr, SharedMetaSignature,
};
use fluxon_kv::external_client_api::put::{ExternalGetInfo, ExternalPutStartOk, PutOptions};
use fluxon_kv::external_client_api::put_call::{ExternalPut, PutArgs, PutStage, PutStep};
use fluxon_kv::external_client_api::side_transfer::{
    CallTarget, SideTransferPeer, SideTransferPeerFileMeta,
};
use fluxon_kv::external_client_api::ExternalClientApiNewArg;
use fluxon_kv::master_kv_router::put::{
    META_KEY_SHARED_STORAGE_NODE_ID, META_KEY_SHARED_STORAGE_NODE_START_TIME,
};

fn client(short_circuit: bool) -> ExternalInner {
    ExternalInner::construct(ExternalClientApiNewArg {
        shared_memory_path: "/shm".to_string(),
        shared_file_path: "/files".to_string(),
        expected_cluster_name: "c".to_string(),
        expected_protocol_version: "v1".to_string(),
        enable_side_transfer: true,
        short_circuit_put_payload_path: short_circuit,
    })
}

fn attach(inner: &mut ExternalInner, start: i64) {
    let signature = SharedMetaSignature {
        modified_ns: start as u64,
        len: 1,
        inode: 1,
    };
    inner.remap_shared_memory_with_payload(
        SharedMemoryPtr {
            ptr_rw: 0x1000 * start as u64,
            ptr_ro: 0x9000,
            len: 4096,
            memory_signature: signature,
        },
        &OwnerRestartPayload {
            meta: SharedJsonMeta {
                protocol_version: "v1".to_string(),
                cluster_name: "c".to_string(),
                owner_id: "o".to_string(),
                node_start_time: start,
                segment_len: 4096,
                segment_label: None,
                sub_cluster: None,
                etcd_addresses: vec![],
                share_mem_path: "/shm".to_string(),
                large_file_paths: LargeFilePaths { paths: vec![] },
                write_ts: None,
            },
            signature,
        },
    );
}

fn attached(short_circuit: bool) -> ExternalInner {
    let mut inner = client(short_circuit);
    attach(&mut inner, 7);
    inner
}

fn owner(start: i64) -> Option<ClusterMember> {
    Some(ClusterMember {
        id: "o".to_string(),
        node_start_time: start,
        role: NodeRole::Client,
        metadata: Metadata::new(),
        sub_cluster: None,
    })
}

fn worker(side_id: &str, lane: u16) -> SideTransferPeer {
    let mut metadata = Metadata::new();
    metadata.insert("side_transfer_worker".to_string(), "true".to_string());
    metadata.insert(META_KEY_SHARED_STORAGE_NODE_ID.to_string(), "o".to_string());
    metadata.insert(
        META_KEY_SHARED_STORAGE_NODE_START_TIME.to_string(),
        "7".to_string(),
    );
    SideTransferPeer {
        meta: SideTransferPeerFileMeta {
            owner_id: "o".to_string(),
            owner_start_time: 7,
            side_id: side_id.to_string(),
            worker_idx: Some(lane),
        },
        member: Some(ClusterMember {
            id: side_id.to_string(),
            node_start_time: 1,
            role: NodeRole::Client,
            metadata,
            sub_cluster: None,
        }),
    }
}

fn restarted() -> KvError {
    KvErrorOf::Api(ApiErrorOf::OwnerStartTimeMismatch {
        detail: "x".to_string(),
    })
}

fn unreachable_peer() -> P2PError {
    P2PErrorOf::SendFailed {
        detail: "x".to_string(),
    }
}

#[test]
fn a_check_is_sent_to_the_owner_and_retried_after_a_restart() {
    let mut inner = attached(false);
    let mut call = KeyCall::begin(&inner, "k");
    match call.next(&inner) {
        KeyCallStep::Send { owner, req } => {
            assert_eq!(owner, "o");
            assert_eq!((req.key.as_str(), req.started_time), ("k", 7));
        }
        _ => panic!("the owner is attached"),
    }
    assert!(call.on_reply::<bool>(Err(restarted())).is_none());
    assert_eq!(call.call.wait, Some(OwnerWait::Restarted));
    assert!(matches!(call.next(&inner), KeyCallStep::AwaitOwner));
    assert!(call.call.poll_owner(&inner, &owner(7), true).is_none());
    attach(&mut inner, 8);
    assert!(matches!(
        call.call.poll_owner(&inner, &owner(8), true),
        Some(Ok(()))
    ));
    assert_eq!(call.call.prev_owner_start_time, 8);
    assert!(matches!(call.next(&inner), KeyCallStep::Send { ref req, .. } if req.started_time == 8));
    assert!(matches!(call.on_reply(Ok(true)), Some(Ok(true))));
}

#[test]
fn a_check_gives_up_after_three_retries_for_the_transport() {
    let inner = attached(false);
    let mut call = KeyCall::begin(&inner, "k");
    for _ in 0..3 {
        assert!(call
            .on_reply::<()>(Err(KvErrorOf::P2p(unreachable_peer())))
            .is_none());
        assert_eq!(call.call.wait, Some(OwnerWait::Reached));
        // The cluster shows the same generation: the call goes on at once.
        assert!(matches!(
            call.call.poll_owner(&inner, &owner(7), true),
            Some(Ok(()))
        ));
    }
    assert!(matches!(
        call.on_reply::<()>(Err(KvErrorOf::P2p(unreachable_peer()))),
        Some(Err(KvErrorOf::P2p(_)))
    ));
}

#[test]
fn a_call_without_an_owner_waits_for_one() {
    let mut inner = client(false);
    let mut call = KeyCall::begin(&inner, "k");
    assert!(matches!(call.next(&inner), KeyCallStep::AwaitOwner));
    assert!(call.call.poll_owner(&inner, &None, true).is_none());
    assert!(matches!(
        call.call.poll_owner(&inner, &None, false),
        Some(Err(KvErrorOf::Api(ApiErrorOf::SystemShutdown { .. })))
    ));
    attach(&mut inner, 7);
    assert!(matches!(
        call.call.poll_owner(&inner, &None, true),
        Some(Ok(()))
    ));
    assert_eq!(call.call.base_addr, 0x7000);
    call.call.wait = None;
    assert!(matches!(
        call.next(&client(false)),
        KeyCallStep::Failed(KvErrorOf::SharedMem(SharedMemErrorOf::NotConfigured { .. }))
    ));
}

fn found(holder_id: u64) -> ExternalGetInfo {
    ExternalGetInfo {
        offset: 16,
        len: 4,
        holder_id,
    }
}

#[test]
fn a_get_holds_what_the_owner_has() {
    let mut inner = attached(false);
    let mut get = GetCall::begin(&inner, "k", "me");
    assert!(matches!(get.next(&mut inner, None), GetCallStep::Acquire));
    match get.next(&mut inner, None) {
        GetCallStep::Send { owner, req } => {
            assert_eq!(owner, "o");
            assert_eq!((req.req_node_id.as_str(), req.started_time), ("me", 7));
        }
        _ => panic!("the owner is attached"),
    }
    match get.on_reply(&mut inner, Ok(Some(found(3)))) {
        Some(Ok(Some(holder))) => {
            assert_eq!((holder.addr, holder.len, holder.holder_id), (0x9010, 4, 3));
            assert_eq!(holder.owner_start_time, 7);
        }
        _ => panic!("the value was found"),
    }
    assert_eq!(inner.key_weak_memholder_index.get("k"), Some(3));
    assert!(matches!(get.on_reply(&mut inner, Ok(None)), Some(Ok(None))));
    assert!(get.on_reply(&mut inner, Err(restarted())).is_none());
    assert!(matches!(get.next(&mut inner, None), GetCallStep::AwaitOwner));
    assert!(matches!(
        get.on_reply(
            &mut inner,
            Err(KvErrorOf::Api(ApiErrorOf::Unknown {
                detail: "x".to_string()
            }))
        ),
        Some(Err(KvErrorOf::Api(ApiErrorOf::Unknown { .. })))
    ));
}

#[test]
fn a_value_that_is_held_is_not_asked_for() {
    let mut inner = attached(false);
    inner.key_weak_memholder_index.insert("k".to_string(), 3);
    let mut get = GetCall::begin(&inner, "k", "me");
    assert!(matches!(
        get.next(&mut inner, Some(7)),
        GetCallStep::Held { holder_id: 3 }
    ));
    // The holder is gone: the get takes its turn, and finds what another get got meanwhile.
    assert!(matches!(get.next(&mut inner, None), GetCallStep::Acquire));
    assert_eq!(inner.key_weak_memholder_index.get("k"), None);
    inner.key_weak_memholder_index.insert("k".to_string(), 4);
    assert!(matches!(
        get.next(&mut inner, Some(7)),
        GetCallStep::Held { holder_id: 4 }
    ));
    // A holder of another generation does not stand for the value.
    assert!(matches!(get.next(&mut inner, Some(6)), GetCallStep::Send { .. }));
    // A get that was retried asks again without looking.
    inner.key_weak_memholder_index.insert("k".to_string(), 5);
    assert!(matches!(get.next(&mut inner, Some(7)), GetCallStep::Send { .. }));
}

fn args() -> PutArgs {
    PutArgs {
        key: "k".to_string(),
        len: 8,
        opts: PutOptions {
            lease_id: Some(3),
            reject_if_inflight_same_key: false,
            preferred_sub_cluster: None,
        },
    }
}

fn started() -> ExternalPutStartOk {
    ExternalPutStartOk {
        put_id: Some((5, 0)),
        src_offset: 16,
        target_offset: 32,
        transfer_target_offset: None,
        peer_id: Some("peer".to_string()),
        target_base_addr: 0x77,
    }
}

#[test]
fn a_put_goes_through_the_worker_that_started_it() {
    let mut inner = attached(false);
    let peers = vec![worker("s0", 0), worker("s1", 1)];
    let put = ExternalPut::begin(&inner, args());
    assert!(matches!(put.next(), PutStep::Start));
    let (put, step) = put.start(&mut inner, &peers);
    match step {
        PutStep::CallStart { owner, target, req } => {
            assert_eq!(owner, "o");
            assert!(matches!(target, CallTarget::Side { ref side_id, lane_idx: 0 } if side_id == "s0"));
            assert_eq!((req.key.as_str(), req.len, req.started_time), ("k", 8, 7));
        }
        _ => panic!("a worker serves"),
    }
    assert_eq!(inner.side_rr_next, 1);
    let (put, step) = put.on_start_reply(&mut inner, Ok(Ok(started())));
    assert!(matches!(step, PutStep::Write { addr: 0x7010 }));
    let (put, step) = put.on_written(&inner);
    match step {
        PutStep::CallEnd { target, req, .. } => {
            assert!(matches!(target, CallTarget::Side { ref side_id, .. } if side_id == "s0"));
            assert_eq!((req.src_offset, req.target_offset), (16, 32));
            assert_eq!(req.lease_id, Some(3));
        }
        _ => panic!("the put is bound"),
    }
    let (_, step) = put.on_end_reply(&mut inner, Ok(Ok(())));
    assert!(matches!(step, PutStep::Done(Ok(Some((ref side, 0)))) if side == "s0"));
    assert_eq!(
        inner
            .side_transfer_put_bindings
            .bound_side_transfer_peer(Some((5, 0))),
        None
    );
}

#[test]
fn a_get_reads_where_the_put_wrote() {
    let mut inner = attached(false);
    let put = ExternalPut::begin(&inner, args());
    let (put, _) = put.start(&mut inner, &vec![]);
    let (_, step) = put.on_start_reply(&mut inner, Ok(Ok(started())));
    let written = match step {
        PutStep::Write { addr } => addr,
        _ => panic!("the owner gave a place"),
    };
    let mut get = GetCall::begin(&inner, "k", "me");
    assert!(matches!(get.next(&mut inner, None), GetCallStep::Acquire));
    assert!(matches!(get.next(&mut inner, None), GetCallStep::Send { .. }));
    let answer = ExternalGetInfo {
        offset: started().src_offset,
        len: 8,
        holder_id: 3,
    };
    match get.on_reply(&mut inner, Ok(Some(answer))) {
        Some(Ok(Some(holder))) => {
            // As far into the mapping for reading as the value is in the one for writing.
            assert_eq!((holder.addr - 0x9000, holder.len), (written - 0x7000, 8));
        }
        _ => panic!("the value was found"),
    }
}

#[test]
fn a_put_falls_back_from_worker_to_worker_to_the_owner() {
    let mut inner = attached(false);
    // Put (5, 0) is on lane 1 of two.
    let peers = vec![worker("s0", 0), worker("s1", 1)];
    let put = ExternalPut::begin(&inner, args());
    let (put, _) = put.start(&mut inner, &peers);
    let (put, step) = put.on_start_reply(&mut inner, Err(unreachable_peer()));
    assert!(matches!(
        step,
        PutStep::CallStart {
            target: CallTarget::Owner,
            ..
        }
    ));
    let (put, _) = put.on_start_reply(&mut inner, Ok(Ok(started())));
    let (put, step) = put.end_with(&inner, Some(("s0".to_string(), 0)));
    assert!(matches!(step, PutStep::CallEnd { .. }));
    let (put, step) = put.on_end_reply(&mut inner, Err(unreachable_peer()));
    assert!(matches!(step, PutStep::Pick));
    let (put, step) = put.pick_and_end(&mut inner, &peers);
    match step {
        PutStep::CallEnd { target, .. } => {
            assert!(matches!(target, CallTarget::Side { ref side_id, lane_idx: 1 } if side_id == "s1"))
        }
        _ => panic!("another worker is on the lane"),
    }
    let (put, step) = put.on_end_reply(&mut inner, Err(unreachable_peer()));
    assert!(matches!(
        step,
        PutStep::CallEnd {
            target: CallTarget::Owner,
            ..
        }
    ));
    let (put, step) = put.on_end_reply(&mut inner, Err(unreachable_peer()));
    assert!(matches!(step, PutStep::AwaitOwner));
    assert!(matches!(put.stage, PutStage::Idle));
    assert_eq!(put.call.wait, Some(OwnerWait::Reached));
}

#[test]
fn a_worker_that_was_tried_is_not_tried_again() {
    let mut inner = attached(false);
    let peers = vec![worker("s0", 0), worker("s1", 1)];
    let put = ExternalPut::begin(&inner, args());
    let (put, _) = put.start(&mut inner, &vec![]);
    let (put, _) = put.on_start_reply(&mut inner, Ok(Ok(started())));
    let (put, _) = put.end_with(&inner, Some(("s1".to_string(), 1)));
    let (put, _) = put.on_end_reply(&mut inner, Err(unreachable_peer()));
    let (_, step) = put.pick_and_end(&mut inner, &peers);
    assert!(matches!(
        step,
        PutStep::CallEnd {
            target: CallTarget::Owner,
            ..
        }
    ));
}

#[test]
fn a_put_without_a_payload_is_committed() {
    let mut inner = attached(true);
    let put = ExternalPut::begin(&inner, args());
    let (put, step) = put.start(&mut inner, &vec![]);
    assert!(matches!(
        step,
        PutStep::CallStart {
            target: CallTarget::Owner,
            ..
        }
    ));
    let (put, step) = put.on_start_reply(&mut inner, Ok(Ok(started())));
    match step {
        PutStep::Commit { owner, req } => {
            assert_eq!(owner, "o");
            assert_eq!((req.put_id, req.lease_id), (Some((5, 0)), Some(3)));
        }
        _ => panic!("nothing is written"),
    }
    let (_, step) = put.on_commit_reply(&mut inner, Ok(Ok(())));
    assert!(matches!(step, PutStep::Done(Ok(None))));
}

#[test]
fn a_put_is_tried_anew_after_a_restart_and_fails_for_other_errors() {
    let mut inner = attached(false);
    let put = ExternalPut::begin(&inner, args());
    let (put, _) = put.start(&mut inner, &vec![]);
    let (mut put, step) = put.on_start_reply(&mut inner, Ok(Err(restarted())));
    assert!(matches!(step, PutStep::AwaitOwner));
    assert!(matches!(
        put.poll_owner(&inner, &None, true),
        PutStep::AwaitOwner
    ));
    attach(&mut inner, 8);
    assert!(matches!(put.poll_owner(&inner, &None, true), PutStep::Start));
    assert_eq!(put.call.base_addr, 0x8000);
    let (put, _) = put.start(&mut inner, &vec![]);
    let (_, step) = put.on_start_reply(
        &mut inner,
        Ok(Err(KvErrorOf::Api(ApiErrorOf::KeyBeingWritten {
            key: "k".to_string(),
        }))),
    );
    assert!(matches!(
        step,
        PutStep::Done(Err(KvErrorOf::Api(ApiErrorOf::KeyBeingWritten { .. })))
    ));
}

fn described(owner_id: &str, start: i64, modified_ns: u64) -> OwnerProbeInput {
    let signature = SharedMetaSignature {
        modified_ns,
        len: 1,
        inode: 1,
    };
    OwnerProbeInput {
        mmap_file_ready: true,
        shared_json_ready: true,
        read: SharedJsonRead::Read {
            before: signature,
            meta: SharedJsonMeta {
                protocol_version: "v1".to_string(),
                cluster_name: "c".to_string(),
                owner_id: owner_id.to_string(),
                node_start_time: start,
                segment_len: 4096,
                segment_label: None,
                sub_cluster: Some("s".to_string()),
                etcd_addresses: vec![],
                share_mem_path: "/shm".to_string(),
                large_file_paths: LargeFilePaths { paths: vec![] },
                write_ts: None,
            },
            after: signature,
        },
        owner_member: owner(start),
    }
}

#[test]
fn a_client_attaches_to_its_owner_and_to_its_next_generation() {
    let mut inner = client(false);
    assert!(matches!(
        inner.look_for_owner(described("o", 7, 1), false),
        ProbeStep::Failed(KvErrorOf::Api(ApiErrorOf::SystemShutdown { ref detail }))
            if detail == "Owner recovery wait aborted due to shutdown"
    ));
    let ProbeStep::MapMemory(payload) = inner.look_for_owner(described("o", 7, 1), true) else {
        panic!("the owner is ready");
    };
    let refused = inner.attach(Err(restarted()), &payload);
    assert!(refused.is_err());
    assert!(inner.current_owner.is_none());
    let memory = SharedMemoryPtr {
        ptr_rw: 0x7000,
        ptr_ro: 0x9000,
        len: 4096,
        memory_signature: payload.signature,
    };
    let binding = inner.attach(Ok(memory), &payload).expect("attached");
    assert_eq!(
        (binding.owner_id.as_str(), binding.owner_start_time, binding.sub_cluster.as_deref()),
        ("o", 7, Some("s"))
    );
    assert!(matches!(
        inner.wait_owner_present(&owner(7), None),
        Some(Ok(()))
    ));
    assert!(inner.wait_owner_present(&None, None).is_none());
    assert!(matches!(
        inner.wait_owner_present(&owner(6), Some("closed".to_string())),
        Some(Err(KvErrorOf::Api(ApiErrorOf::Unknown { ref detail })))
            if detail == "cluster event channel closed while waiting for owner generation (owner_id=o owner_start_time=7): closed"
    ));
    // The same description is not mapped again, another one of the owner is, and another owner is
    // refused.
    assert!(matches!(
        inner.look_for_owner(described("o", 7, 1), true),
        ProbeStep::Wait { .. }
    ));
    assert!(matches!(
        inner.look_for_owner(described("o", 8, 2), true),
        ProbeStep::MapMemory(ref payload) if payload.meta.node_start_time == 8
    ));
    assert!(matches!(
        inner.look_for_owner(described("p", 8, 2), true),
        ProbeStep::Failed(KvErrorOf::Api(ApiErrorOf::Unknown { ref detail }))
            if detail == "shared.json owner_id changed unexpectedly: old_owner_id=o new_owner_id=p"
    ));
    assert!(matches!(
        inner.look_for_owner(described("o", 8, 2), false),
        ProbeStep::Stop
    ));
}

#[test]
fn a_recovered_client_waits_for_the_owner_and_then_for_the_master() {
    let inner = attached(false);
    let routes = RecoverRoutes::begin("o".to_string(), 0);
    let (routes, step) = routes.on_readiness(&inner, Ok(()), String::new(), 10);
    assert!(matches!(step, RecoverRoutesStep::Sleep));
    let (routes, step) = routes.on_readiness(&inner, Ok(()), String::new(), 20);
    assert!(matches!(step, RecoverRoutesStep::FindMaster));
    let (routes, step) = routes.on_master(Ok("m".to_string()), 30);
    assert!(matches!(step, RecoverRoutesStep::AskMaster));
    let (routes, step) = routes.on_readiness(&inner, Ok(()), String::new(), 40);
    assert!(matches!(step, RecoverRoutesStep::Sleep));
    let (_, step) = routes.on_readiness(&inner, Ok(()), String::new(), 50);
    assert!(matches!(
        step,
        RecoverRoutesStep::Done {
            owner_start_time: 7,
            base_addr: 0x7000
        }
    ));
    let routes = RecoverRoutes::begin("o".to_string(), 0);
    let (_, step) = routes.on_readiness(&inner, Err(unreachable_peer()), "gone".to_string(), 30_000);
    assert!(matches!(
        step,
        RecoverRoutesStep::Failed(KvErrorOf::Api(ApiErrorOf::Unknown { ref detail }))
            if detail == "timed out waiting for external control-plane route during owner_recover: target_role=owner target=o attempts=1 last_transient_err=Some(\"gone\")"
    ));
    let (_, step) = RecoverRoutes::FindMaster.on_master(Err(restarted()), 0);
    assert!(matches!(step, RecoverRoutesStep::Failed(_)));
}
