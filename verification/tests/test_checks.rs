use fluxon_kv::config::ProtocolType;
use fluxon_kv::error::{ApiError, KvError};
use fluxon_kv::kv_test::checks::{
    cross_owner_replicas, judge_shutdown_reply, judge_gets_after_put,
    judge_crud_reply, judge_round_event, tally_persistence, CheckClient, CommunicationPoll, CrudFault,
    CrudReply, CrudStep, GetOutcome, GetsFault, MetaCacheCheck, MetaCacheFault, MetaCacheStep,
    PersistenceTally, PollStep, RoundEvent, RoundFault, ShutdownFault, ShutdownReply, ShutdownStep,
};
use fluxon_kv::kv_test::configs::{
    new_client_config_with_cluster_and_dram, new_master_config_with_cluster,
    new_zero_contribution_client_config, test_cluster_name,
};
use fluxon_kv::kv_test::recovery::{
    etcd_host_port, judge_holding, judge_lifetime, judge_parallel, judge_recovery,
    wait_node_allocators, AllocatorWait, HoldingStep, HoldingWait, LifetimeEvent, LifetimeFault,
    ParallelOutcome, RecoveryEvent, RecoveryFault,
};
use fluxon_kv::kv_test::rounds::{EtcdEndpoint, KvTestRoundProfile};
use fluxon_kv::kv_test::script::{
    crud_entry, new_client_entry, parallel_entry, persistence_entry, plan_round, RoundPart,
};
use fluxon_kv::master_kv_router::put::PutIDForAKey;
use fluxon_kv::master_kv_router::routes::OneKvNodesRoutes;
use fluxon_kv::master_seg_manager::TombBoard;

fn broken() -> KvError {
    KvError::Api(ApiError::Unknown {
        detail: "broken".to_string(),
    })
}

fn no_space() -> KvError {
    KvError::Api(ApiError::NoSpace {
        node: "n".to_string(),
        segment: "s".to_string(),
        total_capacity: 2,
        free_capacity: 1,
    })
}

fn not_found() -> KvError {
    KvError::Api(ApiError::KeyNotFound {
        key: "k".to_string(),
    })
}

#[test]
fn a_client_passes_if_its_value_is_kept() {
    let check = judge_crud_reply;
    assert!(matches!(check(CrudReply::Put(Ok(())), b"v"), CrudStep::Get));
    assert!(matches!(
        check(CrudReply::Put(Err(broken())), b"v"),
        CrudStep::Failed(CrudFault::Kv(_))
    ));
    assert!(matches!(
        check(CrudReply::Get(Ok(Some(b"v".to_vec()))), b"v"),
        CrudStep::Exist
    ));
    assert!(matches!(
        check(CrudReply::Get(Ok(Some(b"vv".to_vec()))), b"v"),
        CrudStep::Failed(CrudFault::Mismatch)
    ));
    assert!(matches!(
        check(CrudReply::Get(Ok(None)), b"v"),
        CrudStep::Failed(CrudFault::NotFound)
    ));
    assert!(matches!(
        check(CrudReply::Exist(Ok(true)), b"v"),
        CrudStep::Delete
    ));
    assert!(matches!(
        check(CrudReply::Exist(Ok(false)), b"v"),
        CrudStep::Failed(CrudFault::ShouldExist)
    ));
    assert!(matches!(
        check(CrudReply::Delete(Err(broken())), b"v"),
        CrudStep::Done
    ));
}

fn found(value: &[u8], remote: bool) -> GetOutcome {
    GetOutcome::Found {
        value: value.to_vec(),
        remote,
    }
}

#[test]
fn one_get_of_many_asks_another_node() {
    let check = judge_gets_after_put;
    assert_eq!(
        check(&vec![found(b"v", false), found(b"v", true)], b"v"),
        Ok(())
    );
    assert_eq!(
        check(&vec![found(b"v", false), found(b"v", false)], b"v"),
        Err(GetsFault::Remote { count: 0 })
    );
    assert_eq!(
        check(&vec![found(b"v", true), found(b"v", true)], b"v"),
        Err(GetsFault::Remote { count: 2 })
    );
    assert_eq!(
        check(&vec![found(b"v", true), found(b"w", false), GetOutcome::Missing], b"v"),
        Err(GetsFault::Mismatch { at: 1 })
    );
    assert_eq!(
        check(&vec![GetOutcome::Missing], b"v"),
        Err(GetsFault::Missing { at: 0 })
    );
    assert_eq!(
        check(&vec![found(b"v", true), GetOutcome::Failed(broken())], b"v"),
        Err(GetsFault::Failed { at: 1 })
    );
}

#[test]
fn clients_take_turns_in_the_cache_check() {
    let (mut check, first) = MetaCacheCheck::begin();
    assert!(matches!(
        first,
        MetaCacheStep::Put {
            client: CheckClient::First
        }
    ));
    let mut writers = vec![CheckClient::First];
    let mut readers = vec![];
    loop {
        match check.on_put(Ok(())) {
            MetaCacheStep::ReadAtOnce { client } => readers.push(client),
            other => panic!("unexpected {:?}", other),
        }
        match check.on_reads(Ok(())) {
            MetaCacheStep::Put { client } => writers.push(client),
            MetaCacheStep::Delete => break,
            other => panic!("unexpected {:?}", other),
        }
    }
    assert_eq!(writers.len(), 10);
    assert_eq!(readers.len(), 10);
    for i in 0..10 {
        assert_ne!(writers[i], readers[i]);
    }
    assert_eq!(writers[9], CheckClient::Second);
    assert!(matches!(check.on_delete(), MetaCacheStep::GetDeleted));
    assert!(matches!(check.on_get_deleted(Ok(None)), MetaCacheStep::Passed));
    assert!(matches!(
        check.on_get_deleted(Err(not_found())),
        MetaCacheStep::Passed
    ));
    assert!(matches!(
        check.on_get_deleted(Err(broken())),
        MetaCacheStep::Unclear(_)
    ));
    assert!(matches!(
        check.on_get_deleted(Ok(Some(()))),
        MetaCacheStep::Failed(MetaCacheFault::StillAccessible)
    ));
    assert!(matches!(
        check.on_put(Err(broken())),
        MetaCacheStep::Failed(MetaCacheFault::Put(_))
    ));
    assert!(matches!(
        check.on_reads(Err(GetsFault::Missing { at: 3 })),
        MetaCacheStep::Failed(MetaCacheFault::Gets(GetsFault::Missing { at: 3 }))
    ));
}

#[test]
fn a_shutdown_leaves_nothing_behind() {
    let check = judge_shutdown_reply;
    assert!(matches!(
        check(ShutdownReply::Put(Ok(()))),
        ShutdownStep::Confirm
    ));
    assert!(matches!(
        check(ShutdownReply::Put(Err(broken()))),
        ShutdownStep::Failed(ShutdownFault::Put(_))
    ));
    assert!(matches!(
        check(ShutdownReply::Confirm(Ok(true))),
        ShutdownStep::Replace
    ));
    assert!(matches!(
        check(ShutdownReply::Confirm(Ok(false))),
        ShutdownStep::Failed(ShutdownFault::NotFoundBefore)
    ));
    assert!(matches!(
        check(ShutdownReply::Confirm(Err(broken()))),
        ShutdownStep::Failed(ShutdownFault::GetBefore(_))
    ));
    assert!(matches!(
        check(ShutdownReply::Exists(Ok(false))),
        ShutdownStep::Get
    ));
    assert!(matches!(
        check(ShutdownReply::Exists(Ok(true))),
        ShutdownStep::ReadLeftover
    ));
    assert!(matches!(
        check(ShutdownReply::Exists(Err(broken()))),
        ShutdownStep::Failed(ShutdownFault::Exists(_))
    ));
    assert!(matches!(
        check(ShutdownReply::Leftover(Ok(true))),
        ShutdownStep::Failed(ShutdownFault::StillAccessible)
    ));
    assert!(matches!(
        check(ShutdownReply::Leftover(Ok(false))),
        ShutdownStep::Failed(ShutdownFault::PartialCleanup)
    ));
    assert!(matches!(
        check(ShutdownReply::Leftover(Err(broken()))),
        ShutdownStep::Failed(ShutdownFault::Inconsistent(_))
    ));
    assert!(matches!(
        check(ShutdownReply::Get(Ok(false))),
        ShutdownStep::Passed
    ));
    assert!(matches!(
        check(ShutdownReply::Get(Ok(true))),
        ShutdownStep::Failed(ShutdownFault::StillAccessible)
    ));
    assert!(matches!(
        check(ShutdownReply::Get(Err(broken()))),
        ShutdownStep::Failed(ShutdownFault::Unclear(_))
    ));
}

#[test]
fn a_message_is_polled_for_five_times() {
    let mut poll = CommunicationPoll::begin();
    assert_eq!(poll.on_get(&Ok(None)), PollStep::Again);
    assert_eq!(poll.on_get(&Err(broken())), PollStep::Again);
    assert_eq!(poll.on_get(&Ok(Some(()))), PollStep::Received);
    let mut poll = CommunicationPoll::begin();
    for _ in 0..4 {
        assert_eq!(poll.on_get(&Ok(None)), PollStep::Again);
    }
    assert_eq!(poll.on_get(&Ok(None)), PollStep::Failed);
}

#[test]
fn gets_of_a_gone_client_are_counted() {
    let tally = tally_persistence(&vec![
        Ok(Some(())),
        Ok(None),
        Err(broken()),
        Err(no_space()),
        Ok(Some(())),
    ]);
    assert_eq!(
        tally,
        PersistenceTally {
            found: 2,
            not_found: 1,
            errors: 2,
            no_space: 1
        }
    );
    assert!(!tally.passes());
    assert!(tally_persistence(&vec![Err(broken())]).passes());
    // The owner's own reads must not fail at all.
    assert!(!tally_persistence(&vec![Err(broken())]).passes_strictly());
    assert!(tally_persistence(&vec![Ok(None), Ok(Some(()))]).passes_strictly());
}

#[test]
fn a_round_fails_with_the_calls_that_others_rely_on() {
    let judge = |event| judge_round_event(event, b"hello");
    assert!(judge(RoundEvent::MessagePut(Ok(()))).is_none());
    assert!(matches!(
        judge(RoundEvent::MessagePut(Err(broken()))),
        Some(RoundFault::Put(_))
    ));
    assert!(matches!(
        judge(RoundEvent::PersistencePut(Err(no_space()))),
        Some(RoundFault::Put(KvError::Api(ApiError::NoSpace { .. })))
    ));
    assert!(judge(RoundEvent::OwnerRead(Ok(None))).is_none());
    assert!(matches!(
        judge(RoundEvent::OwnerRead(Err(broken()))),
        Some(RoundFault::Read(_))
    ));
    assert!(judge(RoundEvent::ReplicaRead(Ok(Some(b"hello".to_vec())))).is_none());
    assert!(matches!(
        judge(RoundEvent::ReplicaRead(Ok(Some(b"hullo".to_vec())))),
        Some(RoundFault::Mismatch)
    ));
    assert!(matches!(
        judge(RoundEvent::ReplicaRead(Ok(None))),
        Some(RoundFault::NotFound)
    ));
    assert!(matches!(
        judge(RoundEvent::ReplicaRead(Err(broken()))),
        Some(RoundFault::Read(_))
    ));
    assert!(judge(RoundEvent::SpecialRead(Err(broken()))).is_none());
    assert!(judge(RoundEvent::NewClientPut(Err(broken()))).is_none());
    assert!(judge(RoundEvent::Existence(Err(broken()))).is_none());
}

#[test]
fn a_key_without_replicas_fails_the_replica_check() {
    let board = TombBoard::new();
    assert_eq!(cross_owner_replicas(None, &board), Err(None));
    let route = OneKvNodesRoutes {
        put_id: PutIDForAKey::default(),
        lease_id: None,
        nodes_replicas: vec![],
        get_durable_slots_used: 0,
        route_id: 1,
    };
    assert_eq!(cross_owner_replicas(Some(&route), &board), Err(Some(0)));
}

#[test]
fn external_clients_wait_for_their_owner() {
    let judge = judge_recovery;
    assert!(judge(RecoveryEvent::StartedAlone(None), b"v").is_none());
    assert!(matches!(
        judge(RecoveryEvent::StartedAlone(Some(Ok(()))), b"v"),
        Some(RecoveryFault::StartedWithoutOwner)
    ));
    assert!(matches!(
        judge(RecoveryEvent::StartedAlone(Some(Err(()))), b"v"),
        Some(RecoveryFault::FailedWithoutOwner)
    ));
    assert!(judge(RecoveryEvent::PutWithoutOwner { ended: false }, b"v").is_none());
    assert!(matches!(
        judge(RecoveryEvent::PutWithoutOwner { ended: true }, b"v"),
        Some(RecoveryFault::PutDidNotWait)
    ));
    assert!(judge(RecoveryEvent::PutAfterRestart(Some(Ok(Err(broken())))), b"v").is_none());
    assert!(matches!(
        judge(RecoveryEvent::PutAfterRestart(None), b"v"),
        Some(RecoveryFault::PutDidNotEnd)
    ));
    assert!(matches!(
        judge(RecoveryEvent::PutAfterRestart(Some(Err(()))), b"v"),
        Some(RecoveryFault::TaskPanicked)
    ));
    assert!(judge(RecoveryEvent::Put(Ok(())), b"v").is_none());
    assert!(matches!(
        judge(RecoveryEvent::Put(Err(broken())), b"v"),
        Some(RecoveryFault::Put(_))
    ));
    assert!(judge(RecoveryEvent::Get(Ok(Some(b"v".to_vec()))), b"v").is_none());
    assert!(matches!(
        judge(RecoveryEvent::Get(Ok(Some(b"w".to_vec()))), b"v"),
        Some(RecoveryFault::Mismatch)
    ));
    assert!(matches!(
        judge(RecoveryEvent::Get(Ok(None)), b"v"),
        Some(RecoveryFault::Missing)
    ));
    assert!(matches!(
        judge(RecoveryEvent::Get(Err(broken())), b"v"),
        Some(RecoveryFault::Get(_))
    ));
    let done = judge_parallel(Ok(()), Ok(Some(b"v".to_vec())), b"v");
    assert!(judge(RecoveryEvent::InParallel(Ok(done)), b"v").is_none());
    let missing = judge_parallel(Ok(()), Ok(None), b"v");
    assert!(matches!(
        judge(RecoveryEvent::InParallel(Ok(missing)), b"v"),
        Some(RecoveryFault::ParallelTask(ParallelOutcome::Missing))
    ));
    assert!(matches!(
        judge_parallel(Ok(()), Ok(Some(b"w".to_vec())), b"v"),
        ParallelOutcome::Mismatch
    ));
    assert!(matches!(
        judge_parallel(Err(broken()), Ok(None), b"v"),
        ParallelOutcome::PutFailed(_)
    ));
    assert!(matches!(
        judge_parallel(Ok(()), Err(broken()), b"v"),
        ParallelOutcome::GetFailed(_)
    ));
    assert!(matches!(
        judge(RecoveryEvent::InParallel(Err(())), b"v"),
        Some(RecoveryFault::TaskPanicked)
    ));
}

#[test]
fn held_values_are_waited_for() {
    let judge = judge_holding;
    assert_eq!(judge(HoldingWait::Acquired, 4, 3, 0, false), HoldingStep::Reached);
    assert_eq!(judge(HoldingWait::Acquired, 5, 3, 0, false), HoldingStep::TooMany);
    assert_eq!(judge(HoldingWait::Acquired, 3, 3, 9, false), HoldingStep::Wait);
    assert_eq!(judge(HoldingWait::Acquired, 3, 3, 9, true), HoldingStep::TimedOut);
    assert_eq!(judge(HoldingWait::Released, 3, 3, 9, true), HoldingStep::Reached);
    assert_eq!(judge(HoldingWait::Released, 4, 3, 198, false), HoldingStep::Wait);
    assert_eq!(judge(HoldingWait::Released, 4, 3, 199, false), HoldingStep::TimedOut);
    assert_eq!(judge(HoldingWait::Left, 4, 3, 298, false), HoldingStep::Wait);
    assert_eq!(judge(HoldingWait::Left, 2, 3, 299, false), HoldingStep::TimedOut);
    assert_eq!(wait_node_allocators(1, true), AllocatorWait::Ready);
    assert_eq!(wait_node_allocators(0, false), AllocatorWait::Wait);
    assert_eq!(wait_node_allocators(0, true), AllocatorWait::TimedOut);
}

#[test]
fn external_clients_outlive_their_owner() {
    let judge = judge_lifetime;
    assert!(judge(LifetimeEvent::WithoutOwner { ended: false }, b"v").is_none());
    assert!(matches!(
        judge(LifetimeEvent::WithoutOwner { ended: true }, b"v"),
        Some(LifetimeFault::AnsweredWithoutOwner)
    ));
    assert!(judge(LifetimeEvent::BeforePut(Some(Ok(None))), b"v").is_none());
    assert!(matches!(
        judge(LifetimeEvent::BeforePut(Some(Ok(Some(vec![])))), b"v"),
        Some(LifetimeFault::FoundBeforePut)
    ));
    assert!(matches!(
        judge(LifetimeEvent::BeforePut(Some(Err(broken()))), b"v"),
        Some(LifetimeFault::Get(_))
    ));
    assert!(matches!(
        judge(LifetimeEvent::BeforePut(None), b"v"),
        Some(LifetimeFault::TimedOut)
    ));
    assert!(judge(LifetimeEvent::AfterPut(Ok(Some(b"v".to_vec()))), b"v").is_none());
    assert!(matches!(
        judge(LifetimeEvent::AfterPut(Ok(Some(vec![]))), b"v"),
        Some(LifetimeFault::Mismatch)
    ));
    assert!(matches!(
        judge(LifetimeEvent::AfterPut(Ok(None)), b"v"),
        Some(LifetimeFault::Missing)
    ));
    assert!(matches!(
        judge(LifetimeEvent::AfterPut(Err(broken())), b"v"),
        Some(LifetimeFault::Get(_))
    ));
}

#[test]
fn rounds_run_their_parts_in_order() {
    let all = plan_round(KvTestRoundProfile::RdmaTransferOnly, false, Some(2));
    assert_eq!(all.len(), 18);
    assert_eq!(all[0], RoundPart::StartMaster);
    assert_eq!(all[2], RoundPart::Shutdown { time: 1 });
    assert_eq!(all[9], RoundPart::DataLink);
    assert_eq!(all[13], RoundPart::SideTransferLanes);
    assert_eq!(all[16], RoundPart::CleanUp);
    assert_eq!(all[17], RoundPart::Recovery);
    let plain = plan_round(KvTestRoundProfile::P2pOnly, false, None);
    assert_eq!(plain.len(), 16);
    assert!(!plain.contains(&RoundPart::DataLink));
    assert_eq!(
        plan_round(KvTestRoundProfile::P2pOnly, true, Some(2)),
        vec![RoundPart::Recovery]
    );
}

#[test]
fn entries_are_numbered() {
    let entry = persistence_entry(7);
    assert_eq!(entry.key, "persistence_key_007");
    assert_eq!(entry.value, "persistence_value_007_from_client2");
    let entry = new_client_entry(10);
    assert_eq!(entry.key, "new_client_key_10");
    assert_eq!(entry.value, "new_client_value_10");
    let (entry, client) = parallel_entry(8, 3);
    assert_eq!(entry.key, "step8_parallel_key_8");
    assert_eq!(entry.value, "step8_parallel_value_8");
    assert_eq!(client, 2);
    let (entry, client) = crud_entry(0);
    assert_eq!((entry.key.as_str(), client), ("client1_unique_key1", 1));
    let (entry, client) = crud_entry(14);
    assert_eq!((entry.key.as_str(), client), ("client3_unique_key5", 3));
    assert_eq!(entry.value, "client3_test_value_data5");
    let (entry, client) = crud_entry(15);
    assert_eq!((entry.key.as_str(), client), ("client1_unique_key6", 1));
}

#[test]
fn small_clusters_are_configured() {
    let etcd = EtcdEndpoint {
        endpoint: "http://h:1".to_string(),
        host_port: etcd_host_port("http://h:1"),
    };
    assert_eq!(etcd.host_port, "h:1");
    assert_eq!(etcd_host_port("https://h:1"), "h:1");
    assert_eq!(etcd_host_port("h:1"), "h:1");
    let cluster = test_cluster_name("m");
    assert_eq!(cluster, "lease_test_cluster_m");
    let master = new_master_config_with_cluster("m", None, &cluster, "/w", &etcd);
    assert_eq!(master.log_dir, "/w/master_log");
    assert_eq!(master.port, None);
    let client = new_client_config_with_cluster_and_dram("c", &cluster, 5, "/w", &etcd);
    assert_eq!(client.share_mem_path, "/w/sharemem/c");
    assert_eq!(client.large_file_paths.paths, vec!["/w/large/c".to_string()]);
    assert_eq!(client.contribute_to_cluster_pool_size.dram, 5);
    assert_eq!(client.etcd_addresses_raw, vec!["h:1".to_string()]);
    let external = new_zero_contribution_client_config("o", &cluster, "/s", 9);
    assert_eq!(external.instance_key, "o__ext_9");
    assert_eq!(external.protocol.protocol_type, ProtocolType::Rdma);
    assert_eq!(external.share_mem_path, "/s");
    assert_eq!(external.large_file_paths.paths, vec!["/s_files".to_string()]);
}
