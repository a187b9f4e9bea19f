use fluxon_kv::config::{
    ContributeToClusterPoolSize, ProtocolType, TestSpecTransportMode, TransferEngineType,
};
use fluxon_kv::error::{ApiError, KvError};
use fluxon_kv::kv_test::probes::{
    build_transfer_data_probe_attempt, build_transfer_data_probe_value, transfer_link_is_closed,
    transfer_link_te_key, verify_external_side_transfer_lane_mapping,
    verify_rdma_transfer_data_link, DataLinkEvent, DataLinkFault, DataLinkStep, LaneProbeStep,
    LaneProbeTrace, LaneProbeWait, ProbeCall,
};
use fluxon_kv::kv_test::rounds::{
    apply_kv_test_owner_side_transfer_overrides, build_client_launch,
    default_external_test_client_options, default_kv_test_run_options,
    default_master_test_client_options, default_owner_test_client_options,
    external_client_options, new_client_launch, new_external_client_launch, new_kv_test_round,
    new_master_launch, EtcdEndpoint, KvTestClientOptions, KvTestEtcdMode, KvTestRoundProfile,
    RoundsError,
};
use fluxon_kv::kv_test::{
    kv_test_only_step8, kv_test_rdma_device_names_override, kv_test_run_scope,
    kv_test_side_transfer_worker_count, kv_test_side_transfer_worker_p2p_port_base, SettingError,
};
use fluxon_kv::startup::{ClusterManagerRdmaControlInit, TransferBackendActivationMode};
use std::collections::HashMap;

fn nothing() -> KvTestClientOptions {
    KvTestClientOptions {
        protocol_config: None,
        transfer_engine: None,
        rdma_control_init: None,
        transfer_backend_activation_mode: None,
        enable_transfer_rpc_fast_path: None,
        contribute_to_cluster_pool_size: None,
        shared_memory_path: None,
        shared_file_path: None,
        etcd_mode: None,
    }
}

fn etcd() -> EtcdEndpoint {
    EtcdEndpoint {
        endpoint: "http://127.0.0.1:2379".to_string(),
        host_port: "127.0.0.1:2379".to_string(),
    }
}

#[test]
fn a_run_has_a_name_of_plain_characters() {
    assert_eq!(kv_test_run_scope(Some("ci/run 7_a-b"), 1, 2), "ci_run_7_a-b");
    assert_eq!(kv_test_run_scope(Some("  "), 12, 345), "pid12_ts345");
    assert_eq!(kv_test_run_scope(None, 12, 345), "pid12_ts345");
    assert_eq!(kv_test_run_scope(Some("\u{e9}"), 1, 2), "_");
}

#[test]
fn devices_are_listed_once_in_order() {
    assert_eq!(
        kv_test_rdma_device_names_override(Some(" mlx5_1, ,mlx5_0,mlx5_1 ")),
        Some(vec!["mlx5_1".to_string(), "mlx5_0".to_string()])
    );
    assert_eq!(kv_test_rdma_device_names_override(Some(" , ")), None);
    assert_eq!(kv_test_rdma_device_names_override(None), None);
}

#[test]
fn worker_settings_are_read() {
    assert_eq!(kv_test_side_transfer_worker_count(None), Ok(None));
    assert_eq!(kv_test_side_transfer_worker_count(Some(" ")), Ok(None));
    assert_eq!(kv_test_side_transfer_worker_count(Some(" 0")), Ok(None));
    assert_eq!(kv_test_side_transfer_worker_count(Some("4 ")), Ok(Some(4)));
    assert_eq!(
        kv_test_side_transfer_worker_count(Some("many")),
        Err(SettingError::NotANumber)
    );
    assert_eq!(kv_test_side_transfer_worker_p2p_port_base(None, 4), Ok(None));
    assert_eq!(
        kv_test_side_transfer_worker_p2p_port_base(Some("65532"), 4),
        Ok(Some(65532))
    );
    assert_eq!(
        kv_test_side_transfer_worker_p2p_port_base(Some("65533"), 4),
        Err(SettingError::PortOverflow)
    );
    assert_eq!(
        kv_test_side_transfer_worker_p2p_port_base(Some(""), 4),
        Err(SettingError::Empty)
    );
}

#[test]
fn probe_values_repeat_their_pattern() {
    let value = build_transfer_data_probe_value("t");
    let pattern = b"kv_test_transfer_data_probe:t:";
    assert_eq!(value.len(), 256 * 1024);
    assert!(value
        .iter()
        .enumerate()
        .all(|(i, b)| *b == pattern[i % pattern.len()]));
    let (key, value) = build_transfer_data_probe_attempt("p", "t", 3);
    assert_eq!(key, "p__attempt_3");
    assert!(value.starts_with(b"kv_test_transfer_data_probe:t:attempt:3:kv_test"));
}

fn trace() -> LaneProbeTrace {
    LaneProbeTrace {
        owner_put_transfer_peer_id: Some("owner__side_1".to_string()),
        external_side_transfer_peer_id: Some("local__side_1".to_string()),
        external_side_transfer_lane_idx: Some(1),
        local_side_lane: Some(9),
        remote_lane: Some(1),
    }
}

#[test]
fn lanes_have_to_agree() {
    let verify = verify_external_side_transfer_lane_mapping;
    assert_eq!(
        verify(&trace(), "owner", false),
        LaneProbeStep::Verified { lane: 1 }
    );
    let mut t = trace();
    t.remote_lane = Some(2);
    assert_eq!(
        verify(&t, "owner", false),
        LaneProbeStep::Retry(LaneProbeWait::LaneAlignment)
    );
    assert_eq!(
        verify(&t, "owner", true),
        LaneProbeStep::TimedOut(LaneProbeWait::LaneAlignment)
    );
    let mut t = trace();
    t.remote_lane = None;
    assert_eq!(
        verify(&t, "owner", false),
        LaneProbeStep::Retry(LaneProbeWait::RemoteLane)
    );
    let mut t = trace();
    t.owner_put_transfer_peer_id = Some("owner".to_string());
    assert_eq!(
        verify(&t, "owner", false),
        LaneProbeStep::Retry(LaneProbeWait::RemoteSideWorker)
    );
    let mut t = trace();
    t.external_side_transfer_lane_idx = None;
    t.local_side_lane = Some(1);
    assert_eq!(
        verify(&t, "owner", false),
        LaneProbeStep::Verified { lane: 1 }
    );
    t.local_side_lane = None;
    assert_eq!(
        verify(&t, "owner", false),
        LaneProbeStep::Retry(LaneProbeWait::LocalLane)
    );
    let mut t = trace();
    t.external_side_transfer_peer_id = None;
    assert_eq!(
        verify(&t, "owner", false),
        LaneProbeStep::Retry(LaneProbeWait::LocalSide)
    );
    assert_eq!(
        verify(&trace(), "other", false),
        LaneProbeStep::Retry(LaneProbeWait::OwnerNamespace)
    );
    let mut t = trace();
    t.owner_put_transfer_peer_id = None;
    assert_eq!(
        verify(&t, "owner", false),
        LaneProbeStep::Retry(LaneProbeWait::RemotePeer)
    );
}

#[test]
fn a_link_is_closed_by_one_of_its_tokens() {
    assert!(transfer_link_is_closed("tcp+ closed "));
    assert!(!transfer_link_is_closed("tcp+closed_soon"));
    assert!(!transfer_link_is_closed(""));
}

fn broken() -> KvError {
    KvError::Api(ApiError::Unknown {
        detail: "broken".to_string(),
    })
}

#[test]
fn a_data_link_is_probed_until_it_is_closed() {
    let verify = verify_rdma_transfer_data_link;
    assert_eq!(
        transfer_link_te_key("c", "from", "to"),
        "/c/transfer_link/te/from/to"
    );
    let put = DataLinkEvent::Put(ProbeCall::Answered(()));
    assert!(matches!(verify(put, b"v", true), DataLinkStep::Get));
    let put = DataLinkEvent::Put(ProbeCall::Failed(broken()));
    assert!(matches!(
        verify(put, b"v", false),
        DataLinkStep::Retry(DataLinkFault::PutFailed(_))
    ));
    let put = DataLinkEvent::Put(ProbeCall::TimedOut);
    assert!(matches!(
        verify(put, b"v", true),
        DataLinkStep::Failed(DataLinkFault::PutTimedOut)
    ));
    let get = DataLinkEvent::Get(ProbeCall::Answered(Some(b"v".to_vec())));
    assert!(matches!(verify(get, b"v", true), DataLinkStep::FetchLink));
    let get = DataLinkEvent::Get(ProbeCall::Answered(Some(b"w".to_vec())));
    assert!(matches!(
        verify(get, b"v", false),
        DataLinkStep::Failed(DataLinkFault::PayloadMismatch)
    ));
    let get = DataLinkEvent::Get(ProbeCall::Answered(None));
    assert!(matches!(
        verify(get, b"v", false),
        DataLinkStep::Retry(DataLinkFault::GetReturnedNone)
    ));
    let get = DataLinkEvent::Get(ProbeCall::TimedOut);
    assert!(matches!(
        verify(get, b"v", false),
        DataLinkStep::Retry(DataLinkFault::GetTimedOut)
    ));
    let get = DataLinkEvent::Get(ProbeCall::Failed(broken()));
    assert!(matches!(
        verify(get, b"v", true),
        DataLinkStep::Failed(DataLinkFault::GetFailed(_))
    ));
    let link = DataLinkEvent::Link(Ok(Some("rdma+closed".to_string())));
    assert!(matches!(verify(link, b"v", true), DataLinkStep::Verified));
    let link = DataLinkEvent::Link(Ok(Some("rdma".to_string())));
    assert!(matches!(
        verify(link, b"v", false),
        DataLinkStep::Retry(DataLinkFault::LinkNotClosed { ref link }) if link == "rdma"
    ));
    let link = DataLinkEvent::Link(Ok(None));
    assert!(matches!(
        verify(link, b"v", true),
        DataLinkStep::Failed(DataLinkFault::NoLink)
    ));
    let link = DataLinkEvent::Link(Err("no etcd".to_string()));
    assert!(matches!(
        verify(link, b"v", false),
        DataLinkStep::Failed(DataLinkFault::LinkNotRead { .. })
    ));
}

#[test]
fn rounds_are_chosen_by_name() {
    let all = default_kv_test_run_options(None, true, "run").expect("all");
    let profiles: Vec<KvTestRoundProfile> = all.iter().map(|r| r.round_profile).collect();
    assert_eq!(
        profiles,
        vec![
            KvTestRoundProfile::P2pOnly,
            KvTestRoundProfile::RdmaTransferOnly,
            KvTestRoundProfile::RdmaTransferWithRpc,
        ]
    );
    let ports: Vec<u16> = all.iter().map(|r| r.master_port).collect();
    assert_eq!(ports, vec![50220, 50240, 50260]);
    let two = default_kv_test_run_options(Some("rdma_transfer_with_rpc, p2p_only"), true, "run")
        .expect("two");
    assert_eq!(two.len(), 2);
    assert_eq!(two[0].round_profile, KvTestRoundProfile::RdmaTransferWithRpc);
    assert_eq!(two[1].cluster_name, "test_cluster_p2p_only_run");
    assert!(matches!(
        default_kv_test_run_options(Some("p2p_only,p3p"), true, "run"),
        Err(RoundsError::Unsupported { ref name }) if name == "p3p"
    ));
    assert!(matches!(
        default_kv_test_run_options(Some("p2p_only,rdma_transfer_only,p3p"), false, "run"),
        Err(RoundsError::NoDevices)
    ));
    assert!(matches!(
        default_kv_test_run_options(None, false, "run"),
        Err(RoundsError::NoDevices)
    ));
    assert!(default_kv_test_run_options(Some("p2p_only"), false, "run").is_ok());
    assert!(matches!(
        default_kv_test_run_options(Some(" ,"), true, "run"),
        Err(RoundsError::Nothing)
    ));
}

#[test]
fn rounds_keep_to_themselves() {
    let round = new_kv_test_round(KvTestRoundProfile::P2pOnly, 50220, "run");
    assert_eq!(round.cluster_name, "test_cluster_p2p_only_run");
    assert_eq!(round.step8_master_port, 50230);
    assert_eq!(round.scoped_instance_key("m"), "p2p_only_run_m");
    assert_eq!(
        round.step8_shared_memory_path(),
        "/tmp/kvcache_shared_memory_step8_p2p_only_run"
    );
    assert_eq!(
        round.step8_shared_file_path(),
        "/tmp/kvcache_shared_files_step8_p2p_only_run"
    );
}

#[test]
fn profiles_set_the_transport() {
    let devices = vec!["mlx5_0".to_string(), "mlx5_1".to_string()];
    let rdma = KvTestRoundProfile::RdmaTransferWithRpc;
    assert_eq!(rdma.transfer_engine(), TransferEngineType::Closed);
    assert_eq!(
        rdma.protocol_config(&devices).rdma_device_names.as_deref(),
        Some("mlx5_0,mlx5_1")
    );
    assert_eq!(
        rdma.rdma_control_init(&devices),
        ClusterManagerRdmaControlInit::ExplicitDevices(devices.clone())
    );
    assert_eq!(
        rdma.transfer_backend_activation_mode(),
        Some(TransferBackendActivationMode::TestForceEnableBypassRdmaControl)
    );
    assert_eq!(
        rdma.test_spec_config(&devices).transport_mode,
        Some(TestSpecTransportMode::TransferWithRpc)
    );
    let p2p = KvTestRoundProfile::P2pOnly;
    assert_eq!(p2p.protocol_config(&devices).protocol_type, ProtocolType::Tcp);
    assert_eq!(p2p.transfer_backend_activation_mode(), None);
    assert!(p2p.test_spec_config(&devices).rdma_device_names.is_none());
    let owner = default_owner_test_client_options(p2p, &devices);
    assert_eq!(owner.enable_transfer_rpc_fast_path, Some(false));
    assert_eq!(
        owner.contribute_to_cluster_pool_size.expect("size").dram,
        160 * 1024 * 1024
    );
}

#[test]
fn overrides_replace_options() {
    let mut overrides = nothing();
    overrides.shared_memory_path = Some("/m".to_string());
    overrides.transfer_engine = Some(TransferEngineType::Closed);
    let merged = default_external_test_client_options().merged_with(overrides);
    assert_eq!(merged.shared_memory_path.as_deref(), Some("/m"));
    assert_eq!(merged.transfer_engine, Some(TransferEngineType::Closed));
    assert_eq!(merged.etcd_mode, Some(KvTestEtcdMode::Disabled));
}

#[test]
fn launches_follow_their_options() {
    let devices = vec![];
    let round = new_kv_test_round(KvTestRoundProfile::P2pOnly, 50220, "run");
    let owner = build_client_launch(
        &round,
        &devices,
        "k",
        default_owner_test_client_options(KvTestRoundProfile::P2pOnly, &devices),
        &etcd(),
    );
    assert_eq!(owner.config.share_mem_path, "/tmp/kvcache_shared_memory/k");
    assert_eq!(
        owner.config.fluxonkv_spec.etcd_addresses,
        vec!["http://127.0.0.1:2379".to_string()]
    );
    assert_eq!(owner.rdma_control_init, ClusterManagerRdmaControlInit::Disabled);

    let mut bare = nothing();
    bare.contribute_to_cluster_pool_size = Some(ContributeToClusterPoolSize {
        dram: 5,
        vram: HashMap::new(),
    });
    let options = external_client_options(nothing(), bare, "owner_key");
    assert_eq!(options.transfer_engine, Some(TransferEngineType::P2p));
    assert_eq!(
        options.shared_memory_path.as_deref(),
        Some("/tmp/kvcache_shared_memory/owner_key")
    );
    let external = build_client_launch(
        &round,
        &devices,
        "x",
        options,
        &etcd(),
    );
    assert!(external.config.etcd_addresses_raw.is_empty());
    assert_eq!(external.config.contribute_to_cluster_pool_size.dram, 5);
    assert_eq!(
        external.config.large_file_paths.paths,
        vec!["/tmp/kvcache_shared_files/owner_key".to_string()]
    );

    let mut config = owner.config;
    apply_kv_test_owner_side_transfer_overrides(&mut config, None, Some(1));
    assert!(!config.test_spec_config.enable_side_transfer);
    apply_kv_test_owner_side_transfer_overrides(&mut config, Some(4), Some(42000));
    assert!(config.test_spec_config.enable_side_transfer);
    assert_eq!(config.test_spec_config.side_transfer_worker_count, 4);
    assert_eq!(
        config.test_spec_config.side_transfer_worker_p2p_port_base,
        Some(42000)
    );
}

#[test]
fn launches_of_a_round_follow_its_profile() {
    let devices = vec!["mlx5_0".to_string()];
    let round = new_kv_test_round(KvTestRoundProfile::RdmaTransferOnly, 50240, "run");
    let master = new_master_launch(&round, &devices, "m", 50240, &etcd(), "/log");
    assert_eq!(master.config.instance_key, "rdma_transfer_only_run_m");
    assert_eq!(master.config.port, Some(50240));
    assert_eq!(master.config.transfer_engine, TransferEngineType::Closed);
    assert!(!master.config.enable_transfer_rpc_fast_path);
    assert_eq!(master.config.log_dir, "/log");
    assert_eq!(
        master.rdma_control_init,
        ClusterManagerRdmaControlInit::ExplicitDevices(devices.clone())
    );
    assert_eq!(
        default_master_test_client_options(round.round_profile, &devices).etcd_mode,
        None
    );

    let owner = new_client_launch(
        &round,
        &devices,
        "o",
        nothing(),
        &etcd(),
        Some(2),
        Some(41000),
    );
    assert_eq!(owner.config.instance_key, "rdma_transfer_only_run_o");
    assert_eq!(owner.config.cluster_name, "test_cluster_rdma_transfer_only_run");
    assert_eq!(owner.config.test_spec_config.side_transfer_worker_count, 2);
    assert_eq!(
        owner.config.test_spec_config.transport_mode,
        Some(TestSpecTransportMode::TransferOnly)
    );
    assert_eq!(
        owner.transfer_backend_activation_mode,
        Some(TransferBackendActivationMode::TestForceEnableBypassRdmaControl)
    );

    let external = new_external_client_launch(&round, &devices, "x", "o", nothing(), &etcd());
    assert_eq!(external.config.instance_key, "rdma_transfer_only_run_x");
    assert_eq!(
        external.config.share_mem_path,
        "/tmp/kvcache_shared_memory/rdma_transfer_only_run_o"
    );
    assert!(external.config.etcd_addresses_raw.is_empty());
    assert_eq!(external.config.contribute_to_cluster_pool_size.dram, 0);
    assert_eq!(external.config.protocol.protocol_type, ProtocolType::Tcp);
    assert_eq!(external.transfer_backend_activation_mode, None);
}

#[test]
fn a_round_can_be_cut_to_its_last_part() {
    assert!(kv_test_only_step8(Some("YES")));
    assert!(!kv_test_only_step8(Some("no")));
    assert!(!kv_test_only_step8(None));
}
