use fluxon_kv::config::{
    ClientConfig, ContributeToClusterPoolSize, FluxonKvSpec, LargeFilePaths, MasterConfig,
    ProtocolConfig, ProtocolType, SideTransferRole, TestSpecConfig, TestSpecTransportMode,
    TransferEngineType,
};
use fluxon_kv::node_plan::{plan_broker, plan_client, plan_master, ClientModules, RunTestOverrides};
use fluxon_kv::startup::{
    BrokerConfigError, ClientRole, ClusterManagerRdmaControlInit, StartupMetadataErrorOf,
    TransferBackendActivationMode,
};
use std::collections::HashMap;

fn config(dram: u64) -> ClientConfig {
    ClientConfig {
        cluster_name: "c".to_string(),
        etcd_addresses_raw: vec!["127.0.0.1:2379".to_string()],
        instance_key: "n".to_string(),
        contribute_to_cluster_pool_size: ContributeToClusterPoolSize {
            dram,
            vram: HashMap::new(),
        },
        protocol: ProtocolConfig {
            protocol_type: ProtocolType::Tcp,
            rdma_device_names: Some("mlx5_0".to_string()),
        },
        pprof_duration_seconds: None,
        redis_compat_listen_addr: None,
        fluxonkv_spec: FluxonKvSpec {
            etcd_addresses: vec!["http://127.0.0.1:2379".to_string()],
            cluster_name: "c".to_string(),
            p2p_listen_port: Some(41001),
            transfer_engine: TransferEngineType::P2p,
            enable_transfer_rpc_fast_path: true,
            sub_cluster: Some("sub".to_string()),
        },
        share_mem_path: "/shm".to_string(),
        large_file_paths: LargeFilePaths { paths: vec![] },
        test_spec_config: TestSpecConfig::default(),
    }
}

#[test]
fn an_owner_gives_memory_and_starts_side_workers() {
    let mut config = config(1);
    config.test_spec_config.side_transfer_worker_count = 2;
    let plan = plan_client(&config, "v1", Some("/tmp/x".to_string()), &vec![], None)
        .map_err(|e| e.message())
        .expect("planned");
    assert_eq!(plan.role, ClientRole::Owner);
    assert_eq!(plan.framework_name, "fluxon_kv.client.owner:c:n");
    assert!(plan.cluster_manager.metadata.is_true("client"));
    assert!(plan.cluster_manager.metadata.is_true("p2p_relay"));
    assert_eq!(plan.cluster_manager.local_ipc_root.as_deref(), Some("/tmp/x"));
    assert_eq!(plan.cluster_manager.sub_cluster.as_deref(), Some("sub"));
    assert_eq!(
        plan.cluster_manager.rdma_control_init,
        ClusterManagerRdmaControlInit::Disabled
    );
    assert_eq!(plan.p2p.listen_port, Some(41001));
    assert_eq!(plan.side_workers, 2);
    assert!(plan.awaits_fast_path && !plan.awaits_owner);
    match plan.modules {
        ClientModules::Owner {
            seg_pool,
            transfer_engine,
        } => {
            assert!(!seg_pool.attach_existing_meta);
            assert_eq!(transfer_engine.metadata_uri, "http://127.0.0.1:2379");
            assert_eq!(transfer_engine.rpc_port, 12345);
            assert_eq!(transfer_engine.rdma_device_names.as_deref(), Some("mlx5_0"));
            assert_eq!(
                transfer_engine.backend_activation_mode,
                TransferBackendActivationMode::RdmaControl
            );
        }
        ClientModules::External(_) => panic!("it gives memory"),
    }
}

#[test]
fn an_external_client_shares_memory() {
    let mut config = config(0);
    config.fluxonkv_spec.etcd_addresses.clear();
    config.test_spec_config.side_transfer_worker_count = 2;
    config.test_spec_config.short_circuit_put_payload_path = true;
    let entries = vec![("team".to_string(), "a".to_string())];
    let plan = plan_client(&config, "v1", None, &entries, None)
        .map_err(|e| e.message())
        .expect("planned");
    assert_eq!(plan.role, ClientRole::External);
    assert_eq!(
        plan.cluster_manager.metadata.get("team").map(|v| v.as_str()),
        Some("a")
    );
    assert_eq!(plan.side_workers, 0);
    assert!(!plan.awaits_fast_path && !plan.awaits_owner);
    match plan.modules {
        ClientModules::External(arg) => {
            assert_eq!(arg.shared_memory_path, "/shm");
            assert_eq!(arg.expected_cluster_name, "c");
            assert_eq!(arg.expected_protocol_version, "v1");
            assert!(arg.short_circuit_put_payload_path);
        }
        ClientModules::Owner { .. } => panic!("it gives no memory"),
    }
    let taken = vec![("version".to_string(), "v2".to_string())];
    assert!(matches!(
        plan_client(&config, "v1", None, &taken, None),
        Err(StartupMetadataErrorOf::ConflictsWithBuiltIn { ref key }) if key == "version"
    ));
}

#[test]
fn a_side_worker_attaches_to_its_owner() {
    let mut config = config(0);
    config.test_spec_config.side_transfer_role = Some(SideTransferRole::Worker);
    config.test_spec_config.transport_mode = Some(TestSpecTransportMode::TransferOnly);
    config.test_spec_config.rdma_device_names = Some(vec!["a".to_string(), "b".to_string()]);
    let plan = plan_client(&config, "v1", None, &vec![], None)
        .map_err(|e| e.message())
        .expect("planned");
    assert_eq!(plan.role, ClientRole::SideTransferWorker);
    assert!(plan.awaits_owner && !plan.awaits_fast_path);
    assert_eq!(
        plan.cluster_manager.rdma_control_init,
        ClusterManagerRdmaControlInit::LockedExplicitDevices(vec![
            "a".to_string(),
            "b".to_string()
        ])
    );
    match plan.modules {
        ClientModules::Owner {
            seg_pool,
            transfer_engine,
        } => {
            assert!(seg_pool.attach_existing_meta && seg_pool.side_transfer_worker);
            assert_eq!(transfer_engine.rdma_device_names.as_deref(), Some("a,b"));
            assert_eq!(
                transfer_engine.backend_activation_mode,
                TransferBackendActivationMode::TcpTestBypassRdmaControl
            );
        }
        ClientModules::External(_) => panic!("a side worker transfers"),
    }
    assert_eq!(
        plan_broker(&config, "v1", None, ("k".to_string(), "v".to_string()), None)
            .err()
            .expect("refused"),
        BrokerConfigError::SideTransferWorker
    );
}

#[test]
fn a_broker_is_an_external_client_with_a_mark() {
    let mark = || ("component".to_string(), "broker".to_string());
    let plan = plan_broker(&config(0), "v1", None, mark(), None).expect("planned");
    assert_eq!(plan.framework_name, "fluxon_kv.broker:c:n");
    assert!(plan.cluster_manager.metadata.is_true("external_client"));
    assert_eq!(
        plan.cluster_manager
            .metadata
            .get("component")
            .map(|v| v.as_str()),
        Some("broker")
    );
    assert_eq!(
        plan_broker(&config(1), "v1", None, mark(), None)
            .err()
            .expect("refused"),
        BrokerConfigError::GivesMemory
    );
}

fn master() -> MasterConfig {
    MasterConfig {
        cluster_name: "c".to_string(),
        instance_key: "m".to_string(),
        etcd_endpoints: vec!["http://127.0.0.1:2379".to_string()],
        port: Some(50051),
        protocol: ProtocolConfig {
            protocol_type: ProtocolType::Tcp,
            rdma_device_names: None,
        },
        transfer_engine: TransferEngineType::Closed,
        enable_transfer_rpc_fast_path: false,
        log_dir: "/var/log".to_string(),
        pprof_duration_seconds: None,
        test_spec_config: TestSpecConfig::default(),
    }
}

#[test]
fn a_master_publishes_how_nodes_are_observed() {
    let broadcast = || Some(("observe".to_string(), "{}".to_string()));
    let plan = plan_master(&master(), "v1", broadcast(), None);
    assert_eq!(plan.framework_name, "fluxon_kv.master:c:m");
    assert!(plan.cluster_manager.metadata.is_true("master"));
    assert!(plan.cluster_manager.metadata.get("observe").is_some());
    assert_eq!((plan.leases.cleanup_interval, plan.leases.default_ttl), (5, 30));
    assert_eq!(plan.logs_dir_name, "c_cluster_kv_logs");
    assert_eq!(plan.profiles_dir_name, "c_cluster_kv_profiles");
    let mut silent = master();
    silent.test_spec_config.disable_observability = true;
    silent.test_spec_config.disable_prefix_index = true;
    let plan = plan_master(
        &silent,
        "v1",
        broadcast(),
        Some(RunTestOverrides {
            rdma_control_init: ClusterManagerRdmaControlInit::ExplicitDevices(vec!["a".to_string()]),
            transfer_backend_activation_mode: Some(
                TransferBackendActivationMode::TestForceEnableBypassRdmaControl,
            ),
        }),
    );
    assert!(plan.cluster_manager.metadata.get("observe").is_none());
    assert!(plan.router.test_spec_config.disable_prefix_index);
    assert_eq!(
        plan.cluster_manager.rdma_control_init,
        ClusterManagerRdmaControlInit::ExplicitDevices(vec!["a".to_string()])
    );
    assert_eq!(
        plan.transfer_engine.backend_activation_mode,
        TransferBackendActivationMode::TestForceEnableBypassRdmaControl
    );
}
