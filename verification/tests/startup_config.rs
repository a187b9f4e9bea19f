use fluxon_kv::cluster_manager::Metadata;
use fluxon_kv::config::{
    ClientConfig, ContributeToClusterPoolSize, FluxonKvSpec, LargeFilePaths, ProtocolConfig,
    ProtocolType, SideTransferRole, TestSpecConfig, TestSpecTransportMode, TransferEngineType,
};
use fluxon_kv::side_workers::worker_config::{
    build_side_transfer_worker_config, build_side_transfer_worker_config_yaml,
    side_transfer_worker_instance_key, WorkerConfigError,
};
use fluxon_kv::startup::{
    broker_startup_metadata, check_broker_config, choose_rdma_control_init,
    choose_transfer_backend_activation_mode, client_framework_name, master_startup_metadata,
    merge_startup_member_metadata, startup_entry_fault,
    tcp_thread_transport_tuning_from_test_spec_config, test_spec_config_rdma_control_init,
    test_spec_config_transfer_backend_activation_mode,
    transfer_engine_rdma_device_names_from_config, BrokerConfigError, ClientRole,
    ClusterManagerRdmaControlInit, StartupMetadataErrorOf, TransferBackendActivationMode,
};
use std::collections::HashMap;

fn owner_config_for_side_transfer_test() -> ClientConfig {
    ClientConfig {
        cluster_name: "test_cluster".to_string(),
        etcd_addresses_raw: vec!["127.0.0.1:2379".to_string()],
        instance_key: "owner-a".to_string(),
        contribute_to_cluster_pool_size: ContributeToClusterPoolSize {
            dram: 64 * 1024 * 1024,
            vram: HashMap::new(),
        },
        protocol: ProtocolConfig {
            protocol_type: ProtocolType::Tcp,
            rdma_device_names: None,
        },
        pprof_duration_seconds: None,
        redis_compat_listen_addr: None,
        fluxonkv_spec: FluxonKvSpec {
            etcd_addresses: vec!["http://127.0.0.1:2379".to_string()],
            cluster_name: "test_cluster".to_string(),
            p2p_listen_port: Some(41000),
            transfer_engine: TransferEngineType::P2p,
            enable_transfer_rpc_fast_path: true,
            sub_cluster: Some("owner-sub".to_string()),
        },
        share_mem_path: "/tmp/fluxon_side_transfer_test".to_string(),
        large_file_paths: LargeFilePaths {
            paths: vec!["/tmp/fluxon_side_transfer_test_large".to_string()],
        },
        test_spec_config: TestSpecConfig {
            enable_side_transfer: true,
            side_transfer_worker_count: 4,
            side_transfer_worker_p2p_port_base: Some(42000),
            ..Default::default()
        },
    }
}

#[test]
fn test_spec_transport_mode_uses_protocol_agnostic_force_enable_activation() {
    let cfg = TestSpecConfig {
        transport_mode: Some(TestSpecTransportMode::TransferOnly),
        ..Default::default()
    };
    assert_eq!(
        test_spec_config_transfer_backend_activation_mode(
            &ProtocolConfig {
                protocol_type: ProtocolType::Tcp,
                rdma_device_names: None,
            },
            Some(&cfg),
        ),
        Some(TransferBackendActivationMode::TcpTestBypassRdmaControl)
    );
}

#[test]
fn test_spec_transport_mode_keeps_rdma_on_normal_rdma_control() {
    let cfg = TestSpecConfig {
        transport_mode: Some(TestSpecTransportMode::TransferWithRpc),
        rdma_device_names: Some(vec!["mlx5_1".to_string()]),
        ..Default::default()
    };
    assert_eq!(
        test_spec_config_transfer_backend_activation_mode(
            &ProtocolConfig {
                protocol_type: ProtocolType::Rdma,
                rdma_device_names: None,
            },
            Some(&cfg),
        ),
        None
    );
}

#[test]
fn test_spec_rdma_control_init_locks_explicit_devices() {
    let cfg = TestSpecConfig {
        transport_mode: Some(TestSpecTransportMode::TransferOnly),
        rdma_device_names: Some(vec!["mlx5_1".to_string(), "mlx5_0".to_string()]),
        ..Default::default()
    };
    assert_eq!(
        test_spec_config_rdma_control_init(Some(&cfg)),
        Some(ClusterManagerRdmaControlInit::LockedExplicitDevices(vec![
            "mlx5_1".to_string(),
            "mlx5_0".to_string(),
        ]))
    );
}

#[test]
fn rdma_control_init_without_devices_follows_the_transport_mode() {
    let transfer = TestSpecConfig {
        transport_mode: Some(TestSpecTransportMode::TransferWithRpc),
        ..Default::default()
    };
    assert_eq!(
        test_spec_config_rdma_control_init(Some(&transfer)),
        Some(ClusterManagerRdmaControlInit::Disabled)
    );
    assert_eq!(
        test_spec_config_rdma_control_init(Some(&TestSpecConfig::default())),
        None
    );
    assert_eq!(test_spec_config_rdma_control_init(None), None);
}

#[test]
fn overrides_come_before_test_settings_and_defaults() {
    let plain = TestSpecConfig::default();
    assert_eq!(
        choose_rdma_control_init(None, &plain),
        ClusterManagerRdmaControlInit::Disabled
    );
    assert_eq!(
        choose_rdma_control_init(
            Some(ClusterManagerRdmaControlInit::ExplicitDevices(vec![
                "mlx5_3".to_string()
            ])),
            &plain
        ),
        ClusterManagerRdmaControlInit::ExplicitDevices(vec!["mlx5_3".to_string()])
    );
    let tcp = ProtocolConfig {
        protocol_type: ProtocolType::Tcp,
        rdma_device_names: None,
    };
    assert_eq!(
        choose_transfer_backend_activation_mode(None, &tcp, &plain),
        TransferBackendActivationMode::RdmaControl
    );
    assert_eq!(
        choose_transfer_backend_activation_mode(
            Some(TransferBackendActivationMode::TestForceEnableBypassRdmaControl),
            &tcp,
            &plain
        ),
        TransferBackendActivationMode::TestForceEnableBypassRdmaControl
    );
}

#[test]
fn transfer_engine_rdma_device_names_prefers_test_spec_devices() {
    let protocol = ProtocolConfig {
        protocol_type: ProtocolType::Rdma,
        rdma_device_names: Some("mlx5_9:1".to_string()),
    };
    let cfg = TestSpecConfig {
        rdma_device_names: Some(vec!["mlx5_1".to_string(), "mlx5_0".to_string()]),
        ..Default::default()
    };
    assert_eq!(
        transfer_engine_rdma_device_names_from_config(&protocol, Some(&cfg)),
        Some("mlx5_1,mlx5_0".to_string())
    );
}

#[test]
fn transfer_engine_rdma_device_names_fall_back_to_the_protocol() {
    let protocol = ProtocolConfig {
        protocol_type: ProtocolType::Rdma,
        rdma_device_names: Some("mlx5_9:1".to_string()),
    };
    assert_eq!(
        transfer_engine_rdma_device_names_from_config(&protocol, Some(&TestSpecConfig::default())),
        Some("mlx5_9:1".to_string())
    );
    assert_eq!(
        transfer_engine_rdma_device_names_from_config(&protocol, None),
        Some("mlx5_9:1".to_string())
    );
}

#[test]
fn build_side_transfer_worker_config_sets_zero_contribution_and_worker_role() {
    let mut owner_cfg = owner_config_for_side_transfer_test();
    owner_cfg.protocol = ProtocolConfig {
        protocol_type: ProtocolType::Rdma,
        rdma_device_names: Some("mlx5_2:1".to_string()),
    };
    owner_cfg.fluxonkv_spec.transfer_engine = TransferEngineType::Closed;
    owner_cfg.fluxonkv_spec.enable_transfer_rpc_fast_path = true;
    owner_cfg.test_spec_config.transport_mode = Some(TestSpecTransportMode::TransferWithRpc);
    owner_cfg.test_spec_config.rdma_device_names = Some(vec!["mlx5_2".to_string()]);
    let side_cfg =
        build_side_transfer_worker_config(&owner_cfg, 2).expect("build side worker config");

    assert_eq!(side_cfg.instance_key, "owner-a__side_2");
    assert_eq!(side_cfg.contribute_to_cluster_pool_size.dram, 0);
    assert!(side_cfg.contribute_to_cluster_pool_size.vram.is_empty());
    assert_eq!(side_cfg.protocol.protocol_type, ProtocolType::Tcp);
    assert_eq!(side_cfg.protocol.rdma_device_names, None);
    assert_eq!(side_cfg.fluxonkv_spec.etcd_addresses, Vec::<String>::new());
    assert_eq!(side_cfg.fluxonkv_spec.sub_cluster, None);
    assert_eq!(side_cfg.fluxonkv_spec.p2p_listen_port, Some(42002));
    assert_eq!(
        side_cfg.fluxonkv_spec.transfer_engine,
        TransferEngineType::P2p
    );
    assert!(!side_cfg.fluxonkv_spec.enable_transfer_rpc_fast_path);
    assert_eq!(
        side_cfg.test_spec_config.side_transfer_role,
        Some(SideTransferRole::Worker)
    );
    assert_eq!(side_cfg.test_spec_config.side_transfer_worker_count, 0);
    assert_eq!(
        side_cfg.test_spec_config.side_transfer_worker_p2p_port_base,
        None
    );
    assert_eq!(side_cfg.test_spec_config.transport_mode, None);
    assert_eq!(side_cfg.test_spec_config.rdma_device_names, None);
    assert!(side_cfg.test_spec_config.enable_side_transfer);
    assert!(!side_cfg.test_spec_config.disable_local_ipc);
}

#[test]
fn build_side_transfer_worker_config_allows_auto_port_selection() {
    let mut owner_cfg = owner_config_for_side_transfer_test();
    owner_cfg
        .test_spec_config
        .side_transfer_worker_p2p_port_base = None;

    let side_cfg =
        build_side_transfer_worker_config(&owner_cfg, 2).expect("build side worker config");

    assert_eq!(side_cfg.instance_key, "owner-a__side_2");
    assert_eq!(side_cfg.fluxonkv_spec.p2p_listen_port, None);
    assert_eq!(
        side_cfg.fluxonkv_spec.transfer_engine,
        TransferEngineType::P2p
    );
    assert!(!side_cfg.fluxonkv_spec.enable_transfer_rpc_fast_path);
    assert_eq!(
        side_cfg.test_spec_config.side_transfer_role,
        Some(SideTransferRole::Worker)
    );
    assert_eq!(side_cfg.test_spec_config.side_transfer_worker_count, 0);
    assert_eq!(
        side_cfg.test_spec_config.side_transfer_worker_p2p_port_base,
        None
    );
    assert!(side_cfg.test_spec_config.enable_side_transfer);
}

#[test]
fn build_side_transfer_worker_config_preserves_test_local_ipc_override() {
    let mut owner_cfg = owner_config_for_side_transfer_test();
    owner_cfg.test_spec_config.disable_local_ipc = true;

    let side_cfg =
        build_side_transfer_worker_config(&owner_cfg, 1).expect("build side worker config");

    assert!(side_cfg.test_spec_config.disable_local_ipc);
}

#[test]
fn build_side_transfer_worker_config_yaml_omits_owner_only_fields() {
    let owner_cfg = owner_config_for_side_transfer_test();
    let side_cfg_yaml = build_side_transfer_worker_config_yaml(&owner_cfg, 1)
        .expect("build side worker config yaml");

    assert_eq!(side_cfg_yaml.instance_key, "owner-a__side_1");
    assert_eq!(
        side_cfg_yaml.protocol,
        Some(ProtocolConfig {
            protocol_type: ProtocolType::Tcp,
            rdma_device_names: None,
        })
    );
    assert!(side_cfg_yaml.contribute_to_cluster_pool_size.is_none());
    assert!(side_cfg_yaml.fluxonkv_spec.etcd_addresses.is_none());
    assert!(side_cfg_yaml.fluxonkv_spec.large_file_paths.is_none());
    assert!(side_cfg_yaml.fluxonkv_spec.sub_cluster.is_none());
    assert_eq!(side_cfg_yaml.fluxonkv_spec.p2p_listen_port, Some(42001));
    assert_eq!(
        side_cfg_yaml.test_spec_config.side_transfer_role,
        Some(SideTransferRole::Worker)
    );
}

#[test]
fn a_worker_port_beyond_the_last_port_is_refused() {
    let mut owner_cfg = owner_config_for_side_transfer_test();
    owner_cfg
        .test_spec_config
        .side_transfer_worker_p2p_port_base = Some(65534);
    assert_eq!(
        build_side_transfer_worker_config(&owner_cfg, 1)
            .expect("last port")
            .fluxonkv_spec
            .p2p_listen_port,
        Some(65535)
    );
    assert!(matches!(
        build_side_transfer_worker_config(&owner_cfg, 2),
        Err(WorkerConfigError::PortOverflow)
    ));
    assert!(matches!(
        build_side_transfer_worker_config_yaml(&owner_cfg, 2),
        Err(WorkerConfigError::PortOverflow)
    ));
}

#[test]
fn worker_ids_differ_by_index() {
    assert_eq!(side_transfer_worker_instance_key("o", 0), "o__side_0");
    assert_eq!(side_transfer_worker_instance_key("o", 12), "o__side_12");
    assert_eq!(side_transfer_worker_instance_key("o", 65535), "o__side_65535");
}

#[test]
fn roles_follow_memory_and_side_transfer_role() {
    let mut config = owner_config_for_side_transfer_test();
    assert_eq!(ClientRole::from_config(&config), ClientRole::Owner);
    config.contribute_to_cluster_pool_size.dram = 0;
    assert_eq!(ClientRole::from_config(&config), ClientRole::External);
    config.contribute_to_cluster_pool_size.vram.insert(0, 0);
    assert_eq!(ClientRole::from_config(&config), ClientRole::External);
    config.test_spec_config.side_transfer_role = Some(SideTransferRole::Worker);
    assert_eq!(
        ClientRole::from_config(&config),
        ClientRole::SideTransferWorker
    );
    config.contribute_to_cluster_pool_size.vram.insert(1, 4096);
    assert_eq!(ClientRole::from_config(&config), ClientRole::Owner);
}

#[test]
fn a_worker_config_runs_as_side_worker() {
    let owner = owner_config_for_side_transfer_test();
    let side = build_side_transfer_worker_config(&owner, 0).expect("worker");
    assert_eq!(
        ClientRole::from_config(&side),
        ClientRole::SideTransferWorker
    );
    assert_eq!(
        client_framework_name(
            &ClientRole::from_config(&side),
            &side.cluster_name,
            &side.instance_key
        ),
        "fluxon_kv.client.side_transfer_worker:test_cluster:owner-a__side_0"
    );
}

fn value<'a>(metadata: &'a Metadata, key: &str) -> Option<&'a str> {
    metadata.get(key).map(|v| v.as_str())
}

#[test]
fn startup_metadata_says_role_and_version() {
    let owner = ClientRole::Owner.startup_metadata("v1");
    assert_eq!(value(&owner, "client"), Some("true"));
    assert_eq!(value(&owner, "version"), Some("v1"));
    assert_eq!(value(&owner, "p2p_relay"), Some("true"));
    assert_eq!(value(&owner, "external_client"), None);

    let external = ClientRole::External.startup_metadata("v1");
    assert_eq!(value(&external, "external_client"), Some("true"));
    assert_eq!(value(&external, "client"), None);
    assert_eq!(value(&external, "p2p_relay"), None);
    assert_eq!(value(&external, "side_transfer_worker"), None);

    let worker = ClientRole::SideTransferWorker.startup_metadata("v1");
    assert_eq!(value(&worker, "external_client"), Some("true"));
    assert_eq!(value(&worker, "side_transfer_worker"), Some("true"));

    let master = master_startup_metadata("v1", Some(("observe".to_string(), "{}".to_string())));
    assert_eq!(value(&master, "master"), Some("true"));
    assert_eq!(value(&master, "observe"), Some("{}"));

    let broker = broker_startup_metadata("v1", ("component".to_string(), "broker".to_string()));
    assert_eq!(value(&broker, "external_client"), Some("true"));
    assert_eq!(value(&broker, "component"), Some("broker"));
    assert_eq!(value(&broker, "version"), Some("v1"));
}

#[test]
fn brokers_are_external_clients() {
    let mut config = owner_config_for_side_transfer_test();
    assert_eq!(
        check_broker_config(&config),
        Err(BrokerConfigError::GivesMemory)
    );
    config.contribute_to_cluster_pool_size.dram = 0;
    assert_eq!(check_broker_config(&config), Ok(()));
    config.test_spec_config.side_transfer_role = Some(SideTransferRole::Worker);
    assert_eq!(
        check_broker_config(&config),
        Err(BrokerConfigError::SideTransferWorker)
    );
}

fn pairs(entries: &[(&str, &str)]) -> Vec<(String, String)> {
    entries
        .iter()
        .map(|(k, v)| (k.to_string(), v.to_string()))
        .collect()
}

#[test]
fn added_metadata_is_merged_and_built_in_metadata_kept() {
    let mut metadata = ClientRole::External.startup_metadata("v1");
    merge_startup_member_metadata(&mut metadata, &pairs(&[("zone", "a"), ("rack", "7")]))
        .map_err(|e| e.message())
        .expect("merge");
    assert_eq!(value(&metadata, "zone"), Some("a"));
    assert_eq!(value(&metadata, "rack"), Some("7"));
    assert_eq!(value(&metadata, "version"), Some("v1"));
}

#[test]
fn faulty_metadata_is_refused() {
    let mut metadata = ClientRole::External.startup_metadata("v1");
    let empty_key = merge_startup_member_metadata(&mut metadata, &pairs(&[(" \t", "x")]));
    assert_eq!(
        empty_key.err().expect("refused").message(),
        "startup member metadata key must be non-empty"
    );
    let empty_value = merge_startup_member_metadata(&mut metadata, &pairs(&[("zone", "  ")]));
    assert_eq!(
        empty_value.err().expect("refused").message(),
        "startup member metadata value must be non-empty: key=zone"
    );
    let conflict =
        merge_startup_member_metadata(&mut metadata, &pairs(&[("rack", "1"), ("version", "v2")]));
    assert_eq!(
        conflict.err().expect("refused").message(),
        "startup member metadata key conflicts with built-in metadata: key=version"
    );
    assert_eq!(value(&metadata, "version"), Some("v1"));
    assert_eq!(value(&metadata, "rack"), Some("1"));
    assert!(matches!(
        startup_entry_fault("k", false, false, true),
        Some(StartupMetadataErrorOf::ConflictsWithBuiltIn { .. })
    ));
    assert!(startup_entry_fault("k", false, false, false).is_none());
}

#[test]
fn tcp_tuning_is_copied() {
    let cfg = TestSpecConfig {
        tcp_thread_reactor_shard_count: Some(2),
        tcp_thread_bulk_lane_count: Some(3),
        ..Default::default()
    };
    let tuning = tcp_thread_transport_tuning_from_test_spec_config(&cfg);
    assert_eq!(tuning.reactor_shard_count, Some(2));
    assert_eq!(tuning.bulk_lane_count, Some(3));
    assert_eq!(tuning.control_lane_count, None);
    let switches = TestSpecConfig {
        skip_put_end_commit: true,
        ..Default::default()
    }
    .master_switches();
    assert!(switches.skip_put_end_commit);
    assert!(!switches.disable_prefix_index);
}
