use fluxon_kv::bootstrap::{
    bootstrap_zero_contribution_client_config, external_bootstrap_bundle_ready,
    load_external_bootstrap_metadata, BootstrapInput, BootstrapWait,
};
use fluxon_kv::cluster_manager::Metadata;
use fluxon_kv::config::{
    ClientConfig, ContributeToClusterPoolSize, FluxonKvSpec, LargeFilePaths, ProtocolConfig,
    ProtocolType, TestSpecConfig, TransferEngineType,
};
use fluxon_kv::error::{ConfigErrorOf, KvErrorOf};
use fluxon_kv::external_client_api::owner::SharedJsonMeta;
use fluxon_kv::kv_client::{
    config_source, find_default_config_file, kv_get_result, ConfigArg, ConfigSource, Framework,
    KvClientTrait, KvGetResult,
};
use fluxon_kv::startup::ClientRole;
use std::collections::HashMap;
use std::path::PathBuf;

fn shared_meta() -> SharedJsonMeta {
    SharedJsonMeta {
        owner_id: "owner-a".to_string(),
        node_start_time: 123,
        segment_len: 4096,
        segment_label: Some("cpu:0".to_string()),
        sub_cluster: Some("owner-sub".to_string()),
        cluster_name: "test_cluster".to_string(),
        etcd_addresses: vec!["127.0.0.1:2379".to_string()],
        share_mem_path: "/dev/shm/owner".to_string(),
        large_file_paths: LargeFilePaths {
            paths: vec!["/tmp/owner_large".to_string()],
        },
        protocol_version: "v1".to_string(),
        write_ts: Some(1),
    }
}

fn config(dram: u64) -> ClientConfig {
    ClientConfig {
        cluster_name: "test_cluster".to_string(),
        etcd_addresses_raw: Vec::new(),
        instance_key: "external-a".to_string(),
        contribute_to_cluster_pool_size: ContributeToClusterPoolSize {
            dram,
            vram: HashMap::new(),
        },
        protocol: ProtocolConfig {
            protocol_type: ProtocolType::Tcp,
            rdma_device_names: None,
        },
        pprof_duration_seconds: None,
        redis_compat_listen_addr: None,
        fluxonkv_spec: FluxonKvSpec {
            etcd_addresses: Vec::new(),
            cluster_name: "test_cluster".to_string(),
            p2p_listen_port: Some(41001),
            transfer_engine: TransferEngineType::P2p,
            enable_transfer_rpc_fast_path: false,
            sub_cluster: None,
        },
        share_mem_path: "/dev/shm/owner/".to_string(),
        large_file_paths: LargeFilePaths { paths: Vec::new() },
        test_spec_config: TestSpecConfig::default(),
    }
}

fn input(meta: Option<SharedJsonMeta>) -> BootstrapInput {
    BootstrapInput {
        meta,
        share_mem_path_canonical: Some("/dev/shm/owner".to_string()),
        meta_share_mem_path_canonical: Some("/dev/shm/owner".to_string()),
        etcd_endpoints: Some(vec!["http://127.0.0.1:2379".to_string()]),
    }
}

#[test]
fn zero_contribution_bootstrap_inherits_large_file_paths_from_owner_shared_json() {
    let metadata =
        load_external_bootstrap_metadata(input(Some(shared_meta())), "v1", "test_cluster")
            .map_err(|wait| format!("{:?}", wait))
            .expect("ready");
    let bootstrapped = bootstrap_zero_contribution_client_config(config(0), metadata);
    assert_eq!(
        bootstrapped.large_file_paths.paths,
        vec!["/tmp/owner_large".to_string()]
    );
    assert_eq!(
        bootstrapped.fluxonkv_spec.sub_cluster,
        Some("owner-sub".to_string())
    );
    assert_eq!(
        bootstrapped.fluxonkv_spec.etcd_addresses,
        vec!["http://127.0.0.1:2379".to_string()]
    );
    assert_eq!(
        bootstrapped.etcd_addresses_raw,
        vec!["127.0.0.1:2379".to_string()]
    );
    assert_eq!(bootstrapped.share_mem_path, "/dev/shm/owner");
    assert_eq!(bootstrapped.instance_key, "external-a");
    assert_eq!(ClientRole::from_config(&bootstrapped), ClientRole::External);
}

#[test]
fn a_client_that_gives_memory_keeps_its_configuration() {
    let metadata =
        load_external_bootstrap_metadata(input(Some(shared_meta())), "v1", "test_cluster")
            .map_err(|wait| format!("{:?}", wait))
            .expect("ready");
    let kept = bootstrap_zero_contribution_client_config(config(1), metadata);
    assert_eq!(kept.share_mem_path, "/dev/shm/owner/");
    assert!(kept.large_file_paths.paths.is_empty());
    assert_eq!(kept.fluxonkv_spec.sub_cluster, None);
}

fn waits(input: BootstrapInput) -> BootstrapWait {
    match load_external_bootstrap_metadata(input, "v1", "test_cluster") {
        Err(wait) => wait,
        Ok(_) => panic!("the client has to wait"),
    }
}

#[test]
fn a_client_waits_for_what_is_missing() {
    assert_eq!(waits(input(None)), BootstrapWait::NotReadable);
    let mut meta = shared_meta();
    meta.protocol_version = "v2".to_string();
    assert_eq!(waits(input(Some(meta))), BootstrapWait::ProtocolVersion);
    let mut meta = shared_meta();
    meta.cluster_name = "other".to_string();
    assert_eq!(waits(input(Some(meta))), BootstrapWait::ClusterName);
    let mut missing = input(Some(shared_meta()));
    missing.share_mem_path_canonical = None;
    assert_eq!(waits(missing), BootstrapWait::ShareMemPath);
    let mut missing = input(Some(shared_meta()));
    missing.meta_share_mem_path_canonical = None;
    assert_eq!(waits(missing), BootstrapWait::MetaShareMemPath);
    let mut missing = input(Some(shared_meta()));
    missing.meta_share_mem_path_canonical = Some("/elsewhere".to_string());
    assert_eq!(waits(missing), BootstrapWait::ShareMemPathMismatch);
    let mut meta = shared_meta();
    meta.etcd_addresses.clear();
    assert_eq!(waits(input(Some(meta))), BootstrapWait::NoEtcdAddresses);
    let mut missing = input(Some(shared_meta()));
    missing.etcd_endpoints = None;
    assert_eq!(waits(missing), BootstrapWait::InvalidEtcdAddresses);
    assert!(external_bootstrap_bundle_ready(true, true));
    assert!(!external_bootstrap_bundle_ready(true, false));
}

#[test]
fn calls_are_routed_by_role() {
    let framework = |role: ClientRole| Framework {
        metadata: role.startup_metadata("v1"),
    };
    assert!(!framework(ClientRole::Owner).is_external_mode());
    assert!(framework(ClientRole::External).is_external_mode());
    assert!(!framework(ClientRole::SideTransferWorker).is_external_mode());
    assert!(matches!(
        kv_get_result(&framework(ClientRole::External), Some(1u8), Some(2u8)),
        KvGetResult::External(Some(2))
    ));
    assert!(matches!(
        kv_get_result::<Framework, u8, u8>(&framework(ClientRole::Owner), None, Some(2u8)),
        KvGetResult::Owner(None)
    ));
    let mut metadata = Metadata::new();
    metadata.insert("external_client".to_string(), "anything".to_string());
    assert!(Framework { metadata }.is_external_mode());
}

#[test]
fn a_configuration_comes_from_the_caller_a_file_or_a_default() {
    assert!(matches!(
        config_source(ConfigArg::Config(5), None),
        Ok(ConfigSource::Config(5))
    ));
    match config_source::<u8>(
        ConfigArg::File(PathBuf::from("a.yaml")),
        Some(PathBuf::from("config.yaml")),
    ) {
        Ok(ConfigSource::File(path)) => assert_eq!(path, PathBuf::from("a.yaml")),
        _ => panic!("the named file"),
    }
    match config_source::<u8>(ConfigArg::default(), Some(PathBuf::from("config.yml"))) {
        Ok(ConfigSource::File(path)) => assert_eq!(path, PathBuf::from("config.yml")),
        _ => panic!("the default file"),
    }
    assert!(matches!(
        config_source::<u8>(ConfigArg::Unset, None),
        Err(KvErrorOf::Config(ConfigErrorOf::FileReadError { ref detail }))
            if detail == "No config file found. Please provide a config file with -f option"
    ));
    assert_eq!(find_default_config_file(true, true), Some("config.yaml"));
    assert_eq!(find_default_config_file(false, true), Some("config.yml"));
    assert_eq!(find_default_config_file(false, false), None);
}
