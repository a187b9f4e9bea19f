//! Configurations of small test clusters: a master, its clients, and external clients of theirs.

use crate::config::{
    ClientConfig,
    FluxonKvSpec,
    LargeFilePaths,
    MasterConfig,
    ProtocolConfig,
    ProtocolType,
    TestSpecConfig,
    TransferEngineType,
};
use crate::kv_test::rounds::{pool_size, tcp_protocol_config, EtcdEndpoint};
use crate::text;
use vstd::prelude::*;

verus! {

/// The name of the cluster of a test with this master.
pub open spec fn cluster_of(master_key: Seq<char>) -> Seq<char> {
    "lease_test_cluster_"@ + master_key
}

/// The name of the cluster of a test with this master.
pub fn test_cluster_name(master_key: &str) -> (name: String)
    ensures
        name@ == cluster_of(master_key@),
{
    "lease_test_cluster_".to_owned().concat(master_key)
}

/// A master that speaks TCP and writes its logs below a directory.
pub fn new_master_config_with_cluster(
    instance_key: &str,
    port: Option<u16>,
    cluster_name: &str,
    workdir: &str,
    etcd: &EtcdEndpoint,
) -> (config: MasterConfig)
    ensures
        config.instance_key@ == instance_key@,
        config.cluster_name@ == cluster_name@,
        config.port == port,
        config.etcd_endpoints@ == seq![etcd.endpoint],
        crate::kv_test::rounds::is_tcp(config.protocol),
        config.transfer_engine == TransferEngineType::P2p,
        !config.enable_transfer_rpc_fast_path,
        config.log_dir@ == workdir@ + "/master_log"@,
        config.pprof_duration_seconds is None,
        config.test_spec_config == TestSpecConfig::unset(),
{
    let mut etcd_endpoints: Vec<String> = Vec::new();
    etcd_endpoints.push(etcd.endpoint.clone());
    assert(etcd_endpoints@ =~= seq![etcd.endpoint]);
    MasterConfig {
        cluster_name: cluster_name.to_owned(),
        instance_key: instance_key.to_owned(),
        etcd_endpoints,
        port,
        protocol: tcp_protocol_config(),
        transfer_engine: TransferEngineType::P2p,
        enable_transfer_rpc_fast_path: false,
        log_dir: workdir.to_owned().concat("/master_log"),
        pprof_duration_seconds: None,
        test_spec_config: TestSpecConfig::default(),
    }
}

/// An owner that gives so much main memory, and keeps its files below a directory.
pub fn new_client_config_with_cluster_and_dram(
    instance_key: &str,
    cluster_name: &str,
    dram_bytes: u64,
    workdir: &str,
    etcd: &EtcdEndpoint,
) -> (config: ClientConfig)
    ensures
        config.cluster_name@ == cluster_name@,
        config.instance_key@ == instance_key@,
        config.etcd_addresses_raw@ == seq![etcd.host_port],
        crate::kv_test::rounds::gives(config.contribute_to_cluster_pool_size, dram_bytes),
        crate::kv_test::rounds::is_tcp(config.protocol),
        config.pprof_duration_seconds is None,
        config.redis_compat_listen_addr is None,
        config.fluxonkv_spec.etcd_addresses@ == seq![etcd.endpoint],
        config.fluxonkv_spec.cluster_name@ == cluster_name@,
        config.fluxonkv_spec.p2p_listen_port is None,
        config.fluxonkv_spec.transfer_engine == TransferEngineType::Closed,
        config.fluxonkv_spec.enable_transfer_rpc_fast_path,
        config.fluxonkv_spec.sub_cluster is None,
        config.share_mem_path@ == workdir@ + "/sharemem/"@ + instance_key@,
        config.large_file_paths.paths@.len() == 1,
        config.large_file_paths.paths@[0]@ == workdir@ + "/large/"@ + instance_key@,
        config.test_spec_config == TestSpecConfig::unset(),
{
    let mut etcd_addresses: Vec<String> = Vec::new();
    etcd_addresses.push(etcd.endpoint.clone());
    assert(etcd_addresses@ =~= seq![etcd.endpoint]);
    let mut etcd_addresses_raw: Vec<String> = Vec::new();
    etcd_addresses_raw.push(etcd.host_port.clone());
    assert(etcd_addresses_raw@ =~= seq![etcd.host_port]);
    let mut paths: Vec<String> = Vec::new();
    paths.push(workdir.to_owned().concat("/large/").concat(instance_key));
    ClientConfig {
        cluster_name: cluster_name.to_owned(),
        etcd_addresses_raw,
        instance_key: instance_key.to_owned(),
        contribute_to_cluster_pool_size: pool_size(dram_bytes),
        protocol: tcp_protocol_config(),
        pprof_duration_seconds: None,
        redis_compat_listen_addr: None,
        fluxonkv_spec: FluxonKvSpec {
            etcd_addresses,
            cluster_name: cluster_name.to_owned(),
            p2p_listen_port: None,
            transfer_engine: TransferEngineType::Closed,
            enable_transfer_rpc_fast_path: true,
            sub_cluster: None,
        },
        share_mem_path: workdir.to_owned().concat("/sharemem/").concat(instance_key),
        large_file_paths: LargeFilePaths { paths },
        test_spec_config: TestSpecConfig::default(),
    }
}

/// The instance key of an external client of an owner; the suffix keeps it apart from others.
pub open spec fn external_key(owner_instance_key: Seq<char>, suffix: u64) -> Seq<char> {
    owner_instance_key + "__ext_"@ + text::decimal(suffix as nat)
}

/// An external client, which shares its owner's directories and learns of the cluster there alone.
pub fn new_zero_contribution_client_config(
    owner_instance_key: &str,
    cluster_name: &str,
    shm_path: &str,
    suffix: u64,
) -> (config: ClientConfig)
    ensures
        config.cluster_name@ == cluster_name@,
        config.instance_key@ == external_key(owner_instance_key@, suffix),
        config.etcd_addresses_raw@.len() == 0,
        crate::kv_test::rounds::gives(config.contribute_to_cluster_pool_size, 0),
        config.protocol.protocol_type == ProtocolType::Rdma,
        config.protocol.rdma_device_names is None,
        config.pprof_duration_seconds is None,
        config.redis_compat_listen_addr is None,
        config.fluxonkv_spec.etcd_addresses@.len() == 0,
        config.fluxonkv_spec.cluster_name@ == cluster_name@,
        config.fluxonkv_spec.p2p_listen_port is None,
        config.fluxonkv_spec.transfer_engine == TransferEngineType::P2p,
        !config.fluxonkv_spec.enable_transfer_rpc_fast_path,
        config.fluxonkv_spec.sub_cluster is None,
        config.share_mem_path@ == shm_path@,
        config.large_file_paths.paths@.len() == 1,
        config.large_file_paths.paths@[0]@ == shm_path@ + "_files"@,
        config.test_spec_config == TestSpecConfig::unset(),
{
    let mut instance_key = owner_instance_key.to_owned().concat("__ext_");
    text::append_u64(&mut instance_key, suffix);
    let mut paths: Vec<String> = Vec::new();
    paths.push(shm_path.to_owned().concat("_files"));
    ClientConfig {
        cluster_name: cluster_name.to_owned(),
        etcd_addresses_raw: Vec::new(),
        instance_key,
        contribute_to_cluster_pool_size: pool_size(0),
        protocol: ProtocolConfig { protocol_type: ProtocolType::Rdma, rdma_device_names: None },
        pprof_duration_seconds: None,
        redis_compat_listen_addr: None,
        fluxonkv_spec: FluxonKvSpec {
            etcd_addresses: Vec::new(),
            cluster_name: cluster_name.to_owned(),
            p2p_listen_port: None,
            transfer_engine: TransferEngineType::P2p,
            enable_transfer_rpc_fast_path: false,
            sub_cluster: None,
        },
        share_mem_path: shm_path.to_owned(),
        large_file_paths: LargeFilePaths { paths },
        test_spec_config: TestSpecConfig::default(),
    }
}

} // verus!
