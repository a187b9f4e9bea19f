//! The configuration that an owner gives to its side workers.

use crate::config::{
    ClientConfig,
    ClientConfigYaml,
    ContributeToClusterPoolSize,
    FluxonKvSpec,
    FluxonKvSpecYaml,
    ProtocolConfig,
    ProtocolType,
    SideTransferRole,
    TestSpecConfig,
    TransferEngineType,
};
use crate::text;
use std::collections::HashMap;
use vstd::prelude::*;

verus! {

/// The id of a side worker.
pub open spec fn side_id_text(owner_instance_key: Seq<char>, worker_idx: u16) -> Seq<char> {
    owner_instance_key + "__side_"@ + text::decimal(worker_idx as nat)
}

pub fn side_transfer_worker_instance_key(owner_instance_key: &str, worker_idx: u16) -> (key: String)
    ensures
        key@ == side_id_text(owner_instance_key@, worker_idx),
{
    let mut key = owner_instance_key.to_owned().concat("__side_");
    text::append_u64(&mut key, worker_idx as u64);
    key
}

/// Why no configuration can be made for a side worker.
#[derive(Debug, Clone, Copy, PartialEq, Eq, Structural)]
pub enum WorkerConfigError {
    /// side-transfer worker p2p port overflow
    PortOverflow,
}

/// The port of a side worker: one for each, from the base on; none where there is no base.
pub open spec fn worker_port(port_base: Option<u16>, worker_idx: u16) -> Option<int> {
    match port_base {
        Some(base) => Some(base + worker_idx),
        None => None,
    }
}

/// The port of a side worker is a port.
pub open spec fn worker_port_fits(port_base: Option<u16>, worker_idx: u16) -> bool {
    worker_port(port_base, worker_idx) matches Some(port) ==> port <= u16::MAX
}

/// The settings for tests that a side worker gets: those of its owner, but for what makes it a
/// side worker.
pub open spec fn worker_test_spec(owner: TestSpecConfig) -> TestSpecConfig {
    TestSpecConfig {
        enable_side_transfer: true,
        side_transfer_worker_count: 0,
        side_transfer_worker_p2p_port_base: None,
        side_transfer_role: Some(SideTransferRole::Worker),
        transport_mode: None,
        rdma_device_names: None,
        ..owner
    }
}

/// The configuration is that of a side worker of the owner.
pub open spec fn is_worker_config(owner: ClientConfig, worker_idx: u16, side: ClientConfig) -> bool {
    &&& side.cluster_name == owner.cluster_name
    &&& side.etcd_addresses_raw@.len() == 0
    &&& side.instance_key@ == side_id_text(owner.instance_key@, worker_idx)
    &&& side.contribute_to_cluster_pool_size.dram == 0
    &&& side.contribute_to_cluster_pool_size.vram@ == Map::<u64, u64>::empty()
    &&& side.protocol.protocol_type == ProtocolType::Tcp
    &&& side.protocol.rdma_device_names is None
    &&& side.pprof_duration_seconds == owner.pprof_duration_seconds
    &&& side.redis_compat_listen_addr is None
    &&& side.fluxonkv_spec.etcd_addresses@.len() == 0
    &&& side.fluxonkv_spec.cluster_name == owner.cluster_name
    &&& match side.fluxonkv_spec.p2p_listen_port {
        Some(port) => worker_port(
            owner.test_spec_config.side_transfer_worker_p2p_port_base,
            worker_idx,
        ) == Some(port as int),
        None => owner.test_spec_config.side_transfer_worker_p2p_port_base is None,
    }
    &&& side.fluxonkv_spec.transfer_engine == TransferEngineType::P2p
    &&& !side.fluxonkv_spec.enable_transfer_rpc_fast_path
    &&& side.fluxonkv_spec.sub_cluster is None
    &&& side.share_mem_path == owner.share_mem_path
    &&& side.large_file_paths.paths@ == owner.large_file_paths.paths@
    &&& side.test_spec_config == worker_test_spec(owner.test_spec_config)
}

/// The configuration of a side worker: it gives no memory, attaches to its owner's, and talks over
/// TCP, on a port of its own.
pub fn build_side_transfer_worker_config(owner_config: &ClientConfig, worker_idx: u16) -> (result:
    Result<ClientConfig, WorkerConfigError>)
    ensures
        if worker_port_fits(
            owner_config.test_spec_config.side_transfer_worker_p2p_port_base,
            worker_idx,
        ) {
            result matches Ok(side) && is_worker_config(*owner_config, worker_idx, side)
        } else {
            result == Err::<ClientConfig, WorkerConfigError>(WorkerConfigError::PortOverflow)
        },
{
    broadcast use vstd::std_specs::hash::group_hash_axioms;

    let p2p_listen_port: Option<u16> =
        match owner_config.test_spec_config.side_transfer_worker_p2p_port_base {
        Some(base_port) => match base_port.checked_add(worker_idx) {
            Some(port) => Some(port),
            None => {
                return Err(WorkerConfigError::PortOverflow);
            },
        },
        None => None,
    };
    let owner_spec = &owner_config.test_spec_config;
    let test_spec_config = TestSpecConfig {
        enable_side_transfer: true,
        side_transfer_worker_count: 0,
        side_transfer_worker_p2p_port_base: None,
        side_transfer_role: Some(SideTransferRole::Worker),
        transport_mode: None,
        rdma_device_names: None,
        disable_local_ipc: owner_spec.disable_local_ipc,
        disable_crossowner_ipc: owner_spec.disable_crossowner_ipc,
        disable_observability: owner_spec.disable_observability,
        enable_iceoryx_logs: owner_spec.enable_iceoryx_logs,
        iceoryx_external_busy_poll: owner_spec.iceoryx_external_busy_poll,
        iceoryx_owner_client_busy_poll: owner_spec.iceoryx_owner_client_busy_poll,
        user_rpc_sync_handler_thread_count: owner_spec.user_rpc_sync_handler_thread_count,
        tcp_thread_reactor_shard_count: owner_spec.tcp_thread_reactor_shard_count,
        tcp_thread_bulk_lane_count: owner_spec.tcp_thread_bulk_lane_count,
        tcp_thread_control_lane_count: owner_spec.tcp_thread_control_lane_count,
        short_circuit_put_payload_path: owner_spec.short_circuit_put_payload_path,
        skip_put_end_commit: owner_spec.skip_put_end_commit,
        disable_master_replica_cache: owner_spec.disable_master_replica_cache,
        disable_prefix_index: owner_spec.disable_prefix_index,
        require_transfer_rpc_fast_path_ready_timeout_seconds:
            owner_spec.require_transfer_rpc_fast_path_ready_timeout_seconds,
    };
    Ok(
        ClientConfig {
            cluster_name: owner_config.cluster_name.clone(),
            etcd_addresses_raw: Vec::new(),
            instance_key: side_transfer_worker_instance_key(
                owner_config.instance_key.as_str(),
                worker_idx,
            ),
            contribute_to_cluster_pool_size: ContributeToClusterPoolSize {
                dram: 0,
                vram: HashMap::new(),
            },
            protocol: ProtocolConfig { protocol_type: ProtocolType::Tcp, rdma_device_names: None },
            pprof_duration_seconds: owner_config.pprof_duration_seconds,
            redis_compat_listen_addr: None,
            fluxonkv_spec: FluxonKvSpec {
                etcd_addresses: Vec::new(),
                cluster_name: owner_config.cluster_name.clone(),
                p2p_listen_port,
                transfer_engine: TransferEngineType::P2p,
                enable_transfer_rpc_fast_path: false,
                sub_cluster: None,
            },
            share_mem_path: owner_config.share_mem_path.clone(),
            large_file_paths: owner_config.large_file_paths.duplicate(),
            test_spec_config,
        },
    )
}

/// The file for a side worker says what its configuration says, and leaves out what it gets from
/// its owner when it starts.
pub open spec fn is_worker_yaml(side: ClientConfig, yaml: ClientConfigYaml) -> bool {
    &&& yaml.instance_key == side.instance_key
    &&& yaml.protocol == Some(side.protocol)
    &&& yaml.contribute_to_cluster_pool_size is None
    &&& yaml.pprof_duration_seconds == side.pprof_duration_seconds
    &&& yaml.fluxonkv_spec.etcd_addresses is None
    &&& yaml.fluxonkv_spec.cluster_name == side.cluster_name
    &&& yaml.fluxonkv_spec.share_mem_path == side.share_mem_path
    &&& yaml.fluxonkv_spec.large_file_paths is None
    &&& yaml.fluxonkv_spec.p2p_listen_port == side.fluxonkv_spec.p2p_listen_port
    &&& yaml.fluxonkv_spec.redis_compat is None
    &&& yaml.fluxonkv_spec.sub_cluster is None
    &&& yaml.test_spec_config == side.test_spec_config
}

pub fn build_side_transfer_worker_config_yaml(
    owner_config: &ClientConfig,
    worker_idx: u16,
) -> (result: Result<ClientConfigYaml, WorkerConfigError>)
    ensures
        if worker_port_fits(
            owner_config.test_spec_config.side_transfer_worker_p2p_port_base,
            worker_idx,
        ) {
            result matches Ok(yaml) && exists|side: ClientConfig|
                is_worker_config(*owner_config, worker_idx, side) && #[trigger] is_worker_yaml(
                    side,
                    yaml,
                )
        } else {
            result == Err::<ClientConfigYaml, WorkerConfigError>(WorkerConfigError::PortOverflow)
        },
{
    match build_side_transfer_worker_config(owner_config, worker_idx) {
        Ok(side_config) => {
            let ghost side = side_config;
            let yaml = ClientConfigYaml {
                instance_key: side_config.instance_key,
                protocol: Some(side_config.protocol),
                contribute_to_cluster_pool_size: None,
                pprof_duration_seconds: side_config.pprof_duration_seconds,
                fluxonkv_spec: FluxonKvSpecYaml {
                    etcd_addresses: None,
                    cluster_name: side_config.cluster_name,
                    share_mem_path: side_config.share_mem_path,
                    large_file_paths: None,
                    p2p_listen_port: side_config.fluxonkv_spec.p2p_listen_port,
                    redis_compat: None,
                    sub_cluster: None,
                },
                test_spec_config: side_config.test_spec_config,
            };
            assert(is_worker_yaml(side, yaml));
            Ok(yaml)
        },
        Err(err) => Err(err),
    }
}

/// A side worker runs as one, by its configuration: it neither gives memory nor has workers.
pub proof fn law_worker_runs_as_side_worker(
    owner: ClientConfig,
    worker_idx: u16,
    side: ClientConfig,
)
    requires
        is_worker_config(owner, worker_idx, side),
    ensures
        crate::startup::ClientRole::of(side) is SideTransferWorker,
        side.test_spec_config.side_transfer_worker_count == 0,
{
}

proof fn lemma_decimal_injective(a: nat, b: nat)
    requires
        text::decimal(a) == text::decimal(b),
    ensures
        a == b,
    decreases a,
{
    let da = text::decimal(a);
    let db = text::decimal(b);
    lemma_decimal_len(a);
    lemma_decimal_len(b);
    assert(da.last() == db.last());
    if a >= 10 {
        assert(da.drop_last() =~= text::decimal(a / 10));
        if b >= 10 {
            assert(db.drop_last() =~= text::decimal(b / 10));
            lemma_decimal_injective(a / 10, b / 10);
            lemma_digit_injective(a % 10, b % 10);
        } else {
            lemma_decimal_len(a / 10);
        }
    } else {
        if b >= 10 {
            lemma_decimal_len(b / 10);
            assert(db.drop_last() =~= text::decimal(b / 10));
        } else {
            lemma_digit_injective(a, b);
        }
    }
}

proof fn lemma_decimal_len(n: nat)
    ensures
        text::decimal(n).len() > 0,
        n < 10 <==> text::decimal(n).len() == 1,
    decreases n,
{
    if n >= 10 {
        lemma_decimal_len(n / 10);
    }
}

proof fn lemma_digit_injective(a: nat, b: nat)
    requires
        a < 10,
        b < 10,
        text::digit_char(a) == text::digit_char(b),
    ensures
        a == b,
{
    let x = ('0' as u32 + a as u32) as u32;
    let y = ('0' as u32 + b as u32) as u32;
    assert(x as char as u32 == x);
    assert(y as char as u32 == y);
}

/// Two side workers of an owner have different ids.
pub proof fn law_worker_ids_differ(owner_instance_key: Seq<char>, a: u16, b: u16)
    requires
        a != b,
    ensures
        side_id_text(owner_instance_key, a) != side_id_text(owner_instance_key, b),
{
    let prefix = owner_instance_key + "__side_"@;
    if side_id_text(owner_instance_key, a) == side_id_text(owner_instance_key, b) {
        let whole = side_id_text(owner_instance_key, a);
        assert(whole.skip(prefix.len() as int) =~= text::decimal(a as nat));
        assert(whole.skip(prefix.len() as int) =~= text::decimal(b as nat));
        lemma_decimal_injective(a as nat, b as nat);
    }
}

} // verus!
