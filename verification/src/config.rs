//! Configuration values that the library's decisions depend on.

use crate::text;
use std::collections::HashMap;
use vstd::prelude::*;

verus! {

/// Switches of a master under test.
#[derive(Debug, Clone, Copy, Default)]
pub struct MasterTestSwitches {
    /// Clients skip the commit of puts, so that puts in flight are forgotten sooner.
    pub skip_put_end_commit: bool,
    pub disable_master_replica_cache: bool,
    pub disable_prefix_index: bool,
}

#[derive(Debug, Clone, Copy, PartialEq, Eq, Structural)]
pub enum ProtocolType {
    Tcp,
    Rdma,
}

#[derive(Debug, PartialEq, Eq)]
pub struct ProtocolConfig {
    pub protocol_type: ProtocolType,
    pub rdma_device_names: Option<String>,
}

#[derive(Debug, Clone, Copy, PartialEq, Eq, Structural)]
pub enum TransferEngineType {
    P2p,
    Closed,
}

/// A part that a client plays beside that of an owner or an external client.
#[derive(Debug, Clone, Copy, PartialEq, Eq, Structural)]
pub enum SideTransferRole {
    Worker,
}

#[derive(Debug, Clone, Copy, PartialEq, Eq, Structural)]
pub enum TestSpecTransportMode {
    TransferOnly,
    TransferWithRpc,
}

/// Settings for tests and benchmarks.
#[derive(Debug)]
pub struct TestSpecConfig {
    pub enable_side_transfer: bool,
    pub side_transfer_worker_count: u16,
    pub side_transfer_worker_p2p_port_base: Option<u16>,
    pub side_transfer_role: Option<SideTransferRole>,
    pub transport_mode: Option<TestSpecTransportMode>,
    pub rdma_device_names: Option<Vec<String>>,
    pub disable_local_ipc: bool,
    pub disable_crossowner_ipc: bool,
    pub disable_observability: bool,
    pub enable_iceoryx_logs: bool,
    pub iceoryx_external_busy_poll: bool,
    pub iceoryx_owner_client_busy_poll: bool,
    pub user_rpc_sync_handler_thread_count: Option<usize>,
    pub tcp_thread_reactor_shard_count: Option<usize>,
    pub tcp_thread_bulk_lane_count: Option<usize>,
    pub tcp_thread_control_lane_count: Option<usize>,
    pub short_circuit_put_payload_path: bool,
    pub skip_put_end_commit: bool,
    pub disable_master_replica_cache: bool,
    pub disable_prefix_index: bool,
    pub require_transfer_rpc_fast_path_ready_timeout_seconds: Option<u64>,
}

impl TestSpecConfig {
    /// Everything off, and nothing set.
    pub open spec fn unset() -> TestSpecConfig {
        TestSpecConfig {
            enable_side_transfer: false,
            side_transfer_worker_count: 0,
            side_transfer_worker_p2p_port_base: None,
            side_transfer_role: None,
            transport_mode: None,
            rdma_device_names: None,
            disable_local_ipc: false,
            disable_crossowner_ipc: false,
            disable_observability: false,
            enable_iceoryx_logs: false,
            iceoryx_external_busy_poll: false,
            iceoryx_owner_client_busy_poll: false,
            user_rpc_sync_handler_thread_count: None,
            tcp_thread_reactor_shard_count: None,
            tcp_thread_bulk_lane_count: None,
            tcp_thread_control_lane_count: None,
            short_circuit_put_payload_path: false,
            skip_put_end_commit: false,
            disable_master_replica_cache: false,
            disable_prefix_index: false,
            require_transfer_rpc_fast_path_ready_timeout_seconds: None,
        }
    }
}

impl Default for TestSpecConfig {
    fn default() -> (config: Self)
        ensures
            config == TestSpecConfig::unset(),
    {
        TestSpecConfig {
            enable_side_transfer: false,
            side_transfer_worker_count: 0,
            side_transfer_worker_p2p_port_base: None,
            side_transfer_role: None,
            transport_mode: None,
            rdma_device_names: None,
            disable_local_ipc: false,
            disable_crossowner_ipc: false,
            disable_observability: false,
            enable_iceoryx_logs: false,
            iceoryx_external_busy_poll: false,
            iceoryx_owner_client_busy_poll: false,
            user_rpc_sync_handler_thread_count: None,
            tcp_thread_reactor_shard_count: None,
            tcp_thread_bulk_lane_count: None,
            tcp_thread_control_lane_count: None,
            short_circuit_put_payload_path: false,
            skip_put_end_commit: false,
            disable_master_replica_cache: false,
            disable_prefix_index: false,
            require_transfer_rpc_fast_path_ready_timeout_seconds: None,
        }
    }
}

impl TestSpecConfig {
    /// The settings that concern a master's key-value router.
    pub fn master_switches(&self) -> (switches: MasterTestSwitches)
        ensures
            switches.skip_put_end_commit == self.skip_put_end_commit,
            switches.disable_master_replica_cache == self.disable_master_replica_cache,
            switches.disable_prefix_index == self.disable_prefix_index,
    {
        MasterTestSwitches {
            skip_put_end_commit: self.skip_put_end_commit,
            disable_master_replica_cache: self.disable_master_replica_cache,
            disable_prefix_index: self.disable_prefix_index,
        }
    }
}

/// How much memory a node gives to the cluster: main memory, and the memory of each accelerator.
#[derive(Debug)]
pub struct ContributeToClusterPoolSize {
    pub dram: u64,
    pub vram: HashMap<u64, u64>,
}

impl ContributeToClusterPoolSize {
    pub fn duplicate(&self) -> (copy: Self)
        ensures
            copy.dram == self.dram,
            copy.vram@ == self.vram@,
    {
        ContributeToClusterPoolSize { dram: self.dram, vram: self.vram.clone() }
    }

    /// The node gives no memory.
    pub open spec fn is_zero(self) -> bool {
        self.dram == 0 && forall|device: u64| #[trigger]
            self.vram@.contains_key(device) ==> self.vram@[device] == 0
    }

    /// The node gives no memory: it is an external client.
    pub fn gives_nothing(&self) -> (nothing: bool)
        ensures
            nothing == self.is_zero(),
    {
        broadcast use vstd::std_specs::hash::group_hash_axioms;

        if self.dram != 0 {
            return false;
        }
        let ghost map = self.vram@;
        for size in it: self.vram.values()
            invariant
                map == self.vram@,
                it.seq().unref().to_set() == map.values(),
                forall|i: int| 0 <= i < it.index() ==> *#[trigger] it.seq()[i] == 0,
        {
            if *size != 0 {
                proof {
                    assert(it.seq()[it.index() as int] == size);
                    assert(it.seq().unref()[it.index() as int] == *size);
                    assert(it.seq().unref().to_set().contains(*size));
                    assert(map.values().contains(*size));
                    let device = choose|device: u64| #[trigger]
                        map.dom().contains(device) && map[device] == *size;
                    assert(map.contains_key(device));
                }
                return false;
            }
        }
        proof {
            assert forall|device: u64| #[trigger] map.contains_key(device) implies map[device]
                == 0 by {
                assert(map.values().contains(map[device]));
            }
        }
        true
    }
}

#[derive(Debug)]
pub struct FluxonKvSpec {
    pub etcd_addresses: Vec<String>,
    pub cluster_name: String,
    pub p2p_listen_port: Option<u16>,
    pub transfer_engine: TransferEngineType,
    pub enable_transfer_rpc_fast_path: bool,
    pub sub_cluster: Option<String>,
}

/// Directories for logs and other large files.
#[derive(Debug)]
pub struct LargeFilePaths {
    pub paths: Vec<String>,
}

impl LargeFilePaths {
    pub fn duplicate(&self) -> (copy: Self)
        ensures
            copy.paths@ == self.paths@,
    {
        LargeFilePaths { paths: text::clone_texts(&self.paths) }
    }
}

/// The configuration of a client, checked.
#[derive(Debug)]
pub struct ClientConfig {
    pub cluster_name: String,
    pub etcd_addresses_raw: Vec<String>,
    pub instance_key: String,
    pub contribute_to_cluster_pool_size: ContributeToClusterPoolSize,
    pub protocol: ProtocolConfig,
    pub pprof_duration_seconds: Option<u64>,
    pub redis_compat_listen_addr: Option<String>,
    pub fluxonkv_spec: FluxonKvSpec,
    pub share_mem_path: String,
    pub large_file_paths: LargeFilePaths,
    pub test_spec_config: TestSpecConfig,
}

/// The configuration of a master, checked.
#[derive(Debug)]
pub struct MasterConfig {
    pub cluster_name: String,
    pub instance_key: String,
    pub etcd_endpoints: Vec<String>,
    pub port: Option<u16>,
    pub protocol: ProtocolConfig,
    pub transfer_engine: TransferEngineType,
    pub enable_transfer_rpc_fast_path: bool,
    pub log_dir: String,
    pub pprof_duration_seconds: Option<u64>,
    pub test_spec_config: TestSpecConfig,
}

#[derive(Debug)]
pub struct FluxonKvSpecYaml {
    pub etcd_addresses: Option<Vec<String>>,
    pub cluster_name: String,
    pub share_mem_path: String,
    pub large_file_paths: Option<LargeFilePaths>,
    pub p2p_listen_port: Option<u16>,
    pub redis_compat: Option<String>,
    pub sub_cluster: Option<String>,
}

/// The configuration of a client, as it stands in a file.
#[derive(Debug)]
pub struct ClientConfigYaml {
    pub instance_key: String,
    pub protocol: Option<ProtocolConfig>,
    pub contribute_to_cluster_pool_size: Option<ContributeToClusterPoolSize>,
    pub pprof_duration_seconds: Option<u64>,
    pub fluxonkv_spec: FluxonKvSpecYaml,
    pub test_spec_config: TestSpecConfig,
}

} // verus!
