//! What a node is started with.
//!
//! A plan holds what the modules of a node are made with and what starting the node involves besides.
//! It is made before anything is started.

use crate::cluster_manager::Metadata;
use crate::config::{
    ClientConfig,
    ContributeToClusterPoolSize,
    LargeFilePaths,
    MasterConfig,
    ProtocolConfig,
    ProtocolType,
    TestSpecConfig,
    TransferEngineType,
};
use crate::external_client_api::ExternalClientApiNewArg;
use crate::master_kv_router::MasterKvRouterNewArg;
use crate::master_lease_manager::master_lease_manager::MasterLeaseManagerNewArg;
use crate::startup::{
    broker_startup_metadata,
    check_broker_config,
    choose_rdma_control_init,
    choose_transfer_backend_activation_mode,
    client_framework_name,
    master_startup_metadata,
    merge_startup_member_metadata,
    tcp_thread_transport_tuning_from_test_spec_config,
    transfer_engine_rdma_device_names_from_config,
    BrokerConfigError,
    ClientRole,
    ClusterManagerRdmaControlInit,
    P2pTcpThreadTransportTuning,
    StartupMetadataError,
    TransferBackendActivationMode,
};
use crate::text;
use vstd::prelude::*;

verus! {

/// The port that the transfer engine's own calls use.
pub const TRANSFER_ENGINE_RPC_PORT: u16 = 12345;

/// What a test sets in place of what the configuration says.
pub struct RunTestOverrides {
    pub rdma_control_init: ClusterManagerRdmaControlInit,
    pub transfer_backend_activation_mode: Option<TransferBackendActivationMode>,
}

/// How a node joins its cluster.
pub struct ClusterManagerArg {
    pub etcd_endpoints: Vec<String>,
    pub cluster_name: String,
    pub instance_name: String,
    pub metadata: Metadata,
    pub local_ipc_root: Option<String>,
    pub rdma_control_init: ClusterManagerRdmaControlInit,
    pub sub_cluster: Option<String>,
}

/// How a node talks to others.
pub struct P2pArg {
    pub listen_port: Option<u16>,
    pub tuning: P2pTcpThreadTransportTuning,
    pub disable_crossowner_ipc: bool,
    pub iceoryx_external_busy_poll: bool,
    pub iceoryx_owner_client_busy_poll: bool,
    pub user_rpc_sync_handler_thread_count: Option<usize>,
}

/// How a node transfers values.
pub struct TransferEngineArg {
    pub metadata_uri: String,
    pub instance_name: String,
    pub enable_transfer_rpc_fast_path: bool,
    pub rpc_port: u16,
    pub protocol_type: ProtocolType,
    pub rdma_device_names: Option<String>,
    pub backend_activation_mode: TransferBackendActivationMode,
    pub transfer_engine: TransferEngineType,
}

/// How the memory of an owner is set up, or that of the owner that a side worker serves.
pub struct SegPoolArg {
    /// How much memory the node gives.
    pub contribute_size: ContributeToClusterPoolSize,
    pub share_mem_path: String,
    pub large_file_paths: LargeFilePaths,
    pub cluster_name: String,
    /// The addresses of the cluster's store, as they were configured.
    pub etcd_addresses: Vec<String>,
    /// The memory of the owner is attached to, as the owner describes it.
    pub attach_existing_meta: bool,
    pub side_transfer_worker: bool,
    /// Seconds within which the fast path for transfers has to be ready, if it has to.
    pub require_transfer_rpc_fast_path_ready_timeout_seconds: Option<u64>,
}

impl SegPoolArg {
    /// The settings of a client with this configuration.
    pub open spec fn follows(self, config: ClientConfig) -> bool {
        &&& self.contribute_size.dram == config.contribute_to_cluster_pool_size.dram
        &&& self.contribute_size.vram@ == config.contribute_to_cluster_pool_size.vram@
        &&& self.share_mem_path == config.share_mem_path
        &&& self.large_file_paths.paths@ == config.large_file_paths.paths@
        &&& self.cluster_name == config.cluster_name
        &&& self.etcd_addresses@ == config.etcd_addresses_raw@
    }
}

/// What a client runs besides joining its cluster.
pub enum ClientModules {
    /// A client that shares the memory of an owner.
    External(ExternalClientApiNewArg),
    /// An owner, or a side worker of one.
    Owner { seg_pool: SegPoolArg, transfer_engine: TransferEngineArg },
}

/// What a client is started with.
pub struct ClientPlan {
    pub role: ClientRole,
    pub framework_name: String,
    pub cluster_manager: ClusterManagerArg,
    pub p2p: P2pArg,
    pub modules: ClientModules,
    /// The owner's description is waited for before anything is started.
    pub awaits_owner: bool,
    /// The fast path for transfers is waited for.
    pub awaits_fast_path: bool,
    /// How many side workers are started. What earlier ones left behind is removed first.
    pub side_workers: u16,
}

/// What a broker is started with.
pub struct BrokerPlan {
    pub framework_name: String,
    pub cluster_manager: ClusterManagerArg,
    pub p2p: P2pArg,
    pub external: ExternalClientApiNewArg,
}

/// What a master is started with.
pub struct MasterPlan {
    pub framework_name: String,
    pub cluster_manager: ClusterManagerArg,
    pub p2p: P2pArg,
    pub transfer_engine: TransferEngineArg,
    pub router: MasterKvRouterNewArg,
    pub leases: MasterLeaseManagerNewArg,
    /// The names of the directories for logs and profiles.
    pub logs_dir_name: String,
    pub profiles_dir_name: String,
}

/// The texts of two optional texts are the same.
pub open spec fn same_option(a: Option<String>, b: Option<Seq<char>>) -> bool {
    match (a, b) {
        (Some(a), Some(b)) => a@ == b,
        (None, None) => true,
        _ => false,
    }
}

impl P2pArg {
    /// The settings of a node with this configuration.
    pub open spec fn follows(self, listen_port: Option<u16>, test: TestSpecConfig) -> bool {
        &&& self.listen_port == listen_port
        &&& self.tuning.reactor_shard_count == test.tcp_thread_reactor_shard_count
        &&& self.tuning.bulk_lane_count == test.tcp_thread_bulk_lane_count
        &&& self.tuning.control_lane_count == test.tcp_thread_control_lane_count
        &&& self.disable_crossowner_ipc == test.disable_crossowner_ipc
        &&& self.iceoryx_external_busy_poll == test.iceoryx_external_busy_poll
        &&& self.iceoryx_owner_client_busy_poll == test.iceoryx_owner_client_busy_poll
        &&& self.user_rpc_sync_handler_thread_count == test.user_rpc_sync_handler_thread_count
    }
}

fn p2p_arg(listen_port: Option<u16>, test: &TestSpecConfig) -> (arg: P2pArg)
    ensures
        arg.follows(listen_port, *test),
{
    P2pArg {
        listen_port,
        tuning: tcp_thread_transport_tuning_from_test_spec_config(test),
        disable_crossowner_ipc: test.disable_crossowner_ipc,
        iceoryx_external_busy_poll: test.iceoryx_external_busy_poll,
        iceoryx_owner_client_busy_poll: test.iceoryx_owner_client_busy_poll,
        user_rpc_sync_handler_thread_count: test.user_rpc_sync_handler_thread_count,
    }
}

/// How a node starts with its RDMA devices.
pub open spec fn rdma_control_of(
    init: ClusterManagerRdmaControlInit,
    overrides: Option<RunTestOverrides>,
    test: TestSpecConfig,
) -> bool {
    match overrides {
        Some(overrides) => init == overrides.rdma_control_init,
        None => crate::startup::rdma_control_view(init) == match crate::startup::test_rdma_control(
            Some(test),
        ) {
            Some(asked) => asked,
            None => crate::startup::RdmaControlView::Disabled,
        },
    }
}

/// What decides whether transfers use a backend.
pub open spec fn activation_mode_of(
    overrides: Option<RunTestOverrides>,
    protocol: ProtocolConfig,
    test: TestSpecConfig,
) -> TransferBackendActivationMode {
    let set = match overrides {
        Some(overrides) => overrides.transfer_backend_activation_mode,
        None => None,
    };
    match set {
        Some(chosen) => chosen,
        None => match crate::startup::test_activation_mode(protocol, Some(test)) {
            Some(asked) => asked,
            None => TransferBackendActivationMode::RdmaControl,
        },
    }
}

fn split_overrides(overrides: Option<RunTestOverrides>) -> (split: (
    Option<ClusterManagerRdmaControlInit>,
    Option<TransferBackendActivationMode>,
))
    ensures
        match overrides {
            Some(overrides) => split.0 == Some(overrides.rdma_control_init) && split.1
                == overrides.transfer_backend_activation_mode,
            None => split.0 is None && split.1 is None,
        },
{
    match overrides {
        Some(overrides) => (
            Some(overrides.rdma_control_init),
            overrides.transfer_backend_activation_mode,
        ),
        None => (None, None),
    }
}

impl TransferEngineArg {
    /// The settings of a node with this configuration.
    pub open spec fn follows(
        self,
        etcd_endpoints: Seq<String>,
        instance_key: String,
        fast_path: bool,
        transfer_engine: TransferEngineType,
        protocol: ProtocolConfig,
        test: TestSpecConfig,
        mode: TransferBackendActivationMode,
    ) -> bool {
        &&& self.metadata_uri == etcd_endpoints[0]
        &&& self.instance_name == instance_key
        &&& self.enable_transfer_rpc_fast_path == fast_path
        &&& self.rpc_port == TRANSFER_ENGINE_RPC_PORT
        &&& self.protocol_type == protocol.protocol_type
        &&& match test.rdma_device_names {
            Some(devices) => same_option(
                self.rdma_device_names,
                Some(crate::startup::comma_joined(devices@)),
            ),
            None => self.rdma_device_names == protocol.rdma_device_names,
        }
        &&& self.backend_activation_mode == mode
        &&& self.transfer_engine == transfer_engine
    }
}

fn transfer_engine_arg(
    etcd_endpoints: &Vec<String>,
    instance_key: &String,
    fast_path: bool,
    transfer_engine: TransferEngineType,
    protocol: &ProtocolConfig,
    test: &TestSpecConfig,
    mode: TransferBackendActivationMode,
) -> (arg: TransferEngineArg)
    requires
        etcd_endpoints@.len() > 0,
    ensures
        arg.follows(
            etcd_endpoints@,
            *instance_key,
            fast_path,
            transfer_engine,
            *protocol,
            *test,
            mode,
        ),
{
    TransferEngineArg {
        metadata_uri: etcd_endpoints[0].clone(),
        instance_name: instance_key.clone(),
        enable_transfer_rpc_fast_path: fast_path,
        rpc_port: TRANSFER_ENGINE_RPC_PORT,
        protocol_type: protocol.protocol_type,
        rdma_device_names: transfer_engine_rdma_device_names_from_config(protocol, Some(test)),
        backend_activation_mode: mode,
        transfer_engine,
    }
}

/// The settings of a client that shares the memory of an owner: it finds the owner's memory and
/// description where its configuration says, and accepts an owner of its own cluster and version.
pub open spec fn external_arg_of(
    arg: ExternalClientApiNewArg,
    config: ClientConfig,
    build_version: Seq<char>,
) -> bool {
    &&& arg.shared_memory_path == config.share_mem_path
    &&& arg.shared_file_path == config.share_mem_path
    &&& arg.expected_cluster_name == config.cluster_name
    &&& arg.expected_protocol_version@ == build_version
    &&& arg.enable_side_transfer == config.test_spec_config.enable_side_transfer
    &&& arg.short_circuit_put_payload_path
        == config.test_spec_config.short_circuit_put_payload_path
}

fn external_arg(config: &ClientConfig, build_version: &str) -> (arg: ExternalClientApiNewArg)
    ensures
        external_arg_of(arg, *config, build_version@),
{
    ExternalClientApiNewArg {
        shared_memory_path: config.share_mem_path.clone(),
        shared_file_path: config.share_mem_path.clone(),
        expected_cluster_name: config.cluster_name.clone(),
        expected_protocol_version: build_version.to_owned(),
        enable_side_transfer: config.test_spec_config.enable_side_transfer,
        short_circuit_put_payload_path: config.test_spec_config.short_circuit_put_payload_path,
    }
}

impl ClusterManagerArg {
    /// The settings of a client, or a broker, with this configuration.
    pub open spec fn follows(
        self,
        config: ClientConfig,
        local_ipc_root: Option<String>,
        overrides: Option<RunTestOverrides>,
    ) -> bool {
        &&& self.etcd_endpoints@ == config.fluxonkv_spec.etcd_addresses@
        &&& self.cluster_name == config.cluster_name
        &&& self.instance_name == config.instance_key
        &&& self.local_ipc_root == local_ipc_root
        &&& rdma_control_of(self.rdma_control_init, overrides, config.test_spec_config)
        &&& self.sub_cluster == config.fluxonkv_spec.sub_cluster
    }
}

fn cluster_manager_arg(
    config: &ClientConfig,
    metadata: Metadata,
    local_ipc_root: Option<String>,
    rdma_control_init: ClusterManagerRdmaControlInit,
) -> (arg: ClusterManagerArg)
    ensures
        arg.etcd_endpoints@ == config.fluxonkv_spec.etcd_addresses@,
        arg.cluster_name == config.cluster_name,
        arg.instance_name == config.instance_key,
        arg.metadata == metadata,
        arg.local_ipc_root == local_ipc_root,
        arg.rdma_control_init == rdma_control_init,
        arg.sub_cluster == config.fluxonkv_spec.sub_cluster,
{
    ClusterManagerArg {
        etcd_endpoints: text::clone_texts(&config.fluxonkv_spec.etcd_addresses),
        cluster_name: config.cluster_name.clone(),
        instance_name: config.instance_key.clone(),
        metadata,
        local_ipc_root,
        rdma_control_init,
        sub_cluster: text::clone_option(&config.fluxonkv_spec.sub_cluster),
    }
}

/// What a client publishes by itself.
pub open spec fn publishes_role(metadata: Metadata, role: ClientRole, version: Seq<char>) -> bool {
    forall|key: Seq<char>| #[trigger] metadata.value(key) == role.publishes(version, key)
}

/// Plans a client. `local_ipc_root` is the directory for local IPC that it publishes, and
/// `startup_metadata` what its caller adds to what it publishes by itself.
pub fn plan_client(
    config: &ClientConfig,
    build_version: &str,
    local_ipc_root: Option<String>,
    startup_metadata: &Vec<(String, String)>,
    overrides: Option<RunTestOverrides>,
) -> (plan: Result<ClientPlan, StartupMetadataError>)
    requires
        ClientRole::of(*config) != ClientRole::External
            ==> config.fluxonkv_spec.etcd_addresses@.len() > 0,
    ensures
        ({
            let role = ClientRole::of(*config);
            let test = config.test_spec_config;
            let entries = startup_metadata@;
            match plan {
                Ok(plan) => {
                    &&& plan.role == role
                    &&& plan.framework_name@ == "fluxon_kv.client."@ + role.label_text() + ":"@
                        + config.cluster_name@ + ":"@ + config.instance_key@
                    &&& plan.cluster_manager.follows(*config, local_ipc_root, overrides)
                    &&& exists|own: Metadata|
                        publishes_role(own, role, build_version@)
                            && #[trigger] crate::startup::added_up_to(
                            own,
                            plan.cluster_manager.metadata,
                            entries,
                            entries.len() as int,
                        )
                    &&& plan.p2p.follows(config.fluxonkv_spec.p2p_listen_port, test)
                    &&& match plan.modules {
                        ClientModules::External(arg) => role == ClientRole::External
                            && external_arg_of(arg, *config, build_version@),
                        ClientModules::Owner { seg_pool, transfer_engine } => {
                            let worker = role == ClientRole::SideTransferWorker;
                            &&& role != ClientRole::External
                            &&& seg_pool.follows(*config)
                            &&& seg_pool.attach_existing_meta == worker
                            &&& seg_pool.side_transfer_worker == worker
                            &&& seg_pool.require_transfer_rpc_fast_path_ready_timeout_seconds
                                == test.require_transfer_rpc_fast_path_ready_timeout_seconds
                            &&& transfer_engine.follows(
                                config.fluxonkv_spec.etcd_addresses@,
                                config.instance_key,
                                config.fluxonkv_spec.enable_transfer_rpc_fast_path,
                                config.fluxonkv_spec.transfer_engine,
                                config.protocol,
                                test,
                                activation_mode_of(overrides, config.protocol, test),
                            )
                        },
                    }
                    &&& plan.awaits_owner == (role == ClientRole::SideTransferWorker)
                    &&& plan.awaits_fast_path == (role == ClientRole::Owner)
                    &&& plan.side_workers == if role == ClientRole::Owner {
                        test.side_transfer_worker_count
                    } else {
                        0
                    }
                },
                Err(err) => exists|own: Metadata, n: int|
                    publishes_role(own, role, build_version@) && 0 <= n < entries.len()
                        && #[trigger] crate::startup::fault_at(own, entries, n) == Some(err@) && forall|
                        i: int,
                    |
                        0 <= i < n ==> (#[trigger] crate::startup::fault_at(own, entries, i)) is None,
            }
        }),
{
    let role = ClientRole::from_config(config);
    let test = &config.test_spec_config;
    let mut metadata = role.startup_metadata(build_version);
    let ghost own = metadata;
    if let Err(err) = merge_startup_member_metadata(&mut metadata, startup_metadata) {
        assert(publishes_role(own, role, build_version@));
        return Err(err);
    }
    assert(publishes_role(own, role, build_version@));
    let (rdma_override, mode_override) = split_overrides(overrides);
    let rdma_control_init = choose_rdma_control_init(rdma_override, test);
    let mode = choose_transfer_backend_activation_mode(mode_override, &config.protocol, test);
    let worker = role == ClientRole::SideTransferWorker;
    let modules = if role == ClientRole::External {
        ClientModules::External(external_arg(config, build_version))
    } else {
        ClientModules::Owner {
            seg_pool: SegPoolArg {
                contribute_size: config.contribute_to_cluster_pool_size.duplicate(),
                share_mem_path: config.share_mem_path.clone(),
                large_file_paths: config.large_file_paths.duplicate(),
                cluster_name: config.cluster_name.clone(),
                etcd_addresses: text::clone_texts(&config.etcd_addresses_raw),
                attach_existing_meta: worker,
                side_transfer_worker: worker,
                require_transfer_rpc_fast_path_ready_timeout_seconds:
                    test.require_transfer_rpc_fast_path_ready_timeout_seconds,
            },
            transfer_engine: transfer_engine_arg(
                &config.fluxonkv_spec.etcd_addresses,
                &config.instance_key,
                config.fluxonkv_spec.enable_transfer_rpc_fast_path,
                config.fluxonkv_spec.transfer_engine,
                &config.protocol,
                test,
                mode,
            ),
        }
    };
    let owner = role == ClientRole::Owner;
    Ok(
        ClientPlan {
            role,
            framework_name: client_framework_name(
                &role,
                config.cluster_name.as_str(),
                config.instance_key.as_str(),
            ),
            cluster_manager: cluster_manager_arg(
                config,
                metadata,
                local_ipc_root,
                rdma_control_init,
            ),
            p2p: p2p_arg(config.fluxonkv_spec.p2p_listen_port, test),
            modules,
            awaits_owner: worker,
            awaits_fast_path: owner,
            side_workers: if owner {
                test.side_transfer_worker_count
            } else {
                0
            },
        },
    )
}

/// `role`, the cluster and the node, with colons between them.
fn framework_name(role: &str, cluster_name: &str, instance_key: &str) -> (name: String)
    ensures
        name@ == role@ + ":"@ + cluster_name@ + ":"@ + instance_key@,
{
    role.to_owned().concat(":").concat(cluster_name).concat(":").concat(instance_key)
}

/// Plans a broker, whose configuration has to be that of an external client. `component_mark` is
/// what it publishes as a broker.
pub fn plan_broker(
    config: &ClientConfig,
    build_version: &str,
    local_ipc_root: Option<String>,
    component_mark: (String, String),
    overrides: Option<RunTestOverrides>,
) -> (plan: Result<BrokerPlan, BrokerConfigError>)
    ensures
        match plan {
            Ok(plan) => {
                &&& ClientRole::of(*config) == ClientRole::External
                &&& plan.framework_name@ == "fluxon_kv.broker"@ + ":"@ + config.cluster_name@ + ":"@
                    + config.instance_key@
                &&& plan.cluster_manager.follows(*config, local_ipc_root, overrides)
                &&& forall|key: Seq<char>| #[trigger]
                    plan.cluster_manager.metadata.value(key) == if key == "version"@ {
                        Some(build_version@)
                    } else if key == component_mark.0@ {
                        Some(component_mark.1@)
                    } else if key == "external_client"@ {
                        Some("true"@)
                    } else {
                        None
                    }
                &&& plan.p2p.follows(
                    config.fluxonkv_spec.p2p_listen_port,
                    config.test_spec_config,
                )
                &&& external_arg_of(plan.external, *config, build_version@)
            },
            Err(err) => match ClientRole::of(*config) {
                ClientRole::Owner => err == BrokerConfigError::GivesMemory,
                ClientRole::SideTransferWorker => err == BrokerConfigError::SideTransferWorker,
                ClientRole::External => false,
            },
        },
{
    if let Err(err) = check_broker_config(config) {
        return Err(err);
    }
    let test = &config.test_spec_config;
    let metadata = broker_startup_metadata(build_version, component_mark);
    let (rdma_override, _) = split_overrides(overrides);
    let rdma_control_init = choose_rdma_control_init(rdma_override, test);
    Ok(
        BrokerPlan {
            framework_name: framework_name(
                "fluxon_kv.broker",
                config.cluster_name.as_str(),
                config.instance_key.as_str(),
            ),
            cluster_manager: cluster_manager_arg(
                config,
                metadata,
                local_ipc_root,
                rdma_control_init,
            ),
            p2p: p2p_arg(config.fluxonkv_spec.p2p_listen_port, test),
            external: external_arg(config, build_version),
        },
    )
}

/// Plans a master. `observe_broadcast` is what it publishes on how nodes are observed, where that is
/// configured; it publishes nothing of it where observability is switched off.
pub fn plan_master(
    config: &MasterConfig,
    build_version: &str,
    observe_broadcast: Option<(String, String)>,
    overrides: Option<RunTestOverrides>,
) -> (plan: MasterPlan)
    requires
        config.etcd_endpoints@.len() > 0,
    ensures
        plan.framework_name@ == "fluxon_kv.master"@ + ":"@ + config.cluster_name@ + ":"@
            + config.instance_key@,
        plan.cluster_manager.etcd_endpoints@ == config.etcd_endpoints@,
        plan.cluster_manager.cluster_name == config.cluster_name,
        plan.cluster_manager.instance_name == config.instance_key,
        plan.cluster_manager.local_ipc_root is None,
        plan.cluster_manager.sub_cluster is None,
        rdma_control_of(
            plan.cluster_manager.rdma_control_init,
            overrides,
            config.test_spec_config,
        ),
        forall|key: Seq<char>| #[trigger]
            plan.cluster_manager.metadata.value(key) == match observe_broadcast {
                Some((name, value)) if name@ == key
                    && !config.test_spec_config.disable_observability => Some(value@),
                _ => if key == "version"@ {
                    Some(build_version@)
                } else if key == "master"@ {
                    Some("true"@)
                } else {
                    None
                },
            },
        plan.p2p.follows(config.port, config.test_spec_config),
        plan.transfer_engine.follows(
            config.etcd_endpoints@,
            config.instance_key,
            config.enable_transfer_rpc_fast_path,
            config.transfer_engine,
            config.protocol,
            config.test_spec_config,
            activation_mode_of(overrides, config.protocol, config.test_spec_config),
        ),
        plan.router.test_spec_config.skip_put_end_commit
            == config.test_spec_config.skip_put_end_commit,
        plan.router.test_spec_config.disable_master_replica_cache
            == config.test_spec_config.disable_master_replica_cache,
        plan.router.test_spec_config.disable_prefix_index
            == config.test_spec_config.disable_prefix_index,
        plan.leases.cleanup_interval == 5,
        plan.leases.default_ttl == 30,
        plan.logs_dir_name@ == config.cluster_name@ + "_cluster_kv_logs"@,
        plan.profiles_dir_name@ == config.cluster_name@ + "_cluster_kv_profiles"@,
{
    let test = &config.test_spec_config;
    let broadcast = if test.disable_observability {
        None
    } else {
        observe_broadcast
    };
    let metadata = master_startup_metadata(build_version, broadcast);
    let (rdma_override, mode_override) = split_overrides(overrides);
    let rdma_control_init = choose_rdma_control_init(rdma_override, test);
    let mode = choose_transfer_backend_activation_mode(mode_override, &config.protocol, test);
    let logs_dir_name = config.cluster_name.clone().concat("_cluster_kv_logs");
    let profiles_dir_name = config.cluster_name.clone().concat("_cluster_kv_profiles");
    MasterPlan {
        framework_name: framework_name(
            "fluxon_kv.master",
            config.cluster_name.as_str(),
            config.instance_key.as_str(),
        ),
        cluster_manager: ClusterManagerArg {
            etcd_endpoints: text::clone_texts(&config.etcd_endpoints),
            cluster_name: config.cluster_name.clone(),
            instance_name: config.instance_key.clone(),
            metadata,
            local_ipc_root: None,
            rdma_control_init,
            sub_cluster: None,
        },
        p2p: p2p_arg(config.port, test),
        transfer_engine: transfer_engine_arg(
            &config.etcd_endpoints,
            &config.instance_key,
            config.enable_transfer_rpc_fast_path,
            config.transfer_engine,
            &config.protocol,
            test,
            mode,
        ),
        router: MasterKvRouterNewArg { test_spec_config: test.master_switches() },
        leases: MasterLeaseManagerNewArg { cleanup_interval: 5, default_ttl: 30 },
        logs_dir_name,
        profiles_dir_name,
    }
}

} // verus!
