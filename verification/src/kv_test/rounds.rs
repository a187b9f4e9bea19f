//! The rounds of a test run, and the nodes that are launched in them.

use crate::config::{
    ClientConfig,
    ContributeToClusterPoolSize,
    FluxonKvSpec,
    LargeFilePaths,
    MasterConfig,
    ProtocolConfig,
    ProtocolType,
    TestSpecConfig,
    TestSpecTransportMode,
    TransferEngineType,
};
use crate::kv_test::split_comma_list;
use crate::startup::{join_with_commas, ClusterManagerRdmaControlInit, TransferBackendActivationMode};
use crate::text;
use std::collections::HashMap;
use vstd::prelude::*;

verus! {

/// Memory that an owner gives in a round.
pub const OWNER_DRAM: u64 = 167772160;

/// The configuration with the side workers that a test asks for.
pub open spec fn with_side_workers(
    config: ClientConfig,
    worker_count: Option<u16>,
    port_base: Option<u16>,
) -> ClientConfig {
    match worker_count {
        Some(count) => ClientConfig {
            test_spec_config: TestSpecConfig {
                enable_side_transfer: true,
                side_transfer_worker_count: count,
                side_transfer_worker_p2p_port_base: port_base,
                ..config.test_spec_config
            },
            ..config
        },
        None => config,
    }
}

/// Owners get side workers in a test, where the test asks for them.
pub fn apply_kv_test_owner_side_transfer_overrides(
    config: &mut ClientConfig,
    worker_count: Option<u16>,
    port_base: Option<u16>,
)
    ensures
        *final(config) == with_side_workers(*old(config), worker_count, port_base),
{
    if let Some(count) = worker_count {
        config.test_spec_config.enable_side_transfer = true;
        config.test_spec_config.side_transfer_worker_count = count;
        config.test_spec_config.side_transfer_worker_p2p_port_base = port_base;
    }
}

#[derive(Debug, Clone, Copy, PartialEq, Eq, Structural)]
pub enum KvTestEtcdMode {
    Enabled,
    Disabled,
}

/// How a client of a round is set up, as far as it is said.
#[derive(Debug)]
pub struct KvTestClientOptions {
    pub protocol_config: Option<ProtocolConfig>,
    pub transfer_engine: Option<TransferEngineType>,
    pub rdma_control_init: Option<ClusterManagerRdmaControlInit>,
    pub transfer_backend_activation_mode: Option<TransferBackendActivationMode>,
    pub enable_transfer_rpc_fast_path: Option<bool>,
    pub contribute_to_cluster_pool_size: Option<ContributeToClusterPoolSize>,
    pub shared_memory_path: Option<String>,
    pub shared_file_path: Option<String>,
    pub etcd_mode: Option<KvTestEtcdMode>,
}

/// The first that is there.
pub open spec fn either<T>(first: Option<T>, second: Option<T>) -> Option<T> {
    match first {
        Some(value) => Some(value),
        None => second,
    }
}

fn first_of<T>(first: Option<T>, second: Option<T>) -> (value: Option<T>)
    ensures
        value == either(first, second),
{
    match first {
        Some(value) => Some(value),
        None => second,
    }
}

impl KvTestClientOptions {
    /// The options with what the overrides say in place of what they say.
    pub open spec fn overridden(self, overrides: KvTestClientOptions) -> KvTestClientOptions {
        KvTestClientOptions {
            protocol_config: either(overrides.protocol_config, self.protocol_config),
            transfer_engine: either(overrides.transfer_engine, self.transfer_engine),
            rdma_control_init: either(overrides.rdma_control_init, self.rdma_control_init),
            transfer_backend_activation_mode: either(
                overrides.transfer_backend_activation_mode,
                self.transfer_backend_activation_mode,
            ),
            enable_transfer_rpc_fast_path: either(
                overrides.enable_transfer_rpc_fast_path,
                self.enable_transfer_rpc_fast_path,
            ),
            contribute_to_cluster_pool_size: either(
                overrides.contribute_to_cluster_pool_size,
                self.contribute_to_cluster_pool_size,
            ),
            shared_memory_path: either(overrides.shared_memory_path, self.shared_memory_path),
            shared_file_path: either(overrides.shared_file_path, self.shared_file_path),
            etcd_mode: either(overrides.etcd_mode, self.etcd_mode),
        }
    }

    /// The options with what the overrides say in place of what they say.
    pub fn merged_with(self, overrides: KvTestClientOptions) -> (merged: KvTestClientOptions)
        ensures
            merged == self.overridden(overrides),
    {
        KvTestClientOptions {
            protocol_config: first_of(overrides.protocol_config, self.protocol_config),
            transfer_engine: first_of(overrides.transfer_engine, self.transfer_engine),
            rdma_control_init: first_of(overrides.rdma_control_init, self.rdma_control_init),
            transfer_backend_activation_mode: first_of(
                overrides.transfer_backend_activation_mode,
                self.transfer_backend_activation_mode,
            ),
            enable_transfer_rpc_fast_path: first_of(
                overrides.enable_transfer_rpc_fast_path,
                self.enable_transfer_rpc_fast_path,
            ),
            contribute_to_cluster_pool_size: first_of(
                overrides.contribute_to_cluster_pool_size,
                self.contribute_to_cluster_pool_size,
            ),
            shared_memory_path: first_of(overrides.shared_memory_path, self.shared_memory_path),
            shared_file_path: first_of(overrides.shared_file_path, self.shared_file_path),
            etcd_mode: first_of(overrides.etcd_mode, self.etcd_mode),
        }
    }
}

#[derive(Debug, Clone, Copy, PartialEq, Eq, Structural)]
pub enum KvTestRoundProfile {
    P2pOnly,
    RdmaTransferOnly,
    RdmaTransferWithRpc,
}

impl KvTestRoundProfile {
    pub open spec fn name(self) -> Seq<char> {
        match self {
            KvTestRoundProfile::P2pOnly => "p2p_only"@,
            KvTestRoundProfile::RdmaTransferOnly => "rdma_transfer_only"@,
            KvTestRoundProfile::RdmaTransferWithRpc => "rdma_transfer_with_rpc"@,
        }
    }

    pub open spec fn uses_rdma(self) -> bool {
        self != KvTestRoundProfile::P2pOnly
    }

    pub fn round_name(self) -> (name: &'static str)
        ensures
            name@ == self.name(),
    {
        match self {
            KvTestRoundProfile::P2pOnly => "p2p_only",
            KvTestRoundProfile::RdmaTransferOnly => "rdma_transfer_only",
            KvTestRoundProfile::RdmaTransferWithRpc => "rdma_transfer_with_rpc",
        }
    }

    /// How the nodes of a round transfer values.
    pub open spec fn engine(self) -> TransferEngineType {
        if self.uses_rdma() {
            TransferEngineType::Closed
        } else {
            TransferEngineType::P2p
        }
    }

    /// What decides whether transfers use a backend in a round.
    pub open spec fn activation(self) -> Option<TransferBackendActivationMode> {
        if self.uses_rdma() {
            Some(TransferBackendActivationMode::TestForceEnableBypassRdmaControl)
        } else {
            None
        }
    }

    pub open spec fn mode(self) -> Option<TestSpecTransportMode> {
        match self {
            KvTestRoundProfile::P2pOnly => None,
            KvTestRoundProfile::RdmaTransferOnly => Some(TestSpecTransportMode::TransferOnly),
            KvTestRoundProfile::RdmaTransferWithRpc => Some(
                TestSpecTransportMode::TransferWithRpc,
            ),
        }
    }

    /// The protocol is that of the round.
    pub open spec fn speaks(self, protocol: ProtocolConfig, devices: Seq<String>) -> bool {
        if self.uses_rdma() {
            &&& protocol.protocol_type == ProtocolType::Rdma
            &&& protocol.rdma_device_names matches Some(names) && names@
                == crate::startup::comma_joined(devices)
        } else {
            is_tcp(protocol)
        }
    }

    /// How the nodes of a round start with their RDMA devices.
    pub open spec fn rdma_control(self, devices: Seq<String>) -> crate::startup::RdmaControlView {
        if self.uses_rdma() {
            crate::startup::RdmaControlView::Explicit(devices)
        } else {
            crate::startup::RdmaControlView::Disabled
        }
    }

    /// The settings for tests are those of the round's nodes.
    pub open spec fn sets(self, config: TestSpecConfig, devices: Seq<String>) -> bool {
        &&& config == (TestSpecConfig {
            transport_mode: self.mode(),
            rdma_device_names: config.rdma_device_names,
            ..TestSpecConfig::unset()
        })
        &&& match config.rdma_device_names {
            Some(names) => self.uses_rdma() && names@ == devices,
            None => !self.uses_rdma(),
        }
    }

    pub fn transfer_engine(self) -> (engine: TransferEngineType)
        ensures
            engine == self.engine(),
    {
        match self {
            KvTestRoundProfile::P2pOnly => TransferEngineType::P2p,
            _ => TransferEngineType::Closed,
        }
    }

    /// The protocol of a round; `devices` are those that an RDMA round needs.
    pub fn protocol_config(self, devices: &Vec<String>) -> (protocol: ProtocolConfig)
        ensures
            self.speaks(protocol, devices@),
    {
        match self {
            KvTestRoundProfile::P2pOnly => tcp_protocol_config(),
            _ => ProtocolConfig {
                protocol_type: ProtocolType::Rdma,
                rdma_device_names: Some(join_with_commas(devices)),
            },
        }
    }

    pub fn rdma_control_init(self, devices: &Vec<String>) -> (init: ClusterManagerRdmaControlInit)
        ensures
            crate::startup::rdma_control_view(init) == self.rdma_control(devices@),
    {
        match self {
            KvTestRoundProfile::P2pOnly => ClusterManagerRdmaControlInit::Disabled,
            _ => ClusterManagerRdmaControlInit::ExplicitDevices(text::clone_texts(devices)),
        }
    }

    pub fn transfer_backend_activation_mode(self) -> (mode: Option<TransferBackendActivationMode>)
        ensures
            mode == self.activation(),
    {
        match self {
            KvTestRoundProfile::P2pOnly => None,
            _ => Some(TransferBackendActivationMode::TestForceEnableBypassRdmaControl),
        }
    }

    pub fn enable_transfer_rpc_fast_path(self) -> (enable: bool)
        ensures
            enable == (self == KvTestRoundProfile::RdmaTransferWithRpc),
    {
        match self {
            KvTestRoundProfile::RdmaTransferWithRpc => true,
            _ => false,
        }
    }

    pub fn transport_mode(self) -> (mode: Option<TestSpecTransportMode>)
        ensures
            mode == self.mode(),
    {
        match self {
            KvTestRoundProfile::P2pOnly => None,
            KvTestRoundProfile::RdmaTransferOnly => Some(TestSpecTransportMode::TransferOnly),
            KvTestRoundProfile::RdmaTransferWithRpc => Some(
                TestSpecTransportMode::TransferWithRpc,
            ),
        }
    }

    /// The settings for tests that a round's nodes get.
    pub fn test_spec_config(self, devices: &Vec<String>) -> (config: TestSpecConfig)
        ensures
            self.sets(config, devices@),
    {
        let mut config = TestSpecConfig::default();
        config.transport_mode = self.transport_mode();
        match self {
            KvTestRoundProfile::P2pOnly => {},
            _ => {
                config.rdma_device_names = Some(text::clone_texts(devices));
            },
        }
        config
    }
}

/// The protocol is plain TCP.
pub open spec fn is_tcp(protocol: ProtocolConfig) -> bool {
    protocol.protocol_type == ProtocolType::Tcp && protocol.rdma_device_names is None
}

pub fn tcp_protocol_config() -> (protocol: ProtocolConfig)
    ensures
        is_tcp(protocol),
{
    ProtocolConfig { protocol_type: ProtocolType::Tcp, rdma_device_names: None }
}

/// So much main memory is given, and none of an accelerator.
pub open spec fn gives(size: ContributeToClusterPoolSize, dram: u64) -> bool {
    size.dram == dram && size.vram@ == Map::<u64, u64>::empty()
}

/// So much main memory, and none of an accelerator.
pub fn pool_size(dram: u64) -> (size: ContributeToClusterPoolSize)
    ensures
        gives(size, dram),
{
    broadcast use vstd::std_specs::hash::group_hash_axioms;

    ContributeToClusterPoolSize { dram, vram: HashMap::new() }
}

/// The options are those of the round's nodes, as far as transfers go.
pub open spec fn transfers_as(
    options: KvTestClientOptions,
    profile: KvTestRoundProfile,
    devices: Seq<String>,
) -> bool {
    &&& options.protocol_config matches Some(protocol) && profile.speaks(protocol, devices)
    &&& options.transfer_engine == Some(profile.engine())
    &&& options.rdma_control_init matches Some(init) && crate::startup::rdma_control_view(init)
        == profile.rdma_control(devices)
    &&& options.transfer_backend_activation_mode == profile.activation()
    &&& options.enable_transfer_rpc_fast_path == Some(
        profile == KvTestRoundProfile::RdmaTransferWithRpc,
    )
    &&& options.shared_memory_path is None
    &&& options.shared_file_path is None
}

/// The options are those of the round's owners.
pub open spec fn owner_options(
    options: KvTestClientOptions,
    profile: KvTestRoundProfile,
    devices: Seq<String>,
) -> bool {
    &&& transfers_as(options, profile, devices)
    &&& options.contribute_to_cluster_pool_size matches Some(size) && gives(size, OWNER_DRAM)
    &&& options.etcd_mode == Some(KvTestEtcdMode::Enabled)
}

/// How owners of a round are set up.
pub fn default_owner_test_client_options(
    round_profile: KvTestRoundProfile,
    devices: &Vec<String>,
) -> (options: KvTestClientOptions)
    ensures
        owner_options(options, round_profile, devices@),
{
    KvTestClientOptions {
        protocol_config: Some(round_profile.protocol_config(devices)),
        transfer_engine: Some(round_profile.transfer_engine()),
        rdma_control_init: Some(round_profile.rdma_control_init(devices)),
        transfer_backend_activation_mode: round_profile.transfer_backend_activation_mode(),
        enable_transfer_rpc_fast_path: Some(round_profile.enable_transfer_rpc_fast_path()),
        contribute_to_cluster_pool_size: Some(pool_size(OWNER_DRAM)),
        shared_memory_path: None,
        shared_file_path: None,
        etcd_mode: Some(KvTestEtcdMode::Enabled),
    }
}

/// How the master of a round is set up.
pub fn default_master_test_client_options(
    round_profile: KvTestRoundProfile,
    devices: &Vec<String>,
) -> (options: KvTestClientOptions)
    ensures
        transfers_as(options, round_profile, devices@),
        options.contribute_to_cluster_pool_size is None,
        options.etcd_mode is None,
{
    KvTestClientOptions {
        protocol_config: Some(round_profile.protocol_config(devices)),
        transfer_engine: Some(round_profile.transfer_engine()),
        rdma_control_init: Some(round_profile.rdma_control_init(devices)),
        transfer_backend_activation_mode: round_profile.transfer_backend_activation_mode(),
        enable_transfer_rpc_fast_path: Some(round_profile.enable_transfer_rpc_fast_path()),
        contribute_to_cluster_pool_size: None,
        shared_memory_path: None,
        shared_file_path: None,
        etcd_mode: None,
    }
}

/// The options are those of external clients: over TCP, without memory, and told of the cluster by
/// their owner alone.
pub open spec fn external_options(options: KvTestClientOptions) -> bool {
    &&& options.protocol_config matches Some(protocol) && is_tcp(protocol)
    &&& options.transfer_engine == Some(TransferEngineType::P2p)
    &&& options.rdma_control_init == Some(ClusterManagerRdmaControlInit::Disabled)
    &&& options.transfer_backend_activation_mode is None
    &&& options.enable_transfer_rpc_fast_path == Some(false)
    &&& options.contribute_to_cluster_pool_size matches Some(size) && gives(size, 0)
    &&& options.shared_memory_path is None
    &&& options.shared_file_path is None
    &&& options.etcd_mode == Some(KvTestEtcdMode::Disabled)
}

/// How external clients of a round are set up.
pub fn default_external_test_client_options() -> (options: KvTestClientOptions)
    ensures
        external_options(options),
{
    KvTestClientOptions {
        protocol_config: Some(tcp_protocol_config()),
        transfer_engine: Some(TransferEngineType::P2p),
        rdma_control_init: Some(ClusterManagerRdmaControlInit::Disabled),
        transfer_backend_activation_mode: None,
        enable_transfer_rpc_fast_path: Some(false),
        contribute_to_cluster_pool_size: Some(pool_size(0)),
        shared_memory_path: None,
        shared_file_path: None,
        etcd_mode: Some(KvTestEtcdMode::Disabled),
    }
}

/// The key of an instance, different for each round and each run.
pub open spec fn scoped_key(
    round_name: Seq<char>,
    run_scope: Seq<char>,
    instance_key: Seq<char>,
) -> Seq<char> {
    round_name + "_"@ + run_scope + "_"@ + instance_key
}

pub fn scoped_instance_key(round_name: &str, run_scope: &str, instance_key: &str) -> (key: String)
    ensures
        key@ == scoped_key(round_name@, run_scope@, instance_key@),
{
    round_name.to_owned().concat("_").concat(run_scope).concat("_").concat(instance_key)
}

/// A round of a test run: its cluster and its ports are its own, so that what another run left
/// behind does not disturb it.
#[derive(Debug)]
pub struct KvTestRoundOptions {
    pub round_profile: KvTestRoundProfile,
    pub run_scope: String,
    pub cluster_name: String,
    pub master_port: u16,
    pub step8_master_port: u16,
}

impl KvTestRoundOptions {
    /// The round has this profile, in this run.
    pub open spec fn is_round(
        self,
        profile: KvTestRoundProfile,
        master_port: u16,
        run_scope: Seq<char>,
    ) -> bool {
        &&& self.round_profile == profile
        &&& self.run_scope@ == run_scope
        &&& self.cluster_name@ == "test_cluster_"@ + profile.name() + "_"@ + run_scope
        &&& self.master_port == master_port
        &&& self.step8_master_port == master_port + 10
    }
}

pub fn new_kv_test_round(round_profile: KvTestRoundProfile, master_port: u16, run_scope: &str) -> (round:
    KvTestRoundOptions)
    requires
        master_port <= u16::MAX - 10,
    ensures
        round.is_round(round_profile, master_port, run_scope@),
{
    KvTestRoundOptions {
        round_profile,
        run_scope: run_scope.to_owned(),
        cluster_name: "test_cluster_".to_owned().concat(round_profile.round_name()).concat(
            "_",
        ).concat(run_scope),
        master_port,
        step8_master_port: master_port + 10,
    }
}

impl KvTestRoundOptions {
    /// The key of an instance in this round.
    pub fn scoped_instance_key(&self, instance_key: &str) -> (key: String)
        ensures
            key@ == scoped_key(self.round_profile.name(), self.run_scope@, instance_key@),
    {
        scoped_instance_key(self.round_profile.round_name(), self.run_scope.as_str(), instance_key)
    }

    pub fn step8_shared_memory_path(&self) -> (path: String)
        ensures
            path@ == "/tmp/kvcache_shared_memory_step8_"@ + self.round_profile.name() + "_"@
                + self.run_scope@,
    {
        "/tmp/kvcache_shared_memory_step8_".to_owned().concat(
            self.round_profile.round_name(),
        ).concat("_").concat(self.run_scope.as_str())
    }

    pub fn step8_shared_file_path(&self) -> (path: String)
        ensures
            path@ == "/tmp/kvcache_shared_files_step8_"@ + self.round_profile.name() + "_"@
                + self.run_scope@,
    {
        "/tmp/kvcache_shared_files_step8_".to_owned().concat(
            self.round_profile.round_name(),
        ).concat("_").concat(self.run_scope.as_str())
    }
}

/// The rounds that can be asked for by name.
pub open spec fn profile_named(name: Seq<char>) -> Option<KvTestRoundProfile> {
    if name == "p2p_only"@ {
        Some(KvTestRoundProfile::P2pOnly)
    } else if name == "rdma_transfer_only"@ {
        Some(KvTestRoundProfile::RdmaTransferOnly)
    } else if name == "rdma_transfer_with_rpc"@ {
        Some(KvTestRoundProfile::RdmaTransferWithRpc)
    } else {
        None
    }
}

/// The master's port in a round.
pub open spec fn round_port(profile: KvTestRoundProfile) -> u16 {
    match profile {
        KvTestRoundProfile::P2pOnly => 50220,
        KvTestRoundProfile::RdmaTransferOnly => 50240,
        KvTestRoundProfile::RdmaTransferWithRpc => 50260,
    }
}

fn find_profile(name: &str) -> (profile: Option<KvTestRoundProfile>)
    ensures
        profile == profile_named(name@),
{
    if text::same_text(name, "p2p_only") {
        Some(KvTestRoundProfile::P2pOnly)
    } else if text::same_text(name, "rdma_transfer_only") {
        Some(KvTestRoundProfile::RdmaTransferOnly)
    } else if text::same_text(name, "rdma_transfer_with_rpc") {
        Some(KvTestRoundProfile::RdmaTransferWithRpc)
    } else {
        None
    }
}

pub fn master_port(profile: KvTestRoundProfile) -> (port: u16)
    ensures
        port == round_port(profile),
{
    match profile {
        KvTestRoundProfile::P2pOnly => 50220,
        KvTestRoundProfile::RdmaTransferOnly => 50240,
        KvTestRoundProfile::RdmaTransferWithRpc => 50260,
    }
}

/// Why no rounds can be run.
#[derive(Debug)]
pub enum RoundsErrorOf<S> {
    Unsupported { name: S },
    /// FLUXON_KV_TEST_RDMA_DEVICE_NAMES is required for RDMA kv_test rounds; expected a
    /// comma-separated list such as 'mlx5_0'
    NoDevices,
    /// FLUXON_KV_TEST_ROUNDS was set but produced no valid rounds
    Nothing,
}

pub type RoundsError = RoundsErrorOf<String>;

impl View for RoundsErrorOf<String> {
    type V = RoundsErrorOf<Seq<char>>;

    open spec fn view(&self) -> RoundsErrorOf<Seq<char>> {
        match self {
            RoundsErrorOf::Unsupported { name } => RoundsErrorOf::Unsupported { name: name@ },
            RoundsErrorOf::NoDevices => RoundsErrorOf::NoDevices,
            RoundsErrorOf::Nothing => RoundsErrorOf::Nothing,
        }
    }
}

/// Why a round cannot be run, if it cannot: RDMA rounds need devices.
pub open spec fn round_fault(name: Seq<char>, has_devices: bool) -> Option<RoundsErrorOf<Seq<char>>> {
    match profile_named(name) {
        None => Some(RoundsErrorOf::Unsupported { name }),
        Some(profile) => if profile.uses_rdma() && !has_devices {
            Some(RoundsErrorOf::NoDevices)
        } else {
            None
        },
    }
}

/// Why the rounds cannot all be run, by the first that cannot.
pub open spec fn rounds_fault(names: Seq<Seq<char>>, has_devices: bool) -> Option<
    RoundsErrorOf<Seq<char>>,
>
    decreases names.len(),
{
    if names.len() == 0 {
        None
    } else {
        match rounds_fault(names.drop_last(), has_devices) {
            Some(fault) => Some(fault),
            None => round_fault(names.last(), has_devices),
        }
    }
}

/// The rounds are those with these names, in this order.
pub open spec fn are_rounds(
    rounds: Seq<KvTestRoundOptions>,
    names: Seq<Seq<char>>,
    run_scope: Seq<char>,
) -> bool {
    &&& rounds.len() == names.len()
    &&& forall|i: int|
        0 <= i < rounds.len() ==> (profile_named(#[trigger] names[i]) matches Some(profile)
            && rounds[i].is_round(profile, round_port(profile), run_scope))
}

proof fn lemma_first_fault_is_final(names: Seq<Seq<char>>, has_devices: bool, n: int)
    requires
        0 <= n <= names.len(),
        rounds_fault(names.take(n), has_devices) is Some,
    ensures
        rounds_fault(names, has_devices) == rounds_fault(names.take(n), has_devices),
    decreases names.len() - n,
{
    if n < names.len() {
        assert(names.take(n + 1).drop_last() =~= names.take(n));
        lemma_first_fault_is_final(names, has_devices, n + 1);
    } else {
        assert(names.take(n) =~= names);
    }
}

/// The rounds that are run where none are asked for.
pub open spec fn default_rounds() -> Seq<Seq<char>> {
    seq!["p2p_only"@, "rdma_transfer_only"@, "rdma_transfer_with_rpc"@]
}

/// The names of the rounds of a test run: all three, or those that are asked for.
pub open spec fn asked_rounds(raw_rounds: Option<&str>) -> Seq<Seq<char>> {
    match raw_rounds {
        None => default_rounds(),
        Some(raw) => crate::kv_test::comma_list(raw@),
    }
}

fn round_names(raw_rounds: Option<&str>) -> (names: Vec<String>)
    ensures
        crate::kv_test::text_views(names@) == asked_rounds(raw_rounds),
{
    match raw_rounds {
        Some(raw) => split_comma_list(raw),
        None => {
            let names = vec![
                "p2p_only".to_owned(),
                "rdma_transfer_only".to_owned(),
                "rdma_transfer_with_rpc".to_owned(),
            ];
            assert(crate::kv_test::text_views(names@) =~= default_rounds());
            names
        },
    }
}

/// The rounds of a test run, in the order in which they are asked for. `has_devices` tells whether
/// RDMA devices are named.
pub fn default_kv_test_run_options(
    raw_rounds: Option<&str>,
    has_devices: bool,
    run_scope: &str,
) -> (rounds: Result<Vec<KvTestRoundOptions>, RoundsError>)
    ensures
        ({
            let names = asked_rounds(raw_rounds);
            match rounds_fault(names, has_devices) {
                Some(fault) => rounds matches Err(error) && error@ == fault,
                None => if names.len() == 0 {
                    rounds matches Err(error) && error@ == RoundsErrorOf::<Seq<char>>::Nothing
                } else {
                    rounds matches Ok(rounds) && are_rounds(rounds@, names, run_scope@)
                },
            }
        }),
{
    let names = round_names(raw_rounds);
    let ghost all = asked_rounds(raw_rounds);
    let mut rounds: Vec<KvTestRoundOptions> = Vec::new();
    let mut i: usize = 0;
    assert(all.take(0) =~= Seq::<Seq<char>>::empty());
    while i < names.len()
        invariant
            i <= names@.len(),
            all == asked_rounds(raw_rounds),
            crate::kv_test::text_views(names@) == all,
            all.len() == names@.len(),
            rounds_fault(all.take(i as int), has_devices) is None,
            are_rounds(rounds@, all.take(i as int), run_scope@),
        decreases names@.len() - i,
    {
        proof {
            assert(all[i as int] == names@[i as int]@);
            assert(all.take(i + 1).drop_last() =~= all.take(i as int));
            assert(all.take(i + 1).last() == all[i as int]);
        }
        let profile = match find_profile(names[i].as_str()) {
            Some(profile) => profile,
            None => {
                proof {
                    lemma_first_fault_is_final(all, has_devices, i + 1);
                }
                return Err(RoundsErrorOf::Unsupported { name: names[i].clone() });
            },
        };
        let needs_devices = match profile {
            KvTestRoundProfile::P2pOnly => false,
            _ => true,
        };
        if needs_devices && !has_devices {
            proof {
                lemma_first_fault_is_final(all, has_devices, i + 1);
            }
            return Err(RoundsErrorOf::NoDevices);
        }
        let ghost before = rounds@;
        rounds.push(new_kv_test_round(profile, master_port(profile), run_scope));
        proof {
            let taken = all.take(i + 1);
            assert forall|k: int| 0 <= k < rounds@.len() implies (profile_named(
                #[trigger] taken[k],
            ) matches Some(profile) && rounds@[k].is_round(
                profile,
                round_port(profile),
                run_scope@,
            )) by {
                if k < i {
                    assert(all.take(i as int)[k] == taken[k]);
                    assert(before[k] == rounds@[k]);
                }
            }
        }
        i = i + 1;
    }
    assert(all.take(i as int) =~= all);
    if rounds.len() == 0 {
        return Err(RoundsErrorOf::Nothing);
    }
    Ok(rounds)
}

/// A client of a round, ready to run.
#[derive(Debug)]
pub struct KvTestClientLaunch {
    pub config: ClientConfig,
    pub rdma_control_init: ClusterManagerRdmaControlInit,
    pub transfer_backend_activation_mode: Option<TransferBackendActivationMode>,
}

/// The cluster's store, as a test configuration names it.
pub struct EtcdEndpoint {
    pub endpoint: String,
    pub host_port: String,
}

/// A path below a directory for one instance.
pub open spec fn instance_path(directory: Seq<char>, instance_key: Seq<char>) -> Seq<char> {
    directory + instance_key
}

/// The path that is set, or else the one below a directory for the instance.
pub open spec fn path_or(path: Option<String>, directory: Seq<char>, instance_key: Seq<char>) -> Seq<
    char,
> {
    match path {
        Some(path) => path@,
        None => instance_path(directory, instance_key),
    }
}

/// The launch is what the options of a client of the round say.
pub open spec fn is_launch_of(
    launch: KvTestClientLaunch,
    round: KvTestRoundOptions,
    devices: Seq<String>,
    instance_key: Seq<char>,
    options: KvTestClientOptions,
    etcd: EtcdEndpoint,
) -> bool {
    let config = launch.config;
    &&& Some(launch.rdma_control_init) == options.rdma_control_init
    &&& launch.transfer_backend_activation_mode == options.transfer_backend_activation_mode
    &&& config.cluster_name@ == round.cluster_name@
    &&& config.instance_key@ == instance_key
    &&& config.pprof_duration_seconds is None
    &&& config.redis_compat_listen_addr is None
    &&& config.fluxonkv_spec.cluster_name@ == round.cluster_name@
    &&& if options.etcd_mode == Some(KvTestEtcdMode::Disabled) {
        config.etcd_addresses_raw@.len() == 0 && config.fluxonkv_spec.etcd_addresses@.len() == 0
    } else {
        config.etcd_addresses_raw@ == seq![etcd.host_port]
            && config.fluxonkv_spec.etcd_addresses@ == seq![etcd.endpoint]
    }
    &&& match options.contribute_to_cluster_pool_size {
        Some(size) => config.contribute_to_cluster_pool_size == size,
        None => gives(config.contribute_to_cluster_pool_size, OWNER_DRAM),
    }
    &&& match options.protocol_config {
        Some(protocol) => config.protocol == protocol,
        None => is_tcp(config.protocol),
    }
    &&& config.fluxonkv_spec.transfer_engine == either(
        options.transfer_engine,
        Some(TransferEngineType::Closed),
    )->0
    &&& Some(config.fluxonkv_spec.enable_transfer_rpc_fast_path)
        == options.enable_transfer_rpc_fast_path
    &&& config.fluxonkv_spec.p2p_listen_port is None
    &&& config.fluxonkv_spec.sub_cluster is None
    &&& config.share_mem_path@ == path_or(
        options.shared_memory_path,
        "/tmp/kvcache_shared_memory/"@,
        instance_key,
    )
    &&& config.large_file_paths.paths@.len() == 1
    &&& config.large_file_paths.paths@[0]@ == path_or(
        options.shared_file_path,
        "/tmp/kvcache_shared_files/"@,
        instance_key,
    )
    &&& round.round_profile.sets(config.test_spec_config, devices)
}

/// A client of a round, from its options. What the options leave open is that of an owner.
pub fn build_client_launch(
    round: &KvTestRoundOptions,
    devices: &Vec<String>,
    instance_key: &str,
    options: KvTestClientOptions,
    etcd: &EtcdEndpoint,
) -> (launch: KvTestClientLaunch)
    requires
        options.rdma_control_init is Some,
        options.enable_transfer_rpc_fast_path is Some,
    ensures
        is_launch_of(launch, *round, devices@, instance_key@, options, *etcd),
{
    let disabled = match options.etcd_mode {
        Some(KvTestEtcdMode::Disabled) => true,
        _ => false,
    };
    let mut etcd_addresses_raw: Vec<String> = Vec::new();
    let mut etcd_addresses: Vec<String> = Vec::new();
    if !disabled {
        etcd_addresses_raw.push(etcd.host_port.clone());
        etcd_addresses.push(etcd.endpoint.clone());
        assert(etcd_addresses_raw@ =~= seq![etcd.host_port]);
        assert(etcd_addresses@ =~= seq![etcd.endpoint]);
    }
    let share_mem_path = match options.shared_memory_path {
        Some(path) => path,
        None => "/tmp/kvcache_shared_memory/".to_owned().concat(instance_key),
    };
    let shared_file_path = match options.shared_file_path {
        Some(path) => path,
        None => "/tmp/kvcache_shared_files/".to_owned().concat(instance_key),
    };
    let mut paths: Vec<String> = Vec::new();
    paths.push(shared_file_path);
    let config = ClientConfig {
        cluster_name: round.cluster_name.clone(),
        etcd_addresses_raw,
        instance_key: instance_key.to_owned(),
        contribute_to_cluster_pool_size: match options.contribute_to_cluster_pool_size {
            Some(size) => size,
            None => pool_size(OWNER_DRAM),
        },
        protocol: match options.protocol_config {
            Some(protocol) => protocol,
            None => tcp_protocol_config(),
        },
        pprof_duration_seconds: None,
        redis_compat_listen_addr: None,
        fluxonkv_spec: FluxonKvSpec {
            etcd_addresses,
            cluster_name: round.cluster_name.clone(),
            p2p_listen_port: None,
            transfer_engine: match options.transfer_engine {
                Some(engine) => engine,
                None => TransferEngineType::Closed,
            },
            enable_transfer_rpc_fast_path: match options.enable_transfer_rpc_fast_path {
                Some(enable) => enable,
                None => false,
            },
            sub_cluster: None,
        },
        share_mem_path,
        large_file_paths: LargeFilePaths { paths },
        test_spec_config: round.round_profile.test_spec_config(devices),
    };
    KvTestClientLaunch {
        config,
        rdma_control_init: match options.rdma_control_init {
            Some(init) => init,
            None => ClusterManagerRdmaControlInit::Disabled,
        },
        transfer_backend_activation_mode: options.transfer_backend_activation_mode,
    }
}

/// The options of an external client, with what they leave open: it shares its owner's directories
/// and gives no memory.
pub open spec fn completed_external(
    merged: KvTestClientOptions,
    options: KvTestClientOptions,
    owner_key: Seq<char>,
) -> bool {
    &&& options == (KvTestClientOptions {
        transfer_engine: either(merged.transfer_engine, Some(TransferEngineType::P2p)),
        rdma_control_init: either(
            merged.rdma_control_init,
            Some(ClusterManagerRdmaControlInit::Disabled),
        ),
        enable_transfer_rpc_fast_path: either(merged.enable_transfer_rpc_fast_path, Some(false)),
        etcd_mode: either(merged.etcd_mode, Some(KvTestEtcdMode::Disabled)),
        contribute_to_cluster_pool_size: options.contribute_to_cluster_pool_size,
        shared_memory_path: options.shared_memory_path,
        shared_file_path: options.shared_file_path,
        ..merged
    })
    &&& match merged.contribute_to_cluster_pool_size {
        Some(size) => options.contribute_to_cluster_pool_size == Some(size),
        None => options.contribute_to_cluster_pool_size matches Some(size) && gives(size, 0),
    }
    &&& options.shared_memory_path matches Some(path) && path@ == path_or(
        merged.shared_memory_path,
        "/tmp/kvcache_shared_memory/"@,
        owner_key,
    )
    &&& options.shared_file_path matches Some(path) && path@ == path_or(
        merged.shared_file_path,
        "/tmp/kvcache_shared_files/"@,
        owner_key,
    )
}

pub fn external_client_options(
    round_options: KvTestClientOptions,
    overrides: KvTestClientOptions,
    owner_key: &str,
) -> (options: KvTestClientOptions)
    ensures
        completed_external(round_options.overridden(overrides), options, owner_key@),
{
    let merged = round_options.merged_with(overrides);
    KvTestClientOptions {
        protocol_config: merged.protocol_config,
        transfer_engine: first_of(merged.transfer_engine, Some(TransferEngineType::P2p)),
        rdma_control_init: first_of(
            merged.rdma_control_init,
            Some(ClusterManagerRdmaControlInit::Disabled),
        ),
        transfer_backend_activation_mode: merged.transfer_backend_activation_mode,
        enable_transfer_rpc_fast_path: first_of(merged.enable_transfer_rpc_fast_path, Some(false)),
        contribute_to_cluster_pool_size: match merged.contribute_to_cluster_pool_size {
            Some(size) => Some(size),
            None => Some(pool_size(0)),
        },
        shared_memory_path: match merged.shared_memory_path {
            Some(path) => Some(path),
            None => Some("/tmp/kvcache_shared_memory/".to_owned().concat(owner_key)),
        },
        shared_file_path: match merged.shared_file_path {
            Some(path) => Some(path),
            None => Some("/tmp/kvcache_shared_files/".to_owned().concat(owner_key)),
        },
        etcd_mode: first_of(merged.etcd_mode, Some(KvTestEtcdMode::Disabled)),
    }
}

/// An owner of a round, ready to run. `worker_count` and `port_base` say which side workers it gets.
pub fn new_client_launch(
    round: &KvTestRoundOptions,
    devices: &Vec<String>,
    instance_key: &str,
    overrides: KvTestClientOptions,
    etcd: &EtcdEndpoint,
    worker_count: Option<u16>,
    port_base: Option<u16>,
) -> (launch: KvTestClientLaunch)
    ensures
        exists|options: KvTestClientOptions, bare: KvTestClientLaunch|
            owner_options(options, round.round_profile, devices@) && #[trigger] is_launch_of(
                bare,
                *round,
                devices@,
                scoped_key(round.round_profile.name(), round.run_scope@, instance_key@),
                options.overridden(overrides),
                *etcd,
            ) && launch == (KvTestClientLaunch {
                config: with_side_workers(bare.config, worker_count, port_base),
                ..bare
            }),
{
    let options = default_owner_test_client_options(round.round_profile, devices);
    let key = round.scoped_instance_key(instance_key);
    let ghost defaults = options;
    let merged = options.merged_with(overrides);
    let mut launch = build_client_launch(round, devices, key.as_str(), merged, etcd);
    let ghost bare = launch;
    apply_kv_test_owner_side_transfer_overrides(&mut launch.config, worker_count, port_base);
    assert(owner_options(defaults, round.round_profile, devices@) && is_launch_of(
        bare,
        *round,
        devices@,
        scoped_key(round.round_profile.name(), round.run_scope@, instance_key@),
        defaults.overridden(overrides),
        *etcd,
    ));
    launch
}

/// An external client of a round, ready to run. It has a key of its own, and shares the directories
/// of its owner.
pub fn new_external_client_launch(
    round: &KvTestRoundOptions,
    devices: &Vec<String>,
    external_instance_key: &str,
    owner_instance_key: &str,
    overrides: KvTestClientOptions,
    etcd: &EtcdEndpoint,
) -> (launch: KvTestClientLaunch)
    ensures
        exists|defaults: KvTestClientOptions, options: KvTestClientOptions|
            external_options(defaults) && #[trigger] completed_external(
                defaults.overridden(overrides),
                options,
                scoped_key(round.round_profile.name(), round.run_scope@, owner_instance_key@),
            ) && is_launch_of(
                launch,
                *round,
                devices@,
                scoped_key(round.round_profile.name(), round.run_scope@, external_instance_key@),
                options,
                *etcd,
            ),
{
    let defaults = default_external_test_client_options();
    let owner_key = round.scoped_instance_key(owner_instance_key);
    let ghost round_options = defaults;
    let options = external_client_options(defaults, overrides, owner_key.as_str());
    let ghost completed = options;
    let key = round.scoped_instance_key(external_instance_key);
    let launch = build_client_launch(round, devices, key.as_str(), options, etcd);
    assert(completed_external(
        round_options.overridden(overrides),
        completed,
        scoped_key(round.round_profile.name(), round.run_scope@, owner_instance_key@),
    ));
    launch
}

/// A master of a round, ready to run.
#[derive(Debug)]
pub struct KvTestMasterLaunch {
    pub config: MasterConfig,
    pub rdma_control_init: ClusterManagerRdmaControlInit,
    pub transfer_backend_activation_mode: Option<TransferBackendActivationMode>,
}

/// A master of a round, ready to run.
pub fn new_master_launch(
    round: &KvTestRoundOptions,
    devices: &Vec<String>,
    instance_key: &str,
    port: u16,
    etcd: &EtcdEndpoint,
    log_dir: &str,
) -> (launch: KvTestMasterLaunch)
    ensures
        launch.config.instance_key@ == scoped_key(
            round.round_profile.name(),
            round.run_scope@,
            instance_key@,
        ),
        launch.config.cluster_name@ == round.cluster_name@,
        launch.config.port == Some(port),
        launch.config.etcd_endpoints@ == seq![etcd.endpoint],
        round.round_profile.speaks(launch.config.protocol, devices@),
        launch.config.transfer_engine == round.round_profile.engine(),
        launch.config.enable_transfer_rpc_fast_path == (round.round_profile
            == KvTestRoundProfile::RdmaTransferWithRpc),
        launch.config.log_dir@ == log_dir@,
        launch.config.pprof_duration_seconds is None,
        round.round_profile.sets(launch.config.test_spec_config, devices@),
        crate::startup::rdma_control_view(launch.rdma_control_init)
            == round.round_profile.rdma_control(devices@),
        launch.transfer_backend_activation_mode == round.round_profile.activation(),
{
    let options = default_master_test_client_options(round.round_profile, devices);
    let mut etcd_endpoints: Vec<String> = Vec::new();
    etcd_endpoints.push(etcd.endpoint.clone());
    assert(etcd_endpoints@ =~= seq![etcd.endpoint]);
    KvTestMasterLaunch {
        config: MasterConfig {
            cluster_name: round.cluster_name.clone(),
            instance_key: round.scoped_instance_key(instance_key),
            etcd_endpoints,
            port: Some(port),
            protocol: match options.protocol_config {
                Some(protocol) => protocol,
                None => tcp_protocol_config(),
            },
            transfer_engine: match options.transfer_engine {
                Some(engine) => engine,
                None => round.round_profile.transfer_engine(),
            },
            enable_transfer_rpc_fast_path: match options.enable_transfer_rpc_fast_path {
                Some(enable) => enable,
                None => false,
            },
            log_dir: log_dir.to_owned(),
            pprof_duration_seconds: None,
            test_spec_config: round.round_profile.test_spec_config(devices),
        },
        rdma_control_init: match options.rdma_control_init {
            Some(init) => init,
            None => ClusterManagerRdmaControlInit::Disabled,
        },
        transfer_backend_activation_mode: options.transfer_backend_activation_mode,
    }
}

/// An external client is launched as one: it gives no memory, unless a test says otherwise.
pub proof fn law_external_launch_runs_as_external(
    launch: KvTestClientLaunch,
    round: KvTestRoundOptions,
    devices: Seq<String>,
    instance_key: Seq<char>,
    defaults: KvTestClientOptions,
    overrides: KvTestClientOptions,
    options: KvTestClientOptions,
    owner_key: Seq<char>,
    etcd: EtcdEndpoint,
)
    requires
        external_options(defaults),
        overrides.contribute_to_cluster_pool_size is None,
        completed_external(defaults.overridden(overrides), options, owner_key),
        is_launch_of(launch, round, devices, instance_key, options, etcd),
    ensures
        crate::startup::ClientRole::of(launch.config) is External,
        launch.config.etcd_addresses_raw@.len() == 0 <==> either(
            overrides.etcd_mode,
            Some(KvTestEtcdMode::Disabled),
        ) == Some(KvTestEtcdMode::Disabled),
{
}

} // verus!
