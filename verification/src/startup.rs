//! What a node is by its configuration, and what it says of itself to the cluster.

use crate::cluster_manager::Metadata;
use crate::config::{ClientConfig, ProtocolConfig, ProtocolType, SideTransferRole, TestSpecConfig, TestSpecTransportMode};
use crate::text;
use vstd::prelude::*;

verus! {

/// How a node starts with its RDMA devices.
#[derive(Debug, PartialEq, Eq)]
pub enum ClusterManagerRdmaControlInit {
    /// No device is enabled until the control plane enables it.
    Disabled,
    /// These devices are enabled until the control plane says otherwise.
    ExplicitDevices(Vec<String>),
    /// These devices are enabled, whatever the control plane says.
    LockedExplicitDevices(Vec<String>),
}

/// What decides whether transfers use a backend.
#[derive(Debug, Clone, Copy, PartialEq, Eq, Structural)]
pub enum TransferBackendActivationMode {
    RdmaControl,
    TcpTestBypassRdmaControl,
    TestForceEnableBypassRdmaControl,
}

/// How many threads and lanes the TCP transport has.
#[derive(Debug, Clone, Copy, PartialEq, Eq)]
pub struct P2pTcpThreadTransportTuning {
    pub reactor_shard_count: Option<usize>,
    pub bulk_lane_count: Option<usize>,
    pub control_lane_count: Option<usize>,
}

pub fn tcp_thread_transport_tuning_from_test_spec_config(test_spec_config: &TestSpecConfig) -> (tuning:
    P2pTcpThreadTransportTuning)
    ensures
        tuning.reactor_shard_count == test_spec_config.tcp_thread_reactor_shard_count,
        tuning.bulk_lane_count == test_spec_config.tcp_thread_bulk_lane_count,
        tuning.control_lane_count == test_spec_config.tcp_thread_control_lane_count,
{
    P2pTcpThreadTransportTuning {
        reactor_shard_count: test_spec_config.tcp_thread_reactor_shard_count,
        bulk_lane_count: test_spec_config.tcp_thread_bulk_lane_count,
        control_lane_count: test_spec_config.tcp_thread_control_lane_count,
    }
}

/// How a node starts with its RDMA devices, over sequences.
pub enum RdmaControlView {
    Disabled,
    Explicit(Seq<String>),
    Locked(Seq<String>),
}

pub open spec fn rdma_control_view(init: ClusterManagerRdmaControlInit) -> RdmaControlView {
    match init {
        ClusterManagerRdmaControlInit::Disabled => RdmaControlView::Disabled,
        ClusterManagerRdmaControlInit::ExplicitDevices(devices) => RdmaControlView::Explicit(
            devices@,
        ),
        ClusterManagerRdmaControlInit::LockedExplicitDevices(devices) => RdmaControlView::Locked(
            devices@,
        ),
    }
}

/// Devices that a test names are locked; a test of a transfer mode starts without devices; any
/// other test asks for nothing.
pub open spec fn test_rdma_control(test_spec_config: Option<TestSpecConfig>) -> Option<
    RdmaControlView,
> {
    match test_spec_config {
        None => None,
        Some(config) => match config.rdma_device_names {
            Some(devices) => Some(RdmaControlView::Locked(devices@)),
            None => match config.transport_mode {
                Some(_) => Some(RdmaControlView::Disabled),
                None => None,
            },
        },
    }
}

/// A configuration behind an optional reference.
pub open spec fn deref_config(test_spec_config: Option<&TestSpecConfig>) -> Option<TestSpecConfig> {
    match test_spec_config {
        Some(config) => Some(*config),
        None => None,
    }
}

/// Devices that a test names are locked, so that the persisted state cannot override the test.
pub fn test_spec_config_rdma_control_init(test_spec_config: Option<&TestSpecConfig>) -> (init: Option<
    ClusterManagerRdmaControlInit,
>)
    ensures
        match init {
            Some(init) => test_rdma_control(deref_config(test_spec_config)) == Some(
                rdma_control_view(init),
            ),
            None => test_rdma_control(deref_config(test_spec_config)) is None,
        },
{
    let config = match test_spec_config {
        Some(config) => config,
        None => {
            return None;
        },
    };
    if let Some(devices) = &config.rdma_device_names {
        return Some(
            ClusterManagerRdmaControlInit::LockedExplicitDevices(text::clone_texts(devices)),
        );
    }
    match config.transport_mode {
        Some(TestSpecTransportMode::TransferOnly) => Some(ClusterManagerRdmaControlInit::Disabled),
        Some(TestSpecTransportMode::TransferWithRpc) => Some(
            ClusterManagerRdmaControlInit::Disabled,
        ),
        None => None,
    }
}

/// How a node starts with its RDMA devices: as an override says, and else as the test asks, and
/// else without devices.
pub fn choose_rdma_control_init(
    test_override: Option<ClusterManagerRdmaControlInit>,
    test_spec_config: &TestSpecConfig,
) -> (init: ClusterManagerRdmaControlInit)
    ensures
        match test_override {
            Some(chosen) => init == chosen,
            None => rdma_control_view(init) == match test_rdma_control(Some(*test_spec_config)) {
                Some(asked) => asked,
                None => RdmaControlView::Disabled,
            },
        },
{
    match test_override {
        Some(chosen) => chosen,
        None => match test_spec_config_rdma_control_init(Some(test_spec_config)) {
            Some(asked) => asked,
            None => ClusterManagerRdmaControlInit::Disabled,
        },
    }
}

/// The names with commas between them.
pub open spec fn comma_joined(names: Seq<String>) -> Seq<char>
    decreases names.len(),
{
    if names.len() == 0 {
        Seq::empty()
    } else if names.len() == 1 {
        names[0]@
    } else {
        comma_joined(names.drop_last()) + ","@ + names.last()@
    }
}

pub fn join_with_commas(names: &Vec<String>) -> (joined: String)
    ensures
        joined@ == comma_joined(names@),
{
    let mut joined = String::new();
    let mut i: usize = 0;
    assert(names@.take(0) =~= Seq::<String>::empty());
    assert(joined@ =~= Seq::<char>::empty());
    while i < names.len()
        invariant
            i <= names@.len(),
            joined@ == comma_joined(names@.take(i as int)),
        decreases names@.len() - i,
    {
        let ghost before = joined@;
        let ghost head = names@.take(i + 1);
        assert(head.drop_last() =~= names@.take(i as int));
        if i > 0 {
            joined.append(",");
        }
        joined.append(names[i].as_str());
        proof {
            if i == 0 {
                assert(joined@ =~= names@[0]@);
                assert(head[0] == names@[0]);
            } else {
                assert(joined@ =~= before + ","@ + names@[i as int]@);
            }
        }
        i = i + 1;
    }
    assert(names@.take(i as int) =~= names@);
    joined
}

/// The RDMA devices for transfers: those that a test names, and else those of the configuration.
pub fn transfer_engine_rdma_device_names_from_config(
    protocol: &ProtocolConfig,
    test_spec_config: Option<&TestSpecConfig>,
) -> (names: Option<String>)
    ensures
        match deref_config(test_spec_config) {
            Some(config) if config.rdma_device_names is Some => names matches Some(names) && names@
                == comma_joined(config.rdma_device_names->0@),
            _ => names == protocol.rdma_device_names,
        },
{
    if let Some(config) = test_spec_config {
        if let Some(devices) = &config.rdma_device_names {
            return Some(join_with_commas(devices));
        }
    }
    text::clone_option(&protocol.rdma_device_names)
}

/// What a test asks of the transfer backend: over TCP a transfer mode bypasses the control plane.
pub open spec fn test_activation_mode(
    protocol: ProtocolConfig,
    test_spec_config: Option<TestSpecConfig>,
) -> Option<TransferBackendActivationMode> {
    if test_spec_config matches Some(config) && config.transport_mode is Some
        && protocol.protocol_type == ProtocolType::Tcp {
        Some(TransferBackendActivationMode::TcpTestBypassRdmaControl)
    } else {
        None
    }
}

pub fn test_spec_config_transfer_backend_activation_mode(
    protocol: &ProtocolConfig,
    test_spec_config: Option<&TestSpecConfig>,
) -> (mode: Option<TransferBackendActivationMode>)
    ensures
        mode == test_activation_mode(*protocol, deref_config(test_spec_config)),
{
    let transport_mode = match test_spec_config {
        Some(config) => config.transport_mode,
        None => None,
    };
    match transport_mode {
        Some(_) => match protocol.protocol_type {
            ProtocolType::Tcp => Some(TransferBackendActivationMode::TcpTestBypassRdmaControl),
            ProtocolType::Rdma => None,
        },
        None => None,
    }
}

/// What decides whether transfers use a backend: an override, and else the test, and else the
/// control plane.
pub fn choose_transfer_backend_activation_mode(
    test_override: Option<TransferBackendActivationMode>,
    protocol: &ProtocolConfig,
    test_spec_config: &TestSpecConfig,
) -> (mode: TransferBackendActivationMode)
    ensures
        mode == match test_override {
            Some(chosen) => chosen,
            None => match test_activation_mode(*protocol, Some(*test_spec_config)) {
                Some(asked) => asked,
                None => TransferBackendActivationMode::RdmaControl,
            },
        },
{
    match test_override {
        Some(chosen) => chosen,
        None => match test_spec_config_transfer_backend_activation_mode(
            protocol,
            Some(test_spec_config),
        ) {
            Some(asked) => asked,
            None => TransferBackendActivationMode::RdmaControl,
        },
    }
}

/// What a client is.
#[derive(Debug, Clone, Copy, PartialEq, Eq, Structural)]
pub enum ClientRole {
    /// Gives memory to the cluster.
    Owner,
    /// Shares the memory of an owner on its machine.
    External,
    /// Transfers for an owner on its machine.
    SideTransferWorker,
}

impl ClientRole {
    /// A client that gives memory is an owner; one that gives none is a side worker if its
    /// configuration says so.
    pub open spec fn of(config: ClientConfig) -> ClientRole {
        if !config.contribute_to_cluster_pool_size.is_zero() {
            ClientRole::Owner
        } else if config.test_spec_config.side_transfer_role is Some {
            ClientRole::SideTransferWorker
        } else {
            ClientRole::External
        }
    }

    pub fn from_config(config: &ClientConfig) -> (role: Self)
        ensures
            role == ClientRole::of(*config),
    {
        if !config.contribute_to_cluster_pool_size.gives_nothing() {
            return ClientRole::Owner;
        }
        match config.test_spec_config.side_transfer_role {
            Some(SideTransferRole::Worker) => ClientRole::SideTransferWorker,
            None => ClientRole::External,
        }
    }

    pub open spec fn label_text(self) -> Seq<char> {
        match self {
            ClientRole::Owner => "owner"@,
            ClientRole::External => "external"@,
            ClientRole::SideTransferWorker => "side_transfer_worker"@,
        }
    }

    pub fn label(&self) -> (label: &'static str)
        ensures
            label@ == self.label_text(),
    {
        match self {
            ClientRole::Owner => "owner",
            ClientRole::External => "external",
            ClientRole::SideTransferWorker => "side_transfer_worker",
        }
    }

    /// What a client of this role publishes, by key.
    pub open spec fn publishes(self, version: Seq<char>, key: Seq<char>) -> Option<Seq<char>> {
        if key == "version"@ {
            Some(version)
        } else if key == (if self is Owner {
            "client"@
        } else {
            "external_client"@
        }) {
            Some("true"@)
        } else if self is SideTransferWorker && key == "side_transfer_worker"@ {
            Some("true"@)
        } else if self is Owner && key == "p2p_relay"@ {
            Some("true"@)
        } else {
            None
        }
    }

    /// What a client of this role publishes: its role and its version. Owners relay messages.
    pub fn startup_metadata(&self, build_version: &str) -> (metadata: Metadata)
        ensures
            forall|key: Seq<char>| #[trigger]
                metadata.value(key) == self.publishes(build_version@, key),
    {
        proof {
            lemma_role_keys_differ();
        }
        let mut metadata = Metadata::new();
        let is_owner = match self {
            ClientRole::Owner => true,
            _ => false,
        };
        if is_owner {
            metadata.insert("client".to_owned(), "true".to_owned());
        } else {
            metadata.insert("external_client".to_owned(), "true".to_owned());
        }
        metadata.insert("version".to_owned(), build_version.to_owned());
        let is_side_transfer_worker = match self {
            ClientRole::SideTransferWorker => true,
            _ => false,
        };
        if is_side_transfer_worker {
            metadata.insert("side_transfer_worker".to_owned(), "true".to_owned());
        }
        if is_owner {
            metadata.insert("p2p_relay".to_owned(), "true".to_owned());
        }
        metadata
    }
}

pub proof fn lemma_role_keys_differ()
    ensures
        "client"@ != "version"@,
        "external_client"@ != "version"@,
        "external_client"@ != "client"@,
        "side_transfer_worker"@ != "version"@,
        "side_transfer_worker"@ != "client"@,
        "side_transfer_worker"@ != "external_client"@,
        "p2p_relay"@ != "version"@,
        "p2p_relay"@ != "client"@,
        "p2p_relay"@ != "external_client"@,
        "p2p_relay"@ != "side_transfer_worker"@,
{
    reveal_strlit("client");
    reveal_strlit("version");
    reveal_strlit("external_client");
    reveal_strlit("side_transfer_worker");
    reveal_strlit("p2p_relay");
    assert("client"@[0] != "version"@[0]);
    assert("p2p_relay"@[0] != "version"@[0]);
    assert("side_transfer_worker"@[0] != "external_client"@[0]);
    assert("side_transfer_worker"@[0] != "p2p_relay"@[0]);
}

/// What a master publishes: its role and its version, and how nodes are observed, where that is set.
pub fn master_startup_metadata(build_version: &str, observe_broadcast: Option<(String, String)>) -> (metadata:
    Metadata)
    ensures
        forall|key: Seq<char>| #[trigger]
            metadata.value(key) == match observe_broadcast {
                Some((name, value)) if name@ == key => Some(value@),
                _ => if key == "version"@ {
                    Some(build_version@)
                } else if key == "master"@ {
                    Some("true"@)
                } else {
                    None
                },
            },
{
    proof {
        reveal_strlit("version");
        reveal_strlit("master");
        assert("version"@[0] != "master"@[0]);
    }
    let mut metadata = Metadata::new();
    metadata.insert("master".to_owned(), "true".to_owned());
    metadata.insert("version".to_owned(), build_version.to_owned());
    if let Some((name, value)) = observe_broadcast {
        metadata.insert(name, value);
    }
    metadata
}

/// What a broker publishes: it is an external client, with the mark of a broker.
pub fn broker_startup_metadata(build_version: &str, component_mark: (String, String)) -> (metadata:
    Metadata)
    ensures
        forall|key: Seq<char>| #[trigger]
            metadata.value(key) == if key == "version"@ {
                Some(build_version@)
            } else if key == component_mark.0@ {
                Some(component_mark.1@)
            } else if key == "external_client"@ {
                Some("true"@)
            } else {
                None
            },
{
    proof {
        lemma_role_keys_differ();
    }
    let mut metadata = Metadata::new();
    metadata.insert("external_client".to_owned(), "true".to_owned());
    metadata.insert(component_mark.0, component_mark.1);
    metadata.insert("version".to_owned(), build_version.to_owned());
    metadata
}

/// The name under which a client runs.
pub fn client_framework_name(role: &ClientRole, cluster_name: &str, instance_key: &str) -> (name:
    String)
    ensures
        name@ == "fluxon_kv.client."@ + role.label_text() + ":"@ + cluster_name@ + ":"@
            + instance_key@,
{
    "fluxon_kv.client.".to_owned().concat(role.label()).concat(":").concat(cluster_name).concat(
        ":",
    ).concat(instance_key)
}

/// Why a client cannot run as a broker.
#[derive(Debug, Clone, Copy, PartialEq, Eq, Structural)]
pub enum BrokerConfigError {
    /// broker config must be a zero-contribution external-client config
    GivesMemory,
    /// broker config must not set test_spec_config.side_transfer_role=worker
    SideTransferWorker,
}

/// A broker is an external client that is no side worker.
pub fn check_broker_config(config: &ClientConfig) -> (result: Result<(), BrokerConfigError>)
    ensures
        result == match ClientRole::of(*config) {
            ClientRole::Owner => Err::<(), BrokerConfigError>(BrokerConfigError::GivesMemory),
            ClientRole::SideTransferWorker => Err(BrokerConfigError::SideTransferWorker),
            ClientRole::External => Ok(()),
        },
{
    match ClientRole::from_config(config) {
        ClientRole::Owner => Err(BrokerConfigError::GivesMemory),
        ClientRole::SideTransferWorker => Err(BrokerConfigError::SideTransferWorker),
        ClientRole::External => Ok(()),
    }
}

/// Why metadata that a caller adds is refused.
pub enum StartupMetadataErrorOf<S> {
    EmptyKey,
    EmptyValue { key: S },
    ConflictsWithBuiltIn { key: S },
}

pub type StartupMetadataError = StartupMetadataErrorOf<String>;

impl View for StartupMetadataErrorOf<String> {
    type V = StartupMetadataErrorOf<Seq<char>>;

    open spec fn view(&self) -> StartupMetadataErrorOf<Seq<char>> {
        match self {
            StartupMetadataErrorOf::EmptyKey => StartupMetadataErrorOf::EmptyKey,
            StartupMetadataErrorOf::EmptyValue { key } => StartupMetadataErrorOf::EmptyValue {
                key: key@,
            },
            StartupMetadataErrorOf::ConflictsWithBuiltIn { key } => {
                StartupMetadataErrorOf::ConflictsWithBuiltIn { key: key@ }
            },
        }
    }
}

impl StartupMetadataErrorOf<String> {
    /// The error in words.
    pub fn message(&self) -> (message: String)
        ensures
            message@ == match self@ {
                StartupMetadataErrorOf::EmptyKey => {
                    "startup member metadata key must be non-empty"@
                },
                StartupMetadataErrorOf::EmptyValue { key } => {
                    "startup member metadata value must be non-empty: key="@ + key
                },
                StartupMetadataErrorOf::ConflictsWithBuiltIn { key } => {
                    "startup member metadata key conflicts with built-in metadata: key="@ + key
                },
            },
    {
        match self {
            StartupMetadataErrorOf::EmptyKey => {
                "startup member metadata key must be non-empty".to_owned()
            },
            StartupMetadataErrorOf::EmptyValue { key } => {
                "startup member metadata value must be non-empty: key=".to_owned().concat(
                    key.as_str(),
                )
            },
            StartupMetadataErrorOf::ConflictsWithBuiltIn { key } => {
                "startup member metadata key conflicts with built-in metadata: key=".to_owned().concat(
                key.as_str())
            },
        }
    }
}

/// What is wrong with an entry, given what is known of its key and its value.
pub open spec fn entry_fault(
    key: Seq<char>,
    key_blank: bool,
    value_blank: bool,
    taken: bool,
) -> Option<StartupMetadataErrorOf<Seq<char>>> {
    if key_blank {
        Some(StartupMetadataErrorOf::EmptyKey)
    } else if value_blank {
        Some(StartupMetadataErrorOf::EmptyValue { key })
    } else if taken {
        Some(StartupMetadataErrorOf::ConflictsWithBuiltIn { key })
    } else {
        None
    }
}

/// What is wrong with an entry, given what is known of its key and its value.
pub fn startup_entry_fault(key: &str, key_blank: bool, value_blank: bool, taken: bool) -> (fault:
    Option<StartupMetadataError>)
    ensures
        match fault {
            Some(fault) => entry_fault(key@, key_blank, value_blank, taken) == Some(fault@),
            None => entry_fault(key@, key_blank, value_blank, taken) is None,
        },
{
    if key_blank {
        Some(StartupMetadataErrorOf::EmptyKey)
    } else if value_blank {
        Some(StartupMetadataErrorOf::EmptyValue { key: key.to_owned() })
    } else if taken {
        Some(StartupMetadataErrorOf::ConflictsWithBuiltIn { key: key.to_owned() })
    } else {
        None
    }
}

/// What a node publishes under a key once entries were added.
pub open spec fn with_entries(
    before: Metadata,
    entries: Seq<(String, String)>,
    key: Seq<char>,
) -> Option<Seq<char>> {
    match before.value(key) {
        Some(value) => Some(value),
        None => crate::cluster_manager::lookup(entries, key),
    }
}

/// What is wrong with the entry at a position, after those before it were added.
pub open spec fn fault_at(before: Metadata, entries: Seq<(String, String)>, i: int) -> Option<
    StartupMetadataErrorOf<Seq<char>>,
> {
    let (key, value) = entries[i];
    entry_fault(
        key@,
        text::blank(key@),
        text::blank(value@),
        with_entries(before, entries.take(i), key@) is Some,
    )
}

/// Entries were added up to a position.
pub open spec fn added_up_to(
    before: Metadata,
    after: Metadata,
    entries: Seq<(String, String)>,
    n: int,
) -> bool {
    &&& forall|i: int| 0 <= i < n ==> (#[trigger] fault_at(before, entries, i)) is None
    &&& forall|key: Seq<char>| #[trigger]
        after.value(key) == with_entries(before, entries.take(n), key)
}

/// Adds what a caller publishes to what the node publishes by itself. An entry without a key or a
/// value, or with a key that is taken, is an error, and ends the addition.
pub fn merge_startup_member_metadata(
    metadata: &mut Metadata,
    extra_metadata: &Vec<(String, String)>,
) -> (result: Result<(), StartupMetadataError>)
    ensures
        match result {
            Ok(_) => added_up_to(
                *old(metadata),
                *final(metadata),
                extra_metadata@,
                extra_metadata@.len() as int,
            ),
            Err(err) => exists|n: int|
                0 <= n < extra_metadata@.len() && #[trigger] fault_at(
                    *old(metadata),
                    extra_metadata@,
                    n,
                ) == Some(err@) && added_up_to(
                    *old(metadata),
                    *final(metadata),
                    extra_metadata@,
                    n,
                ),
        },
{
    let ghost before = *old(metadata);
    let mut i: usize = 0;
    proof {
        assert(extra_metadata@.take(0) =~= Seq::<(String, String)>::empty());
    }
    while i < extra_metadata.len()
        invariant
            i <= extra_metadata@.len(),
            before == *old(metadata),
            added_up_to(before, *metadata, extra_metadata@, i as int),
        decreases extra_metadata@.len() - i,
    {
        let key = &extra_metadata[i].0;
        let value = &extra_metadata[i].1;
        let key_blank = text::is_blank(key.as_str());
        let value_blank = text::is_blank(value.as_str());
        let taken = metadata.get(key.as_str()).is_some();
        let ghost entries = extra_metadata@.take(i as int);
        assert(taken == (metadata.value(key@) is Some));
        if let Some(fault) = startup_entry_fault(key.as_str(), key_blank, value_blank, taken) {
            assert(fault_at(before, extra_metadata@, i as int) == Some(fault@));
            return Err(fault);
        }
        let ghost name = key@;
        let ghost text = value@;
        let ghost pair = extra_metadata@[i as int];
        metadata.insert(key.clone(), value.clone());
        proof {
            assert(extra_metadata@.take(i + 1) =~= entries.push(pair));
            assert forall|k: Seq<char>| #[trigger] metadata.value(k) == with_entries(
                before,
                extra_metadata@.take(i + 1),
                k,
            ) by {
                crate::cluster_manager::lemma_lookup_push(entries, pair, k);
            }
        }
        i = i + 1;
    }
    Ok(())
}

/// Built-in metadata keeps its value when a caller adds metadata, whether or not that succeeds.
pub proof fn law_built_in_metadata_is_kept(
    before: Metadata,
    after: Metadata,
    entries: Seq<(String, String)>,
    n: int,
    key: Seq<char>,
)
    requires
        0 <= n <= entries.len(),
        added_up_to(before, after, entries, n),
        before.value(key) is Some,
    ensures
        after.value(key) == before.value(key),
{
}

} // verus!
