//! Starting: a node is what its configuration says, and tells the cluster so.

use crate::bootstrap::{self, BootstrapInput, ExternalBootstrapMetadata};
use crate::cluster_manager::Metadata;
use crate::config::{ClientConfig, ProtocolConfig, ProtocolType, TestSpecConfig};
use crate::external_client_api::ExternalClientApiNewArg;
use crate::laws::names;
use crate::laws::texts;
use crate::node_plan::{
    self, ClusterManagerArg, P2pArg, RunTestOverrides, SegPoolArg, TransferEngineArg,
};
use crate::startup::{
    self, ClientRole, ClusterManagerRdmaControlInit, RdmaControlView,
    TransferBackendActivationMode,
};
use crate::text;
use vstd::prelude::*;

verus! {

/// A client that gives memory, of the machine or of a device, is an owner. One that gives none is a
/// side worker where it is configured as one, and an external client otherwise.
pub proof fn law_role_follows_from_the_memory(config: ClientConfig)
    ensures
        ({
            let given = config.contribute_to_cluster_pool_size;
            let gives = given.dram > 0 || exists|device: u64| #[trigger]
                given.vram@.contains_key(device) && given.vram@[device] > 0;
            &&& ClientRole::of(config) == ClientRole::Owner <==> gives
            &&& ClientRole::of(config) == ClientRole::SideTransferWorker <==> !gives
                && config.test_spec_config.side_transfer_role is Some
            &&& ClientRole::of(config) == ClientRole::External <==> !gives
                && config.test_spec_config.side_transfer_role is None
        }),
{
}

/// Owners publish that they are clients and that they relay; external clients and side workers
/// publish that they are external; and side workers publish what they are as well.
pub proof fn law_roles_are_published(role: ClientRole, version: Seq<char>)
    ensures
        role.publishes(version, "version"@) == Some(version),
        role.publishes(version, "client"@) == if role == ClientRole::Owner {
            Some("true"@)
        } else {
            None
        },
        role.publishes(version, "p2p_relay"@) == if role == ClientRole::Owner {
            Some("true"@)
        } else {
            None
        },
        role.publishes(version, "external_client"@) == if role == ClientRole::Owner {
            None
        } else {
            Some("true"@)
        },
        role.publishes(version, "side_transfer_worker"@) == if role
            == ClientRole::SideTransferWorker {
            Some("true"@)
        } else {
            None
        },
{
    reveal_strlit("version");
    reveal_strlit("client");
    reveal_strlit("p2p_relay");
    reveal_strlit("external_client");
    reveal_strlit("side_transfer_worker");
    assert("version"@[0] == 'v' && "client"@[0] == 'c' && "p2p_relay"@[0] == 'p'
        && "external_client"@[0] == 'e' && "side_transfer_worker"@[0] == 's');
}

/// The entry can be added: neither its key nor its value is blank, and nothing is known under its key,
/// neither from before nor from an entry before it.
pub open spec fn is_acceptable(before: Metadata, entries: Seq<(String, String)>, i: int) -> bool {
    &&& !text::blank(entries[i].0@)
    &&& !text::blank(entries[i].1@)
    &&& before.value(entries[i].0@) is None
    &&& forall|j: int| 0 <= j < i ==> (#[trigger] entries[j]).0@ != entries[i].0@
}

proof fn lemma_found_or_absent(entries: Seq<(String, String)>, key: Seq<char>)
    ensures
        crate::cluster_manager::lookup(entries, key) is None <==> forall|j: int|
            0 <= j < entries.len() ==> (#[trigger] entries[j]).0@ != key,
    decreases entries.len(),
{
    if entries.len() > 0 {
        let rest = entries.drop_first();
        lemma_found_or_absent(rest, key);
        if entries[0].0@ != key {
            assert forall|j: int| 0 <= j < rest.len() implies rest[j] == #[trigger] entries[j + 1] by {}
            if crate::cluster_manager::lookup(entries, key) is None {
                assert forall|j: int| 0 <= j < entries.len() implies (#[trigger] entries[j]).0@
                    != key by {
                    if j > 0 {
                        assert(rest[j - 1].0@ != key);
                    }
                }
            } else {
                let j = choose|j: int| 0 <= j < rest.len() && (#[trigger] rest[j]).0@ == key;
                assert(entries[j + 1].0@ == key);
            }
        }
    }
}

/// An entry is refused exactly where it cannot be added.
pub proof fn law_only_unacceptable_entries_are_refused(
    before: Metadata,
    entries: Seq<(String, String)>,
    i: int,
)
    requires
        0 <= i < entries.len(),
    ensures
        startup::fault_at(before, entries, i) is None <==> is_acceptable(before, entries, i),
{
    let earlier = entries.take(i);
    lemma_found_or_absent(earlier, entries[i].0@);
    assert forall|j: int| 0 <= j < i implies earlier[j] == #[trigger] entries[j] by {}
    if startup::fault_at(before, entries, i) is None {
        assert forall|j: int| 0 <= j < i implies (#[trigger] entries[j]).0@ != entries[i].0@ by {
            assert(earlier[j].0@ != entries[i].0@);
        }
    }
    if is_acceptable(before, entries, i) {
        assert forall|j: int| 0 <= j < earlier.len() implies (#[trigger] earlier[j]).0@
            != entries[i].0@ by {
            assert(entries[j].0@ != entries[i].0@);
        }
    }
}

/// After all entries were added each is published with its own value, what was published before stays,
/// and nothing else is published.
pub proof fn law_added_entries_are_published(
    before: Metadata,
    after: Metadata,
    entries: Seq<(String, String)>,
)
    requires
        startup::added_up_to(before, after, entries, entries.len() as int),
    ensures
        forall|i: int|
            0 <= i < entries.len() ==> after.value((#[trigger] entries[i]).0@) == Some(
                entries[i].1@,
            ),
        forall|key: Seq<char>|
            before.value(key) is Some ==> #[trigger] after.value(key) == before.value(key),
        forall|key: Seq<char>|
            before.value(key) is None && (forall|i: int|
                0 <= i < entries.len() ==> (#[trigger] entries[i]).0@ != key) ==> (
            #[trigger] after.value(key)) is None,
{
    let n = entries.len() as int;
    assert(entries.take(n) =~= entries);
    assert forall|i: int| 0 <= i < n implies after.value((#[trigger] entries[i]).0@) == Some(
        entries[i].1@,
    ) by {
        assert(startup::fault_at(before, entries, i) is None);
        law_only_unacceptable_entries_are_refused(before, entries, i);
        names::law_published_values_are_found(entries, entries[i].0@, i);
    }
    assert forall|key: Seq<char>|
        before.value(key) is None && (forall|i: int|
            0 <= i < entries.len() ==> (#[trigger] entries[i]).0@ != key) implies (
    #[trigger] after.value(key)) is None by {
        lemma_found_or_absent(entries, key);
    }
}

/// Names that hold no comma are found again in the text that they are joined to.
pub proof fn law_joined_names_are_found_again(names: Seq<String>)
    requires
        names.len() > 0,
        forall|i: int| 0 <= i < names.len() ==> !(#[trigger] names[i])@.contains(','),
    ensures
        text::parts(startup::comma_joined(names), ',') == names.map_values(|name: String| name@),
    decreases names.len(),
{
    let views = names.map_values(|name: String| name@);
    reveal_strlit(",");
    assert(","@ =~= seq![',']);
    assert(!names[names.len() - 1]@.contains(','));
    let last = names.last()@;
    if names.len() == 1 {
        texts::lemma_one_part(last, ',');
        assert(views =~= seq![last]);
    } else {
        let fewer = names.drop_last();
        law_joined_names_are_found_again(fewer);
        texts::lemma_parts_after_separator(startup::comma_joined(fewer), last, ',');
        assert(startup::comma_joined(names) =~= startup::comma_joined(fewer).push(',') + last);
        assert(views =~= fewer.map_values(|name: String| name@).push(last));
    }
}

/// Devices that a test names are enabled whatever the control plane says; a test that names none but
/// chooses a transport, and a run without tests, enables none.
pub proof fn law_named_devices_are_enabled(
    init: ClusterManagerRdmaControlInit,
    test: TestSpecConfig,
)
    requires
        node_plan::rdma_control_of(init, None, test),
    ensures
        match test.rdma_device_names {
            Some(devices) => startup::rdma_control_view(init) == RdmaControlView::Locked(devices@),
            None => init is Disabled,
        },
{
}

/// Only a test of the transport over TCP goes round the control plane; what is set for a run comes
/// first.
pub proof fn law_control_plane_activates_the_backend(
    overrides: Option<RunTestOverrides>,
    protocol: ProtocolConfig,
    test: TestSpecConfig,
)
    ensures
        overrides is Some && overrides->0.transfer_backend_activation_mode is Some
            ==> node_plan::activation_mode_of(overrides, protocol, test)
            == overrides->0.transfer_backend_activation_mode->0,
        overrides is None || overrides->0.transfer_backend_activation_mode is None
            ==> node_plan::activation_mode_of(overrides, protocol, test) == if test.transport_mode is Some
            && protocol.protocol_type == ProtocolType::Tcp {
            TransferBackendActivationMode::TcpTestBypassRdmaControl
        } else {
            TransferBackendActivationMode::RdmaControl
        },
{
}

/// The node joins the cluster under the name, and at the addresses, of its configuration, and listens
/// on the port that it names.
pub proof fn law_nodes_join_as_configured(
    cluster: ClusterManagerArg,
    p2p: P2pArg,
    config: ClientConfig,
    local_ipc_root: Option<String>,
    overrides: Option<RunTestOverrides>,
)
    requires
        cluster.follows(config, local_ipc_root, overrides),
        p2p.follows(config.fluxonkv_spec.p2p_listen_port, config.test_spec_config),
    ensures
        cluster.cluster_name == config.cluster_name,
        cluster.instance_name == config.instance_key,
        cluster.etcd_endpoints@ == config.fluxonkv_spec.etcd_addresses@,
        cluster.sub_cluster == config.fluxonkv_spec.sub_cluster,
        cluster.local_ipc_root == local_ipc_root,
        overrides is Some ==> cluster.rdma_control_init == overrides->0.rdma_control_init,
        p2p.listen_port == config.fluxonkv_spec.p2p_listen_port,
        p2p.disable_crossowner_ipc == config.test_spec_config.disable_crossowner_ipc,
        p2p.user_rpc_sync_handler_thread_count
            == config.test_spec_config.user_rpc_sync_handler_thread_count,
        p2p.tuning.reactor_shard_count == config.test_spec_config.tcp_thread_reactor_shard_count,
        p2p.tuning.bulk_lane_count == config.test_spec_config.tcp_thread_bulk_lane_count,
        p2p.tuning.control_lane_count == config.test_spec_config.tcp_thread_control_lane_count,
        p2p.iceoryx_external_busy_poll == config.test_spec_config.iceoryx_external_busy_poll,
        p2p.iceoryx_owner_client_busy_poll
            == config.test_spec_config.iceoryx_owner_client_busy_poll,
{
}

/// An owner gives the memory that its configuration names, where it names it; an external client
/// looks for the memory there.
pub proof fn law_memory_is_where_it_is_configured(
    seg_pool: SegPoolArg,
    external: ExternalClientApiNewArg,
    config: ClientConfig,
    build_version: Seq<char>,
)
    requires
        seg_pool.follows(config),
        node_plan::external_arg_of(external, config, build_version),
    ensures
        seg_pool.contribute_size.dram == config.contribute_to_cluster_pool_size.dram,
        seg_pool.contribute_size.vram@ == config.contribute_to_cluster_pool_size.vram@,
        seg_pool.share_mem_path == config.share_mem_path,
        seg_pool.large_file_paths.paths@ == config.large_file_paths.paths@,
        seg_pool.cluster_name == config.cluster_name,
        seg_pool.etcd_addresses@ == config.etcd_addresses_raw@,
        external.shared_memory_path == config.share_mem_path,
        external.shared_file_path == config.share_mem_path,
        external.expected_cluster_name == config.cluster_name,
        external.expected_protocol_version@ == build_version,
        external.enable_side_transfer == config.test_spec_config.enable_side_transfer,
        external.short_circuit_put_payload_path
            == config.test_spec_config.short_circuit_put_payload_path,
{
}

/// The transfer engine goes by the first address of the cluster's store, and uses the devices that a
/// test names before those that the protocol names.
pub proof fn law_transfer_engine_is_configured(
    engine: TransferEngineArg,
    config: ClientConfig,
    mode: TransferBackendActivationMode,
)
    requires
        engine.follows(
            config.fluxonkv_spec.etcd_addresses@,
            config.instance_key,
            config.fluxonkv_spec.enable_transfer_rpc_fast_path,
            config.fluxonkv_spec.transfer_engine,
            config.protocol,
            config.test_spec_config,
            mode,
        ),
    ensures
        engine.metadata_uri == config.fluxonkv_spec.etcd_addresses@[0],
        engine.instance_name == config.instance_key,
        engine.enable_transfer_rpc_fast_path == config.fluxonkv_spec.enable_transfer_rpc_fast_path,
        engine.transfer_engine == config.fluxonkv_spec.transfer_engine,
        engine.protocol_type == config.protocol.protocol_type,
        engine.backend_activation_mode == mode,
        engine.rpc_port == 12345,
        config.test_spec_config.rdma_device_names is None ==> engine.rdma_device_names
            == config.protocol.rdma_device_names,
        config.test_spec_config.rdma_device_names is Some ==> engine.rdma_device_names is Some
            && engine.rdma_device_names->0@ == startup::comma_joined(
            config.test_spec_config.rdma_device_names->0@,
        ),
{
}

/// An external client goes on exactly when what the owner left behind can be read, is of its own
/// version and cluster, describes the directory that the client was given, and names addresses that
/// are addresses.
pub proof fn law_clients_wait_for_an_owner_that_fits(
    input: BootstrapInput,
    build_version: Seq<char>,
    expected_cluster_name: Seq<char>,
)
    ensures
        bootstrap::bootstrap_wait(input, build_version, expected_cluster_name) is None <==> {
            &&& input.meta is Some
            &&& input.meta->0.protocol_version@ == build_version
            &&& input.meta->0.cluster_name@ == expected_cluster_name
            &&& input.share_mem_path_canonical is Some
            &&& input.meta_share_mem_path_canonical is Some
            &&& input.share_mem_path_canonical->0@ == input.meta_share_mem_path_canonical->0@
            &&& input.meta->0.etcd_addresses@.len() > 0
            &&& input.etcd_endpoints is Some
        },
{
}

/// What describes the cluster and the memory comes from the owner; who the client is stays its own.
pub proof fn law_external_clients_take_over_from_the_owner(
    before: ClientConfig,
    metadata: ExternalBootstrapMetadata,
    after: ClientConfig,
)
    requires
        bootstrap::bootstrapped(before, metadata, after),
    ensures
        after.etcd_addresses_raw@ == metadata.meta.etcd_addresses@,
        after.fluxonkv_spec.etcd_addresses == metadata.etcd_endpoints,
        after.fluxonkv_spec.sub_cluster == metadata.meta.sub_cluster,
        after.share_mem_path == metadata.share_mem_path,
        after.large_file_paths == metadata.meta.large_file_paths,
        after.cluster_name == before.cluster_name,
        after.instance_key == before.instance_key,
        after.protocol == before.protocol,
        after.fluxonkv_spec.p2p_listen_port == before.fluxonkv_spec.p2p_listen_port,
        after.fluxonkv_spec.transfer_engine == before.fluxonkv_spec.transfer_engine,
        after.fluxonkv_spec.enable_transfer_rpc_fast_path
            == before.fluxonkv_spec.enable_transfer_rpc_fast_path,
        after.redis_compat_listen_addr == before.redis_compat_listen_addr,
        after.pprof_duration_seconds == before.pprof_duration_seconds,
        after.test_spec_config == before.test_spec_config,
{
}

/// What a client publishes tells its role.
pub proof fn law_published_metadata_tells_the_role(
    metadata: Metadata,
    role: ClientRole,
    version: Seq<char>,
)
    requires
        node_plan::publishes_role(metadata, role, version),
    ensures
        metadata.value("version"@) == Some(version),
        metadata.value("client"@) is Some <==> role == ClientRole::Owner,
        metadata.value("p2p_relay"@) == Some("true"@) <==> role == ClientRole::Owner,
        metadata.value("external_client"@) is Some <==> role != ClientRole::Owner,
        metadata.value("side_transfer_worker"@) == Some("true"@) <==> role
            == ClientRole::SideTransferWorker,
{
    law_roles_are_published(role, version);
    assert(metadata.value("version"@) == role.publishes(version, "version"@));
    assert(metadata.value("client"@) == role.publishes(version, "client"@));
}

} // verus!
