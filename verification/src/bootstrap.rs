//! How a client that gives no memory gets its configuration from the owner on its machine.

use crate::config::ClientConfig;
use crate::external_client_api::owner::SharedJsonMeta;
use crate::text;
use vstd::prelude::*;

verus! {

/// What is seen of an owner's shared directory.
pub struct BootstrapInput {
    /// The owner's description; none where it cannot be read or parsed.
    pub meta: Option<SharedJsonMeta>,
    /// The shared directory of the configuration, as the file system knows it.
    pub share_mem_path_canonical: Option<String>,
    /// The shared directory of the description, as the file system knows it.
    pub meta_share_mem_path_canonical: Option<String>,
    /// The addresses in the description, in their normal form; none where one is not an address.
    pub etcd_endpoints: Option<Vec<String>>,
}

/// Why a client has to wait for its owner.
#[derive(Debug, Clone, Copy, PartialEq, Eq, Structural)]
pub enum BootstrapWait {
    NotReadable,
    ProtocolVersion,
    ClusterName,
    ShareMemPath,
    MetaShareMemPath,
    ShareMemPathMismatch,
    NoEtcdAddresses,
    InvalidEtcdAddresses,
}

/// What a client takes over from its owner.
pub struct ExternalBootstrapMetadata {
    pub meta: SharedJsonMeta,
    pub share_mem_path: String,
    pub etcd_endpoints: Vec<String>,
}

/// Why the client has to wait, if it has to.
pub open spec fn bootstrap_wait(
    input: BootstrapInput,
    build_version: Seq<char>,
    expected_cluster_name: Seq<char>,
) -> Option<BootstrapWait> {
    if input.meta is None {
        Some(BootstrapWait::NotReadable)
    } else if input.meta->0.protocol_version@ != build_version {
        Some(BootstrapWait::ProtocolVersion)
    } else if input.meta->0.cluster_name@ != expected_cluster_name {
        Some(BootstrapWait::ClusterName)
    } else if input.share_mem_path_canonical is None {
        Some(BootstrapWait::ShareMemPath)
    } else if input.meta_share_mem_path_canonical is None {
        Some(BootstrapWait::MetaShareMemPath)
    } else if input.meta_share_mem_path_canonical->0@ != input.share_mem_path_canonical->0@ {
        Some(BootstrapWait::ShareMemPathMismatch)
    } else if input.meta->0.etcd_addresses@.len() == 0 {
        Some(BootstrapWait::NoEtcdAddresses)
    } else if input.etcd_endpoints is None {
        Some(BootstrapWait::InvalidEtcdAddresses)
    } else {
        None
    }
}

/// The owner's description counts once it is of this build and this cluster, names the shared
/// directory that the client is configured with, and says where the cluster's store is.
pub fn load_external_bootstrap_metadata(
    input: BootstrapInput,
    build_version: &str,
    expected_cluster_name: &str,
) -> (result: Result<ExternalBootstrapMetadata, BootstrapWait>)
    ensures
        match bootstrap_wait(input, build_version@, expected_cluster_name@) {
            Some(wait) => result == Err::<ExternalBootstrapMetadata, BootstrapWait>(wait),
            None => result matches Ok(metadata) && Some(metadata.meta) == input.meta && Some(
                metadata.share_mem_path,
            ) == input.meta_share_mem_path_canonical && Some(metadata.etcd_endpoints)
                == input.etcd_endpoints,
        },
{
    let meta = match input.meta {
        Some(meta) => meta,
        None => {
            return Err(BootstrapWait::NotReadable);
        },
    };
    if !text::same_text(meta.protocol_version.as_str(), build_version) {
        return Err(BootstrapWait::ProtocolVersion);
    }
    if !text::same_text(meta.cluster_name.as_str(), expected_cluster_name) {
        return Err(BootstrapWait::ClusterName);
    }
    let configured = match input.share_mem_path_canonical {
        Some(path) => path,
        None => {
            return Err(BootstrapWait::ShareMemPath);
        },
    };
    let share_mem_path = match input.meta_share_mem_path_canonical {
        Some(path) => path,
        None => {
            return Err(BootstrapWait::MetaShareMemPath);
        },
    };
    if !text::same_text(share_mem_path.as_str(), configured.as_str()) {
        return Err(BootstrapWait::ShareMemPathMismatch);
    }
    if meta.etcd_addresses.len() == 0 {
        return Err(BootstrapWait::NoEtcdAddresses);
    }
    match input.etcd_endpoints {
        Some(etcd_endpoints) => Ok(
            ExternalBootstrapMetadata { meta, share_mem_path, etcd_endpoints },
        ),
        None => Err(BootstrapWait::InvalidEtcdAddresses),
    }
}

/// The configuration with what the owner says taken over; the rest stays.
pub open spec fn bootstrapped(
    before: ClientConfig,
    metadata: ExternalBootstrapMetadata,
    after: ClientConfig,
) -> bool {
    &&& after.etcd_addresses_raw@ == metadata.meta.etcd_addresses@
    &&& after.fluxonkv_spec.etcd_addresses == metadata.etcd_endpoints
    &&& after.fluxonkv_spec.sub_cluster == metadata.meta.sub_cluster
    &&& after.share_mem_path == metadata.share_mem_path
    &&& after.large_file_paths == metadata.meta.large_file_paths
    &&& after.cluster_name == before.cluster_name
    &&& after.instance_key == before.instance_key
    &&& after.contribute_to_cluster_pool_size == before.contribute_to_cluster_pool_size
    &&& after.protocol == before.protocol
    &&& after.pprof_duration_seconds == before.pprof_duration_seconds
    &&& after.redis_compat_listen_addr == before.redis_compat_listen_addr
    &&& after.fluxonkv_spec.cluster_name == before.fluxonkv_spec.cluster_name
    &&& after.fluxonkv_spec.p2p_listen_port == before.fluxonkv_spec.p2p_listen_port
    &&& after.fluxonkv_spec.transfer_engine == before.fluxonkv_spec.transfer_engine
    &&& after.fluxonkv_spec.enable_transfer_rpc_fast_path
        == before.fluxonkv_spec.enable_transfer_rpc_fast_path
    &&& after.test_spec_config == before.test_spec_config
}

/// A client that gives memory keeps its configuration. One that gives none takes over what its
/// owner says: the cluster's store, the sub-cluster, and the directories.
pub fn bootstrap_zero_contribution_client_config(
    config: ClientConfig,
    metadata: ExternalBootstrapMetadata,
) -> (final_config: ClientConfig)
    ensures
        if config.contribute_to_cluster_pool_size.is_zero() {
            bootstrapped(config, metadata, final_config)
        } else {
            final_config == config
        },
{
    if !config.contribute_to_cluster_pool_size.gives_nothing() {
        return config;
    }
    let mut final_config = config;
    final_config.etcd_addresses_raw = metadata.meta.etcd_addresses;
    final_config.fluxonkv_spec.etcd_addresses = metadata.etcd_endpoints;
    final_config.fluxonkv_spec.sub_cluster = metadata.meta.sub_cluster;
    final_config.share_mem_path = metadata.share_mem_path;
    final_config.large_file_paths = metadata.meta.large_file_paths;
    final_config
}

/// A client stays what it is by what it takes over from its owner.
pub proof fn law_bootstrap_keeps_the_role(
    before: ClientConfig,
    metadata: ExternalBootstrapMetadata,
    after: ClientConfig,
)
    requires
        bootstrapped(before, metadata, after),
    ensures
        crate::startup::ClientRole::of(after) == crate::startup::ClientRole::of(before),
{
}

/// The shared bundle is complete once both files are there.
pub fn external_bootstrap_bundle_ready(shared_json_exists: bool, mmap_file_exists: bool) -> (ready:
    bool)
    ensures
        ready == (shared_json_exists && mmap_file_exists),
{
    shared_json_exists && mmap_file_exists
}

} // verus!
