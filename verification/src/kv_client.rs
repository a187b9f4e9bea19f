//! Calls that go to one of two sides, by the role of the node, and where a configuration comes from.

use crate::cluster_manager::Metadata;
use crate::error::{ConfigErrorOf, KvError, KvErrorOf, KvResult};
use std::path::PathBuf;
use vstd::prelude::*;

verus! {

/// `std::path::PathBuf`, opaque to the verifier.
#[verifier::external_type_specification]
#[verifier::external_body]
pub struct ExPathBuf(std::path::PathBuf);

/// Configuration argument types for run_master and run_client functions
#[derive(Debug)]
pub enum ConfigArg<T> {
    /// No configuration provided, use defaults
    Unset,
    /// Configuration file path
    File(PathBuf),
    /// Direct configuration object
    Config(T),
}

impl<T> Default for ConfigArg<T> {
    fn default() -> (arg: Self)
        ensures
            arg is Unset,
    {
        ConfigArg::Unset
    }
}

/// Where a configuration is taken from.
pub enum ConfigSource<T> {
    /// A file that has to be read.
    File(PathBuf),
    Config(T),
}

/// The names of the files that are looked for where no configuration is given, in order.
pub open spec fn default_config_files() -> Seq<Seq<char>> {
    seq!["config.yaml"@, "config.yml"@]
}

/// The file that is taken where no configuration is given: the first that there is.
pub fn find_default_config_file(yaml_exists: bool, yml_exists: bool) -> (name: Option<&'static str>)
    ensures
        if yaml_exists {
            name matches Some(name) && name@ == default_config_files()[0]
        } else if yml_exists {
            name matches Some(name) && name@ == default_config_files()[1]
        } else {
            name is None
        },
{
    if yaml_exists {
        return Some("config.yaml");
    }
    if yml_exists {
        return Some("config.yml");
    }
    None
}

/// A configuration comes from the caller, from a file that the caller names, or else from a default
/// file; without one there is no configuration.
pub fn config_source<T>(config_arg: ConfigArg<T>, default_file: Option<PathBuf>) -> (source: KvResult<
    ConfigSource<T>,
>)
    ensures
        match config_arg {
            ConfigArg::Unset => match default_file {
                Some(path) => source == Ok::<ConfigSource<T>, KvError>(ConfigSource::File(path)),
                None => source matches Err(err) && err@ == KvErrorOf::Config(
                    ConfigErrorOf::FileReadError {
                        detail: "No config file found. Please provide a config file with -f option"@,
                    },
                ),
            },
            ConfigArg::File(path) => source == Ok::<ConfigSource<T>, KvError>(
                ConfigSource::File(path),
            ),
            ConfigArg::Config(config) => source == Ok::<ConfigSource<T>, KvError>(
                ConfigSource::Config(config),
            ),
        },
{
    match config_arg {
        ConfigArg::Unset => match default_file {
            Some(path) => Ok(ConfigSource::File(path)),
            None => Err(
                KvErrorOf::Config(
                    ConfigErrorOf::FileReadError {
                        detail: "No config file found. Please provide a config file with -f option".to_owned(),
                    },
                ),
            ),
        },
        ConfigArg::File(path) => Ok(ConfigSource::File(path)),
        ConfigArg::Config(config) => Ok(ConfigSource::Config(config)),
    }
}

/// Result of a unified `get` that carries the role-specific holder types.
pub enum KvGetResult<U, E> {
    /// Owner/client mode: optional in-memory holder
    Owner(Option<U>),
    /// External mode: optional external mem holder (shared-mem view)
    External(Option<E>),
}

/// A node with this metadata has a role: it says that it is a side worker, an external client or a
/// client.
pub open spec fn has_role(metadata: Metadata) -> bool {
    metadata.flag("side_transfer_worker"@) || metadata.value("external_client"@) is Some
        || metadata.value("client"@) is Some
}

/// A node with this metadata is an external client. A side worker is none, though it says so.
pub open spec fn is_external(metadata: Metadata) -> bool {
    !metadata.flag("side_transfer_worker"@) && metadata.value("external_client"@) is Some
}

/// Routes calls by the role of the node.
pub trait KvClientTrait {
    /// What the node says of itself.
    spec fn self_metadata(&self) -> Metadata;

    /// Whether this framework runs in external-client role
    fn is_external_mode(&self) -> (external: bool)
        requires
            has_role(self.self_metadata()),
        ensures
            external == is_external(self.self_metadata()),
    ;
}

/// A running node, as far as its role goes.
pub struct Framework {
    pub metadata: Metadata,
}

impl KvClientTrait for Framework {
    open spec fn self_metadata(&self) -> Metadata {
        self.metadata
    }

    fn is_external_mode(&self) -> (external: bool) {
        if self.metadata.is_true("side_transfer_worker") {
            return false;
        }
        self.metadata.get("external_client").is_some()
    }
}

/// Tags what a get gave with the side that gave it.
pub fn kv_get_result<F: KvClientTrait, U, E>(
    framework: &F,
    owner_side: Option<U>,
    external_side: Option<E>,
) -> (result: KvGetResult<U, E>)
    requires
        has_role(framework.self_metadata()),
    ensures
        result == if is_external(framework.self_metadata()) {
            KvGetResult::External(external_side)
        } else {
            KvGetResult::Owner(owner_side)
        },
{
    if framework.is_external_mode() {
        KvGetResult::External(external_side)
    } else {
        KvGetResult::Owner(owner_side)
    }
}

/// What a client publishes at start-up says which side its calls go to: external clients alone go
/// to the external side.
pub proof fn law_published_role_routes_calls(
    role: crate::startup::ClientRole,
    version: Seq<char>,
    metadata: Metadata,
)
    requires
        forall|key: Seq<char>| #[trigger] metadata.value(key) == role.publishes(version, key),
    ensures
        has_role(metadata),
        is_external(metadata) <==> role is External,
{
    crate::startup::lemma_role_keys_differ();
}

} // verus!
