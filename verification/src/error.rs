//! The errors of the key-value backend.
//!
//! Each error type has its texts as a type parameter: the library returns the form that holds
//! `String`s, and contracts speak of its view, the same form over character sequences.

use vstd::prelude::*;

verus! {

/// Errors of the key-value API.
#[derive(Debug)]
pub enum ApiErrorOf<S> {
    KeyNotFound { key: S },
    KeyBeingWritten { key: S },
    NoSpace { node: S, segment: S, total_capacity: u64, free_capacity: u64 },
    RegisterSegmentFailed { detail: S },
    InvalidPutMasterState { detail: S },
    GetTimeout { timeout_ms: u64, detail: S },
    OwnerStartTimeMismatch { detail: S },
    InvalidArgument { detail: S },
    SystemShutdown { detail: S },
    FileWriteError { path: S, offset: u64, detail: S },
    Unknown { detail: S },
}

/// States that a healthy cluster does not reach.
#[derive(Debug)]
pub enum UnreachableErrorOf<S> {
    DuplicateSegId { device_id: S, node_id: S },
    OwnerNoSeg { detail: S },
    RpcDecodeError { rpc_input_json: S },
}

/// Errors of the memory that an owner shares with the clients on its machine.
#[derive(Debug)]
#[allow(inconsistent_fields)]
pub enum SharedMemErrorOf<S> {
    NotConfigured { node_id: Option<S>, detail: Option<S> },
    MetaDataLoadError { path: S, detail: S },
    MappingFailed { path: S, len: u64, detail: S },
}

/// Errors of the transport between nodes.
#[derive(Debug)]
pub enum P2PErrorOf<S> {
    NoConnectionReady { detail: S },
    NodeNotFound { detail: S },
    NodeNotConnected { detail: S },
    NodePortNotReady { detail: S },
    ConnectionError { detail: S },
    SendFailed { detail: S },
    StartServerError { detail: S },
    Iceoryx2TransportNotStarted,
    Other { detail: S },
}

/// Errors of lease management.
#[derive(Debug)]
pub enum LeaseMgrErrorOf<S> {
    LeaseNotFound { lease_id: u64, message: S },
    LeaseExpired { lease_id: u64, message: S },
    InvalidTTL { ttl: u64, message: S },
}

/// Errors of the configuration.
#[derive(Debug)]
pub enum ConfigErrorOf<S> {
    FileReadError { detail: S },
}

/// Any error that a request can be answered with.
#[derive(Debug)]
pub enum KvErrorOf<S> {
    Api(ApiErrorOf<S>),
    Unreachable(UnreachableErrorOf<S>),
    SharedMem(SharedMemErrorOf<S>),
    P2p(P2PErrorOf<S>),
    LeaseMgr(LeaseMgrErrorOf<S>),
    Config(ConfigErrorOf<S>),
}

pub type ApiError = ApiErrorOf<String>;

pub type UnreachableError = UnreachableErrorOf<String>;

pub type SharedMemError = SharedMemErrorOf<String>;

pub type P2PError = P2PErrorOf<String>;

pub type LeaseMgrError = LeaseMgrErrorOf<String>;

pub type ConfigError = ConfigErrorOf<String>;

pub type KvError = KvErrorOf<String>;

pub type KvResult<T> = Result<T, KvError>;

impl View for ApiErrorOf<String> {
    type V = ApiErrorOf<Seq<char>>;

    open spec fn view(&self) -> ApiErrorOf<Seq<char>> {
        match self {
            ApiErrorOf::KeyNotFound { key } => ApiErrorOf::KeyNotFound { key: key@ },
            ApiErrorOf::KeyBeingWritten { key } => ApiErrorOf::KeyBeingWritten { key: key@ },
            ApiErrorOf::NoSpace { node, segment, total_capacity, free_capacity } => {
                ApiErrorOf::NoSpace {
                    node: node@,
                    segment: segment@,
                    total_capacity: *total_capacity,
                    free_capacity: *free_capacity,
                }
            },
            ApiErrorOf::RegisterSegmentFailed { detail } => ApiErrorOf::RegisterSegmentFailed {
                detail: detail@,
            },
            ApiErrorOf::InvalidPutMasterState { detail } => ApiErrorOf::InvalidPutMasterState {
                detail: detail@,
            },
            ApiErrorOf::GetTimeout { timeout_ms, detail } => ApiErrorOf::GetTimeout {
                timeout_ms: *timeout_ms,
                detail: detail@,
            },
            ApiErrorOf::OwnerStartTimeMismatch { detail } => ApiErrorOf::OwnerStartTimeMismatch {
                detail: detail@,
            },
            ApiErrorOf::InvalidArgument { detail } => ApiErrorOf::InvalidArgument {
                detail: detail@,
            },
            ApiErrorOf::SystemShutdown { detail } => ApiErrorOf::SystemShutdown {
                detail: detail@,
            },
            ApiErrorOf::FileWriteError { path, offset, detail } => ApiErrorOf::FileWriteError {
                path: path@,
                offset: *offset,
                detail: detail@,
            },
            ApiErrorOf::Unknown { detail } => ApiErrorOf::Unknown { detail: detail@ },
        }
    }
}

impl View for UnreachableErrorOf<String> {
    type V = UnreachableErrorOf<Seq<char>>;

    open spec fn view(&self) -> UnreachableErrorOf<Seq<char>> {
        match self {
            UnreachableErrorOf::DuplicateSegId { device_id, node_id } => {
                UnreachableErrorOf::DuplicateSegId { device_id: device_id@, node_id: node_id@ }
            },
            UnreachableErrorOf::OwnerNoSeg { detail } => UnreachableErrorOf::OwnerNoSeg {
                detail: detail@,
            },
            UnreachableErrorOf::RpcDecodeError { rpc_input_json } => {
                UnreachableErrorOf::RpcDecodeError { rpc_input_json: rpc_input_json@ }
            },
        }
    }
}

impl View for SharedMemErrorOf<String> {
    type V = SharedMemErrorOf<Seq<char>>;

    open spec fn view(&self) -> SharedMemErrorOf<Seq<char>> {
        match self {
            SharedMemErrorOf::NotConfigured { node_id, detail } => {
                SharedMemErrorOf::NotConfigured {
                    node_id: match node_id {
                        Some(node_id) => Some(node_id@),
                        None => None,
                    },
                    detail: match detail {
                        Some(detail) => Some(detail@),
                        None => None,
                    },
                }
            },
            SharedMemErrorOf::MetaDataLoadError { path, detail } => {
                SharedMemErrorOf::MetaDataLoadError { path: path@, detail: detail@ }
            },
            SharedMemErrorOf::MappingFailed { path, len, detail } => {
                SharedMemErrorOf::MappingFailed { path: path@, len: *len, detail: detail@ }
            },
        }
    }
}

impl View for P2PErrorOf<String> {
    type V = P2PErrorOf<Seq<char>>;

    open spec fn view(&self) -> P2PErrorOf<Seq<char>> {
        match self {
            P2PErrorOf::NoConnectionReady { detail } => P2PErrorOf::NoConnectionReady {
                detail: detail@,
            },
            P2PErrorOf::NodeNotFound { detail } => P2PErrorOf::NodeNotFound { detail: detail@ },
            P2PErrorOf::NodeNotConnected { detail } => P2PErrorOf::NodeNotConnected {
                detail: detail@,
            },
            P2PErrorOf::NodePortNotReady { detail } => P2PErrorOf::NodePortNotReady {
                detail: detail@,
            },
            P2PErrorOf::ConnectionError { detail } => P2PErrorOf::ConnectionError {
                detail: detail@,
            },
            P2PErrorOf::SendFailed { detail } => P2PErrorOf::SendFailed { detail: detail@ },
            P2PErrorOf::StartServerError { detail } => P2PErrorOf::StartServerError {
                detail: detail@,
            },
            P2PErrorOf::Iceoryx2TransportNotStarted => P2PErrorOf::Iceoryx2TransportNotStarted,
            P2PErrorOf::Other { detail } => P2PErrorOf::Other { detail: detail@ },
        }
    }
}

impl View for LeaseMgrErrorOf<String> {
    type V = LeaseMgrErrorOf<Seq<char>>;

    open spec fn view(&self) -> LeaseMgrErrorOf<Seq<char>> {
        match self {
            LeaseMgrErrorOf::LeaseNotFound { lease_id, message } => {
                LeaseMgrErrorOf::LeaseNotFound { lease_id: *lease_id, message: message@ }
            },
            LeaseMgrErrorOf::LeaseExpired { lease_id, message } => {
                LeaseMgrErrorOf::LeaseExpired { lease_id: *lease_id, message: message@ }
            },
            LeaseMgrErrorOf::InvalidTTL { ttl, message } => {
                LeaseMgrErrorOf::InvalidTTL { ttl: *ttl, message: message@ }
            },
        }
    }
}

impl View for ConfigErrorOf<String> {
    type V = ConfigErrorOf<Seq<char>>;

    open spec fn view(&self) -> ConfigErrorOf<Seq<char>> {
        match self {
            ConfigErrorOf::FileReadError { detail } => ConfigErrorOf::FileReadError {
                detail: detail@,
            },
        }
    }
}

impl View for KvErrorOf<String> {
    type V = KvErrorOf<Seq<char>>;

    open spec fn view(&self) -> KvErrorOf<Seq<char>> {
        match self {
            KvErrorOf::Api(inner) => KvErrorOf::Api(inner@),
            KvErrorOf::Unreachable(inner) => KvErrorOf::Unreachable(inner@),
            KvErrorOf::SharedMem(inner) => KvErrorOf::SharedMem(inner@),
            KvErrorOf::P2p(inner) => KvErrorOf::P2p(inner@),
            KvErrorOf::LeaseMgr(inner) => KvErrorOf::LeaseMgr(inner@),
            KvErrorOf::Config(inner) => KvErrorOf::Config(inner@),
        }
    }
}

/// The view of a result whose error is a [`KvError`].
pub open spec fn result_view<T>(result: KvResult<T>) -> Result<T, KvErrorOf<Seq<char>>> {
    match result {
        Ok(value) => Ok(value),
        Err(error) => Err(error@),
    }
}

/// The view of a result whose error is a [`LeaseMgrError`].
pub open spec fn lease_result_view<T>(result: Result<T, LeaseMgrError>) -> Result<
    T,
    LeaseMgrErrorOf<Seq<char>>,
> {
    match result {
        Ok(value) => Ok(value),
        Err(error) => Err(error@),
    }
}

} // verus!
