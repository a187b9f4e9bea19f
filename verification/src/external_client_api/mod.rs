//! Clients without memory of their own, which share the memory of an owner on their machine.

pub mod attach;
pub mod calls;
pub mod owner;
pub mod put;
pub mod put_call;
pub mod retry;
pub mod shared_bytes;
pub mod side_transfer;
pub mod stored_values;
pub mod sync_file;
pub mod trace;
pub mod weak_index;

use vstd::prelude::*;

verus! {

/// External Client configuration parameters
#[derive(Debug)]
pub struct ExternalClientApiNewArg {
    pub shared_memory_path: String,
    pub shared_file_path: String,
    pub expected_cluster_name: String,
    pub expected_protocol_version: String,
    pub enable_side_transfer: bool,
    pub short_circuit_put_payload_path: bool,
}

} // verus!
