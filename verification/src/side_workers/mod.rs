//! The side workers of an owner: processes that transfer for it.

pub mod launch;
pub mod output;
pub mod supervise;
pub mod worker_config;
