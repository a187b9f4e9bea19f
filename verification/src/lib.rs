pub mod bootstrap;
mod choice;
pub mod cluster_manager;
pub mod config;
pub mod dash;
pub mod error;
pub mod exe_name;
pub mod external_client_api;
pub mod key_prefix;
pub mod kv_client;
pub mod kv_test;
pub mod kvlease;
pub mod laws;
pub mod local_ipc;
pub mod master_kv_router;
pub mod master_lease_manager;
pub mod master_seg_manager;
pub mod moka_cache;
pub mod node_plan;
pub mod p2p;
pub mod side_workers;
pub mod startup;
pub mod text;
