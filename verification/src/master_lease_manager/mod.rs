//! Leases: keys that live as long as a client keeps their lease alive.

pub mod expire_heap;
pub mod lease;
pub mod master_lease_manager;
pub mod msg_pack;
