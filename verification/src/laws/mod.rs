//! What the operations are for: laws over what goes in and what comes out, in the plain terms of
//! keys, nodes, places and times.

pub mod bookkeeping;
pub mod cluster_tests;
pub mod external_clients;
pub mod gets;
pub mod granted_blocks;
pub mod leases;
pub mod measures;
pub mod messages;
pub mod names;
pub mod placement;
pub mod puts;
pub mod registration;
pub mod routing;
pub mod segments;
pub mod side_workers;
pub mod startup;
pub mod synced_fields;
pub mod texts;
