//! The storage and locking core of an LDK-based Lightning node: the lock record that keeps
//! one instance at a time on a shared remote store, the versioned mirroring of the local store
//! to the remote, backups, and the mapping of the node's records to the SDK's view.

pub mod backup_transport;
pub mod clock;
pub mod config;
pub mod digest;
pub mod lock_data;
pub mod locking_store;
pub mod logger;
pub mod mirroring_store;
pub mod node_api;
pub mod payments;
pub mod refresher;
pub mod text;
pub mod vss_lock;
pub mod vss_store;
