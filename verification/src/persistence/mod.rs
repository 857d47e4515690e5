//! Persistence: the formats of the snapshot and of the operation log.

pub mod aof;
pub mod snapshot;

pub use aof::{AofConfig, AofEntry, AofWriter};
pub use snapshot::{Snapshot, SnapshotConfig};
