//! Disaster recovery: failover between primaries, replication between
//! regions, and recovery to a point in time.

pub mod failover;
pub mod geo;
pub mod recovery;

pub use failover::{FailoverConfig, FailoverManager, FailoverState};
pub use geo::{GeoConfig, GeoRegion, GeoReplication};
pub use recovery::{PointInTimeRecovery, RecoveryPoint};
