//! Cluster: nodes, consensus, replication and sharding.

pub mod node;
pub mod raft;
pub mod replication;
pub mod sharding;

pub use node::{ClusterTopology, Node, NodeId, NodeRole, NodeState};
pub use raft::{RaftConfig, RaftNode, RaftState};
pub use replication::{ReplicationConfig, ReplicationManager, ReplicationMode};
pub use sharding::{ShardManager, Slot, SlotRange};
