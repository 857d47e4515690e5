//! In-memory cache with a binary wire protocol, a key/value store with
//! per-entry expiry and an exact vector-similarity index.

pub mod cli;
pub mod client;
pub mod cluster;
pub mod counter;
pub mod disaster_recovery;
pub mod metrics;
pub mod observability;
pub mod persistence;
pub mod protocol;
pub mod security;
pub mod server;
pub mod storage;
pub mod text;
pub mod text_map;
pub mod vector;
pub mod wire;

pub use cluster::{ClusterTopology, Node, RaftNode, ReplicationManager, ShardManager};
pub use metrics::Metrics;
pub use observability::{AdminApi, Benchmark, HealthCheck, PrometheusExporter};
pub use persistence::{AofWriter, Snapshot, SnapshotConfig};
pub use protocol::{Command, ExtendedCommand, Frame, Response, VcpCodec};
pub use security::{AclManager, AuditLogger, AuthManager, TlsConfig};
pub use server::{ConcurrentServer, Config, Server, WorkerPoolConfig};
pub use storage::{ConcurrentStore, EvictionConfig, EvictionPolicy, Store};
pub use vector::{EmbeddingStore, SemanticCache};
