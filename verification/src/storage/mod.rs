//! Storage engine: the key/value stores, their entries and clock, the
//! periodic sweep, and eviction bookkeeping.

pub mod concurrent_store;
pub mod concurrent_ttl;
pub mod entry;
pub mod eviction;
pub mod store;
pub mod ttl;

pub use concurrent_store::ConcurrentStore;
pub use concurrent_ttl::ConcurrentTtlCleaner;
pub use entry::{Clock, Entry};
pub use eviction::{EvictionConfig, EvictionMeta, EvictionPolicy, LruManager};
pub use store::Store;
pub use ttl::TtlCleaner;
