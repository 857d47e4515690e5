//! Vector index: embeddings under keys, exact nearest-neighbour ranking,
//! and the semantic cache on top of them.

pub mod embedding_store;
pub mod ranking;
pub mod score;
pub mod semantic;

pub use embedding_store::{DimensionMismatch, EmbeddingEntry, EmbeddingStore};
pub use semantic::{SemanticCache, SemanticCacheConfig, SemanticResult};
pub use score::{bits_from_score, score_from_bits, DEFAULT_THRESHOLD, SCORE_ONE, SCORE_ZERO};
