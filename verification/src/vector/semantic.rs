//! Semantic cache: a policy on top of the embedding index. A lookup is a
//! hit where a stored vector is at least as similar to the query as the
//! configured threshold asks, and returns at most the configured number
//! of results.

use vstd::prelude::*;
use super::embedding_store::{
    has_key, hits, hits_view, key_index, upsert, DimensionMismatch, EmbeddingEntry,
    EmbeddingModel, EmbeddingStore, IndexModel,
};
use super::ranking::{lemma_ranked, lemma_ranked_complete, nearest, ranked, top, Candidate};
use super::score::{DEFAULT_THRESHOLD, SCORE_ONE};

verus! {

/// One result of a lookup.
#[derive(Debug, Clone)]
pub struct SemanticResult {
    /// The key of the entry.
    pub key: Vec<u8>,
    /// The value cached with it.
    pub value: Option<Vec<u8>>,
    /// Its similarity to the query, as a score key.
    pub similarity: u32,
    /// The metadata stored with it.
    pub metadata: Option<String>,
}

/// A result as a value.
pub struct SemanticModel {
    pub key: Seq<u8>,
    pub value: Option<Seq<u8>>,
    pub similarity: u32,
    pub metadata: Option<Seq<char>>,
}

impl View for SemanticResult {
    type V = SemanticModel;

    open spec fn view(&self) -> SemanticModel {
        SemanticModel {
            key: self.key@,
            value: match self.value {
                Some(v) => Some(v@),
                None => None,
            },
            similarity: self.similarity,
            metadata: match self.metadata {
                Some(m) => Some(m@),
                None => None,
            },
        }
    }
}

/// The result that stands for the entry at a position of the index, with
/// the given similarity.
pub open spec fn result_of(index: IndexModel, position: int, similarity: u32) -> SemanticModel {
    SemanticModel {
        key: index[position].0,
        value: index[position].1.value,
        similarity,
        metadata: index[position].1.metadata,
    }
}

/// The results that a ranking stands for.
pub open spec fn results_of(index: IndexModel, ranking: Seq<Candidate>) -> Seq<SemanticModel> {
    Seq::new(ranking.len(), |i: int| result_of(index, ranking[i].index, ranking[i].score))
}

/// The results that a list holds.
pub open spec fn results_view(results: Seq<SemanticResult>) -> Seq<SemanticModel> {
    Seq::new(results.len(), |i: int| results[i]@)
}

/// The entry that is stored for a vector with its value and metadata at
/// `now`.
pub open spec fn new_entry(
    embedding: Seq<u32>,
    value: Seq<u8>,
    metadata: Option<Seq<char>>,
    now: u64,
) -> EmbeddingModel {
    EmbeddingModel { embedding, value: Some(value), metadata, created_at: now, last_accessed: now }
}

/// The text of an optional string.
pub open spec fn text_of(s: Option<String>) -> Option<Seq<char>> {
    match s {
        Some(m) => Some(m@),
        None => None,
    }
}

/// Configuration of a semantic cache.
#[derive(Debug, Clone, Copy, PartialEq, Eq, Structural)]
pub struct SemanticCacheConfig {
    /// The least similarity of a hit, as a score key.
    pub similarity_threshold: u32,
    /// The greatest number of results of a lookup.
    pub max_results: usize,
    /// The dimension of the vectors.
    pub dimension: usize,
}

impl Default for SemanticCacheConfig {
    /// Threshold 0.85, five results, dimension 1536.
    fn default() -> (c: SemanticCacheConfig)
        ensures
            c == (SemanticCacheConfig {
                similarity_threshold: DEFAULT_THRESHOLD,
                max_results: 5,
                dimension: 1536,
            }),
    {
        SemanticCacheConfig {
            similarity_threshold: DEFAULT_THRESHOLD,
            max_results: 5,
            dimension: 1536,
        }
    }
}

impl SemanticCacheConfig {
    /// The same configuration with this threshold.
    pub fn with_threshold(self, threshold: u32) -> (c: SemanticCacheConfig)
        ensures
            c == (SemanticCacheConfig { similarity_threshold: threshold, ..self }),
    {
        SemanticCacheConfig { similarity_threshold: threshold, ..self }
    }

    /// The same configuration with this dimension.
    pub fn with_dimension(self, dim: usize) -> (c: SemanticCacheConfig)
        ensures
            c == (SemanticCacheConfig { dimension: dim, ..self }),
    {
        SemanticCacheConfig { dimension: dim, ..self }
    }

    /// The same configuration with this greatest number of results.
    pub fn with_max_results(self, max: usize) -> (c: SemanticCacheConfig)
        ensures
            c == (SemanticCacheConfig { max_results: max, ..self }),
    {
        SemanticCacheConfig { max_results: max, ..self }
    }
}

/// Semantic cache.
pub struct SemanticCache {
    store: EmbeddingStore,
    config: SemanticCacheConfig,
}

impl View for SemanticCache {
    type V = IndexModel;

    closed spec fn view(&self) -> IndexModel {
        self.store@
    }
}

impl SemanticCache {
    /// The configuration that this cache was made with.
    pub closed spec fn spec_config(&self) -> SemanticCacheConfig {
        self.config
    }

    /// The index is well formed and has the configured dimension.
    pub closed spec fn wf(&self) -> bool {
        self.store.wf() && self.store.spec_dimension() == self.config.dimension
    }

    /// An empty cache.
    pub fn new(config: SemanticCacheConfig) -> (c: SemanticCache)
        ensures
            c.wf(),
            c@.len() == 0,
            c.spec_config() == config,
    {
        SemanticCache { store: EmbeddingStore::new(config.dimension), config }
    }

    /// An empty cache with the default configuration.
    pub fn with_defaults() -> (c: SemanticCache)
        ensures
            c.wf(),
            c@.len() == 0,
            c.spec_config() == (SemanticCacheConfig {
                similarity_threshold: DEFAULT_THRESHOLD,
                max_results: 5,
                dimension: 1536,
            }),
    {
        SemanticCache::new(SemanticCacheConfig::default())
    }

    /// Stores a vector with its value and metadata under `key`, at `now`.
    ///
    /// Fails, and changes nothing, where the vector has not the configured
    /// dimension. Otherwise the new entry takes the place of the one that
    /// the key held, or the place behind all others.
    pub fn set_at(
        &mut self,
        key: Vec<u8>,
        embedding: Vec<u32>,
        value: Vec<u8>,
        metadata: Option<String>,
        now: u64,
    ) -> (r: Result<(), DimensionMismatch>)
        requires
            old(self).wf(),
        ensures
            final(self).wf(),
            final(self).spec_config() == old(self).spec_config(),
            embedding@.len() != old(self).spec_config().dimension ==> r == Err::<
                (),
                DimensionMismatch,
            >(
                DimensionMismatch {
                    expected: old(self).spec_config().dimension,
                    got: embedding@.len() as usize,
                },
            ) && final(self)@ == old(self)@,
            embedding@.len() == old(self).spec_config().dimension ==> r is Ok && final(self)@
                == upsert(old(self)@, key@, new_entry(embedding@, value@, text_of(metadata), now)),
    {
        let mut entry = EmbeddingEntry::new(embedding, now).with_value(value);
        if let Some(m) = metadata {
            entry = entry.with_metadata(m);
        }
        self.store.set_at(key, entry, now)
    }

    /// Stores a vector with its value and metadata under `key`, now.
    ///
    /// Fails, and changes nothing, where the vector has not the configured
    /// dimension.
    pub fn set(
        &mut self,
        key: Vec<u8>,
        embedding: Vec<u32>,
        value: Vec<u8>,
        metadata: Option<String>,
    ) -> (r: Result<(), DimensionMismatch>)
        requires
            old(self).wf(),
        ensures
            final(self).wf(),
            final(self).spec_config() == old(self).spec_config(),
            embedding@.len() != old(self).spec_config().dimension ==> r == Err::<
                (),
                DimensionMismatch,
            >(
                DimensionMismatch {
                    expected: old(self).spec_config().dimension,
                    got: embedding@.len() as usize,
                },
            ) && final(self)@ == old(self)@,
            embedding@.len() == old(self).spec_config().dimension ==> r is Ok && exists|now: u64|
                final(self)@ == upsert(
                    old(self)@,
                    key@,
                    #[trigger] new_entry(embedding@, value@, text_of(metadata), now),
                ),
    {
        let now = self.store.now();
        self.set_at(key, embedding, value, metadata, now)
    }

    /// The entry under `key`, as an exact match: its similarity is 1.0.
    pub fn get(&self, key: &Vec<u8>) -> (r: Option<SemanticResult>)
        requires
            self.wf(),
        ensures
            r is Some <==> has_key(self@, key@),
            r matches Some(found) ==> found@ == result_of(
                self@,
                key_index(self@, key@),
                SCORE_ONE,
            ),
    {
        match self.store.get(key) {
            Some(entry) => Some(
                SemanticResult {
                    key: key.clone(),
                    value: entry.value,
                    similarity: SCORE_ONE,
                    metadata: entry.metadata,
                },
            ),
            None => None,
        }
    }

    /// The stored vectors, in the order in which `semantic_get` expects
    /// their similarities.
    pub fn vectors(&self) -> (v: Vec<Vec<u32>>)
        requires
            self.wf(),
        ensures
            v@.len() == self@.len(),
            forall|i: int| 0 <= i < v@.len() ==> (#[trigger] v@[i])@ == self@[i].1.embedding,
    {
        self.store.vectors()
    }

    /// The `k` entries nearest to `query`, given the similarity of each
    /// stored vector to it.
    ///
    /// Fails where the query has not the configured dimension. Otherwise
    /// returns the entries at or above the threshold, in descending order
    /// of similarity, those stored earlier first among equals, and no more
    /// than `k` of them. The similarities are read only where the query
    /// has the configured dimension.
    pub fn search(&self, query: &Vec<u32>, scores: &Vec<u32>, k: usize) -> (r: Result<
        Vec<SemanticResult>,
        DimensionMismatch,
    >)
        requires
            self.wf(),
            query@.len() == self.spec_config().dimension ==> scores@.len() == self@.len(),
        ensures
            query@.len() != self.spec_config().dimension ==> r == Err::<
                Vec<SemanticResult>,
                DimensionMismatch,
            >(
                DimensionMismatch {
                    expected: self.spec_config().dimension,
                    got: query@.len() as usize,
                },
            ),
            query@.len() == self.spec_config().dimension ==> r is Ok,
            r matches Ok(results) ==> results_view(results@) == results_of(
                self@,
                nearest(scores@, self.spec_config().similarity_threshold, k as int),
            ),
            r matches Ok(results) ==> results@.len() <= k,
            r matches Ok(results) ==> forall|i: int|
                0 <= i < results@.len() ==> (#[trigger] results@[i]).similarity
                    >= self.spec_config().similarity_threshold,
            r matches Ok(results) ==> forall|i: int, j: int|
                0 <= i < j < results@.len() ==> (#[trigger] results@[i]).similarity
                    >= (#[trigger] results@[j]).similarity,
    {
        if query.len() != self.config.dimension {
            return Err(DimensionMismatch { expected: self.config.dimension, got: query.len() });
        }
        let nearest_keys = self.store.find_nearest(scores, k, self.config.similarity_threshold);
        let ghost winners = nearest(scores@, self.config.similarity_threshold, k as int);
        let ghost index = self.store@;
        proof {
            lemma_ranked(scores@, self.config.similarity_threshold, scores@.len() as int);
            assert(hits_view(nearest_keys@).len() == nearest_keys@.len());
            assert(hits(index, winners).len() == winners.len());
        }
        let now = self.store.now();
        let mut results: Vec<SemanticResult> = Vec::new();
        let mut i: usize = 0;
        while i < nearest_keys.len()
            invariant
                i <= nearest_keys@.len(),
                self.store.wf(),
                index == self.store@,
                nearest_keys@.len() == winners.len(),
                hits_view(nearest_keys@) == hits(index, winners),
                forall|m: int|
                    0 <= m < winners.len() ==> 0 <= (#[trigger] winners[m]).index < index.len(),
                results@.len() == i,
                forall|m: int|
                    0 <= m < i ==> (#[trigger] results@[m])@ == result_of(
                        index,
                        winners[m].index,
                        winners[m].score,
                    ),
            decreases nearest_keys@.len() - i,
        {
            let key = nearest_keys[i].0.clone();
            let similarity = nearest_keys[i].1;
            proof {
                let w = winners[i as int];
                assert(hits_view(nearest_keys@)[i as int] == hits(index, winners)[i as int]);
                assert(key@ == index[w.index].0);
                assert(similarity == w.score);
                let d = key_index(index, key@);
                if d != w.index {
                    if d < w.index {
                        assert(index[d].0 != index[w.index].0);
                    } else {
                        assert(index[w.index].0 != index[d].0);
                    }
                }
            }
            match self.store.get_at(&key, now) {
                Some(entry) => {
                    results.push(
                        SemanticResult {
                            key,
                            value: entry.value,
                            similarity,
                            metadata: entry.metadata,
                        },
                    );
                },
                None => {
                    // a ranking holds positions of the index only
                    assert(false);
                },
            }
            i += 1;
        }
        proof {
            assert(results_view(results@) =~= results_of(index, winners));
            assert forall|a: int| 0 <= a < results@.len() implies (#[trigger] results@[a]).similarity
                >= self.config.similarity_threshold by {
                assert(results@[a]@.similarity == winners[a].score);
                assert(hits_view(nearest_keys@)[a] == hits(index, winners)[a]);
            }
            assert forall|a: int, b: int| 0 <= a < b < results@.len() implies (
            #[trigger] results@[a]).similarity >= (#[trigger] results@[b]).similarity by {
                assert(results@[a]@.similarity == winners[a].score);
                assert(results@[b]@.similarity == winners[b].score);
                assert(hits_view(nearest_keys@)[a] == hits(index, winners)[a]);
                assert(hits_view(nearest_keys@)[b] == hits(index, winners)[b]);
            }
        }
        Ok(results)
    }

    /// The entries nearest to `query`, given the similarity of each stored
    /// vector to it: a search for the configured number of results.
    ///
    /// Fails where the query has not the configured dimension. Otherwise
    /// returns the entries at or above the threshold, in descending order
    /// of similarity, those stored earlier first among equals, and no more
    /// than the configured number of them.
    pub fn semantic_get(&self, query: &Vec<u32>, scores: &Vec<u32>) -> (r: Result<
        Vec<SemanticResult>,
        DimensionMismatch,
    >)
        requires
            self.wf(),
            query@.len() == self.spec_config().dimension ==> scores@.len() == self@.len(),
        ensures
            query@.len() != self.spec_config().dimension ==> r == Err::<
                Vec<SemanticResult>,
                DimensionMismatch,
            >(
                DimensionMismatch {
                    expected: self.spec_config().dimension,
                    got: query@.len() as usize,
                },
            ),
            query@.len() == self.spec_config().dimension ==> r is Ok,
            r matches Ok(results) ==> results_view(results@) == results_of(
                self@,
                nearest(
                    scores@,
                    self.spec_config().similarity_threshold,
                    self.spec_config().max_results as int,
                ),
            ),
            r matches Ok(results) ==> results@.len() <= self.spec_config().max_results,
            r matches Ok(results) ==> forall|i: int|
                0 <= i < results@.len() ==> (#[trigger] results@[i]).similarity
                    >= self.spec_config().similarity_threshold,
            r matches Ok(results) ==> forall|i: int, j: int|
                0 <= i < j < results@.len() ==> (#[trigger] results@[i]).similarity
                    >= (#[trigger] results@[j]).similarity,
    {
        self.search(query, scores, self.config.max_results)
    }

    /// Whether some stored vector is at least as similar to the query as
    /// the threshold asks.
    ///
    /// Fails where the query has not the configured dimension.
    pub fn has_semantic_match(&self, query: &Vec<u32>, scores: &Vec<u32>) -> (r: Result<
        bool,
        DimensionMismatch,
    >)
        requires
            self.wf(),
            query@.len() == self.spec_config().dimension ==> scores@.len() == self@.len(),
        ensures
            query@.len() != self.spec_config().dimension ==> r == Err::<bool, DimensionMismatch>(
                DimensionMismatch {
                    expected: self.spec_config().dimension,
                    got: query@.len() as usize,
                },
            ),
            query@.len() == self.spec_config().dimension ==> r is Ok,
            r matches Ok(found) ==> found == (exists|i: int|
                0 <= i < scores@.len() && #[trigger] scores@[i]
                    >= self.spec_config().similarity_threshold),
    {
        if query.len() != self.config.dimension {
            return Err(DimensionMismatch { expected: self.config.dimension, got: query.len() });
        }
        let threshold = self.config.similarity_threshold;
        let found = self.store.find_nearest(scores, 1, threshold);
        proof {
            let all = ranked(scores@, threshold, scores@.len() as int);
            lemma_ranked(scores@, threshold, scores@.len() as int);
            assert(hits_view(found@).len() == found@.len());
            assert(hits(self.store@, nearest(scores@, threshold, 1)).len() == nearest(
                scores@,
                threshold,
                1,
            ).len());
            if found@.len() > 0 {
                let c = all[0];
                assert(scores@[c.index] >= threshold);
            } else {
                assert(all.len() == 0);
                if exists|i: int| 0 <= i < scores@.len() && #[trigger] scores@[i] >= threshold {
                    let p = choose|i: int|
                        0 <= i < scores@.len() && #[trigger] scores@[i] >= threshold;
                    lemma_ranked_complete(scores@, threshold, scores@.len() as int, p);
                }
            }
        }
        Ok(found.len() > 0)
    }

    /// The entry most similar to the query, if any reaches the threshold:
    /// the first result of `semantic_get`, the one stored first among the
    /// most similar.
    ///
    /// Fails where the query has not the configured dimension.
    pub fn best_match(&self, query: &Vec<u32>, scores: &Vec<u32>) -> (r: Result<
        Option<SemanticResult>,
        DimensionMismatch,
    >)
        requires
            self.wf(),
            query@.len() == self.spec_config().dimension ==> scores@.len() == self@.len(),
        ensures
            query@.len() != self.spec_config().dimension ==> r == Err::<
                Option<SemanticResult>,
                DimensionMismatch,
            >(
                DimensionMismatch {
                    expected: self.spec_config().dimension,
                    got: query@.len() as usize,
                },
            ),
            query@.len() == self.spec_config().dimension ==> r is Ok,
            r matches Ok(found) ==> ({
                let winners = nearest(
                    scores@,
                    self.spec_config().similarity_threshold,
                    self.spec_config().max_results as int,
                );
                match found {
                    Some(best) => winners.len() > 0 && best@ == result_of(
                        self@,
                        winners[0].index,
                        winners[0].score,
                    ),
                    None => winners.len() == 0,
                }
            }),
            r matches Ok(Some(best)) ==> best.similarity >= self.spec_config().similarity_threshold
                && has_key(self@, best.key@),
    {
        match self.semantic_get(query, scores) {
            Err(e) => Err(e),
            Ok(results) => {
                let mut results = results;
                let ghost threshold = self.config.similarity_threshold;
                let ghost winners = nearest(scores@, threshold, self.config.max_results as int);
                proof {
                    assert(results_view(results@).len() == results@.len());
                    assert(results_of(self@, winners).len() == winners.len());
                }
                if results.len() == 0 {
                    Ok(None)
                } else {
                    proof {
                        let all = ranked(scores@, threshold, scores@.len() as int);
                        lemma_ranked(scores@, threshold, scores@.len() as int);
                        assert(winners[0] == all[0]);
                        assert(results_view(results@)[0] == results@[0]@);
                        assert(results_of(self@, winners)[0] == result_of(
                            self@,
                            winners[0].index,
                            winners[0].score,
                        ));
                        assert(self@[winners[0].index].0 == results@[0].key@);
                    }
                    let ghost first = results@[0];
                    let best = results.swap_remove(0);
                    assert(best == first);
                    Ok(Some(best))
                }
            },
        }
    }

    /// Deletes `key`. Returns whether it was there.
    pub fn del(&mut self, key: &Vec<u8>) -> (existed: bool)
        requires
            old(self).wf(),
        ensures
            final(self).wf(),
            final(self).spec_config() == old(self).spec_config(),
            existed == has_key(old(self)@, key@),
            !has_key(old(self)@, key@) ==> final(self)@ == old(self)@,
            has_key(old(self)@, key@) ==> final(self)@ == old(self)@.remove(
                key_index(old(self)@, key@),
            ),
    {
        self.store.del(key)
    }

    /// The number of entries.
    pub fn len(&self) -> (n: usize)
        ensures
            n == self@.len(),
    {
        self.store.len()
    }

    /// Whether the cache holds no entry.
    pub fn is_empty(&self) -> (r: bool)
        ensures
            r == (self@.len() == 0),
    {
        self.store.is_empty()
    }

    /// The configuration.
    pub fn config(&self) -> (c: &SemanticCacheConfig)
        ensures
            *c == self.spec_config(),
    {
        &self.config
    }
}

} // verus!
