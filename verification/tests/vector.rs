use celrix::vector::embedding_store::{DimensionMismatch, EmbeddingEntry, EmbeddingStore};
use celrix::vector::score::{bits_from_score, score_from_bits, DEFAULT_THRESHOLD, SCORE_ONE, SCORE_ZERO};
use celrix::vector::semantic::{SemanticCache, SemanticCacheConfig};

fn bits(v: &[f32]) -> Vec<u32> {
    v.iter().map(|x| x.to_bits()).collect()
}

fn key_of(x: f32) -> u32 {
    score_from_bits((x + 0.0).to_bits())
}

fn cosine(a: &[f32], b: &[f32]) -> f32 {
    let dot: f32 = a.iter().zip(b.iter()).map(|(x, y)| x * y).sum();
    let ma: f32 = a.iter().map(|x| x * x).sum::<f32>().sqrt();
    let mb: f32 = b.iter().map(|x| x * x).sum::<f32>().sqrt();
    if ma * mb > 0.0 {
        dot / (ma * mb)
    } else {
        0.0
    }
}

fn scores_for(vectors: &[Vec<u32>], query: &[f32]) -> Vec<u32> {
    vectors
        .iter()
        .map(|v| {
            let stored: Vec<f32> = v.iter().map(|b| f32::from_bits(*b)).collect();
            key_of(cosine(query, &stored))
        })
        .collect()
}

#[test]
fn test_embedding_store() {
    let mut store = EmbeddingStore::new(4);

    let entry = EmbeddingEntry::new(bits(&[1.0, 0.0, 0.0, 0.0]), 0).with_value(b"value1".to_vec());

    store.set(b"key1".to_vec(), entry).unwrap();

    assert!(store.contains_key(&b"key1".to_vec()));
    assert_eq!(store.len(), 1);

    let retrieved = store.get(&b"key1".to_vec()).unwrap();
    assert_eq!(retrieved.embedding, bits(&[1.0, 0.0, 0.0, 0.0]));
}

#[test]
fn test_dimension_mismatch() {
    let mut store = EmbeddingStore::new(4);
    let entry = EmbeddingEntry::new(bits(&[1.0, 0.0, 0.0]), 0);

    let result = store.set(b"key1".to_vec(), entry);
    assert!(result.is_err());
}

#[test]
fn test_find_nearest() {
    let mut store = EmbeddingStore::new(3);

    store.set(b"a".to_vec(), EmbeddingEntry::new(bits(&[1.0, 0.0, 0.0]), 0)).unwrap();
    store.set(b"b".to_vec(), EmbeddingEntry::new(bits(&[0.9, 0.1, 0.0]), 0)).unwrap();
    store.set(b"c".to_vec(), EmbeddingEntry::new(bits(&[0.0, 1.0, 0.0]), 0)).unwrap();

    let scores = scores_for(&store.vectors(), &[1.0, 0.0, 0.0]);
    let results = store.find_nearest(&scores, 2, key_of(0.5));
    assert_eq!(results.len(), 2);
    assert_eq!(results[0].0, b"a".to_vec());
}

fn create_test_cache() -> SemanticCache {
    let config = SemanticCacheConfig::default().with_dimension(3).with_threshold(key_of(0.8));
    SemanticCache::new(config)
}

#[test]
fn test_semantic_cache_set_get() {
    let mut cache = create_test_cache();

    cache
        .set(
            b"query1".to_vec(),
            bits(&[1.0, 0.0, 0.0]),
            b"response1".to_vec(),
            Some("test metadata".to_string()),
        )
        .unwrap();

    let result = cache.get(&b"query1".to_vec()).unwrap();
    assert_eq!(result.value, Some(b"response1".to_vec()));
    assert_eq!(result.similarity, key_of(1.0));
}

#[test]
fn test_semantic_lookup() {
    let mut cache = create_test_cache();

    cache.set(b"q1".to_vec(), bits(&[1.0, 0.0, 0.0]), b"r1".to_vec(), None).unwrap();
    cache.set(b"q2".to_vec(), bits(&[0.0, 1.0, 0.0]), b"r2".to_vec(), None).unwrap();

    let query = [0.95, 0.1, 0.0];
    let scores = scores_for(&cache.vectors(), &query);
    let results = cache.semantic_get(&bits(&query), &scores).unwrap();
    assert!(!results.is_empty());
    assert_eq!(results[0].key, b"q1".to_vec());
    assert!(results[0].similarity > key_of(0.9));
}

#[test]
fn test_best_match() {
    let mut cache = create_test_cache();

    cache.set(b"q1".to_vec(), bits(&[1.0, 0.0, 0.0]), b"r1".to_vec(), None).unwrap();

    let query = [0.99, 0.01, 0.0];
    let scores = scores_for(&cache.vectors(), &query);
    let best = cache.best_match(&bits(&query), &scores).unwrap();
    assert!(best.is_some());
    assert_eq!(best.unwrap().key, b"q1".to_vec());
}

#[test]
fn test_no_match_below_threshold() {
    let mut cache = create_test_cache();

    cache.set(b"q1".to_vec(), bits(&[1.0, 0.0, 0.0]), b"r1".to_vec(), None).unwrap();

    let query = [0.0, 1.0, 0.0];
    let scores = scores_for(&cache.vectors(), &query);
    let results = cache.semantic_get(&bits(&query), &scores).unwrap();
    assert!(results.is_empty());
}

#[test]
fn score_keys_are_ordered_as_the_numbers() {
    let values = [
        f32::NEG_INFINITY,
        -1.0,
        -0.5,
        -f32::MIN_POSITIVE,
        0.0,
        f32::MIN_POSITIVE,
        0.25,
        0.85,
        1.0,
        f32::INFINITY,
    ];
    for pair in values.windows(2) {
        assert!(key_of(pair[0]) < key_of(pair[1]), "{} {}", pair[0], pair[1]);
    }
    assert_eq!(key_of(1.0), SCORE_ONE);
    assert_eq!(key_of(0.0), SCORE_ZERO);
    assert_eq!(key_of(0.85), DEFAULT_THRESHOLD);
    assert_eq!(score_from_bits(0x3F80_0000), 0xBF80_0000);
    assert_eq!(score_from_bits(0xBF80_0000), 0x407F_FFFF);
    assert_eq!(score_from_bits(0), 0x8000_0000);
    assert_eq!(score_from_bits(0x8000_0000), 0x7FFF_FFFF);
    for b in [0u32, 1, 0x3F80_0000, 0x7FFF_FFFF, 0x8000_0000, 0xBF80_0000, 0xFFFF_FFFF] {
        assert_eq!(bits_from_score(score_from_bits(b)), b);
        assert_eq!(score_from_bits(bits_from_score(b)), b);
    }
}

fn filled(scores_len: usize) -> EmbeddingStore {
    let mut store = EmbeddingStore::new(1);
    for i in 0..scores_len {
        store.set_at(vec![b'a' + i as u8], EmbeddingEntry::new(vec![i as u32], 0), 0).unwrap();
    }
    store
}

#[test]
fn ranking_is_descending_stable_and_cut() {
    let store = filled(6);
    let scores = vec![50, 90, 70, 90, 10, 70];
    let all = store.find_nearest(&scores, 10, 0);
    assert_eq!(
        all,
        vec![
            (b"b".to_vec(), 90),
            (b"d".to_vec(), 90),
            (b"c".to_vec(), 70),
            (b"f".to_vec(), 70),
            (b"a".to_vec(), 50),
            (b"e".to_vec(), 10)
        ]
    );
    assert_eq!(store.find_nearest(&scores, 3, 0), all[..3].to_vec());
    assert_eq!(store.find_nearest(&scores, 10, 70), all[..4].to_vec());
    assert_eq!(store.find_nearest(&scores, 1, 70), all[..1].to_vec());
    assert_eq!(store.find_nearest(&scores, 10, 91), vec![]);
    assert_eq!(store.find_nearest(&scores, 0, 0), vec![]);
    assert_eq!(filled(0).find_nearest(&vec![], 5, 0), vec![]);
}

#[test]
fn a_mismatched_vector_changes_nothing() {
    let mut store = EmbeddingStore::new(2);
    store.set_at(b"k".to_vec(), EmbeddingEntry::new(vec![1, 2], 5), 6).unwrap();
    let err = store.set_at(b"k".to_vec(), EmbeddingEntry::new(vec![1, 2, 3], 7), 8);
    assert_eq!(err, Err(DimensionMismatch { expected: 2, got: 3 }));
    assert_eq!(err.unwrap_err().message(), "Dimension mismatch: expected 2, got 3");
    assert_eq!(store.len(), 1);
    assert_eq!(store.get_vector(&b"k".to_vec()), Some(vec![1, 2]));
    let stored = store.get_at(&b"k".to_vec(), 99).unwrap();
    assert_eq!(stored.created_at, 5);
    assert_eq!(stored.last_accessed, 99);
    assert_eq!(store.dimension(), 2);
}

#[test]
fn the_index_keeps_insertion_order() {
    let mut store = EmbeddingStore::new(1);
    store.set(b"x".to_vec(), EmbeddingEntry::new(vec![1], 0)).unwrap();
    store.set(b"y".to_vec(), EmbeddingEntry::new(vec![2], 0)).unwrap();
    store.set(b"z".to_vec(), EmbeddingEntry::new(vec![3], 0)).unwrap();
    // a key that is stored again keeps its place
    store.set(b"x".to_vec(), EmbeddingEntry::new(vec![9], 0).with_metadata("m".to_string())).unwrap();
    assert_eq!(store.keys(), vec![b"x".to_vec(), b"y".to_vec(), b"z".to_vec()]);
    assert_eq!(store.vectors(), vec![vec![9], vec![2], vec![3]]);
    assert_eq!(store.get(&b"x".to_vec()).unwrap().metadata, Some("m".to_string()));
    assert!(store.del(&b"y".to_vec()));
    assert!(!store.del(&b"y".to_vec()));
    assert_eq!(store.keys(), vec![b"x".to_vec(), b"z".to_vec()]);
    assert!(!store.is_empty());
    assert!(store.get(&b"y".to_vec()).is_none());
    let mut e = EmbeddingEntry::new(vec![1, 2, 3], 4);
    assert_eq!(e.dim(), 3);
    e.touch(10);
    assert_eq!(e.last_accessed, 10);
    assert_eq!(e.created_at, 4);
}

#[test]
fn the_cache_applies_threshold_and_limit() {
    let config = SemanticCacheConfig::default().with_dimension(1).with_threshold(50).with_max_results(2);
    let mut cache = SemanticCache::new(config);
    for (i, key) in [b"a", b"b", b"c", b"d"].iter().enumerate() {
        cache.set(key.to_vec(), vec![i as u32], vec![i as u8], None).unwrap();
    }
    let scores = vec![60, 40, 80, 70];
    let results = cache.semantic_get(&vec![0], &scores).unwrap();
    assert_eq!(results.len(), 2);
    assert_eq!(results[0].key, b"c".to_vec());
    assert_eq!(results[0].similarity, 80);
    assert_eq!(results[0].value, Some(vec![2]));
    assert_eq!(results[1].key, b"d".to_vec());
    assert_eq!(cache.has_semantic_match(&vec![0], &scores), Ok(true));
    assert_eq!(cache.has_semantic_match(&vec![0], &vec![49, 0, 1, 2]), Ok(false));
    assert_eq!(cache.best_match(&vec![0], &vec![49, 0, 1, 2]).unwrap().map(|r| r.key), None);
    // a query of another dimension is refused
    let wrong = DimensionMismatch { expected: 1, got: 2 };
    assert_eq!(cache.semantic_get(&vec![0, 0], &scores).err(), Some(wrong));
    assert_eq!(cache.has_semantic_match(&vec![], &scores), Err(DimensionMismatch { expected: 1, got: 0 }));
    assert!(cache.best_match(&vec![0, 0], &scores).is_err());
    assert_eq!(cache.set(b"e".to_vec(), vec![1, 2], vec![], None), Err(wrong));
    assert_eq!(cache.len(), 4);
    assert!(cache.del(&b"a".to_vec()));
    assert!(!cache.del(&b"a".to_vec()));
    assert_eq!(cache.len(), 3);
    assert!(!cache.is_empty());
    assert_eq!(cache.config().max_results, 2);
    let defaults = SemanticCache::with_defaults();
    assert_eq!(defaults.config().dimension, 1536);
    assert_eq!(defaults.config().max_results, 5);
    assert_eq!(defaults.config().similarity_threshold, DEFAULT_THRESHOLD);
    assert!(defaults.get(&b"none".to_vec()).is_none());
}

#[test]
fn a_stored_vector_replaces_the_one_under_its_key_in_place() {
    let mut cache = SemanticCache::new(SemanticCacheConfig::default().with_dimension(2).with_max_results(10));
    cache.set_at(b"a".to_vec(), bits(&[1.0, 0.0]), b"one".to_vec(), None, 5).unwrap();
    cache.set_at(b"b".to_vec(), bits(&[0.0, 1.0]), b"two".to_vec(), Some("m".to_string()), 6).unwrap();
    cache.set_at(b"c".to_vec(), bits(&[1.0, 1.0]), b"three".to_vec(), None, 7).unwrap();
    assert_eq!(cache.vectors(), vec![bits(&[1.0, 0.0]), bits(&[0.0, 1.0]), bits(&[1.0, 1.0])]);

    // the key keeps its place, the entry is the new one
    cache.set_at(b"a".to_vec(), bits(&[0.5, 0.5]), b"uno".to_vec(), Some("n".to_string()), 8).unwrap();
    assert_eq!(cache.len(), 3);
    assert_eq!(cache.vectors(), vec![bits(&[0.5, 0.5]), bits(&[0.0, 1.0]), bits(&[1.0, 1.0])]);
    let found = cache.get(&b"a".to_vec()).unwrap();
    assert_eq!(found.value, Some(b"uno".to_vec()));
    assert_eq!(found.metadata, Some("n".to_string()));
    assert_eq!(found.similarity, SCORE_ONE);
    let other = cache.get(&b"b".to_vec()).unwrap();
    assert_eq!(other.value, Some(b"two".to_vec()));
    assert_eq!(other.metadata, Some("m".to_string()));

    // equal similarities: the order of the index decides
    let all = cache.semantic_get(&bits(&[1.0, 1.0]), &vec![SCORE_ONE, SCORE_ONE, SCORE_ONE]).unwrap();
    let keys: Vec<Vec<u8>> = all.into_iter().map(|r| r.key).collect();
    assert_eq!(keys, vec![b"a".to_vec(), b"b".to_vec(), b"c".to_vec()]);

    // a wrong dimension changes nothing
    assert_eq!(
        cache.set_at(b"a".to_vec(), bits(&[1.0]), b"x".to_vec(), None, 9),
        Err(DimensionMismatch { expected: 2, got: 1 })
    );
    assert_eq!(cache.get(&b"a".to_vec()).unwrap().value, Some(b"uno".to_vec()));

    // a deleted key comes back behind the others
    assert!(cache.del(&b"a".to_vec()));
    assert!(!cache.del(&b"a".to_vec()));
    cache.set(b"a".to_vec(), bits(&[0.0, 2.0]), b"again".to_vec(), None).unwrap();
    assert_eq!(cache.vectors(), vec![bits(&[0.0, 1.0]), bits(&[1.0, 1.0]), bits(&[0.0, 2.0])]);
}

#[test]
fn the_index_marks_what_it_stores_and_reads() {
    let mut store = EmbeddingStore::new(1);
    let entry = EmbeddingEntry::new(bits(&[1.0]), 3).with_value(b"v".to_vec());
    assert_eq!((entry.created_at, entry.last_accessed), (3, 3));
    store.set_at(b"k".to_vec(), entry, 10).unwrap();
    let read = store.get_at(&b"k".to_vec(), 20).unwrap();
    assert_eq!((read.created_at, read.last_accessed), (3, 20));
    // reading hands out a copy: the stored entry is as it was stored
    let again = store.get_at(&b"k".to_vec(), 5).unwrap();
    assert_eq!((again.created_at, again.last_accessed), (3, 5));
    assert_eq!(store.get_vector(&b"k".to_vec()), Some(bits(&[1.0])));
    assert_eq!(store.get_vector(&b"x".to_vec()), None);
    assert!(store.contains_key(&b"k".to_vec()));
    assert!(!store.contains_key(&b"x".to_vec()));
    assert_eq!(store.keys(), vec![b"k".to_vec()]);
    assert!(store.del(&b"k".to_vec()));
    assert!(store.get_at(&b"k".to_vec(), 30).is_none());
    assert!(store.is_empty());
}

#[test]
fn the_best_match_is_the_first_of_the_nearest() {
    let mut cache = SemanticCache::new(
        SemanticCacheConfig::default().with_dimension(2).with_threshold(key_of(0.5)).with_max_results(2),
    );
    cache.set_at(b"a".to_vec(), bits(&[0.0, 1.0]), b"va".to_vec(), None, 1).unwrap();
    cache.set_at(b"b".to_vec(), bits(&[1.0, 0.0]), b"vb".to_vec(), Some("mb".to_string()), 2).unwrap();
    cache.set_at(b"c".to_vec(), bits(&[1.0, 0.0]), b"vc".to_vec(), None, 3).unwrap();
    let query = bits(&[1.0, 0.1]);
    let scores = scores_for(&cache.vectors(), &[1.0, 0.1]);
    // b and c are equally near: the one stored first is the best
    let best = cache.best_match(&query, &scores).unwrap().unwrap();
    assert_eq!(best.key, b"b".to_vec());
    assert_eq!(best.value, Some(b"vb".to_vec()));
    assert_eq!(best.metadata, Some("mb".to_string()));
    assert_eq!(best.similarity, scores[1]);
    assert_eq!(cache.has_semantic_match(&query, &scores), Ok(true));
    // nothing reaches the threshold
    let far = vec![key_of(0.1), key_of(0.2), key_of(0.49)];
    assert!(cache.best_match(&query, &far).unwrap().is_none());
    assert_eq!(cache.has_semantic_match(&query, &far), Ok(false));
    // a query of another dimension fails, whatever the scores are
    assert_eq!(
        cache.best_match(&bits(&[1.0]), &vec![]).unwrap_err(),
        DimensionMismatch { expected: 2, got: 1 }
    );
    assert_eq!(cache.has_semantic_match(&bits(&[1.0]), &vec![]), Err(DimensionMismatch { expected: 2, got: 1 }));
    assert_eq!(cache.search(&bits(&[1.0]), &vec![], 3).unwrap_err(), DimensionMismatch { expected: 2, got: 1 });
    // a search is cut at what it asks for, a lookup at the configured number
    let keys = |r: Vec<celrix::vector::semantic::SemanticResult>| -> Vec<Vec<u8>> {
        r.into_iter().map(|x| x.key).collect()
    };
    let all = vec![SCORE_ONE, SCORE_ONE, SCORE_ONE];
    assert_eq!(keys(cache.search(&query, &all, 3).unwrap()), vec![b"a".to_vec(), b"b".to_vec(), b"c".to_vec()]);
    assert_eq!(keys(cache.search(&query, &all, 1).unwrap()), vec![b"a".to_vec()]);
    assert_eq!(keys(cache.semantic_get(&query, &all).unwrap()), vec![b"a".to_vec(), b"b".to_vec()]);
    // no results are configured: no best match
    let none = SemanticCache::new(SemanticCacheConfig::default().with_dimension(1).with_max_results(0));
    assert!(none.best_match(&bits(&[1.0]), &vec![]).unwrap().is_none());
}
