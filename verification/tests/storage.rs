use celrix::storage::concurrent_store::{shard_amount, shard_estimate_for, ConcurrentStore};
use celrix::storage::concurrent_ttl::ConcurrentTtlCleaner;
use celrix::storage::entry::{elapsed_secs, expiry_at, Clock, Entry};
use celrix::storage::eviction::{EvictionConfig, EvictionMeta, EvictionPolicy, LruManager};
use celrix::storage::store::Store;
use celrix::storage::ttl::TtlCleaner;
use std::time::{Duration, Instant};

const SECOND: u64 = 1_000_000_000;

fn wait(ms: u64) {
    let started = Instant::now();
    while started.elapsed() < Duration::from_millis(ms) {
        std::hint::spin_loop();
    }
}

#[test]
fn store_test_basic_operations() {
    let mut store = Store::new();
    let key = b"key".to_vec();
    let value = b"value".to_vec();

    store.set(key.clone(), value.clone(), None);
    assert_eq!(store.get(&key), Some(value.clone()));

    assert!(store.contains_key(&key));

    assert!(store.del(&key));
    assert!(!store.contains_key(&key));
    assert_eq!(store.get(&key), None);
}

#[test]
fn store_test_ttl_expiration() {
    let mut store = Store::new();
    let key = b"expiring".to_vec();
    let value = b"temporary".to_vec();

    store.set(key.clone(), value.clone(), Some(1));
    assert_eq!(store.get(&key), Some(value));

    wait(1100);
    assert_eq!(store.get(&key), None);
}

#[test]
fn store_test_cleanup() {
    let mut store = Store::new();

    for i in 0..10 {
        let key = format!("key{}", i).into_bytes();
        let value = format!("value{}", i).into_bytes();
        store.set(key, value, Some(0));
    }

    wait(100);
    let removed = store.cleanup_expired();
    assert_eq!(removed, 10);
    assert!(store.is_empty());
}

#[test]
fn concurrent_store_test_basic_operations() {
    let mut store = ConcurrentStore::new();
    let key = b"key".to_vec();
    let value = b"value".to_vec();

    store.set(key.clone(), value.clone(), None);
    assert_eq!(store.get(&key), Some(value.clone()));

    assert!(store.contains_key(&key));

    assert!(store.del(&key));
    assert!(!store.contains_key(&key));
    assert_eq!(store.get(&key), None);
}

#[test]
fn concurrent_store_test_ttl_expiration() {
    let mut store = ConcurrentStore::new();
    let key = b"expiring".to_vec();
    let value = b"temporary".to_vec();

    store.set(key.clone(), value.clone(), Some(1));
    assert_eq!(store.get(&key), Some(value));

    wait(1100);
    assert_eq!(store.get(&key), None);
}

#[test]
fn concurrent_store_test_cleanup() {
    let mut store = ConcurrentStore::new();

    for i in 0..10 {
        let key = format!("key{}", i).into_bytes();
        let value = format!("value{}", i).into_bytes();
        store.set(key, value, Some(0));
    }

    wait(100);
    let removed = store.cleanup_expired();
    assert_eq!(removed, 10);
    assert!(store.is_empty());
}

#[test]
fn test_concurrent_access() {
    let mut store = ConcurrentStore::new();

    for i in 0..10 {
        for j in 0..100 {
            let key = format!("key-{}-{}", i, j).into_bytes();
            let value = format!("value-{}-{}", i, j).into_bytes();
            store.set(key.clone(), value.clone(), None);
            assert!(store.contains_key(&key));
        }
    }

    assert_eq!(store.len(), 1000);
}

#[test]
fn expiry_follows_the_clock_exactly() {
    let mut store = Store::new();
    store.set_at(b"k".to_vec(), b"v".to_vec(), Some(1), 5 * SECOND);
    assert_eq!(store.get_at(&b"k".to_vec(), 5 * SECOND), Some(b"v".to_vec()));
    assert_eq!(store.get_at(&b"k".to_vec(), 6 * SECOND), Some(b"v".to_vec()));
    assert_eq!(store.get_at(&b"k".to_vec(), 6 * SECOND + 1), None);
    assert!(store.contains_key_at(&b"k".to_vec(), 6 * SECOND));
    assert!(!store.contains_key_at(&b"k".to_vec(), 6 * SECOND + 1));
    // expired, but not yet removed: it still counts, and DEL finds it
    assert_eq!(store.len(), 1);
    assert_eq!(store.cleanup_expired_at(6 * SECOND), 0);
    assert_eq!(store.cleanup_expired_at(6 * SECOND + 1), 1);
    assert_eq!(store.len(), 0);
    assert!(!store.del(&b"k".to_vec()));
    // SET replaces the value and the expiry
    store.set_at(b"k".to_vec(), b"v1".to_vec(), Some(1), 0);
    store.set_at(b"k".to_vec(), b"v2".to_vec(), None, 0);
    assert_eq!(store.get_at(&b"k".to_vec(), u64::MAX), Some(b"v2".to_vec()));
    assert_eq!(store.len(), 1);
}

#[test]
fn the_sharded_store_means_the_same() {
    let mut store = ConcurrentStore::with_shard_amount(8);
    store.set_at(b"a".to_vec(), b"1".to_vec(), Some(2), 0);
    store.set_at(b"b".to_vec(), b"2".to_vec(), None, 0);
    store.set_at(b"c".to_vec(), b"3".to_vec(), Some(0), 0);
    assert_eq!(store.get_at(&b"a".to_vec(), 2 * SECOND), Some(b"1".to_vec()));
    assert_eq!(store.get_at(&b"a".to_vec(), 2 * SECOND + 1), None);
    assert_eq!(store.get_at(&b"c".to_vec(), 0), Some(b"3".to_vec()));
    assert_eq!(store.get_at(&b"c".to_vec(), 1), None);
    let mut keys = store.keys();
    keys.sort();
    assert_eq!(keys, vec![b"a".to_vec(), b"b".to_vec(), b"c".to_vec()]);
    assert_eq!(store.cleanup_expired_at(3 * SECOND), 2);
    assert_eq!(store.keys(), vec![b"b".to_vec()]);
    assert!(store.del(&b"b".to_vec()));
    assert!(store.is_empty());
    assert!(store.shards() >= 4);
    let sized = ConcurrentStore::for_workers(3);
    assert_eq!(sized.len(), 0);
}

#[test]
fn store_keys_are_listed_once() {
    let mut store = Store::new();
    store.set(b"x".to_vec(), vec![], None);
    store.set(b"y".to_vec(), vec![], None);
    store.set(b"x".to_vec(), vec![1], None);
    let mut keys = store.keys();
    keys.sort();
    assert_eq!(keys, vec![b"x".to_vec(), b"y".to_vec()]);
    assert_eq!(store.len(), 2);
    assert!(!store.is_empty());
}

#[test]
fn shard_amount_is_a_power_of_two() {
    assert_eq!(shard_amount(0), 2);
    assert_eq!(shard_amount(1), 4);
    assert_eq!(shard_amount(2), 8);
    assert_eq!(shard_amount(3), 16);
    assert_eq!(shard_amount(4), 16);
    assert_eq!(shard_amount(5), 32);
    assert_eq!(shard_amount(16), 64);
    assert!(shard_amount(usize::MAX).is_power_of_two());
    assert_eq!(shard_amount(usize::MAX), usize::MAX / 2 + 1);
}

#[test]
fn expiry_arithmetic() {
    assert_eq!(expiry_at(7, None), None);
    assert_eq!(expiry_at(7, Some(0)), Some(7));
    assert_eq!(expiry_at(7, Some(2)), Some(2 * SECOND + 7));
    assert_eq!(expiry_at(7, Some(u64::MAX)), Some(u64::MAX));
    assert_eq!(expiry_at(u64::MAX, Some(1)), Some(u64::MAX));
    let e = Entry::new(b"v".to_vec(), Some(3), SECOND);
    assert_eq!(e.expires_at, Some(4 * SECOND));
    assert!(!e.is_expired(4 * SECOND));
    assert!(e.is_expired(4 * SECOND + 1));
    assert!(!Entry::new(vec![], None, 0).is_expired(u64::MAX));
    assert_eq!(elapsed_secs(SECOND, 3 * SECOND + 5), 2);
    assert_eq!(elapsed_secs(5, 3), 0);
    let clock = Clock::new();
    let a = clock.now();
    let b = clock.now();
    assert!(a <= b);
}

#[test]
fn sweepers_remove_what_has_expired() {
    let mut store = Store::new();
    store.set_at(b"a".to_vec(), vec![], Some(1), 0);
    store.set_at(b"b".to_vec(), vec![], None, 0);
    let cleaner = TtlCleaner::new(10);
    assert_eq!(cleaner.interval_secs(), 10);
    assert_eq!(cleaner.tick_at(&mut store, SECOND), 0);
    assert_eq!(cleaner.tick_at(&mut store, SECOND + 1), 1);
    assert_eq!(cleaner.tick(&mut store), 0);
    assert_eq!(store.len(), 1);
    let mut sharded = ConcurrentStore::new();
    sharded.set_at(b"a".to_vec(), vec![], Some(1), 0);
    let cleaner = ConcurrentTtlCleaner::new(3);
    assert_eq!(cleaner.interval_secs(), 3);
    assert_eq!(cleaner.tick_at(&mut sharded, 2 * SECOND), 1);
    assert_eq!(cleaner.tick(&mut sharded), 0);
}

#[test]
fn test_lru_ordering() {
    let config = EvictionConfig::default().with_max_keys(3).with_policy(EvictionPolicy::Lru);
    let mut manager = LruManager::new(config);

    manager.touch(&b"a".to_vec(), 10);
    manager.touch(&b"b".to_vec(), 10);
    manager.touch(&b"c".to_vec(), 10);

    manager.touch(&b"a".to_vec(), 10);

    let candidates = manager.get_eviction_candidates(1);
    assert_eq!(candidates[0], b"b".to_vec());
}

#[test]
fn test_needs_eviction() {
    let config = EvictionConfig::default().with_max_keys(2).with_policy(EvictionPolicy::Lru);
    let mut manager = LruManager::new(config);

    manager.touch(&b"a".to_vec(), 10);
    assert!(!manager.needs_eviction());

    manager.touch(&b"b".to_vec(), 10);
    assert!(manager.needs_eviction());
}

#[test]
fn eviction_policies() {
    let mut lfu = LruManager::new(EvictionConfig::default().with_policy(EvictionPolicy::Lfu));
    for key in [b"a", b"b", b"c", b"d"] {
        lfu.touch_at(&key.to_vec(), 5, 1);
    }
    lfu.touch_at(&b"a".to_vec(), 5, 2);
    lfu.touch_at(&b"a".to_vec(), 5, 3);
    lfu.touch_at(&b"c".to_vec(), 5, 4);
    // uses: b 1, d 1, a 3, c 2; recency: b, d, a, c
    assert_eq!(
        lfu.get_eviction_candidates(10),
        vec![b"b".to_vec(), b"d".to_vec(), b"c".to_vec(), b"a".to_vec()]
    );
    assert_eq!(lfu.get_eviction_candidates(2), vec![b"b".to_vec(), b"d".to_vec()]);
    assert_eq!(lfu.memory_used(), 20);
    assert_eq!(lfu.key_count(), 4);
    lfu.remove(&b"d".to_vec());
    lfu.remove(&b"zz".to_vec());
    assert_eq!(lfu.memory_used(), 15);
    assert_eq!(lfu.key_count(), 3);
    assert!(!lfu.needs_eviction());

    let mut off = LruManager::new(EvictionConfig::default());
    off.touch(&b"a".to_vec(), 1);
    assert!(off.get_eviction_candidates(5).is_empty());

    let mut any = LruManager::new(EvictionConfig::default().with_policy(EvictionPolicy::Random).with_max_memory(10));
    any.touch(&b"a".to_vec(), 4);
    any.touch(&b"b".to_vec(), 5);
    assert!(!any.needs_eviction());
    any.touch(&b"c".to_vec(), 1);
    assert!(any.needs_eviction());
    assert_eq!(any.get_eviction_candidates(2).len(), 2);
    assert_eq!(any.get_eviction_candidates(0).len(), 0);

    let mut meta = EvictionMeta::new(8, 1);
    meta.touch(9);
    assert_eq!(meta, EvictionMeta { last_access: 9, access_count: 2, size: 8 });
    meta.access_count = u64::MAX;
    meta.touch(10);
    assert_eq!(meta.access_count, u64::MAX);
    assert_eq!(EvictionPolicy::default(), EvictionPolicy::NoEviction);
}

#[test]
fn a_copy_of_an_entry_holds_what_the_entry_holds() {
    let entry = Entry::new(b"v".to_vec(), Some(2), 5);
    let copy = entry.duplicate();
    assert_eq!(copy.value, b"v".to_vec());
    assert_eq!(copy.expires_at, Some(5 + 2 * 1_000_000_000));
    assert_eq!(entry.value, copy.value);
    assert!(!copy.is_expired(5 + 2 * 1_000_000_000));
    assert!(copy.is_expired(6 + 2 * 1_000_000_000));
    assert_eq!(Entry::new(Vec::new(), None, 0).duplicate().expires_at, None);
    // a time to live beyond the end of time never ends
    assert_eq!(Entry::new(Vec::new(), Some(u64::MAX), 1).expires_at, Some(u64::MAX));
}

#[test]
fn the_estimate_of_shards_is_four_per_core() {
    assert_eq!(shard_estimate_for(0), 0);
    assert_eq!(shard_estimate_for(1), 4);
    assert_eq!(shard_estimate_for(6), 24);
    assert_eq!(shard_estimate_for(usize::MAX / 4), usize::MAX - 3);
    assert_eq!(shard_estimate_for(usize::MAX / 4 + 1), usize::MAX);
    assert_eq!(shard_estimate_for(usize::MAX), usize::MAX);
    let store = ConcurrentStore::with_shard_amount(8);
    let n = store.shards();
    assert!(n == usize::MAX || n % 4 == 0);
    assert!(store.is_empty());
}
