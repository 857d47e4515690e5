//! Key/value store with per-entry expiry, on a sharded hash table.
//!
//! The table is partitioned into a power-of-two number of shards, each
//! with its own lock, and a key lives in exactly one of them. The store
//! has the same meaning as the single-table one; what differs is how the
//! table behind it is laid out.

use vstd::prelude::*;
use super::entry::{
    bytes_of, expired, expiry, lemma_live_entries, live_entries, live_value, no_entries, Clock,
    Entry, EntryModel,
};

verus! {

#[verifier::external_type_specification]
#[verifier::external_body]
#[verifier::reject_recursive_types(K)]
#[verifier::reject_recursive_types(V)]
#[verifier::reject_recursive_types(S)]
pub struct ExDashMap<K, V, S>(dashmap::DashMap<K, V, S>);

/// What a sharded table holds: for each key, the value and its expiry.
pub uninterp spec fn shard_entries(m: dashmap::DashMap<Vec<u8>, Entry>) -> Map<
    Seq<u8>,
    EntryModel,
>;

/// The number of shards that a sharded table was made with. It is fixed
/// when the table is made and no operation changes it.
pub uninterp spec fn shard_count(m: dashmap::DashMap<Vec<u8>, Entry>) -> nat;

/// Whether `n` is a power of two.
pub open spec fn is_power_of_two(n: int) -> bool
    decreases n,
{
    n == 1 || (n > 1 && n % 2 == 0 && is_power_of_two(n / 2))
}

/// `DashMap::new` of dashmap: an empty table.
#[verifier::external_body]
fn shards_new() -> (m: dashmap::DashMap<Vec<u8>, Entry>)
    ensures
        shard_entries(m) == no_entries(),
{
    dashmap::DashMap::new()
}

/// `DashMap::with_shard_amount` of dashmap: an empty table of that many
/// shards. The crate panics unless the number is a power of two above one.
#[verifier::external_body]
fn shards_with_amount(shard_amount: usize) -> (m: dashmap::DashMap<Vec<u8>, Entry>)
    requires
        shard_amount > 1,
        is_power_of_two(shard_amount as int),
    ensures
        shard_entries(m) == no_entries(),
        shard_count(m) == shard_amount,
{
    dashmap::DashMap::with_shard_amount(shard_amount)
}

/// `DashMap::get` of dashmap, with the entry copied: the entry under the
/// key, if the table has one.
#[verifier::external_body]
fn shards_get(m: &dashmap::DashMap<Vec<u8>, Entry>, key: &Vec<u8>) -> (r: Option<Entry>)
    ensures
        r is Some <==> shard_entries(*m).contains_key(key@),
        r matches Some(e) ==> e@ == shard_entries(*m)[key@],
{
    m.get(key).map(|e| e.value().duplicate())
}

/// `DashMap::insert` of dashmap: afterwards the key holds the new entry
/// and every other key holds what it held. The shards stay as many.
#[verifier::external_body]
fn shards_insert(m: &mut dashmap::DashMap<Vec<u8>, Entry>, key: Vec<u8>, entry: Entry)
    ensures
        shard_entries(*final(m)) == shard_entries(*old(m)).insert(key@, entry@),
        shard_count(*final(m)) == shard_count(*old(m)),
{
    m.insert(key, entry);
}

/// `DashMap::remove` of dashmap: returns the entry that the key held, if
/// any; afterwards the key holds none. The shards stay as many.
#[verifier::external_body]
fn shards_remove(m: &mut dashmap::DashMap<Vec<u8>, Entry>, key: &Vec<u8>) -> (r: Option<Entry>)
    ensures
        shard_entries(*final(m)) == shard_entries(*old(m)).remove(key@),
        shard_count(*final(m)) == shard_count(*old(m)),
        r is Some <==> shard_entries(*old(m)).contains_key(key@),
        r matches Some(e) ==> e@ == shard_entries(*old(m))[key@],
{
    m.remove(key).map(|kv| kv.1)
}

/// `DashMap::len` of dashmap: the number of keys over all shards.
#[verifier::external_body]
fn shards_len(m: &dashmap::DashMap<Vec<u8>, Entry>) -> (n: usize)
    ensures
        n == shard_entries(*m).len(),
{
    m.len()
}

/// `DashMap::retain` of dashmap, keeping the entries that are live at
/// `now`: each entry stays as it is or leaves, as the test says. The
/// shards stay as many.
#[verifier::external_body]
fn shards_retain_live(m: &mut dashmap::DashMap<Vec<u8>, Entry>, now: u64)
    ensures
        shard_entries(*final(m)) == live_entries(shard_entries(*old(m)), now),
        shard_count(*final(m)) == shard_count(*old(m)),
{
    m.retain(|_, entry| entry.is_live(now));
}

/// `DashMap::iter` of dashmap, each key cloned: every key once, in an
/// order that is not specified.
#[verifier::external_body]
fn shards_keys(m: &dashmap::DashMap<Vec<u8>, Entry>) -> (keys: Vec<Vec<u8>>)
    ensures
        keys@.len() == shard_entries(*m).len(),
        forall|i: int| 0 <= i < keys@.len()
            ==> shard_entries(*m).contains_key(#[trigger] keys@[i]@),
        forall|k: Seq<u8>|
            shard_entries(*m).contains_key(k) ==> exists|i: int|
                0 <= i < keys@.len() && #[trigger] keys@[i]@ == k,
        forall|i: int, j: int|
            0 <= i < j < keys@.len() ==> #[trigger] keys@[i]@ != #[trigger] keys@[j]@,
{
    m.iter().map(|r| r.key().clone()).collect()
}

/// `num_cpus::get` of num_cpus: the number of logical cores of this
/// machine. Nothing is claimed of it.
#[verifier::external_body]
pub(crate) fn cpu_count() -> (n: usize) {
    num_cpus::get()
}

/// The number of shards for a store that `workers` threads work on: the
/// least power of two that is at least four times `workers` and at least
/// two, or the greatest power of two that a `usize` holds where none
/// is large enough.
pub open spec fn shard_amount_for(workers: usize) -> int
    decreases usize::MAX - 0,
{
    least_power_from(2, 4 * workers)
}

/// The least power of two times `p` that is at least `target`, or the
/// last one that a `usize` holds.
pub open spec fn least_power_from(p: int, target: int) -> int
    decreases usize::MAX - p,
{
    if p >= target || p <= 0 || 2 * p > usize::MAX {
        p
    } else {
        least_power_from(2 * p, target)
    }
}

/// Doubling a power of two until it reaches the target gives a power of
/// two that a `usize` holds, at least the target unless the next would not
/// fit.
proof fn lemma_least_power(p: int, target: int)
    requires
        p >= 2,
        is_power_of_two(p),
        p <= usize::MAX,
    ensures
        is_power_of_two(least_power_from(p, target)),
        2 <= least_power_from(p, target) <= usize::MAX,
        least_power_from(p, target) >= target || 2 * least_power_from(p, target) > usize::MAX,
    decreases usize::MAX - p,
{
    if p >= target || 2 * p > usize::MAX {
    } else {
        assert(is_power_of_two(2 * p)) by {
            assert((2 * p) / 2 == p);
        }
        lemma_least_power(2 * p, target);
    }
}

/// The estimate of the number of shards on a machine of `cores` cores:
/// four per core, or the greatest number that a `usize` holds where that
/// is beyond it.
pub open spec fn shard_estimate(cores: usize) -> usize {
    if 4 * cores <= usize::MAX {
        (4 * cores) as usize
    } else {
        usize::MAX
    }
}

/// Computes the estimate of the number of shards on a machine of `cores`
/// cores.
pub fn shard_estimate_for(cores: usize) -> (n: usize)
    ensures
        n == shard_estimate(cores),
{
    match cores.checked_mul(4) {
        Some(n) => n,
        None => usize::MAX,
    }
}

/// Computes the number of shards for `workers` threads.
pub fn shard_amount(workers: usize) -> (n: usize)
    ensures
        n == shard_amount_for(workers),
        is_power_of_two(n as int),
        n >= 2,
        n >= 4 * workers || 2 * n > usize::MAX,
{
    let mut p: usize = 2;
    proof {
        assert(is_power_of_two(2)) by {
            assert(is_power_of_two(1));
        }
        lemma_least_power(2, 4 * workers);
    }
    loop
        invariant
            p >= 2,
            least_power_from(p as int, 4 * workers) == shard_amount_for(workers),
        ensures
            p == shard_amount_for(workers),
        decreases usize::MAX - p,
    {
        let reached = match workers.checked_mul(4) {
            Some(target) => p >= target,
            None => false,
        };
        if reached || p > usize::MAX / 2 {
            break;
        }
        p = p * 2;
    }
    p
}

/// In-memory key/value store on a sharded table.
pub struct ConcurrentStore {
    inner: dashmap::DashMap<Vec<u8>, Entry>,
    clock: Clock,
}

impl View for ConcurrentStore {
    type V = Map<Seq<u8>, EntryModel>;

    closed spec fn view(&self) -> Map<Seq<u8>, EntryModel> {
        shard_entries(self.inner)
    }
}

impl ConcurrentStore {
    /// A store holds finitely many entries.
    pub open spec fn wf(&self) -> bool {
        self@.dom().finite()
    }

    /// The number of shards that the store was made with.
    pub closed spec fn shard_count(&self) -> nat {
        shard_count(self.inner)
    }

    /// An empty store with the default number of shards.
    pub fn new() -> (s: ConcurrentStore)
        ensures
            s.wf(),
            s@ == no_entries(),
    {
        ConcurrentStore { inner: shards_new(), clock: Clock::new() }
    }

    /// An empty store of `shard_amount` shards, which must be a power of
    /// two above one.
    pub fn with_shard_amount(shard_amount: usize) -> (s: ConcurrentStore)
        requires
            shard_amount > 1,
            is_power_of_two(shard_amount as int),
        ensures
            s.wf(),
            s@ == no_entries(),
            s.shard_count() == shard_amount,
    {
        ConcurrentStore { inner: shards_with_amount(shard_amount), clock: Clock::new() }
    }

    /// An empty store with the number of shards that suits `workers`
    /// threads: about four per thread, a power of two, at least two.
    pub fn for_workers(workers: usize) -> (s: ConcurrentStore)
        ensures
            s.wf(),
            s@ == no_entries(),
            s.shard_count() == shard_amount_for(workers),
    {
        ConcurrentStore::with_shard_amount(shard_amount(workers))
    }

    /// The present instant on this store's clock.
    pub fn now(&self) -> u64 {
        self.clock.now()
    }

    /// The value under `key` as a reader sees it at `now`: none where the
    /// key is absent or its entry is expired.
    pub fn get_at(&self, key: &Vec<u8>, now: u64) -> (r: Option<Vec<u8>>)
        ensures
            bytes_of(r) == live_value(self@, key@, now),
    {
        match shards_get(&self.inner, key) {
            Some(entry) => {
                if entry.is_expired(now) {
                    None
                } else {
                    Some(entry.value)
                }
            },
            None => None,
        }
    }

    /// The value under `key` as a reader sees it now.
    pub fn get(&self, key: &Vec<u8>) -> (r: Option<Vec<u8>>)
        ensures
            exists|now: u64| bytes_of(r) == #[trigger] live_value(self@, key@, now),
    {
        let now = self.clock.now();
        self.get_at(key, now)
    }

    /// Stores `value` under `key` at `now`, replacing what was there. The
    /// entry lives for `ttl_secs` seconds, or without expiry where that is
    /// `None`.
    pub fn set_at(&mut self, key: Vec<u8>, value: Vec<u8>, ttl_secs: Option<u64>, now: u64)
        requires
            old(self).wf(),
        ensures
            final(self).wf(),
            final(self)@ == old(self)@.insert(key@, (value@, expiry(now, ttl_secs))),
            final(self).shard_count() == old(self).shard_count(),
    {
        let entry = Entry::new(value, ttl_secs, now);
        shards_insert(&mut self.inner, key, entry);
    }

    /// Stores `value` under `key` now, replacing what was there.
    pub fn set(&mut self, key: Vec<u8>, value: Vec<u8>, ttl_secs: Option<u64>)
        requires
            old(self).wf(),
        ensures
            final(self).wf(),
            exists|now: u64|
                final(self)@ == old(self)@.insert(key@, (value@, #[trigger] expiry(now, ttl_secs))),
            final(self).shard_count() == old(self).shard_count(),
    {
        let now = self.clock.now();
        self.set_at(key, value, ttl_secs, now);
    }

    /// Removes `key`. Returns whether an entry was there, expired or not.
    pub fn del(&mut self, key: &Vec<u8>) -> (existed: bool)
        requires
            old(self).wf(),
        ensures
            final(self).wf(),
            existed == old(self)@.contains_key(key@),
            final(self)@ == old(self)@.remove(key@),
            final(self).shard_count() == old(self).shard_count(),
    {
        shards_remove(&mut self.inner, key).is_some()
    }

    /// Whether `key` holds an entry that is not expired at `now`.
    pub fn contains_key_at(&self, key: &Vec<u8>, now: u64) -> (r: bool)
        ensures
            r == live_value(self@, key@, now).is_some(),
    {
        match shards_get(&self.inner, key) {
            Some(entry) => !entry.is_expired(now),
            None => false,
        }
    }

    /// Whether `key` holds an entry that is not expired now.
    pub fn contains_key(&self, key: &Vec<u8>) -> (r: bool)
        ensures
            exists|now: u64| r == (#[trigger] live_value(self@, key@, now)).is_some(),
    {
        let now = self.clock.now();
        self.contains_key_at(key, now)
    }

    /// The number of entries, expired ones included.
    pub fn len(&self) -> (n: usize)
        requires
            self.wf(),
        ensures
            n == self@.len(),
    {
        shards_len(&self.inner)
    }

    /// Whether the store holds no entry.
    pub fn is_empty(&self) -> (r: bool)
        requires
            self.wf(),
        ensures
            r == (self@.len() == 0),
            r == (self@ == no_entries()),
    {
        let n = self.len();
        proof {
            if n == 0 {
                assert(self@.dom() =~= Set::<Seq<u8>>::empty());
                assert(self@ =~= no_entries());
            }
        }
        n == 0
    }

    /// Removes the entries that are expired at `now` and returns how many
    /// they were.
    pub fn cleanup_expired_at(&mut self, now: u64) -> (removed: usize)
        requires
            old(self).wf(),
        ensures
            final(self).wf(),
            final(self)@ == live_entries(old(self)@, now),
            removed == old(self)@.len() - final(self)@.len(),
            final(self).shard_count() == old(self).shard_count(),
    {
        let before = self.len();
        proof {
            lemma_live_entries(self@, now);
        }
        shards_retain_live(&mut self.inner, now);
        let after = self.len();
        before - after
    }

    /// Removes the entries that are expired now and returns how many they
    /// were. Entries without expiry stay.
    pub fn cleanup_expired(&mut self) -> (removed: usize)
        requires
            old(self).wf(),
        ensures
            final(self).wf(),
            removed == old(self)@.len() - final(self)@.len(),
            exists|now: u64| final(self)@ == #[trigger] live_entries(old(self)@, now),
            final(self).shard_count() == old(self).shard_count(),
    {
        let now = self.clock.now();
        self.cleanup_expired_at(now)
    }

    /// Every key, expired ones included, once each and in no particular
    /// order.
    pub fn keys(&self) -> (keys: Vec<Vec<u8>>)
        requires
            self.wf(),
        ensures
            keys@.len() == self@.len(),
            forall|i: int| 0 <= i < keys@.len() ==> self@.contains_key(#[trigger] keys@[i]@),
            forall|k: Seq<u8>|
                self@.contains_key(k) ==> exists|i: int|
                    0 <= i < keys@.len() && #[trigger] keys@[i]@ == k,
            forall|i: int, j: int|
                0 <= i < j < keys@.len() ==> #[trigger] keys@[i]@ != #[trigger] keys@[j]@,
    {
        shards_keys(&self.inner)
    }

    /// An estimate of the number of shards: four per core of this machine,
    /// whatever the number of its cores is.
    pub fn shards(&self) -> (n: usize)
        ensures
            exists|cores: usize| n == #[trigger] shard_estimate(cores),
    {
        shard_estimate_for(cpu_count())
    }
}

} // verus!
