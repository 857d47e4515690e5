//! Eviction: which keys leave when the store is over its limits.
//!
//! The manager keeps the keys in the order of their last use, the least
//! recently used first, and in a concurrent hash table the number of uses
//! and the size of each.

use vstd::prelude::*;
use vstd::pervasive::unreached;
use super::entry::Clock;
use crate::wire::bytes_eq;

verus! {

/// Eviction policy.
#[derive(Debug, Clone, Copy, PartialEq, Eq, Structural)]
pub enum EvictionPolicy {
    /// Nothing is evicted.
    NoEviction,
    /// The least recently used keys leave first.
    Lru,
    /// The least frequently used keys leave first.
    Lfu,
    /// Any keys leave.
    Random,
}

impl Default for EvictionPolicy {
    fn default() -> (p: EvictionPolicy)
        ensures
            p == EvictionPolicy::NoEviction,
    {
        EvictionPolicy::NoEviction
    }
}

/// Eviction configuration.
#[derive(Debug, Clone, Copy, PartialEq, Eq, Structural)]
pub struct EvictionConfig {
    /// Greatest memory in bytes (0 = no limit).
    pub max_memory: usize,
    /// Greatest number of keys (0 = no limit).
    pub max_keys: usize,
    /// Eviction policy.
    pub policy: EvictionPolicy,
    /// Number of samples for random eviction.
    pub sample_size: usize,
}

impl Default for EvictionConfig {
    /// No limits, no eviction, five samples.
    fn default() -> (c: EvictionConfig)
        ensures
            c == (EvictionConfig {
                max_memory: 0,
                max_keys: 0,
                policy: EvictionPolicy::NoEviction,
                sample_size: 5,
            }),
    {
        EvictionConfig {
            max_memory: 0,
            max_keys: 0,
            policy: EvictionPolicy::NoEviction,
            sample_size: 5,
        }
    }
}

impl EvictionConfig {
    /// The same configuration with this limit of memory in bytes.
    pub fn with_max_memory(self, bytes: usize) -> (c: EvictionConfig)
        ensures
            c == (EvictionConfig { max_memory: bytes, ..self }),
    {
        EvictionConfig { max_memory: bytes, ..self }
    }

    /// The same configuration with this limit of keys.
    pub fn with_max_keys(self, keys: usize) -> (c: EvictionConfig)
        ensures
            c == (EvictionConfig { max_keys: keys, ..self }),
    {
        EvictionConfig { max_keys: keys, ..self }
    }

    /// The same configuration with this policy.
    pub fn with_policy(self, policy: EvictionPolicy) -> (c: EvictionConfig)
        ensures
            c == (EvictionConfig { policy, ..self }),
    {
        EvictionConfig { policy, ..self }
    }
}

/// What is known of the use of a key.
#[derive(Debug, Clone, Copy, PartialEq, Eq, Structural)]
pub struct EvictionMeta {
    /// When the key was last used, on the manager's clock.
    pub last_access: u64,
    /// How often the key was used.
    pub access_count: u64,
    /// Approximate size in bytes.
    pub size: usize,
}

impl EvictionMeta {
    /// A key of this size, used once, at `now`.
    pub fn new(size: usize, now: u64) -> (m: EvictionMeta)
        ensures
            m == (EvictionMeta { last_access: now, access_count: 1, size }),
    {
        EvictionMeta { last_access: now, access_count: 1, size }
    }

    /// One more use, at `now`. The count stops at the greatest number it
    /// holds.
    pub fn touch(&mut self, now: u64)
        ensures
            *final(self) == used_again(*old(self), now),
    {
        self.last_access = now;
        if self.access_count < u64::MAX {
            self.access_count += 1;
        }
    }
}

/// The keys and their use, least recently used first.
pub type UsageModel = Seq<(Seq<u8>, EvictionMeta)>;

/// Whether the manager knows a key.
pub open spec fn is_known(usage: UsageModel, key: Seq<u8>) -> bool {
    exists|i: int| 0 <= i < usage.len() && (#[trigger] usage[i]).0 == key
}

/// The place of a key that the manager knows.
pub open spec fn usage_index(usage: UsageModel, key: Seq<u8>) -> int {
    choose|i: int| 0 <= i < usage.len() && (#[trigger] usage[i]).0 == key
}

/// No key occurs twice.
pub open spec fn distinct_usage(usage: UsageModel) -> bool {
    forall|i: int, j: int|
        0 <= i < j < usage.len() ==> (#[trigger] usage[i]).0 != (#[trigger] usage[j]).0
}

/// A size and a change of it, together, modulo the range of `usize`.
pub open spec fn wrapped_size(a: usize, b: int) -> usize {
    if a + b > usize::MAX {
        (a + b - usize::MAX - 1) as usize
    } else if a + b < 0 {
        (a + b + usize::MAX + 1) as usize
    } else {
        (a + b) as usize
    }
}

/// A list of positions with one more, put behind every position whose
/// key was used at most as often: where the list is in ascending order of
/// use, so is the result, and the new position comes last among equals.
pub open spec fn insert_by_use(usage: UsageModel, sorted: Seq<int>, p: int) -> Seq<int>
    decreases sorted.len(),
{
    if sorted.len() == 0 {
        seq![p]
    } else if usage[sorted[0]].1.access_count > usage[p].1.access_count {
        seq![p] + sorted
    } else {
        seq![sorted[0]] + insert_by_use(usage, sorted.skip(1), p)
    }
}

/// The first `n` positions in ascending order of use, earlier positions
/// first among equals.
pub open spec fn by_use(usage: UsageModel, n: int) -> Seq<int>
    decreases n,
{
    if n <= 0 {
        Seq::empty()
    } else {
        insert_by_use(usage, by_use(usage, n - 1), n - 1)
    }
}

/// The positions of the keys to evict under a policy, no more than
/// `count` of them: none without eviction; the least recently used under
/// LRU and under random eviction; the least frequently used, the least
/// recently used first among equals, under LFU.
pub open spec fn candidates(usage: UsageModel, policy: EvictionPolicy, count: int) -> Seq<int> {
    let k = if count <= usage.len() {
        count
    } else {
        usage.len() as int
    };
    match policy {
        EvictionPolicy::NoEviction => Seq::empty(),
        EvictionPolicy::Lru => Seq::new(k as nat, |i: int| i),
        EvictionPolicy::Random => Seq::new(k as nat, |i: int| i),
        EvictionPolicy::Lfu => by_use(usage, usage.len() as int).take(k),
    }
}

/// An insertion makes the list one longer.
pub proof fn lemma_insert_by_use_len(usage: UsageModel, sorted: Seq<int>, p: int)
    ensures
        insert_by_use(usage, sorted, p).len() == sorted.len() + 1,
    decreases sorted.len(),
{
    if sorted.len() > 0 && usage[sorted[0]].1.access_count <= usage[p].1.access_count {
        lemma_insert_by_use_len(usage, sorted.skip(1), p);
    }
}

/// Every element of the result of an insertion is the new position or was
/// there.
pub proof fn lemma_insert_by_use_members(usage: UsageModel, sorted: Seq<int>, p: int, i: int)
    requires
        0 <= i < insert_by_use(usage, sorted, p).len(),
    ensures
        insert_by_use(usage, sorted, p)[i] == p || exists|j: int|
            0 <= j < sorted.len() && sorted[j] == insert_by_use(usage, sorted, p)[i],
    decreases sorted.len(),
{
    lemma_insert_by_use_len(usage, sorted, p);
    let r = insert_by_use(usage, sorted, p);
    if sorted.len() == 0 {
    } else if usage[sorted[0]].1.access_count > usage[p].1.access_count {
        if i > 0 {
            assert(sorted[i - 1] == r[i]);
        }
    } else {
        if i == 0 {
            assert(sorted[0] == r[0]);
        } else {
            let tail = sorted.skip(1);
            lemma_insert_by_use_len(usage, tail, p);
            lemma_insert_by_use_members(usage, tail, p, i - 1);
            assert(r[i] == insert_by_use(usage, tail, p)[i - 1]);
            if insert_by_use(usage, tail, p)[i - 1] != p {
                let j = choose|j: int|
                    0 <= j < tail.len() && tail[j] == insert_by_use(usage, tail, p)[i - 1];
                assert(sorted[j + 1] == r[i]);
            }
        }
    }
}

/// The list by use holds `n` positions, each below `n`.
pub proof fn lemma_by_use(usage: UsageModel, n: int)
    requires
        0 <= n <= usage.len(),
    ensures
        by_use(usage, n).len() == n,
        forall|i: int| 0 <= i < n ==> 0 <= #[trigger] by_use(usage, n)[i] < n,
    decreases n,
{
    if n > 0 {
        lemma_by_use(usage, n - 1);
        let before = by_use(usage, n - 1);
        lemma_insert_by_use_len(usage, before, n - 1);
        let after = by_use(usage, n);
        assert forall|i: int| 0 <= i < n implies 0 <= #[trigger] after[i] < n by {
            lemma_insert_by_use_members(usage, before, n - 1, i);
            if after[i] != n - 1 {
                let j = choose|j: int| 0 <= j < before.len() && before[j] == after[i];
                assert(0 <= before[j] < n - 1);
            }
        }
    }
}

/// What a table of uses holds: for each key, what is known of its use.
pub uninterp spec fn usage_entries(m: dashmap::DashMap<Vec<u8>, EvictionMeta>) -> Map<
    Seq<u8>,
    EvictionMeta,
>;

/// The table that holds nothing.
pub open spec fn no_usage() -> Map<Seq<u8>, EvictionMeta> {
    Map::empty()
}

/// `DashMap::new` of dashmap: an empty table.
#[verifier::external_body]
fn usage_new() -> (m: dashmap::DashMap<Vec<u8>, EvictionMeta>)
    ensures
        usage_entries(m) == no_usage(),
{
    dashmap::DashMap::new()
}

/// `DashMap::get` of dashmap, with the value copied: what the key holds,
/// if the table has it.
#[verifier::external_body]
fn usage_get(m: &dashmap::DashMap<Vec<u8>, EvictionMeta>, key: &Vec<u8>) -> (r: Option<
    EvictionMeta,
>)
    ensures
        r is Some <==> usage_entries(*m).contains_key(key@),
        r matches Some(meta) ==> meta == usage_entries(*m)[key@],
{
    m.get(key).map(|e| *e.value())
}

/// `DashMap::insert` of dashmap: afterwards the key holds the new value
/// and every other key holds what it held.
#[verifier::external_body]
fn usage_insert(m: &mut dashmap::DashMap<Vec<u8>, EvictionMeta>, key: Vec<u8>, meta: EvictionMeta)
    ensures
        usage_entries(*final(m)) == usage_entries(*old(m)).insert(key@, meta),
{
    m.insert(key, meta);
}

/// `DashMap::remove` of dashmap: returns what the key held, if anything;
/// afterwards the key holds nothing.
#[verifier::external_body]
fn usage_remove(m: &mut dashmap::DashMap<Vec<u8>, EvictionMeta>, key: &Vec<u8>) -> (r: Option<
    EvictionMeta,
>)
    ensures
        usage_entries(*final(m)) == usage_entries(*old(m)).remove(key@),
        r is Some <==> usage_entries(*old(m)).contains_key(key@),
        r matches Some(meta) ==> meta == usage_entries(*old(m))[key@],
{
    m.remove(key).map(|kv| kv.1)
}

/// What an eviction manager holds.
pub struct LruModel {
    pub usage: UsageModel,
    pub memory_used: usize,
    pub config: EvictionConfig,
}

/// What is known of a key after one more use at `now`. The count stops at
/// the greatest number it holds.
pub open spec fn used_again(meta: EvictionMeta, now: u64) -> EvictionMeta {
    EvictionMeta {
        last_access: now,
        access_count: if meta.access_count < u64::MAX {
            (meta.access_count + 1) as u64
        } else {
            u64::MAX
        },
        ..meta
    }
}

impl LruModel {
    /// The manager after a use of `key` at `now`: a key that was known
    /// moves behind all others, used once more; a new key comes behind all
    /// others, with its size, which is added to the memory in use.
    pub open spec fn touched(self, key: Seq<u8>, size: usize, now: u64) -> LruModel {
        if is_known(self.usage, key) {
            let i = usage_index(self.usage, key);
            LruModel {
                usage: self.usage.remove(i).push((key, used_again(self.usage[i].1, now))),
                ..self
            }
        } else {
            LruModel {
                usage: self.usage.push(
                    (key, EvictionMeta { last_access: now, access_count: 1, size }),
                ),
                memory_used: wrapped_size(self.memory_used, size as int),
                ..self
            }
        }
    }

    /// The manager after `key` was forgotten: its size is taken off the
    /// memory in use.
    pub open spec fn without(self, key: Seq<u8>) -> LruModel {
        if is_known(self.usage, key) {
            let i = usage_index(self.usage, key);
            LruModel {
                usage: self.usage.remove(i),
                memory_used: wrapped_size(self.memory_used, -(self.usage[i].1.size as int)),
                ..self
            }
        } else {
            self
        }
    }
}

/// Eviction manager.
pub struct LruManager {
    order: Vec<Vec<u8>>,
    meta: dashmap::DashMap<Vec<u8>, EvictionMeta>,
    memory_used: usize,
    config: EvictionConfig,
    clock: Clock,
}

impl View for LruManager {
    type V = LruModel;

    closed spec fn view(&self) -> LruModel {
        LruModel {
            usage: Seq::new(
                self.order@.len(),
                |i: int| (self.order@[i]@, usage_entries(self.meta)[self.order@[i]@]),
            ),
            memory_used: self.memory_used,
            config: self.config,
        }
    }
}

/// An element of a list is known.
proof fn lemma_known(usage: UsageModel, i: int)
    requires
        0 <= i < usage.len(),
    ensures
        is_known(usage, usage[i].0),
{
}

/// A list without one of its elements keeps its other keys apart, and
/// knows the keys of the others.
proof fn lemma_without(usage: UsageModel, i: int)
    requires
        distinct_usage(usage),
        0 <= i < usage.len(),
    ensures
        distinct_usage(usage.remove(i)),
        !is_known(usage.remove(i), usage[i].0),
        forall|k: Seq<u8>|
            is_known(usage.remove(i), k) <==> (is_known(usage, k) && k != usage[i].0),
{
    let after = usage.remove(i);
    assert forall|a: int, b: int| 0 <= a < b < after.len() implies (#[trigger] after[a]).0 != (
    #[trigger] after[b]).0 by {
        let a0 = if a < i { a } else { a + 1 };
        let b0 = if b < i { b } else { b + 1 };
        assert(after[a] == usage[a0] && after[b] == usage[b0]);
        assert(usage[a0].0 != usage[b0].0);
    }
    assert forall|j: int| 0 <= j < after.len() implies (#[trigger] after[j]).0 != usage[i].0 by {
        let j0 = if j < i { j } else { j + 1 };
        assert(after[j] == usage[j0]);
        if j0 < i {
            assert(usage[j0].0 != usage[i].0);
        } else {
            assert(usage[i].0 != usage[j0].0);
        }
    }
    assert forall|k: Seq<u8>| is_known(after, k) <==> (is_known(usage, k) && k != usage[i].0) by {
        if is_known(after, k) {
            let j = usage_index(after, k);
            let j0 = if j < i { j } else { j + 1 };
            assert(after[j] == usage[j0]);
            assert(usage[j0].0 == k);
        }
        if is_known(usage, k) && k != usage[i].0 {
            let j = usage_index(usage, k);
            let j1 = if j < i { j } else { j - 1 };
            assert(after[j1] == usage[j]);
            assert(after[j1].0 == k);
        }
    }
}

/// A list with one more key behind it keeps its keys apart where the key
/// is new, and knows that key and those it knew.
proof fn lemma_with(usage: UsageModel, key: Seq<u8>, meta: EvictionMeta)
    requires
        distinct_usage(usage),
        !is_known(usage, key),
    ensures
        distinct_usage(usage.push((key, meta))),
        forall|k: Seq<u8>|
            is_known(usage.push((key, meta)), k) <==> (is_known(usage, k) || k == key),
{
    let after = usage.push((key, meta));
    assert forall|a: int, b: int| 0 <= a < b < after.len() implies (#[trigger] after[a]).0 != (
    #[trigger] after[b]).0 by {
        if b < usage.len() {
            assert(usage[a].0 != usage[b].0);
        } else {
            if usage[a].0 == key {
                lemma_known(usage, a);
            }
        }
    }
    assert forall|k: Seq<u8>| is_known(after, k) <==> (is_known(usage, k) || k == key) by {
        if is_known(after, k) && k != key {
            let j = usage_index(after, k);
            assert(usage[j].0 == k);
        }
        if is_known(usage, k) {
            let j = usage_index(usage, k);
            assert(after[j].0 == k);
        }
        if k == key {
            assert(after[usage.len() as int].0 == k);
        }
    }
}

/// Putting a position at the first place whose key was used more often is
/// the insertion by use.
proof fn lemma_insert_by_use_position(usage: UsageModel, s: Seq<int>, p: int, at: int)
    requires
        0 <= at <= s.len(),
        forall|j: int| 0 <= j < at ==> usage[s[j]].1.access_count <= usage[p].1.access_count,
        at < s.len() ==> usage[s[at]].1.access_count > usage[p].1.access_count,
    ensures
        insert_by_use(usage, s, p) == s.insert(at, p),
    decreases s.len(),
{
    if s.len() == 0 {
        assert(s.insert(0, p) =~= seq![p]);
    } else if at == 0 {
        assert(s.insert(0, p) =~= seq![p] + s);
    } else {
        let tail = s.skip(1);
        assert forall|j: int| 0 <= j < at - 1 implies usage[tail[j]].1.access_count
            <= usage[p].1.access_count by {
            assert(tail[j] == s[j + 1]);
        }
        lemma_insert_by_use_position(usage, tail, p, at - 1);
        assert(s.insert(at, p) =~= seq![s[0]] + tail.insert(at - 1, p));
    }
}

impl LruManager {
    /// The table knows exactly the keys of the order.
    pub closed spec fn linked(&self) -> bool {
        forall|k: Seq<u8>| #[trigger]
            usage_entries(self.meta).contains_key(k) <==> is_known(self@.usage, k)
    }

    /// No key is known twice, and the table and the order hold the same
    /// keys.
    pub open spec fn wf(&self) -> bool {
        distinct_usage(self@.usage) && self.linked()
    }

    /// A manager that knows no key.
    pub fn new(config: EvictionConfig) -> (m: LruManager)
        ensures
            m.wf(),
            m@.usage.len() == 0,
            m@.memory_used == 0,
            m@.config == config,
    {
        LruManager {
            order: Vec::new(),
            meta: usage_new(),
            memory_used: 0,
            config,
            clock: Clock::new(),
        }
    }

    /// The present instant on this manager's clock.
    pub fn now(&self) -> u64 {
        self.clock.now()
    }

    /// The place of a key in the order.
    fn find(&self, key: &Vec<u8>) -> (r: Option<usize>)
        ensures
            match r {
                Some(i) => i < self@.usage.len() && self@.usage[i as int].0 == key@,
                None => !is_known(self@.usage, key@),
            },
    {
        let mut i: usize = 0;
        while i < self.order.len()
            invariant
                i <= self.order@.len(),
                forall|j: int| 0 <= j < i ==> (#[trigger] self@.usage[j]).0 != key@,
            decreases self.order@.len() - i,
        {
            if bytes_eq(&self.order[i], key) {
                return Some(i);
            }
            i += 1;
        }
        None
    }

    /// Takes a key that the order holds out of it.
    fn unlist(&mut self, key: &Vec<u8>)
        requires
            is_known(old(self)@.usage, key@),
            distinct_usage(old(self)@.usage),
        ensures
            final(self)@.usage == old(self)@.usage.remove(usage_index(old(self)@.usage, key@)),
            final(self)@.memory_used == old(self)@.memory_used,
            final(self)@.config == old(self)@.config,
            final(self).meta == old(self).meta,
    {
        let ghost before = self@.usage;
        match self.find(key) {
            Some(i) => {
                proof {
                    lemma_usage_index(before, i as int);
                }
                self.order.remove(i);
                assert(self@.usage =~= before.remove(i as int));
            },
            None => unreached(),
        }
    }

    /// Records a use of a key at `now`: the key is then the most recently
    /// used. A key that was known is used once more; a new key is
    /// noted with its size, which is added to the memory in use.
    pub fn touch_at(&mut self, key: &Vec<u8>, size: usize, now: u64)
        requires
            old(self).wf(),
        ensures
            final(self).wf(),
            final(self)@ == old(self)@.touched(key@, size, now),
            final(self)@.usage.len() == old(self)@.usage.len() + if is_known(
                old(self)@.usage,
                key@,
            ) {
                0int
            } else {
                1int
            },
            final(self)@.usage.last().0 == key@,
    {
        let ghost before = self@.usage;
        match usage_get(&self.meta, key) {
            Some(found) => {
                let ghost i = usage_index(before, key@);
                assert(before[i].0 == key@ && before[i].1 == found);
                let mut meta = found;
                meta.touch(now);
                self.unlist(key);
                usage_insert(&mut self.meta, key.clone(), meta);
                self.order.push(key.clone());
                proof {
                    let rest = before.remove(i);
                    lemma_without(before, i);
                    lemma_with(rest, key@, meta);
                    assert(self@.usage =~= rest.push((key@, meta))) by {
                        assert forall|j: int| 0 <= j < rest.len() implies self@.usage[j]
                            == rest[j] by {
                            lemma_known(rest, j);
                        }
                    }
                    assert forall|k: Seq<u8>| is_known(self@.usage, k) <==> is_known(
                        before,
                        k,
                    ) by {
                        if k == key@ {
                            lemma_known(before, i);
                        }
                    }
                }
            },
            None => {
                let meta = EvictionMeta::new(size, now);
                usage_insert(&mut self.meta, key.clone(), meta);
                self.order.push(key.clone());
                self.memory_used = if size <= usize::MAX - self.memory_used {
                    self.memory_used + size
                } else {
                    size - (usize::MAX - self.memory_used) - 1
                };
                proof {
                    lemma_with(before, key@, meta);
                    assert(self@.usage =~= before.push((key@, meta))) by {
                        assert forall|j: int| 0 <= j < before.len() implies self@.usage[j]
                            == before[j] by {
                            lemma_known(before, j);
                        }
                    }
                    assert(self.memory_used == wrapped_size(old(self)@.memory_used, size as int));
                }
            },
        }
    }

    /// Records a use of a key now.
    pub fn touch(&mut self, key: &Vec<u8>, size: usize)
        requires
            old(self).wf(),
        ensures
            final(self).wf(),
            exists|now: u64| final(self)@ == #[trigger] old(self)@.touched(key@, size, now),
            final(self)@.usage.len() == old(self)@.usage.len() + if is_known(
                old(self)@.usage,
                key@,
            ) {
                0int
            } else {
                1int
            },
            final(self)@.usage.last().0 == key@,
    {
        let now = self.clock.now();
        self.touch_at(key, size, now);
    }

    /// Forgets a key: its size is taken off the memory in use.
    pub fn remove(&mut self, key: &Vec<u8>)
        requires
            old(self).wf(),
        ensures
            final(self).wf(),
            final(self)@ == old(self)@.without(key@),
    {
        let ghost before = self@.usage;
        match usage_get(&self.meta, key) {
            Some(meta) => {
                let ghost i = usage_index(before, key@);
                assert(before[i].0 == key@ && before[i].1 == meta);
                self.unlist(key);
                usage_remove(&mut self.meta, key);
                self.memory_used = if self.memory_used >= meta.size {
                    self.memory_used - meta.size
                } else {
                    usize::MAX - (meta.size - self.memory_used) + 1
                };
                proof {
                    let rest = before.remove(i);
                    lemma_without(before, i);
                    assert(self@.usage =~= rest) by {
                        assert forall|j: int| 0 <= j < rest.len() implies self@.usage[j]
                            == rest[j] by {
                            lemma_known(rest, j);
                        }
                    }
                    assert(self.memory_used == wrapped_size(
                        old(self)@.memory_used,
                        -(meta.size as int),
                    ));
                }
            },
            None => {},
        }
    }

    /// Whether keys must leave: there is a limit of keys and it is
    /// reached, or there is a limit of memory and it is reached.
    pub fn needs_eviction(&self) -> (r: bool)
        ensures
            r == ((self@.config.max_keys > 0 && self@.usage.len() >= self@.config.max_keys) || (
            self@.config.max_memory > 0 && self@.memory_used >= self@.config.max_memory)),
    {
        let key_count = self.order.len();
        (self.config.max_keys > 0 && key_count >= self.config.max_keys) || (self.config.max_memory
            > 0 && self.memory_used >= self.config.max_memory)
    }

    fn first_keys(&self, count: usize) -> (r: Vec<Vec<u8>>)
        ensures
            r@.len() == if count <= self@.usage.len() {
                count as int
            } else {
                self@.usage.len() as int
            },
            forall|i: int| 0 <= i < r@.len() ==> (#[trigger] r@[i])@ == self@.usage[i].0,
    {
        let n = if count <= self.order.len() {
            count
        } else {
            self.order.len()
        };
        let mut out: Vec<Vec<u8>> = Vec::new();
        let mut i: usize = 0;
        while i < n
            invariant
                i <= n <= self.order@.len(),
                out@.len() == i,
                forall|j: int| 0 <= j < i ==> (#[trigger] out@[j])@ == self@.usage[j].0,
            decreases n - i,
        {
            out.push(self.order[i].clone());
            i += 1;
        }
        out
    }

    /// How often each key was used, in the order of the manager.
    fn use_counts(&self) -> (counts: Vec<u64>)
        requires
            self.wf(),
        ensures
            counts@.len() == self@.usage.len(),
            forall|i: int|
                0 <= i < counts@.len() ==> #[trigger] counts@[i] == self@.usage[i].1.access_count,
    {
        let mut counts: Vec<u64> = Vec::new();
        let mut i: usize = 0;
        while i < self.order.len()
            invariant
                self.wf(),
                i <= self.order@.len(),
                counts@.len() == i,
                forall|j: int|
                    0 <= j < i ==> #[trigger] counts@[j] == self@.usage[j].1.access_count,
            decreases self.order@.len() - i,
        {
            proof {
                lemma_known(self@.usage, i as int);
            }
            let uses = match usage_get(&self.meta, &self.order[i]) {
                Some(meta) => meta.access_count,
                None => unreached(),
            };
            counts.push(uses);
            i += 1;
        }
        counts
    }

    /// The keys to evict, no more than `count` of them, in the order in
    /// which they should leave.
    pub fn get_eviction_candidates(&self, count: usize) -> (r: Vec<Vec<u8>>)
        requires
            self.wf(),
        ensures
            r@.len() == candidates(self@.usage, self@.config.policy, count as int).len(),
            forall|i: int|
                0 <= i < r@.len() ==> (#[trigger] r@[i])@ == self@.usage[candidates(
                    self@.usage,
                    self@.config.policy,
                    count as int,
                )[i]].0,
    {
        match self.config.policy {
            EvictionPolicy::NoEviction => Vec::new(),
            EvictionPolicy::Lru => self.first_keys(count),
            EvictionPolicy::Random => self.first_keys(count),
            EvictionPolicy::Lfu => {
                let ghost usage = self@.usage;
                let counts = self.use_counts();
                let mut sorted: Vec<usize> = Vec::new();
                let mut p: usize = 0;
                assert(Seq::new(sorted@.len(), |i: int| sorted@[i] as int) =~= by_use(usage, 0));
                while p < counts.len()
                    invariant
                        p <= counts@.len(),
                        counts@.len() == usage.len(),
                        forall|i: int|
                            0 <= i < counts@.len() ==> #[trigger] counts@[i]
                                == usage[i].1.access_count,
                        sorted@.len() == p,
                        forall|i: int| 0 <= i < sorted@.len() ==> (#[trigger] sorted@[i]) < p,
                        Seq::new(sorted@.len(), |i: int| sorted@[i] as int) == by_use(
                            usage,
                            p as int,
                        ),
                    decreases counts@.len() - p,
                {
                    let ghost before = Seq::new(sorted@.len(), |i: int| sorted@[i] as int);
                    let uses = counts[p];
                    let mut at: usize = 0;
                    while at < sorted.len() && counts[sorted[at]] <= uses
                        invariant
                            at <= sorted@.len(),
                            p < counts@.len(),
                            counts@.len() == usage.len(),
                            forall|i: int|
                                0 <= i < counts@.len() ==> #[trigger] counts@[i]
                                    == usage[i].1.access_count,
                            uses == usage[p as int].1.access_count,
                            forall|i: int| 0 <= i < sorted@.len() ==> (#[trigger] sorted@[i]) < p,
                            forall|j: int|
                                0 <= j < at ==> usage[(#[trigger] sorted@[j]) as int].1.access_count
                                    <= uses,
                        decreases sorted@.len() - at,
                    {
                        at += 1;
                    }
                    proof {
                        assert forall|j: int| 0 <= j < at implies usage[before[j]].1.access_count
                            <= usage[p as int].1.access_count by {
                            assert(before[j] == sorted@[j] as int);
                        }
                        if at < sorted@.len() {
                            assert(before[at as int] == sorted@[at as int] as int);
                        }
                        lemma_insert_by_use_position(usage, before, p as int, at as int);
                    }
                    sorted.insert(at, p);
                    assert(Seq::new(sorted@.len(), |i: int| sorted@[i] as int) =~= before.insert(
                        at as int,
                        p as int,
                    ));
                    p += 1;
                }
                let n = if count <= sorted.len() {
                    count
                } else {
                    sorted.len()
                };
                let ghost all = by_use(usage, usage.len() as int);
                let mut out: Vec<Vec<u8>> = Vec::new();
                let mut i: usize = 0;
                while i < n
                    invariant
                        i <= n <= sorted@.len(),
                        sorted@.len() == self.order@.len(),
                        usage == self@.usage,
                        all == Seq::new(sorted@.len(), |i: int| sorted@[i] as int),
                        forall|j: int|
                            0 <= j < sorted@.len() ==> (#[trigger] sorted@[j]) < self.order@.len(),
                        out@.len() == i,
                        forall|j: int| 0 <= j < i ==> (#[trigger] out@[j])@ == usage[all[j]].0,
                    decreases n - i,
                {
                    assert(all[i as int] == sorted@[i as int] as int);
                    out.push(self.order[sorted[i]].clone());
                    i += 1;
                }
                assert(all.take(n as int).len() == n);
                out
            },
        }
    }

    /// The memory in use.
    pub fn memory_used(&self) -> (n: usize)
        ensures
            n == self@.memory_used,
    {
        self.memory_used
    }

    /// The number of keys that the manager knows.
    pub fn key_count(&self) -> (n: usize)
        ensures
            n == self@.usage.len(),
    {
        self.order.len()
    }
}

/// Where no key is known twice, the place of a key is the only one that
/// holds it.
proof fn lemma_usage_index(usage: UsageModel, i: int)
    requires
        distinct_usage(usage),
        0 <= i < usage.len(),
    ensures
        is_known(usage, usage[i].0),
        usage_index(usage, usage[i].0) == i,
{
    let c = usage_index(usage, usage[i].0);
    if c < i {
        assert(usage[c].0 != usage[i].0);
    } else if c > i {
        assert(usage[i].0 != usage[c].0);
    }
}

} // verus!
