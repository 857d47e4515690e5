//! Embedding index: vectors of one fixed dimension under keys, in the
//! order in which their keys were first stored, with an exact
//! nearest-neighbour search.
//!
//! The entries live in a concurrent hash table. Beside it the index keeps
//! its keys in the order in which they came, which is the order of a scan
//! and decides between equal similarities.
//!
//! The search ranks similarities that its caller has computed, one for
//! each stored vector in the order of the index: the index does the
//! threshold, the ordering and the cut.

use vstd::prelude::*;
use super::ranking::{
    descending, insert_ranked, lemma_insert_len, lemma_insert_top, lemma_ranked, nearest, ranked,
    top, Candidate,
};
use vstd::pervasive::unreached;
use crate::storage::entry::Clock;
use crate::text::{decimal, decimal_text};
use crate::wire::bytes_eq;

verus! {

/// A vector was offered whose length is not the dimension of the index.
#[derive(Debug, Clone, Copy, PartialEq, Eq, Structural)]
pub struct DimensionMismatch {
    pub expected: usize,
    pub got: usize,
}

impl DimensionMismatch {
    /// The message of this error as text.
    pub open spec fn text(self) -> Seq<char> {
        "Dimension mismatch: expected "@ + decimal_text(self.expected as nat) + ", got "@
            + decimal_text(self.got as nat)
    }

    /// The message of this error.
    pub fn message(&self) -> (s: String)
        ensures
            s@ == self.text(),
    {
        let mut s = String::from_str("Dimension mismatch: expected ");
        let expected = decimal(self.expected as u64);
        s.append(expected.as_str());
        s.append(", got ");
        let got = decimal(self.got as u64);
        s.append(got.as_str());
        s
    }
}

/// A vector with what is stored beside it.
#[derive(Debug, Clone)]
pub struct EmbeddingEntry {
    /// The components, each the bit pattern of an IEEE-754 single.
    pub embedding: Vec<u32>,
    /// The value cached for this vector.
    pub value: Option<Vec<u8>>,
    /// Free-form context.
    pub metadata: Option<String>,
    /// When the entry was made.
    pub created_at: u64,
    /// When the entry was last stored or read.
    pub last_accessed: u64,
}

/// An entry as a value.
pub struct EmbeddingModel {
    pub embedding: Seq<u32>,
    pub value: Option<Seq<u8>>,
    pub metadata: Option<Seq<char>>,
    pub created_at: u64,
    pub last_accessed: u64,
}

impl View for EmbeddingEntry {
    type V = EmbeddingModel;

    open spec fn view(&self) -> EmbeddingModel {
        EmbeddingModel {
            embedding: self.embedding@,
            value: match self.value {
                Some(v) => Some(v@),
                None => None,
            },
            metadata: match self.metadata {
                Some(m) => Some(m@),
                None => None,
            },
            created_at: self.created_at,
            last_accessed: self.last_accessed,
        }
    }
}

impl EmbeddingModel {
    /// This entry, read or stored at `now`.
    pub open spec fn touched(self, now: u64) -> EmbeddingModel {
        EmbeddingModel { last_accessed: now, ..self }
    }
}

impl EmbeddingEntry {
    /// An entry made at `now` that holds only its vector.
    pub fn new(embedding: Vec<u32>, now: u64) -> (e: EmbeddingEntry)
        ensures
            e@ == (EmbeddingModel {
                embedding: embedding@,
                value: None,
                metadata: None,
                created_at: now,
                last_accessed: now,
            }),
    {
        EmbeddingEntry { embedding, value: None, metadata: None, created_at: now,
            last_accessed: now }
    }

    /// The same entry with a value.
    pub fn with_value(self, value: Vec<u8>) -> (e: EmbeddingEntry)
        ensures
            e@ == (EmbeddingModel { value: Some(value@), ..self@ }),
    {
        let mut e = self;
        e.value = Some(value);
        e
    }

    /// The same entry with metadata.
    pub fn with_metadata(self, metadata: String) -> (e: EmbeddingEntry)
        ensures
            e@ == (EmbeddingModel { metadata: Some(metadata@), ..self@ }),
    {
        let mut e = self;
        e.metadata = Some(metadata);
        e
    }

    /// Marks the entry as accessed at `now`.
    pub fn touch(&mut self, now: u64)
        ensures
            final(self)@ == old(self)@.touched(now),
    {
        self.last_accessed = now;
    }

    /// The number of components.
    pub fn dim(&self) -> (n: usize)
        ensures
            n == self@.embedding.len(),
    {
        self.embedding.len()
    }

    /// A copy of this entry.
    pub fn duplicate(&self) -> (e: EmbeddingEntry)
        ensures
            e@ == self@,
    {
        let value = match &self.value {
            Some(v) => Some(v.clone()),
            None => None,
        };
        let metadata = match &self.metadata {
            Some(m) => Some(m.clone()),
            None => None,
        };
        EmbeddingEntry {
            embedding: self.embedding.clone(),
            value,
            metadata,
            created_at: self.created_at,
            last_accessed: self.last_accessed,
        }
    }
}

/// What an index table holds: for each key, its entry.
pub uninterp spec fn index_entries(m: dashmap::DashMap<Vec<u8>, EmbeddingEntry>) -> Map<
    Seq<u8>,
    EmbeddingModel,
>;

/// The table that holds nothing.
pub open spec fn no_embeddings() -> Map<Seq<u8>, EmbeddingModel> {
    Map::empty()
}

/// `DashMap::new` of dashmap: an empty table.
#[verifier::external_body]
fn index_new() -> (m: dashmap::DashMap<Vec<u8>, EmbeddingEntry>)
    ensures
        index_entries(m) == no_embeddings(),
{
    dashmap::DashMap::new()
}

/// `DashMap::get` of dashmap, with the entry copied: the entry under the
/// key, if the table has one.
#[verifier::external_body]
fn index_get(m: &dashmap::DashMap<Vec<u8>, EmbeddingEntry>, key: &Vec<u8>) -> (r: Option<
    EmbeddingEntry,
>)
    ensures
        r is Some <==> index_entries(*m).contains_key(key@),
        r matches Some(e) ==> e@ == index_entries(*m)[key@],
{
    m.get(key).map(|e| e.value().duplicate())
}

/// `DashMap::insert` of dashmap: afterwards the key holds the new entry
/// and every other key holds what it held.
#[verifier::external_body]
fn index_insert(
    m: &mut dashmap::DashMap<Vec<u8>, EmbeddingEntry>,
    key: Vec<u8>,
    entry: EmbeddingEntry,
)
    ensures
        index_entries(*final(m)) == index_entries(*old(m)).insert(key@, entry@),
{
    m.insert(key, entry);
}

/// `DashMap::remove` of dashmap: returns whether the key held an entry;
/// afterwards it holds none.
#[verifier::external_body]
fn index_remove(m: &mut dashmap::DashMap<Vec<u8>, EmbeddingEntry>, key: &Vec<u8>) -> (r: bool)
    ensures
        index_entries(*final(m)) == index_entries(*old(m)).remove(key@),
        r == index_entries(*old(m)).contains_key(key@),
{
    m.remove(key).is_some()
}

/// `DashMap::contains_key` of dashmap: whether the key holds an entry.
#[verifier::external_body]
fn index_contains(m: &dashmap::DashMap<Vec<u8>, EmbeddingEntry>, key: &Vec<u8>) -> (r: bool)
    ensures
        r == index_entries(*m).contains_key(key@),
{
    m.contains_key(key)
}

/// The keys and entries of an index, in its order.
pub type IndexModel = Seq<(Seq<u8>, EmbeddingModel)>;

/// Whether the index holds `key`.
pub open spec fn has_key(index: IndexModel, key: Seq<u8>) -> bool {
    exists|i: int| 0 <= i < index.len() && (#[trigger] index[i]).0 == key
}

/// The position of `key` in an index that holds it.
pub open spec fn key_index(index: IndexModel, key: Seq<u8>) -> int {
    choose|i: int| 0 <= i < index.len() && (#[trigger] index[i]).0 == key
}

/// No key occurs twice.
pub open spec fn distinct_keys(index: IndexModel) -> bool {
    forall|i: int, j: int|
        0 <= i < j < index.len() ==> (#[trigger] index[i]).0 != (#[trigger] index[j]).0
}

/// The index after `entry` was stored under `key`: in the place of the
/// entry that the key held, or behind all others where it held none.
pub open spec fn upsert(index: IndexModel, key: Seq<u8>, entry: EmbeddingModel) -> IndexModel {
    if has_key(index, key) {
        index.update(key_index(index, key), (key, entry))
    } else {
        index.push((key, entry))
    }
}

/// The index after `key` was deleted.
pub open spec fn without_key(index: IndexModel, key: Seq<u8>) -> IndexModel {
    if has_key(index, key) {
        index.remove(key_index(index, key))
    } else {
        index
    }
}

/// The keys and scores that a ranking stands for.
pub open spec fn hits(index: IndexModel, ranking: Seq<Candidate>) -> Seq<(Seq<u8>, u32)> {
    Seq::new(ranking.len(), |i: int| (index[ranking[i].index].0, ranking[i].score))
}

/// The keys and scores that a list of results holds.
pub open spec fn hits_view(results: Seq<(Vec<u8>, u32)>) -> Seq<(Seq<u8>, u32)> {
    Seq::new(results.len(), |i: int| (results[i].0@, results[i].1))
}

/// The candidates that a list of positions and scores stands for.
spec fn candidates(best: Seq<(usize, u32)>) -> Seq<Candidate> {
    Seq::new(best.len(), |i: int| Candidate { index: best[i].0 as int, score: best[i].1 })
}

/// Putting an element at the first place whose score is below its own is
/// the ranked insertion.
proof fn lemma_insert_position(s: Seq<Candidate>, c: Candidate, p: int)
    requires
        0 <= p <= s.len(),
        forall|j: int| 0 <= j < p ==> s[j].score >= c.score,
        p < s.len() ==> s[p].score < c.score,
    ensures
        insert_ranked(s, c) == s.insert(p, c),
    decreases s.len(),
{
    if s.len() == 0 {
        assert(s.insert(0, c) =~= seq![c]);
    } else if p == 0 {
        assert(s.insert(0, c) =~= seq![c] + s);
    } else {
        let tail = s.skip(1);
        assert forall|j: int| 0 <= j < p - 1 implies tail[j].score >= c.score by {
            assert(tail[j] == s[j + 1]);
        }
        lemma_insert_position(tail, c, p - 1);
        assert(s.insert(p, c) =~= seq![s[0]] + tail.insert(p - 1, c));
    }
}

/// Embedding index.
pub struct EmbeddingStore {
    embeddings: dashmap::DashMap<Vec<u8>, EmbeddingEntry>,
    order: Vec<Vec<u8>>,
    dimension: usize,
    clock: Clock,
}

impl View for EmbeddingStore {
    type V = IndexModel;

    closed spec fn view(&self) -> IndexModel {
        Seq::new(
            self.order@.len(),
            |i: int| (self.order@[i]@, index_entries(self.embeddings)[self.order@[i]@]),
        )
    }
}

impl EmbeddingStore {
    /// The dimension that every vector of this index has.
    pub closed spec fn spec_dimension(&self) -> usize {
        self.dimension
    }

    /// The table holds an entry for exactly the keys of the order.
    pub closed spec fn linked(&self) -> bool {
        forall|k: Seq<u8>| #[trigger]
            index_entries(self.embeddings).contains_key(k) <==> has_key(self@, k)
    }

    /// No key occurs twice, every vector has the index's dimension, and the
    /// table and the order hold the same keys.
    pub open spec fn wf(&self) -> bool {
        &&& distinct_keys(self@)
        &&& forall|i: int|
            0 <= i < self@.len() ==> (#[trigger] self@[i]).1.embedding.len()
                == self.spec_dimension()
        &&& self.linked()
    }

    /// An empty index for vectors of `dimension` components.
    pub fn new(dimension: usize) -> (s: EmbeddingStore)
        ensures
            s.wf(),
            s@.len() == 0,
            s.spec_dimension() == dimension,
    {
        EmbeddingStore {
            embeddings: index_new(),
            order: Vec::new(),
            dimension,
            clock: Clock::new(),
        }
    }

    /// The dimension of this index.
    pub fn dimension(&self) -> (d: usize)
        ensures
            d == self.spec_dimension(),
    {
        self.dimension
    }

    /// The present instant on this index's clock.
    pub fn now(&self) -> u64 {
        self.clock.now()
    }

    /// In a well-formed index the position of a key is the only one that
    /// holds it.
    proof fn lemma_position(&self, key: Seq<u8>, i: int)
        requires
            distinct_keys(self@),
            0 <= i < self@.len(),
            self@[i].0 == key,
        ensures
            has_key(self@, key),
            key_index(self@, key) == i,
    {
        let c = key_index(self@, key);
        if c < i {
            assert(self@[c].0 != self@[i].0);
        } else if c > i {
            assert(self@[i].0 != self@[c].0);
        }
    }

    /// The place of `key` in the order.
    fn find(&self, key: &Vec<u8>) -> (r: Option<usize>)
        ensures
            match r {
                Some(i) => i < self@.len() && self@[i as int].0 == key@,
                None => !has_key(self@, key@),
            },
    {
        let mut i: usize = 0;
        while i < self.order.len()
            invariant
                i <= self.order@.len(),
                forall|j: int| 0 <= j < i ==> (#[trigger] self@[j]).0 != key@,
            decreases self.order@.len() - i,
        {
            if bytes_eq(&self.order[i], key) {
                return Some(i);
            }
            i += 1;
        }
        None
    }

    /// Stores `entry` under `key` at `now`.
    ///
    /// Fails, and changes nothing, where the entry's vector has not the
    /// dimension of the index. Otherwise the entry, marked as accessed at
    /// `now`, takes the place of the one that the key held, or the place
    /// behind all others.
    pub fn set_at(&mut self, key: Vec<u8>, entry: EmbeddingEntry, now: u64) -> (r: Result<
        (),
        DimensionMismatch,
    >)
        requires
            old(self).wf(),
        ensures
            final(self).wf(),
            final(self).spec_dimension() == old(self).spec_dimension(),
            entry@.embedding.len() != old(self).spec_dimension() ==> r == Err::<
                (),
                DimensionMismatch,
            >(
                DimensionMismatch {
                    expected: old(self).spec_dimension(),
                    got: entry@.embedding.len() as usize,
                },
            ) && final(self)@ == old(self)@,
            entry@.embedding.len() == old(self).spec_dimension() ==> r is Ok && final(self)@
                == upsert(old(self)@, key@, entry@.touched(now)),
    {
        if entry.dim() != self.dimension {
            return Err(DimensionMismatch { expected: self.dimension, got: entry.dim() });
        }
        let mut entry = entry;
        entry.touch(now);
        let ghost before = self@;
        let ghost stored = entry@;
        let present = index_contains(&self.embeddings, &key);
        if present {
            index_insert(&mut self.embeddings, key, entry);
            proof {
                let c = key_index(before, key@);
                assert(before[c].0 == key@);
                assert(self@ =~= before.update(c, (key@, stored))) by {
                    assert forall|i: int| 0 <= i < before.len() && i != c implies self@[i]
                        == before[i] by {
                        if i < c {
                            assert(before[i].0 != before[c].0);
                        } else {
                            assert(before[c].0 != before[i].0);
                        }
                    }
                }
                assert forall|k: Seq<u8>| has_key(self@, k) <==> has_key(before, k) by {
                    if has_key(self@, k) {
                        let i = choose|i: int| 0 <= i < self@.len() && (#[trigger] self@[i]).0 == k;
                        assert(before[i].0 == k);
                    }
                    if has_key(before, k) {
                        let i = choose|i: int|
                            0 <= i < before.len() && (#[trigger] before[i]).0 == k;
                        assert(self@[i].0 == k);
                    }
                }
            }
        } else {
            index_insert(&mut self.embeddings, key.clone(), entry);
            self.order.push(key);
            proof {
                assert(self@ =~= before.push((key@, stored))) by {
                    assert forall|i: int| 0 <= i < before.len() implies self@[i] == before[i] by {
                        if before[i].0 == key@ {
                            assert(has_key(before, key@));
                        }
                    }
                }
                assert forall|k: Seq<u8>| has_key(self@, k) <==> (has_key(before, k) || k
                    == key@) by {
                    if has_key(self@, k) && k != key@ {
                        let i = choose|i: int| 0 <= i < self@.len() && (#[trigger] self@[i]).0 == k;
                        assert(before[i].0 == k);
                    }
                    if has_key(before, k) {
                        let i = choose|i: int|
                            0 <= i < before.len() && (#[trigger] before[i]).0 == k;
                        assert(self@[i].0 == k);
                    }
                    if k == key@ {
                        assert(self@[before.len() as int].0 == k);
                    }
                }
                assert forall|i: int, j: int| 0 <= i < j < self@.len() implies (
                #[trigger] self@[i]).0 != (#[trigger] self@[j]).0 by {
                    if j == before.len() {
                        if before[i].0 == key@ {
                            assert(has_key(before, key@));
                        }
                    } else {
                        assert(before[i].0 != before[j].0);
                    }
                }
            }
        }
        Ok(())
    }

    /// Stores `entry` under `key` now.
    pub fn set(&mut self, key: Vec<u8>, entry: EmbeddingEntry) -> (r: Result<(), DimensionMismatch>)
        requires
            old(self).wf(),
        ensures
            final(self).wf(),
            final(self).spec_dimension() == old(self).spec_dimension(),
            r is Ok <==> entry@.embedding.len() == old(self).spec_dimension(),
            r is Err ==> final(self)@ == old(self)@,
            r is Ok ==> exists|now: u64|
                final(self)@ == upsert(old(self)@, key@, #[trigger] entry@.touched(now)),
    {
        let now = self.clock.now();
        self.set_at(key, entry, now)
    }

    /// The entry under `key`, marked as accessed at `now`; the index keeps
    /// the entry as it is.
    pub fn get_at(&self, key: &Vec<u8>, now: u64) -> (r: Option<EmbeddingEntry>)
        requires
            self.wf(),
        ensures
            r is Some <==> has_key(self@, key@),
            r matches Some(e) ==> e@ == self@[key_index(self@, key@)].1.touched(now),
    {
        match index_get(&self.embeddings, key) {
            Some(found) => {
                assert(self@[key_index(self@, key@)].0 == key@);
                let mut entry = found;
                entry.touch(now);
                Some(entry)
            },
            None => None,
        }
    }

    /// The entry under `key`, marked as accessed now.
    pub fn get(&self, key: &Vec<u8>) -> (r: Option<EmbeddingEntry>)
        requires
            self.wf(),
        ensures
            r is Some <==> has_key(self@, key@),
            r matches Some(e) ==> exists|now: u64|
                e@ == #[trigger] self@[key_index(self@, key@)].1.touched(now),
    {
        let now = self.clock.now();
        self.get_at(key, now)
    }

    /// The vector under `key`.
    pub fn get_vector(&self, key: &Vec<u8>) -> (r: Option<Vec<u32>>)
        requires
            self.wf(),
        ensures
            r is Some <==> has_key(self@, key@),
            r matches Some(v) ==> v@ == self@[key_index(self@, key@)].1.embedding,
    {
        match index_get(&self.embeddings, key) {
            Some(found) => {
                assert(self@[key_index(self@, key@)].0 == key@);
                Some(found.embedding)
            },
            None => None,
        }
    }

    /// Deletes `key`. Returns whether it was there; the other entries keep
    /// their order.
    pub fn del(&mut self, key: &Vec<u8>) -> (existed: bool)
        requires
            old(self).wf(),
        ensures
            final(self).wf(),
            final(self).spec_dimension() == old(self).spec_dimension(),
            existed == has_key(old(self)@, key@),
            final(self)@ == without_key(old(self)@, key@),
    {
        let ghost before = self@;
        match self.find(key) {
            Some(i) => {
                proof {
                    self.lemma_position(key@, i as int);
                }
                index_remove(&mut self.embeddings, key);
                self.order.remove(i);
                proof {
                    assert(self@ =~= before.remove(i as int)) by {
                        assert forall|j: int| 0 <= j < before.len() && j != i implies before[j].0
                            != key@ by {
                            if j < i {
                                assert(before[j].0 != before[i as int].0);
                            } else {
                                assert(before[i as int].0 != before[j].0);
                            }
                        }
                    }
                    assert forall|k: Seq<u8>| has_key(self@, k) <==> (has_key(before, k) && k
                        != key@) by {
                        if has_key(self@, k) {
                            let j = choose|j: int|
                                0 <= j < self@.len() && (#[trigger] self@[j]).0 == k;
                            if j < i {
                                assert(before[j].0 == k);
                                assert(before[j].0 != before[i as int].0);
                            } else {
                                assert(before[j + 1].0 == k);
                                assert(before[i as int].0 != before[j + 1].0);
                            }
                        }
                        if has_key(before, k) && k != key@ {
                            let j = choose|j: int|
                                0 <= j < before.len() && (#[trigger] before[j]).0 == k;
                            if j < i {
                                assert(self@[j].0 == k);
                            } else {
                                assert(self@[j - 1].0 == k);
                            }
                        }
                    }
                    assert forall|a: int, b: int| 0 <= a < b < self@.len() implies (
                    #[trigger] self@[a]).0 != (#[trigger] self@[b]).0 by {
                        let a0 = if a < i { a } else { a + 1 };
                        let b0 = if b < i { b } else { b + 1 };
                        assert(before[a0].0 != before[b0].0);
                    }
                }
                true
            },
            None => false,
        }
    }

    /// Whether the index holds `key`.
    pub fn contains_key(&self, key: &Vec<u8>) -> (r: bool)
        requires
            self.wf(),
        ensures
            r == has_key(self@, key@),
    {
        index_contains(&self.embeddings, key)
    }

    /// The number of entries.
    pub fn len(&self) -> (n: usize)
        ensures
            n == self@.len(),
    {
        self.order.len()
    }

    /// Whether the index holds no entry.
    pub fn is_empty(&self) -> (r: bool)
        ensures
            r == (self@.len() == 0),
    {
        self.order.len() == 0
    }

    /// The stored vectors, in the order of the index.
    pub fn vectors(&self) -> (v: Vec<Vec<u32>>)
        requires
            self.wf(),
        ensures
            v@.len() == self@.len(),
            forall|i: int| 0 <= i < v@.len() ==> (#[trigger] v@[i])@ == self@[i].1.embedding,
    {
        let mut v: Vec<Vec<u32>> = Vec::new();
        let mut i: usize = 0;
        while i < self.order.len()
            invariant
                self.wf(),
                i <= self.order@.len(),
                v@.len() == i,
                forall|j: int| 0 <= j < i ==> (#[trigger] v@[j])@ == self@[j].1.embedding,
            decreases self.order@.len() - i,
        {
            assert(self@[i as int].0 == self.order@[i as int]@);
            assert(has_key(self@, self.order@[i as int]@));
            let vector = match index_get(&self.embeddings, &self.order[i]) {
                Some(found) => found.embedding,
                None => unreached(),
            };
            v.push(vector);
            i += 1;
        }
        v
    }

    /// The `k` entries nearest to a query, given the similarity of each
    /// stored vector to it, in the order of the index.
    ///
    /// Entries below `threshold` are left out. The others come in
    /// descending order of similarity, those stored earlier first among
    /// equals, and the list is cut at `k`.
    pub fn find_nearest(&self, scores: &Vec<u32>, k: usize, threshold: u32) -> (r: Vec<
        (Vec<u8>, u32),
    >)
        requires
            scores@.len() == self@.len(),
        ensures
            hits_view(r@) == hits(self@, nearest(scores@, threshold, k as int)),
            r@.len() <= k,
            forall|i: int| 0 <= i < r@.len() ==> (#[trigger] r@[i]).1 >= threshold,
            forall|i: int, j: int|
                0 <= i < j < r@.len() ==> (#[trigger] r@[i]).1 >= (#[trigger] r@[j]).1,
    {
        let n = scores.len();
        let mut best: Vec<(usize, u32)> = Vec::new();
        let mut i: usize = 0;
        assert(candidates(best@) =~= top(ranked(scores@, threshold, 0), k as int));
        while i < n
            invariant
                i <= n,
                n == scores@.len(),
                candidates(best@) == top(ranked(scores@, threshold, i as int), k as int),
            decreases n - i,
        {
            let score = scores[i];
            let ghost before = ranked(scores@, threshold, i as int);
            if score >= threshold && k > 0 {
                let ghost kept = candidates(best@);
                let ghost c = Candidate { index: i as int, score };
                let mut p: usize = 0;
                while p < best.len() && best[p].1 >= score
                    invariant
                        p <= best@.len(),
                        forall|j: int| 0 <= j < p ==> (#[trigger] best@[j]).1 >= score,
                    decreases best@.len() - p,
                {
                    p += 1;
                }
                proof {
                    assert forall|j: int| 0 <= j < p implies kept[j].score >= c.score by {
                        assert(best@[j].1 >= score);
                    }
                    lemma_insert_position(kept, c, p as int);
                    lemma_insert_len(kept, c);
                    lemma_insert_top(before, c, k as int);
                    lemma_insert_len(before, c);
                }
                best.insert(p, (i, score));
                assert(candidates(best@) =~= kept.insert(p as int, c));
                best.truncate(k);
                assert(candidates(best@) =~= top(insert_ranked(kept, c), k as int));
            } else {
                proof {
                    if score >= threshold {
                        lemma_insert_len(before, Candidate { index: i as int, score });
                    }
                }
            }
            i += 1;
        }
        let ghost winners = nearest(scores@, threshold, k as int);
        proof {
            lemma_ranked(scores@, threshold, n as int);
        }
        let mut out: Vec<(Vec<u8>, u32)> = Vec::new();
        let mut j: usize = 0;
        while j < best.len()
            invariant
                j <= best@.len(),
                candidates(best@) == winners,
                winners == top(ranked(scores@, threshold, scores@.len() as int), k as int),
                scores@.len() == self@.len(),
                forall|m: int|
                    0 <= m < ranked(scores@, threshold, scores@.len() as int).len() ==> {
                        let c = #[trigger] ranked(scores@, threshold, scores@.len() as int)[m];
                        0 <= c.index < scores@.len() && c.score == scores@[c.index] && c.score
                            >= threshold
                    },
                out@.len() == j,
                forall|m: int|
                    0 <= m < j ==> (#[trigger] out@[m]).0@ == self@[winners[m].index].0
                        && out@[m].1 == winners[m].score,
            decreases best@.len() - j,
        {
            let (index, score) = best[j];
            proof {
                let all = ranked(scores@, threshold, scores@.len() as int);
                assert(candidates(best@).len() == best@.len());
                assert(j < winners.len() <= all.len());
                assert(winners[j as int] == all[j as int]);
                assert(candidates(best@)[j as int].index == index);
                assert(0 <= index < self@.len());
            }
            out.push((self.order[index].clone(), score));
            j += 1;
        }
        proof {
            let all = ranked(scores@, threshold, scores@.len() as int);
            assert(candidates(best@).len() == best@.len());
            assert(winners.len() <= all.len());
            assert(hits_view(out@) =~= hits(self@, winners));
            assert forall|a: int| 0 <= a < out@.len() implies (#[trigger] out@[a]).1
                >= threshold by {
                assert(winners[a] == all[a]);
            }
            assert forall|a: int, b: int| 0 <= a < b < out@.len() implies (#[trigger] out@[a]).1
                >= (#[trigger] out@[b]).1 by {
                assert(winners[a] == all[a] && winners[b] == all[b]);
            }
        }
        out
    }

    /// Every key, in the order of the index.
    pub fn keys(&self) -> (keys: Vec<Vec<u8>>)
        ensures
            keys@.len() == self@.len(),
            forall|i: int| 0 <= i < keys@.len() ==> (#[trigger] keys@[i])@ == self@[i].0,
    {
        let mut keys: Vec<Vec<u8>> = Vec::new();
        let mut i: usize = 0;
        while i < self.order.len()
            invariant
                i <= self.order@.len(),
                keys@.len() == i,
                forall|j: int| 0 <= j < i ==> (#[trigger] keys@[j])@ == self@[j].0,
            decreases self.order@.len() - i,
        {
            keys.push(self.order[i].clone());
            i += 1;
        }
        keys
    }
}

} // verus!
