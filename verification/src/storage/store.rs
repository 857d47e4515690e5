//! Key/value store with per-entry expiry, on one hash table.
//!
//! Expiry is lazy: a reader treats an expired entry as absent whether or
//! not it has been removed. `cleanup_expired` reclaims the space.

use vstd::prelude::*;
use super::entry::{
    bytes_of, expired, expiry, lemma_live_entries, live_entries, live_value, no_entries, Clock,
    Entry, EntryModel,
};

verus! {

/// The hash table of a store.
#[verifier::external_body]
pub struct Table {
    inner: hashbrown::HashMap<Vec<u8>, Entry>,
}

/// What a table holds: for each key, the value and its expiry.
pub uninterp spec fn table_entries(t: Table) -> Map<Seq<u8>, EntryModel>;

/// `HashMap::new` of hashbrown: an empty table.
#[verifier::external_body]
fn table_new() -> (t: Table)
    ensures
        table_entries(t) == no_entries(),
{
    Table { inner: hashbrown::HashMap::new() }
}

/// `HashMap::get` of hashbrown, with the entry copied: the entry under the
/// key, if the table has one.
#[verifier::external_body]
fn table_get(t: &Table, key: &Vec<u8>) -> (r: Option<Entry>)
    ensures
        r is Some <==> table_entries(*t).contains_key(key@),
        r matches Some(e) ==> e@ == table_entries(*t)[key@],
{
    t.inner.get(key).map(|e| e.duplicate())
}

/// `HashMap::insert` of hashbrown: afterwards the key holds the new entry
/// and every other key holds what it held.
#[verifier::external_body]
fn table_insert(t: &mut Table, key: Vec<u8>, entry: Entry)
    ensures
        table_entries(*final(t)) == table_entries(*old(t)).insert(key@, entry@),
{
    t.inner.insert(key, entry);
}

/// `HashMap::remove` of hashbrown: returns the entry that the key held, if
/// any; afterwards the key holds none.
#[verifier::external_body]
fn table_remove(t: &mut Table, key: &Vec<u8>) -> (r: Option<Entry>)
    ensures
        table_entries(*final(t)) == table_entries(*old(t)).remove(key@),
        r is Some <==> table_entries(*old(t)).contains_key(key@),
        r matches Some(e) ==> e@ == table_entries(*old(t))[key@],
{
    t.inner.remove(key)
}

/// `HashMap::len` of hashbrown: the number of keys.
#[verifier::external_body]
fn table_len(t: &Table) -> (n: usize)
    ensures
        n == table_entries(*t).len(),
{
    t.inner.len()
}

/// `HashMap::retain` of hashbrown, keeping the entries that are live at
/// `now`: each entry stays as it is or leaves, as the test says.
#[verifier::external_body]
fn table_retain_live(t: &mut Table, now: u64)
    ensures
        table_entries(*final(t)) == live_entries(table_entries(*old(t)), now),
{
    t.inner.retain(|_, entry| entry.is_live(now));
}

/// `HashMap::keys` of hashbrown, each key cloned: every key once, in an
/// order that is not specified.
#[verifier::external_body]
fn table_keys(t: &Table) -> (keys: Vec<Vec<u8>>)
    ensures
        keys@.len() == table_entries(*t).len(),
        forall|i: int| 0 <= i < keys@.len()
            ==> table_entries(*t).contains_key(#[trigger] keys@[i]@),
        forall|k: Seq<u8>|
            table_entries(*t).contains_key(k) ==> exists|i: int|
                0 <= i < keys@.len() && #[trigger] keys@[i]@ == k,
        forall|i: int, j: int|
            0 <= i < j < keys@.len() ==> #[trigger] keys@[i]@ != #[trigger] keys@[j]@,
{
    t.inner.keys().cloned().collect()
}

/// In-memory key/value store.
pub struct Store {
    table: Table,
    clock: Clock,
}

impl View for Store {
    type V = Map<Seq<u8>, EntryModel>;

    closed spec fn view(&self) -> Map<Seq<u8>, EntryModel> {
        table_entries(self.table)
    }
}

impl Store {
    /// A store holds finitely many entries.
    pub open spec fn wf(&self) -> bool {
        self@.dom().finite()
    }

    /// An empty store.
    pub fn new() -> (s: Store)
        ensures
            s.wf(),
            s@ == no_entries(),
    {
        Store { table: table_new(), clock: Clock::new() }
    }

    /// The present instant on this store's clock.
    pub fn now(&self) -> u64 {
        self.clock.now()
    }

    /// The value under `key` as a reader sees it at `now`: none where the
    /// key is absent or its entry is expired.
    pub fn get_at(&self, key: &Vec<u8>, now: u64) -> (r: Option<Vec<u8>>)
        ensures
            bytes_of(r) == live_value(self@, key@, now),
    {
        match table_get(&self.table, key) {
            Some(entry) => {
                if entry.is_expired(now) {
                    None
                } else {
                    Some(entry.value)
                }
            },
            None => None,
        }
    }

    /// The value under `key` as a reader sees it now.
    pub fn get(&self, key: &Vec<u8>) -> (r: Option<Vec<u8>>)
        ensures
            exists|now: u64| bytes_of(r) == #[trigger] live_value(self@, key@, now),
    {
        let now = self.clock.now();
        self.get_at(key, now)
    }

    /// Stores `value` under `key` at `now`, replacing what was there. The
    /// entry lives for `ttl_secs` seconds, or without expiry where that is
    /// `None`.
    pub fn set_at(&mut self, key: Vec<u8>, value: Vec<u8>, ttl_secs: Option<u64>, now: u64)
        requires
            old(self).wf(),
        ensures
            final(self).wf(),
            final(self)@ == old(self)@.insert(key@, (value@, expiry(now, ttl_secs))),
    {
        let entry = Entry::new(value, ttl_secs, now);
        table_insert(&mut self.table, key, entry);
    }

    /// Stores `value` under `key` now, replacing what was there.
    pub fn set(&mut self, key: Vec<u8>, value: Vec<u8>, ttl_secs: Option<u64>)
        requires
            old(self).wf(),
        ensures
            final(self).wf(),
            exists|now: u64|
                final(self)@ == old(self)@.insert(key@, (value@, #[trigger] expiry(now, ttl_secs))),
    {
        let now = self.clock.now();
        self.set_at(key, value, ttl_secs, now);
    }

    /// Removes `key`. Returns whether an entry was there, expired or not.
    pub fn del(&mut self, key: &Vec<u8>) -> (existed: bool)
        requires
            old(self).wf(),
        ensures
            final(self).wf(),
            existed == old(self)@.contains_key(key@),
            final(self)@ == old(self)@.remove(key@),
    {
        table_remove(&mut self.table, key).is_some()
    }

    /// Whether `key` holds an entry that is not expired at `now`.
    pub fn contains_key_at(&self, key: &Vec<u8>, now: u64) -> (r: bool)
        ensures
            r == live_value(self@, key@, now).is_some(),
    {
        match table_get(&self.table, key) {
            Some(entry) => !entry.is_expired(now),
            None => false,
        }
    }

    /// Whether `key` holds an entry that is not expired now.
    pub fn contains_key(&self, key: &Vec<u8>) -> (r: bool)
        ensures
            exists|now: u64| r == (#[trigger] live_value(self@, key@, now)).is_some(),
    {
        let now = self.clock.now();
        self.contains_key_at(key, now)
    }

    /// The number of entries, expired ones included.
    pub fn len(&self) -> (n: usize)
        requires
            self.wf(),
        ensures
            n == self@.len(),
    {
        table_len(&self.table)
    }

    /// Whether the store holds no entry.
    pub fn is_empty(&self) -> (r: bool)
        requires
            self.wf(),
        ensures
            r == (self@.len() == 0),
            r == (self@ == no_entries()),
    {
        let n = self.len();
        proof {
            if n == 0 {
                assert(self@.dom() =~= Set::<Seq<u8>>::empty());
                assert(self@ =~= no_entries());
            }
        }
        n == 0
    }

    /// Removes the entries that are expired at `now` and returns how many
    /// they were.
    pub fn cleanup_expired_at(&mut self, now: u64) -> (removed: usize)
        requires
            old(self).wf(),
        ensures
            final(self).wf(),
            final(self)@ == live_entries(old(self)@, now),
            removed == old(self)@.len() - final(self)@.len(),
    {
        let before = self.len();
        proof {
            lemma_live_entries(self@, now);
        }
        table_retain_live(&mut self.table, now);
        let after = self.len();
        before - after
    }

    /// Removes the entries that are expired now and returns how many they
    /// were. Entries without expiry stay.
    pub fn cleanup_expired(&mut self) -> (removed: usize)
        requires
            old(self).wf(),
        ensures
            final(self).wf(),
            removed == old(self)@.len() - final(self)@.len(),
            exists|now: u64| final(self)@ == #[trigger] live_entries(old(self)@, now),
    {
        let now = self.clock.now();
        self.cleanup_expired_at(now)
    }

    /// Every key, expired ones included, once each and in no particular
    /// order.
    pub fn keys(&self) -> (keys: Vec<Vec<u8>>)
        requires
            self.wf(),
        ensures
            keys@.len() == self@.len(),
            forall|i: int| 0 <= i < keys@.len() ==> self@.contains_key(#[trigger] keys@[i]@),
            forall|k: Seq<u8>|
                self@.contains_key(k) ==> exists|i: int|
                    0 <= i < keys@.len() && #[trigger] keys@[i]@ == k,
            forall|i: int, j: int|
                0 <= i < j < keys@.len() ==> #[trigger] keys@[i]@ != #[trigger] keys@[j]@,
    {
        table_keys(&self.table)
    }
}

} // verus!
