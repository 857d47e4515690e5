//! A small map from texts to values that keeps its entries in the order in
//! which their keys were first inserted.

use vstd::prelude::*;
use crate::text::str_eq;

verus! {

/// Whether a list of keys holds a key.
pub open spec fn has_text(keys: Seq<Seq<char>>, key: Seq<char>) -> bool {
    exists|i: int| 0 <= i < keys.len() && #[trigger] keys[i] == key
}

/// The place of a key in a list that holds it.
pub open spec fn text_index(keys: Seq<Seq<char>>, key: Seq<char>) -> int {
    choose|i: int| 0 <= i < keys.len() && #[trigger] keys[i] == key
}

/// No key occurs twice.
pub open spec fn distinct_texts(keys: Seq<Seq<char>>) -> bool {
    forall|i: int, j: int| 0 <= i < j < keys.len() ==> #[trigger] keys[i] != #[trigger] keys[j]
}

/// In a list without repetition a key has one place.
pub proof fn lemma_text_index(keys: Seq<Seq<char>>, i: int)
    requires
        distinct_texts(keys),
        0 <= i < keys.len(),
    ensures
        has_text(keys, keys[i]),
        text_index(keys, keys[i]) == i,
{
    let c = text_index(keys, keys[i]);
    if c < i {
        assert(keys[c] != keys[i]);
    } else if c > i {
        assert(keys[i] != keys[c]);
    }
}

/// A map from texts to values, in insertion order.
pub struct TextMap<V> {
    keys: Vec<String>,
    values: Vec<V>,
}

impl<V> TextMap<V> {
    /// The keys, in insertion order.
    pub closed spec fn keys(&self) -> Seq<Seq<char>> {
        Seq::new(self.keys@.len(), |i: int| self.keys@[i]@)
    }

    /// The values, each at the place of its key.
    pub closed spec fn values(&self) -> Seq<V> {
        self.values@
    }

    /// There is a value for each key, and no key occurs twice.
    pub open spec fn wf(&self) -> bool {
        &&& self.keys().len() == self.values().len()
        &&& distinct_texts(self.keys())
    }

    /// Whether the map holds a key.
    pub open spec fn has(&self, key: Seq<char>) -> bool {
        has_text(self.keys(), key)
    }

    /// The value under a key that the map holds.
    pub open spec fn value_of(&self, key: Seq<char>) -> V {
        self.values()[text_index(self.keys(), key)]
    }

    /// An empty map.
    pub fn new() -> (m: TextMap<V>)
        ensures
            m.wf(),
            m.keys().len() == 0,
            m.values().len() == 0,
    {
        TextMap { keys: Vec::new(), values: Vec::new() }
    }

    /// The number of entries.
    pub fn len(&self) -> (n: usize)
        requires
            self.wf(),
        ensures
            n == self.keys().len(),
    {
        self.keys.len()
    }

    /// The place of a key, if the map holds it.
    pub fn find(&self, key: &str) -> (r: Option<usize>)
        requires
            self.wf(),
        ensures
            r is Some <==> self.has(key@),
            r matches Some(i) ==> i == text_index(self.keys(), key@) && i < self.keys().len()
                && self.keys()[i as int] == key@,
    {
        let mut i: usize = 0;
        while i < self.keys.len()
            invariant
                i <= self.keys@.len(),
                self.wf(),
                forall|j: int| 0 <= j < i ==> #[trigger] self.keys()[j] != key@,
            decreases self.keys@.len() - i,
        {
            if str_eq(self.keys[i].as_str(), key) {
                proof {
                    assert(self.keys()[i as int] == key@);
                    lemma_text_index(self.keys(), i as int);
                }
                return Some(i);
            }
            i += 1;
        }
        None
    }

    /// Whether the map holds a key.
    pub fn contains_key(&self, key: &str) -> (r: bool)
        requires
            self.wf(),
        ensures
            r == self.has(key@),
    {
        self.find(key).is_some()
    }

    /// The value under a key.
    pub fn get(&self, key: &str) -> (r: Option<&V>)
        requires
            self.wf(),
        ensures
            r is Some <==> self.has(key@),
            r matches Some(v) ==> *v == self.value_of(key@),
    {
        match self.find(key) {
            Some(i) => Some(&self.values[i]),
            None => None,
        }
    }

    /// The key at a place.
    pub fn key_at(&self, i: usize) -> (k: &String)
        requires
            self.wf(),
            i < self.keys().len(),
        ensures
            k@ == self.keys()[i as int],
    {
        &self.keys[i]
    }

    /// The value at a place.
    pub fn value_at(&self, i: usize) -> (v: &V)
        requires
            self.wf(),
            i < self.keys().len(),
        ensures
            *v == self.values()[i as int],
    {
        &self.values[i]
    }

    /// Puts a value in the place of the value at a place.
    pub fn set_value_at(&mut self, i: usize, value: V)
        requires
            old(self).wf(),
            i < old(self).keys().len(),
        ensures
            final(self).wf(),
            final(self).keys() == old(self).keys(),
            final(self).values() == old(self).values().update(i as int, value),
    {
        self.values.set(i, value);
        assert(self.keys() == old(self).keys());
    }

    /// Puts a value under a key: in the place of the value that the key
    /// held, which is returned, or behind all other entries.
    pub fn insert(&mut self, key: String, value: V) -> (r: Option<V>)
        requires
            old(self).wf(),
        ensures
            final(self).wf(),
            final(self).has(key@),
            final(self).value_of(key@) == value,
            old(self).has(key@) ==> r == Some(old(self).value_of(key@)) && final(self).keys()
                == old(self).keys() && final(self).values() == old(self).values().update(
                text_index(old(self).keys(), key@),
                value,
            ),
            !old(self).has(key@) ==> r is None && final(self).keys() == old(self).keys().push(
                key@,
            ) && final(self).values() == old(self).values().push(value),
            forall|other: Seq<char>|
                other != key@ ==> final(self).has(other) == old(self).has(other)
                    && (old(self).has(other) ==> final(self).value_of(other)
                        == old(self).value_of(other)),
    {
        let ghost before_keys = self.keys();
        let ghost before_values = self.values();
        let found = self.find(key.as_str());
        let r = match found {
            Some(i) => {
                self.values.push(value);
                let previous = self.values.swap_remove(i);
                assert(self.values@ =~= before_values.update(i as int, value));
                assert(self.keys() == before_keys);
                Some(previous)
            },
            None => {
                self.keys.push(key);
                self.values.push(value);
                assert(self.keys() =~= before_keys.push(key@));
                proof {
                    let after = self.keys();
                    assert forall|a: int,
                        b: int| 0 <= a < b < after.len() implies #[trigger] after[a]
                        != #[trigger] after[b] by {
                        if b < before_keys.len() {
                            assert(before_keys[a] != before_keys[b]);
                        } else {
                            assert(before_keys[a] != key@);
                        }
                    }
                }
                None
            },
        };
        proof {
            let after = self.keys();
            let w = if has_text(before_keys, key@) {
                text_index(before_keys, key@)
            } else {
                before_keys.len() as int
            };
            assert(after[w] == key@);
            lemma_text_index(after, w);
            assert forall|other: Seq<char>| other != key@ implies self.has(other)
                == old(self).has(other)
                && (old(self).has(other) ==> self.value_of(other) == old(self).value_of(other)) by {
                if has_text(before_keys, other) {
                    let k = text_index(before_keys, other);
                    assert(after[k] == other);
                    lemma_text_index(after, k);
                }
                if has_text(after, other) {
                    let k = text_index(after, other);
                    assert(before_keys[k] == other);
                }
            }
        }
        r
    }

    /// Removes a key and returns the value that it held. The other
    /// entries keep their order.
    pub fn remove(&mut self, key: &str) -> (r: Option<V>)
        requires
            old(self).wf(),
        ensures
            final(self).wf(),
            !final(self).has(key@),
            old(self).has(key@) ==> r == Some(old(self).value_of(key@)) && final(self).keys()
                == old(self).keys().remove(text_index(old(self).keys(), key@))
                    && final(self).values()
                        == old(self).values().remove(text_index(old(self).keys(), key@)),
            !old(self).has(key@) ==> r is None && final(self).keys() == old(self).keys()
                && final(self).values() == old(self).values(),
            forall|other: Seq<char>|
                other != key@ ==> final(self).has(other) == old(self).has(other)
                    && (old(self).has(other) ==> final(self).value_of(other)
                        == old(self).value_of(other)),
    {
        let ghost before_keys = self.keys();
        let ghost before_values = self.values();
        match self.find(key) {
            Some(i) => {
                self.keys.remove(i);
                let value = self.values.remove(i);
                proof {
                    let after = self.keys();
                    assert(after =~= before_keys.remove(i as int));
                    assert forall|a: int,
                        b: int| 0 <= a < b < after.len() implies #[trigger] after[a]
                        != #[trigger] after[b] by {
                        let a0 = if a < i {
                            a
                        } else {
                            a + 1
                        };
                        let b0 = if b < i {
                            b
                        } else {
                            b + 1
                        };
                        assert(after[a] == before_keys[a0] && after[b] == before_keys[b0]);
                        assert(before_keys[a0] != before_keys[b0]);
                    }
                    assert forall|k: int| 0 <= k < after.len() implies #[trigger] after[k]
                        != key@ by {
                        let k0 = if k < i {
                            k
                        } else {
                            k + 1
                        };
                        assert(after[k] == before_keys[k0]);
                        if k0 < i {
                            assert(before_keys[k0] != before_keys[i as int]);
                        } else {
                            assert(before_keys[i as int] != before_keys[k0]);
                        }
                    }
                    assert forall|other: Seq<char>| other != key@ implies self.has(other)
                        == old(self).has(other)
                        && (old(self).has(other) ==> self.value_of(other)
                            == old(self).value_of(other)) by {
                        if has_text(before_keys, other) {
                            let k = text_index(before_keys, other);
                            let k1 = if k < i {
                                k
                            } else {
                                k - 1
                            };
                            assert(after[k1] == other);
                            lemma_text_index(after, k1);
                        }
                        if has_text(after, other) {
                            let k = text_index(after, other);
                            let k0 = if k < i {
                                k
                            } else {
                                k + 1
                            };
                            assert(before_keys[k0] == other);
                            lemma_text_index(before_keys, k0);
                        }
                    }
                }
                Some(value)
            },
            None => None,
        }
    }

    /// Removes every entry.
    pub fn clear(&mut self)
        ensures
            final(self).wf(),
            final(self).keys().len() == 0,
            final(self).values().len() == 0,
    {
        self.keys.clear();
        self.values.clear();
    }
}

} // verus!
