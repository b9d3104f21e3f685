//! A table from byte-string keys to values that remembers the order in which
//! its keys first came.

use vstd::prelude::*;

verus! {

#[derive(Debug)]
struct Entry<V> {
    key: Vec<u8>,
    value: V,
}

/// A table from byte-string keys to values. Each key occurs once; keys keep
/// the order in which they were first inserted.
#[derive(Debug)]
pub struct Registry<V> {
    entries: Vec<Entry<V>>,
}

impl<V> Registry<V> {
    /// The keys in the order in which they were first inserted.
    pub closed spec fn keys(&self) -> Seq<Seq<u8>> {
        Seq::new(self.entries@.len(), |i: int| self.entries@[i].key@)
    }

    /// The values in the order of their keys.
    pub closed spec fn values(&self) -> Seq<V> {
        Seq::new(self.entries@.len(), |i: int| self.entries@[i].value)
    }

    /// No key occurs twice, and there is a value for every key.
    pub open spec fn wf(&self) -> bool {
        self.keys().no_duplicates() && self.keys().len() == self.values().len()
    }

    /// Whether the table has a value for a key.
    pub open spec fn has(&self, key: Seq<u8>) -> bool {
        self.keys().contains(key)
    }

    /// The value of a key that the table has.
    pub open spec fn value_of(&self, key: Seq<u8>) -> V {
        self.values()[self.keys().index_of(key)]
    }

    /// The table as a map.
    pub open spec fn view(&self) -> Map<Seq<u8>, V> {
        Map::new(|key: Seq<u8>| self.has(key), |key: Seq<u8>| self.value_of(key))
    }

    /// In a well-formed table a key stands at one place only.
    pub proof fn lemma_place(&self, i: int)
        requires
            self.wf(),
            0 <= i < self.keys().len(),
        ensures
            self.has(self.keys()[i]),
            self.keys().index_of(self.keys()[i]) == i,
            self.value_of(self.keys()[i]) == self.values()[i],
    {
        let key = self.keys()[i];
        let j = self.keys().index_of(key);
        assert(0 <= j < self.keys().len() && self.keys()[j] == key);
    }

    /// Creates an empty table.
    pub fn new() -> (table: Registry<V>)
        ensures
            table.wf(),
            table.keys().len() == 0,
            table@ == Map::<Seq<u8>, V>::empty(),
    {
        let table = Registry { entries: Vec::new() };
        assert(table@ =~= Map::<Seq<u8>, V>::empty());
        table
    }

    /// Number of keys.
    pub fn len(&self) -> (n: usize)
        ensures
            n == self.keys().len(),
            n == self.values().len(),
    {
        self.entries.len()
    }

    /// The place of a key.
    pub fn position(&self, key: &[u8]) -> (found: Option<usize>)
        requires
            self.wf(),
        ensures
            found is Some <==> self.has(key@),
            found matches Some(i) ==> i < self.keys().len() && self.keys()[i as int] == key@
                && self.keys().index_of(key@) == i,
    {
        let mut i: usize = 0;
        while i < self.entries.len()
            invariant
                self.wf(),
                i <= self.entries@.len(),
                self.keys().len() == self.entries@.len(),
                forall|j: int| 0 <= j < i ==> self.keys()[j] != key@,
            decreases self.entries@.len() - i,
        {
            if bytes_equal(self.entries[i].key.as_slice(), key) {
                proof {
                    assert(self.keys()[i as int] == key@);
                    self.lemma_place(i as int);
                }
                return Some(i);
            }
            i += 1;
        }
        None
    }

    /// Whether the table has a value for a key.
    pub fn contains_key(&self, key: &[u8]) -> (present: bool)
        requires
            self.wf(),
        ensures
            present == self.has(key@),
            present == self@.contains_key(key@),
    {
        self.position(key).is_some()
    }

    /// The value of a key.
    pub fn get(&self, key: &[u8]) -> (found: Option<&V>)
        requires
            self.wf(),
        ensures
            found is Some <==> self.has(key@),
            found matches Some(value) ==> *value == self.value_of(key@) && *value == self@[key@],
    {
        match self.position(key) {
            Some(i) => Some(&self.entries[i].value),
            None => None,
        }
    }

    /// The key at a place.
    pub fn key_at(&self, i: usize) -> (key: &Vec<u8>)
        requires
            i < self.keys().len(),
        ensures
            key@ == self.keys()[i as int],
    {
        &self.entries[i].key
    }

    /// The value at a place.
    pub fn value_at(&self, i: usize) -> (value: &V)
        requires
            i < self.values().len(),
        ensures
            *value == self.values()[i as int],
    {
        &self.entries[i].value
    }

    /// Puts a value at a place, in exchange for the one that stood there.
    pub fn replace_at(&mut self, i: usize, value: V) -> (previous: V)
        requires
            old(self).wf(),
            i < old(self).keys().len(),
        ensures
            final(self).wf(),
            final(self).keys() == old(self).keys(),
            final(self).values() == old(self).values().update(i as int, value),
            previous == old(self).values()[i as int],
            final(self)@ == old(self)@.insert(old(self).keys()[i as int], value),
    {
        let mut value = value;
        std::mem::swap(&mut self.entries[i].value, &mut value);
        proof {
            assert(self.keys() =~= old(self).keys());
            assert(self.values() =~= old(self).values().update(i as int, self.values()[i as int]));
            let key = old(self).keys()[i as int];
            old(self).lemma_place(i as int);
            assert forall|k: Seq<u8>| self.has(k) implies #[trigger] self.value_of(k) == (if k
                == key {
                self.values()[i as int]
            } else {
                old(self).value_of(k)
            }) by {
                let j = self.keys().index_of(k);
                assert(0 <= j < self.keys().len() && self.keys()[j] == k);
                self.lemma_place(j);
                old(self).lemma_place(j);
            }
            assert(self@ =~= old(self)@.insert(key, self.values()[i as int]));
        }
        value
    }

    /// Sets the value of a key. A key that is new comes last; the value that
    /// a key had before is handed back.
    pub fn insert(&mut self, key: Vec<u8>, value: V) -> (previous: Option<V>)
        requires
            old(self).wf(),
        ensures
            final(self).wf(),
            final(self)@ == old(self)@.insert(key@, value),
            final(self).has(key@),
            final(self).value_of(key@) == value,
            old(self).has(key@) ==> previous == Some(old(self).value_of(key@))
                && final(self).keys() == old(self).keys()
                && final(self).values() == old(self).values().update(
                old(self).keys().index_of(key@),
                value,
            ),
            !old(self).has(key@) ==> previous is None && final(self).keys() == old(
                self,
            ).keys().push(key@) && final(self).values() == old(self).values().push(value),
    {
        match self.position(key.as_slice()) {
            Some(i) => {
                let previous = self.replace_at(i, value);
                proof {
                    self.lemma_place(i as int);
                }
                Some(previous)
            },
            None => {
                self.entries.push(Entry { key, value });
                proof {
                    assert(self.keys() =~= old(self).keys().push(key@));
                    assert(self.values() =~= old(self).values().push(value));
                    let n = old(self).keys().len() as int;
                    assert forall|a: int, b: int|
                        0 <= a < self.keys().len() && 0 <= b < self.keys().len() && a
                            != b implies self.keys()[a] != self.keys()[b] by {
                        if a < n && b < n {
                            assert(old(self).keys()[a] != old(self).keys()[b]);
                        } else if a < n {
                            assert(old(self).keys().contains(old(self).keys()[a]));
                        } else {
                            assert(old(self).keys().contains(old(self).keys()[b]));
                        }
                    }
                    assert forall|k: Seq<u8>| self.has(k) implies #[trigger] self.value_of(k) == (
                    if k == key@ {
                        value
                    } else {
                        old(self).value_of(k)
                    }) by {
                        let j = self.keys().index_of(k);
                        assert(0 <= j < self.keys().len() && self.keys()[j] == k);
                        self.lemma_place(j);
                        if j < n {
                            old(self).lemma_place(j);
                        }
                    }
                    assert forall|k: Seq<u8>| self.has(k) <==> old(self).has(k) || k == key@ by {
                        if self.has(k) {
                            let j = self.keys().index_of(k);
                            assert(0 <= j < self.keys().len() && self.keys()[j] == k);
                            if j < n {
                                assert(old(self).keys()[j] == k);
                            }
                        }
                        if old(self).has(k) {
                            let j = old(self).keys().index_of(k);
                            assert(0 <= j < n && old(self).keys()[j] == k);
                            assert(self.keys()[j] == k);
                        }
                        if k == key@ {
                            assert(self.keys()[n] == k);
                        }
                    }
                    assert(self@ =~= old(self)@.insert(key@, value));
                    assert(self.keys()[n] == key@);
                    self.lemma_place(n);
                }
                None
            },
        }
    }

    /// Removes a key with its value, which is handed back. The other keys
    /// keep their order.
    pub fn remove(&mut self, key: &[u8]) -> (previous: Option<V>)
        requires
            old(self).wf(),
        ensures
            final(self).wf(),
            final(self)@ == old(self)@.remove(key@),
            !final(self).has(key@),
            old(self).has(key@) ==> previous == Some(old(self).value_of(key@))
                && final(self).keys() == old(self).keys().remove(old(self).keys().index_of(key@))
                && final(self).values() == old(self).values().remove(old(self).keys().index_of(key@)),
            !old(self).has(key@) ==> previous is None && final(self).keys() == old(self).keys()
                && final(self).values() == old(self).values(),
    {
        match self.position(key) {
            Some(i) => {
                let entry = self.entries.remove(i);
                proof {
                    let r = i as int;
                    assert(self.keys() =~= old(self).keys().remove(r));
                    assert(self.values() =~= old(self).values().remove(r));
                    old(self).lemma_place(r);
                    assert forall|a: int, b: int|
                        0 <= a < self.keys().len() && 0 <= b < self.keys().len() && a
                            != b implies self.keys()[a] != self.keys()[b] by {
                        let oa = if a < r {
                            a
                        } else {
                            a + 1
                        };
                        let ob = if b < r {
                            b
                        } else {
                            b + 1
                        };
                        assert(old(self).keys()[oa] != old(self).keys()[ob]);
                    }
                    assert forall|k: Seq<u8>| self.has(k) <==> old(self).has(k) && k != key@ by {
                        if self.has(k) {
                            let j = self.keys().index_of(k);
                            assert(0 <= j < self.keys().len() && self.keys()[j] == k);
                            let o = if j < r {
                                j
                            } else {
                                j + 1
                            };
                            assert(old(self).keys()[o] == k);
                            assert(old(self).keys()[o] != old(self).keys()[r]);
                        }
                        if old(self).has(k) && k != key@ {
                            let j = old(self).keys().index_of(k);
                            assert(0 <= j < old(self).keys().len() && old(self).keys()[j] == k);
                            if j < r {
                                assert(self.keys()[j] == k);
                            } else {
                                assert(self.keys()[j - 1] == k);
                            }
                        }
                    }
                    assert forall|k: Seq<u8>| self.has(k) implies #[trigger] self.value_of(k)
                        == old(self).value_of(k) by {
                        let j = self.keys().index_of(k);
                        assert(0 <= j < self.keys().len() && self.keys()[j] == k);
                        self.lemma_place(j);
                        let o = if j < r {
                            j
                        } else {
                            j + 1
                        };
                        old(self).lemma_place(o);
                    }
                    assert(self@ =~= old(self)@.remove(key@));
                }
                Some(entry.value)
            },
            None => {
                assert(self@ =~= old(self)@.remove(key@));
                None
            },
        }
    }
}

/// Whether two byte strings are equal.
pub fn bytes_equal(a: &[u8], b: &[u8]) -> (same: bool)
    ensures
        same == (a@ == b@),
{
    if a.len() != b.len() {
        return false;
    }
    let mut i: usize = 0;
    while i < a.len()
        invariant
            i <= a.len(),
            a@.len() == b@.len(),
            forall|j: int| 0 <= j < i ==> a@[j] == b@[j],
        decreases a.len() - i,
    {
        if a[i] != b[i] {
            return false;
        }
        i += 1;
    }
    assert(a@ =~= b@);
    true
}

/// Copies a byte string.
pub fn copy_bytes(bytes: &[u8]) -> (copy: Vec<u8>)
    ensures
        copy@ == bytes@,
{
    let mut copy: Vec<u8> = Vec::new();
    let mut i: usize = 0;
    while i < bytes.len()
        invariant
            i <= bytes.len(),
            copy@ == bytes@.subrange(0, i as int),
        decreases bytes.len() - i,
    {
        copy.push(bytes[i]);
        assert(copy@ =~= bytes@.subrange(0, i + 1));
        i += 1;
    }
    assert(bytes@.subrange(0, bytes.len() as int) =~= bytes@);
    copy
}

} // verus!
