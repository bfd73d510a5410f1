//! A small map from strings to values.

use crate::text::str_eq;
use vstd::prelude::*;

verus! {

/// One binding of a [`StringMap`].
pub struct Binding<V> {
    pub key: String,
    pub value: V,
}

/// A small map from strings to values, kept as a list in insertion order in
/// which no key occurs twice.
pub struct StringMap<V> {
    bindings: Vec<Binding<V>>,
}

impl<V> StringMap<V> {
    /// The keys, in insertion order.
    pub closed spec fn keys(&self) -> Seq<Seq<char>> {
        Seq::new(self.bindings@.len(), |i: int| self.bindings@[i].key@)
    }

    /// The values, each at the position of its key.
    pub closed spec fn values(&self) -> Seq<V> {
        Seq::new(self.bindings@.len(), |i: int| self.bindings@[i].value)
    }

    /// No key occurs twice.
    pub open spec fn wf(&self) -> bool {
        &&& self.keys().no_duplicates()
        &&& self.keys().len() == self.values().len()
    }

    /// The map that the list stands for.
    pub open spec fn view(&self) -> Map<Seq<char>, V> {
        Map::new(
            |k: Seq<char>| self.keys().contains(k),
            |k: Seq<char>| self.values()[self.keys().index_of(k)],
        )
    }

    /// The empty map.
    pub fn new() -> (m: Self)
        ensures
            m.wf(),
            m.keys() == Seq::<Seq<char>>::empty(),
            m.values() == Seq::<V>::empty(),
    {
        let m = Self { bindings: Vec::new() };
        assert(m.keys() =~= Seq::<Seq<char>>::empty());
        assert(m.values() =~= Seq::<V>::empty());
        m
    }

    /// Number of bindings.
    pub fn len(&self) -> (n: usize)
        ensures
            n == self.keys().len(),
            n == self.values().len(),
    {
        self.bindings.len()
    }

    /// The position of `key`, if it is bound.
    pub fn position(&self, key: &str) -> (p: Option<usize>)
        ensures
            match p {
                Some(i) => i < self.keys().len() && self.keys()[i as int] == key@,
                None => !self.keys().contains(key@),
            },
    {
        let mut i: usize = 0;
        while i < self.bindings.len()
            invariant
                i <= self.bindings@.len(),
                forall|j: int| 0 <= j < i ==> self.keys()[j] != key@,
            decreases self.bindings@.len() - i,
        {
            if str_eq(self.bindings[i].key.as_str(), key) {
                return Some(i);
            }
            i += 1;
        }
        None
    }

    /// Whether `key` is bound.
    pub fn contains_key(&self, key: &str) -> (b: bool)
        ensures
            b == self.keys().contains(key@),
            self.wf() ==> b == self@.contains_key(key@),
    {
        self.position(key).is_some()
    }

    /// The key at position `i`.
    pub fn key_at(&self, i: usize) -> (k: &String)
        requires
            i < self.keys().len(),
        ensures
            k@ == self.keys()[i as int],
    {
        &self.bindings[i].key
    }

    /// The value at position `i`.
    pub fn value_at(&self, i: usize) -> (v: &V)
        requires
            i < self.keys().len(),
        ensures
            *v == self.values()[i as int],
    {
        &self.bindings[i].value
    }

    /// The value bound to `key`, if any.
    pub fn get(&self, key: &str) -> (v: Option<&V>)
        requires
            self.wf(),
        ensures
            match v {
                Some(x) => self@.contains_key(key@) && *x == self@[key@],
                None => !self@.contains_key(key@),
            },
    {
        match self.position(key) {
            Some(i) => {
                proof {
                    self.lemma_view_at(i as int);
                }
                Some(&self.bindings[i].value)
            },
            None => None,
        }
    }

    /// Binds `key` to `value`: a bound key keeps its position and gets the
    /// new value, a new key goes to the end.
    pub fn insert(&mut self, key: String, value: V)
        requires
            old(self).wf(),
        ensures
            final(self).wf(),
            final(self)@ == old(self)@.insert(key@, value),
            old(self).keys().contains(key@) ==> final(self).keys() == old(self).keys()
                && final(self).values() == old(self).values().update(
                old(self).keys().index_of(key@),
                value,
            ),
            !old(self).keys().contains(key@) ==> final(self).keys() == old(self).keys().push(key@)
                && final(self).values() == old(self).values().push(value),
    {
        match self.position(key.as_str()) {
            Some(i) => {
                proof {
                    old(self).lemma_view_at(i as int);
                }
                self.bindings[i].value = value;
                assert(self.keys() =~= old(self).keys());
                assert(self.values() =~= old(self).values().update(i as int, value));
            },
            None => {
                self.bindings.push(Binding { key, value });
                assert(self.keys() =~= old(self).keys().push(key@));
                assert(self.values() =~= old(self).values().push(value));
                assert forall|a: int, b: int|
                    0 <= a < self.keys().len() && 0 <= b < self.keys().len() && a != b implies self.keys()[a]
                    != self.keys()[b] by {
                    if a < old(self).keys().len() && b < old(self).keys().len() {
                    } else if a < old(self).keys().len() {
                        assert(old(self).keys().contains(old(self).keys()[a]));
                    } else {
                        assert(old(self).keys().contains(old(self).keys()[b]));
                    }
                }
            },
        }
        proof {
            Self::lemma_view_after_insert(*old(self), *self, key@, value);
        }
    }

    /// Unbinds `key`; the other bindings keep their order.
    pub fn remove(&mut self, key: &str) -> (removed: Option<V>)
        requires
            old(self).wf(),
        ensures
            final(self).wf(),
            final(self)@ == old(self)@.remove(key@),
            match removed {
                Some(v) => {
                    &&& old(self)@.contains_key(key@)
                    &&& v == old(self)@[key@]
                    &&& final(self).keys() == old(self).keys().remove(
                        old(self).keys().index_of(key@),
                    )
                    &&& final(self).values() == old(self).values().remove(
                        old(self).keys().index_of(key@),
                    )
                },
                None => !old(self)@.contains_key(key@) && final(self).keys() == old(self).keys()
                    && final(self).values() == old(self).values(),
            },
    {
        match self.position(key) {
            Some(i) => {
                proof {
                    old(self).lemma_view_at(i as int);
                }
                let b = self.bindings.remove(i);
                assert(self.keys() =~= old(self).keys().remove(i as int));
                assert(self.values() =~= old(self).values().remove(i as int));
                proof {
                    Self::lemma_view_after_remove(*old(self), *self, i as int);
                }
                Some(b.value)
            },
            None => {
                assert(self@ =~= old(self)@.remove(key@));
                None
            },
        }
    }

    /// In a well-formed map the key at a position is bound to the value at
    /// that position.
    pub proof fn lemma_view_at(self, i: int)
        requires
            self.wf(),
            0 <= i < self.keys().len(),
        ensures
            self@.contains_key(self.keys()[i]),
            self@[self.keys()[i]] == self.values()[i],
            self.keys().index_of(self.keys()[i]) == i,
    {
        let k = self.keys()[i];
        assert(self.keys().contains(k));
        let j = self.keys().index_of(k);
        assert(self.keys()[j] == k);
    }

    /// Every bound key sits at some position.
    pub proof fn lemma_view_key(self, key: Seq<char>)
        requires
            self.wf(),
            self@.contains_key(key),
        ensures
            0 <= self.keys().index_of(key) < self.keys().len(),
            self.keys()[self.keys().index_of(key)] == key,
            self@[key] == self.values()[self.keys().index_of(key)],
    {
    }

    /// The domain of a map is finite and as large as its list is long.
    pub proof fn lemma_view_len(self)
        requires
            self.wf(),
        ensures
            self@.dom().finite(),
            self@.dom().len() == self.keys().len(),
    {
        self.keys().unique_seq_to_set();
        assert(self@.dom() =~= self.keys().to_set());
    }

    proof fn lemma_view_after_insert(before: Self, after: Self, key: Seq<char>, value: V)
        requires
            before.wf(),
            after.keys().no_duplicates(),
            after.keys().len() == after.values().len(),
            before.keys().contains(key) ==> after.keys() == before.keys() && after.values()
                == before.values().update(before.keys().index_of(key), value),
            !before.keys().contains(key) ==> after.keys() == before.keys().push(key)
                && after.values() == before.values().push(value),
        ensures
            after@ == before@.insert(key, value),
    {
        assert forall|k: Seq<char>| after@.contains_key(k) == before@.insert(
            key,
            value,
        ).contains_key(k) by {
            if before.keys().contains(key) {
            } else {
                if k == key {
                    assert(after.keys()[before.keys().len() as int] == key);
                } else if before.keys().contains(k) {
                    let j = before.keys().index_of(k);
                    assert(after.keys()[j] == k);
                } else if after.keys().contains(k) {
                    let j = after.keys().index_of(k);
                    assert(j < before.keys().len());
                    assert(before.keys()[j] == k);
                }
            }
        }
        assert forall|k: Seq<char>| after@.contains_key(k) implies after@[k] == before@.insert(
            key,
            value,
        )[k] by {
            let j = after.keys().index_of(k);
            if before.keys().contains(key) {
                let i = before.keys().index_of(key);
                if k != key {
                    assert(j != i);
                }
            } else {
                if k == key {
                    assert(after.keys()[before.keys().len() as int] == key);
                } else {
                    assert(j < before.keys().len());
                    assert(before.keys()[j] == k);
                    before.lemma_view_at(j);
                }
            }
        }
        assert(after@ =~= before@.insert(key, value));
    }

    proof fn lemma_view_after_remove(before: Self, after: Self, i: int)
        requires
            before.wf(),
            0 <= i < before.keys().len(),
            after.keys() == before.keys().remove(i),
            after.values() == before.values().remove(i),
        ensures
            after.wf(),
            after@ == before@.remove(before.keys()[i]),
    {
        let key = before.keys()[i];
        assert forall|a: int, b: int|
            0 <= a < after.keys().len() && 0 <= b < after.keys().len() && a != b implies after.keys()[a]
            != after.keys()[b] by {
            let a0 = if a < i { a } else { a + 1 };
            let b0 = if b < i { b } else { b + 1 };
            assert(after.keys()[a] == before.keys()[a0]);
            assert(after.keys()[b] == before.keys()[b0]);
        }
        assert forall|k: Seq<char>| after@.contains_key(k) == before@.remove(key).contains_key(
            k,
        ) by {
            if after.keys().contains(k) {
                let a = after.keys().index_of(k);
                let a0 = if a < i { a } else { a + 1 };
                assert(before.keys()[a0] == k);
            }
            if before.keys().contains(k) && k != key {
                let b = before.keys().index_of(k);
                let b1 = if b < i { b } else { b - 1 };
                assert(after.keys()[b1] == k);
            }
        }
        assert forall|k: Seq<char>| after@.contains_key(k) implies after@[k] == before@.remove(
            key,
        )[k] by {
            let a = after.keys().index_of(k);
            let a0 = if a < i { a } else { a + 1 };
            assert(before.keys()[a0] == k);
            before.lemma_view_at(a0);
        }
        assert(after@ =~= before@.remove(key));
    }

    /// Mutable access to the value at position `i`.
    pub fn value_mut(&mut self, i: usize) -> (v: &mut V)
        requires
            i < old(self).keys().len(),
        ensures
            *v == old(self).values()[i as int],
            final(self).keys() == old(self).keys(),
            final(self).values() == old(self).values().update(i as int, *final(v)),
    {
        &mut self.bindings[i].value
    }
}

} // verus!
