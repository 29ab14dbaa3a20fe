//! An insertion-ordered map keyed by account identifier.
//!
//! `OrderedMap` is the mathematical model: a sequence of key/value pairs in
//! which no key occurs twice. `AccountMap` is the executable map, a vector of
//! entries whose view is an `OrderedMap`. Walking the entries front to back
//! visits them in the order in which their keys were first inserted.

use crate::views::{entries_of, texts_of};
use vstd::prelude::*;

verus! {

/// The model of an insertion-ordered map from account identifiers to `T`.
pub struct OrderedMap<T> {
    pub entries: Seq<(Seq<char>, T)>,
}

impl<T> OrderedMap<T> {
    /// The map without entries.
    pub open spec fn empty() -> Self {
        OrderedMap { entries: Seq::empty() }
    }

    /// Number of entries.
    pub open spec fn len(self) -> nat {
        self.entries.len()
    }

    /// No key occurs at two positions.
    pub open spec fn wf(self) -> bool {
        forall|i: int, j: int|
            0 <= i < j < self.entries.len() ==> (#[trigger] self.entries[i]).0 != (
            #[trigger] self.entries[j]).0
    }

    /// `key` is bound at position `i`.
    pub open spec fn bound_at(self, key: Seq<char>, i: int) -> bool {
        0 <= i < self.entries.len() && self.entries[i].0 == key
    }

    /// `key` is bound in the map.
    pub open spec fn has(self, key: Seq<char>) -> bool {
        exists|i: int| self.bound_at(key, i)
    }

    /// The position at which `key` is bound; meaningful where `has(key)`.
    pub open spec fn index_of(self, key: Seq<char>) -> int {
        choose|i: int| self.bound_at(key, i)
    }

    /// The value bound to `key`; meaningful where `has(key)`.
    pub open spec fn get(self, key: Seq<char>) -> T {
        self.entries[self.index_of(key)].1
    }

    /// The value bound to `key`, if any.
    pub open spec fn find(self, key: Seq<char>) -> Option<T> {
        if self.has(key) {
            Some(self.get(key))
        } else {
            None
        }
    }

    /// Binds `key` to `value`: in place where the key is bound already, at the
    /// end otherwise.
    pub open spec fn put(self, key: Seq<char>, value: T) -> Self {
        if self.has(key) {
            OrderedMap { entries: self.entries.update(self.index_of(key), (key, value)) }
        } else {
            OrderedMap { entries: self.entries.push((key, value)) }
        }
    }

    /// Unbinds `key`; the other entries keep their order.
    pub open spec fn remove(self, key: Seq<char>) -> Self {
        if self.has(key) {
            OrderedMap { entries: self.entries.remove(self.index_of(key)) }
        } else {
            self
        }
    }

    /// The keys, in the order of their entries.
    pub open spec fn keys(self) -> Seq<Seq<char>> {
        Seq::new(self.entries.len(), |i: int| self.entries[i].0)
    }

    /// The empty map is well formed and binds no key.
    pub proof fn lemma_empty()
        ensures
            Self::empty().wf(),
            forall|key: Seq<char>| !(#[trigger] Self::empty().has(key)),
    {
        assert forall|key: Seq<char>| !(#[trigger] Self::empty().has(key)) by {
            if Self::empty().has(key) {
                Self::empty().lemma_index_of(key);
            }
        }
    }

    /// In a well-formed map the entry at position `i` is the one `get` finds
    /// for its key.
    pub proof fn lemma_position(self, i: int)
        requires
            self.wf(),
            0 <= i < self.entries.len(),
        ensures
            self.has(self.entries[i].0),
            self.index_of(self.entries[i].0) == i,
            self.get(self.entries[i].0) == self.entries[i].1,
    {
        let key = self.entries[i].0;
        assert(self.bound_at(key, i));
        let j = self.index_of(key);
        assert(self.bound_at(key, j));
        if i < j {
            assert(self.entries[i].0 != self.entries[j].0);
        }
        if j < i {
            assert(self.entries[j].0 != self.entries[i].0);
        }
    }

    /// A bound key sits at a valid position, and that position holds the key.
    pub proof fn lemma_index_of(self, key: Seq<char>)
        requires
            self.has(key),
        ensures
            0 <= self.index_of(key) < self.entries.len(),
            self.entries[self.index_of(key)].0 == key,
    {
        assert(self.bound_at(key, self.index_of(key)));
    }

    /// What `put` does to every key.
    pub proof fn lemma_put(self, key: Seq<char>, value: T)
        requires
            self.wf(),
        ensures
            self.put(key, value).wf(),
            self.put(key, value).has(key),
            self.put(key, value).get(key) == value,
            forall|other: Seq<char>|
                other != key ==> (#[trigger] self.put(key, value).has(other)) == self.has(other),
            forall|other: Seq<char>|
                other != key && self.has(other) ==> #[trigger] self.put(key, value).get(other)
                    == self.get(other),
            self.put(key, value).len() == if self.has(key) {
                self.len()
            } else {
                self.len() + 1
            },
    {
        let after = self.put(key, value);
        let at: int = if self.has(key) {
            self.index_of(key)
        } else {
            self.entries.len() as int
        };
        if self.has(key) {
            self.lemma_index_of(key);
        }
        assert(after.entries.len() > at && after.entries[at] == (key, value));
        assert forall|i: int| 0 <= i < after.entries.len() && i != at implies #[trigger] after.entries[i]
            == self.entries[i] && self.entries[i].0 != key by {
            if self.has(key) {
                if i < at {
                    assert(self.entries[i].0 != self.entries[at].0);
                } else {
                    assert(self.entries[at].0 != self.entries[i].0);
                }
            } else {
                assert(!self.bound_at(key, i));
            }
        }
        assert(after.wf()) by {
            assert forall|i: int, j: int| 0 <= i < j < after.entries.len() implies (
            #[trigger] after.entries[i]).0 != (#[trigger] after.entries[j]).0 by {
                if i != at && j != at {
                    assert(self.entries[i].0 != self.entries[j].0);
                }
            }
        }
        after.lemma_position(at);
        assert forall|other: Seq<char>| other != key implies (#[trigger] after.has(other))
            == self.has(other) by {
            if after.has(other) {
                let i = after.index_of(other);
                after.lemma_index_of(other);
                assert(self.bound_at(other, i));
            }
            if self.has(other) {
                let i = self.index_of(other);
                self.lemma_index_of(other);
                assert(after.bound_at(other, i));
            }
        }
        assert forall|other: Seq<char>| other != key && self.has(other) implies #[trigger] after.get(
            other,
        ) == self.get(other) by {
            let i = self.index_of(other);
            self.lemma_index_of(other);
            assert(after.entries[i] == self.entries[i]);
            after.lemma_position(i);
        }
    }

    /// What `remove` does to every key.
    pub proof fn lemma_remove(self, key: Seq<char>)
        requires
            self.wf(),
        ensures
            self.remove(key).wf(),
            !self.remove(key).has(key),
            forall|other: Seq<char>|
                other != key ==> (#[trigger] self.remove(key).has(other)) == self.has(other),
            forall|other: Seq<char>|
                other != key && self.has(other) ==> #[trigger] self.remove(key).get(other)
                    == self.get(other),
            self.remove(key).len() == if self.has(key) {
                self.len() - 1
            } else {
                self.len() as int
            },
    {
        let after = self.remove(key);
        if self.has(key) {
            let at = self.index_of(key);
            self.lemma_index_of(key);
            assert forall|i: int| 0 <= i < after.entries.len() implies #[trigger] after.entries[i]
                == self.entries[if i < at {
                i
            } else {
                i + 1
            }] && after.entries[i].0 != key by {
                let src: int = if i < at {
                    i
                } else {
                    i + 1
                };
                if src < at {
                    assert(self.entries[src].0 != self.entries[at].0);
                } else {
                    assert(self.entries[at].0 != self.entries[src].0);
                }
            }
            assert(after.wf()) by {
                assert forall|i: int, j: int| 0 <= i < j < after.entries.len() implies (
                #[trigger] after.entries[i]).0 != (#[trigger] after.entries[j]).0 by {
                    let si: int = if i < at {
                        i
                    } else {
                        i + 1
                    };
                    let sj: int = if j < at {
                        j
                    } else {
                        j + 1
                    };
                    assert(self.entries[si].0 != self.entries[sj].0);
                }
            }
            assert(!after.has(key)) by {
                if after.has(key) {
                    after.lemma_index_of(key);
                }
            }
            assert forall|other: Seq<char>| other != key implies (#[trigger] after.has(other))
                == self.has(other) by {
                if after.has(other) {
                    let i = after.index_of(other);
                    after.lemma_index_of(other);
                    assert(self.bound_at(other, if i < at {
                        i
                    } else {
                        i + 1
                    }));
                }
                if self.has(other) {
                    let i = self.index_of(other);
                    self.lemma_index_of(other);
                    assert(after.bound_at(other, if i < at {
                        i
                    } else {
                        i - 1
                    }));
                }
            }
            assert forall|other: Seq<char>| other != key && self.has(other) implies #[trigger] after.get(
                other,
            ) == self.get(other) by {
                let i = self.index_of(other);
                self.lemma_index_of(other);
                let dst: int = if i < at {
                    i
                } else {
                    i - 1
                };
                assert(after.entries[dst] == self.entries[i]);
                after.lemma_position(dst);
            }
        } else {
            assert(!after.has(key));
        }
    }
}

/// An insertion-ordered map from account identifiers to `V`.
#[derive(Debug)]
pub struct AccountMap<V> {
    pub entries: Vec<(String, V)>,
}

impl<V: View> View for AccountMap<V> {
    type V = OrderedMap<V::V>;

    open spec fn view(&self) -> OrderedMap<V::V> {
        OrderedMap { entries: entries_of(self.entries@) }
    }
}

impl<V: View> AccountMap<V> {
    /// No account is bound twice.
    pub open spec fn wf(&self) -> bool {
        self@.wf()
    }

    /// A map without entries.
    pub fn new() -> (map: Self)
        ensures
            map@ == OrderedMap::<V::V>::empty(),
            map.wf(),
    {
        let map = AccountMap { entries: Vec::new() };
        assert(map@.entries =~= Seq::empty());
        map
    }

    /// Whether no account is bound twice. A map that is only ever changed
    /// through `insert`, `remove` and `set_value_at` passes; one that was put
    /// together from entries of unknown origin may not.
    pub fn has_distinct_keys(&self) -> (distinct: bool)
        ensures
            distinct == self.wf(),
    {
        let mut j: usize = 0;
        while j < self.entries.len()
            invariant
                j <= self.entries.len(),
                forall|a: int, b: int|
                    0 <= a < b < j ==> (#[trigger] self@.entries[a]).0 != (
                    #[trigger] self@.entries[b]).0,
            decreases self.entries.len() - j,
        {
            let mut i: usize = 0;
            while i < j
                invariant
                    i <= j < self.entries.len(),
                    forall|a: int| 0 <= a < i ==> (#[trigger] self@.entries[a]).0 != self@.entries[j as int].0,
                decreases j - i,
            {
                if self.entries[i].0 == self.entries[j].0 {
                    assert(self@.entries[i as int].0 == self@.entries[j as int].0);
                    return false;
                }
                i += 1;
            }
            j += 1;
        }
        true
    }

    /// Number of entries.
    pub fn len(&self) -> (n: usize)
        ensures
            n == self@.len(),
    {
        self.entries.len()
    }

    /// The position of `key`, if it is bound.
    pub fn position(&self, key: &String) -> (found: Option<usize>)
        requires
            self.wf(),
        ensures
            found is Some == self@.has(key@),
            found is Some ==> found->0 == self@.index_of(key@),
    {
        let mut i: usize = 0;
        while i < self.entries.len()
            invariant
                self.wf(),
                i <= self.entries.len(),
                forall|j: int| 0 <= j < i ==> !self@.bound_at(key@, j),
            decreases self.entries.len() - i,
        {
            if self.entries[i].0 == *key {
                proof {
                    assert(self@.bound_at(key@, i as int));
                    self@.lemma_position(i as int);
                }
                return Some(i);
            }
            i += 1;
        }
        None
    }

    /// Whether `key` is bound.
    pub fn contains_key(&self, key: &String) -> (found: bool)
        requires
            self.wf(),
        ensures
            found == self@.has(key@),
    {
        self.position(key).is_some()
    }

    /// The value bound to `key`, if any.
    pub fn get(&self, key: &String) -> (value: Option<&V>)
        requires
            self.wf(),
        ensures
            match value {
                Some(found) => self@.find(key@) == Some(found@),
                None => self@.find(key@) is None,
            },
    {
        match self.position(key) {
            Some(i) => Some(&self.entries[i].1),
            None => None,
        }
    }

    /// The keys, in the order of their entries.
    pub fn keys(&self) -> (keys: Vec<String>)
        ensures
            texts_of(keys@) == self@.keys(),
    {
        let mut keys: Vec<String> = Vec::new();
        let mut i: usize = 0;
        while i < self.entries.len()
            invariant
                i <= self.entries.len(),
                keys@.len() == i,
                forall|j: int| 0 <= j < i ==> keys@[j]@ == self@.entries[j].0,
            decreases self.entries.len() - i,
        {
            keys.push(self.entries[i].0.clone());
            i += 1;
        }
        assert(texts_of(keys@) =~= self@.keys());
        keys
    }

    /// The key at position `i`.
    pub fn key_at(&self, i: usize) -> (key: &String)
        requires
            i < self@.len(),
        ensures
            key@ == self@.entries[i as int].0,
    {
        &self.entries[i].0
    }

    /// The value at position `i`.
    pub fn value_at(&self, i: usize) -> (value: &V)
        requires
            i < self@.len(),
        ensures
            value@ == self@.entries[i as int].1,
    {
        &self.entries[i].1
    }

    /// Replaces the value at position `i`; the key stays.
    pub fn set_value_at(&mut self, i: usize, value: V)
        requires
            old(self).wf(),
            i < old(self)@.len(),
        ensures
            final(self).wf(),
            final(self)@ == old(self)@.put(old(self)@.entries[i as int].0, value@),
            final(self)@.entries == old(self)@.entries.update(
                i as int,
                (old(self)@.entries[i as int].0, value@),
            ),
    {
        let key = self.entries[i].0.clone();
        proof {
            old(self)@.lemma_position(i as int);
        }
        self.entries.set(i, (key, value));
        assert(self@.entries =~= old(self)@.entries.update(
            i as int,
            (old(self)@.entries[i as int].0, value@),
        ));
        proof {
            old(self)@.lemma_put(old(self)@.entries[i as int].0, value@);
        }
    }

    /// Binds `key` to `value`: in place where the key is bound already, at the
    /// end otherwise. Returns whether the key was bound before.
    pub fn insert(&mut self, key: String, value: V) -> (replaced: bool)
        requires
            old(self).wf(),
        ensures
            final(self).wf(),
            final(self)@ == old(self)@.put(key@, value@),
            replaced == old(self)@.has(key@),
    {
        proof {
            old(self)@.lemma_put(key@, value@);
        }
        match self.position(&key) {
            Some(i) => {
                proof {
                    old(self)@.lemma_index_of(key@);
                }
                self.entries.set(i, (key, value));
                assert(self@.entries =~= old(self)@.put(key@, value@).entries);
                true
            },
            None => {
                self.entries.push((key, value));
                assert(self@.entries =~= old(self)@.put(key@, value@).entries);
                false
            },
        }
    }

    /// Unbinds `key`. Returns whether the key was bound.
    pub fn remove(&mut self, key: &String) -> (removed: bool)
        requires
            old(self).wf(),
        ensures
            final(self).wf(),
            final(self)@ == old(self)@.remove(key@),
            removed == old(self)@.has(key@),
    {
        proof {
            old(self)@.lemma_remove(key@);
        }
        match self.position(key) {
            Some(i) => {
                proof {
                    old(self)@.lemma_index_of(key@);
                }
                let _ = self.entries.remove(i);
                assert(self@.entries =~= old(self)@.remove(key@).entries);
                true
            },
            None => false,
        }
    }
}

} // verus!
