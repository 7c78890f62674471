//! A small map keyed by a uniform's name and type.
//!
//! The keys are kept in the order in which they were first inserted, so that
//! a walk over the map always visits them in the same order.

use vstd::prelude::*;
use crate::text::str_eq;
use crate::uniform::UniformType;

verus! {

/// What a key looks like in contracts: the name's characters and the type.
pub type KeyView = (Seq<char>, UniformType);

struct Entry<T> {
    name: String,
    kind: UniformType,
    value: T,
}

/// A map from `(name, type)` to a value of type `T`.
pub struct UniformMap<T> {
    entries: Vec<Entry<T>>,
}

/// The map that pairs each key with the value at the same position.
pub open spec fn paired<T>(keys: Seq<KeyView>, values: Seq<T>) -> Map<KeyView, T> {
    Map::new(|key: KeyView| keys.contains(key), |key: KeyView| values[keys.index_of(key)])
}

impl<T> View for UniformMap<T> {
    type V = Map<KeyView, T>;

    open spec fn view(&self) -> Map<KeyView, T> {
        paired(self.keys(), self.values())
    }
}

impl<T> UniformMap<T> {
    /// The keys, in the order of their first insertion.
    pub closed spec fn keys(&self) -> Seq<KeyView> {
        Seq::new(self.entries@.len(), |i: int| (self.entries@[i].name@, self.entries@[i].kind))
    }

    /// The values, each at the position of its key.
    pub closed spec fn values(&self) -> Seq<T> {
        Seq::new(self.entries@.len(), |i: int| self.entries@[i].value)
    }

    /// No key occurs twice, and every key has its value.
    pub open spec fn wf(&self) -> bool {
        &&& self.keys().no_duplicates()
        &&& self.keys().len() == self.values().len()
    }

    /// An empty map.
    pub fn new() -> (map: Self)
        ensures
            map.wf(),
            map.keys() == Seq::<KeyView>::empty(),
            map.values() == Seq::<T>::empty(),
            map@ == Map::<KeyView, T>::empty(),
    {
        let map = UniformMap { entries: Vec::new() };
        assert(map.keys() =~= Seq::<KeyView>::empty());
        assert(map.values() =~= Seq::<T>::empty());
        assert(map@ =~= Map::<KeyView, T>::empty());
        map
    }

    /// The number of keys.
    pub fn len(&self) -> (n: usize)
        ensures
            n == self.keys().len(),
            n == self.values().len(),
    {
        self.entries.len()
    }

    /// Where the key `(name, kind)` stands, if the map holds it.
    pub fn position(&self, name: &str, kind: UniformType) -> (found: Option<usize>)
        ensures
            match found {
                Some(i) => i < self.keys().len() && self.keys()[i as int] == (name@, kind),
                None => !self.keys().contains((name@, kind)),
            },
    {
        let mut i: usize = 0;
        while i < self.entries.len()
            invariant
                i <= self.entries@.len(),
                forall|j: int| 0 <= j < i ==> self.keys()[j] != (name@, kind),
            decreases self.entries@.len() - i,
        {
            if self.entries[i].kind == kind && str_eq(self.entries[i].name.as_str(), name) {
                return Some(i);
            }
            i += 1;
        }
        None
    }

    /// Whether the map holds the key `(name, kind)`.
    pub fn contains_key(&self, name: &str, kind: UniformType) -> (held: bool)
        ensures
            held == self@.contains_key((name@, kind)),
            held == self.keys().contains((name@, kind)),
    {
        self.position(name, kind).is_some()
    }

    /// The value under the key `(name, kind)`, if the map holds it.
    pub fn get(&self, name: &str, kind: UniformType) -> (value: Option<&T>)
        requires
            self.wf(),
        ensures
            match value {
                Some(v) => self@.contains_key((name@, kind)) && *v == self@[(name@, kind)],
                None => !self@.contains_key((name@, kind)),
            },
    {
        match self.position(name, kind) {
            Some(i) => {
                proof {
                    self.lemma_lookup(i as int);
                }
                Some(&self.entries[i].value)
            },
            None => None,
        }
    }

    /// The name of the key at position `i`.
    pub fn name_at(&self, i: usize) -> (name: &str)
        requires
            i < self.keys().len(),
        ensures
            name@ == self.keys()[i as int].0,
    {
        self.entries[i].name.as_str()
    }

    /// The type of the key at position `i`.
    pub fn kind_at(&self, i: usize) -> (kind: UniformType)
        requires
            i < self.keys().len(),
        ensures
            kind == self.keys()[i as int].1,
    {
        self.entries[i].kind
    }

    /// The value at position `i`.
    pub fn value_at(&self, i: usize) -> (value: &T)
        requires
            self.wf(),
            i < self.keys().len(),
        ensures
            *value == self.values()[i as int],
            *value == self@[self.keys()[i as int]],
    {
        proof {
            self.lemma_lookup(i as int);
        }
        &self.entries[i].value
    }

    /// Adds `value` under `(name, kind)` unless the key is held already: the
    /// first value stays. Says whether it was added.
    pub fn insert_if_absent(&mut self, name: String, kind: UniformType, value: T) -> (added: bool)
        requires
            old(self).wf(),
        ensures
            final(self).wf(),
            added == !old(self)@.contains_key((name@, kind)),
            added ==> final(self).keys() == old(self).keys().push((name@, kind)),
            added ==> final(self).values() == old(self).values().push(value),
            added ==> final(self)@ == old(self)@.insert((name@, kind), value),
            !added ==> final(self).keys() == old(self).keys(),
            !added ==> final(self).values() == old(self).values(),
            !added ==> final(self)@ == old(self)@,
    {
        if self.contains_key(name.as_str(), kind) {
            return false;
        }
        let ghost key = (name@, kind);
        let ghost before = *self;
        self.entries.push(Entry { name, kind, value });
        proof {
            assert(self.keys() =~= before.keys().push(key));
            assert(self.values() =~= before.values().push(value));
            lemma_paired_push(before.keys(), before.values(), key, value);
        }
        true
    }

    /// Puts `value` at position `i`, under the key that stands there.
    pub fn set_value_at(&mut self, i: usize, value: T)
        requires
            old(self).wf(),
            i < old(self).keys().len(),
        ensures
            final(self).wf(),
            final(self).keys() == old(self).keys(),
            final(self).values() == old(self).values().update(i as int, value),
            final(self)@ == old(self)@.insert(old(self).keys()[i as int], value),
    {
        let ghost before = *self;
        self.entries[i].value = value;
        proof {
            assert(self.keys() =~= before.keys());
            assert(self.values() =~= before.values().update(i as int, value));
            lemma_paired_update(before.keys(), before.values(), i as int, value);
        }
    }

    /// Puts `value` under `(name, kind)`, in place of the value that the key
    /// had, or as a new key at the end.
    pub fn upsert(&mut self, name: &str, kind: UniformType, value: T)
        requires
            old(self).wf(),
        ensures
            final(self).wf(),
            final(self)@ == old(self)@.insert((name@, kind), value),
            old(self)@.contains_key((name@, kind)) ==> final(self).keys() == old(self).keys(),
            !old(self)@.contains_key((name@, kind)) ==> final(self).keys() == old(self).keys().push(
                (name@, kind),
            ),
    {
        match self.position(name, kind) {
            Some(i) => {
                self.set_value_at(i, value);
            },
            None => {
                let owned = name.to_owned();
                self.insert_if_absent(owned, kind, value);
            },
        }
    }

    /// The value of a held key is the one at the key's position.
    pub proof fn lemma_lookup(&self, i: int)
        requires
            self.wf(),
            0 <= i < self.keys().len(),
        ensures
            self@.contains_key(self.keys()[i]),
            self@[self.keys()[i]] == self.values()[i],
    {
        let keys = self.keys();
        assert(keys.contains(keys[i]));
        assert(keys.index_of(keys[i]) == i);
    }

    /// The number of keys fits in a `usize`.
    pub proof fn lemma_len_fits(&self)
        ensures
            self.keys().len() <= usize::MAX,
    {
        assert(self.entries.len() == self.entries@.len());
    }

    /// The keys of the map are exactly the keys of its view.
    pub proof fn lemma_domain(&self)
        ensures
            forall|key: KeyView| self@.contains_key(key) <==> self.keys().contains(key),
    {
    }
}

/// Pairing after a new key was appended is inserting it.
pub proof fn lemma_paired_push<T>(keys: Seq<KeyView>, values: Seq<T>, key: KeyView, value: T)
    requires
        keys.no_duplicates(),
        keys.len() == values.len(),
        !keys.contains(key),
    ensures
        keys.push(key).no_duplicates(),
        paired(keys.push(key), values.push(value)) == paired(keys, values).insert(key, value),
{
    let longer = keys.push(key);
    assert forall|i: int, j: int| 0 <= i < longer.len() && 0 <= j < longer.len() && i != j implies longer[i]
        != longer[j] by {
        if i < keys.len() {
            assert(keys.contains(longer[i]));
        }
        if j < keys.len() {
            assert(keys.contains(longer[j]));
        }
    }
    let left = paired(longer, values.push(value));
    let right = paired(keys, values).insert(key, value);
    assert forall|k: KeyView| left.contains_key(k) <==> right.contains_key(k) by {
        if keys.contains(k) {
            let i = keys.index_of(k);
            assert(longer[i] == k);
            assert(longer.contains(k));
        }
        if k == key {
            assert(longer[keys.len() as int] == k);
            assert(longer.contains(k));
        }
        if longer.contains(k) {
            let i = longer.index_of(k);
            if i < keys.len() {
                assert(keys[i] == k);
                assert(keys.contains(k));
            } else {
                assert(k == key);
            }
        }
    }
    assert forall|k: KeyView| left.contains_key(k) implies left[k] == right[k] by {
        let i = longer.index_of(k);
        if i < keys.len() {
            assert(keys[i] == k);
            assert(keys.index_of(k) == i);
        } else {
            assert(k == key);
        }
    }
    assert(left =~= right);
}

/// Pairing after the value at position `i` was replaced is inserting it under
/// the key at that position.
pub proof fn lemma_paired_update<T>(keys: Seq<KeyView>, values: Seq<T>, i: int, value: T)
    requires
        keys.no_duplicates(),
        keys.len() == values.len(),
        0 <= i < keys.len(),
    ensures
        paired(keys, values.update(i, value)) == paired(keys, values).insert(keys[i], value),
{
    let left = paired(keys, values.update(i, value));
    let right = paired(keys, values).insert(keys[i], value);
    assert(keys.contains(keys[i]));
    assert forall|k: KeyView| left.contains_key(k) implies left[k] == right[k] by {
        let j = keys.index_of(k);
        if j == i {
            assert(k == keys[i]);
        } else {
            assert(k != keys[i]);
        }
    }
    assert(left =~= right);
}

} // verus!
