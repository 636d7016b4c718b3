//! A small map that keeps its entries in a vector, in the order in which their
//! keys first came, and never holds a key twice.

use vstd::prelude::*;

verus! {

/// A type that can key an [`AssocMap`]: it is copied freely and two values can
/// be told apart at run time.
pub trait Key: Copy {
    /// Whether `self` and `other` are the same key.
    fn same(&self, other: &Self) -> (eq: bool)
        ensures
            eq == (*self == *other),
    ;
}

/// The map that a sequence of distinct keys and the sequence of their values
/// stand for: `keys[i]` is mapped to `values[i]`.
pub open spec fn pairs_to_map<K, V>(keys: Seq<K>, values: Seq<V>) -> Map<K, V> {
    Map::new(|k: K| keys.contains(k), |k: K| values[keys.index_of(k)])
}

/// In a sequence without duplicates an item is found at its own place.
pub proof fn lemma_index_of_distinct<K>(keys: Seq<K>, i: int)
    requires
        keys.no_duplicates(),
        0 <= i < keys.len(),
    ensures
        keys.contains(keys[i]),
        keys.index_of(keys[i]) == i,
{
    let j = keys.index_of(keys[i]);
    assert(0 <= j < keys.len() && keys[j] == keys[i]);
}

/// The domain of the map is the set of the keys: finite, and as large as the
/// sequence is long.
pub proof fn lemma_pairs_domain<K, V>(keys: Seq<K>, values: Seq<V>)
    requires
        keys.no_duplicates(),
    ensures
        pairs_to_map(keys, values).dom() == keys.to_set(),
        pairs_to_map(keys, values).dom().finite(),
        pairs_to_map(keys, values).dom().len() == keys.len(),
{
    assert(pairs_to_map(keys, values).dom() =~= keys.to_set());
    keys.unique_seq_to_set();
    vstd::seq_lib::seq_to_set_is_finite(keys);
}

/// A new key at the end of the sequences is one more entry in the map.
pub proof fn lemma_pairs_push<K, V>(keys: Seq<K>, values: Seq<V>, key: K, value: V)
    requires
        keys.no_duplicates(),
        keys.len() == values.len(),
        !keys.contains(key),
    ensures
        keys.push(key).no_duplicates(),
        pairs_to_map(keys.push(key), values.push(value)) == pairs_to_map(keys, values).insert(
            key,
            value,
        ),
{
    let keys2 = keys.push(key);
    let values2 = values.push(value);
    assert(keys2.no_duplicates()) by {
        assert forall|i: int, j: int|
            0 <= i < keys2.len() && 0 <= j < keys2.len() && i != j implies keys2[i] != keys2[j] by {
            if i < keys.len() && j < keys.len() {
            } else if i < keys.len() {
                assert(keys.contains(keys[i]));
            } else {
                assert(keys.contains(keys[j]));
            }
        }
    }
    let left = pairs_to_map(keys2, values2);
    let right = pairs_to_map(keys, values).insert(key, value);
    assert forall|k: K| left.dom().contains(k) <==> right.dom().contains(k) by {
        if keys2.contains(k) {
            let i = keys2.index_of(k);
            if i < keys.len() {
                assert(keys[i] == k);
            }
        }
        if keys.contains(k) {
            let i = keys.index_of(k);
            assert(keys2[i] == k);
        }
        if k == key {
            assert(keys2[keys.len() as int] == k);
        }
    }
    assert forall|k: K| #[trigger] left.dom().contains(k) implies left[k] == right[k] by {
        let i = keys2.index_of(k);
        lemma_index_of_distinct(keys2, i);
        if i < keys.len() {
            lemma_index_of_distinct(keys, i);
            assert(keys[i] == k);
        }
    }
    assert(left =~= right);
}

/// A new value at the place of a key replaces that key's value in the map.
pub proof fn lemma_pairs_update<K, V>(keys: Seq<K>, values: Seq<V>, i: int, value: V)
    requires
        keys.no_duplicates(),
        keys.len() == values.len(),
        0 <= i < keys.len(),
    ensures
        pairs_to_map(keys, values.update(i, value)) == pairs_to_map(keys, values).insert(
            keys[i],
            value,
        ),
{
    let left = pairs_to_map(keys, values.update(i, value));
    let right = pairs_to_map(keys, values).insert(keys[i], value);
    lemma_index_of_distinct(keys, i);
    assert forall|k: K| #[trigger] left.dom().contains(k) implies left[k] == right[k] by {
        let j = keys.index_of(k);
        lemma_index_of_distinct(keys, j);
    }
    assert(left =~= right);
}

/// Taking a key and its value out of the sequences takes the key out of the
/// map.
pub proof fn lemma_pairs_remove<K, V>(keys: Seq<K>, values: Seq<V>, i: int)
    requires
        keys.no_duplicates(),
        keys.len() == values.len(),
        0 <= i < keys.len(),
    ensures
        keys.remove(i).no_duplicates(),
        pairs_to_map(keys.remove(i), values.remove(i)) == pairs_to_map(keys, values).remove(
            keys[i],
        ),
{
    let keys2 = keys.remove(i);
    let values2 = values.remove(i);
    assert(keys2.no_duplicates()) by {
        assert forall|a: int, b: int|
            0 <= a < keys2.len() && 0 <= b < keys2.len() && a != b implies keys2[a] != keys2[b] by {
            let a0 = if a < i { a } else { a + 1 };
            let b0 = if b < i { b } else { b + 1 };
            assert(keys2[a] == keys[a0] && keys2[b] == keys[b0]);
        }
    }
    let left = pairs_to_map(keys2, values2);
    let right = pairs_to_map(keys, values).remove(keys[i]);
    assert forall|k: K| left.dom().contains(k) <==> right.dom().contains(k) by {
        if keys2.contains(k) {
            let a = keys2.index_of(k);
            let a0 = if a < i { a } else { a + 1 };
            assert(keys[a0] == k);
        }
        if keys.contains(k) && k != keys[i] {
            let a0 = keys.index_of(k);
            let a = if a0 < i { a0 } else { a0 - 1 };
            assert(keys2[a] == k);
        }
    }
    assert forall|k: K| #[trigger] left.dom().contains(k) implies left[k] == right[k] by {
        let a = keys2.index_of(k);
        lemma_index_of_distinct(keys2, a);
        let a0 = if a < i { a } else { a + 1 };
        assert(keys[a0] == k);
        lemma_index_of_distinct(keys, a0);
    }
    assert(left =~= right);
}

/// One key with its value.
struct Entry<K, V> {
    key: K,
    value: V,
}

/// The keys of a sequence of entries.
spec fn entry_keys<K, V>(entries: Seq<Entry<K, V>>) -> Seq<K> {
    Seq::new(entries.len(), |i: int| entries[i].key)
}

/// The values of a sequence of entries.
spec fn entry_values<K, V>(entries: Seq<Entry<K, V>>) -> Seq<V> {
    Seq::new(entries.len(), |i: int| entries[i].value)
}

/// A map from `K` to `V` that remembers the order in which its keys came.
///
/// Its model is the sequence of its keys, which holds no key twice, and the
/// sequence of their values; its view is the map that the two stand for.
pub struct AssocMap<K: Key, V> {
    entries: Vec<Entry<K, V>>,
}

impl<K: Key, V> AssocMap<K, V> {
    /// The keys, oldest first.
    pub closed spec fn keys(&self) -> Seq<K> {
        entry_keys(self.entries@)
    }

    /// The values, each at the place of its key.
    pub closed spec fn values(&self) -> Seq<V> {
        entry_values(self.entries@)
    }

    /// What holds of every map: no key occurs twice, and every key has its
    /// value.
    #[verifier::type_invariant]
    pub open spec fn well_formed(&self) -> bool {
        &&& self.keys().no_duplicates()
        &&& self.keys().len() == self.values().len()
    }

    /// The map from each key to its value.
    pub open spec fn view(&self) -> Map<K, V> {
        pairs_to_map(self.keys(), self.values())
    }

    /// The empty map.
    pub fn new() -> (map: Self)
        ensures
            map.keys() == Seq::<K>::empty(),
            map.values() == Seq::<V>::empty(),
            map@ == Map::<K, V>::empty(),
    {
        let map = AssocMap { entries: Vec::new() };
        assert(map.keys() =~= Seq::<K>::empty());
        assert(map.values() =~= Seq::<V>::empty());
        assert(map@ =~= Map::<K, V>::empty());
        map
    }

    /// The number of entries.
    pub fn len(&self) -> (n: usize)
        ensures
            n == self.keys().len(),
            n == self.values().len(),
            self@.dom().finite(),
            n == self@.dom().len(),
    {
        proof {
            use_type_invariant(self);
            lemma_pairs_domain(self.keys(), self.values());
        }
        self.entries.len()
    }

    /// The place of `key` among the keys, if it is one of them.
    pub fn position(&self, key: &K) -> (found: Option<usize>)
        ensures
            match found {
                Some(i) => i < self.keys().len() && self.keys()[i as int] == *key,
                None => !self.keys().contains(*key),
            },
            found is Some <==> self@.contains_key(*key),
    {
        let mut i: usize = 0;
        while i < self.entries.len()
            invariant
                i <= self.entries@.len(),
                forall|j: int| 0 <= j < i ==> self.keys()[j] != *key,
            decreases self.entries@.len() - i,
        {
            if self.entries[i].key.same(key) {
                assert(self.keys()[i as int] == *key);
                return Some(i);
            }
            i += 1;
        }
        None
    }

    /// Whether `key` has an entry.
    pub fn contains_key(&self, key: &K) -> (found: bool)
        ensures
            found == self@.contains_key(*key),
    {
        self.position(key).is_some()
    }

    /// The entry at place `i`, if the map has that many entries.
    pub fn entry_at(&self, i: usize) -> (entry: Option<(K, &V)>)
        ensures
            match entry {
                Some((key, value)) => {
                    &&& i < self.keys().len()
                    &&& key == self.keys()[i as int]
                    &&& *value == self.values()[i as int]
                    &&& self@.contains_key(key)
                    &&& self@[key] == *value
                },
                None => i >= self.keys().len(),
            },
    {
        if i < self.entries.len() {
            proof {
                use_type_invariant(self);
                lemma_index_of_distinct(self.keys(), i as int);
            }
            Some((self.entries[i].key, &self.entries[i].value))
        } else {
            None
        }
    }

    /// The value of `key`, if it has one.
    pub fn get(&self, key: &K) -> (value: Option<&V>)
        ensures
            match value {
                Some(v) => self@.contains_key(*key) && *v == self@[*key],
                None => !self@.contains_key(*key),
            },
    {
        match self.position(key) {
            Some(i) => {
                proof {
                    use_type_invariant(self);
                    lemma_index_of_distinct(self.keys(), i as int);
                }
                Some(&self.entries[i].value)
            },
            None => None,
        }
    }

    /// Maps `key` to `value`. A key that is already there keeps its place and
    /// gives up its old value, which is returned; a new key goes to the end.
    pub fn insert(&mut self, key: K, value: V) -> (previous: Option<V>)
        ensures
            final(self)@ == old(self)@.insert(key, value),
            match previous {
                Some(v) => old(self)@.contains_key(key) && v == old(self)@[key],
                None => !old(self)@.contains_key(key),
            },
            old(self).keys().contains(key) ==> final(self).keys() == old(self).keys()
                && final(self).values() == old(self).values().update(
                old(self).keys().index_of(key),
                value,
            ),
            !old(self).keys().contains(key) ==> final(self).keys() == old(self).keys().push(key)
                && final(self).values() == old(self).values().push(value),
    {
        proof {
            use_type_invariant(&*self);
        }
        let ghost keys = self.keys();
        let ghost values = self.values();
        match self.position(&key) {
            Some(i) => {
                proof {
                    lemma_index_of_distinct(keys, i as int);
                    lemma_pairs_update(keys, values, i as int, value);
                }
                let mut entries = Vec::new();
                std::mem::swap(&mut entries, &mut self.entries);
                let mut slot = Entry { key, value };
                std::mem::swap(&mut slot, &mut entries[i]);
                assert(entry_keys(entries@) =~= keys);
                assert(entry_values(entries@) =~= values.update(i as int, value));
                self.entries = entries;
                Some(slot.value)
            },
            None => {
                proof {
                    lemma_pairs_push(keys, values, key, value);
                }
                let mut entries = Vec::new();
                std::mem::swap(&mut entries, &mut self.entries);
                entries.push(Entry { key, value });
                assert(entry_keys(entries@) =~= keys.push(key));
                assert(entry_values(entries@) =~= values.push(value));
                self.entries = entries;
                None
            },
        }
    }

    /// Takes `key` out of the map and returns its value; the keys that stay
    /// keep their order. Nothing changes if `key` has no entry.
    pub fn remove(&mut self, key: &K) -> (removed: Option<V>)
        ensures
            final(self)@ == old(self)@.remove(*key),
            match removed {
                Some(v) => old(self)@.contains_key(*key) && v == old(self)@[*key],
                None => !old(self)@.contains_key(*key),
            },
            old(self).keys().contains(*key) ==> final(self).keys() == old(self).keys().remove(
                old(self).keys().index_of(*key),
            ) && final(self).values() == old(self).values().remove(
                old(self).keys().index_of(*key),
            ),
            !old(self).keys().contains(*key) ==> final(self).keys() == old(self).keys()
                && final(self).values() == old(self).values(),
    {
        proof {
            use_type_invariant(&*self);
        }
        let ghost keys = self.keys();
        let ghost values = self.values();
        match self.position(key) {
            Some(i) => {
                proof {
                    lemma_index_of_distinct(keys, i as int);
                    lemma_pairs_remove(keys, values, i as int);
                }
                let mut entries = Vec::new();
                std::mem::swap(&mut entries, &mut self.entries);
                let entry = entries.remove(i);
                assert(entry_keys(entries@) =~= keys.remove(i as int));
                assert(entry_values(entries@) =~= values.remove(i as int));
                self.entries = entries;
                Some(entry.value)
            },
            None => {
                assert(self@ =~= self@.remove(*key));
                None
            },
        }
    }
}

impl<K: Key, V: Clone> Clone for AssocMap<K, V> {
    /// A map with the same keys in the same order, each with a clone of its
    /// value.
    fn clone(&self) -> (copy: Self)
        ensures
            copy.keys() == self.keys(),
            copy.values().len() == self.values().len(),
            forall|i: int|
                0 <= i < self.values().len() ==> cloned::<V>(
                    #[trigger] self.values()[i],
                    copy.values()[i],
                ),
    {
        proof {
            use_type_invariant(self);
        }
        let mut entries: Vec<Entry<K, V>> = Vec::new();
        let mut i: usize = 0;
        while i < self.entries.len()
            invariant
                i <= self.entries@.len(),
                entries@.len() == i,
                forall|j: int| 0 <= j < i ==> entries@[j].key == self.entries@[j].key,
                forall|j: int|
                    0 <= j < i ==> cloned::<V>(
                        self.entries@[j].value,
                        #[trigger] entries@[j].value,
                    ),
            decreases self.entries@.len() - i,
        {
            let entry = &self.entries[i];
            entries.push(Entry { key: entry.key, value: entry.value.clone() });
            i += 1;
        }
        assert(entry_keys(entries@) =~= self.keys());
        AssocMap { entries }
    }
}

} // verus!
