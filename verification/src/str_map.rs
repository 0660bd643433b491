//! A map from strings to values that keeps its entries in the order in which
//! their keys first came.

use crate::text::same_str;
use vstd::prelude::*;

verus! {

/// One key with its value.
struct Entry<V> {
    key: String,
    value: V,
}

/// A map keyed by strings. No key occurs twice; a key that is inserted again
/// keeps its place.
pub struct StrMap<V> {
    entries: Vec<Entry<V>>,
}

/// Whether no element occurs twice in `keys`.
pub open spec fn all_distinct(keys: Seq<Seq<char>>) -> bool {
    forall|i: int, j: int| 0 <= i < j < keys.len() ==> keys[i] != keys[j]
}

/// The map that sends each key to the value at the same position.
pub open spec fn map_of<V>(keys: Seq<Seq<char>>, values: Seq<V>) -> Map<Seq<char>, V> {
    Map::new(|k: Seq<char>| keys.contains(k), |k: Seq<char>| values[keys.index_of(k)])
}

/// In a list without repetition, the position of an element is the one
/// position at which it stands.
pub proof fn lemma_position(keys: Seq<Seq<char>>, i: int)
    requires
        all_distinct(keys),
        0 <= i < keys.len(),
    ensures
        keys.contains(keys[i]),
        keys.index_of(keys[i]) == i,
{
    let j = keys.index_of(keys[i]);
    assert(0 <= j < keys.len() && keys[j] == keys[i]);
    if j < i {
        assert(keys[j] != keys[i]);
    } else if i < j {
        assert(keys[i] != keys[j]);
    }
}

/// Putting a value under a key that is there changes the map at that key.
pub proof fn lemma_map_of_update<V>(keys: Seq<Seq<char>>, values: Seq<V>, i: int, value: V)
    requires
        all_distinct(keys),
        keys.len() == values.len(),
        0 <= i < keys.len(),
    ensures
        map_of(keys, values.update(i, value)) == map_of(keys, values).insert(keys[i], value),
{
    let a = map_of(keys, values.update(i, value));
    let b = map_of(keys, values).insert(keys[i], value);
    lemma_position(keys, i);
    assert forall|k: Seq<char>| a.contains_key(k) implies a[k] == b[k] by {
        let j = keys.index_of(k);
        assert(0 <= j < keys.len() && keys[j] == k);
        lemma_position(keys, j);
    }
    assert(a =~= b);
}

/// Adding a new key with its value at the end adds it to the map.
pub proof fn lemma_map_of_push<V>(keys: Seq<Seq<char>>, values: Seq<V>, key: Seq<char>, value: V)
    requires
        all_distinct(keys),
        keys.len() == values.len(),
        !keys.contains(key),
    ensures
        all_distinct(keys.push(key)),
        map_of(keys.push(key), values.push(value)) == map_of(keys, values).insert(key, value),
{
    let keys2 = keys.push(key);
    let values2 = values.push(value);
    assert forall|i: int, j: int| 0 <= i < j < keys2.len() implies keys2[i] != keys2[j] by {
        if j == keys.len() {
            if keys2[i] == key {
                assert(keys[i] == key);
                assert(keys.contains(key));
            }
        }
    }
    let a = map_of(keys2, values2);
    let b = map_of(keys, values).insert(key, value);
    assert forall|k: Seq<char>| a.contains_key(k) == b.contains_key(k) by {
        if keys2.contains(k) {
            let j = keys2.index_of(k);
            assert(0 <= j < keys2.len() && keys2[j] == k);
            if j < keys.len() {
                assert(keys[j] == k);
            }
        }
        if keys.contains(k) {
            let j = keys.index_of(k);
            assert(keys2[j] == k);
        }
        if k == key {
            assert(keys2[keys.len() as int] == k);
        }
    }
    assert forall|k: Seq<char>| a.contains_key(k) implies a[k] == b[k] by {
        let j = keys2.index_of(k);
        assert(0 <= j < keys2.len() && keys2[j] == k);
        lemma_position(keys2, j);
        if j < keys.len() {
            assert(keys[j] == k);
            lemma_position(keys, j);
        }
    }
    assert(a =~= b);
}

/// Taking out the entry at a position takes its key out of the map.
pub proof fn lemma_map_of_remove<V>(keys: Seq<Seq<char>>, values: Seq<V>, i: int)
    requires
        all_distinct(keys),
        keys.len() == values.len(),
        0 <= i < keys.len(),
    ensures
        all_distinct(keys.remove(i)),
        !keys.remove(i).contains(keys[i]),
        map_of(keys.remove(i), values.remove(i)) == map_of(keys, values).remove(keys[i]),
{
    let keys2 = keys.remove(i);
    let values2 = values.remove(i);
    assert forall|a: int, b: int| 0 <= a < b < keys2.len() implies keys2[a] != keys2[b] by {
        let a0 = if a < i { a } else { a + 1 };
        let b0 = if b < i { b } else { b + 1 };
        assert(keys2[a] == keys[a0] && keys2[b] == keys[b0]);
    }
    if keys2.contains(keys[i]) {
        let j = keys2.index_of(keys[i]);
        assert(0 <= j < keys2.len() && keys2[j] == keys[i]);
        let j0 = if j < i { j } else { j + 1 };
        assert(keys[j0] == keys[i]);
        if j0 < i {
            assert(keys[j0] != keys[i]);
        } else {
            assert(keys[i] != keys[j0]);
        }
    }
    let a = map_of(keys2, values2);
    let b = map_of(keys, values).remove(keys[i]);
    assert forall|k: Seq<char>| a.contains_key(k) == b.contains_key(k) by {
        if keys2.contains(k) {
            let j = keys2.index_of(k);
            assert(0 <= j < keys2.len() && keys2[j] == k);
            let j0 = if j < i { j } else { j + 1 };
            assert(keys[j0] == k);
        }
        if keys.contains(k) && k != keys[i] {
            let j0 = keys.index_of(k);
            assert(0 <= j0 < keys.len() && keys[j0] == k);
            let j = if j0 < i { j0 } else { j0 - 1 };
            assert(keys2[j] == k);
        }
    }
    assert forall|k: Seq<char>| a.contains_key(k) implies a[k] == b[k] by {
        let j = keys2.index_of(k);
        assert(0 <= j < keys2.len() && keys2[j] == k);
        lemma_position(keys2, j);
        let j0 = if j < i { j } else { j + 1 };
        assert(keys[j0] == k);
        lemma_position(keys, j0);
    }
    assert(a =~= b);
}

impl<V> StrMap<V> {
    /// The keys, in the order in which they first came.
    pub closed spec fn keys(&self) -> Seq<Seq<char>> {
        Seq::new(self.entries@.len(), |i: int| self.entries@[i].key@)
    }

    /// The values, each at the position of its key.
    pub closed spec fn values(&self) -> Seq<V> {
        Seq::new(self.entries@.len(), |i: int| self.entries@[i].value)
    }

    /// Whether the keys and values pair up and no key occurs twice. Every
    /// operation asks for it and keeps it.
    pub open spec fn wf(&self) -> bool {
        self.keys().len() == self.values().len() && all_distinct(self.keys())
    }

    /// The map as such: each key with its value.
    pub open spec fn view(&self) -> Map<Seq<char>, V> {
        map_of(self.keys(), self.values())
    }

    /// An empty map.
    pub fn new() -> (map: Self)
        ensures
            map.wf(),
            map.keys() == Seq::<Seq<char>>::empty(),
            map.values() == Seq::<V>::empty(),
            map@ == Map::<Seq<char>, V>::empty(),
    {
        let map = StrMap { entries: Vec::new() };
        assert(map.keys() =~= Seq::<Seq<char>>::empty());
        assert(map.values() =~= Seq::<V>::empty());
        assert(map@ =~= Map::<Seq<char>, V>::empty());
        map
    }

    /// Number of keys.
    pub fn len(&self) -> (n: usize)
        requires
            self.wf(),
        ensures
            n == self.keys().len(),
            n == self@.len(),
            self@.dom().finite(),
    {
        proof {
            self.lemma_dom();
        }
        self.entries.len()
    }

    /// The domain of the view is the set of the keys, which are as many as
    /// the list is long.
    proof fn lemma_dom(&self)
        requires
            all_distinct(self.keys()),
        ensures
            self@.dom() == self.keys().to_set(),
            self@.dom().finite(),
            self@.len() == self.keys().len(),
    {
        assert(self@.dom() =~= self.keys().to_set());
        self.keys().unique_seq_to_set();
        vstd::seq_lib::seq_to_set_is_finite(self.keys());
        assert(self.keys().no_duplicates());
    }

    /// Whether the map has no keys.
    pub fn is_empty(&self) -> (empty: bool)
        requires
            self.wf(),
        ensures
            empty == (self.keys().len() == 0),
    {
        self.entries.len() == 0
    }

    /// Where `key` stands among the keys, if it is one.
    pub fn position(&self, key: &str) -> (at: Option<usize>)
        requires
            self.wf(),
        ensures
            match at {
                Some(i) => i < self.keys().len() && self.keys()[i as int] == key@
                    && self.keys().index_of(key@) == i && self@.contains_key(key@),
                None => !self.keys().contains(key@) && !self@.contains_key(key@),
            },
    {
        let n = self.entries.len();
        let mut i: usize = 0;
        while i < n
            invariant
                self.wf(),
                n == self.entries@.len(),
                i <= n,
                forall|j: int| 0 <= j < i ==> self.entries@[j].key@ != key@,
            decreases n - i,
        {
            if same_str(self.entries[i].key.as_str(), key) {
                proof {
                    assert(self.keys()[i as int] == key@);
                    lemma_position(self.keys(), i as int);
                }
                return Some(i);
            }
            i += 1;
        }
        proof {
            if self.keys().contains(key@) {
                let j = self.keys().index_of(key@);
                assert(self.entries@[j].key@ == key@);
            }
        }
        None
    }

    /// Whether `key` is one of the keys.
    pub fn contains_key(&self, key: &str) -> (found: bool)
        requires
            self.wf(),
        ensures
            found == self@.contains_key(key@),
    {
        self.position(key).is_some()
    }

    /// The value under `key`, if there is one.
    pub fn get(&self, key: &str) -> (value: Option<&V>)
        requires
            self.wf(),
        ensures
            match value {
                Some(v) => self@.contains_key(key@) && *v == self@[key@],
                None => !self@.contains_key(key@),
            },
    {
        match self.position(key) {
            Some(i) => Some(&self.entries[i].value),
            None => None,
        }
    }

    /// The key at position `at`.
    pub fn key_at(&self, at: usize) -> (key: &String)
        requires
            self.wf(),
            at < self.keys().len(),
        ensures
            key@ == self.keys()[at as int],
    {
        &self.entries[at].key
    }

    /// The value at position `at`.
    pub fn value_at(&self, at: usize) -> (value: &V)
        requires
            self.wf(),
            at < self.keys().len(),
        ensures
            *value == self.values()[at as int],
            self@.contains_key(self.keys()[at as int]),
            *value == self@[self.keys()[at as int]],
    {
        proof {
            lemma_position(self.keys(), at as int);
        }
        &self.entries[at].value
    }

    /// Puts `value` under `key`. A key that is there keeps its place and
    /// hands back its old value; a new key goes to the end.
    pub fn insert(&mut self, key: String, value: V) -> (old_value: Option<V>)
        requires
            old(self).wf(),
        ensures
            final(self).wf(),
            final(self)@ == old(self)@.insert(key@, value),
            match old_value {
                Some(v) => old(self)@.contains_key(key@) && v == old(self)@[key@]
                    && final(self).keys() == old(self).keys()
                    && final(self).values() == old(self).values().update(
                    old(self).keys().index_of(key@),
                    value,
                ),
                None => !old(self)@.contains_key(key@)
                    && final(self).keys() == old(self).keys().push(key@)
                    && final(self).values() == old(self).values().push(value),
            },
    {
        let ghost keys = self.keys();
        let ghost values = self.values();
        match self.position(key.as_str()) {
            Some(i) => {
                let old_entry = self.entries.remove(i);
                self.entries.insert(i, Entry { key, value });
                proof {
                    assert(self.keys() =~= keys);
                    assert(self.values() =~= values.update(i as int, value));
                    lemma_map_of_update(keys, values, i as int, value);
                    lemma_position(keys, i as int);
                }
                Some(old_entry.value)
            },
            None => {
                self.entries.push(Entry { key, value });
                proof {
                    assert(self.keys() =~= keys.push(key@));
                    assert(self.values() =~= values.push(value));
                    lemma_map_of_push(keys, values, key@, value);
                }
                None
            },
        }
    }

    /// Takes `key` out and hands back its value, if it is a key. The other
    /// keys keep their order.
    pub fn remove(&mut self, key: &str) -> (old_value: Option<V>)
        requires
            old(self).wf(),
        ensures
            final(self).wf(),
            final(self)@ == old(self)@.remove(key@),
            match old_value {
                Some(v) => old(self)@.contains_key(key@) && v == old(self)@[key@]
                    && final(self).keys() == old(self).keys().remove(old(self).keys().index_of(key@))
                    && final(self).values() == old(self).values().remove(old(self).keys().index_of(key@)),
                None => !old(self)@.contains_key(key@) && final(self).keys() == old(self).keys()
                    && final(self).values() == old(self).values(),
            },
    {
        let ghost keys = self.keys();
        let ghost values = self.values();
        match self.position(key) {
            Some(i) => {
                let old_entry = self.entries.remove(i);
                proof {
                    assert(self.keys() =~= keys.remove(i as int));
                    assert(self.values() =~= values.remove(i as int));
                    lemma_map_of_remove(keys, values, i as int);
                    lemma_position(keys, i as int);
                }
                Some(old_entry.value)
            },
            None => {
                proof {
                    assert(self@ =~= old(self)@.remove(key@));
                }
                None
            },
        }
    }

    /// Puts `value` at position `at` and hands back the value that was there.
    pub fn replace_at(&mut self, at: usize, value: V) -> (old_value: V)
        requires
            old(self).wf(),
            at < old(self).keys().len(),
        ensures
            final(self).wf(),
            old_value == old(self).values()[at as int],
            final(self).keys() == old(self).keys(),
            final(self).values() == old(self).values().update(at as int, value),
            final(self)@ == old(self)@.insert(old(self).keys()[at as int], value),
    {
        let ghost keys = self.keys();
        let ghost values = self.values();
        let old_entry = self.entries.remove(at);
        self.entries.insert(at, Entry { key: old_entry.key, value });
        proof {
            assert(self.keys() =~= keys);
            assert(self.values() =~= values.update(at as int, value));
            lemma_map_of_update(keys, values, at as int, value);
        }
        old_entry.value
    }

    /// Takes out the entry at position `at` and hands back its value.
    pub fn remove_at(&mut self, at: usize) -> (old_value: V)
        requires
            old(self).wf(),
            at < old(self).keys().len(),
        ensures
            final(self).wf(),
            old_value == old(self).values()[at as int],
            final(self).keys() == old(self).keys().remove(at as int),
            final(self).values() == old(self).values().remove(at as int),
            final(self)@ == old(self)@.remove(old(self).keys()[at as int]),
    {
        let ghost keys = self.keys();
        let ghost values = self.values();
        let old_entry = self.entries.remove(at);
        proof {
            assert(self.keys() =~= keys.remove(at as int));
            assert(self.values() =~= values.remove(at as int));
            lemma_map_of_remove(keys, values, at as int);
        }
        old_entry.value
    }

    /// Takes out every entry.
    pub fn clear(&mut self)
        requires
            old(self).wf(),
        ensures
            final(self).wf(),
            final(self).keys() == Seq::<Seq<char>>::empty(),
            final(self).values() == Seq::<V>::empty(),
            final(self)@ == Map::<Seq<char>, V>::empty(),
    {
        self.entries.clear();
        proof {
            assert(self.keys() =~= Seq::<Seq<char>>::empty());
            assert(self.values() =~= Seq::<V>::empty());
            assert(self@ =~= Map::<Seq<char>, V>::empty());
        }
    }
}

} // verus!
