//! Maps kept as a list of entries, for keys that are told apart by what they stand for.

use crate::json::{json_of, same_json, Json};
use serde_json::Value;
use vstd::prelude::*;

verus! {

/// A key of a [`KeyedList`].
pub trait Key: Sized {
    /// What a key stands for.
    type Model;

    /// What this key stands for.
    spec fn model(&self) -> Self::Model;

    /// Whether two keys stand for the same.
    fn same_key(&self, other: &Self) -> (same: bool)
        ensures
            same == (self.model() == other.model()),
    ;
}

impl Key for String {
    type Model = Seq<char>;

    open spec fn model(&self) -> Seq<char> {
        self@
    }

    fn same_key(&self, other: &String) -> (same: bool) {
        *self == *other
    }
}

impl Key for Value {
    type Model = Json;

    open spec fn model(&self) -> Json {
        json_of(*self)
    }

    fn same_key(&self, other: &Value) -> (same: bool) {
        same_json(self, other)
    }
}

/// A map from keys to values. No key occurs twice.
pub struct KeyedList<K, V> {
    entries: Vec<(K, V)>,
}

/// Whether a list of entries has one under `key`.
spec fn listed<K: Key, V>(entries: Seq<(K, V)>, key: K::Model) -> bool {
    exists|i: int| 0 <= i < entries.len() && (#[trigger] entries[i]).0.model() == key
}

/// The place of the entry under `key`.
spec fn place<K: Key, V>(entries: Seq<(K, V)>, key: K::Model) -> int {
    choose|i: int| 0 <= i < entries.len() && (#[trigger] entries[i]).0.model() == key
}

/// Whether no key occurs twice in a list of entries.
spec fn distinct<K: Key, V>(entries: Seq<(K, V)>) -> bool {
    forall|i: int, j: int|
        0 <= i < entries.len() && 0 <= j < entries.len() && (#[trigger] entries[i]).0.model() == (
        #[trigger] entries[j]).0.model() ==> i == j
}

/// The map that a list of entries stands for.
spec fn map_of<K: Key, V>(entries: Seq<(K, V)>) -> Map<K::Model, V> {
    Map::new(
        |key: K::Model| listed(entries, key),
        |key: K::Model| entries[place(entries, key)].1,
    )
}

impl<K: Key, V> View for KeyedList<K, V> {
    type V = Map<K::Model, V>;

    closed spec fn view(&self) -> Map<K::Model, V> {
        map_of(self.entries@)
    }
}

impl<K: Key, V> KeyedList<K, V> {
    /// No key occurs twice.
    pub closed spec fn wf(self) -> bool {
        distinct(self.entries@)
    }

    /// An empty map.
    pub fn new() -> (map: KeyedList<K, V>)
        ensures
            map.wf(),
            map@ == Map::<K::Model, V>::empty(),
    {
        let map = KeyedList { entries: Vec::new() };
        assert(map@ =~= Map::<K::Model, V>::empty());
        map
    }

    /// The place of the entry under `key`.
    fn position(&self, key: &K) -> (found: Option<usize>)
        ensures
            match found {
                Some(i) => {
                    &&& i < self.entries@.len()
                    &&& self.entries@[i as int].0.model() == key.model()
                },
                None => !listed(self.entries@, key.model()),
            },
    {
        let mut i: usize = 0;
        while i < self.entries.len()
            invariant
                i <= self.entries@.len(),
                forall|j: int|
                    0 <= j < i ==> (#[trigger] self.entries@[j]).0.model() != key.model(),
            decreases self.entries@.len() - i,
        {
            if self.entries[i].0.same_key(key) {
                return Some(i);
            }
            i = i + 1;
        }
        None
    }

    /// Whether there is an entry under `key`.
    pub fn contains_key(&self, key: &K) -> (found: bool)
        ensures
            found == self@.contains_key(key.model()),
    {
        self.position(key).is_some()
    }

    /// The value under `key`.
    pub fn get(&self, key: &K) -> (value: Option<&V>)
        requires
            self.wf(),
        ensures
            match value {
                Some(value) => self@.contains_key(key.model()) && self@[key.model()] == *value,
                None => !self@.contains_key(key.model()),
            },
    {
        match self.position(key) {
            Some(i) => {
                proof {
                    lemma_entry(self.entries@, i as int);
                }
                Some(&self.entries[i].1)
            },
            None => None,
        }
    }

    /// The value under `key`, to be changed in place.
    pub fn get_mut(&mut self, key: &K) -> (value: Option<&mut V>)
        requires
            old(self).wf(),
        ensures
            final(self).wf(),
            match value {
                Some(value) => {
                    &&& old(self)@.contains_key(key.model())
                    &&& old(self)@[key.model()] == *value
                    &&& final(self)@ == old(self)@.insert(key.model(), *final(value))
                },
                None => !old(self)@.contains_key(key.model()) && final(self)@ == old(self)@,
            },
    {
        match self.position(key) {
            Some(i) => {
                proof {
                    lemma_entry(self.entries@, i as int);
                    lemma_replaced(self.entries@, i as int);
                }
                Some(&mut self.entries[i].1)
            },
            None => None,
        }
    }

    /// Puts a value under `key`, in place of the one that was there.
    pub fn insert(&mut self, key: K, value: V)
        requires
            old(self).wf(),
        ensures
            final(self).wf(),
            final(self)@ == old(self)@.insert(key.model(), value),
    {
        match self.position(&key) {
            Some(i) => {
                proof {
                    lemma_replaced(self.entries@, i as int);
                }
                self.entries.set(i, (key, value));
            },
            None => {
                let ghost before = self.entries@;
                self.entries.push((key, value));
                proof {
                    lemma_added(before, (key, value));
                }
            },
        }
    }

    /// Takes the entry under `key` out of the map.
    pub fn remove(&mut self, key: &K) -> (removed: Option<V>)
        requires
            old(self).wf(),
        ensures
            final(self).wf(),
            final(self)@ == old(self)@.remove(key.model()),
            match removed {
                Some(value) => {
                    &&& old(self)@.contains_key(key.model())
                    &&& old(self)@[key.model()] == value
                },
                None => !old(self)@.contains_key(key.model()),
            },
    {
        match self.position(key) {
            Some(i) => {
                proof {
                    lemma_entry(self.entries@, i as int);
                    lemma_removed(self.entries@, i as int);
                }
                let (_, value) = self.entries.remove(i);
                Some(value)
            },
            None => {
                assert(self@.remove(key.model()) =~= self@);
                None
            },
        }
    }
}

/// An entry of the list is an entry of the map.
proof fn lemma_entry<K: Key, V>(entries: Seq<(K, V)>, i: int)
    requires
        distinct(entries),
        0 <= i < entries.len(),
    ensures
        map_of(entries).contains_key(entries[i].0.model()),
        map_of(entries)[entries[i].0.model()] == entries[i].1,
{
    assert(listed(entries, entries[i].0.model()));
}

/// Replacing an entry by one with the same key replaces the value in the map.
proof fn lemma_replaced<K: Key, V>(entries: Seq<(K, V)>, i: int)
    requires
        distinct(entries),
        0 <= i < entries.len(),
    ensures
        forall|entry: (K, V)|
            #![trigger entries.update(i, entry)]
            entry.0.model() == entries[i].0.model() ==> {
                &&& distinct(entries.update(i, entry))
                &&& map_of(entries.update(i, entry)) == map_of(entries).insert(
                    entry.0.model(),
                    entry.1,
                )
            },
{
    assert forall|entry: (K, V)|
        #![trigger entries.update(i, entry)]
        entry.0.model() == entries[i].0.model() implies {
        &&& distinct(entries.update(i, entry))
        &&& map_of(entries.update(i, entry)) == map_of(entries).insert(entry.0.model(), entry.1)
    } by {
        let after = entries.update(i, entry);
        assert(forall|j: int|
            0 <= j < entries.len() ==> (#[trigger] after[j]).0.model() == entries[j].0.model());
        lemma_entry(after, i);
        assert forall|key: K::Model| listed(after, key) == listed(entries, key) by {
            if listed(after, key) {
                let j = place(after, key);
                assert(entries[j].0.model() == key);
            }
            if listed(entries, key) {
                let j = place(entries, key);
                assert(after[j].0.model() == key);
            }
        }
        assert forall|key: K::Model| listed(after, key) implies map_of(after)[key] == map_of(
            entries,
        ).insert(entry.0.model(), entry.1)[key] by {
            let j = place(after, key);
            lemma_entry(after, j);
            lemma_entry(entries, j);
        }
        assert(map_of(after) =~= map_of(entries).insert(entry.0.model(), entry.1));
    }
}

/// Appending an entry with a new key adds it to the map.
proof fn lemma_added<K: Key, V>(entries: Seq<(K, V)>, entry: (K, V))
    requires
        distinct(entries),
        !listed(entries, entry.0.model()),
    ensures
        distinct(entries.push(entry)),
        map_of(entries.push(entry)) == map_of(entries).insert(entry.0.model(), entry.1),
{
    let after = entries.push(entry);
    assert(forall|j: int| 0 <= j < entries.len() ==> (#[trigger] after[j]) == entries[j]);
    assert(after[entries.len() as int] == entry);
    assert(distinct(after)) by {
        assert forall|i: int, j: int|
            0 <= i < after.len() && 0 <= j < after.len() && (#[trigger] after[i]).0.model() == (
            #[trigger] after[j]).0.model() implies i == j by {
            if i < entries.len() {
                assert(listed(entries, entries[i].0.model()));
            }
            if j < entries.len() {
                assert(listed(entries, entries[j].0.model()));
            }
        }
    }
    lemma_entry(after, entries.len() as int);
    assert forall|key: K::Model|
        listed(after, key) == (key == entry.0.model() || listed(entries, key)) by {
        if listed(entries, key) {
            assert(after[place(entries, key)].0.model() == key);
        }
        if listed(after, key) && key != entry.0.model() {
            assert(entries[place(after, key)].0.model() == key);
        }
    }
    assert forall|key: K::Model| listed(entries, key) implies map_of(after)[key] == map_of(
        entries,
    )[key] by {
        let j = place(entries, key);
        lemma_entry(after, j);
        lemma_entry(entries, j);
    }
    assert(map_of(after) =~= map_of(entries).insert(entry.0.model(), entry.1));
}

/// Taking an entry out of the list takes its key out of the map.
proof fn lemma_removed<K: Key, V>(entries: Seq<(K, V)>, i: int)
    requires
        distinct(entries),
        0 <= i < entries.len(),
    ensures
        distinct(entries.remove(i)),
        map_of(entries.remove(i)) == map_of(entries).remove(entries[i].0.model()),
{
    let after = entries.remove(i);
    assert(forall|j: int|
        0 <= j < after.len() ==> (#[trigger] after[j]) == entries[if j < i { j } else { j + 1 }]);
    assert forall|key: K::Model| listed(after, key) == (key != entries[i].0.model() && listed(
        entries,
        key,
    )) by {
        if listed(after, key) {
            let j = place(after, key);
            assert(entries[if j < i { j } else { j + 1 }].0.model() == key);
        }
        if listed(entries, key) && key != entries[i].0.model() {
            let j = place(entries, key);
            assert(after[if j < i { j } else { j - 1 }].0.model() == key);
        }
    }
    assert forall|key: K::Model| listed(after, key) implies map_of(after)[key] == map_of(
        entries,
    )[key] by {
        let j = place(after, key);
        lemma_entry(after, j);
        lemma_entry(entries, if j < i { j } else { j + 1 });
    }
    assert(map_of(after) =~= map_of(entries).remove(entries[i].0.model()));
}

} // verus!
