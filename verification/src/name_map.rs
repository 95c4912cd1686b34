//! A map from names to values, kept as a list in which no name occurs twice.

use vstd::prelude::*;

verus! {

/// One name of a [`NameMap`] with the value stored under it.
#[derive(Debug)]
struct Entry<V> {
    key: String,
    value: V,
}

/// A map keyed by name. Inserting under a name that is already present
/// replaces the value stored there.
#[derive(Debug)]
pub struct NameMap<V> {
    entries: Vec<Entry<V>>,
}

/// Whether no two entries have the same name.
spec fn distinct_keys<V>(entries: Seq<Entry<V>>) -> bool {
    forall|i: int, j: int|
        0 <= i < entries.len() && 0 <= j < entries.len() && i != j ==> entries[i].key@
            != entries[j].key@
}

/// Whether some entry is stored under `key`.
spec fn has_key<V>(entries: Seq<Entry<V>>, key: Seq<char>) -> bool {
    exists|i: int| 0 <= i < entries.len() && entries[i].key@ == key
}

/// The position of an entry stored under `key`.
spec fn index_of<V>(entries: Seq<Entry<V>>, key: Seq<char>) -> int {
    choose|i: int| 0 <= i < entries.len() && entries[i].key@ == key
}

/// The map that a list of entries with distinct names stands for.
spec fn map_of<V>(entries: Seq<Entry<V>>) -> Map<Seq<char>, V> {
    Map::new(
        |key: Seq<char>| has_key(entries, key),
        |key: Seq<char>| entries[index_of(entries, key)].value,
    )
}

/// Replacing the value of the entry at position `i` is an insertion under
/// that entry's name.
proof fn lemma_replace<V>(entries: Seq<Entry<V>>, i: int, value: V)
    requires
        distinct_keys(entries),
        0 <= i < entries.len(),
    ensures
        distinct_keys(entries.update(i, Entry { key: entries[i].key, value })),
        map_of(entries.update(i, Entry { key: entries[i].key, value })) == map_of(entries).insert(
            entries[i].key@,
            value,
        ),
{
    let key = entries[i].key@;
    let changed = entries.update(i, Entry { key: entries[i].key, value });
    assert forall|j: int| 0 <= j < entries.len() implies #[trigger] changed[j].key
        == entries[j].key by {}
    let after = map_of(changed);
    let wanted = map_of(entries).insert(key, value);
    assert forall|k: Seq<char>| after.contains_key(k) <==> wanted.contains_key(k) by {
        if after.contains_key(k) {
            let j = index_of(changed, k);
            assert(entries[j].key@ == k);
        }
        if map_of(entries).contains_key(k) {
            let j = index_of(entries, k);
            assert(changed[j].key@ == k);
        }
        if k == key {
            assert(changed[i].key@ == k);
        }
    }
    assert forall|k: Seq<char>| after.contains_key(k) implies after[k] == wanted[k] by {
        let j = index_of(changed, k);
        assert(entries[j].key@ == k);
        if k != key {
            assert(index_of(entries, k) == j);
        }
    }
    assert(after =~= wanted);
}

/// Adding an entry under a name that no entry has is an insertion.
proof fn lemma_append<V>(entries: Seq<Entry<V>>, entry: Entry<V>)
    requires
        distinct_keys(entries),
        !has_key(entries, entry.key@),
    ensures
        distinct_keys(entries.push(entry)),
        map_of(entries.push(entry)) == map_of(entries).insert(entry.key@, entry.value),
{
    let key = entry.key@;
    let grown = entries.push(entry);
    assert forall|j: int| 0 <= j < entries.len() implies #[trigger] grown[j] == entries[j] by {}
    let after = map_of(grown);
    let wanted = map_of(entries).insert(key, entry.value);
    assert forall|k: Seq<char>| after.contains_key(k) <==> wanted.contains_key(k) by {
        if after.contains_key(k) && k != key {
            let j = index_of(grown, k);
            assert(entries[j].key@ == k);
        }
        if map_of(entries).contains_key(k) {
            let j = index_of(entries, k);
            assert(grown[j].key@ == k);
        }
        if k == key {
            assert(grown[entries.len() as int].key@ == k);
        }
    }
    assert forall|k: Seq<char>| after.contains_key(k) implies after[k] == wanted[k] by {
        let j = index_of(grown, k);
        if k != key {
            assert(entries[j].key@ == k);
            assert(index_of(entries, k) == j);
        } else {
            assert(grown[entries.len() as int].key@ == k);
        }
    }
    assert(after =~= wanted);
}

/// The names of the entries, in the order in which they are kept.
spec fn key_seq<V>(entries: Seq<Entry<V>>) -> Seq<Seq<char>> {
    Seq::new(entries.len(), |i: int| entries[i].key@)
}

/// The values of a list of names.
pub open spec fn name_views(names: Seq<&String>) -> Seq<Seq<char>> {
    Seq::new(names.len(), |i: int| names[i]@)
}

impl<V> View for NameMap<V> {
    type V = Map<Seq<char>, V>;

    closed spec fn view(&self) -> Map<Seq<char>, V> {
        map_of(self.entries@)
    }
}

impl<V> NameMap<V> {
    /// No name occurs twice.
    pub closed spec fn wf(&self) -> bool {
        distinct_keys(self.entries@)
    }

    /// The entry at position `i` is what the map holds under that entry's name.
    proof fn lemma_entry(self, i: int)
        requires
            self.wf(),
            0 <= i < self.entries@.len(),
        ensures
            self@.contains_key(self.entries@[i].key@),
            self@[self.entries@[i].key@] == self.entries@[i].value,
    {
    }

    /// The names of the map are those of its entries, each once.
    proof fn lemma_names(self)
        requires
            self.wf(),
        ensures
            key_seq(self.entries@).no_duplicates(),
            key_seq(self.entries@).to_set() == self@.dom(),
            self@.dom().finite(),
            self@.dom().len() == self.entries@.len(),
    {
        let keys = key_seq(self.entries@);
        assert forall|k: Seq<char>| keys.to_set().contains(k) <==> self@.dom().contains(k) by {
            if keys.contains(k) {
                let i = choose|i: int| 0 <= i < keys.len() && keys[i] == k;
                assert(self.entries@[i].key@ == k);
            }
            if self@.dom().contains(k) {
                let i = index_of(self.entries@, k);
                assert(keys[i] == k);
            }
        }
        assert(keys.to_set() =~= self@.dom());
        vstd::seq_lib::seq_to_set_is_finite(keys);
        keys.unique_seq_to_set();
    }

    /// An empty map.
    pub fn new() -> (map: NameMap<V>)
        ensures
            map.wf(),
            map@ == Map::<Seq<char>, V>::empty(),
    {
        let map = NameMap { entries: Vec::new() };
        assert(map@ =~= Map::<Seq<char>, V>::empty());
        map
    }

    /// The position of the entry stored under `key`.
    fn position(&self, key: &str) -> (pos: Option<usize>)
        ensures
            match pos {
                Some(i) => i < self.entries@.len() && self.entries@[i as int].key@ == key@,
                None => !has_key(self.entries@, key@),
            },
    {
        let wanted = key.to_string();
        let mut i: usize = 0;
        while i < self.entries.len()
            invariant
                i <= self.entries.len(),
                wanted@ == key@,
                forall|j: int| 0 <= j < i ==> self.entries@[j].key@ != key@,
            decreases self.entries.len() - i,
        {
            if self.entries[i].key == wanted {
                return Some(i);
            }
            i += 1;
        }
        None
    }

    /// Whether a value is stored under `key`.
    pub fn contains_key(&self, key: &str) -> (found: bool)
        ensures
            found == self@.contains_key(key@),
    {
        self.position(key).is_some()
    }

    /// The value stored under `key`.
    pub fn get(&self, key: &str) -> (value: Option<&V>)
        requires
            self.wf(),
        ensures
            match value {
                Some(v) => self@.contains_key(key@) && self@[key@] == *v,
                None => !self@.contains_key(key@),
            },
    {
        match self.position(key) {
            Some(i) => {
                proof {
                    self.lemma_entry(i as int);
                }
                Some(&self.entries[i].value)
            },
            None => None,
        }
    }

    /// The number of names.
    pub fn len(&self) -> (n: usize)
        requires
            self.wf(),
        ensures
            self@.dom().finite(),
            n == self@.dom().len(),
    {
        proof {
            self.lemma_names();
        }
        self.entries.len()
    }

    /// The names of the map, each once.
    pub fn keys(&self) -> (names: Vec<&String>)
        requires
            self.wf(),
        ensures
            name_views(names@).no_duplicates(),
            name_views(names@).to_set() == self@.dom(),
    {
        let mut names: Vec<&String> = Vec::new();
        let mut i: usize = 0;
        while i < self.entries.len()
            invariant
                i <= self.entries.len(),
                names@.len() == i,
                forall|j: int| 0 <= j < i ==> names@[j]@ == self.entries@[j].key@,
            decreases self.entries.len() - i,
        {
            names.push(&self.entries[i].key);
            i += 1;
        }
        proof {
            assert(name_views(names@) =~= key_seq(self.entries@));
            self.lemma_names();
        }
        names
    }

    /// The value stored under `key`, for changing it in place.
    pub fn get_mut(&mut self, key: &str) -> (value: Option<&mut V>)
        requires
            old(self).wf(),
        ensures
            final(self).wf(),
            match value {
                Some(v) => {
                    &&& old(self)@.contains_key(key@)
                    &&& *v == old(self)@[key@]
                    &&& final(self)@ == old(self)@.insert(key@, *final(v))
                },
                None => !old(self)@.contains_key(key@) && final(self)@ == old(self)@,
            },
    {
        match self.position(key) {
            Some(i) => {
                proof {
                    self.lemma_entry(i as int);
                    assert forall|value: V|
                        distinct_keys(
                            #[trigger] self.entries@.update(
                                i as int,
                                Entry { key: self.entries@[i as int].key, value },
                            ),
                        ) && map_of(
                            self.entries@.update(
                                i as int,
                                Entry { key: self.entries@[i as int].key, value },
                            ),
                        ) == map_of(self.entries@).insert(key@, value) by {
                        lemma_replace(self.entries@, i as int, value);
                    }
                }
                Some(&mut self.entries[i].value)
            },
            None => None,
        }
    }

    /// Stores `value` under `key`, in place of what was stored there.
    pub fn insert(&mut self, key: String, value: V)
        requires
            old(self).wf(),
        ensures
            final(self).wf(),
            final(self)@ == old(self)@.insert(key@, value),
    {
        match self.position(key.as_str()) {
            Some(i) => {
                proof {
                    lemma_replace(self.entries@, i as int, value);
                    assert(self.entries@[i as int].key@ == key@);
                }
                self.entries[i].value = value;
            },
            None => {
                proof {
                    lemma_append(self.entries@, Entry { key, value });
                }
                self.entries.push(Entry { key, value });
            },
        }
    }
}

} // verus!
