//! A small map from keys of global state to values of one kind, kept as a
//! list in which no key occurs twice.

use crate::key::Key;
use vstd::prelude::*;

verus! {

/// The map that a list of entries stands for: each entry put into the map in
/// turn, so that of two entries with one key the later would win.
pub open spec fn map_of<V>(entries: Seq<(Key, V)>) -> Map<Key, V>
    decreases entries.len(),
{
    if entries.len() == 0 {
        Map::empty()
    } else {
        map_of(entries.drop_last()).insert(entries.last().0, entries.last().1)
    }
}

/// No key occurs twice in `entries`.
pub open spec fn distinct_keys<V>(entries: Seq<(Key, V)>) -> bool {
    forall|i: int, j: int| 0 <= i < j < entries.len() ==> entries[i].0 != entries[j].0
}

/// A key is in the map of a list exactly if some entry holds it.
pub proof fn lemma_map_of_domain<V>(entries: Seq<(Key, V)>, key: Key)
    ensures
        map_of(entries).contains_key(key) <==> exists|i: int|
            0 <= i < entries.len() && entries[i].0 == key,
    decreases entries.len(),
{
    if entries.len() > 0 {
        let front = entries.drop_last();
        lemma_map_of_domain(front, key);
        if map_of(entries).contains_key(key) {
            if entries.last().0 == key {
                assert(entries[entries.len() - 1].0 == key);
            } else {
                let i = choose|i: int| 0 <= i < front.len() && front[i].0 == key;
                assert(entries[i].0 == key);
            }
        }
        if exists|i: int| 0 <= i < entries.len() && entries[i].0 == key {
            let i = choose|i: int| 0 <= i < entries.len() && entries[i].0 == key;
            if i < entries.len() - 1 {
                assert(front[i].0 == key);
            }
        }
    }
}

/// With no key twice, the map of a list gives each entry's key that entry's
/// value.
pub proof fn lemma_map_of_entry<V>(entries: Seq<(Key, V)>, i: int)
    requires
        distinct_keys(entries),
        0 <= i < entries.len(),
    ensures
        map_of(entries).contains_key(entries[i].0),
        map_of(entries)[entries[i].0] == entries[i].1,
    decreases entries.len(),
{
    let front = entries.drop_last();
    if i < entries.len() - 1 {
        assert(distinct_keys(front)) by {
            assert forall|a: int, b: int| 0 <= a < b < front.len() implies front[a].0
                != front[b].0 by {
                assert(entries[a].0 != entries[b].0);
            }
        }
        lemma_map_of_entry(front, i);
        assert(front[i] == entries[i]);
        assert(entries[i].0 != entries[entries.len() - 1].0);
    }
}

/// The map of a list is finite, and with no key twice it has as many keys as
/// the list has entries.
pub proof fn lemma_map_of_len<V>(entries: Seq<(Key, V)>)
    ensures
        map_of(entries).dom().finite(),
        distinct_keys(entries) ==> map_of(entries).dom().len() == entries.len(),
    decreases entries.len(),
{
    if entries.len() > 0 {
        let front = entries.drop_last();
        lemma_map_of_len(front);
        if distinct_keys(entries) {
            assert(distinct_keys(front)) by {
                assert forall|a: int, b: int| 0 <= a < b < front.len() implies front[a].0
                    != front[b].0 by {
                    assert(entries[a].0 != entries[b].0);
                }
            }
            lemma_map_of_domain(front, entries.last().0);
            if map_of(front).contains_key(entries.last().0) {
                let i = choose|i: int| 0 <= i < front.len() && front[i].0 == entries.last().0;
                assert(entries[i].0 == entries[entries.len() - 1].0);
            }
        }
    }
}

/// Replacing the value of one entry puts that value under the entry's key
/// and leaves every other key as it was.
pub proof fn lemma_map_of_update<V>(entries: Seq<(Key, V)>, i: int, value: V)
    requires
        distinct_keys(entries),
        0 <= i < entries.len(),
    ensures
        distinct_keys(entries.update(i, (entries[i].0, value))),
        map_of(entries.update(i, (entries[i].0, value))) == map_of(entries).insert(
            entries[i].0,
            value,
        ),
{
    let key = entries[i].0;
    let updated = entries.update(i, (key, value));
    assert(distinct_keys(updated)) by {
        assert forall|a: int, b: int| 0 <= a < b < updated.len() implies updated[a].0
            != updated[b].0 by {
            assert(entries[a].0 != entries[b].0);
        }
    }
    assert forall|k: Key| map_of(updated).contains_key(k) <==> map_of(entries).insert(
        key,
        value,
    ).contains_key(k) by {
        lemma_map_of_domain(updated, k);
        lemma_map_of_domain(entries, k);
        if map_of(updated).contains_key(k) {
            let a = choose|a: int| 0 <= a < updated.len() && updated[a].0 == k;
            assert(entries[a].0 == k);
        }
        if map_of(entries).contains_key(k) {
            let a = choose|a: int| 0 <= a < entries.len() && entries[a].0 == k;
            assert(updated[a].0 == k);
        }
        if k == key {
            assert(updated[i].0 == k);
        }
    }
    assert forall|k: Key| map_of(updated).contains_key(k) implies map_of(updated)[k]
        == map_of(entries).insert(key, value)[k] by {
        lemma_map_of_domain(updated, k);
        let a = choose|a: int| 0 <= a < updated.len() && updated[a].0 == k;
        lemma_map_of_entry(updated, a);
        if a != i {
            lemma_map_of_entry(entries, a);
            assert(entries[a].0 != entries[i].0);
        }
    }
    assert(map_of(updated) =~= map_of(entries).insert(key, value));
}

/// A finite map from keys to values of type `V`.
#[derive(Debug)]
pub struct KeyMap<V> {
    entries: Vec<(Key, V)>,
}

impl<V> View for KeyMap<V> {
    type V = Map<Key, V>;

    open spec fn view(&self) -> Map<Key, V> {
        map_of(self.listed())
    }
}

impl<V> KeyMap<V> {
    #[verifier::type_invariant]
    spec fn well_formed(&self) -> bool {
        distinct_keys(self.entries@)
    }

    /// The entries, in the order in which their keys were first put in.
    pub closed spec fn listed(&self) -> Seq<(Key, V)> {
        self.entries@
    }

    /// The empty map.
    pub fn new() -> (map: KeyMap<V>)
        ensures
            map@ == Map::<Key, V>::empty(),
    {
        KeyMap { entries: Vec::new() }
    }

    /// The number of keys in the map, which is the number of entries listed:
    /// no key is listed twice.
    pub fn len(&self) -> (count: usize)
        ensures
            count == self@.dom().len(),
            count == self.listed().len(),
            distinct_keys(self.listed()),
    {
        proof {
            use_type_invariant(self);
            lemma_map_of_len(self.entries@);
        }
        self.entries.len()
    }

    /// Where `key` stands in the list, if it is in the map.
    fn position(&self, key: &Key) -> (found: Option<usize>)
        ensures
            match found {
                Some(i) => i < self.entries@.len() && self.entries@[i as int].0 == *key,
                None => !self@.contains_key(*key),
            },
    {
        let mut i: usize = 0;
        while i < self.entries.len()
            invariant
                i <= self.entries@.len(),
                forall|j: int| 0 <= j < i ==> self.entries@[j].0 != *key,
            decreases self.entries@.len() - i,
        {
            if self.entries[i].0.same(key) {
                return Some(i);
            }
            i += 1;
        }
        proof {
            lemma_map_of_domain(self.entries@, *key);
        }
        None
    }

    /// Whether the map holds `key`.
    pub fn contains_key(&self, key: &Key) -> (held: bool)
        ensures
            held == self@.contains_key(*key),
    {
        match self.position(key) {
            Some(i) => {
                proof {
                    use_type_invariant(self);
                    lemma_map_of_entry(self.entries@, i as int);
                }
                true
            },
            None => false,
        }
    }
}

impl<V: Copy> KeyMap<V> {
    /// The entry at place `i` of the list.
    pub fn entry(&self, i: usize) -> (entry: (Key, V))
        requires
            i < self.listed().len(),
        ensures
            entry == self.listed()[i as int],
    {
        self.entries[i]
    }

    /// The value under `key`, if the map holds one.
    pub fn get(&self, key: &Key) -> (value: Option<V>)
        ensures
            value == (if self@.contains_key(*key) {
                Some(self@[*key])
            } else {
                None
            }),
    {
        match self.position(key) {
            Some(i) => {
                proof {
                    use_type_invariant(self);
                    lemma_map_of_entry(self.entries@, i as int);
                }
                Some(self.entries[i].1)
            },
            None => None,
        }
    }

    /// Puts `value` under `key`, in place of what the key held.
    pub fn insert(&mut self, key: Key, value: V)
        ensures
            final(self)@ == old(self)@.insert(key, value),
    {
        match self.position(&key) {
            Some(i) => {
                proof {
                    use_type_invariant(&*self);
                    lemma_map_of_update(self.entries@, i as int, value);
                }
                let mut entries: Vec<(Key, V)> = Vec::new();
                core::mem::swap(&mut self.entries, &mut entries);
                entries[i] = (key, value);
                self.entries = entries;
            },
            None => {
                proof {
                    use_type_invariant(&*self);
                    lemma_map_of_domain(self.entries@, key);
                    assert(self.entries@.push((key, value)).drop_last() =~= self.entries@);
                }
                let mut entries: Vec<(Key, V)> = Vec::new();
                core::mem::swap(&mut self.entries, &mut entries);
                entries.push((key, value));
                self.entries = entries;
            },
        }
    }

    /// The keys of the map, each once.
    pub fn keys(&self) -> (keys: Vec<Key>)
        ensures
            keys@.len() == self@.dom().len(),
            keys@.no_duplicates(),
            forall|key: Key| keys@.contains(key) <==> self@.contains_key(key),
    {
        proof {
            use_type_invariant(self);
            lemma_map_of_len(self.entries@);
        }
        let mut keys: Vec<Key> = Vec::new();
        let mut i: usize = 0;
        while i < self.entries.len()
            invariant
                i <= self.entries@.len(),
                keys@.len() == i,
                forall|j: int| 0 <= j < i ==> keys@[j] == self.entries@[j].0,
            decreases self.entries@.len() - i,
        {
            keys.push(self.entries[i].0);
            i += 1;
        }
        proof {
            assert forall|key: Key| keys@.contains(key) <==> self@.contains_key(key) by {
                lemma_map_of_domain(self.entries@, key);
                if keys@.contains(key) {
                    let j = choose|j: int| 0 <= j < keys@.len() && keys@[j] == key;
                    assert(self.entries@[j].0 == key);
                }
                if self@.contains_key(key) {
                    let j = choose|j: int| 0 <= j < self.entries@.len() && self.entries@[j].0 == key;
                    assert(keys@[j] == key);
                }
            }
        }
        keys
    }
}

impl<V: Copy> Clone for KeyMap<V> {
    /// A map with the same keys and values.
    fn clone(&self) -> (copy: KeyMap<V>)
        ensures
            copy@ == self@,
    {
        proof {
            use_type_invariant(self);
        }
        let mut entries: Vec<(Key, V)> = Vec::new();
        let mut i: usize = 0;
        while i < self.entries.len()
            invariant
                i <= self.entries@.len(),
                entries@ == self.entries@.subrange(0, i as int),
            decreases self.entries@.len() - i,
        {
            entries.push(self.entries[i]);
            assert(entries@ =~= self.entries@.subrange(0, i + 1));
            i += 1;
        }
        assert(entries@ =~= self.entries@);
        KeyMap { entries }
    }
}

} // verus!
