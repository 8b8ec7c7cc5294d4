//! Maps from strings to values.

use vstd::prelude::*;
use vstd::string::*;

use crate::text::same_text;

verus! {

/// The map that a list of entries describes: of entries with the same key the
/// last counts.
pub open spec fn entries_map<V>(entries: Seq<(String, V)>) -> Map<Seq<char>, V>
    decreases entries.len(),
{
    if entries.len() == 0 {
        Map::empty()
    } else {
        entries_map(entries.drop_last()).insert(entries.last().0@, entries.last().1)
    }
}

/// A map of strings with each string modelled.
pub open spec fn text_map(map: Map<Seq<char>, String>) -> Map<Seq<char>, Seq<char>> {
    map.map_values(|text: String| text@)
}

/// Whether no two entries have the same key.
pub open spec fn distinct_keys<V>(entries: Seq<(String, V)>) -> bool {
    forall|i: int, j: int| 0 <= i < j < entries.len() ==> entries[i].0@ != entries[j].0@
}

/// The keys of the described map are the keys of the entries.
pub proof fn lemma_entries_domain<V>(entries: Seq<(String, V)>, key: Seq<char>)
    ensures
        entries_map(entries).contains_key(key) <==> exists|i: int|
            0 <= i < entries.len() && entries[i].0@ == key,
    decreases entries.len(),
{
    if entries.len() > 0 {
        let rest = entries.drop_last();
        lemma_entries_domain(rest, key);
        if entries_map(rest).contains_key(key) {
            let i = choose|i: int| 0 <= i < rest.len() && rest[i].0@ == key;
            assert(entries[i].0@ == key);
        }
        if exists|i: int| 0 <= i < entries.len() && entries[i].0@ == key {
            let i = choose|i: int| 0 <= i < entries.len() && entries[i].0@ == key;
            if i < rest.len() {
                assert(rest[i].0@ == key);
            }
        }
    }
}

/// The last entry with a key gives its value.
pub proof fn lemma_entries_value<V>(entries: Seq<(String, V)>, i: int)
    requires
        0 <= i < entries.len(),
        forall|j: int| i < j < entries.len() ==> entries[j].0@ != entries[i].0@,
    ensures
        entries_map(entries).contains_key(entries[i].0@),
        entries_map(entries)[entries[i].0@] == entries[i].1,
    decreases entries.len(),
{
    if i < entries.len() - 1 {
        let rest = entries.drop_last();
        assert(entries[entries.len() - 1].0@ != entries[i].0@);
        lemma_entries_value(rest, i);
    }
}

/// Distinct keys make the map as large as the list.
proof fn lemma_entries_len<V>(entries: Seq<(String, V)>)
    requires
        distinct_keys(entries),
    ensures
        entries_map(entries).dom().finite(),
        entries_map(entries).len() == entries.len(),
    decreases entries.len(),
{
    if entries.len() > 0 {
        let rest = entries.drop_last();
        lemma_entries_len(rest);
        lemma_entries_domain(rest, entries.last().0@);
        assert forall|i: int| 0 <= i < rest.len() implies rest[i].0@ != entries.last().0@ by {
            assert(entries[i].0@ != entries[entries.len() - 1].0@);
        }
    }
}

/// Replacing the value of an entry whose key is distinct from the others
/// inserts it into the map.
proof fn lemma_entries_update<V>(entries: Seq<(String, V)>, i: int, entry: (String, V))
    requires
        0 <= i < entries.len(),
        distinct_keys(entries),
        entries[i].0@ == entry.0@,
    ensures
        entries_map(entries.update(i, entry)) == entries_map(entries).insert(entry.0@, entry.1),
    decreases entries.len(),
{
    let rest = entries.drop_last();
    let changed = entries.update(i, entry);
    if i < entries.len() - 1 {
        lemma_entries_update(rest, i, entry);
        assert(changed.drop_last() =~= rest.update(i, entry));
        assert(entries[i].0@ != entries[entries.len() - 1].0@);
    } else {
        assert(changed.drop_last() =~= rest);
    }
    assert(entries_map(changed) =~= entries_map(entries).insert(entry.0@, entry.1));
}

/// Removing an entry whose key is distinct from the others removes the key.
proof fn lemma_entries_remove<V>(entries: Seq<(String, V)>, i: int)
    requires
        0 <= i < entries.len(),
        distinct_keys(entries),
    ensures
        entries_map(entries.remove(i)) == entries_map(entries).remove(entries[i].0@),
        distinct_keys(entries.remove(i)),
    decreases entries.len(),
{
    let rest = entries.drop_last();
    let left = entries.remove(i);
    if i < entries.len() - 1 {
        lemma_entries_remove(rest, i);
        assert(left.drop_last() =~= rest.remove(i));
        assert(left.last() == entries.last());
        assert(entries[i].0@ != entries[entries.len() - 1].0@);
    } else {
        assert(left =~= rest);
        lemma_entries_domain(rest, entries[i].0@);
    }
    assert(entries_map(left) =~= entries_map(entries).remove(entries[i].0@));
}

/// A map from strings to values.
#[derive(Debug)]
pub struct StringMap<V> {
    entries: Vec<(String, V)>,
}

impl<V> View for StringMap<V> {
    type V = Map<Seq<char>, V>;

    closed spec fn view(&self) -> Map<Seq<char>, V> {
        entries_map(self.entries@)
    }
}

impl<V: Clone> Clone for StringMap<V> {
    fn clone(&self) -> (copy: Self)
        ensures
            copy@.dom() == self@.dom(),
            forall|key: Seq<char>| #[trigger]
                copy@.contains_key(key) ==> cloned::<V>(self@[key], copy@[key]),
    {
        proof {
            use_type_invariant(self);
        }
        let mut entries: Vec<(String, V)> = Vec::new();
        let mut i: usize = 0;
        while i < self.entries.len()
            invariant
                i == entries@.len() <= self.entries@.len(),
                forall|k: int|
                    #![trigger entries@[k]]
                    0 <= k < i ==> entries@[k].0@ == self.entries@[k].0@ && cloned::<V>(
                        self.entries@[k].1,
                        entries@[k].1,
                    ),
            decreases self.entries@.len() - i,
        {
            let key = self.entries[i].0.clone();
            let value = self.entries[i].1.clone();
            assert(cloned::<V>(self.entries@[i as int].1, value));
            entries.push((key, value));
            i = i + 1;
        }
        proof {
            assert forall|j: int, k: int| 0 <= j < k < entries@.len() implies entries@[j].0@
                != entries@[k].0@ by {
                assert(cloned::<V>(self.entries@[j].1, entries@[j].1));
                assert(cloned::<V>(self.entries@[k].1, entries@[k].1));
                assert(self.entries@[j].0@ != self.entries@[k].0@);
            }
            assert forall|key: Seq<char>|
                entries_map(entries@).contains_key(key) <==> self@.contains_key(key) by {
                lemma_entries_domain(entries@, key);
                lemma_entries_domain(self.entries@, key);
                if entries_map(entries@).contains_key(key) {
                    let k = choose|k: int| 0 <= k < entries@.len() && entries@[k].0@ == key;
                    assert(cloned::<V>(self.entries@[k].1, entries@[k].1));
                    assert(self.entries@[k].0@ == key);
                }
                if self@.contains_key(key) {
                    let k = choose|k: int|
                        0 <= k < self.entries@.len() && self.entries@[k].0@ == key;
                    assert(cloned::<V>(self.entries@[k].1, entries@[k].1));
                    assert(entries@[k].0@ == key);
                }
            }
            assert(entries_map(entries@).dom() =~= self@.dom());
            assert forall|key: Seq<char>| #[trigger]
                entries_map(entries@).contains_key(key) implies cloned::<V>(
                self@[key],
                entries_map(entries@)[key],
            ) by {
                lemma_entries_domain(entries@, key);
                let k = choose|k: int| 0 <= k < entries@.len() && entries@[k].0@ == key;
                lemma_entries_value(entries@, k);
                assert(cloned::<V>(self.entries@[k].1, entries@[k].1));
                lemma_entries_value(self.entries@, k);
            }
        }
        StringMap { entries }
    }
}

impl<V> StringMap<V> {
    #[verifier::type_invariant]
    spec fn keys_differ(self) -> bool {
        distinct_keys(self.entries@)
    }

    /// The empty map.
    pub fn new() -> (map: Self)
        ensures
            map@ == Map::<Seq<char>, V>::empty(),
    {
        StringMap { entries: Vec::new() }
    }

    /// Where the key stands among the entries.
    fn position(&self, key: &str) -> (found: Option<usize>)
        ensures
            match found {
                Some(i) => i < self.entries@.len() && self.entries@[i as int].0@ == key@,
                None => forall|i: int|
                    0 <= i < self.entries@.len() ==> self.entries@[i].0@ != key@,
            },
    {
        let mut i: usize = 0;
        while i < self.entries.len()
            invariant
                i <= self.entries@.len(),
                forall|k: int| 0 <= k < i ==> self.entries@[k].0@ != key@,
            decreases self.entries@.len() - i,
        {
            if same_text(self.entries[i].0.as_str(), key) {
                return Some(i);
            }
            i = i + 1;
        }
        None
    }

    /// Gives the key a value, in place of the one it had.
    pub fn insert(&mut self, key: String, value: V)
        ensures
            final(self)@ == old(self)@.insert(key@, value),
    {
        proof {
            use_type_invariant(&*self);
        }
        let found = self.position(key.as_str());
        let mut entries: Vec<(String, V)> = Vec::new();
        std::mem::swap(&mut entries, &mut self.entries);
        match found {
            Some(i) => {
                proof {
                    lemma_entries_update(entries@, i as int, (key, value));
                }
                entries[i] = (key, value);
            },
            None => {
                entries.push((key, value));
                assert(entries@.drop_last() =~= old(self).entries@);
            },
        }
        self.entries = entries;
    }

    /// The map of the given entries, of which a later one replaces an earlier
    /// one with the same key.
    pub fn from_pairs(pairs: Vec<(String, V)>) -> (map: Self)
        ensures
            map@ == entries_map(pairs@),
    {
        let ghost all = pairs@;
        let mut map = StringMap::new();
        for pair in it: pairs
            invariant
                it.seq() == all,
                map@ == entries_map(all.take(it.index())),
        {
            map.insert(pair.0, pair.1);
            assert(all.take(it.index() + 1).drop_last() =~= all.take(it.index()));
        }
        assert(all.take(all.len() as int) =~= all);
        map
    }

    /// The value of a key.
    pub fn get(&self, key: &str) -> (value: Option<&V>)
        ensures
            match value {
                Some(value) => self@.contains_key(key@) && *value == self@[key@],
                None => !self@.contains_key(key@),
            },
    {
        proof {
            use_type_invariant(self);
            lemma_entries_domain(self.entries@, key@);
        }
        match self.position(key) {
            Some(i) => {
                proof {
                    lemma_entries_value(self.entries@, i as int);
                }
                Some(&self.entries[i].1)
            },
            None => None,
        }
    }

    /// Takes a key out, and returns the value that it had.
    pub fn remove(&mut self, key: &str) -> (value: Option<V>)
        ensures
            final(self)@ == old(self)@.remove(key@),
            match value {
                Some(value) => old(self)@.contains_key(key@) && value == old(self)@[key@],
                None => !old(self)@.contains_key(key@),
            },
    {
        proof {
            use_type_invariant(&*self);
            lemma_entries_domain(self.entries@, key@);
        }
        match self.position(key) {
            Some(i) => {
                proof {
                    lemma_entries_value(self.entries@, i as int);
                    lemma_entries_remove(self.entries@, i as int);
                }
                let mut entries: Vec<(String, V)> = Vec::new();
                std::mem::swap(&mut entries, &mut self.entries);
                let entry = entries.remove(i);
                self.entries = entries;
                Some(entry.1)
            },
            None => {
                assert(self@.remove(key@) =~= self@);
                None
            },
        }
    }

    /// The number of keys.
    pub fn len(&self) -> (count: usize)
        ensures
            count == self@.len(),
    {
        proof {
            use_type_invariant(self);
            lemma_entries_len(self.entries@);
        }
        self.entries.len()
    }

    /// Whether the map has no key.
    pub fn is_empty(&self) -> (empty: bool)
        ensures
            empty == (self@ == Map::<Seq<char>, V>::empty()),
    {
        proof {
            if self.entries@.len() > 0 {
                assert(self@.contains_key(self.entries@.last().0@));
            } else {
                assert(self@ =~= Map::<Seq<char>, V>::empty());
            }
        }
        self.entries.len() == 0
    }

    /// The keys with their values, each key once.
    pub fn entries(&self) -> (entries: &Vec<(String, V)>)
        ensures
            entries_map(entries@) == self@,
            distinct_keys(entries@),
    {
        proof {
            use_type_invariant(self);
        }
        &self.entries
    }
}

} // verus!
