//! A map keyed by strings, kept as a list of entries whose keys are distinct.
//!
//! The wire messages of the Phaneron protocol carry several string-keyed maps
//! (nodes, their outputs and inputs, and the connections between them).  Here
//! such a map is an ordered list of `(key, value)` entries; its meaning is the
//! mathematical map that binds each key to its value.  The entry order is the
//! order in which a walk over the map visits the keys.
use vstd::prelude::*;

verus! {

/// The keys of a list of entries, each taken by its view.
pub open spec fn entry_keys<V>(entries: Seq<(String, V)>) -> Seq<Seq<char>> {
    entries.map_values(|e: (String, V)| e.0@)
}

/// The map that a list of entries denotes: each entry binds its key to its
/// value, and a later entry for the same key overrides an earlier one.
pub open spec fn entries_map<V>(entries: Seq<(String, V)>) -> Map<Seq<char>, V>
    decreases entries.len(),
{
    if entries.len() == 0 {
        Map::empty()
    } else {
        entries_map(entries.drop_last()).insert(entries.last().0@, entries.last().1)
    }
}

/// The keys bound by `entries_map` are exactly the keys of the entries.
pub proof fn lemma_entries_map_dom<V>(entries: Seq<(String, V)>)
    ensures
        entries_map(entries).dom() == entry_keys(entries).to_set(),
        entries_map(entries).dom().finite(),
    decreases entries.len(),
{
    if entries.len() > 0 {
        let rest = entries.drop_last();
        lemma_entries_map_dom(rest);
        assert(entry_keys(entries) =~= entry_keys(rest).push(entries.last().0@));
        assert(entries_map(entries).dom() =~= entry_keys(entries).to_set()) by {
            assert forall|k: Seq<char>| #[trigger] entry_keys(entries).to_set().contains(k)
                implies entries_map(entries).dom().contains(k) by {
                let i = choose|i: int| 0 <= i < entry_keys(entries).len() && entry_keys(entries)[i] == k;
                if i < rest.len() {
                    assert(entry_keys(rest)[i] == k);
                    assert(entry_keys(rest).to_set().contains(k));
                }
            }
            assert forall|k: Seq<char>| #[trigger] entries_map(entries).dom().contains(k)
                implies entry_keys(entries).to_set().contains(k) by {
                if k != entries.last().0@ {
                    assert(entry_keys(rest).to_set().contains(k));
                    let i = choose|i: int| 0 <= i < entry_keys(rest).len() && entry_keys(rest)[i] == k;
                    assert(entry_keys(entries)[i] == k);
                } else {
                    assert(entry_keys(entries)[entries.len() - 1] == k);
                }
            }
        }
    } else {
        assert(entry_keys(entries).to_set() =~= Set::empty());
    }
}

/// With distinct keys, each entry's key is bound to that entry's value.
pub proof fn lemma_entries_map_value<V>(entries: Seq<(String, V)>, i: int)
    requires
        entry_keys(entries).no_duplicates(),
        0 <= i < entries.len(),
    ensures
        entries_map(entries).contains_key(entries[i].0@),
        entries_map(entries)[entries[i].0@] == entries[i].1,
    decreases entries.len(),
{
    let rest = entries.drop_last();
    if i < entries.len() - 1 {
        assert(entry_keys(rest) =~= entry_keys(entries).drop_last());
        assert(entry_keys(entries)[i] != entry_keys(entries)[entries.len() - 1]);
        assert(rest[i] == entries[i]);
        lemma_entries_map_value(rest, i);
    }
}

/// Appending an entry binds its key to its value.
pub proof fn lemma_entries_map_push<V>(entries: Seq<(String, V)>, entry: (String, V))
    ensures
        entries_map(entries.push(entry)) == entries_map(entries).insert(entry.0@, entry.1),
        entry_keys(entries.push(entry)) == entry_keys(entries).push(entry.0@),
{
    assert(entries.push(entry).drop_last() =~= entries);
    assert(entry_keys(entries.push(entry)) =~= entry_keys(entries).push(entry.0@));
}

/// Replacing the entry of a key, with distinct keys, rebinds that key alone.
pub proof fn lemma_entries_map_update<V>(entries: Seq<(String, V)>, i: int, entry: (String, V))
    requires
        entry_keys(entries).no_duplicates(),
        0 <= i < entries.len(),
        entry.0@ == entries[i].0@,
    ensures
        entries_map(entries.update(i, entry)) == entries_map(entries).insert(entry.0@, entry.1),
        entry_keys(entries.update(i, entry)) == entry_keys(entries),
{
    let updated = entries.update(i, entry);
    assert(entry_keys(updated) =~= entry_keys(entries));
    lemma_entries_map_dom(entries);
    lemma_entries_map_dom(updated);
    let lhs = entries_map(updated);
    let rhs = entries_map(entries).insert(entry.0@, entry.1);
    assert forall|k: Seq<char>| #[trigger] lhs.contains_key(k) <==> rhs.contains_key(k) by {
        if k == entry.0@ {
            assert(entry_keys(entries)[i] == k);
            assert(entry_keys(entries).to_set().contains(k));
        }
    }
    assert forall|k: Seq<char>| #[trigger] lhs.contains_key(k) implies lhs[k] == rhs[k] by {
        assert(entry_keys(updated).to_set().contains(k));
        let j = choose|j: int| 0 <= j < entry_keys(updated).len() && entry_keys(updated)[j] == k;
        lemma_entries_map_value(updated, j);
        if j != i {
            assert(updated[j] == entries[j]);
            lemma_entries_map_value(entries, j);
        }
    }
    assert(lhs =~= rhs);
}

/// A string-keyed map.  Its view is the map from each key's characters to its
/// value; `keys` gives the order in which `entry_at` visits the keys.
#[derive(Debug)]
pub struct StringMap<V> {
    entries: Vec<(String, V)>,
}

impl<V> View for StringMap<V> {
    type V = Map<Seq<char>, V>;

    closed spec fn view(&self) -> Map<Seq<char>, V> {
        entries_map(self.entries@)
    }
}

impl<V> StringMap<V> {
    /// No key occurs twice.
    #[verifier::type_invariant]
    spec fn keys_are_distinct(self) -> bool {
        entry_keys(self.entries@).no_duplicates()
    }

    /// The keys in visiting order.
    pub closed spec fn keys(self) -> Seq<Seq<char>> {
        entry_keys(self.entries@)
    }

    /// The keys in visiting order are exactly the keys the map binds.
    pub proof fn lemma_keys_are_bound(self)
        ensures
            self@.dom().finite(),
            forall|k: Seq<char>| self@.contains_key(k) <==> #[trigger] self.keys().contains(k),
    {
        lemma_entries_map_dom(self.entries@);
        assert forall|k: Seq<char>| self@.contains_key(k) <==> #[trigger] self.keys().contains(k) by {
            if self.keys().contains(k) {
                assert(self.keys().to_set().contains(k));
            }
        }
    }

    /// An empty map.
    pub fn new() -> (m: Self)
        ensures
            m@ == Map::<Seq<char>, V>::empty(),
            m.keys() == Seq::<Seq<char>>::empty(),
    {
        let m = StringMap { entries: Vec::new() };
        assert(m.keys() =~= Seq::<Seq<char>>::empty());
        m
    }

    /// The number of keys.  Also states how `keys` and the view agree: the
    /// keys are distinct and are exactly the keys that the map binds.
    pub fn len(&self) -> (n: usize)
        ensures
            n == self.keys().len(),
            n == self@.len(),
            self.keys().no_duplicates(),
            self@.dom().finite(),
            forall|k: Seq<char>| self@.contains_key(k) <==> #[trigger] self.keys().contains(k),
    {
        proof {
            use_type_invariant(self);
            lemma_entries_map_dom(self.entries@);
            entry_keys(self.entries@).unique_seq_to_set();
            self.lemma_keys_are_bound();
        }
        self.entries.len()
    }

    /// Position of `key` among the entries, if it is bound.
    fn position(&self, key: &String) -> (r: Option<usize>)
        ensures
            match r {
                Some(i) => i < self.keys().len() && self.keys()[i as int] == key@,
                None => !self.keys().contains(key@),
            },
    {
        let n = self.entries.len();
        let mut i: usize = 0;
        while i < n
            invariant
                n == self.entries@.len(),
                i <= n,
                forall|j: int| 0 <= j < i ==> self.keys()[j] != key@,
            decreases n - i,
        {
            if self.entries[i].0 == *key {
                return Some(i);
            }
            i = i + 1;
        }
        None
    }

    /// The value bound to `key`, if any.
    pub fn get(&self, key: &String) -> (r: Option<&V>)
        ensures
            r is Some <==> self@.contains_key(key@),
            r matches Some(v) ==> *v == self@[key@],
    {
        proof {
            use_type_invariant(self);
            lemma_entries_map_dom(self.entries@);
        }
        match self.position(key) {
            Some(i) => {
                proof {
                    lemma_entries_map_value(self.entries@, i as int);
                }
                Some(&self.entries[i].1)
            },
            None => {
                proof {
                    if self@.contains_key(key@) {
                        assert(self.keys().to_set().contains(key@));
                    }
                }
                None
            },
        }
    }

    /// Whether `key` is bound.
    pub fn contains_key(&self, key: &String) -> (r: bool)
        ensures
            r == self@.contains_key(key@),
    {
        self.get(key).is_some()
    }

    /// The key and value of the entry at `index` in visiting order.
    pub fn entry_at(&self, index: usize) -> (r: (&String, &V))
        requires
            index < self.keys().len(),
        ensures
            r.0@ == self.keys()[index as int],
            self@.contains_key(r.0@),
            self@[r.0@] == *r.1,
    {
        proof {
            use_type_invariant(self);
            lemma_entries_map_value(self.entries@, index as int);
        }
        let entry = &self.entries[index];
        (&entry.0, &entry.1)
    }

    /// Binds `key` to `value`, replacing what it was bound to.  A new key is
    /// visited last; a key that was bound keeps its place.
    pub fn insert(&mut self, key: String, value: V)
        ensures
            final(self)@ == old(self)@.insert(key@, value),
            final(self).keys() == (if old(self).keys().contains(key@) {
                old(self).keys()
            } else {
                old(self).keys().push(key@)
            }),
    {
        proof {
            use_type_invariant(&*self);
        }
        let pos = self.position(&key);
        let mut entries: Vec<(String, V)> = Vec::new();
        std::mem::swap(&mut entries, &mut self.entries);
        let ghost before = entries@;
        match pos {
            Some(i) => {
                proof {
                    lemma_entries_map_update(before, i as int, (key, value));
                }
                entries.set(i, (key, value));
            },
            None => {
                proof {
                    lemma_entries_map_push(before, (key, value));
                }
                entries.push((key, value));
            },
        }
        self.entries = entries;
    }
}

} // verus!
