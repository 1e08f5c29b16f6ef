//! A map from texts to values, kept as a list of entries in which no key
//! occurs twice.

use vstd::prelude::*;

verus! {

/// The map a list of entries stands for: a later entry overrides an earlier
/// one with the same key.
pub open spec fn map_of<V>(s: Seq<(String, V)>) -> Map<Seq<char>, V>
    decreases s.len(),
{
    if s.len() == 0 {
        Map::empty()
    } else {
        map_of(s.drop_last()).insert(s.last().0@, s.last().1)
    }
}

/// No key occurs twice.
pub open spec fn keys_unique<V>(s: Seq<(String, V)>) -> bool {
    forall|i: int, j: int| 0 <= i < j < s.len() ==> s[i].0@ != s[j].0@
}

proof fn lemma_unique_prefix<V>(s: Seq<(String, V)>)
    requires
        s.len() > 0,
        keys_unique(s),
    ensures
        keys_unique(s.drop_last()),
{
}

/// The entry that holds a key gives the map's value at that key.
pub proof fn lemma_map_of_entry<V>(s: Seq<(String, V)>, i: int)
    requires
        keys_unique(s),
        0 <= i < s.len(),
    ensures
        map_of(s).contains_key(s[i].0@),
        map_of(s)[s[i].0@] == s[i].1,
    decreases s.len(),
{
    if i < s.len() - 1 {
        lemma_unique_prefix(s);
        lemma_map_of_entry(s.drop_last(), i);
        assert(s.drop_last()[i] == s[i]);
    }
}

/// A key that no entry holds is not in the map.
pub proof fn lemma_map_of_absent<V>(s: Seq<(String, V)>, k: Seq<char>)
    requires
        forall|i: int| 0 <= i < s.len() ==> s[i].0@ != k,
    ensures
        !map_of(s).contains_key(k),
    decreases s.len(),
{
    if s.len() > 0 {
        lemma_map_of_absent(s.drop_last(), k);
    }
}

/// Replacing the entry that holds a key replaces the map's value there.
pub proof fn lemma_map_of_update<V>(s: Seq<(String, V)>, i: int, e: (String, V))
    requires
        keys_unique(s),
        0 <= i < s.len(),
        e.0@ == s[i].0@,
    ensures
        map_of(s.update(i, e)) == map_of(s).insert(e.0@, e.1),
        keys_unique(s.update(i, e)),
    decreases s.len(),
{
    let t = s.update(i, e);
    if i == s.len() - 1 {
        assert(t.drop_last() =~= s.drop_last());
        assert(map_of(t) =~= map_of(s).insert(e.0@, e.1));
    } else {
        lemma_unique_prefix(s);
        lemma_map_of_update(s.drop_last(), i, e);
        assert(t.drop_last() =~= s.drop_last().update(i, e));
        assert(map_of(t) =~= map_of(s).insert(e.0@, e.1));
    }
}

/// Removing the entry that holds a key removes the key from the map.
pub proof fn lemma_map_of_remove<V>(s: Seq<(String, V)>, i: int)
    requires
        keys_unique(s),
        0 <= i < s.len(),
    ensures
        map_of(s.remove(i)) == map_of(s).remove(s[i].0@),
        keys_unique(s.remove(i)),
    decreases s.len(),
{
    let t = s.remove(i);
    let k = s[i].0@;
    lemma_unique_prefix(s);
    if i == s.len() - 1 {
        assert(t =~= s.drop_last());
        assert forall|j: int| 0 <= j < t.len() implies t[j].0@ != k by {
            assert(t[j] == s[j]);
        }
        lemma_map_of_absent(t, k);
        assert(map_of(t) =~= map_of(s).remove(k));
    } else {
        lemma_map_of_remove(s.drop_last(), i);
        assert(t.drop_last() =~= s.drop_last().remove(i));
        assert(t.last() == s.last());
        assert(s.last().0@ != k);
        assert(map_of(t) =~= map_of(s).remove(k));
    }
}

/// A map from texts to values.
pub struct StringMap<V> {
    entries: Vec<(String, V)>,
}

impl<V> View for StringMap<V> {
    type V = Map<Seq<char>, V>;

    closed spec fn view(&self) -> Map<Seq<char>, V> {
        map_of(self.entries@)
    }
}

impl<V> StringMap<V> {
    #[verifier::type_invariant]
    spec fn inv(self) -> bool {
        keys_unique(self.entries@)
    }

    pub fn new() -> (m: StringMap<V>)
        ensures
            m@ == Map::<Seq<char>, V>::empty(),
    {
        StringMap { entries: Vec::new() }
    }

    fn find(&self, key: &String) -> (res: Option<usize>)
        ensures
            match res {
                Some(i) => i < self.entries@.len() && self.entries@[i as int].0@ == key@,
                None => forall|j: int| 0 <= j < self.entries@.len() ==> self.entries@[j].0@ != key@,
            },
    {
        let mut i: usize = 0;
        while i < self.entries.len()
            invariant
                i <= self.entries@.len(),
                forall|j: int| 0 <= j < i ==> self.entries@[j].0@ != key@,
            decreases self.entries.len() - i,
        {
            if self.entries[i].0 == *key {
                return Some(i);
            }
            i = i + 1;
        }
        None
    }

    /// Whether the key is in the map.
    pub fn contains_key(&self, key: &String) -> (b: bool)
        ensures
            b == self@.contains_key(key@),
    {
        proof { use_type_invariant(self); }
        match self.find(key) {
            Some(i) => {
                proof { lemma_map_of_entry(self.entries@, i as int); }
                true
            },
            None => {
                proof { lemma_map_of_absent(self.entries@, key@); }
                false
            },
        }
    }

    /// The value at the key, if it is in the map.
    pub fn get(&self, key: &String) -> (res: Option<&V>)
        ensures
            match res {
                Some(v) => self@.contains_key(key@) && *v == self@[key@],
                None => !self@.contains_key(key@),
            },
    {
        proof { use_type_invariant(self); }
        match self.find(key) {
            Some(i) => {
                proof { lemma_map_of_entry(self.entries@, i as int); }
                Some(&self.entries[i].1)
            },
            None => {
                proof { lemma_map_of_absent(self.entries@, key@); }
                None
            },
        }
    }

    /// Sets the value at the key, replacing any value it had.
    pub fn insert(&mut self, key: String, value: V)
        ensures
            final(self)@ == old(self)@.insert(key@, value),
    {
        proof { use_type_invariant(&*self); }
        match self.find(&key) {
            Some(i) => {
                proof { lemma_map_of_update(self.entries@, i as int, (key, value)); }
                let mut entries: Vec<(String, V)> = Vec::new();
                std::mem::swap(&mut entries, &mut self.entries);
                entries.set(i, (key, value));
                self.entries = entries;
            },
            None => {
                let mut entries: Vec<(String, V)> = Vec::new();
                std::mem::swap(&mut entries, &mut self.entries);
                entries.push((key, value));
                assert(entries@.drop_last() =~= old(self).entries@);
                assert forall|a: int, b: int| 0 <= a < b < entries@.len() implies entries@[a].0@ != entries@[b].0@ by {
                    if b == entries@.len() - 1 {
                        assert(entries@[a] == old(self).entries@[a]);
                    } else {
                        assert(entries@[a] == old(self).entries@[a]);
                        assert(entries@[b] == old(self).entries@[b]);
                    }
                }
                self.entries = entries;
            },
        }
    }

    /// Takes the key out of the map, giving back its value if it was there.
    pub fn remove(&mut self, key: &String) -> (res: Option<V>)
        ensures
            final(self)@ == old(self)@.remove(key@),
            match res {
                Some(v) => old(self)@.contains_key(key@) && v == old(self)@[key@],
                None => !old(self)@.contains_key(key@),
            },
    {
        proof { use_type_invariant(&*self); }
        match self.find(key) {
            Some(i) => {
                proof {
                    lemma_map_of_entry(self.entries@, i as int);
                    lemma_map_of_remove(self.entries@, i as int);
                }
                let mut entries: Vec<(String, V)> = Vec::new();
                std::mem::swap(&mut entries, &mut self.entries);
                let (_k, v) = entries.remove(i);
                self.entries = entries;
                Some(v)
            },
            None => {
                proof {
                    lemma_map_of_absent(self.entries@, key@);
                    assert(old(self)@.remove(key@) =~= old(self)@);
                }
                None
            },
        }
    }
}

} // verus!
