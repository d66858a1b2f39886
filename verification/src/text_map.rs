//! A small map from text keys to values, used for the shared task context.
use vstd::prelude::*;

verus! {

/// The map that a list of entries denotes: a later entry for a key
/// overrides an earlier one.
pub open spec fn entries_map<V>(e: Seq<(String, V)>) -> Map<Seq<char>, V>
    decreases e.len(),
{
    if e.len() == 0 {
        Map::empty()
    } else {
        entries_map(e.drop_last()).insert(e.last().0@, e.last().1)
    }
}

/// A map from text keys to values. Inserting a key that is present
/// replaces its value. vstd models `HashMap` only for keys whose hashing it
/// knows (integers, `bool` and boxes of them), not for `String`, so the map
/// is kept as a list of entries, the last entry of a key winning.
pub struct TextMap<V> {
    entries: Vec<(String, V)>,
}

impl<V> View for TextMap<V> {
    type V = Map<Seq<char>, V>;

    closed spec fn view(&self) -> Map<Seq<char>, V> {
        entries_map(self.entries@)
    }
}

proof fn lemma_entries_map_contains<V>(e: Seq<(String, V)>, key: Seq<char>)
    ensures
        entries_map(e).contains_key(key) <==> exists|i: int| 0 <= i < e.len() && e[i].0@ == key,
    decreases e.len(),
{
    if e.len() > 0 {
        lemma_entries_map_contains(e.drop_last(), key);
        if entries_map(e.drop_last()).contains_key(key) {
            let i = choose|i: int| 0 <= i < e.drop_last().len() && e.drop_last()[i].0@ == key;
            assert(e[i].0@ == key);
        }
        if exists|i: int| 0 <= i < e.len() && e[i].0@ == key {
            let i = choose|i: int| 0 <= i < e.len() && e[i].0@ == key;
            if i < e.len() - 1 {
                assert(e.drop_last()[i].0@ == key);
            }
        }
    }
}

proof fn lemma_entries_map_value<V>(e: Seq<(String, V)>, i: int)
    requires
        0 <= i < e.len(),
        forall|j: int| i < j < e.len() ==> e[j].0@ != e[i].0@,
    ensures
        entries_map(e).contains_key(e[i].0@),
        entries_map(e)[e[i].0@] == e[i].1,
    decreases e.len(),
{
    if i < e.len() - 1 {
        lemma_entries_map_value(e.drop_last(), i);
    }
}

proof fn lemma_entries_map_update<V>(e: Seq<(String, V)>, i: int, key: String, value: V)
    requires
        0 <= i < e.len(),
        e[i].0@ == key@,
        forall|j: int| i < j < e.len() ==> e[j].0@ != key@,
    ensures
        entries_map(e.update(i, (key, value))) == entries_map(e).insert(key@, value),
    decreases e.len(),
{
    let u = e.update(i, (key, value));
    if i == e.len() - 1 {
        assert(u.drop_last() =~= e.drop_last());
        assert(entries_map(u) =~= entries_map(e).insert(key@, value));
    } else {
        assert(u.drop_last() =~= e.drop_last().update(i, (key, value)));
        lemma_entries_map_update(e.drop_last(), i, key, value);
        assert(entries_map(u) =~= entries_map(e).insert(key@, value));
    }
}

impl<V> TextMap<V> {
    /// An empty map.
    pub fn new() -> (m: Self)
        ensures
            m@ == Map::<Seq<char>, V>::empty(),
    {
        TextMap { entries: Vec::new() }
    }

    /// The stored entries, in insertion order of their keys.
    pub fn entries(&self) -> (e: &Vec<(String, V)>)
        ensures
            entries_map(e@) == self@,
    {
        &self.entries
    }

    /// The last position holding `key`, if any.
    fn find(&self, key: &String) -> (r: Option<usize>)
        ensures
            match r {
                Some(i) => {
                    &&& i < self.entries@.len()
                    &&& self.entries@[i as int].0@ == key@
                    &&& forall|j: int| i < j < self.entries@.len() ==> self.entries@[j].0@ != key@
                },
                None => forall|j: int| 0 <= j < self.entries@.len() ==> self.entries@[j].0@ != key@,
            },
    {
        let mut i = self.entries.len();
        while i > 0
            invariant
                i <= self.entries@.len(),
                forall|j: int| i <= j < self.entries@.len() ==> self.entries@[j].0@ != key@,
            decreases i,
        {
            i -= 1;
            if self.entries[i].0 == *key {
                return Some(i);
            }
        }
        None
    }

    /// Whether `key` has a value.
    pub fn contains_key(&self, key: &str) -> (b: bool)
        ensures
            b == self@.contains_key(key@),
    {
        let k = String::from_str(key);
        proof {
            lemma_entries_map_contains(self.entries@, key@);
        }
        match self.find(&k) {
            Some(_) => true,
            None => false,
        }
    }

    /// The value stored for `key`, if any.
    pub fn get(&self, key: &str) -> (r: Option<&V>)
        ensures
            match r {
                Some(v) => self@.contains_key(key@) && *v == self@[key@],
                None => !self@.contains_key(key@),
            },
    {
        let k = String::from_str(key);
        proof {
            lemma_entries_map_contains(self.entries@, key@);
        }
        match self.find(&k) {
            Some(i) => {
                proof {
                    lemma_entries_map_value(self.entries@, i as int);
                }
                Some(&self.entries[i].1)
            },
            None => None,
        }
    }

    /// Stores `value` for `key`, replacing any earlier value.
    pub fn insert(&mut self, key: String, value: V)
        ensures
            final(self)@ == old(self)@.insert(key@, value),
    {
        match self.find(&key) {
            Some(i) => {
                proof {
                    lemma_entries_map_update(self.entries@, i as int, key, value);
                }
                self.entries.set(i, (key, value));
            },
            None => {
                let ghost e = self.entries@;
                self.entries.push((key, value));
                assert(self.entries@.drop_last() =~= e);
            },
        }
    }

    /// Whether no key has a value.
    pub fn is_empty(&self) -> (b: bool)
        ensures
            b == (self@ == Map::<Seq<char>, V>::empty()),
    {
        if self.entries.len() == 0 {
            true
        } else {
            let ghost e = self.entries@;
            assert(entries_map(e).contains_key(e.last().0@));
            assert(!Map::<Seq<char>, V>::empty().contains_key(e.last().0@));
            false
        }
    }
}

} // verus!
