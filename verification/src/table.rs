//! A small map keyed by text.
//!
//! Every shared structure of this crate (the method registry, the allowlist,
//! the two caches) is a map from a name or a path to a value. [`Table`] keeps
//! such a map as a vector of pairs in which no key occurs twice, and views it
//! as a `Map` from the key's characters to the value.

use vstd::prelude::*;

verus! {

/// No two entries of `entries` have the same key.
pub open spec fn distinct_keys<V>(entries: Seq<(String, V)>) -> bool {
    forall|i: int, j: int|
        0 <= i < j < entries.len() ==> (#[trigger] entries[i]).0@ != (#[trigger] entries[j]).0@
}

/// Some entry of `entries` has the key `key`.
pub open spec fn has_key<V>(entries: Seq<(String, V)>, key: Seq<char>) -> bool {
    exists|i: int| 0 <= i < entries.len() && (#[trigger] entries[i]).0@ == key
}

/// The position of an entry of `entries` with the key `key`.
pub open spec fn index_of<V>(entries: Seq<(String, V)>, key: Seq<char>) -> int {
    choose|i: int| 0 <= i < entries.len() && (#[trigger] entries[i]).0@ == key
}

/// The map that a sequence of pairs stands for.
pub open spec fn as_map<V>(entries: Seq<(String, V)>) -> Map<Seq<char>, V> {
    Map::new(|key: Seq<char>| has_key(entries, key), |key: Seq<char>| entries[index_of(entries, key)].1)
}

/// Among distinct keys, the entry at position `i` is the one its key maps to.
pub proof fn lemma_entry_in_map<V>(entries: Seq<(String, V)>, i: int)
    requires
        distinct_keys(entries),
        0 <= i < entries.len(),
    ensures
        as_map(entries).contains_key(entries[i].0@),
        as_map(entries)[entries[i].0@] == entries[i].1,
        index_of(entries, entries[i].0@) == i,
{
    let key = entries[i].0@;
    assert(has_key(entries, key));
    let j = index_of(entries, key);
    if j < i {
        assert(entries[j].0@ != entries[i].0@);
    } else if i < j {
        assert(entries[i].0@ != entries[j].0@);
    }
}

/// Appending a pair with a new key adds that key to the map.
pub proof fn lemma_push_inserts<V>(entries: Seq<(String, V)>, key: String, value: V)
    requires
        distinct_keys(entries),
        !has_key(entries, key@),
    ensures
        distinct_keys(entries.push((key, value))),
        as_map(entries.push((key, value))) == as_map(entries).insert(key@, value),
{
    let grown = entries.push((key, value));
    assert forall|i: int, j: int| 0 <= i < j < grown.len() implies (#[trigger] grown[i]).0@ != (
    #[trigger] grown[j]).0@ by {
        if j == entries.len() {
            assert(entries[i].0@ != key@);
        } else {
            assert(entries[i].0@ != entries[j].0@);
        }
    }
    assert forall|k: Seq<char>| has_key(grown, k) <==> (k == key@ || has_key(entries, k)) by {
        if has_key(grown, k) {
            let i = index_of(grown, k);
            if i < entries.len() {
                assert(entries[i].0@ == k);
            }
        }
        if k == key@ {
            assert(grown[entries.len() as int].0@ == k);
        }
        if has_key(entries, k) {
            let i = index_of(entries, k);
            assert(grown[i].0@ == k);
        }
    }
    assert forall|k: Seq<char>| has_key(grown, k) implies #[trigger] as_map(grown)[k] == as_map(
        entries,
    ).insert(key@, value)[k] by {
        let i = index_of(grown, k);
        lemma_entry_in_map(grown, i);
        if i < entries.len() {
            assert(entries[i].0@ == k);
            lemma_entry_in_map(entries, i);
        }
    }
    assert(as_map(grown) =~= as_map(entries).insert(key@, value));
}

/// Taking the entry at position `i` out takes its key out of the map.
pub proof fn lemma_remove_removes<V>(entries: Seq<(String, V)>, i: int)
    requires
        distinct_keys(entries),
        0 <= i < entries.len(),
    ensures
        distinct_keys(entries.remove(i)),
        !has_key(entries.remove(i), entries[i].0@),
        as_map(entries.remove(i)) == as_map(entries).remove(entries[i].0@),
{
    let rest = entries.remove(i);
    let gone = entries[i].0@;
    assert forall|a: int| 0 <= a < rest.len() implies #[trigger] rest[a] == entries[if a < i {
        a
    } else {
        a + 1
    }] by {}
    assert forall|a: int, b: int| 0 <= a < b < rest.len() implies (#[trigger] rest[a]).0@ != (
    #[trigger] rest[b]).0@ by {
        let a2 = if a < i { a } else { a + 1 };
        let b2 = if b < i { b } else { b + 1 };
        assert(entries[a2].0@ != entries[b2].0@);
    }
    assert forall|k: Seq<char>| has_key(rest, k) <==> (k != gone && has_key(entries, k)) by {
        if has_key(rest, k) {
            let a = index_of(rest, k);
            let a2 = if a < i { a } else { a + 1 };
            assert(entries[a2].0@ == k);
            if a2 < i {
                assert(entries[a2].0@ != entries[i].0@);
            } else {
                assert(entries[i].0@ != entries[a2].0@);
            }
        }
        if k != gone && has_key(entries, k) {
            let a2 = index_of(entries, k);
            let a = if a2 < i { a2 } else { a2 - 1 };
            assert(rest[a].0@ == k);
        }
    }
    assert forall|k: Seq<char>| has_key(rest, k) implies #[trigger] as_map(rest)[k] == as_map(
        entries,
    )[k] by {
        let a = index_of(rest, k);
        lemma_entry_in_map(rest, a);
        let a2 = if a < i { a } else { a + 1 };
        assert(entries[a2].0@ == k);
        lemma_entry_in_map(entries, a2);
    }
    assert(as_map(rest) =~= as_map(entries).remove(gone));
}

/// A map from text keys to values of type `V`.
#[derive(Debug)]
pub struct Table<V> {
    entries: Vec<(String, V)>,
}

impl<V> Table<V> {
    #[verifier::type_invariant]
    spec fn keys_are_distinct(self) -> bool {
        distinct_keys(self.entries@)
    }

    /// The map that the table holds.
    pub closed spec fn view(self) -> Map<Seq<char>, V> {
        as_map(self.entries@)
    }

    /// An empty table.
    pub fn new() -> (table: Self)
        ensures
            table@ == Map::<Seq<char>, V>::empty(),
    {
        let table = Table { entries: Vec::new() };
        assert(table@ =~= Map::<Seq<char>, V>::empty());
        table
    }

    fn position(&self, key: &str) -> (found: Option<usize>)
        ensures
            found is Some <==> has_key(self.entries@, key@),
            found matches Some(i) ==> i < self.entries@.len() && self.entries@[i as int].0@
                == key@,
    {
        let owned: String = key.to_owned();
        let mut i: usize = 0;
        while i < self.entries.len()
            invariant
                i <= self.entries@.len(),
                owned@ == key@,
                forall|j: int| 0 <= j < i ==> (#[trigger] self.entries@[j]).0@ != key@,
            decreases self.entries@.len() - i,
        {
            if self.entries[i].0 == owned {
                return Some(i);
            }
            i = i + 1;
        }
        None
    }

    /// Whether `key` has a value.
    pub fn contains_key(&self, key: &str) -> (present: bool)
        ensures
            present == self@.contains_key(key@),
    {
        self.position(key).is_some()
    }

    /// The value of `key`, if it has one.
    pub fn get(&self, key: &str) -> (value: Option<&V>)
        ensures
            value is Some <==> self@.contains_key(key@),
            value matches Some(v) ==> *v == self@[key@],
    {
        proof {
            use_type_invariant(self);
        }
        match self.position(key) {
            Some(i) => {
                proof {
                    lemma_entry_in_map(self.entries@, i as int);
                }
                Some(&self.entries[i].1)
            },
            None => None,
        }
    }

    /// The keys, each once, in no particular order.
    pub fn keys(&self) -> (keys: Vec<String>)
        ensures
            forall|i: int| 0 <= i < keys@.len() ==> self@.contains_key(#[trigger] keys@[i]@),
            forall|key: Seq<char>|
                self@.contains_key(key) ==> exists|i: int|
                    0 <= i < keys@.len() && #[trigger] keys@[i]@ == key,
            forall|i: int, j: int|
                0 <= i < j < keys@.len() ==> #[trigger] keys@[i]@ != #[trigger] keys@[j]@,
    {
        proof {
            use_type_invariant(self);
        }
        let mut keys: Vec<String> = Vec::new();
        let mut i: usize = 0;
        while i < self.entries.len()
            invariant
                i <= self.entries@.len(),
                keys@.len() == i,
                forall|j: int| 0 <= j < i ==> #[trigger] keys@[j]@ == self.entries@[j].0@,
            decreases self.entries@.len() - i,
        {
            keys.push(self.entries[i].0.clone());
            i = i + 1;
        }
        assert forall|j: int| 0 <= j < keys@.len() implies self@.contains_key(
            #[trigger] keys@[j]@,
        ) by {
            lemma_entry_in_map(self.entries@, j);
        }
        assert forall|key: Seq<char>| self@.contains_key(key) implies exists|j: int|
            0 <= j < keys@.len() && #[trigger] keys@[j]@ == key by {
            let j = index_of(self.entries@, key);
            assert(keys@[j]@ == key);
        }
        assert forall|a: int, b: int| 0 <= a < b < keys@.len() implies #[trigger] keys@[a]@
            != #[trigger] keys@[b]@ by {
            assert(self.entries@[a].0@ != self.entries@[b].0@);
        }
        keys
    }

    /// Gives `key` the value `value` and returns the value it had before.
    pub fn insert(&mut self, key: &str, value: V) -> (previous: Option<V>)
        ensures
            final(self)@ == old(self)@.insert(key@, value),
            previous is Some <==> old(self)@.contains_key(key@),
            previous matches Some(v) ==> v == old(self)@[key@],
    {
        proof {
            use_type_invariant(&*self);
        }
        let found = self.position(key);
        let mut entries: Vec<(String, V)> = Vec::new();
        core::mem::swap(&mut self.entries, &mut entries);
        let previous = match found {
            Some(i) => {
                proof {
                    lemma_entry_in_map(entries@, i as int);
                    lemma_remove_removes(entries@, i as int);
                }
                let entry = entries.remove(i);
                Some(entry.1)
            },
            None => None,
        };
        let owned: String = key.to_owned();
        proof {
            lemma_push_inserts(entries@, owned, value);
            assert(old(self)@.remove(key@).insert(key@, value) =~= old(self)@.insert(key@, value));
        }
        entries.push((owned, value));
        self.entries = entries;
        previous
    }

    /// Takes `key` out and returns the value it had.
    pub fn remove(&mut self, key: &str) -> (previous: Option<V>)
        ensures
            final(self)@ == old(self)@.remove(key@),
            previous is Some <==> old(self)@.contains_key(key@),
            previous matches Some(v) ==> v == old(self)@[key@],
    {
        proof {
            use_type_invariant(&*self);
        }
        match self.position(key) {
            Some(i) => {
                let mut entries: Vec<(String, V)> = Vec::new();
                core::mem::swap(&mut self.entries, &mut entries);
                proof {
                    lemma_entry_in_map(entries@, i as int);
                    lemma_remove_removes(entries@, i as int);
                }
                let entry = entries.remove(i);
                self.entries = entries;
                Some(entry.1)
            },
            None => {
                assert(old(self)@.remove(key@) =~= old(self)@);
                None
            },
        }
    }
}

} // verus!
