//! A mapping from strings to strings that remembers insertion order.
//!
//! Query parameters and default headers are both of this shape. The mapping is
//! modelled as a sequence of key/value pairs in which no key occurs twice; the
//! order of the sequence is the order in which the mapping is walked.

use vstd::prelude::*;

verus! {

/// A key/value pair of the model, each side as a sequence of characters.
pub type Pair = (Seq<char>, Seq<char>);

/// The model of a list of stored entries: each string replaced by its characters.
pub open spec fn pairs_of(entries: Seq<(String, String)>) -> Seq<Pair> {
    Seq::new(entries.len(), |i: int| (entries[i].0@, entries[i].1@))
}

/// No key occurs at two positions of `pairs`.
pub open spec fn keys_distinct(pairs: Seq<Pair>) -> bool {
    forall|i: int, j: int|
        0 <= i < j < pairs.len() ==> (#[trigger] pairs[i]).0 != (#[trigger] pairs[j]).0
}

/// Some pair of `pairs` has the key `key`.
pub open spec fn has_key(pairs: Seq<Pair>, key: Seq<char>) -> bool {
    exists|i: int| 0 <= i < pairs.len() && (#[trigger] pairs[i]).0 == key
}

/// A position at which `key` occurs in `pairs`; meaningful when `has_key` holds,
/// and then the only one if the keys are distinct.
pub open spec fn position_of(pairs: Seq<Pair>, key: Seq<char>) -> int {
    choose|i: int| 0 <= i < pairs.len() && (#[trigger] pairs[i]).0 == key
}

/// The value stored under `key`, if any.
pub open spec fn lookup(pairs: Seq<Pair>, key: Seq<char>) -> Option<Seq<char>> {
    if has_key(pairs, key) {
        Some(pairs[position_of(pairs, key)].1)
    } else {
        None
    }
}

/// `pairs` after storing `value` under `key`: an existing key keeps its place
/// and gets the new value, a new key goes to the end.
pub open spec fn stored(pairs: Seq<Pair>, key: Seq<char>, value: Seq<char>) -> Seq<Pair> {
    if has_key(pairs, key) {
        pairs.update(position_of(pairs, key), (key, value))
    } else {
        pairs.push((key, value))
    }
}

/// Storing a pair keeps the keys distinct, and the key then leads to the value
/// that was stored.
pub proof fn lemma_storing_keeps_a_mapping(pairs: Seq<Pair>, key: Seq<char>, value: Seq<char>)
    requires
        keys_distinct(pairs),
    ensures
        keys_distinct(stored(pairs, key, value)),
        lookup(stored(pairs, key, value), key) == Some(value),
{
    let after = stored(pairs, key, value);
    if has_key(pairs, key) {
        let at = position_of(pairs, key);
        assert(after[at].0 == key);
        assert forall|i: int, j: int| 0 <= i < j < after.len() implies (#[trigger] after[i]).0 != (
        #[trigger] after[j]).0 by {
            assert(after[i].0 == pairs[i].0);
            assert(after[j].0 == pairs[j].0);
        }
        let found = position_of(after, key);
        assert(after[found].0 == key);
        if found != at {
            assert(after[found] == pairs[found]);
            if found < at {
                assert(pairs[found].0 != pairs[at].0);
            } else {
                assert(pairs[at].0 != pairs[found].0);
            }
        }
    } else {
        let last = pairs.len() as int;
        assert(after[last].0 == key);
        assert forall|i: int, j: int| 0 <= i < j < after.len() implies (#[trigger] after[i]).0 != (
        #[trigger] after[j]).0 by {
            assert(after[i] == pairs[i]);
            if j < last {
                assert(after[j] == pairs[j]);
            }
        }
        let found = position_of(after, key);
        assert(after[found].0 == key);
        if found != last {
            assert(after[found] == pairs[found]);
        }
    }
}

/// An insertion-ordered mapping from strings to strings with unique keys.
#[derive(Debug)]
pub struct StringMap {
    entries: Vec<(String, String)>,
}

impl View for StringMap {
    type V = Seq<Pair>;

    closed spec fn view(&self) -> Seq<Pair> {
        pairs_of(self.entries@)
    }
}

impl Clone for StringMap {
    /// A copy with the same entries in the same order.
    fn clone(&self) -> (copy: StringMap)
        ensures
            copy@ == self@,
    {
        proof {
            use_type_invariant(self);
        }
        let mut entries: Vec<(String, String)> = Vec::new();
        let mut at: usize = 0;
        while at < self.entries.len()
            invariant
                at <= self.entries.len(),
                entries@.len() == at,
                forall|i: int| 0 <= i < at ==> entries@[i] == self.entries@[i],
            decreases self.entries.len() - at,
        {
            let key = self.entries[at].0.clone();
            let value = self.entries[at].1.clone();
            entries.push((key, value));
            at += 1;
        }
        assert(entries@ =~= self.entries@);
        StringMap { entries }
    }
}

impl StringMap {
    #[verifier::type_invariant]
    spec fn unique_keys(self) -> bool {
        keys_distinct(pairs_of(self.entries@))
    }

    /// The empty mapping.
    pub fn new() -> (map: StringMap)
        ensures
            map@ == Seq::<Pair>::empty(),
    {
        let map = StringMap { entries: Vec::new() };
        assert(map@ =~= Seq::<Pair>::empty());
        map
    }

    /// The number of keys.
    pub fn len(&self) -> (count: usize)
        ensures
            count == self@.len(),
    {
        self.entries.len()
    }

    /// Whether the mapping holds no key.
    pub fn is_empty(&self) -> (empty: bool)
        ensures
            empty == (self@.len() == 0),
    {
        self.entries.len() == 0
    }

    /// The entries in walking order. No key occurs twice among them.
    pub fn entries(&self) -> (list: &Vec<(String, String)>)
        ensures
            pairs_of(list@) == self@,
            keys_distinct(self@),
    {
        proof {
            use_type_invariant(self);
        }
        &self.entries
    }

    /// The position of `key` among the entries, if it is present.
    fn find(&self, key: &String) -> (found: Option<usize>)
        ensures
            found is Some <==> has_key(self@, key@),
            found matches Some(at) ==> at < self@.len() && self@[at as int].0 == key@,
    {
        let mut at: usize = 0;
        while at < self.entries.len()
            invariant
                at <= self.entries.len(),
                forall|i: int| 0 <= i < at ==> (#[trigger] self@[i]).0 != key@,
            decreases self.entries.len() - at,
        {
            if self.entries[at].0 == *key {
                assert(self@[at as int].0 == key@);
                return Some(at);
            }
            at += 1;
        }
        None
    }

    /// The value stored under `key`, if any.
    pub fn get(&self, key: &String) -> (value: Option<&String>)
        ensures
            match value {
                Some(text) => lookup(self@, key@) == Some(text@),
                None => lookup(self@, key@) is None,
            },
    {
        proof {
            use_type_invariant(self);
        }
        match self.find(key) {
            Some(at) => {
                proof {
                    let chosen = position_of(self@, key@);
                    if chosen < at {
                        assert(self@[chosen].0 != self@[at as int].0);
                    } else if at < chosen {
                        assert(self@[at as int].0 != self@[chosen].0);
                    }
                }
                Some(&self.entries[at].1)
            },
            None => None,
        }
    }

    /// Stores `value` under `key` and returns the value it replaces, if any.
    /// A key that is already present keeps its place in the walking order; a
    /// new key is walked last.
    pub fn insert(&mut self, key: String, value: String) -> (replaced: Option<String>)
        ensures
            final(self)@ == stored(old(self)@, key@, value@),
            keys_distinct(final(self)@),
            match replaced {
                Some(text) => lookup(old(self)@, key@) == Some(text@),
                None => lookup(old(self)@, key@) is None,
            },
    {
        proof {
            use_type_invariant(&*self);
            lemma_storing_keeps_a_mapping(self@, key@, value@);
        }
        match self.find(&key) {
            Some(at) => {
                proof {
                    let chosen = position_of(self@, key@);
                    if chosen < at {
                        assert(self@[chosen].0 != self@[at as int].0);
                    } else if at < chosen {
                        assert(self@[at as int].0 != self@[chosen].0);
                    }
                }
                let mut entries: Vec<(String, String)> = Vec::new();
                std::mem::swap(&mut entries, &mut self.entries);
                let previous = entries.remove(at);
                entries.insert(at, (key, value));
                assert(pairs_of(entries@) =~= stored(old(self)@, key@, value@));
                self.entries = entries;
                Some(previous.1)
            },
            None => {
                let mut entries: Vec<(String, String)> = Vec::new();
                std::mem::swap(&mut entries, &mut self.entries);
                entries.push((key, value));
                assert(pairs_of(entries@) =~= stored(old(self)@, key@, value@));
                self.entries = entries;
                None
            },
        }
    }
}

} // verus!
