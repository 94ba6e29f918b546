//! A small map from text to text that remembers the order in which its
//! keys were first inserted.
//!
//! The map is kept as a list of entries in which no key occurs twice. Its
//! mathematical model is the sequence of entries, each a pair of character
//! sequences; `to_map` reads that sequence as a finite map.

use vstd::prelude::*;
use vstd::string::*;
use vstd::utf8::*;

verus! {

/// A list of pairs of texts as pairs of character sequences.
pub open spec fn text_pairs(pairs: Seq<(String, String)>) -> Seq<(Seq<char>, Seq<char>)> {
    Seq::new(pairs.len(), |i: int| (pairs[i].0@, pairs[i].1@))
}

/// Some entry of `entries` has the key `key`.
pub open spec fn holds_key(entries: Seq<(Seq<char>, Seq<char>)>, key: Seq<char>) -> bool {
    exists|i: int| 0 <= i < entries.len() && (#[trigger] entries[i]).0 == key
}

/// The position of an entry with the key `key`, where there is one.
pub open spec fn position_of(entries: Seq<(Seq<char>, Seq<char>)>, key: Seq<char>) -> int {
    choose|i: int| 0 <= i < entries.len() && (#[trigger] entries[i]).0 == key
}

/// No key occurs in two entries.
pub open spec fn distinct_keys(entries: Seq<(Seq<char>, Seq<char>)>) -> bool {
    forall|i: int, j: int|
        0 <= i < j < entries.len() ==> (#[trigger] entries[i]).0 != (#[trigger] entries[j]).0
}

/// The entries read as a map from key to value.
pub open spec fn to_map(entries: Seq<(Seq<char>, Seq<char>)>) -> Map<Seq<char>, Seq<char>> {
    Map::new(
        |key: Seq<char>| holds_key(entries, key),
        |key: Seq<char>| entries[position_of(entries, key)].1,
    )
}

/// The entries after `key` has been set to `value`: an entry with that key
/// keeps its place and gets the new value, a new key goes to the end.
pub open spec fn put(entries: Seq<(Seq<char>, Seq<char>)>, key: Seq<char>, value: Seq<char>) -> Seq<
    (Seq<char>, Seq<char>),
> {
    if holds_key(entries, key) {
        entries.update(position_of(entries, key), (key, value))
    } else {
        entries.push((key, value))
    }
}

/// The entries after all of `more` have been set, first to last.
pub open spec fn put_all(
    entries: Seq<(Seq<char>, Seq<char>)>,
    more: Seq<(Seq<char>, Seq<char>)>,
) -> Seq<(Seq<char>, Seq<char>)>
    decreases more.len(),
{
    if more.len() == 0 {
        entries
    } else {
        put(put_all(entries, more.drop_last()), more.last().0, more.last().1)
    }
}

/// Setting a key keeps the keys distinct and acts on the map as an insert.
pub proof fn lemma_put(entries: Seq<(Seq<char>, Seq<char>)>, key: Seq<char>, value: Seq<char>)
    requires
        distinct_keys(entries),
    ensures
        distinct_keys(put(entries, key, value)),
        to_map(put(entries, key, value)) == to_map(entries).insert(key, value),
        holds_key(put(entries, key, value), key),
        forall|other: Seq<char>|
            holds_key(put(entries, key, value), other) <==> (other == key || holds_key(
                entries,
                other,
            )),
{
    let after = put(entries, key, value);
    if holds_key(entries, key) {
        let at = position_of(entries, key);
        assert(after[at].0 == key);
        assert forall|other: Seq<char>| holds_key(after, other) <==> (other == key || holds_key(
            entries,
            other,
        )) by {
            if holds_key(after, other) {
                let i = position_of(after, other);
                assert(entries[i].0 == other);
            }
            if holds_key(entries, other) {
                let i = position_of(entries, other);
                assert(after[i].0 == other);
            }
        }
    } else {
        assert(after[entries.len() as int].0 == key);
        assert forall|other: Seq<char>| holds_key(after, other) <==> (other == key || holds_key(
            entries,
            other,
        )) by {
            if holds_key(after, other) {
                let i = position_of(after, other);
                if i < entries.len() {
                    assert(entries[i].0 == other);
                }
            }
            if holds_key(entries, other) {
                let i = position_of(entries, other);
                assert(after[i].0 == other);
            }
        }
    }
    assert forall|other: Seq<char>| holds_key(after, other) implies #[trigger] to_map(after)[other]
        == to_map(entries).insert(key, value)[other] by {
        let i = position_of(after, other);
        if other == key {
            if holds_key(entries, key) {
                assert(after[position_of(entries, key)].0 == key);
            } else {
                assert(after[entries.len() as int].0 == key);
            }
        } else {
            let j = position_of(entries, other);
            assert(after[j].0 == other);
        }
    }
    assert(to_map(after) =~= to_map(entries).insert(key, value));
}

/// A key that is held has one value, the one at any position that holds it.
pub proof fn lemma_value_at(entries: Seq<(Seq<char>, Seq<char>)>, at: int)
    requires
        distinct_keys(entries),
        0 <= at < entries.len(),
    ensures
        to_map(entries).contains_key(entries[at].0),
        to_map(entries)[entries[at].0] == entries[at].1,
{
    let key = entries[at].0;
    assert(holds_key(entries, key));
    let found = position_of(entries, key);
    assert(found == at);
}

/// Whether two texts are the same, character for character.
pub fn same_text(a: &str, b: &str) -> (same: bool)
    ensures
        same == (a@ == b@),
{
    let x = a.as_bytes();
    let y = b.as_bytes();
    proof {
        encode_utf8_decode_utf8(a@);
        encode_utf8_decode_utf8(b@);
    }
    if x.len() != y.len() {
        return false;
    }
    let mut i: usize = 0;
    while i < x.len()
        invariant
            i <= x.len(),
            x.len() == y.len(),
            x@ == encode_utf8(a@),
            y@ == encode_utf8(b@),
            forall|k: int| 0 <= k < i ==> x@[k] == y@[k],
        decreases x.len() - i,
    {
        if x[i] != y[i] {
            return false;
        }
        i += 1;
    }
    assert(x@ =~= y@);
    true
}

/// A map from text to text with insertion order.
#[derive(Debug)]
pub struct StringMap {
    pairs: Vec<(String, String)>,
}

impl StringMap {
    /// The entries in order, as pairs of character sequences.
    pub closed spec fn entries(&self) -> Seq<(Seq<char>, Seq<char>)> {
        text_pairs(self.pairs@)
    }

    #[verifier::type_invariant]
    spec fn keys_are_distinct(&self) -> bool {
        distinct_keys(self.entries())
    }

    /// An empty map.
    pub fn new() -> (map: StringMap)
        ensures
            map.entries() == Seq::<(Seq<char>, Seq<char>)>::empty(),
            map@ == Map::<Seq<char>, Seq<char>>::empty(),
    {
        let map = StringMap { pairs: Vec::new() };
        assert(map.entries() =~= Seq::empty());
        assert(to_map(map.entries()) =~= Map::empty());
        map
    }

    /// The number of entries.
    pub fn len(&self) -> (n: usize)
        ensures
            n == self.entries().len(),
            n == self@.len(),
            distinct_keys(self.entries()),
    {
        proof {
            use_type_invariant(self);
            lemma_len(self.entries());
        }
        self.pairs.len()
    }

    /// Whether the map has no entry.
    pub fn is_empty(&self) -> (empty: bool)
        ensures
            empty == (self.entries().len() == 0),
    {
        self.pairs.len() == 0
    }

    /// The entries in order. No key occurs twice among them.
    pub fn pairs(&self) -> (pairs: &Vec<(String, String)>)
        ensures
            text_pairs(pairs@) == self.entries(),
            distinct_keys(self.entries()),
    {
        proof {
            use_type_invariant(self);
        }
        &self.pairs
    }

    fn find(&self, key: &str) -> (found: Option<usize>)
        ensures
            distinct_keys(self.entries()),
            match found {
                Some(at) => at < self.entries().len() && self.entries()[at as int].0 == key@
                    && holds_key(self.entries(), key@) && position_of(self.entries(), key@) == at,
                None => !holds_key(self.entries(), key@),
            },
    {
        proof {
            use_type_invariant(self);
        }
        let mut i: usize = 0;
        while i < self.pairs.len()
            invariant
                i <= self.pairs.len(),
                distinct_keys(self.entries()),
                forall|k: int| 0 <= k < i ==> (#[trigger] self.entries()[k]).0 != key@,
            decreases self.pairs.len() - i,
        {
            if same_text(self.pairs[i].0.as_str(), key) {
                assert(self.entries()[i as int].0 == key@);
                assert(position_of(self.entries(), key@) == i);
                return Some(i);
            }
            i += 1;
        }
        None
    }

    /// Whether `key` has a value.
    pub fn contains_key(&self, key: &str) -> (held: bool)
        ensures
            held == self@.contains_key(key@),
    {
        self.find(key).is_some()
    }

    /// The value of `key`, if it has one.
    pub fn get(&self, key: &str) -> (value: Option<&String>)
        ensures
            match value {
                Some(text) => self@.contains_key(key@) && text@ == self@[key@],
                None => !self@.contains_key(key@),
            },
    {
        match self.find(key) {
            Some(at) => {
                proof {
                    lemma_value_at(self.entries(), at as int);
                }
                Some(&self.pairs[at].1)
            },
            None => None,
        }
    }

    /// Sets `key` to `value` and returns the value it had before, if any.
    /// An existing key keeps its place in the order; a new one goes last.
    pub fn insert(&mut self, key: String, value: String) -> (before: Option<String>)
        ensures
            final(self).entries() == put(old(self).entries(), key@, value@),
            final(self)@ == old(self)@.insert(key@, value@),
            match before {
                Some(text) => old(self)@.contains_key(key@) && text@ == old(self)@[key@],
                None => !old(self)@.contains_key(key@),
            },
    {
        let ghost before_entries = self.entries();
        let found = self.find(key.as_str());
        proof {
            lemma_put(before_entries, key@, value@);
        }
        let mut pairs: Vec<(String, String)> = Vec::new();
        std::mem::swap(&mut self.pairs, &mut pairs);
        let before = match found {
            Some(at) => {
                proof {
                    lemma_value_at(before_entries, at as int);
                }
                let held = pairs[at].1.clone();
                pairs.set(at, (key, value));
                Some(held)
            },
            None => {
                pairs.push((key, value));
                None
            },
        };
        assert(text_pairs(pairs@) =~= put(before_entries, key@, value@));
        self.pairs = pairs;
        before
    }

    /// Gives the entry at position `at` a new value. Its key and its place
    /// stay.
    pub(crate) fn replace_value(&mut self, at: usize, value: String)
        requires
            at < old(self).entries().len(),
        ensures
            final(self).entries() == old(self).entries().update(
                at as int,
                (old(self).entries()[at as int].0, value@),
            ),
    {
        proof {
            use_type_invariant(&*self);
        }
        let ghost before = self.entries();
        let mut pairs: Vec<(String, String)> = Vec::new();
        std::mem::swap(&mut self.pairs, &mut pairs);
        let key = pairs[at].0.clone();
        pairs.set(at, (key, value));
        assert(text_pairs(pairs@) =~= before.update(at as int, (before[at as int].0, value@)));
        self.pairs = pairs;
    }

    /// A copy of the map as it is now. Later changes to either do not show
    /// in the other.
    pub fn snapshot(&self) -> (copy: StringMap)
        ensures
            copy.entries() == self.entries(),
            copy@ == self@,
    {
        proof {
            use_type_invariant(self);
        }
        let mut pairs: Vec<(String, String)> = Vec::new();
        let mut i: usize = 0;
        while i < self.pairs.len()
            invariant
                i <= self.pairs.len(),
                pairs@.len() == i,
                forall|k: int|
                    0 <= k < i ==> (#[trigger] pairs@[k]).0@ == self.pairs@[k].0@ && pairs@[k].1@
                        == self.pairs@[k].1@,
            decreases self.pairs.len() - i,
        {
            pairs.push((self.pairs[i].0.clone(), self.pairs[i].1.clone()));
            i += 1;
        }
        assert(text_pairs(pairs@) =~= self.entries());
        StringMap { pairs }
    }

    /// The map that holds `pairs`, set one after the other: where a key
    /// occurs more than once, its last value stays, at the place of its
    /// first occurrence.
    pub fn from_pairs(pairs: Vec<(String, String)>) -> (map: StringMap)
        ensures
            map.entries() == put_all(Seq::empty(), text_pairs(pairs@)),
    {
        let ghost all = text_pairs(pairs@);
        let mut map = StringMap::new();
        let mut i: usize = 0;
        while i < pairs.len()
            invariant
                i <= pairs.len(),
                all == text_pairs(pairs@),
                map.entries() == put_all(Seq::empty(), all.take(i as int)),
            decreases pairs.len() - i,
        {
            let key = pairs[i].0.clone();
            let value = pairs[i].1.clone();
            map.insert(key, value);
            assert(all.take(i + 1).drop_last() =~= all.take(i as int));
            i += 1;
        }
        assert(all.take(i as int) =~= all);
        map
    }
}

impl Clone for StringMap {
    /// A copy with the same entries in the same order.
    fn clone(&self) -> (copy: StringMap)
        ensures
            copy.entries() == self.entries(),
    {
        self.snapshot()
    }
}

impl View for StringMap {
    type V = Map<Seq<char>, Seq<char>>;

    open spec fn view(&self) -> Map<Seq<char>, Seq<char>> {
        to_map(self.entries())
    }
}

/// A list with distinct keys has as many entries as its map has keys.
pub proof fn lemma_len(entries: Seq<(Seq<char>, Seq<char>)>)
    requires
        distinct_keys(entries),
    ensures
        to_map(entries).dom().finite(),
        to_map(entries).len() == entries.len(),
    decreases entries.len(),
{
    if entries.len() == 0 {
        assert(to_map(entries) =~= Map::empty());
    } else {
        let front = entries.drop_last();
        let last = entries.last();
        lemma_len(front);
        assert(!holds_key(front, last.0)) by {
            if holds_key(front, last.0) {
                let i = position_of(front, last.0);
                assert(entries[i].0 == last.0);
                assert(entries[entries.len() - 1].0 == last.0);
            }
        }
        assert(put(front, last.0, last.1) =~= entries);
        lemma_put(front, last.0, last.1);
    }
}

} // verus!
