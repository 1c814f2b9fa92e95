//! A map from text to text: environment variables and HTTP headers.

use vstd::prelude::*;

use crate::text::same_text;

verus! {

/// No key occurs twice in `entries`.
pub open spec fn keys_distinct(entries: Seq<(Seq<char>, Seq<char>)>) -> bool {
    forall|i: int, j: int|
        0 <= i < j < entries.len() ==> (#[trigger] entries[i]).0 != (#[trigger] entries[j]).0
}

/// Whether the key `key` occurs in `entries`.
pub open spec fn has_key(entries: Seq<(Seq<char>, Seq<char>)>, key: Seq<char>) -> bool {
    exists|i: int| 0 <= i < entries.len() && (#[trigger] entries[i]).0 == key
}

/// The map that `entries`, whose keys are distinct, stand for.
pub open spec fn map_of(entries: Seq<(Seq<char>, Seq<char>)>) -> Map<Seq<char>, Seq<char>> {
    Map::new(
        |key: Seq<char>| has_key(entries, key),
        |key: Seq<char>|
            {
                let i = choose|i: int| 0 <= i < entries.len() && (#[trigger] entries[i]).0 == key;
                entries[i].1
            },
    )
}

/// The map that holds `pairs`, a later pair replacing an earlier one of the
/// same key.
pub open spec fn map_of_pairs(pairs: Seq<(String, String)>) -> Map<Seq<char>, Seq<char>>
    decreases pairs.len(),
{
    if pairs.len() == 0 {
        Map::empty()
    } else {
        map_of_pairs(pairs.drop_last()).insert(pairs.last().0@, pairs.last().1@)
    }
}

/// The contents of some pairs of strings.
pub open spec fn pair_texts(pairs: Seq<(String, String)>) -> Seq<(Seq<char>, Seq<char>)> {
    pairs.map_values(|pair: (String, String)| (pair.0@, pair.1@))
}

/// A map from text to text that keeps its entries in the order in which their
/// keys first came in.
pub struct StringMap {
    entries: Vec<(String, String)>,
}

impl View for StringMap {
    type V = Map<Seq<char>, Seq<char>>;

    open spec fn view(&self) -> Map<Seq<char>, Seq<char>> {
        map_of(self.entries())
    }
}

/// A map holds for each key what its entry says.
pub proof fn lemma_map_of(entries: Seq<(Seq<char>, Seq<char>)>)
    requires
        keys_distinct(entries),
    ensures
        forall|i: int|
            0 <= i < entries.len() ==> map_of(entries).contains_key((#[trigger] entries[i]).0)
                && map_of(entries)[entries[i].0] == entries[i].1,
{
    assert forall|i: int| 0 <= i < entries.len() implies map_of(entries).contains_key(
        (#[trigger] entries[i]).0,
    ) && map_of(entries)[entries[i].0] == entries[i].1 by {
        let key = entries[i].0;
        assert(has_key(entries, key));
        let j = choose|j: int| 0 <= j < entries.len() && (#[trigger] entries[j]).0 == key;
        assert(i == j);
    }
}

proof fn lemma_map_update(before: Seq<(Seq<char>, Seq<char>)>, i: int, v: Seq<char>)
    requires
        keys_distinct(before),
        0 <= i < before.len(),
    ensures
        keys_distinct(before.update(i, (before[i].0, v))),
        map_of(before.update(i, (before[i].0, v))) == map_of(before).insert(before[i].0, v),
        has_key(before, before[i].0),
{
    let after = before.update(i, (before[i].0, v));
    lemma_map_of(before);
    lemma_map_of(after);
    assert forall|k: Seq<char>| has_key(before, k) <==> has_key(after, k) by {
        if has_key(before, k) {
            let j = choose|j: int| 0 <= j < before.len() && (#[trigger] before[j]).0 == k;
            assert(after[j].0 == k);
        }
        if has_key(after, k) {
            let j = choose|j: int| 0 <= j < after.len() && (#[trigger] after[j]).0 == k;
            assert(before[j].0 == k);
        }
    }
    assert(has_key(before, before[i].0));
    assert forall|k: Seq<char>| has_key(after, k) implies #[trigger] map_of(after)[k] == map_of(
        before,
    ).insert(before[i].0, v)[k] by {
        let j = choose|j: int| 0 <= j < after.len() && (#[trigger] after[j]).0 == k;
        assert(before[j].0 == k);
        assert(after[i].0 == before[i].0);
    }
    assert(map_of(after) =~= map_of(before).insert(before[i].0, v));
}

proof fn lemma_map_push(before: Seq<(Seq<char>, Seq<char>)>, key: Seq<char>, v: Seq<char>)
    requires
        keys_distinct(before),
        !has_key(before, key),
    ensures
        keys_distinct(before.push((key, v))),
        map_of(before.push((key, v))) == map_of(before).insert(key, v),
{
    let after = before.push((key, v));
    lemma_map_of(before);
    assert(keys_distinct(after));
    lemma_map_of(after);
    assert forall|k: Seq<char>| has_key(after, k) <==> has_key(before, k) || k == key by {
        if has_key(before, k) {
            let j = choose|j: int| 0 <= j < before.len() && (#[trigger] before[j]).0 == k;
            assert(after[j].0 == k);
        }
        assert(after[before.len() as int].0 == key);
        if has_key(after, k) {
            let j = choose|j: int| 0 <= j < after.len() && (#[trigger] after[j]).0 == k;
            if j < before.len() {
                assert(before[j].0 == k);
            }
        }
    }
    assert forall|k: Seq<char>| has_key(after, k) implies #[trigger] map_of(after)[k] == map_of(
        before,
    ).insert(key, v)[k] by {
        let j = choose|j: int| 0 <= j < after.len() && (#[trigger] after[j]).0 == k;
        if j < before.len() {
            assert(before[j].0 == k);
        }
    }
    assert(map_of(after) =~= map_of(before).insert(key, v));
}

impl StringMap {
    /// The entries of the map, in order.
    pub closed spec fn entries(&self) -> Seq<(Seq<char>, Seq<char>)> {
        pair_texts(self.entries@)
    }

    #[verifier::type_invariant]
    spec fn well_formed(&self) -> bool {
        keys_distinct(pair_texts(self.entries@))
    }

    /// An empty map.
    pub fn new() -> (map: Self)
        ensures
            map@ == Map::<Seq<char>, Seq<char>>::empty(),
            map.entries() == Seq::<(Seq<char>, Seq<char>)>::empty(),
    {
        let map = StringMap { entries: Vec::new() };
        assert(map.entries() =~= Seq::<(Seq<char>, Seq<char>)>::empty());
        assert(map@ =~= Map::<Seq<char>, Seq<char>>::empty());
        map
    }

    /// The number of entries, no two of which have the same key.
    pub fn len(&self) -> (n: usize)
        ensures
            n == self.entries().len(),
            keys_distinct(self.entries()),
    {
        proof {
            use_type_invariant(self);
        }
        self.entries.len()
    }

    /// The key of the entry at `i`.
    pub fn key_at(&self, i: usize) -> (key: &str)
        requires
            i < self.entries().len(),
        ensures
            key@ == self.entries()[i as int].0,
    {
        self.entries[i].0.as_str()
    }

    /// The value of the entry at `i`.
    pub fn value_at(&self, i: usize) -> (value: &str)
        requires
            i < self.entries().len(),
        ensures
            value@ == self.entries()[i as int].1,
    {
        self.entries[i].1.as_str()
    }

    /// Where the entry of `key` is.
    fn position(&self, key: &str) -> (found: Option<usize>)
        ensures
            match found {
                Some(i) => i < self.entries().len() && self.entries()[i as int].0 == key@,
                None => !has_key(self.entries(), key@),
            },
    {
        for i in 0..self.entries.len()
            invariant
                self.entries() == pair_texts(self.entries@),
                forall|j: int| 0 <= j < i ==> (#[trigger] self.entries()[j]).0 != key@,
        {
            assert(self.entries()[i as int].0 == self.entries@[i as int].0@);
            if same_text(self.entries[i].0.as_str(), key) {
                return Some(i);
            }
        }
        None
    }

    /// The value that the map holds for `key`.
    pub fn get(&self, key: &str) -> (value: Option<&str>)
        ensures
            match value {
                Some(text) => self@.contains_key(key@) && text@ == self@[key@],
                None => !self@.contains_key(key@),
            },
    {
        proof {
            use_type_invariant(self);
            lemma_map_of(self.entries());
        }
        match self.position(key) {
            Some(i) => Some(self.value_at(i)),
            None => None,
        }
    }

    /// Makes `value` what the map holds for `key`.
    pub fn insert(&mut self, key: String, value: String)
        ensures
            final(self)@ == old(self)@.insert(key@, value@),
            !old(self)@.contains_key(key@) ==> final(self).entries() == old(self).entries().push(
                (key@, value@),
            ),
            forall|i: int|
                0 <= i < old(self).entries().len() && (#[trigger] old(self).entries()[i]).0 == key@
                    ==> final(self).entries() == old(self).entries().update(i, (key@, value@)),
    {
        proof {
            use_type_invariant(&*self);
        }
        let found = self.position(key.as_str());
        let ghost before = self.entries();
        let ghost k = key@;
        let ghost v = value@;
        let mut entries: Vec<(String, String)> = Vec::new();
        std::mem::swap(&mut entries, &mut self.entries);
        match found {
            Some(i) => {
                entries[i] = (key, value);
                proof {
                    assert(pair_texts(entries@) =~= before.update(i as int, (k, v)));
                    lemma_map_update(before, i as int, v);
                }
            },
            None => {
                entries.push((key, value));
                proof {
                    assert(pair_texts(entries@) =~= before.push((k, v)));
                    lemma_map_push(before, k, v);
                }
            },
        }
        self.entries = entries;
    }

    /// The map that holds `pairs`, a later pair replacing an earlier one of the
    /// same key.
    pub fn from_pairs(pairs: Vec<(String, String)>) -> (map: Self)
        ensures
            map@ == map_of_pairs(pairs@),
    {
        let mut map = StringMap::new();
        for i in 0..pairs.len()
            invariant
                map@ == map_of_pairs(pairs@.take(i as int)),
        {
            assert(pairs@.take(i + 1).drop_last() =~= pairs@.take(i as int));
            map.insert(pairs[i].0.clone(), pairs[i].1.clone());
        }
        assert(pairs@.take(pairs@.len() as int) =~= pairs@);
        map
    }

    /// The entries of the map, in order.
    pub fn pairs(&self) -> (pairs: Vec<(String, String)>)
        ensures
            pair_texts(pairs@) == self.entries(),
    {
        let mut pairs: Vec<(String, String)> = Vec::new();
        assert(pair_texts(pairs@) =~= self.entries().take(0));
        for i in 0..self.entries.len()
            invariant
                pair_texts(pairs@) == self.entries().take(i as int),
                self.entries() == pair_texts(self.entries@),
        {
            let pair = (self.entries[i].0.clone(), self.entries[i].1.clone());
            assert(pair_texts(pairs@.push(pair)) =~= pair_texts(pairs@).push((pair.0@, pair.1@)));
            assert(self.entries().take(i + 1) =~= self.entries().take(i as int).push(
                self.entries()[i as int],
            ));
            pairs.push(pair);
        }
        assert(self.entries().take(self.entries().len() as int) =~= self.entries());
        pairs
    }
}

impl Clone for StringMap {
    fn clone(&self) -> (map: Self)
        ensures
            map.entries() == self.entries(),
            map@ == self@,
    {
        proof {
            use_type_invariant(self);
        }
        let entries = self.pairs();
        StringMap { entries }
    }
}

/// A map whose keys are distinct holds exactly the keys of its entries, each
/// with the value of its entry.
pub proof fn law_map_holds_its_entries(entries: Seq<(Seq<char>, Seq<char>)>, key: Seq<char>)
    requires
        forall|i: int, j: int|
            0 <= i < j < entries.len() ==> (#[trigger] entries[i]).0 != (#[trigger] entries[j]).0,
    ensures
        map_of(entries).contains_key(key) <==> exists|i: int|
            0 <= i < entries.len() && (#[trigger] entries[i]).0 == key,
        forall|i: int|
            0 <= i < entries.len() && (#[trigger] entries[i]).0 == key ==> map_of(entries)[key]
                == entries[i].1,
{
    lemma_map_of(entries);
}

/// Without pairs a map holds nothing; one more pair gives its key its value,
/// whatever the key had before, and leaves every other key alone.
pub proof fn law_last_pair_of_a_key_counts(
    pairs: Seq<(String, String)>,
    pair: (String, String),
    key: Seq<char>,
)
    ensures
        !map_of_pairs(Seq::empty()).contains_key(key),
        map_of_pairs(pairs.push(pair)).contains_key(pair.0@),
        map_of_pairs(pairs.push(pair))[pair.0@] == pair.1@,
        key != pair.0@ ==> (map_of_pairs(pairs.push(pair)).contains_key(key) <==> map_of_pairs(
            pairs,
        ).contains_key(key)),
        key != pair.0@ ==> map_of_pairs(pairs.push(pair))[key] == map_of_pairs(pairs)[key],
{
    assert(pairs.push(pair).drop_last() =~= pairs);
}

/// The contents of pairs of strings are the strings' own characters, in order.
pub proof fn law_pair_texts_are_the_pairs(pairs: Seq<(String, String)>)
    ensures
        pair_texts(pairs).len() == pairs.len(),
        forall|i: int|
            0 <= i < pairs.len() ==> #[trigger] pair_texts(pairs)[i] == (pairs[i].0@, pairs[i].1@),
{
}

/// A map is seen by its entries: it holds a key exactly if an entry has it.
pub proof fn law_map_is_seen_by_its_entries(map: StringMap, key: Seq<char>)
    ensures
        map@.contains_key(key) <==> exists|i: int|
            0 <= i < map.entries().len() && (#[trigger] map.entries()[i]).0 == key,
        map@ == map_of(map.entries()),
{
}

} // verus!
