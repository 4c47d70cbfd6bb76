//! An ordered mapping from strings to strings in which a later value for a
//! key replaces the earlier one.

use vstd::prelude::*;
use crate::text::{pairs_view, TextPair};

verus! {

/// Whether some entry has the key.
pub open spec fn has_key(entries: Seq<TextPair>, key: Seq<char>) -> bool {
    exists|i: int| 0 <= i < entries.len() && (#[trigger] entries[i]).0 == key
}

/// The place of an entry with the key, where there is one.
pub open spec fn key_index(entries: Seq<TextPair>, key: Seq<char>) -> int {
    choose|i: int| 0 <= i < entries.len() && (#[trigger] entries[i]).0 == key
}

/// No key occurs twice.
pub open spec fn distinct_keys(entries: Seq<TextPair>) -> bool {
    forall|i: int, j: int|
        0 <= i < j < entries.len() ==> (#[trigger] entries[i]).0 != (#[trigger] entries[j]).0
}

/// The entries after `key` was given `value`: the entry of the key keeps its
/// place and takes the value; a new key goes to the end.
pub open spec fn put(entries: Seq<TextPair>, key: Seq<char>, value: Seq<char>) -> Seq<TextPair> {
    if has_key(entries, key) {
        entries.update(key_index(entries, key), (key, value))
    } else {
        entries.push((key, value))
    }
}

/// The mapping that a sequence of pairs builds when each is put in turn.
pub open spec fn last_wins(pairs: Seq<TextPair>) -> Seq<TextPair>
    decreases pairs.len(),
{
    if pairs.len() == 0 {
        Seq::empty()
    } else {
        put(last_wins(pairs.drop_last()), pairs.last().0, pairs.last().1)
    }
}

/// The entries as a finite map.
pub open spec fn as_map(entries: Seq<TextPair>) -> Map<Seq<char>, Seq<char>> {
    Map::new(
        |k: Seq<char>| has_key(entries, k),
        |k: Seq<char>| entries[key_index(entries, k)].1,
    )
}

/// Putting a key keeps the keys distinct.
pub proof fn lemma_put_distinct(entries: Seq<TextPair>, key: Seq<char>, value: Seq<char>)
    requires
        distinct_keys(entries),
    ensures
        distinct_keys(put(entries, key, value)),
        has_key(put(entries, key, value), key),
{
    let after = put(entries, key, value);
    if has_key(entries, key) {
        let k = key_index(entries, key);
        assert(after[k].0 == key);
        assert forall|i: int, j: int| 0 <= i < j < after.len() implies (#[trigger] after[i]).0 != (
        #[trigger] after[j]).0 by {
            assert(after[i].0 == entries[i].0);
            assert(after[j].0 == entries[j].0);
        }
    } else {
        assert(after[entries.len() as int].0 == key);
        assert forall|i: int, j: int| 0 <= i < j < after.len() implies (#[trigger] after[i]).0 != (
        #[trigger] after[j]).0 by {
            assert(after[i] == entries[i]);
            if j < entries.len() {
                assert(after[j] == entries[j]);
            }
        }
    }
}

/// As a map, putting a key is the map's insertion.
pub proof fn lemma_put_is_insert(entries: Seq<TextPair>, key: Seq<char>, value: Seq<char>)
    requires
        distinct_keys(entries),
    ensures
        as_map(put(entries, key, value)) == as_map(entries).insert(key, value),
{
    let after = put(entries, key, value);
    lemma_put_distinct(entries, key, value);
    assert forall|k: Seq<char>| has_key(after, k) <==> (k == key || has_key(entries, k)) by {
        if has_key(after, k) && k != key {
            let i = key_index(after, k);
            assert(entries[i].0 == k);
        }
        if has_key(entries, k) && k != key {
            let i = key_index(entries, k);
            assert(after[i].0 == k);
        }
    }
    assert forall|k: Seq<char>| has_key(after, k) implies as_map(after)[k] == as_map(
        entries,
    ).insert(key, value)[k] by {
        let i = key_index(after, k);
        if k == key {
            if has_key(entries, key) {
                let p = key_index(entries, key);
                assert(after[p].0 == key);
                if i != p {
                    if i < p {
                        assert(after[i].0 != after[p].0);
                    } else {
                        assert(after[p].0 != after[i].0);
                    }
                }
            } else {
                let p = entries.len() as int;
                assert(after[p].0 == key);
                if i != p {
                    assert(after[i].0 != after[p].0);
                }
            }
        } else {
            assert(entries[i].0 == k);
            let p = key_index(entries, k);
            if i != p {
                if i < p {
                    assert(entries[i].0 != entries[p].0);
                } else {
                    assert(entries[p].0 != entries[i].0);
                }
            }
            assert(after[i] == entries[i]);
        }
    }
    assert(as_map(after) =~= as_map(entries).insert(key, value));
}

/// What a sequence of pairs builds has distinct keys.
pub proof fn lemma_last_wins_distinct(pairs: Seq<TextPair>)
    ensures
        distinct_keys(last_wins(pairs)),
    decreases pairs.len(),
{
    if pairs.len() > 0 {
        lemma_last_wins_distinct(pairs.drop_last());
        lemma_put_distinct(last_wins(pairs.drop_last()), pairs.last().0, pairs.last().1);
    }
}

/// As a map, what a sequence of pairs builds has the keys of the pairs.
pub proof fn lemma_last_wins_keys(pairs: Seq<TextPair>, key: Seq<char>)
    ensures
        has_key(last_wins(pairs), key) <==> has_key(pairs, key),
    decreases pairs.len(),
{
    if pairs.len() > 0 {
        let front = pairs.drop_last();
        let last = pairs.last();
        lemma_last_wins_keys(front, key);
        lemma_last_wins_distinct(front);
        lemma_put_is_insert(last_wins(front), last.0, last.1);
        assert(as_map(last_wins(pairs)).dom().contains(key) <==> (key == last.0 || as_map(
            last_wins(front),
        ).dom().contains(key)));
        if has_key(front, key) {
            let i = key_index(front, key);
            assert(pairs[i].0 == key);
        }
        if has_key(pairs, key) && last.0 != key {
            let i = key_index(pairs, key);
            assert(front[i].0 == key);
        }
        if last.0 == key {
            assert(pairs[pairs.len() - 1].0 == key);
        }
    }
}

/// Mapping semantics: the value of a key is that of the last pair that has
/// the key.
pub proof fn lemma_last_wins_lookup(pairs: Seq<TextPair>, i: int)
    requires
        0 <= i < pairs.len(),
        forall|j: int| i < j < pairs.len() ==> (#[trigger] pairs[j]).0 != pairs[i].0,
    ensures
        has_key(last_wins(pairs), pairs[i].0),
        as_map(last_wins(pairs))[pairs[i].0] == pairs[i].1,
    decreases pairs.len(),
{
    let key = pairs[i].0;
    let front = pairs.drop_last();
    let last = pairs.last();
    lemma_last_wins_distinct(front);
    lemma_put_is_insert(last_wins(front), last.0, last.1);
    assert(has_key(pairs, key));
    lemma_last_wins_keys(pairs, key);
    if i < pairs.len() - 1 {
        assert(front[i] == pairs[i]);
        assert forall|j: int| i < j < front.len() implies (#[trigger] front[j]).0 != front[i].0 by {
            assert(front[j] == pairs[j]);
        }
        lemma_last_wins_lookup(front, i);
        assert(last.0 != key);
    }
}

/// An ordered mapping from strings to strings. Its view is the sequence of its
/// entries, in which no key occurs twice.
pub struct StringMap {
    entries: Vec<(String, String)>,
}

impl View for StringMap {
    type V = Seq<TextPair>;

    closed spec fn view(&self) -> Seq<TextPair> {
        pairs_view(self.entries@)
    }
}

impl StringMap {
    #[verifier::type_invariant]
    spec fn keys_are_distinct(self) -> bool {
        distinct_keys(pairs_view(self.entries@))
    }

    /// The empty mapping.
    pub fn new() -> (r: Self)
        ensures
            r@ == Seq::<TextPair>::empty(),
    {
        let r = StringMap { entries: Vec::new() };
        assert(pairs_view(r.entries@) =~= Seq::<TextPair>::empty());
        r
    }

    /// The number of entries.
    pub fn len(&self) -> (n: usize)
        ensures
            n == self@.len(),
    {
        self.entries.len()
    }

    /// The place of the entry with the key, if there is one.
    fn find(&self, key: &String) -> (r: Option<usize>)
        ensures
            r is Some <==> has_key(self@, key@),
            r matches Some(i) ==> i < self@.len() && self@[i as int].0 == key@ && i == key_index(
                self@,
                key@,
            ),
    {
        proof {
            use_type_invariant(self);
        }
        let ghost entries = self@;
        let mut i: usize = 0;
        while i < self.entries.len()
            invariant
                i <= self.entries.len(),
                entries == pairs_view(self.entries@),
                distinct_keys(entries),
                forall|j: int| 0 <= j < i ==> (#[trigger] entries[j]).0 != key@,
            decreases self.entries.len() - i,
        {
            if self.entries[i].0 == *key {
                assert(entries[i as int].0 == key@);
                proof {
                    let c = key_index(entries, key@);
                    if c != i {
                        if c < i {
                            assert(entries[c].0 != entries[i as int].0);
                        } else {
                            assert(entries[i as int].0 != entries[c].0);
                        }
                    }
                }
                return Some(i);
            }
            i += 1;
        }
        None
    }

    /// The value of a key.
    pub fn get(&self, key: &String) -> (r: Option<&String>)
        ensures
            r is Some <==> as_map(self@).dom().contains(key@),
            r matches Some(v) ==> v@ == as_map(self@)[key@],
    {
        match self.find(key) {
            Some(i) => Some(&self.entries[i].1),
            None => None,
        }
    }

    /// Gives `key` the value `value`, in place of the value it had if it had one.
    pub fn insert(&mut self, key: String, value: String)
        ensures
            final(self)@ == put(old(self)@, key@, value@),
    {
        proof {
            use_type_invariant(&*self);
        }
        let found = self.find(&key);
        let ghost before = self@;
        let mut entries: Vec<(String, String)> = Vec::new();
        proof {
            assert(pairs_view(entries@) =~= Seq::<TextPair>::empty());
        }
        std::mem::swap(&mut entries, &mut self.entries);
        match found {
            Some(i) => {
                entries.set(i, (key, value));
            },
            None => {
                entries.push((key, value));
            },
        }
        proof {
            assert(pairs_view(entries@) =~= put(before, key@, value@));
            lemma_put_distinct(before, key@, value@);
        }
        self.entries = entries;
    }

    /// The mapping that the pairs build when each is put in turn, so that of
    /// two pairs with one key the later gives the value.
    pub fn from_pairs(pairs: &Vec<(String, String)>) -> (r: Self)
        ensures
            r@ == last_wins(pairs_view(pairs@)),
    {
        let mut map = StringMap::new();
        let ghost all = pairs_view(pairs@);
        let mut i: usize = 0;
        assert(all.take(0) =~= Seq::<TextPair>::empty());
        while i < pairs.len()
            invariant
                i <= pairs.len(),
                all == pairs_view(pairs@),
                map@ == last_wins(all.take(i as int)),
            decreases pairs.len() - i,
        {
            let key = pairs[i].0.clone();
            let value = pairs[i].1.clone();
            proof {
                let next = all.take(i + 1);
                assert(next.drop_last() =~= all.take(i as int));
                assert(next.last() == (key@, value@));
            }
            map.insert(key, value);
            i += 1;
        }
        assert(all.take(i as int) =~= all);
        map
    }

    /// The entries, in order. No key occurs twice among them.
    pub fn entries(&self) -> (r: &Vec<(String, String)>)
        ensures
            pairs_view(r@) == self@,
            distinct_keys(self@),
    {
        proof {
            use_type_invariant(self);
        }
        &self.entries
    }
}

} // verus!
