//! A map from texts to texts that keeps its keys in order.

use vstd::prelude::*;

use crate::text::{
    lemma_precedes_total, lemma_precedes_transitive, precedes, rank, Rank,
};

verus! {

/// The key/value pairs of a secret: no key occurs twice, and the keys stand in
/// the order of texts.
#[derive(Debug)]
pub struct StringMap {
    entries: Vec<(String, String)>,
}

/// Whether each text of `keys` precedes all those after it.
pub open spec fn ascending(keys: Seq<Seq<char>>) -> bool {
    forall|i: int, j: int| 0 <= i < j < keys.len() ==> precedes(#[trigger] keys[i], #[trigger] keys[j])
}

/// The keys of a list of pairs.
spec fn keys_of(entries: Seq<(String, String)>) -> Seq<Seq<char>> {
    Seq::new(entries.len(), |i: int| entries[i].0@)
}

/// The map that a list of pairs stands for.
spec fn pairs(entries: Seq<(String, String)>) -> Map<Seq<char>, Seq<char>>
    decreases entries.len(),
{
    if entries.len() == 0 {
        Map::empty()
    } else {
        pairs(entries.drop_last()).insert(entries.last().0@, entries.last().1@)
    }
}

/// With ascending keys the map has each pair of the list, and no other.
proof fn lemma_pairs(entries: Seq<(String, String)>)
    requires
        ascending(keys_of(entries)),
    ensures
        pairs(entries).dom().finite(),
        pairs(entries).len() == entries.len(),
        forall|k: Seq<char>| #[trigger]
            pairs(entries).contains_key(k) <==> exists|i: int|
                0 <= i < entries.len() && (#[trigger] entries[i]).0@ == k,
        forall|i: int|
            0 <= i < entries.len() ==> pairs(entries)[(#[trigger] entries[i]).0@] == entries[i].1@,
    decreases entries.len(),
{
    if entries.len() > 0 {
        let rest = entries.drop_last();
        let last = entries.last();
        assert forall|i: int, j: int| 0 <= i < j < rest.len() implies precedes(
            #[trigger] keys_of(rest)[i],
            #[trigger] keys_of(rest)[j],
        ) by {
            assert(keys_of(entries)[i] == keys_of(rest)[i]);
            assert(keys_of(entries)[j] == keys_of(rest)[j]);
        }
        lemma_pairs(rest);
        assert forall|i: int| 0 <= i < rest.len() implies (#[trigger] rest[i]).0@ != last.0@ by {
            assert(precedes(keys_of(entries)[i], keys_of(entries)[entries.len() - 1]));
            lemma_precedes_total(rest[i].0@, last.0@);
        }
        assert(!pairs(rest).contains_key(last.0@));
        assert forall|k: Seq<char>| #[trigger]
            pairs(entries).contains_key(k) implies exists|i: int|
            0 <= i < entries.len() && (#[trigger] entries[i]).0@ == k by {
            if k == last.0@ {
                assert(entries[entries.len() - 1].0@ == k);
            } else {
                assert(pairs(rest).contains_key(k));
                let i = choose|i: int| 0 <= i < rest.len() && (#[trigger] rest[i]).0@ == k;
                assert(entries[i].0@ == k);
            }
        }
        assert forall|i: int| 0 <= i < entries.len() implies pairs(entries).contains_key(
            (#[trigger] entries[i]).0@,
        ) && pairs(entries)[entries[i].0@] == entries[i].1@ by {
            if i < rest.len() {
                assert(rest[i] == entries[i]);
            }
        }
    }
}

impl View for StringMap {
    type V = Map<Seq<char>, Seq<char>>;

    /// The map from keys to values.
    closed spec fn view(&self) -> Map<Seq<char>, Seq<char>> {
        pairs(self.entries@)
    }
}

impl StringMap {
    #[verifier::type_invariant]
    spec fn ordered(self) -> bool {
        ascending(keys_of(self.entries@))
    }

    /// The keys, in order.
    pub closed spec fn keys(&self) -> Seq<Seq<char>> {
        keys_of(self.entries@)
    }

    /// A map without pairs.
    pub fn new() -> (map: StringMap)
        ensures
            map@ == Map::<Seq<char>, Seq<char>>::empty(),
    {
        StringMap { entries: Vec::new() }
    }

    /// The number of pairs. The keys are those of the map, each once, in order.
    pub fn len(&self) -> (n: usize)
        ensures
            n == self@.len(),
            n == self.keys().len(),
            self@.dom().finite(),
            ascending(self.keys()),
            forall|k: Seq<char>| self@.contains_key(k) <==> #[trigger] self.keys().contains(k),
    {
        proof {
            use_type_invariant(self);
            lemma_pairs(self.entries@);
            assert forall|k: Seq<char>| self@.contains_key(k) <==> #[trigger] self.keys().contains(
                k,
            ) by {
                if self@.contains_key(k) {
                    let i = choose|i: int|
                        0 <= i < self.entries@.len() && (#[trigger] self.entries@[i]).0@ == k;
                    assert(self.keys()[i] == k);
                }
                if self.keys().contains(k) {
                    let i = choose|i: int| 0 <= i < self.keys().len() && self.keys()[i] == k;
                    assert(self.entries@[i].0@ == k);
                }
            }
        }
        self.entries.len()
    }

    /// The position of `key`, if it is there, or else where it belongs.
    fn position(&self, key: &str) -> (place: (usize, bool))
        ensures
            place.0 <= self.entries@.len(),
            place.1 ==> place.0 < self.entries@.len() && self.entries@[place.0 as int].0@ == key@,
            !place.1 ==> forall|i: int|
                0 <= i < place.0 ==> precedes((#[trigger] self.entries@[i]).0@, key@),
            !place.1 ==> forall|i: int|
                place.0 <= i < self.entries@.len() ==> precedes(
                    key@,
                    (#[trigger] self.entries@[i]).0@,
                ),
    {
        proof {
            use_type_invariant(self);
        }
        let mut i: usize = self.entries.len();
        while i > 0
            invariant
                i <= self.entries@.len(),
                self.ordered(),
                forall|j: int|
                    i <= j < self.entries@.len() ==> precedes(
                        key@,
                        (#[trigger] self.entries@[j]).0@,
                    ),
            decreases i,
        {
            match rank(key, self.entries[i - 1].0.as_str()) {
                Rank::Before => {
                    i = i - 1;
                },
                Rank::Same => {
                    return (i - 1, true);
                },
                Rank::After => {
                    proof {
                        let ks = keys_of(self.entries@);
                        assert forall|j: int| 0 <= j < i implies precedes(
                            (#[trigger] self.entries@[j]).0@,
                            key@,
                        ) by {
                            if j < i - 1 {
                                assert(precedes(ks[j], ks[i - 1]));
                                lemma_precedes_transitive(ks[j], ks[i - 1], key@);
                            }
                        }
                    }
                    return (i, false);
                },
            }
        }
        (0, false)
    }

    /// Puts a pair into the map, in place of the one with the same key, if any.
    pub fn insert(&mut self, key: String, value: String)
        ensures
            final(self)@ == old(self)@.insert(key@, value@),
    {
        let (at, found) = self.position(key.as_str());
        let ghost before = self.entries@;
        proof {
            use_type_invariant(&*self);
            lemma_pairs(before);
        }
        let mut entries: Vec<(String, String)> = Vec::new();
        std::mem::swap(&mut entries, &mut self.entries);
        if found {
            entries.set(at, (key, value));
            proof {
                assert(keys_of(entries@) =~= keys_of(before));
            }
        } else {
            entries.insert(at, (key, value));
            proof {
                let ks = keys_of(entries@);
                assert forall|i: int, j: int| 0 <= i < j < ks.len() implies precedes(
                    #[trigger] ks[i],
                    #[trigger] ks[j],
                ) by {
                    let bs = keys_of(before);
                    if j < at {
                        assert(precedes(bs[i], bs[j]));
                    } else if j == at {
                        assert(precedes(before[i].0@, key@));
                    } else if i < at {
                        assert(precedes(bs[i], bs[j - 1]));
                    } else if i == at {
                        assert(precedes(key@, before[j - 1].0@));
                    } else {
                        assert(precedes(bs[i - 1], bs[j - 1]));
                    }
                }
            }
        }
        proof {
            lemma_pairs(entries@);
            lemma_inserted(before, entries@, at as int, found, key, value);
        }
        self.entries = entries;
    }

    /// The value of `key`, if the map has one.
    pub fn get(&self, key: &str) -> (value: Option<&String>)
        ensures
            value.is_some() == self@.contains_key(key@),
            value.is_some() ==> value.unwrap()@ == self@[key@],
    {
        proof {
            use_type_invariant(self);
            lemma_pairs(self.entries@);
        }
        let (at, found) = self.position(key);
        if found {
            Some(&self.entries[at].1)
        } else {
            proof {
                self.lemma_absent(key@, at as int);
            }
            None
        }
    }

    /// Takes the value of `key` out of the map, if the map has one.
    pub fn remove(&mut self, key: &str) -> (value: Option<String>)
        ensures
            value.is_some() == old(self)@.contains_key(key@),
            value.is_some() ==> value.unwrap()@ == old(self)@[key@],
            final(self)@ == old(self)@.remove(key@),
    {
        let (at, found) = self.position(key);
        let ghost before = self.entries@;
        proof {
            use_type_invariant(&*self);
            lemma_pairs(before);
        }
        if !found {
            proof {
                self.lemma_absent(key@, at as int);
                assert(self@.remove(key@) =~= self@);
            }
            return None;
        }
        let mut entries: Vec<(String, String)> = Vec::new();
        std::mem::swap(&mut entries, &mut self.entries);
        let (_, value) = entries.remove(at);
        proof {
            let ks = keys_of(entries@);
            let bs = keys_of(before);
            assert forall|i: int, j: int| 0 <= i < j < ks.len() implies precedes(
                #[trigger] ks[i],
                #[trigger] ks[j],
            ) by {
                let p = if i < at { i } else { i + 1 };
                let q = if j < at { j } else { j + 1 };
                assert(precedes(bs[p], bs[q]));
            }
            lemma_pairs(entries@);
            lemma_removed(before, entries@, at as int);
        }
        self.entries = entries;
        Some(value)
    }

    /// The pair at place `i` in the order of the keys.
    pub fn at(&self, i: usize) -> (pair: (&String, &String))
        requires
            i < self.keys().len(),
        ensures
            pair.0@ == self.keys()[i as int],
            self@.contains_key(pair.0@),
            self@[pair.0@] == pair.1@,
    {
        proof {
            use_type_invariant(self);
            lemma_pairs(self.entries@);
        }
        (&self.entries[i].0, &self.entries[i].1)
    }

    /// A key that `position` did not find is not in the map.
    proof fn lemma_absent(&self, key: Seq<char>, at: int)
        requires
            self.ordered(),
            0 <= at <= self.entries@.len(),
            forall|i: int| 0 <= i < at ==> precedes((#[trigger] self.entries@[i]).0@, key),
            forall|i: int|
                at <= i < self.entries@.len() ==> precedes(key, (#[trigger] self.entries@[i]).0@),
        ensures
            !self@.contains_key(key),
    {
        lemma_pairs(self.entries@);
        if self@.contains_key(key) {
            let i = choose|i: int|
                0 <= i < self.entries@.len() && (#[trigger] self.entries@[i]).0@ == key;
            lemma_precedes_total(key, key);
        }
    }
}

/// What becomes of the map where a pair is put into its list.
proof fn lemma_inserted(
    before: Seq<(String, String)>,
    after: Seq<(String, String)>,
    at: int,
    found: bool,
    key: String,
    value: String,
)
    requires
        ascending(keys_of(before)),
        ascending(keys_of(after)),
        0 <= at <= before.len(),
        found ==> at < before.len() && before[at].0@ == key@ && after == before.update(
            at,
            (key, value),
        ),
        !found ==> after == before.insert(at, (key, value)),
    ensures
        pairs(after) == pairs(before).insert(key@, value@),
{
    lemma_pairs(before);
    lemma_pairs(after);
    let want = pairs(before).insert(key@, value@);
    assert(after[at] == (key, value));
    assert forall|k: Seq<char>| pairs(after).contains_key(k) <==> want.contains_key(k) by {
        if pairs(after).contains_key(k) {
            let i = choose|i: int| 0 <= i < after.len() && (#[trigger] after[i]).0@ == k;
            if i != at {
                let p = if found || i < at { i } else { i - 1 };
                assert(before[p] == after[i]);
            }
        }
        if want.contains_key(k) && k != key@ {
            let i = choose|i: int| 0 <= i < before.len() && (#[trigger] before[i]).0@ == k;
            let p = if found || i < at { i } else { i + 1 };
            assert(after[p] == before[i]);
        }
    }
    assert forall|k: Seq<char>| #[trigger] pairs(after).contains_key(k) implies pairs(after)[k]
        == want[k] by {
        let i = choose|i: int| 0 <= i < after.len() && (#[trigger] after[i]).0@ == k;
        if i != at {
            let p = if found || i < at { i } else { i - 1 };
            assert(before[p] == after[i]);
            assert(k != key@) by {
                if k == key@ {
                    assert(pairs(after)[after[i].0@] == after[i].1@);
                    let ks = keys_of(after);
                    lemma_precedes_total(ks[i], ks[at]);
                    if i < at {
                        assert(precedes(ks[i], ks[at]));
                    } else {
                        assert(precedes(ks[at], ks[i]));
                    }
                }
            }
        }
    }
    assert(pairs(after) =~= want);
}

/// What becomes of the map where a pair is taken out of its list.
proof fn lemma_removed(before: Seq<(String, String)>, after: Seq<(String, String)>, at: int)
    requires
        ascending(keys_of(before)),
        ascending(keys_of(after)),
        0 <= at < before.len(),
        after == before.remove(at),
    ensures
        pairs(after) == pairs(before).remove(before[at].0@),
{
    lemma_pairs(before);
    lemma_pairs(after);
    let key = before[at].0@;
    let want = pairs(before).remove(key);
    assert forall|k: Seq<char>| #[trigger] pairs(after).contains_key(k) implies want.contains_key(k)
        && pairs(after)[k] == want[k] by {
        let i = choose|i: int| 0 <= i < after.len() && (#[trigger] after[i]).0@ == k;
        let p = if i < at { i } else { i + 1 };
        assert(before[p] == after[i]);
        let ks = keys_of(before);
        lemma_precedes_total(ks[p], ks[at]);
        if p < at {
            assert(precedes(ks[p], ks[at]));
        } else {
            assert(precedes(ks[at], ks[p]));
        }
    }
    assert forall|k: Seq<char>| want.contains_key(k) implies #[trigger] pairs(after).contains_key(
        k,
    ) by {
        let i = choose|i: int| 0 <= i < before.len() && (#[trigger] before[i]).0@ == k;
        let p = if i < at { i } else { i - 1 };
        assert(after[p] == before[i]);
    }
    assert(pairs(after) =~= want);
}

} // verus!
