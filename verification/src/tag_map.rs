//! A map from text to values, kept as a list of entries in which no key
//! occurs twice.

use vstd::prelude::*;
use crate::native_span::SpanString;
use crate::text::text_eq;

verus! {

/// Whether some entry of `pairs` has the key `key`.
pub open spec fn has_key<W>(pairs: Seq<(Seq<char>, W)>, key: Seq<char>) -> bool {
    exists|i: int| 0 <= i < pairs.len() && (#[trigger] pairs[i]).0 == key
}

/// The place of an entry of `pairs` with the key `key`, where there is one.
pub open spec fn index_of<W>(pairs: Seq<(Seq<char>, W)>, key: Seq<char>) -> int {
    choose|i: int| 0 <= i < pairs.len() && (#[trigger] pairs[i]).0 == key
}

/// Whether no key occurs in two entries of `pairs`.
pub open spec fn distinct_keys<W>(pairs: Seq<(Seq<char>, W)>) -> bool {
    forall|i: int, j: int|
        0 <= i < j < pairs.len() ==> (#[trigger] pairs[i]).0 != (#[trigger] pairs[j]).0
}

/// The map that a list of entries with distinct keys stands for.
pub open spec fn pairs_to_map<W>(pairs: Seq<(Seq<char>, W)>) -> Map<Seq<char>, W> {
    Map::new(|k: Seq<char>| has_key(pairs, k), |k: Seq<char>| pairs[index_of(pairs, k)].1)
}

/// In a list with distinct keys, the map holds each entry's value under its key.
pub proof fn lemma_entry_in_map<W>(pairs: Seq<(Seq<char>, W)>, i: int)
    requires
        distinct_keys(pairs),
        0 <= i < pairs.len(),
    ensures
        pairs_to_map(pairs).contains_key(pairs[i].0),
        pairs_to_map(pairs)[pairs[i].0] == pairs[i].1,
{
    let j = index_of(pairs, pairs[i].0);
    assert(has_key(pairs, pairs[i].0));
    assert(j == i) by {
        if j < i {
            assert(pairs[j].0 != pairs[i].0);
        } else if i < j {
            assert(pairs[i].0 != pairs[j].0);
        }
    }
}

/// The map of the first `i + 1` entries is the map of the first `i` with the
/// entry at place `i` set.
pub proof fn lemma_take_next<W>(pairs: Seq<(Seq<char>, W)>, i: int)
    requires
        distinct_keys(pairs),
        0 <= i < pairs.len(),
    ensures
        pairs_to_map(pairs.take(i + 1)) == pairs_to_map(pairs.take(i)).insert(
            pairs[i].0,
            pairs[i].1,
        ),
{
    let shorter = pairs.take(i);
    let longer = pairs.take(i + 1);
    let k = pairs[i].0;
    assert(distinct_keys(longer)) by {
        assert forall|a: int, b: int| 0 <= a < b < longer.len() implies (#[trigger] longer[a]).0 != (
        #[trigger] longer[b]).0 by {
            assert(pairs[a].0 != pairs[b].0);
        }
    }
    assert(distinct_keys(shorter)) by {
        assert forall|a: int, b: int| 0 <= a < b < shorter.len() implies (#[trigger] shorter[a]).0
            != (#[trigger] shorter[b]).0 by {
            assert(pairs[a].0 != pairs[b].0);
        }
    }
    assert forall|q: Seq<char>| has_key(longer, q) <==> (q == k || has_key(shorter, q)) by {
        if has_key(longer, q) {
            let j = index_of(longer, q);
            if j < i {
                assert(shorter[j].0 == q);
            }
        }
        if has_key(shorter, q) {
            let j = index_of(shorter, q);
            assert(longer[j].0 == q);
        }
        if q == k {
            assert(longer[i].0 == q);
        }
    }
    assert forall|q: Seq<char>| has_key(longer, q) implies pairs_to_map(longer)[q]
        == pairs_to_map(shorter).insert(k, pairs[i].1)[q] by {
        let j = index_of(longer, q);
        lemma_entry_in_map(longer, j);
        if j < i {
            lemma_entry_in_map(shorter, j);
        }
    }
    assert(pairs_to_map(longer) =~= pairs_to_map(shorter).insert(k, pairs[i].1));
}

/// A map from text to values of type `V`. Setting a key that is present
/// replaces its value; the order of the entries carries no meaning.
#[derive(Debug)]
pub struct TagMap<V> {
    entries: Vec<(SpanString, V)>,
}

impl<V: View> TagMap<V> {
    /// The entries as mathematical pairs, in the order in which they are kept.
    pub closed spec fn pairs(&self) -> Seq<(Seq<char>, V::V)> {
        Seq::new(self.entries@.len(), |i: int| (self.entries@[i].0@, self.entries@[i].1@))
    }

    /// No key occurs twice.
    pub closed spec fn wf(&self) -> bool {
        distinct_keys(self.pairs())
    }

    /// The map that the entries stand for.
    pub closed spec fn view(&self) -> Map<Seq<char>, V::V> {
        pairs_to_map(self.pairs())
    }

    /// What `view` is in terms of `pairs`.
    pub proof fn lemma_view(&self)
        ensures
            self@ == pairs_to_map(self.pairs()),
            self.wf() == distinct_keys(self.pairs()),
    {
    }

    /// The empty map.
    pub fn new() -> (r: Self)
        ensures
            r.wf(),
            r@ == Map::<Seq<char>, V::V>::empty(),
            r.pairs().len() == 0,
    {
        let r = TagMap { entries: Vec::new() };
        assert(r@ =~= Map::<Seq<char>, V::V>::empty());
        r
    }

    /// The number of entries.
    pub fn len(&self) -> (n: usize)
        ensures
            n == self.pairs().len(),
    {
        self.entries.len()
    }

    /// The key of the entry at place `i`.
    pub fn key_at(&self, i: usize) -> (k: &SpanString)
        requires
            i < self.pairs().len(),
        ensures
            k@ == self.pairs()[i as int].0,
    {
        &self.entries[i].0
    }

    /// The value of the entry at place `i`.
    pub fn value_at(&self, i: usize) -> (v: &V)
        requires
            i < self.pairs().len(),
        ensures
            v@ == self.pairs()[i as int].1,
    {
        &self.entries[i].1
    }

    fn position(&self, key: &str) -> (r: Option<usize>)
        ensures
            match r {
                Some(i) => i < self.pairs().len() && self.pairs()[i as int].0 == key@,
                None => !has_key(self.pairs(), key@),
            },
    {
        let mut i: usize = 0;
        while i < self.entries.len()
            invariant
                i <= self.entries@.len(),
                forall|j: int| 0 <= j < i ==> (#[trigger] self.pairs()[j]).0 != key@,
            decreases self.entries@.len() - i,
        {
            if text_eq(self.entries[i].0.as_str(), key) {
                return Some(i);
            }
            i += 1;
        }
        None
    }

    /// Sets `key` to `val`, whether or not the key was present.
    pub fn insert(&mut self, key: SpanString, val: V)
        requires
            old(self).wf(),
        ensures
            final(self).wf(),
            final(self)@ == old(self)@.insert(key@, val@),
    {
        let ghost before = self.pairs();
        let ghost k = key@;
        let ghost v = val@;
        match self.position(key.as_str()) {
            Some(i) => {
                self.entries[i] = (key, val);
                proof {
                    let after = self.pairs();
                    assert(after =~= before.update(i as int, (k, v)));
                    assert(distinct_keys(after)) by {
                        assert forall|a: int, b: int| 0 <= a < b < after.len() implies (
                        #[trigger] after[a]).0 != (#[trigger] after[b]).0 by {
                            assert(before[a].0 != before[b].0);
                        }
                    }
                    assert forall|q: Seq<char>| has_key(after, q) <==> has_key(before, q) by {
                        if has_key(after, q) {
                            let j = index_of(after, q);
                            assert(before[j].0 == q);
                        }
                        if has_key(before, q) {
                            let j = index_of(before, q);
                            assert(after[j].0 == q);
                        }
                    }
                    assert forall|q: Seq<char>| has_key(after, q) implies pairs_to_map(after)[q]
                        == pairs_to_map(before).insert(k, v)[q] by {
                        let j = index_of(after, q);
                        lemma_entry_in_map(after, j);
                        lemma_entry_in_map(before, j);
                    }
                    assert(pairs_to_map(after) =~= pairs_to_map(before).insert(k, v));
                }
            },
            None => {
                self.entries.push((key, val));
                proof {
                    let after = self.pairs();
                    assert(after =~= before.push((k, v)));
                    assert(distinct_keys(after)) by {
                        assert forall|a: int, b: int| 0 <= a < b < after.len() implies (
                        #[trigger] after[a]).0 != (#[trigger] after[b]).0 by {
                            if b < before.len() {
                                assert(before[a].0 != before[b].0);
                            } else {
                                assert(before[a].0 != k);
                            }
                        }
                    }
                    assert forall|q: Seq<char>| has_key(after, q) <==> (q == k || has_key(
                        before,
                        q,
                    )) by {
                        if has_key(after, q) {
                            let j = index_of(after, q);
                            if j < before.len() {
                                assert(before[j].0 == q);
                            }
                        }
                        if has_key(before, q) {
                            let j = index_of(before, q);
                            assert(after[j].0 == q);
                        }
                        if q == k {
                            assert(after[before.len() as int].0 == q);
                        }
                    }
                    assert forall|q: Seq<char>| has_key(after, q) implies pairs_to_map(after)[q]
                        == pairs_to_map(before).insert(k, v)[q] by {
                        let j = index_of(after, q);
                        lemma_entry_in_map(after, j);
                        if j < before.len() {
                            lemma_entry_in_map(before, j);
                        }
                    }
                    assert(pairs_to_map(after) =~= pairs_to_map(before).insert(k, v));
                }
            },
        }
    }

    /// The value under `key`, where the key is present.
    pub fn get(&self, key: &str) -> (r: Option<&V>)
        requires
            self.wf(),
        ensures
            match r {
                Some(v) => self@.contains_key(key@) && v@ == self@[key@],
                None => !self@.contains_key(key@),
            },
    {
        match self.position(key) {
            Some(i) => {
                proof {
                    lemma_entry_in_map(self.pairs(), i as int);
                }
                Some(&self.entries[i].1)
            },
            None => None,
        }
    }
}

/// Sets in `dst` every entry of `src`: where both hold a key, the value of
/// `src` stays.
pub fn extend_texts(dst: &mut TagMap<SpanString>, src: &TagMap<SpanString>)
    requires
        old(dst).wf(),
        src.wf(),
    ensures
        final(dst).wf(),
        final(dst)@ == old(dst)@.union_prefer_right(src@),
{
    let n: usize = src.len();
    let mut i: usize = 0;
    proof {
        src.lemma_view();
        assert(pairs_to_map(src.pairs().take(0)) =~= Map::<Seq<char>, Seq<char>>::empty());
        assert(dst@ =~= old(dst)@.union_prefer_right(pairs_to_map(src.pairs().take(0))));
    }
    while i < n
        invariant
            i <= n,
            n == src.pairs().len(),
            dst.wf(),
            distinct_keys(src.pairs()),
            dst@ == old(dst)@.union_prefer_right(pairs_to_map(src.pairs().take(i as int))),
        decreases n - i,
    {
        let key = src.key_at(i).clone();
        let value = src.value_at(i).clone();
        proof {
            lemma_take_next(src.pairs(), i as int);
        }
        let ghost before = dst@;
        dst.insert(key, value);
        assert(dst@ =~= old(dst)@.union_prefer_right(
            pairs_to_map(src.pairs().take(i as int + 1)),
        ));
        i += 1;
    }
    proof {
        assert(src.pairs().take(n as int) =~= src.pairs());
    }
}

/// Sets in `dst` every entry of `src`: where both hold a key, the value of
/// `src` stays.
pub fn extend_numbers(dst: &mut TagMap<u64>, src: &TagMap<u64>)
    requires
        old(dst).wf(),
        src.wf(),
    ensures
        final(dst).wf(),
        final(dst)@ == old(dst)@.union_prefer_right(src@),
{
    let n: usize = src.len();
    let mut i: usize = 0;
    proof {
        src.lemma_view();
        assert(pairs_to_map(src.pairs().take(0)) =~= Map::<Seq<char>, u64>::empty());
        assert(dst@ =~= old(dst)@.union_prefer_right(pairs_to_map(src.pairs().take(0))));
    }
    while i < n
        invariant
            i <= n,
            n == src.pairs().len(),
            dst.wf(),
            distinct_keys(src.pairs()),
            dst@ == old(dst)@.union_prefer_right(pairs_to_map(src.pairs().take(i as int))),
        decreases n - i,
    {
        let key = src.key_at(i).clone();
        let value: u64 = *src.value_at(i);
        proof {
            lemma_take_next(src.pairs(), i as int);
        }
        dst.insert(key, value);
        assert(dst@ =~= old(dst)@.union_prefer_right(
            pairs_to_map(src.pairs().take(i as int + 1)),
        ));
        i += 1;
    }
    proof {
        assert(src.pairs().take(n as int) =~= src.pairs());
    }
}

} // verus!
