//! A small map from names to values that keeps the order of insertion.

use vstd::prelude::*;
use crate::text::str_eq;

verus! {

/// A map keyed by text. Entries stand in the order in which their keys were
/// first inserted; where a key stands more than once, the first entry counts.
#[derive(Clone, Debug, PartialEq)]
pub struct TextMap<V> {
    pub entries: Vec<(String, V)>,
}

/// Whether `index` is the first position of `key` among `entries`.
pub open spec fn first_at<V>(entries: Seq<(String, V)>, key: Seq<char>, index: int) -> bool {
    &&& 0 <= index < entries.len()
    &&& entries[index].0@ == key
    &&& forall|j: int| 0 <= j < index ==> entries[j].0@ != key
}

/// Whether some entry has the key.
pub open spec fn has_key<V>(entries: Seq<(String, V)>, key: Seq<char>) -> bool {
    exists|i: int| 0 <= i < entries.len() && entries[i].0@ == key
}

/// The first position of `key` among `entries`.
pub open spec fn position<V>(entries: Seq<(String, V)>, key: Seq<char>) -> int {
    choose|i: int| first_at(entries, key, i)
}

/// A key that occurs has a first position, and only one.
pub proof fn lemma_position<V>(entries: Seq<(String, V)>, key: Seq<char>, index: int)
    requires
        first_at(entries, key, index),
    ensures
        has_key(entries, key),
        position(entries, key) == index,
{
    let chosen = position(entries, key);
    assert(first_at(entries, key, chosen));
    if chosen < index {
        assert(entries[chosen].0@ != key);
    } else if index < chosen {
        assert(entries[index].0@ != key);
    }
}

/// A key that occurs has a first position.
pub proof fn lemma_has_first<V>(entries: Seq<(String, V)>, key: Seq<char>)
    requires
        has_key(entries, key),
    ensures
        first_at(entries, key, position(entries, key)),
{
    let some = choose|i: int| 0 <= i < entries.len() && entries[i].0@ == key;
    lemma_first_below(entries, key, some);
}

proof fn lemma_first_below<V>(entries: Seq<(String, V)>, key: Seq<char>, bound: int)
    requires
        0 <= bound < entries.len(),
        entries[bound].0@ == key,
    ensures
        exists|i: int| first_at(entries, key, i),
    decreases bound,
{
    if exists|j: int| 0 <= j < bound && entries[j].0@ == key {
        let j = choose|j: int| 0 <= j < bound && entries[j].0@ == key;
        lemma_first_below(entries, key, j);
    } else {
        assert(first_at(entries, key, bound));
    }
}

impl<V> TextMap<V> {
    /// Whether the map holds `key`.
    pub open spec fn contains(&self, key: Seq<char>) -> bool {
        has_key(self.entries@, key)
    }

    /// The value under `key`, where the map holds it.
    pub open spec fn value(&self, key: Seq<char>) -> V {
        self.entries@[position(self.entries@, key)].1
    }

    /// The map as a mathematical map.
    pub open spec fn model(&self) -> Map<Seq<char>, V> {
        Map::new(|key: Seq<char>| self.contains(key), |key: Seq<char>| self.value(key))
    }

    /// No key stands twice.
    pub open spec fn distinct(&self) -> bool {
        forall|i: int, j: int|
            0 <= i < j < self.entries@.len() ==> self.entries@[i].0@ != self.entries@[j].0@
    }

    /// The empty map.
    pub fn new() -> (map: Self)
        ensures
            map.entries@.len() == 0,
            map.model() == Map::<Seq<char>, V>::empty(),
            map.distinct(),
    {
        let map = TextMap { entries: Vec::new() };
        assert(map.model() =~= Map::<Seq<char>, V>::empty());
        map
    }

    /// The number of entries.
    pub fn len(&self) -> (count: usize)
        ensures
            count == self.entries@.len(),
    {
        self.entries.len()
    }

    /// Whether the map has no entry.
    pub fn is_empty(&self) -> (empty: bool)
        ensures
            empty == (self.entries@.len() == 0),
    {
        self.entries.len() == 0
    }

    /// The first position of `key`, if the map holds it.
    pub fn index_of(&self, key: &str) -> (found: Option<usize>)
        ensures
            found.is_some() == self.contains(key@),
            found matches Some(i) ==> first_at(self.entries@, key@, i as int) && i as int
                == position(self.entries@, key@),
    {
        let mut i: usize = 0;
        while i < self.entries.len()
            invariant
                i <= self.entries@.len(),
                forall|j: int| 0 <= j < i ==> self.entries@[j].0@ != key@,
            decreases self.entries.len() - i,
        {
            if str_eq(self.entries[i].0.as_str(), key) {
                proof {
                    lemma_position(self.entries@, key@, i as int);
                }
                return Some(i);
            }
            i += 1;
        }
        None
    }

    /// Whether the map holds `key`.
    pub fn contains_key(&self, key: &str) -> (held: bool)
        ensures
            held == self.contains(key@),
            held == self.model().contains_key(key@),
    {
        self.index_of(key).is_some()
    }

    /// The value under `key`.
    pub fn get(&self, key: &str) -> (found: Option<&V>)
        ensures
            found.is_some() == self.contains(key@),
            found matches Some(v) ==> *v == self.value(key@) && self.model()[key@] == *v,
    {
        match self.index_of(key) {
            Some(i) => Some(&self.entries[i].1),
            None => None,
        }
    }

    /// Puts `value` under `key`. A key already held keeps its place and gets
    /// the new value; a new key goes to the end.
    pub fn insert(&mut self, key: String, value: V)
        ensures
            final(self).model() == old(self).model().insert(key@, value),
            old(self).contains(key@) ==> final(self).entries@ == old(self).entries@.update(
                position(old(self).entries@, key@),
                (key, value),
            ),
            !old(self).contains(key@) ==> final(self).entries@ == old(self).entries@.push(
                (key, value),
            ),
            old(self).distinct() ==> final(self).distinct(),
    {
        let ghost before = self.entries@;
        match self.index_of(key.as_str()) {
            Some(i) => {
                self.entries[i] = (key, value);
                proof {
                    let after = self.entries@;
                    assert forall|k: Seq<char>| has_key(after, k) == (has_key(before, k) || k
                        == key@) by {
                        if has_key(after, k) {
                            let j = choose|j: int| 0 <= j < after.len() && after[j].0@ == k;
                            if j != i {
                                assert(before[j].0@ == k);
                            }
                        }
                        if has_key(before, k) {
                            let j = choose|j: int| 0 <= j < before.len() && before[j].0@ == k;
                            assert(after[j].0@ == k);
                        }
                        if k == key@ {
                            assert(after[i as int].0@ == k);
                        }
                    }
                    assert forall|k: Seq<char>| has_key(after, k) implies after[position(
                        after,
                        k,
                    )].1 == (if k == key@ {
                        value
                    } else {
                        before[position(before, k)].1
                    }) by {
                        lemma_has_first(after, k);
                        let p = position(after, k);
                        if k == key@ {
                            lemma_position(after, k, i as int);
                        } else {
                            assert(before[i as int].0@ == key@);
                            assert(p != i);
                            assert(before[p] == after[p]);
                            assert forall|j: int| 0 <= j < p implies before[j].0@ != k by {
                                if j != i {
                                    assert(before[j] == after[j]);
                                }
                            }
                            assert(first_at(before, k, p));
                            lemma_position(before, k, p);
                        }
                    }
                    assert(self.model() =~= old(self).model().insert(key@, value));
                }
            },
            None => {
                self.entries.push((key, value));
                proof {
                    let after = self.entries@;
                    let last = before.len() as int;
                    assert forall|k: Seq<char>| has_key(after, k) == (has_key(before, k) || k
                        == key@) by {
                        if has_key(after, k) {
                            let j = choose|j: int| 0 <= j < after.len() && after[j].0@ == k;
                            if j != last {
                                assert(before[j].0@ == k);
                            }
                        }
                        if has_key(before, k) {
                            let j = choose|j: int| 0 <= j < before.len() && before[j].0@ == k;
                            assert(after[j].0@ == k);
                        }
                        if k == key@ {
                            assert(after[last].0@ == k);
                        }
                    }
                    assert forall|k: Seq<char>| has_key(after, k) implies after[position(
                        after,
                        k,
                    )].1 == (if k == key@ {
                        value
                    } else {
                        before[position(before, k)].1
                    }) by {
                        lemma_has_first(after, k);
                        let p = position(after, k);
                        if k == key@ {
                            assert forall|j: int| 0 <= j < last implies after[j].0@ != k by {
                                assert(before[j].0@ == after[j].0@);
                            }
                            lemma_position(after, k, last);
                        } else {
                            assert(after[last].0@ == key@);
                            assert(p != last);
                            assert(before[p] == after[p]);
                            assert forall|j: int| 0 <= j < p implies before[j].0@ != k by {
                                assert(before[j] == after[j]);
                            }
                            assert(first_at(before, k, p));
                            lemma_position(before, k, p);
                        }
                    }
                    assert(self.model() =~= old(self).model().insert(key@, value));
                }
            },
        }
    }
}

impl<V> TextMap<V> {
    /// Takes out the first entry under `key`, if there is one, and hands out
    /// its value.
    pub fn remove(&mut self, key: &str) -> (removed: Option<V>)
        ensures
            removed.is_some() == old(self).contains(key@),
            removed matches Some(value) ==> value == old(self).value(key@) && final(self).entries@
                == old(self).entries@.remove(position(old(self).entries@, key@)),
            removed is None ==> final(self).entries@ == old(self).entries@,
            old(self).distinct() ==> final(self).distinct() && final(self).model()
                == old(self).model().remove(key@),
    {
        let ghost before = self.entries@;
        match self.index_of(key) {
            None => {
                assert(self.model() =~= old(self).model().remove(key@));
                None
            },
            Some(i) => {
                let entry = self.entries.remove(i);
                proof {
                    let after = self.entries@;
                    if old(self).distinct() {
                        assert forall|a: int, b: int| 0 <= a < b < after.len() implies after[a].0@
                            != after[b].0@ by {
                            let a0 = if a < i { a } else { a + 1 };
                            let b0 = if b < i { b } else { b + 1 };
                            assert(after[a] == before[a0]);
                            assert(after[b] == before[b0]);
                        }
                        assert forall|k: Seq<char>| has_key(after, k) == (has_key(before, k) && k
                            != key@) by {
                            if has_key(after, k) {
                                let j = choose|j: int| 0 <= j < after.len() && after[j].0@ == k;
                                let j0 = if j < i { j } else { j + 1 };
                                assert(after[j] == before[j0]);
                                assert(before[j0].0@ == k);
                                if j0 < i {
                                    assert(before[j0].0@ != before[i as int].0@);
                                } else {
                                    assert(before[i as int].0@ != before[j0].0@);
                                }
                            }
                            if has_key(before, k) && k != key@ {
                                let j = choose|j: int| 0 <= j < before.len() && before[j].0@ == k;
                                let j1 = if j < i { j } else { j - 1 };
                                assert(after[j1] == before[j]);
                            }
                        }
                        assert forall|k: Seq<char>| has_key(after, k) implies after[position(
                            after,
                            k,
                        )].1 == before[position(before, k)].1 by {
                            lemma_has_first(after, k);
                            let p = position(after, k);
                            let p0 = if p < i { p } else { p + 1 };
                            assert(after[p] == before[p0]);
                            assert forall|j: int| 0 <= j < p0 implies before[j].0@ != k by {
                                if j < p0 {
                                    assert(before[j].0@ != before[p0].0@);
                                }
                            }
                            lemma_position(before, k, p0);
                        }
                        assert(self.model() =~= old(self).model().remove(key@));
                    }
                }
                Some(entry.1)
            },
        }
    }
}

} // verus!
