//! Grouping of rules by pattern.
//!
//! Several rules may share one pattern text. The pattern engines are built
//! over each distinct text once; this module computes the distinct texts and,
//! for each, the positions of the rules that share it.

use vstd::prelude::*;
use crate::text::str_eq;
use crate::pattern::{texts, optional_texts};

verus! {

/// The distinct texts among `keys`, each at the place of its first
/// occurrence.
pub open spec fn unique_keys(keys: Seq<Option<Seq<char>>>) -> Seq<Seq<char>>
    decreases keys.len(),
{
    if keys.len() == 0 {
        Seq::empty()
    } else {
        let before = unique_keys(keys.drop_last());
        match keys.last() {
            Some(text) => if before.contains(text) {
                before
            } else {
                before.push(text)
            },
            None => before,
        }
    }
}

/// Whether `group` lists `position`.
pub open spec fn holds(group: Seq<usize>, position: int) -> bool {
    exists|q: int| 0 <= q < group.len() && group[q] == position
}

/// `groups[k]` holds exactly the positions whose key is `patterns[k]`, and
/// `patterns` are the distinct keys.
pub open spec fn grouped(
    keys: Seq<Option<Seq<char>>>,
    patterns: Seq<Seq<char>>,
    groups: Seq<Vec<usize>>,
) -> bool {
    &&& patterns == unique_keys(keys)
    &&& groups.len() == patterns.len()
    &&& forall|k: int, i: int|
        0 <= k < groups.len() ==> (#[trigger] holds(groups[k]@, i) <==> 0 <= i < keys.len()
            && keys[i] == Some(patterns[k]))
}

/// Whether the key at `position` is among the patterns that `hits` name.
pub open spec fn fires(keys: Seq<Option<Seq<char>>>, hits: Seq<usize>, position: int) -> bool {
    &&& 0 <= position < keys.len()
    &&& keys[position] matches Some(text)
    &&& exists|h: int|
        0 <= h < hits.len() && hits[h] < unique_keys(keys).len() && unique_keys(
            keys,
        )[#[trigger] hits[h] as int] == text
}

/// The distinct keys hold every key, hold nothing else, and hold nothing
/// twice.
pub proof fn lemma_unique_keys(keys: Seq<Option<Seq<char>>>)
    ensures
        forall|i: int|
            0 <= i < keys.len() && keys[i] is Some ==> unique_keys(keys).contains(
                #[trigger] keys[i]->0,
            ),
        forall|k: int|
            0 <= k < unique_keys(keys).len() ==> keys.contains(
                Some(#[trigger] unique_keys(keys)[k]),
            ),
        forall|j: int, k: int|
            0 <= j < k < unique_keys(keys).len() ==> unique_keys(keys)[j] != unique_keys(keys)[k],
    decreases keys.len(),
{
    if keys.len() > 0 {
        let shorter = keys.drop_last();
        let before = unique_keys(shorter);
        let all = unique_keys(keys);
        lemma_unique_keys(shorter);
        assert forall|i: int| 0 <= i < keys.len() && keys[i] is Some implies all.contains(
            #[trigger] keys[i]->0,
        ) by {
            if i < shorter.len() {
                assert(shorter[i] == keys[i]);
                let at = choose|at: int| 0 <= at < before.len() && before[at] == keys[i]->0;
                assert(all[at] == keys[i]->0);
            } else {
                let text = keys[i]->0;
                if before.contains(text) {
                } else {
                    assert(all[before.len() as int] == text);
                }
            }
        }
        assert forall|k: int| 0 <= k < all.len() implies keys.contains(Some(#[trigger] all[k])) by {
            if k < before.len() {
                assert(all[k] == before[k]);
                let at = choose|at: int| 0 <= at < shorter.len() && shorter[at] == Some(before[k]);
                assert(keys[at] == Some(all[k]));
            } else {
                assert(keys[keys.len() - 1] == Some(all[k]));
            }
        }
    }
}

/// The position of `text` in `list`, if it is there.
fn find_text(list: &Vec<String>, text: &str) -> (found: Option<usize>)
    ensures
        found.is_some() == texts(list@).contains(text@),
        found matches Some(k) ==> k < list@.len() && list@[k as int]@ == text@,
{
    let mut k: usize = 0;
    while k < list.len()
        invariant
            k <= list@.len(),
            forall|j: int| 0 <= j < k ==> list@[j]@ != text@,
        decreases list.len() - k,
    {
        if str_eq(list[k].as_str(), text) {
            assert(texts(list@)[k as int] == text@);
            return Some(k);
        }
        k += 1;
    }
    assert forall|j: int| 0 <= j < texts(list@).len() implies texts(list@)[j] != text@ by {
        assert(texts(list@)[j] == list@[j]@);
    }
    None
}

/// The distinct keys of `keys`, in the order of their first occurrence.
fn distinct_keys(keys: &Vec<Option<String>>) -> (patterns: Vec<String>)
    ensures
        texts(patterns@) == unique_keys(optional_texts(keys@)),
{
    let ghost model = optional_texts(keys@);
    let mut patterns: Vec<String> = Vec::new();
    let mut i: usize = 0;
    assert(model.take(0) =~= Seq::empty());
    assert(texts(patterns@) =~= Seq::empty());
    while i < keys.len()
        invariant
            i <= keys@.len(),
            model == optional_texts(keys@),
            texts(patterns@) == unique_keys(model.take(i as int)),
        decreases keys.len() - i,
    {
        let ghost before = texts(patterns@);
        assert(model.take(i + 1).drop_last() =~= model.take(i as int));
        assert(model.take(i + 1).last() == model[i as int]);
        match &keys[i] {
            Some(text) => {
                assert(model[i as int] == Some(text@));
                if find_text(&patterns, text.as_str()).is_none() {
                    patterns.push(text.clone());
                    assert(texts(patterns@) =~= before.push(text@));
                }
            },
            None => {
                assert(model[i as int] is None);
            },
        }
        i += 1;
    }
    assert(model.take(i as int) =~= model);
    patterns
}

/// The positions of `keys` that hold `text`, in ascending order.
fn positions_of(keys: &Vec<Option<String>>, text: &str) -> (group: Vec<usize>)
    ensures
        forall|i: int|
            #[trigger] holds(group@, i) <==> 0 <= i < keys@.len() && optional_texts(keys@)[i]
                == Some(text@),
{
    let mut group: Vec<usize> = Vec::new();
    let mut i: usize = 0;
    while i < keys.len()
        invariant
            i <= keys@.len(),
            forall|j: int|
                #[trigger] holds(group@, j) <==> 0 <= j < i && optional_texts(keys@)[j] == Some(
                    text@,
                ),
        decreases keys.len() - i,
    {
        let ghost before = group@;
        let found = match &keys[i] {
            Some(key) => str_eq(key.as_str(), text),
            None => false,
        };
        if found {
            group.push(i);
            assert(group@[before.len() as int] == i);
            assert forall|j: int| #[trigger] holds(group@, j) implies 0 <= j < i + 1
                && optional_texts(keys@)[j] == Some(text@) by {
                let at = choose|at: int| 0 <= at < group@.len() && group@[at] == j;
                if at < before.len() {
                    assert(before[at] == j);
                    assert(holds(before, j));
                }
            }
            assert forall|j: int|
                0 <= j < i + 1 && optional_texts(keys@)[j] == Some(text@) implies #[trigger] holds(
                group@,
                j,
            ) by {
                if j < i {
                    assert(holds(before, j));
                    let at = choose|at: int| 0 <= at < before.len() && before[at] == j;
                    assert(group@[at] == j);
                }
            }
        }
        i += 1;
    }
    group
}

/// Groups the positions of `keys` by their text.
pub fn group_keys(keys: &Vec<Option<String>>) -> (out: (Vec<String>, Vec<Vec<usize>>))
    ensures
        grouped(optional_texts(keys@), texts(out.0@), out.1@),
{
    let patterns = distinct_keys(keys);
    let mut groups: Vec<Vec<usize>> = Vec::new();
    let mut k: usize = 0;
    while k < patterns.len()
        invariant
            k <= patterns@.len(),
            groups@.len() == k,
            forall|p: int, i: int|
                0 <= p < k ==> (#[trigger] holds(groups@[p]@, i) <==> 0 <= i < keys@.len()
                    && optional_texts(keys@)[i] == Some(texts(patterns@)[p])),
        decreases patterns.len() - k,
    {
        let group = positions_of(keys, patterns[k].as_str());
        groups.push(group);
        k += 1;
    }
    (patterns, groups)
}

/// For each of `count` positions, a pattern among `hits` whose group holds
/// the position, if there is one.
pub fn mark_hits(groups: &Vec<Vec<usize>>, hits: &Vec<usize>, count: usize) -> (marks: Vec<
    Option<usize>,
>)
    ensures
        marks@.len() == count,
        forall|i: int|
            0 <= i < count ==> (#[trigger] marks@[i] is Some <==> exists|h: int|
                0 <= h < hits@.len() && hits@[h] < groups@.len()
                    && holds(groups@[hits@[h] as int]@, i)),
        forall|i: int|
            0 <= i < count && #[trigger] marks@[i] is Some ==> marks@[i]->0 < groups@.len()
                && holds(groups@[marks@[i]->0 as int]@, i) && hits@.contains(
                marks@[i]->0,
            ),
{
    let mut marks: Vec<Option<usize>> = Vec::new();
    let mut n: usize = 0;
    while n < count
        invariant
            n <= count,
            marks@.len() == n,
            forall|i: int| 0 <= i < n ==> marks@[i] is None,
        decreases count - n,
    {
        marks.push(None);
        n += 1;
    }
    let mut h: usize = 0;
    while h < hits.len()
        invariant
            h <= hits@.len(),
            marks@.len() == count,
            forall|i: int|
                0 <= i < count ==> (#[trigger] marks@[i] is Some <==> exists|g: int|
                    0 <= g < h && hits@[g] < groups@.len() && holds(groups@[hits@[g] as int]@, i)),
            forall|i: int|
                0 <= i < count && #[trigger] marks@[i] is Some ==> marks@[i]->0 < groups@.len()
                    && holds(groups@[marks@[i]->0 as int]@, i) && hits@.contains(
                    marks@[i]->0,
                ),
        decreases hits.len() - h,
    {
        let k = hits[h];
        if k < groups.len() {
            let group = &groups[k];
            let mut m: usize = 0;
            while m < group.len()
                invariant
                    m <= group@.len(),
                    h < hits@.len(),
                    k == hits@[h as int],
                    k < groups@.len(),
                    *group == groups@[k as int],
                    marks@.len() == count,
                    forall|i: int|
                        0 <= i < count ==> (#[trigger] marks@[i] is Some <==> (exists|g: int|
                            0 <= g < h && hits@[g] < groups@.len()
                                && holds(groups@[hits@[g] as int]@, i))
                                || (exists|q: int| 0 <= q < m && group@[q] == i)),
                    forall|i: int|
                        0 <= i < count && #[trigger] marks@[i] is Some ==> marks@[i]->0
                            < groups@.len() && holds(groups@[marks@[i]->0 as int]@, i)
                            && hits@.contains(marks@[i]->0),
                decreases group.len() - m,
            {
                let i = group[m];
                if i < count {
                    marks[i] = Some(k);
                    assert(holds(group@, i as int));
                    assert(hits@.contains(k));
                }
                m += 1;
            }
            assert forall|i: int| 0 <= i < count implies (#[trigger] marks@[i] is Some
                <==> exists|g: int|
                0 <= g < h + 1 && hits@[g] < groups@.len()
                    && holds(groups@[hits@[g] as int]@, i)) by {
                if holds(group@, i) {
                    let q = choose|q: int| 0 <= q < group@.len() && group@[q] == i;
                    assert(group@[q] == i);
                }
            }
        }
        h += 1;
    }
    marks
}

/// Under a grouping, a position is marked exactly when its key fires.
pub proof fn lemma_marks_fire(
    keys: Seq<Option<Seq<char>>>,
    patterns: Seq<Seq<char>>,
    groups: Seq<Vec<usize>>,
    hits: Seq<usize>,
    position: int,
)
    requires
        grouped(keys, patterns, groups),
        0 <= position < keys.len(),
    ensures
        fires(keys, hits, position) <==> exists|h: int|
            0 <= h < hits.len() && hits[h] < groups.len()
                && holds(groups[hits[h] as int]@, position),
{
    if fires(keys, hits, position) {
        let h = choose|h: int|
            0 <= h < hits.len() && hits[h] < unique_keys(keys).len() && unique_keys(
                keys,
            )[#[trigger] hits[h] as int] == keys[position]->0;
        assert(holds(groups[hits[h] as int]@, position));
    }
    if exists|h: int|
        0 <= h < hits.len() && hits[h] < groups.len() && holds(groups[hits[h] as int]@, position) {
        let h = choose|h: int|
            0 <= h < hits.len() && hits[h] < groups.len()
                && holds(groups[hits[h] as int]@, position);
        assert(keys[position] == Some(patterns[hits[h] as int]));
        assert(unique_keys(keys)[hits[h] as int] == keys[position]->0);
    }
}

} // verus!
