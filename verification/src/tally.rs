//! Counting how often each word occurs.

use crate::order::{arrange, stable_order, stable_perm};
use crate::text::str_eq;
use crate::words::distinct;
use vstd::prelude::*;

verus! {

/// How often `x` occurs among `items`.
pub open spec fn count_of(items: Seq<Seq<char>>, x: Seq<char>) -> nat
    decreases items.len(),
{
    if items.len() == 0 {
        0
    } else {
        count_of(items.drop_last(), x) + if items.last() == x {
            1nat
        } else {
            0nat
        }
    }
}

/// Each distinct item with the number of its occurrences, in the order in
/// which the items first occur.
pub open spec fn tally(items: Seq<Seq<char>>) -> Seq<(Seq<char>, usize)> {
    Seq::new(
        distinct(items).len(),
        |i: int| (distinct(items)[i], count_of(items, distinct(items)[i]) as usize),
    )
}

/// The keys that put larger counts first.
pub open spec fn descending_keys(counts: Seq<(Seq<char>, usize)>) -> Seq<u64> {
    Seq::new(counts.len(), |i: int| (u64::MAX - counts[i].1 as u64) as u64)
}

/// The counts with the larger ones first; equal counts keep their order.
pub open spec fn by_count(counts: Seq<(Seq<char>, usize)>) -> Seq<(Seq<char>, usize)> {
    arrange(counts, stable_perm(descending_keys(counts)))
}

/// Ordered by count, the counts do not rise, and each of them is still
/// there.
pub proof fn lemma_by_count_falls(counts: Seq<(Seq<char>, usize)>)
    requires
        counts.len() <= usize::MAX,
    ensures
        by_count(counts).len() == counts.len(),
        forall|i: int, j: int|
            0 <= i < j < counts.len() ==> (#[trigger] by_count(counts)[i]).1 >= (#[trigger] by_count(
                counts,
            )[j]).1,
        forall|i: int| 0 <= i < counts.len() ==> by_count(counts).contains(#[trigger] counts[i]),
{
    let keys = descending_keys(counts);
    crate::order::lemma_stable_perm(keys);
    crate::order::lemma_stable_perm_rises(keys);
    let perm = stable_perm(keys);
    assert forall|i: int| 0 <= i < counts.len() implies by_count(counts).contains(
        #[trigger] counts[i],
    ) by {
        assert(perm.contains(i as usize));
        let k = choose|k: int| 0 <= k < perm.len() && perm[k] == i as usize;
        assert(by_count(counts)[k] == counts[i]);
    }
}

/// The first `n` of `s`, or all of it if it has fewer.
pub open spec fn first_n<T>(s: Seq<T>, n: nat) -> Seq<T> {
    if n < s.len() {
        s.take(n as int)
    } else {
        s
    }
}

/// An item is among the distinct items exactly if it is among the items.
pub proof fn lemma_distinct_contains(items: Seq<Seq<char>>, x: Seq<char>)
    ensures
        distinct(items).contains(x) == items.contains(x),
        distinct(items).no_duplicates(),
        distinct(items).len() <= items.len(),
    decreases items.len(),
{
    if items.len() > 0 {
        let d = distinct(items.drop_last());
        lemma_distinct_contains(items.drop_last(), x);
        lemma_distinct_contains(items.drop_last(), items.last());
        if items.contains(x) {
            let i = choose|i: int| 0 <= i < items.len() && items[i] == x;
            if i < items.len() - 1 {
                assert(items.drop_last()[i] == x);
                assert(d.contains(x));
                if !d.contains(items.last()) {
                    let j = choose|j: int| 0 <= j < d.len() && d[j] == x;
                    assert(d.push(items.last())[j] == x);
                }
            } else {
                if !d.contains(items.last()) {
                    assert(d.push(items.last())[d.len() as int] == x);
                }
            }
        }
        if distinct(items).contains(x) {
            let j = choose|j: int| 0 <= j < distinct(items).len() && distinct(items)[j] == x;
            if j < d.len() {
                assert(d[j] == x);
                assert(d.contains(x));
                let i = choose|i: int| 0 <= i < items.drop_last().len() && items.drop_last()[i] == x;
                assert(items[i] == x);
            } else {
                assert(items[items.len() - 1] == x);
            }
        }
    }
}

/// What does not occur is counted zero times, and nothing is counted more
/// often than there are items.
pub proof fn lemma_count_bounds(items: Seq<Seq<char>>, x: Seq<char>)
    ensures
        count_of(items, x) <= items.len(),
        items.contains(x) == (count_of(items, x) > 0),
    decreases items.len(),
{
    if items.len() > 0 {
        lemma_count_bounds(items.drop_last(), x);
        if items.contains(x) {
            let i = choose|i: int| 0 <= i < items.len() && items[i] == x;
            if i < items.len() - 1 {
                assert(items.drop_last()[i] == x);
            }
        }
    }
}

/// The names of a list of counts.
pub open spec fn names_of(counts: Seq<(Seq<char>, usize)>) -> Seq<Seq<char>> {
    Seq::new(counts.len(), |i: int| counts[i].0)
}

/// Position of `x` among the counted names.
pub fn position(counts: &Vec<(String, usize)>, x: &str) -> (r: Option<usize>)
    ensures
        match r {
            Some(i) => i < counts.len() && counts.deep_view()[i as int].0 == x@,
            None => !names_of(counts.deep_view()).contains(x@),
        },
{
    let mut i: usize = 0;
    while i < counts.len()
        invariant
            i <= counts.len(),
            forall|j: int| 0 <= j < i ==> (#[trigger] counts.deep_view()[j]).0 != x@,
        decreases counts.len() - i,
    {
        if str_eq(counts[i].0.as_str(), x) {
            return Some(i);
        }
        i += 1;
    }
    assert forall|j: int| 0 <= j < counts.len() implies (#[trigger] names_of(counts.deep_view())[j])
        != x@ by {
    }
    None
}

/// Counts one more occurrence of `x`.
fn count_one(counts: &mut Vec<(String, usize)>, x: &str, Ghost(items): Ghost<Seq<Seq<char>>>)
    requires
        old(counts).deep_view() == tally(items),
        items.len() < usize::MAX,
    ensures
        final(counts).deep_view() == tally(items.push(x@)),
{
    let ghost next = items.push(x@);
    proof {
        assert(next.drop_last() =~= items);
        lemma_distinct_contains(items, x@);
        lemma_count_bounds(items, x@);
        assert(names_of(tally(items)) =~= distinct(items));
        assert forall|y: Seq<char>| y != x@ implies count_of(next, y) == count_of(items, y) by {}
    }
    match position(counts, x) {
        Some(i) => {
            let n = counts[i].1;
            let name = counts[i].0.clone();
            counts.set(i, (name, n + 1));
            proof {
                assert forall|j: int| 0 <= j < distinct(next).len() implies #[trigger] counts.deep_view()[j]
                    == tally(next)[j] by {
                    lemma_count_bounds(items, distinct(items)[j]);
                }
            }
        },
        None => {
            counts.push((String::from_str(x), 1));
            proof {
                assert forall|j: int| 0 <= j < distinct(next).len() implies #[trigger] counts.deep_view()[j]
                    == tally(next)[j] by {
                }
            }
        },
    }
}

/// The count that stands beside the name `x`, from position `from` on; 0
/// where the name is not listed.
pub open spec fn counted_from(counts: Seq<(Seq<char>, usize)>, x: Seq<char>, from: int) -> usize
    decreases counts.len() - from,
{
    if from < 0 || from >= counts.len() {
        0
    } else if counts[from].0 == x {
        counts[from].1
    } else {
        counted_from(counts, x, from + 1)
    }
}

/// The count that stands beside the name `x`; 0 where it is not listed.
pub open spec fn counted(counts: Seq<(Seq<char>, usize)>, x: Seq<char>) -> usize {
    counted_from(counts, x, 0)
}

proof fn lemma_counted_from(counts: Seq<(Seq<char>, usize)>, x: Seq<char>, from: int)
    requires
        0 <= from <= counts.len(),
        names_of(counts).no_duplicates(),
    ensures
        forall|i: int|
            from <= i < counts.len() && (#[trigger] counts[i]).0 == x ==> counted_from(counts, x, from)
                == counts[i].1,
        (forall|i: int| from <= i < counts.len() ==> (#[trigger] counts[i]).0 != x) ==> counted_from(
            counts,
            x,
            from,
        ) == 0,
    decreases counts.len() - from,
{
    if from < counts.len() {
        lemma_counted_from(counts, x, from + 1);
        if counts[from].0 == x {
            assert forall|i: int| from <= i < counts.len() && (#[trigger] counts[i]).0 == x implies i
                == from by {
                assert(names_of(counts)[i] == names_of(counts)[from]);
            }
        }
    }
}

/// Beside each name a tally holds the number of its occurrences.
pub proof fn lemma_counted_tally(items: Seq<Seq<char>>, x: Seq<char>)
    requires
        items.len() <= usize::MAX,
    ensures
        counted(tally(items), x) == count_of(items, x),
{
    lemma_distinct_contains(items, x);
    lemma_count_bounds(items, x);
    assert(names_of(tally(items)) =~= distinct(items));
    lemma_counted_from(tally(items), x, 0);
    if items.contains(x) {
        let i = choose|i: int| 0 <= i < distinct(items).len() && distinct(items)[i] == x;
    } else {
        assert forall|i: int| 0 <= i < tally(items).len() implies (#[trigger] tally(items)[i]).0
            != x by {
        }
    }
}

/// The count that stands beside the name `x`; 0 where it is not listed.
pub fn lookup(counts: &Vec<(String, usize)>, x: &str) -> (n: usize)
    ensures
        n == counted(counts.deep_view(), x@),
{
    let mut i: usize = 0;
    while i < counts.len()
        invariant
            i <= counts.len(),
            counted(counts.deep_view(), x@) == counted_from(counts.deep_view(), x@, i as int),
        decreases counts.len() - i,
    {
        if str_eq(counts[i].0.as_str(), x) {
            return counts[i].1;
        }
        i += 1;
    }
    0
}

/// Counts the occurrences of each word.
pub fn tally_words(items: &Vec<String>) -> (counts: Vec<(String, usize)>)
    ensures
        counts.deep_view() == tally(items.deep_view()),
{
    let mut counts: Vec<(String, usize)> = Vec::new();
    let ghost dv = items.deep_view();
    let mut i: usize = 0;
    while i < items.len()
        invariant
            i <= items.len(),
            dv == items.deep_view(),
            counts.deep_view() == tally(dv.take(i as int)),
        decreases items.len() - i,
    {
        count_one(&mut counts, items[i].as_str(), Ghost(dv.take(i as int)));
        assert(dv.take(i as int).push(items@[i as int]@) =~= dv.take(i + 1));
        i += 1;
    }
    assert(dv.take(items.len() as int) =~= dv);
    counts
}

/// A copy of a list of counts.
pub fn clone_counts(counts: &Vec<(String, usize)>) -> (r: Vec<(String, usize)>)
    ensures
        r.deep_view() == counts.deep_view(),
{
    let mut r: Vec<(String, usize)> = Vec::new();
    let mut i: usize = 0;
    while i < counts.len()
        invariant
            i <= counts.len(),
            r@.len() == i,
            forall|j: int| 0 <= j < i ==> (#[trigger] r@[j]).deep_view() == counts@[j].deep_view(),
        decreases counts.len() - i,
    {
        r.push((counts[i].0.clone(), counts[i].1));
        i += 1;
    }
    r
}

/// The counts with the larger ones first; equal counts keep their order.
pub fn sort_by_count(counts: &Vec<(String, usize)>) -> (r: Vec<(String, usize)>)
    ensures
        r.deep_view() == by_count(counts.deep_view()),
{
    let mut keys: Vec<u64> = Vec::new();
    let mut i: usize = 0;
    while i < counts.len()
        invariant
            i <= counts.len(),
            keys@.len() == i,
            forall|j: int| 0 <= j < i ==> keys@[j] == (u64::MAX - counts@[j].1 as u64) as u64,
        decreases counts.len() - i,
    {
        keys.push(u64::MAX - counts[i].1 as u64);
        i += 1;
    }
    assert(keys@ =~= descending_keys(counts.deep_view()));
    let perm = stable_order(&keys);
    let mut r: Vec<(String, usize)> = Vec::new();
    let mut i: usize = 0;
    while i < perm.len()
        invariant
            i <= perm.len(),
            perm@.len() == counts@.len(),
            forall|j: int| 0 <= j < perm@.len() ==> (#[trigger] perm@[j]) < counts@.len(),
            r@.len() == i,
            forall|j: int|
                0 <= j < i ==> (#[trigger] r@[j]).deep_view() == counts@[perm@[j] as int].deep_view(),
        decreases perm.len() - i,
    {
        let k = perm[i];
        r.push((counts[k].0.clone(), counts[k].1));
        i += 1;
    }
    r
}

} // verus!
