//! Lists of words: joining, ordering by length, removing repeats.

use crate::text::str_eq;
use vstd::prelude::*;
use vstd::string::*;

verus! {

/// The character sequences of a list of string constants.
pub open spec fn views(items: Seq<&'static str>) -> Seq<Seq<char>> {
    Seq::new(items.len(), |i: int| items[i]@)
}

/// The items separated by `sep`.
pub open spec fn join(parts: Seq<Seq<char>>, sep: Seq<char>) -> Seq<char>
    decreases parts.len(),
{
    if parts.len() == 0 {
        Seq::empty()
    } else if parts.len() == 1 {
        parts[0]
    } else {
        join(parts.drop_last(), sep) + sep + parts.last()
    }
}

/// The items without repeats: of equal items the first stays.
pub open spec fn distinct(items: Seq<Seq<char>>) -> Seq<Seq<char>>
    decreases items.len(),
{
    if items.len() == 0 {
        items
    } else {
        let d = distinct(items.drop_last());
        if d.contains(items.last()) {
            d
        } else {
            d.push(items.last())
        }
    }
}

/// Those of the first `k` items that are `n` characters long, in order.
pub open spec fn of_length(items: Seq<Seq<char>>, n: nat, k: nat) -> Seq<Seq<char>>
    decreases k,
{
    if k == 0 || k > items.len() {
        Seq::empty()
    } else {
        let r = of_length(items, n, (k - 1) as nat);
        if items[k - 1].len() == n {
            r.push(items[k - 1])
        } else {
            r
        }
    }
}

/// The length of the longest of the first `k` items.
pub open spec fn max_length(items: Seq<Seq<char>>, k: nat) -> nat
    decreases k,
{
    if k == 0 || k > items.len() {
        0
    } else {
        let m = max_length(items, (k - 1) as nat);
        if items[k - 1].len() > m {
            items[k - 1].len()
        } else {
            m
        }
    }
}

/// The items of at most `n` characters, longer ones first; items of equal
/// length keep their order.
pub open spec fn longest_first_upto(items: Seq<Seq<char>>, n: nat) -> Seq<Seq<char>>
    decreases n,
{
    if n == 0 {
        of_length(items, 0, items.len())
    } else {
        of_length(items, n, items.len()) + longest_first_upto(items, (n - 1) as nat)
    }
}

/// All items, longer ones first; items of equal length keep their order.
pub open spec fn longest_first(items: Seq<Seq<char>>) -> Seq<Seq<char>> {
    longest_first_upto(items, max_length(items, items.len()))
}

/// A non-capturing group that matches any of the items, tried in order.
pub open spec fn alternation(items: Seq<Seq<char>>) -> Seq<char> {
    "(?:"@ + join(items, "|"@) + ")"@
}

/// The strings of a table of constants.
pub fn strings_of<const N: usize>(table: &[&'static str; N]) -> (v: Vec<String>)
    ensures
        v.deep_view() == views(table@),
{
    let mut v: Vec<String> = Vec::new();
    let mut i: usize = 0;
    while i < N
        invariant
            i <= N,
            table@.len() == N,
            v@.len() == i,
            forall|j: int| 0 <= j < i ==> v@[j]@ == table@[j]@,
        decreases N - i,
    {
        v.push(String::from_str(table[i]));
        i += 1;
    }
    v
}

/// Whether `x` is among `items`.
pub fn has_word(items: &Vec<String>, x: &str) -> (r: bool)
    ensures
        r == items.deep_view().contains(x@),
{
    let mut i: usize = 0;
    while i < items.len()
        invariant
            i <= items.len(),
            forall|j: int| 0 <= j < i ==> items.deep_view()[j] != x@,
        decreases items.len() - i,
    {
        if str_eq(items[i].as_str(), x) {
            assert(items.deep_view()[i as int] == x@);
            return true;
        }
        i += 1;
    }
    false
}

/// The words separated by `sep`.
pub fn join_words(parts: &Vec<String>, sep: &str) -> (r: String)
    ensures
        r@ == join(parts.deep_view(), sep@),
{
    let mut r = String::new();
    let mut i: usize = 0;
    let ghost dv = parts.deep_view();
    while i < parts.len()
        invariant
            i <= parts.len(),
            dv == parts.deep_view(),
            r@ == join(dv.take(i as int), sep@),
        decreases parts.len() - i,
    {
        proof {
            assert(dv.take(i + 1).drop_last() =~= dv.take(i as int));
        }
        if i > 0 {
            r.append(sep);
        }
        r.append(parts[i].as_str());
        i += 1;
    }
    assert(dv.take(parts.len() as int) =~= dv);
    r
}

/// The words without repeats: of equal words the first stays.
pub fn distinct_words(items: &Vec<String>) -> (r: Vec<String>)
    ensures
        r.deep_view() == distinct(items.deep_view()),
{
    let mut r: Vec<String> = Vec::new();
    let mut i: usize = 0;
    let ghost dv = items.deep_view();
    while i < items.len()
        invariant
            i <= items.len(),
            dv == items.deep_view(),
            r.deep_view() == distinct(dv.take(i as int)),
        decreases items.len() - i,
    {
        proof {
            assert(dv.take(i + 1).drop_last() =~= dv.take(i as int));
        }
        if !has_word(&r, items[i].as_str()) {
            r.push(items[i].clone());
        }
        i += 1;
    }
    assert(dv.take(items.len() as int) =~= dv);
    r
}

/// The length, in characters, of the longest word.
pub fn longest_word(items: &Vec<String>) -> (m: usize)
    ensures
        m == max_length(items.deep_view(), items.len() as nat),
{
    let mut m: usize = 0;
    let mut i: usize = 0;
    while i < items.len()
        invariant
            i <= items.len(),
            m == max_length(items.deep_view(), i as nat),
        decreases items.len() - i,
    {
        let n = items[i].as_str().unicode_len();
        if n > m {
            m = n;
        }
        i += 1;
    }
    m
}

/// The words with the longer ones first; words of equal length keep
/// their order.
pub fn longest_first_words(items: &Vec<String>) -> (r: Vec<String>)
    ensures
        r.deep_view() == longest_first(items.deep_view()),
{
    let top = longest_word(items);
    let mut r: Vec<String> = Vec::new();
    let mut n: usize = top;
    let ghost dv = items.deep_view();
    let ghost mut done: Seq<Seq<char>> = Seq::empty();
    loop
        invariant_except_break
            n <= top,
            r.deep_view() == done,
            done + longest_first_upto(dv, n as nat) == longest_first_upto(dv, top as nat),
        invariant
            dv == items.deep_view(),
        ensures
            r.deep_view() == longest_first_upto(dv, top as nat),
        decreases n,
    {
        let mut i: usize = 0;
        let ghost start = r.deep_view();
        while i < items.len()
            invariant
                i <= items.len(),
                dv == items.deep_view(),
                r.deep_view() == start + of_length(dv, n as nat, i as nat),
            decreases items.len() - i,
        {
            if items[i].as_str().unicode_len() == n {
                let ghost before = r.deep_view();
                r.push(items[i].clone());
                assert(r.deep_view() =~= before.push(items@[i as int]@));
            }
            i += 1;
        }
        proof {
            let level = of_length(dv, n as nat, dv.len());
            done = done + level;
        }
        if n == 0 {
            break;
        }
        n -= 1;
    }
    r
}

/// The non-capturing group that matches any of `items`, tried in order.
pub fn alternation_of(items: &Vec<String>) -> (r: String)
    ensures
        r@ == alternation(items.deep_view()),
{
    let mut r = String::from_str("(?:");
    let body = join_words(items, "|");
    r.append(body.as_str());
    r.append(")");
    r
}

} // verus!
