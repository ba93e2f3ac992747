//! Queries over time: their written form and what they match.

use crate::event::{TimeRef, TimeRefView};
use crate::numeral::{cn_number, number_of_chars};
use crate::regime::{ad_year_of, exact_ad_year};
use crate::text::{
    chars_of, contains_char, digit_char, find_char, find_from, is_digit, string_of, trim_range,
    trimmed,
};
use vstd::prelude::*;

verus! {

/// A query over time.
#[derive(Debug)]
#[allow(inconsistent_fields)]
pub enum TimeQuery {
    /// An era, with or without a year: 太和, 太和三年
    Single { era: String, year: Option<u8> },
    /// A range of years of one era: 太和元年-太和六年, 太和1-5
    Range { era: String, year_from: u8, year_to: u8 },
    /// Everything of one regime: @東晉
    Regime { regime: String },
    /// One year AD: 524AD
    AdYear { year: u16 },
    /// A range of years AD: 500AD-530AD
    AdRange { from: u16, to: u16 },
}

#[allow(inconsistent_fields)]
pub enum TimeQueryView {
    Single { era: Seq<char>, year: Option<u8> },
    Range { era: Seq<char>, year_from: u8, year_to: u8 },
    Regime { regime: Seq<char> },
    AdYear { year: u16 },
    AdRange { from: u16, to: u16 },
}

impl View for TimeQuery {
    type V = TimeQueryView;

    open spec fn view(&self) -> TimeQueryView {
        match self {
            TimeQuery::Single { era, year } => TimeQueryView::Single { era: era@, year: *year },
            TimeQuery::Range { era, year_from, year_to } => TimeQueryView::Range {
                era: era@,
                year_from: *year_from,
                year_to: *year_to,
            },
            TimeQuery::Regime { regime } => TimeQueryView::Regime { regime: regime@ },
            TimeQuery::AdYear { year } => TimeQueryView::AdYear { year: *year },
            TimeQuery::AdRange { from, to } => TimeQueryView::AdRange { from: *from, to: *to },
        }
    }
}

/// The year AD of a time reference, where the catalogue knows its era.
pub open spec fn ad_year(t: TimeRefView) -> Option<u16> {
    ad_year_of(t.regime, t.era, t.year)
}

/// The key by which time references are put in chronological order across
/// regimes: the year AD, or 0 where it is not known.
pub open spec fn sort_key_of(t: TimeRefView) -> u16 {
    match ad_year(t) {
        Some(y) => y,
        None => 0,
    }
}

/// Whether the time of an event answers a query. A time whose year AD is
/// not known counts as year 0.
pub open spec fn query_matches(t: TimeRefView, q: TimeQueryView) -> bool {
    match q {
        TimeQueryView::Single { era, year } => t.era == era && (year is None || t.year == year->0),
        TimeQueryView::Range { era, year_from, year_to } => t.era == era && year_from <= t.year
            <= year_to,
        TimeQueryView::Regime { regime } => t.regime == regime,
        TimeQueryView::AdYear { year } => sort_key_of(t) == year,
        TimeQueryView::AdRange { from, to } => from <= sort_key_of(t) <= to,
    }
}

/// Whether a time scope answers a query. A scope whose year AD is not
/// known answers no query by year AD.
pub open spec fn scope_matches(t: TimeRefView, q: TimeQueryView) -> bool {
    match q {
        TimeQueryView::AdYear { year } => ad_year(t) == Some(year),
        TimeQueryView::AdRange { from, to } => ad_year(t) is Some && from <= ad_year(t)->0 <= to,
        _ => query_matches(t, q),
    }
}

/// A range of one year AD asks what that year asks.
pub proof fn lemma_ad_range_of_one_year(t: TimeRefView, n: u16)
    ensures
        query_matches(t, TimeQueryView::AdRange { from: n, to: n }) == query_matches(
            t,
            TimeQueryView::AdYear { year: n },
        ),
        scope_matches(t, TimeQueryView::AdRange { from: n, to: n }) == scope_matches(
            t,
            TimeQueryView::AdYear { year: n },
        ),
{
}

/// A range of one year of an era asks what that year of the era asks.
pub proof fn lemma_range_of_one_year(t: TimeRefView, era: Seq<char>, y: u8)
    ensures
        query_matches(t, TimeQueryView::Range { era, year_from: y, year_to: y }) == query_matches(
            t,
            TimeQueryView::Single { era, year: Some(y) },
        ),
{
}

/// What answers an era and a year also answers the era alone.
pub proof fn lemma_year_refines_era(t: TimeRefView, era: Seq<char>, y: u8)
    ensures
        query_matches(t, TimeQueryView::Single { era, year: Some(y) }) ==> query_matches(
            t,
            TimeQueryView::Single { era, year: None },
        ),
{
}

/// The chronological sort key of a time reference.
pub fn time_sort_key(t: &TimeRef) -> (k: u16)
    ensures
        k == sort_key_of(t@),
{
    match exact_ad_year(t.regime.as_str(), t.era.as_str(), t.year) {
        Some(y) => y,
        None => 0,
    }
}

/// Whether the time of an event answers a query.
pub fn time_matches_query(t: &TimeRef, parsed: &TimeQuery) -> (r: bool)
    ensures
        r == query_matches(t@, parsed@),
{
    match parsed {
        TimeQuery::Single { era, year } => {
            crate::text::str_eq(t.era.as_str(), era.as_str()) && match year {
                None => true,
                Some(y) => t.year == *y,
            }
        },
        TimeQuery::Range { era, year_from, year_to } => {
            crate::text::str_eq(t.era.as_str(), era.as_str()) && t.year >= *year_from && t.year
                <= *year_to
        },
        TimeQuery::Regime { regime } => crate::text::str_eq(t.regime.as_str(), regime.as_str()),
        TimeQuery::AdYear { year } => time_sort_key(t) == *year,
        TimeQuery::AdRange { from, to } => {
            let k = time_sort_key(t);
            k >= *from && k <= *to
        },
    }
}

/// Whether a time scope answers a query.
pub fn scope_matches_query(t: &TimeRef, parsed: &TimeQuery) -> (r: bool)
    ensures
        r == scope_matches(t@, parsed@),
{
    match parsed {
        TimeQuery::AdYear { year } => {
            match exact_ad_year(t.regime.as_str(), t.era.as_str(), t.year) {
                Some(y) => y == *year,
                None => false,
            }
        },
        TimeQuery::AdRange { from, to } => {
            match exact_ad_year(t.regime.as_str(), t.era.as_str(), t.year) {
                Some(y) => y >= *from && y <= *to,
                None => false,
            }
        },
        _ => time_matches_query(t, parsed),
    }
}

/// Years AD after which a person who was not seen again counts as lost.
pub const STALENESS_THRESHOLD_YEARS: u16 = 30;

/// Whether a person last seen in `last_seen_ad` is stale in `query_ad`:
/// more than thirty years have passed.
pub fn is_stale(last_seen_ad: u16, query_ad: u16) -> (r: bool)
    ensures
        r == (query_ad - last_seen_ad > STALENESS_THRESHOLD_YEARS),
{
    query_ad > last_seen_ad && query_ad - last_seen_ad > STALENESS_THRESHOLD_YEARS
}

/// The number that a run of decimal digits writes.
pub open spec fn decimal_value(s: Seq<char>) -> nat
    decreases s.len(),
{
    if s.len() == 0 {
        0
    } else {
        decimal_value(s.drop_last()) * 10 + (s.last() as u32 - '0' as u32) as nat
    }
}

/// Every character is a decimal digit.
pub open spec fn all_digits(s: Seq<char>) -> bool {
    forall|i: int| 0 <= i < s.len() ==> is_digit(#[trigger] s[i])
}

/// The number that `s` writes, if `s` is a non-empty run of decimal digits
/// and the number is at most `max`.
pub open spec fn decimal_of(s: Seq<char>, max: nat) -> Option<nat> {
    if s.len() > 0 && all_digits(s) && decimal_value(s) <= max {
        Some(decimal_value(s))
    } else {
        None
    }
}

proof fn lemma_decimal_grows(s: Seq<char>, k: int)
    requires
        0 <= k <= s.len(),
        all_digits(s),
    ensures
        decimal_value(s.take(k)) <= decimal_value(s),
    decreases s.len() - k,
{
    if k < s.len() {
        lemma_decimal_grows(s, k + 1);
        assert(s.take(k + 1).drop_last() =~= s.take(k));
    } else {
        assert(s.take(k) =~= s);
    }
}

/// The number that the characters `v[from..]` write in decimal digits.
fn parse_decimal(v: &Vec<char>, from: usize, max: u16) -> (r: Option<u16>)
    requires
        from <= v.len(),
    ensures
        r.is_some() == decimal_of(v@.skip(from as int), max as nat).is_some(),
        r is Some ==> r->0 as nat == decimal_of(v@.skip(from as int), max as nat)->0,
{
    let ghost s = v@.skip(from as int);
    if from == v.len() {
        return None;
    }
    let mut acc: u32 = 0;
    let mut i: usize = from;
    while i < v.len()
        invariant
            from <= i <= v.len(),
            s == v@.skip(from as int),
            acc <= max,
            acc == decimal_value(s.take(i - from)),
            forall|j: int| 0 <= j < i - from ==> is_digit(#[trigger] s[j]),
        decreases v.len() - i,
    {
        let c = v[i];
        assert(s[i - from] == c);
        if !digit_char(c) {
            return None;
        }
        proof {
            assert(s.take(i - from + 1).drop_last() =~= s.take(i - from));
        }
        let d: u32 = c as u32 - '0' as u32;
        let next: u32 = acc * 10 + d;
        if next > max as u32 {
            proof {
                if all_digits(s) {
                    lemma_decimal_grows(s, i - from + 1);
                }
            }
            return None;
        }
        acc = next;
        i += 1;
    }
    assert(s.take(s.len() as int) =~= s);
    Some(acc as u16)
}

/// `s` without the characters 年 at its end.
pub open spec fn without_year_mark(s: Seq<char>) -> Seq<char>
    decreases s.len(),
{
    if s.len() > 0 && s.last() == '年' {
        without_year_mark(s.drop_last())
    } else {
        s
    }
}

/// Number of decimal digits at the end of `s`.
pub open spec fn trailing_digits(s: Seq<char>) -> nat
    decreases s.len(),
{
    if s.len() > 0 && is_digit(s.last()) {
        1 + trailing_digits(s.drop_last())
    } else {
        0
    }
}

/// The era and year that a Chinese numeral of `k` characters at the end of
/// `s` gives, trying `k`, then `k - 1`, down to one character. The era
/// must not be empty.
pub open spec fn numeral_suffix(s: Seq<char>, k: nat) -> Option<(Seq<char>, u8)>
    decreases k,
{
    if k == 0 {
        None
    } else if s.len() > k && cn_number(s.skip(s.len() - k)) is Some {
        Some((s.take(s.len() - k), cn_number(s.skip(s.len() - k))->0))
    } else {
        numeral_suffix(s, (k - 1) as nat)
    }
}

/// Era and year of a written time such as 太和三年, 太和3, 太和 or 5: after
/// trimming and dropping 年, a run of digits at the end that writes at
/// most 255 is the year; else a Chinese numeral of up to three characters
/// at the end is; else there is no year and everything is the era.
pub open spec fn era_year_of(raw: Seq<char>) -> (Seq<char>, Option<u8>) {
    let s = without_year_mark(trimmed(raw));
    let d = trailing_digits(s);
    match decimal_of(s.skip(s.len() - d), 255) {
        Some(y) => (s.take(s.len() - d), Some(y as u8)),
        None => match numeral_suffix(s, 3) {
            Some((era, y)) => (era, Some(y)),
            None => (s, None),
        },
    }
}

fn era_year_of_chars(v: &Vec<char>, from: usize, to: usize) -> (r: (String, Option<u8>))
    requires
        from <= to <= v.len(),
    ensures
        r.0@ == era_year_of(v@.subrange(from as int, to as int)).0,
        r.1 == era_year_of(v@.subrange(from as int, to as int)).1,
{
    let mut raw: Vec<char> = Vec::new();
    let mut k: usize = from;
    while k < to
        invariant
            from <= k <= to <= v.len(),
            raw@ == v@.subrange(from as int, k as int),
        decreases to - k,
    {
        raw.push(v[k]);
        assert(raw@ =~= v@.subrange(from as int, k + 1));
        k += 1;
    }
    let (a, b0) = trim_range(&raw);
    let ghost t = trimmed(raw@);
    let mut b: usize = b0;
    assert(raw@.subrange(a as int, b as int) == t);
    while b > a && raw[b - 1] == '年'
        invariant
            a <= b <= b0 <= raw.len(),
            without_year_mark(t) == without_year_mark(raw@.subrange(a as int, b as int)),
        decreases b,
    {
        proof {
            let cur = raw@.subrange(a as int, b as int);
            assert(cur.last() == raw@[b - 1]);
            assert(cur.drop_last() =~= raw@.subrange(a as int, b - 1));
        }
        b -= 1;
    }
    let ghost s = raw@.subrange(a as int, b as int);
    proof {
        if b > a {
            assert(s.last() == raw@[b - 1]);
        }
        assert(without_year_mark(s) == s);
    }
    let mut s_chars: Vec<char> = Vec::new();
    let mut k: usize = a;
    while k < b
        invariant
            a <= k <= b <= raw.len(),
            s_chars@ == raw@.subrange(a as int, k as int),
        decreases b - k,
    {
        s_chars.push(raw[k]);
        assert(s_chars@ =~= raw@.subrange(a as int, k + 1));
        k += 1;
    }
    assert(s_chars@ == s);
    let n: usize = s_chars.len();
    let mut d: usize = 0;
    assert(s.take(n as int) =~= s);
    while d < n && digit_char(s_chars[n - d - 1])
        invariant
            d <= n,
            n == s_chars.len(),
            s_chars@ == s,
            trailing_digits(s) == d + trailing_digits(s.take(n - d)),
        decreases n - d,
    {
        proof {
            let cur = s.take(n - d);
            assert(cur.last() == s[n - d - 1]);
            assert(cur.drop_last() =~= s.take(n - d - 1));
        }
        d += 1;
    }
    proof {
        let cur = s.take(n - d);
        if d < n {
            assert(cur.last() == s[n - d - 1]);
        }
        assert(trailing_digits(cur) == 0);
    }
    match parse_decimal(&s_chars, n - d, 255) {
        Some(y) => {
            let era = string_of(&s_chars, 0, n - d);
            assert(era@ =~= s.take(n - d));
            return (era, Some(y as u8));
        },
        None => {},
    }
    let ghost goal = era_year_of(v@.subrange(from as int, to as int));
    assert(goal == match numeral_suffix(s, 3) {
        Some((era, y)) => (era, Some(y)),
        None => (s, None),
    });
    let mut suffix_len: usize = 3;
    while suffix_len > 0
        invariant
            n == s_chars.len(),
            s_chars@ == s,
            suffix_len <= 3,
            from <= to <= v.len(),
            goal == era_year_of(v@.subrange(from as int, to as int)),
            goal == match numeral_suffix(s, 3) {
                Some((era, y)) => (era, Some(y)),
                None => (s, None),
            },
            numeral_suffix(s, 3) == numeral_suffix(s, suffix_len as nat),
        decreases suffix_len,
    {
        if n > suffix_len {
            match number_of_chars(&s_chars, n - suffix_len) {
                Some(y) => {
                    let era = string_of(&s_chars, 0, n - suffix_len);
                    assert(era@ =~= s.take(n - suffix_len));
                    return (era, Some(y));
                },
                None => {},
            }
        }
        suffix_len -= 1;
    }
    let whole = string_of(&s_chars, 0, n);
    assert(whole@ =~= s);
    (whole, None)
}

/// Parses a written time into era and year: 太和三年 gives (太和, 3), 太和
/// gives (太和, none), 5 gives (empty, 5).
pub fn parse_era_year(raw: &str) -> (r: (String, Option<u8>))
    ensures
        r.0@ == era_year_of(raw@).0,
        r.1 == era_year_of(raw@).1,
{
    let v = chars_of(raw);
    assert(v@.subrange(0, v@.len() as int) =~= v@);
    era_year_of_chars(&v, 0, v.len())
}

/// Parses a Chinese year numeral; the queries accept what the extraction
/// emits.
pub fn parse_cn_year(s: &str) -> (r: Option<u8>)
    ensures
        r == cn_number(s@),
{
    crate::numeral::parse_cn_number(s)
}

/// The year AD that `s` writes as digits followed by AD or ad.
pub open spec fn ad_suffix_of(s: Seq<char>) -> Option<u16> {
    let t = trimmed(s);
    if t.len() >= 2 && ((t[t.len() - 2] == 'A' && t[t.len() - 1] == 'D') || (t[t.len() - 2] == 'a'
        && t[t.len() - 1] == 'd')) {
        match decimal_of(trimmed(t.take(t.len() - 2)), 65535) {
            Some(y) => Some(y as u16),
            None => None,
        }
    } else {
        None
    }
}

fn ad_suffix_of_chars(v: &Vec<char>, from: usize, to: usize) -> (r: Option<u16>)
    requires
        from <= to <= v.len(),
    ensures
        r == ad_suffix_of(v@.subrange(from as int, to as int)),
{
    let mut raw: Vec<char> = Vec::new();
    let mut k: usize = from;
    while k < to
        invariant
            from <= k <= to <= v.len(),
            raw@ == v@.subrange(from as int, k as int),
        decreases to - k,
    {
        raw.push(v[k]);
        k += 1;
    }
    let (a, b) = trim_range(&raw);
    let ghost t = trimmed(raw@);
    if b - a < 2 {
        return None;
    }
    if !((raw[b - 2] == 'A' && raw[b - 1] == 'D') || (raw[b - 2] == 'a' && raw[b - 1] == 'd')) {
        return None;
    }
    let mut head: Vec<char> = Vec::new();
    let mut k: usize = a;
    while k < b - 2
        invariant
            a <= k <= b - 2,
            b <= raw.len(),
            head@ == raw@.subrange(a as int, k as int),
        decreases b - 2 - k,
    {
        head.push(raw[k]);
        k += 1;
    }
    assert(head@ =~= t.take(t.len() - 2));
    let (c, d) = trim_range(&head);
    let mut digits: Vec<char> = Vec::new();
    let mut k: usize = c;
    while k < d
        invariant
            c <= k <= d <= head.len(),
            digits@ == head@.subrange(c as int, k as int),
        decreases d - k,
    {
        digits.push(head[k]);
        k += 1;
    }
    assert(digits@.skip(0) =~= digits@);
    parse_decimal(&digits, 0, 65535)
}

/// Parses 524AD or 524ad to the year 524.
pub fn parse_ad_suffix(s: &str) -> (r: Option<u16>)
    ensures
        r == ad_suffix_of(s@),
{
    let v = chars_of(s);
    assert(v@.subrange(0, v@.len() as int) =~= v@);
    ad_suffix_of_chars(&v, 0, v.len())
}

/// The dash that separates the two sides of a range: the first of `-`, `—`
/// and `~` that occurs.
pub open spec fn separator_of(s: Seq<char>) -> Option<char> {
    if s.contains('-') {
        Some('-')
    } else if s.contains('—') {
        Some('—')
    } else if s.contains('~') {
        Some('~')
    } else {
        None
    }
}

/// The era and the two years of a range written as two sides of a dash,
/// where both sides give a year; the era is that of the left side unless
/// the left side gives none.
pub open spec fn range_of(left: Seq<char>, right: Seq<char>) -> Option<TimeQueryView> {
    match (era_year_of(left).1, era_year_of(right).1) {
        (Some(yf), Some(yt)) => Some(
            TimeQueryView::Range {
                era: if era_year_of(left).0.len() == 0 {
                    era_year_of(right).0
                } else {
                    era_year_of(left).0
                },
                year_from: yf,
                year_to: yt,
            },
        ),
        _ => None,
    }
}

/// The query that the whole of `t`, read as era and year, asks.
pub open spec fn single_of(t: Seq<char>) -> TimeQueryView {
    TimeQueryView::Single { era: era_year_of(t).0, year: era_year_of(t).1 }
}

/// The query that a written expression asks. In this order: `@` and a
/// regime; two years AD around a dash; one year AD; two times of an era
/// around a dash; a single time of an era.
pub open spec fn time_query_of(raw: Seq<char>) -> TimeQueryView {
    let t = trimmed(raw);
    if t.len() > 0 && t[0] == '@' {
        TimeQueryView::Regime { regime: t.skip(1) }
    } else {
        match separator_of(t) {
            Some(sep) => {
                let at = find_from(t, sep, 0);
                let left = t.take(at);
                let right = t.skip(at + 1);
                match (ad_suffix_of(left), ad_suffix_of(right)) {
                    (Some(from), Some(to)) => TimeQueryView::AdRange { from, to },
                    _ => match ad_suffix_of(t) {
                        Some(year) => TimeQueryView::AdYear { year },
                        None => match range_of(left, right) {
                            Some(q) => q,
                            None => single_of(t),
                        },
                    },
                }
            },
            None => match ad_suffix_of(t) {
                Some(year) => TimeQueryView::AdYear { year },
                None => single_of(t),
            },
        }
    }
}

/// Parses a query expression.
pub fn parse_time_query(raw: &str) -> (q: TimeQuery)
    ensures
        q@ == time_query_of(raw@),
{
    let v = chars_of(raw);
    let (a, b) = trim_range(&v);
    let mut t: Vec<char> = Vec::new();
    let mut k: usize = a;
    while k < b
        invariant
            a <= k <= b <= v.len(),
            t@ == v@.subrange(a as int, k as int),
        decreases b - k,
    {
        t.push(v[k]);
        k += 1;
    }
    let n: usize = t.len();
    assert(t@.subrange(0, n as int) =~= t@);
    if n > 0 && t[0] == '@' {
        let regime = string_of(&t, 1, n);
        return TimeQuery::Regime { regime };
    }
    let sep: Option<char> = if contains_char(&t, '-') {
        Some('-')
    } else if contains_char(&t, '—') {
        Some('—')
    } else if contains_char(&t, '~') {
        Some('~')
    } else {
        None
    };
    match sep {
        Some(c) => {
            let at = find_char(&t, c, 0);
            proof {
                lemma_find_reaches(t@, c, 0);
            }
            match (ad_suffix_of_chars(&t, 0, at), ad_suffix_of_chars(&t, at + 1, n)) {
                (Some(from), Some(to)) => {
                    return TimeQuery::AdRange { from, to };
                },
                _ => {},
            }
            match ad_suffix_of_chars(&t, 0, n) {
                Some(year) => {
                    return TimeQuery::AdYear { year };
                },
                None => {},
            }
            let (era_from, year_from) = era_year_of_chars(&t, 0, at);
            let (era_to, year_to) = era_year_of_chars(&t, at + 1, n);
            match (year_from, year_to) {
                (Some(yf), Some(yt)) => {
                    let era = if era_from.as_str().unicode_len() == 0 {
                        era_to
                    } else {
                        era_from
                    };
                    return TimeQuery::Range { era, year_from: yf, year_to: yt };
                },
                _ => {},
            }
        },
        None => {
            match ad_suffix_of_chars(&t, 0, n) {
                Some(year) => {
                    return TimeQuery::AdYear { year };
                },
                None => {},
            }
        },
    }
    let (era, year) = era_year_of_chars(&t, 0, n);
    TimeQuery::Single { era, year }
}

/// A character that occurs in `s` is found before the end.
pub proof fn lemma_find_reaches(s: Seq<char>, c: char, from: int)
    requires
        0 <= from <= s.len(),
        exists|i: int| from <= i < s.len() && s[i] == c,
    ensures
        from <= find_from(s, c, from) < s.len(),
    decreases s.len() - from,
{
    if from < s.len() && s[from] != c {
        lemma_find_reaches(s, c, from + 1);
    }
}

} // verus!
