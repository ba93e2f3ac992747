//! Character-level helpers on strings. Every contract is stated over the
//! sequence of Unicode scalar values that a string holds.

use vstd::prelude::*;
use vstd::string::*;
use vstd::utf8::*;

verus! {

/// Number of bytes that the UTF-8 encoding of `c` takes.
pub open spec fn char_width(c: char) -> nat {
    let v = c as u32;
    if v < 0x80 {
        1
    } else if v < 0x800 {
        2
    } else if v < 0x10000 {
        3
    } else {
        4
    }
}

/// Number of bytes that the UTF-8 encoding of `s` takes.
pub open spec fn utf8_len(s: Seq<char>) -> nat
    decreases s.len(),
{
    if s.len() == 0 {
        0
    } else {
        utf8_len(s.drop_last()) + char_width(s.last())
    }
}

/// The characters `s[from..to]`, with both bounds clipped to the sequence.
pub open spec fn clip(s: Seq<char>, from: int, to: int) -> Seq<char> {
    let hi = if to < 0 {
        0
    } else if to > s.len() {
        s.len() as int
    } else {
        to
    };
    let lo = if from < 0 {
        0
    } else if from > hi {
        hi
    } else {
        from
    };
    s.subrange(lo, hi)
}

/// `needle` occurs in `hay` starting at character index `at`.
pub open spec fn occurs_at(hay: Seq<char>, needle: Seq<char>, at: int) -> bool {
    0 <= at && at + needle.len() <= hay.len() && hay.subrange(at, at + needle.len()) == needle
}

/// `needle` occurs somewhere in `hay`.
pub open spec fn has_substring(hay: Seq<char>, needle: Seq<char>) -> bool {
    exists|at: int| occurs_at(hay, needle, at)
}

/// Position of the first `c` in `s` at or after `from`, or `s.len()` if there is none.
pub open spec fn find_from(s: Seq<char>, c: char, from: int) -> int
    decreases s.len() - from,
{
    if from < 0 || from >= s.len() {
        s.len() as int
    } else if s[from] == c {
        from
    } else {
        find_from(s, c, from + 1)
    }
}

/// The Unicode `White_Space` characters.
pub open spec fn is_space(c: char) -> bool {
    let v = c as u32;
    (0x09 <= v && v <= 0x0D) || v == 0x20 || v == 0x85 || v == 0xA0 || v == 0x1680 || (0x2000 <= v
        && v <= 0x200A) || v == 0x2028 || v == 0x2029 || v == 0x202F || v == 0x205F || v == 0x3000
}

/// Number of leading whitespace characters of `s`.
pub open spec fn leading_spaces(s: Seq<char>) -> nat
    decreases s.len(),
{
    if s.len() > 0 && is_space(s.first()) {
        1 + leading_spaces(s.drop_first())
    } else {
        0
    }
}

/// Number of trailing whitespace characters of `s`.
pub open spec fn trailing_spaces(s: Seq<char>) -> nat
    decreases s.len(),
{
    if s.len() > 0 && is_space(s.last()) {
        1 + trailing_spaces(s.drop_last())
    } else {
        0
    }
}

/// `s` without its leading and trailing whitespace.
pub open spec fn trimmed(s: Seq<char>) -> Seq<char> {
    let a = leading_spaces(s);
    if a == s.len() {
        Seq::<char>::empty()
    } else {
        s.subrange(a as int, s.len() - trailing_spaces(s))
    }
}

/// An ASCII decimal digit.
pub open spec fn is_digit(c: char) -> bool {
    '0' <= c && c <= '9'
}

/// Number of bytes that the UTF-8 encoding of `c` takes.
pub fn width_of(c: char) -> (w: usize)
    ensures
        w == char_width(c),
        1 <= w <= 4,
{
    let v: u32 = c as u32;
    if v < 0x80 {
        1
    } else if v < 0x800 {
        2
    } else if v < 0x10000 {
        3
    } else {
        4
    }
}

/// Whether `c` is a whitespace character.
pub fn space_char(c: char) -> (r: bool)
    ensures
        r == is_space(c),
{
    let v: u32 = c as u32;
    (0x09 <= v && v <= 0x0D) || v == 0x20 || v == 0x85 || v == 0xA0 || v == 0x1680 || (0x2000 <= v
        && v <= 0x200A) || v == 0x2028 || v == 0x2029 || v == 0x202F || v == 0x205F || v == 0x3000
}

/// Whether `c` is an ASCII decimal digit.
pub fn digit_char(c: char) -> (r: bool)
    ensures
        r == is_digit(c),
{
    '0' <= c && c <= '9'
}

/// The characters of `s`, in order.
pub fn chars_of(s: &str) -> (v: Vec<char>)
    ensures
        v@ == s@,
{
    let mut v: Vec<char> = Vec::new();
    for c in it: s.chars()
        invariant
            it.seq() == s@,
            v@ == it.seq().take(it.index()),
    {
        v.push(c);
    }
    v
}

/// The string that holds `v[from..to]`, both bounds clipped.
pub fn string_of(v: &Vec<char>, from: usize, to: usize) -> (s: String)
    ensures
        s@ == clip(v@, from as int, to as int),
{
    let hi: usize = if to > v.len() { v.len() } else { to };
    let lo: usize = if from > hi { hi } else { from };
    let mut s = String::new();
    let mut i: usize = lo;
    while i < hi
        invariant
            lo <= i <= hi <= v.len(),
            s@ == v@.subrange(lo as int, i as int),
        decreases hi - i,
    {
        push_char(&mut s, v[i]);
        i += 1;
    }
    s
}

/// Appends one character. Trusted: `String::push` appends the given
/// character to the end of the string and changes nothing else.
#[verifier::external_body]
pub(crate) fn push_char(s: &mut String, c: char)
    ensures
        final(s)@ == old(s)@.push(c),
{
    s.push(c);
}

/// Whether two strings hold the same characters.
pub fn str_eq(a: &str, b: &str) -> (r: bool)
    ensures
        r == (a@ == b@),
{
    let x = a.as_bytes();
    let y = b.as_bytes();
    proof {
        encode_utf8_decode_utf8(a@);
        encode_utf8_decode_utf8(b@);
    }
    if x.len() != y.len() {
        return false;
    }
    let mut i: usize = 0;
    while i < x.len()
        invariant
            i <= x.len(),
            x.len() == y.len(),
            x@ == encode_utf8(a@),
            y@ == encode_utf8(b@),
            forall|j: int| 0 <= j < i ==> x@[j] == y@[j],
        decreases x.len() - i,
    {
        if x[i] != y[i] {
            return false;
        }
        i += 1;
    }
    assert(x@ =~= y@);
    true
}

/// Whether `needle` occurs in `hay` at character index `at`.
pub fn matches_at(hay: &Vec<char>, needle: &Vec<char>, at: usize) -> (r: bool)
    ensures
        r == occurs_at(hay@, needle@, at as int),
{
    if at > hay.len() || needle.len() > hay.len() - at {
        return false;
    }
    let mut i: usize = 0;
    while i < needle.len()
        invariant
            i <= needle.len(),
            at + needle.len() <= hay.len(),
            forall|j: int| 0 <= j < i ==> hay@[at + j] == needle@[j],
        decreases needle.len() - i,
    {
        if hay[at + i] != needle[i] {
            return false;
        }
        i += 1;
    }
    assert(hay@.subrange(at as int, at + needle.len()) =~= needle@);
    true
}

/// Whether `hay` begins with `needle`.
pub fn starts_with(hay: &Vec<char>, needle: &Vec<char>) -> (r: bool)
    ensures
        r == needle@.is_prefix_of(hay@),
{
    let r = matches_at(hay, needle, 0);
    r
}

/// Whether `hay` ends with `needle`.
pub fn ends_with(hay: &Vec<char>, needle: &Vec<char>) -> (r: bool)
    ensures
        r == needle@.is_suffix_of(hay@),
{
    if needle.len() > hay.len() {
        return false;
    }
    let at: usize = hay.len() - needle.len();
    let r = matches_at(hay, needle, at);
    r
}

/// Whether `needle` occurs in `hay`.
pub fn contains(hay: &Vec<char>, needle: &Vec<char>) -> (r: bool)
    ensures
        r == has_substring(hay@, needle@),
{
    if needle.len() > hay.len() {
        return false;
    }
    let last: usize = hay.len() - needle.len();
    let mut at: usize = 0;
    loop
        invariant
            at <= last,
            last == hay.len() - needle.len(),
            needle.len() <= hay.len(),
            forall|k: int| 0 <= k < at ==> !occurs_at(hay@, needle@, k),
        decreases last - at,
    {
        if matches_at(hay, needle, at) {
            return true;
        }
        if at == last {
            return false;
        }
        at += 1;
    }
}

/// Whether `c` occurs in `hay`.
pub fn contains_char(hay: &Vec<char>, c: char) -> (r: bool)
    ensures
        r == hay@.contains(c),
{
    let mut i: usize = 0;
    while i < hay.len()
        invariant
            i <= hay.len(),
            forall|j: int| 0 <= j < i ==> hay@[j] != c,
        decreases hay.len() - i,
    {
        if hay[i] == c {
            return true;
        }
        i += 1;
    }
    false
}

/// Whether `c` is one of the characters of `set`.
pub fn in_charset(set: &str, c: char) -> (r: bool)
    ensures
        r == set@.contains(c),
{
    let v = chars_of(set);
    contains_char(&v, c)
}

/// Index of the first `c` at or after `from`, or the length if there is none.
pub fn find_char(s: &Vec<char>, c: char, from: usize) -> (r: usize)
    ensures
        r == find_from(s@, c, from as int),
        from <= s.len() ==> from <= r <= s.len(),
        r < s.len() ==> s@[r as int] == c,
{
    let mut i: usize = from;
    while i < s.len()
        invariant
            from <= i,
            find_from(s@, c, from as int) == find_from(s@, c, i as int),
        decreases s.len() - i,
    {
        if s[i] == c {
            return i;
        }
        i += 1;
    }
    s.len()
}

/// The bounds of `s[from..to]` without its leading and trailing whitespace.
pub fn trim_range(s: &Vec<char>) -> (r: (usize, usize))
    ensures
        r.0 <= r.1 <= s.len(),
        s@.subrange(r.0 as int, r.1 as int) == trimmed(s@),
{
    let mut a: usize = 0;
    proof {
        assert(s@.skip(0) =~= s@);
    }
    while a < s.len() && space_char(s[a])
        invariant
            a <= s.len(),
            leading_spaces(s@) == a + leading_spaces(s@.skip(a as int)),
        decreases s.len() - a,
    {
        proof {
            let t = s@.skip(a as int);
            assert(t.first() == s@[a as int]);
            assert(t.drop_first() =~= s@.skip(a + 1));
        }
        a += 1;
    }
    proof {
        let t = s@.skip(a as int);
        if a < s.len() {
            assert(t.first() == s@[a as int]);
        }
        assert(leading_spaces(t) == 0);
    }
    if a == s.len() {
        proof {
            assert(s@.subrange(a as int, a as int) =~= Seq::<char>::empty());
        }
        return (a, a);
    }
    let mut b: usize = s.len();
    proof {
        assert(s@.take(s.len() as int) =~= s@);
    }
    while space_char(s[b - 1])
        invariant
            a < b <= s.len(),
            a < s.len(),
            !is_space(s@[a as int]),
            trailing_spaces(s@) == (s.len() - b) + trailing_spaces(s@.take(b as int)),
        decreases b,
    {
        proof {
            let t = s@.take(b as int);
            assert(t.last() == s@[b - 1]);
            assert(t.drop_last() =~= s@.take(b - 1));
        }
        b -= 1;
    }
    proof {
        assert(s@.take(s.len() as int) =~= s@);
        let t = s@.take(b as int);
        assert(t.last() == s@[b - 1]);
        assert(trailing_spaces(t) == 0);
    }
    (a, b)
}

/// The concatenation of two strings.
pub fn concat2(a: &str, b: &str) -> (r: String)
    ensures
        r@ == a@ + b@,
{
    let mut r = String::from_str(a);
    r.append(b);
    r
}

/// The length of `s` in bytes.
pub fn byte_len(s: &str) -> (n: usize)
    ensures
        n == encode_utf8(s@).len(),
        n == utf8_len(s@),
        n == s.len(),
{
    proof {
        lemma_utf8_len_encoding(s@);
    }
    s.as_bytes().len()
}

/// `s` without its leading and trailing whitespace.
pub fn trim_string(s: &str) -> (r: String)
    ensures
        r@ == trimmed(s@),
{
    let v = chars_of(s);
    let (a, b) = trim_range(&v);
    string_of(&v, a, b)
}

/// The length of the UTF-8 encoding of a text is the sum of the widths of
/// its characters.
pub proof fn lemma_utf8_len_encoding(s: Seq<char>)
    ensures
        utf8_len(s) == encode_utf8(s).len(),
    decreases s.len(),
{
    if s.len() > 0 {
        lemma_utf8_len_encoding(s.drop_last());
        lemma_encoding_concat(s.drop_last(), seq![s.last()]);
        assert(s.drop_last() + seq![s.last()] =~= s);
        lemma_encoding_one(s.last());
    }
}

proof fn lemma_encoding_one(c: char)
    ensures
        encode_utf8(seq![c]).len() == char_width(c),
{
    char_is_scalar(c);
    let s = seq![c];
    assert(encode_utf8(s) == encode_scalar(c as u32) + encode_utf8(s.drop_first()));
}

proof fn lemma_encoding_concat(a: Seq<char>, b: Seq<char>)
    ensures
        encode_utf8(a + b) =~= encode_utf8(a) + encode_utf8(b),
    decreases a.len(),
{
    if a.len() == 0 {
        assert(a + b =~= b);
    } else {
        assert((a + b).drop_first() =~= a.drop_first() + b);
        lemma_encoding_concat(a.drop_first(), b);
    }
}

/// Index of the first character, from `i` on, that begins at or after the
/// byte offset `byte`; 0 if there is none.
pub open spec fn char_index_from(s: Seq<char>, byte: nat, i: nat) -> nat
    decreases s.len() - i,
{
    if i >= s.len() {
        0
    } else if utf8_len(s.take(i as int)) >= byte {
        i
    } else {
        char_index_from(s, byte, i + 1)
    }
}

/// Where the line begins that holds position `idx`, looking back no
/// further than `from`: behind the last line feed before `idx`.
pub open spec fn line_start(s: Seq<char>, from: int, idx: int) -> int
    decreases idx - from,
{
    if idx <= from || idx > s.len() {
        from
    } else if s[idx - 1] == '\n' {
        idx
    } else {
        line_start(s, from, idx - 1)
    }
}

/// The text around a byte offset: `radius` characters before and after the
/// character at that offset, clipped to the line that holds that
/// character. A line ends at a line feed; a carriage return before the
/// line feed is not part of the line.
pub open spec fn context_window(text: Seq<char>, byte_offset: nat, radius: nat) -> Seq<char> {
    let idx = char_index_from(text, byte_offset, 0) as int;
    let start: int = if idx >= radius {
        idx - radius
    } else {
        0
    };
    let end: int = if idx + radius <= text.len() {
        idx + radius
    } else {
        text.len() as int
    };
    let a = line_start(text, start, idx);
    let nl = find_from(text, '\n', idx);
    let b = if nl < end {
        if nl > a && text[nl - 1] == '\r' {
            nl - 1
        } else {
            nl
        }
    } else {
        end
    };
    text.subrange(a, b)
}

/// A search that begins inside a text ends inside it or at its end.
pub proof fn lemma_find_from_bounds(s: Seq<char>, c: char, from: int)
    requires
        0 <= from <= s.len(),
    ensures
        from <= find_from(s, c, from) <= s.len(),
    decreases s.len() - from,
{
    if from < s.len() && s[from] != c {
        lemma_find_from_bounds(s, c, from + 1);
    }
}

/// The text around a byte offset of `text`, clipped to the line that holds
/// the offset.
pub fn extract_context(text: &str, byte_offset: usize, char_radius: usize) -> (r: String)
    ensures
        r@ == context_window(text@, byte_offset as nat, char_radius as nat),
{
    let chars = chars_of(text);
    let mut byte_pos: u128 = 0;
    let mut idx: usize = 0;
    let mut i: usize = 0;
    while i < chars.len()
        invariant_except_break
            i <= chars.len(),
            idx == 0,
            byte_pos == utf8_len(chars@.take(i as int)),
            byte_pos <= 4 * i,
            char_index_from(chars@, byte_offset as nat, 0) == char_index_from(
                chars@,
                byte_offset as nat,
                i as nat,
            ),
        ensures
            idx == char_index_from(chars@, byte_offset as nat, 0),
            idx <= chars.len(),
        decreases chars.len() - i,
    {
        if byte_pos >= byte_offset as u128 {
            idx = i;
            break;
        }
        proof {
            assert(chars@.take(i + 1).drop_last() =~= chars@.take(i as int));
        }
        byte_pos = byte_pos + width_of(chars[i]) as u128;
        i += 1;
    }
    let start: usize = if idx >= char_radius { idx - char_radius } else { 0 };
    let end: usize = if char_radius <= chars.len() - idx { idx + char_radius } else { chars.len() };
    let mut a: usize = idx;
    while a > start && chars[a - 1] != '\n'
        invariant
            start <= a <= idx <= chars.len(),
            line_start(chars@, start as int, idx as int) == line_start(chars@, start as int, a as int),
        decreases a,
    {
        a -= 1;
    }
    let nl = find_char(&chars, '\n', idx);
    let b: usize = if nl < end {
        if nl > a && chars[nl - 1] == '\r' {
            nl - 1
        } else {
            nl
        }
    } else {
        end
    };
    let r = string_of(&chars, a, b);
    r
}

/// The first character position, from `k` on, that lies at or after the
/// byte offset `byte`; the length of `s` if there is none.
pub open spec fn boundary_from(s: Seq<char>, byte: nat, k: nat) -> nat
    decreases s.len() - k,
{
    if k >= s.len() {
        s.len()
    } else if utf8_len(s.take(k as int)) >= byte {
        k
    } else {
        boundary_from(s, byte, k + 1)
    }
}

/// The first character position at or after a byte offset, and the byte
/// offset at which that position lies.
pub fn boundary(v: &Vec<char>, byte: u128) -> (r: (usize, u128))
    ensures
        r.0 == boundary_from(v@, byte as nat, 0),
        r.1 == utf8_len(v@.take(r.0 as int)),
        r.0 <= v.len(),
{
    let mut k: usize = 0;
    let mut pos: u128 = 0;
    while k < v.len() && pos < byte
        invariant
            k <= v.len(),
            pos == utf8_len(v@.take(k as int)),
            pos <= 4 * k,
            boundary_from(v@, byte as nat, 0) == boundary_from(v@, byte as nat, k as nat),
        decreases v.len() - k,
    {
        proof {
            assert(v@.take(k + 1).drop_last() =~= v@.take(k as int));
        }
        pos = pos + width_of(v[k]) as u128;
        k += 1;
    }
    (k, pos)
}

/// The text between two byte offsets, if both lie on character boundaries
/// of the text and the first is not behind the second.
pub open spec fn byte_slice(s: Seq<char>, start: nat, end: nat) -> Option<Seq<char>> {
    let a = boundary_from(s, start, 0);
    let b = boundary_from(s, end, 0);
    if start <= end && utf8_len(s.take(a as int)) == start && utf8_len(s.take(b as int)) == end {
        Some(clip(s, a as int, b as int))
    } else {
        None
    }
}

/// The text between two byte offsets of `content`.
pub fn slice_bytes(content: &str, start: usize, end: usize) -> (r: Option<String>)
    ensures
        r.deep_view() == byte_slice(content@, start as nat, end as nat),
{
    if start > end {
        return None;
    }
    let v = chars_of(content);
    let (a, at_a) = boundary(&v, start as u128);
    let (b, at_b) = boundary(&v, end as u128);
    if at_a == start as u128 && at_b == end as u128 {
        Some(string_of(&v, a, b))
    } else {
        None
    }
}

} // verus!
