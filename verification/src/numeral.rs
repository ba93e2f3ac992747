//! Chinese numerals as they occur in year and month expressions.

use crate::text::chars_of;
use vstd::prelude::*;

verus! {

/// The value of one of the digits 一 to 九.
pub open spec fn digit_value(c: char) -> Option<u8> {
    if c == '一' {
        Some(1u8)
    } else if c == '二' {
        Some(2u8)
    } else if c == '三' {
        Some(3u8)
    } else if c == '四' {
        Some(4u8)
    } else if c == '五' {
        Some(5u8)
    } else if c == '六' {
        Some(6u8)
    } else if c == '七' {
        Some(7u8)
    } else if c == '八' {
        Some(8u8)
    } else if c == '九' {
        Some(9u8)
    } else {
        None
    }
}

/// The value of one of the digits 二 to 九, which may stand before 十.
pub open spec fn tens_value(c: char) -> Option<u8> {
    if c == '一' {
        None
    } else {
        digit_value(c)
    }
}

/// The number that a numeral of one to three characters writes: 元 is 1,
/// a digit is itself, 十 is 10, 十D is 10 + D, and, for T from 二 to 九,
/// T十 is 10 × T and T十D is 10 × T + D. Nothing else is a numeral; 一十
/// and 一十一 are none.
pub open spec fn cn_number(s: Seq<char>) -> Option<u8> {
    if s.len() == 1 {
        if s[0] == '元' {
            Some(1u8)
        } else if s[0] == '十' {
            Some(10u8)
        } else {
            digit_value(s[0])
        }
    } else if s.len() == 2 {
        if s[0] == '十' {
            match digit_value(s[1]) {
                Some(d) => Some((10 + d) as u8),
                None => None,
            }
        } else if s[1] == '十' {
            match tens_value(s[0]) {
                Some(t) => Some((t * 10) as u8),
                None => None,
            }
        } else {
            None
        }
    } else if s.len() == 3 {
        if s[1] == '十' {
            match (tens_value(s[0]), digit_value(s[2])) {
                (Some(t), Some(d)) => Some((t * 10 + d) as u8),
                _ => None,
            }
        } else {
            None
        }
    } else {
        None
    }
}

/// The month that a month name writes, after a leading 閏, which marks a
/// leap month and does not change the number, is set aside: 正 and 一 are
/// the first month, 臘 is the twelfth, anything else is a numeral from 1
/// to 12.
pub open spec fn cn_month(s: Seq<char>) -> Option<u8> {
    let base = if s.len() > 0 && s[0] == '閏' {
        s.skip(1)
    } else {
        s
    };
    if base.len() == 1 && base[0] == '正' {
        Some(1u8)
    } else if base.len() == 1 && base[0] == '臘' {
        Some(12u8)
    } else {
        match cn_number(base) {
            Some(m) => if 1 <= m <= 12 {
                Some(m)
            } else {
                None
            },
            None => None,
        }
    }
}

/// A numeral, where it is one, writes a number from 1 to 99.
pub proof fn lemma_cn_number_range(s: Seq<char>)
    ensures
        cn_number(s) is Some ==> 1 <= cn_number(s)->0 <= 99,
{
}

/// One Chinese digit, 一 to 九.
pub fn cn_digit(c: char) -> (r: Option<u8>)
    ensures
        r == digit_value(c),
        r is Some ==> 1 <= r->0 <= 9,
{
    if c == '一' {
        Some(1)
    } else if c == '二' {
        Some(2)
    } else if c == '三' {
        Some(3)
    } else if c == '四' {
        Some(4)
    } else if c == '五' {
        Some(5)
    } else if c == '六' {
        Some(6)
    } else if c == '七' {
        Some(7)
    } else if c == '八' {
        Some(8)
    } else if c == '九' {
        Some(9)
    } else {
        None
    }
}

/// One of the digits 二 to 九, as it may stand before 十.
pub fn cn_tens(c: char) -> (r: Option<u8>)
    ensures
        r == tens_value(c),
        r is Some ==> 2 <= r->0 <= 9,
{
    if c == '一' {
        None
    } else {
        cn_digit(c)
    }
}

/// The number written by the characters `v[from..]`.
pub(crate) fn number_of_chars(v: &Vec<char>, from: usize) -> (r: Option<u8>)
    requires
        from <= v.len(),
    ensures
        r == cn_number(v@.skip(from as int)),
        r is Some ==> 1 <= r->0 <= 99,
{
    let n: usize = v.len() - from;
    if n == 1 {
        let c = v[from];
        if c == '元' {
            Some(1)
        } else if c == '十' {
            Some(10)
        } else {
            cn_digit(c)
        }
    } else if n == 2 {
        if v[from] == '十' {
            match cn_digit(v[from + 1]) {
                Some(d) => Some(10 + d),
                None => None,
            }
        } else if v[from + 1] == '十' {
            match cn_tens(v[from]) {
                Some(t) => Some(t * 10),
                None => None,
            }
        } else {
            None
        }
    } else if n == 3 {
        if v[from + 1] == '十' {
            match (cn_tens(v[from]), cn_digit(v[from + 2])) {
                (Some(t), Some(d)) => Some(t * 10 + d),
                _ => None,
            }
        } else {
            None
        }
    } else {
        None
    }
}

/// Parses a Chinese cardinal number from 元 and 一 up to 九十九. The tens
/// from twenty on are written with their digit; ten itself is 十 alone.
pub fn parse_cn_number(s: &str) -> (r: Option<u8>)
    ensures
        r == cn_number(s@),
        r is Some ==> 1 <= r->0 <= 99,
{
    let v = chars_of(s);
    number_of_chars(&v, 0)
}

/// Parses a Chinese month name, plain or leap, to the month number 1 to 12.
pub fn parse_cn_month(s: &str) -> (r: Option<u8>)
    ensures
        r == cn_month(s@),
        r is Some ==> 1 <= r->0 <= 12,
{
    let v = chars_of(s);
    let from: usize = if v.len() > 0 && v[0] == '閏' { 1 } else { 0 };
    if v.len() - from == 1 {
        if v[from] == '正' {
            return Some(1);
        }
        if v[from] == '臘' {
            return Some(12);
        }
    }
    match number_of_chars(&v, from) {
        Some(m) => if 1 <= m && m <= 12 {
            Some(m)
        } else {
            None
        },
        None => None,
    }
}

} // verus!
