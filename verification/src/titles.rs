//! Vocabulary of official titles and the pattern fragment that matches one.

use crate::words::{
    alternation, alternation_of, distinct, distinct_words, longest_first, longest_first_words,
    strings_of, views,
};
use vstd::prelude::*;

verus! {

/// Endings of compound titles: 前將軍 ends in 將軍, 青州刺史 in 刺史. A name is
/// likely to follow one of them.
pub const TITLE_SUFFIXES: [&'static str; 24] = [
    "將軍", "校尉", "都尉", "護軍", "司馬", "參軍", "刺史", "太守", "內史", "長史", "別駕", "從事",
    "主簿", "功曹", "尚書", "侍郎", "中郎", "僕射", "常侍", "給事", "令史", "祭酒", "博士", "中丞",
];

/// Titles that stand alone right before a name.
pub const STANDALONE_TITLES: [&'static str; 15] = [
    "太宰", "太傅", "太保", "太尉", "太師", "司空", "司徒", "丞相", "侍中", "都督", "都護", "御史",
    "國子", "秘書", "著作",
];

/// Title endings followed by the standalone titles.
pub open spec fn all_titles() -> Seq<Seq<char>> {
    views(TITLE_SUFFIXES@) + views(STANDALONE_TITLES@)
}

/// The fragment that matches any title: longer titles are tried first and
/// none is listed twice.
pub open spec fn title_regex() -> Seq<char> {
    alternation(distinct(longest_first(all_titles())))
}

/// The title endings and the standalone titles, in table order.
pub fn title_words() -> (all: Vec<String>)
    ensures
        all.deep_view() == all_titles(),
{
    let mut all = strings_of(&TITLE_SUFFIXES);
    let mut rest = strings_of(&STANDALONE_TITLES);
    all.append(&mut rest);
    all
}

/// Builds the fragment that matches any title ending or standalone title.
pub fn build_title_regex() -> (r: String)
    ensures
        r@ == title_regex(),
{
    let all = title_words();
    let sorted = longest_first_words(&all);
    let unique = distinct_words(&sorted);
    alternation_of(&unique)
}

} // verus!
