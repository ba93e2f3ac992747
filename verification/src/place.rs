//! Places: which strings may be a place, and how a place is read off a
//! title, a context window or the target of a campaign.

use crate::event::{PlaceRef, PlaceRefView};
use crate::pattern::{group_text, Groups, GroupsView};
use crate::text::{chars_of, contains_char, in_charset};

use vstd::prelude::*;

verus! {

/// Characters with which no place name begins: verbs of war and of
/// appointment, connectives, kinship terms and the like.
pub const BAD_STARTS: &'static str = "殺攻伐克陷討破逐執使令遣命除拜遷轉授乃又則其先亦再俄仍兄弟父母叔偽僞故舊前後害盜加領兼行代署出入功是走率擒獲斬在及與隨自累左右號詔贈遙重衆勒從結更如乘時方永爲歷曆瑗苗宋";

/// Endings of the names of administrative units.
pub const ADMIN_SUFFIXES: &'static str = "州郡縣國";

/// Endings of the names of places that a campaign may aim at.
pub const GEO_SUFFIXES: &'static str = "州郡縣城關塞鎮壁山水河江池谷嶺津渡橋亭營壘";

/// The pattern of a place before the office that governs it.
pub const PLACE_TITLE_PATTERN: &'static str = "(南?[^\\s，。、以為]{2,4})(刺史|太守|內史)";

/// A displaced administration: a name of three or more characters that
/// begins with 南 and ends with 州.
pub open spec fn is_qiao_name(name: Seq<char>) -> bool {
    name.len() >= 3 && name.first() == '南' && name.last() == '州'
}

/// A name of two or three characters, free of brackets, whose first
/// character can begin a place name.
pub open spec fn plausible_place(name: Seq<char>) -> bool {
    2 <= name.len() <= 3 && !name.contains('[') && !name.contains(']') && !BAD_STARTS@.contains(
        name.first(),
    )
}

/// The place named `name`, governed through the office `role`.
pub open spec fn place_named(name: Seq<char>, role: Option<Seq<char>>) -> PlaceRefView {
    PlaceRefView { name, is_qiao: is_qiao_name(name), role_suffix: role }
}

/// A bare administrative place: two to four characters, the last of them
/// 州, 郡, 縣 or 國, and plausible as a place.
pub open spec fn bare_place(title: Seq<char>) -> Option<PlaceRefView> {
    if 2 <= title.len() <= 4 && ADMIN_SUFFIXES@.contains(title.last()) && plausible_place(title) {
        Some(place_named(title, None))
    } else {
        None
    }
}

/// The place of a title: where the place pattern matched, what it captured;
/// where it did not, the title itself if it is a bare place.
pub open spec fn title_place(m: Option<GroupsView>, title: Seq<char>) -> Option<PlaceRefView> {
    match m {
        Some(g) => match group_text(g, 1) {
            Some(name) => Some(place_named(name, group_text(g, 2))),
            None => None,
        },
        None => bare_place(title),
    }
}

/// The place that one match of the place pattern in a context yields.
pub open spec fn context_place(g: GroupsView) -> Option<PlaceRefView> {
    match group_text(g, 1) {
        Some(name) => if plausible_place(name) {
            Some(place_named(name, group_text(g, 2)))
        } else {
            None
        },
        None => None,
    }
}

/// The places that the first `n` matches of the place pattern yield.
pub open spec fn context_places(ms: Seq<GroupsView>, n: nat) -> Seq<PlaceRefView>
    decreases n,
{
    if n == 0 || n > ms.len() {
        Seq::empty()
    } else {
        let r = context_places(ms, (n - 1) as nat);
        match context_place(ms[n - 1]) {
            Some(p) => r.push(p),
            None => r,
        }
    }
}

/// The place that the target of a campaign is, if its last character is one
/// of the geographic endings.
pub open spec fn target_place(target: Seq<char>) -> Option<PlaceRefView> {
    if target.len() > 0 && GEO_SUFFIXES@.contains(target.last()) {
        Some(place_named(target, None))
    } else {
        None
    }
}

/// Whether a name marks a displaced administration.
pub fn is_qiao(name: &Vec<char>) -> (r: bool)
    ensures
        r == is_qiao_name(name@),
{
    name.len() >= 3 && name[0] == '南' && name[name.len() - 1] == '州'
}

fn plausible_chars(name: &Vec<char>) -> (r: bool)
    ensures
        r == plausible_place(name@),
{
    if name.len() < 2 || name.len() > 3 {
        return false;
    }
    if contains_char(name, '[') || contains_char(name, ']') {
        return false;
    }
    !in_charset(BAD_STARTS, name[0])
}

/// Whether a string found in running text is plausible as the name of an
/// administrative place.
pub fn is_plausible_place(name: &str) -> (r: bool)
    ensures
        r == plausible_place(name@),
{
    let v = chars_of(name);
    plausible_chars(&v)
}

/// The text of group `k` of a match, if the group took part in it.
pub fn group_string(g: &Groups, k: usize) -> (r: Option<String>)
    ensures
        r.deep_view() == group_text(g.deep_view(), k as int),
{
    if k < g.len() {
        match &g[k] {
            Some(c) => Some(c.text.clone()),
            None => None,
        }
    } else {
        None
    }
}

/// Reads the place off a title such as 郢州刺史, given what the place
/// pattern found in it; falls back to a bare place such as 梁州.
pub fn place_of_title(m: &Option<Groups>, title: &str) -> (r: Option<PlaceRef>)
    ensures
        r.deep_view() == title_place(m.deep_view(), title@),
{
    match m {
        Some(g) => {
            match group_string(g, 1) {
                Some(name) => {
                    let qiao = is_qiao(&chars_of(name.as_str()));
                    Some(PlaceRef { name, is_qiao: qiao, role_suffix: group_string(g, 2) })
                },
                None => None,
            }
        },
        None => {
            let v = chars_of(title);
            if 2 <= v.len() && v.len() <= 4 && in_charset(ADMIN_SUFFIXES, v[v.len() - 1])
                && plausible_chars(&v) {
                Some(PlaceRef { name: String::from_str(title), is_qiao: is_qiao(&v), role_suffix: None })
            } else {
                None
            }
        },
    }
}

/// The places of a context window, given every match of the place pattern
/// in it: each plausible captured name, in order.
pub fn places_of_context(ms: &Vec<Groups>) -> (r: Vec<PlaceRef>)
    ensures
        r.deep_view() == context_places(ms.deep_view(), ms.len() as nat),
{
    let mut r: Vec<PlaceRef> = Vec::new();
    let mut i: usize = 0;
    let ghost mv = ms.deep_view();
    while i < ms.len()
        invariant
            i <= ms.len(),
            mv == ms.deep_view(),
            r.deep_view() == context_places(mv, i as nat),
        decreases ms.len() - i,
    {
        match group_string(&ms[i], 1) {
            Some(name) => {
                let v = chars_of(name.as_str());
                if plausible_chars(&v) {
                    let p = PlaceRef { name, is_qiao: is_qiao(&v), role_suffix: group_string(&ms[i], 2) };
                    r.push(p);
                }
            },
            None => {},
        }
        i += 1;
    }
    r
}

} // verus!
