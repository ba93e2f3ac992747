//! The event scanner: time references, time scopes, and the typed events
//! of one file, each attributed to the time reference that precedes it.

use crate::event::{
    Event, EventKind, EventKindView, EventView, PlaceRef, TextSpan, TextSpanView, TimeRef,
    TimeRefView, TimeScope, TimeScopeView,
};
use crate::intext::{false_positive, is_false_positive};
use crate::numeral::{cn_month, cn_number, parse_cn_month, parse_cn_number};
use crate::pattern::{
    all_captures, build, capture_within, groups_within, first_captures, group_text, matches_within, regex_captures,
    regex_captures_iter, regex_compiles, regex_source, Groups, GroupsView, PatternError,
};
use crate::place::{
    context_places, group_string, is_qiao, place_of_title, places_of_context, target_place,
    title_place, GEO_SUFFIXES, PLACE_TITLE_PATTERN,
};
use crate::regime::{
    build_era_regex, default_regime, default_regime_of, era_regex, regime_name, resolve_era,
    resolved_regime,
};
use crate::surname::{
    build_name_regex, collect_extra_surnames, known_surnames, name_regex, person_views, texts,
};
use crate::text::{
    byte_len, chars_of, context_window, extract_context, in_charset, trim_string, trimmed,
    utf8_len,
};
use crate::titles::{build_title_regex, title_regex};
use crate::types::{Book, Person};
use vstd::prelude::*;
use vstd::string::*;
use vstd::utf8::*;

verus! {

/// What follows the era name in a time reference: the year and 年.
pub const YEAR_TAIL: &'static str = ")(元|[一二三四五六七八九十]{1,3})年";

/// A month, with the cyclical day that may follow it.
pub const MONTH_DAY_PATTERN: &'static str =
    "(正|閏?[一二三四五六七八九十]{1,2}|臘)月([甲乙丙丁戊己庚辛壬癸][子丑寅卯辰巳午未申酉戌亥])?";

/// A month and day count for a time reference only if they begin within
/// this many bytes after it.
pub const MONTH_DAY_REACH: usize = 15;

/// Radius, in characters, of the context window of an event.
pub const CONTEXT_RADIUS: usize = 30;

/// An era name, a year and 年.
pub open spec fn time_pattern() -> Seq<char> {
    "("@ + era_regex() + YEAR_TAIL@
}

/// The text that begins at byte offset `byte` of `content`.
pub open spec fn suffix_from_byte(content: Seq<char>, byte: int) -> Seq<char> {
    decode_utf8(encode_utf8(content).subrange(byte, encode_utf8(content).len() as int))
}

/// Month and cyclical day of a time reference, given what the month
/// pattern found in the text after it.
pub open spec fn month_day_of(md: Option<GroupsView>) -> (Option<u8>, Option<Seq<char>>) {
    match md {
        Some(g) => if g.len() > 0 && g[0] is Some && g[0]->0.start < MONTH_DAY_REACH {
            (
                match group_text(g, 1) {
                    Some(t) => cn_month(t),
                    None => None,
                },
                group_text(g, 2),
            )
        } else {
            (None, None)
        },
        None => (None, None),
    }
}

/// The time reference that one match of the time pattern stands for. A
/// match whose year is no numeral stands for none.
pub open spec fn time_of_match(g: GroupsView, md: Option<GroupsView>, book: Book) -> Option<
    TimeRefView,
> {
    if g.len() > 0 && g[0] is Some && g[0]->0.start < g[0]->0.end {
        match (group_text(g, 1), group_text(g, 2)) {
            (Some(era), Some(year_text)) => match cn_number(year_text) {
                Some(year) => {
                    let regime = match resolved_regime(era, book) {
                        Some(r) => r,
                        None => default_regime_of(book),
                    };
                    Some(
                        TimeRefView {
                            era,
                            regime: regime_name(regime),
                            year,
                            month: month_day_of(md).0,
                            day_ganzhi: month_day_of(md).1,
                            raw: g[0]->0.text,
                            byte_offset: g[0]->0.start,
                        },
                    )
                },
                None => None,
            },
            _ => None,
        }
    } else {
        None
    }
}

/// What the month pattern finds after the match `g` in `content`.
pub open spec fn month_day_after(g: GroupsView, content: Seq<char>) -> Option<GroupsView> {
    if g.len() > 0 && g[0] is Some {
        regex_captures(MONTH_DAY_PATTERN@, suffix_from_byte(content, g[0]->0.end as int))
    } else {
        None
    }
}

/// The time references of the first `n` matches of the time pattern, each
/// with its byte offset.
pub open spec fn times_of(ms: Seq<GroupsView>, content: Seq<char>, book: Book, n: nat) -> Seq<
    (usize, TimeRefView),
>
    decreases n,
{
    if n == 0 || n > ms.len() {
        Seq::empty()
    } else {
        let r = times_of(ms, content, book, (n - 1) as nat);
        let g = ms[n - 1];
        match time_of_match(g, month_day_after(g, content), book) {
            Some(t) => r.push((t.byte_offset, t)),
            None => r,
        }
    }
}

/// Every time reference of a file, in the order of the text.
pub open spec fn file_times(content: Seq<char>, book: Book) -> Seq<(usize, TimeRefView)> {
    let ms = regex_captures_iter(time_pattern(), content);
    times_of(ms, content, book, ms.len())
}

/// The offsets rise strictly, each is the offset of its own reference, and
/// each lies before `end`.
pub open spec fn times_in_order(times: Seq<(usize, TimeRefView)>, end: int) -> bool {
    &&& forall|i: int| 0 <= i < times.len() ==> (#[trigger] times[i]).0 == times[i].1.byte_offset
    &&& forall|i: int| 0 <= i < times.len() ==> (#[trigger] times[i]).0 < end
    &&& forall|i: int, j: int|
        0 <= i < j < times.len() ==> (#[trigger] times[i]).0 < (#[trigger] times[j]).0
}

/// The scope of each time reference: from its own offset to the offset of
/// the next reference, the last one to `content_len`.
pub open spec fn scopes_of(times: Seq<(usize, TimeRefView)>, content_len: usize, file: Seq<char>) -> Seq<
    TimeScopeView,
> {
    Seq::new(
        times.len(),
        |i: int|
            TimeScopeView {
                time: times[i].1,
                span: TextSpanView {
                    file,
                    byte_start: times[i].0,
                    byte_end: if i + 1 < times.len() {
                        times[i + 1].0
                    } else {
                        content_len
                    },
                },
            },
    )
}

/// The last of the first `n` time references that lies before `offset`.
pub open spec fn time_before(times: Seq<(usize, TimeRefView)>, offset: usize, n: nat) -> Option<
    TimeRefView,
>
    decreases n,
{
    if n == 0 || n > times.len() {
        None
    } else if times[n - 1].0 < offset {
        Some(times[n - 1].1)
    } else {
        time_before(times, offset, (n - 1) as nat)
    }
}

/// The scopes tile a file from its first time reference to its end: none
/// is empty, each begins at its own time reference and ends where the next
/// begins, and the last ends at `end`.
pub open spec fn tiles(scopes: Seq<TimeScopeView>, end: usize) -> bool {
    &&& forall|i: int|
        0 <= i < scopes.len() ==> (#[trigger] scopes[i]).span.byte_start < scopes[i].span.byte_end
    &&& forall|i: int|
        0 <= i < scopes.len() ==> (#[trigger] scopes[i]).span.byte_start == scopes[i].time.byte_offset
    &&& forall|i: int, j: int|
        0 <= i && j == i + 1 && j < scopes.len() ==> (#[trigger] scopes[i]).span.byte_end
            == (#[trigger] scopes[j]).span.byte_start
    &&& scopes.len() > 0 ==> scopes.last().span.byte_end == end
}

/// Scopes built over time references in strictly rising order tile the
/// file from the first reference to its end.
pub proof fn lemma_scopes_tile(times: Seq<(usize, TimeRefView)>, content_len: usize, file: Seq<char>)
    requires
        times_in_order(times, content_len as int),
    ensures
        scopes_of(times, content_len, file).len() == times.len(),
        tiles(scopes_of(times, content_len, file), content_len),
        times.len() > 0 ==> scopes_of(times, content_len, file)[0].span.byte_start == times[0].0,
{
}

/// Every time reference stands at a character boundary of the content,
/// before its end.
pub open spec fn times_within(times: Seq<(usize, TimeRefView)>, content: Seq<char>) -> bool {
    forall|k: int| 0 <= k < times.len() ==> offset_within(content, (#[trigger] times[k]).0)
}

/// The time references of matches that lie inside the content stand at
/// character boundaries of the content, before its end.
pub proof fn lemma_times_within(ms: Seq<GroupsView>, content: Seq<char>, book: Book, n: nat)
    requires
        matches_within(ms, content),
        n <= ms.len(),
    ensures
        times_within(times_of(ms, content, book, n), content),
    decreases n,
{
    crate::text::lemma_utf8_len_encoding(content);
    if n > 0 {
        lemma_times_within(ms, content, book, (n - 1) as nat);
        let g = ms[n - 1];
        assert(groups_within(g, content));
        assert(capture_within(g[0]->0, content));
    }
}

/// The year of every time reference is a numeral from 1 to 99.
pub proof fn lemma_times_have_years(ms: Seq<GroupsView>, content: Seq<char>, book: Book, n: nat)
    requires
        n <= ms.len(),
    ensures
        forall|k: int|
            0 <= k < times_of(ms, content, book, n).len() ==> 1 <= (#[trigger] times_of(
                ms,
                content,
                book,
                n,
            )[k]).1.year <= 99,
    decreases n,
{
    if n > 0 {
        lemma_times_have_years(ms, content, book, (n - 1) as nat);
    }
}

/// Among time references in rising order, the one that `time_before` picks
/// lies before the offset, and no reference lies strictly between the two;
/// it picks none only if no reference lies before the offset.
pub proof fn lemma_time_before_nearest(times: Seq<(usize, TimeRefView)>, offset: usize, n: nat)
    requires
        n <= times.len(),
        forall|i: int, j: int|
            0 <= i < j < times.len() ==> (#[trigger] times[i]).0 <= (#[trigger] times[j]).0,
        forall|i: int| 0 <= i < times.len() ==> (#[trigger] times[i]).0 == times[i].1.byte_offset,
    ensures
        match time_before(times, offset, n) {
            Some(t) => t.byte_offset < offset && forall|k: int|
                0 <= k < n ==> !(t.byte_offset < (#[trigger] times[k]).0 < offset),
            None => forall|k: int| 0 <= k < n ==> (#[trigger] times[k]).0 >= offset,
        },
    decreases n,
{
    if n > 0 && !(times[n - 1].0 < offset) {
        lemma_time_before_nearest(times, offset, (n - 1) as nat);
    }
}

/// The time references of matches that do not overlap rise strictly and
/// lie inside the content.
pub proof fn lemma_times_in_order(ms: Seq<GroupsView>, content: Seq<char>, book: Book, n: nat)
    requires
        matches_within(ms, content),
        n <= ms.len(),
    ensures
        times_in_order(times_of(ms, content, book, n), utf8_len(content) as int),
        n > 0 ==> forall|k: int|
            0 <= k < times_of(ms, content, book, n).len() ==> (#[trigger] times_of(
                ms,
                content,
                book,
                n,
            )[k]).0 < ms[n - 1][0]->0.end,
    decreases n,
{
    crate::text::lemma_utf8_len_encoding(content);
    if n > 0 {
        lemma_times_in_order(ms, content, book, (n - 1) as nat);
        let r = times_of(ms, content, book, (n - 1) as nat);
        let g = ms[n - 1];
        assert(groups_within(g, content));
        assert(capture_within(g[0]->0, content));
        if n > 1 {
            assert(groups_within(ms[n - 2], content));
            assert(ms[n - 2][0]->0.end <= ms[n - 1][0]->0.start);
        }
    }
}

/// The views of a list of time references with their offsets.
pub open spec fn time_views(times: Seq<(usize, TimeRef)>) -> Seq<(usize, TimeRefView)> {
    Seq::new(times.len(), |i: int| (times[i].0, times[i].1@))
}

/// Month and cyclical day of a time reference, given what the month
/// pattern found in the text after it.
pub fn month_day(md: &Option<Groups>) -> (r: (Option<u8>, Option<String>))
    ensures
        r.deep_view() == month_day_of(md.deep_view()),
{
    match md {
        Some(g) => {
            if g.len() == 0 {
                return (None, None);
            }
            match &g[0] {
                Some(full) => {
                    if full.start < MONTH_DAY_REACH {
                        let month = match group_string(g, 1) {
                            Some(t) => parse_cn_month(t.as_str()),
                            None => None,
                        };
                        (month, group_string(g, 2))
                    } else {
                        (None, None)
                    }
                },
                None => (None, None),
            }
        },
        None => (None, None),
    }
}

/// The time reference that one match of the time pattern stands for, given
/// what the month pattern found after it.
pub fn time_from_match(g: &Groups, md: &Option<Groups>, book: Book) -> (r: Option<TimeRef>)
    ensures
        r.deep_view() == time_of_match(g.deep_view(), md.deep_view(), book),
{
    if g.len() == 0 {
        return None;
    }
    let full = match &g[0] {
        Some(c) => c,
        None => {
            return None;
        },
    };
    if full.start >= full.end {
        return None;
    }
    let era = match group_string(g, 1) {
        Some(s) => s,
        None => {
            return None;
        },
    };
    let year_text = match group_string(g, 2) {
        Some(s) => s,
        None => {
            return None;
        },
    };
    let year = match parse_cn_number(year_text.as_str()) {
        Some(y) => y,
        None => {
            return None;
        },
    };
    let regime = match resolve_era(era.as_str(), book) {
        Some(r) => r,
        None => default_regime(book),
    };
    let (month, day_ganzhi) = month_day(md);
    Some(
        TimeRef {
            era,
            regime: String::from_str(regime.as_chinese()),
            year,
            month,
            day_ganzhi,
            raw: full.text.clone(),
            byte_offset: full.start,
        },
    )
}

/// The five families of event patterns.
#[derive(Debug, Clone, Copy, PartialEq, Eq, Structural)]
pub enum Family {
    Appointment,
    Promotion,
    Accession,
    Battle,
    Death,
}

/// The pattern of a family of events, over the fragment that matches a name.
pub open spec fn family_pattern(f: Family, name: Seq<char>) -> Seq<char> {
    match f {
        Family::Appointment => "以[^為]{0,12}("@ + name + ")為([^，。]{2,20})"@,
        Family::Promotion => "(拜|除|遷|轉|授|徵|封)[^，。為]{0,10}("@ + name + ")為([^，。]{2,20})"@,
        Family::Accession => "("@ + name + ")(即位|踐祚|繼位|即皇帝位)"@,
        Family::Battle => "("@ + name + ")(攻|伐|討|克|陷|寇|圍|襲)([^，。於于以]{2,8})"@,
        Family::Death => "(?:"@ + title_regex() + ")?("@ + name + ")(薨|卒|崩)"@,
    }
}

/// Every pattern of the scanner compiles.
pub open spec fn event_patterns_compile(name: Seq<char>) -> bool {
    &&& regex_compiles(time_pattern())
    &&& regex_compiles(MONTH_DAY_PATTERN@)
    &&& regex_compiles(family_pattern(Family::Appointment, name))
    &&& regex_compiles(family_pattern(Family::Promotion, name))
    &&& regex_compiles(family_pattern(Family::Accession, name))
    &&& regex_compiles(family_pattern(Family::Battle, name))
    &&& regex_compiles(family_pattern(Family::Death, name))
    &&& regex_compiles(PLACE_TITLE_PATTERN@)
}

/// A captured person counts only if it is not empty and passes the
/// false-positive filter.
pub open spec fn admissible(person: Seq<char>) -> bool {
    person.len() > 0 && !false_positive(person)
}

/// The place of a title.
pub open spec fn place_in_title(title: Seq<char>) -> Option<crate::event::PlaceRefView> {
    title_place(regex_captures(PLACE_TITLE_PATTERN@, title), title)
}

/// The places of a context window.
pub open spec fn places_in_context(context: Seq<char>) -> Seq<crate::event::PlaceRefView> {
    let ms = regex_captures_iter(PLACE_TITLE_PATTERN@, context);
    context_places(ms, ms.len())
}

/// What one match of a family's pattern says happened, if its person is
/// admissible.
pub open spec fn kind_of_match(f: Family, g: GroupsView) -> Option<EventKindView> {
    match f {
        Family::Appointment => match (group_text(g, 1), group_text(g, 2)) {
            (Some(person), Some(title)) => if admissible(person) {
                Some(
                    EventKindView::Appointment {
                        person,
                        new_title: trimmed(title),
                        place: place_in_title(title),
                    },
                )
            } else {
                None
            },
            _ => None,
        },
        Family::Promotion => match (group_text(g, 1), group_text(g, 2), group_text(g, 3)) {
            (Some(verb), Some(person), Some(title)) => if admissible(person) {
                Some(
                    EventKindView::Promotion {
                        person,
                        verb,
                        new_title: trimmed(title),
                        place: place_in_title(title),
                    },
                )
            } else {
                None
            },
            _ => None,
        },
        Family::Accession => match (group_text(g, 1), group_text(g, 2)) {
            (Some(person), Some(verb)) => if admissible(person) {
                Some(EventKindView::Accession { person, verb })
            } else {
                None
            },
            _ => None,
        },
        Family::Battle => match (group_text(g, 1), group_text(g, 2), group_text(g, 3)) {
            (Some(person), Some(verb), Some(target)) => if admissible(person) {
                Some(
                    EventKindView::Battle { person, verb, target, target_place: target_place(target) },
                )
            } else {
                None
            },
            _ => None,
        },
        Family::Death => match (group_text(g, 1), group_text(g, 2)) {
            (Some(person), Some(verb)) => if admissible(person) {
                Some(EventKindView::Death { person, verb })
            } else {
                None
            },
            _ => None,
        },
    }
}

/// A byte offset at which text stands: it lies on a character boundary of
/// the content and before its end.
pub open spec fn offset_within(content: Seq<char>, offset: usize) -> bool {
    is_char_boundary(encode_utf8(content), offset as int) && offset < utf8_len(content)
}

/// The event that one match of a family's pattern yields: what happened,
/// the nearest time reference before the match, the context around it and
/// the places named there. A match that covers no text yields none.
pub open spec fn event_of_match(
    f: Family,
    g: GroupsView,
    content: Seq<char>,
    times: Seq<(usize, TimeRefView)>,
    file: Seq<char>,
) -> Option<EventView> {
    if g.len() > 0 && g[0] is Some && g[0]->0.start < g[0]->0.end {
        match kind_of_match(f, g) {
            Some(kind) => {
                let offset = g[0]->0.start;
                let context = context_window(content, offset as nat, CONTEXT_RADIUS as nat);
                Some(
                    EventView {
                        kind,
                        time: time_before(times, offset, times.len()),
                        source_file: file,
                        byte_offset: offset,
                        context,
                        locations: places_in_context(context),
                    },
                )
            },
            None => None,
        }
    } else {
        None
    }
}

/// The events of the first `n` matches of a family's pattern.
pub open spec fn events_of(
    f: Family,
    ms: Seq<GroupsView>,
    content: Seq<char>,
    times: Seq<(usize, TimeRefView)>,
    file: Seq<char>,
    n: nat,
) -> Seq<EventView>
    decreases n,
{
    if n == 0 || n > ms.len() {
        Seq::empty()
    } else {
        let r = events_of(f, ms, content, times, file, (n - 1) as nat);
        match event_of_match(f, ms[n - 1], content, times, file) {
            Some(e) => r.push(e),
            None => r,
        }
    }
}

/// The events of one family in a file.
pub open spec fn family_events(
    f: Family,
    name: Seq<char>,
    content: Seq<char>,
    times: Seq<(usize, TimeRefView)>,
    file: Seq<char>,
) -> Seq<EventView> {
    let ms = regex_captures_iter(family_pattern(f, name), content);
    events_of(f, ms, content, times, file, ms.len())
}

/// The events of a file: appointments, then promotions, accessions,
/// battles and deaths, each family in the order of the text.
pub open spec fn file_events(name: Seq<char>, content: Seq<char>, book: Book, file: Seq<char>) -> Seq<
    EventView,
> {
    let times = file_times(content, book);
    family_events(Family::Appointment, name, content, times, file) + family_events(
        Family::Promotion,
        name,
        content,
        times,
        file,
    ) + family_events(Family::Accession, name, content, times, file) + family_events(
        Family::Battle,
        name,
        content,
        times,
        file,
    ) + family_events(Family::Death, name, content, times, file)
}

/// An event is attributed to the nearest time reference before it: its
/// time lies before it, and no reference of the file lies strictly between.
pub open spec fn well_attributed(e: EventView, times: Seq<(usize, TimeRefView)>) -> bool {
    match e.time {
        Some(t) => t.byte_offset < e.byte_offset && forall|k: int|
            0 <= k < times.len() ==> !(t.byte_offset < (#[trigger] times[k]).0 < e.byte_offset),
        None => forall|k: int| 0 <= k < times.len() ==> (#[trigger] times[k]).0 >= e.byte_offset,
    }
}

/// Every event of a family names an admissible person and is attributed to
/// the nearest time reference before it.
pub proof fn lemma_events_attributed(
    f: Family,
    ms: Seq<GroupsView>,
    content: Seq<char>,
    times: Seq<(usize, TimeRefView)>,
    file: Seq<char>,
    n: nat,
)
    requires
        n <= ms.len(),
        times_in_order(times, utf8_len(content) as int),
    ensures
        forall|k: int|
            0 <= k < events_of(f, ms, content, times, file, n).len() ==> {
                let e = #[trigger] events_of(f, ms, content, times, file, n)[k];
                &&& well_attributed(e, times)
                &&& admissible(crate::event::person_of(e.kind))
                &&& e.source_file == file
            },
    decreases n,
{
    if n > 0 {
        lemma_events_attributed(f, ms, content, times, file, (n - 1) as nat);
        let g = ms[n - 1];
        if event_of_match(f, g, content, times, file) is Some {
            lemma_time_before_nearest(times, g[0]->0.start, times.len());
        }
    }
}

/// The events of matches that lie inside the content stand at character
/// boundaries of the content, before its end.
pub proof fn lemma_events_in_bounds(
    f: Family,
    ms: Seq<GroupsView>,
    content: Seq<char>,
    times: Seq<(usize, TimeRefView)>,
    file: Seq<char>,
    n: nat,
)
    requires
        n <= ms.len(),
        matches_within(ms, content),
    ensures
        forall|k: int|
            0 <= k < events_of(f, ms, content, times, file, n).len() ==> offset_within(
                content,
                (#[trigger] events_of(f, ms, content, times, file, n)[k]).byte_offset,
            ),
    decreases n,
{
    crate::text::lemma_utf8_len_encoding(content);
    if n > 0 {
        lemma_events_in_bounds(f, ms, content, times, file, (n - 1) as nat);
        let g = ms[n - 1];
        assert(groups_within(g, content));
        assert(capture_within(g[0]->0, content));
    }
}

/// Compiled patterns for the extraction of events and time references.
pub struct EventScanner {
    name_re: String,
    re_time: regex::Regex,
    re_month_day: regex::Regex,
    re_appointment: regex::Regex,
    re_promotion: regex::Regex,
    re_accession: regex::Regex,
    re_battle: regex::Regex,
    re_death: regex::Regex,
    re_place_title: regex::Regex,
}

fn family_source(f: Family, name: &str) -> (r: String)
    ensures
        r@ == family_pattern(f, name@),
{
    match f {
        Family::Appointment => {
            let mut r = String::from_str("以[^為]{0,12}(");
            r.append(name);
            r.append(")為([^，。]{2,20})");
            r
        },
        Family::Promotion => {
            let mut r = String::from_str("(拜|除|遷|轉|授|徵|封)[^，。為]{0,10}(");
            r.append(name);
            r.append(")為([^，。]{2,20})");
            r
        },
        Family::Accession => {
            let mut r = String::from_str("(");
            r.append(name);
            r.append(")(即位|踐祚|繼位|即皇帝位)");
            r
        },
        Family::Battle => {
            let mut r = String::from_str("(");
            r.append(name);
            r.append(")(攻|伐|討|克|陷|寇|圍|襲)([^，。於于以]{2,8})");
            r
        },
        Family::Death => {
            let mut r = String::from_str("(?:");
            r.append(build_title_regex().as_str());
            r.append(")?(");
            r.append(name);
            r.append(")(薨|卒|崩)");
            r
        },
    }
}

impl EventScanner {
    #[verifier::type_invariant]
    spec fn wf(self) -> bool {
        &&& regex_source(self.re_time) == time_pattern()
        &&& regex_source(self.re_month_day) == MONTH_DAY_PATTERN@
        &&& regex_source(self.re_appointment) == family_pattern(Family::Appointment, self.name_re@)
        &&& regex_source(self.re_promotion) == family_pattern(Family::Promotion, self.name_re@)
        &&& regex_source(self.re_accession) == family_pattern(Family::Accession, self.name_re@)
        &&& regex_source(self.re_battle) == family_pattern(Family::Battle, self.name_re@)
        &&& regex_source(self.re_death) == family_pattern(Family::Death, self.name_re@)
        &&& regex_source(self.re_place_title) == PLACE_TITLE_PATTERN@
    }

    /// The fragment with which this scanner matches a personal name.
    pub closed spec fn name_fragment(&self) -> Seq<char> {
        self.name_re@
    }

    /// Compiles the patterns. The name fragment knows the surname tables
    /// and the surnames of the given subjects. Fails exactly if one of the
    /// patterns does not compile.
    pub fn new(known_persons: &[Person]) -> (r: Result<EventScanner, PatternError>)
        ensures
            r is Ok <==> event_patterns_compile(
                name_regex(known_surnames(person_views(known_persons@), known_persons@.len())),
            ),
            r is Ok ==> r->Ok_0.name_fragment() == name_regex(
                known_surnames(person_views(known_persons@), known_persons@.len()),
            ),
    {
        let extra = collect_extra_surnames(known_persons);
        assert(texts(extra@) =~= extra.deep_view());
        let name_re = build_name_regex(extra.as_slice());
        let mut time_source = String::from_str("(");
        time_source.append(build_era_regex().as_str());
        time_source.append(YEAR_TAIL);
        let re_time = match build(time_source.as_str()) {
            Ok(re) => re,
            Err(e) => {
                return Err(e);
            },
        };
        let re_month_day = match build(MONTH_DAY_PATTERN) {
            Ok(re) => re,
            Err(e) => {
                return Err(e);
            },
        };
        let re_appointment = match build(family_source(Family::Appointment, name_re.as_str()).as_str()) {
            Ok(re) => re,
            Err(e) => {
                return Err(e);
            },
        };
        let re_battle = match build(family_source(Family::Battle, name_re.as_str()).as_str()) {
            Ok(re) => re,
            Err(e) => {
                return Err(e);
            },
        };
        let re_death = match build(family_source(Family::Death, name_re.as_str()).as_str()) {
            Ok(re) => re,
            Err(e) => {
                return Err(e);
            },
        };
        let re_promotion = match build(family_source(Family::Promotion, name_re.as_str()).as_str()) {
            Ok(re) => re,
            Err(e) => {
                return Err(e);
            },
        };
        let re_accession = match build(family_source(Family::Accession, name_re.as_str()).as_str()) {
            Ok(re) => re,
            Err(e) => {
                return Err(e);
            },
        };
        let re_place_title = match build(PLACE_TITLE_PATTERN) {
            Ok(re) => re,
            Err(e) => {
                return Err(e);
            },
        };
        Ok(
            EventScanner {
                name_re,
                re_time,
                re_month_day,
                re_appointment,
                re_promotion,
                re_accession,
                re_battle,
                re_death,
                re_place_title,
            },
        )
    }

    /// The nearest time reference before a byte offset.
    pub fn find_time_context(times: &[(usize, TimeRef)], event_offset: usize) -> (r: Option<TimeRef>)
        ensures
            r.deep_view() == time_before(time_views(times@), event_offset, times@.len()),
    {
        let mut n: usize = times.len();
        let ghost tv = time_views(times@);
        while n > 0
            invariant
                n <= times.len(),
                tv == time_views(times@),
                time_before(tv, event_offset, times@.len()) == time_before(tv, event_offset, n as nat),
            decreases n,
        {
            if times[n - 1].0 < event_offset {
                return Some(times[n - 1].1.clone());
            }
            n -= 1;
        }
        None
    }

    /// Builds the scope of each time reference.
    pub fn build_time_scopes(times: &[(usize, TimeRef)], content_len: usize, source_file: &str) -> (scopes:
        Vec<TimeScope>)
        ensures
            scopes.deep_view() == scopes_of(time_views(times@), content_len, source_file@),
    {
        let mut scopes: Vec<TimeScope> = Vec::new();
        let ghost tv = time_views(times@);
        let mut i: usize = 0;
        while i < times.len()
            invariant
                i <= times.len(),
                tv == time_views(times@),
                scopes@.len() == i,
                forall|j: int|
                    0 <= j < i ==> (#[trigger] scopes@[j])@ == scopes_of(tv, content_len, source_file@)[j],
            decreases times.len() - i,
        {
            let end: usize = if i + 1 < times.len() { times[i + 1].0 } else { content_len };
            let scope = TimeScope {
                time: times[i].1.clone(),
                span: TextSpan { file: String::from_str(source_file), byte_start: times[i].0, byte_end: end },
            };
            scopes.push(scope);
            i += 1;
        }
        scopes
    }

    /// The place that the target of a campaign names, if it names one.
    pub fn detect_place_target(target: &str) -> (r: Option<PlaceRef>)
        ensures
            r.deep_view() == target_place(target@),
    {
        let v = chars_of(target);
        if v.len() > 0 && in_charset(GEO_SUFFIXES, v[v.len() - 1]) {
            Some(PlaceRef { name: String::from_str(target), is_qiao: is_qiao(&v), role_suffix: None })
        } else {
            None
        }
    }

    /// Every time reference of a text, in the order of the text.
    pub fn extract_times(&self, content: &str, book: Book) -> (times: Vec<(usize, TimeRef)>)
        ensures
            times.deep_view() == file_times(content@, book),
            time_views(times@) == file_times(content@, book),
            times_in_order(file_times(content@, book), utf8_len(content@) as int),
            times_within(file_times(content@, book), content@),
            forall|k: int| 0 <= k < times.len() ==> 1 <= (#[trigger] times@[k]).1.year <= 99,
    {
        proof {
            use_type_invariant(self);
        }
        let ms = all_captures(&self.re_time, content);
        let ghost mv = ms.deep_view();
        let mut times: Vec<(usize, TimeRef)> = Vec::new();
        let mut i: usize = 0;
        assert(times.deep_view() =~= times_of(mv, content@, book, 0));
        while i < ms.len()
            invariant
                i <= ms.len(),
                mv == ms.deep_view(),
                matches_within(mv, content@),
                regex_source(self.re_month_day) == MONTH_DAY_PATTERN@,
                times.deep_view() == times_of(mv, content@, book, i as nat),
            decreases ms.len() - i,
        {
            let g = &ms[i];
            assert(mv[i as int] == g.deep_view());
            assert(groups_within(mv[i as int], content@));
            let md: Option<Groups> = if g.len() > 0 {
                match &g[0] {
                    Some(full) => {
                        assert(capture_within(g.deep_view()[0]->0, content@));
                        let (_, after) = content.split_at(full.end);
                        proof {
                            encode_utf8_decode_utf8(after@);
                            assert(after@ == suffix_from_byte(content@, full.end as int));
                        }
                        first_captures(&self.re_month_day, after)
                    },
                    None => None,
                }
            } else {
                None
            };
            assert(md.deep_view() == month_day_after(mv[i as int], content@));
            match time_from_match(g, &md, book) {
                Some(t) => {
                    let ghost before = times.deep_view();
                    let offset = t.byte_offset;
                    let ghost tv = t@;
                    times.push((offset, t));
                    assert(times.deep_view() =~= before.push((offset, tv)));
                },
                None => {},
            }
            i += 1;
        }
        proof {
            lemma_times_in_order(mv, content@, book, mv.len());
            lemma_times_within(mv, content@, book, mv.len());
            lemma_times_have_years(mv, content@, book, mv.len());
            assert(time_views(times@) =~= times.deep_view());
            assert forall|k: int| 0 <= k < times.len() implies 1 <= (#[trigger] times@[k]).1.year
                <= 99 by {
                assert(times.deep_view()[k].1.year == times@[k].1.year);
            }
        }
        times
    }

    /// The place that a title names, if it names one.
    pub fn extract_place_from_title(&self, title: &str) -> (r: Option<PlaceRef>)
        ensures
            r.deep_view() == place_in_title(title@),
    {
        proof {
            use_type_invariant(self);
        }
        let m = first_captures(&self.re_place_title, title);
        place_of_title(&m, title)
    }

    /// The places that a context window names.
    pub fn extract_places_from_context(&self, context: &str) -> (r: Vec<PlaceRef>)
        ensures
            r.deep_view() == places_in_context(context@),
    {
        proof {
            use_type_invariant(self);
        }
        let ms = all_captures(&self.re_place_title, context);
        places_of_context(&ms)
    }

    /// What one match of a family's pattern says happened.
    pub fn kind_from_match(&self, f: Family, g: &Groups) -> (r: Option<EventKind>)
        ensures
            r.deep_view() == kind_of_match(f, g.deep_view()),
    {
        match f {
            Family::Appointment => {
                match (group_string(g, 1), group_string(g, 2)) {
                    (Some(person), Some(title)) => {
                        if person.as_str().unicode_len() == 0 || is_false_positive(person.as_str()) {
                            return None;
                        }
                        let place = self.extract_place_from_title(title.as_str());
                        Some(
                            EventKind::Appointment {
                                person,
                                new_title: trim_string(title.as_str()),
                                place,
                            },
                        )
                    },
                    _ => None,
                }
            },
            Family::Promotion => {
                match (group_string(g, 1), group_string(g, 2), group_string(g, 3)) {
                    (Some(verb), Some(person), Some(title)) => {
                        if person.as_str().unicode_len() == 0 || is_false_positive(person.as_str()) {
                            return None;
                        }
                        let place = self.extract_place_from_title(title.as_str());
                        Some(
                            EventKind::Promotion {
                                person,
                                verb,
                                new_title: trim_string(title.as_str()),
                                place,
                            },
                        )
                    },
                    _ => None,
                }
            },
            Family::Accession => {
                match (group_string(g, 1), group_string(g, 2)) {
                    (Some(person), Some(verb)) => {
                        if person.as_str().unicode_len() == 0 || is_false_positive(person.as_str()) {
                            return None;
                        }
                        Some(EventKind::Accession { person, verb })
                    },
                    _ => None,
                }
            },
            Family::Battle => {
                match (group_string(g, 1), group_string(g, 2), group_string(g, 3)) {
                    (Some(person), Some(verb), Some(target)) => {
                        if person.as_str().unicode_len() == 0 || is_false_positive(person.as_str()) {
                            return None;
                        }
                        let target_place = Self::detect_place_target(target.as_str());
                        Some(EventKind::Battle { person, verb, target, target_place })
                    },
                    _ => None,
                }
            },
            Family::Death => {
                match (group_string(g, 1), group_string(g, 2)) {
                    (Some(person), Some(verb)) => {
                        if person.as_str().unicode_len() == 0 || is_false_positive(person.as_str()) {
                            return None;
                        }
                        Some(EventKind::Death { person, verb })
                    },
                    _ => None,
                }
            },
        }
    }

    /// The event that one match of a family's pattern yields.
    pub fn event_from_match(
        &self,
        f: Family,
        g: &Groups,
        content: &str,
        times: &[(usize, TimeRef)],
        source_file: &str,
    ) -> (r: Option<Event>)
        ensures
            r.deep_view() == event_of_match(
                f,
                g.deep_view(),
                content@,
                time_views(times@),
                source_file@,
            ),
    {
        if g.len() == 0 {
            return None;
        }
        let offset = match &g[0] {
            Some(full) => {
                if full.start >= full.end {
                    return None;
                }
                full.start
            },
            None => {
                return None;
            },
        };
        let kind = match self.kind_from_match(f, g) {
            Some(k) => k,
            None => {
                return None;
            },
        };
        let time = Self::find_time_context(times, offset);
        let context = extract_context(content, offset, CONTEXT_RADIUS);
        let locations = self.extract_places_from_context(context.as_str());
        Some(
            Event {
                kind,
                time,
                source_file: String::from_str(source_file),
                byte_offset: offset,
                context,
                locations,
            },
        )
    }

    /// Appends to `events` the events of the given matches of a family's
    /// pattern.
    pub fn events_from_matches(
        &self,
        f: Family,
        ms: &Vec<Groups>,
        content: &str,
        times: &[(usize, TimeRef)],
        source_file: &str,
        events: &mut Vec<Event>,
    )
        ensures
            final(events).deep_view() == old(events).deep_view() + events_of(
                f,
                ms.deep_view(),
                content@,
                time_views(times@),
                source_file@,
                ms.len() as nat,
            ),
    {
        let ghost start = events.deep_view();
        let ghost mv = ms.deep_view();
        let ghost tv = time_views(times@);
        let mut i: usize = 0;
        while i < ms.len()
            invariant
                i <= ms.len(),
                mv == ms.deep_view(),
                tv == time_views(times@),
                events.deep_view() == start + events_of(f, mv, content@, tv, source_file@, i as nat),
            decreases ms.len() - i,
        {
            match self.event_from_match(f, &ms[i], content, times, source_file) {
                Some(e) => {
                    let ghost before = events.deep_view();
                    let ghost ev = e@;
                    events.push(e);
                    assert(events.deep_view() =~= before.push(ev));
                },
                None => {},
            }
            i += 1;
        }
    }

    fn family_regex(&self, f: Family) -> (r: &regex::Regex)
        ensures
            regex_source(*r) == family_pattern(f, self.name_fragment()),
    {
        proof {
            use_type_invariant(self);
        }
        match f {
            Family::Appointment => &self.re_appointment,
            Family::Promotion => &self.re_promotion,
            Family::Accession => &self.re_accession,
            Family::Battle => &self.re_battle,
            Family::Death => &self.re_death,
        }
    }

    fn scan_family(
        &self,
        f: Family,
        content: &str,
        times: &[(usize, TimeRef)],
        source_file: &str,
        events: &mut Vec<Event>,
    )
        ensures
            final(events).deep_view() == old(events).deep_view() + family_events(
                f,
                self.name_fragment(),
                content@,
                time_views(times@),
                source_file@,
            ),
            forall|k: int|
                0 <= k < family_events(
                    f,
                    self.name_fragment(),
                    content@,
                    time_views(times@),
                    source_file@,
                ).len() ==> offset_within(
                    content@,
                    (#[trigger] family_events(
                        f,
                        self.name_fragment(),
                        content@,
                        time_views(times@),
                        source_file@,
                    )[k]).byte_offset,
                ),
    {
        let ms = all_captures(self.family_regex(f), content);
        proof {
            lemma_events_in_bounds(
                f,
                ms.deep_view(),
                content@,
                time_views(times@),
                source_file@,
                ms.deep_view().len(),
            );
        }
        self.events_from_matches(f, &ms, content, times, source_file, events);
    }

    /// Scans one file for events and time scopes.
    ///
    /// The scopes tile the file from its first time reference to its end;
    /// every event stands at a character boundary inside the file, names
    /// an admissible person and carries the nearest time reference that
    /// precedes it.
    pub fn scan_file(&self, content: &str, book: Book, source_file: &str) -> (r: (
        Vec<Event>,
        Vec<TimeScope>,
    ))
        ensures
            r.0.deep_view() == file_events(self.name_fragment(), content@, book, source_file@),
            r.1.deep_view() == scopes_of(
                file_times(content@, book),
                utf8_len(content@) as usize,
                source_file@,
            ),
            times_in_order(file_times(content@, book), utf8_len(content@) as int),
            times_within(file_times(content@, book), content@),
            tiles(r.1.deep_view(), utf8_len(content@) as usize),
            forall|k: int|
                0 <= k < r.0.len() ==> {
                    let e = #[trigger] r.0.deep_view()[k];
                    &&& well_attributed(e, file_times(content@, book))
                    &&& admissible(crate::event::person_of(e.kind))
                    &&& e.source_file == source_file@
                    &&& offset_within(content@, e.byte_offset)
                },
    {
        let mut events: Vec<Event> = Vec::new();
        let times = self.extract_times(content, book);
        let scopes = Self::build_time_scopes(times.as_slice(), byte_len(content), source_file);
        let ghost name = self.name_fragment();
        let ghost tv = file_times(content@, book);
        self.scan_family(Family::Appointment, content, times.as_slice(), source_file, &mut events);
        self.scan_family(Family::Promotion, content, times.as_slice(), source_file, &mut events);
        self.scan_family(Family::Accession, content, times.as_slice(), source_file, &mut events);
        self.scan_family(Family::Battle, content, times.as_slice(), source_file, &mut events);
        self.scan_family(Family::Death, content, times.as_slice(), source_file, &mut events);
        proof {
            assert(events.deep_view() =~= file_events(name, content@, book, source_file@));
            lemma_scopes_tile(tv, utf8_len(content@) as usize, source_file@);
            lemma_family_attributed(Family::Appointment, name, content@, tv, source_file@);
            lemma_family_attributed(Family::Promotion, name, content@, tv, source_file@);
            lemma_family_attributed(Family::Accession, name, content@, tv, source_file@);
            lemma_family_attributed(Family::Battle, name, content@, tv, source_file@);
            lemma_family_attributed(Family::Death, name, content@, tv, source_file@);
        }
        (events, scopes)
    }
}

proof fn lemma_family_attributed(
    f: Family,
    name: Seq<char>,
    content: Seq<char>,
    times: Seq<(usize, TimeRefView)>,
    file: Seq<char>,
)
    requires
        times_in_order(times, utf8_len(content) as int),
    ensures
        forall|k: int|
            0 <= k < family_events(f, name, content, times, file).len() ==> {
                let e = #[trigger] family_events(f, name, content, times, file)[k];
                &&& well_attributed(e, times)
                &&& admissible(crate::event::person_of(e.kind))
                &&& e.source_file == file
            },
{
    let ms = regex_captures_iter(family_pattern(f, name), content);
    lemma_events_attributed(f, ms, content, times, file, ms.len());
}

} // verus!
