//! The events of one person in chronological order, with the text around
//! each, and suggestions for a name that no event bears.

use crate::event::{
    person_of, structured_place, Event, EventKind, EventKindView, EventView, PlaceRef, PlaceRefView,
};
use crate::order::{arrange, stable_order, stable_perm};
use crate::query::ad_year;
use crate::regime::exact_ad_year;
use crate::stats::{time_string, time_text};
use crate::tally::first_n;
use crate::text::{
    boundary, boundary_from, chars_of, clip, contains_char, str_eq, string_of, utf8_len,
};
use vstd::prelude::*;
use vstd::string::*;

verus! {

/// Bytes of text shown before the offset of an event.
pub const SNIPPET_BEFORE: usize = 80;

/// Bytes of text shown after the offset of an event.
pub const SNIPPET_AFTER: usize = 160;

/// Number of names suggested at most.
pub const SUGGESTIONS: usize = 8;

/// The last character position that lies at or before the byte offset.
pub open spec fn boundary_before(s: Seq<char>, byte: nat) -> nat {
    let k = boundary_from(s, byte, 0);
    if utf8_len(s.take(k as int)) > byte && k > 0 {
        (k - 1) as nat
    } else {
        k
    }
}

/// The text around a byte offset: from `before` bytes before it to
/// `after` bytes after it, widened to whole characters and clipped to the
/// text.
pub open spec fn snippet_of(content: Seq<char>, byte_offset: nat, before: nat, after: nat) -> Seq<
    char,
> {
    let len = utf8_len(content);
    let mid = if byte_offset < len {
        byte_offset
    } else {
        len
    };
    let lo = if mid >= before {
        (mid - before) as nat
    } else {
        0
    };
    let hi = if mid + after < len {
        mid + after
    } else {
        len
    };
    clip(content, boundary_before(content, lo) as int, boundary_from(content, hi, 0) as int)
}

/// The text of `content` around a byte offset, on character boundaries.
pub fn snippet(content: &str, byte_offset: usize, before: usize, after: usize) -> (r: String)
    ensures
        r@ == snippet_of(content@, byte_offset as nat, before as nat, after as nat),
{
    let v = chars_of(content);
    let len = crate::text::byte_len(content);
    let mid: usize = if byte_offset < len { byte_offset } else { len };
    let lo: usize = if mid >= before { mid - before } else { 0 };
    let hi: u128 = if mid as u128 + (after as u128) < len as u128 {
        mid as u128 + after as u128
    } else {
        len as u128
    };
    let (first, at) = boundary(&v, lo as u128);
    let start: usize = if at > lo as u128 && first > 0 { first - 1 } else { first };
    let (end, _) = boundary(&v, hi);
    string_of(&v, start, end)
}

/// How many of the first `k` characters of `name` occur in `query`.
pub open spec fn shared_chars(name: Seq<char>, query: Seq<char>, k: nat) -> nat
    decreases k,
{
    if k == 0 || k > name.len() {
        0
    } else {
        shared_chars(name, query, (k - 1) as nat) + if query.contains(name[k - 1]) {
            1nat
        } else {
            0nat
        }
    }
}

/// How many characters of `name` occur in `query`.
pub open spec fn similarity(name: Seq<char>, query: Seq<char>) -> nat {
    shared_chars(name, query, name.len())
}

/// Those of the first `n` names that share a character with the query.
pub open spec fn candidates(names: Seq<Seq<char>>, query: Seq<char>, n: nat) -> Seq<Seq<char>>
    decreases n,
{
    if n == 0 || n > names.len() {
        Seq::empty()
    } else {
        let r = candidates(names, query, (n - 1) as nat);
        if similarity(names[n - 1], query) > 0 {
            r.push(names[n - 1])
        } else {
            r
        }
    }
}

/// The keys that put the names that share more characters first.
pub open spec fn similarity_keys(names: Seq<Seq<char>>, query: Seq<char>) -> Seq<u64> {
    Seq::new(names.len(), |i: int| (u64::MAX - similarity(names[i], query) as u64) as u64)
}

/// The first `n` items without those that repeat the item before them.
pub open spec fn without_repeats(items: Seq<Seq<char>>, n: nat) -> Seq<Seq<char>>
    decreases n,
{
    if n == 0 || n > items.len() {
        Seq::empty()
    } else {
        let r = without_repeats(items, (n - 1) as nat);
        if n >= 2 && items[n - 1] == items[n - 2] {
            r
        } else {
            r.push(items[n - 1])
        }
    }
}

/// The names to suggest for a query: those that share a character with
/// it, the more characters the earlier, no name twice in a row, eight at
/// most.
pub open spec fn suggestions(names: Seq<Seq<char>>, query: Seq<char>) -> Seq<Seq<char>> {
    let c = candidates(names, query, names.len());
    let sorted = arrange(c, stable_perm(similarity_keys(c, query)));
    first_n(without_repeats(sorted, sorted.len()), SUGGESTIONS as nat)
}

/// The character sequences of the names.
pub open spec fn name_views(names: Seq<&str>) -> Seq<Seq<char>> {
    Seq::new(names.len(), |i: int| names[i]@)
}

/// How many characters of `candidate` occur in `query`.
pub fn shared_characters(candidate: &str, query: &str) -> (n: usize)
    ensures
        n == similarity(candidate@, query@),
{
    let c = chars_of(candidate);
    let q = chars_of(query);
    let mut n: usize = 0;
    let mut k: usize = 0;
    while k < c.len()
        invariant
            k <= c.len(),
            n <= k,
            n == shared_chars(c@, q@, k as nat),
        decreases c.len() - k,
    {
        if contains_char(&q, c[k]) {
            n += 1;
        }
        k += 1;
    }
    n
}

/// The names that resemble `query` most, for a query that no event answers.
pub fn suggest_names<'a>(all_names: &[&'a str], query: &str) -> (r: Vec<&'a str>)
    ensures
        r.deep_view() == suggestions(name_views(all_names@), query@),
{
    let ghost nv = name_views(all_names@);
    let mut found: Vec<&'a str> = Vec::new();
    let mut keys: Vec<u64> = Vec::new();
    let mut i: usize = 0;
    while i < all_names.len()
        invariant
            i <= all_names.len(),
            nv == name_views(all_names@),
            found.deep_view() == candidates(nv, query@, i as nat),
            keys@.len() == found@.len(),
            forall|j: int|
                0 <= j < keys@.len() ==> keys@[j] == (u64::MAX - similarity(found@[j]@, query@) as u64) as u64,
        decreases all_names.len() - i,
    {
        let score = shared_characters(all_names[i], query);
        if score > 0 {
            found.push(all_names[i]);
            keys.push(u64::MAX - score as u64);
        }
        i += 1;
    }
    let ghost c = found.deep_view();
    assert(keys@ =~= similarity_keys(c, query@));
    let perm = stable_order(&keys);
    let ghost sorted = arrange(c, perm@);
    let mut r: Vec<&'a str> = Vec::new();
    let mut last: Option<&'a str> = None;
    let mut i: usize = 0;
    while i < perm.len() && r.len() < SUGGESTIONS
        invariant
            i <= perm.len(),
            perm@.len() == found@.len(),
            c == found.deep_view(),
            sorted == arrange(c, perm@),
            forall|j: int| 0 <= j < perm@.len() ==> (#[trigger] perm@[j]) < found@.len(),
            r.deep_view() == without_repeats(sorted, i as nat),
            r@.len() <= SUGGESTIONS,
            i == 0 ==> last is None,
            i > 0 ==> last is Some && last->0@ == sorted[i - 1],
        decreases perm.len() - i,
    {
        let name = found[perm[i]];
        let repeat = match last {
            Some(l) => str_eq(l, name),
            None => false,
        };
        if !repeat {
            r.push(name);
        }
        last = Some(name);
        i += 1;
    }
    proof {
        lemma_without_repeats_grows(sorted, i as nat, sorted.len());
    }
    r
}

proof fn lemma_without_repeats_grows(items: Seq<Seq<char>>, a: nat, b: nat)
    requires
        a <= b <= items.len(),
    ensures
        without_repeats(items, a).len() <= without_repeats(items, b).len(),
        without_repeats(items, b).take(without_repeats(items, a).len() as int) =~= without_repeats(
            items,
            a,
        ),
    decreases b - a,
{
    if a < b {
        lemma_without_repeats_grows(items, a, (b - 1) as nat);
    }
}

/// The year AD by which the events of a person are ordered: events whose
/// year is not known come last.
pub open spec fn timeline_key(e: EventView) -> u16 {
    match e.time {
        Some(t) => match ad_year(t) {
            Some(y) => y,
            None => u16::MAX,
        },
        None => u16::MAX,
    }
}

/// Those of the first `n` events that are about the person `name`.
pub open spec fn events_about(events: Seq<EventView>, name: Seq<char>, n: nat) -> Seq<EventView>
    decreases n,
{
    if n == 0 || n > events.len() {
        Seq::empty()
    } else {
        let r = events_about(events, name, (n - 1) as nat);
        if person_of(events[n - 1].kind) == name {
            r.push(events[n - 1])
        } else {
            r
        }
    }
}

/// The keys of the events of a person.
pub open spec fn timeline_keys(events: Seq<EventView>) -> Seq<u64> {
    Seq::new(events.len(), |i: int| timeline_key(events[i]) as u64)
}

/// The events of a person in chronological order, those without a known
/// year last; events of one year keep their order.
pub open spec fn person_timeline(events: Seq<EventView>, name: Seq<char>) -> Seq<EventView> {
    let own = events_about(events, name, events.len());
    arrange(own, stable_perm(timeline_keys(own)))
}

/// The year AD of an event, where it is known.
pub fn event_ad_year(e: &Event) -> (r: Option<u16>)
    ensures
        r == match e@.time {
            Some(t) => ad_year(t),
            None => None,
        },
{
    match &e.time {
        Some(t) => exact_ad_year(t.regime.as_str(), t.era.as_str(), t.year),
        None => None,
    }
}

/// The events of a person, named exactly, in chronological order.
pub fn person_events<'a>(all_events: &'a Vec<Event>, name: &str) -> (r: Vec<&'a Event>)
    ensures
        r.deep_view() == person_timeline(all_events.deep_view(), name@),
{
    let ghost ev = all_events.deep_view();
    let mut own: Vec<&'a Event> = Vec::new();
    let mut keys: Vec<u64> = Vec::new();
    let mut i: usize = 0;
    while i < all_events.len()
        invariant
            i <= all_events.len(),
            ev == all_events.deep_view(),
            own.deep_view() == events_about(ev, name@, i as nat),
            keys@.len() == own@.len(),
            forall|j: int| 0 <= j < keys@.len() ==> keys@[j] == timeline_key(own@[j]@) as u64,
        decreases all_events.len() - i,
    {
        let e = &all_events[i];
        if str_eq(e.person_name(), name) {
            own.push(e);
            let k: u16 = match event_ad_year(e) {
                Some(y) => y,
                None => u16::MAX,
            };
            keys.push(k as u64);
        }
        i += 1;
    }
    let ghost ov = own.deep_view();
    assert(keys@ =~= timeline_keys(ov));
    let perm = stable_order(&keys);
    let mut r: Vec<&'a Event> = Vec::new();
    let mut i: usize = 0;
    while i < perm.len()
        invariant
            i <= perm.len(),
            perm@.len() == own@.len(),
            forall|j: int| 0 <= j < perm@.len() ==> (#[trigger] perm@[j]) < own@.len(),
            r@.len() == i,
            forall|j: int| 0 <= j < i ==> (#[trigger] r@[j])@ == own@[perm@[j] as int]@,
        decreases perm.len() - i,
    {
        r.push(own[perm[i]]);
        i += 1;
    }
    r
}

/// One event of a person as it is shown.
#[derive(Debug)]
pub struct PersonEntry {
    pub ad_year: Option<u16>,
    pub time: Option<String>,
    pub kind: String,
    pub detail: String,
    pub location: Option<String>,
    pub source: String,
    pub snippet: String,
}

pub struct PersonEntryView {
    pub ad_year: Option<u16>,
    pub time: Option<Seq<char>>,
    pub kind: Seq<char>,
    pub detail: Seq<char>,
    pub location: Option<Seq<char>>,
    pub source: Seq<char>,
    pub snippet: Seq<char>,
}

impl View for PersonEntry {
    type V = PersonEntryView;

    open spec fn view(&self) -> PersonEntryView {
        PersonEntryView {
            ad_year: self.ad_year,
            time: self.time.deep_view(),
            kind: self.kind@,
            detail: self.detail@,
            location: self.location.deep_view(),
            source: self.source@,
            snippet: self.snippet@,
        }
    }
}

impl DeepView for PersonEntry {
    type V = PersonEntryView;

    open spec fn deep_view(&self) -> PersonEntryView {
        self@
    }
}

/// The mark of a place in the detail of an event; a displaced
/// administration is marked 僑 where `mark_qiao` asks for it.
pub open spec fn place_mark(p: Option<PlaceRefView>, mark_qiao: bool) -> Seq<char> {
    match p {
        Some(x) => if mark_qiao && x.is_qiao {
            " @"@ + x.name + "(僑)"@
        } else {
            " @"@ + x.name
        },
        None => Seq::empty(),
    }
}

/// The label under which a kind of event is shown in a person's timeline.
pub open spec fn entry_kind(k: EventKindView) -> Seq<char> {
    match k {
        EventKindView::Appointment { .. } => "任命"@,
        EventKindView::Promotion { .. } => "遷轉"@,
        EventKindView::Accession { .. } => "即位"@,
        EventKindView::Battle { .. } => "戰事"@,
        EventKindView::Death { .. } => "死亡"@,
    }
}

/// What an event says, in short.
pub open spec fn entry_detail(k: EventKindView) -> Seq<char> {
    match k {
        EventKindView::Appointment { new_title, place, .. } => "→"@ + new_title + place_mark(
            place,
            true,
        ),
        EventKindView::Promotion { verb, new_title, place, .. } => verb + "→"@ + new_title
            + place_mark(place, true),
        EventKindView::Accession { verb, .. } => verb,
        EventKindView::Battle { verb, target, target_place, .. } => verb + target + place_mark(
            target_place,
            false,
        ),
        EventKindView::Death { verb, .. } => verb,
    }
}

/// The place of an entry: the place that the event itself names, else the
/// first place of its context.
pub open spec fn entry_location(e: EventView) -> Option<Seq<char>> {
    match structured_place(e.kind) {
        Some(p) => Some(p.name),
        None => if e.locations.len() > 0 {
            Some(e.locations[0].name)
        } else {
            None
        },
    }
}

/// An event as it is shown in a person's timeline. `content` is the text
/// of the file of the event; where it is empty, the context of the event
/// stands for the snippet.
pub open spec fn entry_of_event(e: EventView, content: Seq<char>) -> PersonEntryView {
    PersonEntryView {
        ad_year: match e.time {
            Some(t) => ad_year(t),
            None => None,
        },
        time: match e.time {
            Some(t) => Some(time_text(t)),
            None => None,
        },
        kind: entry_kind(e.kind),
        detail: entry_detail(e.kind),
        location: entry_location(e),
        source: e.source_file,
        snippet: if content.len() == 0 {
            e.context
        } else {
            snippet_of(content, e.byte_offset as nat, SNIPPET_BEFORE as nat, SNIPPET_AFTER as nat)
        },
    }
}

fn mark_place(p: &Option<PlaceRef>, mark_qiao: bool) -> (s: String)
    ensures
        s@ == place_mark(p.deep_view(), mark_qiao),
{
    match p {
        Some(x) => {
            let mut s = String::from_str(" @");
            s.append(x.name.as_str());
            if mark_qiao && x.is_qiao {
                s.append("(僑)");
            }
            s
        },
        None => String::new(),
    }
}

/// Builds the entry of an event for a person's timeline.
pub fn person_entry(e: &Event, content: &str) -> (r: PersonEntry)
    ensures
        r@ == entry_of_event(e@, content@),
{
    let (kind, detail) = match &e.kind {
        EventKind::Appointment { new_title, place, .. } => {
            let mut d = String::from_str("→");
            d.append(new_title.as_str());
            d.append(mark_place(place, true).as_str());
            (String::from_str("任命"), d)
        },
        EventKind::Promotion { verb, new_title, place, .. } => {
            let mut d = verb.clone();
            d.append("→");
            d.append(new_title.as_str());
            d.append(mark_place(place, true).as_str());
            (String::from_str("遷轉"), d)
        },
        EventKind::Accession { verb, .. } => (String::from_str("即位"), verb.clone()),
        EventKind::Battle { verb, target, target_place, .. } => {
            let mut d = verb.clone();
            d.append(target.as_str());
            d.append(mark_place(target_place, false).as_str());
            (String::from_str("戰事"), d)
        },
        EventKind::Death { verb, .. } => (String::from_str("死亡"), verb.clone()),
    };
    let location = match e.place() {
        Some(p) => Some(p.name.clone()),
        None => {
            if e.locations.len() > 0 {
                Some(e.locations[0].name.clone())
            } else {
                None
            }
        },
    };
    let text = if content.unicode_len() == 0 {
        e.context.clone()
    } else {
        snippet(content, e.byte_offset, SNIPPET_BEFORE, SNIPPET_AFTER)
    };
    PersonEntry {
        ad_year: event_ad_year(e),
        time: match &e.time {
            Some(t) => Some(time_string(t)),
            None => None,
        },
        kind,
        detail,
        location,
        source: e.source_file.clone(),
        snippet: text,
    }
}

} // verus!
