//! What the commands show: the timeline by year AD, the events and the
//! text that answer a query.

use crate::event::{Event, EventView, TimeScope, TimeScopeView};
use crate::order::{arrange, stable_order, stable_perm, word_order, word_perm};
use crate::query::{query_matches, time_matches_query, TimeQuery, TimeQueryView};
use crate::regime::{ad_year_of, exact_ad_year};
use crate::stats::{decimal_string, decimal_text, time_string, time_text};
use crate::text::{byte_len, byte_slice, slice_bytes, trim_string, trimmed, utf8_len};
use crate::timeline::{
    EraTimelineView, RegimeTimeline, RegimeTimelineView, TimePoint, TimePointView, Timeline,
    TimelineView,
};
use crate::words::{distinct, distinct_words};
use vstd::prelude::*;
use vstd::string::*;

verus! {

/// One year of one era, with the year AD that it falls in.
#[derive(Debug)]
pub struct YearEntry {
    pub ad_year: u16,
    pub regime: String,
    pub era: String,
    pub year: u8,
    pub occurrences: usize,
}

pub struct YearEntryView {
    pub ad_year: u16,
    pub regime: Seq<char>,
    pub era: Seq<char>,
    pub year: u8,
    pub occurrences: usize,
}

impl View for YearEntry {
    type V = YearEntryView;

    open spec fn view(&self) -> YearEntryView {
        YearEntryView {
            ad_year: self.ad_year,
            regime: self.regime@,
            era: self.era@,
            year: self.year,
            occurrences: self.occurrences,
        }
    }
}

impl DeepView for YearEntry {
    type V = YearEntryView;

    open spec fn deep_view(&self) -> YearEntryView {
        self@
    }
}

impl Clone for YearEntry {
    fn clone(&self) -> (r: Self)
        ensures
            r@ == self@,
    {
        YearEntry {
            ad_year: self.ad_year,
            regime: self.regime.clone(),
            era: self.era.clone(),
            year: self.year,
            occurrences: self.occurrences,
        }
    }
}

/// The entries of the first `n` years of an era: one for each year whose
/// year AD the catalogue gives.
pub open spec fn era_entries(regime: Seq<char>, years: Seq<TimePointView>, n: nat) -> Seq<YearEntryView>
    decreases n,
{
    if n == 0 || n > years.len() {
        Seq::empty()
    } else {
        let r = era_entries(regime, years, (n - 1) as nat);
        let tp = years[n - 1];
        match ad_year_of(regime, tp.era, tp.year) {
            Some(ad) => r.push(
                YearEntryView {
                    ad_year: ad,
                    regime,
                    era: tp.era,
                    year: tp.year,
                    occurrences: tp.occurrence_count,
                },
            ),
            None => r,
        }
    }
}

/// The entries of the first `n` eras of a regime.
pub open spec fn regime_entries(regime: Seq<char>, eras: Seq<EraTimelineView>, n: nat) -> Seq<
    YearEntryView,
>
    decreases n,
{
    if n == 0 || n > eras.len() {
        Seq::empty()
    } else {
        regime_entries(regime, eras, (n - 1) as nat) + era_entries(
            regime,
            eras[n - 1].years,
            eras[n - 1].years.len(),
        )
    }
}

/// The entries of the first `n` regimes of a timeline.
pub open spec fn all_entries(regimes: Seq<RegimeTimelineView>, n: nat) -> Seq<YearEntryView>
    decreases n,
{
    if n == 0 || n > regimes.len() {
        Seq::empty()
    } else {
        all_entries(regimes, (n - 1) as nat) + regime_entries(
            regimes[n - 1].regime,
            regimes[n - 1].eras,
            regimes[n - 1].eras.len(),
        )
    }
}

/// The names of the regimes of the entries.
pub open spec fn entry_regimes(entries: Seq<YearEntryView>) -> Seq<Seq<char>> {
    Seq::new(entries.len(), |i: int| entries[i].regime)
}

/// The years AD of the entries.
pub open spec fn entry_years(entries: Seq<YearEntryView>) -> Seq<u64> {
    Seq::new(entries.len(), |i: int| entries[i].ad_year as u64)
}

/// The entries by year AD, within a year by the name of the regime;
/// entries alike in both keep their order.
pub open spec fn by_year(entries: Seq<YearEntryView>) -> Seq<YearEntryView> {
    let by_regime = arrange(entries, word_perm(entry_regimes(entries)));
    arrange(by_regime, stable_perm(entry_years(by_regime)))
}

/// The entries of a timeline, by year AD.
pub open spec fn year_entries_of(t: TimelineView) -> Seq<YearEntryView> {
    by_year(all_entries(t.regimes, t.regimes.len()))
}

/// `n` spaces.
pub open spec fn spaces(n: nat) -> Seq<char> {
    Seq::new(n, |i: int| ' ')
}

/// A text filled up with spaces on the left to `width` characters.
pub open spec fn pad_left(s: Seq<char>, width: nat) -> Seq<char> {
    if s.len() < width {
        spaces((width - s.len()) as nat) + s
    } else {
        s
    }
}

/// An entry as it is shown: regime, era, year, and the number of files.
pub open spec fn entry_label(e: YearEntryView) -> Seq<char> {
    e.regime + "/"@ + e.era + decimal_text(e.year as nat) + "年 ("@ + decimal_text(
        e.occurrences as nat,
    ) + ")"@
}

/// The lines that show the first `n` entries: one line for each year AD,
/// with the entries of that year side by side.
pub open spec fn year_lines(entries: Seq<YearEntryView>, n: nat) -> Seq<Seq<char>>
    decreases n,
{
    if n == 0 || n > entries.len() {
        Seq::empty()
    } else {
        let r = year_lines(entries, (n - 1) as nat);
        let e = entries[n - 1];
        if n >= 2 && entries[n - 2].ad_year == e.ad_year && r.len() > 0 {
            r.drop_last().push(r.last() + "  "@ + entry_label(e))
        } else {
            r.push("AD"@ + pad_left(decimal_text(e.ad_year as nat), 4) + "  "@ + entry_label(e))
        }
    }
}

fn entries_of_era(regime: &str, years: &Vec<TimePoint>, out: &mut Vec<YearEntry>)
    ensures
        final(out).deep_view() == old(out).deep_view() + era_entries(
            regime@,
            years.deep_view(),
            years.len() as nat,
        ),
{
    let ghost start = out.deep_view();
    let ghost yv = years.deep_view();
    let mut i: usize = 0;
    while i < years.len()
        invariant
            i <= years.len(),
            yv == years.deep_view(),
            out.deep_view() == start + era_entries(regime@, yv, i as nat),
        decreases years.len() - i,
    {
        let tp = &years[i];
        match exact_ad_year(regime, tp.era.as_str(), tp.year) {
            Some(ad) => {
                let ghost before = out.deep_view();
                let e = YearEntry {
                    ad_year: ad,
                    regime: String::from_str(regime),
                    era: tp.era.clone(),
                    year: tp.year,
                    occurrences: tp.occurrence_count,
                };
                let ghost ev = e@;
                out.push(e);
                assert(out.deep_view() =~= before.push(ev));
            },
            None => {},
        }
        i += 1;
    }
}

fn entries_of_regime(rt: &RegimeTimeline, out: &mut Vec<YearEntry>)
    ensures
        final(out).deep_view() == old(out).deep_view() + regime_entries(
            rt@.regime,
            rt@.eras,
            rt@.eras.len(),
        ),
{
    let ghost start = out.deep_view();
    let ghost ev = rt.eras.deep_view();
    let mut i: usize = 0;
    while i < rt.eras.len()
        invariant
            i <= rt.eras.len(),
            ev == rt.eras.deep_view(),
            out.deep_view() == start + regime_entries(rt@.regime, ev, i as nat),
        decreases rt.eras.len() - i,
    {
        entries_of_era(rt.regime.as_str(), &rt.eras[i].years, out);
        i += 1;
    }
}

/// The years of a timeline whose year AD the catalogue gives, by year AD
/// and, within a year, by the name of the regime.
pub fn year_entries(timeline: &Timeline) -> (r: Vec<YearEntry>)
    ensures
        r.deep_view() == year_entries_of(timeline@),
{
    let mut all: Vec<YearEntry> = Vec::new();
    let ghost rv = timeline.regimes.deep_view();
    let mut i: usize = 0;
    while i < timeline.regimes.len()
        invariant
            i <= timeline.regimes.len(),
            rv == timeline.regimes.deep_view(),
            all.deep_view() == all_entries(rv, i as nat),
        decreases timeline.regimes.len() - i,
    {
        entries_of_regime(&timeline.regimes[i], &mut all);
        i += 1;
    }
    let ghost av = all.deep_view();
    let mut regimes: Vec<String> = Vec::new();
    let mut i: usize = 0;
    while i < all.len()
        invariant
            i <= all.len(),
            regimes@.len() == i,
            forall|j: int| 0 <= j < i ==> regimes@[j]@ == all@[j].regime@,
        decreases all.len() - i,
    {
        regimes.push(all[i].regime.clone());
        i += 1;
    }
    assert(regimes.deep_view() =~= entry_regimes(av));
    let first = word_order(&regimes);
    let mut by_regime: Vec<YearEntry> = Vec::new();
    let mut keys: Vec<u64> = Vec::new();
    let mut i: usize = 0;
    while i < first.len()
        invariant
            i <= first.len(),
            first@.len() == all@.len(),
            forall|j: int| 0 <= j < first@.len() ==> (#[trigger] first@[j]) < all@.len(),
            by_regime@.len() == i,
            keys@.len() == i,
            forall|j: int| 0 <= j < i ==> (#[trigger] by_regime@[j])@ == all@[first@[j] as int]@,
            forall|j: int| 0 <= j < i ==> keys@[j] == all@[first@[j] as int].ad_year as u64,
        decreases first.len() - i,
    {
        by_regime.push(all[first[i]].clone());
        keys.push(all[first[i]].ad_year as u64);
        i += 1;
    }
    let ghost bv = by_regime.deep_view();
    assert(bv =~= arrange(av, first@));
    assert(keys@ =~= entry_years(bv));
    let second = stable_order(&keys);
    let mut r: Vec<YearEntry> = Vec::new();
    let mut i: usize = 0;
    while i < second.len()
        invariant
            i <= second.len(),
            second@.len() == by_regime@.len(),
            forall|j: int| 0 <= j < second@.len() ==> (#[trigger] second@[j]) < by_regime@.len(),
            r@.len() == i,
            forall|j: int| 0 <= j < i ==> (#[trigger] r@[j])@ == by_regime@[second@[j] as int]@,
        decreases second.len() - i,
    {
        r.push(by_regime[second[i]].clone());
        i += 1;
    }
    r
}

fn label_of(e: &YearEntry) -> (s: String)
    ensures
        s@ == entry_label(e@),
{
    let mut s = e.regime.clone();
    s.append("/");
    s.append(e.era.as_str());
    s.append(decimal_string(e.year as u64).as_str());
    s.append("年 (");
    s.append(decimal_string(e.occurrences as u64).as_str());
    s.append(")");
    s
}

fn padded(s: &str, width: usize) -> (r: String)
    ensures
        r@ == pad_left(s@, width as nat),
{
    let n = s.unicode_len();
    let mut r = String::new();
    if n < width {
        let mut k: usize = 0;
        while k < width - n
            invariant
                n < width,
                k <= width - n,
                r@ == spaces(k as nat),
            decreases width - n - k,
        {
            r.append(" ");
            proof {
                reveal_strlit(" ");
            }
            k += 1;
        }
    }
    r.append(s);
    r
}

/// The lines that show the entries: one line for each year AD.
pub fn timeline_lines(entries: &Vec<YearEntry>) -> (lines: Vec<String>)
    ensures
        lines.deep_view() == year_lines(entries.deep_view(), entries.len() as nat),
{
    let ghost ev = entries.deep_view();
    let mut lines: Vec<String> = Vec::new();
    let mut i: usize = 0;
    while i < entries.len()
        invariant
            i <= entries.len(),
            ev == entries.deep_view(),
            lines.deep_view() == year_lines(ev, i as nat),
        decreases entries.len() - i,
    {
        let e = &entries[i];
        if i >= 1 && entries[i - 1].ad_year == e.ad_year && lines.len() > 0 {
            let mut line = match lines.pop() {
                Some(l) => l,
                None => String::new(),
            };
            line.append("  ");
            line.append(label_of(e).as_str());
            lines.push(line);
        } else {
            let mut line = String::from_str("AD");
            line.append(padded(decimal_string(e.ad_year as u64).as_str(), 4).as_str());
            line.append("  ");
            line.append(label_of(e).as_str());
            lines.push(line);
        }
        i += 1;
    }
    lines
}

/// Those of the first `n` events whose time answers the query.
pub open spec fn matching_events(events: Seq<EventView>, q: TimeQueryView, n: nat) -> Seq<EventView>
    decreases n,
{
    if n == 0 || n > events.len() {
        Seq::empty()
    } else {
        let r = matching_events(events, q, (n - 1) as nat);
        let e = events[n - 1];
        if e.time is Some && query_matches(e.time->0, q) {
            r.push(e)
        } else {
            r
        }
    }
}

/// The events whose time answers a query, in order.
pub fn select_events<'a>(events: &'a Vec<Event>, q: &TimeQuery) -> (r: Vec<&'a Event>)
    ensures
        r.deep_view() == matching_events(events.deep_view(), q@, events.len() as nat),
{
    let ghost ev = events.deep_view();
    let mut r: Vec<&'a Event> = Vec::new();
    let mut i: usize = 0;
    while i < events.len()
        invariant
            i <= events.len(),
            ev == events.deep_view(),
            r.deep_view() == matching_events(ev, q@, i as nat),
        decreases events.len() - i,
    {
        let e = &events[i];
        let hit = match &e.time {
            Some(t) => time_matches_query(t, q),
            None => false,
        };
        if hit {
            r.push(e);
        }
        i += 1;
    }
    r
}

/// The eras of the scopes, in order.
pub open spec fn scope_era_names(scopes: Seq<TimeScopeView>) -> Seq<Seq<char>> {
    Seq::new(scopes.len(), |i: int| scopes[i].time.era)
}

/// The eras that the scopes mention, each once, in alphabetical order.
pub open spec fn available_eras_of(scopes: Seq<TimeScopeView>) -> Seq<Seq<char>> {
    let eras = distinct(scope_era_names(scopes));
    arrange(eras, word_perm(eras))
}

/// The eras that an index knows, for a query that nothing answers.
pub fn available_eras(scopes: &Vec<TimeScope>) -> (r: Vec<String>)
    ensures
        r.deep_view() == available_eras_of(scopes.deep_view()),
{
    let mut all: Vec<String> = Vec::new();
    let mut i: usize = 0;
    while i < scopes.len()
        invariant
            i <= scopes.len(),
            all@.len() == i,
            forall|j: int| 0 <= j < i ==> all@[j]@ == scopes@[j].time.era@,
        decreases scopes.len() - i,
    {
        all.push(scopes[i].time.era.clone());
        i += 1;
    }
    assert(all.deep_view() =~= scope_era_names(scopes.deep_view()));
    let eras = distinct_words(&all);
    let perm = word_order(&eras);
    let mut r: Vec<String> = Vec::new();
    let mut i: usize = 0;
    while i < perm.len()
        invariant
            i <= perm.len(),
            perm@.len() == eras@.len(),
            forall|j: int| 0 <= j < perm@.len() ==> (#[trigger] perm@[j]) < eras@.len(),
            r@.len() == i,
            forall|j: int| 0 <= j < i ==> r@[j]@ == eras@[perm@[j] as int]@,
        decreases perm.len() - i,
    {
        r.push(eras[perm[i]].clone());
        i += 1;
    }
    r
}

/// The files of the scopes, in order.
pub open spec fn scope_files_of(scopes: Seq<TimeScopeView>) -> Seq<Seq<char>> {
    Seq::new(scopes.len(), |i: int| scopes[i].span.file)
}

/// The files that the scopes lie in, each once, as they first occur.
pub fn files_of_scopes(scopes: &Vec<&TimeScope>) -> (r: Vec<String>)
    ensures
        r.deep_view() == distinct(scope_files_of(scopes.deep_view())),
{
    let mut all: Vec<String> = Vec::new();
    let mut i: usize = 0;
    while i < scopes.len()
        invariant
            i <= scopes.len(),
            all@.len() == i,
            forall|j: int| 0 <= j < i ==> all@[j]@ == scopes@[j].span.file@,
        decreases scopes.len() - i,
    {
        all.push(scopes[i].span.file.clone());
        i += 1;
    }
    assert(all.deep_view() =~= scope_files_of(scopes.deep_view()));
    distinct_words(&all)
}

/// The text of a scope: the text of its file between its two offsets, each
/// clipped to the length of the text, without surrounding whitespace; none
/// where the offsets do not delimit a text or the text is blank.
pub open spec fn scope_text_of(content: Seq<char>, s: TimeScopeView) -> Option<Seq<char>> {
    let len = utf8_len(content);
    let start = if s.span.byte_start < len {
        s.span.byte_start as nat
    } else {
        len
    };
    let end = if s.span.byte_end < len {
        s.span.byte_end as nat
    } else {
        len
    };
    match byte_slice(content, start, end) {
        Some(t) => if trimmed(t).len() > 0 {
            Some(trimmed(t))
        } else {
            None
        },
        None => None,
    }
}

/// The heading under which the text of a scope is shown.
pub open spec fn scope_heading_of(s: TimeScopeView) -> Seq<char> {
    "── ["@ + time_text(s.time) + "] "@ + s.span.file + " ──"@
}

/// The text that a scope governs, given the text of its file.
pub fn scope_text(content: &str, scope: &TimeScope) -> (r: Option<String>)
    ensures
        r.deep_view() == scope_text_of(content@, scope@),
{
    let len = byte_len(content);
    let start: usize = if scope.span.byte_start < len { scope.span.byte_start } else { len };
    let end: usize = if scope.span.byte_end < len { scope.span.byte_end } else { len };
    match slice_bytes(content, start, end) {
        Some(t) => {
            let trimmed_text = trim_string(t.as_str());
            if trimmed_text.as_str().unicode_len() > 0 {
                Some(trimmed_text)
            } else {
                None
            }
        },
        None => None,
    }
}

/// The heading of a scope: its time and its file.
pub fn scope_heading(scope: &TimeScope) -> (s: String)
    ensures
        s@ == scope_heading_of(scope@),
{
    let mut s = String::from_str("── [");
    s.append(time_string(&scope.time).as_str());
    s.append("] ");
    s.append(scope.span.file.as_str());
    s.append(" ──");
    s
}

} // verus!
