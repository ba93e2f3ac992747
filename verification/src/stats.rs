//! The scan of a whole corpus and the statistics of its events.

use crate::event::{
    Event, EventKind, EventKindView, EventView, TimeRef, TimeRefView, TimeScope, TimeScopeView,
};
use crate::scan::{file_events, file_times, scopes_of, EventScanner, Family};
use crate::scanner::{LoadedFile, LoadedFileView};
use crate::tally::{by_count, first_n, sort_by_count, tally, tally_words};
use crate::text::{push_char, utf8_len};
use crate::timeline::TimeIndex;
use crate::words::{distinct, distinct_words};
use vstd::prelude::*;
use vstd::string::*;

verus! {

/// The decimal digit of a number below ten.
pub open spec fn digit_of(d: nat) -> char {
    if d == 0 {
        '0'
    } else if d == 1 {
        '1'
    } else if d == 2 {
        '2'
    } else if d == 3 {
        '3'
    } else if d == 4 {
        '4'
    } else if d == 5 {
        '5'
    } else if d == 6 {
        '6'
    } else if d == 7 {
        '7'
    } else if d == 8 {
        '8'
    } else {
        '9'
    }
}

/// A number written in decimal digits.
pub open spec fn decimal_text(n: nat) -> Seq<char>
    decreases n,
{
    if n < 10 {
        seq![digit_of(n)]
    } else {
        decimal_text(n / 10).push(digit_of(n % 10))
    }
}

fn digit(d: u64) -> (c: char)
    requires
        d < 10,
    ensures
        c == digit_of(d as nat),
{
    if d == 0 {
        '0'
    } else if d == 1 {
        '1'
    } else if d == 2 {
        '2'
    } else if d == 3 {
        '3'
    } else if d == 4 {
        '4'
    } else if d == 5 {
        '5'
    } else if d == 6 {
        '6'
    } else if d == 7 {
        '7'
    } else if d == 8 {
        '8'
    } else {
        '9'
    }
}

/// Writes a number in decimal digits.
pub fn decimal_string(n: u64) -> (s: String)
    ensures
        s@ == decimal_text(n as nat),
    decreases n,
{
    if n < 10 {
        let mut s = String::new();
        push_char(&mut s, digit(n));
        s
    } else {
        let mut s = decimal_string(n / 10);
        push_char(&mut s, digit(n % 10));
        s
    }
}

/// A time as it is labelled: regime, era, year and 年.
pub open spec fn time_text(t: TimeRefView) -> Seq<char> {
    t.regime + "/"@ + t.era + decimal_text(t.year as nat) + "年"@
}

/// The era of a time under its regime.
pub open spec fn era_label(t: TimeRefView) -> Seq<char> {
    t.regime + "/"@ + t.era
}

/// The era and year of a time, as one word.
pub open spec fn year_label(t: TimeRefView) -> Seq<char> {
    t.era + decimal_text(t.year as nat)
}

/// Labels a time: regime, era, year and 年.
pub fn time_string(t: &TimeRef) -> (s: String)
    ensures
        s@ == time_text(t@),
{
    let mut s = t.regime.clone();
    s.append("/");
    s.append(t.era.as_str());
    s.append(decimal_string(t.year as u64).as_str());
    s.append("年");
    s
}

/// The family that a kind of event belongs to.
pub open spec fn family_of(k: EventKindView) -> Family {
    match k {
        EventKindView::Appointment { .. } => Family::Appointment,
        EventKindView::Promotion { .. } => Family::Promotion,
        EventKindView::Accession { .. } => Family::Accession,
        EventKindView::Battle { .. } => Family::Battle,
        EventKindView::Death { .. } => Family::Death,
    }
}

/// How many of the first `n` events are of the family `f`.
pub open spec fn kind_count(events: Seq<EventView>, f: Family, n: nat) -> nat
    decreases n,
{
    if n == 0 || n > events.len() {
        0
    } else {
        kind_count(events, f, (n - 1) as nat) + if family_of(events[n - 1].kind) == f {
            1nat
        } else {
            0nat
        }
    }
}

/// The names of the places that the first `n` events themselves name.
pub open spec fn place_names(events: Seq<EventView>, n: nat) -> Seq<Seq<char>>
    decreases n,
{
    if n == 0 || n > events.len() {
        Seq::empty()
    } else {
        let r = place_names(events, (n - 1) as nat);
        match crate::event::structured_place(events[n - 1].kind) {
            Some(p) => r.push(p.name),
            None => r,
        }
    }
}

/// The era labels of those of the first `n` events that have a time.
pub open spec fn era_labels(events: Seq<EventView>, n: nat) -> Seq<Seq<char>>
    decreases n,
{
    if n == 0 || n > events.len() {
        Seq::empty()
    } else {
        let r = era_labels(events, (n - 1) as nat);
        match events[n - 1].time {
            Some(t) => r.push(era_label(t)),
            None => r,
        }
    }
}

/// The year labels of those of the first `n` events that have a time.
pub open spec fn year_labels(events: Seq<EventView>, n: nat) -> Seq<Seq<char>>
    decreases n,
{
    if n == 0 || n > events.len() {
        Seq::empty()
    } else {
        let r = year_labels(events, (n - 1) as nat);
        match events[n - 1].time {
            Some(t) => r.push(year_label(t)),
            None => r,
        }
    }
}

/// Number of places that the statistics list.
pub const TOP_PLACES: usize = 30;

/// Counts over all events of a corpus.
#[derive(Debug)]
pub struct EventStats {
    pub total_events: usize,
    pub appointments: usize,
    pub promotions: usize,
    pub accessions: usize,
    pub battles: usize,
    pub deaths: usize,
    /// Number of distinct year labels among the timed events.
    pub unique_time_refs: usize,
    /// Number of places listed in `top_places`.
    pub unique_places: usize,
    /// Timed events per era label, as the labels first occur.
    pub era_distribution: Vec<(String, usize)>,
    /// The thirty places that events name most often, most frequent first.
    pub top_places: Vec<(String, usize)>,
}

pub struct EventStatsView {
    pub total_events: usize,
    pub appointments: usize,
    pub promotions: usize,
    pub accessions: usize,
    pub battles: usize,
    pub deaths: usize,
    pub unique_time_refs: usize,
    pub unique_places: usize,
    pub era_distribution: Seq<(Seq<char>, usize)>,
    pub top_places: Seq<(Seq<char>, usize)>,
}

impl View for EventStats {
    type V = EventStatsView;

    open spec fn view(&self) -> EventStatsView {
        EventStatsView {
            total_events: self.total_events,
            appointments: self.appointments,
            promotions: self.promotions,
            accessions: self.accessions,
            battles: self.battles,
            deaths: self.deaths,
            unique_time_refs: self.unique_time_refs,
            unique_places: self.unique_places,
            era_distribution: self.era_distribution.deep_view(),
            top_places: self.top_places.deep_view(),
        }
    }
}

/// The statistics of a list of events.
pub open spec fn stats_of(events: Seq<EventView>) -> EventStatsView {
    let n = events.len();
    let top = first_n(by_count(tally(place_names(events, n))), TOP_PLACES as nat);
    EventStatsView {
        total_events: n as usize,
        appointments: kind_count(events, Family::Appointment, n) as usize,
        promotions: kind_count(events, Family::Promotion, n) as usize,
        accessions: kind_count(events, Family::Accession, n) as usize,
        battles: kind_count(events, Family::Battle, n) as usize,
        deaths: kind_count(events, Family::Death, n) as usize,
        unique_time_refs: distinct(year_labels(events, n)).len() as usize,
        unique_places: top.len() as usize,
        era_distribution: tally(era_labels(events, n)),
        top_places: top,
    }
}

proof fn lemma_kind_count_bound(events: Seq<EventView>, f: Family, n: nat)
    requires
        n <= events.len(),
    ensures
        kind_count(events, f, n) <= n,
    decreases n,
{
    if n > 0 {
        lemma_kind_count_bound(events, f, (n - 1) as nat);
    }
}

/// Computes the statistics of a list of events.
pub fn event_stats(events: &Vec<Event>) -> (stats: EventStats)
    ensures
        stats@ == stats_of(events.deep_view()),
{
    let ghost ev = events.deep_view();
    let mut appointments: usize = 0;
    let mut promotions: usize = 0;
    let mut accessions: usize = 0;
    let mut battles: usize = 0;
    let mut deaths: usize = 0;
    let mut places: Vec<String> = Vec::new();
    let mut eras: Vec<String> = Vec::new();
    let mut years: Vec<String> = Vec::new();
    let mut i: usize = 0;
    while i < events.len()
        invariant
            i <= events.len(),
            ev == events.deep_view(),
            appointments == kind_count(ev, Family::Appointment, i as nat),
            promotions == kind_count(ev, Family::Promotion, i as nat),
            accessions == kind_count(ev, Family::Accession, i as nat),
            battles == kind_count(ev, Family::Battle, i as nat),
            deaths == kind_count(ev, Family::Death, i as nat),
            places.deep_view() == place_names(ev, i as nat),
            eras.deep_view() == era_labels(ev, i as nat),
            years.deep_view() == year_labels(ev, i as nat),
        decreases events.len() - i,
    {
        let e = &events[i];
        proof {
            lemma_kind_count_bound(ev, Family::Appointment, i as nat);
            lemma_kind_count_bound(ev, Family::Promotion, i as nat);
            lemma_kind_count_bound(ev, Family::Accession, i as nat);
            lemma_kind_count_bound(ev, Family::Battle, i as nat);
            lemma_kind_count_bound(ev, Family::Death, i as nat);
        }
        match &e.kind {
            EventKind::Appointment { .. } => {
                appointments += 1;
            },
            EventKind::Promotion { .. } => {
                promotions += 1;
            },
            EventKind::Accession { .. } => {
                accessions += 1;
            },
            EventKind::Battle { .. } => {
                battles += 1;
            },
            EventKind::Death { .. } => {
                deaths += 1;
            },
        }
        match e.place() {
            Some(p) => {
                places.push(p.name.clone());
            },
            None => {},
        }
        match &e.time {
            Some(t) => {
                let mut label = t.regime.clone();
                label.append("/");
                label.append(t.era.as_str());
                eras.push(label);
                let mut label = t.era.clone();
                label.append(decimal_string(t.year as u64).as_str());
                years.push(label);
            },
            None => {},
        }
        i += 1;
    }
    let sorted = sort_by_count(&tally_words(&places));
    let mut top_places: Vec<(String, usize)> = Vec::new();
    let mut k: usize = 0;
    while k < sorted.len() && k < TOP_PLACES
        invariant
            k <= sorted.len(),
            k <= TOP_PLACES,
            top_places@.len() == k,
            forall|j: int|
                0 <= j < k ==> (#[trigger] top_places@[j]).deep_view() == sorted@[j].deep_view(),
        decreases sorted.len() - k,
    {
        top_places.push((sorted[k].0.clone(), sorted[k].1));
        k += 1;
    }
    assert(top_places.deep_view() =~= first_n(sorted.deep_view(), TOP_PLACES as nat));
    let unique_years = distinct_words(&years);
    EventStats {
        total_events: events.len(),
        appointments,
        promotions,
        accessions,
        battles,
        deaths,
        unique_time_refs: unique_years.len(),
        unique_places: top_places.len(),
        era_distribution: tally_words(&eras),
        top_places,
    }
}

/// The views of the given files.
pub open spec fn file_views(files: Seq<LoadedFile>) -> Seq<LoadedFileView> {
    Seq::new(files.len(), |i: int| files[i]@)
}

/// The events of the first `n` files, file after file.
pub open spec fn corpus_events(name: Seq<char>, files: Seq<LoadedFileView>, n: nat) -> Seq<EventView>
    decreases n,
{
    if n == 0 || n > files.len() {
        Seq::empty()
    } else {
        let f = files[n - 1];
        corpus_events(name, files, (n - 1) as nat) + file_events(
            name,
            f.content,
            f.file.source.book,
            f.file.path,
        )
    }
}

/// The time scopes of the first `n` files, file after file.
pub open spec fn corpus_scopes(files: Seq<LoadedFileView>, n: nat) -> Seq<TimeScopeView>
    decreases n,
{
    if n == 0 || n > files.len() {
        Seq::empty()
    } else {
        let f = files[n - 1];
        corpus_scopes(files, (n - 1) as nat) + scopes_of(
            file_times(f.content, f.file.source.book),
            utf8_len(f.content) as usize,
            f.file.path,
        )
    }
}

impl EventScanner {
    /// Scans every file of the corpus: its events, its time scopes, and
    /// the statistics of the events.
    pub fn scan_corpus(&self, files: &[LoadedFile]) -> (r: (Vec<Event>, TimeIndex, EventStats))
        ensures
            r.0.deep_view() == corpus_events(self.name_fragment(), file_views(files@), files@.len()),
            r.1@ == corpus_scopes(file_views(files@), files@.len()),
            r.2@ == stats_of(r.0.deep_view()),
    {
        let mut all_events: Vec<Event> = Vec::new();
        let mut all_scopes: Vec<TimeScope> = Vec::new();
        let ghost fv = file_views(files@);
        let ghost name = self.name_fragment();
        let mut i: usize = 0;
        while i < files.len()
            invariant
                i <= files.len(),
                fv == file_views(files@),
                name == self.name_fragment(),
                all_events.deep_view() == corpus_events(name, fv, i as nat),
                all_scopes.deep_view() == corpus_scopes(fv, i as nat),
            decreases files.len() - i,
        {
            let f = &files[i];
            let (mut events, mut scopes) = self.scan_file(
                f.content.as_str(),
                f.file.source.book,
                f.file.path.as_str(),
            );
            all_events.append(&mut events);
            all_scopes.append(&mut scopes);
            i += 1;
        }
        let stats = event_stats(&all_events);
        (all_events, TimeIndex { scopes: all_scopes }, stats)
    }
}

} // verus!
