//! What is computed over all events of a corpus: how often persons and
//! places are attested, which events count as high-confidence, and the
//! places with every occurrence.

use crate::event::{
    location_names_of, person_of, structured_place, Event, EventKind, EventKindView, EventView,
    EventsOutput, PlaceRef, PlaceRefView,
};
use crate::order::{arrange, stable_order, stable_perm};
use crate::stats::{time_string, time_text};
use crate::tally::{
    by_count, count_of, lemma_counted_tally, lookup, sort_by_count, tally, tally_words,
};
use crate::text::str_eq;
use crate::types::clone_opt;
use vstd::prelude::*;

verus! {

/// A person or a place counts as attested when it occurs at least this
/// often among all events.
pub const CONFIDENCE_THRESHOLD: usize = 2;

/// The person of each event, in order.
pub open spec fn person_names(events: Seq<EventView>) -> Seq<Seq<char>> {
    Seq::new(events.len(), |i: int| person_of(events[i].kind))
}

/// The names of all places of the first `n` events, event after event.
pub open spec fn location_mentions(events: Seq<EventView>, n: nat) -> Seq<Seq<char>>
    decreases n,
{
    if n == 0 || n > events.len() {
        Seq::empty()
    } else {
        location_mentions(events, (n - 1) as nat) + location_names_of(events[n - 1])
    }
}

/// How often a person occurs among the events.
pub open spec fn person_frequency(events: Seq<EventView>, person: Seq<char>) -> nat {
    count_of(person_names(events), person)
}

/// How often a place is named among the events, in context or structure.
pub open spec fn place_frequency(events: Seq<EventView>, name: Seq<char>) -> nat {
    count_of(location_mentions(events, events.len()), name)
}

/// Those of the first `n` places that are attested.
pub open spec fn kept_places(places: Seq<PlaceRefView>, events: Seq<EventView>, n: nat) -> Seq<
    PlaceRefView,
>
    decreases n,
{
    if n == 0 || n > places.len() {
        Seq::empty()
    } else {
        let r = kept_places(places, events, (n - 1) as nat);
        if place_frequency(events, places[n - 1].name) >= CONFIDENCE_THRESHOLD {
            r.push(places[n - 1])
        } else {
            r
        }
    }
}

/// The place, if there is one and it is attested.
pub open spec fn kept_place(p: Option<PlaceRefView>, events: Seq<EventView>) -> Option<PlaceRefView> {
    match p {
        Some(x) => if place_frequency(events, x.name) >= CONFIDENCE_THRESHOLD {
            Some(x)
        } else {
            None
        },
        None => None,
    }
}

/// The kind with `place` as the place that the event itself names.
pub open spec fn with_place(k: EventKindView, place: Option<PlaceRefView>) -> EventKindView {
    match k {
        EventKindView::Appointment { person, new_title, .. } => EventKindView::Appointment {
            person,
            new_title,
            place,
        },
        EventKindView::Promotion { person, verb, new_title, .. } => EventKindView::Promotion {
            person,
            verb,
            new_title,
            place,
        },
        EventKindView::Battle { person, verb, target, .. } => EventKindView::Battle {
            person,
            verb,
            target,
            target_place: place,
        },
        _ => k,
    }
}

/// A high-confidence event as it is handed on: of its places only the
/// attested ones remain.
pub open spec fn confirmed(e: EventView, events: Seq<EventView>) -> EventView {
    EventView {
        kind: with_place(e.kind, kept_place(structured_place(e.kind), events)),
        time: e.time,
        source_file: e.source_file,
        byte_offset: e.byte_offset,
        context: e.context,
        locations: kept_places(e.locations, events, e.locations.len()),
    }
}

/// Those of the first `n` events whose person is attested, each confirmed.
pub open spec fn high_confidence(events: Seq<EventView>, n: nat) -> Seq<EventView>
    decreases n,
{
    if n == 0 || n > events.len() {
        Seq::empty()
    } else {
        let r = high_confidence(events, (n - 1) as nat);
        if person_frequency(events, person_of(events[n - 1].kind)) >= CONFIDENCE_THRESHOLD {
            r.push(confirmed(events[n - 1], events))
        } else {
            r
        }
    }
}

/// Those of the first `n` events whose person is not attested, unchanged.
pub open spec fn unstructured(events: Seq<EventView>, n: nat) -> Seq<EventView>
    decreases n,
{
    if n == 0 || n > events.len() {
        Seq::empty()
    } else {
        let r = unstructured(events, (n - 1) as nat);
        if person_frequency(events, person_of(events[n - 1].kind)) >= CONFIDENCE_THRESHOLD {
            r
        } else {
            r.push(events[n - 1])
        }
    }
}

/// The person and every place of the event are attested.
pub open spec fn is_confirmed(e: EventView, events: Seq<EventView>) -> bool {
    &&& person_frequency(events, person_of(e.kind)) >= CONFIDENCE_THRESHOLD
    &&& forall|i: int|
        0 <= i < e.locations.len() ==> place_frequency(events, (#[trigger] e.locations[i]).name)
            >= CONFIDENCE_THRESHOLD
    &&& structured_place(e.kind) is Some ==> place_frequency(events, structured_place(e.kind)->0.name)
        >= CONFIDENCE_THRESHOLD
}

proof fn lemma_kept_places(places: Seq<PlaceRefView>, events: Seq<EventView>, n: nat)
    requires
        n <= places.len(),
    ensures
        forall|i: int|
            0 <= i < kept_places(places, events, n).len() ==> place_frequency(
                events,
                (#[trigger] kept_places(places, events, n)[i]).name,
            ) >= CONFIDENCE_THRESHOLD,
    decreases n,
{
    if n > 0 {
        lemma_kept_places(places, events, (n - 1) as nat);
    }
}

/// In every high-confidence event the person and every remaining place
/// are attested at least twice.
pub proof fn lemma_high_confidence(events: Seq<EventView>, n: nat)
    requires
        n <= events.len(),
    ensures
        forall|k: int|
            0 <= k < high_confidence(events, n).len() ==> is_confirmed(
                #[trigger] high_confidence(events, n)[k],
                events,
            ),
    decreases n,
{
    if n > 0 {
        lemma_high_confidence(events, (n - 1) as nat);
        let e = events[n - 1];
        let prev = high_confidence(events, (n - 1) as nat);
        lemma_kept_places(e.locations, events, e.locations.len());
        if person_frequency(events, person_of(e.kind)) >= CONFIDENCE_THRESHOLD {
            let c = confirmed(e, events);
            assert forall|k: int| 0 <= k < prev.push(c).len() implies is_confirmed(
                #[trigger] prev.push(c)[k],
                events,
            ) by {
            }
        }
    }
}

/// The persons of the events, in order.
pub fn persons_of(events: &Vec<Event>) -> (names: Vec<String>)
    ensures
        names.deep_view() == person_names(events.deep_view()),
{
    let mut names: Vec<String> = Vec::new();
    let mut i: usize = 0;
    while i < events.len()
        invariant
            i <= events.len(),
            names@.len() == i,
            forall|j: int| 0 <= j < i ==> names@[j]@ == person_of(events@[j]@.kind),
        decreases events.len() - i,
    {
        names.push(String::from_str(events[i].person_name()));
        i += 1;
    }
    names
}

/// The names of all places of the events, event after event.
pub fn locations_of(events: &Vec<Event>) -> (names: Vec<String>)
    ensures
        names.deep_view() == location_mentions(events.deep_view(), events.len() as nat),
{
    let mut names: Vec<String> = Vec::new();
    let ghost ev = events.deep_view();
    let mut i: usize = 0;
    while i < events.len()
        invariant
            i <= events.len(),
            ev == events.deep_view(),
            names.deep_view() == location_mentions(ev, i as nat),
        decreases events.len() - i,
    {
        let found = events[i].all_location_names();
        let ghost start = names.deep_view();
        let mut k: usize = 0;
        while k < found.len()
            invariant
                k <= found.len(),
                names.deep_view() == start + found.deep_view().take(k as int),
            decreases found.len() - k,
        {
            let ghost before = names.deep_view();
            names.push(String::from_str(found[k]));
            assert(names.deep_view() =~= before.push(found@[k as int]@));
            k += 1;
        }
        i += 1;
    }
    names
}

/// The persons of the events with the number of events of each, the most
/// frequent first.
pub fn event_persons(events: &Vec<Event>) -> (r: Vec<(String, usize)>)
    ensures
        r.deep_view() == by_count(tally(person_names(events.deep_view()))),
{
    sort_by_count(&tally_words(&persons_of(events)))
}

fn keep_places(places: &Vec<PlaceRef>, counts: &Vec<(String, usize)>, Ghost(events): Ghost<Seq<EventView>>) -> (r:
    Vec<PlaceRef>)
    requires
        counts.deep_view() == tally(location_mentions(events, events.len())),
        location_mentions(events, events.len()).len() <= usize::MAX,
    ensures
        r.deep_view() == kept_places(places.deep_view(), events, places.len() as nat),
{
    let mut r: Vec<PlaceRef> = Vec::new();
    let ghost pv = places.deep_view();
    let mut i: usize = 0;
    while i < places.len()
        invariant
            i <= places.len(),
            pv == places.deep_view(),
            counts.deep_view() == tally(location_mentions(events, events.len())),
            location_mentions(events, events.len()).len() <= usize::MAX,
            r.deep_view() == kept_places(pv, events, i as nat),
        decreases places.len() - i,
    {
        proof {
            lemma_counted_tally(location_mentions(events, events.len()), places@[i as int].name@);
        }
        if lookup(counts, places[i].name.as_str()) >= CONFIDENCE_THRESHOLD {
            r.push(places[i].clone());
        }
        i += 1;
    }
    r
}

fn keep_place(place: &Option<PlaceRef>, counts: &Vec<(String, usize)>, Ghost(events): Ghost<Seq<EventView>>) -> (r:
    Option<PlaceRef>)
    requires
        counts.deep_view() == tally(location_mentions(events, events.len())),
        location_mentions(events, events.len()).len() <= usize::MAX,
    ensures
        r.deep_view() == kept_place(place.deep_view(), events),
{
    match place {
        Some(p) => {
            proof {
                lemma_counted_tally(location_mentions(events, events.len()), p.name@);
            }
            if lookup(counts, p.name.as_str()) >= CONFIDENCE_THRESHOLD {
                Some(p.clone())
            } else {
                None
            }
        },
        None => None,
    }
}

/// Splits the events into those of attested persons, each with only its
/// attested places, and the rest, unchanged. Both lists keep the order of
/// the events.
pub fn split_by_confidence(events: &Vec<Event>) -> (out: EventsOutput)
    ensures
        out.events.deep_view() == high_confidence(events.deep_view(), events.len() as nat),
        out.unstructured_events.deep_view() == unstructured(events.deep_view(), events.len() as nat),
        forall|k: int|
            0 <= k < out.events.len() ==> is_confirmed(
                #[trigger] out.events.deep_view()[k],
                events.deep_view(),
            ),
{
    let ghost ev = events.deep_view();
    let persons = persons_of(events);
    let person_counts = tally_words(&persons);
    let places = locations_of(events);
    assert(places.deep_view().len() == places.len());
    let place_counts = tally_words(&places);
    let mut high: Vec<Event> = Vec::new();
    let mut rest: Vec<Event> = Vec::new();
    let mut i: usize = 0;
    while i < events.len()
        invariant
            i <= events.len(),
            ev == events.deep_view(),
            person_counts.deep_view() == tally(person_names(ev)),
            person_names(ev).len() <= usize::MAX,
            place_counts.deep_view() == tally(location_mentions(ev, ev.len())),
            location_mentions(ev, ev.len()).len() <= usize::MAX,
            high.deep_view() == high_confidence(ev, i as nat),
            rest.deep_view() == unstructured(ev, i as nat),
        decreases events.len() - i,
    {
        let e = &events[i];
        proof {
            lemma_counted_tally(person_names(ev), person_of(e@.kind));
        }
        if lookup(&person_counts, e.person_name()) >= CONFIDENCE_THRESHOLD {
            let locations = keep_places(&e.locations, &place_counts, Ghost(ev));
            let kind = match &e.kind {
                EventKind::Appointment { person, new_title, place } => EventKind::Appointment {
                    person: person.clone(),
                    new_title: new_title.clone(),
                    place: keep_place(place, &place_counts, Ghost(ev)),
                },
                EventKind::Promotion { person, verb, new_title, place } => EventKind::Promotion {
                    person: person.clone(),
                    verb: verb.clone(),
                    new_title: new_title.clone(),
                    place: keep_place(place, &place_counts, Ghost(ev)),
                },
                EventKind::Battle { person, verb, target, target_place } => EventKind::Battle {
                    person: person.clone(),
                    verb: verb.clone(),
                    target: target.clone(),
                    target_place: keep_place(target_place, &place_counts, Ghost(ev)),
                },
                EventKind::Accession { person, verb } => EventKind::Accession {
                    person: person.clone(),
                    verb: verb.clone(),
                },
                EventKind::Death { person, verb } => EventKind::Death {
                    person: person.clone(),
                    verb: verb.clone(),
                },
            };
            let time = match &e.time {
                Some(t) => Some(t.clone()),
                None => None,
            };
            let kept = Event {
                kind,
                time,
                source_file: e.source_file.clone(),
                byte_offset: e.byte_offset,
                context: e.context.clone(),
                locations,
            };
            high.push(kept);
        } else {
            rest.push(e.clone());
        }
        i += 1;
    }
    proof {
        lemma_high_confidence(ev, ev.len());
    }
    EventsOutput { events: high, unstructured_events: rest }
}

/// Where a place was named: the file and offset of the event, and the
/// label of its time.
#[derive(Debug)]
pub struct LocationSource {
    pub source_file: String,
    pub byte_offset: usize,
    pub time: Option<String>,
}

pub struct LocationSourceView {
    pub source_file: Seq<char>,
    pub byte_offset: usize,
    pub time: Option<Seq<char>>,
}

impl View for LocationSource {
    type V = LocationSourceView;

    open spec fn view(&self) -> LocationSourceView {
        LocationSourceView {
            source_file: self.source_file@,
            byte_offset: self.byte_offset,
            time: self.time.deep_view(),
        }
    }
}

impl DeepView for LocationSource {
    type V = LocationSourceView;

    open spec fn deep_view(&self) -> LocationSourceView {
        self@
    }
}

impl Clone for LocationSource {
    fn clone(&self) -> (r: Self)
        ensures
            r@ == self@,
    {
        LocationSource {
            source_file: self.source_file.clone(),
            byte_offset: self.byte_offset,
            time: clone_opt(&self.time),
        }
    }
}

/// A place with every occurrence among the events.
#[derive(Debug)]
pub struct LocationEntry {
    pub name: String,
    pub is_qiao: bool,
    pub role_suffix: Option<String>,
    /// Number of occurrences.
    pub event_count: usize,
    pub sources: Vec<LocationSource>,
}

pub struct LocationEntryView {
    pub name: Seq<char>,
    pub is_qiao: bool,
    pub role_suffix: Option<Seq<char>>,
    pub event_count: usize,
    pub sources: Seq<LocationSourceView>,
}

impl View for LocationEntry {
    type V = LocationEntryView;

    open spec fn view(&self) -> LocationEntryView {
        LocationEntryView {
            name: self.name@,
            is_qiao: self.is_qiao,
            role_suffix: self.role_suffix.deep_view(),
            event_count: self.event_count,
            sources: self.sources.deep_view(),
        }
    }
}

impl DeepView for LocationEntry {
    type V = LocationEntryView;

    open spec fn deep_view(&self) -> LocationEntryView {
        self@
    }
}

fn clone_sources(v: &Vec<LocationSource>) -> (r: Vec<LocationSource>)
    ensures
        r.deep_view() == v.deep_view(),
{
    let mut r: Vec<LocationSource> = Vec::new();
    let mut i: usize = 0;
    while i < v.len()
        invariant
            i <= v.len(),
            r@.len() == i,
            forall|j: int| 0 <= j < i ==> r@[j]@ == v@[j]@,
        decreases v.len() - i,
    {
        r.push(v[i].clone());
        i += 1;
    }
    r
}

impl Clone for LocationEntry {
    fn clone(&self) -> (r: Self)
        ensures
            r@ == self@,
    {
        LocationEntry {
            name: self.name.clone(),
            is_qiao: self.is_qiao,
            role_suffix: clone_opt(&self.role_suffix),
            event_count: self.event_count,
            sources: clone_sources(&self.sources),
        }
    }
}

/// The places of an event: those of the context, then the place that the
/// event itself names.
pub open spec fn event_places(e: EventView) -> Seq<PlaceRefView> {
    match structured_place(e.kind) {
        Some(p) => e.locations.push(p),
        None => e.locations,
    }
}

/// Where the places of an event were named.
pub open spec fn source_of(e: EventView) -> LocationSourceView {
    LocationSourceView {
        source_file: e.source_file,
        byte_offset: e.byte_offset,
        time: match e.time {
            Some(t) => Some(time_text(t)),
            None => None,
        },
    }
}

/// Every place of an event with the event as its source.
pub open spec fn event_mentions(e: EventView) -> Seq<(PlaceRefView, LocationSourceView)> {
    Seq::new(event_places(e).len(), |i: int| (event_places(e)[i], source_of(e)))
}

/// Every place of the first `n` events with its source, event after event.
pub open spec fn mentions(events: Seq<EventView>, n: nat) -> Seq<(PlaceRefView, LocationSourceView)>
    decreases n,
{
    if n == 0 || n > events.len() {
        Seq::empty()
    } else {
        mentions(events, (n - 1) as nat) + event_mentions(events[n - 1])
    }
}

/// The names of the places mentioned, in order.
pub open spec fn mention_names(ms: Seq<(PlaceRefView, LocationSourceView)>) -> Seq<Seq<char>> {
    Seq::new(ms.len(), |i: int| ms[i].0.name)
}

/// The sources of those of the first `n` mentions that name `name`.
pub open spec fn sources_named(ms: Seq<(PlaceRefView, LocationSourceView)>, name: Seq<char>, n: nat) -> Seq<
    LocationSourceView,
>
    decreases n,
{
    if n == 0 || n > ms.len() {
        Seq::empty()
    } else {
        let r = sources_named(ms, name, (n - 1) as nat);
        if ms[n - 1].0.name == name {
            r.push(ms[n - 1].1)
        } else {
            r
        }
    }
}

/// The first mention, from position `from` on, that names `name`.
pub open spec fn first_named(ms: Seq<(PlaceRefView, LocationSourceView)>, name: Seq<char>, from: int) -> Option<
    PlaceRefView,
>
    decreases ms.len() - from,
{
    if from < 0 || from >= ms.len() {
        None
    } else if ms[from].0.name == name {
        Some(ms[from].0)
    } else {
        first_named(ms, name, from + 1)
    }
}

/// The entry of a place: what its first mention says of it, and the
/// sources of all its mentions in order.
pub open spec fn entry_of(ms: Seq<(PlaceRefView, LocationSourceView)>, name: Seq<char>) -> LocationEntryView {
    let sources = sources_named(ms, name, ms.len());
    LocationEntryView {
        name,
        is_qiao: match first_named(ms, name, 0) {
            Some(p) => p.is_qiao,
            None => false,
        },
        role_suffix: match first_named(ms, name, 0) {
            Some(p) => p.role_suffix,
            None => None,
        },
        event_count: sources.len() as usize,
        sources,
    }
}

/// One entry for each place mentioned, as the places first occur.
pub open spec fn location_entries(ms: Seq<(PlaceRefView, LocationSourceView)>) -> Seq<LocationEntryView> {
    let names = crate::words::distinct(mention_names(ms));
    Seq::new(names.len(), |i: int| entry_of(ms, names[i]))
}

/// The keys that put the places with more occurrences first.
pub open spec fn entry_keys(entries: Seq<LocationEntryView>) -> Seq<u64> {
    Seq::new(entries.len(), |i: int| (u64::MAX - entries[i].event_count as u64) as u64)
}

/// The places of the events with every occurrence, the most frequent
/// first; places of equal frequency as they first occur.
pub open spec fn locations_of_events(events: Seq<EventView>) -> Seq<LocationEntryView> {
    let entries = location_entries(mentions(events, events.len()));
    arrange(entries, stable_perm(entry_keys(entries)))
}

fn mentions_of(events: &Vec<Event>) -> (ms: Vec<(PlaceRef, LocationSource)>)
    ensures
        ms.deep_view() == mentions(events.deep_view(), events.len() as nat),
{
    let mut ms: Vec<(PlaceRef, LocationSource)> = Vec::new();
    let ghost ev = events.deep_view();
    let mut i: usize = 0;
    while i < events.len()
        invariant
            i <= events.len(),
            ev == events.deep_view(),
            ms.deep_view() == mentions(ev, i as nat),
        decreases events.len() - i,
    {
        let e = &events[i];
        let source = LocationSource {
            source_file: e.source_file.clone(),
            byte_offset: e.byte_offset,
            time: match &e.time {
                Some(t) => Some(time_string(t)),
                None => None,
            },
        };
        let ghost start = ms.deep_view();
        let ghost want = event_mentions(e@);
        let mut k: usize = 0;
        while k < e.locations.len()
            invariant
                k <= e.locations.len(),
                source@ == source_of(e@),
                want == event_mentions(e@),
                ms.deep_view() == start + want.take(k as int),
            decreases e.locations.len() - k,
        {
            let ghost before = ms.deep_view();
            let p = e.locations[k].clone();
            let src = source.clone();
            ms.push((p, src));
            assert(ms.deep_view() =~= before.push(want[k as int]));
            k += 1;
        }
        match e.place() {
            Some(p) => {
                let ghost before = ms.deep_view();
                let ghost n = e@.locations.len() as int;
                ms.push((p.clone(), source));
                assert(ms.deep_view() =~= before.push(want[n]));
            },
            None => {
            },
        }
        i += 1;
    }
    ms
}

fn entry_for(ms: &Vec<(PlaceRef, LocationSource)>, name: &str) -> (r: LocationEntry)
    ensures
        r@ == entry_of(ms.deep_view(), name@),
{
    let ghost mv = ms.deep_view();
    let mut sources: Vec<LocationSource> = Vec::new();
    let mut first: Option<usize> = None;
    let mut i: usize = 0;
    while i < ms.len()
        invariant
            i <= ms.len(),
            mv == ms.deep_view(),
            sources.deep_view() == sources_named(mv, name@, i as nat),
            match first {
                Some(k) => k < i && first_named(mv, name@, 0) == Some(mv[k as int].0),
                None => first_named(mv, name@, 0) == first_named(mv, name@, i as int),
            },
        decreases ms.len() - i,
    {
        if str_eq(ms[i].0.name.as_str(), name) {
            sources.push(ms[i].1.clone());
            if first.is_none() {
                first = Some(i);
            }
        }
        i += 1;
    }
    let (is_qiao, role_suffix) = match first {
        Some(k) => (ms[k].0.is_qiao, clone_opt(&ms[k].0.role_suffix)),
        None => (false, None),
    };
    LocationEntry {
        name: String::from_str(name),
        is_qiao,
        role_suffix,
        event_count: sources.len(),
        sources,
    }
}

/// The places of the events, each with every occurrence, the most
/// frequent first.
pub fn aggregate_locations(events: &Vec<Event>) -> (r: Vec<LocationEntry>)
    ensures
        r.deep_view() == locations_of_events(events.deep_view()),
{
    let ms = mentions_of(events);
    let ghost mv = ms.deep_view();
    let mut all_names: Vec<String> = Vec::new();
    let mut i: usize = 0;
    while i < ms.len()
        invariant
            i <= ms.len(),
            all_names@.len() == i,
            forall|j: int| 0 <= j < i ==> all_names@[j]@ == ms@[j].0.name@,
        decreases ms.len() - i,
    {
        all_names.push(ms[i].0.name.clone());
        i += 1;
    }
    assert(all_names.deep_view() =~= mention_names(mv));
    let names = crate::words::distinct_words(&all_names);
    let mut entries: Vec<LocationEntry> = Vec::new();
    let mut keys: Vec<u64> = Vec::new();
    let mut i: usize = 0;
    while i < names.len()
        invariant
            i <= names.len(),
            mv == ms.deep_view(),
            entries@.len() == i,
            keys@.len() == i,
            forall|j: int| 0 <= j < i ==> (#[trigger] entries@[j])@ == entry_of(mv, names@[j]@),
            forall|j: int|
                0 <= j < i ==> keys@[j] == (u64::MAX - entry_of(mv, names@[j]@).event_count as u64) as u64,
        decreases names.len() - i,
    {
        let entry = entry_for(&ms, names[i].as_str());
        keys.push(u64::MAX - entry.event_count as u64);
        entries.push(entry);
        i += 1;
    }
    let ghost ev = entries.deep_view();
    assert(ev =~= location_entries(mv));
    assert(keys@ =~= entry_keys(ev));
    let perm = stable_order(&keys);
    let mut r: Vec<LocationEntry> = Vec::new();
    let mut i: usize = 0;
    while i < perm.len()
        invariant
            i <= perm.len(),
            perm@.len() == entries@.len(),
            forall|j: int| 0 <= j < perm@.len() ==> (#[trigger] perm@[j]) < entries@.len(),
            r@.len() == i,
            forall|j: int| 0 <= j < i ==> (#[trigger] r@[j])@ == entries@[perm@[j] as int]@,
        decreases perm.len() - i,
    {
        r.push(entries[perm[i]].clone());
        i += 1;
    }
    r
}

} // verus!
