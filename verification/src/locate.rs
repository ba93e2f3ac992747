//! Where every person was at the time that a query asks for.

use crate::aggregate::{person_frequency, person_names, persons_of, CONFIDENCE_THRESHOLD};
use crate::event::{person_of, structured_place, Event, EventKind, EventKindView, EventView};
use crate::order::{arrange, stable_order, stable_perm};
use crate::query::{
    is_stale, query_matches, sort_key_of, time_matches_query, time_sort_key, TimeQuery,
    TimeQueryView, STALENESS_THRESHOLD_YEARS,
};
use crate::stats::{decimal_string, decimal_text, time_string, time_text};
use crate::tally::{lemma_counted_tally, lookup, tally, tally_words};
use crate::text::str_eq;
use crate::types::clone_opt;
use crate::words::{distinct, distinct_words};
use vstd::prelude::*;
use vstd::string::*;

verus! {

/// Where a person is, and since when that is known.
#[derive(Debug)]
pub struct PersonLocation {
    pub location: String,
    pub role: Option<String>,
    /// Label of the time of the event that placed the person.
    pub as_of: String,
    pub as_of_ad: u16,
    /// `current` if the person was placed in the latest year that the
    /// query matches, else `last_known`.
    pub status: String,
    pub context: String,
}

pub struct PersonLocationView {
    pub location: Seq<char>,
    pub role: Option<Seq<char>>,
    pub as_of: Seq<char>,
    pub as_of_ad: u16,
    pub status: Seq<char>,
    pub context: Seq<char>,
}

impl View for PersonLocation {
    type V = PersonLocationView;

    open spec fn view(&self) -> PersonLocationView {
        PersonLocationView {
            location: self.location@,
            role: self.role.deep_view(),
            as_of: self.as_of@,
            as_of_ad: self.as_of_ad,
            status: self.status@,
            context: self.context@,
        }
    }
}

impl DeepView for PersonLocation {
    type V = PersonLocationView;

    open spec fn deep_view(&self) -> PersonLocationView {
        self@
    }
}

/// What is known of a person after some events: where the person was
/// placed last, when the person was seen last, and when the person died.
pub struct PersonState {
    pub location: Option<PersonLocationView>,
    pub last_seen: u16,
    pub dead_at: Option<u16>,
}

/// Those of the first `n` events that have a time, in order.
pub open spec fn timed(events: Seq<EventView>, n: nat) -> Seq<EventView>
    decreases n,
{
    if n == 0 || n > events.len() {
        Seq::empty()
    } else {
        let r = timed(events, (n - 1) as nat);
        if events[n - 1].time is Some {
            r.push(events[n - 1])
        } else {
            r
        }
    }
}

/// The year AD of an event, 0 where it is not known.
pub open spec fn event_key(e: EventView) -> u16 {
    match e.time {
        Some(t) => sort_key_of(t),
        None => 0,
    }
}

/// The keys of the events, in order.
pub open spec fn event_keys(events: Seq<EventView>) -> Seq<u64> {
    Seq::new(events.len(), |i: int| event_key(events[i]) as u64)
}

/// The events in chronological order; events of one year keep their order.
pub open spec fn chronological(events: Seq<EventView>) -> Seq<EventView> {
    arrange(events, stable_perm(event_keys(events)))
}

/// The latest year AD among those of the first `n` events that answer the
/// query; none if none answers it.
pub open spec fn latest_match(events: Seq<EventView>, q: TimeQueryView, n: nat) -> Option<u16>
    decreases n,
{
    if n == 0 || n > events.len() {
        None
    } else {
        let r = latest_match(events, q, (n - 1) as nat);
        let e = events[n - 1];
        if e.time is Some && query_matches(e.time->0, q) && (r is None || r->0 < event_key(e)) {
            Some(event_key(e))
        } else {
            r
        }
    }
}

/// Those of the first `n` events that are not later than the year `max`.
pub open spec fn until(events: Seq<EventView>, max: u16, n: nat) -> Seq<EventView>
    decreases n,
{
    if n == 0 || n > events.len() {
        Seq::empty()
    } else {
        let r = until(events, max, (n - 1) as nat);
        if event_key(events[n - 1]) <= max {
            r.push(events[n - 1])
        } else {
            r
        }
    }
}

/// The label of the time of an event: regime, era, year, and the year AD.
pub open spec fn as_of_label(e: EventView) -> Seq<char> {
    match e.time {
        Some(t) => time_text(t) + " (AD"@ + decimal_text(event_key(e) as nat) + ")"@,
        None => Seq::empty(),
    }
}

/// Where an event places its person: at the place that the event itself
/// names, with the new title as role; else at the first place of its
/// context. The status is filled in at the end.
pub open spec fn placed_by(e: EventView) -> Option<PersonLocationView> {
    match structured_place(e.kind) {
        Some(p) => Some(
            PersonLocationView {
                location: p.name,
                role: match e.kind {
                    EventKindView::Appointment { new_title, .. } => Some(new_title),
                    EventKindView::Promotion { new_title, .. } => Some(new_title),
                    _ => None,
                },
                as_of: as_of_label(e),
                as_of_ad: event_key(e),
                status: Seq::empty(),
                context: e.context,
            },
        ),
        None => if e.locations.len() > 0 {
            Some(
                PersonLocationView {
                    location: e.locations[0].name,
                    role: e.locations[0].role_suffix,
                    as_of: as_of_label(e),
                    as_of_ad: event_key(e),
                    status: Seq::empty(),
                    context: e.context,
                },
            )
        } else {
            None
        },
    }
}

/// What is known of a person after one more event of that person.
pub open spec fn after_event(prev: Option<PersonState>, e: EventView) -> PersonState {
    PersonState {
        location: match placed_by(e) {
            Some(l) => Some(l),
            None => match prev {
                Some(st) => st.location,
                None => None,
            },
        },
        last_seen: event_key(e),
        dead_at: if e.kind is Death {
            Some(event_key(e))
        } else {
            match prev {
                Some(st) => st.dead_at,
                None => None,
            }
        },
    }
}

/// What is known of a person after the first `n` events.
pub open spec fn state_of(walk: Seq<EventView>, person: Seq<char>, n: nat) -> Option<PersonState>
    decreases n,
{
    if n == 0 || n > walk.len() {
        None
    } else {
        let prev = state_of(walk, person, (n - 1) as nat);
        if person_of(walk[n - 1].kind) == person {
            Some(after_event(prev, walk[n - 1]))
        } else {
            prev
        }
    }
}

/// Where a person who is attested `frequency` times is in the year `max`,
/// if that can be said: the person is attested at least twice, has not
/// died, was placed somewhere, and was seen within the last thirty years.
pub open spec fn located_with(
    walk: Seq<EventView>,
    frequency: nat,
    person: Seq<char>,
    max: u16,
) -> Option<PersonLocationView> {
    match state_of(walk, person, walk.len()) {
        Some(st) => if frequency >= CONFIDENCE_THRESHOLD && !(st.dead_at is Some
            && st.dead_at->0 <= max) && st.location is Some && !(max - st.last_seen
            > STALENESS_THRESHOLD_YEARS) {
            let l = st.location->0;
            Some(
                PersonLocationView {
                    location: l.location,
                    role: l.role,
                    as_of: l.as_of,
                    as_of_ad: l.as_of_ad,
                    status: if l.as_of_ad == max {
                        "current"@
                    } else {
                        "last_known"@
                    },
                    context: l.context,
                },
            )
        } else {
            None
        },
        None => None,
    }
}

/// Where a person is in the year `max`, given the events walked and all
/// events, among which the person must be attested.
pub open spec fn located(
    walk: Seq<EventView>,
    all: Seq<EventView>,
    person: Seq<char>,
    max: u16,
) -> Option<PersonLocationView> {
    located_with(walk, person_frequency(all, person), person, max)
}

/// The first `n` persons with the place of each, where it can be said.
pub open spec fn located_persons(
    persons: Seq<Seq<char>>,
    walk: Seq<EventView>,
    all: Seq<EventView>,
    max: u16,
    n: nat,
) -> Seq<(Seq<char>, PersonLocationView)>
    decreases n,
{
    if n == 0 || n > persons.len() {
        Seq::empty()
    } else {
        let r = located_persons(persons, walk, all, max, (n - 1) as nat);
        match located(walk, all, persons[n - 1], max) {
            Some(l) => r.push((persons[n - 1], l)),
            None => r,
        }
    }
}

/// The events to walk for a query: the timed events in chronological
/// order, up to the latest year that the query matches.
pub open spec fn walk_of(all: Seq<EventView>, max: u16) -> Seq<EventView> {
    let sorted = chronological(timed(all, all.len()));
    until(sorted, max, sorted.len())
}

/// The answer to a locate query: none if no timed event answers the
/// query; else every person of the walk that can be located, as the
/// persons first occur in it.
pub open spec fn locate_of(all: Seq<EventView>, q: TimeQueryView) -> Option<
    Seq<(Seq<char>, PersonLocationView)>,
> {
    let t = timed(all, all.len());
    match latest_match(t, q, t.len()) {
        Some(max) => {
            let walk = walk_of(all, max);
            let persons = distinct(person_names(walk));
            Some(located_persons(persons, walk, all, max, persons.len()))
        },
        None => None,
    }
}

fn key_of(e: &Event) -> (k: u16)
    ensures
        k == event_key(e@),
{
    match &e.time {
        Some(t) => time_sort_key(t),
        None => 0,
    }
}

fn timed_events(events: &Vec<Event>) -> (r: Vec<&Event>)
    ensures
        r.deep_view() == timed(events.deep_view(), events.len() as nat),
{
    let mut r: Vec<&Event> = Vec::new();
    let ghost ev = events.deep_view();
    let mut i: usize = 0;
    while i < events.len()
        invariant
            i <= events.len(),
            ev == events.deep_view(),
            r.deep_view() == timed(ev, i as nat),
        decreases events.len() - i,
    {
        if events[i].time.is_some() {
            r.push(&events[i]);
        }
        i += 1;
    }
    r
}

/// The events in chronological order; events of one year keep their order.
pub fn sort_chronologically<'a>(events: &Vec<&'a Event>) -> (r: Vec<&'a Event>)
    ensures
        r.deep_view() == chronological(events.deep_view()),
{
    let ghost ev = events.deep_view();
    let mut keys: Vec<u64> = Vec::new();
    let mut i: usize = 0;
    while i < events.len()
        invariant
            i <= events.len(),
            keys@.len() == i,
            forall|j: int| 0 <= j < i ==> keys@[j] == event_key(events@[j]@) as u64,
        decreases events.len() - i,
    {
        keys.push(key_of(events[i]) as u64);
        i += 1;
    }
    assert(keys@ =~= event_keys(ev));
    let perm = stable_order(&keys);
    let mut r: Vec<&Event> = Vec::new();
    let mut i: usize = 0;
    while i < perm.len()
        invariant
            i <= perm.len(),
            perm@.len() == events@.len(),
            forall|j: int| 0 <= j < perm@.len() ==> (#[trigger] perm@[j]) < events@.len(),
            r@.len() == i,
            forall|j: int| 0 <= j < i ==> (#[trigger] r@[j])@ == events@[perm@[j] as int]@,
        decreases perm.len() - i,
    {
        r.push(events[perm[i]]);
        i += 1;
    }
    r
}

/// The latest year AD among the events that answer the query.
pub fn latest_matching_year(events: &Vec<&Event>, q: &TimeQuery) -> (r: Option<u16>)
    ensures
        r == latest_match(events.deep_view(), q@, events.len() as nat),
{
    let ghost ev = events.deep_view();
    let mut r: Option<u16> = None;
    let mut i: usize = 0;
    while i < events.len()
        invariant
            i <= events.len(),
            ev == events.deep_view(),
            r == latest_match(ev, q@, i as nat),
        decreases events.len() - i,
    {
        let e = events[i];
        match &e.time {
            Some(t) => {
                if time_matches_query(t, q) {
                    let k = time_sort_key(t);
                    let later = match r {
                        None => true,
                        Some(m) => m < k,
                    };
                    if later {
                        r = Some(k);
                    }
                }
            },
            None => {},
        }
        i += 1;
    }
    r
}

fn events_until<'a>(events: &Vec<&'a Event>, max: u16) -> (r: Vec<&'a Event>)
    ensures
        r.deep_view() == until(events.deep_view(), max, events.len() as nat),
{
    let ghost ev = events.deep_view();
    let mut r: Vec<&Event> = Vec::new();
    let mut i: usize = 0;
    while i < events.len()
        invariant
            i <= events.len(),
            ev == events.deep_view(),
            r.deep_view() == until(ev, max, i as nat),
        decreases events.len() - i,
    {
        if key_of(events[i]) <= max {
            r.push(events[i]);
        }
        i += 1;
    }
    r
}

fn as_of(e: &Event) -> (s: String)
    ensures
        s@ == as_of_label(e@),
{
    match &e.time {
        Some(t) => {
            let mut s = time_string(t);
            s.append(" (AD");
            s.append(decimal_string(time_sort_key(t) as u64).as_str());
            s.append(")");
            s
        },
        None => String::new(),
    }
}

/// Where an event places its person.
pub fn place_by(e: &Event) -> (r: Option<PersonLocation>)
    ensures
        r.deep_view() == placed_by(e@),
{
    match e.place() {
        Some(p) => {
            let role = match &e.kind {
                EventKind::Appointment { new_title, .. } => Some(new_title.clone()),
                EventKind::Promotion { new_title, .. } => Some(new_title.clone()),
                _ => None,
            };
            Some(
                PersonLocation {
                    location: p.name.clone(),
                    role,
                    as_of: as_of(e),
                    as_of_ad: key_of(e),
                    status: String::new(),
                    context: e.context.clone(),
                },
            )
        },
        None => {
            if e.locations.len() > 0 {
                let l = &e.locations[0];
                Some(
                    PersonLocation {
                        location: l.name.clone(),
                        role: clone_opt(&l.role_suffix),
                        as_of: as_of(e),
                        as_of_ad: key_of(e),
                        status: String::new(),
                        context: e.context.clone(),
                    },
                )
            } else {
                None
            }
        },
    }
}

/// Where a person is in the year `max`, given the events walked and how
/// often the person is attested.
pub fn locate_person(walk: &Vec<&Event>, person: &str, frequency: usize, max: u16) -> (r: Option<
    PersonLocation,
>)
    ensures
        r.deep_view() == located_with(walk.deep_view(), frequency as nat, person@, max),
{
    let ghost wv = walk.deep_view();
    let mut seen = false;
    let mut location: Option<PersonLocation> = None;
    let mut last_seen: u16 = 0;
    let mut dead_at: Option<u16> = None;
    let mut i: usize = 0;
    while i < walk.len()
        invariant
            i <= walk.len(),
            wv == walk.deep_view(),
            match state_of(wv, person@, i as nat) {
                Some(st) => seen && st.location == location.deep_view() && st.last_seen == last_seen
                    && st.dead_at == dead_at,
                None => !seen && location is None && dead_at is None,
            },
        decreases walk.len() - i,
    {
        let e = walk[i];
        if str_eq(e.person_name(), person) {
            seen = true;
            last_seen = key_of(e);
            match place_by(e) {
                Some(l) => {
                    location = Some(l);
                },
                None => {},
            }
            match &e.kind {
                EventKind::Death { .. } => {
                    dead_at = Some(key_of(e));
                },
                _ => {
                },
            }
        }
        i += 1;
    }
    if !seen || frequency < CONFIDENCE_THRESHOLD {
        return None;
    }
    match dead_at {
        Some(d) => {
            if d <= max {
                return None;
            }
        },
        None => {},
    }
    if is_stale(last_seen, max) {
        return None;
    }
    match location {
        Some(l) => {
            let status = if l.as_of_ad == max {
                String::from_str("current")
            } else {
                String::from_str("last_known")
            };
            Some(
                PersonLocation {
                    location: l.location,
                    role: l.role,
                    as_of: l.as_of,
                    as_of_ad: l.as_of_ad,
                    status,
                    context: l.context,
                },
            )
        },
        None => None,
    }
}

/// Answers a locate query over all events, high-confidence and
/// unstructured alike.
pub fn locate(all_events: &Vec<Event>, q: &TimeQuery) -> (r: Option<Vec<(String, PersonLocation)>>)
    ensures
        r.deep_view() == locate_of(all_events.deep_view(), q@),
{
    let ghost all = all_events.deep_view();
    let all_persons = persons_of(all_events);
    let counts = tally_words(&all_persons);
    let t = timed_events(all_events);
    let max = match latest_matching_year(&t, q) {
        Some(m) => m,
        None => {
            return None;
        },
    };
    let sorted = sort_chronologically(&t);
    let walk = events_until(&sorted, max);
    let ghost wv = walk.deep_view();
    let mut walk_persons: Vec<String> = Vec::new();
    let mut i: usize = 0;
    while i < walk.len()
        invariant
            i <= walk.len(),
            walk_persons@.len() == i,
            forall|j: int| 0 <= j < i ==> walk_persons@[j]@ == person_of(walk@[j]@.kind),
        decreases walk.len() - i,
    {
        walk_persons.push(String::from_str(walk[i].person_name()));
        i += 1;
    }
    assert(walk_persons.deep_view() =~= person_names(wv));
    let persons = distinct_words(&walk_persons);
    let ghost pv = persons.deep_view();
    let mut out: Vec<(String, PersonLocation)> = Vec::new();
    let mut i: usize = 0;
    while i < persons.len()
        invariant
            i <= persons.len(),
            pv == persons.deep_view(),
            wv == walk.deep_view(),
            all == all_events.deep_view(),
            person_names(all).len() <= usize::MAX,
            counts.deep_view() == tally(person_names(all)),
            out.deep_view() == located_persons(pv, wv, all, max, i as nat),
        decreases persons.len() - i,
    {
        proof {
            lemma_counted_tally(person_names(all), persons@[i as int]@);
        }
        let frequency = lookup(&counts, persons[i].as_str());
        match locate_person(&walk, persons[i].as_str(), frequency, max) {
            Some(l) => {
                out.push((persons[i].clone(), l));
            },
            None => {},
        }
        i += 1;
    }
    Some(out)
}

} // verus!
