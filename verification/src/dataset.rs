//! The emitted datasets as a reader of them sees them, and what a display
//! of them computes: totals, labels, and the choice of names for a cloud.

use crate::event::{kind_label, person_of, structured_place, EventView, EventsOutput};
use crate::order::{arrange, stable_order, stable_perm};
use crate::person::similarity;
use crate::tally::{by_count, first_n, sort_by_count, tally, tally_words};
use crate::text::{chars_of, contains, has_substring, str_eq};
use crate::words::{distinct, distinct_words};
use vstd::prelude::*;
use vstd::string::*;
use vstd::utf8::*;

verus! {

/// What a reader keeps of an event.
#[derive(Debug)]
pub struct EventData {
    pub person_name: String,
    pub time: Option<String>,
    pub place: Option<String>,
    pub context: String,
    pub source_file: String,
    pub byte_offset: usize,
    pub ad_year: Option<i32>,
}

/// An event, by kind.
#[derive(Debug)]
pub enum Event {
    Appointment(EventData),
    Promotion(EventData),
    Accession(EventData),
    Battle(EventData),
    Death(EventData),
}

/// The data of an event, whatever its kind.
pub open spec fn data_of(e: Event) -> EventData {
    match e {
        Event::Appointment(d) => d,
        Event::Promotion(d) => d,
        Event::Accession(d) => d,
        Event::Battle(d) => d,
        Event::Death(d) => d,
    }
}

/// The name of the kind of an event.
pub open spec fn kind_name_of(e: Event) -> Seq<char> {
    match e {
        Event::Appointment(_) => "Appointment"@,
        Event::Promotion(_) => "Promotion"@,
        Event::Accession(_) => "Accession"@,
        Event::Battle(_) => "Battle"@,
        Event::Death(_) => "Death"@,
    }
}

/// The Chinese label of the kind of an event.
pub open spec fn kind_label_of(e: Event) -> Seq<char> {
    match e {
        Event::Appointment(_) => "任命"@,
        Event::Promotion(_) => "晋升"@,
        Event::Accession(_) => "即位"@,
        Event::Battle(_) => "战役"@,
        Event::Death(_) => "薨卒"@,
    }
}

impl Event {
    /// The data of this event.
    pub fn data(&self) -> (d: &EventData)
        ensures
            *d == data_of(*self),
    {
        match self {
            Event::Appointment(d) => d,
            Event::Promotion(d) => d,
            Event::Accession(d) => d,
            Event::Battle(d) => d,
            Event::Death(d) => d,
        }
    }

    /// The name of the kind of this event.
    pub fn kind_str(&self) -> (r: &'static str)
        ensures
            r@ == kind_name_of(*self),
    {
        match self {
            Event::Appointment(_) => "Appointment",
            Event::Promotion(_) => "Promotion",
            Event::Accession(_) => "Accession",
            Event::Battle(_) => "Battle",
            Event::Death(_) => "Death",
        }
    }

    /// The Chinese label of the kind of this event.
    pub fn kind_zh(&self) -> (r: &'static str)
        ensures
            r@ == kind_label_of(*self),
    {
        match self {
            Event::Appointment(_) => "任命",
            Event::Promotion(_) => "晋升",
            Event::Accession(_) => "即位",
            Event::Battle(_) => "战役",
            Event::Death(_) => "薨卒",
        }
    }
}

/// The events of a corpus as a reader keeps them.
#[derive(Debug)]
pub struct EventsJson {
    pub high_confidence: Vec<Event>,
    pub unstructured: Vec<Event>,
}

/// One year of an era.
#[derive(Debug)]
pub struct EraTimePoint {
    pub era: String,
    pub year: u32,
    pub occurrence_count: usize,
    pub files: Vec<String>,
}

/// The years of an era.
#[derive(Debug)]
pub struct EraTimeline {
    pub era: String,
    pub years: Vec<EraTimePoint>,
}

/// The sum of the occurrence counts of the first `n` years.
pub open spec fn occurrences_sum(years: Seq<EraTimePoint>, n: nat) -> nat
    decreases n,
{
    if n == 0 || n > years.len() {
        0
    } else {
        occurrences_sum(years, (n - 1) as nat) + years[n - 1].occurrence_count as nat
    }
}

proof fn lemma_occurrences_sum_grows(years: Seq<EraTimePoint>, a: nat, b: nat)
    requires
        a <= b <= years.len(),
    ensures
        occurrences_sum(years, a) <= occurrences_sum(years, b),
    decreases b - a,
{
    if a < b {
        lemma_occurrences_sum_grows(years, a, (b - 1) as nat);
    }
}

impl EraTimeline {
    /// The number of occurrences of all years of the era together.
    pub fn total_occurrences(&self) -> (total: usize)
        requires
            occurrences_sum(self.years@, self.years@.len()) <= usize::MAX,
        ensures
            total == occurrences_sum(self.years@, self.years@.len()),
    {
        let mut total: usize = 0;
        let mut i: usize = 0;
        while i < self.years.len()
            invariant
                i <= self.years.len(),
                total == occurrences_sum(self.years@, i as nat),
                occurrences_sum(self.years@, self.years@.len()) <= usize::MAX,
            decreases self.years.len() - i,
        {
            proof {
                lemma_occurrences_sum_grows(self.years@, (i + 1) as nat, self.years@.len());
            }
            total = total + self.years[i].occurrence_count;
            i += 1;
        }
        total
    }
}

/// The eras of a regime.
#[derive(Debug)]
pub struct RegimeTimeline {
    pub regime: String,
    pub eras: Vec<EraTimeline>,
}

/// The timeline as a reader keeps it.
#[derive(Debug)]
pub struct TimelineData {
    pub regimes: Vec<RegimeTimeline>,
    pub total_time_points: usize,
}

/// The statistics as a reader keeps them.
#[derive(Debug)]
pub struct EventStats {
    pub total_events: usize,
    pub appointments: usize,
    pub promotions: usize,
    pub accessions: usize,
    pub battles: usize,
    pub deaths: usize,
    pub unique_time_refs: usize,
    pub unique_places: usize,
    pub top_places: Vec<(String, usize)>,
    pub era_distribution: Vec<(String, usize)>,
}

/// The timeline dataset as a reader keeps it.
#[derive(Debug)]
pub struct TimelineJson {
    pub timeline: TimelineData,
    pub stats: EventStats,
}

/// How many characters of `query` occur in `candidate`.
pub fn name_similarity(candidate: &str, query: &str) -> (n: usize)
    ensures
        n == similarity(query@, candidate@),
{
    crate::person::shared_characters(query, candidate)
}

/// Every event of a dataset: the high-confidence ones, then the rest.
pub fn all_events(out: &EventsOutput) -> (r: Vec<&crate::event::Event>)
    ensures
        r.deep_view() == out.events.deep_view() + out.unstructured_events.deep_view(),
{
    let mut r: Vec<&crate::event::Event> = Vec::new();
    let mut i: usize = 0;
    while i < out.events.len()
        invariant
            i <= out.events.len(),
            r@.len() == i,
            forall|j: int| 0 <= j < i ==> (#[trigger] r@[j])@ == out.events@[j]@,
        decreases out.events.len() - i,
    {
        r.push(&out.events[i]);
        i += 1;
    }
    let n = out.events.len();
    let mut i: usize = 0;
    while i < out.unstructured_events.len()
        invariant
            i <= out.unstructured_events.len(),
            n == out.events.len(),
            r@.len() == n + i,
            forall|j: int| 0 <= j < n ==> (#[trigger] r@[j])@ == out.events@[j]@,
            forall|j: int|
                n <= j < n + i ==> (#[trigger] r@[j])@ == out.unstructured_events@[j - n]@,
        decreases out.unstructured_events.len() - i,
    {
        r.push(&out.unstructured_events[i]);
        i += 1;
    }
    r
}

/// The hash of a sequence of bytes: from 0, each byte is added to 131
/// times the hash so far, in arithmetic modulo 2^64.
pub open spec fn hash_of(bytes: Seq<u8>) -> u64
    decreases bytes.len(),
{
    if bytes.len() == 0 {
        0
    } else {
        ((hash_of(bytes.drop_last()) * 131 + bytes.last()) % 0x1_0000_0000_0000_0000) as u64
    }
}

/// The hash of the bytes of a text.
pub fn seeded_hash(seed: &str) -> (h: u64)
    ensures
        h == hash_of(encode_utf8(seed@)),
{
    let bytes = seed.as_bytes();
    let mut h: u64 = 0;
    let mut i: usize = 0;
    while i < bytes.len()
        invariant
            i <= bytes.len(),
            h == hash_of(bytes@.take(i as int)),
        decreases bytes.len() - i,
    {
        proof {
            assert(bytes@.take(i + 1).drop_last() =~= bytes@.take(i as int));
        }
        h = h.wrapping_mul(131).wrapping_add(bytes[i] as u64);
        i += 1;
    }
    assert(bytes@.take(bytes@.len() as int) =~= bytes@);
    h
}

/// Whether a label is among the third of all labels that a cloud shows.
pub fn pseudo_pick(seed: &str) -> (r: bool)
    ensures
        r == (hash_of(encode_utf8(seed@)) % 3 == 0),
{
    seeded_hash(seed) % 3 == 0
}

/// Number of the most frequent labels among which a cloud chooses.
pub const CLOUD_POOL: usize = 180;

/// Number of labels that a cloud shows at most.
pub const CLOUD_SIZE: usize = 48;

/// The labels of the first `n` events: the person of each and, where the
/// event itself names a place, the place.
pub open spec fn cloud_words(events: Seq<EventView>, n: nat) -> Seq<Seq<char>>
    decreases n,
{
    if n == 0 || n > events.len() {
        Seq::empty()
    } else {
        let r = cloud_words(events, (n - 1) as nat).push(person_of(events[n - 1].kind));
        match structured_place(events[n - 1].kind) {
            Some(p) => r.push(p.name),
            None => r,
        }
    }
}

/// Those of the first `n` counted labels that are picked.
pub open spec fn picked(counts: Seq<(Seq<char>, usize)>, n: nat) -> Seq<(Seq<char>, usize)>
    decreases n,
{
    if n == 0 || n > counts.len() {
        Seq::empty()
    } else {
        let r = picked(counts, (n - 1) as nat);
        if hash_of(encode_utf8(counts[n - 1].0)) % 3 == 0 {
            r.push(counts[n - 1])
        } else {
            r
        }
    }
}

/// The labels of a cloud with their counts: of the 180 most frequent
/// labels those that are picked, 48 at most.
pub open spec fn cloud_of(events: Seq<EventView>) -> Seq<(Seq<char>, usize)> {
    let pool = first_n(by_count(tally(cloud_words(events, events.len()))), CLOUD_POOL as nat);
    first_n(picked(pool, pool.len()), CLOUD_SIZE as nat)
}

proof fn lemma_picked_grows(counts: Seq<(Seq<char>, usize)>, a: nat, b: nat)
    requires
        a <= b <= counts.len(),
    ensures
        picked(counts, a).len() <= picked(counts, b).len(),
        picked(counts, b).take(picked(counts, a).len() as int) =~= picked(counts, a),
    decreases b - a,
{
    if a < b {
        lemma_picked_grows(counts, a, (b - 1) as nat);
    }
}

/// Chooses the labels of a cloud among the persons and places of the
/// events.
pub fn cloud_labels(events: &Vec<crate::event::Event>) -> (r: Vec<(String, usize)>)
    ensures
        r.deep_view() == cloud_of(events.deep_view()),
{
    let words = labels_of(events);
    let sorted = sort_by_count(&tally_words(&words));
    let ghost pool = first_n(sorted.deep_view(), CLOUD_POOL as nat);
    let limit: usize = if sorted.len() < CLOUD_POOL { sorted.len() } else { CLOUD_POOL };
    let mut r: Vec<(String, usize)> = Vec::new();
    let mut i: usize = 0;
    while i < limit && r.len() < CLOUD_SIZE
        invariant
            i <= limit <= sorted.len(),
            limit == pool.len(),
            forall|j: int| 0 <= j < limit ==> pool[j] == sorted.deep_view()[j],
            r.deep_view() == picked(pool, i as nat),
            r@.len() <= CLOUD_SIZE,
        decreases limit - i,
    {
        if pseudo_pick(sorted[i].0.as_str()) {
            r.push((sorted[i].0.clone(), sorted[i].1));
        }
        i += 1;
    }
    proof {
        lemma_picked_grows(pool, i as nat, pool.len());
    }
    r
}

/// The count against which the labels of a cloud are scaled: that of the
/// most frequent label, 1 where there is no label.
pub open spec fn cloud_scale_of(events: Seq<EventView>) -> usize {
    let counts = by_count(tally(cloud_words(events, events.len())));
    if counts.len() > 0 {
        counts[0].1
    } else {
        1
    }
}

fn labels_of(events: &Vec<crate::event::Event>) -> (words: Vec<String>)
    ensures
        words.deep_view() == cloud_words(events.deep_view(), events.len() as nat),
{
    let ghost ev = events.deep_view();
    let mut words: Vec<String> = Vec::new();
    let mut i: usize = 0;
    while i < events.len()
        invariant
            i <= events.len(),
            ev == events.deep_view(),
            words.deep_view() == cloud_words(ev, i as nat),
        decreases events.len() - i,
    {
        let e = &events[i];
        words.push(String::from_str(e.person_name()));
        match e.place() {
            Some(p) => {
                words.push(p.name.clone());
            },
            None => {},
        }
        i += 1;
    }
    words
}

/// The count of the most frequent label among the persons and places of
/// the events.
pub fn cloud_scale(events: &Vec<crate::event::Event>) -> (r: usize)
    ensures
        r == cloud_scale_of(events.deep_view()),
{
    let counts = sort_by_count(&tally_words(&labels_of(events)));
    if counts.len() > 0 {
        counts[0].1
    } else {
        1
    }
}

/// The colour of the `i`-th label of a cloud, as a hue in degrees.
pub fn cloud_hue(i: usize) -> (hue: u16)
    ensures
        hue == 182 + (i * 17) % 96,
{
    let step: u128 = (i as u128 * 17) % 96;
    182 + step as u16
}

/// The number from which the place of the `i`-th label of a cloud is
/// derived: the hash of the label plus `count * 17 + i`, modulo 2^64.
pub fn cloud_seed(label: &str, count: usize, i: usize) -> (h: u64)
    ensures
        h == ((hash_of(encode_utf8(label@)) + (count * 17 + i) % 0x1_0000_0000_0000_0000)
            % 0x1_0000_0000_0000_0000) as u64,
{
    let offset: u128 = (count as u128 * 17 + i as u128) % 0x1_0000_0000_0000_0000;
    seeded_hash(label).wrapping_add(offset as u64)
}

/// What a reader asks of the events: parts of the names of a person and a
/// place, a part of the written time, bounds on the year of the era, and
/// a kind.
#[derive(Debug)]
pub struct EventFilter {
    pub person: String,
    pub place: String,
    pub era: String,
    pub year_from: Option<i32>,
    pub year_to: Option<i32>,
    /// `all`, or the Chinese label of a kind.
    pub kind: String,
}

pub struct EventFilterView {
    pub person: Seq<char>,
    pub place: Seq<char>,
    pub era: Seq<char>,
    pub year_from: Option<i32>,
    pub year_to: Option<i32>,
    pub kind: Seq<char>,
}

impl View for EventFilter {
    type V = EventFilterView;

    open spec fn view(&self) -> EventFilterView {
        EventFilterView {
            person: self.person@,
            place: self.place@,
            era: self.era@,
            year_from: self.year_from,
            year_to: self.year_to,
            kind: self.kind@,
        }
    }
}

/// The low eight bits of a number.
pub open spec fn low_byte(n: i32) -> u8 {
    (n % 256) as u8
}

/// Whether the year of an event lies within the bounds; a bound counts
/// with its low eight bits. Without bounds every event passes; with
/// bounds only events that have a time.
pub open spec fn year_within(e: EventView, from: Option<i32>, to: Option<i32>) -> bool {
    match (from, to, e.time) {
        (Some(f), Some(t), Some(tm)) => low_byte(f) <= tm.year <= low_byte(t),
        (Some(f), None, Some(tm)) => low_byte(f) <= tm.year,
        (None, Some(t), Some(tm)) => tm.year <= low_byte(t),
        (None, None, _) => true,
        _ => false,
    }
}

/// Whether an event passes a filter: its kind is asked for and, where
/// anything else is asked, its person and place have the parts asked for
/// and its written time has the part asked for or its year is within the
/// bounds.
pub open spec fn passes(e: EventView, f: EventFilterView) -> bool {
    let person_ok = f.person.len() == 0 || has_substring(person_of(e.kind), f.person);
    let place_ok = f.place.len() == 0 || (structured_place(e.kind) is Some && has_substring(
        structured_place(e.kind)->0.name,
        f.place,
    ));
    let era_ok = f.era.len() == 0 || (e.time is Some && has_substring(e.time->0.raw, f.era));
    let asked = f.era.len() > 0 || f.year_from is Some || f.year_to is Some || f.person.len() > 0
        || f.place.len() > 0;
    let kind_ok = f.kind == "all"@ || f.kind == kind_label(e.kind);
    (!asked || (person_ok && place_ok && (era_ok || year_within(e, f.year_from, f.year_to))))
        && kind_ok
}

/// The year of the era of an event, 255 for an event without time.
pub open spec fn era_year_key(e: EventView) -> u8 {
    match e.time {
        Some(t) => t.year,
        None => 255,
    }
}

/// The keys by which events are shown in the order of their years.
pub open spec fn era_year_keys(events: Seq<EventView>) -> Seq<u64> {
    Seq::new(events.len(), |i: int| era_year_key(events[i]) as u64)
}

/// Those of the first `n` events that pass the filter.
pub open spec fn passing(events: Seq<EventView>, f: EventFilterView, n: nat) -> Seq<EventView>
    decreases n,
{
    if n == 0 || n > events.len() {
        Seq::empty()
    } else {
        let r = passing(events, f, (n - 1) as nat);
        if passes(events[n - 1], f) {
            r.push(events[n - 1])
        } else {
            r
        }
    }
}

/// The events that pass a filter, by the year of the era, events without
/// time last; events of the same year keep their order.
pub open spec fn filtered_events(events: Seq<EventView>, f: EventFilterView) -> Seq<EventView> {
    let p = passing(events, f, events.len());
    arrange(p, stable_perm(era_year_keys(p)))
}

fn low_byte_of(n: i32) -> (b: u8)
    ensures
        b == low_byte(n),
{
    if n >= 0 {
        (n % 256) as u8
    } else {
        let r: i32 = (-(n + 1)) % 256;
        (255 - r) as u8
    }
}

/// Whether an event passes a filter.
pub fn event_passes(e: &crate::event::Event, f: &EventFilter) -> (r: bool)
    ensures
        r == passes(e@, f@),
{
    let person = chars_of(f.person.as_str());
    let place = chars_of(f.place.as_str());
    let era = chars_of(f.era.as_str());
    let kind_ok = str_eq(f.kind.as_str(), "all") || str_eq(f.kind.as_str(), e.kind_zh());
    if !kind_ok {
        return false;
    }
    let asked = era.len() > 0 || f.year_from.is_some() || f.year_to.is_some() || person.len() > 0
        || place.len() > 0;
    if !asked {
        return true;
    }
    let person_ok = person.len() == 0 || contains(&chars_of(e.person_name()), &person);
    if !person_ok {
        return false;
    }
    let place_ok = place.len() == 0 || match e.place() {
        Some(p) => contains(&chars_of(p.name.as_str()), &place),
        None => false,
    };
    if !place_ok {
        return false;
    }
    let era_ok = era.len() == 0 || match &e.time {
        Some(t) => contains(&chars_of(t.raw.as_str()), &era),
        None => false,
    };
    if era_ok {
        return true;
    }
    match (f.year_from, f.year_to, &e.time) {
        (Some(from), Some(to), Some(tm)) => low_byte_of(from) <= tm.year && tm.year <= low_byte_of(
            to,
        ),
        (Some(from), None, Some(tm)) => low_byte_of(from) <= tm.year,
        (None, Some(to), Some(tm)) => tm.year <= low_byte_of(to),
        (None, None, _) => true,
        _ => false,
    }
}

/// The events in the order of the years of their eras, events without time
/// last.
pub fn sort_by_era_year<'a>(events: &Vec<&'a crate::event::Event>) -> (r: Vec<&'a crate::event::Event>)
    ensures
        r.deep_view() == arrange(events.deep_view(), stable_perm(era_year_keys(events.deep_view()))),
{
    let ghost ev = events.deep_view();
    let mut keys: Vec<u64> = Vec::new();
    let mut i: usize = 0;
    while i < events.len()
        invariant
            i <= events.len(),
            keys@.len() == i,
            forall|j: int| 0 <= j < i ==> keys@[j] == era_year_key(events@[j]@) as u64,
        decreases events.len() - i,
    {
        let k: u8 = match &events[i].time {
            Some(t) => t.year,
            None => 255,
        };
        keys.push(k as u64);
        i += 1;
    }
    assert(keys@ =~= era_year_keys(ev));
    let perm = stable_order(&keys);
    let mut r: Vec<&'a crate::event::Event> = Vec::new();
    let mut i: usize = 0;
    while i < perm.len()
        invariant
            i <= perm.len(),
            perm@.len() == events@.len(),
            forall|j: int| 0 <= j < perm@.len() ==> (#[trigger] perm@[j]) < events@.len(),
            r@.len() == i,
            forall|j: int| 0 <= j < i ==> (#[trigger] r@[j])@ == events@[perm@[j] as int]@,
        decreases perm.len() - i,
    {
        r.push(events[perm[i]]);
        i += 1;
    }
    r
}

/// The events that pass a filter, in the order of the years of their eras.
pub fn filter_events<'a>(events: &Vec<&'a crate::event::Event>, f: &EventFilter) -> (r: Vec<
    &'a crate::event::Event,
>)
    ensures
        r.deep_view() == filtered_events(events.deep_view(), f@),
{
    let ghost ev = events.deep_view();
    let mut kept: Vec<&'a crate::event::Event> = Vec::new();
    let mut i: usize = 0;
    while i < events.len()
        invariant
            i <= events.len(),
            ev == events.deep_view(),
            kept.deep_view() == passing(ev, f@, i as nat),
        decreases events.len() - i,
    {
        if event_passes(events[i], f) {
            kept.push(events[i]);
        }
        i += 1;
    }
    sort_by_era_year(&kept)
}

/// The keys that put the names first that have more of the characters of
/// the query.
pub open spec fn likeness_keys(names: Seq<Seq<char>>, query: Seq<char>) -> Seq<u64> {
    Seq::new(names.len(), |i: int| (u64::MAX - similarity(query, names[i]) as u64) as u64)
}

/// Those of the first `n` names that have a character of the query.
pub open spec fn alike(names: Seq<Seq<char>>, query: Seq<char>, n: nat) -> Seq<Seq<char>>
    decreases n,
{
    if n == 0 || n > names.len() {
        Seq::empty()
    } else {
        let r = alike(names, query, (n - 1) as nat);
        if similarity(query, names[n - 1]) > 0 {
            r.push(names[n - 1])
        } else {
            r
        }
    }
}

/// The names to offer for a query that no person answers: of the distinct
/// names those that have a character of the query, the more of its
/// characters the earlier, eight at most.
pub open spec fn similar_names(names: Seq<Seq<char>>, query: Seq<char>) -> Seq<Seq<char>> {
    let d = distinct(names);
    let sorted = arrange(d, stable_perm(likeness_keys(d, query)));
    first_n(alike(sorted, query, sorted.len()), crate::person::SUGGESTIONS as nat)
}

proof fn lemma_alike_grows(names: Seq<Seq<char>>, query: Seq<char>, a: nat, b: nat)
    requires
        a <= b <= names.len(),
    ensures
        alike(names, query, a).len() <= alike(names, query, b).len(),
        alike(names, query, b).take(alike(names, query, a).len() as int) =~= alike(names, query, a),
    decreases b - a,
{
    if a < b {
        lemma_alike_grows(names, query, a, (b - 1) as nat);
    }
}

/// The names that resemble a query, for a query that no person answers.
pub fn suggest_similar(names: &Vec<String>, query: &str) -> (r: Vec<String>)
    ensures
        r.deep_view() == similar_names(names.deep_view(), query@),
{
    let d = distinct_words(names);
    let ghost dv = d.deep_view();
    let mut keys: Vec<u64> = Vec::new();
    let mut i: usize = 0;
    while i < d.len()
        invariant
            i <= d.len(),
            keys@.len() == i,
            forall|j: int| 0 <= j < i ==> keys@[j] == (u64::MAX - similarity(query@, d@[j]@) as u64) as u64,
        decreases d.len() - i,
    {
        keys.push(u64::MAX - name_similarity(d[i].as_str(), query) as u64);
        i += 1;
    }
    assert(keys@ =~= likeness_keys(dv, query@));
    let perm = stable_order(&keys);
    let ghost sorted = arrange(dv, perm@);
    let mut r: Vec<String> = Vec::new();
    let mut i: usize = 0;
    while i < perm.len() && r.len() < crate::person::SUGGESTIONS
        invariant
            i <= perm.len(),
            perm@.len() == d@.len(),
            dv == d.deep_view(),
            sorted == arrange(dv, perm@),
            forall|j: int| 0 <= j < perm@.len() ==> (#[trigger] perm@[j]) < d@.len(),
            r.deep_view() == alike(sorted, query@, i as nat),
            r@.len() <= crate::person::SUGGESTIONS,
        decreases perm.len() - i,
    {
        let name = &d[perm[i]];
        if name_similarity(name.as_str(), query) > 0 {
            r.push(name.clone());
        }
        i += 1;
    }
    proof {
        lemma_alike_grows(sorted, query@, i as nat, sorted.len());
    }
    r
}

} // verus!
