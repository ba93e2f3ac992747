//! Time references, places and events as they are extracted from the text.

use crate::types::clone_opt;
use vstd::prelude::*;

verus! {

/// A half-open byte range of a source file.
#[derive(Debug)]
pub struct TextSpan {
    pub file: String,
    pub byte_start: usize,
    pub byte_end: usize,
}

pub struct TextSpanView {
    pub file: Seq<char>,
    pub byte_start: usize,
    pub byte_end: usize,
}

impl View for TextSpan {
    type V = TextSpanView;

    open spec fn view(&self) -> TextSpanView {
        TextSpanView { file: self.file@, byte_start: self.byte_start, byte_end: self.byte_end }
    }
}

impl DeepView for TextSpan {
    type V = TextSpanView;

    open spec fn deep_view(&self) -> TextSpanView {
        self@
    }
}

impl Clone for TextSpan {
    fn clone(&self) -> (r: Self)
        ensures
            r@ == self@,
    {
        TextSpan { file: self.file.clone(), byte_start: self.byte_start, byte_end: self.byte_end }
    }
}

/// A year of an era of one regime, as written at one place of a file.
#[derive(Debug)]
pub struct TimeRef {
    pub era: String,
    pub regime: String,
    pub year: u8,
    pub month: Option<u8>,
    pub day_ganzhi: Option<String>,
    /// The matched text.
    pub raw: String,
    /// Byte offset of the match in its file.
    pub byte_offset: usize,
}

pub struct TimeRefView {
    pub era: Seq<char>,
    pub regime: Seq<char>,
    pub year: u8,
    pub month: Option<u8>,
    pub day_ganzhi: Option<Seq<char>>,
    pub raw: Seq<char>,
    pub byte_offset: usize,
}

impl View for TimeRef {
    type V = TimeRefView;

    open spec fn view(&self) -> TimeRefView {
        TimeRefView {
            era: self.era@,
            regime: self.regime@,
            year: self.year,
            month: self.month,
            day_ganzhi: self.day_ganzhi.deep_view(),
            raw: self.raw@,
            byte_offset: self.byte_offset,
        }
    }
}

impl DeepView for TimeRef {
    type V = TimeRefView;

    open spec fn deep_view(&self) -> TimeRefView {
        self@
    }
}

impl Clone for TimeRef {
    fn clone(&self) -> (r: Self)
        ensures
            r@ == self@,
    {
        TimeRef {
            era: self.era.clone(),
            regime: self.regime.clone(),
            year: self.year,
            month: self.month,
            day_ganzhi: clone_opt(&self.day_ganzhi),
            raw: self.raw.clone(),
            byte_offset: self.byte_offset,
        }
    }
}

/// The stretch of text that one time reference governs: from the reference
/// to the next one in the same file, or to the end of the file.
#[derive(Debug)]
pub struct TimeScope {
    pub time: TimeRef,
    pub span: TextSpan,
}

pub struct TimeScopeView {
    pub time: TimeRefView,
    pub span: TextSpanView,
}

impl View for TimeScope {
    type V = TimeScopeView;

    open spec fn view(&self) -> TimeScopeView {
        TimeScopeView { time: self.time@, span: self.span@ }
    }
}

impl DeepView for TimeScope {
    type V = TimeScopeView;

    open spec fn deep_view(&self) -> TimeScopeView {
        self@
    }
}

impl Clone for TimeScope {
    fn clone(&self) -> (r: Self)
        ensures
            r@ == self@,
    {
        TimeScope { time: self.time.clone(), span: self.span.clone() }
    }
}

/// A place named in an appointment or a campaign.
#[derive(Debug)]
pub struct PlaceRef {
    pub name: String,
    /// A displaced administration: 南…州.
    pub is_qiao: bool,
    /// 刺史, 太守 or 內史, where the place was read off a title.
    pub role_suffix: Option<String>,
}

pub struct PlaceRefView {
    pub name: Seq<char>,
    pub is_qiao: bool,
    pub role_suffix: Option<Seq<char>>,
}

impl View for PlaceRef {
    type V = PlaceRefView;

    open spec fn view(&self) -> PlaceRefView {
        PlaceRefView {
            name: self.name@,
            is_qiao: self.is_qiao,
            role_suffix: self.role_suffix.deep_view(),
        }
    }
}

impl DeepView for PlaceRef {
    type V = PlaceRefView;

    open spec fn deep_view(&self) -> PlaceRefView {
        self@
    }
}

impl Clone for PlaceRef {
    fn clone(&self) -> (r: Self)
        ensures
            r@ == self@,
    {
        PlaceRef {
            name: self.name.clone(),
            is_qiao: self.is_qiao,
            role_suffix: clone_opt(&self.role_suffix),
        }
    }
}

/// A copy of an optional place.
pub fn clone_place(p: &Option<PlaceRef>) -> (r: Option<PlaceRef>)
    ensures
        r.deep_view() == p.deep_view(),
{
    match p {
        Some(x) => Some(x.clone()),
        None => None,
    }
}

/// A copy of a list of places.
pub fn clone_places(v: &Vec<PlaceRef>) -> (r: Vec<PlaceRef>)
    ensures
        r.deep_view() == v.deep_view(),
{
    let mut r: Vec<PlaceRef> = Vec::new();
    let mut i: usize = 0;
    while i < v.len()
        invariant
            i <= v.len(),
            r@.len() == i,
            forall|j: int| 0 <= j < i ==> r@[j]@ == v@[j]@,
        decreases v.len() - i,
    {
        r.push(v[i].clone());
        i += 1;
    }
    r
}

/// What happened, with the fields that each kind of event has.
#[derive(Debug)]
#[allow(inconsistent_fields)]
pub enum EventKind {
    /// 以X為Y: a person is appointed to a position.
    Appointment { person: String, new_title: String, place: Option<PlaceRef> },
    /// 拜/除/遷/轉/授/徵/封 X 為 Y: transfer, promotion or enfeoffment.
    Promotion { person: String, verb: String, new_title: String, place: Option<PlaceRef> },
    /// X即位/踐祚/繼位: accession to the throne.
    Accession { person: String, verb: String },
    /// X攻/伐/克/陷Y: a military action.
    Battle { person: String, verb: String, target: String, target_place: Option<PlaceRef> },
    /// X薨/卒/崩: a death.
    Death { person: String, verb: String },
}

#[allow(inconsistent_fields)]
pub enum EventKindView {
    Appointment { person: Seq<char>, new_title: Seq<char>, place: Option<PlaceRefView> },
    Promotion {
        person: Seq<char>,
        verb: Seq<char>,
        new_title: Seq<char>,
        place: Option<PlaceRefView>,
    },
    Accession { person: Seq<char>, verb: Seq<char> },
    Battle {
        person: Seq<char>,
        verb: Seq<char>,
        target: Seq<char>,
        target_place: Option<PlaceRefView>,
    },
    Death { person: Seq<char>, verb: Seq<char> },
}

impl View for EventKind {
    type V = EventKindView;

    open spec fn view(&self) -> EventKindView {
        match self {
            EventKind::Appointment { person, new_title, place } => EventKindView::Appointment {
                person: person@,
                new_title: new_title@,
                place: place.deep_view(),
            },
            EventKind::Promotion { person, verb, new_title, place } => EventKindView::Promotion {
                person: person@,
                verb: verb@,
                new_title: new_title@,
                place: place.deep_view(),
            },
            EventKind::Accession { person, verb } => EventKindView::Accession {
                person: person@,
                verb: verb@,
            },
            EventKind::Battle { person, verb, target, target_place } => EventKindView::Battle {
                person: person@,
                verb: verb@,
                target: target@,
                target_place: target_place.deep_view(),
            },
            EventKind::Death { person, verb } => EventKindView::Death {
                person: person@,
                verb: verb@,
            },
        }
    }
}

impl DeepView for EventKind {
    type V = EventKindView;

    open spec fn deep_view(&self) -> EventKindView {
        self@
    }
}

impl Clone for EventKind {
    fn clone(&self) -> (r: Self)
        ensures
            r@ == self@,
    {
        match self {
            EventKind::Appointment { person, new_title, place } => EventKind::Appointment {
                person: person.clone(),
                new_title: new_title.clone(),
                place: clone_place(place),
            },
            EventKind::Promotion { person, verb, new_title, place } => EventKind::Promotion {
                person: person.clone(),
                verb: verb.clone(),
                new_title: new_title.clone(),
                place: clone_place(place),
            },
            EventKind::Accession { person, verb } => EventKind::Accession {
                person: person.clone(),
                verb: verb.clone(),
            },
            EventKind::Battle { person, verb, target, target_place } => EventKind::Battle {
                person: person.clone(),
                verb: verb.clone(),
                target: target.clone(),
                target_place: clone_place(target_place),
            },
            EventKind::Death { person, verb } => EventKind::Death {
                person: person.clone(),
                verb: verb.clone(),
            },
        }
    }
}

/// The person that an event is about.
pub open spec fn person_of(k: EventKindView) -> Seq<char> {
    match k {
        EventKindView::Appointment { person, .. } => person,
        EventKindView::Promotion { person, .. } => person,
        EventKindView::Accession { person, .. } => person,
        EventKindView::Battle { person, .. } => person,
        EventKindView::Death { person, .. } => person,
    }
}

/// The place that the event itself names: the place of the new office, or
/// the place attacked.
pub open spec fn structured_place(k: EventKindView) -> Option<PlaceRefView> {
    match k {
        EventKindView::Appointment { place, .. } => place,
        EventKindView::Promotion { place, .. } => place,
        EventKindView::Battle { target_place, .. } => target_place,
        _ => None,
    }
}

/// The Chinese label of a kind of event.
pub open spec fn kind_label(k: EventKindView) -> Seq<char> {
    match k {
        EventKindView::Appointment { .. } => "任命"@,
        EventKindView::Promotion { .. } => "晋升"@,
        EventKindView::Accession { .. } => "即位"@,
        EventKindView::Battle { .. } => "战役"@,
        EventKindView::Death { .. } => "薨卒"@,
    }
}

/// One extracted event.
#[derive(Debug)]
pub struct Event {
    pub kind: EventKind,
    /// The nearest time reference before the event in its file, if any.
    pub time: Option<TimeRef>,
    pub source_file: String,
    /// Byte offset of the match in its file.
    pub byte_offset: usize,
    /// The text around the match.
    pub context: String,
    /// Every place found in the context.
    pub locations: Vec<PlaceRef>,
}

pub struct EventView {
    pub kind: EventKindView,
    pub time: Option<TimeRefView>,
    pub source_file: Seq<char>,
    pub byte_offset: usize,
    pub context: Seq<char>,
    pub locations: Seq<PlaceRefView>,
}

impl View for Event {
    type V = EventView;

    open spec fn view(&self) -> EventView {
        EventView {
            kind: self.kind@,
            time: self.time.deep_view(),
            source_file: self.source_file@,
            byte_offset: self.byte_offset,
            context: self.context@,
            locations: self.locations.deep_view(),
        }
    }
}

impl DeepView for Event {
    type V = EventView;

    open spec fn deep_view(&self) -> EventView {
        self@
    }
}

impl Clone for Event {
    fn clone(&self) -> (r: Self)
        ensures
            r@ == self@,
    {
        let time = match &self.time {
            Some(t) => Some(t.clone()),
            None => None,
        };
        Event {
            kind: self.kind.clone(),
            time,
            source_file: self.source_file.clone(),
            byte_offset: self.byte_offset,
            context: self.context.clone(),
            locations: clone_places(&self.locations),
        }
    }
}

/// The names of the places of an event: those of the context first, then
/// the place that the event itself names.
pub open spec fn location_names_of(e: EventView) -> Seq<Seq<char>> {
    let names = Seq::new(e.locations.len(), |i: int| e.locations[i].name);
    match structured_place(e.kind) {
        Some(p) => names.push(p.name),
        None => names,
    }
}

impl Event {
    /// The name of the person that this event is about.
    pub fn person_name(&self) -> (r: &str)
        ensures
            r@ == person_of(self@.kind),
    {
        match &self.kind {
            EventKind::Appointment { person, .. } => person.as_str(),
            EventKind::Promotion { person, .. } => person.as_str(),
            EventKind::Accession { person, .. } => person.as_str(),
            EventKind::Battle { person, .. } => person.as_str(),
            EventKind::Death { person, .. } => person.as_str(),
        }
    }

    /// The place that the event itself names, if any.
    pub fn place(&self) -> (r: Option<&PlaceRef>)
        ensures
            r.deep_view() == structured_place(self@.kind),
    {
        match &self.kind {
            EventKind::Appointment { place, .. } => place.as_ref(),
            EventKind::Promotion { place, .. } => place.as_ref(),
            EventKind::Battle { target_place, .. } => target_place.as_ref(),
            _ => None,
        }
    }

    /// The names of all places of this event, context and structure.
    pub fn all_location_names(&self) -> (names: Vec<&str>)
        ensures
            names.deep_view() == location_names_of(self@),
    {
        let mut names: Vec<&str> = Vec::new();
        let mut i: usize = 0;
        while i < self.locations.len()
            invariant
                i <= self.locations.len(),
                names@.len() == i,
                forall|j: int| 0 <= j < i ==> names@[j]@ == self.locations@[j].name@,
            decreases self.locations.len() - i,
        {
            names.push(self.locations[i].name.as_str());
            i += 1;
        }
        match self.place() {
            Some(p) => {
                names.push(p.name.as_str());
            },
            None => {},
        }
        names
    }

    /// The Chinese label of the kind of this event.
    pub fn kind_zh(&self) -> (r: &'static str)
        ensures
            r@ == kind_label(self@.kind),
    {
        match &self.kind {
            EventKind::Appointment { .. } => "任命",
            EventKind::Promotion { .. } => "晋升",
            EventKind::Accession { .. } => "即位",
            EventKind::Battle { .. } => "战役",
            EventKind::Death { .. } => "薨卒",
        }
    }
}

/// The two lists in which events are handed on: those of persons attested
/// at least twice, and the rest.
#[derive(Debug)]
pub struct EventsOutput {
    pub events: Vec<Event>,
    pub unstructured_events: Vec<Event>,
}

} // verus!
