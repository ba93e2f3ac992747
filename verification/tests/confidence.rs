use person_extract::aggregate::{
    aggregate_locations, event_persons, locations_of, persons_of, split_by_confidence,
};
use person_extract::event::{Event, EventKind, PlaceRef, TimeRef};
use person_extract::stats::{decimal_string, event_stats, time_string};

fn place(name: &str, role: Option<&str>) -> PlaceRef {
    PlaceRef { name: name.to_string(), is_qiao: false, role_suffix: role.map(|r| r.to_string()) }
}

fn time(era: &str, year: u8) -> TimeRef {
    TimeRef {
        era: era.to_string(),
        regime: "劉宋".to_string(),
        year,
        month: None,
        day_ganzhi: None,
        raw: String::new(),
        byte_offset: 0,
    }
}

fn event(kind: EventKind, time: Option<TimeRef>, offset: usize, locations: Vec<PlaceRef>) -> Event {
    Event {
        kind,
        time,
        source_file: "f.txt".to_string(),
        byte_offset: offset,
        context: "ctx".to_string(),
        locations,
    }
}

fn appointment(person: &str, title: &str, at: Option<PlaceRef>) -> EventKind {
    EventKind::Appointment { person: person.to_string(), new_title: title.to_string(), place: at }
}

fn death(person: &str) -> EventKind {
    EventKind::Death { person: person.to_string(), verb: "卒".to_string() }
}

fn battle(person: &str, target: &str, at: Option<PlaceRef>) -> EventKind {
    EventKind::Battle {
        person: person.to_string(),
        verb: "攻".to_string(),
        target: target.to_string(),
        target_place: at,
    }
}

fn sample() -> Vec<Event> {
    vec![
        event(
            appointment("王進", "荊州刺史", Some(place("荊州", Some("刺史")))),
            Some(time("元嘉", 3)),
            10,
            vec![place("荊州", Some("刺史")), place("梁州", Some("太守"))],
        ),
        event(death("王進"), None, 20, vec![]),
        event(
            battle("李沖", "建康城", Some(place("建康城", None))),
            Some(time("元嘉", 4)),
            30,
            vec![place("荊州", Some("內史")), place("洛陽", Some("太守"))],
        ),
        event(death("謝安"), None, 40, vec![place("洛陽", Some("太守"))]),
        event(appointment("王進", "太守", Some(place("吳郡", None))), None, 50, vec![]),
    ]
}

#[test]
fn persons_and_places_are_counted_over_all_events() {
    let events = sample();
    assert_eq!(persons_of(&events), vec!["王進", "王進", "李沖", "謝安", "王進"]);
    assert_eq!(
        locations_of(&events),
        vec!["荊州", "梁州", "荊州", "荊州", "洛陽", "建康城", "洛陽", "吳郡"]
    );
    assert_eq!(
        event_persons(&events),
        vec![("王進".to_string(), 3), ("李沖".to_string(), 1), ("謝安".to_string(), 1)]
    );
}

#[test]
fn events_of_attested_persons_keep_their_attested_places() {
    let events = sample();
    let out = split_by_confidence(&events);
    assert_eq!(out.events.len(), 3);
    assert_eq!(out.unstructured_events.len(), 2);
    let first = &out.events[0];
    assert_eq!(first.person_name(), "王進");
    assert_eq!(first.byte_offset, 10);
    let kept: Vec<&str> = first.locations.iter().map(|l| l.name.as_str()).collect();
    assert_eq!(kept, vec!["荊州"]);
    match &first.kind {
        EventKind::Appointment { place, new_title, .. } => {
            assert_eq!(place.as_ref().unwrap().name, "荊州");
            assert_eq!(new_title, "荊州刺史");
        }
        other => panic!("an appointment was expected, not {other:?}"),
    }
    assert_eq!(first.time.as_ref().unwrap().year, 3);
    match &out.events[2].kind {
        EventKind::Appointment { place, .. } => assert!(place.is_none()),
        other => panic!("an appointment was expected, not {other:?}"),
    }
    let rest: Vec<&str> = out.unstructured_events.iter().map(|e| e.person_name()).collect();
    assert_eq!(rest, vec!["李沖", "謝安"]);
    match &out.unstructured_events[0].kind {
        EventKind::Battle { target_place, .. } => {
            assert_eq!(target_place.as_ref().unwrap().name, "建康城")
        }
        other => panic!("a battle was expected, not {other:?}"),
    }
    assert_eq!(out.unstructured_events[0].locations.len(), 2);
}

#[test]
fn every_high_confidence_event_is_attested_twice() {
    let events = sample();
    let persons = persons_of(&events);
    let places = locations_of(&events);
    let out = split_by_confidence(&events);
    for e in &out.events {
        assert!(persons.iter().filter(|p| p.as_str() == e.person_name()).count() >= 2);
        for name in e.all_location_names() {
            assert!(places.iter().filter(|p| p.as_str() == name).count() >= 2);
        }
    }
    for e in &out.unstructured_events {
        assert!(persons.iter().filter(|p| p.as_str() == e.person_name()).count() < 2);
    }
    let none = split_by_confidence(&Vec::new());
    assert!(none.events.is_empty() && none.unstructured_events.is_empty());
}

#[test]
fn places_with_every_occurrence() {
    let entries = aggregate_locations(&sample());
    let shown: Vec<(&str, usize)> =
        entries.iter().map(|e| (e.name.as_str(), e.event_count)).collect();
    assert_eq!(shown, vec![("荊州", 3), ("洛陽", 2), ("梁州", 1), ("建康城", 1), ("吳郡", 1)]);
    let jing = &entries[0];
    assert_eq!(jing.role_suffix.as_deref(), Some("刺史"));
    assert!(!jing.is_qiao);
    let sources: Vec<(usize, Option<&str>)> =
        jing.sources.iter().map(|s| (s.byte_offset, s.time.as_deref())).collect();
    assert_eq!(
        sources,
        vec![(10, Some("劉宋/元嘉3年")), (10, Some("劉宋/元嘉3年")), (30, Some("劉宋/元嘉4年"))]
    );
    assert_eq!(jing.sources[0].source_file, "f.txt");
    assert_eq!(entries[1].sources[1].time, None);
    assert!(aggregate_locations(&Vec::new()).is_empty());
}

#[test]
fn statistics_of_events() {
    let stats = event_stats(&sample());
    assert_eq!(stats.total_events, 5);
    assert_eq!(
        (stats.appointments, stats.promotions, stats.accessions, stats.battles, stats.deaths),
        (2, 0, 0, 1, 2)
    );
    assert_eq!(stats.unique_time_refs, 2);
    assert_eq!(stats.era_distribution, vec![("劉宋/元嘉".to_string(), 2)]);
    assert_eq!(
        stats.top_places,
        vec![("荊州".to_string(), 1), ("建康城".to_string(), 1), ("吳郡".to_string(), 1)]
    );
    assert_eq!(stats.unique_places, 3);
}

#[test]
fn no_more_than_thirty_places_are_listed() {
    let mut events = Vec::new();
    for i in 0..40u8 {
        let name = format!("地{i}州");
        events.push(event(appointment("王進", "刺史", Some(place(&name, None))), None, 0, vec![]));
        if i >= 35 {
            events.push(event(
                appointment("王進", "刺史", Some(place(&name, None))),
                Some(time("元嘉", i)),
                0,
                vec![],
            ));
        }
    }
    let stats = event_stats(&events);
    assert_eq!(stats.top_places.len(), 30);
    assert_eq!(stats.unique_places, 30);
    assert_eq!(stats.top_places[0], ("地35州".to_string(), 2));
    assert_eq!(stats.top_places[4], ("地39州".to_string(), 2));
    assert_eq!(stats.top_places[5], ("地0州".to_string(), 1));
    assert_eq!(stats.unique_time_refs, 5);
}

#[test]
fn numbers_and_times_as_text() {
    assert_eq!(decimal_string(0), "0");
    assert_eq!(decimal_string(7), "7");
    assert_eq!(decimal_string(10), "10");
    assert_eq!(decimal_string(426), "426");
    assert_eq!(decimal_string(u64::MAX), "18446744073709551615");
    assert_eq!(time_string(&time("元嘉", 12)), "劉宋/元嘉12年");
}
