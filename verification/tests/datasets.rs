use person_extract::dataset::{
    all_events, cloud_hue, cloud_labels, cloud_scale, cloud_seed, event_passes, filter_events,
    name_similarity, pseudo_pick, seeded_hash, sort_by_era_year, suggest_similar, EraTimePoint,
    EraTimeline, Event, EventData, EventFilter,
};
use person_extract::event::{EventKind, EventsOutput, PlaceRef, TimeRef};

fn data(person: &str) -> EventData {
    EventData {
        person_name: person.to_string(),
        time: None,
        place: None,
        context: String::new(),
        source_file: String::new(),
        byte_offset: 7,
        ad_year: Some(426),
    }
}

fn death(person: &str) -> person_extract::event::Event {
    person_extract::event::Event {
        kind: EventKind::Death { person: person.to_string(), verb: "卒".to_string() },
        time: None,
        source_file: String::new(),
        byte_offset: 0,
        context: String::new(),
        locations: Vec::new(),
    }
}

fn appointment(person: &str, at: &str) -> person_extract::event::Event {
    person_extract::event::Event {
        kind: EventKind::Appointment {
            person: person.to_string(),
            new_title: String::new(),
            place: Some(PlaceRef { name: at.to_string(), is_qiao: false, role_suffix: None }),
        },
        time: None,
        source_file: String::new(),
        byte_offset: 0,
        context: String::new(),
        locations: vec![PlaceRef { name: "i".to_string(), is_qiao: false, role_suffix: None }],
    }
}

#[test]
fn the_data_and_the_labels_of_an_event() {
    let events = vec![
        Event::Appointment(data("a")),
        Event::Promotion(data("b")),
        Event::Accession(data("c")),
        Event::Battle(data("d")),
        Event::Death(data("e")),
    ];
    let names: Vec<&str> = events.iter().map(|e| e.data().person_name.as_str()).collect();
    assert_eq!(names, vec!["a", "b", "c", "d", "e"]);
    assert_eq!(events[0].data().byte_offset, 7);
    let kinds: Vec<&str> = events.iter().map(|e| e.kind_str()).collect();
    assert_eq!(kinds, vec!["Appointment", "Promotion", "Accession", "Battle", "Death"]);
    let labels: Vec<&str> = events.iter().map(|e| e.kind_zh()).collect();
    assert_eq!(labels, vec!["任命", "晋升", "即位", "战役", "薨卒"]);
}

#[test]
fn the_occurrences_of_an_era_add_up() {
    let point = |year: u32, n: usize| EraTimePoint {
        era: "元嘉".to_string(),
        year,
        occurrence_count: n,
        files: Vec::new(),
    };
    let era =
        EraTimeline { era: "元嘉".to_string(), years: vec![point(1, 3), point(2, 0), point(5, 4)] };
    assert_eq!(era.total_occurrences(), 7);
    let none = EraTimeline { era: "元嘉".to_string(), years: Vec::new() };
    assert_eq!(none.total_occurrences(), 0);
}

#[test]
fn the_hash_of_a_label() {
    assert_eq!(seeded_hash(""), 0);
    assert_eq!(seeded_hash("a"), 97);
    assert_eq!(seeded_hash("ab"), 97 * 131 + 98);
    assert_eq!(seeded_hash("王"), (0xE7 * 131 + 0x8E) * 131 + 0x8B);
    let long = "z".repeat(40);
    let mut expected: u64 = 0;
    for _ in 0..40 {
        expected = expected.wrapping_mul(131).wrapping_add(122);
    }
    assert_eq!(seeded_hash(&long), expected);
    assert!(!pseudo_pick("a"));
    assert!(pseudo_pick("c"));
    assert!(pseudo_pick(""));
    assert_eq!(cloud_hue(0), 182);
    assert_eq!(cloud_hue(6), 188);
    assert_eq!(cloud_hue(5), 182 + 85);
    assert_eq!(cloud_seed("a", 2, 1), 97 + 35);
    assert_eq!(cloud_seed("", usize::MAX, 0), (usize::MAX as u128 * 17 % (1u128 << 64)) as u64);
}

#[test]
fn a_cloud_shows_the_picked_among_the_most_frequent() {
    let events = vec![
        death("a"),
        appointment("c", "f"),
        death("c"),
        appointment("a", "f"),
        appointment("l", "f"),
        death("a"),
    ];
    assert_eq!(
        cloud_labels(&events),
        vec![("f".to_string(), 3), ("c".to_string(), 2), ("l".to_string(), 1)]
    );
    assert!(cloud_labels(&Vec::new()).is_empty());
    let mut many = Vec::new();
    for i in 0..600 {
        many.push(death(&format!("p{i}")));
    }
    let picked = cloud_labels(&many);
    assert_eq!(picked.len(), 48);
    assert!(picked.iter().all(|(label, count)| pseudo_pick(label) && *count == 1));
    let first_picked: Vec<String> =
        (0..180).map(|i| format!("p{i}")).filter(|l| pseudo_pick(l)).take(48).collect();
    let labels: Vec<String> = picked.into_iter().map(|(l, _)| l).collect();
    assert_eq!(labels, first_picked);
}

#[test]
fn all_events_of_a_dataset() {
    let out = EventsOutput {
        events: vec![death("a"), death("b")],
        unstructured_events: vec![death("c")],
    };
    let names: Vec<&str> = all_events(&out).iter().map(|e| e.person_name()).collect();
    assert_eq!(names, vec!["a", "b", "c"]);
    assert_eq!(name_similarity("王進", "王進之"), 2);
    assert_eq!(name_similarity("王進之", "王王"), 2);
    assert_eq!(name_similarity("李沖", "王進"), 0);
}

fn timed(mut e: person_extract::event::Event, raw: &str, year: u8) -> person_extract::event::Event {
    e.time = Some(TimeRef {
        era: String::new(),
        regime: String::new(),
        year,
        month: None,
        day_ganzhi: None,
        raw: raw.to_string(),
        byte_offset: 0,
    });
    e
}

fn filter(person: &str, place: &str, era: &str, from: Option<i32>, to: Option<i32>, kind: &str) -> EventFilter {
    EventFilter {
        person: person.to_string(),
        place: place.to_string(),
        era: era.to_string(),
        year_from: from,
        year_to: to,
        kind: kind.to_string(),
    }
}

#[test]
fn the_scale_of_a_cloud_is_the_largest_count() {
    let events = vec![death("a"), appointment("c", "f"), appointment("a", "f"), appointment("l", "f")];
    assert_eq!(cloud_scale(&events), 3);
    assert_eq!(cloud_scale(&vec![death("a"), death("a")]), 2);
    assert_eq!(cloud_scale(&Vec::new()), 1);
}

#[test]
fn an_event_passes_a_filter() {
    let plain = death("王進");
    let placed = timed(appointment("王猛", "荊州"), "元嘉三年", 3);
    let all = filter("", "", "", None, None, "all");
    assert!(event_passes(&plain, &all));
    assert!(event_passes(&placed, &all));
    assert!(event_passes(&plain, &filter("", "", "", None, None, "薨卒")));
    assert!(!event_passes(&plain, &filter("", "", "", None, None, "任命")));
    assert!(!event_passes(&plain, &filter("", "", "", None, None, "Death")));
    assert!(event_passes(&plain, &filter("進", "", "", None, None, "all")));
    assert!(!event_passes(&plain, &filter("猛", "", "", None, None, "all")));
    assert!(!event_passes(&plain, &filter("", "荊", "", None, None, "all")));
    assert!(event_passes(&placed, &filter("王", "荊", "", None, None, "all")));
    assert!(event_passes(&placed, &filter("", "", "元嘉", Some(200), None, "all")));
    assert!(!event_passes(&placed, &filter("", "", "太和", Some(200), None, "all")));
    assert!(!event_passes(&plain, &filter("", "", "元嘉", Some(200), None, "all")));
    assert!(event_passes(&placed, &filter("", "", "太和", None, None, "all")));
    assert!(event_passes(&plain, &filter("", "", "元嘉", None, None, "all")));
    assert!(event_passes(&placed, &filter("", "", "太和", Some(1), Some(3), "all")));
    assert!(!event_passes(&placed, &filter("", "", "太和", Some(4), None, "all")));
    assert!(event_passes(&placed, &filter("", "", "太和", None, Some(3), "all")));
    assert!(event_passes(&placed, &filter("", "", "太和", Some(259), None, "all")));
    assert!(event_passes(&placed, &filter("", "", "太和", Some(-253), Some(-253), "all")));
    assert!(!event_passes(&plain, &filter("", "", "太和", Some(1), None, "all")));
    assert!(event_passes(&plain, &filter("", "", "", Some(9), None, "all")));
}

#[test]
fn filtered_events_come_in_the_order_of_their_years() {
    let events = vec![
        death("a"),
        timed(death("b"), "元嘉九年", 9),
        timed(death("ab"), "元嘉二年", 2),
        timed(death("c"), "元嘉二年", 2),
        timed(death("ba"), "太和九年", 9),
    ];
    let refs: Vec<&person_extract::event::Event> = events.iter().collect();
    let names = |found: Vec<&person_extract::event::Event>| -> Vec<String> {
        found.iter().map(|e| e.person_name().to_string()).collect()
    };
    assert_eq!(names(sort_by_era_year(&refs)), vec!["ab", "c", "b", "ba", "a"]);
    assert_eq!(names(filter_events(&refs, &filter("b", "", "", None, None, "all"))), vec!["ab", "b", "ba"]);
    assert_eq!(
        names(filter_events(&refs, &filter("", "", "元嘉", Some(200), None, "薨卒"))),
        vec!["ab", "c", "b"]
    );
    assert_eq!(
        names(filter_events(&refs, &filter("", "", "元嘉", Some(9), None, "薨卒"))),
        vec!["ab", "c", "b", "ba"]
    );
    assert!(filter_events(&refs, &filter("z", "", "", None, None, "all")).is_empty());
}

#[test]
fn similar_names_for_a_query_without_answer() {
    let names: Vec<String> =
        ["王進", "李沖", "王猛", "王進", "進之", "謝安"].iter().map(|s| s.to_string()).collect();
    assert_eq!(suggest_similar(&names, "王進之"), vec!["王進", "進之", "王猛"]);
    assert!(suggest_similar(&names, "苻堅").is_empty());
    let many: Vec<String> = (0..20).map(|i| format!("王{i}")).collect();
    assert_eq!(suggest_similar(&many, "王").len(), 8);
}
