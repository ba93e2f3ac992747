use person_extract::event::{Event, EventKind, PlaceRef, TimeRef};
use person_extract::locate::{locate, locate_person, place_by, sort_chronologically};
use person_extract::query::{parse_time_query, TimeQuery};

fn place(name: &str, role: Option<&str>) -> PlaceRef {
    PlaceRef { name: name.to_string(), is_qiao: false, role_suffix: role.map(|r| r.to_string()) }
}

fn time(regime: &str, era: &str, year: u8) -> Option<TimeRef> {
    Some(TimeRef {
        era: era.to_string(),
        regime: regime.to_string(),
        year,
        month: None,
        day_ganzhi: None,
        raw: String::new(),
        byte_offset: 0,
    })
}

fn event(kind: EventKind, time: Option<TimeRef>, context: &str, locations: Vec<PlaceRef>) -> Event {
    Event {
        kind,
        time,
        source_file: "f.txt".to_string(),
        byte_offset: 0,
        context: context.to_string(),
        locations,
    }
}

fn appointment(person: &str, title: &str, at: Option<PlaceRef>) -> EventKind {
    EventKind::Appointment { person: person.to_string(), new_title: title.to_string(), place: at }
}

fn death(person: &str) -> EventKind {
    EventKind::Death { person: person.to_string(), verb: "卒".to_string() }
}

fn battle(person: &str, target: &str, at: Option<PlaceRef>) -> EventKind {
    EventKind::Battle {
        person: person.to_string(),
        verb: "攻".to_string(),
        target: target.to_string(),
        target_place: at,
    }
}

fn sample() -> Vec<Event> {
    vec![
        event(
            appointment("王進", "荊州刺史", Some(place("荊州", Some("刺史")))),
            time("劉宋", "元嘉", 1),
            "c1",
            vec![],
        ),
        event(death("李沖"), time("劉宋", "元嘉", 2), "c2", vec![place("洛陽", None)]),
        event(
            battle("王進", "建康城", Some(place("建康城", None))),
            time("劉宋", "元嘉", 3),
            "c3",
            vec![place("吳郡", Some("太守"))],
        ),
        event(
            appointment("謝安", "侍中", None),
            time("劉宋", "元嘉", 3),
            "c4",
            vec![place("洛陽", Some("太守")), place("吳郡", None)],
        ),
        event(appointment("謝安", "太尉", None), None, "c5", vec![]),
        event(appointment("李沖", "太守", None), time("劉宋", "元嘉", 1), "c6", vec![place("梁州", None)]),
        event(
            appointment("桓溫", "江州刺史", Some(place("江州", Some("刺史")))),
            time("東晉", "太和", 1),
            "c7",
            vec![],
        ),
        event(appointment("桓溫", "太尉", None), time("東晉", "太和", 1), "c8", vec![]),
        event(appointment("陶潛", "令", Some(place("彭澤", None))), time("劉宋", "元嘉", 3), "c9", vec![]),
    ]
}

#[test]
fn persons_are_located_in_the_latest_year_of_the_query() {
    let found = locate(&sample(), &parse_time_query("元嘉三年")).unwrap();
    let names: Vec<&str> = found.iter().map(|(n, _)| n.as_str()).collect();
    assert_eq!(names, vec!["王進", "謝安"]);
    let wang = &found[0].1;
    assert_eq!(wang.location, "建康城");
    assert_eq!(wang.role, None);
    assert_eq!(wang.as_of, "劉宋/元嘉3年 (AD426)");
    assert_eq!(wang.as_of_ad, 426);
    assert_eq!(wang.status, "current");
    assert_eq!(wang.context, "c3");
    let xie = &found[1].1;
    assert_eq!(xie.location, "洛陽");
    assert_eq!(xie.role.as_deref(), Some("太守"));
    assert_eq!(xie.status, "current");
}

#[test]
fn an_earlier_year_shows_the_earlier_place() {
    let found = locate(&sample(), &parse_time_query("元嘉元年")).unwrap();
    let names: Vec<&str> = found.iter().map(|(n, _)| n.as_str()).collect();
    assert_eq!(names, vec!["王進", "李沖"]);
    assert_eq!(found[0].1.location, "荊州");
    assert_eq!(found[0].1.role.as_deref(), Some("荊州刺史"));
    assert_eq!(found[0].1.as_of, "劉宋/元嘉1年 (AD424)");
    assert_eq!(found[1].1.location, "梁州");
    assert_eq!(found[1].1.role, None);
}

#[test]
fn the_dead_and_the_long_unseen_are_left_out() {
    let found = locate(&sample(), &TimeQuery::AdYear { year: 425 }).unwrap();
    let names: Vec<&str> = found.iter().map(|(n, _)| n.as_str()).collect();
    assert_eq!(names, vec!["王進"]);
    assert_eq!(found[0].1.status, "last_known");
    assert_eq!(found[0].1.as_of_ad, 424);
    let old = locate(&sample(), &parse_time_query("@東晉")).unwrap();
    let names: Vec<&str> = old.iter().map(|(n, _)| n.as_str()).collect();
    assert_eq!(names, vec!["桓溫"]);
    assert_eq!(old[0].1.location, "江州");
    assert_eq!(old[0].1.status, "current");
    assert_eq!(old[0].1.as_of_ad, 366);
}

#[test]
fn a_query_that_no_event_answers_locates_nobody() {
    assert!(locate(&sample(), &parse_time_query("太和九年")).is_none());
    assert!(locate(&Vec::new(), &parse_time_query("元嘉")).is_none());
}

#[test]
fn events_in_chronological_order_keep_ties() {
    let events = sample();
    let refs: Vec<&Event> = events.iter().collect();
    let sorted = sort_chronologically(&refs);
    let contexts: Vec<&str> = sorted.iter().map(|e| e.context.as_str()).collect();
    assert_eq!(contexts, vec!["c5", "c7", "c8", "c1", "c6", "c2", "c3", "c4", "c9"]);
}

#[test]
fn one_person_among_the_events_walked() {
    let events = sample();
    let walk: Vec<&Event> = vec![&events[0], &events[5], &events[1], &events[2]];
    let wang = locate_person(&walk, "王進", 2, 426).unwrap();
    assert_eq!((wang.location.as_str(), wang.status.as_str()), ("建康城", "current"));
    assert!(locate_person(&walk, "王進", 1, 426).is_none());
    assert!(locate_person(&walk, "李沖", 2, 426).is_none());
    assert!(locate_person(&walk, "無名", 2, 426).is_none());
    assert!(locate_person(&walk, "王進", 2, 457).is_none());
    assert!(locate_person(&walk, "王進", 2, 456).is_some());
    let placed = place_by(&events[3]).unwrap();
    assert_eq!(placed.location, "洛陽");
    assert!(place_by(&events[4]).is_none());
}
