use person_extract::event::{Event, EventKind, PlaceRef, TimeRef};
use person_extract::person::{
    event_ad_year, person_entry, person_events, shared_characters, snippet, suggest_names,
};

fn place(name: &str, qiao: bool) -> PlaceRef {
    PlaceRef { name: name.to_string(), is_qiao: qiao, role_suffix: None }
}

fn time(regime: &str, era: &str, year: u8) -> Option<TimeRef> {
    Some(TimeRef {
        era: era.to_string(),
        regime: regime.to_string(),
        year,
        month: None,
        day_ganzhi: None,
        raw: String::new(),
        byte_offset: 0,
    })
}

fn event(kind: EventKind, time: Option<TimeRef>, offset: usize, locations: Vec<PlaceRef>) -> Event {
    Event {
        kind,
        time,
        source_file: "f.txt".to_string(),
        byte_offset: offset,
        context: format!("ctx{offset}"),
        locations,
    }
}

fn sample() -> Vec<Event> {
    vec![
        event(
            EventKind::Death { person: "王進".to_string(), verb: "卒".to_string() },
            time("劉宋", "元嘉", 9),
            1,
            vec![],
        ),
        event(
            EventKind::Appointment {
                person: "王進".to_string(),
                new_title: "刺史".to_string(),
                place: Some(place("南兗州", true)),
            },
            None,
            2,
            vec![],
        ),
        event(
            EventKind::Accession { person: "李沖".to_string(), verb: "即位".to_string() },
            time("劉宋", "元嘉", 1),
            3,
            vec![],
        ),
        event(
            EventKind::Promotion {
                person: "王進".to_string(),
                verb: "拜".to_string(),
                new_title: "太守".to_string(),
                place: Some(place("吳郡", false)),
            },
            time("劉宋", "元嘉", 2),
            4,
            vec![place("洛陽", false)],
        ),
        event(
            EventKind::Battle {
                person: "王進".to_string(),
                verb: "攻".to_string(),
                target: "南兗州".to_string(),
                target_place: Some(place("南兗州", true)),
            },
            time("未知", "元嘉", 2),
            5,
            vec![],
        ),
        event(
            EventKind::Battle {
                person: "王進".to_string(),
                verb: "伐".to_string(),
                target: "之".to_string(),
                target_place: None,
            },
            time("劉宋", "元嘉", 2),
            6,
            vec![place("洛陽", false), place("吳郡", false)],
        ),
    ]
}

#[test]
fn a_snippet_lies_on_character_boundaries() {
    assert_eq!(snippet("abcdef", 3, 2, 2), "bcde");
    assert_eq!(snippet("abcdef", 3, 10, 10), "abcdef");
    assert_eq!(snippet("abcdef", 100, 2, 2), "ef");
    assert_eq!(snippet("abcdef", 0, 0, 0), "");
    assert_eq!(snippet("", 3, 2, 2), "");
    let text = "元嘉三年王進卒";
    assert_eq!(snippet(text, 12, 4, 4), "三年王進");
    assert_eq!(snippet(text, 12, 3, 3), "年王");
    assert_eq!(snippet(text, 13, 0, 0), "王");
    assert_eq!(snippet(text, 12, 0, 0), "");
    assert_eq!(snippet(text, 12, usize::MAX, usize::MAX), text);
}

#[test]
fn names_are_suggested_by_shared_characters() {
    let names = ["王進", "王猛", "李沖", "王進", "謝安", "進之王"];
    assert_eq!(suggest_names(&names, "王進之"), vec!["進之王", "王進", "王猛"]);
    assert!(suggest_names(&names, "苻堅").is_empty());
    assert!(suggest_names(&[], "王進").is_empty());
    let many: Vec<String> = (0..20).map(|i| format!("王{i}")).collect();
    let refs: Vec<&str> = many.iter().map(|s| s.as_str()).collect();
    let got = suggest_names(&refs, "王");
    assert_eq!(got.len(), 8);
    assert_eq!(got[0], "王0");
    assert_eq!(got[7], "王7");
    assert_eq!(shared_characters("王進王", "王"), 2);
    assert_eq!(shared_characters("王進", "李沖"), 0);
}

#[test]
fn the_events_of_a_person_in_order_of_time() {
    let events = sample();
    let own = person_events(&events, "王進");
    let offsets: Vec<usize> = own.iter().map(|e| e.byte_offset).collect();
    assert_eq!(offsets, vec![4, 6, 1, 2, 5]);
    assert!(person_events(&events, "王").is_empty());
    assert_eq!(event_ad_year(&events[0]), Some(432));
    assert_eq!(event_ad_year(&events[1]), None);
    assert_eq!(event_ad_year(&events[4]), None);
}

#[test]
fn entries_of_a_timeline() {
    let events = sample();
    let content = "x".repeat(300);
    let promotion = person_entry(&events[3], &content);
    assert_eq!(promotion.ad_year, Some(425));
    assert_eq!(promotion.time.as_deref(), Some("劉宋/元嘉2年"));
    assert_eq!(promotion.kind, "遷轉");
    assert_eq!(promotion.detail, "拜→太守 @吳郡");
    assert_eq!(promotion.location.as_deref(), Some("吳郡"));
    assert_eq!(promotion.source, "f.txt");
    assert_eq!(promotion.snippet.len(), 4 + 160);
    let appointment = person_entry(&events[1], "");
    assert_eq!(appointment.kind, "任命");
    assert_eq!(appointment.detail, "→刺史 @南兗州(僑)");
    assert_eq!(appointment.ad_year, None);
    assert_eq!(appointment.time, None);
    assert_eq!(appointment.snippet, "ctx2");
    let battle = person_entry(&events[4], "");
    assert_eq!(battle.kind, "戰事");
    assert_eq!(battle.detail, "攻南兗州 @南兗州");
    assert_eq!(battle.ad_year, None);
    assert_eq!(battle.time.as_deref(), Some("未知/元嘉2年"));
    let raid = person_entry(&events[5], "");
    assert_eq!(raid.detail, "伐之");
    assert_eq!(raid.location.as_deref(), Some("洛陽"));
    let death = person_entry(&events[0], "");
    assert_eq!((death.kind.as_str(), death.detail.as_str()), ("死亡", "卒"));
    assert_eq!(death.location, None);
    let accession = person_entry(&events[2], "");
    assert_eq!((accession.kind.as_str(), accession.detail.as_str()), ("即位", "即位"));
}
