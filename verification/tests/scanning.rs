use person_extract::event::{Event, EventKind, TimeRef};
use person_extract::scan::EventScanner;
use person_extract::scanner::{BiographyFile, LoadedFile};
use person_extract::types::{Book, Section, Source};

fn dummy_time(era: &str, year: u8, offset: usize) -> (usize, TimeRef) {
    (
        offset,
        TimeRef {
            era: era.to_string(),
            regime: "劉宋".to_string(),
            year,
            month: None,
            day_ganzhi: None,
            raw: format!("{era}{year}年"),
            byte_offset: offset,
        },
    )
}

fn scanner() -> EventScanner {
    match EventScanner::new(&[]) {
        Ok(s) => s,
        Err(e) => panic!("the patterns compile: {e:?}"),
    }
}

fn of_kind<'a>(events: &'a [Event], kind: &str) -> Vec<&'a Event> {
    events
        .iter()
        .filter(|e| match (&e.kind, kind) {
            (EventKind::Appointment { .. }, "appointment") => true,
            (EventKind::Promotion { .. }, "promotion") => true,
            (EventKind::Accession { .. }, "accession") => true,
            (EventKind::Battle { .. }, "battle") => true,
            (EventKind::Death { .. }, "death") => true,
            _ => false,
        })
        .collect()
}

#[test]
fn test_build_time_scopes_empty() {
    let scopes = EventScanner::build_time_scopes(&[], 100, "test.txt");
    assert!(scopes.is_empty());
}

#[test]
fn test_build_time_scopes_single() {
    let times = vec![dummy_time("元嘉", 1, 5)];
    let scopes = EventScanner::build_time_scopes(&times, 100, "test.txt");
    assert_eq!(scopes.len(), 1);
    assert_eq!(scopes[0].span.byte_start, 5);
    assert_eq!(scopes[0].span.byte_end, 100);
    assert_eq!(scopes[0].time.era, "元嘉");
}

#[test]
fn test_build_time_scopes_multiple() {
    let times = vec![dummy_time("元嘉", 1, 10), dummy_time("元嘉", 5, 50), dummy_time("元嘉", 10, 90)];
    let scopes = EventScanner::build_time_scopes(&times, 200, "f.txt");
    assert_eq!(scopes.len(), 3);
    assert_eq!(scopes[0].span.byte_start, 10);
    assert_eq!(scopes[0].span.byte_end, 50);
    assert_eq!(scopes[1].span.byte_start, 50);
    assert_eq!(scopes[1].span.byte_end, 90);
    assert_eq!(scopes[2].span.byte_start, 90);
    assert_eq!(scopes[2].span.byte_end, 200);
}

#[test]
fn test_find_time_context_none_when_no_preceding() {
    let times = vec![dummy_time("元嘉", 1, 50)];
    assert!(EventScanner::find_time_context(&times, 10).is_none());
}

#[test]
fn test_find_time_context_returns_last_preceding() {
    let times = vec![dummy_time("元嘉", 1, 10), dummy_time("元嘉", 5, 30), dummy_time("元嘉", 10, 80)];
    let t = EventScanner::find_time_context(&times, 60).unwrap();
    assert_eq!(t.year, 5);
}

#[test]
fn test_find_time_context_after_all() {
    let times = vec![dummy_time("元嘉", 1, 10), dummy_time("元嘉", 5, 30)];
    let t = EventScanner::find_time_context(&times, 999).unwrap();
    assert_eq!(t.year, 5);
}

#[test]
fn test_scan_file_appointment_detected() {
    let s = scanner();
    let text = "以王進為冠軍將軍。";
    let (events, _) = s.scan_file(text, Book::SongShu, "test.txt");
    let appts = of_kind(&events, "appointment");
    assert!(!appts.is_empty(), "should detect at least one appointment");
    if let EventKind::Appointment { new_title, .. } = &appts[0].kind {
        assert!(new_title.contains("冠軍"), "title should contain 冠軍");
    }
}

#[test]
fn test_scan_file_promotion_detected() {
    let s = scanner();
    let text = "拜王進為益州刺史，入朝。";
    let (events, _) = s.scan_file(text, Book::SongShu, "test.txt");
    let proms = of_kind(&events, "promotion");
    assert!(!proms.is_empty(), "should detect at least one promotion");
    if let EventKind::Promotion { verb, .. } = &proms[0].kind {
        assert_eq!(verb, "拜");
    }
}

#[test]
fn test_scan_file_promotion_verbs() {
    let s = scanner();
    for verb in &["拜", "除", "遷", "授", "徵", "封"] {
        let text = format!("{verb}王進為太守，出鎮。");
        let (events, _) = s.scan_file(&text, Book::SongShu, "test.txt");
        let proms = of_kind(&events, "promotion");
        assert!(!proms.is_empty(), "verb '{verb}' should produce at least one promotion event");
    }
}

#[test]
fn test_scan_file_accession_detected() {
    let s = scanner();
    let text = "王進即位，改元建平。";
    let (events, _) = s.scan_file(text, Book::SongShu, "test.txt");
    let acc = of_kind(&events, "accession");
    assert!(!acc.is_empty(), "should detect accession event");
    if let EventKind::Accession { verb, .. } = &acc[0].kind {
        assert_eq!(verb, "即位");
    }
}

#[test]
fn test_scan_file_battle_detected() {
    let s = scanner();
    let text = "王進攻建康城，克之。";
    let (events, _) = s.scan_file(text, Book::SongShu, "test.txt");
    let battles = of_kind(&events, "battle");
    assert!(!battles.is_empty(), "should detect battle event");
    if let EventKind::Battle { verb, target, .. } = &battles[0].kind {
        assert_eq!(verb, "攻");
        assert!(target.contains("建康"), "target should contain 建康");
    }
}

#[test]
fn test_scan_file_death_detected() {
    let s = scanner();
    let text = "王進卒，時年五十。";
    let (events, _) = s.scan_file(text, Book::SongShu, "test.txt");
    let deaths = of_kind(&events, "death");
    assert!(!deaths.is_empty(), "should detect death event");
    if let EventKind::Death { verb, .. } = &deaths[0].kind {
        assert_eq!(verb, "卒");
    }
}

#[test]
fn test_scan_file_time_scope_attached() {
    let s = scanner();
    let text = "元嘉三年，以王進為冠軍將軍。";
    let (events, scopes) = s.scan_file(text, Book::SongShu, "test.txt");
    assert!(!scopes.is_empty(), "should have at least one time scope");
    let appts = of_kind(&events, "appointment");
    assert!(!appts.is_empty());
    let t = appts[0].time.as_ref().expect("event should have time ref");
    assert_eq!(t.era, "元嘉");
    assert_eq!(t.year, 3);
}

#[test]
fn test_parse_cn_number_high_year_in_scan() {
    let s = scanner();
    let text = "元嘉四十三年，王進卒。";
    let (_, scopes) = s.scan_file(text, Book::SongShu, "test.txt");
    assert!(!scopes.is_empty(), "year 四十三 should produce a time scope");
    assert_eq!(scopes[0].time.year, 43);
}

#[test]
fn an_appointment_under_a_year_is_attached_to_it() {
    let s = scanner();
    let text = "元嘉三年，以王進為冠軍將軍。";
    let (events, scopes) = s.scan_file(text, Book::SongShu, "文本");
    assert_eq!(scopes.len(), 1);
    assert_eq!(scopes[0].time.era, "元嘉");
    assert_eq!(scopes[0].time.regime, "劉宋");
    assert_eq!(scopes[0].time.year, 3);
    assert_eq!(scopes[0].time.month, None);
    assert_eq!(scopes[0].time.raw, "元嘉三年");
    assert_eq!(scopes[0].span.file, "文本");
    assert_eq!(scopes[0].span.byte_start, 0);
    assert_eq!(scopes[0].span.byte_end, text.len());
    assert_eq!(events.len(), 1);
    match &events[0].kind {
        EventKind::Appointment { person, new_title, place } => {
            assert_eq!(person, "王進");
            assert_eq!(new_title, "冠軍將軍");
            assert!(place.is_none());
        }
        other => panic!("an appointment was expected, not {other:?}"),
    }
    let t = events[0].time.as_ref().unwrap();
    assert_eq!((t.era.as_str(), t.regime.as_str(), t.year, t.byte_offset), ("元嘉", "劉宋", 3, 0));
    assert_eq!(events[0].byte_offset, "元嘉三年，".len());
    assert_eq!(events[0].source_file, "文本");
    assert_eq!(events[0].context, text);
}

#[test]
fn a_promotion_names_verb_person_title_and_place() {
    let s = scanner();
    let (events, scopes) = s.scan_file("拜王進為益州刺史，入朝。", Book::SongShu, "t");
    assert!(scopes.is_empty());
    assert_eq!(events.len(), 1);
    assert!(events[0].time.is_none());
    match &events[0].kind {
        EventKind::Promotion { person, verb, new_title, place } => {
            assert_eq!(verb, "拜");
            assert_eq!(person, "王進");
            assert_eq!(new_title, "益州刺史");
            let p = place.as_ref().unwrap();
            assert_eq!(p.name, "益州");
            assert_eq!(p.role_suffix.as_deref(), Some("刺史"));
            assert!(!p.is_qiao);
        }
        other => panic!("a promotion was expected, not {other:?}"),
    }
    assert_eq!(events[0].person_name(), "王進");
    assert_eq!(events[0].locations.len(), 1);
    assert_eq!(events[0].locations[0].name, "益州");
    assert_eq!(events[0].all_location_names(), vec!["益州", "益州"]);
    assert_eq!(events[0].kind_zh(), "晋升");
}

#[test]
fn a_battle_names_its_target_as_a_place() {
    let s = scanner();
    let (events, _) = s.scan_file("王進攻建康城，克之。", Book::SongShu, "t");
    assert_eq!(events.len(), 1);
    match &events[0].kind {
        EventKind::Battle { person, verb, target, target_place } => {
            assert_eq!(person, "王進");
            assert_eq!(verb, "攻");
            assert!(target.starts_with("建康"));
            assert_eq!(target, "建康城");
            let p = target_place.as_ref().unwrap();
            assert!(p.name.ends_with('城'));
            assert_eq!(p.role_suffix, None);
        }
        other => panic!("a battle was expected, not {other:?}"),
    }
    assert_eq!(events[0].byte_offset, 0);
}

#[test]
fn a_death_is_found() {
    let s = scanner();
    let (events, _) = s.scan_file("王進卒，時年五十。", Book::SongShu, "t");
    assert_eq!(events.len(), 1);
    match &events[0].kind {
        EventKind::Death { person, verb } => {
            assert_eq!(person, "王進");
            assert_eq!(verb, "卒");
        }
        other => panic!("a death was expected, not {other:?}"),
    }
}

#[test]
fn a_high_year_governs_the_death_after_it() {
    let s = scanner();
    let (events, scopes) = s.scan_file("元嘉四十三年，王進卒。", Book::SongShu, "t");
    assert_eq!(scopes.len(), 1);
    assert_eq!(scopes[0].time.year, 43);
    let deaths = of_kind(&events, "death");
    assert_eq!(deaths.len(), 1);
    assert_eq!(deaths[0].time.as_ref().unwrap().year, 43);
    assert_eq!(deaths[0].time.as_ref().unwrap().byte_offset, 0);
}

#[test]
fn an_event_between_two_times_belongs_to_the_first() {
    let s = scanner();
    let text = "aaaaaaaaaa元嘉三年aaaaaaaa王進卒，aaaaaaaa元嘉五年。";
    assert_eq!(text.find("元嘉三年"), Some(10));
    assert_eq!(text.find("王進卒"), Some(30));
    assert_eq!(text.find("元嘉五年"), Some(50));
    let (events, scopes) = s.scan_file(text, Book::SongShu, "f.txt");
    assert_eq!(scopes.len(), 2);
    assert_eq!((scopes[0].span.byte_start, scopes[0].span.byte_end), (10, 50));
    assert_eq!((scopes[1].span.byte_start, scopes[1].span.byte_end), (50, text.len()));
    assert_eq!(scopes[0].time.year, 3);
    assert_eq!(scopes[1].time.year, 5);
    let deaths = of_kind(&events, "death");
    assert_eq!(deaths.len(), 1);
    assert_eq!(deaths[0].byte_offset, 30);
    let t = deaths[0].time.as_ref().unwrap();
    assert_eq!(t.byte_offset, 10);
    assert_eq!(t.year, 3);
}

#[test]
fn scopes_tile_the_file_and_events_follow_their_times() {
    let s = scanner();
    let text = "王進卒。太和元年正月甲子，以王進為荊州刺史。二年，拜李沖為太尉。太和十七年閏三月，李沖攻南兗州，克之。景明百年，李沖薨。";
    let (events, scopes) = s.scan_file(text, Book::WeiShu, "魏書.txt");
    assert_eq!(scopes.len(), 2);
    assert!(scopes.iter().all(|sc| sc.span.byte_start < sc.span.byte_end));
    assert_eq!(scopes[0].span.byte_end, scopes[1].span.byte_start);
    assert_eq!(scopes[1].span.byte_end, text.len());
    assert_eq!(scopes[0].span.byte_start, scopes[0].time.byte_offset);
    assert_eq!(scopes[0].time.regime, "北魏");
    assert_eq!(scopes[0].time.month, Some(1));
    assert_eq!(scopes[0].time.day_ganzhi.as_deref(), Some("甲子"));
    assert_eq!(scopes[1].time.year, 17);
    assert_eq!(scopes[1].time.month, Some(3));
    assert_eq!(scopes[1].time.day_ganzhi, None);
    let offsets: Vec<usize> = scopes.iter().map(|sc| sc.time.byte_offset).collect();
    for e in &events {
        assert!(!e.person_name().is_empty());
        assert!(e.byte_offset < text.len());
        assert!(text.is_char_boundary(e.byte_offset));
        assert_eq!(e.source_file, "魏書.txt");
        match &e.time {
            Some(t) => {
                assert!(t.byte_offset < e.byte_offset);
                assert!(offsets.iter().all(|o| !(t.byte_offset < *o && *o < e.byte_offset)));
            }
            None => assert!(offsets.iter().all(|o| *o >= e.byte_offset)),
        }
    }
    assert!(events.iter().any(|e| e.time.is_none()));
    let battle = of_kind(&events, "battle");
    assert_eq!(battle.len(), 1);
    match &battle[0].kind {
        EventKind::Battle { target_place, .. } => assert!(target_place.as_ref().unwrap().is_qiao),
        _ => unreachable!(),
    }
}

#[test]
fn a_year_that_is_no_numeral_is_dropped() {
    let s = scanner();
    let times = s.extract_times("元嘉十十年，元嘉二年。", Book::SongShu);
    assert_eq!(times.len(), 1);
    assert_eq!(times[0].1.year, 2);
    assert_eq!(times[0].0, times[0].1.byte_offset);
    assert_eq!(times[0].0, "元嘉十十年，".len());
}

#[test]
fn a_month_far_behind_the_year_is_not_taken() {
    let s = scanner();
    let times = s.extract_times("元嘉二年，王進自京口還至建康，三月卒。", Book::SongShu);
    assert_eq!(times.len(), 1);
    assert_eq!(times[0].1.month, None);
    let near = s.extract_times("元嘉二年春三月卒。", Book::SongShu);
    assert_eq!(near[0].1.month, Some(3));
}

#[test]
fn the_era_of_another_regime_keeps_its_regime() {
    let s = scanner();
    let times = s.extract_times("太和三年", Book::JinShu);
    assert_eq!(times[0].1.regime, "東晉");
    let times = s.extract_times("太和三年", Book::WeiShu);
    assert_eq!(times[0].1.regime, "北魏");
    let times = s.extract_times("元嘉三年", Book::WeiShu);
    assert_eq!(times[0].1.regime, "劉宋");
    let times = s.extract_times("太平真君三年", Book::WeiShu);
    assert_eq!(times[0].1.era, "太平真君");
}

#[test]
fn places_are_read_off_titles() {
    let s = scanner();
    let p = s.extract_place_from_title("郢州刺史").unwrap();
    assert_eq!((p.name.as_str(), p.role_suffix.as_deref(), p.is_qiao), ("郢州", Some("刺史"), false));
    let q = s.extract_place_from_title("南兗州刺史").unwrap();
    assert_eq!((q.name.as_str(), q.is_qiao), ("南兗州", true));
    let bare = s.extract_place_from_title("梁州").unwrap();
    assert_eq!((bare.name.as_str(), bare.role_suffix.as_deref()), ("梁州", None));
    assert!(s.extract_place_from_title("冠軍將軍").is_none());
    assert!(s.extract_place_from_title("攻州").is_none());
    assert!(s.extract_place_from_title("吳興長城縣").is_none());
}

#[test]
fn a_verb_before_a_place_spoils_the_place_of_a_context() {
    let s = scanner();
    assert!(s.extract_places_from_context("攻暐洛州刺史").is_empty());
    let found = s.extract_places_from_context("出為荊州刺史，郢州太守，又遷梁州內史");
    let names: Vec<&str> = found.iter().map(|p| p.name.as_str()).collect();
    assert_eq!(names, vec!["荊州", "郢州"]);
    assert_eq!(found[1].role_suffix.as_deref(), Some("太守"));
}

#[test]
fn a_title_is_no_person() {
    let s = scanner();
    let (events, _) = s.scan_file("以左僕射為太尉。江夏王薨。", Book::SongShu, "t");
    assert!(events.is_empty());
    let (events, _) = s.scan_file("王公卒。", Book::SongShu, "t");
    assert_eq!(events.len(), 1);
    assert_eq!(events[0].person_name(), "王公");
}

#[test]
fn the_corpus_scan_concatenates_files_and_counts() {
    let file = |path: &str, book: Book, content: &str| LoadedFile {
        file: BiographyFile {
            source: Source {
                book,
                section: Section::LieZhuan,
                juan: "列傳".to_string(),
                file_path: path.to_string(),
            },
            path: path.to_string(),
        },
        content: content.to_string(),
    };
    let files = vec![
        file("a.txt", Book::SongShu, "元嘉三年，以王進為荊州刺史。王進卒。"),
        file("b.txt", Book::SongShu, "元嘉三年，拜李沖為荊州刺史。元嘉四年，李沖攻建康城。"),
    ];
    let s = scanner();
    let (events, index, stats) = s.scan_corpus(&files);
    assert_eq!(events.len(), 4);
    assert_eq!(index.scopes.len(), 3);
    assert_eq!(events[0].source_file, "a.txt");
    assert_eq!(events[3].source_file, "b.txt");
    assert_eq!(stats.total_events, 4);
    assert_eq!(
        (stats.appointments, stats.promotions, stats.accessions, stats.battles, stats.deaths),
        (1, 1, 0, 1, 1)
    );
    assert_eq!(stats.unique_time_refs, 2);
    assert_eq!(stats.era_distribution, vec![("劉宋/元嘉".to_string(), 4)]);
    assert_eq!(stats.top_places, vec![("荊州".to_string(), 2), ("建康城".to_string(), 1)]);
    assert_eq!(stats.unique_places, 2);
}

#[test]
fn the_context_of_an_event_stays_on_its_line() {
    let s = scanner();
    let text = "荊州刺史謝安入朝。\n王進卒，時年五十。\n以李沖為郢州刺史。";
    let (events, _) = s.scan_file(text, Book::SongShu, "t");
    let deaths = of_kind(&events, "death");
    assert_eq!(deaths.len(), 1);
    assert_eq!(deaths[0].context, "王進卒，時年五十。");
    assert!(deaths[0].locations.is_empty());
    let appointments = of_kind(&events, "appointment");
    assert_eq!(appointments.len(), 1);
    assert_eq!(appointments[0].context, "以李沖為郢州刺史。");
    assert_eq!(appointments[0].locations.len(), 1);
    assert_eq!(appointments[0].locations[0].name, "郢州");
}

#[test]
fn time_references_stand_on_character_boundaries() {
    let s = scanner();
    let text = "初，王進少孤。元嘉三年，以王進為冠軍將軍。永初二年春，王進卒。";
    let (_, scopes) = s.scan_file(text, Book::SongShu, "文本");
    assert_eq!(scopes.len(), 2);
    assert_eq!(scopes[0].time.byte_offset, "初，王進少孤。".len());
    assert_eq!(scopes[1].time.byte_offset, "初，王進少孤。元嘉三年，以王進為冠軍將軍。".len());
    for scope in &scopes {
        assert!(scope.time.byte_offset < text.len());
        assert!(text.is_char_boundary(scope.time.byte_offset));
        assert_eq!(scope.span.byte_start, scope.time.byte_offset);
    }
}
