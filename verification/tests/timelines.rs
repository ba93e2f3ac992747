use person_extract::event::{TextSpan, TimeRef, TimeScope};
use person_extract::report::{
    available_eras, files_of_scopes, scope_heading, scope_text, timeline_lines, year_entries,
};
use person_extract::timeline::{TimeIndex, Timeline};

fn scope(regime: &str, era: &str, year: u8, file: &str) -> TimeScope {
    TimeScope {
        time: TimeRef {
            era: era.to_string(),
            regime: regime.to_string(),
            year,
            month: None,
            day_ganzhi: None,
            raw: String::new(),
            byte_offset: 0,
        },
        span: TextSpan { file: file.to_string(), byte_start: 0, byte_end: 10 },
    }
}

fn sample() -> Vec<TimeScope> {
    vec![
        scope("劉宋", "元嘉", 3, "a"),
        scope("劉宋", "元嘉", 3, "b"),
        scope("劉宋", "元嘉", 3, "a"),
        scope("劉宋", "永初", 1, "a"),
        scope("北魏", "太和", 1, "c"),
        scope("東晉", "義熙", 14, "a"),
        scope("劉宋", "元嘉", 1, "b"),
        scope("未知", "某", 2, "a"),
        scope("北魏", "泰常", 5, "c"),
    ]
}

fn eras_and_years(found: &[&TimeScope]) -> Vec<(String, u8, String)> {
    found.iter().map(|s| (s.time.era.clone(), s.time.year, s.span.file.clone())).collect()
}

#[test]
fn the_timeline_orders_regimes_eras_and_years() {
    let t = Timeline::from_scopes(&sample());
    let regimes: Vec<&str> = t.regimes.iter().map(|r| r.regime.as_str()).collect();
    assert_eq!(regimes, vec!["東晉", "北魏", "劉宋", "未知"]);
    let song = &t.regimes[2];
    let eras: Vec<&str> = song.eras.iter().map(|e| e.era.as_str()).collect();
    assert_eq!(eras, vec!["永初", "元嘉"]);
    let years: Vec<u8> = song.eras[1].years.iter().map(|p| p.year).collect();
    assert_eq!(years, vec![1, 3]);
    let third = &song.eras[1].years[1];
    assert_eq!(third.era, "元嘉");
    assert_eq!(third.files, vec!["a".to_string(), "b".to_string()]);
    assert_eq!(third.occurrence_count, 2);
    let wei: Vec<&str> = t.regimes[1].eras.iter().map(|e| e.era.as_str()).collect();
    assert_eq!(wei, vec!["泰常", "太和"]);
}

#[test]
fn the_total_is_the_number_of_distinct_triples() {
    let t = Timeline::from_scopes(&sample());
    assert_eq!(t.total_time_points, 7);
    let listed: usize = t.regimes.iter().flat_map(|r| r.eras.iter()).map(|e| e.years.len()).sum();
    assert_eq!(listed, 7);
    let empty = Timeline::from_scopes(&[]);
    assert_eq!(empty.total_time_points, 0);
    assert!(empty.regimes.is_empty());
}

#[test]
fn queries_by_era_year_and_regime() {
    let index = TimeIndex { scopes: sample() };
    assert_eq!(index.query("元嘉", None).len(), 4);
    assert_eq!(
        eras_and_years(&index.query("元嘉", Some(3))),
        vec![
            ("元嘉".to_string(), 3, "a".to_string()),
            ("元嘉".to_string(), 3, "b".to_string()),
            ("元嘉".to_string(), 3, "a".to_string())
        ]
    );
    assert!(index.query("元嘉", Some(9)).is_empty());
    assert!(index.query("不存在", None).is_empty());
    assert_eq!(index.query_range("元嘉", 1, 2).len(), 1);
    assert_eq!(index.query_range("元嘉", 1, 3).len(), 4);
    assert!(index.query_range("元嘉", 3, 1).is_empty());
    assert_eq!(index.query_regime("劉宋").len(), 5);
    assert_eq!(index.query_regime("北魏").len(), 2);
    assert!(index.query_regime("北").is_empty());
}

#[test]
fn queries_by_year_ad() {
    let index = TimeIndex { scopes: sample() };
    assert_eq!(index.query_ad(426).len(), 3);
    assert_eq!(
        eras_and_years(&index.query_ad_range(418, 424)),
        vec![
            ("永初".to_string(), 1, "a".to_string()),
            ("義熙".to_string(), 14, "a".to_string()),
            ("元嘉".to_string(), 1, "b".to_string()),
            ("泰常".to_string(), 5, "c".to_string())
        ]
    );
    assert!(index.query_ad(0).is_empty());
    assert!(index.query_ad_range(0, 300).is_empty());
    assert_eq!(index.query_ad_range(0, 9999).len(), 8);
}

#[test]
fn the_laws_of_queries_hold_on_the_sample() {
    let index = TimeIndex { scopes: sample() };
    for year in 0..=20u8 {
        let narrow = eras_and_years(&index.query("元嘉", Some(year)));
        let wide = eras_and_years(&index.query("元嘉", None));
        assert!(narrow.iter().all(|s| wide.contains(s)));
        assert_eq!(eras_and_years(&index.query_range("元嘉", year, year)), narrow);
    }
    for ad in 410..=430u16 {
        assert_eq!(
            eras_and_years(&index.query_ad_range(ad, ad)),
            eras_and_years(&index.query_ad(ad))
        );
    }
    let of_regime = eras_and_years(&index.query_regime("劉宋"));
    let mut union = Vec::new();
    for s in &index.scopes {
        if ["永初", "景平", "元嘉"].contains(&s.time.era.as_str()) {
            union.push((s.time.era.clone(), s.time.year, s.span.file.clone()));
        }
    }
    assert_eq!(of_regime, union);
}

#[test]
fn the_timeline_by_year_ad() {
    let mut scopes = sample();
    scopes.push(scope("北魏", "始光", 1, "c"));
    let t = Timeline::from_scopes(&scopes);
    let entries = year_entries(&t);
    let shown: Vec<(u16, &str, &str, u8, usize)> = entries
        .iter()
        .map(|e| (e.ad_year, e.regime.as_str(), e.era.as_str(), e.year, e.occurrences))
        .collect();
    assert_eq!(
        shown,
        vec![
            (418, "東晉", "義熙", 14, 1),
            (420, "劉宋", "永初", 1, 1),
            (420, "北魏", "泰常", 5, 1),
            (424, "劉宋", "元嘉", 1, 1),
            (424, "北魏", "始光", 1, 1),
            (426, "劉宋", "元嘉", 3, 2),
            (477, "北魏", "太和", 1, 1),
        ]
    );
    assert_eq!(
        timeline_lines(&entries),
        vec![
            "AD 418  東晉/義熙14年 (1)".to_string(),
            "AD 420  劉宋/永初1年 (1)  北魏/泰常5年 (1)".to_string(),
            "AD 424  劉宋/元嘉1年 (1)  北魏/始光1年 (1)".to_string(),
            "AD 426  劉宋/元嘉3年 (2)".to_string(),
            "AD 477  北魏/太和1年 (1)".to_string(),
        ]
    );
    assert!(timeline_lines(&Vec::new()).is_empty());
}

#[test]
fn eras_and_files_of_scopes() {
    let scopes = sample();
    let eras = available_eras(&scopes);
    let mut expected: Vec<String> =
        ["元嘉", "永初", "太和", "義熙", "某", "泰常"].iter().map(|s| s.to_string()).collect();
    expected.sort();
    assert_eq!(eras, expected);
    let refs: Vec<&TimeScope> = scopes.iter().collect();
    assert_eq!(files_of_scopes(&refs), vec!["a".to_string(), "b".to_string(), "c".to_string()]);
}

#[test]
fn the_text_of_a_scope() {
    let content = "王進卒。 元嘉三年，以王進為將軍。 \n";
    let mut s = scope("劉宋", "元嘉", 3, "f.txt");
    s.span.byte_start = content.find("元嘉").unwrap();
    s.span.byte_end = content.len();
    assert_eq!(scope_text(content, &s).as_deref(), Some("元嘉三年，以王進為將軍。"));
    s.span.byte_end = content.len() + 100;
    assert_eq!(scope_text(content, &s).as_deref(), Some("元嘉三年，以王進為將軍。"));
    s.span.byte_start = content.len() - 2;
    assert_eq!(scope_text(content, &s), None);
    s.span.byte_start = 1;
    assert_eq!(scope_text(content, &s), None);
    s.span.byte_start = 9;
    s.span.byte_end = 3;
    assert_eq!(scope_text(content, &s), None);
    assert_eq!(scope_heading(&s), "── [劉宋/元嘉3年] f.txt ──");
}
