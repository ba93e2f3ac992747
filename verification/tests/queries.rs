use person_extract::event::TimeRef;
use person_extract::query::{
    is_stale, parse_ad_suffix, parse_cn_year, parse_era_year, parse_time_query,
    scope_matches_query, time_matches_query, time_sort_key, TimeQuery,
};

fn time(regime: &str, era: &str, year: u8) -> TimeRef {
    TimeRef {
        era: era.to_string(),
        regime: regime.to_string(),
        year,
        month: None,
        day_ganzhi: None,
        raw: String::new(),
        byte_offset: 0,
    }
}

fn single(q: TimeQuery) -> (String, Option<u8>) {
    match q {
        TimeQuery::Single { era, year } => (era, year),
        other => panic!("a single query was expected, not {other:?}"),
    }
}

fn range(q: TimeQuery) -> (String, u8, u8) {
    match q {
        TimeQuery::Range { era, year_from, year_to } => (era, year_from, year_to),
        other => panic!("a range was expected, not {other:?}"),
    }
}

#[test]
fn a_regime_query_begins_with_an_at_sign() {
    match parse_time_query(" @東晉 ") {
        TimeQuery::Regime { regime } => assert_eq!(regime, "東晉"),
        other => panic!("a regime query was expected, not {other:?}"),
    }
    match parse_time_query("@") {
        TimeQuery::Regime { regime } => assert_eq!(regime, ""),
        other => panic!("a regime query was expected, not {other:?}"),
    }
}

#[test]
fn years_ad_and_ranges_of_them() {
    assert!(matches!(parse_time_query("524AD"), TimeQuery::AdYear { year: 524 }));
    assert!(matches!(parse_time_query("524 ad"), TimeQuery::AdYear { year: 524 }));
    assert!(matches!(parse_time_query("500AD-530AD"), TimeQuery::AdRange { from: 500, to: 530 }));
    assert!(matches!(parse_time_query("500ad ~ 530AD"), TimeQuery::AdRange { from: 500, to: 530 }));
    assert!(matches!(parse_time_query("500AD—500AD"), TimeQuery::AdRange { from: 500, to: 500 }));
}

#[test]
fn single_times_of_an_era() {
    assert_eq!(single(parse_time_query("太和三年")), ("太和".to_string(), Some(3)));
    assert_eq!(single(parse_time_query("太和")), ("太和".to_string(), None));
    assert_eq!(single(parse_time_query("太和3")), ("太和".to_string(), Some(3)));
    assert_eq!(single(parse_time_query("5")), (String::new(), Some(5)));
    assert_eq!(single(parse_time_query("太和二十一年")), ("太和".to_string(), Some(21)));
    assert_eq!(single(parse_time_query("500AD-太和")), ("500AD-太和".to_string(), None));
}

#[test]
fn ranges_of_years_of_an_era() {
    assert_eq!(range(parse_time_query("太和元年-太和六年")), ("太和".to_string(), 1, 6));
    assert_eq!(range(parse_time_query("太和1-5")), ("太和".to_string(), 1, 5));
    assert_eq!(range(parse_time_query("3~太和六")), ("太和".to_string(), 3, 6));
    assert_eq!(range(parse_time_query("元嘉三年—元嘉三年")), ("元嘉".to_string(), 3, 3));
    assert_eq!(single(parse_time_query("太和元-六")), ("太和元-".to_string(), Some(6)));
}

#[test]
fn era_and_year_of_a_written_time() {
    assert_eq!(parse_era_year("太和三年"), ("太和".to_string(), Some(3)));
    assert_eq!(parse_era_year("  太和三年年 "), ("太和".to_string(), Some(3)));
    assert_eq!(parse_era_year("元嘉十二"), ("元嘉".to_string(), Some(12)));
    assert_eq!(parse_era_year("元嘉二十"), ("元嘉".to_string(), Some(20)));
    assert_eq!(parse_era_year("太和元"), ("太和".to_string(), Some(1)));
    assert_eq!(parse_era_year("太和"), ("太和".to_string(), None));
    assert_eq!(parse_era_year("元年"), ("元".to_string(), None));
    assert_eq!(parse_era_year("太和12"), ("太和".to_string(), Some(12)));
    assert_eq!(parse_era_year("255"), (String::new(), Some(255)));
    assert_eq!(parse_era_year("256"), ("256".to_string(), None));
    assert_eq!(parse_era_year("太和300"), ("太和300".to_string(), None));
    assert_eq!(parse_era_year("太和三百"), ("太和三百".to_string(), None));
    assert_eq!(parse_era_year(""), (String::new(), None));
    assert_eq!(parse_era_year("007"), (String::new(), Some(7)));
}

#[test]
fn the_year_before_the_letters_ad() {
    assert_eq!(parse_ad_suffix("524AD"), Some(524));
    assert_eq!(parse_ad_suffix("524ad"), Some(524));
    assert_eq!(parse_ad_suffix(" 12 AD "), Some(12));
    assert_eq!(parse_ad_suffix("65535AD"), Some(65535));
    assert_eq!(parse_ad_suffix("65536AD"), None);
    assert_eq!(parse_ad_suffix("524Ad"), None);
    assert_eq!(parse_ad_suffix("AD"), None);
    assert_eq!(parse_ad_suffix("5x4AD"), None);
    assert_eq!(parse_ad_suffix("524"), None);
    assert_eq!(parse_ad_suffix(""), None);
}

#[test]
fn queries_read_the_numerals_that_the_extraction_writes() {
    assert_eq!(parse_cn_year("九十九"), Some(99));
    assert_eq!(parse_cn_year("元"), Some(1));
    assert_eq!(parse_cn_year("百"), None);
}

#[test]
fn what_a_time_answers() {
    let t = time("劉宋", "元嘉", 3);
    let q = |s: &str| parse_time_query(s);
    assert!(time_matches_query(&t, &q("元嘉")));
    assert!(time_matches_query(&t, &q("元嘉三年")));
    assert!(!time_matches_query(&t, &q("元嘉四年")));
    assert!(!time_matches_query(&t, &q("太和三年")));
    assert!(time_matches_query(&t, &q("元嘉1-3")));
    assert!(time_matches_query(&t, &q("元嘉3-3")));
    assert!(!time_matches_query(&t, &q("元嘉4-9")));
    assert!(time_matches_query(&t, &q("@劉宋")));
    assert!(!time_matches_query(&t, &q("@北魏")));
    assert!(time_matches_query(&t, &q("426AD")));
    assert!(!time_matches_query(&t, &q("427AD")));
    assert!(time_matches_query(&t, &q("426AD-426AD")));
    assert!(time_matches_query(&t, &q("420AD-430AD")));
    assert!(!time_matches_query(&t, &q("427AD-430AD")));
    assert_eq!(time_sort_key(&t), 426);
}

#[test]
fn a_time_of_unknown_year_counts_as_year_zero_for_events_only() {
    let t = time("未知", "元嘉", 3);
    assert_eq!(time_sort_key(&t), 0);
    let zero = TimeQuery::AdYear { year: 0 };
    let from_zero = TimeQuery::AdRange { from: 0, to: 10 };
    assert!(time_matches_query(&t, &zero));
    assert!(time_matches_query(&t, &from_zero));
    assert!(!scope_matches_query(&t, &zero));
    assert!(!scope_matches_query(&t, &from_zero));
    let known = time("劉宋", "元嘉", 3);
    assert!(scope_matches_query(&known, &TimeQuery::AdYear { year: 426 }));
    assert!(scope_matches_query(&known, &TimeQuery::AdRange { from: 426, to: 426 }));
    assert!(scope_matches_query(&known, &parse_time_query("元嘉")));
}

#[test]
fn stale_after_thirty_years() {
    assert!(!is_stale(400, 430));
    assert!(is_stale(400, 431));
    assert!(!is_stale(450, 400));
    assert!(!is_stale(400, 400));
}
