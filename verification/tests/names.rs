use person_extract::surname::{build_name_regex, collect_extra_surnames, split_name};
use person_extract::titles::build_title_regex;
use person_extract::types::{Book, CourtesyName, Person, PersonKind, Section, Source};

fn source() -> Source {
    Source {
        book: Book::SongShu,
        section: Section::LieZhuan,
        juan: "列傳第四　褚淵".to_string(),
        file_path: "corpus/宋書/列傳/04/01_褚淵.txt".to_string(),
    }
}

fn official(surname: &str, given: &str) -> Person {
    Person {
        kind: PersonKind::Official {
            surname: surname.to_string(),
            given_name: given.to_string(),
            courtesy_name: CourtesyName::NotRecorded,
            origin: None,
        },
        source: source(),
        aliases: Vec::new(),
    }
}

#[test]
fn test_single_char_surname() {
    assert_eq!(split_name("褚淵"), Some(("褚".into(), "淵".into())));
    assert_eq!(split_name("韓秀"), Some(("韓".into(), "秀".into())));
}

#[test]
fn test_compound_surname() {
    assert_eq!(split_name("司馬褧"), Some(("司馬".into(), "褧".into())));
    assert_eq!(split_name("禿髮烏孤"), Some(("禿髮".into(), "烏孤".into())));
}

#[test]
fn test_two_char_given() {
    assert_eq!(split_name("柳世隆"), Some(("柳".into(), "世隆".into())));
}

#[test]
fn split_name_needs_two_characters() {
    assert_eq!(split_name(""), None);
    assert_eq!(split_name("王"), None);
}

#[test]
fn compound_surname_without_given_name_falls_back_to_first_character() {
    assert_eq!(split_name("司馬"), Some(("司".into(), "馬".into())));
}

#[test]
fn name_regex_has_both_alternatives() {
    let re = build_name_regex(&[]);
    assert!(re.starts_with("(?:(?:司馬|歐陽|"));
    assert!(re.contains("宿勤)[^\\s，。、；：！？「」『』（）〈〉《》【】\\-]{1,2}|[王李張"));
    assert!(re.ends_with("種][^\\s，。、；：！？「」『』（）〈〉《》【】\\-]{1,2})"));
}

#[test]
fn name_regex_takes_up_new_surnames_once() {
    let extra = vec!["乞伏".to_string(), "司馬".to_string(), "沮".to_string(), "王".to_string()];
    let re = build_name_regex(&extra);
    assert!(re.contains("宿勤|乞伏)"));
    assert_eq!(re.matches("司馬").count(), 1);
    assert!(re.contains("種沮]"));
    assert_eq!(re.matches('王').count(), 1);
}

#[test]
fn extra_surnames_are_collected_once_in_order() {
    let persons = vec![official("褚", "淵"), official("乞伏", "國仁"), official("褚", "炤")];
    assert_eq!(collect_extra_surnames(&persons), vec!["褚".to_string(), "乞伏".to_string()]);
}

#[test]
fn title_regex_lists_every_title_once() {
    let re = build_title_regex();
    assert!(re.starts_with("(?:將軍|校尉|"));
    assert!(re.ends_with("|秘書|著作)"));
    assert_eq!(re.matches("司馬").count(), 1);
    assert_eq!(re.matches('|').count(), 38);
}
