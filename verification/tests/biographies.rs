use person_extract::parser::{
    extract_surname_from_juan, extract_temple_from_juan, header_lines, BiographyParser,
};
use person_extract::types::{
    Book, ChildhoodName, CourtesyName, Person, PersonKind, Section, Source,
};

fn parser() -> BiographyParser {
    match BiographyParser::new() {
        Ok(p) => p,
        Err(e) => panic!("the patterns compile: {e:?}"),
    }
}

fn source(section: Section, juan: &str) -> Source {
    Source { book: Book::JinShu, section, juan: juan.to_string(), file_path: "f.txt".to_string() }
}

fn courtesy(c: &CourtesyName) -> Option<&str> {
    match c {
        CourtesyName::Recorded(s) => Some(s.as_str()),
        CourtesyName::NotRecorded => None,
    }
}

fn childhood(c: &ChildhoodName) -> Option<&str> {
    match c {
        ChildhoodName::Recorded(s) => Some(s.as_str()),
        ChildhoodName::NotRecorded => None,
    }
}

#[test]
fn an_official_with_courtesy_name() {
    let p = parser();
    let src = source(Section::LieZhuan, "列傳第四　褚淵");
    let person = p.parse_biography("褚淵字彥回，河南陽翟人也。祖秀之。", &src).unwrap();
    match &person.kind {
        PersonKind::Official { surname, given_name, courtesy_name, origin } => {
            assert_eq!(surname, "褚");
            assert_eq!(given_name, "淵");
            assert_eq!(courtesy(courtesy_name), Some("彥回"));
            assert_eq!(origin.as_deref(), Some("河南陽翟"));
        }
        other => panic!("an official was expected, not {other:?}"),
    }
    assert_eq!(person.aliases, vec!["褚淵".to_string(), "淵".to_string(), "彥回".to_string()]);
    assert_eq!(person.display_name(), "褚淵");
    assert_eq!(person.source.juan, "列傳第四　褚淵");
}

#[test]
fn an_official_with_a_comma_before_the_courtesy_name() {
    let p = parser();
    let src = source(Section::LieZhuan, "j");
    let person = p.try_parse_official("韓秀，字白虎，昌黎人也。", &src).unwrap();
    match &person.kind {
        PersonKind::Official { surname, given_name, courtesy_name, origin } => {
            assert_eq!((surname.as_str(), given_name.as_str()), ("韓", "秀"));
            assert_eq!(courtesy(courtesy_name), Some("白虎"));
            assert_eq!(origin.as_deref(), Some("昌黎"));
        }
        other => panic!("an official was expected, not {other:?}"),
    }
}

#[test]
fn an_official_without_courtesy_name() {
    let p = parser();
    let src = source(Section::LieZhuan, "j");
    let person = p.try_parse_official("司馬褧，河內溫人也。", &src).unwrap();
    match &person.kind {
        PersonKind::Official { surname, given_name, courtesy_name, origin } => {
            assert_eq!((surname.as_str(), given_name.as_str()), ("司馬", "褧"));
            assert_eq!(courtesy(courtesy_name), None);
            assert_eq!(origin.as_deref(), Some("河內溫"));
        }
        other => panic!("an official was expected, not {other:?}"),
    }
    assert_eq!(person.aliases, vec!["司馬褧".to_string(), "褧".to_string()]);
    assert!(p.try_parse_official("太元中，以功封侯。", &src).is_none());
}

#[test]
fn an_emperor_with_temple_name() {
    let p = parser();
    let src = source(Section::BenJi, "本紀第一　武帝上");
    let text = "武帝上\n梁書卷第一\n\n  高祖武皇帝，諱衍，字叔達，小字練兒，南蘭陵中都里人，姓蕭氏。\n";
    let person = p.parse_biography(text, &src).unwrap();
    match &person.kind {
        PersonKind::Emperor {
            temple_name,
            posthumous_title,
            given_name,
            surname,
            courtesy_name,
            childhood_name,
        } => {
            assert_eq!(temple_name.as_deref(), Some("高祖"));
            assert_eq!(posthumous_title, "武皇帝");
            assert_eq!(given_name, "衍");
            assert_eq!(surname.as_deref(), Some("蕭"));
            assert_eq!(courtesy(courtesy_name), Some("叔達"));
            assert_eq!(childhood(childhood_name), Some("練兒"));
        }
        other => panic!("an emperor was expected, not {other:?}"),
    }
    assert_eq!(
        person.aliases,
        vec![
            "蕭衍".to_string(),
            "衍".to_string(),
            "叔達".to_string(),
            "練兒".to_string(),
            "高祖".to_string(),
            "武皇帝".to_string()
        ]
    );
    assert_eq!(person.display_name(), "蕭衍");
}

#[test]
fn an_emperor_without_temple_name_takes_it_from_the_volume() {
    let p = parser();
    let src = source(Section::BenJi, "00_帝紀第一　高祖宣帝");
    let line = "宣皇帝諱懿，字仲達，河內溫縣孝敬里人，姓司馬氏。";
    let person = p.try_parse_emperor(line, line, &src).unwrap();
    match &person.kind {
        PersonKind::Emperor { temple_name, posthumous_title, given_name, surname, courtesy_name, childhood_name } => {
            assert_eq!(temple_name.as_deref(), Some("高祖"));
            assert_eq!(posthumous_title, "宣皇帝");
            assert_eq!(given_name, "懿");
            assert_eq!(surname.as_deref(), Some("司馬"));
            assert_eq!(courtesy(courtesy_name), Some("仲達"));
            assert_eq!(childhood(childhood_name), None);
        }
        other => panic!("an emperor was expected, not {other:?}"),
    }
    let plain = source(Section::BenJi, "帝紀");
    let unnamed = p.try_parse_emperor("宣皇帝諱懿，字仲達，", "宣皇帝諱懿，字仲達，", &plain).unwrap();
    match &unnamed.kind {
        PersonKind::Emperor { temple_name, surname, .. } => {
            assert_eq!(temple_name.as_deref(), None);
            assert_eq!(surname.as_deref(), None);
        }
        other => panic!("an emperor was expected, not {other:?}"),
    }
    assert_eq!(unnamed.display_name(), "宣皇帝");
}

#[test]
fn a_deposed_emperor() {
    let p = parser();
    let src = source(Section::BenJi, "本紀");
    let line = "廢帝諱昱，字德融，小字慧震，明帝長子也。";
    let person = p.try_parse_emperor(line, line, &src).unwrap();
    match &person.kind {
        PersonKind::Deposed { title, given_name, courtesy_name, childhood_name } => {
            assert_eq!(title, "廢帝");
            assert_eq!(given_name, "昱");
            assert_eq!(courtesy(courtesy_name), Some("德融"));
            assert_eq!(childhood(childhood_name), Some("慧震"));
        }
        other => panic!("a deposed emperor was expected, not {other:?}"),
    }
    assert_eq!(
        person.aliases,
        vec!["昱".to_string(), "德融".to_string(), "慧震".to_string(), "廢帝".to_string()]
    );
    assert_eq!(person.display_name(), "廢帝昱");
}

#[test]
fn foreign_rulers() {
    let p = parser();
    let src = source(Section::ZaiJi, "15_載記第十六　姚弋仲 姚襄 姚萇");
    let with = p.try_parse_ruler("慕容垂，字道明，皝之第五子也。", &src).unwrap();
    match &with.kind {
        PersonKind::Ruler { surname, given_name, courtesy_name, lineage } => {
            assert_eq!((surname.as_str(), given_name.as_str()), ("慕容", "垂"));
            assert_eq!(courtesy(courtesy_name), Some("道明"));
            assert_eq!(lineage.as_deref(), Some("皝之第五子也"));
        }
        other => panic!("a ruler was expected, not {other:?}"),
    }
    let given_only = p.try_parse_ruler("萇字景茂，弋仲第二十四子也。", &src).unwrap();
    match &given_only.kind {
        PersonKind::Ruler { surname, given_name, courtesy_name, .. } => {
            assert_eq!((surname.as_str(), given_name.as_str()), ("姚", "萇"));
            assert_eq!(courtesy(courtesy_name), Some("景茂"));
        }
        other => panic!("a ruler was expected, not {other:?}"),
    }
    let taboo = p.try_parse_ruler("劉元海，新興匈奴人，冒頓之後也。", &src).unwrap();
    match &taboo.kind {
        PersonKind::Ruler { surname, given_name, courtesy_name, lineage } => {
            assert_eq!((surname.as_str(), given_name.as_str()), ("劉", "元海"));
            assert_eq!(courtesy(courtesy_name), None);
            assert_eq!(lineage.as_deref(), Some("新興匈奴人，冒頓之後也"));
        }
        other => panic!("a ruler was expected, not {other:?}"),
    }
    assert!(p.try_parse_ruler("。", &src).is_none());
    assert_eq!(p.extract_lineage("苻堅，字永固，一名文玉，雄之子也。").as_deref(), Some("雄之子也"));
    assert_eq!(p.extract_lineage("無所出"), None);
}

#[test]
fn foreign_records_fall_back_to_the_looser_patterns() {
    let p = parser();
    let src = source(Section::ZaiJi, "載記第三　劉聰");
    let person = p.parse_biography("載記第三\n劉聰，字玄明，一名載，元海第四子也。", &src).unwrap();
    assert!(matches!(person.kind, PersonKind::Ruler { .. }));
    assert_eq!(person.display_name(), "劉聰");
    let biography = source(Section::LieZhuan, "列傳");
    assert!(p.parse_biography("載記第三\n劉聰，字玄明，一名載，元海第四子也。", &biography).is_none());
    assert!(p.parse_biography("", &src).is_none());
    assert!(p.parse_biography("\n\n  \n", &src).is_none());
}

#[test]
fn only_the_first_ten_lines_are_read() {
    let p = parser();
    let src = source(Section::LieZhuan, "列傳");
    let late = format!("{}褚淵字彥回，河南陽翟人也。", "\n".repeat(10));
    assert!(p.parse_biography(&late, &src).is_none());
    let in_time = format!("{}褚淵字彥回，河南陽翟人也。", "\n".repeat(9));
    assert!(p.parse_biography(&in_time, &src).is_some());
    assert_eq!(header_lines(" a \r\n\r\n\tb\nc"), vec!["a".to_string(), "b".to_string(), "c".to_string()]);
    assert_eq!(header_lines("1\n2\n3\n4\n5\n6\n7\n8\n9\n10\n11").len(), 10);
}

#[test]
fn surname_and_temple_name_of_a_volume() {
    assert_eq!(extract_surname_from_juan("15_載記第十六　姚弋仲 姚襄 姚萇").as_deref(), Some("姚"));
    assert_eq!(extract_surname_from_juan("載記第二十三 慕容垂").as_deref(), Some("慕容"));
    assert_eq!(extract_surname_from_juan("赫連勃勃").as_deref(), Some("赫連"));
    assert_eq!(extract_surname_from_juan("石勒").as_deref(), Some("石"));
    assert_eq!(extract_surname_from_juan("載記　"), None);
    assert_eq!(extract_surname_from_juan(""), None);
    assert_eq!(extract_temple_from_juan("00_帝紀第一　高祖宣帝").as_deref(), Some("高祖"));
    assert_eq!(extract_temple_from_juan("世祖太宗").as_deref(), Some("世祖"));
    assert_eq!(extract_temple_from_juan("帝紀第二").as_deref(), None);
}

#[test]
fn aliases_follow_the_kind() {
    let mut ruler = Person {
        kind: PersonKind::Ruler {
            surname: "苻".to_string(),
            given_name: "堅".to_string(),
            courtesy_name: CourtesyName::Recorded("永固".to_string()),
            lineage: None,
        },
        source: source(Section::ZaiJi, "j"),
        aliases: vec!["old".to_string()],
    };
    ruler.compute_aliases();
    assert_eq!(ruler.aliases, vec!["苻堅".to_string(), "堅".to_string(), "永固".to_string()]);
    assert_eq!(ruler.display_name(), "苻堅");
    let mut emperor = Person {
        kind: PersonKind::Emperor {
            temple_name: None,
            posthumous_title: "宣皇帝".to_string(),
            given_name: "懿".to_string(),
            surname: None,
            courtesy_name: CourtesyName::NotRecorded,
            childhood_name: ChildhoodName::NotRecorded,
        },
        source: source(Section::BenJi, "j"),
        aliases: Vec::new(),
    };
    emperor.compute_aliases();
    assert_eq!(emperor.aliases, vec!["懿".to_string(), "宣皇帝".to_string()]);
}
