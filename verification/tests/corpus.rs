use person_extract::extract::{count_refs, count_refs_in_biography, PersonSummary};
use person_extract::scanner::{
    begins_with_number, classify_file, is_year_file, keeps_stem, strip_numeric_prefix,
};
use person_extract::types::{
    Book, ChildhoodName, CourtesyName, Person, PersonKind, Section, Source,
};

fn source(section: Section) -> Source {
    Source {
        book: Book::NanQiShu,
        section,
        juan: "卷一".to_string(),
        file_path: "corpus/南齊書/列傳/卷一/02_褚淵.txt".to_string(),
    }
}

#[test]
fn books_by_title() {
    let books =
        [Book::JinShu, Book::SongShu, Book::NanQiShu, Book::LiangShu, Book::ChenShu, Book::WeiShu];
    let titles = ["晉書", "宋書", "南齊書", "梁書", "陳書", "魏書"];
    for (book, title) in books.iter().zip(titles.iter()) {
        assert_eq!(book.as_chinese(), *title);
        assert_eq!(Book::from_dir_name(title), Some(*book));
    }
    assert_eq!(Book::from_dir_name("src"), None);
    assert_eq!(Book::from_dir_name("晉"), None);
    assert_eq!(Book::from_dir_name(""), None);
}

#[test]
fn sections_by_directory_name() {
    assert_eq!(Section::from_dir_name("01_本紀"), Section::BenJi);
    assert_eq!(Section::from_dir_name("帝紀"), Section::BenJi);
    assert_eq!(Section::from_dir_name("02_列傳"), Section::LieZhuan);
    assert_eq!(Section::from_dir_name("載記"), Section::ZaiJi);
    assert_eq!(Section::from_dir_name("03_志"), Section::Zhi);
    assert_eq!(Section::from_dir_name("附錄"), Section::Other);
    assert_eq!(Section::from_dir_name("列傳與紀"), Section::BenJi);
    assert_eq!(Section::BenJi.label(), "本紀");
    assert_eq!(Section::Other.label(), "其他");
}

#[test]
fn numeric_prefixes_and_year_files() {
    assert_eq!(strip_numeric_prefix("02_褚淵"), "褚淵");
    assert_eq!(strip_numeric_prefix("褚淵"), "褚淵");
    assert_eq!(strip_numeric_prefix("a2_褚淵"), "a2_褚淵");
    assert_eq!(strip_numeric_prefix("_褚淵"), "褚淵");
    assert_eq!(strip_numeric_prefix("12_"), "");
    assert_eq!(strip_numeric_prefix("1_2_3"), "2_3");
    assert!(is_year_file("永明五年"));
    assert!(is_year_file("三年餘"));
    assert!(!is_year_file("年號"));
    assert!(!is_year_file(""));
}

#[test]
fn which_files_hold_a_biography() {
    assert!(keeps_stem("01_褚淵", Section::LieZhuan));
    assert!(keeps_stem("1_褚淵", Section::Other));
    assert!(!keeps_stem("褚淵", Section::LieZhuan));
    assert!(!keeps_stem("_褚淵", Section::LieZhuan));
    assert!(!keeps_stem("a1_褚淵", Section::LieZhuan));
    assert!(!keeps_stem("01褚淵", Section::LieZhuan));
    assert!(!keeps_stem("03_史論", Section::LieZhuan));
    assert!(!keeps_stem("07_贊", Section::BenJi));
    assert!(!keeps_stem("00_目录", Section::LieZhuan));
    assert!(!keeps_stem("00_目录", Section::Zhi));
    assert!(keeps_stem("00_目录", Section::BenJi));
    assert!(keeps_stem("00_目录", Section::ZaiJi));
    assert!(!keeps_stem("目录", Section::ZaiJi));
    assert!(!keeps_stem("05_永明五年", Section::LieZhuan));
    assert!(!keeps_stem("05_三年餘", Section::LieZhuan));
    assert!(begins_with_number("02_褚淵"));
    assert!(begins_with_number("2_"));
    assert!(!begins_with_number("_褚淵"));
    assert!(!begins_with_number("02褚淵"));
    assert!(!begins_with_number("0a_褚淵"));
    assert!(!begins_with_number(""));
    let kept = classify_file(source(Section::LieZhuan), "02_褚淵", Some("txt")).unwrap();
    assert_eq!(kept.path, "corpus/南齊書/列傳/卷一/02_褚淵.txt");
    assert_eq!(kept.source.book, Book::NanQiShu);
    assert!(classify_file(source(Section::LieZhuan), "褚淵", Some("txt")).is_none());
    assert!(classify_file(source(Section::LieZhuan), "02_褚淵", Some("md")).is_none());
    assert!(classify_file(source(Section::LieZhuan), "02_褚淵", None).is_none());
    assert!(classify_file(source(Section::LieZhuan), "00_目录", Some("txt")).is_none());
    assert!(classify_file(source(Section::BenJi), "00_目录", Some("txt")).is_some());
}

#[test]
fn occurrences_of_aliases() {
    let aliases: Vec<String> =
        ["褚淵", "淵", "彥回", "", "無", "淵"].iter().map(|s| s.to_string()).collect();
    let stats = count_refs(&aliases, "褚淵字彥回。\n淵少有世譽。\n");
    assert_eq!(
        stats.alias_counts,
        vec![("褚淵".to_string(), 1), ("淵".to_string(), 2), ("彥回".to_string(), 1)]
    );
    assert_eq!(stats.total_lines, 2);
    let overlap = count_refs(&vec!["aa".to_string(), "aaa".to_string()], "aaaa\n\nb");
    assert_eq!(overlap.alias_counts, vec![("aa".to_string(), 2), ("aaa".to_string(), 1)]);
    assert_eq!(overlap.total_lines, 3);
    assert_eq!(count_refs(&aliases, "").total_lines, 0);
}

#[test]
fn the_summary_of_a_subject() {
    let mut person = Person {
        kind: PersonKind::Official {
            surname: "褚".to_string(),
            given_name: "淵".to_string(),
            courtesy_name: CourtesyName::Recorded("彥回".to_string()),
            origin: Some("河南陽翟".to_string()),
        },
        source: source(Section::LieZhuan),
        aliases: Vec::new(),
    };
    person.compute_aliases();
    let stats = count_refs_in_biography(&person, "褚淵字彥回，河南陽翟人也。\n淵少有世譽。");
    assert_eq!(
        stats.alias_counts,
        vec![("褚淵".to_string(), 1), ("淵".to_string(), 2), ("彥回".to_string(), 1)]
    );
    assert_eq!(stats.total_lines, 2);
    let summary = PersonSummary::from_person(&person, Some("褚淵字彥回，河南陽翟人也。"));
    assert_eq!(summary.display_name, "褚淵");
    assert_eq!(summary.book, "南齊書");
    assert_eq!(summary.section, "列傳");
    assert_eq!(summary.kind, "Official");
    assert_eq!(summary.aliases, person.aliases);
    assert_eq!(summary.courtesy_name.as_deref(), Some("彥回"));
    assert_eq!(summary.origin.as_deref(), Some("河南陽翟"));
    assert_eq!(summary.file, "corpus/南齊書/列傳/卷一/02_褚淵.txt");
    assert_eq!(summary.ref_stats.total_lines, 1);
    assert_eq!(summary.ref_stats.alias_counts.len(), 3);
    let unread = PersonSummary::from_person(&person, None);
    assert!(unread.ref_stats.alias_counts.is_empty());
    assert_eq!(unread.ref_stats.total_lines, 0);
    let deposed = Person {
        kind: PersonKind::Deposed {
            title: "廢帝".to_string(),
            given_name: "昱".to_string(),
            courtesy_name: CourtesyName::NotRecorded,
            childhood_name: ChildhoodName::Recorded("慧震".to_string()),
        },
        source: source(Section::BenJi),
        aliases: Vec::new(),
    };
    let summary = PersonSummary::from_person(&deposed, None);
    assert_eq!(summary.kind, "Deposed");
    assert_eq!(summary.section, "本紀");
    assert_eq!(summary.courtesy_name, None);
    assert_eq!(summary.origin, None);
    assert_eq!(summary.display_name, "廢帝昱");
}
