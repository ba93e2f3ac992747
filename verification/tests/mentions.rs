use person_extract::intext::{
    aggregate_mentions, is_false_positive, InTextMention, InTextScanner, MentionPattern,
};
use person_extract::scanner::{BiographyFile, LoadedFile};
use person_extract::types::{Book, CourtesyName, Person, PersonKind, Section, Source};

fn source(path: &str) -> Source {
    Source {
        book: Book::SongShu,
        section: Section::LieZhuan,
        juan: "列傳".to_string(),
        file_path: path.to_string(),
    }
}

fn loaded(path: &str, content: &str) -> LoadedFile {
    LoadedFile {
        file: BiographyFile { source: source(path), path: path.to_string() },
        content: content.to_string(),
    }
}

fn scanner(persons: &[Person]) -> InTextScanner {
    match InTextScanner::new(persons) {
        Ok(s) => s,
        Err(e) => panic!("the patterns compile: {e:?}"),
    }
}

fn mention(name: &str, pattern: MentionPattern, file: &str, context: &str) -> InTextMention {
    InTextMention {
        name: name.to_string(),
        surname: name.chars().take(1).collect(),
        given: name.chars().skip(1).collect(),
        pattern,
        context: context.to_string(),
        source_file: file.to_string(),
    }
}

#[test]
fn the_filter_rejects_titles_places_and_trailing_words() {
    assert!(is_false_positive("左僕射"));
    assert!(is_false_positive("黃門郎"));
    assert!(is_false_positive("左傳"));
    assert!(!is_false_positive("部郎"));
    assert!(is_false_positive("王將軍"));
    assert!(is_false_positive("王太尉"));
    assert!(is_false_positive("江夏王"));
    assert!(is_false_positive("荊州"));
    assert!(is_false_positive("王進為"));
    assert!(is_false_positive("王進曰"));
    assert!(is_false_positive("李三"));
}

#[test]
fn the_filter_lets_real_names_pass() {
    assert!(!is_false_positive("王猛"));
    assert!(!is_false_positive("王凝之"));
    assert!(!is_false_positive("劉穆之"));
    assert!(!is_false_positive("褚淵"));
    assert!(!is_false_positive("公"));
    assert!(!is_false_positive(""));
    assert!(!is_false_positive("謝公"));
}

#[test]
fn pattern_labels() {
    assert_eq!(MentionPattern::Appointment.as_str(), "以X為");
    assert_eq!(MentionPattern::TitleName.as_str(), "官銜+名");
    assert_eq!(MentionPattern::CourtesyIntro.as_str(), "X字Y");
    assert_eq!(MentionPattern::Speech.as_str(), "問/謂X曰");
}

#[test]
fn a_title_before_a_name_is_not_taken_for_a_person() {
    let s = scanner(&[]);
    let mentions = s.scan_text("以左僕射王進為太尉。", "t");
    assert!(mentions.iter().all(|m| m.name != "左僕射"));
    let names: Vec<&str> = mentions.iter().map(|m| m.name.as_str()).collect();
    assert_eq!(names, vec!["王進"]);
    assert_eq!(mentions[0].pattern, MentionPattern::Appointment);
    assert_eq!(mentions[0].surname, "王");
    assert_eq!(mentions[0].given, "進");
    assert_eq!(mentions[0].source_file, "t");
    assert_eq!(mentions[0].context, "以左僕射王進為太尉。");
}

#[test]
fn the_four_patterns_find_names() {
    let s = scanner(&[]);
    let found = |text: &str| -> Vec<(String, MentionPattern)> {
        s.scan_text(text, "t").into_iter().map(|m| (m.name, m.pattern)).collect()
    };
    assert_eq!(found("以王猛為丞相"), vec![("王猛".to_string(), MentionPattern::Appointment)]);
    assert_eq!(found("太尉王猛，"), vec![("王猛".to_string(), MentionPattern::TitleName)]);
    assert!(found("太尉王猛入").is_empty());
    assert_eq!(found("褚淵字彥回"), vec![("褚淵".to_string(), MentionPattern::CourtesyIntro)]);
    assert_eq!(found("帝謂謝安曰"), vec![("謝安".to_string(), MentionPattern::Speech)]);
    assert_eq!(found("司馬休之字季豫")[0].0, "司馬休之");
    assert!(found("問王進為曰").is_empty());
}

#[test]
fn the_given_name_has_one_or_two_characters() {
    let made = InTextScanner::make_mention("司馬休之", MentionPattern::Speech, "問司馬休之曰", 3, "f");
    let m = made.unwrap();
    assert_eq!((m.surname.as_str(), m.given.as_str()), ("司馬", "休之"));
    assert_eq!(m.context, "問司馬休之曰");
    assert!(InTextScanner::make_mention("王", MentionPattern::Speech, "王", 0, "f").is_none());
    assert!(InTextScanner::make_mention("王一二三", MentionPattern::Speech, "x", 0, "f").is_none());
    assert!(InTextScanner::make_mention("左僕射", MentionPattern::Speech, "x", 0, "f").is_none());
}

#[test]
fn mentions_are_gathered_by_name() {
    let ms = vec![
        mention("王進", MentionPattern::Appointment, "b.txt", "c1"),
        mention("李沖", MentionPattern::Speech, "b.txt", "c2"),
        mention("王進", MentionPattern::Speech, "a.txt", "c3"),
        mention("王進", MentionPattern::Appointment, "b.txt", "c4"),
        mention("王進", MentionPattern::TitleName, "b.txt", "c5"),
        mention("謝安", MentionPattern::Speech, "a.txt", "c6"),
    ];
    let known = vec!["李沖".to_string()];
    let persons = aggregate_mentions(&ms, &known);
    let names: Vec<&str> = persons.iter().map(|p| p.name.as_str()).collect();
    assert_eq!(names, vec!["王進", "李沖", "謝安"]);
    let wang = &persons[0];
    assert_eq!(wang.mention_count, 4);
    assert_eq!(wang.mentioned_in, vec!["a.txt".to_string(), "b.txt".to_string()]);
    assert_eq!(
        wang.pattern_counts,
        vec![("以X為".to_string(), 2), ("問/謂X曰".to_string(), 1), ("官銜+名".to_string(), 1)]
    );
    assert_eq!(wang.sample_contexts, vec!["c1".to_string(), "c3".to_string(), "c4".to_string()]);
    assert!(!wang.has_own_biography);
    assert_eq!((wang.surname.as_str(), wang.given.as_str()), ("王", "進"));
    assert!(persons[1].has_own_biography);
    assert_eq!(persons[1].mention_count, 1);
}

#[test]
fn the_corpus_scan_knows_the_biography_subjects() {
    let mut subject = Person {
        kind: PersonKind::Official {
            surname: "苟".to_string(),
            given_name: "晞".to_string(),
            courtesy_name: CourtesyName::Recorded("道將".to_string()),
            origin: None,
        },
        source: source("s.txt"),
        aliases: Vec::new(),
    };
    subject.compute_aliases();
    assert!(scanner(&[]).scan_text("謂苟晞曰。", "t").is_empty());
    let s = scanner(&[subject]);
    let files = vec![
        loaded("b.txt", "帝謂苟晞曰。帝謂王進曰。"),
        loaded("a.txt", "問苟晞曰。以苟晞為將軍。"),
    ];
    let persons = s.scan_corpus(&files);
    assert_eq!(persons.len(), 2);
    assert_eq!(persons[0].name, "苟晞");
    assert_eq!(persons[0].surname, "苟");
    assert_eq!(persons[0].given, "晞");
    assert_eq!(persons[0].mention_count, 3);
    assert!(persons[0].has_own_biography);
    assert_eq!(persons[0].mentioned_in, vec!["a.txt".to_string(), "b.txt".to_string()]);
    assert_eq!(
        persons[0].pattern_counts,
        vec![("問/謂X曰".to_string(), 2), ("以X為".to_string(), 1)]
    );
    assert_eq!(persons[1].name, "王進");
    assert!(!persons[1].has_own_biography);
}
