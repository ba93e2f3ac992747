use person_extract::place::is_plausible_place;
use person_extract::scan::EventScanner;

#[test]
fn test_is_plausible_place_valid() {
    assert!(is_plausible_place("郢州"));
    assert!(is_plausible_place("荊州"));
    assert!(is_plausible_place("建康"));
    assert!(is_plausible_place("南兗州"));
}

#[test]
fn test_is_plausible_place_bad_start() {
    assert!(!is_plausible_place("殺人"));
    assert!(!is_plausible_place("攻城"));
    assert!(!is_plausible_place("克敵"));
}

#[test]
fn test_is_plausible_place_length_bounds() {
    assert!(!is_plausible_place("州"));
    assert!(!is_plausible_place("建康城外"));
}

#[test]
fn brackets_and_verbs_spoil_a_place() {
    assert!(!is_plausible_place("[荊州"));
    assert!(!is_plausible_place("荊]州"));
    assert!(!is_plausible_place("攻暐洛"));
    assert!(!is_plausible_place(""));
}

#[test]
fn a_campaign_target_is_a_place_by_its_last_character() {
    let p = EventScanner::detect_place_target("建康城").unwrap();
    assert_eq!(p.name, "建康城");
    assert!(!p.is_qiao);
    assert_eq!(p.role_suffix, None);
    assert!(EventScanner::detect_place_target("之").is_none());
    assert!(EventScanner::detect_place_target("").is_none());
    let q = EventScanner::detect_place_target("南兗州").unwrap();
    assert!(q.is_qiao);
    assert!(!EventScanner::detect_place_target("南州").unwrap().is_qiao);
}
