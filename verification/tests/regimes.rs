use person_extract::regime::{
    build_era_regex, default_regime, era_entries, era_sort_key, exact_ad_year,
    regime_display_tree, regime_sort_key, resolve_era, DisplayTree, Regime, ERA_COUNT,
};
use person_extract::types::Book;

#[test]
fn test_exact_ad_year_liu_song() {
    assert_eq!(exact_ad_year("劉宋", "元嘉", 1), Some(424));
    assert_eq!(exact_ad_year("劉宋", "元嘉", 30), Some(453));
}

#[test]
fn test_exact_ad_year_northern_wei() {
    assert_eq!(exact_ad_year("北魏", "太和", 1), Some(477));
    assert_eq!(exact_ad_year("北魏", "太和", 23), Some(499));
}

#[test]
fn test_exact_ad_year_cross_regime_ordering() {
    let song = exact_ad_year("劉宋", "元嘉", 1).unwrap();
    let wei = exact_ad_year("北魏", "太和", 1).unwrap();
    assert!(song < wei, "劉宋/元嘉({song}) should be before 北魏/太和({wei})");
}

#[test]
fn test_exact_ad_year_dynasty_succession() {
    let yixi = exact_ad_year("東晉", "義熙", 14).unwrap();
    let yuanjia = exact_ad_year("劉宋", "元嘉", 1).unwrap();
    assert_eq!(yixi, 418);
    assert_eq!(yuanjia, 424);
    let gap = yuanjia.abs_diff(yixi);
    assert!(gap <= 10, "義熙14→元嘉1 gap should be small, got {gap}");
}

#[test]
fn test_exact_ad_year_unknown_era() {
    assert!(exact_ad_year("劉宋", "不存在", 1).is_none());
}

#[test]
fn test_exact_ad_year_unknown_regime() {
    assert!(exact_ad_year("不存在", "元嘉", 1).is_none());
}

#[test]
fn every_era_begins_no_later_than_it_ends() {
    let entries = era_entries();
    assert_eq!(entries.len(), ERA_COUNT);
    for e in &entries {
        assert!(e.start_ad <= e.end_ad, "{}", e.name);
        assert_eq!(exact_ad_year(e.regime.as_chinese(), e.name, 1), Some(e.start_ad));
        assert_eq!(exact_ad_year(e.regime.as_chinese(), e.name, 0), Some(e.start_ad - 1));
    }
    assert_eq!(entries[0].name, "泰始");
    assert_eq!((entries[0].start_ad, entries[0].end_ad), (265, 274));
}

#[test]
fn an_ambiguous_era_goes_to_the_regime_of_the_book() {
    assert_eq!(resolve_era("太和", Book::JinShu), Some(Regime::EasternJin));
    assert_eq!(resolve_era("太和", Book::WeiShu), Some(Regime::NorthernWei));
    assert_eq!(resolve_era("元嘉", Book::SongShu), Some(Regime::LiuSong));
}

#[test]
fn an_era_of_another_regime_goes_to_its_first_owner() {
    assert_eq!(resolve_era("元嘉", Book::WeiShu), Some(Regime::LiuSong));
    assert_eq!(resolve_era("泰始", Book::LiangShu), Some(Regime::WesternJin));
    assert_eq!(resolve_era("不存在", Book::LiangShu), None);
}

#[test]
fn books_have_their_default_regimes() {
    assert_eq!(default_regime(Book::JinShu), Regime::EasternJin);
    assert_eq!(default_regime(Book::SongShu), Regime::LiuSong);
    assert_eq!(default_regime(Book::NanQiShu), Regime::SouthernQi);
    assert_eq!(default_regime(Book::LiangShu), Regime::Liang);
    assert_eq!(default_regime(Book::ChenShu), Regime::Chen);
    assert_eq!(default_regime(Book::WeiShu), Regime::NorthernWei);
}

#[test]
fn era_sort_key_is_the_catalogue_position() {
    assert_eq!(era_sort_key("西晉", "泰始"), 0);
    assert_eq!(era_sort_key("西晉", "咸寧"), 1);
    assert_eq!(era_sort_key("北燕", "太平"), ERA_COUNT - 1);
    assert_eq!(era_sort_key("西晉", "不存在"), usize::MAX);
    assert!(era_sort_key("劉宋", "永初") < era_sort_key("劉宋", "元嘉"));
}

#[test]
fn regime_sort_key_is_the_first_year() {
    assert_eq!(regime_sort_key("西晉"), 265);
    assert_eq!(regime_sort_key("劉宋"), 420);
    assert_eq!(regime_sort_key("北魏"), 386);
    assert_eq!(regime_sort_key("不存在"), 9999);
    assert_eq!(Regime::Chen.start_ad_year(), 557);
    assert_eq!(Regime::XiaState.as_chinese(), "夏");
}

#[test]
fn era_regex_puts_long_names_first_and_each_name_once() {
    let re = build_era_regex();
    assert!(re.starts_with("(?:太平真君|"));
    assert!(re.ends_with(")"));
    let long = re.find("太平真君").unwrap();
    let short = re.rfind("|太平|").or_else(|| re.rfind("|太平)")).unwrap();
    assert!(long < short);
    assert_eq!(re.matches("|太和|").count() + re.matches("|太和)").count(), 1);
    assert_eq!(re.matches("元嘉").count(), 1);
}

#[test]
fn display_tree_has_the_canonical_shape() {
    match regime_display_tree() {
        DisplayTree::Branch { regime, sequence, concurrent } => {
            assert_eq!(regime, Regime::WesternJin);
            assert!(sequence.is_empty());
            assert_eq!(concurrent.len(), 2);
            assert!(matches!(concurrent[1], DisplayTree::Leaf(Regime::NorthernWei)));
            match &concurrent[0] {
                DisplayTree::Branch { regime, sequence, concurrent } => {
                    assert_eq!(*regime, Regime::EasternJin);
                    assert_eq!(sequence.len(), 4);
                    assert!(matches!(sequence[0], DisplayTree::Leaf(Regime::LiuSong)));
                    assert!(matches!(sequence[3], DisplayTree::Leaf(Regime::Chen)));
                    assert_eq!(concurrent.len(), 16);
                    let mut last = 0;
                    for node in concurrent {
                        match node {
                            DisplayTree::Leaf(r) => {
                                assert!(r.start_ad_year() >= last);
                                last = r.start_ad_year();
                            }
                            DisplayTree::Branch { .. } => panic!("a kingdom has no branches"),
                        }
                    }
                }
                DisplayTree::Leaf(_) => panic!("Eastern Jin has branches"),
            }
        }
        DisplayTree::Leaf(_) => panic!("the root has branches"),
    }
}
