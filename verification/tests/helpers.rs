use person_extract::order::{stable_order, word_not_behind, word_order};
use person_extract::pattern::{build, PatternError};
use person_extract::tally::{lookup, sort_by_count, tally_words};
use person_extract::text::{
    byte_len, chars_of, extract_context, slice_bytes, str_eq, string_of, trim_string,
};
use person_extract::words::{alternation_of, distinct_words, join_words, longest_first_words};

fn words(items: &[&str]) -> Vec<String> {
    items.iter().map(|s| s.to_string()).collect()
}

#[test]
fn a_pattern_that_does_not_compile_is_reported() {
    assert!(matches!(build("(王"), Err(PatternError::Syntax(_))));
    assert!(matches!(build("\\w{1000}"), Err(PatternError::TooBig(_))));
    assert!(build("(王|李)[^，]{1,2}").is_ok());
}

#[test]
fn the_context_of_an_offset() {
    let text = "第一行\n元嘉三年，以王進為冠軍將軍。\n第三行";
    let at = text.find("以王進").unwrap();
    assert_eq!(extract_context(text, at, 3), "三年，以王進");
    assert_eq!(extract_context(text, at, 5), "元嘉三年，以王進為冠");
    assert_eq!(extract_context(text, at, 9), "元嘉三年，以王進為冠軍將軍。");
    assert_eq!(extract_context(text, at, 30), "元嘉三年，以王進為冠軍將軍。");
    assert_eq!(extract_context(text, 0, 2), "第一");
    assert_eq!(extract_context(text, 0, 30), "第一行");
    assert_eq!(extract_context(text, text.len() - 3, 30), "第三行");
    assert_eq!(extract_context(text, text.len() - 1, 30), "第一行");
    assert_eq!(extract_context(text, text.len(), 2), "第一");
    assert_eq!(extract_context("", 0, 5), "");
    assert_eq!(extract_context("\n\n", 0, 5), "");
    assert_eq!(extract_context("甲\r\n乙", 0, 5), "甲");
    assert_eq!(extract_context("\r\n乙\r", 2, 5), "乙\r");
    assert_eq!(extract_context("甲\n乙", 3, 5), "甲");
    assert_eq!(extract_context("王進卒", 1, 1), "王進");
    assert_eq!(extract_context("王進卒", 0, usize::MAX), "王進卒");
}

#[test]
fn characters_and_bytes() {
    assert_eq!(chars_of("元a嘉"), vec!['元', 'a', '嘉']);
    assert_eq!(string_of(&vec!['元', 'a', '嘉'], 1, 3), "a嘉");
    assert_eq!(string_of(&vec!['元', 'a', '嘉'], 2, 9), "嘉");
    assert_eq!(string_of(&vec!['元', 'a', '嘉'], 3, 1), "");
    assert_eq!(byte_len("元a嘉é𐍈"), 3 + 1 + 3 + 2 + 4);
    assert!(str_eq("元嘉", "元嘉"));
    assert!(!str_eq("元嘉", "元"));
    assert!(!str_eq("元嘉", "元和"));
    assert_eq!(trim_string(" \t元 嘉\u{3000}\n"), "元 嘉");
    assert_eq!(trim_string("\u{3000} "), "");
    assert_eq!(slice_bytes("元a嘉", 3, 4).as_deref(), Some("a"));
    assert_eq!(slice_bytes("元a嘉", 0, 7).as_deref(), Some("元a嘉"));
    assert_eq!(slice_bytes("元a嘉", 7, 7).as_deref(), Some(""));
    assert_eq!(slice_bytes("元a嘉", 1, 4), None);
    assert_eq!(slice_bytes("元a嘉", 0, 8), None);
    assert_eq!(slice_bytes("元a嘉", 4, 3), None);
}

#[test]
fn words_are_joined_ordered_and_deduplicated() {
    let items = words(&["太平", "元嘉", "太平真君", "太平", "建", "天安元"]);
    assert_eq!(join_words(&items, "|"), "太平|元嘉|太平真君|太平|建|天安元");
    assert_eq!(join_words(&Vec::new(), "|"), "");
    assert_eq!(join_words(&words(&["a"]), "|"), "a");
    assert_eq!(
        longest_first_words(&items),
        words(&["太平真君", "天安元", "太平", "元嘉", "太平", "建"])
    );
    assert_eq!(distinct_words(&items), words(&["太平", "元嘉", "太平真君", "建", "天安元"]));
    assert_eq!(alternation_of(&words(&["a", "bc"])), "(?:a|bc)");
    assert!(longest_first_words(&Vec::new()).is_empty());
}

#[test]
fn stable_orders() {
    assert_eq!(stable_order(&vec![3, 1, 2, 1]), vec![1, 3, 2, 0]);
    assert_eq!(stable_order(&vec![5, 5, 5]), vec![0, 1, 2]);
    assert!(stable_order(&Vec::new()).is_empty());
    assert_eq!(word_order(&words(&["b", "a", "ab", "a", ""])), vec![4, 1, 3, 2, 0]);
    assert!(word_not_behind("", "a"));
    assert!(word_not_behind("a", "a"));
    assert!(word_not_behind("a", "ab"));
    assert!(!word_not_behind("b", "ab"));
    assert!(word_not_behind("元", "嘉"));
    let mut by_std = words(&["劉宋", "北魏", "東晉", "a", "北", ""]);
    let order = word_order(&by_std);
    let sorted: Vec<String> = order.iter().map(|i| by_std[*i].clone()).collect();
    by_std.sort();
    assert_eq!(sorted, by_std);
}

#[test]
fn tallies() {
    let counts = tally_words(&words(&["a", "b", "a", "c", "b", "a"]));
    assert_eq!(counts, vec![("a".to_string(), 3), ("b".to_string(), 2), ("c".to_string(), 1)]);
    assert_eq!(lookup(&counts, "b"), 2);
    assert_eq!(lookup(&counts, "z"), 0);
    let mixed = vec![("x".to_string(), 1), ("y".to_string(), 4), ("z".to_string(), 1)];
    assert_eq!(
        sort_by_count(&mixed),
        vec![("y".to_string(), 4), ("x".to_string(), 1), ("z".to_string(), 1)]
    );
}
