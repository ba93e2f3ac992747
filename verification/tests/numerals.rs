use person_extract::numeral::{parse_cn_month, parse_cn_number};

#[test]
fn test_parse_cn_number_basic_digits() {
    assert_eq!(parse_cn_number("元"), Some(1));
    assert_eq!(parse_cn_number("一"), Some(1));
    assert_eq!(parse_cn_number("二"), Some(2));
    assert_eq!(parse_cn_number("九"), Some(9));
}

#[test]
fn test_parse_cn_number_tens() {
    assert_eq!(parse_cn_number("十"), Some(10));
    assert_eq!(parse_cn_number("十一"), Some(11));
    assert_eq!(parse_cn_number("十九"), Some(19));
    assert_eq!(parse_cn_number("二十"), Some(20));
    assert_eq!(parse_cn_number("三十"), Some(30));
}

#[test]
fn test_parse_cn_number_beyond_thirty() {
    assert_eq!(parse_cn_number("三十一"), Some(31));
    assert_eq!(parse_cn_number("四十"), Some(40));
    assert_eq!(parse_cn_number("四十三"), Some(43));
    assert_eq!(parse_cn_number("五十"), Some(50));
    assert_eq!(parse_cn_number("六十"), Some(60));
    assert_eq!(parse_cn_number("九十九"), Some(99));
}

#[test]
fn test_parse_cn_number_invalid() {
    assert_eq!(parse_cn_number(""), None);
    assert_eq!(parse_cn_number("百"), None);
    assert_eq!(parse_cn_number("太"), None);
}

#[test]
fn test_parse_cn_month_plain() {
    assert_eq!(parse_cn_month("正"), Some(1));
    assert_eq!(parse_cn_month("一"), Some(1));
    assert_eq!(parse_cn_month("六"), Some(6));
    assert_eq!(parse_cn_month("十"), Some(10));
    assert_eq!(parse_cn_month("十二"), Some(12));
    assert_eq!(parse_cn_month("臘"), Some(12));
}

#[test]
fn test_parse_cn_month_leap_all() {
    assert_eq!(parse_cn_month("閏正"), Some(1));
    assert_eq!(parse_cn_month("閏一"), Some(1));
    assert_eq!(parse_cn_month("閏二"), Some(2));
    assert_eq!(parse_cn_month("閏三"), Some(3));
    assert_eq!(parse_cn_month("閏四"), Some(4));
    assert_eq!(parse_cn_month("閏五"), Some(5));
    assert_eq!(parse_cn_month("閏六"), Some(6));
    assert_eq!(parse_cn_month("閏七"), Some(7));
    assert_eq!(parse_cn_month("閏八"), Some(8));
    assert_eq!(parse_cn_month("閏九"), Some(9));
    assert_eq!(parse_cn_month("閏十"), Some(10));
    assert_eq!(parse_cn_month("閏十一"), Some(11));
    assert_eq!(parse_cn_month("閏十二"), Some(12));
}

#[test]
fn test_parse_cn_month_invalid() {
    assert_eq!(parse_cn_month("十三"), None);
    assert_eq!(parse_cn_month(""), None);
}

#[test]
fn numerals_reject_doubled_tens_and_long_input() {
    assert_eq!(parse_cn_number("十十"), None);
    assert_eq!(parse_cn_number("一十"), None);
    assert_eq!(parse_cn_number("一十一"), None);
    assert_eq!(parse_cn_number("一十九"), None);
    assert_eq!(parse_cn_number("元十"), None);
    assert_eq!(parse_cn_number("二十九"), Some(29));
    assert_eq!(parse_cn_number("一二"), None);
    assert_eq!(parse_cn_number("二十三四"), None);
    assert_eq!(parse_cn_number("元元"), None);
    assert_eq!(parse_cn_number("九十"), Some(90));
}

#[test]
fn months_outside_the_year_are_rejected() {
    assert_eq!(parse_cn_month("閏"), None);
    assert_eq!(parse_cn_month("二十"), None);
    assert_eq!(parse_cn_month("一十"), None);
    assert_eq!(parse_cn_month("閏一十一"), None);
    assert_eq!(parse_cn_month("閏臘"), Some(12));
    assert_eq!(parse_cn_month("閏閏三"), None);
    assert_eq!(parse_cn_month("元"), Some(1));
    assert_eq!(parse_cn_month("十一"), Some(11));
}
