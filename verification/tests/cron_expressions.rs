use scheduled_tasks::cron::expand_field;
use scheduled_tasks::cron::expand_range;
use scheduled_tasks::cron::is_day_of_week;
use scheduled_tasks::cron::parse_cron_expression;
use scheduled_tasks::cron::FieldRange;
use scheduled_tasks::number::decimal_text;
use scheduled_tasks::number::parse_number;
use scheduled_tasks::number::signed_text;
use scheduled_tasks::number::two_digit_text;
use scheduled_tasks::text::split_chars_on;
use scheduled_tasks::text::split_words;
use std::collections::BTreeSet;

const MINUTE: FieldRange = FieldRange { min: 0, max: 59 };
const HOUR: FieldRange = FieldRange { min: 0, max: 23 };
const DAY_OF_MONTH: FieldRange = FieldRange { min: 1, max: 31 };
const DAY_OF_WEEK: FieldRange = FieldRange { min: 0, max: 6 };

fn chars(text: &str) -> Vec<char> {
    text.chars().collect()
}

#[test]
fn parses_standard_subset() {
    let fields = parse_cron_expression("*/5 9-17/2 * * 1-5").expect("valid cron");
    assert_eq!(fields.minute, (0..=55).step_by(5).collect::<Vec<_>>());
    assert_eq!(fields.hour, vec![9, 11, 13, 15, 17]);
    assert_eq!(fields.day_of_week, vec![1, 2, 3, 4, 5]);
}

#[test]
fn accepts_sunday_alias() {
    let fields = parse_cron_expression("0 9 * * 5-7").expect("valid cron");
    assert_eq!(fields.day_of_week, vec![0, 5, 6]);
}

#[test]
fn rejects_unsupported_syntax() {
    assert!(parse_cron_expression("0 9 ? * MON").is_none());
    assert!(parse_cron_expression("0 9 * *").is_none());
    assert!(parse_cron_expression("0 24 * * *").is_none());
}

#[test]
fn fills_in_wildcards() {
    let fields = parse_cron_expression("* * * * *").expect("valid cron");
    assert_eq!(fields.minute, (0..=59).collect::<Vec<_>>());
    assert_eq!(fields.hour, (0..=23).collect::<Vec<_>>());
    assert_eq!(fields.day_of_month, (1..=31).collect::<Vec<_>>());
    assert_eq!(fields.month, (1..=12).collect::<Vec<_>>());
    assert_eq!(fields.day_of_week, (0..=6).collect::<Vec<_>>());
}

#[test]
fn takes_any_white_space_between_fields() {
    let fields = parse_cron_expression(" \t1\u{3000}2\u{a0}3\n4 \u{85}5 ").expect("valid cron");
    assert_eq!(fields.minute, vec![1]);
    assert_eq!(fields.hour, vec![2]);
    assert_eq!(fields.day_of_month, vec![3]);
    assert_eq!(fields.month, vec![4]);
    assert_eq!(fields.day_of_week, vec![5]);
    assert!(parse_cron_expression("1 2 3 4 5 6").is_none());
    assert!(parse_cron_expression("").is_none());
}

#[test]
fn refuses_one_bad_field_anywhere() {
    assert!(parse_cron_expression("60 * * * *").is_none());
    assert!(parse_cron_expression("* x * * *").is_none());
    assert!(parse_cron_expression("* * 0 * *").is_none());
    assert!(parse_cron_expression("* * * 13 *").is_none());
    assert!(parse_cron_expression("* * * * 8").is_none());
}

#[test]
fn lists_are_sorted_and_hold_nothing_twice() {
    assert_eq!(expand_field("9,3,5-7,6,3", HOUR), Some(vec![3, 5, 6, 7, 9]));
    assert_eq!(expand_field("7,0", DAY_OF_WEEK), Some(vec![0]));
    assert_eq!(expand_field("*/20,1", MINUTE), Some(vec![0, 1, 20, 40]));
}

#[test]
fn steps_start_at_the_low_end() {
    assert_eq!(expand_field("*/10", DAY_OF_MONTH), Some(vec![1, 11, 21, 31]));
    assert_eq!(expand_field("10-20/4", MINUTE), Some(vec![10, 14, 18]));
    assert_eq!(expand_field("1-7/3", DAY_OF_WEEK), Some(vec![0, 1, 4]));
    assert_eq!(expand_field("*/4294967295", MINUTE), Some(vec![0]));
    assert_eq!(expand_field("5-9/4294967295", MINUTE), Some(vec![5]));
}

#[test]
fn refuses_malformed_parts() {
    for field in [
        "", ",", "1,", ",1", "*/0", "*/", "*/x", "*5", "1/2", "1-", "-1", "3-1", "1-60", "1-5/0",
        "1-5/", "1-2-3", "4294967296", "+", "-", "1-5/2/3", "**", "*/*",
    ] {
        assert_eq!(expand_field(field, MINUTE), None, "{field:?}");
    }
    assert_eq!(expand_field("+5", MINUTE), Some(vec![5]));
    assert_eq!(expand_field("007", MINUTE), Some(vec![7]));
    assert_eq!(expand_field("+1-+3", MINUTE), Some(vec![1, 2, 3]));
}

#[test]
fn ranges_add_to_what_is_there() {
    let mut out = BTreeSet::from([40]);
    assert_eq!(expand_range("5-9", 2, MINUTE, &mut out), Some(()));
    assert_eq!(out.into_iter().collect::<Vec<_>>(), vec![5, 7, 9, 40]);

    let mut out = BTreeSet::from([40]);
    assert_eq!(expand_range("5", 1, MINUTE, &mut out), None);
    assert_eq!(expand_range("0-3", 1, DAY_OF_MONTH, &mut out), None);
    assert_eq!(out.into_iter().collect::<Vec<_>>(), vec![40]);
}

#[test]
fn only_the_last_field_is_of_days_of_the_week() {
    assert!(is_day_of_week(DAY_OF_WEEK));
    assert!(!is_day_of_week(MINUTE));
    assert!(!is_day_of_week(DAY_OF_MONTH));
}

#[test]
fn white_space_is_what_unicode_says() {
    for code in (0..0x1_0000_u32).chain((0x1_0000..=0x10_ffff).step_by(257)) {
        if let Some(c) = char::from_u32(code) {
            let text = format!("a{c}b");
            let count = text.split_whitespace().count();
            assert_eq!(split_words(&text).len(), count, "U+{code:04X}");
        }
    }
}

#[test]
fn pieces_join_to_the_text_again() {
    for text in ["", ",", "a", "a,b", ",a,,b,", "1-3,7"] {
        let pieces = split_chars_on(&chars(text), ',')
            .into_iter()
            .map(|piece| piece.into_iter().collect::<String>())
            .collect::<Vec<_>>();
        assert_eq!(pieces, text.split(',').collect::<Vec<_>>());
        assert_eq!(pieces.join(","), text);
    }
}

#[test]
fn words_are_not_empty() {
    let words = split_words("  one\ttwo  ");
    assert_eq!(words, vec![chars("one"), chars("two")]);
}

#[test]
fn numbers_are_read_as_std_reads_them() {
    for text in [
        "", "+", "-", "0", "+0", "-0", "00012", "4294967295", "4294967296", "18446744073709551615",
        "18446744073709551616", "99999999999999999999999", "1 ", " 1", "1_000", "0x10", "\u{663}",
    ] {
        assert_eq!(
            parse_number(&chars(text), 10, u32::MAX as u64),
            text.parse::<u32>().ok().map(u64::from),
            "{text:?}"
        );
        assert_eq!(
            parse_number(&chars(text), 10, u64::MAX),
            text.parse::<u64>().ok(),
            "{text:?}"
        );
    }
    for text in ["", "+", "ff", "FF", "+fF", "g", "deadbeef", "ffffffff", "100000000"] {
        assert_eq!(
            parse_number(&chars(text), 16, u32::MAX as u64),
            u32::from_str_radix(text, 16).ok().map(u64::from),
            "{text:?}"
        );
    }
}

#[test]
fn numbers_are_written_as_std_writes_them() {
    for n in [0, 7, 10, 99, 100, 12_345, u64::MAX] {
        assert_eq!(decimal_text(n), n.to_string());
    }
    for n in [0, -1, 42, i64::MIN, i64::MAX] {
        assert_eq!(signed_text(n), n.to_string());
    }
    for n in [0, 5, 10, 59, 123, u32::MAX] {
        assert_eq!(two_digit_text(n), format!("{n:02}"));
    }
}
