use marketplace_ui::dates::{
    fmt_date_label, fmt_date_short, format_dmy_date, format_iso_date, leap_year, month_abbr,
    month_days, month_range, period_label, prev_month,
};
use marketplace_ui::text::{
    before_char_exec, i64_text, is_blank, join_strings, parse_u32, split_char_pieces,
    split_list_pieces, split_once_char, str_le, trim, u64_text,
};
use marketplace_ui::text_order::{cmp_optional_text, cmp_text};
use std::cmp::Ordering;

#[test]
fn trim_removes_surrounding_whitespace() {
    assert_eq!(trim("  a b \n"), "a b");
    assert_eq!(trim("\t\r\n "), "");
    assert_eq!(trim(""), "");
}

#[test]
fn trim_twice_is_trim_once() {
    let once = trim("  x y  ");
    assert_eq!(trim(&once), once);
}

#[test]
fn blank_texts() {
    assert!(is_blank(""));
    assert!(is_blank(" \t\n"));
    assert!(!is_blank(" a "));
}

#[test]
fn split_list_keeps_empty_pieces() {
    assert_eq!(split_list_pieces("a,b;;c\nd"), vec!["a", "b", "", "c", "d"]);
    assert_eq!(split_list_pieces(""), vec![""]);
}

#[test]
fn split_on_one_character() {
    assert_eq!(split_char_pieces("a, b,,c", ','), vec!["a", " b", "", "c"]);
}

#[test]
fn split_once_and_before() {
    assert_eq!(
        split_once_char("2024-03-05", '-'),
        Some(("2024".to_string(), "03-05".to_string()))
    );
    assert_eq!(split_once_char("abc", '-'), None);
    assert_eq!(before_char_exec("10:20Z", 'Z'), "10:20");
    assert_eq!(before_char_exec("1020", 'Z'), "1020");
}

#[test]
fn join_with_separator() {
    let parts = vec!["a".to_string(), "b".to_string(), "c".to_string()];
    assert_eq!(join_strings(&parts, ", "), "a, b, c");
    assert_eq!(join_strings(&Vec::new(), ", "), "");
}

#[test]
fn integer_texts() {
    assert_eq!(u64_text(0), "0");
    assert_eq!(u64_text(1234567), "1234567");
    assert_eq!(i64_text(-42), "-42");
    assert_eq!(i64_text(i64::MIN), "-9223372036854775808");
}

#[test]
fn parse_u32_like_std() {
    assert_eq!(parse_u32("42"), Some(42));
    assert_eq!(parse_u32("+7"), Some(7));
    assert_eq!(parse_u32("4294967295"), Some(4294967295));
    assert_eq!(parse_u32("4294967296"), None);
    assert_eq!(parse_u32(""), None);
    assert_eq!(parse_u32("-1"), None);
    assert_eq!(parse_u32(" 1"), None);
}

#[test]
fn text_order_is_str_order() {
    assert!(str_le("abc", "abd"));
    assert!(str_le("ab", "abc"));
    assert!(!str_le("b", "a"));
    assert!(str_le("", ""));
}

#[test]
fn case_insensitive_compare() {
    assert_eq!(cmp_text("Bravo", "alpha"), Ordering::Greater);
    assert_eq!(cmp_text("ALPHA", "alpha"), Ordering::Equal);
    assert_eq!(cmp_text("Яблоко", "груша"), Ordering::Greater);
}

#[test]
fn optional_texts_present_first() {
    let a = Some("x".to_string());
    assert_eq!(cmp_optional_text(&a, &None), Ordering::Less);
    assert_eq!(cmp_optional_text(&None, &a), Ordering::Greater);
    assert_eq!(cmp_optional_text(&None, &None), Ordering::Equal);
    assert_eq!(cmp_optional_text(&Some("B".to_string()), &Some("a".to_string())), Ordering::Greater);
}

#[test]
fn leap_years_and_month_lengths() {
    assert!(leap_year(2024));
    assert!(!leap_year(1900));
    assert!(leap_year(2000));
    assert_eq!(month_days(2024, 2), 29);
    assert_eq!(month_days(2023, 2), 28);
    assert_eq!(month_days(2023, 4), 30);
    assert_eq!(month_days(2023, 12), 31);
}

#[test]
fn iso_and_dmy_dates() {
    assert_eq!(format_iso_date(2024, 3, 5), "2024-03-05");
    assert_eq!(format_iso_date(987, 1, 1), "0987-01-01");
    assert_eq!(format_iso_date(-5, 1, 1), "-0005-01-01");
    assert_eq!(format_iso_date(12345, 6, 7), "+12345-06-07");
    assert_eq!(format_dmy_date(2024, 3, 5), "05.03.2024");
}

#[test]
fn month_range_and_previous_month() {
    assert_eq!(month_range(2024, 2), ("2024-02-01".to_string(), "2024-02-29".to_string()));
    assert_eq!(prev_month(2024, 1), (2023, 12));
    assert_eq!(prev_month(2024, 7), (2024, 6));
}

#[test]
fn month_abbreviations() {
    assert_eq!(month_abbr(1), "Янв");
    assert_eq!(month_abbr(12), "Дек");
    assert_eq!(month_abbr(13), "???");
}

#[test]
fn short_month_labels() {
    assert_eq!(fmt_date_short("2026-01-15"), Some("Янв 2026".to_string()));
    assert_eq!(fmt_date_short("2026-02"), Some("Фев 2026".to_string()));
    assert_eq!(fmt_date_short("2026-13-01"), None);
    assert_eq!(fmt_date_short("2026"), None);
    assert_eq!(fmt_date_short("x-01-01"), None);
}

#[test]
fn date_labels_from_chrono() {
    assert_eq!(fmt_date_label("2024-01-05"), Some("05.01.2024".to_string()));
    assert_eq!(fmt_date_label("2024-02-30"), None);
    assert_eq!(fmt_date_label(""), None);
}

#[test]
fn period_labels() {
    assert_eq!(period_label("2024-01-01", "2024-01-31"), "01.01.2024 — 31.01.2024");
    assert_eq!(period_label("2024-01-01", "2024-01-01"), "01.01.2024");
    assert_eq!(period_label("2024-01-01", ""), "с 01.01.2024");
    assert_eq!(period_label("", "2024-01-31"), "до 31.01.2024");
    assert_eq!(period_label("", ""), "Период не задан");
}
