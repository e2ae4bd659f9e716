//! Calendar arithmetic and date texts: ISO dates, `dd.mm.yyyy` labels, period
//! labels and the current-month / current-year ranges of list filters.

use vstd::prelude::*;
use chrono::Datelike;
use crate::text::{dec, zero_pad, push_padded, push_char, push_dec, parse_u32, parse_u32_spec, split_once_spec, split_once_char, before_char};

verus! {

/// Leap years of the proleptic Gregorian calendar.
pub open spec fn is_leap(y: int) -> bool {
    (y % 4 == 0 && y % 100 != 0) || y % 400 == 0
}

/// Number of days of month `m` (1..=12) of year `y`.
pub open spec fn days_in_month(y: int, m: int) -> int {
    if m == 2 {
        if is_leap(y) { 29 } else { 28 }
    } else if m == 4 || m == 6 || m == 9 || m == 11 {
        30
    } else {
        31
    }
}

/// A calendar date.
pub open spec fn valid_date(y: int, m: int, d: int) -> bool {
    1 <= m <= 12 && 1 <= d <= days_in_month(y, m)
}

/// Years that `chrono::NaiveDate` represents (262144 BCE to 262142 CE).
pub open spec fn chrono_year(y: int) -> bool {
    -262143 <= y <= 262142
}

/// Leap-year test.
pub fn leap_year(y: i32) -> (r: bool)
    ensures
        r == is_leap(y as int),
{
    (y % 4 == 0 && y % 100 != 0) || y % 400 == 0
}

/// Days of month `m` in year `y`.
pub fn month_days(y: i32, m: u32) -> (r: u32)
    requires
        1 <= m <= 12,
    ensures
        r as int == days_in_month(y as int, m as int),
{
    if m == 2 {
        if leap_year(y) { 29 } else { 28 }
    } else if m == 4 || m == 6 || m == 9 || m == 11 {
        30
    } else {
        31
    }
}

/// Today's UTC date as `(year, month, day)` (`chrono::Utc::now().date_naive()`).
#[verifier::external_body]
pub(crate) fn today_utc() -> (r: (i32, u32, u32))
    ensures
        valid_date(r.0 as int, r.1 as int, r.2 as int),
        chrono_year(r.0 as int),
{
    let now = chrono::Utc::now().date_naive();
    (now.year(), now.month(), now.day())
}

/// The year as `%Y` prints it: four digits, zero-padded, for 0..=9999; with an
/// explicit sign otherwise.
pub open spec fn year_text(y: int) -> Seq<char> {
    if 0 <= y <= 9999 {
        zero_pad(dec(y as nat), 4)
    } else if y < 0 {
        seq!['-'] + zero_pad(dec((-y) as nat), 4)
    } else {
        seq!['+'] + zero_pad(dec(y as nat), 4)
    }
}

/// `%Y-%m-%d`.
pub open spec fn iso_date_text(y: int, m: nat, d: nat) -> Seq<char> {
    year_text(y) + seq!['-'] + zero_pad(dec(m), 2) + seq!['-'] + zero_pad(dec(d), 2)
}

/// `%d.%m.%Y`.
pub open spec fn dmy_date_text(y: int, m: nat, d: nat) -> Seq<char> {
    zero_pad(dec(d), 2) + seq!['.'] + zero_pad(dec(m), 2) + seq!['.'] + year_text(y)
}

fn push_year(out: &mut String, y: i32)
    ensures
        final(out)@ == old(out)@ + year_text(y as int),
{
    let ghost o = out@;
    if 0 <= y && y <= 9999 {
        push_padded(out, y as u64, 4);
    } else if y < 0 {
        push_char(out, '-');
        let a: u64 = if y == i32::MIN { 2147483648u64 } else { (-y) as u64 };
        push_padded(out, a, 4);
        assert(out@ =~= o + year_text(y as int));
    } else {
        push_char(out, '+');
        push_padded(out, y as u64, 4);
        assert(out@ =~= o + year_text(y as int));
    }
}

/// A date as `%Y-%m-%d` (e.g. `2024-03-01`).
pub fn format_iso_date(y: i32, m: u32, d: u32) -> (r: String)
    ensures
        r@ == iso_date_text(y as int, m as nat, d as nat),
{
    let mut s = String::new();
    push_year(&mut s, y);
    push_char(&mut s, '-');
    push_padded(&mut s, m as u64, 2);
    push_char(&mut s, '-');
    push_padded(&mut s, d as u64, 2);
    assert(s@ =~= iso_date_text(y as int, m as nat, d as nat));
    s
}

/// A date as `%d.%m.%Y` (e.g. `01.03.2024`).
pub fn format_dmy_date(y: i32, m: u32, d: u32) -> (r: String)
    ensures
        r@ == dmy_date_text(y as int, m as nat, d as nat),
{
    let mut s = String::new();
    push_padded(&mut s, d as u64, 2);
    push_char(&mut s, '.');
    push_padded(&mut s, m as u64, 2);
    push_char(&mut s, '.');
    push_year(&mut s, y);
    assert(s@ =~= dmy_date_text(y as int, m as nat, d as nat));
    s
}

/// First and last day of a month, as ISO texts.
pub open spec fn month_range_text(y: int, m: nat) -> (Seq<char>, Seq<char>) {
    (iso_date_text(y, m, 1), iso_date_text(y, m, days_in_month(y, m as int) as nat))
}

/// The first and last day of month `m` of year `y` (`%Y-%m-%d`).
pub fn month_range(y: i32, m: u32) -> (r: (String, String))
    requires
        1 <= m <= 12,
    ensures
        r.0@ == month_range_text(y as int, m as nat).0,
        r.1@ == month_range_text(y as int, m as nat).1,
{
    let last = month_days(y, m);
    (format_iso_date(y, m, 1), format_iso_date(y, m, last))
}

/// The month before `(y, m)`.
pub open spec fn previous_month(y: int, m: int) -> (int, int) {
    if m == 1 { (y - 1, 12) } else { (y, m - 1) }
}

/// The previous month of `(y, m)`.
pub fn prev_month(y: i32, m: u32) -> (r: (i32, u32))
    requires
        1 <= m <= 12,
        chrono_year(y as int),
    ensures
        (r.0 as int, r.1 as int) == previous_month(y as int, m as int),
        1 <= r.1 <= 12,
{
    if m == 1 { (y - 1, 12) } else { (y, m - 1) }
}

/// Russian month abbreviation of month `m` (`"???"` outside 1..=12).
pub open spec fn month_abbr_text(m: int) -> Seq<char> {
    if m == 1 { "Янв"@ }
    else if m == 2 { "Фев"@ }
    else if m == 3 { "Мар"@ }
    else if m == 4 { "Апр"@ }
    else if m == 5 { "Май"@ }
    else if m == 6 { "Июн"@ }
    else if m == 7 { "Июл"@ }
    else if m == 8 { "Авг"@ }
    else if m == 9 { "Сен"@ }
    else if m == 10 { "Окт"@ }
    else if m == 11 { "Ноя"@ }
    else if m == 12 { "Дек"@ }
    else { "???"@ }
}

/// Russian month abbreviation.
pub fn month_abbr(m: u32) -> (r: &'static str)
    ensures
        r@ == month_abbr_text(m as int),
{
    match m {
        1 => "Янв",
        2 => "Фев",
        3 => "Мар",
        4 => "Апр",
        5 => "Май",
        6 => "Июн",
        7 => "Июл",
        8 => "Авг",
        9 => "Сен",
        10 => "Окт",
        11 => "Ноя",
        12 => "Дек",
        _ => "???",
    }
}

/// The year and month of `"YYYY-MM-DD"`: the year is the text before the first
/// `-`, the month the text up to the next `-`; both must parse as `u32` and the
/// month be 1..=12.
pub open spec fn date_year_month(s: Seq<char>) -> Option<(u32, u32)> {
    match split_once_spec(s, '-') {
        None => None,
        Some((ytxt, rest)) => {
            let mtxt = before_char(rest, '-');
            match (parse_u32_spec(ytxt), parse_u32_spec(mtxt)) {
                (Some(y), Some(m)) => if 1 <= m <= 12 { Some((y, m)) } else { None },
                _ => None,
            }
        },
    }
}

/// The short label of a month, e.g. `"Янв 2026"`.
pub open spec fn short_month_label(y: u32, m: u32) -> Seq<char> {
    month_abbr_text(m as int) + seq![' '] + dec(y as nat)
}

/// `"YYYY-MM-DD"` → `"Мес YYYY"` (see `date_year_month`).
pub open spec fn date_short_text(s: Seq<char>) -> Option<Seq<char>> {
    match date_year_month(s) {
        Some((y, m)) => Some(short_month_label(y, m)),
        None => None,
    }
}

/// The year and month of an ISO date (see `date_year_month`).
pub fn date_year_month_of(s: &str) -> (r: Option<(u32, u32)>)
    ensures
        r == date_year_month(s@),
{
    let (ytxt, rest) = match split_once_char(s, '-') {
        Some(p) => p,
        None => return None,
    };
    let mtxt = crate::text::before_char_exec(rest.as_str(), '-');
    let year = match parse_u32(ytxt.as_str()) {
        Some(y) => y,
        None => return None,
    };
    let month = match parse_u32(mtxt.as_str()) {
        Some(m) => m,
        None => return None,
    };
    if month < 1 || month > 12 {
        return None;
    }
    Some((year, month))
}

/// The short label of a month (see `short_month_label`).
pub fn short_month_label_text(y: u32, m: u32) -> (r: String)
    ensures
        r@ == short_month_label(y, m),
{
    let mut out = String::from_str(month_abbr(m));
    push_char(&mut out, ' ');
    push_dec(&mut out, y as u64);
    assert(out@ =~= month_abbr_text(m as int) + seq![' '] + dec(y as nat));
    out
}

/// Short month label of an ISO date, e.g. `"Янв 2026"`.
pub fn fmt_date_short(s: &str) -> (r: Option<String>)
    ensures
        r matches Some(t) ==> date_short_text(s@) == Some(t@),
        r is None ==> date_short_text(s@) is None,
{
    match date_year_month_of(s) {
        Some((y, m)) => Some(short_month_label_text(y, m)),
        None => None,
    }
}


/// What `chrono::NaiveDate::parse_from_str(s, "%Y-%m-%d")` gives for `s`, as
/// `(year, month, day)`.
pub uninterp spec fn chrono_parse_iso_date(s: Seq<char>) -> Option<(i32, u32, u32)>;

/// Calls `chrono::NaiveDate::parse_from_str(s, "%Y-%m-%d")`. Claimed: the
/// result is the named function of the text, and a parsed date is a valid
/// calendar date within chrono's year range. Which texts chrono accepts (widths,
/// signs) is left to chrono and not stated.
#[verifier::external_body]
fn parse_iso_date(s: &str) -> (r: Option<(i32, u32, u32)>)
    ensures
        r == chrono_parse_iso_date(s@),
        r matches Some((y, m, d)) ==> valid_date(y as int, m as int, d as int) && chrono_year(y as int),
{
    match chrono::NaiveDate::parse_from_str(s, "%Y-%m-%d") {
        Ok(date) => Some((date.year(), date.month(), date.day())),
        Err(_) => None,
    }
}

/// `dd.mm.yyyy` label of an ISO date text, when chrono parses it.
pub open spec fn date_label_text(s: Seq<char>) -> Option<Seq<char>> {
    match chrono_parse_iso_date(s) {
        Some((y, m, d)) => Some(dmy_date_text(y as int, m as nat, d as nat)),
        None => None,
    }
}

/// `"2024-01-05"` → `"05.01.2024"`; `None` when the text is not a date.
pub fn fmt_date_label(s: &str) -> (r: Option<String>)
    ensures
        r matches Some(t) ==> date_label_text(s@) == Some(t@),
        r is None ==> date_label_text(s@) is None,
{
    match parse_iso_date(s) {
        Some((y, m, d)) => Some(format_dmy_date(y, m, d)),
        None => None,
    }
}

/// Label of a period from the labels of its bounds.
pub open spec fn period_label_text(from: Option<Seq<char>>, to: Option<Seq<char>>) -> Seq<char> {
    match (from, to) {
        (Some(f), Some(t)) => if f == t { f } else { f + " — "@ + t },
        (Some(f), None) => "с "@ + f,
        (None, Some(t)) => "до "@ + t,
        (None, None) => "Период не задан"@,
    }
}

/// The period label for already formatted bounds.
pub fn period_label_from_labels(from: Option<String>, to: Option<String>) -> (r: String)
    ensures
        r@ == period_label_text(
            match from {
                Some(f) => Some(f@),
                None => None,
            },
            match to {
                Some(t) => Some(t@),
                None => None,
            },
        ),
{
    match (from, to) {
        (Some(f), Some(t)) => {
            if f == t {
                f
            } else {
                let mut r = f;
                r.append(" — ");
                r.append(t.as_str());
                r
            }
        },
        (Some(f), None) => {
            let mut r = String::from_str("с ");
            r.append(f.as_str());
            r
        },
        (None, Some(t)) => {
            let mut r = String::from_str("до ");
            r.append(t.as_str());
            r
        },
        (None, None) => String::from_str("Период не задан"),
    }
}

/// Label of a period given by two ISO dates: `"01.01.2024 — 31.01.2024"`, a
/// single date when both coincide, `"с …"` / `"до …"` for open ends.
pub fn period_label(from: &str, to: &str) -> (r: String)
    ensures
        r@ == period_label_text(date_label_text(from@), date_label_text(to@)),
{
    let f = fmt_date_label(from);
    let t = fmt_date_label(to);
    period_label_from_labels(f, t)
}

} // verus!
