use holocene::calendar::{leap_year, month_length, InterpretError, ParsedDate};
use holocene::decimal::{is_ascii_digit, push_decimal, push_integer};
use holocene::directive::{expand_template, push_padded, render, Directive, DirectiveTable};
use holocene::format::{default_layout, format_date, format_with, weekday_label, FormatError};
use holocene::holocene::{displayed_year, holocene_year};
use holocene::interpret::{interpret, read_numerals, resolve_keyword};
use holocene::substitute::{copy_of, replace};
use holocene::text::{chars_of, is_whitespace, push_str, same_chars, string_of, trimmed};

fn text(v: &[char]) -> String {
    string_of(v)
}

#[test]
fn characters_in_and_out() {
    assert_eq!(chars_of("aé\u{3000}"), vec!['a', 'é', '\u{3000}']);
    assert_eq!(string_of(&['a', 'é', '\u{3000}']), "aé\u{3000}");
    assert_eq!(string_of(&[]), "");
    assert!(same_chars(&chars_of("abc"), &['a', 'b', 'c']));
    assert!(!same_chars(&chars_of("abc"), &['a', 'b']));
    assert!(!same_chars(&chars_of("abc"), &['a', 'b', 'd']));
    let mut out = vec!['x'];
    push_str(&mut out, "yz");
    assert_eq!(out, vec!['x', 'y', 'z']);
    assert_eq!(copy_of(&['q', 'r']), vec!['q', 'r']);
}

#[test]
fn white_space_is_that_of_the_standard_library() {
    for code in 0..0x11_0000u32 {
        if let Some(c) = char::from_u32(code) {
            assert_eq!(is_whitespace(c), c.is_whitespace(), "{:x}", code);
        }
    }
}

#[test]
fn trimming() {
    assert_eq!(text(&trimmed(&chars_of("  now\t\n"))), "now");
    assert_eq!(text(&trimmed(&chars_of("\u{a0}a b\u{2003}"))), "a b");
    assert_eq!(text(&trimmed(&chars_of("   "))), "");
    assert_eq!(text(&trimmed(&chars_of(""))), "");
    assert_eq!(text(&trimmed(&chars_of("x"))), "x");
    for sample in [" a ", "\r\n1/2/3 ", "\u{85}\u{1680}z\u{202f}\u{205f}", "a  b"] {
        assert_eq!(text(&trimmed(&chars_of(sample))), sample.trim());
    }
}

#[test]
fn numerals_written() {
    let mut out = Vec::new();
    push_decimal(&mut out, 0);
    push_decimal(&mut out, 7);
    push_decimal(&mut out, 1995);
    push_decimal(&mut out, u64::MAX);
    assert_eq!(text(&out), "07199518446744073709551615");
    let mut out = Vec::new();
    push_integer(&mut out, -1);
    push_integer(&mut out, 0);
    push_integer(&mut out, i64::MIN);
    push_integer(&mut out, i64::MAX);
    assert_eq!(text(&out), "-10-92233720368547758089223372036854775807");
    let mut out = Vec::new();
    push_padded(&mut out, 5, 2);
    push_padded(&mut out, 57, 2);
    push_padded(&mut out, 123, 2);
    push_padded(&mut out, 0, 0);
    push_padded(&mut out, 4005, 9);
    assert_eq!(text(&out), "05571230000004005");
    assert!(is_ascii_digit('0') && is_ascii_digit('9'));
    assert!(!is_ascii_digit('/') && !is_ascii_digit(':') && !is_ascii_digit('٣'));
}

#[test]
fn lengths_of_months() {
    assert!(leap_year(1996) && leap_year(2000) && leap_year(0) && leap_year(-4));
    assert!(!leap_year(1995) && !leap_year(1900) && !leap_year(2100));
    let common = [31, 28, 31, 30, 31, 30, 31, 31, 30, 31, 30, 31];
    for month in 1..=12u32 {
        assert_eq!(month_length(1995, month), common[month as usize - 1]);
    }
    assert_eq!(month_length(1996, 2), 29);
    assert_eq!(month_length(1900, 2), 28);
    assert_eq!(month_length(1995, 0), 0);
    assert_eq!(month_length(1995, 13), 0);
}

#[test]
fn timestamps_checked_on_construction() {
    let date = ParsedDate::new(1996, 2, 29, 23, 59, 59, 999_999_999, true).unwrap();
    assert_eq!(
        (date.year(), date.month(), date.day(), date.hour(), date.minute(), date.second()),
        (1996, 2, 29, 23, 59, 59)
    );
    assert_eq!(date.nanosecond(), 999_999_999);
    assert!(date.is_bce());
    assert!(ParsedDate::new(0, 1, 1, 0, 0, 0, 0, false).is_ok());
    assert!(ParsedDate::new(9999, 12, 31, 0, 0, 0, 0, false).is_ok());
    let bad = Err(InterpretError::InvalidCalendarValue);
    assert_eq!(ParsedDate::new(-1, 1, 1, 0, 0, 0, 0, false), bad);
    assert_eq!(ParsedDate::new(10_000, 1, 1, 0, 0, 0, 0, false), bad);
    assert_eq!(ParsedDate::new(1995, 0, 1, 0, 0, 0, 0, false), bad);
    assert_eq!(ParsedDate::new(1995, 13, 1, 0, 0, 0, 0, false), bad);
    assert_eq!(ParsedDate::new(1995, 1, 0, 0, 0, 0, 0, false), bad);
    assert_eq!(ParsedDate::new(1995, 1, 32, 0, 0, 0, 0, false), bad);
    assert_eq!(ParsedDate::new(1995, 2, 29, 0, 0, 0, 0, false), bad);
    assert_eq!(ParsedDate::new(1995, 4, 31, 0, 0, 0, 0, false), bad);
    assert_eq!(ParsedDate::new(1995, 1, 1, 24, 0, 0, 0, false), bad);
    assert_eq!(ParsedDate::new(1995, 1, 1, 0, 60, 0, 0, false), bad);
    assert_eq!(ParsedDate::new(1995, 1, 1, 0, 0, 60, 0, false), bad);
    assert_eq!(ParsedDate::new(1995, 1, 1, 0, 0, 0, 1_000_000_000, false), bad);
}

#[test]
fn error_messages() {
    assert_eq!(InterpretError::NoDateOrTimeFound.message(), "No date or time found.");
    assert_eq!(
        InterpretError::InvalidCalendarValue.message(),
        "No such calendar date or time of day."
    );
}

#[test]
fn numerals_out_of_the_calendar() {
    let bad = Err(InterpretError::InvalidCalendarValue);
    for input in [
        "13/10/1995",
        "12/32/1995",
        "0/10/1995",
        "2/29/1900",
        "2/30/1996",
        "1995/13/10",
        "12/10/1995 24:00:00",
        "12/10/1995 23:60:00",
        "12/10/1995 23:59:60",
        "12:01:57",
        "0:0:0",
    ] {
        assert_eq!(interpret(input).map(|found| found.0), bad, "{:?}", input);
    }
    assert!(interpret("2/29/2000").is_ok());
    assert!(interpret("2/29/1996 BC").is_ok());
    assert!(interpret("1/1/0000").is_ok());
}

#[test]
fn numerals_read_as_they_stand() {
    let date = read_numerals(&chars_of("on 7/4/1776 at 9:05:00")).unwrap();
    assert_eq!((date.year(), date.month(), date.day()), (1776, 7, 4));
    assert_eq!((date.hour(), date.minute(), date.second(), date.nanosecond()), (9, 5, 0, 0));
    assert!(!date.is_bce());
    assert_eq!(read_numerals(&chars_of("now")), Err(InterpretError::NoDateOrTimeFound));
}

#[test]
fn days_from_a_given_instant() {
    let now = ParsedDate::new(2000, 2, 28, 1, 2, 3, 4, true).unwrap();
    let ce = |y, m, d| ParsedDate::new(y, m, d, 1, 2, 3, 4, false);
    assert_eq!(resolve_keyword(&now, 0), ce(2000, 2, 28));
    assert_eq!(resolve_keyword(&now, 1), ce(2000, 2, 29));
    assert_eq!(resolve_keyword(&now, 2), ce(2000, 3, 1));
    assert_eq!(resolve_keyword(&now, -59), ce(1999, 12, 31));
    assert_eq!(resolve_keyword(&now, 366), ce(2001, 2, 28));
    let last = ParsedDate::new(9999, 12, 31, 0, 0, 0, 0, false).unwrap();
    assert_eq!(resolve_keyword(&last, 1), Err(InterpretError::InvalidCalendarValue));
    let first = ParsedDate::new(0, 1, 1, 0, 0, 0, 0, false).unwrap();
    assert_eq!(resolve_keyword(&first, -1), Err(InterpretError::InvalidCalendarValue));
    assert_eq!(resolve_keyword(&first, i32::MAX), Err(InterpretError::InvalidCalendarValue));
    assert_eq!(resolve_keyword(&first, i32::MIN), Err(InterpretError::InvalidCalendarValue));
}

#[test]
fn holocene_years() {
    assert_eq!(holocene_year(1995), "11996");
    assert_eq!(holocene_year(0), "10001");
    assert_eq!(holocene_year(-1), "10000");
    assert_eq!(holocene_year(-10_001), "0");
    assert_eq!(holocene_year(-10_002), "-1");
    assert_eq!(holocene_year(9999), "20000");
    assert_eq!(holocene_year(262_143), "272144");
    assert_eq!(holocene_year(-262_143), "-252142");
    assert_eq!(holocene_year(i32::MAX), "2147493648");
    assert_eq!(holocene_year(i32::MIN), "-2147473647");
    let date = ParsedDate::new(1995, 12, 10, 0, 0, 0, 0, false).unwrap();
    assert_eq!(holocene_year(date.year()), "11996");
    let mut last = i64::MIN;
    for year in -20_000..20_000 {
        let read = holocene_year(year).parse::<i64>().unwrap();
        assert_eq!(read, year as i64 + 10_001);
        assert!(read > last);
        last = read;
    }
}

#[test]
fn displayed_years() {
    let ce = ParsedDate::new(1995, 12, 10, 0, 0, 0, 0, false).unwrap();
    let bce = ParsedDate::new(436, 12, 10, 0, 0, 0, 0, true).unwrap();
    assert_eq!(displayed_year(&ce, 2024), 11995);
    assert_eq!(displayed_year(&bce, 2024), 9565);
    assert_eq!(displayed_year(&bce, i32::MIN), 9565);
    assert_eq!(displayed_year(&bce, i32::MAX), 9565);
    let oldest = ParsedDate::new(9999, 1, 1, 0, 0, 0, 0, true).unwrap();
    assert_eq!(displayed_year(&oldest, 0), 2);
    let zero = ParsedDate::new(0, 1, 1, 0, 0, 0, 0, true).unwrap();
    assert_eq!(displayed_year(&zero, 0), 10001);
    let newest = ParsedDate::new(9999, 1, 1, 0, 0, 0, 0, false).unwrap();
    assert_eq!(displayed_year(&newest, 0), 19999);
}

#[test]
fn replacing() {
    let run = |s: &str, p: &str, r: &str| text(&replace(&chars_of(s), &chars_of(p), &chars_of(r)));
    for (s, p, r) in [
        ("1995-12-10 1995", "1995", "11995"),
        ("aaaa", "aa", "b"),
        ("aaa", "aa", "b"),
        ("abab", "ba", ""),
        ("abc", "", "-"),
        ("", "", "-"),
        ("", "a", "-"),
        ("abc", "abcd", "-"),
        ("abc", "abc", "abcabc"),
    ] {
        assert_eq!(run(s, p, r), s.replace(p, r), "{:?} {:?} {:?}", s, p, r);
    }
}

#[test]
fn directive_tables() {
    let mut table = DirectiveTable::new();
    assert_eq!(table.get('N'), None);
    table.insert('N', Directive::Nanoseconds);
    table.insert('h', Directive::EraSuffix);
    assert_eq!(table.get('N'), Some(Directive::Nanoseconds));
    assert_eq!(table.get('h'), Some(Directive::EraSuffix));
    assert_eq!(table.get('E'), None);
    table.insert('N', Directive::EraSuffix);
    assert_eq!(table.get('N'), Some(Directive::EraSuffix));
    let standard = DirectiveTable::standard();
    assert_eq!(standard.get('N'), Some(Directive::Nanoseconds));
    assert_eq!(standard.get('E'), Some(Directive::EraSuffix));
    assert_eq!(standard.get('Y'), None);
    assert_eq!(standard.get('%'), None);
}

#[test]
fn templates_expanded() {
    let date = ParsedDate::new(1995, 12, 10, 1, 2, 3, 42, false).unwrap();
    let standard = DirectiveTable::standard();
    let run = |t: &str, table: &DirectiveTable| text(&expand_template(&chars_of(t), table, &date));
    assert_eq!(run("", &standard), "");
    assert_eq!(run("plain", &standard), "plain");
    assert_eq!(run("%Y %E", &standard), "%Y HE");
    assert_eq!(run("%N", &standard), "000000042");
    assert_eq!(run("%%", &standard), "%%");
    assert_eq!(run("%%N", &standard), "%%N");
    assert_eq!(run("%%%N", &standard), "%%000000042");
    assert_eq!(run("%-N", &standard), "%-N");
    assert_eq!(run("%", &standard), "%");
    assert_eq!(run("%E%", &standard), "HE%");
    assert_eq!(run("%é%E", &standard), "%éHE");
    let mut table = DirectiveTable::new();
    assert_eq!(run("%N %E", &table), "%N %E");
    table.insert('%', Directive::EraSuffix);
    table.insert('Y', Directive::EraSuffix);
    assert_eq!(run("%% %Y", &table), "%% HE");
    let mut out = vec!['>'];
    render(&mut out, Directive::EraSuffix, &date);
    render(&mut out, Directive::Nanoseconds, &date);
    assert_eq!(text(&out), ">HE000000042");
}

#[test]
fn layouts() {
    let names = ["Mon", "Tue", "Wed", "Thu", "Fri", "Sat", "Sun"];
    for n in 0..7u32 {
        assert_eq!(weekday_label(n), names[n as usize]);
    }
    assert_eq!(weekday_label(7), "Sun");
    let date = ParsedDate::new(5, 1, 2, 13, 4, 5, 0, false).unwrap();
    assert_eq!(default_layout(&date, 2, 10005), "Wed 1 2 13:04:05 PM UTC 10005");
    assert_eq!(default_layout(&date, 0, -3), "Mon 1 2 13:04:05 PM UTC -3");
    let noon = ParsedDate::new(5, 1, 2, 12, 0, 0, 0, false).unwrap();
    let before = ParsedDate::new(5, 1, 2, 11, 59, 59, 0, false).unwrap();
    assert_eq!(default_layout(&noon, 6, 1), "Sun 1 2 12:00:00 PM UTC 1");
    assert_eq!(default_layout(&before, 6, 1), "Sun 1 2 11:59:59 AM UTC 1");
}

#[test]
fn weekdays_through_the_week() {
    let names = ["Mon", "Tue", "Wed", "Thu", "Fri", "Sat", "Sun"];
    let table = DirectiveTable::standard();
    for day in 1..=7u32 {
        let date = ParsedDate::new(2024, 1, day, 0, 0, 0, 0, false).unwrap();
        let line = format_with(&date, None, &table, 2024).unwrap();
        assert_eq!(line, format!("{} 1 {} 00:00:00 AM UTC 12024", names[day as usize - 1], day));
    }
}

#[test]
fn engine_without_year_substitution() {
    let date = ParsedDate::new(1995, 12, 10, 13, 2, 3, 0, false).unwrap();
    let table = DirectiveTable::standard();
    assert_eq!(format_date("%Y %E %I%p", &date, &table), Ok("1995 HE 01PM".to_string()));
    assert_eq!(format_date("%", &date, &table), Err(FormatError::TemplateRefused));
    let mut own = DirectiveTable::new();
    own.insert('Y', Directive::EraSuffix);
    assert_eq!(format_with(&date, Some("%Y %d"), &own, 0), Ok("HE 10".to_string()));
    assert_eq!(format_with(&date, Some("%E"), &own, 0), Err(FormatError::TemplateRefused));
}

fn day_count(year: i64, month: u32, day: u32) -> i64 {
    let leaps = (year + 3).div_euclid(4) - (year + 99).div_euclid(100) + (year + 399).div_euclid(400);
    let mut days = 365 * year + leaps + day as i64 - 1;
    for earlier in 1..month {
        days += month_length(year as i32, earlier) as i64;
    }
    days
}

fn weekdays_of_year(year: i32, table: &DirectiveTable) {
    let names = ["Mon", "Tue", "Wed", "Thu", "Fri", "Sat", "Sun"];
    for month in 1..=12u32 {
        for day in 1..=month_length(year, month) {
            let date = ParsedDate::new(year, month, day, 0, 0, 0, 0, false).unwrap();
            let line = format_with(&date, None, table, 0).unwrap();
            let expected = names[((day_count(year as i64, month, day) + 5) % 7) as usize];
            assert_eq!(&line[..3], expected, "{}-{}-{}", year, month, day);
        }
    }
}

#[test]
fn weekdays_follow_the_day_count() {
    let table = DirectiveTable::standard();
    for year in (0..=9999).step_by(13) {
        weekdays_of_year(year, &table);
    }
    for year in [0, 1, 3, 4, 99, 100, 101, 399, 400, 401, 1582, 1899, 1900, 1970, 1999, 2000, 2024, 9996, 9999] {
        weekdays_of_year(year, &table);
    }
    let first = ParsedDate::new(0, 1, 1, 0, 0, 0, 0, false).unwrap();
    assert_eq!(&format_with(&first, None, &table, 0).unwrap()[..3], "Sat");
}

#[test]
fn moved_days_follow_the_day_count() {
    for (year, month, day) in [(1995, 12, 10), (2000, 2, 29), (1900, 3, 1), (5, 1, 1), (9990, 12, 31)] {
        let now = ParsedDate::new(year, month, day, 7, 8, 9, 10, false).unwrap();
        let start = day_count(year as i64, month, day);
        for days in (-1500..=1500).step_by(7).chain([-366, -365, -1, 1, 14, 365, 366]) {
            let moved = resolve_keyword(&now, days).unwrap();
            let end = day_count(moved.year() as i64, moved.month(), moved.day());
            assert_eq!(end, start + days as i64, "{}-{}-{} {}", year, month, day, days);
            assert_eq!((moved.hour(), moved.minute(), moved.second(), moved.nanosecond()), (7, 8, 9, 10));
        }
    }
}
