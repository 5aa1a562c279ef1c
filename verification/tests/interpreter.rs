use holocene::calendar::{InterpretError, ParsedDate};
use holocene::interpret::{interpret, interpret_at};

fn date(year: i32, month: u32, day: u32, hour: u32, minute: u32, second: u32, bce: bool) -> ParsedDate {
    ParsedDate::new(year, month, day, hour, minute, second, 0, bce).unwrap()
}

#[test]
fn month_first_and_year_first_agree() {
    let a = interpret("12/10/1995");
    let b = interpret("1995/12/10");
    assert_eq!(a, b);
    assert_eq!(a, Ok((date(1995, 12, 10, 0, 0, 0, false), false)));
}

#[test]
fn time_before_or_after_date() {
    let expected = Ok((date(1995, 12, 10, 12, 1, 57, false), false));
    assert_eq!(interpret("12:01:57 12/10/1995"), expected);
    assert_eq!(interpret("12/10/1995 12:01:57"), expected);
    assert_eq!(interpret("+saz 12/10/1995 12:01:57 asdfz"), expected);
}

#[test]
fn era_marker_sets_the_flag() {
    assert_eq!(
        interpret("+saz 12/10/9999 12:01:57 BCE asdfz"),
        Ok((date(9999, 12, 10, 12, 1, 57, true), false))
    );
    assert_eq!(interpret("12/10/0436 bc"), Ok((date(436, 12, 10, 0, 0, 0, true), false)));
}

#[test]
fn nothing_recognisable_is_an_error() {
    assert_eq!(interpret("asdfz"), Err(InterpretError::NoDateOrTimeFound));
    assert_eq!(interpret(""), Err(InterpretError::NoDateOrTimeFound));
    assert_eq!(interpret("+1 day"), Err(InterpretError::NoDateOrTimeFound));
    assert_eq!(interpret("next week"), Err(InterpretError::NoDateOrTimeFound));
}

#[test]
fn keywords_follow_the_clock() {
    let now = date(1995, 12, 31, 23, 59, 58, false);
    assert_eq!(interpret_at("now", &now), Ok((now, true)));
    assert_eq!(interpret_at("  today\n", &now), Ok((now, true)));
    assert_eq!(interpret_at("yesterday", &now), Ok((date(1995, 12, 30, 23, 59, 58, false), true)));
    assert_eq!(interpret_at("tomorrow", &now), Ok((date(1996, 1, 1, 23, 59, 58, false), true)));
    assert_eq!(interpret_at("fortnight", &now), Ok((date(1996, 1, 14, 23, 59, 58, false), true)));
}
