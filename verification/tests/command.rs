use holocene::calendar::{InterpretError, ParsedDate};
use holocene::command::{
    format_argument, parse_date_string, parse_date_string_at, str_rm_char_first, Failure,
};
use holocene::format::FormatError;

const TEMPLATE: &str = "%m-%d-%Y %H:%M:%S %z %Z %E";

#[test]
fn lines_of_the_command() {
    assert_eq!(parse_date_string("12/10/1995", None), Ok("Sun 12 10 00:00:00 AM UTC 11995".to_string()));
    assert_eq!(parse_date_string("1995/12/10", None), Ok("Sun 12 10 00:00:00 AM UTC 11995".to_string()));
    assert_eq!(
        parse_date_string("12:01:57 12/10/1995", None),
        Ok("Sun 12 10 12:01:57 PM UTC 11995".to_string())
    );
    assert_eq!(
        parse_date_string("12/10/1995 12:01:57", None),
        Ok("Sun 12 10 12:01:57 PM UTC 11995".to_string())
    );
    assert_eq!(
        parse_date_string("+saz 12/10/1995 12:01:57 asdfz", None),
        Ok("Sun 12 10 12:01:57 PM UTC 11995".to_string())
    );
    assert_eq!(
        parse_date_string("+saz 12/10/9999 12:01:57 BCE asdfz", None),
        Ok("Fri 12 10 12:01:57 PM UTC 2".to_string())
    );
    assert_eq!(
        parse_date_string("+saz 12/10/9999 12:01:57 BCE asdfz", Some(TEMPLATE)),
        Ok("12-10-2 12:01:57 +0000 UTC HE".to_string())
    );
    assert_eq!(
        parse_date_string("+saz 12/10/0436 12:01:57 BCE asdfz", None),
        Ok("Wed 12 10 12:01:57 PM UTC 9565".to_string())
    );
    assert_eq!(
        parse_date_string("+saz 12/10/0436 12:01:57 BCE asdfz", Some(TEMPLATE)),
        Ok("12-10-9565 12:01:57 +0000 UTC HE".to_string())
    );
}

#[test]
fn failures_of_the_command() {
    assert_eq!(
        parse_date_string("no date here", None),
        Err(Failure::Interpret(InterpretError::NoDateOrTimeFound))
    );
    assert_eq!(
        parse_date_string("13/10/1995", None),
        Err(Failure::Interpret(InterpretError::InvalidCalendarValue))
    );
    assert_eq!(
        parse_date_string("12/10/1995", Some("%Q")),
        Err(Failure::Format(FormatError::TemplateRefused))
    );
}

#[test]
fn keywords_at_a_given_instant() {
    let now = ParsedDate::new(2024, 2, 28, 6, 7, 8, 123_456_789, false).unwrap();
    assert_eq!(
        parse_date_string_at("now", None, &now, 2024),
        Ok("Wed 2 28 06:07:08 AM UTC 12024".to_string())
    );
    assert_eq!(
        parse_date_string_at("tomorrow", None, &now, 2024),
        Ok("Thu 2 29 06:07:08 AM UTC 12024".to_string())
    );
    assert_eq!(
        parse_date_string_at("fortnight", Some("%Y-%m-%d %N"), &now, 2024),
        Ok("12024-03-13 123456789".to_string())
    );
    assert_eq!(
        parse_date_string_at("yesterday", Some("%A %E"), &now, 2024),
        Ok("Tuesday HE".to_string())
    );
}

#[test]
fn keywords_now() {
    let line = parse_date_string("now", Some("%E")).unwrap();
    assert_eq!(line, "HE");
    assert!(parse_date_string("fortnight", None).is_ok());
}

#[test]
fn first_character_removed() {
    assert_eq!(str_rm_char_first("+%Y"), "%Y");
    assert_eq!(str_rm_char_first("+"), "");
    assert_eq!(str_rm_char_first(""), "");
    assert_eq!(str_rm_char_first("éa"), "a");
}

#[test]
fn template_arguments() {
    assert_eq!(format_argument("+%Y-%m"), Some("%Y-%m"));
    assert_eq!(format_argument("+"), Some(""));
    assert_eq!(format_argument("%Y"), None);
    assert_eq!(format_argument(""), None);
}
