use holocene::calendar::InterpretError;
use holocene::interpret::interpret;
use holocene::relative::{relative_offset, RelativeOffset, Unit};
use regex::Regex;

fn offset(forward: bool, amount: u64, unit: Unit) -> Option<RelativeOffset> {
    Some(RelativeOffset { forward, amount: Some(amount), unit })
}

#[test]
fn signed_offsets() {
    assert_eq!(relative_offset("+1 day"), offset(true, 1, Unit::Day));
    assert_eq!(relative_offset("-1 year"), offset(false, 1, Unit::Year));
    assert_eq!(relative_offset("  +30   seconds \n"), offset(true, 30, Unit::Second));
    assert_eq!(relative_offset("-007 minutes"), offset(false, 7, Unit::Minute));
    assert_eq!(relative_offset("+0 hour"), offset(true, 0, Unit::Hour));
    assert_eq!(relative_offset("+2\tweeks"), offset(true, 2, Unit::Week));
    assert_eq!(relative_offset("-12 months"), offset(false, 12, Unit::Month));
    assert_eq!(relative_offset("+18446744073709551615 days"), offset(true, u64::MAX, Unit::Day));
    assert_eq!(
        relative_offset("+18446744073709551616 days"),
        Some(RelativeOffset { forward: true, amount: None, unit: Unit::Day })
    );
    assert_eq!(
        relative_offset("-99999999999999999999999 years"),
        Some(RelativeOffset { forward: false, amount: None, unit: Unit::Year })
    );
}

#[test]
fn worded_offsets() {
    assert_eq!(relative_offset("next week"), offset(true, 1, Unit::Week));
    assert_eq!(relative_offset("last month"), offset(false, 1, Unit::Month));
    assert_eq!(relative_offset("next  years"), offset(true, 1, Unit::Year));
    assert_eq!(relative_offset(" last\u{a0}second "), offset(false, 1, Unit::Second));
}

#[test]
fn texts_that_are_no_offsets() {
    for text in [
        "", "+", "+1", "+1day", "1 day", "+ 1 day", "+1 days s", "+1 dayss", "+1 Day", "next",
        "nextweek", "next Thursday", "Next week", "last  ", "+1 day ago", "++1 day", "+1 fortnight",
        "now", "12/10/1995", "+-1 day", "+1 \u{0}day",
    ] {
        assert_eq!(relative_offset(text), None, "{:?}", text);
    }
}

#[test]
fn offsets_are_not_read_as_dates() {
    for text in ["+1 day", "-3 weeks", "next year", " last hour "] {
        assert!(relative_offset(text).is_some());
        assert_eq!(interpret(text), Err(InterpretError::NoDateOrTimeFound), "{:?}", text);
    }
}

fn unit_of(name: &str) -> Unit {
    match name {
        "second" => Unit::Second,
        "minute" => Unit::Minute,
        "hour" => Unit::Hour,
        "day" => Unit::Day,
        "week" => Unit::Week,
        "month" => Unit::Month,
        _ => Unit::Year,
    }
}

#[test]
fn offsets_agree_with_regular_expressions() {
    let signed = Regex::new(
        r"^\s*(?P<sign>[+-])(?P<value>\d+)\s+(?P<unit>second|minute|hour|day|week|month|year)s?\s*$",
    )
    .unwrap();
    let worded = Regex::new(
        r"^\s*(?P<sign>next|last)\s+(?P<unit>second|minute|hour|day|week|month|year)s?\s*$",
    )
    .unwrap();
    let pieces = [
        "+", "-", "1", "20", " ", "  ", "\t", "next", "last", "second", "minute", "hour", "day",
        "week", "month", "year", "s", "x", "",
    ];
    let mut state: u64 = 7;
    let mut hits = 0;
    for _ in 0..60_000 {
        let mut text = String::new();
        for _ in 0..6 {
            state = state.wrapping_mul(6364136223846793005).wrapping_add(1442695040888963407);
            text.push_str(pieces[((state >> 33) % pieces.len() as u64) as usize]);
        }
        let expected = if let Some(c) = signed.captures(&text) {
            Some(RelativeOffset {
                forward: &c["sign"] == "+",
                amount: c["value"].parse::<u64>().ok(),
                unit: unit_of(&c["unit"]),
            })
        } else if let Some(c) = worded.captures(&text) {
            Some(RelativeOffset {
                forward: &c["sign"] == "next",
                amount: Some(1),
                unit: unit_of(&c["unit"]),
            })
        } else {
            None
        };
        if expected.is_some() {
            hits += 1;
        }
        assert_eq!(relative_offset(&text), expected, "{:?}", text);
    }
    assert!(hits > 50);
}
