use holocene::grammar::{captures, era_marker, find, keyword_days, Numerals, Pattern};
use holocene::text::chars_of;
use regex::Regex;

fn found(pattern: Pattern, text: &str) -> Option<(u32, u32, u32)> {
    find(pattern, &chars_of(text)).map(|n| (n.first, n.second, n.third))
}

#[test]
fn month_day_year() {
    assert_eq!(found(Pattern::MonthDayYear, "12/10/1995"), Some((12, 10, 1995)));
    assert_eq!(found(Pattern::MonthDayYear, "1/2/0003"), Some((1, 2, 3)));
    assert_eq!(found(Pattern::MonthDayYear, "x 01/02/2000 y"), Some((1, 2, 2000)));
    assert_eq!(found(Pattern::MonthDayYear, "12/10/95"), None);
    assert_eq!(found(Pattern::MonthDayYear, "12-10-1995"), None);
    assert_eq!(found(Pattern::MonthDayYear, "1995/12/10"), None);
    assert_eq!(found(Pattern::MonthDayYear, ""), None);
}

#[test]
fn leftmost_place_and_widest_field() {
    assert_eq!(found(Pattern::MonthDayYear, "112/10/1995"), Some((12, 10, 1995)));
    assert_eq!(found(Pattern::MonthDayYear, "12/10/19955"), Some((12, 10, 1995)));
    assert_eq!(found(Pattern::MonthDayYear, "1/2/3333 4/5/6666"), Some((1, 2, 3333)));
    assert_eq!(found(Pattern::MonthDayYear, "1995/12/10/2000"), Some((12, 10, 2000)));
    assert_eq!(found(Pattern::MonthDayYear, "1/2/3/4/5555"), Some((3, 4, 5555)));
    assert_eq!(found(Pattern::YearMonthDay, "19955/12/10"), Some((9955, 12, 10)));
    assert_eq!(found(Pattern::YearMonthDay, "1995/12/105"), Some((1995, 12, 10)));
    assert_eq!(found(Pattern::YearMonthDay, "1995/1/2"), Some((1995, 1, 2)));
    assert_eq!(found(Pattern::Time, "12:01:577"), Some((12, 1, 57)));
    assert_eq!(found(Pattern::Time, "1:2:3"), Some((1, 2, 3)));
    assert_eq!(found(Pattern::Time, "123:45:6"), Some((23, 45, 6)));
    assert_eq!(found(Pattern::Time, "1:2"), None);
    assert_eq!(found(Pattern::Time, "1:2: 3"), None);
}

#[test]
fn captures_at_a_place() {
    let text = chars_of("a 1/2/3456");
    assert_eq!(captures(Pattern::MonthDayYear, &text, 0), None);
    assert_eq!(
        captures(Pattern::MonthDayYear, &text, 2),
        Some(Numerals { first: 1, second: 2, third: 3456 })
    );
    assert_eq!(captures(Pattern::MonthDayYear, &text, 3), None);
    assert_eq!(captures(Pattern::MonthDayYear, &text, 10), None);
    assert_eq!(captures(Pattern::MonthDayYear, &text, 99), None);
}

#[test]
fn era_markers() {
    assert!(era_marker(&chars_of("12/10/0436 BCE")));
    assert!(era_marker(&chars_of("12/10/0436 bc")));
    assert!(era_marker(&chars_of("Bc")));
    assert!(era_marker(&chars_of("abcd")));
    assert!(!era_marker(&chars_of("b c")));
    assert!(!era_marker(&chars_of("CE")));
    assert!(!era_marker(&chars_of("b")));
    assert!(!era_marker(&chars_of("")));
}

#[test]
fn keywords() {
    assert_eq!(keyword_days(&chars_of("now")), Some(0));
    assert_eq!(keyword_days(&chars_of("today")), Some(0));
    assert_eq!(keyword_days(&chars_of("yesterday")), Some(-1));
    assert_eq!(keyword_days(&chars_of("tomorrow")), Some(1));
    assert_eq!(keyword_days(&chars_of("fortnight")), Some(14));
    assert_eq!(keyword_days(&chars_of("Now")), None);
    assert_eq!(keyword_days(&chars_of("now ")), None);
    assert_eq!(keyword_days(&chars_of("")), None);
}

struct Corpus {
    state: u64,
}

impl Corpus {
    fn next(&mut self) -> u64 {
        self.state = self.state.wrapping_mul(6364136223846793005).wrapping_add(1442695040888963407);
        self.state >> 33
    }

    fn text(&mut self, alphabet: &[char]) -> String {
        let len = (self.next() % 18) as usize;
        let mut s = String::new();
        for _ in 0..len {
            s.push(alphabet[(self.next() % alphabet.len() as u64) as usize]);
        }
        s
    }
}

fn triple(caps: &regex::Captures, names: [&str; 3]) -> (u32, u32, u32) {
    let n = |name: &str| caps.name(name).unwrap().as_str().parse::<u32>().unwrap();
    (n(names[0]), n(names[1]), n(names[2]))
}

#[test]
fn numeric_patterns_agree_with_regular_expressions() {
    let mdy = Regex::new(r"(?:(?P<month>\d{1,2})/(?P<day>\d{1,2})/(?P<year>\d{4}))").unwrap();
    let ymd = Regex::new(r"(?:(?P<year>\d{4})/(?P<month>\d{1,2})/(?P<day>\d{1,2}))").unwrap();
    let hms = Regex::new(r"(?:(?P<hour>\d{1,2}):(?P<minute>\d{1,2}):(?P<second>\d{1,2}))").unwrap();
    let alphabet = ['0', '1', '2', '9', '/', '/', ':', ':', ' ', 'x'];
    let mut corpus = Corpus { state: 1995 };
    let mut hits = 0;
    for _ in 0..40_000 {
        let text = corpus.text(&alphabet);
        let a = mdy.captures(&text).map(|c| triple(&c, ["month", "day", "year"]));
        let b = ymd.captures(&text).map(|c| triple(&c, ["year", "month", "day"]));
        let c = hms.captures(&text).map(|c| triple(&c, ["hour", "minute", "second"]));
        assert_eq!(found(Pattern::MonthDayYear, &text), a, "{:?}", text);
        assert_eq!(found(Pattern::YearMonthDay, &text), b, "{:?}", text);
        assert_eq!(found(Pattern::Time, &text), c, "{:?}", text);
        if a.is_some() || b.is_some() || c.is_some() {
            hits += 1;
        }
    }
    assert!(hits > 100);
}

#[test]
fn era_marker_agrees_with_regular_expression() {
    let marker = Regex::new(r"(?i)(BCE|BC)").unwrap();
    let alphabet = ['b', 'B', 'c', 'C', 'e', 'E', ' ', '1', 'x'];
    let mut corpus = Corpus { state: 436 };
    for _ in 0..20_000 {
        let text = corpus.text(&alphabet);
        assert_eq!(era_marker(&chars_of(&text)), marker.is_match(&text), "{:?}", text);
    }
}
