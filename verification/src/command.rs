//! What the command does with its arguments: one date expression and an
//! optional template go in, one line of text comes out.

use vstd::prelude::*;
use vstd::string::StrSliceExecFns;
use crate::calendar::{DateFields, InterpretError, ParsedDate};
use crate::directive::standard_map;
use crate::format::{format_at, formatted, template_of, year_line, FormatError};
use crate::grammar::keyword_offset;
use crate::holocene::lemma_displayed_year_is_timeless;
use crate::interpret::{
    interpret, interpret_at, interpretation, nothing_recognised, numerals_alone, reading_of,
};
use crate::text::trim;

verus! {

/// Why an expression could not be printed.
#[derive(Clone, Copy, Debug, PartialEq, Eq)]
pub enum Failure {
    /// The date expression could not be read.
    Interpret(InterpretError),
    /// The timestamp could not be formatted.
    Format(FormatError),
}

/// `value` without its first character; the empty text stays empty.
pub open spec fn without_first(value: Seq<char>) -> Seq<char> {
    if value.len() > 0 {
        value.skip(1)
    } else {
        value
    }
}

/// Removes the first character of `value`.
pub fn str_rm_char_first(value: &str) -> (rest: &str)
    ensures
        rest@ == without_first(value@),
{
    let n = value.unicode_len();
    if n == 0 {
        value
    } else {
        let rest = value.substring_char(1, n);
        assert(value@.subrange(1, n as int) =~= value@.skip(1));
        rest
    }
}

/// The template that a trailing argument carries: what follows its leading
/// `+`.  An argument that does not begin with `+` carries none.
pub open spec fn template_in(argument: Seq<char>) -> Option<Seq<char>> {
    if argument.len() > 0 && argument[0] == '+' {
        Some(argument.skip(1))
    } else {
        None
    }
}

/// Computes [`template_in`].
pub fn format_argument(argument: &str) -> (template: Option<&str>)
    ensures
        template_of(template) == template_in(argument@),
{
    if argument.unicode_len() > 0 && argument.get_char(0) == '+' {
        Some(str_rm_char_first(argument))
    } else {
        None
    }
}

/// The line for a timestamp that was read, or the failure to read it.
pub open spec fn printed(
    reading: Result<(DateFields, bool), InterpretError>,
    template: Option<Seq<char>>,
    current_year: int,
) -> Result<Seq<char>, Failure> {
    match reading {
        Ok(found) => match formatted(found.0, template, standard_map(), current_year) {
            Ok(text) => Ok(text),
            Err(e) => Err(Failure::Format(e)),
        },
        Err(e) => Err(Failure::Interpret(e)),
    }
}

/// The line that the template `%Y` gives for a timestamp that was read:
/// the numeral of its displayed year and nothing else.
pub open spec fn year_printed(reading: Result<(DateFields, bool), InterpretError>) -> Result<
    Seq<char>,
    Failure,
> {
    match reading {
        Ok(found) => Ok(year_line(found.0)),
        Err(e) => Err(Failure::Interpret(e)),
    }
}

/// The mathematical content of a printed line.
pub open spec fn line_of(r: Result<String, Failure>) -> Result<Seq<char>, Failure> {
    match r {
        Ok(s) => Ok(s@),
        Err(e) => Err(e),
    }
}

/// Formats what was read, or hands the failure on.
fn print_reading(
    reading: Result<(ParsedDate, bool), InterpretError>,
    formatter: Option<&str>,
    current_year: i32,
) -> (r: Result<String, Failure>)
    ensures
        line_of(r) == printed(reading_of(reading), template_of(formatter), current_year as int),
        template_of(formatter) == Some("%Y"@) ==> line_of(r) == year_printed(reading_of(reading)),
{
    match reading {
        Ok(found) => match format_at(&found.0, formatter, current_year) {
            Ok(text) => Ok(text),
            Err(e) => Err(Failure::Format(e)),
        },
        Err(e) => Err(Failure::Interpret(e)),
    }
}

/// Interprets `input` as of the instant `now` and formats the result,
/// counting the Holocene year in `current_year`.
pub fn parse_date_string_at(
    input: &str,
    formatter: Option<&str>,
    now: &ParsedDate,
    current_year: i32,
) -> (r: Result<String, Failure>)
    ensures
        line_of(r) == printed(
            interpretation(input@, now@),
            template_of(formatter),
            current_year as int,
        ),
        template_of(formatter) == Some("%Y"@) ==> line_of(r) == year_printed(
            interpretation(input@, now@),
        ),
        nothing_recognised(trim(input@)) ==> r == Err::<String, Failure>(
            Failure::Interpret(InterpretError::NoDateOrTimeFound),
        ),
{
    print_reading(interpret_at(input, now), formatter, current_year)
}

/// Interprets `input` and formats the result.
///
/// Numerals give the same line whatever the clock says; with the template
/// `%Y` that line is the numeral of the displayed year.  A keyword gives
/// the line of some instant of the common era, or fails with
/// `InvalidCalendarValue`.  Text that holds nothing recognisable fails with
/// `NoDateOrTimeFound`; the caller decides what to print instead.
pub fn parse_date_string(input: &str, formatter: Option<&str>) -> (r: Result<String, Failure>)
    ensures
        keyword_offset(trim(input@)) is None ==> forall|year: int|
            line_of(r) == #[trigger] printed(
                numerals_alone(trim(input@)),
                template_of(formatter),
                year,
            ),
        keyword_offset(trim(input@)) is Some ==> match r {
            Ok(line) => exists|fields: DateFields|
                fields.is_valid() && !fields.is_bce && #[trigger] formatted(
                    fields,
                    template_of(formatter),
                    standard_map(),
                    0,
                ) == Ok::<Seq<char>, FormatError>(line@),
            Err(Failure::Interpret(e)) => e == InterpretError::InvalidCalendarValue,
            Err(Failure::Format(_)) => formatter is Some && template_of(formatter) != Some("%Y"@),
        },
        keyword_offset(trim(input@)) is None && template_of(formatter) == Some("%Y"@) ==> line_of(
            r,
        ) == year_printed(numerals_alone(trim(input@))),
        nothing_recognised(trim(input@)) ==> r == Err::<String, Failure>(
            Failure::Interpret(InterpretError::NoDateOrTimeFound),
        ),
{
    let reading = interpret(input);
    let r = print_reading(reading, formatter, 0);
    proof {
        if keyword_offset(trim(input@)) is None {
            assert forall|year: int|
                line_of(r) == #[trigger] printed(
                    numerals_alone(trim(input@)),
                    template_of(formatter),
                    year,
                ) by {
                if let Ok(found) = reading {
                    lemma_displayed_year_is_timeless(found.0@, 0, year);
                }
            }
        } else if let Ok(found) = reading {
            if r is Ok {
                assert(formatted(found.0@, template_of(formatter), standard_map(), 0) == Ok::<
                    Seq<char>,
                    FormatError,
                >(r->Ok_0@));
            }
        }
    }
    r
}

} // verus!
