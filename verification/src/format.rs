//! The formatter: from a timestamp and an optional template to text, with
//! the year counted in the Human Era.
//!
//! Without a template the layout is fixed.  With one, the directives of the
//! table are rendered here, the strftime engine renders the rest, and every
//! occurrence of the Gregorian year, as four digits, in what it wrote is
//! replaced by the displayed year.  The replacement goes by the text alone:
//! digits that read like the year are replaced wherever they came from.

use vstd::prelude::*;
use crate::calendar::{weekday_number, DateFields, ParsedDate};
use crate::decimal::{
    decimal_text, decimal_value, integer_text, lemma_decimal_round_trip, padded_text,
    push_decimal, push_integer,
};
use crate::directive::{
    expand, expand_template, push_padded, standard_map, Directive, DirectiveTable,
};
use crate::engine::{local_year, strftime, strftime_text, weekday_from_monday};
use crate::holocene::{
    displayed_year, displayed_year_of, lemma_displayed_year_is_timeless,
    lemma_displayed_year_range, shown_year,
};
use crate::substitute::{lemma_replace_whole, replace, replace_all};
use crate::text::{chars_of, push_str, string_of};

verus! {

/// Why a timestamp could not be formatted.
#[derive(Clone, Copy, Debug, PartialEq, Eq)]
pub enum FormatError {
    /// The strftime engine refused what it was given to render.
    TemplateRefused,
}

/// The three-letter name of the day of the week numbered from Monday as 0.
pub open spec fn weekday_name(number: int) -> Seq<char> {
    if number == 0 {
        "Mon"@
    } else if number == 1 {
        "Tue"@
    } else if number == 2 {
        "Wed"@
    } else if number == 3 {
        "Thu"@
    } else if number == 4 {
        "Fri"@
    } else if number == 5 {
        "Sat"@
    } else {
        "Sun"@
    }
}

/// `AM` before noon, `PM` from noon on.
pub open spec fn meridiem(hour: int) -> Seq<char> {
    if hour < 12 {
        "AM"@
    } else {
        "PM"@
    }
}

/// The fixed layout up to the year: weekday name, month, day, the time of
/// day on the 24-hour clock with two digits a field, `AM` or `PM`, and
/// `UTC`, with single spaces between them.
pub open spec fn default_head(fields: DateFields, weekday: int) -> Seq<char> {
    weekday_name(weekday) + seq![' '] + decimal_text(fields.month as nat) + seq![' ']
        + decimal_text(fields.day as nat) + seq![' '] + padded_text(fields.hour as nat, 2) + seq![
        ':',
    ] + padded_text(fields.minute as nat, 2) + seq![':'] + padded_text(fields.second as nat, 2)
        + seq![' '] + meridiem(fields.hour) + seq![' '] + "UTC"@
}

/// The fixed layout: [`default_head`], a space, and the numeral of the
/// displayed year as the last field.
pub open spec fn default_text(fields: DateFields, weekday: int, shown: int) -> Seq<char> {
    default_head(fields, weekday) + seq![' '] + integer_text(shown)
}

/// What the strftime engine writes for the instant of `fields`.
pub open spec fn engine_text(fields: DateFields, template: Seq<char>) -> Option<Seq<char>> {
    strftime_text(
        fields.year,
        fields.month,
        fields.day,
        fields.hour,
        fields.minute,
        fields.second,
        fields.nanosecond,
        template,
    )
}

/// The text of a template once the engine has rendered it: what the engine
/// wrote, with every occurrence of `gregorian` replaced by the numeral of
/// `shown`.  Where the engine refused the template there is no text.
pub open spec fn year_substituted(
    rendered: Option<Seq<char>>,
    gregorian: Seq<char>,
    shown: int,
) -> Result<Seq<char>, FormatError> {
    match rendered {
        Some(text) => Ok(replace_all(text, gregorian, integer_text(shown))),
        None => Err(FormatError::TemplateRefused),
    }
}

/// What formatting gives, with the directives of `table` and the displayed
/// year counted in `current_year`.
pub open spec fn formatted(
    fields: DateFields,
    template: Option<Seq<char>>,
    table: Map<char, Directive>,
    current_year: int,
) -> Result<Seq<char>, FormatError> {
    let shown = displayed_year_of(fields, current_year);
    match template {
        None => Ok(
            default_text(fields, weekday_number(fields.year, fields.month, fields.day), shown),
        ),
        Some(t) => year_substituted(
            engine_text(fields, expand(t, table, fields)),
            padded_text(fields.year as nat, 4),
            shown,
        ),
    }
}

/// The mathematical content of a formatter's answer.
pub open spec fn text_of(r: Result<String, FormatError>) -> Result<Seq<char>, FormatError> {
    match r {
        Ok(s) => Ok(s@),
        Err(e) => Err(e),
    }
}

/// The mathematical content of an optional template.
pub open spec fn template_of(template: Option<&str>) -> Option<Seq<char>> {
    match template {
        Some(t) => Some(t@),
        None => None,
    }
}

/// The line of the template `%Y`: the numeral of the displayed year.
pub open spec fn year_line(fields: DateFields) -> Seq<char> {
    integer_text(shown_year(fields))
}

/// The template `%Y` holds no directive of a table without the letter `Y`.
pub proof fn lemma_year_template_expands_to_itself(
    table: Map<char, Directive>,
    fields: DateFields,
)
    requires
        !table.dom().contains('Y'),
    ensures
        expand("%Y"@, table, fields) == "%Y"@,
{
    let template = "%Y"@;
    reveal_strlit("%Y");
    assert(template.len() == 2 && template[0] == '%' && template[1] == 'Y');
    assert(template.skip(2) =~= Seq::<char>::empty());
    assert(expand(template.skip(2), table, fields) =~= Seq::<char>::empty());
    assert(expand(template, table, fields) =~= template);
}

/// The line of the template `%Y` reads back as the displayed year.
pub proof fn lemma_year_line_reads_back(fields: DateFields)
    requires
        fields.is_valid(),
    ensures
        decimal_value(year_line(fields)) == shown_year(fields),
        year_line(fields) == decimal_text(shown_year(fields) as nat),
{
    lemma_displayed_year_range(fields, 0);
    lemma_displayed_year_is_timeless(fields, 0, 0);
    lemma_decimal_round_trip(shown_year(fields) as nat);
}

/// In the fixed layout the numeral of the displayed year is the last
/// field: it follows a space and holds none.
pub proof fn lemma_year_is_last_field(fields: DateFields, weekday: int, current_year: int)
    requires
        fields.is_valid(),
    ensures
        default_text(fields, weekday, displayed_year_of(fields, current_year)) == default_head(
            fields,
            weekday,
        ) + seq![' '] + year_line(fields),
        forall|i: int| 0 <= i < year_line(fields).len() ==> year_line(fields)[i] != ' ',
{
    lemma_displayed_year_is_timeless(fields, current_year, 0);
    lemma_year_line_reads_back(fields);
    lemma_decimal_round_trip(shown_year(fields) as nat);
}

/// Computes [`weekday_name`].
pub fn weekday_label(number: u32) -> (name: &'static str)
    ensures
        name@ == weekday_name(number as int),
{
    if number == 0 {
        "Mon"
    } else if number == 1 {
        "Tue"
    } else if number == 2 {
        "Wed"
    } else if number == 3 {
        "Thu"
    } else if number == 4 {
        "Fri"
    } else if number == 5 {
        "Sat"
    } else {
        "Sun"
    }
}

/// Computes [`default_text`].
pub fn default_layout(date: &ParsedDate, weekday: u32, shown: i32) -> (s: String)
    ensures
        s@ == default_text(date@, weekday as int, shown as int),
{
    let mut out: Vec<char> = Vec::new();
    push_str(&mut out, weekday_label(weekday));
    out.push(' ');
    push_decimal(&mut out, date.month() as u64);
    out.push(' ');
    push_decimal(&mut out, date.day() as u64);
    out.push(' ');
    push_padded(&mut out, date.hour(), 2);
    out.push(':');
    push_padded(&mut out, date.minute(), 2);
    out.push(':');
    push_padded(&mut out, date.second(), 2);
    out.push(' ');
    push_str(
        &mut out,
        if date.hour() < 12 {
            "AM"
        } else {
            "PM"
        },
    );
    out.push(' ');
    push_str(&mut out, "UTC");
    out.push(' ');
    push_integer(&mut out, shown as i64);
    assert(out@ =~= default_text(date@, weekday as int, shown as int));
    string_of(out.as_slice())
}

/// Puts the displayed year in place of the Gregorian year in what the
/// strftime engine wrote.
///
/// `rendered` is the engine's text for the template, `None` where the
/// engine refused it; `gregorian` is the text to replace.
pub fn substitute_year(rendered: Option<&str>, gregorian: &str, shown: i32) -> (r: Result<
    String,
    FormatError,
>)
    ensures
        text_of(r) == year_substituted(template_of(rendered), gregorian@, shown as int),
{
    match rendered {
        Some(text) => {
            let text = chars_of(text);
            let year = chars_of(gregorian);
            let mut numeral: Vec<char> = Vec::new();
            push_integer(&mut numeral, shown as i64);
            assert(numeral@ =~= integer_text(shown as int));
            let out = replace(text.as_slice(), year.as_slice(), numeral.as_slice());
            Ok(string_of(out.as_slice()))
        },
        None => Err(FormatError::TemplateRefused),
    }
}

/// The engine's text for `template` at the instant of `date`.
fn engine_render(date: &ParsedDate, template: &str) -> (r: Option<String>)
    ensures
        r matches Some(text) ==> engine_text(date@, template@) == Some(text@),
        r is None ==> engine_text(date@, template@) is None,
        template@ == "%Y"@ ==> r.is_some() && r.unwrap()@ == padded_text(date@.year as nat, 4),
{
    strftime(
        date.year(),
        date.month(),
        date.day(),
        date.hour(),
        date.minute(),
        date.second(),
        date.nanosecond(),
        template,
    )
}

/// Renders `template` for `date`: the directives of `table` here, the rest
/// by the strftime engine.  The year is left as the engine wrote it.
pub fn format_date(template: &str, date: &ParsedDate, table: &DirectiveTable) -> (r: Result<
    String,
    FormatError,
>)
    ensures
        text_of(r) == match engine_text(date@, expand(template@, table@, date@)) {
            Some(text) => Ok::<Seq<char>, FormatError>(text),
            None => Err::<Seq<char>, FormatError>(FormatError::TemplateRefused),
        },
        expand(template@, table@, date@) == "%Y"@ ==> text_of(r) == Ok::<Seq<char>, FormatError>(
            padded_text(date@.year as nat, 4),
        ),
{
    let letters = chars_of(template);
    let expanded = string_of(expand_template(letters.as_slice(), table, date).as_slice());
    match engine_render(date, expanded.as_str()) {
        Some(text) => Ok(text),
        None => Err(FormatError::TemplateRefused),
    }
}

/// Formats `date` with the directives of `table`, counting the displayed
/// year in `current_year`.
///
/// Without a template the line always comes.  With the template `%Y`, and
/// no directive for `Y` in the table, the line is the numeral of the
/// displayed year.
pub fn format_with(
    date: &ParsedDate,
    template: Option<&str>,
    table: &DirectiveTable,
    current_year: i32,
) -> (r: Result<String, FormatError>)
    ensures
        text_of(r) == formatted(date@, template_of(template), table@, current_year as int),
        template is None ==> r is Ok,
        template_of(template) == Some("%Y"@) && !table@.dom().contains('Y') ==> text_of(r) == Ok::<
            Seq<char>,
            FormatError,
        >(year_line(date@)),
{
    let shown = displayed_year(date, current_year);
    match template {
        None => {
            let weekday = weekday_from_monday(date.year(), date.month(), date.day());
            Ok(default_layout(date, weekday, shown))
        },
        Some(t) => {
            let rendered = match format_date(t, date, table) {
                Ok(text) => Some(text),
                Err(_) => None,
            };
            let gregorian = match engine_render(date, "%Y") {
                Some(text) => text,
                None => return Err(FormatError::TemplateRefused),
            };
            proof {
                if t@ == "%Y"@ && !table@.dom().contains('Y') {
                    lemma_year_template_expands_to_itself(table@, date@);
                    lemma_replace_whole(gregorian@, integer_text(shown as int));
                }
            }
            substitute_year(
                match &rendered {
                    Some(text) => Some(text.as_str()),
                    None => None,
                },
                gregorian.as_str(),
                shown,
            )
        },
    }
}

/// Formats `date` with the standard directives, counting the displayed
/// year in `current_year`.
pub fn format_at(date: &ParsedDate, template: Option<&str>, current_year: i32) -> (r: Result<
    String,
    FormatError,
>)
    ensures
        text_of(r) == formatted(
            date@,
            template_of(template),
            standard_map(),
            current_year as int,
        ),
        template is None ==> r is Ok,
        template_of(template) == Some("%Y"@) ==> text_of(r) == Ok::<Seq<char>, FormatError>(
            year_line(date@),
        ),
{
    let table = DirectiveTable::standard();
    format_with(date, template, &table, current_year)
}

/// Formats `date` with the standard directives, counting the displayed
/// year in the current year of the local clock.  The answer is the same in
/// every year.
pub fn format(date: &ParsedDate, template: Option<&str>) -> (r: Result<String, FormatError>)
    ensures
        forall|year: int|
            text_of(r) == #[trigger] formatted(date@, template_of(template), standard_map(), year),
        template is None ==> r is Ok,
        template_of(template) == Some("%Y"@) ==> text_of(r) == Ok::<Seq<char>, FormatError>(
            year_line(date@),
        ),
{
    let current_year = local_year();
    let r = format_at(date, template, current_year);
    assert forall|year: int|
        text_of(r) == #[trigger] formatted(
            date@,
            template_of(template),
            standard_map(),
            year,
        ) by {
        lemma_displayed_year_is_timeless(date@, current_year as int, year);
    }
    r
}

} // verus!
