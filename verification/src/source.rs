//! The reading of a calendar document.
//!
//! The document is parsed by the `ical` crate. What that crate hands back is
//! turned into the plain values that the conversion works on.

use crate::convert::{RawCalendar, RawEvent};
use crate::property::{RawList, RawProperty};
use crate::web::WebError;
use vstd::prelude::*;

verus! {

/// The type `ical::parser::ical::component::IcalCalendar`: a parsed calendar.
#[verifier::external_type_specification]
#[verifier::external_body]
pub struct ExIcalCalendar(ical::parser::ical::component::IcalCalendar);

/// The type `ical::parser::ParserError`: why a document cannot be parsed.
#[verifier::external_type_specification]
#[verifier::external_body]
pub struct ExParserError(ical::parser::ParserError);

/// What the parser of `ical` gives first for a document: nothing where the
/// document holds no line, else the first calendar or the reason for which
/// it cannot be parsed.
pub uninterp spec fn first_calendar(text: Seq<char>) -> Option<
    Result<ical::parser::ical::component::IcalCalendar, ical::parser::ParserError>,
>;

/// The name and the value of each of a parsed calendar's own properties, in
/// their order.
pub uninterp spec fn read_properties(
    calendar: ical::parser::ical::component::IcalCalendar,
) -> RawList;

/// For each event of a parsed calendar, in their order, the name and the
/// value of each of its properties, in their order.
pub uninterp spec fn read_events(calendar: ical::parser::ical::component::IcalCalendar) -> Seq<
    RawList,
>;

/// The message that `ical` gives for an error of its parser.
pub uninterp spec fn parser_error_text(error: ical::parser::ParserError) -> Seq<char>;

/// Calls `to_string` on an `ical::parser::ParserError`. The message is made
/// from the error alone: it is called `parser_error_text` here.
#[verifier::external_body]
pub(crate) fn describe_parser_error(error: &ical::parser::ParserError) -> (text: String)
    ensures
        text@ == parser_error_text(*error),
{
    error.to_string()
}

/// Calls `ical::IcalParser::new` on the bytes of `text` and takes the first
/// item of the parser. The parser reads nothing but `text`, so the outcome is
/// the same whenever the text is: it is called `first_calendar` here.
#[verifier::external_body]
fn parse_first(text: &str) -> (outcome: Option<
    Result<ical::parser::ical::component::IcalCalendar, ical::parser::ParserError>,
>)
    ensures
        outcome == first_calendar(text@),
{
    ical::IcalParser::new(text.as_bytes()).next()
}

/// Moves the fields `properties` and `events` of a parsed calendar into a
/// `RawCalendar`, each property as its name and its value. Parameters, alarms
/// and the other kinds of component are left behind.
#[verifier::external_body]
fn raw_calendar(calendar: ical::parser::ical::component::IcalCalendar) -> (raw: RawCalendar)
    ensures
        raw.properties.deep_view() == read_properties(calendar),
        raw.events.deep_view() == read_events(calendar),
{
    RawCalendar {
        properties: calendar.properties.into_iter().map(
            |p| RawProperty { name: p.name, value: p.value },
        ).collect(),
        events: calendar.events.into_iter().map(
            |e| RawEvent {
                properties: e.properties.into_iter().map(
                    |p| RawProperty { name: p.name, value: p.value },
                ).collect(),
            },
        ).collect(),
    }
}

/// Turns what the parser gave into a calendar to convert, or into the error
/// that says why there is none.
pub fn calendar_from(
    outcome: Option<
        Result<ical::parser::ical::component::IcalCalendar, ical::parser::ParserError>,
    >,
) -> (result: Result<RawCalendar, WebError>)
    ensures
        match outcome {
            None => result matches Err(WebError::CalendarNotFound),
            Some(Err(error)) => result matches Err(WebError::ICALParseError(given)) && given
                == error,
            Some(Ok(calendar)) => result matches Ok(raw) && raw.properties.deep_view()
                == read_properties(calendar) && raw.events.deep_view() == read_events(calendar),
        },
{
    match outcome {
        None => Err(WebError::CalendarNotFound),
        Some(Err(error)) => Err(WebError::ICALParseError(error)),
        Some(Ok(calendar)) => Ok(raw_calendar(calendar)),
    }
}

/// Parses the first calendar of a document.
pub fn parse_calendar(text: &str) -> (result: Result<RawCalendar, WebError>)
    ensures
        match first_calendar(text@) {
            None => result matches Err(WebError::CalendarNotFound),
            Some(Err(error)) => result matches Err(WebError::ICALParseError(given)) && given
                == error,
            Some(Ok(calendar)) => result matches Ok(raw) && raw.properties.deep_view()
                == read_properties(calendar) && raw.events.deep_view() == read_events(calendar),
        },
{
    calendar_from(parse_first(text))
}

} // verus!
