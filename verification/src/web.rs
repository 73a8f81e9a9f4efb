//! What a web service around the conversion has to decide: which converter
//! a request names, what is done with a fetched document, and how an error
//! is answered.

use crate::convert::calendar_conversion;
use crate::error::{message_text, ConversionError};
use crate::render::{convert_somtoday, document};
use crate::source::{
    describe_parser_error, first_calendar, parse_calendar, parser_error_text, read_events,
    read_properties,
};
use crate::subject::SubjectDictionary;
use vstd::prelude::*;
use vstd::string::StringExecFns;

verus! {

/// The converters that a request can name.
#[derive(Debug, Clone, Copy, PartialEq, Eq, Structural)]
pub enum Converter {
    /// The converter for calendars of Somtoday, named `somtoday`.
    Somtoday,
}

/// The kinds of error that a request can end in.
#[derive(Debug, Clone, Copy, PartialEq, Eq, Structural)]
pub enum ErrorKind {
    /// The request names a converter that does not exist.
    ConverterNotFound,
    /// The calendar could not be fetched.
    Fetch,
    /// The fetched document holds no calendar.
    CalendarNotFound,
    /// The fetched document cannot be parsed.
    Parse,
    /// The calendar cannot be converted.
    Conversion,
    /// The service itself failed.
    Internal,
}

/// Why a document cannot be answered with a converted calendar.
#[derive(Debug)]
pub enum WebError {
    /// The request names a converter that does not exist.
    ConverterNotFound(String),
    /// The document holds no calendar.
    CalendarNotFound,
    /// The document cannot be parsed.
    ICALParseError(ical::parser::ParserError),
    /// The calendar cannot be converted.
    Conversion(ConversionError),
}

/// The kind of an error.
pub open spec fn kind_of(error: WebError) -> ErrorKind {
    match error {
        WebError::ConverterNotFound(_) => ErrorKind::ConverterNotFound,
        WebError::CalendarNotFound => ErrorKind::CalendarNotFound,
        WebError::ICALParseError(_) => ErrorKind::Parse,
        WebError::Conversion(_) => ErrorKind::Conversion,
    }
}

/// The message that describes an error.
pub open spec fn message_of(error: WebError) -> Seq<char> {
    match error {
        WebError::ConverterNotFound(name) => "converter '"@ + name@ + "' not found"@,
        WebError::CalendarNotFound => "no calendar found"@,
        WebError::ICALParseError(error) => "ICAL parsing error: "@ + parser_error_text(error),
        WebError::Conversion(error) => "conversion error: "@ + message_text(error@),
    }
}

/// The HTTP status that answers an error: 404 for an unknown converter, 502
/// where the calendar could not be fetched, 500 for everything else.
pub open spec fn status_of(kind: ErrorKind) -> u16 {
    match kind {
        ErrorKind::ConverterNotFound => 404,
        ErrorKind::Fetch => 502,
        _ => 500,
    }
}

/// Whether a status says that the server failed.
pub open spec fn is_server_failure(status: u16) -> bool {
    500 <= status < 600
}

/// The HTTP status that answers an error of the kind `kind`.
pub fn status_code(kind: ErrorKind) -> (status: u16)
    ensures
        status == status_of(kind),
{
    match kind {
        ErrorKind::ConverterNotFound => 404,
        ErrorKind::Fetch => 502,
        _ => 500,
    }
}

/// Whether the answer to an error of the kind `kind` carries the error's
/// message. An answer that says that the server failed carries none: what
/// went wrong is for the log.
pub fn shows_message(kind: ErrorKind) -> (shown: bool)
    ensures
        shown == !is_server_failure(status_of(kind)),
        shown == (kind == ErrorKind::ConverterNotFound),
{
    let status = status_code(kind);
    !(500 <= status && status < 600)
}

/// The converter that `name` names, if any.
pub fn converter_named(name: &str) -> (result: Result<Converter, WebError>)
    ensures
        if name@ == "somtoday"@ {
            result matches Ok(Converter::Somtoday)
        } else {
            result matches Err(WebError::ConverterNotFound(given)) && given@ == name@
        },
{
    let given = name.to_owned();
    if given == String::from_str("somtoday") {
        Ok(Converter::Somtoday)
    } else {
        Err(WebError::ConverterNotFound(given))
    }
}

/// Parses the first calendar of a document, converts it and writes the
/// result as a document again.
pub fn convert_document(text: &str, subject_names: &SubjectDictionary) -> (result: Result<
    String,
    WebError,
>)
    ensures
        match first_calendar(text@) {
            None => result matches Err(WebError::CalendarNotFound),
            Some(Err(error)) => result matches Err(WebError::ICALParseError(given)) && given
                == error,
            Some(Ok(calendar)) => match calendar_conversion(
                read_properties(calendar),
                read_events(calendar),
                subject_names@,
            ) {
                Ok(converted) => result matches Ok(written) && written@ == document(converted),
                Err(failure) => result matches Err(WebError::Conversion(error)) && error@
                    == failure,
            },
        },
{
    match parse_calendar(text) {
        Err(error) => Err(error),
        Ok(calendar) => match convert_somtoday(calendar, subject_names) {
            Ok(written) => Ok(written),
            Err(error) => Err(WebError::Conversion(error)),
        },
    }
}

impl WebError {
    /// The kind of the error.
    pub fn kind(&self) -> (kind: ErrorKind)
        ensures
            kind == kind_of(*self),
    {
        match self {
            WebError::ConverterNotFound(_) => ErrorKind::ConverterNotFound,
            WebError::CalendarNotFound => ErrorKind::CalendarNotFound,
            WebError::ICALParseError(_) => ErrorKind::Parse,
            WebError::Conversion(_) => ErrorKind::Conversion,
        }
    }

    /// A message that describes the error.
    pub fn message(&self) -> (text: String)
        ensures
            text@ == message_of(*self),
    {
        match self {
            WebError::ConverterNotFound(name) => {
                let mut text = String::from_str("converter '");
                text.append(name.as_str());
                text.append("' not found");
                text
            },
            WebError::CalendarNotFound => String::from_str("no calendar found"),
            WebError::ICALParseError(error) => {
                let mut text = String::from_str("ICAL parsing error: ");
                text.append(describe_parser_error(error).as_str());
                text
            },
            WebError::Conversion(error) => {
                let mut text = String::from_str("conversion error: ");
                text.append(error.message().as_str());
                text
            },
        }
    }

    /// The HTTP status that answers the error.
    pub fn status_code(&self) -> (status: u16)
        ensures
            status == status_of(kind_of(*self)),
    {
        status_code(self.kind())
    }

    /// The text that the answer to the error carries: the message of an
    /// unknown converter, and nothing where the server failed.
    pub fn response_body(&self) -> (body: Option<String>)
        ensures
            match *self {
                WebError::ConverterNotFound(_) => body matches Some(text) && text@ == message_of(
                    *self,
                ),
                _ => body is None,
            },
            body is Some <==> !is_server_failure(status_of(kind_of(*self))),
    {
        if shows_message(self.kind()) {
            Some(self.message())
        } else {
            None
        }
    }
}

} // verus!
