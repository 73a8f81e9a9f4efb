use calconv::convert::{RawCalendar, RawEvent};
use calconv::property::RawProperty;
use calconv::source::{calendar_from, parse_calendar};
use calconv::subject::SubjectDictionary;
use calconv::web::{
    convert_document, converter_named, shows_message, status_code, Converter, ErrorKind, WebError,
};
use calconv::error::ConversionError;

fn property(name: &str, value: Option<&str>) -> RawProperty {
    RawProperty { name: name.to_string(), value: value.map(|v| v.to_string()) }
}

const DOCUMENT: &str = "BEGIN:VCALENDAR\r\n\
VERSION:2.0\r\n\
PRODID:-//Somtoday//Rooster//NL\r\n\
X-EMPTY:\r\n\
BEGIN:VEVENT\r\n\
UID:lesson-1\r\n\
DTSTAMP:20220831T120000Z\r\n\
DTSTART;TZID=Europe/Amsterdam:20220901T083000\r\n\
SUMMARY:WISK - WIS3A2\\, WIS3B1 - jdoe\r\n\
LOCATION:a1234\r\n\
BEGIN:VALARM\r\n\
ACTION:DISPLAY\r\n\
END:VALARM\r\n\
END:VEVENT\r\n\
BEGIN:VEVENT\r\n\
UID:lesson-2\r\n\
DTSTAMP:20220831T130000Z\r\n\
SUMMARY:Study\r\n\
\x20\x20Hall\r\n\
END:VEVENT\r\n\
END:VCALENDAR\r\n\
BEGIN:VCALENDAR\r\n\
VERSION:1.0\r\n\
END:VCALENDAR\r\n";

#[test]
fn document_is_parsed_into_plain_values() {
    let calendar = parse_calendar(DOCUMENT).unwrap();
    assert_eq!(
        calendar,
        RawCalendar {
            properties: vec![
                property("VERSION", Some("2.0")),
                property("PRODID", Some("-//Somtoday//Rooster//NL")),
                property("X-EMPTY", None),
            ],
            events: vec![
                RawEvent {
                    properties: vec![
                        property("UID", Some("lesson-1")),
                        property("DTSTAMP", Some("20220831T120000Z")),
                        property("DTSTART", Some("20220901T083000")),
                        property("SUMMARY", Some("WISK - WIS3A2\\, WIS3B1 - jdoe")),
                        property("LOCATION", Some("a1234")),
                    ],
                },
                RawEvent {
                    properties: vec![
                        property("UID", Some("lesson-2")),
                        property("DTSTAMP", Some("20220831T130000Z")),
                        property("SUMMARY", Some("Study Hall")),
                    ],
                },
            ],
        }
    );
}

#[test]
fn document_without_a_line_holds_no_calendar() {
    assert!(matches!(parse_calendar(""), Err(WebError::CalendarNotFound)));
    assert!(matches!(parse_calendar("\r\n\r\n"), Err(WebError::CalendarNotFound)));
    assert!(matches!(calendar_from(None), Err(WebError::CalendarNotFound)));
}

#[test]
fn document_that_is_no_calendar_is_a_parse_error() {
    assert!(matches!(
        parse_calendar("BEGIN:VCARD\r\nEND:VCARD\r\n"),
        Err(WebError::ICALParseError(ical::parser::ParserError::MissingHeader))
    ));
    assert!(matches!(
        parse_calendar("BEGIN:VCALENDAR\r\nVERSION:2.0\r\n"),
        Err(WebError::ICALParseError(ical::parser::ParserError::NotComplete))
    ));
    assert!(matches!(
        parse_calendar("BEGIN:VCALENDAR\r\nBEGIN:VOTHER\r\nEND:VOTHER\r\nEND:VCALENDAR\r\n"),
        Err(WebError::ICALParseError(ical::parser::ParserError::InvalidComponent))
    ));
}

#[test]
fn parser_outcome_is_turned_into_a_result() {
    let mut parsed = ical::parser::ical::component::IcalCalendar::new();
    let mut own = ical::property::Property::new();
    own.name = "METHOD".to_string();
    own.value = Some("PUBLISH".to_string());
    own.params = Some(vec![("X".to_string(), vec!["y".to_string()])]);
    parsed.properties.push(own);
    let mut event = ical::parser::ical::component::IcalEvent::new();
    let mut uid = ical::property::Property::new();
    uid.name = "UID".to_string();
    event.properties.push(uid);
    parsed.events.push(event);
    parsed.events.push(ical::parser::ical::component::IcalEvent::new());
    let calendar = calendar_from(Some(Ok(parsed))).unwrap();
    assert_eq!(
        calendar,
        RawCalendar {
            properties: vec![property("METHOD", Some("PUBLISH"))],
            events: vec![
                RawEvent { properties: vec![property("UID", None)] },
                RawEvent { properties: vec![] },
            ],
        }
    );
    assert!(matches!(
        calendar_from(Some(Err(ical::parser::ParserError::NotComplete))),
        Err(WebError::ICALParseError(ical::parser::ParserError::NotComplete))
    ));
}

#[test]
fn document_is_converted_from_text_to_text() {
    let mut dict = SubjectDictionary::new();
    dict.insert("WIS".to_string(), "Wiskunde".to_string());
    let document = DOCUMENT.replace("X-EMPTY:\r\n", "");
    let text = convert_document(&document, &dict).unwrap();
    let read = parse_calendar(&text).unwrap();
    assert_eq!(
        read.properties,
        vec![
            property("VERSION", Some("2.0")),
            property("PRODID", Some("-//rijkvp //calconv //NL")),
            property("VERSION", Some("2.0")),
            property("PRODID", Some("-//Somtoday//Rooster//NL")),
        ]
    );
    assert_eq!(read.events.len(), 2);
    assert_eq!(read.events[0].properties[1], property("DTSTAMP", Some("20220831T120000Z")));
    assert_eq!(read.events[0].properties[3], property("SUMMARY", Some("Wiskunde")));
    assert_eq!(read.events[0].properties[4], property("LOCATION", Some("1234")));
    assert_eq!(
        read.events[0].properties[5],
        property("DESCRIPTION", Some("Docent: jdoe; Clustergroepen: WIS3A2, WIS3B1"))
    );
    assert_eq!(read.events[1].properties[2], property("SUMMARY", Some("Study Hall")));
}

#[test]
fn document_errors_are_told_apart() {
    let dict = SubjectDictionary::new();
    assert!(matches!(convert_document("", &dict), Err(WebError::CalendarNotFound)));
    assert!(matches!(
        convert_document("BEGIN:VEVENT\r\n", &dict),
        Err(WebError::ICALParseError(ical::parser::ParserError::MissingHeader))
    ));
    match convert_document(DOCUMENT, &dict) {
        Err(WebError::Conversion(error)) => {
            assert_eq!(error, ConversionError::MissingPropertyValue("X-EMPTY".to_string()))
        }
        other => panic!("unexpected: {:?}", other),
    }
}

#[test]
fn converter_is_found_by_name() {
    assert!(matches!(converter_named("somtoday"), Ok(Converter::Somtoday)));
    match converter_named("Somtoday") {
        Err(WebError::ConverterNotFound(name)) => assert_eq!(name, "Somtoday"),
        other => panic!("unexpected: {:?}", other),
    }
    assert!(matches!(converter_named(""), Err(WebError::ConverterNotFound(_))));
}

#[test]
fn errors_are_answered_with_a_status() {
    assert_eq!(status_code(ErrorKind::ConverterNotFound), 404);
    assert_eq!(status_code(ErrorKind::Fetch), 502);
    assert_eq!(status_code(ErrorKind::CalendarNotFound), 500);
    assert_eq!(status_code(ErrorKind::Parse), 500);
    assert_eq!(status_code(ErrorKind::Conversion), 500);
    assert_eq!(status_code(ErrorKind::Internal), 500);
}

#[test]
fn only_client_errors_show_their_message() {
    assert!(shows_message(ErrorKind::ConverterNotFound));
    assert!(!shows_message(ErrorKind::Fetch));
    assert!(!shows_message(ErrorKind::CalendarNotFound));
    assert!(!shows_message(ErrorKind::Parse));
    assert!(!shows_message(ErrorKind::Conversion));
    assert!(!shows_message(ErrorKind::Internal));
}

#[test]
fn errors_have_a_message() {
    assert_eq!(
        WebError::ConverterNotFound("x".to_string()).message(),
        "converter 'x' not found"
    );
    assert_eq!(WebError::CalendarNotFound.message(), "no calendar found");
    assert_eq!(
        WebError::ICALParseError(ical::parser::ParserError::MissingHeader).message(),
        "ICAL parsing error: missing header"
    );
    assert_eq!(
        WebError::ICALParseError(ical::parser::ParserError::NotComplete).message(),
        "ICAL parsing error: incomplete object"
    );
    assert_eq!(
        WebError::Conversion(ConversionError::MissingRequiredProperty("UID".to_string()))
            .message(),
        "conversion error: missing required property: UID"
    );
    assert_eq!(
        WebError::Conversion(ConversionError::MissingPropertyValue("X".to_string())).message(),
        "conversion error: missing value of property: X"
    );
}

#[test]
fn unknown_converter_is_answered_with_its_message() {
    let error = WebError::ConverterNotFound("x".to_string());
    assert_eq!(error.status_code(), 404);
    assert_eq!(error.response_body(), Some("converter 'x' not found".to_string()));
}

#[test]
fn server_failures_are_answered_without_a_text() {
    assert_eq!(WebError::CalendarNotFound.status_code(), 500);
    assert_eq!(WebError::CalendarNotFound.response_body(), None);
    let error = WebError::ICALParseError(ical::parser::ParserError::MissingHeader);
    assert_eq!(error.status_code(), 500);
    assert_eq!(error.response_body(), None);
    let error = WebError::Conversion(ConversionError::MissingRequiredProperty("UID".to_string()));
    assert_eq!(error.status_code(), 500);
    assert_eq!(error.response_body(), None);
}

#[test]
fn errors_have_a_kind() {
    assert_eq!(WebError::ConverterNotFound("x".to_string()).kind(), ErrorKind::ConverterNotFound);
    assert_eq!(WebError::CalendarNotFound.kind(), ErrorKind::CalendarNotFound);
    assert_eq!(
        WebError::ICALParseError(ical::parser::ParserError::MissingHeader).kind(),
        ErrorKind::Parse
    );
    assert_eq!(
        WebError::Conversion(ConversionError::MissingRequiredProperty("UID".to_string())).kind(),
        ErrorKind::Conversion
    );
}
