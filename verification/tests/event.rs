use calconv::convert::{convert_event, passed_on, OutputEvent, RawEvent};
use calconv::error::ConversionError;
use calconv::property::{PropertyMap, RawProperty};
use calconv::subject::SubjectDictionary;

fn property(name: &str, value: Option<&str>) -> RawProperty {
    RawProperty { name: name.to_string(), value: value.map(|v| v.to_string()) }
}

fn event(properties: &[(&str, Option<&str>)]) -> RawEvent {
    RawEvent { properties: properties.iter().map(|(n, v)| property(n, *v)).collect() }
}

fn dictionary(pairs: &[(&str, &str)]) -> SubjectDictionary {
    let mut dictionary = SubjectDictionary::new();
    for (key, subject) in pairs {
        dictionary.insert(key.to_string(), subject.to_string());
    }
    dictionary
}

fn pair(name: &str, value: &str) -> (String, String) {
    (name.to_string(), value.to_string())
}

fn derived(uid: &str) -> String {
    uuid::Uuid::new_v5(&uuid::Uuid::NAMESPACE_OID, uid.as_bytes()).hyphenated().to_string()
}

#[test]
fn event_is_converted() {
    let dict = dictionary(&[("WIS", "Wiskunde")]);
    let source = event(&[
        ("DTSTART", Some("20220901T083000Z")),
        ("UID", Some("lesson-1")),
        ("SUMMARY", Some("WISK - WIS3A2, WIS3B1 - jdoe")),
        ("DTSTAMP", Some("20220831T120000Z")),
        ("LOCATION", Some("a1234, b2")),
        ("DTEND", Some("20220901T092000Z")),
    ]);
    let output = convert_event(source, &dict).unwrap();
    assert_eq!(
        output,
        OutputEvent {
            uid: derived("lesson-1"),
            dtstamp: "20220831T120000Z".to_string(),
            properties: vec![
                pair("DTSTART", "20220901T083000Z"),
                pair("SUMMARY", "Wiskunde"),
                pair("LOCATION", "1234, B2"),
                pair("DTEND", "20220901T092000Z"),
                pair("DESCRIPTION", "Docent: jdoe; Clustergroepen: WIS3A2, WIS3B1"),
            ],
        }
    );
}

#[test]
fn event_identifier_is_a_version_5_uuid() {
    let output = convert_event(
        event(&[("UID", Some("lesson-1")), ("DTSTAMP", Some("x"))]),
        &dictionary(&[]),
    )
    .unwrap();
    assert_ne!(output.uid, "lesson-1");
    assert_eq!(output.uid.len(), 36);
    assert_eq!(output.uid, derived("lesson-1"));
    let parsed = uuid::Uuid::parse_str(&output.uid).unwrap();
    assert_eq!(parsed.get_version_num(), 5);
    assert_eq!(output.uid, output.uid.to_lowercase());
}

#[test]
fn event_identifier_depends_on_the_uid_alone() {
    let first = convert_event(
        event(&[("UID", Some("same")), ("DTSTAMP", Some("1")), ("SUMMARY", Some("a"))]),
        &dictionary(&[]),
    )
    .unwrap();
    let second = convert_event(
        event(&[("LOCATION", Some("b")), ("DTSTAMP", Some("2")), ("UID", Some("same"))]),
        &dictionary(&[("a", "b")]),
    )
    .unwrap();
    let third = convert_event(
        event(&[("UID", Some("other")), ("DTSTAMP", Some("1")), ("SUMMARY", Some("a"))]),
        &dictionary(&[]),
    )
    .unwrap();
    assert_eq!(first.uid, second.uid);
    assert_ne!(first.uid, third.uid);
}

#[test]
fn event_without_time_stamp_fails() {
    let result = convert_event(
        event(&[("UID", Some("u")), ("SUMMARY", Some("s"))]),
        &dictionary(&[]),
    );
    assert_eq!(result, Err(ConversionError::MissingRequiredProperty("DTSTAMP".to_string())));
}

#[test]
fn event_without_uid_fails() {
    let result = convert_event(
        event(&[("DTSTAMP", Some("d")), ("SUMMARY", Some("s"))]),
        &dictionary(&[]),
    );
    assert_eq!(result, Err(ConversionError::MissingRequiredProperty("UID".to_string())));
}

#[test]
fn event_without_both_names_the_time_stamp() {
    let result = convert_event(event(&[("SUMMARY", Some("s"))]), &dictionary(&[]));
    assert_eq!(result, Err(ConversionError::MissingRequiredProperty("DTSTAMP".to_string())));
    let result = convert_event(event(&[]), &dictionary(&[]));
    assert_eq!(result, Err(ConversionError::MissingRequiredProperty("DTSTAMP".to_string())));
}

#[test]
fn event_with_a_missing_value_fails_first() {
    let result = convert_event(
        event(&[("SUMMARY", None), ("LOCATION", None)]),
        &dictionary(&[]),
    );
    assert_eq!(result, Err(ConversionError::MissingPropertyValue("SUMMARY".to_string())));
    let result = convert_event(
        event(&[("UID", Some("u")), ("DTSTAMP", None)]),
        &dictionary(&[]),
    );
    assert_eq!(result, Err(ConversionError::MissingPropertyValue("DTSTAMP".to_string())));
}

#[test]
fn event_takes_the_last_uid_and_time_stamp() {
    let output = convert_event(
        event(&[
            ("UID", Some("first")),
            ("DTSTAMP", Some("1")),
            ("UID", Some("second")),
            ("DTSTAMP", Some("2")),
        ]),
        &dictionary(&[]),
    )
    .unwrap();
    assert_eq!(output.uid, derived("second"));
    assert_eq!(output.dtstamp, "2");
    assert_eq!(output.properties, vec![]);
}

#[test]
fn entries_are_passed_on_without_uid_and_time_stamp() {
    let mut map = PropertyMap::new();
    map.insert("A".to_string(), "1".to_string());
    map.insert("UID".to_string(), "u".to_string());
    map.insert("B".to_string(), "2".to_string());
    map.insert("DTSTAMP".to_string(), "d".to_string());
    map.insert("uid".to_string(), "lower".to_string());
    assert_eq!(passed_on(&map), vec![pair("A", "1"), pair("B", "2"), pair("uid", "lower")]);
    assert_eq!(
        map.to_pairs(),
        vec![
            pair("A", "1"),
            pair("UID", "u"),
            pair("B", "2"),
            pair("DTSTAMP", "d"),
            pair("uid", "lower"),
        ]
    );
}
