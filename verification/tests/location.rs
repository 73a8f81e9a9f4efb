use calconv::location::{normalize_location, normalize_rooms, strip_room};
use calconv::property::PropertyMap;
use calconv::text::join;

fn normalized(raw: &str) -> String {
    let mut map = PropertyMap::new();
    map.insert("LOCATION".to_string(), raw.to_string());
    normalize_location(&mut map);
    map.get("LOCATION").unwrap().clone()
}

fn chars(s: &str) -> Vec<char> {
    s.chars().collect()
}

#[test]
fn location_of_short_rooms_is_unchanged() {
    assert_eq!(normalized("A101, B2"), "A101, B2");
}

#[test]
fn location_room_of_five_loses_its_first_character() {
    assert_eq!(normalized("A1234"), "1234");
    assert_eq!(normalized("12345"), "2345");
    assert_eq!(normalized("  x1234  "), "1234");
}

#[test]
fn location_rooms_of_other_lengths_are_only_put_in_upper_case() {
    assert_eq!(normalized("a101"), "A101");
    assert_eq!(normalized("ab1234"), "AB1234");
    assert_eq!(normalized("gym"), "GYM");
    assert_eq!(normalized(""), "");
}

#[test]
fn location_rooms_are_joined_with_comma_and_space() {
    assert_eq!(normalized("a1234,b2,  c3  "), "1234, B2, C3");
    assert_eq!(normalized(" b1234 ,c1"), "1234, C1");
    assert_eq!(normalized(","), ", ");
    assert_eq!(normalized("a,,b"), "A, , B");
}

#[test]
fn location_keeps_backslashes() {
    assert_eq!(normalized("a123\\, b2"), "123\\, B2");
    assert_eq!(normalized("a12\\, b2"), "A12\\, B2");
}

#[test]
fn location_upper_case_follows_unicode() {
    assert_eq!(normalized("stra\u{df}e"), "STRASSE");
    assert_eq!(normalized("\u{e9}coles"), "\u{c9}COLES");
    assert_eq!(normalized("\u{e9}1234"), "1234");
}

#[test]
fn location_counts_characters() {
    assert_eq!(normalized("\u{e9}\u{e9}\u{e9}\u{e9}"), "\u{c9}\u{c9}\u{c9}\u{c9}");
    assert_eq!(normalized("\u{e9}abcd"), "ABCD");
}

#[test]
fn location_absent_changes_nothing() {
    let mut map = PropertyMap::new();
    map.insert("SUMMARY".to_string(), "a1234".to_string());
    normalize_location(&mut map);
    assert_eq!(map.len(), 1);
    assert_eq!(map.get("SUMMARY"), Some(&"a1234".to_string()));
    assert_eq!(map.get("LOCATION"), None);
}

#[test]
fn rooms_are_normalised_one_by_one() {
    assert_eq!(normalize_rooms("a1234, b2"), vec!["1234".to_string(), "B2".to_string()]);
    assert_eq!(normalize_rooms(""), vec!["".to_string()]);
    assert_eq!(join(&normalize_rooms("x, y"), ", "), "X, Y");
    assert_eq!(strip_room(&chars(" a1234 ")), chars("1234"));
    assert_eq!(strip_room(&chars(" a123 ")), chars("a123"));
}
