use calconv::convert::convert_somtoday_properties;
use calconv::property::PropertyMap;
use calconv::subject::SubjectDictionary;
use calconv::summary::{describe, rewrite_summary, transform_summary};

fn dictionary(pairs: &[(&str, &str)]) -> SubjectDictionary {
    let mut dictionary = SubjectDictionary::new();
    for (key, subject) in pairs {
        dictionary.insert(key.to_string(), subject.to_string());
    }
    dictionary
}

fn map(entries: &[(&str, &str)]) -> PropertyMap {
    let mut map = PropertyMap::new();
    for (name, value) in entries {
        map.insert(name.to_string(), value.to_string());
    }
    map
}

fn value<'a>(map: &'a PropertyMap, name: &str) -> Option<&'a str> {
    map.get(name).map(|v| v.as_str())
}

fn chars(s: &str) -> Vec<char> {
    s.chars().collect()
}

#[test]
fn summary_with_groups_and_teacher_is_resolved() {
    let dict = dictionary(&[("WIS", "Wiskunde")]);
    let mut properties = map(&[("SUMMARY", "WISK - WIS3A2, WIS3B1 - jdoe")]);
    transform_summary(&mut properties, &dict);
    assert_eq!(value(&properties, "SUMMARY"), Some("Wiskunde"));
    assert_eq!(
        value(&properties, "DESCRIPTION"),
        Some("Docent: jdoe; Clustergroepen: WIS3A2, WIS3B1")
    );
}

#[test]
fn summary_without_dictionary_entry_is_the_group_name() {
    let dict = dictionary(&[("NED", "Nederlands")]);
    let mut properties = map(&[("SUMMARY", "WISK - WIS3A2, WIS3B1 - jdoe")]);
    transform_summary(&mut properties, &dict);
    assert_eq!(value(&properties, "SUMMARY"), Some("WIS3A"));
    assert_eq!(
        value(&properties, "DESCRIPTION"),
        Some("Docent: jdoe; Clustergroepen: WIS3A2, WIS3B1")
    );
}

#[test]
fn summary_without_hyphen_is_left_alone() {
    let dict = dictionary(&[("Study", "never")]);
    let mut properties = map(&[("SUMMARY", "Study Hall")]);
    transform_summary(&mut properties, &dict);
    assert_eq!(value(&properties, "SUMMARY"), Some("Study Hall"));
    assert_eq!(value(&properties, "DESCRIPTION"), None);
    assert_eq!(properties.len(), 1);
    assert_eq!(rewrite_summary("Study Hall", &dict), None);
    assert_eq!(rewrite_summary("", &dict), None);
}

#[test]
fn summary_without_hyphen_keeps_a_description() {
    let dict = dictionary(&[]);
    let mut properties = map(&[("DESCRIPTION", "kept"), ("SUMMARY", "  Study\\ Hall ")]);
    transform_summary(&mut properties, &dict);
    assert_eq!(value(&properties, "SUMMARY"), Some("  Study\\ Hall "));
    assert_eq!(value(&properties, "DESCRIPTION"), Some("kept"));
}

#[test]
fn summary_in_two_parts_is_cleaned_only() {
    let dict = dictionary(&[("b", "never")]);
    let mut properties = map(&[("SUMMARY", "  a \\- b  ")]);
    transform_summary(&mut properties, &dict);
    assert_eq!(value(&properties, "SUMMARY"), Some("a - b"));
    assert_eq!(value(&properties, "DESCRIPTION"), None);
}

#[test]
fn summary_in_four_parts_is_cleaned_only() {
    let dict = dictionary(&[("b", "never")]);
    let mut properties = map(&[("SUMMARY", " a - b - c - d "), ("DESCRIPTION", "old")]);
    transform_summary(&mut properties, &dict);
    assert_eq!(value(&properties, "SUMMARY"), Some("a - b - c - d"));
    assert_eq!(value(&properties, "DESCRIPTION"), Some("old"));
    assert_eq!(
        rewrite_summary(" a - b - c - d ", &dict),
        Some(("a - b - c - d".to_string(), None))
    );
    assert_eq!(rewrite_summary("-", &dict), Some(("-".to_string(), None)));
}

#[test]
fn summary_is_cleaned_before_it_is_cut() {
    let dict = dictionary(&[("ENG", "Engels")]);
    assert_eq!(
        rewrite_summary(" \\en \\- ENG1 \\- ab\\, cd ", &dict),
        Some(("Engels".to_string(), Some("Docenten: ab, cd; Clustergroep: ENG1".to_string())))
    );
}

#[test]
fn summary_overwrites_an_earlier_description() {
    let dict = dictionary(&[]);
    let mut properties = map(&[("DESCRIPTION", "old"), ("SUMMARY", "x - G1 - t")]);
    transform_summary(&mut properties, &dict);
    assert_eq!(value(&properties, "SUMMARY"), Some("G"));
    assert_eq!(value(&properties, "DESCRIPTION"), Some("Docent: t; Clustergroep: G1"));
    assert_eq!(properties.len(), 2);
    assert_eq!(properties.name_at(0), "DESCRIPTION");
}

#[test]
fn summary_absent_changes_nothing() {
    let dict = dictionary(&[]);
    let mut properties = map(&[("LOCATION", "a - b - c")]);
    transform_summary(&mut properties, &dict);
    assert_eq!(properties.len(), 1);
    assert_eq!(value(&properties, "LOCATION"), Some("a - b - c"));
}

#[test]
fn summary_with_empty_parts() {
    let dict = dictionary(&[]);
    assert_eq!(
        rewrite_summary("--", &dict),
        Some(("".to_string(), Some("Docent: ; Clustergroep: ".to_string())))
    );
}

#[test]
fn description_counts_teachers_and_groups() {
    assert_eq!(describe(&chars("G1"), &chars("t")), "Docent: t; Clustergroep: G1");
    assert_eq!(describe(&chars("G1, G2"), &chars("t")), "Docent: t; Clustergroepen: G1, G2");
    assert_eq!(describe(&chars("G1"), &chars("t, u")), "Docenten: t, u; Clustergroep: G1");
    assert_eq!(
        describe(&chars("G1,G2,G3"), &chars("t,u")),
        "Docenten: t,u; Clustergroepen: G1,G2,G3"
    );
    assert_eq!(describe(&chars(""), &chars("")), "Docent: ; Clustergroep: ");
}

#[test]
fn properties_are_converted_without_failure() {
    let dict = dictionary(&[("WIS", "Wiskunde")]);
    let mut properties = map(&[
        ("SUMMARY", "WISK - WIS3A2 - jdoe, asmi"),
        ("LOCATION", "a1234, b2"),
        ("DTSTART", "20220101T080000Z"),
    ]);
    assert_eq!(convert_somtoday_properties(&mut properties, &dict), Ok(()));
    assert_eq!(value(&properties, "SUMMARY"), Some("Wiskunde"));
    assert_eq!(
        value(&properties, "DESCRIPTION"),
        Some("Docenten: jdoe, asmi; Clustergroep: WIS3A2")
    );
    assert_eq!(value(&properties, "LOCATION"), Some("1234, B2"));
    assert_eq!(value(&properties, "DTSTART"), Some("20220101T080000Z"));
    assert_eq!(properties.len(), 4);
}
