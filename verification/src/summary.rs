//! The rewriting of an event's summary into a subject and a description.
//!
//! A summary of the form `code - groups - teachers` names the groups and the
//! teachers of a lesson. It is replaced by the subject of the first group,
//! and the groups and teachers move to the description.

use crate::property::{has_name, value_of, with_entry, Entry, PropertyMap};
use crate::subject::{resolve_groups, subject_of, SubjectDictionary};
use crate::text::{
    contains_char, from_chars, remove_char, split, split_on, to_chars, trim, trimmed,
    without_char,
};
use vstd::prelude::*;
use vstd::string::StringExecFns;

verus! {

/// A summary without surrounding white space and without backslashes.
pub open spec fn cleaned(raw: Seq<char>) -> Seq<char> {
    without_char(trimmed(raw), '\\')
}

/// The description that names the teachers and the groups of a lesson. Each
/// label is in the singular where the list it stands before has one item.
pub open spec fn description_of(groups: Seq<char>, teachers: Seq<char>) -> Seq<char> {
    let teacher_label = if split_on(teachers, ',').len() == 1 {
        "Docent: "@
    } else {
        "Docenten: "@
    };
    let group_label = if split_on(groups, ',').len() == 1 {
        "Clustergroep: "@
    } else {
        "Clustergroepen: "@
    };
    teacher_label + teachers + "; "@ + group_label + groups
}

/// The subject that a list of groups is given: that of its first group, and
/// a fixed text where there is none.
pub open spec fn subject_or_unknown(groups: Seq<char>, dict: Seq<Entry>) -> Seq<char> {
    match subject_of(split_on(groups, ','), dict) {
        Some(subject) => subject,
        None => "Onbekend vak"@,
    }
}

/// What a summary is rewritten to: nothing where it holds no hyphen; the
/// cleaned summary alone where the hyphens do not cut it in three; else the
/// subject and the description.
pub open spec fn rewrite_of(raw: Seq<char>, dict: Seq<Entry>) -> Option<
    (Seq<char>, Option<Seq<char>>),
> {
    let text = cleaned(raw);
    let parts = split_on(text, '-');
    if !text.contains('-') {
        None
    } else if parts.len() != 3 {
        Some((text, None))
    } else {
        let groups = trimmed(parts[1]);
        let teachers = trimmed(parts[2]);
        Some((subject_or_unknown(groups, dict), Some(description_of(groups, teachers))))
    }
}

/// `entries` after the summary, if there is one, has been rewritten.
pub open spec fn with_summary(entries: Seq<Entry>, dict: Seq<Entry>) -> Seq<Entry> {
    if !has_name(entries, "SUMMARY"@) {
        entries
    } else {
        match rewrite_of(value_of(entries, "SUMMARY"@), dict) {
            None => entries,
            Some((summary, None)) => with_entry(entries, "SUMMARY"@, summary),
            Some((summary, Some(description))) => with_entry(
                with_entry(entries, "SUMMARY"@, summary),
                "DESCRIPTION"@,
                description,
            ),
        }
    }
}

/// Builds the description for a list of groups and a list of teachers.
pub fn describe(groups: &[char], teachers: &[char]) -> (description: String)
    ensures
        description@ == description_of(groups@, teachers@),
{
    let teacher_count = split(teachers, ',').len();
    let group_count = split(groups, ',').len();
    let mut description = if teacher_count == 1 {
        String::from_str("Docent: ")
    } else {
        String::from_str("Docenten: ")
    };
    description.append(from_chars(teachers).as_str());
    description.append("; ");
    if group_count == 1 {
        description.append("Clustergroep: ");
    } else {
        description.append("Clustergroepen: ");
    }
    description.append(from_chars(groups).as_str());
    description
}

/// Rewrites one summary. `None` says that the summary stays as it is; the
/// second part of a pair is the description, where one is made.
pub fn rewrite_summary(raw: &str, subject_names: &SubjectDictionary) -> (rewrite: Option<
    (String, Option<String>),
>)
    ensures
        rewrite.deep_view() == rewrite_of(raw@, subject_names@),
{
    let chars = to_chars(raw);
    let stripped = trim(chars.as_slice());
    let text = remove_char(stripped.as_slice(), '\\');
    if !contains_char(text.as_slice(), '-') {
        return None;
    }
    let parts = split(text.as_slice(), '-');
    if parts.len() != 3 {
        return Some((from_chars(text.as_slice()), None));
    }
    assert(parts.deep_view()[1] =~= parts[1]@);
    assert(parts.deep_view()[2] =~= parts[2]@);
    let groups = trim(parts[1].as_slice());
    let teachers = trim(parts[2].as_slice());
    let description = describe(groups.as_slice(), teachers.as_slice());
    let codes = split(groups.as_slice(), ',');
    let subject = match resolve_groups(&codes, subject_names) {
        Some(subject) => subject,
        None => String::from_str("Onbekend vak"),
    };
    Some((subject, Some(description)))
}

/// Rewrites the summary of an event, if it has one, and sets the description
/// where the summary names groups and teachers.
pub fn transform_summary(properties: &mut PropertyMap, subject_names: &SubjectDictionary)
    ensures
        final(properties).entries() == with_summary(old(properties).entries(), subject_names@),
{
    let rewrite = match properties.get("SUMMARY") {
        Some(summary) => rewrite_summary(summary.as_str(), subject_names),
        None => None,
    };
    match rewrite {
        None => {},
        Some((summary, None)) => {
            properties.insert(String::from_str("SUMMARY"), summary);
        },
        Some((summary, Some(description))) => {
            properties.insert(String::from_str("SUMMARY"), summary);
            properties.insert(String::from_str("DESCRIPTION"), description);
        },
    }
}

} // verus!
