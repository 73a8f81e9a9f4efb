//! What holds of the conversion as a whole, stated over its models and
//! proved.

use crate::convert::{
    calendar_conversion, event_conversion, events_conversion, CalendarModel, EventModel,
};
use crate::error::ConversionFailure;
use crate::identifier::derived_identifier;
use crate::location::{normalized_location, with_location};
use crate::property::{
    as_map, distinct_names, extraction, has_name, lemma_as_map_of_distinct,
    lemma_as_map_with_entry, lemma_extraction_failure_stays, lemma_with_entry_distinct, value_of,
    with_entry, Entry, RawList,
};
use crate::subject::collected;
use crate::summary::{cleaned, description_of, subject_or_unknown, with_summary};
use crate::text::{split_on, trimmed};
use vstd::prelude::*;

verus! {

/// Whether every property of `list` has a value.
pub open spec fn all_valued(list: RawList) -> bool {
    forall|i: int| 0 <= i < list.len() ==> (#[trigger] list[i]).1 is Some
}

/// The mapping that a list of properties with values stands for when it is
/// read from front to back and a later value replaces an earlier one of the
/// same name.
pub open spec fn last_wins(list: RawList) -> Map<Seq<char>, Seq<char>>
    decreases list.len(),
{
    if list.len() == 0 {
        Map::empty()
    } else {
        last_wins(list.drop_last()).insert(list.last().0, list.last().1->0)
    }
}

/// `list` with the properties at `i` and `i + 1` in each other's place.
pub open spec fn swapped(list: RawList, i: int) -> RawList {
    list.update(i, list[i + 1]).update(i + 1, list[i])
}

/// A list in which every property has a value is collected without
/// failure, into entries with distinct names that stand for the mapping in
/// which the last value of each name wins.
pub proof fn lemma_extraction_of_valued(list: RawList)
    requires
        all_valued(list),
    ensures
        extraction(list) matches Ok(entries) && distinct_names(entries) && as_map(entries)
            == last_wins(list),
    decreases list.len(),
{
    if list.len() > 0 {
        let front = list.drop_last();
        assert(all_valued(front)) by {
            assert forall|i: int| 0 <= i < front.len() implies (#[trigger] front[i]).1 is Some by {
                assert(list[i].1 is Some);
            }
        }
        lemma_extraction_of_valued(front);
        let entries = extraction(front)->Ok_0;
        assert(list[list.len() - 1].1 is Some);
        lemma_with_entry_distinct(entries, list.last().0, list.last().1->0);
        lemma_as_map_with_entry(entries, list.last().0, list.last().1->0);
    }
}

/// The mapping in which the last value wins holds exactly the names of the
/// list.
pub proof fn lemma_last_wins_names(list: RawList, name: Seq<char>)
    ensures
        last_wins(list).contains_key(name) <==> exists|i: int|
            0 <= i < list.len() && (#[trigger] list[i]).0 == name,
    decreases list.len(),
{
    if list.len() > 0 {
        let front = list.drop_last();
        let last = list.last();
        lemma_last_wins_names(front, name);
        assert(last_wins(list) == last_wins(front).insert(last.0, last.1->0));
        if last_wins(list).contains_key(name) {
            if name == last.0 {
                assert(list[list.len() - 1].0 == name);
            } else {
                assert(last_wins(front).contains_key(name));
                let i = choose|i: int| 0 <= i < front.len() && (#[trigger] front[i]).0 == name;
                assert(list[i].0 == name);
            }
        }
        if exists|i: int| 0 <= i < list.len() && (#[trigger] list[i]).0 == name {
            let i = choose|i: int| 0 <= i < list.len() && (#[trigger] list[i]).0 == name;
            if i < front.len() {
                assert(front[i].0 == name);
            } else {
                assert(name == last.0);
            }
        }
    }
}

/// The mapping in which the last value wins gives a name the value of the
/// last property that carries it.
pub proof fn lemma_last_wins_value(list: RawList, i: int)
    requires
        0 <= i < list.len(),
        forall|j: int| i < j < list.len() ==> (#[trigger] list[j]).0 != list[i].0,
    ensures
        last_wins(list).contains_key(list[i].0),
        last_wins(list)[list[i].0] == list[i].1->0,
    decreases list.len(),
{
    let front = list.drop_last();
    let last = list.last();
    assert(last_wins(list) == last_wins(front).insert(last.0, last.1->0));
    if i < list.len() - 1 {
        assert(list[list.len() - 1].0 != list[i].0);
        assert(front[i] == list[i]);
        assert forall|j: int| i < j < front.len() implies (#[trigger] front[j]).0
            != front[i].0 by {
            assert(list[j].0 != list[i].0);
        }
        lemma_last_wins_value(front, i);
    }
}

/// Of two properties with one name the later one counts: in a list in which
/// every property has a value, a name has the value of the last property
/// that carries it.
pub proof fn law_extraction_last_wins(list: RawList, i: int)
    requires
        all_valued(list),
        0 <= i < list.len(),
        forall|j: int| i < j < list.len() ==> (#[trigger] list[j]).0 != list[i].0,
    ensures
        extraction(list) matches Ok(entries) && as_map(entries).contains_key(list[i].0) && as_map(
            entries,
        )[list[i].0] == list[i].1->0,
{
    lemma_extraction_of_valued(list);
    lemma_last_wins_value(list, i);
}

/// Collecting does not depend on the order of two neighbours with different
/// names: with the two in each other's place the names have the same values.
pub proof fn law_extraction_swap(list: RawList, i: int)
    requires
        all_valued(list),
        0 <= i,
        i + 1 < list.len(),
        list[i].0 != list[i + 1].0,
    ensures
        extraction(list) is Ok,
        extraction(swapped(list, i)) is Ok,
        as_map(extraction(swapped(list, i))->Ok_0) == as_map(extraction(list)->Ok_0),
{
    let other = swapped(list, i);
    assert(all_valued(other)) by {
        assert forall|k: int| 0 <= k < other.len() implies (#[trigger] other[k]).1 is Some by {
            assert(list[k].1 is Some);
            assert(list[i].1 is Some);
            assert(list[i + 1].1 is Some);
        }
    }
    lemma_extraction_of_valued(list);
    lemma_extraction_of_valued(other);
    lemma_last_wins_swap(list, i);
}

/// The mapping in which the last value wins does not depend on the order of
/// two neighbours with different names.
pub proof fn lemma_last_wins_swap(list: RawList, i: int)
    requires
        0 <= i,
        i + 1 < list.len(),
        list[i].0 != list[i + 1].0,
    ensures
        last_wins(swapped(list, i)) == last_wins(list),
    decreases list.len(),
{
    let other = swapped(list, i);
    if i + 1 == list.len() - 1 {
        let front = list.drop_last().drop_last();
        assert(other.drop_last().drop_last() == front);
        assert(other.drop_last().last() == list[i + 1]);
        assert(list.drop_last().last() == list[i]);
        assert(other.last() == list[i]);
        assert(list.last() == list[i + 1]);
        assert(last_wins(other.drop_last()) == last_wins(front).insert(
            list[i + 1].0,
            list[i + 1].1->0,
        ));
        assert(last_wins(list.drop_last()) == last_wins(front).insert(list[i].0, list[i].1->0));
        assert(last_wins(other) =~= last_wins(list));
    } else {
        assert(other.drop_last() == swapped(list.drop_last(), i));
        lemma_last_wins_swap(list.drop_last(), i);
    }
}

/// Whether no two properties of `list` share a name.
pub open spec fn each_name_once(list: RawList) -> bool {
    forall|i: int, j: int|
        0 <= i < j < list.len() ==> (#[trigger] list[i]).0 != (#[trigger] list[j]).0
}

/// Of two lists that hold the same properties, each name once, the second
/// gives a name of the first the same value.
pub proof fn lemma_same_value(first: RawList, second: RawList, name: Seq<char>)
    requires
        each_name_once(first),
        each_name_once(second),
        forall|property: (Seq<char>, Option<Seq<char>>)|
            first.contains(property) <==> second.contains(property),
        last_wins(first).contains_key(name),
    ensures
        last_wins(second).contains_key(name),
        last_wins(first)[name] == last_wins(second)[name],
{
    lemma_last_wins_names(first, name);
    let i = choose|i: int| 0 <= i < first.len() && (#[trigger] first[i]).0 == name;
    assert(first.contains(first[i]));
    assert(second.contains(first[i]));
    let j = choose|j: int| 0 <= j < second.len() && second[j] == first[i];
    assert(second[j].0 == name);
    assert forall|k: int| i < k < first.len() implies (#[trigger] first[k]).0 != first[i].0 by {
        assert(first[i].0 != first[k].0);
    }
    assert forall|k: int| j < k < second.len() implies (#[trigger] second[k]).0
        != second[j].0 by {
        assert(second[j].0 != second[k].0);
    }
    lemma_last_wins_value(first, i);
    lemma_last_wins_value(second, j);
}

/// Collecting does not depend on the order of the list: two lists of
/// properties with values that hold the same properties, each name once,
/// give every name the same value.
pub proof fn law_extraction_order(first: RawList, second: RawList)
    requires
        all_valued(first),
        all_valued(second),
        each_name_once(first),
        each_name_once(second),
        forall|property: (Seq<char>, Option<Seq<char>>)|
            first.contains(property) <==> second.contains(property),
    ensures
        extraction(first) is Ok,
        extraction(second) is Ok,
        as_map(extraction(first)->Ok_0) == as_map(extraction(second)->Ok_0),
{
    lemma_extraction_of_valued(first);
    lemma_extraction_of_valued(second);
    let a = last_wins(first);
    let b = last_wins(second);
    assert forall|name: Seq<char>| a.dom().contains(name) == b.dom().contains(name) by {
        if a.contains_key(name) {
            lemma_same_value(first, second, name);
        }
        if b.contains_key(name) {
            lemma_same_value(second, first, name);
        }
    }
    assert forall|name: Seq<char>| a.dom().contains(name) implies a[name] == b[name] by {
        lemma_same_value(first, second, name);
    }
    assert(a =~= b);
}

/// A property without a value makes the collecting fail, and the failure
/// names the first such property.
pub proof fn law_missing_value_fails(list: RawList, i: int)
    requires
        0 <= i < list.len(),
        list[i].1 is None,
        forall|j: int| 0 <= j < i ==> (#[trigger] list[j]).1 is Some,
    ensures
        extraction(list) == Err::<Seq<Entry>, Seq<char>>(list[i].0),
{
    let front = list.take(i);
    assert(all_valued(front)) by {
        assert forall|k: int| 0 <= k < front.len() implies (#[trigger] front[k]).1 is Some by {
            assert(list[k].1 is Some);
        }
    }
    lemma_extraction_of_valued(front);
    assert(list.take(i + 1).drop_last() == front);
    assert(list.take(i + 1).last() == list[i]);
    lemma_extraction_failure_stays(list, i + 1);
}

/// Cutting a text gives at least one piece, and exactly one where the text
/// does not hold the separator: the text itself.
pub proof fn law_split_pieces(s: Seq<char>, sep: char)
    ensures
        split_on(s, sep).len() >= 1,
        !s.contains(sep) ==> split_on(s, sep) == seq![s],
        s.contains(sep) ==> split_on(s, sep).len() >= 2,
    decreases s.len(),
{
    if s.len() > 0 {
        let front = s.drop_last();
        law_split_pieces(front, sep);
        if s.last() == sep {
            assert(s[s.len() - 1] == sep);
        } else {
            if s.contains(sep) {
                let i = choose|i: int| 0 <= i < s.len() && s[i] == sep;
                assert(front[i] == sep);
            } else {
                assert(!front.contains(sep)) by {
                    if front.contains(sep) {
                        let i = choose|i: int| 0 <= i < front.len() && front[i] == sep;
                        assert(s[i] == sep);
                    }
                }
                assert(front.push(s.last()) =~= s);
                assert(split_on(s, sep) =~= seq![s]);
            }
        }
    } else {
        assert(s =~= Seq::empty());
    }
}

/// Collecting fails exactly where some property has no value, and the
/// failure then names a property without a value before which every
/// property has one.
pub proof fn law_extraction_fails_exactly(list: RawList)
    ensures
        extraction(list) is Err <==> !all_valued(list),
        extraction(list) matches Err(name) ==> exists|i: int|
            0 <= i < list.len() && (#[trigger] list[i]).1 is None && list[i].0 == name
                && all_valued(list.take(i)),
    decreases list.len(),
{
    if list.len() > 0 {
        let front = list.drop_last();
        law_extraction_fails_exactly(front);
        if extraction(front) is Err {
            let name = extraction(front)->Err_0;
            let i = choose|i: int|
                0 <= i < front.len() && (#[trigger] front[i]).1 is None && front[i].0 == name
                    && all_valued(front.take(i));
            assert(list[i] == front[i]);
            assert(list.take(i) == front.take(i));
        } else {
            assert(all_valued(front));
            if list.last().1 is None {
                let i = list.len() - 1;
                assert(list[i].1 is None);
                assert(list.take(i) == front);
            } else {
                assert forall|k: int| 0 <= k < list.len() implies (#[trigger] list[k]).1 is Some by {
                    if k < front.len() {
                        assert(front[k].1 is Some);
                    }
                }
            }
        }
    }
}

/// A converted event carries one identifier and one time stamp: neither
/// `UID` nor `DTSTAMP` is among the properties that are passed on.
pub proof fn law_event_has_one_identifier(list: RawList, dict: Seq<Entry>)
    requires
        event_conversion(list, dict) is Ok,
    ensures
        forall|i: int|
            0 <= i < event_conversion(list, dict)->Ok_0.properties.len() ==> ({
                let entry = #[trigger] event_conversion(list, dict)->Ok_0.properties[i];
                entry.0 != "UID"@ && entry.0 != "DTSTAMP"@
            }),
{
    let entries = extraction(list)->Ok_0;
    let all = crate::convert::converted_properties(entries, dict);
    let keep = |entry: Entry| crate::convert::is_passed_on(entry);
    assert(event_conversion(list, dict)->Ok_0.properties == all.filter(keep));
    assert forall|i: int| 0 <= i < all.filter(keep).len() implies keep(
        #[trigger] all.filter(keep)[i],
    ) by {
        all.lemma_filter_pred(keep, i);
    }
}

/// A dictionary collected from a list of pairs holds no key twice, and no
/// more pairs than the list.
pub proof fn lemma_collected_distinct(pairs: Seq<Entry>)
    ensures
        distinct_names(collected(pairs)),
        collected(pairs).len() <= pairs.len(),
    decreases pairs.len(),
{
    if pairs.len() > 0 {
        lemma_collected_distinct(pairs.drop_last());
        lemma_with_entry_distinct(collected(pairs.drop_last()), pairs.last().0, pairs.last().1);
    }
}

/// Of two pairs with one key the later one gives the subject: a dictionary
/// collected from a list of pairs holds each key of the list, with the
/// subject of the last pair that carries the key.
pub proof fn law_dictionary_later_wins(pairs: Seq<Entry>, i: int)
    requires
        0 <= i < pairs.len(),
        forall|j: int| i < j < pairs.len() ==> (#[trigger] pairs[j]).0 != pairs[i].0,
    ensures
        has_name(collected(pairs), pairs[i].0),
        value_of(collected(pairs), pairs[i].0) == pairs[i].1,
    decreases pairs.len(),
{
    let front = pairs.drop_last();
    let before = collected(front);
    let last = pairs.last();
    let after = collected(pairs);
    lemma_collected_distinct(front);
    lemma_collected_distinct(pairs);
    lemma_with_entry_distinct(before, last.0, last.1);
    lemma_as_map_with_entry(before, last.0, last.1);
    lemma_as_map_of_distinct(before);
    lemma_as_map_of_distinct(after);
    if i < pairs.len() - 1 {
        assert(pairs[pairs.len() - 1].0 != pairs[i].0);
        assert(front[i] == pairs[i]);
        assert forall|j: int| i < j < front.len() implies (#[trigger] front[j]).0
            != front[i].0 by {
            assert(pairs[j].0 != pairs[i].0);
        }
        law_dictionary_later_wins(front, i);
        assert(has_name(after, pairs[i].0));
        assert(as_map(after)[pairs[i].0] == as_map(before)[pairs[i].0]);
    } else {
        assert(has_name(after, last.0));
        assert(as_map(after)[last.0] == last.1);
    }
}

/// The identifier of a converted event depends on the identifier of the
/// source event alone: two events with the same `UID`, whatever else they
/// hold and whatever the dictionary, are given the same identifier.
pub proof fn law_identifier_from_uid_alone(
    first: RawList,
    first_dict: Seq<Entry>,
    second: RawList,
    second_dict: Seq<Entry>,
)
    requires
        event_conversion(first, first_dict) is Ok,
        event_conversion(second, second_dict) is Ok,
        value_of(extraction(first)->Ok_0, "UID"@) == value_of(extraction(second)->Ok_0, "UID"@),
    ensures
        event_conversion(first, first_dict)->Ok_0.uid == event_conversion(
            second,
            second_dict,
        )->Ok_0.uid,
        event_conversion(first, first_dict)->Ok_0.uid == derived_identifier(
            value_of(extraction(first)->Ok_0, "UID"@),
        ),
{
}

/// A converted event carries the time stamp of the source event.
pub proof fn law_time_stamp_kept(list: RawList, dict: Seq<Entry>)
    requires
        event_conversion(list, dict) is Ok,
    ensures
        extraction(list) matches Ok(entries) && has_name(entries, "DTSTAMP"@) && has_name(
            entries,
            "UID"@,
        ) && event_conversion(list, dict)->Ok_0.dtstamp == value_of(entries, "DTSTAMP"@),
{
}

/// Where every event of a front part of a list can be converted, so can the
/// front part.
pub proof fn lemma_events_convert(events: Seq<RawList>, dict: Seq<Entry>, k: int)
    requires
        0 <= k <= events.len(),
        forall|j: int| 0 <= j < k ==> event_conversion(#[trigger] events[j], dict) is Ok,
    ensures
        events_conversion(events.take(k), dict) is Ok,
    decreases k,
{
    if k > 0 {
        lemma_events_convert(events, dict, k - 1);
        assert(events.take(k).drop_last() == events.take(k - 1));
        assert(events.take(k).last() == events[k - 1]);
    }
}

/// The first event that cannot be converted makes the conversion of the
/// calendar fail, with the failure of that event.
pub proof fn law_first_failure(properties: RawList, events: Seq<RawList>, dict: Seq<Entry>, i: int)
    requires
        extraction(properties) is Ok,
        0 <= i < events.len(),
        forall|j: int| 0 <= j < i ==> event_conversion(#[trigger] events[j], dict) is Ok,
        event_conversion(events[i], dict) is Err,
    ensures
        calendar_conversion(properties, events, dict) == Err::<CalendarModel, ConversionFailure>(
            event_conversion(events[i], dict)->Err_0,
        ),
{
    lemma_events_convert(events, dict, i);
    assert(events.take(i + 1).drop_last() == events.take(i));
    assert(events.take(i + 1).last() == events[i]);
    crate::convert::lemma_events_failure_stays(events, dict, i + 1);
}

/// An event without a time stamp makes the conversion of its calendar fail:
/// the failure names `DTSTAMP`, and no calendar is given.
pub proof fn law_missing_time_stamp_fails(
    properties: RawList,
    events: Seq<RawList>,
    dict: Seq<Entry>,
    i: int,
)
    requires
        extraction(properties) is Ok,
        0 <= i < events.len(),
        forall|j: int| 0 <= j < i ==> event_conversion(#[trigger] events[j], dict) is Ok,
        extraction(events[i]) matches Ok(entries) && !has_name(entries, "DTSTAMP"@),
    ensures
        calendar_conversion(properties, events, dict) == Err::<CalendarModel, ConversionFailure>(
            ConversionFailure::MissingRequiredProperty("DTSTAMP"@),
        ),
{
    law_first_failure(properties, events, dict, i);
}

/// A list of events that can be converted gives as many events, and the
/// event at each place is the conversion of the event at that place.
pub proof fn law_events_keep_order(events: Seq<RawList>, dict: Seq<Entry>)
    requires
        events_conversion(events, dict) is Ok,
    ensures
        events_conversion(events, dict)->Ok_0.len() == events.len(),
        forall|i: int|
            0 <= i < events.len() ==> event_conversion(#[trigger] events[i], dict) == Ok::<
                EventModel,
                ConversionFailure,
            >(events_conversion(events, dict)->Ok_0[i]),
    decreases events.len(),
{
    if events.len() > 0 {
        let front = events.drop_last();
        law_events_keep_order(front, dict);
        let converted = events_conversion(events, dict)->Ok_0;
        assert forall|i: int| 0 <= i < events.len() implies event_conversion(
            #[trigger] events[i],
            dict,
        ) == Ok::<EventModel, ConversionFailure>(converted[i]) by {
            if i < front.len() {
                assert(front[i] == events[i]);
            }
        }
    }
}

/// A calendar that can be converted keeps the number and the order of its
/// events.
pub proof fn law_calendar_keeps_order(properties: RawList, events: Seq<RawList>, dict: Seq<Entry>)
    requires
        calendar_conversion(properties, events, dict) is Ok,
    ensures
        calendar_conversion(properties, events, dict)->Ok_0.events.len() == events.len(),
        forall|i: int|
            0 <= i < events.len() ==> event_conversion(#[trigger] events[i], dict) == Ok::<
                EventModel,
                ConversionFailure,
            >(calendar_conversion(properties, events, dict)->Ok_0.events[i]),
{
    law_events_keep_order(events, dict);
}

/// A summary without a hyphen stays as it is, and so does everything else:
/// no description is set.
pub proof fn law_summary_without_hyphen(entries: Seq<Entry>, dict: Seq<Entry>)
    requires
        has_name(entries, "SUMMARY"@),
        !cleaned(value_of(entries, "SUMMARY"@)).contains('-'),
    ensures
        with_summary(entries, dict) == entries,
{
}

/// A summary that its hyphens do not cut in three is replaced by its cleaned
/// form. Nothing else changes: no description is set.
pub proof fn law_summary_not_in_three(entries: Seq<Entry>, dict: Seq<Entry>)
    requires
        distinct_names(entries),
        has_name(entries, "SUMMARY"@),
        cleaned(value_of(entries, "SUMMARY"@)).contains('-'),
        split_on(cleaned(value_of(entries, "SUMMARY"@)), '-').len() != 3,
    ensures
        as_map(with_summary(entries, dict)) == as_map(entries).insert(
            "SUMMARY"@,
            cleaned(value_of(entries, "SUMMARY"@)),
        ),
        as_map(with_summary(entries, dict)).contains_key("DESCRIPTION"@) == as_map(
            entries,
        ).contains_key("DESCRIPTION"@),
{
    reveal_strlit("SUMMARY");
    reveal_strlit("DESCRIPTION");
    assert("SUMMARY"@.len() != "DESCRIPTION"@.len());
    lemma_as_map_with_entry(entries, "SUMMARY"@, cleaned(value_of(entries, "SUMMARY"@)));
}

/// A summary that its hyphens cut in three is replaced by the subject of
/// its groups, and the description names its teachers and its groups.
pub proof fn law_summary_in_three(entries: Seq<Entry>, dict: Seq<Entry>)
    requires
        distinct_names(entries),
        has_name(entries, "SUMMARY"@),
        split_on(cleaned(value_of(entries, "SUMMARY"@)), '-').len() == 3,
    ensures
        ({
            let parts = split_on(cleaned(value_of(entries, "SUMMARY"@)), '-');
            let groups = trimmed(parts[1]);
            let teachers = trimmed(parts[2]);
            as_map(with_summary(entries, dict)) == as_map(entries).insert(
                "SUMMARY"@,
                subject_or_unknown(groups, dict),
            ).insert("DESCRIPTION"@, description_of(groups, teachers))
        }),
{
    law_split_pieces(cleaned(value_of(entries, "SUMMARY"@)), '-');
    let parts = split_on(cleaned(value_of(entries, "SUMMARY"@)), '-');
    let groups = trimmed(parts[1]);
    let teachers = trimmed(parts[2]);
    let subject = subject_or_unknown(groups, dict);
    lemma_as_map_with_entry(entries, "SUMMARY"@, subject);
    lemma_with_entry_distinct(entries, "SUMMARY"@, subject);
    lemma_as_map_with_entry(
        with_entry(entries, "SUMMARY"@, subject),
        "DESCRIPTION"@,
        description_of(groups, teachers),
    );
}

/// A location is replaced by its normalised form; without a location
/// nothing changes.
pub proof fn law_location(entries: Seq<Entry>)
    requires
        distinct_names(entries),
    ensures
        has_name(entries, "LOCATION"@) ==> as_map(with_location(entries)) == as_map(
            entries,
        ).insert("LOCATION"@, normalized_location(value_of(entries, "LOCATION"@))),
        !has_name(entries, "LOCATION"@) ==> with_location(entries) == entries,
{
    if has_name(entries, "LOCATION"@) {
        lemma_as_map_with_entry(
            entries,
            "LOCATION"@,
            normalized_location(value_of(entries, "LOCATION"@)),
        );
    }
}

} // verus!
