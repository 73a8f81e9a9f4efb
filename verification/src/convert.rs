//! The conversion of events and of whole calendars.

use crate::error::{ConversionError, ConversionFailure};
use crate::identifier::{derive_identifier, derived_identifier};
use crate::location::{normalize_location, with_location};
use crate::property::{
    extract_properties, extraction, has_name, value_of, Entry, PropertyMap, RawList, RawProperty,
};
use crate::subject::SubjectDictionary;
use crate::summary::{transform_summary, with_summary};
use vstd::prelude::*;
use vstd::string::StringExecFns;

verus! {

/// An event as read from a calendar document.
#[derive(Debug, Clone, PartialEq, Eq)]
pub struct RawEvent {
    pub properties: Vec<RawProperty>,
}

impl View for RawEvent {
    type V = RawList;

    open spec fn view(&self) -> Self::V {
        self.properties.deep_view()
    }
}

impl DeepView for RawEvent {
    type V = RawList;

    open spec fn deep_view(&self) -> Self::V {
        self@
    }
}

/// A calendar as read from a calendar document: its own properties and its
/// events, in the order of the document.
#[derive(Debug, Clone, PartialEq, Eq)]
pub struct RawCalendar {
    pub properties: Vec<RawProperty>,
    pub events: Vec<RawEvent>,
}

/// A converted event with its texts as sequences of characters.
pub struct EventModel {
    pub uid: Seq<char>,
    pub dtstamp: Seq<char>,
    pub properties: Seq<Entry>,
}

/// A converted event: its identifier, its time stamp and its other
/// properties.
#[derive(Debug, Clone, PartialEq, Eq)]
pub struct OutputEvent {
    pub uid: String,
    pub dtstamp: String,
    pub properties: Vec<(String, String)>,
}

impl View for OutputEvent {
    type V = EventModel;

    open spec fn view(&self) -> Self::V {
        EventModel {
            uid: self.uid@,
            dtstamp: self.dtstamp@,
            properties: self.properties.deep_view(),
        }
    }
}

impl DeepView for OutputEvent {
    type V = EventModel;

    open spec fn deep_view(&self) -> Self::V {
        self@
    }
}

/// A converted calendar with its texts as sequences of characters.
pub struct CalendarModel {
    pub version: Seq<char>,
    pub product: Seq<char>,
    pub properties: Seq<Entry>,
    pub events: Seq<EventModel>,
}

/// A converted calendar: the version and the product it is written under,
/// its own properties and its events.
#[derive(Debug, Clone, PartialEq, Eq)]
pub struct OutputCalendar {
    pub version: String,
    pub product: String,
    pub properties: Vec<(String, String)>,
    pub events: Vec<OutputEvent>,
}

impl View for OutputCalendar {
    type V = CalendarModel;

    open spec fn view(&self) -> Self::V {
        CalendarModel {
            version: self.version@,
            product: self.product@,
            properties: self.properties.deep_view(),
            events: self.events.deep_view(),
        }
    }
}

/// The properties of an event after its summary and its location have been
/// rewritten.
pub open spec fn converted_properties(entries: Seq<Entry>, dict: Seq<Entry>) -> Seq<Entry> {
    with_location(with_summary(entries, dict))
}

/// Whether an entry goes into the converted event as it stands. The
/// identifier and the time stamp do not: the event carries its own.
pub open spec fn is_passed_on(entry: Entry) -> bool {
    entry.0 != "UID"@ && entry.0 != "DTSTAMP"@
}

/// What converting an event gives: the event, or the reason for which it
/// cannot be converted. A property without a value comes before a missing
/// time stamp, and that before a missing identifier.
pub open spec fn event_conversion(list: RawList, dict: Seq<Entry>) -> Result<
    EventModel,
    ConversionFailure,
> {
    match extraction(list) {
        Err(name) => Err(ConversionFailure::MissingPropertyValue(name)),
        Ok(entries) => if !has_name(entries, "DTSTAMP"@) {
            Err(ConversionFailure::MissingRequiredProperty("DTSTAMP"@))
        } else if !has_name(entries, "UID"@) {
            Err(ConversionFailure::MissingRequiredProperty("UID"@))
        } else {
            Ok(
                EventModel {
                    uid: derived_identifier(value_of(entries, "UID"@)),
                    dtstamp: value_of(entries, "DTSTAMP"@),
                    properties: converted_properties(entries, dict).filter(
                        |entry: Entry| is_passed_on(entry),
                    ),
                },
            )
        },
    }
}

/// What converting a list of events gives: the converted events in the order
/// of the list, or the failure of the first event that cannot be converted.
pub open spec fn events_conversion(events: Seq<RawList>, dict: Seq<Entry>) -> Result<
    Seq<EventModel>,
    ConversionFailure,
>
    decreases events.len(),
{
    if events.len() == 0 {
        Ok(Seq::empty())
    } else {
        match events_conversion(events.drop_last(), dict) {
            Err(failure) => Err(failure),
            Ok(converted) => match event_conversion(events.last(), dict) {
                Err(failure) => Err(failure),
                Ok(event) => Ok(converted.push(event)),
            },
        }
    }
}

/// What converting a calendar gives: the calendar with every event
/// converted, or the first failure. The calendar's own properties are
/// collected before any event is looked at.
pub open spec fn calendar_conversion(
    properties: RawList,
    events: Seq<RawList>,
    dict: Seq<Entry>,
) -> Result<CalendarModel, ConversionFailure> {
    match extraction(properties) {
        Err(name) => Err(ConversionFailure::MissingPropertyValue(name)),
        Ok(entries) => match events_conversion(events, dict) {
            Err(failure) => Err(failure),
            Ok(converted) => Ok(
                CalendarModel {
                    version: "2.0"@,
                    product: "-//rijkvp //calconv //NL"@,
                    properties: entries,
                    events: converted,
                },
            ),
        },
    }
}

/// Rewrites the summary and the location of an event. It never fails.
pub fn convert_somtoday_properties(
    properties: &mut PropertyMap,
    subject_names: &SubjectDictionary,
) -> (result: Result<(), ConversionError>)
    ensures
        result is Ok,
        final(properties).entries() == converted_properties(
            old(properties).entries(),
            subject_names@,
        ),
{
    transform_summary(properties, subject_names);
    normalize_location(properties);
    Ok(())
}

/// The entries of `properties` but the identifier and the time stamp, in
/// their order.
pub fn passed_on(properties: &PropertyMap) -> (entries: Vec<(String, String)>)
    ensures
        entries.deep_view() == properties.entries().filter(|entry: Entry| is_passed_on(entry)),
{
    let ghost all = properties.entries();
    let ghost keep = |entry: Entry| is_passed_on(entry);
    let uid = String::from_str("UID");
    let dtstamp = String::from_str("DTSTAMP");
    let mut entries: Vec<(String, String)> = Vec::new();
    let mut i: usize = 0;
    proof {
        reveal(Seq::filter);
        assert(all.take(0) =~= Seq::empty());
        assert(entries.deep_view() =~= all.take(0).filter(keep));
    }
    while i < properties.len()
        invariant
            i <= all.len(),
            all == properties.entries(),
            keep == |entry: Entry| is_passed_on(entry),
            uid@ == "UID"@,
            dtstamp@ == "DTSTAMP"@,
            entries.deep_view() == all.take(i as int).filter(keep),
        decreases all.len() - i,
    {
        let name = properties.name_at(i);
        let ghost before = entries.deep_view();
        proof {
            reveal(Seq::filter);
            assert(all.take(i as int + 1).drop_last() == all.take(i as int));
        }
        if *name != uid && *name != dtstamp {
            entries.push((name.clone(), properties.value_at(i).clone()));
            assert(entries.deep_view() =~= before.push(all[i as int]));
        }
        i += 1;
    }
    assert(all.take(all.len() as int) == all);
    entries
}

/// Converts one event: collects its properties, takes its time stamp and
/// derives its identifier, rewrites summary and location, and passes the
/// other properties on.
pub fn convert_event(event: RawEvent, subject_names: &SubjectDictionary) -> (result: Result<
    OutputEvent,
    ConversionError,
>)
    ensures
        match event_conversion(event@, subject_names@) {
            Ok(converted) => result matches Ok(output) && output@ == converted,
            Err(failure) => result matches Err(error) && error@ == failure,
        },
{
    let mut properties = match extract_properties(event.properties) {
        Ok(properties) => properties,
        Err(error) => {
            return Err(error);
        },
    };
    let dtstamp = match properties.get("DTSTAMP") {
        Some(value) => value.clone(),
        None => {
            return Err(ConversionError::MissingRequiredProperty(String::from_str("DTSTAMP")));
        },
    };
    let uid = match properties.get("UID") {
        Some(value) => derive_identifier(value.as_str()),
        None => {
            return Err(ConversionError::MissingRequiredProperty(String::from_str("UID")));
        },
    };
    let _ = convert_somtoday_properties(&mut properties, subject_names);
    let properties = passed_on(&properties);
    Ok(OutputEvent { uid, dtstamp, properties })
}

/// Converts a calendar: collects its own properties and converts its events
/// in their order. The first failure ends the conversion; nothing of the
/// calendar is given back then.
pub fn convert_calendar(source: RawCalendar, subject_names: &SubjectDictionary) -> (result: Result<
    OutputCalendar,
    ConversionError,
>)
    ensures
        match calendar_conversion(
            source.properties.deep_view(),
            source.events.deep_view(),
            subject_names@,
        ) {
            Ok(converted) => result matches Ok(output) && output@ == converted,
            Err(failure) => result matches Err(error) && error@ == failure,
        },
{
    let ghost list = source.events.deep_view();
    let ghost origin = source.events@;
    let ghost own = source.properties.deep_view();
    let properties = match extract_properties(source.properties) {
        Ok(properties) => properties,
        Err(error) => {
            return Err(error);
        },
    };
    let mut events: Vec<OutputEvent> = Vec::new();
    assert(list.take(0) =~= Seq::empty());
    assert(events.deep_view() =~= Seq::empty());
    for event in it: source.events
        invariant
            it.seq() == origin,
            own == source.properties.deep_view(),
            list == source.events.deep_view(),
            extraction(own) == Ok::<Seq<Entry>, Seq<char>>(properties.entries()),
            list.len() == origin.len(),
            forall|k: int| 0 <= k < origin.len() ==> list[k] == (#[trigger] origin[k])@,
            events_conversion(list.take(it.index() as int), subject_names@) == Ok::<
                Seq<EventModel>,
                ConversionFailure,
            >(events.deep_view()),
    {
        let ghost done = events.deep_view();
        let ghost at = it.index() as int;
        assert(list.take(at + 1).drop_last() == list.take(at));
        assert(list.take(at + 1).last() == event@);
        match convert_event(event, subject_names) {
            Ok(converted) => {
                events.push(converted);
                assert(events.deep_view() =~= done.push(converted@));
            },
            Err(error) => {
                proof {
                    lemma_events_failure_stays(list, subject_names@, at + 1);
                }
                return Err(error);
            },
        }
    }
    assert(list.take(list.len() as int) == list);
    let all = properties.to_pairs();
    Ok(
        OutputCalendar {
            version: String::from_str("2.0"),
            product: String::from_str("-//rijkvp //calconv //NL"),
            properties: all,
            events,
        },
    )
}

/// A failure that shows on a front part of a list of events shows on the
/// whole list.
pub proof fn lemma_events_failure_stays(events: Seq<RawList>, dict: Seq<Entry>, k: int)
    requires
        0 <= k <= events.len(),
        events_conversion(events.take(k), dict) is Err,
    ensures
        events_conversion(events, dict) == events_conversion(events.take(k), dict),
    decreases events.len() - k,
{
    if k == events.len() {
        assert(events.take(k) == events);
    } else {
        assert(events.take(k + 1).drop_last() == events.take(k));
        lemma_events_failure_stays(events, dict, k + 1);
    }
}

} // verus!
