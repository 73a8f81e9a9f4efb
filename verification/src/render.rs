//! The writing of a converted calendar as an iCalendar document.
//!
//! The document is written by the `ics` crate. What that crate does is
//! stated here as far as the conversion needs it, and believed; the filling
//! of its calendar is verified against those statements.

use crate::convert::{
    calendar_conversion, convert_calendar, CalendarModel, EventModel, OutputCalendar,
    OutputEvent, RawCalendar,
};
use crate::error::ConversionError;
use crate::property::Entry;
use crate::subject::SubjectDictionary;
use vstd::prelude::*;

verus! {

/// The type `ics::ICalendar`: a calendar under construction.
#[verifier::external_type_specification]
#[verifier::external_body]
pub struct ExICalendar<'a>(ics::ICalendar<'a>);

/// The type `ics::Event`: an event under construction.
#[verifier::external_type_specification]
#[verifier::external_body]
pub struct ExEvent<'a>(ics::Event<'a>);

/// What `ics` writes for a property made of a key and a value alone: its
/// content line, folded where it is long, with the line break at its end.
pub uninterp spec fn property_line(key: Seq<char>, value: Seq<char>) -> Seq<char>;

/// What `ics` writes for each property of a calendar, in their order.
pub uninterp spec fn calendar_lines(calendar: ics::ICalendar<'static>) -> Seq<Seq<char>>;

/// What `ics` writes for each component inside a calendar, in their order.
pub uninterp spec fn calendar_blocks(calendar: ics::ICalendar<'static>) -> Seq<Seq<char>>;

/// What `ics` writes for each property of an event, in their order.
pub uninterp spec fn event_lines(event: ics::Event<'static>) -> Seq<Seq<char>>;

/// What `ics` writes for each alarm of an event, in their order.
pub uninterp spec fn event_blocks(event: ics::Event<'static>) -> Seq<Seq<char>>;

/// A component as `ics` writes it: a line that opens it, its properties, the
/// components inside it, and a line that closes it.
pub open spec fn block_text(name: Seq<char>, lines: Seq<Seq<char>>, blocks: Seq<Seq<char>>) -> Seq<
    char,
> {
    "BEGIN:"@ + name + "\r\n"@ + lines.flatten() + blocks.flatten() + "END:"@ + name + "\r\n"@
}

/// Calls `ics::ICalendar::new`. The new calendar holds the two properties
/// `VERSION` and `PRODID`, in that order and without parameters, and no
/// component.
#[verifier::external_body]
fn calendar_new(version: &str, product: &str) -> (calendar: ics::ICalendar<'static>)
    ensures
        calendar_lines(calendar) == seq![
            property_line("VERSION"@, version@),
            property_line("PRODID"@, product@),
        ],
        calendar_blocks(calendar) == Seq::<Seq<char>>::empty(),
{
    ics::ICalendar::new(version.to_owned(), product.to_owned())
}

/// Calls `ics::ICalendar::push` with `ics::components::Property::new(key,
/// value)`. The property goes behind the calendar's other properties; the
/// components inside the calendar stay as they are.
#[verifier::external_body]
fn calendar_push(calendar: &mut ics::ICalendar<'static>, key: &str, value: &str)
    ensures
        calendar_lines(*final(calendar)) == calendar_lines(*old(calendar)).push(
            property_line(key@, value@),
        ),
        calendar_blocks(*final(calendar)) == calendar_blocks(*old(calendar)),
{
    calendar.push(ics::components::Property::new(key.to_owned(), value.to_owned()));
}

/// Calls `ics::Event::new`. The new event holds the two properties `UID` and
/// `DTSTAMP`, in that order and without parameters, and no alarm.
#[verifier::external_body]
fn event_new(uid: &str, dtstamp: &str) -> (event: ics::Event<'static>)
    ensures
        event_lines(event) == seq![
            property_line("UID"@, uid@),
            property_line("DTSTAMP"@, dtstamp@),
        ],
        event_blocks(event) == Seq::<Seq<char>>::empty(),
{
    ics::Event::new(uid.to_owned(), dtstamp.to_owned())
}

/// Calls `ics::Event::push` with `ics::components::Property::new(key,
/// value)`. The property goes behind the event's other properties; the
/// alarms of the event stay as they are.
#[verifier::external_body]
fn event_push(event: &mut ics::Event<'static>, key: &str, value: &str)
    ensures
        event_lines(*final(event)) == event_lines(*old(event)).push(property_line(key@, value@)),
        event_blocks(*final(event)) == event_blocks(*old(event)),
{
    event.push(ics::components::Property::new(key.to_owned(), value.to_owned()));
}

/// Calls `ics::ICalendar::add_event`. The event goes behind the components
/// that the calendar holds, as a component named `VEVENT` with the event's
/// properties and alarms; the calendar's own properties stay as they are.
#[verifier::external_body]
fn calendar_add_event(calendar: &mut ics::ICalendar<'static>, event: ics::Event<'static>)
    ensures
        calendar_lines(*final(calendar)) == calendar_lines(*old(calendar)),
        calendar_blocks(*final(calendar)) == calendar_blocks(*old(calendar)).push(
            block_text("VEVENT"@, event_lines(event), event_blocks(event)),
        ),
{
    calendar.add_event(event);
}

/// Calls `to_string` on an `ics::ICalendar`. The text is the component named
/// `VCALENDAR` with the calendar's properties and the components inside it.
#[verifier::external_body]
fn calendar_to_string(calendar: &ics::ICalendar<'static>) -> (text: String)
    ensures
        text@ == block_text("VCALENDAR"@, calendar_lines(*calendar), calendar_blocks(*calendar)),
{
    calendar.to_string()
}

/// The content lines of a list of entries.
pub open spec fn lines_of(entries: Seq<Entry>) -> Seq<Seq<char>> {
    entries.map_values(|entry: Entry| property_line(entry.0, entry.1))
}

/// A converted event as it is written: its identifier, its time stamp and
/// its other properties, in that order.
pub open spec fn event_text(event: EventModel) -> Seq<char> {
    block_text(
        "VEVENT"@,
        seq![property_line("UID"@, event.uid), property_line("DTSTAMP"@, event.dtstamp)]
            + lines_of(event.properties),
        Seq::empty(),
    )
}

/// A converted calendar as it is written: version and product, the
/// calendar's own properties, then the events in their order.
pub open spec fn document(calendar: CalendarModel) -> Seq<char> {
    block_text(
        "VCALENDAR"@,
        seq![
            property_line("VERSION"@, calendar.version),
            property_line("PRODID"@, calendar.product),
        ] + lines_of(calendar.properties),
        calendar.events.map_values(|event: EventModel| event_text(event)),
    )
}

/// Writes a converted calendar as an iCalendar document.
pub fn render_calendar(calendar: &OutputCalendar) -> (text: String)
    ensures
        text@ == document(calendar@),
{
    let mut out = calendar_new(calendar.version.as_str(), calendar.product.as_str());
    let ghost head = calendar_lines(out);
    let ghost model = calendar@;
    let mut i: usize = 0;
    assert(lines_of(model.properties).take(0) =~= Seq::empty());
    while i < calendar.properties.len()
        invariant
            i <= calendar.properties.len(),
            model == calendar@,
            calendar_lines(out) == head + lines_of(model.properties).take(i as int),
            calendar_blocks(out) == Seq::<Seq<char>>::empty(),
        decreases calendar.properties.len() - i,
    {
        calendar_push(
            &mut out,
            calendar.properties[i].0.as_str(),
            calendar.properties[i].1.as_str(),
        );
        assert(calendar_lines(out) =~= head + lines_of(model.properties).take(i as int + 1));
        i += 1;
    }
    assert(lines_of(model.properties).take(calendar.properties.len() as int) =~= lines_of(
        model.properties,
    ));
    let ghost texts = model.events.map_values(|event: EventModel| event_text(event));
    let mut k: usize = 0;
    assert(texts.take(0) =~= Seq::empty());
    while k < calendar.events.len()
        invariant
            k <= calendar.events.len(),
            model == calendar@,
            texts == model.events.map_values(|event: EventModel| event_text(event)),
            calendar_lines(out) == head + lines_of(model.properties),
            calendar_blocks(out) == texts.take(k as int),
        decreases calendar.events.len() - k,
    {
        let event = fill_event(&calendar.events[k]);
        calendar_add_event(&mut out, event);
        assert(calendar_blocks(out) =~= texts.take(k as int + 1));
        k += 1;
    }
    assert(texts.take(calendar.events.len() as int) =~= texts);
    calendar_to_string(&out)
}

/// Makes the `ics` event for a converted event.
fn fill_event(source: &OutputEvent) -> (event: ics::Event<'static>)
    ensures
        block_text("VEVENT"@, event_lines(event), event_blocks(event)) == event_text(source@),
{
    let mut event = event_new(source.uid.as_str(), source.dtstamp.as_str());
    let ghost head = event_lines(event);
    let ghost model = source@;
    let mut i: usize = 0;
    assert(lines_of(model.properties).take(0) =~= Seq::empty());
    while i < source.properties.len()
        invariant
            i <= source.properties.len(),
            model == source@,
            event_lines(event) == head + lines_of(model.properties).take(i as int),
            event_blocks(event) == Seq::<Seq<char>>::empty(),
        decreases source.properties.len() - i,
    {
        event_push(&mut event, source.properties[i].0.as_str(), source.properties[i].1.as_str());
        assert(event_lines(event) =~= head + lines_of(model.properties).take(i as int + 1));
        i += 1;
    }
    assert(lines_of(model.properties).take(source.properties.len() as int) =~= lines_of(
        model.properties,
    ));
    event
}

/// Converts a calendar and writes the result as an iCalendar document. The
/// first failure ends the conversion; no text is given back then.
pub fn convert_somtoday(source: RawCalendar, subject_names: &SubjectDictionary) -> (result:
    Result<String, ConversionError>)
    ensures
        match calendar_conversion(
            source.properties.deep_view(),
            source.events.deep_view(),
            subject_names@,
        ) {
            Ok(converted) => result matches Ok(text) && text@ == document(converted),
            Err(failure) => result matches Err(error) && error@ == failure,
        },
{
    match convert_calendar(source, subject_names) {
        Ok(calendar) => Ok(render_calendar(&calendar)),
        Err(error) => Err(error),
    }
}

} // verus!
