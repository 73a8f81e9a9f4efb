//! The normalising of an event's location: a list of room codes.

use crate::property::{has_name, value_of, with_entry, Entry, PropertyMap};
use crate::text::{copy_range, from_chars, join, joined, split, split_on, to_chars, trim, trimmed, uppercased};
use vstd::prelude::*;
use vstd::string::StringExecFns;

verus! {

/// A room code without surrounding white space and, where that leaves five
/// characters, without the first of them, which names the building.
pub open spec fn room_code(token: Seq<char>) -> Seq<char> {
    let room = trimmed(token);
    if room.len() == 5 {
        room.drop_first()
    } else {
        room
    }
}

/// The rooms of a location: the room code of each piece between commas, in
/// upper case.
pub open spec fn rooms_of(raw: Seq<char>) -> Seq<Seq<char>> {
    split_on(raw, ',').map_values(|token: Seq<char>| uppercased(room_code(token)))
}

/// A location with each room normalised and the rooms set apart by a comma
/// and a space. The location is cut at every comma as it stands: no
/// character is taken out before, so a comma written with a backslash before
/// it leaves that backslash at the end of the room code before it.
pub open spec fn normalized_location(raw: Seq<char>) -> Seq<char> {
    joined(rooms_of(raw), ", "@)
}

/// `entries` after the location, if there is one, has been normalised.
pub open spec fn with_location(entries: Seq<Entry>) -> Seq<Entry> {
    if has_name(entries, "LOCATION"@) {
        with_entry(entries, "LOCATION"@, normalized_location(value_of(entries, "LOCATION"@)))
    } else {
        entries
    }
}

/// Trims a room code and drops the building prefix of a code of five
/// characters.
pub fn strip_room(token: &[char]) -> (room: Vec<char>)
    ensures
        room@ == room_code(token@),
{
    let room = trim(token);
    if room.len() == 5 {
        copy_range(room.as_slice(), 1, 5)
    } else {
        room
    }
}

/// Normalises each room of a location.
pub fn normalize_rooms(raw: &str) -> (rooms: Vec<String>)
    ensures
        rooms.deep_view() == rooms_of(raw@),
{
    let chars = to_chars(raw);
    let tokens = split(chars.as_slice(), ',');
    let mut rooms: Vec<String> = Vec::new();
    let mut i: usize = 0;
    while i < tokens.len()
        invariant
            i <= tokens.len(),
            tokens.deep_view() == split_on(raw@, ','),
            rooms.deep_view() == rooms_of(raw@).take(i as int),
        decreases tokens.len() - i,
    {
        assert(tokens.deep_view()[i as int] =~= tokens[i as int]@);
        let room = strip_room(tokens[i].as_slice());
        let text = from_chars(room.as_slice());
        let ghost before = rooms.deep_view();
        rooms.push(text.as_str().to_uppercase());
        assert(rooms.deep_view() =~= before.push(uppercased(room@)));
        assert(rooms_of(raw@).take(i as int + 1) =~= rooms_of(raw@).take(i as int).push(
            rooms_of(raw@)[i as int],
        ));
        i += 1;
    }
    assert(rooms_of(raw@).take(tokens.len() as int) =~= rooms_of(raw@));
    rooms
}

/// Normalises the location of an event, if it has one.
pub fn normalize_location(properties: &mut PropertyMap)
    ensures
        final(properties).entries() == with_location(old(properties).entries()),
{
    let normalized = match properties.get("LOCATION") {
        Some(location) => Some(join(&normalize_rooms(location.as_str()), ", ")),
        None => None,
    };
    match normalized {
        Some(location) => {
            properties.insert(String::from_str("LOCATION"), location);
        },
        None => {},
    }
}

} // verus!
