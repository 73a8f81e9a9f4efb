//! Conversion of school timetable calendars into readable iCalendar documents.
//!
//! A timetable calendar names each lesson by a summary of the form
//! `code - groups - teachers` and each place by a list of room codes. The
//! conversion replaces the summary by the subject of the lesson, moves groups
//! and teachers to the description, normalises the rooms, and gives every
//! event an identifier that depends on its old identifier alone.
//!
//! - `text`: texts as sequences of characters, and the operations on them.
//! - `property`: properties as read, and the map they are collected into.
//! - `subject`: the dictionary of subjects and the subject of a group.
//! - `summary`, `location`: the rewriting of the two properties.
//! - `convert`: the conversion of events and calendars.
//! - `identifier`, `render`, `source`: the outside crates that derive the
//!   identifier, write a document and read one.
//! - `web`: what a service around the conversion decides.
//! - `laws`: what holds of the conversion, proved.

pub mod convert;
pub mod error;
pub mod identifier;
pub mod laws;
pub mod location;
pub mod property;
pub mod render;
pub mod source;
pub mod subject;
pub mod summary;
pub mod text;
pub mod web;
