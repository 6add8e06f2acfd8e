//! A small formatted-text editor: the editing model behind a terminal
//! front end (lines of formatted segments, a cursor, a save prompt) and
//! the state behind a windowed front end (one text buffer, a format and a
//! save dialog).

pub mod strings;
pub mod words;
pub mod segments;
pub mod messages;
pub mod keys;
pub mod editor;
pub mod gui;
pub mod laws;
