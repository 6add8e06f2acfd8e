//! The key presses that the terminal editor reacts to, and what it asks
//! its caller to do after one.

use vstd::prelude::*;

verus! {

/// The key of a key press.
#[derive(Clone, Copy, Debug, PartialEq, Eq, Structural)]
pub enum Key {
    Char(char),
    Enter,
    Backspace,
    Left,
    Right,
    Up,
    Down,
    Esc,
    /// Any other key.
    Other,
}

/// The modifier keys held during a key press.
#[derive(Clone, Copy, Debug, PartialEq, Eq, Structural)]
pub enum Modifiers {
    /// No modifier.
    Plain,
    /// Shift alone.
    Shift,
    /// Control alone.
    Control,
    /// Any other combination.
    Other,
}

/// A key press: the key and the modifiers held with it.
#[derive(Clone, Copy, Debug, PartialEq, Eq, Structural)]
pub struct KeyPress {
    pub key: Key,
    pub modifiers: Modifiers,
}

/// What the caller is to do after the editor has handled a key press.
#[derive(Clone, Copy, Debug, PartialEq, Eq, Structural)]
pub enum Action {
    /// Go on reading keys.
    Continue,
    /// Leave the editor.
    Quit,
    /// Write the editor's contents to the file named at the save prompt,
    /// then report the outcome with `TextEditor::finish_save`.
    Save,
}

} // verus!
