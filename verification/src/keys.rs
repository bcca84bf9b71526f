//! Names of the keystrokes that the interactive surfaces respond to.

use vstd::prelude::*;

use crate::text::str_eq;

verus! {

/// A keystroke name as delivered by the windowing layer, reduced to the keys
/// the components distinguish.
#[derive(Clone, Copy, Debug, PartialEq, Eq, Structural)]
pub enum Key {
    Tab,
    Escape,
    Enter,
    Space,
    Down,
    Up,
    Home,
    End,
    Left,
    Right,
    Other,
}

/// The key named by `s`.
pub open spec fn key_of(s: Seq<char>) -> Key {
    if s == "tab"@ {
        Key::Tab
    } else if s == "escape"@ {
        Key::Escape
    } else if s == "enter"@ {
        Key::Enter
    } else if s == "space"@ {
        Key::Space
    } else if s == "down"@ {
        Key::Down
    } else if s == "up"@ {
        Key::Up
    } else if s == "home"@ {
        Key::Home
    } else if s == "end"@ {
        Key::End
    } else if s == "left"@ {
        Key::Left
    } else if s == "right"@ {
        Key::Right
    } else {
        Key::Other
    }
}

/// Classifies a keystroke name.
pub fn classify_key(name: &str) -> (k: Key)
    ensures
        k == key_of(name@),
{
    if str_eq(name, "tab") {
        Key::Tab
    } else if str_eq(name, "escape") {
        Key::Escape
    } else if str_eq(name, "enter") {
        Key::Enter
    } else if str_eq(name, "space") {
        Key::Space
    } else if str_eq(name, "down") {
        Key::Down
    } else if str_eq(name, "up") {
        Key::Up
    } else if str_eq(name, "home") {
        Key::Home
    } else if str_eq(name, "end") {
        Key::End
    } else if str_eq(name, "left") {
        Key::Left
    } else if str_eq(name, "right") {
        Key::Right
    } else {
        Key::Other
    }
}

} // verus!
