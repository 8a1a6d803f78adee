use vstd::prelude::*;

verus! {

/// A key of the keyboard, as far as the editor tells keys apart.
#[derive(Clone, Copy, Debug, PartialEq, Eq, Structural)]
pub enum Key {
    Char(char),
    Left,
    Right,
    Up,
    Down,
    Enter,
    Backspace,
    Tab,
    Esc,
    Other,
}

/// The modifier keys held with a key: none (plain), exactly Control, or
/// anything else.
#[derive(Clone, Copy, Debug, PartialEq, Eq, Structural)]
pub enum Modifiers {
    Plain,
    Control,
    Other,
}

/// A key press.
#[derive(Clone, Copy, Debug, PartialEq, Eq, Structural)]
pub struct KeyPress {
    pub code: Key,
    pub modifiers: Modifiers,
}

/// An input event: a key press, a new terminal size (width, height), or
/// anything else.
#[derive(Clone, Copy, Debug, PartialEq, Eq, Structural)]
pub enum InputEvent {
    Key(KeyPress),
    Resize(u16, u16),
    Other,
}

/// What the surrounding loop does after an event: nothing, draw the screen
/// again, write the document out (then draw), or end the session.
#[derive(Clone, Copy, Debug, PartialEq, Eq, Structural)]
pub enum Action {
    Nothing,
    Redraw,
    Save,
    Quit,
}

} // verus!
