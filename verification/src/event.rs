//! What the editor is told of the outside world, and what it asks of it.
use vstd::prelude::*;

verus! {

/// A key of the keyboard.
#[derive(Clone, Copy, Debug, PartialEq, Eq)]
pub enum Key {
    Char(char),
    Enter,
    Backspace,
    Delete,
    Esc,
    Left,
    Right,
    Up,
    Down,
    Home,
    End,
    PageUp,
    PageDown,
    /// Any key that the editor has no use for.
    Other,
}

/// A key press. `control` says that the control key, and no other modifier,
/// was held with it.
#[derive(Clone, Copy, Debug, PartialEq, Eq)]
pub struct KeyEvent {
    pub code: Key,
    pub control: bool,
}

/// What can happen while the editor waits.
#[derive(Clone, Copy, Debug, PartialEq, Eq)]
pub enum Event {
    /// A key was pressed.
    Key(KeyEvent),
    /// The screen now has this width and this height.
    Resize(u16, u16),
}

/// What the caller is to do once the editor has taken an event.
#[derive(Clone, Copy, Debug, PartialEq, Eq)]
pub enum Action {
    /// Draw the screen again.
    Refresh,
    /// Write the document to its path, report to the editor how that went,
    /// then draw the screen again.
    Save,
}

impl KeyEvent {
    /// Whether control was held with the character `ch`.
    pub open spec fn is_control(self, ch: char) -> bool {
        self.control && self.code == Key::Char(ch)
    }

    /// Whether the key accepts what was typed: Enter, or control with `j`.
    pub open spec fn accepts(self) -> bool {
        self.code is Enter || self.is_control('j')
    }

    /// Whether control was held with the character `ch`.
    pub fn control_with(&self, ch: char) -> (b: bool)
        ensures
            b == self.is_control(ch),
    {
        self.control && match self.code {
            Key::Char(c) => c == ch,
            _ => false,
        }
    }

    /// Whether the key accepts what was typed.
    pub fn is_accept(&self) -> (b: bool)
        ensures
            b == self.accepts(),
    {
        let enter = match self.code {
            Key::Enter => true,
            _ => false,
        };
        enter || self.control_with('j')
    }
}

} // verus!
