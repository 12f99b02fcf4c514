//! A keystroke as the interaction reads it.
//!
//! The terminal reports far more than the frames ever ask about; what they
//! ask is which key it was, whether it carried Ctrl, and whether it carried
//! anything but Shift. The program turns each terminal event into a
//! [`KeyEvent`] of this module before it hands it over.

use vstd::prelude::*;

verus! {

/// Which key was pressed.
#[derive(Debug, Clone, Copy, PartialEq, Eq, Structural)]
pub enum KeyCode {
    Char(char),
    Enter,
    Esc,
    Up,
    Down,
    Left,
    Right,
    Home,
    End,
    PageUp,
    PageDown,
    Tab,
    BackTab,
    Backspace,
    Delete,
    /// Any key none of the frames reads.
    Other,
}

/// The modifiers held with a key. `other` stands for the rest the terminal
/// can report (super, hyper, meta).
#[derive(Debug, Clone, Copy, PartialEq, Eq, Structural)]
pub struct KeyModifiers {
    pub shift: bool,
    pub control: bool,
    pub alt: bool,
    pub other: bool,
}

/// No modifier held.
pub open spec fn no_modifiers(m: KeyModifiers) -> bool {
    !m.shift && !m.control && !m.alt && !m.other
}

/// Nothing held but, perhaps, Shift.
pub open spec fn at_most_shift(m: KeyModifiers) -> bool {
    !m.control && !m.alt && !m.other
}

impl KeyModifiers {
    /// No modifier at all.
    pub fn none() -> (r: Self)
        ensures
            no_modifiers(r),
    {
        KeyModifiers { shift: false, control: false, alt: false, other: false }
    }

    /// Ctrl alone.
    pub fn control_only() -> (r: Self)
        ensures
            r.control && !r.shift && !r.alt && !r.other,
    {
        KeyModifiers { shift: false, control: true, alt: false, other: false }
    }

    /// Shift alone.
    pub fn shift_only() -> (r: Self)
        ensures
            r.shift && !r.control && !r.alt && !r.other,
    {
        KeyModifiers { shift: true, control: false, alt: false, other: false }
    }

    /// Whether no modifier is held.
    pub fn is_empty(self) -> (r: bool)
        ensures
            r == no_modifiers(self),
    {
        !self.shift && !self.control && !self.alt && !self.other
    }

    /// Whether nothing but Shift is held.
    pub fn is_empty_but_shift(self) -> (r: bool)
        ensures
            r == at_most_shift(self),
    {
        !self.control && !self.alt && !self.other
    }
}

/// One keystroke.
#[derive(Debug, Clone, Copy, PartialEq, Eq, Structural)]
pub struct KeyEvent {
    pub code: KeyCode,
    pub modifiers: KeyModifiers,
}

impl KeyEvent {
    /// A key with the given modifiers.
    pub fn new(code: KeyCode, modifiers: KeyModifiers) -> (r: Self)
        ensures
            r.code == code,
            r.modifiers == modifiers,
    {
        KeyEvent { code, modifiers }
    }

    /// A key with no modifier.
    pub fn plain(code: KeyCode) -> (r: Self)
        ensures
            r.code == code,
            no_modifiers(r.modifiers),
    {
        KeyEvent { code, modifiers: KeyModifiers::none() }
    }
}

/// A character's code with the ASCII capitals folded onto the small letters.
pub open spec fn ascii_folded(c: char) -> u32 {
    let x = c as u32;
    if 65 <= x <= 90 {
        (x + 32) as u32
    } else {
        x
    }
}

/// Whether two characters are the same once ASCII case is ignored.
pub fn same_ignoring_ascii_case(a: char, b: char) -> (r: bool)
    ensures
        r == (ascii_folded(a) == ascii_folded(b)),
{
    let x = a as u32;
    let y = b as u32;
    let fx = if 65 <= x && x <= 90 {
        x + 32
    } else {
        x
    };
    let fy = if 65 <= y && y <= 90 {
        y + 32
    } else {
        y
    };
    fx == fy
}

/// `key` is the unadorned answer `ch` to a `(y/N)` prompt: the letter in
/// either case, with nothing held but perhaps Shift.
pub open spec fn answers(key: KeyEvent, ch: char) -> bool {
    at_most_shift(key.modifiers) && match key.code {
        KeyCode::Char(c) => ascii_folded(c) == ascii_folded(ch),
        _ => false,
    }
}

/// `key` is the Ctrl chord `ch`: the letter in either case with Ctrl held,
/// whatever else is held with it.
pub open spec fn chord(key: KeyEvent, ch: char) -> bool {
    key.modifiers.control && match key.code {
        KeyCode::Char(c) => ascii_folded(c) == ascii_folded(ch),
        _ => false,
    }
}

/// Is this key the unadorned answer `ch` to the `(y/N)` prompt?
pub fn is_answer(key: KeyEvent, ch: char) -> (r: bool)
    ensures
        r == answers(key, ch),
{
    key.modifiers.is_empty_but_shift() && match key.code {
        KeyCode::Char(c) => same_ignoring_ascii_case(c, ch),
        _ => false,
    }
}

/// Is this key the Ctrl chord `ch`?
pub fn is_chord(key: KeyEvent, ch: char) -> (r: bool)
    ensures
        r == chord(key, ch),
{
    key.modifiers.control && match key.code {
        KeyCode::Char(c) => same_ignoring_ascii_case(c, ch),
        _ => false,
    }
}

/// A Ctrl chord is never an answer, and an answer is never a chord: the two
/// sets of keys do not meet.
pub proof fn lemma_chord_is_not_answer(key: KeyEvent, a: char, b: char)
    ensures
        !(chord(key, a) && answers(key, b)),
{
}

} // verus!
