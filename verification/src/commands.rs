//! Keystrokes and command descriptors for the shell's menu layer: a
//! keystroke is a 32-bit code combining modifier bits with an ASCII key,
//! the encoding the windowing toolkit uses.

use vstd::prelude::*;

verus! {

/// A registered UI command: its identifier, the description shown to the
/// user, and where it sits in the menu.
#[allow(dead_code)]
#[derive(Debug, Clone, PartialEq)]
pub struct Command {
    command_id: String,
    command_description: String,
    menu_index: i32,
}

/// A modifier key. Each occupies a fixed bit of a keystroke code.
#[derive(Debug, Copy, Clone, Eq, PartialEq, Structural)]
pub enum KeyModifier {
    NoModifier,
    Shift,
    CapsLock,
    Ctrl,
    Alt,
}

impl KeyModifier {
    /// The bit this modifier occupies in a keystroke code.
    pub open spec fn spec_bits(self) -> i32 {
        match self {
            KeyModifier::NoModifier => 0,
            KeyModifier::Shift => 0x00010000,
            KeyModifier::CapsLock => 0x00020000,
            KeyModifier::Ctrl => 0x00040000,
            KeyModifier::Alt => 0x00080000,
        }
    }

    /// The bit this modifier occupies in a keystroke code.
    pub fn bits(self) -> (b: i32)
        ensures
            b == self.spec_bits(),
    {
        match self {
            KeyModifier::NoModifier => 0,
            KeyModifier::Shift => 0x00010000,
            KeyModifier::CapsLock => 0x00020000,
            KeyModifier::Ctrl => 0x00040000,
            KeyModifier::Alt => 0x00080000,
        }
    }
}

/// A keystroke code: modifier bits above, an ASCII key code below.
pub struct Keystroke(pub i32);

/// Whether `c` is a key that contributes its own code to a keystroke:
/// printable ASCII, or ASCII whitespace.
pub open spec fn spec_is_key_char(c: char) -> bool {
    let u = c as u32;
    (0x21 <= u && u <= 0x7e) || u == 0x20 || u == 0x09 || u == 0x0a || u == 0x0c || u == 0x0d
}

/// The code a bare character produces: its own code point for a printable
/// or whitespace ASCII character, the empty code for anything else.
pub open spec fn spec_char_code(c: char) -> i32 {
    if spec_is_key_char(c) {
        (c as u32) as i32
    } else {
        0
    }
}

/// Whether `c` is a key that contributes its own code to a keystroke.
fn is_key_char(c: char) -> (r: bool)
    ensures
        r == spec_is_key_char(c),
{
    let u = c as u32;
    (0x21 <= u && u <= 0x7e) || u == 0x20 || u == 0x09 || u == 0x0a || u == 0x0c || u == 0x0d
}

impl Keystroke {
    /// The keystroke a bare character produces, with no modifier held.
    pub fn from_char(c: char) -> (k: Keystroke)
        ensures
            k.0 == spec_char_code(c),
    {
        KeyModifier::NoModifier + c
    }
}

impl core::ops::Add<KeyModifier> for KeyModifier {
    type Output = Keystroke;

    /// Two modifiers combine into a keystroke holding both bits.
    fn add(self, other: KeyModifier) -> (r: Keystroke) {
        Keystroke(self.bits() | other.bits())
    }
}

impl vstd::std_specs::ops::AddSpecImpl<KeyModifier> for KeyModifier {
    open spec fn obeys_add_spec() -> bool {
        true
    }

    open spec fn add_req(self, rhs: KeyModifier) -> bool {
        true
    }

    open spec fn add_spec(self, rhs: KeyModifier) -> Keystroke {
        Keystroke(self.spec_bits() | rhs.spec_bits())
    }
}

impl core::ops::Add<KeyModifier> for Keystroke {
    type Output = Keystroke;

    /// A further modifier sets its bit in the code.
    fn add(self, other: KeyModifier) -> (r: Keystroke) {
        Keystroke(self.0 | other.bits())
    }
}

impl vstd::std_specs::ops::AddSpecImpl<KeyModifier> for Keystroke {
    open spec fn obeys_add_spec() -> bool {
        true
    }

    open spec fn add_req(self, rhs: KeyModifier) -> bool {
        true
    }

    open spec fn add_spec(self, rhs: KeyModifier) -> Keystroke {
        Keystroke(self.0 | rhs.spec_bits())
    }
}

impl core::ops::Add<char> for KeyModifier {
    type Output = Keystroke;

    /// A printable or whitespace ASCII key replaces the code with its own;
    /// any other character leaves only the modifier's bit.
    fn add(self, other: char) -> (r: Keystroke) {
        if is_key_char(other) {
            let u = other as u32;
            Keystroke(u as i32)
        } else {
            Keystroke(self.bits())
        }
    }
}

impl vstd::std_specs::ops::AddSpecImpl<char> for KeyModifier {
    open spec fn obeys_add_spec() -> bool {
        true
    }

    open spec fn add_req(self, rhs: char) -> bool {
        true
    }

    open spec fn add_spec(self, rhs: char) -> Keystroke {
        if spec_is_key_char(rhs) {
            Keystroke((rhs as u32) as i32)
        } else {
            Keystroke(self.spec_bits())
        }
    }
}

impl core::ops::Add<char> for Keystroke {
    type Output = Keystroke;

    /// A printable or whitespace ASCII key replaces the code with its own;
    /// any other character leaves the keystroke as it was.
    fn add(self, other: char) -> (r: Keystroke) {
        if is_key_char(other) {
            let u = other as u32;
            Keystroke(u as i32)
        } else {
            self
        }
    }
}

impl vstd::std_specs::ops::AddSpecImpl<char> for Keystroke {
    open spec fn obeys_add_spec() -> bool {
        true
    }

    open spec fn add_req(self, rhs: char) -> bool {
        true
    }

    open spec fn add_spec(self, rhs: char) -> Keystroke {
        if spec_is_key_char(rhs) {
            Keystroke((rhs as u32) as i32)
        } else {
            self
        }
    }
}

} // verus!
