//! Platform-independent hotkey description, its textual form and its parser.
//!
//! Backends translate a [`Hotkey`] into native registrations: a low-level
//! keyboard hook on Windows and `RegisterEventHotKey` on macOS.

use vstd::prelude::*;

use crate::text::{
    ascii_lower,
    chars_eq, chars_of, is_white, lower, lower_chars, pieces_view, split_chars, split_on,
    string_from_chars, trim, trim_chars, trim_end, trim_start,
};

verus! {

/// Modifier keys, stored as a bitmask so a hotkey is cheap to compare inside a
/// keyboard hook callback.
#[derive(Debug, Clone, Copy, PartialEq, Eq, Hash, Default, Structural)]
pub struct Modifiers(pub u8);

impl Modifiers {
    /// No modifier at all.
    pub fn none() -> (r: Modifiers)
        ensures
            r.0 == 0,
    {
        Modifiers(0)
    }

    pub fn shift() -> (r: Modifiers)
        ensures
            r.0 == 1,
    {
        Modifiers(1)
    }

    pub fn control() -> (r: Modifiers)
        ensures
            r.0 == 2,
    {
        Modifiers(2)
    }

    /// `Alt` on Windows, `Option` on macOS.
    pub fn alt() -> (r: Modifiers)
        ensures
            r.0 == 4,
    {
        Modifiers(4)
    }

    /// `Win` on Windows, `Command` on macOS.
    pub fn meta() -> (r: Modifiers)
        ensures
            r.0 == 8,
    {
        Modifiers(8)
    }

    /// Whether every modifier of `other` is also in `self`.
    pub fn contains(self, other: Modifiers) -> (r: bool)
        ensures
            r == (self.0 & other.0 == other.0),
    {
        self.0 & other.0 == other.0
    }

    pub fn is_empty(self) -> (r: bool)
        ensures
            r == (self.0 == 0),
    {
        self.0 == 0
    }

    pub fn union(self, other: Modifiers) -> (r: Modifiers)
        ensures
            r.0 == self.0 | other.0,
    {
        Modifiers(self.0 | other.0)
    }
}

impl core::ops::BitOr for Modifiers {
    type Output = Modifiers;

    fn bitor(self, rhs: Modifiers) -> (r: Modifiers)
        ensures
            r.0 == self.0 | rhs.0,
    {
        self.union(rhs)
    }
}

impl vstd::std_specs::ops::BitOrSpecImpl for Modifiers {
    open spec fn obeys_bitor_spec() -> bool {
        true
    }

    open spec fn bitor_req(self, rhs: Modifiers) -> bool {
        true
    }

    open spec fn bitor_spec(self, rhs: Modifiers) -> Modifiers {
        Modifiers(self.0 | rhs.0)
    }
}

/// The non-modifier key of a hotkey.
///
/// A closed enum rather than a raw platform scan code, so a config file stays
/// portable between Windows and macOS and every backend maps every key.
#[derive(Debug, Clone, Copy, PartialEq, Eq, Hash, Structural)]
pub enum KeyCode {
    Left,
    Right,
    Up,
    Down,
    Enter,
    Space,
    Backspace,
    Delete,
    Escape,
    Tab,
    Insert,
    Home,
    End,
    PageUp,
    PageDown,
    A,
    B,
    C,
    D,
    E,
    F,
    G,
    H,
    I,
    J,
    K,
    L,
    M,
    N,
    O,
    P,
    Q,
    R,
    S,
    T,
    U,
    V,
    W,
    X,
    Y,
    Z,
    Digit0,
    Digit1,
    Digit2,
    Digit3,
    Digit4,
    Digit5,
    Digit6,
    Digit7,
    Digit8,
    Digit9,
    Backtick,
    Minus,
    Equals,
    LeftBracket,
    RightBracket,
    Backslash,
    Semicolon,
    Quote,
    Comma,
    Period,
    Slash,
    F1,
    F2,
    F3,
    F4,
    F5,
    F6,
    F7,
    F8,
    F9,
    F10,
    F11,
    F12,
    F13,
    F14,
    F15,
    F16,
    F17,
    F18,
    F19,
    F20,
    F21,
    F22,
    F23,
    F24,
    Numpad0,
    Numpad1,
    Numpad2,
    Numpad3,
    Numpad4,
    Numpad5,
    Numpad6,
    Numpad7,
    Numpad8,
    Numpad9,
    NumpadAdd,
    NumpadSubtract,
    NumpadMultiply,
    NumpadDivide,
    NumpadDecimal,
    NumpadEnter,
}

impl KeyCode {
    /// Number of keys in [`KeyCode::ALL`].
    pub const COUNT: usize = 102;

    /// Every key, in a stable, roughly keyboard-ordered sequence.
    pub const ALL: [KeyCode; 102] = [
        KeyCode::Left,
        KeyCode::Right,
        KeyCode::Up,
        KeyCode::Down,
        KeyCode::Enter,
        KeyCode::Space,
        KeyCode::Backspace,
        KeyCode::Delete,
        KeyCode::Escape,
        KeyCode::Tab,
        KeyCode::Insert,
        KeyCode::Home,
        KeyCode::End,
        KeyCode::PageUp,
        KeyCode::PageDown,
        KeyCode::A,
        KeyCode::B,
        KeyCode::C,
        KeyCode::D,
        KeyCode::E,
        KeyCode::F,
        KeyCode::G,
        KeyCode::H,
        KeyCode::I,
        KeyCode::J,
        KeyCode::K,
        KeyCode::L,
        KeyCode::M,
        KeyCode::N,
        KeyCode::O,
        KeyCode::P,
        KeyCode::Q,
        KeyCode::R,
        KeyCode::S,
        KeyCode::T,
        KeyCode::U,
        KeyCode::V,
        KeyCode::W,
        KeyCode::X,
        KeyCode::Y,
        KeyCode::Z,
        KeyCode::Digit0,
        KeyCode::Digit1,
        KeyCode::Digit2,
        KeyCode::Digit3,
        KeyCode::Digit4,
        KeyCode::Digit5,
        KeyCode::Digit6,
        KeyCode::Digit7,
        KeyCode::Digit8,
        KeyCode::Digit9,
        KeyCode::Backtick,
        KeyCode::Minus,
        KeyCode::Equals,
        KeyCode::LeftBracket,
        KeyCode::RightBracket,
        KeyCode::Backslash,
        KeyCode::Semicolon,
        KeyCode::Quote,
        KeyCode::Comma,
        KeyCode::Period,
        KeyCode::Slash,
        KeyCode::F1,
        KeyCode::F2,
        KeyCode::F3,
        KeyCode::F4,
        KeyCode::F5,
        KeyCode::F6,
        KeyCode::F7,
        KeyCode::F8,
        KeyCode::F9,
        KeyCode::F10,
        KeyCode::F11,
        KeyCode::F12,
        KeyCode::F13,
        KeyCode::F14,
        KeyCode::F15,
        KeyCode::F16,
        KeyCode::F17,
        KeyCode::F18,
        KeyCode::F19,
        KeyCode::F20,
        KeyCode::F21,
        KeyCode::F22,
        KeyCode::F23,
        KeyCode::F24,
        KeyCode::Numpad0,
        KeyCode::Numpad1,
        KeyCode::Numpad2,
        KeyCode::Numpad3,
        KeyCode::Numpad4,
        KeyCode::Numpad5,
        KeyCode::Numpad6,
        KeyCode::Numpad7,
        KeyCode::Numpad8,
        KeyCode::Numpad9,
        KeyCode::NumpadAdd,
        KeyCode::NumpadSubtract,
        KeyCode::NumpadMultiply,
        KeyCode::NumpadDivide,
        KeyCode::NumpadDecimal,
        KeyCode::NumpadEnter
    ];

    /// The label of each key as a character sequence.
    pub open spec fn label_chars(self) -> Seq<char> {
        match self {
            KeyCode::Left => seq!['L', 'e', 'f', 't'],
            KeyCode::Right => seq!['R', 'i', 'g', 'h', 't'],
            KeyCode::Up => seq!['U', 'p'],
            KeyCode::Down => seq!['D', 'o', 'w', 'n'],
            KeyCode::Enter => seq!['E', 'n', 't', 'e', 'r'],
            KeyCode::Space => seq!['S', 'p', 'a', 'c', 'e'],
            KeyCode::Backspace => seq!['B', 'a', 'c', 'k', 's', 'p', 'a', 'c', 'e'],
            KeyCode::Delete => seq!['D', 'e', 'l', 'e', 't', 'e'],
            KeyCode::Escape => seq!['E', 's', 'c'],
            KeyCode::Tab => seq!['T', 'a', 'b'],
            KeyCode::Insert => seq!['I', 'n', 's', 'e', 'r', 't'],
            KeyCode::Home => seq!['H', 'o', 'm', 'e'],
            KeyCode::End => seq!['E', 'n', 'd'],
            KeyCode::PageUp => seq!['P', 'a', 'g', 'e', 'U', 'p'],
            KeyCode::PageDown => seq!['P', 'a', 'g', 'e', 'D', 'o', 'w', 'n'],
            KeyCode::A => seq!['A'],
            KeyCode::B => seq!['B'],
            KeyCode::C => seq!['C'],
            KeyCode::D => seq!['D'],
            KeyCode::E => seq!['E'],
            KeyCode::F => seq!['F'],
            KeyCode::G => seq!['G'],
            KeyCode::H => seq!['H'],
            KeyCode::I => seq!['I'],
            KeyCode::J => seq!['J'],
            KeyCode::K => seq!['K'],
            KeyCode::L => seq!['L'],
            KeyCode::M => seq!['M'],
            KeyCode::N => seq!['N'],
            KeyCode::O => seq!['O'],
            KeyCode::P => seq!['P'],
            KeyCode::Q => seq!['Q'],
            KeyCode::R => seq!['R'],
            KeyCode::S => seq!['S'],
            KeyCode::T => seq!['T'],
            KeyCode::U => seq!['U'],
            KeyCode::V => seq!['V'],
            KeyCode::W => seq!['W'],
            KeyCode::X => seq!['X'],
            KeyCode::Y => seq!['Y'],
            KeyCode::Z => seq!['Z'],
            KeyCode::Digit0 => seq!['0'],
            KeyCode::Digit1 => seq!['1'],
            KeyCode::Digit2 => seq!['2'],
            KeyCode::Digit3 => seq!['3'],
            KeyCode::Digit4 => seq!['4'],
            KeyCode::Digit5 => seq!['5'],
            KeyCode::Digit6 => seq!['6'],
            KeyCode::Digit7 => seq!['7'],
            KeyCode::Digit8 => seq!['8'],
            KeyCode::Digit9 => seq!['9'],
            KeyCode::Backtick => seq!['B', 'a', 'c', 'k', 't', 'i', 'c', 'k'],
            KeyCode::Minus => seq!['M', 'i', 'n', 'u', 's'],
            KeyCode::Equals => seq!['E', 'q', 'u', 'a', 'l', 's'],
            KeyCode::LeftBracket => seq!['L', 'e', 'f', 't', 'B', 'r', 'a', 'c', 'k', 'e', 't'],
            KeyCode::RightBracket => seq!['R', 'i', 'g', 'h', 't', 'B', 'r', 'a', 'c', 'k', 'e', 't'],
            KeyCode::Backslash => seq!['B', 'a', 'c', 'k', 's', 'l', 'a', 's', 'h'],
            KeyCode::Semicolon => seq!['S', 'e', 'm', 'i', 'c', 'o', 'l', 'o', 'n'],
            KeyCode::Quote => seq!['Q', 'u', 'o', 't', 'e'],
            KeyCode::Comma => seq!['C', 'o', 'm', 'm', 'a'],
            KeyCode::Period => seq!['P', 'e', 'r', 'i', 'o', 'd'],
            KeyCode::Slash => seq!['S', 'l', 'a', 's', 'h'],
            KeyCode::F1 => seq!['F', '1'],
            KeyCode::F2 => seq!['F', '2'],
            KeyCode::F3 => seq!['F', '3'],
            KeyCode::F4 => seq!['F', '4'],
            KeyCode::F5 => seq!['F', '5'],
            KeyCode::F6 => seq!['F', '6'],
            KeyCode::F7 => seq!['F', '7'],
            KeyCode::F8 => seq!['F', '8'],
            KeyCode::F9 => seq!['F', '9'],
            KeyCode::F10 => seq!['F', '1', '0'],
            KeyCode::F11 => seq!['F', '1', '1'],
            KeyCode::F12 => seq!['F', '1', '2'],
            KeyCode::F13 => seq!['F', '1', '3'],
            KeyCode::F14 => seq!['F', '1', '4'],
            KeyCode::F15 => seq!['F', '1', '5'],
            KeyCode::F16 => seq!['F', '1', '6'],
            KeyCode::F17 => seq!['F', '1', '7'],
            KeyCode::F18 => seq!['F', '1', '8'],
            KeyCode::F19 => seq!['F', '1', '9'],
            KeyCode::F20 => seq!['F', '2', '0'],
            KeyCode::F21 => seq!['F', '2', '1'],
            KeyCode::F22 => seq!['F', '2', '2'],
            KeyCode::F23 => seq!['F', '2', '3'],
            KeyCode::F24 => seq!['F', '2', '4'],
            KeyCode::Numpad0 => seq!['N', 'u', 'm', '0'],
            KeyCode::Numpad1 => seq!['N', 'u', 'm', '1'],
            KeyCode::Numpad2 => seq!['N', 'u', 'm', '2'],
            KeyCode::Numpad3 => seq!['N', 'u', 'm', '3'],
            KeyCode::Numpad4 => seq!['N', 'u', 'm', '4'],
            KeyCode::Numpad5 => seq!['N', 'u', 'm', '5'],
            KeyCode::Numpad6 => seq!['N', 'u', 'm', '6'],
            KeyCode::Numpad7 => seq!['N', 'u', 'm', '7'],
            KeyCode::Numpad8 => seq!['N', 'u', 'm', '8'],
            KeyCode::Numpad9 => seq!['N', 'u', 'm', '9'],
            KeyCode::NumpadAdd => seq!['N', 'u', 'm', 'A', 'd', 'd'],
            KeyCode::NumpadSubtract => seq!['N', 'u', 'm', 'S', 'u', 'b', 't', 'r', 'a', 'c', 't'],
            KeyCode::NumpadMultiply => seq!['N', 'u', 'm', 'M', 'u', 'l', 't', 'i', 'p', 'l', 'y'],
            KeyCode::NumpadDivide => seq!['N', 'u', 'm', 'D', 'i', 'v', 'i', 'd', 'e'],
            KeyCode::NumpadDecimal => seq!['N', 'u', 'm', 'D', 'e', 'c', 'i', 'm', 'a', 'l'],
            KeyCode::NumpadEnter => seq!['N', 'u', 'm', 'E', 'n', 't', 'e', 'r'],
        }
    }

    /// Human-readable name, and the token [`Hotkey::parse`] accepts
    /// (case-insensitively).
    pub fn label(self) -> (r: &'static str)
        ensures
            r@ == self.label_chars(),
    {
        match self {
            KeyCode::Left => {
                proof {
                    reveal_strlit("Left");
                }
                "Left"
            },
            KeyCode::Right => {
                proof {
                    reveal_strlit("Right");
                }
                "Right"
            },
            KeyCode::Up => {
                proof {
                    reveal_strlit("Up");
                }
                "Up"
            },
            KeyCode::Down => {
                proof {
                    reveal_strlit("Down");
                }
                "Down"
            },
            KeyCode::Enter => {
                proof {
                    reveal_strlit("Enter");
                }
                "Enter"
            },
            KeyCode::Space => {
                proof {
                    reveal_strlit("Space");
                }
                "Space"
            },
            KeyCode::Backspace => {
                proof {
                    reveal_strlit("Backspace");
                }
                "Backspace"
            },
            KeyCode::Delete => {
                proof {
                    reveal_strlit("Delete");
                }
                "Delete"
            },
            KeyCode::Escape => {
                proof {
                    reveal_strlit("Esc");
                }
                "Esc"
            },
            KeyCode::Tab => {
                proof {
                    reveal_strlit("Tab");
                }
                "Tab"
            },
            KeyCode::Insert => {
                proof {
                    reveal_strlit("Insert");
                }
                "Insert"
            },
            KeyCode::Home => {
                proof {
                    reveal_strlit("Home");
                }
                "Home"
            },
            KeyCode::End => {
                proof {
                    reveal_strlit("End");
                }
                "End"
            },
            KeyCode::PageUp => {
                proof {
                    reveal_strlit("PageUp");
                }
                "PageUp"
            },
            KeyCode::PageDown => {
                proof {
                    reveal_strlit("PageDown");
                }
                "PageDown"
            },
            KeyCode::A => {
                proof {
                    reveal_strlit("A");
                }
                "A"
            },
            KeyCode::B => {
                proof {
                    reveal_strlit("B");
                }
                "B"
            },
            KeyCode::C => {
                proof {
                    reveal_strlit("C");
                }
                "C"
            },
            KeyCode::D => {
                proof {
                    reveal_strlit("D");
                }
                "D"
            },
            KeyCode::E => {
                proof {
                    reveal_strlit("E");
                }
                "E"
            },
            KeyCode::F => {
                proof {
                    reveal_strlit("F");
                }
                "F"
            },
            KeyCode::G => {
                proof {
                    reveal_strlit("G");
                }
                "G"
            },
            KeyCode::H => {
                proof {
                    reveal_strlit("H");
                }
                "H"
            },
            KeyCode::I => {
                proof {
                    reveal_strlit("I");
                }
                "I"
            },
            KeyCode::J => {
                proof {
                    reveal_strlit("J");
                }
                "J"
            },
            KeyCode::K => {
                proof {
                    reveal_strlit("K");
                }
                "K"
            },
            KeyCode::L => {
                proof {
                    reveal_strlit("L");
                }
                "L"
            },
            KeyCode::M => {
                proof {
                    reveal_strlit("M");
                }
                "M"
            },
            KeyCode::N => {
                proof {
                    reveal_strlit("N");
                }
                "N"
            },
            KeyCode::O => {
                proof {
                    reveal_strlit("O");
                }
                "O"
            },
            KeyCode::P => {
                proof {
                    reveal_strlit("P");
                }
                "P"
            },
            KeyCode::Q => {
                proof {
                    reveal_strlit("Q");
                }
                "Q"
            },
            KeyCode::R => {
                proof {
                    reveal_strlit("R");
                }
                "R"
            },
            KeyCode::S => {
                proof {
                    reveal_strlit("S");
                }
                "S"
            },
            KeyCode::T => {
                proof {
                    reveal_strlit("T");
                }
                "T"
            },
            KeyCode::U => {
                proof {
                    reveal_strlit("U");
                }
                "U"
            },
            KeyCode::V => {
                proof {
                    reveal_strlit("V");
                }
                "V"
            },
            KeyCode::W => {
                proof {
                    reveal_strlit("W");
                }
                "W"
            },
            KeyCode::X => {
                proof {
                    reveal_strlit("X");
                }
                "X"
            },
            KeyCode::Y => {
                proof {
                    reveal_strlit("Y");
                }
                "Y"
            },
            KeyCode::Z => {
                proof {
                    reveal_strlit("Z");
                }
                "Z"
            },
            KeyCode::Digit0 => {
                proof {
                    reveal_strlit("0");
                }
                "0"
            },
            KeyCode::Digit1 => {
                proof {
                    reveal_strlit("1");
                }
                "1"
            },
            KeyCode::Digit2 => {
                proof {
                    reveal_strlit("2");
                }
                "2"
            },
            KeyCode::Digit3 => {
                proof {
                    reveal_strlit("3");
                }
                "3"
            },
            KeyCode::Digit4 => {
                proof {
                    reveal_strlit("4");
                }
                "4"
            },
            KeyCode::Digit5 => {
                proof {
                    reveal_strlit("5");
                }
                "5"
            },
            KeyCode::Digit6 => {
                proof {
                    reveal_strlit("6");
                }
                "6"
            },
            KeyCode::Digit7 => {
                proof {
                    reveal_strlit("7");
                }
                "7"
            },
            KeyCode::Digit8 => {
                proof {
                    reveal_strlit("8");
                }
                "8"
            },
            KeyCode::Digit9 => {
                proof {
                    reveal_strlit("9");
                }
                "9"
            },
            KeyCode::Backtick => {
                proof {
                    reveal_strlit("Backtick");
                }
                "Backtick"
            },
            KeyCode::Minus => {
                proof {
                    reveal_strlit("Minus");
                }
                "Minus"
            },
            KeyCode::Equals => {
                proof {
                    reveal_strlit("Equals");
                }
                "Equals"
            },
            KeyCode::LeftBracket => {
                proof {
                    reveal_strlit("LeftBracket");
                }
                "LeftBracket"
            },
            KeyCode::RightBracket => {
                proof {
                    reveal_strlit("RightBracket");
                }
                "RightBracket"
            },
            KeyCode::Backslash => {
                proof {
                    reveal_strlit("Backslash");
                }
                "Backslash"
            },
            KeyCode::Semicolon => {
                proof {
                    reveal_strlit("Semicolon");
                }
                "Semicolon"
            },
            KeyCode::Quote => {
                proof {
                    reveal_strlit("Quote");
                }
                "Quote"
            },
            KeyCode::Comma => {
                proof {
                    reveal_strlit("Comma");
                }
                "Comma"
            },
            KeyCode::Period => {
                proof {
                    reveal_strlit("Period");
                }
                "Period"
            },
            KeyCode::Slash => {
                proof {
                    reveal_strlit("Slash");
                }
                "Slash"
            },
            KeyCode::F1 => {
                proof {
                    reveal_strlit("F1");
                }
                "F1"
            },
            KeyCode::F2 => {
                proof {
                    reveal_strlit("F2");
                }
                "F2"
            },
            KeyCode::F3 => {
                proof {
                    reveal_strlit("F3");
                }
                "F3"
            },
            KeyCode::F4 => {
                proof {
                    reveal_strlit("F4");
                }
                "F4"
            },
            KeyCode::F5 => {
                proof {
                    reveal_strlit("F5");
                }
                "F5"
            },
            KeyCode::F6 => {
                proof {
                    reveal_strlit("F6");
                }
                "F6"
            },
            KeyCode::F7 => {
                proof {
                    reveal_strlit("F7");
                }
                "F7"
            },
            KeyCode::F8 => {
                proof {
                    reveal_strlit("F8");
                }
                "F8"
            },
            KeyCode::F9 => {
                proof {
                    reveal_strlit("F9");
                }
                "F9"
            },
            KeyCode::F10 => {
                proof {
                    reveal_strlit("F10");
                }
                "F10"
            },
            KeyCode::F11 => {
                proof {
                    reveal_strlit("F11");
                }
                "F11"
            },
            KeyCode::F12 => {
                proof {
                    reveal_strlit("F12");
                }
                "F12"
            },
            KeyCode::F13 => {
                proof {
                    reveal_strlit("F13");
                }
                "F13"
            },
            KeyCode::F14 => {
                proof {
                    reveal_strlit("F14");
                }
                "F14"
            },
            KeyCode::F15 => {
                proof {
                    reveal_strlit("F15");
                }
                "F15"
            },
            KeyCode::F16 => {
                proof {
                    reveal_strlit("F16");
                }
                "F16"
            },
            KeyCode::F17 => {
                proof {
                    reveal_strlit("F17");
                }
                "F17"
            },
            KeyCode::F18 => {
                proof {
                    reveal_strlit("F18");
                }
                "F18"
            },
            KeyCode::F19 => {
                proof {
                    reveal_strlit("F19");
                }
                "F19"
            },
            KeyCode::F20 => {
                proof {
                    reveal_strlit("F20");
                }
                "F20"
            },
            KeyCode::F21 => {
                proof {
                    reveal_strlit("F21");
                }
                "F21"
            },
            KeyCode::F22 => {
                proof {
                    reveal_strlit("F22");
                }
                "F22"
            },
            KeyCode::F23 => {
                proof {
                    reveal_strlit("F23");
                }
                "F23"
            },
            KeyCode::F24 => {
                proof {
                    reveal_strlit("F24");
                }
                "F24"
            },
            KeyCode::Numpad0 => {
                proof {
                    reveal_strlit("Num0");
                }
                "Num0"
            },
            KeyCode::Numpad1 => {
                proof {
                    reveal_strlit("Num1");
                }
                "Num1"
            },
            KeyCode::Numpad2 => {
                proof {
                    reveal_strlit("Num2");
                }
                "Num2"
            },
            KeyCode::Numpad3 => {
                proof {
                    reveal_strlit("Num3");
                }
                "Num3"
            },
            KeyCode::Numpad4 => {
                proof {
                    reveal_strlit("Num4");
                }
                "Num4"
            },
            KeyCode::Numpad5 => {
                proof {
                    reveal_strlit("Num5");
                }
                "Num5"
            },
            KeyCode::Numpad6 => {
                proof {
                    reveal_strlit("Num6");
                }
                "Num6"
            },
            KeyCode::Numpad7 => {
                proof {
                    reveal_strlit("Num7");
                }
                "Num7"
            },
            KeyCode::Numpad8 => {
                proof {
                    reveal_strlit("Num8");
                }
                "Num8"
            },
            KeyCode::Numpad9 => {
                proof {
                    reveal_strlit("Num9");
                }
                "Num9"
            },
            KeyCode::NumpadAdd => {
                proof {
                    reveal_strlit("NumAdd");
                }
                "NumAdd"
            },
            KeyCode::NumpadSubtract => {
                proof {
                    reveal_strlit("NumSubtract");
                }
                "NumSubtract"
            },
            KeyCode::NumpadMultiply => {
                proof {
                    reveal_strlit("NumMultiply");
                }
                "NumMultiply"
            },
            KeyCode::NumpadDivide => {
                proof {
                    reveal_strlit("NumDivide");
                }
                "NumDivide"
            },
            KeyCode::NumpadDecimal => {
                proof {
                    reveal_strlit("NumDecimal");
                }
                "NumDecimal"
            },
            KeyCode::NumpadEnter => {
                proof {
                    reveal_strlit("NumEnter");
                }
                "NumEnter"
            },
        }
    }

    /// The key at position `i` of [`KeyCode::ALL`].
    pub open spec fn at(i: int) -> KeyCode {
        if i == 0 {
            KeyCode::Left
        } else if i == 1 {
            KeyCode::Right
        } else if i == 2 {
            KeyCode::Up
        } else if i == 3 {
            KeyCode::Down
        } else if i == 4 {
            KeyCode::Enter
        } else if i == 5 {
            KeyCode::Space
        } else if i == 6 {
            KeyCode::Backspace
        } else if i == 7 {
            KeyCode::Delete
        } else if i == 8 {
            KeyCode::Escape
        } else if i == 9 {
            KeyCode::Tab
        } else if i == 10 {
            KeyCode::Insert
        } else if i == 11 {
            KeyCode::Home
        } else if i == 12 {
            KeyCode::End
        } else if i == 13 {
            KeyCode::PageUp
        } else if i == 14 {
            KeyCode::PageDown
        } else if i == 15 {
            KeyCode::A
        } else if i == 16 {
            KeyCode::B
        } else if i == 17 {
            KeyCode::C
        } else if i == 18 {
            KeyCode::D
        } else if i == 19 {
            KeyCode::E
        } else if i == 20 {
            KeyCode::F
        } else if i == 21 {
            KeyCode::G
        } else if i == 22 {
            KeyCode::H
        } else if i == 23 {
            KeyCode::I
        } else if i == 24 {
            KeyCode::J
        } else if i == 25 {
            KeyCode::K
        } else if i == 26 {
            KeyCode::L
        } else if i == 27 {
            KeyCode::M
        } else if i == 28 {
            KeyCode::N
        } else if i == 29 {
            KeyCode::O
        } else if i == 30 {
            KeyCode::P
        } else if i == 31 {
            KeyCode::Q
        } else if i == 32 {
            KeyCode::R
        } else if i == 33 {
            KeyCode::S
        } else if i == 34 {
            KeyCode::T
        } else if i == 35 {
            KeyCode::U
        } else if i == 36 {
            KeyCode::V
        } else if i == 37 {
            KeyCode::W
        } else if i == 38 {
            KeyCode::X
        } else if i == 39 {
            KeyCode::Y
        } else if i == 40 {
            KeyCode::Z
        } else if i == 41 {
            KeyCode::Digit0
        } else if i == 42 {
            KeyCode::Digit1
        } else if i == 43 {
            KeyCode::Digit2
        } else if i == 44 {
            KeyCode::Digit3
        } else if i == 45 {
            KeyCode::Digit4
        } else if i == 46 {
            KeyCode::Digit5
        } else if i == 47 {
            KeyCode::Digit6
        } else if i == 48 {
            KeyCode::Digit7
        } else if i == 49 {
            KeyCode::Digit8
        } else if i == 50 {
            KeyCode::Digit9
        } else if i == 51 {
            KeyCode::Backtick
        } else if i == 52 {
            KeyCode::Minus
        } else if i == 53 {
            KeyCode::Equals
        } else if i == 54 {
            KeyCode::LeftBracket
        } else if i == 55 {
            KeyCode::RightBracket
        } else if i == 56 {
            KeyCode::Backslash
        } else if i == 57 {
            KeyCode::Semicolon
        } else if i == 58 {
            KeyCode::Quote
        } else if i == 59 {
            KeyCode::Comma
        } else if i == 60 {
            KeyCode::Period
        } else if i == 61 {
            KeyCode::Slash
        } else if i == 62 {
            KeyCode::F1
        } else if i == 63 {
            KeyCode::F2
        } else if i == 64 {
            KeyCode::F3
        } else if i == 65 {
            KeyCode::F4
        } else if i == 66 {
            KeyCode::F5
        } else if i == 67 {
            KeyCode::F6
        } else if i == 68 {
            KeyCode::F7
        } else if i == 69 {
            KeyCode::F8
        } else if i == 70 {
            KeyCode::F9
        } else if i == 71 {
            KeyCode::F10
        } else if i == 72 {
            KeyCode::F11
        } else if i == 73 {
            KeyCode::F12
        } else if i == 74 {
            KeyCode::F13
        } else if i == 75 {
            KeyCode::F14
        } else if i == 76 {
            KeyCode::F15
        } else if i == 77 {
            KeyCode::F16
        } else if i == 78 {
            KeyCode::F17
        } else if i == 79 {
            KeyCode::F18
        } else if i == 80 {
            KeyCode::F19
        } else if i == 81 {
            KeyCode::F20
        } else if i == 82 {
            KeyCode::F21
        } else if i == 83 {
            KeyCode::F22
        } else if i == 84 {
            KeyCode::F23
        } else if i == 85 {
            KeyCode::F24
        } else if i == 86 {
            KeyCode::Numpad0
        } else if i == 87 {
            KeyCode::Numpad1
        } else if i == 88 {
            KeyCode::Numpad2
        } else if i == 89 {
            KeyCode::Numpad3
        } else if i == 90 {
            KeyCode::Numpad4
        } else if i == 91 {
            KeyCode::Numpad5
        } else if i == 92 {
            KeyCode::Numpad6
        } else if i == 93 {
            KeyCode::Numpad7
        } else if i == 94 {
            KeyCode::Numpad8
        } else if i == 95 {
            KeyCode::Numpad9
        } else if i == 96 {
            KeyCode::NumpadAdd
        } else if i == 97 {
            KeyCode::NumpadSubtract
        } else if i == 98 {
            KeyCode::NumpadMultiply
        } else if i == 99 {
            KeyCode::NumpadDivide
        } else if i == 100 {
            KeyCode::NumpadDecimal
        } else {
            KeyCode::NumpadEnter
        }
    }

    /// Position of this key in [`KeyCode::ALL`].
    pub open spec fn ordinal(self) -> int {
        match self {
            KeyCode::Left => 0,
            KeyCode::Right => 1,
            KeyCode::Up => 2,
            KeyCode::Down => 3,
            KeyCode::Enter => 4,
            KeyCode::Space => 5,
            KeyCode::Backspace => 6,
            KeyCode::Delete => 7,
            KeyCode::Escape => 8,
            KeyCode::Tab => 9,
            KeyCode::Insert => 10,
            KeyCode::Home => 11,
            KeyCode::End => 12,
            KeyCode::PageUp => 13,
            KeyCode::PageDown => 14,
            KeyCode::A => 15,
            KeyCode::B => 16,
            KeyCode::C => 17,
            KeyCode::D => 18,
            KeyCode::E => 19,
            KeyCode::F => 20,
            KeyCode::G => 21,
            KeyCode::H => 22,
            KeyCode::I => 23,
            KeyCode::J => 24,
            KeyCode::K => 25,
            KeyCode::L => 26,
            KeyCode::M => 27,
            KeyCode::N => 28,
            KeyCode::O => 29,
            KeyCode::P => 30,
            KeyCode::Q => 31,
            KeyCode::R => 32,
            KeyCode::S => 33,
            KeyCode::T => 34,
            KeyCode::U => 35,
            KeyCode::V => 36,
            KeyCode::W => 37,
            KeyCode::X => 38,
            KeyCode::Y => 39,
            KeyCode::Z => 40,
            KeyCode::Digit0 => 41,
            KeyCode::Digit1 => 42,
            KeyCode::Digit2 => 43,
            KeyCode::Digit3 => 44,
            KeyCode::Digit4 => 45,
            KeyCode::Digit5 => 46,
            KeyCode::Digit6 => 47,
            KeyCode::Digit7 => 48,
            KeyCode::Digit8 => 49,
            KeyCode::Digit9 => 50,
            KeyCode::Backtick => 51,
            KeyCode::Minus => 52,
            KeyCode::Equals => 53,
            KeyCode::LeftBracket => 54,
            KeyCode::RightBracket => 55,
            KeyCode::Backslash => 56,
            KeyCode::Semicolon => 57,
            KeyCode::Quote => 58,
            KeyCode::Comma => 59,
            KeyCode::Period => 60,
            KeyCode::Slash => 61,
            KeyCode::F1 => 62,
            KeyCode::F2 => 63,
            KeyCode::F3 => 64,
            KeyCode::F4 => 65,
            KeyCode::F5 => 66,
            KeyCode::F6 => 67,
            KeyCode::F7 => 68,
            KeyCode::F8 => 69,
            KeyCode::F9 => 70,
            KeyCode::F10 => 71,
            KeyCode::F11 => 72,
            KeyCode::F12 => 73,
            KeyCode::F13 => 74,
            KeyCode::F14 => 75,
            KeyCode::F15 => 76,
            KeyCode::F16 => 77,
            KeyCode::F17 => 78,
            KeyCode::F18 => 79,
            KeyCode::F19 => 80,
            KeyCode::F20 => 81,
            KeyCode::F21 => 82,
            KeyCode::F22 => 83,
            KeyCode::F23 => 84,
            KeyCode::F24 => 85,
            KeyCode::Numpad0 => 86,
            KeyCode::Numpad1 => 87,
            KeyCode::Numpad2 => 88,
            KeyCode::Numpad3 => 89,
            KeyCode::Numpad4 => 90,
            KeyCode::Numpad5 => 91,
            KeyCode::Numpad6 => 92,
            KeyCode::Numpad7 => 93,
            KeyCode::Numpad8 => 94,
            KeyCode::Numpad9 => 95,
            KeyCode::NumpadAdd => 96,
            KeyCode::NumpadSubtract => 97,
            KeyCode::NumpadMultiply => 98,
            KeyCode::NumpadDivide => 99,
            KeyCode::NumpadDecimal => 100,
            KeyCode::NumpadEnter => 101,
        }
    }

    /// The key at position `i` of [`KeyCode::ALL`].
    pub fn from_ordinal(i: usize) -> (k: KeyCode)
        requires
            i < 102,
        ensures
            k == KeyCode::at(i as int),
    {
        match i {
            0 => KeyCode::Left,
            1 => KeyCode::Right,
            2 => KeyCode::Up,
            3 => KeyCode::Down,
            4 => KeyCode::Enter,
            5 => KeyCode::Space,
            6 => KeyCode::Backspace,
            7 => KeyCode::Delete,
            8 => KeyCode::Escape,
            9 => KeyCode::Tab,
            10 => KeyCode::Insert,
            11 => KeyCode::Home,
            12 => KeyCode::End,
            13 => KeyCode::PageUp,
            14 => KeyCode::PageDown,
            15 => KeyCode::A,
            16 => KeyCode::B,
            17 => KeyCode::C,
            18 => KeyCode::D,
            19 => KeyCode::E,
            20 => KeyCode::F,
            21 => KeyCode::G,
            22 => KeyCode::H,
            23 => KeyCode::I,
            24 => KeyCode::J,
            25 => KeyCode::K,
            26 => KeyCode::L,
            27 => KeyCode::M,
            28 => KeyCode::N,
            29 => KeyCode::O,
            30 => KeyCode::P,
            31 => KeyCode::Q,
            32 => KeyCode::R,
            33 => KeyCode::S,
            34 => KeyCode::T,
            35 => KeyCode::U,
            36 => KeyCode::V,
            37 => KeyCode::W,
            38 => KeyCode::X,
            39 => KeyCode::Y,
            40 => KeyCode::Z,
            41 => KeyCode::Digit0,
            42 => KeyCode::Digit1,
            43 => KeyCode::Digit2,
            44 => KeyCode::Digit3,
            45 => KeyCode::Digit4,
            46 => KeyCode::Digit5,
            47 => KeyCode::Digit6,
            48 => KeyCode::Digit7,
            49 => KeyCode::Digit8,
            50 => KeyCode::Digit9,
            51 => KeyCode::Backtick,
            52 => KeyCode::Minus,
            53 => KeyCode::Equals,
            54 => KeyCode::LeftBracket,
            55 => KeyCode::RightBracket,
            56 => KeyCode::Backslash,
            57 => KeyCode::Semicolon,
            58 => KeyCode::Quote,
            59 => KeyCode::Comma,
            60 => KeyCode::Period,
            61 => KeyCode::Slash,
            62 => KeyCode::F1,
            63 => KeyCode::F2,
            64 => KeyCode::F3,
            65 => KeyCode::F4,
            66 => KeyCode::F5,
            67 => KeyCode::F6,
            68 => KeyCode::F7,
            69 => KeyCode::F8,
            70 => KeyCode::F9,
            71 => KeyCode::F10,
            72 => KeyCode::F11,
            73 => KeyCode::F12,
            74 => KeyCode::F13,
            75 => KeyCode::F14,
            76 => KeyCode::F15,
            77 => KeyCode::F16,
            78 => KeyCode::F17,
            79 => KeyCode::F18,
            80 => KeyCode::F19,
            81 => KeyCode::F20,
            82 => KeyCode::F21,
            83 => KeyCode::F22,
            84 => KeyCode::F23,
            85 => KeyCode::F24,
            86 => KeyCode::Numpad0,
            87 => KeyCode::Numpad1,
            88 => KeyCode::Numpad2,
            89 => KeyCode::Numpad3,
            90 => KeyCode::Numpad4,
            91 => KeyCode::Numpad5,
            92 => KeyCode::Numpad6,
            93 => KeyCode::Numpad7,
            94 => KeyCode::Numpad8,
            95 => KeyCode::Numpad9,
            96 => KeyCode::NumpadAdd,
            97 => KeyCode::NumpadSubtract,
            98 => KeyCode::NumpadMultiply,
            99 => KeyCode::NumpadDivide,
            100 => KeyCode::NumpadDecimal,
            _ => KeyCode::NumpadEnter,
        }
    }
}

pub proof fn lemma_ordinal_at(k: KeyCode)
    ensures
        0 <= k.ordinal() < 102,
        KeyCode::at(k.ordinal()) == k,
{
}

/// Inverse of the lowercase label table, as a trie on the characters.
pub open spec fn decode_lower(s: Seq<char>) -> Option<KeyCode> {
    if s.len() == 1 {
        if s[0] == '0' {
            Some(KeyCode::Digit0)
        } else if s[0] == '1' {
            Some(KeyCode::Digit1)
        } else if s[0] == '2' {
            Some(KeyCode::Digit2)
        } else if s[0] == '3' {
            Some(KeyCode::Digit3)
        } else if s[0] == '4' {
            Some(KeyCode::Digit4)
        } else if s[0] == '5' {
            Some(KeyCode::Digit5)
        } else if s[0] == '6' {
            Some(KeyCode::Digit6)
        } else if s[0] == '7' {
            Some(KeyCode::Digit7)
        } else if s[0] == '8' {
            Some(KeyCode::Digit8)
        } else if s[0] == '9' {
            Some(KeyCode::Digit9)
        } else if s[0] == 'a' {
            Some(KeyCode::A)
        } else if s[0] == 'b' {
            Some(KeyCode::B)
        } else if s[0] == 'c' {
            Some(KeyCode::C)
        } else if s[0] == 'd' {
            Some(KeyCode::D)
        } else if s[0] == 'e' {
            Some(KeyCode::E)
        } else if s[0] == 'f' {
            Some(KeyCode::F)
        } else if s[0] == 'g' {
            Some(KeyCode::G)
        } else if s[0] == 'h' {
            Some(KeyCode::H)
        } else if s[0] == 'i' {
            Some(KeyCode::I)
        } else if s[0] == 'j' {
            Some(KeyCode::J)
        } else if s[0] == 'k' {
            Some(KeyCode::K)
        } else if s[0] == 'l' {
            Some(KeyCode::L)
        } else if s[0] == 'm' {
            Some(KeyCode::M)
        } else if s[0] == 'n' {
            Some(KeyCode::N)
        } else if s[0] == 'o' {
            Some(KeyCode::O)
        } else if s[0] == 'p' {
            Some(KeyCode::P)
        } else if s[0] == 'q' {
            Some(KeyCode::Q)
        } else if s[0] == 'r' {
            Some(KeyCode::R)
        } else if s[0] == 's' {
            Some(KeyCode::S)
        } else if s[0] == 't' {
            Some(KeyCode::T)
        } else if s[0] == 'u' {
            Some(KeyCode::U)
        } else if s[0] == 'v' {
            Some(KeyCode::V)
        } else if s[0] == 'w' {
            Some(KeyCode::W)
        } else if s[0] == 'x' {
            Some(KeyCode::X)
        } else if s[0] == 'y' {
            Some(KeyCode::Y)
        } else if s[0] == 'z' {
            Some(KeyCode::Z)
        } else {
            None
        }
    } else if s.len() == 2 {
        if s[0] == 'f' {
            if s[1] == '1' {
                Some(KeyCode::F1)
            } else if s[1] == '2' {
                Some(KeyCode::F2)
            } else if s[1] == '3' {
                Some(KeyCode::F3)
            } else if s[1] == '4' {
                Some(KeyCode::F4)
            } else if s[1] == '5' {
                Some(KeyCode::F5)
            } else if s[1] == '6' {
                Some(KeyCode::F6)
            } else if s[1] == '7' {
                Some(KeyCode::F7)
            } else if s[1] == '8' {
                Some(KeyCode::F8)
            } else if s[1] == '9' {
                Some(KeyCode::F9)
            } else {
                None
            }
        } else if s[0] == 'u' {
            if s[1] == 'p' {
                Some(KeyCode::Up)
            } else {
                None
            }
        } else {
            None
        }
    } else if s.len() == 3 {
        if s[0] == 'e' {
            if s[1] == 'n' {
                if s[2] == 'd' {
                    Some(KeyCode::End)
                } else {
                    None
                }
            } else if s[1] == 's' {
                if s[2] == 'c' {
                    Some(KeyCode::Escape)
                } else {
                    None
                }
            } else {
                None
            }
        } else if s[0] == 'f' {
            if s[1] == '1' {
                if s[2] == '0' {
                    Some(KeyCode::F10)
                } else if s[2] == '1' {
                    Some(KeyCode::F11)
                } else if s[2] == '2' {
                    Some(KeyCode::F12)
                } else if s[2] == '3' {
                    Some(KeyCode::F13)
                } else if s[2] == '4' {
                    Some(KeyCode::F14)
                } else if s[2] == '5' {
                    Some(KeyCode::F15)
                } else if s[2] == '6' {
                    Some(KeyCode::F16)
                } else if s[2] == '7' {
                    Some(KeyCode::F17)
                } else if s[2] == '8' {
                    Some(KeyCode::F18)
                } else if s[2] == '9' {
                    Some(KeyCode::F19)
                } else {
                    None
                }
            } else if s[1] == '2' {
                if s[2] == '0' {
                    Some(KeyCode::F20)
                } else if s[2] == '1' {
                    Some(KeyCode::F21)
                } else if s[2] == '2' {
                    Some(KeyCode::F22)
                } else if s[2] == '3' {
                    Some(KeyCode::F23)
                } else if s[2] == '4' {
                    Some(KeyCode::F24)
                } else {
                    None
                }
            } else {
                None
            }
        } else if s[0] == 't' {
            if s[1] == 'a' {
                if s[2] == 'b' {
                    Some(KeyCode::Tab)
                } else {
                    None
                }
            } else {
                None
            }
        } else {
            None
        }
    } else if s.len() == 4 {
        if s[0] == 'd' {
            if s[1] == 'o' {
                if s[2] == 'w' {
                    if s[3] == 'n' {
                        Some(KeyCode::Down)
                    } else {
                        None
                    }
                } else {
                    None
                }
            } else {
                None
            }
        } else if s[0] == 'h' {
            if s[1] == 'o' {
                if s[2] == 'm' {
                    if s[3] == 'e' {
                        Some(KeyCode::Home)
                    } else {
                        None
                    }
                } else {
                    None
                }
            } else {
                None
            }
        } else if s[0] == 'l' {
            if s[1] == 'e' {
                if s[2] == 'f' {
                    if s[3] == 't' {
                        Some(KeyCode::Left)
                    } else {
                        None
                    }
                } else {
                    None
                }
            } else {
                None
            }
        } else if s[0] == 'n' {
            if s[1] == 'u' {
                if s[2] == 'm' {
                    if s[3] == '0' {
                        Some(KeyCode::Numpad0)
                    } else if s[3] == '1' {
                        Some(KeyCode::Numpad1)
                    } else if s[3] == '2' {
                        Some(KeyCode::Numpad2)
                    } else if s[3] == '3' {
                        Some(KeyCode::Numpad3)
                    } else if s[3] == '4' {
                        Some(KeyCode::Numpad4)
                    } else if s[3] == '5' {
                        Some(KeyCode::Numpad5)
                    } else if s[3] == '6' {
                        Some(KeyCode::Numpad6)
                    } else if s[3] == '7' {
                        Some(KeyCode::Numpad7)
                    } else if s[3] == '8' {
                        Some(KeyCode::Numpad8)
                    } else if s[3] == '9' {
                        Some(KeyCode::Numpad9)
                    } else {
                        None
                    }
                } else {
                    None
                }
            } else {
                None
            }
        } else {
            None
        }
    } else if s.len() == 5 {
        if s[0] == 'c' {
            if s[1] == 'o' {
                if s[2] == 'm' {
                    if s[3] == 'm' {
                        if s[4] == 'a' {
                            Some(KeyCode::Comma)
                        } else {
                            None
                        }
                    } else {
                        None
                    }
                } else {
                    None
                }
            } else {
                None
            }
        } else if s[0] == 'e' {
            if s[1] == 'n' {
                if s[2] == 't' {
                    if s[3] == 'e' {
                        if s[4] == 'r' {
                            Some(KeyCode::Enter)
                        } else {
                            None
                        }
                    } else {
                        None
                    }
                } else {
                    None
                }
            } else {
                None
            }
        } else if s[0] == 'm' {
            if s[1] == 'i' {
                if s[2] == 'n' {
                    if s[3] == 'u' {
                        if s[4] == 's' {
                            Some(KeyCode::Minus)
                        } else {
                            None
                        }
                    } else {
                        None
                    }
                } else {
                    None
                }
            } else {
                None
            }
        } else if s[0] == 'q' {
            if s[1] == 'u' {
                if s[2] == 'o' {
                    if s[3] == 't' {
                        if s[4] == 'e' {
                            Some(KeyCode::Quote)
                        } else {
                            None
                        }
                    } else {
                        None
                    }
                } else {
                    None
                }
            } else {
                None
            }
        } else if s[0] == 'r' {
            if s[1] == 'i' {
                if s[2] == 'g' {
                    if s[3] == 'h' {
                        if s[4] == 't' {
                            Some(KeyCode::Right)
                        } else {
                            None
                        }
                    } else {
                        None
                    }
                } else {
                    None
                }
            } else {
                None
            }
        } else if s[0] == 's' {
            if s[1] == 'l' {
                if s[2] == 'a' {
                    if s[3] == 's' {
                        if s[4] == 'h' {
                            Some(KeyCode::Slash)
                        } else {
                            None
                        }
                    } else {
                        None
                    }
                } else {
                    None
                }
            } else if s[1] == 'p' {
                if s[2] == 'a' {
                    if s[3] == 'c' {
                        if s[4] == 'e' {
                            Some(KeyCode::Space)
                        } else {
                            None
                        }
                    } else {
                        None
                    }
                } else {
                    None
                }
            } else {
                None
            }
        } else {
            None
        }
    } else if s.len() == 6 {
        if s[0] == 'd' {
            if s[1] == 'e' {
                if s[2] == 'l' {
                    if s[3] == 'e' {
                        if s[4] == 't' {
                            if s[5] == 'e' {
                                Some(KeyCode::Delete)
                            } else {
                                None
                            }
                        } else {
                            None
                        }
                    } else {
                        None
                    }
                } else {
                    None
                }
            } else {
                None
            }
        } else if s[0] == 'e' {
            if s[1] == 'q' {
                if s[2] == 'u' {
                    if s[3] == 'a' {
                        if s[4] == 'l' {
                            if s[5] == 's' {
                                Some(KeyCode::Equals)
                            } else {
                                None
                            }
                        } else {
                            None
                        }
                    } else {
                        None
                    }
                } else {
                    None
                }
            } else {
                None
            }
        } else if s[0] == 'i' {
            if s[1] == 'n' {
                if s[2] == 's' {
                    if s[3] == 'e' {
                        if s[4] == 'r' {
                            if s[5] == 't' {
                                Some(KeyCode::Insert)
                            } else {
                                None
                            }
                        } else {
                            None
                        }
                    } else {
                        None
                    }
                } else {
                    None
                }
            } else {
                None
            }
        } else if s[0] == 'n' {
            if s[1] == 'u' {
                if s[2] == 'm' {
                    if s[3] == 'a' {
                        if s[4] == 'd' {
                            if s[5] == 'd' {
                                Some(KeyCode::NumpadAdd)
                            } else {
                                None
                            }
                        } else {
                            None
                        }
                    } else {
                        None
                    }
                } else {
                    None
                }
            } else {
                None
            }
        } else if s[0] == 'p' {
            if s[1] == 'a' {
                if s[2] == 'g' {
                    if s[3] == 'e' {
                        if s[4] == 'u' {
                            if s[5] == 'p' {
                                Some(KeyCode::PageUp)
                            } else {
                                None
                            }
                        } else {
                            None
                        }
                    } else {
                        None
                    }
                } else {
                    None
                }
            } else if s[1] == 'e' {
                if s[2] == 'r' {
                    if s[3] == 'i' {
                        if s[4] == 'o' {
                            if s[5] == 'd' {
                                Some(KeyCode::Period)
                            } else {
                                None
                            }
                        } else {
                            None
                        }
                    } else {
                        None
                    }
                } else {
                    None
                }
            } else {
                None
            }
        } else {
            None
        }
    } else if s.len() == 8 {
        if s[0] == 'b' {
            if s[1] == 'a' {
                if s[2] == 'c' {
                    if s[3] == 'k' {
                        if s[4] == 't' {
                            if s[5] == 'i' {
                                if s[6] == 'c' {
                                    if s[7] == 'k' {
                                        Some(KeyCode::Backtick)
                                    } else {
                                        None
                                    }
                                } else {
                                    None
                                }
                            } else {
                                None
                            }
                        } else {
                            None
                        }
                    } else {
                        None
                    }
                } else {
                    None
                }
            } else {
                None
            }
        } else if s[0] == 'n' {
            if s[1] == 'u' {
                if s[2] == 'm' {
                    if s[3] == 'e' {
                        if s[4] == 'n' {
                            if s[5] == 't' {
                                if s[6] == 'e' {
                                    if s[7] == 'r' {
                                        Some(KeyCode::NumpadEnter)
                                    } else {
                                        None
                                    }
                                } else {
                                    None
                                }
                            } else {
                                None
                            }
                        } else {
                            None
                        }
                    } else {
                        None
                    }
                } else {
                    None
                }
            } else {
                None
            }
        } else if s[0] == 'p' {
            if s[1] == 'a' {
                if s[2] == 'g' {
                    if s[3] == 'e' {
                        if s[4] == 'd' {
                            if s[5] == 'o' {
                                if s[6] == 'w' {
                                    if s[7] == 'n' {
                                        Some(KeyCode::PageDown)
                                    } else {
                                        None
                                    }
                                } else {
                                    None
                                }
                            } else {
                                None
                            }
                        } else {
                            None
                        }
                    } else {
                        None
                    }
                } else {
                    None
                }
            } else {
                None
            }
        } else {
            None
        }
    } else if s.len() == 9 {
        if s[0] == 'b' {
            if s[1] == 'a' {
                if s[2] == 'c' {
                    if s[3] == 'k' {
                        if s[4] == 's' {
                            if s[5] == 'l' {
                                if s[6] == 'a' {
                                    if s[7] == 's' {
                                        if s[8] == 'h' {
                                            Some(KeyCode::Backslash)
                                        } else {
                                            None
                                        }
                                    } else {
                                        None
                                    }
                                } else {
                                    None
                                }
                            } else if s[5] == 'p' {
                                if s[6] == 'a' {
                                    if s[7] == 'c' {
                                        if s[8] == 'e' {
                                            Some(KeyCode::Backspace)
                                        } else {
                                            None
                                        }
                                    } else {
                                        None
                                    }
                                } else {
                                    None
                                }
                            } else {
                                None
                            }
                        } else {
                            None
                        }
                    } else {
                        None
                    }
                } else {
                    None
                }
            } else {
                None
            }
        } else if s[0] == 'n' {
            if s[1] == 'u' {
                if s[2] == 'm' {
                    if s[3] == 'd' {
                        if s[4] == 'i' {
                            if s[5] == 'v' {
                                if s[6] == 'i' {
                                    if s[7] == 'd' {
                                        if s[8] == 'e' {
                                            Some(KeyCode::NumpadDivide)
                                        } else {
                                            None
                                        }
                                    } else {
                                        None
                                    }
                                } else {
                                    None
                                }
                            } else {
                                None
                            }
                        } else {
                            None
                        }
                    } else {
                        None
                    }
                } else {
                    None
                }
            } else {
                None
            }
        } else if s[0] == 's' {
            if s[1] == 'e' {
                if s[2] == 'm' {
                    if s[3] == 'i' {
                        if s[4] == 'c' {
                            if s[5] == 'o' {
                                if s[6] == 'l' {
                                    if s[7] == 'o' {
                                        if s[8] == 'n' {
                                            Some(KeyCode::Semicolon)
                                        } else {
                                            None
                                        }
                                    } else {
                                        None
                                    }
                                } else {
                                    None
                                }
                            } else {
                                None
                            }
                        } else {
                            None
                        }
                    } else {
                        None
                    }
                } else {
                    None
                }
            } else {
                None
            }
        } else {
            None
        }
    } else if s.len() == 10 {
        if s[0] == 'n' {
            if s[1] == 'u' {
                if s[2] == 'm' {
                    if s[3] == 'd' {
                        if s[4] == 'e' {
                            if s[5] == 'c' {
                                if s[6] == 'i' {
                                    if s[7] == 'm' {
                                        if s[8] == 'a' {
                                            if s[9] == 'l' {
                                                Some(KeyCode::NumpadDecimal)
                                            } else {
                                                None
                                            }
                                        } else {
                                            None
                                        }
                                    } else {
                                        None
                                    }
                                } else {
                                    None
                                }
                            } else {
                                None
                            }
                        } else {
                            None
                        }
                    } else {
                        None
                    }
                } else {
                    None
                }
            } else {
                None
            }
        } else {
            None
        }
    } else if s.len() == 11 {
        if s[0] == 'l' {
            if s[1] == 'e' {
                if s[2] == 'f' {
                    if s[3] == 't' {
                        if s[4] == 'b' {
                            if s[5] == 'r' {
                                if s[6] == 'a' {
                                    if s[7] == 'c' {
                                        if s[8] == 'k' {
                                            if s[9] == 'e' {
                                                if s[10] == 't' {
                                                    Some(KeyCode::LeftBracket)
                                                } else {
                                                    None
                                                }
                                            } else {
                                                None
                                            }
                                        } else {
                                            None
                                        }
                                    } else {
                                        None
                                    }
                                } else {
                                    None
                                }
                            } else {
                                None
                            }
                        } else {
                            None
                        }
                    } else {
                        None
                    }
                } else {
                    None
                }
            } else {
                None
            }
        } else if s[0] == 'n' {
            if s[1] == 'u' {
                if s[2] == 'm' {
                    if s[3] == 'm' {
                        if s[4] == 'u' {
                            if s[5] == 'l' {
                                if s[6] == 't' {
                                    if s[7] == 'i' {
                                        if s[8] == 'p' {
                                            if s[9] == 'l' {
                                                if s[10] == 'y' {
                                                    Some(KeyCode::NumpadMultiply)
                                                } else {
                                                    None
                                                }
                                            } else {
                                                None
                                            }
                                        } else {
                                            None
                                        }
                                    } else {
                                        None
                                    }
                                } else {
                                    None
                                }
                            } else {
                                None
                            }
                        } else {
                            None
                        }
                    } else if s[3] == 's' {
                        if s[4] == 'u' {
                            if s[5] == 'b' {
                                if s[6] == 't' {
                                    if s[7] == 'r' {
                                        if s[8] == 'a' {
                                            if s[9] == 'c' {
                                                if s[10] == 't' {
                                                    Some(KeyCode::NumpadSubtract)
                                                } else {
                                                    None
                                                }
                                            } else {
                                                None
                                            }
                                        } else {
                                            None
                                        }
                                    } else {
                                        None
                                    }
                                } else {
                                    None
                                }
                            } else {
                                None
                            }
                        } else {
                            None
                        }
                    } else {
                        None
                    }
                } else {
                    None
                }
            } else {
                None
            }
        } else {
            None
        }
    } else if s.len() == 12 {
        if s[0] == 'r' {
            if s[1] == 'i' {
                if s[2] == 'g' {
                    if s[3] == 'h' {
                        if s[4] == 't' {
                            if s[5] == 'b' {
                                if s[6] == 'r' {
                                    if s[7] == 'a' {
                                        if s[8] == 'c' {
                                            if s[9] == 'k' {
                                                if s[10] == 'e' {
                                                    if s[11] == 't' {
                                                        Some(KeyCode::RightBracket)
                                                    } else {
                                                        None
                                                    }
                                                } else {
                                                    None
                                                }
                                            } else {
                                                None
                                            }
                                        } else {
                                            None
                                        }
                                    } else {
                                        None
                                    }
                                } else {
                                    None
                                }
                            } else {
                                None
                            }
                        } else {
                            None
                        }
                    } else {
                        None
                    }
                } else {
                    None
                }
            } else {
                None
            }
        } else {
            None
        }
    } else {
        None
    }
}

proof fn lemma_decode_label_0(k: KeyCode)
    requires
        0 <= k.ordinal() < 6,
    ensures
        decode_lower(lower(k.label_chars())) == Some(k),
{
    match k {
        KeyCode::Left => {
            assert(decode_lower(lower(KeyCode::Left.label_chars())) == Some(KeyCode::Left));
        },
        KeyCode::Right => {
            assert(decode_lower(lower(KeyCode::Right.label_chars())) == Some(KeyCode::Right));
        },
        KeyCode::Up => {
            assert(decode_lower(lower(KeyCode::Up.label_chars())) == Some(KeyCode::Up));
        },
        KeyCode::Down => {
            assert(decode_lower(lower(KeyCode::Down.label_chars())) == Some(KeyCode::Down));
        },
        KeyCode::Enter => {
            assert(decode_lower(lower(KeyCode::Enter.label_chars())) == Some(KeyCode::Enter));
        },
        KeyCode::Space => {
            assert(decode_lower(lower(KeyCode::Space.label_chars())) == Some(KeyCode::Space));
        },
        _ => {},
    }
}

proof fn lemma_decode_label_1(k: KeyCode)
    requires
        6 <= k.ordinal() < 12,
    ensures
        decode_lower(lower(k.label_chars())) == Some(k),
{
    match k {
        KeyCode::Backspace => {
            assert(decode_lower(lower(KeyCode::Backspace.label_chars())) == Some(KeyCode::Backspace));
        },
        KeyCode::Delete => {
            assert(decode_lower(lower(KeyCode::Delete.label_chars())) == Some(KeyCode::Delete));
        },
        KeyCode::Escape => {
            assert(decode_lower(lower(KeyCode::Escape.label_chars())) == Some(KeyCode::Escape));
        },
        KeyCode::Tab => {
            assert(decode_lower(lower(KeyCode::Tab.label_chars())) == Some(KeyCode::Tab));
        },
        KeyCode::Insert => {
            assert(decode_lower(lower(KeyCode::Insert.label_chars())) == Some(KeyCode::Insert));
        },
        KeyCode::Home => {
            assert(decode_lower(lower(KeyCode::Home.label_chars())) == Some(KeyCode::Home));
        },
        _ => {},
    }
}

proof fn lemma_decode_label_2(k: KeyCode)
    requires
        12 <= k.ordinal() < 18,
    ensures
        decode_lower(lower(k.label_chars())) == Some(k),
{
    match k {
        KeyCode::End => {
            assert(decode_lower(lower(KeyCode::End.label_chars())) == Some(KeyCode::End));
        },
        KeyCode::PageUp => {
            assert(decode_lower(lower(KeyCode::PageUp.label_chars())) == Some(KeyCode::PageUp));
        },
        KeyCode::PageDown => {
            assert(decode_lower(lower(KeyCode::PageDown.label_chars())) == Some(KeyCode::PageDown));
        },
        KeyCode::A => {
            assert(decode_lower(lower(KeyCode::A.label_chars())) == Some(KeyCode::A));
        },
        KeyCode::B => {
            assert(decode_lower(lower(KeyCode::B.label_chars())) == Some(KeyCode::B));
        },
        KeyCode::C => {
            assert(decode_lower(lower(KeyCode::C.label_chars())) == Some(KeyCode::C));
        },
        _ => {},
    }
}

proof fn lemma_decode_label_3(k: KeyCode)
    requires
        18 <= k.ordinal() < 24,
    ensures
        decode_lower(lower(k.label_chars())) == Some(k),
{
    match k {
        KeyCode::D => {
            assert(decode_lower(lower(KeyCode::D.label_chars())) == Some(KeyCode::D));
        },
        KeyCode::E => {
            assert(decode_lower(lower(KeyCode::E.label_chars())) == Some(KeyCode::E));
        },
        KeyCode::F => {
            assert(decode_lower(lower(KeyCode::F.label_chars())) == Some(KeyCode::F));
        },
        KeyCode::G => {
            assert(decode_lower(lower(KeyCode::G.label_chars())) == Some(KeyCode::G));
        },
        KeyCode::H => {
            assert(decode_lower(lower(KeyCode::H.label_chars())) == Some(KeyCode::H));
        },
        KeyCode::I => {
            assert(decode_lower(lower(KeyCode::I.label_chars())) == Some(KeyCode::I));
        },
        _ => {},
    }
}

proof fn lemma_decode_label_4(k: KeyCode)
    requires
        24 <= k.ordinal() < 30,
    ensures
        decode_lower(lower(k.label_chars())) == Some(k),
{
    match k {
        KeyCode::J => {
            assert(decode_lower(lower(KeyCode::J.label_chars())) == Some(KeyCode::J));
        },
        KeyCode::K => {
            assert(decode_lower(lower(KeyCode::K.label_chars())) == Some(KeyCode::K));
        },
        KeyCode::L => {
            assert(decode_lower(lower(KeyCode::L.label_chars())) == Some(KeyCode::L));
        },
        KeyCode::M => {
            assert(decode_lower(lower(KeyCode::M.label_chars())) == Some(KeyCode::M));
        },
        KeyCode::N => {
            assert(decode_lower(lower(KeyCode::N.label_chars())) == Some(KeyCode::N));
        },
        KeyCode::O => {
            assert(decode_lower(lower(KeyCode::O.label_chars())) == Some(KeyCode::O));
        },
        _ => {},
    }
}

proof fn lemma_decode_label_5(k: KeyCode)
    requires
        30 <= k.ordinal() < 36,
    ensures
        decode_lower(lower(k.label_chars())) == Some(k),
{
    match k {
        KeyCode::P => {
            assert(decode_lower(lower(KeyCode::P.label_chars())) == Some(KeyCode::P));
        },
        KeyCode::Q => {
            assert(decode_lower(lower(KeyCode::Q.label_chars())) == Some(KeyCode::Q));
        },
        KeyCode::R => {
            assert(decode_lower(lower(KeyCode::R.label_chars())) == Some(KeyCode::R));
        },
        KeyCode::S => {
            assert(decode_lower(lower(KeyCode::S.label_chars())) == Some(KeyCode::S));
        },
        KeyCode::T => {
            assert(decode_lower(lower(KeyCode::T.label_chars())) == Some(KeyCode::T));
        },
        KeyCode::U => {
            assert(decode_lower(lower(KeyCode::U.label_chars())) == Some(KeyCode::U));
        },
        _ => {},
    }
}

proof fn lemma_decode_label_6(k: KeyCode)
    requires
        36 <= k.ordinal() < 42,
    ensures
        decode_lower(lower(k.label_chars())) == Some(k),
{
    match k {
        KeyCode::V => {
            assert(decode_lower(lower(KeyCode::V.label_chars())) == Some(KeyCode::V));
        },
        KeyCode::W => {
            assert(decode_lower(lower(KeyCode::W.label_chars())) == Some(KeyCode::W));
        },
        KeyCode::X => {
            assert(decode_lower(lower(KeyCode::X.label_chars())) == Some(KeyCode::X));
        },
        KeyCode::Y => {
            assert(decode_lower(lower(KeyCode::Y.label_chars())) == Some(KeyCode::Y));
        },
        KeyCode::Z => {
            assert(decode_lower(lower(KeyCode::Z.label_chars())) == Some(KeyCode::Z));
        },
        KeyCode::Digit0 => {
            assert(decode_lower(lower(KeyCode::Digit0.label_chars())) == Some(KeyCode::Digit0));
        },
        _ => {},
    }
}

proof fn lemma_decode_label_7(k: KeyCode)
    requires
        42 <= k.ordinal() < 48,
    ensures
        decode_lower(lower(k.label_chars())) == Some(k),
{
    match k {
        KeyCode::Digit1 => {
            assert(decode_lower(lower(KeyCode::Digit1.label_chars())) == Some(KeyCode::Digit1));
        },
        KeyCode::Digit2 => {
            assert(decode_lower(lower(KeyCode::Digit2.label_chars())) == Some(KeyCode::Digit2));
        },
        KeyCode::Digit3 => {
            assert(decode_lower(lower(KeyCode::Digit3.label_chars())) == Some(KeyCode::Digit3));
        },
        KeyCode::Digit4 => {
            assert(decode_lower(lower(KeyCode::Digit4.label_chars())) == Some(KeyCode::Digit4));
        },
        KeyCode::Digit5 => {
            assert(decode_lower(lower(KeyCode::Digit5.label_chars())) == Some(KeyCode::Digit5));
        },
        KeyCode::Digit6 => {
            assert(decode_lower(lower(KeyCode::Digit6.label_chars())) == Some(KeyCode::Digit6));
        },
        _ => {},
    }
}

proof fn lemma_decode_label_8(k: KeyCode)
    requires
        48 <= k.ordinal() < 54,
    ensures
        decode_lower(lower(k.label_chars())) == Some(k),
{
    match k {
        KeyCode::Digit7 => {
            assert(decode_lower(lower(KeyCode::Digit7.label_chars())) == Some(KeyCode::Digit7));
        },
        KeyCode::Digit8 => {
            assert(decode_lower(lower(KeyCode::Digit8.label_chars())) == Some(KeyCode::Digit8));
        },
        KeyCode::Digit9 => {
            assert(decode_lower(lower(KeyCode::Digit9.label_chars())) == Some(KeyCode::Digit9));
        },
        KeyCode::Backtick => {
            assert(decode_lower(lower(KeyCode::Backtick.label_chars())) == Some(KeyCode::Backtick));
        },
        KeyCode::Minus => {
            assert(decode_lower(lower(KeyCode::Minus.label_chars())) == Some(KeyCode::Minus));
        },
        KeyCode::Equals => {
            assert(decode_lower(lower(KeyCode::Equals.label_chars())) == Some(KeyCode::Equals));
        },
        _ => {},
    }
}

proof fn lemma_decode_label_9(k: KeyCode)
    requires
        54 <= k.ordinal() < 60,
    ensures
        decode_lower(lower(k.label_chars())) == Some(k),
{
    match k {
        KeyCode::LeftBracket => {
            assert(decode_lower(lower(KeyCode::LeftBracket.label_chars())) == Some(KeyCode::LeftBracket));
        },
        KeyCode::RightBracket => {
            assert(decode_lower(lower(KeyCode::RightBracket.label_chars())) == Some(KeyCode::RightBracket));
        },
        KeyCode::Backslash => {
            assert(decode_lower(lower(KeyCode::Backslash.label_chars())) == Some(KeyCode::Backslash));
        },
        KeyCode::Semicolon => {
            assert(decode_lower(lower(KeyCode::Semicolon.label_chars())) == Some(KeyCode::Semicolon));
        },
        KeyCode::Quote => {
            assert(decode_lower(lower(KeyCode::Quote.label_chars())) == Some(KeyCode::Quote));
        },
        KeyCode::Comma => {
            assert(decode_lower(lower(KeyCode::Comma.label_chars())) == Some(KeyCode::Comma));
        },
        _ => {},
    }
}

proof fn lemma_decode_label_10(k: KeyCode)
    requires
        60 <= k.ordinal() < 66,
    ensures
        decode_lower(lower(k.label_chars())) == Some(k),
{
    match k {
        KeyCode::Period => {
            assert(decode_lower(lower(KeyCode::Period.label_chars())) == Some(KeyCode::Period));
        },
        KeyCode::Slash => {
            assert(decode_lower(lower(KeyCode::Slash.label_chars())) == Some(KeyCode::Slash));
        },
        KeyCode::F1 => {
            assert(decode_lower(lower(KeyCode::F1.label_chars())) == Some(KeyCode::F1));
        },
        KeyCode::F2 => {
            assert(decode_lower(lower(KeyCode::F2.label_chars())) == Some(KeyCode::F2));
        },
        KeyCode::F3 => {
            assert(decode_lower(lower(KeyCode::F3.label_chars())) == Some(KeyCode::F3));
        },
        KeyCode::F4 => {
            assert(decode_lower(lower(KeyCode::F4.label_chars())) == Some(KeyCode::F4));
        },
        _ => {},
    }
}

proof fn lemma_decode_label_11(k: KeyCode)
    requires
        66 <= k.ordinal() < 72,
    ensures
        decode_lower(lower(k.label_chars())) == Some(k),
{
    match k {
        KeyCode::F5 => {
            assert(decode_lower(lower(KeyCode::F5.label_chars())) == Some(KeyCode::F5));
        },
        KeyCode::F6 => {
            assert(decode_lower(lower(KeyCode::F6.label_chars())) == Some(KeyCode::F6));
        },
        KeyCode::F7 => {
            assert(decode_lower(lower(KeyCode::F7.label_chars())) == Some(KeyCode::F7));
        },
        KeyCode::F8 => {
            assert(decode_lower(lower(KeyCode::F8.label_chars())) == Some(KeyCode::F8));
        },
        KeyCode::F9 => {
            assert(decode_lower(lower(KeyCode::F9.label_chars())) == Some(KeyCode::F9));
        },
        KeyCode::F10 => {
            assert(decode_lower(lower(KeyCode::F10.label_chars())) == Some(KeyCode::F10));
        },
        _ => {},
    }
}

proof fn lemma_decode_label_12(k: KeyCode)
    requires
        72 <= k.ordinal() < 78,
    ensures
        decode_lower(lower(k.label_chars())) == Some(k),
{
    match k {
        KeyCode::F11 => {
            assert(decode_lower(lower(KeyCode::F11.label_chars())) == Some(KeyCode::F11));
        },
        KeyCode::F12 => {
            assert(decode_lower(lower(KeyCode::F12.label_chars())) == Some(KeyCode::F12));
        },
        KeyCode::F13 => {
            assert(decode_lower(lower(KeyCode::F13.label_chars())) == Some(KeyCode::F13));
        },
        KeyCode::F14 => {
            assert(decode_lower(lower(KeyCode::F14.label_chars())) == Some(KeyCode::F14));
        },
        KeyCode::F15 => {
            assert(decode_lower(lower(KeyCode::F15.label_chars())) == Some(KeyCode::F15));
        },
        KeyCode::F16 => {
            assert(decode_lower(lower(KeyCode::F16.label_chars())) == Some(KeyCode::F16));
        },
        _ => {},
    }
}

proof fn lemma_decode_label_13(k: KeyCode)
    requires
        78 <= k.ordinal() < 84,
    ensures
        decode_lower(lower(k.label_chars())) == Some(k),
{
    match k {
        KeyCode::F17 => {
            assert(decode_lower(lower(KeyCode::F17.label_chars())) == Some(KeyCode::F17));
        },
        KeyCode::F18 => {
            assert(decode_lower(lower(KeyCode::F18.label_chars())) == Some(KeyCode::F18));
        },
        KeyCode::F19 => {
            assert(decode_lower(lower(KeyCode::F19.label_chars())) == Some(KeyCode::F19));
        },
        KeyCode::F20 => {
            assert(decode_lower(lower(KeyCode::F20.label_chars())) == Some(KeyCode::F20));
        },
        KeyCode::F21 => {
            assert(decode_lower(lower(KeyCode::F21.label_chars())) == Some(KeyCode::F21));
        },
        KeyCode::F22 => {
            assert(decode_lower(lower(KeyCode::F22.label_chars())) == Some(KeyCode::F22));
        },
        _ => {},
    }
}

proof fn lemma_decode_label_14(k: KeyCode)
    requires
        84 <= k.ordinal() < 90,
    ensures
        decode_lower(lower(k.label_chars())) == Some(k),
{
    match k {
        KeyCode::F23 => {
            assert(decode_lower(lower(KeyCode::F23.label_chars())) == Some(KeyCode::F23));
        },
        KeyCode::F24 => {
            assert(decode_lower(lower(KeyCode::F24.label_chars())) == Some(KeyCode::F24));
        },
        KeyCode::Numpad0 => {
            assert(decode_lower(lower(KeyCode::Numpad0.label_chars())) == Some(KeyCode::Numpad0));
        },
        KeyCode::Numpad1 => {
            assert(decode_lower(lower(KeyCode::Numpad1.label_chars())) == Some(KeyCode::Numpad1));
        },
        KeyCode::Numpad2 => {
            assert(decode_lower(lower(KeyCode::Numpad2.label_chars())) == Some(KeyCode::Numpad2));
        },
        KeyCode::Numpad3 => {
            assert(decode_lower(lower(KeyCode::Numpad3.label_chars())) == Some(KeyCode::Numpad3));
        },
        _ => {},
    }
}

proof fn lemma_decode_label_15(k: KeyCode)
    requires
        90 <= k.ordinal() < 96,
    ensures
        decode_lower(lower(k.label_chars())) == Some(k),
{
    match k {
        KeyCode::Numpad4 => {
            assert(decode_lower(lower(KeyCode::Numpad4.label_chars())) == Some(KeyCode::Numpad4));
        },
        KeyCode::Numpad5 => {
            assert(decode_lower(lower(KeyCode::Numpad5.label_chars())) == Some(KeyCode::Numpad5));
        },
        KeyCode::Numpad6 => {
            assert(decode_lower(lower(KeyCode::Numpad6.label_chars())) == Some(KeyCode::Numpad6));
        },
        KeyCode::Numpad7 => {
            assert(decode_lower(lower(KeyCode::Numpad7.label_chars())) == Some(KeyCode::Numpad7));
        },
        KeyCode::Numpad8 => {
            assert(decode_lower(lower(KeyCode::Numpad8.label_chars())) == Some(KeyCode::Numpad8));
        },
        KeyCode::Numpad9 => {
            assert(decode_lower(lower(KeyCode::Numpad9.label_chars())) == Some(KeyCode::Numpad9));
        },
        _ => {},
    }
}

proof fn lemma_decode_label_16(k: KeyCode)
    requires
        96 <= k.ordinal() < 102,
    ensures
        decode_lower(lower(k.label_chars())) == Some(k),
{
    match k {
        KeyCode::NumpadAdd => {
            assert(decode_lower(lower(KeyCode::NumpadAdd.label_chars())) == Some(KeyCode::NumpadAdd));
        },
        KeyCode::NumpadSubtract => {
            assert(decode_lower(lower(KeyCode::NumpadSubtract.label_chars())) == Some(KeyCode::NumpadSubtract));
        },
        KeyCode::NumpadMultiply => {
            assert(decode_lower(lower(KeyCode::NumpadMultiply.label_chars())) == Some(KeyCode::NumpadMultiply));
        },
        KeyCode::NumpadDivide => {
            assert(decode_lower(lower(KeyCode::NumpadDivide.label_chars())) == Some(KeyCode::NumpadDivide));
        },
        KeyCode::NumpadDecimal => {
            assert(decode_lower(lower(KeyCode::NumpadDecimal.label_chars())) == Some(KeyCode::NumpadDecimal));
        },
        KeyCode::NumpadEnter => {
            assert(decode_lower(lower(KeyCode::NumpadEnter.label_chars())) == Some(KeyCode::NumpadEnter));
        },
        _ => {},
    }
}

proof fn lemma_decode_label(k: KeyCode)
    ensures
        decode_lower(lower(k.label_chars())) == Some(k),
{
    lemma_ordinal_at(k);
    if k.ordinal() < 6 {
        lemma_decode_label_0(k);
    } else if k.ordinal() < 12 {
        lemma_decode_label_1(k);
    } else if k.ordinal() < 18 {
        lemma_decode_label_2(k);
    } else if k.ordinal() < 24 {
        lemma_decode_label_3(k);
    } else if k.ordinal() < 30 {
        lemma_decode_label_4(k);
    } else if k.ordinal() < 36 {
        lemma_decode_label_5(k);
    } else if k.ordinal() < 42 {
        lemma_decode_label_6(k);
    } else if k.ordinal() < 48 {
        lemma_decode_label_7(k);
    } else if k.ordinal() < 54 {
        lemma_decode_label_8(k);
    } else if k.ordinal() < 60 {
        lemma_decode_label_9(k);
    } else if k.ordinal() < 66 {
        lemma_decode_label_10(k);
    } else if k.ordinal() < 72 {
        lemma_decode_label_11(k);
    } else if k.ordinal() < 78 {
        lemma_decode_label_12(k);
    } else if k.ordinal() < 84 {
        lemma_decode_label_13(k);
    } else if k.ordinal() < 90 {
        lemma_decode_label_14(k);
    } else if k.ordinal() < 96 {
        lemma_decode_label_15(k);
    } else if k.ordinal() < 102 {
        lemma_decode_label_16(k);
    }
}


/// Labels differ by more than ASCII case, so a label names exactly one key.
pub proof fn lemma_labels_unique(a: KeyCode, b: KeyCode)
    requires
        lower(a.label_chars()) == lower(b.label_chars()),
    ensures
        a == b,
{
    lemma_decode_label(a);
    lemma_decode_label(b);
}

/// The lowercase modifier tokens and the modifier each names.
pub open spec fn modifier_bits(t: Seq<char>) -> u8 {
    if t == seq!['c', 't', 'r', 'l'] || t == seq!['c', 'o', 'n', 't', 'r', 'o', 'l'] {
        2
    } else if t == seq!['a', 'l', 't'] || t == seq!['o', 'p', 't', 'i', 'o', 'n'] || t == seq![
        'o',
        'p',
        't',
    ] {
        4
    } else if t == seq!['s', 'h', 'i', 'f', 't'] {
        1
    } else if t == seq!['w', 'i', 'n'] || t == seq!['c', 'm', 'd'] || t == seq![
        'c',
        'o',
        'm',
        'm',
        'a',
        'n',
        'd',
    ] || t == seq!['m', 'e', 't', 'a'] || t == seq!['s', 'u', 'p', 'e', 'r'] {
        8
    } else {
        0
    }
}

/// Shape of every label: non-empty, free of `+`, not padded by whitespace and
/// never mistaken for a modifier token.
proof fn lemma_label_shape_0(k: KeyCode)
    requires
        0 <= k.ordinal() < 6,
    ensures
        k.label_chars().len() > 0,
        forall|i: int| 0 <= i < k.label_chars().len() ==> k.label_chars()[i] != '+',
        !is_white(k.label_chars()[0]),
        !is_white(k.label_chars().last()),
        modifier_bits(lower(k.label_chars())) == 0,
{
    match k {
        KeyCode::Left => {
            assert(lower(KeyCode::Left.label_chars()).len() == 4);
            assert(lower(KeyCode::Left.label_chars())[0] != 'c');
            assert(lower(KeyCode::Left.label_chars())[0] != 'm');
        },
        KeyCode::Right => {
            assert(lower(KeyCode::Right.label_chars()).len() == 5);
            assert(lower(KeyCode::Right.label_chars())[0] != 's');
            assert(lower(KeyCode::Right.label_chars())[0] != 's');
        },
        KeyCode::Up => {
            assert(lower(KeyCode::Up.label_chars()).len() == 2);

        },
        KeyCode::Down => {
            assert(lower(KeyCode::Down.label_chars()).len() == 4);
            assert(lower(KeyCode::Down.label_chars())[0] != 'c');
            assert(lower(KeyCode::Down.label_chars())[0] != 'm');
        },
        KeyCode::Enter => {
            assert(lower(KeyCode::Enter.label_chars()).len() == 5);
            assert(lower(KeyCode::Enter.label_chars())[0] != 's');
            assert(lower(KeyCode::Enter.label_chars())[0] != 's');
        },
        KeyCode::Space => {
            assert(lower(KeyCode::Space.label_chars()).len() == 5);
            assert(lower(KeyCode::Space.label_chars())[1] != 'h');
            assert(lower(KeyCode::Space.label_chars())[1] != 'u');
        },
        _ => {},
    }
}

proof fn lemma_label_shape_1(k: KeyCode)
    requires
        6 <= k.ordinal() < 12,
    ensures
        k.label_chars().len() > 0,
        forall|i: int| 0 <= i < k.label_chars().len() ==> k.label_chars()[i] != '+',
        !is_white(k.label_chars()[0]),
        !is_white(k.label_chars().last()),
        modifier_bits(lower(k.label_chars())) == 0,
{
    match k {
        KeyCode::Backspace => {
            assert(lower(KeyCode::Backspace.label_chars()).len() == 9);

        },
        KeyCode::Delete => {
            assert(lower(KeyCode::Delete.label_chars()).len() == 6);
            assert(lower(KeyCode::Delete.label_chars())[0] != 'o');
        },
        KeyCode::Escape => {
            assert(lower(KeyCode::Escape.label_chars()).len() == 3);
            assert(lower(KeyCode::Escape.label_chars())[0] != 'a');
            assert(lower(KeyCode::Escape.label_chars())[0] != 'o');
            assert(lower(KeyCode::Escape.label_chars())[0] != 'w');
            assert(lower(KeyCode::Escape.label_chars())[0] != 'c');
        },
        KeyCode::Tab => {
            assert(lower(KeyCode::Tab.label_chars()).len() == 3);
            assert(lower(KeyCode::Tab.label_chars())[0] != 'a');
            assert(lower(KeyCode::Tab.label_chars())[0] != 'o');
            assert(lower(KeyCode::Tab.label_chars())[0] != 'w');
            assert(lower(KeyCode::Tab.label_chars())[0] != 'c');
        },
        KeyCode::Insert => {
            assert(lower(KeyCode::Insert.label_chars()).len() == 6);
            assert(lower(KeyCode::Insert.label_chars())[0] != 'o');
        },
        KeyCode::Home => {
            assert(lower(KeyCode::Home.label_chars()).len() == 4);
            assert(lower(KeyCode::Home.label_chars())[0] != 'c');
            assert(lower(KeyCode::Home.label_chars())[0] != 'm');
        },
        _ => {},
    }
}

proof fn lemma_label_shape_2(k: KeyCode)
    requires
        12 <= k.ordinal() < 18,
    ensures
        k.label_chars().len() > 0,
        forall|i: int| 0 <= i < k.label_chars().len() ==> k.label_chars()[i] != '+',
        !is_white(k.label_chars()[0]),
        !is_white(k.label_chars().last()),
        modifier_bits(lower(k.label_chars())) == 0,
{
    match k {
        KeyCode::End => {
            assert(lower(KeyCode::End.label_chars()).len() == 3);
            assert(lower(KeyCode::End.label_chars())[0] != 'a');
            assert(lower(KeyCode::End.label_chars())[0] != 'o');
            assert(lower(KeyCode::End.label_chars())[0] != 'w');
            assert(lower(KeyCode::End.label_chars())[0] != 'c');
        },
        KeyCode::PageUp => {
            assert(lower(KeyCode::PageUp.label_chars()).len() == 6);
            assert(lower(KeyCode::PageUp.label_chars())[0] != 'o');
        },
        KeyCode::PageDown => {
            assert(lower(KeyCode::PageDown.label_chars()).len() == 8);

        },
        KeyCode::A => {
            assert(lower(KeyCode::A.label_chars()).len() == 1);

        },
        KeyCode::B => {
            assert(lower(KeyCode::B.label_chars()).len() == 1);

        },
        KeyCode::C => {
            assert(lower(KeyCode::C.label_chars()).len() == 1);

        },
        _ => {},
    }
}

proof fn lemma_label_shape_3(k: KeyCode)
    requires
        18 <= k.ordinal() < 24,
    ensures
        k.label_chars().len() > 0,
        forall|i: int| 0 <= i < k.label_chars().len() ==> k.label_chars()[i] != '+',
        !is_white(k.label_chars()[0]),
        !is_white(k.label_chars().last()),
        modifier_bits(lower(k.label_chars())) == 0,
{
    match k {
        KeyCode::D => {
            assert(lower(KeyCode::D.label_chars()).len() == 1);

        },
        KeyCode::E => {
            assert(lower(KeyCode::E.label_chars()).len() == 1);

        },
        KeyCode::F => {
            assert(lower(KeyCode::F.label_chars()).len() == 1);

        },
        KeyCode::G => {
            assert(lower(KeyCode::G.label_chars()).len() == 1);

        },
        KeyCode::H => {
            assert(lower(KeyCode::H.label_chars()).len() == 1);

        },
        KeyCode::I => {
            assert(lower(KeyCode::I.label_chars()).len() == 1);

        },
        _ => {},
    }
}

proof fn lemma_label_shape_4(k: KeyCode)
    requires
        24 <= k.ordinal() < 30,
    ensures
        k.label_chars().len() > 0,
        forall|i: int| 0 <= i < k.label_chars().len() ==> k.label_chars()[i] != '+',
        !is_white(k.label_chars()[0]),
        !is_white(k.label_chars().last()),
        modifier_bits(lower(k.label_chars())) == 0,
{
    match k {
        KeyCode::J => {
            assert(lower(KeyCode::J.label_chars()).len() == 1);

        },
        KeyCode::K => {
            assert(lower(KeyCode::K.label_chars()).len() == 1);

        },
        KeyCode::L => {
            assert(lower(KeyCode::L.label_chars()).len() == 1);

        },
        KeyCode::M => {
            assert(lower(KeyCode::M.label_chars()).len() == 1);

        },
        KeyCode::N => {
            assert(lower(KeyCode::N.label_chars()).len() == 1);

        },
        KeyCode::O => {
            assert(lower(KeyCode::O.label_chars()).len() == 1);

        },
        _ => {},
    }
}

proof fn lemma_label_shape_5(k: KeyCode)
    requires
        30 <= k.ordinal() < 36,
    ensures
        k.label_chars().len() > 0,
        forall|i: int| 0 <= i < k.label_chars().len() ==> k.label_chars()[i] != '+',
        !is_white(k.label_chars()[0]),
        !is_white(k.label_chars().last()),
        modifier_bits(lower(k.label_chars())) == 0,
{
    match k {
        KeyCode::P => {
            assert(lower(KeyCode::P.label_chars()).len() == 1);

        },
        KeyCode::Q => {
            assert(lower(KeyCode::Q.label_chars()).len() == 1);

        },
        KeyCode::R => {
            assert(lower(KeyCode::R.label_chars()).len() == 1);

        },
        KeyCode::S => {
            assert(lower(KeyCode::S.label_chars()).len() == 1);

        },
        KeyCode::T => {
            assert(lower(KeyCode::T.label_chars()).len() == 1);

        },
        KeyCode::U => {
            assert(lower(KeyCode::U.label_chars()).len() == 1);

        },
        _ => {},
    }
}

proof fn lemma_label_shape_6(k: KeyCode)
    requires
        36 <= k.ordinal() < 42,
    ensures
        k.label_chars().len() > 0,
        forall|i: int| 0 <= i < k.label_chars().len() ==> k.label_chars()[i] != '+',
        !is_white(k.label_chars()[0]),
        !is_white(k.label_chars().last()),
        modifier_bits(lower(k.label_chars())) == 0,
{
    match k {
        KeyCode::V => {
            assert(lower(KeyCode::V.label_chars()).len() == 1);

        },
        KeyCode::W => {
            assert(lower(KeyCode::W.label_chars()).len() == 1);

        },
        KeyCode::X => {
            assert(lower(KeyCode::X.label_chars()).len() == 1);

        },
        KeyCode::Y => {
            assert(lower(KeyCode::Y.label_chars()).len() == 1);

        },
        KeyCode::Z => {
            assert(lower(KeyCode::Z.label_chars()).len() == 1);

        },
        KeyCode::Digit0 => {
            assert(lower(KeyCode::Digit0.label_chars()).len() == 1);

        },
        _ => {},
    }
}

proof fn lemma_label_shape_7(k: KeyCode)
    requires
        42 <= k.ordinal() < 48,
    ensures
        k.label_chars().len() > 0,
        forall|i: int| 0 <= i < k.label_chars().len() ==> k.label_chars()[i] != '+',
        !is_white(k.label_chars()[0]),
        !is_white(k.label_chars().last()),
        modifier_bits(lower(k.label_chars())) == 0,
{
    match k {
        KeyCode::Digit1 => {
            assert(lower(KeyCode::Digit1.label_chars()).len() == 1);

        },
        KeyCode::Digit2 => {
            assert(lower(KeyCode::Digit2.label_chars()).len() == 1);

        },
        KeyCode::Digit3 => {
            assert(lower(KeyCode::Digit3.label_chars()).len() == 1);

        },
        KeyCode::Digit4 => {
            assert(lower(KeyCode::Digit4.label_chars()).len() == 1);

        },
        KeyCode::Digit5 => {
            assert(lower(KeyCode::Digit5.label_chars()).len() == 1);

        },
        KeyCode::Digit6 => {
            assert(lower(KeyCode::Digit6.label_chars()).len() == 1);

        },
        _ => {},
    }
}

proof fn lemma_label_shape_8(k: KeyCode)
    requires
        48 <= k.ordinal() < 54,
    ensures
        k.label_chars().len() > 0,
        forall|i: int| 0 <= i < k.label_chars().len() ==> k.label_chars()[i] != '+',
        !is_white(k.label_chars()[0]),
        !is_white(k.label_chars().last()),
        modifier_bits(lower(k.label_chars())) == 0,
{
    match k {
        KeyCode::Digit7 => {
            assert(lower(KeyCode::Digit7.label_chars()).len() == 1);

        },
        KeyCode::Digit8 => {
            assert(lower(KeyCode::Digit8.label_chars()).len() == 1);

        },
        KeyCode::Digit9 => {
            assert(lower(KeyCode::Digit9.label_chars()).len() == 1);

        },
        KeyCode::Backtick => {
            assert(lower(KeyCode::Backtick.label_chars()).len() == 8);

        },
        KeyCode::Minus => {
            assert(lower(KeyCode::Minus.label_chars()).len() == 5);
            assert(lower(KeyCode::Minus.label_chars())[0] != 's');
            assert(lower(KeyCode::Minus.label_chars())[0] != 's');
        },
        KeyCode::Equals => {
            assert(lower(KeyCode::Equals.label_chars()).len() == 6);
            assert(lower(KeyCode::Equals.label_chars())[0] != 'o');
        },
        _ => {},
    }
}

proof fn lemma_label_shape_9(k: KeyCode)
    requires
        54 <= k.ordinal() < 60,
    ensures
        k.label_chars().len() > 0,
        forall|i: int| 0 <= i < k.label_chars().len() ==> k.label_chars()[i] != '+',
        !is_white(k.label_chars()[0]),
        !is_white(k.label_chars().last()),
        modifier_bits(lower(k.label_chars())) == 0,
{
    match k {
        KeyCode::LeftBracket => {
            assert(lower(KeyCode::LeftBracket.label_chars()).len() == 11);

        },
        KeyCode::RightBracket => {
            assert(lower(KeyCode::RightBracket.label_chars()).len() == 12);

        },
        KeyCode::Backslash => {
            assert(lower(KeyCode::Backslash.label_chars()).len() == 9);

        },
        KeyCode::Semicolon => {
            assert(lower(KeyCode::Semicolon.label_chars()).len() == 9);

        },
        KeyCode::Quote => {
            assert(lower(KeyCode::Quote.label_chars()).len() == 5);
            assert(lower(KeyCode::Quote.label_chars())[0] != 's');
            assert(lower(KeyCode::Quote.label_chars())[0] != 's');
        },
        KeyCode::Comma => {
            assert(lower(KeyCode::Comma.label_chars()).len() == 5);
            assert(lower(KeyCode::Comma.label_chars())[0] != 's');
            assert(lower(KeyCode::Comma.label_chars())[0] != 's');
        },
        _ => {},
    }
}

proof fn lemma_label_shape_10(k: KeyCode)
    requires
        60 <= k.ordinal() < 66,
    ensures
        k.label_chars().len() > 0,
        forall|i: int| 0 <= i < k.label_chars().len() ==> k.label_chars()[i] != '+',
        !is_white(k.label_chars()[0]),
        !is_white(k.label_chars().last()),
        modifier_bits(lower(k.label_chars())) == 0,
{
    match k {
        KeyCode::Period => {
            assert(lower(KeyCode::Period.label_chars()).len() == 6);
            assert(lower(KeyCode::Period.label_chars())[0] != 'o');
        },
        KeyCode::Slash => {
            assert(lower(KeyCode::Slash.label_chars()).len() == 5);
            assert(lower(KeyCode::Slash.label_chars())[1] != 'h');
            assert(lower(KeyCode::Slash.label_chars())[1] != 'u');
        },
        KeyCode::F1 => {
            assert(lower(KeyCode::F1.label_chars()).len() == 2);

        },
        KeyCode::F2 => {
            assert(lower(KeyCode::F2.label_chars()).len() == 2);

        },
        KeyCode::F3 => {
            assert(lower(KeyCode::F3.label_chars()).len() == 2);

        },
        KeyCode::F4 => {
            assert(lower(KeyCode::F4.label_chars()).len() == 2);

        },
        _ => {},
    }
}

proof fn lemma_label_shape_11(k: KeyCode)
    requires
        66 <= k.ordinal() < 72,
    ensures
        k.label_chars().len() > 0,
        forall|i: int| 0 <= i < k.label_chars().len() ==> k.label_chars()[i] != '+',
        !is_white(k.label_chars()[0]),
        !is_white(k.label_chars().last()),
        modifier_bits(lower(k.label_chars())) == 0,
{
    match k {
        KeyCode::F5 => {
            assert(lower(KeyCode::F5.label_chars()).len() == 2);

        },
        KeyCode::F6 => {
            assert(lower(KeyCode::F6.label_chars()).len() == 2);

        },
        KeyCode::F7 => {
            assert(lower(KeyCode::F7.label_chars()).len() == 2);

        },
        KeyCode::F8 => {
            assert(lower(KeyCode::F8.label_chars()).len() == 2);

        },
        KeyCode::F9 => {
            assert(lower(KeyCode::F9.label_chars()).len() == 2);

        },
        KeyCode::F10 => {
            assert(lower(KeyCode::F10.label_chars()).len() == 3);
            assert(lower(KeyCode::F10.label_chars())[0] != 'a');
            assert(lower(KeyCode::F10.label_chars())[0] != 'o');
            assert(lower(KeyCode::F10.label_chars())[0] != 'w');
            assert(lower(KeyCode::F10.label_chars())[0] != 'c');
        },
        _ => {},
    }
}

proof fn lemma_label_shape_12(k: KeyCode)
    requires
        72 <= k.ordinal() < 78,
    ensures
        k.label_chars().len() > 0,
        forall|i: int| 0 <= i < k.label_chars().len() ==> k.label_chars()[i] != '+',
        !is_white(k.label_chars()[0]),
        !is_white(k.label_chars().last()),
        modifier_bits(lower(k.label_chars())) == 0,
{
    match k {
        KeyCode::F11 => {
            assert(lower(KeyCode::F11.label_chars()).len() == 3);
            assert(lower(KeyCode::F11.label_chars())[0] != 'a');
            assert(lower(KeyCode::F11.label_chars())[0] != 'o');
            assert(lower(KeyCode::F11.label_chars())[0] != 'w');
            assert(lower(KeyCode::F11.label_chars())[0] != 'c');
        },
        KeyCode::F12 => {
            assert(lower(KeyCode::F12.label_chars()).len() == 3);
            assert(lower(KeyCode::F12.label_chars())[0] != 'a');
            assert(lower(KeyCode::F12.label_chars())[0] != 'o');
            assert(lower(KeyCode::F12.label_chars())[0] != 'w');
            assert(lower(KeyCode::F12.label_chars())[0] != 'c');
        },
        KeyCode::F13 => {
            assert(lower(KeyCode::F13.label_chars()).len() == 3);
            assert(lower(KeyCode::F13.label_chars())[0] != 'a');
            assert(lower(KeyCode::F13.label_chars())[0] != 'o');
            assert(lower(KeyCode::F13.label_chars())[0] != 'w');
            assert(lower(KeyCode::F13.label_chars())[0] != 'c');
        },
        KeyCode::F14 => {
            assert(lower(KeyCode::F14.label_chars()).len() == 3);
            assert(lower(KeyCode::F14.label_chars())[0] != 'a');
            assert(lower(KeyCode::F14.label_chars())[0] != 'o');
            assert(lower(KeyCode::F14.label_chars())[0] != 'w');
            assert(lower(KeyCode::F14.label_chars())[0] != 'c');
        },
        KeyCode::F15 => {
            assert(lower(KeyCode::F15.label_chars()).len() == 3);
            assert(lower(KeyCode::F15.label_chars())[0] != 'a');
            assert(lower(KeyCode::F15.label_chars())[0] != 'o');
            assert(lower(KeyCode::F15.label_chars())[0] != 'w');
            assert(lower(KeyCode::F15.label_chars())[0] != 'c');
        },
        KeyCode::F16 => {
            assert(lower(KeyCode::F16.label_chars()).len() == 3);
            assert(lower(KeyCode::F16.label_chars())[0] != 'a');
            assert(lower(KeyCode::F16.label_chars())[0] != 'o');
            assert(lower(KeyCode::F16.label_chars())[0] != 'w');
            assert(lower(KeyCode::F16.label_chars())[0] != 'c');
        },
        _ => {},
    }
}

proof fn lemma_label_shape_13(k: KeyCode)
    requires
        78 <= k.ordinal() < 84,
    ensures
        k.label_chars().len() > 0,
        forall|i: int| 0 <= i < k.label_chars().len() ==> k.label_chars()[i] != '+',
        !is_white(k.label_chars()[0]),
        !is_white(k.label_chars().last()),
        modifier_bits(lower(k.label_chars())) == 0,
{
    match k {
        KeyCode::F17 => {
            assert(lower(KeyCode::F17.label_chars()).len() == 3);
            assert(lower(KeyCode::F17.label_chars())[0] != 'a');
            assert(lower(KeyCode::F17.label_chars())[0] != 'o');
            assert(lower(KeyCode::F17.label_chars())[0] != 'w');
            assert(lower(KeyCode::F17.label_chars())[0] != 'c');
        },
        KeyCode::F18 => {
            assert(lower(KeyCode::F18.label_chars()).len() == 3);
            assert(lower(KeyCode::F18.label_chars())[0] != 'a');
            assert(lower(KeyCode::F18.label_chars())[0] != 'o');
            assert(lower(KeyCode::F18.label_chars())[0] != 'w');
            assert(lower(KeyCode::F18.label_chars())[0] != 'c');
        },
        KeyCode::F19 => {
            assert(lower(KeyCode::F19.label_chars()).len() == 3);
            assert(lower(KeyCode::F19.label_chars())[0] != 'a');
            assert(lower(KeyCode::F19.label_chars())[0] != 'o');
            assert(lower(KeyCode::F19.label_chars())[0] != 'w');
            assert(lower(KeyCode::F19.label_chars())[0] != 'c');
        },
        KeyCode::F20 => {
            assert(lower(KeyCode::F20.label_chars()).len() == 3);
            assert(lower(KeyCode::F20.label_chars())[0] != 'a');
            assert(lower(KeyCode::F20.label_chars())[0] != 'o');
            assert(lower(KeyCode::F20.label_chars())[0] != 'w');
            assert(lower(KeyCode::F20.label_chars())[0] != 'c');
        },
        KeyCode::F21 => {
            assert(lower(KeyCode::F21.label_chars()).len() == 3);
            assert(lower(KeyCode::F21.label_chars())[0] != 'a');
            assert(lower(KeyCode::F21.label_chars())[0] != 'o');
            assert(lower(KeyCode::F21.label_chars())[0] != 'w');
            assert(lower(KeyCode::F21.label_chars())[0] != 'c');
        },
        KeyCode::F22 => {
            assert(lower(KeyCode::F22.label_chars()).len() == 3);
            assert(lower(KeyCode::F22.label_chars())[0] != 'a');
            assert(lower(KeyCode::F22.label_chars())[0] != 'o');
            assert(lower(KeyCode::F22.label_chars())[0] != 'w');
            assert(lower(KeyCode::F22.label_chars())[0] != 'c');
        },
        _ => {},
    }
}

proof fn lemma_label_shape_14(k: KeyCode)
    requires
        84 <= k.ordinal() < 90,
    ensures
        k.label_chars().len() > 0,
        forall|i: int| 0 <= i < k.label_chars().len() ==> k.label_chars()[i] != '+',
        !is_white(k.label_chars()[0]),
        !is_white(k.label_chars().last()),
        modifier_bits(lower(k.label_chars())) == 0,
{
    match k {
        KeyCode::F23 => {
            assert(lower(KeyCode::F23.label_chars()).len() == 3);
            assert(lower(KeyCode::F23.label_chars())[0] != 'a');
            assert(lower(KeyCode::F23.label_chars())[0] != 'o');
            assert(lower(KeyCode::F23.label_chars())[0] != 'w');
            assert(lower(KeyCode::F23.label_chars())[0] != 'c');
        },
        KeyCode::F24 => {
            assert(lower(KeyCode::F24.label_chars()).len() == 3);
            assert(lower(KeyCode::F24.label_chars())[0] != 'a');
            assert(lower(KeyCode::F24.label_chars())[0] != 'o');
            assert(lower(KeyCode::F24.label_chars())[0] != 'w');
            assert(lower(KeyCode::F24.label_chars())[0] != 'c');
        },
        KeyCode::Numpad0 => {
            assert(lower(KeyCode::Numpad0.label_chars()).len() == 4);
            assert(lower(KeyCode::Numpad0.label_chars())[0] != 'c');
            assert(lower(KeyCode::Numpad0.label_chars())[0] != 'm');
        },
        KeyCode::Numpad1 => {
            assert(lower(KeyCode::Numpad1.label_chars()).len() == 4);
            assert(lower(KeyCode::Numpad1.label_chars())[0] != 'c');
            assert(lower(KeyCode::Numpad1.label_chars())[0] != 'm');
        },
        KeyCode::Numpad2 => {
            assert(lower(KeyCode::Numpad2.label_chars()).len() == 4);
            assert(lower(KeyCode::Numpad2.label_chars())[0] != 'c');
            assert(lower(KeyCode::Numpad2.label_chars())[0] != 'm');
        },
        KeyCode::Numpad3 => {
            assert(lower(KeyCode::Numpad3.label_chars()).len() == 4);
            assert(lower(KeyCode::Numpad3.label_chars())[0] != 'c');
            assert(lower(KeyCode::Numpad3.label_chars())[0] != 'm');
        },
        _ => {},
    }
}

proof fn lemma_label_shape_15(k: KeyCode)
    requires
        90 <= k.ordinal() < 96,
    ensures
        k.label_chars().len() > 0,
        forall|i: int| 0 <= i < k.label_chars().len() ==> k.label_chars()[i] != '+',
        !is_white(k.label_chars()[0]),
        !is_white(k.label_chars().last()),
        modifier_bits(lower(k.label_chars())) == 0,
{
    match k {
        KeyCode::Numpad4 => {
            assert(lower(KeyCode::Numpad4.label_chars()).len() == 4);
            assert(lower(KeyCode::Numpad4.label_chars())[0] != 'c');
            assert(lower(KeyCode::Numpad4.label_chars())[0] != 'm');
        },
        KeyCode::Numpad5 => {
            assert(lower(KeyCode::Numpad5.label_chars()).len() == 4);
            assert(lower(KeyCode::Numpad5.label_chars())[0] != 'c');
            assert(lower(KeyCode::Numpad5.label_chars())[0] != 'm');
        },
        KeyCode::Numpad6 => {
            assert(lower(KeyCode::Numpad6.label_chars()).len() == 4);
            assert(lower(KeyCode::Numpad6.label_chars())[0] != 'c');
            assert(lower(KeyCode::Numpad6.label_chars())[0] != 'm');
        },
        KeyCode::Numpad7 => {
            assert(lower(KeyCode::Numpad7.label_chars()).len() == 4);
            assert(lower(KeyCode::Numpad7.label_chars())[0] != 'c');
            assert(lower(KeyCode::Numpad7.label_chars())[0] != 'm');
        },
        KeyCode::Numpad8 => {
            assert(lower(KeyCode::Numpad8.label_chars()).len() == 4);
            assert(lower(KeyCode::Numpad8.label_chars())[0] != 'c');
            assert(lower(KeyCode::Numpad8.label_chars())[0] != 'm');
        },
        KeyCode::Numpad9 => {
            assert(lower(KeyCode::Numpad9.label_chars()).len() == 4);
            assert(lower(KeyCode::Numpad9.label_chars())[0] != 'c');
            assert(lower(KeyCode::Numpad9.label_chars())[0] != 'm');
        },
        _ => {},
    }
}

proof fn lemma_label_shape_16(k: KeyCode)
    requires
        96 <= k.ordinal() < 102,
    ensures
        k.label_chars().len() > 0,
        forall|i: int| 0 <= i < k.label_chars().len() ==> k.label_chars()[i] != '+',
        !is_white(k.label_chars()[0]),
        !is_white(k.label_chars().last()),
        modifier_bits(lower(k.label_chars())) == 0,
{
    match k {
        KeyCode::NumpadAdd => {
            assert(lower(KeyCode::NumpadAdd.label_chars()).len() == 6);
            assert(lower(KeyCode::NumpadAdd.label_chars())[0] != 'o');
        },
        KeyCode::NumpadSubtract => {
            assert(lower(KeyCode::NumpadSubtract.label_chars()).len() == 11);

        },
        KeyCode::NumpadMultiply => {
            assert(lower(KeyCode::NumpadMultiply.label_chars()).len() == 11);

        },
        KeyCode::NumpadDivide => {
            assert(lower(KeyCode::NumpadDivide.label_chars()).len() == 9);

        },
        KeyCode::NumpadDecimal => {
            assert(lower(KeyCode::NumpadDecimal.label_chars()).len() == 10);

        },
        KeyCode::NumpadEnter => {
            assert(lower(KeyCode::NumpadEnter.label_chars()).len() == 8);

        },
        _ => {},
    }
}

/// Shape of every label: non-empty, free of `+`, not padded by whitespace and
/// never mistaken for a modifier token.
pub proof fn lemma_label_shape(k: KeyCode)
    ensures
        k.label_chars().len() > 0,
        forall|i: int| 0 <= i < k.label_chars().len() ==> k.label_chars()[i] != '+',
        !is_white(k.label_chars()[0]),
        !is_white(k.label_chars().last()),
        modifier_bits(lower(k.label_chars())) == 0,
{
    lemma_ordinal_at(k);
    if k.ordinal() < 6 {
        lemma_label_shape_0(k);
    } else if k.ordinal() < 12 {
        lemma_label_shape_1(k);
    } else if k.ordinal() < 18 {
        lemma_label_shape_2(k);
    } else if k.ordinal() < 24 {
        lemma_label_shape_3(k);
    } else if k.ordinal() < 30 {
        lemma_label_shape_4(k);
    } else if k.ordinal() < 36 {
        lemma_label_shape_5(k);
    } else if k.ordinal() < 42 {
        lemma_label_shape_6(k);
    } else if k.ordinal() < 48 {
        lemma_label_shape_7(k);
    } else if k.ordinal() < 54 {
        lemma_label_shape_8(k);
    } else if k.ordinal() < 60 {
        lemma_label_shape_9(k);
    } else if k.ordinal() < 66 {
        lemma_label_shape_10(k);
    } else if k.ordinal() < 72 {
        lemma_label_shape_11(k);
    } else if k.ordinal() < 78 {
        lemma_label_shape_12(k);
    } else if k.ordinal() < 84 {
        lemma_label_shape_13(k);
    } else if k.ordinal() < 90 {
        lemma_label_shape_14(k);
    } else if k.ordinal() < 96 {
        lemma_label_shape_15(k);
    } else if k.ordinal() < 102 {
        lemma_label_shape_16(k);
    }
}


/// The modifier bits `lower` names, or 0 when it is not a modifier token.
fn modifier_token(lower: &Vec<char>) -> (r: u8)
    ensures
        r == modifier_bits(lower@),
{
    let t: &[char] = lower.as_slice();
    if chars_eq(t, &['c', 't', 'r', 'l']) || chars_eq(t, &['c', 'o', 'n', 't', 'r', 'o', 'l']) {
        2
    } else if chars_eq(t, &['a', 'l', 't']) || chars_eq(t, &['o', 'p', 't', 'i', 'o', 'n'])
        || chars_eq(t, &['o', 'p', 't']) {
        4
    } else if chars_eq(t, &['s', 'h', 'i', 'f', 't']) {
        1
    } else if chars_eq(t, &['w', 'i', 'n']) || chars_eq(t, &['c', 'm', 'd']) || chars_eq(
        t,
        &['c', 'o', 'm', 'm', 'a', 'n', 'd'],
    ) || chars_eq(t, &['m', 'e', 't', 'a']) || chars_eq(t, &['s', 'u', 'p', 'e', 'r']) {
        8
    } else {
        0
    }
}

/// The key whose label equals `token` ignoring ASCII case, if any.
pub open spec fn key_for_token(token: Seq<char>) -> Option<KeyCode> {
    if exists|k: KeyCode| lower(#[trigger] k.label_chars()) == lower(token) {
        Some(choose|k: KeyCode| lower(#[trigger] k.label_chars()) == lower(token))
    } else {
        None
    }
}

/// Looks `token` up among the key labels, ignoring ASCII case.
pub fn key_from_token(token: &Vec<char>) -> (r: Option<KeyCode>)
    ensures
        r == key_for_token(token@),
{
    let wanted = lower_chars(token);
    let mut i: usize = 0;
    while i < KeyCode::COUNT
        invariant
            wanted@ == lower(token@),
            i <= KeyCode::COUNT,
            forall|j: int| 0 <= j < i ==> lower(KeyCode::at(j).label_chars()) != lower(token@),
        decreases KeyCode::COUNT - i,
    {
        let k = KeyCode::from_ordinal(i);
        let label = chars_of(k.label());
        let low = lower_chars(&label);
        if chars_eq(low.as_slice(), wanted.as_slice()) {
            proof {
                let c = choose|c: KeyCode| lower(#[trigger] c.label_chars()) == lower(token@);
                lemma_labels_unique(c, k);
            }
            return Some(k);
        }
        i = i + 1;
    }
    proof {
        assert forall|k: KeyCode| lower(#[trigger] k.label_chars()) != lower(token@) by {
            lemma_ordinal_at(k);
            assert(lower(KeyCode::at(k.ordinal()).label_chars()) != lower(token@));
        }
    }
    None
}

/// A modifier combination plus a key.
#[derive(Debug, Clone, Copy, PartialEq, Eq, Hash, Structural)]
pub struct Hotkey {
    pub modifiers: Modifiers,
    pub key: KeyCode,
}

/// Error returned when parsing a hotkey string such as `"Ctrl+Alt+Left"`.
#[derive(Debug, Clone, PartialEq, Eq)]
pub enum ParseHotkeyError {
    /// No key token was found.
    Empty,
    /// A token names neither a modifier nor a key; carries the token.
    UnknownToken(String),
    /// A key was found but no modifier.
    NoModifier,
}

/// How the `META` modifier is spelled when a hotkey is rendered.
#[derive(Debug, Clone, Copy, PartialEq, Eq, Structural)]
pub enum MetaStyle {
    /// `Win+`, the spelling on Windows and other non-Apple hosts.
    Win,
    /// `Cmd+`, the spelling on macOS.
    Cmd,
}

/// The outcome of reading the tokens of a hotkey string left to right: the
/// modifier bits and the last key seen, or the first unknown token.
pub open spec fn scan(pieces: Seq<Seq<char>>) -> Result<(u8, Option<KeyCode>), Seq<char>>
    decreases pieces.len(),
{
    if pieces.len() == 0 {
        Ok((0u8, None))
    } else {
        match scan(pieces.drop_last()) {
            Err(t) => Err(t),
            Ok((m, k)) => scan_token(m, k, trim(pieces.last())),
        }
    }
}

/// One step of [`scan`] on an already trimmed token.
pub open spec fn scan_token(m: u8, k: Option<KeyCode>, t: Seq<char>) -> Result<
    (u8, Option<KeyCode>),
    Seq<char>,
> {
    if t.len() == 0 {
        Ok((m, k))
    } else if modifier_bits(lower(t)) != 0 {
        Ok((m | modifier_bits(lower(t)), k))
    } else {
        match key_for_token(t) {
            Some(key) => Ok((m, Some(key))),
            None => Err(t),
        }
    }
}

/// The hotkey a string denotes, when it denotes one.
pub open spec fn parsed(s: Seq<char>) -> Option<Hotkey> {
    match scan(split_on(s, '+')) {
        Ok((m, Some(k))) => if m != 0 {
            Some(Hotkey { modifiers: Modifiers(m), key: k })
        } else {
            None
        },
        _ => None,
    }
}

proof fn lemma_scan_err_persists(ps: Seq<Seq<char>>, i: int, t: Seq<char>)
    requires
        0 <= i <= ps.len(),
        scan(ps.take(i)) == Err::<(u8, Option<KeyCode>), Seq<char>>(t),
    ensures
        scan(ps) == Err::<(u8, Option<KeyCode>), Seq<char>>(t),
    decreases ps.len() - i,
{
    if i < ps.len() {
        assert(ps.take(i + 1).drop_last() =~= ps.take(i));
        lemma_scan_err_persists(ps, i + 1, t);
    } else {
        assert(ps.take(i) =~= ps);
    }
}

/// The modifier names `h` is rendered with, in order.
pub open spec fn modifier_names(m: Modifiers, style: MetaStyle) -> Seq<Seq<char>> {
    let s0 = Seq::<Seq<char>>::empty();
    let s1 = if m.0 & 2 == 2 {
        s0.push(seq!['C', 't', 'r', 'l'])
    } else {
        s0
    };
    let s2 = if m.0 & 4 == 4 {
        s1.push(seq!['A', 'l', 't'])
    } else {
        s1
    };
    let s3 = if m.0 & 1 == 1 {
        s2.push(seq!['S', 'h', 'i', 'f', 't'])
    } else {
        s2
    };
    if m.0 & 8 == 8 {
        s3.push(
            match style {
                MetaStyle::Win => seq!['W', 'i', 'n'],
                MetaStyle::Cmd => seq!['C', 'm', 'd'],
            },
        )
    } else {
        s3
    }
}

/// Each token followed by `+`.
pub open spec fn joined(ts: Seq<Seq<char>>) -> Seq<char>
    decreases ts.len(),
{
    if ts.len() == 0 {
        Seq::<char>::empty()
    } else {
        joined(ts.drop_last()) + ts.last() + seq!['+']
    }
}

proof fn lemma_joined_push(ts: Seq<Seq<char>>, t: Seq<char>)
    ensures
        joined(ts.push(t)) == joined(ts) + t + seq!['+'],
{
    assert(ts.push(t).drop_last() =~= ts);
}

/// The text of `h`: its modifier names, each followed by `+`, then the key's
/// label, e.g. `Ctrl+Alt+Left`.
pub open spec fn rendered(h: Hotkey, style: MetaStyle) -> Seq<char> {
    joined(modifier_names(h.modifiers, style)) + h.key.label_chars()
}

impl Hotkey {
    pub fn new(modifiers: Modifiers, key: KeyCode) -> (r: Self)
        ensures
            r == (Hotkey { modifiers, key }),
    {
        Hotkey { modifiers, key }
    }

    /// A hotkey with no modifiers would swallow ordinary typing, so it is
    /// rejected at the configuration boundary.
    pub fn is_valid(&self) -> (r: bool)
        ensures
            r == (self.modifiers.0 != 0),
    {
        !self.modifiers.is_empty()
    }

    /// True when this hotkey uses the Windows / Command key.
    pub fn uses_meta(&self) -> (r: bool)
        ensures
            r == (self.modifiers.0 & 8 == 8),
    {
        self.modifiers.contains(Modifiers::meta())
    }

    /// Renders the hotkey in the conventional order, e.g. `Ctrl+Alt+Left`,
    /// spelling the meta modifier as `style` asks.
    pub fn render(&self, style: MetaStyle) -> (s: String)
        ensures
            s@ == rendered(*self, style),
    {
        let m = self.modifiers;
        let mut s = String::new();
        let ghost names = Seq::<Seq<char>>::empty();
        if m.contains(Modifiers::control()) {
            proof {
                reveal_strlit("Ctrl+");
            }
            s.append("Ctrl+");
            proof {
                assert(names.push(seq!['C', 't', 'r', 'l']).drop_last() =~= names);
                lemma_joined_push(names, seq!['C', 't', 'r', 'l']);
                names = names.push(seq!['C', 't', 'r', 'l']);
            }
        }
        assert(s@ =~= joined(names));
        if m.contains(Modifiers::alt()) {
            proof {
                reveal_strlit("Alt+");
                assert(names.push(seq!['A', 'l', 't']).drop_last() =~= names);
            }
            s.append("Alt+");
            proof {
                lemma_joined_push(names, seq!['A', 'l', 't']);
                names = names.push(seq!['A', 'l', 't']);
            }
        }
        assert(s@ =~= joined(names));
        if m.contains(Modifiers::shift()) {
            proof {
                reveal_strlit("Shift+");
                assert(names.push(seq!['S', 'h', 'i', 'f', 't']).drop_last() =~= names);
            }
            s.append("Shift+");
            proof {
                lemma_joined_push(names, seq!['S', 'h', 'i', 'f', 't']);
                names = names.push(seq!['S', 'h', 'i', 'f', 't']);
            }
        }
        assert(s@ =~= joined(names));
        if m.contains(Modifiers::meta()) {
            match style {
                MetaStyle::Win => {
                    proof {
                        reveal_strlit("Win+");
                        assert(names.push(seq!['W', 'i', 'n']).drop_last() =~= names);
                    }
                    s.append("Win+");
                    proof {
                        lemma_joined_push(names, seq!['W', 'i', 'n']);
                names = names.push(seq!['W', 'i', 'n']);
                    }
                },
                MetaStyle::Cmd => {
                    proof {
                        reveal_strlit("Cmd+");
                        assert(names.push(seq!['C', 'm', 'd']).drop_last() =~= names);
                    }
                    s.append("Cmd+");
                    proof {
                        lemma_joined_push(names, seq!['C', 'm', 'd']);
                names = names.push(seq!['C', 'm', 'd']);
                    }
                },
            }
        }
        assert(s@ =~= joined(names));
        assert(names == modifier_names(m, style));
        s.append(self.key.label());
        s
    }

    /// The text form used on Windows and other non-Apple hosts.
    pub fn to_string(&self) -> (s: String)
        ensures
            s@ == rendered(*self, MetaStyle::Win),
    {
        self.render(MetaStyle::Win)
    }

    /// Parses text such as `"Ctrl+Alt+Left"`.
    ///
    /// The text is split on `+`; each piece is trimmed and empty pieces are
    /// skipped. A piece naming a modifier (`ctrl`/`control`, `alt`/`option`/
    /// `opt`, `shift`, `win`/`cmd`/`command`/`meta`/`super`, in any ASCII case)
    /// adds it; any other piece must be a key label, ignoring ASCII case, and
    /// the last one wins. The first piece that is neither is reported as
    /// [`ParseHotkeyError::UnknownToken`]; with no key the result is
    /// [`ParseHotkeyError::Empty`], and with a key but no modifier it is
    /// [`ParseHotkeyError::NoModifier`].
    pub fn parse(s: &str) -> (r: Result<Hotkey, ParseHotkeyError>)
        ensures
            match scan(split_on(s@, '+')) {
                Err(t) => r matches Err(ParseHotkeyError::UnknownToken(u)) && u@ == t,
                Ok((m, None)) => r == Err::<Hotkey, ParseHotkeyError>(ParseHotkeyError::Empty),
                Ok((m, Some(k))) => if m == 0 {
                    r == Err::<Hotkey, ParseHotkeyError>(ParseHotkeyError::NoModifier)
                } else {
                    r == Ok::<Hotkey, ParseHotkeyError>(
                        Hotkey { modifiers: Modifiers(m), key: k },
                    )
                },
            },
            r is Ok <==> parsed(s@) is Some,
            r matches Ok(h) ==> parsed(s@) == Some(h),
    {
        let chars = chars_of(s);
        let pieces = split_chars(&chars, '+');
        let ghost ps = pieces_view(pieces@);
        let mut mods: u8 = 0;
        let mut key: Option<KeyCode> = None;
        let mut i: usize = 0;
        assert(ps.take(0) =~= Seq::<Seq<char>>::empty());
        while i < pieces.len()
            invariant
                ps == pieces_view(pieces@),
                ps == split_on(s@, '+'),
                i <= pieces.len(),
                scan(ps.take(i as int)) == Ok::<(u8, Option<KeyCode>), Seq<char>>((mods, key)),
            decreases pieces.len() - i,
        {
            let t = trim_chars(&pieces[i]);
            proof {
                assert(ps.take(i + 1).drop_last() =~= ps.take(i as int));
                assert(ps.take(i + 1).last() == pieces@[i as int]@);
            }
            if t.len() > 0 {
                let low = lower_chars(&t);
                let bits = modifier_token(&low);
                if bits != 0 {
                    mods = mods | bits;
                } else {
                    match key_from_token(&t) {
                        Some(k) => {
                            key = Some(k);
                        },
                        None => {
                            proof {
                                lemma_scan_err_persists(ps, i + 1, t@);
                            }
                            return Err(ParseHotkeyError::UnknownToken(string_from_chars(&t)));
                        },
                    }
                }
            }
            i = i + 1;
        }
        assert(ps.take(pieces.len() as int) =~= ps);
        match key {
            None => Err(ParseHotkeyError::Empty),
            Some(k) => {
                if mods == 0 {
                    Err(ParseHotkeyError::NoModifier)
                } else {
                    Ok(Hotkey::new(Modifiers(mods), k))
                }
            },
        }
    }
}

impl core::str::FromStr for Hotkey {
    type Err = ParseHotkeyError;

    /// The same as [`Hotkey::parse`].
    fn from_str(s: &str) -> (r: Result<Self, Self::Err>)
        ensures
            match scan(split_on(s@, '+')) {
                Err(t) => r matches Err(ParseHotkeyError::UnknownToken(u)) && u@ == t,
                Ok((m, None)) => r == Err::<Hotkey, ParseHotkeyError>(ParseHotkeyError::Empty),
                Ok((m, Some(k))) => if m == 0 {
                    r == Err::<Hotkey, ParseHotkeyError>(ParseHotkeyError::NoModifier)
                } else {
                    r == Ok::<Hotkey, ParseHotkeyError>(
                        Hotkey { modifiers: Modifiers(m), key: k },
                    )
                },
            },
            r is Ok <==> parsed(s@) is Some,
            r matches Ok(h) ==> parsed(s@) == Some(h),
    {
        Hotkey::parse(s)
    }
}

proof fn lemma_split_no_sep(a: Seq<char>, b: Seq<char>, sep: char)
    requires
        forall|i: int| 0 <= i < b.len() ==> b[i] != sep,
    ensures
        split_on(a + b, sep) == split_on(a, sep).update(
            split_on(a, sep).len() - 1,
            split_on(a, sep).last() + b,
        ),
    decreases b.len(),
{
    crate::text::lemma_split_on_nonempty(a, sep);
    let s = split_on(a, sep);
    if b.len() == 0 {
        assert(a + b =~= a);
        assert(s.last() + b =~= s.last());
        assert(s.update(s.len() - 1, s.last() + b) =~= s);
    } else {
        let b2 = b.drop_last();
        lemma_split_no_sep(a, b2, sep);
        assert((a + b).drop_last() =~= a + b2);
        assert((a + b).last() == b.last());
        assert((s.last() + b2).push(b.last()) =~= s.last() + b);
        assert(s.update(s.len() - 1, s.last() + b2).update(
            s.len() - 1,
            (s.last() + b2).push(b.last()),
        ) =~= s.update(s.len() - 1, s.last() + b));
    }
}

proof fn lemma_split_joined(ts: Seq<Seq<char>>, last: Seq<char>)
    requires
        forall|i: int, j: int| 0 <= i < ts.len() && 0 <= j < ts[i].len() ==> ts[i][j] != '+',
        forall|j: int| 0 <= j < last.len() ==> last[j] != '+',
    ensures
        split_on(joined(ts) + last, '+') == ts.push(last),
    decreases ts.len(),
{
    if ts.len() == 0 {
        lemma_split_no_sep(Seq::<char>::empty(), last, '+');
        assert(joined(ts) + last =~= Seq::<char>::empty() + last);
        assert(Seq::<char>::empty() + last =~= last);
        assert(seq![Seq::<char>::empty()].update(0, Seq::<char>::empty() + last) =~= ts.push(
            last,
        ));
    } else {
        let ts2 = ts.drop_last();
        let t = ts.last();
        assert forall|i: int, j: int|
            0 <= i < ts2.len() && 0 <= j < ts2[i].len() implies ts2[i][j] != '+' by {
            assert(ts2[i] == ts[i]);
        }
        assert(forall|j: int| 0 <= j < t.len() ==> t[j] != '+');
        lemma_split_joined(ts2, t);
        let a = joined(ts2) + t;
        assert(joined(ts) + last =~= (a + seq!['+']) + last);
        lemma_split_no_sep(a + seq!['+'], last, '+');
        assert((a + seq!['+']).drop_last() =~= a);
        assert(split_on(a + seq!['+'], '+') == ts2.push(t).push(Seq::<char>::empty()));
        assert(Seq::<char>::empty() + last =~= last);
        assert(ts2.push(t) =~= ts);
        assert(ts.push(Seq::<char>::empty()).update(ts.len() as int, Seq::<char>::empty() + last)
            =~= ts.push(last));
    }
}

proof fn lemma_scan_push(ps: Seq<Seq<char>>, t: Seq<char>)
    ensures
        scan(ps.push(t)) == match scan(ps) {
            Err(e) => Err(e),
            Ok((m, k)) => scan_token(m, k, trim(t)),
        },
{
    assert(ps.push(t).drop_last() =~= ps);
}

proof fn lemma_trim_plain(s: Seq<char>)
    requires
        s.len() > 0,
        !is_white(s[0]),
        !is_white(s.last()),
    ensures
        trim(s) == s,
{
}

/// Each modifier name reads back as its own modifier.
proof fn lemma_modifier_names_read_back()
    ensures
        trim(seq!['C', 't', 'r', 'l']) == seq!['C', 't', 'r', 'l'],
        modifier_bits(lower(seq!['C', 't', 'r', 'l'])) == 2,
        trim(seq!['A', 'l', 't']) == seq!['A', 'l', 't'],
        modifier_bits(lower(seq!['A', 'l', 't'])) == 4,
        trim(seq!['S', 'h', 'i', 'f', 't']) == seq!['S', 'h', 'i', 'f', 't'],
        modifier_bits(lower(seq!['S', 'h', 'i', 'f', 't'])) == 1,
        trim(seq!['W', 'i', 'n']) == seq!['W', 'i', 'n'],
        modifier_bits(lower(seq!['W', 'i', 'n'])) == 8,
        trim(seq!['C', 'm', 'd']) == seq!['C', 'm', 'd'],
        modifier_bits(lower(seq!['C', 'm', 'd'])) == 8,
{
    lemma_trim_plain(seq!['C', 't', 'r', 'l']);
    lemma_trim_plain(seq!['A', 'l', 't']);
    lemma_trim_plain(seq!['S', 'h', 'i', 'f', 't']);
    lemma_trim_plain(seq!['W', 'i', 'n']);
    lemma_trim_plain(seq!['C', 'm', 'd']);
    assert(lower(seq!['C', 't', 'r', 'l']) =~= seq!['c', 't', 'r', 'l']);
    assert(lower(seq!['A', 'l', 't']) =~= seq!['a', 'l', 't']);
    assert(lower(seq!['S', 'h', 'i', 'f', 't']) =~= seq!['s', 'h', 'i', 'f', 't']);
    assert(lower(seq!['W', 'i', 'n']) =~= seq!['w', 'i', 'n']);
    assert(lower(seq!['C', 'm', 'd']) =~= seq!['c', 'm', 'd']);
}

/// The bits the modifier names of `m` add up to, in rendering order.
pub open spec fn name_bits(m: u8) -> u8 {
    let a: u8 = if m & 2 == 2 {
        0u8 | 2u8
    } else {
        0u8
    };
    let b: u8 = if m & 4 == 4 {
        a | 4u8
    } else {
        a
    };
    let c: u8 = if m & 1 == 1 {
        b | 1u8
    } else {
        b
    };
    if m & 8 == 8 {
        c | 8u8
    } else {
        c
    }
}

proof fn lemma_name_bits(m: u8)
    requires
        m < 16,
    ensures
        name_bits(m) == m,
{
    assert(m < 16 ==> (if m & 8 == 8 {
        (if m & 1 == 1 {
            (if m & 4 == 4 {
                (if m & 2 == 2 {
                    0u8 | 2u8
                } else {
                    0u8
                }) | 4u8
            } else {
                (if m & 2 == 2 {
                    0u8 | 2u8
                } else {
                    0u8
                })
            }) | 1u8
        } else {
            (if m & 4 == 4 {
                (if m & 2 == 2 {
                    0u8 | 2u8
                } else {
                    0u8
                }) | 4u8
            } else {
                (if m & 2 == 2 {
                    0u8 | 2u8
                } else {
                    0u8
                })
            })
        }) | 8u8
    } else {
        (if m & 1 == 1 {
            (if m & 4 == 4 {
                (if m & 2 == 2 {
                    0u8 | 2u8
                } else {
                    0u8
                }) | 4u8
            } else {
                (if m & 2 == 2 {
                    0u8 | 2u8
                } else {
                    0u8
                })
            }) | 1u8
        } else {
            (if m & 4 == 4 {
                (if m & 2 == 2 {
                    0u8 | 2u8
                } else {
                    0u8
                }) | 4u8
            } else {
                (if m & 2 == 2 {
                    0u8 | 2u8
                } else {
                    0u8
                })
            })
        })
    }) == m) by (bit_vector);
}

proof fn lemma_scan_names(m: Modifiers, style: MetaStyle)
    ensures
        scan(modifier_names(m, style)) == Ok::<(u8, Option<KeyCode>), Seq<char>>(
            (name_bits(m.0), None),
        ),
        forall|i: int, j: int|
            0 <= i < modifier_names(m, style).len() && 0 <= j < modifier_names(
                m,
                style,
            )[i].len() ==> modifier_names(m, style)[i][j] != '+',
{
    lemma_modifier_names_read_back();
    let s0 = Seq::<Seq<char>>::empty();
    let s1 = if m.0 & 2 == 2 {
        s0.push(seq!['C', 't', 'r', 'l'])
    } else {
        s0
    };
    let s2 = if m.0 & 4 == 4 {
        s1.push(seq!['A', 'l', 't'])
    } else {
        s1
    };
    let s3 = if m.0 & 1 == 1 {
        s2.push(seq!['S', 'h', 'i', 'f', 't'])
    } else {
        s2
    };
    let meta = match style {
        MetaStyle::Win => seq!['W', 'i', 'n'],
        MetaStyle::Cmd => seq!['C', 'm', 'd'],
    };
    lemma_scan_push(s0, seq!['C', 't', 'r', 'l']);
    lemma_scan_push(s1, seq!['A', 'l', 't']);
    lemma_scan_push(s2, seq!['S', 'h', 'i', 'f', 't']);
    lemma_scan_push(s3, meta);
    let names = modifier_names(m, style);
    assert forall|i: int, j: int|
        0 <= i < names.len() && 0 <= j < names[i].len() implies names[i][j] != '+' by {
        if m.0 & 8 == 8 && i == s3.len() {
            assert(names[i] == meta);
        } else {
            assert(names[i] == s3[i]);
            if m.0 & 1 == 1 && i == s2.len() {
            } else {
                assert(s3[i] == s2[i]);
                if m.0 & 4 == 4 && i == s1.len() {
                } else {
                    assert(s2[i] == s1[i]);
                }
            }
        }
    }
}

/// Round trip: rendering a hotkey and parsing the text back yields the same
/// hotkey, whichever spelling of the meta modifier is used, for every hotkey
/// with at least one modifier and no bits beyond the four known modifiers.
pub proof fn lemma_render_parse_roundtrip(h: Hotkey, style: MetaStyle)
    requires
        h.modifiers.0 != 0,
        h.modifiers.0 < 16,
    ensures
        scan(split_on(rendered(h, style), '+')) == Ok::<(u8, Option<KeyCode>), Seq<char>>(
            (h.modifiers.0, Some(h.key)),
        ),
        parsed(rendered(h, style)) == Some(h),
{
    let names = modifier_names(h.modifiers, style);
    let label = h.key.label_chars();
    lemma_scan_names(h.modifiers, style);
    lemma_label_shape(h.key);
    lemma_split_joined(names, label);
    lemma_scan_push(names, label);
    lemma_trim_plain(label);
    lemma_name_bits(h.modifiers.0);
    assert(lower(h.key.label_chars()) == lower(label));
    let c = choose|c: KeyCode| lower(#[trigger] c.label_chars()) == lower(label);
    lemma_labels_unique(c, h.key);
    assert(key_for_token(label) == Some(h.key));
}

/// A token whose lowercase form is all ASCII lowercase letters is itself
/// letters: free of `+` and of whitespace.
proof fn lemma_letters_shape(a: Seq<char>)
    requires
        a.len() > 0,
        forall|i: int| 0 <= i < a.len() ==> 'a' <= #[trigger] lower(a)[i] && lower(a)[i] <= 'z',
    ensures
        forall|i: int| 0 <= i < a.len() ==> #[trigger] a[i] != '+',
        !is_white(a[0]),
        !is_white(a.last()),
{
    assert forall|i: int| 0 <= i < a.len() implies ('a' <= #[trigger] a[i] && a[i] <= 'z') || ('A'
        <= a[i] && a[i] <= 'Z') by {
        assert(lower(a)[i] == ascii_lower(a[i]));
        assert('a' <= lower(a)[i] && lower(a)[i] <= 'z');
    };
    assert(('a' <= a[0] && a[0] <= 'z') || ('A' <= a[0] && a[0] <= 'Z'));
    assert(('a' <= a[a.len() - 1] && a[a.len() - 1] <= 'z') || ('A' <= a[a.len() - 1] && a[a.len()
        - 1] <= 'Z'));
}

/// A modifier token followed by `+` and a key's label reads as that key
/// with the token's modifier.
proof fn lemma_token_then_key(a: Seq<char>, k: KeyCode)
    requires
        a.len() > 0,
        forall|i: int| 0 <= i < a.len() ==> #[trigger] a[i] != '+',
        !is_white(a[0]),
        !is_white(a.last()),
        modifier_bits(lower(a)) != 0,
    ensures
        parsed(a + seq!['+'] + k.label_chars()) == Some(
            Hotkey { modifiers: Modifiers(modifier_bits(lower(a))), key: k },
        ),
{
    let label = k.label_chars();
    let ts = seq![a];
    let empty = Seq::<Seq<char>>::empty();
    lemma_label_shape(k);
    assert(empty.push(a) =~= ts);
    lemma_joined_push(empty, a);
    assert(joined(empty) == Seq::<char>::empty());
    assert(joined(ts) =~= a + seq!['+']);
    assert forall|i: int, j: int| 0 <= i < ts.len() && 0 <= j < ts[i].len() implies ts[i][j] != '+' by {
        assert(ts[i] == a);
    };
    lemma_split_joined(ts, label);
    assert(split_on(a + seq!['+'] + label, '+') == ts.push(label));
    lemma_scan_push(empty, a);
    assert(empty.push(a) =~= ts);
    lemma_trim_plain(a);
    let b: u8 = modifier_bits(lower(a));
    assert(0u8 | b == b) by (bit_vector);
    assert(scan(ts) == Ok::<(u8, Option<KeyCode>), Seq<char>>((b, None)));
    lemma_scan_push(ts, label);
    lemma_trim_plain(label);
    let c = choose|c: KeyCode| lower(#[trigger] c.label_chars()) == lower(label);
    lemma_labels_unique(c, k);
    assert(key_for_token(label) == Some(k));
    assert(scan(ts.push(label)) == Ok::<(u8, Option<KeyCode>), Seq<char>>((b, Some(k))));
}

/// Every documented modifier alias, in any ASCII case, reads as its own
/// modifier: `ctrl`/`control` as Ctrl (2), `alt`/`option`/`opt` as Alt (4),
/// `shift` as Shift (1), and `win`/`cmd`/`command`/`meta`/`super` as the
/// Win/Cmd modifier (8), in front of any key, as in `Command+Left`; no other
/// token is a modifier.
pub proof fn lemma_modifier_aliases(a: Seq<char>, k: KeyCode)
    ensures
        lower(a) == seq!['c', 't', 'r', 'l'] || lower(a) == seq!['c', 'o', 'n', 't', 'r', 'o', 'l']
            ==> parsed(a + seq!['+'] + k.label_chars()) == Some(
            Hotkey { modifiers: Modifiers(2), key: k },
        ),
        lower(a) == seq!['a', 'l', 't'] || lower(a) == seq!['o', 'p', 't', 'i', 'o', 'n'] || lower(a)
            == seq!['o', 'p', 't'] ==> parsed(a + seq!['+'] + k.label_chars()) == Some(
            Hotkey { modifiers: Modifiers(4), key: k },
        ),
        lower(a) == seq!['s', 'h', 'i', 'f', 't'] ==> parsed(a + seq!['+'] + k.label_chars()) == Some(
            Hotkey { modifiers: Modifiers(1), key: k },
        ),
        lower(a) == seq!['w', 'i', 'n'] || lower(a) == seq!['c', 'm', 'd'] || lower(a) == seq![
            'c',
            'o',
            'm',
            'm',
            'a',
            'n',
            'd',
        ] || lower(a) == seq!['m', 'e', 't', 'a'] || lower(a) == seq!['s', 'u', 'p', 'e', 'r'] ==> parsed(
            a + seq!['+'] + k.label_chars(),
        ) == Some(Hotkey { modifiers: Modifiers(8), key: k }),
        !(lower(a) == seq!['c', 't', 'r', 'l'] || lower(a) == seq!['c', 'o', 'n', 't', 'r', 'o', 'l']
            || lower(a) == seq!['a', 'l', 't'] || lower(a) == seq!['o', 'p', 't', 'i', 'o', 'n']
            || lower(a) == seq!['o', 'p', 't'] || lower(a) == seq!['s', 'h', 'i', 'f', 't'] || lower(a)
            == seq!['w', 'i', 'n'] || lower(a) == seq!['c', 'm', 'd'] || lower(a) == seq![
            'c',
            'o',
            'm',
            'm',
            'a',
            'n',
            'd',
        ] || lower(a) == seq!['m', 'e', 't', 'a'] || lower(a) == seq!['s', 'u', 'p', 'e', 'r'])
            ==> modifier_bits(lower(a)) == 0,
{
    let l = lower(a);
    if modifier_bits(l) != 0 {
        assert(l.len() == a.len());
        assert forall|i: int| 0 <= i < a.len() implies 'a' <= #[trigger] lower(a)[i] && lower(a)[i]
            <= 'z' by {
            assert(l[i] == lower(a)[i]);
        };
        lemma_letters_shape(a);
        lemma_token_then_key(a, k);
    }
}

} // verus!
