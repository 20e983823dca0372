//! Pure helpers of the macOS backend: the Carbon key and modifier tables and
//! the filter over the CoreGraphics window list.

use vstd::prelude::*;

use crate::hotkey::{KeyCode, Modifiers};

verus! {

/// The Carbon virtual key code (`kVK_*`) of each key; `F21`-`F24` have none.
pub open spec fn carbon_code_of(k: KeyCode) -> Option<u32> {
    match k {
            KeyCode::Left => Some(0x7Bu32),
            KeyCode::Right => Some(0x7Cu32),
            KeyCode::Up => Some(0x7Eu32),
            KeyCode::Down => Some(0x7Du32),
            KeyCode::Enter => Some(0x24u32),
            KeyCode::Space => Some(0x31u32),
            KeyCode::Backspace => Some(0x33u32),
            KeyCode::Delete => Some(0x75u32),
            KeyCode::Escape => Some(0x35u32),
            KeyCode::Tab => Some(0x30u32),
            KeyCode::Insert => Some(0x72u32),
            KeyCode::Home => Some(0x73u32),
            KeyCode::End => Some(0x77u32),
            KeyCode::PageUp => Some(0x74u32),
            KeyCode::PageDown => Some(0x79u32),
            KeyCode::A => Some(0x00u32),
            KeyCode::B => Some(0x0Bu32),
            KeyCode::C => Some(0x08u32),
            KeyCode::D => Some(0x02u32),
            KeyCode::E => Some(0x0Eu32),
            KeyCode::F => Some(0x03u32),
            KeyCode::G => Some(0x05u32),
            KeyCode::H => Some(0x04u32),
            KeyCode::I => Some(0x22u32),
            KeyCode::J => Some(0x26u32),
            KeyCode::K => Some(0x28u32),
            KeyCode::L => Some(0x25u32),
            KeyCode::M => Some(0x2Eu32),
            KeyCode::N => Some(0x2Du32),
            KeyCode::O => Some(0x1Fu32),
            KeyCode::P => Some(0x23u32),
            KeyCode::Q => Some(0x0Cu32),
            KeyCode::R => Some(0x0Fu32),
            KeyCode::S => Some(0x01u32),
            KeyCode::T => Some(0x11u32),
            KeyCode::U => Some(0x20u32),
            KeyCode::V => Some(0x09u32),
            KeyCode::W => Some(0x0Du32),
            KeyCode::X => Some(0x07u32),
            KeyCode::Y => Some(0x10u32),
            KeyCode::Z => Some(0x06u32),
            KeyCode::Digit0 => Some(0x1Du32),
            KeyCode::Digit1 => Some(0x12u32),
            KeyCode::Digit2 => Some(0x13u32),
            KeyCode::Digit3 => Some(0x14u32),
            KeyCode::Digit4 => Some(0x15u32),
            KeyCode::Digit5 => Some(0x17u32),
            KeyCode::Digit6 => Some(0x16u32),
            KeyCode::Digit7 => Some(0x1Au32),
            KeyCode::Digit8 => Some(0x1Cu32),
            KeyCode::Digit9 => Some(0x19u32),
            KeyCode::Backtick => Some(0x32u32),
            KeyCode::Minus => Some(0x1Bu32),
            KeyCode::Equals => Some(0x18u32),
            KeyCode::LeftBracket => Some(0x21u32),
            KeyCode::RightBracket => Some(0x1Eu32),
            KeyCode::Backslash => Some(0x2Au32),
            KeyCode::Semicolon => Some(0x29u32),
            KeyCode::Quote => Some(0x27u32),
            KeyCode::Comma => Some(0x2Bu32),
            KeyCode::Period => Some(0x2Fu32),
            KeyCode::Slash => Some(0x2Cu32),
            KeyCode::F1 => Some(0x7Au32),
            KeyCode::F2 => Some(0x78u32),
            KeyCode::F3 => Some(0x63u32),
            KeyCode::F4 => Some(0x76u32),
            KeyCode::F5 => Some(0x60u32),
            KeyCode::F6 => Some(0x61u32),
            KeyCode::F7 => Some(0x62u32),
            KeyCode::F8 => Some(0x64u32),
            KeyCode::F9 => Some(0x65u32),
            KeyCode::F10 => Some(0x6Du32),
            KeyCode::F11 => Some(0x67u32),
            KeyCode::F12 => Some(0x6Fu32),
            KeyCode::F13 => Some(0x69u32),
            KeyCode::F14 => Some(0x6Bu32),
            KeyCode::F15 => Some(0x71u32),
            KeyCode::F16 => Some(0x6Au32),
            KeyCode::F17 => Some(0x40u32),
            KeyCode::F18 => Some(0x4Fu32),
            KeyCode::F19 => Some(0x50u32),
            KeyCode::F20 => Some(0x5Au32),
            KeyCode::F21 => None,
            KeyCode::F22 => None,
            KeyCode::F23 => None,
            KeyCode::F24 => None,
            KeyCode::Numpad0 => Some(0x52u32),
            KeyCode::Numpad1 => Some(0x53u32),
            KeyCode::Numpad2 => Some(0x54u32),
            KeyCode::Numpad3 => Some(0x55u32),
            KeyCode::Numpad4 => Some(0x56u32),
            KeyCode::Numpad5 => Some(0x57u32),
            KeyCode::Numpad6 => Some(0x58u32),
            KeyCode::Numpad7 => Some(0x59u32),
            KeyCode::Numpad8 => Some(0x5Bu32),
            KeyCode::Numpad9 => Some(0x5Cu32),
            KeyCode::NumpadAdd => Some(0x45u32),
            KeyCode::NumpadSubtract => Some(0x4Eu32),
            KeyCode::NumpadMultiply => Some(0x43u32),
            KeyCode::NumpadDivide => Some(0x4Bu32),
            KeyCode::NumpadDecimal => Some(0x41u32),
            KeyCode::NumpadEnter => Some(0x4Cu32),
    }
}

/// Maps a [`KeyCode`] to its Carbon virtual key code, or `None` for the keys
/// Carbon's table has no code for (`F21`-`F24`).
pub fn carbon_key_code(key: KeyCode) -> (r: Option<u32>)
    ensures
        r == carbon_code_of(key),
{
    match key {
            KeyCode::Left => Some(0x7B),
            KeyCode::Right => Some(0x7C),
            KeyCode::Up => Some(0x7E),
            KeyCode::Down => Some(0x7D),
            KeyCode::Enter => Some(0x24),
            KeyCode::Space => Some(0x31),
            KeyCode::Backspace => Some(0x33),
            KeyCode::Delete => Some(0x75),
            KeyCode::Escape => Some(0x35),
            KeyCode::Tab => Some(0x30),
            KeyCode::Insert => Some(0x72),
            KeyCode::Home => Some(0x73),
            KeyCode::End => Some(0x77),
            KeyCode::PageUp => Some(0x74),
            KeyCode::PageDown => Some(0x79),
            KeyCode::A => Some(0x00),
            KeyCode::B => Some(0x0B),
            KeyCode::C => Some(0x08),
            KeyCode::D => Some(0x02),
            KeyCode::E => Some(0x0E),
            KeyCode::F => Some(0x03),
            KeyCode::G => Some(0x05),
            KeyCode::H => Some(0x04),
            KeyCode::I => Some(0x22),
            KeyCode::J => Some(0x26),
            KeyCode::K => Some(0x28),
            KeyCode::L => Some(0x25),
            KeyCode::M => Some(0x2E),
            KeyCode::N => Some(0x2D),
            KeyCode::O => Some(0x1F),
            KeyCode::P => Some(0x23),
            KeyCode::Q => Some(0x0C),
            KeyCode::R => Some(0x0F),
            KeyCode::S => Some(0x01),
            KeyCode::T => Some(0x11),
            KeyCode::U => Some(0x20),
            KeyCode::V => Some(0x09),
            KeyCode::W => Some(0x0D),
            KeyCode::X => Some(0x07),
            KeyCode::Y => Some(0x10),
            KeyCode::Z => Some(0x06),
            KeyCode::Digit0 => Some(0x1D),
            KeyCode::Digit1 => Some(0x12),
            KeyCode::Digit2 => Some(0x13),
            KeyCode::Digit3 => Some(0x14),
            KeyCode::Digit4 => Some(0x15),
            KeyCode::Digit5 => Some(0x17),
            KeyCode::Digit6 => Some(0x16),
            KeyCode::Digit7 => Some(0x1A),
            KeyCode::Digit8 => Some(0x1C),
            KeyCode::Digit9 => Some(0x19),
            KeyCode::Backtick => Some(0x32),
            KeyCode::Minus => Some(0x1B),
            KeyCode::Equals => Some(0x18),
            KeyCode::LeftBracket => Some(0x21),
            KeyCode::RightBracket => Some(0x1E),
            KeyCode::Backslash => Some(0x2A),
            KeyCode::Semicolon => Some(0x29),
            KeyCode::Quote => Some(0x27),
            KeyCode::Comma => Some(0x2B),
            KeyCode::Period => Some(0x2F),
            KeyCode::Slash => Some(0x2C),
            KeyCode::F1 => Some(0x7A),
            KeyCode::F2 => Some(0x78),
            KeyCode::F3 => Some(0x63),
            KeyCode::F4 => Some(0x76),
            KeyCode::F5 => Some(0x60),
            KeyCode::F6 => Some(0x61),
            KeyCode::F7 => Some(0x62),
            KeyCode::F8 => Some(0x64),
            KeyCode::F9 => Some(0x65),
            KeyCode::F10 => Some(0x6D),
            KeyCode::F11 => Some(0x67),
            KeyCode::F12 => Some(0x6F),
            KeyCode::F13 => Some(0x69),
            KeyCode::F14 => Some(0x6B),
            KeyCode::F15 => Some(0x71),
            KeyCode::F16 => Some(0x6A),
            KeyCode::F17 => Some(0x40),
            KeyCode::F18 => Some(0x4F),
            KeyCode::F19 => Some(0x50),
            KeyCode::F20 => Some(0x5A),
            KeyCode::F21 => None,
            KeyCode::F22 => None,
            KeyCode::F23 => None,
            KeyCode::F24 => None,
            KeyCode::Numpad0 => Some(0x52),
            KeyCode::Numpad1 => Some(0x53),
            KeyCode::Numpad2 => Some(0x54),
            KeyCode::Numpad3 => Some(0x55),
            KeyCode::Numpad4 => Some(0x56),
            KeyCode::Numpad5 => Some(0x57),
            KeyCode::Numpad6 => Some(0x58),
            KeyCode::Numpad7 => Some(0x59),
            KeyCode::Numpad8 => Some(0x5B),
            KeyCode::Numpad9 => Some(0x5C),
            KeyCode::NumpadAdd => Some(0x45),
            KeyCode::NumpadSubtract => Some(0x4E),
            KeyCode::NumpadMultiply => Some(0x43),
            KeyCode::NumpadDivide => Some(0x4B),
            KeyCode::NumpadDecimal => Some(0x41),
            KeyCode::NumpadEnter => Some(0x4C),
    }
}

/// Inverse of the Carbon key table.
pub open spec fn carbon_decode(c: u32) -> Option<KeyCode> {
    if c == 0x00 {
        Some(KeyCode::A)
    } else if c == 0x01 {
        Some(KeyCode::S)
    } else if c == 0x02 {
        Some(KeyCode::D)
    } else if c == 0x03 {
        Some(KeyCode::F)
    } else if c == 0x04 {
        Some(KeyCode::H)
    } else if c == 0x05 {
        Some(KeyCode::G)
    } else if c == 0x06 {
        Some(KeyCode::Z)
    } else if c == 0x07 {
        Some(KeyCode::X)
    } else if c == 0x08 {
        Some(KeyCode::C)
    } else if c == 0x09 {
        Some(KeyCode::V)
    } else if c == 0x0B {
        Some(KeyCode::B)
    } else if c == 0x0C {
        Some(KeyCode::Q)
    } else if c == 0x0D {
        Some(KeyCode::W)
    } else if c == 0x0E {
        Some(KeyCode::E)
    } else if c == 0x0F {
        Some(KeyCode::R)
    } else if c == 0x10 {
        Some(KeyCode::Y)
    } else if c == 0x11 {
        Some(KeyCode::T)
    } else if c == 0x12 {
        Some(KeyCode::Digit1)
    } else if c == 0x13 {
        Some(KeyCode::Digit2)
    } else if c == 0x14 {
        Some(KeyCode::Digit3)
    } else if c == 0x15 {
        Some(KeyCode::Digit4)
    } else if c == 0x16 {
        Some(KeyCode::Digit6)
    } else if c == 0x17 {
        Some(KeyCode::Digit5)
    } else if c == 0x18 {
        Some(KeyCode::Equals)
    } else if c == 0x19 {
        Some(KeyCode::Digit9)
    } else if c == 0x1A {
        Some(KeyCode::Digit7)
    } else if c == 0x1B {
        Some(KeyCode::Minus)
    } else if c == 0x1C {
        Some(KeyCode::Digit8)
    } else if c == 0x1D {
        Some(KeyCode::Digit0)
    } else if c == 0x1E {
        Some(KeyCode::RightBracket)
    } else if c == 0x1F {
        Some(KeyCode::O)
    } else if c == 0x20 {
        Some(KeyCode::U)
    } else if c == 0x21 {
        Some(KeyCode::LeftBracket)
    } else if c == 0x22 {
        Some(KeyCode::I)
    } else if c == 0x23 {
        Some(KeyCode::P)
    } else if c == 0x24 {
        Some(KeyCode::Enter)
    } else if c == 0x25 {
        Some(KeyCode::L)
    } else if c == 0x26 {
        Some(KeyCode::J)
    } else if c == 0x27 {
        Some(KeyCode::Quote)
    } else if c == 0x28 {
        Some(KeyCode::K)
    } else if c == 0x29 {
        Some(KeyCode::Semicolon)
    } else if c == 0x2A {
        Some(KeyCode::Backslash)
    } else if c == 0x2B {
        Some(KeyCode::Comma)
    } else if c == 0x2C {
        Some(KeyCode::Slash)
    } else if c == 0x2D {
        Some(KeyCode::N)
    } else if c == 0x2E {
        Some(KeyCode::M)
    } else if c == 0x2F {
        Some(KeyCode::Period)
    } else if c == 0x30 {
        Some(KeyCode::Tab)
    } else if c == 0x31 {
        Some(KeyCode::Space)
    } else if c == 0x32 {
        Some(KeyCode::Backtick)
    } else if c == 0x33 {
        Some(KeyCode::Backspace)
    } else if c == 0x35 {
        Some(KeyCode::Escape)
    } else if c == 0x40 {
        Some(KeyCode::F17)
    } else if c == 0x41 {
        Some(KeyCode::NumpadDecimal)
    } else if c == 0x43 {
        Some(KeyCode::NumpadMultiply)
    } else if c == 0x45 {
        Some(KeyCode::NumpadAdd)
    } else if c == 0x4B {
        Some(KeyCode::NumpadDivide)
    } else if c == 0x4C {
        Some(KeyCode::NumpadEnter)
    } else if c == 0x4E {
        Some(KeyCode::NumpadSubtract)
    } else if c == 0x4F {
        Some(KeyCode::F18)
    } else if c == 0x50 {
        Some(KeyCode::F19)
    } else if c == 0x52 {
        Some(KeyCode::Numpad0)
    } else if c == 0x53 {
        Some(KeyCode::Numpad1)
    } else if c == 0x54 {
        Some(KeyCode::Numpad2)
    } else if c == 0x55 {
        Some(KeyCode::Numpad3)
    } else if c == 0x56 {
        Some(KeyCode::Numpad4)
    } else if c == 0x57 {
        Some(KeyCode::Numpad5)
    } else if c == 0x58 {
        Some(KeyCode::Numpad6)
    } else if c == 0x59 {
        Some(KeyCode::Numpad7)
    } else if c == 0x5A {
        Some(KeyCode::F20)
    } else if c == 0x5B {
        Some(KeyCode::Numpad8)
    } else if c == 0x5C {
        Some(KeyCode::Numpad9)
    } else if c == 0x60 {
        Some(KeyCode::F5)
    } else if c == 0x61 {
        Some(KeyCode::F6)
    } else if c == 0x62 {
        Some(KeyCode::F7)
    } else if c == 0x63 {
        Some(KeyCode::F3)
    } else if c == 0x64 {
        Some(KeyCode::F8)
    } else if c == 0x65 {
        Some(KeyCode::F9)
    } else if c == 0x67 {
        Some(KeyCode::F11)
    } else if c == 0x69 {
        Some(KeyCode::F13)
    } else if c == 0x6A {
        Some(KeyCode::F16)
    } else if c == 0x6B {
        Some(KeyCode::F14)
    } else if c == 0x6D {
        Some(KeyCode::F10)
    } else if c == 0x6F {
        Some(KeyCode::F12)
    } else if c == 0x71 {
        Some(KeyCode::F15)
    } else if c == 0x72 {
        Some(KeyCode::Insert)
    } else if c == 0x73 {
        Some(KeyCode::Home)
    } else if c == 0x74 {
        Some(KeyCode::PageUp)
    } else if c == 0x75 {
        Some(KeyCode::Delete)
    } else if c == 0x76 {
        Some(KeyCode::F4)
    } else if c == 0x77 {
        Some(KeyCode::End)
    } else if c == 0x78 {
        Some(KeyCode::F2)
    } else if c == 0x79 {
        Some(KeyCode::PageDown)
    } else if c == 0x7A {
        Some(KeyCode::F1)
    } else if c == 0x7B {
        Some(KeyCode::Left)
    } else if c == 0x7C {
        Some(KeyCode::Right)
    } else if c == 0x7D {
        Some(KeyCode::Down)
    } else if c == 0x7E {
        Some(KeyCode::Up)
    } else {
        None
    }
}

proof fn lemma_carbon_decode_0(k: KeyCode)
    requires
        0 <= k.ordinal() < 10,
    ensures
        carbon_code_of(k) matches Some(c) ==> carbon_decode(c) == Some(k),
{
    match k {
        KeyCode::Left => {},
        KeyCode::Right => {},
        KeyCode::Up => {},
        KeyCode::Down => {},
        KeyCode::Enter => {},
        KeyCode::Space => {},
        KeyCode::Backspace => {},
        KeyCode::Delete => {},
        KeyCode::Escape => {},
        KeyCode::Tab => {},
        _ => {},
    }
}

proof fn lemma_carbon_decode_1(k: KeyCode)
    requires
        10 <= k.ordinal() < 20,
    ensures
        carbon_code_of(k) matches Some(c) ==> carbon_decode(c) == Some(k),
{
    match k {
        KeyCode::Insert => {},
        KeyCode::Home => {},
        KeyCode::End => {},
        KeyCode::PageUp => {},
        KeyCode::PageDown => {},
        KeyCode::A => {},
        KeyCode::B => {},
        KeyCode::C => {},
        KeyCode::D => {},
        KeyCode::E => {},
        _ => {},
    }
}

proof fn lemma_carbon_decode_2(k: KeyCode)
    requires
        20 <= k.ordinal() < 30,
    ensures
        carbon_code_of(k) matches Some(c) ==> carbon_decode(c) == Some(k),
{
    match k {
        KeyCode::F => {},
        KeyCode::G => {},
        KeyCode::H => {},
        KeyCode::I => {},
        KeyCode::J => {},
        KeyCode::K => {},
        KeyCode::L => {},
        KeyCode::M => {},
        KeyCode::N => {},
        KeyCode::O => {},
        _ => {},
    }
}

proof fn lemma_carbon_decode_3(k: KeyCode)
    requires
        30 <= k.ordinal() < 40,
    ensures
        carbon_code_of(k) matches Some(c) ==> carbon_decode(c) == Some(k),
{
    match k {
        KeyCode::P => {},
        KeyCode::Q => {},
        KeyCode::R => {},
        KeyCode::S => {},
        KeyCode::T => {},
        KeyCode::U => {},
        KeyCode::V => {},
        KeyCode::W => {},
        KeyCode::X => {},
        KeyCode::Y => {},
        _ => {},
    }
}

proof fn lemma_carbon_decode_4(k: KeyCode)
    requires
        40 <= k.ordinal() < 50,
    ensures
        carbon_code_of(k) matches Some(c) ==> carbon_decode(c) == Some(k),
{
    match k {
        KeyCode::Z => {},
        KeyCode::Digit0 => {},
        KeyCode::Digit1 => {},
        KeyCode::Digit2 => {},
        KeyCode::Digit3 => {},
        KeyCode::Digit4 => {},
        KeyCode::Digit5 => {},
        KeyCode::Digit6 => {},
        KeyCode::Digit7 => {},
        KeyCode::Digit8 => {},
        _ => {},
    }
}

proof fn lemma_carbon_decode_5(k: KeyCode)
    requires
        50 <= k.ordinal() < 60,
    ensures
        carbon_code_of(k) matches Some(c) ==> carbon_decode(c) == Some(k),
{
    match k {
        KeyCode::Digit9 => {},
        KeyCode::Backtick => {},
        KeyCode::Minus => {},
        KeyCode::Equals => {},
        KeyCode::LeftBracket => {},
        KeyCode::RightBracket => {},
        KeyCode::Backslash => {},
        KeyCode::Semicolon => {},
        KeyCode::Quote => {},
        KeyCode::Comma => {},
        _ => {},
    }
}

proof fn lemma_carbon_decode_6(k: KeyCode)
    requires
        60 <= k.ordinal() < 70,
    ensures
        carbon_code_of(k) matches Some(c) ==> carbon_decode(c) == Some(k),
{
    match k {
        KeyCode::Period => {},
        KeyCode::Slash => {},
        KeyCode::F1 => {},
        KeyCode::F2 => {},
        KeyCode::F3 => {},
        KeyCode::F4 => {},
        KeyCode::F5 => {},
        KeyCode::F6 => {},
        KeyCode::F7 => {},
        KeyCode::F8 => {},
        _ => {},
    }
}

proof fn lemma_carbon_decode_7(k: KeyCode)
    requires
        70 <= k.ordinal() < 80,
    ensures
        carbon_code_of(k) matches Some(c) ==> carbon_decode(c) == Some(k),
{
    match k {
        KeyCode::F9 => {},
        KeyCode::F10 => {},
        KeyCode::F11 => {},
        KeyCode::F12 => {},
        KeyCode::F13 => {},
        KeyCode::F14 => {},
        KeyCode::F15 => {},
        KeyCode::F16 => {},
        KeyCode::F17 => {},
        KeyCode::F18 => {},
        _ => {},
    }
}

proof fn lemma_carbon_decode_8(k: KeyCode)
    requires
        80 <= k.ordinal() < 90,
    ensures
        carbon_code_of(k) matches Some(c) ==> carbon_decode(c) == Some(k),
{
    match k {
        KeyCode::F19 => {},
        KeyCode::F20 => {},
        KeyCode::F21 => {},
        KeyCode::F22 => {},
        KeyCode::F23 => {},
        KeyCode::F24 => {},
        KeyCode::Numpad0 => {},
        KeyCode::Numpad1 => {},
        KeyCode::Numpad2 => {},
        KeyCode::Numpad3 => {},
        _ => {},
    }
}

proof fn lemma_carbon_decode_9(k: KeyCode)
    requires
        90 <= k.ordinal() < 100,
    ensures
        carbon_code_of(k) matches Some(c) ==> carbon_decode(c) == Some(k),
{
    match k {
        KeyCode::Numpad4 => {},
        KeyCode::Numpad5 => {},
        KeyCode::Numpad6 => {},
        KeyCode::Numpad7 => {},
        KeyCode::Numpad8 => {},
        KeyCode::Numpad9 => {},
        KeyCode::NumpadAdd => {},
        KeyCode::NumpadSubtract => {},
        KeyCode::NumpadMultiply => {},
        KeyCode::NumpadDivide => {},
        _ => {},
    }
}

proof fn lemma_carbon_decode_10(k: KeyCode)
    requires
        100 <= k.ordinal() < 102,
    ensures
        carbon_code_of(k) matches Some(c) ==> carbon_decode(c) == Some(k),
{
    match k {
        KeyCode::NumpadDecimal => {},
        KeyCode::NumpadEnter => {},
        _ => {},
    }
}

proof fn lemma_carbon_decode(k: KeyCode)
    ensures
        carbon_code_of(k) matches Some(c) ==> carbon_decode(c) == Some(k),
{
    crate::hotkey::lemma_ordinal_at(k);
    if k.ordinal() < 10 {
        lemma_carbon_decode_0(k);
    } else if k.ordinal() < 20 {
        lemma_carbon_decode_1(k);
    } else if k.ordinal() < 30 {
        lemma_carbon_decode_2(k);
    } else if k.ordinal() < 40 {
        lemma_carbon_decode_3(k);
    } else if k.ordinal() < 50 {
        lemma_carbon_decode_4(k);
    } else if k.ordinal() < 60 {
        lemma_carbon_decode_5(k);
    } else if k.ordinal() < 70 {
        lemma_carbon_decode_6(k);
    } else if k.ordinal() < 80 {
        lemma_carbon_decode_7(k);
    } else if k.ordinal() < 90 {
        lemma_carbon_decode_8(k);
    } else if k.ordinal() < 100 {
        lemma_carbon_decode_9(k);
    } else if k.ordinal() < 102 {
        lemma_carbon_decode_10(k);
    }
}

/// No two keys share a Carbon key code, so one physical shortcut can never
/// fire two different Tile keys.
pub proof fn lemma_carbon_codes_unique(a: KeyCode, b: KeyCode)
    requires
        carbon_code_of(a) is Some,
        carbon_code_of(a) == carbon_code_of(b),
    ensures
        a == b,
{
    lemma_carbon_decode(a);
    lemma_carbon_decode(b);
}

/// Exactly `F21`-`F24` lack a Carbon key code.
pub proof fn lemma_carbon_unmapped(k: KeyCode)
    ensures
        carbon_code_of(k) is None <==> (k == KeyCode::F21 || k == KeyCode::F22 || k
            == KeyCode::F23 || k == KeyCode::F24),
{
}

/// The Carbon hot-key modifier mask for `m`: `cmdKey` 0x0100 for meta,
/// `shiftKey` 0x0200, `optionKey` 0x0800 for alt and `controlKey` 0x1000.
pub open spec fn carbon_mask(m: Modifiers) -> u32 {
    (if m.0 & 8 == 8 {
        0x0100u32
    } else {
        0u32
    }) | (if m.0 & 1 == 1 {
        0x0200u32
    } else {
        0u32
    }) | (if m.0 & 4 == 4 {
        0x0800u32
    } else {
        0u32
    }) | (if m.0 & 2 == 2 {
        0x1000u32
    } else {
        0u32
    })
}

/// Maps Tile's modifier bitmask to a Carbon hot-key modifier mask. On macOS
/// meta is Command and alt is Option.
pub fn carbon_modifiers(mods: Modifiers) -> (r: u32)
    ensures
        r == carbon_mask(mods),
{
    let cmd: u32 = if mods.contains(Modifiers::meta()) {
        0x0100
    } else {
        0
    };
    let shift: u32 = if mods.contains(Modifiers::shift()) {
        0x0200
    } else {
        0
    };
    let option: u32 = if mods.contains(Modifiers::alt()) {
        0x0800
    } else {
        0
    };
    let control: u32 = if mods.contains(Modifiers::control()) {
        0x1000
    } else {
        0
    };
    cmd | shift | option | control
}

/// One entry of the CoreGraphics on-screen window list, reduced to the fields
/// that decide whether it is a normal, foreign window.
#[derive(Debug, Clone, Copy, PartialEq, Eq, Structural)]
pub struct CgWindowInfo {
    /// The owning process.
    pub pid: i64,
    /// 0 for ordinary application windows.
    pub layer: i64,
    /// The `CGWindowID`.
    pub window_id: u32,
}

/// Whether a window list entry is an ordinary window of another process.
pub open spec fn is_foreign_normal(w: CgWindowInfo, own_pid: i64) -> bool {
    w.pid != own_pid && w.layer == 0
}

/// The windows Tile could move: ordinary windows (`layer == 0`) of some other
/// process, in the front-to-back order of the input.
pub fn foreign_normal_windows(windows: &[CgWindowInfo], own_pid: i64) -> (r: Vec<CgWindowInfo>)
    ensures
        r@ == windows@.filter(|w: CgWindowInfo| is_foreign_normal(w, own_pid)),
{
    let mut r: Vec<CgWindowInfo> = Vec::new();
    let mut i: usize = 0;
    while i < windows.len()
        invariant
            i <= windows.len(),
            r@ == windows@.subrange(0, i as int).filter(
                |w: CgWindowInfo| is_foreign_normal(w, own_pid),
            ),
        decreases windows.len() - i,
    {
        let w = windows[i];
        proof {
            reveal_with_fuel(Seq::<_>::filter, 1);
            assert(windows@.subrange(0, i + 1).drop_last() =~= windows@.subrange(0, i as int));
        }
        if w.pid != own_pid && w.layer == 0 {
            r.push(w);
        }
        i = i + 1;
    }
    assert(windows@.subrange(0, windows.len() as int) =~= windows@);
    r
}

} // verus!
