//! Pure helpers of the Windows hotkey backend: the virtual-key table, native
//! modifier flags, hook binding matching, the swallowed-key bitset, and the
//! apply-request control.

use vstd::prelude::*;

use crate::action::WindowAction;
use crate::hotkey::{Hotkey, KeyCode, Modifiers};
use crate::platform::{HotkeyBinding, HotkeyBindingStatus, HotkeyRoute};

verus! {

pub const VK_RETURN: u16 = 0x0D;

pub const VK_LEFT: u16 = 0x25;

pub const VK_RIGHT: u16 = 0x27;

pub const VK_NUMPAD0: u16 = 0x60;

pub const VK_NUMPAD5: u16 = 0x65;

pub const MOD_ALT: u32 = 0x0001;

pub const MOD_CONTROL: u32 = 0x0002;

pub const MOD_SHIFT: u32 = 0x0004;

pub const MOD_WIN: u32 = 0x0008;

/// The Windows virtual key of each key. Letters and digits are their ASCII
/// values; both Enter keys report `VK_RETURN`.
pub open spec fn vk_of(k: KeyCode) -> u16 {
    match k {
            KeyCode::Left => 0x25u16,
            KeyCode::Right => 0x27u16,
            KeyCode::Up => 0x26u16,
            KeyCode::Down => 0x28u16,
            KeyCode::Enter => 0x0Du16,
            KeyCode::Space => 0x20u16,
            KeyCode::Backspace => 0x08u16,
            KeyCode::Delete => 0x2Eu16,
            KeyCode::Escape => 0x1Bu16,
            KeyCode::Tab => 0x09u16,
            KeyCode::Insert => 0x2Du16,
            KeyCode::Home => 0x24u16,
            KeyCode::End => 0x23u16,
            KeyCode::PageUp => 0x21u16,
            KeyCode::PageDown => 0x22u16,
            KeyCode::A => 0x41u16,
            KeyCode::B => 0x42u16,
            KeyCode::C => 0x43u16,
            KeyCode::D => 0x44u16,
            KeyCode::E => 0x45u16,
            KeyCode::F => 0x46u16,
            KeyCode::G => 0x47u16,
            KeyCode::H => 0x48u16,
            KeyCode::I => 0x49u16,
            KeyCode::J => 0x4Au16,
            KeyCode::K => 0x4Bu16,
            KeyCode::L => 0x4Cu16,
            KeyCode::M => 0x4Du16,
            KeyCode::N => 0x4Eu16,
            KeyCode::O => 0x4Fu16,
            KeyCode::P => 0x50u16,
            KeyCode::Q => 0x51u16,
            KeyCode::R => 0x52u16,
            KeyCode::S => 0x53u16,
            KeyCode::T => 0x54u16,
            KeyCode::U => 0x55u16,
            KeyCode::V => 0x56u16,
            KeyCode::W => 0x57u16,
            KeyCode::X => 0x58u16,
            KeyCode::Y => 0x59u16,
            KeyCode::Z => 0x5Au16,
            KeyCode::Digit0 => 0x30u16,
            KeyCode::Digit1 => 0x31u16,
            KeyCode::Digit2 => 0x32u16,
            KeyCode::Digit3 => 0x33u16,
            KeyCode::Digit4 => 0x34u16,
            KeyCode::Digit5 => 0x35u16,
            KeyCode::Digit6 => 0x36u16,
            KeyCode::Digit7 => 0x37u16,
            KeyCode::Digit8 => 0x38u16,
            KeyCode::Digit9 => 0x39u16,
            KeyCode::Backtick => 0xC0u16,
            KeyCode::Minus => 0xBDu16,
            KeyCode::Equals => 0xBBu16,
            KeyCode::LeftBracket => 0xDBu16,
            KeyCode::RightBracket => 0xDDu16,
            KeyCode::Backslash => 0xDCu16,
            KeyCode::Semicolon => 0xBAu16,
            KeyCode::Quote => 0xDEu16,
            KeyCode::Comma => 0xBCu16,
            KeyCode::Period => 0xBEu16,
            KeyCode::Slash => 0xBFu16,
            KeyCode::F1 => 0x70u16,
            KeyCode::F2 => 0x71u16,
            KeyCode::F3 => 0x72u16,
            KeyCode::F4 => 0x73u16,
            KeyCode::F5 => 0x74u16,
            KeyCode::F6 => 0x75u16,
            KeyCode::F7 => 0x76u16,
            KeyCode::F8 => 0x77u16,
            KeyCode::F9 => 0x78u16,
            KeyCode::F10 => 0x79u16,
            KeyCode::F11 => 0x7Au16,
            KeyCode::F12 => 0x7Bu16,
            KeyCode::F13 => 0x7Cu16,
            KeyCode::F14 => 0x7Du16,
            KeyCode::F15 => 0x7Eu16,
            KeyCode::F16 => 0x7Fu16,
            KeyCode::F17 => 0x80u16,
            KeyCode::F18 => 0x81u16,
            KeyCode::F19 => 0x82u16,
            KeyCode::F20 => 0x83u16,
            KeyCode::F21 => 0x84u16,
            KeyCode::F22 => 0x85u16,
            KeyCode::F23 => 0x86u16,
            KeyCode::F24 => 0x87u16,
            KeyCode::Numpad0 => 0x60u16,
            KeyCode::Numpad1 => 0x61u16,
            KeyCode::Numpad2 => 0x62u16,
            KeyCode::Numpad3 => 0x63u16,
            KeyCode::Numpad4 => 0x64u16,
            KeyCode::Numpad5 => 0x65u16,
            KeyCode::Numpad6 => 0x66u16,
            KeyCode::Numpad7 => 0x67u16,
            KeyCode::Numpad8 => 0x68u16,
            KeyCode::Numpad9 => 0x69u16,
            KeyCode::NumpadAdd => 0x6Bu16,
            KeyCode::NumpadSubtract => 0x6Du16,
            KeyCode::NumpadMultiply => 0x6Au16,
            KeyCode::NumpadDivide => 0x6Fu16,
            KeyCode::NumpadDecimal => 0x6Eu16,
            KeyCode::NumpadEnter => 0x0Du16,
    }
}

/// Exhaustive `KeyCode` -> virtual-key mapping.
pub fn keycode_to_vk(key: KeyCode) -> (r: u16)
    ensures
        r == vk_of(key),
{
    match key {
            KeyCode::Left => 0x25,
            KeyCode::Right => 0x27,
            KeyCode::Up => 0x26,
            KeyCode::Down => 0x28,
            KeyCode::Enter => 0x0D,
            KeyCode::Space => 0x20,
            KeyCode::Backspace => 0x08,
            KeyCode::Delete => 0x2E,
            KeyCode::Escape => 0x1B,
            KeyCode::Tab => 0x09,
            KeyCode::Insert => 0x2D,
            KeyCode::Home => 0x24,
            KeyCode::End => 0x23,
            KeyCode::PageUp => 0x21,
            KeyCode::PageDown => 0x22,
            KeyCode::A => 0x41,
            KeyCode::B => 0x42,
            KeyCode::C => 0x43,
            KeyCode::D => 0x44,
            KeyCode::E => 0x45,
            KeyCode::F => 0x46,
            KeyCode::G => 0x47,
            KeyCode::H => 0x48,
            KeyCode::I => 0x49,
            KeyCode::J => 0x4A,
            KeyCode::K => 0x4B,
            KeyCode::L => 0x4C,
            KeyCode::M => 0x4D,
            KeyCode::N => 0x4E,
            KeyCode::O => 0x4F,
            KeyCode::P => 0x50,
            KeyCode::Q => 0x51,
            KeyCode::R => 0x52,
            KeyCode::S => 0x53,
            KeyCode::T => 0x54,
            KeyCode::U => 0x55,
            KeyCode::V => 0x56,
            KeyCode::W => 0x57,
            KeyCode::X => 0x58,
            KeyCode::Y => 0x59,
            KeyCode::Z => 0x5A,
            KeyCode::Digit0 => 0x30,
            KeyCode::Digit1 => 0x31,
            KeyCode::Digit2 => 0x32,
            KeyCode::Digit3 => 0x33,
            KeyCode::Digit4 => 0x34,
            KeyCode::Digit5 => 0x35,
            KeyCode::Digit6 => 0x36,
            KeyCode::Digit7 => 0x37,
            KeyCode::Digit8 => 0x38,
            KeyCode::Digit9 => 0x39,
            KeyCode::Backtick => 0xC0,
            KeyCode::Minus => 0xBD,
            KeyCode::Equals => 0xBB,
            KeyCode::LeftBracket => 0xDB,
            KeyCode::RightBracket => 0xDD,
            KeyCode::Backslash => 0xDC,
            KeyCode::Semicolon => 0xBA,
            KeyCode::Quote => 0xDE,
            KeyCode::Comma => 0xBC,
            KeyCode::Period => 0xBE,
            KeyCode::Slash => 0xBF,
            KeyCode::F1 => 0x70,
            KeyCode::F2 => 0x71,
            KeyCode::F3 => 0x72,
            KeyCode::F4 => 0x73,
            KeyCode::F5 => 0x74,
            KeyCode::F6 => 0x75,
            KeyCode::F7 => 0x76,
            KeyCode::F8 => 0x77,
            KeyCode::F9 => 0x78,
            KeyCode::F10 => 0x79,
            KeyCode::F11 => 0x7A,
            KeyCode::F12 => 0x7B,
            KeyCode::F13 => 0x7C,
            KeyCode::F14 => 0x7D,
            KeyCode::F15 => 0x7E,
            KeyCode::F16 => 0x7F,
            KeyCode::F17 => 0x80,
            KeyCode::F18 => 0x81,
            KeyCode::F19 => 0x82,
            KeyCode::F20 => 0x83,
            KeyCode::F21 => 0x84,
            KeyCode::F22 => 0x85,
            KeyCode::F23 => 0x86,
            KeyCode::F24 => 0x87,
            KeyCode::Numpad0 => 0x60,
            KeyCode::Numpad1 => 0x61,
            KeyCode::Numpad2 => 0x62,
            KeyCode::Numpad3 => 0x63,
            KeyCode::Numpad4 => 0x64,
            KeyCode::Numpad5 => 0x65,
            KeyCode::Numpad6 => 0x66,
            KeyCode::Numpad7 => 0x67,
            KeyCode::Numpad8 => 0x68,
            KeyCode::Numpad9 => 0x69,
            KeyCode::NumpadAdd => 0x6B,
            KeyCode::NumpadSubtract => 0x6D,
            KeyCode::NumpadMultiply => 0x6A,
            KeyCode::NumpadDivide => 0x6F,
            KeyCode::NumpadDecimal => 0x6E,
            KeyCode::NumpadEnter => 0x0D,
    }
}

/// The `LLKHF_EXTENDED` state a keystroke must have to be this key, or `None`
/// when the flag is irrelevant: only the two Enter keys need it.
pub open spec fn extended_of(k: KeyCode) -> Option<bool> {
    if k == KeyCode::Enter {
        Some(false)
    } else if k == KeyCode::NumpadEnter {
        Some(true)
    } else {
        None
    }
}

pub fn keycode_extended(key: KeyCode) -> (r: Option<bool>)
    ensures
        r == extended_of(key),
{
    match key {
        KeyCode::Enter => Some(false),
        KeyCode::NumpadEnter => Some(true),
        _ => None,
    }
}

/// Inverse of the virtual-key table, reading `VK_RETURN` as main Enter.
pub open spec fn vk_decode(vk: u16) -> Option<KeyCode> {
    if vk == 0x08 {
        Some(KeyCode::Backspace)
    } else if vk == 0x09 {
        Some(KeyCode::Tab)
    } else if vk == 0x0D {
        Some(KeyCode::Enter)
    } else if vk == 0x1B {
        Some(KeyCode::Escape)
    } else if vk == 0x20 {
        Some(KeyCode::Space)
    } else if vk == 0x21 {
        Some(KeyCode::PageUp)
    } else if vk == 0x22 {
        Some(KeyCode::PageDown)
    } else if vk == 0x23 {
        Some(KeyCode::End)
    } else if vk == 0x24 {
        Some(KeyCode::Home)
    } else if vk == 0x25 {
        Some(KeyCode::Left)
    } else if vk == 0x26 {
        Some(KeyCode::Up)
    } else if vk == 0x27 {
        Some(KeyCode::Right)
    } else if vk == 0x28 {
        Some(KeyCode::Down)
    } else if vk == 0x2D {
        Some(KeyCode::Insert)
    } else if vk == 0x2E {
        Some(KeyCode::Delete)
    } else if vk == 0x30 {
        Some(KeyCode::Digit0)
    } else if vk == 0x31 {
        Some(KeyCode::Digit1)
    } else if vk == 0x32 {
        Some(KeyCode::Digit2)
    } else if vk == 0x33 {
        Some(KeyCode::Digit3)
    } else if vk == 0x34 {
        Some(KeyCode::Digit4)
    } else if vk == 0x35 {
        Some(KeyCode::Digit5)
    } else if vk == 0x36 {
        Some(KeyCode::Digit6)
    } else if vk == 0x37 {
        Some(KeyCode::Digit7)
    } else if vk == 0x38 {
        Some(KeyCode::Digit8)
    } else if vk == 0x39 {
        Some(KeyCode::Digit9)
    } else if vk == 0x41 {
        Some(KeyCode::A)
    } else if vk == 0x42 {
        Some(KeyCode::B)
    } else if vk == 0x43 {
        Some(KeyCode::C)
    } else if vk == 0x44 {
        Some(KeyCode::D)
    } else if vk == 0x45 {
        Some(KeyCode::E)
    } else if vk == 0x46 {
        Some(KeyCode::F)
    } else if vk == 0x47 {
        Some(KeyCode::G)
    } else if vk == 0x48 {
        Some(KeyCode::H)
    } else if vk == 0x49 {
        Some(KeyCode::I)
    } else if vk == 0x4A {
        Some(KeyCode::J)
    } else if vk == 0x4B {
        Some(KeyCode::K)
    } else if vk == 0x4C {
        Some(KeyCode::L)
    } else if vk == 0x4D {
        Some(KeyCode::M)
    } else if vk == 0x4E {
        Some(KeyCode::N)
    } else if vk == 0x4F {
        Some(KeyCode::O)
    } else if vk == 0x50 {
        Some(KeyCode::P)
    } else if vk == 0x51 {
        Some(KeyCode::Q)
    } else if vk == 0x52 {
        Some(KeyCode::R)
    } else if vk == 0x53 {
        Some(KeyCode::S)
    } else if vk == 0x54 {
        Some(KeyCode::T)
    } else if vk == 0x55 {
        Some(KeyCode::U)
    } else if vk == 0x56 {
        Some(KeyCode::V)
    } else if vk == 0x57 {
        Some(KeyCode::W)
    } else if vk == 0x58 {
        Some(KeyCode::X)
    } else if vk == 0x59 {
        Some(KeyCode::Y)
    } else if vk == 0x5A {
        Some(KeyCode::Z)
    } else if vk == 0x60 {
        Some(KeyCode::Numpad0)
    } else if vk == 0x61 {
        Some(KeyCode::Numpad1)
    } else if vk == 0x62 {
        Some(KeyCode::Numpad2)
    } else if vk == 0x63 {
        Some(KeyCode::Numpad3)
    } else if vk == 0x64 {
        Some(KeyCode::Numpad4)
    } else if vk == 0x65 {
        Some(KeyCode::Numpad5)
    } else if vk == 0x66 {
        Some(KeyCode::Numpad6)
    } else if vk == 0x67 {
        Some(KeyCode::Numpad7)
    } else if vk == 0x68 {
        Some(KeyCode::Numpad8)
    } else if vk == 0x69 {
        Some(KeyCode::Numpad9)
    } else if vk == 0x6A {
        Some(KeyCode::NumpadMultiply)
    } else if vk == 0x6B {
        Some(KeyCode::NumpadAdd)
    } else if vk == 0x6D {
        Some(KeyCode::NumpadSubtract)
    } else if vk == 0x6E {
        Some(KeyCode::NumpadDecimal)
    } else if vk == 0x6F {
        Some(KeyCode::NumpadDivide)
    } else if vk == 0x70 {
        Some(KeyCode::F1)
    } else if vk == 0x71 {
        Some(KeyCode::F2)
    } else if vk == 0x72 {
        Some(KeyCode::F3)
    } else if vk == 0x73 {
        Some(KeyCode::F4)
    } else if vk == 0x74 {
        Some(KeyCode::F5)
    } else if vk == 0x75 {
        Some(KeyCode::F6)
    } else if vk == 0x76 {
        Some(KeyCode::F7)
    } else if vk == 0x77 {
        Some(KeyCode::F8)
    } else if vk == 0x78 {
        Some(KeyCode::F9)
    } else if vk == 0x79 {
        Some(KeyCode::F10)
    } else if vk == 0x7A {
        Some(KeyCode::F11)
    } else if vk == 0x7B {
        Some(KeyCode::F12)
    } else if vk == 0x7C {
        Some(KeyCode::F13)
    } else if vk == 0x7D {
        Some(KeyCode::F14)
    } else if vk == 0x7E {
        Some(KeyCode::F15)
    } else if vk == 0x7F {
        Some(KeyCode::F16)
    } else if vk == 0x80 {
        Some(KeyCode::F17)
    } else if vk == 0x81 {
        Some(KeyCode::F18)
    } else if vk == 0x82 {
        Some(KeyCode::F19)
    } else if vk == 0x83 {
        Some(KeyCode::F20)
    } else if vk == 0x84 {
        Some(KeyCode::F21)
    } else if vk == 0x85 {
        Some(KeyCode::F22)
    } else if vk == 0x86 {
        Some(KeyCode::F23)
    } else if vk == 0x87 {
        Some(KeyCode::F24)
    } else if vk == 0xBA {
        Some(KeyCode::Semicolon)
    } else if vk == 0xBB {
        Some(KeyCode::Equals)
    } else if vk == 0xBC {
        Some(KeyCode::Comma)
    } else if vk == 0xBD {
        Some(KeyCode::Minus)
    } else if vk == 0xBE {
        Some(KeyCode::Period)
    } else if vk == 0xBF {
        Some(KeyCode::Slash)
    } else if vk == 0xC0 {
        Some(KeyCode::Backtick)
    } else if vk == 0xDB {
        Some(KeyCode::LeftBracket)
    } else if vk == 0xDC {
        Some(KeyCode::Backslash)
    } else if vk == 0xDD {
        Some(KeyCode::RightBracket)
    } else if vk == 0xDE {
        Some(KeyCode::Quote)
    } else {
        None
    }
}

proof fn lemma_vk_decode_0(k: KeyCode)
    requires
        0 <= k.ordinal() < 10,
    ensures
        vk_decode(vk_of(k)) == Some(if k == KeyCode::NumpadEnter { KeyCode::Enter } else { k }),
{
    match k {
        KeyCode::Left => {},
        KeyCode::Right => {},
        KeyCode::Up => {},
        KeyCode::Down => {},
        KeyCode::Enter => {},
        KeyCode::Space => {},
        KeyCode::Backspace => {},
        KeyCode::Delete => {},
        KeyCode::Escape => {},
        KeyCode::Tab => {},
        _ => {},
    }
}

proof fn lemma_vk_decode_1(k: KeyCode)
    requires
        10 <= k.ordinal() < 20,
    ensures
        vk_decode(vk_of(k)) == Some(if k == KeyCode::NumpadEnter { KeyCode::Enter } else { k }),
{
    match k {
        KeyCode::Insert => {},
        KeyCode::Home => {},
        KeyCode::End => {},
        KeyCode::PageUp => {},
        KeyCode::PageDown => {},
        KeyCode::A => {},
        KeyCode::B => {},
        KeyCode::C => {},
        KeyCode::D => {},
        KeyCode::E => {},
        _ => {},
    }
}

proof fn lemma_vk_decode_2(k: KeyCode)
    requires
        20 <= k.ordinal() < 30,
    ensures
        vk_decode(vk_of(k)) == Some(if k == KeyCode::NumpadEnter { KeyCode::Enter } else { k }),
{
    match k {
        KeyCode::F => {},
        KeyCode::G => {},
        KeyCode::H => {},
        KeyCode::I => {},
        KeyCode::J => {},
        KeyCode::K => {},
        KeyCode::L => {},
        KeyCode::M => {},
        KeyCode::N => {},
        KeyCode::O => {},
        _ => {},
    }
}

proof fn lemma_vk_decode_3(k: KeyCode)
    requires
        30 <= k.ordinal() < 40,
    ensures
        vk_decode(vk_of(k)) == Some(if k == KeyCode::NumpadEnter { KeyCode::Enter } else { k }),
{
    match k {
        KeyCode::P => {},
        KeyCode::Q => {},
        KeyCode::R => {},
        KeyCode::S => {},
        KeyCode::T => {},
        KeyCode::U => {},
        KeyCode::V => {},
        KeyCode::W => {},
        KeyCode::X => {},
        KeyCode::Y => {},
        _ => {},
    }
}

proof fn lemma_vk_decode_4(k: KeyCode)
    requires
        40 <= k.ordinal() < 50,
    ensures
        vk_decode(vk_of(k)) == Some(if k == KeyCode::NumpadEnter { KeyCode::Enter } else { k }),
{
    match k {
        KeyCode::Z => {},
        KeyCode::Digit0 => {},
        KeyCode::Digit1 => {},
        KeyCode::Digit2 => {},
        KeyCode::Digit3 => {},
        KeyCode::Digit4 => {},
        KeyCode::Digit5 => {},
        KeyCode::Digit6 => {},
        KeyCode::Digit7 => {},
        KeyCode::Digit8 => {},
        _ => {},
    }
}

proof fn lemma_vk_decode_5(k: KeyCode)
    requires
        50 <= k.ordinal() < 60,
    ensures
        vk_decode(vk_of(k)) == Some(if k == KeyCode::NumpadEnter { KeyCode::Enter } else { k }),
{
    match k {
        KeyCode::Digit9 => {},
        KeyCode::Backtick => {},
        KeyCode::Minus => {},
        KeyCode::Equals => {},
        KeyCode::LeftBracket => {},
        KeyCode::RightBracket => {},
        KeyCode::Backslash => {},
        KeyCode::Semicolon => {},
        KeyCode::Quote => {},
        KeyCode::Comma => {},
        _ => {},
    }
}

proof fn lemma_vk_decode_6(k: KeyCode)
    requires
        60 <= k.ordinal() < 70,
    ensures
        vk_decode(vk_of(k)) == Some(if k == KeyCode::NumpadEnter { KeyCode::Enter } else { k }),
{
    match k {
        KeyCode::Period => {},
        KeyCode::Slash => {},
        KeyCode::F1 => {},
        KeyCode::F2 => {},
        KeyCode::F3 => {},
        KeyCode::F4 => {},
        KeyCode::F5 => {},
        KeyCode::F6 => {},
        KeyCode::F7 => {},
        KeyCode::F8 => {},
        _ => {},
    }
}

proof fn lemma_vk_decode_7(k: KeyCode)
    requires
        70 <= k.ordinal() < 80,
    ensures
        vk_decode(vk_of(k)) == Some(if k == KeyCode::NumpadEnter { KeyCode::Enter } else { k }),
{
    match k {
        KeyCode::F9 => {},
        KeyCode::F10 => {},
        KeyCode::F11 => {},
        KeyCode::F12 => {},
        KeyCode::F13 => {},
        KeyCode::F14 => {},
        KeyCode::F15 => {},
        KeyCode::F16 => {},
        KeyCode::F17 => {},
        KeyCode::F18 => {},
        _ => {},
    }
}

proof fn lemma_vk_decode_8(k: KeyCode)
    requires
        80 <= k.ordinal() < 90,
    ensures
        vk_decode(vk_of(k)) == Some(if k == KeyCode::NumpadEnter { KeyCode::Enter } else { k }),
{
    match k {
        KeyCode::F19 => {},
        KeyCode::F20 => {},
        KeyCode::F21 => {},
        KeyCode::F22 => {},
        KeyCode::F23 => {},
        KeyCode::F24 => {},
        KeyCode::Numpad0 => {},
        KeyCode::Numpad1 => {},
        KeyCode::Numpad2 => {},
        KeyCode::Numpad3 => {},
        _ => {},
    }
}

proof fn lemma_vk_decode_9(k: KeyCode)
    requires
        90 <= k.ordinal() < 100,
    ensures
        vk_decode(vk_of(k)) == Some(if k == KeyCode::NumpadEnter { KeyCode::Enter } else { k }),
{
    match k {
        KeyCode::Numpad4 => {},
        KeyCode::Numpad5 => {},
        KeyCode::Numpad6 => {},
        KeyCode::Numpad7 => {},
        KeyCode::Numpad8 => {},
        KeyCode::Numpad9 => {},
        KeyCode::NumpadAdd => {},
        KeyCode::NumpadSubtract => {},
        KeyCode::NumpadMultiply => {},
        KeyCode::NumpadDivide => {},
        _ => {},
    }
}

proof fn lemma_vk_decode_10(k: KeyCode)
    requires
        100 <= k.ordinal() < 102,
    ensures
        vk_decode(vk_of(k)) == Some(if k == KeyCode::NumpadEnter { KeyCode::Enter } else { k }),
{
    match k {
        KeyCode::NumpadDecimal => {},
        KeyCode::NumpadEnter => {},
        _ => {},
    }
}

proof fn lemma_vk_decode(k: KeyCode)
    ensures
        vk_decode(vk_of(k)) == Some(
            if k == KeyCode::NumpadEnter {
                KeyCode::Enter
            } else {
                k
            },
        ),
{
    crate::hotkey::lemma_ordinal_at(k);
    if k.ordinal() < 10 {
        lemma_vk_decode_0(k);
    } else if k.ordinal() < 20 {
        lemma_vk_decode_1(k);
    } else if k.ordinal() < 30 {
        lemma_vk_decode_2(k);
    } else if k.ordinal() < 40 {
        lemma_vk_decode_3(k);
    } else if k.ordinal() < 50 {
        lemma_vk_decode_4(k);
    } else if k.ordinal() < 60 {
        lemma_vk_decode_5(k);
    } else if k.ordinal() < 70 {
        lemma_vk_decode_6(k);
    } else if k.ordinal() < 80 {
        lemma_vk_decode_7(k);
    } else if k.ordinal() < 90 {
        lemma_vk_decode_8(k);
    } else if k.ordinal() < 100 {
        lemma_vk_decode_9(k);
    } else if k.ordinal() < 102 {
        lemma_vk_decode_10(k);
    }
}

/// Only the two Enter keys share a virtual key; every other key is told apart
/// by its virtual key alone, and the two Enter keys by the extended flag.
pub proof fn lemma_vk_unique(a: KeyCode, b: KeyCode)
    requires
        vk_of(a) == vk_of(b),
        a != b,
    ensures
        (a == KeyCode::Enter && b == KeyCode::NumpadEnter) || (a == KeyCode::NumpadEnter && b
            == KeyCode::Enter),
        extended_of(a) != extended_of(b),
        vk_of(a) == VK_RETURN,
{
    lemma_vk_decode(a);
    lemma_vk_decode(b);
}

/// Every key maps to a non-zero virtual key.
pub proof fn lemma_vk_nonzero(k: KeyCode)
    ensures
        vk_of(k) != 0,
{
    lemma_vk_decode(k);
}

/// The `RegisterHotKey` modifier flags of `m`.
pub open spec fn native_mask(m: Modifiers) -> u32 {
    (if m.0 & 4 == 4 {
        MOD_ALT
    } else {
        0u32
    }) | (if m.0 & 2 == 2 {
        MOD_CONTROL
    } else {
        0u32
    }) | (if m.0 & 1 == 1 {
        MOD_SHIFT
    } else {
        0u32
    }) | (if m.0 & 8 == 8 {
        MOD_WIN
    } else {
        0u32
    })
}

/// Each modifier registers under its own `RegisterHotKey` flag, as Windows
/// defines them (`MOD_ALT` 0x1, `MOD_CONTROL` 0x2, `MOD_SHIFT` 0x4, `MOD_WIN`
/// 0x8): Shift, Ctrl, Alt and Win map to 0x4, 0x2, 0x1 and 0x8, no modifier
/// to no flag, the flags of a union are the union of the flags, and bits
/// beyond the four modifiers add no flag.
pub proof fn lemma_native_mask_flags(a: Modifiers, b: Modifiers)
    ensures
        native_mask(Modifiers(0)) == 0u32,
        native_mask(Modifiers(1)) == 0x4u32,
        native_mask(Modifiers(2)) == 0x2u32,
        native_mask(Modifiers(4)) == 0x1u32,
        native_mask(Modifiers(8)) == 0x8u32,
        native_mask(Modifiers(a.0 | b.0)) == native_mask(a) | native_mask(b),
        native_mask(a) == native_mask(Modifiers(a.0 & 15)),
{
    let x = a.0;
    let y = b.0;
    assert(native_mask(Modifiers(0)) == 0u32) by (bit_vector);
    assert(native_mask(Modifiers(1)) == 0x4u32) by (bit_vector);
    assert(native_mask(Modifiers(2)) == 0x2u32) by (bit_vector);
    assert(native_mask(Modifiers(4)) == 0x1u32) by (bit_vector);
    assert(native_mask(Modifiers(8)) == 0x8u32) by (bit_vector);
    assert(native_mask(Modifiers(x | y)) == native_mask(Modifiers(x)) | native_mask(Modifiers(y))) by (bit_vector);
    assert(native_mask(Modifiers(x)) == native_mask(Modifiers(x & 15))) by (bit_vector);
    assert(a == Modifiers(x));
    assert(b == Modifiers(y));
}

/// Translates Tile's modifiers into `RegisterHotKey` flags.
pub fn native_modifiers(modifiers: Modifiers) -> (r: u32)
    ensures
        r == native_mask(modifiers),
{
    let a: u32 = if modifiers.contains(Modifiers::alt()) {
        MOD_ALT
    } else {
        0
    };
    let c: u32 = if modifiers.contains(Modifiers::control()) {
        MOD_CONTROL
    } else {
        0
    };
    let s: u32 = if modifiers.contains(Modifiers::shift()) {
        MOD_SHIFT
    } else {
        0
    };
    let w: u32 = if modifiers.contains(Modifiers::meta()) {
        MOD_WIN
    } else {
        0
    };
    a | c | s | w
}

/// Whether `vk` is one of the modifier virtual keys (Shift, Ctrl, Alt and
/// their left/right forms, and both Windows keys).
pub open spec fn is_modifier_vk_spec(vk: u16) -> bool {
    vk == 0x10 || vk == 0x11 || vk == 0x12 || vk == 0xA0 || vk == 0xA1 || vk == 0xA2 || vk
        == 0xA3 || vk == 0xA4 || vk == 0xA5 || vk == 0x5B || vk == 0x5C
}

pub fn is_modifier_vk(vk: u16) -> (r: bool)
    ensures
        r == is_modifier_vk_spec(vk),
{
    vk == 0x10 || vk == 0x11 || vk == 0x12 || vk == 0xA0 || vk == 0xA1 || vk == 0xA2 || vk
        == 0xA3 || vk == 0xA4 || vk == 0xA5 || vk == 0x5B || vk == 0x5C
}

/// The Enter keys go through the hook, which alone sees the extended flag.
pub fn requires_extended_identity(key: KeyCode) -> (r: bool)
    ensures
        r == (key == KeyCode::Enter || key == KeyCode::NumpadEnter),
{
    matches!(key, KeyCode::Enter | KeyCode::NumpadEnter)
}

/// Shortcuts Windows reserves for itself, with the reason.
pub open spec fn impossible_reason_spec(hotkey: Hotkey) -> Option<Seq<char>> {
    if hotkey.key == KeyCode::F12 {
        Some("F12 is reserved by the Windows debugger"@)
    } else if hotkey.key == KeyCode::L && hotkey.modifiers.0 & 8 == 8 {
        Some("Win+L is reserved for locking Windows"@)
    } else if hotkey.key == KeyCode::Delete && hotkey.modifiers.0 & 6 == 6 {
        Some("Ctrl+Alt+Delete is reserved by Windows"@)
    } else {
        None
    }
}

/// Why Windows will never deliver `hotkey` to Tile, if it will not.
pub fn impossible_reason(hotkey: Hotkey) -> (r: Option<&'static str>)
    ensures
        match (r, impossible_reason_spec(hotkey)) {
            (Some(s), Some(t)) => s@ == t,
            (None, None) => true,
            _ => false,
        },
{
    if hotkey.key == KeyCode::F12 {
        return Some("F12 is reserved by the Windows debugger");
    }
    if hotkey.key == KeyCode::L && hotkey.modifiers.contains(Modifiers::meta()) {
        return Some("Win+L is reserved for locking Windows");
    }
    if hotkey.key == KeyCode::Delete && hotkey.modifiers.contains(
        Modifiers::control().union(Modifiers::alt()),
    ) {
        assert(2u8 | 4u8 == 6u8) by (bit_vector);
        return Some("Ctrl+Alt+Delete is reserved by Windows");
    }
    assert(2u8 | 4u8 == 6u8) by (bit_vector);
    None
}

pub fn is_impossible(hotkey: Hotkey) -> (r: bool)
    ensures
        r == impossible_reason_spec(hotkey) is Some,
{
    impossible_reason(hotkey).is_some()
}

/// Whether an existing native registration of `old` can serve `new` as is.
pub open spec fn can_reuse_spec(old: HotkeyBinding, new: HotkeyBinding) -> bool {
    old.hotkey == new.hotkey && old.repeat == new.repeat && !(new.hotkey.key == KeyCode::Enter
        || new.hotkey.key == KeyCode::NumpadEnter) && impossible_reason_spec(new.hotkey) is None
}

pub fn can_reuse_registration(old: HotkeyBinding, new: HotkeyBinding) -> (r: bool)
    ensures
        r == can_reuse_spec(old, new),
{
    old.hotkey == new.hotkey && old.repeat == new.repeat && !requires_extended_identity(
        new.hotkey.key,
    ) && !is_impossible(new.hotkey)
}

/// A binding as the low-level keyboard hook matches it.
#[derive(Debug, Clone, Copy, PartialEq, Eq, Structural)]
pub struct HookBinding {
    pub vk: u16,
    pub extended: Option<bool>,
    pub mods: Modifiers,
    pub action: WindowAction,
    pub repeat: bool,
}

pub fn to_hook_binding(binding: HotkeyBinding) -> (r: HookBinding)
    ensures
        r == (HookBinding {
            vk: vk_of(binding.hotkey.key),
            extended: extended_of(binding.hotkey.key),
            mods: binding.hotkey.modifiers,
            action: binding.action,
            repeat: binding.repeat,
        }),
{
    HookBinding {
        vk: keycode_to_vk(binding.hotkey.key),
        extended: keycode_extended(binding.hotkey.key),
        mods: binding.hotkey.modifiers,
        action: binding.action,
        repeat: binding.repeat,
    }
}

/// The action an auto-repeated keystroke re-sends: only bindings that allow
/// repeats fire again while the key is held.
pub fn repeat_action(binding: HookBinding) -> (r: Option<WindowAction>)
    ensures
        r == (if binding.repeat {
            Some(binding.action)
        } else {
            None
        }),
{
    if binding.repeat {
        Some(binding.action)
    } else {
        None
    }
}

/// Whether a keystroke matches a hook binding: same virtual key, exactly the
/// same modifiers, and the extended flag where the binding cares about it.
pub open spec fn hook_matches(b: HookBinding, vk: u16, extended: bool, mods: Modifiers) -> bool {
    b.vk == vk && b.mods == mods && match b.extended {
        Some(required) => required == extended,
        None => true,
    }
}

/// A status entry for one binding of an apply request.
pub fn status(binding: HotkeyBinding, route: HotkeyRoute, reason: Option<String>) -> (r:
    HotkeyBindingStatus)
    ensures
        r == (HotkeyBindingStatus { binding, route, reason }),
{
    HotkeyBindingStatus { binding, route, reason }
}

/// A binding that cannot be routed at all, with the reason.
pub fn unavailable(binding: HotkeyBinding, reason: &str) -> (r: HotkeyBindingStatus)
    ensures
        r.binding == binding,
        r.route == HotkeyRoute::Unavailable,
        r.reason matches Some(s) && s@ == reason@,
{
    status(binding, HotkeyRoute::Unavailable, Some(reason.to_owned()))
}

} // verus!
