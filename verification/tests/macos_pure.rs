use tile::hotkey::{KeyCode, Modifiers};
use tile::mac_keys::{carbon_key_code, carbon_modifiers, foreign_normal_windows, CgWindowInfo};

#[test]
fn key_codes_have_the_expected_carbon_values() {
    assert_eq!(carbon_key_code(KeyCode::Left), Some(0x7B));
    assert_eq!(carbon_key_code(KeyCode::Right), Some(0x7C));
    assert_eq!(carbon_key_code(KeyCode::Down), Some(0x7D));
    assert_eq!(carbon_key_code(KeyCode::Up), Some(0x7E));
    assert_eq!(carbon_key_code(KeyCode::Enter), Some(0x24));
    assert_eq!(carbon_key_code(KeyCode::Space), Some(0x31));
    assert_eq!(carbon_key_code(KeyCode::Backspace), Some(0x33));
    assert_eq!(carbon_key_code(KeyCode::Delete), Some(0x75));
    assert_eq!(carbon_key_code(KeyCode::Escape), Some(0x35));
    assert_eq!(carbon_key_code(KeyCode::C), Some(0x08));
    assert_eq!(carbon_key_code(KeyCode::F), Some(0x03));
    assert_eq!(carbon_key_code(KeyCode::M), Some(0x2E));
}

#[test]
fn letter_codes_follow_the_apple_extended_keyboard_layout() {
    assert_eq!(carbon_key_code(KeyCode::A), Some(0x00));
    assert_eq!(carbon_key_code(KeyCode::S), Some(0x01));
    assert_eq!(carbon_key_code(KeyCode::D), Some(0x02));
    assert_eq!(carbon_key_code(KeyCode::H), Some(0x04));
    assert_eq!(carbon_key_code(KeyCode::G), Some(0x05));
    assert_eq!(carbon_key_code(KeyCode::Z), Some(0x06));
    assert_eq!(carbon_key_code(KeyCode::Q), Some(0x0C));
    assert_eq!(carbon_key_code(KeyCode::Y), Some(0x10));
    assert_eq!(carbon_key_code(KeyCode::T), Some(0x11));
}

#[test]
fn digit_codes_include_the_transposed_pairs() {
    assert_eq!(carbon_key_code(KeyCode::Digit1), Some(0x12));
    assert_eq!(carbon_key_code(KeyCode::Digit5), Some(0x17));
    assert_eq!(carbon_key_code(KeyCode::Digit6), Some(0x16));
    assert_eq!(carbon_key_code(KeyCode::Digit7), Some(0x1A));
    assert_eq!(carbon_key_code(KeyCode::Digit8), Some(0x1C));
    assert_eq!(carbon_key_code(KeyCode::Digit9), Some(0x19));
    assert_eq!(carbon_key_code(KeyCode::Digit0), Some(0x1D));
}

#[test]
fn function_key_codes_are_scattered_and_stop_at_f20() {
    assert_eq!(carbon_key_code(KeyCode::F1), Some(0x7A));
    assert_eq!(carbon_key_code(KeyCode::F5), Some(0x60));
    assert_eq!(carbon_key_code(KeyCode::F10), Some(0x6D));
    assert_eq!(carbon_key_code(KeyCode::F12), Some(0x6F));
    assert_eq!(carbon_key_code(KeyCode::F17), Some(0x40));
    assert_eq!(carbon_key_code(KeyCode::F20), Some(0x5A));
    for key in [KeyCode::F21, KeyCode::F22, KeyCode::F23, KeyCode::F24] {
        assert_eq!(carbon_key_code(key), None, "{key:?} must be unmappable");
    }
}

#[test]
fn punctuation_and_extra_navigation_codes_are_correct() {
    assert_eq!(carbon_key_code(KeyCode::Backtick), Some(0x32));
    assert_eq!(carbon_key_code(KeyCode::Minus), Some(0x1B));
    assert_eq!(carbon_key_code(KeyCode::Equals), Some(0x18));
    assert_eq!(carbon_key_code(KeyCode::LeftBracket), Some(0x21));
    assert_eq!(carbon_key_code(KeyCode::RightBracket), Some(0x1E));
    assert_eq!(carbon_key_code(KeyCode::Backslash), Some(0x2A));
    assert_eq!(carbon_key_code(KeyCode::Semicolon), Some(0x29));
    assert_eq!(carbon_key_code(KeyCode::Quote), Some(0x27));
    assert_eq!(carbon_key_code(KeyCode::Comma), Some(0x2B));
    assert_eq!(carbon_key_code(KeyCode::Period), Some(0x2F));
    assert_eq!(carbon_key_code(KeyCode::Slash), Some(0x2C));
    assert_eq!(carbon_key_code(KeyCode::Tab), Some(0x30));
    assert_eq!(carbon_key_code(KeyCode::Home), Some(0x73));
    assert_eq!(carbon_key_code(KeyCode::End), Some(0x77));
    assert_eq!(carbon_key_code(KeyCode::PageUp), Some(0x74));
    assert_eq!(carbon_key_code(KeyCode::PageDown), Some(0x79));
    assert_eq!(carbon_key_code(KeyCode::Insert), Some(0x72));
}

#[test]
fn keypad_codes_are_contiguous_except_for_the_documented_gap() {
    assert_eq!(carbon_key_code(KeyCode::Numpad0), Some(0x52));
    assert_eq!(carbon_key_code(KeyCode::Numpad1), Some(0x53));
    assert_eq!(carbon_key_code(KeyCode::Numpad7), Some(0x59));
    assert_eq!(carbon_key_code(KeyCode::Numpad8), Some(0x5B));
    assert_eq!(carbon_key_code(KeyCode::Numpad9), Some(0x5C));
    assert_eq!(carbon_key_code(KeyCode::NumpadDecimal), Some(0x41));
    assert_eq!(carbon_key_code(KeyCode::NumpadMultiply), Some(0x43));
    assert_eq!(carbon_key_code(KeyCode::NumpadAdd), Some(0x45));
    assert_eq!(carbon_key_code(KeyCode::NumpadDivide), Some(0x4B));
    assert_eq!(carbon_key_code(KeyCode::NumpadEnter), Some(0x4C));
    assert_eq!(carbon_key_code(KeyCode::NumpadSubtract), Some(0x4E));
}

#[test]
fn every_key_code_maps_to_a_unique_value() {
    let mut seen = std::collections::HashSet::new();
    let mut mapped = 0usize;
    for key in KeyCode::ALL {
        let Some(code) = carbon_key_code(key) else {
            continue;
        };
        mapped += 1;
        assert!(seen.insert(code), "duplicate virtual key code {code:#x} for {key:?}");
    }
    assert_eq!(seen.len(), mapped);
    assert_eq!(mapped, KeyCode::COUNT - 4);
}

#[test]
fn unmapped_keys_are_the_only_ones_without_a_code() {
    let unmapped: Vec<KeyCode> =
        KeyCode::ALL.iter().copied().filter(|&k| carbon_key_code(k).is_none()).collect();
    assert_eq!(unmapped, vec![KeyCode::F21, KeyCode::F22, KeyCode::F23, KeyCode::F24]);
}

#[test]
fn individual_modifiers_map_to_their_carbon_bits() {
    assert_eq!(carbon_modifiers(Modifiers::meta()), 0x0100);
    assert_eq!(carbon_modifiers(Modifiers::shift()), 0x0200);
    assert_eq!(carbon_modifiers(Modifiers::alt()), 0x0800);
    assert_eq!(carbon_modifiers(Modifiers::control()), 0x1000);
    assert_eq!(carbon_modifiers(Modifiers::none()), 0x0000);
}

#[test]
fn combined_modifiers_are_ored_together() {
    let mods = Modifiers::control() | Modifiers::alt() | Modifiers::meta();
    assert_eq!(carbon_modifiers(mods), 0x1000 | 0x0800 | 0x0100);
}

#[test]
fn modifier_bits_do_not_overlap() {
    let all = [Modifiers::meta(), Modifiers::shift(), Modifiers::alt(), Modifiers::control()];
    let mut combined = 0u32;
    for m in all {
        let bit = carbon_modifiers(m);
        assert_eq!(combined & bit, 0, "modifier bits must be disjoint");
        combined |= bit;
    }
}

fn win(pid: i64, layer: i64, window_id: u32) -> CgWindowInfo {
    CgWindowInfo { pid, layer, window_id }
}

#[test]
fn skips_our_own_windows() {
    let own = 42;
    let list = [win(own, 0, 1), win(own, 0, 2), win(99, 0, 3)];
    let found = foreign_normal_windows(&list, own);
    assert_eq!(found, vec![win(99, 0, 3)]);
}

#[test]
fn skips_non_zero_layers() {
    let own = 42;
    let list = [win(50, 25, 1), win(50, 20, 2), win(50, 0, 3)];
    let found = foreign_normal_windows(&list, own);
    assert_eq!(found, vec![win(50, 0, 3)]);
}

#[test]
fn preserves_front_to_back_order() {
    let own = 42;
    let list = [win(7, 0, 10), win(8, 0, 11), win(9, 0, 12)];
    let found = foreign_normal_windows(&list, own);
    assert_eq!(found, vec![win(7, 0, 10), win(8, 0, 11), win(9, 0, 12)]);
}

#[test]
fn empty_when_only_our_windows_exist() {
    let own = 42;
    let list = [win(own, 0, 1), win(own, 0, 2)];
    assert!(foreign_normal_windows(&list, own).is_empty());
}

#[test]
fn empty_list_yields_empty() {
    assert!(foreign_normal_windows(&[], 42).is_empty());
}
