use tile::action::WindowAction;
use tile::hook::{
    match_binding_in, swallow_index, HookKeys, KeyBits, KeyEvent, KeyMessage,
};
use tile::hotkey::{Hotkey, KeyCode, Modifiers};
use tile::owner::{await_start, ApplyControl, StartCommand};
use tile::platform::HotkeyBinding;
use tile::win_keys::{
    can_reuse_registration, impossible_reason, is_modifier_vk, keycode_extended, keycode_to_vk,
    native_modifiers, repeat_action, to_hook_binding, HookBinding, MOD_ALT, MOD_CONTROL, MOD_SHIFT,
    MOD_WIN, VK_LEFT, VK_NUMPAD0, VK_NUMPAD5, VK_RETURN, VK_RIGHT,
};

#[test]
fn swallowed_key_up_is_consumed_exactly_once() {
    let mut swallowed = KeyBits::new();
    let vk = 0x47;
    assert!(!swallowed.take(vk, false));
    swallowed.set(vk, false);
    assert!(swallowed.take(vk, false), "matching key-up must be swallowed");
    assert!(!swallowed.take(vk, false), "the record must be consumed");
    swallowed.clear();
}

#[test]
fn swallowing_distinguishes_the_two_enter_keys() {
    let mut swallowed = KeyBits::new();
    let vk_return = 0x0D;
    swallowed.set(vk_return, true);
    assert!(!swallowed.take(vk_return, false), "main Enter is unaffected");
    assert!(swallowed.take(vk_return, true), "numpad Enter is swallowed");
    swallowed.clear();
}

#[test]
fn swallowed_records_are_independent_across_keys() {
    let mut swallowed = KeyBits::new();
    swallowed.set(0x41, false);
    swallowed.set(0xFF, false);
    assert!(!swallowed.take(0x42, false), "'B' was never marked");
    assert!(swallowed.take(0x41, false));
    assert!(swallowed.take(0xFF, false));
    swallowed.clear();
}

#[test]
fn clear_swallowed_drops_every_pending_record() {
    let mut swallowed = KeyBits::new();
    swallowed.set(0x47, false);
    swallowed.set(0x0D, true);
    swallowed.clear();
    assert!(!swallowed.take(0x47, false));
    assert!(!swallowed.take(0x0D, true));
}

#[test]
fn swallow_index_covers_the_bitset_without_overlap() {
    assert_eq!(swallow_index(0, false), 0);
    assert_eq!(swallow_index(0xFF, false), 255);
    assert_eq!(swallow_index(0, true), 256);
    assert_eq!(swallow_index(0xFF, true), 511);
    assert_ne!(swallow_index(0x0D, false), swallow_index(0x0D, true));
}

fn vk_to_keycode(vk: u16, extended: bool) -> Option<KeyCode> {
    KeyCode::ALL.into_iter().find(|&k| {
        keycode_to_vk(k) == vk && keycode_extended(k).map_or(true, |want| want == extended)
    })
}

#[test]
fn keycode_to_vk_is_total_and_unique() {
    let mut seen = std::collections::HashSet::new();
    for key in KeyCode::ALL {
        let vk = keycode_to_vk(key);
        assert_ne!(vk, 0, "{key:?} mapped to VK 0");
        assert!(seen.insert((vk, keycode_extended(key))), "duplicate VK {vk:#x} for {key:?}");
    }
    assert_eq!(seen.len(), KeyCode::ALL.len());
}

#[test]
fn only_the_two_enter_keys_share_a_virtual_key() {
    let mut counts = std::collections::HashMap::new();
    for key in KeyCode::ALL {
        *counts.entry(keycode_to_vk(key)).or_insert(0usize) += 1;
    }
    let shared: Vec<u16> = counts.iter().filter(|(_, &n)| n > 1).map(|(&vk, _)| vk).collect();
    assert_eq!(shared, vec![VK_RETURN]);
    assert_eq!(keycode_extended(KeyCode::Enter), Some(false));
    assert_eq!(keycode_extended(KeyCode::NumpadEnter), Some(true));
}

#[test]
fn keycode_vk_round_trips() {
    for key in KeyCode::ALL {
        let vk = keycode_to_vk(key);
        let extended = keycode_extended(key).unwrap_or(false);
        assert_eq!(vk_to_keycode(vk, extended), Some(key));
    }
}

#[test]
fn known_keys_map_to_expected_virtual_keys() {
    assert_eq!(keycode_to_vk(KeyCode::Left), VK_LEFT);
    assert_eq!(keycode_to_vk(KeyCode::C), 0x43);
    assert_eq!(keycode_to_vk(KeyCode::M), 0x4D);
    assert_eq!(keycode_to_vk(KeyCode::Numpad5), VK_NUMPAD5);
    assert_eq!(keycode_to_vk(KeyCode::A), 0x41);
    assert_eq!(keycode_to_vk(KeyCode::Z), 0x5A);
    assert_eq!(keycode_to_vk(KeyCode::Digit0), 0x30);
    assert_eq!(keycode_to_vk(KeyCode::Digit9), 0x39);
    assert_eq!(keycode_to_vk(KeyCode::F1), 0x70);
    assert_eq!(keycode_to_vk(KeyCode::F12), 0x7B);
    assert_eq!(keycode_to_vk(KeyCode::F24), 0x87);
    assert_eq!(keycode_to_vk(KeyCode::Semicolon), 0xBA);
    assert_eq!(keycode_to_vk(KeyCode::Equals), 0xBB);
    assert_eq!(keycode_to_vk(KeyCode::Minus), 0xBD);
    assert_eq!(keycode_to_vk(KeyCode::Slash), 0xBF);
    assert_eq!(keycode_to_vk(KeyCode::Backtick), 0xC0);
    assert_eq!(keycode_to_vk(KeyCode::LeftBracket), 0xDB);
    assert_eq!(keycode_to_vk(KeyCode::Backslash), 0xDC);
    assert_eq!(keycode_to_vk(KeyCode::RightBracket), 0xDD);
    assert_eq!(keycode_to_vk(KeyCode::Quote), 0xDE);
}

fn table() -> Vec<HookBinding> {
    vec![
        HookBinding {
            vk: VK_LEFT,
            extended: None,
            mods: Modifiers::meta(),
            action: WindowAction::LeftHalf,
            repeat: false,
        },
        HookBinding {
            vk: VK_LEFT,
            extended: None,
            mods: Modifiers::meta() | Modifiers::control(),
            action: WindowAction::TopHalf,
            repeat: false,
        },
    ]
}

#[test]
fn exact_modifier_match_fires_the_right_action() {
    let t = table();
    assert_eq!(
        match_binding_in(&t, VK_LEFT, true, Modifiers::meta()).map(|b| b.action),
        Some(WindowAction::LeftHalf)
    );
    assert_eq!(
        match_binding_in(&t, VK_LEFT, true, Modifiers::meta() | Modifiers::control())
            .map(|b| b.action),
        Some(WindowAction::TopHalf)
    );
}

#[test]
fn win_left_does_not_fire_when_ctrl_is_also_held() {
    let only_win = vec![HookBinding {
        vk: VK_LEFT,
        extended: None,
        mods: Modifiers::meta(),
        action: WindowAction::LeftHalf,
        repeat: false,
    }];
    assert_eq!(
        match_binding_in(&only_win, VK_LEFT, true, Modifiers::meta() | Modifiers::control()),
        None
    );
}

#[test]
fn no_match_for_unbound_key_or_bare_modifier() {
    let t = table();
    assert_eq!(match_binding_in(&t, VK_RIGHT, true, Modifiers::meta()), None);
    assert_eq!(match_binding_in(&t, VK_LEFT, true, Modifiers::none()), None);
}

#[test]
fn the_two_enter_keys_do_not_trigger_each_other() {
    let bindings = vec![
        HookBinding {
            vk: VK_RETURN,
            extended: keycode_extended(KeyCode::Enter),
            mods: Modifiers::meta(),
            action: WindowAction::Maximize,
            repeat: false,
        },
        HookBinding {
            vk: VK_RETURN,
            extended: keycode_extended(KeyCode::NumpadEnter),
            mods: Modifiers::meta(),
            action: WindowAction::Center,
            repeat: false,
        },
    ];
    assert_eq!(
        match_binding_in(&bindings, VK_RETURN, false, Modifiers::meta()).map(|b| b.action),
        Some(WindowAction::Maximize)
    );
    assert_eq!(
        match_binding_in(&bindings, VK_RETURN, true, Modifiers::meta()).map(|b| b.action),
        Some(WindowAction::Center)
    );
}

#[test]
fn keys_that_ignore_the_extended_flag_match_either_way() {
    let t = table();
    for extended in [false, true] {
        assert_eq!(
            match_binding_in(&t, VK_LEFT, extended, Modifiers::meta()).map(|b| b.action),
            Some(WindowAction::LeftHalf)
        );
    }
}

#[test]
fn modifier_virtual_keys_are_recognised() {
    for vk in [0x10u16, 0x11, 0x12, 0xA0, 0xA1, 0xA2, 0xA3, 0xA4, 0xA5, 0x5B, 0x5C] {
        assert!(is_modifier_vk(vk), "{vk:#x} should be a modifier");
    }
    assert!(!is_modifier_vk(VK_LEFT));
    assert!(!is_modifier_vk(VK_NUMPAD0));
}

#[test]
fn reserved_windows_shortcuts_are_rejected_before_registration() {
    for hotkey in [
        Hotkey::new(Modifiers::control(), KeyCode::F12),
        Hotkey::new(Modifiers::meta(), KeyCode::L),
        Hotkey::new(Modifiers::control() | Modifiers::alt(), KeyCode::Delete),
    ] {
        assert!(impossible_reason(hotkey).is_some(), "{} must fail", hotkey.to_string());
    }
    assert!(impossible_reason(Hotkey::new(Modifiers::control(), KeyCode::L)).is_none());
}

#[test]
fn hook_route_preserves_repeat_policy_and_is_exclusive() {
    let binding = HotkeyBinding {
        hotkey: Hotkey::new(Modifiers::meta(), KeyCode::Left),
        action: WindowAction::MoveLeft,
        repeat: true,
    };
    let repeating = to_hook_binding(binding);
    assert!(repeating.repeat);
    assert_eq!(repeat_action(repeating), Some(WindowAction::MoveLeft));

    let exclusive = to_hook_binding(HotkeyBinding { repeat: false, ..binding });
    assert!(!exclusive.repeat);
    assert_eq!(repeat_action(exclusive), None);
}

#[test]
fn native_modifier_translation_is_complete() {
    let all = Modifiers::control() | Modifiers::alt() | Modifiers::shift() | Modifiers::meta();
    assert_eq!(native_modifiers(all), MOD_CONTROL | MOD_ALT | MOD_SHIFT | MOD_WIN);
}

#[test]
fn changing_repeat_policy_requires_native_reregistration() {
    let old = HotkeyBinding {
        hotkey: Hotkey::new(Modifiers::control(), KeyCode::M),
        action: WindowAction::MoveLeft,
        repeat: true,
    };
    assert!(can_reuse_registration(old, HotkeyBinding { action: WindowAction::MoveRight, ..old }));
    assert!(!can_reuse_registration(
        old,
        HotkeyBinding { action: WindowAction::Maximize, repeat: false, ..old }
    ));
}

#[test]
fn cancellation_and_commit_have_one_winner() {
    let mut cancelled = ApplyControl::new();
    assert!(cancelled.cancel());
    assert!(!cancelled.begin_commit());

    let mut committing = ApplyControl::new();
    assert!(committing.begin_commit());
    assert!(!committing.cancel());
}

#[test]
fn owner_requires_start_acknowledgement_before_message_loop() {
    assert!(await_start(false, Some(StartCommand::Start)));
    assert!(!await_start(true, None));
    assert!(!await_start(false, None));
}

#[test]
fn swallowed_identity_stays_marked_until_key_up() {
    let mut swallowed = KeyBits::new();
    swallowed.set(VK_LEFT, true);
    assert!(swallowed.is_set(VK_LEFT, true));
    assert!(!swallowed.is_set(VK_LEFT, false));
    assert!(swallowed.take(VK_LEFT, true));
    assert!(!swallowed.is_set(VK_LEFT, true));
}

fn key(message: KeyMessage, vk: u16) -> KeyEvent {
    KeyEvent { message, vk, extended: false, injected: false }
}

#[test]
fn the_hook_fires_once_and_swallows_the_matching_key_up() {
    let bindings = table();
    let mut keys = HookKeys::new();
    let down = keys.on_key(key(KeyMessage::Down, VK_LEFT), Modifiers::meta(), &bindings);
    assert!(down.swallow);
    assert_eq!(down.send, Some(WindowAction::LeftHalf));
    assert!(down.suppress_start_menu);
    let repeat = keys.on_key(key(KeyMessage::Down, VK_LEFT), Modifiers::meta(), &bindings);
    assert!(repeat.swallow);
    assert_eq!(repeat.send, None);
    let up = keys.on_key(key(KeyMessage::Up, VK_LEFT), Modifiers::meta(), &bindings);
    assert!(up.swallow);
    let second_up = keys.on_key(key(KeyMessage::Up, VK_LEFT), Modifiers::meta(), &bindings);
    assert!(!second_up.swallow);
}

#[test]
fn repeating_bindings_fire_on_every_auto_repeat() {
    let bindings = vec![HookBinding {
        vk: VK_RIGHT,
        extended: None,
        mods: Modifiers::control(),
        action: WindowAction::MoveRight,
        repeat: true,
    }];
    let mut keys = HookKeys::new();
    for _ in 0..3 {
        let v = keys.on_key(key(KeyMessage::Down, VK_RIGHT), Modifiers::control(), &bindings);
        assert_eq!(v.send, Some(WindowAction::MoveRight));
        assert!(!v.suppress_start_menu);
    }
}

#[test]
fn injected_and_unbound_keys_pass_through() {
    let bindings = table();
    let mut keys = HookKeys::new();
    let injected = KeyEvent { message: KeyMessage::Down, vk: VK_LEFT, extended: false, injected: true };
    assert!(!keys.on_key(injected, Modifiers::meta(), &bindings).swallow);
    assert!(!keys.on_key(key(KeyMessage::Down, 0x41), Modifiers::meta(), &bindings).swallow);
    assert!(!keys.on_key(key(KeyMessage::Down, 0x5B), Modifiers::meta(), &bindings).swallow);
    assert!(!keys.on_key(key(KeyMessage::Other, VK_LEFT), Modifiers::meta(), &bindings).swallow);
}
