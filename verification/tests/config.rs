use tile::action::WindowAction;
use tile::config::{
    cycles_sizes, default_bindings, default_bindings_on, normalize_cycle_sizes, AnimationConfig,
    Bindings, CycleSize, SubsequentExecutionMode, MAX_ANIMATION_DURATION_MS, MAX_ANIMATION_FPS,
    MIN_ANIMATION_DURATION_MS, MIN_ANIMATION_FPS,
};
use tile::hotkey::{Hotkey, KeyCode, Modifiers};

#[test]
fn setting_a_binding_unbinds_the_previous_owner() {
    let mut bindings = default_bindings();
    let hk = bindings.binding(WindowAction::LeftHalf).unwrap();
    bindings.set_binding(WindowAction::Center, Some(hk));
    assert_eq!(bindings.binding(WindowAction::LeftHalf), None);
    assert_eq!(bindings.binding(WindowAction::Center), Some(hk));
    assert_eq!(bindings.conflicts(), vec![]);
}

#[test]
fn active_bindings_skips_unbound_actions() {
    let mut bindings = default_bindings();
    let before = bindings.active_bindings().len();
    bindings.set_binding(WindowAction::Maximize, None);
    let active = bindings.active_bindings();
    assert_eq!(active.len(), before - 1);
    assert!(!active.iter().any(|(_, a)| *a == WindowAction::Maximize));
}

#[test]
fn defaults_bind_the_arrows_on_the_base_modifier() {
    let bindings = default_bindings();
    let win = Modifiers::meta();
    assert_eq!(bindings.binding(WindowAction::LeftHalf), Some(Hotkey::new(win, KeyCode::Left)));
    assert_eq!(bindings.binding(WindowAction::RightHalf), Some(Hotkey::new(win, KeyCode::Right)));
    assert_eq!(bindings.binding(WindowAction::Maximize), Some(Hotkey::new(win, KeyCode::Up)));
    assert_eq!(bindings.binding(WindowAction::Restore), Some(Hotkey::new(win, KeyCode::Down)));
    let throw = win | Modifiers::shift();
    assert_eq!(
        bindings.binding(WindowAction::PreviousDisplay),
        Some(Hotkey::new(throw, KeyCode::Left))
    );
    assert_eq!(bindings.binding(WindowAction::NextDisplay), Some(Hotkey::new(throw, KeyCode::Right)));
    assert_eq!(bindings.binding(WindowAction::Center), None);
    let mac = default_bindings_on(Modifiers::control() | Modifiers::alt());
    assert_eq!(
        mac.binding(WindowAction::LeftHalf),
        Some(Hotkey::new(Modifiers(6), KeyCode::Left))
    );
    assert_eq!(
        bindings.entries().iter().map(|(a, _)| *a).collect::<Vec<_>>(),
        vec![
            WindowAction::LeftHalf,
            WindowAction::RightHalf,
            WindowAction::Maximize,
            WindowAction::Restore,
            WindowAction::PreviousDisplay,
            WindowAction::NextDisplay,
        ]
    );
}

#[test]
fn invalid_bindings_are_dropped_and_unbound_ones_kept() {
    let mut bindings = Bindings::new();
    bindings.insert(WindowAction::Center, Some(Hotkey::new(Modifiers::none(), KeyCode::C)));
    bindings.insert(WindowAction::Restore, None);
    bindings.insert(WindowAction::Maximize, Some(Hotkey::new(Modifiers::alt(), KeyCode::Up)));
    bindings.retain_valid();
    assert_eq!(
        bindings.entries(),
        vec![
            (WindowAction::Maximize, Some(Hotkey::new(Modifiers::alt(), KeyCode::Up))),
            (WindowAction::Restore, None)
        ]
    );
}

#[test]
fn normalize_clamps_animation_tuning() {
    let mut animation = AnimationConfig { enabled: true, duration_ms: 99_999, fps: 5 };
    animation.normalize();
    assert_eq!(animation.duration_ms, MAX_ANIMATION_DURATION_MS);
    assert_eq!(animation.fps, MIN_ANIMATION_FPS);

    let mut zeroed = AnimationConfig { enabled: true, duration_ms: 0, fps: 0 };
    zeroed.normalize();
    assert_eq!(zeroed.duration_ms, 450);
    assert_eq!(zeroed.fps, 90);

    let mut tiny = AnimationConfig { enabled: true, duration_ms: 1, fps: 1000 };
    tiny.normalize();
    assert_eq!(tiny.duration_ms, MIN_ANIMATION_DURATION_MS);
    assert_eq!(tiny.fps, MAX_ANIMATION_FPS);
}

#[test]
fn animation_params_follow_the_config() {
    let animation = AnimationConfig { enabled: true, duration_ms: 220, fps: 60 };
    let params = animation.params();
    assert_eq!(params.duration_ms, 220);
    assert_eq!(params.fps, 60);
}

#[test]
fn animation_defaults_are_on() {
    assert_eq!(AnimationConfig::default(), AnimationConfig { enabled: true, duration_ms: 450, fps: 90 });
}

#[test]
fn conflicts_are_detected() {
    let mut bindings = default_bindings();
    let hk = bindings.binding(WindowAction::LeftHalf).unwrap();
    bindings.insert(WindowAction::Center, Some(hk));
    let conflicts = bindings.conflicts();
    assert_eq!(conflicts.len(), 1);
    assert_eq!(conflicts[0].actions.len(), 2);
    assert_eq!(conflicts[0].hotkey, hk);
    assert_eq!(conflicts[0].actions, vec![WindowAction::LeftHalf, WindowAction::Center]);
}

#[test]
fn conflicts_are_ordered_by_the_hotkey_text() {
    let mut bindings = Bindings::new();
    let win_up = Hotkey::new(Modifiers::meta(), KeyCode::Up);
    let alt_z = Hotkey::new(Modifiers::alt(), KeyCode::Z);
    bindings.insert(WindowAction::LeftHalf, Some(win_up));
    bindings.insert(WindowAction::RightHalf, Some(alt_z));
    bindings.insert(WindowAction::TopHalf, Some(win_up));
    bindings.insert(WindowAction::BottomHalf, Some(alt_z));
    bindings.insert(WindowAction::Maximize, Some(Hotkey::new(Modifiers::alt(), KeyCode::A)));
    let conflicts = bindings.conflicts();
    assert_eq!(conflicts.len(), 2);
    assert_eq!(conflicts[0].hotkey, alt_z);
    assert_eq!(conflicts[0].actions, vec![WindowAction::RightHalf, WindowAction::BottomHalf]);
    assert_eq!(conflicts[1].hotkey, win_up);
}

#[test]
fn defaults_bind_the_arrows_without_conflicts() {
    assert!(default_bindings().conflicts().is_empty());
    let mut bindings = default_bindings();
    let hk = bindings.binding(WindowAction::LeftHalf).unwrap();
    bindings.set_binding(WindowAction::Center, Some(hk));
    assert!(bindings.conflicts().is_empty());
}

#[test]
fn hotkeys_resolve_to_their_bound_action() {
    let bindings = default_bindings();
    let hk = bindings.binding(WindowAction::Maximize).unwrap();
    assert_eq!(bindings.action_for(hk), Some(WindowAction::Maximize));
    assert_eq!(bindings.action_for(Hotkey::new(Modifiers::shift(), KeyCode::Escape)), None);
}

#[test]
fn no_default_binding_uses_a_letter() {
    for (hotkey, action) in default_bindings().active_bindings() {
        assert!(
            !('A'..='Z').any(|c| hotkey.key.label() == c.to_string()),
            "{} is bound to the letter {}",
            action.id(),
            hotkey.key.label()
        );
    }
}

#[test]
fn windows_defaults_use_win_without_alt() {
    for (hotkey, action) in default_bindings().active_bindings() {
        assert!(hotkey.modifiers.contains(Modifiers::meta()), "{} expected Win", action.id());
        assert!(!hotkey.modifiers.contains(Modifiers::alt()), "{}", action.id());
        if action.moves_display() {
            assert_eq!(
                hotkey.modifiers,
                Modifiers::meta() | Modifiers::shift(),
                "{} expected Win+Shift",
                action.id()
            );
        } else {
            assert_eq!(hotkey.modifiers, Modifiers::meta(), "{} expected Win alone", action.id());
        }
    }
}

const CORE_BOUND: [WindowAction; 6] = [
    WindowAction::LeftHalf,
    WindowAction::RightHalf,
    WindowAction::Maximize,
    WindowAction::Restore,
    WindowAction::PreviousDisplay,
    WindowAction::NextDisplay,
];

#[test]
fn defaults_use_spatially_mnemonic_keys() {
    let config = default_bindings();
    let base = Modifiers::meta();
    let expected = [
        (WindowAction::LeftHalf, KeyCode::Left),
        (WindowAction::RightHalf, KeyCode::Right),
        (WindowAction::Maximize, KeyCode::Up),
        (WindowAction::Restore, KeyCode::Down),
    ];
    for (action, key) in expected {
        let hotkey = config.binding(action).expect("action must be bound");
        assert_eq!(hotkey.key, key, "{} lost its mnemonic key", action.id());
        assert_eq!(hotkey.modifiers, base, "{} should use the platform base modifier", action.id());
    }
    let throw = base.union(Modifiers::shift());
    for (action, key) in [
        (WindowAction::PreviousDisplay, KeyCode::Left),
        (WindowAction::NextDisplay, KeyCode::Right),
    ] {
        let hotkey = config.binding(action).expect("display throw must be bound");
        assert_eq!(hotkey.key, key, "{} lost its throw key", action.id());
        assert_eq!(hotkey.modifiers, throw, "{} should be the base modifier plus Shift", action.id());
    }
    for action in [WindowAction::TopHalf, WindowAction::BottomHalf, WindowAction::Center] {
        assert_eq!(config.binding(action), None, "{} must stay unbound", action.id());
    }
}

#[test]
fn defaults_differ_only_by_the_base_modifier() {
    for base in [Modifiers::meta(), Modifiers::control() | Modifiers::alt()] {
        let config = default_bindings_on(base);
        let throw = base.union(Modifiers::shift());
        for (hotkey, action) in config.active_bindings() {
            let expected = if action.moves_display() { throw } else { base };
            assert_eq!(hotkey.modifiers, expected, "{} has unexpected modifiers", action.id());
        }
        assert_eq!(config.binding(WindowAction::LeftHalf).unwrap().key, KeyCode::Left);
        assert_eq!(config.binding(WindowAction::NextDisplay).unwrap().key, KeyCode::Right);
    }
}

#[test]
fn defaults_bind_the_core_actions_without_conflicts() {
    let config = default_bindings();
    for action in CORE_BOUND {
        assert!(config.binding(action).is_some(), "{} has no default binding", action.id());
    }
    for action in WindowAction::ALL {
        if !CORE_BOUND.contains(&action) {
            assert!(config.binding(action).is_none(), "{} unexpectedly bound", action.id());
        }
    }
    assert!(config.conflicts().is_empty(), "default bindings must not clash");
}

#[test]
fn windows_defaults_never_use_ctrl_alt() {
    for (hotkey, action) in default_bindings().active_bindings() {
        let ctrl_alt = Modifiers::control() | Modifiers::alt();
        assert!(!hotkey.modifiers.contains(ctrl_alt), "{} uses Ctrl+Alt", action.id());
    }
}

#[test]
fn defaults_avoid_the_unwinnable_game_bar_shortcuts() {
    const RESERVED: [KeyCode; 6] = [KeyCode::G, KeyCode::R, KeyCode::M, KeyCode::B, KeyCode::W, KeyCode::T];
    for (hotkey, action) in default_bindings().active_bindings() {
        if !hotkey.modifiers.contains(Modifiers::meta()) {
            continue;
        }
        assert!(!RESERVED.contains(&hotkey.key), "{} is bound to a reserved key", action.id());
    }
}

#[test]
fn cycle_sizes_are_deduplicated_and_ordered_canonically() {
    let sizes = vec![
        CycleSize::OneThird,
        CycleSize::ThreeQuarters,
        CycleSize::OneHalf,
        CycleSize::OneThird,
        CycleSize::OneQuarter,
        CycleSize::TwoThirds,
    ];
    assert_eq!(
        normalize_cycle_sizes(&sizes),
        vec![
            CycleSize::OneHalf,
            CycleSize::TwoThirds,
            CycleSize::ThreeQuarters,
            CycleSize::OneQuarter,
            CycleSize::OneThird,
        ]
    );
}

#[test]
fn an_empty_size_list_disables_cycling() {
    let sizes: Vec<CycleSize> = normalize_cycle_sizes(&vec![]);
    assert!(sizes.is_empty());
    assert!(!cycles_sizes(SubsequentExecutionMode::CycleSizes, &sizes));
    assert!(cycles_sizes(SubsequentExecutionMode::CycleSizes, &[CycleSize::OneHalf]));
    assert!(!cycles_sizes(SubsequentExecutionMode::DoNothing, &[CycleSize::OneHalf]));
}

#[test]
fn cycle_size_ids_are_stable_and_unique() {
    let mut ids: Vec<&str> = CycleSize::ALL.iter().map(|s| s.id()).collect();
    ids.sort_unstable();
    let count = ids.len();
    ids.dedup();
    assert_eq!(ids.len(), count);
    assert_eq!(CycleSize::OneHalf.id(), "one-half");
    assert_eq!(CycleSize::TwoThirds.id(), "two-thirds");
    assert_eq!(CycleSize::ThreeQuarters.id(), "three-quarters");
    assert_eq!(CycleSize::OneThird.id(), "one-third");
    assert_eq!(CycleSize::OneQuarter.id(), "one-quarter");
    for size in CycleSize::ALL {
        assert_eq!(CycleSize::from_id(size.id()), Some(size));
    }
    assert_eq!(CycleSize::from_id("one-fifth"), None);
    assert_eq!(CycleSize::FIRST.label(), "One Half");
}

#[test]
fn every_subsequent_execution_mode_round_trips() {
    for mode in [SubsequentExecutionMode::CycleSizes, SubsequentExecutionMode::DoNothing] {
        assert_eq!(SubsequentExecutionMode::from_id(mode.id()), Some(mode));
    }
    assert_eq!(
        SubsequentExecutionMode::from_id_or_default("next-display"),
        SubsequentExecutionMode::CycleSizes
    );
    assert_eq!(SubsequentExecutionMode::default(), SubsequentExecutionMode::CycleSizes);
}
