use tile::hotkey::{Hotkey, KeyCode, MetaStyle, Modifiers, ParseHotkeyError};

const MODIFIER_TOKENS: [&str; 11] =
    ["ctrl", "control", "alt", "option", "opt", "shift", "win", "cmd", "command", "meta", "super"];

#[test]
fn modifiers_contains_is_a_subset_check() {
    let m = Modifiers::control() | Modifiers::alt();
    assert!(m.contains(Modifiers::control()));
    assert!(m.contains(Modifiers::control() | Modifiers::alt()));
    assert!(!m.contains(Modifiers::shift()));
    assert!(m.contains(Modifiers::none()));
}

#[test]
fn modifierless_and_unknown_hotkeys_are_rejected() {
    assert!(matches!("Left".parse::<Hotkey>(), Err(ParseHotkeyError::NoModifier)));
    assert!(matches!("Ctrl+Banana".parse::<Hotkey>(), Err(ParseHotkeyError::UnknownToken(_))));
    assert!("Ctrl".parse::<Hotkey>().is_err());
}

#[test]
fn no_key_label_contains_the_hotkey_separator() {
    for key in KeyCode::ALL {
        assert!(!key.label().contains('+'), "{key:?} has a label containing '+': {}", key.label());
    }
}

#[test]
fn key_labels_are_non_empty_and_free_of_whitespace() {
    for key in KeyCode::ALL {
        let label = key.label();
        assert!(!label.is_empty(), "{key:?} has an empty label");
        assert!(
            !label.chars().any(char::is_whitespace),
            "{key:?} has whitespace in its label: {label:?}"
        );
    }
}

#[test]
fn no_key_label_collides_with_a_modifier_token() {
    for key in KeyCode::ALL {
        let lower = key.label().to_ascii_lowercase();
        assert!(
            !MODIFIER_TOKENS.contains(&lower.as_str()),
            "{key:?}'s label shadows the modifier token {lower:?}"
        );
    }
}

#[test]
fn newly_added_keys_are_parseable() {
    assert_eq!("Ctrl+Alt+1".parse::<Hotkey>().unwrap().key, KeyCode::Digit1);
    assert_eq!("ctrl+alt+f13".parse::<Hotkey>().unwrap().key, KeyCode::F13);
    assert_eq!("Ctrl+Alt+NumAdd".parse::<Hotkey>().unwrap().key, KeyCode::NumpadAdd);
    assert_eq!("Ctrl+Alt+Equals".parse::<Hotkey>().unwrap().key, KeyCode::Equals);
    assert_ne!(
        "Ctrl+Alt+1".parse::<Hotkey>().unwrap().key,
        "Ctrl+Alt+Num1".parse::<Hotkey>().unwrap().key
    );
}

#[test]
fn every_valid_hotkey_renders_and_parses_back() {
    for bits in 1u8..16 {
        for key in KeyCode::ALL {
            let hotkey = Hotkey::new(Modifiers(bits), key);
            for style in [MetaStyle::Win, MetaStyle::Cmd] {
                let text = hotkey.render(style);
                assert_eq!(Hotkey::parse(&text), Ok(hotkey), "{text}");
            }
        }
    }
}

#[test]
fn rendering_follows_the_conventional_order() {
    let hotkey = Hotkey::new(Modifiers::meta() | Modifiers::shift() | Modifiers::control(), KeyCode::Left);
    assert_eq!(hotkey.to_string(), "Ctrl+Shift+Win+Left");
    assert_eq!(hotkey.render(MetaStyle::Cmd), "Ctrl+Shift+Cmd+Left");
}

#[test]
fn an_empty_hotkey_is_empty() {
    assert_eq!(Hotkey::parse(""), Err(ParseHotkeyError::Empty));
    assert_eq!(Hotkey::parse("Ctrl+Banana"), Err(ParseHotkeyError::UnknownToken("Banana".into())));
}

#[test]
fn validity_and_meta_are_read_from_the_modifiers() {
    assert!(!Hotkey::new(Modifiers::none(), KeyCode::A).is_valid());
    assert!(Hotkey::new(Modifiers::alt(), KeyCode::A).is_valid());
    assert!(Hotkey::new(Modifiers::meta(), KeyCode::A).uses_meta());
    assert!(!Hotkey::new(Modifiers::control(), KeyCode::A).uses_meta());
    assert!(Modifiers::none().is_empty());
    assert_eq!(Modifiers::alt().union(Modifiers::shift()), Modifiers(5));
}

#[test]
fn hotkeys_round_trip_through_strings() {
    for s in ["Ctrl+Alt+Left", "Win+Alt+Up", "Ctrl+Alt+Shift+M"] {
        let parsed: Hotkey = s.parse().unwrap();
        assert_eq!(parsed.to_string().parse::<Hotkey>().unwrap(), parsed);
    }
}

#[test]
fn parsing_is_case_insensitive_and_alias_aware() {
    let a: Hotkey = "ctrl+alt+left".parse().unwrap();
    let b: Hotkey = "CONTROL + OPTION + Left".parse().unwrap();
    assert_eq!(a, b);
    assert_eq!("cmd+up".parse::<Hotkey>().unwrap().modifiers, Modifiers::meta());
    assert_eq!("win+up".parse::<Hotkey>().unwrap().modifiers, Modifiers::meta());
}

#[test]
fn key_labels_are_unique_so_parsing_is_unambiguous() {
    let mut labels: Vec<_> = KeyCode::ALL.iter().map(|k| k.label()).collect();
    labels.sort_unstable();
    let before = labels.len();
    labels.dedup();
    assert_eq!(before, labels.len());
}

#[test]
fn key_labels_are_unique_case_insensitively() {
    let mut labels: Vec<String> = KeyCode::ALL.iter().map(|k| k.label().to_ascii_lowercase()).collect();
    labels.sort();
    let before = labels.len();
    labels.dedup();
    assert_eq!(before, labels.len(), "labels must differ by more than case");
}

#[test]
fn every_key_round_trips_through_display_and_parse() {
    for key in KeyCode::ALL {
        let hotkey = Hotkey::new(Modifiers::control() | Modifiers::alt(), key);
        let rendered = hotkey.to_string();
        let parsed: Hotkey = rendered
            .parse()
            .unwrap_or_else(|e| panic!("{rendered:?} ({key:?}) failed to parse: {e:?}"));
        assert_eq!(parsed, hotkey, "{rendered:?} did not round-trip");
    }
}

#[test]
fn all_contains_every_key_exactly_once() {
    let mut seen = std::collections::HashSet::new();
    for key in KeyCode::ALL {
        assert!(seen.insert(key), "{key:?} appears twice in ALL");
    }
    assert_eq!(seen.len(), KeyCode::COUNT);
}
