use tile::action::WindowAction;
use tile::build_kind::BuildKind;
use tile::config_store::{config_file_path, is_first_run, origin_of, ConfigOrigin, ReadOutcome};
use tile::dto::{failure_dto, update_status_dto, BuildKindDto, PermissionStatusDto, UpdateStatusDto};
use tile::hotkey::{Hotkey, KeyCode, Modifiers};
use tile::platform::{
    hotkey_backend, HotkeyBackend, HotkeyFailure, PermissionStatus, PlatformError,
    UnsupportedWindowBackend,
};
use tile::state::is_permission_denied;
use tile::update::UpdateStatus;
use tile::win_window::{device_name, is_manageable, WindowFacts, WS_CAPTION};

#[test]
fn device_name_stops_at_nul() {
    let mut raw = [0u16; 32];
    for (i, c) in "\\\\.\\DISPLAY1".encode_utf16().enumerate() {
        raw[i] = c;
    }
    assert_eq!(device_name(&raw), "\\\\.\\DISPLAY1");
}

#[test]
fn a_full_buffer_is_read_to_its_end() {
    let raw = [0x41u16; 32];
    assert_eq!(device_name(&raw), "A".repeat(32));
}

#[test]
fn only_normal_windows_are_manageable() {
    let normal = WindowFacts {
        is_shell_window: false,
        visible: true,
        style: WS_CAPTION,
        ex_style: 0,
        cloaked: false,
        shell_class: false,
    };
    assert!(is_manageable(normal));
    assert!(!is_manageable(WindowFacts { style: 0x0080_0000, ..normal }));
    assert!(!is_manageable(WindowFacts { ex_style: 0x80, ..normal }));
    assert!(!is_manageable(WindowFacts { cloaked: true, ..normal }));
    assert!(!is_manageable(WindowFacts { visible: false, ..normal }));
}

#[test]
fn only_a_missing_config_is_a_first_run() {
    assert_eq!(origin_of(ReadOutcome::NotFound), ConfigOrigin::Missing);
    assert_eq!(origin_of(ReadOutcome::Read { parsed: true }), ConfigOrigin::Loaded);
    assert_eq!(origin_of(ReadOutcome::Read { parsed: false }), ConfigOrigin::Corrupt);
    assert_eq!(origin_of(ReadOutcome::Unreadable), ConfigOrigin::Corrupt);
    assert!(is_first_run(ConfigOrigin::Missing));
    assert!(!is_first_run(ConfigOrigin::Corrupt));
    assert!(!is_first_run(ConfigOrigin::Loaded));
}

#[test]
fn the_config_file_sits_inside_the_directory() {
    let path = config_file_path("/tmp/tile");
    assert!(path == "/tmp/tile/config.json" || path == "/tmp/tile\\config.json");
}

#[test]
fn dto_conversions_keep_every_field() {
    assert_eq!(BuildKindDto::from(BuildKind::Installed), BuildKindDto::Installed);
    assert_eq!(PermissionStatusDto::from(PermissionStatus::Denied), PermissionStatusDto::Denied);
    let status = UpdateStatus::Downloading { version: "1.0.0".into(), downloaded_bytes: 3, total_bytes: Some(9) };
    assert_eq!(
        update_status_dto(&status),
        UpdateStatusDto::Downloading { version: "1.0.0".into(), downloaded_bytes: 3, total_bytes: Some(9) }
    );
    let failure = HotkeyFailure {
        hotkey: Hotkey::new(Modifiers::alt(), KeyCode::A),
        action: WindowAction::Center,
        reason: "taken".into(),
    };
    let dto = failure_dto(&failure);
    assert_eq!((dto.hotkey, dto.action, dto.reason.as_str()), (failure.hotkey, failure.action, "taken"));
}

#[test]
fn permission_errors_are_classified() {
    assert!(is_permission_denied(&PlatformError::PermissionDenied("no".into())));
    assert!(!is_permission_denied(&PlatformError::NoFocusedWindow));
    assert_eq!(
        PlatformError::os("ctx", "msg"),
        PlatformError::Os { context: "ctx".into(), source_message: "msg".into() }
    );
    assert_eq!(UnsupportedWindowBackend.permission_status(true), PermissionStatus::NotRequired);
}

#[test]
fn ids_round_trip_and_are_unique() {
    let mut ids: Vec<_> = WindowAction::ALL.iter().map(|a| a.id()).collect();
    ids.sort_unstable();
    let before = ids.len();
    ids.dedup();
    assert_eq!(before, ids.len(), "action ids must be unique");
    for a in WindowAction::ALL {
        assert_eq!(a.id().parse::<WindowAction>().unwrap(), a);
    }
    assert!("nope".parse::<WindowAction>().is_err());
}

#[test]
fn action_ids_round_trip() {
    for action in WindowAction::ALL {
        assert_eq!(action.id().parse::<WindowAction>(), Ok(action));
    }
    assert!("nowhere".parse::<WindowAction>().is_err());
    assert_eq!(WindowAction::MoveLeft.label(), "Move Left");
    assert!(WindowAction::Restore.uses_history());
}

#[test]
fn unsupported_platforms_refuse_hotkeys() {
    let mut backend = hotkey_backend();
    assert_eq!(backend.apply(&[]), Err(PlatformError::Unsupported("global hotkeys")));
    backend.shutdown();
    assert_eq!(
        UnsupportedWindowBackend.focused_window_error(),
        PlatformError::Unsupported("window management")
    );
}

#[test]
fn display_throws_have_stable_ids() {
    assert_eq!(WindowAction::PreviousDisplay.id(), "previous-display");
    assert_eq!(WindowAction::NextDisplay.id(), "next-display");
    assert_eq!("next-display".parse::<WindowAction>().unwrap(), WindowAction::NextDisplay);
    assert_eq!(WindowAction::PreviousDisplay.label(), "Previous Display");
}

#[test]
fn device_names_decode_pairs_and_replace_lone_surrogates() {
    let mut raw = [0u16; 32];
    let units: Vec<u16> = "D\u{1F5A5}".encode_utf16().collect();
    raw[..units.len()].copy_from_slice(&units);
    raw[units.len()] = 0xD800;
    raw[units.len() + 1] = u16::from(b'x');
    assert_eq!(device_name(&raw), "D\u{1F5A5}\u{FFFD}x");
}
