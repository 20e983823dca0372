use tile::build_kind::BuildKind;
use tile::update::{needs_badge, tray_tooltip, update_menu_state, UpdateStatus};

fn available(version: &str) -> UpdateStatus {
    UpdateStatus::Available { version: version.into(), notes: None, date: None }
}

#[test]
fn update_menu_labels_follow_status() {
    assert_eq!(
        update_menu_state(&UpdateStatus::Checking),
        ("Checking for Updates…".into(), false)
    );
    assert_eq!(update_menu_state(&available("1.2.3")), ("Update Tile to 1.2.3…".into(), true));
    assert!(!update_menu_state(&UpdateStatus::Unavailable).1);
}

#[test]
fn available_updates_change_the_tooltip() {
    assert_eq!(tray_tooltip(BuildKind::Installed, &available("1.2.3")), "Tile — 1.2.3 available");
}

#[test]
fn badges_only_appear_for_development_or_pending_updates() {
    assert!(needs_badge(BuildKind::Development, &UpdateStatus::Current));
    assert!(needs_badge(BuildKind::Installed, &available("1.2.3")));
    assert!(!needs_badge(BuildKind::Installed, &UpdateStatus::Current));
}

#[test]
fn every_status_has_its_menu_item() {
    assert_eq!(
        update_menu_state(&UpdateStatus::Unavailable),
        ("Check for Updates (Unavailable in Development)".into(), false)
    );
    assert_eq!(update_menu_state(&UpdateStatus::Idle), ("Check for Updates…".into(), true));
    assert_eq!(update_menu_state(&UpdateStatus::Current), ("Check for Updates…".into(), true));
    assert_eq!(
        update_menu_state(&UpdateStatus::Downloading {
            version: "2.0.0".into(),
            downloaded_bytes: 1,
            total_bytes: None
        }),
        ("Downloading Tile 2.0.0…".into(), false)
    );
    assert_eq!(
        update_menu_state(&UpdateStatus::ReadyToRelaunch { version: "2.0.0".into() }),
        ("Relaunch Tile 2.0.0".into(), true)
    );
    assert_eq!(
        update_menu_state(&UpdateStatus::Error { message: "offline".into() }),
        ("Retry Update Check…".into(), true)
    );
}

#[test]
fn tooltips_fall_back_to_the_build_kind() {
    assert_eq!(tray_tooltip(BuildKind::Development, &UpdateStatus::Idle), "Tile (Development)");
    assert_eq!(tray_tooltip(BuildKind::Installed, &UpdateStatus::Current), "Tile");
    assert_eq!(
        tray_tooltip(
            BuildKind::Installed,
            &UpdateStatus::ReadyToRelaunch { version: "2.0.0".into() }
        ),
        "Tile — relaunch to finish 2.0.0"
    );
    assert!(needs_badge(
        BuildKind::Installed,
        &UpdateStatus::ReadyToRelaunch { version: "2.0.0".into() }
    ));
}
