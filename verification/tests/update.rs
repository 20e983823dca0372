use tile::build_kind::BuildKind;
use tile::update::{
    app_bundle_for_executable, suppresses_check, CheckOutcome, CheckStart, InstallStart,
    UpdateManager, UpdateStatus,
};

#[test]
fn installed_updates_are_not_regressed_by_another_check() {
    assert!(suppresses_check(&UpdateStatus::ReadyToRelaunch { version: "1.2.3".into() }));
    assert!(suppresses_check(&UpdateStatus::Downloading {
        version: "1.2.3".into(),
        downloaded_bytes: 1,
        total_bytes: None,
    }));
    assert!(!suppresses_check(&UpdateStatus::Current));
}

#[test]
fn finds_app_bundle_from_macos_executable() {
    let executable = "/Applications/Tile.app/Contents/MacOS/tile";
    assert_eq!(app_bundle_for_executable(executable), Some("/Applications/Tile.app".to_string()));
}

#[test]
fn rejects_executables_outside_an_app_bundle() {
    assert_eq!(app_bundle_for_executable("/usr/local/bin/tile"), None);
    assert_eq!(app_bundle_for_executable("/Applications/Tile/Contents/MacOS/tile"), None);
}

#[test]
fn development_builds_are_permanently_unavailable() {
    let mut manager = UpdateManager::new(BuildKind::Development);
    assert_eq!(manager.status(), UpdateStatus::Unavailable);
    assert_eq!(manager.begin_check(), CheckStart::Answer(UpdateStatus::Unavailable));
    assert_eq!(
        manager.begin_install(false),
        InstallStart::Refuse("updates are unavailable in development builds".into())
    );
}

#[test]
fn installed_builds_start_idle() {
    let manager = UpdateManager::new(BuildKind::Installed);
    assert_eq!(manager.status(), UpdateStatus::Idle);
}

#[test]
fn status_transitions_preserve_progress_and_errors() {
    let mut manager = UpdateManager::new(BuildKind::Installed);
    manager.set_status(UpdateStatus::Checking);
    assert_eq!(manager.status(), UpdateStatus::Checking);
    let downloading = UpdateStatus::Downloading {
        version: "1.2.3".into(),
        downloaded_bytes: 512,
        total_bytes: Some(1024),
    };
    manager.set_status(downloading.clone());
    assert_eq!(manager.status(), downloading);
    manager.set_status(UpdateStatus::Error { message: "offline".into() });
    assert_eq!(manager.status(), UpdateStatus::Error { message: "offline".into() });
}

#[test]
fn concurrent_check_guard_collapses_in_flight_checks() {
    let mut manager = UpdateManager::new(BuildKind::Installed);
    assert!(manager.try_begin_checking());
    assert!(!manager.try_begin_checking());
}

#[test]
fn concurrent_install_guard_collapses_in_flight_installs() {
    let mut manager = UpdateManager::new(BuildKind::Installed);
    assert!(manager.try_begin_installing());
    assert!(!manager.try_begin_installing());
}

#[test]
fn a_check_in_flight_answers_the_current_status() {
    let mut manager = UpdateManager::new(BuildKind::Installed);
    assert_eq!(manager.begin_check(), CheckStart::Run);
    assert_eq!(manager.status(), UpdateStatus::Checking);
    assert_eq!(manager.begin_check(), CheckStart::Answer(UpdateStatus::Checking));
}

#[test]
fn a_found_update_can_be_downloaded_and_installed() {
    let mut manager = UpdateManager::new(BuildKind::Installed);
    assert_eq!(manager.begin_check(), CheckStart::Run);
    let status = manager.finish_check(CheckOutcome::Found {
        version: "0.3.0".into(),
        notes: Some("notes".into()),
        date: None,
    });
    assert_eq!(
        status,
        UpdateStatus::Available { version: "0.3.0".into(), notes: Some("notes".into()), date: None }
    );
    assert_eq!(manager.begin_install(false), InstallStart::Download { version: "0.3.0".into() });
    assert_eq!(
        manager.status(),
        UpdateStatus::Downloading { version: "0.3.0".into(), downloaded_bytes: 0, total_bytes: None }
    );
    assert_eq!(
        manager.begin_install(false),
        InstallStart::Refuse("an update installation is already in progress".into())
    );
    manager.download_progress(&"0.3.0".to_string(), 10, Some(20));
    assert_eq!(
        manager.status(),
        UpdateStatus::Downloading {
            version: "0.3.0".into(),
            downloaded_bytes: 10,
            total_bytes: Some(20)
        }
    );
    let done = manager.finish_install(&"0.3.0".to_string(), None, true);
    assert_eq!(done, UpdateStatus::ReadyToRelaunch { version: "0.3.0".into() });
    assert_eq!(manager.begin_install(true), InstallStart::Relaunch);
    assert_eq!(manager.begin_check(), CheckStart::Answer(done));
}

#[test]
fn installing_without_an_update_is_refused() {
    let mut manager = UpdateManager::new(BuildKind::Installed);
    manager.begin_check();
    manager.finish_check(CheckOutcome::NoUpdate);
    assert_eq!(manager.status(), UpdateStatus::Current);
    assert_eq!(manager.begin_install(false), InstallStart::Refuse("no update is available".into()));
    assert!(manager.try_begin_installing());
}

#[test]
fn a_failed_check_reports_its_message() {
    let mut manager = UpdateManager::new(BuildKind::Installed);
    manager.begin_check();
    assert_eq!(
        manager.finish_check(CheckOutcome::Failed("offline".into())),
        UpdateStatus::Error { message: "offline".into() }
    );
    assert_eq!(manager.begin_check(), CheckStart::Run);
}
