use semver::Version;
use tile::update_state::{
    decide, manifest_from_raw, reduce, CheckSource, Decision, Event, ParseError,
    Platform, RawManifest, SemVersion, UpdatePhase,
};

fn version(value: &str) -> SemVersion {
    SemVersion::parse(value).expect("test version should be valid")
}

#[test]
fn equal_versions_are_up_to_date() {
    assert_eq!(decide(&version("0.2.0"), &version("0.2.0")), Decision::UpToDate);
}

#[test]
fn patch_minor_and_major_bumps_are_available() {
    for latest in ["0.2.1", "0.3.0", "1.0.0"] {
        let latest = version(latest);
        assert_eq!(
            decide(&version("0.2.0"), &latest),
            Decision::UpdateAvailable { version: latest.clone() }
        );
    }
}

#[test]
fn a_newer_running_version_is_ahead() {
    assert_eq!(decide(&version("0.3.0"), &version("0.2.0")), Decision::Ahead);
}

#[test]
fn a_stable_release_succeeds_its_prerelease() {
    let latest = version("0.2.0");
    assert_eq!(
        decide(&version("0.2.0-rc.1"), &latest),
        Decision::UpdateAvailable { version: latest }
    );
}

#[test]
fn malformed_versions_are_parse_errors() {
    for raw in ["", "not-a-version", "0.2", "v0.2.0"] {
        assert!(Version::parse(raw).is_err(), "{raw:?} must not parse");
        assert!(matches!(manifest_from_raw(raw_manifest(raw)), Err(ParseError::Version(_))));
    }
    let manifest = manifest_from_raw(raw_manifest("1.2.3")).unwrap();
    assert_eq!(*manifest.version.version(), Version::new(1, 2, 3));
    assert_eq!(manifest.version.text(), "1.2.3");
}

#[test]
fn valid_transitions_follow_the_update_lifecycle() {
    let cases = [
        (UpdatePhase::Idle, Event::CheckRequested(CheckSource::Manual), UpdatePhase::Checking),
        (UpdatePhase::Checking, Event::CheckCompleted(Decision::UpToDate), UpdatePhase::UpToDate),
        (UpdatePhase::UpToDate, Event::Dismiss, UpdatePhase::Idle),
        (
            UpdatePhase::Checking,
            Event::CheckCompleted(Decision::UpdateAvailable { version: version("0.3.0") }),
            UpdatePhase::Available { version: version("0.3.0") },
        ),
        (UpdatePhase::Available { version: version("0.3.0") }, Event::Confirm, UpdatePhase::Downloading),
        (UpdatePhase::Downloading, Event::DownloadCompleted, UpdatePhase::ReadyToInstall),
        (UpdatePhase::ReadyToInstall, Event::BeginQuiescing, UpdatePhase::Quiescing),
        (UpdatePhase::Quiescing, Event::BeginInstalling, UpdatePhase::Installing),
    ];
    for (phase, event, expected) in cases {
        assert_eq!(reduce(phase, event), expected);
    }
}

#[test]
fn duplicate_and_overlapping_checks_are_rejected() {
    for event in [Event::CheckRequested(CheckSource::Manual), Event::CheckRequested(CheckSource::Scheduled)] {
        assert_eq!(reduce(UpdatePhase::Checking, event), UpdatePhase::Checking);
    }
}

#[test]
fn a_manual_check_cannot_overlap_a_scheduled_check() {
    let phase = reduce(UpdatePhase::Idle, Event::CheckRequested(CheckSource::Scheduled));
    assert_eq!(reduce(phase, Event::CheckRequested(CheckSource::Manual)), UpdatePhase::Checking);
}

#[test]
fn failure_is_reported_and_can_return_to_idle() {
    let failed = reduce(UpdatePhase::Checking, Event::CheckFailed("manifest unavailable".into()));
    assert_eq!(failed, UpdatePhase::Failed { reason: "manifest unavailable".into() });
    assert_eq!(reduce(failed, Event::Dismiss), UpdatePhase::Idle);
}

#[test]
fn cancellation_and_quit_during_download_return_to_idle() {
    for event in [Event::Cancel, Event::Quit] {
        assert_eq!(reduce(UpdatePhase::Downloading, event), UpdatePhase::Idle);
    }
}

#[test]
fn stale_events_do_not_advance_the_wrong_phase() {
    let available = UpdatePhase::Available { version: version("0.3.0") };
    assert_eq!(reduce(available.clone(), Event::DownloadCompleted), available);
    assert_eq!(reduce(UpdatePhase::Idle, Event::BeginInstalling), UpdatePhase::Idle);
}

#[test]
fn being_ahead_is_presented_as_up_to_date() {
    assert_eq!(reduce(UpdatePhase::Checking, Event::CheckCompleted(Decision::Ahead)), UpdatePhase::UpToDate);
}

fn raw_manifest(version: &str) -> RawManifest {
    RawManifest {
        version: version.into(),
        notes: Some("A safer updater".into()),
        pub_date: Some("2026-08-21T12:00:00Z".into()),
        platforms: vec![(
            "darwin-aarch64".into(),
            Platform {
                signature: "mac-signature".into(),
                url: "https://example.com/Tile.app.tar.gz".into(),
            },
        )],
    }
}

#[test]
fn parses_a_well_formed_tauri_manifest() {
    let manifest = manifest_from_raw(raw_manifest("0.2.0")).expect("manifest should parse");
    assert_eq!(*manifest.version.version(), Version::new(0, 2, 0));
    assert_eq!(manifest.notes.as_deref(), Some("A safer updater"));
    assert_eq!(
        manifest.platform("darwin-aarch64"),
        Some(&Platform {
            signature: "mac-signature".into(),
            url: "https://example.com/Tile.app.tar.gz".into(),
        })
    );
    assert_eq!(manifest.platform("windows-x86_64"), None);
}

#[test]
fn malformed_manifest_versions_are_errors() {
    assert!(matches!(manifest_from_raw(raw_manifest("not-a-version")), Err(ParseError::Version(_))));
}

#[test]
fn a_missing_current_platform_is_not_an_error() {
    let manifest = manifest_from_raw(RawManifest {
        version: "0.2.0".into(),
        notes: Some("No artifact for this target".into()),
        pub_date: Some("2026-08-21T12:00:00Z".into()),
        platforms: vec![],
    })
    .expect("omitting a target is valid");
    assert_eq!(manifest.platform("windows-x86_64"), None);
}

#[test]
fn platform_keys_name_macos_darwin() {
    assert_eq!(tile::update_state::platform_key("macos", "aarch64"), "darwin-aarch64");
    assert_eq!(tile::update_state::platform_key("windows", "x86_64"), "windows-x86_64");
}

#[test]
fn a_target_listed_twice_is_served_by_its_later_entry() {
    let mut raw = raw_manifest("0.2.0");
    raw.platforms.push((
        "darwin-aarch64".into(),
        Platform { signature: "newer".into(), url: "https://example.com/b".into() },
    ));
    let manifest = manifest_from_raw(raw).unwrap();
    assert_eq!(manifest.platform("darwin-aarch64").map(|p| p.signature.as_str()), Some("newer"));
}

#[test]
fn versions_compare_by_precedence_not_by_text() {
    assert_eq!(
        decide(&version("0.10.0"), &version("0.9.0")),
        Decision::Ahead
    );
    assert_eq!(
        decide(&version("0.9.0"), &version("0.10.0")),
        Decision::UpdateAvailable { version: version("0.10.0") }
    );
    assert!(SemVersion::parse("1.2").is_err());
}
