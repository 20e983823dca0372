use tile::build_kind::BuildKind;

#[test]
fn a_missing_variable_is_a_development_build() {
    assert_eq!(BuildKind::from_env_value(None), BuildKind::Development);
}

#[test]
fn an_empty_variable_is_a_development_build() {
    assert_eq!(BuildKind::from_env_value(Some("")), BuildKind::Development);
    assert_eq!(BuildKind::from_env_value(Some("   ")), BuildKind::Development);
}

#[test]
fn only_installed_opts_in() {
    assert_eq!(BuildKind::from_env_value(Some("installed")), BuildKind::Installed);
}

#[test]
fn build_kind_the_value_is_case_insensitive_and_trimmed() {
    for raw in ["INSTALLED", "Installed", "  installed  ", "\tinstalled\n"] {
        assert_eq!(
            BuildKind::from_env_value(Some(raw)),
            BuildKind::Installed,
            "{raw:?} should classify as installed"
        );
    }
}

#[test]
fn development_is_spelled_out_without_a_warning_path() {
    assert_eq!(BuildKind::from_env_value(Some("development")), BuildKind::Development);
}

#[test]
fn an_unrecognized_value_falls_back_to_development() {
    for raw in ["instaled", "release", "prod", "1", "true"] {
        assert_eq!(
            BuildKind::from_env_value(Some(raw)),
            BuildKind::Development,
            "{raw:?} must not be mistaken for an installed build"
        );
    }
}

#[test]
fn the_two_kinds_never_share_a_config_directory_name() {
    assert_eq!(BuildKind::Installed.project_app_name(), "Tile");
    assert_ne!(
        BuildKind::Development.project_app_name(),
        BuildKind::Installed.project_app_name()
    );
}

#[test]
fn only_an_installed_build_manages_the_login_item() {
    assert!(BuildKind::Installed.manages_autostart());
    assert!(!BuildKind::Development.manages_autostart());
    assert!(BuildKind::Development.is_development());
    assert!(!BuildKind::Installed.is_development());
}

#[test]
fn only_an_installed_build_refuses_a_second_instance() {
    assert!(BuildKind::Installed.enforces_single_instance());
    assert!(!BuildKind::Development.enforces_single_instance());
}

#[test]
fn an_installed_build_carries_no_development_labelling() {
    assert_eq!(BuildKind::Installed.tray_tooltip(), "Tile");
    assert_eq!(BuildKind::Installed.window_title(), "Tile Settings");
    assert_eq!(BuildKind::Installed.tray_header(), None);
}

#[test]
fn a_development_build_is_labelled_everywhere() {
    assert_eq!(BuildKind::Development.tray_tooltip(), "Tile (Development)");
    assert_eq!(BuildKind::Development.window_title(), "Tile Settings (Development)");
    assert_eq!(BuildKind::Development.tray_header(), Some("Tile — Development build"));
}

#[test]
fn unicode_whitespace_is_trimmed_like_str_trim() {
    assert_eq!(
        BuildKind::from_env_value(Some("\u{a0}installed\u{3000}")),
        BuildKind::Installed
    );
    assert_eq!(BuildKind::from_env_value(Some("in stalled")), BuildKind::Development);
}

#[test]
fn the_development_config_directory_name_is_pinned() {
    assert_eq!(BuildKind::Development.project_app_name(), "Tile-Development");
}
