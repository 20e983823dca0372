use tile::build_kind::BuildKind;
use tile::capability::UpdateCapability;

#[test]
fn a_missing_variable_is_notification_only_for_an_installed_build() {
    assert_eq!(
        UpdateCapability::from_env_value(BuildKind::Installed, None),
        UpdateCapability::NotifyOnly
    );
}

#[test]
fn an_empty_variable_is_notification_only_for_an_installed_build() {
    for raw in ["", "   "] {
        assert_eq!(
            UpdateCapability::from_env_value(BuildKind::Installed, Some(raw)),
            UpdateCapability::NotifyOnly
        );
    }
}

#[test]
fn only_enabled_opts_into_installation() {
    assert_eq!(
        UpdateCapability::from_env_value(BuildKind::Installed, Some("enabled")),
        UpdateCapability::Install
    );
}

#[test]
fn capability_the_value_is_case_insensitive_and_trimmed() {
    for raw in ["ENABLED", "Enabled", "  enabled  ", "\tenabled\n"] {
        assert_eq!(
            UpdateCapability::from_env_value(BuildKind::Installed, Some(raw)),
            UpdateCapability::Install,
            "{raw:?} should enable installation"
        );
    }
}

#[test]
fn disabled_is_spelled_out_without_an_install_path() {
    assert_eq!(
        UpdateCapability::from_env_value(BuildKind::Installed, Some("disabled")),
        UpdateCapability::NotifyOnly
    );
}

#[test]
fn an_unrecognized_value_falls_back_to_notification_only() {
    for raw in ["enable", "install", "release", "1", "true"] {
        assert_eq!(
            UpdateCapability::from_env_value(BuildKind::Installed, Some(raw)),
            UpdateCapability::NotifyOnly,
            "{raw:?} must not enable installation"
        );
    }
}

#[test]
fn a_development_build_is_disabled_when_the_variable_is_missing() {
    assert_eq!(
        UpdateCapability::from_env_value(BuildKind::Development, None),
        UpdateCapability::Disabled
    );
}

#[test]
fn a_development_build_cannot_opt_into_installation() {
    assert_eq!(
        UpdateCapability::from_env_value(BuildKind::Development, Some("enabled")),
        UpdateCapability::Disabled
    );
}

#[test]
fn a_development_build_ignores_unrecognized_values() {
    assert_eq!(
        UpdateCapability::from_env_value(BuildKind::Development, Some("surprise")),
        UpdateCapability::Disabled
    );
}
