use tile::build_kind::BuildKind;
use tile::hotkey::Modifiers;
use tile::native_errors::{
    classify_setpos_error, current_modifiers, is_already_registered, is_standard_window,
    map_ax_error, reconcile_on_launch, skip_for_development, AX_ERROR_API_DISABLED,
    AX_ERROR_CANNOT_COMPLETE, AX_ERROR_NOT_IMPLEMENTED, HRESULT_ACCESS_DENIED,
    HRESULT_HOTKEY_ALREADY_REGISTERED,
};
use tile::platform::PlatformError;

#[test]
fn accessibility_errors_map_to_platform_errors() {
    assert_eq!(
        map_ax_error("move", AX_ERROR_API_DISABLED),
        PlatformError::PermissionDenied("Accessibility permission not granted".into())
    );
    assert_eq!(
        map_ax_error("move", AX_ERROR_NOT_IMPLEMENTED),
        PlatformError::os("move", "window does not implement this attribute")
    );
    assert_eq!(
        map_ax_error("move", AX_ERROR_CANNOT_COMPLETE),
        PlatformError::os("move", "the application did not respond")
    );
    assert_eq!(map_ax_error("move", -25200), PlatformError::os("move", "AXError -25200"));
}

#[test]
fn elevated_windows_are_a_permission_problem() {
    assert!(matches!(
        classify_setpos_error(HRESULT_ACCESS_DENIED, "Access is denied."),
        PlatformError::PermissionDenied(_)
    ));
    assert_eq!(
        classify_setpos_error(0x8000_4005, "Unspecified error"),
        PlatformError::os("SetWindowPos", "Unspecified error")
    );
    assert!(is_already_registered(HRESULT_HOTKEY_ALREADY_REGISTERED));
    assert!(!is_already_registered(HRESULT_ACCESS_DENIED));
}

#[test]
fn only_standard_windows_are_moved() {
    assert!(is_standard_window(Some("AXStandardWindow")));
    assert!(is_standard_window(None));
    assert!(!is_standard_window(Some("AXDialog")));
}

#[test]
fn held_keys_become_modifiers() {
    assert_eq!(current_modifiers(false, false, false, false, false), Modifiers::none());
    assert_eq!(current_modifiers(true, true, false, false, false), Modifiers::control() | Modifiers::alt());
    assert_eq!(current_modifiers(false, false, true, false, true), Modifiers::shift() | Modifiers::meta());
}

#[test]
fn only_installed_builds_touch_the_login_item() {
    assert!(skip_for_development(BuildKind::Development, true));
    assert!(!skip_for_development(BuildKind::Installed, true));
    assert_eq!(reconcile_on_launch(BuildKind::Development, true, Some(false)), None);
    assert_eq!(reconcile_on_launch(BuildKind::Installed, true, Some(true)), None);
    assert_eq!(reconcile_on_launch(BuildKind::Installed, true, None), Some(true));
    assert_eq!(reconcile_on_launch(BuildKind::Installed, false, None), None);
    assert_eq!(reconcile_on_launch(BuildKind::Installed, false, Some(true)), Some(false));
}
