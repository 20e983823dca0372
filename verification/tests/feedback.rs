use tile::feedback::{permission_dialog_text, react_to_failure, Reaction};
use tile::platform::PlatformError;
use tile::ratelimit::RateLimiter;

const SECOND: u64 = 1_000_000_000;

fn denied() -> PlatformError {
    PlatformError::PermissionDenied("Accessibility permission not granted".to_string())
}

#[test]
fn permission_denied_shows_the_dialog_once_per_cooldown() {
    let mut limiter = RateLimiter::new(5 * SECOND);
    let t0 = 100 * SECOND;
    assert_eq!(react_to_failure(&denied(), &mut limiter, t0), Reaction::ShowPermissionDialog);
    assert_eq!(react_to_failure(&denied(), &mut limiter, t0 + SECOND), Reaction::LogOnly);
    assert_eq!(
        react_to_failure(&denied(), &mut limiter, t0 + 5 * SECOND),
        Reaction::ShowPermissionDialog
    );
}

#[test]
fn other_failures_are_only_logged_and_leave_the_cooldown_unarmed() {
    let mut limiter = RateLimiter::new(5 * SECOND);
    let t0 = 100 * SECOND;
    assert_eq!(
        react_to_failure(&PlatformError::NoFocusedWindow, &mut limiter, t0),
        Reaction::LogOnly
    );
    assert_eq!(
        react_to_failure(&PlatformError::os("move window", "boom"), &mut limiter, t0),
        Reaction::LogOnly
    );
    // The limiter was not consumed, so a denial right after still shows the dialog.
    assert_eq!(react_to_failure(&denied(), &mut limiter, t0), Reaction::ShowPermissionDialog);
}

#[test]
fn dialog_text_quotes_the_error() {
    let text = permission_dialog_text(&denied());
    assert_eq!(
        text,
        "Tile needs Accessibility permission to move windows.\n\n\
         permission denied: Accessibility permission not granted\n\n\
         Grant it in System Settings \u{25b8} Privacy & Security \u{25b8} Accessibility, then try again."
    );
}

#[test]
fn error_messages_render_like_their_display_text() {
    assert_eq!(denied().message(), "permission denied: Accessibility permission not granted");
    assert_eq!(PlatformError::NoFocusedWindow.message(), "no movable focused window");
    let reg = PlatformError::HotkeyRegistration {
        hotkey: "Ctrl+Alt+Left".to_string(),
        reason: "in use".to_string(),
    };
    assert_eq!(reg.message(), "failed to register hotkey Ctrl+Alt+Left: in use");
    assert_eq!(PlatformError::os("move window", "boom").message(), "move window: boom");
    assert_eq!(
        PlatformError::Unsupported("snapping").message(),
        "snapping is not supported on this platform"
    );
    assert_eq!(
        PlatformError::HotkeyStateUnknown("state lost".to_string()).message(),
        "state lost"
    );
}
