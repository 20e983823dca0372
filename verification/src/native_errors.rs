//! How native status codes become [`PlatformError`]s, and the small native
//! facts the backends decide on: standard macOS windows, the modifier keys
//! held at a keystroke, and whether the OS login item is touched.

use vstd::prelude::*;
use vstd::string::StringExecFns;

use crate::build_kind::BuildKind;
use crate::hotkey::Modifiers;
use crate::mac_hotkeys::{decimal, decimal_text};
use crate::platform::PlatformError;

verus! {

/// `kAXErrorCannotComplete`.
pub const AX_ERROR_CANNOT_COMPLETE: i32 = -25204;

/// `kAXErrorNotImplemented`.
pub const AX_ERROR_NOT_IMPLEMENTED: i32 = -25208;

/// `kAXErrorAPIDisabled`: Accessibility permission is missing.
pub const AX_ERROR_API_DISABLED: i32 = -25211;

/// `HRESULT_FROM_WIN32(ERROR_ACCESS_DENIED)`.
pub const HRESULT_ACCESS_DENIED: u32 = 0x8007_0005;

/// `HRESULT_FROM_WIN32(ERROR_HOTKEY_ALREADY_REGISTERED)`.
pub const HRESULT_HOTKEY_ALREADY_REGISTERED: u32 = 0x8007_0581;

/// Maps an `AXError` to a [`PlatformError`]; a disabled API means the
/// Accessibility permission is missing.
pub fn map_ax_error(context: &str, err: i32) -> (r: PlatformError)
    ensures
        err == AX_ERROR_API_DISABLED ==> (r matches PlatformError::PermissionDenied(m) && m@
            == "Accessibility permission not granted"@),
        err == AX_ERROR_NOT_IMPLEMENTED ==> (r matches PlatformError::Os { context: c, source_message: m }
            && c@ == context@ && m@ == "window does not implement this attribute"@),
        err == AX_ERROR_CANNOT_COMPLETE ==> (r matches PlatformError::Os { context: c, source_message: m }
            && c@ == context@ && m@ == "the application did not respond"@),
        err != AX_ERROR_API_DISABLED && err != AX_ERROR_NOT_IMPLEMENTED && err
            != AX_ERROR_CANNOT_COMPLETE ==> (r matches PlatformError::Os {
            context: c,
            source_message: m,
        } && c@ == context@ && m@ == "AXError "@ + decimal(err as int)),
{
    if err == AX_ERROR_API_DISABLED {
        PlatformError::PermissionDenied("Accessibility permission not granted".to_owned())
    } else if err == AX_ERROR_NOT_IMPLEMENTED {
        PlatformError::os(context, "window does not implement this attribute")
    } else if err == AX_ERROR_CANNOT_COMPLETE {
        PlatformError::os(context, "the application did not respond")
    } else {
        let mut message = "AXError ".to_owned();
        let code = decimal_text(err);
        message.append(code.as_str());
        PlatformError::os(context, message.as_str())
    }
}

/// Whether a window's `AXSubrole` marks it as standard; a window without a
/// subrole counts as standard.
pub fn is_standard_window(subrole: Option<&str>) -> (r: bool)
    ensures
        r == (match subrole {
            Some(s) => s@ == "AXStandardWindow"@,
            None => true,
        }),
{
    match subrole {
        Some(s) => {
            let a = crate::text::chars_of(s);
            let b = crate::text::chars_of("AXStandardWindow");
            crate::text::chars_eq(a.as_slice(), b.as_slice())
        },
        None => true,
    }
}

/// Maps a failed `SetWindowPos`: an access-denied code means the window
/// belongs to an elevated process.
pub fn classify_setpos_error(code: u32, message: &str) -> (r: PlatformError)
    ensures
        code == HRESULT_ACCESS_DENIED ==> (r matches PlatformError::PermissionDenied(m) && m@
            == "the focused window belongs to a process running as administrator; run Tile as administrator to manage it"@),
        code != HRESULT_ACCESS_DENIED ==> (r matches PlatformError::Os { context: c, source_message: m }
            && c@ == "SetWindowPos"@ && m@ == message@),
{
    if code == HRESULT_ACCESS_DENIED {
        PlatformError::PermissionDenied(
            "the focused window belongs to a process running as administrator; run Tile as administrator to manage it".to_owned(),
        )
    } else {
        PlatformError::os("SetWindowPos", message)
    }
}

/// Whether a failed `RegisterHotKey` means the shortcut is already taken.
pub fn is_already_registered(code: u32) -> (r: bool)
    ensures
        r == (code == HRESULT_HOTKEY_ALREADY_REGISTERED),
{
    code == HRESULT_HOTKEY_ALREADY_REGISTERED
}

/// The modifiers held at a keystroke, from which modifier keys are down;
/// either Windows key counts as meta.
pub fn current_modifiers(control: bool, alt: bool, shift: bool, left_win: bool, right_win: bool) -> (r:
    Modifiers)
    ensures
        r.0 == (if control {
            2u8
        } else {
            0u8
        }) | (if alt {
            4u8
        } else {
            0u8
        }) | (if shift {
            1u8
        } else {
            0u8
        }) | (if left_win || right_win {
            8u8
        } else {
            0u8
        }),
{
    let c: u8 = if control {
        2
    } else {
        0
    };
    let a: u8 = if alt {
        4
    } else {
        0
    };
    let s: u8 = if shift {
        1
    } else {
        0
    };
    let w: u8 = if left_win || right_win {
        8
    } else {
        0
    };
    Modifiers(c | a | s | w)
}

/// A development build persists the launch-on-login preference but never
/// touches the login item of the installed copy.
pub fn skip_for_development(kind: BuildKind, desired: bool) -> (r: bool)
    ensures
        r == (kind == BuildKind::Development),
{
    !kind.manages_autostart()
}

/// The login-item state to write at launch, if any: nothing on development
/// builds, nothing when the item already agrees (an unreadable state counts
/// as disabled), otherwise the preference.
pub fn reconcile_on_launch(kind: BuildKind, desired: bool, enabled_now: Option<bool>) -> (r: Option<
    bool,
>)
    ensures
        r == (if kind == BuildKind::Development {
            None
        } else if (match enabled_now {
            Some(e) => e,
            None => false,
        }) == desired {
            None
        } else {
            Some(desired)
        }),
{
    if skip_for_development(kind, desired) {
        return None;
    }
    let now = match enabled_now {
        Some(e) => e,
        None => false,
    };
    if now == desired {
        None
    } else {
        Some(desired)
    }
}

} // verus!
