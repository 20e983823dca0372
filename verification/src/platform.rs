//! The platform boundary: errors a backend reports, permission states, and
//! the shape of a hotkey apply request and its report.

use vstd::prelude::*;
use vstd::string::StringExecFns;

use crate::action::WindowAction;
use crate::hotkey::Hotkey;

verus! {

/// Errors surfaced by a platform backend.
#[derive(Debug, Clone, PartialEq, Eq)]
pub enum PlatformError {
    /// The OS denied access to other applications' windows.
    PermissionDenied(String),
    /// There is no focused window, or it is not one Tile can move.
    NoFocusedWindow,
    /// The hotkey could not be claimed from the OS.
    HotkeyRegistration { hotkey: String, reason: String },
    /// A native API returned an unexpected failure.
    Os { context: String, source_message: String },
    /// The feature does not exist on this platform.
    Unsupported(&'static str),
    /// A hotkey change was interrupted and the native state is not known.
    HotkeyStateUnknown(String),
}

impl PlatformError {
    /// An [`PlatformError::Os`] error carrying both texts unchanged.
    pub fn os(context: &str, source_message: &str) -> (r: PlatformError)
        ensures
            r matches PlatformError::Os { context: c, source_message: m } && c@ == context@ && m@
                == source_message@,
    {
        PlatformError::Os { context: context.to_owned(), source_message: source_message.to_owned() }
    }

    /// The user-facing text of the error.
    pub fn message(&self) -> (r: String)
        ensures
            r@ == error_text(*self),
    {
        match self {
            PlatformError::PermissionDenied(m) => {
                let mut s = "permission denied: ".to_owned();
                s.append(m.as_str());
                s
            },
            PlatformError::NoFocusedWindow => "no movable focused window".to_owned(),
            PlatformError::HotkeyRegistration { hotkey, reason } => {
                let mut s = "failed to register hotkey ".to_owned();
                s.append(hotkey.as_str());
                s.append(": ");
                s.append(reason.as_str());
                s
            },
            PlatformError::Os { context, source_message } => {
                let mut s = context.clone();
                s.append(": ");
                s.append(source_message.as_str());
                s
            },
            PlatformError::Unsupported(feature) => {
                let mut s = (*feature).to_owned();
                s.append(" is not supported on this platform");
                s
            },
            PlatformError::HotkeyStateUnknown(m) => m.clone(),
        }
    }

    /// Whether this error means the OS refused access to other windows.
    pub fn is_permission_denied(&self) -> (r: bool)
        ensures
            r == (self is PermissionDenied),
    {
        matches!(self, PlatformError::PermissionDenied(_))
    }
}

/// The user-facing text of each error.
pub open spec fn error_text(e: PlatformError) -> Seq<char> {
    match e {
        PlatformError::PermissionDenied(m) => "permission denied: "@ + m@,
        PlatformError::NoFocusedWindow => "no movable focused window"@,
        PlatformError::HotkeyRegistration { hotkey, reason } => "failed to register hotkey "@
            + hotkey@ + ": "@ + reason@,
        PlatformError::Os { context, source_message } => context@ + ": "@ + source_message@,
        PlatformError::Unsupported(feature) => feature@ + " is not supported on this platform"@,
        PlatformError::HotkeyStateUnknown(m) => m@,
    }
}

/// Whether the app is allowed to manipulate other applications' windows.
#[derive(Debug, Clone, Copy, PartialEq, Eq, Structural)]
pub enum PermissionStatus {
    /// Tile can move windows.
    Granted,
    /// The user must grant permission first.
    Denied,
    /// The platform requires no explicit permission.
    NotRequired,
}

/// One shortcut the application asks a backend to own.
#[derive(Debug, Clone, Copy, PartialEq, Eq, Structural)]
pub struct HotkeyBinding {
    pub hotkey: Hotkey,
    pub action: WindowAction,
    /// Whether holding the keys down fires the action again.
    pub repeat: bool,
}

/// How a backend ended up delivering one binding.
#[derive(Debug, Clone, Copy, PartialEq, Eq, Structural)]
pub enum HotkeyRoute {
    /// Claimed through the OS's hotkey registration.
    Registered,
    /// Caught by a low-level keyboard hook.
    Intercepted,
    /// Cannot be delivered at all.
    Unavailable,
}

/// The outcome for one binding of an apply request.
#[derive(Debug, Clone, PartialEq, Eq)]
pub struct HotkeyBindingStatus {
    pub binding: HotkeyBinding,
    pub route: HotkeyRoute,
    pub reason: Option<String>,
}

/// The outcome of a whole apply request.
#[derive(Debug, Clone, PartialEq, Eq)]
pub struct HotkeyApplyReport {
    pub bindings: Vec<HotkeyBindingStatus>,
    pub hook_installed: bool,
    pub warning: Option<String>,
}

/// A binding the OS refused to hand over.
#[derive(Debug, Clone, PartialEq, Eq)]
pub struct HotkeyFailure {
    pub hotkey: Hotkey,
    pub action: WindowAction,
    pub reason: String,
}

/// Claims global hotkeys from the OS and reports presses.
pub trait HotkeyBackend {
    /// Replaces the full set of registered hotkeys.
    fn apply(&mut self, bindings: &[HotkeyBinding]) -> Result<HotkeyApplyReport, PlatformError>;

    /// Releases every hotkey and stops any background work.
    fn shutdown(&mut self);
}

/// The backend used where Tile has no native support: every request fails
/// with [`PlatformError::Unsupported`].
pub struct UnsupportedHotkeyBackend;

impl HotkeyBackend for UnsupportedHotkeyBackend {
    fn apply(&mut self, bindings: &[HotkeyBinding]) -> (r: Result<HotkeyApplyReport, PlatformError>)
        ensures
            r == Err::<HotkeyApplyReport, PlatformError>(
                PlatformError::Unsupported("global hotkeys"),
            ),
    {
        Err(PlatformError::Unsupported("global hotkeys"))
    }

    fn shutdown(&mut self) {
    }
}

/// The window backend used where Tile has no native support.
pub struct UnsupportedWindowBackend;

impl UnsupportedWindowBackend {
    /// Window management is unavailable here.
    pub fn focused_window_error(&self) -> (r: PlatformError)
        ensures
            r == PlatformError::Unsupported("window management"),
    {
        PlatformError::Unsupported("window management")
    }

    /// Display enumeration is unavailable here.
    pub fn screens_error(&self) -> (r: PlatformError)
        ensures
            r == PlatformError::Unsupported("display enumeration"),
    {
        PlatformError::Unsupported("display enumeration")
    }

    /// No permission is needed to do nothing.
    pub fn permission_status(&self, prompt: bool) -> (r: PermissionStatus)
        ensures
            r == PermissionStatus::NotRequired,
    {
        PermissionStatus::NotRequired
    }
}

/// The hotkey backend of a platform without native support.
pub fn hotkey_backend() -> (r: UnsupportedHotkeyBackend) {
    UnsupportedHotkeyBackend
}

} // verus!
