//! How the application reacts when an action fails: only a denied
//! permission reaches the user, and at most once per cooldown.

use vstd::prelude::*;
use vstd::string::StringExecFns;

use crate::platform::{error_text, PlatformError};
use crate::ratelimit::{ready, RateLimiter};

verus! {

/// What to do about a failed action.
#[derive(Debug, Clone, Copy, PartialEq, Eq, Structural)]
pub enum Reaction {
    /// Log it and move on.
    LogOnly,
    /// Bring the settings window forward and explain the missing permission.
    ShowPermissionDialog,
}

/// The reaction to a failed action at `now`: a denied permission shows the
/// dialog when the limiter lets it through (arming its cooldown); anything
/// else, and a denial inside the cooldown, is only logged.
pub fn react_to_failure(err: &PlatformError, limiter: &mut RateLimiter, now: u64) -> (r: Reaction)
    ensures
        final(limiter).cooldown == old(limiter).cooldown,
        if *err is PermissionDenied {
            if ready(old(limiter).last, old(limiter).cooldown, now) {
                r == Reaction::ShowPermissionDialog && final(limiter).last == Some(now)
            } else {
                r == Reaction::LogOnly && final(limiter).last == old(limiter).last
            }
        } else {
            r == Reaction::LogOnly && final(limiter).last == old(limiter).last
        },
{
    if err.is_permission_denied() {
        if limiter.allow_at(now) {
            return Reaction::ShowPermissionDialog;
        }
    }
    Reaction::LogOnly
}

/// The text of the permission dialog, quoting the error.
pub fn permission_dialog_text(err: &PlatformError) -> (r: String)
    ensures
        r@ == "Tile needs Accessibility permission to move windows.\n\n"@ + error_text(*err)
            + "\n\nGrant it in System Settings \u{25b8} Privacy & Security \u{25b8} Accessibility, then try again."@,
{
    let mut text = "Tile needs Accessibility permission to move windows.\n\n".to_owned();
    let detail = err.message();
    text.append(detail.as_str());
    text.append(
        "\n\nGrant it in System Settings \u{25b8} Privacy & Security \u{25b8} Accessibility, then try again.",
    );
    text
}

} // verus!
