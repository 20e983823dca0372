//! Suppressing the native frame animations some macOS applications enable
//! through `AXEnhancedUserInterface` while Tile animates their window, and
//! restoring exactly what Tile changed.

use vstd::prelude::*;

use crate::platform::PlatformError;

verus! {

/// Reads and writes one application's `AXEnhancedUserInterface` attribute.
pub trait EnhancedUiAccess {
    /// The current value, or `None` when the application does not have it.
    fn current(&self) -> Option<bool>;

    /// Writes the value; says whether the attribute was changed.
    fn set(&self, value: bool) -> Result<bool, PlatformError>;
}

/// The guard's decision once Enhanced UI has been read and, if it was on,
/// written off: the restore debt grows only by a write that changed the
/// attribute, and a failed write is the call's error.
pub fn settle_suppression(
    restore_enabled: bool,
    current: Option<bool>,
    wrote: Option<Result<bool, PlatformError>>,
) -> (r: (bool, Result<(), PlatformError>))
    requires
        current == Some(true) <==> wrote is Some,
    ensures
        match wrote {
            None => r == (restore_enabled, Ok::<(), PlatformError>(())),
            Some(Ok(changed)) => r == (restore_enabled || changed, Ok::<(), PlatformError>(())),
            Some(Err(e)) => r == (restore_enabled, Err::<(), PlatformError>(e)),
        },
{
    match wrote {
        None => (restore_enabled, Ok(())),
        Some(Ok(changed)) => (restore_enabled || changed, Ok(())),
        Some(Err(e)) => (restore_enabled, Err(e)),
    }
}

/// Keeps Enhanced UI off for the lifetime of an animation and remembers
/// whether it has to be switched back on afterwards.
pub struct EnhancedUiGuard<A: EnhancedUiAccess> {
    pub access: A,
    /// Whether Tile switched the attribute off and owes it a restore.
    pub restore_enabled: bool,
}

impl<A: EnhancedUiAccess> EnhancedUiGuard<A> {
    /// Takes over `access` and suppresses Enhanced UI if it is on.
    pub fn new(access: A) -> (r: Result<EnhancedUiGuard<A>, PlatformError>)
        ensures
            r matches Ok(g) ==> g.access == access,
    {
        let mut guard = EnhancedUiGuard { access, restore_enabled: false };
        match guard.ensure_disabled() {
            Ok(()) => Ok(guard),
            Err(e) => Err(e),
        }
    }

    /// Re-suppresses Enhanced UI if another accessibility client enabled it
    /// meanwhile: reads the attribute, writes it off only when it is on, and
    /// settles the restore debt from the write with [`settle_suppression`].
    pub fn ensure_disabled(&mut self) -> (r: Result<(), PlatformError>)
        ensures
            final(self).access == old(self).access,
            old(self).restore_enabled ==> final(self).restore_enabled,
            r is Err ==> final(self).restore_enabled == old(self).restore_enabled,
    {
        let current = self.access.current();
        let wrote = if current == Some(true) {
            Some(self.access.set(false))
        } else {
            None
        };
        let (restore, outcome) = settle_suppression(self.restore_enabled, current, wrote);
        self.restore_enabled = restore;
        outcome
    }

    /// Switches Enhanced UI back on if Tile switched it off, handing back the
    /// write's outcome for logging; does nothing otherwise. Called when the
    /// animation ends, however it ends.
    pub fn restore(&mut self) -> (r: Option<Result<bool, PlatformError>>)
        ensures
            !old(self).restore_enabled ==> r is None,
            old(self).restore_enabled ==> r is Some,
            !final(self).restore_enabled,
            final(self).access == old(self).access,
    {
        if self.restore_enabled {
            self.restore_enabled = false;
            Some(self.access.set(true))
        } else {
            None
        }
    }
}

} // verus!
