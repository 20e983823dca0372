//! What this binary may do with an available update, fixed at build time.

use vstd::prelude::*;

use crate::build_kind::{opt_view, BuildKind};
use crate::text::{eq_ignore_case, trim, trimmed_eq_ignore_case};

verus! {

/// What this binary is permitted to do with an available update.
#[derive(Debug, Clone, Copy, PartialEq, Eq, Structural)]
pub enum UpdateCapability {
    /// Release build eligible to install.
    Install,
    /// Discovers and reports, links out, and never touches the bundle.
    NotifyOnly,
    /// Development build: no network and no update UI.
    Disabled,
}

/// The classification of a `TILE_UPDATER` value: development builds never
/// update; an installed build installs only on an explicit `enabled` (up to
/// surrounding whitespace and ASCII case) and otherwise only notifies.
pub open spec fn classify_capability(kind: BuildKind, raw: Option<Seq<char>>) -> UpdateCapability {
    if kind == BuildKind::Development {
        UpdateCapability::Disabled
    } else {
        match raw {
            Some(v) => if eq_ignore_case(trim(v), "enabled"@) {
                UpdateCapability::Install
            } else {
                UpdateCapability::NotifyOnly
            },
            None => UpdateCapability::NotifyOnly,
        }
    }
}

impl UpdateCapability {
    /// Pure classification of a `TILE_UPDATER` value.
    pub fn from_env_value(build_kind: BuildKind, raw: Option<&str>) -> (r: UpdateCapability)
        ensures
            r == classify_capability(build_kind, opt_view(raw)),
    {
        if build_kind.is_development() {
            return UpdateCapability::Disabled;
        }
        match raw {
            None => UpdateCapability::NotifyOnly,
            Some(value) => {
                if trimmed_eq_ignore_case(value, "enabled") {
                    UpdateCapability::Install
                } else {
                    UpdateCapability::NotifyOnly
                }
            },
        }
    }
}

} // verus!
