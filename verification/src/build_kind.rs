//! Build provenance: whether this binary is a local development build or the
//! one users install from a release, and what each kind is called.

use vstd::prelude::*;

use crate::text::{eq_ignore_case, trim, trimmed_eq_ignore_case};

verus! {

/// Where this binary came from.
#[derive(Debug, Clone, Copy, PartialEq, Eq, Structural)]
pub enum BuildKind {
    /// Built locally.
    Development,
    /// Built by the release workflow and installed by a user.
    Installed,
}

/// The classification of a `TILE_BUILD_KIND` value: only `installed`, up to
/// surrounding whitespace and ASCII case, opts in; anything else, and a
/// missing value, is a development build.
pub open spec fn classify_build(raw: Option<Seq<char>>) -> BuildKind {
    match raw {
        Some(v) => if eq_ignore_case(trim(v), "installed"@) {
            BuildKind::Installed
        } else {
            BuildKind::Development
        },
        None => BuildKind::Development,
    }
}

/// The view of an optional string.
pub open spec fn opt_view(raw: Option<&str>) -> Option<Seq<char>> {
    match raw {
        Some(s) => Some(s@),
        None => None,
    }
}

/// The directory name each kind keeps its configuration under.
pub open spec fn app_name(k: BuildKind) -> Seq<char> {
    match k {
        BuildKind::Installed => "Tile"@,
        BuildKind::Development => "Tile-Development"@,
    }
}

impl BuildKind {
    /// Pure classification of a `TILE_BUILD_KIND` value: forgiving about how
    /// it is spelled, strict about what it means.
    pub fn from_env_value(raw: Option<&str>) -> (r: BuildKind)
        ensures
            r == classify_build(opt_view(raw)),
    {
        match raw {
            None => BuildKind::Development,
            Some(value) => {
                if trimmed_eq_ignore_case(value, "installed") {
                    BuildKind::Installed
                } else {
                    BuildKind::Development
                }
            },
        }
    }

    pub fn is_development(self) -> (r: bool)
        ensures
            r == (self == BuildKind::Development),
    {
        matches!(self, BuildKind::Development)
    }

    /// Whether this build owns the OS login item; development builds must not
    /// touch the login item of the installed copy.
    pub fn manages_autostart(self) -> (r: bool)
        ensures
            r == (self == BuildKind::Installed),
    {
        matches!(self, BuildKind::Installed)
    }

    /// Whether this build refuses to run a second time.
    pub fn enforces_single_instance(self) -> (r: bool)
        ensures
            r == (self == BuildKind::Installed),
    {
        matches!(self, BuildKind::Installed)
    }

    /// Application name for the per-user directories, which keeps development
    /// configuration beside, never inside, the installed one.
    pub fn project_app_name(self) -> (r: &'static str)
        ensures
            r@ == app_name(self),
    {
        match self {
            BuildKind::Installed => "Tile",
            BuildKind::Development => "Tile-Development",
        }
    }

    /// Tray icon tooltip.
    pub fn tray_tooltip(self) -> (r: &'static str)
        ensures
            r@ == (match self {
                BuildKind::Installed => "Tile"@,
                BuildKind::Development => "Tile (Development)"@,
            }),
    {
        match self {
            BuildKind::Installed => "Tile",
            BuildKind::Development => "Tile (Development)",
        }
    }

    /// Settings window title.
    pub fn window_title(self) -> (r: &'static str)
        ensures
            r@ == (match self {
                BuildKind::Installed => "Tile Settings"@,
                BuildKind::Development => "Tile Settings (Development)"@,
            }),
    {
        match self {
            BuildKind::Installed => "Tile Settings",
            BuildKind::Development => "Tile Settings (Development)",
        }
    }

    /// Disabled header row at the top of the tray menu, if any.
    pub fn tray_header(self) -> (r: Option<&'static str>)
        ensures
            match self {
                BuildKind::Installed => r is None,
                BuildKind::Development => r matches Some(s) && s@ == "Tile \u{2014} Development build"@,
            },
    {
        match self {
            BuildKind::Installed => None,
            BuildKind::Development => Some("Tile \u{2014} Development build"),
        }
    }
}

/// The two kinds never share a configuration directory.
pub proof fn lemma_kinds_keep_separate_config()
    ensures
        app_name(BuildKind::Installed) != app_name(BuildKind::Development),
{
    reveal_strlit("Tile");
    reveal_strlit("Tile-Development");
    assert(app_name(BuildKind::Installed).len() != app_name(BuildKind::Development).len());
}

} // verus!
