//! The update status the application shows, how the tray presents it, and
//! the decisions of the update manager around the updater's network and
//! install steps.

use vstd::prelude::*;
use vstd::string::StringExecFns;

use crate::build_kind::BuildKind;

verus! {

/// What the application knows about updates right now.
#[derive(Debug, Clone, PartialEq, Eq)]
pub enum UpdateStatus {
    Unavailable,
    Idle,
    Checking,
    Current,
    Available { version: String, notes: Option<String>, date: Option<String> },
    Downloading { version: String, downloaded_bytes: u64, total_bytes: Option<u64> },
    /// Installed on macOS; a relaunch finishes it.
    ReadyToRelaunch { version: String },
    Error { message: String },
}

/// A copy of `status`.
pub fn copy_status(status: &UpdateStatus) -> (r: UpdateStatus)
    ensures
        r == *status,
{
    match status {
        UpdateStatus::Unavailable => UpdateStatus::Unavailable,
        UpdateStatus::Idle => UpdateStatus::Idle,
        UpdateStatus::Checking => UpdateStatus::Checking,
        UpdateStatus::Current => UpdateStatus::Current,
        UpdateStatus::Available { version, notes, date } => UpdateStatus::Available {
            version: version.clone(),
            notes: match notes {
                Some(n) => Some(n.clone()),
                None => None,
            },
            date: match date {
                Some(d) => Some(d.clone()),
                None => None,
            },
        },
        UpdateStatus::Downloading { version, downloaded_bytes, total_bytes } => {
            UpdateStatus::Downloading {
                version: version.clone(),
                downloaded_bytes: *downloaded_bytes,
                total_bytes: *total_bytes,
            }
        },
        UpdateStatus::ReadyToRelaunch { version } => UpdateStatus::ReadyToRelaunch {
            version: version.clone(),
        },
        UpdateStatus::Error { message } => UpdateStatus::Error { message: message.clone() },
    }
}

/// Whether a status means an update is under way, which another check must
/// not disturb.
pub open spec fn suppresses(status: UpdateStatus) -> bool {
    status is Downloading || status is ReadyToRelaunch
}

/// A check never regresses a download in progress or an installed update
/// waiting for its relaunch.
pub fn suppresses_check(status: &UpdateStatus) -> (r: bool)
    ensures
        r == suppresses(*status),
{
    matches!(status, UpdateStatus::Downloading { .. } | UpdateStatus::ReadyToRelaunch { .. })
}

/// The version an installed update waits to be relaunched into.
pub fn ready_version(status: &UpdateStatus) -> (r: Option<&str>)
    ensures
        match *status {
            UpdateStatus::ReadyToRelaunch { version } => r matches Some(s) && s@ == version@,
            _ => r is None,
        },
{
    match status {
        UpdateStatus::ReadyToRelaunch { version } => Some(version.as_str()),
        _ => None,
    }
}

/// Whether the tray icon carries a badge: on development builds, and when an
/// update is available or waits for a relaunch.
pub fn needs_badge(kind: BuildKind, status: &UpdateStatus) -> (r: bool)
    ensures
        r == (kind == BuildKind::Development || status is Available || status is ReadyToRelaunch),
{
    kind.is_development() || matches!(status, UpdateStatus::Available { .. }) || ready_version(
        status,
    ).is_some()
}

/// `prefix`, then `middle`, then `suffix`.
fn joined3(prefix: &str, middle: &str, suffix: &str) -> (r: String)
    ensures
        r@ == prefix@ + middle@ + suffix@,
{
    let mut s = prefix.to_owned();
    s.append(middle);
    s.append(suffix);
    s
}

/// The tray tooltip: a pending update names its version, otherwise the
/// build kind's tooltip.
pub fn tray_tooltip(kind: BuildKind, status: &UpdateStatus) -> (r: String)
    ensures
        match *status {
            UpdateStatus::Available { version, .. } => r@ == "Tile \u{2014} "@ + version@
                + " available"@,
            UpdateStatus::ReadyToRelaunch { version } => r@ == "Tile \u{2014} relaunch to finish "@
                + version@ + ""@,
            _ => r@ == (match kind {
                BuildKind::Installed => "Tile"@,
                BuildKind::Development => "Tile (Development)"@,
            }),
        },
{
    if let UpdateStatus::Available { version, .. } = status {
        joined3("Tile \u{2014} ", version.as_str(), " available")
    } else if let Some(version) = ready_version(status) {
        joined3("Tile \u{2014} relaunch to finish ", version, "")
    } else {
        kind.tray_tooltip().to_owned()
    }
}

/// The label of the tray's update item and whether it is enabled.
pub open spec fn menu_state_spec(status: UpdateStatus) -> (Seq<char>, bool) {
    match status {
        UpdateStatus::ReadyToRelaunch { version } => ("Relaunch Tile "@ + version@ + ""@, true),
        UpdateStatus::Unavailable => ("Check for Updates (Unavailable in Development)"@, false),
        UpdateStatus::Idle => ("Check for Updates\u{2026}"@, true),
        UpdateStatus::Current => ("Check for Updates\u{2026}"@, true),
        UpdateStatus::Checking => ("Checking for Updates\u{2026}"@, false),
        UpdateStatus::Available { version, .. } => ("Update Tile to "@ + version@ + "\u{2026}"@, true),
        UpdateStatus::Downloading { version, .. } => (
            "Downloading Tile "@ + version@ + "\u{2026}"@,
            false,
        ),
        UpdateStatus::Error { .. } => ("Retry Update Check\u{2026}"@, true),
    }
}

/// The tray's update item for a status: its label and whether it can be
/// clicked.
pub fn update_menu_state(status: &UpdateStatus) -> (r: (String, bool))
    ensures
        (r.0@, r.1) == menu_state_spec(*status),
{
    if let Some(version) = ready_version(status) {
        return (joined3("Relaunch Tile ", version, ""), true);
    }
    match status {
        UpdateStatus::Unavailable => (
            "Check for Updates (Unavailable in Development)".to_owned(),
            false,
        ),
        UpdateStatus::Idle | UpdateStatus::Current => ("Check for Updates\u{2026}".to_owned(), true),
        UpdateStatus::Checking => ("Checking for Updates\u{2026}".to_owned(), false),
        UpdateStatus::Available { version, .. } => (
            joined3("Update Tile to ", version.as_str(), "\u{2026}"),
            true,
        ),
        UpdateStatus::Downloading { version, .. } => (
            joined3("Downloading Tile ", version.as_str(), "\u{2026}"),
            false,
        ),
        UpdateStatus::ReadyToRelaunch { version } => (
            joined3("Relaunch Tile ", version.as_str(), ""),
            true,
        ),
        UpdateStatus::Error { .. } => ("Retry Update Check\u{2026}".to_owned(), true),
    }
}

/// What the updater's check answered.
#[derive(Debug, Clone, PartialEq, Eq)]
pub enum CheckOutcome {
    /// An update exists: its version, release notes and date.
    Found { version: String, notes: Option<String>, date: Option<String> },
    /// The running build is current.
    NoUpdate,
    /// The check failed, with the updater's message.
    Failed(String),
}

/// What to do with a check request before any network access.
#[derive(Debug, Clone, PartialEq, Eq)]
pub enum CheckStart {
    /// Answer at once with this status; no check runs.
    Answer(UpdateStatus),
    /// Publish `Checking` and run the check.
    Run,
}

/// What to do with an install request before any download.
#[derive(Debug, Clone, PartialEq, Eq)]
pub enum InstallStart {
    /// Refuse with this message.
    Refuse(String),
    /// Relaunch into the update that is already installed.
    Relaunch,
    /// Publish the download of this version and start it.
    Download { version: String },
}

/// The update manager's own state: the build kind, the in-flight guards of a
/// check and of an install, the published status and the version an install
/// would fetch. The updater handle itself stays with the application.
#[derive(Debug)]
pub struct UpdateManager {
    pub build_kind: BuildKind,
    pub checking: bool,
    pub installing: bool,
    pub status: UpdateStatus,
    /// The version of the update found by the last successful check.
    pub available: Option<String>,
}

impl UpdateManager {
    /// Development builds are permanently unavailable; installed builds start
    /// idle.
    pub fn new(build_kind: BuildKind) -> (r: UpdateManager)
        ensures
            r.build_kind == build_kind,
            !r.checking,
            !r.installing,
            r.available is None,
            r.status == (if build_kind == BuildKind::Development {
                UpdateStatus::Unavailable
            } else {
                UpdateStatus::Idle
            }),
    {
        let status = if build_kind.is_development() {
            UpdateStatus::Unavailable
        } else {
            UpdateStatus::Idle
        };
        UpdateManager { build_kind, checking: false, installing: false, status, available: None }
    }

    /// The published status.
    pub fn status(&self) -> (r: UpdateStatus)
        ensures
            r == self.status,
    {
        copy_status(&self.status)
    }

    /// Replaces the published status.
    pub fn set_status(&mut self, status: UpdateStatus)
        ensures
            final(self).status == status,
            final(self).build_kind == old(self).build_kind,
            final(self).checking == old(self).checking,
            final(self).installing == old(self).installing,
            final(self).available == old(self).available,
    {
        self.status = status;
    }

    /// Claims the check guard; fails while a check is in flight.
    pub fn try_begin_checking(&mut self) -> (r: bool)
        ensures
            r == !old(self).checking,
            final(self).checking,
            final(self).status == old(self).status,
            final(self).installing == old(self).installing,
            final(self).available == old(self).available,
            final(self).build_kind == old(self).build_kind,
    {
        if self.checking {
            false
        } else {
            self.checking = true;
            true
        }
    }

    /// Claims the install guard; fails while an install is in flight.
    pub fn try_begin_installing(&mut self) -> (r: bool)
        ensures
            r == !old(self).installing,
            final(self).installing,
            final(self).status == old(self).status,
            final(self).checking == old(self).checking,
            final(self).available == old(self).available,
            final(self).build_kind == old(self).build_kind,
    {
        if self.installing {
            false
        } else {
            self.installing = true;
            true
        }
    }

    /// Decides a check request: development builds answer unavailable, an
    /// update under way and a check already in flight answer the current
    /// status, and otherwise the check runs with the status set to checking.
    pub fn begin_check(&mut self) -> (r: CheckStart)
        ensures
            final(self).build_kind == old(self).build_kind,
            final(self).installing == old(self).installing,
            final(self).available == old(self).available,
            if old(self).build_kind == BuildKind::Development {
                r == CheckStart::Answer(UpdateStatus::Unavailable) && final(self).status == old(
                    self,
                ).status && final(self).checking == old(self).checking
            } else if suppresses(old(self).status) || old(self).checking {
                r == CheckStart::Answer(old(self).status) && final(self).status == old(self).status
                    && final(self).checking == old(self).checking
            } else {
                r == CheckStart::Run && final(self).checking && final(self).status
                    == UpdateStatus::Checking
            },
    {
        if self.build_kind.is_development() {
            return CheckStart::Answer(UpdateStatus::Unavailable);
        }
        if suppresses_check(&self.status) {
            return CheckStart::Answer(self.status());
        }
        if !self.try_begin_checking() {
            return CheckStart::Answer(self.status());
        }
        self.set_status(UpdateStatus::Checking);
        CheckStart::Run
    }

    /// Records what the check answered, releases the check guard, and
    /// returns the status to publish.
    pub fn finish_check(&mut self, outcome: CheckOutcome) -> (r: UpdateStatus)
        ensures
            !final(self).checking,
            final(self).status == r,
            final(self).build_kind == old(self).build_kind,
            final(self).installing == old(self).installing,
            match outcome {
                CheckOutcome::Found { version, notes, date } => r == (UpdateStatus::Available {
                    version,
                    notes,
                    date,
                }) && final(self).available == Some(version),
                CheckOutcome::NoUpdate => r == UpdateStatus::Current && final(self).available
                    is None,
                CheckOutcome::Failed(message) => r == (UpdateStatus::Error { message })
                    && final(self).available is None,
            },
    {
        let status = match outcome {
            CheckOutcome::Found { version, notes, date } => {
                self.available = Some(version.clone());
                UpdateStatus::Available { version, notes, date }
            },
            CheckOutcome::NoUpdate => {
                self.available = None;
                UpdateStatus::Current
            },
            CheckOutcome::Failed(message) => {
                self.available = None;
                UpdateStatus::Error { message }
            },
        };
        self.status = copy_status(&status);
        self.checking = false;
        status
    }

    /// Decides an install request: development builds refuse, a finished
    /// install relaunches when asked, a second install in flight refuses, and
    /// without an available update the request is refused; otherwise the
    /// download starts from zero bytes.
    pub fn begin_install(&mut self, relaunch_after_install: bool) -> (r: InstallStart)
        ensures
            final(self).build_kind == old(self).build_kind,
            final(self).checking == old(self).checking,
            final(self).available == old(self).available,
            if old(self).build_kind == BuildKind::Development {
                (r matches InstallStart::Refuse(m) && m@
                    == "updates are unavailable in development builds"@) && final(self).status == old(
                    self,
                ).status && final(self).installing == old(self).installing
            } else if relaunch_after_install && old(self).status is ReadyToRelaunch {
                r == InstallStart::Relaunch && final(self).status == old(self).status
                    && final(self).installing == old(self).installing
            } else if old(self).installing {
                (r matches InstallStart::Refuse(m) && m@
                    == "an update installation is already in progress"@) && final(self).status
                    == old(self).status && final(self).installing
            } else {
                match old(self).available {
                    None => (r matches InstallStart::Refuse(m) && m@ == "no update is available"@)
                        && final(self).status == old(self).status && !final(self).installing,
                    Some(v) => r == (InstallStart::Download { version: v }) && final(self).installing
                        && final(self).status == (UpdateStatus::Downloading {
                        version: v,
                        downloaded_bytes: 0,
                        total_bytes: None,
                    }),
                }
            },
    {
        if self.build_kind.is_development() {
            return InstallStart::Refuse("updates are unavailable in development builds".to_owned());
        }
        if relaunch_after_install && matches!(self.status, UpdateStatus::ReadyToRelaunch { .. }) {
            return InstallStart::Relaunch;
        }
        if !self.try_begin_installing() {
            return InstallStart::Refuse("an update installation is already in progress".to_owned());
        }
        match &self.available {
            None => {
                self.installing = false;
                InstallStart::Refuse("no update is available".to_owned())
            },
            Some(v) => {
                let version = v.clone();
                self.status = UpdateStatus::Downloading {
                    version: version.clone(),
                    downloaded_bytes: 0,
                    total_bytes: None,
                };
                InstallStart::Download { version }
            },
        }
    }

    /// Records download progress: the bytes received so far and the total
    /// the server announced.
    pub fn download_progress(
        &mut self,
        version: &String,
        downloaded_bytes: u64,
        total_bytes: Option<u64>,
    )
        ensures
            final(self).status == (UpdateStatus::Downloading {
                version: *version,
                downloaded_bytes,
                total_bytes,
            }),
            final(self).build_kind == old(self).build_kind,
            final(self).checking == old(self).checking,
            final(self).installing == old(self).installing,
            final(self).available == old(self).available,
    {
        self.status = UpdateStatus::Downloading {
            version: version.clone(),
            downloaded_bytes,
            total_bytes,
        };
    }

    /// Records how the download and install ended and releases the install
    /// guard. A failure publishes the error; success forgets the available
    /// update and publishes that a relaunch finishes it on macOS, or that the
    /// build is current elsewhere.
    pub fn finish_install(&mut self, version: &String, failure: Option<String>, macos: bool) -> (r:
        UpdateStatus)
        ensures
            !final(self).installing,
            final(self).status == r,
            final(self).build_kind == old(self).build_kind,
            final(self).checking == old(self).checking,
            match failure {
                Some(message) => r == (UpdateStatus::Error { message }) && final(self).available
                    == old(self).available,
                None => final(self).available is None && r == (if macos {
                    UpdateStatus::ReadyToRelaunch { version: *version }
                } else {
                    UpdateStatus::Current
                }),
            },
    {
        let status = match failure {
            Some(message) => UpdateStatus::Error { message },
            None => {
                self.available = None;
                if macos {
                    UpdateStatus::ReadyToRelaunch { version: version.clone() }
                } else {
                    UpdateStatus::Current
                }
            },
        };
        self.status = copy_status(&status);
        self.installing = false;
        status
    }
}

/// `Path::parent` of `p`, as a string: `p` without its last component. It
/// is a prefix of `p`; which prefix depends on the platform's separators.
#[verifier::external_body]
fn path_parent(p: &str) -> (r: Option<String>)
    ensures
        r matches Some(q) ==> q@.len() <= p@.len() && q@ == p@.subrange(0, q@.len() as int),
{
    std::path::Path::new(p).parent().map(|q| q.to_string_lossy().into_owned())
}

/// `Path::file_name` of `p`, as a string: its last normal component, if any.
/// What counts as a component depends on the platform; nothing is stated.
#[verifier::external_body]
fn path_file_name(p: &str) -> Option<String> {
    std::path::Path::new(p).file_name().map(|n| n.to_string_lossy().into_owned())
}

/// `Path::extension` of `p`, as a string: what follows the last `.` of the
/// file name, if any. Nothing is stated.
#[verifier::external_body]
fn path_extension(p: &str) -> Option<String> {
    std::path::Path::new(p).extension().map(|e| e.to_string_lossy().into_owned())
}

/// Whether an optional name is exactly `want`.
fn is_named(name: &Option<String>, want: &str) -> (r: bool)
    ensures
        r == (name matches Some(n) && n@ == want@),
{
    match name {
        Some(n) => {
            let a = crate::text::chars_of(n.as_str());
            let b = crate::text::chars_of(want);
            crate::text::chars_eq(a.as_slice(), b.as_slice())
        },
        None => false,
    }
}

/// The bundle directory given the names along an executable's path: the
/// executable must sit in `MacOS`, inside `Contents`, inside a directory
/// with the extension `app`, which is the bundle.
pub fn bundle_from_parts(
    macos_dir_name: &Option<String>,
    contents_dir_name: &Option<String>,
    bundle: Option<String>,
    bundle_extension: &Option<String>,
) -> (r: Option<String>)
    ensures
        r == (if (macos_dir_name matches Some(a) && a@ == "MacOS"@) && (contents_dir_name matches Some(
            b,
        ) && b@ == "Contents"@) && (bundle_extension matches Some(e) && e@ == "app"@) {
            bundle
        } else {
            None
        }),
{
    if is_named(macos_dir_name, "MacOS") && is_named(contents_dir_name, "Contents") && is_named(
        bundle_extension,
        "app",
    ) {
        bundle
    } else {
        None
    }
}

/// The `.app` bundle an executable lives in, found from its path
/// `<bundle>.app/Contents/MacOS/<executable>`; `None` outside a bundle.
pub fn app_bundle_for_executable(executable: &str) -> (r: Option<String>)
    ensures
        r matches Some(b) ==> b@.len() <= executable@.len() && b@ == executable@.subrange(
            0,
            b@.len() as int,
        ),
{
    let macos = match path_parent(executable) {
        Some(m) => m,
        None => return None,
    };
    let macos_name = path_file_name(macos.as_str());
    let contents = match path_parent(macos.as_str()) {
        Some(c) => c,
        None => return None,
    };
    let contents_name = path_file_name(contents.as_str());
    let bundle = match path_parent(contents.as_str()) {
        Some(b) => b,
        None => return None,
    };
    let extension = path_extension(bundle.as_str());
    bundle_from_parts(&macos_name, &contents_name, Some(bundle), &extension)
}

} // verus!
