//! The shapes the settings and update windows exchange with the application,
//! and how the library's values map onto them.

use vstd::prelude::*;

use crate::action::WindowAction;
use crate::build_kind::BuildKind;
use crate::hotkey::Hotkey;
use crate::platform::{HotkeyFailure, PermissionStatus};
use crate::update::{copy_status, UpdateStatus};

verus! {

/// The build kind as the windows see it.
#[derive(Debug, Clone, Copy, PartialEq, Eq, Structural)]
pub enum BuildKindDto {
    Development,
    Installed,
}

pub open spec fn build_kind_dto(kind: BuildKind) -> BuildKindDto {
    match kind {
        BuildKind::Development => BuildKindDto::Development,
        BuildKind::Installed => BuildKindDto::Installed,
    }
}

impl From<BuildKind> for BuildKindDto {
    fn from(kind: BuildKind) -> (r: BuildKindDto) {
        match kind {
            BuildKind::Development => BuildKindDto::Development,
            BuildKind::Installed => BuildKindDto::Installed,
        }
    }
}

impl vstd::std_specs::convert::FromSpecImpl<BuildKind> for BuildKindDto {
    open spec fn obeys_from_spec() -> bool {
        true
    }

    open spec fn from_spec(kind: BuildKind) -> BuildKindDto {
        build_kind_dto(kind)
    }
}

/// The build facts the settings window shows.
#[derive(Debug, Clone, PartialEq, Eq)]
pub struct BuildInfoDto {
    pub kind: BuildKindDto,
    pub config_dir: Option<String>,
}

/// The permission state as the windows see it.
#[derive(Debug, Clone, Copy, PartialEq, Eq, Structural)]
pub enum PermissionStatusDto {
    Granted,
    Denied,
    NotRequired,
}

pub open spec fn permission_dto(status: PermissionStatus) -> PermissionStatusDto {
    match status {
        PermissionStatus::Granted => PermissionStatusDto::Granted,
        PermissionStatus::Denied => PermissionStatusDto::Denied,
        PermissionStatus::NotRequired => PermissionStatusDto::NotRequired,
    }
}

impl From<PermissionStatus> for PermissionStatusDto {
    fn from(status: PermissionStatus) -> (r: PermissionStatusDto) {
        match status {
            PermissionStatus::Granted => PermissionStatusDto::Granted,
            PermissionStatus::Denied => PermissionStatusDto::Denied,
            PermissionStatus::NotRequired => PermissionStatusDto::NotRequired,
        }
    }
}

impl vstd::std_specs::convert::FromSpecImpl<PermissionStatus> for PermissionStatusDto {
    open spec fn obeys_from_spec() -> bool {
        true
    }

    open spec fn from_spec(status: PermissionStatus) -> PermissionStatusDto {
        permission_dto(status)
    }
}

/// A binding the OS refused, as the settings window lists it.
#[derive(Debug, Clone, PartialEq, Eq)]
pub struct HotkeyFailureDto {
    pub hotkey: Hotkey,
    pub action: WindowAction,
    pub reason: String,
}

/// The report entry of a refused binding, field for field.
pub fn failure_dto(failure: &HotkeyFailure) -> (r: HotkeyFailureDto)
    ensures
        r.hotkey == failure.hotkey,
        r.action == failure.action,
        r.reason@ == failure.reason@,
{
    HotkeyFailureDto {
        hotkey: failure.hotkey,
        action: failure.action,
        reason: failure.reason.clone(),
    }
}

/// The update status as the windows see it; variant for variant the same.
#[derive(Debug, Clone, PartialEq, Eq)]
pub enum UpdateStatusDto {
    Unavailable,
    Idle,
    Checking,
    Current,
    Available { version: String, notes: Option<String>, date: Option<String> },
    Downloading { version: String, downloaded_bytes: u64, total_bytes: Option<u64> },
    ReadyToRelaunch { version: String },
    Error { message: String },
}

pub open spec fn status_dto(status: UpdateStatus) -> UpdateStatusDto {
    match status {
        UpdateStatus::Unavailable => UpdateStatusDto::Unavailable,
        UpdateStatus::Idle => UpdateStatusDto::Idle,
        UpdateStatus::Checking => UpdateStatusDto::Checking,
        UpdateStatus::Current => UpdateStatusDto::Current,
        UpdateStatus::Available { version, notes, date } => UpdateStatusDto::Available {
            version,
            notes,
            date,
        },
        UpdateStatus::Downloading { version, downloaded_bytes, total_bytes } => {
            UpdateStatusDto::Downloading { version, downloaded_bytes, total_bytes }
        },
        UpdateStatus::ReadyToRelaunch { version } => UpdateStatusDto::ReadyToRelaunch { version },
        UpdateStatus::Error { message } => UpdateStatusDto::Error { message },
    }
}

impl From<UpdateStatus> for UpdateStatusDto {
    fn from(status: UpdateStatus) -> (r: UpdateStatusDto) {
        match status {
            UpdateStatus::Unavailable => UpdateStatusDto::Unavailable,
            UpdateStatus::Idle => UpdateStatusDto::Idle,
            UpdateStatus::Checking => UpdateStatusDto::Checking,
            UpdateStatus::Current => UpdateStatusDto::Current,
            UpdateStatus::Available { version, notes, date } => UpdateStatusDto::Available {
                version,
                notes,
                date,
            },
            UpdateStatus::Downloading { version, downloaded_bytes, total_bytes } => {
                UpdateStatusDto::Downloading { version, downloaded_bytes, total_bytes }
            },
            UpdateStatus::ReadyToRelaunch { version } => UpdateStatusDto::ReadyToRelaunch {
                version,
            },
            UpdateStatus::Error { message } => UpdateStatusDto::Error { message },
        }
    }
}

impl vstd::std_specs::convert::FromSpecImpl<UpdateStatus> for UpdateStatusDto {
    open spec fn obeys_from_spec() -> bool {
        true
    }

    open spec fn from_spec(status: UpdateStatus) -> UpdateStatusDto {
        status_dto(status)
    }
}

/// The window-facing form of the current update status.
pub fn update_status_dto(status: &UpdateStatus) -> (r: UpdateStatusDto)
    ensures
        r == status_dto(*status),
{
    UpdateStatusDto::from(copy_status(status))
}

} // verus!
