use tile::owner::ApplyControl;
use tile::platform::{HotkeyApplyReport, PlatformError};
use tile::win_client::{queue_failure, readiness, start_failure, ReplyStep, WindowsHotkeyBackend};

fn report() -> HotkeyApplyReport {
    HotkeyApplyReport { bindings: vec![], hook_installed: false, warning: None }
}

#[test]
fn readiness_passes_the_report_through_or_names_the_wait() {
    assert_eq!(readiness(Some(Ok(42)), "unused"), Ok(42));
    let err = PlatformError::os("GetCurrentThreadId", "boom");
    assert_eq!(readiness(Some(Err(err.clone())), "unused"), Err(err));
    assert_eq!(
        readiness(None, "timed out waiting on channel"),
        Err(PlatformError::os("hotkey thread readiness", "timed out waiting on channel"))
    );
    assert_eq!(start_failure("sending on a closed channel").message(), "start hotkey thread: sending on a closed channel");
    assert_eq!(queue_failure("closed").message(), "queue hotkey apply: closed");
}

#[test]
fn shutdown_happens_once() {
    let mut backend = WindowsHotkeyBackend::new(7);
    assert!(backend.begin_shutdown());
    assert!(!backend.begin_shutdown());
    assert_eq!(backend.thread_id, 7);
}

#[test]
fn an_answer_in_time_is_final() {
    let mut control = ApplyControl::new();
    assert_eq!(
        WindowsHotkeyBackend::first_reply(&mut control, Some(Ok(report()))),
        ReplyStep::Answered(Ok(report()))
    );
    assert!(!control.is_cancelled());
}

#[test]
fn a_late_request_is_cancelled_and_its_rollback_awaited() {
    let mut control = ApplyControl::new();
    assert_eq!(WindowsHotkeyBackend::first_reply(&mut control, None), ReplyStep::AwaitAgain(true));
    assert!(control.is_cancelled());
    let err = WindowsHotkeyBackend::second_reply(true, None, "timed out waiting on channel", "timed out waiting on channel");
    assert_eq!(
        err,
        Err(PlatformError::HotkeyStateUnknown(
            "hotkey apply timed out and rollback was not acknowledged: timed out waiting on channel; timed out waiting on channel"
                .to_string()
        ))
    );
    let rolled_back = Err(PlatformError::os("hotkey apply", "request expired"));
    assert_eq!(WindowsHotkeyBackend::second_reply(true, Some(rolled_back.clone()), "a", "b"), rolled_back);
}

#[test]
fn a_request_already_committing_cannot_be_cancelled() {
    let mut control = ApplyControl::new();
    assert!(control.begin_commit());
    assert_eq!(WindowsHotkeyBackend::first_reply(&mut control, None), ReplyStep::AwaitAgain(false));
    assert!(!control.is_cancelled());
    assert_eq!(
        WindowsHotkeyBackend::second_reply(false, None, "a", "timed out waiting on channel"),
        Err(PlatformError::HotkeyStateUnknown(
            "owner began committing but did not acknowledge it: timed out waiting on channel".to_string()
        ))
    );
}

#[test]
fn a_wake_failure_cancels_the_request() {
    let mut control = ApplyControl::new();
    let err = PlatformError::os("wake hotkey thread", "denied");
    assert_eq!(WindowsHotkeyBackend::wake_failed(&mut control, err.clone()), Err(err));
    assert!(control.is_cancelled());
}
