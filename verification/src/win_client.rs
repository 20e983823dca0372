//! The caller's side of the Windows hotkey owner thread: the startup
//! handshake, waiting for the answer to an apply request, and shutting the
//! thread down once. Sending, waking and waiting are done by the caller; the
//! decisions are here.

use vstd::prelude::*;
use vstd::string::StringExecFns;

use crate::owner::{cancel_step, ApplyControl};
use crate::platform::{HotkeyApplyReport, PlatformError};

verus! {

/// The backend as its caller holds it: the owner thread's id, and whether
/// it has been shut down.
pub struct WindowsHotkeyBackend {
    pub thread_id: u32,
    pub shutdown_done: bool,
}

/// The owner thread's readiness report, or the failure to receive one.
pub fn readiness(ready: Option<Result<u32, PlatformError>>, wait_error: &str) -> (r: Result<
    u32,
    PlatformError,
>)
    ensures
        match ready {
            Some(report) => r == report,
            None => r matches Err(PlatformError::Os { context, source_message }) && context@
                == "hotkey thread readiness"@ && source_message@ == wait_error@,
        },
{
    match ready {
        Some(report) => report,
        None => Err(PlatformError::os("hotkey thread readiness", wait_error)),
    }
}

/// The failure to send the start command.
pub fn start_failure(send_error: &str) -> (r: PlatformError)
    ensures
        r matches PlatformError::Os { context, source_message } && context@ == "start hotkey thread"@
            && source_message@ == send_error@,
{
    PlatformError::os("start hotkey thread", send_error)
}

/// The failure to queue an apply request.
pub fn queue_failure(send_error: &str) -> (r: PlatformError)
    ensures
        r matches PlatformError::Os { context, source_message } && context@ == "queue hotkey apply"@
            && source_message@ == send_error@,
{
    PlatformError::os("queue hotkey apply", send_error)
}

/// Where an apply request stands after its first wait.
#[derive(Debug, PartialEq, Eq)]
pub enum ReplyStep {
    /// The owner thread answered; this is the answer.
    Answered(Result<HotkeyApplyReport, PlatformError>),
    /// No answer in time: the request was cancelled (`true` when this
    /// cancellation won, so the owner rolls back) and one more answer is
    /// awaited.
    AwaitAgain(bool),
}

impl WindowsHotkeyBackend {
    /// A running owner thread.
    pub fn new(thread_id: u32) -> (r: WindowsHotkeyBackend)
        ensures
            r.thread_id == thread_id,
            !r.shutdown_done,
    {
        WindowsHotkeyBackend { thread_id, shutdown_done: false }
    }

    /// Whether this call is the one that shuts the owner thread down; only
    /// the first is.
    pub fn begin_shutdown(&mut self) -> (r: bool)
        ensures
            r == !old(self).shutdown_done,
            final(self).shutdown_done,
            final(self).thread_id == old(self).thread_id,
    {
        if self.shutdown_done {
            return false;
        }
        self.shutdown_done = true;
        true
    }

    /// The owner thread could not be woken: the request is cancelled and
    /// fails with the wake error.
    pub fn wake_failed(control: &mut ApplyControl, err: PlatformError) -> (r: Result<
        HotkeyApplyReport,
        PlatformError,
    >)
        ensures
            final(control)@ == cancel_step(old(control)@).0,
            r == Err::<HotkeyApplyReport, PlatformError>(err),
    {
        control.cancel();
        Err(err)
    }

    /// After the first wait: an answer is final; without one the request is
    /// cancelled and another answer awaited.
    pub fn first_reply(
        control: &mut ApplyControl,
        reply: Option<Result<HotkeyApplyReport, PlatformError>>,
    ) -> (r: ReplyStep)
        ensures
            match reply {
                Some(answer) => r == ReplyStep::Answered(answer) && final(control)@ == old(control)@,
                None => r == ReplyStep::AwaitAgain(cancel_step(old(control)@).1) && final(control)@
                    == cancel_step(old(control)@).0,
            },
    {
        match reply {
            Some(answer) => ReplyStep::Answered(answer),
            None => ReplyStep::AwaitAgain(control.cancel()),
        }
    }

    /// After the second wait: an answer is final; without one the native
    /// state is unknown, and the error says whether a rollback or a commit
    /// went unacknowledged.
    pub fn second_reply(
        cancel_won: bool,
        reply: Option<Result<HotkeyApplyReport, PlatformError>>,
        first_wait: &str,
        second_wait: &str,
    ) -> (r: Result<HotkeyApplyReport, PlatformError>)
        ensures
            match reply {
                Some(answer) => r == answer,
                None => r matches Err(PlatformError::HotkeyStateUnknown(m)) && m@ == (if cancel_won {
                    "hotkey apply timed out and rollback was not acknowledged: "@ + first_wait@
                        + "; "@ + second_wait@
                } else {
                    "owner began committing but did not acknowledge it: "@ + second_wait@
                }),
            },
    {
        match reply {
            Some(answer) => answer,
            None => {
                let mut m = if cancel_won {
                    let mut m = "hotkey apply timed out and rollback was not acknowledged: ".to_owned();
                    m.append(first_wait);
                    m.append("; ");
                    m
                } else {
                    "owner began committing but did not acknowledge it: ".to_owned()
                };
                m.append(second_wait);
                Err(PlatformError::HotkeyStateUnknown(m))
            },
        }
    }
}

} // verus!
