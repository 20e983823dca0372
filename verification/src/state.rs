//! How the application classifies what one run of the action pipeline did,
//! and the pipeline's decisions: planning each action against where a moving
//! window is heading, committing a superseded move before the next plan,
//! retargeting the same window, landing any other one first, and never
//! leaving a window part-way when the pipeline stops.

use vstd::prelude::*;

use crate::platform::PlatformError;

verus! {

/// What one run of the action pipeline actually did.
#[derive(Debug, Clone, Copy, PartialEq, Eq, Structural)]
pub enum ActionOutcome {
    /// A window was moved.
    Moved,
    /// Nothing movable was focused, so there was nothing to act on.
    NoWindow,
    /// There was a window, but the action would not change anything.
    NoOp,
}

/// The window the pipeline is animating, and whether its action has
/// already been recorded with the engine at its target.
#[derive(Debug, Clone, Copy, PartialEq, Eq, Structural)]
pub struct InFlight {
    pub window: u64,
    pub committed: bool,
}

/// What the pipeline holds between steps: the window in flight, if any, and
/// what the run has done so far.
#[derive(Debug, Clone, Copy, PartialEq, Eq, Structural)]
pub struct PipelineState {
    pub flight: Option<InFlight>,
    pub outcome: ActionOutcome,
}

/// What the host learned since the last step.
#[derive(Debug, Clone, Copy, PartialEq, Eq, Structural)]
pub enum PipelineEvent {
    /// For the pending action, the focused movable window, if any.
    Focused(Option<u64>),
    /// The engine's plan for the pending action: a move of this window, or
    /// nothing to do.
    Planned(Option<u64>),
    /// An animation of this window was opened.
    Begun(u64),
    /// The animation settled where the window truly ended up.
    Settled,
    /// Another action arrived mid-flight.
    Preempted,
    /// A step failed.
    Failed,
}

/// What the host does next.
#[derive(Debug, Clone, Copy, PartialEq, Eq, Structural)]
pub enum PipelineAction {
    /// Stop; the run is over.
    Finish,
    /// Report the action as having no window; land the flight first if
    /// `land`, then stop.
    NoWindow { land: bool },
    /// Record the in-flight action at its target first if `commit`, then plan
    /// the action, against the flight's target rather than the window's
    /// reported frame if `at_target`.
    Plan { commit: bool, at_target: bool },
    /// Bend the flight towards the new plan, report the move, and pump.
    Retarget,
    /// Land the previous flight first if `land_previous`, then open an
    /// animation for the planned window.
    Begin { land_previous: bool },
    /// Report the move and pump.
    ReportMoved,
    /// Report that the action changes nothing; pump if a flight remains,
    /// else stop.
    NoOp { pump: bool },
    /// Record the frame the window ended up with, reconciling from the
    /// recorded target if `from_target`, then stop.
    CommitFinal { from_target: bool },
    /// Read the focused window for the action that arrived.
    ReadFocus,
    /// Land the stranded flight if `land`, best effort, and fail.
    Abort { land: bool },
}

/// The pipeline's decision for one event.
pub open spec fn pipeline_spec(s: PipelineState, e: PipelineEvent) -> (PipelineState, PipelineAction) {
    match e {
        PipelineEvent::Focused(None) => (
            PipelineState {
                flight: None,
                outcome: if s.flight is None {
                    ActionOutcome::NoWindow
                } else {
                    s.outcome
                },
            },
            PipelineAction::NoWindow { land: s.flight is Some },
        ),
        PipelineEvent::Focused(Some(w)) => match s.flight {
            Some(f) => (
                PipelineState { flight: Some(InFlight { window: f.window, committed: true }), outcome: s.outcome },
                PipelineAction::Plan { commit: !f.committed, at_target: f.window == w },
            ),
            None => (s, PipelineAction::Plan { commit: false, at_target: false }),
        },
        PipelineEvent::Planned(Some(id)) => match s.flight {
            Some(f) => if f.window == id {
                (
                    PipelineState {
                        flight: Some(InFlight { window: id, committed: false }),
                        outcome: ActionOutcome::Moved,
                    },
                    PipelineAction::Retarget,
                )
            } else {
                (
                    PipelineState { flight: None, outcome: ActionOutcome::Moved },
                    PipelineAction::Begin { land_previous: true },
                )
            },
            None => (
                PipelineState { flight: None, outcome: ActionOutcome::Moved },
                PipelineAction::Begin { land_previous: false },
            ),
        },
        PipelineEvent::Planned(None) => (s, PipelineAction::NoOp { pump: s.flight is Some }),
        PipelineEvent::Begun(id) => (
            PipelineState { flight: Some(InFlight { window: id, committed: false }), outcome: s.outcome },
            PipelineAction::ReportMoved,
        ),
        PipelineEvent::Settled => match s.flight {
            Some(f) => (
                PipelineState { flight: None, outcome: s.outcome },
                PipelineAction::CommitFinal { from_target: f.committed },
            ),
            None => (s, PipelineAction::Finish),
        },
        PipelineEvent::Preempted => (s, PipelineAction::ReadFocus),
        PipelineEvent::Failed => (
            PipelineState { flight: None, outcome: s.outcome },
            PipelineAction::Abort { land: s.flight is Some },
        ),
    }
}

/// The state a run starts in: nothing in flight, nothing done.
pub fn pipeline_start() -> (r: PipelineState)
    ensures
        r == (PipelineState { flight: None, outcome: ActionOutcome::NoOp }),
{
    PipelineState { flight: None, outcome: ActionOutcome::NoOp }
}

/// One decision of the animated pipeline: from what it holds and what the
/// host learned, what it holds next and what the host does.
pub fn pipeline_step(state: &PipelineState, event: PipelineEvent) -> (r: (PipelineState, PipelineAction))
    ensures
        r == pipeline_spec(*state, event),
{
    match event {
        PipelineEvent::Focused(None) => {
            let outcome = match state.flight {
                None => ActionOutcome::NoWindow,
                Some(_) => state.outcome,
            };
            (PipelineState { flight: None, outcome }, PipelineAction::NoWindow { land: state.flight.is_some() })
        },
        PipelineEvent::Focused(Some(w)) => match state.flight {
            Some(f) => (
                PipelineState { flight: Some(InFlight { window: f.window, committed: true }), outcome: state.outcome },
                PipelineAction::Plan { commit: !f.committed, at_target: f.window == w },
            ),
            None => (*state, PipelineAction::Plan { commit: false, at_target: false }),
        },
        PipelineEvent::Planned(Some(id)) => match state.flight {
            Some(f) => if f.window == id {
                (
                    PipelineState {
                        flight: Some(InFlight { window: id, committed: false }),
                        outcome: ActionOutcome::Moved,
                    },
                    PipelineAction::Retarget,
                )
            } else {
                (
                    PipelineState { flight: None, outcome: ActionOutcome::Moved },
                    PipelineAction::Begin { land_previous: true },
                )
            },
            None => (
                PipelineState { flight: None, outcome: ActionOutcome::Moved },
                PipelineAction::Begin { land_previous: false },
            ),
        },
        PipelineEvent::Planned(None) => (*state, PipelineAction::NoOp { pump: state.flight.is_some() }),
        PipelineEvent::Begun(id) => (
            PipelineState { flight: Some(InFlight { window: id, committed: false }), outcome: state.outcome },
            PipelineAction::ReportMoved,
        ),
        PipelineEvent::Settled => match state.flight {
            Some(f) => (
                PipelineState { flight: None, outcome: state.outcome },
                PipelineAction::CommitFinal { from_target: f.committed },
            ),
            None => (*state, PipelineAction::Finish),
        },
        PipelineEvent::Preempted => (*state, PipelineAction::ReadFocus),
        PipelineEvent::Failed => (
            PipelineState { flight: None, outcome: state.outcome },
            PipelineAction::Abort { land: state.flight.is_some() },
        ),
    }
}

/// Whether the host stops after this action.
pub open spec fn stops(a: PipelineAction) -> bool {
    match a {
        PipelineAction::Finish => true,
        PipelineAction::NoWindow { .. } => true,
        PipelineAction::NoOp { pump } => !pump,
        PipelineAction::CommitFinal { .. } => true,
        PipelineAction::Abort { .. } => true,
        _ => false,
    }
}

/// The pipeline never stops with a window part-way: whenever the host stops,
/// nothing is left in flight, and a flight that was moving is landed or
/// committed where it ended up.
pub proof fn lemma_pipeline_never_strands(s: PipelineState, e: PipelineEvent)
    ensures
        stops(pipeline_spec(s, e).1) ==> pipeline_spec(s, e).0.flight is None,
        stops(pipeline_spec(s, e).1) && s.flight is Some ==> match pipeline_spec(s, e).1 {
            PipelineAction::NoWindow { land } => land,
            PipelineAction::Abort { land } => land,
            PipelineAction::CommitFinal { .. } => true,
            _ => false,
        },
{
}

/// A superseded move is recorded once, before the next plan: planning with a
/// flight commits it exactly when it was not yet committed, and leaves it
/// committed, so a further plan does not commit it again.
pub proof fn lemma_commit_before_replan(s: PipelineState, w: u64)
    requires
        s.flight is Some,
    ensures
        pipeline_spec(s, PipelineEvent::Focused(Some(w))).1 matches PipelineAction::Plan { commit, .. }
            && commit == !s.flight->0.committed,
        pipeline_spec(s, PipelineEvent::Focused(Some(w))).0.flight matches Some(f) && f.committed,
        pipeline_spec(pipeline_spec(s, PipelineEvent::Focused(Some(w))).0, PipelineEvent::Focused(
            Some(w),
        )).1 matches PipelineAction::Plan { commit, .. } && !commit,
{
}

/// A new plan for the window already in flight bends that flight; one for
/// another window lands the flight before a new one begins.
pub proof fn lemma_retarget_same_window(s: PipelineState, id: u64)
    requires
        s.flight is Some,
    ensures
        s.flight->0.window == id ==> pipeline_spec(s, PipelineEvent::Planned(Some(id))).1
            == PipelineAction::Retarget,
        s.flight->0.window != id ==> pipeline_spec(s, PipelineEvent::Planned(Some(id))).1
            == (PipelineAction::Begin { land_previous: true }),
        pipeline_spec(s, PipelineEvent::Planned(Some(id))).0.outcome == ActionOutcome::Moved,
{
}

/// Classifies an error from the pipeline: whether the OS refused access.
pub fn is_permission_denied(err: &PlatformError) -> (r: bool)
    ensures
        r == (*err is PermissionDenied),
{
    err.is_permission_denied()
}

} // verus!
