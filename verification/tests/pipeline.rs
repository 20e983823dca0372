use tile::state::{
    pipeline_start, pipeline_step, ActionOutcome, InFlight, PipelineAction, PipelineEvent,
    PipelineState,
};

fn run(events: &[PipelineEvent]) -> (PipelineState, Vec<PipelineAction>) {
    let mut state = pipeline_start();
    let mut actions = Vec::new();
    for event in events {
        let (next, action) = pipeline_step(&state, *event);
        state = next;
        actions.push(action);
    }
    (state, actions)
}

#[test]
fn a_single_move_begins_reports_and_commits_the_true_frame() {
    let (state, actions) = run(&[
        PipelineEvent::Focused(Some(1)),
        PipelineEvent::Planned(Some(1)),
        PipelineEvent::Begun(1),
        PipelineEvent::Settled,
    ]);
    assert_eq!(
        actions,
        vec![
            PipelineAction::Plan { commit: false, at_target: false },
            PipelineAction::Begin { land_previous: false },
            PipelineAction::ReportMoved,
            PipelineAction::CommitFinal { from_target: false },
        ]
    );
    assert_eq!(state, PipelineState { flight: None, outcome: ActionOutcome::Moved });
}

#[test]
fn a_second_press_on_the_same_window_commits_first_and_retargets() {
    let (state, actions) = run(&[
        PipelineEvent::Focused(Some(1)),
        PipelineEvent::Planned(Some(1)),
        PipelineEvent::Begun(1),
        PipelineEvent::Preempted,
        PipelineEvent::Focused(Some(1)),
    ]);
    assert_eq!(actions[3], PipelineAction::ReadFocus);
    assert_eq!(actions[4], PipelineAction::Plan { commit: true, at_target: true });
    assert_eq!(state.flight, Some(InFlight { window: 1, committed: true }));
    let (state, action) = pipeline_step(&state, PipelineEvent::Planned(Some(1)));
    assert_eq!(action, PipelineAction::Retarget);
    assert_eq!(state.flight, Some(InFlight { window: 1, committed: false }));
    let (_, action) = pipeline_step(&state, PipelineEvent::Settled);
    assert_eq!(action, PipelineAction::CommitFinal { from_target: false });
}

#[test]
fn a_superseding_no_op_still_lands_from_the_recorded_target() {
    let (state, actions) = run(&[
        PipelineEvent::Focused(Some(1)),
        PipelineEvent::Planned(Some(1)),
        PipelineEvent::Begun(1),
        PipelineEvent::Preempted,
        PipelineEvent::Focused(Some(1)),
        PipelineEvent::Planned(None),
        PipelineEvent::Settled,
    ]);
    assert_eq!(actions[5], PipelineAction::NoOp { pump: true });
    assert_eq!(actions[6], PipelineAction::CommitFinal { from_target: true });
    assert_eq!(state, PipelineState { flight: None, outcome: ActionOutcome::Moved });
}

#[test]
fn a_move_of_another_window_lands_the_first() {
    let (state, actions) = run(&[
        PipelineEvent::Focused(Some(1)),
        PipelineEvent::Planned(Some(1)),
        PipelineEvent::Begun(1),
        PipelineEvent::Preempted,
        PipelineEvent::Focused(Some(2)),
        PipelineEvent::Planned(Some(2)),
    ]);
    assert_eq!(actions[4], PipelineAction::Plan { commit: true, at_target: false });
    assert_eq!(actions[5], PipelineAction::Begin { land_previous: true });
    assert_eq!(state.flight, None);
    let (state, action) = pipeline_step(&state, PipelineEvent::Begun(2));
    assert_eq!(action, PipelineAction::ReportMoved);
    assert_eq!(state.flight, Some(InFlight { window: 2, committed: false }));
}

#[test]
fn losing_focus_reports_no_window_and_lands_a_flight() {
    let (state, actions) = run(&[PipelineEvent::Focused(None)]);
    assert_eq!(actions, vec![PipelineAction::NoWindow { land: false }]);
    assert_eq!(state.outcome, ActionOutcome::NoWindow);

    let (state, actions) = run(&[
        PipelineEvent::Focused(Some(1)),
        PipelineEvent::Planned(Some(1)),
        PipelineEvent::Begun(1),
        PipelineEvent::Preempted,
        PipelineEvent::Focused(None),
    ]);
    assert_eq!(actions[4], PipelineAction::NoWindow { land: true });
    assert_eq!(state, PipelineState { flight: None, outcome: ActionOutcome::Moved });
}

#[test]
fn a_failure_lands_the_stranded_flight() {
    let (state, actions) = run(&[
        PipelineEvent::Focused(Some(1)),
        PipelineEvent::Planned(Some(1)),
        PipelineEvent::Begun(1),
        PipelineEvent::Failed,
    ]);
    assert_eq!(actions[3], PipelineAction::Abort { land: true });
    assert_eq!(state.flight, None);
    let (_, action) = pipeline_step(&pipeline_start(), PipelineEvent::Failed);
    assert_eq!(action, PipelineAction::Abort { land: false });
}

#[test]
fn a_no_op_with_nothing_in_flight_stops() {
    let (state, actions) = run(&[PipelineEvent::Focused(Some(3)), PipelineEvent::Planned(None)]);
    assert_eq!(actions[1], PipelineAction::NoOp { pump: false });
    assert_eq!(state, PipelineState { flight: None, outcome: ActionOutcome::NoOp });
}
