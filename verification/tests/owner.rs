use tile::action::WindowAction;
use tile::hotkey::{Hotkey, KeyCode, Modifiers};
use tile::owner::{
    decide_route, hook_status, registration_status, route_counts, start_decision,
    ApplyControl, OwnerState, RegisterOutcome, RegisteredBinding, RouteDecision, StartCommand,
    StartDecision, MAX_HOTKEY_ID,
};
use tile::platform::{HotkeyBinding, HotkeyRoute};
use tile::owner::{loop_step, LoopStep, COMMAND_MESSAGE, WM_HOTKEY};
use tile::owner::{command_step, CommandKind, CommandStep};

fn binding(key: KeyCode, action: WindowAction, repeat: bool) -> HotkeyBinding {
    HotkeyBinding { hotkey: Hotkey::new(Modifiers::control(), key), action, repeat }
}

fn registered(id: i32, b: HotkeyBinding, enabled: bool) -> RegisteredBinding {
    RegisteredBinding { id, binding: b, enabled }
}

#[test]
fn ids_are_allocated_in_order_and_skip_those_in_use() {
    let mut owner = OwnerState::new();
    assert_eq!(owner.allocate_id(), 1);
    owner.registered.push(registered(2, binding(KeyCode::A, WindowAction::Center, false), true));
    assert_eq!(owner.allocate_id(), 3);
    assert_eq!(owner.next_id, 4);
}

#[test]
fn ids_wrap_from_the_largest_back_to_one() {
    let mut owner = OwnerState::new();
    owner.next_id = MAX_HOTKEY_ID;
    assert_eq!(owner.allocate_id(), MAX_HOTKEY_ID);
    assert_eq!(owner.next_id, 1);
    owner.registered.push(registered(1, binding(KeyCode::A, WindowAction::Center, false), true));
    assert_eq!(owner.allocate_id(), 2);
}

#[test]
fn only_enabled_registrations_dispatch() {
    let mut owner = OwnerState::new();
    owner.registered.push(registered(5, binding(KeyCode::A, WindowAction::Center, false), false));
    owner.registered.push(registered(6, binding(KeyCode::B, WindowAction::Maximize, false), true));
    assert_eq!(owner.dispatch_registered(5), None);
    assert_eq!(owner.dispatch_registered(6), Some(WindowAction::Maximize));
    assert_eq!(owner.dispatch_registered(7), None);
    assert_eq!(owner.with_enabled(false).len(), 1);
    owner.forget(5);
    assert_eq!(owner.registered.len(), 1);
    assert_eq!(owner.registered[0].id, 6);
}

#[test]
fn bindings_are_routed_by_key_and_reservation() {
    let kept = registered(1, binding(KeyCode::A, WindowAction::Center, false), true);
    assert_eq!(
        decide_route(binding(KeyCode::F12, WindowAction::Center, false), &[]),
        RouteDecision::Unavailable("F12 is reserved by the Windows debugger")
    );
    assert_eq!(decide_route(binding(KeyCode::Enter, WindowAction::Center, false), &[]), RouteDecision::Hook);
    assert_eq!(
        decide_route(binding(KeyCode::A, WindowAction::Restore, false), &[kept]),
        RouteDecision::Reuse(0)
    );
    assert_eq!(
        decide_route(binding(KeyCode::A, WindowAction::Restore, true), &[kept]),
        RouteDecision::Register
    );
}

#[test]
fn registration_outcomes_become_report_entries() {
    let b = binding(KeyCode::A, WindowAction::Center, false);
    let ok = registration_status(b, RegisterOutcome::Registered);
    assert_eq!((ok.route, ok.reason.clone()), (HotkeyRoute::Registered, None));
    let taken = registration_status(b, RegisterOutcome::AlreadyRegistered);
    assert_eq!(taken.route, HotkeyRoute::Intercepted);
    assert_eq!(taken.reason.as_deref(), Some("already owned by Windows or another application"));
    let failed = registration_status(b, RegisterOutcome::Failed("Access is denied.".into()));
    assert_eq!(failed.route, HotkeyRoute::Unavailable);
    assert_eq!(failed.reason.as_deref(), Some("RegisterHotKey failed: Access is denied."));
    let hook = hook_status(b);
    assert_eq!(hook.reason.as_deref(), Some("uses the hook to preserve Enter key identity"));
    assert_eq!(route_counts(&[ok, taken, failed, hook]), (1, 2, 1));
}

#[test]
fn an_expired_request_is_cancelled() {
    let mut control = ApplyControl::new();
    assert!(!control.cancelled_or_expired(5, 10));
    assert!(control.cancelled_or_expired(10, 10));
    assert!(!control.begin_commit());
}

#[test]
fn an_early_apply_is_rejected() {
    assert_eq!(start_decision(false, Some(StartCommand::Apply)), StartDecision::RejectApplyAndExit);
    assert_eq!(start_decision(false, Some(StartCommand::Shutdown)), StartDecision::Exit);
    assert_eq!(start_decision(true, Some(StartCommand::Start)), StartDecision::Exit);
}

#[test]
fn committing_enables_the_staged_and_retained_registrations() {
    let mut owner = OwnerState::new();
    let old = binding(KeyCode::A, WindowAction::Center, false);
    owner.registered.push(registered(1, old, true));
    let staged = owner.stage(2, binding(KeyCode::B, WindowAction::Maximize, false));
    assert!(!staged.enabled);
    assert_eq!(owner.dispatch_registered(2), None);
    let retained = registered(1, binding(KeyCode::A, WindowAction::Restore, false), true);
    owner.commit(&[retained, staged]);
    assert_eq!(owner.dispatch_registered(1), Some(WindowAction::Restore));
    assert_eq!(owner.dispatch_registered(2), Some(WindowAction::Maximize));
}

#[test]
fn a_rollback_readmits_only_missing_registrations() {
    let mut owner = OwnerState::new();
    let b = binding(KeyCode::A, WindowAction::Center, false);
    owner.readmit(registered(4, b, false));
    assert_eq!(owner.registered, vec![registered(4, b, true)]);
    owner.readmit(registered(4, binding(KeyCode::B, WindowAction::Center, false), true));
    assert_eq!(owner.registered.len(), 1);
    assert_eq!(owner.find_id(4), Some(0));
    assert_eq!(owner.find_id(5), None);
}

#[test]
fn only_live_requests_are_processed() {
    assert!(tile::owner::request_is_live(false, 1, 2));
    assert!(!tile::owner::request_is_live(true, 1, 2));
    assert!(!tile::owner::request_is_live(false, 2, 2));
}

#[test]
fn the_message_loop_routes_each_message() {
    assert_eq!(loop_step(0, WM_HOTKEY, 3), LoopStep::Exit);
    assert_eq!(loop_step(-1, COMMAND_MESSAGE, 0), LoopStep::Exit);
    assert_eq!(loop_step(1, COMMAND_MESSAGE, 0), LoopStep::DrainCommands);
    assert_eq!(loop_step(1, WM_HOTKEY, 3), LoopStep::DispatchHotkey(3));
    assert_eq!(loop_step(1, 0x0100, 0), LoopStep::Forward);
}

#[test]
fn draining_handles_each_command() {
    assert_eq!(command_step(CommandKind::Start, false, 0, 10), CommandStep::Ignore);
    assert_eq!(command_step(CommandKind::Apply, false, 5, 10), CommandStep::Apply);
    assert_eq!(command_step(CommandKind::Apply, true, 5, 10), CommandStep::RejectStale);
    assert_eq!(command_step(CommandKind::Apply, false, 10, 10), CommandStep::RejectStale);
    assert_eq!(command_step(CommandKind::Shutdown, false, 0, 10), CommandStep::Stop);
}

#[test]
fn registration_ids_stay_distinct_through_a_whole_apply_cycle() {
    let mut owner = OwnerState::new();
    let a = binding(KeyCode::A, WindowAction::Center, false);
    let b = binding(KeyCode::B, WindowAction::Maximize, false);
    let first = owner.allocate_id();
    let staged_a = owner.stage(first, a);
    let second = owner.allocate_id();
    let staged_b = owner.stage(second, b);
    owner.commit(&[staged_a, staged_b]);
    owner.forget(first);
    owner.readmit(staged_b);
    owner.readmit(RegisteredBinding { id: first, binding: a, enabled: false });
    let mut ids: Vec<i32> = owner.registered.iter().map(|r| r.id).collect();
    assert_eq!(ids, vec![second, first]);
    ids.sort();
    ids.dedup();
    assert_eq!(ids.len(), owner.registered.len());
    assert!(owner.registered.iter().all(|r| r.enabled));
}
