use tile::action::WindowAction;
use tile::hotkey::{Hotkey, KeyCode, Modifiers};
use tile::platform::PlatformError;
use tile::mac_hotkeys::{
    decimal_text, CarbonHotkeys, registration_failure, EventHotKeyID, MacHotkeyBackend, MacPlan,
    EVENT_HOT_KEY_EXISTS_ERR, HOTKEY_SIGNATURE, NO_ERR,
};

#[test]
fn keys_without_a_carbon_code_are_refused_by_name() {
    let mut table = MacHotkeyBackend::new();
    let hotkey = Hotkey::new(Modifiers::control(), KeyCode::F21);
    match table.plan(hotkey, WindowAction::Center) {
        MacPlan::Refuse(failure) => {
            assert_eq!(failure.reason, "macOS has no key code for F21");
            assert_eq!(failure.action, WindowAction::Center);
        }
        other => panic!("unexpected plan {other:?}"),
    }
    assert_eq!(table.next_id, 1);
}

#[test]
fn registrations_take_consecutive_ids() {
    let mut table = MacHotkeyBackend::new();
    let left = Hotkey::new(Modifiers::control() | Modifiers::alt(), KeyCode::Left);
    assert_eq!(
        table.plan(left, WindowAction::LeftHalf),
        MacPlan::Register {
            code: 0x7B,
            modifiers: 0x1000 | 0x0800,
            id: EventHotKeyID { signature: HOTKEY_SIGNATURE, id: 1 }
        }
    );
    assert_eq!(table.record_registration(left, WindowAction::LeftHalf, 1, NO_ERR, 0x1000), None);
    assert_eq!(table.next_id, 2);
    assert_eq!(table.registered, vec![0x1000]);
    table.next_id = u32::MAX;
    let _ = table.plan(left, WindowAction::LeftHalf);
    assert_eq!(table.next_id, 0);
}

#[test]
fn delivered_events_fire_the_latest_registration_of_their_id() {
    let mut table = MacHotkeyBackend::new();
    let hk = Hotkey::new(Modifiers::control(), KeyCode::Up);
    assert!(table.record_registration(hk, WindowAction::Maximize, 3, NO_ERR, 0xA0).is_none());
    assert!(table.record_registration(hk, WindowAction::Restore, 4, NO_ERR, 0xB0).is_none());
    assert!(table.record_registration(hk, WindowAction::Center, 3, NO_ERR, 0xC0).is_none());
    assert_eq!(table.action_for_id(3), Some(WindowAction::Center));
    assert_eq!(table.action_for_id(4), Some(WindowAction::Restore));
    assert_eq!(table.action_for_id(5), None);
    assert_eq!(table.release_all(), vec![0xA0, 0xB0, 0xC0]);
    assert_eq!(table.action_for_id(3), None);
    assert!(table.registered.is_empty());
}

#[test]
fn refused_or_handleless_registrations_change_nothing() {
    let mut table = MacHotkeyBackend::new();
    let hk = Hotkey::new(Modifiers::meta(), KeyCode::Up);
    let taken = table.record_registration(hk, WindowAction::Maximize, 1, EVENT_HOT_KEY_EXISTS_ERR, 0);
    assert_eq!(
        taken.map(|f| f.reason),
        Some("hotkey is already registered by another application".to_string())
    );
    let null = table.record_registration(hk, WindowAction::Maximize, 2, NO_ERR, 0);
    assert_eq!(
        null.map(|f| f.reason),
        Some("RegisterEventHotKey failed with OSStatus 0".to_string())
    );
    assert!(table.registered.is_empty());
    assert_eq!(table.action_for_id(1), None);
}

#[test]
fn shutdown_hands_back_every_handle_and_the_handler_once() {
    let mut table = MacHotkeyBackend::new();
    assert!(table.needs_handler());
    table.handler_installed(0x77);
    assert!(!table.needs_handler());
    let hk = Hotkey::new(Modifiers::control(), KeyCode::Up);
    let _ = table.record_registration(hk, WindowAction::Maximize, 1, NO_ERR, 0x10);
    assert_eq!(table.release_for_shutdown(), (vec![0x10], Some(0x77)));
    assert_eq!(table.release_for_shutdown(), (vec![], None));
    assert!(table.needs_handler());
    assert_eq!(table.action_for_id(1), None);
}

#[test]
fn refused_registrations_explain_the_status() {
    let hotkey = Hotkey::new(Modifiers::meta(), KeyCode::Up);
    let taken = registration_failure(hotkey, WindowAction::Maximize, EVENT_HOT_KEY_EXISTS_ERR);
    assert_eq!(taken.reason, "hotkey is already registered by another application");
    let other = registration_failure(hotkey, WindowAction::Maximize, -50);
    assert_eq!(other.reason, "RegisterEventHotKey failed with OSStatus -50");
}

#[test]
fn status_codes_render_in_decimal() {
    assert_eq!(decimal_text(0), "0");
    assert_eq!(decimal_text(7), "7");
    assert_eq!(decimal_text(-9878), "-9878");
    assert_eq!(decimal_text(i32::MIN), i32::MIN.to_string());
    assert_eq!(decimal_text(i32::MAX), i32::MAX.to_string());
}

/// Carbon, as the tests want it to answer.
struct FakeCarbon {
    log: Vec<String>,
    install_status: i32,
    register_status: i32,
    next_handle: u64,
}

impl FakeCarbon {
    fn answering(install_status: i32, register_status: i32) -> FakeCarbon {
        FakeCarbon { log: Vec::new(), install_status, register_status, next_handle: 0x100 }
    }
}

impl CarbonHotkeys for FakeCarbon {
    fn install_event_handler(&mut self) -> (i32, u64) {
        self.log.push("install".to_string());
        (self.install_status, 0x77)
    }

    fn register_event_hotkey(&mut self, code: u32, _modifiers: u32, id: EventHotKeyID) -> (i32, u64) {
        self.log.push(format!("register {code:#x} as {}", id.id));
        self.next_handle += 1;
        (self.register_status, self.next_handle)
    }

    fn unregister_event_hotkey(&mut self, handle: u64) {
        self.log.push(format!("unregister {handle:#x}"));
    }

    fn remove_event_handler(&mut self, handler: u64) {
        self.log.push(format!("remove {handler:#x}"));
    }
}

#[test]
fn applying_registers_every_binding_carbon_can_take() {
    let mut backend = MacHotkeyBackend::new();
    let mut carbon = FakeCarbon::answering(NO_ERR, NO_ERR);
    let left = Hotkey::new(Modifiers::control(), KeyCode::Left);
    let f21 = Hotkey::new(Modifiers::control(), KeyCode::F21);
    let failures = backend
        .apply(&mut carbon, &[(left, WindowAction::LeftHalf), (f21, WindowAction::Center)])
        .unwrap();
    assert_eq!(failures.len(), 1);
    assert_eq!(failures[0].reason, "macOS has no key code for F21");
    assert_eq!(carbon.log, vec!["install", "register 0x7b as 1"]);
    assert_eq!(backend.action_for_id(1), Some(WindowAction::LeftHalf));

    // A second apply keeps the handler and releases the old registration.
    carbon.log.clear();
    let failures = backend.apply(&mut carbon, &[(left, WindowAction::Maximize)]).unwrap();
    assert!(failures.is_empty());
    assert_eq!(carbon.log, vec!["unregister 0x101", "register 0x7b as 2"]);
    assert_eq!(backend.action_for_id(1), None);
    assert_eq!(backend.action_for_id(2), Some(WindowAction::Maximize));

    carbon.log.clear();
    backend.shutdown(&mut carbon);
    assert_eq!(carbon.log, vec!["unregister 0x102", "remove 0x77"]);
    assert_eq!(backend.action_for_id(2), None);
}

#[test]
fn a_handler_carbon_refuses_fails_the_apply() {
    let mut backend = MacHotkeyBackend::new();
    let mut carbon = FakeCarbon::answering(-50, NO_ERR);
    let left = Hotkey::new(Modifiers::control(), KeyCode::Left);
    let err = backend.apply(&mut carbon, &[(left, WindowAction::LeftHalf)]).unwrap_err();
    assert_eq!(err, PlatformError::os("InstallEventHandler", "OSStatus -50"));
    assert!(backend.needs_handler());
    assert_eq!(carbon.log, vec!["install"]);
}

#[test]
fn refused_registrations_are_reported_and_the_rest_go_on() {
    let mut backend = MacHotkeyBackend::new();
    let mut carbon = FakeCarbon::answering(NO_ERR, EVENT_HOT_KEY_EXISTS_ERR);
    let left = Hotkey::new(Modifiers::control(), KeyCode::Left);
    let right = Hotkey::new(Modifiers::control(), KeyCode::Right);
    let failures = backend
        .apply(&mut carbon, &[(left, WindowAction::LeftHalf), (right, WindowAction::RightHalf)])
        .unwrap();
    assert_eq!(failures.len(), 2);
    assert_eq!(failures[1].reason, "hotkey is already registered by another application");
    assert!(backend.registered.is_empty());
}

#[test]
fn the_handler_carbon_installs_is_kept_and_a_refusal_changes_nothing() {
    let mut backend = MacHotkeyBackend::new();
    assert_eq!(
        backend.handler_install_result(-50, 0x77),
        Err(PlatformError::os("InstallEventHandler", "OSStatus -50"))
    );
    assert!(backend.needs_handler());
    assert_eq!(backend.handler_install_result(NO_ERR, 0x77), Ok(()));
    assert_eq!(backend.handler, 0x77);
}
