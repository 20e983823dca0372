use std::cell::Cell;

use tile::action::WindowAction;
use tile::apply::{rollback_error, NativeError, NativeHotkeys};
use tile::hotkey::{Hotkey, KeyCode, Modifiers};
use tile::native_errors::HRESULT_HOTKEY_ALREADY_REGISTERED;
use tile::owner::{ApplyControl, OwnerState};
use tile::platform::{HotkeyBinding, HotkeyRoute, PlatformError};
use tile::win_keys::HookBinding;

/// Windows, as the tests want it to answer.
#[derive(Default)]
struct FakeNative {
    log: Vec<String>,
    published: Vec<HookBinding>,
    register_error: Option<NativeError>,
    unregister_fails: bool,
    install_fails: bool,
    unhook_fails: bool,
    clock: Cell<u64>,
}

fn denied() -> NativeError {
    NativeError { code: 5, message: "denied".to_string() }
}

impl NativeHotkeys for FakeNative {
    fn unregister(&mut self, id: i32) -> Result<(), NativeError> {
        self.log.push(format!("unregister {id}"));
        if self.unregister_fails {
            Err(denied())
        } else {
            Ok(())
        }
    }

    fn register(&mut self, id: i32, _binding: HotkeyBinding) -> Result<(), NativeError> {
        self.log.push(format!("register {id}"));
        match &self.register_error {
            Some(e) => Err(e.clone()),
            None => Ok(()),
        }
    }

    fn install_hook(&mut self) -> Result<u64, PlatformError> {
        self.log.push("install hook".to_string());
        if self.install_fails {
            Err(PlatformError::os("SetWindowsHookExW", "no hook"))
        } else {
            Ok(0x99)
        }
    }

    fn unhook(&mut self, hook: u64) -> Result<(), NativeError> {
        self.log.push(format!("unhook {hook:#x}"));
        if self.unhook_fails {
            Err(denied())
        } else {
            Ok(())
        }
    }

    fn set_hook_bindings(&mut self, bindings: Vec<HookBinding>) -> Result<(), PlatformError> {
        self.log.push(format!("publish {}", bindings.len()));
        self.published = bindings;
        Ok(())
    }

    fn clear_transient_keys(&mut self) {
        self.log.push("clear keys".to_string());
    }

    fn now(&self) -> u64 {
        let t = self.clock.get() + 1;
        self.clock.set(t);
        t
    }
}

fn binding(modifiers: Modifiers, key: KeyCode, action: WindowAction) -> HotkeyBinding {
    HotkeyBinding { hotkey: Hotkey::new(modifiers, key), action, repeat: false }
}

fn ctrl_a() -> HotkeyBinding {
    binding(Modifiers::control(), KeyCode::A, WindowAction::Center)
}

fn ctrl_enter() -> HotkeyBinding {
    binding(Modifiers::control(), KeyCode::Enter, WindowAction::Maximize)
}

const LATER: u64 = 1_000;

#[test]
fn a_first_apply_registers_hooks_and_refuses_as_it_must() {
    let mut owner = OwnerState::new();
    let mut native = FakeNative::default();
    let mut control = ApplyControl::new();
    let f12 = binding(Modifiers::control(), KeyCode::F12, WindowAction::Restore);
    let report = owner
        .apply(&mut native, &mut control, LATER, &[ctrl_a(), ctrl_enter(), f12])
        .expect("the apply succeeds");
    let routes: Vec<HotkeyRoute> = report.bindings.iter().map(|s| s.route).collect();
    assert_eq!(
        routes,
        vec![HotkeyRoute::Registered, HotkeyRoute::Intercepted, HotkeyRoute::Unavailable]
    );
    assert_eq!(
        report.bindings[1].reason.as_deref(),
        Some("uses the hook to preserve Enter key identity")
    );
    assert_eq!(
        report.bindings[2].reason.as_deref(),
        Some("F12 is reserved by the Windows debugger")
    );
    assert!(report.hook_installed);
    assert_eq!(report.warning, None);
    assert_eq!(native.log, vec!["register 1", "install hook", "publish 1", "clear keys"]);
    assert_eq!(owner.registered.len(), 1);
    assert!(owner.registered[0].enabled);
    assert_eq!(owner.hook, Some(0x99));
    assert_eq!(owner.hook_table, native.published);
    assert_eq!(owner.hook_table.len(), 1);
    assert_eq!(owner.hook_table[0].action, WindowAction::Maximize);
}

#[test]
fn a_second_apply_reuses_registrations_and_drops_the_unneeded_hook() {
    let mut owner = OwnerState::new();
    let mut native = FakeNative::default();
    owner.apply(&mut native, &mut ApplyControl::new(), LATER, &[ctrl_a(), ctrl_enter()]).unwrap();
    native.log.clear();
    let renamed = HotkeyBinding { action: WindowAction::Maximize, ..ctrl_a() };
    let report = owner.apply(&mut native, &mut ApplyControl::new(), LATER, &[renamed]).unwrap();
    assert_eq!(report.bindings[0].route, HotkeyRoute::Registered);
    assert!(!report.hook_installed);
    assert_eq!(native.log, vec!["publish 0", "clear keys", "unhook 0x99"]);
    assert_eq!(owner.registered.len(), 1);
    assert_eq!(owner.registered[0].id, 1);
    assert_eq!(owner.registered[0].binding.action, WindowAction::Maximize);
    assert_eq!(owner.hook, None);
    assert!(owner.hook_table.is_empty());
    assert!(native.published.is_empty());
}

#[test]
fn shortcuts_owned_elsewhere_go_to_the_hook_and_other_failures_are_reported() {
    let mut owner = OwnerState::new();
    let mut native = FakeNative {
        register_error: Some(NativeError {
            code: HRESULT_HOTKEY_ALREADY_REGISTERED,
            message: "taken".to_string(),
        }),
        ..FakeNative::default()
    };
    let report = owner.apply(&mut native, &mut ApplyControl::new(), LATER, &[ctrl_a()]).unwrap();
    assert_eq!(report.bindings[0].route, HotkeyRoute::Intercepted);
    assert_eq!(
        report.bindings[0].reason.as_deref(),
        Some("already owned by Windows or another application")
    );
    assert!(report.hook_installed);

    let mut owner = OwnerState::new();
    let mut native = FakeNative { register_error: Some(denied()), ..FakeNative::default() };
    let report = owner.apply(&mut native, &mut ApplyControl::new(), LATER, &[ctrl_a()]).unwrap();
    assert_eq!(report.bindings[0].route, HotkeyRoute::Unavailable);
    assert_eq!(report.bindings[0].reason.as_deref(), Some("RegisterHotKey failed: denied"));
    assert!(!report.hook_installed);
    assert!(owner.registered.is_empty());
}

#[test]
fn a_cancelled_request_is_rolled_back() {
    let mut owner = OwnerState::new();
    let mut native = FakeNative::default();
    let mut control = ApplyControl::new();
    assert!(control.cancel());
    let err = owner.apply(&mut native, &mut control, LATER, &[ctrl_a()]).unwrap_err();
    assert_eq!(err, PlatformError::os("hotkey apply", "request expired"));
    assert!(owner.registered.is_empty());
    assert_eq!(native.log, vec!["publish 0"]);

    let mut control = ApplyControl::new();
    assert!(control.cancel());
    let err = owner.serve_apply(&mut native, &mut control, LATER, &[ctrl_a()]).unwrap_err();
    assert_eq!(
        err,
        PlatformError::os("hotkey apply", "request was cancelled or expired before processing")
    );
}

#[test]
fn an_incomplete_rollback_leaves_the_state_unknown() {
    let mut owner = OwnerState::new();
    let mut native = FakeNative { unregister_fails: true, ..FakeNative::default() };
    // The clock reads 1 while routing the binding and 2 afterwards.
    let err = owner.apply(&mut native, &mut ApplyControl::new(), 2, &[ctrl_a()]).unwrap_err();
    assert_eq!(
        err,
        PlatformError::HotkeyStateUnknown(
            "request expired; rollback incomplete: unregister staged 1: denied".to_string()
        )
    );
}

#[test]
fn a_hook_that_cannot_be_installed_fails_the_request() {
    let mut owner = OwnerState::new();
    let mut native = FakeNative { install_fails: true, ..FakeNative::default() };
    let err = owner
        .apply(&mut native, &mut ApplyControl::new(), LATER, &[ctrl_a(), ctrl_enter()])
        .unwrap_err();
    assert_eq!(
        err,
        PlatformError::os(
            "hotkey apply",
            "SetWindowsHookExW: no hook; hotkey apply: hook installation failed"
        )
    );
    assert!(owner.registered.is_empty());
    assert_eq!(native.log, vec!["register 1", "install hook", "unregister 1", "publish 0"]);
}

#[test]
fn an_obsolete_hook_that_stays_is_a_warning() {
    let mut owner = OwnerState::new();
    let mut native = FakeNative::default();
    owner.apply(&mut native, &mut ApplyControl::new(), LATER, &[ctrl_enter()]).unwrap();
    native.unhook_fails = true;
    let report = owner.apply(&mut native, &mut ApplyControl::new(), LATER, &[ctrl_a()]).unwrap();
    assert!(report.hook_installed);
    assert_eq!(
        report.warning.as_deref(),
        Some("shortcuts were updated, but the obsolete keyboard hook could not be removed: denied")
    );
}

#[test]
fn rollback_errors_name_the_reason_and_what_failed() {
    assert_eq!(
        rollback_error("request expired", &vec![]),
        PlatformError::os("hotkey apply", "request expired")
    );
    let errors = vec!["restore 3: denied".to_string(), "unregister staged 4: gone".to_string()];
    assert_eq!(
        rollback_error("request expired", &errors),
        PlatformError::HotkeyStateUnknown(
            "request expired; rollback incomplete: restore 3: denied; unregister staged 4: gone"
                .to_string()
        )
    );
}

#[test]
fn a_cleanly_rolled_back_request_leaves_the_owner_as_it_was() {
    let mut owner = OwnerState::new();
    let mut native = FakeNative::default();
    owner.apply(&mut native, &mut ApplyControl::new(), LATER, &[ctrl_a()]).unwrap();
    let before = owner.registered.clone();
    native.log.clear();
    let ctrl_b = binding(Modifiers::control(), KeyCode::B, WindowAction::Maximize);
    // The clock reads 4 while routing and 5 afterwards, when the request expires.
    let err = owner.apply(&mut native, &mut ApplyControl::new(), 5, &[ctrl_b]).unwrap_err();
    assert_eq!(err, PlatformError::os("hotkey apply", "request expired"));
    assert_eq!(owner.registered, before);
    assert_eq!(owner.hook, None);
    assert_eq!(
        native.log,
        vec!["unregister 1", "register 2", "unregister 2", "register 1", "publish 0"]
    );
}

#[test]
fn releasing_on_exit_unregisters_every_id_and_removes_the_hook() {
    let mut owner = OwnerState::new();
    let mut native = FakeNative::default();
    owner.apply(&mut native, &mut ApplyControl::new(), LATER, &[ctrl_a(), ctrl_enter()]).unwrap();
    assert_eq!(owner.registration_ids(), vec![1]);
    native.log.clear();
    owner.release_all(&mut native);
    assert_eq!(native.log, vec!["publish 0", "clear keys", "unregister 1", "unhook 0x99"]);
    assert!(owner.registered.is_empty());
    assert_eq!(owner.hook, None);
    assert!(owner.hook_table.is_empty());
}
