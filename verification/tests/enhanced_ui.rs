use std::cell::{Cell, RefCell};
use std::rc::Rc;
use tile::enhanced_ui::settle_suppression;

use tile::enhanced_ui::{EnhancedUiAccess, EnhancedUiGuard};
use tile::platform::PlatformError;

#[derive(Clone)]
struct FakeAccess {
    state: Rc<Cell<Option<bool>>>,
    writes: Rc<RefCell<Vec<bool>>>,
}

impl FakeAccess {
    fn new(state: Option<bool>) -> Self {
        Self { state: Rc::new(Cell::new(state)), writes: Rc::new(RefCell::new(Vec::new())) }
    }
}

impl EnhancedUiAccess for FakeAccess {
    fn current(&self) -> Option<bool> {
        self.state.get()
    }

    fn set(&self, value: bool) -> Result<bool, PlatformError> {
        self.state.set(Some(value));
        self.writes.borrow_mut().push(value);
        Ok(true)
    }
}

/// Restores on scope exit, as the backend's owner of the guard does.
struct Scoped(EnhancedUiGuard<FakeAccess>);

impl Drop for Scoped {
    fn drop(&mut self) {
        let _ = self.0.restore();
    }
}

#[test]
fn unavailable_and_disabled_enhanced_ui_are_initially_untouched() {
    for initial in [None, Some(false)] {
        let access = FakeAccess::new(initial);
        let writes = access.writes.clone();
        drop(Scoped(EnhancedUiGuard::new(access).unwrap()));
        assert!(writes.borrow().is_empty());
    }
}

#[test]
fn enabled_enhanced_ui_is_suppressed_and_restored() {
    let access = FakeAccess::new(Some(true));
    let state = access.state.clone();
    let writes = access.writes.clone();
    let guard = Scoped(EnhancedUiGuard::new(access).unwrap());
    assert_eq!(state.get(), Some(false));
    drop(guard);
    assert_eq!(state.get(), Some(true));
    assert_eq!(*writes.borrow(), [false, true]);
}

#[test]
fn enhanced_ui_is_suppressed_again_before_the_final_frame() {
    let access = FakeAccess::new(Some(false));
    let state = access.state.clone();
    let writes = access.writes.clone();
    let mut guard = Scoped(EnhancedUiGuard::new(access).unwrap());
    state.set(Some(true));
    guard.0.ensure_disabled().unwrap();
    drop(guard);
    assert_eq!(state.get(), Some(true));
    assert_eq!(*writes.borrow(), [false, true]);
}

#[test]
fn early_operation_error_still_restores_enhanced_ui_on_scope_exit() {
    let access = FakeAccess::new(Some(true));
    let state = access.state.clone();
    let writes = access.writes.clone();
    let operation: Result<(), PlatformError> = {
        let _guard = Scoped(EnhancedUiGuard::new(access).unwrap());
        Err(PlatformError::os("test operation", "injected failure"))
    };
    assert!(operation.is_err());
    assert_eq!(state.get(), Some(true));
    assert_eq!(*writes.borrow(), [false, true]);
}

#[test]
fn restoring_twice_writes_once() {
    let access = FakeAccess::new(Some(true));
    let writes = access.writes.clone();
    let mut guard = EnhancedUiGuard::new(access).unwrap();
    assert!(guard.restore().is_some());
    assert!(guard.restore().is_none());
    assert_eq!(*writes.borrow(), [false, true]);
}

#[test]
fn only_a_write_that_changed_the_attribute_is_owed_a_restore() {
    assert_eq!(settle_suppression(false, Some(false), None), (false, Ok(())));
    assert_eq!(settle_suppression(false, Some(true), Some(Ok(false))), (false, Ok(())));
    assert_eq!(settle_suppression(false, Some(true), Some(Ok(true))), (true, Ok(())));
    assert_eq!(settle_suppression(true, None, None), (true, Ok(())));
    let err = PlatformError::os("set", "denied");
    assert_eq!(settle_suppression(false, Some(true), Some(Err(err.clone()))), (false, Err(err)));
}
