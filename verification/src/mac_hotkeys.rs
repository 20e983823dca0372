//! The macOS hotkey backend: which bindings Carbon can register at all, the
//! ids registered hotkeys are tagged with, the failure reported for each
//! refused binding, applying a set of bindings through Carbon (whose answers
//! are not assumed), and which action a delivered hotkey event fires.

use vstd::prelude::*;
use vstd::string::StringExecFns;

use crate::action::WindowAction;
use crate::hotkey::Hotkey;
use crate::mac_keys::{carbon_code_of, carbon_key_code, carbon_mask, carbon_modifiers};
use crate::platform::{HotkeyFailure, PlatformError};
use crate::text::string_from_chars;

verus! {

/// The `OSType` signature Tile's hotkeys carry: `'TILE'`.
pub const HOTKEY_SIGNATURE: u32 = 0x5449_4C45;

/// `eventHotKeyExistsErr`: another application owns the shortcut.
pub const EVENT_HOT_KEY_EXISTS_ERR: i32 = -9878;

/// Carbon's identification of a registered hotkey.
#[derive(Debug, Clone, Copy, PartialEq, Eq, Structural)]
pub struct EventHotKeyID {
    pub signature: u32,
    pub id: u32,
}

/// The Carbon event kind a handler subscribes to.
#[derive(Debug, Clone, Copy, PartialEq, Eq, Structural)]
pub struct EventTypeSpec {
    pub event_class: u32,
    pub event_kind: u32,
}

/// The character of a decimal digit.
pub open spec fn digit_char(d: nat) -> char {
    ((d + 48) as u8) as char
}

/// The decimal digits of `n`, most significant first.
pub open spec fn digits(n: nat) -> Seq<char>
    decreases n,
{
    if n < 10 {
        seq![digit_char(n)]
    } else {
        digits(n / 10).push(digit_char(n % 10))
    }
}

/// The decimal text of `v`, with a leading `-` when negative.
pub open spec fn decimal(v: int) -> Seq<char> {
    if v < 0 {
        seq!['-'] + digits((-v) as nat)
    } else {
        digits(v as nat)
    }
}

fn push_digits(n: u64, out: &mut Vec<char>)
    ensures
        final(out)@ == old(out)@ + digits(n as nat),
    decreases n,
{
    if n >= 10 {
        push_digits(n / 10, out);
    }
    let d: u8 = (n % 10) as u8;
    let c: char = (d + 48) as char;
    out.push(c);
    proof {
        if n >= 10 {
            assert(digits(n as nat) == digits((n / 10) as nat).push(digit_char((n % 10) as nat)));
        } else {
            assert(digits(n as nat) == seq![digit_char(n as nat)]);
        }
        assert(out@ =~= old(out)@ + digits(n as nat));
    }
}

/// The decimal text of a status code.
pub fn decimal_text(v: i32) -> (r: String)
    ensures
        r@ == decimal(v as int),
{
    let mut out: Vec<char> = Vec::new();
    if v < 0 {
        out.push('-');
        let magnitude: u64 = (-(v as i64)) as u64;
        push_digits(magnitude, &mut out);
    } else {
        push_digits(v as u64, &mut out);
    }
    assert(out@ =~= decimal(v as int));
    string_from_chars(&out)
}

/// Why Carbon refused to register a binding, from its status code.
pub open spec fn registration_reason(status: i32) -> Seq<char> {
    if status == EVENT_HOT_KEY_EXISTS_ERR {
        "hotkey is already registered by another application"@
    } else {
        "RegisterEventHotKey failed with OSStatus "@ + decimal(status as int)
    }
}

/// The failure reported for a binding Carbon refused with `status`.
pub fn registration_failure(hotkey: Hotkey, action: WindowAction, status: i32) -> (r: HotkeyFailure)
    ensures
        r.hotkey == hotkey,
        r.action == action,
        r.reason@ == registration_reason(status),
{
    let reason = if status == EVENT_HOT_KEY_EXISTS_ERR {
        "hotkey is already registered by another application".to_owned()
    } else {
        let mut text = "RegisterEventHotKey failed with OSStatus ".to_owned();
        let code = decimal_text(status);
        text.append(code.as_str());
        text
    };
    HotkeyFailure { hotkey, action, reason }
}

/// What to do with one binding before calling Carbon.
#[derive(Debug, Clone, PartialEq, Eq)]
pub enum MacPlan {
    /// Register with this key code, modifier mask and event id.
    Register { code: u32, modifiers: u32, id: EventHotKeyID },
    /// Report this failure; the key has no Carbon code.
    Refuse(HotkeyFailure),
}

/// The Carbon calls the hotkey backend makes. Nothing is assumed of what
/// they answer.
pub trait CarbonHotkeys {
    /// `InstallEventHandler` for hotkey presses: its status and the handler.
    fn install_event_handler(&mut self) -> (i32, u64);

    /// `RegisterEventHotKey`: its status and the hotkey's handle.
    fn register_event_hotkey(&mut self, code: u32, modifiers: u32, id: EventHotKeyID) -> (i32, u64);

    /// `UnregisterEventHotKey`.
    fn unregister_event_hotkey(&mut self, handle: u64);

    /// `RemoveEventHandler`.
    fn remove_event_handler(&mut self, handler: u64);
}

/// How the backend reports one binding it could not register: its key has
/// no Carbon code, or Carbon refused it with some status.
pub open spec fn mac_failure_fits(f: HotkeyFailure, bindings: Seq<(Hotkey, WindowAction)>) -> bool {
    exists|k: int|
        0 <= k < bindings.len() && f.hotkey == bindings[k].0 && f.action == bindings[k].1 && (
        match carbon_code_of(bindings[k].0.key) {
            None => f.reason@ == "macOS has no key code for "@ + bindings[k].0.key.label_chars(),
            Some(_) => exists|status: i32| f.reason@ == registration_reason(status),
        })
}

/// Every registered id fires the action of one of `bindings`.
pub open spec fn actions_from(actions: Seq<(u32, WindowAction)>, bindings: Seq<(Hotkey, WindowAction)>) -> bool {
    forall|k: int|
        0 <= k < actions.len() ==> exists|j: int|
            0 <= j < bindings.len() && #[trigger] actions[k].1 == bindings[j].1
}

/// The event id `n` registrations after `start`, as the ids wrap around.
pub open spec fn nth_id(start: u32, n: int) -> u32 {
    ((start as int + n) % 0x1_0000_0000) as u32
}

/// How many of the first `j` bindings have a Carbon key code.
pub open spec fn coded_before(bindings: Seq<(Hotkey, WindowAction)>, j: int) -> int
    decreases j,
{
    if j <= 0 {
        0
    } else {
        coded_before(bindings, j - 1) + if carbon_code_of(bindings[j - 1].0.key) is Some {
            1int
        } else {
            0int
        }
    }
}

/// Which id fires which action once the first `j` bindings are applied,
/// given which of them Carbon accepted: each accepted binding under the id
/// it was planned with, in order.
pub open spec fn applied_actions(
    bindings: Seq<(Hotkey, WindowAction)>,
    accepted: Seq<bool>,
    start: u32,
    j: int,
) -> Seq<(u32, WindowAction)>
    decreases j,
{
    if j <= 0 {
        Seq::empty()
    } else if accepted[j - 1] {
        applied_actions(bindings, accepted, start, j - 1).push(
            (nth_id(start, coded_before(bindings, j - 1)), bindings[j - 1].1),
        )
    } else {
        applied_actions(bindings, accepted, start, j - 1)
    }
}

/// The first `j` bindings that were not registered, in order.
pub open spec fn refused(bindings: Seq<(Hotkey, WindowAction)>, accepted: Seq<bool>, j: int) -> Seq<
    (Hotkey, WindowAction),
>
    decreases j,
{
    if j <= 0 {
        Seq::empty()
    } else if accepted[j - 1] {
        refused(bindings, accepted, j - 1)
    } else {
        refused(bindings, accepted, j - 1).push(bindings[j - 1])
    }
}

/// The reason reported for a binding that was not registered: its key has
/// no Carbon code, or Carbon refused it with some status.
pub open spec fn failure_reason_fits(f: HotkeyFailure) -> bool {
    match carbon_code_of(f.hotkey.key) {
        None => f.reason@ == "macOS has no key code for "@ + f.hotkey.key.label_chars(),
        Some(_) => exists|status: i32| f.reason@ == registration_reason(status),
    }
}

/// The outcome of applying `bindings` from the id `start`, given which
/// bindings Carbon accepted: a binding without a key code is never
/// accepted; each accepted one fires its own action under its own id; the
/// failures are exactly the others, in order; the ids advance once per
/// binding with a key code.
pub open spec fn mac_outcome(
    bindings: Seq<(Hotkey, WindowAction)>,
    accepted: Seq<bool>,
    start: u32,
    actions: Seq<(u32, WindowAction)>,
    failures: Seq<HotkeyFailure>,
    next_id: u32,
) -> bool {
    let n = bindings.len() as int;
    &&& accepted.len() == n
    &&& forall|j: int| 0 <= j < n && carbon_code_of(bindings[j].0.key) is None ==> !accepted[j]
    &&& actions == applied_actions(bindings, accepted, start, n)
    &&& failures.len() == refused(bindings, accepted, n).len()
    &&& forall|k: int|
        0 <= k < failures.len() ==> #[trigger] failures[k].hotkey == refused(bindings, accepted, n)[k].0
            && failures[k].action == refused(bindings, accepted, n)[k].1 && failure_reason_fits(
            failures[k],
        )
    &&& next_id == nth_id(start, coded_before(bindings, n))
}

proof fn lemma_prefix_only(
    bindings: Seq<(Hotkey, WindowAction)>,
    accepted: Seq<bool>,
    x: bool,
    start: u32,
    j: int,
)
    requires
        0 <= j <= accepted.len(),
    ensures
        applied_actions(bindings, accepted.push(x), start, j) == applied_actions(
            bindings,
            accepted,
            start,
            j,
        ),
        refused(bindings, accepted.push(x), j) == refused(bindings, accepted, j),
    decreases j,
{
    if j > 0 {
        lemma_prefix_only(bindings, accepted, x, start, j - 1);
        assert(accepted.push(x)[j - 1] == accepted[j - 1]);
    }
}

proof fn lemma_next_id(start: u32, n: int)
    ensures
        nth_id(start, n + 1) == (if nth_id(start, n) == u32::MAX {
            0
        } else {
            (nth_id(start, n) + 1) as u32
        }),
{
    let m = 0x1_0000_0000int;
    let x = start as int + n;
    vstd::arithmetic::div_mod::lemma_add_mod_noop(x, 1, m);
    vstd::arithmetic::div_mod::lemma_small_mod(1, m as nat);
    let v = x % m;
    assert(0 <= v < m) by {
        vstd::arithmetic::div_mod::lemma_mod_bound(x, m);
    };
    if v + 1 < m {
        vstd::arithmetic::div_mod::lemma_small_mod((v + 1) as nat, m as nat);
    } else {
        vstd::arithmetic::div_mod::lemma_mod_self_0(m);
    }
}

/// The state of the macOS hotkey backend: the installed event handler (`0`
/// when none), the live hotkey handles to unregister, the next event id, and
/// which action each registered id fires, most recent registration last.
/// Handles are the addresses Carbon returned; the backend never reads them.
pub struct MacHotkeyBackend {
    pub handler: u64,
    pub registered: Vec<u64>,
    pub next_id: u32,
    pub actions: Vec<(u32, WindowAction)>,
}

/// `noErr`: the Carbon call succeeded.
pub const NO_ERR: i32 = 0;

/// The action the most recent registration of `id` fires.
pub open spec fn action_of(entries: Seq<(u32, WindowAction)>, id: u32) -> Option<WindowAction>
    decreases entries.len(),
{
    if entries.len() == 0 {
        None
    } else if entries.last().0 == id {
        Some(entries.last().1)
    } else {
        action_of(entries.drop_last(), id)
    }
}

impl MacHotkeyBackend {
    /// No handler, no hotkeys, ids starting at 1.
    pub fn new() -> (r: MacHotkeyBackend)
        ensures
            r.handler == 0,
            r.registered@.len() == 0,
            r.next_id == 1,
            r.actions@.len() == 0,
    {
        MacHotkeyBackend { handler: 0, registered: Vec::new(), next_id: 1, actions: Vec::new() }
    }

    /// Whether the keyboard event handler still has to be installed.
    pub fn needs_handler(&self) -> (r: bool)
        ensures
            r == (self.handler == 0),
    {
        self.handler == 0
    }

    /// Records the handler Carbon installed.
    pub fn handler_installed(&mut self, handler: u64)
        ensures
            *final(self) == (MacHotkeyBackend { handler, ..*old(self) }),
    {
        self.handler = handler;
    }

    /// Forgets every registration, as before a new set is applied, and hands
    /// back the handles to unregister, each once.
    pub fn release_all(&mut self) -> (handles: Vec<u64>)
        ensures
            handles@ == old(self).registered@,
            final(self).registered@.len() == 0,
            final(self).actions@.len() == 0,
            forall|k: u32| action_of(final(self).actions@, k) is None,
            final(self).next_id == old(self).next_id,
            final(self).handler == old(self).handler,
    {
        self.actions = Vec::new();
        let mut handles: Vec<u64> = Vec::new();
        std::mem::swap(&mut handles, &mut self.registered);
        handles
    }

    /// Plans one binding: a key without a Carbon code is refused with a
    /// failure naming it; otherwise it is registered under the next id, and
    /// the ids wrap around.
    pub fn plan(&mut self, hotkey: Hotkey, action: WindowAction) -> (r: MacPlan)
        ensures
            final(self).actions@ == old(self).actions@,
            final(self).registered@ == old(self).registered@,
            final(self).handler == old(self).handler,
            match carbon_code_of(hotkey.key) {
                None => final(self).next_id == old(self).next_id && (r matches MacPlan::Refuse(f)
                    && f.hotkey == hotkey && f.action == action && f.reason@
                    == "macOS has no key code for "@ + hotkey.key.label_chars()),
                Some(code) => final(self).next_id == (if old(self).next_id == u32::MAX {
                    0
                } else {
                    old(self).next_id + 1
                }) && r == (MacPlan::Register {
                    code,
                    modifiers: carbon_mask(hotkey.modifiers),
                    id: EventHotKeyID { signature: HOTKEY_SIGNATURE, id: old(self).next_id },
                }),
            },
    {
        match carbon_key_code(hotkey.key) {
            None => {
                let mut reason = "macOS has no key code for ".to_owned();
                reason.append(hotkey.key.label());
                MacPlan::Refuse(HotkeyFailure { hotkey, action, reason })
            },
            Some(code) => {
                let id = self.next_id;
                self.next_id = self.next_id.wrapping_add(1);
                MacPlan::Register {
                    code,
                    modifiers: carbon_modifiers(hotkey.modifiers),
                    id: EventHotKeyID { signature: HOTKEY_SIGNATURE, id },
                }
            },
        }
    }

    /// Takes Carbon's answer to registering `hotkey` under `id`: a success
    /// (`noErr` and a handle) is kept, so the id fires `action`; anything else
    /// leaves the state alone and is reported as a failure.
    pub fn record_registration(
        &mut self,
        hotkey: Hotkey,
        action: WindowAction,
        id: u32,
        status: i32,
        handle: u64,
    ) -> (r: Option<HotkeyFailure>)
        ensures
            final(self).next_id == old(self).next_id,
            final(self).handler == old(self).handler,
            if status == NO_ERR && handle != 0 {
                &&& r is None
                &&& final(self).registered@ == old(self).registered@.push(handle)
                &&& final(self).actions@ == old(self).actions@.push((id, action))
                &&& forall|k: u32|
                    action_of(final(self).actions@, k) == (if k == id {
                        Some(action)
                    } else {
                        action_of(old(self).actions@, k)
                    })
            } else {
                &&& r matches Some(f) && f.hotkey == hotkey && f.action == action && f.reason@
                    == registration_reason(status)
                &&& final(self).registered@ == old(self).registered@
                &&& final(self).actions@ == old(self).actions@
            },
    {
        if status == NO_ERR && handle != 0 {
            let ghost before = self.actions@;
            self.registered.push(handle);
            self.actions.push((id, action));
            assert(self.actions@.drop_last() =~= before);
            None
        } else {
            Some(registration_failure(hotkey, action, status))
        }
    }

    /// Tears the backend down: hands back the hotkey handles to unregister
    /// and the handler to remove (`None` when none is installed), and leaves
    /// nothing registered.
    pub fn release_for_shutdown(&mut self) -> (r: (Vec<u64>, Option<u64>))
        ensures
            r.0@ == old(self).registered@,
            r.1 == (if old(self).handler == 0 {
                None
            } else {
                Some(old(self).handler)
            }),
            final(self).handler == 0,
            final(self).registered@.len() == 0,
            final(self).actions@.len() == 0,
            final(self).next_id == old(self).next_id,
    {
        let handles = self.release_all();
        let handler = if self.handler != 0 {
            let h = self.handler;
            self.handler = 0;
            Some(h)
        } else {
            None
        };
        (handles, handler)
    }

    /// Installs the hotkey event handler unless one is installed; a Carbon
    /// failure is reported with its status.
    pub fn ensure_handler_installed<C: CarbonHotkeys>(&mut self, carbon: &mut C) -> (r: Result<
        (),
        PlatformError,
    >)
        ensures
            final(self).registered@ == old(self).registered@,
            final(self).actions@ == old(self).actions@,
            final(self).next_id == old(self).next_id,
            old(self).handler != 0 ==> r is Ok && final(self).handler == old(self).handler,
            r matches Err(e) ==> old(self).handler == 0 && final(self).handler == 0 && (
            e matches PlatformError::Os { context, source_message } && context@
                == "InstallEventHandler"@ && exists|status: i32| source_message@ == "OSStatus "@
                + decimal(status as int)),
    {
        if !self.needs_handler() {
            return Ok(());
        }
        let (status, handler) = carbon.install_event_handler();
        self.handler_install_result(status, handler)
    }

    /// Takes Carbon's answer to installing the event handler: success keeps
    /// the handler; any other status is the error, and nothing changes.
    pub fn handler_install_result(&mut self, status: i32, handler: u64) -> (r: Result<
        (),
        PlatformError,
    >)
        ensures
            if status == NO_ERR {
                r is Ok && *final(self) == (MacHotkeyBackend { handler, ..*old(self) })
            } else {
                &&& r matches Err(PlatformError::Os { context, source_message })
                &&& context@ == "InstallEventHandler"@
                &&& source_message@ == "OSStatus "@ + decimal(status as int)
                &&& *final(self) == *old(self)
            },
    {
        if status != NO_ERR {
            let mut m = "OSStatus ".to_owned();
            let code = decimal_text(status);
            m.append(code.as_str());
            return Err(PlatformError::os("InstallEventHandler", m.as_str()));
        }
        self.handler_installed(handler);
        Ok(())
    }

    /// Replaces every registered hotkey with `bindings`: installs the event
    /// handler if needed, releases what was registered, then registers each
    /// binding under the next id. A binding that cannot be registered is
    /// reported and does not stop the others.
    pub fn apply<C: CarbonHotkeys>(&mut self, carbon: &mut C, bindings: &[(Hotkey, WindowAction)]) -> (r:
        Result<Vec<HotkeyFailure>, PlatformError>)
        ensures
            old(self).handler != 0 ==> r is Ok,
            match r {
                Ok(failures) => {
                    &&& final(self).registered@.len() + failures@.len() == bindings@.len()
                    &&& final(self).actions@.len() == final(self).registered@.len()
                    &&& forall|k: int|
                        0 <= k < failures@.len() ==> mac_failure_fits(#[trigger] failures@[k], bindings@)
                    &&& actions_from(final(self).actions@, bindings@)
                    &&& old(self).handler != 0 ==> final(self).handler == old(self).handler
                    &&& exists|accepted: Seq<bool>|
                        #[trigger] mac_outcome(
                            bindings@,
                            accepted,
                            old(self).next_id,
                            final(self).actions@,
                            failures@,
                            final(self).next_id,
                        )
                },
                Err(e) => {
                    &&& e matches PlatformError::Os { context, .. } && context@ == "InstallEventHandler"@
                    &&& final(self).handler == old(self).handler
                    &&& final(self).registered@ == old(self).registered@
                    &&& final(self).actions@ == old(self).actions@
                    &&& final(self).next_id == old(self).next_id
                },
            },
    {
        match self.ensure_handler_installed(carbon) {
            Ok(()) => {},
            Err(e) => {
                return Err(e);
            },
        }
        let handles = self.release_all();
        let mut k: usize = 0;
        while k < handles.len()
            invariant
                k <= handles.len(),
            decreases handles.len() - k,
        {
            carbon.unregister_event_hotkey(handles[k]);
            k = k + 1;
        }
        let ghost start = self.next_id;
        let ghost mut accepted: Seq<bool> = Seq::empty();
        let mut failures: Vec<HotkeyFailure> = Vec::new();
        let mut i: usize = 0;
        while i < bindings.len()
            invariant
                i <= bindings.len(),
                self.registered@.len() + failures@.len() == i,
                self.actions@.len() == self.registered@.len(),
                forall|k: int| 0 <= k < failures@.len() ==> mac_failure_fits(#[trigger] failures@[k], bindings@),
                actions_from(self.actions@, bindings@),
                start == old(self).next_id,
                old(self).handler != 0 ==> self.handler == old(self).handler,
                accepted.len() == i,
                forall|j: int|
                    0 <= j < i && carbon_code_of(bindings@[j].0.key) is None ==> !accepted[j],
                self.actions@ == applied_actions(bindings@, accepted, start, i as int),
                failures@.len() == refused(bindings@, accepted, i as int).len(),
                forall|k: int|
                    0 <= k < failures@.len() ==> #[trigger] failures@[k].hotkey == refused(
                        bindings@,
                        accepted,
                        i as int,
                    )[k].0 && failures@[k].action == refused(bindings@, accepted, i as int)[k].1
                        && failure_reason_fits(failures@[k]),
                self.next_id == nth_id(start, coded_before(bindings@, i as int)),
            decreases bindings.len() - i,
        {
            let (hotkey, action) = bindings[i];
            let ghost failures_before = failures@;
            let ghost actions_before = self.actions@;
            let ghost refused_before = refused(bindings@, accepted, i as int);
            let ghost id_before = self.next_id;
            proof {
                lemma_next_id(start, coded_before(bindings@, i as int));
            }
            let ghost mut ok = false;
            match self.plan(hotkey, action) {
                MacPlan::Refuse(f) => {
                    failures.push(f);
                },
                MacPlan::Register { code, modifiers, id } => {
                    let (status, handle) = carbon.register_event_hotkey(code, modifiers, id);
                    match self.record_registration(hotkey, action, id.id, status, handle) {
                        Some(f) => {
                            failures.push(f);
                        },
                        None => {
                            proof {
                                ok = true;
                            }
                        },
                    }
                },
            }
            proof {
                lemma_prefix_only(bindings@, accepted, ok, start, i as int);
                accepted = accepted.push(ok);
                assert(accepted[i as int] == ok);
                if !ok {
                    assert forall|k: int| 0 <= k < failures@.len() implies #[trigger] failures@[k].hotkey
                        == refused(bindings@, accepted, i + 1)[k].0 && failures@[k].action == refused(
                        bindings@,
                        accepted,
                        i + 1,
                    )[k].1 && failure_reason_fits(failures@[k]) by {
                        if k < failures_before.len() {
                            assert(failures@[k] == failures_before[k]);
                        } else {
                            assert(failures@[k].hotkey == bindings@[i as int].0);
                        }
                    };
                }
            }
            proof {
                assert forall|k: int| 0 <= k < failures@.len() implies mac_failure_fits(
                    #[trigger] failures@[k],
                    bindings@,
                ) by {
                    if k < failures_before.len() {
                        assert(failures@[k] == failures_before[k]);
                    } else {
                        assert(failures@[k].hotkey == bindings@[i as int].0);
                    }
                };
                assert forall|k: int| 0 <= k < self.actions@.len() implies exists|j: int|
                    0 <= j < bindings@.len() && #[trigger] self.actions@[k].1 == bindings@[j].1 by {
                    if k < actions_before.len() {
                        assert(self.actions@[k] == actions_before[k]);
                    } else {
                        assert(self.actions@[k].1 == bindings@[i as int].1);
                    }
                };
            }
            i = i + 1;
        }
        proof {
            assert(mac_outcome(
                bindings@,
                accepted,
                old(self).next_id,
                self.actions@,
                failures@,
                self.next_id,
            ));
        }
        Ok(failures)
    }

    /// Releases every hotkey and the event handler through Carbon.
    pub fn shutdown<C: CarbonHotkeys>(&mut self, carbon: &mut C)
        ensures
            final(self).handler == 0,
            final(self).registered@.len() == 0,
            final(self).actions@.len() == 0,
            final(self).next_id == old(self).next_id,
    {
        let (handles, handler) = self.release_for_shutdown();
        let mut k: usize = 0;
        while k < handles.len()
            invariant
                k <= handles.len(),
            decreases handles.len() - k,
        {
            carbon.unregister_event_hotkey(handles[k]);
            k = k + 1;
        }
        match handler {
            Some(h) => carbon.remove_event_handler(h),
            None => {},
        }
    }

    /// The action a delivered hotkey event with id `id` fires, if any.
    pub fn action_for_id(&self, id: u32) -> (r: Option<WindowAction>)
        ensures
            r == action_of(self.actions@, id),
    {
        let mut i: usize = self.actions.len();
        assert(self.actions@.subrange(0, i as int) =~= self.actions@);
        while i > 0
            invariant
                i <= self.actions.len(),
                action_of(self.actions@, id) == action_of(self.actions@.subrange(0, i as int), id),
            decreases i,
        {
            let (k, a) = self.actions[i - 1];
            assert(self.actions@.subrange(0, i as int).drop_last() =~= self.actions@.subrange(
                0,
                i - 1,
            ));
            if k == id {
                return Some(a);
            }
            i = i - 1;
        }
        None
    }
}

} // verus!
