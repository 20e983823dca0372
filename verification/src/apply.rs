//! The Windows hotkey owner's apply request: releasing what an earlier
//! request left behind, keeping the registrations the new bindings can
//! reuse, routing every binding, installing or removing the keyboard hook,
//! and committing, or putting back what was changed when the request fails or
//! is cancelled.
//!
//! The native calls go through [`NativeHotkeys`], of which nothing is
//! assumed: whatever Windows answers, the owner's registrations keep distinct
//! ids, the report has one entry per binding routed as stated here, and a
//! request cancelled before it commits fails. Once a request commits, the
//! registrations serve exactly the bindings reported registered, and the
//! table the hook dispatches from holds exactly the intercepted ones.

use vstd::prelude::*;
use vstd::string::StringExecFns;

use crate::hotkey::KeyCode;
use crate::mac_hotkeys::{decimal, decimal_text};
use crate::native_errors::is_already_registered;
use crate::owner::{
    any_reuses, decide_route, first_reusable, hook_status, commit_all, id_in_use, ids_unique, lemma_commit_bindings, lemma_commit_enables, lemma_first_reusable, reusable_by, find_enabled,
    lemma_registration_ids_stay_unique, registration_status, ApplyControl, OwnerState,
    RegisterOutcome, RegisteredBinding, RequestState, RouteDecision, MAX_HOTKEY_ID,
};
use crate::platform::{
    HotkeyApplyReport, HotkeyBinding, HotkeyBindingStatus, HotkeyRoute, PlatformError,
};
use crate::win_keys::{
    can_reuse_spec, extended_of, impossible_reason_spec, to_hook_binding, unavailable, vk_of, HookBinding,
};

verus! {

/// What a failed native call answered: its `HRESULT` and the system's
/// message.
#[derive(Debug, Clone, PartialEq, Eq)]
pub struct NativeError {
    pub code: u32,
    pub message: String,
}

/// The native side of the hotkey owner. Nothing is assumed of what these
/// calls answer.
pub trait NativeHotkeys {
    /// `UnregisterHotKey` for the registration with `id`.
    fn unregister(&mut self, id: i32) -> Result<(), NativeError>;

    /// `RegisterHotKey` for `binding` under `id`.
    fn register(&mut self, id: i32, binding: HotkeyBinding) -> Result<(), NativeError>;

    /// Installs the low-level keyboard hook; its handle.
    fn install_hook(&mut self) -> Result<u64, PlatformError>;

    /// Removes the keyboard hook with this handle.
    fn unhook(&mut self, hook: u64) -> Result<(), NativeError>;

    /// Publishes the bindings the hook dispatches.
    fn set_hook_bindings(&mut self, bindings: Vec<HookBinding>) -> Result<(), PlatformError>;

    /// Forgets the keys the hook tracks as held or swallowed.
    fn clear_transient_keys(&mut self);

    /// The monotonic clock, in nanoseconds.
    fn now(&self) -> u64;
}

/// `parts` separated by `sep`.
pub open spec fn join(parts: Seq<Seq<char>>, sep: Seq<char>) -> Seq<char>
    decreases parts.len(),
{
    if parts.len() == 0 {
        Seq::empty()
    } else if parts.len() == 1 {
        parts[0]
    } else {
        join(parts.drop_last(), sep) + sep + parts.last()
    }
}

/// The texts of some strings.
pub open spec fn texts(parts: Seq<String>) -> Seq<Seq<char>> {
    parts.map_values(|s: String| s@)
}

fn join_strings(parts: &Vec<String>, sep: &str) -> (r: String)
    ensures
        r@ == join(texts(parts@), sep@),
{
    let mut r = String::new();
    let mut k: usize = 0;
    while k < parts.len()
        invariant
            k <= parts.len(),
            r@ == join(texts(parts@.subrange(0, k as int)), sep@),
        decreases parts.len() - k,
    {
        let ghost before = texts(parts@.subrange(0, k as int));
        let ghost after = texts(parts@.subrange(0, k + 1));
        assert(after.drop_last() =~= before);
        assert(after.last() == parts@[k as int]@);
        if k > 0 {
            r.append(sep);
        } else {
            assert(before.len() == 0);
        }
        r.append(parts[k].as_str());
        k = k + 1;
    }
    assert(parts@.subrange(0, parts.len() as int) =~= parts@);
    r
}

/// The error a rolled-back request fails with: the reason alone when
/// everything was put back, or the reason and what could not be, when the
/// native state is no longer known.
pub open spec fn rollback_error_is(e: PlatformError, reason: Seq<char>, errors: Seq<Seq<char>>) -> bool {
    if errors.len() == 0 {
        e matches PlatformError::Os { context, source_message } && context@ == "hotkey apply"@
            && source_message@ == reason
    } else {
        e matches PlatformError::HotkeyStateUnknown(m) && m@ == reason + "; rollback incomplete: "@
            + join(errors, "; "@)
    }
}

/// The error of a rolled-back request, from its reason and the failures of
/// the rollback itself.
pub fn rollback_error(reason: &str, errors: &Vec<String>) -> (r: PlatformError)
    ensures
        rollback_error_is(r, reason@, texts(errors@)),
{
    if errors.len() == 0 {
        PlatformError::os("hotkey apply", reason)
    } else {
        let mut m = reason.to_owned();
        m.append("; rollback incomplete: ");
        let joined = join_strings(errors, "; ");
        m.append(joined.as_str());
        PlatformError::HotkeyStateUnknown(m)
    }
}

/// `prefix`, the decimal `id`, `": "` and `message`.
fn id_message(prefix: &str, id: i32, message: &String) -> (r: String)
    ensures
        r@ == prefix@ + decimal(id as int) + ": "@ + message@,
{
    let mut s = prefix.to_owned();
    let digits = decimal_text(id);
    s.append(digits.as_str());
    s.append(": ");
    s.append(message.as_str());
    s
}

/// The registrations left after forgetting the id of each staged one, in
/// order.
pub open spec fn forget_all(regs: Seq<RegisteredBinding>, staged: Seq<RegisteredBinding>) -> Seq<
    RegisteredBinding,
>
    decreases staged.len(),
{
    if staged.len() == 0 {
        regs
    } else {
        without_id(forget_all(regs, staged.drop_last()), staged.last().id)
    }
}

/// Readmitting one registration: it comes back enabled unless its id is
/// held.
pub open spec fn readmitted(regs: Seq<RegisteredBinding>, b: RegisteredBinding) -> Seq<
    RegisteredBinding,
> {
    if id_in_use(regs, b.id as int) {
        regs
    } else {
        regs.push(RegisteredBinding { enabled: true, ..b })
    }
}

/// Readmitting registrations in order.
pub open spec fn readmit_all(regs: Seq<RegisteredBinding>, removed: Seq<RegisteredBinding>) -> Seq<
    RegisteredBinding,
>
    decreases removed.len(),
{
    if removed.len() == 0 {
        regs
    } else {
        readmitted(readmit_all(regs, removed.drop_last()), removed.last())
    }
}

/// A copy of a hook table.
fn copy_table(table: &Vec<HookBinding>) -> (r: Vec<HookBinding>)
    ensures
        r@ == table@,
{
    let mut r: Vec<HookBinding> = Vec::new();
    let mut k: usize = 0;
    while k < table.len()
        invariant
            k <= table.len(),
            r@ == table@.subrange(0, k as int),
        decreases table.len() - k,
    {
        r.push(table[k]);
        k = k + 1;
        assert(r@ =~= table@.subrange(0, k as int));
    }
    assert(table@.subrange(0, table.len() as int) =~= table@);
    r
}

/// The table the keyboard hook dispatches from for a report: the hook entry
/// of each intercepted binding, in order.
pub fn hook_table(statuses: &Vec<HotkeyBindingStatus>) -> (r: Vec<HookBinding>)
    ensures
        r@ == hooked(statuses@),
{
    let mut r: Vec<HookBinding> = Vec::new();
    let mut k: usize = 0;
    while k < statuses.len()
        invariant
            k <= statuses.len(),
            r@ == hooked(statuses@.subrange(0, k as int)),
        decreases statuses.len() - k,
    {
        proof {
            lemma_hooked_push(statuses@.subrange(0, k as int), statuses@[k as int]);
            assert(statuses@.subrange(0, k as int).push(statuses@[k as int]) =~= statuses@.subrange(
                0,
                k + 1,
            ));
        }
        if statuses[k].route == HotkeyRoute::Intercepted {
            r.push(to_hook_binding(statuses[k].binding));
        }
        k = k + 1;
    }
    assert(statuses@.subrange(0, statuses.len() as int) =~= statuses@);
    r
}

/// The hook entry a binding becomes.
pub open spec fn hook_of(b: HotkeyBinding) -> HookBinding {
    HookBinding {
        vk: vk_of(b.hotkey.key),
        extended: extended_of(b.hotkey.key),
        mods: b.hotkey.modifiers,
        action: b.action,
        repeat: b.repeat,
    }
}

/// The hook entries of the intercepted bindings of a report, in order.
pub open spec fn hooked(s: Seq<HotkeyBindingStatus>) -> Seq<HookBinding>
    decreases s.len(),
{
    if s.len() == 0 {
        Seq::empty()
    } else if s.last().route == HotkeyRoute::Intercepted {
        hooked(s.drop_last()).push(hook_of(s.last().binding))
    } else {
        hooked(s.drop_last())
    }
}

/// How the report describes one binding: a shortcut Windows reserves is
/// unavailable with its reason, an Enter key goes to the hook, and any other
/// is registered, intercepted because another application owns it, or
/// unavailable because registering failed.
pub open spec fn status_fits(b: HotkeyBinding, s: HotkeyBindingStatus) -> bool {
    &&& s.binding == b
    &&& match impossible_reason_spec(b.hotkey) {
        Some(reason) => s.route == HotkeyRoute::Unavailable && (s.reason matches Some(t) && t@
            == reason),
        None => if b.hotkey.key == KeyCode::Enter || b.hotkey.key == KeyCode::NumpadEnter {
            s.route == HotkeyRoute::Intercepted && (s.reason matches Some(t) && t@
                == "uses the hook to preserve Enter key identity"@)
        } else {
            ||| s.route == HotkeyRoute::Registered && s.reason is None
            ||| s.route == HotkeyRoute::Intercepted && (s.reason matches Some(t) && t@
                == "already owned by Windows or another application"@)
            ||| s.route == HotkeyRoute::Unavailable && (s.reason matches Some(t) && exists|
                m: Seq<char>,
            | t@ == "RegisterHotKey failed: "@ + m)
        },
    }
}

/// Every entry of the report describes its binding.
pub open spec fn report_fits(statuses: Seq<HotkeyBindingStatus>, bindings: Seq<HotkeyBinding>) -> bool {
    &&& statuses.len() == bindings.len()
    &&& forall|k: int| 0 <= k < bindings.len() ==> status_fits(bindings[k], #[trigger] statuses[k])
}

/// The errors an apply request can fail with: the native state is unknown,
/// or the request was rolled back.
pub open spec fn apply_error(e: PlatformError) -> bool {
    ||| e is HotkeyStateUnknown
    ||| e matches PlatformError::Os { context, .. } && context@ == "hotkey apply"@
}

/// What a failed removal of the obsolete hook leaves as a warning.
pub open spec fn unhook_warning(w: Seq<char>) -> bool {
    exists|m: Seq<char>|
        w == "shortcuts were updated, but the obsolete keyboard hook could not be removed: "@ + m
}

/// What an apply request answers: a report that fits the bindings, given
/// once the request committed, whose hook flag says whether the hook is
/// installed, which is so exactly when some binding is intercepted or the
/// obsolete hook could not be removed; or one of the apply errors.
pub open spec fn applied(
    r: Result<HotkeyApplyReport, PlatformError>,
    bindings: Seq<HotkeyBinding>,
    control: RequestState,
    hook: Option<u64>,
) -> bool {
    match r {
        Ok(report) => {
            &&& report_fits(report.bindings@, bindings)
            &&& control == RequestState::Committing
            &&& report.hook_installed == hook is Some
            &&& report.hook_installed == (hooked(report.bindings@).len() > 0 || report.warning is Some)
            &&& (report.warning matches Some(w) ==> unhook_warning(w@))
        },
        Err(e) => apply_error(e),
    }
}

/// Two bindings for the same shortcut, repeating alike.
pub open spec fn same_shortcut(a: HotkeyBinding, b: HotkeyBinding) -> bool {
    a.hotkey == b.hotkey && a.repeat == b.repeat
}

/// Whether the report lists `b` as registered.
pub open spec fn reported_registered(s: Seq<HotkeyBindingStatus>, b: HotkeyBinding) -> bool {
    exists|j: int| 0 <= j < s.len() && (#[trigger] s[j]).route == HotkeyRoute::Registered && s[j].binding == b
}

/// Each binding the report lists as registered has an enabled registration
/// for its shortcut, holding a binding the report lists as registered.
#[verifier::opaque]
pub open spec fn each_registered_held(regs: Seq<RegisteredBinding>, s: Seq<HotkeyBindingStatus>) -> bool {
    forall|k: int|
        0 <= k < s.len() && (#[trigger] s[k]).route == HotkeyRoute::Registered ==> exists|m: int|
            0 <= m < regs.len() && (#[trigger] regs[m]).enabled && same_shortcut(
                regs[m].binding,
                s[k].binding,
            ) && reported_registered(s, regs[m].binding)
}

/// Every registration is for the shortcut of a binding the report lists as
/// registered.
#[verifier::opaque]
pub open spec fn only_registered_held(regs: Seq<RegisteredBinding>, s: Seq<HotkeyBindingStatus>) -> bool {
    forall|m: int|
        0 <= m < regs.len() ==> exists|k: int|
            0 <= k < s.len() && (#[trigger] s[k]).route == HotkeyRoute::Registered && same_shortcut(
                (#[trigger] regs[m]).binding,
                s[k].binding,
            )
}

/// The registrations a committed request leaves serve its report: each
/// binding reported registered has an enabled registration for its shortcut,
/// holding a binding the report lists as registered, and every registration
/// is for the shortcut of a binding reported registered.
pub open spec fn registrations_serve(regs: Seq<RegisteredBinding>, s: Seq<HotkeyBindingStatus>) -> bool {
    each_registered_held(regs, s) && only_registered_held(regs, s)
}

/// No other entry of the report is for the shortcut of entry `k`.
pub open spec fn sole_shortcut(s: Seq<HotkeyBindingStatus>, k: int) -> bool {
    forall|j: int| 0 <= j < s.len() && j != k ==> !same_shortcut((#[trigger] s[j]).binding, s[k].binding)
}

/// With distinct ids, an enabled registration is the one found for its id.
proof fn lemma_find_enabled(regs: Seq<RegisteredBinding>, m: int)
    requires
        ids_unique(regs),
        0 <= m < regs.len(),
        regs[m].enabled,
    ensures
        find_enabled(regs, regs[m].id) == Some(regs[m]),
    decreases regs.len(),
{
    if m > 0 {
        assert(regs[0].id != regs[m].id);
        let t = regs.drop_first();
        assert(t[m - 1] == regs[m]);
        assert forall|a: int, b: int| 0 <= a < b < t.len() implies t[a].id != t[b].id by {
            assert(t[a] == regs[a + 1]);
            assert(t[b] == regs[b + 1]);
        };
        lemma_find_enabled(t, m - 1);
    }
}

/// A binding reported registered whose shortcut is its own in the report is
/// held by an enabled registration with exactly that binding, the one found
/// when its hotkey fires.
pub proof fn lemma_sole_registered_dispatches(regs: Seq<RegisteredBinding>, s: Seq<HotkeyBindingStatus>, k: int)
    requires
        ids_unique(regs),
        registrations_serve(regs, s),
        0 <= k < s.len(),
        s[k].route == HotkeyRoute::Registered,
        sole_shortcut(s, k),
    ensures
        exists|m: int|
            0 <= m < regs.len() && find_enabled(regs, regs[m].id) == Some(regs[m]) && (#[trigger] regs[m]).binding
                == s[k].binding,
{
    reveal(each_registered_held);
    assert(s[k].route == HotkeyRoute::Registered);
    let m = choose|m: int|
        0 <= m < regs.len() && (#[trigger] regs[m]).enabled && same_shortcut(regs[m].binding, s[k].binding)
            && reported_registered(s, regs[m].binding);
    let j = choose|j: int| 0 <= j < s.len() && (#[trigger] s[j]).route == HotkeyRoute::Registered && s[j].binding == regs[m].binding;
    if j != k {
        assert(!same_shortcut(s[j].binding, s[k].binding));
    }
    lemma_find_enabled(regs, m);
}

/// Some registration of `cs` is for the shortcut of `b` and holds a binding
/// the report lists as registered.
spec fn held_by(cs: Seq<RegisteredBinding>, s: Seq<HotkeyBindingStatus>, b: HotkeyBinding) -> bool {
    exists|m: int| 0 <= m < cs.len() && same_shortcut((#[trigger] cs[m]).binding, b) && reported_registered(s, cs[m].binding)
}

/// What routing the first bindings of a request has established: the kept
/// registrations keep their ids and shortcuts, every staged one holds a
/// binding reported registered, every binding reported registered is held by
/// a kept or staged registration, and a binding some kept registration can
/// serve was reported registered.
#[verifier::opaque]
spec fn routed(
    retained0: Seq<RegisteredBinding>,
    retained: Seq<RegisteredBinding>,
    staged: Seq<RegisteredBinding>,
    s: Seq<HotkeyBindingStatus>,
) -> bool {
    &&& retained.len() == retained0.len()
    &&& forall|j: int|
        0 <= j < retained.len() ==> (#[trigger] retained[j]).id == retained0[j].id && same_shortcut(
            retained[j].binding,
            retained0[j].binding,
        )
    &&& forall|q: int| 0 <= q < staged.len() ==> reported_registered(s, (#[trigger] staged[q]).binding)
    &&& forall|k: int|
        0 <= k < s.len() && (#[trigger] s[k]).route == HotkeyRoute::Registered ==> held_by(
            retained + staged,
            s,
            s[k].binding,
        )
    &&& forall|k: int, j: int|
        0 <= k < s.len() && 0 <= j < retained.len() && can_reuse_spec(
            (#[trigger] retained[j]).binding,
            (#[trigger] s[k]).binding,
        ) ==> s[k].route == HotkeyRoute::Registered
}

proof fn lemma_reported_push(s: Seq<HotkeyBindingStatus>, e: HotkeyBindingStatus)
    ensures
        forall|b: HotkeyBinding| #[trigger] reported_registered(s, b) ==> reported_registered(s.push(e), b),
        e.route == HotkeyRoute::Registered ==> reported_registered(s.push(e), e.binding),
{
    assert forall|b: HotkeyBinding| #[trigger] reported_registered(s, b) implies reported_registered(
        s.push(e),
        b,
    ) by {
        let j = choose|j: int| 0 <= j < s.len() && (#[trigger] s[j]).route == HotkeyRoute::Registered && s[j].binding == b;
        assert(s.push(e)[j] == s[j]);
    };
    if e.route == HotkeyRoute::Registered {
        assert(s.push(e)[s.len() as int] == e);
    }
}

/// Routing a binding no kept registration can serve, to anything but a
/// registration.
proof fn lemma_route_other(
    retained0: Seq<RegisteredBinding>,
    retained: Seq<RegisteredBinding>,
    staged: Seq<RegisteredBinding>,
    s: Seq<HotkeyBindingStatus>,
    e: HotkeyBindingStatus,
)
    requires
        routed(retained0, retained, staged, s),
        e.route != HotkeyRoute::Registered,
        forall|j: int| 0 <= j < retained.len() ==> !can_reuse_spec((#[trigger] retained[j]).binding, e.binding),
    ensures
        routed(retained0, retained, staged, s.push(e)),
{
    reveal(routed);
    lemma_reported_push(s, e);
    let t = s.push(e);
    let cs = retained + staged;
    assert forall|k: int| 0 <= k < t.len() && (#[trigger] t[k]).route == HotkeyRoute::Registered implies held_by(cs, t, t[k].binding) by {
        assert(t[k] == s[k]);
        assert(held_by(cs, s, s[k].binding));
        let m = choose|m: int| 0 <= m < cs.len() && same_shortcut((#[trigger] cs[m]).binding, s[k].binding) && reported_registered(s, cs[m].binding);
        assert(reported_registered(t, cs[m].binding));
    };
    assert forall|k: int, j: int|
        0 <= k < t.len() && 0 <= j < retained.len() && can_reuse_spec(
            (#[trigger] retained[j]).binding,
            (#[trigger] t[k]).binding,
        ) implies t[k].route == HotkeyRoute::Registered by {
        if k < s.len() {
            assert(t[k] == s[k]);
        }
    };
}

/// Routing a binding to the kept registration at `j`, which takes the
/// binding over.
proof fn lemma_route_reuse(
    retained0: Seq<RegisteredBinding>,
    retained: Seq<RegisteredBinding>,
    staged: Seq<RegisteredBinding>,
    s: Seq<HotkeyBindingStatus>,
    j: int,
    e: HotkeyBindingStatus,
)
    requires
        routed(retained0, retained, staged, s),
        0 <= j < retained.len(),
        can_reuse_spec(retained[j].binding, e.binding),
        e.route == HotkeyRoute::Registered,
    ensures
        routed(retained0, retained.update(j, RegisteredBinding { binding: e.binding, ..retained[j] }), staged, s.push(e)),
{
    reveal(routed);
    lemma_reported_push(s, e);
    let t = s.push(e);
    let r2 = retained.update(j, RegisteredBinding { binding: e.binding, ..retained[j] });
    let cs = retained + staged;
    let cs2 = r2 + staged;
    assert(cs2[j].binding == e.binding);
    assert forall|i: int| 0 <= i < r2.len() implies (#[trigger] r2[i]).id == retained0[i].id && same_shortcut(
        r2[i].binding,
        retained0[i].binding,
    ) by {
        assert(retained[i].id == retained0[i].id);
    };
    assert forall|q: int| 0 <= q < staged.len() implies reported_registered(t, (#[trigger] staged[q]).binding) by {
        assert(reported_registered(s, staged[q].binding));
    };
    assert forall|k: int| 0 <= k < t.len() && (#[trigger] t[k]).route == HotkeyRoute::Registered implies held_by(cs2, t, t[k].binding) by {
        if k == s.len() {
            assert(t[k] == e);
            assert(same_shortcut(cs2[j].binding, e.binding));
        } else {
            assert(t[k] == s[k]);
            assert(held_by(cs, s, s[k].binding));
            let m = choose|m: int| 0 <= m < cs.len() && same_shortcut((#[trigger] cs[m]).binding, s[k].binding) && reported_registered(s, cs[m].binding);
            if m == j {
                assert(cs[m] == retained[j]);
                assert(same_shortcut(cs2[j].binding, t[k].binding));
            } else {
                assert(cs2[m] == cs[m]);
                assert(reported_registered(t, cs[m].binding));
            }
        }
    };
    assert forall|k: int, i: int|
        0 <= k < t.len() && 0 <= i < r2.len() && can_reuse_spec(
            (#[trigger] r2[i]).binding,
            (#[trigger] t[k]).binding,
        ) implies t[k].route == HotkeyRoute::Registered by {
        if k < s.len() {
            assert(t[k] == s[k]);
            assert(can_reuse_spec(retained[i].binding, s[k].binding));
        }
    };
}

/// Routing a binding to a new registration, staged.
proof fn lemma_route_register(
    retained0: Seq<RegisteredBinding>,
    retained: Seq<RegisteredBinding>,
    staged: Seq<RegisteredBinding>,
    s: Seq<HotkeyBindingStatus>,
    reg: RegisteredBinding,
    e: HotkeyBindingStatus,
)
    requires
        routed(retained0, retained, staged, s),
        e.route == HotkeyRoute::Registered,
        reg.binding == e.binding,
    ensures
        routed(retained0, retained, staged.push(reg), s.push(e)),
{
    reveal(routed);
    lemma_reported_push(s, e);
    let t = s.push(e);
    let st2 = staged.push(reg);
    let cs = retained + staged;
    let cs2 = retained + st2;
    assert(cs2[cs.len() as int] == reg);
    assert forall|q: int| 0 <= q < st2.len() implies reported_registered(t, (#[trigger] st2[q]).binding) by {
        if q < staged.len() {
            assert(st2[q] == staged[q]);
            assert(reported_registered(s, staged[q].binding));
        }
    };
    assert forall|k: int| 0 <= k < t.len() && (#[trigger] t[k]).route == HotkeyRoute::Registered implies held_by(cs2, t, t[k].binding) by {
        if k == s.len() {
            assert(t[k] == e);
            assert(same_shortcut(cs2[cs.len() as int].binding, e.binding));
        } else {
            assert(t[k] == s[k]);
            assert(held_by(cs, s, s[k].binding));
            let m = choose|m: int| 0 <= m < cs.len() && same_shortcut((#[trigger] cs[m]).binding, s[k].binding) && reported_registered(s, cs[m].binding);
            assert(cs2[m] == cs[m]);
            assert(reported_registered(t, cs[m].binding));
        }
    };
    assert forall|k: int, j: int|
        0 <= k < t.len() && 0 <= j < retained.len() && can_reuse_spec(
            (#[trigger] retained[j]).binding,
            (#[trigger] t[k]).binding,
        ) implies t[k].route == HotkeyRoute::Registered by {
        if k < s.len() {
            assert(t[k] == s[k]);
        }
    };
}

/// Once a routed request commits, each binding reported registered has an
/// enabled registration for its shortcut.
proof fn lemma_commit_holds_reported(
    regs: Seq<RegisteredBinding>,
    retained: Seq<RegisteredBinding>,
    staged: Seq<RegisteredBinding>,
    s: Seq<HotkeyBindingStatus>,
)
    requires
        forall|k: int|
            0 <= k < s.len() && (#[trigger] s[k]).route == HotkeyRoute::Registered ==> held_by(
                retained + staged,
                s,
                s[k].binding,
            ),
        ids_unique(regs),
        ids_unique(retained + staged),
        forall|j: int| 0 <= j < retained.len() ==> id_in_use(regs, (#[trigger] retained[j]).id as int),
        forall|q: int| 0 <= q < staged.len() ==> regs.contains(#[trigger] staged[q]),
        covered(regs, retained, staged),
    ensures
        forall|k: int|
            0 <= k < s.len() && (#[trigger] s[k]).route == HotkeyRoute::Registered ==> exists|m: int|
                0 <= m < commit_all(regs, retained + staged).len() && (#[trigger] commit_all(
                    regs,
                    retained + staged,
                )[m]).enabled && same_shortcut(commit_all(regs, retained + staged)[m].binding, s[k].binding)
                    && reported_registered(s, commit_all(regs, retained + staged)[m].binding),
{
    let cs = retained + staged;
    let f = commit_all(regs, cs);
    lemma_commit_bindings(regs, cs);
    lemma_commit_covered(regs, retained, staged);
    assert forall|k: int| 0 <= k < s.len() && (#[trigger] s[k]).route == HotkeyRoute::Registered implies exists|m: int|
        0 <= m < f.len() && (#[trigger] f[m]).enabled && same_shortcut(f[m].binding, s[k].binding)
            && reported_registered(s, f[m].binding) by {
        assert(held_by(cs, s, s[k].binding));
        let c = choose|c: int| 0 <= c < cs.len() && same_shortcut((#[trigger] cs[c]).binding, s[k].binding) && reported_registered(s, cs[c].binding);
        let p: int = if c < retained.len() {
            assert(cs[c] == retained[c]);
            assert(id_in_use(regs, retained[c].id as int));
            choose|p: int| 0 <= p < regs.len() && regs[p].id == retained[c].id
        } else {
            let q = c - retained.len();
            assert(cs[c] == staged[q]);
            assert(regs.contains(staged[q]));
            choose|p: int| 0 <= p < regs.len() && regs[p] == staged[q]
        };
        assert(regs[p].id == cs[c].id);
        assert(f[p].binding == cs[c].binding);
        assert(f[p].enabled);
    };
}

/// Once a routed request commits, every registration is for the shortcut of
/// a binding reported registered.
proof fn lemma_commit_serves_only_reported(
    regs: Seq<RegisteredBinding>,
    retained0: Seq<RegisteredBinding>,
    retained: Seq<RegisteredBinding>,
    staged: Seq<RegisteredBinding>,
    s: Seq<HotkeyBindingStatus>,
    bindings: Seq<HotkeyBinding>,
)
    requires
        retained.len() == retained0.len(),
        forall|j: int|
            0 <= j < retained.len() ==> (#[trigger] retained[j]).id == retained0[j].id && same_shortcut(
                retained[j].binding,
                retained0[j].binding,
            ),
        forall|q: int| 0 <= q < staged.len() ==> reported_registered(s, (#[trigger] staged[q]).binding),
        forall|k: int, j: int|
            0 <= k < s.len() && 0 <= j < retained.len() && can_reuse_spec(
                (#[trigger] retained[j]).binding,
                (#[trigger] s[k]).binding,
            ) ==> s[k].route == HotkeyRoute::Registered,
        report_fits(s, bindings),
        forall|j: int| 0 <= j < retained0.len() ==> reusable_by(#[trigger] retained0[j], bindings),
        ids_unique(regs),
        ids_unique(retained + staged),
        covered(regs, retained, staged),
    ensures
        forall|m: int|
            0 <= m < commit_all(regs, retained + staged).len() ==> exists|k: int|
                0 <= k < s.len() && (#[trigger] s[k]).route == HotkeyRoute::Registered && same_shortcut(
                    (#[trigger] commit_all(regs, retained + staged)[m]).binding,
                    s[k].binding,
                ),
{
    let cs = retained + staged;
    let f = commit_all(regs, cs);
    lemma_commit_bindings(regs, cs);
    assert forall|m: int| 0 <= m < f.len() implies exists|k: int|
        0 <= k < s.len() && (#[trigger] s[k]).route == HotkeyRoute::Registered && same_shortcut(
            (#[trigger] f[m]).binding,
            s[k].binding,
        ) by {
        assert(regs.contains(regs[m]));
        if id_in_use(retained, regs[m].id as int) {
            let j = choose|j: int| 0 <= j < retained.len() && retained[j].id == regs[m].id;
            assert(cs[j] == retained[j]);
            assert(f[m].binding == retained[j].binding);
            assert(retained[j].id == retained0[j].id);
            assert(reusable_by(retained0[j], bindings));
            let k = choose|k: int| 0 <= k < bindings.len() && can_reuse_spec(retained0[j].binding, bindings[k]);
            assert(status_fits(bindings[k], s[k]));
            assert(can_reuse_spec(retained[j].binding, s[k].binding));
            assert(s[k].route == HotkeyRoute::Registered);
        } else {
            let q = choose|q: int| 0 <= q < staged.len() && staged[q].id == regs[m].id;
            assert(cs[retained.len() + q] == staged[q]);
            assert(f[m].binding == staged[q].binding);
            assert(reported_registered(s, staged[q].binding));
        }
    };
}

/// Once a routed request commits its kept and staged registrations, the
/// owner's registrations serve the report.
proof fn lemma_commit_serves(
    regs: Seq<RegisteredBinding>,
    retained0: Seq<RegisteredBinding>,
    retained: Seq<RegisteredBinding>,
    staged: Seq<RegisteredBinding>,
    s: Seq<HotkeyBindingStatus>,
    bindings: Seq<HotkeyBinding>,
)
    requires
        routed(retained0, retained, staged, s),
        report_fits(s, bindings),
        forall|j: int| 0 <= j < retained0.len() ==> reusable_by(#[trigger] retained0[j], bindings),
        ids_unique(regs),
        ids_unique(retained + staged),
        forall|j: int| 0 <= j < retained.len() ==> id_in_use(regs, (#[trigger] retained[j]).id as int),
        forall|q: int| 0 <= q < staged.len() ==> regs.contains(#[trigger] staged[q]),
        covered(regs, retained, staged),
    ensures
        registrations_serve(commit_all(regs, retained + staged), s),
{
    reveal(routed);
    reveal(each_registered_held);
    reveal(only_registered_held);
    lemma_commit_holds_reported(regs, retained, staged, s);
    lemma_commit_serves_only_reported(regs, retained0, retained, staged, s, bindings);
}

/// The registrations left after forgetting an id.
pub open spec fn without_id(regs: Seq<RegisteredBinding>, id: i32) -> Seq<RegisteredBinding> {
    regs.filter(|reg: RegisteredBinding| reg.id != id)
}

/// Forgetting an id keeps only registrations that were there, none with
/// that id, and no id that was free comes back.
proof fn lemma_forget_shrinks(regs: Seq<RegisteredBinding>, id: i32)
    ensures
        forall|x: RegisteredBinding| #[trigger] without_id(regs, id).contains(x) ==> regs.contains(x),
        !id_in_use(without_id(regs, id), id as int),
        forall|other: int| !id_in_use(regs, other) ==> !id_in_use(#[trigger] without_id(regs, id), other),
{
    let pred = |reg: RegisteredBinding| reg.id != id;
    let kept = regs.filter(pred);
    assert(kept == without_id(regs, id));
    assert forall|x: RegisteredBinding| #[trigger] kept.contains(x) implies regs.contains(x) by {
        regs.lemma_filter_contains_rev(pred, x);
    };
    if id_in_use(kept, id as int) {
        let i = choose|i: int| 0 <= i < kept.len() && kept[i].id == id;
        regs.lemma_filter_pred(pred, i);
    }
    assert forall|other: int| !id_in_use(regs, other) implies !id_in_use(kept, other) by {
        if id_in_use(kept, other) {
            let i = choose|i: int| 0 <= i < kept.len() && kept[i].id == other;
            assert(kept.contains(kept[i]));
            regs.lemma_filter_contains_rev(pred, kept[i]);
            let m = choose|m: int| 0 <= m < regs.len() && regs[m] == kept[i];
            assert(regs[m].id == other);
        }
    };
}

/// Every registration is served by a kept registration or a staged one,
/// by id.
pub open spec fn covered(
    regs: Seq<RegisteredBinding>,
    retained: Seq<RegisteredBinding>,
    staged: Seq<RegisteredBinding>,
) -> bool {
    forall|x: RegisteredBinding|
        #[trigger] regs.contains(x) ==> id_in_use(retained, x.id as int) || id_in_use(
            staged,
            x.id as int,
        )
}

proof fn lemma_cover_stage(
    regs: Seq<RegisteredBinding>,
    retained: Seq<RegisteredBinding>,
    staged: Seq<RegisteredBinding>,
    reg: RegisteredBinding,
)
    requires
        covered(regs, retained, staged),
    ensures
        covered(regs.push(reg), retained, staged.push(reg)),
{
    assert forall|x: RegisteredBinding| #[trigger] regs.push(reg).contains(x) implies id_in_use(
        retained,
        x.id as int,
    ) || id_in_use(staged.push(reg), x.id as int) by {
        let i = choose|i: int| 0 <= i < regs.push(reg).len() && regs.push(reg)[i] == x;
        if i < regs.len() {
            assert(regs[i] == x);
            assert(regs.contains(x));
            if id_in_use(staged, x.id as int) {
                let j = choose|j: int| 0 <= j < staged.len() && staged[j].id == x.id;
                assert(staged.push(reg)[j] == staged[j]);
            }
        } else {
            assert(staged.push(reg)[staged.len() as int] == reg);
        }
    };
}

proof fn lemma_cover_reuse(
    regs: Seq<RegisteredBinding>,
    retained: Seq<RegisteredBinding>,
    staged: Seq<RegisteredBinding>,
    j: int,
    v: RegisteredBinding,
)
    requires
        covered(regs, retained, staged),
        0 <= j < retained.len(),
        v.id == retained[j].id,
    ensures
        covered(regs, retained.update(j, v), staged),
{
    assert forall|x: RegisteredBinding| #[trigger] regs.contains(x) implies id_in_use(
        retained.update(j, v),
        x.id as int,
    ) || id_in_use(staged, x.id as int) by {
        if id_in_use(retained, x.id as int) {
            let i = choose|i: int| 0 <= i < retained.len() && retained[i].id == x.id;
            assert(retained.update(j, v)[i].id == x.id);
        }
    };
}

/// When every registration is served by some committed one, committing
/// enables them all.
proof fn lemma_commit_covered(
    regs: Seq<RegisteredBinding>,
    retained: Seq<RegisteredBinding>,
    staged: Seq<RegisteredBinding>,
)
    requires
        ids_unique(regs),
        covered(regs, retained, staged),
    ensures
        forall|k: int|
            0 <= k < commit_all(regs, retained + staged).len() ==> #[trigger] commit_all(
                regs,
                retained + staged,
            )[k].enabled,
{
    let cs = retained + staged;
    lemma_commit_enables(regs, cs);
    assert forall|k: int| 0 <= k < commit_all(regs, cs).len() implies #[trigger] commit_all(
        regs,
        cs,
    )[k].enabled by {
        assert(regs.contains(regs[k]));
        if id_in_use(retained, regs[k].id as int) {
            let j = choose|j: int| 0 <= j < retained.len() && retained[j].id == regs[k].id;
            assert(cs[j] == retained[j]);
        } else {
            let j = choose|j: int| 0 <= j < staged.len() && staged[j].id == regs[k].id;
            assert(cs[retained.len() + j] == staged[j]);
        }
    };
}

/// Forgetting an id keeps exactly the registrations with other ids.
proof fn lemma_without_id_contains(regs: Seq<RegisteredBinding>, id: i32)
    ensures
        forall|x: RegisteredBinding|
            #[trigger] without_id(regs, id).contains(x) <==> (regs.contains(x) && x.id != id),
{
    let pred = |reg: RegisteredBinding| reg.id != id;
    assert(without_id(regs, id) == regs.filter(pred));
    assert forall|x: RegisteredBinding| #[trigger] without_id(regs, id).contains(x) <==> (
    regs.contains(x) && x.id != id) by {
        if without_id(regs, id).contains(x) {
            regs.lemma_filter_contains_rev(pred, x);
            let i = choose|i: int| 0 <= i < regs.filter(pred).len() && regs.filter(pred)[i] == x;
            regs.lemma_filter_pred(pred, i);
        }
        if regs.contains(x) && x.id != id {
            let i = choose|i: int| 0 <= i < regs.len() && regs[i] == x;
            regs.lemma_filter_contains(pred, i);
        }
    };
}

/// Forgetting the ids of staged registrations keeps exactly those whose id
/// none of them has.
proof fn lemma_forget_all_contains(regs: Seq<RegisteredBinding>, staged: Seq<RegisteredBinding>)
    ensures
        forall|x: RegisteredBinding|
            #[trigger] forget_all(regs, staged).contains(x) <==> (regs.contains(x) && !id_in_use(
                staged,
                x.id as int,
            )),
    decreases staged.len(),
{
    if staged.len() > 0 {
        let init = staged.drop_last();
        lemma_forget_all_contains(regs, init);
        lemma_without_id_contains(forget_all(regs, init), staged.last().id);
        assert forall|x: RegisteredBinding| #[trigger] forget_all(regs, staged).contains(x) <==> (
        regs.contains(x) && !id_in_use(staged, x.id as int)) by {
            if id_in_use(init, x.id as int) {
                let j = choose|j: int| 0 <= j < init.len() && init[j].id == x.id;
                assert(staged[j] == init[j]);
            }
            if id_in_use(staged, x.id as int) && x.id != staged.last().id {
                let j = choose|j: int| 0 <= j < staged.len() && staged[j].id == x.id;
                assert(j < staged.len() - 1);
                assert(init[j] == staged[j]);
            }
            if x.id == staged.last().id {
                assert(staged[staged.len() - 1].id == x.id);
            }
        };
    }
}

/// Readmitting enabled registrations whose ids are free, any two with one id
/// being the same registration, adds exactly them.
proof fn lemma_readmit_all_contains(regs: Seq<RegisteredBinding>, removed: Seq<RegisteredBinding>)
    requires
        forall|k: int| 0 <= k < removed.len() ==> (#[trigger] removed[k]).enabled,
        forall|k: int| 0 <= k < removed.len() ==> !id_in_use(regs, (#[trigger] removed[k]).id as int),
        forall|k: int, l: int|
            0 <= k < removed.len() && 0 <= l < removed.len() && (#[trigger] removed[k]).id
                == (#[trigger] removed[l]).id ==> removed[k] == removed[l],
    ensures
        forall|x: RegisteredBinding|
            #[trigger] readmit_all(regs, removed).contains(x) <==> (regs.contains(x)
                || removed.contains(x)),
    decreases removed.len(),
{
    if removed.len() > 0 {
        let init = removed.drop_last();
        let last = removed.last();
        assert forall|k: int| 0 <= k < init.len() implies (#[trigger] init[k]).enabled && !id_in_use(
            regs,
            init[k].id as int,
        ) by {
            assert(init[k] == removed[k]);
        };
        assert forall|k: int, l: int|
            0 <= k < init.len() && 0 <= l < init.len() && (#[trigger] init[k]).id
                == (#[trigger] init[l]).id implies init[k] == init[l] by {
            assert(init[k] == removed[k]);
            assert(init[l] == removed[l]);
        };
        lemma_readmit_all_contains(regs, init);
        let ra = readmit_all(regs, init);
        assert(removed[removed.len() - 1] == last);
        assert(last.enabled);
        assert(RegisteredBinding { enabled: true, ..last } == last);
        if id_in_use(ra, last.id as int) {
            let i = choose|i: int| 0 <= i < ra.len() && ra[i].id == last.id;
            assert(ra.contains(ra[i]));
            if regs.contains(ra[i]) {
                let m = choose|m: int| 0 <= m < regs.len() && regs[m] == ra[i];
                assert(id_in_use(regs, last.id as int));
                assert(false);
            } else {
                let k = choose|k: int| 0 <= k < init.len() && init[k] == ra[i];
                assert(removed[k] == init[k]);
                assert(removed[k] == last);
            }
        }
        assert forall|x: RegisteredBinding| #[trigger] readmit_all(regs, removed).contains(x) <==> (
        regs.contains(x) || removed.contains(x)) by {
            if init.contains(x) {
                let k = choose|k: int| 0 <= k < init.len() && init[k] == x;
                assert(removed[k] == x);
            }
            if removed.contains(x) && x != last {
                let k = choose|k: int| 0 <= k < removed.len() && removed[k] == x;
                assert(k < removed.len() - 1);
                assert(init[k] == x);
            }
            if readmit_all(regs, removed).contains(x) && !id_in_use(ra, last.id as int) {
                let i = choose|i: int|
                    0 <= i < ra.push(last).len() && ra.push(last)[i] == x;
                if i < ra.len() {
                    assert(ra[i] == x);
                    assert(ra.contains(x));
                }
            }
            if !id_in_use(ra, last.id as int) && (ra.contains(x) || x == last) {
                if x == last {
                    assert(ra.push(last)[ra.len() as int] == x);
                } else {
                    let i = choose|i: int| 0 <= i < ra.len() && ra[i] == x;
                    assert(ra.push(last)[i] == x);
                }
            }
        };
    }
}

/// The owner as a request found it: exactly the registrations that were
/// enabled then, the same hook, and the same table published to it.
pub open spec fn restored(
    before: Seq<RegisteredBinding>,
    hook_before: Option<u64>,
    table_before: Seq<HookBinding>,
    after: Seq<RegisteredBinding>,
    hook_after: Option<u64>,
    table_after: Seq<HookBinding>,
) -> bool {
    &&& hook_after == hook_before
    &&& table_after == table_before
    &&& forall|x: RegisteredBinding|
        #[trigger] after.contains(x) <==> (before.contains(x) && x.enabled)
}

/// Two registrations held under one id are the same one.
proof fn lemma_same_id_same(regs: Seq<RegisteredBinding>, x: RegisteredBinding, y: RegisteredBinding)
    requires
        ids_unique(regs),
        regs.contains(x),
        regs.contains(y),
        x.id == y.id,
    ensures
        x == y,
{
    let i = choose|i: int| 0 <= i < regs.len() && regs[i] == x;
    let j = choose|j: int| 0 <= j < regs.len() && regs[j] == y;
    if i < j {
        assert(regs[i].id != regs[j].id);
    } else if j < i {
        assert(regs[j].id != regs[i].id);
    }
}

/// A rollback that put everything back leaves exactly the registrations
/// that were enabled when the request began: the staged ones are gone and
/// the removed ones are back.
proof fn lemma_clean_rollback_restores(
    entry: Seq<RegisteredBinding>,
    cleaned: Seq<RegisteredBinding>,
    regs: Seq<RegisteredBinding>,
    staged: Seq<RegisteredBinding>,
    removed: Seq<RegisteredBinding>,
)
    requires
        forall|x: RegisteredBinding|
            #[trigger] cleaned.contains(x) <==> (entry.contains(x) && x.enabled),
        ids_unique(cleaned),
        ids_unique(regs),
        forall|x: RegisteredBinding|
            #[trigger] regs.contains(x) <==> ((cleaned.contains(x) && !id_in_use(
                removed,
                x.id as int,
            )) || staged.contains(x)),
        forall|k: int| 0 <= k < removed.len() ==> cleaned.contains(#[trigger] removed[k]),
        forall|k: int| 0 <= k < staged.len() ==> !(#[trigger] staged[k]).enabled,
    ensures
        forall|x: RegisteredBinding|
            #[trigger] readmit_all(forget_all(regs, staged), removed).contains(x) <==> (entry.contains(
                x,
            ) && x.enabled),
{
    lemma_forget_all_contains(regs, staged);
    let f = forget_all(regs, staged);
    assert forall|x: RegisteredBinding| #[trigger] f.contains(x) <==> (cleaned.contains(x)
        && !id_in_use(removed, x.id as int)) by {
        if f.contains(x) {
            if staged.contains(x) {
                let k = choose|k: int| 0 <= k < staged.len() && staged[k] == x;
                assert(id_in_use(staged, x.id as int));
            }
        }
        if cleaned.contains(x) && !id_in_use(removed, x.id as int) {
            assert(regs.contains(x));
            if id_in_use(staged, x.id as int) {
                let k = choose|k: int| 0 <= k < staged.len() && staged[k].id == x.id;
                assert(staged.contains(staged[k]));
                assert(regs.contains(staged[k]));
                lemma_same_id_same(regs, x, staged[k]);
                assert(entry.contains(x) && x.enabled);
            }
        }
    };
    assert forall|k: int| 0 <= k < removed.len() implies (#[trigger] removed[k]).enabled
        && !id_in_use(f, removed[k].id as int) by {
        assert(cleaned.contains(removed[k]));
        if id_in_use(f, removed[k].id as int) {
            let i = choose|i: int| 0 <= i < f.len() && f[i].id == removed[k].id;
            assert(f.contains(f[i]));
            assert(id_in_use(removed, f[i].id as int));
        }
    };
    assert forall|k: int, l: int|
        0 <= k < removed.len() && 0 <= l < removed.len() && (#[trigger] removed[k]).id
            == (#[trigger] removed[l]).id implies removed[k] == removed[l] by {
        lemma_same_id_same(cleaned, removed[k], removed[l]);
    };
    lemma_readmit_all_contains(f, removed);
    assert forall|x: RegisteredBinding| #[trigger] readmit_all(f, removed).contains(x) <==> (
    entry.contains(x) && x.enabled) by {
        if removed.contains(x) {
            let k = choose|k: int| 0 <= k < removed.len() && removed[k] == x;
            assert(cleaned.contains(removed[k]));
        }
        if cleaned.contains(x) && id_in_use(removed, x.id as int) {
            let k = choose|k: int| 0 <= k < removed.len() && removed[k].id == x.id;
            assert(cleaned.contains(removed[k]));
            lemma_same_id_same(cleaned, x, removed[k]);
            assert(removed.contains(x));
        }
    };
}

/// Keeping some registrations keeps their ids distinct.
proof fn lemma_filter_ids_unique(regs: Seq<RegisteredBinding>, pred: spec_fn(RegisteredBinding) -> bool)
    requires
        ids_unique(regs),
    ensures
        ids_unique(regs.filter(pred)),
    decreases regs.len(),
{
    reveal_with_fuel(Seq::<_>::filter, 1);
    if regs.len() > 0 {
        let init = regs.drop_last();
        assert(ids_unique(init));
        lemma_filter_ids_unique(init, pred);
        let sub = init.filter(pred);
        assert forall|k: int| 0 <= k < sub.len() implies #[trigger] sub[k].id != regs.last().id by {
            assert(sub.contains(sub[k]));
            init.lemma_filter_contains_rev(pred, sub[k]);
            let m = choose|m: int| 0 <= m < init.len() && init[m] == sub[k];
            assert(regs[m] == init[m]);
        };
    }
}

/// Staging a registration keeps the owner's registrations exactly the kept
/// ones and the staged ones.
proof fn lemma_stage_membership(
    cleaned: Seq<RegisteredBinding>,
    removed: Seq<RegisteredBinding>,
    regs: Seq<RegisteredBinding>,
    staged: Seq<RegisteredBinding>,
    reg: RegisteredBinding,
)
    requires
        forall|x: RegisteredBinding|
            #[trigger] regs.contains(x) <==> ((cleaned.contains(x) && !id_in_use(removed, x.id as int))
                || staged.contains(x)),
    ensures
        forall|x: RegisteredBinding|
            #[trigger] regs.push(reg).contains(x) <==> ((cleaned.contains(x) && !id_in_use(
                removed,
                x.id as int,
            )) || staged.push(reg).contains(x)),
{
    assert forall|x: RegisteredBinding| #[trigger] regs.push(reg).contains(x) <==> ((cleaned.contains(x)
        && !id_in_use(removed, x.id as int)) || staged.push(reg).contains(x)) by {
        if regs.push(reg).contains(x) {
            let j = choose|j: int| 0 <= j < regs.push(reg).len() && regs.push(reg)[j] == x;
            if j < regs.len() {
                assert(regs[j] == x);
                assert(regs.contains(x));
                if staged.contains(x) {
                    let q = choose|q: int| 0 <= q < staged.len() && staged[q] == x;
                    assert(staged.push(reg)[q] == x);
                }
            } else {
                assert(staged.push(reg)[staged.len() as int] == x);
            }
        }
        if staged.push(reg).contains(x) {
            let q = choose|q: int| 0 <= q < staged.push(reg).len() && staged.push(reg)[q] == x;
            if q < staged.len() {
                assert(staged[q] == x);
                assert(staged.contains(x));
                assert(regs.contains(x));
                let j = choose|j: int| 0 <= j < regs.len() && regs[j] == x;
                assert(regs.push(reg)[j] == x);
            } else {
                assert(regs.push(reg)[regs.len() as int] == x);
            }
        }
        if cleaned.contains(x) && !id_in_use(removed, x.id as int) {
            assert(regs.contains(x));
            let j = choose|j: int| 0 <= j < regs.len() && regs[j] == x;
            assert(regs.push(reg)[j] == x);
        }
    };
}

/// Registrations with the same ids, in place, as ones with distinct ids
/// have distinct ids.
proof fn lemma_ids_unique_same_ids(a: Seq<RegisteredBinding>, b: Seq<RegisteredBinding>)
    requires
        ids_unique(a),
        a.len() == b.len(),
        forall|i: int| 0 <= i < a.len() ==> (#[trigger] a[i]).id == b[i].id,
    ensures
        ids_unique(b),
{
    assert forall|x: int, y: int| 0 <= x < y < b.len() implies b[x].id != b[y].id by {
        assert(a[x].id == b[x].id);
        assert(a[y].id == b[y].id);
    };
}

/// Adding a registration with an id none has keeps ids distinct.
proof fn lemma_ids_unique_push(cs: Seq<RegisteredBinding>, reg: RegisteredBinding)
    requires
        ids_unique(cs),
        forall|i: int| 0 <= i < cs.len() ==> (#[trigger] cs[i]).id != reg.id,
    ensures
        ids_unique(cs.push(reg)),
{
    assert forall|a: int, b: int| 0 <= a < b < cs.push(reg).len() implies cs.push(reg)[a].id != cs.push(reg)[b].id by {
        assert(cs.push(reg)[a] == cs[a]);
        if b < cs.len() {
            assert(cs.push(reg)[b] == cs[b]);
        }
    };
}

proof fn lemma_hooked_push(s: Seq<HotkeyBindingStatus>, e: HotkeyBindingStatus)
    ensures
        hooked(s.push(e)) == (if e.route == HotkeyRoute::Intercepted {
            hooked(s).push(hook_of(e.binding))
        } else {
            hooked(s)
        }),
{
    assert(s.push(e).drop_last() =~= s);
}

proof fn lemma_fits_push(
    statuses: Seq<HotkeyBindingStatus>,
    bindings: Seq<HotkeyBinding>,
    i: int,
    e: HotkeyBindingStatus,
)
    requires
        0 <= i < bindings.len(),
        statuses.len() == i,
        forall|k: int| 0 <= k < i ==> status_fits(bindings[k], #[trigger] statuses[k]),
        status_fits(bindings[i], e),
    ensures
        statuses.push(e).len() == i + 1,
        forall|k: int| 0 <= k < i + 1 ==> status_fits(bindings[k], #[trigger] statuses.push(e)[k]),
{
    assert forall|k: int| 0 <= k < i + 1 implies status_fits(
        bindings[k],
        #[trigger] statuses.push(e)[k],
    ) by {
        if k < i {
            assert(statuses.push(e)[k] == statuses[k]);
        }
    }
}

impl OwnerState {
    /// Releases the registrations an earlier request left disabled; the
    /// first that Windows will not release ends the request.
    fn cleanup_disabled_registrations<N: NativeHotkeys>(&mut self, native: &mut N) -> (r: Result<
        (),
        PlatformError,
    >)
        requires
            ids_unique(old(self).registered@),
        ensures
            ids_unique(final(self).registered@),
            final(self).registered.len() <= old(self).registered.len(),
            final(self).next_id == old(self).next_id,
            final(self).hook == old(self).hook,
            final(self).hook_table == old(self).hook_table,
            r matches Err(e) ==> e is HotkeyStateUnknown,
            r is Ok ==> forall|k: int|
                0 <= k < final(self).registered.len() ==> #[trigger] final(self).registered@[k].enabled,
            r is Ok ==> forall|x: RegisteredBinding|
                #[trigger] final(self).registered@.contains(x) <==> (old(self).registered@.contains(x)
                    && x.enabled),
    {
        let disabled = self.with_enabled(false);
        let mut k: usize = 0;
        while k < disabled.len()
            invariant
                k <= disabled.len(),
                ids_unique(self.registered@),
                self.registered.len() <= old(self).registered.len(),
                self.next_id == old(self).next_id,
                self.hook == old(self).hook,
                self.hook_table == old(self).hook_table,
                disabled@ == old(self).registered@.filter(
                    |reg: RegisteredBinding| reg.enabled == false,
                ),
                forall|x: RegisteredBinding|
                    #[trigger] self.registered@.contains(x) ==> old(self).registered@.contains(x),
                forall|j: int| 0 <= j < k ==> !id_in_use(self.registered@, #[trigger] disabled@[j].id as int),
                ids_unique(old(self).registered@),
                forall|x: RegisteredBinding|
                    #[trigger] old(self).registered@.contains(x) && x.enabled ==> self.registered@.contains(x),
            decreases disabled.len() - k,
        {
            let b = disabled[k];
            match native.unregister(b.id) {
                Err(e) => {
                    let m = id_message("could not clean residual hotkey ", b.id, &e.message);
                    return Err(PlatformError::HotkeyStateUnknown(m));
                },
                Ok(()) => {
                    proof {
                        lemma_registration_ids_stay_unique(self.registered@, b, seq![], b.id, b);
                        self.registered@.lemma_filter_len(|reg: RegisteredBinding| reg.id != b.id);
                        lemma_forget_shrinks(self.registered@, b.id);
                        assert(without_id(self.registered@, b.id) == self.registered@.filter(
                            |reg: RegisteredBinding| reg.id != b.id,
                        ));
                        lemma_without_id_contains(self.registered@, b.id);
                        let olds = old(self).registered@;
                        assert(disabled@.contains(b));
                        olds.lemma_filter_contains_rev(
                            |reg: RegisteredBinding| reg.enabled == false,
                            b,
                        );
                        let i = choose|i: int| 0 <= i < disabled@.len() && disabled@[i] == b;
                        olds.lemma_filter_pred(|reg: RegisteredBinding| reg.enabled == false, i);
                        assert forall|x: RegisteredBinding|
                            #[trigger] olds.contains(x) && x.enabled implies x.id != b.id by {
                            if x.id == b.id {
                                lemma_same_id_same(olds, x, b);
                            }
                        };
                    }
                    self.forget(b.id);
                },
            }
            k = k + 1;
        }
        proof {
            let old_regs = old(self).registered@;
            let pred = |reg: RegisteredBinding| reg.enabled == false;
            assert forall|k: int| 0 <= k < self.registered.len() implies #[trigger] self.registered@[
                k
            ].enabled by {
                let x = self.registered@[k];
                assert(self.registered@.contains(x));
                if !x.enabled {
                    let m = choose|m: int| 0 <= m < old_regs.len() && old_regs[m] == x;
                    old_regs.lemma_filter_contains(pred, m);
                    let j = choose|j: int| 0 <= j < disabled@.len() && disabled@[j] == x;
                    assert(!id_in_use(self.registered@, disabled@[j].id as int));
                }
            };
            assert forall|x: RegisteredBinding| #[trigger] self.registered@.contains(x) <==> (
            old_regs.contains(x) && x.enabled) by {
                if self.registered@.contains(x) {
                    let i = choose|i: int| 0 <= i < self.registered.len() && self.registered@[i] == x;
                    assert(self.registered@[i].enabled);
                }
            };
        }
        Ok(())
    }

    /// Publishes `table` to the keyboard hook; once Windows accepts it, it is
    /// the table the hook dispatches from.
    pub fn publish_hook_table<N: NativeHotkeys>(&mut self, native: &mut N, table: Vec<HookBinding>) -> (r:
        Result<(), PlatformError>)
        ensures
            final(self).registered == old(self).registered,
            final(self).next_id == old(self).next_id,
            final(self).hook == old(self).hook,
            r is Ok ==> final(self).hook_table@ == table@,
            r is Err ==> final(self).hook_table == old(self).hook_table,
    {
        let copy = copy_table(&table);
        match native.set_hook_bindings(copy) {
            Ok(()) => {
                self.hook_table = table;
                Ok(())
            },
            Err(e) => Err(e),
        }
    }

    /// Routes one binding of an apply request, given the registrations it
    /// keeps and those it has staged: a reserved shortcut is unavailable, an
    /// Enter key goes to the hook, a kept registration that can serve the
    /// binding takes it over, and anything else is registered under a fresh
    /// id and staged, or reported as Windows answered.
    fn route_binding<N: NativeHotkeys>(
        &mut self,
        native: &mut N,
        b: HotkeyBinding,
        retained: &mut Vec<RegisteredBinding>,
        staged: &mut Vec<RegisteredBinding>,
        statuses: &Vec<HotkeyBindingStatus>,
        Ghost(retained0): Ghost<Seq<RegisteredBinding>>,
    ) -> (e: HotkeyBindingStatus)
        requires
            ids_unique(old(self).registered@),
            1 <= old(self).next_id <= MAX_HOTKEY_ID,
            old(self).registered.len() < MAX_HOTKEY_ID,
            routed(retained0, old(retained)@, old(staged)@, statuses@),
            ids_unique(old(retained)@ + old(staged)@),
            forall|j: int|
                0 <= j < old(retained).len() ==> id_in_use(
                    old(self).registered@,
                    (#[trigger] old(retained)@[j]).id as int,
                ),
            forall|q: int| 0 <= q < old(staged).len() ==> old(self).registered@.contains(#[trigger] old(staged)@[q]),
            covered(old(self).registered@, old(retained)@, old(staged)@),
        ensures
            status_fits(b, e),
            ids_unique(final(self).registered@),
            1 <= final(self).next_id <= MAX_HOTKEY_ID,
            final(self).hook == old(self).hook,
            final(self).hook_table == old(self).hook_table,
            final(self).registered.len() <= old(self).registered.len() + 1,
            routed(retained0, final(retained)@, final(staged)@, statuses@.push(e)),
            ids_unique(final(retained)@ + final(staged)@),
            forall|j: int|
                0 <= j < final(retained).len() ==> id_in_use(
                    final(self).registered@,
                    (#[trigger] final(retained)@[j]).id as int,
                ),
            forall|q: int| 0 <= q < final(staged).len() ==> final(self).registered@.contains(#[trigger] final(staged)@[q]),
            covered(final(self).registered@, final(retained)@, final(staged)@),
            (final(self).registered@ == old(self).registered@ && final(staged)@ == old(staged)@) || exists|
                reg: RegisteredBinding,
            |
                !reg.enabled && final(self).registered@ == old(self).registered@.push(reg) && final(staged)@
                    == old(staged)@.push(reg),
    {
        let e = match decide_route(b, retained.as_slice()) {
            RouteDecision::Unavailable(reason) => {
                let e = unavailable(b, reason);
                proof {
                    lemma_route_other(retained0, retained@, staged@, statuses@, e);
                }
                e
            },
            RouteDecision::Hook => {
                let e = hook_status(b);
                proof {
                    lemma_route_other(retained0, retained@, staged@, statuses@, e);
                }
                e
            },
            RouteDecision::Reuse(j) => {
                let kept = retained[j];
                let ghost retained_before = retained@;
                proof {
                    lemma_cover_reuse(
                        self.registered@,
                        retained@,
                        staged@,
                        j as int,
                        RegisteredBinding { binding: b, ..kept },
                    );
                }
                retained.set(j, RegisteredBinding { binding: b, ..kept });
                let e = registration_status(b, RegisterOutcome::Registered);
                proof {
                    lemma_route_reuse(retained0, retained_before, staged@, statuses@, j as int, e);
                    assert(retained@ == retained_before.update(
                        j as int,
                        RegisteredBinding { binding: e.binding, ..retained_before[j as int] },
                    ));
                    lemma_ids_unique_same_ids(retained_before + staged@, retained@ + staged@);
                    assert forall|q: int| 0 <= q < retained.len() implies id_in_use(
                        self.registered@,
                        (#[trigger] retained@[q]).id as int,
                    ) by {
                        assert(retained@[q].id == retained_before[q].id);
                    };
                }
                e
            },
            RouteDecision::Register => {
                let id = self.allocate_id();
                match native.register(id, b) {
                    Ok(()) => {
                        proof {
                            lemma_registration_ids_stay_unique(
                                self.registered@,
                                RegisteredBinding { id, binding: b, enabled: false },
                                seq![],
                                id,
                                RegisteredBinding { id, binding: b, enabled: false },
                            );
                        }
                        proof {
                            lemma_cover_stage(
                                self.registered@,
                                retained@,
                                staged@,
                                RegisteredBinding { id, binding: b, enabled: false },
                            );
                        }
                        let ghost regs_before = self.registered@;
                        let ghost staged_before = staged@;
                        proof {
                            let cs = retained@ + staged@;
                            assert forall|q: int| 0 <= q < cs.len() implies (#[trigger] cs[q]).id != id by {
                                if q < retained.len() {
                                    assert(cs[q] == retained@[q]);
                                    assert(id_in_use(regs_before, retained@[q].id as int));
                                } else {
                                    assert(cs[q] == staged@[q - retained.len()]);
                                    assert(staged@.contains(staged@[q - retained.len()]));
                                    assert(regs_before.contains(cs[q]));
                                }
                            };
                            lemma_ids_unique_push(cs, RegisteredBinding { id, binding: b, enabled: false });
                            assert(cs.push(RegisteredBinding { id, binding: b, enabled: false }) =~= retained@
                                + staged@.push(RegisteredBinding { id, binding: b, enabled: false }));
                        }
                        let reg = self.stage(id, b);
                        staged.push(reg);
                        proof {
                            assert forall|q: int| 0 <= q < retained.len() implies id_in_use(
                                self.registered@,
                                (#[trigger] retained@[q]).id as int,
                            ) by {
                                let p = choose|p: int| 0 <= p < regs_before.len() && regs_before[p].id == retained@[q].id;
                                assert(self.registered@[p] == regs_before[p]);
                            };
                            assert forall|q: int| 0 <= q < staged.len() implies self.registered@.contains(
                                #[trigger] staged@[q],
                            ) by {
                                if q < staged_before.len() {
                                    assert(staged@[q] == staged_before[q]);
                                    assert(regs_before.contains(staged_before[q]));
                                    let p = choose|p: int| 0 <= p < regs_before.len() && regs_before[p] == staged_before[q];
                                    assert(self.registered@[p] == regs_before[p]);
                                } else {
                                    assert(self.registered@[regs_before.len() as int] == reg);
                                }
                            };
                        }
                        let e = registration_status(b, RegisterOutcome::Registered);
                        proof {
                            lemma_route_register(retained0, retained@, staged_before, statuses@, reg, e);
                        }
                        e
                    },
                    Err(err) => {
                        let e = if is_already_registered(err.code) {
                            registration_status(b, RegisterOutcome::AlreadyRegistered)
                        } else {
                            registration_status(b, RegisterOutcome::Failed(err.message))
                        };
                        proof {
                            lemma_route_other(retained0, retained@, staged@, statuses@, e);
                        }
                        e
                    },
                }
            },
        };
        e
    }

    /// Commits a routed request: the kept registrations, then the staged
    /// ones, each enabled under its id with the binding it now serves.
    fn commit_request(
        &mut self,
        retained: &Vec<RegisteredBinding>,
        staged: &Vec<RegisteredBinding>,
        statuses: &Vec<HotkeyBindingStatus>,
        bindings: &[HotkeyBinding],
        Ghost(retained0): Ghost<Seq<RegisteredBinding>>,
    )
        requires
            routed(retained0, retained@, staged@, statuses@),
            report_fits(statuses@, bindings@),
            forall|j: int| 0 <= j < retained0.len() ==> reusable_by(#[trigger] retained0[j], bindings@),
            ids_unique(old(self).registered@),
            ids_unique(retained@ + staged@),
            forall|j: int| 0 <= j < retained.len() ==> id_in_use(old(self).registered@, (#[trigger] retained@[j]).id as int),
            forall|q: int| 0 <= q < staged.len() ==> old(self).registered@.contains(#[trigger] staged@[q]),
            covered(old(self).registered@, retained@, staged@),
        ensures
            final(self).registered@ == commit_all(old(self).registered@, retained@ + staged@),
            ids_unique(final(self).registered@),
            forall|k: int|
                0 <= k < final(self).registered.len() ==> #[trigger] final(self).registered@[k].enabled,
            registrations_serve(final(self).registered@, statuses@),
            final(self).next_id == old(self).next_id,
            final(self).hook == old(self).hook,
            final(self).hook_table == old(self).hook_table,
    {
        let mut committed: Vec<RegisteredBinding> = Vec::new();
        let mut k: usize = 0;
        while k < retained.len()
            invariant
                k <= retained.len(),
                committed@ == retained@.subrange(0, k as int),
            decreases retained.len() - k,
        {
            committed.push(retained[k]);
            k = k + 1;
            assert(committed@ =~= retained@.subrange(0, k as int));
        }
        let mut k: usize = 0;
        while k < staged.len()
            invariant
                k <= staged.len(),
                retained@.subrange(0, retained.len() as int) == retained@,
                committed@ == retained@ + staged@.subrange(0, k as int),
            decreases staged.len() - k,
        {
            committed.push(staged[k]);
            k = k + 1;
            assert(committed@ =~= retained@ + staged@.subrange(0, k as int));
        }
        assert(staged@.subrange(0, staged.len() as int) =~= staged@);
        proof {
            let any = vstd::pervasive::arbitrary::<RegisteredBinding>();
            lemma_registration_ids_stay_unique(self.registered@, any, committed@, 0, any);
            lemma_commit_covered(self.registered@, retained@, staged@);
        }
        proof {
            assert(registrations_serve(commit_all(self.registered@, committed@), statuses@)) by {
                lemma_commit_serves(self.registered@, retained0, retained@, staged@, statuses@, bindings@);
            }
        }
        self.commit(committed.as_slice());
    }

    /// Puts back what a failed request changed: removes the hook it
    /// installed, releases the registrations it staged, registers again the
    /// ones it removed, and restores the hook's bindings. The error names the
    /// reason, and what could not be put back.
    fn rollback_apply<N: NativeHotkeys>(
        &mut self,
        native: &mut N,
        staged: &Vec<RegisteredBinding>,
        removed: &Vec<RegisteredBinding>,
        old_hook_bindings: Vec<HookBinding>,
        provisional_hook: bool,
        reason: &str,
    ) -> (r: PlatformError)
        requires
            ids_unique(old(self).registered@),
        ensures
            ids_unique(final(self).registered@),
            final(self).next_id == old(self).next_id,
            !provisional_hook ==> final(self).hook == old(self).hook,
            exists|errors: Seq<Seq<char>>| rollback_error_is(r, reason@, errors),
            r is Os ==> {
                &&& final(self).registered@ == readmit_all(
                    forget_all(old(self).registered@, staged@),
                    removed@,
                )
                &&& provisional_hook ==> final(self).hook is None
                &&& final(self).hook_table@ == old_hook_bindings@
            },
    {
        let mut errors: Vec<String> = Vec::new();
        if provisional_hook {
            match self.hook {
                Some(h) => match native.unhook(h) {
                    Ok(()) => {
                        self.hook = None;
                    },
                    Err(e) => {
                        let mut m = "remove provisional keyboard hook: ".to_owned();
                        m.append(e.message.as_str());
                        errors.push(m);
                    },
                },
                None => {},
            }
        }
        let ghost hook_after = self.hook;
        let ghost start = self.registered@;
        let mut k: usize = 0;
        while k < staged.len()
            invariant
                k <= staged.len(),
                ids_unique(self.registered@),
                self.next_id == old(self).next_id,
                self.hook == hook_after,
                start == old(self).registered@,
                errors@.len() == 0 ==> self.registered@ == forget_all(
                    start,
                    staged@.subrange(0, k as int),
                ),
                errors@.len() == 0 && provisional_hook ==> self.hook is None,
            decreases staged.len() - k,
        {
            let b = staged[k];
            proof {
                assert(staged@.subrange(0, k + 1).drop_last() =~= staged@.subrange(0, k as int));
                assert(staged@.subrange(0, k + 1).last() == b);
            }
            match native.unregister(b.id) {
                Ok(()) => {
                    proof {
                        lemma_registration_ids_stay_unique(self.registered@, b, seq![], b.id, b);
                        assert(without_id(self.registered@, b.id) == self.registered@.filter(
                            |reg: RegisteredBinding| reg.id != b.id,
                        ));
                    }
                    self.forget(b.id);
                },
                Err(e) => {
                    errors.push(id_message("unregister staged ", b.id, &e.message));
                },
            }
            k = k + 1;
        }
        let ghost forgotten = forget_all(start, staged@);
        proof {
            assert(staged@.subrange(0, staged.len() as int) =~= staged@);
        }
        let mut k: usize = 0;
        while k < removed.len()
            invariant
                k <= removed.len(),
                ids_unique(self.registered@),
                self.next_id == old(self).next_id,
                self.hook == hook_after,
                forgotten == forget_all(old(self).registered@, staged@),
                errors@.len() == 0 ==> self.registered@ == readmit_all(
                    forgotten,
                    removed@.subrange(0, k as int),
                ),
                errors@.len() == 0 && provisional_hook ==> self.hook is None,
            decreases removed.len() - k,
        {
            let b = removed[k];
            proof {
                assert(removed@.subrange(0, k + 1).drop_last() =~= removed@.subrange(0, k as int));
                assert(removed@.subrange(0, k + 1).last() == b);
            }
            match native.register(b.id, b.binding) {
                Ok(()) => {
                    proof {
                        lemma_registration_ids_stay_unique(self.registered@, b, seq![], b.id, b);
                    }
                    self.readmit(b);
                },
                Err(e) => {
                    errors.push(id_message("restore ", b.id, &e.message));
                },
            }
            k = k + 1;
        }
        proof {
            assert(removed@.subrange(0, removed.len() as int) =~= removed@);
        }
        let ghost regs_now = self.registered@;
        let ghost hook_now = self.hook;
        match self.publish_hook_table(native, old_hook_bindings) {
            Ok(()) => {},
            Err(e) => {
                errors.push(e.message());
            },
        }
        assert(self.registered@ == regs_now);
        rollback_error(reason, &errors)
    }

    /// Replaces the owner's hotkeys with `bindings`.
    ///
    /// Registrations an earlier request left disabled are released first.
    /// Each enabled registration is kept when some new binding can reuse it
    /// and released otherwise. Then every binding is routed: a shortcut
    /// Windows reserves is reported unavailable, an Enter key goes to the
    /// keyboard hook, a kept registration is reused, and anything else is
    /// registered under a fresh id, going to the hook when another
    /// application owns it. The hook is installed when some binding needs it
    /// and removed when none does. A request that expires, is cancelled, or
    /// whose hook cannot be installed is rolled back and fails; once it has
    /// committed, the staged and kept registrations are enabled, each for the
    /// shortcut of a binding reported registered, and the hook's table is
    /// that of the intercepted bindings.
    #[verifier::spinoff_prover]
    #[verifier::rlimit(80)]
    pub fn apply<N: NativeHotkeys>(
        &mut self,
        native: &mut N,
        control: &mut ApplyControl,
        deadline: u64,
        bindings: &[HotkeyBinding],
    ) -> (r: Result<HotkeyApplyReport, PlatformError>)
        requires
            ids_unique(old(self).registered@),
            1 <= old(self).next_id <= MAX_HOTKEY_ID,
            old(self).registered.len() + bindings.len() < MAX_HOTKEY_ID,
        ensures
            ids_unique(final(self).registered@),
            1 <= final(self).next_id <= MAX_HOTKEY_ID,
            old(control)@ == RequestState::Cancelled ==> r is Err,
            applied(r, bindings@, final(control)@, final(self).hook),
            r is Ok ==> forall|k: int|
                0 <= k < final(self).registered.len() ==> #[trigger] final(self).registered@[k].enabled,
            r matches Err(PlatformError::Os { .. }) ==> restored(
                old(self).registered@,
                old(self).hook,
                old(self).hook_table@,
                final(self).registered@,
                final(self).hook,
                final(self).hook_table@,
            ),
            r matches Ok(report) ==> final(self).hook_table@ == hooked(report.bindings@),
            r matches Ok(report) ==> registrations_serve(final(self).registered@, report.bindings@),
            r matches Ok(report) ==> forall|k: int|
                0 <= k < report.bindings.len() && (#[trigger] report.bindings@[k]).route
                    == HotkeyRoute::Registered && sole_shortcut(report.bindings@, k) ==> exists|m: int|
                    0 <= m < final(self).registered.len() && find_enabled(
                        final(self).registered@,
                        final(self).registered@[m].id,
                    ) == Some(final(self).registered@[m]) && (#[trigger] final(self).registered@[m]).binding
                        == bindings@[k],
    {
        let ghost initial_len = self.registered.len();
        let ghost entry = self.registered@;
        let ghost hook0 = self.hook;
        match self.cleanup_disabled_registrations(native) {
            Ok(()) => {},
            Err(e) => {
                return Err(e);
            },
        }
        let old_registered = self.with_enabled(true);
        let old_hook_bindings = copy_table(&self.hook_table);
        let mut retained: Vec<RegisteredBinding> = Vec::new();
        let mut removed: Vec<RegisteredBinding> = Vec::new();
        let ghost cleaned = self.registered@;
        proof {
            lemma_filter_ids_unique(cleaned, |reg: RegisteredBinding| reg.enabled == true);
        }

        let mut k: usize = 0;
        while k < old_registered.len()
            invariant
                ids_unique(old_registered@),
                ids_unique(retained@),
                forall|j: int| 0 <= j < retained.len() ==> reusable_by(#[trigger] retained@[j], bindings@),
                forall|j: int| 0 <= j < retained.len() ==> self.registered@.contains(#[trigger] retained@[j]),
                forall|m: int|
                    k <= m < old_registered.len() ==> !id_in_use(retained@, (#[trigger] old_registered@[m]).id as int)
                        && !id_in_use(removed@, old_registered@[m].id as int),
                forall|x: RegisteredBinding|
                    #[trigger] cleaned.contains(x) <==> (entry.contains(x) && x.enabled),
                ids_unique(cleaned),
                forall|x: RegisteredBinding|
                    #[trigger] self.registered@.contains(x) <==> (cleaned.contains(x) && !id_in_use(
                        removed@,
                        x.id as int,
                    )),
                forall|m: int| 0 <= m < removed.len() ==> cleaned.contains(#[trigger] removed@[m]),
                self.hook == hook0,
                entry == old(self).registered@,
                hook0 == old(self).hook,
                self.hook_table == old(self).hook_table,
                old_hook_bindings@ == old(self).hook_table@,
                k <= old_registered.len(),
                ids_unique(self.registered@),
                self.registered.len() <= initial_len,
                initial_len + bindings.len() < MAX_HOTKEY_ID,
                1 <= self.next_id <= MAX_HOTKEY_ID,
                control@ == old(control)@,
                forall|m: int| 0 <= m < cleaned.len() ==> #[trigger] cleaned[m].enabled,
                old_registered@ == cleaned.filter(|reg: RegisteredBinding| reg.enabled == true),
                forall|x: RegisteredBinding|
                    #[trigger] self.registered@.contains(x) ==> cleaned.contains(x),
                forall|m: int|
                    0 <= m < k ==> retained@.contains(#[trigger] old_registered@[m]) || !id_in_use(
                        self.registered@,
                        old_registered@[m].id as int,
                    ),
            decreases old_registered.len() - k,
        {
            let prev = old_registered[k];
            let ghost retained_before = retained@;
            let ghost regs_before = self.registered@;
            if any_reuses(prev, bindings) {
                proof {
                    assert(old_registered@.contains(prev));
                    cleaned.lemma_filter_contains_rev(|reg: RegisteredBinding| reg.enabled == true, prev);
                    assert(self.registered@.contains(prev));
                }
                retained.push(prev);
                proof {
                    assert forall|a: int, c: int| 0 <= a < c < retained@.len() implies retained@[a].id
                        != retained@[c].id by {
                        assert(retained@[a] == retained_before[a] || a == retained_before.len());
                        if c == retained_before.len() {
                            assert(retained@[c] == prev);
                            assert(retained@[a] == retained_before[a]);
                        } else {
                            assert(retained@[c] == retained_before[c]);
                            assert(retained@[a] == retained_before[a]);
                        }
                    };
                    assert forall|j: int| 0 <= j < retained.len() implies reusable_by(
                        #[trigger] retained@[j],
                        bindings@,
                    ) && self.registered@.contains(retained@[j]) by {
                        if j < retained_before.len() {
                            assert(retained@[j] == retained_before[j]);
                        }
                    };
                    assert forall|m: int| k + 1 <= m < old_registered.len() implies !id_in_use(
                        retained@,
                        (#[trigger] old_registered@[m]).id as int,
                    ) && !id_in_use(removed@, old_registered@[m].id as int) by {
                        assert(old_registered@[m].id != old_registered@[k as int].id);
                        if id_in_use(retained@, old_registered@[m].id as int) {
                            let j = choose|j: int| 0 <= j < retained@.len() && retained@[j].id == old_registered@[m].id;
                            if j < retained_before.len() {
                                assert(retained@[j] == retained_before[j]);
                            }
                        }
                    };
                    assert forall|m: int| 0 <= m < k + 1 implies retained@.contains(
                        #[trigger] old_registered@[m],
                    ) || !id_in_use(self.registered@, old_registered@[m].id as int) by {
                        if m < k {
                            if retained_before.contains(old_registered@[m]) {
                                let j = choose|j: int|
                                    0 <= j < retained_before.len() && retained_before[j]
                                        == old_registered@[m];
                                assert(retained@[j] == retained_before[j]);
                            }
                        } else {
                            assert(retained@[retained@.len() - 1] == prev);
                        }
                    };
                }
            } else {
                match native.unregister(prev.id) {
                    Err(e) => {
                        let reason = id_message("failed to remove hotkey ", prev.id, &e.message);
                        let empty: Vec<RegisteredBinding> = Vec::new();
                        let ghost pre = self.registered@;
                        let err = self.rollback_apply(
                            native,
                            &empty,
                            &removed,
                            old_hook_bindings,
                            false,
                            reason.as_str(),
                        );
                        proof {
                            if err is Os {
                                lemma_clean_rollback_restores(entry, cleaned, pre, empty@, removed@);
                            }
                        }
                        return Err(err);
                    },
                    Ok(()) => {
                        proof {
                            lemma_registration_ids_stay_unique(
                                self.registered@,
                                prev,
                                seq![],
                                prev.id,
                                prev,
                            );
                            self.registered@.lemma_filter_len(
                                |reg: RegisteredBinding| reg.id != prev.id,
                            );
                            lemma_forget_shrinks(self.registered@, prev.id);
                            assert(without_id(self.registered@, prev.id) == self.registered@.filter(
                                |reg: RegisteredBinding| reg.id != prev.id,
                            ));
                        }
                        let ghost removed_before = removed@;
                        proof {
                            lemma_without_id_contains(self.registered@, prev.id);
                            assert(old_registered@.contains(prev));
                            cleaned.lemma_filter_contains_rev(
                                |reg: RegisteredBinding| reg.enabled == true,
                                prev,
                            );
                        }
                        let ghost regs_mid = self.registered@;
                        self.forget(prev.id);
                        removed.push(prev);
                        proof {
                            assert(!id_in_use(retained@, old_registered@[k as int].id as int));
                            assert forall|j: int| 0 <= j < retained.len() implies self.registered@.contains(
                                #[trigger] retained@[j],
                            ) by {
                                assert(regs_mid.contains(retained@[j]));
                                assert(retained@[j].id != prev.id);
                            };
                            assert forall|m: int| k + 1 <= m < old_registered.len() implies !id_in_use(
                                retained@,
                                (#[trigger] old_registered@[m]).id as int,
                            ) && !id_in_use(removed@, old_registered@[m].id as int) by {
                                assert(old_registered@[m].id != old_registered@[k as int].id);
                                if id_in_use(removed@, old_registered@[m].id as int) {
                                    let j = choose|j: int| 0 <= j < removed@.len() && removed@[j].id == old_registered@[m].id;
                                    if j < removed_before.len() {
                                        assert(removed@[j] == removed_before[j]);
                                    }
                                }
                            };
                            assert forall|x: RegisteredBinding| #[trigger] self.registered@.contains(x)
                                <==> (cleaned.contains(x) && !id_in_use(removed@, x.id as int)) by {
                                if id_in_use(removed_before, x.id as int) {
                                    let j = choose|j: int|
                                        0 <= j < removed_before.len() && removed_before[j].id == x.id;
                                    assert(removed@[j] == removed_before[j]);
                                }
                                if id_in_use(removed@, x.id as int) && x.id != prev.id {
                                    let j = choose|j: int| 0 <= j < removed@.len() && removed@[j].id == x.id;
                                    assert(j < removed_before.len());
                                    assert(removed_before[j] == removed@[j]);
                                }
                                if x.id == prev.id {
                                    assert(removed@[removed_before.len() as int] == prev);
                                }
                            };
                            assert forall|m: int| 0 <= m < removed.len() implies cleaned.contains(
                                #[trigger] removed@[m],
                            ) by {
                                if m < removed_before.len() {
                                    assert(removed@[m] == removed_before[m]);
                                }
                            };
                        }
                        proof {
                            assert forall|m: int| 0 <= m < k + 1 implies retained@.contains(
                                #[trigger] old_registered@[m],
                            ) || !id_in_use(self.registered@, old_registered@[m].id as int) by {
                                if m < k {
                                    if !retained@.contains(old_registered@[m]) {
                                        assert(!id_in_use(regs_before, old_registered@[m].id as int));
                                    }
                                }
                            };
                        }
                    },
                }
            }
            k = k + 1;
        }

        let mut staged: Vec<RegisteredBinding> = Vec::new();
        proof {
            let pred = |reg: RegisteredBinding| reg.enabled == true;
            assert forall|x: RegisteredBinding| #[trigger] self.registered@.contains(x) implies id_in_use(
                retained@,
                x.id as int,
            ) || id_in_use(staged@, x.id as int) by {
                let m = choose|m: int| 0 <= m < cleaned.len() && cleaned[m] == x;
                cleaned.lemma_filter_contains(pred, m);
                let n = choose|n: int| 0 <= n < old_registered@.len() && old_registered@[n] == x;
                let i = choose|i: int| 0 <= i < self.registered@.len() && self.registered@[i] == x;
                if retained@.contains(old_registered@[n]) {
                    let j = choose|j: int| 0 <= j < retained@.len() && retained@[j] == x;
                    assert(retained@[j].id == x.id);
                } else {
                    assert(!id_in_use(self.registered@, old_registered@[n].id as int));
                    assert(self.registered@[i].id == x.id);
                }
            };
        }
        let mut statuses: Vec<HotkeyBindingStatus> = Vec::new();
        let ghost retained0 = retained@;
        assert(routed(retained0, retained@, staged@, statuses@)) by {
            reveal(routed);
        }
        proof {
            assert(retained@ + staged@ =~= retained@);
            assert forall|j: int| 0 <= j < retained.len() implies id_in_use(
                self.registered@,
                (#[trigger] retained@[j]).id as int,
            ) by {
                let p = choose|p: int| 0 <= p < self.registered@.len() && self.registered@[p] == retained@[j];
            };
        }
        let mut i: usize = 0;
        while i < bindings.len()
            invariant
                routed(retained0, retained@, staged@, statuses@),
                forall|j: int| 0 <= j < retained0.len() ==> reusable_by(#[trigger] retained0[j], bindings@),
                ids_unique(retained@ + staged@),
                forall|j: int| 0 <= j < retained.len() ==> id_in_use(self.registered@, (#[trigger] retained@[j]).id as int),
                forall|q: int| 0 <= q < staged.len() ==> self.registered@.contains(#[trigger] staged@[q]),
                i <= bindings.len(),
                ids_unique(self.registered@),
                self.registered.len() <= initial_len + i,
                initial_len + bindings.len() < MAX_HOTKEY_ID,
                1 <= self.next_id <= MAX_HOTKEY_ID,
                statuses@.len() == i,
                forall|j: int| 0 <= j < i ==> status_fits(bindings@[j], #[trigger] statuses@[j]),
                old(control)@ == RequestState::Cancelled ==> control@ == RequestState::Cancelled,
                control@ == RequestState::Cancelled || control@ == old(control)@,
                covered(self.registered@, retained@, staged@),
                forall|x: RegisteredBinding|
                    #[trigger] cleaned.contains(x) <==> (entry.contains(x) && x.enabled),
                ids_unique(cleaned),
                forall|x: RegisteredBinding|
                    #[trigger] self.registered@.contains(x) <==> ((cleaned.contains(x) && !id_in_use(
                        removed@,
                        x.id as int,
                    )) || staged@.contains(x)),
                forall|m: int| 0 <= m < removed.len() ==> cleaned.contains(#[trigger] removed@[m]),
                forall|m: int| 0 <= m < staged.len() ==> !(#[trigger] staged@[m]).enabled,
                self.hook == hook0,
                entry == old(self).registered@,
                hook0 == old(self).hook,
                self.hook_table == old(self).hook_table,
                old_hook_bindings@ == old(self).hook_table@,
            decreases bindings.len() - i,
        {
            let now = native.now();
            if control.cancelled_or_expired(now, deadline) {
                let ghost pre = self.registered@;
                let err = self.rollback_apply(
                    native,
                    &staged,
                    &removed,
                    old_hook_bindings,
                    false,
                    "request expired",
                );
                proof {
                    if err is Os {
                        lemma_clean_rollback_restores(entry, cleaned, pre, staged@, removed@);
                    }
                }
                return Err(err);
            }
            let b = bindings[i];
            let ghost regs_before = self.registered@;
            let ghost staged_before = staged@;
            let entry = self.route_binding(native, b, &mut retained, &mut staged, &statuses, Ghost(retained0));
            proof {
                if self.registered@ != regs_before {
                    let reg = choose|reg: RegisteredBinding|
                        !reg.enabled && self.registered@ == regs_before.push(reg) && staged@
                            == staged_before.push(reg);
                    lemma_stage_membership(cleaned, removed@, regs_before, staged_before, reg);
                    assert forall|m: int| 0 <= m < staged.len() implies !(#[trigger] staged@[m]).enabled by {
                        if m < staged_before.len() {
                            assert(staged@[m] == staged_before[m]);
                        }
                    };
                }
                lemma_fits_push(statuses@, bindings@, i as int, entry);
            }
            statuses.push(entry);
            i = i + 1;
        }

        let now = native.now();
        if control.cancelled_or_expired(now, deadline) {
            let ghost pre = self.registered@;
            let err = self.rollback_apply(
                native,
                &staged,
                &removed,
                old_hook_bindings,
                false,
                "request expired",
            );
            proof {
                if err is Os {
                    lemma_clean_rollback_restores(entry, cleaned, pre, staged@, removed@);
                }
            }
            return Err(err);
        }
        let ghost routed_regs = self.registered@;
        let table = hook_table(&statuses);
        let any_hooked = table.len() > 0;
        let installed_for_apply = if any_hooked && self.hook.is_none() {
            match native.install_hook() {
                Ok(h) => {
                    self.hook = Some(h);
                    true
                },
                Err(err) => {
                    let ghost pre = self.registered@;
                    let rollback = self.rollback_apply(
                        native,
                        &staged,
                        &removed,
                        old_hook_bindings,
                        false,
                        "hook installation failed",
                    );
                    proof {
                        if rollback is Os {
                            lemma_clean_rollback_restores(entry, cleaned, pre, staged@, removed@);
                        }
                    }
                    let detail = err.message();
                    return Err(
                        match rollback {
                            PlatformError::HotkeyStateUnknown(details) => {
                                let mut m = "hook installation failed: ".to_owned();
                                m.append(detail.as_str());
                                m.append("; ");
                                m.append(details.as_str());
                                PlatformError::HotkeyStateUnknown(m)
                            },
                            other => {
                                let mut m = detail;
                                m.append("; ");
                                let shown = other.message();
                                m.append(shown.as_str());
                                PlatformError::os("hotkey apply", m.as_str())
                            },
                        },
                    );
                },
            }
        } else {
            false
        };
        assert(installed_for_apply ==> hook0 is None);
        assert(!installed_for_apply ==> self.hook == hook0);
        let now = native.now();
        if control.cancelled_or_expired(now, deadline) {
            let ghost pre = self.registered@;
            let err = self.rollback_apply(
                native,
                &staged,
                &removed,
                old_hook_bindings,
                installed_for_apply,
                "request expired before commit",
            );
            proof {
                if err is Os {
                    lemma_clean_rollback_restores(entry, cleaned, pre, staged@, removed@);
                }
            }
            return Err(err);
        }
        if !control.begin_commit() {
            let ghost pre = self.registered@;
            let err = self.rollback_apply(
                native,
                &staged,
                &removed,
                old_hook_bindings,
                installed_for_apply,
                "request was cancelled before commit",
            );
            proof {
                if err is Os {
                    lemma_clean_rollback_restores(entry, cleaned, pre, staged@, removed@);
                }
            }
            return Err(err);
        }
        match self.publish_hook_table(native, table) {
            Ok(()) => {},
            Err(err) => {
                let mut m =
                    "native registrations changed but hook dispatch could not be published: ".to_owned();
                let shown = err.message();
                m.append(shown.as_str());
                return Err(PlatformError::HotkeyStateUnknown(m));
            },
        }
        self.commit_request(&retained, &staged, &statuses, bindings, Ghost(retained0));
        native.clear_transient_keys();

        let mut warning: Option<String> = None;
        if !any_hooked {
            match self.hook {
                Some(h) => match native.unhook(h) {
                    Ok(()) => {
                        self.hook = None;
                    },
                    Err(e) => {
                        let mut w =
                            "shortcuts were updated, but the obsolete keyboard hook could not be removed: ".to_owned();
                        w.append(e.message.as_str());
                        warning = Some(w);
                    },
                },
                None => {},
            }
        }
        proof {
            assert forall|k: int|
                0 <= k < statuses.len() && (#[trigger] statuses@[k]).route == HotkeyRoute::Registered
                    && sole_shortcut(statuses@, k) implies exists|m: int|
                0 <= m < self.registered.len() && find_enabled(self.registered@, self.registered@[m].id)
                    == Some(self.registered@[m]) && (#[trigger] self.registered@[m]).binding == bindings@[k] by {
                lemma_sole_registered_dispatches(self.registered@, statuses@, k);
                assert(status_fits(bindings@[k], statuses@[k]));
            };
        }
        let hook_installed = self.hook.is_some();
        Ok(HotkeyApplyReport { bindings: statuses, hook_installed, warning })
    }

    /// The ids of the owner's registrations, in order.
    pub fn registration_ids(&self) -> (r: Vec<i32>)
        ensures
            r@ == self.registered@.map_values(|reg: RegisteredBinding| reg.id),
    {
        let mut r: Vec<i32> = Vec::new();
        let mut k: usize = 0;
        while k < self.registered.len()
            invariant
                k <= self.registered.len(),
                r@ == self.registered@.subrange(0, k as int).map_values(|reg: RegisteredBinding| reg.id),
            decreases self.registered.len() - k,
        {
            r.push(self.registered[k].id);
            k = k + 1;
            assert(r@ =~= self.registered@.subrange(0, k as int).map_values(
                |reg: RegisteredBinding| reg.id,
            ));
        }
        assert(self.registered@.subrange(0, self.registered.len() as int) =~= self.registered@);
        r
    }

    /// Releases everything when the owner exits: the hook is given an empty
    /// table and forgets the keys it tracks, every registration's id is
    /// unregistered in order, and the hook is removed. Windows' answers are
    /// ignored; afterwards the owner holds no registration and no hook.
    pub fn release_all<N: NativeHotkeys>(&mut self, native: &mut N)
        ensures
            final(self).registered@.len() == 0,
            final(self).hook is None,
            final(self).next_id == old(self).next_id,
            final(self).hook_table@.len() == 0 || final(self).hook_table == old(self).hook_table,
    {
        let empty: Vec<HookBinding> = Vec::new();
        let _ = self.publish_hook_table(native, empty);
        native.clear_transient_keys();
        let ids = self.registration_ids();
        let mut k: usize = 0;
        while k < ids.len()
            invariant
                k <= ids.len(),
            decreases ids.len() - k,
        {
            let _ = native.unregister(ids[k]);
            k = k + 1;
        }
        self.registered = Vec::new();
        match self.hook {
            Some(h) => {
                let _ = native.unhook(h);
            },
            None => {},
        }
        self.hook = None;
    }

    /// Serves one queued apply request: one already cancelled or past its
    /// deadline is refused and changes nothing; a live one is applied.
    pub fn serve_apply<N: NativeHotkeys>(
        &mut self,
        native: &mut N,
        control: &mut ApplyControl,
        deadline: u64,
        bindings: &[HotkeyBinding],
    ) -> (r: Result<HotkeyApplyReport, PlatformError>)
        requires
            ids_unique(old(self).registered@),
            1 <= old(self).next_id <= MAX_HOTKEY_ID,
            old(self).registered.len() + bindings.len() < MAX_HOTKEY_ID,
        ensures
            ids_unique(final(self).registered@),
            1 <= final(self).next_id <= MAX_HOTKEY_ID,
            applied(r, bindings@, final(control)@, final(self).hook),
            r is Ok ==> forall|k: int|
                0 <= k < final(self).registered.len() ==> #[trigger] final(self).registered@[k].enabled,
            old(control)@ == RequestState::Cancelled ==> {
                &&& r matches Err(PlatformError::Os { context, source_message })
                &&& context@ == "hotkey apply"@
                &&& source_message@ == "request was cancelled or expired before processing"@
                &&& final(self).registered@ == old(self).registered@
                &&& final(self).next_id == old(self).next_id
                &&& final(self).hook == old(self).hook
            },
    {
        let now = native.now();
        if control.is_cancelled() || now >= deadline {
            return Err(
                PlatformError::os(
                    "hotkey apply",
                    "request was cancelled or expired before processing",
                ),
            );
        }
        self.apply(native, control, deadline, bindings)
    }
}

} // verus!
