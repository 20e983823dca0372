//! The decisions of the Windows hotkey owner thread: native registration
//! ids, which registrations an apply request can keep, how each binding is
//! routed, the one-winner race between cancelling and committing a request,
//! and the startup handshake.

use vstd::prelude::*;
use vstd::set_lib::{lemma_int_range, lemma_len_subset, set_int_range};
use vstd::string::StringExecFns;

use crate::action::WindowAction;
use crate::platform::{HotkeyBinding, HotkeyBindingStatus, HotkeyRoute};
use crate::win_keys::{
    HookBinding, can_reuse_registration, can_reuse_spec, impossible_reason, impossible_reason_spec,
    requires_extended_identity, status, unavailable,
};

verus! {

/// The largest id `RegisterHotKey` accepts from an application.
pub const MAX_HOTKEY_ID: i32 = 0xBFFF;

/// A binding the owner thread holds a native registration for. A staged
/// registration stays disabled until its apply request commits.
#[derive(Debug, Clone, Copy, PartialEq, Eq, Structural)]
pub struct RegisteredBinding {
    pub id: i32,
    pub binding: HotkeyBinding,
    pub enabled: bool,
}

/// Whether some registration uses the id `id`.
pub open spec fn id_in_use(regs: Seq<RegisteredBinding>, id: int) -> bool {
    exists|i: int| 0 <= i < regs.len() && regs[i].id == id
}

/// The id tried `j` steps after `start`, wrapping from the largest id to 1.
pub open spec fn candidate_id(start: int, j: int) -> int {
    if start + j <= MAX_HOTKEY_ID {
        start + j
    } else {
        start + j - MAX_HOTKEY_ID
    }
}

/// The id allocated after `id`.
pub open spec fn next_id_after(id: int) -> int {
    if id >= MAX_HOTKEY_ID {
        1
    } else {
        id + 1
    }
}

/// The first enabled registration with the id `id`.
pub open spec fn find_enabled(regs: Seq<RegisteredBinding>, id: i32) -> Option<RegisteredBinding>
    decreases regs.len(),
{
    if regs.len() == 0 {
        None
    } else if regs[0].id == id && regs[0].enabled {
        Some(regs[0])
    } else {
        find_enabled(regs.drop_first(), id)
    }
}

/// Whether some binding of an apply request can take over `old` as it is.
pub open spec fn reusable_by(old: RegisteredBinding, bindings: Seq<HotkeyBinding>) -> bool {
    exists|k: int| 0 <= k < bindings.len() && can_reuse_spec(old.binding, bindings[k])
}

/// The first registration of `regs` that can serve `b` unchanged.
pub open spec fn first_reusable(regs: Seq<RegisteredBinding>, b: HotkeyBinding) -> Option<int>
    decreases regs.len(),
{
    if regs.len() == 0 {
        None
    } else if can_reuse_spec(regs[0].binding, b) {
        Some(0)
    } else {
        match first_reusable(regs.drop_first(), b) {
            Some(i) => Some(i + 1),
            None => None,
        }
    }
}

/// The first registration that can serve `b` can; when there is none, no
/// registration can.
pub proof fn lemma_first_reusable(regs: Seq<RegisteredBinding>, b: HotkeyBinding)
    ensures
        first_reusable(regs, b) matches Some(i) ==> 0 <= i < regs.len() && can_reuse_spec(
            regs[i].binding,
            b,
        ),
        first_reusable(regs, b) is None ==> forall|j: int|
            0 <= j < regs.len() ==> !can_reuse_spec((#[trigger] regs[j]).binding, b),
    decreases regs.len(),
{
    if regs.len() > 0 {
        lemma_first_reusable(regs.drop_first(), b);
        assert forall|j: int| 1 <= j < regs.len() implies regs[j] == regs.drop_first()[j - 1] by {}
    }
}

/// The native state the owner thread keeps between requests.
pub struct OwnerState {
    pub registered: Vec<RegisteredBinding>,
    /// The next id to try; always between 1 and [`MAX_HOTKEY_ID`].
    pub next_id: i32,
    /// The installed low-level keyboard hook's handle, if any.
    pub hook: Option<u64>,
    /// The bindings the keyboard hook dispatches from, as last published.
    pub hook_table: Vec<HookBinding>,
}

proof fn lemma_all_ids_taken(regs: Seq<RegisteredBinding>, start: int)
    requires
        1 <= start <= MAX_HOTKEY_ID,
        forall|j: int| 0 <= j < MAX_HOTKEY_ID ==> id_in_use(regs, #[trigger] candidate_id(start, j)),
    ensures
        regs.len() >= MAX_HOTKEY_ID,
{
    let ids = regs.map_values(|r: RegisteredBinding| r.id as int);
    let range = set_int_range(1, MAX_HOTKEY_ID + 1);
    assert forall|x: int| #[trigger] range.contains(x) implies ids.to_set().contains(x) by {
        let j = if x >= start {
            x - start
        } else {
            x - start + MAX_HOTKEY_ID
        };
        assert(candidate_id(start, j) == x);
        assert(id_in_use(regs, candidate_id(start, j)));
        let i = choose|i: int| 0 <= i < regs.len() && regs[i].id == x;
        assert(ids[i] == x);
    }
    lemma_int_range(1, MAX_HOTKEY_ID + 1);
    ids.lemma_cardinality_of_set();
    lemma_len_subset(range, ids.to_set());
}

impl OwnerState {
    /// No registrations, ids starting at 1.
    pub fn new() -> (r: OwnerState)
        ensures
            r.registered@ == Seq::<RegisteredBinding>::empty(),
            r.next_id == 1,
            r.hook is None,
            r.hook_table@.len() == 0,
    {
        OwnerState { registered: Vec::new(), next_id: 1, hook: None, hook_table: Vec::new() }
    }

    /// Whether some registration uses `id`.
    pub fn id_in_use(&self, id: i32) -> (r: bool)
        ensures
            r == id_in_use(self.registered@, id as int),
    {
        let mut i: usize = 0;
        while i < self.registered.len()
            invariant
                i <= self.registered.len(),
                forall|k: int| 0 <= k < i ==> self.registered@[k].id != id,
            decreases self.registered.len() - i,
        {
            if self.registered[i].id == id {
                return true;
            }
            i = i + 1;
        }
        false
    }

    /// Hands out the next free registration id, trying ids in order from
    /// `next_id` and wrapping from [`MAX_HOTKEY_ID`] back to 1.
    pub fn allocate_id(&mut self) -> (id: i32)
        requires
            1 <= old(self).next_id <= MAX_HOTKEY_ID,
            old(self).registered.len() < MAX_HOTKEY_ID,
        ensures
            1 <= id <= MAX_HOTKEY_ID,
            !id_in_use(final(self).registered@, id as int),
            final(self).registered@ == old(self).registered@,
            final(self).next_id == next_id_after(id as int),
            final(self).hook == old(self).hook,
            final(self).hook_table == old(self).hook_table,
            exists|n: int|
                0 <= n < MAX_HOTKEY_ID && id == candidate_id(old(self).next_id as int, n) && forall|
                    j: int,
                |
                    0 <= j < n ==> id_in_use(
                        old(self).registered@,
                        #[trigger] candidate_id(old(self).next_id as int, j),
                    ),
    {
        let ghost start: int = self.next_id as int;
        let ghost mut tries: int = 0;
        loop
            invariant
                1 <= start <= MAX_HOTKEY_ID,
                0 <= tries < MAX_HOTKEY_ID,
                self.registered@ == old(self).registered@,
                self.hook == old(self).hook,
                self.hook_table == old(self).hook_table,
                old(self).registered.len() < MAX_HOTKEY_ID,
                self.next_id as int == candidate_id(start, tries),
                start == old(self).next_id,
                forall|j: int|
                    0 <= j < tries ==> id_in_use(self.registered@, #[trigger] candidate_id(start, j)),
            decreases MAX_HOTKEY_ID - tries,
        {
            let id = self.next_id;
            self.next_id = if self.next_id >= MAX_HOTKEY_ID {
                1
            } else {
                self.next_id + 1
            };
            if !self.id_in_use(id) {
                return id;
            }
            proof {
                tries = tries + 1;
                if tries == MAX_HOTKEY_ID {
                    lemma_all_ids_taken(self.registered@, start);
                }
            }
        }
    }

    /// The action to send for a native hotkey message with id `id`: that of
    /// the first enabled registration with the id, if any.
    pub fn dispatch_registered(&self, id: i32) -> (r: Option<WindowAction>)
        ensures
            r == (match find_enabled(self.registered@, id) {
                Some(reg) => Some(reg.binding.action),
                None => None,
            }),
    {
        let mut i: usize = 0;
        assert(self.registered@.subrange(0, self.registered.len() as int) =~= self.registered@);
        while i < self.registered.len()
            invariant
                i <= self.registered.len(),
                find_enabled(self.registered@, id) == find_enabled(
                    self.registered@.subrange(i as int, self.registered.len() as int),
                    id,
                ),
            decreases self.registered.len() - i,
        {
            let entry = self.registered[i];
            let ghost rest = self.registered@.subrange(i as int, self.registered.len() as int);
            assert(rest[0] == entry);
            assert(rest.drop_first() =~= self.registered@.subrange(
                i + 1,
                self.registered.len() as int,
            ));
            if entry.id == id && entry.enabled {
                return Some(entry.binding.action);
            }
            i = i + 1;
        }
        None
    }

    /// The registrations with the given enabled state, in order.
    pub fn with_enabled(&self, enabled: bool) -> (r: Vec<RegisteredBinding>)
        ensures
            r@ == self.registered@.filter(|reg: RegisteredBinding| reg.enabled == enabled),
    {
        let mut r: Vec<RegisteredBinding> = Vec::new();
        let mut i: usize = 0;
        while i < self.registered.len()
            invariant
                i <= self.registered.len(),
                r@ == self.registered@.subrange(0, i as int).filter(
                    |reg: RegisteredBinding| reg.enabled == enabled,
                ),
            decreases self.registered.len() - i,
        {
            let reg = self.registered[i];
            proof {
                reveal_with_fuel(Seq::<_>::filter, 1);
                assert(self.registered@.subrange(0, i + 1).drop_last() =~= self.registered@.subrange(
                    0,
                    i as int,
                ));
            }
            if reg.enabled == enabled {
                r.push(reg);
            }
            i = i + 1;
        }
        assert(self.registered@.subrange(0, self.registered.len() as int) =~= self.registered@);
        r
    }

    /// Drops every registration with the id `id`, keeping the others in
    /// order.
    pub fn forget(&mut self, id: i32)
        ensures
            final(self).registered@ == old(self).registered@.filter(
                |reg: RegisteredBinding| reg.id != id,
            ),
            final(self).next_id == old(self).next_id,
            final(self).hook == old(self).hook,
            final(self).hook_table == old(self).hook_table,
    {
        let mut kept: Vec<RegisteredBinding> = Vec::new();
        let mut i: usize = 0;
        while i < self.registered.len()
            invariant
                i <= self.registered.len(),
                kept@ == self.registered@.subrange(0, i as int).filter(
                    |reg: RegisteredBinding| reg.id != id,
                ),
            decreases self.registered.len() - i,
        {
            let reg = self.registered[i];
            proof {
                reveal_with_fuel(Seq::<_>::filter, 1);
                assert(self.registered@.subrange(0, i + 1).drop_last() =~= self.registered@.subrange(
                    0,
                    i as int,
                ));
            }
            if reg.id != id {
                kept.push(reg);
            }
            i = i + 1;
        }
        assert(self.registered@.subrange(0, self.registered.len() as int) =~= self.registered@);
        self.registered = kept;
    }
}

/// The index of the first registration with the id `id`.
pub open spec fn index_of_id(regs: Seq<RegisteredBinding>, id: i32) -> Option<int>
    decreases regs.len(),
{
    if regs.len() == 0 {
        None
    } else if regs[0].id == id {
        Some(0)
    } else {
        match index_of_id(regs.drop_first(), id) {
            Some(i) => Some(i + 1),
            None => None,
        }
    }
}

proof fn lemma_index_of_id(regs: Seq<RegisteredBinding>, id: i32)
    ensures
        match index_of_id(regs, id) {
            Some(i) => 0 <= i < regs.len() && regs[i].id == id,
            None => forall|k: int| 0 <= k < regs.len() ==> regs[k].id != id,
        },
    decreases regs.len(),
{
    if regs.len() > 0 {
        lemma_index_of_id(regs.drop_first(), id);
        assert forall|k: int| 1 <= k < regs.len() implies regs[k] == regs.drop_first()[k - 1] by {}
    }
}

/// Committing one registration: the first one with its id takes its
/// binding and is enabled.
pub open spec fn commit_one(regs: Seq<RegisteredBinding>, c: RegisteredBinding) -> Seq<
    RegisteredBinding,
> {
    match index_of_id(regs, c.id) {
        Some(i) => regs.update(i, RegisteredBinding { id: regs[i].id, binding: c.binding, enabled: true }),
        None => regs,
    }
}

/// Committing registrations in order.
pub open spec fn commit_all(regs: Seq<RegisteredBinding>, cs: Seq<RegisteredBinding>) -> Seq<
    RegisteredBinding,
>
    decreases cs.len(),
{
    if cs.len() == 0 {
        regs
    } else {
        commit_one(commit_all(regs, cs.drop_last()), cs.last())
    }
}

/// No two registrations share an id.
pub open spec fn ids_unique(regs: Seq<RegisteredBinding>) -> bool {
    forall|i: int, j: int| 0 <= i < j < regs.len() ==> regs[i].id != regs[j].id
}

/// Committing keeps every registration's id, in place.
proof fn lemma_commit_keeps_ids(regs: Seq<RegisteredBinding>, cs: Seq<RegisteredBinding>)
    ensures
        commit_all(regs, cs).len() == regs.len(),
        forall|k: int| 0 <= k < regs.len() ==> #[trigger] commit_all(regs, cs)[k].id == regs[k].id,
    decreases cs.len(),
{
    if cs.len() > 0 {
        lemma_commit_keeps_ids(regs, cs.drop_last());
        lemma_index_of_id(commit_all(regs, cs.drop_last()), cs.last().id);
    }
}

/// Committing enables exactly the registrations whose ids were committed,
/// leaving every other one as it was, when no two registrations share an
/// id.
pub proof fn lemma_commit_enables(regs: Seq<RegisteredBinding>, cs: Seq<RegisteredBinding>)
    requires
        ids_unique(regs),
    ensures
        commit_all(regs, cs).len() == regs.len(),
        forall|k: int|
            0 <= k < regs.len() ==> #[trigger] commit_all(regs, cs)[k].enabled == (regs[k].enabled
                || exists|j: int| 0 <= j < cs.len() && cs[j].id == regs[k].id),
    decreases cs.len(),
{
    lemma_commit_keeps_ids(regs, cs);
    if cs.len() > 0 {
        let init = cs.drop_last();
        let c = cs.last();
        lemma_commit_enables(regs, init);
        lemma_commit_keeps_ids(regs, init);
        let mid = commit_all(regs, init);
        lemma_index_of_id(mid, c.id);
        assert forall|k: int| 0 <= k < regs.len() implies #[trigger] commit_all(regs, cs)[k].enabled
            == (regs[k].enabled || exists|j: int| 0 <= j < cs.len() && cs[j].id == regs[k].id) by {
            assert(mid[k].enabled == (regs[k].enabled || exists|j: int|
                0 <= j < init.len() && init[j].id == regs[k].id));
            if exists|j: int| 0 <= j < init.len() && init[j].id == regs[k].id {
                let j = choose|j: int| 0 <= j < init.len() && init[j].id == regs[k].id;
                assert(cs[j] == init[j]);
            }
            if regs[k].id == c.id {
                assert(cs[cs.len() - 1] == c);
            }
            if exists|j: int| 0 <= j < cs.len() && cs[j].id == regs[k].id {
                let j = choose|j: int| 0 <= j < cs.len() && cs[j].id == regs[k].id;
                if j < cs.len() - 1 {
                    assert(init[j] == cs[j]);
                }
            }
            match index_of_id(mid, c.id) {
                Some(i) => {
                    if i != k {
                        assert(mid[i].id == regs[i].id);
                        assert(regs[k].id != c.id);
                    }
                },
                None => {},
            }
        };
    }
}

/// Committing registrations with distinct ids gives each registration the
/// binding of the committed one with its id.
pub proof fn lemma_commit_bindings(regs: Seq<RegisteredBinding>, cs: Seq<RegisteredBinding>)
    requires
        ids_unique(regs),
        ids_unique(cs),
    ensures
        commit_all(regs, cs).len() == regs.len(),
        forall|m: int, j: int|
            #![trigger commit_all(regs, cs)[m], cs[j]]
            0 <= m < regs.len() && 0 <= j < cs.len() && cs[j].id == regs[m].id ==> commit_all(
                regs,
                cs,
            )[m].binding == cs[j].binding,
    decreases cs.len(),
{
    lemma_commit_keeps_ids(regs, cs);
    if cs.len() > 0 {
        let init = cs.drop_last();
        let c = cs.last();
        let last = cs.len() - 1;
        assert forall|a: int, b: int| 0 <= a < b < init.len() implies init[a].id != init[b].id by {
            assert(init[a] == cs[a]);
            assert(init[b] == cs[b]);
        };
        lemma_commit_bindings(regs, init);
        lemma_commit_keeps_ids(regs, init);
        let mid = commit_all(regs, init);
        lemma_index_of_id(mid, c.id);
        assert forall|m: int, j: int|
            0 <= m < regs.len() && 0 <= j < cs.len() && cs[j].id == regs[m].id implies commit_all(
            regs,
            cs,
        )[m].binding == cs[j].binding by {
            assert(cs[last] == c);
            match index_of_id(mid, c.id) {
                Some(i) => {
                    assert(mid[i].id == regs[i].id);
                    if i == m {
                        if j < last {
                            assert(cs[j].id != cs[last].id);
                        }
                    } else {
                        if j == last {
                            assert(regs[i].id != regs[m].id);
                        }
                        assert(init[j] == cs[j]);
                    }
                },
                None => {
                    if j == last {
                        assert(mid[m].id == regs[m].id);
                    }
                    assert(init[j] == cs[j]);
                },
            }
        };
    }
}

/// Dropping the registrations with one id keeps the others' ids distinct.
proof fn lemma_forget_keeps_ids_unique(regs: Seq<RegisteredBinding>, id: i32)
    requires
        ids_unique(regs),
    ensures
        ids_unique(regs.filter(|reg: RegisteredBinding| reg.id != id)),
    decreases regs.len(),
{
    reveal_with_fuel(Seq::<_>::filter, 1);
    if regs.len() > 0 {
        let pred = |reg: RegisteredBinding| reg.id != id;
        let init = regs.drop_last();
        assert(ids_unique(init));
        lemma_forget_keeps_ids_unique(init, id);
        let sub = init.filter(pred);
        assert(regs.filter(pred) == if pred(regs.last()) {
            sub.push(regs.last())
        } else {
            sub
        });
        assert forall|k: int| 0 <= k < sub.len() implies #[trigger] sub[k].id != regs.last().id by {
            assert(sub.contains(sub[k]));
            init.lemma_filter_contains_rev(pred, sub[k]);
            let m = choose|m: int| 0 <= m < init.len() && init[m] == sub[k];
            assert(regs[m] == init[m]);
        };
    }
}

/// What every change to the registrations keeps: ids stay distinct when a
/// free id is staged, when an apply request commits, when an id is
/// forgotten, and when a registration is readmitted.
pub proof fn lemma_registration_ids_stay_unique(
    regs: Seq<RegisteredBinding>,
    staged: RegisteredBinding,
    committed: Seq<RegisteredBinding>,
    forgotten: i32,
    readmitted: RegisteredBinding,
)
    requires
        ids_unique(regs),
    ensures
        !id_in_use(regs, staged.id as int) ==> ids_unique(regs.push(staged)),
        ids_unique(commit_all(regs, committed)),
        ids_unique(regs.filter(|reg: RegisteredBinding| reg.id != forgotten)),
        ids_unique(
            if id_in_use(regs, readmitted.id as int) {
                regs
            } else {
                regs.push(RegisteredBinding { enabled: true, ..readmitted })
            },
        ),
{
    lemma_commit_keeps_ids(regs, committed);
    lemma_forget_keeps_ids_unique(regs, forgotten);
    if !id_in_use(regs, staged.id as int) {
        assert forall|i: int, j: int| 0 <= i < j < regs.len() + 1 implies #[trigger] regs.push(
            staged,
        )[i].id != #[trigger] regs.push(staged)[j].id by {
            if j == regs.len() {
                assert(regs.push(staged)[i] == regs[i]);
            }
        };
    }
    if !id_in_use(regs, readmitted.id as int) {
        let r = RegisteredBinding { enabled: true, ..readmitted };
        assert forall|i: int, j: int| 0 <= i < j < regs.len() + 1 implies #[trigger] regs.push(
            r,
        )[i].id != #[trigger] regs.push(r)[j].id by {
            if j == regs.len() {
                assert(regs.push(r)[i] == regs[i]);
            }
        };
    }
}

impl OwnerState {
    /// The index of the first registration with the id `id`.
    pub fn find_id(&self, id: i32) -> (r: Option<usize>)
        ensures
            match (r, index_of_id(self.registered@, id)) {
                (Some(i), Some(j)) => i == j,
                (None, None) => true,
                _ => false,
            },
    {
        let mut i: usize = 0;
        assert(self.registered@.subrange(0, self.registered.len() as int) =~= self.registered@);
        while i < self.registered.len()
            invariant
                i <= self.registered.len(),
                index_of_id(self.registered@, id) == (match index_of_id(
                    self.registered@.subrange(i as int, self.registered.len() as int),
                    id,
                ) {
                    Some(k) => Some(k + i),
                    None => None,
                }),
            decreases self.registered.len() - i,
        {
            let ghost rest = self.registered@.subrange(i as int, self.registered.len() as int);
            assert(rest[0] == self.registered@[i as int]);
            assert(rest.drop_first() =~= self.registered@.subrange(
                i + 1,
                self.registered.len() as int,
            ));
            if self.registered[i].id == id {
                return Some(i);
            }
            i = i + 1;
        }
        assert(self.registered@.subrange(
            self.registered.len() as int,
            self.registered.len() as int,
        ).len() == 0);
        None
    }

    /// Keeps a registration an apply request made, disabled until the
    /// request commits.
    pub fn stage(&mut self, id: i32, binding: HotkeyBinding) -> (r: RegisteredBinding)
        ensures
            r == (RegisteredBinding { id, binding, enabled: false }),
            final(self).registered@ == old(self).registered@.push(r),
            final(self).next_id == old(self).next_id,
            final(self).hook == old(self).hook,
            final(self).hook_table == old(self).hook_table,
    {
        let r = RegisteredBinding { id, binding, enabled: false };
        self.registered.push(r);
        r
    }

    /// Commits an apply request: each committed registration, in order, gives
    /// its binding to the first registration with its id and enables it.
    pub fn commit(&mut self, committed: &[RegisteredBinding])
        ensures
            final(self).registered@ == commit_all(old(self).registered@, committed@),
            final(self).next_id == old(self).next_id,
            final(self).hook == old(self).hook,
            final(self).hook_table == old(self).hook_table,
    {
        let mut k: usize = 0;
        assert(committed@.subrange(0, 0) =~= Seq::<RegisteredBinding>::empty());
        while k < committed.len()
            invariant
                k <= committed.len(),
                self.registered@ == commit_all(old(self).registered@, committed@.subrange(0, k as int)),
                self.next_id == old(self).next_id,
                self.hook == old(self).hook,
                self.hook_table == old(self).hook_table,
            decreases committed.len() - k,
        {
            let c = committed[k];
            assert(committed@.subrange(0, k + 1).drop_last() =~= committed@.subrange(0, k as int));
            assert(committed@.subrange(0, k + 1).last() == c);
            proof {
                lemma_index_of_id(self.registered@, c.id);
            }
            match self.find_id(c.id) {
                Some(i) => {
                    let owned = self.registered[i];
                    self.registered.set(
                        i,
                        RegisteredBinding { id: owned.id, binding: c.binding, enabled: true },
                    );
                },
                None => {},
            }
            k = k + 1;
        }
        assert(committed@.subrange(0, committed.len() as int) =~= committed@);
    }

    /// Puts back a registration a failed apply removed, enabled, unless one
    /// with its id is already held.
    pub fn readmit(&mut self, binding: RegisteredBinding)
        ensures
            final(self).registered@ == (if id_in_use(old(self).registered@, binding.id as int) {
                old(self).registered@
            } else {
                old(self).registered@.push(RegisteredBinding { enabled: true, ..binding })
            }),
            final(self).next_id == old(self).next_id,
            final(self).hook == old(self).hook,
            final(self).hook_table == old(self).hook_table,
    {
        if !self.id_in_use(binding.id) {
            self.registered.push(RegisteredBinding { enabled: true, ..binding });
        }
    }
}

/// Whether a queued apply request is still worth processing: not cancelled
/// and not past its deadline.
pub fn request_is_live(cancelled: bool, now: u64, deadline: u64) -> (r: bool)
    ensures
        r == (!cancelled && now < deadline),
{
    !cancelled && now < deadline
}

/// Whether some binding of `bindings` can take over `old` as it is.
pub fn any_reuses(old: RegisteredBinding, bindings: &[HotkeyBinding]) -> (r: bool)
    ensures
        r == reusable_by(old, bindings@),
{
    let mut k: usize = 0;
    while k < bindings.len()
        invariant
            k <= bindings.len(),
            forall|j: int| 0 <= j < k ==> !can_reuse_spec(old.binding, bindings@[j]),
        decreases bindings.len() - k,
    {
        if can_reuse_registration(old.binding, bindings[k]) {
            return true;
        }
        k = k + 1;
    }
    false
}

/// The index of the first retained registration that can serve `b`.
pub fn find_reusable(retained: &[RegisteredBinding], b: HotkeyBinding) -> (r: Option<usize>)
    ensures
        match (r, first_reusable(retained@, b)) {
            (Some(i), Some(j)) => i == j,
            (None, None) => true,
            _ => false,
        },
{
    let mut i: usize = 0;
    assert(retained@.subrange(0, retained.len() as int) =~= retained@);
    while i < retained.len()
        invariant
            i <= retained.len(),
            first_reusable(retained@, b) == (match first_reusable(
                retained@.subrange(i as int, retained.len() as int),
                b,
            ) {
                Some(k) => Some(k + i),
                None => None,
            }),
        decreases retained.len() - i,
    {
        let ghost rest = retained@.subrange(i as int, retained.len() as int);
        assert(rest[0] == retained@[i as int]);
        assert(rest.drop_first() =~= retained@.subrange(i + 1, retained.len() as int));
        if can_reuse_registration(retained[i].binding, b) {
            return Some(i);
        }
        i = i + 1;
    }
    assert(retained@.subrange(retained.len() as int, retained.len() as int).len() == 0);
    None
}

/// How one binding of an apply request is routed before any native call.
#[derive(Debug, Clone, Copy, PartialEq, Eq)]
pub enum RouteDecision {
    /// Windows reserves the shortcut; it is reported with the reason.
    Unavailable(&'static str),
    /// An Enter key: only the hook can tell the two apart.
    Hook,
    /// The retained registration at this index serves the binding.
    Reuse(usize),
    /// The binding needs a new native registration.
    Register,
}

/// Routes one binding: reserved shortcuts are unavailable, the Enter keys go
/// to the hook, a registration the request keeps is reused, and anything else
/// is registered anew.
pub fn decide_route(b: HotkeyBinding, retained: &[RegisteredBinding]) -> (r: RouteDecision)
    ensures
        match impossible_reason_spec(b.hotkey) {
            Some(reason) => r matches RouteDecision::Unavailable(s) && s@ == reason,
            None => if b.hotkey.key == crate::hotkey::KeyCode::Enter || b.hotkey.key
                == crate::hotkey::KeyCode::NumpadEnter {
                r == RouteDecision::Hook
            } else {
                match first_reusable(retained@, b) {
                    Some(i) => r == RouteDecision::Reuse(i as usize),
                    None => r == RouteDecision::Register,
                }
            },
        },
        r matches RouteDecision::Reuse(i) ==> i < retained.len() && can_reuse_spec(
            retained@[i as int].binding,
            b,
        ),
        r is Register ==> forall|j: int|
            0 <= j < retained.len() ==> !can_reuse_spec((#[trigger] retained@[j]).binding, b),
{
    proof {
        lemma_first_reusable(retained@, b);
    }
    if let Some(reason) = impossible_reason(b.hotkey) {
        return RouteDecision::Unavailable(reason);
    }
    if requires_extended_identity(b.hotkey.key) {
        return RouteDecision::Hook;
    }
    match find_reusable(retained, b) {
        Some(i) => RouteDecision::Reuse(i),
        None => RouteDecision::Register,
    }
}

/// The report entry of a binding routed to the hook for its Enter key.
pub fn hook_status(b: HotkeyBinding) -> (r: HotkeyBindingStatus)
    ensures
        r.binding == b,
        r.route == HotkeyRoute::Intercepted,
        r.reason matches Some(s) && s@ == "uses the hook to preserve Enter key identity"@,
{
    status(b, HotkeyRoute::Intercepted, Some("uses the hook to preserve Enter key identity".to_owned()))
}

/// What `RegisterHotKey` answered for a new registration.
#[derive(Debug, Clone, PartialEq, Eq)]
pub enum RegisterOutcome {
    Registered,
    /// Windows or another application already owns the shortcut.
    AlreadyRegistered,
    /// Any other failure, with the system's message.
    Failed(String),
}

/// The report entry of a binding after its registration attempt: registered,
/// intercepted by the hook when the shortcut is taken, or unavailable.
pub fn registration_status(b: HotkeyBinding, outcome: RegisterOutcome) -> (r: HotkeyBindingStatus)
    ensures
        r.binding == b,
        match outcome {
            RegisterOutcome::Registered => r.route == HotkeyRoute::Registered && r.reason is None,
            RegisterOutcome::AlreadyRegistered => r.route == HotkeyRoute::Intercepted && (
            r.reason matches Some(s) && s@ == "already owned by Windows or another application"@),
            RegisterOutcome::Failed(m) => r.route == HotkeyRoute::Unavailable && (r.reason matches Some(
                s,
            ) && s@ == "RegisterHotKey failed: "@ + m@),
        },
{
    match outcome {
        RegisterOutcome::Registered => status(b, HotkeyRoute::Registered, None),
        RegisterOutcome::AlreadyRegistered => status(
            b,
            HotkeyRoute::Intercepted,
            Some("already owned by Windows or another application".to_owned()),
        ),
        RegisterOutcome::Failed(m) => {
            let mut reason = "RegisterHotKey failed: ".to_owned();
            reason.append(m.as_str());
            status(b, HotkeyRoute::Unavailable, Some(reason))
        },
    }
}

/// How many report entries took each route: registered, intercepted and
/// unavailable.
pub open spec fn route_count(s: Seq<HotkeyBindingStatus>, route: HotkeyRoute) -> nat {
    s.filter(|e: HotkeyBindingStatus| e.route == route).len()
}

pub fn route_counts(statuses: &[HotkeyBindingStatus]) -> (r: (usize, usize, usize))
    ensures
        r.0 == route_count(statuses@, HotkeyRoute::Registered),
        r.1 == route_count(statuses@, HotkeyRoute::Intercepted),
        r.2 == route_count(statuses@, HotkeyRoute::Unavailable),
{
    let mut registered: usize = 0;
    let mut intercepted: usize = 0;
    let mut unavailable_count: usize = 0;
    let mut i: usize = 0;
    while i < statuses.len()
        invariant
            i <= statuses.len(),
            registered == route_count(statuses@.subrange(0, i as int), HotkeyRoute::Registered),
            intercepted == route_count(statuses@.subrange(0, i as int), HotkeyRoute::Intercepted),
            unavailable_count == route_count(
                statuses@.subrange(0, i as int),
                HotkeyRoute::Unavailable,
            ),
            registered + intercepted + unavailable_count <= i,
        decreases statuses.len() - i,
    {
        proof {
            reveal_with_fuel(Seq::<_>::filter, 1);
            assert(statuses@.subrange(0, i + 1).drop_last() =~= statuses@.subrange(0, i as int));
        }
        match statuses[i].route {
            HotkeyRoute::Registered => registered = registered + 1,
            HotkeyRoute::Intercepted => intercepted = intercepted + 1,
            HotkeyRoute::Unavailable => unavailable_count = unavailable_count + 1,
        }
        i = i + 1;
    }
    assert(statuses@.subrange(0, statuses.len() as int) =~= statuses@);
    (registered, intercepted, unavailable_count)
}

/// Where an apply request stands in the race between the owner thread
/// committing it and the caller giving up on it.
#[derive(Debug, Clone, Copy, PartialEq, Eq, Structural)]
pub enum RequestState {
    Pending,
    Committing,
    Cancelled,
}

/// `cancel` as a transition: only a pending request can be cancelled.
pub open spec fn cancel_step(s: RequestState) -> (RequestState, bool) {
    if s == RequestState::Pending {
        (RequestState::Cancelled, true)
    } else {
        (s, false)
    }
}

/// `begin_commit` as a transition: only a pending request can commit.
pub open spec fn commit_step(s: RequestState) -> (RequestState, bool) {
    if s == RequestState::Pending {
        (RequestState::Committing, true)
    } else {
        (s, false)
    }
}

/// The shared decision of one apply request.
pub struct ApplyControl {
    state: RequestState,
}

impl View for ApplyControl {
    type V = RequestState;

    closed spec fn view(&self) -> RequestState {
        self.state
    }
}

impl ApplyControl {
    /// A pending request.
    pub fn new() -> (r: ApplyControl)
        ensures
            r@ == RequestState::Pending,
    {
        ApplyControl { state: RequestState::Pending }
    }

    /// Cancels a pending request; says whether this call did it.
    pub fn cancel(&mut self) -> (r: bool)
        ensures
            (final(self)@, r) == cancel_step(old(self)@),
    {
        if self.state == RequestState::Pending {
            self.state = RequestState::Cancelled;
            true
        } else {
            false
        }
    }

    pub fn is_cancelled(&self) -> (r: bool)
        ensures
            r == (self@ == RequestState::Cancelled),
    {
        self.state == RequestState::Cancelled
    }

    /// Starts committing a pending request; says whether this call did it.
    pub fn begin_commit(&mut self) -> (r: bool)
        ensures
            (final(self)@, r) == commit_step(old(self)@),
    {
        if self.state == RequestState::Pending {
            self.state = RequestState::Committing;
            true
        } else {
            false
        }
    }

    /// Cancels the request once `now` reaches `deadline` (both in the same
    /// monotonic nanoseconds), then says whether it is cancelled.
    pub fn cancelled_or_expired(&mut self, now: u64, deadline: u64) -> (r: bool)
        ensures
            final(self)@ == (if now >= deadline {
                cancel_step(old(self)@).0
            } else {
                old(self)@
            }),
            r == (final(self)@ == RequestState::Cancelled),
    {
        if now >= deadline {
            self.cancel();
        }
        self.is_cancelled()
    }
}

/// Cancelling and committing have one winner: whichever succeeds first, the
/// other then fails and leaves the state as the winner set it.
pub proof fn lemma_cancel_commit_one_winner(s: RequestState)
    ensures
        cancel_step(s).1 ==> !commit_step(cancel_step(s).0).1 && commit_step(cancel_step(s).0).0
            == RequestState::Cancelled,
        commit_step(s).1 ==> !cancel_step(commit_step(s).0).1 && cancel_step(commit_step(s).0).0
            == RequestState::Committing,
{
}

/// The first command the owner thread may receive at startup.
#[derive(Debug, Clone, Copy, PartialEq, Eq, Structural)]
pub enum StartCommand {
    Start,
    Apply,
    Shutdown,
}

/// What the owner thread does with its first command.
#[derive(Debug, Clone, Copy, PartialEq, Eq, Structural)]
pub enum StartDecision {
    /// Enter the message loop.
    Run,
    /// Exit without serving anything.
    Exit,
    /// Answer the early apply request with an error, then exit.
    RejectApplyAndExit,
}

/// The startup handshake: the owner thread only enters its message loop on
/// an explicit start command that arrives before startup is cancelled. A
/// closed channel or a timeout (`None`) and a shutdown both end the thread.
pub fn start_decision(cancelled: bool, received: Option<StartCommand>) -> (r: StartDecision)
    ensures
        r == (if cancelled {
            StartDecision::Exit
        } else {
            match received {
                Some(StartCommand::Start) => StartDecision::Run,
                Some(StartCommand::Apply) => StartDecision::RejectApplyAndExit,
                _ => StartDecision::Exit,
            }
        }),
{
    if cancelled {
        return StartDecision::Exit;
    }
    match received {
        Some(StartCommand::Start) => StartDecision::Run,
        Some(StartCommand::Apply) => StartDecision::RejectApplyAndExit,
        Some(StartCommand::Shutdown) | None => StartDecision::Exit,
    }
}

/// Whether the owner thread proceeds to its message loop.
pub fn await_start(cancelled: bool, received: Option<StartCommand>) -> (r: bool)
    ensures
        r == (!cancelled && received == Some(StartCommand::Start)),
{
    start_decision(cancelled, received) == StartDecision::Run
}


/// `WM_HOTKEY`: a registered hotkey was pressed.
pub const WM_HOTKEY: u32 = 0x0312;

/// The private message that wakes the owner thread to drain its commands
/// (`WM_APP + 0x544`).
pub const COMMAND_MESSAGE: u32 = 0x8544;

/// What the owner thread's message loop does with one `GetMessageW` result.
#[derive(Debug, Clone, Copy, PartialEq, Eq, Structural)]
pub enum LoopStep {
    /// The queue is closed (`WM_QUIT`) or broken: release everything and end.
    Exit,
    /// Drain the command channel.
    DrainCommands,
    /// Fire the action of the registered hotkey with this id.
    DispatchHotkey(i32),
    /// Translate and dispatch the message as usual.
    Forward,
}

/// Classifies one message: `GetMessageW` returning 0 or -1 ends the loop,
/// the command message drains commands, `WM_HOTKEY` dispatches its id
/// (carried in `wParam`), and anything else is forwarded.
pub fn loop_step(result: i32, message: u32, wparam_id: i32) -> (r: LoopStep)
    ensures
        r == (if result == 0 || result == -1 {
            LoopStep::Exit
        } else if message == COMMAND_MESSAGE {
            LoopStep::DrainCommands
        } else if message == WM_HOTKEY {
            LoopStep::DispatchHotkey(wparam_id)
        } else {
            LoopStep::Forward
        }),
{
    if result == 0 || result == -1 {
        LoopStep::Exit
    } else if message == COMMAND_MESSAGE {
        LoopStep::DrainCommands
    } else if message == WM_HOTKEY {
        LoopStep::DispatchHotkey(wparam_id)
    } else {
        LoopStep::Forward
    }
}

/// A queued command, as the owner thread drains it.
#[derive(Debug, Clone, Copy, PartialEq, Eq, Structural)]
pub enum CommandKind {
    Start,
    Apply,
    Shutdown,
}

/// What draining does with one command.
#[derive(Debug, Clone, Copy, PartialEq, Eq, Structural)]
pub enum CommandStep {
    /// Nothing to do; keep draining.
    Ignore,
    /// Answer the apply request with an error: it was cancelled or expired
    /// before processing.
    RejectStale,
    /// Process the apply request.
    Apply,
    /// Stop the thread.
    Stop,
}

/// The decision for one drained command: a late start is ignored, an apply
/// is processed only while it is live, and a shutdown stops the thread.
pub fn command_step(kind: CommandKind, cancelled: bool, now: u64, deadline: u64) -> (r: CommandStep)
    ensures
        r == (match kind {
            CommandKind::Start => CommandStep::Ignore,
            CommandKind::Apply => if !cancelled && now < deadline {
                CommandStep::Apply
            } else {
                CommandStep::RejectStale
            },
            CommandKind::Shutdown => CommandStep::Stop,
        }),
{
    match kind {
        CommandKind::Start => CommandStep::Ignore,
        CommandKind::Apply => if request_is_live(cancelled, now, deadline) {
            CommandStep::Apply
        } else {
            CommandStep::RejectStale
        },
        CommandKind::Shutdown => CommandStep::Stop,
    }
}

} // verus!
