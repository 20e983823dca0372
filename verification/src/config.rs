//! The integer-valued parts of the user configuration: animation tuning, the
//! size cycle, what a repeated press does, and the table of key bindings.

use vstd::prelude::*;

use crate::action::WindowAction;
use crate::hotkey::{rendered, Hotkey, KeyCode, MetaStyle, Modifiers};
use crate::text::{chars_eq, chars_of};

verus! {

/// Name of the config file inside the platform config directory.
pub const CONFIG_FILE_NAME: &'static str = "config.json";

/// Bounds for the animation duration, in milliseconds.
pub const MIN_ANIMATION_DURATION_MS: u32 = 40;

pub const MAX_ANIMATION_DURATION_MS: u32 = 1000;

/// Bounds for the animation frame rate.
pub const MIN_ANIMATION_FPS: u32 = 15;

pub const MAX_ANIMATION_FPS: u32 = 240;

/// The default duration of a window move.
pub const DEFAULT_ANIMATION_DURATION_MS: u32 = 450;

/// The default frame rate of a window move.
pub const DEFAULT_ANIMATION_FPS: u32 = 90;

/// How the animation is driven, derived from the configuration.
#[derive(Debug, Clone, Copy, PartialEq, Eq, Structural)]
pub struct AnimationParams {
    /// Roughly how long the movement takes, end to end.
    pub duration_ms: u32,
    /// How many frames per second the driver aims to emit.
    pub fps: u32,
}

/// How a window travels to its new frame.
#[derive(Debug, Clone, Copy, PartialEq, Eq, Structural)]
pub struct AnimationConfig {
    /// Animate window moves instead of applying them in one jump.
    pub enabled: bool,
    pub duration_ms: u32,
    pub fps: u32,
}

/// `v` clamped into `[lo, hi]`.
pub open spec fn clamp_u32(v: u32, lo: u32, hi: u32) -> u32 {
    if v < lo {
        lo
    } else if v > hi {
        hi
    } else {
        v
    }
}

/// A tuning knob after normalization: zero means "unset" and takes the
/// default, then the value is clamped into its bounds.
pub open spec fn normalized_knob(v: u32, default: u32, lo: u32, hi: u32) -> u32 {
    clamp_u32(
        if v == 0 {
            default
        } else {
            v
        },
        lo,
        hi,
    )
}

fn clamp(v: u32, lo: u32, hi: u32) -> (r: u32)
    requires
        lo <= hi,
    ensures
        r == clamp_u32(v, lo, hi),
{
    if v < lo {
        lo
    } else if v > hi {
        hi
    } else {
        v
    }
}

impl AnimationConfig {
    /// Animation on, at the default duration and frame rate.
    pub fn default() -> (r: AnimationConfig)
        ensures
            r == (AnimationConfig {
                enabled: true,
                duration_ms: DEFAULT_ANIMATION_DURATION_MS,
                fps: DEFAULT_ANIMATION_FPS,
            }),
    {
        AnimationConfig {
            enabled: true,
            duration_ms: DEFAULT_ANIMATION_DURATION_MS,
            fps: DEFAULT_ANIMATION_FPS,
        }
    }

    /// Clamps the tuning knobs, mapping nonsense to the defaults so a
    /// hand-edited config can never stall or spin the frame pump.
    pub fn normalize(&mut self)
        ensures
            final(self).enabled == old(self).enabled,
            final(self).duration_ms == normalized_knob(
                old(self).duration_ms,
                DEFAULT_ANIMATION_DURATION_MS,
                MIN_ANIMATION_DURATION_MS,
                MAX_ANIMATION_DURATION_MS,
            ),
            final(self).fps == normalized_knob(
                old(self).fps,
                DEFAULT_ANIMATION_FPS,
                MIN_ANIMATION_FPS,
                MAX_ANIMATION_FPS,
            ),
    {
        if self.duration_ms == 0 {
            self.duration_ms = DEFAULT_ANIMATION_DURATION_MS;
        }
        self.duration_ms = clamp(
            self.duration_ms,
            MIN_ANIMATION_DURATION_MS,
            MAX_ANIMATION_DURATION_MS,
        );
        if self.fps == 0 {
            self.fps = DEFAULT_ANIMATION_FPS;
        }
        self.fps = clamp(self.fps, MIN_ANIMATION_FPS, MAX_ANIMATION_FPS);
    }

    /// The parameters the animator is driven with.
    pub fn params(&self) -> (r: AnimationParams)
        ensures
            r == (AnimationParams { duration_ms: self.duration_ms, fps: self.fps }),
    {
        AnimationParams { duration_ms: self.duration_ms, fps: self.fps }
    }
}

/// A normalized animation configuration stays within its bounds, and
/// normalizing it again changes nothing.
pub proof fn lemma_animation_normalize_settles(duration_ms: u32, fps: u32)
    ensures
        ({
            let d = normalized_knob(
                duration_ms,
                DEFAULT_ANIMATION_DURATION_MS,
                MIN_ANIMATION_DURATION_MS,
                MAX_ANIMATION_DURATION_MS,
            );
            let f = normalized_knob(fps, DEFAULT_ANIMATION_FPS, MIN_ANIMATION_FPS, MAX_ANIMATION_FPS);
            &&& MIN_ANIMATION_DURATION_MS <= d <= MAX_ANIMATION_DURATION_MS
            &&& MIN_ANIMATION_FPS <= f <= MAX_ANIMATION_FPS
            &&& normalized_knob(
                d,
                DEFAULT_ANIMATION_DURATION_MS,
                MIN_ANIMATION_DURATION_MS,
                MAX_ANIMATION_DURATION_MS,
            ) == d
            &&& normalized_knob(f, DEFAULT_ANIMATION_FPS, MIN_ANIMATION_FPS, MAX_ANIMATION_FPS) == f
        }),
{
}

/// What a repeated press of an already-satisfied action does.
#[derive(Debug, Clone, Copy, PartialEq, Eq, Structural)]
pub enum SubsequentExecutionMode {
    /// Repeating an action walks the window through the configured sizes.
    CycleSizes,
    /// Repeating an action does nothing.
    DoNothing,
}

/// The persisted identifier of each mode.
pub open spec fn mode_id(m: SubsequentExecutionMode) -> Seq<char> {
    match m {
        SubsequentExecutionMode::CycleSizes => "cycle-sizes"@,
        SubsequentExecutionMode::DoNothing => "do-nothing"@,
    }
}

impl SubsequentExecutionMode {
    /// Cycling is the default.
    pub fn default() -> (r: SubsequentExecutionMode)
        ensures
            r == SubsequentExecutionMode::CycleSizes,
    {
        SubsequentExecutionMode::CycleSizes
    }

    /// Stable config identifier.
    pub fn id(self) -> (r: &'static str)
        ensures
            r@ == mode_id(self),
    {
        match self {
            SubsequentExecutionMode::CycleSizes => "cycle-sizes",
            SubsequentExecutionMode::DoNothing => "do-nothing",
        }
    }

    /// The mode with the identifier `id`, if any.
    pub fn from_id(id: &str) -> (r: Option<SubsequentExecutionMode>)
        ensures
            match r {
                Some(m) => mode_id(m) == id@,
                None => forall|m: SubsequentExecutionMode| mode_id(m) != id@,
            },
    {
        let wanted = chars_of(id);
        let a = chars_of(SubsequentExecutionMode::CycleSizes.id());
        if crate::text::chars_eq(a.as_slice(), wanted.as_slice()) {
            return Some(SubsequentExecutionMode::CycleSizes);
        }
        let b = chars_of(SubsequentExecutionMode::DoNothing.id());
        if crate::text::chars_eq(b.as_slice(), wanted.as_slice()) {
            return Some(SubsequentExecutionMode::DoNothing);
        }
        proof {
            assert forall|m: SubsequentExecutionMode| mode_id(m) != id@ by {
                match m {
                    SubsequentExecutionMode::CycleSizes => {},
                    SubsequentExecutionMode::DoNothing => {},
                }
            }
        }
        None
    }

    /// An unknown persisted mode falls back to the default, so a config
    /// written by a newer build still opens.
    pub fn from_id_or_default(id: &str) -> (r: SubsequentExecutionMode)
        ensures
            (exists|m: SubsequentExecutionMode| mode_id(m) == id@) ==> mode_id(r) == id@,
            (forall|m: SubsequentExecutionMode| mode_id(m) != id@) ==> r
                == SubsequentExecutionMode::CycleSizes,
    {
        match SubsequentExecutionMode::from_id(id) {
            Some(m) => m,
            None => SubsequentExecutionMode::CycleSizes,
        }
    }
}

/// One step of a size cycle, as a fraction of the work area.
#[derive(Debug, Clone, Copy, PartialEq, Eq, Hash, Structural)]
pub enum CycleSize {
    OneQuarter,
    OneThird,
    OneHalf,
    TwoThirds,
    ThreeQuarters,
}

/// The persisted identifier of each size.
pub open spec fn size_id(s: CycleSize) -> Seq<char> {
    match s {
        CycleSize::OneQuarter => "one-quarter"@,
        CycleSize::OneThird => "one-third"@,
        CycleSize::OneHalf => "one-half"@,
        CycleSize::TwoThirds => "two-thirds"@,
        CycleSize::ThreeQuarters => "three-quarters"@,
    }
}

/// Position of a size in the canonical cycle: start at a half, grow to the
/// largest size, then wrap to the smallest and grow back.
pub open spec fn rank_of(s: CycleSize) -> int {
    match s {
        CycleSize::OneHalf => 0,
        CycleSize::TwoThirds => 1,
        CycleSize::ThreeQuarters => 2,
        CycleSize::OneQuarter => 3,
        CycleSize::OneThird => 4,
    }
}

/// Every size in cycle order.
pub open spec fn cycle_order() -> Seq<CycleSize> {
    seq![
        CycleSize::OneHalf,
        CycleSize::TwoThirds,
        CycleSize::ThreeQuarters,
        CycleSize::OneQuarter,
        CycleSize::OneThird,
    ]
}

impl CycleSize {
    /// Every size, smallest first.
    pub const ALL: [CycleSize; 5] = [
        CycleSize::OneQuarter,
        CycleSize::OneThird,
        CycleSize::OneHalf,
        CycleSize::TwoThirds,
        CycleSize::ThreeQuarters,
    ];

    /// The size a cycle always starts from.
    pub const FIRST: CycleSize = CycleSize::OneHalf;

    /// Stable config identifier; these strings are persisted.
    pub fn id(self) -> (r: &'static str)
        ensures
            r@ == size_id(self),
    {
        match self {
            CycleSize::OneQuarter => "one-quarter",
            CycleSize::OneThird => "one-third",
            CycleSize::OneHalf => "one-half",
            CycleSize::TwoThirds => "two-thirds",
            CycleSize::ThreeQuarters => "three-quarters",
        }
    }

    /// Human-readable label for the settings window.
    pub fn label(self) -> (r: &'static str)
        ensures
            r@ == (match self {
                CycleSize::OneQuarter => "One Quarter"@,
                CycleSize::OneThird => "One Third"@,
                CycleSize::OneHalf => "One Half"@,
                CycleSize::TwoThirds => "Two Thirds"@,
                CycleSize::ThreeQuarters => "Three Quarters"@,
            }),
    {
        match self {
            CycleSize::OneQuarter => "One Quarter",
            CycleSize::OneThird => "One Third",
            CycleSize::OneHalf => "One Half",
            CycleSize::TwoThirds => "Two Thirds",
            CycleSize::ThreeQuarters => "Three Quarters",
        }
    }

    /// The size at position `i` of the cycle.
    fn in_cycle_order(i: usize) -> (r: CycleSize)
        requires
            i < 5,
        ensures
            r == cycle_order()[i as int],
    {
        match i {
            0 => CycleSize::OneHalf,
            1 => CycleSize::TwoThirds,
            2 => CycleSize::ThreeQuarters,
            3 => CycleSize::OneQuarter,
            _ => CycleSize::OneThird,
        }
    }

    /// Position in the canonical cycle order.
    pub fn cycle_rank(self) -> (r: u8)
        ensures
            r == rank_of(self),
    {
        match self {
            CycleSize::OneHalf => 0,
            CycleSize::TwoThirds => 1,
            CycleSize::ThreeQuarters => 2,
            CycleSize::OneQuarter => 3,
            CycleSize::OneThird => 4,
        }
    }

    /// The size with the persisted identifier `id`, if any.
    pub fn from_id(id: &str) -> (r: Option<CycleSize>)
        ensures
            match r {
                Some(s) => size_id(s) == id@,
                None => forall|s: CycleSize| size_id(s) != id@,
            },
    {
        let wanted = chars_of(id);
        let mut i: usize = 0;
        while i < 5
            invariant
                wanted@ == id@,
                i <= 5,
                forall|j: int| 0 <= j < i ==> size_id(#[trigger] cycle_order()[j]) != id@,
            decreases 5 - i,
        {
            let s = CycleSize::in_cycle_order(i);
            let candidate = chars_of(s.id());
            if crate::text::chars_eq(candidate.as_slice(), wanted.as_slice()) {
                return Some(s);
            }
            i = i + 1;
        }
        proof {
            assert forall|s: CycleSize| size_id(s) != id@ by {
                assert(cycle_order()[rank_of(s)] == s);
            }
        }
        None
    }
}

/// The sizes of `sizes`, each once, in cycle order: what sorting by cycle
/// rank and dropping duplicates gives.
pub open spec fn normalized_sizes(sizes: Seq<CycleSize>) -> Seq<CycleSize> {
    cycle_order().filter(|s: CycleSize| sizes.contains(s))
}

/// Drops duplicates and puts the cycle into its canonical order, so the
/// sequence a user sees does not depend on the order the sizes were written.
pub fn normalize_cycle_sizes(sizes: &Vec<CycleSize>) -> (r: Vec<CycleSize>)
    ensures
        r@ == normalized_sizes(sizes@),
{
    let mut r: Vec<CycleSize> = Vec::new();
    let mut i: usize = 0;
    while i < 5
        invariant
            i <= 5,
            r@ == cycle_order().subrange(0, i as int).filter(|s: CycleSize| sizes@.contains(s)),
        decreases 5 - i,
    {
        let s = CycleSize::in_cycle_order(i);
        proof {
            reveal_with_fuel(Seq::<_>::filter, 1);
            assert(cycle_order().subrange(0, i + 1).drop_last() =~= cycle_order().subrange(
                0,
                i as int,
            ));
        }
        let mut found = false;
        let mut k: usize = 0;
        while k < sizes.len()
            invariant
                k <= sizes.len(),
                found == (exists|j: int| 0 <= j < k && sizes@[j] == s),
            decreases sizes.len() - k,
        {
            if sizes[k] == s {
                found = true;
            }
            k = k + 1;
        }
        if found {
            r.push(s);
        }
        i = i + 1;
    }
    assert(cycle_order().subrange(0, 5) =~= cycle_order());
    r
}

/// A normalized cycle holds exactly the sizes it was given, each once, in
/// strictly increasing cycle rank, and normalizing it again changes nothing.
pub proof fn lemma_normalized_sizes_canonical(sizes: Seq<CycleSize>)
    ensures
        forall|s: CycleSize| normalized_sizes(sizes).contains(s) <==> sizes.contains(s),
        forall|i: int, j: int|
            0 <= i < j < normalized_sizes(sizes).len() ==> rank_of(normalized_sizes(sizes)[i])
                < rank_of(normalized_sizes(sizes)[j]),
        normalized_sizes(normalized_sizes(sizes)) == normalized_sizes(sizes),
{
    let f = |s: CycleSize| sizes.contains(s);
    let n = normalized_sizes(sizes);
    let o = cycle_order();
    assert forall|s: CycleSize| n.contains(s) <==> sizes.contains(s) by {
        assert(o[rank_of(s)] == s);
        if n.contains(s) {
            let k = choose|k: int| 0 <= k < n.len() && n[k] == s;
            o.lemma_filter_pred(f, k);
        }
        if sizes.contains(s) {
            o.lemma_filter_contains(f, rank_of(s));
        }
    }
    lemma_filter_keeps_rank_order(o, f);
    let g = |s: CycleSize| n.contains(s);
    assert(o.filter(g) =~= o.filter(f)) by {
        assert(g =~= f);
    }
}

/// Filtering the cycle order keeps the survivors in strictly increasing rank.
proof fn lemma_filter_keeps_rank_order(o: Seq<CycleSize>, f: spec_fn(CycleSize) -> bool)
    requires
        forall|i: int, j: int| 0 <= i < j < o.len() ==> rank_of(o[i]) < rank_of(o[j]),
    ensures
        forall|i: int, j: int|
            0 <= i < j < o.filter(f).len() ==> rank_of(o.filter(f)[i]) < rank_of(o.filter(f)[j]),
    decreases o.len(),
{
    reveal_with_fuel(Seq::<_>::filter, 1);
    if o.len() > 0 {
        let rest = o.drop_last();
        assert forall|i: int, j: int| 0 <= i < j < rest.len() implies rank_of(rest[i]) < rank_of(
            rest[j],
        ) by {
            assert(rest[i] == o[i] && rest[j] == o[j]);
        }
        lemma_filter_keeps_rank_order(rest, f);
        let fr = rest.filter(f);
        if f(o.last()) {
            assert forall|i: int| 0 <= i < fr.len() implies rank_of(fr[i]) < rank_of(o.last()) by {
                assert(fr.contains(fr[i]));
                rest.lemma_filter_contains_rev(f, fr[i]);
                let k = choose|k: int| 0 <= k < rest.len() && rest[k] == fr[i];
                assert(o[k] == rest[k]);
            }
        }
    }
}

/// Whether a repeat should cycle at all: the mode has to allow it and there
/// has to be at least one size to cycle through.
pub fn cycles_sizes(mode: SubsequentExecutionMode, sizes: &[CycleSize]) -> (r: bool)
    ensures
        r == (mode == SubsequentExecutionMode::CycleSizes && sizes.len() > 0),
{
    mode == SubsequentExecutionMode::CycleSizes && sizes.len() > 0
}

/// A conflict between several actions bound to the same hotkey.
#[derive(Debug, Clone, PartialEq, Eq)]
pub struct Conflict {
    pub hotkey: Hotkey,
    pub actions: Vec<WindowAction>,
}

/// The hotkey bound to `a` in `m`: absent and `None` both mean unbound.
pub open spec fn bound(m: Map<WindowAction, Option<Hotkey>>, a: WindowAction) -> Option<Hotkey> {
    if m.contains_key(a) {
        m[a]
    } else {
        None
    }
}

/// `set_binding` on the map: binding `hotkey` to `action` first unbinds every
/// other action that used it.
pub open spec fn with_binding(
    m: Map<WindowAction, Option<Hotkey>>,
    action: WindowAction,
    hotkey: Option<Hotkey>,
) -> Map<WindowAction, Option<Hotkey>> {
    let cleared = match hotkey {
        Some(hk) => Map::new(
            |x: WindowAction| m.contains_key(x),
            |x: WindowAction|
                if x != action && m[x] == Some(hk) {
                    None
                } else {
                    m[x]
                },
        ),
        None => m,
    };
    cleared.insert(action, hotkey)
}

/// Every action in the canonical order.
pub open spec fn action_order() -> Seq<WindowAction> {
    Seq::new(11, |i: int| WindowAction::at(i))
}

/// The bound (hotkey, action) pairs of `m`, in action order.
pub open spec fn active_pairs(m: Map<WindowAction, Option<Hotkey>>) -> Seq<(Hotkey, WindowAction)> {
    action_order().filter(|a: WindowAction| bound(m, a) is Some).map_values(
        |a: WindowAction| (bound(m, a)->0, a),
    )
}

/// The entries of `m`, in action order.
pub open spec fn entries_of(m: Map<WindowAction, Option<Hotkey>>) -> Seq<
    (WindowAction, Option<Hotkey>),
> {
    action_order().filter(|a: WindowAction| m.contains_key(a)).map_values(
        |a: WindowAction| (a, m[a]),
    )
}

/// The table of key bindings: at most one entry per action, kept in the
/// canonical action order. An absent entry and an entry of `None` are both
/// unbound, but only present entries are persisted.
#[derive(Debug, Clone, PartialEq, Eq)]
pub struct Bindings {
    slots: [Option<Option<Hotkey>>; 11],
}

impl View for Bindings {
    type V = Map<WindowAction, Option<Hotkey>>;

    closed spec fn view(&self) -> Map<WindowAction, Option<Hotkey>> {
        Map::new(
            |a: WindowAction| self.slots@[a.ordinal()] is Some,
            |a: WindowAction| self.slots@[a.ordinal()]->0,
        )
    }
}

proof fn lemma_at_ordinal()
    ensures
        forall|i: int| 0 <= i < 11 ==> (#[trigger] WindowAction::at(i)).ordinal() == i,
        forall|a: WindowAction| WindowAction::at(#[trigger] a.ordinal()) == a,
{
}

impl Bindings {
    /// No entries.
    pub fn new() -> (r: Bindings)
        ensures
            r@ == Map::<WindowAction, Option<Hotkey>>::empty(),
    {
        let r = Bindings { slots: [None; 11] };
        assert(r@ =~= Map::<WindowAction, Option<Hotkey>>::empty());
        r
    }

    /// The hotkey bound to `action`, if any.
    pub fn binding(&self, action: WindowAction) -> (r: Option<Hotkey>)
        ensures
            r == bound(self@, action),
    {
        match self.slots[action.rank()] {
            Some(h) => h,
            None => None,
        }
    }

    /// Sets the entry of `action` as it is, even if another action already
    /// uses the hotkey, as a hand-edited file can.
    pub fn insert(&mut self, action: WindowAction, hotkey: Option<Hotkey>)
        ensures
            final(self)@ == old(self)@.insert(action, hotkey),
    {
        let ghost before = self@;
        self.slots[action.rank()] = Some(hotkey);
        proof {
            lemma_at_ordinal();
        }
        assert(self@ =~= before.insert(action, hotkey));
    }

    /// Binds `hotkey` to `action`, unbinding any other action that already
    /// used it, so the table can never gain a duplicate.
    pub fn set_binding(&mut self, action: WindowAction, hotkey: Option<Hotkey>)
        ensures
            final(self)@ == with_binding(old(self)@, action, hotkey),
    {
        let ghost before = self@;
        if let Some(hk) = hotkey {
            let ghost old_slots = self.slots@;
            let mut i: usize = 0;
            while i < 11
                invariant
                    i <= 11,
                    old_slots.len() == 11,
                    self.slots@.len() == 11,
                    forall|k: int|
                        0 <= k < 11 ==> (#[trigger] self.slots@[k] is Some) == (old_slots[k] is Some),
                    forall|k: int|
                        0 <= k < 11 && old_slots[k] is Some ==> #[trigger] self.slots@[k]->0 == (if k
                            < i && k != action.ordinal() && old_slots[k]->0 == Some(hk) {
                            None
                        } else {
                            old_slots[k]->0
                        }),
                decreases 11 - i,
            {
                if i != action.rank() {
                    if let Some(Some(existing)) = self.slots[i] {
                        if existing == hk {
                            self.slots[i] = Some(None);
                        }
                    }
                }
                i = i + 1;
            }
            proof {
                lemma_at_ordinal();
            }
        }
        let ghost mid = self@;
        assert(mid =~= (match hotkey {
            Some(hk) => Map::new(
                |x: WindowAction| before.contains_key(x),
                |x: WindowAction|
                    if x != action && before[x] == Some(hk) {
                        None
                    } else {
                        before[x]
                    },
            ),
            None => before,
        }));
        self.insert(action, hotkey);
    }

    /// Drops every entry whose hotkey is invalid; unbound entries stay.
    pub fn retain_valid(&mut self)
        ensures
            final(self)@ == old(self)@.restrict(
                old(self)@.dom().filter(
                    |a: WindowAction|
                        match old(self)@[a] {
                            Some(h) => h.modifiers.0 != 0,
                            None => true,
                        },
                ),
            ),
    {
        let ghost before = self@;
        let ghost old_slots = self.slots@;
        let mut i: usize = 0;
        while i < 11
            invariant
                i <= 11,
                old_slots.len() == 11,
                self.slots@.len() == 11,
                forall|k: int|
                    0 <= k < 11 ==> #[trigger] self.slots@[k] == (if k < i && (old_slots[k] matches Some(
                        Some(h),
                    ) && h.modifiers.0 == 0) {
                        None
                    } else {
                        old_slots[k]
                    }),
            decreases 11 - i,
        {
            if let Some(Some(h)) = self.slots[i] {
                if !h.is_valid() {
                    self.slots[i] = None;
                }
            }
            i = i + 1;
        }
        proof {
            lemma_at_ordinal();
        }
        assert(self@ =~= before.restrict(
            before.dom().filter(
                |a: WindowAction|
                    match before[a] {
                        Some(h) => h.modifiers.0 != 0,
                        None => true,
                    },
            ),
        ));
    }

    /// Every bound (hotkey, action) pair, in action order, for registration
    /// with a backend.
    pub fn active_bindings(&self) -> (r: Vec<(Hotkey, WindowAction)>)
        ensures
            r@ == active_pairs(self@),
    {
        let mut r: Vec<(Hotkey, WindowAction)> = Vec::new();
        let mut i: usize = 0;
        proof {
            lemma_at_ordinal();
        }
        while i < 11
            invariant
                i <= 11,
                r@ == action_order().subrange(0, i as int).filter(
                    |a: WindowAction| bound(self@, a) is Some,
                ).map_values(|a: WindowAction| (bound(self@, a)->0, a)),
                forall|k: int| 0 <= k < 11 ==> (#[trigger] WindowAction::at(k)).ordinal() == k,
            decreases 11 - i,
        {
            let a = WindowAction::from_ordinal(i);
            let ghost pre = action_order().subrange(0, i as int);
            proof {
                reveal_with_fuel(Seq::<_>::filter, 1);
                assert(action_order().subrange(0, i + 1).drop_last() =~= pre);
                assert(action_order().subrange(0, i + 1).last() == a);
            }
            let ghost old_r = r@;
            match self.slots[i] {
                Some(Some(h)) => {
                    r.push((h, a));
                    assert(r@ =~= action_order().subrange(0, i + 1).filter(
                        |a: WindowAction| bound(self@, a) is Some,
                    ).map_values(|a: WindowAction| (bound(self@, a)->0, a)));
                },
                _ => {
                    assert(r@ =~= action_order().subrange(0, i + 1).filter(
                        |a: WindowAction| bound(self@, a) is Some,
                    ).map_values(|a: WindowAction| (bound(self@, a)->0, a)));
                },
            }
            i = i + 1;
        }
        assert(action_order().subrange(0, 11) =~= action_order());
        r
    }

    /// Every entry, bound or not, in action order, as it is persisted.
    pub fn entries(&self) -> (r: Vec<(WindowAction, Option<Hotkey>)>)
        ensures
            r@ == entries_of(self@),
    {
        let mut r: Vec<(WindowAction, Option<Hotkey>)> = Vec::new();
        let mut i: usize = 0;
        proof {
            lemma_at_ordinal();
        }
        while i < 11
            invariant
                i <= 11,
                r@ == action_order().subrange(0, i as int).filter(
                    |a: WindowAction| self@.contains_key(a),
                ).map_values(|a: WindowAction| (a, self@[a])),
                forall|k: int| 0 <= k < 11 ==> (#[trigger] WindowAction::at(k)).ordinal() == k,
            decreases 11 - i,
        {
            let a = WindowAction::from_ordinal(i);
            let ghost pre = action_order().subrange(0, i as int);
            proof {
                reveal_with_fuel(Seq::<_>::filter, 1);
                assert(action_order().subrange(0, i + 1).drop_last() =~= pre);
                assert(action_order().subrange(0, i + 1).last() == a);
            }
            match self.slots[i] {
                Some(h) => {
                    r.push((a, h));
                    assert(r@ =~= action_order().subrange(0, i + 1).filter(
                        |a: WindowAction| self@.contains_key(a),
                    ).map_values(|a: WindowAction| (a, self@[a])));
                },
                None => {
                    assert(r@ =~= action_order().subrange(0, i + 1).filter(
                        |a: WindowAction| self@.contains_key(a),
                    ).map_values(|a: WindowAction| (a, self@[a])));
                },
            }
            i = i + 1;
        }
        assert(action_order().subrange(0, 11) =~= action_order());
        r
    }
}

/// Code-point order on character sequences, which is how `String` orders
/// text: the first differing character decides, and a proper prefix comes
/// first.
pub open spec fn seq_lt(a: Seq<char>, b: Seq<char>) -> bool
    decreases a.len(),
{
    if a.len() == 0 {
        b.len() > 0
    } else if b.len() == 0 {
        false
    } else if a[0] != b[0] {
        a[0] < b[0]
    } else {
        seq_lt(a.drop_first(), b.drop_first())
    }
}

proof fn lemma_lt_irreflexive(a: Seq<char>)
    ensures
        !seq_lt(a, a),
    decreases a.len(),
{
    if a.len() > 0 {
        lemma_lt_irreflexive(a.drop_first());
    }
}

proof fn lemma_lt_transitive(a: Seq<char>, b: Seq<char>, c: Seq<char>)
    requires
        seq_lt(a, b),
        seq_lt(b, c),
    ensures
        seq_lt(a, c),
    decreases a.len(),
{
    if a.len() > 0 && b.len() > 0 && c.len() > 0 && a[0] == b[0] && b[0] == c[0] {
        lemma_lt_transitive(a.drop_first(), b.drop_first(), c.drop_first());
    }
}

proof fn lemma_lt_total(a: Seq<char>, b: Seq<char>)
    requires
        a != b,
    ensures
        seq_lt(a, b) || seq_lt(b, a),
    decreases a.len(),
{
    if a.len() > 0 && b.len() > 0 && a[0] == b[0] {
        if a.drop_first() == b.drop_first() {
            assert(a =~= seq![a[0]] + a.drop_first());
            assert(b =~= seq![b[0]] + b.drop_first());
        }
        lemma_lt_total(a.drop_first(), b.drop_first());
    } else if a.len() == 0 && b.len() == 0 {
        assert(a =~= b);
    }
}

/// Whether `a` comes before `b` in code-point order.
pub fn chars_lt(a: &[char], b: &[char]) -> (r: bool)
    ensures
        r == seq_lt(a@, b@),
{
    let mut i: usize = 0;
    assert(a@.subrange(0, a.len() as int) =~= a@);
    assert(b@.subrange(0, b.len() as int) =~= b@);
    while i < a.len() && i < b.len() && a[i] == b[i]
        invariant
            i <= a.len(),
            i <= b.len(),
            seq_lt(a@, b@) == seq_lt(
                a@.subrange(i as int, a.len() as int),
                b@.subrange(i as int, b.len() as int),
            ),
        decreases a.len() - i,
    {
        let ghost x = a@.subrange(i as int, a.len() as int);
        let ghost y = b@.subrange(i as int, b.len() as int);
        assert(x.drop_first() =~= a@.subrange(i + 1, a.len() as int));
        assert(y.drop_first() =~= b@.subrange(i + 1, b.len() as int));
        i = i + 1;
    }
    proof {
        let x = a@.subrange(i as int, a.len() as int);
        let y = b@.subrange(i as int, b.len() as int);
        if i < a.len() && i < b.len() {
            assert(x[0] == a@[i as int] && y[0] == b@[i as int]);
        }
    }
    if i < a.len() && i < b.len() {
        a[i] < b[i]
    } else {
        i == a.len() && i < b.len()
    }
}

/// The text a hotkey is grouped by: its rendering on Windows.
pub open spec fn key_text(h: Hotkey) -> Seq<char> {
    rendered(h, MetaStyle::Win)
}

/// The pairs of `ps` whose hotkey renders as `k`, in order.
pub open spec fn with_text(ps: Seq<(Hotkey, WindowAction)>, k: Seq<char>) -> Seq<
    (Hotkey, WindowAction),
> {
    ps.filter(|p: (Hotkey, WindowAction)| key_text(p.0) == k)
}

/// The actions of a run of pairs.
pub open spec fn actions_of(ps: Seq<(Hotkey, WindowAction)>) -> Seq<WindowAction> {
    ps.map_values(|p: (Hotkey, WindowAction)| p.1)
}

/// `c` is the conflict of its hotkey text in `ps`: more than one pair has
/// that text, `c` carries the first of their hotkeys and all their actions.
pub open spec fn is_conflict_in(ps: Seq<(Hotkey, WindowAction)>, c: Conflict) -> bool {
    let g = with_text(ps, key_text(c.hotkey));
    &&& g.len() > 1
    &&& c.hotkey == g[0].0
    &&& c.actions@ == actions_of(g)
}

/// `cs` lists every hotkey text that more than one pair of `ps` renders
/// as, once, in increasing text order, each with its conflict.
pub open spec fn conflicts_of(ps: Seq<(Hotkey, WindowAction)>, cs: Seq<Conflict>) -> bool {
    &&& forall|i: int| 0 <= i < cs.len() ==> is_conflict_in(ps, #[trigger] cs[i])
    &&& forall|i: int, k: int|
        0 <= i < k < cs.len() ==> seq_lt(
            key_text(#[trigger] cs[i].hotkey),
            key_text(#[trigger] cs[k].hotkey),
        )
    &&& forall|t: int|
        0 <= t < ps.len() && with_text(ps, key_text(#[trigger] ps[t].0)).len() > 1 ==> exists|
            i: int,
        | 0 <= i < cs.len() && key_text(cs[i].hotkey) == key_text(ps[t].0)
}

/// The actions sharing one hotkey text, while they are being collected.
struct TextGroup {
    text: Vec<char>,
    hotkey: Hotkey,
    actions: Vec<WindowAction>,
}

/// `g` holds exactly the pairs of `ps` with its text, and there is one.
spec fn group_in(ps: Seq<(Hotkey, WindowAction)>, g: TextGroup) -> bool {
    let run = with_text(ps, g.text@);
    &&& g.text@ == key_text(g.hotkey)
    &&& run.len() > 0
    &&& g.hotkey == run[0].0
    &&& g.actions@ == actions_of(run)
}

/// The groups of `gs` are in strictly increasing text order and each holds
/// exactly the pairs of `ps` with its text; every pair has its group.
spec fn groups_of(ps: Seq<(Hotkey, WindowAction)>, gs: Seq<TextGroup>) -> bool {
    &&& forall|i: int, k: int|
        0 <= i < k < gs.len() ==> seq_lt(#[trigger] gs[i].text@, #[trigger] gs[k].text@)
    &&& forall|i: int| 0 <= i < gs.len() ==> group_in(ps, #[trigger] gs[i])
    &&& forall|t: int|
        0 <= t < ps.len() ==> exists|i: int|
            0 <= i < gs.len() && gs[i].text@ == key_text(#[trigger] ps[t].0)
}

proof fn lemma_with_text_push(ps: Seq<(Hotkey, WindowAction)>, p: (Hotkey, WindowAction), k: Seq<char>)
    ensures
        with_text(ps.push(p), k) == (if key_text(p.0) == k {
            with_text(ps, k).push(p)
        } else {
            with_text(ps, k)
        }),
{
    reveal_with_fuel(Seq::<_>::filter, 1);
    assert(ps.push(p).drop_last() =~= ps);
}

proof fn lemma_with_text_empty(ps: Seq<(Hotkey, WindowAction)>, k: Seq<char>)
    requires
        forall|t: int| 0 <= t < ps.len() ==> key_text(#[trigger] ps[t].0) != k,
    ensures
        with_text(ps, k).len() == 0,
{
    let g = with_text(ps, k);
    if g.len() > 0 {
        ps.lemma_filter_pred(|p: (Hotkey, WindowAction)| key_text(p.0) == k, 0);
        assert(g.contains(g[0]));
        ps.lemma_filter_contains_rev(|p: (Hotkey, WindowAction)| key_text(p.0) == k, g[0]);
    }
}

/// A group keeps its pairs when a pair of another text is appended.
proof fn lemma_group_kept(ps: Seq<(Hotkey, WindowAction)>, p: (Hotkey, WindowAction), g: TextGroup)
    requires
        group_in(ps, g),
        g.text@ != key_text(p.0),
    ensures
        group_in(ps.push(p), g),
{
    lemma_with_text_push(ps, p, g.text@);
}

/// Appending a pair whose text already has a group extends that group.
#[verifier::rlimit(40)]
proof fn lemma_groups_extend_found(
    ps: Seq<(Hotkey, WindowAction)>,
    p: (Hotkey, WindowAction),
    old_gs: Seq<TextGroup>,
    new_gs: Seq<TextGroup>,
    pos: int,
)
    requires
        groups_of(ps, old_gs),
        0 <= pos < old_gs.len(),
        old_gs[pos].text@ == key_text(p.0),
        new_gs.len() == old_gs.len(),
        forall|i: int| 0 <= i < old_gs.len() && i != pos ==> new_gs[i] == old_gs[i],
        new_gs[pos].text@ == old_gs[pos].text@,
        new_gs[pos].hotkey == old_gs[pos].hotkey,
        new_gs[pos].actions@ == old_gs[pos].actions@.push(p.1),
    ensures
        groups_of(ps.push(p), new_gs),
{
    let after = ps.push(p);
    assert forall|i: int| 0 <= i < new_gs.len() implies #[trigger] new_gs[i].text@
        == old_gs[i].text@ by {}
    assert forall|i: int| 0 <= i < new_gs.len() implies group_in(after, #[trigger] new_gs[i]) by {
        assert(group_in(ps, old_gs[i]));
        lemma_with_text_push(ps, p, old_gs[i].text@);
        if i == pos {
            let run = with_text(ps, old_gs[i].text@);
            assert(actions_of(run.push(p)) =~= actions_of(run).push(p.1));
            assert(run.push(p)[0] == run[0]);
        } else {
            if old_gs[i].text@ == key_text(p.0) {
                lemma_lt_irreflexive(old_gs[i].text@);
                if i < pos {
                    assert(seq_lt(old_gs[i].text@, old_gs[pos].text@));
                } else {
                    assert(seq_lt(old_gs[pos].text@, old_gs[i].text@));
                }
            }
        }
    }
    assert forall|t: int| 0 <= t < after.len() implies exists|i: int|
        0 <= i < new_gs.len() && new_gs[i].text@ == key_text(#[trigger] after[t].0) by {
        if t < ps.len() {
            assert(after[t] == ps[t]);
            let i = choose|i: int| 0 <= i < old_gs.len() && old_gs[i].text@ == key_text(ps[t].0);
            assert(new_gs[i].text@ == old_gs[i].text@);
        } else {
            assert(new_gs[pos].text@ == key_text(p.0));
        }
    }
}

/// Appending a pair whose text has no group yet inserts one at the place
/// that keeps the texts ordered.
#[verifier::rlimit(40)]
proof fn lemma_groups_extend_new(
    ps: Seq<(Hotkey, WindowAction)>,
    p: (Hotkey, WindowAction),
    old_gs: Seq<TextGroup>,
    g: TextGroup,
    pos: int,
)
    requires
        groups_of(ps, old_gs),
        0 <= pos <= old_gs.len(),
        forall|i: int| 0 <= i < pos ==> seq_lt(#[trigger] old_gs[i].text@, g.text@),
        pos < old_gs.len() ==> !seq_lt(old_gs[pos].text@, g.text@) && old_gs[pos].text@
            != g.text@,
        g.text@ == key_text(p.0),
        g.hotkey == p.0,
        g.actions@ == seq![p.1],
    ensures
        groups_of(ps.push(p), old_gs.insert(pos, g)),
{
    let after = ps.push(p);
    let new_gs = old_gs.insert(pos, g);
    let text = g.text@;
    if pos < old_gs.len() {
        lemma_lt_total(old_gs[pos].text@, text);
    }
    assert forall|i: int| 0 <= i < old_gs.len() implies old_gs[i].text@ != text by {
        if i < pos {
            lemma_lt_irreflexive(text);
        } else if i > pos {
            lemma_lt_transitive(text, old_gs[pos].text@, old_gs[i].text@);
            lemma_lt_irreflexive(text);
        }
    }
    assert forall|t: int| 0 <= t < ps.len() implies key_text(#[trigger] ps[t].0) != text by {
        let i = choose|i: int| 0 <= i < old_gs.len() && old_gs[i].text@ == key_text(ps[t].0);
    }
    lemma_with_text_empty(ps, text);
    lemma_with_text_push(ps, p, text);
    assert(with_text(after, text) =~= seq![p]);
    assert(actions_of(seq![p]) =~= seq![p.1]);
    assert forall|i: int, k: int| 0 <= i < k < new_gs.len() implies seq_lt(
        #[trigger] new_gs[i].text@,
        #[trigger] new_gs[k].text@,
    ) by {
        if k == pos {
        } else if i == pos {
            if k - 1 > pos {
                lemma_lt_transitive(text, old_gs[pos].text@, old_gs[k - 1].text@);
            }
        } else {
            let oi = if i < pos {
                i
            } else {
                i - 1
            };
            let ok = if k < pos {
                k
            } else {
                k - 1
            };
            assert(new_gs[i] == old_gs[oi]);
            assert(new_gs[k] == old_gs[ok]);
            if oi < ok {
            } else {
                assert(oi == ok || oi > ok);
                assert(i < pos && k > pos);
                lemma_lt_transitive(old_gs[oi].text@, text, old_gs[ok].text@);
            }
        }
    }
    assert forall|i: int| 0 <= i < new_gs.len() implies group_in(after, #[trigger] new_gs[i]) by {
        if i != pos {
            let oi = if i < pos {
                i
            } else {
                i - 1
            };
            assert(new_gs[i] == old_gs[oi]);
            assert(group_in(ps, old_gs[oi]));
            lemma_group_kept(ps, p, old_gs[oi]);
        }
    }
    assert forall|t: int| 0 <= t < after.len() implies exists|i: int|
        0 <= i < new_gs.len() && new_gs[i].text@ == key_text(#[trigger] after[t].0) by {
        if t < ps.len() {
            assert(after[t] == ps[t]);
            let i = choose|i: int| 0 <= i < old_gs.len() && old_gs[i].text@ == key_text(ps[t].0);
            let ni = if i < pos {
                i
            } else {
                i + 1
            };
            assert(new_gs[ni] == old_gs[i]);
        } else {
            assert(new_gs[pos] == g);
        }
    }
}

/// Keeping the groups with more than one action, in order, gives the
/// conflicts.
proof fn lemma_groups_give_conflicts(
    ps: Seq<(Hotkey, WindowAction)>,
    gs: Seq<TextGroup>,
    cs: Seq<Conflict>,
)
    requires
        groups_of(ps, gs),
        forall|i: int| 0 <= i < cs.len() ==> is_conflict_in(ps, #[trigger] cs[i]),
        forall|i: int, k: int|
            0 <= i < k < cs.len() ==> seq_lt(
                key_text(#[trigger] cs[i].hotkey),
                key_text(#[trigger] cs[k].hotkey),
            ),
        forall|k: int|
            0 <= k < gs.len() && (#[trigger] gs[k]).actions@.len() > 1 ==> exists|c: int|
                0 <= c < cs.len() && key_text(cs[c].hotkey) == gs[k].text@,
    ensures
        conflicts_of(ps, cs),
{
    assert forall|t: int|
        0 <= t < ps.len() && with_text(ps, key_text(#[trigger] ps[t].0)).len() > 1 implies exists|
        c: int,
    | 0 <= c < cs.len() && key_text(cs[c].hotkey) == key_text(ps[t].0) by {
        let k = choose|k: int| 0 <= k < gs.len() && gs[k].text@ == key_text(ps[t].0);
        assert(group_in(ps, gs[k]));
    }
}

impl Bindings {
    /// Every hotkey bound to more than one action, grouped by the hotkey's
    /// text and ordered by it.
    pub fn conflicts(&self) -> (r: Vec<Conflict>)
        ensures
            conflicts_of(active_pairs(self@), r@),
    {
        let active = self.active_bindings();
        let ghost ps = active@;
        let mut groups: Vec<TextGroup> = Vec::new();
        let mut j: usize = 0;
        while j < active.len()
            invariant
                j <= active.len(),
                ps == active@,
                groups_of(ps.subrange(0, j as int), groups@),
            decreases active.len() - j,
        {
            let (hk, action) = active[j];
            let text = chars_of(hk.to_string().as_str());
            let ghost before = ps.subrange(0, j as int);
            assert(ps.subrange(0, j + 1) =~= before.push((hk, action)));
            let mut pos: usize = 0;
            while pos < groups.len() && chars_lt(groups[pos].text.as_slice(), text.as_slice())
                invariant
                    pos <= groups.len(),
                    forall|i: int| 0 <= i < pos ==> seq_lt(#[trigger] groups@[i].text@, text@),
                decreases groups.len() - pos,
            {
                pos = pos + 1;
            }
            let found = pos < groups.len() && chars_eq(groups[pos].text.as_slice(), text.as_slice());
            let ghost old_groups = groups@;
            if found {
                let mut g = groups.remove(pos);
                g.actions.push(action);
                groups.insert(pos, g);
                proof {
                    lemma_groups_extend_found(before, (hk, action), old_groups, groups@, pos as int);
                }
            } else {
                let mut actions: Vec<WindowAction> = Vec::new();
                actions.push(action);
                let g = TextGroup { text, hotkey: hk, actions };
                proof {
                    lemma_groups_extend_new(before, (hk, action), old_groups, g, pos as int);
                }
                groups.insert(pos, g);
            }
            j = j + 1;
        }
        assert(ps.subrange(0, active.len() as int) =~= ps);
        let ghost all = groups@;
        let n = groups.len();
        let mut out: Vec<Conflict> = Vec::new();
        let mut rest = groups;
        let mut i: usize = 0;
        while i < n
            invariant
                groups_of(ps, all),
                n == all.len(),
                i <= n,
                rest@ == all.subrange(i as int, n as int),
                forall|c: int| 0 <= c < out@.len() ==> is_conflict_in(ps, #[trigger] out@[c]),
                forall|c: int, d: int|
                    0 <= c < d < out@.len() ==> seq_lt(
                        key_text(#[trigger] out@[c].hotkey),
                        key_text(#[trigger] out@[d].hotkey),
                    ),
                forall|c: int, k: int|
                    0 <= c < out@.len() && i <= k < n ==> seq_lt(
                        key_text(#[trigger] out@[c].hotkey),
                        #[trigger] all[k].text@,
                    ),
                forall|k: int|
                    0 <= k < i && (#[trigger] all[k]).actions@.len() > 1 ==> exists|c: int|
                        0 <= c < out@.len() && key_text(out@[c].hotkey) == all[k].text@,
            decreases n - i,
        {
            let g = rest.remove(0);
            assert(g == all[i as int]);
            assert(rest@ =~= all.subrange(i + 1, n as int));
            proof {
                assert(group_in(ps, all[i as int]));
                assert forall|k: int| i < k < n implies seq_lt(all[i as int].text@, #[trigger] all[k].text@) by {}
            }
            let ghost before_out = out@;
            let ghost many = g.actions@.len() > 1;
            if g.actions.len() > 1 {
                let c = Conflict { hotkey: g.hotkey, actions: g.actions };
                proof {
                    assert(is_conflict_in(ps, c));
                    assert forall|d: int, k: int|
                        0 <= d < before_out.len() && i + 1 <= k < n implies seq_lt(
                            key_text(#[trigger] before_out[d].hotkey),
                            #[trigger] all[k].text@,
                        ) by {}
                }
                out.push(c);
                proof {
                    assert(out@[out@.len() - 1] == c);
                    assert(key_text(c.hotkey) == all[i as int].text@);
                }
            }
            proof {
                assert forall|k: int|
                    0 <= k < i + 1 && (#[trigger] all[k]).actions@.len() > 1 implies exists|c: int|
                    0 <= c < out@.len() && key_text(out@[c].hotkey) == all[k].text@ by {
                    if k < i {
                        let c = choose|c: int|
                            0 <= c < before_out.len() && key_text(before_out[c].hotkey)
                                == all[k].text@;
                        assert(out@[c] == before_out[c]);
                    } else {
                        assert(many);
                        assert(key_text(out@[out@.len() - 1].hotkey) == all[k].text@);
                    }
                }
            }
            i = i + 1;
        }
        proof {
            lemma_groups_give_conflicts(ps, all, out@);
        }
        out
    }
}

impl Bindings {
    /// The action bound to `hotkey`; with several, the first in action order.
    pub fn action_for(&self, hotkey: Hotkey) -> (r: Option<WindowAction>)
        ensures
            match r {
                Some(a) => exists|i: int|
                    0 <= i < active_pairs(self@).len() && active_pairs(self@)[i] == (hotkey, a)
                        && forall|j: int| 0 <= j < i ==> active_pairs(self@)[j].0 != hotkey,
                None => forall|j: int|
                    0 <= j < active_pairs(self@).len() ==> active_pairs(self@)[j].0 != hotkey,
            },
    {
        let active = self.active_bindings();
        let mut i: usize = 0;
        while i < active.len()
            invariant
                i <= active.len(),
                active@ == active_pairs(self@),
                forall|j: int| 0 <= j < i ==> active@[j].0 != hotkey,
            decreases active.len() - i,
        {
            let (hk, action) = active[i];
            if hk == hotkey {
                return Some(action);
            }
            i = i + 1;
        }
        None
    }
}

/// After binding a hotkey to an action, that action is the only one bound to
/// it, and every action that did not use it keeps its binding.
pub proof fn lemma_set_binding_leaves_no_duplicate(
    m: Map<WindowAction, Option<Hotkey>>,
    action: WindowAction,
    hk: Hotkey,
)
    ensures
        bound(with_binding(m, action, Some(hk)), action) == Some(hk),
        forall|x: WindowAction|
            x != action ==> bound(#[trigger] with_binding(m, action, Some(hk)), x) != Some(hk),
        forall|x: WindowAction|
            x != action && bound(m, x) != Some(hk) ==> bound(
                #[trigger] with_binding(m, action, Some(hk)),
                x,
            ) == bound(m, x),
{
}

/// The default bindings on the base modifier `base`: Left and Right take the
/// halves, Up maximizes and Down restores; with Shift added, Left and Right
/// throw the window to the previous and next display.
pub open spec fn defaults_on(base: Modifiers) -> Map<WindowAction, Option<Hotkey>> {
    map![
        WindowAction::LeftHalf => Some(Hotkey { modifiers: base, key: KeyCode::Left }),
        WindowAction::RightHalf => Some(Hotkey { modifiers: base, key: KeyCode::Right }),
        WindowAction::Maximize => Some(Hotkey { modifiers: base, key: KeyCode::Up }),
        WindowAction::Restore => Some(Hotkey { modifiers: base, key: KeyCode::Down }),
        WindowAction::PreviousDisplay => Some(
            Hotkey { modifiers: Modifiers(base.0 | 1), key: KeyCode::Left },
        ),
        WindowAction::NextDisplay => Some(
            Hotkey { modifiers: Modifiers(base.0 | 1), key: KeyCode::Right },
        ),
    ]
}

/// The default bindings on an arbitrary base modifier. Every default sits on
/// the same base modifier, so platforms differ only in what it is.
pub fn default_bindings_on(base: Modifiers) -> (r: Bindings)
    ensures
        r@ == defaults_on(base),
{
    let mut map = Bindings::new();
    map.insert(WindowAction::LeftHalf, Some(Hotkey::new(base, KeyCode::Left)));
    map.insert(WindowAction::RightHalf, Some(Hotkey::new(base, KeyCode::Right)));
    map.insert(WindowAction::Maximize, Some(Hotkey::new(base, KeyCode::Up)));
    map.insert(WindowAction::Restore, Some(Hotkey::new(base, KeyCode::Down)));
    let throw = base.union(Modifiers::shift());
    map.insert(WindowAction::PreviousDisplay, Some(Hotkey::new(throw, KeyCode::Left)));
    map.insert(WindowAction::NextDisplay, Some(Hotkey::new(throw, KeyCode::Right)));
    assert(map@ =~= defaults_on(base));
    map
}

/// Default key bindings on `Win`, the base modifier wherever `Ctrl+Alt`
/// would collide with `AltGr` (macOS uses `Control+Option` through
/// [`default_bindings_on`]).
pub fn default_bindings() -> (r: Bindings)
    ensures
        r@ == defaults_on(Modifiers(8)),
{
    default_bindings_on(Modifiers::meta())
}

/// An arrow key of the defaults.
pub open spec fn is_arrow(k: KeyCode) -> bool {
    k == KeyCode::Left || k == KeyCode::Right || k == KeyCode::Up || k == KeyCode::Down
}

/// The keys of the default bindings render differently on any base.
proof fn lemma_default_texts_differ(base: Modifiers, a: KeyCode, b: KeyCode)
    requires
        is_arrow(a),
        is_arrow(b),
        a != b,
    ensures
        key_text(Hotkey { modifiers: base, key: a }) != key_text(Hotkey { modifiers: base, key: b }),
{
    let prefix = crate::hotkey::joined(crate::hotkey::modifier_names(base, MetaStyle::Win));
    let x = prefix + a.label_chars();
    let y = prefix + b.label_chars();
    if x == y {
        assert(x.subrange(prefix.len() as int, x.len() as int) =~= a.label_chars());
        assert(y.subrange(prefix.len() as int, y.len() as int) =~= b.label_chars());
        let la = a.label_chars();
        let lb = b.label_chars();
        assert(la.len() == lb.len());
        assert(la[0] == lb[0]);
    }
}

/// A default on the base modifier and one on the base modifier with Shift
/// never render alike, when the base holds no Shift.
proof fn lemma_throw_texts_differ(base: Modifiers, a: KeyCode, b: KeyCode)
    requires
        base.0 < 16,
        base.0 & 1 == 0,
        is_arrow(a),
        is_arrow(b),
    ensures
        key_text(Hotkey { modifiers: base, key: a }) != key_text(
            Hotkey { modifiers: Modifiers(base.0 | 1), key: b },
        ),
{
    let ha = Hotkey { modifiers: base, key: a };
    let hb = Hotkey { modifiers: Modifiers(base.0 | 1), key: b };
    let m = base.0;
    assert((m | 1) != m && (m | 1) != 0 && (m | 1) < 16) by (bit_vector)
        requires
            m < 16,
            m & 1 == 0,
    ;
    if m == 0 {
        assert(0u8 & 2 != 2 && 0u8 & 4 != 4 && 0u8 & 1 != 1 && 0u8 & 8 != 8) by (bit_vector);
        assert((0u8 | 1) & 2 != 2 && (0u8 | 1) & 4 != 4 && (0u8 | 1) & 1 == 1 && (0u8 | 1) & 8
            != 8) by (bit_vector);
        let names_b = crate::hotkey::modifier_names(hb.modifiers, MetaStyle::Win);
        assert(crate::hotkey::modifier_names(base, MetaStyle::Win) =~= Seq::<Seq<char>>::empty());
        assert(names_b =~= seq![seq!['S', 'h', 'i', 'f', 't']]);
        assert(names_b.drop_last() =~= Seq::<Seq<char>>::empty());
        let tb = key_text(hb);
        let ta = key_text(ha);
        assert(ta =~= a.label_chars());
        assert(tb[0] == 'S');
        assert(ta[0] != 'S');
    } else {
        crate::hotkey::lemma_render_parse_roundtrip(ha, MetaStyle::Win);
        crate::hotkey::lemma_render_parse_roundtrip(hb, MetaStyle::Win);
    }
}

/// The default bindings never conflict, whatever their base modifier, as
/// long as it holds no Shift (with Shift in the base the display throws
/// would land on the halves' keys): no two of them render as the same
/// hotkey text.
pub proof fn lemma_defaults_never_conflict(base: Modifiers)
    requires
        base.0 < 16,
        base.0 & 1 == 0,
    ensures
        conflicts_of(active_pairs(defaults_on(base)), Seq::<Conflict>::empty()),
{
    let m = defaults_on(base);
    let t = Modifiers(base.0 | 1);
    let hl = Hotkey { modifiers: base, key: KeyCode::Left };
    let hr = Hotkey { modifiers: base, key: KeyCode::Right };
    let hu = Hotkey { modifiers: base, key: KeyCode::Up };
    let hd = Hotkey { modifiers: base, key: KeyCode::Down };
    let hp = Hotkey { modifiers: t, key: KeyCode::Left };
    let hn = Hotkey { modifiers: t, key: KeyCode::Right };
    let p0 = (hl, WindowAction::LeftHalf);
    let p1 = (hr, WindowAction::RightHalf);
    let p2 = (hu, WindowAction::Maximize);
    let p3 = (hd, WindowAction::Restore);
    let p4 = (hp, WindowAction::PreviousDisplay);
    let p5 = (hn, WindowAction::NextDisplay);
    let ps = seq![p0, p1, p2, p3, p4, p5];
    let f = |a: WindowAction| bound(m, a) is Some;
    let o = action_order();
    assert(o =~= seq![
        WindowAction::LeftHalf,
        WindowAction::RightHalf,
        WindowAction::TopHalf,
        WindowAction::BottomHalf,
        WindowAction::Maximize,
        WindowAction::Center,
        WindowAction::Restore,
        WindowAction::MoveLeft,
        WindowAction::MoveRight,
        WindowAction::PreviousDisplay,
        WindowAction::NextDisplay,
    ]);
    reveal_with_fuel(Seq::<_>::filter, 12);
    assert(o.filter(f) =~= seq![
        WindowAction::LeftHalf,
        WindowAction::RightHalf,
        WindowAction::Maximize,
        WindowAction::Restore,
        WindowAction::PreviousDisplay,
        WindowAction::NextDisplay,
    ]);
    assert(active_pairs(m) =~= ps);
    lemma_default_texts_differ(base, KeyCode::Left, KeyCode::Right);
    lemma_default_texts_differ(base, KeyCode::Left, KeyCode::Up);
    lemma_default_texts_differ(base, KeyCode::Left, KeyCode::Down);
    lemma_default_texts_differ(base, KeyCode::Right, KeyCode::Up);
    lemma_default_texts_differ(base, KeyCode::Right, KeyCode::Down);
    lemma_default_texts_differ(base, KeyCode::Up, KeyCode::Down);
    lemma_default_texts_differ(t, KeyCode::Left, KeyCode::Right);
    lemma_throw_texts_differ(base, KeyCode::Left, KeyCode::Left);
    lemma_throw_texts_differ(base, KeyCode::Left, KeyCode::Right);
    lemma_throw_texts_differ(base, KeyCode::Right, KeyCode::Left);
    lemma_throw_texts_differ(base, KeyCode::Right, KeyCode::Right);
    lemma_throw_texts_differ(base, KeyCode::Up, KeyCode::Left);
    lemma_throw_texts_differ(base, KeyCode::Up, KeyCode::Right);
    lemma_throw_texts_differ(base, KeyCode::Down, KeyCode::Left);
    lemma_throw_texts_differ(base, KeyCode::Down, KeyCode::Right);
    let q1 = seq![p0];
    let q2 = q1.push(p1);
    let q3 = q2.push(p2);
    let q4 = q3.push(p3);
    let q5 = q4.push(p4);
    assert(ps =~= q5.push(p5));
    assert forall|i: int| 0 <= i < ps.len() implies with_text(ps, key_text(#[trigger] ps[i].0)).len()
        <= 1 by {
        let k = key_text(ps[i].0);
        lemma_with_text_push(q5, p5, k);
        lemma_with_text_push(q4, p4, k);
        lemma_with_text_push(q3, p3, k);
        lemma_with_text_push(q2, p2, k);
        lemma_with_text_push(q1, p1, k);
        lemma_with_text_push(Seq::empty(), p0, k);
        assert(Seq::<(Hotkey, WindowAction)>::empty().push(p0) =~= q1);
        assert(with_text(Seq::<(Hotkey, WindowAction)>::empty(), k) =~= Seq::<
            (Hotkey, WindowAction),
        >::empty());
    }
}

} // verus!
