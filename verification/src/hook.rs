//! The decisions of the Windows low-level keyboard hook: which keystrokes it
//! swallows, which actions it fires, and the per-key bitsets that remember
//! swallowed and held keys between a key-down and its key-up.

use vstd::prelude::*;

use crate::action::WindowAction;
use crate::hotkey::Modifiers;
use crate::win_keys::{hook_matches, is_modifier_vk, is_modifier_vk_spec, HookBinding};

verus! {

/// The slot of a keystroke identity in a [`KeyBits`]: the low byte of the
/// virtual key, in the upper half when the extended flag is set.
pub open spec fn key_slot(vk: u16, extended: bool) -> int {
    (vk as int) % 256 + if extended {
        256int
    } else {
        0int
    }
}

/// Bit `c` of the word `w`.
pub open spec fn word_bit(w: u64, c: u64) -> bool {
    (w >> c) & 1u64 == 1u64
}

proof fn lemma_bit_or(w: u64, b: u64, c: u64)
    by (bit_vector)
    requires
        b < 64,
        c < 64,
    ensures
        ((w | (1u64 << b)) >> c) & 1u64 == 1u64 <==> (c == b || (w >> c) & 1u64 == 1u64),
{
}

proof fn lemma_bit_clear(w: u64, b: u64, c: u64)
    by (bit_vector)
    requires
        b < 64,
        c < 64,
    ensures
        ((w & !(1u64 << b)) >> c) & 1u64 == 1u64 <==> (c != b && (w >> c) & 1u64 == 1u64),
{
}

proof fn lemma_bit_test(w: u64, b: u64)
    by (bit_vector)
    requires
        b < 64,
    ensures
        (w & (1u64 << b) != 0u64) <==> ((w >> b) & 1u64 == 1u64),
{
}

proof fn lemma_bit_zero(c: u64)
    by (bit_vector)
    ensures
        (0u64 >> c) & 1u64 != 1u64,
{
}

/// The index of a keystroke identity in a [`KeyBits`]: 512 slots, and the
/// extended variant of a key never aliases the plain one.
pub fn key_index(vk: u16, extended: bool) -> (r: usize)
    ensures
        r == key_slot(vk, extended),
        r < 512,
{
    assert(vk & 0xFFu16 == vk % 256) by (bit_vector);
    let low: usize = (vk & 0xFF) as usize;
    if extended {
        low + 256
    } else {
        low
    }
}

/// The slot a swallowed keystroke is recorded in.
pub fn swallow_index(vk: u16, extended: bool) -> (r: usize)
    ensures
        r == key_slot(vk, extended),
{
    key_index(vk, extended)
}

/// A set of keystroke identities, packed into eight 64-bit words.
pub struct KeyBits {
    words: [u64; 8],
}

impl KeyBits {
    spec fn bit(&self, i: int) -> bool {
        word_bit(self.words@[i / 64], (i % 64) as u64)
    }

    /// An empty set.
    pub fn new() -> (r: KeyBits)
        ensures
            r@ == Set::<int>::empty(),
    {
        let r = KeyBits { words: [0u64; 8] };
        assert forall|i: int| !#[trigger] r@.contains(i) by {
            if 0 <= i < 512 {
                lemma_bit_zero((i % 64) as u64);
            }
        }
        assert(r@ =~= Set::<int>::empty());
        r
    }

    /// Records the keystroke; says whether it was already recorded.
    pub fn set(&mut self, vk: u16, extended: bool) -> (was_set: bool)
        ensures
            was_set == old(self)@.contains(key_slot(vk, extended)),
            final(self)@ == old(self)@.insert(key_slot(vk, extended)),
    {
        let index = key_index(vk, extended);
        let w: usize = index / 64;
        let b: u64 = (index % 64) as u64;
        let bit: u64 = 1u64 << b;
        let prev: u64 = self.words[w];
        let ghost before = *self;
        self.words[w] = prev | bit;
        proof {
            lemma_bit_test(prev, b);
            assert forall|i: int| #[trigger] self@.contains(i) == before@.insert(index as int).contains(
                i,
            ) by {
                if 0 <= i < 512 && i / 64 == w {
                    lemma_bit_or(prev, b, (i % 64) as u64);
                }
            }
            assert(self@ =~= before@.insert(index as int));
        }
        prev & bit != 0
    }

    /// Removes the keystroke; says whether it was recorded.
    pub fn take(&mut self, vk: u16, extended: bool) -> (was_set: bool)
        ensures
            was_set == old(self)@.contains(key_slot(vk, extended)),
            final(self)@ == old(self)@.remove(key_slot(vk, extended)),
    {
        let index = key_index(vk, extended);
        let w: usize = index / 64;
        let b: u64 = (index % 64) as u64;
        let bit: u64 = 1u64 << b;
        let prev: u64 = self.words[w];
        let ghost before = *self;
        self.words[w] = prev & !bit;
        proof {
            lemma_bit_test(prev, b);
            assert forall|i: int| #[trigger] self@.contains(i) == before@.remove(index as int).contains(
                i,
            ) by {
                if 0 <= i < 512 && i / 64 == w {
                    lemma_bit_clear(prev, b, (i % 64) as u64);
                }
            }
            assert(self@ =~= before@.remove(index as int));
        }
        prev & bit != 0
    }

    /// Whether the keystroke is recorded.
    pub fn is_set(&self, vk: u16, extended: bool) -> (r: bool)
        ensures
            r == self@.contains(key_slot(vk, extended)),
    {
        let index = key_index(vk, extended);
        let b: u64 = (index % 64) as u64;
        let bit: u64 = 1u64 << b;
        proof {
            lemma_bit_test(self.words@[(index / 64) as int], b);
        }
        self.words[index / 64] & bit != 0
    }

    /// Forgets every recorded keystroke.
    pub fn clear(&mut self)
        ensures
            final(self)@ == Set::<int>::empty(),
    {
        *self = KeyBits::new();
    }
}

impl View for KeyBits {
    type V = Set<int>;

    /// The recorded slots.
    closed spec fn view(&self) -> Set<int> {
        Set::new(|i: int| 0 <= i < 512 && self.bit(i))
    }
}

/// The first binding of `bs` that the keystroke matches.
pub open spec fn first_match(bs: Seq<HookBinding>, vk: u16, extended: bool, mods: Modifiers) -> Option<
    HookBinding,
>
    decreases bs.len(),
{
    if bs.len() == 0 {
        None
    } else if hook_matches(bs[0], vk, extended, mods) {
        Some(bs[0])
    } else {
        first_match(bs.drop_first(), vk, extended, mods)
    }
}

/// The first binding the keystroke matches: same virtual key, exactly the
/// same modifiers, and the extended flag where the binding cares about it.
pub fn match_binding_in(bindings: &[HookBinding], vk: u16, extended: bool, mods: Modifiers) -> (r:
    Option<HookBinding>)
    ensures
        r == first_match(bindings@, vk, extended, mods),
{
    let mut i: usize = 0;
    assert(bindings@.subrange(0, bindings.len() as int) =~= bindings@);
    while i < bindings.len()
        invariant
            i <= bindings.len(),
            first_match(bindings@, vk, extended, mods) == first_match(
                bindings@.subrange(i as int, bindings.len() as int),
                vk,
                extended,
                mods,
            ),
        decreases bindings.len() - i,
    {
        let b = bindings[i];
        let ghost rest = bindings@.subrange(i as int, bindings.len() as int);
        assert(rest[0] == b);
        assert(rest.drop_first() =~= bindings@.subrange(i + 1, bindings.len() as int));
        let ext_ok = match b.extended {
            Some(required) => required == extended,
            None => true,
        };
        if b.vk == vk && b.mods == mods && ext_ok {
            return Some(b);
        }
        i = i + 1;
    }
    None
}

/// The kind of keyboard message the hook receives.
#[derive(Debug, Clone, Copy, PartialEq, Eq, Structural)]
pub enum KeyMessage {
    /// `WM_KEYDOWN` or `WM_SYSKEYDOWN`.
    Down,
    /// `WM_KEYUP` or `WM_SYSKEYUP`.
    Up,
    /// Anything else, which the hook never touches.
    Other,
}

/// One keystroke as the hook sees it.
#[derive(Debug, Clone, Copy, PartialEq, Eq, Structural)]
pub struct KeyEvent {
    pub message: KeyMessage,
    pub vk: u16,
    /// The `LLKHF_EXTENDED` flag.
    pub extended: bool,
    /// Whether Tile injected this keystroke itself.
    pub injected: bool,
}

/// What the hook does with one keystroke.
#[derive(Debug, Clone, Copy, PartialEq, Eq, Structural)]
pub struct HookVerdict {
    /// Whether the keystroke is kept from the rest of the system.
    pub swallow: bool,
    /// The action to send to the application, if any.
    pub send: Option<WindowAction>,
    /// Whether to inject the no-op key that keeps the Start menu closed.
    pub suppress_start_menu: bool,
}

/// The verdict for a keystroke the hook leaves alone.
pub open spec fn pass_verdict() -> HookVerdict {
    HookVerdict { swallow: false, send: None, suppress_start_menu: false }
}

/// The hook's transition: from the swallowed and held sets and one
/// keystroke to the new sets and the verdict.
pub open spec fn hook_step(
    swallowed: Set<int>,
    held: Set<int>,
    e: KeyEvent,
    mods: Modifiers,
    bindings: Seq<HookBinding>,
) -> (Set<int>, Set<int>, HookVerdict) {
    let slot = key_slot(e.vk, e.extended);
    let found = first_match(bindings, e.vk, e.extended, mods);
    if e.injected || e.message == KeyMessage::Other {
        (swallowed, held, pass_verdict())
    } else if e.message == KeyMessage::Up {
        (
            swallowed.remove(slot),
            held.remove(slot),
            HookVerdict { swallow: swallowed.contains(slot), send: None, suppress_start_menu: false },
        )
    } else if swallowed.contains(slot) {
        let send = if is_modifier_vk_spec(e.vk) {
            None
        } else {
            match found {
                Some(b) => if b.repeat {
                    Some(b.action)
                } else {
                    None
                },
                None => None,
            }
        };
        (swallowed, held, HookVerdict { swallow: true, send, suppress_start_menu: false })
    } else if !is_modifier_vk_spec(e.vk) && found is Some {
        let b = found->0;
        let repeated = !b.repeat && held.contains(slot);
        (
            swallowed.insert(slot),
            if b.repeat {
                held
            } else {
                held.insert(slot)
            },
            HookVerdict {
                swallow: true,
                send: if repeated {
                    None
                } else {
                    Some(b.action)
                },
                suppress_start_menu: mods.0 & 8 == 8,
            },
        )
    } else {
        (swallowed, held, pass_verdict())
    }
}

/// The keys the hook has swallowed and the exclusive keys currently held.
pub struct HookKeys {
    pub swallowed: KeyBits,
    pub held: KeyBits,
}

impl HookKeys {
    /// Nothing swallowed and nothing held.
    pub fn new() -> (r: HookKeys)
        ensures
            r.swallowed@ == Set::<int>::empty(),
            r.held@ == Set::<int>::empty(),
    {
        HookKeys { swallowed: KeyBits::new(), held: KeyBits::new() }
    }

    /// Forgets every pending key, as after a change of the bindings.
    pub fn clear_transient_keys(&mut self)
        ensures
            final(self).swallowed@ == Set::<int>::empty(),
            final(self).held@ == Set::<int>::empty(),
    {
        self.swallowed.clear();
        self.held.clear();
    }

    /// Handles one keystroke with the modifiers held at that moment.
    pub fn on_key(&mut self, e: KeyEvent, mods: Modifiers, bindings: &[HookBinding]) -> (r:
        HookVerdict)
        ensures
            (final(self).swallowed@, final(self).held@, r) == hook_step(
                old(self).swallowed@,
                old(self).held@,
                e,
                mods,
                bindings@,
            ),
    {
        if e.injected {
            return HookVerdict { swallow: false, send: None, suppress_start_menu: false };
        }
        match e.message {
            KeyMessage::Other => HookVerdict { swallow: false, send: None, suppress_start_menu: false },
            KeyMessage::Up => {
                self.held.take(e.vk, e.extended);
                let was = self.swallowed.take(e.vk, e.extended);
                HookVerdict { swallow: was, send: None, suppress_start_menu: false }
            },
            KeyMessage::Down => {
                if self.swallowed.is_set(e.vk, e.extended) {
                    let mut send: Option<WindowAction> = None;
                    if !is_modifier_vk(e.vk) {
                        if let Some(b) = match_binding_in(bindings, e.vk, e.extended, mods) {
                            if b.repeat {
                                send = Some(b.action);
                            }
                        }
                    }
                    return HookVerdict { swallow: true, send, suppress_start_menu: false };
                }
                if !is_modifier_vk(e.vk) {
                    if let Some(b) = match_binding_in(bindings, e.vk, e.extended, mods) {
                        let repeated = !b.repeat && self.held.set(e.vk, e.extended);
                        self.swallowed.set(e.vk, e.extended);
                        let send = if repeated {
                            None
                        } else {
                            Some(b.action)
                        };
                        return HookVerdict {
                            swallow: true,
                            send,
                            suppress_start_menu: mods.contains(Modifiers::meta()),
                        };
                    }
                }
                HookVerdict { swallow: false, send: None, suppress_start_menu: false }
            },
        }
    }
}

/// The key-up of a keystroke the hook swallowed is swallowed too, and only
/// once: a second key-up of the same key passes through.
pub proof fn lemma_swallowed_key_up_once(
    swallowed: Set<int>,
    held: Set<int>,
    down: KeyEvent,
    mods: Modifiers,
    bindings: Seq<HookBinding>,
)
    requires
        down.message == KeyMessage::Down,
        hook_step(swallowed, held, down, mods, bindings).2.swallow,
    ensures
        ({
            let (s1, h1, _) = hook_step(swallowed, held, down, mods, bindings);
            let up = KeyEvent { message: KeyMessage::Up, ..down };
            let (s2, h2, v2) = hook_step(s1, h1, up, mods, bindings);
            &&& v2.swallow
            &&& !hook_step(s2, h2, up, mods, bindings).2.swallow
        }),
{
}

/// Holding the keys of an exclusive binding fires its action once: an
/// auto-repeated key-down sends nothing until the key is released.
pub proof fn lemma_exclusive_binding_fires_once(
    swallowed: Set<int>,
    held: Set<int>,
    down: KeyEvent,
    mods: Modifiers,
    bindings: Seq<HookBinding>,
)
    requires
        down.message == KeyMessage::Down,
        !down.injected,
        first_match(bindings, down.vk, down.extended, mods) matches Some(b) && !b.repeat,
    ensures
        ({
            let (s1, h1, _) = hook_step(swallowed, held, down, mods, bindings);
            hook_step(s1, h1, down, mods, bindings).2.send is None
        }),
{
}

/// A key-up releases its key: afterwards the key is neither swallowed nor
/// held, whatever came before. So pressing an exclusive binding again after
/// releasing it fires its action again.
pub proof fn lemma_release_rearms(
    swallowed: Set<int>,
    held: Set<int>,
    down: KeyEvent,
    mods: Modifiers,
    bindings: Seq<HookBinding>,
)
    requires
        down.message == KeyMessage::Down,
        !down.injected,
        !is_modifier_vk_spec(down.vk),
        first_match(bindings, down.vk, down.extended, mods) is Some,
    ensures
        ({
            let up = KeyEvent { message: KeyMessage::Up, ..down };
            let (s1, h1, _) = hook_step(swallowed, held, up, mods, bindings);
            &&& !s1.contains(key_slot(down.vk, down.extended))
            &&& !h1.contains(key_slot(down.vk, down.extended))
        }),
        ({
            let up = KeyEvent { message: KeyMessage::Up, ..down };
            let (s1, h1, _) = hook_step(swallowed, held, down, mods, bindings);
            let (s2, h2, _) = hook_step(s1, h1, up, mods, bindings);
            hook_step(s2, h2, down, mods, bindings).2.send == Some(
                first_match(bindings, down.vk, down.extended, mods)->0.action,
            )
        }),
{
}

} // verus!
