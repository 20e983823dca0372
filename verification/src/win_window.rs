//! Pure parts of the Windows window backend: which windows Tile may move,
//! and the display names Windows reports.

use vstd::prelude::*;

verus! {

/// `WS_CAPTION`: the title-bar style bits.
pub const WS_CAPTION: u32 = 0x00C0_0000;

/// `WS_EX_TOOLWINDOW`: the extended style of floating tool windows.
pub const WS_EX_TOOLWINDOW: u32 = 0x0000_0080;

/// What Windows reports about a top-level window.
#[derive(Debug, Clone, Copy, PartialEq, Eq, Structural)]
pub struct WindowFacts {
    /// The window is the desktop's shell window.
    pub is_shell_window: bool,
    pub visible: bool,
    /// `GWL_STYLE`.
    pub style: u32,
    /// `GWL_EXSTYLE`.
    pub ex_style: u32,
    /// DWM cloaks it (another virtual desktop, a suspended app).
    pub cloaked: bool,
    /// Its class is one of the shell's own (taskbar, desktop).
    pub shell_class: bool,
}

/// Whether a window is a normal, visible, user-movable top-level window.
pub open spec fn manageable(f: WindowFacts) -> bool {
    &&& !f.is_shell_window
    &&& f.visible
    &&& f.style & WS_CAPTION == WS_CAPTION
    &&& f.ex_style & WS_EX_TOOLWINDOW == 0
    &&& !f.cloaked
    &&& !f.shell_class
}

/// Whether Tile may move the window: not the shell, visible, with a title
/// bar, not a tool window, not cloaked, and not of a shell class.
pub fn is_manageable(f: WindowFacts) -> (r: bool)
    ensures
        r == manageable(f),
{
    if f.is_shell_window {
        return false;
    }
    if !f.visible {
        return false;
    }
    if f.style & WS_CAPTION != WS_CAPTION {
        return false;
    }
    if f.ex_style & WS_EX_TOOLWINDOW != 0 {
        return false;
    }
    if f.cloaked {
        return false;
    }
    !f.shell_class
}

/// UTF-16 decoding with every unpaired surrogate replaced by U+FFFD: a
/// unit outside the surrogate range is a character of its own, a high
/// surrogate followed by a low one is the character they encode, and any
/// other surrogate is a replacement character.
pub open spec fn utf16_lossy(units: Seq<u16>) -> Seq<char>
    decreases units.len(),
{
    if units.len() == 0 {
        Seq::empty()
    } else {
        let u = units[0];
        if u < 0xD800 || u > 0xDFFF {
            seq![u as char] + utf16_lossy(units.subrange(1, units.len() as int))
        } else if u <= 0xDBFF && units.len() >= 2 && 0xDC00 <= units[1] <= 0xDFFF {
            seq![(0x10000 + (u - 0xD800) * 0x400 + (units[1] - 0xDC00)) as char] + utf16_lossy(
                units.subrange(2, units.len() as int),
            )
        } else {
            seq!['\u{FFFD}'] + utf16_lossy(units.subrange(1, units.len() as int))
        }
    }
}

/// `String::from_utf16_lossy`: decodes UTF-16, replacing invalid data (an
/// unpaired surrogate) with U+FFFD.
#[verifier::external_body]
fn string_from_utf16_lossy(units: &[u16]) -> (r: String)
    ensures
        r@ == utf16_lossy(units@),
{
    String::from_utf16_lossy(units)
}

/// The display device name in a fixed-size NUL-terminated buffer.
pub fn device_name(raw: &[u16; 32]) -> (r: String)
    ensures
        exists|end: int|
            0 <= end <= 32 && (end < 32 ==> raw@[end] == 0) && (forall|j: int|
                0 <= j < end ==> raw@[j] != 0) && r@ == #[trigger] utf16_lossy(raw@.subrange(0, end)),
{
    let mut units: Vec<u16> = Vec::new();
    let mut i: usize = 0;
    while i < 32 && raw[i] != 0
        invariant
            i <= 32,
            raw@.len() == 32,
            units@ == raw@.subrange(0, i as int),
            forall|j: int| 0 <= j < i ==> raw@[j] != 0,
        decreases 32 - i,
    {
        units.push(raw[i]);
        i = i + 1;
    }
    let r = string_from_utf16_lossy(units.as_slice());
    assert(0 <= i <= 32 && (i < 32 ==> raw@[i as int] == 0) && (forall|j: int|
        0 <= j < i ==> raw@[j] != 0) && r@ == utf16_lossy(raw@.subrange(0, i as int)));
    assert(exists|e: int|
        0 <= e <= 32 && (e < 32 ==> raw@[e] == 0) && (forall|j: int| 0 <= j < e ==> raw@[j] != 0)
            && r@ == #[trigger] utf16_lossy(raw@.subrange(0, e)));
    r
}

} // verus!
