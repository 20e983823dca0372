//! The window actions Tile can perform and their stable identifiers.

use vstd::prelude::*;

use crate::text::chars_of;

verus! {

/// Every window action supported by Tile.
#[derive(Debug, Clone, Copy, PartialEq, Eq, Hash, PartialOrd, Ord, Structural)]
pub enum WindowAction {
    LeftHalf,
    RightHalf,
    TopHalf,
    BottomHalf,
    Maximize,
    Center,
    Restore,
    MoveLeft,
    MoveRight,
    /// Throws the window to the display before its own, keeping its slot.
    PreviousDisplay,
    /// Throws the window to the display after its own, keeping its slot.
    NextDisplay,
}

/// A direction in the desktop's top-left-origin coordinate space.
#[derive(Debug, Clone, Copy, PartialEq, Eq, Structural)]
pub enum Direction {
    Left,
    Right,
    Up,
    Down,
}

/// Why the engine decided there was nothing to do.
#[derive(Debug, Clone, Copy, PartialEq, Eq, Structural)]
pub enum NoOpReason {
    AlreadyInPosition,
    NoHistory,
    NoScreen,
}

/// Error returned when parsing an unknown action identifier; carries it.
#[derive(Debug, Clone, PartialEq, Eq)]
pub struct ParseActionError(pub String);

impl WindowAction {
    /// All actions, in the order they appear in the UI.
    pub const ALL: [WindowAction; 11] = [
        WindowAction::LeftHalf,
        WindowAction::RightHalf,
        WindowAction::TopHalf,
        WindowAction::BottomHalf,
        WindowAction::Maximize,
        WindowAction::Center,
        WindowAction::Restore,
        WindowAction::MoveLeft,
        WindowAction::MoveRight,
        WindowAction::PreviousDisplay,
        WindowAction::NextDisplay,
    ];

    /// Position of the action in [`WindowAction::ALL`], which is also the
    /// order the derived `Ord` follows.
    pub open spec fn ordinal(self) -> int {
        match self {
            WindowAction::LeftHalf => 0,
            WindowAction::RightHalf => 1,
            WindowAction::TopHalf => 2,
            WindowAction::BottomHalf => 3,
            WindowAction::Maximize => 4,
            WindowAction::Center => 5,
            WindowAction::Restore => 6,
            WindowAction::MoveLeft => 7,
            WindowAction::MoveRight => 8,
            WindowAction::PreviousDisplay => 9,
            WindowAction::NextDisplay => 10,
        }
    }

    /// The action at position `i` of [`WindowAction::ALL`].
    pub open spec fn at(i: int) -> WindowAction {
        if i == 0 {
            WindowAction::LeftHalf
        } else if i == 1 {
            WindowAction::RightHalf
        } else if i == 2 {
            WindowAction::TopHalf
        } else if i == 3 {
            WindowAction::BottomHalf
        } else if i == 4 {
            WindowAction::Maximize
        } else if i == 5 {
            WindowAction::Center
        } else if i == 6 {
            WindowAction::Restore
        } else if i == 7 {
            WindowAction::MoveLeft
        } else if i == 8 {
            WindowAction::MoveRight
        } else if i == 9 {
            WindowAction::PreviousDisplay
        } else {
            WindowAction::NextDisplay
        }
    }

    pub fn from_ordinal(i: usize) -> (a: WindowAction)
        requires
            i < 11,
        ensures
            a == WindowAction::at(i as int),
    {
        match i {
            0 => WindowAction::LeftHalf,
            1 => WindowAction::RightHalf,
            2 => WindowAction::TopHalf,
            3 => WindowAction::BottomHalf,
            4 => WindowAction::Maximize,
            5 => WindowAction::Center,
            6 => WindowAction::Restore,
            7 => WindowAction::MoveLeft,
            8 => WindowAction::MoveRight,
            9 => WindowAction::PreviousDisplay,
            _ => WindowAction::NextDisplay,
        }
    }

    /// The position in canonical order, as a number.
    pub fn rank(self) -> (r: usize)
        ensures
            r == self.ordinal(),
    {
        match self {
            WindowAction::LeftHalf => 0,
            WindowAction::RightHalf => 1,
            WindowAction::TopHalf => 2,
            WindowAction::BottomHalf => 3,
            WindowAction::Maximize => 4,
            WindowAction::Center => 5,
            WindowAction::Restore => 6,
            WindowAction::MoveLeft => 7,
            WindowAction::MoveRight => 8,
            WindowAction::PreviousDisplay => 9,
            WindowAction::NextDisplay => 10,
        }
    }

    /// The identifier of each action as a character sequence.
    pub open spec fn id_chars(self) -> Seq<char> {
        match self {
            WindowAction::LeftHalf => seq!['l', 'e', 'f', 't', '-', 'h', 'a', 'l', 'f'],
            WindowAction::RightHalf => seq!['r', 'i', 'g', 'h', 't', '-', 'h', 'a', 'l', 'f'],
            WindowAction::TopHalf => seq!['t', 'o', 'p', '-', 'h', 'a', 'l', 'f'],
            WindowAction::BottomHalf => seq!['b', 'o', 't', 't', 'o', 'm', '-', 'h', 'a', 'l', 'f'],
            WindowAction::Maximize => seq!['m', 'a', 'x', 'i', 'm', 'i', 'z', 'e'],
            WindowAction::Center => seq!['c', 'e', 'n', 't', 'e', 'r'],
            WindowAction::Restore => seq!['r', 'e', 's', 't', 'o', 'r', 'e'],
            WindowAction::MoveLeft => seq!['m', 'o', 'v', 'e', '-', 'l', 'e', 'f', 't'],
            WindowAction::MoveRight => seq!['m', 'o', 'v', 'e', '-', 'r', 'i', 'g', 'h', 't'],
            WindowAction::PreviousDisplay => seq![
                'p', 'r', 'e', 'v', 'i', 'o', 'u', 's', '-', 'd', 'i', 's', 'p', 'l', 'a', 'y',
            ],
            WindowAction::NextDisplay => seq![
                'n', 'e', 'x', 't', '-', 'd', 'i', 's', 'p', 'l', 'a', 'y',
            ],
        }
    }

    /// Stable machine-readable identifier, also used as the JSON config key.
    pub fn id(self) -> (r: &'static str)
        ensures
            r@ == self.id_chars(),
    {
        match self {
            WindowAction::LeftHalf => {
                proof {
                    reveal_strlit("left-half");
                }
                "left-half"
            },
            WindowAction::RightHalf => {
                proof {
                    reveal_strlit("right-half");
                }
                "right-half"
            },
            WindowAction::TopHalf => {
                proof {
                    reveal_strlit("top-half");
                }
                "top-half"
            },
            WindowAction::BottomHalf => {
                proof {
                    reveal_strlit("bottom-half");
                }
                "bottom-half"
            },
            WindowAction::Maximize => {
                proof {
                    reveal_strlit("maximize");
                }
                "maximize"
            },
            WindowAction::Center => {
                proof {
                    reveal_strlit("center");
                }
                "center"
            },
            WindowAction::Restore => {
                proof {
                    reveal_strlit("restore");
                }
                "restore"
            },
            WindowAction::MoveLeft => {
                proof {
                    reveal_strlit("move-left");
                }
                "move-left"
            },
            WindowAction::MoveRight => {
                proof {
                    reveal_strlit("move-right");
                }
                "move-right"
            },
            WindowAction::PreviousDisplay => {
                proof {
                    reveal_strlit("previous-display");
                }
                "previous-display"
            },
            WindowAction::NextDisplay => {
                proof {
                    reveal_strlit("next-display");
                }
                "next-display"
            },
        }
    }

    /// The human-readable label of each action.
    pub open spec fn label_chars(self) -> Seq<char> {
        match self {
            WindowAction::LeftHalf => seq!['L', 'e', 'f', 't', ' ', 'H', 'a', 'l', 'f'],
            WindowAction::RightHalf => seq!['R', 'i', 'g', 'h', 't', ' ', 'H', 'a', 'l', 'f'],
            WindowAction::TopHalf => seq!['T', 'o', 'p', ' ', 'H', 'a', 'l', 'f'],
            WindowAction::BottomHalf => seq!['B', 'o', 't', 't', 'o', 'm', ' ', 'H', 'a', 'l', 'f'],
            WindowAction::Maximize => seq!['M', 'a', 'x', 'i', 'm', 'i', 'z', 'e'],
            WindowAction::Center => seq!['C', 'e', 'n', 't', 'e', 'r'],
            WindowAction::Restore => seq!['R', 'e', 's', 't', 'o', 'r', 'e'],
            WindowAction::MoveLeft => seq!['M', 'o', 'v', 'e', ' ', 'L', 'e', 'f', 't'],
            WindowAction::MoveRight => seq!['M', 'o', 'v', 'e', ' ', 'R', 'i', 'g', 'h', 't'],
            WindowAction::PreviousDisplay => seq![
                'P', 'r', 'e', 'v', 'i', 'o', 'u', 's', ' ', 'D', 'i', 's', 'p', 'l', 'a', 'y',
            ],
            WindowAction::NextDisplay => seq![
                'N', 'e', 'x', 't', ' ', 'D', 'i', 's', 'p', 'l', 'a', 'y',
            ],
        }
    }

    /// Human-readable label for menus and the settings window.
    pub fn label(self) -> (r: &'static str)
        ensures
            r@ == self.label_chars(),
    {
        match self {
            WindowAction::LeftHalf => {
                proof {
                    reveal_strlit("Left Half");
                }
                "Left Half"
            },
            WindowAction::RightHalf => {
                proof {
                    reveal_strlit("Right Half");
                }
                "Right Half"
            },
            WindowAction::TopHalf => {
                proof {
                    reveal_strlit("Top Half");
                }
                "Top Half"
            },
            WindowAction::BottomHalf => {
                proof {
                    reveal_strlit("Bottom Half");
                }
                "Bottom Half"
            },
            WindowAction::Maximize => {
                proof {
                    reveal_strlit("Maximize");
                }
                "Maximize"
            },
            WindowAction::Center => {
                proof {
                    reveal_strlit("Center");
                }
                "Center"
            },
            WindowAction::Restore => {
                proof {
                    reveal_strlit("Restore");
                }
                "Restore"
            },
            WindowAction::MoveLeft => {
                proof {
                    reveal_strlit("Move Left");
                }
                "Move Left"
            },
            WindowAction::MoveRight => {
                proof {
                    reveal_strlit("Move Right");
                }
                "Move Right"
            },
            WindowAction::PreviousDisplay => {
                proof {
                    reveal_strlit("Previous Display");
                }
                "Previous Display"
            },
            WindowAction::NextDisplay => {
                proof {
                    reveal_strlit("Next Display");
                }
                "Next Display"
            },
        }
    }

    /// `Restore` is handled by the window-history layer rather than by pure
    /// geometry, so it has no computable target rectangle.
    pub fn uses_history(self) -> (r: bool)
        ensures
            r == (self == WindowAction::Restore),
    {
        matches!(self, WindowAction::Restore)
    }

    /// Whether the action throws the window to another display.
    pub fn moves_display(self) -> (r: bool)
        ensures
            r == (self == WindowAction::PreviousDisplay || self == WindowAction::NextDisplay),
    {
        matches!(self, WindowAction::PreviousDisplay | WindowAction::NextDisplay)
    }

    /// Parses an identifier produced by [`WindowAction::id`].
    pub fn parse(s: &str) -> (r: Result<WindowAction, ParseActionError>)
        ensures
            match (r, parse_action(s@)) {
                (Ok(a), Ok(b)) => a == b,
                (Err(ParseActionError(t)), Err(u)) => t@ == u,
                _ => false,
            },
    {
        let wanted = chars_of(s);
        let mut i: usize = 0;
        while i < 11
            invariant
                wanted@ == s@,
                i <= 11,
                forall|j: int| 0 <= j < i ==> WindowAction::at(j).id_chars() != s@,
            decreases 11 - i,
        {
            let a = WindowAction::from_ordinal(i);
            let id = chars_of(a.id());
            if crate::text::chars_eq(id.as_slice(), wanted.as_slice()) {
                proof {
                    lemma_action_ids_unique(a, choose|b: WindowAction| b.id_chars() == s@);
                }
                return Ok(a);
            }
            i = i + 1;
        }
        proof {
            assert forall|a: WindowAction| a.id_chars() != s@ by {
                assert(WindowAction::at(a.ordinal()) == a);
            }
        }
        Err(ParseActionError(crate::text::string_from_chars(&wanted)))
    }
}

/// The action whose identifier is `s`, or the unknown identifier itself.
pub open spec fn parse_action(s: Seq<char>) -> Result<WindowAction, Seq<char>> {
    if exists|a: WindowAction| a.id_chars() == s {
        Ok(choose|a: WindowAction| a.id_chars() == s)
    } else {
        Err(s)
    }
}

/// Identifiers are unique, so parsing an identifier is unambiguous.
pub proof fn lemma_action_ids_unique(a: WindowAction, b: WindowAction)
    requires
        a.id_chars() == b.id_chars(),
    ensures
        a == b,
{
    let x = a.id_chars();
    let y = b.id_chars();
    assert(x.len() == y.len());
    if x.len() > 0 {
        assert(x[0] == y[0]);
    }
    if x.len() > 4 {
        assert(x[4] == y[4]);
    }
    if x.len() > 5 {
        assert(x[5] == y[5]);
    }
}

/// Parsing the identifier of an action gives that action back.
pub proof fn lemma_parse_inverts_id(a: WindowAction)
    ensures
        parse_action(a.id_chars()) == Ok::<WindowAction, Seq<char>>(a),
{
    let b = choose|b: WindowAction| b.id_chars() == a.id_chars();
    lemma_action_ids_unique(a, b);
}

/// Each action is persisted under its documented identifier, and each
/// documented identifier reads back as its own action.
pub proof fn lemma_documented_ids()
    ensures
        WindowAction::LeftHalf.id_chars() == "left-half"@,
        parse_action("left-half"@) == Ok::<WindowAction, Seq<char>>(WindowAction::LeftHalf),
        WindowAction::RightHalf.id_chars() == "right-half"@,
        parse_action("right-half"@) == Ok::<WindowAction, Seq<char>>(WindowAction::RightHalf),
        WindowAction::TopHalf.id_chars() == "top-half"@,
        parse_action("top-half"@) == Ok::<WindowAction, Seq<char>>(WindowAction::TopHalf),
        WindowAction::BottomHalf.id_chars() == "bottom-half"@,
        parse_action("bottom-half"@) == Ok::<WindowAction, Seq<char>>(WindowAction::BottomHalf),
        WindowAction::Maximize.id_chars() == "maximize"@,
        parse_action("maximize"@) == Ok::<WindowAction, Seq<char>>(WindowAction::Maximize),
        WindowAction::Center.id_chars() == "center"@,
        parse_action("center"@) == Ok::<WindowAction, Seq<char>>(WindowAction::Center),
        WindowAction::Restore.id_chars() == "restore"@,
        parse_action("restore"@) == Ok::<WindowAction, Seq<char>>(WindowAction::Restore),
        WindowAction::MoveLeft.id_chars() == "move-left"@,
        parse_action("move-left"@) == Ok::<WindowAction, Seq<char>>(WindowAction::MoveLeft),
        WindowAction::MoveRight.id_chars() == "move-right"@,
        parse_action("move-right"@) == Ok::<WindowAction, Seq<char>>(WindowAction::MoveRight),
        WindowAction::PreviousDisplay.id_chars() == "previous-display"@,
        parse_action("previous-display"@) == Ok::<WindowAction, Seq<char>>(WindowAction::PreviousDisplay),
        WindowAction::NextDisplay.id_chars() == "next-display"@,
        parse_action("next-display"@) == Ok::<WindowAction, Seq<char>>(WindowAction::NextDisplay),
{
    reveal_strlit("left-half");
    assert(WindowAction::LeftHalf.id_chars() =~= "left-half"@);
    lemma_parse_inverts_id(WindowAction::LeftHalf);
    reveal_strlit("right-half");
    assert(WindowAction::RightHalf.id_chars() =~= "right-half"@);
    lemma_parse_inverts_id(WindowAction::RightHalf);
    reveal_strlit("top-half");
    assert(WindowAction::TopHalf.id_chars() =~= "top-half"@);
    lemma_parse_inverts_id(WindowAction::TopHalf);
    reveal_strlit("bottom-half");
    assert(WindowAction::BottomHalf.id_chars() =~= "bottom-half"@);
    lemma_parse_inverts_id(WindowAction::BottomHalf);
    reveal_strlit("maximize");
    assert(WindowAction::Maximize.id_chars() =~= "maximize"@);
    lemma_parse_inverts_id(WindowAction::Maximize);
    reveal_strlit("center");
    assert(WindowAction::Center.id_chars() =~= "center"@);
    lemma_parse_inverts_id(WindowAction::Center);
    reveal_strlit("restore");
    assert(WindowAction::Restore.id_chars() =~= "restore"@);
    lemma_parse_inverts_id(WindowAction::Restore);
    reveal_strlit("move-left");
    assert(WindowAction::MoveLeft.id_chars() =~= "move-left"@);
    lemma_parse_inverts_id(WindowAction::MoveLeft);
    reveal_strlit("move-right");
    assert(WindowAction::MoveRight.id_chars() =~= "move-right"@);
    lemma_parse_inverts_id(WindowAction::MoveRight);
    reveal_strlit("previous-display");
    assert(WindowAction::PreviousDisplay.id_chars() =~= "previous-display"@);
    lemma_parse_inverts_id(WindowAction::PreviousDisplay);
    reveal_strlit("next-display");
    assert(WindowAction::NextDisplay.id_chars() =~= "next-display"@);
    lemma_parse_inverts_id(WindowAction::NextDisplay);
}

impl core::str::FromStr for WindowAction {
    type Err = ParseActionError;

    /// The same as [`WindowAction::parse`].
    fn from_str(s: &str) -> (r: Result<Self, Self::Err>)
        ensures
            match (r, parse_action(s@)) {
                (Ok(a), Ok(b)) => a == b,
                (Err(ParseActionError(t)), Err(u)) => t@ == u,
                _ => false,
            },
    {
        WindowAction::parse(s)
    }
}

/// Which edges of a target rectangle are shared with a neighbouring window
/// rather than lying against the screen edge.
#[derive(Debug, Clone, Copy, Default, PartialEq, Eq, Structural)]
pub struct SharedEdges {
    pub left: bool,
    pub right: bool,
    pub top: bool,
    pub bottom: bool,
}

} // verus!
