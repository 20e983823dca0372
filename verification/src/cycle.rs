//! Choosing the next step when a shortcut is pressed again and the window
//! cycles through the configured sizes.
//!
//! The step is recovered from geometry: the caller lays out one rectangle per
//! configured size, notes which of them the window already occupies, and
//! passes the index of the one it matched (if any). The choice itself is
//! pure index arithmetic and lives here.

use vstd::prelude::*;

verus! {

/// Where the walk over the steps begins: after the matched step going
/// forwards, before it going backwards, and at the matching end when nothing
/// matched.
pub open spec fn walk_start(current: Option<usize>, len: int, backwards: bool) -> int {
    match current {
        None => if backwards {
            len - 1
        } else {
            0
        },
        Some(i) => if backwards {
            (i + len - 1) % len
        } else {
            i + 1
        },
    }
}

/// The step visited `offset` places into the walk.
pub open spec fn walk_step(start: int, offset: int, len: int, backwards: bool) -> int {
    if backwards {
        (start + len - offset) % len
    } else {
        (start + offset) % len
    }
}

/// The first step of the walk that does not leave the window where it is.
pub open spec fn first_moving_step(
    same: Seq<bool>,
    current: Option<usize>,
    backwards: bool,
    k: int,
) -> Option<int>
    decreases same.len() - k,
{
    if k >= same.len() || k < 0 {
        None
    } else {
        let j = walk_step(walk_start(current, same.len() as int, backwards), k, same.len() as int, backwards);
        if !same[j] {
            Some(j)
        } else {
            first_moving_step(same, current, backwards, k + 1)
        }
    }
}

/// The index of the next size to apply, given which sizes the window already
/// occupies (`same`) and the one it was matched against (`current`); steps
/// that would leave the window in place are skipped, and `None` means every
/// size does. Backwards cycles walk the same sequence in reverse.
pub fn next_cycle_index(same: &Vec<bool>, current: Option<usize>, backwards: bool) -> (r: Option<
    usize,
>)
    requires
        same.len() <= usize::MAX / 2,
        current matches Some(i) ==> i < same.len(),
    ensures
        r == (match first_moving_step(same@, current, backwards, 0) {
            Some(j) => Some(j as usize),
            None => None::<usize>,
        }),
{
    let len = same.len();
    if len == 0 {
        return None;
    }
    let start: usize = match current {
        None => if backwards {
            len - 1
        } else {
            0
        },
        Some(i) => if backwards {
            (i + len - 1) % len
        } else {
            i + 1
        },
    };
    let mut k: usize = 0;
    while k < len
        invariant
            len == same.len(),
            0 < len <= usize::MAX / 2,
            start <= len,
            start == walk_start(current, len as int, backwards),
            k <= len,
            first_moving_step(same@, current, backwards, 0) == first_moving_step(
                same@,
                current,
                backwards,
                k as int,
            ),
        decreases len - k,
    {
        let j: usize = if backwards {
            (start + len - k) % len
        } else {
            (start + k) % len
        };
        if !same[j] {
            return Some(j);
        }
        k = k + 1;
    }
    None
}

/// Each step of the walk is a valid index.
proof fn lemma_walk_step_in_range(start: int, offset: int, len: int, backwards: bool)
    requires
        len > 0,
    ensures
        0 <= walk_step(start, offset, len, backwards) < len,
{
}

/// The walk visits every step: for each index there is an offset that lands
/// on it.
proof fn lemma_walk_covers(start: int, j: int, len: int, backwards: bool) -> (k: int)
    requires
        0 < len,
        0 <= start,
        0 <= j < len,
    ensures
        0 <= k < len,
        walk_step(start, k, len, backwards) == j,
{
    if backwards {
        let k = (start - j) % len;
        assert((start + len - k) % len == j) by {
            vstd::arithmetic::div_mod::lemma_fundamental_div_mod(start - j, len);
            let q = (start - j) / len;
            assert(start + len - k == j + len * (1 + q)) by (nonlinear_arith)
                requires
                    k == (start - j) % len,
                    start - j == len * q + (start - j) % len,
            ;
            vstd::arithmetic::div_mod::lemma_mod_multiples_vanish(1 + q, j, len);
            vstd::arithmetic::div_mod::lemma_small_mod(j as nat, len as nat);
        };
        k
    } else {
        let k = (j - start) % len;
        assert((start + k) % len == j) by {
            vstd::arithmetic::div_mod::lemma_fundamental_div_mod(j - start, len);
            let q = (j - start) / len;
            assert(start + k == j + len * (-q)) by (nonlinear_arith)
                requires
                    k == (j - start) % len,
                    j - start == len * q + (j - start) % len,
            ;
            vstd::arithmetic::div_mod::lemma_mod_multiples_vanish(-q, j, len);
            vstd::arithmetic::div_mod::lemma_small_mod(j as nat, len as nat);
        };
        k
    }
}

/// The walk from offset `k` finds a step whenever one of the remaining
/// offsets moves the window, and what it finds moves the window.
proof fn lemma_first_moving_step(same: Seq<bool>, current: Option<usize>, backwards: bool, k: int)
    requires
        0 <= k,
    ensures
        first_moving_step(same, current, backwards, k) matches Some(j) ==> 0 <= j < same.len()
            && !same[j],
        first_moving_step(same, current, backwards, k) is None ==> forall|m: int|
            k <= m < same.len() ==> #[trigger] same[walk_step(
                walk_start(current, same.len() as int, backwards),
                m,
                same.len() as int,
                backwards,
            )],
    decreases same.len() - k,
{
    if k < same.len() {
        lemma_walk_step_in_range(
            walk_start(current, same.len() as int, backwards),
            k,
            same.len() as int,
            backwards,
        );
        lemma_first_moving_step(same, current, backwards, k + 1);
    }
}

/// A press never leaves the window where it is unless every configured size
/// would: the chosen step moves the window, and no step is chosen exactly
/// when all of them leave it in place.
pub proof fn lemma_cycle_never_stalls(same: Seq<bool>, current: Option<usize>, backwards: bool)
    requires
        current matches Some(i) ==> i < same.len(),
    ensures
        first_moving_step(same, current, backwards, 0) matches Some(j) ==> 0 <= j < same.len()
            && !same[j],
        first_moving_step(same, current, backwards, 0) is None <==> forall|j: int|
            0 <= j < same.len() ==> #[trigger] same[j],
{
    lemma_first_moving_step(same, current, backwards, 0);
    let len = same.len() as int;
    if first_moving_step(same, current, backwards, 0) is None && len > 0 {
        let start = walk_start(current, len, backwards);
        assert(0 <= start) by {
            if backwards {
                if let Some(i) = current {
                    assert((i + len - 1) % len >= 0);
                }
            }
        };
        assert forall|j: int| 0 <= j < len implies #[trigger] same[j] by {
            let k = lemma_walk_covers(start, j, len, backwards);
            assert(same[walk_step(start, k, len, backwards)]);
        };
    }
}

/// The step `d` places away from step `i` among `len` steps, going
/// backwards or forwards and wrapping around.
pub open spec fn steps_away(i: int, d: int, len: int, backwards: bool) -> int {
    if backwards {
        (i + len - d) % len
    } else {
        (i + d) % len
    }
}

/// Each visit of the walk from a matched step `i` is the step `d` places
/// away from it in the walk's direction, `d` counted from 1.
proof fn lemma_walk_after_step(i: usize, k: int, len: int, backwards: bool)
    requires
        0 <= i < len,
        0 <= k < len,
    ensures
        walk_step(walk_start(Some(i), len, backwards), k, len, backwards) == steps_away(
            i as int,
            k + 1,
            len,
            backwards,
        ),
{
    let start = walk_start(Some(i), len, backwards);
    if backwards {
        if i >= 1 {
            vstd::arithmetic::div_mod::lemma_mod_add_multiples_vanish(i - 1, len);
            vstd::arithmetic::div_mod::lemma_small_mod((i - 1) as nat, len as nat);
            assert(len + (i - 1) == i + len - 1);
            assert(start == i - 1);
            assert(start + len - k == i + len - (k + 1));
        } else {
            vstd::arithmetic::div_mod::lemma_small_mod((len - 1) as nat, len as nat);
            assert(start == len - 1);
            let x = len - 1 - k;
            vstd::arithmetic::div_mod::lemma_mod_add_multiples_vanish(x, len);
            assert(start + len - k == len + x);
            assert(i + len - (k + 1) == x);
        }
    } else {
        assert(start == i + 1);
        assert(start + k == i + (k + 1));
    }
}

/// Pressing again when every configured size would move the window goes to
/// the adjacent step: the next one forwards, the previous one backwards,
/// wrapping around; with no matched step, the first forwards or the last
/// backwards.
pub proof fn lemma_cycle_adjacent(same: Seq<bool>, current: Option<usize>, backwards: bool)
    requires
        same.len() > 0,
        current matches Some(i) ==> i < same.len(),
        forall|j: int| 0 <= j < same.len() ==> !#[trigger] same[j],
    ensures
        first_moving_step(same, current, backwards, 0) == Some(
            match current {
                Some(i) => if backwards {
                    (i + same.len() - 1) % (same.len() as int)
                } else {
                    (i + 1) % (same.len() as int)
                },
                None => if backwards {
                    same.len() - 1
                } else {
                    0
                },
            },
        ),
{
    let len = same.len() as int;
    let start = walk_start(current, len, backwards);
    lemma_walk_step_in_range(start, 0, len, backwards);
    match current {
        Some(i) => {
            lemma_walk_after_step(i, 0, len, backwards);
        },
        None => {
            if backwards {
                vstd::arithmetic::div_mod::lemma_mod_add_multiples_vanish(len - 1, len);
                vstd::arithmetic::div_mod::lemma_small_mod((len - 1) as nat, len as nat);
            } else {
                vstd::arithmetic::div_mod::lemma_small_mod(0, len as nat);
            }
        },
    }
}

/// From a matched step, a press picks the nearest step in the walk's
/// direction that moves the window: the step `d` places away, `1 <= d`,
/// with every step between leaving the window in place.
pub proof fn lemma_cycle_nearest_moving(same: Seq<bool>, i: usize, backwards: bool)
    requires
        i < same.len(),
    ensures
        first_moving_step(same, Some(i), backwards, 0) matches Some(j) ==> exists|d: int|
            1 <= d <= same.len() && j == steps_away(i as int, d, same.len() as int, backwards) && forall|e: int|
                1 <= e < d ==> #[trigger] same[steps_away(i as int, e, same.len() as int, backwards)],
{
    lemma_nearest_from(same, i, backwards, 0);
}

proof fn lemma_nearest_from(same: Seq<bool>, i: usize, backwards: bool, k: int)
    requires
        i < same.len(),
        0 <= k <= same.len(),
        forall|e: int|
            1 <= e <= k ==> #[trigger] same[steps_away(i as int, e, same.len() as int, backwards)],
    ensures
        first_moving_step(same, Some(i), backwards, k) matches Some(j) ==> exists|d: int|
            1 <= d <= same.len() && j == steps_away(i as int, d, same.len() as int, backwards) && forall|e: int|
                1 <= e < d ==> #[trigger] same[steps_away(i as int, e, same.len() as int, backwards)],
    decreases same.len() - k,
{
    let len = same.len() as int;
    if k < len {
        lemma_walk_after_step(i, k, len, backwards);
        let j = walk_step(walk_start(Some(i), len, backwards), k, len, backwards);
        if same[j] {
            lemma_nearest_from(same, i, backwards, k + 1);
        } else {
            assert(first_moving_step(same, Some(i), backwards, k) == Some(j));
            let d = k + 1;
            assert(forall|e: int|
                1 <= e < d ==> #[trigger] same[steps_away(i as int, e, same.len() as int, backwards)]);
        }
    }
}

} // verus!
