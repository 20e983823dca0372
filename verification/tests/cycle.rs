use tile::cycle::next_cycle_index;

#[test]
fn a_first_press_starts_at_the_matching_end() {
    let same = vec![false, false, false];
    assert_eq!(next_cycle_index(&same, None, false), Some(0));
    assert_eq!(next_cycle_index(&same, None, true), Some(2));
}

#[test]
fn repeats_advance_and_wrap() {
    let same = vec![false, false, false];
    assert_eq!(next_cycle_index(&same, Some(0), false), Some(1));
    assert_eq!(next_cycle_index(&same, Some(2), false), Some(0));
    assert_eq!(next_cycle_index(&same, Some(2), true), Some(1));
    assert_eq!(next_cycle_index(&same, Some(0), true), Some(2));
}

#[test]
fn steps_that_would_not_move_the_window_are_skipped() {
    // The window sits on step 0; step 1 happens to be the same rectangle.
    let same = vec![true, true, false];
    assert_eq!(next_cycle_index(&same, Some(0), false), Some(2));
    assert_eq!(next_cycle_index(&same, Some(0), true), Some(2));
    let same = vec![true, false, true];
    assert_eq!(next_cycle_index(&same, Some(2), false), Some(1));
}

#[test]
fn nothing_is_chosen_when_every_step_leaves_the_window_in_place() {
    assert_eq!(next_cycle_index(&vec![true, true], Some(1), false), None);
    assert_eq!(next_cycle_index(&vec![true], None, true), None);
    assert_eq!(next_cycle_index(&vec![], None, false), None);
}
