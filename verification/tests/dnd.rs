use rye::dnd::{apply_drop_pre_pass, reorder, DropOutcome};

#[test]
fn apply_drop_pre_pass_reorders_vec_on_release() {
    let mut vec = vec!['a', 'b', 'c', 'd'];
    let outcome = apply_drop_pre_pass(&mut vec, true, Some(3), Some(0));
    assert!(outcome.moved, "release with valid payload + drop_idx should reorder");
    assert_eq!(vec, vec!['b', 'c', 'a', 'd']);
}

#[test]
fn apply_drop_pre_pass_noop_without_release() {
    let mut vec = vec!['a', 'b', 'c'];
    let outcome = apply_drop_pre_pass(&mut vec, false, Some(2), Some(0));
    assert_eq!(outcome, DropOutcome { take_payload: false, moved: false });
    assert_eq!(vec, vec!['a', 'b', 'c']);
}

#[test]
fn moving_left_and_in_place() {
    let mut vec = vec![1, 2, 3, 4];
    assert!(reorder(&mut vec, 3, 0));
    assert_eq!(vec, vec![4, 1, 2, 3]);
    assert!(!reorder(&mut vec, 1, 1));
    assert!(!reorder(&mut vec, 9, 0));
    assert!(reorder(&mut vec, 1, 2));
    assert_eq!(vec, vec![4, 1, 2, 3]);
}

#[test]
fn a_drop_outside_every_slot_moves_nothing() {
    let mut vec = vec![1, 2];
    let outcome = apply_drop_pre_pass(&mut vec, true, None, Some(0));
    assert!(!outcome.moved);
    let outcome = apply_drop_pre_pass(&mut vec, true, Some(2), None);
    assert!(!outcome.moved);
    assert_eq!(vec, vec![1, 2]);
}
