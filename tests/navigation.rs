use yolo_mark_rs::keyboard_mapping::ZeroToNine;
use yolo_mark_rs::navigation::{index_after, next_name, prev_name, shortcut_choice};

#[test]
fn next_name_wraps() {
    assert_eq!(next_name(0, 3), 1);
    assert_eq!(next_name(2, 3), 0);
    assert_eq!(next_name(0, 0), 0);
    assert_eq!(next_name(usize::MAX, 3), 0);
}

#[test]
fn prev_name_wraps() {
    assert_eq!(prev_name(2, 3), 1);
    assert_eq!(prev_name(0, 3), 2);
    assert_eq!(prev_name(0, 1), 0);
}

#[test]
fn shortcut_digits_pick_name() {
    let digits = vec![ZeroToNine(1), ZeroToNine(2)];
    assert_eq!(shortcut_choice(&digits, 13), Some(12));
    assert_eq!(shortcut_choice(&digits, 12), None);
    assert_eq!(shortcut_choice(&vec![ZeroToNine(0), ZeroToNine(7)], 8), Some(7));
    assert_eq!(shortcut_choice(&vec![ZeroToNine(9); 30], usize::MAX), None);
}

#[test]
fn index_steps_within_list() {
    assert_eq!(index_after(5, 1, 10), 6);
    assert_eq!(index_after(5, -1, 10), 4);
    assert_eq!(index_after(9, 1, 10), 9);
    assert_eq!(index_after(0, -1, 10), 0);
    assert_eq!(index_after(3, 0, 10), 3);
    assert_eq!(index_after(3, isize::MIN, 10), 3);
    assert_eq!(index_after(3, isize::MAX, 10), 3);
    assert_eq!(index_after(2, 5, 10), 7);
}
