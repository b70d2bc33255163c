use game_engines::move_set::{same_move, MoveSet};

#[test]
fn insert_stores_each_move_once() {
    let mut s = MoveSet::new();
    assert_eq!(s.len(), 0);
    s.insert(((0, 0), (0, 1)));
    s.insert(((0, 0), (0, 1)));
    s.insert(((0, 1), (0, 0)));
    assert_eq!(s.len(), 2);
    assert!(s.contains(((0, 0), (0, 1))));
    assert!(s.contains(((0, 1), (0, 0))));
    assert!(!s.contains(((1, 0), (0, 0))));
}

#[test]
fn discard_removes_only_the_move_named() {
    let mut s = MoveSet::new();
    s.insert(((0, 0), (0, 1)));
    s.insert(((2, 2), (3, 3)));
    s.insert(((4, 4), (4, 5)));
    s.discard(((0, 0), (0, 1)));
    assert_eq!(s.len(), 2);
    assert!(!s.contains(((0, 0), (0, 1))));
    assert!(s.contains(((2, 2), (3, 3))));
    assert!(s.contains(((4, 4), (4, 5))));
    s.discard(((7, 7), (7, 8)));
    assert_eq!(s.len(), 2);
    s.discard(((4, 4), (4, 5)));
    s.discard(((2, 2), (3, 3)));
    assert_eq!(s.len(), 0);
    assert!(s.to_vec().is_empty());
}

#[test]
fn to_vec_and_copy_hold_the_same_moves() {
    let mut s = MoveSet::new();
    s.insert(((1, 1), (0, 2)));
    s.insert(((0, 2), (1, 1)));
    let twin = s.copy();
    s.discard(((1, 1), (0, 2)));
    let mut v = twin.to_vec();
    v.sort();
    assert_eq!(v, vec![((0, 2), (1, 1)), ((1, 1), (0, 2))]);
    assert_eq!(s.to_vec(), vec![((0, 2), (1, 1))]);
}

#[test]
fn same_move_compares_all_four_coordinates() {
    assert!(same_move(((1, 2), (3, 4)), ((1, 2), (3, 4))));
    assert!(!same_move(((1, 2), (3, 4)), ((0, 2), (3, 4))));
    assert!(!same_move(((1, 2), (3, 4)), ((1, 0), (3, 4))));
    assert!(!same_move(((1, 2), (3, 4)), ((1, 2), (0, 4))));
    assert!(!same_move(((1, 2), (3, 4)), ((1, 2), (3, 0))));
}
