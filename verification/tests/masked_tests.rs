use std::cell::Cell;
use std::rc::Rc;

use komorebi::masked::AbstractStorage;
use komorebi::masked::MaskOp;
use komorebi::masked::Masked;
use komorebi::storage::SparseSet;

/// A value that counts how many times it is released.
struct Token {
    drops: Rc<Cell<usize>>,
}

impl Drop for Token {
    fn drop(&mut self) {
        self.drops.set(self.drops.get() + 1);
    }
}

fn token(drops: &Rc<Cell<usize>>) -> Token {
    Token { drops: Rc::clone(drops) }
}

#[test]
fn masked_insert_returns_previous_value() {
    let mut m: Masked<SparseSet<&str>> = Masked::new(SparseSet::new());
    assert_eq!(m.insert(3, "a"), None);
    assert_eq!(m.insert(3, "b"), Some("a"));
    assert_eq!(m.get(3), Some(&"b"));
    assert!(m.contains(3));
}

#[test]
fn masked_remove_absent_returns_nothing() {
    let mut m: Masked<SparseSet<i32>> = Masked::new(SparseSet::new());
    m.insert(1, 10);
    assert_eq!(m.remove(5), None);
    assert!(m.contains(1));
    assert_eq!(m.get(1), Some(&10));
    assert_eq!(m.indices(), vec![1]);
}

#[test]
fn masked_round_trip() {
    let mut m: Masked<SparseSet<String>> = Masked::empty();
    m.insert(7, String::from("v"));
    assert_eq!(m.remove(7), Some(String::from("v")));
    assert_eq!(m.get(7), None);
    assert!(!m.contains(7));
}

#[test]
fn masked_get_mut_writes_through() {
    let mut m: Masked<SparseSet<i32>> = Masked::new(SparseSet::new());
    m.insert(2, 5);
    *m.get_mut(2) = 50;
    assert_eq!(m.get(2), Some(&50));
}

#[test]
fn masked_present_after_operation_sequence() {
    let mut m: Masked<SparseSet<i32>> = Masked::new(SparseSet::new());
    m.apply_ops(vec![
        MaskOp::Insert(1, 10),
        MaskOp::Insert(4, 40),
        MaskOp::Remove(1),
        MaskOp::Insert(2, 20),
        MaskOp::Remove(9),
        MaskOp::Insert(4, 41),
    ]);
    assert!(!m.contains(1));
    assert!(m.contains(2));
    assert!(m.contains(4));
    assert!(!m.contains(9));
    assert_eq!(m.indices(), vec![2, 4]);
    assert_eq!(m.get(4), Some(&41));
}

#[test]
fn masked_drop_releases_each_present_value_once() {
    let drops: Rc<Cell<usize>> = Rc::new(Cell::new(0));
    let mut m: Masked<SparseSet<Token>> = Masked::new(SparseSet::new());
    m.insert(1, token(&drops));
    m.insert(3, token(&drops));
    m.insert(8, token(&drops));
    assert_eq!(drops.get(), 0);
    drop(m);
    assert_eq!(drops.get(), 3);
}

#[test]
fn masked_replacement_neither_leaks_nor_double_releases() {
    let drops: Rc<Cell<usize>> = Rc::new(Cell::new(0));
    let mut m: Masked<SparseSet<Token>> = Masked::new(SparseSet::new());
    m.insert(1, token(&drops));
    let prev = m.insert(1, token(&drops));
    assert!(prev.is_some());
    drop(prev);
    assert_eq!(drops.get(), 1);
    drop(m);
    assert_eq!(drops.get(), 2);
}

#[test]
fn masked_removed_value_not_released_by_storage_drop() {
    let drops: Rc<Cell<usize>> = Rc::new(Cell::new(0));
    let mut m: Masked<SparseSet<Token>> = Masked::new(SparseSet::new());
    m.insert(2, token(&drops));
    m.insert(6, token(&drops));
    let taken = m.remove(2);
    assert!(taken.is_some());
    assert_eq!(drops.get(), 0);
    drop(m);
    assert_eq!(drops.get(), 1);
    drop(taken);
    assert_eq!(drops.get(), 2);
}

#[test]
fn masked_entries_walk_present_indices_ascending() {
    let mut m: Masked<SparseSet<&str>> = Masked::new(SparseSet::new());
    m.insert(9, "i");
    m.insert(2, "b");
    m.insert(5, "e");
    m.remove(5);
    assert_eq!(m.entries(), vec![(2, &"b"), (9, &"i")]);
    assert_eq!(m.entries(), vec![(2, &"b"), (9, &"i")]);
}

#[test]
fn free_clears_one_index_through_the_erased_interface() {
    let mut m: Masked<SparseSet<&str>> = Masked::new(SparseSet::new());
    m.insert(1, "a");
    m.insert(2, "b");
    m.free(1);
    assert!(!m.contains(1));
    assert_eq!(m.get(2), Some(&"b"));
    m.free(9);
    assert_eq!(m.indices(), vec![2]);
}
