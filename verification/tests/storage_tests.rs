use komorebi::storage::SparseArray;
use komorebi::storage::SparseSet;

#[test]
fn sparse_array_insert_get_remove() {
    let mut a: SparseArray<&str> = SparseArray::new();
    assert!(!a.contains(0));
    assert!(a.get(3).is_none());
    a.insert(3, "three");
    assert!(a.contains(3));
    assert_eq!(a.get(3), Some(&"three"));
    assert!(!a.contains(2));
    assert_eq!(a.remove(3), Some("three"));
    assert_eq!(a.remove(3), None);
    assert!(!a.contains(3));
}

#[test]
fn sparse_array_grows_on_demand() {
    let mut a: SparseArray<u8> = SparseArray::new();
    a.insert(100, 7);
    assert!(a.contains(100));
    assert!(!a.contains(99));
    assert_eq!(a.get(100), Some(&7));
    a.clear();
    assert!(!a.contains(100));
}

#[test]
fn sparse_set_insert_get_len() {
    let mut s: SparseSet<String> = SparseSet::new();
    assert_eq!(s.len(), 0);
    s.insert(5, String::from("e"));
    s.insert(1, String::from("a"));
    assert_eq!(s.len(), 2);
    assert!(s.contains(1));
    assert!(s.contains(5));
    assert!(!s.contains(3));
    assert_eq!(s.get(5), Some(&String::from("e")));
    assert_eq!(s.get(3), None);
}

#[test]
fn sparse_set_insert_replaces_in_place() {
    let mut s: SparseSet<i32> = SparseSet::new();
    s.insert(2, 10);
    s.insert(2, 20);
    assert_eq!(s.len(), 1);
    assert_eq!(s.get(2), Some(&20));
    assert_eq!(s.values(), &vec![20]);
}

#[test]
fn sparse_set_remove_swaps_last_into_hole() {
    let mut s: SparseSet<&str> = SparseSet::new();
    s.insert(1, "a");
    s.insert(3, "c");
    s.insert(5, "e");
    assert_eq!(s.remove(3), Some("c"));
    assert_eq!(s.len(), 2);
    assert_eq!(s.get(1), Some(&"a"));
    assert_eq!(s.get(5), Some(&"e"));
    assert_eq!(s.get(3), None);
    assert_eq!(s.remove(3), None);
    assert_eq!(s.len(), 2);
}

#[test]
fn sparse_set_get_mut_updates_value() {
    let mut s: SparseSet<i32> = SparseSet::new();
    s.insert(4, 1);
    if let Some(v) = s.get_mut(4) {
        *v = 99;
    }
    assert_eq!(s.get(4), Some(&99));
    assert!(s.get_mut(7).is_none());
}

#[test]
fn sparse_set_values_in_insertion_order() {
    let mut s: SparseSet<&str> = SparseSet::new();
    s.insert(9, "x");
    s.insert(2, "y");
    s.insert(7, "z");
    assert_eq!(s.values(), &vec!["x", "y", "z"]);
}
