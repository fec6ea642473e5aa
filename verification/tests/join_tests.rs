use komorebi::join::join2;
use komorebi::join::join3_indices;
use komorebi::join::join_indices;
use komorebi::masked::Masked;
use komorebi::storage::SparseSet;

#[test]
fn join_two_storages_yields_sorted_intersection() {
    let mut a: Masked<SparseSet<String>> = Masked::new(SparseSet::new());
    a.insert(1, String::from("a"));
    a.insert(3, String::from("c"));
    a.insert(5, String::from("e"));
    let mut b: Masked<SparseSet<i32>> = Masked::new(SparseSet::new());
    b.insert(3, 10);
    b.insert(5, 20);
    b.insert(7, 30);

    assert_eq!(join_indices(&a, &b), vec![3, 5]);

    let joined = join2(&a, &b);
    assert_eq!(joined.len(), 2);
    assert_eq!(joined[0], (3, &String::from("c"), &10));
    assert_eq!(joined[1], (5, &String::from("e"), &20));
}

#[test]
fn join_matches_direct_lookup() {
    let mut a: Masked<SparseSet<i32>> = Masked::new(SparseSet::new());
    let mut b: Masked<SparseSet<i32>> = Masked::new(SparseSet::new());
    for i in 0..20u32 {
        if i % 2 == 0 {
            a.insert(i, (i * 100) as i32);
        }
        if i % 3 == 0 {
            b.insert(i, (i * 1000) as i32);
        }
    }
    for (i, va, vb) in join2(&a, &b) {
        assert_eq!(Some(va), a.get(i));
        assert_eq!(Some(vb), b.get(i));
        assert_eq!(i % 6, 0);
    }
    assert_eq!(join_indices(&a, &b), vec![0, 6, 12, 18]);
}

#[test]
fn join_with_disjoint_masks_is_empty() {
    let mut a: Masked<SparseSet<i32>> = Masked::new(SparseSet::new());
    let mut b: Masked<SparseSet<i32>> = Masked::new(SparseSet::new());
    a.insert(1, 1);
    a.insert(2, 2);
    b.insert(3, 3);
    assert!(join_indices(&a, &b).is_empty());
    assert!(join2(&a, &b).is_empty());
}

#[test]
fn join_three_storages() {
    let mut a: Masked<SparseSet<i32>> = Masked::new(SparseSet::new());
    let mut b: Masked<SparseSet<i32>> = Masked::new(SparseSet::new());
    let mut c: Masked<SparseSet<i32>> = Masked::new(SparseSet::new());
    for i in [1u32, 2, 4, 8] {
        a.insert(i, 0);
    }
    for i in [2u32, 4, 8, 9] {
        b.insert(i, 0);
    }
    for i in [0u32, 4, 8] {
        c.insert(i, 0);
    }
    assert_eq!(join3_indices(&a, &b, &c), vec![4, 8]);
}
