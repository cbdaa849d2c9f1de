use bmset::BitmapSet;

#[test]
fn insert_is_idempotent() {
    let mut once = BitmapSet::<32>::from([3, 77].as_slice());
    once.insert(42);
    assert!(once.contains(42));
    let mut twice = once.clone();
    twice.insert(42);
    twice.insert(42);
    assert!(twice.contains(42));
    assert_eq!(once, twice);
    assert_eq!(once.len(), 3);
}

#[test]
fn remove_is_idempotent() {
    let mut once = BitmapSet::<32>::from([3, 42, 77].as_slice());
    once.remove(42);
    assert!(!once.contains(42));
    let mut twice = once.clone();
    twice.remove(42);
    assert!(!twice.contains(42));
    assert_eq!(once, twice);
    assert_eq!(once, BitmapSet::from([3, 77].as_slice()));
}

#[test]
fn remove_of_a_non_member_changes_nothing() {
    let mut set = BitmapSet::<2>::from([1, 9].as_slice());
    set.remove(8);
    assert_eq!(set, BitmapSet::from([1, 9].as_slice()));
}

#[test]
fn insert_then_remove_on_empty_gives_empty() {
    for v in [0u8, 1, 7, 8, 127, 128, 254, 255] {
        let mut set = BitmapSet::<32>::new();
        set.insert(v);
        assert!(!set.is_empty());
        set.remove(v);
        assert!(set.is_empty());
        assert_eq!(set, BitmapSet::<32>::new());
    }
}

#[test]
fn clear_leaves_nothing() {
    let mut set = BitmapSet::<4>::from([0, 5, 31].as_slice());
    set.clear();
    assert_eq!(set.len(), 0);
    assert!(set.is_empty());
    assert_eq!(set, BitmapSet::<4>::new());
    set.clear();
    assert!(set.is_empty());
}

#[test]
fn len_counts_the_members() {
    let set = BitmapSet::<32>::from([0, 1, 2, 8, 8, 255, 100, 1].as_slice());
    let mut count = 0;
    for v in 0..=u8::MAX {
        if set.contains(v) {
            count += 1;
        }
    }
    assert_eq!(count, 6);
    assert_eq!(set.len(), 6);
}

#[test]
fn complement_of_empty_is_full() {
    assert_eq!(BitmapSet::<1>::new().complement().len(), 8);
    assert_eq!(BitmapSet::<2>::new().complement().len(), 16);
    assert_eq!(BitmapSet::<10>::new().complement().len(), 80);
    assert_eq!(BitmapSet::<32>::new().complement().len(), 256);
    let full = BitmapSet::<2>::new().complement();
    for v in 0..16 {
        assert!(full.contains(v));
    }
}

#[test]
fn complement_twice_is_identity() {
    let set = BitmapSet::<4>::from([0, 7, 8, 30, 31].as_slice());
    assert_eq!(set.complement().complement(), set);
    let empty = BitmapSet::<4>::new();
    assert_eq!(empty.complement().complement(), empty);
}

#[test]
fn complement_of_a_near_full_set_has_six_members() {
    let set = BitmapSet::<32>::from_iter(5..u8::MAX);
    assert_eq!(set.len(), 250);
    assert_eq!(set.complement().len(), 6);
}

#[test]
fn de_morgan() {
    let a = BitmapSet::<32>::from([1, 8, 32, 220].as_slice());
    let b = BitmapSet::<32>::from([4, 8, 16, 32].as_slice());
    assert_eq!(a.union(&b).complement(), a.complement().intersection(&b.complement()));
    assert_eq!(a.intersection(&b).complement(), a.complement().union(&b.complement()));
}

#[test]
fn subset_is_reflexive_and_antisymmetric() {
    let a = BitmapSet::<2>::from([1, 2, 8].as_slice());
    let b = BitmapSet::<2>::from([8, 2, 1, 1].as_slice());
    let c = BitmapSet::<2>::from([1, 2].as_slice());
    assert!(a.is_subset(&a));
    assert!(a.is_subset(&b));
    assert!(b.is_subset(&a));
    assert_eq!(a, b);
    assert!(c.is_subset(&a));
    assert!(!a.is_subset(&c));
    assert_ne!(a, c);
}

#[test]
fn disjoint_means_empty_intersection() {
    let a = BitmapSet::<2>::from([1, 2, 3, 4].as_slice());
    let b = BitmapSet::<2>::from([3, 4, 5, 6].as_slice());
    let c = BitmapSet::<2>::from([5, 6, 7, 8].as_slice());
    assert!(a.is_disjoint(&c));
    assert!(a.intersection(&c).is_empty());
    assert!(!(0..16).any(|v| a.contains(v) && c.contains(v)));
    assert!(!a.is_disjoint(&b));
    assert!(!a.intersection(&b).is_empty());
    assert!((0..16).any(|v| a.contains(v) && b.contains(v)));
    let empty = BitmapSet::<2>::new();
    assert!(empty.is_disjoint(&empty));
    assert!(empty.is_disjoint(&a));
}

#[test]
fn iteration_yields_each_member_once_in_ascending_order() {
    let set = BitmapSet::<32>::from([200, 3, 3, 64, 63, 0, 255, 17].as_slice());
    let yielded: Vec<u8> = set.iter().collect();
    assert_eq!(yielded, vec![0, 3, 17, 63, 64, 200, 255]);
    let mut expected = Vec::new();
    for v in 0..=u8::MAX {
        if set.contains(v) {
            expected.push(v);
        }
    }
    assert_eq!(yielded, expected);
    assert_eq!(yielded.len(), set.len());
}

#[test]
fn iteration_of_an_empty_set_ends_at_once() {
    let set = BitmapSet::<32>::new();
    let mut iter = set.iter();
    assert_eq!(iter.next(), None);
    assert_eq!(iter.next(), None);
}

#[test]
fn an_exhausted_iterator_stays_exhausted() {
    let set = BitmapSet::<1>::from([7].as_slice());
    let mut iter = set.iter();
    assert_eq!(iter.next(), Some(7));
    assert_eq!(iter.next(), None);
    assert_eq!(iter.next(), None);
    assert_eq!(iter.next(), None);
}

#[test]
fn iteration_stops_at_the_capacity() {
    let set = BitmapSet::<1>::new().complement();
    let yielded: Vec<u8> = set.iter().collect();
    assert_eq!(yielded, vec![0, 1, 2, 3, 4, 5, 6, 7]);
    let set = BitmapSet::<2>::from([15].as_slice());
    let mut iter = set.iter();
    assert_eq!(iter.next(), Some(15));
    assert_eq!(iter.next(), None);
}

#[test]
fn full_capacity_iteration() {
    let mut set = BitmapSet::<32>::new();
    for v in 0..=u8::MAX {
        set.insert(v);
    }
    assert_eq!(set.len(), 256);
    let mut iter = set.iter();
    for v in 0..=u8::MAX {
        assert_eq!(iter.next(), Some(v));
    }
    assert_eq!(iter.next(), None);
    assert_eq!(iter.next(), None);
    assert_eq!(set.iter().count(), 256);
}

#[test]
fn bulk_construction_equals_one_by_one_insertion() {
    let values = [9u8, 0, 200, 9, 31, 0, 32];
    let bulk = BitmapSet::<32>::from(values.as_slice());
    let mut one_by_one = BitmapSet::<32>::new();
    for v in values {
        one_by_one.insert(v);
    }
    assert_eq!(bulk, one_by_one);
    let reordered = BitmapSet::<32>::from([32, 31, 200, 0, 9].as_slice());
    assert_eq!(bulk, reordered);
    assert_eq!(bulk.len(), 5);
    assert_eq!(BitmapSet::<32>::from([].as_slice()), BitmapSet::<32>::new());
    assert_eq!(BitmapSet::<32>::from_iter(values.into_iter()), bulk);
    assert_eq!(BitmapSet::<32>::from_iter(values.iter().copied().rev()), bulk);
}

#[test]
fn from_iter_takes_a_range() {
    let set = BitmapSet::<10>::from_iter(42..80);
    assert_eq!(set.len(), 38);
    assert!(!set.contains(41));
    assert!(set.contains(42));
    assert!(set.contains(79));
    let low = BitmapSet::<10>::from_iter(0..45);
    let mut both = low.intersection(&set);
    assert_eq!(both, BitmapSet::from([42, 43, 44].as_slice()));
    both.insert(73);
    both.remove(44);
    assert_eq!(both, BitmapSet::from([42, 43, 73].as_slice()));
    assert_eq!(format!("{:?}", both), "BitmapSet {42, 43, 73}");
}

#[test]
fn equality_ignores_insertion_order() {
    let mut a = BitmapSet::<4>::new();
    a.insert(0);
    a.insert(9);
    a.insert(31);
    let mut b = BitmapSet::<4>::new();
    b.insert(31);
    b.insert(0);
    b.insert(9);
    assert_eq!(a, b);
    b.remove(9);
    assert_ne!(a, b);
}

#[test]
fn neighbours_in_a_byte_are_kept_apart() {
    let mut set = BitmapSet::<2>::new();
    set.insert(8);
    for v in 0..16 {
        assert_eq!(set.contains(v), v == 8);
    }
    set.insert(15);
    set.insert(7);
    set.remove(8);
    for v in 0..16 {
        assert_eq!(set.contains(v), v == 7 || v == 15);
    }
}

#[test]
fn in_place_operations_change_the_receiver() {
    let a = BitmapSet::<32>::from([1, 8, 32, 220].as_slice());
    let b = BitmapSet::<32>::from([4, 8, 16, 32].as_slice());
    let mut set = a.clone();
    set.intersect(&b);
    assert_eq!(set, BitmapSet::from([8, 32].as_slice()));
    let mut set = a.clone();
    set.unite(&b);
    assert_eq!(set, BitmapSet::from([1, 4, 8, 16, 32, 220].as_slice()));
    let mut set = a.clone();
    set.subtract(&b);
    assert_eq!(set, BitmapSet::from([1, 220].as_slice()));
    let mut set = BitmapSet::<1>::from([0, 2, 4, 6].as_slice());
    set.invert();
    assert_eq!(set, BitmapSet::from([1, 3, 5, 7].as_slice()));
}

#[test]
fn functional_operations_leave_the_operands_alone() {
    let a = BitmapSet::<32>::from([1, 8, 32, 220].as_slice());
    let b = BitmapSet::<32>::from([4, 8, 16, 32].as_slice());
    let _ = a.intersection(&b);
    let _ = a.union(&b);
    let _ = a.difference(&b);
    let _ = a.complement();
    assert_eq!(a, BitmapSet::from([1, 8, 32, 220].as_slice()));
    assert_eq!(b, BitmapSet::from([4, 8, 16, 32].as_slice()));
}

#[test]
fn intersection_of_disjoint_sets_is_empty() {
    let a = BitmapSet::<2>::from([1, 2].as_slice());
    let b = BitmapSet::<2>::from([3, 4].as_slice());
    assert!(a.intersection(&b).is_empty());
    assert_eq!(a.difference(&b), a);
}

#[test]
fn a_clone_is_equal_and_independent() {
    let a = BitmapSet::<2>::from([1, 2].as_slice());
    let mut b = a.clone();
    assert_eq!(a, b);
    b.insert(3);
    assert!(!a.contains(3));
    assert!(b.contains(3));
}

#[test]
fn debug_of_an_empty_set() {
    let set = BitmapSet::<32>::new();
    assert_eq!(format!("{:?}", set), "BitmapSet {}");
    assert_eq!(set.debug_string(), "BitmapSet {}");
}

#[test]
fn debug_of_a_single_member() {
    let set = BitmapSet::<1>::from([7].as_slice());
    assert_eq!(format!("{:?}", set), "BitmapSet {7}");
}

#[test]
fn debug_lists_members_in_ascending_order() {
    let set = BitmapSet::<32>::from([0, 255, 1, 2, 8].as_slice());
    assert_eq!(format!("{:?}", set), "BitmapSet {0, 1, 2, 8, 255}");
    assert_eq!(set.debug_string(), "BitmapSet {0, 1, 2, 8, 255}");
}

#[test]
fn debug_writes_decimal_without_leading_zeros() {
    let values = [9, 10, 19, 90, 99, 100, 101, 110, 199, 200, 209, 250];
    let set = BitmapSet::<32>::from(values.as_slice());
    assert_eq!(
        set.debug_string(),
        "BitmapSet {9, 10, 19, 90, 99, 100, 101, 110, 199, 200, 209, 250}"
    );
    let all = BitmapSet::<32>::new().complement();
    let expected: Vec<String> = (0..=u8::MAX).map(|v| v.to_string()).collect();
    assert_eq!(format!("{:?}", all), format!("BitmapSet {{{}}}", expected.join(", ")));
}
