use anchovy::containers::SortedMap;

#[test]
fn sorted_map_lookups() {
    let small = SortedMap::from_iter_in(vec![(3, "c"), (1, "a"), (2, "b"), (1, "A")]);
    assert_eq!(small.as_slice(), &[(1, "A"), (2, "b"), (3, "c")]);
    assert_eq!(small.get(&2), Some(&"b"));
    assert_eq!(small.get(&4), None);

    let large = SortedMap::from_iter_in((0..100u64).rev().map(|i| (i, i * i)).collect());
    assert_eq!(large.len(), 100);
    assert_eq!(large.get(&77), Some(&5929));
    assert!(!large.contains_key(&100));

    let mut pushed = SortedMap::new_in(3);
    pushed.push(1, ());
    pushed.push(5, ());
    assert!(pushed.contains_key(&5));
}

#[test]
fn position_finds_or_places() {
    let m = SortedMap::from_iter_in((0..40u64).map(|i| (2 * i, i)).collect());
    assert_eq!(m.position(10), Ok(5));
    assert_eq!(m.position(11), Err(6));
    assert_eq!(m.position(1000), Err(40));
    assert_eq!(m.keys()[..3], [0, 2, 4]);
    let empty: SortedMap<u8> = SortedMap::new_in(0);
    assert!(empty.is_empty());
    assert_eq!(empty.position(0), Err(0));
}

#[test]
fn sorted_map_values_and_entries() {
    let m = SortedMap::from_iter_in(vec![(3, "c"), (1, "a"), (2, "b")]);
    assert_eq!(m.values(), vec![&"a", &"b", &"c"]);
    assert_eq!(m.iter(), vec![(1, &"a"), (2, &"b"), (3, &"c")]);
    let empty: SortedMap<u8> = SortedMap::new_in(0);
    assert!(empty.values().is_empty());
    assert!(empty.iter().is_empty());
}
