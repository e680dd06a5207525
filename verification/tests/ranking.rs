use ying_profiler::ranking::sort_descending;

#[test]
fn sorts_by_the_second_component() {
    let sorted = sort_descending(vec![(1, 5), (2, 9), (3, 0), (4, 7), (5, 9)]);
    let bytes: Vec<u64> = sorted.iter().map(|item| item.1).collect();
    assert_eq!(bytes, vec![9, 9, 7, 5, 0]);
    let mut hashes: Vec<u64> = sorted.iter().map(|item| item.0).collect();
    hashes.sort();
    assert_eq!(hashes, vec![1, 2, 3, 4, 5]);
}

#[test]
fn sorts_short_and_long_lists() {
    assert_eq!(sort_descending(vec![]), vec![]);
    assert_eq!(sort_descending(vec![(7, 7)]), vec![(7, 7)]);
    let items: Vec<(u64, u64)> = (0..1000).map(|i| (i, i * 7919 % 1009)).collect();
    let mut expected = items.clone();
    expected.sort_by(|a, b| b.1.cmp(&a.1));
    assert_eq!(sort_descending(items), expected);
}
