use lettuce_core::eviction::{entries_to_evict, oldest_first};

#[test]
fn entries_are_ordered_oldest_first_with_ties_in_listing_order() {
    assert_eq!(oldest_first(&vec![30, 10, 20, 10, 5]), vec![4, 1, 3, 2, 0]);
    assert_eq!(oldest_first(&vec![]), Vec::<usize>::new());
    assert_eq!(oldest_first(&vec![7, 7, 7]), vec![0, 1, 2]);
}

#[test]
fn only_the_surplus_oldest_entries_are_evicted() {
    let modified = vec![500, 100, 400, 200, 300];
    assert_eq!(entries_to_evict(&modified, 5), Vec::<usize>::new());
    assert_eq!(entries_to_evict(&modified, 10), Vec::<usize>::new());
    assert_eq!(entries_to_evict(&modified, 3), vec![1, 3]);
    assert_eq!(entries_to_evict(&modified, 0), vec![1, 3, 4, 2, 0]);
}
