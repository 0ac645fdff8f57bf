use std::collections::{HashMap, HashSet};
use vela_core::renumber::build_index_map;

#[test]
fn removals_only() {
    let removals = HashSet::from([2, 4]);
    let map = build_index_map(5, &HashMap::new(), &removals);
    assert_eq!(map[0], 0);
    assert_eq!(map[1], 1);
    assert_eq!(map[3], 2);
}

#[test]
fn redirects_and_removals() {
    let redirects = HashMap::from([(2, 1)]);
    let removals = HashSet::from([2]);
    let map = build_index_map(4, &redirects, &removals);
    assert_eq!(map[0], 0);
    assert_eq!(map[1], 1);
    assert_eq!(map[2], 1); // redirected to func 1
    assert_eq!(map[3], 2); // compacted from 3 to 2
}

#[test]
fn no_changes() {
    let map = build_index_map(3, &HashMap::new(), &HashSet::new());
    assert_eq!(map, vec![0, 1, 2]);
}

#[test]
fn redirect_chain_through_removal() {
    let redirects = HashMap::from([(1, 0), (2, 0)]);
    let removals = HashSet::from([1, 2]);
    let map = build_index_map(4, &redirects, &removals);
    assert_eq!(map[0], 0);
    assert_eq!(map[1], 0);
    assert_eq!(map[2], 0);
    assert_eq!(map[3], 1);
}

#[test]
fn empty_index_space_gives_empty_map() {
    let map = build_index_map(0, &HashMap::new(), &HashSet::new());
    assert!(map.is_empty());
}

#[test]
fn kept_indices_stay_in_order_and_are_consecutive() {
    let removals = HashSet::from([0, 3, 5, 6]);
    let map = build_index_map(8, &HashMap::new(), &removals);
    let kept: Vec<u32> = (0..8u32).filter(|i| !removals.contains(i)).map(|i| map[i as usize]).collect();
    assert_eq!(kept, vec![0, 1, 2, 3]);
    // a removed index maps to 0
    assert_eq!(map[0], 0);
    assert_eq!(map[5], 0);
}

#[test]
fn redirected_index_shares_new_index_with_its_target() {
    let redirects = HashMap::from([(4, 1), (5, 2)]);
    let removals = HashSet::from([0, 4, 5]);
    let map = build_index_map(6, &redirects, &removals);
    assert_eq!(map, vec![0, 0, 1, 2, 0, 1]);
    assert_eq!(map[4], map[1]);
    assert_eq!(map[5], map[2]);
}

#[test]
fn identity_without_redirects_or_removals() {
    let map = build_index_map(10, &HashMap::new(), &HashSet::new());
    assert_eq!(map, (0..10u32).collect::<Vec<u32>>());
}
