use std::cell::RefCell;
use std::collections::HashMap;
use snippets::sequences::{
    deduplicate, deep_clone_vec, execute_on_each, extend_with_defaults, filter_by, filter_map,
    find_index, map_with_index, merge_vecs, swap_elements, vec_to_hashmap, zip_vecs,
};

#[test]
fn deep_clone_copies_elements() {
    let v = vec![String::from("a"), String::from("bc")];
    let c = deep_clone_vec(&v);
    assert_eq!(c, v);
}

#[test]
fn map_with_index_adds_positions() {
    assert_eq!(map_with_index(vec![10, 20, 30], |i: usize, x: usize| x + i), vec![10, 21, 32]);
    assert_eq!(map_with_index(Vec::<usize>::new(), |i: usize, x: usize| x + i), Vec::<usize>::new());
}

#[test]
fn filter_map_keeps_present_results() {
    let r = filter_map(vec![1, 2, 3, 4], |x: i32| if x % 2 == 0 { Some(x * 10) } else { None });
    assert_eq!(r, vec![20, 40]);
}

#[test]
fn filter_by_keeps_order() {
    assert_eq!(filter_by(vec![5, 1, 4, 2, 3], |x: &i32| *x > 2), vec![5, 4, 3]);
}

#[test]
fn find_index_first_match() {
    assert_eq!(find_index(vec![1, 3, 4, 6], |x: &i32| x % 2 == 0), Some(2));
    assert_eq!(find_index(vec![1, 3], |x: &i32| x % 2 == 0), None);
}

#[test]
fn execute_on_each_visits_in_order() {
    let seen = RefCell::new(Vec::new());
    execute_on_each(vec![3, 1, 2], |x: i32| seen.borrow_mut().push(x));
    assert_eq!(seen.into_inner(), vec![3, 1, 2]);
}

#[test]
fn extend_with_defaults_appends() {
    let mut v = vec![7u8];
    extend_with_defaults(&mut v, 3);
    assert_eq!(v, vec![7, 0, 0, 0]);
}

#[test]
fn zip_stops_at_shorter() {
    assert_eq!(zip_vecs(vec![1, 2, 3], vec!['a', 'b']), vec![(1, 'a'), (2, 'b')]);
    assert_eq!(zip_vecs(vec![1], vec!['a', 'b']), vec![(1, 'a')]);
}

#[test]
fn merge_concatenates() {
    assert_eq!(merge_vecs(vec![1, 2], vec![3]), vec![1, 2, 3]);
}

#[test]
fn swap_exchanges_elements() {
    let mut v = vec![1, 2, 3, 4];
    swap_elements(&mut v, 0, 3);
    assert_eq!(v, vec![4, 2, 3, 1]);
    swap_elements(&mut v, 2, 1);
    assert_eq!(v, vec![4, 3, 2, 1]);
    swap_elements(&mut v, 1, 1);
    assert_eq!(v, vec![4, 3, 2, 1]);
}

#[test]
fn vec_to_hashmap_last_value_wins() {
    let m = vec_to_hashmap(vec![(1, "a"), (2, "b"), (1, "c")]);
    let mut expected = HashMap::new();
    expected.insert(1, "c");
    expected.insert(2, "b");
    assert_eq!(m, expected);
}

#[test]
fn deduplicate_keeps_each_value_once() {
    let mut r = deduplicate(vec![3, 1, 3, 2, 1]);
    assert_eq!(r.len(), 3);
    r.sort();
    assert_eq!(r, vec![1, 2, 3]);
}
