use snippets::aggregate::{chain_options, combine_results, flatten_results, map_option, unwrap_or_default};

#[test]
fn combine_all_ok_keeps_order() {
    let input: Vec<Result<i32, &str>> = vec![Ok(1), Ok(2), Ok(3)];
    assert_eq!(combine_results(input), Ok(vec![1, 2, 3]));
}

#[test]
fn combine_returns_first_error() {
    let input: Vec<Result<i32, &str>> = vec![Ok(1), Err("a"), Err("b")];
    assert_eq!(combine_results(input), Err("a"));
}

#[test]
fn combine_empty_is_ok_empty() {
    let input: Vec<Result<i32, String>> = vec![];
    assert_eq!(combine_results(input), Ok(vec![]));
}

#[test]
fn combine_moves_aggregate_payloads() {
    let input: Vec<Result<Vec<u8>, String>> = vec![Ok(vec![1, 2]), Ok(vec![]), Ok(vec![3])];
    assert_eq!(combine_results(input), Ok(vec![vec![1, 2], vec![], vec![3]]));
}

#[test]
fn flatten_matches_combine() {
    let input: Vec<Result<i32, &str>> = vec![Ok(4), Err("x"), Ok(5), Err("y")];
    assert_eq!(flatten_results(input), Err("x"));
    let input: Vec<Result<i32, &str>> = vec![Ok(4), Ok(5)];
    assert_eq!(flatten_results(input), Ok(vec![4, 5]));
}

#[test]
fn chain_options_with_none_is_none() {
    assert_eq!(chain_options(vec![Some(1), None, Some(3)]), None);
}

#[test]
fn chain_options_all_present_keeps_order() {
    assert_eq!(chain_options(vec![Some(3), Some(1), Some(2)]), Some(vec![3, 1, 2]));
    let empty: Vec<Option<u8>> = vec![];
    assert_eq!(chain_options(empty), Some(vec![]));
}

#[test]
fn unwrap_or_default_both_cases() {
    assert_eq!(unwrap_or_default(Some(7)), 7);
    assert_eq!(unwrap_or_default::<i32>(None), 0);
    assert_eq!(unwrap_or_default::<String>(None), String::new());
}

#[test]
fn map_option_both_cases() {
    assert_eq!(map_option(Some(2), |x: i32| x * 10), Some(20));
    assert_eq!(map_option(None, |x: i32| x * 10), None);
}
