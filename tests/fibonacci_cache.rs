use snippets::fibonacci::memoized_fibonacci;

#[test]
fn fibonacci_ten_fills_the_cache() {
    let mut memo: Vec<Option<u64>> = vec![None; 11];
    assert_eq!(memoized_fibonacci(10, &mut memo), 55);
    let expected: Vec<Option<u64>> = [0, 1, 1, 2, 3, 5, 8, 13, 21, 34, 55].iter().map(|v| Some(*v)).collect();
    assert_eq!(memo, expected);
}

#[test]
fn fibonacci_second_call_changes_nothing() {
    let mut memo: Vec<Option<u64>> = vec![None; 15];
    assert_eq!(memoized_fibonacci(12, &mut memo), 144);
    let after_first = memo.clone();
    assert_eq!(memoized_fibonacci(12, &mut memo), 144);
    assert_eq!(memo, after_first);
    assert_eq!(memo[13], None);
    assert_eq!(memo[14], None);
}

#[test]
fn fibonacci_small_indices() {
    let mut memo: Vec<Option<u64>> = vec![None; 2];
    assert_eq!(memoized_fibonacci(0, &mut memo), 0);
    assert_eq!(memo, vec![Some(0), None]);
    assert_eq!(memoized_fibonacci(1, &mut memo), 1);
    assert_eq!(memo, vec![Some(0), Some(1)]);
}

#[test]
fn fibonacci_largest_in_u64() {
    let mut memo: Vec<Option<u64>> = vec![None; 94];
    assert_eq!(memoized_fibonacci(93, &mut memo), 12200160415121876738);
}

#[test]
fn fibonacci_hit_returns_cached_value() {
    let mut memo: Vec<Option<u64>> = vec![None; 8];
    memo[7] = Some(13);
    assert_eq!(memoized_fibonacci(7, &mut memo), 13);
    assert_eq!(memo[6], None);
}
