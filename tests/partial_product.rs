use snippets::partial::partial_multiply;

#[test]
fn partial_multiply_examples() {
    assert_eq!(partial_multiply(7)(6), 42);
    assert_eq!(partial_multiply(0)(123), 0);
}

#[test]
fn partial_multiply_negative_and_bounds() {
    let f = partial_multiply(-3);
    assert_eq!(f(5), -15);
    assert_eq!(f(-5), 15);
    assert_eq!(partial_multiply(1)(i32::MAX), i32::MAX);
    assert_eq!(partial_multiply(-1)(i32::MAX), -i32::MAX);
}
