use vstd::prelude::*;

verus! {

/// The product `x * y`; the caller keeps it within `i32`.
fn multiply(x: i32, y: i32) -> (r: i32)
    requires
        i32::MIN <= x * y <= i32::MAX,
    ensures
        r == x * y,
{
    x * y
}

/// Fixes the second factor of a multiplication: the returned callable takes
/// `x` and yields `x * y`, for every `x` whose product with `y` fits in `i32`.
pub fn partial_multiply(y: i32) -> (f: impl Fn(i32) -> i32)
    ensures
        forall|x: i32| i32::MIN <= x * y <= i32::MAX ==> #[trigger] f.requires((x,)),
        forall|x: i32, r: i32| #[trigger] f.ensures((x,), r) ==> r == x * y,
{
    move |x: i32| -> (r: i32)
        requires
            i32::MIN <= x * y <= i32::MAX,
        ensures
            r == x * y,
        { multiply(x, y) }
}

} // verus!
