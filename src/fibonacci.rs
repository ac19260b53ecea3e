use vstd::prelude::*;

verus! {

/// The Fibonacci numbers: `fib(0) == 0`, `fib(1) == 1`,
/// `fib(k) == fib(k - 1) + fib(k - 2)`.
pub open spec fn fib(n: nat) -> nat
    decreases n,
{
    if n < 2 {
        n
    } else {
        fib((n - 1) as nat) + fib((n - 2) as nat)
    }
}

/// A Fibonacci cache is consistent when every slot that is set at index `i`
/// holds `fib(i)`.
pub open spec fn fib_cache_valid(memo: Seq<Option<u64>>) -> bool {
    forall|i: int| 0 <= i < memo.len() && (#[trigger] memo[i]) is Some ==> holds_fib(memo[i], i as nat)
}

/// The slot is set and holds `fib(i)`.
pub open spec fn holds_fib(slot: Option<u64>, i: nat) -> bool {
    slot is Some && slot->Some_0 == fib(i)
}

/// The Fibonacci numbers never decrease.
pub proof fn lemma_fib_monotonic(i: nat, j: nat)
    requires
        i <= j,
    ensures
        fib(i) <= fib(j),
    decreases j,
{
    if i < j {
        if j >= 2 {
            lemma_fib_monotonic(i, (j - 1) as nat);
        }
    }
}

/// The cache after a call for index `n`: unchanged on a hit, and otherwise
/// with every slot from `0` to `n` holding its Fibonacci number.
pub open spec fn fib_cache_after(memo: Seq<Option<u64>>, n: nat) -> Seq<Option<u64>> {
    if memo[n as int] is Some {
        memo
    } else {
        Seq::new(memo.len(), |i: int| if i <= n { Some(fib(i as nat) as u64) } else { memo[i] })
    }
}

/// Computes `fib(n)` with the help of a cache owned by the caller.
///
/// On a hit at index `n` the cached value is returned and the cache is left
/// as it was. On a miss every slot from `0` to `n` is filled, bottom up, and
/// the slots above `n` are left untouched.
pub fn memoized_fibonacci(n: u64, memo: &mut Vec<Option<u64>>) -> (r: u64)
    requires
        n < old(memo)@.len(),
        fib_cache_valid(old(memo)@),
        fib(n as nat) <= u64::MAX,
    ensures
        r == fib(n as nat),
        final(memo)@ == fib_cache_after(old(memo)@, n as nat),
        final(memo)@.len() == old(memo)@.len(),
        fib_cache_valid(final(memo)@),
        final(memo)@[n as int] == Some(r),
        old(memo)@[n as int] is Some ==> final(memo)@ == old(memo)@,
        old(memo)@[n as int] is None ==> {
            &&& forall|i: int| 0 <= i <= n ==> holds_fib(#[trigger] final(memo)@[i], i as nat)
            &&& forall|i: int| n < i < old(memo)@.len() ==> #[trigger] final(memo)@[i] == old(memo)@[i]
        },
{
    let len = memo.len();
    let idx = n as usize;
    assert(idx == n);
    if let Some(cached) = memo[idx] {
        return cached;
    }
    let mut i: usize = 0;
    while i <= idx
        invariant
            idx == n,
            idx < len,
            len == memo@.len(),
            memo@.len() == old(memo)@.len(),
            i <= idx + 1,
            fib(n as nat) <= u64::MAX,
            fib_cache_valid(memo@),
            forall|j: int| 0 <= j < i ==> holds_fib(#[trigger] memo@[j], j as nat),
            forall|j: int| i <= j < memo@.len() ==> #[trigger] memo@[j] == old(memo)@[j],
        decreases idx + 1 - i,
    {
        if memo[i].is_none() {
            let value: u64 = if i < 2 {
                i as u64
            } else {
                proof {
                    lemma_fib_monotonic(i as nat, n as nat);
                    assert(holds_fib(memo@[i - 1], (i - 1) as nat));
                    assert(holds_fib(memo@[i - 2], (i - 2) as nat));
                }
                let a = memo[i - 1].unwrap();
                let b = memo[i - 2].unwrap();
                a + b
            };
            memo.set(i, Some(value));
        }
        i += 1;
    }
    assert(memo@ =~= fib_cache_after(old(memo)@, n as nat));
    memo[idx].unwrap()
}

/// A second call for the same index finds its answer in the cache left by
/// the first one and changes nothing: no slot is recomputed.
pub proof fn lemma_second_call_recomputes_nothing(memo: Seq<Option<u64>>, n: nat)
    requires
        n < memo.len(),
        fib_cache_valid(memo),
        fib(n) <= u64::MAX,
    ensures
        fib_cache_after(memo, n)[n as int] is Some,
        fib_cache_after(fib_cache_after(memo, n), n) == fib_cache_after(memo, n),
{
}

} // verus!
