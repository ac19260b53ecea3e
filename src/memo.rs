use std::collections::HashMap;
use std::hash::Hash;
use vstd::prelude::*;

verus! {

broadcast use vstd::std_specs::hash::group_hash_axioms;

/// Cloning a value of `T` gives back an equal value.
pub open spec fn clones_exactly<T: Clone>() -> bool {
    forall|a: T, b: T| #[trigger] vstd::pervasive::strictly_cloned(a, b) ==> a == b
}

/// `func` accepts every argument.
pub open spec fn accepts_all<T, U, F: Fn(T) -> U>(func: F) -> bool {
    forall|a: T| #[trigger] func.requires((a,))
}

/// A single-argument memoizer: it answers each call with what the wrapped
/// function gives for the argument, and evaluates the function at most once
/// per distinct argument. Entries are never evicted.
pub struct Memoizer<T, U, F> {
    func: F,
    cache: HashMap<T, U>,
}

impl<T: Eq + Hash + Clone, U: Clone, F: Fn(T) -> U> View for Memoizer<T, U, F> {
    type V = Map<T, U>;

    /// The arguments seen so far, each with the result it produced.
    closed spec fn view(&self) -> Map<T, U> {
        self.cache@
    }
}

impl<T: Eq + Hash + Clone, U: Clone, F: Fn(T) -> U> Memoizer<T, U, F> {
    /// The wrapped function.
    pub closed spec fn function(&self) -> F {
        self.func
    }

    /// Every cached entry is a result of the wrapped function for its key,
    /// and the key and value types behave as the cache needs.
    pub closed spec fn wf(&self) -> bool {
        &&& vstd::std_specs::hash::obeys_key_model::<T>()
        &&& clones_exactly::<T>()
        &&& clones_exactly::<U>()
        &&& accepts_all(self.func)
        &&& forall|k: T| #[trigger] self.cache@.contains_key(k) ==> self.func.ensures((k,), self.cache@[k])
    }

    /// Answers `func(arg)`, from the cache when `arg` was seen before and by
    /// evaluating the function (once) otherwise.
    pub fn call(&mut self, arg: T) -> (r: U)
        requires
            old(self).wf(),
        ensures
            final(self).wf(),
            final(self).function() == old(self).function(),
            old(self).function().ensures((arg,), r),
            final(self)@ == old(self)@.insert(arg, r),
            final(self)@.dom() == old(self)@.dom().insert(arg),
            old(self)@.contains_key(arg) ==> r == old(self)@[arg] && final(self)@ == old(self)@,
            final(self)@.len() == old(self)@.len() + if old(self)@.contains_key(arg) { 0int } else { 1int },
    {
        match self.cache.get(&arg) {
            Some(v) => {
                let r = U::clone(v);
                assert(vstd::pervasive::strictly_cloned(*v, r));
                assert(r == *v);
                assert(self.cache@.insert(arg, r) =~= self.cache@);
                return r;
            },
            None => {},
        }
        let key = T::clone(&arg);
        assert(vstd::pervasive::strictly_cloned(arg, key));
        assert(key == arg);
        let r = (self.func)(key);
        let stored = U::clone(&r);
        assert(vstd::pervasive::strictly_cloned(r, stored));
        assert(stored == r);
        self.cache.insert(arg, stored);
        r
    }

    /// How many times the wrapped function has been evaluated: one for each
    /// distinct argument seen.
    pub fn evaluations(&self) -> (r: usize)
        requires
            self.wf(),
        ensures
            r == self@.len(),
    {
        self.cache.len()
    }
}

/// Wraps `func` in a memoizer with an empty cache.
pub fn memoize_fn<T, U, F>(func: F) -> (m: Memoizer<T, U, F>)
    where
        F: Fn(T) -> U,
        T: Eq + Hash + Clone,
        U: Clone,
    requires
        vstd::std_specs::hash::obeys_key_model::<T>(),
        clones_exactly::<T>(),
        clones_exactly::<U>(),
        accepts_all(func),
    ensures
        m.wf(),
        m.function() == func,
        m@ == Map::<T, U>::empty(),
{
    Memoizer { func, cache: HashMap::new() }
}

/// How many of the calls `args`, made in order on a memoizer whose cached
/// arguments are `seen`, evaluate the wrapped function: a call evaluates it
/// exactly when its argument is not cached yet, and caches the argument.
pub open spec fn evaluations_during<T>(seen: Set<T>, args: Seq<T>) -> nat
    decreases args.len(),
{
    if args.len() == 0 {
        0
    } else {
        (if seen.contains(args[0]) { 0nat } else { 1nat }) + evaluations_during(
            seen.insert(args[0]),
            args.drop_first(),
        )
    }
}

/// Starting from a finite set of cached arguments, a stream of calls
/// evaluates the function once for each of its distinct arguments that was
/// not cached already.
pub proof fn lemma_evaluations_from<T>(seen: Set<T>, args: Seq<T>)
    requires
        seen.finite(),
    ensures
        seen.union(args.to_set()).finite(),
        evaluations_during(seen, args) + seen.len() == seen.union(args.to_set()).len(),
    decreases args.len(),
{
    broadcast use vstd::seq_lib::seq_to_set_is_finite;

    if args.len() == 0 {
        assert(seen.union(args.to_set()) =~= seen);
    } else {
        let a = args[0];
        let rest = args.drop_first();
        lemma_evaluations_from(seen.insert(a), rest);
        assert(args =~= Seq::empty().push(a).add(rest));
        assert(rest.to_set().insert(a) =~= args.to_set());
        assert(seen.union(args.to_set()) =~= seen.insert(a).union(rest.to_set()));
    }
}

/// For any stream of arguments fed to a fresh memoizer, the wrapped function
/// is evaluated exactly once per distinct argument.
pub proof fn lemma_one_evaluation_per_distinct_argument<T>(args: Seq<T>)
    ensures
        args.to_set().finite(),
        evaluations_during(Set::<T>::empty(), args) == args.to_set().len(),
{
    lemma_evaluations_from(Set::<T>::empty(), args);
    assert(Set::<T>::empty().union(args.to_set()) =~= args.to_set());
}

} // verus!
