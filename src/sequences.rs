use std::collections::HashMap;
use std::collections::HashSet;
use std::hash::Hash;
use vstd::prelude::*;
use crate::memo::clones_exactly;

verus! {

broadcast use vstd::std_specs::hash::group_hash_axioms;

/// A copy of `vec`, element by element clones.
pub fn deep_clone_vec<T: Clone>(vec: &Vec<T>) -> (r: Vec<T>)
    ensures
        r@.len() == vec@.len(),
        forall|i: int| 0 <= i < vec@.len() ==> cloned(vec@[i], #[trigger] r@[i]),
{
    let mut out: Vec<T> = Vec::new();
    let mut k: usize = 0;
    while k < vec.len()
        invariant
            k <= vec@.len(),
            out@.len() == k,
            forall|i: int| 0 <= i < k ==> cloned(vec@[i], #[trigger] out@[i]),
        decreases vec@.len() - k,
    {
        let c = vec[k].clone();
        proof {
            assert(vstd::pervasive::strictly_cloned(vec@[k as int], c));
        }
        out.push(c);
        k = k + 1;
    }
    out
}

/// Applies `f` to each element together with its index.
pub fn map_with_index<T, F: Fn(usize, T) -> T>(vec: Vec<T>, f: F) -> (r: Vec<T>)
    requires
        forall|i: usize, x: T| #[trigger] f.requires((i, x)),
    ensures
        r@.len() == vec@.len(),
        forall|i: int| 0 <= i < vec@.len() ==> f.ensures((i as usize, vec@[i]), #[trigger] r@[i]),
{
    let ghost s = vec@;
    let n = vec.len();
    let mut out: Vec<T> = Vec::new();
    let mut i: usize = 0;
    for x in it: vec.into_iter()
        invariant
            it.seq() == s,
            s.len() == n,
            i == it.index(),
            out@.len() == i,
            forall|i: usize, x: T| #[trigger] f.requires((i, x)),
            forall|j: int| 0 <= j < i ==> f.ensures((j as usize, s[j]), #[trigger] out@[j]),
    {
        out.push(f(i, x));
        i = i + 1;
    }
    out
}

/// The elements of `s` whose flag in `keep` is set, in order.
pub open spec fn kept<T>(s: Seq<T>, keep: Seq<bool>) -> Seq<T>
    decreases s.len(),
{
    if s.len() == 0 {
        Seq::empty()
    } else {
        let prefix = kept(s.drop_last(), keep.drop_last());
        if keep.last() {
            prefix.push(s.last())
        } else {
            prefix
        }
    }
}

/// The inner values of the present elements of `s`, in order.
pub open spec fn present_values<U>(s: Seq<Option<U>>) -> Seq<U>
    decreases s.len(),
{
    if s.len() == 0 {
        Seq::empty()
    } else {
        let prefix = present_values(s.drop_last());
        match s.last() {
            Some(u) => prefix.push(u),
            None => prefix,
        }
    }
}

/// Applies `f` to each element and keeps the inner values of the present
/// results, in order.
pub fn filter_map<T, U, F: Fn(T) -> Option<U>>(vec: Vec<T>, f: F) -> (r: Vec<U>)
    requires
        forall|x: T| #[trigger] f.requires((x,)),
    ensures
        exists|results: Seq<Option<U>>|
            {
                &&& results.len() == vec@.len()
                &&& forall|i: int| 0 <= i < vec@.len() ==> f.ensures((vec@[i],), #[trigger] results[i])
                &&& r@ == present_values(results)
            },
{
    let ghost s = vec@;
    let ghost mut results: Seq<Option<U>> = Seq::empty();
    let mut out: Vec<U> = Vec::new();
    for x in it: vec.into_iter()
        invariant
            it.seq() == s,
            results.len() == it.index(),
            forall|x: T| #[trigger] f.requires((x,)),
            forall|i: int| 0 <= i < results.len() ==> f.ensures((s[i],), #[trigger] results[i]),
            out@ == present_values(results),
    {
        let y = f(x);
        let ghost before = results;
        proof {
            results = results.push(y);
            assert(results.drop_last() =~= before);
        }
        match y {
            Some(u) => out.push(u),
            None => {},
        }
    }
    out
}

/// Keeps the elements on which `predicate` holds, in order.
pub fn filter_by<T, F: Fn(&T) -> bool>(vec: Vec<T>, predicate: F) -> (r: Vec<T>)
    requires
        forall|x: &T| #[trigger] predicate.requires((x,)),
    ensures
        exists|keep: Seq<bool>|
            {
                &&& keep.len() == vec@.len()
                &&& forall|i: int| 0 <= i < vec@.len() ==> predicate.ensures((&vec@[i],), #[trigger] keep[i])
                &&& r@ == kept(vec@, keep)
            },
{
    let ghost s = vec@;
    let ghost mut keep: Seq<bool> = Seq::empty();
    let mut out: Vec<T> = Vec::new();
    for x in it: vec.into_iter()
        invariant
            it.seq() == s,
            keep.len() == it.index(),
            forall|x: &T| #[trigger] predicate.requires((x,)),
            forall|i: int| 0 <= i < keep.len() ==> predicate.ensures((&s[i],), #[trigger] keep[i]),
            out@ == kept(s.take(keep.len() as int), keep),
    {
        let b = predicate(&x);
        let ghost before = keep;
        proof {
            keep = keep.push(b);
            assert(keep.drop_last() =~= before);
            assert(s.take(keep.len() as int).drop_last() =~= s.take(before.len() as int));
        }
        if b {
            out.push(x);
        }
    }
    assert(s.take(keep.len() as int) =~= s);
    out
}

/// The position of the first element on which `predicate` holds.
pub fn find_index<T, F: Fn(&T) -> bool>(vec: Vec<T>, predicate: F) -> (r: Option<usize>)
    requires
        forall|x: &T| #[trigger] predicate.requires((x,)),
    ensures
        r matches Some(i) ==> {
            &&& i < vec@.len()
            &&& predicate.ensures((&vec@[i as int],), true)
            &&& forall|j: int| 0 <= j < i ==> predicate.ensures((&vec@[j],), false)
        },
        r is None ==> forall|j: int| 0 <= j < vec@.len() ==> predicate.ensures((&vec@[j],), false),
{
    let mut i: usize = 0;
    while i < vec.len()
        invariant
            i <= vec@.len(),
            forall|x: &T| #[trigger] predicate.requires((x,)),
            forall|j: int| 0 <= j < i ==> predicate.ensures((&vec@[j],), false),
        decreases vec@.len() - i,
    {
        if predicate(&vec[i]) {
            return Some(i);
        }
        i = i + 1;
    }
    None
}

/// Calls `f` on each element, in order.
pub fn execute_on_each<T, F: Fn(T)>(vec: Vec<T>, f: F)
    requires
        forall|x: T| #[trigger] f.requires((x,)),
{
    for x in vec.into_iter()
        invariant
            forall|x: T| #[trigger] f.requires((x,)),
    {
        f(x);
    }
}

/// Appends `count` default values to `vec`.
pub fn extend_with_defaults<T: Default>(vec: &mut Vec<T>, count: usize)
    requires
        old(vec)@.len() + count <= usize::MAX,
    ensures
        final(vec)@.len() == old(vec)@.len() + count,
        final(vec)@.subrange(0, old(vec)@.len() as int) == old(vec)@,
        forall|i: int| old(vec)@.len() <= i < final(vec)@.len() ==> call_ensures(T::default, (), #[trigger] final(vec)@[i]),
{
    let mut k: usize = 0;
    while k < count
        invariant
            k <= count,
            old(vec)@.len() + count <= usize::MAX,
            vec@.len() == old(vec)@.len() + k,
            vec@.subrange(0, old(vec)@.len() as int) == old(vec)@,
            forall|i: int| old(vec)@.len() <= i < vec@.len() ==> call_ensures(T::default, (), #[trigger] vec@[i]),
        decreases count - k,
    {
        let d = T::default();
        vec.push(d);
        assert(vec@.subrange(0, old(vec)@.len() as int) =~= old(vec)@);
        k = k + 1;
    }
}

/// The elements of `v` in reverse order.
fn reversed<T>(v: Vec<T>) -> (r: Vec<T>)
    ensures
        r@.len() == v@.len(),
        forall|i: int| 0 <= i < v@.len() ==> #[trigger] r@[i] == v@[v@.len() - 1 - i],
{
    let ghost s = v@;
    let mut rest = v;
    let mut out: Vec<T> = Vec::new();
    while rest.len() > 0
        invariant
            out@.len() + rest@.len() == s.len(),
            rest@ == s.take(rest@.len() as int),
            forall|i: int| 0 <= i < out@.len() ==> #[trigger] out@[i] == s[s.len() - 1 - i],
        decreases rest@.len(),
    {
        let y = rest.pop().unwrap();
        out.push(y);
        assert(rest@ =~= s.take(rest@.len() as int));
    }
    out
}

/// Pairs the elements of two vectors by position, as far as the shorter goes.
pub fn zip_vecs<T, U>(vec1: Vec<T>, vec2: Vec<U>) -> (r: Vec<(T, U)>)
    ensures
        r@.len() == if vec1@.len() <= vec2@.len() { vec1@.len() } else { vec2@.len() },
        forall|i: int| 0 <= i < r@.len() ==> #[trigger] r@[i] == (vec1@[i], vec2@[i]),
{
    let ghost s1 = vec1@;
    let ghost s2 = vec2@;
    let mut r1 = reversed(vec1);
    let mut r2 = reversed(vec2);
    let mut out: Vec<(T, U)> = Vec::new();
    while r1.len() > 0 && r2.len() > 0
        invariant
            r1@.len() == s1.len() - out@.len(),
            r2@.len() == s2.len() - out@.len(),
            forall|i: int| 0 <= i < r1@.len() ==> #[trigger] r1@[i] == s1[s1.len() - 1 - i],
            forall|i: int| 0 <= i < r2@.len() ==> #[trigger] r2@[i] == s2[s2.len() - 1 - i],
            forall|i: int| 0 <= i < out@.len() ==> #[trigger] out@[i] == (s1[i], s2[i]),
        decreases r1@.len(),
    {
        let x = r1.pop().unwrap();
        let y = r2.pop().unwrap();
        out.push((x, y));
    }
    out
}

/// The elements of `vec1` followed by those of `vec2`.
pub fn merge_vecs<T: Clone>(vec1: Vec<T>, vec2: Vec<T>) -> (r: Vec<T>)
    ensures
        r@ == vec1@ + vec2@,
{
    let mut out = vec1;
    let mut tail = vec2;
    out.append(&mut tail);
    out
}

/// Exchanges the elements at `index1` and `index2`.
pub fn swap_elements<T>(vec: &mut Vec<T>, index1: usize, index2: usize)
    requires
        index1 < old(vec)@.len(),
        index2 < old(vec)@.len(),
    ensures
        final(vec)@ == old(vec)@.update(index1 as int, old(vec)@[index2 as int]).update(
            index2 as int,
            old(vec)@[index1 as int],
        ),
{
    if index1 == index2 {
        assert(vec@.update(index1 as int, vec@[index2 as int]).update(index2 as int, vec@[index1 as int]) =~= vec@);
        return;
    }
    let (lo, hi) = if index1 < index2 {
        (index1, index2)
    } else {
        (index2, index1)
    };
    let high = vec.remove(hi);
    let low = vec.remove(lo);
    vec.insert(lo, high);
    vec.insert(hi, low);
    assert(vec@ =~= old(vec)@.update(index1 as int, old(vec)@[index2 as int]).update(
        index2 as int,
        old(vec)@[index1 as int],
    ));
}

/// The map built from `pairs` in order: a later pair overrides an earlier
/// one with the same key.
pub open spec fn pairs_to_map<T, U>(pairs: Seq<(T, U)>) -> Map<T, U>
    decreases pairs.len(),
{
    if pairs.len() == 0 {
        Map::empty()
    } else {
        pairs_to_map(pairs.drop_last()).insert(pairs.last().0, pairs.last().1)
    }
}

/// Collects key-value pairs into a map; for a repeated key the last value wins.
pub fn vec_to_hashmap<T: Eq + Hash, U>(vec: Vec<(T, U)>) -> (r: HashMap<T, U>)
    requires
        vstd::std_specs::hash::obeys_key_model::<T>(),
    ensures
        r@ == pairs_to_map(vec@),
{
    let ghost s = vec@;
    let mut map: HashMap<T, U> = HashMap::new();
    for pair in it: vec.into_iter()
        invariant
            it.seq() == s,
            vstd::std_specs::hash::obeys_key_model::<T>(),
            map@ == pairs_to_map(s.take(it.index() as int)),
    {
        proof {
            assert(s.take(it.index() + 1).drop_last() =~= s.take(it.index() as int));
        }
        let (k, v) = pair;
        map.insert(k, v);
    }
    assert(s.take(s.len() as int) =~= s);
    map
}

/// The distinct elements of `vec`, each once, in the order of their first
/// occurrence.
pub fn deduplicate<T: Eq + Hash + Clone>(vec: Vec<T>) -> (r: Vec<T>)
    requires
        vstd::std_specs::hash::obeys_key_model::<T>(),
        clones_exactly::<T>(),
    ensures
        r@.no_duplicates(),
        r@.to_set() == vec@.to_set(),
{
    let ghost s = vec@;
    let mut seen: HashSet<T> = HashSet::new();
    let mut out: Vec<T> = Vec::new();
    for x in it: vec.into_iter()
        invariant
            it.seq() == s,
            vstd::std_specs::hash::obeys_key_model::<T>(),
            clones_exactly::<T>(),
            out@.no_duplicates(),
            seen@ == out@.to_set(),
            out@.to_set() == s.take(it.index() as int).to_set(),
    {
        let ghost prefix = s.take(it.index() as int);
        proof {
            assert(s.take(it.index() + 1) =~= prefix.push(x));
            prefix.lemma_push_to_set_commute(x);
        }
        if !seen.contains(&x) {
            let key = x.clone();
            proof {
                assert(vstd::pervasive::strictly_cloned(x, key));
            }
            seen.insert(key);
            let ghost before = out@;
            out.push(x);
            proof {
                before.lemma_push_to_set_commute(x);
                assert(out@.no_duplicates()) by {
                    assert forall|i: int, j: int| 0 <= i < out@.len() && 0 <= j < out@.len() && i != j implies out@[i] != out@[j] by {
                        if i == before.len() as int {
                            assert(before.to_set().contains(before[j]));
                        } else if j == before.len() as int {
                            assert(before.to_set().contains(before[i]));
                        }
                    }
                }
            }
        } else {
            proof {
                assert(out@.to_set().insert(x) =~= out@.to_set());
            }
        }
    }
    assert(s.take(s.len() as int) =~= s);
    out
}

} // verus!
