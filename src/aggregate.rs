use vstd::prelude::*;

verus! {

/// Every element of `s` is a success.
pub open spec fn all_ok<T, E>(s: Seq<Result<T, E>>) -> bool {
    forall|i: int| 0 <= i < s.len() ==> (#[trigger] s[i]) is Ok
}

/// The payloads of `s`, in order (meaningful when every element is a success).
pub open spec fn ok_values<T, E>(s: Seq<Result<T, E>>) -> Seq<T> {
    s.map_values(|r: Result<T, E>| r->Ok_0)
}

/// `i` is the position of the first failure in `s`.
pub open spec fn is_first_err<T, E>(s: Seq<Result<T, E>>, i: int) -> bool {
    &&& 0 <= i < s.len()
    &&& s[i] is Err
    &&& forall|j: int| 0 <= j < i ==> (#[trigger] s[j]) is Ok
}

/// Every element of `s` is present.
pub open spec fn all_some<T>(s: Seq<Option<T>>) -> bool {
    forall|i: int| 0 <= i < s.len() ==> (#[trigger] s[i]) is Some
}

/// The inner values of `s`, in order (meaningful when every element is present).
pub open spec fn some_values<T>(s: Seq<Option<T>>) -> Seq<T> {
    s.map_values(|o: Option<T>| o->Some_0)
}

/// Gathers the payloads of a sequence of results: a success holding every
/// payload in order when all elements succeed, otherwise the first failure.
pub fn combine_results<T, E>(results: Vec<Result<T, E>>) -> (r: Result<Vec<T>, E>)
    ensures
        r is Ok <==> all_ok(results@),
        r is Ok ==> r->Ok_0@ == ok_values(results@),
        r is Err ==> exists|i: int| is_first_err(results@, i) && results@[i]->Err_0 == r->Err_0,
{
    let ghost s = results@;
    let mut out: Vec<T> = Vec::new();
    for item in it: results.into_iter()
        invariant
            it.seq() == s,
            out@.len() == it.index(),
            forall|j: int| 0 <= j < it.index() ==> (#[trigger] s[j]) is Ok && out@[j] == s[j]->Ok_0,
    {
        match item {
            Ok(v) => out.push(v),
            Err(e) => {
                assert(is_first_err(s, it.index() as int));
                return Err(e);
            },
        }
    }
    assert(out@ =~= ok_values(s));
    Ok(out)
}

/// Same as [`combine_results`]: all payloads in order, or the first failure.
pub fn flatten_results<T, E>(results: Vec<Result<T, E>>) -> (r: Result<Vec<T>, E>)
    ensures
        r is Ok <==> all_ok(results@),
        r is Ok ==> r->Ok_0@ == ok_values(results@),
        r is Err ==> exists|i: int| is_first_err(results@, i) && results@[i]->Err_0 == r->Err_0,
{
    combine_results(results)
}

/// Gathers the inner values of a sequence of optionals: present, holding
/// every value in order, exactly when every element is present.
pub fn chain_options<T>(options: Vec<Option<T>>) -> (r: Option<Vec<T>>)
    ensures
        r is Some <==> all_some(options@),
        r is Some ==> r->Some_0@ == some_values(options@),
{
    let ghost s = options@;
    let mut out: Vec<T> = Vec::new();
    for item in it: options.into_iter()
        invariant
            it.seq() == s,
            out@.len() == it.index(),
            forall|j: int| 0 <= j < it.index() ==> (#[trigger] s[j]) is Some && out@[j] == s[j]->Some_0,
    {
        match item {
            Some(v) => out.push(v),
            None => {
                assert(s[it.index() as int] is None);
                return None;
            },
        }
    }
    assert(out@ =~= some_values(s));
    Some(out)
}

/// The inner value of `option`, or the type's default when it is absent.
pub fn unwrap_or_default<T: Default>(option: Option<T>) -> (r: T)
    ensures
        option is Some ==> r == option->Some_0,
        option is None ==> call_ensures(T::default, (), r),
{
    match option {
        Some(v) => v,
        None => T::default(),
    }
}

/// Applies `f` to the inner value of `value`, if there is one.
pub fn map_option<T, U, F: FnOnce(T) -> U>(value: Option<T>, f: F) -> (r: Option<U>)
    requires
        value is Some ==> f.requires((value->Some_0,)),
    ensures
        r is Some <==> value is Some,
        value is Some ==> f.ensures((value->Some_0,), r->Some_0),
{
    match value {
        Some(v) => Some(f(v)),
        None => None,
    }
}

} // verus!
