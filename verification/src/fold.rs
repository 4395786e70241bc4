//! Left folds over slices with caller-supplied arithmetic.
//!
//! Sample arithmetic belongs to the caller; what is fixed here is which
//! samples enter it, and in which order.
use vstd::prelude::*;

verus! {

/// `end` is what `f` can make of `start` and the items `xs`, taken in order.
pub open spec fn chains<A, X, F: Fn(A, X) -> A>(f: F, start: A, xs: Seq<X>, end: A) -> bool
    decreases xs.len(),
{
    if xs.len() == 0 {
        end == start
    } else {
        exists|mid: A|
            chains(f, start, xs.drop_last(), mid) && #[trigger] call_ensures(
                f,
                (mid, xs.last()),
                end,
            )
    }
}

/// `f` gives at most one result for any arguments.
pub open spec fn is_function<A, X, F: Fn(A, X) -> A>(f: F) -> bool {
    forall|a: A, x: X, r: A, q: A|
        #[trigger] call_ensures(f, (a, x), r) && #[trigger] call_ensures(f, (a, x), q) ==> r == q
}

/// A fold with a function has one result.
pub proof fn law_fold_is_a_function<A, X, F: Fn(A, X) -> A>(
    f: F,
    start: A,
    xs: Seq<X>,
    end: A,
    other: A,
)
    requires
        is_function(f),
        chains(f, start, xs, end),
        chains(f, start, xs, other),
    ensures
        end == other,
    decreases xs.len(),
{
    if xs.len() > 0 {
        let m = choose|mid: A|
            chains(f, start, xs.drop_last(), mid) && #[trigger] call_ensures(
                f,
                (mid, xs.last()),
                end,
            );
        let n = choose|mid: A|
            chains(f, start, xs.drop_last(), mid) && #[trigger] call_ensures(
                f,
                (mid, xs.last()),
                other,
            );
        law_fold_is_a_function(f, start, xs.drop_last(), m, n);
    }
}

/// Folds `xs` from the left.
pub fn fold<A: Copy, X: Copy, F: Fn(A, X) -> A>(f: &F, start: A, xs: &[X]) -> (end: A)
    requires
        forall|a: A, x: X| call_requires(*f, (a, x)),
    ensures
        chains(*f, start, xs@, end),
{
    let mut acc: A = start;
    let mut i: usize = 0;
    while i < xs.len()
        invariant
            i <= xs@.len(),
            forall|a: A, x: X| call_requires(*f, (a, x)),
            chains(*f, start, xs@.take(i as int), acc),
        decreases xs@.len() - i,
    {
        let ghost before = acc;
        acc = f(acc, xs[i]);
        assert(xs@.take(i + 1).drop_last() == xs@.take(i as int));
        assert(xs@.take(i + 1).last() == xs@[i as int]);
        assert(call_ensures(*f, (before, xs@.take(i + 1).last()), acc));
        i = i + 1;
    }
    assert(xs@.take(i as int) == xs@);
    acc
}

/// Pairs up two runs of equal length.
pub open spec fn zipped<X>(xs: Seq<X>, ys: Seq<X>) -> Seq<(X, X)> {
    Seq::new(xs.len(), |i: int| (xs[i], ys[i]))
}

/// Folds two runs of equal length side by side.
pub fn fold_pairs<A: Copy, X: Copy, F: Fn(A, (X, X)) -> A>(
    f: &F,
    start: A,
    xs: &[X],
    ys: &[X],
) -> (end: A)
    requires
        xs@.len() == ys@.len(),
        forall|a: A, p: (X, X)| call_requires(*f, (a, p)),
    ensures
        chains(*f, start, zipped(xs@, ys@), end),
{
    let mut acc: A = start;
    let mut i: usize = 0;
    let ghost pairs = zipped(xs@, ys@);
    while i < xs.len()
        invariant
            i <= xs@.len(),
            xs@.len() == ys@.len(),
            pairs == zipped(xs@, ys@),
            forall|a: A, p: (X, X)| call_requires(*f, (a, p)),
            chains(*f, start, pairs.take(i as int), acc),
        decreases xs@.len() - i,
    {
        let ghost before = acc;
        acc = f(acc, (xs[i], ys[i]));
        assert(pairs.take(i + 1).drop_last() == pairs.take(i as int));
        assert(pairs.take(i + 1).last() == (xs@[i as int], ys@[i as int]));
        assert(call_ensures(*f, (before, pairs.take(i + 1).last()), acc));
        i = i + 1;
    }
    assert(pairs.take(i as int) == pairs);
    acc
}

} // verus!
