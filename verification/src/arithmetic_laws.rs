//! What holds of every sum of products.

use vstd::prelude::*;

use crate::arithmetic::Arithmetic;

verus! {

/// `mark` shows of which products a value is the sum: none for a starting value, the one pair for a
/// product, and for a sum the pairs of both its parts, in order.
pub open spec fn marks<
    T: Copy,
    Mul: Fn(T, T) -> T,
    Add: Fn(T, T) -> T,
    InvRms: Fn(T, usize) -> T,
>(ops: Arithmetic<T, Mul, Add, InvRms>, mark: spec_fn(T) -> Seq<(T, T)>) -> bool {
    &&& mark(ops.zero) == Seq::<(T, T)>::empty()
    &&& mark(ops.empty_sum) == Seq::<(T, T)>::empty()
    &&& forall|a: T, b: T, r: T| #[trigger]
        call_ensures(ops.mul, (a, b), r) ==> mark(r) == seq![(a, b)]
    &&& forall|a: T, b: T, r: T| #[trigger]
        call_ensures(ops.add, (a, b), r) ==> mark(r) == mark(a) + mark(b)
}

/// The operations are those of the integers, if `value` tells which integer a value stands for.
pub open spec fn exact<
    T: Copy,
    Mul: Fn(T, T) -> T,
    Add: Fn(T, T) -> T,
    InvRms: Fn(T, usize) -> T,
>(ops: Arithmetic<T, Mul, Add, InvRms>, value: spec_fn(T) -> int) -> bool {
    &&& value(ops.zero) == 0
    &&& value(ops.empty_sum) == 0
    &&& forall|a: T, b: T, r: T| #[trigger]
        call_ensures(ops.mul, (a, b), r) ==> value(r) == value(a) * value(b)
    &&& forall|a: T, b: T, r: T| #[trigger]
        call_ensures(ops.add, (a, b), r) ==> value(r) == value(a) + value(b)
}

/// The sum of the first `n` of `terms`.
pub open spec fn total_of(terms: spec_fn(int) -> int, n: nat) -> int
    decreases n,
{
    if n == 0 {
        0
    } else {
        total_of(terms, (n - 1) as nat) + terms(n - 1)
    }
}

/// A sum whose terms are zero but for one place is the term in that place.
pub proof fn total_of_one_term(terms: spec_fn(int) -> int, n: nat, at: int)
    requires
        0 <= at < n,
        forall|i: int| 0 <= i < n && i != at ==> #[trigger] terms(i) == 0,
    ensures
        total_of(terms, n) == terms(at),
    decreases n,
{
    if at == n - 1 {
        lemma_total_of_zeros(terms, (n - 1) as nat);
    } else {
        total_of_one_term(terms, (n - 1) as nat, at);
    }
}

proof fn lemma_total_of_zeros(terms: spec_fn(int) -> int, n: nat)
    requires
        forall|i: int| 0 <= i < n ==> #[trigger] terms(i) == 0,
    ensures
        total_of(terms, n) == 0,
    decreases n,
{
    if n > 0 {
        lemma_total_of_zeros(terms, (n - 1) as nat);
    }
}

/// A sum depends on its terms alone.
pub proof fn same_terms_same_total(a: spec_fn(int) -> int, b: spec_fn(int) -> int, n: nat)
    requires
        forall|i: int| 0 <= i < n ==> #[trigger] a(i) == b(i),
    ensures
        total_of(a, n) == total_of(b, n),
    decreases n,
{
    if n > 0 {
        same_terms_same_total(a, b, (n - 1) as nat);
        assert(a(n - 1) == b(n - 1));
    }
}

/// Sums add up term by term.
pub proof fn totals_add_up(
    a: spec_fn(int) -> int,
    b: spec_fn(int) -> int,
    both: spec_fn(int) -> int,
    n: nat,
)
    requires
        forall|i: int| 0 <= i < n ==> #[trigger] both(i) == a(i) + b(i),
    ensures
        total_of(both, n) == total_of(a, n) + total_of(b, n),
    decreases n,
{
    if n > 0 {
        totals_add_up(a, b, both, (n - 1) as nat);
    }
}

/// What is summed up holds each product once, in order from the left, and in the exact case comes
/// to the sum over all places of the product of the two values there.
pub proof fn dots_are_sums_of_products<
    T: Copy,
    Mul: Fn(T, T) -> T,
    Add: Fn(T, T) -> T,
    InvRms: Fn(T, usize) -> T,
>(
    ops: Arithmetic<T, Mul, Add, InvRms>,
    start: T,
    w: Seq<T>,
    x: Seq<T>,
    r: T,
    mark: spec_fn(T) -> Seq<(T, T)>,
    value: spec_fn(T) -> int,
)
    requires
        ops.dot(start, w, x, r),
    ensures
        marks(ops, mark) && mark(start) == Seq::<(T, T)>::empty() ==> mark(r) == Seq::new(
            w.len(),
            |i: int| (w[i], x[i]),
        ),
        exact(ops, value) && value(start) == 0 ==> value(r) == total_of(
            |i: int| value(w[i]) * value(x[i]),
            w.len(),
        ),
{
    let (terms, sums) = choose|terms: Seq<T>, sums: Seq<T>| #[trigger]
        ops.adds_up(start, w, x, terms, sums) && sums.last() == r;
    lemma_partial_sums(ops, start, w, x, terms, sums, w.len() as int, mark, value);
}

proof fn lemma_partial_sums<
    T: Copy,
    Mul: Fn(T, T) -> T,
    Add: Fn(T, T) -> T,
    InvRms: Fn(T, usize) -> T,
>(
    ops: Arithmetic<T, Mul, Add, InvRms>,
    start: T,
    w: Seq<T>,
    x: Seq<T>,
    terms: Seq<T>,
    sums: Seq<T>,
    n: int,
    mark: spec_fn(T) -> Seq<(T, T)>,
    value: spec_fn(T) -> int,
)
    requires
        ops.adds_up(start, w, x, terms, sums),
        0 <= n <= w.len(),
    ensures
        marks(ops, mark) && mark(start) == Seq::<(T, T)>::empty() ==> mark(sums[n]) == Seq::new(
            n as nat,
            |i: int| (w[i], x[i]),
        ),
        exact(ops, value) && value(start) == 0 ==> value(sums[n]) == total_of(
            |i: int| value(w[i]) * value(x[i]),
            n as nat,
        ),
    decreases n,
{
    if n > 0 {
        lemma_partial_sums(ops, start, w, x, terms, sums, n - 1, mark, value);
        let i = n - 1;
        assert(ops.product(w[i], x[i], terms[i]));
        assert(ops.sum(sums[i], terms[i], sums[i + 1]));
        if marks(ops, mark) && mark(start) == Seq::<(T, T)>::empty() {
            assert(mark(sums[n]) =~= Seq::new(n as nat, |k: int| (w[k], x[k])));
        }
    } else {
        assert(Seq::new(0, |i: int| (w[i], x[i])) =~= Seq::<(T, T)>::empty());
    }
}

/// The product of two vectors adds to the start, from the left, the product of the values in each
/// place: at every step the one that comes next.
pub proof fn products_are_added_from_the_left<
    T: Copy,
    Mul: Fn(T, T) -> T,
    Add: Fn(T, T) -> T,
    InvRms: Fn(T, usize) -> T,
>(ops: Arithmetic<T, Mul, Add, InvRms>, start: T, w: &[T], x: &[T], r: T) -> (steps: (
    Seq<T>,
    Seq<T>,
))
    requires
        call_ensures(
            Arithmetic::<T, Mul, Add, InvRms>::dot_product,
            (&ops, start, w, x),
            r,
        ),
    ensures
        steps.0.len() == w@.len(),
        steps.1.len() == w@.len() + 1,
        steps.1[0] == start,
        steps.1[w@.len() as int] == r,
        forall|i: int|
            0 <= i < w@.len() ==> call_ensures(ops.mul, (w@[i], x@[i]), #[trigger] steps.0[i])
                && call_ensures(ops.add, (steps.1[i], steps.0[i]), steps.1[i + 1]),
{
    let (terms, sums) = choose|terms: Seq<T>, sums: Seq<T>| #[trigger]
        ops.adds_up(start, w@, x@, terms, sums) && sums.last() == r;
    assert forall|i: int| 0 <= i < w@.len() implies call_ensures(
        ops.mul,
        (w@[i], x@[i]),
        #[trigger] terms[i],
    ) && call_ensures(ops.add, (sums[i], terms[i]), sums[i + 1]) by {
        assert(ops.product(w@[i], x@[i], terms[i]));
        assert(ops.sum(sums[i], terms[i], sums[i + 1]));
    }
    (terms, sums)
}

/// Each value of `w` meets the value of `x` in its own place, once and in order; with exact
/// operations the product of `w` and `x` is the sum over all places of `w[i] * x[i]`.
pub proof fn each_weight_meets_its_own_entry<
    T: Copy,
    Mul: Fn(T, T) -> T,
    Add: Fn(T, T) -> T,
    InvRms: Fn(T, usize) -> T,
>(
    ops: Arithmetic<T, Mul, Add, InvRms>,
    start: T,
    w: &[T],
    x: &[T],
    r: T,
    mark: spec_fn(T) -> Seq<(T, T)>,
    value: spec_fn(T) -> int,
)
    requires
        call_ensures(
            Arithmetic::<T, Mul, Add, InvRms>::dot_product,
            (&ops, start, w, x),
            r,
        ),
    ensures
        marks(ops, mark) && mark(start) == Seq::<(T, T)>::empty() ==> mark(r) == Seq::new(
            w@.len(),
            |i: int| (w@[i], x@[i]),
        ),
        exact(ops, value) && value(start) == 0 ==> value(r) == total_of(
            |i: int| value(w@[i]) * value(x@[i]),
            w@.len(),
        ),
{
    dots_are_sums_of_products(ops, start, w@, x@, r, mark, value);
}

/// A row that is one in place `at` and zero elsewhere picks `x[at]`, at every width.
pub proof fn unit_rows_pick_their_entry<
    T: Copy,
    Mul: Fn(T, T) -> T,
    Add: Fn(T, T) -> T,
    InvRms: Fn(T, usize) -> T,
>(
    ops: Arithmetic<T, Mul, Add, InvRms>,
    start: T,
    w: &[T],
    x: &[T],
    r: T,
    at: int,
    value: spec_fn(T) -> int,
)
    requires
        call_ensures(
            Arithmetic::<T, Mul, Add, InvRms>::dot_product,
            (&ops, start, w, x),
            r,
        ),
        exact(ops, value),
        value(start) == 0,
        0 <= at < w@.len(),
        value(w@[at]) == 1,
        forall|i: int| 0 <= i < w@.len() && i != at ==> value(#[trigger] w@[i]) == 0,
    ensures
        value(r) == value(x@[at]),
{
    dots_are_sums_of_products(ops, start, w@, x@, r, |t: T| Seq::empty(), value);
    let terms = |i: int| value(w@[i]) * value(x@[i]);
    assert forall|i: int| 0 <= i < w@.len() && i != at implies #[trigger] terms(i) == 0 by {
        assert(value(w@[i]) == 0);
    }
    total_of_one_term(terms, w@.len(), at);
}

/// Operations that can be called on all values are what the products ask for.
pub proof fn operations_on_all_values_suffice<
    T: Copy,
    Mul: Fn(T, T) -> T,
    Add: Fn(T, T) -> T,
    InvRms: Fn(T, usize) -> T,
>(ops: Arithmetic<T, Mul, Add, InvRms>, start: T, w: &[T], x: &[T])
    requires
        forall|a: T, b: T| call_requires(ops.mul, (a, b)),
        forall|a: T, b: T| call_requires(ops.add, (a, b)),
        forall|a: T, n: usize| call_requires(ops.inv_rms, (a, n)),
        w@.len() == x@.len(),
    ensures
        ops.total(),
        call_requires(Arithmetic::<T, Mul, Add, InvRms>::dot_product, (&ops, start, w, x)),
{
}

} // verus!
