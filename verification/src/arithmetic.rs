//! The scalar operations that an attention layer is evaluated with.

use vstd::prelude::*;

verus! {

/// Scalar operations over values of type `T`. Nothing is supposed of them but that they can be
/// called on all values, so what is said of a result names the calls that lead to it, in order:
/// rounding, and that sums depend on their order, are left to the operations.
pub struct Arithmetic<T, Mul, Add, InvRms> {
    /// Where a loop that adds up products starts.
    pub zero: T,
    /// The sum of no values, where the sum of a row starts.
    pub empty_sum: T,
    pub mul: Mul,
    pub add: Add,
    /// From a sum of squares and a count to the reciprocal of the root of the mean square.
    pub inv_rms: InvRms,
}

impl<
    T: Copy,
    Mul: Fn(T, T) -> T,
    Add: Fn(T, T) -> T,
    InvRms: Fn(T, usize) -> T,
> Arithmetic<T, Mul, Add, InvRms> {
    /// Every operation can be called on all values.
    pub open spec fn total(&self) -> bool {
        &&& forall|a: T, b: T| call_requires(self.mul, (a, b))
        &&& forall|a: T, b: T| call_requires(self.add, (a, b))
        &&& forall|a: T, n: usize| call_requires(self.inv_rms, (a, n))
    }

    /// `r` is a product of `a` and `b`.
    pub open spec fn product(&self, a: T, b: T, r: T) -> bool {
        call_ensures(self.mul, (a, b), r)
    }

    /// `r` is a sum of `a` and `b`.
    pub open spec fn sum(&self, a: T, b: T, r: T) -> bool {
        call_ensures(self.add, (a, b), r)
    }

    /// `r` is the reciprocal of the root of the mean square, for `n` values whose squares add up
    /// to `squares`; the mean of no values is taken over one.
    pub open spec fn inverse_rms(&self, squares: T, n: nat, r: T) -> bool {
        let count: nat = if n == 0 {
            1
        } else {
            n
        };
        call_ensures(self.inv_rms, (squares, count as usize), r)
    }

    /// Starting from `start` and from the left, the products of `w` and `x` are `terms`, and `sums`
    /// holds what has been added up before each of them and in the end.
    pub open spec fn adds_up(
        &self,
        start: T,
        w: Seq<T>,
        x: Seq<T>,
        terms: Seq<T>,
        sums: Seq<T>,
    ) -> bool {
        &&& terms.len() == w.len()
        &&& sums.len() == w.len() + 1
        &&& sums[0] == start
        &&& forall|i: int| 0 <= i < w.len() ==> self.product(w[i], x[i], #[trigger] terms[i])
        &&& forall|i: int| 0 <= i < w.len() ==> self.sum(sums[i], #[trigger] terms[i], sums[i + 1])
    }

    /// `r` comes from `start` by adding the products of `w` and `x`, pair by pair from the left.
    pub open spec fn dot(&self, start: T, w: Seq<T>, x: Seq<T>, r: T) -> bool {
        exists|terms: Seq<T>, sums: Seq<T>| #[trigger]
            self.adds_up(start, w, x, terms, sums) && sums.last() == r
    }

    /// Adds up the products of `w` and `x`.
    pub fn dot_product(&self, start: T, w: &[T], x: &[T]) -> (r: T)
        requires
            self.total(),
            w@.len() == x@.len(),
        ensures
            self.dot(start, w@, x@, r),
    {
        let mut r = start;
        let ghost mut terms: Seq<T> = seq![];
        let ghost mut sums: Seq<T> = seq![start];
        for i in 0..w.len()
            invariant
                self.total(),
                w@.len() == x@.len(),
                self.adds_up(start, w@.take(i as int), x@.take(i as int), terms, sums),
                sums.last() == r,
        {
            let term = (self.mul)(w[i], x[i]);
            let next = (self.add)(r, term);
            proof {
                terms = terms.push(term);
                sums = sums.push(next);
            }
            r = next;
        }
        assert(w@.take(w@.len() as int) =~= w@);
        assert(x@.take(x@.len() as int) =~= x@);
        r
    }
}

} // verus!
