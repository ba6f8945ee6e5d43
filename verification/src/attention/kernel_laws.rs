//! What holds of every product and of every normalized vector.

use vstd::prelude::*;

use crate::arithmetic::Arithmetic;
use crate::attention::kernels;
use crate::tensor::LoadedGgufTensor;

verus! {

/// Each operation gives one result on the same values.
pub open spec fn deterministic<
    T: Copy,
    Mul: Fn(T, T) -> T,
    Add: Fn(T, T) -> T,
    InvRms: Fn(T, usize) -> T,
>(ops: Arithmetic<T, Mul, Add, InvRms>) -> bool {
    &&& forall|a: T, b: T, r: T, s: T| #[trigger]
        ops.product(a, b, r) && #[trigger] ops.product(a, b, s) ==> r == s
    &&& forall|a: T, b: T, r: T, s: T| #[trigger]
        ops.sum(a, b, r) && #[trigger] ops.sum(a, b, s) ==> r == s
    &&& forall|a: T, n: nat, r: T, s: T| #[trigger]
        ops.inverse_rms(a, n, r) && #[trigger] ops.inverse_rms(a, n, s) ==> r == s
}

proof fn lemma_sums_agree<
    T: Copy,
    Mul: Fn(T, T) -> T,
    Add: Fn(T, T) -> T,
    InvRms: Fn(T, usize) -> T,
>(
    ops: Arithmetic<T, Mul, Add, InvRms>,
    start: T,
    w: Seq<T>,
    x: Seq<T>,
    terms: Seq<T>,
    sums: Seq<T>,
    other_terms: Seq<T>,
    other_sums: Seq<T>,
    n: int,
)
    requires
        deterministic(ops),
        ops.adds_up(start, w, x, terms, sums),
        ops.adds_up(start, w, x, other_terms, other_sums),
        0 <= n <= w.len(),
    ensures
        sums[n] == other_sums[n],
    decreases n,
{
    if n > 0 {
        lemma_sums_agree(ops, start, w, x, terms, sums, other_terms, other_sums, n - 1);
        assert(ops.product(w[n - 1], x[n - 1], terms[n - 1]));
        assert(ops.product(w[n - 1], x[n - 1], other_terms[n - 1]));
        assert(ops.sum(sums[n - 1], terms[n - 1], sums[n - 1 + 1]));
        assert(ops.sum(other_sums[n - 1], other_terms[n - 1], other_sums[n - 1 + 1]));
    }
}

/// Deterministic operations determine a sum of products.
pub proof fn dot_is_determined<
    T: Copy,
    Mul: Fn(T, T) -> T,
    Add: Fn(T, T) -> T,
    InvRms: Fn(T, usize) -> T,
>(ops: Arithmetic<T, Mul, Add, InvRms>, start: T, w: Seq<T>, x: Seq<T>, r: T, s: T)
    requires
        deterministic(ops),
        ops.dot(start, w, x, r),
        ops.dot(start, w, x, s),
    ensures
        r == s,
{
    let (terms, sums) = choose|terms: Seq<T>, sums: Seq<T>| #[trigger]
        ops.adds_up(start, w, x, terms, sums) && sums.last() == r;
    let (other_terms, other_sums) = choose|terms: Seq<T>, sums: Seq<T>| #[trigger]
        ops.adds_up(start, w, x, terms, sums) && sums.last() == s;
    lemma_sums_agree(ops, start, w, x, terms, sums, other_terms, other_sums, w.len() as int);
}

/// Deterministic operations determine the products of rows.
pub proof fn row_products_are_determined<
    T: Copy,
    Mul: Fn(T, T) -> T,
    Add: Fn(T, T) -> T,
    InvRms: Fn(T, usize) -> T,
>(
    ops: Arithmetic<T, Mul, Add, InvRms>,
    values: Seq<T>,
    rows: int,
    x: Seq<T>,
    out: Seq<T>,
    other: Seq<T>,
)
    requires
        deterministic(ops),
        kernels::row_products(ops, values, rows, x, out),
        kernels::row_products(ops, values, rows, x, other),
    ensures
        out == other,
{
    assert forall|row: int| 0 <= row < rows implies out[row] == other[row] by {
        dot_is_determined(
            ops,
            ops.empty_sum,
            values.subrange(row * x.len(), row * x.len() + x.len()),
            x,
            out[row],
            other[row],
        );
    }
    assert(out =~= other);
}

/// Place `i` among `heads` heads with `rows` rows each, by head and row.
proof fn lemma_head_and_row(i: int, heads: int, rows: int)
    requires
        0 <= i < heads * rows,
        0 <= rows,
    ensures
        rows > 0,
        0 <= i / rows < heads,
        0 <= i % rows < rows,
        i == kernels::head_row(rows, i / rows, i % rows),
{
    assert(rows > 0) by (nonlinear_arith)
        requires
            heads * rows > 0,
            rows >= 0,
    ;
    vstd::arithmetic::div_mod::lemma_fundamental_div_mod(i, rows);
    vstd::arithmetic::mul::lemma_mul_is_commutative(heads, rows);
    vstd::arithmetic::div_mod::lemma_multiply_divide_lt(i, rows, heads);
    vstd::arithmetic::mul::lemma_mul_is_commutative(rows, i / rows);
    vstd::arithmetic::div_mod::lemma_div_pos_is_pos(i, rows);
    vstd::arithmetic::div_mod::lemma_mod_bound(i, rows);
}

/// Deterministic operations determine the products of columns.
pub proof fn column_products_are_determined<
    T: Copy,
    Mul: Fn(T, T) -> T,
    Add: Fn(T, T) -> T,
    InvRms: Fn(T, usize) -> T,
>(
    ops: Arithmetic<T, Mul, Add, InvRms>,
    values: Seq<T>,
    heads: int,
    rows: int,
    x: Seq<T>,
    out: Seq<T>,
    other: Seq<T>,
)
    requires
        deterministic(ops),
        0 <= heads,
        0 <= rows,
        kernels::column_products(ops, values, heads, rows, x, out),
        kernels::column_products(ops, values, heads, rows, x, other),
    ensures
        out == other,
{
    assert forall|i: int| 0 <= i < out.len() implies out[i] == other[i] by {
        lemma_head_and_row(i, heads, rows);
        let head = i / rows;
        let row = i % rows;
        dot_is_determined(
            ops,
            ops.zero,
            kernels::head_column(values, rows, x.len(), head, row),
            x,
            out[kernels::head_row(rows, head, row)],
            other[kernels::head_row(rows, head, row)],
        );
    }
    assert(out =~= other);
}

/// Deterministic operations determine the products of heads.
pub proof fn head_products_are_determined<
    T: Copy,
    Mul: Fn(T, T) -> T,
    Add: Fn(T, T) -> T,
    InvRms: Fn(T, usize) -> T,
>(
    ops: Arithmetic<T, Mul, Add, InvRms>,
    tensor: LoadedGgufTensor<T>,
    x: Seq<T>,
    out: Seq<T>,
    other: Seq<T>,
)
    requires
        deterministic(ops),
        kernels::head_products(ops, tensor, x, out),
        kernels::head_products(ops, tensor, x, other),
    ensures
        out == other,
{
    if x.len() == tensor.dim(0) {
        row_products_are_determined(
            ops,
            tensor.values@,
            tensor.dim(2) * tensor.dim(1),
            x,
            out,
            other,
        );
    } else {
        column_products_are_determined(
            ops,
            tensor.values@,
            tensor.dim(2) as int,
            tensor.dim(0) as int,
            x,
            out,
            other,
        );
    }
}

/// Deterministic operations determine a normalized vector.
pub proof fn rms_norm_is_determined<
    T: Copy,
    Mul: Fn(T, T) -> T,
    Add: Fn(T, T) -> T,
    InvRms: Fn(T, usize) -> T,
>(
    ops: Arithmetic<T, Mul, Add, InvRms>,
    x: Seq<T>,
    weight: Seq<T>,
    out: Seq<T>,
    other: Seq<T>,
)
    requires
        deterministic(ops),
        kernels::rms_normed(ops, x, weight, out),
        kernels::rms_normed(ops, x, weight, other),
    ensures
        out == other,
{
    let (squares, scale) = choose|squares: T, scale: T|
        {
            &&& #[trigger] ops.dot(ops.empty_sum, x, x, squares)
            &&& #[trigger] ops.inverse_rms(squares, x.len(), scale)
            &&& out.len() == x.len()
            &&& forall|i: int|
                0 <= i < x.len() ==> kernels::weighted(
                    ops,
                    x[i],
                    scale,
                    weight[i],
                    #[trigger] out[i],
                )
        };
    let (other_squares, other_scale) = choose|squares: T, scale: T|
        {
            &&& #[trigger] ops.dot(ops.empty_sum, x, x, squares)
            &&& #[trigger] ops.inverse_rms(squares, x.len(), scale)
            &&& other.len() == x.len()
            &&& forall|i: int|
                0 <= i < x.len() ==> kernels::weighted(
                    ops,
                    x[i],
                    scale,
                    weight[i],
                    #[trigger] other[i],
                )
        };
    dot_is_determined(ops, ops.empty_sum, x, x, squares, other_squares);
    assert(scale == other_scale);
    assert forall|i: int| 0 <= i < x.len() implies out[i] == other[i] by {
        assert(kernels::weighted(ops, x[i], scale, weight[i], out[i]));
        assert(kernels::weighted(ops, x[i], scale, weight[i], other[i]));
        let scaled = choose|scaled: T| #[trigger]
            ops.product(x[i], scale, scaled) && ops.product(scaled, weight[i], out[i]);
        let other_scaled = choose|scaled: T| #[trigger]
            ops.product(x[i], scale, scaled) && ops.product(scaled, weight[i], other[i]);
        assert(scaled == other_scaled);
    }
    assert(out =~= other);
}

/// A sum of the products of `w` and `x` that starts from `zero` and one that starts from the sum of
/// no values are the same, in the sense of `same`.
pub open spec fn starts_agree<
    T: Copy,
    Mul: Fn(T, T) -> T,
    Add: Fn(T, T) -> T,
    InvRms: Fn(T, usize) -> T,
>(
    ops: Arithmetic<T, Mul, Add, InvRms>,
    w: Seq<T>,
    x: Seq<T>,
    same: spec_fn(T, T) -> bool,
) -> bool {
    forall|r: T, s: T| #[trigger]
        ops.dot(ops.empty_sum, w, x, r) && #[trigger] ops.dot(ops.zero, w, x, s) ==> same(r, s)
}

/// `same` relates the two starting values, and addition of one value keeps what `same` relates;
/// products are determined. Zeros of either sign start sums of floating-point numbers like this, if
/// `same` is their equality and also relates what is not a number to itself.
pub open spec fn addition_keeps<
    T: Copy,
    Mul: Fn(T, T) -> T,
    Add: Fn(T, T) -> T,
    InvRms: Fn(T, usize) -> T,
>(ops: Arithmetic<T, Mul, Add, InvRms>, same: spec_fn(T, T) -> bool) -> bool {
    &&& same(ops.empty_sum, ops.zero)
    &&& forall|a: T, b: T, r: T, s: T| #[trigger]
        ops.product(a, b, r) && #[trigger] ops.product(a, b, s) ==> r == s
    &&& forall|a: T, b: T, term: T, r: T, s: T|
        same(a, b) && #[trigger] ops.sum(a, term, r) && #[trigger] ops.sum(b, term, s) ==> same(
            r,
            s,
        )
}

proof fn lemma_sums_stay_same<
    T: Copy,
    Mul: Fn(T, T) -> T,
    Add: Fn(T, T) -> T,
    InvRms: Fn(T, usize) -> T,
>(
    ops: Arithmetic<T, Mul, Add, InvRms>,
    w: Seq<T>,
    x: Seq<T>,
    terms: Seq<T>,
    sums: Seq<T>,
    other_terms: Seq<T>,
    other_sums: Seq<T>,
    same: spec_fn(T, T) -> bool,
    n: int,
)
    requires
        addition_keeps(ops, same),
        ops.adds_up(ops.empty_sum, w, x, terms, sums),
        ops.adds_up(ops.zero, w, x, other_terms, other_sums),
        0 <= n <= w.len(),
    ensures
        same(sums[n], other_sums[n]),
    decreases n,
{
    if n > 0 {
        lemma_sums_stay_same(ops, w, x, terms, sums, other_terms, other_sums, same, n - 1);
        assert(ops.product(w[n - 1], x[n - 1], terms[n - 1]));
        assert(ops.product(w[n - 1], x[n - 1], other_terms[n - 1]));
        assert(ops.sum(sums[n - 1], terms[n - 1], sums[n - 1 + 1]));
        assert(ops.sum(other_sums[n - 1], other_terms[n - 1], other_sums[n - 1 + 1]));
    }
}

/// Where addition keeps what relates the two starting values, all sums agree in that sense.
pub proof fn kept_starts_agree<
    T: Copy,
    Mul: Fn(T, T) -> T,
    Add: Fn(T, T) -> T,
    InvRms: Fn(T, usize) -> T,
>(
    ops: Arithmetic<T, Mul, Add, InvRms>,
    w: Seq<T>,
    x: Seq<T>,
    same: spec_fn(T, T) -> bool,
)
    requires
        addition_keeps(ops, same),
    ensures
        starts_agree(ops, w, x, same),
{
    assert forall|r: T, s: T| #[trigger]
        ops.dot(ops.empty_sum, w, x, r) && #[trigger] ops.dot(ops.zero, w, x, s) implies same(
        r,
        s,
    ) by {
        let (terms, sums) = choose|terms: Seq<T>, sums: Seq<T>| #[trigger]
            ops.adds_up(ops.empty_sum, w, x, terms, sums) && sums.last() == r;
        let (other_terms, other_sums) = choose|terms: Seq<T>, sums: Seq<T>| #[trigger]
            ops.adds_up(ops.zero, w, x, terms, sums) && sums.last() == s;
        lemma_sums_stay_same(
            ops,
            w,
            x,
            terms,
            sums,
            other_terms,
            other_sums,
            same,
            w.len() as int,
        );
    }
}

/// Deterministic operations whose sums start from one value give equal sums.
pub proof fn equal_starts_agree<
    T: Copy,
    Mul: Fn(T, T) -> T,
    Add: Fn(T, T) -> T,
    InvRms: Fn(T, usize) -> T,
>(ops: Arithmetic<T, Mul, Add, InvRms>, w: Seq<T>, x: Seq<T>)
    requires
        deterministic(ops),
        ops.zero == ops.empty_sum,
    ensures
        starts_agree(ops, w, x, |r: T, s: T| r == s),
{
    assert forall|r: T, s: T| #[trigger]
        ops.dot(ops.empty_sum, w, x, r) && #[trigger] ops.dot(ops.zero, w, x, s) implies r == s by {
        dot_is_determined(ops, ops.zero, w, x, r, s);
    }
}

/// `b` has the values of `a` with the first two dimensions of each head exchanged.
pub open spec fn transposed<T>(a: LoadedGgufTensor<T>, b: LoadedGgufTensor<T>) -> bool {
    &&& a.dims@.len() == 3
    &&& b.dims@.len() == 3
    &&& b.dim(0) == a.dim(1)
    &&& b.dim(1) == a.dim(0)
    &&& b.dim(2) == a.dim(2)
    &&& forall|head: int, row: int, col: int|
        0 <= head < a.dim(2) && 0 <= row < a.dim(1) && 0 <= col < a.dim(0)
            ==> #[trigger] transposed_at(a, b, head, row, col)
}

/// The value of `a` in column `col` of row `row` of head `head` is the one that `b` has in column
/// `row` of row `col`.
pub open spec fn transposed_at<T>(
    a: LoadedGgufTensor<T>,
    b: LoadedGgufTensor<T>,
    head: int,
    row: int,
    col: int,
) -> bool {
    b.values@[(head * a.dim(0) + col) * a.dim(1) + row] == a.values@[(head * a.dim(1) + row)
        * a.dim(0) + col]
}

/// Row `row` of head `head` of a tensor, where rows are consecutive.
pub open spec fn head_row_of<T>(tensor: LoadedGgufTensor<T>, head: int, row: int) -> Seq<T> {
    let cols = tensor.dim(0);
    let base = kernels::head_row(tensor.dim(1) as int, head, row) * cols;
    tensor.values@.subrange(base, base + cols)
}

proof fn lemma_transposed_row<T>(
    a: LoadedGgufTensor<T>,
    b: LoadedGgufTensor<T>,
    head: int,
    row: int,
)
    requires
        transposed(a, b),
        a.dim(2) * a.dim(1) * a.dim(0) <= a.values@.len(),
        0 <= head < a.dim(2),
        0 <= row < a.dim(1),
    ensures
        kernels::head_column(b.values@, a.dim(1) as int, a.dim(0) as nat, head, row)
            == head_row_of(a, head, row),
{
    let cols = a.dim(0) as int;
    let at = kernels::head_row(a.dim(1) as int, head, row);
    kernels::lemma_row_within(head, a.dim(2) as int, a.dim(1) as int);
    kernels::lemma_row_within(at, a.dim(2) * a.dim(1), cols);
    let column = kernels::head_column(b.values@, a.dim(1) as int, a.dim(0) as nat, head, row);
    assert forall|col: int| 0 <= col < cols implies column[col] == head_row_of(
        a,
        head,
        row,
    )[col] by {
        assert(transposed_at(a, b, head, row, col));
    }
    assert(column =~= head_row_of(a, head, row));
}

/// How a tensor of heads is stored does not matter: it and its transpose have the same products
/// with a vector as wide as one side alone. This takes no more of the operations than that both
/// starting values give the same sums of the products at hand.
pub proof fn orientation_does_not_matter<
    T: Copy,
    Mul: Fn(T, T) -> T,
    Add: Fn(T, T) -> T,
    InvRms: Fn(T, usize) -> T,
>(
    ops: Arithmetic<T, Mul, Add, InvRms>,
    a: LoadedGgufTensor<T>,
    b: LoadedGgufTensor<T>,
    x: Seq<T>,
    out: Seq<T>,
    other: Seq<T>,
    same: spec_fn(T, T) -> bool,
)
    requires
        transposed(a, b),
        a.dim(0) != a.dim(1),
        x.len() == a.dim(0),
        kernels::heads_backed(a, x.len()),
        forall|head: int, row: int|
            0 <= head < a.dim(2) && 0 <= row < a.dim(1) ==> starts_agree(
                ops,
                #[trigger] head_row_of(a, head, row),
                x,
                same,
            ),
        kernels::head_products(ops, a, x, out),
        kernels::head_products(ops, b, x, other),
    ensures
        kernels::matvec_3d_fault(a, x.len()) is None,
        kernels::matvec_3d_fault(b, x.len()) is None,
        out.len() == a.dim(2) * a.dim(1),
        other.len() == out.len(),
        forall|i: int| 0 <= i < out.len() ==> same(#[trigger] out[i], other[i]),
{
    let heads = a.dim(2) as int;
    let rows = a.dim(1) as int;
    assert forall|i: int| 0 <= i < out.len() implies same(#[trigger] out[i], other[i]) by {
        lemma_head_and_row(i, heads, rows);
        let head = i / rows;
        let row = i % rows;
        lemma_transposed_row(a, b, head, row);
        assert(starts_agree(ops, head_row_of(a, head, row), x, same));
        assert(ops.dot(ops.empty_sum, head_row_of(a, head, row), x, out[i]));
        assert(ops.dot(
            ops.zero,
            kernels::head_column(b.values@, rows, x.len(), head, row),
            x,
            other[kernels::head_row(rows, head, row)],
        ));
    }
}

/// `flat` is the matrix that has the rows of all heads of `tensor`, one head after the other.
pub open spec fn stacked<T>(tensor: LoadedGgufTensor<T>, flat: LoadedGgufTensor<T>) -> bool {
    &&& tensor.dims@.len() == 3
    &&& flat.dims@.len() == 2
    &&& flat.dim(0) == tensor.dim(0)
    &&& flat.dim(1) == tensor.dim(2) * tensor.dim(1)
    &&& flat.values@ == tensor.values@
}

/// Along the first dimension, the heads of a tensor multiply as the one matrix that has all their
/// rows: neither product is refused, both ask for the same values, and what is a result of one is a
/// result of the other. Deterministic operations give both the same result.
pub proof fn stacked_heads_multiply_as_one_matrix<
    T: Copy,
    Mul: Fn(T, T) -> T,
    Add: Fn(T, T) -> T,
    InvRms: Fn(T, usize) -> T,
>(
    ops: Arithmetic<T, Mul, Add, InvRms>,
    tensor: LoadedGgufTensor<T>,
    flat: LoadedGgufTensor<T>,
    x: Seq<T>,
    out: Seq<T>,
    other: Seq<T>,
)
    requires
        stacked(tensor, flat),
        x.len() == tensor.dim(0),
    ensures
        kernels::matvec_3d_fault(tensor, x.len()) is None,
        kernels::matvec_2d_fault(flat, x.len()) is None,
        kernels::heads_backed(tensor, x.len()) == kernels::backed(flat),
        kernels::head_products(ops, tensor, x, out) == kernels::row_products(
            ops,
            flat.values@,
            flat.dim(1) as int,
            x,
            out,
        ),
        deterministic(ops) && kernels::head_products(ops, tensor, x, out) && kernels::row_products(
            ops,
            flat.values@,
            flat.dim(1) as int,
            x,
            other,
        ) ==> out == other,
{
    if deterministic(ops) && kernels::head_products(ops, tensor, x, out) && kernels::row_products(
        ops,
        flat.values@,
        flat.dim(1) as int,
        x,
        other,
    ) {
        row_products_are_determined(ops, flat.values@, flat.dim(1) as int, x, out, other);
    }
}

} // verus!
