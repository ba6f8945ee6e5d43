//! Matrix-vector products and RMS normalization over tensor values.

use vstd::prelude::*;
use vstd::slice::slice_subrange;
use vstd::string::*;

use crate::arithmetic::Arithmetic;
use crate::error;
use crate::error::{Fault, InferenceError};
use crate::tensor;
use crate::tensor::{expect_rank, LoadedGgufTensor};
use crate::text;
use crate::text::decimal_text;

verus! {

/// `out` holds, for each of `rows` consecutive rows in `values`, its product with `x`.
pub open spec fn row_products<
    T: Copy,
    Mul: Fn(T, T) -> T,
    Add: Fn(T, T) -> T,
    InvRms: Fn(T, usize) -> T,
>(
    ops: Arithmetic<T, Mul, Add, InvRms>,
    values: Seq<T>,
    rows: int,
    x: Seq<T>,
    out: Seq<T>,
) -> bool {
    &&& out.len() == rows
    &&& forall|row: int|
        0 <= row < rows ==> ops.dot(
            ops.empty_sum,
            values.subrange(row * x.len(), row * x.len() + x.len()),
            x,
            #[trigger] out[row],
        )
}

/// Where row `row` of head `head` stands, if each head has `rows` rows.
pub open spec fn head_row(rows: int, head: int, row: int) -> int {
    head * rows + row
}

/// What `values` holds for row `row` of head `head`, if rows vary fastest and each of them has
/// `cols` columns.
pub open spec fn head_column<T>(
    values: Seq<T>,
    rows: int,
    cols: nat,
    head: int,
    row: int,
) -> Seq<T> {
    Seq::new(cols, |col: int| values[(head * cols + col) * rows + row])
}

/// `out` holds the product with `x` of each row of each head in `values`, if rows vary fastest.
pub open spec fn column_products<
    T: Copy,
    Mul: Fn(T, T) -> T,
    Add: Fn(T, T) -> T,
    InvRms: Fn(T, usize) -> T,
>(
    ops: Arithmetic<T, Mul, Add, InvRms>,
    values: Seq<T>,
    heads: int,
    rows: int,
    x: Seq<T>,
    out: Seq<T>,
) -> bool {
    &&& out.len() == heads * rows
    &&& forall|head: int, row: int|
        0 <= head < heads && 0 <= row < rows ==> ops.dot(
            ops.zero,
            head_column(values, rows, x.len(), head, row),
            x,
            #[trigger] out[head_row(rows, head, row)],
        )
}

/// Row `row` of a matrix with `rows` rows of `cols` values each ends before the matrix does.
pub proof fn lemma_row_within(row: int, rows: int, cols: int)
    requires
        0 <= row < rows,
        0 <= cols,
    ensures
        0 <= row * cols,
        row * cols + cols <= rows * cols,
{
    vstd::arithmetic::mul::lemma_mul_inequality(row + 1, rows, cols);
    vstd::arithmetic::mul::lemma_mul_is_distributive_add_other_way(cols, row, 1);
    vstd::arithmetic::mul::lemma_mul_inequality(0, row, cols);
}

/// Multiplies `rows` consecutive rows in `values` with `x`.
fn multiply_rows<
    T: Copy,
    Mul: Fn(T, T) -> T,
    Add: Fn(T, T) -> T,
    InvRms: Fn(T, usize) -> T,
>(
    ops: &Arithmetic<T, Mul, Add, InvRms>,
    values: &Vec<T>,
    rows: usize,
    x: &[T],
) -> (out: Vec<T>)
    requires
        ops.total(),
        rows * x@.len() <= values@.len(),
    ensures
        row_products(*ops, values@, rows as int, x@, out@),
{
    let cols: usize = x.len();
    let mut out: Vec<T> = Vec::new();
    for row in 0..rows
        invariant
            ops.total(),
            cols == x@.len(),
            rows * cols <= values.len(),
            row_products(*ops, values@, row as int, x@, out@),
    {
        proof {
            lemma_row_within(row as int, rows as int, cols as int);
        }
        let base: usize = row * cols;
        let cell = ops.dot_product(
            ops.empty_sum,
            slice_subrange(values.as_slice(), base, base + cols),
            x,
        );
        out.push(cell);
    }
    out
}

/// What is wrong with the width of `x` as the input of a matrix.
pub open spec fn matvec_2d_fault<T>(tensor: LoadedGgufTensor<T>, width: nat) -> Option<Fault> {
    error::earlier(
        tensor::rank_fault(tensor, 2),
        if width == tensor.dim(0) {
            None
        } else {
            Some(
                Fault::Parse(
                    tensor.name@ + " expects input width "@ + text::decimal(tensor.dim(0) as nat)
                        + ", got "@ + text::decimal(width),
                ),
            )
        },
    )
}

/// The product of a matrix with a vector. The first dimension of the matrix is the width of its
/// rows, the second their number.
pub fn matvec_2d<
    T: Copy,
    Mul: Fn(T, T) -> T,
    Add: Fn(T, T) -> T,
    InvRms: Fn(T, usize) -> T,
>(
    ops: &Arithmetic<T, Mul, Add, InvRms>,
    tensor: &LoadedGgufTensor<T>,
    x: &[T],
) -> (result: Result<Vec<T>, InferenceError>)
    requires
        ops.total(),
        matvec_2d_fault(*tensor, x@.len()) is None ==> backed(*tensor),
    ensures
        match result {
            Ok(out) => {
                &&& matvec_2d_fault(*tensor, x@.len()) is None
                &&& row_products(*ops, tensor.values@, tensor.dim(1) as int, x@, out@)
            },
            Err(error) => matvec_2d_fault(*tensor, x@.len()) == Some(error@),
        },
{
    expect_rank(tensor, 2)?;
    let cols: usize = tensor.dims[0] as usize;
    let rows: usize = tensor.dims[1] as usize;
    if x.len() != cols {
        let mut message = tensor.name.clone();
        message.append(" expects input width ");
        message.append(decimal_text(cols).as_str());
        message.append(", got ");
        message.append(decimal_text(x.len()).as_str());
        return Err(InferenceError::Parse(message));
    }
    Ok(multiply_rows(ops, &tensor.values, rows, x))
}

/// Row `row` of head `head`, out of `heads` heads with `rows` rows, is one of `heads * rows`.
proof fn lemma_head_row_within(head: int, heads: int, row: int, rows: int)
    requires
        0 <= head < heads,
        0 <= row < rows,
    ensures
        0 <= head * rows,
        head * rows + row < heads * rows,
{
    lemma_row_within(head, heads, rows);
}

/// The sum of the products of a column of `values` with `x`.
fn multiply_column<
    T: Copy,
    Mul: Fn(T, T) -> T,
    Add: Fn(T, T) -> T,
    InvRms: Fn(T, usize) -> T,
>(
    ops: &Arithmetic<T, Mul, Add, InvRms>,
    values: &Vec<T>,
    heads: usize,
    rows: usize,
    head: usize,
    row: usize,
    x: &[T],
) -> (r: T)
    requires
        ops.total(),
        head < heads,
        row < rows,
        heads * x@.len() * rows <= values@.len(),
    ensures
        ops.dot(
            ops.zero,
            head_column(values@, rows as int, x@.len(), head as int, row as int),
            x@,
            r,
        ),
{
    let cols: usize = x.len();
    let ghost column = head_column(values@, rows as int, x@.len(), head as int, row as int);
    let mut r = ops.zero;
    let ghost mut terms: Seq<T> = seq![];
    let ghost mut sums: Seq<T> = seq![r];
    for col in 0..cols
        invariant
            ops.total(),
            cols == x@.len(),
            head < heads,
            row < rows,
            heads * cols * rows <= values.len(),
            column == head_column(values@, rows as int, x@.len(), head as int, row as int),
            ops.adds_up(ops.zero, column.take(col as int), x@.take(col as int), terms, sums),
            sums.last() == r,
    {
        proof {
            lemma_head_row_within(head as int, heads as int, col as int, cols as int);
            lemma_head_row_within(
                head * cols + col,
                heads * cols,
                row as int,
                rows as int,
            );
            assert(heads * cols <= heads * cols * rows) by (nonlinear_arith)
                requires
                    rows >= 1,
                    heads * cols >= 0,
            ;
        }
        let term = (ops.mul)(values[(head * cols + col) * rows + row], x[col]);
        let next = (ops.add)(r, term);
        proof {
            terms = terms.push(term);
            sums = sums.push(next);
        }
        r = next;
    }
    assert(column.take(cols as int) =~= column);
    assert(x@.take(cols as int) =~= x@);
    r
}

/// Multiplies each row of each head in `values` with `x`, if rows vary fastest.
fn multiply_columns<
    T: Copy,
    Mul: Fn(T, T) -> T,
    Add: Fn(T, T) -> T,
    InvRms: Fn(T, usize) -> T,
>(
    ops: &Arithmetic<T, Mul, Add, InvRms>,
    values: &Vec<T>,
    heads: usize,
    rows: usize,
    x: &[T],
) -> (out: Vec<T>)
    requires
        ops.total(),
        heads * x@.len() * rows <= values@.len(),
    ensures
        column_products(*ops, values@, heads as int, rows as int, x@, out@),
{
    let mut out: Vec<T> = Vec::new();
    assert(0 * rows == 0);
    for head in 0..heads
        invariant
            ops.total(),
            heads * x@.len() * rows <= values@.len(),
            column_products(*ops, values@, head as int, rows as int, x@, out@),
    {
        let ghost done = out@;
        for row in 0..rows
            invariant
                ops.total(),
                head < heads,
                heads * x@.len() * rows <= values@.len(),
                done.len() == head * rows,
                out@.len() == done.len() + row,
                out@.take(done.len() as int) == done,
                forall|r: int|
                    0 <= r < row ==> ops.dot(
                        ops.zero,
                        head_column(values@, rows as int, x@.len(), head as int, r),
                        x@,
                        #[trigger] out@[head_row(rows as int, head as int, r)],
                    ),
        {
            let cell = multiply_column(ops, values, heads, rows, head, row, x);
            out.push(cell);
            assert(out@.take(done.len() as int) =~= done);
        }
        proof {
            assert((head + 1) * rows == head * rows + rows) by (nonlinear_arith);
            assert forall|h: int, r: int| 0 <= h < head + 1 && 0 <= r < rows implies ops.dot(
                ops.zero,
                head_column(values@, rows as int, x@.len(), h, r),
                x@,
                #[trigger] out@[head_row(rows as int, h, r)],
            ) by {
                if h < head {
                    lemma_head_row_within(h, head as int, r, rows as int);
                    assert(out@[head_row(rows as int, h, r)] == done[head_row(rows as int, h, r)]);
                }
            }
        }
    }
    out
}

/// What is wrong with the width of `x` as the input of a tensor of heads.
pub open spec fn matvec_3d_fault<T>(tensor: LoadedGgufTensor<T>, width: nat) -> Option<Fault> {
    error::earlier(
        tensor::rank_fault(tensor, 3),
        if width == tensor.dim(0) || width == tensor.dim(1) {
            None
        } else {
            Some(
                Fault::Parse(
                    tensor.name@ + " expects input width "@ + text::decimal(tensor.dim(0) as nat)
                        + " or "@ + text::decimal(tensor.dim(1) as nat) + ", got "@ + text::decimal(
                        width,
                    ),
                ),
            )
        },
    )
}

/// `out` holds the products of the heads of `tensor` with `x`, along the first dimension where `x`
/// has its width, else along the second.
pub open spec fn head_products<
    T: Copy,
    Mul: Fn(T, T) -> T,
    Add: Fn(T, T) -> T,
    InvRms: Fn(T, usize) -> T,
>(
    ops: Arithmetic<T, Mul, Add, InvRms>,
    tensor: LoadedGgufTensor<T>,
    x: Seq<T>,
    out: Seq<T>,
) -> bool {
    if x.len() == tensor.dim(0) {
        row_products(ops, tensor.values@, tensor.dim(2) * tensor.dim(1), x, out)
    } else {
        column_products(
            ops,
            tensor.values@,
            tensor.dim(2) as int,
            tensor.dim(0) as int,
            x,
            out,
        )
    }
}

/// The values that `tensor` holds reach as far as its dimensions say, and the product with a
/// vector of `width` values has a length that fits in `usize`.
pub open spec fn heads_backed<T>(tensor: LoadedGgufTensor<T>, width: nat) -> bool {
    &&& tensor.dim(2) * tensor.dim(1) * tensor.dim(0) <= tensor.values@.len()
    &&& tensor.dim(2) * (if width == tensor.dim(0) {
        tensor.dim(1)
    } else {
        tensor.dim(0)
    }) <= usize::MAX
}

/// Whether `a * b * c` is at most `limit`.
fn volume_within(a: usize, b: usize, c: usize, limit: usize) -> (within: bool)
    ensures
        within == (a * b * c <= limit),
{
    if c == 0 {
        return true;
    }
    match a.checked_mul(b) {
        None => {
            assert(a * b * c >= a * b) by (nonlinear_arith)
                requires
                    c >= 1,
                    a * b >= 0,
            ;
            false
        },
        Some(area) => match area.checked_mul(c) {
            None => false,
            Some(volume) => volume <= limit,
        },
    }
}

/// Whether a tensor of heads holds what a product with `width` values reads.
pub fn heads_are_backed<T>(tensor: &LoadedGgufTensor<T>, width: usize) -> (backed: bool)
    requires
        tensor.dims@.len() == 3,
    ensures
        backed == heads_backed(*tensor, width as nat),
{
    let d0: usize = tensor.dims[0] as usize;
    let d1: usize = tensor.dims[1] as usize;
    let heads: usize = tensor.dims[2] as usize;
    let rows: usize = if width == d0 {
        d1
    } else {
        d0
    };
    volume_within(heads, d1, d0, tensor.values.len()) && heads.checked_mul(rows).is_some()
}

/// The values of a matrix reach as far as its dimensions say.
pub open spec fn backed<T>(tensor: LoadedGgufTensor<T>) -> bool {
    tensor.dim(1) * tensor.dim(0) <= tensor.values@.len()
}

/// Whether a matrix holds what a product reads.
pub fn is_backed<T>(tensor: &LoadedGgufTensor<T>) -> (holds: bool)
    requires
        tensor.dims@.len() == 2,
    ensures
        holds == backed(*tensor),
{
    let rows: usize = tensor.dims[1] as usize;
    let cols: usize = tensor.dims[0] as usize;
    let held: usize = tensor.values.len();
    match rows.checked_mul(cols) {
        None => false,
        Some(area) => area <= held,
    }
}

/// The product of each head of a tensor with a vector, one head after the other.
pub fn matvec_3d_heads<
    T: Copy,
    Mul: Fn(T, T) -> T,
    Add: Fn(T, T) -> T,
    InvRms: Fn(T, usize) -> T,
>(
    ops: &Arithmetic<T, Mul, Add, InvRms>,
    tensor: &LoadedGgufTensor<T>,
    x: &[T],
) -> (result: Result<Vec<T>, InferenceError>)
    requires
        ops.total(),
        matvec_3d_fault(*tensor, x@.len()) is None ==> heads_backed(*tensor, x@.len()),
    ensures
        match result {
            Ok(out) => {
                &&& matvec_3d_fault(*tensor, x@.len()) is None
                &&& head_products(*ops, *tensor, x@, out@)
            },
            Err(error) => matvec_3d_fault(*tensor, x@.len()) == Some(error@),
        },
{
    expect_rank(tensor, 3)?;
    let d0: usize = tensor.dims[0] as usize;
    let d1: usize = tensor.dims[1] as usize;
    let heads: usize = tensor.dims[2] as usize;
    if x.len() == d0 {
        Ok(multiply_rows(ops, &tensor.values, heads * d1, x))
    } else if x.len() == d1 {
        Ok(multiply_columns(ops, &tensor.values, heads, d0, x))
    } else {
        let mut message = tensor.name.clone();
        message.append(" expects input width ");
        message.append(decimal_text(d0).as_str());
        message.append(" or ");
        message.append(decimal_text(d1).as_str());
        message.append(", got ");
        message.append(decimal_text(x.len()).as_str());
        Err(InferenceError::Parse(message))
    }
}

/// What is wrong with the widths of a vector and of its weights.
pub open spec fn rms_norm_fault(width: nat, weights: nat) -> Option<Fault> {
    if width == weights {
        None
    } else {
        Some(
            Fault::Parse(
                "RMS norm width mismatch: x="@ + text::decimal(width) + " weight="@ + text::decimal(
                    weights,
                ),
            ),
        )
    }
}

/// `r` is a product of `value`, `scale` and `weight`, in that order.
pub open spec fn weighted<
    T: Copy,
    Mul: Fn(T, T) -> T,
    Add: Fn(T, T) -> T,
    InvRms: Fn(T, usize) -> T,
>(ops: Arithmetic<T, Mul, Add, InvRms>, value: T, scale: T, weight: T, r: T) -> bool {
    exists|scaled: T| #[trigger]
        ops.product(value, scale, scaled) && ops.product(scaled, weight, r)
}

/// `out` is `x` scaled by the reciprocal of its root mean square and weighted by `weight`.
pub open spec fn rms_normed<
    T: Copy,
    Mul: Fn(T, T) -> T,
    Add: Fn(T, T) -> T,
    InvRms: Fn(T, usize) -> T,
>(ops: Arithmetic<T, Mul, Add, InvRms>, x: Seq<T>, weight: Seq<T>, out: Seq<T>) -> bool {
    exists|squares: T, scale: T|
        {
            &&& #[trigger] ops.dot(ops.empty_sum, x, x, squares)
            &&& #[trigger] ops.inverse_rms(squares, x.len(), scale)
            &&& out.len() == x.len()
            &&& forall|i: int|
                0 <= i < x.len() ==> weighted(ops, x[i], scale, weight[i], #[trigger] out[i])
        }
}

/// RMS normalization with weights.
pub fn rms_norm<
    T: Copy,
    Mul: Fn(T, T) -> T,
    Add: Fn(T, T) -> T,
    InvRms: Fn(T, usize) -> T,
>(ops: &Arithmetic<T, Mul, Add, InvRms>, x: &[T], weight: &[T]) -> (result: Result<
    Vec<T>,
    InferenceError,
>)
    requires
        ops.total(),
    ensures
        match result {
            Ok(out) => {
                &&& rms_norm_fault(x@.len(), weight@.len()) is None
                &&& rms_normed(*ops, x@, weight@, out@)
            },
            Err(error) => rms_norm_fault(x@.len(), weight@.len()) == Some(error@),
        },
{
    if x.len() != weight.len() {
        let mut message = "RMS norm width mismatch: x=".to_owned();
        message.append(decimal_text(x.len()).as_str());
        message.append(" weight=");
        message.append(decimal_text(weight.len()).as_str());
        return Err(InferenceError::Parse(message));
    }
    let squares = ops.dot_product(ops.empty_sum, x, x);
    let count: usize = if x.len() == 0 {
        1
    } else {
        x.len()
    };
    let scale = (ops.inv_rms)(squares, count);
    let mut out: Vec<T> = Vec::new();
    for i in 0..x.len()
        invariant
            ops.total(),
            x@.len() == weight@.len(),
            out@.len() == i,
            forall|k: int|
                0 <= k < i ==> weighted(*ops, x@[k], scale, weight@[k], #[trigger] out@[k]),
    {
        let scaled = (ops.mul)(x[i], scale);
        let cell = (ops.mul)(scaled, weight[i]);
        assert(ops.product(x@[i as int], scale, scaled));
        out.push(cell);
    }
    assert(ops.inverse_rms(squares, x@.len(), scale));
    Ok(out)
}

} // verus!
