//! What the products of matrices and of heads, norms and scores come to, value by value.

use vstd::prelude::*;

use crate::arithmetic::Arithmetic;
use crate::arithmetic_laws;
use crate::attention::deepseek2_mla::score_heads;
use crate::attention::kernels;
use crate::attention::kernels::{
    heads_are_backed, is_backed, matvec_2d, matvec_3d_heads, rms_norm,
};
use crate::attention::mla_shape::Deepseek2MlaShape;
use crate::error::InferenceError;
use crate::tensor::{expect_rank, LoadedGgufTensor};
use crate::text;

verus! {

/// What a sum of products comes to where its weights are `weights` in each place.
proof fn lemma_dot_of<
    T: Copy,
    Mul: Fn(T, T) -> T,
    Add: Fn(T, T) -> T,
    InvRms: Fn(T, usize) -> T,
>(
    ops: Arithmetic<T, Mul, Add, InvRms>,
    start: T,
    w: Seq<T>,
    x: Seq<T>,
    r: T,
    weights: spec_fn(int) -> T,
    mark: spec_fn(T) -> Seq<(T, T)>,
    value: spec_fn(T) -> int,
)
    requires
        ops.dot(start, w, x, r),
        w.len() == x.len(),
        forall|i: int| 0 <= i < w.len() ==> #[trigger] w[i] == weights(i),
    ensures
        arithmetic_laws::marks(ops, mark) && mark(start) == Seq::<(T, T)>::empty() ==> mark(r)
            == Seq::new(x.len(), |i: int| (weights(i), x[i])),
        arithmetic_laws::exact(ops, value) && value(start) == 0 ==> value(r)
            == arithmetic_laws::total_of(|i: int| value(weights(i)) * value(x[i]), x.len()),
{
    arithmetic_laws::dots_are_sums_of_products(ops, start, w, x, r, mark, value);
    assert(Seq::new(w.len(), |i: int| (w[i], x[i])) =~= Seq::new(
        x.len(),
        |i: int| (weights(i), x[i]),
    ));
    let a = |i: int| value(w[i]) * value(x[i]);
    let b = |i: int| value(weights(i)) * value(x[i]);
    assert forall|i: int| 0 <= i < x.len() implies #[trigger] a(i) == b(i) by {
        assert(w[i] == weights(i));
    }
    arithmetic_laws::same_terms_same_total(a, b, x.len());
}

/// A matrix takes exactly the vectors as wide as its first dimension, and says so otherwise.
pub proof fn matrices_take_vectors_of_their_width<
    T: Copy,
    Mul: Fn(T, T) -> T,
    Add: Fn(T, T) -> T,
    InvRms: Fn(T, usize) -> T,
>(
    ops: Arithmetic<T, Mul, Add, InvRms>,
    tensor: LoadedGgufTensor<T>,
    x: &[T],
    result: Result<Vec<T>, InferenceError>,
)
    requires
        call_ensures(matvec_2d::<T, Mul, Add, InvRms>, (&ops, &tensor, x), result),
    ensures
        result is Ok <==> tensor.dims@.len() == 2 && x@.len() == tensor.dims@[0] as usize,
        tensor.dims@.len() != 2 ==> (result matches Err(InferenceError::Parse(message))
            && message@ == tensor.name@ + " rank "@ + text::decimal(tensor.dims@.len())
            + " != expected "@ + text::decimal(2)),
        tensor.dims@.len() == 2 && x@.len() != tensor.dims@[0] as usize ==> (result matches Err(
            InferenceError::Parse(message),
        ) && message@ == tensor.name@ + " expects input width "@ + text::decimal(
            (tensor.dims@[0] as usize) as nat,
        ) + ", got "@ + text::decimal(x@.len())),
{
}

/// The product of a matrix with a vector has one value for each row: the sum of the products of the
/// values of that row with the values of the vector, place by place.
pub proof fn matrices_multiply_row_by_row<
    T: Copy,
    Mul: Fn(T, T) -> T,
    Add: Fn(T, T) -> T,
    InvRms: Fn(T, usize) -> T,
>(
    ops: Arithmetic<T, Mul, Add, InvRms>,
    tensor: LoadedGgufTensor<T>,
    x: &[T],
    out: Vec<T>,
    mark: spec_fn(T) -> Seq<(T, T)>,
    value: spec_fn(T) -> int,
)
    requires
        call_ensures(matvec_2d::<T, Mul, Add, InvRms>, (&ops, &tensor, x), Ok(out)),
        (tensor.dims@[1] as usize) * (tensor.dims@[0] as usize) <= tensor.values@.len(),
    ensures
        out@.len() == tensor.dims@[1] as usize,
        forall|row: int|
            0 <= row < out@.len() ==> {
                &&& arithmetic_laws::marks(ops, mark) ==> mark(#[trigger] out@[row]) == Seq::new(
                    x@.len(),
                    |col: int| (tensor.values@[row * x@.len() + col], x@[col]),
                )
                &&& arithmetic_laws::exact(ops, value) ==> value(out@[row])
                    == arithmetic_laws::total_of(
                    |col: int| value(tensor.values@[row * x@.len() + col]) * value(x@[col]),
                    x@.len(),
                )
            },
{
    let cols = x@.len() as int;
    let rows = (tensor.dims@[1] as usize) as int;
    assert forall|row: int| 0 <= row < out@.len() implies {
        &&& arithmetic_laws::marks(ops, mark) ==> mark(#[trigger] out@[row]) == Seq::new(
            x@.len(),
            |col: int| (tensor.values@[row * x@.len() + col], x@[col]),
        )
        &&& arithmetic_laws::exact(ops, value) ==> value(out@[row]) == arithmetic_laws::total_of(
            |col: int| value(tensor.values@[row * x@.len() + col]) * value(x@[col]),
            x@.len(),
        )
    } by {
        kernels::lemma_row_within(row, rows, cols);
        let weights = |col: int| tensor.values@[row * x@.len() + col];
        lemma_dot_of(
            ops,
            ops.empty_sum,
            tensor.values@.subrange(row * cols, row * cols + cols),
            x@,
            out@[row],
            weights,
            mark,
            value,
        );
        assert(Seq::new(x@.len(), |col: int| (weights(col), x@[col])) =~= Seq::new(
            x@.len(),
            |col: int| (tensor.values@[row * x@.len() + col], x@[col]),
        ));
        arithmetic_laws::same_terms_same_total(
            |col: int| value(weights(col)) * value(x@[col]),
            |col: int| value(tensor.values@[row * x@.len() + col]) * value(x@[col]),
            x@.len(),
        );
    }
}

/// With exact operations, the identity matrix gives every vector back.
pub proof fn identity_gives_the_vector_back<
    T: Copy,
    Mul: Fn(T, T) -> T,
    Add: Fn(T, T) -> T,
    InvRms: Fn(T, usize) -> T,
>(
    ops: Arithmetic<T, Mul, Add, InvRms>,
    tensor: LoadedGgufTensor<T>,
    x: &[T],
    out: Vec<T>,
    value: spec_fn(T) -> int,
)
    requires
        call_ensures(matvec_2d::<T, Mul, Add, InvRms>, (&ops, &tensor, x), Ok(out)),
        arithmetic_laws::exact(ops, value),
        tensor.dims@[1] as usize == x@.len(),
        x@.len() * x@.len() <= tensor.values@.len(),
        forall|row: int, col: int|
            0 <= row < x@.len() && 0 <= col < x@.len() ==> value(
                #[trigger] tensor.values@[row * x@.len() + col],
            ) == if row == col {
                1int
            } else {
                0
            },
    ensures
        out@.len() == x@.len(),
        forall|i: int| 0 <= i < x@.len() ==> value(#[trigger] out@[i]) == value(x@[i]),
{
    matrices_take_vectors_of_their_width(ops, tensor, x, Ok(out));
    matrices_multiply_row_by_row(ops, tensor, x, out, |t: T| Seq::empty(), value);
    assert forall|i: int| 0 <= i < x@.len() implies value(#[trigger] out@[i]) == value(x@[i]) by {
        let terms = |col: int| value(tensor.values@[i * x@.len() + col]) * value(x@[col]);
        assert forall|col: int| 0 <= col < x@.len() && col != i implies #[trigger] terms(col)
            == 0 by {
            assert(value(tensor.values@[i * x@.len() + col]) == 0);
        }
        assert(value(tensor.values@[i * x@.len() + i]) == 1);
        arithmetic_laws::total_of_one_term(terms, x@.len(), i);
        assert(value(out@[i]) == arithmetic_laws::total_of(terms, x@.len()));
    }
}

/// A tensor of heads takes exactly the vectors as wide as one of its first two dimensions, and says
/// so otherwise.
pub proof fn heads_take_vectors_of_their_width<
    T: Copy,
    Mul: Fn(T, T) -> T,
    Add: Fn(T, T) -> T,
    InvRms: Fn(T, usize) -> T,
>(
    ops: Arithmetic<T, Mul, Add, InvRms>,
    tensor: LoadedGgufTensor<T>,
    x: &[T],
    result: Result<Vec<T>, InferenceError>,
)
    requires
        call_ensures(matvec_3d_heads::<T, Mul, Add, InvRms>, (&ops, &tensor, x), result),
    ensures
        result is Ok <==> tensor.dims@.len() == 3 && (x@.len() == tensor.dims@[0] as usize
            || x@.len() == tensor.dims@[1] as usize),
        tensor.dims@.len() != 3 ==> (result matches Err(InferenceError::Parse(message))
            && message@ == tensor.name@ + " rank "@ + text::decimal(tensor.dims@.len())
            + " != expected "@ + text::decimal(3)),
        tensor.dims@.len() == 3 && x@.len() != tensor.dims@[0] as usize && x@.len()
            != tensor.dims@[1] as usize ==> (result matches Err(InferenceError::Parse(message))
            && message@ == tensor.name@ + " expects input width "@ + text::decimal(
            (tensor.dims@[0] as usize) as nat,
        ) + " or "@ + text::decimal((tensor.dims@[1] as usize) as nat) + ", got "@ + text::decimal(
            x@.len(),
        )),
{
}

/// The product of a tensor of heads with a vector as wide as the first dimension has the heads one
/// after the other, each with one value for each of its rows: the sum of the products of the values
/// of that row with the values of the vector, place by place.
pub proof fn heads_multiply_row_by_row<
    T: Copy,
    Mul: Fn(T, T) -> T,
    Add: Fn(T, T) -> T,
    InvRms: Fn(T, usize) -> T,
>(
    ops: Arithmetic<T, Mul, Add, InvRms>,
    tensor: LoadedGgufTensor<T>,
    x: &[T],
    out: Vec<T>,
    mark: spec_fn(T) -> Seq<(T, T)>,
    value: spec_fn(T) -> int,
    head: int,
    row: int,
)
    requires
        call_ensures(matvec_3d_heads::<T, Mul, Add, InvRms>, (&ops, &tensor, x), Ok(out)),
        (tensor.dims@[2] as usize) * (tensor.dims@[1] as usize) * (tensor.dims@[0] as usize)
            <= tensor.values@.len(),
        x@.len() == tensor.dims@[0] as usize,
        0 <= head < tensor.dims@[2] as usize,
        0 <= row < tensor.dims@[1] as usize,
    ensures
        ({
            let rows = tensor.dims@[1] as usize;
            let weights = |col: int| tensor.values@[(head * rows + row) * x@.len() + col];
            &&& out@.len() == (tensor.dims@[2] as usize) * rows
            &&& 0 <= head * rows + row < out@.len()
            &&& arithmetic_laws::marks(ops, mark) ==> mark(out@[head * rows + row]) == Seq::new(
                x@.len(),
                |col: int| (weights(col), x@[col]),
            )
            &&& arithmetic_laws::exact(ops, value) ==> value(out@[head * rows + row])
                == arithmetic_laws::total_of(
                |col: int| value(weights(col)) * value(x@[col]),
                x@.len(),
            )
        }),
{
    let cols = x@.len() as int;
    let rows = (tensor.dims@[1] as usize) as int;
    let heads = (tensor.dims@[2] as usize) as int;
    let at = head * rows + row;
    kernels::lemma_row_within(head, heads, rows);
    kernels::lemma_row_within(at, heads * rows, cols);
    let weights = |col: int| tensor.values@[at * x@.len() + col];
    lemma_dot_of(
        ops,
        ops.empty_sum,
        tensor.values@.subrange(at * cols, at * cols + cols),
        x@,
        out@[at],
        weights,
        mark,
        value,
    );
}

/// Where the vector is as wide as the second dimension alone, rows run along the first: values that
/// belong to one row of a head stand a whole column apart.
pub proof fn heads_multiply_column_by_column<
    T: Copy,
    Mul: Fn(T, T) -> T,
    Add: Fn(T, T) -> T,
    InvRms: Fn(T, usize) -> T,
>(
    ops: Arithmetic<T, Mul, Add, InvRms>,
    tensor: LoadedGgufTensor<T>,
    x: &[T],
    out: Vec<T>,
    mark: spec_fn(T) -> Seq<(T, T)>,
    value: spec_fn(T) -> int,
    head: int,
    row: int,
)
    requires
        call_ensures(matvec_3d_heads::<T, Mul, Add, InvRms>, (&ops, &tensor, x), Ok(out)),
        x@.len() != tensor.dims@[0] as usize,
        0 <= head < tensor.dims@[2] as usize,
        0 <= row < tensor.dims@[0] as usize,
    ensures
        ({
            let rows = tensor.dims@[0] as usize;
            let weights = |col: int| tensor.values@[(head * x@.len() + col) * rows + row];
            &&& out@.len() == (tensor.dims@[2] as usize) * rows
            &&& 0 <= head * rows + row < out@.len()
            &&& arithmetic_laws::marks(ops, mark) ==> mark(out@[head * rows + row]) == Seq::new(
                x@.len(),
                |col: int| (weights(col), x@[col]),
            )
            &&& arithmetic_laws::exact(ops, value) ==> value(out@[head * rows + row])
                == arithmetic_laws::total_of(
                |col: int| value(weights(col)) * value(x@[col]),
                x@.len(),
            )
        }),
{
    let rows = (tensor.dims@[0] as usize) as int;
    let heads = (tensor.dims@[2] as usize) as int;
    kernels::lemma_row_within(head, heads, rows);
    let weights = |col: int| tensor.values@[(head * x@.len() + col) * rows + row];
    let at = kernels::head_row(rows, head, row);
    lemma_dot_of(
        ops,
        ops.zero,
        kernels::head_column(tensor.values@, rows, x@.len(), head, row),
        x@,
        out@[at],
        weights,
        mark,
        value,
    );
}

/// RMS normalization takes exactly as many weights as there are values, and says so otherwise.
pub proof fn norms_take_as_many_weights_as_values<
    T: Copy,
    Mul: Fn(T, T) -> T,
    Add: Fn(T, T) -> T,
    InvRms: Fn(T, usize) -> T,
>(
    ops: Arithmetic<T, Mul, Add, InvRms>,
    x: &[T],
    weight: &[T],
    result: Result<Vec<T>, InferenceError>,
)
    requires
        call_ensures(rms_norm::<T, Mul, Add, InvRms>, (&ops, x, weight), result),
    ensures
        result is Ok <==> x@.len() == weight@.len(),
        x@.len() != weight@.len() ==> (result matches Err(InferenceError::Parse(message))
            && message@ == "RMS norm width mismatch: x="@ + text::decimal(x@.len()) + " weight="@
            + text::decimal(weight@.len())),
{
}

/// A normalized vector has in each place the value there times one scale, which all places share,
/// times the weight there. The scale is made of the sum of the squares of all values and of their
/// number, which counts as one where there are none.
pub proof fn norms_share_one_scale<
    T: Copy,
    Mul: Fn(T, T) -> T,
    Add: Fn(T, T) -> T,
    InvRms: Fn(T, usize) -> T,
>(
    ops: Arithmetic<T, Mul, Add, InvRms>,
    x: &[T],
    weight: &[T],
    out: Vec<T>,
    mark: spec_fn(T) -> Seq<(T, T)>,
    value: spec_fn(T) -> int,
) -> (made_of: (T, T, Seq<T>))
    requires
        call_ensures(rms_norm::<T, Mul, Add, InvRms>, (&ops, x, weight), Ok(out)),
    ensures
        out@.len() == x@.len(),
        arithmetic_laws::marks(ops, mark) ==> mark(made_of.0) == Seq::new(
            x@.len(),
            |i: int| (x@[i], x@[i]),
        ),
        arithmetic_laws::exact(ops, value) ==> value(made_of.0) == arithmetic_laws::total_of(
            |i: int| value(x@[i]) * value(x@[i]),
            x@.len(),
        ),
        x@.len() > 0 ==> call_ensures(ops.inv_rms, (made_of.0, x@.len() as usize), made_of.1),
        x@.len() == 0 ==> call_ensures(ops.inv_rms, (made_of.0, 1usize), made_of.1),
        forall|i: int|
            0 <= i < x@.len() ==> call_ensures(
                ops.mul,
                (x@[i], made_of.1),
                #[trigger] made_of.2[i],
            ) && call_ensures(ops.mul, (made_of.2[i], weight@[i]), out@[i]),
        arithmetic_laws::exact(ops, value) ==> forall|i: int|
            0 <= i < x@.len() ==> value(#[trigger] out@[i]) == value(x@[i]) * value(made_of.1)
                * value(weight@[i]),
{
    lemma_rms_normed(ops, x@, weight@, out@, mark, value)
}

/// What a normalized vector is made of.
pub proof fn lemma_rms_normed<
    T: Copy,
    Mul: Fn(T, T) -> T,
    Add: Fn(T, T) -> T,
    InvRms: Fn(T, usize) -> T,
>(
    ops: Arithmetic<T, Mul, Add, InvRms>,
    x: Seq<T>,
    weight: Seq<T>,
    out: Seq<T>,
    mark: spec_fn(T) -> Seq<(T, T)>,
    value: spec_fn(T) -> int,
) -> (made_of: (T, T, Seq<T>))
    requires
        kernels::rms_normed(ops, x, weight, out),
    ensures
        out.len() == x.len(),
        arithmetic_laws::marks(ops, mark) ==> mark(made_of.0) == Seq::new(
            x.len(),
            |i: int| (x[i], x[i]),
        ),
        arithmetic_laws::exact(ops, value) ==> value(made_of.0) == arithmetic_laws::total_of(
            |i: int| value(x[i]) * value(x[i]),
            x.len(),
        ),
        x.len() > 0 ==> call_ensures(ops.inv_rms, (made_of.0, x.len() as usize), made_of.1),
        x.len() == 0 ==> call_ensures(ops.inv_rms, (made_of.0, 1usize), made_of.1),
        forall|i: int|
            0 <= i < x.len() ==> call_ensures(
                ops.mul,
                (x[i], made_of.1),
                #[trigger] made_of.2[i],
            ) && call_ensures(ops.mul, (made_of.2[i], weight[i]), out[i]),
        arithmetic_laws::exact(ops, value) ==> forall|i: int|
            0 <= i < x.len() ==> value(#[trigger] out[i]) == value(x[i]) * value(made_of.1)
                * value(weight[i]),
{
    let (squares, scale) = choose|squares: T, scale: T|
        {
            &&& #[trigger] ops.dot(ops.empty_sum, x, x, squares)
            &&& #[trigger] ops.inverse_rms(squares, x.len(), scale)
            &&& out.len() == x.len()
            &&& forall|i: int|
                0 <= i < x.len() ==> kernels::weighted(
                    ops,
                    x[i],
                    scale,
                    weight[i],
                    #[trigger] out[i],
                )
        };
    arithmetic_laws::dots_are_sums_of_products(ops, ops.empty_sum, x, x, squares, mark, value);
    let scaled = Seq::new(
        x.len(),
        |i: int|
            choose|scaled: T| #[trigger]
                ops.product(x[i], scale, scaled) && ops.product(scaled, weight[i], out[i]),
    );
    assert forall|i: int| 0 <= i < x.len() implies call_ensures(
        ops.mul,
        (x[i], scale),
        #[trigger] scaled[i],
    ) && call_ensures(ops.mul, (scaled[i], weight[i]), out[i]) by {
        assert(kernels::weighted(ops, x[i], scale, weight[i], out[i]));
        assert(ops.product(x[i], scale, scaled[i]) && ops.product(scaled[i], weight[i], out[i]));
    }
    assert forall|i: int|
        arithmetic_laws::exact(ops, value) && 0 <= i < x.len() implies value(#[trigger] out[i])
        == value(x[i]) * value(scale) * value(weight[i]) by {
        assert(call_ensures(ops.mul, (x[i], scale), scaled[i]));
    }
    (squares, scale, scaled)
}

/// The score of a head is made of its own query and key: of the first part of the query with the
/// key of the head, and of the rest with the part of the key that all heads share.
pub proof fn heads_are_scored_on_their_own<
    T: Copy,
    Mul: Fn(T, T) -> T,
    Add: Fn(T, T) -> T,
    InvRms: Fn(T, usize) -> T,
>(
    ops: Arithmetic<T, Mul, Add, InvRms>,
    shape: Deepseek2MlaShape,
    q: &[T],
    k_nope: &[T],
    k_rope: &[T],
    scores: Vec<(T, T)>,
    mark: spec_fn(T) -> Seq<(T, T)>,
    head: int,
)
    requires
        call_ensures(
            score_heads::<T, Mul, Add, InvRms>,
            (&ops, &shape, q, k_nope, k_rope),
            scores,
        ),
        q@.len() == shape.heads * (shape.qk_nope + shape.qk_rope),
        k_nope@.len() == shape.heads * shape.qk_nope,
        k_rope@.len() == shape.qk_rope,
        arithmetic_laws::marks(ops, mark),
        0 <= head < shape.heads,
    ensures
        scores@.len() == shape.heads,
        mark(scores@[head].0) == Seq::new(
            shape.qk_nope as nat,
            |i: int|
                (
                    q@[head * (shape.qk_nope + shape.qk_rope) + i],
                    k_nope@[head * shape.qk_nope + i],
                ),
        ),
        mark(scores@[head].1) == Seq::new(
            shape.qk_rope as nat,
            |i: int|
                (q@[head * (shape.qk_nope + shape.qk_rope) + shape.qk_nope + i], k_rope@[i]),
        ),
{
    let nope = shape.qk_nope as int;
    let rope = shape.qk_rope as int;
    let q_base = head * (nope + rope);
    let k_base = head * nope;
    kernels::lemma_row_within(head, shape.heads as int, nope + rope);
    kernels::lemma_row_within(head, shape.heads as int, nope);
    let score = scores@[head];
    let value = |t: T| 0int;
    let q_nope = q@.subrange(q_base, q_base + nope);
    let k_own = k_nope@.subrange(k_base, k_base + nope);
    let q_rope = q@.subrange(q_base + nope, q_base + nope + rope);
    arithmetic_laws::dots_are_sums_of_products(
        ops,
        ops.empty_sum,
        q_nope,
        k_own,
        score.0,
        mark,
        value,
    );
    arithmetic_laws::dots_are_sums_of_products(
        ops,
        ops.empty_sum,
        q_rope,
        k_rope@,
        score.1,
        mark,
        value,
    );
    assert(mark(score.0) =~= Seq::new(
        shape.qk_nope as nat,
        |i: int| (q@[q_base + i], k_nope@[k_base + i]),
    ));
    assert(mark(score.1) =~= Seq::new(
        shape.qk_rope as nat,
        |i: int| (q@[q_base + nope + i], k_rope@[i]),
    ));
    assert(mark(score.0) =~= Seq::new(
        shape.qk_nope as nat,
        |i: int|
            (
                q@[head * (shape.qk_nope + shape.qk_rope) + i],
                k_nope@[head * shape.qk_nope + i],
            ),
    ));
    assert(mark(score.1) =~= Seq::new(
        shape.qk_rope as nat,
        |i: int| (q@[head * (shape.qk_nope + shape.qk_rope) + shape.qk_nope + i], k_rope@[i]),
    ));
}

/// Products of tensors that hold all the values that their dimensions speak of can be formed with
/// every vector, be it refused or not.
pub proof fn full_tensors_can_be_multiplied<
    T: Copy,
    Mul: Fn(T, T) -> T,
    Add: Fn(T, T) -> T,
    InvRms: Fn(T, usize) -> T,
>(
    ops: Arithmetic<T, Mul, Add, InvRms>,
    matrix: LoadedGgufTensor<T>,
    heads: LoadedGgufTensor<T>,
    x: &[T],
    weight: &[T],
)
    requires
        forall|a: T, b: T| call_requires(ops.mul, (a, b)),
        forall|a: T, b: T| call_requires(ops.add, (a, b)),
        forall|a: T, n: usize| call_requires(ops.inv_rms, (a, n)),
        matrix.dims@.len() == 2 ==> (matrix.dims@[1] as usize) * (matrix.dims@[0] as usize)
            <= matrix.values@.len(),
        heads.dims@.len() == 3 ==> {
            &&& (heads.dims@[2] as usize) * (heads.dims@[1] as usize) * (heads.dims@[0] as usize)
                <= heads.values@.len()
            &&& (heads.dims@[2] as usize) * (heads.dims@[1] as usize) <= usize::MAX
            &&& (heads.dims@[2] as usize) * (heads.dims@[0] as usize) <= usize::MAX
        },
    ensures
        call_requires(matvec_2d::<T, Mul, Add, InvRms>, (&ops, &matrix, x)),
        call_requires(matvec_3d_heads::<T, Mul, Add, InvRms>, (&ops, &heads, x)),
        call_requires(rms_norm::<T, Mul, Add, InvRms>, (&ops, x, weight)),
{
}

/// A matrix holds enough where its values are at least as many as rows times columns; a tensor of
/// heads where its values are at least as many as its three dimensions multiply to, and where the
/// product with a vector of `width` values can be counted.
pub proof fn backing_is_counted<T>(
    matrix: LoadedGgufTensor<T>,
    heads: LoadedGgufTensor<T>,
    width: usize,
    matrix_backed: bool,
    heads_backed: bool,
)
    requires
        call_ensures(is_backed::<T>, (&matrix,), matrix_backed),
        call_ensures(heads_are_backed::<T>, (&heads, width), heads_backed),
    ensures
        matrix_backed <==> (matrix.dims@[1] as usize) * (matrix.dims@[0] as usize)
            <= matrix.values@.len(),
        ({
            let d0 = heads.dims@[0] as usize;
            let d1 = heads.dims@[1] as usize;
            let count = heads.dims@[2] as usize;
            &&& width == d0 ==> (heads_backed <==> count * d1 * d0 <= heads.values@.len() && count
                * d1 <= usize::MAX)
            &&& width != d0 ==> (heads_backed <==> count * d1 * d0 <= heads.values@.len() && count
                * d0 <= usize::MAX)
        }),
{
}

/// A tensor has the rank that is expected of it or is refused, with both numbers and its name.
pub proof fn ranks_are_compared<T>(
    tensor: LoadedGgufTensor<T>,
    rank: usize,
    result: Result<(), InferenceError>,
)
    requires
        call_ensures(expect_rank::<T>, (&tensor, rank), result),
    ensures
        result is Ok <==> tensor.dims@.len() == rank,
        result matches Err(error) ==> (error matches InferenceError::Parse(message) && message@
            == tensor.name@ + " rank "@ + text::decimal(tensor.dims@.len()) + " != expected "@
            + text::decimal(rank as nat)),
{
}

/// A product that is refused asks for no values.
pub proof fn refused_products_ask_for_no_values<
    T: Copy,
    Mul: Fn(T, T) -> T,
    Add: Fn(T, T) -> T,
    InvRms: Fn(T, usize) -> T,
>(
    ops: Arithmetic<T, Mul, Add, InvRms>,
    matrix: LoadedGgufTensor<T>,
    heads: LoadedGgufTensor<T>,
    x: &[T],
)
    requires
        forall|a: T, b: T| call_requires(ops.mul, (a, b)),
        forall|a: T, b: T| call_requires(ops.add, (a, b)),
        forall|a: T, n: usize| call_requires(ops.inv_rms, (a, n)),
        matrix.dims@.len() != 2 || x@.len() != matrix.dims@[0] as usize,
        heads.dims@.len() != 3 || (x@.len() != heads.dims@[0] as usize && x@.len()
            != heads.dims@[1] as usize),
    ensures
        call_requires(matvec_2d::<T, Mul, Add, InvRms>, (&ops, &matrix, x)),
        call_requires(matvec_3d_heads::<T, Mul, Add, InvRms>, (&ops, &heads, x)),
{
}

} // verus!
