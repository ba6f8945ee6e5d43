//! Which layers have a shape, and which shape that is.

use vstd::prelude::*;

use crate::attention::mla_shape;
use crate::attention::mla_shape::{infer_shape, shape_is_computable, Deepseek2MlaShape};
use crate::error::InferenceError;
use crate::tensor::LoadedGgufTensor;
use crate::text;

verus! {

/// Layers that fit are accepted: tensors whose dimensions are made of seven widths have exactly
/// these widths as their shape, whichever side of the key and value tensors comes first. How many
/// heads the value tensor has, and how long the tensors are but for the weights of the queries, is
/// not asked here.
pub proof fn layers_that_fit_are_accepted<T>(
    q_a: LoadedGgufTensor<T>,
    q_a_norm: LoadedGgufTensor<T>,
    q_b: LoadedGgufTensor<T>,
    kv_a: LoadedGgufTensor<T>,
    kv_a_norm: LoadedGgufTensor<T>,
    k_b: LoadedGgufTensor<T>,
    v_b: LoadedGgufTensor<T>,
    output: LoadedGgufTensor<T>,
    hidden: usize,
    q_rank: usize,
    kv_rank: usize,
    heads: usize,
    qk_nope: usize,
    qk_rope: usize,
    v_dim: usize,
    result: Result<Deepseek2MlaShape, InferenceError>,
)
    requires
        call_ensures(
            infer_shape::<T>,
            (&q_a, &q_a_norm, &q_b, &kv_a, &kv_a_norm, &k_b, &v_b, &output),
            result,
        ),
        q_a.dims@.len() == 2,
        q_a_norm.dims@.len() == 1,
        q_b.dims@.len() == 2,
        kv_a.dims@.len() == 2,
        kv_a_norm.dims@.len() == 1,
        k_b.dims@.len() == 3,
        v_b.dims@.len() == 3,
        output.dims@.len() == 2,
        q_a.dims@[0] == hidden && q_a.dims@[1] == q_rank,
        q_a_norm.values@.len() == q_rank,
        q_b.dims@[0] == q_rank && q_b.dims@[1] == heads * (qk_nope + qk_rope),
        kv_a.dims@[0] == hidden && kv_a.dims@[1] == kv_rank + qk_rope,
        kv_a_norm.dims@[0] == kv_rank,
        (k_b.dims@[0] == qk_nope && k_b.dims@[1] == kv_rank) || (k_b.dims@[0] == kv_rank
            && k_b.dims@[1] == qk_nope),
        k_b.dims@[2] == heads,
        (v_b.dims@[0] == v_dim && v_b.dims@[1] == kv_rank) || (v_b.dims@[0] == kv_rank
            && v_b.dims@[1] == v_dim),
        output.dims@[0] == heads * v_dim && output.dims@[1] == hidden,
        // No width is beyond what the machine can count.
        kv_rank + qk_rope <= usize::MAX,
        heads * (qk_nope + qk_rope) <= usize::MAX,
        heads * v_dim <= usize::MAX,
    ensures
        result == Ok::<Deepseek2MlaShape, InferenceError>(
            Deepseek2MlaShape { hidden, q_rank, kv_rank, heads, qk_nope, qk_rope, v_dim },
        ),
{
    let family = mla_shape::family_of(q_a, q_a_norm, q_b, kv_a, kv_a_norm, k_b, v_b, output);
    assert(family.qk_nope() == qk_nope && family.qk_rope() == qk_rope && family.v_dim() == v_dim);
    assert(family.q_width() == heads * (qk_nope + qk_rope));
    assert(family.v_width() == heads * v_dim);
}

/// The shape of layers that fit can be asked for, where a query head is no wider than `usize` can
/// tell.
pub proof fn layers_that_fit_can_be_asked<T>(
    q_a: LoadedGgufTensor<T>,
    q_a_norm: LoadedGgufTensor<T>,
    q_b: LoadedGgufTensor<T>,
    kv_a: LoadedGgufTensor<T>,
    kv_a_norm: LoadedGgufTensor<T>,
    k_b: LoadedGgufTensor<T>,
    v_b: LoadedGgufTensor<T>,
    output: LoadedGgufTensor<T>,
    hidden: usize,
    q_rank: usize,
    kv_rank: usize,
    heads: usize,
    qk_nope: usize,
    qk_rope: usize,
    v_dim: usize,
    computable: bool,
)
    requires
        call_ensures(
            shape_is_computable::<T>,
            (&q_a, &q_a_norm, &q_b, &kv_a, &kv_a_norm, &k_b, &v_b, &output),
            computable,
        ),
        q_a.dims@.len() == 2,
        q_a_norm.dims@.len() == 1,
        q_b.dims@.len() == 2,
        kv_a.dims@.len() == 2,
        kv_a_norm.dims@.len() == 1,
        k_b.dims@.len() == 3,
        v_b.dims@.len() == 3,
        output.dims@.len() == 2,
        q_a.dims@[0] == hidden && q_a.dims@[1] == q_rank,
        q_a_norm.values@.len() == q_rank,
        q_b.dims@[0] == q_rank && q_b.dims@[1] == heads * (qk_nope + qk_rope),
        kv_a.dims@[0] == hidden && kv_a.dims@[1] == kv_rank + qk_rope,
        kv_a_norm.dims@[0] == kv_rank,
        (k_b.dims@[0] == qk_nope && k_b.dims@[1] == kv_rank) || (k_b.dims@[0] == kv_rank
            && k_b.dims@[1] == qk_nope),
        k_b.dims@[2] == heads,
        (v_b.dims@[0] == v_dim && v_b.dims@[1] == kv_rank) || (v_b.dims@[0] == kv_rank
            && v_b.dims@[1] == v_dim),
        output.dims@[0] == heads * v_dim && output.dims@[1] == hidden,
        // No width is beyond what the machine can count.
        kv_rank + qk_rope <= usize::MAX,
        heads * (qk_nope + qk_rope) <= usize::MAX,
        heads * v_dim <= usize::MAX,
        qk_nope + qk_rope <= usize::MAX,
    ensures
        computable,
        call_requires(
            infer_shape::<T>,
            (&q_a, &q_a_norm, &q_b, &kv_a, &kv_a_norm, &k_b, &v_b, &output),
        ),
{
    let family = mla_shape::family_of(q_a, q_a_norm, q_b, kv_a, kv_a_norm, k_b, v_b, output);
    assert(family.qk_nope() == qk_nope && family.qk_rope() == qk_rope && family.v_dim() == v_dim);
    assert(family.q_width() == heads * (qk_nope + qk_rope));
    assert(family.v_width() == heads * v_dim);
}

/// What is accepted fits: the dimensions of an accepted layer are made of the widths that its shape
/// gives.
pub proof fn accepted_layers_fit<T>(
    q_a: LoadedGgufTensor<T>,
    q_a_norm: LoadedGgufTensor<T>,
    q_b: LoadedGgufTensor<T>,
    kv_a: LoadedGgufTensor<T>,
    kv_a_norm: LoadedGgufTensor<T>,
    k_b: LoadedGgufTensor<T>,
    v_b: LoadedGgufTensor<T>,
    output: LoadedGgufTensor<T>,
    shape: Deepseek2MlaShape,
)
    requires
        call_ensures(
            infer_shape::<T>,
            (&q_a, &q_a_norm, &q_b, &kv_a, &kv_a_norm, &k_b, &v_b, &output),
            Ok(shape),
        ),
    ensures
        q_a.dims@.len() == 2,
        q_a_norm.dims@.len() == 1,
        q_b.dims@.len() == 2,
        kv_a.dims@.len() == 2,
        kv_a_norm.dims@.len() == 1,
        k_b.dims@.len() == 3,
        v_b.dims@.len() == 3,
        output.dims@.len() == 2,
        (q_a.dims@[0] as usize) == shape.hidden && (q_a.dims@[1] as usize) == shape.q_rank,
        q_a_norm.values@.len() == shape.q_rank,
        (q_b.dims@[0] as usize) == shape.q_rank,
        (q_b.dims@[1] as usize) == shape.heads * (shape.qk_nope + shape.qk_rope),
        (kv_a.dims@[0] as usize) == shape.hidden,
        (kv_a.dims@[1] as usize) == shape.kv_rank + shape.qk_rope,
        (kv_a_norm.dims@[0] as usize) == shape.kv_rank,
        ((k_b.dims@[0] as usize) == shape.qk_nope && (k_b.dims@[1] as usize) == shape.kv_rank) || (
        (k_b.dims@[0] as usize) == shape.kv_rank && (k_b.dims@[1] as usize) == shape.qk_nope),
        (k_b.dims@[2] as usize) == shape.heads,
        ((v_b.dims@[0] as usize) == shape.v_dim && (v_b.dims@[1] as usize) == shape.kv_rank) || (
        (v_b.dims@[0] as usize) == shape.kv_rank && (v_b.dims@[1] as usize) == shape.v_dim),
        (output.dims@[0] as usize) == shape.heads * shape.v_dim,
        (output.dims@[1] as usize) == shape.hidden,
{
}

/// The first tensor with an unexpected rank is named, with the rank that it has and the rank that
/// it should have.
pub proof fn first_unexpected_rank_is_named<T>(
    q_a: LoadedGgufTensor<T>,
    q_a_norm: LoadedGgufTensor<T>,
    q_b: LoadedGgufTensor<T>,
    kv_a: LoadedGgufTensor<T>,
    kv_a_norm: LoadedGgufTensor<T>,
    k_b: LoadedGgufTensor<T>,
    v_b: LoadedGgufTensor<T>,
    output: LoadedGgufTensor<T>,
    result: Result<Deepseek2MlaShape, InferenceError>,
)
    requires
        call_ensures(
            infer_shape::<T>,
            (&q_a, &q_a_norm, &q_b, &kv_a, &kv_a_norm, &k_b, &v_b, &output),
            result,
        ),
    ensures
        q_a.dims@.len() != 2
            ==> (result matches Err(InferenceError::Parse(message)) && message@ == q_a.name@
            + " rank "@ + text::decimal(q_a.dims@.len()) + " != expected "@ + text::decimal(2)),
        q_a.dims@.len() == 2 && q_a_norm.dims@.len() != 1
            ==> (result matches Err(InferenceError::Parse(message)) && message@ == q_a_norm.name@
            + " rank "@ + text::decimal(q_a_norm.dims@.len()) + " != expected "@
                + text::decimal(1)),
        q_a.dims@.len() == 2 && q_a_norm.dims@.len() == 1 && q_b.dims@.len() != 2
            ==> (result matches Err(InferenceError::Parse(message)) && message@ == q_b.name@
            + " rank "@ + text::decimal(q_b.dims@.len()) + " != expected "@ + text::decimal(2)),
        q_a.dims@.len() == 2 && q_a_norm.dims@.len() == 1 && q_b.dims@.len() == 2
            && kv_a.dims@.len() != 2
            ==> (result matches Err(InferenceError::Parse(message)) && message@ == kv_a.name@
            + " rank "@ + text::decimal(kv_a.dims@.len()) + " != expected "@ + text::decimal(2)),
        q_a.dims@.len() == 2 && q_a_norm.dims@.len() == 1 && q_b.dims@.len() == 2
            && kv_a.dims@.len() == 2 && kv_a_norm.dims@.len() != 1
            ==> (result matches Err(InferenceError::Parse(message)) && message@ == kv_a_norm.name@
            + " rank "@ + text::decimal(kv_a_norm.dims@.len()) + " != expected "@
                + text::decimal(1)),
        q_a.dims@.len() == 2 && q_a_norm.dims@.len() == 1 && q_b.dims@.len() == 2
            && kv_a.dims@.len() == 2 && kv_a_norm.dims@.len() == 1 && k_b.dims@.len() != 3
            ==> (result matches Err(InferenceError::Parse(message)) && message@ == k_b.name@
            + " rank "@ + text::decimal(k_b.dims@.len()) + " != expected "@ + text::decimal(3)),
        q_a.dims@.len() == 2 && q_a_norm.dims@.len() == 1 && q_b.dims@.len() == 2
            && kv_a.dims@.len() == 2 && kv_a_norm.dims@.len() == 1 && k_b.dims@.len() == 3
            && v_b.dims@.len() != 3
            ==> (result matches Err(InferenceError::Parse(message)) && message@ == v_b.name@
            + " rank "@ + text::decimal(v_b.dims@.len()) + " != expected "@ + text::decimal(3)),
        q_a.dims@.len() == 2 && q_a_norm.dims@.len() == 1 && q_b.dims@.len() == 2
            && kv_a.dims@.len() == 2 && kv_a_norm.dims@.len() == 1 && k_b.dims@.len() == 3
            && v_b.dims@.len() == 3 && output.dims@.len() != 2
            ==> (result matches Err(InferenceError::Parse(message)) && message@ == output.name@
            + " rank "@ + text::decimal(output.dims@.len()) + " != expected "@ + text::decimal(2)),
{
}

/// Dimensions of the right number are refused exactly for one of five contradictions, and for the
/// first of them in this order: a kv projection narrower than the kv rank, queries of another width
/// than the heads take, query ranks that differ, kv ranks or hidden widths that differ, and an
/// output projection that takes or gives another width than it should.
pub proof fn contradictions_are_told_apart<T>(
    q_a: LoadedGgufTensor<T>,
    q_a_norm: LoadedGgufTensor<T>,
    q_b: LoadedGgufTensor<T>,
    kv_a: LoadedGgufTensor<T>,
    kv_a_norm: LoadedGgufTensor<T>,
    k_b: LoadedGgufTensor<T>,
    v_b: LoadedGgufTensor<T>,
    output: LoadedGgufTensor<T>,
    result: Result<Deepseek2MlaShape, InferenceError>,
    qk_nope: usize,
    v_dim: usize,
)
    requires
        call_ensures(
            infer_shape::<T>,
            (&q_a, &q_a_norm, &q_b, &kv_a, &kv_a_norm, &k_b, &v_b, &output),
            result,
        ),
        q_a.dims@.len() == 2,
        q_a_norm.dims@.len() == 1,
        q_b.dims@.len() == 2,
        kv_a.dims@.len() == 2,
        kv_a_norm.dims@.len() == 1,
        k_b.dims@.len() == 3,
        v_b.dims@.len() == 3,
        output.dims@.len() == 2,
        // The sides of the key and value tensors that are not the kv rank.
        (k_b.dims@[1] as usize) == (kv_a_norm.dims@[0] as usize)
            ==> qk_nope == (k_b.dims@[0] as usize),
        (k_b.dims@[1] as usize) != (kv_a_norm.dims@[0] as usize)
            ==> qk_nope == (k_b.dims@[1] as usize),
        (v_b.dims@[0] as usize) == (kv_a_norm.dims@[0] as usize)
            ==> v_dim == (v_b.dims@[1] as usize),
        (v_b.dims@[0] as usize) != (kv_a_norm.dims@[0] as usize)
            ==> v_dim == (v_b.dims@[0] as usize),
    ensures
        ({
            let hidden = (q_a.dims@[0] as usize);
            let q_rank = (q_a.dims@[1] as usize);
            let kv_rank = (kv_a_norm.dims@[0] as usize);
            let kv_total = (kv_a.dims@[1] as usize);
            let heads = (k_b.dims@[2] as usize);
            let q_width = (q_b.dims@[1] as usize);
            let narrow = kv_total < kv_rank;
            let queries = q_width != heads * (qk_nope + (kv_total - kv_rank));
            let q_ranks = q_a_norm.values@.len() != q_rank || (q_b.dims@[0] as usize) != q_rank;
            let kv_ranks = (kv_a.dims@[0] as usize) != hidden || ((k_b.dims@[0] as usize) != kv_rank
                && (k_b.dims@[1] as usize) != kv_rank) || ((v_b.dims@[0] as usize) != kv_rank
                && (v_b.dims@[1] as usize) != kv_rank);
            let outputs = (output.dims@[0] as usize) != heads * v_dim || (output.dims@[1] as usize)
                != hidden;
            &&& narrow ==> (result matches Err(InferenceError::Parse(message)) && message@
                == "kv_a output smaller than kv rank"@)
            &&& !narrow && queries ==> (result matches Err(InferenceError::Parse(message))
                && message@ == "q_b output width "@ + text::decimal(q_width as nat) + " != heads "@
                + text::decimal(heads as nat) + " × (qk_nope "@ + text::decimal(qk_nope as nat)
                + " + qk_rope "@ + text::decimal((kv_total - kv_rank) as nat) + ")"@)
            &&& !narrow && !queries && q_ranks ==> (result matches Err(
                InferenceError::Parse(message),
            ) && message@ == "q-rank tensor dimensions disagree"@)
            &&& !narrow && !queries && !q_ranks && kv_ranks ==> (result matches Err(
                InferenceError::Parse(message),
            ) && message@ == "kv-rank tensor dimensions disagree"@)
            &&& !narrow && !queries && !q_ranks && !kv_ranks && outputs ==> (result matches Err(
                InferenceError::Parse(message),
            ) && message@ == "output projection dimensions disagree"@)
            &&& result is Ok <==> !narrow && !queries && !q_ranks && !kv_ranks && !outputs
        }),
{
}

/// Every layer can be asked for its shape whose widths can be counted, be they in accord or not.
pub proof fn countable_layers_can_be_asked<T>(
    q_a: LoadedGgufTensor<T>,
    q_a_norm: LoadedGgufTensor<T>,
    q_b: LoadedGgufTensor<T>,
    kv_a: LoadedGgufTensor<T>,
    kv_a_norm: LoadedGgufTensor<T>,
    k_b: LoadedGgufTensor<T>,
    v_b: LoadedGgufTensor<T>,
    output: LoadedGgufTensor<T>,
    computable: bool,
)
    requires
        call_ensures(shape_is_computable::<T>, (&q_a, &q_a_norm, &q_b, &kv_a, &kv_a_norm, &k_b,
            &v_b, &output), computable),
        q_a.dims@.len() == 2,
        q_a_norm.dims@.len() == 1,
        q_b.dims@.len() == 2,
        kv_a.dims@.len() == 2,
        kv_a_norm.dims@.len() == 1,
        k_b.dims@.len() == 3,
        v_b.dims@.len() == 3,
        output.dims@.len() == 2,
        // Query heads, and the values of all heads, can be counted.
        (k_b.dims@[0] as usize) + (kv_a.dims@[1] as usize) <= usize::MAX,
        (k_b.dims@[2] as usize) * ((k_b.dims@[0] as usize) + (kv_a.dims@[1] as usize))
            <= usize::MAX,
        (k_b.dims@[1] as usize) + (kv_a.dims@[1] as usize) <= usize::MAX,
        (k_b.dims@[2] as usize) * ((k_b.dims@[1] as usize) + (kv_a.dims@[1] as usize))
            <= usize::MAX,
        (k_b.dims@[2] as usize) * (v_b.dims@[0] as usize) <= usize::MAX,
        (k_b.dims@[2] as usize) * (v_b.dims@[1] as usize) <= usize::MAX,
    ensures
        computable,
        call_requires(infer_shape::<T>, (&q_a, &q_a_norm, &q_b, &kv_a, &kv_a_norm, &k_b, &v_b,
            &output)),
{
    let family = mla_shape::family_of(q_a, q_a_norm, q_b, kv_a, kv_a_norm, k_b, v_b, output);
    if family.qk_rope() >= 0 {
        let heads = family.heads() as int;
        let narrow = family.qk_nope() + family.qk_rope();
        let wide = family.qk_nope() + (kv_a.dims@[1] as usize);
        assert(heads * narrow <= heads * wide) by (nonlinear_arith)
            requires
                heads >= 0,
                narrow <= wide,
        ;
    }
}

/// Every layer can be asked for its shape of which a tensor has an unexpected rank, or whose kv
/// projection is narrower than its kv rank.
pub proof fn unfit_layers_can_be_asked<T>(
    q_a: LoadedGgufTensor<T>,
    q_a_norm: LoadedGgufTensor<T>,
    q_b: LoadedGgufTensor<T>,
    kv_a: LoadedGgufTensor<T>,
    kv_a_norm: LoadedGgufTensor<T>,
    k_b: LoadedGgufTensor<T>,
    v_b: LoadedGgufTensor<T>,
    output: LoadedGgufTensor<T>,
    computable: bool,
)
    requires
        call_ensures(shape_is_computable::<T>, (&q_a, &q_a_norm, &q_b, &kv_a, &kv_a_norm, &k_b,
            &v_b, &output), computable),
        ({
            ||| q_a.dims@.len() != 2
            ||| q_a_norm.dims@.len() != 1
            ||| q_b.dims@.len() != 2
            ||| kv_a.dims@.len() != 2
            ||| kv_a_norm.dims@.len() != 1
            ||| k_b.dims@.len() != 3
            ||| v_b.dims@.len() != 3
            ||| output.dims@.len() != 2
            ||| (kv_a.dims@[1] as usize) < (kv_a_norm.dims@[0] as usize)
        }),
    ensures
        computable,
        call_requires(infer_shape::<T>, (&q_a, &q_a_norm, &q_b, &kv_a, &kv_a_norm, &k_b, &v_b,
            &output)),
{
}

} // verus!
