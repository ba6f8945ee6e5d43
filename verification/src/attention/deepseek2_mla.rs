//! Minimal reference for Kimi/DeepSeek2 MLA attention from GGUF manifest tensors.
//!
//! It consumes exactly one dequantized attention layer and a single hidden-state token, and does
//! not touch MoE expert tensors.

use vstd::prelude::*;
use vstd::slice::{slice_subrange, slice_to_vec};
use vstd::string::*;

use crate::arithmetic::Arithmetic;
use crate::attention::kernels;
use crate::attention::kernels::{
    heads_are_backed, is_backed, matvec_2d, matvec_3d_heads, rms_norm,
};
use crate::attention::mla_shape::{
    infer_shape, shape_is_computable, Deepseek2MlaShape, MlaFamily,
};
use crate::attention::tensor_name;
use crate::attention::tensor_name::attention_tensor_name;
use crate::error;
use crate::error::{Fault, InferenceError};
use crate::tensor::{Deepseek2AttentionLayerTensors, LoadedGgufTensor};
use crate::text;
use crate::text::decimal_text;

verus! {

/// Whether the layer has the tensor whose name ends in `suffix`.
pub open spec fn has_part<T>(
    layer: Deepseek2AttentionLayerTensors<T>,
    suffix: Seq<char>,
) -> bool {
    layer.tensors@.contains_key(tensor_name::layer_tensor_name(layer.layer as nat, suffix))
}

/// The tensor of the layer whose name ends in `suffix`.
pub open spec fn part<T>(
    layer: Deepseek2AttentionLayerTensors<T>,
    suffix: Seq<char>,
) -> LoadedGgufTensor<T> {
    layer.tensors@[tensor_name::layer_tensor_name(layer.layer as nat, suffix)]
}

/// What is reported where the tensor whose name ends in `suffix` is not there.
pub open spec fn missing_fault<T>(
    layer: Deepseek2AttentionLayerTensors<T>,
    suffix: Seq<char>,
) -> Option<Fault> {
    if has_part(layer, suffix) {
        None
    } else {
        Some(
            Fault::MissingTensor(tensor_name::layer_tensor_name(layer.layer as nat, suffix)),
        )
    }
}

/// The MLA tensors of a layer.
pub open spec fn family<T>(layer: Deepseek2AttentionLayerTensors<T>) -> MlaFamily<T> {
    MlaFamily {
        q_a: part(layer, "_q_a.weight"@),
        q_a_norm: part(layer, "_q_a_norm.weight"@),
        q_b: part(layer, "_q_b.weight"@),
        kv_a: part(layer, "_kv_a_mqa.weight"@),
        kv_a_norm: part(layer, "_kv_a_norm.weight"@),
        k_b: part(layer, "_k_b.weight"@),
        v_b: part(layer, "_v_b.weight"@),
        output: part(layer, "_output.weight"@),
    }
}

/// The first MLA tensor that the layer lacks.
pub open spec fn family_fault<T>(layer: Deepseek2AttentionLayerTensors<T>) -> Option<Fault> {
    error::earlier(
        missing_fault(layer, "_q_a.weight"@),
        error::earlier(
            missing_fault(layer, "_q_a_norm.weight"@),
            error::earlier(
                missing_fault(layer, "_q_b.weight"@),
                error::earlier(
                    missing_fault(layer, "_kv_a_mqa.weight"@),
                    error::earlier(
                        missing_fault(layer, "_kv_a_norm.weight"@),
                        error::earlier(
                            missing_fault(layer, "_k_b.weight"@),
                            error::earlier(
                                missing_fault(layer, "_v_b.weight"@),
                                missing_fault(layer, "_output.weight"@),
                            ),
                        ),
                    ),
                ),
            ),
        ),
    )
}

/// What is wrong with the width of the hidden state.
pub open spec fn hidden_fault(width: nat, hidden: nat) -> Option<Fault> {
    if width == hidden {
        None
    } else {
        Some(
            Fault::Parse(
                "hidden length "@ + text::decimal(width) + " does not match DeepSeek2 MLA hidden "@
                    + text::decimal(hidden),
            ),
        )
    }
}

/// What is wrong with the weights that normalize the hidden state, where the layer has any.
pub open spec fn input_norm_fault<T>(
    layer: Deepseek2AttentionLayerTensors<T>,
    width: nat,
) -> Option<Fault> {
    if has_part(layer, "_norm.weight"@) {
        kernels::rms_norm_fault(width, part(layer, "_norm.weight"@).values@.len())
    } else {
        None
    }
}

/// What is checked before the first product is formed: that the tensors are there, that they fit
/// together, and that the hidden state and the weights that normalize it fit them.
pub open spec fn input_fault<T>(
    layer: Deepseek2AttentionLayerTensors<T>,
    width: nat,
) -> Option<Fault> {
    error::earlier(
        family_fault(layer),
        error::earlier(
            family(layer).shape_fault(),
            error::earlier(
                hidden_fault(width, family(layer).hidden() as nat),
                input_norm_fault(layer, width),
            ),
        ),
    )
}

/// What is checked before the first product of a head is formed: that the weights that normalize
/// the latent vector fit it too.
pub open spec fn latent_fault<T>(
    layer: Deepseek2AttentionLayerTensors<T>,
    width: nat,
) -> Option<Fault> {
    error::earlier(
        input_fault(layer, width),
        kernels::rms_norm_fault(
            family(layer).kv_rank() as nat,
            family(layer).kv_a_norm.values@.len(),
        ),
    )
}

/// How many values the heads of the value tensor give together.
pub open spec fn value_width<T>(tensors: MlaFamily<T>) -> nat {
    (tensors.v_b.dim(2) * tensors.v_dim()) as nat
}

/// All that a token of `width` values can be refused for. The value tensor may have another number
/// of heads than the key tensor: that shows in the width that the output projection gets.
pub open spec fn token_fault<T>(
    layer: Deepseek2AttentionLayerTensors<T>,
    width: nat,
) -> Option<Fault> {
    error::earlier(
        latent_fault(layer, width),
        kernels::matvec_2d_fault(family(layer).output, value_width(family(layer))),
    )
}

/// The tensors hold the values that the evaluation reads, as far as it gets, and the widths that
/// it computes fit in `usize`.
pub open spec fn layer_backed<T>(layer: Deepseek2AttentionLayerTensors<T>, width: nat) -> bool {
    let tensors = family(layer);
    &&& family_fault(layer) is None ==> tensors.widths_fit()
    &&& input_fault(layer, width) is None ==> {
        &&& kernels::backed(tensors.q_a)
        &&& kernels::backed(tensors.q_b)
        &&& kernels::backed(tensors.kv_a)
    }
    &&& latent_fault(layer, width) is None ==> {
        &&& kernels::heads_backed(tensors.k_b, tensors.kv_rank() as nat)
        &&& kernels::heads_backed(tensors.v_b, tensors.kv_rank() as nat)
    }
    &&& token_fault(layer, width) is None ==> kernels::backed(tensors.output)
}

/// `normed` is the hidden state as the layer takes it in: normalized where the layer has weights
/// for that, else as it is.
pub open spec fn taken_in<
    T: Copy,
    Mul: Fn(T, T) -> T,
    Add: Fn(T, T) -> T,
    InvRms: Fn(T, usize) -> T,
>(
    ops: Arithmetic<T, Mul, Add, InvRms>,
    layer: Deepseek2AttentionLayerTensors<T>,
    hidden: Seq<T>,
    normed: Seq<T>,
) -> bool {
    if has_part(layer, "_norm.weight"@) {
        kernels::rms_normed(ops, hidden, part(layer, "_norm.weight"@).values@, normed)
    } else {
        normed == hidden
    }
}

/// The way from the hidden state to the output: `normed` is what the layer takes in, `kv` its kv
/// projection, `latent` the normalized first part of that, `values` what the heads make of it, and
/// `out` the projection of the values. A token that is alone attends to itself with probability
/// one, so its queries and keys have no part in this.
pub open spec fn evaluates<
    T: Copy,
    Mul: Fn(T, T) -> T,
    Add: Fn(T, T) -> T,
    InvRms: Fn(T, usize) -> T,
>(
    ops: Arithmetic<T, Mul, Add, InvRms>,
    layer: Deepseek2AttentionLayerTensors<T>,
    hidden: Seq<T>,
    normed: Seq<T>,
    kv: Seq<T>,
    latent: Seq<T>,
    values: Seq<T>,
    out: Seq<T>,
) -> bool {
    let tensors = family(layer);
    &&& taken_in(ops, layer, hidden, normed)
    &&& kernels::row_products(ops, tensors.kv_a.values@, tensors.kv_a.dim(1) as int, normed, kv)
    &&& kernels::rms_normed(
        ops,
        kv.take(tensors.kv_rank() as int),
        tensors.kv_a_norm.values@,
        latent,
    )
    &&& kernels::head_products(ops, tensors.v_b, latent, values)
    &&& kernels::row_products(
        ops,
        tensors.output.values@,
        tensors.output.dim(1) as int,
        values,
        out,
    )
}

/// `out` is what the layer makes of a token that stands alone.
pub open spec fn attends<
    T: Copy,
    Mul: Fn(T, T) -> T,
    Add: Fn(T, T) -> T,
    InvRms: Fn(T, usize) -> T,
>(
    ops: Arithmetic<T, Mul, Add, InvRms>,
    layer: Deepseek2AttentionLayerTensors<T>,
    hidden: Seq<T>,
    out: Seq<T>,
) -> bool {
    exists|normed: Seq<T>, kv: Seq<T>, latent: Seq<T>, values: Seq<T>| #[trigger]
        evaluates(ops, layer, hidden, normed, kv, latent, values, out)
}

/// The tensor that is kept under `name`, or an error that names it.
pub fn required<'a, T>(
    layer: &'a Deepseek2AttentionLayerTensors<T>,
    name: &str,
) -> (result: Result<&'a LoadedGgufTensor<T>, InferenceError>)
    ensures
        match result {
            Ok(found) => layer.tensors@.contains_key(name@) && *found == layer.tensors@[name@],
            Err(error) => {
                &&& !layer.tensors@.contains_key(name@)
                &&& error@ == Fault::MissingTensor(name@)
            },
        },
{
    match layer.get(name) {
        Some(found) => Ok(found),
        None => Err(InferenceError::MissingTensor(name.to_owned())),
    }
}

/// The tensor of the layer whose name ends in `suffix`, or an error that names it.
pub fn required_part<'a, T>(
    layer: &'a Deepseek2AttentionLayerTensors<T>,
    suffix: &str,
) -> (result: Result<&'a LoadedGgufTensor<T>, InferenceError>)
    ensures
        match result {
            Ok(found) => missing_fault(*layer, suffix@) is None && *found == part(*layer, suffix@),
            Err(error) => missing_fault(*layer, suffix@) == Some(error@),
        },
{
    required(layer, attention_tensor_name(layer.layer, suffix).as_str())
}

/// `score` is the pair of products that query head `head` forms with its key: over the part without
/// position and over the part with it, which all heads share.
pub open spec fn head_score<
    T: Copy,
    Mul: Fn(T, T) -> T,
    Add: Fn(T, T) -> T,
    InvRms: Fn(T, usize) -> T,
>(
    ops: Arithmetic<T, Mul, Add, InvRms>,
    shape: Deepseek2MlaShape,
    q: Seq<T>,
    k_nope: Seq<T>,
    k_rope: Seq<T>,
    head: int,
    score: (T, T),
) -> bool {
    let q_base = head * (shape.qk_nope + shape.qk_rope);
    let k_base = head * shape.qk_nope;
    let q_rope = q_base + shape.qk_nope;
    &&& ops.dot(
        ops.empty_sum,
        q.subrange(q_base, q_rope),
        k_nope.subrange(k_base, k_base + shape.qk_nope),
        score.0,
    )
    &&& ops.dot(ops.empty_sum, q.subrange(q_rope, q_rope + shape.qk_rope), k_rope, score.1)
}

/// Scores each query head against its key.
pub fn score_heads<
    T: Copy,
    Mul: Fn(T, T) -> T,
    Add: Fn(T, T) -> T,
    InvRms: Fn(T, usize) -> T,
>(
    ops: &Arithmetic<T, Mul, Add, InvRms>,
    shape: &Deepseek2MlaShape,
    q: &[T],
    k_nope: &[T],
    k_rope: &[T],
) -> (scores: Vec<(T, T)>)
    requires
        ops.total(),
        q@.len() == shape.heads * (shape.qk_nope + shape.qk_rope),
        k_nope@.len() == shape.heads * shape.qk_nope,
        k_rope@.len() == shape.qk_rope,
    ensures
        scores@.len() == shape.heads,
        forall|head: int|
            0 <= head < shape.heads ==> head_score(
                *ops,
                *shape,
                q@,
                k_nope@,
                k_rope@,
                head,
                #[trigger] scores@[head],
            ),
{
    let mut scores: Vec<(T, T)> = Vec::new();
    for head in 0..shape.heads
        invariant
            ops.total(),
            q.len() == shape.heads * (shape.qk_nope + shape.qk_rope),
            k_nope.len() == shape.heads * shape.qk_nope,
            k_rope.len() == shape.qk_rope,
            scores@.len() == head,
            forall|h: int|
                0 <= h < head ==> head_score(
                    *ops,
                    *shape,
                    q@,
                    k_nope@,
                    k_rope@,
                    h,
                    #[trigger] scores@[h],
                ),
    {
        proof {
            kernels::lemma_row_within(
                head as int,
                shape.heads as int,
                shape.qk_nope + shape.qk_rope,
            );
            kernels::lemma_row_within(head as int, shape.heads as int, shape.qk_nope as int);
        }
        let q_base: usize = head * (shape.qk_nope + shape.qk_rope);
        let k_base: usize = head * shape.qk_nope;
        let q_rope: usize = q_base + shape.qk_nope;
        let score_nope = ops.dot_product(
            ops.empty_sum,
            slice_subrange(q, q_base, q_rope),
            slice_subrange(k_nope, k_base, k_base + shape.qk_nope),
        );
        let score_rope = ops.dot_product(
            ops.empty_sum,
            slice_subrange(q, q_rope, q_rope + shape.qk_rope),
            k_rope,
        );
        scores.push((score_nope, score_rope));
    }
    scores
}

/// Whether the layer can be evaluated on a token of `width` values without reading past the values
/// of a tensor or leaving `usize` with a width.
pub fn token_is_computable<T>(
    layer: &Deepseek2AttentionLayerTensors<T>,
    width: usize,
) -> (computable: bool)
    ensures
        computable == layer_backed(*layer, width as nat),
{
    match (
        required_part(layer, "_q_a.weight"),
        required_part(layer, "_q_a_norm.weight"),
        required_part(layer, "_q_b.weight"),
        required_part(layer, "_kv_a_mqa.weight"),
        required_part(layer, "_kv_a_norm.weight"),
        required_part(layer, "_k_b.weight"),
        required_part(layer, "_v_b.weight"),
        required_part(layer, "_output.weight"),
    ) {
        (
            Ok(q_a),
            Ok(q_a_norm),
            Ok(q_b),
            Ok(kv_a),
            Ok(kv_a_norm),
            Ok(k_b),
            Ok(v_b),
            Ok(output),
        ) => {
            if !shape_is_computable(q_a, q_a_norm, q_b, kv_a, kv_a_norm, k_b, v_b, output) {
                return false;
            }
            let shape = match infer_shape(q_a, q_a_norm, q_b, kv_a, kv_a_norm, k_b, v_b, output) {
                Ok(shape) => shape,
                Err(_) => {
                    return true;
                },
            };
            if width != shape.hidden {
                return true;
            }
            match layer.get(attention_tensor_name(layer.layer, "_norm.weight").as_str()) {
                Some(norm) => {
                    if norm.values.len() != width {
                        return true;
                    }
                },
                None => {},
            }
            if !is_backed(q_a) || !is_backed(q_b) || !is_backed(kv_a) {
                return false;
            }
            if kv_a_norm.values.len() != shape.kv_rank {
                return true;
            }
            if !heads_are_backed(k_b, shape.kv_rank) || !heads_are_backed(v_b, shape.kv_rank) {
                return false;
            }
            let value_heads: usize = v_b.dims[2] as usize;
            value_heads * shape.v_dim != output.dims[0] as usize || is_backed(output)
        },
        _ => true,
    }
}

/// Evaluates one attention layer on a token that stands alone.
pub fn deepseek2_mla_single_token_cpu<
    T: Copy,
    Mul: Fn(T, T) -> T,
    Add: Fn(T, T) -> T,
    InvRms: Fn(T, usize) -> T,
>(
    ops: &Arithmetic<T, Mul, Add, InvRms>,
    layer: &Deepseek2AttentionLayerTensors<T>,
    hidden: &[T],
) -> (result: Result<Vec<T>, InferenceError>)
    requires
        ops.total(),
        layer_backed(*layer, hidden@.len()),
    ensures
        match result {
            Ok(out) => {
                &&& token_fault(*layer, hidden@.len()) is None
                &&& attends(*ops, *layer, hidden@, out@)
            },
            Err(error) => token_fault(*layer, hidden@.len()) == Some(error@),
        },
{
    let q_a = required_part(layer, "_q_a.weight")?;
    let q_a_norm = required_part(layer, "_q_a_norm.weight")?;
    let q_b = required_part(layer, "_q_b.weight")?;
    let kv_a = required_part(layer, "_kv_a_mqa.weight")?;
    let kv_a_norm = required_part(layer, "_kv_a_norm.weight")?;
    let k_b = required_part(layer, "_k_b.weight")?;
    let v_b = required_part(layer, "_v_b.weight")?;
    let output = required_part(layer, "_output.weight")?;
    let attn_norm = layer.get(attention_tensor_name(layer.layer, "_norm.weight").as_str());

    let shape = infer_shape(q_a, q_a_norm, q_b, kv_a, kv_a_norm, k_b, v_b, output)?;
    if hidden.len() != shape.hidden {
        let mut message = "hidden length ".to_owned();
        message.append(decimal_text(hidden.len()).as_str());
        message.append(" does not match DeepSeek2 MLA hidden ");
        message.append(decimal_text(shape.hidden).as_str());
        return Err(InferenceError::Parse(message));
    }
    let normed_hidden = match attn_norm {
        Some(norm) => rms_norm(ops, hidden, norm.values.as_slice())?,
        None => slice_to_vec(hidden),
    };
    let q_latent = matvec_2d(ops, q_a, normed_hidden.as_slice())?;
    let q_latent = rms_norm(ops, q_latent.as_slice(), q_a_norm.values.as_slice())?;
    let q = matvec_2d(ops, q_b, q_latent.as_slice())?;

    let kv = matvec_2d(ops, kv_a, normed_hidden.as_slice())?;
    let kv_head = slice_subrange(kv.as_slice(), 0, shape.kv_rank);
    let kv_latent = rms_norm(ops, kv_head, kv_a_norm.values.as_slice())?;
    let k_rope = slice_subrange(kv.as_slice(), shape.kv_rank, kv.len());
    let k_nope = matvec_3d_heads(ops, k_b, kv_latent.as_slice())?;
    let v = matvec_3d_heads(ops, v_b, kv_latent.as_slice())?;

    // A softmax over the one score that a head has is one, whatever the score: what scoring shows
    // is that queries and keys match in shape.
    let _scores = score_heads(ops, &shape, q.as_slice(), k_nope.as_slice(), k_rope);

    let out = matvec_2d(ops, output, v.as_slice())?;
    proof {
        assert(kv@.take(shape.kv_rank as int) =~= kv_head@);
        assert(evaluates(
            *ops,
            *layer,
            hidden@,
            normed_hidden@,
            kv@,
            kv_latent@,
            v@,
            out@,
        ));
    }
    Ok(out)
}

} // verus!
