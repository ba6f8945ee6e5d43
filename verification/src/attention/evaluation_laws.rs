//! What the evaluation of a layer on a token returns, in terms of the tensors of the layer.

use vstd::prelude::*;
use vstd::string::*;

use crate::arithmetic::Arithmetic;
use crate::arithmetic_laws;
use crate::attention::deepseek2_mla;
use crate::attention::deepseek2_mla::{
    deepseek2_mla_single_token_cpu, required, required_part, token_is_computable,
};
use crate::attention::kernels;
use crate::attention::mla_shape;
use crate::attention::mla_shape::{infer_shape, Deepseek2MlaShape};
use crate::attention::product_laws;
use crate::attention::tensor_name;
use crate::error::InferenceError;
use crate::tensor::{Deepseek2AttentionLayerTensors, LoadedGgufTensor};
use crate::text;

verus! {

/// The name that is made of the number of a layer and `ending`.
pub open spec fn name_of(layer: usize, ending: Seq<char>) -> Seq<char> {
    "blk."@ + text::decimal(layer as nat) + ending
}

/// The layer keeps `tensor` under the name that is made of its number and `ending`.
pub open spec fn keeps<T>(
    layer: Deepseek2AttentionLayerTensors<T>,
    ending: Seq<char>,
    tensor: LoadedGgufTensor<T>,
) -> bool {
    let name = name_of(layer.layer, ending);
    layer.tensors@.contains_key(name) && layer.tensors@[name] == tensor
}

proof fn lemma_name<T>(
    layer: Deepseek2AttentionLayerTensors<T>,
    suffix: Seq<char>,
    ending: Seq<char>,
)
    requires
        ending == ".attn"@ + suffix,
    ensures
        tensor_name::layer_tensor_name(layer.layer as nat, suffix) == "blk."@ + text::decimal(
            layer.layer as nat,
        ) + ending,
{
    assert(tensor_name::layer_tensor_name(layer.layer as nat, suffix) =~= "blk."@ + text::decimal(
        layer.layer as nat,
    ) + ending);
}

/// The names under which the evaluation looks for its tensors.
proof fn lemma_names<T>(layer: Deepseek2AttentionLayerTensors<T>)
    ensures
        tensor_name::layer_tensor_name(layer.layer as nat, "_q_a.weight"@) == name_of(layer.layer,
            ".attn_q_a.weight"@),
        tensor_name::layer_tensor_name(layer.layer as nat, "_q_a_norm.weight"@)
            == name_of(layer.layer, ".attn_q_a_norm.weight"@),
        tensor_name::layer_tensor_name(layer.layer as nat, "_q_b.weight"@) == name_of(layer.layer,
            ".attn_q_b.weight"@),
        tensor_name::layer_tensor_name(layer.layer as nat, "_kv_a_mqa.weight"@)
            == name_of(layer.layer, ".attn_kv_a_mqa.weight"@),
        tensor_name::layer_tensor_name(layer.layer as nat, "_kv_a_norm.weight"@)
            == name_of(layer.layer, ".attn_kv_a_norm.weight"@),
        tensor_name::layer_tensor_name(layer.layer as nat, "_k_b.weight"@) == name_of(layer.layer,
            ".attn_k_b.weight"@),
        tensor_name::layer_tensor_name(layer.layer as nat, "_v_b.weight"@) == name_of(layer.layer,
            ".attn_v_b.weight"@),
        tensor_name::layer_tensor_name(layer.layer as nat, "_output.weight"@)
            == name_of(layer.layer, ".attn_output.weight"@),
        tensor_name::layer_tensor_name(layer.layer as nat, "_norm.weight"@) == name_of(layer.layer,
            ".attn_norm.weight"@),
{
    reveal_strlit(".attn");
    reveal_strlit("_q_a.weight");
    reveal_strlit(".attn_q_a.weight");
    assert(".attn"@ + "_q_a.weight"@ =~= ".attn_q_a.weight"@);
    lemma_name(layer, "_q_a.weight"@, ".attn_q_a.weight"@);
    reveal_strlit("_q_a_norm.weight");
    reveal_strlit(".attn_q_a_norm.weight");
    assert(".attn"@ + "_q_a_norm.weight"@ =~= ".attn_q_a_norm.weight"@);
    lemma_name(layer, "_q_a_norm.weight"@, ".attn_q_a_norm.weight"@);
    reveal_strlit("_q_b.weight");
    reveal_strlit(".attn_q_b.weight");
    assert(".attn"@ + "_q_b.weight"@ =~= ".attn_q_b.weight"@);
    lemma_name(layer, "_q_b.weight"@, ".attn_q_b.weight"@);
    reveal_strlit("_kv_a_mqa.weight");
    reveal_strlit(".attn_kv_a_mqa.weight");
    assert(".attn"@ + "_kv_a_mqa.weight"@ =~= ".attn_kv_a_mqa.weight"@);
    lemma_name(layer, "_kv_a_mqa.weight"@, ".attn_kv_a_mqa.weight"@);
    reveal_strlit("_kv_a_norm.weight");
    reveal_strlit(".attn_kv_a_norm.weight");
    assert(".attn"@ + "_kv_a_norm.weight"@ =~= ".attn_kv_a_norm.weight"@);
    lemma_name(layer, "_kv_a_norm.weight"@, ".attn_kv_a_norm.weight"@);
    reveal_strlit("_k_b.weight");
    reveal_strlit(".attn_k_b.weight");
    assert(".attn"@ + "_k_b.weight"@ =~= ".attn_k_b.weight"@);
    lemma_name(layer, "_k_b.weight"@, ".attn_k_b.weight"@);
    reveal_strlit("_v_b.weight");
    reveal_strlit(".attn_v_b.weight");
    assert(".attn"@ + "_v_b.weight"@ =~= ".attn_v_b.weight"@);
    lemma_name(layer, "_v_b.weight"@, ".attn_v_b.weight"@);
    reveal_strlit("_output.weight");
    reveal_strlit(".attn_output.weight");
    assert(".attn"@ + "_output.weight"@ =~= ".attn_output.weight"@);
    lemma_name(layer, "_output.weight"@, ".attn_output.weight"@);
    reveal_strlit("_norm.weight");
    reveal_strlit(".attn_norm.weight");
    assert(".attn"@ + "_norm.weight"@ =~= ".attn_norm.weight"@);
    lemma_name(layer, "_norm.weight"@, ".attn_norm.weight"@);
}

/// A tensor is found exactly where it is kept under the name that is asked for, and that name is
/// given where it is not.
pub proof fn tensors_are_found_by_name<T>(
    layer: Deepseek2AttentionLayerTensors<T>,
    name: &str,
    suffix: &str,
    found: Result<&LoadedGgufTensor<T>, InferenceError>,
    part: Result<&LoadedGgufTensor<T>, InferenceError>,
)
    requires
        call_ensures(required::<T>, (&layer, name), found),
        call_ensures(required_part::<T>, (&layer, suffix), part),
    ensures
        found is Ok <==> layer.tensors@.contains_key(name@),
        found matches Ok(tensor) ==> *tensor == layer.tensors@[name@],
        found matches Err(error) ==> (error matches InferenceError::MissingTensor(missing)
            && missing@ == name@),
        ({
            let full = "blk."@ + text::decimal(layer.layer as nat) + ".attn"@ + suffix@;
            &&& part is Ok <==> layer.tensors@.contains_key(full)
            &&& part matches Ok(tensor) ==> *tensor == layer.tensors@[full]
            &&& part matches Err(error) ==> (error matches InferenceError::MissingTensor(missing)
                && missing@ == full)
        }),
{
}

/// The first of the eight tensors of the MLA family that a layer lacks is named, before anything
/// else is looked at.
pub proof fn first_missing_tensor_is_named<
    T: Copy,
    Mul: Fn(T, T) -> T,
    Add: Fn(T, T) -> T,
    InvRms: Fn(T, usize) -> T,
>(
    ops: Arithmetic<T, Mul, Add, InvRms>,
    layer: Deepseek2AttentionLayerTensors<T>,
    hidden: &[T],
    result: Result<Vec<T>, InferenceError>,
)
    requires
        call_ensures(
            deepseek2_mla_single_token_cpu::<T, Mul, Add, InvRms>,
            (&ops, &layer, hidden),
            result,
        ),
    ensures
        ({
            &&& !layer.tensors@.contains_key(name_of(layer.layer, ".attn_q_a.weight"@))
        }) ==> (result matches Err(InferenceError::MissingTensor(name))
            && name@ == name_of(layer.layer, ".attn_q_a.weight"@)),
        ({
            &&& layer.tensors@.contains_key(name_of(layer.layer, ".attn_q_a.weight"@))
            &&& !layer.tensors@.contains_key(name_of(layer.layer, ".attn_q_a_norm.weight"@))
        }) ==> (result matches Err(InferenceError::MissingTensor(name))
            && name@ == name_of(layer.layer, ".attn_q_a_norm.weight"@)),
        ({
            &&& layer.tensors@.contains_key(name_of(layer.layer, ".attn_q_a.weight"@))
            &&& layer.tensors@.contains_key(name_of(layer.layer, ".attn_q_a_norm.weight"@))
            &&& !layer.tensors@.contains_key(name_of(layer.layer, ".attn_q_b.weight"@))
        }) ==> (result matches Err(InferenceError::MissingTensor(name))
            && name@ == name_of(layer.layer, ".attn_q_b.weight"@)),
        ({
            &&& layer.tensors@.contains_key(name_of(layer.layer, ".attn_q_a.weight"@))
            &&& layer.tensors@.contains_key(name_of(layer.layer, ".attn_q_a_norm.weight"@))
            &&& layer.tensors@.contains_key(name_of(layer.layer, ".attn_q_b.weight"@))
            &&& !layer.tensors@.contains_key(name_of(layer.layer, ".attn_kv_a_mqa.weight"@))
        }) ==> (result matches Err(InferenceError::MissingTensor(name))
            && name@ == name_of(layer.layer, ".attn_kv_a_mqa.weight"@)),
        ({
            &&& layer.tensors@.contains_key(name_of(layer.layer, ".attn_q_a.weight"@))
            &&& layer.tensors@.contains_key(name_of(layer.layer, ".attn_q_a_norm.weight"@))
            &&& layer.tensors@.contains_key(name_of(layer.layer, ".attn_q_b.weight"@))
            &&& layer.tensors@.contains_key(name_of(layer.layer, ".attn_kv_a_mqa.weight"@))
            &&& !layer.tensors@.contains_key(name_of(layer.layer, ".attn_kv_a_norm.weight"@))
        }) ==> (result matches Err(InferenceError::MissingTensor(name))
            && name@ == name_of(layer.layer, ".attn_kv_a_norm.weight"@)),
        ({
            &&& layer.tensors@.contains_key(name_of(layer.layer, ".attn_q_a.weight"@))
            &&& layer.tensors@.contains_key(name_of(layer.layer, ".attn_q_a_norm.weight"@))
            &&& layer.tensors@.contains_key(name_of(layer.layer, ".attn_q_b.weight"@))
            &&& layer.tensors@.contains_key(name_of(layer.layer, ".attn_kv_a_mqa.weight"@))
            &&& layer.tensors@.contains_key(name_of(layer.layer, ".attn_kv_a_norm.weight"@))
            &&& !layer.tensors@.contains_key(name_of(layer.layer, ".attn_k_b.weight"@))
        }) ==> (result matches Err(InferenceError::MissingTensor(name))
            && name@ == name_of(layer.layer, ".attn_k_b.weight"@)),
        ({
            &&& layer.tensors@.contains_key(name_of(layer.layer, ".attn_q_a.weight"@))
            &&& layer.tensors@.contains_key(name_of(layer.layer, ".attn_q_a_norm.weight"@))
            &&& layer.tensors@.contains_key(name_of(layer.layer, ".attn_q_b.weight"@))
            &&& layer.tensors@.contains_key(name_of(layer.layer, ".attn_kv_a_mqa.weight"@))
            &&& layer.tensors@.contains_key(name_of(layer.layer, ".attn_kv_a_norm.weight"@))
            &&& layer.tensors@.contains_key(name_of(layer.layer, ".attn_k_b.weight"@))
            &&& !layer.tensors@.contains_key(name_of(layer.layer, ".attn_v_b.weight"@))
        }) ==> (result matches Err(InferenceError::MissingTensor(name))
            && name@ == name_of(layer.layer, ".attn_v_b.weight"@)),
        ({
            &&& layer.tensors@.contains_key(name_of(layer.layer, ".attn_q_a.weight"@))
            &&& layer.tensors@.contains_key(name_of(layer.layer, ".attn_q_a_norm.weight"@))
            &&& layer.tensors@.contains_key(name_of(layer.layer, ".attn_q_b.weight"@))
            &&& layer.tensors@.contains_key(name_of(layer.layer, ".attn_kv_a_mqa.weight"@))
            &&& layer.tensors@.contains_key(name_of(layer.layer, ".attn_kv_a_norm.weight"@))
            &&& layer.tensors@.contains_key(name_of(layer.layer, ".attn_k_b.weight"@))
            &&& layer.tensors@.contains_key(name_of(layer.layer, ".attn_v_b.weight"@))
            &&& !layer.tensors@.contains_key(name_of(layer.layer, ".attn_output.weight"@))
        }) ==> (result matches Err(InferenceError::MissingTensor(name))
            && name@ == name_of(layer.layer, ".attn_output.weight"@)),
{
    lemma_names(layer);
}

/// A layer whose tensors have no shape refuses every token with the words that say why they have
/// none.
pub proof fn layers_without_a_shape_refuse<
    T: Copy,
    Mul: Fn(T, T) -> T,
    Add: Fn(T, T) -> T,
    InvRms: Fn(T, usize) -> T,
>(
    ops: Arithmetic<T, Mul, Add, InvRms>,
    layer: Deepseek2AttentionLayerTensors<T>,
    hidden: &[T],
    q_a: LoadedGgufTensor<T>,
    q_a_norm: LoadedGgufTensor<T>,
    q_b: LoadedGgufTensor<T>,
    kv_a: LoadedGgufTensor<T>,
    kv_a_norm: LoadedGgufTensor<T>,
    k_b: LoadedGgufTensor<T>,
    v_b: LoadedGgufTensor<T>,
    output: LoadedGgufTensor<T>,
    why: InferenceError,
    result: Result<Vec<T>, InferenceError>,
)
    requires
        call_ensures(
            deepseek2_mla_single_token_cpu::<T, Mul, Add, InvRms>,
            (&ops, &layer, hidden),
            result,
        ),
        keeps(layer, ".attn_q_a.weight"@, q_a),
        keeps(layer, ".attn_q_a_norm.weight"@, q_a_norm),
        keeps(layer, ".attn_q_b.weight"@, q_b),
        keeps(layer, ".attn_kv_a_mqa.weight"@, kv_a),
        keeps(layer, ".attn_kv_a_norm.weight"@, kv_a_norm),
        keeps(layer, ".attn_k_b.weight"@, k_b),
        keeps(layer, ".attn_v_b.weight"@, v_b),
        keeps(layer, ".attn_output.weight"@, output),
        call_ensures(
            infer_shape::<T>,
            (&q_a, &q_a_norm, &q_b, &kv_a, &kv_a_norm, &k_b, &v_b, &output),
            Err(why),
        ),
    ensures
        result matches Err(error) && error@ == why@,
{
    lemma_names(layer);
    assert(deepseek2_mla::family(layer) == mla_shape::family_of(
        q_a,
        q_a_norm,
        q_b,
        kv_a,
        kv_a_norm,
        k_b,
        v_b,
        output,
    ));
}

/// A layer with a shape refuses a token for one of four reasons alone, the first that holds: the
/// token is not as wide as the layer, the weights for the input are not as many as its values, the
/// weights for the latent vector are not as many as the kv rank, or the heads of the value tensor
/// do not come to the width that the output projection takes. Every other token is evaluated.
pub proof fn tokens_that_fit_are_evaluated<
    T: Copy,
    Mul: Fn(T, T) -> T,
    Add: Fn(T, T) -> T,
    InvRms: Fn(T, usize) -> T,
>(
    ops: Arithmetic<T, Mul, Add, InvRms>,
    layer: Deepseek2AttentionLayerTensors<T>,
    hidden: &[T],
    q_a: LoadedGgufTensor<T>,
    q_a_norm: LoadedGgufTensor<T>,
    q_b: LoadedGgufTensor<T>,
    kv_a: LoadedGgufTensor<T>,
    kv_a_norm: LoadedGgufTensor<T>,
    k_b: LoadedGgufTensor<T>,
    v_b: LoadedGgufTensor<T>,
    output: LoadedGgufTensor<T>,
    shape: Deepseek2MlaShape,
    result: Result<Vec<T>, InferenceError>,
)
    requires
        call_ensures(
            deepseek2_mla_single_token_cpu::<T, Mul, Add, InvRms>,
            (&ops, &layer, hidden),
            result,
        ),
        keeps(layer, ".attn_q_a.weight"@, q_a),
        keeps(layer, ".attn_q_a_norm.weight"@, q_a_norm),
        keeps(layer, ".attn_q_b.weight"@, q_b),
        keeps(layer, ".attn_kv_a_mqa.weight"@, kv_a),
        keeps(layer, ".attn_kv_a_norm.weight"@, kv_a_norm),
        keeps(layer, ".attn_k_b.weight"@, k_b),
        keeps(layer, ".attn_v_b.weight"@, v_b),
        keeps(layer, ".attn_output.weight"@, output),
        call_ensures(
            infer_shape::<T>,
            (&q_a, &q_a_norm, &q_b, &kv_a, &kv_a_norm, &k_b, &v_b, &output),
            Ok(shape),
        ),
    ensures
        ({
            let name = name_of(layer.layer, ".attn_norm.weight"@);
            let weights = layer.tensors@[name].values@.len();
            let heads = v_b.dims@[2] as usize;
            let wide = hidden@.len() != shape.hidden;
            let input = layer.tensors@.contains_key(name) && weights != hidden@.len();
            let latent = kv_a_norm.values@.len() != shape.kv_rank;
            let values = heads * shape.v_dim != output.dims@[0] as usize;
            &&& wide ==> (result matches Err(InferenceError::Parse(message)) && message@
                == "hidden length "@ + text::decimal(hidden@.len())
                + " does not match DeepSeek2 MLA hidden "@ + text::decimal(shape.hidden as nat))
            &&& !wide && input ==> (result matches Err(InferenceError::Parse(message)) && message@
                == "RMS norm width mismatch: x="@ + text::decimal(hidden@.len()) + " weight="@
                + text::decimal(weights))
            &&& !wide && !input && latent ==> (result matches Err(InferenceError::Parse(message))
                && message@ == "RMS norm width mismatch: x="@ + text::decimal(shape.kv_rank as nat)
                + " weight="@ + text::decimal(kv_a_norm.values@.len()))
            &&& !wide && !input && !latent && values ==> (result matches Err(
                InferenceError::Parse(message),
            ) && message@ == output.name@ + " expects input width "@ + text::decimal(
                (output.dims@[0] as usize) as nat,
            ) + ", got "@ + text::decimal((heads * shape.v_dim) as nat))
            &&& result is Ok <==> !wide && !input && !latent && !values
            &&& result matches Ok(out) ==> out@.len() == shape.hidden
        }),
{
    lemma_names(layer);
    assert(deepseek2_mla::family(layer) == mla_shape::family_of(
        q_a,
        q_a_norm,
        q_b,
        kv_a,
        kv_a_norm,
        k_b,
        v_b,
        output,
    ));
}

/// Whole layers accept every token of their width: eight tensors whose dimensions are made of seven
/// widths, with as many weights as they normalize.
pub proof fn whole_layers_evaluate_their_tokens<
    T: Copy,
    Mul: Fn(T, T) -> T,
    Add: Fn(T, T) -> T,
    InvRms: Fn(T, usize) -> T,
>(
    ops: Arithmetic<T, Mul, Add, InvRms>,
    layer: Deepseek2AttentionLayerTensors<T>,
    hidden: &[T],
    q_a: LoadedGgufTensor<T>,
    q_a_norm: LoadedGgufTensor<T>,
    q_b: LoadedGgufTensor<T>,
    kv_a: LoadedGgufTensor<T>,
    kv_a_norm: LoadedGgufTensor<T>,
    k_b: LoadedGgufTensor<T>,
    v_b: LoadedGgufTensor<T>,
    output: LoadedGgufTensor<T>,
    width: usize,
    q_rank: usize,
    kv_rank: usize,
    heads: usize,
    qk_nope: usize,
    qk_rope: usize,
    v_dim: usize,
    result: Result<Vec<T>, InferenceError>,
)
    requires
        call_ensures(
            deepseek2_mla_single_token_cpu::<T, Mul, Add, InvRms>,
            (&ops, &layer, hidden),
            result,
        ),
        keeps(layer, ".attn_q_a.weight"@, q_a),
        keeps(layer, ".attn_q_a_norm.weight"@, q_a_norm),
        keeps(layer, ".attn_q_b.weight"@, q_b),
        keeps(layer, ".attn_kv_a_mqa.weight"@, kv_a),
        keeps(layer, ".attn_kv_a_norm.weight"@, kv_a_norm),
        keeps(layer, ".attn_k_b.weight"@, k_b),
        keeps(layer, ".attn_v_b.weight"@, v_b),
        keeps(layer, ".attn_output.weight"@, output),
        q_a.dims@.len() == 2,
        q_a_norm.dims@.len() == 1,
        q_b.dims@.len() == 2,
        kv_a.dims@.len() == 2,
        kv_a_norm.dims@.len() == 1,
        k_b.dims@.len() == 3,
        v_b.dims@.len() == 3,
        output.dims@.len() == 2,
        q_a.dims@[0] == width && q_a.dims@[1] == q_rank,
        q_a_norm.values@.len() == q_rank,
        q_b.dims@[0] == q_rank && q_b.dims@[1] == heads * (qk_nope + qk_rope),
        kv_a.dims@[0] == width && kv_a.dims@[1] == kv_rank + qk_rope,
        kv_a_norm.dims@[0] == kv_rank && kv_a_norm.values@.len() == kv_rank,
        (k_b.dims@[0] == qk_nope && k_b.dims@[1] == kv_rank) || (k_b.dims@[0] == kv_rank
            && k_b.dims@[1] == qk_nope),
        k_b.dims@[2] == heads,
        (v_b.dims@[0] == v_dim && v_b.dims@[1] == kv_rank) || (v_b.dims@[0] == kv_rank
            && v_b.dims@[1] == v_dim),
        v_b.dims@[2] == heads,
        output.dims@[0] == heads * v_dim && output.dims@[1] == width,
        // No width is beyond what the machine can count.
        kv_rank + qk_rope <= usize::MAX,
        heads * (qk_nope + qk_rope) <= usize::MAX,
        heads * v_dim <= usize::MAX,
        hidden@.len() == width,
        layer.tensors@.contains_key(name_of(layer.layer, ".attn_norm.weight"@))
            ==> layer.tensors@[name_of(layer.layer, ".attn_norm.weight"@)].values@.len()
            == width,
    ensures
        result matches Ok(out) && out@.len() == width,
{
    lemma_names(layer);
    let family = mla_shape::family_of(q_a, q_a_norm, q_b, kv_a, kv_a_norm, k_b, v_b, output);
    assert(deepseek2_mla::family(layer) == family);
    assert(family.qk_nope() == qk_nope && family.qk_rope() == qk_rope && family.v_dim() == v_dim);
    assert(family.q_width() == heads * (qk_nope + qk_rope));
    assert(family.v_width() == heads * v_dim);
}

/// Layers can be evaluated on every token, be it refused or not, where each tensor of the family
/// has its number of dimensions and holds the values that these speak of, and where no width is
/// beyond what the machine can count.
pub proof fn full_layers_can_be_evaluated<
    T: Copy,
    Mul: Fn(T, T) -> T,
    Add: Fn(T, T) -> T,
    InvRms: Fn(T, usize) -> T,
>(
    ops: Arithmetic<T, Mul, Add, InvRms>,
    layer: Deepseek2AttentionLayerTensors<T>,
    hidden: &[T],
    q_a: LoadedGgufTensor<T>,
    q_a_norm: LoadedGgufTensor<T>,
    q_b: LoadedGgufTensor<T>,
    kv_a: LoadedGgufTensor<T>,
    kv_a_norm: LoadedGgufTensor<T>,
    k_b: LoadedGgufTensor<T>,
    v_b: LoadedGgufTensor<T>,
    output: LoadedGgufTensor<T>,
    computable: bool,
)
    requires
        call_ensures(
            token_is_computable::<T>,
            (&layer, hidden@.len() as usize),
            computable,
        ),
        hidden@.len() <= usize::MAX,
        forall|a: T, b: T| call_requires(ops.mul, (a, b)),
        forall|a: T, b: T| call_requires(ops.add, (a, b)),
        forall|a: T, n: usize| call_requires(ops.inv_rms, (a, n)),
        keeps(layer, ".attn_q_a.weight"@, q_a),
        keeps(layer, ".attn_q_a_norm.weight"@, q_a_norm),
        keeps(layer, ".attn_q_b.weight"@, q_b),
        keeps(layer, ".attn_kv_a_mqa.weight"@, kv_a),
        keeps(layer, ".attn_kv_a_norm.weight"@, kv_a_norm),
        keeps(layer, ".attn_k_b.weight"@, k_b),
        keeps(layer, ".attn_v_b.weight"@, v_b),
        keeps(layer, ".attn_output.weight"@, output),
        q_a.dims@.len() == 2,
        q_a_norm.dims@.len() == 1,
        q_b.dims@.len() == 2,
        kv_a.dims@.len() == 2,
        kv_a_norm.dims@.len() == 1,
        k_b.dims@.len() == 3,
        v_b.dims@.len() == 3,
        output.dims@.len() == 2,
        (q_a.dims@[1] as usize) * (q_a.dims@[0] as usize) <= q_a.values@.len(),
        (q_b.dims@[1] as usize) * (q_b.dims@[0] as usize) <= q_b.values@.len(),
        (kv_a.dims@[1] as usize) * (kv_a.dims@[0] as usize) <= kv_a.values@.len(),
        (output.dims@[1] as usize) * (output.dims@[0] as usize) <= output.values@.len(),
        (k_b.dims@[2] as usize) * (k_b.dims@[1] as usize) * (k_b.dims@[0] as usize)
            <= k_b.values@.len(),
        (k_b.dims@[2] as usize) * (k_b.dims@[1] as usize) <= usize::MAX,
        (k_b.dims@[2] as usize) * (k_b.dims@[0] as usize) <= usize::MAX,
        (v_b.dims@[2] as usize) * (v_b.dims@[1] as usize) * (v_b.dims@[0] as usize)
            <= v_b.values@.len(),
        (v_b.dims@[2] as usize) * (v_b.dims@[1] as usize) <= usize::MAX,
        (v_b.dims@[2] as usize) * (v_b.dims@[0] as usize) <= usize::MAX,
        // Query heads and the values of all key heads can be counted.
        (k_b.dims@[0] as usize) + (kv_a.dims@[1] as usize) <= usize::MAX,
        (k_b.dims@[2] as usize) * ((k_b.dims@[0] as usize) + (kv_a.dims@[1] as usize))
            <= usize::MAX,
        (k_b.dims@[1] as usize) + (kv_a.dims@[1] as usize) <= usize::MAX,
        (k_b.dims@[2] as usize) * ((k_b.dims@[1] as usize) + (kv_a.dims@[1] as usize))
            <= usize::MAX,
        (k_b.dims@[2] as usize) * (v_b.dims@[0] as usize) <= usize::MAX,
        (k_b.dims@[2] as usize) * (v_b.dims@[1] as usize) <= usize::MAX,
    ensures
        computable,
        call_requires(
            deepseek2_mla_single_token_cpu::<T, Mul, Add, InvRms>,
            (&ops, &layer, hidden),
        ),
{
    lemma_names(layer);
    let family = mla_shape::family_of(q_a, q_a_norm, q_b, kv_a, kv_a_norm, k_b, v_b, output);
    assert(deepseek2_mla::family(layer) == family);
    if family.qk_rope() >= 0 {
        let heads = family.heads() as int;
        let narrow = family.qk_nope() + family.qk_rope();
        let wide = family.qk_nope() + (kv_a.dims@[1] as usize);
        assert(heads * narrow <= heads * wide) by (nonlinear_arith)
            requires
                heads >= 0,
                narrow <= wide,
        ;
    }
}

/// Layers that lack a tensor, or whose tensors have another number of dimensions, can be asked
/// about every token: they refuse it before a value is read.
pub proof fn unfit_layers_can_be_asked<
    T: Copy,
    Mul: Fn(T, T) -> T,
    Add: Fn(T, T) -> T,
    InvRms: Fn(T, usize) -> T,
>(
    ops: Arithmetic<T, Mul, Add, InvRms>,
    layer: Deepseek2AttentionLayerTensors<T>,
    hidden: &[T],
    computable: bool,
)
    requires
        call_ensures(
            token_is_computable::<T>,
            (&layer, hidden@.len() as usize),
            computable,
        ),
        hidden@.len() <= usize::MAX,
        forall|a: T, b: T| call_requires(ops.mul, (a, b)),
        forall|a: T, b: T| call_requires(ops.add, (a, b)),
        forall|a: T, n: usize| call_requires(ops.inv_rms, (a, n)),
        ({
            ||| !layer.tensors@.contains_key(name_of(layer.layer, ".attn_q_a.weight"@))
            ||| layer.tensors@[name_of(layer.layer, ".attn_q_a.weight"@)].dims@.len() != 2
            ||| !layer.tensors@.contains_key(name_of(layer.layer, ".attn_q_a_norm.weight"@))
            ||| layer.tensors@[name_of(layer.layer, ".attn_q_a_norm.weight"@)].dims@.len() != 1
            ||| !layer.tensors@.contains_key(name_of(layer.layer, ".attn_q_b.weight"@))
            ||| layer.tensors@[name_of(layer.layer, ".attn_q_b.weight"@)].dims@.len() != 2
            ||| !layer.tensors@.contains_key(name_of(layer.layer, ".attn_kv_a_mqa.weight"@))
            ||| layer.tensors@[name_of(layer.layer, ".attn_kv_a_mqa.weight"@)].dims@.len() != 2
            ||| !layer.tensors@.contains_key(name_of(layer.layer, ".attn_kv_a_norm.weight"@))
            ||| layer.tensors@[name_of(layer.layer, ".attn_kv_a_norm.weight"@)].dims@.len() != 1
            ||| !layer.tensors@.contains_key(name_of(layer.layer, ".attn_k_b.weight"@))
            ||| layer.tensors@[name_of(layer.layer, ".attn_k_b.weight"@)].dims@.len() != 3
            ||| !layer.tensors@.contains_key(name_of(layer.layer, ".attn_v_b.weight"@))
            ||| layer.tensors@[name_of(layer.layer, ".attn_v_b.weight"@)].dims@.len() != 3
            ||| !layer.tensors@.contains_key(name_of(layer.layer, ".attn_output.weight"@))
            ||| layer.tensors@[name_of(layer.layer, ".attn_output.weight"@)].dims@.len() != 2
        }),
    ensures
        computable,
        call_requires(
            deepseek2_mla_single_token_cpu::<T, Mul, Add, InvRms>,
            (&ops, &layer, hidden),
        ),
{
    lemma_names(layer);
}

/// `out` is `x` normalized: `made_of` has the sum of the squares, the scale, and the scaled values.
pub open spec fn is_normed<
    T: Copy,
    Mul: Fn(T, T) -> T,
    Add: Fn(T, T) -> T,
    InvRms: Fn(T, usize) -> T,
>(
    ops: Arithmetic<T, Mul, Add, InvRms>,
    mark: spec_fn(T) -> Seq<(T, T)>,
    x: Seq<T>,
    weight: Seq<T>,
    out: Seq<T>,
    made_of: (T, T, Seq<T>),
) -> bool {
    &&& out.len() == x.len()
    &&& mark(made_of.0) == Seq::new(x.len(), |i: int| (x[i], x[i]))
    &&& x.len() > 0 ==> call_ensures(ops.inv_rms, (made_of.0, x.len() as usize), made_of.1)
    &&& x.len() == 0 ==> call_ensures(ops.inv_rms, (made_of.0, 1usize), made_of.1)
    &&& forall|i: int|
        0 <= i < x.len() ==> call_ensures(ops.mul, (x[i], made_of.1), #[trigger] made_of.2[i])
            && call_ensures(ops.mul, (made_of.2[i], weight[i]), out[i])
}

/// What comes between the token and the output.
pub struct Stages<T> {
    /// The token as the layer takes it in.
    pub normed: Seq<T>,
    pub normed_from: (T, T, Seq<T>),
    /// The kv projection.
    pub kv: Seq<T>,
    /// The normalized first part of the kv projection.
    pub latent: Seq<T>,
    pub latent_from: (T, T, Seq<T>),
    /// The values of all heads.
    pub values: Seq<T>,
}

/// The output of a layer, value by value: the token is normalized with the weights for the input,
/// where there are any; the kv projection multiplies it row by row; its first values, as many as
/// the kv rank, are normalized with their own weights; the value tensor multiplies these head by
/// head, along the side that is the kv rank; and the output projection multiplies all values row by
/// row.
pub proof fn outputs_are_made_of_the_value_path<
    T: Copy,
    Mul: Fn(T, T) -> T,
    Add: Fn(T, T) -> T,
    InvRms: Fn(T, usize) -> T,
>(
    ops: Arithmetic<T, Mul, Add, InvRms>,
    layer: Deepseek2AttentionLayerTensors<T>,
    hidden: &[T],
    q_a: LoadedGgufTensor<T>,
    q_a_norm: LoadedGgufTensor<T>,
    q_b: LoadedGgufTensor<T>,
    kv_a: LoadedGgufTensor<T>,
    kv_a_norm: LoadedGgufTensor<T>,
    k_b: LoadedGgufTensor<T>,
    v_b: LoadedGgufTensor<T>,
    output: LoadedGgufTensor<T>,
    shape: Deepseek2MlaShape,
    out: Vec<T>,
    mark: spec_fn(T) -> Seq<(T, T)>,
) -> (stages: Stages<T>)
    requires
        call_ensures(
            deepseek2_mla_single_token_cpu::<T, Mul, Add, InvRms>,
            (&ops, &layer, hidden),
            Ok(out),
        ),
        keeps(layer, ".attn_q_a.weight"@, q_a),
        keeps(layer, ".attn_q_a_norm.weight"@, q_a_norm),
        keeps(layer, ".attn_q_b.weight"@, q_b),
        keeps(layer, ".attn_kv_a_mqa.weight"@, kv_a),
        keeps(layer, ".attn_kv_a_norm.weight"@, kv_a_norm),
        keeps(layer, ".attn_k_b.weight"@, k_b),
        keeps(layer, ".attn_v_b.weight"@, v_b),
        keeps(layer, ".attn_output.weight"@, output),
        call_ensures(
            infer_shape::<T>,
            (&q_a, &q_a_norm, &q_b, &kv_a, &kv_a_norm, &k_b, &v_b, &output),
            Ok(shape),
        ),
        arithmetic_laws::marks(ops, mark),
        (kv_a.dims@[1] as usize) * (kv_a.dims@[0] as usize) <= kv_a.values@.len(),
        (output.dims@[1] as usize) * (output.dims@[0] as usize) <= output.values@.len(),
        (v_b.dims@[2] as usize) * (v_b.dims@[1] as usize) * (v_b.dims@[0] as usize)
            <= v_b.values@.len(),
    ensures
        ({
            let name = name_of(layer.layer, ".attn_norm.weight"@);
            if layer.tensors@.contains_key(name) {
                is_normed(
                    ops,
                    mark,
                    hidden@,
                    layer.tensors@[name].values@,
                    stages.normed,
                    stages.normed_from,
                )
            } else {
                stages.normed == hidden@
            }
        }),
        stages.kv.len() == shape.kv_rank + shape.qk_rope,
        forall|row: int|
            0 <= row < stages.kv.len() ==> mark(#[trigger] stages.kv[row]) == Seq::new(
                shape.hidden as nat,
                |col: int| (kv_a.values@[row * shape.hidden + col], stages.normed[col]),
            ),
        is_normed(
            ops,
            mark,
            stages.kv.take(shape.kv_rank as int),
            kv_a_norm.values@,
            stages.latent,
            stages.latent_from,
        ),
        stages.values.len() == (v_b.dims@[2] as usize) * shape.v_dim,
        forall|head: int, row: int|
            0 <= head < (v_b.dims@[2] as usize) && 0 <= row < shape.v_dim ==> mark(
                #[trigger] stages.values[kernels::head_row(shape.v_dim as int, head, row)],
            ) == Seq::new(
                shape.kv_rank as nat,
                |col: int|
                    (
                        if (v_b.dims@[0] as usize) == shape.kv_rank {
                            v_b.values@[(head * shape.v_dim + row) * shape.kv_rank + col]
                        } else {
                            v_b.values@[(head * shape.kv_rank + col) * shape.v_dim + row]
                        },
                        stages.latent[col],
                    ),
            ),
        out@.len() == shape.hidden,
        forall|row: int|
            0 <= row < shape.hidden ==> mark(#[trigger] out@[row]) == Seq::new(
                stages.values.len(),
                |col: int| (output.values@[row * stages.values.len() + col], stages.values[col]),
            ),
{
    lemma_names(layer);
    let family = mla_shape::family_of(q_a, q_a_norm, q_b, kv_a, kv_a_norm, k_b, v_b, output);
    assert(deepseek2_mla::family(layer) == family);
    let (normed, kv, latent, values) = choose|
        normed: Seq<T>,
        kv: Seq<T>,
        latent: Seq<T>,
        values: Seq<T>,
    | #[trigger]
        deepseek2_mla::evaluates(ops, layer, hidden@, normed, kv, latent, values, out@);
    let value = |t: T| 0int;
    let name = name_of(layer.layer, ".attn_norm.weight"@);
    let normed_from = if layer.tensors@.contains_key(name) {
        product_laws::lemma_rms_normed(
            ops,
            hidden@,
            layer.tensors@[name].values@,
            normed,
            mark,
            value,
        )
    } else {
        (ops.zero, ops.zero, normed)
    };
    let latent_from = product_laws::lemma_rms_normed(
        ops,
        kv.take(shape.kv_rank as int),
        kv_a_norm.values@,
        latent,
        mark,
        value,
    );
    assert(normed.len() == shape.hidden && latent.len() == shape.kv_rank);
    lemma_rows_marked(ops, kv_a.values@, kv.len() as int, normed, kv, mark);
    lemma_rows_marked(ops, output.values@, out@.len() as int, values, out@, mark);
    let heads = (v_b.dims@[2] as usize) as int;
    lemma_heads_marked(ops, v_b, latent, values, heads, shape.v_dim as int, mark);
    Stages { normed, normed_from, kv, latent, latent_from, values }
}

proof fn lemma_rows_marked<
    T: Copy,
    Mul: Fn(T, T) -> T,
    Add: Fn(T, T) -> T,
    InvRms: Fn(T, usize) -> T,
>(
    ops: Arithmetic<T, Mul, Add, InvRms>,
    values: Seq<T>,
    rows: int,
    x: Seq<T>,
    out: Seq<T>,
    mark: spec_fn(T) -> Seq<(T, T)>,
)
    requires
        kernels::row_products(ops, values, rows, x, out),
        arithmetic_laws::marks(ops, mark),
        rows * x.len() <= values.len(),
    ensures
        forall|row: int|
            0 <= row < rows ==> mark(#[trigger] out[row]) == Seq::new(
                x.len(),
                |col: int| (values[row * x.len() + col], x[col]),
            ),
{
    assert forall|row: int| 0 <= row < rows implies mark(#[trigger] out[row]) == Seq::new(
        x.len(),
        |col: int| (values[row * x.len() + col], x[col]),
    ) by {
        let cols = x.len() as int;
        kernels::lemma_row_within(row, rows, cols);
        let w = values.subrange(row * cols, row * cols + cols);
        arithmetic_laws::dots_are_sums_of_products(
            ops,
            ops.empty_sum,
            w,
            x,
            out[row],
            mark,
            |t: T| 0int,
        );
        assert(mark(out[row]) =~= Seq::new(
            x.len(),
            |col: int| (values[row * x.len() + col], x[col]),
        ));
    }
}

proof fn lemma_heads_marked<
    T: Copy,
    Mul: Fn(T, T) -> T,
    Add: Fn(T, T) -> T,
    InvRms: Fn(T, usize) -> T,
>(
    ops: Arithmetic<T, Mul, Add, InvRms>,
    tensor: LoadedGgufTensor<T>,
    x: Seq<T>,
    out: Seq<T>,
    heads: int,
    rows: int,
    mark: spec_fn(T) -> Seq<(T, T)>,
)
    requires
        kernels::head_products(ops, tensor, x, out),
        arithmetic_laws::marks(ops, mark),
        (tensor.dims@[2] as usize) * (tensor.dims@[1] as usize) * (tensor.dims@[0] as usize)
            <= tensor.values@.len(),
        heads == (tensor.dims@[2] as usize),
        x.len() == (tensor.dims@[0] as usize) ==> rows == (tensor.dims@[1] as usize),
        x.len() != (tensor.dims@[0] as usize) ==> rows == (tensor.dims@[0] as usize)
            && x.len() == (tensor.dims@[1] as usize),
    ensures
        out.len() == heads * rows,
        forall|head: int, row: int|
            0 <= head < heads && 0 <= row < rows ==> mark(
                #[trigger] out[kernels::head_row(rows, head, row)],
            ) == Seq::new(
                x.len(),
                |col: int|
                    (
                        if (tensor.dims@[0] as usize) == x.len() {
                            tensor.values@[(head * rows + row) * x.len() + col]
                        } else {
                            tensor.values@[(head * x.len() + col) * rows + row]
                        },
                        x[col],
                    ),
            ),
{
    if x.len() == (tensor.dims@[0] as usize) {
        lemma_rows_marked(ops, tensor.values@, heads * rows, x, out, mark);
    }
    assert forall|head: int, row: int| 0 <= head < heads && 0 <= row < rows implies mark(
        #[trigger] out[kernels::head_row(rows, head, row)],
    ) == Seq::new(
        x.len(),
        |col: int|
            (
                if (tensor.dims@[0] as usize) == x.len() {
                    tensor.values@[(head * rows + row) * x.len() + col]
                } else {
                    tensor.values@[(head * x.len() + col) * rows + row]
                },
                x[col],
            ),
    ) by {
        let at = kernels::head_row(rows, head, row);
        kernels::lemma_row_within(head, heads, rows);
        if x.len() != (tensor.dims@[0] as usize) {
            arithmetic_laws::dots_are_sums_of_products(
                ops,
                ops.zero,
                kernels::head_column(tensor.values@, rows, x.len(), head, row),
                x,
                out[at],
                mark,
                |t: T| 0int,
            );
        }
        assert(mark(out[at]) =~= Seq::new(
            x.len(),
            |col: int|
                (
                    if (tensor.dims@[0] as usize) == x.len() {
                        tensor.values@[(head * rows + row) * x.len() + col]
                    } else {
                        tensor.values@[(head * x.len() + col) * rows + row]
                    },
                    x[col],
                ),
        ));
    }
}

/// A token that is refused for its width, for the weights of the input or for a layer without a
/// shape asks for no values: it can be handed to the layer whatever its tensors hold.
pub proof fn refused_tokens_ask_for_no_values<
    T: Copy,
    Mul: Fn(T, T) -> T,
    Add: Fn(T, T) -> T,
    InvRms: Fn(T, usize) -> T,
>(
    ops: Arithmetic<T, Mul, Add, InvRms>,
    layer: Deepseek2AttentionLayerTensors<T>,
    hidden: &[T],
    q_a: LoadedGgufTensor<T>,
    q_a_norm: LoadedGgufTensor<T>,
    q_b: LoadedGgufTensor<T>,
    kv_a: LoadedGgufTensor<T>,
    kv_a_norm: LoadedGgufTensor<T>,
    k_b: LoadedGgufTensor<T>,
    v_b: LoadedGgufTensor<T>,
    output: LoadedGgufTensor<T>,
    shape: Result<Deepseek2MlaShape, InferenceError>,
    computable: bool,
)
    requires
        call_ensures(token_is_computable::<T>, (&layer, hidden@.len() as usize), computable),
        hidden@.len() <= usize::MAX,
        forall|a: T, b: T| call_requires(ops.mul, (a, b)),
        forall|a: T, b: T| call_requires(ops.add, (a, b)),
        forall|a: T, n: usize| call_requires(ops.inv_rms, (a, n)),
        keeps(layer, ".attn_q_a.weight"@, q_a),
        keeps(layer, ".attn_q_a_norm.weight"@, q_a_norm),
        keeps(layer, ".attn_q_b.weight"@, q_b),
        keeps(layer, ".attn_kv_a_mqa.weight"@, kv_a),
        keeps(layer, ".attn_kv_a_norm.weight"@, kv_a_norm),
        keeps(layer, ".attn_k_b.weight"@, k_b),
        keeps(layer, ".attn_v_b.weight"@, v_b),
        keeps(layer, ".attn_output.weight"@, output),
        q_a.dims@.len() == 2,
        q_a_norm.dims@.len() == 1,
        q_b.dims@.len() == 2,
        kv_a.dims@.len() == 2,
        kv_a_norm.dims@.len() == 1,
        k_b.dims@.len() == 3,
        v_b.dims@.len() == 3,
        output.dims@.len() == 2,
        // Query heads, and the values of all heads, can be counted.
        (k_b.dims@[0] as usize) + (kv_a.dims@[1] as usize) <= usize::MAX,
        (k_b.dims@[2] as usize) * ((k_b.dims@[0] as usize) + (kv_a.dims@[1] as usize))
            <= usize::MAX,
        (k_b.dims@[1] as usize) + (kv_a.dims@[1] as usize) <= usize::MAX,
        (k_b.dims@[2] as usize) * ((k_b.dims@[1] as usize) + (kv_a.dims@[1] as usize))
            <= usize::MAX,
        (k_b.dims@[2] as usize) * (v_b.dims@[0] as usize) <= usize::MAX,
        (k_b.dims@[2] as usize) * (v_b.dims@[1] as usize) <= usize::MAX,
        call_ensures(infer_shape::<T>, (&q_a, &q_a_norm, &q_b, &kv_a, &kv_a_norm, &k_b, &v_b,
            &output), shape),
        ({
            let name = name_of(layer.layer, ".attn_norm.weight"@);
            ||| shape is Err
            ||| (shape matches Ok(found) && found.hidden != hidden@.len())
            ||| layer.tensors@.contains_key(name) && layer.tensors@[name].values@.len()
                != hidden@.len()
        }),
    ensures
        computable,
        call_requires(deepseek2_mla_single_token_cpu::<T, Mul, Add, InvRms>, (&ops, &layer,
            hidden)),
{
    lemma_names(layer);
    let family = mla_shape::family_of(q_a, q_a_norm, q_b, kv_a, kv_a_norm, k_b, v_b, output);
    assert(deepseek2_mla::family(layer) == family);
    if family.qk_rope() >= 0 {
        let heads = family.heads() as int;
        let narrow = family.qk_nope() + family.qk_rope();
        let wide = family.qk_nope() + (kv_a.dims@[1] as usize);
        assert(heads * narrow <= heads * wide) by (nonlinear_arith)
            requires
                heads >= 0,
                narrow <= wide,
        ;
    }
}

/// A layer finds the tensor that it keeps under a name, and nothing where it keeps none; a new
/// layer has its number and keeps no tensors.
pub proof fn layers_find_what_they_keep<T>(
    number: usize,
    new: Deepseek2AttentionLayerTensors<T>,
    layer: Deepseek2AttentionLayerTensors<T>,
    asked: &str,
    found: Option<&LoadedGgufTensor<T>>,
)
    requires
        call_ensures(Deepseek2AttentionLayerTensors::<T>::new, (number,), new),
        call_ensures(Deepseek2AttentionLayerTensors::<T>::get, (&layer, asked), found),
    ensures
        new.layer == number,
        forall|name: Seq<char>| !(#[trigger] new.tensors@.contains_key(name)),
        found is Some <==> layer.tensors@.contains_key(asked@),
        found matches Some(kept) ==> *kept == layer.tensors@[asked@],
{
}

/// What is put into a layer under a name is kept there, and all that is kept under other names
/// stays.
pub proof fn layers_keep_what_is_put_in<T>(
    layer: &mut Deepseek2AttentionLayerTensors<T>,
    name: String,
    tensor: LoadedGgufTensor<T>,
    other: Seq<char>,
)
    requires
        call_ensures(Deepseek2AttentionLayerTensors::<T>::insert, (layer, name, tensor), ()),
        other != name@,
    ensures
        final(layer).layer == old(layer).layer,
        final(layer).tensors@.contains_key(name@),
        final(layer).tensors@[name@] == tensor,
        final(layer).tensors@.contains_key(other) <==> old(layer).tensors@.contains_key(other),
        final(layer).tensors@.contains_key(other) ==> final(layer).tensors@[other] == old(
            layer,
        ).tensors@[other],
{
}

} // verus!
