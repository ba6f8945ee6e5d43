//! What holds of every evaluation of a layer.

use vstd::prelude::*;

use crate::arithmetic::Arithmetic;
use crate::attention::deepseek2_mla;
use crate::attention::kernel_laws;
use crate::attention::kernels;
use crate::attention::mla_shape::MlaFamily;
use crate::error::Fault;
use crate::tensor::{Deepseek2AttentionLayerTensors, LoadedGgufTensor};

verus! {

/// What a layer makes of a token is as wide as the token.
pub proof fn output_is_as_wide_as_the_token<
    T: Copy,
    Mul: Fn(T, T) -> T,
    Add: Fn(T, T) -> T,
    InvRms: Fn(T, usize) -> T,
>(
    ops: Arithmetic<T, Mul, Add, InvRms>,
    layer: Deepseek2AttentionLayerTensors<T>,
    hidden: Seq<T>,
    out: Seq<T>,
)
    requires
        deepseek2_mla::token_fault(layer, hidden.len()) is None,
        deepseek2_mla::attends(ops, layer, hidden, out),
    ensures
        out.len() == hidden.len(),
{
}

/// Two layers have the same tensor under the name that ends in `suffix`, or none.
pub open spec fn share<T>(
    a: Deepseek2AttentionLayerTensors<T>,
    b: Deepseek2AttentionLayerTensors<T>,
    suffix: Seq<char>,
) -> bool {
    &&& deepseek2_mla::has_part(a, suffix) == deepseek2_mla::has_part(b, suffix)
    &&& deepseek2_mla::has_part(a, suffix) ==> deepseek2_mla::part(a, suffix)
        == deepseek2_mla::part(b, suffix)
}

/// Two layers share what the output is made of: the weights for the input, the kv projection and
/// its weights, the value tensor and the output projection.
pub open spec fn share_value_path<T>(
    a: Deepseek2AttentionLayerTensors<T>,
    b: Deepseek2AttentionLayerTensors<T>,
) -> bool {
    &&& share(a, b, "_norm.weight"@)
    &&& share(a, b, "_kv_a_mqa.weight"@)
    &&& share(a, b, "_kv_a_norm.weight"@)
    &&& share(a, b, "_v_b.weight"@)
    &&& share(a, b, "_output.weight"@)
}

/// Layers that share what the output is made of can make the same of a token, whatever the
/// operations are and whatever makes queries and keys.
pub proof fn value_path_gives_the_output<
    T: Copy,
    Mul: Fn(T, T) -> T,
    Add: Fn(T, T) -> T,
    InvRms: Fn(T, usize) -> T,
>(
    ops: Arithmetic<T, Mul, Add, InvRms>,
    a: Deepseek2AttentionLayerTensors<T>,
    b: Deepseek2AttentionLayerTensors<T>,
    hidden: Seq<T>,
    out: Seq<T>,
)
    requires
        deepseek2_mla::family_fault(a) is None,
        deepseek2_mla::family_fault(b) is None,
        share_value_path(a, b),
    ensures
        deepseek2_mla::attends(ops, a, hidden, out) == deepseek2_mla::attends(ops, b, hidden, out),
{
    if deepseek2_mla::attends(ops, a, hidden, out) {
        let (normed, kv, latent, values) = choose|
            normed: Seq<T>,
            kv: Seq<T>,
            latent: Seq<T>,
            values: Seq<T>,
        | #[trigger]
            deepseek2_mla::evaluates(ops, a, hidden, normed, kv, latent, values, out);
        assert(deepseek2_mla::evaluates(ops, b, hidden, normed, kv, latent, values, out));
    }
    if deepseek2_mla::attends(ops, b, hidden, out) {
        let (normed, kv, latent, values) = choose|
            normed: Seq<T>,
            kv: Seq<T>,
            latent: Seq<T>,
            values: Seq<T>,
        | #[trigger]
            deepseek2_mla::evaluates(ops, b, hidden, normed, kv, latent, values, out);
        assert(deepseek2_mla::evaluates(ops, a, hidden, normed, kv, latent, values, out));
    }
}

/// Tensors beside those of the MLA family and the weights for the input, such as those of experts,
/// have no influence: not on what becomes of a token, not on why it is refused, and not on whether
/// the layer can be evaluated at all.
pub proof fn other_tensors_do_not_matter<
    T: Copy,
    Mul: Fn(T, T) -> T,
    Add: Fn(T, T) -> T,
    InvRms: Fn(T, usize) -> T,
>(
    ops: Arithmetic<T, Mul, Add, InvRms>,
    a: Deepseek2AttentionLayerTensors<T>,
    b: Deepseek2AttentionLayerTensors<T>,
    hidden: Seq<T>,
    out: Seq<T>,
)
    requires
        a.layer == b.layer,
        share_value_path(a, b),
        share(a, b, "_q_a.weight"@),
        share(a, b, "_q_a_norm.weight"@),
        share(a, b, "_q_b.weight"@),
        share(a, b, "_k_b.weight"@),
    ensures
        deepseek2_mla::token_fault(a, hidden.len()) == deepseek2_mla::token_fault(b, hidden.len()),
        deepseek2_mla::layer_backed(a, hidden.len()) == deepseek2_mla::layer_backed(
            b,
            hidden.len(),
        ),
        deepseek2_mla::token_fault(a, hidden.len()) is None ==> deepseek2_mla::attends(
            ops,
            a,
            hidden,
            out,
        ) == deepseek2_mla::attends(ops, b, hidden, out),
{
    assert(deepseek2_mla::family_fault(a) == deepseek2_mla::family_fault(b));
    if deepseek2_mla::family_fault(a) is None {
        assert(deepseek2_mla::family(a) == deepseek2_mla::family(b));
        value_path_gives_the_output(ops, a, b, hidden, out);
    }
}

/// Where each operation gives one result on the same values, the layer and the token determine the
/// output.
pub proof fn output_is_determined<
    T: Copy,
    Mul: Fn(T, T) -> T,
    Add: Fn(T, T) -> T,
    InvRms: Fn(T, usize) -> T,
>(
    ops: Arithmetic<T, Mul, Add, InvRms>,
    layer: Deepseek2AttentionLayerTensors<T>,
    hidden: Seq<T>,
    out: Seq<T>,
    other: Seq<T>,
)
    requires
        kernel_laws::deterministic(ops),
        deepseek2_mla::attends(ops, layer, hidden, out),
        deepseek2_mla::attends(ops, layer, hidden, other),
    ensures
        out == other,
{
    let tensors = deepseek2_mla::family(layer);
    let (normed, kv, latent, values) = choose|
        normed: Seq<T>,
        kv: Seq<T>,
        latent: Seq<T>,
        values: Seq<T>,
    | #[trigger]
        deepseek2_mla::evaluates(ops, layer, hidden, normed, kv, latent, values, out);
    let (normed2, kv2, latent2, values2) = choose|
        normed: Seq<T>,
        kv: Seq<T>,
        latent: Seq<T>,
        values: Seq<T>,
    | #[trigger]
        deepseek2_mla::evaluates(ops, layer, hidden, normed, kv, latent, values, other);
    if deepseek2_mla::has_part(layer, "_norm.weight"@) {
        kernel_laws::rms_norm_is_determined(
            ops,
            hidden,
            deepseek2_mla::part(layer, "_norm.weight"@).values@,
            normed,
            normed2,
        );
    }
    kernel_laws::row_products_are_determined(
        ops,
        tensors.kv_a.values@,
        tensors.kv_a.dim(1) as int,
        normed,
        kv,
        kv2,
    );
    kernel_laws::rms_norm_is_determined(
        ops,
        kv.take(tensors.kv_rank() as int),
        tensors.kv_a_norm.values@,
        latent,
        latent2,
    );
    kernel_laws::head_products_are_determined(ops, tensors.v_b, latent, values, values2);
    kernel_laws::row_products_are_determined(
        ops,
        tensors.output.values@,
        tensors.output.dim(1) as int,
        values,
        out,
        other,
    );
}

/// Two layers have tensors under the name that ends in `suffix` that agree in name, dimensions and
/// number of values, or none.
pub open spec fn alike<T>(
    a: Deepseek2AttentionLayerTensors<T>,
    b: Deepseek2AttentionLayerTensors<T>,
    suffix: Seq<char>,
) -> bool {
    &&& deepseek2_mla::has_part(a, suffix) == deepseek2_mla::has_part(b, suffix)
    &&& deepseek2_mla::has_part(a, suffix) ==> same_form(
        deepseek2_mla::part(a, suffix),
        deepseek2_mla::part(b, suffix),
    )
}

/// Two tensors agree in name, dimensions and number of values.
pub open spec fn same_form<T>(a: LoadedGgufTensor<T>, b: LoadedGgufTensor<T>) -> bool {
    &&& a.name@ == b.name@
    &&& a.dims@ == b.dims@
    &&& a.values@.len() == b.values@.len()
}

/// Values have no part in a refusal: layers whose tensors agree in form refuse the same tokens, for
/// the same reasons, and can be evaluated on the same tokens.
pub proof fn refusals_go_by_form<T>(
    a: Deepseek2AttentionLayerTensors<T>,
    b: Deepseek2AttentionLayerTensors<T>,
    width: nat,
)
    requires
        a.layer == b.layer,
        alike(a, b, "_norm.weight"@),
        alike(a, b, "_q_a.weight"@),
        alike(a, b, "_q_a_norm.weight"@),
        alike(a, b, "_q_b.weight"@),
        alike(a, b, "_kv_a_mqa.weight"@),
        alike(a, b, "_kv_a_norm.weight"@),
        alike(a, b, "_k_b.weight"@),
        alike(a, b, "_v_b.weight"@),
        alike(a, b, "_output.weight"@),
    ensures
        deepseek2_mla::token_fault(a, width) == deepseek2_mla::token_fault(b, width),
        deepseek2_mla::layer_backed(a, width) == deepseek2_mla::layer_backed(b, width),
{
    assert(deepseek2_mla::family_fault(a) == deepseek2_mla::family_fault(b));
}

/// The first `count` rows of two matrices are the same.
pub open spec fn same_first_rows<T>(
    a: LoadedGgufTensor<T>,
    b: LoadedGgufTensor<T>,
    count: int,
) -> bool {
    let cols = a.dim(0);
    &&& a.dims@ == b.dims@
    &&& forall|row: int|
        0 <= row < count ==> #[trigger] a.values@.subrange(row * cols, row * cols + cols)
            == b.values@.subrange(row * cols, row * cols + cols)
}

/// Two layers share what the output is made of: the weights for the input, the rows of the kv
/// projection that make the latent vector and its weights, the value tensor and the output
/// projection.
pub open spec fn share_latent_path<T>(
    a: Deepseek2AttentionLayerTensors<T>,
    b: Deepseek2AttentionLayerTensors<T>,
) -> bool {
    &&& share(a, b, "_norm.weight"@)
    &&& same_first_rows(
        deepseek2_mla::part(a, "_kv_a_mqa.weight"@),
        deepseek2_mla::part(b, "_kv_a_mqa.weight"@),
        deepseek2_mla::family(a).kv_rank() as int,
    )
    &&& share(a, b, "_kv_a_norm.weight"@)
    &&& share(a, b, "_v_b.weight"@)
    &&& share(a, b, "_output.weight"@)
}

/// A token that stands alone attends to itself with probability one: tensors that make queries and
/// keys, the rows of the kv projection that make the keys with position among them, have no
/// influence on what becomes of it.
pub proof fn queries_and_keys_do_not_matter<
    T: Copy,
    Mul: Fn(T, T) -> T,
    Add: Fn(T, T) -> T,
    InvRms: Fn(T, usize) -> T,
>(
    ops: Arithmetic<T, Mul, Add, InvRms>,
    a: Deepseek2AttentionLayerTensors<T>,
    b: Deepseek2AttentionLayerTensors<T>,
    hidden: Seq<T>,
    out: Seq<T>,
    other: Seq<T>,
)
    requires
        kernel_laws::deterministic(ops),
        deepseek2_mla::token_fault(a, hidden.len()) is None,
        share_latent_path(a, b),
        deepseek2_mla::attends(ops, a, hidden, out),
        deepseek2_mla::attends(ops, b, hidden, other),
    ensures
        out == other,
{
    let tensors = deepseek2_mla::family(a);
    let projection = deepseek2_mla::family(b).kv_a;
    let (normed, kv, latent, values) = choose|
        normed: Seq<T>,
        kv: Seq<T>,
        latent: Seq<T>,
        values: Seq<T>,
    | #[trigger]
        deepseek2_mla::evaluates(ops, a, hidden, normed, kv, latent, values, out);
    let (normed2, kv2, latent2, values2) = choose|
        normed: Seq<T>,
        kv: Seq<T>,
        latent: Seq<T>,
        values: Seq<T>,
    | #[trigger]
        deepseek2_mla::evaluates(ops, b, hidden, normed, kv, latent, values, other);
    if deepseek2_mla::has_part(a, "_norm.weight"@) {
        kernel_laws::rms_norm_is_determined(
            ops,
            hidden,
            deepseek2_mla::part(a, "_norm.weight"@).values@,
            normed,
            normed2,
        );
    }
    let kv_rank = tensors.kv_rank() as int;
    let cols = normed.len();
    assert forall|row: int| 0 <= row < kv_rank implies kv[row] == kv2[row] by {
        assert(tensors.kv_a.values@.subrange(row * cols, row * cols + cols)
            == projection.values@.subrange(row * cols, row * cols + cols));
        kernel_laws::dot_is_determined(
            ops,
            ops.empty_sum,
            tensors.kv_a.values@.subrange(row * cols, row * cols + cols),
            normed,
            kv[row],
            kv2[row],
        );
    }
    assert(kv.take(kv_rank) =~= kv2.take(kv_rank));
    kernel_laws::rms_norm_is_determined(
        ops,
        kv.take(kv_rank),
        tensors.kv_a_norm.values@,
        latent,
        latent2,
    );
    kernel_laws::head_products_are_determined(ops, tensors.v_b, latent, values, values2);
    kernel_laws::row_products_are_determined(
        ops,
        tensors.output.values@,
        tensors.output.dim(1) as int,
        values,
        out,
        other,
    );
}

/// Two tensors of heads have the same dimensions, but for the order of the first two.
pub open spec fn same_sides<T>(a: LoadedGgufTensor<T>, b: LoadedGgufTensor<T>) -> bool {
    &&& a.dims@.len() == 3
    &&& b.dims@.len() == 3
    &&& b.dim(2) == a.dim(2)
    &&& {
        ||| b.dim(0) == a.dim(0) && b.dim(1) == a.dim(1)
        ||| b.dim(0) == a.dim(1) && b.dim(1) == a.dim(0)
    }
}

/// Which side of the key and value tensors comes first has no part in the shape of a layer, nor in
/// whether there is one, where one side of each is the kv rank.
pub proof fn shape_ignores_orientation<T>(a: MlaFamily<T>, b: MlaFamily<T>)
    requires
        a.q_a == b.q_a,
        a.q_a_norm == b.q_a_norm,
        a.q_b == b.q_b,
        a.kv_a == b.kv_a,
        a.kv_a_norm == b.kv_a_norm,
        a.output == b.output,
        same_sides(a.k_b, b.k_b),
        same_sides(a.v_b, b.v_b),
        a.k_b.dim(0) == a.kv_rank() || a.k_b.dim(1) == a.kv_rank(),
        a.v_b.dim(0) == a.kv_rank() || a.v_b.dim(1) == a.kv_rank(),
    ensures
        b.shape_fault() == a.shape_fault(),
        b.shape() == a.shape(),
{
}

/// The input norm is a step before the rest of the layer: with weights for its input, a layer makes
/// of a token what the layer without them makes of the normalized token, and refuses it for the
/// same reason.
pub proof fn input_norm_comes_first<
    T: Copy,
    Mul: Fn(T, T) -> T,
    Add: Fn(T, T) -> T,
    InvRms: Fn(T, usize) -> T,
>(
    ops: Arithmetic<T, Mul, Add, InvRms>,
    a: Deepseek2AttentionLayerTensors<T>,
    b: Deepseek2AttentionLayerTensors<T>,
    hidden: Seq<T>,
    normed: Seq<T>,
    out: Seq<T>,
)
    requires
        kernel_laws::deterministic(ops),
        a.layer == b.layer,
        deepseek2_mla::has_part(a, "_norm.weight"@),
        !deepseek2_mla::has_part(b, "_norm.weight"@),
        share(a, b, "_q_a.weight"@),
        share(a, b, "_q_a_norm.weight"@),
        share(a, b, "_q_b.weight"@),
        share(a, b, "_kv_a_mqa.weight"@),
        share(a, b, "_kv_a_norm.weight"@),
        share(a, b, "_k_b.weight"@),
        share(a, b, "_v_b.weight"@),
        share(a, b, "_output.weight"@),
        deepseek2_mla::part(a, "_norm.weight"@).values@.len() == hidden.len(),
        kernels::rms_normed(
            ops,
            hidden,
            deepseek2_mla::part(a, "_norm.weight"@).values@,
            normed,
        ),
    ensures
        deepseek2_mla::token_fault(a, hidden.len()) == deepseek2_mla::token_fault(b, normed.len()),
        deepseek2_mla::layer_backed(a, hidden.len()) == deepseek2_mla::layer_backed(
            b,
            normed.len(),
        ),
        deepseek2_mla::family_fault(a) is None ==> deepseek2_mla::attends(ops, a, hidden, out)
            == deepseek2_mla::attends(ops, b, normed, out),
{
    assert(deepseek2_mla::family_fault(a) == deepseek2_mla::family_fault(b));
    if deepseek2_mla::family_fault(a) is None {
        assert(deepseek2_mla::family(a) == deepseek2_mla::family(b));
        if deepseek2_mla::attends(ops, a, hidden, out) {
            let (taken, kv, latent, values) = choose|
                taken: Seq<T>,
                kv: Seq<T>,
                latent: Seq<T>,
                values: Seq<T>,
            | #[trigger]
                deepseek2_mla::evaluates(ops, a, hidden, taken, kv, latent, values, out);
            kernel_laws::rms_norm_is_determined(
                ops,
                hidden,
                deepseek2_mla::part(a, "_norm.weight"@).values@,
                taken,
                normed,
            );
            assert(deepseek2_mla::evaluates(ops, b, normed, taken, kv, latent, values, out));
        }
        if deepseek2_mla::attends(ops, b, normed, out) {
            let (taken, kv, latent, values) = choose|
                taken: Seq<T>,
                kv: Seq<T>,
                latent: Seq<T>,
                values: Seq<T>,
            | #[trigger]
                deepseek2_mla::evaluates(ops, b, normed, taken, kv, latent, values, out);
            assert(deepseek2_mla::evaluates(ops, a, hidden, taken, kv, latent, values, out));
        }
    }
}

/// The evaluation of a layer on a token may return `result`.
pub open spec fn yields<
    T: Copy,
    Mul: Fn(T, T) -> T,
    Add: Fn(T, T) -> T,
    InvRms: Fn(T, usize) -> T,
>(
    ops: Arithmetic<T, Mul, Add, InvRms>,
    layer: Deepseek2AttentionLayerTensors<T>,
    hidden: Seq<T>,
    result: Result<Seq<T>, Fault>,
) -> bool {
    match result {
        Ok(out) => {
            &&& deepseek2_mla::token_fault(layer, hidden.len()) is None
            &&& deepseek2_mla::attends(ops, layer, hidden, out)
        },
        Err(fault) => deepseek2_mla::token_fault(layer, hidden.len()) == Some(fault),
    }
}

/// With deterministic operations, a token gets the same result from two layers with the same
/// number that agree in the MLA family and in the weights for the input, whatever else they have.
pub proof fn other_tensors_leave_the_result<
    T: Copy,
    Mul: Fn(T, T) -> T,
    Add: Fn(T, T) -> T,
    InvRms: Fn(T, usize) -> T,
>(
    ops: Arithmetic<T, Mul, Add, InvRms>,
    a: Deepseek2AttentionLayerTensors<T>,
    b: Deepseek2AttentionLayerTensors<T>,
    hidden: Seq<T>,
    result: Result<Seq<T>, Fault>,
    other: Result<Seq<T>, Fault>,
)
    requires
        kernel_laws::deterministic(ops),
        a.layer == b.layer,
        share(a, b, "_norm.weight"@),
        share(a, b, "_q_a.weight"@),
        share(a, b, "_q_a_norm.weight"@),
        share(a, b, "_q_b.weight"@),
        share(a, b, "_kv_a_mqa.weight"@),
        share(a, b, "_kv_a_norm.weight"@),
        share(a, b, "_k_b.weight"@),
        share(a, b, "_v_b.weight"@),
        share(a, b, "_output.weight"@),
        yields(ops, a, hidden, result),
        yields(ops, b, hidden, other),
    ensures
        result == other,
{
    let out = result->Ok_0;
    other_tensors_do_not_matter(ops, a, b, hidden, out);
    if result is Ok {
        output_is_determined(ops, b, hidden, out, other->Ok_0);
    }
}

/// With deterministic operations, a token gets the same result from two layers with the same
/// number that differ only in the values, not in the form, of what makes queries and keys.
pub proof fn queries_and_keys_leave_the_result<
    T: Copy,
    Mul: Fn(T, T) -> T,
    Add: Fn(T, T) -> T,
    InvRms: Fn(T, usize) -> T,
>(
    ops: Arithmetic<T, Mul, Add, InvRms>,
    a: Deepseek2AttentionLayerTensors<T>,
    b: Deepseek2AttentionLayerTensors<T>,
    hidden: Seq<T>,
    result: Result<Seq<T>, Fault>,
    other: Result<Seq<T>, Fault>,
)
    requires
        kernel_laws::deterministic(ops),
        a.layer == b.layer,
        share_latent_path(a, b),
        alike(a, b, "_q_a.weight"@),
        alike(a, b, "_q_a_norm.weight"@),
        alike(a, b, "_q_b.weight"@),
        alike(a, b, "_kv_a_mqa.weight"@),
        alike(a, b, "_k_b.weight"@),
        yields(ops, a, hidden, result),
        yields(ops, b, hidden, other),
    ensures
        result == other,
{
    refusals_go_by_form(a, b, hidden.len());
    if result is Ok {
        queries_and_keys_do_not_matter(ops, a, b, hidden, result->Ok_0, other->Ok_0);
    }
}

/// With deterministic operations, a layer with weights for its input gives a token the result that
/// the layer without them gives the normalized token.
pub proof fn input_norm_leaves_the_result<
    T: Copy,
    Mul: Fn(T, T) -> T,
    Add: Fn(T, T) -> T,
    InvRms: Fn(T, usize) -> T,
>(
    ops: Arithmetic<T, Mul, Add, InvRms>,
    a: Deepseek2AttentionLayerTensors<T>,
    b: Deepseek2AttentionLayerTensors<T>,
    hidden: Seq<T>,
    normed: Seq<T>,
    result: Result<Seq<T>, Fault>,
    other: Result<Seq<T>, Fault>,
)
    requires
        kernel_laws::deterministic(ops),
        a.layer == b.layer,
        deepseek2_mla::has_part(a, "_norm.weight"@),
        !deepseek2_mla::has_part(b, "_norm.weight"@),
        share(a, b, "_q_a.weight"@),
        share(a, b, "_q_a_norm.weight"@),
        share(a, b, "_q_b.weight"@),
        share(a, b, "_kv_a_mqa.weight"@),
        share(a, b, "_kv_a_norm.weight"@),
        share(a, b, "_k_b.weight"@),
        share(a, b, "_v_b.weight"@),
        share(a, b, "_output.weight"@),
        deepseek2_mla::part(a, "_norm.weight"@).values@.len() == hidden.len(),
        kernels::rms_normed(
            ops,
            hidden,
            deepseek2_mla::part(a, "_norm.weight"@).values@,
            normed,
        ),
        yields(ops, a, hidden, result),
        yields(ops, b, normed, other),
    ensures
        result == other,
{
    let out = result->Ok_0;
    input_norm_comes_first(ops, a, b, hidden, normed, out);
    if result is Ok {
        output_is_determined(ops, b, normed, out, other->Ok_0);
    }
}

} // verus!
