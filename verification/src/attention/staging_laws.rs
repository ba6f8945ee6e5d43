//! What becomes of a layer that is staged, in terms of its tensors and of the answers of the
//! device.

use vstd::prelude::*;

use crate::attention::cuda_resident;
use crate::attention::cuda_resident::{
    load_deepseek2_cuda_resident_2d_attention, resident_2d, Deepseek2CudaResident2dAttention,
};
use crate::attention::deepseek2_mla;
use crate::attention::evaluation_laws;
use crate::attention::tensor_name;
use crate::error::InferenceError;
use crate::tensor::{Deepseek2AttentionLayerTensors, LoadedGgufTensor};
use crate::text;

verus! {

/// `tensor` is a matrix that holds the values that its dimensions speak of, and no side of it nor
/// the whole of it is beyond what an address can tell.
pub open spec fn is_whole_matrix<T>(tensor: LoadedGgufTensor<T>) -> bool {
    &&& tensor.dims@.len() == 2
    &&& tensor.dims@[0] as usize <= isize::MAX
    &&& tensor.dims@[1] as usize <= isize::MAX
    &&& (tensor.dims@[1] as usize) * (tensor.dims@[0] as usize) <= isize::MAX
    &&& (tensor.dims@[1] as usize) * (tensor.dims@[0] as usize) <= tensor.values@.len()
}

/// A tensor of two dimensions whose values are as many as these say, or more, is handed to the
/// device, whatever its name, its type and its values are: as many rows as the second dimension
/// says, as wide as the first. The answer of the device alone decides.
pub proof fn device_decides_on_whole_matrices<T, M, Stage: Fn(usize, usize, &Vec<T>) -> Option<M>>(
    stage: Stage,
    tensor: LoadedGgufTensor<T>,
    result: Result<M, InferenceError>,
)
    requires
        call_ensures(resident_2d::<T, M, Stage>, (&stage, &tensor), result),
        tensor.dims@.len() == 2,
        tensor.dims@[0] as usize <= isize::MAX,
        tensor.dims@[1] as usize <= isize::MAX,
        (tensor.dims@[1] as usize) * (tensor.dims@[0] as usize) <= isize::MAX,
        (tensor.dims@[1] as usize) * (tensor.dims@[0] as usize) <= tensor.values@.len(),
    ensures
        result matches Ok(matrix) ==> call_ensures(
            stage,
            (tensor.dims@[1] as usize, tensor.dims@[0] as usize, &tensor.values),
            Some(matrix),
        ),
        result is Err ==> call_ensures(
            stage,
            (tensor.dims@[1] as usize, tensor.dims@[0] as usize, &tensor.values),
            None::<M>,
        ),
        result matches Err(error) ==> (error matches InferenceError::Parse(message) && message@
            == "failed to stage "@ + tensor.name@ + " as CUDA-resident f32 matrix"@),
{
    lemma_whole_matrices_have_no_fault(tensor);
}

proof fn lemma_whole_matrices_have_no_fault<T>(tensor: LoadedGgufTensor<T>)
    requires
        is_whole_matrix(tensor),
    ensures
        cuda_resident::view_fault(tensor) is None,
{
    let rows = tensor.dims@[1] as usize;
    let cols = tensor.dims@[0] as usize;
    assert(cuda_resident::at_least_one(rows) * cuda_resident::at_least_one(cols) <= isize::MAX) by {
        if rows == 0 {
            assert(1 * cuda_resident::at_least_one(cols) == cuda_resident::at_least_one(cols));
        } else if cols == 0 {
            assert(rows * 1 == rows);
        }
    }
}

/// What a device is never asked about: a tensor with another number of dimensions than two, one
/// with fewer values than its dimensions say, and one whose sides that are not empty measure more
/// than an address can tell. The first of these that holds is the reason that is given, in the
/// order of rank, measure and number of values.
pub proof fn what_is_no_matrix_is_refused<T, M, Stage: Fn(usize, usize, &Vec<T>) -> Option<M>>(
    stage: Stage,
    tensor: LoadedGgufTensor<T>,
    result: Result<M, InferenceError>,
)
    requires
        call_ensures(resident_2d::<T, M, Stage>, (&stage, &tensor), result),
    ensures
        tensor.dims@.len() != 2 ==> (result matches Err(InferenceError::Parse(message))
            && message@ == tensor.name@ + " rank "@ + text::decimal(tensor.dims@.len())
            + " != expected "@ + text::decimal(2)),
        tensor.dims@.len() == 2 ==> {
            let cols = tensor.dims@[0] as usize;
            let rows = tensor.dims@[1] as usize;
            let immense = rows * cols > isize::MAX || (rows == 0 && cols > isize::MAX) || (cols == 0
                && rows > isize::MAX);
            let words = tensor.name@ + " cannot be viewed as row-major ["@ + text::decimal(
                rows as nat,
            ) + ","@ + text::decimal(cols as nat) + "]: "@;
            &&& immense ==> (result matches Err(InferenceError::Parse(message)) && message@ == words
                + "ShapeError/Overflow: arithmetic overflow"@)
            &&& !immense && rows * cols > tensor.values@.len() ==> (result matches Err(
                InferenceError::Parse(message),
            ) && message@ == words + "ShapeError/OutOfBounds: out of bounds indexing"@)
        },
{
    if tensor.dims@.len() == 2 {
        let rows = tensor.dims@[1] as usize;
        let cols = tensor.dims@[0] as usize;
        if rows == 0 {
            assert(1 * cuda_resident::at_least_one(cols) == cuda_resident::at_least_one(cols));
            assert(0 * cols == 0);
        } else if cols == 0 {
            assert(rows * 1 == rows);
            assert(rows * 0 == 0);
        }
    }
}

/// Tensors that agree in name, dimensions and number of values are refused for the same reasons, if
/// the device takes what it is asked about.
pub proof fn refusals_go_by_name_and_form<T, M, Stage: Fn(usize, usize, &Vec<T>) -> Option<M>>(
    stage: Stage,
    a: LoadedGgufTensor<T>,
    b: LoadedGgufTensor<T>,
    result: Result<M, InferenceError>,
    other: Result<M, InferenceError>,
)
    requires
        call_ensures(resident_2d::<T, M, Stage>, (&stage, &a), result),
        call_ensures(resident_2d::<T, M, Stage>, (&stage, &b), other),
        a.name@ == b.name@,
        a.dims@ == b.dims@,
        a.values@.len() == b.values@.len(),
        forall|rows: usize, cols: usize, values: &Vec<T>|
            !(#[trigger] call_ensures(stage, (rows, cols, values), None::<M>)),
    ensures
        result is Ok <==> other is Ok,
        result matches Err(error) ==> other matches Err(other_error) && error@ == other_error@,
{
}

proof fn lemma_suffix<T>(
    layer: Deepseek2AttentionLayerTensors<T>,
    suffix: Seq<char>,
    long: Seq<char>,
)
    requires
        long == ".attn"@ + suffix,
    ensures
        tensor_name::layer_tensor_name(layer.layer as nat, suffix) == "blk."@ + text::decimal(
            layer.layer as nat,
        ) + long,
{
    assert(tensor_name::layer_tensor_name(layer.layer as nat, suffix) =~= "blk."@ + text::decimal(
        layer.layer as nat,
    ) + long);
}

proof fn lemma_names<T>(layer: Deepseek2AttentionLayerTensors<T>)
    ensures
        tensor_name::layer_tensor_name(layer.layer as nat, "_q_a.weight"@)
            == evaluation_laws::name_of(layer.layer, ".attn_q_a.weight"@),
        tensor_name::layer_tensor_name(layer.layer as nat, "_q_b.weight"@)
            == evaluation_laws::name_of(layer.layer, ".attn_q_b.weight"@),
        tensor_name::layer_tensor_name(layer.layer as nat, "_kv_a_mqa.weight"@)
            == evaluation_laws::name_of(layer.layer, ".attn_kv_a_mqa.weight"@),
        tensor_name::layer_tensor_name(layer.layer as nat, "_output.weight"@)
            == evaluation_laws::name_of(layer.layer, ".attn_output.weight"@),
{
    reveal_strlit(".attn");
    reveal_strlit("_q_a.weight");
    reveal_strlit(".attn_q_a.weight");
    assert(".attn"@ + "_q_a.weight"@ =~= ".attn_q_a.weight"@);
    lemma_suffix(layer, "_q_a.weight"@, ".attn_q_a.weight"@);
    reveal_strlit("_q_b.weight");
    reveal_strlit(".attn_q_b.weight");
    assert(".attn"@ + "_q_b.weight"@ =~= ".attn_q_b.weight"@);
    lemma_suffix(layer, "_q_b.weight"@, ".attn_q_b.weight"@);
    reveal_strlit("_kv_a_mqa.weight");
    reveal_strlit(".attn_kv_a_mqa.weight");
    assert(".attn"@ + "_kv_a_mqa.weight"@ =~= ".attn_kv_a_mqa.weight"@);
    lemma_suffix(layer, "_kv_a_mqa.weight"@, ".attn_kv_a_mqa.weight"@);
    reveal_strlit("_output.weight");
    reveal_strlit(".attn_output.weight");
    assert(".attn"@ + "_output.weight"@ =~= ".attn_output.weight"@);
    lemma_suffix(layer, "_output.weight"@, ".attn_output.weight"@);
}

/// A layer that was staged has its number, and in each field what the device made of the tensor
/// that the layer keeps under the name of that field.
pub proof fn staged_matrices_are_their_tensors<T, M, Stage: Fn(usize, usize, &Vec<T>) -> Option<M>>(
    stage: Stage,
    layer: Deepseek2AttentionLayerTensors<T>,
    resident: Deepseek2CudaResident2dAttention<M>,
)
    requires
        call_ensures(
            load_deepseek2_cuda_resident_2d_attention::<T, M, Stage>,
            (&stage, &layer),
            Ok(resident),
        ),
    ensures
        resident.layer == layer.layer,
        ({
            let name = evaluation_laws::name_of(layer.layer, ".attn_q_a.weight"@);
            let tensor = layer.tensors@[name];
            &&& layer.tensors@.contains_key(name)
            &&& tensor.dims@.len() == 2
            &&& (tensor.dims@[1] as usize) * (tensor.dims@[0] as usize) <= tensor.values@.len()
            &&& call_ensures(
                stage,
                (tensor.dims@[1] as usize, tensor.dims@[0] as usize, &tensor.values),
                Some(resident.q_a),
            )
        }),
        ({
            let name = evaluation_laws::name_of(layer.layer, ".attn_q_b.weight"@);
            let tensor = layer.tensors@[name];
            &&& layer.tensors@.contains_key(name)
            &&& tensor.dims@.len() == 2
            &&& (tensor.dims@[1] as usize) * (tensor.dims@[0] as usize) <= tensor.values@.len()
            &&& call_ensures(
                stage,
                (tensor.dims@[1] as usize, tensor.dims@[0] as usize, &tensor.values),
                Some(resident.q_b),
            )
        }),
        ({
            let name = evaluation_laws::name_of(layer.layer, ".attn_kv_a_mqa.weight"@);
            let tensor = layer.tensors@[name];
            &&& layer.tensors@.contains_key(name)
            &&& tensor.dims@.len() == 2
            &&& (tensor.dims@[1] as usize) * (tensor.dims@[0] as usize) <= tensor.values@.len()
            &&& call_ensures(
                stage,
                (tensor.dims@[1] as usize, tensor.dims@[0] as usize, &tensor.values),
                Some(resident.kv_a_mqa),
            )
        }),
        ({
            let name = evaluation_laws::name_of(layer.layer, ".attn_output.weight"@);
            let tensor = layer.tensors@[name];
            &&& layer.tensors@.contains_key(name)
            &&& tensor.dims@.len() == 2
            &&& (tensor.dims@[1] as usize) * (tensor.dims@[0] as usize) <= tensor.values@.len()
            &&& call_ensures(
                stage,
                (tensor.dims@[1] as usize, tensor.dims@[0] as usize, &tensor.values),
                Some(resident.output),
            )
        }),
{
    lemma_names(layer);
}

/// A layer that has its four matrices is staged by a device that takes every matrix.
pub proof fn whole_layers_are_staged<T, M, Stage: Fn(usize, usize, &Vec<T>) -> Option<M>>(
    stage: Stage,
    layer: Deepseek2AttentionLayerTensors<T>,
    result: Result<Deepseek2CudaResident2dAttention<M>, InferenceError>,
)
    requires
        call_ensures(
            load_deepseek2_cuda_resident_2d_attention::<T, M, Stage>,
            (&stage, &layer),
            result,
        ),
        forall|rows: usize, cols: usize, values: &Vec<T>|
            !(#[trigger] call_ensures(stage, (rows, cols, values), None::<M>)),
        layer.tensors@.contains_key(evaluation_laws::name_of(layer.layer, ".attn_q_a.weight"@)),
        is_whole_matrix(layer.tensors@[evaluation_laws::name_of(layer.layer, ".attn_q_a.weight"@)]),
        layer.tensors@.contains_key(evaluation_laws::name_of(layer.layer, ".attn_q_b.weight"@)),
        is_whole_matrix(layer.tensors@[evaluation_laws::name_of(layer.layer, ".attn_q_b.weight"@)]),
        layer.tensors@.contains_key(evaluation_laws::name_of(layer.layer,
            ".attn_kv_a_mqa.weight"@)),
        is_whole_matrix(layer.tensors@[evaluation_laws::name_of(layer.layer,
            ".attn_kv_a_mqa.weight"@)]),
        layer.tensors@.contains_key(evaluation_laws::name_of(layer.layer, ".attn_output.weight"@)),
        is_whole_matrix(layer.tensors@[evaluation_laws::name_of(layer.layer,
            ".attn_output.weight"@)]),
    ensures
        result is Ok,
{
    lemma_names(layer);
    lemma_whole_matrices_have_no_fault(layer.tensors@[evaluation_laws::name_of(layer.layer,
        ".attn_q_a.weight"@)]);
    lemma_whole_matrices_have_no_fault(layer.tensors@[evaluation_laws::name_of(layer.layer,
        ".attn_q_b.weight"@)]);
    lemma_whole_matrices_have_no_fault(layer.tensors@[evaluation_laws::name_of(layer.layer,
        ".attn_kv_a_mqa.weight"@)]);
    lemma_whole_matrices_have_no_fault(layer.tensors@[evaluation_laws::name_of(layer.layer,
        ".attn_output.weight"@)]);
    if let Err(error) = result {
        let i = choose|i: int|
            {
                &&& 0 <= i < cuda_resident::staged_suffixes().len()
                &&& cuda_resident::part_refused::<T, M, Stage>(
                    stage,
                    layer,
                    #[trigger] cuda_resident::staged_suffixes()[i],
                    error@,
                )
            };
        let tensor = deepseek2_mla::part(layer, cuda_resident::staged_suffixes()[i]);
        assert(cuda_resident::answers::<T, M, Stage>(stage, tensor, None));
    }
}

/// A device that can be asked about every matrix can be asked to stage every layer.
pub proof fn every_layer_can_be_asked_for<T, M, Stage: Fn(usize, usize, &Vec<T>) -> Option<M>>(
    stage: Stage,
    layer: Deepseek2AttentionLayerTensors<T>,
    tensor: LoadedGgufTensor<T>,
)
    requires
        forall|rows: usize, cols: usize, values: &Vec<T>|
            rows * cols <= values@.len() ==> #[trigger] call_requires(stage, (rows, cols, values)),
    ensures
        call_requires(resident_2d::<T, M, Stage>, (&stage, &tensor)),
        call_requires(
            load_deepseek2_cuda_resident_2d_attention::<T, M, Stage>,
            (&stage, &layer),
        ),
{
}

/// A staged layer keeps as many matrices on the device as it has fields for them.
pub proof fn staged_layers_count_their_matrices<M>(
    resident: Deepseek2CudaResident2dAttention<M>,
    count: usize,
)
    requires
        call_ensures(
            Deepseek2CudaResident2dAttention::<M>::resident_matrix_count,
            (&resident,),
            count,
        ),
    ensures
        count == seq![resident.q_a, resident.q_b, resident.kv_a_mqa, resident.output].len(),
{
}

/// The device can only take the matrix of `tensor`.
pub open spec fn is_taken<T, M, Stage: Fn(usize, usize, &Vec<T>) -> Option<M>>(
    stage: Stage,
    tensor: LoadedGgufTensor<T>,
) -> bool {
    &&& is_whole_matrix(tensor)
    &&& !call_ensures(
        stage,
        (tensor.dims@[1] as usize, tensor.dims@[0] as usize, &tensor.values),
        None::<M>,
    )
}

/// The device can only refuse the matrix of `tensor`.
pub open spec fn is_turned_down<T, M, Stage: Fn(usize, usize, &Vec<T>) -> Option<M>>(
    stage: Stage,
    tensor: LoadedGgufTensor<T>,
) -> bool {
    &&& is_whole_matrix(tensor)
    &&& forall|matrix: M|
        !(#[trigger] call_ensures(
            stage,
            (tensor.dims@[1] as usize, tensor.dims@[0] as usize, &tensor.values),
            Some(matrix),
        ))
}

/// The first of the four matrices that the device turns down, or that is none, is named, if those
/// before it are taken: matrices are staged in this order, until one is refused.
pub proof fn first_refused_matrix_is_named<T, M, Stage: Fn(usize, usize, &Vec<T>) -> Option<M>>(
    stage: Stage,
    layer: Deepseek2AttentionLayerTensors<T>,
    result: Result<Deepseek2CudaResident2dAttention<M>, InferenceError>,
)
    requires
        call_ensures(
            load_deepseek2_cuda_resident_2d_attention::<T, M, Stage>,
            (&stage, &layer),
            result,
        ),
    ensures
        ({
            &&& layer.tensors@.contains_key(evaluation_laws::name_of(layer.layer,
                ".attn_q_a.weight"@))
        }) ==> {
            let tensor = layer.tensors@[evaluation_laws::name_of(layer.layer, ".attn_q_a.weight"@)];
            &&& is_turned_down::<T, M, Stage>(stage, tensor) ==> (result matches Err(
                InferenceError::Parse(message),
            ) && message@ == "failed to stage "@ + tensor.name@ + " as CUDA-resident f32 matrix"@)
            &&& tensor.dims@.len() != 2 ==> (result matches Err(InferenceError::Parse(message))
                && message@ == tensor.name@ + " rank "@ + text::decimal(tensor.dims@.len())
                + " != expected "@ + text::decimal(2))
        },
        ({
            &&& !layer.tensors@.contains_key(evaluation_laws::name_of(layer.layer,
                ".attn_q_a.weight"@))
        }) ==> (result matches Err(InferenceError::MissingTensor(name))
            && name@ == evaluation_laws::name_of(layer.layer, ".attn_q_a.weight"@)),
        ({
            &&& layer.tensors@.contains_key(evaluation_laws::name_of(layer.layer,
                ".attn_q_a.weight"@))
            &&& is_taken::<T, M, Stage>(stage, layer.tensors@[evaluation_laws::name_of(layer.layer,
                ".attn_q_a.weight"@)])
            &&& layer.tensors@.contains_key(evaluation_laws::name_of(layer.layer,
                ".attn_q_b.weight"@))
        }) ==> {
            let tensor = layer.tensors@[evaluation_laws::name_of(layer.layer, ".attn_q_b.weight"@)];
            &&& is_turned_down::<T, M, Stage>(stage, tensor) ==> (result matches Err(
                InferenceError::Parse(message),
            ) && message@ == "failed to stage "@ + tensor.name@ + " as CUDA-resident f32 matrix"@)
            &&& tensor.dims@.len() != 2 ==> (result matches Err(InferenceError::Parse(message))
                && message@ == tensor.name@ + " rank "@ + text::decimal(tensor.dims@.len())
                + " != expected "@ + text::decimal(2))
        },
        ({
            &&& layer.tensors@.contains_key(evaluation_laws::name_of(layer.layer,
                ".attn_q_a.weight"@))
            &&& is_taken::<T, M, Stage>(stage, layer.tensors@[evaluation_laws::name_of(layer.layer,
                ".attn_q_a.weight"@)])
            &&& !layer.tensors@.contains_key(evaluation_laws::name_of(layer.layer,
                ".attn_q_b.weight"@))
        }) ==> (result matches Err(InferenceError::MissingTensor(name))
            && name@ == evaluation_laws::name_of(layer.layer, ".attn_q_b.weight"@)),
        ({
            &&& layer.tensors@.contains_key(evaluation_laws::name_of(layer.layer,
                ".attn_q_a.weight"@))
            &&& is_taken::<T, M, Stage>(stage, layer.tensors@[evaluation_laws::name_of(layer.layer,
                ".attn_q_a.weight"@)])
            &&& layer.tensors@.contains_key(evaluation_laws::name_of(layer.layer,
                ".attn_q_b.weight"@))
            &&& is_taken::<T, M, Stage>(stage, layer.tensors@[evaluation_laws::name_of(layer.layer,
                ".attn_q_b.weight"@)])
            &&& layer.tensors@.contains_key(evaluation_laws::name_of(layer.layer,
                ".attn_kv_a_mqa.weight"@))
        }) ==> {
            let tensor = layer.tensors@[evaluation_laws::name_of(layer.layer,
                ".attn_kv_a_mqa.weight"@)];
            &&& is_turned_down::<T, M, Stage>(stage, tensor) ==> (result matches Err(
                InferenceError::Parse(message),
            ) && message@ == "failed to stage "@ + tensor.name@ + " as CUDA-resident f32 matrix"@)
            &&& tensor.dims@.len() != 2 ==> (result matches Err(InferenceError::Parse(message))
                && message@ == tensor.name@ + " rank "@ + text::decimal(tensor.dims@.len())
                + " != expected "@ + text::decimal(2))
        },
        ({
            &&& layer.tensors@.contains_key(evaluation_laws::name_of(layer.layer,
                ".attn_q_a.weight"@))
            &&& is_taken::<T, M, Stage>(stage, layer.tensors@[evaluation_laws::name_of(layer.layer,
                ".attn_q_a.weight"@)])
            &&& layer.tensors@.contains_key(evaluation_laws::name_of(layer.layer,
                ".attn_q_b.weight"@))
            &&& is_taken::<T, M, Stage>(stage, layer.tensors@[evaluation_laws::name_of(layer.layer,
                ".attn_q_b.weight"@)])
            &&& !layer.tensors@.contains_key(evaluation_laws::name_of(layer.layer,
                ".attn_kv_a_mqa.weight"@))
        }) ==> (result matches Err(InferenceError::MissingTensor(name))
            && name@ == evaluation_laws::name_of(layer.layer, ".attn_kv_a_mqa.weight"@)),
        ({
            &&& layer.tensors@.contains_key(evaluation_laws::name_of(layer.layer,
                ".attn_q_a.weight"@))
            &&& is_taken::<T, M, Stage>(stage, layer.tensors@[evaluation_laws::name_of(layer.layer,
                ".attn_q_a.weight"@)])
            &&& layer.tensors@.contains_key(evaluation_laws::name_of(layer.layer,
                ".attn_q_b.weight"@))
            &&& is_taken::<T, M, Stage>(stage, layer.tensors@[evaluation_laws::name_of(layer.layer,
                ".attn_q_b.weight"@)])
            &&& layer.tensors@.contains_key(evaluation_laws::name_of(layer.layer,
                ".attn_kv_a_mqa.weight"@))
            &&& is_taken::<T, M, Stage>(stage, layer.tensors@[evaluation_laws::name_of(layer.layer,
                ".attn_kv_a_mqa.weight"@)])
            &&& layer.tensors@.contains_key(evaluation_laws::name_of(layer.layer,
                ".attn_output.weight"@))
        }) ==> {
            let tensor = layer.tensors@[evaluation_laws::name_of(layer.layer,
                ".attn_output.weight"@)];
            &&& is_turned_down::<T, M, Stage>(stage, tensor) ==> (result matches Err(
                InferenceError::Parse(message),
            ) && message@ == "failed to stage "@ + tensor.name@ + " as CUDA-resident f32 matrix"@)
            &&& tensor.dims@.len() != 2 ==> (result matches Err(InferenceError::Parse(message))
                && message@ == tensor.name@ + " rank "@ + text::decimal(tensor.dims@.len())
                + " != expected "@ + text::decimal(2))
        },
        ({
            &&& layer.tensors@.contains_key(evaluation_laws::name_of(layer.layer,
                ".attn_q_a.weight"@))
            &&& is_taken::<T, M, Stage>(stage, layer.tensors@[evaluation_laws::name_of(layer.layer,
                ".attn_q_a.weight"@)])
            &&& layer.tensors@.contains_key(evaluation_laws::name_of(layer.layer,
                ".attn_q_b.weight"@))
            &&& is_taken::<T, M, Stage>(stage, layer.tensors@[evaluation_laws::name_of(layer.layer,
                ".attn_q_b.weight"@)])
            &&& layer.tensors@.contains_key(evaluation_laws::name_of(layer.layer,
                ".attn_kv_a_mqa.weight"@))
            &&& is_taken::<T, M, Stage>(stage, layer.tensors@[evaluation_laws::name_of(layer.layer,
                ".attn_kv_a_mqa.weight"@)])
            &&& !layer.tensors@.contains_key(evaluation_laws::name_of(layer.layer,
                ".attn_output.weight"@))
        }) ==> (result matches Err(InferenceError::MissingTensor(name))
            && name@ == evaluation_laws::name_of(layer.layer, ".attn_output.weight"@)),
{
    lemma_names(layer);
    if is_whole_matrix(layer.tensors@[evaluation_laws::name_of(layer.layer, ".attn_q_a.weight"@)]) {
        lemma_whole_matrices_have_no_fault(
            layer.tensors@[evaluation_laws::name_of(layer.layer, ".attn_q_a.weight"@)],
        );
    }
    if is_whole_matrix(layer.tensors@[evaluation_laws::name_of(layer.layer, ".attn_q_b.weight"@)]) {
        lemma_whole_matrices_have_no_fault(
            layer.tensors@[evaluation_laws::name_of(layer.layer, ".attn_q_b.weight"@)],
        );
    }
    if is_whole_matrix(layer.tensors@[evaluation_laws::name_of(layer.layer,
        ".attn_kv_a_mqa.weight"@)]) {
        lemma_whole_matrices_have_no_fault(
            layer.tensors@[evaluation_laws::name_of(layer.layer, ".attn_kv_a_mqa.weight"@)],
        );
    }
    if is_whole_matrix(layer.tensors@[evaluation_laws::name_of(layer.layer,
        ".attn_output.weight"@)]) {
        lemma_whole_matrices_have_no_fault(
            layer.tensors@[evaluation_laws::name_of(layer.layer, ".attn_output.weight"@)],
        );
    }
    assert(cuda_resident::staged_suffixes()[0] == "_q_a.weight"@);
    assert(cuda_resident::staged_suffixes()[1] == "_q_b.weight"@);
    assert(cuda_resident::staged_suffixes()[2] == "_kv_a_mqa.weight"@);
    assert(cuda_resident::staged_suffixes()[3] == "_output.weight"@);
    if let Err(error) = result {
        let i = choose|i: int|
            {
                &&& 0 <= i < cuda_resident::staged_suffixes().len()
                &&& cuda_resident::part_refused::<T, M, Stage>(
                    stage,
                    layer,
                    #[trigger] cuda_resident::staged_suffixes()[i],
                    error@,
                )
                &&& forall|k: int|
                    0 <= k < i ==> exists|matrix: M|
                        cuda_resident::part_resides(
                            stage,
                            layer,
                            #[trigger] cuda_resident::staged_suffixes()[k],
                            matrix,
                        )
            };
        assert(forall|k: int|
            0 <= k < i ==> exists|matrix: M|
                cuda_resident::part_resides(
                    stage,
                    layer,
                    #[trigger] cuda_resident::staged_suffixes()[k],
                    matrix,
                ));
    }
}

} // verus!
