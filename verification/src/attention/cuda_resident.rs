//! Staging the matrices of one attention layer on a device.

use vstd::prelude::*;
use vstd::string::*;

use crate::attention::deepseek2_mla;
use crate::attention::deepseek2_mla::required_part;
use crate::error;
use crate::error::{Fault, InferenceError};
use crate::tensor;
use crate::tensor::{expect_rank, Deepseek2AttentionLayerTensors, LoadedGgufTensor};
use crate::text;
use crate::text::decimal_text;

verus! {

/// The matrices of one layer, as a device holds them.
pub struct Deepseek2CudaResident2dAttention<M> {
    pub layer: usize,
    pub q_a: M,
    pub q_b: M,
    pub kv_a_mqa: M,
    pub output: M,
}

impl<M> Deepseek2CudaResident2dAttention<M> {
    /// How many matrices a layer keeps on the device.
    pub fn resident_matrix_count(&self) -> (count: usize)
        ensures
            count == 4,
    {
        4
    }
}

/// The axis length as it counts where an empty matrix is measured: one for an empty axis.
pub open spec fn at_least_one(axis: usize) -> int {
    if axis == 0 {
        1
    } else {
        axis as int
    }
}

/// Why `len` values cannot be read as `rows` rows of `cols` values each, in the words of `ndarray`:
/// the axes that are not empty measure more than `isize::MAX` together, or there are too few
/// values. Values that are left over do no harm.
pub open spec fn row_major_fault(rows: usize, cols: usize, len: nat) -> Option<Seq<char>> {
    if at_least_one(rows) * at_least_one(cols) > isize::MAX {
        Some("ShapeError/Overflow: arithmetic overflow"@)
    } else if rows * cols > len {
        Some("ShapeError/OutOfBounds: out of bounds indexing"@)
    } else {
        None
    }
}

/// Calls `ndarray::ArrayView2::from_shape` on `(rows, cols)` and `values`, and gives the text of
/// the error where it refuses. Claimed of it: it refuses exactly where `row_major_fault` says so,
/// and `row_major_fault` is what its `ShapeError` displays.
#[verifier::external_body]
fn row_major_error<T>(rows: usize, cols: usize, values: &Vec<T>) -> (refused: Option<String>)
    ensures
        match refused {
            Some(words) => row_major_fault(rows, cols, values@.len()) == Some(words@),
            None => row_major_fault(rows, cols, values@.len()) is None,
        },
{
    match ndarray::ArrayView2::from_shape((rows, cols), values.as_slice()) {
        Ok(_) => None,
        Err(err) => Some(err.to_string()),
    }
}

/// What is wrong with a tensor that is to be read as a matrix.
pub open spec fn view_fault<T>(tensor: LoadedGgufTensor<T>) -> Option<Fault> {
    error::earlier(
        tensor::rank_fault(tensor, 2),
        match row_major_fault(tensor.dim(1), tensor.dim(0), tensor.values@.len()) {
            Some(words) => Some(
                Fault::Parse(
                    tensor.name@ + " cannot be viewed as row-major ["@ + text::decimal(
                        tensor.dim(1) as nat,
                    ) + ","@ + text::decimal(tensor.dim(0) as nat) + "]: "@ + words,
                ),
            ),
            None => None,
        },
    )
}

/// What is reported where the device does not take the matrix of `tensor`.
pub open spec fn staging_fault<T>(tensor: LoadedGgufTensor<T>) -> Fault {
    Fault::Parse("failed to stage "@ + tensor.name@ + " as CUDA-resident f32 matrix"@)
}

/// `stage` can be called on every matrix: on a number of rows, on their width, and on at least as
/// many values as they hold.
pub open spec fn stages_all<T, M, Stage: Fn(usize, usize, &Vec<T>) -> Option<M>>(
    stage: Stage,
) -> bool {
    forall|rows: usize, cols: usize, values: &Vec<T>|
        rows * cols <= values@.len() ==> #[trigger] call_requires(stage, (rows, cols, values))
}

/// `stage` may answer the matrix of `tensor` with `answer`.
pub open spec fn answers<T, M, Stage: Fn(usize, usize, &Vec<T>) -> Option<M>>(
    stage: Stage,
    tensor: LoadedGgufTensor<T>,
    answer: Option<M>,
) -> bool {
    call_ensures(stage, (tensor.dim(1), tensor.dim(0), &tensor.values), answer)
}

/// `matrix` is what `stage` made of the matrix that `tensor` holds.
pub open spec fn resides<T, M, Stage: Fn(usize, usize, &Vec<T>) -> Option<M>>(
    stage: Stage,
    tensor: LoadedGgufTensor<T>,
    matrix: M,
) -> bool {
    view_fault(tensor) is None && answers(stage, tensor, Some(matrix))
}

/// `fault` is why `tensor` was not staged: it is no matrix, or `stage` did not take it.
pub open spec fn refuses<T, M, Stage: Fn(usize, usize, &Vec<T>) -> Option<M>>(
    stage: Stage,
    tensor: LoadedGgufTensor<T>,
    fault: Fault,
) -> bool {
    match view_fault(tensor) {
        Some(found) => fault == found,
        None => fault == staging_fault(tensor) && answers(stage, tensor, None),
    }
}

/// Stages the matrix that a tensor holds. Its first dimension is the width of its rows, the second
/// their number.
pub fn resident_2d<T, M, Stage: Fn(usize, usize, &Vec<T>) -> Option<M>>(
    stage: &Stage,
    tensor: &LoadedGgufTensor<T>,
) -> (result: Result<M, InferenceError>)
    requires
        stages_all::<T, M, Stage>(*stage),
    ensures
        match result {
            Ok(matrix) => resides(*stage, *tensor, matrix),
            Err(error) => refuses(*stage, *tensor, error@),
        },
{
    expect_rank(tensor, 2)?;
    let cols: usize = tensor.dims[0] as usize;
    let rows: usize = tensor.dims[1] as usize;
    match row_major_error(rows, cols, &tensor.values) {
        Some(words) => {
            let mut message = tensor.name.clone();
            message.append(" cannot be viewed as row-major [");
            message.append(decimal_text(rows).as_str());
            message.append(",");
            message.append(decimal_text(cols).as_str());
            message.append("]: ");
            message.append(words.as_str());
            return Err(InferenceError::Parse(message));
        },
        None => {},
    }
    match stage(rows, cols, &tensor.values) {
        Some(matrix) => Ok(matrix),
        None => {
            let mut message = "failed to stage ".to_owned();
            message.append(tensor.name.as_str());
            message.append(" as CUDA-resident f32 matrix");
            Err(InferenceError::Parse(message))
        },
    }
}

/// The tensor whose name ends in `suffix` is there and `matrix` is what `stage` made of it.
pub open spec fn part_resides<T, M, Stage: Fn(usize, usize, &Vec<T>) -> Option<M>>(
    stage: Stage,
    layer: Deepseek2AttentionLayerTensors<T>,
    suffix: Seq<char>,
    matrix: M,
) -> bool {
    &&& deepseek2_mla::missing_fault(layer, suffix) is None
    &&& resides(stage, deepseek2_mla::part(layer, suffix), matrix)
}

/// `fault` is why the tensor whose name ends in `suffix` was not staged: it is not there, it is no
/// matrix, or `stage` did not take it.
pub open spec fn part_refused<T, M, Stage: Fn(usize, usize, &Vec<T>) -> Option<M>>(
    stage: Stage,
    layer: Deepseek2AttentionLayerTensors<T>,
    suffix: Seq<char>,
    fault: Fault,
) -> bool {
    match deepseek2_mla::missing_fault(layer, suffix) {
        Some(found) => fault == found,
        None => refuses(stage, deepseek2_mla::part(layer, suffix), fault),
    }
}

/// The suffixes of the names of the matrices that are staged, in the order in which they are.
pub open spec fn staged_suffixes() -> Seq<Seq<char>> {
    seq!["_q_a.weight"@, "_q_b.weight"@, "_kv_a_mqa.weight"@, "_output.weight"@]
}

/// `fault` is why the layer was not staged: for one of its matrices, where all matrices before it
/// were taken.
pub open spec fn layer_refused<T, M, Stage: Fn(usize, usize, &Vec<T>) -> Option<M>>(
    stage: Stage,
    layer: Deepseek2AttentionLayerTensors<T>,
    fault: Fault,
) -> bool {
    exists|i: int|
        {
            &&& 0 <= i < staged_suffixes().len()
            &&& part_refused(stage, layer, #[trigger] staged_suffixes()[i], fault)
            &&& forall|k: int|
                0 <= k < i ==> exists|matrix: M|
                    part_resides(stage, layer, #[trigger] staged_suffixes()[k], matrix)
        }
}

/// A layer that has the whole MLA family has every matrix that is staged.
pub proof fn family_has_the_staged_matrices<T>(layer: Deepseek2AttentionLayerTensors<T>, i: int)
    requires
        deepseek2_mla::family_fault(layer) is None,
        0 <= i < staged_suffixes().len(),
    ensures
        deepseek2_mla::missing_fault(layer, staged_suffixes()[i]) is None,
{
}

fn resident_part<T, M, Stage: Fn(usize, usize, &Vec<T>) -> Option<M>>(
    stage: &Stage,
    layer: &Deepseek2AttentionLayerTensors<T>,
    suffix: &str,
) -> (result: Result<M, InferenceError>)
    requires
        stages_all::<T, M, Stage>(*stage),
    ensures
        match result {
            Ok(matrix) => part_resides(*stage, *layer, suffix@, matrix),
            Err(error) => part_refused(*stage, *layer, suffix@, error@),
        },
{
    resident_2d(stage, required_part(layer, suffix)?)
}

/// Stages the matrices of a layer, one after the other, until one is refused.
pub fn load_deepseek2_cuda_resident_2d_attention<
    T,
    M,
    Stage: Fn(usize, usize, &Vec<T>) -> Option<M>,
>(stage: &Stage, layer: &Deepseek2AttentionLayerTensors<T>) -> (result: Result<
    Deepseek2CudaResident2dAttention<M>,
    InferenceError,
>)
    requires
        stages_all::<T, M, Stage>(*stage),
    ensures
        match result {
            Ok(resident) => {
                &&& resident.layer == layer.layer
                &&& part_resides(*stage, *layer, "_q_a.weight"@, resident.q_a)
                &&& part_resides(*stage, *layer, "_q_b.weight"@, resident.q_b)
                &&& part_resides(*stage, *layer, "_kv_a_mqa.weight"@, resident.kv_a_mqa)
                &&& part_resides(*stage, *layer, "_output.weight"@, resident.output)
            },
            Err(error) => layer_refused(*stage, *layer, error@),
        },
{
    let ghost names = staged_suffixes();
    assert(names[0] == "_q_a.weight"@ && names[1] == "_q_b.weight"@ && names[2]
        == "_kv_a_mqa.weight"@ && names[3] == "_output.weight"@);
    let q_a = resident_part(stage, layer, "_q_a.weight")?;
    let q_b = resident_part(stage, layer, "_q_b.weight")?;
    let kv_a_mqa = resident_part(stage, layer, "_kv_a_mqa.weight")?;
    let output = resident_part(stage, layer, "_output.weight")?;
    Ok(Deepseek2CudaResident2dAttention { layer: layer.layer, q_a, q_b, kv_a_mqa, output })
}

} // verus!
