use larql_inference::attention::cuda_resident::{
    load_deepseek2_cuda_resident_2d_attention, resident_2d,
};
use larql_inference::error::InferenceError;
use larql_inference::tensor::{Deepseek2AttentionLayerTensors, LoadedGgufTensor};

type Matrix = (usize, usize, Vec<i32>);

fn tensor(name: &str, dims: Vec<u64>, values: Vec<i32>) -> LoadedGgufTensor<i32> {
    LoadedGgufTensor {
        name: name.to_string(),
        dims,
        tensor_type: 0,
        values,
    }
}

fn keep(rows: usize, cols: usize, values: &Vec<i32>) -> Option<Matrix> {
    Some((rows, cols, values.clone()))
}

fn refuse(_rows: usize, _cols: usize, _values: &Vec<i32>) -> Option<Matrix> {
    None
}

fn message<T>(result: Result<T, InferenceError>) -> String {
    match result {
        Err(InferenceError::Parse(text)) => text,
        _ => panic!("expected a parse error"),
    }
}

fn layer() -> Deepseek2AttentionLayerTensors<i32> {
    let mut layer = Deepseek2AttentionLayerTensors::new(3);
    for (name, dims, values) in [
        ("blk.3.attn_q_a.weight", vec![2, 1], vec![1, 2]),
        ("blk.3.attn_q_b.weight", vec![1, 2], vec![3, 4]),
        ("blk.3.attn_kv_a_mqa.weight", vec![2, 2], vec![5, 6, 7, 8]),
        ("blk.3.attn_output.weight", vec![1, 1], vec![9]),
    ] {
        layer.insert(name.to_string(), tensor(name, dims, values));
    }
    layer
}

#[test]
fn matrices_of_a_layer_are_staged() {
    let resident = load_deepseek2_cuda_resident_2d_attention(&keep, &layer()).unwrap();
    assert_eq!(resident.layer, 3);
    assert_eq!(resident.resident_matrix_count(), 4);
    assert_eq!(resident.q_a, (1, 2, vec![1, 2]));
    assert_eq!(resident.q_b, (2, 1, vec![3, 4]));
    assert_eq!(resident.kv_a_mqa, (2, 2, vec![5, 6, 7, 8]));
    assert_eq!(resident.output, (1, 1, vec![9]));
}

#[test]
fn missing_matrix_is_named() {
    let empty: Deepseek2AttentionLayerTensors<i32> = Deepseek2AttentionLayerTensors::new(3);
    assert_eq!(
        load_deepseek2_cuda_resident_2d_attention(&keep, &empty).err(),
        Some(InferenceError::MissingTensor("blk.3.attn_q_a.weight".to_string()))
    );
}

#[test]
fn first_refusal_is_reported() {
    let mut partial = Deepseek2AttentionLayerTensors::new(3);
    let name = "blk.3.attn_q_a.weight";
    partial.insert(name.to_string(), tensor(name, vec![2, 1], vec![1, 2]));
    assert_eq!(
        message(load_deepseek2_cuda_resident_2d_attention(&refuse, &partial)),
        "failed to stage blk.3.attn_q_a.weight as CUDA-resident f32 matrix"
    );
    assert_eq!(
        load_deepseek2_cuda_resident_2d_attention(&keep, &partial).err(),
        Some(InferenceError::MissingTensor("blk.3.attn_q_b.weight".to_string()))
    );
}

#[test]
fn only_matrices_are_staged() {
    assert_eq!(
        message(resident_2d(&keep, &tensor("t", vec![2], vec![1, 2]))),
        "t rank 1 != expected 2"
    );
}

#[test]
fn too_few_values_are_refused() {
    assert_eq!(
        message(resident_2d(&keep, &tensor("t", vec![3, 2], vec![1; 5]))),
        "t cannot be viewed as row-major [2,3]: ShapeError/OutOfBounds: out of bounds indexing"
    );
    assert_eq!(
        resident_2d(&keep, &tensor("t", vec![3, 2], vec![1; 7])),
        Ok((2, 3, vec![1; 7]))
    );
}

#[test]
fn immense_matrices_are_refused() {
    let half = 1u64 << 62;
    assert_eq!(
        message(resident_2d(&keep, &tensor("t", vec![half, 2], vec![1]))),
        "t cannot be viewed as row-major [2,4611686018427387904]: ShapeError/Overflow: arithmetic overflow"
    );
    assert_eq!(
        message(resident_2d(&keep, &tensor("t", vec![0, u64::MAX], vec![]))),
        "t cannot be viewed as row-major [18446744073709551615,0]: ShapeError/Overflow: arithmetic overflow"
    );
}

#[test]
fn empty_matrices_are_staged() {
    assert_eq!(
        resident_2d(&keep, &tensor("t", vec![0, 4], vec![])),
        Ok((4, 0, vec![]))
    );
    assert_eq!(
        resident_2d(&keep, &tensor("t", vec![4, 0], vec![])),
        Ok((0, 4, vec![]))
    );
}
