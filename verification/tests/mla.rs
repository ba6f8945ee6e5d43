use larql_inference::arithmetic::Arithmetic;
use larql_inference::attention::deepseek2_mla::{
    deepseek2_mla_single_token_cpu, required, score_heads, token_is_computable,
};
use larql_inference::attention::kernels::{matvec_2d, matvec_3d_heads, rms_norm};
use larql_inference::attention::mla_shape::{
    infer_shape, shape_is_computable, Deepseek2MlaShape,
};
use larql_inference::error::InferenceError;
use larql_inference::tensor::{
    expect_rank, Deepseek2AttentionLayerTensors, LoadedGgufTensor,
};

const TYPE_F32: u32 = 0;

fn f32_ops() -> Arithmetic<
    f32,
    impl Fn(f32, f32) -> f32,
    impl Fn(f32, f32) -> f32,
    impl Fn(f32, usize) -> f32,
> {
    Arithmetic {
        zero: 0.0f32,
        empty_sum: [].iter().sum::<f32>(),
        mul: |a: f32, b: f32| a * b,
        add: |a: f32, b: f32| a + b,
        inv_rms: |squares: f32, n: usize| (squares / n as f32 + 1e-6).sqrt().recip(),
    }
}

/// Whole numbers, with a scale that is the number of values.
fn whole_ops() -> Arithmetic<
    i64,
    impl Fn(i64, i64) -> i64,
    impl Fn(i64, i64) -> i64,
    impl Fn(i64, usize) -> i64,
> {
    Arithmetic {
        zero: 0,
        empty_sum: 0,
        mul: |a: i64, b: i64| a * b,
        add: |a: i64, b: i64| a + b,
        inv_rms: |_squares: i64, n: usize| n as i64,
    }
}

fn tensor<T>(name: &str, dims: Vec<u64>, values: Vec<T>) -> LoadedGgufTensor<T> {
    LoadedGgufTensor {
        name: name.to_string(),
        dims,
        tensor_type: TYPE_F32,
        values,
    }
}

fn layer_of<T>(tensors: Vec<LoadedGgufTensor<T>>) -> Deepseek2AttentionLayerTensors<T> {
    let mut layer = Deepseek2AttentionLayerTensors::new(0);
    for tensor in tensors {
        layer.insert(tensor.name.clone(), tensor);
    }
    layer
}

fn parse_error<T>(message: &str) -> Result<T, InferenceError> {
    Err(InferenceError::Parse(message.to_string()))
}

/// Two heads, hidden width 2, query rank 1, kv rank 2, nope 1, rope 1, value width 3.
fn whole_layer() -> Vec<LoadedGgufTensor<i64>> {
    vec![
        tensor("blk.0.attn_q_a.weight", vec![2, 1], vec![1, 1]),
        tensor("blk.0.attn_q_a_norm.weight", vec![1], vec![1]),
        tensor("blk.0.attn_q_b.weight", vec![1, 4], vec![1, 2, 3, 4]),
        tensor(
            "blk.0.attn_kv_a_mqa.weight",
            vec![2, 3],
            vec![1, 0, 0, 1, 5, 6],
        ),
        tensor("blk.0.attn_kv_a_norm.weight", vec![2], vec![1, 10]),
        tensor("blk.0.attn_k_b.weight", vec![1, 2, 2], vec![1, 2, 3, 4]),
        tensor(
            "blk.0.attn_v_b.weight",
            vec![2, 3, 2],
            vec![1, 0, 0, 1, 1, 1, 2, 0, 0, 2, 2, 2],
        ),
        tensor(
            "blk.0.attn_output.weight",
            vec![6, 2],
            vec![1, 0, 0, 0, 0, 0, 0, 0, 0, 0, 0, 1],
        ),
    ]
}

fn replaced(name: &str, with: LoadedGgufTensor<i64>) -> Deepseek2AttentionLayerTensors<i64> {
    let mut layer = layer_of(whole_layer());
    layer.insert(name.to_string(), with);
    layer
}

#[test]
fn deepseek2_mla_single_token_cpu_runs_tiny_layer() {
    let layer = layer_of(vec![
        tensor("blk.0.attn_norm.weight", vec![2], vec![1.0, 1.0]),
        tensor("blk.0.attn_q_a.weight", vec![2, 1], vec![1.0, 0.0]),
        tensor("blk.0.attn_q_a_norm.weight", vec![1], vec![1.0]),
        tensor("blk.0.attn_q_b.weight", vec![1, 2], vec![1.0, 1.0]),
        tensor(
            "blk.0.attn_kv_a_mqa.weight",
            vec![2, 2],
            vec![1.0, 0.0, 0.0, 1.0],
        ),
        tensor("blk.0.attn_kv_a_norm.weight", vec![1], vec![1.0]),
        tensor("blk.0.attn_k_b.weight", vec![1, 1, 1], vec![1.0]),
        tensor("blk.0.attn_v_b.weight", vec![1, 1, 1], vec![2.0]),
        tensor("blk.0.attn_output.weight", vec![1, 2], vec![3.0, 4.0]),
    ]);

    let out = deepseek2_mla_single_token_cpu(&f32_ops(), &layer, &[2.0, 0.0]).unwrap();
    assert_eq!(out.len(), 2);
    assert!(out.iter().all(|value| value.is_finite()));
    assert!(out[0] > 0.0);
    assert!(out[1] > out[0]);
}

#[test]
fn evaluation_of_whole_numbers_is_exact() {
    let layer = layer_of(whole_layer());
    assert!(token_is_computable(&layer, 2));
    // kv = [3, 4, 39], latent = [3 * 2 * 1, 4 * 2 * 10] = [6, 80],
    // values = [6, 80, 86, 12, 160, 172].
    let out = deepseek2_mla_single_token_cpu(&whole_ops(), &layer, &[3, 4]);
    assert_eq!(out, Ok(vec![6, 172]));
}

#[test]
fn input_is_normalized_where_there_are_weights() {
    let mut tensors = whole_layer();
    tensors.push(tensor("blk.0.attn_norm.weight", vec![2], vec![1, 3]));
    // The hidden state becomes [3 * 2 * 1, 4 * 2 * 3] = [6, 24], the latent vector [12, 480].
    let out = deepseek2_mla_single_token_cpu(&whole_ops(), &layer_of(tensors), &[3, 4]);
    assert_eq!(out, Ok(vec![12, 984]));
}

#[test]
fn queries_keys_and_experts_do_not_change_the_output() {
    let mut layer = layer_of(whole_layer());
    for (name, dims, values) in [
        ("blk.0.attn_q_a.weight", vec![2, 1], vec![7, -9]),
        ("blk.0.attn_q_a_norm.weight", vec![1], vec![5]),
        ("blk.0.attn_q_b.weight", vec![1, 4], vec![0, 8, -3, 1]),
        ("blk.0.attn_k_b.weight", vec![1, 2, 2], vec![9, 9, 9, 9]),
        ("blk.0.ffn_gate_exps.weight", vec![1], vec![4]),
    ] {
        layer.insert(name.to_string(), tensor(name, dims, values));
    }
    let out = deepseek2_mla_single_token_cpu(&whole_ops(), &layer, &[3, 4]);
    assert_eq!(out, Ok(vec![6, 172]));
}

#[test]
fn rows_for_keys_with_position_do_not_change_the_output() {
    let name = "blk.0.attn_kv_a_mqa.weight";
    let other = replaced(name, tensor(name, vec![2, 3], vec![1, 0, 0, 1, 100, -7]));
    let out = deepseek2_mla_single_token_cpu(&whole_ops(), &other, &[3, 4]);
    assert_eq!(out, Ok(vec![6, 172]));
    // The rows before them make the latent vector.
    let other = replaced(name, tensor(name, vec![2, 3], vec![1, 0, 0, 2, 5, 6]));
    let out = deepseek2_mla_single_token_cpu(&whole_ops(), &other, &[3, 4]);
    assert_eq!(out, Ok(vec![6, 332]));
}

#[test]
fn input_norm_comes_first() {
    let weights = vec![1, 3];
    let mut tensors = whole_layer();
    tensors.push(tensor("blk.0.attn_norm.weight", vec![2], weights.clone()));
    let with_norm = layer_of(tensors);
    let without = layer_of(whole_layer());
    for hidden in [[3, 4], [0, 0], [-5, 2]] {
        let normed = rms_norm(&whole_ops(), &hidden, &weights).unwrap();
        assert_eq!(
            deepseek2_mla_single_token_cpu(&whole_ops(), &with_norm, &hidden),
            deepseek2_mla_single_token_cpu(&whole_ops(), &without, &normed)
        );
    }
    let normed = rms_norm(&whole_ops(), &[3, 4], &weights).unwrap();
    assert_eq!(normed, vec![6, 24]);
    assert_eq!(
        deepseek2_mla_single_token_cpu(&whole_ops(), &without, &normed),
        Ok(vec![12, 984])
    );
}

#[test]
fn refusals_go_by_form() {
    let layer = layer_of(whole_layer());
    let mut doubled = layer_of(whole_layer());
    for mut tensor in whole_layer() {
        for value in tensor.values.iter_mut() {
            *value *= 2;
        }
        doubled.insert(tensor.name.clone(), tensor);
    }
    for width in 0..4usize {
        assert_eq!(
            token_is_computable(&layer, width),
            token_is_computable(&doubled, width)
        );
        let hidden = vec![1; width];
        assert_eq!(
            deepseek2_mla_single_token_cpu(&whole_ops(), &layer, &hidden).err(),
            deepseek2_mla_single_token_cpu(&whole_ops(), &doubled, &hidden).err()
        );
    }
}

#[test]
fn each_missing_tensor_is_named() {
    let count = whole_layer().len();
    for missing in 0..count {
        let mut tensors = whole_layer();
        let name = tensors.remove(missing).name;
        let layer = layer_of(tensors);
        assert!(token_is_computable(&layer, 2));
        assert_eq!(
            deepseek2_mla_single_token_cpu(&whole_ops(), &layer, &[3, 4]),
            Err(InferenceError::MissingTensor(name))
        );
    }
}

#[test]
fn tensors_are_found_by_their_name_alone() {
    let layer = layer_of(whole_layer());
    assert_eq!(
        required(&layer, "blk.0.attn_k_b.weight").unwrap().values,
        vec![1, 2, 3, 4]
    );
    assert_eq!(
        required(&layer, "blk.1.attn_k_b.weight").err(),
        Some(InferenceError::MissingTensor("blk.1.attn_k_b.weight".to_string()))
    );
}

#[test]
fn hidden_state_of_another_width_is_refused() {
    let layer = layer_of(whole_layer());
    assert_eq!(
        deepseek2_mla_single_token_cpu(&whole_ops(), &layer, &[3, 4, 5]),
        parse_error("hidden length 3 does not match DeepSeek2 MLA hidden 2")
    );
}

#[test]
fn norm_weights_of_another_width_are_refused() {
    let name = "blk.0.attn_norm.weight";
    let layer = replaced(name, tensor(name, vec![3], vec![1, 1, 1]));
    assert_eq!(
        deepseek2_mla_single_token_cpu(&whole_ops(), &layer, &[3, 4]),
        parse_error("RMS norm width mismatch: x=2 weight=3")
    );
    let name = "blk.0.attn_kv_a_norm.weight";
    let layer = replaced(name, tensor(name, vec![2], vec![1]));
    assert!(token_is_computable(&layer, 2));
    assert_eq!(
        deepseek2_mla_single_token_cpu(&whole_ops(), &layer, &[3, 4]),
        parse_error("RMS norm width mismatch: x=2 weight=1")
    );
}

#[test]
fn value_heads_that_differ_from_key_heads_are_refused_at_the_output() {
    let name = "blk.0.attn_v_b.weight";
    let layer = replaced(name, tensor(name, vec![2, 3, 1], vec![1, 0, 0, 1, 1, 1]));
    assert!(token_is_computable(&layer, 2));
    assert_eq!(
        deepseek2_mla_single_token_cpu(&whole_ops(), &layer, &[3, 4]),
        parse_error("blk.0.attn_output.weight expects input width 6, got 3")
    );
}

#[test]
fn shape_faults_are_reported_in_order() {
    let cases = [
        (
            "blk.0.attn_q_b.weight",
            vec![1, 4, 1],
            4,
            "blk.0.attn_q_b.weight rank 3 != expected 2",
        ),
        (
            "blk.0.attn_kv_a_mqa.weight",
            vec![2, 1],
            2,
            "kv_a output smaller than kv rank",
        ),
        (
            "blk.0.attn_q_b.weight",
            vec![1, 5],
            5,
            "q_b output width 5 != heads 2 × (qk_nope 1 + qk_rope 1)",
        ),
        (
            "blk.0.attn_q_b.weight",
            vec![2, 4],
            8,
            "q-rank tensor dimensions disagree",
        ),
        (
            "blk.0.attn_q_a_norm.weight",
            vec![1],
            2,
            "q-rank tensor dimensions disagree",
        ),
        (
            "blk.0.attn_kv_a_mqa.weight",
            vec![3, 3],
            9,
            "kv-rank tensor dimensions disagree",
        ),
        (
            "blk.0.attn_v_b.weight",
            vec![4, 3, 2],
            24,
            "kv-rank tensor dimensions disagree",
        ),
        (
            "blk.0.attn_output.weight",
            vec![5, 2],
            10,
            "output projection dimensions disagree",
        ),
        (
            "blk.0.attn_output.weight",
            vec![6, 3],
            18,
            "output projection dimensions disagree",
        ),
    ];
    for (name, dims, count, message) in cases {
        let layer = replaced(name, tensor(name, dims, vec![1; count]));
        assert!(token_is_computable(&layer, 2));
        assert_eq!(
            deepseek2_mla_single_token_cpu(&whole_ops(), &layer, &[3, 4]),
            parse_error(message)
        );
    }
}

#[test]
fn shape_is_read_off_the_dimensions() {
    let t = whole_layer();
    let shape = infer_shape(&t[0], &t[1], &t[2], &t[3], &t[4], &t[5], &t[6], &t[7]);
    assert!(shape_is_computable(&t[0], &t[1], &t[2], &t[3], &t[4], &t[5], &t[6], &t[7]));
    assert_eq!(
        shape,
        Ok(Deepseek2MlaShape {
            hidden: 2,
            q_rank: 1,
            kv_rank: 2,
            heads: 2,
            qk_nope: 1,
            qk_rope: 1,
            v_dim: 3,
        })
    );
}

#[test]
fn shape_ignores_orientation() {
    let t = whole_layer();
    let k_b = tensor("blk.0.attn_k_b.weight", vec![2, 1, 2], vec![1, 2, 3, 4]);
    let v_b = tensor("blk.0.attn_v_b.weight", vec![3, 2, 2], vec![1; 12]);
    assert_eq!(
        infer_shape(&t[0], &t[1], &t[2], &t[3], &t[4], &k_b, &v_b, &t[7]),
        infer_shape(&t[0], &t[1], &t[2], &t[3], &t[4], &t[5], &t[6], &t[7])
    );
    let narrow = tensor("o", vec![5, 2], vec![1; 10]);
    assert_eq!(
        infer_shape(&t[0], &t[1], &t[2], &t[3], &t[4], &k_b, &v_b, &narrow),
        parse_error("output projection dimensions disagree")
    );
    assert_eq!(
        infer_shape(&t[0], &t[1], &t[2], &t[3], &t[4], &t[5], &t[6], &narrow),
        parse_error("output projection dimensions disagree")
    );
}

#[test]
fn layers_that_cannot_be_evaluated_are_told_apart() {
    for (name, dims, count) in [
        ("blk.0.attn_q_a.weight", vec![2, 1], 1),
        ("blk.0.attn_q_b.weight", vec![1, 4], 3),
        ("blk.0.attn_kv_a_mqa.weight", vec![2, 3], 5),
        ("blk.0.attn_k_b.weight", vec![1, 2, 2], 3),
        ("blk.0.attn_v_b.weight", vec![2, 3, 2], 11),
        ("blk.0.attn_output.weight", vec![6, 2], 11),
        ("blk.0.attn_k_b.weight", vec![u64::MAX, 2, 2], 4),
    ] {
        let layer = replaced(name, tensor(name, dims, vec![1; count]));
        assert!(!token_is_computable(&layer, 2));
    }
    let name = "blk.0.attn_q_a.weight";
    let layer = replaced(name, tensor(name, vec![2, 1], vec![1]));
    assert!(token_is_computable(&layer, 3));
}

#[test]
fn matrix_products_are_exact() {
    let matrix = tensor("m", vec![3, 2], vec![1, 2, 3, 4, 5, 6]);
    assert_eq!(matvec_2d(&whole_ops(), &matrix, &[1, 10, 100]), Ok(vec![321, 654]));
    assert_eq!(
        matvec_2d(&whole_ops(), &matrix, &[1, 10]),
        parse_error("m expects input width 3, got 2")
    );
    let vector = tensor("v", vec![3], vec![1, 2, 3]);
    assert_eq!(
        matvec_2d(&whole_ops(), &vector, &[1, 10, 100]),
        parse_error("v rank 1 != expected 2")
    );
}

#[test]
fn head_products_go_along_the_side_that_fits() {
    let heads = tensor(
        "h",
        vec![3, 2, 2],
        vec![1, 2, 3, 4, 5, 6, 7, 8, 9, 10, 11, 12],
    );
    assert_eq!(
        matvec_3d_heads(&whole_ops(), &heads, &[1, 10, 100]),
        Ok(vec![321, 654, 987, 1320])
    );
    assert_eq!(
        matvec_3d_heads(&whole_ops(), &heads, &[1, 10]),
        Ok(vec![41, 52, 63, 107, 118, 129])
    );
    assert_eq!(
        matvec_3d_heads(&whole_ops(), &heads, &[1]),
        parse_error("h expects input width 3 or 2, got 1")
    );
    let matrix = tensor("m", vec![3, 2], vec![1; 6]);
    assert_eq!(
        matvec_3d_heads(&whole_ops(), &matrix, &[1, 1, 1]),
        parse_error("m rank 2 != expected 3")
    );
}

#[test]
fn orientation_does_not_matter() {
    let (cols, rows, heads) = (3usize, 2usize, 2usize);
    let values: Vec<i64> = vec![1, 2, 3, 4, 5, 6, 7, 8, 9, 10, 11, 12];
    let mut exchanged: Vec<i64> = vec![0; values.len()];
    for head in 0..heads {
        for row in 0..rows {
            for col in 0..cols {
                exchanged[(head * cols + col) * rows + row] =
                    values[(head * rows + row) * cols + col];
            }
        }
    }
    let floats: Vec<f32> = values.iter().map(|value| *value as f32).collect();
    let exchanged_floats: Vec<f32> = exchanged.iter().map(|value| *value as f32).collect();
    let stored = tensor("h", vec![3, 2, 2], values);
    let transposed = tensor("h", vec![2, 3, 2], exchanged);
    for x in [[1, 10, 100], [0, 0, 0], [-4, 7, 2]] {
        let out = matvec_3d_heads(&whole_ops(), &stored, &x).unwrap();
        assert_eq!(out.len(), 4);
        assert_eq!(matvec_3d_heads(&whole_ops(), &transposed, &x), Ok(out));
    }
    assert_eq!(
        matvec_3d_heads(&whole_ops(), &transposed, &[1, 10, 100]),
        Ok(vec![321, 654, 987, 1320])
    );
    let x = [-0.0f32, 0.5, 0.25];
    assert_eq!(
        matvec_3d_heads(&f32_ops(), &tensor("h", vec![3, 2, 2], floats), &x),
        matvec_3d_heads(&f32_ops(), &tensor("h", vec![2, 3, 2], exchanged_floats), &x)
    );
}

#[test]
fn stacked_heads_multiply_as_one_matrix() {
    let values = vec![1, 2, 3, 4, 5, 6, 7, 8, 9, 10, 11, 12];
    let heads = tensor("h", vec![3, 2, 2], values.clone());
    let flat = tensor("h", vec![3, 4], values);
    for x in [[1, 10, 100], [0, 0, 0], [-4, 7, 2]] {
        assert_eq!(
            matvec_3d_heads(&whole_ops(), &heads, &x),
            matvec_2d(&whole_ops(), &flat, &x)
        );
    }
    assert_eq!(
        matvec_2d(&whole_ops(), &flat, &[1, 10, 100]),
        Ok(vec![321, 654, 987, 1320])
    );
}

#[test]
fn first_side_wins_where_both_fit() {
    let heads = tensor("h", vec![2, 2, 1], vec![1, 2, 3, 4]);
    assert_eq!(matvec_3d_heads(&whole_ops(), &heads, &[1, 10]), Ok(vec![21, 43]));
}

#[test]
fn rms_norm_scales_and_weighs() {
    let scale = (12.5f32 + 1e-6).sqrt().recip();
    assert_eq!(
        rms_norm(&f32_ops(), &[3.0, 4.0], &[1.0, 2.0]),
        Ok(vec![3.0 * scale * 1.0, 4.0 * scale * 2.0])
    );
    assert_eq!(rms_norm(&whole_ops(), &[3, 4], &[1, 2]), Ok(vec![6, 16]));
    assert_eq!(rms_norm(&whole_ops(), &[], &[]), Ok(vec![]));
    assert_eq!(
        rms_norm(&whole_ops(), &[3, 4], &[1]),
        parse_error("RMS norm width mismatch: x=2 weight=1")
    );
}

#[test]
fn heads_are_scored_over_both_parts() {
    let shape = Deepseek2MlaShape {
        hidden: 1,
        q_rank: 1,
        kv_rank: 1,
        heads: 2,
        qk_nope: 2,
        qk_rope: 1,
        v_dim: 1,
    };
    let scores = score_heads(
        &whole_ops(),
        &shape,
        &[1, 2, 3, 4, 5, 6],
        &[1, 10, 100, 1000],
        &[7],
    );
    assert_eq!(scores, vec![(21, 21), (5400, 42)]);
}

#[test]
fn ranks_are_checked() {
    let matrix = tensor("m", vec![3, 2], vec![1; 6]);
    assert_eq!(expect_rank(&matrix, 2), Ok(()));
    assert_eq!(expect_rank(&matrix, 3), parse_error("m rank 2 != expected 3"));
}
