use larql_inference::attention::deepseek2_mla::required_part;
use larql_inference::attention::gguf_manifest::{
    plan_deepseek2_attention_manifest, Deepseek2AttentionLayerPlan, Deepseek2AttentionManifestPlan,
    GgufAttentionTensorRef, RawGgufAttentionManifest,
};
use larql_inference::attention::plan_report::{first_layer_line, status_line};
use larql_inference::error::InferenceError;
use larql_inference::tensor::{Deepseek2AttentionLayerTensors, LoadedGgufTensor};
use serde_json::Value;

fn number(value: &Value, key: &str) -> u64 {
    value[key].as_u64().unwrap()
}

fn words(value: &Value, key: &str) -> String {
    value[key].as_str().unwrap().to_string()
}

fn tensor_from_json(value: &Value) -> GgufAttentionTensorRef {
    GgufAttentionTensorRef {
        tensor: words(value, "tensor"),
        source_file: words(value, "source_file"),
        shard_idx: number(value, "shard_idx") as usize,
        tensor_type: number(value, "tensor_type") as u32,
        dims: value["dims"]
            .as_array()
            .unwrap()
            .iter()
            .map(|dim| dim.as_u64().unwrap() as usize)
            .collect(),
        tensor_offset: number(value, "tensor_offset"),
        data_offset: number(value, "data_offset"),
    }
}

fn manifest_from_json(text: &str) -> RawGgufAttentionManifest {
    let value: Value = serde_json::from_str(text).unwrap();
    RawGgufAttentionManifest {
        version: number(&value, "version") as u32,
        architecture: words(&value, "architecture"),
        split_count: number(&value, "split_count") as usize,
        residency: words(&value, "residency"),
        tensors: value["tensors"].as_array().unwrap().iter().map(tensor_from_json).collect(),
    }
}

fn tensor(name: &str, data_offset: u64) -> GgufAttentionTensorRef {
    GgufAttentionTensorRef {
        tensor: name.to_string(),
        source_file: "shard0.gguf".to_string(),
        shard_idx: 0,
        tensor_type: 8,
        dims: vec![2, 3],
        tensor_offset: 1,
        data_offset,
    }
}

fn plan_of(names: &[&str]) -> Deepseek2AttentionManifestPlan {
    let tensors = names
        .iter()
        .enumerate()
        .map(|(i, name)| tensor(name, i as u64))
        .collect();
    plan_deepseek2_attention_manifest(RawGgufAttentionManifest {
        version: 3,
        architecture: "deepseek2".to_string(),
        split_count: 5,
        residency: "somewhere".to_string(),
        tensors,
    })
    .unwrap()
}

fn offsets(tensors: &[&GgufAttentionTensorRef]) -> Vec<u64> {
    tensors.iter().map(|tensor| tensor.data_offset).collect()
}

#[test]
fn deepseek2_attention_manifest_plan_groups_mla_tensors_without_experts() {
    let manifest = r#"{
          "version": 1,
          "architecture": "deepseek2",
          "split_count": 13,
          "residency": "split_residency_cuda_attention_mmap_experts",
          "tensors": [
            {"tensor":"blk.0.attn_q_a.weight","source_file":"shard0.gguf","shard_idx":0,"tensor_type":8,"dims":[7168,1536],"tensor_offset":10,"data_offset":20},
            {"tensor":"blk.0.attn_q_a_norm.weight","source_file":"shard0.gguf","shard_idx":0,"tensor_type":0,"dims":[1536],"tensor_offset":11,"data_offset":21},
            {"tensor":"blk.0.attn_q_b.weight","source_file":"shard0.gguf","shard_idx":0,"tensor_type":8,"dims":[128,1536,64],"tensor_offset":12,"data_offset":22},
            {"tensor":"blk.0.attn_kv_a_mqa.weight","source_file":"shard0.gguf","shard_idx":0,"tensor_type":8,"dims":[7168,576],"tensor_offset":13,"data_offset":23},
            {"tensor":"blk.0.attn_kv_a_norm.weight","source_file":"shard0.gguf","shard_idx":0,"tensor_type":0,"dims":[512],"tensor_offset":14,"data_offset":24},
            {"tensor":"blk.0.attn_k_b.weight","source_file":"shard0.gguf","shard_idx":0,"tensor_type":8,"dims":[128,512,64],"tensor_offset":15,"data_offset":25},
            {"tensor":"blk.0.attn_v_b.weight","source_file":"shard0.gguf","shard_idx":0,"tensor_type":8,"dims":[128,512,64],"tensor_offset":16,"data_offset":26},
            {"tensor":"blk.0.attn_output.weight","source_file":"shard0.gguf","shard_idx":0,"tensor_type":8,"dims":[7168,8192],"tensor_offset":17,"data_offset":27},
            {"tensor":"blk.0.ffn_gate_exps.weight","source_file":"shard0.gguf","shard_idx":0,"tensor_type":8,"dims":[7168,2048,384],"tensor_offset":18,"data_offset":28}
          ]
        }"#;
    let plan = plan_deepseek2_attention_manifest(manifest_from_json(manifest)).unwrap();
    assert_eq!(plan.architecture, "deepseek2");
    assert_eq!(plan.residency, "split_residency_cuda_attention_mmap_experts");
    assert_eq!(plan.layers.len(), 1);
    assert_eq!(plan.complete_mla_layers(), 1);
    let layer = &plan.layers[0];
    assert_eq!(layer.layer, 0);
    assert!(layer.is_mla_complete());
    assert_eq!(layer.q_a.as_ref().unwrap().tensor, "blk.0.attn_q_a.weight");
    assert_eq!(
        layer.kv_a_mqa.as_ref().unwrap().tensor,
        "blk.0.attn_kv_a_mqa.weight"
    );
    assert_eq!(
        layer.output.as_ref().unwrap().tensor,
        "blk.0.attn_output.weight"
    );
    assert!(plan
        .tensors_for_cuda_residency()
        .iter()
        .all(|tensor| tensor.tensor.contains("attn_") && !tensor.tensor.contains("ffn_")));
    assert_eq!(plan.version, 1);
    assert_eq!(plan.split_count, 13);
    assert_eq!(
        offsets(&plan.tensors_for_cuda_residency()),
        vec![20, 21, 22, 23, 24, 25, 26, 27]
    );
    assert_eq!(
        status_line(&plan),
        "status=ok architecture=deepseek2 residency=split_residency_cuda_attention_mmap_experts layers=1 complete_mla_layers=1 cuda_residency_tensors=8"
    );
    assert_eq!(
        first_layer_line(&plan).unwrap(),
        "first_layer=0 complete_mla=true q_a=blk.0.attn_q_a.weight kv_a_mqa=blk.0.attn_kv_a_mqa.weight output=blk.0.attn_output.weight"
    );
}

#[test]
fn other_architectures_are_refused() {
    let result = plan_deepseek2_attention_manifest(RawGgufAttentionManifest {
        version: 1,
        architecture: "llama".to_string(),
        split_count: 1,
        residency: String::new(),
        tensors: vec![tensor("blk.0.attn_q_a.weight", 1)],
    });
    assert_eq!(
        result,
        Err(InferenceError::Parse(
            "unsupported GGUF attention architecture: llama".to_string()
        ))
    );
}

#[test]
fn layers_ascend_by_number() {
    let plan = plan_of(&[
        "blk.10.attn_q_a.weight",
        "blk.2.attn_q_a.weight",
        "blk.10.attn_q_b.weight",
        "blk.0.attn_norm.weight",
    ]);
    let layers: Vec<usize> = plan.layers.iter().map(|layer| layer.layer).collect();
    assert_eq!(layers, vec![0, 2, 10]);
    assert_eq!(offsets(&plan.tensors_for_cuda_residency()), vec![3, 1, 0, 2]);
    assert_eq!(plan.complete_mla_layers(), 0);
    assert!(!plan.layers[2].is_mla_complete());
}

#[test]
fn later_tensor_takes_the_slot_and_others_pile_up() {
    let plan = plan_of(&[
        "blk.1.attn_kv_a_norm.weight",
        "blk.1.attn_extra.bias",
        "blk.01.attn_kv_a_norm.weight",
        "blk.1.attn_extra.bias",
        "blk.+1.attn_",
    ]);
    assert_eq!(plan.layers.len(), 1);
    let layer = &plan.layers[0];
    assert_eq!(layer.layer, 1);
    assert_eq!(layer.kv_a_norm.as_ref().unwrap().data_offset, 2);
    let others: Vec<u64> = layer
        .other_attention_tensors
        .iter()
        .map(|tensor| tensor.data_offset)
        .collect();
    assert_eq!(others, vec![1, 3, 4]);
    assert_eq!(offsets(&layer.tensors_for_cuda_residency()), vec![2, 1, 3, 4]);
}

#[test]
fn tensors_come_in_family_order() {
    let plan = plan_of(&[
        "blk.4.attn_other.weight",
        "blk.4.attn_output.weight",
        "blk.4.attn_v_b.weight",
        "blk.4.attn_k_b.weight",
        "blk.4.attn_kv_a_norm.weight",
        "blk.4.attn_kv_a_mqa.weight",
        "blk.4.attn_q_b.weight",
        "blk.4.attn_q_a_norm.weight",
        "blk.4.attn_q_a.weight",
    ]);
    assert_eq!(plan.complete_mla_layers(), 1);
    assert_eq!(
        offsets(&plan.tensors_for_cuda_residency()),
        vec![8, 7, 6, 5, 4, 3, 2, 1, 0]
    );
}

#[test]
fn each_family_member_is_needed() {
    let family = [
        "blk.0.attn_q_a.weight",
        "blk.0.attn_q_a_norm.weight",
        "blk.0.attn_q_b.weight",
        "blk.0.attn_kv_a_mqa.weight",
        "blk.0.attn_kv_a_norm.weight",
        "blk.0.attn_k_b.weight",
        "blk.0.attn_v_b.weight",
        "blk.0.attn_output.weight",
    ];
    assert!(plan_of(&family).layers[0].is_mla_complete());
    for missing in 0..family.len() {
        let mut names = family.to_vec();
        names.remove(missing);
        let plan = plan_of(&names);
        assert!(!plan.layers[0].is_mla_complete());
        assert_eq!(plan.tensors_for_cuda_residency().len(), 7);
    }
}

/// Whether a layer with tensors of these names has all that its evaluation asks for.
fn evaluation_finds_its_tensors(names: &[&str]) -> bool {
    let mut layer: Deepseek2AttentionLayerTensors<i32> = Deepseek2AttentionLayerTensors::new(12);
    for name in names {
        let loaded = LoadedGgufTensor {
            name: name.to_string(),
            dims: vec![1],
            tensor_type: 0,
            values: vec![1],
        };
        layer.insert(name.to_string(), loaded);
    }
    [
        "_q_a.weight",
        "_q_a_norm.weight",
        "_q_b.weight",
        "_kv_a_mqa.weight",
        "_kv_a_norm.weight",
        "_k_b.weight",
        "_v_b.weight",
        "_output.weight",
    ]
    .iter()
    .all(|suffix| required_part(&layer, suffix).is_ok())
}

#[test]
fn complete_layers_have_what_evaluation_needs() {
    let family = [
        "blk.12.attn_q_a.weight",
        "blk.12.attn_q_a_norm.weight",
        "blk.12.attn_q_b.weight",
        "blk.12.attn_kv_a_mqa.weight",
        "blk.12.attn_kv_a_norm.weight",
        "blk.12.attn_k_b.weight",
        "blk.12.attn_v_b.weight",
        "blk.12.attn_output.weight",
    ];
    assert!(plan_of(&family).layers[0].is_mla_complete());
    assert!(evaluation_finds_its_tensors(&family));
    for missing in 0..family.len() {
        let mut names = family.to_vec();
        names.remove(missing);
        assert!(!plan_of(&names).layers[0].is_mla_complete());
        assert!(!evaluation_finds_its_tensors(&names));
        // A layer that is not plainly numbered is planned, but not looked for.
        names.push("blk.+12.attn_q_a.weight");
        assert_eq!(plan_of(&names).layers.len(), 1);
        assert_eq!(plan_of(&names).layers[0].is_mla_complete(), missing == 0);
        assert!(!evaluation_finds_its_tensors(&names));
    }
}

#[test]
fn other_tensors_leave_the_plan_as_it_is() {
    let with_experts = plan_of(&[
        "blk.0.attn_q_a.weight",
        "blk.0.ffn_gate_exps.weight",
        "token_embd.weight",
        "blk.9.ffn_down.weight",
        "blk.x.attn_q_a.weight",
    ]);
    let without = plan_of(&["blk.0.attn_q_a.weight"]);
    assert_eq!(with_experts, without);
}

fn replanned(plan: &Deepseek2AttentionManifestPlan) -> Deepseek2AttentionManifestPlan {
    plan_deepseek2_attention_manifest(RawGgufAttentionManifest {
        version: plan.version,
        architecture: plan.architecture.clone(),
        split_count: plan.split_count,
        residency: plan.residency.clone(),
        tensors: plan
            .tensors_for_cuda_residency()
            .into_iter()
            .cloned()
            .collect(),
    })
    .unwrap()
}

#[test]
fn replanning_gives_the_plan_back() {
    let plan = plan_of(&[
        "blk.3.attn_extra.bias",
        "blk.3.attn_q_b.weight",
        "blk.1.attn_output.weight",
        "blk.3.attn_q_b.weight",
        "blk.03.attn_q_a.weight",
        "blk.3.ffn_up.weight",
        "blk.3.attn_norm.weight",
        "blk.1.attn_output.weight",
    ]);
    assert_eq!(plan.layers.len(), 2);
    assert_eq!(offsets(&plan.tensors_for_cuda_residency()), vec![7, 4, 3, 0, 6]);
    assert_eq!(replanned(&plan), plan);
    assert_eq!(replanned(&plan_of(&[])), plan_of(&[]));
}

#[test]
fn order_matters_within_slots_alone() {
    let list = |order: &[usize]| {
        let names = [
            "blk.1.attn_q_a.weight",
            "blk.1.attn_q_a.weight",
            "blk.0.attn_extra.bias",
            "blk.0.attn_norm.weight",
            "blk.1.attn_k_b.weight",
        ];
        plan_deepseek2_attention_manifest(RawGgufAttentionManifest {
            version: 1,
            architecture: "deepseek2".to_string(),
            split_count: 1,
            residency: "somewhere".to_string(),
            tensors: order.iter().map(|i| tensor(names[*i], *i as u64)).collect(),
        })
        .unwrap()
    };
    let plan = list(&[0, 1, 2, 3, 4]);
    assert_eq!(list(&[4, 2, 0, 3, 1]), plan);
    assert_eq!(list(&[2, 3, 0, 1, 4]), plan);
    assert!(list(&[1, 0, 2, 3, 4]) != plan);
    assert!(list(&[0, 1, 3, 2, 4]) != plan);
    // Of the eight tensors of the family, layer 1 has two.
    assert_eq!(plan.layers[1].tensors_for_cuda_residency().len(), 2);
}

#[test]
fn residents_are_the_attention_tensors() {
    let plan = plan_of(&[
        "blk.3.attn_norm.weight",
        "output.weight",
        "blk.2.attn_q_a.weight",
        "blk.3.attn_q_a.weight",
        "blk.3.ffn_gate_exps.weight",
        "blk.2.attn_extra.bias",
        "blk.3.attn_k_b.weight",
    ]);
    let mut staged = offsets(&plan.tensors_for_cuda_residency());
    staged.sort();
    assert_eq!(staged, vec![0, 2, 3, 5, 6]);
}

#[test]
fn empty_manifest_gives_an_empty_plan() {
    let plan = plan_of(&[]);
    assert!(plan.layers.is_empty());
    assert!(plan.tensors_for_cuda_residency().is_empty());
    assert_eq!(
        status_line(&plan),
        "status=ok architecture=deepseek2 residency=somewhere layers=0 complete_mla_layers=0 cuda_residency_tensors=0"
    );
    assert_eq!(first_layer_line(&plan), None);
}

#[test]
fn missing_slots_are_marked_in_the_report() {
    let plan = plan_of(&["blk.7.attn_kv_a_mqa.weight"]);
    assert_eq!(
        first_layer_line(&plan).unwrap(),
        "first_layer=7 complete_mla=false q_a=<missing> kv_a_mqa=blk.7.attn_kv_a_mqa.weight output=<missing>"
    );
}

#[test]
fn default_layer_plan_is_empty() {
    let plan = Deepseek2AttentionLayerPlan::default();
    assert_eq!(plan.layer, 0);
    assert!(plan.tensors_for_cuda_residency().is_empty());
    assert!(!plan.is_mla_complete());
}
