//! What a plan holds, in terms of what its manifest lists.

use vstd::prelude::*;
use vstd::string::*;

use crate::attention::gguf_manifest;
use crate::attention::gguf_manifest::{
    plan_deepseek2_attention_manifest, AttentionSlot, Deepseek2AttentionLayerPlan,
    Deepseek2AttentionManifestPlan, GgufAttentionTensorRef, RawGgufAttentionManifest,
};
use crate::attention::plan_laws;
use crate::attention::tensor_name;
use crate::error::InferenceError;

verus! {

/// A manifest is planned exactly where its architecture is `deepseek2`. The plan has what the
/// manifest says of itself; else the error names the architecture.
pub proof fn deepseek2_manifests_are_planned(
    raw: RawGgufAttentionManifest,
    result: Result<Deepseek2AttentionManifestPlan, InferenceError>,
)
    requires
        call_ensures(plan_deepseek2_attention_manifest, (raw,), result),
    ensures
        result is Ok <==> raw.architecture@ == "deepseek2"@,
        result matches Ok(plan) ==> plan.version == raw.version && plan.architecture@
            == raw.architecture@ && plan.split_count == raw.split_count && plan.residency@
            == raw.residency@,
        result matches Err(error) ==> (error matches InferenceError::Parse(message) && message@
            == "unsupported GGUF attention architecture: "@ + raw.architecture@),
{
}

proof fn lemma_slot_names(name: Seq<char>)
    ensures
        gguf_manifest::slot_of(name) == AttentionSlot::QA <==> name == "attn_q_a.weight"@,
        gguf_manifest::slot_of(name) == AttentionSlot::QANorm <==> name == "attn_q_a_norm.weight"@,
        gguf_manifest::slot_of(name) == AttentionSlot::QB <==> name == "attn_q_b.weight"@,
        gguf_manifest::slot_of(name) == AttentionSlot::KvAMqa <==> name == "attn_kv_a_mqa.weight"@,
        gguf_manifest::slot_of(name) == AttentionSlot::KvANorm <==> name
            == "attn_kv_a_norm.weight"@,
        gguf_manifest::slot_of(name) == AttentionSlot::KB <==> name == "attn_k_b.weight"@,
        gguf_manifest::slot_of(name) == AttentionSlot::VB <==> name == "attn_v_b.weight"@,
        gguf_manifest::slot_of(name) == AttentionSlot::Output <==> name == "attn_output.weight"@,
{
    reveal_strlit("attn_q_a.weight");
    reveal_strlit("attn_q_a_norm.weight");
    reveal_strlit("attn_q_b.weight");
    reveal_strlit("attn_kv_a_mqa.weight");
    reveal_strlit("attn_kv_a_norm.weight");
    reveal_strlit("attn_k_b.weight");
    reveal_strlit("attn_v_b.weight");
    reveal_strlit("attn_output.weight");
    assert(("attn_q_a.weight"@).len() == 15);
    assert(("attn_q_a_norm.weight"@).len() == 20);
    assert(("attn_q_b.weight"@).len() == 15);
    assert(("attn_kv_a_mqa.weight"@).len() == 20);
    assert(("attn_kv_a_norm.weight"@).len() == 21);
    assert(("attn_k_b.weight"@).len() == 15);
    assert(("attn_v_b.weight"@).len() == 15);
    assert(("attn_output.weight"@).len() == 18);
    assert(("attn_q_a.weight"@)[7] == 'a');
    assert(("attn_q_b.weight"@)[5] == 'q' && ("attn_q_b.weight"@)[7] == 'b');
    assert(("attn_k_b.weight"@)[5] == 'k' && ("attn_k_b.weight"@)[7] == 'b');
    assert(("attn_v_b.weight"@)[5] == 'v' && ("attn_v_b.weight"@)[7] == 'b');
    assert(("attn_q_a_norm.weight"@)[5] == 'q');
    assert(("attn_kv_a_mqa.weight"@)[5] == 'k');
}

/// `held` is the last tensor that is listed for `layer` and `role`, or nothing where none is.
spec fn is_last_with_role(
    tensors: Seq<GgufAttentionTensorRef>,
    layer: usize,
    role: Seq<char>,
    held: Option<GgufAttentionTensorRef>,
) -> bool {
    match held {
        Some(tensor) => exists|i: int|
            {
                &&& 0 <= i < tensors.len()
                &&& #[trigger] tensors[i] == tensor
                &&& tensor_name::tensor_role(tensor.tensor@) == Some((layer, role))
                &&& forall|k: int|
                    i < k < tensors.len() ==> tensor_name::tensor_role(
                        (#[trigger] tensors[k]).tensor@,
                    ) != Some((layer, role))
            },
        None => forall|k: int|
            0 <= k < tensors.len() ==> tensor_name::tensor_role((#[trigger] tensors[k]).tensor@)
                != Some((layer, role)),
    }
}

proof fn lemma_held_has_role(
    plan: Deepseek2AttentionLayerPlan,
    tensors: Seq<GgufAttentionTensorRef>,
    slot: AttentionSlot,
    role: Seq<char>,
)
    requires
        gguf_manifest::plans_layer(plan, tensors),
        slot != AttentionSlot::Other,
        forall|name: Seq<char>| #[trigger] gguf_manifest::slot_of(name) == slot <==> name == role,
    ensures
        is_last_with_role(tensors, plan.layer, role, plan_laws::held(plan, slot)),
{
    plan_laws::slot_holds_last_listed(plan, tensors, slot);
    assert forall|k: int| 0 <= k < tensors.len() implies (gguf_manifest::placement(
        #[trigger] tensors[k],
    ) == Some((plan.layer, slot)) <==> tensor_name::tensor_role(tensors[k].tensor@) == Some(
        (plan.layer, role),
    )) by {
        if let Some((_, name)) = tensor_name::tensor_role(tensors[k].tensor@) {
            assert(gguf_manifest::slot_of(name) == slot <==> name == role);
        }
    }
    match plan_laws::held(plan, slot) {
        Some(tensor) => {
            let i = choose|i: int| #[trigger]
                plan_laws::is_last_listed(tensors, plan.layer, slot, i) && tensors[i] == tensor;
            assert(tensors[i] == tensor);
            assert forall|k: int| i < k < tensors.len() implies tensor_name::tensor_role(
                (#[trigger] tensors[k]).tensor@,
            ) != Some((plan.layer, role)) by {
                assert(gguf_manifest::placement(tensors[k]) != Some((plan.layer, slot)));
            }
        },
        None => {
            assert forall|k: int| 0 <= k < tensors.len() implies tensor_name::tensor_role(
                (#[trigger] tensors[k]).tensor@,
            ) != Some((plan.layer, role)) by {
                assert(!plan_laws::lists(tensors, plan.layer, slot));
            }
        },
    }
}

/// The field `q_a` of a layer holds the last tensor of that layer that the manifest lists as
/// `attn_q_a.weight`, or nothing where it lists none.
pub proof fn field_q_a_holds_its_tensor(
    raw: RawGgufAttentionManifest,
    plan: Deepseek2AttentionManifestPlan,
    at: int,
)
    requires
        call_ensures(plan_deepseek2_attention_manifest, (raw,), Ok(plan)),
        0 <= at < plan.layers@.len(),
    ensures
        match plan.layers@[at].q_a {
            Some(tensor) => exists|i: int|
                {
                    &&& 0 <= i < raw.tensors@.len()
                    &&& #[trigger] raw.tensors@[i] == tensor
                    &&& tensor_name::tensor_role(tensor.tensor@) == Some(
                        (plan.layers@[at].layer, "attn_q_a.weight"@),
                    )
                    &&& forall|k: int|
                        i < k < raw.tensors@.len() ==> tensor_name::tensor_role(
                            (#[trigger] raw.tensors@[k]).tensor@,
                        ) != Some((plan.layers@[at].layer, "attn_q_a.weight"@))
                },
            None => forall|k: int|
                0 <= k < raw.tensors@.len() ==> tensor_name::tensor_role(
                    (#[trigger] raw.tensors@[k]).tensor@,
                ) != Some((plan.layers@[at].layer, "attn_q_a.weight"@)),
        },
{
    assert forall|name: Seq<char>| #[trigger]
        gguf_manifest::slot_of(name) == AttentionSlot::QA <==> name == "attn_q_a.weight"@ by {
        lemma_slot_names(name);
    }
    lemma_held_has_role(plan.layers@[at], raw.tensors@, AttentionSlot::QA, "attn_q_a.weight"@);
}

/// The field `q_a_norm` of a layer holds the last tensor of that layer that the manifest lists as
/// `attn_q_a_norm.weight`, or nothing where it lists none.
pub proof fn field_q_a_norm_holds_its_tensor(
    raw: RawGgufAttentionManifest,
    plan: Deepseek2AttentionManifestPlan,
    at: int,
)
    requires
        call_ensures(plan_deepseek2_attention_manifest, (raw,), Ok(plan)),
        0 <= at < plan.layers@.len(),
    ensures
        match plan.layers@[at].q_a_norm {
            Some(tensor) => exists|i: int|
                {
                    &&& 0 <= i < raw.tensors@.len()
                    &&& #[trigger] raw.tensors@[i] == tensor
                    &&& tensor_name::tensor_role(tensor.tensor@) == Some(
                        (plan.layers@[at].layer, "attn_q_a_norm.weight"@),
                    )
                    &&& forall|k: int|
                        i < k < raw.tensors@.len() ==> tensor_name::tensor_role(
                            (#[trigger] raw.tensors@[k]).tensor@,
                        ) != Some((plan.layers@[at].layer, "attn_q_a_norm.weight"@))
                },
            None => forall|k: int|
                0 <= k < raw.tensors@.len() ==> tensor_name::tensor_role(
                    (#[trigger] raw.tensors@[k]).tensor@,
                ) != Some((plan.layers@[at].layer, "attn_q_a_norm.weight"@)),
        },
{
    assert forall|name: Seq<char>| #[trigger]
        gguf_manifest::slot_of(name) == AttentionSlot::QANorm <==> name
            == "attn_q_a_norm.weight"@ by {
        lemma_slot_names(name);
    }
    lemma_held_has_role(plan.layers@[at], raw.tensors@, AttentionSlot::QANorm,
        "attn_q_a_norm.weight"@);
}

/// The field `q_b` of a layer holds the last tensor of that layer that the manifest lists as
/// `attn_q_b.weight`, or nothing where it lists none.
pub proof fn field_q_b_holds_its_tensor(
    raw: RawGgufAttentionManifest,
    plan: Deepseek2AttentionManifestPlan,
    at: int,
)
    requires
        call_ensures(plan_deepseek2_attention_manifest, (raw,), Ok(plan)),
        0 <= at < plan.layers@.len(),
    ensures
        match plan.layers@[at].q_b {
            Some(tensor) => exists|i: int|
                {
                    &&& 0 <= i < raw.tensors@.len()
                    &&& #[trigger] raw.tensors@[i] == tensor
                    &&& tensor_name::tensor_role(tensor.tensor@) == Some(
                        (plan.layers@[at].layer, "attn_q_b.weight"@),
                    )
                    &&& forall|k: int|
                        i < k < raw.tensors@.len() ==> tensor_name::tensor_role(
                            (#[trigger] raw.tensors@[k]).tensor@,
                        ) != Some((plan.layers@[at].layer, "attn_q_b.weight"@))
                },
            None => forall|k: int|
                0 <= k < raw.tensors@.len() ==> tensor_name::tensor_role(
                    (#[trigger] raw.tensors@[k]).tensor@,
                ) != Some((plan.layers@[at].layer, "attn_q_b.weight"@)),
        },
{
    assert forall|name: Seq<char>| #[trigger]
        gguf_manifest::slot_of(name) == AttentionSlot::QB <==> name == "attn_q_b.weight"@ by {
        lemma_slot_names(name);
    }
    lemma_held_has_role(plan.layers@[at], raw.tensors@, AttentionSlot::QB, "attn_q_b.weight"@);
}

/// The field `kv_a_mqa` of a layer holds the last tensor of that layer that the manifest lists as
/// `attn_kv_a_mqa.weight`, or nothing where it lists none.
pub proof fn field_kv_a_mqa_holds_its_tensor(
    raw: RawGgufAttentionManifest,
    plan: Deepseek2AttentionManifestPlan,
    at: int,
)
    requires
        call_ensures(plan_deepseek2_attention_manifest, (raw,), Ok(plan)),
        0 <= at < plan.layers@.len(),
    ensures
        match plan.layers@[at].kv_a_mqa {
            Some(tensor) => exists|i: int|
                {
                    &&& 0 <= i < raw.tensors@.len()
                    &&& #[trigger] raw.tensors@[i] == tensor
                    &&& tensor_name::tensor_role(tensor.tensor@) == Some(
                        (plan.layers@[at].layer, "attn_kv_a_mqa.weight"@),
                    )
                    &&& forall|k: int|
                        i < k < raw.tensors@.len() ==> tensor_name::tensor_role(
                            (#[trigger] raw.tensors@[k]).tensor@,
                        ) != Some((plan.layers@[at].layer, "attn_kv_a_mqa.weight"@))
                },
            None => forall|k: int|
                0 <= k < raw.tensors@.len() ==> tensor_name::tensor_role(
                    (#[trigger] raw.tensors@[k]).tensor@,
                ) != Some((plan.layers@[at].layer, "attn_kv_a_mqa.weight"@)),
        },
{
    assert forall|name: Seq<char>| #[trigger]
        gguf_manifest::slot_of(name) == AttentionSlot::KvAMqa <==> name
            == "attn_kv_a_mqa.weight"@ by {
        lemma_slot_names(name);
    }
    lemma_held_has_role(plan.layers@[at], raw.tensors@, AttentionSlot::KvAMqa,
        "attn_kv_a_mqa.weight"@);
}

/// The field `kv_a_norm` of a layer holds the last tensor of that layer that the manifest lists as
/// `attn_kv_a_norm.weight`, or nothing where it lists none.
pub proof fn field_kv_a_norm_holds_its_tensor(
    raw: RawGgufAttentionManifest,
    plan: Deepseek2AttentionManifestPlan,
    at: int,
)
    requires
        call_ensures(plan_deepseek2_attention_manifest, (raw,), Ok(plan)),
        0 <= at < plan.layers@.len(),
    ensures
        match plan.layers@[at].kv_a_norm {
            Some(tensor) => exists|i: int|
                {
                    &&& 0 <= i < raw.tensors@.len()
                    &&& #[trigger] raw.tensors@[i] == tensor
                    &&& tensor_name::tensor_role(tensor.tensor@) == Some(
                        (plan.layers@[at].layer, "attn_kv_a_norm.weight"@),
                    )
                    &&& forall|k: int|
                        i < k < raw.tensors@.len() ==> tensor_name::tensor_role(
                            (#[trigger] raw.tensors@[k]).tensor@,
                        ) != Some((plan.layers@[at].layer, "attn_kv_a_norm.weight"@))
                },
            None => forall|k: int|
                0 <= k < raw.tensors@.len() ==> tensor_name::tensor_role(
                    (#[trigger] raw.tensors@[k]).tensor@,
                ) != Some((plan.layers@[at].layer, "attn_kv_a_norm.weight"@)),
        },
{
    assert forall|name: Seq<char>| #[trigger]
        gguf_manifest::slot_of(name) == AttentionSlot::KvANorm <==> name
            == "attn_kv_a_norm.weight"@ by {
        lemma_slot_names(name);
    }
    lemma_held_has_role(plan.layers@[at], raw.tensors@, AttentionSlot::KvANorm,
        "attn_kv_a_norm.weight"@);
}

/// The field `k_b` of a layer holds the last tensor of that layer that the manifest lists as
/// `attn_k_b.weight`, or nothing where it lists none.
pub proof fn field_k_b_holds_its_tensor(
    raw: RawGgufAttentionManifest,
    plan: Deepseek2AttentionManifestPlan,
    at: int,
)
    requires
        call_ensures(plan_deepseek2_attention_manifest, (raw,), Ok(plan)),
        0 <= at < plan.layers@.len(),
    ensures
        match plan.layers@[at].k_b {
            Some(tensor) => exists|i: int|
                {
                    &&& 0 <= i < raw.tensors@.len()
                    &&& #[trigger] raw.tensors@[i] == tensor
                    &&& tensor_name::tensor_role(tensor.tensor@) == Some(
                        (plan.layers@[at].layer, "attn_k_b.weight"@),
                    )
                    &&& forall|k: int|
                        i < k < raw.tensors@.len() ==> tensor_name::tensor_role(
                            (#[trigger] raw.tensors@[k]).tensor@,
                        ) != Some((plan.layers@[at].layer, "attn_k_b.weight"@))
                },
            None => forall|k: int|
                0 <= k < raw.tensors@.len() ==> tensor_name::tensor_role(
                    (#[trigger] raw.tensors@[k]).tensor@,
                ) != Some((plan.layers@[at].layer, "attn_k_b.weight"@)),
        },
{
    assert forall|name: Seq<char>| #[trigger]
        gguf_manifest::slot_of(name) == AttentionSlot::KB <==> name == "attn_k_b.weight"@ by {
        lemma_slot_names(name);
    }
    lemma_held_has_role(plan.layers@[at], raw.tensors@, AttentionSlot::KB, "attn_k_b.weight"@);
}

/// The field `v_b` of a layer holds the last tensor of that layer that the manifest lists as
/// `attn_v_b.weight`, or nothing where it lists none.
pub proof fn field_v_b_holds_its_tensor(
    raw: RawGgufAttentionManifest,
    plan: Deepseek2AttentionManifestPlan,
    at: int,
)
    requires
        call_ensures(plan_deepseek2_attention_manifest, (raw,), Ok(plan)),
        0 <= at < plan.layers@.len(),
    ensures
        match plan.layers@[at].v_b {
            Some(tensor) => exists|i: int|
                {
                    &&& 0 <= i < raw.tensors@.len()
                    &&& #[trigger] raw.tensors@[i] == tensor
                    &&& tensor_name::tensor_role(tensor.tensor@) == Some(
                        (plan.layers@[at].layer, "attn_v_b.weight"@),
                    )
                    &&& forall|k: int|
                        i < k < raw.tensors@.len() ==> tensor_name::tensor_role(
                            (#[trigger] raw.tensors@[k]).tensor@,
                        ) != Some((plan.layers@[at].layer, "attn_v_b.weight"@))
                },
            None => forall|k: int|
                0 <= k < raw.tensors@.len() ==> tensor_name::tensor_role(
                    (#[trigger] raw.tensors@[k]).tensor@,
                ) != Some((plan.layers@[at].layer, "attn_v_b.weight"@)),
        },
{
    assert forall|name: Seq<char>| #[trigger]
        gguf_manifest::slot_of(name) == AttentionSlot::VB <==> name == "attn_v_b.weight"@ by {
        lemma_slot_names(name);
    }
    lemma_held_has_role(plan.layers@[at], raw.tensors@, AttentionSlot::VB, "attn_v_b.weight"@);
}

/// The field `output` of a layer holds the last tensor of that layer that the manifest lists as
/// `attn_output.weight`, or nothing where it lists none.
pub proof fn field_output_holds_its_tensor(
    raw: RawGgufAttentionManifest,
    plan: Deepseek2AttentionManifestPlan,
    at: int,
)
    requires
        call_ensures(plan_deepseek2_attention_manifest, (raw,), Ok(plan)),
        0 <= at < plan.layers@.len(),
    ensures
        match plan.layers@[at].output {
            Some(tensor) => exists|i: int|
                {
                    &&& 0 <= i < raw.tensors@.len()
                    &&& #[trigger] raw.tensors@[i] == tensor
                    &&& tensor_name::tensor_role(tensor.tensor@) == Some(
                        (plan.layers@[at].layer, "attn_output.weight"@),
                    )
                    &&& forall|k: int|
                        i < k < raw.tensors@.len() ==> tensor_name::tensor_role(
                            (#[trigger] raw.tensors@[k]).tensor@,
                        ) != Some((plan.layers@[at].layer, "attn_output.weight"@))
                },
            None => forall|k: int|
                0 <= k < raw.tensors@.len() ==> tensor_name::tensor_role(
                    (#[trigger] raw.tensors@[k]).tensor@,
                ) != Some((plan.layers@[at].layer, "attn_output.weight"@)),
        },
{
    assert forall|name: Seq<char>| #[trigger]
        gguf_manifest::slot_of(name) == AttentionSlot::Output <==> name
            == "attn_output.weight"@ by {
        lemma_slot_names(name);
    }
    lemma_held_has_role(plan.layers@[at], raw.tensors@, AttentionSlot::Output,
        "attn_output.weight"@);
}

/// The other attention tensors of a layer are all that the manifest lists for it under any other
/// role, in the order in which they are listed.
pub proof fn others_are_all_with_other_roles(
    raw: RawGgufAttentionManifest,
    plan: Deepseek2AttentionManifestPlan,
    at: int,
)
    requires
        call_ensures(plan_deepseek2_attention_manifest, (raw,), Ok(plan)),
        0 <= at < plan.layers@.len(),
    ensures
        plan.layers@[at].other_attention_tensors@ == raw.tensors@.filter(
            |tensor: GgufAttentionTensorRef|
                tensor_name::tensor_role(tensor.tensor@) matches Some((layer, role)) && layer
                    == plan.layers@[at].layer
                    && role != "attn_q_a.weight"@
                    && role != "attn_q_a_norm.weight"@
                    && role != "attn_q_b.weight"@
                    && role != "attn_kv_a_mqa.weight"@
                    && role != "attn_kv_a_norm.weight"@
                    && role != "attn_k_b.weight"@
                    && role != "attn_v_b.weight"@
                    && role != "attn_output.weight"@,
        ),
{
    let number = plan.layers@[at].layer;
    let stated = |tensor: GgufAttentionTensorRef|
        tensor_name::tensor_role(tensor.tensor@) matches Some((layer, role)) && layer
            == plan.layers@[at].layer
            && role != "attn_q_a.weight"@
            && role != "attn_q_a_norm.weight"@
            && role != "attn_q_b.weight"@
            && role != "attn_kv_a_mqa.weight"@
            && role != "attn_kv_a_norm.weight"@
            && role != "attn_k_b.weight"@
            && role != "attn_v_b.weight"@
            && role != "attn_output.weight"@;
    let placed = |tensor: GgufAttentionTensorRef|
        gguf_manifest::placement(tensor) == Some((number, AttentionSlot::Other));
    assert forall|tensor: GgufAttentionTensorRef| #[trigger] stated(tensor) == placed(tensor) by {
        if let Some((_, role)) = tensor_name::tensor_role(tensor.tensor@) {
            lemma_slot_names(role);
        }
    }
    assert(stated =~= placed);
}

/// A plan has a layer for each number that the name of a listed attention tensor tells, and for no
/// other, each once and in ascending order.
pub proof fn layers_are_those_that_names_tell(
    raw: RawGgufAttentionManifest,
    plan: Deepseek2AttentionManifestPlan,
)
    requires
        call_ensures(plan_deepseek2_attention_manifest, (raw,), Ok(plan)),
    ensures
        forall|i: int, j: int|
            0 <= i < j < plan.layers@.len() ==> (#[trigger] plan.layers@[i]).layer < (
            #[trigger] plan.layers@[j]).layer,
        forall|at: int|
            0 <= at < plan.layers@.len() ==> exists|i: int|
                0 <= i < raw.tensors@.len() && (tensor_name::tensor_role(
                    (#[trigger] raw.tensors@[i]).tensor@,
                ) matches Some((layer, _)) && layer == (#[trigger] plan.layers@[at]).layer),
        forall|i: int|
            0 <= i < raw.tensors@.len() ==> (tensor_name::tensor_role(
                (#[trigger] raw.tensors@[i]).tensor@,
            ) matches Some((layer, _)) ==> exists|at: int|
                0 <= at < plan.layers@.len() && (#[trigger] plan.layers@[at]).layer == layer),
{
    assert forall|at: int| 0 <= at < plan.layers@.len() implies exists|i: int|
        0 <= i < raw.tensors@.len() && (tensor_name::tensor_role(
            (#[trigger] raw.tensors@[i]).tensor@,
        ) matches Some((layer, _)) && layer == (#[trigger] plan.layers@[at]).layer) by {
        let number = plan.layers@[at].layer;
        assert(gguf_manifest::mentions(raw.tensors@, number));
        let i = choose|i: int|
            0 <= i < raw.tensors@.len() && (#[trigger] gguf_manifest::placement(
                raw.tensors@[i],
            ) matches Some((l, _)) && l == number);
        assert(tensor_name::tensor_role(raw.tensors@[i].tensor@) is Some);
    }
    assert forall|i: int| 0 <= i < raw.tensors@.len() implies (tensor_name::tensor_role(
        (#[trigger] raw.tensors@[i]).tensor@,
    ) matches Some((layer, _)) ==> exists|at: int|
        0 <= at < plan.layers@.len() && (#[trigger] plan.layers@[at]).layer == layer) by {
        if let Some((layer, _)) = tensor_name::tensor_role(raw.tensors@[i].tensor@) {
            assert(gguf_manifest::placement(raw.tensors@[i]) is Some);
            assert(gguf_manifest::mentions(raw.tensors@, layer));
        }
    }
}

proof fn lemma_present_push(
    slots: Seq<Option<GgufAttentionTensorRef>>,
    slot: Option<GgufAttentionTensorRef>,
)
    ensures
        slots.push(slot).filter(|s: Option<GgufAttentionTensorRef>| s is Some).map_values(
            |s: Option<GgufAttentionTensorRef>| s->Some_0,
        ) == slots.filter(|s: Option<GgufAttentionTensorRef>| s is Some).map_values(
            |s: Option<GgufAttentionTensorRef>| s->Some_0,
        ) + gguf_manifest::present(slot),
{
    reveal(Seq::filter);
    let filled = |s: Option<GgufAttentionTensorRef>| s is Some;
    let unwrapped = |s: Option<GgufAttentionTensorRef>| s->Some_0;
    assert(slots.push(slot).drop_last() =~= slots);
    assert(slots.push(slot).filter(filled).map_values(unwrapped) =~= slots.filter(
        filled,
    ).map_values(unwrapped) + gguf_manifest::present(slot));
}

proof fn lemma_layer_residents(plan: Deepseek2AttentionLayerPlan)
    ensures
        plan.residents() == seq![
            plan.q_a,
            plan.q_a_norm,
            plan.q_b,
            plan.kv_a_mqa,
            plan.kv_a_norm,
            plan.k_b,
            plan.v_b,
            plan.output,
        ].filter(|s: Option<GgufAttentionTensorRef>| s is Some).map_values(
            |s: Option<GgufAttentionTensorRef>| s->Some_0,
        ) + plan.other_attention_tensors@,
{
    let filled = |s: Option<GgufAttentionTensorRef>| s is Some;
    let unwrapped = |s: Option<GgufAttentionTensorRef>| s->Some_0;
    let none: Seq<Option<GgufAttentionTensorRef>> = seq![];
    let to_q_a = none.push(plan.q_a);
    lemma_present_push(none, plan.q_a);
    let to_q_a_norm = to_q_a.push(plan.q_a_norm);
    lemma_present_push(to_q_a, plan.q_a_norm);
    let to_q_b = to_q_a_norm.push(plan.q_b);
    lemma_present_push(to_q_a_norm, plan.q_b);
    let to_kv_a_mqa = to_q_b.push(plan.kv_a_mqa);
    lemma_present_push(to_q_b, plan.kv_a_mqa);
    let to_kv_a_norm = to_kv_a_mqa.push(plan.kv_a_norm);
    lemma_present_push(to_kv_a_mqa, plan.kv_a_norm);
    let to_k_b = to_kv_a_norm.push(plan.k_b);
    lemma_present_push(to_kv_a_norm, plan.k_b);
    let to_v_b = to_k_b.push(plan.v_b);
    lemma_present_push(to_k_b, plan.v_b);
    let to_output = to_v_b.push(plan.output);
    lemma_present_push(to_v_b, plan.output);
    reveal(Seq::filter);
    assert(none.filter(filled).map_values(unwrapped) + gguf_manifest::present(plan.q_a)
        =~= gguf_manifest::present(plan.q_a));
    assert(to_output =~= seq![
        plan.q_a,
        plan.q_a_norm,
        plan.q_b,
        plan.kv_a_mqa,
        plan.kv_a_norm,
        plan.k_b,
        plan.v_b,
        plan.output,
    ]);
}

/// What a layer would stage is what its slots hold, from `q_a` to `output` in this order and
/// without the empty ones, and then its other tensors.
pub proof fn layers_stage_slots_in_order(
    plan: Deepseek2AttentionLayerPlan,
    staged: Vec<&GgufAttentionTensorRef>,
)
    requires
        call_ensures(Deepseek2AttentionLayerPlan::tensors_for_cuda_residency, (&plan,), staged),
    ensures
        staged@.unref() == seq![
            plan.q_a,
            plan.q_a_norm,
            plan.q_b,
            plan.kv_a_mqa,
            plan.kv_a_norm,
            plan.k_b,
            plan.v_b,
            plan.output,
        ].filter(|s: Option<GgufAttentionTensorRef>| s is Some).map_values(
            |s: Option<GgufAttentionTensorRef>| s->Some_0,
        ) + plan.other_attention_tensors@,
{
    lemma_layer_residents(plan);
}

/// What a plan would stage is what its layers would, one after the other.
pub proof fn plans_stage_layer_by_layer(
    plan: Deepseek2AttentionManifestPlan,
    staged: Vec<&GgufAttentionTensorRef>,
)
    requires
        call_ensures(Deepseek2AttentionManifestPlan::tensors_for_cuda_residency, (&plan,), staged),
    ensures
        staged@.unref() == plan.layers@.map_values(
            |layer: Deepseek2AttentionLayerPlan|
                seq![
                    layer.q_a,
                    layer.q_a_norm,
                    layer.q_b,
                    layer.kv_a_mqa,
                    layer.kv_a_norm,
                    layer.k_b,
                    layer.v_b,
                    layer.output,
                ].filter(|s: Option<GgufAttentionTensorRef>| s is Some).map_values(
                    |s: Option<GgufAttentionTensorRef>| s->Some_0,
                ) + layer.other_attention_tensors@,
        ).flatten(),
{
    let each = |layer: Deepseek2AttentionLayerPlan|
        seq![
            layer.q_a,
            layer.q_a_norm,
            layer.q_b,
            layer.kv_a_mqa,
            layer.kv_a_norm,
            layer.k_b,
            layer.v_b,
            layer.output,
        ].filter(|s: Option<GgufAttentionTensorRef>| s is Some).map_values(
            |s: Option<GgufAttentionTensorRef>| s->Some_0,
        ) + layer.other_attention_tensors@;
    let residents = |layer: Deepseek2AttentionLayerPlan| layer.residents();
    assert forall|layer: Deepseek2AttentionLayerPlan| #[trigger] each(layer) == residents(
        layer,
    ) by {
        lemma_layer_residents(layer);
    }
    assert(plan.layers@.map_values(each) =~= plan.layers@.map_values(residents));
}

/// A layer is complete exactly where its eight slots are filled.
pub proof fn complete_layers_have_eight_tensors(plan: Deepseek2AttentionLayerPlan, complete: bool)
    requires
        call_ensures(Deepseek2AttentionLayerPlan::is_mla_complete, (&plan,), complete),
    ensures
        complete <==> plan.q_a is Some && plan.q_a_norm is Some && plan.q_b is Some
            && plan.kv_a_mqa is Some
            && plan.kv_a_norm is Some && plan.k_b is Some && plan.v_b is Some
                && plan.output is Some,
{
}

/// The complete layers of a plan are counted: at most all, and all exactly where each has its eight
/// slots filled.
pub proof fn complete_layers_are_counted(plan: Deepseek2AttentionManifestPlan, count: usize)
    requires
        call_ensures(Deepseek2AttentionManifestPlan::complete_mla_layers, (&plan,), count),
    ensures
        count == plan.layers@.filter(
            |layer: Deepseek2AttentionLayerPlan|
                layer.q_a is Some && layer.q_a_norm is Some && layer.q_b is Some
                    && layer.kv_a_mqa is Some
                    && layer.kv_a_norm is Some && layer.k_b is Some && layer.v_b is Some
                        && layer.output is Some,
        ).len(),
        count <= plan.layers@.len(),
        count == plan.layers@.len() <==> forall|i: int|
            0 <= i < plan.layers@.len() ==> {
                let layer = #[trigger] plan.layers@[i];
                layer.q_a is Some && layer.q_a_norm is Some && layer.q_b is Some
                    && layer.kv_a_mqa is Some
                    && layer.kv_a_norm is Some && layer.k_b is Some && layer.v_b is Some
                        && layer.output is Some
            },
{
    let stated = |layer: Deepseek2AttentionLayerPlan|
        layer.q_a is Some && layer.q_a_norm is Some && layer.q_b is Some && layer.kv_a_mqa is Some
            && layer.kv_a_norm is Some && layer.k_b is Some && layer.v_b is Some
                && layer.output is Some;
    let complete = |layer: Deepseek2AttentionLayerPlan| layer.complete();
    assert(stated =~= complete);
    lemma_filter_keeps_all(plan.layers@, complete);
}

/// A filter keeps at most all, and all exactly where all pass.
pub proof fn lemma_filter_keeps_all<A>(items: Seq<A>, pred: spec_fn(A) -> bool)
    ensures
        items.filter(pred).len() <= items.len(),
        items.filter(pred).len() == items.len() <==> forall|i: int|
            0 <= i < items.len() ==> pred(#[trigger] items[i]),
    decreases items.len(),
{
    reveal(Seq::filter);
    if items.len() > 0 {
        let shorter = items.drop_last();
        lemma_filter_keeps_all(shorter, pred);
        if items.filter(pred).len() == items.len() {
            assert forall|i: int| 0 <= i < items.len() implies pred(#[trigger] items[i]) by {
                if i < items.len() - 1 {
                    assert(shorter[i] == items[i]);
                }
            }
        }
        if forall|i: int| 0 <= i < items.len() ==> pred(#[trigger] items[i]) {
            assert forall|i: int| 0 <= i < shorter.len() implies pred(#[trigger] shorter[i]) by {
                assert(shorter[i] == items[i]);
            }
            assert(pred(items[items.len() - 1]));
        }
    }
}

} // verus!
