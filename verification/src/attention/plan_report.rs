//! A plan in two lines of text.

use vstd::prelude::*;
use vstd::string::*;

use crate::attention::gguf_manifest::{
    Deepseek2AttentionLayerPlan, Deepseek2AttentionManifestPlan, GgufAttentionTensorRef,
};
use crate::text;
use crate::text::decimal_text;

verus! {

/// The name of the tensor in a slot, or a mark that there is none.
pub open spec fn slot_name(slot: Option<GgufAttentionTensorRef>) -> Seq<char> {
    match slot {
        Some(tensor) => tensor.tensor@,
        None => "<missing>"@,
    }
}

fn append_slot_name(line: &mut String, slot: &Option<GgufAttentionTensorRef>)
    ensures
        final(line)@ == old(line)@ + slot_name(*slot),
{
    match slot {
        Some(tensor) => line.append(tensor.tensor.as_str()),
        None => line.append("<missing>"),
    }
}

/// What a plan comes to as a whole: where it is from, how many layers it has, how many of them are
/// complete, and how many tensors may be staged.
pub open spec fn status_text(plan: Deepseek2AttentionManifestPlan) -> Seq<char> {
    "status=ok architecture="@ + plan.architecture@ + " residency="@ + plan.residency@ + " layers="@
        + text::decimal(plan.layers@.len()) + " complete_mla_layers="@ + text::decimal(
        plan.layers@.filter(|layer: Deepseek2AttentionLayerPlan| layer.complete()).len(),
    ) + " cuda_residency_tensors="@ + text::decimal(plan.residents().len())
}

/// What the first layer of a plan has.
pub open spec fn layer_text(layer: Deepseek2AttentionLayerPlan) -> Seq<char> {
    "first_layer="@ + text::decimal(layer.layer as nat) + " complete_mla="@ + (
    if layer.complete() {
        "true"@
    } else {
        "false"@
    }) + " q_a="@ + slot_name(layer.q_a) + " kv_a_mqa="@ + slot_name(layer.kv_a_mqa) + " output="@
        + slot_name(layer.output)
}

/// Writes the line on a plan as a whole.
pub fn status_line(plan: &Deepseek2AttentionManifestPlan) -> (line: String)
    ensures
        line@ == status_text(*plan),
{
    let tensors = plan.tensors_for_cuda_residency();
    assert(tensors@.len() == tensors@.unref().len());
    let mut line = "status=ok architecture=".to_owned();
    line.append(plan.architecture.as_str());
    line.append(" residency=");
    line.append(plan.residency.as_str());
    line.append(" layers=");
    line.append(decimal_text(plan.layers.len()).as_str());
    line.append(" complete_mla_layers=");
    line.append(decimal_text(plan.complete_mla_layers()).as_str());
    line.append(" cuda_residency_tensors=");
    line.append(decimal_text(tensors.len()).as_str());
    line
}

/// Writes the line on the first layer of a plan, where it has one.
pub fn first_layer_line(plan: &Deepseek2AttentionManifestPlan) -> (line: Option<String>)
    ensures
        match line {
            Some(words) => plan.layers@.len() > 0 && words@ == layer_text(plan.layers@[0]),
            None => plan.layers@.len() == 0,
        },
{
    if plan.layers.len() == 0 {
        return None;
    }
    let first = &plan.layers[0];
    let mut line = "first_layer=".to_owned();
    line.append(decimal_text(first.layer).as_str());
    line.append(" complete_mla=");
    line.append(
        if first.is_mla_complete() {
            "true"
        } else {
            "false"
        },
    );
    line.append(" q_a=");
    append_slot_name(&mut line, &first.q_a);
    line.append(" kv_a_mqa=");
    append_slot_name(&mut line, &first.kv_a_mqa);
    line.append(" output=");
    append_slot_name(&mut line, &first.output);
    Some(line)
}

} // verus!
