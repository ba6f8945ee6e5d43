//! What the lines of a report tell.

use vstd::prelude::*;
use vstd::string::*;

use crate::attention::gguf_manifest::{
    Deepseek2AttentionLayerPlan, Deepseek2AttentionManifestPlan,
};
use crate::attention::plan_report::{first_layer_line, status_line};
use crate::attention::planning_laws;
use crate::text;
use crate::text_laws;

verus! {

/// Reading the report gives the counts of the plan back: behind the residency stand three numerals,
/// of which the first denotes the number of layers, the second the number of layers whose eight
/// slots are filled, and the third the number of tensors to stage. The second is at most the first,
/// and equal to it exactly where every layer is complete.
pub proof fn status_tells_the_counts(plan: Deepseek2AttentionManifestPlan, line: String) -> (read: (
    Seq<char>,
    Seq<char>,
    Seq<char>,
))
    requires
        call_ensures(status_line, (&plan,), line),
    ensures
        line@ == "status=ok architecture="@ + plan.architecture@ + " residency="@ + plan.residency@
            + " layers="@ + read.0 + " complete_mla_layers="@ + read.1 + " cuda_residency_tensors="@
            + read.2,
        text_laws::has_digits(read.0, plan.layers@.len() as int),
        ({
            let complete = plan.layers@.filter(
                |layer: Deepseek2AttentionLayerPlan|
                    layer.q_a is Some && layer.q_a_norm is Some && layer.q_b is Some
                        && layer.kv_a_mqa is Some
                        && layer.kv_a_norm is Some && layer.k_b is Some && layer.v_b is Some
                            && layer.output is Some,
            ).len();
            &&& text_laws::has_digits(read.1, complete as int)
            &&& complete <= plan.layers@.len()
            &&& complete == plan.layers@.len() <==> forall|i: int|
                0 <= i < plan.layers@.len() ==> {
                    let layer = #[trigger] plan.layers@[i];
                    layer.q_a is Some && layer.q_a_norm is Some && layer.q_b is Some
                        && layer.kv_a_mqa is Some
                        && layer.kv_a_norm is Some && layer.k_b is Some && layer.v_b is Some
                            && layer.output is Some
                }
        }),
        text_laws::has_digits(read.2, plan.residents().len() as int),
{
    let stated = |layer: Deepseek2AttentionLayerPlan|
        layer.q_a is Some && layer.q_a_norm is Some && layer.q_b is Some && layer.kv_a_mqa is Some
            && layer.kv_a_norm is Some && layer.k_b is Some && layer.v_b is Some
                && layer.output is Some;
    let complete = |layer: Deepseek2AttentionLayerPlan| layer.complete();
    assert(stated =~= complete);
    let layers = plan.layers@.len();
    let full = plan.layers@.filter(complete).len();
    let staged = plan.residents().len();
    planning_laws::lemma_filter_keeps_all(plan.layers@, complete);
    text_laws::lemma_decimal_has_digits(layers);
    text_laws::lemma_decimal_has_digits(full);
    text_laws::lemma_decimal_has_digits(staged);
    (text::decimal(layers), text::decimal(full), text::decimal(staged))
}

/// The second line tells of the first layer, where there is one: its number, whether its eight
/// slots are filled, and the names of the tensors in three of them, or that they are missing.
pub proof fn first_layer_is_told(plan: Deepseek2AttentionManifestPlan, line: Option<String>) -> (
    number: Seq<char>)
    requires
        call_ensures(first_layer_line, (&plan,), line),
    ensures
        line is Some <==> plan.layers@.len() > 0,
        line matches Some(words) ==> {
            let layer = plan.layers@[0];
            let complete = layer.q_a is Some && layer.q_a_norm is Some && layer.q_b is Some
                && layer.kv_a_mqa is Some
                && layer.kv_a_norm is Some && layer.k_b is Some && layer.v_b is Some
                    && layer.output is Some;
            &&& text_laws::has_digits(number, layer.layer as int)
            &&& words@ == "first_layer="@ + number + " complete_mla="@ + (if complete {
                "true"@
            } else {
                "false"@
            }) + " q_a="@ + (match layer.q_a {
                Some(tensor) => tensor.tensor@,
                None => "<missing>"@,
            }) + " kv_a_mqa="@ + (match layer.kv_a_mqa {
                Some(tensor) => tensor.tensor@,
                None => "<missing>"@,
            }) + " output="@ + (match layer.output {
                Some(tensor) => tensor.tensor@,
                None => "<missing>"@,
            })
        },
{
    let layer = plan.layers@[0].layer as nat;
    text_laws::lemma_decimal_has_digits(layer);
    text::decimal(layer)
}

} // verus!
