//! What holds of every plan.

use vstd::prelude::*;

use crate::attention::deepseek2_mla;
use crate::attention::gguf_manifest;
use crate::attention::gguf_manifest::{
    AttentionSlot, Deepseek2AttentionLayerPlan, Deepseek2AttentionManifestPlan,
    GgufAttentionTensorRef,
};
use crate::attention::tensor_name;
use crate::tensor::Deepseek2AttentionLayerTensors;
use crate::text;

verus! {

/// What `plan` holds in a slot of the MLA family.
pub open spec fn held(
    plan: Deepseek2AttentionLayerPlan,
    slot: AttentionSlot,
) -> Option<GgufAttentionTensorRef> {
    match slot {
        AttentionSlot::QA => plan.q_a,
        AttentionSlot::QANorm => plan.q_a_norm,
        AttentionSlot::QB => plan.q_b,
        AttentionSlot::KvAMqa => plan.kv_a_mqa,
        AttentionSlot::KvANorm => plan.kv_a_norm,
        AttentionSlot::KB => plan.k_b,
        AttentionSlot::VB => plan.v_b,
        AttentionSlot::Output => plan.output,
        AttentionSlot::Other => None,
    }
}

/// Tensor `i` of a manifest is the last that belongs in `slot` of `layer`.
pub open spec fn is_last_listed(
    tensors: Seq<GgufAttentionTensorRef>,
    layer: usize,
    slot: AttentionSlot,
    i: int,
) -> bool {
    &&& 0 <= i < tensors.len()
    &&& gguf_manifest::placement(tensors[i]) == Some((layer, slot))
    &&& forall|k: int|
        i < k < tensors.len() ==> gguf_manifest::placement(#[trigger] tensors[k]) != Some(
            (layer, slot),
        )
}

/// The manifest lists a tensor for `slot` of `layer`.
pub open spec fn lists(
    tensors: Seq<GgufAttentionTensorRef>,
    layer: usize,
    slot: AttentionSlot,
) -> bool {
    exists|i: int|
        0 <= i < tensors.len() && gguf_manifest::placement(#[trigger] tensors[i]) == Some(
            (layer, slot),
        )
}

/// What is chosen for a slot is the last of the tensors that the manifest lists for it.
pub open spec fn chooses_last(
    tensors: Seq<GgufAttentionTensorRef>,
    layer: usize,
    slot: AttentionSlot,
) -> bool {
    match gguf_manifest::chosen(tensors, layer, slot) {
        Some(tensor) => exists|i: int| #[trigger]
            is_last_listed(tensors, layer, slot, i) && tensors[i] == tensor,
        None => !lists(tensors, layer, slot),
    }
}

/// One more tensor at the end of the manifest is chosen for its own slot and changes no other.
proof fn lemma_still_chooses_last(
    tensors: Seq<GgufAttentionTensorRef>,
    layer: usize,
    slot: AttentionSlot,
)
    requires
        tensors.len() > 0,
        chooses_last(tensors.drop_last(), layer, slot),
    ensures
        chooses_last(tensors, layer, slot),
{
    reveal(Seq::filter);
    let shorter = tensors.drop_last();
    let last = tensors.len() - 1;
    if gguf_manifest::placement(tensors[last]) == Some((layer, slot)) {
        assert(is_last_listed(tensors, layer, slot, last));
    } else {
        match gguf_manifest::chosen(shorter, layer, slot) {
            Some(tensor) => {
                let i = choose|i: int| #[trigger]
                    is_last_listed(shorter, layer, slot, i) && shorter[i] == tensor;
                assert forall|k: int| i < k < tensors.len() implies gguf_manifest::placement(
                    #[trigger] tensors[k],
                ) != Some((layer, slot)) by {
                    if k < last {
                        assert(tensors[k] == shorter[k]);
                    }
                }
                assert(tensors[i] == shorter[i]);
                assert(is_last_listed(tensors, layer, slot, i));
            },
            None => {
                assert forall|k: int| 0 <= k < tensors.len() implies gguf_manifest::placement(
                    #[trigger] tensors[k],
                ) != Some((layer, slot)) by {
                    if k < last {
                        assert(tensors[k] == shorter[k]);
                    }
                }
            },
        }
    }
}

/// In every slot, the last tensor that the manifest lists for it is chosen.
proof fn lemma_chosen_is_last(tensors: Seq<GgufAttentionTensorRef>, layer: usize)
    ensures
        forall|slot: AttentionSlot|
            #![trigger gguf_manifest::chosen(tensors, layer, slot)]
            chooses_last(tensors, layer, slot),
    decreases tensors.len(),
{
    if tensors.len() > 0 {
        lemma_chosen_is_last(tensors.drop_last(), layer);
        assert forall|slot: AttentionSlot|
            #![trigger gguf_manifest::chosen(tensors, layer, slot)]
            chooses_last(tensors, layer, slot) by {
            assert(chooses_last(tensors.drop_last(), layer, slot));
            lemma_still_chooses_last(tensors, layer, slot);
        }
    } else {
        reveal(Seq::filter);
    }
}

/// A slot of the MLA family holds the tensor that the manifest lists last for it, and is empty only
/// where the manifest lists none.
pub proof fn slot_holds_last_listed(
    plan: Deepseek2AttentionLayerPlan,
    tensors: Seq<GgufAttentionTensorRef>,
    slot: AttentionSlot,
)
    requires
        gguf_manifest::plans_layer(plan, tensors),
        slot != AttentionSlot::Other,
    ensures
        match held(plan, slot) {
            Some(tensor) => exists|i: int| #[trigger]
                is_last_listed(tensors, plan.layer, slot, i) && tensors[i] == tensor,
            None => !lists(tensors, plan.layer, slot),
        },
{
    lemma_chosen_is_last(tensors, plan.layer);
}

/// A layer is complete exactly where the manifest lists a tensor for every slot of the MLA family.
pub proof fn complete_where_all_are_listed(
    plan: Deepseek2AttentionLayerPlan,
    tensors: Seq<GgufAttentionTensorRef>,
)
    requires
        gguf_manifest::plans_layer(plan, tensors),
    ensures
        plan.complete() <==> forall|slot: AttentionSlot|
            slot != AttentionSlot::Other ==> #[trigger] lists(tensors, plan.layer, slot),
{
    assert forall|slot: AttentionSlot|
        #![trigger lists(tensors, plan.layer, slot)]
        #![trigger held(plan, slot)]
        slot != AttentionSlot::Other implies lists(tensors, plan.layer, slot) == (held(plan, slot)
        is Some) by {
        slot_holds_last_listed(plan, tensors, slot);
    }
    assert(plan.complete() <==> forall|slot: AttentionSlot|
        slot != AttentionSlot::Other ==> #[trigger] held(plan, slot) is Some) by {
        if forall|slot: AttentionSlot|
            slot != AttentionSlot::Other ==> #[trigger] held(plan, slot) is Some {
            assert(held(plan, AttentionSlot::QA) is Some);
            assert(held(plan, AttentionSlot::QANorm) is Some);
            assert(held(plan, AttentionSlot::QB) is Some);
            assert(held(plan, AttentionSlot::KvAMqa) is Some);
            assert(held(plan, AttentionSlot::KvANorm) is Some);
            assert(held(plan, AttentionSlot::KB) is Some);
            assert(held(plan, AttentionSlot::VB) is Some);
            assert(held(plan, AttentionSlot::Output) is Some);
        }
    }
}

/// `tensor` stands in a slot of the MLA family of `plan` or among its other tensors.
pub open spec fn stands_in(
    plan: Deepseek2AttentionLayerPlan,
    tensor: GgufAttentionTensorRef,
) -> bool {
    ||| plan.q_a == Some(tensor)
    ||| plan.q_a_norm == Some(tensor)
    ||| plan.q_b == Some(tensor)
    ||| plan.kv_a_mqa == Some(tensor)
    ||| plan.kv_a_norm == Some(tensor)
    ||| plan.k_b == Some(tensor)
    ||| plan.v_b == Some(tensor)
    ||| plan.output == Some(tensor)
    ||| plan.other_attention_tensors@.contains(tensor)
}

proof fn lemma_present(tensor: GgufAttentionTensorRef)
    ensures
        forall|slot: Option<GgufAttentionTensorRef>| #[trigger]
            gguf_manifest::present(slot).contains(tensor) <==> slot == Some(tensor),
{
    assert(gguf_manifest::present(Some(tensor))[0] == tensor);
}

/// The tensors of a layer are those in its slots and its other tensors, and no more.
pub proof fn layer_residents_are_its_tensors(
    plan: Deepseek2AttentionLayerPlan,
    tensor: GgufAttentionTensorRef,
)
    ensures
        plan.residents().contains(tensor) <==> stands_in(plan, tensor),
{
    broadcast use vstd::seq_lib::lemma_seq_concat_contains_all_elements;

    lemma_present(tensor);
}

proof fn lemma_flatten_contains<A>(parts: Seq<Seq<A>>, item: A)
    ensures
        parts.flatten().contains(item) <==> exists|i: int|
            0 <= i < parts.len() && (#[trigger] parts[i]).contains(item),
    decreases parts.len(),
{
    if parts.len() > 0 {
        let shorter = parts.drop_last();
        assert(parts =~= shorter.push(parts.last()));
        shorter.lemma_flatten_push(parts.last());
        lemma_flatten_contains(shorter, item);
        vstd::seq_lib::lemma_seq_concat_contains_all_elements(
            shorter.flatten(),
            parts.last(),
            item,
        );
        if shorter.flatten().contains(item) {
            let i = choose|i: int| 0 <= i < shorter.len() && (#[trigger] shorter[i]).contains(item);
            assert(parts[i].contains(item));
        }
        if parts.last().contains(item) {
            assert(parts[parts.len() - 1].contains(item));
        }
        if exists|i: int| 0 <= i < parts.len() && (#[trigger] parts[i]).contains(item) {
            let i = choose|i: int| 0 <= i < parts.len() && (#[trigger] parts[i]).contains(item);
            if i < shorter.len() {
                assert(shorter[i].contains(item));
            }
        }
    }
}

/// The tensors of a plan are those of its layers.
pub proof fn residents_are_those_of_the_layers(
    plan: Deepseek2AttentionManifestPlan,
    tensor: GgufAttentionTensorRef,
)
    ensures
        plan.residents().contains(tensor) <==> exists|i: int|
            0 <= i < plan.layers@.len() && stands_in(#[trigger] plan.layers@[i], tensor),
{
    let parts = plan.layers@.map_values(|layer: Deepseek2AttentionLayerPlan| layer.residents());
    lemma_flatten_contains(parts, tensor);
    if plan.residents().contains(tensor) {
        let i = choose|i: int| 0 <= i < parts.len() && (#[trigger] parts[i]).contains(tensor);
        layer_residents_are_its_tensors(plan.layers@[i], tensor);
    }
    if exists|i: int| 0 <= i < plan.layers@.len() && stands_in(#[trigger] plan.layers@[i], tensor) {
        let i = choose|i: int|
            0 <= i < plan.layers@.len() && stands_in(#[trigger] plan.layers@[i], tensor);
        layer_residents_are_its_tensors(plan.layers@[i], tensor);
        assert(parts[i].contains(tensor));
    }
}

/// What stands in the plan of a layer is listed by the manifest and belongs to that layer.
proof fn lemma_stands_in(
    plan: Deepseek2AttentionLayerPlan,
    tensors: Seq<GgufAttentionTensorRef>,
    tensor: GgufAttentionTensorRef,
)
    requires
        gguf_manifest::plans_layer(plan, tensors),
        stands_in(plan, tensor),
    ensures
        tensors.contains(tensor),
        gguf_manifest::placement(tensor) matches Some((layer, _)) && layer == plan.layer,
{
    lemma_chosen_is_last(tensors, plan.layer);
    let others = gguf_manifest::placed(tensors, plan.layer, AttentionSlot::Other);
    if others.contains(tensor) {
        let pred = |t: GgufAttentionTensorRef|
            gguf_manifest::placement(t) == Some((plan.layer, AttentionSlot::Other));
        tensors.lemma_filter_contains_rev(pred, tensor);
        let i = choose|i: int| 0 <= i < others.len() && others[i] == tensor;
        tensors.lemma_filter_pred(pred, i);
    }
}

/// A plan holds attention tensors of its manifest alone: what it would stage is listed in the
/// manifest, and its name has `attn_` where the role stands. Expert and FFN tensors are none.
pub proof fn residents_are_listed_attention_tensors(
    plan: Deepseek2AttentionManifestPlan,
    tensors: Seq<GgufAttentionTensorRef>,
    tensor: GgufAttentionTensorRef,
)
    requires
        gguf_manifest::plans_layers(plan.layers@, tensors),
        plan.residents().contains(tensor),
    ensures
        tensors.contains(tensor),
        gguf_manifest::placement(tensor) is Some,
        exists|at: int|
            0 <= at <= tensor.tensor@.len() && ("attn_"@).is_prefix_of(
                #[trigger] tensor.tensor@.skip(at),
            ),
{
    residents_are_those_of_the_layers(plan, tensor);
    let i = choose|i: int|
        0 <= i < plan.layers@.len() && stands_in(#[trigger] plan.layers@[i], tensor);
    lemma_stands_in(plan.layers@[i], tensors, tensor);
    tensor_name::role_stands_in_name(tensor.tensor@);
}

/// An FFN tensor of any block is never among what a plan would stage.
pub proof fn ffn_tensors_are_never_resident(
    plan: Deepseek2AttentionManifestPlan,
    tensors: Seq<GgufAttentionTensorRef>,
    tensor: GgufAttentionTensorRef,
    block: Seq<char>,
    rest: Seq<char>,
)
    requires
        gguf_manifest::plans_layers(plan.layers@, tensors),
        !block.contains('.'),
        tensor.tensor@ == "blk."@ + block + ".ffn_"@ + rest,
    ensures
        !plan.residents().contains(tensor),
{
    tensor_name::ffn_names_have_no_role(block, rest);
    if plan.residents().contains(tensor) {
        residents_are_listed_attention_tensors(plan, tensors, tensor);
    }
}

/// No attention tensor is lost: it is staged, or the manifest lists another tensor for its slot of
/// the MLA family later, and the last of those is staged. Tensors outside the family are all
/// staged.
pub proof fn attention_tensors_are_resident_or_replaced(
    plan: Deepseek2AttentionManifestPlan,
    tensors: Seq<GgufAttentionTensorRef>,
    i: int,
    layer: usize,
    slot: AttentionSlot,
)
    requires
        gguf_manifest::plans_layers(plan.layers@, tensors),
        0 <= i < tensors.len(),
        gguf_manifest::placement(tensors[i]) == Some((layer, slot)),
    ensures
        slot == AttentionSlot::Other ==> plan.residents().contains(tensors[i]),
        slot != AttentionSlot::Other ==> exists|last: int|
            {
                &&& i <= last
                &&& #[trigger] is_last_listed(tensors, layer, slot, last)
                &&& plan.residents().contains(tensors[last])
            },
{
    assert(gguf_manifest::mentions(tensors, layer));
    let at = choose|at: int|
        0 <= at < plan.layers@.len() && (#[trigger] plan.layers@[at]).layer == layer;
    let of_layer = plan.layers@[at];
    assert(gguf_manifest::plans_layer(of_layer, tensors));
    if slot == AttentionSlot::Other {
        let pred = |t: GgufAttentionTensorRef|
            gguf_manifest::placement(t) == Some((layer, AttentionSlot::Other));
        tensors.lemma_filter_contains(pred, i);
        assert(stands_in(of_layer, tensors[i]));
        residents_are_those_of_the_layers(plan, tensors[i]);
    } else {
        slot_holds_last_listed(of_layer, tensors, slot);
        assert(lists(tensors, layer, slot));
        let last = choose|last: int| #[trigger]
            is_last_listed(tensors, layer, slot, last) && tensors[last] == held(
                of_layer,
                slot,
            )->Some_0;
        assert(stands_in(of_layer, tensors[last]));
        residents_are_those_of_the_layers(plan, tensors[last]);
    }
}

proof fn lemma_same_layers(
    a: Seq<Deepseek2AttentionLayerPlan>,
    b: Seq<Deepseek2AttentionLayerPlan>,
    tensors: Seq<GgufAttentionTensorRef>,
    n: int,
)
    requires
        gguf_manifest::plans_layers(a, tensors),
        gguf_manifest::plans_layers(b, tensors),
        0 <= n <= a.len(),
    ensures
        n <= b.len(),
        forall|k: int| 0 <= k < n ==> (#[trigger] a[k]).layer == (#[trigger] b[k]).layer,
    decreases n,
{
    if n > 0 {
        lemma_same_layers(a, b, tensors, n - 1);
        let i = n - 1;
        assert(gguf_manifest::mentions(tensors, a[i].layer));
        let j = choose|j: int| 0 <= j < b.len() && (#[trigger] b[j]).layer == a[i].layer;
        if j < i {
            assert(a[j].layer == b[j].layer);
        }
        assert(i <= j);
        assert(gguf_manifest::mentions(tensors, b[i].layer));
        let k = choose|k: int| 0 <= k < a.len() && (#[trigger] a[k]).layer == b[i].layer;
        if k < i {
            assert(a[k].layer == b[k].layer);
        }
    }
}

/// Two plans of one layer hold the same.
pub open spec fn same_layer_plan(
    a: Deepseek2AttentionLayerPlan,
    b: Deepseek2AttentionLayerPlan,
) -> bool {
    &&& a.layer == b.layer
    &&& forall|slot: AttentionSlot| #[trigger] held(a, slot) == held(b, slot)
    &&& a.other_attention_tensors@ == b.other_attention_tensors@
}

/// The manifest determines the plan: which layers it has, in which order, and what each holds.
pub proof fn plan_is_determined(
    a: Seq<Deepseek2AttentionLayerPlan>,
    b: Seq<Deepseek2AttentionLayerPlan>,
    tensors: Seq<GgufAttentionTensorRef>,
)
    requires
        gguf_manifest::plans_layers(a, tensors),
        gguf_manifest::plans_layers(b, tensors),
    ensures
        a.len() == b.len(),
        forall|i: int| 0 <= i < a.len() ==> same_layer_plan(#[trigger] a[i], b[i]),
{
    lemma_same_layers(a, b, tensors, a.len() as int);
    lemma_same_layers(b, a, tensors, b.len() as int);
    assert forall|i: int| 0 <= i < a.len() implies same_layer_plan(#[trigger] a[i], b[i]) by {
        assert(gguf_manifest::plans_layer(b[i], tensors));
    }
}

/// The attention tensors of a manifest, without all others.
pub open spec fn attention_tensors(
    tensors: Seq<GgufAttentionTensorRef>,
) -> Seq<GgufAttentionTensorRef> {
    tensors.filter(|t: GgufAttentionTensorRef| gguf_manifest::placement(t) is Some)
}

/// Every slot gets the same from a manifest and from its attention tensors alone.
proof fn lemma_placed_among_attention(tensors: Seq<GgufAttentionTensorRef>, layer: usize)
    ensures
        forall|slot: AttentionSlot|
            #![trigger gguf_manifest::placed(tensors, layer, slot)]
            #![trigger gguf_manifest::placed(attention_tensors(tensors), layer, slot)]
            gguf_manifest::placed(attention_tensors(tensors), layer, slot) == gguf_manifest::placed(
                tensors,
                layer,
                slot,
            ),
    decreases tensors.len(),
{
    reveal(Seq::filter);
    if tensors.len() > 0 {
        let shorter = tensors.drop_last();
        let last = tensors.last();
        lemma_placed_among_attention(shorter, layer);
        if gguf_manifest::placement(last) is Some {
            assert(attention_tensors(tensors).drop_last() =~= attention_tensors(shorter));
        }
        assert forall|slot: AttentionSlot|
            #![trigger gguf_manifest::placed(tensors, layer, slot)]
            #![trigger gguf_manifest::placed(attention_tensors(tensors), layer, slot)]
            gguf_manifest::placed(attention_tensors(tensors), layer, slot) == gguf_manifest::placed(
                tensors,
                layer,
                slot,
            ) by {
            assert(gguf_manifest::placed(attention_tensors(shorter), layer, slot)
                == gguf_manifest::placed(shorter, layer, slot));
        }
    }
}

proof fn lemma_mentioned_among_attention(tensors: Seq<GgufAttentionTensorRef>, layer: usize)
    ensures
        gguf_manifest::mentions(attention_tensors(tensors), layer) == gguf_manifest::mentions(
            tensors,
            layer,
        ),
{
    let pred = |t: GgufAttentionTensorRef| gguf_manifest::placement(t) is Some;
    let kept = attention_tensors(tensors);
    if gguf_manifest::mentions(tensors, layer) {
        let i = choose|i: int|
            0 <= i < tensors.len() && (#[trigger] gguf_manifest::placement(tensors[i]) matches Some(
                (l, _),
            ) && l == layer);
        tensors.lemma_filter_contains(pred, i);
        let k = choose|k: int| 0 <= k < kept.len() && kept[k] == tensors[i];
        assert(gguf_manifest::placement(kept[k]) is Some);
    }
    if gguf_manifest::mentions(kept, layer) {
        let k = choose|k: int|
            0 <= k < kept.len() && (#[trigger] gguf_manifest::placement(kept[k]) matches Some(
                (l, _),
            ) && l == layer);
        assert(kept.contains(kept[k]));
        tensors.lemma_filter_contains_rev(pred, kept[k]);
        let i = choose|i: int| 0 <= i < tensors.len() && tensors[i] == kept[k];
        assert(gguf_manifest::placement(tensors[i]) is Some);
    }
}

/// Expert tensors and whatever else is no attention tensor change nothing: a manifest is planned as
/// it would be without them.
pub proof fn other_tensors_change_nothing(
    layers: Seq<Deepseek2AttentionLayerPlan>,
    tensors: Seq<GgufAttentionTensorRef>,
)
    ensures
        gguf_manifest::plans_layers(layers, tensors) == gguf_manifest::plans_layers(
            layers,
            attention_tensors(tensors),
        ),
{
    let kept = attention_tensors(tensors);
    assert forall|plan: Deepseek2AttentionLayerPlan| #[trigger]
        gguf_manifest::plans_layer(plan, tensors) == gguf_manifest::plans_layer(plan, kept) by {
        lemma_placed_among_attention(tensors, plan.layer);
    }
    assert forall|layer: usize|
        #![trigger gguf_manifest::mentions(tensors, layer)]
        #![trigger gguf_manifest::mentions(kept, layer)]
        gguf_manifest::mentions(tensors, layer) == gguf_manifest::mentions(kept, layer) by {
        lemma_mentioned_among_attention(tensors, layer);
    }
    if gguf_manifest::plans_layers(layers, tensors) {
        assert(forall|i: int|
            0 <= i < layers.len() ==> gguf_manifest::plans_layer(#[trigger] layers[i], tensors));
    }
    if gguf_manifest::plans_layers(layers, kept) {
        assert forall|i: int| 0 <= i < layers.len() implies gguf_manifest::plans_layer(
            #[trigger] layers[i],
            tensors,
        ) by {
            assert(gguf_manifest::plans_layer(layers[i], kept));
        }
    }
}

/// The layer that the name of an attention tensor gives.
pub open spec fn layer_of(tensor: GgufAttentionTensorRef) -> usize {
    gguf_manifest::placement(tensor)->Some_0.0
}

proof fn lemma_residents_ascend(
    layers: Seq<Deepseek2AttentionLayerPlan>,
    tensors: Seq<GgufAttentionTensorRef>,
    n: int,
)
    requires
        gguf_manifest::plans_layers(layers, tensors),
        0 <= n <= layers.len(),
    ensures
        ({
            let flat = layers.take(n).map_values(
                |layer: Deepseek2AttentionLayerPlan| layer.residents(),
            ).flatten();
            &&& forall|i: int, j: int|
                0 <= i <= j < flat.len() ==> layer_of(#[trigger] flat[i]) <= layer_of(
                    #[trigger] flat[j],
                )
            &&& forall|i: int|
                0 <= i < flat.len() ==> n > 0 && layer_of(#[trigger] flat[i]) <= layers[n
                    - 1].layer
        }),
    decreases n,
{
    let each = |layer: Deepseek2AttentionLayerPlan| layer.residents();
    if n > 0 {
        lemma_residents_ascend(layers, tensors, n - 1);
        let last = layers[n - 1];
        let before = layers.take(n - 1).map_values(each);
        assert(layers.take(n).map_values(each) =~= before.push(last.residents()));
        before.lemma_flatten_push(last.residents());
        let flat = layers.take(n).map_values(each).flatten();
        let split = before.flatten().len() as int;
        assert(flat =~= before.flatten() + last.residents());
        assert forall|i: int| split <= i < flat.len() implies layer_of(#[trigger] flat[i])
            == last.layer by {
            let tensor = flat[i];
            assert(tensor == last.residents()[i - split]);
            assert(last.residents().contains(tensor));
            layer_residents_are_its_tensors(last, tensor);
            lemma_stands_in(last, tensors, tensor);
        }
        assert forall|i: int| 0 <= i < split implies layer_of(#[trigger] flat[i]) <= last.layer by {
            assert(flat[i] == before.flatten()[i]);
            assert(layers[n - 2].layer < last.layer);
        }
        assert forall|i: int, j: int| 0 <= i <= j < flat.len() implies layer_of(#[trigger] flat[i])
            <= layer_of(#[trigger] flat[j]) by {
            if j < split {
                assert(flat[i] == before.flatten()[i]);
                assert(flat[j] == before.flatten()[j]);
            }
        }
    } else {
        assert(layers.take(0).map_values(each) =~= Seq::<Seq<GgufAttentionTensorRef>>::empty());
    }
}

/// The tensors of a plan come in the order of their layers.
pub proof fn residents_come_in_layer_order(
    plan: Deepseek2AttentionManifestPlan,
    tensors: Seq<GgufAttentionTensorRef>,
    i: int,
    j: int,
)
    requires
        gguf_manifest::plans_layers(plan.layers@, tensors),
        0 <= i <= j < plan.residents().len(),
    ensures
        layer_of(plan.residents()[i]) <= layer_of(plan.residents()[j]),
{
    lemma_residents_ascend(plan.layers@, tensors, plan.layers@.len() as int);
    assert(plan.layers@.take(plan.layers@.len() as int) =~= plan.layers@);
}

/// The names under which the evaluation of a layer looks for its tensors are the names that put
/// tensors into the slots of that layer; the weights that normalize its input go to the others.
pub proof fn evaluated_names_fill_their_slots(tensor: GgufAttentionTensorRef, layer: usize)
    ensures
        tensor.tensor@ == tensor_name::layer_tensor_name(layer as nat, "_q_a.weight"@)
            ==> gguf_manifest::placement(tensor) == Some((layer, AttentionSlot::QA)),
        tensor.tensor@ == tensor_name::layer_tensor_name(layer as nat, "_q_a_norm.weight"@)
            ==> gguf_manifest::placement(tensor) == Some((layer, AttentionSlot::QANorm)),
        tensor.tensor@ == tensor_name::layer_tensor_name(layer as nat, "_q_b.weight"@)
            ==> gguf_manifest::placement(tensor) == Some((layer, AttentionSlot::QB)),
        tensor.tensor@ == tensor_name::layer_tensor_name(layer as nat, "_kv_a_mqa.weight"@)
            ==> gguf_manifest::placement(tensor) == Some((layer, AttentionSlot::KvAMqa)),
        tensor.tensor@ == tensor_name::layer_tensor_name(layer as nat, "_kv_a_norm.weight"@)
            ==> gguf_manifest::placement(tensor) == Some((layer, AttentionSlot::KvANorm)),
        tensor.tensor@ == tensor_name::layer_tensor_name(layer as nat, "_k_b.weight"@)
            ==> gguf_manifest::placement(tensor) == Some((layer, AttentionSlot::KB)),
        tensor.tensor@ == tensor_name::layer_tensor_name(layer as nat, "_v_b.weight"@)
            ==> gguf_manifest::placement(tensor) == Some((layer, AttentionSlot::VB)),
        tensor.tensor@ == tensor_name::layer_tensor_name(layer as nat, "_output.weight"@)
            ==> gguf_manifest::placement(tensor) == Some((layer, AttentionSlot::Output)),
        tensor.tensor@ == tensor_name::layer_tensor_name(layer as nat, "_norm.weight"@)
            ==> gguf_manifest::placement(tensor) == Some((layer, AttentionSlot::Other)),
{
    reveal_strlit("attn");
    reveal_strlit("_");
    reveal_strlit("_q_a.weight");
    reveal_strlit("attn_q_a.weight");
    reveal_strlit("_q_a_norm.weight");
    reveal_strlit("attn_q_a_norm.weight");
    reveal_strlit("_q_b.weight");
    reveal_strlit("attn_q_b.weight");
    reveal_strlit("_kv_a_mqa.weight");
    reveal_strlit("attn_kv_a_mqa.weight");
    reveal_strlit("_kv_a_norm.weight");
    reveal_strlit("attn_kv_a_norm.weight");
    reveal_strlit("_k_b.weight");
    reveal_strlit("attn_k_b.weight");
    reveal_strlit("_v_b.weight");
    reveal_strlit("attn_v_b.weight");
    reveal_strlit("_output.weight");
    reveal_strlit("attn_output.weight");
    reveal_strlit("_norm.weight");
    assert(("_"@).is_prefix_of("_q_a.weight"@));
    tensor_name::name_gives_layer_and_role(layer, "_q_a.weight"@);
    assert(("_"@).is_prefix_of("_q_a_norm.weight"@));
    tensor_name::name_gives_layer_and_role(layer, "_q_a_norm.weight"@);
    assert(("_"@).is_prefix_of("_q_b.weight"@));
    tensor_name::name_gives_layer_and_role(layer, "_q_b.weight"@);
    assert(("_"@).is_prefix_of("_kv_a_mqa.weight"@));
    tensor_name::name_gives_layer_and_role(layer, "_kv_a_mqa.weight"@);
    assert(("_"@).is_prefix_of("_kv_a_norm.weight"@));
    tensor_name::name_gives_layer_and_role(layer, "_kv_a_norm.weight"@);
    assert(("_"@).is_prefix_of("_k_b.weight"@));
    tensor_name::name_gives_layer_and_role(layer, "_k_b.weight"@);
    assert(("_"@).is_prefix_of("_v_b.weight"@));
    tensor_name::name_gives_layer_and_role(layer, "_v_b.weight"@);
    assert(("_"@).is_prefix_of("_output.weight"@));
    tensor_name::name_gives_layer_and_role(layer, "_output.weight"@);
    assert(("_"@).is_prefix_of("_norm.weight"@));
    tensor_name::name_gives_layer_and_role(layer, "_norm.weight"@);
    assert("attn"@ + "_q_a.weight"@ =~= "attn_q_a.weight"@);
    assert("attn"@ + "_q_a_norm.weight"@ =~= "attn_q_a_norm.weight"@);
    assert("attn"@ + "_q_b.weight"@ =~= "attn_q_b.weight"@);
    assert("attn"@ + "_kv_a_mqa.weight"@ =~= "attn_kv_a_mqa.weight"@);
    assert("attn"@ + "_kv_a_norm.weight"@ =~= "attn_kv_a_norm.weight"@);
    assert("attn"@ + "_k_b.weight"@ =~= "attn_k_b.weight"@);
    assert("attn"@ + "_v_b.weight"@ =~= "attn_v_b.weight"@);
    assert("attn"@ + "_output.weight"@ =~= "attn_output.weight"@);
    assert(("attn"@ + "_norm.weight"@).len() == 16);
    assert(("attn_q_a.weight"@)[5] == 'q' && ("attn_q_a.weight"@)[7] == 'a');
    assert(("attn_q_b.weight"@)[5] == 'q' && ("attn_q_b.weight"@)[7] == 'b');
    assert(("attn_k_b.weight"@)[5] == 'k');
    assert(("attn_v_b.weight"@)[5] == 'v');
    assert(("attn_q_a_norm.weight"@)[5] == 'q');
    assert(("attn_kv_a_mqa.weight"@)[5] == 'k');
}

/// How the name of the tensor in a slot of the MLA family ends.
pub open spec fn slot_suffix(slot: AttentionSlot) -> Seq<char>
    recommends
        slot != AttentionSlot::Other,
{
    match slot {
        AttentionSlot::QA => "_q_a.weight"@,
        AttentionSlot::QANorm => "_q_a_norm.weight"@,
        AttentionSlot::QB => "_q_b.weight"@,
        AttentionSlot::KvAMqa => "_kv_a_mqa.weight"@,
        AttentionSlot::KvANorm => "_kv_a_norm.weight"@,
        AttentionSlot::KB => "_k_b.weight"@,
        AttentionSlot::VB => "_v_b.weight"@,
        AttentionSlot::Output => "_output.weight"@,
        AttentionSlot::Other => ""@,
    }
}

/// The layer in the name of `tensor` is written as a number is: without a sign or leading zeros.
pub open spec fn plainly_numbered(tensor: GgufAttentionTensorRef) -> bool {
    tensor_name::tensor_role(tensor.tensor@) matches Some((layer, role)) ==> tensor.tensor@
        == "blk."@ + text::decimal(layer as nat) + "."@ + role
}

/// A plainly numbered tensor is in a slot of the MLA family exactly where it has the name under
/// which the evaluation of the layer looks for it.
pub proof fn slots_go_by_evaluated_names(
    tensor: GgufAttentionTensorRef,
    layer: usize,
    slot: AttentionSlot,
)
    requires
        plainly_numbered(tensor),
        slot != AttentionSlot::Other,
    ensures
        gguf_manifest::placement(tensor) == Some((layer, slot)) <==> tensor.tensor@
            == tensor_name::layer_tensor_name(layer as nat, slot_suffix(slot)),
{
    evaluated_names_fill_their_slots(tensor, layer);
    reveal_strlit("blk.");
    reveal_strlit(".");
    reveal_strlit(".attn");
    reveal_strlit("_q_a.weight");
    reveal_strlit("attn_q_a.weight");
    reveal_strlit("_q_a_norm.weight");
    reveal_strlit("attn_q_a_norm.weight");
    reveal_strlit("_q_b.weight");
    reveal_strlit("attn_q_b.weight");
    reveal_strlit("_kv_a_mqa.weight");
    reveal_strlit("attn_kv_a_mqa.weight");
    reveal_strlit("_kv_a_norm.weight");
    reveal_strlit("attn_kv_a_norm.weight");
    reveal_strlit("_k_b.weight");
    reveal_strlit("attn_k_b.weight");
    reveal_strlit("_v_b.weight");
    reveal_strlit("attn_v_b.weight");
    reveal_strlit("_output.weight");
    reveal_strlit("attn_output.weight");
    if gguf_manifest::placement(tensor) == Some((layer, slot)) {
        let role = tensor_name::tensor_role(tensor.tensor@)->Some_0.1;
        assert("."@ + role =~= ".attn"@ + slot_suffix(slot));
        assert(tensor.tensor@ =~= tensor_name::layer_tensor_name(
            layer as nat,
            slot_suffix(slot),
        ));
    }
}

/// Of the attention tensors of its layer, `loaded` has exactly those that the manifest lists.
pub open spec fn loads<T>(
    loaded: Deepseek2AttentionLayerTensors<T>,
    tensors: Seq<GgufAttentionTensorRef>,
) -> bool {
    forall|suffix: Seq<char>| #[trigger]
        deepseek2_mla::has_part(loaded, suffix) <==> exists|i: int|
            0 <= i < tensors.len() && (#[trigger] tensors[i]).tensor@
                == tensor_name::layer_tensor_name(loaded.layer as nat, suffix)
}

/// A layer is complete exactly where the evaluation finds every tensor that it needs among the
/// tensors that the manifest lists, if these are plainly numbered.
pub proof fn complete_layers_have_what_evaluation_needs<T>(
    plan: Deepseek2AttentionLayerPlan,
    tensors: Seq<GgufAttentionTensorRef>,
    loaded: Deepseek2AttentionLayerTensors<T>,
)
    requires
        gguf_manifest::plans_layer(plan, tensors),
        forall|i: int| 0 <= i < tensors.len() ==> plainly_numbered(#[trigger] tensors[i]),
        loaded.layer == plan.layer,
        loads(loaded, tensors),
    ensures
        plan.complete() <==> deepseek2_mla::family_fault(loaded) is None,
{
    let fed = |slot: AttentionSlot|
        deepseek2_mla::has_part(loaded, slot_suffix(slot)) == lists(tensors, plan.layer, slot);
    assert forall|slot: AttentionSlot| slot != AttentionSlot::Other implies #[trigger] fed(
        slot,
    ) by {
        let name = tensor_name::layer_tensor_name(plan.layer as nat, slot_suffix(slot));
        if deepseek2_mla::has_part(loaded, slot_suffix(slot)) {
            let i = choose|i: int|
                0 <= i < tensors.len() && (#[trigger] tensors[i]).tensor@ == name;
            slots_go_by_evaluated_names(tensors[i], plan.layer, slot);
        }
        if lists(tensors, plan.layer, slot) {
            let i = choose|i: int|
                0 <= i < tensors.len() && gguf_manifest::placement(#[trigger] tensors[i]) == Some(
                    (plan.layer, slot),
                );
            slots_go_by_evaluated_names(tensors[i], plan.layer, slot);
        }
    }
    assert(fed(AttentionSlot::QA));
    assert(fed(AttentionSlot::QANorm));
    assert(fed(AttentionSlot::QB));
    assert(fed(AttentionSlot::KvAMqa));
    assert(fed(AttentionSlot::KvANorm));
    assert(fed(AttentionSlot::KB));
    assert(fed(AttentionSlot::VB));
    assert(fed(AttentionSlot::Output));
    complete_where_all_are_listed(plan, tensors);
    if deepseek2_mla::family_fault(loaded) is None {
        assert forall|slot: AttentionSlot| slot != AttentionSlot::Other implies #[trigger] lists(
            tensors,
            plan.layer,
            slot,
        ) by {
            assert(fed(slot));
        }
    }
}

} // verus!
