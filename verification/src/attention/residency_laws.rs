//! What the tensors of a plan have in common with the manifest, taken together.

use vstd::prelude::*;

use crate::attention::gguf_manifest;
use crate::attention::gguf_manifest::{
    AttentionSlot, Deepseek2AttentionLayerPlan, Deepseek2AttentionManifestPlan,
    GgufAttentionTensorRef,
};
use crate::attention::plan_laws;
use crate::attention::tensor_name;

verus! {

/// What `plan` holds for `slot`, as a sequence.
pub open spec fn kept(
    plan: Deepseek2AttentionLayerPlan,
    slot: AttentionSlot,
) -> Seq<GgufAttentionTensorRef> {
    if slot == AttentionSlot::Other {
        plan.other_attention_tensors@
    } else {
        gguf_manifest::present(plan_laws::held(plan, slot))
    }
}

/// Of tensors that all have one place, all are found there and none elsewhere.
proof fn lemma_placed_together(
    tensors: Seq<GgufAttentionTensorRef>,
    place: (usize, AttentionSlot),
    layer: usize,
    slot: AttentionSlot,
)
    requires
        forall|i: int|
            0 <= i < tensors.len() ==> gguf_manifest::placement(#[trigger] tensors[i]) == Some(
                place,
            ),
    ensures
        gguf_manifest::placed(tensors, layer, slot) == if place == (layer, slot) {
            tensors
        } else {
            seq![]
        },
    decreases tensors.len(),
{
    reveal(Seq::filter);
    if tensors.len() > 0 {
        let shorter = tensors.drop_last();
        assert forall|i: int| 0 <= i < shorter.len() implies gguf_manifest::placement(
            #[trigger] shorter[i],
        ) == Some(place) by {
            assert(shorter[i] == tensors[i]);
        }
        lemma_placed_together(shorter, place, layer, slot);
        assert(gguf_manifest::placement(tensors[tensors.len() - 1]) == Some(place));
        assert(tensors =~= shorter.push(tensors.last()));
    } else {
        assert(tensors =~= seq![]);
    }
}

/// Of what `plan` holds for `home`, all belongs there: in `slot` of `layer` it has all or nothing.
spec fn belongs(
    plan: Deepseek2AttentionLayerPlan,
    home: AttentionSlot,
    layer: usize,
    slot: AttentionSlot,
) -> bool {
    gguf_manifest::placed(kept(plan, home), layer, slot) == if (plan.layer, home) == (layer, slot) {
        kept(plan, home)
    } else {
        seq![]
    }
}

/// What a plan holds for a slot of its own layer belongs there.
proof fn lemma_kept_belongs(
    plan: Deepseek2AttentionLayerPlan,
    tensors: Seq<GgufAttentionTensorRef>,
    home: AttentionSlot,
    layer: usize,
    slot: AttentionSlot,
)
    requires
        gguf_manifest::plans_layer(plan, tensors),
    ensures
        belongs(plan, home, layer, slot),
{
    let held = kept(plan, home);
    assert forall|i: int| 0 <= i < held.len() implies gguf_manifest::placement(#[trigger] held[i])
        == Some((plan.layer, home)) by {
        if home == AttentionSlot::Other {
            tensors.lemma_filter_pred(
                |t: GgufAttentionTensorRef|
                    gguf_manifest::placement(t) == Some((plan.layer, AttentionSlot::Other)),
                i,
            );
        } else {
            plan_laws::slot_holds_last_listed(plan, tensors, home);
        }
    }
    lemma_placed_together(held, (plan.layer, home), layer, slot);
}

/// Putting what a plan holds for slot `home` behind other tensors adds it to that slot alone.
proof fn lemma_placed_behind(
    before: Seq<GgufAttentionTensorRef>,
    plan: Deepseek2AttentionLayerPlan,
    home: AttentionSlot,
    layer: usize,
    slot: AttentionSlot,
)
    requires
        belongs(plan, home, layer, slot),
    ensures
        gguf_manifest::placed(before + kept(plan, home), layer, slot) == if (plan.layer, home) == (
            layer,
            slot,
        ) {
            gguf_manifest::placed(before, layer, slot) + kept(plan, home)
        } else {
            gguf_manifest::placed(before, layer, slot)
        },
{
    Seq::filter_distributes_over_add(
        before,
        kept(plan, home),
        |t: GgufAttentionTensorRef| gguf_manifest::placement(t) == Some((layer, slot)),
    );
    let found = gguf_manifest::placed(before, layer, slot);
    assert(found + seq![] =~= found);
}

/// The tensors of a layer whose slots hold what belongs there, slot by slot.
#[verifier::rlimit(40)]
proof fn lemma_placed_by_slot(
    plan: Deepseek2AttentionLayerPlan,
    layer: usize,
    slot: AttentionSlot,
)
    requires
        forall|home: AttentionSlot| #[trigger] belongs(plan, home, layer, slot),
    ensures
        gguf_manifest::placed(plan.residents(), layer, slot) == if plan.layer == layer {
            kept(plan, slot)
        } else {
            seq![]
        },
{
    let q_a = kept(plan, AttentionSlot::QA);
    let q_a_norm = q_a + kept(plan, AttentionSlot::QANorm);
    let q_b = q_a_norm + kept(plan, AttentionSlot::QB);
    let kv_a_mqa = q_b + kept(plan, AttentionSlot::KvAMqa);
    let kv_a_norm = kv_a_mqa + kept(plan, AttentionSlot::KvANorm);
    let k_b = kv_a_norm + kept(plan, AttentionSlot::KB);
    let v_b = k_b + kept(plan, AttentionSlot::VB);
    let output = v_b + kept(plan, AttentionSlot::Output);
    assert(belongs(plan, AttentionSlot::QA, layer, slot));
    lemma_placed_behind(q_a, plan, AttentionSlot::QANorm, layer, slot);
    lemma_placed_behind(q_a_norm, plan, AttentionSlot::QB, layer, slot);
    lemma_placed_behind(q_b, plan, AttentionSlot::KvAMqa, layer, slot);
    lemma_placed_behind(kv_a_mqa, plan, AttentionSlot::KvANorm, layer, slot);
    lemma_placed_behind(kv_a_norm, plan, AttentionSlot::KB, layer, slot);
    lemma_placed_behind(k_b, plan, AttentionSlot::VB, layer, slot);
    lemma_placed_behind(v_b, plan, AttentionSlot::Output, layer, slot);
    lemma_placed_behind(output, plan, AttentionSlot::Other, layer, slot);
    assert(plan.residents() == output + kept(plan, AttentionSlot::Other));
    assert(seq![] + kept(plan, slot) =~= kept(plan, slot));
}

/// The tensors of a layer, slot by slot.
proof fn lemma_placed_in_layer(
    plan: Deepseek2AttentionLayerPlan,
    tensors: Seq<GgufAttentionTensorRef>,
    layer: usize,
    slot: AttentionSlot,
)
    requires
        gguf_manifest::plans_layer(plan, tensors),
    ensures
        gguf_manifest::placed(plan.residents(), layer, slot) == if plan.layer == layer {
            kept(plan, slot)
        } else {
            seq![]
        },
{
    assert forall|home: AttentionSlot| #[trigger] belongs(plan, home, layer, slot) by {
        lemma_kept_belongs(plan, tensors, home, layer, slot);
    }
    lemma_placed_by_slot(plan, layer, slot);
}

proof fn lemma_placed_in_no_part(
    parts: Seq<Seq<GgufAttentionTensorRef>>,
    layer: usize,
    slot: AttentionSlot,
)
    requires
        forall|i: int|
            0 <= i < parts.len() ==> gguf_manifest::placed(#[trigger] parts[i], layer, slot).len()
                == 0,
    ensures
        gguf_manifest::placed(parts.flatten(), layer, slot).len() == 0,
    decreases parts.len(),
{
    if parts.len() > 0 {
        let shorter = parts.drop_last();
        assert forall|i: int| 0 <= i < shorter.len() implies gguf_manifest::placed(
            #[trigger] shorter[i],
            layer,
            slot,
        ).len() == 0 by {
            assert(shorter[i] == parts[i]);
        }
        lemma_placed_in_no_part(shorter, layer, slot);
        lemma_placed_in_last_part(parts, layer, slot);
        assert(gguf_manifest::placed(parts[parts.len() - 1], layer, slot).len() == 0);
    } else {
        reveal(Seq::filter);
    }
}

proof fn lemma_placed_in_last_part(
    parts: Seq<Seq<GgufAttentionTensorRef>>,
    layer: usize,
    slot: AttentionSlot,
)
    requires
        parts.len() > 0,
    ensures
        gguf_manifest::placed(parts.flatten(), layer, slot) == gguf_manifest::placed(
            parts.drop_last().flatten(),
            layer,
            slot,
        ) + gguf_manifest::placed(parts.last(), layer, slot),
{
    let shorter = parts.drop_last();
    assert(parts =~= shorter.push(parts.last()));
    shorter.lemma_flatten_push(parts.last());
    Seq::filter_distributes_over_add(
        shorter.flatten(),
        parts.last(),
        |t: GgufAttentionTensorRef| gguf_manifest::placement(t) == Some((layer, slot)),
    );
}

/// Where one part alone has tensors for a slot, those are all there are.
proof fn lemma_placed_in_one_part(
    parts: Seq<Seq<GgufAttentionTensorRef>>,
    at: int,
    layer: usize,
    slot: AttentionSlot,
)
    requires
        0 <= at < parts.len(),
        forall|i: int|
            0 <= i < parts.len() && i != at ==> gguf_manifest::placed(
                #[trigger] parts[i],
                layer,
                slot,
            ).len() == 0,
    ensures
        gguf_manifest::placed(parts.flatten(), layer, slot) == gguf_manifest::placed(
            parts[at],
            layer,
            slot,
        ),
    decreases parts.len(),
{
    let shorter = parts.drop_last();
    lemma_placed_in_last_part(parts, layer, slot);
    let earlier = gguf_manifest::placed(shorter.flatten(), layer, slot);
    let last = gguf_manifest::placed(parts.last(), layer, slot);
    assert forall|i: int| 0 <= i < shorter.len() && i != at implies gguf_manifest::placed(
        #[trigger] shorter[i],
        layer,
        slot,
    ).len() == 0 by {
        assert(shorter[i] == parts[i]);
    }
    if at == parts.len() - 1 {
        lemma_placed_in_no_part(shorter, layer, slot);
        assert(earlier + last =~= last);
    } else {
        lemma_placed_in_one_part(shorter, at, layer, slot);
        assert(gguf_manifest::placed(parts[parts.len() - 1], layer, slot).len() == 0);
        assert(earlier + last =~= earlier);
    }
}

/// The tensors of a plan belong, slot by slot, where the plan holds them.
pub proof fn residents_stand_in_their_slots(
    plan: Deepseek2AttentionManifestPlan,
    tensors: Seq<GgufAttentionTensorRef>,
    at: int,
    slot: AttentionSlot,
)
    requires
        gguf_manifest::plans_layers(plan.layers@, tensors),
        0 <= at < plan.layers@.len(),
    ensures
        gguf_manifest::placed(plan.residents(), plan.layers@[at].layer, slot) == kept(
            plan.layers@[at],
            slot,
        ),
{
    let layers = plan.layers@;
    let layer = layers[at].layer;
    let parts = layers.map_values(|of_layer: Deepseek2AttentionLayerPlan| of_layer.residents());
    assert forall|i: int| 0 <= i < parts.len() && i != at implies gguf_manifest::placed(
        #[trigger] parts[i],
        layer,
        slot,
    ).len() == 0 by {
        assert(parts[i] == layers[i].residents());
        assert(layers[i].layer != layer);
        lemma_placed_in_layer(layers[i], tensors, layer, slot);
    }
    lemma_placed_in_one_part(parts, at, layer, slot);
    lemma_placed_in_layer(layers[at], tensors, layer, slot);
    assert(parts[at] == layers[at].residents());
}

/// A plan that holds in each slot exactly what is listed for it is the plan of its layer.
proof fn lemma_kept_is_planned(
    plan: Deepseek2AttentionLayerPlan,
    listed: Seq<GgufAttentionTensorRef>,
)
    requires
        forall|slot: AttentionSlot| #[trigger]
            gguf_manifest::placed(listed, plan.layer, slot) == kept(plan, slot),
    ensures
        gguf_manifest::plans_layer(plan, listed),
{
    assert forall|slot: AttentionSlot| slot != AttentionSlot::Other implies plan_laws::held(
        plan,
        slot,
    ) == #[trigger] gguf_manifest::chosen(listed, plan.layer, slot) by {
        assert(gguf_manifest::placed(listed, plan.layer, slot) == kept(plan, slot));
    }
}

/// The tensors of a plan belong to the layers that the manifest mentions.
proof fn lemma_mentioned_among_residents(
    plan: Deepseek2AttentionManifestPlan,
    tensors: Seq<GgufAttentionTensorRef>,
    layer: usize,
)
    requires
        gguf_manifest::plans_layers(plan.layers@, tensors),
    ensures
        gguf_manifest::mentions(plan.residents(), layer) == gguf_manifest::mentions(tensors, layer),
{
    let residents = plan.residents();
    if gguf_manifest::mentions(tensors, layer) {
        let k = choose|k: int|
            0 <= k < tensors.len() && (#[trigger] gguf_manifest::placement(tensors[k]) matches Some(
                (l, _),
            ) && l == layer);
        let slot = gguf_manifest::placement(tensors[k])->Some_0.1;
        plan_laws::attention_tensors_are_resident_or_replaced(plan, tensors, k, layer, slot);
        let found = if slot == AttentionSlot::Other {
            k
        } else {
            choose|last: int|
                {
                    &&& k <= last
                    &&& #[trigger] plan_laws::is_last_listed(tensors, layer, slot, last)
                    &&& residents.contains(tensors[last])
                }
        };
        let j = choose|j: int| 0 <= j < residents.len() && residents[j] == tensors[found];
        assert(gguf_manifest::placement(residents[j]) == Some((layer, slot)));
    }
    if gguf_manifest::mentions(residents, layer) {
        let j = choose|j: int|
            0 <= j < residents.len() && (#[trigger] gguf_manifest::placement(
                residents[j],
            ) matches Some((l, _)) && l == layer);
        assert(residents.contains(residents[j]));
        plan_laws::residents_are_listed_attention_tensors(plan, tensors, residents[j]);
        let k = choose|k: int| 0 <= k < tensors.len() && tensors[k] == residents[j];
        assert(gguf_manifest::placement(tensors[k]) is Some);
    }
}

/// A plan is a plan of its own tensors: a manifest that lists what the plan would stage, in that
/// order, has the same plan.
pub proof fn plan_plans_its_residents(
    plan: Deepseek2AttentionManifestPlan,
    tensors: Seq<GgufAttentionTensorRef>,
)
    requires
        gguf_manifest::plans_layers(plan.layers@, tensors),
    ensures
        gguf_manifest::plans_layers(plan.layers@, plan.residents()),
{
    let layers = plan.layers@;
    let residents = plan.residents();
    assert forall|i: int| 0 <= i < layers.len() implies gguf_manifest::plans_layer(
        #[trigger] layers[i],
        residents,
    ) by {
        assert forall|slot: AttentionSlot| #[trigger]
            gguf_manifest::placed(residents, layers[i].layer, slot) == kept(layers[i], slot) by {
            residents_stand_in_their_slots(plan, tensors, i, slot);
        }
        lemma_kept_is_planned(layers[i], residents);
    }
    assert forall|layer: usize| #[trigger]
        gguf_manifest::mentions(residents, layer) == gguf_manifest::mentions(tensors, layer) by {
        lemma_mentioned_among_residents(plan, tensors, layer);
    }
}

/// Planning what a plan would stage gives that plan back.
pub proof fn replanning_gives_the_plan_back(
    plan: Deepseek2AttentionManifestPlan,
    tensors: Seq<GgufAttentionTensorRef>,
    again: Deepseek2AttentionManifestPlan,
)
    requires
        gguf_manifest::plans_layers(plan.layers@, tensors),
        gguf_manifest::plans_layers(again.layers@, plan.residents()),
    ensures
        again.layers@.len() == plan.layers@.len(),
        forall|i: int|
            0 <= i < again.layers@.len() ==> plan_laws::same_layer_plan(
                #[trigger] again.layers@[i],
                plan.layers@[i],
            ),
{
    plan_plans_its_residents(plan, tensors);
    plan_laws::plan_is_determined(again.layers@, plan.layers@, plan.residents());
}

/// No two tensors belong in one slot of the MLA family.
pub open spec fn slots_are_unshared(tensors: Seq<GgufAttentionTensorRef>) -> bool {
    forall|i: int, j: int|
        0 <= i < j < tensors.len() ==> {
            ||| gguf_manifest::placement(#[trigger] tensors[i]) != gguf_manifest::placement(
                #[trigger] tensors[j],
            )
            ||| gguf_manifest::placement(tensors[i]) is None
            ||| gguf_manifest::placement(tensors[i])->Some_0.1 == AttentionSlot::Other
        }
}

/// No two tensors share layer and role.
pub open spec fn roles_are_unshared(tensors: Seq<GgufAttentionTensorRef>) -> bool {
    forall|i: int, j: int|
        0 <= i < j < tensors.len() ==> {
            ||| tensor_name::tensor_role((#[trigger] tensors[i]).tensor@)
                != tensor_name::tensor_role((#[trigger] tensors[j]).tensor@)
            ||| tensor_name::tensor_role(tensors[i].tensor@) is None
        }
}

/// Tensors that share no role share no slot of the MLA family.
pub proof fn unshared_roles_leave_slots_unshared(tensors: Seq<GgufAttentionTensorRef>)
    requires
        roles_are_unshared(tensors),
    ensures
        slots_are_unshared(tensors),
{
}

proof fn lemma_filter_count<A>(items: Seq<A>, pred: spec_fn(A) -> bool, item: A)
    ensures
        items.filter(pred).to_multiset().count(item) == if pred(item) {
            items.to_multiset().count(item)
        } else {
            0
        },
    decreases items.len(),
{
    broadcast use vstd::seq_lib::group_to_multiset_ensures;

    reveal(Seq::filter);
    if items.len() > 0 {
        let shorter = items.drop_last();
        lemma_filter_count(shorter, pred, item);
        assert(items =~= shorter.push(items.last()));
    }
}

/// Where a slot of the MLA family is not shared, the plan holds all that is listed for it.
proof fn lemma_unshared_slot_is_kept(
    plan: Deepseek2AttentionLayerPlan,
    tensors: Seq<GgufAttentionTensorRef>,
    slot: AttentionSlot,
)
    requires
        gguf_manifest::plans_layer(plan, tensors),
        slots_are_unshared(tensors),
    ensures
        kept(plan, slot) == gguf_manifest::placed(tensors, plan.layer, slot),
{
    if slot != AttentionSlot::Other {
        let candidates = gguf_manifest::placed(tensors, plan.layer, slot);
        lemma_unshared_slot_has_one(tensors, plan.layer, slot);
        assert(plan_laws::held(plan, slot) == gguf_manifest::chosen(tensors, plan.layer, slot));
        assert(kept(plan, slot) =~= candidates);
    }
}

proof fn lemma_unshared_slot_has_one(
    tensors: Seq<GgufAttentionTensorRef>,
    layer: usize,
    slot: AttentionSlot,
)
    requires
        slots_are_unshared(tensors),
        slot != AttentionSlot::Other,
    ensures
        gguf_manifest::placed(tensors, layer, slot).len() <= 1,
    decreases tensors.len(),
{
    reveal(Seq::filter);
    let pred = |t: GgufAttentionTensorRef| gguf_manifest::placement(t) == Some((layer, slot));
    if tensors.len() > 0 {
        let shorter = tensors.drop_last();
        assert forall|i: int, j: int| 0 <= i < j < shorter.len() implies {
            ||| gguf_manifest::placement(#[trigger] shorter[i]) != gguf_manifest::placement(
                #[trigger] shorter[j],
            )
            ||| gguf_manifest::placement(shorter[i]) is None
            ||| gguf_manifest::placement(shorter[i])->Some_0.1 == AttentionSlot::Other
        } by {
            assert(shorter[i] == tensors[i] && shorter[j] == tensors[j]);
        }
        lemma_unshared_slot_has_one(shorter, layer, slot);
        let found = gguf_manifest::placed(shorter, layer, slot);
        if pred(tensors.last()) && found.len() > 0 {
            shorter.lemma_filter_pred(pred, 0);
            assert(found.contains(found[0]));
            shorter.lemma_filter_contains_rev(pred, found[0]);
            let i = choose|i: int| 0 <= i < shorter.len() && shorter[i] == found[0];
            assert(tensors[i] == found[0]);
            assert(tensors[tensors.len() - 1] == tensors.last());
        }
    }
}

/// Where no two tensors belong in one slot of the MLA family, a plan would stage exactly the
/// attention tensors of the manifest, each as often as it is listed.
pub proof fn residents_are_the_attention_tensors(
    plan: Deepseek2AttentionManifestPlan,
    tensors: Seq<GgufAttentionTensorRef>,
)
    requires
        gguf_manifest::plans_layers(plan.layers@, tensors),
        slots_are_unshared(tensors),
    ensures
        plan.residents().to_multiset() == plan_laws::attention_tensors(tensors).to_multiset(),
{
    let residents = plan.residents();
    let listed = plan_laws::attention_tensors(tensors);
    assert forall|tensor: GgufAttentionTensorRef| #[trigger]
        residents.to_multiset().count(tensor) == listed.to_multiset().count(tensor) by {
        lemma_filter_count(
            tensors,
            |t: GgufAttentionTensorRef| gguf_manifest::placement(t) is Some,
            tensor,
        );
        match gguf_manifest::placement(tensor) {
            None => {
                broadcast use vstd::seq_lib::group_to_multiset_ensures;

                if residents.contains(tensor) {
                    plan_laws::residents_are_listed_attention_tensors(plan, tensors, tensor);
                }
            },
            Some((layer, slot)) => {
                let pred = |t: GgufAttentionTensorRef|
                    gguf_manifest::placement(t) == Some((layer, slot));
                lemma_filter_count(tensors, pred, tensor);
                lemma_filter_count(residents, pred, tensor);
                lemma_mentioned_among_residents(plan, tensors, layer);
                if gguf_manifest::mentions(tensors, layer) {
                    let at = choose|at: int|
                        0 <= at < plan.layers@.len() && (#[trigger] plan.layers@[at]).layer
                            == layer;
                    residents_stand_in_their_slots(plan, tensors, at, slot);
                    lemma_unshared_slot_is_kept(plan.layers@[at], tensors, slot);
                } else {
                    gguf_manifest::lemma_placed_unmentioned(tensors, layer);
                    gguf_manifest::lemma_placed_unmentioned(residents, layer);
                    assert(gguf_manifest::placed(tensors, layer, slot)
                        =~= gguf_manifest::placed(residents, layer, slot));
                }
            },
        }
    }
    assert(residents.to_multiset() =~= listed.to_multiset());
}

/// A complete layer has the eight tensors of the MLA family and its others to stage; a layer that
/// is not complete has fewer.
pub proof fn complete_layers_stage_the_whole_family(plan: Deepseek2AttentionLayerPlan)
    ensures
        plan.residents().len() <= 8 + plan.other_attention_tensors@.len(),
        plan.complete() <==> plan.residents().len() == 8 + plan.other_attention_tensors@.len(),
{
}

/// Two manifests list the same tensors for each slot, in the same order.
pub open spec fn same_slots(
    a: Seq<GgufAttentionTensorRef>,
    b: Seq<GgufAttentionTensorRef>,
) -> bool {
    forall|layer: usize, slot: AttentionSlot| #[trigger]
        gguf_manifest::placed(a, layer, slot) == gguf_manifest::placed(b, layer, slot)
}

proof fn lemma_mentioned_by_slots(
    a: Seq<GgufAttentionTensorRef>,
    b: Seq<GgufAttentionTensorRef>,
    layer: usize,
)
    requires
        same_slots(a, b),
        gguf_manifest::mentions(a, layer),
    ensures
        gguf_manifest::mentions(b, layer),
{
    let i = choose|i: int|
        0 <= i < a.len() && (#[trigger] gguf_manifest::placement(a[i]) matches Some((l, _)) && l
            == layer);
    let slot = gguf_manifest::placement(a[i])->Some_0.1;
    let pred = |t: GgufAttentionTensorRef| gguf_manifest::placement(t) == Some((layer, slot));
    a.lemma_filter_contains(pred, i);
    assert(gguf_manifest::placed(a, layer, slot).contains(a[i]));
    assert(gguf_manifest::placed(b, layer, slot).contains(a[i]));
    b.lemma_filter_contains_rev(pred, a[i]);
    let k = choose|k: int| 0 <= k < b.len() && b[k] == a[i];
    assert(gguf_manifest::placement(b[k]) is Some);
}

/// The order of a manifest matters within a slot alone: manifests that list the same tensors for
/// each slot, in the same order, have the same plan, however the slots are mixed.
pub proof fn order_matters_within_slots_alone(
    layers: Seq<Deepseek2AttentionLayerPlan>,
    a: Seq<GgufAttentionTensorRef>,
    b: Seq<GgufAttentionTensorRef>,
)
    requires
        same_slots(a, b),
        gguf_manifest::plans_layers(layers, a),
    ensures
        gguf_manifest::plans_layers(layers, b),
{
    assert forall|layer: usize| #[trigger]
        gguf_manifest::mentions(b, layer) == gguf_manifest::mentions(a, layer) by {
        if gguf_manifest::mentions(a, layer) {
            lemma_mentioned_by_slots(a, b, layer);
        }
        if gguf_manifest::mentions(b, layer) {
            assert(same_slots(b, a)) by {
                assert forall|l: usize, slot: AttentionSlot| #[trigger]
                    gguf_manifest::placed(b, l, slot) == gguf_manifest::placed(a, l, slot) by {
                    assert(gguf_manifest::placed(a, l, slot) == gguf_manifest::placed(b, l, slot));
                }
            }
            lemma_mentioned_by_slots(b, a, layer);
        }
    }
    assert forall|i: int| 0 <= i < layers.len() implies gguf_manifest::plans_layer(
        #[trigger] layers[i],
        b,
    ) by {
        assert(gguf_manifest::plans_layer(layers[i], a));
    }
}

} // verus!
