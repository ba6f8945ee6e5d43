//! Compact GGUF attention-manifest planning for split-residency Kimi/DeepSeek2.
//!
//! The plan holds dense attention/MLA tensors and leaves memory-mapped MoE expert tensors out. It
//! names tensor data and does not load any.

use vstd::prelude::*;
use vstd::string::*;

use crate::attention::tensor_name;
use crate::attention::tensor_name::parse_deepseek2_attention_tensor_role;
use crate::error::{Fault, InferenceError};
use crate::text::same_text;

verus! {

/// Byte-range reference to one attention/MLA tensor inside the source GGUF shards.
#[derive(Clone, Debug, PartialEq, Eq)]
pub struct GgufAttentionTensorRef {
    pub tensor: String,
    pub source_file: String,
    pub shard_idx: usize,
    pub tensor_type: u32,
    pub dims: Vec<usize>,
    pub tensor_offset: u64,
    pub data_offset: u64,
}

/// A manifest as it is written down.
#[derive(Clone, Debug)]
pub struct RawGgufAttentionManifest {
    pub version: u32,
    pub architecture: String,
    pub split_count: usize,
    pub residency: String,
    pub tensors: Vec<GgufAttentionTensorRef>,
}

/// Planned dense-attention residency for one DeepSeek2/Kimi layer.
#[derive(Clone, Debug, PartialEq, Eq)]
pub struct Deepseek2AttentionLayerPlan {
    pub layer: usize,
    pub q_a: Option<GgufAttentionTensorRef>,
    pub q_a_norm: Option<GgufAttentionTensorRef>,
    pub q_b: Option<GgufAttentionTensorRef>,
    pub kv_a_mqa: Option<GgufAttentionTensorRef>,
    pub kv_a_norm: Option<GgufAttentionTensorRef>,
    pub k_b: Option<GgufAttentionTensorRef>,
    pub v_b: Option<GgufAttentionTensorRef>,
    pub output: Option<GgufAttentionTensorRef>,
    pub other_attention_tensors: Vec<GgufAttentionTensorRef>,
}

/// Split-residency plan derived from a manifest.
#[derive(Clone, Debug, PartialEq, Eq)]
pub struct Deepseek2AttentionManifestPlan {
    pub version: u32,
    pub architecture: String,
    pub split_count: usize,
    pub residency: String,
    pub layers: Vec<Deepseek2AttentionLayerPlan>,
}

/// Where in a layer a tensor belongs.
#[derive(Clone, Copy, Debug, PartialEq, Eq, Structural)]
pub enum AttentionSlot {
    QA,
    QANorm,
    QB,
    KvAMqa,
    KvANorm,
    KB,
    VB,
    Output,
    Other,
}

/// The slot that a role names: one of the MLA family, or `Other`.
pub open spec fn slot_of(role: Seq<char>) -> AttentionSlot {
    if role == "attn_q_a.weight"@ {
        AttentionSlot::QA
    } else if role == "attn_q_a_norm.weight"@ {
        AttentionSlot::QANorm
    } else if role == "attn_q_b.weight"@ {
        AttentionSlot::QB
    } else if role == "attn_kv_a_mqa.weight"@ {
        AttentionSlot::KvAMqa
    } else if role == "attn_kv_a_norm.weight"@ {
        AttentionSlot::KvANorm
    } else if role == "attn_k_b.weight"@ {
        AttentionSlot::KB
    } else if role == "attn_v_b.weight"@ {
        AttentionSlot::VB
    } else if role == "attn_output.weight"@ {
        AttentionSlot::Output
    } else {
        AttentionSlot::Other
    }
}

/// The layer and the slot of a tensor, by its name; `None` for one that is no attention tensor.
pub open spec fn placement(tensor: GgufAttentionTensorRef) -> Option<(usize, AttentionSlot)> {
    match tensor_name::tensor_role(tensor.tensor@) {
        Some((layer, role)) => Some((layer, slot_of(role))),
        None => None,
    }
}

/// The tensors that belong in `slot` of `layer`, in manifest order.
pub open spec fn placed(
    tensors: Seq<GgufAttentionTensorRef>,
    layer: usize,
    slot: AttentionSlot,
) -> Seq<GgufAttentionTensorRef> {
    tensors.filter(|t: GgufAttentionTensorRef| placement(t) == Some((layer, slot)))
}

/// The one tensor that a slot of the MLA family holds: the last that the manifest lists for it.
pub open spec fn chosen(
    tensors: Seq<GgufAttentionTensorRef>,
    layer: usize,
    slot: AttentionSlot,
) -> Option<GgufAttentionTensorRef> {
    let candidates = placed(tensors, layer, slot);
    if candidates.len() > 0 {
        Some(candidates.last())
    } else {
        None
    }
}

/// Some tensor belongs to `layer`.
pub open spec fn mentions(tensors: Seq<GgufAttentionTensorRef>, layer: usize) -> bool {
    exists|i: int|
        0 <= i < tensors.len() && (#[trigger] placement(tensors[i]) matches Some((l, _)) && l
            == layer)
}

/// `plan` holds what `tensors` has for its layer.
pub open spec fn plans_layer(
    plan: Deepseek2AttentionLayerPlan,
    tensors: Seq<GgufAttentionTensorRef>,
) -> bool {
    &&& plan.q_a == chosen(tensors, plan.layer, AttentionSlot::QA)
    &&& plan.q_a_norm == chosen(tensors, plan.layer, AttentionSlot::QANorm)
    &&& plan.q_b == chosen(tensors, plan.layer, AttentionSlot::QB)
    &&& plan.kv_a_mqa == chosen(tensors, plan.layer, AttentionSlot::KvAMqa)
    &&& plan.kv_a_norm == chosen(tensors, plan.layer, AttentionSlot::KvANorm)
    &&& plan.k_b == chosen(tensors, plan.layer, AttentionSlot::KB)
    &&& plan.v_b == chosen(tensors, plan.layer, AttentionSlot::VB)
    &&& plan.output == chosen(tensors, plan.layer, AttentionSlot::Output)
    &&& plan.other_attention_tensors@ == placed(tensors, plan.layer, AttentionSlot::Other)
}

/// Layers stand in ascending order, each once.
pub open spec fn ascending(layers: Seq<Deepseek2AttentionLayerPlan>) -> bool {
    forall|i: int, j: int|
        0 <= i < j < layers.len() ==> (#[trigger] layers[i]).layer < (#[trigger] layers[j]).layer
}

/// `layers` has exactly the layers that `tensors` mentions, in ascending order, each with its
/// tensors.
pub open spec fn plans_layers(
    layers: Seq<Deepseek2AttentionLayerPlan>,
    tensors: Seq<GgufAttentionTensorRef>,
) -> bool {
    &&& ascending(layers)
    &&& forall|i: int| 0 <= i < layers.len() ==> plans_layer(#[trigger] layers[i], tensors)
    &&& forall|i: int| 0 <= i < layers.len() ==> mentions(tensors, (#[trigger] layers[i]).layer)
    &&& forall|layer: usize| #[trigger]
        mentions(tensors, layer) ==> exists|i: int|
            0 <= i < layers.len() && (#[trigger] layers[i]).layer == layer
}

fn attention_slot(role: &str) -> (slot: AttentionSlot)
    ensures
        slot == slot_of(role@),
{
    if same_text(role, "attn_q_a.weight") {
        AttentionSlot::QA
    } else if same_text(role, "attn_q_a_norm.weight") {
        AttentionSlot::QANorm
    } else if same_text(role, "attn_q_b.weight") {
        AttentionSlot::QB
    } else if same_text(role, "attn_kv_a_mqa.weight") {
        AttentionSlot::KvAMqa
    } else if same_text(role, "attn_kv_a_norm.weight") {
        AttentionSlot::KvANorm
    } else if same_text(role, "attn_k_b.weight") {
        AttentionSlot::KB
    } else if same_text(role, "attn_v_b.weight") {
        AttentionSlot::VB
    } else if same_text(role, "attn_output.weight") {
        AttentionSlot::Output
    } else {
        AttentionSlot::Other
    }
}

/// A tensor that is listed next stands last in its own slot and leaves all others as they are.
proof fn lemma_placed_push(
    tensors: Seq<GgufAttentionTensorRef>,
    tensor: GgufAttentionTensorRef,
    layer: usize,
)
    ensures
        forall|slot: AttentionSlot| #[trigger]
            placed(tensors.push(tensor), layer, slot) == if placement(tensor) == Some(
                (layer, slot),
            ) {
                placed(tensors, layer, slot).push(tensor)
            } else {
                placed(tensors, layer, slot)
            },
{
    reveal(Seq::filter);
    assert(tensors.push(tensor).drop_last() =~= tensors);
}

proof fn lemma_mentions_push(
    tensors: Seq<GgufAttentionTensorRef>,
    tensor: GgufAttentionTensorRef,
    layer: usize,
)
    ensures
        mentions(tensors.push(tensor), layer) <==> (mentions(tensors, layer) || (placement(
            tensor,
        ) matches Some((l, _)) && l == layer)),
{
    let longer = tensors.push(tensor);
    if mentions(tensors, layer) {
        let i = choose|i: int|
            0 <= i < tensors.len() && (#[trigger] placement(tensors[i]) matches Some((l, _)) && l
                == layer);
        assert(longer[i] == tensors[i]);
        assert(placement(longer[i]) is Some);
    }
    assert(longer[tensors.len() as int] == tensor);
    if mentions(longer, layer) {
        let i = choose|i: int|
            0 <= i < longer.len() && (#[trigger] placement(longer[i]) matches Some((l, _)) && l
                == layer);
        if i < tensors.len() {
            assert(placement(tensors[i]) is Some);
        }
    }
}

/// The tensor of a slot, if there is one, as a sequence.
pub open spec fn present(slot: Option<GgufAttentionTensorRef>) -> Seq<GgufAttentionTensorRef> {
    match slot {
        Some(tensor) => seq![tensor],
        None => seq![],
    }
}

fn push_present<'a>(
    tensors: &mut Vec<&'a GgufAttentionTensorRef>,
    slot: &'a Option<GgufAttentionTensorRef>,
)
    ensures
        final(tensors)@.unref() == old(tensors)@.unref() + present(*slot),
{
    match slot {
        Some(tensor) => {
            tensors.push(tensor);
        },
        None => {},
    }
    assert(tensors@.unref() =~= old(tensors)@.unref() + present(*slot));
}

impl Deepseek2AttentionLayerPlan {
    /// Every slot of the MLA family is filled.
    pub open spec fn complete(&self) -> bool {
        &&& self.q_a is Some
        &&& self.q_a_norm is Some
        &&& self.q_b is Some
        &&& self.kv_a_mqa is Some
        &&& self.kv_a_norm is Some
        &&& self.k_b is Some
        &&& self.v_b is Some
        &&& self.output is Some
    }

    /// The tensors of the layer: the MLA family in its fixed order, then the others.
    pub open spec fn residents(&self) -> Seq<GgufAttentionTensorRef> {
        present(self.q_a) + present(self.q_a_norm) + present(self.q_b) + present(self.kv_a_mqa)
            + present(self.kv_a_norm) + present(self.k_b) + present(self.v_b) + present(self.output)
            + self.other_attention_tensors@
    }

    /// True when the layer has the full MLA tensor family needed by Kimi/DeepSeek2.
    pub fn is_mla_complete(&self) -> (complete: bool)
        ensures
            complete == self.complete(),
    {
        self.q_a.is_some() && self.q_a_norm.is_some() && self.q_b.is_some()
            && self.kv_a_mqa.is_some() && self.kv_a_norm.is_some() && self.k_b.is_some()
            && self.v_b.is_some() && self.output.is_some()
    }

    /// The tensors of the layer that may be staged on a device.
    pub fn tensors_for_cuda_residency(&self) -> (tensors: Vec<&GgufAttentionTensorRef>)
        ensures
            tensors@.unref() == self.residents(),
    {
        let mut tensors: Vec<&GgufAttentionTensorRef> = Vec::new();
        assert(tensors@.unref() =~= seq![]);
        push_present(&mut tensors, &self.q_a);
        push_present(&mut tensors, &self.q_a_norm);
        push_present(&mut tensors, &self.q_b);
        push_present(&mut tensors, &self.kv_a_mqa);
        push_present(&mut tensors, &self.kv_a_norm);
        push_present(&mut tensors, &self.k_b);
        push_present(&mut tensors, &self.v_b);
        push_present(&mut tensors, &self.output);
        let ghost family = tensors@.unref();
        for i in 0..self.other_attention_tensors.len()
            invariant
                tensors@.unref() == family + self.other_attention_tensors@.take(i as int),
        {
            let ghost before = tensors@.unref();
            tensors.push(&self.other_attention_tensors[i]);
            assert(tensors@.unref() =~= before.push(self.other_attention_tensors@[i as int]));
            assert(tensors@.unref() =~= family + self.other_attention_tensors@.take(i + 1));
        }
        assert(tensors@.unref() =~= self.residents());
        tensors
    }

    /// A plan for `layer` that holds nothing yet.
    fn empty(layer: usize) -> (plan: Self)
        ensures
            plan.layer == layer,
            plan.q_a is None,
            plan.q_a_norm is None,
            plan.q_b is None,
            plan.kv_a_mqa is None,
            plan.kv_a_norm is None,
            plan.k_b is None,
            plan.v_b is None,
            plan.output is None,
            plan.other_attention_tensors@.len() == 0,
    {
        Deepseek2AttentionLayerPlan {
            layer,
            q_a: None,
            q_a_norm: None,
            q_b: None,
            kv_a_mqa: None,
            kv_a_norm: None,
            k_b: None,
            v_b: None,
            output: None,
            other_attention_tensors: Vec::new(),
        }
    }

    /// Puts `tensor` into `slot`, over what an MLA slot held before and behind the other tensors
    /// that are there already.
    fn place(
        &mut self,
        slot: AttentionSlot,
        tensor: GgufAttentionTensorRef,
        Ghost(tensors): Ghost<Seq<GgufAttentionTensorRef>>,
    )
        requires
            plans_layer(*old(self), tensors),
            placement(tensor) == Some((old(self).layer, slot)),
        ensures
            final(self).layer == old(self).layer,
            plans_layer(*final(self), tensors.push(tensor)),
    {
        proof {
            lemma_placed_push(tensors, tensor, self.layer);
        }
        match slot {
            AttentionSlot::QA => self.q_a = Some(tensor),
            AttentionSlot::QANorm => self.q_a_norm = Some(tensor),
            AttentionSlot::QB => self.q_b = Some(tensor),
            AttentionSlot::KvAMqa => self.kv_a_mqa = Some(tensor),
            AttentionSlot::KvANorm => self.kv_a_norm = Some(tensor),
            AttentionSlot::KB => self.k_b = Some(tensor),
            AttentionSlot::VB => self.v_b = Some(tensor),
            AttentionSlot::Output => self.output = Some(tensor),
            AttentionSlot::Other => self.other_attention_tensors.push(tensor),
        }
    }
}

impl Default for Deepseek2AttentionLayerPlan {
    fn default() -> (plan: Self)
        ensures
            plan.layer == 0,
            plan.q_a is None,
            plan.q_a_norm is None,
            plan.q_b is None,
            plan.kv_a_mqa is None,
            plan.kv_a_norm is None,
            plan.k_b is None,
            plan.v_b is None,
            plan.output is None,
            plan.other_attention_tensors@.len() == 0,
    {
        Deepseek2AttentionLayerPlan::empty(0)
    }
}

/// The place of the first layer in `layers` that is not below `layer`.
fn lower_bound(layers: &Vec<Deepseek2AttentionLayerPlan>, layer: usize) -> (at: usize)
    requires
        ascending(layers@),
    ensures
        at <= layers.len(),
        forall|i: int| 0 <= i < at ==> (#[trigger] layers@[i]).layer < layer,
        forall|i: int| at <= i < layers.len() ==> (#[trigger] layers@[i]).layer >= layer,
{
    let mut low: usize = 0;
    let mut high: usize = layers.len();
    while low < high
        invariant
            low <= high <= layers.len(),
            ascending(layers@),
            forall|i: int| 0 <= i < low ==> (#[trigger] layers@[i]).layer < layer,
            forall|i: int| high <= i < layers.len() ==> (#[trigger] layers@[i]).layer >= layer,
        decreases high - low,
    {
        let middle: usize = low + (high - low) / 2;
        if layers[middle].layer < layer {
            low = middle + 1;
        } else {
            high = middle;
        }
    }
    low
}

/// A tensor that does not belong to the layer of `plan` leaves it as it is.
proof fn lemma_plans_layer_elsewhere(
    plan: Deepseek2AttentionLayerPlan,
    tensors: Seq<GgufAttentionTensorRef>,
    tensor: GgufAttentionTensorRef,
)
    requires
        plans_layer(plan, tensors),
        placement(tensor) matches Some((l, _)) ==> l != plan.layer,
    ensures
        plans_layer(plan, tensors.push(tensor)),
{
    lemma_placed_push(tensors, tensor, plan.layer);
}

/// A layer that no tensor belongs to has nothing in its slots.
pub proof fn lemma_placed_unmentioned(tensors: Seq<GgufAttentionTensorRef>, layer: usize)
    requires
        !mentions(tensors, layer),
    ensures
        forall|slot: AttentionSlot| (#[trigger] placed(tensors, layer, slot)).len() == 0,
    decreases tensors.len(),
{
    reveal(Seq::filter);
    if tensors.len() > 0 {
        let shorter = tensors.drop_last();
        assert(tensors =~= shorter.push(tensors.last()));
        lemma_mentions_push(shorter, tensors.last(), layer);
        lemma_placed_unmentioned(shorter, layer);
        lemma_placed_push(shorter, tensors.last(), layer);
    }
}

/// `opened` is `layers` with a plan for `layer` at `at`, which may be new.
spec fn opens(
    layers: Seq<Deepseek2AttentionLayerPlan>,
    opened: Seq<Deepseek2AttentionLayerPlan>,
    layer: usize,
    at: int,
) -> bool {
    &&& 0 <= at < opened.len()
    &&& opened[at].layer == layer
    &&& opened == layers || opened == layers.insert(at, opened[at])
}

/// `layers` has exactly the layers that `tensors` mentions.
spec fn has_mentioned(
    layers: Seq<Deepseek2AttentionLayerPlan>,
    tensors: Seq<GgufAttentionTensorRef>,
) -> bool {
    &&& forall|i: int| 0 <= i < layers.len() ==> mentions(tensors, (#[trigger] layers[i]).layer)
    &&& forall|layer: usize| #[trigger]
        mentions(tensors, layer) ==> exists|i: int|
            0 <= i < layers.len() && (#[trigger] layers[i]).layer == layer
}

/// Opening the layer of a tensor accounts for that tensor.
proof fn lemma_opened(
    layers: Seq<Deepseek2AttentionLayerPlan>,
    opened: Seq<Deepseek2AttentionLayerPlan>,
    layer: usize,
    at: int,
    tensors: Seq<GgufAttentionTensorRef>,
    tensor: GgufAttentionTensorRef,
)
    requires
        has_mentioned(layers, tensors),
        placement(tensor) matches Some((l, _)) && l == layer,
        opens(layers, opened, layer, at),
        at <= layers.len(),
    ensures
        has_mentioned(opened, tensors.push(tensor)),
{
    let longer = tensors.push(tensor);
    assert forall|i: int| 0 <= i < opened.len() implies mentions(
        longer,
        (#[trigger] opened[i]).layer,
    ) by {
        lemma_mentions_push(tensors, tensor, opened[i].layer);
        if i != at {
            let k = if opened == layers || i < at {
                i
            } else {
                i - 1
            };
            assert(opened[i] == layers[k]);
        }
    }
    assert forall|l: usize| #[trigger] mentions(longer, l) implies exists|i: int|
        0 <= i < opened.len() && (#[trigger] opened[i]).layer == l by {
        lemma_mentions_push(tensors, tensor, l);
        if l == layer {
            assert(opened[at].layer == l);
        } else {
            let k = choose|k: int| 0 <= k < layers.len() && (#[trigger] layers[k]).layer == l;
            if opened == layers || k < at {
                assert(opened[k].layer == l);
            } else {
                assert(opened[k + 1].layer == l);
            }
        }
    }
}

/// A plan that takes the place of another one for the same layer changes nothing in which layers
/// there are.
proof fn lemma_same_layers_after(
    opened: Seq<Deepseek2AttentionLayerPlan>,
    filed: Deepseek2AttentionLayerPlan,
    at: int,
    tensors: Seq<GgufAttentionTensorRef>,
)
    requires
        has_mentioned(opened, tensors),
        ascending(opened),
        0 <= at < opened.len(),
        filed.layer == opened[at].layer,
    ensures
        has_mentioned(opened.update(at, filed), tensors),
        ascending(opened.update(at, filed)),
{
    let after = opened.update(at, filed);
    assert forall|i: int| 0 <= i < after.len() implies (#[trigger] after[i]).layer
        == opened[i].layer by {
        if i != at {
            assert(after[i] == opened[i]);
        }
    }
    assert forall|layer: usize| #[trigger] mentions(tensors, layer) implies exists|i: int|
        0 <= i < after.len() && (#[trigger] after[i]).layer == layer by {
        let i = choose|i: int| 0 <= i < opened.len() && (#[trigger] opened[i]).layer == layer;
        assert(after[i].layer == layer);
    }
}

/// Filing a tensor in the plan of its layer leaves all layers planned.
proof fn lemma_filed(
    opened: Seq<Deepseek2AttentionLayerPlan>,
    filed: Deepseek2AttentionLayerPlan,
    at: int,
    tensors: Seq<GgufAttentionTensorRef>,
    tensor: GgufAttentionTensorRef,
)
    requires
        placement(tensor) matches Some((layer, _)) && layer == filed.layer,
        0 <= at < opened.len(),
        filed.layer == opened[at].layer,
        ascending(opened),
        has_mentioned(opened, tensors.push(tensor)),
        forall|i: int| 0 <= i < opened.len() ==> plans_layer(#[trigger] opened[i], tensors),
        plans_layer(filed, tensors.push(tensor)),
    ensures
        plans_layers(opened.update(at, filed), tensors.push(tensor)),
{
    let longer = tensors.push(tensor);
    let after = opened.update(at, filed);
    assert forall|i: int| 0 <= i < after.len() implies plans_layer(#[trigger] after[i], longer) by {
        if i != at {
            assert(after[i] == opened[i]);
            lemma_plans_layer_elsewhere(opened[i], tensors, tensor);
        }
    }
    lemma_same_layers_after(opened, filed, at, longer);
}

/// A plan that holds nothing is the plan of a layer that no tensor belongs to.
proof fn lemma_empty_plans(plan: Deepseek2AttentionLayerPlan, tensors: Seq<GgufAttentionTensorRef>)
    requires
        !mentions(tensors, plan.layer),
        plan.q_a is None,
        plan.q_a_norm is None,
        plan.q_b is None,
        plan.kv_a_mqa is None,
        plan.kv_a_norm is None,
        plan.k_b is None,
        plan.v_b is None,
        plan.output is None,
        plan.other_attention_tensors@.len() == 0,
    ensures
        plans_layer(plan, tensors),
{
    lemma_placed_unmentioned(tensors, plan.layer);
    assert(plan.other_attention_tensors@ =~= placed(tensors, plan.layer, AttentionSlot::Other));
}

/// Files `tensor` under its layer, which is opened where it is not there yet.
fn file_tensor(
    layers: &mut Vec<Deepseek2AttentionLayerPlan>,
    layer: usize,
    slot: AttentionSlot,
    tensor: GgufAttentionTensorRef,
    Ghost(tensors): Ghost<Seq<GgufAttentionTensorRef>>,
)
    requires
        plans_layers(old(layers)@, tensors),
        placement(tensor) == Some((layer, slot)),
    ensures
        plans_layers(final(layers)@, tensors.push(tensor)),
{
    let ghost before = layers@;
    let at = lower_bound(layers, layer);
    if at == layers.len() || layers[at].layer != layer {
        let plan = Deepseek2AttentionLayerPlan::empty(layer);
        proof {
            assert(!mentions(tensors, layer));
            lemma_empty_plans(plan, tensors);
        }
        layers.insert(at, plan);
    }
    let ghost opened = layers@;
    assert(ascending(opened));
    assert(opens(before, opened, layer, at as int));
    assert(forall|i: int| 0 <= i < opened.len() ==> plans_layer(#[trigger] opened[i], tensors));
    let plan = &mut layers[at];
    plan.place(slot, tensor, Ghost(tensors));
    proof {
        let filed = layers@[at as int];
        assert(layers@ =~= opened.update(at as int, filed));
        lemma_opened(before, opened, layer, at as int, tensors, tensor);
        lemma_filed(opened, filed, at as int, tensors, tensor);
    }
}

/// Sorts the attention tensors of a DeepSeek2 manifest by layer and role; tensors that are none
/// are left out.
pub fn plan_deepseek2_attention_manifest(raw: RawGgufAttentionManifest) -> (result: Result<
    Deepseek2AttentionManifestPlan,
    InferenceError,
>)
    ensures
        match result {
            Ok(plan) => {
                &&& raw.architecture@ == "deepseek2"@
                &&& plan.version == raw.version
                &&& plan.architecture == raw.architecture
                &&& plan.split_count == raw.split_count
                &&& plan.residency == raw.residency
                &&& plans_layers(plan.layers@, raw.tensors@)
            },
            Err(error) => {
                &&& raw.architecture@ != "deepseek2"@
                &&& error@ == Fault::Parse(
                    "unsupported GGUF attention architecture: "@ + raw.architecture@,
                )
            },
        },
{
    if !same_text(raw.architecture.as_str(), "deepseek2") {
        let message = "unsupported GGUF attention architecture: ".to_owned().concat(
            raw.architecture.as_str(),
        );
        return Err(InferenceError::Parse(message));
    }
    let ghost listed = raw.tensors@;
    let mut layers: Vec<Deepseek2AttentionLayerPlan> = Vec::new();
    for tensor in it: raw.tensors
        invariant
            it.seq() == listed,
            plans_layers(layers@, listed.take(it.index())),
    {
        let ghost done = listed.take(it.index());
        assert(listed.take(it.index() + 1) =~= done.push(tensor));
        let found = match parse_deepseek2_attention_tensor_role(tensor.tensor.as_str()) {
            Some((layer, role)) => Some((layer, attention_slot(role))),
            None => None,
        };
        match found {
            Some((layer, slot)) => {
                file_tensor(&mut layers, layer, slot, tensor, Ghost(done));
            },
            None => {
                proof {
                    assert forall|i: int| 0 <= i < layers@.len() implies plans_layer(
                        #[trigger] layers@[i],
                        done.push(tensor),
                    ) by {
                        lemma_plans_layer_elsewhere(layers@[i], done, tensor);
                    }
                    assert forall|l: usize| #[trigger]
                        mentions(done.push(tensor), l) == mentions(done, l) by {
                        lemma_mentions_push(done, tensor, l);
                    }
                }
            },
        }
    }
    assert(listed.take(listed.len() as int) =~= listed);
    Ok(
        Deepseek2AttentionManifestPlan {
            version: raw.version,
            architecture: raw.architecture,
            split_count: raw.split_count,
            residency: raw.residency,
            layers,
        },
    )
}

impl Deepseek2AttentionManifestPlan {
    /// The tensors of all layers, layer by layer.
    pub open spec fn residents(&self) -> Seq<GgufAttentionTensorRef> {
        self.layers@.map_values(|layer: Deepseek2AttentionLayerPlan| layer.residents()).flatten()
    }

    /// How many layers have the full MLA tensor family.
    pub fn complete_mla_layers(&self) -> (count: usize)
        ensures
            count == self.layers@.filter(
                |layer: Deepseek2AttentionLayerPlan| layer.complete(),
            ).len(),
    {
        let ghost complete = |layer: Deepseek2AttentionLayerPlan| layer.complete();
        let mut count: usize = 0;
        for i in 0..self.layers.len()
            invariant
                complete == (|layer: Deepseek2AttentionLayerPlan| layer.complete()),
                count <= i,
                count == self.layers@.take(i as int).filter(complete).len(),
        {
            assert(self.layers@.take(i + 1).drop_last() =~= self.layers@.take(i as int));
            proof {
                reveal(Seq::filter);
            }
            if self.layers[i].is_mla_complete() {
                count += 1;
            }
        }
        assert(self.layers@.take(self.layers@.len() as int) =~= self.layers@);
        count
    }

    /// The tensors of all layers that may be staged on a device: attention/MLA tensors alone,
    /// never expert or FFN tensors.
    pub fn tensors_for_cuda_residency(&self) -> (tensors: Vec<&GgufAttentionTensorRef>)
        ensures
            tensors@.unref() == self.residents(),
    {
        let ghost each = |layer: Deepseek2AttentionLayerPlan| layer.residents();
        let mut tensors: Vec<&GgufAttentionTensorRef> = Vec::new();
        assert(tensors@.unref() =~= self.layers@.take(0).map_values(each).flatten());
        for i in 0..self.layers.len()
            invariant
                each == (|layer: Deepseek2AttentionLayerPlan| layer.residents()),
                tensors@.unref() == self.layers@.take(i as int).map_values(each).flatten(),
        {
            let ghost before = tensors@;
            let mut of_layer = self.layers[i].tensors_for_cuda_residency();
            let ghost added = of_layer@;
            tensors.append(&mut of_layer);
            proof {
                assert(tensors@.unref() =~= before.unref() + added.unref());
                let done = self.layers@.take(i as int).map_values(each);
                assert(self.layers@.take(i + 1).map_values(each) =~= done.push(
                    self.layers@[i as int].residents(),
                ));
                done.lemma_flatten_push(self.layers@[i as int].residents());
            }
        }
        assert(self.layers@.take(self.layers@.len() as int) =~= self.layers@);
        tensors
    }
}

} // verus!
