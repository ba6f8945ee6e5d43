//! Names of attention tensors: `blk.<layer>.attn_<rest>`.

use vstd::prelude::*;
use vstd::string::*;

use crate::text;
use crate::text::{char_vec, decimal_text, parse_usize};

verus! {

/// The layer and the role that the name of an attention tensor gives: what stands between `blk.`
/// and the next dot, read as a number, and all that follows that dot, which starts with `attn_`.
pub open spec fn tensor_role(name: Seq<char>) -> Option<(usize, Seq<char>)> {
    if !("blk."@).is_prefix_of(name) {
        None
    } else {
        let suffix = name.skip(4);
        match suffix.index_of_first('.') {
            None => None,
            Some(dot) => {
                let role = suffix.skip(dot + 1);
                match text::parsed_usize(suffix.take(dot)) {
                    Some(layer) if ("attn_"@).is_prefix_of(role) => Some((layer, role)),
                    _ => None,
                }
            },
        }
    }
}

/// Whether the characters of `chars` from `at` on start with `prefix`.
fn prefix_at(chars: &Vec<char>, at: usize, prefix: &str) -> (found: bool)
    requires
        at <= chars.len(),
    ensures
        found == prefix@.is_prefix_of(chars@.skip(at as int)),
{
    let wanted = char_vec(prefix);
    if chars.len() - at < wanted.len() {
        return false;
    }
    for i in 0..wanted.len()
        invariant
            wanted@ == prefix@,
            at + wanted.len() <= chars.len(),
            forall|k: int| 0 <= k < i ==> prefix@[k] == chars@[at + k],
    {
        if chars[at + i] != wanted[i] {
            assert(chars@.skip(at as int).subrange(0, wanted.len() as int)[i as int]
                != prefix@[i as int]);
            return false;
        }
    }
    assert(prefix@ =~= chars@.skip(at as int).subrange(0, wanted.len() as int));
    true
}

/// The layer and the role of the tensor called `name`, where it is an attention tensor of a layer.
pub fn parse_deepseek2_attention_tensor_role(name: &str) -> (role: Option<(usize, &str)>)
    ensures
        match role {
            Some((layer, rest)) => tensor_role(name@) == Some((layer, rest@)),
            None => tensor_role(name@) is None,
        },
{
    let chars = char_vec(name);
    proof {
        reveal_strlit("blk.");
        reveal_strlit("attn_");
        assert(name@.skip(0) =~= name@);
    }
    if !prefix_at(&chars, 0, "blk.") {
        return None;
    }
    let ghost suffix = name@.skip(4);
    let mut dot: usize = 4;
    while dot < chars.len() && chars[dot] != '.'
        invariant
            chars@ == name@,
            suffix == name@.skip(4),
            4 <= dot <= chars.len(),
            forall|k: int| 0 <= k < dot - 4 ==> suffix[k] != '.',
        decreases chars.len() - dot,
    {
        dot += 1;
    }
    proof {
        suffix.index_of_first_ensures('.');
    }
    if dot == chars.len() {
        return None;
    }
    assert(suffix[dot - 4] == '.');
    assert(suffix.index_of_first('.') == Some(dot - 4));
    let ghost role = suffix.skip(dot - 4 + 1);
    assert(role =~= name@.skip(dot + 1));
    if !prefix_at(&chars, dot + 1, "attn_") {
        return None;
    }
    assert(suffix.take(dot - 4) =~= name@.subrange(4, dot as int));
    match parse_usize(vstd::slice::slice_subrange(chars.as_slice(), 4, dot)) {
        None => None,
        Some(layer) => {
            let rest = name.substring_char(dot + 1, chars.len());
            assert(rest@ =~= role);
            Some((layer, rest))
        },
    }
}

/// The name of an attention tensor of layer `layer`.
pub open spec fn layer_tensor_name(layer: nat, suffix: Seq<char>) -> Seq<char> {
    "blk."@ + text::decimal(layer) + ".attn"@ + suffix
}

/// Writes down the name of an attention tensor of layer `layer`.
pub fn attention_tensor_name(layer: usize, suffix: &str) -> (name: String)
    ensures
        name@ == layer_tensor_name(layer as nat, suffix@),
{
    let mut name = "blk.".to_owned();
    name.append(decimal_text(layer).as_str());
    name.append(".attn");
    name.append(suffix);
    name
}

/// A name that starts with `blk.`, goes on with `block`, which has no dot, and a dot, and ends in
/// `rest`, gives away `block` and `rest`.
pub proof fn lemma_name_splits(name: Seq<char>, block: Seq<char>, rest: Seq<char>)
    requires
        name == "blk."@ + block + "."@ + rest,
        !block.contains('.'),
    ensures
        ("blk."@).is_prefix_of(name),
        name.skip(4).index_of_first('.') == Some(block.len() as int),
        name.skip(4).take(block.len() as int) == block,
        name.skip(4).skip(block.len() as int + 1) == rest,
{
    reveal_strlit("blk.");
    reveal_strlit(".");
    let suffix = name.skip(4);
    assert(suffix =~= block + "."@ + rest);
    assert(suffix[block.len() as int] == '.');
    assert forall|i: int| 0 <= i < block.len() implies suffix[i] != '.' by {
        assert(block.contains(block[i]));
    }
    suffix.index_of_first_ensures('.');
    assert(suffix.take(block.len() as int) =~= block);
    assert(suffix.skip(block.len() as int + 1) =~= rest);
    assert("blk."@ =~= name.subrange(0, 4));
}

/// A name that was put together from a layer and a suffix gives both back.
pub proof fn name_gives_layer_and_role(layer: usize, suffix: Seq<char>)
    requires
        ("_"@).is_prefix_of(suffix),
    ensures
        tensor_role(layer_tensor_name(layer as nat, suffix)) == Some((layer, "attn"@ + suffix)),
{
    reveal_strlit(".attn");
    reveal_strlit("attn");
    reveal_strlit("attn_");
    reveal_strlit(".");
    reveal_strlit("_");
    let name = layer_tensor_name(layer as nat, suffix);
    let block = text::decimal(layer as nat);
    let role = "attn"@ + suffix;
    text::numeral_has_digits_alone(layer as nat);
    assert(!block.contains('.'));
    assert(name =~= "blk."@ + block + "."@ + role);
    lemma_name_splits(name, block, role);
    text::numeral_reads_back(layer);
    assert(suffix[0] == '_') by {
        assert(suffix.subrange(0, 1)[0] == '_');
    }
    assert("attn_"@ =~= role.subrange(0, 5));
}

/// What is called an FFN tensor of a block is no attention tensor, whatever the block is called.
pub proof fn ffn_names_have_no_role(block: Seq<char>, rest: Seq<char>)
    requires
        !block.contains('.'),
    ensures
        tensor_role("blk."@ + block + ".ffn_"@ + rest) is None,
{
    reveal_strlit(".ffn_");
    reveal_strlit("attn_");
    reveal_strlit(".");
    let name = "blk."@ + block + ".ffn_"@ + rest;
    let role = (".ffn_"@).skip(1) + rest;
    assert(name =~= "blk."@ + block + "."@ + role);
    lemma_name_splits(name, block, role);
    assert(role[0] == 'f');
    if ("attn_"@).is_prefix_of(role) {
        assert(role.subrange(0, 5)[0] == 'a');
    }
}

/// The name of an attention tensor holds `attn_`.
pub proof fn role_stands_in_name(name: Seq<char>)
    requires
        tensor_role(name) is Some,
    ensures
        ("blk."@).is_prefix_of(name),
        exists|at: int| 0 <= at <= name.len() && ("attn_"@).is_prefix_of(#[trigger] name.skip(at)),
{
    reveal_strlit("blk.");
    let suffix = name.skip(4);
    suffix.index_of_first_ensures('.');
    let dot = suffix.index_of_first('.').unwrap();
    assert(suffix.skip(dot + 1) =~= name.skip(dot + 5));
}

} // verus!
