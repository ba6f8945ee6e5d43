//! Which names are those of attention tensors, and what they tell.

use vstd::arithmetic::power;
use vstd::prelude::*;
use vstd::string::*;

use crate::attention::tensor_name;
use crate::attention::tensor_name::{
    attention_tensor_name, parse_deepseek2_attention_tensor_role,
};
use crate::text;
use crate::text_laws;

verus! {

/// A name that is made of `blk.`, the digits of a number, perhaps after a plus sign, `.attn_` and
/// anything else tells that number and all that comes after the dot, where the number fits.
pub proof fn attention_names_tell_layer_and_role(
    name: &str,
    block: Seq<char>,
    digits: Seq<char>,
    value: int,
    rest: Seq<char>,
    told: Option<(usize, &str)>,
)
    requires
        call_ensures(parse_deepseek2_attention_tensor_role, (name,), told),
        name@ == "blk."@ + block + ".attn_"@ + rest,
        block == digits || block == seq!['+'] + digits,
        digits.len() > 0,
        0 <= value < power::pow(10, digits.len()),
        forall|i: int|
            0 <= i < digits.len() ==> '0' <= #[trigger] digits[i] <= '9' && digits[i] as int
                - '0' as int == (value / power::pow(10, (digits.len() - 1 - i) as nat)) % 10,
    ensures
        value <= usize::MAX ==> (told matches Some((layer, role)) && layer == value && role@
            == "attn_"@ + rest),
        value > usize::MAX ==> told is None,
{
    reveal_strlit(".");
    reveal_strlit("attn_");
    reveal_strlit(".attn_");
    let role = "attn_"@ + rest;
    assert(text_laws::has_digits(digits, value));
    text_laws::lemma_parsed_digits(block, digits, value);
    assert(!block.contains('.')) by {
        assert forall|i: int| 0 <= i < block.len() implies block[i] != '.' by {
            if block == digits {
                assert('0' <= digits[i] <= '9');
            } else if i > 0 {
                assert(block[i] == digits[i - 1]);
            }
        }
    }
    assert(name@ =~= "blk."@ + block + "."@ + role);
    tensor_name::lemma_name_splits(name@, block, role);
    assert("attn_"@ =~= role.subrange(0, 5));
}

/// No other names are those of attention tensors: what tells a layer and a role is made of `blk.`,
/// the digits of the layer, perhaps after a plus sign, a dot and the role, which starts with
/// `attn_`.
pub proof fn what_tells_a_role_is_an_attention_name(
    name: &str,
    layer: usize,
    role: &str,
) -> (parts: (Seq<char>, Seq<char>, Seq<char>))
    requires
        call_ensures(parse_deepseek2_attention_tensor_role, (name,), Some((layer, role))),
    ensures
        ({
            let (block, digits, rest) = parts;
            let value = layer as int;
            &&& name@ == "blk."@ + block + "."@ + role@
            &&& role@ == "attn_"@ + rest
            &&& block == digits || block == seq!['+'] + digits
            &&& digits.len() > 0
            &&& 0 <= value < power::pow(10, digits.len())
            &&& forall|i: int|
                0 <= i < digits.len() ==> '0' <= #[trigger] digits[i] <= '9' && digits[i] as int
                    - '0' as int == (value / power::pow(10, (digits.len() - 1 - i) as nat)) % 10
        }),
{
    reveal_strlit("blk.");
    reveal_strlit(".");
    reveal_strlit("attn_");
    let suffix = name@.skip(4);
    suffix.index_of_first_ensures('.');
    let dot = suffix.index_of_first('.')->Some_0;
    let block = suffix.take(dot);
    let digits = text_laws::lemma_parsed_has_digits(block);
    let rest = role@.skip(5);
    assert(name@ =~= "blk."@ + block + "."@ + role@);
    assert(role@ =~= "attn_"@ + rest);
    (block, digits, rest)
}

/// A name that is written for a layer holds its number between `blk.` and `.attn`, and ends in the
/// suffix.
pub proof fn written_names_hold_layer_and_suffix(layer: usize, suffix: &str, name: String)
    requires
        call_ensures(attention_tensor_name, (layer, suffix), name),
    ensures
        name@ == "blk."@ + text::decimal(layer as nat) + ".attn"@ + suffix@,
{
}

} // verus!
