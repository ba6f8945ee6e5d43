use larql_inference::attention::tensor_name::{
    attention_tensor_name, parse_deepseek2_attention_tensor_role,
};
use larql_inference::text::{char_vec, decimal_text, parse_usize, same_text};

fn parsed(text: &str) -> Option<usize> {
    parse_usize(&char_vec(text))
}

#[test]
fn names_of_attention_tensors_give_layer_and_role() {
    assert_eq!(
        parse_deepseek2_attention_tensor_role("blk.12.attn_q_a.weight"),
        Some((12, "attn_q_a.weight"))
    );
    assert_eq!(
        parse_deepseek2_attention_tensor_role("blk.0.attn_"),
        Some((0, "attn_"))
    );
    assert_eq!(
        parse_deepseek2_attention_tensor_role("blk.007.attn_é.x"),
        Some((7, "attn_é.x"))
    );
    assert_eq!(
        parse_deepseek2_attention_tensor_role("blk.+3.attn_x"),
        Some((3, "attn_x"))
    );
}

#[test]
fn other_names_have_no_role() {
    for name in [
        "",
        "blk",
        "blk.",
        "blk.0",
        "blk.0.",
        "blk.0.attn",
        "blk.0.ffn_gate_exps.weight",
        "blk..attn_q_a.weight",
        "blk.-1.attn_q_a.weight",
        "blk. 1.attn_q_a.weight",
        "blk.x.attn_q_a.weight",
        "xblk.0.attn_q_a.weight",
        "blk.99999999999999999999999.attn_q_a.weight",
        "blk.0.x.attn_q_a.weight",
    ] {
        assert_eq!(parse_deepseek2_attention_tensor_role(name), None, "{name}");
    }
}

#[test]
fn composed_names_are_read_back() {
    for layer in [0, 9, 10, 61, 1234567890, usize::MAX] {
        let name = attention_tensor_name(layer, "_kv_a_mqa.weight");
        assert_eq!(name, format!("blk.{layer}.attn_kv_a_mqa.weight"));
        assert_eq!(
            parse_deepseek2_attention_tensor_role(&name),
            Some((layer, "attn_kv_a_mqa.weight"))
        );
    }
}

#[test]
fn numbers_are_read_as_the_standard_library_reads_them() {
    let max = usize::MAX.to_string();
    let beyond = "18446744073709551616";
    for text in ["", "+", "++1", "0", "+0", "00012", "1_000", "1a", "a", "-0", "1 ", "٣", &max, beyond] {
        assert_eq!(parsed(text), text.parse::<usize>().ok(), "{text}");
    }
}

#[test]
fn numbers_are_written_in_decimal() {
    for n in [0, 7, 10, 99, 100, 65536, usize::MAX] {
        assert_eq!(decimal_text(n), n.to_string());
        assert_eq!(parsed(&decimal_text(n)), Some(n));
    }
}

#[test]
fn texts_are_compared_character_by_character() {
    assert!(same_text("", ""));
    assert!(same_text("né", "né"));
    assert!(!same_text("né", "ne"));
    assert!(!same_text("n", "né"));
}
