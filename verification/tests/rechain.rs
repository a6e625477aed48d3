use spirv_webgpu_transform::splitbindingarray::rechain_instructions::{
    get_last_instruction_result_type_and_id, rechain_instructions_with_target_id,
};
use spirv_webgpu_transform::spv::{
    SPV_INSTRUCTION_OP_LOAD, SPV_INSTRUCTION_OP_SAMPLED_IMAGE, SPV_INSTRUCTION_OP_STORE,
};
use spirv_webgpu_transform::util::encode_word;

#[test]
fn two_chained_result_instructions() {
    let snippet: &[u32] = &[
        encode_word(4, SPV_INSTRUCTION_OP_LOAD), 10, 1, 2,
        encode_word(4, SPV_INSTRUCTION_OP_LOAD), 20, 3, 4,
    ];
    let mut ib = 500u32;
    let (out, result) = rechain_instructions_with_target_id(&mut ib, snippet, 100, false, false);
    assert_eq!(out[2], 500);
    assert_eq!(out[3], 100);
    assert_eq!(out[6], 501);
    assert_eq!(out[7], 500);
    assert_eq!(result, Some((20, 501)));
}

#[test]
fn terminal_store_no_flip() {
    let snippet: &[u32] = &[
        encode_word(4, SPV_INSTRUCTION_OP_LOAD),  10, 1, 2,
        encode_word(3, SPV_INSTRUCTION_OP_STORE), 3, 4,
    ];
    let mut ib = 500u32;
    let (out, result) = rechain_instructions_with_target_id(&mut ib, snippet, 100, false, false);
    assert_eq!(out[2], 500);
    assert_eq!(out[3], 100);
    assert_eq!(out[5], 500);
    assert_eq!(out[6], 4);
    assert_eq!(result, None);
}

#[test]
fn terminal_store_flip() {
    let snippet: &[u32] = &[
        encode_word(4, SPV_INSTRUCTION_OP_LOAD),  10, 1, 2,
        encode_word(3, SPV_INSTRUCTION_OP_STORE), 3, 4,
    ];
    let mut ib = 500u32;
    let (out, result) = rechain_instructions_with_target_id(&mut ib, snippet, 100, true, false);
    assert_eq!(out[2], 500);
    assert_eq!(out[3], 100);
    assert_eq!(out[5], 3);
    assert_eq!(out[6], 500);
    assert_eq!(result, None);
}

#[test]
fn rechain_takes_one_id_per_result() {
    let snippet: &[u32] = &[
        encode_word(4, SPV_INSTRUCTION_OP_LOAD),  10, 1, 2,
        encode_word(3, SPV_INSTRUCTION_OP_STORE), 3, 4,
    ];
    let mut ib = 7u32;
    let _ = rechain_instructions_with_target_id(&mut ib, snippet, 100, false, false);
    assert_eq!(ib, 8);
}

#[test]
fn rechain_rotates_sampled_image_to_sampler() {
    let snippet: &[u32] = &[
        encode_word(5, SPV_INSTRUCTION_OP_SAMPLED_IMAGE), 12, 22, 20, 21,
    ];
    let mut ib = 40u32;
    let (out, result) = rechain_instructions_with_target_id(&mut ib, snippet, 9, false, true);
    assert_eq!(out, vec![encode_word(5, SPV_INSTRUCTION_OP_SAMPLED_IMAGE), 12, 40, 20, 9]);
    assert_eq!(result, Some((12, 40)));
}

#[test]
fn last_instruction_result() {
    let snippet: &[u32] = &[
        encode_word(4, SPV_INSTRUCTION_OP_LOAD),  10, 1, 2,
        encode_word(4, SPV_INSTRUCTION_OP_LOAD),  20, 3, 4,
    ];
    assert_eq!(get_last_instruction_result_type_and_id(snippet), Some((20, 3)));
    let store: &[u32] = &[
        encode_word(4, SPV_INSTRUCTION_OP_LOAD),  10, 1, 2,
        encode_word(3, SPV_INSTRUCTION_OP_STORE), 3, 4,
    ];
    assert_eq!(get_last_instruction_result_type_and_id(store), None);
}
