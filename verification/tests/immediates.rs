use spirv_webgpu_transform::correction::{CorrectionMap, ImmediatesSetMode};
use spirv_webgpu_transform::immediatespatch::immediatespatch;
use spirv_webgpu_transform::immediatespatch::layout::round_up;
use spirv_webgpu_transform::spv::{
    SPV_DECORATION_BINDING, SPV_DECORATION_DESCRIPTOR_SET, SPV_DECORATION_OFFSET, SPV_HEADER_MAGIC,
    SPV_INSTRUCTION_OP_DECORATE, SPV_INSTRUCTION_OP_MEMBER_DECORATE, SPV_INSTRUCTION_OP_TYPE_FLOAT,
    SPV_INSTRUCTION_OP_TYPE_POINTER, SPV_INSTRUCTION_OP_TYPE_STRUCT, SPV_INSTRUCTION_OP_VARIABLE,
    SPV_STORAGE_CLASS_PUSH_CONSTANT, SPV_STORAGE_CLASS_UNIFORM,
};
use spirv_webgpu_transform::util::encode_word;

const BLOCK: u32 = 2;

fn push_constant_module(extra_set: Option<u32>) -> Vec<u32> {
    let mut m = vec![SPV_HEADER_MAGIC, 0x0001_0000, 0, 10, 0];
    m.extend_from_slice(&[encode_word(3, SPV_INSTRUCTION_OP_DECORATE), 2, BLOCK]);
    if let Some(set) = extra_set {
        m.extend_from_slice(&[encode_word(4, SPV_INSTRUCTION_OP_DECORATE), 7, SPV_DECORATION_DESCRIPTOR_SET, set]);
    }
    m.extend_from_slice(&[
        encode_word(5, SPV_INSTRUCTION_OP_MEMBER_DECORATE), 2, 0, SPV_DECORATION_OFFSET, 0,
        encode_word(3, SPV_INSTRUCTION_OP_TYPE_FLOAT), 1, 32,
        encode_word(3, SPV_INSTRUCTION_OP_TYPE_STRUCT), 2, 1,
        encode_word(4, SPV_INSTRUCTION_OP_TYPE_POINTER), 3, SPV_STORAGE_CLASS_PUSH_CONSTANT, 2,
        encode_word(4, SPV_INSTRUCTION_OP_VARIABLE), 3, 4, SPV_STORAGE_CLASS_PUSH_CONSTANT,
    ]);
    m
}

#[test]
fn push_constants_become_a_uniform_in_the_next_free_set() {
    let module = push_constant_module(None);
    let mut corrections = CorrectionMap::default();
    let out = immediatespatch(&module, &mut corrections).unwrap();
    let expected = vec![
        SPV_HEADER_MAGIC, 0x0001_0000, 0, 10, 0,
        encode_word(3, SPV_INSTRUCTION_OP_DECORATE), 2, BLOCK,
        encode_word(4, SPV_INSTRUCTION_OP_DECORATE), 4, SPV_DECORATION_DESCRIPTOR_SET, 0,
        encode_word(4, SPV_INSTRUCTION_OP_DECORATE), 4, SPV_DECORATION_BINDING, 0,
        encode_word(5, SPV_INSTRUCTION_OP_MEMBER_DECORATE), 2, 0, SPV_DECORATION_OFFSET, 0,
        encode_word(3, SPV_INSTRUCTION_OP_TYPE_FLOAT), 1, 32,
        encode_word(3, SPV_INSTRUCTION_OP_TYPE_STRUCT), 2, 1,
        encode_word(4, SPV_INSTRUCTION_OP_TYPE_POINTER), 3, SPV_STORAGE_CLASS_UNIFORM, 2,
        encode_word(4, SPV_INSTRUCTION_OP_VARIABLE), 3, 4, SPV_STORAGE_CLASS_UNIFORM,
    ];
    assert_eq!(out, expected);
    assert_eq!(corrections.immediates_set, Some(0));
}

#[test]
fn modules_without_push_constants_are_returned_unchanged() {
    let module = vec![
        SPV_HEADER_MAGIC, 0x0001_0000, 0, 3, 0,
        encode_word(3, SPV_INSTRUCTION_OP_TYPE_FLOAT), 1, 32,
        encode_word(3, SPV_INSTRUCTION_OP_TYPE_STRUCT), 2, 1,
    ];
    let mut corrections = CorrectionMap::default();
    let out = immediatespatch(&module, &mut corrections).unwrap();
    assert_eq!(out, module);
    assert_eq!(corrections.immediates_set, None);
}

#[test]
fn the_set_after_the_highest_set_in_use_is_chosen() {
    let module = push_constant_module(Some(4));
    let mut corrections = CorrectionMap::default();
    let out = immediatespatch(&module, &mut corrections).unwrap();
    assert_eq!(corrections.immediates_set, Some(5));
    assert_eq!(&out[8..16], &[
        encode_word(4, SPV_INSTRUCTION_OP_DECORATE), 4, SPV_DECORATION_DESCRIPTOR_SET, 5,
        encode_word(4, SPV_INSTRUCTION_OP_DECORATE), 4, SPV_DECORATION_BINDING, 0,
    ]);
}

#[test]
fn requested_sets_follow_their_mode() {
    let module = push_constant_module(Some(4));

    let mut absolute = CorrectionMap::default();
    absolute.immediates_set = Some(9);
    immediatespatch(&module, &mut absolute).unwrap();
    assert_eq!(absolute.immediates_set, Some(9));

    let mut up_to = CorrectionMap::default();
    up_to.immediates_set = Some(9);
    up_to.immediates_set_mode = Some(ImmediatesSetMode::MaxUpTo);
    immediatespatch(&module, &mut up_to).unwrap();
    assert_eq!(up_to.immediates_set, Some(5));

    let mut capped = CorrectionMap::default();
    capped.immediates_set = Some(2);
    capped.immediates_set_mode = Some(ImmediatesSetMode::MaxUpTo);
    immediatespatch(&module, &mut capped).unwrap();
    assert_eq!(capped.immediates_set, Some(2));

    let mut plus_one = CorrectionMap::default();
    plus_one.immediates_set = Some(9);
    plus_one.immediates_set_mode = Some(ImmediatesSetMode::MaxPlusOneUpTo);
    immediatespatch(&module, &mut plus_one).unwrap();
    assert_eq!(plus_one.immediates_set, Some(6));
}

#[test]
fn rounding_up_to_an_alignment() {
    assert_eq!(round_up(0, 16), 0);
    assert_eq!(round_up(5, 4), 8);
    assert_eq!(round_up(8, 4), 8);
    assert_eq!(round_up(17, 16), 32);
}
