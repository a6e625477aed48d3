use spirv_webgpu_transform::pruneunuseddref::pruneunuseddref;
use spirv_webgpu_transform::spv::{
    SPV_HEADER_MAGIC, SPV_INSTRUCTION_OP_DECORATE, SPV_INSTRUCTION_OP_FUNCTION, SPV_INSTRUCTION_OP_FUNCTION_CALL,
    SPV_INSTRUCTION_OP_FUNCTION_END, SPV_INSTRUCTION_OP_FUNCTION_PARAMETER, SPV_INSTRUCTION_OP_LABEL,
    SPV_INSTRUCTION_OP_LOAD, SPV_INSTRUCTION_OP_NAME, SPV_INSTRUCTION_OP_SAMPLED_IMAGE,
    SPV_INSTRUCTION_OP_TYPE_IMAGE, SPV_INSTRUCTION_OP_TYPE_POINTER, SPV_INSTRUCTION_OP_TYPE_SAMPLER,
    SPV_INSTRUCTION_OP_VARIABLE,
};
use spirv_webgpu_transform::util::encode_word;

const HEADER: [u32; 5] = [SPV_HEADER_MAGIC, 0x0001_0000, 0, 40, 0];
const BINDING: u32 = 33;
const OP_RETURN: u16 = 253;
const UNIFORM_CONSTANT: u32 = 0;

fn sampler_type(id: u32) -> Vec<u32> {
    vec![encode_word(2, SPV_INSTRUCTION_OP_TYPE_SAMPLER), id]
}

fn image_type(id: u32, sampled: u32) -> Vec<u32> {
    vec![encode_word(9, SPV_INSTRUCTION_OP_TYPE_IMAGE), id, 20, 1, 0, 0, 0, sampled, 0]
}

fn pointer(id: u32, pointee: u32) -> Vec<u32> {
    vec![encode_word(4, SPV_INSTRUCTION_OP_TYPE_POINTER), id, UNIFORM_CONSTANT, pointee]
}

fn variable(ty: u32, id: u32) -> Vec<u32> {
    vec![encode_word(4, SPV_INSTRUCTION_OP_VARIABLE), ty, id, UNIFORM_CONSTANT]
}

fn decorate_binding(id: u32, binding: u32) -> Vec<u32> {
    vec![encode_word(4, SPV_INSTRUCTION_OP_DECORATE), id, BINDING, binding]
}

fn name(id: u32) -> Vec<u32> {
    // "s" and its terminating zero fit in one word.
    vec![encode_word(3, SPV_INSTRUCTION_OP_NAME), id, 0x73]
}

fn load(ty: u32, id: u32, ptr: u32) -> Vec<u32> {
    vec![encode_word(4, SPV_INSTRUCTION_OP_LOAD), ty, id, ptr]
}

fn sampled_image(ty: u32, id: u32, image: u32, sampler: u32) -> Vec<u32> {
    vec![encode_word(5, SPV_INSTRUCTION_OP_SAMPLED_IMAGE), ty, id, image, sampler]
}

fn module(parts: &[Vec<u32>]) -> Vec<u32> {
    let mut m = HEADER.to_vec();
    for p in parts {
        m.extend_from_slice(p);
    }
    m
}

#[test]
fn unused_sampler_is_removed_with_its_decoration_and_name() {
    let input = module(&[name(3), decorate_binding(3, 0), sampler_type(1), pointer(2, 1), variable(2, 3)]);
    let expected = module(&[sampler_type(1), pointer(2, 1)]);
    assert_eq!(pruneunuseddref(&input), Ok(expected));
}

#[test]
fn unused_sampled_image_is_removed() {
    let input = module(&[decorate_binding(3, 1), image_type(1, 1), pointer(2, 1), variable(2, 3)]);
    let expected = module(&[image_type(1, 1), pointer(2, 1)]);
    assert_eq!(pruneunuseddref(&input), Ok(expected));
}

#[test]
fn unused_storage_image_is_kept() {
    let input = module(&[decorate_binding(3, 1), image_type(1, 2), pointer(2, 1), variable(2, 3)]);
    assert_eq!(pruneunuseddref(&input), Ok(input.clone()));
}

#[test]
fn sampler_combined_into_a_sampled_image_is_kept() {
    let input = module(&[
        name(5),
        decorate_binding(5, 0),
        decorate_binding(6, 1),
        image_type(1, 1),
        sampler_type(2),
        pointer(3, 1),
        pointer(4, 2),
        variable(3, 6),
        variable(4, 5),
        load(1, 7, 6),
        load(2, 8, 5),
        sampled_image(9, 10, 7, 8),
    ]);
    assert_eq!(pruneunuseddref(&input), Ok(input.clone()));
}

#[test]
fn only_the_unused_of_two_samplers_is_removed() {
    let input = module(&[
        decorate_binding(5, 0),
        decorate_binding(11, 2),
        image_type(1, 1),
        sampler_type(2),
        pointer(3, 1),
        pointer(4, 2),
        variable(3, 6),
        variable(4, 5),
        variable(4, 11),
        load(1, 7, 6),
        load(2, 8, 5),
        sampled_image(9, 10, 7, 8),
    ]);
    let expected = module(&[
        decorate_binding(5, 0),
        image_type(1, 1),
        sampler_type(2),
        pointer(3, 1),
        pointer(4, 2),
        variable(3, 6),
        variable(4, 5),
        load(1, 7, 6),
        load(2, 8, 5),
        sampled_image(9, 10, 7, 8),
    ]);
    assert_eq!(pruneunuseddref(&input), Ok(expected));
}

#[test]
fn sampler_passed_to_a_loaded_parameter_is_kept() {
    let input = module(&[
        decorate_binding(5, 0),
        sampler_type(2),
        pointer(4, 2),
        variable(4, 5),
        // The callee loads its parameter.
        vec![encode_word(5, SPV_INSTRUCTION_OP_FUNCTION), 30, 20, 0, 31],
        vec![encode_word(3, SPV_INSTRUCTION_OP_FUNCTION_PARAMETER), 4, 21],
        vec![encode_word(2, SPV_INSTRUCTION_OP_LABEL), 22],
        load(2, 23, 21),
        vec![encode_word(1, OP_RETURN)],
        vec![encode_word(1, SPV_INSTRUCTION_OP_FUNCTION_END)],
        // The caller passes the sampler variable.
        vec![encode_word(5, SPV_INSTRUCTION_OP_FUNCTION), 30, 24, 0, 32],
        vec![encode_word(2, SPV_INSTRUCTION_OP_LABEL), 25],
        vec![encode_word(5, SPV_INSTRUCTION_OP_FUNCTION_CALL), 30, 26, 20, 5],
        vec![encode_word(1, OP_RETURN)],
        vec![encode_word(1, SPV_INSTRUCTION_OP_FUNCTION_END)],
    ]);
    assert_eq!(pruneunuseddref(&input), Ok(input.clone()));
}

#[test]
fn module_without_samplers_is_unchanged() {
    let input = module(&[image_type(1, 2), pointer(2, 1), variable(2, 3)]);
    assert_eq!(pruneunuseddref(&input), Ok(input.clone()));
}
