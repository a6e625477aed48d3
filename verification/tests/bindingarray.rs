use spirv_webgpu_transform::correction::{CorrectionMap, CorrectionType};
use spirv_webgpu_transform::spv::{
    SPV_DECORATION_BINDING, SPV_DECORATION_DESCRIPTOR_SET, SPV_DIMENSION_2D, SPV_HEADER_MAGIC,
    SPV_INSTRUCTION_OP_ACCESS_CHAIN, SPV_INSTRUCTION_OP_CONSTANT, SPV_INSTRUCTION_OP_DECORATE,
    SPV_INSTRUCTION_OP_FUNCTION, SPV_INSTRUCTION_OP_FUNCTION_END, SPV_INSTRUCTION_OP_IMAGE_FETCH,
    SPV_INSTRUCTION_OP_LABEL, SPV_INSTRUCTION_OP_LOAD, SPV_INSTRUCTION_OP_NOP, SPV_INSTRUCTION_OP_PHI,
    SPV_INSTRUCTION_OP_SWITCH, SPV_INSTRUCTION_OP_TYPE_ARRAY, SPV_INSTRUCTION_OP_TYPE_FLOAT,
    SPV_INSTRUCTION_OP_TYPE_IMAGE, SPV_INSTRUCTION_OP_TYPE_INT, SPV_INSTRUCTION_OP_TYPE_POINTER,
    SPV_INSTRUCTION_OP_TYPE_VECTOR, SPV_INSTRUCTION_OP_VARIABLE,
};
use spirv_webgpu_transform::splitbindingarray::{is_split_ready, splitbindingarray};
use spirv_webgpu_transform::util::instruction::is_wf_stream;
use spirv_webgpu_transform::util::{encode_word, hiword, loword};

const OP_TYPE_VOID: u16 = 19;
const OP_TYPE_FUNCTION: u16 = 33;
const OP_RETURN: u16 = 253;
const UNIFORM_CONSTANT: u32 = 0;

/// The declarations of a module with an array of three images at set 0, binding 0.
fn image_array_declarations(m: &mut Vec<u32>) {
    m.extend_from_slice(&[encode_word(4, SPV_INSTRUCTION_OP_DECORATE), 7, SPV_DECORATION_DESCRIPTOR_SET, 0]);
    m.extend_from_slice(&[encode_word(4, SPV_INSTRUCTION_OP_DECORATE), 7, SPV_DECORATION_BINDING, 0]);
    m.extend_from_slice(&[encode_word(4, SPV_INSTRUCTION_OP_TYPE_INT), 1, 32, 0]);
    m.extend_from_slice(&[encode_word(4, SPV_INSTRUCTION_OP_CONSTANT), 1, 2, 3]);
    m.extend_from_slice(&[encode_word(3, SPV_INSTRUCTION_OP_TYPE_FLOAT), 3, 32]);
    m.extend_from_slice(&[encode_word(9, SPV_INSTRUCTION_OP_TYPE_IMAGE), 4, 3, SPV_DIMENSION_2D, 0, 0, 0, 1, 0]);
    m.extend_from_slice(&[encode_word(4, SPV_INSTRUCTION_OP_TYPE_ARRAY), 5, 4, 2]);
    m.extend_from_slice(&[encode_word(4, SPV_INSTRUCTION_OP_TYPE_POINTER), 6, UNIFORM_CONSTANT, 5]);
    m.extend_from_slice(&[encode_word(4, SPV_INSTRUCTION_OP_VARIABLE), 6, 7, UNIFORM_CONSTANT]);
}

fn header(bound: u32) -> Vec<u32> {
    vec![SPV_HEADER_MAGIC, 0x0001_0000, 0, bound, 0]
}

/// The offsets of the instructions of a module body with the given opcode.
fn find(body: &[u32], opcode: u16) -> Vec<usize> {
    let mut out = vec![];
    let mut i = 0;
    while i < body.len() {
        if loword(body[i]) == opcode {
            out.push(i);
        }
        i += hiword(body[i]) as usize;
    }
    out
}

#[test]
fn binding_array_variable_is_split_into_elements() {
    let mut input = header(8);
    image_array_declarations(&mut input);
    let mut corrections = CorrectionMap::default();
    let out = splitbindingarray(&input, &mut corrections).unwrap();

    let mut expected = header(12);
    // The first element keeps the array's decorations; the others copy them, with the
    // bindings that follow.
    expected.extend_from_slice(&[encode_word(4, SPV_INSTRUCTION_OP_DECORATE), 9, SPV_DECORATION_DESCRIPTOR_SET, 0]);
    expected.extend_from_slice(&[encode_word(4, SPV_INSTRUCTION_OP_DECORATE), 10, SPV_DECORATION_DESCRIPTOR_SET, 0]);
    expected.extend_from_slice(&[encode_word(4, SPV_INSTRUCTION_OP_DECORATE), 10, SPV_DECORATION_BINDING, 1]);
    expected.extend_from_slice(&[encode_word(4, SPV_INSTRUCTION_OP_DECORATE), 11, SPV_DECORATION_DESCRIPTOR_SET, 0]);
    expected.extend_from_slice(&[encode_word(4, SPV_INSTRUCTION_OP_DECORATE), 11, SPV_DECORATION_BINDING, 2]);
    expected.extend_from_slice(&[encode_word(4, SPV_INSTRUCTION_OP_DECORATE), 9, SPV_DECORATION_BINDING, 0]);
    expected.extend_from_slice(&[encode_word(4, SPV_INSTRUCTION_OP_TYPE_INT), 1, 32, 0]);
    expected.extend_from_slice(&[encode_word(4, SPV_INSTRUCTION_OP_CONSTANT), 1, 2, 3]);
    expected.extend_from_slice(&[encode_word(3, SPV_INSTRUCTION_OP_TYPE_FLOAT), 3, 32]);
    expected.extend_from_slice(&[encode_word(9, SPV_INSTRUCTION_OP_TYPE_IMAGE), 4, 3, SPV_DIMENSION_2D, 0, 0, 0, 1, 0]);
    expected.extend_from_slice(&[encode_word(4, SPV_INSTRUCTION_OP_TYPE_ARRAY), 5, 4, 2]);
    expected.extend_from_slice(&[encode_word(4, SPV_INSTRUCTION_OP_TYPE_POINTER), 6, UNIFORM_CONSTANT, 5]);
    expected.extend_from_slice(&[encode_word(4, SPV_INSTRUCTION_OP_TYPE_POINTER), 8, UNIFORM_CONSTANT, 4]);
    expected.extend_from_slice(&[encode_word(4, SPV_INSTRUCTION_OP_VARIABLE), 8, 9, UNIFORM_CONSTANT]);
    expected.extend_from_slice(&[encode_word(4, SPV_INSTRUCTION_OP_VARIABLE), 8, 10, UNIFORM_CONSTANT]);
    expected.extend_from_slice(&[encode_word(4, SPV_INSTRUCTION_OP_VARIABLE), 8, 11, UNIFORM_CONSTANT]);
    assert_eq!(out, expected);

    // An `N` sized array records `N-1` corrections of its binding.
    let sets = corrections.sets.unwrap();
    assert_eq!(
        sets[&0].bindings[&0].corrections,
        vec![CorrectionType::SplitBindingArray, CorrectionType::SplitBindingArray]
    );
    assert_eq!(corrections.immediates_set, None);
}

#[test]
fn module_without_binding_arrays_keeps_its_instructions() {
    let mut input = header(9);
    input.extend_from_slice(&[encode_word(4, SPV_INSTRUCTION_OP_DECORATE), 6, SPV_DECORATION_DESCRIPTOR_SET, 0]);
    input.extend_from_slice(&[encode_word(4, SPV_INSTRUCTION_OP_TYPE_INT), 1, 32, 0]);
    input.extend_from_slice(&[encode_word(3, SPV_INSTRUCTION_OP_TYPE_FLOAT), 3, 32]);
    input.extend_from_slice(&[encode_word(9, SPV_INSTRUCTION_OP_TYPE_IMAGE), 4, 3, SPV_DIMENSION_2D, 0, 0, 0, 1, 0]);
    input.extend_from_slice(&[encode_word(4, SPV_INSTRUCTION_OP_TYPE_POINTER), 5, UNIFORM_CONSTANT, 4]);
    input.extend_from_slice(&[encode_word(1, SPV_INSTRUCTION_OP_NOP)]);
    input.extend_from_slice(&[encode_word(4, SPV_INSTRUCTION_OP_VARIABLE), 5, 6, UNIFORM_CONSTANT]);
    let mut corrections = CorrectionMap::default();
    let out = splitbindingarray(&input, &mut corrections).unwrap();
    // Only the `OpNop` is gone.
    let mut expected = input.clone();
    expected.remove(5 + 4 + 4 + 3 + 9 + 4);
    assert_eq!(out, expected);
    assert!(corrections.sets.is_none());
}

#[test]
fn image_fetch_from_binding_array_becomes_switch() {
    let mut input = header(40);
    image_array_declarations(&mut input);
    input.extend_from_slice(&[encode_word(4, SPV_INSTRUCTION_OP_CONSTANT), 1, 20, 1]);
    input.extend_from_slice(&[encode_word(4, SPV_INSTRUCTION_OP_TYPE_VECTOR), 21, 3, 4]);
    input.extend_from_slice(&[encode_word(4, SPV_INSTRUCTION_OP_TYPE_POINTER), 22, UNIFORM_CONSTANT, 4]);
    input.extend_from_slice(&[encode_word(2, OP_TYPE_VOID), 23]);
    input.extend_from_slice(&[encode_word(3, OP_TYPE_FUNCTION), 24, 23]);
    input.extend_from_slice(&[encode_word(5, SPV_INSTRUCTION_OP_FUNCTION), 23, 25, 0, 24]);
    input.extend_from_slice(&[encode_word(2, SPV_INSTRUCTION_OP_LABEL), 26]);
    input.extend_from_slice(&[encode_word(5, SPV_INSTRUCTION_OP_ACCESS_CHAIN), 22, 27, 7, 20]);
    input.extend_from_slice(&[encode_word(4, SPV_INSTRUCTION_OP_LOAD), 4, 28, 27]);
    input.extend_from_slice(&[encode_word(5, SPV_INSTRUCTION_OP_IMAGE_FETCH), 21, 29, 28, 20]);
    input.extend_from_slice(&[encode_word(1, OP_RETURN)]);
    input.extend_from_slice(&[encode_word(1, SPV_INSTRUCTION_OP_FUNCTION_END)]);
    let mut corrections = CorrectionMap::default();
    let out = splitbindingarray(&input, &mut corrections).unwrap();
    let body = &out[5..];

    // The access chain into the array is gone; one switch over the index picks the element.
    assert!(find(body, SPV_INSTRUCTION_OP_ACCESS_CHAIN).is_empty());
    let switches = find(body, SPV_INSTRUCTION_OP_SWITCH);
    assert_eq!(switches.len(), 1);
    assert_eq!(body[switches[0] + 1], 20);
    // Each element is loaded and fetched from in its own case, the default case takes the
    // first element, and the results meet in a phi that takes the place of the old result.
    let loads = find(body, SPV_INSTRUCTION_OP_LOAD);
    assert_eq!(loads.len(), 4);
    let loaded: Vec<u32> = loads.iter().map(|&l| body[l + 3]).collect();
    let variables = find(body, SPV_INSTRUCTION_OP_VARIABLE);
    let mut element_ids: Vec<u32> = variables.iter().map(|&v| body[v + 2]).collect();
    element_ids.push(element_ids[0]);
    assert_eq!(loaded, element_ids);
    assert_eq!(find(body, SPV_INSTRUCTION_OP_IMAGE_FETCH).len(), 4);
    let phis = find(body, SPV_INSTRUCTION_OP_PHI);
    assert_eq!(phis.len(), 1);
    assert_eq!(body[phis[0] + 2], 29);
    assert!(out[3] > 40);
    let sets = corrections.sets.unwrap();
    assert_eq!(sets[&0].bindings[&0].corrections.len(), 2);
}

#[test]
fn image_and_sampler_arrays_sampled_together_nest_switches() {
    const OP_TYPE_SAMPLER: u16 = 26;
    const OP_TYPE_SAMPLED_IMAGE: u16 = 27;
    const OP_SAMPLED_IMAGE: u16 = 86;
    const OP_IMAGE_SAMPLE_IMPLICIT_LOD: u16 = 87;
    const OP_SELECTION_MERGE: u16 = 247;
    let mut m = header(40);
    image_array_declarations(&mut m);
    m.extend_from_slice(&[encode_word(4, SPV_INSTRUCTION_OP_DECORATE), 12, SPV_DECORATION_DESCRIPTOR_SET, 0]);
    m.extend_from_slice(&[encode_word(4, SPV_INSTRUCTION_OP_DECORATE), 12, SPV_DECORATION_BINDING, 1]);
    m.extend_from_slice(&[encode_word(2, OP_TYPE_SAMPLER), 8]);
    m.extend_from_slice(&[encode_word(4, SPV_INSTRUCTION_OP_CONSTANT), 1, 9, 2]);
    m.extend_from_slice(&[encode_word(4, SPV_INSTRUCTION_OP_TYPE_ARRAY), 10, 8, 9]);
    m.extend_from_slice(&[encode_word(4, SPV_INSTRUCTION_OP_TYPE_POINTER), 11, UNIFORM_CONSTANT, 10]);
    m.extend_from_slice(&[encode_word(4, SPV_INSTRUCTION_OP_VARIABLE), 11, 12, UNIFORM_CONSTANT]);
    m.extend_from_slice(&[encode_word(3, OP_TYPE_SAMPLED_IMAGE), 13, 4]);
    m.extend_from_slice(&[encode_word(4, SPV_INSTRUCTION_OP_TYPE_VECTOR), 14, 3, 4]);
    m.extend_from_slice(&[encode_word(4, SPV_INSTRUCTION_OP_TYPE_POINTER), 15, UNIFORM_CONSTANT, 4]);
    m.extend_from_slice(&[encode_word(4, SPV_INSTRUCTION_OP_TYPE_POINTER), 16, UNIFORM_CONSTANT, 8]);
    m.extend_from_slice(&[encode_word(4, SPV_INSTRUCTION_OP_CONSTANT), 1, 17, 1]);
    m.extend_from_slice(&[encode_word(4, SPV_INSTRUCTION_OP_CONSTANT), 1, 18, 0]);
    m.extend_from_slice(&[encode_word(2, OP_TYPE_VOID), 19]);
    m.extend_from_slice(&[encode_word(3, OP_TYPE_FUNCTION), 20, 19]);
    m.extend_from_slice(&[encode_word(5, SPV_INSTRUCTION_OP_FUNCTION), 19, 21, 0, 20]);
    m.extend_from_slice(&[encode_word(2, SPV_INSTRUCTION_OP_LABEL), 22]);
    m.extend_from_slice(&[encode_word(5, SPV_INSTRUCTION_OP_ACCESS_CHAIN), 15, 23, 7, 17]);
    m.extend_from_slice(&[encode_word(4, SPV_INSTRUCTION_OP_LOAD), 4, 24, 23]);
    m.extend_from_slice(&[encode_word(5, SPV_INSTRUCTION_OP_ACCESS_CHAIN), 16, 25, 12, 18]);
    m.extend_from_slice(&[encode_word(4, SPV_INSTRUCTION_OP_LOAD), 8, 26, 25]);
    m.extend_from_slice(&[encode_word(5, OP_SAMPLED_IMAGE), 13, 27, 24, 26]);
    m.extend_from_slice(&[encode_word(5, OP_IMAGE_SAMPLE_IMPLICIT_LOD), 14, 28, 27, 17]);
    m.extend_from_slice(&[encode_word(1, OP_RETURN)]);
    m.extend_from_slice(&[encode_word(1, SPV_INSTRUCTION_OP_FUNCTION_END)]);
    let mut corrections = CorrectionMap::default();
    let out = splitbindingarray(&m, &mut corrections).unwrap();
    let body = &out[5..];

    assert!(find(body, SPV_INSTRUCTION_OP_ACCESS_CHAIN).is_empty());
    // One switch over the images, and in each of its four blocks one over the samplers.
    let switches = find(body, SPV_INSTRUCTION_OP_SWITCH);
    assert_eq!(switches.len(), 5);
    assert_eq!(body[switches[0] + 1], 17);
    for &sw in &switches[1..] {
        assert_eq!(body[sw + 1], 18);
    }
    // Each image block loads its image once; each sampler block loads its sampler.
    assert_eq!(find(body, SPV_INSTRUCTION_OP_LOAD).len(), 4 + 4 * 3);
    assert_eq!(find(body, OP_SAMPLED_IMAGE).len(), 4 * 3);
    assert_eq!(find(body, OP_IMAGE_SAMPLE_IMPLICIT_LOD).len(), 4 * 3);
    // The outer phi takes the old result, and its values come from the inner merge blocks.
    let phis = find(body, SPV_INSTRUCTION_OP_PHI);
    assert_eq!(phis.len(), 5);
    let outer = *phis.last().unwrap();
    assert_eq!(body[outer + 2], 28);
    let merges: Vec<u32> = find(body, OP_SELECTION_MERGE).iter().map(|&i| body[i + 1]).collect();
    let preds: Vec<u32> = (0..4).map(|i| body[outer + 4 + 2 * i]).collect();
    assert_eq!(preds, merges[1..].to_vec());
    let inner_results: Vec<u32> = phis[..4].iter().map(|&p| body[p + 2]).collect();
    let values: Vec<u32> = (0..4).map(|i| body[outer + 3 + 2 * i]).collect();
    assert_eq!(values, inner_results);

    let sets = corrections.sets.unwrap();
    assert_eq!(sets[&0].bindings[&0].corrections.len(), 2);
    assert_eq!(sets[&0].bindings[&1].corrections.len(), 1);
}

#[test]
fn uniform_buffer_array_load_becomes_switch() {
    const OP_TYPE_STRUCT: u16 = 30;
    const UNIFORM: u32 = 2;
    let mut m = header(30);
    m.extend_from_slice(&[encode_word(4, SPV_INSTRUCTION_OP_DECORATE), 7, SPV_DECORATION_DESCRIPTOR_SET, 0]);
    m.extend_from_slice(&[encode_word(4, SPV_INSTRUCTION_OP_DECORATE), 7, SPV_DECORATION_BINDING, 0]);
    m.extend_from_slice(&[encode_word(4, SPV_INSTRUCTION_OP_TYPE_INT), 1, 32, 0]);
    m.extend_from_slice(&[encode_word(4, SPV_INSTRUCTION_OP_CONSTANT), 1, 2, 2]);
    m.extend_from_slice(&[encode_word(3, SPV_INSTRUCTION_OP_TYPE_FLOAT), 3, 32]);
    m.extend_from_slice(&[encode_word(3, OP_TYPE_STRUCT), 4, 3]);
    m.extend_from_slice(&[encode_word(4, SPV_INSTRUCTION_OP_TYPE_ARRAY), 5, 4, 2]);
    m.extend_from_slice(&[encode_word(4, SPV_INSTRUCTION_OP_TYPE_POINTER), 6, UNIFORM, 5]);
    m.extend_from_slice(&[encode_word(4, SPV_INSTRUCTION_OP_VARIABLE), 6, 7, UNIFORM]);
    m.extend_from_slice(&[encode_word(4, SPV_INSTRUCTION_OP_TYPE_POINTER), 8, UNIFORM, 3]);
    m.extend_from_slice(&[encode_word(4, SPV_INSTRUCTION_OP_CONSTANT), 1, 9, 0]);
    m.extend_from_slice(&[encode_word(4, SPV_INSTRUCTION_OP_CONSTANT), 1, 10, 1]);
    m.extend_from_slice(&[encode_word(2, OP_TYPE_VOID), 11]);
    m.extend_from_slice(&[encode_word(3, OP_TYPE_FUNCTION), 12, 11]);
    m.extend_from_slice(&[encode_word(5, SPV_INSTRUCTION_OP_FUNCTION), 11, 13, 0, 12]);
    m.extend_from_slice(&[encode_word(2, SPV_INSTRUCTION_OP_LABEL), 14]);
    m.extend_from_slice(&[encode_word(6, SPV_INSTRUCTION_OP_ACCESS_CHAIN), 8, 15, 7, 10, 9]);
    m.extend_from_slice(&[encode_word(4, SPV_INSTRUCTION_OP_LOAD), 3, 16, 15]);
    m.extend_from_slice(&[encode_word(1, OP_RETURN)]);
    m.extend_from_slice(&[encode_word(1, SPV_INSTRUCTION_OP_FUNCTION_END)]);
    let mut corrections = CorrectionMap::default();
    let out = splitbindingarray(&m, &mut corrections).unwrap();
    let body = &out[5..];

    let switches = find(body, SPV_INSTRUCTION_OP_SWITCH);
    assert_eq!(switches.len(), 1);
    assert_eq!(body[switches[0] + 1], 10);
    // Each case takes the member of its own element: the array index is dropped.
    let variables = find(body, SPV_INSTRUCTION_OP_VARIABLE);
    let element_ids: Vec<u32> = variables.iter().map(|&v| body[v + 2]).collect();
    assert_eq!(element_ids.len(), 2);
    let chains = find(body, SPV_INSTRUCTION_OP_ACCESS_CHAIN);
    assert_eq!(chains.len(), 3);
    for (&c, &e) in chains.iter().zip([element_ids[0], element_ids[1], element_ids[0]].iter()) {
        assert_eq!(hiword(body[c]), 5);
        assert_eq!(body[c + 1], 8);
        assert_eq!(body[c + 3], e);
        assert_eq!(body[c + 4], 9);
    }
    let loads = find(body, SPV_INSTRUCTION_OP_LOAD);
    assert_eq!(loads.len(), 3);
    for (&l, &c) in loads.iter().zip(chains.iter()) {
        assert_eq!(body[l + 3], body[c + 2]);
    }
    let phis = find(body, SPV_INSTRUCTION_OP_PHI);
    assert_eq!(phis.len(), 1);
    assert_eq!(body[phis[0] + 1], 3);
    assert_eq!(body[phis[0] + 2], 16);
    let sets = corrections.sets.unwrap();
    assert_eq!(sets[&0].bindings[&0].corrections, vec![CorrectionType::SplitBindingArray]);
}

#[test]
fn access_chain_into_accessed_binding_array_element_is_refused() {
    const OP_TYPE_STRUCT: u16 = 30;
    const UNIFORM: u32 = 2;
    let mut m = header(30);
    m.extend_from_slice(&[encode_word(4, SPV_INSTRUCTION_OP_DECORATE), 7, SPV_DECORATION_DESCRIPTOR_SET, 0]);
    m.extend_from_slice(&[encode_word(4, SPV_INSTRUCTION_OP_DECORATE), 7, SPV_DECORATION_BINDING, 0]);
    m.extend_from_slice(&[encode_word(4, SPV_INSTRUCTION_OP_TYPE_INT), 1, 32, 0]);
    m.extend_from_slice(&[encode_word(4, SPV_INSTRUCTION_OP_CONSTANT), 1, 2, 2]);
    m.extend_from_slice(&[encode_word(3, SPV_INSTRUCTION_OP_TYPE_FLOAT), 3, 32]);
    m.extend_from_slice(&[encode_word(3, OP_TYPE_STRUCT), 4, 3]);
    m.extend_from_slice(&[encode_word(4, SPV_INSTRUCTION_OP_TYPE_ARRAY), 5, 4, 2]);
    m.extend_from_slice(&[encode_word(4, SPV_INSTRUCTION_OP_TYPE_POINTER), 6, UNIFORM, 5]);
    m.extend_from_slice(&[encode_word(4, SPV_INSTRUCTION_OP_VARIABLE), 6, 7, UNIFORM]);
    m.extend_from_slice(&[encode_word(4, SPV_INSTRUCTION_OP_TYPE_POINTER), 8, UNIFORM, 3]);
    m.extend_from_slice(&[encode_word(4, SPV_INSTRUCTION_OP_TYPE_POINTER), 17, UNIFORM, 4]);
    m.extend_from_slice(&[encode_word(4, SPV_INSTRUCTION_OP_CONSTANT), 1, 9, 0]);
    m.extend_from_slice(&[encode_word(2, OP_TYPE_VOID), 11]);
    m.extend_from_slice(&[encode_word(3, OP_TYPE_FUNCTION), 12, 11]);
    m.extend_from_slice(&[encode_word(5, SPV_INSTRUCTION_OP_FUNCTION), 11, 13, 0, 12]);
    m.extend_from_slice(&[encode_word(2, SPV_INSTRUCTION_OP_LABEL), 14]);
    // An element of the array, then a member of that element through a second access chain.
    m.extend_from_slice(&[encode_word(5, SPV_INSTRUCTION_OP_ACCESS_CHAIN), 17, 15, 7, 9]);
    m.extend_from_slice(&[encode_word(5, SPV_INSTRUCTION_OP_ACCESS_CHAIN), 8, 16, 15, 9]);
    m.extend_from_slice(&[encode_word(4, SPV_INSTRUCTION_OP_LOAD), 3, 18, 16]);
    m.extend_from_slice(&[encode_word(1, OP_RETURN)]);
    m.extend_from_slice(&[encode_word(1, SPV_INSTRUCTION_OP_FUNCTION_END)]);
    let mut corrections = CorrectionMap::default();
    assert_eq!(splitbindingarray(&m, &mut corrections), Err(()));
}

#[test]
fn readiness_of_bodies_for_splitting() {
    let mut m = header(8);
    image_array_declarations(&mut m);
    let body = &m[5..];
    assert!(is_wf_stream(body));
    assert!(is_split_ready(body));
    // A truncated last instruction makes the stream malformed.
    assert!(!is_wf_stream(&body[..body.len() - 1]));
    // Without the constant that gives its length, the array cannot be split.
    let mut no_length = header(8);
    image_array_declarations(&mut no_length);
    let constant = 5 + 8 + 4;
    assert_eq!(loword(no_length[constant]), SPV_INSTRUCTION_OP_CONSTANT);
    no_length[constant + 2] = 99;
    assert!(is_wf_stream(&no_length[5..]));
    assert!(!is_split_ready(&no_length[5..]));
}
