use spirv_webgpu_transform::correction::{CorrectionMap, CorrectionType};
use spirv_webgpu_transform::spv::{
    SPV_DECORATION_BINDING, SPV_DECORATION_DESCRIPTOR_SET, SPV_DIMENSION_2D, SPV_DIMENSION_CUBE, SPV_HEADER_MAGIC,
    SPV_INSTRUCTION_OP_DECORATE, SPV_INSTRUCTION_OP_FUNCTION, SPV_INSTRUCTION_OP_FUNCTION_CALL,
    SPV_INSTRUCTION_OP_FUNCTION_END, SPV_INSTRUCTION_OP_IMAGE_READ, SPV_INSTRUCTION_OP_LABEL, SPV_INSTRUCTION_OP_LOAD,
    SPV_INSTRUCTION_OP_STORE, SPV_INSTRUCTION_OP_TYPE_FLOAT, SPV_INSTRUCTION_OP_TYPE_IMAGE, SPV_INSTRUCTION_OP_TYPE_INT,
    SPV_INSTRUCTION_OP_TYPE_POINTER, SPV_INSTRUCTION_OP_TYPE_VECTOR, SPV_INSTRUCTION_OP_VARIABLE,
};
use spirv_webgpu_transform::storagecubepatch::{is_cube_ready, storagecubepatch};
use spirv_webgpu_transform::util::{encode_word, hiword, loword};

const OP_TYPE_VOID: u16 = 19;
const OP_TYPE_FUNCTION: u16 = 33;
const OP_RETURN: u16 = 253;
const UNIFORM_CONSTANT: u32 = 0;

fn cube_module(with_read: bool) -> Vec<u32> {
    let mut m = vec![SPV_HEADER_MAGIC, 0x0001_0000, 0, 100, 0];
    m.extend_from_slice(&[encode_word(4, SPV_INSTRUCTION_OP_DECORATE), 8, SPV_DECORATION_DESCRIPTOR_SET, 0]);
    m.extend_from_slice(&[encode_word(4, SPV_INSTRUCTION_OP_DECORATE), 8, SPV_DECORATION_BINDING, 1]);
    m.extend_from_slice(&[encode_word(4, SPV_INSTRUCTION_OP_TYPE_INT), 2, 32, 1]);
    m.extend_from_slice(&[encode_word(4, SPV_INSTRUCTION_OP_TYPE_VECTOR), 3, 2, 3]);
    m.extend_from_slice(&[encode_word(3, SPV_INSTRUCTION_OP_TYPE_FLOAT), 4, 32]);
    m.extend_from_slice(&[encode_word(4, SPV_INSTRUCTION_OP_TYPE_VECTOR), 5, 4, 4]);
    m.extend_from_slice(&[encode_word(9, SPV_INSTRUCTION_OP_TYPE_IMAGE), 6, 4, SPV_DIMENSION_CUBE, 0, 0, 0, 2, 4]);
    m.extend_from_slice(&[encode_word(4, SPV_INSTRUCTION_OP_TYPE_POINTER), 7, UNIFORM_CONSTANT, 6]);
    m.extend_from_slice(&[encode_word(4, SPV_INSTRUCTION_OP_VARIABLE), 7, 8, UNIFORM_CONSTANT]);
    m.extend_from_slice(&[encode_word(2, OP_TYPE_VOID), 9]);
    m.extend_from_slice(&[encode_word(3, OP_TYPE_FUNCTION), 10, 9]);
    m.extend_from_slice(&[encode_word(5, SPV_INSTRUCTION_OP_FUNCTION), 9, 11, 0, 10]);
    m.extend_from_slice(&[encode_word(2, SPV_INSTRUCTION_OP_LABEL), 12]);
    m.extend_from_slice(&[encode_word(4, SPV_INSTRUCTION_OP_LOAD), 6, 13, 8]);
    if with_read {
        m.extend_from_slice(&[encode_word(5, SPV_INSTRUCTION_OP_IMAGE_READ), 5, 14, 13, 16]);
    }
    m.extend_from_slice(&[encode_word(1, OP_RETURN)]);
    m.extend_from_slice(&[encode_word(1, SPV_INSTRUCTION_OP_FUNCTION_END)]);
    m
}

/// The offsets of the instructions of a module body with the given opcode.
fn find(body: &[u32], opcode: u16) -> Vec<usize> {
    let mut out = vec![];
    let mut i = 0;
    while i < body.len() {
        if loword(body[i]) == opcode {
            out.push(i);
        }
        i += hiword(body[i]) as usize;
    }
    out
}

#[test]
fn module_without_image_access_is_unchanged() {
    let input = cube_module(false);
    let mut corrections = Some(CorrectionMap::default());
    let out = storagecubepatch(&input, &mut corrections).unwrap();
    assert_eq!(out, input);
    assert!(corrections.unwrap().sets.is_none());
}

#[test]
fn cube_image_read_goes_through_the_direction_function() {
    let input = cube_module(true);
    let mut corrections = Some(CorrectionMap::default());
    let out = storagecubepatch(&input, &mut corrections).unwrap();

    // 6 new types, the instruction set import, the function type, 6 constants, the 137 ids of
    // the function and 2 ids for the read.
    assert_eq!(out[3], 100 + 6 + 1 + 1 + 6 + 137 + 2);
    let body = &out[5..];

    // The cube image is now a two-dimensional arrayed image.
    let images = find(body, SPV_INSTRUCTION_OP_TYPE_IMAGE);
    assert_eq!(images.len(), 1);
    assert_eq!(body[images[0] + 3], SPV_DIMENSION_2D);
    assert_eq!(body[images[0] + 5], 1);

    // The read takes its coordinate from the direction function.
    let function_id = 100 + 6 + 1 + 1 + 6;
    let calls = find(body, SPV_INSTRUCTION_OP_FUNCTION_CALL);
    assert_eq!(calls.len(), 1);
    let call = calls[0];
    assert_eq!(body[call + 3], function_id);
    let temp = body[call + 4];
    let output = body[call + 2];
    let stores = find(body, SPV_INSTRUCTION_OP_STORE);
    assert!(stores.iter().any(|&s| body[s + 1] == temp && body[s + 2] == 16));
    let reads = find(body, SPV_INSTRUCTION_OP_IMAGE_READ);
    assert_eq!(reads.len(), 1);
    assert_eq!(&body[reads[0]..reads[0] + 5], &[encode_word(5, SPV_INSTRUCTION_OP_IMAGE_READ), 5, 14, 13, output]);

    // The temporary variable is declared in the calling function.
    let variables = find(body, SPV_INSTRUCTION_OP_VARIABLE);
    assert!(variables.iter().any(|&v| body[v + 2] == temp));

    // The function is defined at the end of the module.
    let functions = find(body, SPV_INSTRUCTION_OP_FUNCTION);
    assert_eq!(functions.len(), 2);
    assert_eq!(body[functions[1] + 2], function_id);

    // The binding of the cube image is recorded.
    let sets = corrections.unwrap().sets.unwrap();
    assert_eq!(sets[&0].bindings[&1].corrections, vec![CorrectionType::ConvertStorageCube]);
}

#[test]
fn cube_image_without_corrections_map() {
    let input = cube_module(true);
    let mut corrections = None;
    assert!(storagecubepatch(&input, &mut corrections).is_ok());
    assert!(corrections.is_none());
}

#[test]
fn readiness_of_cube_modules() {
    let read = cube_module(true);
    assert!(is_cube_ready(&read[5..], read[3]));
    let untouched = cube_module(false);
    assert!(is_cube_ready(&untouched[5..], untouched[3]));
    // A cube image that is already arrayed cannot be patched.
    let mut arrayed = cube_module(true);
    let image = find(&arrayed[5..], SPV_INSTRUCTION_OP_TYPE_IMAGE)[0] + 5;
    arrayed[image + 5] = 1;
    assert!(!is_cube_ready(&arrayed[5..], arrayed[3]));
    // Without room for the new ids it cannot be patched either.
    assert!(!is_cube_ready(&read[5..], u32::MAX - 100));
}

#[test]
fn images_that_are_not_cubes_keep_their_dimension() {
    let mut input = cube_module(true);
    // A two-dimensional, non-arrayed image type after the cube image type.
    let at = 5 + 8 + 4 + 4 + 3 + 4 + 9;
    input.splice(at..at, [encode_word(9, SPV_INSTRUCTION_OP_TYPE_IMAGE), 20, 4, SPV_DIMENSION_2D, 0, 0, 0, 2, 4]);
    let mut corrections = Some(CorrectionMap::default());
    let out = storagecubepatch(&input, &mut corrections).unwrap();
    let body = &out[5..];
    let images = find(body, SPV_INSTRUCTION_OP_TYPE_IMAGE);
    assert_eq!(images.len(), 2);
    let cube = *images.iter().find(|&&i| body[i + 1] == 6).unwrap();
    assert_eq!((body[cube + 3], body[cube + 5]), (SPV_DIMENSION_2D, 1));
    let other = *images.iter().find(|&&i| body[i + 1] == 20).unwrap();
    assert_eq!(&body[other..other + 9], &[encode_word(9, SPV_INSTRUCTION_OP_TYPE_IMAGE), 20, 4, SPV_DIMENSION_2D, 0, 0, 0, 2, 4]);
}
