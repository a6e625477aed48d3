use spirv_webgpu_transform::isnanisinfpatch::{is_nan_inf_ready, isnanisinfpatch};
use spirv_webgpu_transform::spv::{
    SPV_HEADER_MAGIC, SPV_INSTRUCTION_OP_FUNCTION, SPV_INSTRUCTION_OP_FUNCTION_CALL, SPV_INSTRUCTION_OP_FUNCTION_END,
    SPV_INSTRUCTION_OP_IS_INF, SPV_INSTRUCTION_OP_IS_NAN, SPV_INSTRUCTION_OP_LABEL, SPV_INSTRUCTION_OP_LOAD,
    SPV_INSTRUCTION_OP_STORE, SPV_INSTRUCTION_OP_TYPE_BOOL, SPV_INSTRUCTION_OP_TYPE_FLOAT,
    SPV_INSTRUCTION_OP_TYPE_POINTER, SPV_INSTRUCTION_OP_VARIABLE, SPV_STORAGE_CLASS_FUNCTION,
    SPV_INSTRUCTION_OP_FUNCTION_PARAMETER, SPV_INSTRUCTION_OP_TYPE_INT,
};
use spirv_webgpu_transform::util::{encode_word, hiword, loword};

const OP_TYPE_VOID: u16 = 19;
const OP_TYPE_FUNCTION: u16 = 33;
const OP_RETURN: u16 = 253;

fn module(tests: &[(u16, u32)]) -> Vec<u32> {
    let mut m = vec![SPV_HEADER_MAGIC, 0x0001_0000, 0, 50, 0];
    m.extend_from_slice(&[encode_word(2, SPV_INSTRUCTION_OP_TYPE_BOOL), 1]);
    m.extend_from_slice(&[encode_word(3, SPV_INSTRUCTION_OP_TYPE_FLOAT), 2, 32]);
    m.extend_from_slice(&[encode_word(4, SPV_INSTRUCTION_OP_TYPE_POINTER), 3, SPV_STORAGE_CLASS_FUNCTION, 2]);
    m.extend_from_slice(&[encode_word(2, OP_TYPE_VOID), 4]);
    m.extend_from_slice(&[encode_word(3, OP_TYPE_FUNCTION), 5, 4]);
    m.extend_from_slice(&[encode_word(5, SPV_INSTRUCTION_OP_FUNCTION), 4, 6, 0, 5]);
    m.extend_from_slice(&[encode_word(2, SPV_INSTRUCTION_OP_LABEL), 7]);
    m.extend_from_slice(&[encode_word(4, SPV_INSTRUCTION_OP_VARIABLE), 3, 8, SPV_STORAGE_CLASS_FUNCTION]);
    m.extend_from_slice(&[encode_word(4, SPV_INSTRUCTION_OP_LOAD), 2, 9, 8]);
    for &(op, result) in tests {
        m.extend_from_slice(&[encode_word(4, op), 1, result, 9]);
    }
    m.extend_from_slice(&[encode_word(1, OP_RETURN)]);
    m.extend_from_slice(&[encode_word(1, SPV_INSTRUCTION_OP_FUNCTION_END)]);
    m
}

fn find(body: &[u32], opcode: u16) -> Vec<usize> {
    let mut out = vec![];
    let mut i = 0;
    while i < body.len() {
        if loword(body[i]) == opcode {
            out.push(i);
        }
        i += hiword(body[i]) as usize;
    }
    out
}

#[test]
fn module_without_float_tests_is_unchanged() {
    let input = module(&[]);
    assert_eq!(isnanisinfpatch(&input), Ok(input.clone()));
}

#[test]
fn is_nan_becomes_a_call() {
    let input = module(&[(SPV_INSTRUCTION_OP_IS_NAN, 10)]);
    let out = isnanisinfpatch(&input).unwrap();
    // The unsigned type and its pointer, four constants, the function type and the 18 ids
    // of the function, and the float variable of the call.
    assert_eq!(out[3], 50 + 2 + 4 + 19 + 1);
    let body = &out[5..];
    assert!(find(body, SPV_INSTRUCTION_OP_IS_NAN).is_empty());
    let function_id = 57;
    let param = 75;
    let calls = find(body, SPV_INSTRUCTION_OP_FUNCTION_CALL);
    assert_eq!(calls.len(), 1);
    assert_eq!(&body[calls[0]..calls[0] + 5], &[encode_word(5, SPV_INSTRUCTION_OP_FUNCTION_CALL), 1, 10, function_id, param]);
    let stores = find(body, SPV_INSTRUCTION_OP_STORE);
    assert!(stores.iter().any(|&s| body[s + 1] == param && body[s + 2] == 9));
    let variables = find(body, SPV_INSTRUCTION_OP_VARIABLE);
    assert!(variables.iter().any(|&v| body[v + 1] == 3 && body[v + 2] == param));
    let functions = find(body, SPV_INSTRUCTION_OP_FUNCTION);
    assert_eq!(functions.len(), 2);
    assert_eq!(body[functions[1] + 2], function_id);
}

#[test]
fn is_nan_and_is_inf_share_the_function_type() {
    let input = module(&[(SPV_INSTRUCTION_OP_IS_NAN, 10), (SPV_INSTRUCTION_OP_IS_INF, 11), (SPV_INSTRUCTION_OP_IS_NAN, 12)]);
    let out = isnanisinfpatch(&input).unwrap();
    // Two distinct tests take 19 ids each; each of the three calls takes one.
    assert_eq!(out[3], 50 + 2 + 4 + 2 * 19 + 3);
    let body = &out[5..];
    assert!(find(body, SPV_INSTRUCTION_OP_IS_NAN).is_empty());
    assert!(find(body, SPV_INSTRUCTION_OP_IS_INF).is_empty());
    assert_eq!(find(body, OP_TYPE_FUNCTION).len(), 2);
    let functions = find(body, SPV_INSTRUCTION_OP_FUNCTION);
    assert_eq!(functions.len(), 3);
    let calls = find(body, SPV_INSTRUCTION_OP_FUNCTION_CALL);
    assert_eq!(calls.len(), 3);
    assert_eq!(body[calls[0] + 3], 57);
    assert_eq!(body[calls[1] + 3], 76);
    assert_eq!(body[calls[2] + 3], 57);
}

#[test]
fn existing_unsigned_type_and_pointer_are_reused() {
    let mut input = module(&[(SPV_INSTRUCTION_OP_IS_NAN, 10)]);
    // An unsigned 32-bit integer type and a function pointer to it, after the float pointer.
    let at = 5 + 2 + 3 + 4;
    input.splice(at..at, [
        encode_word(4, SPV_INSTRUCTION_OP_TYPE_INT), 20, 32, 0,
        encode_word(4, SPV_INSTRUCTION_OP_TYPE_POINTER), 21, SPV_STORAGE_CLASS_FUNCTION, 20,
    ]);
    let out = isnanisinfpatch(&input).unwrap();
    // Only the four constants, the function type, the 18 ids of the function and the float
    // variable of the call are new.
    assert_eq!(out[3], 50 + 4 + 19 + 1);
    let body = &out[5..];
    assert_eq!(find(body, SPV_INSTRUCTION_OP_TYPE_INT).len(), 1);
    let functions = find(body, SPV_INSTRUCTION_OP_FUNCTION);
    assert_eq!(functions.len(), 2);
    let f = functions[1];
    // The parameter, then the three variables on the existing pointer type.
    assert_eq!(&body[f + 5..f + 8], &[encode_word(3, SPV_INSTRUCTION_OP_FUNCTION_PARAMETER), 3, body[f + 2] + 1]);
    assert_eq!(&body[f + 10..f + 14], &[encode_word(4, SPV_INSTRUCTION_OP_VARIABLE), 21, body[f + 2] + 3, SPV_STORAGE_CLASS_FUNCTION]);
}

#[test]
fn readiness_of_float_tests() {
    let ready = module(&[(SPV_INSTRUCTION_OP_IS_NAN, 10), (SPV_INSTRUCTION_OP_IS_INF, 11)]);
    assert!(is_nan_inf_ready(&ready[5..], ready[3]));
    // Nothing to replace.
    let none = module(&[]);
    assert!(is_nan_inf_ready(&none[5..], none[3]));
    // A 64-bit float cannot be tested.
    let mut wide = ready.clone();
    wide[5 + 2 + 2] = 64;
    assert!(!is_nan_inf_ready(&wide[5..], wide[3]));
    // The ids would run out.
    let mut full = ready.clone();
    full[3] = u32::MAX - 10;
    assert!(!is_nan_inf_ready(&full[5..], full[3]));
}
