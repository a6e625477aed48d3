use spirv_webgpu_transform::isnanisinfpatch::isnan_isinf::is_nan_is_inf_spv;
use spirv_webgpu_transform::isnanisinfpatch::shared::{
    nan_inf_fn_type_spv, nan_inf_shared, nan_inf_shared_constants_spv, NanInfSharedInputs,
};
use spirv_webgpu_transform::isnanisinfpatch::{
    IsNanOrIsInf, NanInfFunctionType, NanInfSharedConstants, NanInfSharedFunctionInputs, NanInfSharedTypeInputs,
};
use spirv_webgpu_transform::spv::{
    SPV_INSTRUCTION_OP_CONSTANT, SPV_INSTRUCTION_OP_FUNCTION, SPV_INSTRUCTION_OP_FUNCTION_END,
    SPV_INSTRUCTION_OP_FUNCTION_PARAMETER, SPV_INSTRUCTION_OP_I_EQUAL, SPV_INSTRUCTION_OP_I_NOT_EQUAL,
    SPV_INSTRUCTION_OP_LABEL, SPV_INSTRUCTION_OP_TYPE_FUNCTION, SPV_INSTRUCTION_OP_VARIABLE,
    SPV_STORAGE_CLASS_FUNCTION,
};
use spirv_webgpu_transform::storagecubepatch::cube_direction_to_axis::{
    image_cube_direction_to_arrayed_constants_spv, image_cube_direction_to_arrayed_fn_type,
    image_cube_direction_to_arrayed_spv, CubeDirectionTypeInputs,
};
use spirv_webgpu_transform::util::encode_word;

fn function_inputs() -> (NanInfSharedTypeInputs, NanInfSharedFunctionInputs, NanInfSharedConstants) {
    (
        NanInfSharedTypeInputs { uint_id: 1, ptr_uint_id: 2 },
        NanInfSharedFunctionInputs { bool_id: 3, float_id: 4, ptr_float_id: 5 },
        NanInfSharedConstants { uint_23: 6, uint_255: 7, uint_8388607: 8, uint_0: 9 },
    )
}

#[test]
fn float_tests_take_eighteen_ids_and_differ_in_one_comparison() {
    let (ty_inputs, inputs, constants) = function_inputs();
    let mut ib = 100;
    let (nan_id, nan) = is_nan_is_inf_spv(&mut ib, IsNanOrIsInf::IsNan, ty_inputs, inputs, NanInfFunctionType(10), constants);
    assert_eq!(nan_id, 100);
    assert_eq!(ib, 118);
    assert_eq!(nan.len(), 88);
    assert_eq!(&nan[0..14], &[
        encode_word(5, SPV_INSTRUCTION_OP_FUNCTION), 3, 100, 1, 10,
        encode_word(3, SPV_INSTRUCTION_OP_FUNCTION_PARAMETER), 5, 101,
        encode_word(2, SPV_INSTRUCTION_OP_LABEL), 102,
        encode_word(4, SPV_INSTRUCTION_OP_VARIABLE), 2, 103, SPV_STORAGE_CLASS_FUNCTION,
    ]);
    assert_eq!(nan[87], encode_word(1, SPV_INSTRUCTION_OP_FUNCTION_END));

    let mut ib = 100;
    let (_, inf) = is_nan_is_inf_spv(&mut ib, IsNanOrIsInf::IsInf, ty_inputs, inputs, NanInfFunctionType(10), constants);
    let differing: Vec<usize> = (0..nan.len()).filter(|&i| nan[i] != inf[i]).collect();
    assert_eq!(differing.len(), 1);
    // A NaN has a nonzero mantissa, an infinity a zero one.
    assert_eq!(nan[differing[0]], encode_word(5, SPV_INSTRUCTION_OP_I_NOT_EQUAL));
    assert_eq!(inf[differing[0]], encode_word(5, SPV_INSTRUCTION_OP_I_EQUAL));
    assert_eq!(&nan[differing[0] + 1..differing[0] + 5], &[3, 116, 115, 9]);

    // Every instruction's word count leads to the next one and the last ends the list.
    let mut idx = 0;
    while idx < nan.len() {
        idx += (nan[idx] >> 16) as usize;
    }
    assert_eq!(idx, nan.len());
}

#[test]
fn shared_constants_and_function_types() {
    let (ty_inputs, inputs, _) = function_inputs();
    let mut ib = 50;
    let (constants, words) = nan_inf_shared_constants_spv(&mut ib, ty_inputs);
    assert_eq!(ib, 54);
    assert_eq!(constants, NanInfSharedConstants { uint_23: 50, uint_255: 51, uint_8388607: 52, uint_0: 53 });
    assert_eq!(words, vec![
        encode_word(4, SPV_INSTRUCTION_OP_CONSTANT), 1, 50, 23,
        encode_word(4, SPV_INSTRUCTION_OP_CONSTANT), 1, 51, 255,
        encode_word(4, SPV_INSTRUCTION_OP_CONSTANT), 1, 52, 8388607,
        encode_word(4, SPV_INSTRUCTION_OP_CONSTANT), 1, 53, 0,
    ]);

    let (fn_type, words) = nan_inf_fn_type_spv(&mut ib, inputs);
    assert_eq!(fn_type, NanInfFunctionType(54));
    assert_eq!(ib, 55);
    assert_eq!(words, vec![encode_word(4, SPV_INSTRUCTION_OP_TYPE_FUNCTION), 54, 3, 5]);

    let mut ib = 7;
    let (outs, words) = nan_inf_shared(&mut ib, NanInfSharedInputs {
        bool_id: 1, uint_id: 2, double_id: 3, ptr_function_float_id: 4, ptr_function_uint_id: 5,
    });
    assert_eq!(ib, 12);
    assert_eq!((outs.function_type, outs.uint_23, outs.uint_0), (7, 8, 11));
    assert_eq!(words.len(), 20);
    assert_eq!(&words[0..4], &[encode_word(4, SPV_INSTRUCTION_OP_TYPE_FUNCTION), 7, 1, 4]);
    assert_eq!(&words[16..20], &[encode_word(4, SPV_INSTRUCTION_OP_CONSTANT), 2, 11, 0]);
}

#[test]
fn cube_direction_function_is_one_whole_function() {
    let ty_inputs = CubeDirectionTypeInputs {
        int_id: 1, v3int_id: 2, v2int_id: 3, bool_id: 4, ptr_v3int_id: 5, ptr_int_id: 6, ptr_bool_id: 7, ptr_v2int_id: 8,
    };
    let mut ib = 1000;
    let (fn_type, words) = image_cube_direction_to_arrayed_fn_type(&mut ib, ty_inputs);
    assert_eq!(words, vec![encode_word(4, SPV_INSTRUCTION_OP_TYPE_FUNCTION), 1000, 2, 5]);
    let (constants, words) = image_cube_direction_to_arrayed_constants_spv(&mut ib, 1);
    assert_eq!(ib, 1007);
    assert_eq!(constants.int_5, 1006);
    assert_eq!(&words[20..24], &[encode_word(4, SPV_INSTRUCTION_OP_CONSTANT), 1, 1006, 5]);

    let (func_id, words) = image_cube_direction_to_arrayed_spv(&mut ib, ty_inputs, fn_type, constants, 42);
    assert_eq!(func_id, 1007);
    assert_eq!(ib, 1007 + 137);
    assert_eq!(words.len(), 710);
    assert_eq!(&words[0..5], &[encode_word(5, SPV_INSTRUCTION_OP_FUNCTION), 2, 1007, 1, 1000]);
    assert_eq!(words[709], encode_word(1, SPV_INSTRUCTION_OP_FUNCTION_END));
    // Every instruction's word count leads to the next one and the last ends the list.
    let mut idx = 0;
    while idx < words.len() {
        let count = (words[idx] >> 16) as usize;
        assert!(count >= 1);
        idx += count;
    }
    assert_eq!(idx, words.len());
}
