use vstd::prelude::*;

use crate::isnanisinfpatch::{NanInfFunctionType, NanInfSharedConstants, NanInfSharedFunctionInputs, NanInfSharedTypeInputs};
use crate::spv;
use crate::splitbindingarray::inc;
use crate::util::{encode_word, spec_encode_word};

verus! {

/// The ids the older combined declaration emitter needs.
#[derive(Debug, Clone, Copy)]
pub struct NanInfSharedInputs {
    pub bool_id: u32,
    pub uint_id: u32,
    pub double_id: u32,
    pub ptr_function_float_id: u32,
    pub ptr_function_uint_id: u32,
}

/// The ids the older combined declaration emitter hands out.
pub struct NanInfSharedOuputs {
    pub function_type: u32,
    pub uint_23: u32,
    pub uint_255: u32,
    pub uint_8388607: u32,
    pub uint_0: u32,
}

/// The four constants, with ids `ib` to `ib + 3`, after one `OpTypeFunction`-free prefix.
pub open spec fn nan_inf_constant_words(ib: int, uint_id: u32) -> Seq<u32> {
    seq![
        spec_encode_word(4, spv::SPV_INSTRUCTION_OP_CONSTANT), uint_id, ib as u32, 23,
        spec_encode_word(4, spv::SPV_INSTRUCTION_OP_CONSTANT), uint_id, (ib + 1) as u32, 255,
        spec_encode_word(4, spv::SPV_INSTRUCTION_OP_CONSTANT), uint_id, (ib + 2) as u32, 8388607,
        spec_encode_word(4, spv::SPV_INSTRUCTION_OP_CONSTANT), uint_id, (ib + 3) as u32, 0,
    ]
}

/// The function type of a float test, with id `id`: from a pointer to the float to a boolean.
pub open spec fn nan_inf_fn_type_words(id: u32, bool_id: u32, ptr_float_id: u32) -> Seq<u32> {
    seq![spec_encode_word(4, spv::SPV_INSTRUCTION_OP_TYPE_FUNCTION), id, bool_id, ptr_float_id]
}

/// Declares the function type of a float test and the constants it uses, with the next
/// five ids from `ib`.
pub fn nan_inf_shared(ib: &mut u32, inputs: NanInfSharedInputs) -> (r: (NanInfSharedOuputs, Vec<u32>))
    requires
        *old(ib) + 5 <= u32::MAX,
    ensures
        *final(ib) == *old(ib) + 5,
        r.0.function_type == *old(ib),
        r.0.uint_23 == *old(ib) + 1,
        r.0.uint_255 == *old(ib) + 2,
        r.0.uint_8388607 == *old(ib) + 3,
        r.0.uint_0 == *old(ib) + 4,
        r.1@ == nan_inf_fn_type_words(*old(ib), inputs.bool_id, inputs.ptr_function_float_id)
            + nan_inf_constant_words(*old(ib) + 1, inputs.uint_id),
{
    //
    //    %_function_type = OpTypeFunction %bool %_ptr_Function_float
    //           %uint_23 = OpConstant %uint 23
    //          %uint_255 = OpConstant %uint 255
    //      %uint_8388607 = OpConstant %uint 8388607
    //            %uint_0 = OpConstant %uint 0

    let function_type = inc(ib);
    let uint_23 = inc(ib);
    let uint_255 = inc(ib);
    let uint_8388607 = inc(ib);
    let uint_0 = inc(ib);

    let spv = vec![
        encode_word(4, spv::SPV_INSTRUCTION_OP_TYPE_FUNCTION),
            function_type, inputs.bool_id, inputs.ptr_function_float_id,
        encode_word(4, spv::SPV_INSTRUCTION_OP_CONSTANT),
            inputs.uint_id, uint_23, 23,
        encode_word(4, spv::SPV_INSTRUCTION_OP_CONSTANT),
            inputs.uint_id, uint_255, 255,
        encode_word(4, spv::SPV_INSTRUCTION_OP_CONSTANT),
            inputs.uint_id, uint_8388607, 8388607,
        encode_word(4, spv::SPV_INSTRUCTION_OP_CONSTANT),
            inputs.uint_id, uint_0, 0,
    ];
    assert(spv@ =~= nan_inf_fn_type_words(function_type, inputs.bool_id, inputs.ptr_function_float_id)
        + nan_inf_constant_words(uint_23 as int, inputs.uint_id));

    (NanInfSharedOuputs { function_type, uint_23, uint_255, uint_8388607, uint_0 }, spv)
}

/// Declares the constants the float tests use, with the next four ids from `ib`.
pub fn nan_inf_shared_constants_spv(ib: &mut u32, ty_inputs: NanInfSharedTypeInputs) -> (r: (NanInfSharedConstants, Vec<u32>))
    requires
        *old(ib) + 4 <= u32::MAX,
    ensures
        *final(ib) == *old(ib) + 4,
        r.0 == (NanInfSharedConstants {
            uint_23: *old(ib),
            uint_255: (*old(ib) + 1) as u32,
            uint_8388607: (*old(ib) + 2) as u32,
            uint_0: (*old(ib) + 3) as u32,
        }),
        r.1@ == nan_inf_constant_words(*old(ib) as int, ty_inputs.uint_id),
{
    let uint_23 = inc(ib);
    let uint_255 = inc(ib);
    let uint_8388607 = inc(ib);
    let uint_0 = inc(ib);
    let spv = vec![
        encode_word(4, spv::SPV_INSTRUCTION_OP_CONSTANT),
            ty_inputs.uint_id, uint_23, 23,
        encode_word(4, spv::SPV_INSTRUCTION_OP_CONSTANT),
            ty_inputs.uint_id, uint_255, 255,
        encode_word(4, spv::SPV_INSTRUCTION_OP_CONSTANT),
            ty_inputs.uint_id, uint_8388607, 8388607,
        encode_word(4, spv::SPV_INSTRUCTION_OP_CONSTANT),
            ty_inputs.uint_id, uint_0, 0,
    ];
    assert(spv@ =~= nan_inf_constant_words(uint_23 as int, ty_inputs.uint_id));
    (NanInfSharedConstants { uint_23, uint_255, uint_8388607, uint_0 }, spv)
}

/// Declares the function type of a float test on the given types, with the next id.
pub fn nan_inf_fn_type_spv(ib: &mut u32, inputs: NanInfSharedFunctionInputs) -> (r: (NanInfFunctionType, Vec<u32>))
    requires
        *old(ib) < u32::MAX,
    ensures
        *final(ib) == *old(ib) + 1,
        r.0 == NanInfFunctionType(*old(ib)),
        r.1@ == nan_inf_fn_type_words(*old(ib), inputs.bool_id, inputs.ptr_float_id),
{
    let function_type = inc(ib);
    let spv = vec![encode_word(4, spv::SPV_INSTRUCTION_OP_TYPE_FUNCTION), function_type, inputs.bool_id, inputs.ptr_float_id];
    assert(spv@ =~= nan_inf_fn_type_words(function_type, inputs.bool_id, inputs.ptr_float_id));
    (NanInfFunctionType(function_type), spv)
}

} // verus!
