use vstd::prelude::*;

use crate::isnanisinfpatch::{
    IsNanOrIsInf, NanInfFunctionType, NanInfSharedConstants, NanInfSharedFunctionInputs, NanInfSharedTypeInputs,
};
use crate::spv;
use crate::splitbindingarray::inc;
use crate::util::{encode_word, spec_encode_word};
use crate::util::interp::{exec, lemma_run_step, run, Frame, Outcome};

verus! {

/// The comparison of the mantissa with zero that tells the two tests apart: a NaN has a
/// nonzero mantissa, an infinity a zero one.
pub open spec fn mantissa_test(ty: IsNanOrIsInf) -> u16 {
    match ty {
        IsNanOrIsInf::IsNan => spv::SPV_INSTRUCTION_OP_I_NOT_EQUAL,
        IsNanOrIsInf::IsInf => spv::SPV_INSTRUCTION_OP_I_EQUAL,
    }
}

/// The replacement function for one float test, with ids `ib` (the function) to `ib + 17`:
/// it reinterprets its argument as bits, extracts the exponent and the mantissa, and
/// compares the exponent with 255 and the mantissa with 0.
pub open spec fn is_nan_is_inf_words(
    ib: int,
    ty: IsNanOrIsInf,
    ty_inputs: NanInfSharedTypeInputs,
    inputs: NanInfSharedFunctionInputs,
    function_type: u32,
    c: NanInfSharedConstants,
) -> Seq<u32> {
    let id = |k: int| (ib + k) as u32;
    let var = |k: int| seq![
        spec_encode_word(4, spv::SPV_INSTRUCTION_OP_VARIABLE), ty_inputs.ptr_uint_id, id(k), spv::SPV_STORAGE_CLASS_FUNCTION,
    ];
    seq![
        spec_encode_word(5, spv::SPV_INSTRUCTION_OP_FUNCTION),
            inputs.bool_id, id(0), spv::SPV_FUNCTION_CONTROL_INLINE, function_type,
        spec_encode_word(3, spv::SPV_INSTRUCTION_OP_FUNCTION_PARAMETER), inputs.ptr_float_id, id(1),
        spec_encode_word(2, spv::SPV_INSTRUCTION_OP_LABEL), id(2),
    ] + var(3) + var(4) + var(5) + seq![
        spec_encode_word(4, spv::SPV_INSTRUCTION_OP_LOAD), inputs.float_id, id(6), id(1),
        spec_encode_word(4, spv::SPV_INSTRUCTION_OP_BITCAST), ty_inputs.uint_id, id(7), id(6),
        spec_encode_word(3, spv::SPV_INSTRUCTION_OP_STORE), id(3), id(7),
        spec_encode_word(4, spv::SPV_INSTRUCTION_OP_LOAD), ty_inputs.uint_id, id(8), id(3),
        spec_encode_word(5, spv::SPV_INSTRUCTION_OP_SHIFT_RIGHT_LOGICAL), ty_inputs.uint_id, id(9), id(8), c.uint_23,
        spec_encode_word(5, spv::SPV_INSTRUCTION_OP_BITWISE_AND), ty_inputs.uint_id, id(10), id(9), c.uint_255,
        spec_encode_word(3, spv::SPV_INSTRUCTION_OP_STORE), id(4), id(10),
        spec_encode_word(4, spv::SPV_INSTRUCTION_OP_LOAD), ty_inputs.uint_id, id(11), id(3),
        spec_encode_word(5, spv::SPV_INSTRUCTION_OP_BITWISE_AND), ty_inputs.uint_id, id(12), id(11), c.uint_8388607,
        spec_encode_word(3, spv::SPV_INSTRUCTION_OP_STORE), id(5), id(12),
        spec_encode_word(4, spv::SPV_INSTRUCTION_OP_LOAD), ty_inputs.uint_id, id(13), id(4),
        spec_encode_word(5, spv::SPV_INSTRUCTION_OP_I_EQUAL), inputs.bool_id, id(14), id(13), c.uint_255,
        spec_encode_word(4, spv::SPV_INSTRUCTION_OP_LOAD), ty_inputs.uint_id, id(15), id(5),
        spec_encode_word(5, mantissa_test(ty)), inputs.bool_id, id(16), id(15), c.uint_0,
        spec_encode_word(5, spv::SPV_INSTRUCTION_OP_LOGICAL_AND), inputs.bool_id, id(17), id(14), id(16),
        spec_encode_word(2, spv::SPV_INSTRUCTION_OP_RETURN_VALUE), id(17),
        spec_encode_word(1, spv::SPV_INSTRUCTION_OP_FUNCTION_END),
    ]
}

/// The exponent field of a 32-bit float's bit pattern.
pub open spec fn f32_exponent(x: u32) -> u32 {
    (x >> 23u32) & 0xffu32
}

/// The mantissa (fraction) field of a 32-bit float's bit pattern.
pub open spec fn f32_mantissa(x: u32) -> u32 {
    x & 0x7f_ffffu32
}

/// What the test answers for a 32-bit float: a NaN has all exponent bits set and a nonzero
/// mantissa, an infinity all exponent bits set and a zero mantissa; every finite float has
/// an exponent below 255 and is neither.
pub open spec fn float_test(ty: IsNanOrIsInf, x: u32) -> bool {
    match ty {
        IsNanOrIsInf::IsNan => f32_exponent(x) == 255 && f32_mantissa(x) != 0,
        IsNanOrIsInf::IsInf => f32_exponent(x) == 255 && f32_mantissa(x) == 0,
    }
}

/// The values of the four shared constants.
pub open spec fn constant_values(c: NanInfSharedConstants) -> Map<u32, int> {
    map![c.uint_23 => 23int, c.uint_255 => 255int, c.uint_8388607 => 8388607int, c.uint_0 => 0int]
}

/// Run on a 32-bit float whose bits are `x` (the caller's variable behind the parameter),
/// the replacement function returns true exactly when the float is a NaN (for `OpIsNan`)
/// or an infinity (for `OpIsInf`); in particular false for every finite float.
pub proof fn lemma_is_nan_is_inf_computes(
    ib: int,
    ty: IsNanOrIsInf,
    ty_inputs: NanInfSharedTypeInputs,
    inputs: NanInfSharedFunctionInputs,
    function_type: u32,
    c: NanInfSharedConstants,
    x: u32,
)
    requires
        0 <= ib,
        ib + 18 <= u32::MAX,
        c.uint_23 != c.uint_255 && c.uint_23 != c.uint_8388607 && c.uint_23 != c.uint_0,
        c.uint_255 != c.uint_8388607 && c.uint_255 != c.uint_0 && c.uint_8388607 != c.uint_0,
        !(ib <= c.uint_23 < ib + 18) && !(ib <= c.uint_255 < ib + 18),
        !(ib <= c.uint_8388607 < ib + 18) && !(ib <= c.uint_0 < ib + 18),
    ensures
        run(
            is_nan_is_inf_words(ib, ty, ty_inputs, inputs, function_type, c),
            0,
            Frame { vals: constant_values(c), ptrs: Map::empty(), mem: map![((ib + 1) as u32, -1int) => x as int] },
            30,
        ) == Outcome::Returned(if float_test(ty, x) { 1int } else { 0int }),
        f32_exponent(x) < 255 ==> !float_test(ty, x),
{
    let w = is_nan_is_inf_words(ib, ty, ty_inputs, inputs, function_type, c);
    let id = |k: int| (ib + k) as u32;
    let test_op = mantissa_test(ty);
    let st0 = Frame { vals: constant_values(c), ptrs: Map::empty(), mem: map![((ib + 1) as u32, -1int) => x as int] };
    assert(w[0] == spec_encode_word(5, spv::SPV_INSTRUCTION_OP_FUNCTION));
    crate::util::lemma_split_encode(5, spv::SPV_INSTRUCTION_OP_FUNCTION);
    let st1 = exec(w, 0, spv::SPV_INSTRUCTION_OP_FUNCTION as int, st0)->Some_0;
    lemma_run_step(w, 0, st0, 30);
    assert(w[5] == spec_encode_word(3, spv::SPV_INSTRUCTION_OP_FUNCTION_PARAMETER) && w[7] == id(1));
    crate::util::lemma_split_encode(3, spv::SPV_INSTRUCTION_OP_FUNCTION_PARAMETER);
    let st2 = exec(w, 5, spv::SPV_INSTRUCTION_OP_FUNCTION_PARAMETER as int, st1)->Some_0;
    lemma_run_step(w, 5, st1, 29);
    assert(w[8] == spec_encode_word(2, spv::SPV_INSTRUCTION_OP_LABEL));
    crate::util::lemma_split_encode(2, spv::SPV_INSTRUCTION_OP_LABEL);
    let st3 = exec(w, 8, spv::SPV_INSTRUCTION_OP_LABEL as int, st2)->Some_0;
    lemma_run_step(w, 8, st2, 28);
    assert(w[10] == spec_encode_word(4, spv::SPV_INSTRUCTION_OP_VARIABLE) && w[12] == id(3));
    crate::util::lemma_split_encode(4, spv::SPV_INSTRUCTION_OP_VARIABLE);
    let st4 = exec(w, 10, spv::SPV_INSTRUCTION_OP_VARIABLE as int, st3)->Some_0;
    lemma_run_step(w, 10, st3, 27);
    assert(w[14] == spec_encode_word(4, spv::SPV_INSTRUCTION_OP_VARIABLE) && w[16] == id(4));
    crate::util::lemma_split_encode(4, spv::SPV_INSTRUCTION_OP_VARIABLE);
    let st5 = exec(w, 14, spv::SPV_INSTRUCTION_OP_VARIABLE as int, st4)->Some_0;
    lemma_run_step(w, 14, st4, 26);
    assert(w[18] == spec_encode_word(4, spv::SPV_INSTRUCTION_OP_VARIABLE) && w[20] == id(5));
    crate::util::lemma_split_encode(4, spv::SPV_INSTRUCTION_OP_VARIABLE);
    let st6 = exec(w, 18, spv::SPV_INSTRUCTION_OP_VARIABLE as int, st5)->Some_0;
    lemma_run_step(w, 18, st5, 25);
    assert(w[22] == spec_encode_word(4, spv::SPV_INSTRUCTION_OP_LOAD) && w[24] == id(6) && w[25] == id(1));
    crate::util::lemma_split_encode(4, spv::SPV_INSTRUCTION_OP_LOAD);
    let st7 = exec(w, 22, spv::SPV_INSTRUCTION_OP_LOAD as int, st6)->Some_0;
    lemma_run_step(w, 22, st6, 24);
    assert(w[26] == spec_encode_word(4, spv::SPV_INSTRUCTION_OP_BITCAST) && w[28] == id(7) && w[29] == id(6));
    crate::util::lemma_split_encode(4, spv::SPV_INSTRUCTION_OP_BITCAST);
    let st8 = exec(w, 26, spv::SPV_INSTRUCTION_OP_BITCAST as int, st7)->Some_0;
    lemma_run_step(w, 26, st7, 23);
    assert(w[30] == spec_encode_word(3, spv::SPV_INSTRUCTION_OP_STORE) && w[31] == id(3) && w[32] == id(7));
    crate::util::lemma_split_encode(3, spv::SPV_INSTRUCTION_OP_STORE);
    let st9 = exec(w, 30, spv::SPV_INSTRUCTION_OP_STORE as int, st8)->Some_0;
    lemma_run_step(w, 30, st8, 22);
    assert(w[33] == spec_encode_word(4, spv::SPV_INSTRUCTION_OP_LOAD) && w[35] == id(8) && w[36] == id(3));
    crate::util::lemma_split_encode(4, spv::SPV_INSTRUCTION_OP_LOAD);
    let st10 = exec(w, 33, spv::SPV_INSTRUCTION_OP_LOAD as int, st9)->Some_0;
    lemma_run_step(w, 33, st9, 21);
    assert(w[37] == spec_encode_word(5, spv::SPV_INSTRUCTION_OP_SHIFT_RIGHT_LOGICAL) && w[39] == id(9) && w[40] == id(8) && w[41] == c.uint_23);
    crate::util::lemma_split_encode(5, spv::SPV_INSTRUCTION_OP_SHIFT_RIGHT_LOGICAL);
    let st11 = exec(w, 37, spv::SPV_INSTRUCTION_OP_SHIFT_RIGHT_LOGICAL as int, st10)->Some_0;
    lemma_run_step(w, 37, st10, 20);
    assert(w[42] == spec_encode_word(5, spv::SPV_INSTRUCTION_OP_BITWISE_AND) && w[44] == id(10) && w[45] == id(9) && w[46] == c.uint_255);
    crate::util::lemma_split_encode(5, spv::SPV_INSTRUCTION_OP_BITWISE_AND);
    let st12 = exec(w, 42, spv::SPV_INSTRUCTION_OP_BITWISE_AND as int, st11)->Some_0;
    lemma_run_step(w, 42, st11, 19);
    assert(w[47] == spec_encode_word(3, spv::SPV_INSTRUCTION_OP_STORE) && w[48] == id(4) && w[49] == id(10));
    crate::util::lemma_split_encode(3, spv::SPV_INSTRUCTION_OP_STORE);
    let st13 = exec(w, 47, spv::SPV_INSTRUCTION_OP_STORE as int, st12)->Some_0;
    lemma_run_step(w, 47, st12, 18);
    assert(w[50] == spec_encode_word(4, spv::SPV_INSTRUCTION_OP_LOAD) && w[52] == id(11) && w[53] == id(3));
    crate::util::lemma_split_encode(4, spv::SPV_INSTRUCTION_OP_LOAD);
    let st14 = exec(w, 50, spv::SPV_INSTRUCTION_OP_LOAD as int, st13)->Some_0;
    lemma_run_step(w, 50, st13, 17);
    assert(w[54] == spec_encode_word(5, spv::SPV_INSTRUCTION_OP_BITWISE_AND) && w[56] == id(12) && w[57] == id(11) && w[58] == c.uint_8388607);
    crate::util::lemma_split_encode(5, spv::SPV_INSTRUCTION_OP_BITWISE_AND);
    let st15 = exec(w, 54, spv::SPV_INSTRUCTION_OP_BITWISE_AND as int, st14)->Some_0;
    lemma_run_step(w, 54, st14, 16);
    assert(w[59] == spec_encode_word(3, spv::SPV_INSTRUCTION_OP_STORE) && w[60] == id(5) && w[61] == id(12));
    crate::util::lemma_split_encode(3, spv::SPV_INSTRUCTION_OP_STORE);
    let st16 = exec(w, 59, spv::SPV_INSTRUCTION_OP_STORE as int, st15)->Some_0;
    lemma_run_step(w, 59, st15, 15);
    assert(w[62] == spec_encode_word(4, spv::SPV_INSTRUCTION_OP_LOAD) && w[64] == id(13) && w[65] == id(4));
    crate::util::lemma_split_encode(4, spv::SPV_INSTRUCTION_OP_LOAD);
    let st17 = exec(w, 62, spv::SPV_INSTRUCTION_OP_LOAD as int, st16)->Some_0;
    lemma_run_step(w, 62, st16, 14);
    assert(w[66] == spec_encode_word(5, spv::SPV_INSTRUCTION_OP_I_EQUAL) && w[68] == id(14) && w[69] == id(13) && w[70] == c.uint_255);
    crate::util::lemma_split_encode(5, spv::SPV_INSTRUCTION_OP_I_EQUAL);
    let st18 = exec(w, 66, spv::SPV_INSTRUCTION_OP_I_EQUAL as int, st17)->Some_0;
    lemma_run_step(w, 66, st17, 13);
    assert(w[71] == spec_encode_word(4, spv::SPV_INSTRUCTION_OP_LOAD) && w[73] == id(15) && w[74] == id(5));
    crate::util::lemma_split_encode(4, spv::SPV_INSTRUCTION_OP_LOAD);
    let st19 = exec(w, 71, spv::SPV_INSTRUCTION_OP_LOAD as int, st18)->Some_0;
    lemma_run_step(w, 71, st18, 12);
    assert(w[75] == spec_encode_word(5, test_op) && w[77] == id(16) && w[78] == id(15) && w[79] == c.uint_0);
    crate::util::lemma_split_encode(5, test_op);
    let st20 = exec(w, 75, test_op as int, st19)->Some_0;
    lemma_run_step(w, 75, st19, 11);
    assert(w[80] == spec_encode_word(5, spv::SPV_INSTRUCTION_OP_LOGICAL_AND) && w[82] == id(17) && w[83] == id(14) && w[84] == id(16));
    crate::util::lemma_split_encode(5, spv::SPV_INSTRUCTION_OP_LOGICAL_AND);
    let st21 = exec(w, 80, spv::SPV_INSTRUCTION_OP_LOGICAL_AND as int, st20)->Some_0;
    lemma_run_step(w, 80, st20, 10);
    assert(w[85] == spec_encode_word(2, spv::SPV_INSTRUCTION_OP_RETURN_VALUE) && w[86] == id(17));
    crate::util::lemma_split_encode(2, spv::SPV_INSTRUCTION_OP_RETURN_VALUE);
}

/// Defines the replacement function for `OpIsNan` or `OpIsInf` on one float type, with the
/// next eighteen ids from `ib`; returns the function's id.
pub fn is_nan_is_inf_spv(
    ib: &mut u32,
    ty: IsNanOrIsInf,
    ty_inputs: NanInfSharedTypeInputs,
    inputs: NanInfSharedFunctionInputs,
    function_type: NanInfFunctionType,
    shared_constants: NanInfSharedConstants,
) -> (r: (u32, Vec<u32>))
    requires
        *old(ib) + 18 <= u32::MAX,
    ensures
        *final(ib) == *old(ib) + 18,
        r.0 == *old(ib),
        r.1@ == is_nan_is_inf_words(*old(ib) as int, ty, ty_inputs, inputs, function_type.0, shared_constants),
{
    // The only difference between the two is one OpINotEqual vs OpIEqual
    //
    // %isnan_f1_ = OpFunction %bool None %_function_type
    //         %x = OpFunctionParameter %_ptr_Function_float
    //         %1 = OpLabel
    //      %bits = OpVariable %_ptr_Function_uint Function
    //       %exp = OpVariable %_ptr_Function_uint Function
    //      %frac = OpVariable %_ptr_Function_uint Function
    //         %2 = OpLoad %float %x
    //         %3 = OpBitcast %uint %2
    //              OpStore %bits %3
    //         %4 = OpLoad %uint %bits
    //         %5 = OpShiftRightLogical %uint %4 %uint_23
    //         %6 = OpBitwiseAnd %uint %5 %uint_255
    //              OpStore %exp %6
    //         %7 = OpLoad %uint %bits
    //         %8 = OpBitwiseAnd %uint %7 %uint_8388607
    //              OpStore %frac %8
    //         %9 = OpLoad %uint %exp
    //        %10 = OpIEqual %bool %9 %uint_255
    //        %11 = OpLoad %uint %frac
    //        %12 = OpINotEqual %bool %11 %uint_0    (OpIEqual for isinf)
    //        %13 = OpLogicalAnd %bool %10 %12
    //              OpReturnValue %13
    //              OpFunctionEnd
    let ghost ib0 = *old(ib) as int;
    let function_type = function_type.0;
    let NanInfSharedConstants { uint_23, uint_255, uint_8388607, uint_0 } = shared_constants;
    let NanInfSharedTypeInputs { uint_id, ptr_uint_id } = ty_inputs;
    let NanInfSharedFunctionInputs { bool_id, float_id, ptr_float_id } = inputs;

    let is_nan = inc(ib);
    let x = inc(ib);
    let res_1 = inc(ib);
    let bits = inc(ib);
    let exp = inc(ib);
    let frac = inc(ib);
    let res_2 = inc(ib);
    let res_3 = inc(ib);
    let res_4 = inc(ib);
    let res_5 = inc(ib);
    let res_6 = inc(ib);
    let res_7 = inc(ib);
    let res_8 = inc(ib);
    let res_9 = inc(ib);
    let res_10 = inc(ib);
    let res_11 = inc(ib);
    let res_12 = inc(ib);
    let res_13 = inc(ib);

    let test = match ty {
        IsNanOrIsInf::IsNan => spv::SPV_INSTRUCTION_OP_I_NOT_EQUAL,
        IsNanOrIsInf::IsInf => spv::SPV_INSTRUCTION_OP_I_EQUAL,
    };
    let function = spv::SPV_STORAGE_CLASS_FUNCTION;

    let spv = vec![
        encode_word(5, spv::SPV_INSTRUCTION_OP_FUNCTION),
            bool_id, is_nan, spv::SPV_FUNCTION_CONTROL_INLINE, function_type,
        encode_word(3, spv::SPV_INSTRUCTION_OP_FUNCTION_PARAMETER),
            ptr_float_id, x,
        encode_word(2, spv::SPV_INSTRUCTION_OP_LABEL),
            res_1,
        encode_word(4, spv::SPV_INSTRUCTION_OP_VARIABLE),
            ptr_uint_id, bits, function,
        encode_word(4, spv::SPV_INSTRUCTION_OP_VARIABLE),
            ptr_uint_id, exp, function,
        encode_word(4, spv::SPV_INSTRUCTION_OP_VARIABLE),
            ptr_uint_id, frac, function,
        encode_word(4, spv::SPV_INSTRUCTION_OP_LOAD),
            float_id, res_2, x,
        encode_word(4, spv::SPV_INSTRUCTION_OP_BITCAST),
            uint_id, res_3, res_2,
        encode_word(3, spv::SPV_INSTRUCTION_OP_STORE),
            bits, res_3,
        encode_word(4, spv::SPV_INSTRUCTION_OP_LOAD),
            uint_id, res_4, bits,
        encode_word(5, spv::SPV_INSTRUCTION_OP_SHIFT_RIGHT_LOGICAL),
            uint_id, res_5, res_4, uint_23,
        encode_word(5, spv::SPV_INSTRUCTION_OP_BITWISE_AND),
            uint_id, res_6, res_5, uint_255,
        encode_word(3, spv::SPV_INSTRUCTION_OP_STORE),
            exp, res_6,
        encode_word(4, spv::SPV_INSTRUCTION_OP_LOAD),
            uint_id, res_7, bits,
        encode_word(5, spv::SPV_INSTRUCTION_OP_BITWISE_AND),
            uint_id, res_8, res_7, uint_8388607,
        encode_word(3, spv::SPV_INSTRUCTION_OP_STORE),
            frac, res_8,
        encode_word(4, spv::SPV_INSTRUCTION_OP_LOAD),
            uint_id, res_9, exp,
        encode_word(5, spv::SPV_INSTRUCTION_OP_I_EQUAL),
            bool_id, res_10, res_9, uint_255,
        encode_word(4, spv::SPV_INSTRUCTION_OP_LOAD),
            uint_id, res_11, frac,
        encode_word(5, test),
            bool_id, res_12, res_11, uint_0,
        encode_word(5, spv::SPV_INSTRUCTION_OP_LOGICAL_AND),
            bool_id, res_13, res_10, res_12,
        encode_word(2, spv::SPV_INSTRUCTION_OP_RETURN_VALUE),
            res_13,
        encode_word(1, spv::SPV_INSTRUCTION_OP_FUNCTION_END),
    ];
    assert(spv@ =~= is_nan_is_inf_words(ib0, ty, ty_inputs, inputs, function_type, shared_constants));

    (is_nan, spv)
}

} // verus!
