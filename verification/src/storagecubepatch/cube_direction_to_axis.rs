use vstd::prelude::*;

use crate::spv;
use crate::splitbindingarray::inc;
use crate::util::{encode_word, spec_encode_word, spec_loword};
use crate::util::interp::{
    abs_bits, exec, exec_cfg, flag, labels_mark, lemma_cfg_branch, lemma_cfg_cond, lemma_cfg_step, lemma_cfg_stop, lemma_run_step, run,
    neg_bits, run_cfg, signed, CfgFrame, Frame, Outcome,
};

verus! {

/// The types the cube direction function works with.
#[derive(Debug, Clone, Copy, PartialEq, Eq, Hash, Structural)]
pub struct CubeDirectionTypeInputs {
    pub int_id: u32,
    pub v3int_id: u32,
    pub v2int_id: u32,
    pub bool_id: u32,
    pub ptr_v3int_id: u32,
    pub ptr_int_id: u32,
    pub ptr_bool_id: u32,
    pub ptr_v2int_id: u32,
}

/// The id of the cube direction function's `OpTypeFunction`.
#[derive(Debug, Clone, Copy, PartialEq, Eq, Structural)]
pub struct CubeDirectionFunctionType(pub u32);

/// The ids of the integer constants 0 to 5 the cube direction function uses.
#[derive(Debug, Clone, Copy, PartialEq, Eq, Structural)]
pub struct CubeDirectionConstants {
    pub int_0: u32,
    pub int_1: u32,
    pub int_2: u32,
    pub int_3: u32,
    pub int_4: u32,
    pub int_5: u32,
}

/// The function type `%v3int (%_ptr_Function_v3int)`, with id `id`.
pub open spec fn cube_fn_type_words(id: u32, t: CubeDirectionTypeInputs) -> Seq<u32> {
    seq![spec_encode_word(4, spv::SPV_INSTRUCTION_OP_TYPE_FUNCTION), id, t.v3int_id, t.ptr_v3int_id]
}

/// The integer constants 0 to 5, with ids `ib` to `ib + 5`.
pub open spec fn cube_constants_words(ib: int, int_id: u32) -> Seq<u32> {
    let id = |k: int| (ib + k) as u32;
    seq![
        spec_encode_word(4, spv::SPV_INSTRUCTION_OP_CONSTANT), int_id, id(0), 0,
        spec_encode_word(4, spv::SPV_INSTRUCTION_OP_CONSTANT), int_id, id(1), 1,
        spec_encode_word(4, spv::SPV_INSTRUCTION_OP_CONSTANT), int_id, id(2), 2,
        spec_encode_word(4, spv::SPV_INSTRUCTION_OP_CONSTANT), int_id, id(3), 3,
        spec_encode_word(4, spv::SPV_INSTRUCTION_OP_CONSTANT), int_id, id(4), 4,
        spec_encode_word(4, spv::SPV_INSTRUCTION_OP_CONSTANT), int_id, id(5), 5,
    ]
}

pub fn image_cube_direction_to_arrayed_fn_type(
    ib: &mut u32,
    ty_inputs: CubeDirectionTypeInputs,
) -> (r: (CubeDirectionFunctionType, Vec<u32>))
    requires
        *old(ib) < u32::MAX,
    ensures
        *final(ib) == *old(ib) + 1,
        r.0 == CubeDirectionFunctionType(*old(ib)),
        r.1@ == cube_fn_type_words(*old(ib), ty_inputs),
{
    // %_function_type = OpTypeFunction %v3int %_ptr_Function_v3int
    let function_type = inc(ib);
    let spv = vec![
        encode_word(4, spv::SPV_INSTRUCTION_OP_TYPE_FUNCTION),
            function_type, ty_inputs.v3int_id, ty_inputs.ptr_v3int_id,
    ];
    assert(spv@ =~= cube_fn_type_words(function_type, ty_inputs));
    (CubeDirectionFunctionType(function_type), spv)
}

pub fn image_cube_direction_to_arrayed_constants_spv(
    ib: &mut u32,
    int_id: u32,
) -> (r: (CubeDirectionConstants, Vec<u32>))
    requires
        *old(ib) + 6 <= u32::MAX,
    ensures
        *final(ib) == *old(ib) + 6,
        r.0 == (CubeDirectionConstants {
            int_0: *old(ib),
            int_1: (*old(ib) + 1) as u32,
            int_2: (*old(ib) + 2) as u32,
            int_3: (*old(ib) + 3) as u32,
            int_4: (*old(ib) + 4) as u32,
            int_5: (*old(ib) + 5) as u32,
        }),
        r.1@ == cube_constants_words(*old(ib) as int, int_id),
{
    // %int_0 = OpConstant %int 0
    // %int_1 = OpConstant %int 1
    // %int_2 = OpConstant %int 2
    // %int_3 = OpConstant %int 3
    // %int_4 = OpConstant %int 4
    // %int_5 = OpConstant %int 5

    let int_0 = inc(ib);
    let int_1 = inc(ib);
    let int_2 = inc(ib);
    let int_3 = inc(ib);
    let int_4 = inc(ib);
    let int_5 = inc(ib);

    let spv = vec![
        encode_word(4, spv::SPV_INSTRUCTION_OP_CONSTANT),
            int_id, int_0, 0,
        encode_word(4, spv::SPV_INSTRUCTION_OP_CONSTANT),
            int_id, int_1, 1,
        encode_word(4, spv::SPV_INSTRUCTION_OP_CONSTANT),
            int_id, int_2, 2,
        encode_word(4, spv::SPV_INSTRUCTION_OP_CONSTANT),
            int_id, int_3, 3,
        encode_word(4, spv::SPV_INSTRUCTION_OP_CONSTANT),
            int_id, int_4, 4,
        encode_word(4, spv::SPV_INSTRUCTION_OP_CONSTANT),
            int_id, int_5, 5,
    ];
    assert(spv@ =~= cube_constants_words(int_0 as int, int_id));

    (CubeDirectionConstants { int_0, int_1, int_2, int_3, int_4, int_5 }, spv)
}

fn emit1(out: &mut Vec<u32>, w0: u32)
    ensures
        final(out)@ == old(out)@ + seq![w0],
{
    out.push(w0);
    assert(out@ =~= old(out)@ + seq![w0]);
}

fn emit2(out: &mut Vec<u32>, w0: u32, w1: u32)
    ensures
        final(out)@ == old(out)@ + seq![w0, w1],
{
    out.push(w0);
    out.push(w1);
    assert(out@ =~= old(out)@ + seq![w0, w1]);
}

fn emit3(out: &mut Vec<u32>, w0: u32, w1: u32, w2: u32)
    ensures
        final(out)@ == old(out)@ + seq![w0, w1, w2],
{
    out.push(w0);
    out.push(w1);
    out.push(w2);
    assert(out@ =~= old(out)@ + seq![w0, w1, w2]);
}

fn emit4(out: &mut Vec<u32>, w0: u32, w1: u32, w2: u32, w3: u32)
    ensures
        final(out)@ == old(out)@ + seq![w0, w1, w2, w3],
{
    out.push(w0);
    out.push(w1);
    out.push(w2);
    out.push(w3);
    assert(out@ =~= old(out)@ + seq![w0, w1, w2, w3]);
}

fn emit5(out: &mut Vec<u32>, w0: u32, w1: u32, w2: u32, w3: u32, w4: u32)
    ensures
        final(out)@ == old(out)@ + seq![w0, w1, w2, w3, w4],
{
    out.push(w0);
    out.push(w1);
    out.push(w2);
    out.push(w3);
    out.push(w4);
    assert(out@ =~= old(out)@ + seq![w0, w1, w2, w3, w4]);
}

fn emit6(out: &mut Vec<u32>, w0: u32, w1: u32, w2: u32, w3: u32, w4: u32, w5: u32)
    ensures
        final(out)@ == old(out)@ + seq![w0, w1, w2, w3, w4, w5],
{
    out.push(w0);
    out.push(w1);
    out.push(w2);
    out.push(w3);
    out.push(w4);
    out.push(w5);
    assert(out@ =~= old(out)@ + seq![w0, w1, w2, w3, w4, w5]);
}

fn emit7(out: &mut Vec<u32>, w0: u32, w1: u32, w2: u32, w3: u32, w4: u32, w5: u32, w6: u32)
    ensures
        final(out)@ == old(out)@ + seq![w0, w1, w2, w3, w4, w5, w6],
{
    out.push(w0);
    out.push(w1);
    out.push(w2);
    out.push(w3);
    out.push(w4);
    out.push(w5);
    out.push(w6);
    assert(out@ =~= old(out)@ + seq![w0, w1, w2, w3, w4, w5, w6]);
}

/// Instructions 0 to 19 of the cube direction function, after `w`.
pub open spec fn cube_direction_part_0(
    w: Seq<u32>,
    ib: int,
    t: CubeDirectionTypeInputs,
    function_type: u32,
    c: CubeDirectionConstants,
    glsl_std_id: u32,
) -> Seq<u32> {
    let id = |k: int| (ib + k) as u32;
        w
        + seq![spec_encode_word(5, spv::SPV_INSTRUCTION_OP_FUNCTION), t.v3int_id, id(0), spv::SPV_FUNCTION_CONTROL_INLINE, function_type]
        + seq![spec_encode_word(3, spv::SPV_INSTRUCTION_OP_FUNCTION_PARAMETER), t.ptr_v3int_id, id(1)]
        + seq![spec_encode_word(2, spv::SPV_INSTRUCTION_OP_LABEL), id(2)]
        + seq![spec_encode_word(4, spv::SPV_INSTRUCTION_OP_VARIABLE), t.ptr_v3int_id, id(3), spv::SPV_STORAGE_CLASS_FUNCTION]
        + seq![spec_encode_word(4, spv::SPV_INSTRUCTION_OP_VARIABLE), t.ptr_bool_id, id(4), spv::SPV_STORAGE_CLASS_FUNCTION]
        + seq![spec_encode_word(4, spv::SPV_INSTRUCTION_OP_VARIABLE), t.ptr_bool_id, id(5), spv::SPV_STORAGE_CLASS_FUNCTION]
        + seq![spec_encode_word(4, spv::SPV_INSTRUCTION_OP_VARIABLE), t.ptr_int_id, id(6), spv::SPV_STORAGE_CLASS_FUNCTION]
        + seq![spec_encode_word(4, spv::SPV_INSTRUCTION_OP_VARIABLE), t.ptr_int_id, id(7), spv::SPV_STORAGE_CLASS_FUNCTION]
        + seq![spec_encode_word(4, spv::SPV_INSTRUCTION_OP_VARIABLE), t.ptr_int_id, id(8), spv::SPV_STORAGE_CLASS_FUNCTION]
        + seq![spec_encode_word(4, spv::SPV_INSTRUCTION_OP_VARIABLE), t.ptr_v2int_id, id(9), spv::SPV_STORAGE_CLASS_FUNCTION]
        + seq![spec_encode_word(4, spv::SPV_INSTRUCTION_OP_VARIABLE), t.ptr_v2int_id, id(10), spv::SPV_STORAGE_CLASS_FUNCTION]
        + seq![spec_encode_word(4, spv::SPV_INSTRUCTION_OP_VARIABLE), t.ptr_v2int_id, id(11), spv::SPV_STORAGE_CLASS_FUNCTION]
        + seq![spec_encode_word(4, spv::SPV_INSTRUCTION_OP_VARIABLE), t.ptr_v2int_id, id(12), spv::SPV_STORAGE_CLASS_FUNCTION]
        + seq![spec_encode_word(4, spv::SPV_INSTRUCTION_OP_VARIABLE), t.ptr_v2int_id, id(13), spv::SPV_STORAGE_CLASS_FUNCTION]
        + seq![spec_encode_word(4, spv::SPV_INSTRUCTION_OP_VARIABLE), t.ptr_v2int_id, id(14), spv::SPV_STORAGE_CLASS_FUNCTION]
        + seq![spec_encode_word(4, spv::SPV_INSTRUCTION_OP_LOAD), t.v3int_id, id(15), id(1)]
        + seq![spec_encode_word(6, spv::SPV_INSTRUCTION_OP_EXT_INST), t.v3int_id, id(16), glsl_std_id, spv::SPV_GLSL_STD_INSTRUCTION_SABS, id(15)]
        + seq![spec_encode_word(3, spv::SPV_INSTRUCTION_OP_STORE), id(3), id(16)]
        + seq![spec_encode_word(5, spv::SPV_INSTRUCTION_OP_ACCESS_CHAIN), t.ptr_int_id, id(17), id(3), c.int_0]
        + seq![spec_encode_word(4, spv::SPV_INSTRUCTION_OP_LOAD), t.int_id, id(18), id(17)]
}

/// Instructions 20 to 39 of the cube direction function, after `w`.
pub open spec fn cube_direction_part_1(
    w: Seq<u32>,
    ib: int,
    t: CubeDirectionTypeInputs,
    function_type: u32,
    c: CubeDirectionConstants,
    glsl_std_id: u32,
) -> Seq<u32> {
    let id = |k: int| (ib + k) as u32;
        w
        + seq![spec_encode_word(5, spv::SPV_INSTRUCTION_OP_ACCESS_CHAIN), t.ptr_int_id, id(19), id(3), c.int_1]
        + seq![spec_encode_word(4, spv::SPV_INSTRUCTION_OP_LOAD), t.int_id, id(20), id(19)]
        + seq![spec_encode_word(5, spv::SPV_INSTRUCTION_OP_S_GREATER_THAN_EQUAL), t.bool_id, id(21), id(18), id(20)]
        + seq![spec_encode_word(3, spv::SPV_INSTRUCTION_OP_SELECTION_MERGE), id(22), 0]
        + seq![spec_encode_word(4, spv::SPV_INSTRUCTION_OP_BRANCH_CONDITIONAL), id(21), id(23), id(22)]
        + seq![spec_encode_word(2, spv::SPV_INSTRUCTION_OP_LABEL), id(23)]
        + seq![spec_encode_word(5, spv::SPV_INSTRUCTION_OP_ACCESS_CHAIN), t.ptr_int_id, id(24), id(3), c.int_0]
        + seq![spec_encode_word(4, spv::SPV_INSTRUCTION_OP_LOAD), t.int_id, id(25), id(24)]
        + seq![spec_encode_word(5, spv::SPV_INSTRUCTION_OP_ACCESS_CHAIN), t.ptr_int_id, id(26), id(3), c.int_2]
        + seq![spec_encode_word(4, spv::SPV_INSTRUCTION_OP_LOAD), t.int_id, id(27), id(26)]
        + seq![spec_encode_word(5, spv::SPV_INSTRUCTION_OP_S_GREATER_THAN_EQUAL), t.bool_id, id(28), id(25), id(27)]
        + seq![spec_encode_word(2, spv::SPV_INSTRUCTION_OP_BRANCH), id(22)]
        + seq![spec_encode_word(2, spv::SPV_INSTRUCTION_OP_LABEL), id(22)]
        + seq![spec_encode_word(7, spv::SPV_INSTRUCTION_OP_PHI), t.bool_id, id(29), id(21), id(2), id(28), id(23)]
        + seq![spec_encode_word(3, spv::SPV_INSTRUCTION_OP_STORE), id(4), id(29)]
        + seq![spec_encode_word(5, spv::SPV_INSTRUCTION_OP_ACCESS_CHAIN), t.ptr_int_id, id(30), id(3), c.int_1]
        + seq![spec_encode_word(4, spv::SPV_INSTRUCTION_OP_LOAD), t.int_id, id(31), id(30)]
        + seq![spec_encode_word(5, spv::SPV_INSTRUCTION_OP_ACCESS_CHAIN), t.ptr_int_id, id(32), id(3), c.int_0]
        + seq![spec_encode_word(4, spv::SPV_INSTRUCTION_OP_LOAD), t.int_id, id(33), id(32)]
        + seq![spec_encode_word(5, spv::SPV_INSTRUCTION_OP_S_GREATER_THAN), t.bool_id, id(34), id(31), id(33)]
}

/// Instructions 40 to 59 of the cube direction function, after `w`.
pub open spec fn cube_direction_part_2(
    w: Seq<u32>,
    ib: int,
    t: CubeDirectionTypeInputs,
    function_type: u32,
    c: CubeDirectionConstants,
    glsl_std_id: u32,
) -> Seq<u32> {
    let id = |k: int| (ib + k) as u32;
        w
        + seq![spec_encode_word(3, spv::SPV_INSTRUCTION_OP_SELECTION_MERGE), id(35), 0]
        + seq![spec_encode_word(4, spv::SPV_INSTRUCTION_OP_BRANCH_CONDITIONAL), id(34), id(36), id(35)]
        + seq![spec_encode_word(2, spv::SPV_INSTRUCTION_OP_LABEL), id(36)]
        + seq![spec_encode_word(5, spv::SPV_INSTRUCTION_OP_ACCESS_CHAIN), t.ptr_int_id, id(37), id(3), c.int_1]
        + seq![spec_encode_word(4, spv::SPV_INSTRUCTION_OP_LOAD), t.int_id, id(38), id(37)]
        + seq![spec_encode_word(5, spv::SPV_INSTRUCTION_OP_ACCESS_CHAIN), t.ptr_int_id, id(39), id(3), c.int_2]
        + seq![spec_encode_word(4, spv::SPV_INSTRUCTION_OP_LOAD), t.int_id, id(40), id(39)]
        + seq![spec_encode_word(5, spv::SPV_INSTRUCTION_OP_S_GREATER_THAN_EQUAL), t.bool_id, id(41), id(38), id(40)]
        + seq![spec_encode_word(2, spv::SPV_INSTRUCTION_OP_BRANCH), id(35)]
        + seq![spec_encode_word(2, spv::SPV_INSTRUCTION_OP_LABEL), id(35)]
        + seq![spec_encode_word(7, spv::SPV_INSTRUCTION_OP_PHI), t.bool_id, id(42), id(34), id(22), id(41), id(36)]
        + seq![spec_encode_word(3, spv::SPV_INSTRUCTION_OP_STORE), id(5), id(42)]
        + seq![spec_encode_word(4, spv::SPV_INSTRUCTION_OP_LOAD), t.bool_id, id(43), id(4)]
        + seq![spec_encode_word(3, spv::SPV_INSTRUCTION_OP_SELECTION_MERGE), id(44), 0]
        + seq![spec_encode_word(4, spv::SPV_INSTRUCTION_OP_BRANCH_CONDITIONAL), id(43), id(45), id(46)]
        + seq![spec_encode_word(2, spv::SPV_INSTRUCTION_OP_LABEL), id(45)]
        + seq![spec_encode_word(5, spv::SPV_INSTRUCTION_OP_ACCESS_CHAIN), t.ptr_int_id, id(47), id(1), c.int_0]
        + seq![spec_encode_word(4, spv::SPV_INSTRUCTION_OP_LOAD), t.int_id, id(48), id(47)]
        + seq![spec_encode_word(5, spv::SPV_INSTRUCTION_OP_S_GREATER_THAN), t.bool_id, id(49), id(48), c.int_0]
        + seq![spec_encode_word(6, spv::SPV_INSTRUCTION_OP_SELECT), t.int_id, id(50), id(49), c.int_0, c.int_1]
}

/// Instructions 60 to 79 of the cube direction function, after `w`.
pub open spec fn cube_direction_part_3(
    w: Seq<u32>,
    ib: int,
    t: CubeDirectionTypeInputs,
    function_type: u32,
    c: CubeDirectionConstants,
    glsl_std_id: u32,
) -> Seq<u32> {
    let id = |k: int| (ib + k) as u32;
        w
        + seq![spec_encode_word(3, spv::SPV_INSTRUCTION_OP_STORE), id(7), id(50)]
        + seq![spec_encode_word(2, spv::SPV_INSTRUCTION_OP_BRANCH), id(44)]
        + seq![spec_encode_word(2, spv::SPV_INSTRUCTION_OP_LABEL), id(46)]
        + seq![spec_encode_word(4, spv::SPV_INSTRUCTION_OP_LOAD), t.bool_id, id(51), id(5)]
        + seq![spec_encode_word(3, spv::SPV_INSTRUCTION_OP_SELECTION_MERGE), id(52), 0]
        + seq![spec_encode_word(4, spv::SPV_INSTRUCTION_OP_BRANCH_CONDITIONAL), id(51), id(53), id(54)]
        + seq![spec_encode_word(2, spv::SPV_INSTRUCTION_OP_LABEL), id(53)]
        + seq![spec_encode_word(5, spv::SPV_INSTRUCTION_OP_ACCESS_CHAIN), t.ptr_int_id, id(55), id(1), c.int_1]
        + seq![spec_encode_word(4, spv::SPV_INSTRUCTION_OP_LOAD), t.int_id, id(56), id(55)]
        + seq![spec_encode_word(5, spv::SPV_INSTRUCTION_OP_S_GREATER_THAN), t.bool_id, id(57), id(56), c.int_0]
        + seq![spec_encode_word(6, spv::SPV_INSTRUCTION_OP_SELECT), t.int_id, id(58), id(57), c.int_2, c.int_3]
        + seq![spec_encode_word(3, spv::SPV_INSTRUCTION_OP_STORE), id(8), id(58)]
        + seq![spec_encode_word(2, spv::SPV_INSTRUCTION_OP_BRANCH), id(52)]
        + seq![spec_encode_word(2, spv::SPV_INSTRUCTION_OP_LABEL), id(54)]
        + seq![spec_encode_word(5, spv::SPV_INSTRUCTION_OP_ACCESS_CHAIN), t.ptr_int_id, id(59), id(1), c.int_2]
        + seq![spec_encode_word(4, spv::SPV_INSTRUCTION_OP_LOAD), t.int_id, id(60), id(59)]
        + seq![spec_encode_word(5, spv::SPV_INSTRUCTION_OP_S_GREATER_THAN), t.bool_id, id(61), id(60), c.int_0]
        + seq![spec_encode_word(6, spv::SPV_INSTRUCTION_OP_SELECT), t.int_id, id(62), id(61), c.int_4, c.int_5]
        + seq![spec_encode_word(3, spv::SPV_INSTRUCTION_OP_STORE), id(8), id(62)]
        + seq![spec_encode_word(2, spv::SPV_INSTRUCTION_OP_BRANCH), id(52)]
}

/// Instructions 80 to 99 of the cube direction function, after `w`.
pub open spec fn cube_direction_part_4(
    w: Seq<u32>,
    ib: int,
    t: CubeDirectionTypeInputs,
    function_type: u32,
    c: CubeDirectionConstants,
    glsl_std_id: u32,
) -> Seq<u32> {
    let id = |k: int| (ib + k) as u32;
        w
        + seq![spec_encode_word(2, spv::SPV_INSTRUCTION_OP_LABEL), id(52)]
        + seq![spec_encode_word(4, spv::SPV_INSTRUCTION_OP_LOAD), t.int_id, id(63), id(8)]
        + seq![spec_encode_word(3, spv::SPV_INSTRUCTION_OP_STORE), id(7), id(63)]
        + seq![spec_encode_word(2, spv::SPV_INSTRUCTION_OP_BRANCH), id(44)]
        + seq![spec_encode_word(2, spv::SPV_INSTRUCTION_OP_LABEL), id(44)]
        + seq![spec_encode_word(4, spv::SPV_INSTRUCTION_OP_LOAD), t.int_id, id(64), id(7)]
        + seq![spec_encode_word(3, spv::SPV_INSTRUCTION_OP_STORE), id(6), id(64)]
        + seq![spec_encode_word(4, spv::SPV_INSTRUCTION_OP_LOAD), t.int_id, id(65), id(6)]
        + seq![spec_encode_word(5, spv::SPV_INSTRUCTION_OP_I_EQUAL), t.bool_id, id(66), id(65), c.int_0]
        + seq![spec_encode_word(3, spv::SPV_INSTRUCTION_OP_SELECTION_MERGE), id(67), 0]
        + seq![spec_encode_word(4, spv::SPV_INSTRUCTION_OP_BRANCH_CONDITIONAL), id(66), id(68), id(69)]
        + seq![spec_encode_word(2, spv::SPV_INSTRUCTION_OP_LABEL), id(68)]
        + seq![spec_encode_word(5, spv::SPV_INSTRUCTION_OP_ACCESS_CHAIN), t.ptr_int_id, id(70), id(1), c.int_2]
        + seq![spec_encode_word(4, spv::SPV_INSTRUCTION_OP_LOAD), t.int_id, id(71), id(70)]
        + seq![spec_encode_word(4, spv::SPV_INSTRUCTION_OP_S_NEGATE), t.int_id, id(72), id(71)]
        + seq![spec_encode_word(5, spv::SPV_INSTRUCTION_OP_ACCESS_CHAIN), t.ptr_int_id, id(73), id(1), c.int_1]
        + seq![spec_encode_word(4, spv::SPV_INSTRUCTION_OP_LOAD), t.int_id, id(74), id(73)]
        + seq![spec_encode_word(4, spv::SPV_INSTRUCTION_OP_S_NEGATE), t.int_id, id(75), id(74)]
        + seq![spec_encode_word(5, spv::SPV_INSTRUCTION_OP_COMPOSITE_CONSTRUCT), t.v2int_id, id(76), id(72), id(75)]
        + seq![spec_encode_word(3, spv::SPV_INSTRUCTION_OP_STORE), id(10), id(76)]
}

/// Instructions 100 to 119 of the cube direction function, after `w`.
pub open spec fn cube_direction_part_5(
    w: Seq<u32>,
    ib: int,
    t: CubeDirectionTypeInputs,
    function_type: u32,
    c: CubeDirectionConstants,
    glsl_std_id: u32,
) -> Seq<u32> {
    let id = |k: int| (ib + k) as u32;
        w
        + seq![spec_encode_word(2, spv::SPV_INSTRUCTION_OP_BRANCH), id(67)]
        + seq![spec_encode_word(2, spv::SPV_INSTRUCTION_OP_LABEL), id(69)]
        + seq![spec_encode_word(4, spv::SPV_INSTRUCTION_OP_LOAD), t.int_id, id(77), id(6)]
        + seq![spec_encode_word(5, spv::SPV_INSTRUCTION_OP_I_EQUAL), t.bool_id, id(78), id(77), c.int_1]
        + seq![spec_encode_word(3, spv::SPV_INSTRUCTION_OP_SELECTION_MERGE), id(79), 0]
        + seq![spec_encode_word(4, spv::SPV_INSTRUCTION_OP_BRANCH_CONDITIONAL), id(78), id(80), id(81)]
        + seq![spec_encode_word(2, spv::SPV_INSTRUCTION_OP_LABEL), id(80)]
        + seq![spec_encode_word(5, spv::SPV_INSTRUCTION_OP_ACCESS_CHAIN), t.ptr_int_id, id(82), id(1), c.int_2]
        + seq![spec_encode_word(4, spv::SPV_INSTRUCTION_OP_LOAD), t.int_id, id(83), id(82)]
        + seq![spec_encode_word(5, spv::SPV_INSTRUCTION_OP_ACCESS_CHAIN), t.ptr_int_id, id(84), id(1), c.int_1]
        + seq![spec_encode_word(4, spv::SPV_INSTRUCTION_OP_LOAD), t.int_id, id(85), id(84)]
        + seq![spec_encode_word(4, spv::SPV_INSTRUCTION_OP_S_NEGATE), t.int_id, id(86), id(85)]
        + seq![spec_encode_word(5, spv::SPV_INSTRUCTION_OP_COMPOSITE_CONSTRUCT), t.v2int_id, id(87), id(83), id(86)]
        + seq![spec_encode_word(3, spv::SPV_INSTRUCTION_OP_STORE), id(11), id(87)]
        + seq![spec_encode_word(2, spv::SPV_INSTRUCTION_OP_BRANCH), id(79)]
        + seq![spec_encode_word(2, spv::SPV_INSTRUCTION_OP_LABEL), id(81)]
        + seq![spec_encode_word(4, spv::SPV_INSTRUCTION_OP_LOAD), t.int_id, id(88), id(6)]
        + seq![spec_encode_word(5, spv::SPV_INSTRUCTION_OP_I_EQUAL), t.bool_id, id(89), id(88), c.int_2]
        + seq![spec_encode_word(3, spv::SPV_INSTRUCTION_OP_SELECTION_MERGE), id(90), 0]
        + seq![spec_encode_word(4, spv::SPV_INSTRUCTION_OP_BRANCH_CONDITIONAL), id(89), id(91), id(92)]
}

/// Instructions 120 to 139 of the cube direction function, after `w`.
pub open spec fn cube_direction_part_6(
    w: Seq<u32>,
    ib: int,
    t: CubeDirectionTypeInputs,
    function_type: u32,
    c: CubeDirectionConstants,
    glsl_std_id: u32,
) -> Seq<u32> {
    let id = |k: int| (ib + k) as u32;
        w
        + seq![spec_encode_word(2, spv::SPV_INSTRUCTION_OP_LABEL), id(91)]
        + seq![spec_encode_word(5, spv::SPV_INSTRUCTION_OP_ACCESS_CHAIN), t.ptr_int_id, id(93), id(1), c.int_0]
        + seq![spec_encode_word(4, spv::SPV_INSTRUCTION_OP_LOAD), t.int_id, id(94), id(93)]
        + seq![spec_encode_word(5, spv::SPV_INSTRUCTION_OP_ACCESS_CHAIN), t.ptr_int_id, id(95), id(1), c.int_2]
        + seq![spec_encode_word(4, spv::SPV_INSTRUCTION_OP_LOAD), t.int_id, id(96), id(95)]
        + seq![spec_encode_word(5, spv::SPV_INSTRUCTION_OP_COMPOSITE_CONSTRUCT), t.v2int_id, id(97), id(94), id(96)]
        + seq![spec_encode_word(3, spv::SPV_INSTRUCTION_OP_STORE), id(12), id(97)]
        + seq![spec_encode_word(2, spv::SPV_INSTRUCTION_OP_BRANCH), id(90)]
        + seq![spec_encode_word(2, spv::SPV_INSTRUCTION_OP_LABEL), id(92)]
        + seq![spec_encode_word(4, spv::SPV_INSTRUCTION_OP_LOAD), t.int_id, id(98), id(6)]
        + seq![spec_encode_word(5, spv::SPV_INSTRUCTION_OP_I_EQUAL), t.bool_id, id(99), id(98), c.int_3]
        + seq![spec_encode_word(3, spv::SPV_INSTRUCTION_OP_SELECTION_MERGE), id(100), 0]
        + seq![spec_encode_word(4, spv::SPV_INSTRUCTION_OP_BRANCH_CONDITIONAL), id(99), id(101), id(102)]
        + seq![spec_encode_word(2, spv::SPV_INSTRUCTION_OP_LABEL), id(101)]
        + seq![spec_encode_word(5, spv::SPV_INSTRUCTION_OP_ACCESS_CHAIN), t.ptr_int_id, id(103), id(1), c.int_0]
        + seq![spec_encode_word(4, spv::SPV_INSTRUCTION_OP_LOAD), t.int_id, id(104), id(103)]
        + seq![spec_encode_word(5, spv::SPV_INSTRUCTION_OP_ACCESS_CHAIN), t.ptr_int_id, id(105), id(1), c.int_2]
        + seq![spec_encode_word(4, spv::SPV_INSTRUCTION_OP_LOAD), t.int_id, id(106), id(105)]
        + seq![spec_encode_word(4, spv::SPV_INSTRUCTION_OP_S_NEGATE), t.int_id, id(107), id(106)]
        + seq![spec_encode_word(5, spv::SPV_INSTRUCTION_OP_COMPOSITE_CONSTRUCT), t.v2int_id, id(108), id(104), id(107)]
}

/// Instructions 140 to 159 of the cube direction function, after `w`.
pub open spec fn cube_direction_part_7(
    w: Seq<u32>,
    ib: int,
    t: CubeDirectionTypeInputs,
    function_type: u32,
    c: CubeDirectionConstants,
    glsl_std_id: u32,
) -> Seq<u32> {
    let id = |k: int| (ib + k) as u32;
        w
        + seq![spec_encode_word(3, spv::SPV_INSTRUCTION_OP_STORE), id(13), id(108)]
        + seq![spec_encode_word(2, spv::SPV_INSTRUCTION_OP_BRANCH), id(100)]
        + seq![spec_encode_word(2, spv::SPV_INSTRUCTION_OP_LABEL), id(102)]
        + seq![spec_encode_word(4, spv::SPV_INSTRUCTION_OP_LOAD), t.int_id, id(109), id(6)]
        + seq![spec_encode_word(5, spv::SPV_INSTRUCTION_OP_I_EQUAL), t.bool_id, id(110), id(109), c.int_4]
        + seq![spec_encode_word(3, spv::SPV_INSTRUCTION_OP_SELECTION_MERGE), id(111), 0]
        + seq![spec_encode_word(4, spv::SPV_INSTRUCTION_OP_BRANCH_CONDITIONAL), id(110), id(112), id(113)]
        + seq![spec_encode_word(2, spv::SPV_INSTRUCTION_OP_LABEL), id(112)]
        + seq![spec_encode_word(5, spv::SPV_INSTRUCTION_OP_ACCESS_CHAIN), t.ptr_int_id, id(114), id(1), c.int_0]
        + seq![spec_encode_word(4, spv::SPV_INSTRUCTION_OP_LOAD), t.int_id, id(115), id(114)]
        + seq![spec_encode_word(5, spv::SPV_INSTRUCTION_OP_ACCESS_CHAIN), t.ptr_int_id, id(116), id(1), c.int_1]
        + seq![spec_encode_word(4, spv::SPV_INSTRUCTION_OP_LOAD), t.int_id, id(117), id(116)]
        + seq![spec_encode_word(4, spv::SPV_INSTRUCTION_OP_S_NEGATE), t.int_id, id(118), id(117)]
        + seq![spec_encode_word(5, spv::SPV_INSTRUCTION_OP_COMPOSITE_CONSTRUCT), t.v2int_id, id(119), id(115), id(118)]
        + seq![spec_encode_word(3, spv::SPV_INSTRUCTION_OP_STORE), id(14), id(119)]
        + seq![spec_encode_word(2, spv::SPV_INSTRUCTION_OP_BRANCH), id(111)]
        + seq![spec_encode_word(2, spv::SPV_INSTRUCTION_OP_LABEL), id(113)]
        + seq![spec_encode_word(5, spv::SPV_INSTRUCTION_OP_ACCESS_CHAIN), t.ptr_int_id, id(120), id(1), c.int_0]
        + seq![spec_encode_word(4, spv::SPV_INSTRUCTION_OP_LOAD), t.int_id, id(121), id(120)]
        + seq![spec_encode_word(4, spv::SPV_INSTRUCTION_OP_S_NEGATE), t.int_id, id(122), id(121)]
}

/// Instructions 160 to 179 of the cube direction function, after `w`.
pub open spec fn cube_direction_part_8(
    w: Seq<u32>,
    ib: int,
    t: CubeDirectionTypeInputs,
    function_type: u32,
    c: CubeDirectionConstants,
    glsl_std_id: u32,
) -> Seq<u32> {
    let id = |k: int| (ib + k) as u32;
        w
        + seq![spec_encode_word(5, spv::SPV_INSTRUCTION_OP_ACCESS_CHAIN), t.ptr_int_id, id(123), id(1), c.int_1]
        + seq![spec_encode_word(4, spv::SPV_INSTRUCTION_OP_LOAD), t.int_id, id(124), id(123)]
        + seq![spec_encode_word(4, spv::SPV_INSTRUCTION_OP_S_NEGATE), t.int_id, id(125), id(124)]
        + seq![spec_encode_word(5, spv::SPV_INSTRUCTION_OP_COMPOSITE_CONSTRUCT), t.v2int_id, id(126), id(122), id(125)]
        + seq![spec_encode_word(3, spv::SPV_INSTRUCTION_OP_STORE), id(14), id(126)]
        + seq![spec_encode_word(2, spv::SPV_INSTRUCTION_OP_BRANCH), id(111)]
        + seq![spec_encode_word(2, spv::SPV_INSTRUCTION_OP_LABEL), id(111)]
        + seq![spec_encode_word(4, spv::SPV_INSTRUCTION_OP_LOAD), t.v2int_id, id(127), id(14)]
        + seq![spec_encode_word(3, spv::SPV_INSTRUCTION_OP_STORE), id(13), id(127)]
        + seq![spec_encode_word(2, spv::SPV_INSTRUCTION_OP_BRANCH), id(100)]
        + seq![spec_encode_word(2, spv::SPV_INSTRUCTION_OP_LABEL), id(100)]
        + seq![spec_encode_word(4, spv::SPV_INSTRUCTION_OP_LOAD), t.v2int_id, id(128), id(13)]
        + seq![spec_encode_word(3, spv::SPV_INSTRUCTION_OP_STORE), id(12), id(128)]
        + seq![spec_encode_word(2, spv::SPV_INSTRUCTION_OP_BRANCH), id(90)]
        + seq![spec_encode_word(2, spv::SPV_INSTRUCTION_OP_LABEL), id(90)]
        + seq![spec_encode_word(4, spv::SPV_INSTRUCTION_OP_LOAD), t.v2int_id, id(129), id(12)]
        + seq![spec_encode_word(3, spv::SPV_INSTRUCTION_OP_STORE), id(11), id(129)]
        + seq![spec_encode_word(2, spv::SPV_INSTRUCTION_OP_BRANCH), id(79)]
        + seq![spec_encode_word(2, spv::SPV_INSTRUCTION_OP_LABEL), id(79)]
        + seq![spec_encode_word(4, spv::SPV_INSTRUCTION_OP_LOAD), t.v2int_id, id(130), id(11)]
}

/// Instructions 180 to 191 of the cube direction function, after `w`.
pub open spec fn cube_direction_part_9(
    w: Seq<u32>,
    ib: int,
    t: CubeDirectionTypeInputs,
    function_type: u32,
    c: CubeDirectionConstants,
    glsl_std_id: u32,
) -> Seq<u32> {
    let id = |k: int| (ib + k) as u32;
        w
        + seq![spec_encode_word(3, spv::SPV_INSTRUCTION_OP_STORE), id(10), id(130)]
        + seq![spec_encode_word(2, spv::SPV_INSTRUCTION_OP_BRANCH), id(67)]
        + seq![spec_encode_word(2, spv::SPV_INSTRUCTION_OP_LABEL), id(67)]
        + seq![spec_encode_word(4, spv::SPV_INSTRUCTION_OP_LOAD), t.v2int_id, id(131), id(10)]
        + seq![spec_encode_word(3, spv::SPV_INSTRUCTION_OP_STORE), id(9), id(131)]
        + seq![spec_encode_word(4, spv::SPV_INSTRUCTION_OP_LOAD), t.v2int_id, id(132), id(9)]
        + seq![spec_encode_word(4, spv::SPV_INSTRUCTION_OP_LOAD), t.int_id, id(133), id(6)]
        + seq![spec_encode_word(5, spv::SPV_INSTRUCTION_OP_COMPOSITE_EXTRACT), t.int_id, id(134), id(132), 0]
        + seq![spec_encode_word(5, spv::SPV_INSTRUCTION_OP_COMPOSITE_EXTRACT), t.int_id, id(135), id(132), 1]
        + seq![spec_encode_word(6, spv::SPV_INSTRUCTION_OP_COMPOSITE_CONSTRUCT), t.v3int_id, id(136), id(134), id(135), id(133)]
        + seq![spec_encode_word(2, spv::SPV_INSTRUCTION_OP_RETURN_VALUE), id(136)]
        + seq![spec_encode_word(1, spv::SPV_INSTRUCTION_OP_FUNCTION_END)]
}

/// The function mapping a cube direction to a layer of a 2D array and a coordinate in it,
/// with ids `ib` (the function) to `ib + 136`: the face is chosen by the component of
/// largest magnitude and its sign, the coordinate from the other two components.
pub open spec fn cube_direction_words(
    ib: int,
    t: CubeDirectionTypeInputs,
    function_type: u32,
    c: CubeDirectionConstants,
    glsl_std_id: u32,
) -> Seq<u32> {
    cube_direction_part_9(cube_direction_part_8(cube_direction_part_7(cube_direction_part_6(cube_direction_part_5(cube_direction_part_4(cube_direction_part_3(cube_direction_part_2(cube_direction_part_1(cube_direction_part_0(Seq::empty(), ib, t, function_type, c, glsl_std_id), ib, t, function_type, c, glsl_std_id), ib, t, function_type, c, glsl_std_id), ib, t, function_type, c, glsl_std_id), ib, t, function_type, c, glsl_std_id), ib, t, function_type, c, glsl_std_id), ib, t, function_type, c, glsl_std_id), ib, t, function_type, c, glsl_std_id), ib, t, function_type, c, glsl_std_id), ib, t, function_type, c, glsl_std_id)
}

/// The face layer of a cube direction whose component of largest magnitude lies on `axis`
/// (0, 1, 2 for x, y, z) and has the value `v`: the faces +X, -X, +Y, -Y, +Z, -Z are the
/// layers 0 to 5.
pub open spec fn cube_face(axis: int, v: int) -> int {
    2 * axis + if v > 0 { 0int } else { 1int }
}

/// Where the block of the cube direction function that handles major axis `axis` starts,
/// the variable it stores the face into, and the label it branches to afterwards.
pub open spec fn axis_block(ib: int, axis: int) -> (int, u32, u32) {
    if axis == 0 {
        (220, (ib + 7) as u32, (ib + 44) as u32)
    } else if axis == 1 {
        (260, (ib + 8) as u32, (ib + 52) as u32)
    } else {
        (287, (ib + 8) as u32, (ib + 52) as u32)
    }
}

/// The values of the integer constants 0 to 5.
pub open spec fn cube_constants_hold(vals: Map<u32, int>, c: CubeDirectionConstants) -> bool {
    &&& vals.contains_key(c.int_0) && vals[c.int_0] == 0
    &&& vals.contains_key(c.int_1) && vals[c.int_1] == 1
    &&& vals.contains_key(c.int_2) && vals[c.int_2] == 2
    &&& vals.contains_key(c.int_3) && vals[c.int_3] == 3
    &&& vals.contains_key(c.int_4) && vals[c.int_4] == 4
    &&& vals.contains_key(c.int_5) && vals[c.int_5] == 5
}

proof fn lemma_cube_part_3_keeps(w: Seq<u32>,
    ib: int,
    t: CubeDirectionTypeInputs,
    function_type: u32,
    c: CubeDirectionConstants,
    glsl_std_id: u32,
)
    ensures
        cube_direction_part_3(w, ib, t, function_type, c, glsl_std_id).len() == w.len() + 72,
        forall|i: int| 0 <= i < w.len() ==> #[trigger] cube_direction_part_3(w, ib, t, function_type, c, glsl_std_id)[i] == w[i],
{
}

proof fn lemma_cube_part_4_keeps(w: Seq<u32>,
    ib: int,
    t: CubeDirectionTypeInputs,
    function_type: u32,
    c: CubeDirectionConstants,
    glsl_std_id: u32,
)
    ensures
        cube_direction_part_4(w, ib, t, function_type, c, glsl_std_id).len() == w.len() + 72,
        forall|i: int| 0 <= i < w.len() ==> #[trigger] cube_direction_part_4(w, ib, t, function_type, c, glsl_std_id)[i] == w[i],
{
}

proof fn lemma_cube_part_5_keeps(w: Seq<u32>,
    ib: int,
    t: CubeDirectionTypeInputs,
    function_type: u32,
    c: CubeDirectionConstants,
    glsl_std_id: u32,
)
    ensures
        cube_direction_part_5(w, ib, t, function_type, c, glsl_std_id).len() == w.len() + 72,
        forall|i: int| 0 <= i < w.len() ==> #[trigger] cube_direction_part_5(w, ib, t, function_type, c, glsl_std_id)[i] == w[i],
{
}

proof fn lemma_cube_part_6_keeps(w: Seq<u32>,
    ib: int,
    t: CubeDirectionTypeInputs,
    function_type: u32,
    c: CubeDirectionConstants,
    glsl_std_id: u32,
)
    ensures
        cube_direction_part_6(w, ib, t, function_type, c, glsl_std_id).len() == w.len() + 77,
        forall|i: int| 0 <= i < w.len() ==> #[trigger] cube_direction_part_6(w, ib, t, function_type, c, glsl_std_id)[i] == w[i],
{
}

proof fn lemma_cube_part_7_keeps(w: Seq<u32>,
    ib: int,
    t: CubeDirectionTypeInputs,
    function_type: u32,
    c: CubeDirectionConstants,
    glsl_std_id: u32,
)
    ensures
        cube_direction_part_7(w, ib, t, function_type, c, glsl_std_id).len() == w.len() + 72,
        forall|i: int| 0 <= i < w.len() ==> #[trigger] cube_direction_part_7(w, ib, t, function_type, c, glsl_std_id)[i] == w[i],
{
}

proof fn lemma_cube_part_8_keeps(w: Seq<u32>,
    ib: int,
    t: CubeDirectionTypeInputs,
    function_type: u32,
    c: CubeDirectionConstants,
    glsl_std_id: u32,
)
    ensures
        cube_direction_part_8(w, ib, t, function_type, c, glsl_std_id).len() == w.len() + 62,
        forall|i: int| 0 <= i < w.len() ==> #[trigger] cube_direction_part_8(w, ib, t, function_type, c, glsl_std_id)[i] == w[i],
{
}

proof fn lemma_cube_part_9_keeps(w: Seq<u32>,
    ib: int,
    t: CubeDirectionTypeInputs,
    function_type: u32,
    c: CubeDirectionConstants,
    glsl_std_id: u32,
)
    ensures
        cube_direction_part_9(w, ib, t, function_type, c, glsl_std_id).len() == w.len() + 41,
        forall|i: int| 0 <= i < w.len() ==> #[trigger] cube_direction_part_9(w, ib, t, function_type, c, glsl_std_id)[i] == w[i],
{
}

/// The later parts of the cube direction function keep the words of the earlier ones.
#[verifier::spinoff_prover]
#[verifier::rlimit(60)]
proof fn lemma_cube_prefix(
    ib: int,
    t: CubeDirectionTypeInputs,
    function_type: u32,
    c: CubeDirectionConstants,
    glsl_std_id: u32,
)
    ensures
        cube_direction_part_2(cube_direction_part_1(cube_direction_part_0(Seq::empty(), ib, t, function_type, c, glsl_std_id), ib, t, function_type, c, glsl_std_id), ib, t, function_type, c, glsl_std_id).len() == 242,
        cube_direction_part_3(cube_direction_part_2(cube_direction_part_1(cube_direction_part_0(Seq::empty(), ib, t, function_type, c, glsl_std_id), ib, t, function_type, c, glsl_std_id), ib, t, function_type, c, glsl_std_id), ib, t, function_type, c, glsl_std_id).len() == 314,
        cube_direction_words(ib, t, function_type, c, glsl_std_id).len() == 710,
        forall|i: int| 0 <= i < 314 ==> #[trigger] cube_direction_words(ib, t, function_type, c, glsl_std_id)[i] == cube_direction_part_3(cube_direction_part_2(cube_direction_part_1(cube_direction_part_0(Seq::empty(), ib, t, function_type, c, glsl_std_id), ib, t, function_type, c, glsl_std_id), ib, t, function_type, c, glsl_std_id), ib, t, function_type, c, glsl_std_id)[i],
        forall|i: int| 0 <= i < 242 ==> #[trigger] cube_direction_part_3(cube_direction_part_2(cube_direction_part_1(cube_direction_part_0(Seq::empty(), ib, t, function_type, c, glsl_std_id), ib, t, function_type, c, glsl_std_id), ib, t, function_type, c, glsl_std_id), ib, t, function_type, c, glsl_std_id)[i] == cube_direction_part_2(cube_direction_part_1(cube_direction_part_0(Seq::empty(), ib, t, function_type, c, glsl_std_id), ib, t, function_type, c, glsl_std_id), ib, t, function_type, c, glsl_std_id)[i],
{
    let p0 = cube_direction_part_0(Seq::empty(), ib, t, function_type, c, glsl_std_id);
    let p1 = cube_direction_part_1(p0, ib, t, function_type, c, glsl_std_id);
    let p2 = cube_direction_part_2(p1, ib, t, function_type, c, glsl_std_id);
    let p3 = cube_direction_part_3(p2, ib, t, function_type, c, glsl_std_id);
    let p4 = cube_direction_part_4(p3, ib, t, function_type, c, glsl_std_id);
    let p5 = cube_direction_part_5(p4, ib, t, function_type, c, glsl_std_id);
    let p6 = cube_direction_part_6(p5, ib, t, function_type, c, glsl_std_id);
    let p7 = cube_direction_part_7(p6, ib, t, function_type, c, glsl_std_id);
    let p8 = cube_direction_part_8(p7, ib, t, function_type, c, glsl_std_id);
    let p9 = cube_direction_part_9(p8, ib, t, function_type, c, glsl_std_id);
    lemma_cube_part_3_keeps(p2, ib, t, function_type, c, glsl_std_id);
    lemma_cube_part_4_keeps(p3, ib, t, function_type, c, glsl_std_id);
    lemma_cube_part_5_keeps(p4, ib, t, function_type, c, glsl_std_id);
    lemma_cube_part_6_keeps(p5, ib, t, function_type, c, glsl_std_id);
    lemma_cube_part_7_keeps(p6, ib, t, function_type, c, glsl_std_id);
    lemma_cube_part_8_keeps(p7, ib, t, function_type, c, glsl_std_id);
    lemma_cube_part_9_keeps(p8, ib, t, function_type, c, glsl_std_id);
    assert(p2.len() == 242);
    assert forall|i: int| 0 <= i < 314 implies #[trigger] p9[i] == p3[i] by {
        assert(p9[i] == p8[i]);
        assert(p8[i] == p7[i]);
        assert(p7[i] == p6[i]);
        assert(p6[i] == p5[i]);
        assert(p5[i] == p4[i]);
        assert(p4[i] == p3[i]);
    }
}

#[verifier::spinoff_prover]
#[verifier::rlimit(60)]
proof fn lemma_cube_block_words_0(
    ib: int,
    t: CubeDirectionTypeInputs,
    function_type: u32,
    c: CubeDirectionConstants,
    glsl_std_id: u32,
)
    ensures
        cube_direction_words(ib, t, function_type, c, glsl_std_id)[220] == spec_encode_word(2, spv::SPV_INSTRUCTION_OP_LABEL),
        cube_direction_words(ib, t, function_type, c, glsl_std_id)[222] == spec_encode_word(5, spv::SPV_INSTRUCTION_OP_ACCESS_CHAIN),
        cube_direction_words(ib, t, function_type, c, glsl_std_id)[224] == (ib + 47) as u32,
        cube_direction_words(ib, t, function_type, c, glsl_std_id)[225] == (ib + 1) as u32,
        cube_direction_words(ib, t, function_type, c, glsl_std_id)[226] == c.int_0,
        cube_direction_words(ib, t, function_type, c, glsl_std_id)[227] == spec_encode_word(4, spv::SPV_INSTRUCTION_OP_LOAD),
        cube_direction_words(ib, t, function_type, c, glsl_std_id)[229] == (ib + 48) as u32,
        cube_direction_words(ib, t, function_type, c, glsl_std_id)[230] == (ib + 47) as u32,
        cube_direction_words(ib, t, function_type, c, glsl_std_id)[231] == spec_encode_word(5, spv::SPV_INSTRUCTION_OP_S_GREATER_THAN),
        cube_direction_words(ib, t, function_type, c, glsl_std_id)[233] == (ib + 49) as u32,
        cube_direction_words(ib, t, function_type, c, glsl_std_id)[234] == (ib + 48) as u32,
        cube_direction_words(ib, t, function_type, c, glsl_std_id)[235] == c.int_0,
        cube_direction_words(ib, t, function_type, c, glsl_std_id)[236] == spec_encode_word(6, spv::SPV_INSTRUCTION_OP_SELECT),
        cube_direction_words(ib, t, function_type, c, glsl_std_id)[238] == (ib + 50) as u32,
        cube_direction_words(ib, t, function_type, c, glsl_std_id)[239] == (ib + 49) as u32,
        cube_direction_words(ib, t, function_type, c, glsl_std_id)[240] == c.int_0,
        cube_direction_words(ib, t, function_type, c, glsl_std_id)[241] == c.int_1,
        cube_direction_words(ib, t, function_type, c, glsl_std_id)[242] == spec_encode_word(3, spv::SPV_INSTRUCTION_OP_STORE),
        cube_direction_words(ib, t, function_type, c, glsl_std_id)[243] == (ib + 7) as u32,
        cube_direction_words(ib, t, function_type, c, glsl_std_id)[244] == (ib + 50) as u32,
        cube_direction_words(ib, t, function_type, c, glsl_std_id)[245] == spec_encode_word(2, spv::SPV_INSTRUCTION_OP_BRANCH),
        cube_direction_words(ib, t, function_type, c, glsl_std_id)[246] == (ib + 44) as u32,
{
    lemma_cube_prefix(ib, t, function_type, c, glsl_std_id);
    let p2 = cube_direction_part_2(cube_direction_part_1(cube_direction_part_0(Seq::empty(), ib, t, function_type, c, glsl_std_id), ib, t, function_type, c, glsl_std_id), ib, t, function_type, c, glsl_std_id);
    let p3 = cube_direction_part_3(p2, ib, t, function_type, c, glsl_std_id);
    let w = cube_direction_words(ib, t, function_type, c, glsl_std_id);
    assert(w[220] == p3[220] && p3[220] == p2[220]);
    assert(w[222] == p3[222] && p3[222] == p2[222]);
    assert(w[224] == p3[224] && p3[224] == p2[224]);
    assert(w[225] == p3[225] && p3[225] == p2[225]);
    assert(w[226] == p3[226] && p3[226] == p2[226]);
    assert(w[227] == p3[227] && p3[227] == p2[227]);
    assert(w[229] == p3[229] && p3[229] == p2[229]);
    assert(w[230] == p3[230] && p3[230] == p2[230]);
    assert(w[231] == p3[231] && p3[231] == p2[231]);
    assert(w[233] == p3[233] && p3[233] == p2[233]);
    assert(w[234] == p3[234] && p3[234] == p2[234]);
    assert(w[235] == p3[235] && p3[235] == p2[235]);
    assert(w[236] == p3[236] && p3[236] == p2[236]);
    assert(w[238] == p3[238] && p3[238] == p2[238]);
    assert(w[239] == p3[239] && p3[239] == p2[239]);
    assert(w[240] == p3[240] && p3[240] == p2[240]);
    assert(w[241] == p3[241] && p3[241] == p2[241]);
    assert(w[242] == p3[242]);
    assert(w[243] == p3[243]);
    assert(w[244] == p3[244]);
    assert(w[245] == p3[245]);
    assert(w[246] == p3[246]);
}

#[verifier::spinoff_prover]
#[verifier::rlimit(60)]
proof fn lemma_cube_block_words_1(
    ib: int,
    t: CubeDirectionTypeInputs,
    function_type: u32,
    c: CubeDirectionConstants,
    glsl_std_id: u32,
)
    ensures
        cube_direction_words(ib, t, function_type, c, glsl_std_id)[260] == spec_encode_word(2, spv::SPV_INSTRUCTION_OP_LABEL),
        cube_direction_words(ib, t, function_type, c, glsl_std_id)[262] == spec_encode_word(5, spv::SPV_INSTRUCTION_OP_ACCESS_CHAIN),
        cube_direction_words(ib, t, function_type, c, glsl_std_id)[264] == (ib + 55) as u32,
        cube_direction_words(ib, t, function_type, c, glsl_std_id)[265] == (ib + 1) as u32,
        cube_direction_words(ib, t, function_type, c, glsl_std_id)[266] == c.int_1,
        cube_direction_words(ib, t, function_type, c, glsl_std_id)[267] == spec_encode_word(4, spv::SPV_INSTRUCTION_OP_LOAD),
        cube_direction_words(ib, t, function_type, c, glsl_std_id)[269] == (ib + 56) as u32,
        cube_direction_words(ib, t, function_type, c, glsl_std_id)[270] == (ib + 55) as u32,
        cube_direction_words(ib, t, function_type, c, glsl_std_id)[271] == spec_encode_word(5, spv::SPV_INSTRUCTION_OP_S_GREATER_THAN),
        cube_direction_words(ib, t, function_type, c, glsl_std_id)[273] == (ib + 57) as u32,
        cube_direction_words(ib, t, function_type, c, glsl_std_id)[274] == (ib + 56) as u32,
        cube_direction_words(ib, t, function_type, c, glsl_std_id)[275] == c.int_0,
        cube_direction_words(ib, t, function_type, c, glsl_std_id)[276] == spec_encode_word(6, spv::SPV_INSTRUCTION_OP_SELECT),
        cube_direction_words(ib, t, function_type, c, glsl_std_id)[278] == (ib + 58) as u32,
        cube_direction_words(ib, t, function_type, c, glsl_std_id)[279] == (ib + 57) as u32,
        cube_direction_words(ib, t, function_type, c, glsl_std_id)[280] == c.int_2,
        cube_direction_words(ib, t, function_type, c, glsl_std_id)[281] == c.int_3,
        cube_direction_words(ib, t, function_type, c, glsl_std_id)[282] == spec_encode_word(3, spv::SPV_INSTRUCTION_OP_STORE),
        cube_direction_words(ib, t, function_type, c, glsl_std_id)[283] == (ib + 8) as u32,
        cube_direction_words(ib, t, function_type, c, glsl_std_id)[284] == (ib + 58) as u32,
        cube_direction_words(ib, t, function_type, c, glsl_std_id)[285] == spec_encode_word(2, spv::SPV_INSTRUCTION_OP_BRANCH),
        cube_direction_words(ib, t, function_type, c, glsl_std_id)[286] == (ib + 52) as u32,
{
    lemma_cube_prefix(ib, t, function_type, c, glsl_std_id);
    let p2 = cube_direction_part_2(cube_direction_part_1(cube_direction_part_0(Seq::empty(), ib, t, function_type, c, glsl_std_id), ib, t, function_type, c, glsl_std_id), ib, t, function_type, c, glsl_std_id);
    let p3 = cube_direction_part_3(p2, ib, t, function_type, c, glsl_std_id);
    let w = cube_direction_words(ib, t, function_type, c, glsl_std_id);
    assert(w[260] == p3[260]);
    assert(w[262] == p3[262]);
    assert(w[264] == p3[264]);
    assert(w[265] == p3[265]);
    assert(w[266] == p3[266]);
    assert(w[267] == p3[267]);
    assert(w[269] == p3[269]);
    assert(w[270] == p3[270]);
    assert(w[271] == p3[271]);
    assert(w[273] == p3[273]);
    assert(w[274] == p3[274]);
    assert(w[275] == p3[275]);
    assert(w[276] == p3[276]);
    assert(w[278] == p3[278]);
    assert(w[279] == p3[279]);
    assert(w[280] == p3[280]);
    assert(w[281] == p3[281]);
    assert(w[282] == p3[282]);
    assert(w[283] == p3[283]);
    assert(w[284] == p3[284]);
    assert(w[285] == p3[285]);
    assert(w[286] == p3[286]);
}

#[verifier::spinoff_prover]
#[verifier::rlimit(60)]
proof fn lemma_cube_block_words_2(
    ib: int,
    t: CubeDirectionTypeInputs,
    function_type: u32,
    c: CubeDirectionConstants,
    glsl_std_id: u32,
)
    ensures
        cube_direction_words(ib, t, function_type, c, glsl_std_id)[287] == spec_encode_word(2, spv::SPV_INSTRUCTION_OP_LABEL),
        cube_direction_words(ib, t, function_type, c, glsl_std_id)[289] == spec_encode_word(5, spv::SPV_INSTRUCTION_OP_ACCESS_CHAIN),
        cube_direction_words(ib, t, function_type, c, glsl_std_id)[291] == (ib + 59) as u32,
        cube_direction_words(ib, t, function_type, c, glsl_std_id)[292] == (ib + 1) as u32,
        cube_direction_words(ib, t, function_type, c, glsl_std_id)[293] == c.int_2,
        cube_direction_words(ib, t, function_type, c, glsl_std_id)[294] == spec_encode_word(4, spv::SPV_INSTRUCTION_OP_LOAD),
        cube_direction_words(ib, t, function_type, c, glsl_std_id)[296] == (ib + 60) as u32,
        cube_direction_words(ib, t, function_type, c, glsl_std_id)[297] == (ib + 59) as u32,
        cube_direction_words(ib, t, function_type, c, glsl_std_id)[298] == spec_encode_word(5, spv::SPV_INSTRUCTION_OP_S_GREATER_THAN),
        cube_direction_words(ib, t, function_type, c, glsl_std_id)[300] == (ib + 61) as u32,
        cube_direction_words(ib, t, function_type, c, glsl_std_id)[301] == (ib + 60) as u32,
        cube_direction_words(ib, t, function_type, c, glsl_std_id)[302] == c.int_0,
        cube_direction_words(ib, t, function_type, c, glsl_std_id)[303] == spec_encode_word(6, spv::SPV_INSTRUCTION_OP_SELECT),
        cube_direction_words(ib, t, function_type, c, glsl_std_id)[305] == (ib + 62) as u32,
        cube_direction_words(ib, t, function_type, c, glsl_std_id)[306] == (ib + 61) as u32,
        cube_direction_words(ib, t, function_type, c, glsl_std_id)[307] == c.int_4,
        cube_direction_words(ib, t, function_type, c, glsl_std_id)[308] == c.int_5,
        cube_direction_words(ib, t, function_type, c, glsl_std_id)[309] == spec_encode_word(3, spv::SPV_INSTRUCTION_OP_STORE),
        cube_direction_words(ib, t, function_type, c, glsl_std_id)[310] == (ib + 8) as u32,
        cube_direction_words(ib, t, function_type, c, glsl_std_id)[311] == (ib + 62) as u32,
        cube_direction_words(ib, t, function_type, c, glsl_std_id)[312] == spec_encode_word(2, spv::SPV_INSTRUCTION_OP_BRANCH),
        cube_direction_words(ib, t, function_type, c, glsl_std_id)[313] == (ib + 52) as u32,
{
    lemma_cube_prefix(ib, t, function_type, c, glsl_std_id);
    let p2 = cube_direction_part_2(cube_direction_part_1(cube_direction_part_0(Seq::empty(), ib, t, function_type, c, glsl_std_id), ib, t, function_type, c, glsl_std_id), ib, t, function_type, c, glsl_std_id);
    let p3 = cube_direction_part_3(p2, ib, t, function_type, c, glsl_std_id);
    let w = cube_direction_words(ib, t, function_type, c, glsl_std_id);
    assert(w[287] == p3[287]);
    assert(w[289] == p3[289]);
    assert(w[291] == p3[291]);
    assert(w[292] == p3[292]);
    assert(w[293] == p3[293]);
    assert(w[294] == p3[294]);
    assert(w[296] == p3[296]);
    assert(w[297] == p3[297]);
    assert(w[298] == p3[298]);
    assert(w[300] == p3[300]);
    assert(w[301] == p3[301]);
    assert(w[302] == p3[302]);
    assert(w[303] == p3[303]);
    assert(w[305] == p3[305]);
    assert(w[306] == p3[306]);
    assert(w[307] == p3[307]);
    assert(w[308] == p3[308]);
    assert(w[309] == p3[309]);
    assert(w[310] == p3[310]);
    assert(w[311] == p3[311]);
    assert(w[312] == p3[312]);
    assert(w[313] == p3[313]);
}

proof fn lemma_axis_block_run_0(w: Seq<u32>, ib: int, c: CubeDirectionConstants, f: Frame)
    requires
        0 <= ib,
        ib + 137 <= u32::MAX,
        w.len() == 710,
        cube_constants_hold(f.vals, c),
        !(ib <= c.int_0 < ib + 137) && !(ib <= c.int_1 < ib + 137) && !(ib <= c.int_2 < ib + 137),
        !(ib <= c.int_3 < ib + 137) && !(ib <= c.int_4 < ib + 137) && !(ib <= c.int_5 < ib + 137),
        f.ptrs.contains_key((ib + 1) as u32),
        f.ptrs.contains_key(axis_block(ib, 0).1),
        f.mem.contains_key((f.ptrs[(ib + 1) as u32].0, 0int)),
        w[220] == spec_encode_word(2, spv::SPV_INSTRUCTION_OP_LABEL),
        w[222] == spec_encode_word(5, spv::SPV_INSTRUCTION_OP_ACCESS_CHAIN),
        w[224] == (ib + 47) as u32,
        w[225] == (ib + 1) as u32,
        w[226] == c.int_0,
        w[227] == spec_encode_word(4, spv::SPV_INSTRUCTION_OP_LOAD),
        w[229] == (ib + 48) as u32,
        w[230] == (ib + 47) as u32,
        w[231] == spec_encode_word(5, spv::SPV_INSTRUCTION_OP_S_GREATER_THAN),
        w[233] == (ib + 49) as u32,
        w[234] == (ib + 48) as u32,
        w[235] == c.int_0,
        w[236] == spec_encode_word(6, spv::SPV_INSTRUCTION_OP_SELECT),
        w[238] == (ib + 50) as u32,
        w[239] == (ib + 49) as u32,
        w[240] == c.int_0,
        w[241] == c.int_1,
        w[242] == spec_encode_word(3, spv::SPV_INSTRUCTION_OP_STORE),
        w[243] == (ib + 7) as u32,
        w[244] == (ib + 50) as u32,
        w[245] == spec_encode_word(2, spv::SPV_INSTRUCTION_OP_BRANCH),
        w[246] == (ib + 44) as u32,
    ensures
        ({
            let b = axis_block(ib, 0);
            let v = f.mem[(f.ptrs[(ib + 1) as u32].0, 0int)];
            run(w, b.0, f, 10) matches Outcome::Branched(l, g) && l == b.2 && g.mem.contains_key(f.ptrs[b.1])
                && g.mem[f.ptrs[b.1]] == cube_face(0, signed(v))
        }),
{
    crate::util::lemma_split_encode(2, spv::SPV_INSTRUCTION_OP_LABEL);
    let st1 = exec(w, 220, spv::SPV_INSTRUCTION_OP_LABEL as int, f)->Some_0;
    lemma_run_step(w, 220, f, 10);
    crate::util::lemma_split_encode(5, spv::SPV_INSTRUCTION_OP_ACCESS_CHAIN);
    let st2 = exec(w, 222, spv::SPV_INSTRUCTION_OP_ACCESS_CHAIN as int, st1)->Some_0;
    lemma_run_step(w, 222, st1, 9);
    crate::util::lemma_split_encode(4, spv::SPV_INSTRUCTION_OP_LOAD);
    let st3 = exec(w, 227, spv::SPV_INSTRUCTION_OP_LOAD as int, st2)->Some_0;
    lemma_run_step(w, 227, st2, 8);
    crate::util::lemma_split_encode(5, spv::SPV_INSTRUCTION_OP_S_GREATER_THAN);
    let st4 = exec(w, 231, spv::SPV_INSTRUCTION_OP_S_GREATER_THAN as int, st3)->Some_0;
    lemma_run_step(w, 231, st3, 7);
    crate::util::lemma_split_encode(6, spv::SPV_INSTRUCTION_OP_SELECT);
    let st5 = exec(w, 236, spv::SPV_INSTRUCTION_OP_SELECT as int, st4)->Some_0;
    lemma_run_step(w, 236, st4, 6);
    crate::util::lemma_split_encode(3, spv::SPV_INSTRUCTION_OP_STORE);
    let st6 = exec(w, 242, spv::SPV_INSTRUCTION_OP_STORE as int, st5)->Some_0;
    lemma_run_step(w, 242, st5, 5);
    crate::util::lemma_split_encode(2, spv::SPV_INSTRUCTION_OP_BRANCH);
}

proof fn lemma_axis_block_run_1(w: Seq<u32>, ib: int, c: CubeDirectionConstants, f: Frame)
    requires
        0 <= ib,
        ib + 137 <= u32::MAX,
        w.len() == 710,
        cube_constants_hold(f.vals, c),
        !(ib <= c.int_0 < ib + 137) && !(ib <= c.int_1 < ib + 137) && !(ib <= c.int_2 < ib + 137),
        !(ib <= c.int_3 < ib + 137) && !(ib <= c.int_4 < ib + 137) && !(ib <= c.int_5 < ib + 137),
        f.ptrs.contains_key((ib + 1) as u32),
        f.ptrs.contains_key(axis_block(ib, 1).1),
        f.mem.contains_key((f.ptrs[(ib + 1) as u32].0, 1int)),
        w[260] == spec_encode_word(2, spv::SPV_INSTRUCTION_OP_LABEL),
        w[262] == spec_encode_word(5, spv::SPV_INSTRUCTION_OP_ACCESS_CHAIN),
        w[264] == (ib + 55) as u32,
        w[265] == (ib + 1) as u32,
        w[266] == c.int_1,
        w[267] == spec_encode_word(4, spv::SPV_INSTRUCTION_OP_LOAD),
        w[269] == (ib + 56) as u32,
        w[270] == (ib + 55) as u32,
        w[271] == spec_encode_word(5, spv::SPV_INSTRUCTION_OP_S_GREATER_THAN),
        w[273] == (ib + 57) as u32,
        w[274] == (ib + 56) as u32,
        w[275] == c.int_0,
        w[276] == spec_encode_word(6, spv::SPV_INSTRUCTION_OP_SELECT),
        w[278] == (ib + 58) as u32,
        w[279] == (ib + 57) as u32,
        w[280] == c.int_2,
        w[281] == c.int_3,
        w[282] == spec_encode_word(3, spv::SPV_INSTRUCTION_OP_STORE),
        w[283] == (ib + 8) as u32,
        w[284] == (ib + 58) as u32,
        w[285] == spec_encode_word(2, spv::SPV_INSTRUCTION_OP_BRANCH),
        w[286] == (ib + 52) as u32,
    ensures
        ({
            let b = axis_block(ib, 1);
            let v = f.mem[(f.ptrs[(ib + 1) as u32].0, 1int)];
            run(w, b.0, f, 10) matches Outcome::Branched(l, g) && l == b.2 && g.mem.contains_key(f.ptrs[b.1])
                && g.mem[f.ptrs[b.1]] == cube_face(1, signed(v))
        }),
{
    crate::util::lemma_split_encode(2, spv::SPV_INSTRUCTION_OP_LABEL);
    let st1 = exec(w, 260, spv::SPV_INSTRUCTION_OP_LABEL as int, f)->Some_0;
    lemma_run_step(w, 260, f, 10);
    crate::util::lemma_split_encode(5, spv::SPV_INSTRUCTION_OP_ACCESS_CHAIN);
    let st2 = exec(w, 262, spv::SPV_INSTRUCTION_OP_ACCESS_CHAIN as int, st1)->Some_0;
    lemma_run_step(w, 262, st1, 9);
    crate::util::lemma_split_encode(4, spv::SPV_INSTRUCTION_OP_LOAD);
    let st3 = exec(w, 267, spv::SPV_INSTRUCTION_OP_LOAD as int, st2)->Some_0;
    lemma_run_step(w, 267, st2, 8);
    crate::util::lemma_split_encode(5, spv::SPV_INSTRUCTION_OP_S_GREATER_THAN);
    let st4 = exec(w, 271, spv::SPV_INSTRUCTION_OP_S_GREATER_THAN as int, st3)->Some_0;
    lemma_run_step(w, 271, st3, 7);
    crate::util::lemma_split_encode(6, spv::SPV_INSTRUCTION_OP_SELECT);
    let st5 = exec(w, 276, spv::SPV_INSTRUCTION_OP_SELECT as int, st4)->Some_0;
    lemma_run_step(w, 276, st4, 6);
    crate::util::lemma_split_encode(3, spv::SPV_INSTRUCTION_OP_STORE);
    let st6 = exec(w, 282, spv::SPV_INSTRUCTION_OP_STORE as int, st5)->Some_0;
    lemma_run_step(w, 282, st5, 5);
    crate::util::lemma_split_encode(2, spv::SPV_INSTRUCTION_OP_BRANCH);
}

proof fn lemma_axis_block_run_2(w: Seq<u32>, ib: int, c: CubeDirectionConstants, f: Frame)
    requires
        0 <= ib,
        ib + 137 <= u32::MAX,
        w.len() == 710,
        cube_constants_hold(f.vals, c),
        !(ib <= c.int_0 < ib + 137) && !(ib <= c.int_1 < ib + 137) && !(ib <= c.int_2 < ib + 137),
        !(ib <= c.int_3 < ib + 137) && !(ib <= c.int_4 < ib + 137) && !(ib <= c.int_5 < ib + 137),
        f.ptrs.contains_key((ib + 1) as u32),
        f.ptrs.contains_key(axis_block(ib, 2).1),
        f.mem.contains_key((f.ptrs[(ib + 1) as u32].0, 2int)),
        w[287] == spec_encode_word(2, spv::SPV_INSTRUCTION_OP_LABEL),
        w[289] == spec_encode_word(5, spv::SPV_INSTRUCTION_OP_ACCESS_CHAIN),
        w[291] == (ib + 59) as u32,
        w[292] == (ib + 1) as u32,
        w[293] == c.int_2,
        w[294] == spec_encode_word(4, spv::SPV_INSTRUCTION_OP_LOAD),
        w[296] == (ib + 60) as u32,
        w[297] == (ib + 59) as u32,
        w[298] == spec_encode_word(5, spv::SPV_INSTRUCTION_OP_S_GREATER_THAN),
        w[300] == (ib + 61) as u32,
        w[301] == (ib + 60) as u32,
        w[302] == c.int_0,
        w[303] == spec_encode_word(6, spv::SPV_INSTRUCTION_OP_SELECT),
        w[305] == (ib + 62) as u32,
        w[306] == (ib + 61) as u32,
        w[307] == c.int_4,
        w[308] == c.int_5,
        w[309] == spec_encode_word(3, spv::SPV_INSTRUCTION_OP_STORE),
        w[310] == (ib + 8) as u32,
        w[311] == (ib + 62) as u32,
        w[312] == spec_encode_word(2, spv::SPV_INSTRUCTION_OP_BRANCH),
        w[313] == (ib + 52) as u32,
    ensures
        ({
            let b = axis_block(ib, 2);
            let v = f.mem[(f.ptrs[(ib + 1) as u32].0, 2int)];
            run(w, b.0, f, 10) matches Outcome::Branched(l, g) && l == b.2 && g.mem.contains_key(f.ptrs[b.1])
                && g.mem[f.ptrs[b.1]] == cube_face(2, signed(v))
        }),
{
    crate::util::lemma_split_encode(2, spv::SPV_INSTRUCTION_OP_LABEL);
    let st1 = exec(w, 287, spv::SPV_INSTRUCTION_OP_LABEL as int, f)->Some_0;
    lemma_run_step(w, 287, f, 10);
    crate::util::lemma_split_encode(5, spv::SPV_INSTRUCTION_OP_ACCESS_CHAIN);
    let st2 = exec(w, 289, spv::SPV_INSTRUCTION_OP_ACCESS_CHAIN as int, st1)->Some_0;
    lemma_run_step(w, 289, st1, 9);
    crate::util::lemma_split_encode(4, spv::SPV_INSTRUCTION_OP_LOAD);
    let st3 = exec(w, 294, spv::SPV_INSTRUCTION_OP_LOAD as int, st2)->Some_0;
    lemma_run_step(w, 294, st2, 8);
    crate::util::lemma_split_encode(5, spv::SPV_INSTRUCTION_OP_S_GREATER_THAN);
    let st4 = exec(w, 298, spv::SPV_INSTRUCTION_OP_S_GREATER_THAN as int, st3)->Some_0;
    lemma_run_step(w, 298, st3, 7);
    crate::util::lemma_split_encode(6, spv::SPV_INSTRUCTION_OP_SELECT);
    let st5 = exec(w, 303, spv::SPV_INSTRUCTION_OP_SELECT as int, st4)->Some_0;
    lemma_run_step(w, 303, st4, 6);
    crate::util::lemma_split_encode(3, spv::SPV_INSTRUCTION_OP_STORE);
    let st6 = exec(w, 309, spv::SPV_INSTRUCTION_OP_STORE as int, st5)->Some_0;
    lemma_run_step(w, 309, st5, 5);
    crate::util::lemma_split_encode(2, spv::SPV_INSTRUCTION_OP_BRANCH);
}

/// The block of the cube direction function that handles a direction of major axis `axis`
/// stores the face of that axis and of the sign of the direction's component on it: run
/// from the block's start, in any state where the parameter points to the direction and the
/// face variable is declared, it branches to its merge label with `2 * axis` stored when the
/// component is positive and `2 * axis + 1` when it is not (a major +Z axis gives layer 4,
/// -Z layer 5).
#[verifier::rlimit(40)]
pub proof fn lemma_cube_axis_block_face(
    ib: int,
    t: CubeDirectionTypeInputs,
    function_type: u32,
    c: CubeDirectionConstants,
    glsl_std_id: u32,
    axis: int,
    f: Frame,
)
    requires
        0 <= ib,
        ib + 137 <= u32::MAX,
        0 <= axis < 3,
        cube_constants_hold(f.vals, c),
        !(ib <= c.int_0 < ib + 137) && !(ib <= c.int_1 < ib + 137) && !(ib <= c.int_2 < ib + 137),
        !(ib <= c.int_3 < ib + 137) && !(ib <= c.int_4 < ib + 137) && !(ib <= c.int_5 < ib + 137),
        f.ptrs.contains_key((ib + 1) as u32),
        f.ptrs.contains_key(axis_block(ib, axis).1),
        f.mem.contains_key((f.ptrs[(ib + 1) as u32].0, axis)),
    ensures
        ({
            let b = axis_block(ib, axis);
            let v = f.mem[(f.ptrs[(ib + 1) as u32].0, axis)];
            run(cube_direction_words(ib, t, function_type, c, glsl_std_id), b.0, f, 10) matches Outcome::Branched(l, g)
                && l == b.2 && g.mem.contains_key(f.ptrs[b.1]) && g.mem[f.ptrs[b.1]] == cube_face(axis, signed(v))
        }),
{
    let w = cube_direction_words(ib, t, function_type, c, glsl_std_id);
    lemma_cube_prefix(ib, t, function_type, c, glsl_std_id);
    if axis == 0 {
        lemma_cube_block_words_0(ib, t, function_type, c, glsl_std_id);
        lemma_axis_block_run_0(w, ib, c, f);
    } else if axis == 1 {
        lemma_cube_block_words_1(ib, t, function_type, c, glsl_std_id);
        lemma_axis_block_run_1(w, ib, c, f);
    } else {
        lemma_cube_block_words_2(ib, t, function_type, c, glsl_std_id);
        lemma_axis_block_run_2(w, ib, c, f);
    }
}

proof fn lemma_cube_part_1_keeps(w: Seq<u32>,
    ib: int,
    t: CubeDirectionTypeInputs,
    function_type: u32,
    c: CubeDirectionConstants,
    glsl_std_id: u32,
)
    ensures
        cube_direction_part_1(w, ib, t, function_type, c, glsl_std_id).len() == w.len() + 83,
        forall|i: int| 0 <= i < w.len() ==> #[trigger] cube_direction_part_1(w, ib, t, function_type, c, glsl_std_id)[i] == w[i],
{
}

proof fn lemma_cube_part_2_keeps(w: Seq<u32>,
    ib: int,
    t: CubeDirectionTypeInputs,
    function_type: u32,
    c: CubeDirectionConstants,
    glsl_std_id: u32,
)
    ensures
        cube_direction_part_2(w, ib, t, function_type, c, glsl_std_id).len() == w.len() + 79,
        forall|i: int| 0 <= i < w.len() ==> #[trigger] cube_direction_part_2(w, ib, t, function_type, c, glsl_std_id)[i] == w[i],
{
}

proof fn lemma_cube_part_0_len(
    ib: int,
    t: CubeDirectionTypeInputs,
    function_type: u32,
    c: CubeDirectionConstants,
    glsl_std_id: u32,
)
    ensures
        cube_direction_part_0(Seq::empty(), ib, t, function_type, c, glsl_std_id).len() == 80,
{
}

/// The id `ib + k` of the cube direction function.
pub open spec fn cid(ib: int, k: int) -> u32 {
    (ib + k) as u32
}

/// The component counts of the vector types the function uses.
pub open spec fn cube_vec_len(t: CubeDirectionTypeInputs) -> Map<u32, nat> {
    map![t.v3int_id => 3nat, t.v2int_id => 2nat]
}

/// The scalar and vector types the function uses are told apart.
pub open spec fn cube_types_apart(t: CubeDirectionTypeInputs) -> bool {
    &&& t.int_id != t.v3int_id && t.int_id != t.v2int_id
    &&& t.bool_id != t.v3int_id && t.bool_id != t.v2int_id
    &&& t.v3int_id != t.v2int_id
}

/// The constants' ids lie outside the function's own ids.
pub open spec fn cube_ids_apart(ib: int, c: CubeDirectionConstants) -> bool {
    &&& !(ib <= c.int_0 < ib + 137) && !(ib <= c.int_1 < ib + 137) && !(ib <= c.int_2 < ib + 137)
    &&& !(ib <= c.int_3 < ib + 137) && !(ib <= c.int_4 < ib + 137) && !(ib <= c.int_5 < ib + 137)
}

/// Where the blocks of the cube direction function start, by label.
pub open spec fn cube_labels(ib: int) -> Map<u32, int> {
    map![cid(ib, 2) => 8int, cid(ib, 23) => 101int, cid(ib, 22) => 128int, cid(ib, 36) => 170int, cid(ib, 35) => 197int, cid(ib, 45) => 220int, cid(ib, 46) => 247int, cid(ib, 53) => 260int, cid(ib, 54) => 287int, cid(ib, 52) => 314int, cid(ib, 44) => 325int, cid(ib, 68) => 350int, cid(ib, 69) => 388int, cid(ib, 80) => 406int, cid(ib, 81) => 440int, cid(ib, 91) => 458int, cid(ib, 92) => 488int, cid(ib, 101) => 506int, cid(ib, 102) => 540int, cid(ib, 112) => 558int, cid(ib, 113) => 592int, cid(ib, 111) => 630int, cid(ib, 100) => 641int, cid(ib, 90) => 652int, cid(ib, 79) => 663int, cid(ib, 67) => 674int]
}

pub open spec fn abs_int(v: int) -> int {
    if v < 0 {
        -v
    } else {
        v
    }
}

/// The face layer of the cube direction `(x, y, z)`: the axis of the component of largest
/// magnitude (x on a tie with y or z, y on a tie with z) and the sign of that component.
pub open spec fn cube_face_of(x: int, y: int, z: int) -> int {
    if abs_int(x) >= abs_int(y) && abs_int(x) >= abs_int(z) {
        cube_face(0, x)
    } else if abs_int(y) > abs_int(x) && abs_int(y) >= abs_int(z) {
        cube_face(1, y)
    } else {
        cube_face(2, z)
    }
}

/// The state on entry to the cube direction function: the constants' values, and the
/// caller's direction (as 32-bit patterns) behind the parameter.
pub open spec fn cube_entry(ib: int, t: CubeDirectionTypeInputs, vals: Map<u32, int>, xb: u32, yb: u32, zb: u32)
    -> CfgFrame {
    CfgFrame {
        f: Frame {
            vals,
            ptrs: Map::empty(),
            mem: map![(cid(ib, 1), 0int) => xb as int, (cid(ib, 1), 1int) => yb as int, (cid(ib, 1), 2int) => zb as int],
        },
        vecs: Map::empty(),
        vec_len: cube_vec_len(t),
        cur: 0,
        prev: 0,
    }
}

/// What holds all along the face selection: the constants, the variables' pointers, the
/// direction behind the parameter and its absolute value in the function's own variable.
pub open spec fn cube_inv(ib: int, t: CubeDirectionTypeInputs, c: CubeDirectionConstants, g: CfgFrame, xb: u32, yb: u32,
    zb: u32) -> bool {
    &&& cube_constants_hold(g.f.vals, c)
    &&& cube_ids_apart(ib, c)
    &&& g.vec_len == cube_vec_len(t)
    &&& cube_types_apart(t)
    &&& g.vecs.dom() == set![cid(ib, 15), cid(ib, 16)]
    &&& g.f.ptrs.contains_key(cid(ib, 1)) && g.f.ptrs[cid(ib, 1)] == (cid(ib, 1), -1int)
    &&& g.f.ptrs.contains_key(cid(ib, 3)) && g.f.ptrs[cid(ib, 3)] == (cid(ib, 3), -1int)
    &&& g.f.ptrs.contains_key(cid(ib, 4)) && g.f.ptrs[cid(ib, 4)] == (cid(ib, 4), -1int)
    &&& g.f.ptrs.contains_key(cid(ib, 5)) && g.f.ptrs[cid(ib, 5)] == (cid(ib, 5), -1int)
    &&& g.f.ptrs.contains_key(cid(ib, 6)) && g.f.ptrs[cid(ib, 6)] == (cid(ib, 6), -1int)
    &&& g.f.ptrs.contains_key(cid(ib, 7)) && g.f.ptrs[cid(ib, 7)] == (cid(ib, 7), -1int)
    &&& g.f.ptrs.contains_key(cid(ib, 8)) && g.f.ptrs[cid(ib, 8)] == (cid(ib, 8), -1int)
    &&& g.f.ptrs.contains_key(cid(ib, 9)) && g.f.ptrs[cid(ib, 9)] == (cid(ib, 9), -1int)
    &&& g.f.ptrs.contains_key(cid(ib, 10)) && g.f.ptrs[cid(ib, 10)] == (cid(ib, 10), -1int)
    &&& g.f.ptrs.contains_key(cid(ib, 11)) && g.f.ptrs[cid(ib, 11)] == (cid(ib, 11), -1int)
    &&& g.f.ptrs.contains_key(cid(ib, 12)) && g.f.ptrs[cid(ib, 12)] == (cid(ib, 12), -1int)
    &&& g.f.ptrs.contains_key(cid(ib, 13)) && g.f.ptrs[cid(ib, 13)] == (cid(ib, 13), -1int)
    &&& g.f.ptrs.contains_key(cid(ib, 14)) && g.f.ptrs[cid(ib, 14)] == (cid(ib, 14), -1int)
    &&& g.f.mem.contains_key((cid(ib, 1), 0int)) && g.f.mem[(cid(ib, 1), 0int)] == xb as int
    &&& g.f.mem.contains_key((cid(ib, 1), 1int)) && g.f.mem[(cid(ib, 1), 1int)] == yb as int
    &&& g.f.mem.contains_key((cid(ib, 1), 2int)) && g.f.mem[(cid(ib, 1), 2int)] == zb as int
    &&& g.f.mem.contains_key((cid(ib, 3), 0int)) && g.f.mem[(cid(ib, 3), 0int)] == abs_bits(xb as int)
    &&& g.f.mem.contains_key((cid(ib, 3), 1int)) && g.f.mem[(cid(ib, 3), 1int)] == abs_bits(yb as int)
    &&& g.f.mem.contains_key((cid(ib, 3), 2int)) && g.f.mem[(cid(ib, 3), 2int)] == abs_bits(zb as int)
}

proof fn lemma_abs_bits(b: u32)
    requires
        b != 0x8000_0000,
    ensures
        signed(abs_bits(b as int)) == abs_int(signed(b as int)),
{
}


/// What holds all along the choice of the coordinates: the constants, the variables'
/// pointers and the direction behind the parameter.
pub open spec fn cube_inv2(ib: int, t: CubeDirectionTypeInputs, c: CubeDirectionConstants, g: CfgFrame, xb: u32, yb: u32,
    zb: u32) -> bool {
    &&& cube_constants_hold(g.f.vals, c)
    &&& cube_ids_apart(ib, c)
    &&& g.vec_len == cube_vec_len(t)
    &&& cube_types_apart(t)
    &&& g.f.ptrs.contains_key(cid(ib, 1)) && g.f.ptrs[cid(ib, 1)] == (cid(ib, 1), -1int)
    &&& g.f.ptrs.contains_key(cid(ib, 6)) && g.f.ptrs[cid(ib, 6)] == (cid(ib, 6), -1int)
    &&& g.f.ptrs.contains_key(cid(ib, 9)) && g.f.ptrs[cid(ib, 9)] == (cid(ib, 9), -1int)
    &&& g.f.ptrs.contains_key(cid(ib, 10)) && g.f.ptrs[cid(ib, 10)] == (cid(ib, 10), -1int)
    &&& g.f.ptrs.contains_key(cid(ib, 11)) && g.f.ptrs[cid(ib, 11)] == (cid(ib, 11), -1int)
    &&& g.f.ptrs.contains_key(cid(ib, 12)) && g.f.ptrs[cid(ib, 12)] == (cid(ib, 12), -1int)
    &&& g.f.ptrs.contains_key(cid(ib, 13)) && g.f.ptrs[cid(ib, 13)] == (cid(ib, 13), -1int)
    &&& g.f.ptrs.contains_key(cid(ib, 14)) && g.f.ptrs[cid(ib, 14)] == (cid(ib, 14), -1int)
    &&& g.f.mem.contains_key((cid(ib, 1), 0int)) && g.f.mem[(cid(ib, 1), 0int)] == xb as int
    &&& g.f.mem.contains_key((cid(ib, 1), 1int)) && g.f.mem[(cid(ib, 1), 1int)] == yb as int
    &&& g.f.mem.contains_key((cid(ib, 1), 2int)) && g.f.mem[(cid(ib, 1), 2int)] == zb as int
}

/// The coordinate on the face `face` of the direction `(x, y, z)`: -z, -y on +X; z, -y on -X;
/// x, z on +Y; x, -z on -Y; x, -y on +Z; -x, -y on -Z.
pub open spec fn cube_coords(face: int, x: int, y: int, z: int) -> (int, int) {
    if face == 0 {
        (-z, -y)
    } else if face == 1 {
        (z, -y)
    } else if face == 2 {
        (x, z)
    } else if face == 3 {
        (x, -z)
    } else if face == 4 {
        (x, -y)
    } else {
        (-x, -y)
    }
}

proof fn lemma_neg_bits(b: u32)
    requires
        b != 0x8000_0000,
    ensures
        signed(neg_bits(b as int)) == -signed(b as int),
        0 <= neg_bits(b as int) <= u32::MAX,
{
}

/// The words of the first parts, as the whole function holds them.
#[verifier::spinoff_prover]
#[verifier::rlimit(60)]
proof fn lemma_cube_parts(
    ib: int,
    t: CubeDirectionTypeInputs,
    function_type: u32,
    c: CubeDirectionConstants,
    glsl_std_id: u32,
)
    ensures
        cube_direction_part_0(Seq::empty(), ib, t, function_type, c, glsl_std_id).len() == 80,
        cube_direction_part_1(cube_direction_part_0(Seq::empty(), ib, t, function_type, c, glsl_std_id), ib, t, function_type, c, glsl_std_id).len() == 163,
        cube_direction_part_2(cube_direction_part_1(cube_direction_part_0(Seq::empty(), ib, t, function_type, c, glsl_std_id), ib, t, function_type, c, glsl_std_id), ib, t, function_type, c, glsl_std_id).len() == 242,
        cube_direction_part_3(cube_direction_part_2(cube_direction_part_1(cube_direction_part_0(Seq::empty(), ib, t, function_type, c, glsl_std_id), ib, t, function_type, c, glsl_std_id), ib, t, function_type, c, glsl_std_id), ib, t, function_type, c, glsl_std_id).len() == 314,
        cube_direction_part_4(cube_direction_part_3(cube_direction_part_2(cube_direction_part_1(cube_direction_part_0(Seq::empty(), ib, t, function_type, c, glsl_std_id), ib, t, function_type, c, glsl_std_id), ib, t, function_type, c, glsl_std_id), ib, t, function_type, c, glsl_std_id), ib, t, function_type, c, glsl_std_id).len() == 386,
        cube_direction_part_5(cube_direction_part_4(cube_direction_part_3(cube_direction_part_2(cube_direction_part_1(cube_direction_part_0(Seq::empty(), ib, t, function_type, c, glsl_std_id), ib, t, function_type, c, glsl_std_id), ib, t, function_type, c, glsl_std_id), ib, t, function_type, c, glsl_std_id), ib, t, function_type, c, glsl_std_id), ib, t, function_type, c, glsl_std_id).len() == 458,
        cube_direction_part_6(cube_direction_part_5(cube_direction_part_4(cube_direction_part_3(cube_direction_part_2(cube_direction_part_1(cube_direction_part_0(Seq::empty(), ib, t, function_type, c, glsl_std_id), ib, t, function_type, c, glsl_std_id), ib, t, function_type, c, glsl_std_id), ib, t, function_type, c, glsl_std_id), ib, t, function_type, c, glsl_std_id), ib, t, function_type, c, glsl_std_id), ib, t, function_type, c, glsl_std_id).len() == 535,
        cube_direction_part_7(cube_direction_part_6(cube_direction_part_5(cube_direction_part_4(cube_direction_part_3(cube_direction_part_2(cube_direction_part_1(cube_direction_part_0(Seq::empty(), ib, t, function_type, c, glsl_std_id), ib, t, function_type, c, glsl_std_id), ib, t, function_type, c, glsl_std_id), ib, t, function_type, c, glsl_std_id), ib, t, function_type, c, glsl_std_id), ib, t, function_type, c, glsl_std_id), ib, t, function_type, c, glsl_std_id), ib, t, function_type, c, glsl_std_id).len() == 607,
        cube_direction_part_8(cube_direction_part_7(cube_direction_part_6(cube_direction_part_5(cube_direction_part_4(cube_direction_part_3(cube_direction_part_2(cube_direction_part_1(cube_direction_part_0(Seq::empty(), ib, t, function_type, c, glsl_std_id), ib, t, function_type, c, glsl_std_id), ib, t, function_type, c, glsl_std_id), ib, t, function_type, c, glsl_std_id), ib, t, function_type, c, glsl_std_id), ib, t, function_type, c, glsl_std_id), ib, t, function_type, c, glsl_std_id), ib, t, function_type, c, glsl_std_id), ib, t, function_type, c, glsl_std_id).len() == 669,
        cube_direction_part_9(cube_direction_part_8(cube_direction_part_7(cube_direction_part_6(cube_direction_part_5(cube_direction_part_4(cube_direction_part_3(cube_direction_part_2(cube_direction_part_1(cube_direction_part_0(Seq::empty(), ib, t, function_type, c, glsl_std_id), ib, t, function_type, c, glsl_std_id), ib, t, function_type, c, glsl_std_id), ib, t, function_type, c, glsl_std_id), ib, t, function_type, c, glsl_std_id), ib, t, function_type, c, glsl_std_id), ib, t, function_type, c, glsl_std_id), ib, t, function_type, c, glsl_std_id), ib, t, function_type, c, glsl_std_id), ib, t, function_type, c, glsl_std_id).len() == 710,
        forall|i: int| 0 <= i < 80 ==> #[trigger] cube_direction_words(ib, t, function_type, c, glsl_std_id)[i] == cube_direction_part_0(Seq::empty(), ib, t, function_type, c, glsl_std_id)[i],
        forall|i: int| 80 <= i < 163 ==> #[trigger] cube_direction_words(ib, t, function_type, c, glsl_std_id)[i] == cube_direction_part_1(cube_direction_part_0(Seq::empty(), ib, t, function_type, c, glsl_std_id), ib, t, function_type, c, glsl_std_id)[i],
        forall|i: int| 163 <= i < 242 ==> #[trigger] cube_direction_words(ib, t, function_type, c, glsl_std_id)[i] == cube_direction_part_2(cube_direction_part_1(cube_direction_part_0(Seq::empty(), ib, t, function_type, c, glsl_std_id), ib, t, function_type, c, glsl_std_id), ib, t, function_type, c, glsl_std_id)[i],
        forall|i: int| 242 <= i < 314 ==> #[trigger] cube_direction_words(ib, t, function_type, c, glsl_std_id)[i] == cube_direction_part_3(cube_direction_part_2(cube_direction_part_1(cube_direction_part_0(Seq::empty(), ib, t, function_type, c, glsl_std_id), ib, t, function_type, c, glsl_std_id), ib, t, function_type, c, glsl_std_id), ib, t, function_type, c, glsl_std_id)[i],
        forall|i: int| 314 <= i < 386 ==> #[trigger] cube_direction_words(ib, t, function_type, c, glsl_std_id)[i] == cube_direction_part_4(cube_direction_part_3(cube_direction_part_2(cube_direction_part_1(cube_direction_part_0(Seq::empty(), ib, t, function_type, c, glsl_std_id), ib, t, function_type, c, glsl_std_id), ib, t, function_type, c, glsl_std_id), ib, t, function_type, c, glsl_std_id), ib, t, function_type, c, glsl_std_id)[i],
        forall|i: int| 386 <= i < 458 ==> #[trigger] cube_direction_words(ib, t, function_type, c, glsl_std_id)[i] == cube_direction_part_5(cube_direction_part_4(cube_direction_part_3(cube_direction_part_2(cube_direction_part_1(cube_direction_part_0(Seq::empty(), ib, t, function_type, c, glsl_std_id), ib, t, function_type, c, glsl_std_id), ib, t, function_type, c, glsl_std_id), ib, t, function_type, c, glsl_std_id), ib, t, function_type, c, glsl_std_id), ib, t, function_type, c, glsl_std_id)[i],
        forall|i: int| 458 <= i < 535 ==> #[trigger] cube_direction_words(ib, t, function_type, c, glsl_std_id)[i] == cube_direction_part_6(cube_direction_part_5(cube_direction_part_4(cube_direction_part_3(cube_direction_part_2(cube_direction_part_1(cube_direction_part_0(Seq::empty(), ib, t, function_type, c, glsl_std_id), ib, t, function_type, c, glsl_std_id), ib, t, function_type, c, glsl_std_id), ib, t, function_type, c, glsl_std_id), ib, t, function_type, c, glsl_std_id), ib, t, function_type, c, glsl_std_id), ib, t, function_type, c, glsl_std_id)[i],
        forall|i: int| 535 <= i < 607 ==> #[trigger] cube_direction_words(ib, t, function_type, c, glsl_std_id)[i] == cube_direction_part_7(cube_direction_part_6(cube_direction_part_5(cube_direction_part_4(cube_direction_part_3(cube_direction_part_2(cube_direction_part_1(cube_direction_part_0(Seq::empty(), ib, t, function_type, c, glsl_std_id), ib, t, function_type, c, glsl_std_id), ib, t, function_type, c, glsl_std_id), ib, t, function_type, c, glsl_std_id), ib, t, function_type, c, glsl_std_id), ib, t, function_type, c, glsl_std_id), ib, t, function_type, c, glsl_std_id), ib, t, function_type, c, glsl_std_id)[i],
        forall|i: int| 607 <= i < 669 ==> #[trigger] cube_direction_words(ib, t, function_type, c, glsl_std_id)[i] == cube_direction_part_8(cube_direction_part_7(cube_direction_part_6(cube_direction_part_5(cube_direction_part_4(cube_direction_part_3(cube_direction_part_2(cube_direction_part_1(cube_direction_part_0(Seq::empty(), ib, t, function_type, c, glsl_std_id), ib, t, function_type, c, glsl_std_id), ib, t, function_type, c, glsl_std_id), ib, t, function_type, c, glsl_std_id), ib, t, function_type, c, glsl_std_id), ib, t, function_type, c, glsl_std_id), ib, t, function_type, c, glsl_std_id), ib, t, function_type, c, glsl_std_id), ib, t, function_type, c, glsl_std_id)[i],
        forall|i: int| 669 <= i < 710 ==> #[trigger] cube_direction_words(ib, t, function_type, c, glsl_std_id)[i] == cube_direction_part_9(cube_direction_part_8(cube_direction_part_7(cube_direction_part_6(cube_direction_part_5(cube_direction_part_4(cube_direction_part_3(cube_direction_part_2(cube_direction_part_1(cube_direction_part_0(Seq::empty(), ib, t, function_type, c, glsl_std_id), ib, t, function_type, c, glsl_std_id), ib, t, function_type, c, glsl_std_id), ib, t, function_type, c, glsl_std_id), ib, t, function_type, c, glsl_std_id), ib, t, function_type, c, glsl_std_id), ib, t, function_type, c, glsl_std_id), ib, t, function_type, c, glsl_std_id), ib, t, function_type, c, glsl_std_id), ib, t, function_type, c, glsl_std_id)[i],
{
    let p0 = cube_direction_part_0(Seq::empty(), ib, t, function_type, c, glsl_std_id);
    let p1 = cube_direction_part_1(p0, ib, t, function_type, c, glsl_std_id);
    let p2 = cube_direction_part_2(p1, ib, t, function_type, c, glsl_std_id);
    let p3 = cube_direction_part_3(p2, ib, t, function_type, c, glsl_std_id);
    let p4 = cube_direction_part_4(p3, ib, t, function_type, c, glsl_std_id);
    let p5 = cube_direction_part_5(p4, ib, t, function_type, c, glsl_std_id);
    let p6 = cube_direction_part_6(p5, ib, t, function_type, c, glsl_std_id);
    let p7 = cube_direction_part_7(p6, ib, t, function_type, c, glsl_std_id);
    let p8 = cube_direction_part_8(p7, ib, t, function_type, c, glsl_std_id);
    let p9 = cube_direction_part_9(p8, ib, t, function_type, c, glsl_std_id);
    lemma_cube_part_1_keeps(p0, ib, t, function_type, c, glsl_std_id);
    lemma_cube_part_2_keeps(p1, ib, t, function_type, c, glsl_std_id);
    lemma_cube_part_3_keeps(p2, ib, t, function_type, c, glsl_std_id);
    lemma_cube_part_4_keeps(p3, ib, t, function_type, c, glsl_std_id);
    lemma_cube_part_5_keeps(p4, ib, t, function_type, c, glsl_std_id);
    lemma_cube_part_6_keeps(p5, ib, t, function_type, c, glsl_std_id);
    lemma_cube_part_7_keeps(p6, ib, t, function_type, c, glsl_std_id);
    lemma_cube_part_8_keeps(p7, ib, t, function_type, c, glsl_std_id);
    lemma_cube_part_9_keeps(p8, ib, t, function_type, c, glsl_std_id);
    assert forall|i: int| 0 <= i < 80 implies #[trigger] p9[i] == p0[i] by {
        assert(p9[i] == p8[i]);
        assert(p8[i] == p7[i]);
        assert(p7[i] == p6[i]);
        assert(p6[i] == p5[i]);
        assert(p5[i] == p4[i]);
        assert(p4[i] == p3[i]);
        assert(p3[i] == p2[i]);
        assert(p2[i] == p1[i]);
        assert(p1[i] == p0[i]);
    }
    assert forall|i: int| 80 <= i < 163 implies #[trigger] p9[i] == p1[i] by {
        assert(p9[i] == p8[i]);
        assert(p8[i] == p7[i]);
        assert(p7[i] == p6[i]);
        assert(p6[i] == p5[i]);
        assert(p5[i] == p4[i]);
        assert(p4[i] == p3[i]);
        assert(p3[i] == p2[i]);
        assert(p2[i] == p1[i]);
    }
    assert forall|i: int| 163 <= i < 242 implies #[trigger] p9[i] == p2[i] by {
        assert(p9[i] == p8[i]);
        assert(p8[i] == p7[i]);
        assert(p7[i] == p6[i]);
        assert(p6[i] == p5[i]);
        assert(p5[i] == p4[i]);
        assert(p4[i] == p3[i]);
        assert(p3[i] == p2[i]);
    }
    assert forall|i: int| 242 <= i < 314 implies #[trigger] p9[i] == p3[i] by {
        assert(p9[i] == p8[i]);
        assert(p8[i] == p7[i]);
        assert(p7[i] == p6[i]);
        assert(p6[i] == p5[i]);
        assert(p5[i] == p4[i]);
        assert(p4[i] == p3[i]);
    }
    assert forall|i: int| 314 <= i < 386 implies #[trigger] p9[i] == p4[i] by {
        assert(p9[i] == p8[i]);
        assert(p8[i] == p7[i]);
        assert(p7[i] == p6[i]);
        assert(p6[i] == p5[i]);
        assert(p5[i] == p4[i]);
    }
    assert forall|i: int| 386 <= i < 458 implies #[trigger] p9[i] == p5[i] by {
        assert(p9[i] == p8[i]);
        assert(p8[i] == p7[i]);
        assert(p7[i] == p6[i]);
        assert(p6[i] == p5[i]);
    }
    assert forall|i: int| 458 <= i < 535 implies #[trigger] p9[i] == p6[i] by {
        assert(p9[i] == p8[i]);
        assert(p8[i] == p7[i]);
        assert(p7[i] == p6[i]);
    }
    assert forall|i: int| 535 <= i < 607 implies #[trigger] p9[i] == p7[i] by {
        assert(p9[i] == p8[i]);
        assert(p8[i] == p7[i]);
    }
    assert forall|i: int| 607 <= i < 669 implies #[trigger] p9[i] == p8[i] by {
        assert(p9[i] == p8[i]);
    }
    assert forall|i: int| 669 <= i < 710 implies #[trigger] p9[i] == p9[i] by {
    }
}

#[verifier::spinoff_prover]
#[verifier::rlimit(60)]
proof fn lemma_cube_words_entry(
    ib: int,
    t: CubeDirectionTypeInputs,
    function_type: u32,
    c: CubeDirectionConstants,
    glsl_std_id: u32,
)
    ensures
        cube_direction_words(ib, t, function_type, c, glsl_std_id)[0] == spec_encode_word(5, spv::SPV_INSTRUCTION_OP_FUNCTION),
        cube_direction_words(ib, t, function_type, c, glsl_std_id)[5] == spec_encode_word(3, spv::SPV_INSTRUCTION_OP_FUNCTION_PARAMETER),
        cube_direction_words(ib, t, function_type, c, glsl_std_id)[7] == cid(ib, 1),
        cube_direction_words(ib, t, function_type, c, glsl_std_id)[8] == spec_encode_word(2, spv::SPV_INSTRUCTION_OP_LABEL),
        cube_direction_words(ib, t, function_type, c, glsl_std_id)[9] == cid(ib, 2),
        cube_direction_words(ib, t, function_type, c, glsl_std_id)[10] == spec_encode_word(4, spv::SPV_INSTRUCTION_OP_VARIABLE),
        cube_direction_words(ib, t, function_type, c, glsl_std_id)[12] == cid(ib, 3),
        cube_direction_words(ib, t, function_type, c, glsl_std_id)[14] == spec_encode_word(4, spv::SPV_INSTRUCTION_OP_VARIABLE),
        cube_direction_words(ib, t, function_type, c, glsl_std_id)[16] == cid(ib, 4),
        cube_direction_words(ib, t, function_type, c, glsl_std_id)[18] == spec_encode_word(4, spv::SPV_INSTRUCTION_OP_VARIABLE),
        cube_direction_words(ib, t, function_type, c, glsl_std_id)[20] == cid(ib, 5),
        cube_direction_words(ib, t, function_type, c, glsl_std_id)[22] == spec_encode_word(4, spv::SPV_INSTRUCTION_OP_VARIABLE),
        cube_direction_words(ib, t, function_type, c, glsl_std_id)[24] == cid(ib, 6),
        cube_direction_words(ib, t, function_type, c, glsl_std_id)[26] == spec_encode_word(4, spv::SPV_INSTRUCTION_OP_VARIABLE),
        cube_direction_words(ib, t, function_type, c, glsl_std_id)[28] == cid(ib, 7),
        cube_direction_words(ib, t, function_type, c, glsl_std_id)[30] == spec_encode_word(4, spv::SPV_INSTRUCTION_OP_VARIABLE),
        cube_direction_words(ib, t, function_type, c, glsl_std_id)[32] == cid(ib, 8),
        cube_direction_words(ib, t, function_type, c, glsl_std_id)[34] == spec_encode_word(4, spv::SPV_INSTRUCTION_OP_VARIABLE),
        cube_direction_words(ib, t, function_type, c, glsl_std_id)[36] == cid(ib, 9),
        cube_direction_words(ib, t, function_type, c, glsl_std_id)[38] == spec_encode_word(4, spv::SPV_INSTRUCTION_OP_VARIABLE),
        cube_direction_words(ib, t, function_type, c, glsl_std_id)[40] == cid(ib, 10),
        cube_direction_words(ib, t, function_type, c, glsl_std_id)[42] == spec_encode_word(4, spv::SPV_INSTRUCTION_OP_VARIABLE),
        cube_direction_words(ib, t, function_type, c, glsl_std_id)[44] == cid(ib, 11),
        cube_direction_words(ib, t, function_type, c, glsl_std_id)[46] == spec_encode_word(4, spv::SPV_INSTRUCTION_OP_VARIABLE),
        cube_direction_words(ib, t, function_type, c, glsl_std_id)[48] == cid(ib, 12),
        cube_direction_words(ib, t, function_type, c, glsl_std_id)[50] == spec_encode_word(4, spv::SPV_INSTRUCTION_OP_VARIABLE),
        cube_direction_words(ib, t, function_type, c, glsl_std_id)[52] == cid(ib, 13),
        cube_direction_words(ib, t, function_type, c, glsl_std_id)[54] == spec_encode_word(4, spv::SPV_INSTRUCTION_OP_VARIABLE),
        cube_direction_words(ib, t, function_type, c, glsl_std_id)[56] == cid(ib, 14),
        cube_direction_words(ib, t, function_type, c, glsl_std_id)[58] == spec_encode_word(4, spv::SPV_INSTRUCTION_OP_LOAD),
        cube_direction_words(ib, t, function_type, c, glsl_std_id)[59] == t.v3int_id,
        cube_direction_words(ib, t, function_type, c, glsl_std_id)[60] == cid(ib, 15),
        cube_direction_words(ib, t, function_type, c, glsl_std_id)[61] == cid(ib, 1),
        cube_direction_words(ib, t, function_type, c, glsl_std_id)[62] == spec_encode_word(6, spv::SPV_INSTRUCTION_OP_EXT_INST),
        cube_direction_words(ib, t, function_type, c, glsl_std_id)[64] == cid(ib, 16),
        cube_direction_words(ib, t, function_type, c, glsl_std_id)[66] == spv::SPV_GLSL_STD_INSTRUCTION_SABS,
        cube_direction_words(ib, t, function_type, c, glsl_std_id)[67] == cid(ib, 15),
        cube_direction_words(ib, t, function_type, c, glsl_std_id)[68] == spec_encode_word(3, spv::SPV_INSTRUCTION_OP_STORE),
        cube_direction_words(ib, t, function_type, c, glsl_std_id)[69] == cid(ib, 3),
        cube_direction_words(ib, t, function_type, c, glsl_std_id)[70] == cid(ib, 16),
        cube_direction_words(ib, t, function_type, c, glsl_std_id)[71] == spec_encode_word(5, spv::SPV_INSTRUCTION_OP_ACCESS_CHAIN),
        cube_direction_words(ib, t, function_type, c, glsl_std_id)[73] == cid(ib, 17),
        cube_direction_words(ib, t, function_type, c, glsl_std_id)[74] == cid(ib, 3),
        cube_direction_words(ib, t, function_type, c, glsl_std_id)[75] == c.int_0,
        cube_direction_words(ib, t, function_type, c, glsl_std_id)[76] == spec_encode_word(4, spv::SPV_INSTRUCTION_OP_LOAD),
        cube_direction_words(ib, t, function_type, c, glsl_std_id)[77] == t.int_id,
        cube_direction_words(ib, t, function_type, c, glsl_std_id)[78] == cid(ib, 18),
        cube_direction_words(ib, t, function_type, c, glsl_std_id)[79] == cid(ib, 17),
        cube_direction_words(ib, t, function_type, c, glsl_std_id)[80] == spec_encode_word(5, spv::SPV_INSTRUCTION_OP_ACCESS_CHAIN),
        cube_direction_words(ib, t, function_type, c, glsl_std_id)[82] == cid(ib, 19),
        cube_direction_words(ib, t, function_type, c, glsl_std_id)[83] == cid(ib, 3),
        cube_direction_words(ib, t, function_type, c, glsl_std_id)[84] == c.int_1,
        cube_direction_words(ib, t, function_type, c, glsl_std_id)[85] == spec_encode_word(4, spv::SPV_INSTRUCTION_OP_LOAD),
        cube_direction_words(ib, t, function_type, c, glsl_std_id)[86] == t.int_id,
        cube_direction_words(ib, t, function_type, c, glsl_std_id)[87] == cid(ib, 20),
        cube_direction_words(ib, t, function_type, c, glsl_std_id)[88] == cid(ib, 19),
        cube_direction_words(ib, t, function_type, c, glsl_std_id)[89] == spec_encode_word(5, spv::SPV_INSTRUCTION_OP_S_GREATER_THAN_EQUAL),
        cube_direction_words(ib, t, function_type, c, glsl_std_id)[91] == cid(ib, 21),
        cube_direction_words(ib, t, function_type, c, glsl_std_id)[92] == cid(ib, 18),
        cube_direction_words(ib, t, function_type, c, glsl_std_id)[93] == cid(ib, 20),
        cube_direction_words(ib, t, function_type, c, glsl_std_id)[94] == spec_encode_word(3, spv::SPV_INSTRUCTION_OP_SELECTION_MERGE),
        cube_direction_words(ib, t, function_type, c, glsl_std_id)[97] == spec_encode_word(4, spv::SPV_INSTRUCTION_OP_BRANCH_CONDITIONAL),
        cube_direction_words(ib, t, function_type, c, glsl_std_id)[98] == cid(ib, 21),
        cube_direction_words(ib, t, function_type, c, glsl_std_id)[99] == cid(ib, 23),
        cube_direction_words(ib, t, function_type, c, glsl_std_id)[100] == cid(ib, 22),
{
    lemma_cube_parts(ib, t, function_type, c, glsl_std_id);
    let w = cube_direction_words(ib, t, function_type, c, glsl_std_id);
    assert(w[0] == cube_direction_part_0(Seq::empty(), ib, t, function_type, c, glsl_std_id)[0]);
    assert(w[5] == cube_direction_part_0(Seq::empty(), ib, t, function_type, c, glsl_std_id)[5]);
    assert(w[7] == cube_direction_part_0(Seq::empty(), ib, t, function_type, c, glsl_std_id)[7]);
    assert(w[8] == cube_direction_part_0(Seq::empty(), ib, t, function_type, c, glsl_std_id)[8]);
    assert(w[9] == cube_direction_part_0(Seq::empty(), ib, t, function_type, c, glsl_std_id)[9]);
    assert(w[10] == cube_direction_part_0(Seq::empty(), ib, t, function_type, c, glsl_std_id)[10]);
    assert(w[12] == cube_direction_part_0(Seq::empty(), ib, t, function_type, c, glsl_std_id)[12]);
    assert(w[14] == cube_direction_part_0(Seq::empty(), ib, t, function_type, c, glsl_std_id)[14]);
    assert(w[16] == cube_direction_part_0(Seq::empty(), ib, t, function_type, c, glsl_std_id)[16]);
    assert(w[18] == cube_direction_part_0(Seq::empty(), ib, t, function_type, c, glsl_std_id)[18]);
    assert(w[20] == cube_direction_part_0(Seq::empty(), ib, t, function_type, c, glsl_std_id)[20]);
    assert(w[22] == cube_direction_part_0(Seq::empty(), ib, t, function_type, c, glsl_std_id)[22]);
    assert(w[24] == cube_direction_part_0(Seq::empty(), ib, t, function_type, c, glsl_std_id)[24]);
    assert(w[26] == cube_direction_part_0(Seq::empty(), ib, t, function_type, c, glsl_std_id)[26]);
    assert(w[28] == cube_direction_part_0(Seq::empty(), ib, t, function_type, c, glsl_std_id)[28]);
    assert(w[30] == cube_direction_part_0(Seq::empty(), ib, t, function_type, c, glsl_std_id)[30]);
    assert(w[32] == cube_direction_part_0(Seq::empty(), ib, t, function_type, c, glsl_std_id)[32]);
    assert(w[34] == cube_direction_part_0(Seq::empty(), ib, t, function_type, c, glsl_std_id)[34]);
    assert(w[36] == cube_direction_part_0(Seq::empty(), ib, t, function_type, c, glsl_std_id)[36]);
    assert(w[38] == cube_direction_part_0(Seq::empty(), ib, t, function_type, c, glsl_std_id)[38]);
    assert(w[40] == cube_direction_part_0(Seq::empty(), ib, t, function_type, c, glsl_std_id)[40]);
    assert(w[42] == cube_direction_part_0(Seq::empty(), ib, t, function_type, c, glsl_std_id)[42]);
    assert(w[44] == cube_direction_part_0(Seq::empty(), ib, t, function_type, c, glsl_std_id)[44]);
    assert(w[46] == cube_direction_part_0(Seq::empty(), ib, t, function_type, c, glsl_std_id)[46]);
    assert(w[48] == cube_direction_part_0(Seq::empty(), ib, t, function_type, c, glsl_std_id)[48]);
    assert(w[50] == cube_direction_part_0(Seq::empty(), ib, t, function_type, c, glsl_std_id)[50]);
    assert(w[52] == cube_direction_part_0(Seq::empty(), ib, t, function_type, c, glsl_std_id)[52]);
    assert(w[54] == cube_direction_part_0(Seq::empty(), ib, t, function_type, c, glsl_std_id)[54]);
    assert(w[56] == cube_direction_part_0(Seq::empty(), ib, t, function_type, c, glsl_std_id)[56]);
    assert(w[58] == cube_direction_part_0(Seq::empty(), ib, t, function_type, c, glsl_std_id)[58]);
    assert(w[59] == cube_direction_part_0(Seq::empty(), ib, t, function_type, c, glsl_std_id)[59]);
    assert(w[60] == cube_direction_part_0(Seq::empty(), ib, t, function_type, c, glsl_std_id)[60]);
    assert(w[61] == cube_direction_part_0(Seq::empty(), ib, t, function_type, c, glsl_std_id)[61]);
    assert(w[62] == cube_direction_part_0(Seq::empty(), ib, t, function_type, c, glsl_std_id)[62]);
    assert(w[64] == cube_direction_part_0(Seq::empty(), ib, t, function_type, c, glsl_std_id)[64]);
    assert(w[66] == cube_direction_part_0(Seq::empty(), ib, t, function_type, c, glsl_std_id)[66]);
    assert(w[67] == cube_direction_part_0(Seq::empty(), ib, t, function_type, c, glsl_std_id)[67]);
    assert(w[68] == cube_direction_part_0(Seq::empty(), ib, t, function_type, c, glsl_std_id)[68]);
    assert(w[69] == cube_direction_part_0(Seq::empty(), ib, t, function_type, c, glsl_std_id)[69]);
    assert(w[70] == cube_direction_part_0(Seq::empty(), ib, t, function_type, c, glsl_std_id)[70]);
    assert(w[71] == cube_direction_part_0(Seq::empty(), ib, t, function_type, c, glsl_std_id)[71]);
    assert(w[73] == cube_direction_part_0(Seq::empty(), ib, t, function_type, c, glsl_std_id)[73]);
    assert(w[74] == cube_direction_part_0(Seq::empty(), ib, t, function_type, c, glsl_std_id)[74]);
    assert(w[75] == cube_direction_part_0(Seq::empty(), ib, t, function_type, c, glsl_std_id)[75]);
    assert(w[76] == cube_direction_part_0(Seq::empty(), ib, t, function_type, c, glsl_std_id)[76]);
    assert(w[77] == cube_direction_part_0(Seq::empty(), ib, t, function_type, c, glsl_std_id)[77]);
    assert(w[78] == cube_direction_part_0(Seq::empty(), ib, t, function_type, c, glsl_std_id)[78]);
    assert(w[79] == cube_direction_part_0(Seq::empty(), ib, t, function_type, c, glsl_std_id)[79]);
    assert(w[80] == cube_direction_part_1(cube_direction_part_0(Seq::empty(), ib, t, function_type, c, glsl_std_id), ib, t, function_type, c, glsl_std_id)[80]);
    assert(w[82] == cube_direction_part_1(cube_direction_part_0(Seq::empty(), ib, t, function_type, c, glsl_std_id), ib, t, function_type, c, glsl_std_id)[82]);
    assert(w[83] == cube_direction_part_1(cube_direction_part_0(Seq::empty(), ib, t, function_type, c, glsl_std_id), ib, t, function_type, c, glsl_std_id)[83]);
    assert(w[84] == cube_direction_part_1(cube_direction_part_0(Seq::empty(), ib, t, function_type, c, glsl_std_id), ib, t, function_type, c, glsl_std_id)[84]);
    assert(w[85] == cube_direction_part_1(cube_direction_part_0(Seq::empty(), ib, t, function_type, c, glsl_std_id), ib, t, function_type, c, glsl_std_id)[85]);
    assert(w[86] == cube_direction_part_1(cube_direction_part_0(Seq::empty(), ib, t, function_type, c, glsl_std_id), ib, t, function_type, c, glsl_std_id)[86]);
    assert(w[87] == cube_direction_part_1(cube_direction_part_0(Seq::empty(), ib, t, function_type, c, glsl_std_id), ib, t, function_type, c, glsl_std_id)[87]);
    assert(w[88] == cube_direction_part_1(cube_direction_part_0(Seq::empty(), ib, t, function_type, c, glsl_std_id), ib, t, function_type, c, glsl_std_id)[88]);
    assert(w[89] == cube_direction_part_1(cube_direction_part_0(Seq::empty(), ib, t, function_type, c, glsl_std_id), ib, t, function_type, c, glsl_std_id)[89]);
    assert(w[91] == cube_direction_part_1(cube_direction_part_0(Seq::empty(), ib, t, function_type, c, glsl_std_id), ib, t, function_type, c, glsl_std_id)[91]);
    assert(w[92] == cube_direction_part_1(cube_direction_part_0(Seq::empty(), ib, t, function_type, c, glsl_std_id), ib, t, function_type, c, glsl_std_id)[92]);
    assert(w[93] == cube_direction_part_1(cube_direction_part_0(Seq::empty(), ib, t, function_type, c, glsl_std_id), ib, t, function_type, c, glsl_std_id)[93]);
    assert(w[94] == cube_direction_part_1(cube_direction_part_0(Seq::empty(), ib, t, function_type, c, glsl_std_id), ib, t, function_type, c, glsl_std_id)[94]);
    assert(w[97] == cube_direction_part_1(cube_direction_part_0(Seq::empty(), ib, t, function_type, c, glsl_std_id), ib, t, function_type, c, glsl_std_id)[97]);
    assert(w[98] == cube_direction_part_1(cube_direction_part_0(Seq::empty(), ib, t, function_type, c, glsl_std_id), ib, t, function_type, c, glsl_std_id)[98]);
    assert(w[99] == cube_direction_part_1(cube_direction_part_0(Seq::empty(), ib, t, function_type, c, glsl_std_id), ib, t, function_type, c, glsl_std_id)[99]);
    assert(w[100] == cube_direction_part_1(cube_direction_part_0(Seq::empty(), ib, t, function_type, c, glsl_std_id), ib, t, function_type, c, glsl_std_id)[100]);
}

#[verifier::spinoff_prover]
#[verifier::rlimit(60)]
proof fn lemma_cube_words_x_vs_z(
    ib: int,
    t: CubeDirectionTypeInputs,
    function_type: u32,
    c: CubeDirectionConstants,
    glsl_std_id: u32,
)
    ensures
        cube_direction_words(ib, t, function_type, c, glsl_std_id)[101] == spec_encode_word(2, spv::SPV_INSTRUCTION_OP_LABEL),
        cube_direction_words(ib, t, function_type, c, glsl_std_id)[102] == cid(ib, 23),
        cube_direction_words(ib, t, function_type, c, glsl_std_id)[103] == spec_encode_word(5, spv::SPV_INSTRUCTION_OP_ACCESS_CHAIN),
        cube_direction_words(ib, t, function_type, c, glsl_std_id)[105] == cid(ib, 24),
        cube_direction_words(ib, t, function_type, c, glsl_std_id)[106] == cid(ib, 3),
        cube_direction_words(ib, t, function_type, c, glsl_std_id)[107] == c.int_0,
        cube_direction_words(ib, t, function_type, c, glsl_std_id)[108] == spec_encode_word(4, spv::SPV_INSTRUCTION_OP_LOAD),
        cube_direction_words(ib, t, function_type, c, glsl_std_id)[109] == t.int_id,
        cube_direction_words(ib, t, function_type, c, glsl_std_id)[110] == cid(ib, 25),
        cube_direction_words(ib, t, function_type, c, glsl_std_id)[111] == cid(ib, 24),
        cube_direction_words(ib, t, function_type, c, glsl_std_id)[112] == spec_encode_word(5, spv::SPV_INSTRUCTION_OP_ACCESS_CHAIN),
        cube_direction_words(ib, t, function_type, c, glsl_std_id)[114] == cid(ib, 26),
        cube_direction_words(ib, t, function_type, c, glsl_std_id)[115] == cid(ib, 3),
        cube_direction_words(ib, t, function_type, c, glsl_std_id)[116] == c.int_2,
        cube_direction_words(ib, t, function_type, c, glsl_std_id)[117] == spec_encode_word(4, spv::SPV_INSTRUCTION_OP_LOAD),
        cube_direction_words(ib, t, function_type, c, glsl_std_id)[118] == t.int_id,
        cube_direction_words(ib, t, function_type, c, glsl_std_id)[119] == cid(ib, 27),
        cube_direction_words(ib, t, function_type, c, glsl_std_id)[120] == cid(ib, 26),
        cube_direction_words(ib, t, function_type, c, glsl_std_id)[121] == spec_encode_word(5, spv::SPV_INSTRUCTION_OP_S_GREATER_THAN_EQUAL),
        cube_direction_words(ib, t, function_type, c, glsl_std_id)[123] == cid(ib, 28),
        cube_direction_words(ib, t, function_type, c, glsl_std_id)[124] == cid(ib, 25),
        cube_direction_words(ib, t, function_type, c, glsl_std_id)[125] == cid(ib, 27),
        cube_direction_words(ib, t, function_type, c, glsl_std_id)[126] == spec_encode_word(2, spv::SPV_INSTRUCTION_OP_BRANCH),
        cube_direction_words(ib, t, function_type, c, glsl_std_id)[127] == cid(ib, 22),
{
    lemma_cube_parts(ib, t, function_type, c, glsl_std_id);
    let w = cube_direction_words(ib, t, function_type, c, glsl_std_id);
    assert(w[101] == cube_direction_part_1(cube_direction_part_0(Seq::empty(), ib, t, function_type, c, glsl_std_id), ib, t, function_type, c, glsl_std_id)[101]);
    assert(w[102] == cube_direction_part_1(cube_direction_part_0(Seq::empty(), ib, t, function_type, c, glsl_std_id), ib, t, function_type, c, glsl_std_id)[102]);
    assert(w[103] == cube_direction_part_1(cube_direction_part_0(Seq::empty(), ib, t, function_type, c, glsl_std_id), ib, t, function_type, c, glsl_std_id)[103]);
    assert(w[105] == cube_direction_part_1(cube_direction_part_0(Seq::empty(), ib, t, function_type, c, glsl_std_id), ib, t, function_type, c, glsl_std_id)[105]);
    assert(w[106] == cube_direction_part_1(cube_direction_part_0(Seq::empty(), ib, t, function_type, c, glsl_std_id), ib, t, function_type, c, glsl_std_id)[106]);
    assert(w[107] == cube_direction_part_1(cube_direction_part_0(Seq::empty(), ib, t, function_type, c, glsl_std_id), ib, t, function_type, c, glsl_std_id)[107]);
    assert(w[108] == cube_direction_part_1(cube_direction_part_0(Seq::empty(), ib, t, function_type, c, glsl_std_id), ib, t, function_type, c, glsl_std_id)[108]);
    assert(w[109] == cube_direction_part_1(cube_direction_part_0(Seq::empty(), ib, t, function_type, c, glsl_std_id), ib, t, function_type, c, glsl_std_id)[109]);
    assert(w[110] == cube_direction_part_1(cube_direction_part_0(Seq::empty(), ib, t, function_type, c, glsl_std_id), ib, t, function_type, c, glsl_std_id)[110]);
    assert(w[111] == cube_direction_part_1(cube_direction_part_0(Seq::empty(), ib, t, function_type, c, glsl_std_id), ib, t, function_type, c, glsl_std_id)[111]);
    assert(w[112] == cube_direction_part_1(cube_direction_part_0(Seq::empty(), ib, t, function_type, c, glsl_std_id), ib, t, function_type, c, glsl_std_id)[112]);
    assert(w[114] == cube_direction_part_1(cube_direction_part_0(Seq::empty(), ib, t, function_type, c, glsl_std_id), ib, t, function_type, c, glsl_std_id)[114]);
    assert(w[115] == cube_direction_part_1(cube_direction_part_0(Seq::empty(), ib, t, function_type, c, glsl_std_id), ib, t, function_type, c, glsl_std_id)[115]);
    assert(w[116] == cube_direction_part_1(cube_direction_part_0(Seq::empty(), ib, t, function_type, c, glsl_std_id), ib, t, function_type, c, glsl_std_id)[116]);
    assert(w[117] == cube_direction_part_1(cube_direction_part_0(Seq::empty(), ib, t, function_type, c, glsl_std_id), ib, t, function_type, c, glsl_std_id)[117]);
    assert(w[118] == cube_direction_part_1(cube_direction_part_0(Seq::empty(), ib, t, function_type, c, glsl_std_id), ib, t, function_type, c, glsl_std_id)[118]);
    assert(w[119] == cube_direction_part_1(cube_direction_part_0(Seq::empty(), ib, t, function_type, c, glsl_std_id), ib, t, function_type, c, glsl_std_id)[119]);
    assert(w[120] == cube_direction_part_1(cube_direction_part_0(Seq::empty(), ib, t, function_type, c, glsl_std_id), ib, t, function_type, c, glsl_std_id)[120]);
    assert(w[121] == cube_direction_part_1(cube_direction_part_0(Seq::empty(), ib, t, function_type, c, glsl_std_id), ib, t, function_type, c, glsl_std_id)[121]);
    assert(w[123] == cube_direction_part_1(cube_direction_part_0(Seq::empty(), ib, t, function_type, c, glsl_std_id), ib, t, function_type, c, glsl_std_id)[123]);
    assert(w[124] == cube_direction_part_1(cube_direction_part_0(Seq::empty(), ib, t, function_type, c, glsl_std_id), ib, t, function_type, c, glsl_std_id)[124]);
    assert(w[125] == cube_direction_part_1(cube_direction_part_0(Seq::empty(), ib, t, function_type, c, glsl_std_id), ib, t, function_type, c, glsl_std_id)[125]);
    assert(w[126] == cube_direction_part_1(cube_direction_part_0(Seq::empty(), ib, t, function_type, c, glsl_std_id), ib, t, function_type, c, glsl_std_id)[126]);
    assert(w[127] == cube_direction_part_1(cube_direction_part_0(Seq::empty(), ib, t, function_type, c, glsl_std_id), ib, t, function_type, c, glsl_std_id)[127]);
}

#[verifier::spinoff_prover]
#[verifier::rlimit(60)]
proof fn lemma_cube_words_x_flag(
    ib: int,
    t: CubeDirectionTypeInputs,
    function_type: u32,
    c: CubeDirectionConstants,
    glsl_std_id: u32,
)
    ensures
        cube_direction_words(ib, t, function_type, c, glsl_std_id)[128] == spec_encode_word(2, spv::SPV_INSTRUCTION_OP_LABEL),
        cube_direction_words(ib, t, function_type, c, glsl_std_id)[129] == cid(ib, 22),
        cube_direction_words(ib, t, function_type, c, glsl_std_id)[130] == spec_encode_word(7, spv::SPV_INSTRUCTION_OP_PHI),
        cube_direction_words(ib, t, function_type, c, glsl_std_id)[132] == cid(ib, 29),
        cube_direction_words(ib, t, function_type, c, glsl_std_id)[133] == cid(ib, 21),
        cube_direction_words(ib, t, function_type, c, glsl_std_id)[134] == cid(ib, 2),
        cube_direction_words(ib, t, function_type, c, glsl_std_id)[135] == cid(ib, 28),
        cube_direction_words(ib, t, function_type, c, glsl_std_id)[136] == cid(ib, 23),
        cube_direction_words(ib, t, function_type, c, glsl_std_id)[137] == spec_encode_word(3, spv::SPV_INSTRUCTION_OP_STORE),
        cube_direction_words(ib, t, function_type, c, glsl_std_id)[138] == cid(ib, 4),
        cube_direction_words(ib, t, function_type, c, glsl_std_id)[139] == cid(ib, 29),
        cube_direction_words(ib, t, function_type, c, glsl_std_id)[140] == spec_encode_word(5, spv::SPV_INSTRUCTION_OP_ACCESS_CHAIN),
        cube_direction_words(ib, t, function_type, c, glsl_std_id)[142] == cid(ib, 30),
        cube_direction_words(ib, t, function_type, c, glsl_std_id)[143] == cid(ib, 3),
        cube_direction_words(ib, t, function_type, c, glsl_std_id)[144] == c.int_1,
        cube_direction_words(ib, t, function_type, c, glsl_std_id)[145] == spec_encode_word(4, spv::SPV_INSTRUCTION_OP_LOAD),
        cube_direction_words(ib, t, function_type, c, glsl_std_id)[146] == t.int_id,
        cube_direction_words(ib, t, function_type, c, glsl_std_id)[147] == cid(ib, 31),
        cube_direction_words(ib, t, function_type, c, glsl_std_id)[148] == cid(ib, 30),
        cube_direction_words(ib, t, function_type, c, glsl_std_id)[149] == spec_encode_word(5, spv::SPV_INSTRUCTION_OP_ACCESS_CHAIN),
        cube_direction_words(ib, t, function_type, c, glsl_std_id)[151] == cid(ib, 32),
        cube_direction_words(ib, t, function_type, c, glsl_std_id)[152] == cid(ib, 3),
        cube_direction_words(ib, t, function_type, c, glsl_std_id)[153] == c.int_0,
        cube_direction_words(ib, t, function_type, c, glsl_std_id)[154] == spec_encode_word(4, spv::SPV_INSTRUCTION_OP_LOAD),
        cube_direction_words(ib, t, function_type, c, glsl_std_id)[155] == t.int_id,
        cube_direction_words(ib, t, function_type, c, glsl_std_id)[156] == cid(ib, 33),
        cube_direction_words(ib, t, function_type, c, glsl_std_id)[157] == cid(ib, 32),
        cube_direction_words(ib, t, function_type, c, glsl_std_id)[158] == spec_encode_word(5, spv::SPV_INSTRUCTION_OP_S_GREATER_THAN),
        cube_direction_words(ib, t, function_type, c, glsl_std_id)[160] == cid(ib, 34),
        cube_direction_words(ib, t, function_type, c, glsl_std_id)[161] == cid(ib, 31),
        cube_direction_words(ib, t, function_type, c, glsl_std_id)[162] == cid(ib, 33),
        cube_direction_words(ib, t, function_type, c, glsl_std_id)[163] == spec_encode_word(3, spv::SPV_INSTRUCTION_OP_SELECTION_MERGE),
        cube_direction_words(ib, t, function_type, c, glsl_std_id)[166] == spec_encode_word(4, spv::SPV_INSTRUCTION_OP_BRANCH_CONDITIONAL),
        cube_direction_words(ib, t, function_type, c, glsl_std_id)[167] == cid(ib, 34),
        cube_direction_words(ib, t, function_type, c, glsl_std_id)[168] == cid(ib, 36),
        cube_direction_words(ib, t, function_type, c, glsl_std_id)[169] == cid(ib, 35),
{
    lemma_cube_parts(ib, t, function_type, c, glsl_std_id);
    let w = cube_direction_words(ib, t, function_type, c, glsl_std_id);
    assert(w[128] == cube_direction_part_1(cube_direction_part_0(Seq::empty(), ib, t, function_type, c, glsl_std_id), ib, t, function_type, c, glsl_std_id)[128]);
    assert(w[129] == cube_direction_part_1(cube_direction_part_0(Seq::empty(), ib, t, function_type, c, glsl_std_id), ib, t, function_type, c, glsl_std_id)[129]);
    assert(w[130] == cube_direction_part_1(cube_direction_part_0(Seq::empty(), ib, t, function_type, c, glsl_std_id), ib, t, function_type, c, glsl_std_id)[130]);
    assert(w[132] == cube_direction_part_1(cube_direction_part_0(Seq::empty(), ib, t, function_type, c, glsl_std_id), ib, t, function_type, c, glsl_std_id)[132]);
    assert(w[133] == cube_direction_part_1(cube_direction_part_0(Seq::empty(), ib, t, function_type, c, glsl_std_id), ib, t, function_type, c, glsl_std_id)[133]);
    assert(w[134] == cube_direction_part_1(cube_direction_part_0(Seq::empty(), ib, t, function_type, c, glsl_std_id), ib, t, function_type, c, glsl_std_id)[134]);
    assert(w[135] == cube_direction_part_1(cube_direction_part_0(Seq::empty(), ib, t, function_type, c, glsl_std_id), ib, t, function_type, c, glsl_std_id)[135]);
    assert(w[136] == cube_direction_part_1(cube_direction_part_0(Seq::empty(), ib, t, function_type, c, glsl_std_id), ib, t, function_type, c, glsl_std_id)[136]);
    assert(w[137] == cube_direction_part_1(cube_direction_part_0(Seq::empty(), ib, t, function_type, c, glsl_std_id), ib, t, function_type, c, glsl_std_id)[137]);
    assert(w[138] == cube_direction_part_1(cube_direction_part_0(Seq::empty(), ib, t, function_type, c, glsl_std_id), ib, t, function_type, c, glsl_std_id)[138]);
    assert(w[139] == cube_direction_part_1(cube_direction_part_0(Seq::empty(), ib, t, function_type, c, glsl_std_id), ib, t, function_type, c, glsl_std_id)[139]);
    assert(w[140] == cube_direction_part_1(cube_direction_part_0(Seq::empty(), ib, t, function_type, c, glsl_std_id), ib, t, function_type, c, glsl_std_id)[140]);
    assert(w[142] == cube_direction_part_1(cube_direction_part_0(Seq::empty(), ib, t, function_type, c, glsl_std_id), ib, t, function_type, c, glsl_std_id)[142]);
    assert(w[143] == cube_direction_part_1(cube_direction_part_0(Seq::empty(), ib, t, function_type, c, glsl_std_id), ib, t, function_type, c, glsl_std_id)[143]);
    assert(w[144] == cube_direction_part_1(cube_direction_part_0(Seq::empty(), ib, t, function_type, c, glsl_std_id), ib, t, function_type, c, glsl_std_id)[144]);
    assert(w[145] == cube_direction_part_1(cube_direction_part_0(Seq::empty(), ib, t, function_type, c, glsl_std_id), ib, t, function_type, c, glsl_std_id)[145]);
    assert(w[146] == cube_direction_part_1(cube_direction_part_0(Seq::empty(), ib, t, function_type, c, glsl_std_id), ib, t, function_type, c, glsl_std_id)[146]);
    assert(w[147] == cube_direction_part_1(cube_direction_part_0(Seq::empty(), ib, t, function_type, c, glsl_std_id), ib, t, function_type, c, glsl_std_id)[147]);
    assert(w[148] == cube_direction_part_1(cube_direction_part_0(Seq::empty(), ib, t, function_type, c, glsl_std_id), ib, t, function_type, c, glsl_std_id)[148]);
    assert(w[149] == cube_direction_part_1(cube_direction_part_0(Seq::empty(), ib, t, function_type, c, glsl_std_id), ib, t, function_type, c, glsl_std_id)[149]);
    assert(w[151] == cube_direction_part_1(cube_direction_part_0(Seq::empty(), ib, t, function_type, c, glsl_std_id), ib, t, function_type, c, glsl_std_id)[151]);
    assert(w[152] == cube_direction_part_1(cube_direction_part_0(Seq::empty(), ib, t, function_type, c, glsl_std_id), ib, t, function_type, c, glsl_std_id)[152]);
    assert(w[153] == cube_direction_part_1(cube_direction_part_0(Seq::empty(), ib, t, function_type, c, glsl_std_id), ib, t, function_type, c, glsl_std_id)[153]);
    assert(w[154] == cube_direction_part_1(cube_direction_part_0(Seq::empty(), ib, t, function_type, c, glsl_std_id), ib, t, function_type, c, glsl_std_id)[154]);
    assert(w[155] == cube_direction_part_1(cube_direction_part_0(Seq::empty(), ib, t, function_type, c, glsl_std_id), ib, t, function_type, c, glsl_std_id)[155]);
    assert(w[156] == cube_direction_part_1(cube_direction_part_0(Seq::empty(), ib, t, function_type, c, glsl_std_id), ib, t, function_type, c, glsl_std_id)[156]);
    assert(w[157] == cube_direction_part_1(cube_direction_part_0(Seq::empty(), ib, t, function_type, c, glsl_std_id), ib, t, function_type, c, glsl_std_id)[157]);
    assert(w[158] == cube_direction_part_1(cube_direction_part_0(Seq::empty(), ib, t, function_type, c, glsl_std_id), ib, t, function_type, c, glsl_std_id)[158]);
    assert(w[160] == cube_direction_part_1(cube_direction_part_0(Seq::empty(), ib, t, function_type, c, glsl_std_id), ib, t, function_type, c, glsl_std_id)[160]);
    assert(w[161] == cube_direction_part_1(cube_direction_part_0(Seq::empty(), ib, t, function_type, c, glsl_std_id), ib, t, function_type, c, glsl_std_id)[161]);
    assert(w[162] == cube_direction_part_1(cube_direction_part_0(Seq::empty(), ib, t, function_type, c, glsl_std_id), ib, t, function_type, c, glsl_std_id)[162]);
    assert(w[163] == cube_direction_part_2(cube_direction_part_1(cube_direction_part_0(Seq::empty(), ib, t, function_type, c, glsl_std_id), ib, t, function_type, c, glsl_std_id), ib, t, function_type, c, glsl_std_id)[163]);
    assert(w[166] == cube_direction_part_2(cube_direction_part_1(cube_direction_part_0(Seq::empty(), ib, t, function_type, c, glsl_std_id), ib, t, function_type, c, glsl_std_id), ib, t, function_type, c, glsl_std_id)[166]);
    assert(w[167] == cube_direction_part_2(cube_direction_part_1(cube_direction_part_0(Seq::empty(), ib, t, function_type, c, glsl_std_id), ib, t, function_type, c, glsl_std_id), ib, t, function_type, c, glsl_std_id)[167]);
    assert(w[168] == cube_direction_part_2(cube_direction_part_1(cube_direction_part_0(Seq::empty(), ib, t, function_type, c, glsl_std_id), ib, t, function_type, c, glsl_std_id), ib, t, function_type, c, glsl_std_id)[168]);
    assert(w[169] == cube_direction_part_2(cube_direction_part_1(cube_direction_part_0(Seq::empty(), ib, t, function_type, c, glsl_std_id), ib, t, function_type, c, glsl_std_id), ib, t, function_type, c, glsl_std_id)[169]);
}

#[verifier::spinoff_prover]
#[verifier::rlimit(60)]
proof fn lemma_cube_words_y_vs_z(
    ib: int,
    t: CubeDirectionTypeInputs,
    function_type: u32,
    c: CubeDirectionConstants,
    glsl_std_id: u32,
)
    ensures
        cube_direction_words(ib, t, function_type, c, glsl_std_id)[170] == spec_encode_word(2, spv::SPV_INSTRUCTION_OP_LABEL),
        cube_direction_words(ib, t, function_type, c, glsl_std_id)[171] == cid(ib, 36),
        cube_direction_words(ib, t, function_type, c, glsl_std_id)[172] == spec_encode_word(5, spv::SPV_INSTRUCTION_OP_ACCESS_CHAIN),
        cube_direction_words(ib, t, function_type, c, glsl_std_id)[174] == cid(ib, 37),
        cube_direction_words(ib, t, function_type, c, glsl_std_id)[175] == cid(ib, 3),
        cube_direction_words(ib, t, function_type, c, glsl_std_id)[176] == c.int_1,
        cube_direction_words(ib, t, function_type, c, glsl_std_id)[177] == spec_encode_word(4, spv::SPV_INSTRUCTION_OP_LOAD),
        cube_direction_words(ib, t, function_type, c, glsl_std_id)[178] == t.int_id,
        cube_direction_words(ib, t, function_type, c, glsl_std_id)[179] == cid(ib, 38),
        cube_direction_words(ib, t, function_type, c, glsl_std_id)[180] == cid(ib, 37),
        cube_direction_words(ib, t, function_type, c, glsl_std_id)[181] == spec_encode_word(5, spv::SPV_INSTRUCTION_OP_ACCESS_CHAIN),
        cube_direction_words(ib, t, function_type, c, glsl_std_id)[183] == cid(ib, 39),
        cube_direction_words(ib, t, function_type, c, glsl_std_id)[184] == cid(ib, 3),
        cube_direction_words(ib, t, function_type, c, glsl_std_id)[185] == c.int_2,
        cube_direction_words(ib, t, function_type, c, glsl_std_id)[186] == spec_encode_word(4, spv::SPV_INSTRUCTION_OP_LOAD),
        cube_direction_words(ib, t, function_type, c, glsl_std_id)[187] == t.int_id,
        cube_direction_words(ib, t, function_type, c, glsl_std_id)[188] == cid(ib, 40),
        cube_direction_words(ib, t, function_type, c, glsl_std_id)[189] == cid(ib, 39),
        cube_direction_words(ib, t, function_type, c, glsl_std_id)[190] == spec_encode_word(5, spv::SPV_INSTRUCTION_OP_S_GREATER_THAN_EQUAL),
        cube_direction_words(ib, t, function_type, c, glsl_std_id)[192] == cid(ib, 41),
        cube_direction_words(ib, t, function_type, c, glsl_std_id)[193] == cid(ib, 38),
        cube_direction_words(ib, t, function_type, c, glsl_std_id)[194] == cid(ib, 40),
        cube_direction_words(ib, t, function_type, c, glsl_std_id)[195] == spec_encode_word(2, spv::SPV_INSTRUCTION_OP_BRANCH),
        cube_direction_words(ib, t, function_type, c, glsl_std_id)[196] == cid(ib, 35),
{
    lemma_cube_parts(ib, t, function_type, c, glsl_std_id);
    let w = cube_direction_words(ib, t, function_type, c, glsl_std_id);
    assert(w[170] == cube_direction_part_2(cube_direction_part_1(cube_direction_part_0(Seq::empty(), ib, t, function_type, c, glsl_std_id), ib, t, function_type, c, glsl_std_id), ib, t, function_type, c, glsl_std_id)[170]);
    assert(w[171] == cube_direction_part_2(cube_direction_part_1(cube_direction_part_0(Seq::empty(), ib, t, function_type, c, glsl_std_id), ib, t, function_type, c, glsl_std_id), ib, t, function_type, c, glsl_std_id)[171]);
    assert(w[172] == cube_direction_part_2(cube_direction_part_1(cube_direction_part_0(Seq::empty(), ib, t, function_type, c, glsl_std_id), ib, t, function_type, c, glsl_std_id), ib, t, function_type, c, glsl_std_id)[172]);
    assert(w[174] == cube_direction_part_2(cube_direction_part_1(cube_direction_part_0(Seq::empty(), ib, t, function_type, c, glsl_std_id), ib, t, function_type, c, glsl_std_id), ib, t, function_type, c, glsl_std_id)[174]);
    assert(w[175] == cube_direction_part_2(cube_direction_part_1(cube_direction_part_0(Seq::empty(), ib, t, function_type, c, glsl_std_id), ib, t, function_type, c, glsl_std_id), ib, t, function_type, c, glsl_std_id)[175]);
    assert(w[176] == cube_direction_part_2(cube_direction_part_1(cube_direction_part_0(Seq::empty(), ib, t, function_type, c, glsl_std_id), ib, t, function_type, c, glsl_std_id), ib, t, function_type, c, glsl_std_id)[176]);
    assert(w[177] == cube_direction_part_2(cube_direction_part_1(cube_direction_part_0(Seq::empty(), ib, t, function_type, c, glsl_std_id), ib, t, function_type, c, glsl_std_id), ib, t, function_type, c, glsl_std_id)[177]);
    assert(w[178] == cube_direction_part_2(cube_direction_part_1(cube_direction_part_0(Seq::empty(), ib, t, function_type, c, glsl_std_id), ib, t, function_type, c, glsl_std_id), ib, t, function_type, c, glsl_std_id)[178]);
    assert(w[179] == cube_direction_part_2(cube_direction_part_1(cube_direction_part_0(Seq::empty(), ib, t, function_type, c, glsl_std_id), ib, t, function_type, c, glsl_std_id), ib, t, function_type, c, glsl_std_id)[179]);
    assert(w[180] == cube_direction_part_2(cube_direction_part_1(cube_direction_part_0(Seq::empty(), ib, t, function_type, c, glsl_std_id), ib, t, function_type, c, glsl_std_id), ib, t, function_type, c, glsl_std_id)[180]);
    assert(w[181] == cube_direction_part_2(cube_direction_part_1(cube_direction_part_0(Seq::empty(), ib, t, function_type, c, glsl_std_id), ib, t, function_type, c, glsl_std_id), ib, t, function_type, c, glsl_std_id)[181]);
    assert(w[183] == cube_direction_part_2(cube_direction_part_1(cube_direction_part_0(Seq::empty(), ib, t, function_type, c, glsl_std_id), ib, t, function_type, c, glsl_std_id), ib, t, function_type, c, glsl_std_id)[183]);
    assert(w[184] == cube_direction_part_2(cube_direction_part_1(cube_direction_part_0(Seq::empty(), ib, t, function_type, c, glsl_std_id), ib, t, function_type, c, glsl_std_id), ib, t, function_type, c, glsl_std_id)[184]);
    assert(w[185] == cube_direction_part_2(cube_direction_part_1(cube_direction_part_0(Seq::empty(), ib, t, function_type, c, glsl_std_id), ib, t, function_type, c, glsl_std_id), ib, t, function_type, c, glsl_std_id)[185]);
    assert(w[186] == cube_direction_part_2(cube_direction_part_1(cube_direction_part_0(Seq::empty(), ib, t, function_type, c, glsl_std_id), ib, t, function_type, c, glsl_std_id), ib, t, function_type, c, glsl_std_id)[186]);
    assert(w[187] == cube_direction_part_2(cube_direction_part_1(cube_direction_part_0(Seq::empty(), ib, t, function_type, c, glsl_std_id), ib, t, function_type, c, glsl_std_id), ib, t, function_type, c, glsl_std_id)[187]);
    assert(w[188] == cube_direction_part_2(cube_direction_part_1(cube_direction_part_0(Seq::empty(), ib, t, function_type, c, glsl_std_id), ib, t, function_type, c, glsl_std_id), ib, t, function_type, c, glsl_std_id)[188]);
    assert(w[189] == cube_direction_part_2(cube_direction_part_1(cube_direction_part_0(Seq::empty(), ib, t, function_type, c, glsl_std_id), ib, t, function_type, c, glsl_std_id), ib, t, function_type, c, glsl_std_id)[189]);
    assert(w[190] == cube_direction_part_2(cube_direction_part_1(cube_direction_part_0(Seq::empty(), ib, t, function_type, c, glsl_std_id), ib, t, function_type, c, glsl_std_id), ib, t, function_type, c, glsl_std_id)[190]);
    assert(w[192] == cube_direction_part_2(cube_direction_part_1(cube_direction_part_0(Seq::empty(), ib, t, function_type, c, glsl_std_id), ib, t, function_type, c, glsl_std_id), ib, t, function_type, c, glsl_std_id)[192]);
    assert(w[193] == cube_direction_part_2(cube_direction_part_1(cube_direction_part_0(Seq::empty(), ib, t, function_type, c, glsl_std_id), ib, t, function_type, c, glsl_std_id), ib, t, function_type, c, glsl_std_id)[193]);
    assert(w[194] == cube_direction_part_2(cube_direction_part_1(cube_direction_part_0(Seq::empty(), ib, t, function_type, c, glsl_std_id), ib, t, function_type, c, glsl_std_id), ib, t, function_type, c, glsl_std_id)[194]);
    assert(w[195] == cube_direction_part_2(cube_direction_part_1(cube_direction_part_0(Seq::empty(), ib, t, function_type, c, glsl_std_id), ib, t, function_type, c, glsl_std_id), ib, t, function_type, c, glsl_std_id)[195]);
    assert(w[196] == cube_direction_part_2(cube_direction_part_1(cube_direction_part_0(Seq::empty(), ib, t, function_type, c, glsl_std_id), ib, t, function_type, c, glsl_std_id), ib, t, function_type, c, glsl_std_id)[196]);
}

#[verifier::spinoff_prover]
#[verifier::rlimit(60)]
proof fn lemma_cube_words_y_flag(
    ib: int,
    t: CubeDirectionTypeInputs,
    function_type: u32,
    c: CubeDirectionConstants,
    glsl_std_id: u32,
)
    ensures
        cube_direction_words(ib, t, function_type, c, glsl_std_id)[197] == spec_encode_word(2, spv::SPV_INSTRUCTION_OP_LABEL),
        cube_direction_words(ib, t, function_type, c, glsl_std_id)[198] == cid(ib, 35),
        cube_direction_words(ib, t, function_type, c, glsl_std_id)[199] == spec_encode_word(7, spv::SPV_INSTRUCTION_OP_PHI),
        cube_direction_words(ib, t, function_type, c, glsl_std_id)[201] == cid(ib, 42),
        cube_direction_words(ib, t, function_type, c, glsl_std_id)[202] == cid(ib, 34),
        cube_direction_words(ib, t, function_type, c, glsl_std_id)[203] == cid(ib, 22),
        cube_direction_words(ib, t, function_type, c, glsl_std_id)[204] == cid(ib, 41),
        cube_direction_words(ib, t, function_type, c, glsl_std_id)[205] == cid(ib, 36),
        cube_direction_words(ib, t, function_type, c, glsl_std_id)[206] == spec_encode_word(3, spv::SPV_INSTRUCTION_OP_STORE),
        cube_direction_words(ib, t, function_type, c, glsl_std_id)[207] == cid(ib, 5),
        cube_direction_words(ib, t, function_type, c, glsl_std_id)[208] == cid(ib, 42),
        cube_direction_words(ib, t, function_type, c, glsl_std_id)[209] == spec_encode_word(4, spv::SPV_INSTRUCTION_OP_LOAD),
        cube_direction_words(ib, t, function_type, c, glsl_std_id)[210] == t.bool_id,
        cube_direction_words(ib, t, function_type, c, glsl_std_id)[211] == cid(ib, 43),
        cube_direction_words(ib, t, function_type, c, glsl_std_id)[212] == cid(ib, 4),
        cube_direction_words(ib, t, function_type, c, glsl_std_id)[213] == spec_encode_word(3, spv::SPV_INSTRUCTION_OP_SELECTION_MERGE),
        cube_direction_words(ib, t, function_type, c, glsl_std_id)[216] == spec_encode_word(4, spv::SPV_INSTRUCTION_OP_BRANCH_CONDITIONAL),
        cube_direction_words(ib, t, function_type, c, glsl_std_id)[217] == cid(ib, 43),
        cube_direction_words(ib, t, function_type, c, glsl_std_id)[218] == cid(ib, 45),
        cube_direction_words(ib, t, function_type, c, glsl_std_id)[219] == cid(ib, 46),
{
    lemma_cube_parts(ib, t, function_type, c, glsl_std_id);
    let w = cube_direction_words(ib, t, function_type, c, glsl_std_id);
    assert(w[197] == cube_direction_part_2(cube_direction_part_1(cube_direction_part_0(Seq::empty(), ib, t, function_type, c, glsl_std_id), ib, t, function_type, c, glsl_std_id), ib, t, function_type, c, glsl_std_id)[197]);
    assert(w[198] == cube_direction_part_2(cube_direction_part_1(cube_direction_part_0(Seq::empty(), ib, t, function_type, c, glsl_std_id), ib, t, function_type, c, glsl_std_id), ib, t, function_type, c, glsl_std_id)[198]);
    assert(w[199] == cube_direction_part_2(cube_direction_part_1(cube_direction_part_0(Seq::empty(), ib, t, function_type, c, glsl_std_id), ib, t, function_type, c, glsl_std_id), ib, t, function_type, c, glsl_std_id)[199]);
    assert(w[201] == cube_direction_part_2(cube_direction_part_1(cube_direction_part_0(Seq::empty(), ib, t, function_type, c, glsl_std_id), ib, t, function_type, c, glsl_std_id), ib, t, function_type, c, glsl_std_id)[201]);
    assert(w[202] == cube_direction_part_2(cube_direction_part_1(cube_direction_part_0(Seq::empty(), ib, t, function_type, c, glsl_std_id), ib, t, function_type, c, glsl_std_id), ib, t, function_type, c, glsl_std_id)[202]);
    assert(w[203] == cube_direction_part_2(cube_direction_part_1(cube_direction_part_0(Seq::empty(), ib, t, function_type, c, glsl_std_id), ib, t, function_type, c, glsl_std_id), ib, t, function_type, c, glsl_std_id)[203]);
    assert(w[204] == cube_direction_part_2(cube_direction_part_1(cube_direction_part_0(Seq::empty(), ib, t, function_type, c, glsl_std_id), ib, t, function_type, c, glsl_std_id), ib, t, function_type, c, glsl_std_id)[204]);
    assert(w[205] == cube_direction_part_2(cube_direction_part_1(cube_direction_part_0(Seq::empty(), ib, t, function_type, c, glsl_std_id), ib, t, function_type, c, glsl_std_id), ib, t, function_type, c, glsl_std_id)[205]);
    assert(w[206] == cube_direction_part_2(cube_direction_part_1(cube_direction_part_0(Seq::empty(), ib, t, function_type, c, glsl_std_id), ib, t, function_type, c, glsl_std_id), ib, t, function_type, c, glsl_std_id)[206]);
    assert(w[207] == cube_direction_part_2(cube_direction_part_1(cube_direction_part_0(Seq::empty(), ib, t, function_type, c, glsl_std_id), ib, t, function_type, c, glsl_std_id), ib, t, function_type, c, glsl_std_id)[207]);
    assert(w[208] == cube_direction_part_2(cube_direction_part_1(cube_direction_part_0(Seq::empty(), ib, t, function_type, c, glsl_std_id), ib, t, function_type, c, glsl_std_id), ib, t, function_type, c, glsl_std_id)[208]);
    assert(w[209] == cube_direction_part_2(cube_direction_part_1(cube_direction_part_0(Seq::empty(), ib, t, function_type, c, glsl_std_id), ib, t, function_type, c, glsl_std_id), ib, t, function_type, c, glsl_std_id)[209]);
    assert(w[210] == cube_direction_part_2(cube_direction_part_1(cube_direction_part_0(Seq::empty(), ib, t, function_type, c, glsl_std_id), ib, t, function_type, c, glsl_std_id), ib, t, function_type, c, glsl_std_id)[210]);
    assert(w[211] == cube_direction_part_2(cube_direction_part_1(cube_direction_part_0(Seq::empty(), ib, t, function_type, c, glsl_std_id), ib, t, function_type, c, glsl_std_id), ib, t, function_type, c, glsl_std_id)[211]);
    assert(w[212] == cube_direction_part_2(cube_direction_part_1(cube_direction_part_0(Seq::empty(), ib, t, function_type, c, glsl_std_id), ib, t, function_type, c, glsl_std_id), ib, t, function_type, c, glsl_std_id)[212]);
    assert(w[213] == cube_direction_part_2(cube_direction_part_1(cube_direction_part_0(Seq::empty(), ib, t, function_type, c, glsl_std_id), ib, t, function_type, c, glsl_std_id), ib, t, function_type, c, glsl_std_id)[213]);
    assert(w[216] == cube_direction_part_2(cube_direction_part_1(cube_direction_part_0(Seq::empty(), ib, t, function_type, c, glsl_std_id), ib, t, function_type, c, glsl_std_id), ib, t, function_type, c, glsl_std_id)[216]);
    assert(w[217] == cube_direction_part_2(cube_direction_part_1(cube_direction_part_0(Seq::empty(), ib, t, function_type, c, glsl_std_id), ib, t, function_type, c, glsl_std_id), ib, t, function_type, c, glsl_std_id)[217]);
    assert(w[218] == cube_direction_part_2(cube_direction_part_1(cube_direction_part_0(Seq::empty(), ib, t, function_type, c, glsl_std_id), ib, t, function_type, c, glsl_std_id), ib, t, function_type, c, glsl_std_id)[218]);
    assert(w[219] == cube_direction_part_2(cube_direction_part_1(cube_direction_part_0(Seq::empty(), ib, t, function_type, c, glsl_std_id), ib, t, function_type, c, glsl_std_id), ib, t, function_type, c, glsl_std_id)[219]);
}

#[verifier::spinoff_prover]
#[verifier::rlimit(60)]
proof fn lemma_cube_words_x_block(
    ib: int,
    t: CubeDirectionTypeInputs,
    function_type: u32,
    c: CubeDirectionConstants,
    glsl_std_id: u32,
)
    ensures
        cube_direction_words(ib, t, function_type, c, glsl_std_id)[220] == spec_encode_word(2, spv::SPV_INSTRUCTION_OP_LABEL),
        cube_direction_words(ib, t, function_type, c, glsl_std_id)[221] == cid(ib, 45),
        cube_direction_words(ib, t, function_type, c, glsl_std_id)[222] == spec_encode_word(5, spv::SPV_INSTRUCTION_OP_ACCESS_CHAIN),
        cube_direction_words(ib, t, function_type, c, glsl_std_id)[224] == cid(ib, 47),
        cube_direction_words(ib, t, function_type, c, glsl_std_id)[225] == cid(ib, 1),
        cube_direction_words(ib, t, function_type, c, glsl_std_id)[226] == c.int_0,
        cube_direction_words(ib, t, function_type, c, glsl_std_id)[227] == spec_encode_word(4, spv::SPV_INSTRUCTION_OP_LOAD),
        cube_direction_words(ib, t, function_type, c, glsl_std_id)[228] == t.int_id,
        cube_direction_words(ib, t, function_type, c, glsl_std_id)[229] == cid(ib, 48),
        cube_direction_words(ib, t, function_type, c, glsl_std_id)[230] == cid(ib, 47),
        cube_direction_words(ib, t, function_type, c, glsl_std_id)[231] == spec_encode_word(5, spv::SPV_INSTRUCTION_OP_S_GREATER_THAN),
        cube_direction_words(ib, t, function_type, c, glsl_std_id)[233] == cid(ib, 49),
        cube_direction_words(ib, t, function_type, c, glsl_std_id)[234] == cid(ib, 48),
        cube_direction_words(ib, t, function_type, c, glsl_std_id)[235] == c.int_0,
        cube_direction_words(ib, t, function_type, c, glsl_std_id)[236] == spec_encode_word(6, spv::SPV_INSTRUCTION_OP_SELECT),
        cube_direction_words(ib, t, function_type, c, glsl_std_id)[238] == cid(ib, 50),
        cube_direction_words(ib, t, function_type, c, glsl_std_id)[239] == cid(ib, 49),
        cube_direction_words(ib, t, function_type, c, glsl_std_id)[240] == c.int_0,
        cube_direction_words(ib, t, function_type, c, glsl_std_id)[241] == c.int_1,
        cube_direction_words(ib, t, function_type, c, glsl_std_id)[242] == spec_encode_word(3, spv::SPV_INSTRUCTION_OP_STORE),
        cube_direction_words(ib, t, function_type, c, glsl_std_id)[243] == cid(ib, 7),
        cube_direction_words(ib, t, function_type, c, glsl_std_id)[244] == cid(ib, 50),
        cube_direction_words(ib, t, function_type, c, glsl_std_id)[245] == spec_encode_word(2, spv::SPV_INSTRUCTION_OP_BRANCH),
        cube_direction_words(ib, t, function_type, c, glsl_std_id)[246] == cid(ib, 44),
{
    lemma_cube_parts(ib, t, function_type, c, glsl_std_id);
    let w = cube_direction_words(ib, t, function_type, c, glsl_std_id);
    assert(w[220] == cube_direction_part_2(cube_direction_part_1(cube_direction_part_0(Seq::empty(), ib, t, function_type, c, glsl_std_id), ib, t, function_type, c, glsl_std_id), ib, t, function_type, c, glsl_std_id)[220]);
    assert(w[221] == cube_direction_part_2(cube_direction_part_1(cube_direction_part_0(Seq::empty(), ib, t, function_type, c, glsl_std_id), ib, t, function_type, c, glsl_std_id), ib, t, function_type, c, glsl_std_id)[221]);
    assert(w[222] == cube_direction_part_2(cube_direction_part_1(cube_direction_part_0(Seq::empty(), ib, t, function_type, c, glsl_std_id), ib, t, function_type, c, glsl_std_id), ib, t, function_type, c, glsl_std_id)[222]);
    assert(w[224] == cube_direction_part_2(cube_direction_part_1(cube_direction_part_0(Seq::empty(), ib, t, function_type, c, glsl_std_id), ib, t, function_type, c, glsl_std_id), ib, t, function_type, c, glsl_std_id)[224]);
    assert(w[225] == cube_direction_part_2(cube_direction_part_1(cube_direction_part_0(Seq::empty(), ib, t, function_type, c, glsl_std_id), ib, t, function_type, c, glsl_std_id), ib, t, function_type, c, glsl_std_id)[225]);
    assert(w[226] == cube_direction_part_2(cube_direction_part_1(cube_direction_part_0(Seq::empty(), ib, t, function_type, c, glsl_std_id), ib, t, function_type, c, glsl_std_id), ib, t, function_type, c, glsl_std_id)[226]);
    assert(w[227] == cube_direction_part_2(cube_direction_part_1(cube_direction_part_0(Seq::empty(), ib, t, function_type, c, glsl_std_id), ib, t, function_type, c, glsl_std_id), ib, t, function_type, c, glsl_std_id)[227]);
    assert(w[228] == cube_direction_part_2(cube_direction_part_1(cube_direction_part_0(Seq::empty(), ib, t, function_type, c, glsl_std_id), ib, t, function_type, c, glsl_std_id), ib, t, function_type, c, glsl_std_id)[228]);
    assert(w[229] == cube_direction_part_2(cube_direction_part_1(cube_direction_part_0(Seq::empty(), ib, t, function_type, c, glsl_std_id), ib, t, function_type, c, glsl_std_id), ib, t, function_type, c, glsl_std_id)[229]);
    assert(w[230] == cube_direction_part_2(cube_direction_part_1(cube_direction_part_0(Seq::empty(), ib, t, function_type, c, glsl_std_id), ib, t, function_type, c, glsl_std_id), ib, t, function_type, c, glsl_std_id)[230]);
    assert(w[231] == cube_direction_part_2(cube_direction_part_1(cube_direction_part_0(Seq::empty(), ib, t, function_type, c, glsl_std_id), ib, t, function_type, c, glsl_std_id), ib, t, function_type, c, glsl_std_id)[231]);
    assert(w[233] == cube_direction_part_2(cube_direction_part_1(cube_direction_part_0(Seq::empty(), ib, t, function_type, c, glsl_std_id), ib, t, function_type, c, glsl_std_id), ib, t, function_type, c, glsl_std_id)[233]);
    assert(w[234] == cube_direction_part_2(cube_direction_part_1(cube_direction_part_0(Seq::empty(), ib, t, function_type, c, glsl_std_id), ib, t, function_type, c, glsl_std_id), ib, t, function_type, c, glsl_std_id)[234]);
    assert(w[235] == cube_direction_part_2(cube_direction_part_1(cube_direction_part_0(Seq::empty(), ib, t, function_type, c, glsl_std_id), ib, t, function_type, c, glsl_std_id), ib, t, function_type, c, glsl_std_id)[235]);
    assert(w[236] == cube_direction_part_2(cube_direction_part_1(cube_direction_part_0(Seq::empty(), ib, t, function_type, c, glsl_std_id), ib, t, function_type, c, glsl_std_id), ib, t, function_type, c, glsl_std_id)[236]);
    assert(w[238] == cube_direction_part_2(cube_direction_part_1(cube_direction_part_0(Seq::empty(), ib, t, function_type, c, glsl_std_id), ib, t, function_type, c, glsl_std_id), ib, t, function_type, c, glsl_std_id)[238]);
    assert(w[239] == cube_direction_part_2(cube_direction_part_1(cube_direction_part_0(Seq::empty(), ib, t, function_type, c, glsl_std_id), ib, t, function_type, c, glsl_std_id), ib, t, function_type, c, glsl_std_id)[239]);
    assert(w[240] == cube_direction_part_2(cube_direction_part_1(cube_direction_part_0(Seq::empty(), ib, t, function_type, c, glsl_std_id), ib, t, function_type, c, glsl_std_id), ib, t, function_type, c, glsl_std_id)[240]);
    assert(w[241] == cube_direction_part_2(cube_direction_part_1(cube_direction_part_0(Seq::empty(), ib, t, function_type, c, glsl_std_id), ib, t, function_type, c, glsl_std_id), ib, t, function_type, c, glsl_std_id)[241]);
    assert(w[242] == cube_direction_part_3(cube_direction_part_2(cube_direction_part_1(cube_direction_part_0(Seq::empty(), ib, t, function_type, c, glsl_std_id), ib, t, function_type, c, glsl_std_id), ib, t, function_type, c, glsl_std_id), ib, t, function_type, c, glsl_std_id)[242]);
    assert(w[243] == cube_direction_part_3(cube_direction_part_2(cube_direction_part_1(cube_direction_part_0(Seq::empty(), ib, t, function_type, c, glsl_std_id), ib, t, function_type, c, glsl_std_id), ib, t, function_type, c, glsl_std_id), ib, t, function_type, c, glsl_std_id)[243]);
    assert(w[244] == cube_direction_part_3(cube_direction_part_2(cube_direction_part_1(cube_direction_part_0(Seq::empty(), ib, t, function_type, c, glsl_std_id), ib, t, function_type, c, glsl_std_id), ib, t, function_type, c, glsl_std_id), ib, t, function_type, c, glsl_std_id)[244]);
    assert(w[245] == cube_direction_part_3(cube_direction_part_2(cube_direction_part_1(cube_direction_part_0(Seq::empty(), ib, t, function_type, c, glsl_std_id), ib, t, function_type, c, glsl_std_id), ib, t, function_type, c, glsl_std_id), ib, t, function_type, c, glsl_std_id)[245]);
    assert(w[246] == cube_direction_part_3(cube_direction_part_2(cube_direction_part_1(cube_direction_part_0(Seq::empty(), ib, t, function_type, c, glsl_std_id), ib, t, function_type, c, glsl_std_id), ib, t, function_type, c, glsl_std_id), ib, t, function_type, c, glsl_std_id)[246]);
}

#[verifier::spinoff_prover]
#[verifier::rlimit(60)]
proof fn lemma_cube_words_not_x(
    ib: int,
    t: CubeDirectionTypeInputs,
    function_type: u32,
    c: CubeDirectionConstants,
    glsl_std_id: u32,
)
    ensures
        cube_direction_words(ib, t, function_type, c, glsl_std_id)[247] == spec_encode_word(2, spv::SPV_INSTRUCTION_OP_LABEL),
        cube_direction_words(ib, t, function_type, c, glsl_std_id)[248] == cid(ib, 46),
        cube_direction_words(ib, t, function_type, c, glsl_std_id)[249] == spec_encode_word(4, spv::SPV_INSTRUCTION_OP_LOAD),
        cube_direction_words(ib, t, function_type, c, glsl_std_id)[250] == t.bool_id,
        cube_direction_words(ib, t, function_type, c, glsl_std_id)[251] == cid(ib, 51),
        cube_direction_words(ib, t, function_type, c, glsl_std_id)[252] == cid(ib, 5),
        cube_direction_words(ib, t, function_type, c, glsl_std_id)[253] == spec_encode_word(3, spv::SPV_INSTRUCTION_OP_SELECTION_MERGE),
        cube_direction_words(ib, t, function_type, c, glsl_std_id)[256] == spec_encode_word(4, spv::SPV_INSTRUCTION_OP_BRANCH_CONDITIONAL),
        cube_direction_words(ib, t, function_type, c, glsl_std_id)[257] == cid(ib, 51),
        cube_direction_words(ib, t, function_type, c, glsl_std_id)[258] == cid(ib, 53),
        cube_direction_words(ib, t, function_type, c, glsl_std_id)[259] == cid(ib, 54),
{
    lemma_cube_parts(ib, t, function_type, c, glsl_std_id);
    let w = cube_direction_words(ib, t, function_type, c, glsl_std_id);
    assert(w[247] == cube_direction_part_3(cube_direction_part_2(cube_direction_part_1(cube_direction_part_0(Seq::empty(), ib, t, function_type, c, glsl_std_id), ib, t, function_type, c, glsl_std_id), ib, t, function_type, c, glsl_std_id), ib, t, function_type, c, glsl_std_id)[247]);
    assert(w[248] == cube_direction_part_3(cube_direction_part_2(cube_direction_part_1(cube_direction_part_0(Seq::empty(), ib, t, function_type, c, glsl_std_id), ib, t, function_type, c, glsl_std_id), ib, t, function_type, c, glsl_std_id), ib, t, function_type, c, glsl_std_id)[248]);
    assert(w[249] == cube_direction_part_3(cube_direction_part_2(cube_direction_part_1(cube_direction_part_0(Seq::empty(), ib, t, function_type, c, glsl_std_id), ib, t, function_type, c, glsl_std_id), ib, t, function_type, c, glsl_std_id), ib, t, function_type, c, glsl_std_id)[249]);
    assert(w[250] == cube_direction_part_3(cube_direction_part_2(cube_direction_part_1(cube_direction_part_0(Seq::empty(), ib, t, function_type, c, glsl_std_id), ib, t, function_type, c, glsl_std_id), ib, t, function_type, c, glsl_std_id), ib, t, function_type, c, glsl_std_id)[250]);
    assert(w[251] == cube_direction_part_3(cube_direction_part_2(cube_direction_part_1(cube_direction_part_0(Seq::empty(), ib, t, function_type, c, glsl_std_id), ib, t, function_type, c, glsl_std_id), ib, t, function_type, c, glsl_std_id), ib, t, function_type, c, glsl_std_id)[251]);
    assert(w[252] == cube_direction_part_3(cube_direction_part_2(cube_direction_part_1(cube_direction_part_0(Seq::empty(), ib, t, function_type, c, glsl_std_id), ib, t, function_type, c, glsl_std_id), ib, t, function_type, c, glsl_std_id), ib, t, function_type, c, glsl_std_id)[252]);
    assert(w[253] == cube_direction_part_3(cube_direction_part_2(cube_direction_part_1(cube_direction_part_0(Seq::empty(), ib, t, function_type, c, glsl_std_id), ib, t, function_type, c, glsl_std_id), ib, t, function_type, c, glsl_std_id), ib, t, function_type, c, glsl_std_id)[253]);
    assert(w[256] == cube_direction_part_3(cube_direction_part_2(cube_direction_part_1(cube_direction_part_0(Seq::empty(), ib, t, function_type, c, glsl_std_id), ib, t, function_type, c, glsl_std_id), ib, t, function_type, c, glsl_std_id), ib, t, function_type, c, glsl_std_id)[256]);
    assert(w[257] == cube_direction_part_3(cube_direction_part_2(cube_direction_part_1(cube_direction_part_0(Seq::empty(), ib, t, function_type, c, glsl_std_id), ib, t, function_type, c, glsl_std_id), ib, t, function_type, c, glsl_std_id), ib, t, function_type, c, glsl_std_id)[257]);
    assert(w[258] == cube_direction_part_3(cube_direction_part_2(cube_direction_part_1(cube_direction_part_0(Seq::empty(), ib, t, function_type, c, glsl_std_id), ib, t, function_type, c, glsl_std_id), ib, t, function_type, c, glsl_std_id), ib, t, function_type, c, glsl_std_id)[258]);
    assert(w[259] == cube_direction_part_3(cube_direction_part_2(cube_direction_part_1(cube_direction_part_0(Seq::empty(), ib, t, function_type, c, glsl_std_id), ib, t, function_type, c, glsl_std_id), ib, t, function_type, c, glsl_std_id), ib, t, function_type, c, glsl_std_id)[259]);
}

#[verifier::spinoff_prover]
#[verifier::rlimit(60)]
proof fn lemma_cube_words_y_block(
    ib: int,
    t: CubeDirectionTypeInputs,
    function_type: u32,
    c: CubeDirectionConstants,
    glsl_std_id: u32,
)
    ensures
        cube_direction_words(ib, t, function_type, c, glsl_std_id)[260] == spec_encode_word(2, spv::SPV_INSTRUCTION_OP_LABEL),
        cube_direction_words(ib, t, function_type, c, glsl_std_id)[261] == cid(ib, 53),
        cube_direction_words(ib, t, function_type, c, glsl_std_id)[262] == spec_encode_word(5, spv::SPV_INSTRUCTION_OP_ACCESS_CHAIN),
        cube_direction_words(ib, t, function_type, c, glsl_std_id)[264] == cid(ib, 55),
        cube_direction_words(ib, t, function_type, c, glsl_std_id)[265] == cid(ib, 1),
        cube_direction_words(ib, t, function_type, c, glsl_std_id)[266] == c.int_1,
        cube_direction_words(ib, t, function_type, c, glsl_std_id)[267] == spec_encode_word(4, spv::SPV_INSTRUCTION_OP_LOAD),
        cube_direction_words(ib, t, function_type, c, glsl_std_id)[268] == t.int_id,
        cube_direction_words(ib, t, function_type, c, glsl_std_id)[269] == cid(ib, 56),
        cube_direction_words(ib, t, function_type, c, glsl_std_id)[270] == cid(ib, 55),
        cube_direction_words(ib, t, function_type, c, glsl_std_id)[271] == spec_encode_word(5, spv::SPV_INSTRUCTION_OP_S_GREATER_THAN),
        cube_direction_words(ib, t, function_type, c, glsl_std_id)[273] == cid(ib, 57),
        cube_direction_words(ib, t, function_type, c, glsl_std_id)[274] == cid(ib, 56),
        cube_direction_words(ib, t, function_type, c, glsl_std_id)[275] == c.int_0,
        cube_direction_words(ib, t, function_type, c, glsl_std_id)[276] == spec_encode_word(6, spv::SPV_INSTRUCTION_OP_SELECT),
        cube_direction_words(ib, t, function_type, c, glsl_std_id)[278] == cid(ib, 58),
        cube_direction_words(ib, t, function_type, c, glsl_std_id)[279] == cid(ib, 57),
        cube_direction_words(ib, t, function_type, c, glsl_std_id)[280] == c.int_2,
        cube_direction_words(ib, t, function_type, c, glsl_std_id)[281] == c.int_3,
        cube_direction_words(ib, t, function_type, c, glsl_std_id)[282] == spec_encode_word(3, spv::SPV_INSTRUCTION_OP_STORE),
        cube_direction_words(ib, t, function_type, c, glsl_std_id)[283] == cid(ib, 8),
        cube_direction_words(ib, t, function_type, c, glsl_std_id)[284] == cid(ib, 58),
        cube_direction_words(ib, t, function_type, c, glsl_std_id)[285] == spec_encode_word(2, spv::SPV_INSTRUCTION_OP_BRANCH),
        cube_direction_words(ib, t, function_type, c, glsl_std_id)[286] == cid(ib, 52),
{
    lemma_cube_parts(ib, t, function_type, c, glsl_std_id);
    let w = cube_direction_words(ib, t, function_type, c, glsl_std_id);
    assert(w[260] == cube_direction_part_3(cube_direction_part_2(cube_direction_part_1(cube_direction_part_0(Seq::empty(), ib, t, function_type, c, glsl_std_id), ib, t, function_type, c, glsl_std_id), ib, t, function_type, c, glsl_std_id), ib, t, function_type, c, glsl_std_id)[260]);
    assert(w[261] == cube_direction_part_3(cube_direction_part_2(cube_direction_part_1(cube_direction_part_0(Seq::empty(), ib, t, function_type, c, glsl_std_id), ib, t, function_type, c, glsl_std_id), ib, t, function_type, c, glsl_std_id), ib, t, function_type, c, glsl_std_id)[261]);
    assert(w[262] == cube_direction_part_3(cube_direction_part_2(cube_direction_part_1(cube_direction_part_0(Seq::empty(), ib, t, function_type, c, glsl_std_id), ib, t, function_type, c, glsl_std_id), ib, t, function_type, c, glsl_std_id), ib, t, function_type, c, glsl_std_id)[262]);
    assert(w[264] == cube_direction_part_3(cube_direction_part_2(cube_direction_part_1(cube_direction_part_0(Seq::empty(), ib, t, function_type, c, glsl_std_id), ib, t, function_type, c, glsl_std_id), ib, t, function_type, c, glsl_std_id), ib, t, function_type, c, glsl_std_id)[264]);
    assert(w[265] == cube_direction_part_3(cube_direction_part_2(cube_direction_part_1(cube_direction_part_0(Seq::empty(), ib, t, function_type, c, glsl_std_id), ib, t, function_type, c, glsl_std_id), ib, t, function_type, c, glsl_std_id), ib, t, function_type, c, glsl_std_id)[265]);
    assert(w[266] == cube_direction_part_3(cube_direction_part_2(cube_direction_part_1(cube_direction_part_0(Seq::empty(), ib, t, function_type, c, glsl_std_id), ib, t, function_type, c, glsl_std_id), ib, t, function_type, c, glsl_std_id), ib, t, function_type, c, glsl_std_id)[266]);
    assert(w[267] == cube_direction_part_3(cube_direction_part_2(cube_direction_part_1(cube_direction_part_0(Seq::empty(), ib, t, function_type, c, glsl_std_id), ib, t, function_type, c, glsl_std_id), ib, t, function_type, c, glsl_std_id), ib, t, function_type, c, glsl_std_id)[267]);
    assert(w[268] == cube_direction_part_3(cube_direction_part_2(cube_direction_part_1(cube_direction_part_0(Seq::empty(), ib, t, function_type, c, glsl_std_id), ib, t, function_type, c, glsl_std_id), ib, t, function_type, c, glsl_std_id), ib, t, function_type, c, glsl_std_id)[268]);
    assert(w[269] == cube_direction_part_3(cube_direction_part_2(cube_direction_part_1(cube_direction_part_0(Seq::empty(), ib, t, function_type, c, glsl_std_id), ib, t, function_type, c, glsl_std_id), ib, t, function_type, c, glsl_std_id), ib, t, function_type, c, glsl_std_id)[269]);
    assert(w[270] == cube_direction_part_3(cube_direction_part_2(cube_direction_part_1(cube_direction_part_0(Seq::empty(), ib, t, function_type, c, glsl_std_id), ib, t, function_type, c, glsl_std_id), ib, t, function_type, c, glsl_std_id), ib, t, function_type, c, glsl_std_id)[270]);
    assert(w[271] == cube_direction_part_3(cube_direction_part_2(cube_direction_part_1(cube_direction_part_0(Seq::empty(), ib, t, function_type, c, glsl_std_id), ib, t, function_type, c, glsl_std_id), ib, t, function_type, c, glsl_std_id), ib, t, function_type, c, glsl_std_id)[271]);
    assert(w[273] == cube_direction_part_3(cube_direction_part_2(cube_direction_part_1(cube_direction_part_0(Seq::empty(), ib, t, function_type, c, glsl_std_id), ib, t, function_type, c, glsl_std_id), ib, t, function_type, c, glsl_std_id), ib, t, function_type, c, glsl_std_id)[273]);
    assert(w[274] == cube_direction_part_3(cube_direction_part_2(cube_direction_part_1(cube_direction_part_0(Seq::empty(), ib, t, function_type, c, glsl_std_id), ib, t, function_type, c, glsl_std_id), ib, t, function_type, c, glsl_std_id), ib, t, function_type, c, glsl_std_id)[274]);
    assert(w[275] == cube_direction_part_3(cube_direction_part_2(cube_direction_part_1(cube_direction_part_0(Seq::empty(), ib, t, function_type, c, glsl_std_id), ib, t, function_type, c, glsl_std_id), ib, t, function_type, c, glsl_std_id), ib, t, function_type, c, glsl_std_id)[275]);
    assert(w[276] == cube_direction_part_3(cube_direction_part_2(cube_direction_part_1(cube_direction_part_0(Seq::empty(), ib, t, function_type, c, glsl_std_id), ib, t, function_type, c, glsl_std_id), ib, t, function_type, c, glsl_std_id), ib, t, function_type, c, glsl_std_id)[276]);
    assert(w[278] == cube_direction_part_3(cube_direction_part_2(cube_direction_part_1(cube_direction_part_0(Seq::empty(), ib, t, function_type, c, glsl_std_id), ib, t, function_type, c, glsl_std_id), ib, t, function_type, c, glsl_std_id), ib, t, function_type, c, glsl_std_id)[278]);
    assert(w[279] == cube_direction_part_3(cube_direction_part_2(cube_direction_part_1(cube_direction_part_0(Seq::empty(), ib, t, function_type, c, glsl_std_id), ib, t, function_type, c, glsl_std_id), ib, t, function_type, c, glsl_std_id), ib, t, function_type, c, glsl_std_id)[279]);
    assert(w[280] == cube_direction_part_3(cube_direction_part_2(cube_direction_part_1(cube_direction_part_0(Seq::empty(), ib, t, function_type, c, glsl_std_id), ib, t, function_type, c, glsl_std_id), ib, t, function_type, c, glsl_std_id), ib, t, function_type, c, glsl_std_id)[280]);
    assert(w[281] == cube_direction_part_3(cube_direction_part_2(cube_direction_part_1(cube_direction_part_0(Seq::empty(), ib, t, function_type, c, glsl_std_id), ib, t, function_type, c, glsl_std_id), ib, t, function_type, c, glsl_std_id), ib, t, function_type, c, glsl_std_id)[281]);
    assert(w[282] == cube_direction_part_3(cube_direction_part_2(cube_direction_part_1(cube_direction_part_0(Seq::empty(), ib, t, function_type, c, glsl_std_id), ib, t, function_type, c, glsl_std_id), ib, t, function_type, c, glsl_std_id), ib, t, function_type, c, glsl_std_id)[282]);
    assert(w[283] == cube_direction_part_3(cube_direction_part_2(cube_direction_part_1(cube_direction_part_0(Seq::empty(), ib, t, function_type, c, glsl_std_id), ib, t, function_type, c, glsl_std_id), ib, t, function_type, c, glsl_std_id), ib, t, function_type, c, glsl_std_id)[283]);
    assert(w[284] == cube_direction_part_3(cube_direction_part_2(cube_direction_part_1(cube_direction_part_0(Seq::empty(), ib, t, function_type, c, glsl_std_id), ib, t, function_type, c, glsl_std_id), ib, t, function_type, c, glsl_std_id), ib, t, function_type, c, glsl_std_id)[284]);
    assert(w[285] == cube_direction_part_3(cube_direction_part_2(cube_direction_part_1(cube_direction_part_0(Seq::empty(), ib, t, function_type, c, glsl_std_id), ib, t, function_type, c, glsl_std_id), ib, t, function_type, c, glsl_std_id), ib, t, function_type, c, glsl_std_id)[285]);
    assert(w[286] == cube_direction_part_3(cube_direction_part_2(cube_direction_part_1(cube_direction_part_0(Seq::empty(), ib, t, function_type, c, glsl_std_id), ib, t, function_type, c, glsl_std_id), ib, t, function_type, c, glsl_std_id), ib, t, function_type, c, glsl_std_id)[286]);
}

#[verifier::spinoff_prover]
#[verifier::rlimit(60)]
proof fn lemma_cube_words_z_block(
    ib: int,
    t: CubeDirectionTypeInputs,
    function_type: u32,
    c: CubeDirectionConstants,
    glsl_std_id: u32,
)
    ensures
        cube_direction_words(ib, t, function_type, c, glsl_std_id)[287] == spec_encode_word(2, spv::SPV_INSTRUCTION_OP_LABEL),
        cube_direction_words(ib, t, function_type, c, glsl_std_id)[288] == cid(ib, 54),
        cube_direction_words(ib, t, function_type, c, glsl_std_id)[289] == spec_encode_word(5, spv::SPV_INSTRUCTION_OP_ACCESS_CHAIN),
        cube_direction_words(ib, t, function_type, c, glsl_std_id)[291] == cid(ib, 59),
        cube_direction_words(ib, t, function_type, c, glsl_std_id)[292] == cid(ib, 1),
        cube_direction_words(ib, t, function_type, c, glsl_std_id)[293] == c.int_2,
        cube_direction_words(ib, t, function_type, c, glsl_std_id)[294] == spec_encode_word(4, spv::SPV_INSTRUCTION_OP_LOAD),
        cube_direction_words(ib, t, function_type, c, glsl_std_id)[295] == t.int_id,
        cube_direction_words(ib, t, function_type, c, glsl_std_id)[296] == cid(ib, 60),
        cube_direction_words(ib, t, function_type, c, glsl_std_id)[297] == cid(ib, 59),
        cube_direction_words(ib, t, function_type, c, glsl_std_id)[298] == spec_encode_word(5, spv::SPV_INSTRUCTION_OP_S_GREATER_THAN),
        cube_direction_words(ib, t, function_type, c, glsl_std_id)[300] == cid(ib, 61),
        cube_direction_words(ib, t, function_type, c, glsl_std_id)[301] == cid(ib, 60),
        cube_direction_words(ib, t, function_type, c, glsl_std_id)[302] == c.int_0,
        cube_direction_words(ib, t, function_type, c, glsl_std_id)[303] == spec_encode_word(6, spv::SPV_INSTRUCTION_OP_SELECT),
        cube_direction_words(ib, t, function_type, c, glsl_std_id)[305] == cid(ib, 62),
        cube_direction_words(ib, t, function_type, c, glsl_std_id)[306] == cid(ib, 61),
        cube_direction_words(ib, t, function_type, c, glsl_std_id)[307] == c.int_4,
        cube_direction_words(ib, t, function_type, c, glsl_std_id)[308] == c.int_5,
        cube_direction_words(ib, t, function_type, c, glsl_std_id)[309] == spec_encode_word(3, spv::SPV_INSTRUCTION_OP_STORE),
        cube_direction_words(ib, t, function_type, c, glsl_std_id)[310] == cid(ib, 8),
        cube_direction_words(ib, t, function_type, c, glsl_std_id)[311] == cid(ib, 62),
        cube_direction_words(ib, t, function_type, c, glsl_std_id)[312] == spec_encode_word(2, spv::SPV_INSTRUCTION_OP_BRANCH),
        cube_direction_words(ib, t, function_type, c, glsl_std_id)[313] == cid(ib, 52),
{
    lemma_cube_parts(ib, t, function_type, c, glsl_std_id);
    let w = cube_direction_words(ib, t, function_type, c, glsl_std_id);
    assert(w[287] == cube_direction_part_3(cube_direction_part_2(cube_direction_part_1(cube_direction_part_0(Seq::empty(), ib, t, function_type, c, glsl_std_id), ib, t, function_type, c, glsl_std_id), ib, t, function_type, c, glsl_std_id), ib, t, function_type, c, glsl_std_id)[287]);
    assert(w[288] == cube_direction_part_3(cube_direction_part_2(cube_direction_part_1(cube_direction_part_0(Seq::empty(), ib, t, function_type, c, glsl_std_id), ib, t, function_type, c, glsl_std_id), ib, t, function_type, c, glsl_std_id), ib, t, function_type, c, glsl_std_id)[288]);
    assert(w[289] == cube_direction_part_3(cube_direction_part_2(cube_direction_part_1(cube_direction_part_0(Seq::empty(), ib, t, function_type, c, glsl_std_id), ib, t, function_type, c, glsl_std_id), ib, t, function_type, c, glsl_std_id), ib, t, function_type, c, glsl_std_id)[289]);
    assert(w[291] == cube_direction_part_3(cube_direction_part_2(cube_direction_part_1(cube_direction_part_0(Seq::empty(), ib, t, function_type, c, glsl_std_id), ib, t, function_type, c, glsl_std_id), ib, t, function_type, c, glsl_std_id), ib, t, function_type, c, glsl_std_id)[291]);
    assert(w[292] == cube_direction_part_3(cube_direction_part_2(cube_direction_part_1(cube_direction_part_0(Seq::empty(), ib, t, function_type, c, glsl_std_id), ib, t, function_type, c, glsl_std_id), ib, t, function_type, c, glsl_std_id), ib, t, function_type, c, glsl_std_id)[292]);
    assert(w[293] == cube_direction_part_3(cube_direction_part_2(cube_direction_part_1(cube_direction_part_0(Seq::empty(), ib, t, function_type, c, glsl_std_id), ib, t, function_type, c, glsl_std_id), ib, t, function_type, c, glsl_std_id), ib, t, function_type, c, glsl_std_id)[293]);
    assert(w[294] == cube_direction_part_3(cube_direction_part_2(cube_direction_part_1(cube_direction_part_0(Seq::empty(), ib, t, function_type, c, glsl_std_id), ib, t, function_type, c, glsl_std_id), ib, t, function_type, c, glsl_std_id), ib, t, function_type, c, glsl_std_id)[294]);
    assert(w[295] == cube_direction_part_3(cube_direction_part_2(cube_direction_part_1(cube_direction_part_0(Seq::empty(), ib, t, function_type, c, glsl_std_id), ib, t, function_type, c, glsl_std_id), ib, t, function_type, c, glsl_std_id), ib, t, function_type, c, glsl_std_id)[295]);
    assert(w[296] == cube_direction_part_3(cube_direction_part_2(cube_direction_part_1(cube_direction_part_0(Seq::empty(), ib, t, function_type, c, glsl_std_id), ib, t, function_type, c, glsl_std_id), ib, t, function_type, c, glsl_std_id), ib, t, function_type, c, glsl_std_id)[296]);
    assert(w[297] == cube_direction_part_3(cube_direction_part_2(cube_direction_part_1(cube_direction_part_0(Seq::empty(), ib, t, function_type, c, glsl_std_id), ib, t, function_type, c, glsl_std_id), ib, t, function_type, c, glsl_std_id), ib, t, function_type, c, glsl_std_id)[297]);
    assert(w[298] == cube_direction_part_3(cube_direction_part_2(cube_direction_part_1(cube_direction_part_0(Seq::empty(), ib, t, function_type, c, glsl_std_id), ib, t, function_type, c, glsl_std_id), ib, t, function_type, c, glsl_std_id), ib, t, function_type, c, glsl_std_id)[298]);
    assert(w[300] == cube_direction_part_3(cube_direction_part_2(cube_direction_part_1(cube_direction_part_0(Seq::empty(), ib, t, function_type, c, glsl_std_id), ib, t, function_type, c, glsl_std_id), ib, t, function_type, c, glsl_std_id), ib, t, function_type, c, glsl_std_id)[300]);
    assert(w[301] == cube_direction_part_3(cube_direction_part_2(cube_direction_part_1(cube_direction_part_0(Seq::empty(), ib, t, function_type, c, glsl_std_id), ib, t, function_type, c, glsl_std_id), ib, t, function_type, c, glsl_std_id), ib, t, function_type, c, glsl_std_id)[301]);
    assert(w[302] == cube_direction_part_3(cube_direction_part_2(cube_direction_part_1(cube_direction_part_0(Seq::empty(), ib, t, function_type, c, glsl_std_id), ib, t, function_type, c, glsl_std_id), ib, t, function_type, c, glsl_std_id), ib, t, function_type, c, glsl_std_id)[302]);
    assert(w[303] == cube_direction_part_3(cube_direction_part_2(cube_direction_part_1(cube_direction_part_0(Seq::empty(), ib, t, function_type, c, glsl_std_id), ib, t, function_type, c, glsl_std_id), ib, t, function_type, c, glsl_std_id), ib, t, function_type, c, glsl_std_id)[303]);
    assert(w[305] == cube_direction_part_3(cube_direction_part_2(cube_direction_part_1(cube_direction_part_0(Seq::empty(), ib, t, function_type, c, glsl_std_id), ib, t, function_type, c, glsl_std_id), ib, t, function_type, c, glsl_std_id), ib, t, function_type, c, glsl_std_id)[305]);
    assert(w[306] == cube_direction_part_3(cube_direction_part_2(cube_direction_part_1(cube_direction_part_0(Seq::empty(), ib, t, function_type, c, glsl_std_id), ib, t, function_type, c, glsl_std_id), ib, t, function_type, c, glsl_std_id), ib, t, function_type, c, glsl_std_id)[306]);
    assert(w[307] == cube_direction_part_3(cube_direction_part_2(cube_direction_part_1(cube_direction_part_0(Seq::empty(), ib, t, function_type, c, glsl_std_id), ib, t, function_type, c, glsl_std_id), ib, t, function_type, c, glsl_std_id), ib, t, function_type, c, glsl_std_id)[307]);
    assert(w[308] == cube_direction_part_3(cube_direction_part_2(cube_direction_part_1(cube_direction_part_0(Seq::empty(), ib, t, function_type, c, glsl_std_id), ib, t, function_type, c, glsl_std_id), ib, t, function_type, c, glsl_std_id), ib, t, function_type, c, glsl_std_id)[308]);
    assert(w[309] == cube_direction_part_3(cube_direction_part_2(cube_direction_part_1(cube_direction_part_0(Seq::empty(), ib, t, function_type, c, glsl_std_id), ib, t, function_type, c, glsl_std_id), ib, t, function_type, c, glsl_std_id), ib, t, function_type, c, glsl_std_id)[309]);
    assert(w[310] == cube_direction_part_3(cube_direction_part_2(cube_direction_part_1(cube_direction_part_0(Seq::empty(), ib, t, function_type, c, glsl_std_id), ib, t, function_type, c, glsl_std_id), ib, t, function_type, c, glsl_std_id), ib, t, function_type, c, glsl_std_id)[310]);
    assert(w[311] == cube_direction_part_3(cube_direction_part_2(cube_direction_part_1(cube_direction_part_0(Seq::empty(), ib, t, function_type, c, glsl_std_id), ib, t, function_type, c, glsl_std_id), ib, t, function_type, c, glsl_std_id), ib, t, function_type, c, glsl_std_id)[311]);
    assert(w[312] == cube_direction_part_3(cube_direction_part_2(cube_direction_part_1(cube_direction_part_0(Seq::empty(), ib, t, function_type, c, glsl_std_id), ib, t, function_type, c, glsl_std_id), ib, t, function_type, c, glsl_std_id), ib, t, function_type, c, glsl_std_id)[312]);
    assert(w[313] == cube_direction_part_3(cube_direction_part_2(cube_direction_part_1(cube_direction_part_0(Seq::empty(), ib, t, function_type, c, glsl_std_id), ib, t, function_type, c, glsl_std_id), ib, t, function_type, c, glsl_std_id), ib, t, function_type, c, glsl_std_id)[313]);
}

#[verifier::spinoff_prover]
#[verifier::rlimit(60)]
proof fn lemma_cube_words_y_or_z(
    ib: int,
    t: CubeDirectionTypeInputs,
    function_type: u32,
    c: CubeDirectionConstants,
    glsl_std_id: u32,
)
    ensures
        cube_direction_words(ib, t, function_type, c, glsl_std_id)[314] == spec_encode_word(2, spv::SPV_INSTRUCTION_OP_LABEL),
        cube_direction_words(ib, t, function_type, c, glsl_std_id)[315] == cid(ib, 52),
        cube_direction_words(ib, t, function_type, c, glsl_std_id)[316] == spec_encode_word(4, spv::SPV_INSTRUCTION_OP_LOAD),
        cube_direction_words(ib, t, function_type, c, glsl_std_id)[317] == t.int_id,
        cube_direction_words(ib, t, function_type, c, glsl_std_id)[318] == cid(ib, 63),
        cube_direction_words(ib, t, function_type, c, glsl_std_id)[319] == cid(ib, 8),
        cube_direction_words(ib, t, function_type, c, glsl_std_id)[320] == spec_encode_word(3, spv::SPV_INSTRUCTION_OP_STORE),
        cube_direction_words(ib, t, function_type, c, glsl_std_id)[321] == cid(ib, 7),
        cube_direction_words(ib, t, function_type, c, glsl_std_id)[322] == cid(ib, 63),
        cube_direction_words(ib, t, function_type, c, glsl_std_id)[323] == spec_encode_word(2, spv::SPV_INSTRUCTION_OP_BRANCH),
        cube_direction_words(ib, t, function_type, c, glsl_std_id)[324] == cid(ib, 44),
{
    lemma_cube_parts(ib, t, function_type, c, glsl_std_id);
    let w = cube_direction_words(ib, t, function_type, c, glsl_std_id);
    assert(w[314] == cube_direction_part_4(cube_direction_part_3(cube_direction_part_2(cube_direction_part_1(cube_direction_part_0(Seq::empty(), ib, t, function_type, c, glsl_std_id), ib, t, function_type, c, glsl_std_id), ib, t, function_type, c, glsl_std_id), ib, t, function_type, c, glsl_std_id), ib, t, function_type, c, glsl_std_id)[314]);
    assert(w[315] == cube_direction_part_4(cube_direction_part_3(cube_direction_part_2(cube_direction_part_1(cube_direction_part_0(Seq::empty(), ib, t, function_type, c, glsl_std_id), ib, t, function_type, c, glsl_std_id), ib, t, function_type, c, glsl_std_id), ib, t, function_type, c, glsl_std_id), ib, t, function_type, c, glsl_std_id)[315]);
    assert(w[316] == cube_direction_part_4(cube_direction_part_3(cube_direction_part_2(cube_direction_part_1(cube_direction_part_0(Seq::empty(), ib, t, function_type, c, glsl_std_id), ib, t, function_type, c, glsl_std_id), ib, t, function_type, c, glsl_std_id), ib, t, function_type, c, glsl_std_id), ib, t, function_type, c, glsl_std_id)[316]);
    assert(w[317] == cube_direction_part_4(cube_direction_part_3(cube_direction_part_2(cube_direction_part_1(cube_direction_part_0(Seq::empty(), ib, t, function_type, c, glsl_std_id), ib, t, function_type, c, glsl_std_id), ib, t, function_type, c, glsl_std_id), ib, t, function_type, c, glsl_std_id), ib, t, function_type, c, glsl_std_id)[317]);
    assert(w[318] == cube_direction_part_4(cube_direction_part_3(cube_direction_part_2(cube_direction_part_1(cube_direction_part_0(Seq::empty(), ib, t, function_type, c, glsl_std_id), ib, t, function_type, c, glsl_std_id), ib, t, function_type, c, glsl_std_id), ib, t, function_type, c, glsl_std_id), ib, t, function_type, c, glsl_std_id)[318]);
    assert(w[319] == cube_direction_part_4(cube_direction_part_3(cube_direction_part_2(cube_direction_part_1(cube_direction_part_0(Seq::empty(), ib, t, function_type, c, glsl_std_id), ib, t, function_type, c, glsl_std_id), ib, t, function_type, c, glsl_std_id), ib, t, function_type, c, glsl_std_id), ib, t, function_type, c, glsl_std_id)[319]);
    assert(w[320] == cube_direction_part_4(cube_direction_part_3(cube_direction_part_2(cube_direction_part_1(cube_direction_part_0(Seq::empty(), ib, t, function_type, c, glsl_std_id), ib, t, function_type, c, glsl_std_id), ib, t, function_type, c, glsl_std_id), ib, t, function_type, c, glsl_std_id), ib, t, function_type, c, glsl_std_id)[320]);
    assert(w[321] == cube_direction_part_4(cube_direction_part_3(cube_direction_part_2(cube_direction_part_1(cube_direction_part_0(Seq::empty(), ib, t, function_type, c, glsl_std_id), ib, t, function_type, c, glsl_std_id), ib, t, function_type, c, glsl_std_id), ib, t, function_type, c, glsl_std_id), ib, t, function_type, c, glsl_std_id)[321]);
    assert(w[322] == cube_direction_part_4(cube_direction_part_3(cube_direction_part_2(cube_direction_part_1(cube_direction_part_0(Seq::empty(), ib, t, function_type, c, glsl_std_id), ib, t, function_type, c, glsl_std_id), ib, t, function_type, c, glsl_std_id), ib, t, function_type, c, glsl_std_id), ib, t, function_type, c, glsl_std_id)[322]);
    assert(w[323] == cube_direction_part_4(cube_direction_part_3(cube_direction_part_2(cube_direction_part_1(cube_direction_part_0(Seq::empty(), ib, t, function_type, c, glsl_std_id), ib, t, function_type, c, glsl_std_id), ib, t, function_type, c, glsl_std_id), ib, t, function_type, c, glsl_std_id), ib, t, function_type, c, glsl_std_id)[323]);
    assert(w[324] == cube_direction_part_4(cube_direction_part_3(cube_direction_part_2(cube_direction_part_1(cube_direction_part_0(Seq::empty(), ib, t, function_type, c, glsl_std_id), ib, t, function_type, c, glsl_std_id), ib, t, function_type, c, glsl_std_id), ib, t, function_type, c, glsl_std_id), ib, t, function_type, c, glsl_std_id)[324]);
}

#[verifier::spinoff_prover]
#[verifier::rlimit(60)]
proof fn lemma_cube_words_face(
    ib: int,
    t: CubeDirectionTypeInputs,
    function_type: u32,
    c: CubeDirectionConstants,
    glsl_std_id: u32,
)
    ensures
        cube_direction_words(ib, t, function_type, c, glsl_std_id)[325] == spec_encode_word(2, spv::SPV_INSTRUCTION_OP_LABEL),
        cube_direction_words(ib, t, function_type, c, glsl_std_id)[326] == cid(ib, 44),
        cube_direction_words(ib, t, function_type, c, glsl_std_id)[327] == spec_encode_word(4, spv::SPV_INSTRUCTION_OP_LOAD),
        cube_direction_words(ib, t, function_type, c, glsl_std_id)[328] == t.int_id,
        cube_direction_words(ib, t, function_type, c, glsl_std_id)[329] == cid(ib, 64),
        cube_direction_words(ib, t, function_type, c, glsl_std_id)[330] == cid(ib, 7),
        cube_direction_words(ib, t, function_type, c, glsl_std_id)[331] == spec_encode_word(3, spv::SPV_INSTRUCTION_OP_STORE),
        cube_direction_words(ib, t, function_type, c, glsl_std_id)[332] == cid(ib, 6),
        cube_direction_words(ib, t, function_type, c, glsl_std_id)[333] == cid(ib, 64),
{
    lemma_cube_parts(ib, t, function_type, c, glsl_std_id);
    let w = cube_direction_words(ib, t, function_type, c, glsl_std_id);
    assert(w[325] == cube_direction_part_4(cube_direction_part_3(cube_direction_part_2(cube_direction_part_1(cube_direction_part_0(Seq::empty(), ib, t, function_type, c, glsl_std_id), ib, t, function_type, c, glsl_std_id), ib, t, function_type, c, glsl_std_id), ib, t, function_type, c, glsl_std_id), ib, t, function_type, c, glsl_std_id)[325]);
    assert(w[326] == cube_direction_part_4(cube_direction_part_3(cube_direction_part_2(cube_direction_part_1(cube_direction_part_0(Seq::empty(), ib, t, function_type, c, glsl_std_id), ib, t, function_type, c, glsl_std_id), ib, t, function_type, c, glsl_std_id), ib, t, function_type, c, glsl_std_id), ib, t, function_type, c, glsl_std_id)[326]);
    assert(w[327] == cube_direction_part_4(cube_direction_part_3(cube_direction_part_2(cube_direction_part_1(cube_direction_part_0(Seq::empty(), ib, t, function_type, c, glsl_std_id), ib, t, function_type, c, glsl_std_id), ib, t, function_type, c, glsl_std_id), ib, t, function_type, c, glsl_std_id), ib, t, function_type, c, glsl_std_id)[327]);
    assert(w[328] == cube_direction_part_4(cube_direction_part_3(cube_direction_part_2(cube_direction_part_1(cube_direction_part_0(Seq::empty(), ib, t, function_type, c, glsl_std_id), ib, t, function_type, c, glsl_std_id), ib, t, function_type, c, glsl_std_id), ib, t, function_type, c, glsl_std_id), ib, t, function_type, c, glsl_std_id)[328]);
    assert(w[329] == cube_direction_part_4(cube_direction_part_3(cube_direction_part_2(cube_direction_part_1(cube_direction_part_0(Seq::empty(), ib, t, function_type, c, glsl_std_id), ib, t, function_type, c, glsl_std_id), ib, t, function_type, c, glsl_std_id), ib, t, function_type, c, glsl_std_id), ib, t, function_type, c, glsl_std_id)[329]);
    assert(w[330] == cube_direction_part_4(cube_direction_part_3(cube_direction_part_2(cube_direction_part_1(cube_direction_part_0(Seq::empty(), ib, t, function_type, c, glsl_std_id), ib, t, function_type, c, glsl_std_id), ib, t, function_type, c, glsl_std_id), ib, t, function_type, c, glsl_std_id), ib, t, function_type, c, glsl_std_id)[330]);
    assert(w[331] == cube_direction_part_4(cube_direction_part_3(cube_direction_part_2(cube_direction_part_1(cube_direction_part_0(Seq::empty(), ib, t, function_type, c, glsl_std_id), ib, t, function_type, c, glsl_std_id), ib, t, function_type, c, glsl_std_id), ib, t, function_type, c, glsl_std_id), ib, t, function_type, c, glsl_std_id)[331]);
    assert(w[332] == cube_direction_part_4(cube_direction_part_3(cube_direction_part_2(cube_direction_part_1(cube_direction_part_0(Seq::empty(), ib, t, function_type, c, glsl_std_id), ib, t, function_type, c, glsl_std_id), ib, t, function_type, c, glsl_std_id), ib, t, function_type, c, glsl_std_id), ib, t, function_type, c, glsl_std_id)[332]);
    assert(w[333] == cube_direction_part_4(cube_direction_part_3(cube_direction_part_2(cube_direction_part_1(cube_direction_part_0(Seq::empty(), ib, t, function_type, c, glsl_std_id), ib, t, function_type, c, glsl_std_id), ib, t, function_type, c, glsl_std_id), ib, t, function_type, c, glsl_std_id), ib, t, function_type, c, glsl_std_id)[333]);
}

#[verifier::spinoff_prover]
#[verifier::rlimit(60)]
proof fn lemma_cube_words_disp0(
    ib: int,
    t: CubeDirectionTypeInputs,
    function_type: u32,
    c: CubeDirectionConstants,
    glsl_std_id: u32,
)
    ensures
        cube_direction_words(ib, t, function_type, c, glsl_std_id)[334] == spec_encode_word(4, spv::SPV_INSTRUCTION_OP_LOAD),
        cube_direction_words(ib, t, function_type, c, glsl_std_id)[335] == t.int_id,
        cube_direction_words(ib, t, function_type, c, glsl_std_id)[336] == cid(ib, 65),
        cube_direction_words(ib, t, function_type, c, glsl_std_id)[337] == cid(ib, 6),
        cube_direction_words(ib, t, function_type, c, glsl_std_id)[338] == spec_encode_word(5, spv::SPV_INSTRUCTION_OP_I_EQUAL),
        cube_direction_words(ib, t, function_type, c, glsl_std_id)[340] == cid(ib, 66),
        cube_direction_words(ib, t, function_type, c, glsl_std_id)[341] == cid(ib, 65),
        cube_direction_words(ib, t, function_type, c, glsl_std_id)[342] == c.int_0,
        cube_direction_words(ib, t, function_type, c, glsl_std_id)[343] == spec_encode_word(3, spv::SPV_INSTRUCTION_OP_SELECTION_MERGE),
        cube_direction_words(ib, t, function_type, c, glsl_std_id)[346] == spec_encode_word(4, spv::SPV_INSTRUCTION_OP_BRANCH_CONDITIONAL),
        cube_direction_words(ib, t, function_type, c, glsl_std_id)[347] == cid(ib, 66),
        cube_direction_words(ib, t, function_type, c, glsl_std_id)[348] == cid(ib, 68),
        cube_direction_words(ib, t, function_type, c, glsl_std_id)[349] == cid(ib, 69),
{
    lemma_cube_parts(ib, t, function_type, c, glsl_std_id);
    let w = cube_direction_words(ib, t, function_type, c, glsl_std_id);
    assert(w[334] == cube_direction_part_4(cube_direction_part_3(cube_direction_part_2(cube_direction_part_1(cube_direction_part_0(Seq::empty(), ib, t, function_type, c, glsl_std_id), ib, t, function_type, c, glsl_std_id), ib, t, function_type, c, glsl_std_id), ib, t, function_type, c, glsl_std_id), ib, t, function_type, c, glsl_std_id)[334]);
    assert(w[335] == cube_direction_part_4(cube_direction_part_3(cube_direction_part_2(cube_direction_part_1(cube_direction_part_0(Seq::empty(), ib, t, function_type, c, glsl_std_id), ib, t, function_type, c, glsl_std_id), ib, t, function_type, c, glsl_std_id), ib, t, function_type, c, glsl_std_id), ib, t, function_type, c, glsl_std_id)[335]);
    assert(w[336] == cube_direction_part_4(cube_direction_part_3(cube_direction_part_2(cube_direction_part_1(cube_direction_part_0(Seq::empty(), ib, t, function_type, c, glsl_std_id), ib, t, function_type, c, glsl_std_id), ib, t, function_type, c, glsl_std_id), ib, t, function_type, c, glsl_std_id), ib, t, function_type, c, glsl_std_id)[336]);
    assert(w[337] == cube_direction_part_4(cube_direction_part_3(cube_direction_part_2(cube_direction_part_1(cube_direction_part_0(Seq::empty(), ib, t, function_type, c, glsl_std_id), ib, t, function_type, c, glsl_std_id), ib, t, function_type, c, glsl_std_id), ib, t, function_type, c, glsl_std_id), ib, t, function_type, c, glsl_std_id)[337]);
    assert(w[338] == cube_direction_part_4(cube_direction_part_3(cube_direction_part_2(cube_direction_part_1(cube_direction_part_0(Seq::empty(), ib, t, function_type, c, glsl_std_id), ib, t, function_type, c, glsl_std_id), ib, t, function_type, c, glsl_std_id), ib, t, function_type, c, glsl_std_id), ib, t, function_type, c, glsl_std_id)[338]);
    assert(w[340] == cube_direction_part_4(cube_direction_part_3(cube_direction_part_2(cube_direction_part_1(cube_direction_part_0(Seq::empty(), ib, t, function_type, c, glsl_std_id), ib, t, function_type, c, glsl_std_id), ib, t, function_type, c, glsl_std_id), ib, t, function_type, c, glsl_std_id), ib, t, function_type, c, glsl_std_id)[340]);
    assert(w[341] == cube_direction_part_4(cube_direction_part_3(cube_direction_part_2(cube_direction_part_1(cube_direction_part_0(Seq::empty(), ib, t, function_type, c, glsl_std_id), ib, t, function_type, c, glsl_std_id), ib, t, function_type, c, glsl_std_id), ib, t, function_type, c, glsl_std_id), ib, t, function_type, c, glsl_std_id)[341]);
    assert(w[342] == cube_direction_part_4(cube_direction_part_3(cube_direction_part_2(cube_direction_part_1(cube_direction_part_0(Seq::empty(), ib, t, function_type, c, glsl_std_id), ib, t, function_type, c, glsl_std_id), ib, t, function_type, c, glsl_std_id), ib, t, function_type, c, glsl_std_id), ib, t, function_type, c, glsl_std_id)[342]);
    assert(w[343] == cube_direction_part_4(cube_direction_part_3(cube_direction_part_2(cube_direction_part_1(cube_direction_part_0(Seq::empty(), ib, t, function_type, c, glsl_std_id), ib, t, function_type, c, glsl_std_id), ib, t, function_type, c, glsl_std_id), ib, t, function_type, c, glsl_std_id), ib, t, function_type, c, glsl_std_id)[343]);
    assert(w[346] == cube_direction_part_4(cube_direction_part_3(cube_direction_part_2(cube_direction_part_1(cube_direction_part_0(Seq::empty(), ib, t, function_type, c, glsl_std_id), ib, t, function_type, c, glsl_std_id), ib, t, function_type, c, glsl_std_id), ib, t, function_type, c, glsl_std_id), ib, t, function_type, c, glsl_std_id)[346]);
    assert(w[347] == cube_direction_part_4(cube_direction_part_3(cube_direction_part_2(cube_direction_part_1(cube_direction_part_0(Seq::empty(), ib, t, function_type, c, glsl_std_id), ib, t, function_type, c, glsl_std_id), ib, t, function_type, c, glsl_std_id), ib, t, function_type, c, glsl_std_id), ib, t, function_type, c, glsl_std_id)[347]);
    assert(w[348] == cube_direction_part_4(cube_direction_part_3(cube_direction_part_2(cube_direction_part_1(cube_direction_part_0(Seq::empty(), ib, t, function_type, c, glsl_std_id), ib, t, function_type, c, glsl_std_id), ib, t, function_type, c, glsl_std_id), ib, t, function_type, c, glsl_std_id), ib, t, function_type, c, glsl_std_id)[348]);
    assert(w[349] == cube_direction_part_4(cube_direction_part_3(cube_direction_part_2(cube_direction_part_1(cube_direction_part_0(Seq::empty(), ib, t, function_type, c, glsl_std_id), ib, t, function_type, c, glsl_std_id), ib, t, function_type, c, glsl_std_id), ib, t, function_type, c, glsl_std_id), ib, t, function_type, c, glsl_std_id)[349]);
}

#[verifier::spinoff_prover]
#[verifier::rlimit(60)]
proof fn lemma_cube_words_blk0(
    ib: int,
    t: CubeDirectionTypeInputs,
    function_type: u32,
    c: CubeDirectionConstants,
    glsl_std_id: u32,
)
    ensures
        cube_direction_words(ib, t, function_type, c, glsl_std_id)[350] == spec_encode_word(2, spv::SPV_INSTRUCTION_OP_LABEL),
        cube_direction_words(ib, t, function_type, c, glsl_std_id)[351] == cid(ib, 68),
        cube_direction_words(ib, t, function_type, c, glsl_std_id)[352] == spec_encode_word(5, spv::SPV_INSTRUCTION_OP_ACCESS_CHAIN),
        cube_direction_words(ib, t, function_type, c, glsl_std_id)[354] == cid(ib, 70),
        cube_direction_words(ib, t, function_type, c, glsl_std_id)[355] == cid(ib, 1),
        cube_direction_words(ib, t, function_type, c, glsl_std_id)[356] == c.int_2,
        cube_direction_words(ib, t, function_type, c, glsl_std_id)[357] == spec_encode_word(4, spv::SPV_INSTRUCTION_OP_LOAD),
        cube_direction_words(ib, t, function_type, c, glsl_std_id)[358] == t.int_id,
        cube_direction_words(ib, t, function_type, c, glsl_std_id)[359] == cid(ib, 71),
        cube_direction_words(ib, t, function_type, c, glsl_std_id)[360] == cid(ib, 70),
        cube_direction_words(ib, t, function_type, c, glsl_std_id)[361] == spec_encode_word(4, spv::SPV_INSTRUCTION_OP_S_NEGATE),
        cube_direction_words(ib, t, function_type, c, glsl_std_id)[363] == cid(ib, 72),
        cube_direction_words(ib, t, function_type, c, glsl_std_id)[364] == cid(ib, 71),
        cube_direction_words(ib, t, function_type, c, glsl_std_id)[365] == spec_encode_word(5, spv::SPV_INSTRUCTION_OP_ACCESS_CHAIN),
        cube_direction_words(ib, t, function_type, c, glsl_std_id)[367] == cid(ib, 73),
        cube_direction_words(ib, t, function_type, c, glsl_std_id)[368] == cid(ib, 1),
        cube_direction_words(ib, t, function_type, c, glsl_std_id)[369] == c.int_1,
        cube_direction_words(ib, t, function_type, c, glsl_std_id)[370] == spec_encode_word(4, spv::SPV_INSTRUCTION_OP_LOAD),
        cube_direction_words(ib, t, function_type, c, glsl_std_id)[371] == t.int_id,
        cube_direction_words(ib, t, function_type, c, glsl_std_id)[372] == cid(ib, 74),
        cube_direction_words(ib, t, function_type, c, glsl_std_id)[373] == cid(ib, 73),
        cube_direction_words(ib, t, function_type, c, glsl_std_id)[374] == spec_encode_word(4, spv::SPV_INSTRUCTION_OP_S_NEGATE),
        cube_direction_words(ib, t, function_type, c, glsl_std_id)[376] == cid(ib, 75),
        cube_direction_words(ib, t, function_type, c, glsl_std_id)[377] == cid(ib, 74),
        cube_direction_words(ib, t, function_type, c, glsl_std_id)[378] == spec_encode_word(5, spv::SPV_INSTRUCTION_OP_COMPOSITE_CONSTRUCT),
        cube_direction_words(ib, t, function_type, c, glsl_std_id)[379] == t.v2int_id,
        cube_direction_words(ib, t, function_type, c, glsl_std_id)[380] == cid(ib, 76),
        cube_direction_words(ib, t, function_type, c, glsl_std_id)[381] == cid(ib, 72),
        cube_direction_words(ib, t, function_type, c, glsl_std_id)[382] == cid(ib, 75),
        cube_direction_words(ib, t, function_type, c, glsl_std_id)[383] == spec_encode_word(3, spv::SPV_INSTRUCTION_OP_STORE),
        cube_direction_words(ib, t, function_type, c, glsl_std_id)[384] == cid(ib, 10),
        cube_direction_words(ib, t, function_type, c, glsl_std_id)[385] == cid(ib, 76),
        cube_direction_words(ib, t, function_type, c, glsl_std_id)[386] == spec_encode_word(2, spv::SPV_INSTRUCTION_OP_BRANCH),
        cube_direction_words(ib, t, function_type, c, glsl_std_id)[387] == cid(ib, 67),
{
    lemma_cube_parts(ib, t, function_type, c, glsl_std_id);
    let w = cube_direction_words(ib, t, function_type, c, glsl_std_id);
    assert(w[350] == cube_direction_part_4(cube_direction_part_3(cube_direction_part_2(cube_direction_part_1(cube_direction_part_0(Seq::empty(), ib, t, function_type, c, glsl_std_id), ib, t, function_type, c, glsl_std_id), ib, t, function_type, c, glsl_std_id), ib, t, function_type, c, glsl_std_id), ib, t, function_type, c, glsl_std_id)[350]);
    assert(w[351] == cube_direction_part_4(cube_direction_part_3(cube_direction_part_2(cube_direction_part_1(cube_direction_part_0(Seq::empty(), ib, t, function_type, c, glsl_std_id), ib, t, function_type, c, glsl_std_id), ib, t, function_type, c, glsl_std_id), ib, t, function_type, c, glsl_std_id), ib, t, function_type, c, glsl_std_id)[351]);
    assert(w[352] == cube_direction_part_4(cube_direction_part_3(cube_direction_part_2(cube_direction_part_1(cube_direction_part_0(Seq::empty(), ib, t, function_type, c, glsl_std_id), ib, t, function_type, c, glsl_std_id), ib, t, function_type, c, glsl_std_id), ib, t, function_type, c, glsl_std_id), ib, t, function_type, c, glsl_std_id)[352]);
    assert(w[354] == cube_direction_part_4(cube_direction_part_3(cube_direction_part_2(cube_direction_part_1(cube_direction_part_0(Seq::empty(), ib, t, function_type, c, glsl_std_id), ib, t, function_type, c, glsl_std_id), ib, t, function_type, c, glsl_std_id), ib, t, function_type, c, glsl_std_id), ib, t, function_type, c, glsl_std_id)[354]);
    assert(w[355] == cube_direction_part_4(cube_direction_part_3(cube_direction_part_2(cube_direction_part_1(cube_direction_part_0(Seq::empty(), ib, t, function_type, c, glsl_std_id), ib, t, function_type, c, glsl_std_id), ib, t, function_type, c, glsl_std_id), ib, t, function_type, c, glsl_std_id), ib, t, function_type, c, glsl_std_id)[355]);
    assert(w[356] == cube_direction_part_4(cube_direction_part_3(cube_direction_part_2(cube_direction_part_1(cube_direction_part_0(Seq::empty(), ib, t, function_type, c, glsl_std_id), ib, t, function_type, c, glsl_std_id), ib, t, function_type, c, glsl_std_id), ib, t, function_type, c, glsl_std_id), ib, t, function_type, c, glsl_std_id)[356]);
    assert(w[357] == cube_direction_part_4(cube_direction_part_3(cube_direction_part_2(cube_direction_part_1(cube_direction_part_0(Seq::empty(), ib, t, function_type, c, glsl_std_id), ib, t, function_type, c, glsl_std_id), ib, t, function_type, c, glsl_std_id), ib, t, function_type, c, glsl_std_id), ib, t, function_type, c, glsl_std_id)[357]);
    assert(w[358] == cube_direction_part_4(cube_direction_part_3(cube_direction_part_2(cube_direction_part_1(cube_direction_part_0(Seq::empty(), ib, t, function_type, c, glsl_std_id), ib, t, function_type, c, glsl_std_id), ib, t, function_type, c, glsl_std_id), ib, t, function_type, c, glsl_std_id), ib, t, function_type, c, glsl_std_id)[358]);
    assert(w[359] == cube_direction_part_4(cube_direction_part_3(cube_direction_part_2(cube_direction_part_1(cube_direction_part_0(Seq::empty(), ib, t, function_type, c, glsl_std_id), ib, t, function_type, c, glsl_std_id), ib, t, function_type, c, glsl_std_id), ib, t, function_type, c, glsl_std_id), ib, t, function_type, c, glsl_std_id)[359]);
    assert(w[360] == cube_direction_part_4(cube_direction_part_3(cube_direction_part_2(cube_direction_part_1(cube_direction_part_0(Seq::empty(), ib, t, function_type, c, glsl_std_id), ib, t, function_type, c, glsl_std_id), ib, t, function_type, c, glsl_std_id), ib, t, function_type, c, glsl_std_id), ib, t, function_type, c, glsl_std_id)[360]);
    assert(w[361] == cube_direction_part_4(cube_direction_part_3(cube_direction_part_2(cube_direction_part_1(cube_direction_part_0(Seq::empty(), ib, t, function_type, c, glsl_std_id), ib, t, function_type, c, glsl_std_id), ib, t, function_type, c, glsl_std_id), ib, t, function_type, c, glsl_std_id), ib, t, function_type, c, glsl_std_id)[361]);
    assert(w[363] == cube_direction_part_4(cube_direction_part_3(cube_direction_part_2(cube_direction_part_1(cube_direction_part_0(Seq::empty(), ib, t, function_type, c, glsl_std_id), ib, t, function_type, c, glsl_std_id), ib, t, function_type, c, glsl_std_id), ib, t, function_type, c, glsl_std_id), ib, t, function_type, c, glsl_std_id)[363]);
    assert(w[364] == cube_direction_part_4(cube_direction_part_3(cube_direction_part_2(cube_direction_part_1(cube_direction_part_0(Seq::empty(), ib, t, function_type, c, glsl_std_id), ib, t, function_type, c, glsl_std_id), ib, t, function_type, c, glsl_std_id), ib, t, function_type, c, glsl_std_id), ib, t, function_type, c, glsl_std_id)[364]);
    assert(w[365] == cube_direction_part_4(cube_direction_part_3(cube_direction_part_2(cube_direction_part_1(cube_direction_part_0(Seq::empty(), ib, t, function_type, c, glsl_std_id), ib, t, function_type, c, glsl_std_id), ib, t, function_type, c, glsl_std_id), ib, t, function_type, c, glsl_std_id), ib, t, function_type, c, glsl_std_id)[365]);
    assert(w[367] == cube_direction_part_4(cube_direction_part_3(cube_direction_part_2(cube_direction_part_1(cube_direction_part_0(Seq::empty(), ib, t, function_type, c, glsl_std_id), ib, t, function_type, c, glsl_std_id), ib, t, function_type, c, glsl_std_id), ib, t, function_type, c, glsl_std_id), ib, t, function_type, c, glsl_std_id)[367]);
    assert(w[368] == cube_direction_part_4(cube_direction_part_3(cube_direction_part_2(cube_direction_part_1(cube_direction_part_0(Seq::empty(), ib, t, function_type, c, glsl_std_id), ib, t, function_type, c, glsl_std_id), ib, t, function_type, c, glsl_std_id), ib, t, function_type, c, glsl_std_id), ib, t, function_type, c, glsl_std_id)[368]);
    assert(w[369] == cube_direction_part_4(cube_direction_part_3(cube_direction_part_2(cube_direction_part_1(cube_direction_part_0(Seq::empty(), ib, t, function_type, c, glsl_std_id), ib, t, function_type, c, glsl_std_id), ib, t, function_type, c, glsl_std_id), ib, t, function_type, c, glsl_std_id), ib, t, function_type, c, glsl_std_id)[369]);
    assert(w[370] == cube_direction_part_4(cube_direction_part_3(cube_direction_part_2(cube_direction_part_1(cube_direction_part_0(Seq::empty(), ib, t, function_type, c, glsl_std_id), ib, t, function_type, c, glsl_std_id), ib, t, function_type, c, glsl_std_id), ib, t, function_type, c, glsl_std_id), ib, t, function_type, c, glsl_std_id)[370]);
    assert(w[371] == cube_direction_part_4(cube_direction_part_3(cube_direction_part_2(cube_direction_part_1(cube_direction_part_0(Seq::empty(), ib, t, function_type, c, glsl_std_id), ib, t, function_type, c, glsl_std_id), ib, t, function_type, c, glsl_std_id), ib, t, function_type, c, glsl_std_id), ib, t, function_type, c, glsl_std_id)[371]);
    assert(w[372] == cube_direction_part_4(cube_direction_part_3(cube_direction_part_2(cube_direction_part_1(cube_direction_part_0(Seq::empty(), ib, t, function_type, c, glsl_std_id), ib, t, function_type, c, glsl_std_id), ib, t, function_type, c, glsl_std_id), ib, t, function_type, c, glsl_std_id), ib, t, function_type, c, glsl_std_id)[372]);
    assert(w[373] == cube_direction_part_4(cube_direction_part_3(cube_direction_part_2(cube_direction_part_1(cube_direction_part_0(Seq::empty(), ib, t, function_type, c, glsl_std_id), ib, t, function_type, c, glsl_std_id), ib, t, function_type, c, glsl_std_id), ib, t, function_type, c, glsl_std_id), ib, t, function_type, c, glsl_std_id)[373]);
    assert(w[374] == cube_direction_part_4(cube_direction_part_3(cube_direction_part_2(cube_direction_part_1(cube_direction_part_0(Seq::empty(), ib, t, function_type, c, glsl_std_id), ib, t, function_type, c, glsl_std_id), ib, t, function_type, c, glsl_std_id), ib, t, function_type, c, glsl_std_id), ib, t, function_type, c, glsl_std_id)[374]);
    assert(w[376] == cube_direction_part_4(cube_direction_part_3(cube_direction_part_2(cube_direction_part_1(cube_direction_part_0(Seq::empty(), ib, t, function_type, c, glsl_std_id), ib, t, function_type, c, glsl_std_id), ib, t, function_type, c, glsl_std_id), ib, t, function_type, c, glsl_std_id), ib, t, function_type, c, glsl_std_id)[376]);
    assert(w[377] == cube_direction_part_4(cube_direction_part_3(cube_direction_part_2(cube_direction_part_1(cube_direction_part_0(Seq::empty(), ib, t, function_type, c, glsl_std_id), ib, t, function_type, c, glsl_std_id), ib, t, function_type, c, glsl_std_id), ib, t, function_type, c, glsl_std_id), ib, t, function_type, c, glsl_std_id)[377]);
    assert(w[378] == cube_direction_part_4(cube_direction_part_3(cube_direction_part_2(cube_direction_part_1(cube_direction_part_0(Seq::empty(), ib, t, function_type, c, glsl_std_id), ib, t, function_type, c, glsl_std_id), ib, t, function_type, c, glsl_std_id), ib, t, function_type, c, glsl_std_id), ib, t, function_type, c, glsl_std_id)[378]);
    assert(w[379] == cube_direction_part_4(cube_direction_part_3(cube_direction_part_2(cube_direction_part_1(cube_direction_part_0(Seq::empty(), ib, t, function_type, c, glsl_std_id), ib, t, function_type, c, glsl_std_id), ib, t, function_type, c, glsl_std_id), ib, t, function_type, c, glsl_std_id), ib, t, function_type, c, glsl_std_id)[379]);
    assert(w[380] == cube_direction_part_4(cube_direction_part_3(cube_direction_part_2(cube_direction_part_1(cube_direction_part_0(Seq::empty(), ib, t, function_type, c, glsl_std_id), ib, t, function_type, c, glsl_std_id), ib, t, function_type, c, glsl_std_id), ib, t, function_type, c, glsl_std_id), ib, t, function_type, c, glsl_std_id)[380]);
    assert(w[381] == cube_direction_part_4(cube_direction_part_3(cube_direction_part_2(cube_direction_part_1(cube_direction_part_0(Seq::empty(), ib, t, function_type, c, glsl_std_id), ib, t, function_type, c, glsl_std_id), ib, t, function_type, c, glsl_std_id), ib, t, function_type, c, glsl_std_id), ib, t, function_type, c, glsl_std_id)[381]);
    assert(w[382] == cube_direction_part_4(cube_direction_part_3(cube_direction_part_2(cube_direction_part_1(cube_direction_part_0(Seq::empty(), ib, t, function_type, c, glsl_std_id), ib, t, function_type, c, glsl_std_id), ib, t, function_type, c, glsl_std_id), ib, t, function_type, c, glsl_std_id), ib, t, function_type, c, glsl_std_id)[382]);
    assert(w[383] == cube_direction_part_4(cube_direction_part_3(cube_direction_part_2(cube_direction_part_1(cube_direction_part_0(Seq::empty(), ib, t, function_type, c, glsl_std_id), ib, t, function_type, c, glsl_std_id), ib, t, function_type, c, glsl_std_id), ib, t, function_type, c, glsl_std_id), ib, t, function_type, c, glsl_std_id)[383]);
    assert(w[384] == cube_direction_part_4(cube_direction_part_3(cube_direction_part_2(cube_direction_part_1(cube_direction_part_0(Seq::empty(), ib, t, function_type, c, glsl_std_id), ib, t, function_type, c, glsl_std_id), ib, t, function_type, c, glsl_std_id), ib, t, function_type, c, glsl_std_id), ib, t, function_type, c, glsl_std_id)[384]);
    assert(w[385] == cube_direction_part_4(cube_direction_part_3(cube_direction_part_2(cube_direction_part_1(cube_direction_part_0(Seq::empty(), ib, t, function_type, c, glsl_std_id), ib, t, function_type, c, glsl_std_id), ib, t, function_type, c, glsl_std_id), ib, t, function_type, c, glsl_std_id), ib, t, function_type, c, glsl_std_id)[385]);
    assert(w[386] == cube_direction_part_5(cube_direction_part_4(cube_direction_part_3(cube_direction_part_2(cube_direction_part_1(cube_direction_part_0(Seq::empty(), ib, t, function_type, c, glsl_std_id), ib, t, function_type, c, glsl_std_id), ib, t, function_type, c, glsl_std_id), ib, t, function_type, c, glsl_std_id), ib, t, function_type, c, glsl_std_id), ib, t, function_type, c, glsl_std_id)[386]);
    assert(w[387] == cube_direction_part_5(cube_direction_part_4(cube_direction_part_3(cube_direction_part_2(cube_direction_part_1(cube_direction_part_0(Seq::empty(), ib, t, function_type, c, glsl_std_id), ib, t, function_type, c, glsl_std_id), ib, t, function_type, c, glsl_std_id), ib, t, function_type, c, glsl_std_id), ib, t, function_type, c, glsl_std_id), ib, t, function_type, c, glsl_std_id)[387]);
}

#[verifier::spinoff_prover]
#[verifier::rlimit(60)]
proof fn lemma_cube_words_disp1(
    ib: int,
    t: CubeDirectionTypeInputs,
    function_type: u32,
    c: CubeDirectionConstants,
    glsl_std_id: u32,
)
    ensures
        cube_direction_words(ib, t, function_type, c, glsl_std_id)[388] == spec_encode_word(2, spv::SPV_INSTRUCTION_OP_LABEL),
        cube_direction_words(ib, t, function_type, c, glsl_std_id)[389] == cid(ib, 69),
        cube_direction_words(ib, t, function_type, c, glsl_std_id)[390] == spec_encode_word(4, spv::SPV_INSTRUCTION_OP_LOAD),
        cube_direction_words(ib, t, function_type, c, glsl_std_id)[391] == t.int_id,
        cube_direction_words(ib, t, function_type, c, glsl_std_id)[392] == cid(ib, 77),
        cube_direction_words(ib, t, function_type, c, glsl_std_id)[393] == cid(ib, 6),
        cube_direction_words(ib, t, function_type, c, glsl_std_id)[394] == spec_encode_word(5, spv::SPV_INSTRUCTION_OP_I_EQUAL),
        cube_direction_words(ib, t, function_type, c, glsl_std_id)[396] == cid(ib, 78),
        cube_direction_words(ib, t, function_type, c, glsl_std_id)[397] == cid(ib, 77),
        cube_direction_words(ib, t, function_type, c, glsl_std_id)[398] == c.int_1,
        cube_direction_words(ib, t, function_type, c, glsl_std_id)[399] == spec_encode_word(3, spv::SPV_INSTRUCTION_OP_SELECTION_MERGE),
        cube_direction_words(ib, t, function_type, c, glsl_std_id)[402] == spec_encode_word(4, spv::SPV_INSTRUCTION_OP_BRANCH_CONDITIONAL),
        cube_direction_words(ib, t, function_type, c, glsl_std_id)[403] == cid(ib, 78),
        cube_direction_words(ib, t, function_type, c, glsl_std_id)[404] == cid(ib, 80),
        cube_direction_words(ib, t, function_type, c, glsl_std_id)[405] == cid(ib, 81),
{
    lemma_cube_parts(ib, t, function_type, c, glsl_std_id);
    let w = cube_direction_words(ib, t, function_type, c, glsl_std_id);
    assert(w[388] == cube_direction_part_5(cube_direction_part_4(cube_direction_part_3(cube_direction_part_2(cube_direction_part_1(cube_direction_part_0(Seq::empty(), ib, t, function_type, c, glsl_std_id), ib, t, function_type, c, glsl_std_id), ib, t, function_type, c, glsl_std_id), ib, t, function_type, c, glsl_std_id), ib, t, function_type, c, glsl_std_id), ib, t, function_type, c, glsl_std_id)[388]);
    assert(w[389] == cube_direction_part_5(cube_direction_part_4(cube_direction_part_3(cube_direction_part_2(cube_direction_part_1(cube_direction_part_0(Seq::empty(), ib, t, function_type, c, glsl_std_id), ib, t, function_type, c, glsl_std_id), ib, t, function_type, c, glsl_std_id), ib, t, function_type, c, glsl_std_id), ib, t, function_type, c, glsl_std_id), ib, t, function_type, c, glsl_std_id)[389]);
    assert(w[390] == cube_direction_part_5(cube_direction_part_4(cube_direction_part_3(cube_direction_part_2(cube_direction_part_1(cube_direction_part_0(Seq::empty(), ib, t, function_type, c, glsl_std_id), ib, t, function_type, c, glsl_std_id), ib, t, function_type, c, glsl_std_id), ib, t, function_type, c, glsl_std_id), ib, t, function_type, c, glsl_std_id), ib, t, function_type, c, glsl_std_id)[390]);
    assert(w[391] == cube_direction_part_5(cube_direction_part_4(cube_direction_part_3(cube_direction_part_2(cube_direction_part_1(cube_direction_part_0(Seq::empty(), ib, t, function_type, c, glsl_std_id), ib, t, function_type, c, glsl_std_id), ib, t, function_type, c, glsl_std_id), ib, t, function_type, c, glsl_std_id), ib, t, function_type, c, glsl_std_id), ib, t, function_type, c, glsl_std_id)[391]);
    assert(w[392] == cube_direction_part_5(cube_direction_part_4(cube_direction_part_3(cube_direction_part_2(cube_direction_part_1(cube_direction_part_0(Seq::empty(), ib, t, function_type, c, glsl_std_id), ib, t, function_type, c, glsl_std_id), ib, t, function_type, c, glsl_std_id), ib, t, function_type, c, glsl_std_id), ib, t, function_type, c, glsl_std_id), ib, t, function_type, c, glsl_std_id)[392]);
    assert(w[393] == cube_direction_part_5(cube_direction_part_4(cube_direction_part_3(cube_direction_part_2(cube_direction_part_1(cube_direction_part_0(Seq::empty(), ib, t, function_type, c, glsl_std_id), ib, t, function_type, c, glsl_std_id), ib, t, function_type, c, glsl_std_id), ib, t, function_type, c, glsl_std_id), ib, t, function_type, c, glsl_std_id), ib, t, function_type, c, glsl_std_id)[393]);
    assert(w[394] == cube_direction_part_5(cube_direction_part_4(cube_direction_part_3(cube_direction_part_2(cube_direction_part_1(cube_direction_part_0(Seq::empty(), ib, t, function_type, c, glsl_std_id), ib, t, function_type, c, glsl_std_id), ib, t, function_type, c, glsl_std_id), ib, t, function_type, c, glsl_std_id), ib, t, function_type, c, glsl_std_id), ib, t, function_type, c, glsl_std_id)[394]);
    assert(w[396] == cube_direction_part_5(cube_direction_part_4(cube_direction_part_3(cube_direction_part_2(cube_direction_part_1(cube_direction_part_0(Seq::empty(), ib, t, function_type, c, glsl_std_id), ib, t, function_type, c, glsl_std_id), ib, t, function_type, c, glsl_std_id), ib, t, function_type, c, glsl_std_id), ib, t, function_type, c, glsl_std_id), ib, t, function_type, c, glsl_std_id)[396]);
    assert(w[397] == cube_direction_part_5(cube_direction_part_4(cube_direction_part_3(cube_direction_part_2(cube_direction_part_1(cube_direction_part_0(Seq::empty(), ib, t, function_type, c, glsl_std_id), ib, t, function_type, c, glsl_std_id), ib, t, function_type, c, glsl_std_id), ib, t, function_type, c, glsl_std_id), ib, t, function_type, c, glsl_std_id), ib, t, function_type, c, glsl_std_id)[397]);
    assert(w[398] == cube_direction_part_5(cube_direction_part_4(cube_direction_part_3(cube_direction_part_2(cube_direction_part_1(cube_direction_part_0(Seq::empty(), ib, t, function_type, c, glsl_std_id), ib, t, function_type, c, glsl_std_id), ib, t, function_type, c, glsl_std_id), ib, t, function_type, c, glsl_std_id), ib, t, function_type, c, glsl_std_id), ib, t, function_type, c, glsl_std_id)[398]);
    assert(w[399] == cube_direction_part_5(cube_direction_part_4(cube_direction_part_3(cube_direction_part_2(cube_direction_part_1(cube_direction_part_0(Seq::empty(), ib, t, function_type, c, glsl_std_id), ib, t, function_type, c, glsl_std_id), ib, t, function_type, c, glsl_std_id), ib, t, function_type, c, glsl_std_id), ib, t, function_type, c, glsl_std_id), ib, t, function_type, c, glsl_std_id)[399]);
    assert(w[402] == cube_direction_part_5(cube_direction_part_4(cube_direction_part_3(cube_direction_part_2(cube_direction_part_1(cube_direction_part_0(Seq::empty(), ib, t, function_type, c, glsl_std_id), ib, t, function_type, c, glsl_std_id), ib, t, function_type, c, glsl_std_id), ib, t, function_type, c, glsl_std_id), ib, t, function_type, c, glsl_std_id), ib, t, function_type, c, glsl_std_id)[402]);
    assert(w[403] == cube_direction_part_5(cube_direction_part_4(cube_direction_part_3(cube_direction_part_2(cube_direction_part_1(cube_direction_part_0(Seq::empty(), ib, t, function_type, c, glsl_std_id), ib, t, function_type, c, glsl_std_id), ib, t, function_type, c, glsl_std_id), ib, t, function_type, c, glsl_std_id), ib, t, function_type, c, glsl_std_id), ib, t, function_type, c, glsl_std_id)[403]);
    assert(w[404] == cube_direction_part_5(cube_direction_part_4(cube_direction_part_3(cube_direction_part_2(cube_direction_part_1(cube_direction_part_0(Seq::empty(), ib, t, function_type, c, glsl_std_id), ib, t, function_type, c, glsl_std_id), ib, t, function_type, c, glsl_std_id), ib, t, function_type, c, glsl_std_id), ib, t, function_type, c, glsl_std_id), ib, t, function_type, c, glsl_std_id)[404]);
    assert(w[405] == cube_direction_part_5(cube_direction_part_4(cube_direction_part_3(cube_direction_part_2(cube_direction_part_1(cube_direction_part_0(Seq::empty(), ib, t, function_type, c, glsl_std_id), ib, t, function_type, c, glsl_std_id), ib, t, function_type, c, glsl_std_id), ib, t, function_type, c, glsl_std_id), ib, t, function_type, c, glsl_std_id), ib, t, function_type, c, glsl_std_id)[405]);
}

#[verifier::spinoff_prover]
#[verifier::rlimit(60)]
proof fn lemma_cube_words_blk1(
    ib: int,
    t: CubeDirectionTypeInputs,
    function_type: u32,
    c: CubeDirectionConstants,
    glsl_std_id: u32,
)
    ensures
        cube_direction_words(ib, t, function_type, c, glsl_std_id)[406] == spec_encode_word(2, spv::SPV_INSTRUCTION_OP_LABEL),
        cube_direction_words(ib, t, function_type, c, glsl_std_id)[407] == cid(ib, 80),
        cube_direction_words(ib, t, function_type, c, glsl_std_id)[408] == spec_encode_word(5, spv::SPV_INSTRUCTION_OP_ACCESS_CHAIN),
        cube_direction_words(ib, t, function_type, c, glsl_std_id)[410] == cid(ib, 82),
        cube_direction_words(ib, t, function_type, c, glsl_std_id)[411] == cid(ib, 1),
        cube_direction_words(ib, t, function_type, c, glsl_std_id)[412] == c.int_2,
        cube_direction_words(ib, t, function_type, c, glsl_std_id)[413] == spec_encode_word(4, spv::SPV_INSTRUCTION_OP_LOAD),
        cube_direction_words(ib, t, function_type, c, glsl_std_id)[414] == t.int_id,
        cube_direction_words(ib, t, function_type, c, glsl_std_id)[415] == cid(ib, 83),
        cube_direction_words(ib, t, function_type, c, glsl_std_id)[416] == cid(ib, 82),
        cube_direction_words(ib, t, function_type, c, glsl_std_id)[417] == spec_encode_word(5, spv::SPV_INSTRUCTION_OP_ACCESS_CHAIN),
        cube_direction_words(ib, t, function_type, c, glsl_std_id)[419] == cid(ib, 84),
        cube_direction_words(ib, t, function_type, c, glsl_std_id)[420] == cid(ib, 1),
        cube_direction_words(ib, t, function_type, c, glsl_std_id)[421] == c.int_1,
        cube_direction_words(ib, t, function_type, c, glsl_std_id)[422] == spec_encode_word(4, spv::SPV_INSTRUCTION_OP_LOAD),
        cube_direction_words(ib, t, function_type, c, glsl_std_id)[423] == t.int_id,
        cube_direction_words(ib, t, function_type, c, glsl_std_id)[424] == cid(ib, 85),
        cube_direction_words(ib, t, function_type, c, glsl_std_id)[425] == cid(ib, 84),
        cube_direction_words(ib, t, function_type, c, glsl_std_id)[426] == spec_encode_word(4, spv::SPV_INSTRUCTION_OP_S_NEGATE),
        cube_direction_words(ib, t, function_type, c, glsl_std_id)[428] == cid(ib, 86),
        cube_direction_words(ib, t, function_type, c, glsl_std_id)[429] == cid(ib, 85),
        cube_direction_words(ib, t, function_type, c, glsl_std_id)[430] == spec_encode_word(5, spv::SPV_INSTRUCTION_OP_COMPOSITE_CONSTRUCT),
        cube_direction_words(ib, t, function_type, c, glsl_std_id)[431] == t.v2int_id,
        cube_direction_words(ib, t, function_type, c, glsl_std_id)[432] == cid(ib, 87),
        cube_direction_words(ib, t, function_type, c, glsl_std_id)[433] == cid(ib, 83),
        cube_direction_words(ib, t, function_type, c, glsl_std_id)[434] == cid(ib, 86),
        cube_direction_words(ib, t, function_type, c, glsl_std_id)[435] == spec_encode_word(3, spv::SPV_INSTRUCTION_OP_STORE),
        cube_direction_words(ib, t, function_type, c, glsl_std_id)[436] == cid(ib, 11),
        cube_direction_words(ib, t, function_type, c, glsl_std_id)[437] == cid(ib, 87),
        cube_direction_words(ib, t, function_type, c, glsl_std_id)[438] == spec_encode_word(2, spv::SPV_INSTRUCTION_OP_BRANCH),
        cube_direction_words(ib, t, function_type, c, glsl_std_id)[439] == cid(ib, 79),
{
    lemma_cube_parts(ib, t, function_type, c, glsl_std_id);
    let w = cube_direction_words(ib, t, function_type, c, glsl_std_id);
    assert(w[406] == cube_direction_part_5(cube_direction_part_4(cube_direction_part_3(cube_direction_part_2(cube_direction_part_1(cube_direction_part_0(Seq::empty(), ib, t, function_type, c, glsl_std_id), ib, t, function_type, c, glsl_std_id), ib, t, function_type, c, glsl_std_id), ib, t, function_type, c, glsl_std_id), ib, t, function_type, c, glsl_std_id), ib, t, function_type, c, glsl_std_id)[406]);
    assert(w[407] == cube_direction_part_5(cube_direction_part_4(cube_direction_part_3(cube_direction_part_2(cube_direction_part_1(cube_direction_part_0(Seq::empty(), ib, t, function_type, c, glsl_std_id), ib, t, function_type, c, glsl_std_id), ib, t, function_type, c, glsl_std_id), ib, t, function_type, c, glsl_std_id), ib, t, function_type, c, glsl_std_id), ib, t, function_type, c, glsl_std_id)[407]);
    assert(w[408] == cube_direction_part_5(cube_direction_part_4(cube_direction_part_3(cube_direction_part_2(cube_direction_part_1(cube_direction_part_0(Seq::empty(), ib, t, function_type, c, glsl_std_id), ib, t, function_type, c, glsl_std_id), ib, t, function_type, c, glsl_std_id), ib, t, function_type, c, glsl_std_id), ib, t, function_type, c, glsl_std_id), ib, t, function_type, c, glsl_std_id)[408]);
    assert(w[410] == cube_direction_part_5(cube_direction_part_4(cube_direction_part_3(cube_direction_part_2(cube_direction_part_1(cube_direction_part_0(Seq::empty(), ib, t, function_type, c, glsl_std_id), ib, t, function_type, c, glsl_std_id), ib, t, function_type, c, glsl_std_id), ib, t, function_type, c, glsl_std_id), ib, t, function_type, c, glsl_std_id), ib, t, function_type, c, glsl_std_id)[410]);
    assert(w[411] == cube_direction_part_5(cube_direction_part_4(cube_direction_part_3(cube_direction_part_2(cube_direction_part_1(cube_direction_part_0(Seq::empty(), ib, t, function_type, c, glsl_std_id), ib, t, function_type, c, glsl_std_id), ib, t, function_type, c, glsl_std_id), ib, t, function_type, c, glsl_std_id), ib, t, function_type, c, glsl_std_id), ib, t, function_type, c, glsl_std_id)[411]);
    assert(w[412] == cube_direction_part_5(cube_direction_part_4(cube_direction_part_3(cube_direction_part_2(cube_direction_part_1(cube_direction_part_0(Seq::empty(), ib, t, function_type, c, glsl_std_id), ib, t, function_type, c, glsl_std_id), ib, t, function_type, c, glsl_std_id), ib, t, function_type, c, glsl_std_id), ib, t, function_type, c, glsl_std_id), ib, t, function_type, c, glsl_std_id)[412]);
    assert(w[413] == cube_direction_part_5(cube_direction_part_4(cube_direction_part_3(cube_direction_part_2(cube_direction_part_1(cube_direction_part_0(Seq::empty(), ib, t, function_type, c, glsl_std_id), ib, t, function_type, c, glsl_std_id), ib, t, function_type, c, glsl_std_id), ib, t, function_type, c, glsl_std_id), ib, t, function_type, c, glsl_std_id), ib, t, function_type, c, glsl_std_id)[413]);
    assert(w[414] == cube_direction_part_5(cube_direction_part_4(cube_direction_part_3(cube_direction_part_2(cube_direction_part_1(cube_direction_part_0(Seq::empty(), ib, t, function_type, c, glsl_std_id), ib, t, function_type, c, glsl_std_id), ib, t, function_type, c, glsl_std_id), ib, t, function_type, c, glsl_std_id), ib, t, function_type, c, glsl_std_id), ib, t, function_type, c, glsl_std_id)[414]);
    assert(w[415] == cube_direction_part_5(cube_direction_part_4(cube_direction_part_3(cube_direction_part_2(cube_direction_part_1(cube_direction_part_0(Seq::empty(), ib, t, function_type, c, glsl_std_id), ib, t, function_type, c, glsl_std_id), ib, t, function_type, c, glsl_std_id), ib, t, function_type, c, glsl_std_id), ib, t, function_type, c, glsl_std_id), ib, t, function_type, c, glsl_std_id)[415]);
    assert(w[416] == cube_direction_part_5(cube_direction_part_4(cube_direction_part_3(cube_direction_part_2(cube_direction_part_1(cube_direction_part_0(Seq::empty(), ib, t, function_type, c, glsl_std_id), ib, t, function_type, c, glsl_std_id), ib, t, function_type, c, glsl_std_id), ib, t, function_type, c, glsl_std_id), ib, t, function_type, c, glsl_std_id), ib, t, function_type, c, glsl_std_id)[416]);
    assert(w[417] == cube_direction_part_5(cube_direction_part_4(cube_direction_part_3(cube_direction_part_2(cube_direction_part_1(cube_direction_part_0(Seq::empty(), ib, t, function_type, c, glsl_std_id), ib, t, function_type, c, glsl_std_id), ib, t, function_type, c, glsl_std_id), ib, t, function_type, c, glsl_std_id), ib, t, function_type, c, glsl_std_id), ib, t, function_type, c, glsl_std_id)[417]);
    assert(w[419] == cube_direction_part_5(cube_direction_part_4(cube_direction_part_3(cube_direction_part_2(cube_direction_part_1(cube_direction_part_0(Seq::empty(), ib, t, function_type, c, glsl_std_id), ib, t, function_type, c, glsl_std_id), ib, t, function_type, c, glsl_std_id), ib, t, function_type, c, glsl_std_id), ib, t, function_type, c, glsl_std_id), ib, t, function_type, c, glsl_std_id)[419]);
    assert(w[420] == cube_direction_part_5(cube_direction_part_4(cube_direction_part_3(cube_direction_part_2(cube_direction_part_1(cube_direction_part_0(Seq::empty(), ib, t, function_type, c, glsl_std_id), ib, t, function_type, c, glsl_std_id), ib, t, function_type, c, glsl_std_id), ib, t, function_type, c, glsl_std_id), ib, t, function_type, c, glsl_std_id), ib, t, function_type, c, glsl_std_id)[420]);
    assert(w[421] == cube_direction_part_5(cube_direction_part_4(cube_direction_part_3(cube_direction_part_2(cube_direction_part_1(cube_direction_part_0(Seq::empty(), ib, t, function_type, c, glsl_std_id), ib, t, function_type, c, glsl_std_id), ib, t, function_type, c, glsl_std_id), ib, t, function_type, c, glsl_std_id), ib, t, function_type, c, glsl_std_id), ib, t, function_type, c, glsl_std_id)[421]);
    assert(w[422] == cube_direction_part_5(cube_direction_part_4(cube_direction_part_3(cube_direction_part_2(cube_direction_part_1(cube_direction_part_0(Seq::empty(), ib, t, function_type, c, glsl_std_id), ib, t, function_type, c, glsl_std_id), ib, t, function_type, c, glsl_std_id), ib, t, function_type, c, glsl_std_id), ib, t, function_type, c, glsl_std_id), ib, t, function_type, c, glsl_std_id)[422]);
    assert(w[423] == cube_direction_part_5(cube_direction_part_4(cube_direction_part_3(cube_direction_part_2(cube_direction_part_1(cube_direction_part_0(Seq::empty(), ib, t, function_type, c, glsl_std_id), ib, t, function_type, c, glsl_std_id), ib, t, function_type, c, glsl_std_id), ib, t, function_type, c, glsl_std_id), ib, t, function_type, c, glsl_std_id), ib, t, function_type, c, glsl_std_id)[423]);
    assert(w[424] == cube_direction_part_5(cube_direction_part_4(cube_direction_part_3(cube_direction_part_2(cube_direction_part_1(cube_direction_part_0(Seq::empty(), ib, t, function_type, c, glsl_std_id), ib, t, function_type, c, glsl_std_id), ib, t, function_type, c, glsl_std_id), ib, t, function_type, c, glsl_std_id), ib, t, function_type, c, glsl_std_id), ib, t, function_type, c, glsl_std_id)[424]);
    assert(w[425] == cube_direction_part_5(cube_direction_part_4(cube_direction_part_3(cube_direction_part_2(cube_direction_part_1(cube_direction_part_0(Seq::empty(), ib, t, function_type, c, glsl_std_id), ib, t, function_type, c, glsl_std_id), ib, t, function_type, c, glsl_std_id), ib, t, function_type, c, glsl_std_id), ib, t, function_type, c, glsl_std_id), ib, t, function_type, c, glsl_std_id)[425]);
    assert(w[426] == cube_direction_part_5(cube_direction_part_4(cube_direction_part_3(cube_direction_part_2(cube_direction_part_1(cube_direction_part_0(Seq::empty(), ib, t, function_type, c, glsl_std_id), ib, t, function_type, c, glsl_std_id), ib, t, function_type, c, glsl_std_id), ib, t, function_type, c, glsl_std_id), ib, t, function_type, c, glsl_std_id), ib, t, function_type, c, glsl_std_id)[426]);
    assert(w[428] == cube_direction_part_5(cube_direction_part_4(cube_direction_part_3(cube_direction_part_2(cube_direction_part_1(cube_direction_part_0(Seq::empty(), ib, t, function_type, c, glsl_std_id), ib, t, function_type, c, glsl_std_id), ib, t, function_type, c, glsl_std_id), ib, t, function_type, c, glsl_std_id), ib, t, function_type, c, glsl_std_id), ib, t, function_type, c, glsl_std_id)[428]);
    assert(w[429] == cube_direction_part_5(cube_direction_part_4(cube_direction_part_3(cube_direction_part_2(cube_direction_part_1(cube_direction_part_0(Seq::empty(), ib, t, function_type, c, glsl_std_id), ib, t, function_type, c, glsl_std_id), ib, t, function_type, c, glsl_std_id), ib, t, function_type, c, glsl_std_id), ib, t, function_type, c, glsl_std_id), ib, t, function_type, c, glsl_std_id)[429]);
    assert(w[430] == cube_direction_part_5(cube_direction_part_4(cube_direction_part_3(cube_direction_part_2(cube_direction_part_1(cube_direction_part_0(Seq::empty(), ib, t, function_type, c, glsl_std_id), ib, t, function_type, c, glsl_std_id), ib, t, function_type, c, glsl_std_id), ib, t, function_type, c, glsl_std_id), ib, t, function_type, c, glsl_std_id), ib, t, function_type, c, glsl_std_id)[430]);
    assert(w[431] == cube_direction_part_5(cube_direction_part_4(cube_direction_part_3(cube_direction_part_2(cube_direction_part_1(cube_direction_part_0(Seq::empty(), ib, t, function_type, c, glsl_std_id), ib, t, function_type, c, glsl_std_id), ib, t, function_type, c, glsl_std_id), ib, t, function_type, c, glsl_std_id), ib, t, function_type, c, glsl_std_id), ib, t, function_type, c, glsl_std_id)[431]);
    assert(w[432] == cube_direction_part_5(cube_direction_part_4(cube_direction_part_3(cube_direction_part_2(cube_direction_part_1(cube_direction_part_0(Seq::empty(), ib, t, function_type, c, glsl_std_id), ib, t, function_type, c, glsl_std_id), ib, t, function_type, c, glsl_std_id), ib, t, function_type, c, glsl_std_id), ib, t, function_type, c, glsl_std_id), ib, t, function_type, c, glsl_std_id)[432]);
    assert(w[433] == cube_direction_part_5(cube_direction_part_4(cube_direction_part_3(cube_direction_part_2(cube_direction_part_1(cube_direction_part_0(Seq::empty(), ib, t, function_type, c, glsl_std_id), ib, t, function_type, c, glsl_std_id), ib, t, function_type, c, glsl_std_id), ib, t, function_type, c, glsl_std_id), ib, t, function_type, c, glsl_std_id), ib, t, function_type, c, glsl_std_id)[433]);
    assert(w[434] == cube_direction_part_5(cube_direction_part_4(cube_direction_part_3(cube_direction_part_2(cube_direction_part_1(cube_direction_part_0(Seq::empty(), ib, t, function_type, c, glsl_std_id), ib, t, function_type, c, glsl_std_id), ib, t, function_type, c, glsl_std_id), ib, t, function_type, c, glsl_std_id), ib, t, function_type, c, glsl_std_id), ib, t, function_type, c, glsl_std_id)[434]);
    assert(w[435] == cube_direction_part_5(cube_direction_part_4(cube_direction_part_3(cube_direction_part_2(cube_direction_part_1(cube_direction_part_0(Seq::empty(), ib, t, function_type, c, glsl_std_id), ib, t, function_type, c, glsl_std_id), ib, t, function_type, c, glsl_std_id), ib, t, function_type, c, glsl_std_id), ib, t, function_type, c, glsl_std_id), ib, t, function_type, c, glsl_std_id)[435]);
    assert(w[436] == cube_direction_part_5(cube_direction_part_4(cube_direction_part_3(cube_direction_part_2(cube_direction_part_1(cube_direction_part_0(Seq::empty(), ib, t, function_type, c, glsl_std_id), ib, t, function_type, c, glsl_std_id), ib, t, function_type, c, glsl_std_id), ib, t, function_type, c, glsl_std_id), ib, t, function_type, c, glsl_std_id), ib, t, function_type, c, glsl_std_id)[436]);
    assert(w[437] == cube_direction_part_5(cube_direction_part_4(cube_direction_part_3(cube_direction_part_2(cube_direction_part_1(cube_direction_part_0(Seq::empty(), ib, t, function_type, c, glsl_std_id), ib, t, function_type, c, glsl_std_id), ib, t, function_type, c, glsl_std_id), ib, t, function_type, c, glsl_std_id), ib, t, function_type, c, glsl_std_id), ib, t, function_type, c, glsl_std_id)[437]);
    assert(w[438] == cube_direction_part_5(cube_direction_part_4(cube_direction_part_3(cube_direction_part_2(cube_direction_part_1(cube_direction_part_0(Seq::empty(), ib, t, function_type, c, glsl_std_id), ib, t, function_type, c, glsl_std_id), ib, t, function_type, c, glsl_std_id), ib, t, function_type, c, glsl_std_id), ib, t, function_type, c, glsl_std_id), ib, t, function_type, c, glsl_std_id)[438]);
    assert(w[439] == cube_direction_part_5(cube_direction_part_4(cube_direction_part_3(cube_direction_part_2(cube_direction_part_1(cube_direction_part_0(Seq::empty(), ib, t, function_type, c, glsl_std_id), ib, t, function_type, c, glsl_std_id), ib, t, function_type, c, glsl_std_id), ib, t, function_type, c, glsl_std_id), ib, t, function_type, c, glsl_std_id), ib, t, function_type, c, glsl_std_id)[439]);
}

#[verifier::spinoff_prover]
#[verifier::rlimit(60)]
proof fn lemma_cube_words_disp2(
    ib: int,
    t: CubeDirectionTypeInputs,
    function_type: u32,
    c: CubeDirectionConstants,
    glsl_std_id: u32,
)
    ensures
        cube_direction_words(ib, t, function_type, c, glsl_std_id)[440] == spec_encode_word(2, spv::SPV_INSTRUCTION_OP_LABEL),
        cube_direction_words(ib, t, function_type, c, glsl_std_id)[441] == cid(ib, 81),
        cube_direction_words(ib, t, function_type, c, glsl_std_id)[442] == spec_encode_word(4, spv::SPV_INSTRUCTION_OP_LOAD),
        cube_direction_words(ib, t, function_type, c, glsl_std_id)[443] == t.int_id,
        cube_direction_words(ib, t, function_type, c, glsl_std_id)[444] == cid(ib, 88),
        cube_direction_words(ib, t, function_type, c, glsl_std_id)[445] == cid(ib, 6),
        cube_direction_words(ib, t, function_type, c, glsl_std_id)[446] == spec_encode_word(5, spv::SPV_INSTRUCTION_OP_I_EQUAL),
        cube_direction_words(ib, t, function_type, c, glsl_std_id)[448] == cid(ib, 89),
        cube_direction_words(ib, t, function_type, c, glsl_std_id)[449] == cid(ib, 88),
        cube_direction_words(ib, t, function_type, c, glsl_std_id)[450] == c.int_2,
        cube_direction_words(ib, t, function_type, c, glsl_std_id)[451] == spec_encode_word(3, spv::SPV_INSTRUCTION_OP_SELECTION_MERGE),
        cube_direction_words(ib, t, function_type, c, glsl_std_id)[454] == spec_encode_word(4, spv::SPV_INSTRUCTION_OP_BRANCH_CONDITIONAL),
        cube_direction_words(ib, t, function_type, c, glsl_std_id)[455] == cid(ib, 89),
        cube_direction_words(ib, t, function_type, c, glsl_std_id)[456] == cid(ib, 91),
        cube_direction_words(ib, t, function_type, c, glsl_std_id)[457] == cid(ib, 92),
{
    lemma_cube_parts(ib, t, function_type, c, glsl_std_id);
    let w = cube_direction_words(ib, t, function_type, c, glsl_std_id);
    assert(w[440] == cube_direction_part_5(cube_direction_part_4(cube_direction_part_3(cube_direction_part_2(cube_direction_part_1(cube_direction_part_0(Seq::empty(), ib, t, function_type, c, glsl_std_id), ib, t, function_type, c, glsl_std_id), ib, t, function_type, c, glsl_std_id), ib, t, function_type, c, glsl_std_id), ib, t, function_type, c, glsl_std_id), ib, t, function_type, c, glsl_std_id)[440]);
    assert(w[441] == cube_direction_part_5(cube_direction_part_4(cube_direction_part_3(cube_direction_part_2(cube_direction_part_1(cube_direction_part_0(Seq::empty(), ib, t, function_type, c, glsl_std_id), ib, t, function_type, c, glsl_std_id), ib, t, function_type, c, glsl_std_id), ib, t, function_type, c, glsl_std_id), ib, t, function_type, c, glsl_std_id), ib, t, function_type, c, glsl_std_id)[441]);
    assert(w[442] == cube_direction_part_5(cube_direction_part_4(cube_direction_part_3(cube_direction_part_2(cube_direction_part_1(cube_direction_part_0(Seq::empty(), ib, t, function_type, c, glsl_std_id), ib, t, function_type, c, glsl_std_id), ib, t, function_type, c, glsl_std_id), ib, t, function_type, c, glsl_std_id), ib, t, function_type, c, glsl_std_id), ib, t, function_type, c, glsl_std_id)[442]);
    assert(w[443] == cube_direction_part_5(cube_direction_part_4(cube_direction_part_3(cube_direction_part_2(cube_direction_part_1(cube_direction_part_0(Seq::empty(), ib, t, function_type, c, glsl_std_id), ib, t, function_type, c, glsl_std_id), ib, t, function_type, c, glsl_std_id), ib, t, function_type, c, glsl_std_id), ib, t, function_type, c, glsl_std_id), ib, t, function_type, c, glsl_std_id)[443]);
    assert(w[444] == cube_direction_part_5(cube_direction_part_4(cube_direction_part_3(cube_direction_part_2(cube_direction_part_1(cube_direction_part_0(Seq::empty(), ib, t, function_type, c, glsl_std_id), ib, t, function_type, c, glsl_std_id), ib, t, function_type, c, glsl_std_id), ib, t, function_type, c, glsl_std_id), ib, t, function_type, c, glsl_std_id), ib, t, function_type, c, glsl_std_id)[444]);
    assert(w[445] == cube_direction_part_5(cube_direction_part_4(cube_direction_part_3(cube_direction_part_2(cube_direction_part_1(cube_direction_part_0(Seq::empty(), ib, t, function_type, c, glsl_std_id), ib, t, function_type, c, glsl_std_id), ib, t, function_type, c, glsl_std_id), ib, t, function_type, c, glsl_std_id), ib, t, function_type, c, glsl_std_id), ib, t, function_type, c, glsl_std_id)[445]);
    assert(w[446] == cube_direction_part_5(cube_direction_part_4(cube_direction_part_3(cube_direction_part_2(cube_direction_part_1(cube_direction_part_0(Seq::empty(), ib, t, function_type, c, glsl_std_id), ib, t, function_type, c, glsl_std_id), ib, t, function_type, c, glsl_std_id), ib, t, function_type, c, glsl_std_id), ib, t, function_type, c, glsl_std_id), ib, t, function_type, c, glsl_std_id)[446]);
    assert(w[448] == cube_direction_part_5(cube_direction_part_4(cube_direction_part_3(cube_direction_part_2(cube_direction_part_1(cube_direction_part_0(Seq::empty(), ib, t, function_type, c, glsl_std_id), ib, t, function_type, c, glsl_std_id), ib, t, function_type, c, glsl_std_id), ib, t, function_type, c, glsl_std_id), ib, t, function_type, c, glsl_std_id), ib, t, function_type, c, glsl_std_id)[448]);
    assert(w[449] == cube_direction_part_5(cube_direction_part_4(cube_direction_part_3(cube_direction_part_2(cube_direction_part_1(cube_direction_part_0(Seq::empty(), ib, t, function_type, c, glsl_std_id), ib, t, function_type, c, glsl_std_id), ib, t, function_type, c, glsl_std_id), ib, t, function_type, c, glsl_std_id), ib, t, function_type, c, glsl_std_id), ib, t, function_type, c, glsl_std_id)[449]);
    assert(w[450] == cube_direction_part_5(cube_direction_part_4(cube_direction_part_3(cube_direction_part_2(cube_direction_part_1(cube_direction_part_0(Seq::empty(), ib, t, function_type, c, glsl_std_id), ib, t, function_type, c, glsl_std_id), ib, t, function_type, c, glsl_std_id), ib, t, function_type, c, glsl_std_id), ib, t, function_type, c, glsl_std_id), ib, t, function_type, c, glsl_std_id)[450]);
    assert(w[451] == cube_direction_part_5(cube_direction_part_4(cube_direction_part_3(cube_direction_part_2(cube_direction_part_1(cube_direction_part_0(Seq::empty(), ib, t, function_type, c, glsl_std_id), ib, t, function_type, c, glsl_std_id), ib, t, function_type, c, glsl_std_id), ib, t, function_type, c, glsl_std_id), ib, t, function_type, c, glsl_std_id), ib, t, function_type, c, glsl_std_id)[451]);
    assert(w[454] == cube_direction_part_5(cube_direction_part_4(cube_direction_part_3(cube_direction_part_2(cube_direction_part_1(cube_direction_part_0(Seq::empty(), ib, t, function_type, c, glsl_std_id), ib, t, function_type, c, glsl_std_id), ib, t, function_type, c, glsl_std_id), ib, t, function_type, c, glsl_std_id), ib, t, function_type, c, glsl_std_id), ib, t, function_type, c, glsl_std_id)[454]);
    assert(w[455] == cube_direction_part_5(cube_direction_part_4(cube_direction_part_3(cube_direction_part_2(cube_direction_part_1(cube_direction_part_0(Seq::empty(), ib, t, function_type, c, glsl_std_id), ib, t, function_type, c, glsl_std_id), ib, t, function_type, c, glsl_std_id), ib, t, function_type, c, glsl_std_id), ib, t, function_type, c, glsl_std_id), ib, t, function_type, c, glsl_std_id)[455]);
    assert(w[456] == cube_direction_part_5(cube_direction_part_4(cube_direction_part_3(cube_direction_part_2(cube_direction_part_1(cube_direction_part_0(Seq::empty(), ib, t, function_type, c, glsl_std_id), ib, t, function_type, c, glsl_std_id), ib, t, function_type, c, glsl_std_id), ib, t, function_type, c, glsl_std_id), ib, t, function_type, c, glsl_std_id), ib, t, function_type, c, glsl_std_id)[456]);
    assert(w[457] == cube_direction_part_5(cube_direction_part_4(cube_direction_part_3(cube_direction_part_2(cube_direction_part_1(cube_direction_part_0(Seq::empty(), ib, t, function_type, c, glsl_std_id), ib, t, function_type, c, glsl_std_id), ib, t, function_type, c, glsl_std_id), ib, t, function_type, c, glsl_std_id), ib, t, function_type, c, glsl_std_id), ib, t, function_type, c, glsl_std_id)[457]);
}

#[verifier::spinoff_prover]
#[verifier::rlimit(60)]
proof fn lemma_cube_words_blk2(
    ib: int,
    t: CubeDirectionTypeInputs,
    function_type: u32,
    c: CubeDirectionConstants,
    glsl_std_id: u32,
)
    ensures
        cube_direction_words(ib, t, function_type, c, glsl_std_id)[458] == spec_encode_word(2, spv::SPV_INSTRUCTION_OP_LABEL),
        cube_direction_words(ib, t, function_type, c, glsl_std_id)[459] == cid(ib, 91),
        cube_direction_words(ib, t, function_type, c, glsl_std_id)[460] == spec_encode_word(5, spv::SPV_INSTRUCTION_OP_ACCESS_CHAIN),
        cube_direction_words(ib, t, function_type, c, glsl_std_id)[462] == cid(ib, 93),
        cube_direction_words(ib, t, function_type, c, glsl_std_id)[463] == cid(ib, 1),
        cube_direction_words(ib, t, function_type, c, glsl_std_id)[464] == c.int_0,
        cube_direction_words(ib, t, function_type, c, glsl_std_id)[465] == spec_encode_word(4, spv::SPV_INSTRUCTION_OP_LOAD),
        cube_direction_words(ib, t, function_type, c, glsl_std_id)[466] == t.int_id,
        cube_direction_words(ib, t, function_type, c, glsl_std_id)[467] == cid(ib, 94),
        cube_direction_words(ib, t, function_type, c, glsl_std_id)[468] == cid(ib, 93),
        cube_direction_words(ib, t, function_type, c, glsl_std_id)[469] == spec_encode_word(5, spv::SPV_INSTRUCTION_OP_ACCESS_CHAIN),
        cube_direction_words(ib, t, function_type, c, glsl_std_id)[471] == cid(ib, 95),
        cube_direction_words(ib, t, function_type, c, glsl_std_id)[472] == cid(ib, 1),
        cube_direction_words(ib, t, function_type, c, glsl_std_id)[473] == c.int_2,
        cube_direction_words(ib, t, function_type, c, glsl_std_id)[474] == spec_encode_word(4, spv::SPV_INSTRUCTION_OP_LOAD),
        cube_direction_words(ib, t, function_type, c, glsl_std_id)[475] == t.int_id,
        cube_direction_words(ib, t, function_type, c, glsl_std_id)[476] == cid(ib, 96),
        cube_direction_words(ib, t, function_type, c, glsl_std_id)[477] == cid(ib, 95),
        cube_direction_words(ib, t, function_type, c, glsl_std_id)[478] == spec_encode_word(5, spv::SPV_INSTRUCTION_OP_COMPOSITE_CONSTRUCT),
        cube_direction_words(ib, t, function_type, c, glsl_std_id)[479] == t.v2int_id,
        cube_direction_words(ib, t, function_type, c, glsl_std_id)[480] == cid(ib, 97),
        cube_direction_words(ib, t, function_type, c, glsl_std_id)[481] == cid(ib, 94),
        cube_direction_words(ib, t, function_type, c, glsl_std_id)[482] == cid(ib, 96),
        cube_direction_words(ib, t, function_type, c, glsl_std_id)[483] == spec_encode_word(3, spv::SPV_INSTRUCTION_OP_STORE),
        cube_direction_words(ib, t, function_type, c, glsl_std_id)[484] == cid(ib, 12),
        cube_direction_words(ib, t, function_type, c, glsl_std_id)[485] == cid(ib, 97),
        cube_direction_words(ib, t, function_type, c, glsl_std_id)[486] == spec_encode_word(2, spv::SPV_INSTRUCTION_OP_BRANCH),
        cube_direction_words(ib, t, function_type, c, glsl_std_id)[487] == cid(ib, 90),
{
    lemma_cube_parts(ib, t, function_type, c, glsl_std_id);
    let w = cube_direction_words(ib, t, function_type, c, glsl_std_id);
    assert(w[458] == cube_direction_part_6(cube_direction_part_5(cube_direction_part_4(cube_direction_part_3(cube_direction_part_2(cube_direction_part_1(cube_direction_part_0(Seq::empty(), ib, t, function_type, c, glsl_std_id), ib, t, function_type, c, glsl_std_id), ib, t, function_type, c, glsl_std_id), ib, t, function_type, c, glsl_std_id), ib, t, function_type, c, glsl_std_id), ib, t, function_type, c, glsl_std_id), ib, t, function_type, c, glsl_std_id)[458]);
    assert(w[459] == cube_direction_part_6(cube_direction_part_5(cube_direction_part_4(cube_direction_part_3(cube_direction_part_2(cube_direction_part_1(cube_direction_part_0(Seq::empty(), ib, t, function_type, c, glsl_std_id), ib, t, function_type, c, glsl_std_id), ib, t, function_type, c, glsl_std_id), ib, t, function_type, c, glsl_std_id), ib, t, function_type, c, glsl_std_id), ib, t, function_type, c, glsl_std_id), ib, t, function_type, c, glsl_std_id)[459]);
    assert(w[460] == cube_direction_part_6(cube_direction_part_5(cube_direction_part_4(cube_direction_part_3(cube_direction_part_2(cube_direction_part_1(cube_direction_part_0(Seq::empty(), ib, t, function_type, c, glsl_std_id), ib, t, function_type, c, glsl_std_id), ib, t, function_type, c, glsl_std_id), ib, t, function_type, c, glsl_std_id), ib, t, function_type, c, glsl_std_id), ib, t, function_type, c, glsl_std_id), ib, t, function_type, c, glsl_std_id)[460]);
    assert(w[462] == cube_direction_part_6(cube_direction_part_5(cube_direction_part_4(cube_direction_part_3(cube_direction_part_2(cube_direction_part_1(cube_direction_part_0(Seq::empty(), ib, t, function_type, c, glsl_std_id), ib, t, function_type, c, glsl_std_id), ib, t, function_type, c, glsl_std_id), ib, t, function_type, c, glsl_std_id), ib, t, function_type, c, glsl_std_id), ib, t, function_type, c, glsl_std_id), ib, t, function_type, c, glsl_std_id)[462]);
    assert(w[463] == cube_direction_part_6(cube_direction_part_5(cube_direction_part_4(cube_direction_part_3(cube_direction_part_2(cube_direction_part_1(cube_direction_part_0(Seq::empty(), ib, t, function_type, c, glsl_std_id), ib, t, function_type, c, glsl_std_id), ib, t, function_type, c, glsl_std_id), ib, t, function_type, c, glsl_std_id), ib, t, function_type, c, glsl_std_id), ib, t, function_type, c, glsl_std_id), ib, t, function_type, c, glsl_std_id)[463]);
    assert(w[464] == cube_direction_part_6(cube_direction_part_5(cube_direction_part_4(cube_direction_part_3(cube_direction_part_2(cube_direction_part_1(cube_direction_part_0(Seq::empty(), ib, t, function_type, c, glsl_std_id), ib, t, function_type, c, glsl_std_id), ib, t, function_type, c, glsl_std_id), ib, t, function_type, c, glsl_std_id), ib, t, function_type, c, glsl_std_id), ib, t, function_type, c, glsl_std_id), ib, t, function_type, c, glsl_std_id)[464]);
    assert(w[465] == cube_direction_part_6(cube_direction_part_5(cube_direction_part_4(cube_direction_part_3(cube_direction_part_2(cube_direction_part_1(cube_direction_part_0(Seq::empty(), ib, t, function_type, c, glsl_std_id), ib, t, function_type, c, glsl_std_id), ib, t, function_type, c, glsl_std_id), ib, t, function_type, c, glsl_std_id), ib, t, function_type, c, glsl_std_id), ib, t, function_type, c, glsl_std_id), ib, t, function_type, c, glsl_std_id)[465]);
    assert(w[466] == cube_direction_part_6(cube_direction_part_5(cube_direction_part_4(cube_direction_part_3(cube_direction_part_2(cube_direction_part_1(cube_direction_part_0(Seq::empty(), ib, t, function_type, c, glsl_std_id), ib, t, function_type, c, glsl_std_id), ib, t, function_type, c, glsl_std_id), ib, t, function_type, c, glsl_std_id), ib, t, function_type, c, glsl_std_id), ib, t, function_type, c, glsl_std_id), ib, t, function_type, c, glsl_std_id)[466]);
    assert(w[467] == cube_direction_part_6(cube_direction_part_5(cube_direction_part_4(cube_direction_part_3(cube_direction_part_2(cube_direction_part_1(cube_direction_part_0(Seq::empty(), ib, t, function_type, c, glsl_std_id), ib, t, function_type, c, glsl_std_id), ib, t, function_type, c, glsl_std_id), ib, t, function_type, c, glsl_std_id), ib, t, function_type, c, glsl_std_id), ib, t, function_type, c, glsl_std_id), ib, t, function_type, c, glsl_std_id)[467]);
    assert(w[468] == cube_direction_part_6(cube_direction_part_5(cube_direction_part_4(cube_direction_part_3(cube_direction_part_2(cube_direction_part_1(cube_direction_part_0(Seq::empty(), ib, t, function_type, c, glsl_std_id), ib, t, function_type, c, glsl_std_id), ib, t, function_type, c, glsl_std_id), ib, t, function_type, c, glsl_std_id), ib, t, function_type, c, glsl_std_id), ib, t, function_type, c, glsl_std_id), ib, t, function_type, c, glsl_std_id)[468]);
    assert(w[469] == cube_direction_part_6(cube_direction_part_5(cube_direction_part_4(cube_direction_part_3(cube_direction_part_2(cube_direction_part_1(cube_direction_part_0(Seq::empty(), ib, t, function_type, c, glsl_std_id), ib, t, function_type, c, glsl_std_id), ib, t, function_type, c, glsl_std_id), ib, t, function_type, c, glsl_std_id), ib, t, function_type, c, glsl_std_id), ib, t, function_type, c, glsl_std_id), ib, t, function_type, c, glsl_std_id)[469]);
    assert(w[471] == cube_direction_part_6(cube_direction_part_5(cube_direction_part_4(cube_direction_part_3(cube_direction_part_2(cube_direction_part_1(cube_direction_part_0(Seq::empty(), ib, t, function_type, c, glsl_std_id), ib, t, function_type, c, glsl_std_id), ib, t, function_type, c, glsl_std_id), ib, t, function_type, c, glsl_std_id), ib, t, function_type, c, glsl_std_id), ib, t, function_type, c, glsl_std_id), ib, t, function_type, c, glsl_std_id)[471]);
    assert(w[472] == cube_direction_part_6(cube_direction_part_5(cube_direction_part_4(cube_direction_part_3(cube_direction_part_2(cube_direction_part_1(cube_direction_part_0(Seq::empty(), ib, t, function_type, c, glsl_std_id), ib, t, function_type, c, glsl_std_id), ib, t, function_type, c, glsl_std_id), ib, t, function_type, c, glsl_std_id), ib, t, function_type, c, glsl_std_id), ib, t, function_type, c, glsl_std_id), ib, t, function_type, c, glsl_std_id)[472]);
    assert(w[473] == cube_direction_part_6(cube_direction_part_5(cube_direction_part_4(cube_direction_part_3(cube_direction_part_2(cube_direction_part_1(cube_direction_part_0(Seq::empty(), ib, t, function_type, c, glsl_std_id), ib, t, function_type, c, glsl_std_id), ib, t, function_type, c, glsl_std_id), ib, t, function_type, c, glsl_std_id), ib, t, function_type, c, glsl_std_id), ib, t, function_type, c, glsl_std_id), ib, t, function_type, c, glsl_std_id)[473]);
    assert(w[474] == cube_direction_part_6(cube_direction_part_5(cube_direction_part_4(cube_direction_part_3(cube_direction_part_2(cube_direction_part_1(cube_direction_part_0(Seq::empty(), ib, t, function_type, c, glsl_std_id), ib, t, function_type, c, glsl_std_id), ib, t, function_type, c, glsl_std_id), ib, t, function_type, c, glsl_std_id), ib, t, function_type, c, glsl_std_id), ib, t, function_type, c, glsl_std_id), ib, t, function_type, c, glsl_std_id)[474]);
    assert(w[475] == cube_direction_part_6(cube_direction_part_5(cube_direction_part_4(cube_direction_part_3(cube_direction_part_2(cube_direction_part_1(cube_direction_part_0(Seq::empty(), ib, t, function_type, c, glsl_std_id), ib, t, function_type, c, glsl_std_id), ib, t, function_type, c, glsl_std_id), ib, t, function_type, c, glsl_std_id), ib, t, function_type, c, glsl_std_id), ib, t, function_type, c, glsl_std_id), ib, t, function_type, c, glsl_std_id)[475]);
    assert(w[476] == cube_direction_part_6(cube_direction_part_5(cube_direction_part_4(cube_direction_part_3(cube_direction_part_2(cube_direction_part_1(cube_direction_part_0(Seq::empty(), ib, t, function_type, c, glsl_std_id), ib, t, function_type, c, glsl_std_id), ib, t, function_type, c, glsl_std_id), ib, t, function_type, c, glsl_std_id), ib, t, function_type, c, glsl_std_id), ib, t, function_type, c, glsl_std_id), ib, t, function_type, c, glsl_std_id)[476]);
    assert(w[477] == cube_direction_part_6(cube_direction_part_5(cube_direction_part_4(cube_direction_part_3(cube_direction_part_2(cube_direction_part_1(cube_direction_part_0(Seq::empty(), ib, t, function_type, c, glsl_std_id), ib, t, function_type, c, glsl_std_id), ib, t, function_type, c, glsl_std_id), ib, t, function_type, c, glsl_std_id), ib, t, function_type, c, glsl_std_id), ib, t, function_type, c, glsl_std_id), ib, t, function_type, c, glsl_std_id)[477]);
    assert(w[478] == cube_direction_part_6(cube_direction_part_5(cube_direction_part_4(cube_direction_part_3(cube_direction_part_2(cube_direction_part_1(cube_direction_part_0(Seq::empty(), ib, t, function_type, c, glsl_std_id), ib, t, function_type, c, glsl_std_id), ib, t, function_type, c, glsl_std_id), ib, t, function_type, c, glsl_std_id), ib, t, function_type, c, glsl_std_id), ib, t, function_type, c, glsl_std_id), ib, t, function_type, c, glsl_std_id)[478]);
    assert(w[479] == cube_direction_part_6(cube_direction_part_5(cube_direction_part_4(cube_direction_part_3(cube_direction_part_2(cube_direction_part_1(cube_direction_part_0(Seq::empty(), ib, t, function_type, c, glsl_std_id), ib, t, function_type, c, glsl_std_id), ib, t, function_type, c, glsl_std_id), ib, t, function_type, c, glsl_std_id), ib, t, function_type, c, glsl_std_id), ib, t, function_type, c, glsl_std_id), ib, t, function_type, c, glsl_std_id)[479]);
    assert(w[480] == cube_direction_part_6(cube_direction_part_5(cube_direction_part_4(cube_direction_part_3(cube_direction_part_2(cube_direction_part_1(cube_direction_part_0(Seq::empty(), ib, t, function_type, c, glsl_std_id), ib, t, function_type, c, glsl_std_id), ib, t, function_type, c, glsl_std_id), ib, t, function_type, c, glsl_std_id), ib, t, function_type, c, glsl_std_id), ib, t, function_type, c, glsl_std_id), ib, t, function_type, c, glsl_std_id)[480]);
    assert(w[481] == cube_direction_part_6(cube_direction_part_5(cube_direction_part_4(cube_direction_part_3(cube_direction_part_2(cube_direction_part_1(cube_direction_part_0(Seq::empty(), ib, t, function_type, c, glsl_std_id), ib, t, function_type, c, glsl_std_id), ib, t, function_type, c, glsl_std_id), ib, t, function_type, c, glsl_std_id), ib, t, function_type, c, glsl_std_id), ib, t, function_type, c, glsl_std_id), ib, t, function_type, c, glsl_std_id)[481]);
    assert(w[482] == cube_direction_part_6(cube_direction_part_5(cube_direction_part_4(cube_direction_part_3(cube_direction_part_2(cube_direction_part_1(cube_direction_part_0(Seq::empty(), ib, t, function_type, c, glsl_std_id), ib, t, function_type, c, glsl_std_id), ib, t, function_type, c, glsl_std_id), ib, t, function_type, c, glsl_std_id), ib, t, function_type, c, glsl_std_id), ib, t, function_type, c, glsl_std_id), ib, t, function_type, c, glsl_std_id)[482]);
    assert(w[483] == cube_direction_part_6(cube_direction_part_5(cube_direction_part_4(cube_direction_part_3(cube_direction_part_2(cube_direction_part_1(cube_direction_part_0(Seq::empty(), ib, t, function_type, c, glsl_std_id), ib, t, function_type, c, glsl_std_id), ib, t, function_type, c, glsl_std_id), ib, t, function_type, c, glsl_std_id), ib, t, function_type, c, glsl_std_id), ib, t, function_type, c, glsl_std_id), ib, t, function_type, c, glsl_std_id)[483]);
    assert(w[484] == cube_direction_part_6(cube_direction_part_5(cube_direction_part_4(cube_direction_part_3(cube_direction_part_2(cube_direction_part_1(cube_direction_part_0(Seq::empty(), ib, t, function_type, c, glsl_std_id), ib, t, function_type, c, glsl_std_id), ib, t, function_type, c, glsl_std_id), ib, t, function_type, c, glsl_std_id), ib, t, function_type, c, glsl_std_id), ib, t, function_type, c, glsl_std_id), ib, t, function_type, c, glsl_std_id)[484]);
    assert(w[485] == cube_direction_part_6(cube_direction_part_5(cube_direction_part_4(cube_direction_part_3(cube_direction_part_2(cube_direction_part_1(cube_direction_part_0(Seq::empty(), ib, t, function_type, c, glsl_std_id), ib, t, function_type, c, glsl_std_id), ib, t, function_type, c, glsl_std_id), ib, t, function_type, c, glsl_std_id), ib, t, function_type, c, glsl_std_id), ib, t, function_type, c, glsl_std_id), ib, t, function_type, c, glsl_std_id)[485]);
    assert(w[486] == cube_direction_part_6(cube_direction_part_5(cube_direction_part_4(cube_direction_part_3(cube_direction_part_2(cube_direction_part_1(cube_direction_part_0(Seq::empty(), ib, t, function_type, c, glsl_std_id), ib, t, function_type, c, glsl_std_id), ib, t, function_type, c, glsl_std_id), ib, t, function_type, c, glsl_std_id), ib, t, function_type, c, glsl_std_id), ib, t, function_type, c, glsl_std_id), ib, t, function_type, c, glsl_std_id)[486]);
    assert(w[487] == cube_direction_part_6(cube_direction_part_5(cube_direction_part_4(cube_direction_part_3(cube_direction_part_2(cube_direction_part_1(cube_direction_part_0(Seq::empty(), ib, t, function_type, c, glsl_std_id), ib, t, function_type, c, glsl_std_id), ib, t, function_type, c, glsl_std_id), ib, t, function_type, c, glsl_std_id), ib, t, function_type, c, glsl_std_id), ib, t, function_type, c, glsl_std_id), ib, t, function_type, c, glsl_std_id)[487]);
}

#[verifier::spinoff_prover]
#[verifier::rlimit(60)]
proof fn lemma_cube_words_disp3(
    ib: int,
    t: CubeDirectionTypeInputs,
    function_type: u32,
    c: CubeDirectionConstants,
    glsl_std_id: u32,
)
    ensures
        cube_direction_words(ib, t, function_type, c, glsl_std_id)[488] == spec_encode_word(2, spv::SPV_INSTRUCTION_OP_LABEL),
        cube_direction_words(ib, t, function_type, c, glsl_std_id)[489] == cid(ib, 92),
        cube_direction_words(ib, t, function_type, c, glsl_std_id)[490] == spec_encode_word(4, spv::SPV_INSTRUCTION_OP_LOAD),
        cube_direction_words(ib, t, function_type, c, glsl_std_id)[491] == t.int_id,
        cube_direction_words(ib, t, function_type, c, glsl_std_id)[492] == cid(ib, 98),
        cube_direction_words(ib, t, function_type, c, glsl_std_id)[493] == cid(ib, 6),
        cube_direction_words(ib, t, function_type, c, glsl_std_id)[494] == spec_encode_word(5, spv::SPV_INSTRUCTION_OP_I_EQUAL),
        cube_direction_words(ib, t, function_type, c, glsl_std_id)[496] == cid(ib, 99),
        cube_direction_words(ib, t, function_type, c, glsl_std_id)[497] == cid(ib, 98),
        cube_direction_words(ib, t, function_type, c, glsl_std_id)[498] == c.int_3,
        cube_direction_words(ib, t, function_type, c, glsl_std_id)[499] == spec_encode_word(3, spv::SPV_INSTRUCTION_OP_SELECTION_MERGE),
        cube_direction_words(ib, t, function_type, c, glsl_std_id)[502] == spec_encode_word(4, spv::SPV_INSTRUCTION_OP_BRANCH_CONDITIONAL),
        cube_direction_words(ib, t, function_type, c, glsl_std_id)[503] == cid(ib, 99),
        cube_direction_words(ib, t, function_type, c, glsl_std_id)[504] == cid(ib, 101),
        cube_direction_words(ib, t, function_type, c, glsl_std_id)[505] == cid(ib, 102),
{
    lemma_cube_parts(ib, t, function_type, c, glsl_std_id);
    let w = cube_direction_words(ib, t, function_type, c, glsl_std_id);
    assert(w[488] == cube_direction_part_6(cube_direction_part_5(cube_direction_part_4(cube_direction_part_3(cube_direction_part_2(cube_direction_part_1(cube_direction_part_0(Seq::empty(), ib, t, function_type, c, glsl_std_id), ib, t, function_type, c, glsl_std_id), ib, t, function_type, c, glsl_std_id), ib, t, function_type, c, glsl_std_id), ib, t, function_type, c, glsl_std_id), ib, t, function_type, c, glsl_std_id), ib, t, function_type, c, glsl_std_id)[488]);
    assert(w[489] == cube_direction_part_6(cube_direction_part_5(cube_direction_part_4(cube_direction_part_3(cube_direction_part_2(cube_direction_part_1(cube_direction_part_0(Seq::empty(), ib, t, function_type, c, glsl_std_id), ib, t, function_type, c, glsl_std_id), ib, t, function_type, c, glsl_std_id), ib, t, function_type, c, glsl_std_id), ib, t, function_type, c, glsl_std_id), ib, t, function_type, c, glsl_std_id), ib, t, function_type, c, glsl_std_id)[489]);
    assert(w[490] == cube_direction_part_6(cube_direction_part_5(cube_direction_part_4(cube_direction_part_3(cube_direction_part_2(cube_direction_part_1(cube_direction_part_0(Seq::empty(), ib, t, function_type, c, glsl_std_id), ib, t, function_type, c, glsl_std_id), ib, t, function_type, c, glsl_std_id), ib, t, function_type, c, glsl_std_id), ib, t, function_type, c, glsl_std_id), ib, t, function_type, c, glsl_std_id), ib, t, function_type, c, glsl_std_id)[490]);
    assert(w[491] == cube_direction_part_6(cube_direction_part_5(cube_direction_part_4(cube_direction_part_3(cube_direction_part_2(cube_direction_part_1(cube_direction_part_0(Seq::empty(), ib, t, function_type, c, glsl_std_id), ib, t, function_type, c, glsl_std_id), ib, t, function_type, c, glsl_std_id), ib, t, function_type, c, glsl_std_id), ib, t, function_type, c, glsl_std_id), ib, t, function_type, c, glsl_std_id), ib, t, function_type, c, glsl_std_id)[491]);
    assert(w[492] == cube_direction_part_6(cube_direction_part_5(cube_direction_part_4(cube_direction_part_3(cube_direction_part_2(cube_direction_part_1(cube_direction_part_0(Seq::empty(), ib, t, function_type, c, glsl_std_id), ib, t, function_type, c, glsl_std_id), ib, t, function_type, c, glsl_std_id), ib, t, function_type, c, glsl_std_id), ib, t, function_type, c, glsl_std_id), ib, t, function_type, c, glsl_std_id), ib, t, function_type, c, glsl_std_id)[492]);
    assert(w[493] == cube_direction_part_6(cube_direction_part_5(cube_direction_part_4(cube_direction_part_3(cube_direction_part_2(cube_direction_part_1(cube_direction_part_0(Seq::empty(), ib, t, function_type, c, glsl_std_id), ib, t, function_type, c, glsl_std_id), ib, t, function_type, c, glsl_std_id), ib, t, function_type, c, glsl_std_id), ib, t, function_type, c, glsl_std_id), ib, t, function_type, c, glsl_std_id), ib, t, function_type, c, glsl_std_id)[493]);
    assert(w[494] == cube_direction_part_6(cube_direction_part_5(cube_direction_part_4(cube_direction_part_3(cube_direction_part_2(cube_direction_part_1(cube_direction_part_0(Seq::empty(), ib, t, function_type, c, glsl_std_id), ib, t, function_type, c, glsl_std_id), ib, t, function_type, c, glsl_std_id), ib, t, function_type, c, glsl_std_id), ib, t, function_type, c, glsl_std_id), ib, t, function_type, c, glsl_std_id), ib, t, function_type, c, glsl_std_id)[494]);
    assert(w[496] == cube_direction_part_6(cube_direction_part_5(cube_direction_part_4(cube_direction_part_3(cube_direction_part_2(cube_direction_part_1(cube_direction_part_0(Seq::empty(), ib, t, function_type, c, glsl_std_id), ib, t, function_type, c, glsl_std_id), ib, t, function_type, c, glsl_std_id), ib, t, function_type, c, glsl_std_id), ib, t, function_type, c, glsl_std_id), ib, t, function_type, c, glsl_std_id), ib, t, function_type, c, glsl_std_id)[496]);
    assert(w[497] == cube_direction_part_6(cube_direction_part_5(cube_direction_part_4(cube_direction_part_3(cube_direction_part_2(cube_direction_part_1(cube_direction_part_0(Seq::empty(), ib, t, function_type, c, glsl_std_id), ib, t, function_type, c, glsl_std_id), ib, t, function_type, c, glsl_std_id), ib, t, function_type, c, glsl_std_id), ib, t, function_type, c, glsl_std_id), ib, t, function_type, c, glsl_std_id), ib, t, function_type, c, glsl_std_id)[497]);
    assert(w[498] == cube_direction_part_6(cube_direction_part_5(cube_direction_part_4(cube_direction_part_3(cube_direction_part_2(cube_direction_part_1(cube_direction_part_0(Seq::empty(), ib, t, function_type, c, glsl_std_id), ib, t, function_type, c, glsl_std_id), ib, t, function_type, c, glsl_std_id), ib, t, function_type, c, glsl_std_id), ib, t, function_type, c, glsl_std_id), ib, t, function_type, c, glsl_std_id), ib, t, function_type, c, glsl_std_id)[498]);
    assert(w[499] == cube_direction_part_6(cube_direction_part_5(cube_direction_part_4(cube_direction_part_3(cube_direction_part_2(cube_direction_part_1(cube_direction_part_0(Seq::empty(), ib, t, function_type, c, glsl_std_id), ib, t, function_type, c, glsl_std_id), ib, t, function_type, c, glsl_std_id), ib, t, function_type, c, glsl_std_id), ib, t, function_type, c, glsl_std_id), ib, t, function_type, c, glsl_std_id), ib, t, function_type, c, glsl_std_id)[499]);
    assert(w[502] == cube_direction_part_6(cube_direction_part_5(cube_direction_part_4(cube_direction_part_3(cube_direction_part_2(cube_direction_part_1(cube_direction_part_0(Seq::empty(), ib, t, function_type, c, glsl_std_id), ib, t, function_type, c, glsl_std_id), ib, t, function_type, c, glsl_std_id), ib, t, function_type, c, glsl_std_id), ib, t, function_type, c, glsl_std_id), ib, t, function_type, c, glsl_std_id), ib, t, function_type, c, glsl_std_id)[502]);
    assert(w[503] == cube_direction_part_6(cube_direction_part_5(cube_direction_part_4(cube_direction_part_3(cube_direction_part_2(cube_direction_part_1(cube_direction_part_0(Seq::empty(), ib, t, function_type, c, glsl_std_id), ib, t, function_type, c, glsl_std_id), ib, t, function_type, c, glsl_std_id), ib, t, function_type, c, glsl_std_id), ib, t, function_type, c, glsl_std_id), ib, t, function_type, c, glsl_std_id), ib, t, function_type, c, glsl_std_id)[503]);
    assert(w[504] == cube_direction_part_6(cube_direction_part_5(cube_direction_part_4(cube_direction_part_3(cube_direction_part_2(cube_direction_part_1(cube_direction_part_0(Seq::empty(), ib, t, function_type, c, glsl_std_id), ib, t, function_type, c, glsl_std_id), ib, t, function_type, c, glsl_std_id), ib, t, function_type, c, glsl_std_id), ib, t, function_type, c, glsl_std_id), ib, t, function_type, c, glsl_std_id), ib, t, function_type, c, glsl_std_id)[504]);
    assert(w[505] == cube_direction_part_6(cube_direction_part_5(cube_direction_part_4(cube_direction_part_3(cube_direction_part_2(cube_direction_part_1(cube_direction_part_0(Seq::empty(), ib, t, function_type, c, glsl_std_id), ib, t, function_type, c, glsl_std_id), ib, t, function_type, c, glsl_std_id), ib, t, function_type, c, glsl_std_id), ib, t, function_type, c, glsl_std_id), ib, t, function_type, c, glsl_std_id), ib, t, function_type, c, glsl_std_id)[505]);
}

#[verifier::spinoff_prover]
#[verifier::rlimit(60)]
proof fn lemma_cube_words_blk3(
    ib: int,
    t: CubeDirectionTypeInputs,
    function_type: u32,
    c: CubeDirectionConstants,
    glsl_std_id: u32,
)
    ensures
        cube_direction_words(ib, t, function_type, c, glsl_std_id)[506] == spec_encode_word(2, spv::SPV_INSTRUCTION_OP_LABEL),
        cube_direction_words(ib, t, function_type, c, glsl_std_id)[507] == cid(ib, 101),
        cube_direction_words(ib, t, function_type, c, glsl_std_id)[508] == spec_encode_word(5, spv::SPV_INSTRUCTION_OP_ACCESS_CHAIN),
        cube_direction_words(ib, t, function_type, c, glsl_std_id)[510] == cid(ib, 103),
        cube_direction_words(ib, t, function_type, c, glsl_std_id)[511] == cid(ib, 1),
        cube_direction_words(ib, t, function_type, c, glsl_std_id)[512] == c.int_0,
        cube_direction_words(ib, t, function_type, c, glsl_std_id)[513] == spec_encode_word(4, spv::SPV_INSTRUCTION_OP_LOAD),
        cube_direction_words(ib, t, function_type, c, glsl_std_id)[514] == t.int_id,
        cube_direction_words(ib, t, function_type, c, glsl_std_id)[515] == cid(ib, 104),
        cube_direction_words(ib, t, function_type, c, glsl_std_id)[516] == cid(ib, 103),
        cube_direction_words(ib, t, function_type, c, glsl_std_id)[517] == spec_encode_word(5, spv::SPV_INSTRUCTION_OP_ACCESS_CHAIN),
        cube_direction_words(ib, t, function_type, c, glsl_std_id)[519] == cid(ib, 105),
        cube_direction_words(ib, t, function_type, c, glsl_std_id)[520] == cid(ib, 1),
        cube_direction_words(ib, t, function_type, c, glsl_std_id)[521] == c.int_2,
        cube_direction_words(ib, t, function_type, c, glsl_std_id)[522] == spec_encode_word(4, spv::SPV_INSTRUCTION_OP_LOAD),
        cube_direction_words(ib, t, function_type, c, glsl_std_id)[523] == t.int_id,
        cube_direction_words(ib, t, function_type, c, glsl_std_id)[524] == cid(ib, 106),
        cube_direction_words(ib, t, function_type, c, glsl_std_id)[525] == cid(ib, 105),
        cube_direction_words(ib, t, function_type, c, glsl_std_id)[526] == spec_encode_word(4, spv::SPV_INSTRUCTION_OP_S_NEGATE),
        cube_direction_words(ib, t, function_type, c, glsl_std_id)[528] == cid(ib, 107),
        cube_direction_words(ib, t, function_type, c, glsl_std_id)[529] == cid(ib, 106),
        cube_direction_words(ib, t, function_type, c, glsl_std_id)[530] == spec_encode_word(5, spv::SPV_INSTRUCTION_OP_COMPOSITE_CONSTRUCT),
        cube_direction_words(ib, t, function_type, c, glsl_std_id)[531] == t.v2int_id,
        cube_direction_words(ib, t, function_type, c, glsl_std_id)[532] == cid(ib, 108),
        cube_direction_words(ib, t, function_type, c, glsl_std_id)[533] == cid(ib, 104),
        cube_direction_words(ib, t, function_type, c, glsl_std_id)[534] == cid(ib, 107),
        cube_direction_words(ib, t, function_type, c, glsl_std_id)[535] == spec_encode_word(3, spv::SPV_INSTRUCTION_OP_STORE),
        cube_direction_words(ib, t, function_type, c, glsl_std_id)[536] == cid(ib, 13),
        cube_direction_words(ib, t, function_type, c, glsl_std_id)[537] == cid(ib, 108),
        cube_direction_words(ib, t, function_type, c, glsl_std_id)[538] == spec_encode_word(2, spv::SPV_INSTRUCTION_OP_BRANCH),
        cube_direction_words(ib, t, function_type, c, glsl_std_id)[539] == cid(ib, 100),
{
    lemma_cube_parts(ib, t, function_type, c, glsl_std_id);
    let w = cube_direction_words(ib, t, function_type, c, glsl_std_id);
    assert(w[506] == cube_direction_part_6(cube_direction_part_5(cube_direction_part_4(cube_direction_part_3(cube_direction_part_2(cube_direction_part_1(cube_direction_part_0(Seq::empty(), ib, t, function_type, c, glsl_std_id), ib, t, function_type, c, glsl_std_id), ib, t, function_type, c, glsl_std_id), ib, t, function_type, c, glsl_std_id), ib, t, function_type, c, glsl_std_id), ib, t, function_type, c, glsl_std_id), ib, t, function_type, c, glsl_std_id)[506]);
    assert(w[507] == cube_direction_part_6(cube_direction_part_5(cube_direction_part_4(cube_direction_part_3(cube_direction_part_2(cube_direction_part_1(cube_direction_part_0(Seq::empty(), ib, t, function_type, c, glsl_std_id), ib, t, function_type, c, glsl_std_id), ib, t, function_type, c, glsl_std_id), ib, t, function_type, c, glsl_std_id), ib, t, function_type, c, glsl_std_id), ib, t, function_type, c, glsl_std_id), ib, t, function_type, c, glsl_std_id)[507]);
    assert(w[508] == cube_direction_part_6(cube_direction_part_5(cube_direction_part_4(cube_direction_part_3(cube_direction_part_2(cube_direction_part_1(cube_direction_part_0(Seq::empty(), ib, t, function_type, c, glsl_std_id), ib, t, function_type, c, glsl_std_id), ib, t, function_type, c, glsl_std_id), ib, t, function_type, c, glsl_std_id), ib, t, function_type, c, glsl_std_id), ib, t, function_type, c, glsl_std_id), ib, t, function_type, c, glsl_std_id)[508]);
    assert(w[510] == cube_direction_part_6(cube_direction_part_5(cube_direction_part_4(cube_direction_part_3(cube_direction_part_2(cube_direction_part_1(cube_direction_part_0(Seq::empty(), ib, t, function_type, c, glsl_std_id), ib, t, function_type, c, glsl_std_id), ib, t, function_type, c, glsl_std_id), ib, t, function_type, c, glsl_std_id), ib, t, function_type, c, glsl_std_id), ib, t, function_type, c, glsl_std_id), ib, t, function_type, c, glsl_std_id)[510]);
    assert(w[511] == cube_direction_part_6(cube_direction_part_5(cube_direction_part_4(cube_direction_part_3(cube_direction_part_2(cube_direction_part_1(cube_direction_part_0(Seq::empty(), ib, t, function_type, c, glsl_std_id), ib, t, function_type, c, glsl_std_id), ib, t, function_type, c, glsl_std_id), ib, t, function_type, c, glsl_std_id), ib, t, function_type, c, glsl_std_id), ib, t, function_type, c, glsl_std_id), ib, t, function_type, c, glsl_std_id)[511]);
    assert(w[512] == cube_direction_part_6(cube_direction_part_5(cube_direction_part_4(cube_direction_part_3(cube_direction_part_2(cube_direction_part_1(cube_direction_part_0(Seq::empty(), ib, t, function_type, c, glsl_std_id), ib, t, function_type, c, glsl_std_id), ib, t, function_type, c, glsl_std_id), ib, t, function_type, c, glsl_std_id), ib, t, function_type, c, glsl_std_id), ib, t, function_type, c, glsl_std_id), ib, t, function_type, c, glsl_std_id)[512]);
    assert(w[513] == cube_direction_part_6(cube_direction_part_5(cube_direction_part_4(cube_direction_part_3(cube_direction_part_2(cube_direction_part_1(cube_direction_part_0(Seq::empty(), ib, t, function_type, c, glsl_std_id), ib, t, function_type, c, glsl_std_id), ib, t, function_type, c, glsl_std_id), ib, t, function_type, c, glsl_std_id), ib, t, function_type, c, glsl_std_id), ib, t, function_type, c, glsl_std_id), ib, t, function_type, c, glsl_std_id)[513]);
    assert(w[514] == cube_direction_part_6(cube_direction_part_5(cube_direction_part_4(cube_direction_part_3(cube_direction_part_2(cube_direction_part_1(cube_direction_part_0(Seq::empty(), ib, t, function_type, c, glsl_std_id), ib, t, function_type, c, glsl_std_id), ib, t, function_type, c, glsl_std_id), ib, t, function_type, c, glsl_std_id), ib, t, function_type, c, glsl_std_id), ib, t, function_type, c, glsl_std_id), ib, t, function_type, c, glsl_std_id)[514]);
    assert(w[515] == cube_direction_part_6(cube_direction_part_5(cube_direction_part_4(cube_direction_part_3(cube_direction_part_2(cube_direction_part_1(cube_direction_part_0(Seq::empty(), ib, t, function_type, c, glsl_std_id), ib, t, function_type, c, glsl_std_id), ib, t, function_type, c, glsl_std_id), ib, t, function_type, c, glsl_std_id), ib, t, function_type, c, glsl_std_id), ib, t, function_type, c, glsl_std_id), ib, t, function_type, c, glsl_std_id)[515]);
    assert(w[516] == cube_direction_part_6(cube_direction_part_5(cube_direction_part_4(cube_direction_part_3(cube_direction_part_2(cube_direction_part_1(cube_direction_part_0(Seq::empty(), ib, t, function_type, c, glsl_std_id), ib, t, function_type, c, glsl_std_id), ib, t, function_type, c, glsl_std_id), ib, t, function_type, c, glsl_std_id), ib, t, function_type, c, glsl_std_id), ib, t, function_type, c, glsl_std_id), ib, t, function_type, c, glsl_std_id)[516]);
    assert(w[517] == cube_direction_part_6(cube_direction_part_5(cube_direction_part_4(cube_direction_part_3(cube_direction_part_2(cube_direction_part_1(cube_direction_part_0(Seq::empty(), ib, t, function_type, c, glsl_std_id), ib, t, function_type, c, glsl_std_id), ib, t, function_type, c, glsl_std_id), ib, t, function_type, c, glsl_std_id), ib, t, function_type, c, glsl_std_id), ib, t, function_type, c, glsl_std_id), ib, t, function_type, c, glsl_std_id)[517]);
    assert(w[519] == cube_direction_part_6(cube_direction_part_5(cube_direction_part_4(cube_direction_part_3(cube_direction_part_2(cube_direction_part_1(cube_direction_part_0(Seq::empty(), ib, t, function_type, c, glsl_std_id), ib, t, function_type, c, glsl_std_id), ib, t, function_type, c, glsl_std_id), ib, t, function_type, c, glsl_std_id), ib, t, function_type, c, glsl_std_id), ib, t, function_type, c, glsl_std_id), ib, t, function_type, c, glsl_std_id)[519]);
    assert(w[520] == cube_direction_part_6(cube_direction_part_5(cube_direction_part_4(cube_direction_part_3(cube_direction_part_2(cube_direction_part_1(cube_direction_part_0(Seq::empty(), ib, t, function_type, c, glsl_std_id), ib, t, function_type, c, glsl_std_id), ib, t, function_type, c, glsl_std_id), ib, t, function_type, c, glsl_std_id), ib, t, function_type, c, glsl_std_id), ib, t, function_type, c, glsl_std_id), ib, t, function_type, c, glsl_std_id)[520]);
    assert(w[521] == cube_direction_part_6(cube_direction_part_5(cube_direction_part_4(cube_direction_part_3(cube_direction_part_2(cube_direction_part_1(cube_direction_part_0(Seq::empty(), ib, t, function_type, c, glsl_std_id), ib, t, function_type, c, glsl_std_id), ib, t, function_type, c, glsl_std_id), ib, t, function_type, c, glsl_std_id), ib, t, function_type, c, glsl_std_id), ib, t, function_type, c, glsl_std_id), ib, t, function_type, c, glsl_std_id)[521]);
    assert(w[522] == cube_direction_part_6(cube_direction_part_5(cube_direction_part_4(cube_direction_part_3(cube_direction_part_2(cube_direction_part_1(cube_direction_part_0(Seq::empty(), ib, t, function_type, c, glsl_std_id), ib, t, function_type, c, glsl_std_id), ib, t, function_type, c, glsl_std_id), ib, t, function_type, c, glsl_std_id), ib, t, function_type, c, glsl_std_id), ib, t, function_type, c, glsl_std_id), ib, t, function_type, c, glsl_std_id)[522]);
    assert(w[523] == cube_direction_part_6(cube_direction_part_5(cube_direction_part_4(cube_direction_part_3(cube_direction_part_2(cube_direction_part_1(cube_direction_part_0(Seq::empty(), ib, t, function_type, c, glsl_std_id), ib, t, function_type, c, glsl_std_id), ib, t, function_type, c, glsl_std_id), ib, t, function_type, c, glsl_std_id), ib, t, function_type, c, glsl_std_id), ib, t, function_type, c, glsl_std_id), ib, t, function_type, c, glsl_std_id)[523]);
    assert(w[524] == cube_direction_part_6(cube_direction_part_5(cube_direction_part_4(cube_direction_part_3(cube_direction_part_2(cube_direction_part_1(cube_direction_part_0(Seq::empty(), ib, t, function_type, c, glsl_std_id), ib, t, function_type, c, glsl_std_id), ib, t, function_type, c, glsl_std_id), ib, t, function_type, c, glsl_std_id), ib, t, function_type, c, glsl_std_id), ib, t, function_type, c, glsl_std_id), ib, t, function_type, c, glsl_std_id)[524]);
    assert(w[525] == cube_direction_part_6(cube_direction_part_5(cube_direction_part_4(cube_direction_part_3(cube_direction_part_2(cube_direction_part_1(cube_direction_part_0(Seq::empty(), ib, t, function_type, c, glsl_std_id), ib, t, function_type, c, glsl_std_id), ib, t, function_type, c, glsl_std_id), ib, t, function_type, c, glsl_std_id), ib, t, function_type, c, glsl_std_id), ib, t, function_type, c, glsl_std_id), ib, t, function_type, c, glsl_std_id)[525]);
    assert(w[526] == cube_direction_part_6(cube_direction_part_5(cube_direction_part_4(cube_direction_part_3(cube_direction_part_2(cube_direction_part_1(cube_direction_part_0(Seq::empty(), ib, t, function_type, c, glsl_std_id), ib, t, function_type, c, glsl_std_id), ib, t, function_type, c, glsl_std_id), ib, t, function_type, c, glsl_std_id), ib, t, function_type, c, glsl_std_id), ib, t, function_type, c, glsl_std_id), ib, t, function_type, c, glsl_std_id)[526]);
    assert(w[528] == cube_direction_part_6(cube_direction_part_5(cube_direction_part_4(cube_direction_part_3(cube_direction_part_2(cube_direction_part_1(cube_direction_part_0(Seq::empty(), ib, t, function_type, c, glsl_std_id), ib, t, function_type, c, glsl_std_id), ib, t, function_type, c, glsl_std_id), ib, t, function_type, c, glsl_std_id), ib, t, function_type, c, glsl_std_id), ib, t, function_type, c, glsl_std_id), ib, t, function_type, c, glsl_std_id)[528]);
    assert(w[529] == cube_direction_part_6(cube_direction_part_5(cube_direction_part_4(cube_direction_part_3(cube_direction_part_2(cube_direction_part_1(cube_direction_part_0(Seq::empty(), ib, t, function_type, c, glsl_std_id), ib, t, function_type, c, glsl_std_id), ib, t, function_type, c, glsl_std_id), ib, t, function_type, c, glsl_std_id), ib, t, function_type, c, glsl_std_id), ib, t, function_type, c, glsl_std_id), ib, t, function_type, c, glsl_std_id)[529]);
    assert(w[530] == cube_direction_part_6(cube_direction_part_5(cube_direction_part_4(cube_direction_part_3(cube_direction_part_2(cube_direction_part_1(cube_direction_part_0(Seq::empty(), ib, t, function_type, c, glsl_std_id), ib, t, function_type, c, glsl_std_id), ib, t, function_type, c, glsl_std_id), ib, t, function_type, c, glsl_std_id), ib, t, function_type, c, glsl_std_id), ib, t, function_type, c, glsl_std_id), ib, t, function_type, c, glsl_std_id)[530]);
    assert(w[531] == cube_direction_part_6(cube_direction_part_5(cube_direction_part_4(cube_direction_part_3(cube_direction_part_2(cube_direction_part_1(cube_direction_part_0(Seq::empty(), ib, t, function_type, c, glsl_std_id), ib, t, function_type, c, glsl_std_id), ib, t, function_type, c, glsl_std_id), ib, t, function_type, c, glsl_std_id), ib, t, function_type, c, glsl_std_id), ib, t, function_type, c, glsl_std_id), ib, t, function_type, c, glsl_std_id)[531]);
    assert(w[532] == cube_direction_part_6(cube_direction_part_5(cube_direction_part_4(cube_direction_part_3(cube_direction_part_2(cube_direction_part_1(cube_direction_part_0(Seq::empty(), ib, t, function_type, c, glsl_std_id), ib, t, function_type, c, glsl_std_id), ib, t, function_type, c, glsl_std_id), ib, t, function_type, c, glsl_std_id), ib, t, function_type, c, glsl_std_id), ib, t, function_type, c, glsl_std_id), ib, t, function_type, c, glsl_std_id)[532]);
    assert(w[533] == cube_direction_part_6(cube_direction_part_5(cube_direction_part_4(cube_direction_part_3(cube_direction_part_2(cube_direction_part_1(cube_direction_part_0(Seq::empty(), ib, t, function_type, c, glsl_std_id), ib, t, function_type, c, glsl_std_id), ib, t, function_type, c, glsl_std_id), ib, t, function_type, c, glsl_std_id), ib, t, function_type, c, glsl_std_id), ib, t, function_type, c, glsl_std_id), ib, t, function_type, c, glsl_std_id)[533]);
    assert(w[534] == cube_direction_part_6(cube_direction_part_5(cube_direction_part_4(cube_direction_part_3(cube_direction_part_2(cube_direction_part_1(cube_direction_part_0(Seq::empty(), ib, t, function_type, c, glsl_std_id), ib, t, function_type, c, glsl_std_id), ib, t, function_type, c, glsl_std_id), ib, t, function_type, c, glsl_std_id), ib, t, function_type, c, glsl_std_id), ib, t, function_type, c, glsl_std_id), ib, t, function_type, c, glsl_std_id)[534]);
    assert(w[535] == cube_direction_part_7(cube_direction_part_6(cube_direction_part_5(cube_direction_part_4(cube_direction_part_3(cube_direction_part_2(cube_direction_part_1(cube_direction_part_0(Seq::empty(), ib, t, function_type, c, glsl_std_id), ib, t, function_type, c, glsl_std_id), ib, t, function_type, c, glsl_std_id), ib, t, function_type, c, glsl_std_id), ib, t, function_type, c, glsl_std_id), ib, t, function_type, c, glsl_std_id), ib, t, function_type, c, glsl_std_id), ib, t, function_type, c, glsl_std_id)[535]);
    assert(w[536] == cube_direction_part_7(cube_direction_part_6(cube_direction_part_5(cube_direction_part_4(cube_direction_part_3(cube_direction_part_2(cube_direction_part_1(cube_direction_part_0(Seq::empty(), ib, t, function_type, c, glsl_std_id), ib, t, function_type, c, glsl_std_id), ib, t, function_type, c, glsl_std_id), ib, t, function_type, c, glsl_std_id), ib, t, function_type, c, glsl_std_id), ib, t, function_type, c, glsl_std_id), ib, t, function_type, c, glsl_std_id), ib, t, function_type, c, glsl_std_id)[536]);
    assert(w[537] == cube_direction_part_7(cube_direction_part_6(cube_direction_part_5(cube_direction_part_4(cube_direction_part_3(cube_direction_part_2(cube_direction_part_1(cube_direction_part_0(Seq::empty(), ib, t, function_type, c, glsl_std_id), ib, t, function_type, c, glsl_std_id), ib, t, function_type, c, glsl_std_id), ib, t, function_type, c, glsl_std_id), ib, t, function_type, c, glsl_std_id), ib, t, function_type, c, glsl_std_id), ib, t, function_type, c, glsl_std_id), ib, t, function_type, c, glsl_std_id)[537]);
    assert(w[538] == cube_direction_part_7(cube_direction_part_6(cube_direction_part_5(cube_direction_part_4(cube_direction_part_3(cube_direction_part_2(cube_direction_part_1(cube_direction_part_0(Seq::empty(), ib, t, function_type, c, glsl_std_id), ib, t, function_type, c, glsl_std_id), ib, t, function_type, c, glsl_std_id), ib, t, function_type, c, glsl_std_id), ib, t, function_type, c, glsl_std_id), ib, t, function_type, c, glsl_std_id), ib, t, function_type, c, glsl_std_id), ib, t, function_type, c, glsl_std_id)[538]);
    assert(w[539] == cube_direction_part_7(cube_direction_part_6(cube_direction_part_5(cube_direction_part_4(cube_direction_part_3(cube_direction_part_2(cube_direction_part_1(cube_direction_part_0(Seq::empty(), ib, t, function_type, c, glsl_std_id), ib, t, function_type, c, glsl_std_id), ib, t, function_type, c, glsl_std_id), ib, t, function_type, c, glsl_std_id), ib, t, function_type, c, glsl_std_id), ib, t, function_type, c, glsl_std_id), ib, t, function_type, c, glsl_std_id), ib, t, function_type, c, glsl_std_id)[539]);
}

#[verifier::spinoff_prover]
#[verifier::rlimit(60)]
proof fn lemma_cube_words_disp4(
    ib: int,
    t: CubeDirectionTypeInputs,
    function_type: u32,
    c: CubeDirectionConstants,
    glsl_std_id: u32,
)
    ensures
        cube_direction_words(ib, t, function_type, c, glsl_std_id)[540] == spec_encode_word(2, spv::SPV_INSTRUCTION_OP_LABEL),
        cube_direction_words(ib, t, function_type, c, glsl_std_id)[541] == cid(ib, 102),
        cube_direction_words(ib, t, function_type, c, glsl_std_id)[542] == spec_encode_word(4, spv::SPV_INSTRUCTION_OP_LOAD),
        cube_direction_words(ib, t, function_type, c, glsl_std_id)[543] == t.int_id,
        cube_direction_words(ib, t, function_type, c, glsl_std_id)[544] == cid(ib, 109),
        cube_direction_words(ib, t, function_type, c, glsl_std_id)[545] == cid(ib, 6),
        cube_direction_words(ib, t, function_type, c, glsl_std_id)[546] == spec_encode_word(5, spv::SPV_INSTRUCTION_OP_I_EQUAL),
        cube_direction_words(ib, t, function_type, c, glsl_std_id)[548] == cid(ib, 110),
        cube_direction_words(ib, t, function_type, c, glsl_std_id)[549] == cid(ib, 109),
        cube_direction_words(ib, t, function_type, c, glsl_std_id)[550] == c.int_4,
        cube_direction_words(ib, t, function_type, c, glsl_std_id)[551] == spec_encode_word(3, spv::SPV_INSTRUCTION_OP_SELECTION_MERGE),
        cube_direction_words(ib, t, function_type, c, glsl_std_id)[554] == spec_encode_word(4, spv::SPV_INSTRUCTION_OP_BRANCH_CONDITIONAL),
        cube_direction_words(ib, t, function_type, c, glsl_std_id)[555] == cid(ib, 110),
        cube_direction_words(ib, t, function_type, c, glsl_std_id)[556] == cid(ib, 112),
        cube_direction_words(ib, t, function_type, c, glsl_std_id)[557] == cid(ib, 113),
{
    lemma_cube_parts(ib, t, function_type, c, glsl_std_id);
    let w = cube_direction_words(ib, t, function_type, c, glsl_std_id);
    assert(w[540] == cube_direction_part_7(cube_direction_part_6(cube_direction_part_5(cube_direction_part_4(cube_direction_part_3(cube_direction_part_2(cube_direction_part_1(cube_direction_part_0(Seq::empty(), ib, t, function_type, c, glsl_std_id), ib, t, function_type, c, glsl_std_id), ib, t, function_type, c, glsl_std_id), ib, t, function_type, c, glsl_std_id), ib, t, function_type, c, glsl_std_id), ib, t, function_type, c, glsl_std_id), ib, t, function_type, c, glsl_std_id), ib, t, function_type, c, glsl_std_id)[540]);
    assert(w[541] == cube_direction_part_7(cube_direction_part_6(cube_direction_part_5(cube_direction_part_4(cube_direction_part_3(cube_direction_part_2(cube_direction_part_1(cube_direction_part_0(Seq::empty(), ib, t, function_type, c, glsl_std_id), ib, t, function_type, c, glsl_std_id), ib, t, function_type, c, glsl_std_id), ib, t, function_type, c, glsl_std_id), ib, t, function_type, c, glsl_std_id), ib, t, function_type, c, glsl_std_id), ib, t, function_type, c, glsl_std_id), ib, t, function_type, c, glsl_std_id)[541]);
    assert(w[542] == cube_direction_part_7(cube_direction_part_6(cube_direction_part_5(cube_direction_part_4(cube_direction_part_3(cube_direction_part_2(cube_direction_part_1(cube_direction_part_0(Seq::empty(), ib, t, function_type, c, glsl_std_id), ib, t, function_type, c, glsl_std_id), ib, t, function_type, c, glsl_std_id), ib, t, function_type, c, glsl_std_id), ib, t, function_type, c, glsl_std_id), ib, t, function_type, c, glsl_std_id), ib, t, function_type, c, glsl_std_id), ib, t, function_type, c, glsl_std_id)[542]);
    assert(w[543] == cube_direction_part_7(cube_direction_part_6(cube_direction_part_5(cube_direction_part_4(cube_direction_part_3(cube_direction_part_2(cube_direction_part_1(cube_direction_part_0(Seq::empty(), ib, t, function_type, c, glsl_std_id), ib, t, function_type, c, glsl_std_id), ib, t, function_type, c, glsl_std_id), ib, t, function_type, c, glsl_std_id), ib, t, function_type, c, glsl_std_id), ib, t, function_type, c, glsl_std_id), ib, t, function_type, c, glsl_std_id), ib, t, function_type, c, glsl_std_id)[543]);
    assert(w[544] == cube_direction_part_7(cube_direction_part_6(cube_direction_part_5(cube_direction_part_4(cube_direction_part_3(cube_direction_part_2(cube_direction_part_1(cube_direction_part_0(Seq::empty(), ib, t, function_type, c, glsl_std_id), ib, t, function_type, c, glsl_std_id), ib, t, function_type, c, glsl_std_id), ib, t, function_type, c, glsl_std_id), ib, t, function_type, c, glsl_std_id), ib, t, function_type, c, glsl_std_id), ib, t, function_type, c, glsl_std_id), ib, t, function_type, c, glsl_std_id)[544]);
    assert(w[545] == cube_direction_part_7(cube_direction_part_6(cube_direction_part_5(cube_direction_part_4(cube_direction_part_3(cube_direction_part_2(cube_direction_part_1(cube_direction_part_0(Seq::empty(), ib, t, function_type, c, glsl_std_id), ib, t, function_type, c, glsl_std_id), ib, t, function_type, c, glsl_std_id), ib, t, function_type, c, glsl_std_id), ib, t, function_type, c, glsl_std_id), ib, t, function_type, c, glsl_std_id), ib, t, function_type, c, glsl_std_id), ib, t, function_type, c, glsl_std_id)[545]);
    assert(w[546] == cube_direction_part_7(cube_direction_part_6(cube_direction_part_5(cube_direction_part_4(cube_direction_part_3(cube_direction_part_2(cube_direction_part_1(cube_direction_part_0(Seq::empty(), ib, t, function_type, c, glsl_std_id), ib, t, function_type, c, glsl_std_id), ib, t, function_type, c, glsl_std_id), ib, t, function_type, c, glsl_std_id), ib, t, function_type, c, glsl_std_id), ib, t, function_type, c, glsl_std_id), ib, t, function_type, c, glsl_std_id), ib, t, function_type, c, glsl_std_id)[546]);
    assert(w[548] == cube_direction_part_7(cube_direction_part_6(cube_direction_part_5(cube_direction_part_4(cube_direction_part_3(cube_direction_part_2(cube_direction_part_1(cube_direction_part_0(Seq::empty(), ib, t, function_type, c, glsl_std_id), ib, t, function_type, c, glsl_std_id), ib, t, function_type, c, glsl_std_id), ib, t, function_type, c, glsl_std_id), ib, t, function_type, c, glsl_std_id), ib, t, function_type, c, glsl_std_id), ib, t, function_type, c, glsl_std_id), ib, t, function_type, c, glsl_std_id)[548]);
    assert(w[549] == cube_direction_part_7(cube_direction_part_6(cube_direction_part_5(cube_direction_part_4(cube_direction_part_3(cube_direction_part_2(cube_direction_part_1(cube_direction_part_0(Seq::empty(), ib, t, function_type, c, glsl_std_id), ib, t, function_type, c, glsl_std_id), ib, t, function_type, c, glsl_std_id), ib, t, function_type, c, glsl_std_id), ib, t, function_type, c, glsl_std_id), ib, t, function_type, c, glsl_std_id), ib, t, function_type, c, glsl_std_id), ib, t, function_type, c, glsl_std_id)[549]);
    assert(w[550] == cube_direction_part_7(cube_direction_part_6(cube_direction_part_5(cube_direction_part_4(cube_direction_part_3(cube_direction_part_2(cube_direction_part_1(cube_direction_part_0(Seq::empty(), ib, t, function_type, c, glsl_std_id), ib, t, function_type, c, glsl_std_id), ib, t, function_type, c, glsl_std_id), ib, t, function_type, c, glsl_std_id), ib, t, function_type, c, glsl_std_id), ib, t, function_type, c, glsl_std_id), ib, t, function_type, c, glsl_std_id), ib, t, function_type, c, glsl_std_id)[550]);
    assert(w[551] == cube_direction_part_7(cube_direction_part_6(cube_direction_part_5(cube_direction_part_4(cube_direction_part_3(cube_direction_part_2(cube_direction_part_1(cube_direction_part_0(Seq::empty(), ib, t, function_type, c, glsl_std_id), ib, t, function_type, c, glsl_std_id), ib, t, function_type, c, glsl_std_id), ib, t, function_type, c, glsl_std_id), ib, t, function_type, c, glsl_std_id), ib, t, function_type, c, glsl_std_id), ib, t, function_type, c, glsl_std_id), ib, t, function_type, c, glsl_std_id)[551]);
    assert(w[554] == cube_direction_part_7(cube_direction_part_6(cube_direction_part_5(cube_direction_part_4(cube_direction_part_3(cube_direction_part_2(cube_direction_part_1(cube_direction_part_0(Seq::empty(), ib, t, function_type, c, glsl_std_id), ib, t, function_type, c, glsl_std_id), ib, t, function_type, c, glsl_std_id), ib, t, function_type, c, glsl_std_id), ib, t, function_type, c, glsl_std_id), ib, t, function_type, c, glsl_std_id), ib, t, function_type, c, glsl_std_id), ib, t, function_type, c, glsl_std_id)[554]);
    assert(w[555] == cube_direction_part_7(cube_direction_part_6(cube_direction_part_5(cube_direction_part_4(cube_direction_part_3(cube_direction_part_2(cube_direction_part_1(cube_direction_part_0(Seq::empty(), ib, t, function_type, c, glsl_std_id), ib, t, function_type, c, glsl_std_id), ib, t, function_type, c, glsl_std_id), ib, t, function_type, c, glsl_std_id), ib, t, function_type, c, glsl_std_id), ib, t, function_type, c, glsl_std_id), ib, t, function_type, c, glsl_std_id), ib, t, function_type, c, glsl_std_id)[555]);
    assert(w[556] == cube_direction_part_7(cube_direction_part_6(cube_direction_part_5(cube_direction_part_4(cube_direction_part_3(cube_direction_part_2(cube_direction_part_1(cube_direction_part_0(Seq::empty(), ib, t, function_type, c, glsl_std_id), ib, t, function_type, c, glsl_std_id), ib, t, function_type, c, glsl_std_id), ib, t, function_type, c, glsl_std_id), ib, t, function_type, c, glsl_std_id), ib, t, function_type, c, glsl_std_id), ib, t, function_type, c, glsl_std_id), ib, t, function_type, c, glsl_std_id)[556]);
    assert(w[557] == cube_direction_part_7(cube_direction_part_6(cube_direction_part_5(cube_direction_part_4(cube_direction_part_3(cube_direction_part_2(cube_direction_part_1(cube_direction_part_0(Seq::empty(), ib, t, function_type, c, glsl_std_id), ib, t, function_type, c, glsl_std_id), ib, t, function_type, c, glsl_std_id), ib, t, function_type, c, glsl_std_id), ib, t, function_type, c, glsl_std_id), ib, t, function_type, c, glsl_std_id), ib, t, function_type, c, glsl_std_id), ib, t, function_type, c, glsl_std_id)[557]);
}

#[verifier::spinoff_prover]
#[verifier::rlimit(60)]
proof fn lemma_cube_words_blk4(
    ib: int,
    t: CubeDirectionTypeInputs,
    function_type: u32,
    c: CubeDirectionConstants,
    glsl_std_id: u32,
)
    ensures
        cube_direction_words(ib, t, function_type, c, glsl_std_id)[558] == spec_encode_word(2, spv::SPV_INSTRUCTION_OP_LABEL),
        cube_direction_words(ib, t, function_type, c, glsl_std_id)[559] == cid(ib, 112),
        cube_direction_words(ib, t, function_type, c, glsl_std_id)[560] == spec_encode_word(5, spv::SPV_INSTRUCTION_OP_ACCESS_CHAIN),
        cube_direction_words(ib, t, function_type, c, glsl_std_id)[562] == cid(ib, 114),
        cube_direction_words(ib, t, function_type, c, glsl_std_id)[563] == cid(ib, 1),
        cube_direction_words(ib, t, function_type, c, glsl_std_id)[564] == c.int_0,
        cube_direction_words(ib, t, function_type, c, glsl_std_id)[565] == spec_encode_word(4, spv::SPV_INSTRUCTION_OP_LOAD),
        cube_direction_words(ib, t, function_type, c, glsl_std_id)[566] == t.int_id,
        cube_direction_words(ib, t, function_type, c, glsl_std_id)[567] == cid(ib, 115),
        cube_direction_words(ib, t, function_type, c, glsl_std_id)[568] == cid(ib, 114),
        cube_direction_words(ib, t, function_type, c, glsl_std_id)[569] == spec_encode_word(5, spv::SPV_INSTRUCTION_OP_ACCESS_CHAIN),
        cube_direction_words(ib, t, function_type, c, glsl_std_id)[571] == cid(ib, 116),
        cube_direction_words(ib, t, function_type, c, glsl_std_id)[572] == cid(ib, 1),
        cube_direction_words(ib, t, function_type, c, glsl_std_id)[573] == c.int_1,
        cube_direction_words(ib, t, function_type, c, glsl_std_id)[574] == spec_encode_word(4, spv::SPV_INSTRUCTION_OP_LOAD),
        cube_direction_words(ib, t, function_type, c, glsl_std_id)[575] == t.int_id,
        cube_direction_words(ib, t, function_type, c, glsl_std_id)[576] == cid(ib, 117),
        cube_direction_words(ib, t, function_type, c, glsl_std_id)[577] == cid(ib, 116),
        cube_direction_words(ib, t, function_type, c, glsl_std_id)[578] == spec_encode_word(4, spv::SPV_INSTRUCTION_OP_S_NEGATE),
        cube_direction_words(ib, t, function_type, c, glsl_std_id)[580] == cid(ib, 118),
        cube_direction_words(ib, t, function_type, c, glsl_std_id)[581] == cid(ib, 117),
        cube_direction_words(ib, t, function_type, c, glsl_std_id)[582] == spec_encode_word(5, spv::SPV_INSTRUCTION_OP_COMPOSITE_CONSTRUCT),
        cube_direction_words(ib, t, function_type, c, glsl_std_id)[583] == t.v2int_id,
        cube_direction_words(ib, t, function_type, c, glsl_std_id)[584] == cid(ib, 119),
        cube_direction_words(ib, t, function_type, c, glsl_std_id)[585] == cid(ib, 115),
        cube_direction_words(ib, t, function_type, c, glsl_std_id)[586] == cid(ib, 118),
        cube_direction_words(ib, t, function_type, c, glsl_std_id)[587] == spec_encode_word(3, spv::SPV_INSTRUCTION_OP_STORE),
        cube_direction_words(ib, t, function_type, c, glsl_std_id)[588] == cid(ib, 14),
        cube_direction_words(ib, t, function_type, c, glsl_std_id)[589] == cid(ib, 119),
        cube_direction_words(ib, t, function_type, c, glsl_std_id)[590] == spec_encode_word(2, spv::SPV_INSTRUCTION_OP_BRANCH),
        cube_direction_words(ib, t, function_type, c, glsl_std_id)[591] == cid(ib, 111),
{
    lemma_cube_parts(ib, t, function_type, c, glsl_std_id);
    let w = cube_direction_words(ib, t, function_type, c, glsl_std_id);
    assert(w[558] == cube_direction_part_7(cube_direction_part_6(cube_direction_part_5(cube_direction_part_4(cube_direction_part_3(cube_direction_part_2(cube_direction_part_1(cube_direction_part_0(Seq::empty(), ib, t, function_type, c, glsl_std_id), ib, t, function_type, c, glsl_std_id), ib, t, function_type, c, glsl_std_id), ib, t, function_type, c, glsl_std_id), ib, t, function_type, c, glsl_std_id), ib, t, function_type, c, glsl_std_id), ib, t, function_type, c, glsl_std_id), ib, t, function_type, c, glsl_std_id)[558]);
    assert(w[559] == cube_direction_part_7(cube_direction_part_6(cube_direction_part_5(cube_direction_part_4(cube_direction_part_3(cube_direction_part_2(cube_direction_part_1(cube_direction_part_0(Seq::empty(), ib, t, function_type, c, glsl_std_id), ib, t, function_type, c, glsl_std_id), ib, t, function_type, c, glsl_std_id), ib, t, function_type, c, glsl_std_id), ib, t, function_type, c, glsl_std_id), ib, t, function_type, c, glsl_std_id), ib, t, function_type, c, glsl_std_id), ib, t, function_type, c, glsl_std_id)[559]);
    assert(w[560] == cube_direction_part_7(cube_direction_part_6(cube_direction_part_5(cube_direction_part_4(cube_direction_part_3(cube_direction_part_2(cube_direction_part_1(cube_direction_part_0(Seq::empty(), ib, t, function_type, c, glsl_std_id), ib, t, function_type, c, glsl_std_id), ib, t, function_type, c, glsl_std_id), ib, t, function_type, c, glsl_std_id), ib, t, function_type, c, glsl_std_id), ib, t, function_type, c, glsl_std_id), ib, t, function_type, c, glsl_std_id), ib, t, function_type, c, glsl_std_id)[560]);
    assert(w[562] == cube_direction_part_7(cube_direction_part_6(cube_direction_part_5(cube_direction_part_4(cube_direction_part_3(cube_direction_part_2(cube_direction_part_1(cube_direction_part_0(Seq::empty(), ib, t, function_type, c, glsl_std_id), ib, t, function_type, c, glsl_std_id), ib, t, function_type, c, glsl_std_id), ib, t, function_type, c, glsl_std_id), ib, t, function_type, c, glsl_std_id), ib, t, function_type, c, glsl_std_id), ib, t, function_type, c, glsl_std_id), ib, t, function_type, c, glsl_std_id)[562]);
    assert(w[563] == cube_direction_part_7(cube_direction_part_6(cube_direction_part_5(cube_direction_part_4(cube_direction_part_3(cube_direction_part_2(cube_direction_part_1(cube_direction_part_0(Seq::empty(), ib, t, function_type, c, glsl_std_id), ib, t, function_type, c, glsl_std_id), ib, t, function_type, c, glsl_std_id), ib, t, function_type, c, glsl_std_id), ib, t, function_type, c, glsl_std_id), ib, t, function_type, c, glsl_std_id), ib, t, function_type, c, glsl_std_id), ib, t, function_type, c, glsl_std_id)[563]);
    assert(w[564] == cube_direction_part_7(cube_direction_part_6(cube_direction_part_5(cube_direction_part_4(cube_direction_part_3(cube_direction_part_2(cube_direction_part_1(cube_direction_part_0(Seq::empty(), ib, t, function_type, c, glsl_std_id), ib, t, function_type, c, glsl_std_id), ib, t, function_type, c, glsl_std_id), ib, t, function_type, c, glsl_std_id), ib, t, function_type, c, glsl_std_id), ib, t, function_type, c, glsl_std_id), ib, t, function_type, c, glsl_std_id), ib, t, function_type, c, glsl_std_id)[564]);
    assert(w[565] == cube_direction_part_7(cube_direction_part_6(cube_direction_part_5(cube_direction_part_4(cube_direction_part_3(cube_direction_part_2(cube_direction_part_1(cube_direction_part_0(Seq::empty(), ib, t, function_type, c, glsl_std_id), ib, t, function_type, c, glsl_std_id), ib, t, function_type, c, glsl_std_id), ib, t, function_type, c, glsl_std_id), ib, t, function_type, c, glsl_std_id), ib, t, function_type, c, glsl_std_id), ib, t, function_type, c, glsl_std_id), ib, t, function_type, c, glsl_std_id)[565]);
    assert(w[566] == cube_direction_part_7(cube_direction_part_6(cube_direction_part_5(cube_direction_part_4(cube_direction_part_3(cube_direction_part_2(cube_direction_part_1(cube_direction_part_0(Seq::empty(), ib, t, function_type, c, glsl_std_id), ib, t, function_type, c, glsl_std_id), ib, t, function_type, c, glsl_std_id), ib, t, function_type, c, glsl_std_id), ib, t, function_type, c, glsl_std_id), ib, t, function_type, c, glsl_std_id), ib, t, function_type, c, glsl_std_id), ib, t, function_type, c, glsl_std_id)[566]);
    assert(w[567] == cube_direction_part_7(cube_direction_part_6(cube_direction_part_5(cube_direction_part_4(cube_direction_part_3(cube_direction_part_2(cube_direction_part_1(cube_direction_part_0(Seq::empty(), ib, t, function_type, c, glsl_std_id), ib, t, function_type, c, glsl_std_id), ib, t, function_type, c, glsl_std_id), ib, t, function_type, c, glsl_std_id), ib, t, function_type, c, glsl_std_id), ib, t, function_type, c, glsl_std_id), ib, t, function_type, c, glsl_std_id), ib, t, function_type, c, glsl_std_id)[567]);
    assert(w[568] == cube_direction_part_7(cube_direction_part_6(cube_direction_part_5(cube_direction_part_4(cube_direction_part_3(cube_direction_part_2(cube_direction_part_1(cube_direction_part_0(Seq::empty(), ib, t, function_type, c, glsl_std_id), ib, t, function_type, c, glsl_std_id), ib, t, function_type, c, glsl_std_id), ib, t, function_type, c, glsl_std_id), ib, t, function_type, c, glsl_std_id), ib, t, function_type, c, glsl_std_id), ib, t, function_type, c, glsl_std_id), ib, t, function_type, c, glsl_std_id)[568]);
    assert(w[569] == cube_direction_part_7(cube_direction_part_6(cube_direction_part_5(cube_direction_part_4(cube_direction_part_3(cube_direction_part_2(cube_direction_part_1(cube_direction_part_0(Seq::empty(), ib, t, function_type, c, glsl_std_id), ib, t, function_type, c, glsl_std_id), ib, t, function_type, c, glsl_std_id), ib, t, function_type, c, glsl_std_id), ib, t, function_type, c, glsl_std_id), ib, t, function_type, c, glsl_std_id), ib, t, function_type, c, glsl_std_id), ib, t, function_type, c, glsl_std_id)[569]);
    assert(w[571] == cube_direction_part_7(cube_direction_part_6(cube_direction_part_5(cube_direction_part_4(cube_direction_part_3(cube_direction_part_2(cube_direction_part_1(cube_direction_part_0(Seq::empty(), ib, t, function_type, c, glsl_std_id), ib, t, function_type, c, glsl_std_id), ib, t, function_type, c, glsl_std_id), ib, t, function_type, c, glsl_std_id), ib, t, function_type, c, glsl_std_id), ib, t, function_type, c, glsl_std_id), ib, t, function_type, c, glsl_std_id), ib, t, function_type, c, glsl_std_id)[571]);
    assert(w[572] == cube_direction_part_7(cube_direction_part_6(cube_direction_part_5(cube_direction_part_4(cube_direction_part_3(cube_direction_part_2(cube_direction_part_1(cube_direction_part_0(Seq::empty(), ib, t, function_type, c, glsl_std_id), ib, t, function_type, c, glsl_std_id), ib, t, function_type, c, glsl_std_id), ib, t, function_type, c, glsl_std_id), ib, t, function_type, c, glsl_std_id), ib, t, function_type, c, glsl_std_id), ib, t, function_type, c, glsl_std_id), ib, t, function_type, c, glsl_std_id)[572]);
    assert(w[573] == cube_direction_part_7(cube_direction_part_6(cube_direction_part_5(cube_direction_part_4(cube_direction_part_3(cube_direction_part_2(cube_direction_part_1(cube_direction_part_0(Seq::empty(), ib, t, function_type, c, glsl_std_id), ib, t, function_type, c, glsl_std_id), ib, t, function_type, c, glsl_std_id), ib, t, function_type, c, glsl_std_id), ib, t, function_type, c, glsl_std_id), ib, t, function_type, c, glsl_std_id), ib, t, function_type, c, glsl_std_id), ib, t, function_type, c, glsl_std_id)[573]);
    assert(w[574] == cube_direction_part_7(cube_direction_part_6(cube_direction_part_5(cube_direction_part_4(cube_direction_part_3(cube_direction_part_2(cube_direction_part_1(cube_direction_part_0(Seq::empty(), ib, t, function_type, c, glsl_std_id), ib, t, function_type, c, glsl_std_id), ib, t, function_type, c, glsl_std_id), ib, t, function_type, c, glsl_std_id), ib, t, function_type, c, glsl_std_id), ib, t, function_type, c, glsl_std_id), ib, t, function_type, c, glsl_std_id), ib, t, function_type, c, glsl_std_id)[574]);
    assert(w[575] == cube_direction_part_7(cube_direction_part_6(cube_direction_part_5(cube_direction_part_4(cube_direction_part_3(cube_direction_part_2(cube_direction_part_1(cube_direction_part_0(Seq::empty(), ib, t, function_type, c, glsl_std_id), ib, t, function_type, c, glsl_std_id), ib, t, function_type, c, glsl_std_id), ib, t, function_type, c, glsl_std_id), ib, t, function_type, c, glsl_std_id), ib, t, function_type, c, glsl_std_id), ib, t, function_type, c, glsl_std_id), ib, t, function_type, c, glsl_std_id)[575]);
    assert(w[576] == cube_direction_part_7(cube_direction_part_6(cube_direction_part_5(cube_direction_part_4(cube_direction_part_3(cube_direction_part_2(cube_direction_part_1(cube_direction_part_0(Seq::empty(), ib, t, function_type, c, glsl_std_id), ib, t, function_type, c, glsl_std_id), ib, t, function_type, c, glsl_std_id), ib, t, function_type, c, glsl_std_id), ib, t, function_type, c, glsl_std_id), ib, t, function_type, c, glsl_std_id), ib, t, function_type, c, glsl_std_id), ib, t, function_type, c, glsl_std_id)[576]);
    assert(w[577] == cube_direction_part_7(cube_direction_part_6(cube_direction_part_5(cube_direction_part_4(cube_direction_part_3(cube_direction_part_2(cube_direction_part_1(cube_direction_part_0(Seq::empty(), ib, t, function_type, c, glsl_std_id), ib, t, function_type, c, glsl_std_id), ib, t, function_type, c, glsl_std_id), ib, t, function_type, c, glsl_std_id), ib, t, function_type, c, glsl_std_id), ib, t, function_type, c, glsl_std_id), ib, t, function_type, c, glsl_std_id), ib, t, function_type, c, glsl_std_id)[577]);
    assert(w[578] == cube_direction_part_7(cube_direction_part_6(cube_direction_part_5(cube_direction_part_4(cube_direction_part_3(cube_direction_part_2(cube_direction_part_1(cube_direction_part_0(Seq::empty(), ib, t, function_type, c, glsl_std_id), ib, t, function_type, c, glsl_std_id), ib, t, function_type, c, glsl_std_id), ib, t, function_type, c, glsl_std_id), ib, t, function_type, c, glsl_std_id), ib, t, function_type, c, glsl_std_id), ib, t, function_type, c, glsl_std_id), ib, t, function_type, c, glsl_std_id)[578]);
    assert(w[580] == cube_direction_part_7(cube_direction_part_6(cube_direction_part_5(cube_direction_part_4(cube_direction_part_3(cube_direction_part_2(cube_direction_part_1(cube_direction_part_0(Seq::empty(), ib, t, function_type, c, glsl_std_id), ib, t, function_type, c, glsl_std_id), ib, t, function_type, c, glsl_std_id), ib, t, function_type, c, glsl_std_id), ib, t, function_type, c, glsl_std_id), ib, t, function_type, c, glsl_std_id), ib, t, function_type, c, glsl_std_id), ib, t, function_type, c, glsl_std_id)[580]);
    assert(w[581] == cube_direction_part_7(cube_direction_part_6(cube_direction_part_5(cube_direction_part_4(cube_direction_part_3(cube_direction_part_2(cube_direction_part_1(cube_direction_part_0(Seq::empty(), ib, t, function_type, c, glsl_std_id), ib, t, function_type, c, glsl_std_id), ib, t, function_type, c, glsl_std_id), ib, t, function_type, c, glsl_std_id), ib, t, function_type, c, glsl_std_id), ib, t, function_type, c, glsl_std_id), ib, t, function_type, c, glsl_std_id), ib, t, function_type, c, glsl_std_id)[581]);
    assert(w[582] == cube_direction_part_7(cube_direction_part_6(cube_direction_part_5(cube_direction_part_4(cube_direction_part_3(cube_direction_part_2(cube_direction_part_1(cube_direction_part_0(Seq::empty(), ib, t, function_type, c, glsl_std_id), ib, t, function_type, c, glsl_std_id), ib, t, function_type, c, glsl_std_id), ib, t, function_type, c, glsl_std_id), ib, t, function_type, c, glsl_std_id), ib, t, function_type, c, glsl_std_id), ib, t, function_type, c, glsl_std_id), ib, t, function_type, c, glsl_std_id)[582]);
    assert(w[583] == cube_direction_part_7(cube_direction_part_6(cube_direction_part_5(cube_direction_part_4(cube_direction_part_3(cube_direction_part_2(cube_direction_part_1(cube_direction_part_0(Seq::empty(), ib, t, function_type, c, glsl_std_id), ib, t, function_type, c, glsl_std_id), ib, t, function_type, c, glsl_std_id), ib, t, function_type, c, glsl_std_id), ib, t, function_type, c, glsl_std_id), ib, t, function_type, c, glsl_std_id), ib, t, function_type, c, glsl_std_id), ib, t, function_type, c, glsl_std_id)[583]);
    assert(w[584] == cube_direction_part_7(cube_direction_part_6(cube_direction_part_5(cube_direction_part_4(cube_direction_part_3(cube_direction_part_2(cube_direction_part_1(cube_direction_part_0(Seq::empty(), ib, t, function_type, c, glsl_std_id), ib, t, function_type, c, glsl_std_id), ib, t, function_type, c, glsl_std_id), ib, t, function_type, c, glsl_std_id), ib, t, function_type, c, glsl_std_id), ib, t, function_type, c, glsl_std_id), ib, t, function_type, c, glsl_std_id), ib, t, function_type, c, glsl_std_id)[584]);
    assert(w[585] == cube_direction_part_7(cube_direction_part_6(cube_direction_part_5(cube_direction_part_4(cube_direction_part_3(cube_direction_part_2(cube_direction_part_1(cube_direction_part_0(Seq::empty(), ib, t, function_type, c, glsl_std_id), ib, t, function_type, c, glsl_std_id), ib, t, function_type, c, glsl_std_id), ib, t, function_type, c, glsl_std_id), ib, t, function_type, c, glsl_std_id), ib, t, function_type, c, glsl_std_id), ib, t, function_type, c, glsl_std_id), ib, t, function_type, c, glsl_std_id)[585]);
    assert(w[586] == cube_direction_part_7(cube_direction_part_6(cube_direction_part_5(cube_direction_part_4(cube_direction_part_3(cube_direction_part_2(cube_direction_part_1(cube_direction_part_0(Seq::empty(), ib, t, function_type, c, glsl_std_id), ib, t, function_type, c, glsl_std_id), ib, t, function_type, c, glsl_std_id), ib, t, function_type, c, glsl_std_id), ib, t, function_type, c, glsl_std_id), ib, t, function_type, c, glsl_std_id), ib, t, function_type, c, glsl_std_id), ib, t, function_type, c, glsl_std_id)[586]);
    assert(w[587] == cube_direction_part_7(cube_direction_part_6(cube_direction_part_5(cube_direction_part_4(cube_direction_part_3(cube_direction_part_2(cube_direction_part_1(cube_direction_part_0(Seq::empty(), ib, t, function_type, c, glsl_std_id), ib, t, function_type, c, glsl_std_id), ib, t, function_type, c, glsl_std_id), ib, t, function_type, c, glsl_std_id), ib, t, function_type, c, glsl_std_id), ib, t, function_type, c, glsl_std_id), ib, t, function_type, c, glsl_std_id), ib, t, function_type, c, glsl_std_id)[587]);
    assert(w[588] == cube_direction_part_7(cube_direction_part_6(cube_direction_part_5(cube_direction_part_4(cube_direction_part_3(cube_direction_part_2(cube_direction_part_1(cube_direction_part_0(Seq::empty(), ib, t, function_type, c, glsl_std_id), ib, t, function_type, c, glsl_std_id), ib, t, function_type, c, glsl_std_id), ib, t, function_type, c, glsl_std_id), ib, t, function_type, c, glsl_std_id), ib, t, function_type, c, glsl_std_id), ib, t, function_type, c, glsl_std_id), ib, t, function_type, c, glsl_std_id)[588]);
    assert(w[589] == cube_direction_part_7(cube_direction_part_6(cube_direction_part_5(cube_direction_part_4(cube_direction_part_3(cube_direction_part_2(cube_direction_part_1(cube_direction_part_0(Seq::empty(), ib, t, function_type, c, glsl_std_id), ib, t, function_type, c, glsl_std_id), ib, t, function_type, c, glsl_std_id), ib, t, function_type, c, glsl_std_id), ib, t, function_type, c, glsl_std_id), ib, t, function_type, c, glsl_std_id), ib, t, function_type, c, glsl_std_id), ib, t, function_type, c, glsl_std_id)[589]);
    assert(w[590] == cube_direction_part_7(cube_direction_part_6(cube_direction_part_5(cube_direction_part_4(cube_direction_part_3(cube_direction_part_2(cube_direction_part_1(cube_direction_part_0(Seq::empty(), ib, t, function_type, c, glsl_std_id), ib, t, function_type, c, glsl_std_id), ib, t, function_type, c, glsl_std_id), ib, t, function_type, c, glsl_std_id), ib, t, function_type, c, glsl_std_id), ib, t, function_type, c, glsl_std_id), ib, t, function_type, c, glsl_std_id), ib, t, function_type, c, glsl_std_id)[590]);
    assert(w[591] == cube_direction_part_7(cube_direction_part_6(cube_direction_part_5(cube_direction_part_4(cube_direction_part_3(cube_direction_part_2(cube_direction_part_1(cube_direction_part_0(Seq::empty(), ib, t, function_type, c, glsl_std_id), ib, t, function_type, c, glsl_std_id), ib, t, function_type, c, glsl_std_id), ib, t, function_type, c, glsl_std_id), ib, t, function_type, c, glsl_std_id), ib, t, function_type, c, glsl_std_id), ib, t, function_type, c, glsl_std_id), ib, t, function_type, c, glsl_std_id)[591]);
}

#[verifier::spinoff_prover]
#[verifier::rlimit(60)]
proof fn lemma_cube_words_blk5(
    ib: int,
    t: CubeDirectionTypeInputs,
    function_type: u32,
    c: CubeDirectionConstants,
    glsl_std_id: u32,
)
    ensures
        cube_direction_words(ib, t, function_type, c, glsl_std_id)[592] == spec_encode_word(2, spv::SPV_INSTRUCTION_OP_LABEL),
        cube_direction_words(ib, t, function_type, c, glsl_std_id)[593] == cid(ib, 113),
        cube_direction_words(ib, t, function_type, c, glsl_std_id)[594] == spec_encode_word(5, spv::SPV_INSTRUCTION_OP_ACCESS_CHAIN),
        cube_direction_words(ib, t, function_type, c, glsl_std_id)[596] == cid(ib, 120),
        cube_direction_words(ib, t, function_type, c, glsl_std_id)[597] == cid(ib, 1),
        cube_direction_words(ib, t, function_type, c, glsl_std_id)[598] == c.int_0,
        cube_direction_words(ib, t, function_type, c, glsl_std_id)[599] == spec_encode_word(4, spv::SPV_INSTRUCTION_OP_LOAD),
        cube_direction_words(ib, t, function_type, c, glsl_std_id)[600] == t.int_id,
        cube_direction_words(ib, t, function_type, c, glsl_std_id)[601] == cid(ib, 121),
        cube_direction_words(ib, t, function_type, c, glsl_std_id)[602] == cid(ib, 120),
        cube_direction_words(ib, t, function_type, c, glsl_std_id)[603] == spec_encode_word(4, spv::SPV_INSTRUCTION_OP_S_NEGATE),
        cube_direction_words(ib, t, function_type, c, glsl_std_id)[605] == cid(ib, 122),
        cube_direction_words(ib, t, function_type, c, glsl_std_id)[606] == cid(ib, 121),
        cube_direction_words(ib, t, function_type, c, glsl_std_id)[607] == spec_encode_word(5, spv::SPV_INSTRUCTION_OP_ACCESS_CHAIN),
        cube_direction_words(ib, t, function_type, c, glsl_std_id)[609] == cid(ib, 123),
        cube_direction_words(ib, t, function_type, c, glsl_std_id)[610] == cid(ib, 1),
        cube_direction_words(ib, t, function_type, c, glsl_std_id)[611] == c.int_1,
        cube_direction_words(ib, t, function_type, c, glsl_std_id)[612] == spec_encode_word(4, spv::SPV_INSTRUCTION_OP_LOAD),
        cube_direction_words(ib, t, function_type, c, glsl_std_id)[613] == t.int_id,
        cube_direction_words(ib, t, function_type, c, glsl_std_id)[614] == cid(ib, 124),
        cube_direction_words(ib, t, function_type, c, glsl_std_id)[615] == cid(ib, 123),
        cube_direction_words(ib, t, function_type, c, glsl_std_id)[616] == spec_encode_word(4, spv::SPV_INSTRUCTION_OP_S_NEGATE),
        cube_direction_words(ib, t, function_type, c, glsl_std_id)[618] == cid(ib, 125),
        cube_direction_words(ib, t, function_type, c, glsl_std_id)[619] == cid(ib, 124),
        cube_direction_words(ib, t, function_type, c, glsl_std_id)[620] == spec_encode_word(5, spv::SPV_INSTRUCTION_OP_COMPOSITE_CONSTRUCT),
        cube_direction_words(ib, t, function_type, c, glsl_std_id)[621] == t.v2int_id,
        cube_direction_words(ib, t, function_type, c, glsl_std_id)[622] == cid(ib, 126),
        cube_direction_words(ib, t, function_type, c, glsl_std_id)[623] == cid(ib, 122),
        cube_direction_words(ib, t, function_type, c, glsl_std_id)[624] == cid(ib, 125),
        cube_direction_words(ib, t, function_type, c, glsl_std_id)[625] == spec_encode_word(3, spv::SPV_INSTRUCTION_OP_STORE),
        cube_direction_words(ib, t, function_type, c, glsl_std_id)[626] == cid(ib, 14),
        cube_direction_words(ib, t, function_type, c, glsl_std_id)[627] == cid(ib, 126),
        cube_direction_words(ib, t, function_type, c, glsl_std_id)[628] == spec_encode_word(2, spv::SPV_INSTRUCTION_OP_BRANCH),
        cube_direction_words(ib, t, function_type, c, glsl_std_id)[629] == cid(ib, 111),
{
    lemma_cube_parts(ib, t, function_type, c, glsl_std_id);
    let w = cube_direction_words(ib, t, function_type, c, glsl_std_id);
    assert(w[592] == cube_direction_part_7(cube_direction_part_6(cube_direction_part_5(cube_direction_part_4(cube_direction_part_3(cube_direction_part_2(cube_direction_part_1(cube_direction_part_0(Seq::empty(), ib, t, function_type, c, glsl_std_id), ib, t, function_type, c, glsl_std_id), ib, t, function_type, c, glsl_std_id), ib, t, function_type, c, glsl_std_id), ib, t, function_type, c, glsl_std_id), ib, t, function_type, c, glsl_std_id), ib, t, function_type, c, glsl_std_id), ib, t, function_type, c, glsl_std_id)[592]);
    assert(w[593] == cube_direction_part_7(cube_direction_part_6(cube_direction_part_5(cube_direction_part_4(cube_direction_part_3(cube_direction_part_2(cube_direction_part_1(cube_direction_part_0(Seq::empty(), ib, t, function_type, c, glsl_std_id), ib, t, function_type, c, glsl_std_id), ib, t, function_type, c, glsl_std_id), ib, t, function_type, c, glsl_std_id), ib, t, function_type, c, glsl_std_id), ib, t, function_type, c, glsl_std_id), ib, t, function_type, c, glsl_std_id), ib, t, function_type, c, glsl_std_id)[593]);
    assert(w[594] == cube_direction_part_7(cube_direction_part_6(cube_direction_part_5(cube_direction_part_4(cube_direction_part_3(cube_direction_part_2(cube_direction_part_1(cube_direction_part_0(Seq::empty(), ib, t, function_type, c, glsl_std_id), ib, t, function_type, c, glsl_std_id), ib, t, function_type, c, glsl_std_id), ib, t, function_type, c, glsl_std_id), ib, t, function_type, c, glsl_std_id), ib, t, function_type, c, glsl_std_id), ib, t, function_type, c, glsl_std_id), ib, t, function_type, c, glsl_std_id)[594]);
    assert(w[596] == cube_direction_part_7(cube_direction_part_6(cube_direction_part_5(cube_direction_part_4(cube_direction_part_3(cube_direction_part_2(cube_direction_part_1(cube_direction_part_0(Seq::empty(), ib, t, function_type, c, glsl_std_id), ib, t, function_type, c, glsl_std_id), ib, t, function_type, c, glsl_std_id), ib, t, function_type, c, glsl_std_id), ib, t, function_type, c, glsl_std_id), ib, t, function_type, c, glsl_std_id), ib, t, function_type, c, glsl_std_id), ib, t, function_type, c, glsl_std_id)[596]);
    assert(w[597] == cube_direction_part_7(cube_direction_part_6(cube_direction_part_5(cube_direction_part_4(cube_direction_part_3(cube_direction_part_2(cube_direction_part_1(cube_direction_part_0(Seq::empty(), ib, t, function_type, c, glsl_std_id), ib, t, function_type, c, glsl_std_id), ib, t, function_type, c, glsl_std_id), ib, t, function_type, c, glsl_std_id), ib, t, function_type, c, glsl_std_id), ib, t, function_type, c, glsl_std_id), ib, t, function_type, c, glsl_std_id), ib, t, function_type, c, glsl_std_id)[597]);
    assert(w[598] == cube_direction_part_7(cube_direction_part_6(cube_direction_part_5(cube_direction_part_4(cube_direction_part_3(cube_direction_part_2(cube_direction_part_1(cube_direction_part_0(Seq::empty(), ib, t, function_type, c, glsl_std_id), ib, t, function_type, c, glsl_std_id), ib, t, function_type, c, glsl_std_id), ib, t, function_type, c, glsl_std_id), ib, t, function_type, c, glsl_std_id), ib, t, function_type, c, glsl_std_id), ib, t, function_type, c, glsl_std_id), ib, t, function_type, c, glsl_std_id)[598]);
    assert(w[599] == cube_direction_part_7(cube_direction_part_6(cube_direction_part_5(cube_direction_part_4(cube_direction_part_3(cube_direction_part_2(cube_direction_part_1(cube_direction_part_0(Seq::empty(), ib, t, function_type, c, glsl_std_id), ib, t, function_type, c, glsl_std_id), ib, t, function_type, c, glsl_std_id), ib, t, function_type, c, glsl_std_id), ib, t, function_type, c, glsl_std_id), ib, t, function_type, c, glsl_std_id), ib, t, function_type, c, glsl_std_id), ib, t, function_type, c, glsl_std_id)[599]);
    assert(w[600] == cube_direction_part_7(cube_direction_part_6(cube_direction_part_5(cube_direction_part_4(cube_direction_part_3(cube_direction_part_2(cube_direction_part_1(cube_direction_part_0(Seq::empty(), ib, t, function_type, c, glsl_std_id), ib, t, function_type, c, glsl_std_id), ib, t, function_type, c, glsl_std_id), ib, t, function_type, c, glsl_std_id), ib, t, function_type, c, glsl_std_id), ib, t, function_type, c, glsl_std_id), ib, t, function_type, c, glsl_std_id), ib, t, function_type, c, glsl_std_id)[600]);
    assert(w[601] == cube_direction_part_7(cube_direction_part_6(cube_direction_part_5(cube_direction_part_4(cube_direction_part_3(cube_direction_part_2(cube_direction_part_1(cube_direction_part_0(Seq::empty(), ib, t, function_type, c, glsl_std_id), ib, t, function_type, c, glsl_std_id), ib, t, function_type, c, glsl_std_id), ib, t, function_type, c, glsl_std_id), ib, t, function_type, c, glsl_std_id), ib, t, function_type, c, glsl_std_id), ib, t, function_type, c, glsl_std_id), ib, t, function_type, c, glsl_std_id)[601]);
    assert(w[602] == cube_direction_part_7(cube_direction_part_6(cube_direction_part_5(cube_direction_part_4(cube_direction_part_3(cube_direction_part_2(cube_direction_part_1(cube_direction_part_0(Seq::empty(), ib, t, function_type, c, glsl_std_id), ib, t, function_type, c, glsl_std_id), ib, t, function_type, c, glsl_std_id), ib, t, function_type, c, glsl_std_id), ib, t, function_type, c, glsl_std_id), ib, t, function_type, c, glsl_std_id), ib, t, function_type, c, glsl_std_id), ib, t, function_type, c, glsl_std_id)[602]);
    assert(w[603] == cube_direction_part_7(cube_direction_part_6(cube_direction_part_5(cube_direction_part_4(cube_direction_part_3(cube_direction_part_2(cube_direction_part_1(cube_direction_part_0(Seq::empty(), ib, t, function_type, c, glsl_std_id), ib, t, function_type, c, glsl_std_id), ib, t, function_type, c, glsl_std_id), ib, t, function_type, c, glsl_std_id), ib, t, function_type, c, glsl_std_id), ib, t, function_type, c, glsl_std_id), ib, t, function_type, c, glsl_std_id), ib, t, function_type, c, glsl_std_id)[603]);
    assert(w[605] == cube_direction_part_7(cube_direction_part_6(cube_direction_part_5(cube_direction_part_4(cube_direction_part_3(cube_direction_part_2(cube_direction_part_1(cube_direction_part_0(Seq::empty(), ib, t, function_type, c, glsl_std_id), ib, t, function_type, c, glsl_std_id), ib, t, function_type, c, glsl_std_id), ib, t, function_type, c, glsl_std_id), ib, t, function_type, c, glsl_std_id), ib, t, function_type, c, glsl_std_id), ib, t, function_type, c, glsl_std_id), ib, t, function_type, c, glsl_std_id)[605]);
    assert(w[606] == cube_direction_part_7(cube_direction_part_6(cube_direction_part_5(cube_direction_part_4(cube_direction_part_3(cube_direction_part_2(cube_direction_part_1(cube_direction_part_0(Seq::empty(), ib, t, function_type, c, glsl_std_id), ib, t, function_type, c, glsl_std_id), ib, t, function_type, c, glsl_std_id), ib, t, function_type, c, glsl_std_id), ib, t, function_type, c, glsl_std_id), ib, t, function_type, c, glsl_std_id), ib, t, function_type, c, glsl_std_id), ib, t, function_type, c, glsl_std_id)[606]);
    assert(w[607] == cube_direction_part_8(cube_direction_part_7(cube_direction_part_6(cube_direction_part_5(cube_direction_part_4(cube_direction_part_3(cube_direction_part_2(cube_direction_part_1(cube_direction_part_0(Seq::empty(), ib, t, function_type, c, glsl_std_id), ib, t, function_type, c, glsl_std_id), ib, t, function_type, c, glsl_std_id), ib, t, function_type, c, glsl_std_id), ib, t, function_type, c, glsl_std_id), ib, t, function_type, c, glsl_std_id), ib, t, function_type, c, glsl_std_id), ib, t, function_type, c, glsl_std_id), ib, t, function_type, c, glsl_std_id)[607]);
    assert(w[609] == cube_direction_part_8(cube_direction_part_7(cube_direction_part_6(cube_direction_part_5(cube_direction_part_4(cube_direction_part_3(cube_direction_part_2(cube_direction_part_1(cube_direction_part_0(Seq::empty(), ib, t, function_type, c, glsl_std_id), ib, t, function_type, c, glsl_std_id), ib, t, function_type, c, glsl_std_id), ib, t, function_type, c, glsl_std_id), ib, t, function_type, c, glsl_std_id), ib, t, function_type, c, glsl_std_id), ib, t, function_type, c, glsl_std_id), ib, t, function_type, c, glsl_std_id), ib, t, function_type, c, glsl_std_id)[609]);
    assert(w[610] == cube_direction_part_8(cube_direction_part_7(cube_direction_part_6(cube_direction_part_5(cube_direction_part_4(cube_direction_part_3(cube_direction_part_2(cube_direction_part_1(cube_direction_part_0(Seq::empty(), ib, t, function_type, c, glsl_std_id), ib, t, function_type, c, glsl_std_id), ib, t, function_type, c, glsl_std_id), ib, t, function_type, c, glsl_std_id), ib, t, function_type, c, glsl_std_id), ib, t, function_type, c, glsl_std_id), ib, t, function_type, c, glsl_std_id), ib, t, function_type, c, glsl_std_id), ib, t, function_type, c, glsl_std_id)[610]);
    assert(w[611] == cube_direction_part_8(cube_direction_part_7(cube_direction_part_6(cube_direction_part_5(cube_direction_part_4(cube_direction_part_3(cube_direction_part_2(cube_direction_part_1(cube_direction_part_0(Seq::empty(), ib, t, function_type, c, glsl_std_id), ib, t, function_type, c, glsl_std_id), ib, t, function_type, c, glsl_std_id), ib, t, function_type, c, glsl_std_id), ib, t, function_type, c, glsl_std_id), ib, t, function_type, c, glsl_std_id), ib, t, function_type, c, glsl_std_id), ib, t, function_type, c, glsl_std_id), ib, t, function_type, c, glsl_std_id)[611]);
    assert(w[612] == cube_direction_part_8(cube_direction_part_7(cube_direction_part_6(cube_direction_part_5(cube_direction_part_4(cube_direction_part_3(cube_direction_part_2(cube_direction_part_1(cube_direction_part_0(Seq::empty(), ib, t, function_type, c, glsl_std_id), ib, t, function_type, c, glsl_std_id), ib, t, function_type, c, glsl_std_id), ib, t, function_type, c, glsl_std_id), ib, t, function_type, c, glsl_std_id), ib, t, function_type, c, glsl_std_id), ib, t, function_type, c, glsl_std_id), ib, t, function_type, c, glsl_std_id), ib, t, function_type, c, glsl_std_id)[612]);
    assert(w[613] == cube_direction_part_8(cube_direction_part_7(cube_direction_part_6(cube_direction_part_5(cube_direction_part_4(cube_direction_part_3(cube_direction_part_2(cube_direction_part_1(cube_direction_part_0(Seq::empty(), ib, t, function_type, c, glsl_std_id), ib, t, function_type, c, glsl_std_id), ib, t, function_type, c, glsl_std_id), ib, t, function_type, c, glsl_std_id), ib, t, function_type, c, glsl_std_id), ib, t, function_type, c, glsl_std_id), ib, t, function_type, c, glsl_std_id), ib, t, function_type, c, glsl_std_id), ib, t, function_type, c, glsl_std_id)[613]);
    assert(w[614] == cube_direction_part_8(cube_direction_part_7(cube_direction_part_6(cube_direction_part_5(cube_direction_part_4(cube_direction_part_3(cube_direction_part_2(cube_direction_part_1(cube_direction_part_0(Seq::empty(), ib, t, function_type, c, glsl_std_id), ib, t, function_type, c, glsl_std_id), ib, t, function_type, c, glsl_std_id), ib, t, function_type, c, glsl_std_id), ib, t, function_type, c, glsl_std_id), ib, t, function_type, c, glsl_std_id), ib, t, function_type, c, glsl_std_id), ib, t, function_type, c, glsl_std_id), ib, t, function_type, c, glsl_std_id)[614]);
    assert(w[615] == cube_direction_part_8(cube_direction_part_7(cube_direction_part_6(cube_direction_part_5(cube_direction_part_4(cube_direction_part_3(cube_direction_part_2(cube_direction_part_1(cube_direction_part_0(Seq::empty(), ib, t, function_type, c, glsl_std_id), ib, t, function_type, c, glsl_std_id), ib, t, function_type, c, glsl_std_id), ib, t, function_type, c, glsl_std_id), ib, t, function_type, c, glsl_std_id), ib, t, function_type, c, glsl_std_id), ib, t, function_type, c, glsl_std_id), ib, t, function_type, c, glsl_std_id), ib, t, function_type, c, glsl_std_id)[615]);
    assert(w[616] == cube_direction_part_8(cube_direction_part_7(cube_direction_part_6(cube_direction_part_5(cube_direction_part_4(cube_direction_part_3(cube_direction_part_2(cube_direction_part_1(cube_direction_part_0(Seq::empty(), ib, t, function_type, c, glsl_std_id), ib, t, function_type, c, glsl_std_id), ib, t, function_type, c, glsl_std_id), ib, t, function_type, c, glsl_std_id), ib, t, function_type, c, glsl_std_id), ib, t, function_type, c, glsl_std_id), ib, t, function_type, c, glsl_std_id), ib, t, function_type, c, glsl_std_id), ib, t, function_type, c, glsl_std_id)[616]);
    assert(w[618] == cube_direction_part_8(cube_direction_part_7(cube_direction_part_6(cube_direction_part_5(cube_direction_part_4(cube_direction_part_3(cube_direction_part_2(cube_direction_part_1(cube_direction_part_0(Seq::empty(), ib, t, function_type, c, glsl_std_id), ib, t, function_type, c, glsl_std_id), ib, t, function_type, c, glsl_std_id), ib, t, function_type, c, glsl_std_id), ib, t, function_type, c, glsl_std_id), ib, t, function_type, c, glsl_std_id), ib, t, function_type, c, glsl_std_id), ib, t, function_type, c, glsl_std_id), ib, t, function_type, c, glsl_std_id)[618]);
    assert(w[619] == cube_direction_part_8(cube_direction_part_7(cube_direction_part_6(cube_direction_part_5(cube_direction_part_4(cube_direction_part_3(cube_direction_part_2(cube_direction_part_1(cube_direction_part_0(Seq::empty(), ib, t, function_type, c, glsl_std_id), ib, t, function_type, c, glsl_std_id), ib, t, function_type, c, glsl_std_id), ib, t, function_type, c, glsl_std_id), ib, t, function_type, c, glsl_std_id), ib, t, function_type, c, glsl_std_id), ib, t, function_type, c, glsl_std_id), ib, t, function_type, c, glsl_std_id), ib, t, function_type, c, glsl_std_id)[619]);
    assert(w[620] == cube_direction_part_8(cube_direction_part_7(cube_direction_part_6(cube_direction_part_5(cube_direction_part_4(cube_direction_part_3(cube_direction_part_2(cube_direction_part_1(cube_direction_part_0(Seq::empty(), ib, t, function_type, c, glsl_std_id), ib, t, function_type, c, glsl_std_id), ib, t, function_type, c, glsl_std_id), ib, t, function_type, c, glsl_std_id), ib, t, function_type, c, glsl_std_id), ib, t, function_type, c, glsl_std_id), ib, t, function_type, c, glsl_std_id), ib, t, function_type, c, glsl_std_id), ib, t, function_type, c, glsl_std_id)[620]);
    assert(w[621] == cube_direction_part_8(cube_direction_part_7(cube_direction_part_6(cube_direction_part_5(cube_direction_part_4(cube_direction_part_3(cube_direction_part_2(cube_direction_part_1(cube_direction_part_0(Seq::empty(), ib, t, function_type, c, glsl_std_id), ib, t, function_type, c, glsl_std_id), ib, t, function_type, c, glsl_std_id), ib, t, function_type, c, glsl_std_id), ib, t, function_type, c, glsl_std_id), ib, t, function_type, c, glsl_std_id), ib, t, function_type, c, glsl_std_id), ib, t, function_type, c, glsl_std_id), ib, t, function_type, c, glsl_std_id)[621]);
    assert(w[622] == cube_direction_part_8(cube_direction_part_7(cube_direction_part_6(cube_direction_part_5(cube_direction_part_4(cube_direction_part_3(cube_direction_part_2(cube_direction_part_1(cube_direction_part_0(Seq::empty(), ib, t, function_type, c, glsl_std_id), ib, t, function_type, c, glsl_std_id), ib, t, function_type, c, glsl_std_id), ib, t, function_type, c, glsl_std_id), ib, t, function_type, c, glsl_std_id), ib, t, function_type, c, glsl_std_id), ib, t, function_type, c, glsl_std_id), ib, t, function_type, c, glsl_std_id), ib, t, function_type, c, glsl_std_id)[622]);
    assert(w[623] == cube_direction_part_8(cube_direction_part_7(cube_direction_part_6(cube_direction_part_5(cube_direction_part_4(cube_direction_part_3(cube_direction_part_2(cube_direction_part_1(cube_direction_part_0(Seq::empty(), ib, t, function_type, c, glsl_std_id), ib, t, function_type, c, glsl_std_id), ib, t, function_type, c, glsl_std_id), ib, t, function_type, c, glsl_std_id), ib, t, function_type, c, glsl_std_id), ib, t, function_type, c, glsl_std_id), ib, t, function_type, c, glsl_std_id), ib, t, function_type, c, glsl_std_id), ib, t, function_type, c, glsl_std_id)[623]);
    assert(w[624] == cube_direction_part_8(cube_direction_part_7(cube_direction_part_6(cube_direction_part_5(cube_direction_part_4(cube_direction_part_3(cube_direction_part_2(cube_direction_part_1(cube_direction_part_0(Seq::empty(), ib, t, function_type, c, glsl_std_id), ib, t, function_type, c, glsl_std_id), ib, t, function_type, c, glsl_std_id), ib, t, function_type, c, glsl_std_id), ib, t, function_type, c, glsl_std_id), ib, t, function_type, c, glsl_std_id), ib, t, function_type, c, glsl_std_id), ib, t, function_type, c, glsl_std_id), ib, t, function_type, c, glsl_std_id)[624]);
    assert(w[625] == cube_direction_part_8(cube_direction_part_7(cube_direction_part_6(cube_direction_part_5(cube_direction_part_4(cube_direction_part_3(cube_direction_part_2(cube_direction_part_1(cube_direction_part_0(Seq::empty(), ib, t, function_type, c, glsl_std_id), ib, t, function_type, c, glsl_std_id), ib, t, function_type, c, glsl_std_id), ib, t, function_type, c, glsl_std_id), ib, t, function_type, c, glsl_std_id), ib, t, function_type, c, glsl_std_id), ib, t, function_type, c, glsl_std_id), ib, t, function_type, c, glsl_std_id), ib, t, function_type, c, glsl_std_id)[625]);
    assert(w[626] == cube_direction_part_8(cube_direction_part_7(cube_direction_part_6(cube_direction_part_5(cube_direction_part_4(cube_direction_part_3(cube_direction_part_2(cube_direction_part_1(cube_direction_part_0(Seq::empty(), ib, t, function_type, c, glsl_std_id), ib, t, function_type, c, glsl_std_id), ib, t, function_type, c, glsl_std_id), ib, t, function_type, c, glsl_std_id), ib, t, function_type, c, glsl_std_id), ib, t, function_type, c, glsl_std_id), ib, t, function_type, c, glsl_std_id), ib, t, function_type, c, glsl_std_id), ib, t, function_type, c, glsl_std_id)[626]);
    assert(w[627] == cube_direction_part_8(cube_direction_part_7(cube_direction_part_6(cube_direction_part_5(cube_direction_part_4(cube_direction_part_3(cube_direction_part_2(cube_direction_part_1(cube_direction_part_0(Seq::empty(), ib, t, function_type, c, glsl_std_id), ib, t, function_type, c, glsl_std_id), ib, t, function_type, c, glsl_std_id), ib, t, function_type, c, glsl_std_id), ib, t, function_type, c, glsl_std_id), ib, t, function_type, c, glsl_std_id), ib, t, function_type, c, glsl_std_id), ib, t, function_type, c, glsl_std_id), ib, t, function_type, c, glsl_std_id)[627]);
    assert(w[628] == cube_direction_part_8(cube_direction_part_7(cube_direction_part_6(cube_direction_part_5(cube_direction_part_4(cube_direction_part_3(cube_direction_part_2(cube_direction_part_1(cube_direction_part_0(Seq::empty(), ib, t, function_type, c, glsl_std_id), ib, t, function_type, c, glsl_std_id), ib, t, function_type, c, glsl_std_id), ib, t, function_type, c, glsl_std_id), ib, t, function_type, c, glsl_std_id), ib, t, function_type, c, glsl_std_id), ib, t, function_type, c, glsl_std_id), ib, t, function_type, c, glsl_std_id), ib, t, function_type, c, glsl_std_id)[628]);
    assert(w[629] == cube_direction_part_8(cube_direction_part_7(cube_direction_part_6(cube_direction_part_5(cube_direction_part_4(cube_direction_part_3(cube_direction_part_2(cube_direction_part_1(cube_direction_part_0(Seq::empty(), ib, t, function_type, c, glsl_std_id), ib, t, function_type, c, glsl_std_id), ib, t, function_type, c, glsl_std_id), ib, t, function_type, c, glsl_std_id), ib, t, function_type, c, glsl_std_id), ib, t, function_type, c, glsl_std_id), ib, t, function_type, c, glsl_std_id), ib, t, function_type, c, glsl_std_id), ib, t, function_type, c, glsl_std_id)[629]);
}

#[verifier::spinoff_prover]
#[verifier::rlimit(60)]
proof fn lemma_cube_words_m111(
    ib: int,
    t: CubeDirectionTypeInputs,
    function_type: u32,
    c: CubeDirectionConstants,
    glsl_std_id: u32,
)
    ensures
        cube_direction_words(ib, t, function_type, c, glsl_std_id)[630] == spec_encode_word(2, spv::SPV_INSTRUCTION_OP_LABEL),
        cube_direction_words(ib, t, function_type, c, glsl_std_id)[631] == cid(ib, 111),
        cube_direction_words(ib, t, function_type, c, glsl_std_id)[632] == spec_encode_word(4, spv::SPV_INSTRUCTION_OP_LOAD),
        cube_direction_words(ib, t, function_type, c, glsl_std_id)[633] == t.v2int_id,
        cube_direction_words(ib, t, function_type, c, glsl_std_id)[634] == cid(ib, 127),
        cube_direction_words(ib, t, function_type, c, glsl_std_id)[635] == cid(ib, 14),
        cube_direction_words(ib, t, function_type, c, glsl_std_id)[636] == spec_encode_word(3, spv::SPV_INSTRUCTION_OP_STORE),
        cube_direction_words(ib, t, function_type, c, glsl_std_id)[637] == cid(ib, 13),
        cube_direction_words(ib, t, function_type, c, glsl_std_id)[638] == cid(ib, 127),
        cube_direction_words(ib, t, function_type, c, glsl_std_id)[639] == spec_encode_word(2, spv::SPV_INSTRUCTION_OP_BRANCH),
        cube_direction_words(ib, t, function_type, c, glsl_std_id)[640] == cid(ib, 100),
{
    lemma_cube_parts(ib, t, function_type, c, glsl_std_id);
    let w = cube_direction_words(ib, t, function_type, c, glsl_std_id);
    assert(w[630] == cube_direction_part_8(cube_direction_part_7(cube_direction_part_6(cube_direction_part_5(cube_direction_part_4(cube_direction_part_3(cube_direction_part_2(cube_direction_part_1(cube_direction_part_0(Seq::empty(), ib, t, function_type, c, glsl_std_id), ib, t, function_type, c, glsl_std_id), ib, t, function_type, c, glsl_std_id), ib, t, function_type, c, glsl_std_id), ib, t, function_type, c, glsl_std_id), ib, t, function_type, c, glsl_std_id), ib, t, function_type, c, glsl_std_id), ib, t, function_type, c, glsl_std_id), ib, t, function_type, c, glsl_std_id)[630]);
    assert(w[631] == cube_direction_part_8(cube_direction_part_7(cube_direction_part_6(cube_direction_part_5(cube_direction_part_4(cube_direction_part_3(cube_direction_part_2(cube_direction_part_1(cube_direction_part_0(Seq::empty(), ib, t, function_type, c, glsl_std_id), ib, t, function_type, c, glsl_std_id), ib, t, function_type, c, glsl_std_id), ib, t, function_type, c, glsl_std_id), ib, t, function_type, c, glsl_std_id), ib, t, function_type, c, glsl_std_id), ib, t, function_type, c, glsl_std_id), ib, t, function_type, c, glsl_std_id), ib, t, function_type, c, glsl_std_id)[631]);
    assert(w[632] == cube_direction_part_8(cube_direction_part_7(cube_direction_part_6(cube_direction_part_5(cube_direction_part_4(cube_direction_part_3(cube_direction_part_2(cube_direction_part_1(cube_direction_part_0(Seq::empty(), ib, t, function_type, c, glsl_std_id), ib, t, function_type, c, glsl_std_id), ib, t, function_type, c, glsl_std_id), ib, t, function_type, c, glsl_std_id), ib, t, function_type, c, glsl_std_id), ib, t, function_type, c, glsl_std_id), ib, t, function_type, c, glsl_std_id), ib, t, function_type, c, glsl_std_id), ib, t, function_type, c, glsl_std_id)[632]);
    assert(w[633] == cube_direction_part_8(cube_direction_part_7(cube_direction_part_6(cube_direction_part_5(cube_direction_part_4(cube_direction_part_3(cube_direction_part_2(cube_direction_part_1(cube_direction_part_0(Seq::empty(), ib, t, function_type, c, glsl_std_id), ib, t, function_type, c, glsl_std_id), ib, t, function_type, c, glsl_std_id), ib, t, function_type, c, glsl_std_id), ib, t, function_type, c, glsl_std_id), ib, t, function_type, c, glsl_std_id), ib, t, function_type, c, glsl_std_id), ib, t, function_type, c, glsl_std_id), ib, t, function_type, c, glsl_std_id)[633]);
    assert(w[634] == cube_direction_part_8(cube_direction_part_7(cube_direction_part_6(cube_direction_part_5(cube_direction_part_4(cube_direction_part_3(cube_direction_part_2(cube_direction_part_1(cube_direction_part_0(Seq::empty(), ib, t, function_type, c, glsl_std_id), ib, t, function_type, c, glsl_std_id), ib, t, function_type, c, glsl_std_id), ib, t, function_type, c, glsl_std_id), ib, t, function_type, c, glsl_std_id), ib, t, function_type, c, glsl_std_id), ib, t, function_type, c, glsl_std_id), ib, t, function_type, c, glsl_std_id), ib, t, function_type, c, glsl_std_id)[634]);
    assert(w[635] == cube_direction_part_8(cube_direction_part_7(cube_direction_part_6(cube_direction_part_5(cube_direction_part_4(cube_direction_part_3(cube_direction_part_2(cube_direction_part_1(cube_direction_part_0(Seq::empty(), ib, t, function_type, c, glsl_std_id), ib, t, function_type, c, glsl_std_id), ib, t, function_type, c, glsl_std_id), ib, t, function_type, c, glsl_std_id), ib, t, function_type, c, glsl_std_id), ib, t, function_type, c, glsl_std_id), ib, t, function_type, c, glsl_std_id), ib, t, function_type, c, glsl_std_id), ib, t, function_type, c, glsl_std_id)[635]);
    assert(w[636] == cube_direction_part_8(cube_direction_part_7(cube_direction_part_6(cube_direction_part_5(cube_direction_part_4(cube_direction_part_3(cube_direction_part_2(cube_direction_part_1(cube_direction_part_0(Seq::empty(), ib, t, function_type, c, glsl_std_id), ib, t, function_type, c, glsl_std_id), ib, t, function_type, c, glsl_std_id), ib, t, function_type, c, glsl_std_id), ib, t, function_type, c, glsl_std_id), ib, t, function_type, c, glsl_std_id), ib, t, function_type, c, glsl_std_id), ib, t, function_type, c, glsl_std_id), ib, t, function_type, c, glsl_std_id)[636]);
    assert(w[637] == cube_direction_part_8(cube_direction_part_7(cube_direction_part_6(cube_direction_part_5(cube_direction_part_4(cube_direction_part_3(cube_direction_part_2(cube_direction_part_1(cube_direction_part_0(Seq::empty(), ib, t, function_type, c, glsl_std_id), ib, t, function_type, c, glsl_std_id), ib, t, function_type, c, glsl_std_id), ib, t, function_type, c, glsl_std_id), ib, t, function_type, c, glsl_std_id), ib, t, function_type, c, glsl_std_id), ib, t, function_type, c, glsl_std_id), ib, t, function_type, c, glsl_std_id), ib, t, function_type, c, glsl_std_id)[637]);
    assert(w[638] == cube_direction_part_8(cube_direction_part_7(cube_direction_part_6(cube_direction_part_5(cube_direction_part_4(cube_direction_part_3(cube_direction_part_2(cube_direction_part_1(cube_direction_part_0(Seq::empty(), ib, t, function_type, c, glsl_std_id), ib, t, function_type, c, glsl_std_id), ib, t, function_type, c, glsl_std_id), ib, t, function_type, c, glsl_std_id), ib, t, function_type, c, glsl_std_id), ib, t, function_type, c, glsl_std_id), ib, t, function_type, c, glsl_std_id), ib, t, function_type, c, glsl_std_id), ib, t, function_type, c, glsl_std_id)[638]);
    assert(w[639] == cube_direction_part_8(cube_direction_part_7(cube_direction_part_6(cube_direction_part_5(cube_direction_part_4(cube_direction_part_3(cube_direction_part_2(cube_direction_part_1(cube_direction_part_0(Seq::empty(), ib, t, function_type, c, glsl_std_id), ib, t, function_type, c, glsl_std_id), ib, t, function_type, c, glsl_std_id), ib, t, function_type, c, glsl_std_id), ib, t, function_type, c, glsl_std_id), ib, t, function_type, c, glsl_std_id), ib, t, function_type, c, glsl_std_id), ib, t, function_type, c, glsl_std_id), ib, t, function_type, c, glsl_std_id)[639]);
    assert(w[640] == cube_direction_part_8(cube_direction_part_7(cube_direction_part_6(cube_direction_part_5(cube_direction_part_4(cube_direction_part_3(cube_direction_part_2(cube_direction_part_1(cube_direction_part_0(Seq::empty(), ib, t, function_type, c, glsl_std_id), ib, t, function_type, c, glsl_std_id), ib, t, function_type, c, glsl_std_id), ib, t, function_type, c, glsl_std_id), ib, t, function_type, c, glsl_std_id), ib, t, function_type, c, glsl_std_id), ib, t, function_type, c, glsl_std_id), ib, t, function_type, c, glsl_std_id), ib, t, function_type, c, glsl_std_id)[640]);
}

#[verifier::spinoff_prover]
#[verifier::rlimit(60)]
proof fn lemma_cube_words_m100(
    ib: int,
    t: CubeDirectionTypeInputs,
    function_type: u32,
    c: CubeDirectionConstants,
    glsl_std_id: u32,
)
    ensures
        cube_direction_words(ib, t, function_type, c, glsl_std_id)[641] == spec_encode_word(2, spv::SPV_INSTRUCTION_OP_LABEL),
        cube_direction_words(ib, t, function_type, c, glsl_std_id)[642] == cid(ib, 100),
        cube_direction_words(ib, t, function_type, c, glsl_std_id)[643] == spec_encode_word(4, spv::SPV_INSTRUCTION_OP_LOAD),
        cube_direction_words(ib, t, function_type, c, glsl_std_id)[644] == t.v2int_id,
        cube_direction_words(ib, t, function_type, c, glsl_std_id)[645] == cid(ib, 128),
        cube_direction_words(ib, t, function_type, c, glsl_std_id)[646] == cid(ib, 13),
        cube_direction_words(ib, t, function_type, c, glsl_std_id)[647] == spec_encode_word(3, spv::SPV_INSTRUCTION_OP_STORE),
        cube_direction_words(ib, t, function_type, c, glsl_std_id)[648] == cid(ib, 12),
        cube_direction_words(ib, t, function_type, c, glsl_std_id)[649] == cid(ib, 128),
        cube_direction_words(ib, t, function_type, c, glsl_std_id)[650] == spec_encode_word(2, spv::SPV_INSTRUCTION_OP_BRANCH),
        cube_direction_words(ib, t, function_type, c, glsl_std_id)[651] == cid(ib, 90),
{
    lemma_cube_parts(ib, t, function_type, c, glsl_std_id);
    let w = cube_direction_words(ib, t, function_type, c, glsl_std_id);
    assert(w[641] == cube_direction_part_8(cube_direction_part_7(cube_direction_part_6(cube_direction_part_5(cube_direction_part_4(cube_direction_part_3(cube_direction_part_2(cube_direction_part_1(cube_direction_part_0(Seq::empty(), ib, t, function_type, c, glsl_std_id), ib, t, function_type, c, glsl_std_id), ib, t, function_type, c, glsl_std_id), ib, t, function_type, c, glsl_std_id), ib, t, function_type, c, glsl_std_id), ib, t, function_type, c, glsl_std_id), ib, t, function_type, c, glsl_std_id), ib, t, function_type, c, glsl_std_id), ib, t, function_type, c, glsl_std_id)[641]);
    assert(w[642] == cube_direction_part_8(cube_direction_part_7(cube_direction_part_6(cube_direction_part_5(cube_direction_part_4(cube_direction_part_3(cube_direction_part_2(cube_direction_part_1(cube_direction_part_0(Seq::empty(), ib, t, function_type, c, glsl_std_id), ib, t, function_type, c, glsl_std_id), ib, t, function_type, c, glsl_std_id), ib, t, function_type, c, glsl_std_id), ib, t, function_type, c, glsl_std_id), ib, t, function_type, c, glsl_std_id), ib, t, function_type, c, glsl_std_id), ib, t, function_type, c, glsl_std_id), ib, t, function_type, c, glsl_std_id)[642]);
    assert(w[643] == cube_direction_part_8(cube_direction_part_7(cube_direction_part_6(cube_direction_part_5(cube_direction_part_4(cube_direction_part_3(cube_direction_part_2(cube_direction_part_1(cube_direction_part_0(Seq::empty(), ib, t, function_type, c, glsl_std_id), ib, t, function_type, c, glsl_std_id), ib, t, function_type, c, glsl_std_id), ib, t, function_type, c, glsl_std_id), ib, t, function_type, c, glsl_std_id), ib, t, function_type, c, glsl_std_id), ib, t, function_type, c, glsl_std_id), ib, t, function_type, c, glsl_std_id), ib, t, function_type, c, glsl_std_id)[643]);
    assert(w[644] == cube_direction_part_8(cube_direction_part_7(cube_direction_part_6(cube_direction_part_5(cube_direction_part_4(cube_direction_part_3(cube_direction_part_2(cube_direction_part_1(cube_direction_part_0(Seq::empty(), ib, t, function_type, c, glsl_std_id), ib, t, function_type, c, glsl_std_id), ib, t, function_type, c, glsl_std_id), ib, t, function_type, c, glsl_std_id), ib, t, function_type, c, glsl_std_id), ib, t, function_type, c, glsl_std_id), ib, t, function_type, c, glsl_std_id), ib, t, function_type, c, glsl_std_id), ib, t, function_type, c, glsl_std_id)[644]);
    assert(w[645] == cube_direction_part_8(cube_direction_part_7(cube_direction_part_6(cube_direction_part_5(cube_direction_part_4(cube_direction_part_3(cube_direction_part_2(cube_direction_part_1(cube_direction_part_0(Seq::empty(), ib, t, function_type, c, glsl_std_id), ib, t, function_type, c, glsl_std_id), ib, t, function_type, c, glsl_std_id), ib, t, function_type, c, glsl_std_id), ib, t, function_type, c, glsl_std_id), ib, t, function_type, c, glsl_std_id), ib, t, function_type, c, glsl_std_id), ib, t, function_type, c, glsl_std_id), ib, t, function_type, c, glsl_std_id)[645]);
    assert(w[646] == cube_direction_part_8(cube_direction_part_7(cube_direction_part_6(cube_direction_part_5(cube_direction_part_4(cube_direction_part_3(cube_direction_part_2(cube_direction_part_1(cube_direction_part_0(Seq::empty(), ib, t, function_type, c, glsl_std_id), ib, t, function_type, c, glsl_std_id), ib, t, function_type, c, glsl_std_id), ib, t, function_type, c, glsl_std_id), ib, t, function_type, c, glsl_std_id), ib, t, function_type, c, glsl_std_id), ib, t, function_type, c, glsl_std_id), ib, t, function_type, c, glsl_std_id), ib, t, function_type, c, glsl_std_id)[646]);
    assert(w[647] == cube_direction_part_8(cube_direction_part_7(cube_direction_part_6(cube_direction_part_5(cube_direction_part_4(cube_direction_part_3(cube_direction_part_2(cube_direction_part_1(cube_direction_part_0(Seq::empty(), ib, t, function_type, c, glsl_std_id), ib, t, function_type, c, glsl_std_id), ib, t, function_type, c, glsl_std_id), ib, t, function_type, c, glsl_std_id), ib, t, function_type, c, glsl_std_id), ib, t, function_type, c, glsl_std_id), ib, t, function_type, c, glsl_std_id), ib, t, function_type, c, glsl_std_id), ib, t, function_type, c, glsl_std_id)[647]);
    assert(w[648] == cube_direction_part_8(cube_direction_part_7(cube_direction_part_6(cube_direction_part_5(cube_direction_part_4(cube_direction_part_3(cube_direction_part_2(cube_direction_part_1(cube_direction_part_0(Seq::empty(), ib, t, function_type, c, glsl_std_id), ib, t, function_type, c, glsl_std_id), ib, t, function_type, c, glsl_std_id), ib, t, function_type, c, glsl_std_id), ib, t, function_type, c, glsl_std_id), ib, t, function_type, c, glsl_std_id), ib, t, function_type, c, glsl_std_id), ib, t, function_type, c, glsl_std_id), ib, t, function_type, c, glsl_std_id)[648]);
    assert(w[649] == cube_direction_part_8(cube_direction_part_7(cube_direction_part_6(cube_direction_part_5(cube_direction_part_4(cube_direction_part_3(cube_direction_part_2(cube_direction_part_1(cube_direction_part_0(Seq::empty(), ib, t, function_type, c, glsl_std_id), ib, t, function_type, c, glsl_std_id), ib, t, function_type, c, glsl_std_id), ib, t, function_type, c, glsl_std_id), ib, t, function_type, c, glsl_std_id), ib, t, function_type, c, glsl_std_id), ib, t, function_type, c, glsl_std_id), ib, t, function_type, c, glsl_std_id), ib, t, function_type, c, glsl_std_id)[649]);
    assert(w[650] == cube_direction_part_8(cube_direction_part_7(cube_direction_part_6(cube_direction_part_5(cube_direction_part_4(cube_direction_part_3(cube_direction_part_2(cube_direction_part_1(cube_direction_part_0(Seq::empty(), ib, t, function_type, c, glsl_std_id), ib, t, function_type, c, glsl_std_id), ib, t, function_type, c, glsl_std_id), ib, t, function_type, c, glsl_std_id), ib, t, function_type, c, glsl_std_id), ib, t, function_type, c, glsl_std_id), ib, t, function_type, c, glsl_std_id), ib, t, function_type, c, glsl_std_id), ib, t, function_type, c, glsl_std_id)[650]);
    assert(w[651] == cube_direction_part_8(cube_direction_part_7(cube_direction_part_6(cube_direction_part_5(cube_direction_part_4(cube_direction_part_3(cube_direction_part_2(cube_direction_part_1(cube_direction_part_0(Seq::empty(), ib, t, function_type, c, glsl_std_id), ib, t, function_type, c, glsl_std_id), ib, t, function_type, c, glsl_std_id), ib, t, function_type, c, glsl_std_id), ib, t, function_type, c, glsl_std_id), ib, t, function_type, c, glsl_std_id), ib, t, function_type, c, glsl_std_id), ib, t, function_type, c, glsl_std_id), ib, t, function_type, c, glsl_std_id)[651]);
}

#[verifier::spinoff_prover]
#[verifier::rlimit(60)]
proof fn lemma_cube_words_m90(
    ib: int,
    t: CubeDirectionTypeInputs,
    function_type: u32,
    c: CubeDirectionConstants,
    glsl_std_id: u32,
)
    ensures
        cube_direction_words(ib, t, function_type, c, glsl_std_id)[652] == spec_encode_word(2, spv::SPV_INSTRUCTION_OP_LABEL),
        cube_direction_words(ib, t, function_type, c, glsl_std_id)[653] == cid(ib, 90),
        cube_direction_words(ib, t, function_type, c, glsl_std_id)[654] == spec_encode_word(4, spv::SPV_INSTRUCTION_OP_LOAD),
        cube_direction_words(ib, t, function_type, c, glsl_std_id)[655] == t.v2int_id,
        cube_direction_words(ib, t, function_type, c, glsl_std_id)[656] == cid(ib, 129),
        cube_direction_words(ib, t, function_type, c, glsl_std_id)[657] == cid(ib, 12),
        cube_direction_words(ib, t, function_type, c, glsl_std_id)[658] == spec_encode_word(3, spv::SPV_INSTRUCTION_OP_STORE),
        cube_direction_words(ib, t, function_type, c, glsl_std_id)[659] == cid(ib, 11),
        cube_direction_words(ib, t, function_type, c, glsl_std_id)[660] == cid(ib, 129),
        cube_direction_words(ib, t, function_type, c, glsl_std_id)[661] == spec_encode_word(2, spv::SPV_INSTRUCTION_OP_BRANCH),
        cube_direction_words(ib, t, function_type, c, glsl_std_id)[662] == cid(ib, 79),
{
    lemma_cube_parts(ib, t, function_type, c, glsl_std_id);
    let w = cube_direction_words(ib, t, function_type, c, glsl_std_id);
    assert(w[652] == cube_direction_part_8(cube_direction_part_7(cube_direction_part_6(cube_direction_part_5(cube_direction_part_4(cube_direction_part_3(cube_direction_part_2(cube_direction_part_1(cube_direction_part_0(Seq::empty(), ib, t, function_type, c, glsl_std_id), ib, t, function_type, c, glsl_std_id), ib, t, function_type, c, glsl_std_id), ib, t, function_type, c, glsl_std_id), ib, t, function_type, c, glsl_std_id), ib, t, function_type, c, glsl_std_id), ib, t, function_type, c, glsl_std_id), ib, t, function_type, c, glsl_std_id), ib, t, function_type, c, glsl_std_id)[652]);
    assert(w[653] == cube_direction_part_8(cube_direction_part_7(cube_direction_part_6(cube_direction_part_5(cube_direction_part_4(cube_direction_part_3(cube_direction_part_2(cube_direction_part_1(cube_direction_part_0(Seq::empty(), ib, t, function_type, c, glsl_std_id), ib, t, function_type, c, glsl_std_id), ib, t, function_type, c, glsl_std_id), ib, t, function_type, c, glsl_std_id), ib, t, function_type, c, glsl_std_id), ib, t, function_type, c, glsl_std_id), ib, t, function_type, c, glsl_std_id), ib, t, function_type, c, glsl_std_id), ib, t, function_type, c, glsl_std_id)[653]);
    assert(w[654] == cube_direction_part_8(cube_direction_part_7(cube_direction_part_6(cube_direction_part_5(cube_direction_part_4(cube_direction_part_3(cube_direction_part_2(cube_direction_part_1(cube_direction_part_0(Seq::empty(), ib, t, function_type, c, glsl_std_id), ib, t, function_type, c, glsl_std_id), ib, t, function_type, c, glsl_std_id), ib, t, function_type, c, glsl_std_id), ib, t, function_type, c, glsl_std_id), ib, t, function_type, c, glsl_std_id), ib, t, function_type, c, glsl_std_id), ib, t, function_type, c, glsl_std_id), ib, t, function_type, c, glsl_std_id)[654]);
    assert(w[655] == cube_direction_part_8(cube_direction_part_7(cube_direction_part_6(cube_direction_part_5(cube_direction_part_4(cube_direction_part_3(cube_direction_part_2(cube_direction_part_1(cube_direction_part_0(Seq::empty(), ib, t, function_type, c, glsl_std_id), ib, t, function_type, c, glsl_std_id), ib, t, function_type, c, glsl_std_id), ib, t, function_type, c, glsl_std_id), ib, t, function_type, c, glsl_std_id), ib, t, function_type, c, glsl_std_id), ib, t, function_type, c, glsl_std_id), ib, t, function_type, c, glsl_std_id), ib, t, function_type, c, glsl_std_id)[655]);
    assert(w[656] == cube_direction_part_8(cube_direction_part_7(cube_direction_part_6(cube_direction_part_5(cube_direction_part_4(cube_direction_part_3(cube_direction_part_2(cube_direction_part_1(cube_direction_part_0(Seq::empty(), ib, t, function_type, c, glsl_std_id), ib, t, function_type, c, glsl_std_id), ib, t, function_type, c, glsl_std_id), ib, t, function_type, c, glsl_std_id), ib, t, function_type, c, glsl_std_id), ib, t, function_type, c, glsl_std_id), ib, t, function_type, c, glsl_std_id), ib, t, function_type, c, glsl_std_id), ib, t, function_type, c, glsl_std_id)[656]);
    assert(w[657] == cube_direction_part_8(cube_direction_part_7(cube_direction_part_6(cube_direction_part_5(cube_direction_part_4(cube_direction_part_3(cube_direction_part_2(cube_direction_part_1(cube_direction_part_0(Seq::empty(), ib, t, function_type, c, glsl_std_id), ib, t, function_type, c, glsl_std_id), ib, t, function_type, c, glsl_std_id), ib, t, function_type, c, glsl_std_id), ib, t, function_type, c, glsl_std_id), ib, t, function_type, c, glsl_std_id), ib, t, function_type, c, glsl_std_id), ib, t, function_type, c, glsl_std_id), ib, t, function_type, c, glsl_std_id)[657]);
    assert(w[658] == cube_direction_part_8(cube_direction_part_7(cube_direction_part_6(cube_direction_part_5(cube_direction_part_4(cube_direction_part_3(cube_direction_part_2(cube_direction_part_1(cube_direction_part_0(Seq::empty(), ib, t, function_type, c, glsl_std_id), ib, t, function_type, c, glsl_std_id), ib, t, function_type, c, glsl_std_id), ib, t, function_type, c, glsl_std_id), ib, t, function_type, c, glsl_std_id), ib, t, function_type, c, glsl_std_id), ib, t, function_type, c, glsl_std_id), ib, t, function_type, c, glsl_std_id), ib, t, function_type, c, glsl_std_id)[658]);
    assert(w[659] == cube_direction_part_8(cube_direction_part_7(cube_direction_part_6(cube_direction_part_5(cube_direction_part_4(cube_direction_part_3(cube_direction_part_2(cube_direction_part_1(cube_direction_part_0(Seq::empty(), ib, t, function_type, c, glsl_std_id), ib, t, function_type, c, glsl_std_id), ib, t, function_type, c, glsl_std_id), ib, t, function_type, c, glsl_std_id), ib, t, function_type, c, glsl_std_id), ib, t, function_type, c, glsl_std_id), ib, t, function_type, c, glsl_std_id), ib, t, function_type, c, glsl_std_id), ib, t, function_type, c, glsl_std_id)[659]);
    assert(w[660] == cube_direction_part_8(cube_direction_part_7(cube_direction_part_6(cube_direction_part_5(cube_direction_part_4(cube_direction_part_3(cube_direction_part_2(cube_direction_part_1(cube_direction_part_0(Seq::empty(), ib, t, function_type, c, glsl_std_id), ib, t, function_type, c, glsl_std_id), ib, t, function_type, c, glsl_std_id), ib, t, function_type, c, glsl_std_id), ib, t, function_type, c, glsl_std_id), ib, t, function_type, c, glsl_std_id), ib, t, function_type, c, glsl_std_id), ib, t, function_type, c, glsl_std_id), ib, t, function_type, c, glsl_std_id)[660]);
    assert(w[661] == cube_direction_part_8(cube_direction_part_7(cube_direction_part_6(cube_direction_part_5(cube_direction_part_4(cube_direction_part_3(cube_direction_part_2(cube_direction_part_1(cube_direction_part_0(Seq::empty(), ib, t, function_type, c, glsl_std_id), ib, t, function_type, c, glsl_std_id), ib, t, function_type, c, glsl_std_id), ib, t, function_type, c, glsl_std_id), ib, t, function_type, c, glsl_std_id), ib, t, function_type, c, glsl_std_id), ib, t, function_type, c, glsl_std_id), ib, t, function_type, c, glsl_std_id), ib, t, function_type, c, glsl_std_id)[661]);
    assert(w[662] == cube_direction_part_8(cube_direction_part_7(cube_direction_part_6(cube_direction_part_5(cube_direction_part_4(cube_direction_part_3(cube_direction_part_2(cube_direction_part_1(cube_direction_part_0(Seq::empty(), ib, t, function_type, c, glsl_std_id), ib, t, function_type, c, glsl_std_id), ib, t, function_type, c, glsl_std_id), ib, t, function_type, c, glsl_std_id), ib, t, function_type, c, glsl_std_id), ib, t, function_type, c, glsl_std_id), ib, t, function_type, c, glsl_std_id), ib, t, function_type, c, glsl_std_id), ib, t, function_type, c, glsl_std_id)[662]);
}

#[verifier::spinoff_prover]
#[verifier::rlimit(60)]
proof fn lemma_cube_words_m79(
    ib: int,
    t: CubeDirectionTypeInputs,
    function_type: u32,
    c: CubeDirectionConstants,
    glsl_std_id: u32,
)
    ensures
        cube_direction_words(ib, t, function_type, c, glsl_std_id)[663] == spec_encode_word(2, spv::SPV_INSTRUCTION_OP_LABEL),
        cube_direction_words(ib, t, function_type, c, glsl_std_id)[664] == cid(ib, 79),
        cube_direction_words(ib, t, function_type, c, glsl_std_id)[665] == spec_encode_word(4, spv::SPV_INSTRUCTION_OP_LOAD),
        cube_direction_words(ib, t, function_type, c, glsl_std_id)[666] == t.v2int_id,
        cube_direction_words(ib, t, function_type, c, glsl_std_id)[667] == cid(ib, 130),
        cube_direction_words(ib, t, function_type, c, glsl_std_id)[668] == cid(ib, 11),
        cube_direction_words(ib, t, function_type, c, glsl_std_id)[669] == spec_encode_word(3, spv::SPV_INSTRUCTION_OP_STORE),
        cube_direction_words(ib, t, function_type, c, glsl_std_id)[670] == cid(ib, 10),
        cube_direction_words(ib, t, function_type, c, glsl_std_id)[671] == cid(ib, 130),
        cube_direction_words(ib, t, function_type, c, glsl_std_id)[672] == spec_encode_word(2, spv::SPV_INSTRUCTION_OP_BRANCH),
        cube_direction_words(ib, t, function_type, c, glsl_std_id)[673] == cid(ib, 67),
{
    lemma_cube_parts(ib, t, function_type, c, glsl_std_id);
    let w = cube_direction_words(ib, t, function_type, c, glsl_std_id);
    assert(w[663] == cube_direction_part_8(cube_direction_part_7(cube_direction_part_6(cube_direction_part_5(cube_direction_part_4(cube_direction_part_3(cube_direction_part_2(cube_direction_part_1(cube_direction_part_0(Seq::empty(), ib, t, function_type, c, glsl_std_id), ib, t, function_type, c, glsl_std_id), ib, t, function_type, c, glsl_std_id), ib, t, function_type, c, glsl_std_id), ib, t, function_type, c, glsl_std_id), ib, t, function_type, c, glsl_std_id), ib, t, function_type, c, glsl_std_id), ib, t, function_type, c, glsl_std_id), ib, t, function_type, c, glsl_std_id)[663]);
    assert(w[664] == cube_direction_part_8(cube_direction_part_7(cube_direction_part_6(cube_direction_part_5(cube_direction_part_4(cube_direction_part_3(cube_direction_part_2(cube_direction_part_1(cube_direction_part_0(Seq::empty(), ib, t, function_type, c, glsl_std_id), ib, t, function_type, c, glsl_std_id), ib, t, function_type, c, glsl_std_id), ib, t, function_type, c, glsl_std_id), ib, t, function_type, c, glsl_std_id), ib, t, function_type, c, glsl_std_id), ib, t, function_type, c, glsl_std_id), ib, t, function_type, c, glsl_std_id), ib, t, function_type, c, glsl_std_id)[664]);
    assert(w[665] == cube_direction_part_8(cube_direction_part_7(cube_direction_part_6(cube_direction_part_5(cube_direction_part_4(cube_direction_part_3(cube_direction_part_2(cube_direction_part_1(cube_direction_part_0(Seq::empty(), ib, t, function_type, c, glsl_std_id), ib, t, function_type, c, glsl_std_id), ib, t, function_type, c, glsl_std_id), ib, t, function_type, c, glsl_std_id), ib, t, function_type, c, glsl_std_id), ib, t, function_type, c, glsl_std_id), ib, t, function_type, c, glsl_std_id), ib, t, function_type, c, glsl_std_id), ib, t, function_type, c, glsl_std_id)[665]);
    assert(w[666] == cube_direction_part_8(cube_direction_part_7(cube_direction_part_6(cube_direction_part_5(cube_direction_part_4(cube_direction_part_3(cube_direction_part_2(cube_direction_part_1(cube_direction_part_0(Seq::empty(), ib, t, function_type, c, glsl_std_id), ib, t, function_type, c, glsl_std_id), ib, t, function_type, c, glsl_std_id), ib, t, function_type, c, glsl_std_id), ib, t, function_type, c, glsl_std_id), ib, t, function_type, c, glsl_std_id), ib, t, function_type, c, glsl_std_id), ib, t, function_type, c, glsl_std_id), ib, t, function_type, c, glsl_std_id)[666]);
    assert(w[667] == cube_direction_part_8(cube_direction_part_7(cube_direction_part_6(cube_direction_part_5(cube_direction_part_4(cube_direction_part_3(cube_direction_part_2(cube_direction_part_1(cube_direction_part_0(Seq::empty(), ib, t, function_type, c, glsl_std_id), ib, t, function_type, c, glsl_std_id), ib, t, function_type, c, glsl_std_id), ib, t, function_type, c, glsl_std_id), ib, t, function_type, c, glsl_std_id), ib, t, function_type, c, glsl_std_id), ib, t, function_type, c, glsl_std_id), ib, t, function_type, c, glsl_std_id), ib, t, function_type, c, glsl_std_id)[667]);
    assert(w[668] == cube_direction_part_8(cube_direction_part_7(cube_direction_part_6(cube_direction_part_5(cube_direction_part_4(cube_direction_part_3(cube_direction_part_2(cube_direction_part_1(cube_direction_part_0(Seq::empty(), ib, t, function_type, c, glsl_std_id), ib, t, function_type, c, glsl_std_id), ib, t, function_type, c, glsl_std_id), ib, t, function_type, c, glsl_std_id), ib, t, function_type, c, glsl_std_id), ib, t, function_type, c, glsl_std_id), ib, t, function_type, c, glsl_std_id), ib, t, function_type, c, glsl_std_id), ib, t, function_type, c, glsl_std_id)[668]);
    assert(w[669] == cube_direction_part_9(cube_direction_part_8(cube_direction_part_7(cube_direction_part_6(cube_direction_part_5(cube_direction_part_4(cube_direction_part_3(cube_direction_part_2(cube_direction_part_1(cube_direction_part_0(Seq::empty(), ib, t, function_type, c, glsl_std_id), ib, t, function_type, c, glsl_std_id), ib, t, function_type, c, glsl_std_id), ib, t, function_type, c, glsl_std_id), ib, t, function_type, c, glsl_std_id), ib, t, function_type, c, glsl_std_id), ib, t, function_type, c, glsl_std_id), ib, t, function_type, c, glsl_std_id), ib, t, function_type, c, glsl_std_id), ib, t, function_type, c, glsl_std_id)[669]);
    assert(w[670] == cube_direction_part_9(cube_direction_part_8(cube_direction_part_7(cube_direction_part_6(cube_direction_part_5(cube_direction_part_4(cube_direction_part_3(cube_direction_part_2(cube_direction_part_1(cube_direction_part_0(Seq::empty(), ib, t, function_type, c, glsl_std_id), ib, t, function_type, c, glsl_std_id), ib, t, function_type, c, glsl_std_id), ib, t, function_type, c, glsl_std_id), ib, t, function_type, c, glsl_std_id), ib, t, function_type, c, glsl_std_id), ib, t, function_type, c, glsl_std_id), ib, t, function_type, c, glsl_std_id), ib, t, function_type, c, glsl_std_id), ib, t, function_type, c, glsl_std_id)[670]);
    assert(w[671] == cube_direction_part_9(cube_direction_part_8(cube_direction_part_7(cube_direction_part_6(cube_direction_part_5(cube_direction_part_4(cube_direction_part_3(cube_direction_part_2(cube_direction_part_1(cube_direction_part_0(Seq::empty(), ib, t, function_type, c, glsl_std_id), ib, t, function_type, c, glsl_std_id), ib, t, function_type, c, glsl_std_id), ib, t, function_type, c, glsl_std_id), ib, t, function_type, c, glsl_std_id), ib, t, function_type, c, glsl_std_id), ib, t, function_type, c, glsl_std_id), ib, t, function_type, c, glsl_std_id), ib, t, function_type, c, glsl_std_id), ib, t, function_type, c, glsl_std_id)[671]);
    assert(w[672] == cube_direction_part_9(cube_direction_part_8(cube_direction_part_7(cube_direction_part_6(cube_direction_part_5(cube_direction_part_4(cube_direction_part_3(cube_direction_part_2(cube_direction_part_1(cube_direction_part_0(Seq::empty(), ib, t, function_type, c, glsl_std_id), ib, t, function_type, c, glsl_std_id), ib, t, function_type, c, glsl_std_id), ib, t, function_type, c, glsl_std_id), ib, t, function_type, c, glsl_std_id), ib, t, function_type, c, glsl_std_id), ib, t, function_type, c, glsl_std_id), ib, t, function_type, c, glsl_std_id), ib, t, function_type, c, glsl_std_id), ib, t, function_type, c, glsl_std_id)[672]);
    assert(w[673] == cube_direction_part_9(cube_direction_part_8(cube_direction_part_7(cube_direction_part_6(cube_direction_part_5(cube_direction_part_4(cube_direction_part_3(cube_direction_part_2(cube_direction_part_1(cube_direction_part_0(Seq::empty(), ib, t, function_type, c, glsl_std_id), ib, t, function_type, c, glsl_std_id), ib, t, function_type, c, glsl_std_id), ib, t, function_type, c, glsl_std_id), ib, t, function_type, c, glsl_std_id), ib, t, function_type, c, glsl_std_id), ib, t, function_type, c, glsl_std_id), ib, t, function_type, c, glsl_std_id), ib, t, function_type, c, glsl_std_id), ib, t, function_type, c, glsl_std_id)[673]);
}

#[verifier::spinoff_prover]
#[verifier::rlimit(60)]
proof fn lemma_cube_words_fin(
    ib: int,
    t: CubeDirectionTypeInputs,
    function_type: u32,
    c: CubeDirectionConstants,
    glsl_std_id: u32,
)
    ensures
        cube_direction_words(ib, t, function_type, c, glsl_std_id)[674] == spec_encode_word(2, spv::SPV_INSTRUCTION_OP_LABEL),
        cube_direction_words(ib, t, function_type, c, glsl_std_id)[675] == cid(ib, 67),
        cube_direction_words(ib, t, function_type, c, glsl_std_id)[676] == spec_encode_word(4, spv::SPV_INSTRUCTION_OP_LOAD),
        cube_direction_words(ib, t, function_type, c, glsl_std_id)[677] == t.v2int_id,
        cube_direction_words(ib, t, function_type, c, glsl_std_id)[678] == cid(ib, 131),
        cube_direction_words(ib, t, function_type, c, glsl_std_id)[679] == cid(ib, 10),
        cube_direction_words(ib, t, function_type, c, glsl_std_id)[680] == spec_encode_word(3, spv::SPV_INSTRUCTION_OP_STORE),
        cube_direction_words(ib, t, function_type, c, glsl_std_id)[681] == cid(ib, 9),
        cube_direction_words(ib, t, function_type, c, glsl_std_id)[682] == cid(ib, 131),
        cube_direction_words(ib, t, function_type, c, glsl_std_id)[683] == spec_encode_word(4, spv::SPV_INSTRUCTION_OP_LOAD),
        cube_direction_words(ib, t, function_type, c, glsl_std_id)[684] == t.v2int_id,
        cube_direction_words(ib, t, function_type, c, glsl_std_id)[685] == cid(ib, 132),
        cube_direction_words(ib, t, function_type, c, glsl_std_id)[686] == cid(ib, 9),
        cube_direction_words(ib, t, function_type, c, glsl_std_id)[687] == spec_encode_word(4, spv::SPV_INSTRUCTION_OP_LOAD),
        cube_direction_words(ib, t, function_type, c, glsl_std_id)[688] == t.int_id,
        cube_direction_words(ib, t, function_type, c, glsl_std_id)[689] == cid(ib, 133),
        cube_direction_words(ib, t, function_type, c, glsl_std_id)[690] == cid(ib, 6),
        cube_direction_words(ib, t, function_type, c, glsl_std_id)[691] == spec_encode_word(5, spv::SPV_INSTRUCTION_OP_COMPOSITE_EXTRACT),
        cube_direction_words(ib, t, function_type, c, glsl_std_id)[693] == cid(ib, 134),
        cube_direction_words(ib, t, function_type, c, glsl_std_id)[694] == cid(ib, 132),
        cube_direction_words(ib, t, function_type, c, glsl_std_id)[695] == 0,
        cube_direction_words(ib, t, function_type, c, glsl_std_id)[696] == spec_encode_word(5, spv::SPV_INSTRUCTION_OP_COMPOSITE_EXTRACT),
        cube_direction_words(ib, t, function_type, c, glsl_std_id)[698] == cid(ib, 135),
        cube_direction_words(ib, t, function_type, c, glsl_std_id)[699] == cid(ib, 132),
        cube_direction_words(ib, t, function_type, c, glsl_std_id)[700] == 1,
        cube_direction_words(ib, t, function_type, c, glsl_std_id)[701] == spec_encode_word(6, spv::SPV_INSTRUCTION_OP_COMPOSITE_CONSTRUCT),
        cube_direction_words(ib, t, function_type, c, glsl_std_id)[702] == t.v3int_id,
        cube_direction_words(ib, t, function_type, c, glsl_std_id)[703] == cid(ib, 136),
        cube_direction_words(ib, t, function_type, c, glsl_std_id)[704] == cid(ib, 134),
        cube_direction_words(ib, t, function_type, c, glsl_std_id)[705] == cid(ib, 135),
        cube_direction_words(ib, t, function_type, c, glsl_std_id)[706] == cid(ib, 133),
        cube_direction_words(ib, t, function_type, c, glsl_std_id)[707] == spec_encode_word(2, spv::SPV_INSTRUCTION_OP_RETURN_VALUE),
        cube_direction_words(ib, t, function_type, c, glsl_std_id)[708] == cid(ib, 136),
{
    lemma_cube_parts(ib, t, function_type, c, glsl_std_id);
    let w = cube_direction_words(ib, t, function_type, c, glsl_std_id);
    assert(w[674] == cube_direction_part_9(cube_direction_part_8(cube_direction_part_7(cube_direction_part_6(cube_direction_part_5(cube_direction_part_4(cube_direction_part_3(cube_direction_part_2(cube_direction_part_1(cube_direction_part_0(Seq::empty(), ib, t, function_type, c, glsl_std_id), ib, t, function_type, c, glsl_std_id), ib, t, function_type, c, glsl_std_id), ib, t, function_type, c, glsl_std_id), ib, t, function_type, c, glsl_std_id), ib, t, function_type, c, glsl_std_id), ib, t, function_type, c, glsl_std_id), ib, t, function_type, c, glsl_std_id), ib, t, function_type, c, glsl_std_id), ib, t, function_type, c, glsl_std_id)[674]);
    assert(w[675] == cube_direction_part_9(cube_direction_part_8(cube_direction_part_7(cube_direction_part_6(cube_direction_part_5(cube_direction_part_4(cube_direction_part_3(cube_direction_part_2(cube_direction_part_1(cube_direction_part_0(Seq::empty(), ib, t, function_type, c, glsl_std_id), ib, t, function_type, c, glsl_std_id), ib, t, function_type, c, glsl_std_id), ib, t, function_type, c, glsl_std_id), ib, t, function_type, c, glsl_std_id), ib, t, function_type, c, glsl_std_id), ib, t, function_type, c, glsl_std_id), ib, t, function_type, c, glsl_std_id), ib, t, function_type, c, glsl_std_id), ib, t, function_type, c, glsl_std_id)[675]);
    assert(w[676] == cube_direction_part_9(cube_direction_part_8(cube_direction_part_7(cube_direction_part_6(cube_direction_part_5(cube_direction_part_4(cube_direction_part_3(cube_direction_part_2(cube_direction_part_1(cube_direction_part_0(Seq::empty(), ib, t, function_type, c, glsl_std_id), ib, t, function_type, c, glsl_std_id), ib, t, function_type, c, glsl_std_id), ib, t, function_type, c, glsl_std_id), ib, t, function_type, c, glsl_std_id), ib, t, function_type, c, glsl_std_id), ib, t, function_type, c, glsl_std_id), ib, t, function_type, c, glsl_std_id), ib, t, function_type, c, glsl_std_id), ib, t, function_type, c, glsl_std_id)[676]);
    assert(w[677] == cube_direction_part_9(cube_direction_part_8(cube_direction_part_7(cube_direction_part_6(cube_direction_part_5(cube_direction_part_4(cube_direction_part_3(cube_direction_part_2(cube_direction_part_1(cube_direction_part_0(Seq::empty(), ib, t, function_type, c, glsl_std_id), ib, t, function_type, c, glsl_std_id), ib, t, function_type, c, glsl_std_id), ib, t, function_type, c, glsl_std_id), ib, t, function_type, c, glsl_std_id), ib, t, function_type, c, glsl_std_id), ib, t, function_type, c, glsl_std_id), ib, t, function_type, c, glsl_std_id), ib, t, function_type, c, glsl_std_id), ib, t, function_type, c, glsl_std_id)[677]);
    assert(w[678] == cube_direction_part_9(cube_direction_part_8(cube_direction_part_7(cube_direction_part_6(cube_direction_part_5(cube_direction_part_4(cube_direction_part_3(cube_direction_part_2(cube_direction_part_1(cube_direction_part_0(Seq::empty(), ib, t, function_type, c, glsl_std_id), ib, t, function_type, c, glsl_std_id), ib, t, function_type, c, glsl_std_id), ib, t, function_type, c, glsl_std_id), ib, t, function_type, c, glsl_std_id), ib, t, function_type, c, glsl_std_id), ib, t, function_type, c, glsl_std_id), ib, t, function_type, c, glsl_std_id), ib, t, function_type, c, glsl_std_id), ib, t, function_type, c, glsl_std_id)[678]);
    assert(w[679] == cube_direction_part_9(cube_direction_part_8(cube_direction_part_7(cube_direction_part_6(cube_direction_part_5(cube_direction_part_4(cube_direction_part_3(cube_direction_part_2(cube_direction_part_1(cube_direction_part_0(Seq::empty(), ib, t, function_type, c, glsl_std_id), ib, t, function_type, c, glsl_std_id), ib, t, function_type, c, glsl_std_id), ib, t, function_type, c, glsl_std_id), ib, t, function_type, c, glsl_std_id), ib, t, function_type, c, glsl_std_id), ib, t, function_type, c, glsl_std_id), ib, t, function_type, c, glsl_std_id), ib, t, function_type, c, glsl_std_id), ib, t, function_type, c, glsl_std_id)[679]);
    assert(w[680] == cube_direction_part_9(cube_direction_part_8(cube_direction_part_7(cube_direction_part_6(cube_direction_part_5(cube_direction_part_4(cube_direction_part_3(cube_direction_part_2(cube_direction_part_1(cube_direction_part_0(Seq::empty(), ib, t, function_type, c, glsl_std_id), ib, t, function_type, c, glsl_std_id), ib, t, function_type, c, glsl_std_id), ib, t, function_type, c, glsl_std_id), ib, t, function_type, c, glsl_std_id), ib, t, function_type, c, glsl_std_id), ib, t, function_type, c, glsl_std_id), ib, t, function_type, c, glsl_std_id), ib, t, function_type, c, glsl_std_id), ib, t, function_type, c, glsl_std_id)[680]);
    assert(w[681] == cube_direction_part_9(cube_direction_part_8(cube_direction_part_7(cube_direction_part_6(cube_direction_part_5(cube_direction_part_4(cube_direction_part_3(cube_direction_part_2(cube_direction_part_1(cube_direction_part_0(Seq::empty(), ib, t, function_type, c, glsl_std_id), ib, t, function_type, c, glsl_std_id), ib, t, function_type, c, glsl_std_id), ib, t, function_type, c, glsl_std_id), ib, t, function_type, c, glsl_std_id), ib, t, function_type, c, glsl_std_id), ib, t, function_type, c, glsl_std_id), ib, t, function_type, c, glsl_std_id), ib, t, function_type, c, glsl_std_id), ib, t, function_type, c, glsl_std_id)[681]);
    assert(w[682] == cube_direction_part_9(cube_direction_part_8(cube_direction_part_7(cube_direction_part_6(cube_direction_part_5(cube_direction_part_4(cube_direction_part_3(cube_direction_part_2(cube_direction_part_1(cube_direction_part_0(Seq::empty(), ib, t, function_type, c, glsl_std_id), ib, t, function_type, c, glsl_std_id), ib, t, function_type, c, glsl_std_id), ib, t, function_type, c, glsl_std_id), ib, t, function_type, c, glsl_std_id), ib, t, function_type, c, glsl_std_id), ib, t, function_type, c, glsl_std_id), ib, t, function_type, c, glsl_std_id), ib, t, function_type, c, glsl_std_id), ib, t, function_type, c, glsl_std_id)[682]);
    assert(w[683] == cube_direction_part_9(cube_direction_part_8(cube_direction_part_7(cube_direction_part_6(cube_direction_part_5(cube_direction_part_4(cube_direction_part_3(cube_direction_part_2(cube_direction_part_1(cube_direction_part_0(Seq::empty(), ib, t, function_type, c, glsl_std_id), ib, t, function_type, c, glsl_std_id), ib, t, function_type, c, glsl_std_id), ib, t, function_type, c, glsl_std_id), ib, t, function_type, c, glsl_std_id), ib, t, function_type, c, glsl_std_id), ib, t, function_type, c, glsl_std_id), ib, t, function_type, c, glsl_std_id), ib, t, function_type, c, glsl_std_id), ib, t, function_type, c, glsl_std_id)[683]);
    assert(w[684] == cube_direction_part_9(cube_direction_part_8(cube_direction_part_7(cube_direction_part_6(cube_direction_part_5(cube_direction_part_4(cube_direction_part_3(cube_direction_part_2(cube_direction_part_1(cube_direction_part_0(Seq::empty(), ib, t, function_type, c, glsl_std_id), ib, t, function_type, c, glsl_std_id), ib, t, function_type, c, glsl_std_id), ib, t, function_type, c, glsl_std_id), ib, t, function_type, c, glsl_std_id), ib, t, function_type, c, glsl_std_id), ib, t, function_type, c, glsl_std_id), ib, t, function_type, c, glsl_std_id), ib, t, function_type, c, glsl_std_id), ib, t, function_type, c, glsl_std_id)[684]);
    assert(w[685] == cube_direction_part_9(cube_direction_part_8(cube_direction_part_7(cube_direction_part_6(cube_direction_part_5(cube_direction_part_4(cube_direction_part_3(cube_direction_part_2(cube_direction_part_1(cube_direction_part_0(Seq::empty(), ib, t, function_type, c, glsl_std_id), ib, t, function_type, c, glsl_std_id), ib, t, function_type, c, glsl_std_id), ib, t, function_type, c, glsl_std_id), ib, t, function_type, c, glsl_std_id), ib, t, function_type, c, glsl_std_id), ib, t, function_type, c, glsl_std_id), ib, t, function_type, c, glsl_std_id), ib, t, function_type, c, glsl_std_id), ib, t, function_type, c, glsl_std_id)[685]);
    assert(w[686] == cube_direction_part_9(cube_direction_part_8(cube_direction_part_7(cube_direction_part_6(cube_direction_part_5(cube_direction_part_4(cube_direction_part_3(cube_direction_part_2(cube_direction_part_1(cube_direction_part_0(Seq::empty(), ib, t, function_type, c, glsl_std_id), ib, t, function_type, c, glsl_std_id), ib, t, function_type, c, glsl_std_id), ib, t, function_type, c, glsl_std_id), ib, t, function_type, c, glsl_std_id), ib, t, function_type, c, glsl_std_id), ib, t, function_type, c, glsl_std_id), ib, t, function_type, c, glsl_std_id), ib, t, function_type, c, glsl_std_id), ib, t, function_type, c, glsl_std_id)[686]);
    assert(w[687] == cube_direction_part_9(cube_direction_part_8(cube_direction_part_7(cube_direction_part_6(cube_direction_part_5(cube_direction_part_4(cube_direction_part_3(cube_direction_part_2(cube_direction_part_1(cube_direction_part_0(Seq::empty(), ib, t, function_type, c, glsl_std_id), ib, t, function_type, c, glsl_std_id), ib, t, function_type, c, glsl_std_id), ib, t, function_type, c, glsl_std_id), ib, t, function_type, c, glsl_std_id), ib, t, function_type, c, glsl_std_id), ib, t, function_type, c, glsl_std_id), ib, t, function_type, c, glsl_std_id), ib, t, function_type, c, glsl_std_id), ib, t, function_type, c, glsl_std_id)[687]);
    assert(w[688] == cube_direction_part_9(cube_direction_part_8(cube_direction_part_7(cube_direction_part_6(cube_direction_part_5(cube_direction_part_4(cube_direction_part_3(cube_direction_part_2(cube_direction_part_1(cube_direction_part_0(Seq::empty(), ib, t, function_type, c, glsl_std_id), ib, t, function_type, c, glsl_std_id), ib, t, function_type, c, glsl_std_id), ib, t, function_type, c, glsl_std_id), ib, t, function_type, c, glsl_std_id), ib, t, function_type, c, glsl_std_id), ib, t, function_type, c, glsl_std_id), ib, t, function_type, c, glsl_std_id), ib, t, function_type, c, glsl_std_id), ib, t, function_type, c, glsl_std_id)[688]);
    assert(w[689] == cube_direction_part_9(cube_direction_part_8(cube_direction_part_7(cube_direction_part_6(cube_direction_part_5(cube_direction_part_4(cube_direction_part_3(cube_direction_part_2(cube_direction_part_1(cube_direction_part_0(Seq::empty(), ib, t, function_type, c, glsl_std_id), ib, t, function_type, c, glsl_std_id), ib, t, function_type, c, glsl_std_id), ib, t, function_type, c, glsl_std_id), ib, t, function_type, c, glsl_std_id), ib, t, function_type, c, glsl_std_id), ib, t, function_type, c, glsl_std_id), ib, t, function_type, c, glsl_std_id), ib, t, function_type, c, glsl_std_id), ib, t, function_type, c, glsl_std_id)[689]);
    assert(w[690] == cube_direction_part_9(cube_direction_part_8(cube_direction_part_7(cube_direction_part_6(cube_direction_part_5(cube_direction_part_4(cube_direction_part_3(cube_direction_part_2(cube_direction_part_1(cube_direction_part_0(Seq::empty(), ib, t, function_type, c, glsl_std_id), ib, t, function_type, c, glsl_std_id), ib, t, function_type, c, glsl_std_id), ib, t, function_type, c, glsl_std_id), ib, t, function_type, c, glsl_std_id), ib, t, function_type, c, glsl_std_id), ib, t, function_type, c, glsl_std_id), ib, t, function_type, c, glsl_std_id), ib, t, function_type, c, glsl_std_id), ib, t, function_type, c, glsl_std_id)[690]);
    assert(w[691] == cube_direction_part_9(cube_direction_part_8(cube_direction_part_7(cube_direction_part_6(cube_direction_part_5(cube_direction_part_4(cube_direction_part_3(cube_direction_part_2(cube_direction_part_1(cube_direction_part_0(Seq::empty(), ib, t, function_type, c, glsl_std_id), ib, t, function_type, c, glsl_std_id), ib, t, function_type, c, glsl_std_id), ib, t, function_type, c, glsl_std_id), ib, t, function_type, c, glsl_std_id), ib, t, function_type, c, glsl_std_id), ib, t, function_type, c, glsl_std_id), ib, t, function_type, c, glsl_std_id), ib, t, function_type, c, glsl_std_id), ib, t, function_type, c, glsl_std_id)[691]);
    assert(w[693] == cube_direction_part_9(cube_direction_part_8(cube_direction_part_7(cube_direction_part_6(cube_direction_part_5(cube_direction_part_4(cube_direction_part_3(cube_direction_part_2(cube_direction_part_1(cube_direction_part_0(Seq::empty(), ib, t, function_type, c, glsl_std_id), ib, t, function_type, c, glsl_std_id), ib, t, function_type, c, glsl_std_id), ib, t, function_type, c, glsl_std_id), ib, t, function_type, c, glsl_std_id), ib, t, function_type, c, glsl_std_id), ib, t, function_type, c, glsl_std_id), ib, t, function_type, c, glsl_std_id), ib, t, function_type, c, glsl_std_id), ib, t, function_type, c, glsl_std_id)[693]);
    assert(w[694] == cube_direction_part_9(cube_direction_part_8(cube_direction_part_7(cube_direction_part_6(cube_direction_part_5(cube_direction_part_4(cube_direction_part_3(cube_direction_part_2(cube_direction_part_1(cube_direction_part_0(Seq::empty(), ib, t, function_type, c, glsl_std_id), ib, t, function_type, c, glsl_std_id), ib, t, function_type, c, glsl_std_id), ib, t, function_type, c, glsl_std_id), ib, t, function_type, c, glsl_std_id), ib, t, function_type, c, glsl_std_id), ib, t, function_type, c, glsl_std_id), ib, t, function_type, c, glsl_std_id), ib, t, function_type, c, glsl_std_id), ib, t, function_type, c, glsl_std_id)[694]);
    assert(w[695] == cube_direction_part_9(cube_direction_part_8(cube_direction_part_7(cube_direction_part_6(cube_direction_part_5(cube_direction_part_4(cube_direction_part_3(cube_direction_part_2(cube_direction_part_1(cube_direction_part_0(Seq::empty(), ib, t, function_type, c, glsl_std_id), ib, t, function_type, c, glsl_std_id), ib, t, function_type, c, glsl_std_id), ib, t, function_type, c, glsl_std_id), ib, t, function_type, c, glsl_std_id), ib, t, function_type, c, glsl_std_id), ib, t, function_type, c, glsl_std_id), ib, t, function_type, c, glsl_std_id), ib, t, function_type, c, glsl_std_id), ib, t, function_type, c, glsl_std_id)[695]);
    assert(w[696] == cube_direction_part_9(cube_direction_part_8(cube_direction_part_7(cube_direction_part_6(cube_direction_part_5(cube_direction_part_4(cube_direction_part_3(cube_direction_part_2(cube_direction_part_1(cube_direction_part_0(Seq::empty(), ib, t, function_type, c, glsl_std_id), ib, t, function_type, c, glsl_std_id), ib, t, function_type, c, glsl_std_id), ib, t, function_type, c, glsl_std_id), ib, t, function_type, c, glsl_std_id), ib, t, function_type, c, glsl_std_id), ib, t, function_type, c, glsl_std_id), ib, t, function_type, c, glsl_std_id), ib, t, function_type, c, glsl_std_id), ib, t, function_type, c, glsl_std_id)[696]);
    assert(w[698] == cube_direction_part_9(cube_direction_part_8(cube_direction_part_7(cube_direction_part_6(cube_direction_part_5(cube_direction_part_4(cube_direction_part_3(cube_direction_part_2(cube_direction_part_1(cube_direction_part_0(Seq::empty(), ib, t, function_type, c, glsl_std_id), ib, t, function_type, c, glsl_std_id), ib, t, function_type, c, glsl_std_id), ib, t, function_type, c, glsl_std_id), ib, t, function_type, c, glsl_std_id), ib, t, function_type, c, glsl_std_id), ib, t, function_type, c, glsl_std_id), ib, t, function_type, c, glsl_std_id), ib, t, function_type, c, glsl_std_id), ib, t, function_type, c, glsl_std_id)[698]);
    assert(w[699] == cube_direction_part_9(cube_direction_part_8(cube_direction_part_7(cube_direction_part_6(cube_direction_part_5(cube_direction_part_4(cube_direction_part_3(cube_direction_part_2(cube_direction_part_1(cube_direction_part_0(Seq::empty(), ib, t, function_type, c, glsl_std_id), ib, t, function_type, c, glsl_std_id), ib, t, function_type, c, glsl_std_id), ib, t, function_type, c, glsl_std_id), ib, t, function_type, c, glsl_std_id), ib, t, function_type, c, glsl_std_id), ib, t, function_type, c, glsl_std_id), ib, t, function_type, c, glsl_std_id), ib, t, function_type, c, glsl_std_id), ib, t, function_type, c, glsl_std_id)[699]);
    assert(w[700] == cube_direction_part_9(cube_direction_part_8(cube_direction_part_7(cube_direction_part_6(cube_direction_part_5(cube_direction_part_4(cube_direction_part_3(cube_direction_part_2(cube_direction_part_1(cube_direction_part_0(Seq::empty(), ib, t, function_type, c, glsl_std_id), ib, t, function_type, c, glsl_std_id), ib, t, function_type, c, glsl_std_id), ib, t, function_type, c, glsl_std_id), ib, t, function_type, c, glsl_std_id), ib, t, function_type, c, glsl_std_id), ib, t, function_type, c, glsl_std_id), ib, t, function_type, c, glsl_std_id), ib, t, function_type, c, glsl_std_id), ib, t, function_type, c, glsl_std_id)[700]);
    assert(w[701] == cube_direction_part_9(cube_direction_part_8(cube_direction_part_7(cube_direction_part_6(cube_direction_part_5(cube_direction_part_4(cube_direction_part_3(cube_direction_part_2(cube_direction_part_1(cube_direction_part_0(Seq::empty(), ib, t, function_type, c, glsl_std_id), ib, t, function_type, c, glsl_std_id), ib, t, function_type, c, glsl_std_id), ib, t, function_type, c, glsl_std_id), ib, t, function_type, c, glsl_std_id), ib, t, function_type, c, glsl_std_id), ib, t, function_type, c, glsl_std_id), ib, t, function_type, c, glsl_std_id), ib, t, function_type, c, glsl_std_id), ib, t, function_type, c, glsl_std_id)[701]);
    assert(w[702] == cube_direction_part_9(cube_direction_part_8(cube_direction_part_7(cube_direction_part_6(cube_direction_part_5(cube_direction_part_4(cube_direction_part_3(cube_direction_part_2(cube_direction_part_1(cube_direction_part_0(Seq::empty(), ib, t, function_type, c, glsl_std_id), ib, t, function_type, c, glsl_std_id), ib, t, function_type, c, glsl_std_id), ib, t, function_type, c, glsl_std_id), ib, t, function_type, c, glsl_std_id), ib, t, function_type, c, glsl_std_id), ib, t, function_type, c, glsl_std_id), ib, t, function_type, c, glsl_std_id), ib, t, function_type, c, glsl_std_id), ib, t, function_type, c, glsl_std_id)[702]);
    assert(w[703] == cube_direction_part_9(cube_direction_part_8(cube_direction_part_7(cube_direction_part_6(cube_direction_part_5(cube_direction_part_4(cube_direction_part_3(cube_direction_part_2(cube_direction_part_1(cube_direction_part_0(Seq::empty(), ib, t, function_type, c, glsl_std_id), ib, t, function_type, c, glsl_std_id), ib, t, function_type, c, glsl_std_id), ib, t, function_type, c, glsl_std_id), ib, t, function_type, c, glsl_std_id), ib, t, function_type, c, glsl_std_id), ib, t, function_type, c, glsl_std_id), ib, t, function_type, c, glsl_std_id), ib, t, function_type, c, glsl_std_id), ib, t, function_type, c, glsl_std_id)[703]);
    assert(w[704] == cube_direction_part_9(cube_direction_part_8(cube_direction_part_7(cube_direction_part_6(cube_direction_part_5(cube_direction_part_4(cube_direction_part_3(cube_direction_part_2(cube_direction_part_1(cube_direction_part_0(Seq::empty(), ib, t, function_type, c, glsl_std_id), ib, t, function_type, c, glsl_std_id), ib, t, function_type, c, glsl_std_id), ib, t, function_type, c, glsl_std_id), ib, t, function_type, c, glsl_std_id), ib, t, function_type, c, glsl_std_id), ib, t, function_type, c, glsl_std_id), ib, t, function_type, c, glsl_std_id), ib, t, function_type, c, glsl_std_id), ib, t, function_type, c, glsl_std_id)[704]);
    assert(w[705] == cube_direction_part_9(cube_direction_part_8(cube_direction_part_7(cube_direction_part_6(cube_direction_part_5(cube_direction_part_4(cube_direction_part_3(cube_direction_part_2(cube_direction_part_1(cube_direction_part_0(Seq::empty(), ib, t, function_type, c, glsl_std_id), ib, t, function_type, c, glsl_std_id), ib, t, function_type, c, glsl_std_id), ib, t, function_type, c, glsl_std_id), ib, t, function_type, c, glsl_std_id), ib, t, function_type, c, glsl_std_id), ib, t, function_type, c, glsl_std_id), ib, t, function_type, c, glsl_std_id), ib, t, function_type, c, glsl_std_id), ib, t, function_type, c, glsl_std_id)[705]);
    assert(w[706] == cube_direction_part_9(cube_direction_part_8(cube_direction_part_7(cube_direction_part_6(cube_direction_part_5(cube_direction_part_4(cube_direction_part_3(cube_direction_part_2(cube_direction_part_1(cube_direction_part_0(Seq::empty(), ib, t, function_type, c, glsl_std_id), ib, t, function_type, c, glsl_std_id), ib, t, function_type, c, glsl_std_id), ib, t, function_type, c, glsl_std_id), ib, t, function_type, c, glsl_std_id), ib, t, function_type, c, glsl_std_id), ib, t, function_type, c, glsl_std_id), ib, t, function_type, c, glsl_std_id), ib, t, function_type, c, glsl_std_id), ib, t, function_type, c, glsl_std_id)[706]);
    assert(w[707] == cube_direction_part_9(cube_direction_part_8(cube_direction_part_7(cube_direction_part_6(cube_direction_part_5(cube_direction_part_4(cube_direction_part_3(cube_direction_part_2(cube_direction_part_1(cube_direction_part_0(Seq::empty(), ib, t, function_type, c, glsl_std_id), ib, t, function_type, c, glsl_std_id), ib, t, function_type, c, glsl_std_id), ib, t, function_type, c, glsl_std_id), ib, t, function_type, c, glsl_std_id), ib, t, function_type, c, glsl_std_id), ib, t, function_type, c, glsl_std_id), ib, t, function_type, c, glsl_std_id), ib, t, function_type, c, glsl_std_id), ib, t, function_type, c, glsl_std_id)[707]);
    assert(w[708] == cube_direction_part_9(cube_direction_part_8(cube_direction_part_7(cube_direction_part_6(cube_direction_part_5(cube_direction_part_4(cube_direction_part_3(cube_direction_part_2(cube_direction_part_1(cube_direction_part_0(Seq::empty(), ib, t, function_type, c, glsl_std_id), ib, t, function_type, c, glsl_std_id), ib, t, function_type, c, glsl_std_id), ib, t, function_type, c, glsl_std_id), ib, t, function_type, c, glsl_std_id), ib, t, function_type, c, glsl_std_id), ib, t, function_type, c, glsl_std_id), ib, t, function_type, c, glsl_std_id), ib, t, function_type, c, glsl_std_id), ib, t, function_type, c, glsl_std_id)[708]);
}

#[verifier::spinoff_prover]
#[verifier::rlimit(60)]
proof fn lemma_cube_run_entry(w: Seq<u32>, labels: Map<u32, int>, ib: int, t: CubeDirectionTypeInputs,
    c: CubeDirectionConstants, g: CfgFrame, xb: u32, yb: u32, zb: u32, n: nat, stop: int) -> (h: CfgFrame)
    requires
        0 <= ib,
        ib + 137 <= u32::MAX,
        w.len() == 710,
        labels == cube_labels(ib),
        n >= 24,
        stop >= 334,
        w[0] == spec_encode_word(5, spv::SPV_INSTRUCTION_OP_FUNCTION),
        w[5] == spec_encode_word(3, spv::SPV_INSTRUCTION_OP_FUNCTION_PARAMETER),
        w[7] == cid(ib, 1),
        w[8] == spec_encode_word(2, spv::SPV_INSTRUCTION_OP_LABEL),
        w[9] == cid(ib, 2),
        w[10] == spec_encode_word(4, spv::SPV_INSTRUCTION_OP_VARIABLE),
        w[12] == cid(ib, 3),
        w[14] == spec_encode_word(4, spv::SPV_INSTRUCTION_OP_VARIABLE),
        w[16] == cid(ib, 4),
        w[18] == spec_encode_word(4, spv::SPV_INSTRUCTION_OP_VARIABLE),
        w[20] == cid(ib, 5),
        w[22] == spec_encode_word(4, spv::SPV_INSTRUCTION_OP_VARIABLE),
        w[24] == cid(ib, 6),
        w[26] == spec_encode_word(4, spv::SPV_INSTRUCTION_OP_VARIABLE),
        w[28] == cid(ib, 7),
        w[30] == spec_encode_word(4, spv::SPV_INSTRUCTION_OP_VARIABLE),
        w[32] == cid(ib, 8),
        w[34] == spec_encode_word(4, spv::SPV_INSTRUCTION_OP_VARIABLE),
        w[36] == cid(ib, 9),
        w[38] == spec_encode_word(4, spv::SPV_INSTRUCTION_OP_VARIABLE),
        w[40] == cid(ib, 10),
        w[42] == spec_encode_word(4, spv::SPV_INSTRUCTION_OP_VARIABLE),
        w[44] == cid(ib, 11),
        w[46] == spec_encode_word(4, spv::SPV_INSTRUCTION_OP_VARIABLE),
        w[48] == cid(ib, 12),
        w[50] == spec_encode_word(4, spv::SPV_INSTRUCTION_OP_VARIABLE),
        w[52] == cid(ib, 13),
        w[54] == spec_encode_word(4, spv::SPV_INSTRUCTION_OP_VARIABLE),
        w[56] == cid(ib, 14),
        w[58] == spec_encode_word(4, spv::SPV_INSTRUCTION_OP_LOAD),
        w[59] == t.v3int_id,
        w[60] == cid(ib, 15),
        w[61] == cid(ib, 1),
        w[62] == spec_encode_word(6, spv::SPV_INSTRUCTION_OP_EXT_INST),
        w[64] == cid(ib, 16),
        w[66] == spv::SPV_GLSL_STD_INSTRUCTION_SABS,
        w[67] == cid(ib, 15),
        w[68] == spec_encode_word(3, spv::SPV_INSTRUCTION_OP_STORE),
        w[69] == cid(ib, 3),
        w[70] == cid(ib, 16),
        w[71] == spec_encode_word(5, spv::SPV_INSTRUCTION_OP_ACCESS_CHAIN),
        w[73] == cid(ib, 17),
        w[74] == cid(ib, 3),
        w[75] == c.int_0,
        w[76] == spec_encode_word(4, spv::SPV_INSTRUCTION_OP_LOAD),
        w[77] == t.int_id,
        w[78] == cid(ib, 18),
        w[79] == cid(ib, 17),
        w[80] == spec_encode_word(5, spv::SPV_INSTRUCTION_OP_ACCESS_CHAIN),
        w[82] == cid(ib, 19),
        w[83] == cid(ib, 3),
        w[84] == c.int_1,
        w[85] == spec_encode_word(4, spv::SPV_INSTRUCTION_OP_LOAD),
        w[86] == t.int_id,
        w[87] == cid(ib, 20),
        w[88] == cid(ib, 19),
        w[89] == spec_encode_word(5, spv::SPV_INSTRUCTION_OP_S_GREATER_THAN_EQUAL),
        w[91] == cid(ib, 21),
        w[92] == cid(ib, 18),
        w[93] == cid(ib, 20),
        w[94] == spec_encode_word(3, spv::SPV_INSTRUCTION_OP_SELECTION_MERGE),
        g.vecs == Map::<u32, Seq<int>>::empty(),
        g.f.mem.contains_key((cid(ib, 1), 0int)) && g.f.mem[(cid(ib, 1), 0int)] == xb as int,
        g.f.mem.contains_key((cid(ib, 1), 1int)) && g.f.mem[(cid(ib, 1), 1int)] == yb as int,
        g.f.mem.contains_key((cid(ib, 1), 2int)) && g.f.mem[(cid(ib, 1), 2int)] == zb as int,
        cube_constants_hold(g.f.vals, c),
        cube_ids_apart(ib, c),
        g.vec_len == cube_vec_len(t),
        cube_types_apart(t),
    ensures
        run_cfg(w, labels, 0, g, n, stop) == run_cfg(w, labels, 97, h, (n - 24) as nat, stop),
        cube_inv(ib, t, c, h, xb, yb, zb),
        h.f.vals.contains_key(cid(ib, 21)) && h.f.vals[cid(ib, 21)] == flag(signed(abs_bits(xb as int)) >= signed(abs_bits(yb as int))),
        h.cur == cid(ib, 2),
{
    crate::util::lemma_split_encode(5, spv::SPV_INSTRUCTION_OP_FUNCTION);
    lemma_cfg_step(w, labels, 0, g, (n - 0) as nat, stop);
    let st1 = exec_cfg(w, 0, spv::SPV_INSTRUCTION_OP_FUNCTION as int, g)->Some_0;
    crate::util::lemma_split_encode(3, spv::SPV_INSTRUCTION_OP_FUNCTION_PARAMETER);
    lemma_cfg_step(w, labels, 5, st1, (n - 1) as nat, stop);
    let st2 = exec_cfg(w, 5, spv::SPV_INSTRUCTION_OP_FUNCTION_PARAMETER as int, st1)->Some_0;
    crate::util::lemma_split_encode(2, spv::SPV_INSTRUCTION_OP_LABEL);
    lemma_cfg_step(w, labels, 8, st2, (n - 2) as nat, stop);
    let st3 = exec_cfg(w, 8, spv::SPV_INSTRUCTION_OP_LABEL as int, st2)->Some_0;
    crate::util::lemma_split_encode(4, spv::SPV_INSTRUCTION_OP_VARIABLE);
    lemma_cfg_step(w, labels, 10, st3, (n - 3) as nat, stop);
    let st4 = exec_cfg(w, 10, spv::SPV_INSTRUCTION_OP_VARIABLE as int, st3)->Some_0;
    crate::util::lemma_split_encode(4, spv::SPV_INSTRUCTION_OP_VARIABLE);
    lemma_cfg_step(w, labels, 14, st4, (n - 4) as nat, stop);
    let st5 = exec_cfg(w, 14, spv::SPV_INSTRUCTION_OP_VARIABLE as int, st4)->Some_0;
    crate::util::lemma_split_encode(4, spv::SPV_INSTRUCTION_OP_VARIABLE);
    lemma_cfg_step(w, labels, 18, st5, (n - 5) as nat, stop);
    let st6 = exec_cfg(w, 18, spv::SPV_INSTRUCTION_OP_VARIABLE as int, st5)->Some_0;
    crate::util::lemma_split_encode(4, spv::SPV_INSTRUCTION_OP_VARIABLE);
    lemma_cfg_step(w, labels, 22, st6, (n - 6) as nat, stop);
    let st7 = exec_cfg(w, 22, spv::SPV_INSTRUCTION_OP_VARIABLE as int, st6)->Some_0;
    crate::util::lemma_split_encode(4, spv::SPV_INSTRUCTION_OP_VARIABLE);
    lemma_cfg_step(w, labels, 26, st7, (n - 7) as nat, stop);
    let st8 = exec_cfg(w, 26, spv::SPV_INSTRUCTION_OP_VARIABLE as int, st7)->Some_0;
    crate::util::lemma_split_encode(4, spv::SPV_INSTRUCTION_OP_VARIABLE);
    lemma_cfg_step(w, labels, 30, st8, (n - 8) as nat, stop);
    let st9 = exec_cfg(w, 30, spv::SPV_INSTRUCTION_OP_VARIABLE as int, st8)->Some_0;
    crate::util::lemma_split_encode(4, spv::SPV_INSTRUCTION_OP_VARIABLE);
    lemma_cfg_step(w, labels, 34, st9, (n - 9) as nat, stop);
    let st10 = exec_cfg(w, 34, spv::SPV_INSTRUCTION_OP_VARIABLE as int, st9)->Some_0;
    crate::util::lemma_split_encode(4, spv::SPV_INSTRUCTION_OP_VARIABLE);
    lemma_cfg_step(w, labels, 38, st10, (n - 10) as nat, stop);
    let st11 = exec_cfg(w, 38, spv::SPV_INSTRUCTION_OP_VARIABLE as int, st10)->Some_0;
    crate::util::lemma_split_encode(4, spv::SPV_INSTRUCTION_OP_VARIABLE);
    lemma_cfg_step(w, labels, 42, st11, (n - 11) as nat, stop);
    let st12 = exec_cfg(w, 42, spv::SPV_INSTRUCTION_OP_VARIABLE as int, st11)->Some_0;
    crate::util::lemma_split_encode(4, spv::SPV_INSTRUCTION_OP_VARIABLE);
    lemma_cfg_step(w, labels, 46, st12, (n - 12) as nat, stop);
    let st13 = exec_cfg(w, 46, spv::SPV_INSTRUCTION_OP_VARIABLE as int, st12)->Some_0;
    crate::util::lemma_split_encode(4, spv::SPV_INSTRUCTION_OP_VARIABLE);
    lemma_cfg_step(w, labels, 50, st13, (n - 13) as nat, stop);
    let st14 = exec_cfg(w, 50, spv::SPV_INSTRUCTION_OP_VARIABLE as int, st13)->Some_0;
    crate::util::lemma_split_encode(4, spv::SPV_INSTRUCTION_OP_VARIABLE);
    lemma_cfg_step(w, labels, 54, st14, (n - 14) as nat, stop);
    let st15 = exec_cfg(w, 54, spv::SPV_INSTRUCTION_OP_VARIABLE as int, st14)->Some_0;
    crate::util::lemma_split_encode(4, spv::SPV_INSTRUCTION_OP_LOAD);
    assert forall|k: int| 0 <= k < 3 implies #[trigger] st15.f.mem.contains_key((cid(ib, 1), k)) by {
        if k == 0 {} else if k == 1 {} else {}
    }
    lemma_cfg_step(w, labels, 58, st15, (n - 15) as nat, stop);
    let st16 = exec_cfg(w, 58, spv::SPV_INSTRUCTION_OP_LOAD as int, st15)->Some_0;
    crate::util::lemma_split_encode(6, spv::SPV_INSTRUCTION_OP_EXT_INST);
    lemma_cfg_step(w, labels, 62, st16, (n - 16) as nat, stop);
    let st17 = exec_cfg(w, 62, spv::SPV_INSTRUCTION_OP_EXT_INST as int, st16)->Some_0;
    crate::util::lemma_split_encode(3, spv::SPV_INSTRUCTION_OP_STORE);
    lemma_cfg_step(w, labels, 68, st17, (n - 17) as nat, stop);
    let st18 = exec_cfg(w, 68, spv::SPV_INSTRUCTION_OP_STORE as int, st17)->Some_0;
    crate::util::lemma_split_encode(5, spv::SPV_INSTRUCTION_OP_ACCESS_CHAIN);
    lemma_cfg_step(w, labels, 71, st18, (n - 18) as nat, stop);
    let st19 = exec_cfg(w, 71, spv::SPV_INSTRUCTION_OP_ACCESS_CHAIN as int, st18)->Some_0;
    crate::util::lemma_split_encode(4, spv::SPV_INSTRUCTION_OP_LOAD);
    lemma_cfg_step(w, labels, 76, st19, (n - 19) as nat, stop);
    let st20 = exec_cfg(w, 76, spv::SPV_INSTRUCTION_OP_LOAD as int, st19)->Some_0;
    crate::util::lemma_split_encode(5, spv::SPV_INSTRUCTION_OP_ACCESS_CHAIN);
    lemma_cfg_step(w, labels, 80, st20, (n - 20) as nat, stop);
    let st21 = exec_cfg(w, 80, spv::SPV_INSTRUCTION_OP_ACCESS_CHAIN as int, st20)->Some_0;
    crate::util::lemma_split_encode(4, spv::SPV_INSTRUCTION_OP_LOAD);
    lemma_cfg_step(w, labels, 85, st21, (n - 21) as nat, stop);
    let st22 = exec_cfg(w, 85, spv::SPV_INSTRUCTION_OP_LOAD as int, st21)->Some_0;
    crate::util::lemma_split_encode(5, spv::SPV_INSTRUCTION_OP_S_GREATER_THAN_EQUAL);
    lemma_cfg_step(w, labels, 89, st22, (n - 22) as nat, stop);
    let st23 = exec_cfg(w, 89, spv::SPV_INSTRUCTION_OP_S_GREATER_THAN_EQUAL as int, st22)->Some_0;
    crate::util::lemma_split_encode(3, spv::SPV_INSTRUCTION_OP_SELECTION_MERGE);
    lemma_cfg_step(w, labels, 94, st23, (n - 23) as nat, stop);
    let st24 = exec_cfg(w, 94, spv::SPV_INSTRUCTION_OP_SELECTION_MERGE as int, st23)->Some_0;
    st24
}

#[verifier::spinoff_prover]
#[verifier::rlimit(60)]
proof fn lemma_cube_run_x_vs_z(w: Seq<u32>, labels: Map<u32, int>, ib: int, t: CubeDirectionTypeInputs,
    c: CubeDirectionConstants, g: CfgFrame, xb: u32, yb: u32, zb: u32, n: nat, stop: int) -> (h: CfgFrame)
    requires
        0 <= ib,
        ib + 137 <= u32::MAX,
        w.len() == 710,
        labels == cube_labels(ib),
        n >= 7,
        stop >= 334,
        w[101] == spec_encode_word(2, spv::SPV_INSTRUCTION_OP_LABEL),
        w[102] == cid(ib, 23),
        w[103] == spec_encode_word(5, spv::SPV_INSTRUCTION_OP_ACCESS_CHAIN),
        w[105] == cid(ib, 24),
        w[106] == cid(ib, 3),
        w[107] == c.int_0,
        w[108] == spec_encode_word(4, spv::SPV_INSTRUCTION_OP_LOAD),
        w[109] == t.int_id,
        w[110] == cid(ib, 25),
        w[111] == cid(ib, 24),
        w[112] == spec_encode_word(5, spv::SPV_INSTRUCTION_OP_ACCESS_CHAIN),
        w[114] == cid(ib, 26),
        w[115] == cid(ib, 3),
        w[116] == c.int_2,
        w[117] == spec_encode_word(4, spv::SPV_INSTRUCTION_OP_LOAD),
        w[118] == t.int_id,
        w[119] == cid(ib, 27),
        w[120] == cid(ib, 26),
        w[121] == spec_encode_word(5, spv::SPV_INSTRUCTION_OP_S_GREATER_THAN_EQUAL),
        w[123] == cid(ib, 28),
        w[124] == cid(ib, 25),
        w[125] == cid(ib, 27),
        w[126] == spec_encode_word(2, spv::SPV_INSTRUCTION_OP_BRANCH),
        w[127] == cid(ib, 22),
        cube_inv(ib, t, c, g, xb, yb, zb),
        g.f.vals.contains_key(cid(ib, 21)),
    ensures
        run_cfg(w, labels, 101, g, n, stop) == run_cfg(w, labels, 128, h, (n - 7) as nat, stop),
        cube_inv(ib, t, c, h, xb, yb, zb),
        h.f.vals.contains_key(cid(ib, 21)) && h.f.vals[cid(ib, 21)] == g.f.vals[cid(ib, 21)],
        h.f.vals.contains_key(cid(ib, 28)) && h.f.vals[cid(ib, 28)] == flag(signed(abs_bits(xb as int)) >= signed(abs_bits(zb as int))),
        h.prev == cid(ib, 23),
{
    crate::util::lemma_split_encode(2, spv::SPV_INSTRUCTION_OP_LABEL);
    lemma_cfg_step(w, labels, 101, g, (n - 0) as nat, stop);
    let st1 = exec_cfg(w, 101, spv::SPV_INSTRUCTION_OP_LABEL as int, g)->Some_0;
    crate::util::lemma_split_encode(5, spv::SPV_INSTRUCTION_OP_ACCESS_CHAIN);
    lemma_cfg_step(w, labels, 103, st1, (n - 1) as nat, stop);
    let st2 = exec_cfg(w, 103, spv::SPV_INSTRUCTION_OP_ACCESS_CHAIN as int, st1)->Some_0;
    crate::util::lemma_split_encode(4, spv::SPV_INSTRUCTION_OP_LOAD);
    lemma_cfg_step(w, labels, 108, st2, (n - 2) as nat, stop);
    let st3 = exec_cfg(w, 108, spv::SPV_INSTRUCTION_OP_LOAD as int, st2)->Some_0;
    crate::util::lemma_split_encode(5, spv::SPV_INSTRUCTION_OP_ACCESS_CHAIN);
    lemma_cfg_step(w, labels, 112, st3, (n - 3) as nat, stop);
    let st4 = exec_cfg(w, 112, spv::SPV_INSTRUCTION_OP_ACCESS_CHAIN as int, st3)->Some_0;
    crate::util::lemma_split_encode(4, spv::SPV_INSTRUCTION_OP_LOAD);
    lemma_cfg_step(w, labels, 117, st4, (n - 4) as nat, stop);
    let st5 = exec_cfg(w, 117, spv::SPV_INSTRUCTION_OP_LOAD as int, st4)->Some_0;
    crate::util::lemma_split_encode(5, spv::SPV_INSTRUCTION_OP_S_GREATER_THAN_EQUAL);
    lemma_cfg_step(w, labels, 121, st5, (n - 5) as nat, stop);
    let st6 = exec_cfg(w, 121, spv::SPV_INSTRUCTION_OP_S_GREATER_THAN_EQUAL as int, st5)->Some_0;
    crate::util::lemma_split_encode(2, spv::SPV_INSTRUCTION_OP_BRANCH);
    lemma_cfg_branch(w, labels, 126, st6, (n - 6) as nat, stop);
    let st7 = CfgFrame { prev: st6.cur, ..st6 };
    st7
}

#[verifier::spinoff_prover]
#[verifier::rlimit(60)]
proof fn lemma_cube_run_x_flag(w: Seq<u32>, labels: Map<u32, int>, ib: int, t: CubeDirectionTypeInputs,
    c: CubeDirectionConstants, g: CfgFrame, xb: u32, yb: u32, zb: u32, n: nat, stop: int) -> (h: CfgFrame)
    requires
        0 <= ib,
        ib + 137 <= u32::MAX,
        w.len() == 710,
        labels == cube_labels(ib),
        n >= 9,
        stop >= 334,
        w[128] == spec_encode_word(2, spv::SPV_INSTRUCTION_OP_LABEL),
        w[129] == cid(ib, 22),
        w[130] == spec_encode_word(7, spv::SPV_INSTRUCTION_OP_PHI),
        w[132] == cid(ib, 29),
        w[133] == cid(ib, 21),
        w[134] == cid(ib, 2),
        w[135] == cid(ib, 28),
        w[136] == cid(ib, 23),
        w[137] == spec_encode_word(3, spv::SPV_INSTRUCTION_OP_STORE),
        w[138] == cid(ib, 4),
        w[139] == cid(ib, 29),
        w[140] == spec_encode_word(5, spv::SPV_INSTRUCTION_OP_ACCESS_CHAIN),
        w[142] == cid(ib, 30),
        w[143] == cid(ib, 3),
        w[144] == c.int_1,
        w[145] == spec_encode_word(4, spv::SPV_INSTRUCTION_OP_LOAD),
        w[146] == t.int_id,
        w[147] == cid(ib, 31),
        w[148] == cid(ib, 30),
        w[149] == spec_encode_word(5, spv::SPV_INSTRUCTION_OP_ACCESS_CHAIN),
        w[151] == cid(ib, 32),
        w[152] == cid(ib, 3),
        w[153] == c.int_0,
        w[154] == spec_encode_word(4, spv::SPV_INSTRUCTION_OP_LOAD),
        w[155] == t.int_id,
        w[156] == cid(ib, 33),
        w[157] == cid(ib, 32),
        w[158] == spec_encode_word(5, spv::SPV_INSTRUCTION_OP_S_GREATER_THAN),
        w[160] == cid(ib, 34),
        w[161] == cid(ib, 31),
        w[162] == cid(ib, 33),
        w[163] == spec_encode_word(3, spv::SPV_INSTRUCTION_OP_SELECTION_MERGE),
        cube_inv(ib, t, c, g, xb, yb, zb),
        (g.prev == cid(ib, 2) && g.f.vals.contains_key(cid(ib, 21))) || (g.prev == cid(ib, 23) && g.f.vals.contains_key(cid(ib, 28))),
    ensures
        run_cfg(w, labels, 128, g, n, stop) == run_cfg(w, labels, 166, h, (n - 9) as nat, stop),
        cube_inv(ib, t, c, h, xb, yb, zb),
        h.f.mem.contains_key((cid(ib, 4), -1int)) && h.f.mem[(cid(ib, 4), -1int)] == if g.prev == cid(ib, 2) { g.f.vals[cid(ib, 21)] } else { g.f.vals[cid(ib, 28)] },
        h.f.vals.contains_key(cid(ib, 34)) && h.f.vals[cid(ib, 34)] == flag(signed(abs_bits(yb as int)) > signed(abs_bits(xb as int))),
        h.cur == cid(ib, 22),
{
    crate::util::lemma_split_encode(2, spv::SPV_INSTRUCTION_OP_LABEL);
    lemma_cfg_step(w, labels, 128, g, (n - 0) as nat, stop);
    let st1 = exec_cfg(w, 128, spv::SPV_INSTRUCTION_OP_LABEL as int, g)->Some_0;
    crate::util::lemma_split_encode(7, spv::SPV_INSTRUCTION_OP_PHI);
    lemma_cfg_step(w, labels, 130, st1, (n - 1) as nat, stop);
    let st2 = exec_cfg(w, 130, spv::SPV_INSTRUCTION_OP_PHI as int, st1)->Some_0;
    crate::util::lemma_split_encode(3, spv::SPV_INSTRUCTION_OP_STORE);
    lemma_cfg_step(w, labels, 137, st2, (n - 2) as nat, stop);
    let st3 = exec_cfg(w, 137, spv::SPV_INSTRUCTION_OP_STORE as int, st2)->Some_0;
    crate::util::lemma_split_encode(5, spv::SPV_INSTRUCTION_OP_ACCESS_CHAIN);
    lemma_cfg_step(w, labels, 140, st3, (n - 3) as nat, stop);
    let st4 = exec_cfg(w, 140, spv::SPV_INSTRUCTION_OP_ACCESS_CHAIN as int, st3)->Some_0;
    crate::util::lemma_split_encode(4, spv::SPV_INSTRUCTION_OP_LOAD);
    lemma_cfg_step(w, labels, 145, st4, (n - 4) as nat, stop);
    let st5 = exec_cfg(w, 145, spv::SPV_INSTRUCTION_OP_LOAD as int, st4)->Some_0;
    crate::util::lemma_split_encode(5, spv::SPV_INSTRUCTION_OP_ACCESS_CHAIN);
    lemma_cfg_step(w, labels, 149, st5, (n - 5) as nat, stop);
    let st6 = exec_cfg(w, 149, spv::SPV_INSTRUCTION_OP_ACCESS_CHAIN as int, st5)->Some_0;
    crate::util::lemma_split_encode(4, spv::SPV_INSTRUCTION_OP_LOAD);
    lemma_cfg_step(w, labels, 154, st6, (n - 6) as nat, stop);
    let st7 = exec_cfg(w, 154, spv::SPV_INSTRUCTION_OP_LOAD as int, st6)->Some_0;
    crate::util::lemma_split_encode(5, spv::SPV_INSTRUCTION_OP_S_GREATER_THAN);
    lemma_cfg_step(w, labels, 158, st7, (n - 7) as nat, stop);
    let st8 = exec_cfg(w, 158, spv::SPV_INSTRUCTION_OP_S_GREATER_THAN as int, st7)->Some_0;
    crate::util::lemma_split_encode(3, spv::SPV_INSTRUCTION_OP_SELECTION_MERGE);
    lemma_cfg_step(w, labels, 163, st8, (n - 8) as nat, stop);
    let st9 = exec_cfg(w, 163, spv::SPV_INSTRUCTION_OP_SELECTION_MERGE as int, st8)->Some_0;
    st9
}

#[verifier::spinoff_prover]
#[verifier::rlimit(60)]
proof fn lemma_cube_run_y_vs_z(w: Seq<u32>, labels: Map<u32, int>, ib: int, t: CubeDirectionTypeInputs,
    c: CubeDirectionConstants, g: CfgFrame, xb: u32, yb: u32, zb: u32, n: nat, stop: int) -> (h: CfgFrame)
    requires
        0 <= ib,
        ib + 137 <= u32::MAX,
        w.len() == 710,
        labels == cube_labels(ib),
        n >= 7,
        stop >= 334,
        w[170] == spec_encode_word(2, spv::SPV_INSTRUCTION_OP_LABEL),
        w[171] == cid(ib, 36),
        w[172] == spec_encode_word(5, spv::SPV_INSTRUCTION_OP_ACCESS_CHAIN),
        w[174] == cid(ib, 37),
        w[175] == cid(ib, 3),
        w[176] == c.int_1,
        w[177] == spec_encode_word(4, spv::SPV_INSTRUCTION_OP_LOAD),
        w[178] == t.int_id,
        w[179] == cid(ib, 38),
        w[180] == cid(ib, 37),
        w[181] == spec_encode_word(5, spv::SPV_INSTRUCTION_OP_ACCESS_CHAIN),
        w[183] == cid(ib, 39),
        w[184] == cid(ib, 3),
        w[185] == c.int_2,
        w[186] == spec_encode_word(4, spv::SPV_INSTRUCTION_OP_LOAD),
        w[187] == t.int_id,
        w[188] == cid(ib, 40),
        w[189] == cid(ib, 39),
        w[190] == spec_encode_word(5, spv::SPV_INSTRUCTION_OP_S_GREATER_THAN_EQUAL),
        w[192] == cid(ib, 41),
        w[193] == cid(ib, 38),
        w[194] == cid(ib, 40),
        w[195] == spec_encode_word(2, spv::SPV_INSTRUCTION_OP_BRANCH),
        w[196] == cid(ib, 35),
        cube_inv(ib, t, c, g, xb, yb, zb),
        g.f.mem.contains_key((cid(ib, 4), -1int)),
        g.f.vals.contains_key(cid(ib, 34)),
    ensures
        run_cfg(w, labels, 170, g, n, stop) == run_cfg(w, labels, 197, h, (n - 7) as nat, stop),
        cube_inv(ib, t, c, h, xb, yb, zb),
        h.f.mem.contains_key((cid(ib, 4), -1int)) && h.f.mem[(cid(ib, 4), -1int)] == g.f.mem[(cid(ib, 4), -1int)],
        h.f.vals.contains_key(cid(ib, 34)) && h.f.vals[cid(ib, 34)] == g.f.vals[cid(ib, 34)],
        h.f.vals.contains_key(cid(ib, 41)) && h.f.vals[cid(ib, 41)] == flag(signed(abs_bits(yb as int)) >= signed(abs_bits(zb as int))),
        h.prev == cid(ib, 36),
{
    crate::util::lemma_split_encode(2, spv::SPV_INSTRUCTION_OP_LABEL);
    lemma_cfg_step(w, labels, 170, g, (n - 0) as nat, stop);
    let st1 = exec_cfg(w, 170, spv::SPV_INSTRUCTION_OP_LABEL as int, g)->Some_0;
    crate::util::lemma_split_encode(5, spv::SPV_INSTRUCTION_OP_ACCESS_CHAIN);
    lemma_cfg_step(w, labels, 172, st1, (n - 1) as nat, stop);
    let st2 = exec_cfg(w, 172, spv::SPV_INSTRUCTION_OP_ACCESS_CHAIN as int, st1)->Some_0;
    crate::util::lemma_split_encode(4, spv::SPV_INSTRUCTION_OP_LOAD);
    lemma_cfg_step(w, labels, 177, st2, (n - 2) as nat, stop);
    let st3 = exec_cfg(w, 177, spv::SPV_INSTRUCTION_OP_LOAD as int, st2)->Some_0;
    crate::util::lemma_split_encode(5, spv::SPV_INSTRUCTION_OP_ACCESS_CHAIN);
    lemma_cfg_step(w, labels, 181, st3, (n - 3) as nat, stop);
    let st4 = exec_cfg(w, 181, spv::SPV_INSTRUCTION_OP_ACCESS_CHAIN as int, st3)->Some_0;
    crate::util::lemma_split_encode(4, spv::SPV_INSTRUCTION_OP_LOAD);
    lemma_cfg_step(w, labels, 186, st4, (n - 4) as nat, stop);
    let st5 = exec_cfg(w, 186, spv::SPV_INSTRUCTION_OP_LOAD as int, st4)->Some_0;
    crate::util::lemma_split_encode(5, spv::SPV_INSTRUCTION_OP_S_GREATER_THAN_EQUAL);
    lemma_cfg_step(w, labels, 190, st5, (n - 5) as nat, stop);
    let st6 = exec_cfg(w, 190, spv::SPV_INSTRUCTION_OP_S_GREATER_THAN_EQUAL as int, st5)->Some_0;
    crate::util::lemma_split_encode(2, spv::SPV_INSTRUCTION_OP_BRANCH);
    lemma_cfg_branch(w, labels, 195, st6, (n - 6) as nat, stop);
    let st7 = CfgFrame { prev: st6.cur, ..st6 };
    st7
}

#[verifier::spinoff_prover]
#[verifier::rlimit(60)]
proof fn lemma_cube_run_y_flag(w: Seq<u32>, labels: Map<u32, int>, ib: int, t: CubeDirectionTypeInputs,
    c: CubeDirectionConstants, g: CfgFrame, xb: u32, yb: u32, zb: u32, n: nat, stop: int) -> (h: CfgFrame)
    requires
        0 <= ib,
        ib + 137 <= u32::MAX,
        w.len() == 710,
        labels == cube_labels(ib),
        n >= 5,
        stop >= 334,
        w[197] == spec_encode_word(2, spv::SPV_INSTRUCTION_OP_LABEL),
        w[198] == cid(ib, 35),
        w[199] == spec_encode_word(7, spv::SPV_INSTRUCTION_OP_PHI),
        w[201] == cid(ib, 42),
        w[202] == cid(ib, 34),
        w[203] == cid(ib, 22),
        w[204] == cid(ib, 41),
        w[205] == cid(ib, 36),
        w[206] == spec_encode_word(3, spv::SPV_INSTRUCTION_OP_STORE),
        w[207] == cid(ib, 5),
        w[208] == cid(ib, 42),
        w[209] == spec_encode_word(4, spv::SPV_INSTRUCTION_OP_LOAD),
        w[210] == t.bool_id,
        w[211] == cid(ib, 43),
        w[212] == cid(ib, 4),
        w[213] == spec_encode_word(3, spv::SPV_INSTRUCTION_OP_SELECTION_MERGE),
        cube_inv(ib, t, c, g, xb, yb, zb),
        g.f.mem.contains_key((cid(ib, 4), -1int)),
        (g.prev == cid(ib, 22) && g.f.vals.contains_key(cid(ib, 34))) || (g.prev == cid(ib, 36) && g.f.vals.contains_key(cid(ib, 41))),
    ensures
        run_cfg(w, labels, 197, g, n, stop) == run_cfg(w, labels, 216, h, (n - 5) as nat, stop),
        cube_inv(ib, t, c, h, xb, yb, zb),
        h.f.mem.contains_key((cid(ib, 5), -1int)) && h.f.mem[(cid(ib, 5), -1int)] == if g.prev == cid(ib, 22) { g.f.vals[cid(ib, 34)] } else { g.f.vals[cid(ib, 41)] },
        h.f.vals.contains_key(cid(ib, 43)) && h.f.vals[cid(ib, 43)] == g.f.mem[(cid(ib, 4), -1int)],
        h.cur == cid(ib, 35),
{
    crate::util::lemma_split_encode(2, spv::SPV_INSTRUCTION_OP_LABEL);
    lemma_cfg_step(w, labels, 197, g, (n - 0) as nat, stop);
    let st1 = exec_cfg(w, 197, spv::SPV_INSTRUCTION_OP_LABEL as int, g)->Some_0;
    crate::util::lemma_split_encode(7, spv::SPV_INSTRUCTION_OP_PHI);
    lemma_cfg_step(w, labels, 199, st1, (n - 1) as nat, stop);
    let st2 = exec_cfg(w, 199, spv::SPV_INSTRUCTION_OP_PHI as int, st1)->Some_0;
    crate::util::lemma_split_encode(3, spv::SPV_INSTRUCTION_OP_STORE);
    lemma_cfg_step(w, labels, 206, st2, (n - 2) as nat, stop);
    let st3 = exec_cfg(w, 206, spv::SPV_INSTRUCTION_OP_STORE as int, st2)->Some_0;
    crate::util::lemma_split_encode(4, spv::SPV_INSTRUCTION_OP_LOAD);
    lemma_cfg_step(w, labels, 209, st3, (n - 3) as nat, stop);
    let st4 = exec_cfg(w, 209, spv::SPV_INSTRUCTION_OP_LOAD as int, st3)->Some_0;
    crate::util::lemma_split_encode(3, spv::SPV_INSTRUCTION_OP_SELECTION_MERGE);
    lemma_cfg_step(w, labels, 213, st4, (n - 4) as nat, stop);
    let st5 = exec_cfg(w, 213, spv::SPV_INSTRUCTION_OP_SELECTION_MERGE as int, st4)->Some_0;
    st5
}

#[verifier::spinoff_prover]
#[verifier::rlimit(60)]
proof fn lemma_cube_run_x_block(w: Seq<u32>, labels: Map<u32, int>, ib: int, t: CubeDirectionTypeInputs,
    c: CubeDirectionConstants, g: CfgFrame, xb: u32, yb: u32, zb: u32, n: nat, stop: int) -> (h: CfgFrame)
    requires
        0 <= ib,
        ib + 137 <= u32::MAX,
        w.len() == 710,
        labels == cube_labels(ib),
        n >= 7,
        stop >= 334,
        w[220] == spec_encode_word(2, spv::SPV_INSTRUCTION_OP_LABEL),
        w[221] == cid(ib, 45),
        w[222] == spec_encode_word(5, spv::SPV_INSTRUCTION_OP_ACCESS_CHAIN),
        w[224] == cid(ib, 47),
        w[225] == cid(ib, 1),
        w[226] == c.int_0,
        w[227] == spec_encode_word(4, spv::SPV_INSTRUCTION_OP_LOAD),
        w[228] == t.int_id,
        w[229] == cid(ib, 48),
        w[230] == cid(ib, 47),
        w[231] == spec_encode_word(5, spv::SPV_INSTRUCTION_OP_S_GREATER_THAN),
        w[233] == cid(ib, 49),
        w[234] == cid(ib, 48),
        w[235] == c.int_0,
        w[236] == spec_encode_word(6, spv::SPV_INSTRUCTION_OP_SELECT),
        w[238] == cid(ib, 50),
        w[239] == cid(ib, 49),
        w[240] == c.int_0,
        w[241] == c.int_1,
        w[242] == spec_encode_word(3, spv::SPV_INSTRUCTION_OP_STORE),
        w[243] == cid(ib, 7),
        w[244] == cid(ib, 50),
        w[245] == spec_encode_word(2, spv::SPV_INSTRUCTION_OP_BRANCH),
        w[246] == cid(ib, 44),
        cube_inv(ib, t, c, g, xb, yb, zb),
    ensures
        run_cfg(w, labels, 220, g, n, stop) == run_cfg(w, labels, 325, h, (n - 7) as nat, stop),
        cube_inv(ib, t, c, h, xb, yb, zb),
        h.f.mem.contains_key((cid(ib, 7), -1int)) && h.f.mem[(cid(ib, 7), -1int)] == cube_face(0, signed(xb as int)),
{
    crate::util::lemma_split_encode(2, spv::SPV_INSTRUCTION_OP_LABEL);
    lemma_cfg_step(w, labels, 220, g, (n - 0) as nat, stop);
    let st1 = exec_cfg(w, 220, spv::SPV_INSTRUCTION_OP_LABEL as int, g)->Some_0;
    crate::util::lemma_split_encode(5, spv::SPV_INSTRUCTION_OP_ACCESS_CHAIN);
    lemma_cfg_step(w, labels, 222, st1, (n - 1) as nat, stop);
    let st2 = exec_cfg(w, 222, spv::SPV_INSTRUCTION_OP_ACCESS_CHAIN as int, st1)->Some_0;
    crate::util::lemma_split_encode(4, spv::SPV_INSTRUCTION_OP_LOAD);
    lemma_cfg_step(w, labels, 227, st2, (n - 2) as nat, stop);
    let st3 = exec_cfg(w, 227, spv::SPV_INSTRUCTION_OP_LOAD as int, st2)->Some_0;
    crate::util::lemma_split_encode(5, spv::SPV_INSTRUCTION_OP_S_GREATER_THAN);
    lemma_cfg_step(w, labels, 231, st3, (n - 3) as nat, stop);
    let st4 = exec_cfg(w, 231, spv::SPV_INSTRUCTION_OP_S_GREATER_THAN as int, st3)->Some_0;
    crate::util::lemma_split_encode(6, spv::SPV_INSTRUCTION_OP_SELECT);
    lemma_cfg_step(w, labels, 236, st4, (n - 4) as nat, stop);
    let st5 = exec_cfg(w, 236, spv::SPV_INSTRUCTION_OP_SELECT as int, st4)->Some_0;
    crate::util::lemma_split_encode(3, spv::SPV_INSTRUCTION_OP_STORE);
    lemma_cfg_step(w, labels, 242, st5, (n - 5) as nat, stop);
    let st6 = exec_cfg(w, 242, spv::SPV_INSTRUCTION_OP_STORE as int, st5)->Some_0;
    crate::util::lemma_split_encode(2, spv::SPV_INSTRUCTION_OP_BRANCH);
    lemma_cfg_branch(w, labels, 245, st6, (n - 6) as nat, stop);
    let st7 = CfgFrame { prev: st6.cur, ..st6 };
    st7
}

#[verifier::spinoff_prover]
#[verifier::rlimit(60)]
proof fn lemma_cube_run_not_x(w: Seq<u32>, labels: Map<u32, int>, ib: int, t: CubeDirectionTypeInputs,
    c: CubeDirectionConstants, g: CfgFrame, xb: u32, yb: u32, zb: u32, n: nat, stop: int) -> (h: CfgFrame)
    requires
        0 <= ib,
        ib + 137 <= u32::MAX,
        w.len() == 710,
        labels == cube_labels(ib),
        n >= 3,
        stop >= 334,
        w[247] == spec_encode_word(2, spv::SPV_INSTRUCTION_OP_LABEL),
        w[248] == cid(ib, 46),
        w[249] == spec_encode_word(4, spv::SPV_INSTRUCTION_OP_LOAD),
        w[250] == t.bool_id,
        w[251] == cid(ib, 51),
        w[252] == cid(ib, 5),
        w[253] == spec_encode_word(3, spv::SPV_INSTRUCTION_OP_SELECTION_MERGE),
        cube_inv(ib, t, c, g, xb, yb, zb),
        g.f.mem.contains_key((cid(ib, 5), -1int)),
    ensures
        run_cfg(w, labels, 247, g, n, stop) == run_cfg(w, labels, 256, h, (n - 3) as nat, stop),
        cube_inv(ib, t, c, h, xb, yb, zb),
        h.f.vals.contains_key(cid(ib, 51)) && h.f.vals[cid(ib, 51)] == g.f.mem[(cid(ib, 5), -1int)],
        h.cur == cid(ib, 46),
{
    crate::util::lemma_split_encode(2, spv::SPV_INSTRUCTION_OP_LABEL);
    lemma_cfg_step(w, labels, 247, g, (n - 0) as nat, stop);
    let st1 = exec_cfg(w, 247, spv::SPV_INSTRUCTION_OP_LABEL as int, g)->Some_0;
    crate::util::lemma_split_encode(4, spv::SPV_INSTRUCTION_OP_LOAD);
    lemma_cfg_step(w, labels, 249, st1, (n - 1) as nat, stop);
    let st2 = exec_cfg(w, 249, spv::SPV_INSTRUCTION_OP_LOAD as int, st1)->Some_0;
    crate::util::lemma_split_encode(3, spv::SPV_INSTRUCTION_OP_SELECTION_MERGE);
    lemma_cfg_step(w, labels, 253, st2, (n - 2) as nat, stop);
    let st3 = exec_cfg(w, 253, spv::SPV_INSTRUCTION_OP_SELECTION_MERGE as int, st2)->Some_0;
    st3
}

#[verifier::spinoff_prover]
#[verifier::rlimit(60)]
proof fn lemma_cube_run_y_block(w: Seq<u32>, labels: Map<u32, int>, ib: int, t: CubeDirectionTypeInputs,
    c: CubeDirectionConstants, g: CfgFrame, xb: u32, yb: u32, zb: u32, n: nat, stop: int) -> (h: CfgFrame)
    requires
        0 <= ib,
        ib + 137 <= u32::MAX,
        w.len() == 710,
        labels == cube_labels(ib),
        n >= 7,
        stop >= 334,
        w[260] == spec_encode_word(2, spv::SPV_INSTRUCTION_OP_LABEL),
        w[261] == cid(ib, 53),
        w[262] == spec_encode_word(5, spv::SPV_INSTRUCTION_OP_ACCESS_CHAIN),
        w[264] == cid(ib, 55),
        w[265] == cid(ib, 1),
        w[266] == c.int_1,
        w[267] == spec_encode_word(4, spv::SPV_INSTRUCTION_OP_LOAD),
        w[268] == t.int_id,
        w[269] == cid(ib, 56),
        w[270] == cid(ib, 55),
        w[271] == spec_encode_word(5, spv::SPV_INSTRUCTION_OP_S_GREATER_THAN),
        w[273] == cid(ib, 57),
        w[274] == cid(ib, 56),
        w[275] == c.int_0,
        w[276] == spec_encode_word(6, spv::SPV_INSTRUCTION_OP_SELECT),
        w[278] == cid(ib, 58),
        w[279] == cid(ib, 57),
        w[280] == c.int_2,
        w[281] == c.int_3,
        w[282] == spec_encode_word(3, spv::SPV_INSTRUCTION_OP_STORE),
        w[283] == cid(ib, 8),
        w[284] == cid(ib, 58),
        w[285] == spec_encode_word(2, spv::SPV_INSTRUCTION_OP_BRANCH),
        w[286] == cid(ib, 52),
        cube_inv(ib, t, c, g, xb, yb, zb),
    ensures
        run_cfg(w, labels, 260, g, n, stop) == run_cfg(w, labels, 314, h, (n - 7) as nat, stop),
        cube_inv(ib, t, c, h, xb, yb, zb),
        h.f.mem.contains_key((cid(ib, 8), -1int)) && h.f.mem[(cid(ib, 8), -1int)] == cube_face(1, signed(yb as int)),
{
    crate::util::lemma_split_encode(2, spv::SPV_INSTRUCTION_OP_LABEL);
    lemma_cfg_step(w, labels, 260, g, (n - 0) as nat, stop);
    let st1 = exec_cfg(w, 260, spv::SPV_INSTRUCTION_OP_LABEL as int, g)->Some_0;
    crate::util::lemma_split_encode(5, spv::SPV_INSTRUCTION_OP_ACCESS_CHAIN);
    lemma_cfg_step(w, labels, 262, st1, (n - 1) as nat, stop);
    let st2 = exec_cfg(w, 262, spv::SPV_INSTRUCTION_OP_ACCESS_CHAIN as int, st1)->Some_0;
    crate::util::lemma_split_encode(4, spv::SPV_INSTRUCTION_OP_LOAD);
    lemma_cfg_step(w, labels, 267, st2, (n - 2) as nat, stop);
    let st3 = exec_cfg(w, 267, spv::SPV_INSTRUCTION_OP_LOAD as int, st2)->Some_0;
    crate::util::lemma_split_encode(5, spv::SPV_INSTRUCTION_OP_S_GREATER_THAN);
    lemma_cfg_step(w, labels, 271, st3, (n - 3) as nat, stop);
    let st4 = exec_cfg(w, 271, spv::SPV_INSTRUCTION_OP_S_GREATER_THAN as int, st3)->Some_0;
    crate::util::lemma_split_encode(6, spv::SPV_INSTRUCTION_OP_SELECT);
    lemma_cfg_step(w, labels, 276, st4, (n - 4) as nat, stop);
    let st5 = exec_cfg(w, 276, spv::SPV_INSTRUCTION_OP_SELECT as int, st4)->Some_0;
    crate::util::lemma_split_encode(3, spv::SPV_INSTRUCTION_OP_STORE);
    lemma_cfg_step(w, labels, 282, st5, (n - 5) as nat, stop);
    let st6 = exec_cfg(w, 282, spv::SPV_INSTRUCTION_OP_STORE as int, st5)->Some_0;
    crate::util::lemma_split_encode(2, spv::SPV_INSTRUCTION_OP_BRANCH);
    lemma_cfg_branch(w, labels, 285, st6, (n - 6) as nat, stop);
    let st7 = CfgFrame { prev: st6.cur, ..st6 };
    st7
}

#[verifier::spinoff_prover]
#[verifier::rlimit(60)]
proof fn lemma_cube_run_z_block(w: Seq<u32>, labels: Map<u32, int>, ib: int, t: CubeDirectionTypeInputs,
    c: CubeDirectionConstants, g: CfgFrame, xb: u32, yb: u32, zb: u32, n: nat, stop: int) -> (h: CfgFrame)
    requires
        0 <= ib,
        ib + 137 <= u32::MAX,
        w.len() == 710,
        labels == cube_labels(ib),
        n >= 7,
        stop >= 334,
        w[287] == spec_encode_word(2, spv::SPV_INSTRUCTION_OP_LABEL),
        w[288] == cid(ib, 54),
        w[289] == spec_encode_word(5, spv::SPV_INSTRUCTION_OP_ACCESS_CHAIN),
        w[291] == cid(ib, 59),
        w[292] == cid(ib, 1),
        w[293] == c.int_2,
        w[294] == spec_encode_word(4, spv::SPV_INSTRUCTION_OP_LOAD),
        w[295] == t.int_id,
        w[296] == cid(ib, 60),
        w[297] == cid(ib, 59),
        w[298] == spec_encode_word(5, spv::SPV_INSTRUCTION_OP_S_GREATER_THAN),
        w[300] == cid(ib, 61),
        w[301] == cid(ib, 60),
        w[302] == c.int_0,
        w[303] == spec_encode_word(6, spv::SPV_INSTRUCTION_OP_SELECT),
        w[305] == cid(ib, 62),
        w[306] == cid(ib, 61),
        w[307] == c.int_4,
        w[308] == c.int_5,
        w[309] == spec_encode_word(3, spv::SPV_INSTRUCTION_OP_STORE),
        w[310] == cid(ib, 8),
        w[311] == cid(ib, 62),
        w[312] == spec_encode_word(2, spv::SPV_INSTRUCTION_OP_BRANCH),
        w[313] == cid(ib, 52),
        cube_inv(ib, t, c, g, xb, yb, zb),
    ensures
        run_cfg(w, labels, 287, g, n, stop) == run_cfg(w, labels, 314, h, (n - 7) as nat, stop),
        cube_inv(ib, t, c, h, xb, yb, zb),
        h.f.mem.contains_key((cid(ib, 8), -1int)) && h.f.mem[(cid(ib, 8), -1int)] == cube_face(2, signed(zb as int)),
{
    crate::util::lemma_split_encode(2, spv::SPV_INSTRUCTION_OP_LABEL);
    lemma_cfg_step(w, labels, 287, g, (n - 0) as nat, stop);
    let st1 = exec_cfg(w, 287, spv::SPV_INSTRUCTION_OP_LABEL as int, g)->Some_0;
    crate::util::lemma_split_encode(5, spv::SPV_INSTRUCTION_OP_ACCESS_CHAIN);
    lemma_cfg_step(w, labels, 289, st1, (n - 1) as nat, stop);
    let st2 = exec_cfg(w, 289, spv::SPV_INSTRUCTION_OP_ACCESS_CHAIN as int, st1)->Some_0;
    crate::util::lemma_split_encode(4, spv::SPV_INSTRUCTION_OP_LOAD);
    lemma_cfg_step(w, labels, 294, st2, (n - 2) as nat, stop);
    let st3 = exec_cfg(w, 294, spv::SPV_INSTRUCTION_OP_LOAD as int, st2)->Some_0;
    crate::util::lemma_split_encode(5, spv::SPV_INSTRUCTION_OP_S_GREATER_THAN);
    lemma_cfg_step(w, labels, 298, st3, (n - 3) as nat, stop);
    let st4 = exec_cfg(w, 298, spv::SPV_INSTRUCTION_OP_S_GREATER_THAN as int, st3)->Some_0;
    crate::util::lemma_split_encode(6, spv::SPV_INSTRUCTION_OP_SELECT);
    lemma_cfg_step(w, labels, 303, st4, (n - 4) as nat, stop);
    let st5 = exec_cfg(w, 303, spv::SPV_INSTRUCTION_OP_SELECT as int, st4)->Some_0;
    crate::util::lemma_split_encode(3, spv::SPV_INSTRUCTION_OP_STORE);
    lemma_cfg_step(w, labels, 309, st5, (n - 5) as nat, stop);
    let st6 = exec_cfg(w, 309, spv::SPV_INSTRUCTION_OP_STORE as int, st5)->Some_0;
    crate::util::lemma_split_encode(2, spv::SPV_INSTRUCTION_OP_BRANCH);
    lemma_cfg_branch(w, labels, 312, st6, (n - 6) as nat, stop);
    let st7 = CfgFrame { prev: st6.cur, ..st6 };
    st7
}

#[verifier::spinoff_prover]
#[verifier::rlimit(60)]
proof fn lemma_cube_run_y_or_z(w: Seq<u32>, labels: Map<u32, int>, ib: int, t: CubeDirectionTypeInputs,
    c: CubeDirectionConstants, g: CfgFrame, xb: u32, yb: u32, zb: u32, n: nat, stop: int) -> (h: CfgFrame)
    requires
        0 <= ib,
        ib + 137 <= u32::MAX,
        w.len() == 710,
        labels == cube_labels(ib),
        n >= 4,
        stop >= 334,
        w[314] == spec_encode_word(2, spv::SPV_INSTRUCTION_OP_LABEL),
        w[315] == cid(ib, 52),
        w[316] == spec_encode_word(4, spv::SPV_INSTRUCTION_OP_LOAD),
        w[317] == t.int_id,
        w[318] == cid(ib, 63),
        w[319] == cid(ib, 8),
        w[320] == spec_encode_word(3, spv::SPV_INSTRUCTION_OP_STORE),
        w[321] == cid(ib, 7),
        w[322] == cid(ib, 63),
        w[323] == spec_encode_word(2, spv::SPV_INSTRUCTION_OP_BRANCH),
        w[324] == cid(ib, 44),
        cube_inv(ib, t, c, g, xb, yb, zb),
        g.f.mem.contains_key((cid(ib, 8), -1int)),
    ensures
        run_cfg(w, labels, 314, g, n, stop) == run_cfg(w, labels, 325, h, (n - 4) as nat, stop),
        cube_inv(ib, t, c, h, xb, yb, zb),
        h.f.mem.contains_key((cid(ib, 7), -1int)) && h.f.mem[(cid(ib, 7), -1int)] == g.f.mem[(cid(ib, 8), -1int)],
{
    crate::util::lemma_split_encode(2, spv::SPV_INSTRUCTION_OP_LABEL);
    lemma_cfg_step(w, labels, 314, g, (n - 0) as nat, stop);
    let st1 = exec_cfg(w, 314, spv::SPV_INSTRUCTION_OP_LABEL as int, g)->Some_0;
    crate::util::lemma_split_encode(4, spv::SPV_INSTRUCTION_OP_LOAD);
    lemma_cfg_step(w, labels, 316, st1, (n - 1) as nat, stop);
    let st2 = exec_cfg(w, 316, spv::SPV_INSTRUCTION_OP_LOAD as int, st1)->Some_0;
    crate::util::lemma_split_encode(3, spv::SPV_INSTRUCTION_OP_STORE);
    lemma_cfg_step(w, labels, 320, st2, (n - 2) as nat, stop);
    let st3 = exec_cfg(w, 320, spv::SPV_INSTRUCTION_OP_STORE as int, st2)->Some_0;
    crate::util::lemma_split_encode(2, spv::SPV_INSTRUCTION_OP_BRANCH);
    lemma_cfg_branch(w, labels, 323, st3, (n - 3) as nat, stop);
    let st4 = CfgFrame { prev: st3.cur, ..st3 };
    st4
}

#[verifier::spinoff_prover]
#[verifier::rlimit(60)]
proof fn lemma_cube_run_face(w: Seq<u32>, labels: Map<u32, int>, ib: int, t: CubeDirectionTypeInputs,
    c: CubeDirectionConstants, g: CfgFrame, xb: u32, yb: u32, zb: u32, n: nat, stop: int) -> (h: CfgFrame)
    requires
        0 <= ib,
        ib + 137 <= u32::MAX,
        w.len() == 710,
        labels == cube_labels(ib),
        n >= 3,
        stop >= 334,
        w[325] == spec_encode_word(2, spv::SPV_INSTRUCTION_OP_LABEL),
        w[326] == cid(ib, 44),
        w[327] == spec_encode_word(4, spv::SPV_INSTRUCTION_OP_LOAD),
        w[328] == t.int_id,
        w[329] == cid(ib, 64),
        w[330] == cid(ib, 7),
        w[331] == spec_encode_word(3, spv::SPV_INSTRUCTION_OP_STORE),
        w[332] == cid(ib, 6),
        w[333] == cid(ib, 64),
        cube_inv(ib, t, c, g, xb, yb, zb),
        g.f.mem.contains_key((cid(ib, 7), -1int)),
    ensures
        cube_inv(ib, t, c, h, xb, yb, zb),
        run_cfg(w, labels, 325, g, n, stop) == run_cfg(w, labels, 334, h, (n - 3) as nat, stop),
        h.f.mem.contains_key((cid(ib, 6), -1int)) && h.f.mem[(cid(ib, 6), -1int)] == g.f.mem[(cid(ib, 7), -1int)],
{
    crate::util::lemma_split_encode(2, spv::SPV_INSTRUCTION_OP_LABEL);
    lemma_cfg_step(w, labels, 325, g, (n - 0) as nat, stop);
    let st1 = exec_cfg(w, 325, spv::SPV_INSTRUCTION_OP_LABEL as int, g)->Some_0;
    crate::util::lemma_split_encode(4, spv::SPV_INSTRUCTION_OP_LOAD);
    lemma_cfg_step(w, labels, 327, st1, (n - 1) as nat, stop);
    let st2 = exec_cfg(w, 327, spv::SPV_INSTRUCTION_OP_LOAD as int, st1)->Some_0;
    crate::util::lemma_split_encode(3, spv::SPV_INSTRUCTION_OP_STORE);
    lemma_cfg_step(w, labels, 331, st2, (n - 2) as nat, stop);
    let st3 = exec_cfg(w, 331, spv::SPV_INSTRUCTION_OP_STORE as int, st2)->Some_0;
    st3
}

#[verifier::spinoff_prover]
#[verifier::rlimit(60)]
proof fn lemma_cube_run_disp0(w: Seq<u32>, labels: Map<u32, int>, ib: int, t: CubeDirectionTypeInputs,
    c: CubeDirectionConstants, g: CfgFrame, xb: u32, yb: u32, zb: u32, n: nat, stop: int) -> (h: CfgFrame)
    requires
        0 <= ib,
        ib + 137 <= u32::MAX,
        w.len() == 710,
        labels == cube_labels(ib),
        n >= 3,
        stop >= 707,
        w[334] == spec_encode_word(4, spv::SPV_INSTRUCTION_OP_LOAD),
        w[335] == t.int_id,
        w[336] == cid(ib, 65),
        w[337] == cid(ib, 6),
        w[338] == spec_encode_word(5, spv::SPV_INSTRUCTION_OP_I_EQUAL),
        w[340] == cid(ib, 66),
        w[341] == cid(ib, 65),
        w[342] == c.int_0,
        w[343] == spec_encode_word(3, spv::SPV_INSTRUCTION_OP_SELECTION_MERGE),
        cube_inv2(ib, t, c, g, xb, yb, zb),
        g.f.mem.contains_key((cid(ib, 6), -1int)),
    ensures
        run_cfg(w, labels, 334, g, n, stop) == run_cfg(w, labels, 346, h, (n - 3) as nat, stop),
        cube_inv2(ib, t, c, h, xb, yb, zb),
        h.f.mem == g.f.mem,
        h.f.vals.contains_key(cid(ib, 66)) && h.f.vals[cid(ib, 66)] == flag(g.f.mem[(cid(ib, 6), -1int)] == 0),
{
    crate::util::lemma_split_encode(4, spv::SPV_INSTRUCTION_OP_LOAD);
    lemma_cfg_step(w, labels, 334, g, (n - 0) as nat, stop);
    let st1 = exec_cfg(w, 334, spv::SPV_INSTRUCTION_OP_LOAD as int, g)->Some_0;
    crate::util::lemma_split_encode(5, spv::SPV_INSTRUCTION_OP_I_EQUAL);
    lemma_cfg_step(w, labels, 338, st1, (n - 1) as nat, stop);
    let st2 = exec_cfg(w, 338, spv::SPV_INSTRUCTION_OP_I_EQUAL as int, st1)->Some_0;
    crate::util::lemma_split_encode(3, spv::SPV_INSTRUCTION_OP_SELECTION_MERGE);
    lemma_cfg_step(w, labels, 343, st2, (n - 2) as nat, stop);
    let st3 = exec_cfg(w, 343, spv::SPV_INSTRUCTION_OP_SELECTION_MERGE as int, st2)->Some_0;
    st3
}

#[verifier::spinoff_prover]
#[verifier::rlimit(60)]
proof fn lemma_cube_run_blk0(w: Seq<u32>, labels: Map<u32, int>, ib: int, t: CubeDirectionTypeInputs,
    c: CubeDirectionConstants, g: CfgFrame, xb: u32, yb: u32, zb: u32, n: nat, stop: int) -> (h: CfgFrame)
    requires
        0 <= ib,
        ib + 137 <= u32::MAX,
        w.len() == 710,
        labels == cube_labels(ib),
        n >= 10,
        stop >= 707,
        w[350] == spec_encode_word(2, spv::SPV_INSTRUCTION_OP_LABEL),
        w[351] == cid(ib, 68),
        w[352] == spec_encode_word(5, spv::SPV_INSTRUCTION_OP_ACCESS_CHAIN),
        w[354] == cid(ib, 70),
        w[355] == cid(ib, 1),
        w[356] == c.int_2,
        w[357] == spec_encode_word(4, spv::SPV_INSTRUCTION_OP_LOAD),
        w[358] == t.int_id,
        w[359] == cid(ib, 71),
        w[360] == cid(ib, 70),
        w[361] == spec_encode_word(4, spv::SPV_INSTRUCTION_OP_S_NEGATE),
        w[363] == cid(ib, 72),
        w[364] == cid(ib, 71),
        w[365] == spec_encode_word(5, spv::SPV_INSTRUCTION_OP_ACCESS_CHAIN),
        w[367] == cid(ib, 73),
        w[368] == cid(ib, 1),
        w[369] == c.int_1,
        w[370] == spec_encode_word(4, spv::SPV_INSTRUCTION_OP_LOAD),
        w[371] == t.int_id,
        w[372] == cid(ib, 74),
        w[373] == cid(ib, 73),
        w[374] == spec_encode_word(4, spv::SPV_INSTRUCTION_OP_S_NEGATE),
        w[376] == cid(ib, 75),
        w[377] == cid(ib, 74),
        w[378] == spec_encode_word(5, spv::SPV_INSTRUCTION_OP_COMPOSITE_CONSTRUCT),
        w[379] == t.v2int_id,
        w[380] == cid(ib, 76),
        w[381] == cid(ib, 72),
        w[382] == cid(ib, 75),
        w[383] == spec_encode_word(3, spv::SPV_INSTRUCTION_OP_STORE),
        w[384] == cid(ib, 10),
        w[385] == cid(ib, 76),
        w[386] == spec_encode_word(2, spv::SPV_INSTRUCTION_OP_BRANCH),
        w[387] == cid(ib, 67),
        cube_inv2(ib, t, c, g, xb, yb, zb),
        g.f.mem.contains_key((cid(ib, 6), -1int)),
    ensures
        run_cfg(w, labels, 350, g, n, stop) == run_cfg(w, labels, 674, h, (n - 10) as nat, stop),
        cube_inv2(ib, t, c, h, xb, yb, zb),
        h.f.mem.contains_key((cid(ib, 6), -1int)) && h.f.mem[(cid(ib, 6), -1int)] == g.f.mem[(cid(ib, 6), -1int)],
        h.f.mem.contains_key((cid(ib, 10), 0int)) && h.f.mem[(cid(ib, 10), 0int)] == neg_bits(zb as int),
        h.f.mem.contains_key((cid(ib, 10), 1int)) && h.f.mem[(cid(ib, 10), 1int)] == neg_bits(yb as int),
{
    crate::util::lemma_split_encode(2, spv::SPV_INSTRUCTION_OP_LABEL);
    lemma_cfg_step(w, labels, 350, g, (n - 0) as nat, stop);
    let st1 = exec_cfg(w, 350, spv::SPV_INSTRUCTION_OP_LABEL as int, g)->Some_0;
    crate::util::lemma_split_encode(5, spv::SPV_INSTRUCTION_OP_ACCESS_CHAIN);
    lemma_cfg_step(w, labels, 352, st1, (n - 1) as nat, stop);
    let st2 = exec_cfg(w, 352, spv::SPV_INSTRUCTION_OP_ACCESS_CHAIN as int, st1)->Some_0;
    crate::util::lemma_split_encode(4, spv::SPV_INSTRUCTION_OP_LOAD);
    lemma_cfg_step(w, labels, 357, st2, (n - 2) as nat, stop);
    let st3 = exec_cfg(w, 357, spv::SPV_INSTRUCTION_OP_LOAD as int, st2)->Some_0;
    crate::util::lemma_split_encode(4, spv::SPV_INSTRUCTION_OP_S_NEGATE);
    lemma_cfg_step(w, labels, 361, st3, (n - 3) as nat, stop);
    let st4 = exec_cfg(w, 361, spv::SPV_INSTRUCTION_OP_S_NEGATE as int, st3)->Some_0;
    crate::util::lemma_split_encode(5, spv::SPV_INSTRUCTION_OP_ACCESS_CHAIN);
    lemma_cfg_step(w, labels, 365, st4, (n - 4) as nat, stop);
    let st5 = exec_cfg(w, 365, spv::SPV_INSTRUCTION_OP_ACCESS_CHAIN as int, st4)->Some_0;
    crate::util::lemma_split_encode(4, spv::SPV_INSTRUCTION_OP_LOAD);
    lemma_cfg_step(w, labels, 370, st5, (n - 5) as nat, stop);
    let st6 = exec_cfg(w, 370, spv::SPV_INSTRUCTION_OP_LOAD as int, st5)->Some_0;
    crate::util::lemma_split_encode(4, spv::SPV_INSTRUCTION_OP_S_NEGATE);
    lemma_cfg_step(w, labels, 374, st6, (n - 6) as nat, stop);
    let st7 = exec_cfg(w, 374, spv::SPV_INSTRUCTION_OP_S_NEGATE as int, st6)->Some_0;
    crate::util::lemma_split_encode(5, spv::SPV_INSTRUCTION_OP_COMPOSITE_CONSTRUCT);
    assert forall|k: int| 0 <= k < 2 implies #[trigger] st7.f.vals.contains_key(w[378 + 3 + k]) by {
        if k == 0 {} else if k == 1 {} else {}
    }
    lemma_cfg_step(w, labels, 378, st7, (n - 7) as nat, stop);
    let st8 = exec_cfg(w, 378, spv::SPV_INSTRUCTION_OP_COMPOSITE_CONSTRUCT as int, st7)->Some_0;
    crate::util::lemma_split_encode(3, spv::SPV_INSTRUCTION_OP_STORE);
    lemma_cfg_step(w, labels, 383, st8, (n - 8) as nat, stop);
    let st9 = exec_cfg(w, 383, spv::SPV_INSTRUCTION_OP_STORE as int, st8)->Some_0;
    crate::util::lemma_split_encode(2, spv::SPV_INSTRUCTION_OP_BRANCH);
    lemma_cfg_branch(w, labels, 386, st9, (n - 9) as nat, stop);
    let st10 = CfgFrame { prev: st9.cur, ..st9 };
    st10
}

#[verifier::spinoff_prover]
#[verifier::rlimit(60)]
proof fn lemma_cube_run_disp1(w: Seq<u32>, labels: Map<u32, int>, ib: int, t: CubeDirectionTypeInputs,
    c: CubeDirectionConstants, g: CfgFrame, xb: u32, yb: u32, zb: u32, n: nat, stop: int) -> (h: CfgFrame)
    requires
        0 <= ib,
        ib + 137 <= u32::MAX,
        w.len() == 710,
        labels == cube_labels(ib),
        n >= 4,
        stop >= 707,
        w[388] == spec_encode_word(2, spv::SPV_INSTRUCTION_OP_LABEL),
        w[389] == cid(ib, 69),
        w[390] == spec_encode_word(4, spv::SPV_INSTRUCTION_OP_LOAD),
        w[391] == t.int_id,
        w[392] == cid(ib, 77),
        w[393] == cid(ib, 6),
        w[394] == spec_encode_word(5, spv::SPV_INSTRUCTION_OP_I_EQUAL),
        w[396] == cid(ib, 78),
        w[397] == cid(ib, 77),
        w[398] == c.int_1,
        w[399] == spec_encode_word(3, spv::SPV_INSTRUCTION_OP_SELECTION_MERGE),
        cube_inv2(ib, t, c, g, xb, yb, zb),
        g.f.mem.contains_key((cid(ib, 6), -1int)),
    ensures
        run_cfg(w, labels, 388, g, n, stop) == run_cfg(w, labels, 402, h, (n - 4) as nat, stop),
        cube_inv2(ib, t, c, h, xb, yb, zb),
        h.f.mem == g.f.mem,
        h.f.vals.contains_key(cid(ib, 78)) && h.f.vals[cid(ib, 78)] == flag(g.f.mem[(cid(ib, 6), -1int)] == 1),
{
    crate::util::lemma_split_encode(2, spv::SPV_INSTRUCTION_OP_LABEL);
    lemma_cfg_step(w, labels, 388, g, (n - 0) as nat, stop);
    let st1 = exec_cfg(w, 388, spv::SPV_INSTRUCTION_OP_LABEL as int, g)->Some_0;
    crate::util::lemma_split_encode(4, spv::SPV_INSTRUCTION_OP_LOAD);
    lemma_cfg_step(w, labels, 390, st1, (n - 1) as nat, stop);
    let st2 = exec_cfg(w, 390, spv::SPV_INSTRUCTION_OP_LOAD as int, st1)->Some_0;
    crate::util::lemma_split_encode(5, spv::SPV_INSTRUCTION_OP_I_EQUAL);
    lemma_cfg_step(w, labels, 394, st2, (n - 2) as nat, stop);
    let st3 = exec_cfg(w, 394, spv::SPV_INSTRUCTION_OP_I_EQUAL as int, st2)->Some_0;
    crate::util::lemma_split_encode(3, spv::SPV_INSTRUCTION_OP_SELECTION_MERGE);
    lemma_cfg_step(w, labels, 399, st3, (n - 3) as nat, stop);
    let st4 = exec_cfg(w, 399, spv::SPV_INSTRUCTION_OP_SELECTION_MERGE as int, st3)->Some_0;
    st4
}

#[verifier::spinoff_prover]
#[verifier::rlimit(60)]
proof fn lemma_cube_run_blk1(w: Seq<u32>, labels: Map<u32, int>, ib: int, t: CubeDirectionTypeInputs,
    c: CubeDirectionConstants, g: CfgFrame, xb: u32, yb: u32, zb: u32, n: nat, stop: int) -> (h: CfgFrame)
    requires
        0 <= ib,
        ib + 137 <= u32::MAX,
        w.len() == 710,
        labels == cube_labels(ib),
        n >= 9,
        stop >= 707,
        w[406] == spec_encode_word(2, spv::SPV_INSTRUCTION_OP_LABEL),
        w[407] == cid(ib, 80),
        w[408] == spec_encode_word(5, spv::SPV_INSTRUCTION_OP_ACCESS_CHAIN),
        w[410] == cid(ib, 82),
        w[411] == cid(ib, 1),
        w[412] == c.int_2,
        w[413] == spec_encode_word(4, spv::SPV_INSTRUCTION_OP_LOAD),
        w[414] == t.int_id,
        w[415] == cid(ib, 83),
        w[416] == cid(ib, 82),
        w[417] == spec_encode_word(5, spv::SPV_INSTRUCTION_OP_ACCESS_CHAIN),
        w[419] == cid(ib, 84),
        w[420] == cid(ib, 1),
        w[421] == c.int_1,
        w[422] == spec_encode_word(4, spv::SPV_INSTRUCTION_OP_LOAD),
        w[423] == t.int_id,
        w[424] == cid(ib, 85),
        w[425] == cid(ib, 84),
        w[426] == spec_encode_word(4, spv::SPV_INSTRUCTION_OP_S_NEGATE),
        w[428] == cid(ib, 86),
        w[429] == cid(ib, 85),
        w[430] == spec_encode_word(5, spv::SPV_INSTRUCTION_OP_COMPOSITE_CONSTRUCT),
        w[431] == t.v2int_id,
        w[432] == cid(ib, 87),
        w[433] == cid(ib, 83),
        w[434] == cid(ib, 86),
        w[435] == spec_encode_word(3, spv::SPV_INSTRUCTION_OP_STORE),
        w[436] == cid(ib, 11),
        w[437] == cid(ib, 87),
        w[438] == spec_encode_word(2, spv::SPV_INSTRUCTION_OP_BRANCH),
        w[439] == cid(ib, 79),
        cube_inv2(ib, t, c, g, xb, yb, zb),
        g.f.mem.contains_key((cid(ib, 6), -1int)),
    ensures
        run_cfg(w, labels, 406, g, n, stop) == run_cfg(w, labels, 663, h, (n - 9) as nat, stop),
        cube_inv2(ib, t, c, h, xb, yb, zb),
        h.f.mem.contains_key((cid(ib, 6), -1int)) && h.f.mem[(cid(ib, 6), -1int)] == g.f.mem[(cid(ib, 6), -1int)],
        h.f.mem.contains_key((cid(ib, 11), 0int)) && h.f.mem[(cid(ib, 11), 0int)] == zb as int,
        h.f.mem.contains_key((cid(ib, 11), 1int)) && h.f.mem[(cid(ib, 11), 1int)] == neg_bits(yb as int),
{
    crate::util::lemma_split_encode(2, spv::SPV_INSTRUCTION_OP_LABEL);
    lemma_cfg_step(w, labels, 406, g, (n - 0) as nat, stop);
    let st1 = exec_cfg(w, 406, spv::SPV_INSTRUCTION_OP_LABEL as int, g)->Some_0;
    crate::util::lemma_split_encode(5, spv::SPV_INSTRUCTION_OP_ACCESS_CHAIN);
    lemma_cfg_step(w, labels, 408, st1, (n - 1) as nat, stop);
    let st2 = exec_cfg(w, 408, spv::SPV_INSTRUCTION_OP_ACCESS_CHAIN as int, st1)->Some_0;
    crate::util::lemma_split_encode(4, spv::SPV_INSTRUCTION_OP_LOAD);
    lemma_cfg_step(w, labels, 413, st2, (n - 2) as nat, stop);
    let st3 = exec_cfg(w, 413, spv::SPV_INSTRUCTION_OP_LOAD as int, st2)->Some_0;
    crate::util::lemma_split_encode(5, spv::SPV_INSTRUCTION_OP_ACCESS_CHAIN);
    lemma_cfg_step(w, labels, 417, st3, (n - 3) as nat, stop);
    let st4 = exec_cfg(w, 417, spv::SPV_INSTRUCTION_OP_ACCESS_CHAIN as int, st3)->Some_0;
    crate::util::lemma_split_encode(4, spv::SPV_INSTRUCTION_OP_LOAD);
    lemma_cfg_step(w, labels, 422, st4, (n - 4) as nat, stop);
    let st5 = exec_cfg(w, 422, spv::SPV_INSTRUCTION_OP_LOAD as int, st4)->Some_0;
    crate::util::lemma_split_encode(4, spv::SPV_INSTRUCTION_OP_S_NEGATE);
    lemma_cfg_step(w, labels, 426, st5, (n - 5) as nat, stop);
    let st6 = exec_cfg(w, 426, spv::SPV_INSTRUCTION_OP_S_NEGATE as int, st5)->Some_0;
    crate::util::lemma_split_encode(5, spv::SPV_INSTRUCTION_OP_COMPOSITE_CONSTRUCT);
    assert forall|k: int| 0 <= k < 2 implies #[trigger] st6.f.vals.contains_key(w[430 + 3 + k]) by {
        if k == 0 {} else if k == 1 {} else {}
    }
    lemma_cfg_step(w, labels, 430, st6, (n - 6) as nat, stop);
    let st7 = exec_cfg(w, 430, spv::SPV_INSTRUCTION_OP_COMPOSITE_CONSTRUCT as int, st6)->Some_0;
    crate::util::lemma_split_encode(3, spv::SPV_INSTRUCTION_OP_STORE);
    lemma_cfg_step(w, labels, 435, st7, (n - 7) as nat, stop);
    let st8 = exec_cfg(w, 435, spv::SPV_INSTRUCTION_OP_STORE as int, st7)->Some_0;
    crate::util::lemma_split_encode(2, spv::SPV_INSTRUCTION_OP_BRANCH);
    lemma_cfg_branch(w, labels, 438, st8, (n - 8) as nat, stop);
    let st9 = CfgFrame { prev: st8.cur, ..st8 };
    st9
}

#[verifier::spinoff_prover]
#[verifier::rlimit(60)]
proof fn lemma_cube_run_disp2(w: Seq<u32>, labels: Map<u32, int>, ib: int, t: CubeDirectionTypeInputs,
    c: CubeDirectionConstants, g: CfgFrame, xb: u32, yb: u32, zb: u32, n: nat, stop: int) -> (h: CfgFrame)
    requires
        0 <= ib,
        ib + 137 <= u32::MAX,
        w.len() == 710,
        labels == cube_labels(ib),
        n >= 4,
        stop >= 707,
        w[440] == spec_encode_word(2, spv::SPV_INSTRUCTION_OP_LABEL),
        w[441] == cid(ib, 81),
        w[442] == spec_encode_word(4, spv::SPV_INSTRUCTION_OP_LOAD),
        w[443] == t.int_id,
        w[444] == cid(ib, 88),
        w[445] == cid(ib, 6),
        w[446] == spec_encode_word(5, spv::SPV_INSTRUCTION_OP_I_EQUAL),
        w[448] == cid(ib, 89),
        w[449] == cid(ib, 88),
        w[450] == c.int_2,
        w[451] == spec_encode_word(3, spv::SPV_INSTRUCTION_OP_SELECTION_MERGE),
        cube_inv2(ib, t, c, g, xb, yb, zb),
        g.f.mem.contains_key((cid(ib, 6), -1int)),
    ensures
        run_cfg(w, labels, 440, g, n, stop) == run_cfg(w, labels, 454, h, (n - 4) as nat, stop),
        cube_inv2(ib, t, c, h, xb, yb, zb),
        h.f.mem == g.f.mem,
        h.f.vals.contains_key(cid(ib, 89)) && h.f.vals[cid(ib, 89)] == flag(g.f.mem[(cid(ib, 6), -1int)] == 2),
{
    crate::util::lemma_split_encode(2, spv::SPV_INSTRUCTION_OP_LABEL);
    lemma_cfg_step(w, labels, 440, g, (n - 0) as nat, stop);
    let st1 = exec_cfg(w, 440, spv::SPV_INSTRUCTION_OP_LABEL as int, g)->Some_0;
    crate::util::lemma_split_encode(4, spv::SPV_INSTRUCTION_OP_LOAD);
    lemma_cfg_step(w, labels, 442, st1, (n - 1) as nat, stop);
    let st2 = exec_cfg(w, 442, spv::SPV_INSTRUCTION_OP_LOAD as int, st1)->Some_0;
    crate::util::lemma_split_encode(5, spv::SPV_INSTRUCTION_OP_I_EQUAL);
    lemma_cfg_step(w, labels, 446, st2, (n - 2) as nat, stop);
    let st3 = exec_cfg(w, 446, spv::SPV_INSTRUCTION_OP_I_EQUAL as int, st2)->Some_0;
    crate::util::lemma_split_encode(3, spv::SPV_INSTRUCTION_OP_SELECTION_MERGE);
    lemma_cfg_step(w, labels, 451, st3, (n - 3) as nat, stop);
    let st4 = exec_cfg(w, 451, spv::SPV_INSTRUCTION_OP_SELECTION_MERGE as int, st3)->Some_0;
    st4
}

#[verifier::spinoff_prover]
#[verifier::rlimit(60)]
proof fn lemma_cube_run_blk2(w: Seq<u32>, labels: Map<u32, int>, ib: int, t: CubeDirectionTypeInputs,
    c: CubeDirectionConstants, g: CfgFrame, xb: u32, yb: u32, zb: u32, n: nat, stop: int) -> (h: CfgFrame)
    requires
        0 <= ib,
        ib + 137 <= u32::MAX,
        w.len() == 710,
        labels == cube_labels(ib),
        n >= 8,
        stop >= 707,
        w[458] == spec_encode_word(2, spv::SPV_INSTRUCTION_OP_LABEL),
        w[459] == cid(ib, 91),
        w[460] == spec_encode_word(5, spv::SPV_INSTRUCTION_OP_ACCESS_CHAIN),
        w[462] == cid(ib, 93),
        w[463] == cid(ib, 1),
        w[464] == c.int_0,
        w[465] == spec_encode_word(4, spv::SPV_INSTRUCTION_OP_LOAD),
        w[466] == t.int_id,
        w[467] == cid(ib, 94),
        w[468] == cid(ib, 93),
        w[469] == spec_encode_word(5, spv::SPV_INSTRUCTION_OP_ACCESS_CHAIN),
        w[471] == cid(ib, 95),
        w[472] == cid(ib, 1),
        w[473] == c.int_2,
        w[474] == spec_encode_word(4, spv::SPV_INSTRUCTION_OP_LOAD),
        w[475] == t.int_id,
        w[476] == cid(ib, 96),
        w[477] == cid(ib, 95),
        w[478] == spec_encode_word(5, spv::SPV_INSTRUCTION_OP_COMPOSITE_CONSTRUCT),
        w[479] == t.v2int_id,
        w[480] == cid(ib, 97),
        w[481] == cid(ib, 94),
        w[482] == cid(ib, 96),
        w[483] == spec_encode_word(3, spv::SPV_INSTRUCTION_OP_STORE),
        w[484] == cid(ib, 12),
        w[485] == cid(ib, 97),
        w[486] == spec_encode_word(2, spv::SPV_INSTRUCTION_OP_BRANCH),
        w[487] == cid(ib, 90),
        cube_inv2(ib, t, c, g, xb, yb, zb),
        g.f.mem.contains_key((cid(ib, 6), -1int)),
    ensures
        run_cfg(w, labels, 458, g, n, stop) == run_cfg(w, labels, 652, h, (n - 8) as nat, stop),
        cube_inv2(ib, t, c, h, xb, yb, zb),
        h.f.mem.contains_key((cid(ib, 6), -1int)) && h.f.mem[(cid(ib, 6), -1int)] == g.f.mem[(cid(ib, 6), -1int)],
        h.f.mem.contains_key((cid(ib, 12), 0int)) && h.f.mem[(cid(ib, 12), 0int)] == xb as int,
        h.f.mem.contains_key((cid(ib, 12), 1int)) && h.f.mem[(cid(ib, 12), 1int)] == zb as int,
{
    crate::util::lemma_split_encode(2, spv::SPV_INSTRUCTION_OP_LABEL);
    lemma_cfg_step(w, labels, 458, g, (n - 0) as nat, stop);
    let st1 = exec_cfg(w, 458, spv::SPV_INSTRUCTION_OP_LABEL as int, g)->Some_0;
    crate::util::lemma_split_encode(5, spv::SPV_INSTRUCTION_OP_ACCESS_CHAIN);
    lemma_cfg_step(w, labels, 460, st1, (n - 1) as nat, stop);
    let st2 = exec_cfg(w, 460, spv::SPV_INSTRUCTION_OP_ACCESS_CHAIN as int, st1)->Some_0;
    crate::util::lemma_split_encode(4, spv::SPV_INSTRUCTION_OP_LOAD);
    lemma_cfg_step(w, labels, 465, st2, (n - 2) as nat, stop);
    let st3 = exec_cfg(w, 465, spv::SPV_INSTRUCTION_OP_LOAD as int, st2)->Some_0;
    crate::util::lemma_split_encode(5, spv::SPV_INSTRUCTION_OP_ACCESS_CHAIN);
    lemma_cfg_step(w, labels, 469, st3, (n - 3) as nat, stop);
    let st4 = exec_cfg(w, 469, spv::SPV_INSTRUCTION_OP_ACCESS_CHAIN as int, st3)->Some_0;
    crate::util::lemma_split_encode(4, spv::SPV_INSTRUCTION_OP_LOAD);
    lemma_cfg_step(w, labels, 474, st4, (n - 4) as nat, stop);
    let st5 = exec_cfg(w, 474, spv::SPV_INSTRUCTION_OP_LOAD as int, st4)->Some_0;
    crate::util::lemma_split_encode(5, spv::SPV_INSTRUCTION_OP_COMPOSITE_CONSTRUCT);
    assert forall|k: int| 0 <= k < 2 implies #[trigger] st5.f.vals.contains_key(w[478 + 3 + k]) by {
        if k == 0 {} else if k == 1 {} else {}
    }
    lemma_cfg_step(w, labels, 478, st5, (n - 5) as nat, stop);
    let st6 = exec_cfg(w, 478, spv::SPV_INSTRUCTION_OP_COMPOSITE_CONSTRUCT as int, st5)->Some_0;
    crate::util::lemma_split_encode(3, spv::SPV_INSTRUCTION_OP_STORE);
    lemma_cfg_step(w, labels, 483, st6, (n - 6) as nat, stop);
    let st7 = exec_cfg(w, 483, spv::SPV_INSTRUCTION_OP_STORE as int, st6)->Some_0;
    crate::util::lemma_split_encode(2, spv::SPV_INSTRUCTION_OP_BRANCH);
    lemma_cfg_branch(w, labels, 486, st7, (n - 7) as nat, stop);
    let st8 = CfgFrame { prev: st7.cur, ..st7 };
    st8
}

#[verifier::spinoff_prover]
#[verifier::rlimit(60)]
proof fn lemma_cube_run_disp3(w: Seq<u32>, labels: Map<u32, int>, ib: int, t: CubeDirectionTypeInputs,
    c: CubeDirectionConstants, g: CfgFrame, xb: u32, yb: u32, zb: u32, n: nat, stop: int) -> (h: CfgFrame)
    requires
        0 <= ib,
        ib + 137 <= u32::MAX,
        w.len() == 710,
        labels == cube_labels(ib),
        n >= 4,
        stop >= 707,
        w[488] == spec_encode_word(2, spv::SPV_INSTRUCTION_OP_LABEL),
        w[489] == cid(ib, 92),
        w[490] == spec_encode_word(4, spv::SPV_INSTRUCTION_OP_LOAD),
        w[491] == t.int_id,
        w[492] == cid(ib, 98),
        w[493] == cid(ib, 6),
        w[494] == spec_encode_word(5, spv::SPV_INSTRUCTION_OP_I_EQUAL),
        w[496] == cid(ib, 99),
        w[497] == cid(ib, 98),
        w[498] == c.int_3,
        w[499] == spec_encode_word(3, spv::SPV_INSTRUCTION_OP_SELECTION_MERGE),
        cube_inv2(ib, t, c, g, xb, yb, zb),
        g.f.mem.contains_key((cid(ib, 6), -1int)),
    ensures
        run_cfg(w, labels, 488, g, n, stop) == run_cfg(w, labels, 502, h, (n - 4) as nat, stop),
        cube_inv2(ib, t, c, h, xb, yb, zb),
        h.f.mem == g.f.mem,
        h.f.vals.contains_key(cid(ib, 99)) && h.f.vals[cid(ib, 99)] == flag(g.f.mem[(cid(ib, 6), -1int)] == 3),
{
    crate::util::lemma_split_encode(2, spv::SPV_INSTRUCTION_OP_LABEL);
    lemma_cfg_step(w, labels, 488, g, (n - 0) as nat, stop);
    let st1 = exec_cfg(w, 488, spv::SPV_INSTRUCTION_OP_LABEL as int, g)->Some_0;
    crate::util::lemma_split_encode(4, spv::SPV_INSTRUCTION_OP_LOAD);
    lemma_cfg_step(w, labels, 490, st1, (n - 1) as nat, stop);
    let st2 = exec_cfg(w, 490, spv::SPV_INSTRUCTION_OP_LOAD as int, st1)->Some_0;
    crate::util::lemma_split_encode(5, spv::SPV_INSTRUCTION_OP_I_EQUAL);
    lemma_cfg_step(w, labels, 494, st2, (n - 2) as nat, stop);
    let st3 = exec_cfg(w, 494, spv::SPV_INSTRUCTION_OP_I_EQUAL as int, st2)->Some_0;
    crate::util::lemma_split_encode(3, spv::SPV_INSTRUCTION_OP_SELECTION_MERGE);
    lemma_cfg_step(w, labels, 499, st3, (n - 3) as nat, stop);
    let st4 = exec_cfg(w, 499, spv::SPV_INSTRUCTION_OP_SELECTION_MERGE as int, st3)->Some_0;
    st4
}

#[verifier::spinoff_prover]
#[verifier::rlimit(60)]
proof fn lemma_cube_run_blk3(w: Seq<u32>, labels: Map<u32, int>, ib: int, t: CubeDirectionTypeInputs,
    c: CubeDirectionConstants, g: CfgFrame, xb: u32, yb: u32, zb: u32, n: nat, stop: int) -> (h: CfgFrame)
    requires
        0 <= ib,
        ib + 137 <= u32::MAX,
        w.len() == 710,
        labels == cube_labels(ib),
        n >= 9,
        stop >= 707,
        w[506] == spec_encode_word(2, spv::SPV_INSTRUCTION_OP_LABEL),
        w[507] == cid(ib, 101),
        w[508] == spec_encode_word(5, spv::SPV_INSTRUCTION_OP_ACCESS_CHAIN),
        w[510] == cid(ib, 103),
        w[511] == cid(ib, 1),
        w[512] == c.int_0,
        w[513] == spec_encode_word(4, spv::SPV_INSTRUCTION_OP_LOAD),
        w[514] == t.int_id,
        w[515] == cid(ib, 104),
        w[516] == cid(ib, 103),
        w[517] == spec_encode_word(5, spv::SPV_INSTRUCTION_OP_ACCESS_CHAIN),
        w[519] == cid(ib, 105),
        w[520] == cid(ib, 1),
        w[521] == c.int_2,
        w[522] == spec_encode_word(4, spv::SPV_INSTRUCTION_OP_LOAD),
        w[523] == t.int_id,
        w[524] == cid(ib, 106),
        w[525] == cid(ib, 105),
        w[526] == spec_encode_word(4, spv::SPV_INSTRUCTION_OP_S_NEGATE),
        w[528] == cid(ib, 107),
        w[529] == cid(ib, 106),
        w[530] == spec_encode_word(5, spv::SPV_INSTRUCTION_OP_COMPOSITE_CONSTRUCT),
        w[531] == t.v2int_id,
        w[532] == cid(ib, 108),
        w[533] == cid(ib, 104),
        w[534] == cid(ib, 107),
        w[535] == spec_encode_word(3, spv::SPV_INSTRUCTION_OP_STORE),
        w[536] == cid(ib, 13),
        w[537] == cid(ib, 108),
        w[538] == spec_encode_word(2, spv::SPV_INSTRUCTION_OP_BRANCH),
        w[539] == cid(ib, 100),
        cube_inv2(ib, t, c, g, xb, yb, zb),
        g.f.mem.contains_key((cid(ib, 6), -1int)),
    ensures
        run_cfg(w, labels, 506, g, n, stop) == run_cfg(w, labels, 641, h, (n - 9) as nat, stop),
        cube_inv2(ib, t, c, h, xb, yb, zb),
        h.f.mem.contains_key((cid(ib, 6), -1int)) && h.f.mem[(cid(ib, 6), -1int)] == g.f.mem[(cid(ib, 6), -1int)],
        h.f.mem.contains_key((cid(ib, 13), 0int)) && h.f.mem[(cid(ib, 13), 0int)] == xb as int,
        h.f.mem.contains_key((cid(ib, 13), 1int)) && h.f.mem[(cid(ib, 13), 1int)] == neg_bits(zb as int),
{
    crate::util::lemma_split_encode(2, spv::SPV_INSTRUCTION_OP_LABEL);
    lemma_cfg_step(w, labels, 506, g, (n - 0) as nat, stop);
    let st1 = exec_cfg(w, 506, spv::SPV_INSTRUCTION_OP_LABEL as int, g)->Some_0;
    crate::util::lemma_split_encode(5, spv::SPV_INSTRUCTION_OP_ACCESS_CHAIN);
    lemma_cfg_step(w, labels, 508, st1, (n - 1) as nat, stop);
    let st2 = exec_cfg(w, 508, spv::SPV_INSTRUCTION_OP_ACCESS_CHAIN as int, st1)->Some_0;
    crate::util::lemma_split_encode(4, spv::SPV_INSTRUCTION_OP_LOAD);
    lemma_cfg_step(w, labels, 513, st2, (n - 2) as nat, stop);
    let st3 = exec_cfg(w, 513, spv::SPV_INSTRUCTION_OP_LOAD as int, st2)->Some_0;
    crate::util::lemma_split_encode(5, spv::SPV_INSTRUCTION_OP_ACCESS_CHAIN);
    lemma_cfg_step(w, labels, 517, st3, (n - 3) as nat, stop);
    let st4 = exec_cfg(w, 517, spv::SPV_INSTRUCTION_OP_ACCESS_CHAIN as int, st3)->Some_0;
    crate::util::lemma_split_encode(4, spv::SPV_INSTRUCTION_OP_LOAD);
    lemma_cfg_step(w, labels, 522, st4, (n - 4) as nat, stop);
    let st5 = exec_cfg(w, 522, spv::SPV_INSTRUCTION_OP_LOAD as int, st4)->Some_0;
    crate::util::lemma_split_encode(4, spv::SPV_INSTRUCTION_OP_S_NEGATE);
    lemma_cfg_step(w, labels, 526, st5, (n - 5) as nat, stop);
    let st6 = exec_cfg(w, 526, spv::SPV_INSTRUCTION_OP_S_NEGATE as int, st5)->Some_0;
    crate::util::lemma_split_encode(5, spv::SPV_INSTRUCTION_OP_COMPOSITE_CONSTRUCT);
    assert forall|k: int| 0 <= k < 2 implies #[trigger] st6.f.vals.contains_key(w[530 + 3 + k]) by {
        if k == 0 {} else if k == 1 {} else {}
    }
    lemma_cfg_step(w, labels, 530, st6, (n - 6) as nat, stop);
    let st7 = exec_cfg(w, 530, spv::SPV_INSTRUCTION_OP_COMPOSITE_CONSTRUCT as int, st6)->Some_0;
    crate::util::lemma_split_encode(3, spv::SPV_INSTRUCTION_OP_STORE);
    lemma_cfg_step(w, labels, 535, st7, (n - 7) as nat, stop);
    let st8 = exec_cfg(w, 535, spv::SPV_INSTRUCTION_OP_STORE as int, st7)->Some_0;
    crate::util::lemma_split_encode(2, spv::SPV_INSTRUCTION_OP_BRANCH);
    lemma_cfg_branch(w, labels, 538, st8, (n - 8) as nat, stop);
    let st9 = CfgFrame { prev: st8.cur, ..st8 };
    st9
}

#[verifier::spinoff_prover]
#[verifier::rlimit(60)]
proof fn lemma_cube_run_disp4(w: Seq<u32>, labels: Map<u32, int>, ib: int, t: CubeDirectionTypeInputs,
    c: CubeDirectionConstants, g: CfgFrame, xb: u32, yb: u32, zb: u32, n: nat, stop: int) -> (h: CfgFrame)
    requires
        0 <= ib,
        ib + 137 <= u32::MAX,
        w.len() == 710,
        labels == cube_labels(ib),
        n >= 4,
        stop >= 707,
        w[540] == spec_encode_word(2, spv::SPV_INSTRUCTION_OP_LABEL),
        w[541] == cid(ib, 102),
        w[542] == spec_encode_word(4, spv::SPV_INSTRUCTION_OP_LOAD),
        w[543] == t.int_id,
        w[544] == cid(ib, 109),
        w[545] == cid(ib, 6),
        w[546] == spec_encode_word(5, spv::SPV_INSTRUCTION_OP_I_EQUAL),
        w[548] == cid(ib, 110),
        w[549] == cid(ib, 109),
        w[550] == c.int_4,
        w[551] == spec_encode_word(3, spv::SPV_INSTRUCTION_OP_SELECTION_MERGE),
        cube_inv2(ib, t, c, g, xb, yb, zb),
        g.f.mem.contains_key((cid(ib, 6), -1int)),
    ensures
        run_cfg(w, labels, 540, g, n, stop) == run_cfg(w, labels, 554, h, (n - 4) as nat, stop),
        cube_inv2(ib, t, c, h, xb, yb, zb),
        h.f.mem == g.f.mem,
        h.f.vals.contains_key(cid(ib, 110)) && h.f.vals[cid(ib, 110)] == flag(g.f.mem[(cid(ib, 6), -1int)] == 4),
{
    crate::util::lemma_split_encode(2, spv::SPV_INSTRUCTION_OP_LABEL);
    lemma_cfg_step(w, labels, 540, g, (n - 0) as nat, stop);
    let st1 = exec_cfg(w, 540, spv::SPV_INSTRUCTION_OP_LABEL as int, g)->Some_0;
    crate::util::lemma_split_encode(4, spv::SPV_INSTRUCTION_OP_LOAD);
    lemma_cfg_step(w, labels, 542, st1, (n - 1) as nat, stop);
    let st2 = exec_cfg(w, 542, spv::SPV_INSTRUCTION_OP_LOAD as int, st1)->Some_0;
    crate::util::lemma_split_encode(5, spv::SPV_INSTRUCTION_OP_I_EQUAL);
    lemma_cfg_step(w, labels, 546, st2, (n - 2) as nat, stop);
    let st3 = exec_cfg(w, 546, spv::SPV_INSTRUCTION_OP_I_EQUAL as int, st2)->Some_0;
    crate::util::lemma_split_encode(3, spv::SPV_INSTRUCTION_OP_SELECTION_MERGE);
    lemma_cfg_step(w, labels, 551, st3, (n - 3) as nat, stop);
    let st4 = exec_cfg(w, 551, spv::SPV_INSTRUCTION_OP_SELECTION_MERGE as int, st3)->Some_0;
    st4
}

#[verifier::spinoff_prover]
#[verifier::rlimit(60)]
proof fn lemma_cube_run_blk4(w: Seq<u32>, labels: Map<u32, int>, ib: int, t: CubeDirectionTypeInputs,
    c: CubeDirectionConstants, g: CfgFrame, xb: u32, yb: u32, zb: u32, n: nat, stop: int) -> (h: CfgFrame)
    requires
        0 <= ib,
        ib + 137 <= u32::MAX,
        w.len() == 710,
        labels == cube_labels(ib),
        n >= 9,
        stop >= 707,
        w[558] == spec_encode_word(2, spv::SPV_INSTRUCTION_OP_LABEL),
        w[559] == cid(ib, 112),
        w[560] == spec_encode_word(5, spv::SPV_INSTRUCTION_OP_ACCESS_CHAIN),
        w[562] == cid(ib, 114),
        w[563] == cid(ib, 1),
        w[564] == c.int_0,
        w[565] == spec_encode_word(4, spv::SPV_INSTRUCTION_OP_LOAD),
        w[566] == t.int_id,
        w[567] == cid(ib, 115),
        w[568] == cid(ib, 114),
        w[569] == spec_encode_word(5, spv::SPV_INSTRUCTION_OP_ACCESS_CHAIN),
        w[571] == cid(ib, 116),
        w[572] == cid(ib, 1),
        w[573] == c.int_1,
        w[574] == spec_encode_word(4, spv::SPV_INSTRUCTION_OP_LOAD),
        w[575] == t.int_id,
        w[576] == cid(ib, 117),
        w[577] == cid(ib, 116),
        w[578] == spec_encode_word(4, spv::SPV_INSTRUCTION_OP_S_NEGATE),
        w[580] == cid(ib, 118),
        w[581] == cid(ib, 117),
        w[582] == spec_encode_word(5, spv::SPV_INSTRUCTION_OP_COMPOSITE_CONSTRUCT),
        w[583] == t.v2int_id,
        w[584] == cid(ib, 119),
        w[585] == cid(ib, 115),
        w[586] == cid(ib, 118),
        w[587] == spec_encode_word(3, spv::SPV_INSTRUCTION_OP_STORE),
        w[588] == cid(ib, 14),
        w[589] == cid(ib, 119),
        w[590] == spec_encode_word(2, spv::SPV_INSTRUCTION_OP_BRANCH),
        w[591] == cid(ib, 111),
        cube_inv2(ib, t, c, g, xb, yb, zb),
        g.f.mem.contains_key((cid(ib, 6), -1int)),
    ensures
        run_cfg(w, labels, 558, g, n, stop) == run_cfg(w, labels, 630, h, (n - 9) as nat, stop),
        cube_inv2(ib, t, c, h, xb, yb, zb),
        h.f.mem.contains_key((cid(ib, 6), -1int)) && h.f.mem[(cid(ib, 6), -1int)] == g.f.mem[(cid(ib, 6), -1int)],
        h.f.mem.contains_key((cid(ib, 14), 0int)) && h.f.mem[(cid(ib, 14), 0int)] == xb as int,
        h.f.mem.contains_key((cid(ib, 14), 1int)) && h.f.mem[(cid(ib, 14), 1int)] == neg_bits(yb as int),
{
    crate::util::lemma_split_encode(2, spv::SPV_INSTRUCTION_OP_LABEL);
    lemma_cfg_step(w, labels, 558, g, (n - 0) as nat, stop);
    let st1 = exec_cfg(w, 558, spv::SPV_INSTRUCTION_OP_LABEL as int, g)->Some_0;
    crate::util::lemma_split_encode(5, spv::SPV_INSTRUCTION_OP_ACCESS_CHAIN);
    lemma_cfg_step(w, labels, 560, st1, (n - 1) as nat, stop);
    let st2 = exec_cfg(w, 560, spv::SPV_INSTRUCTION_OP_ACCESS_CHAIN as int, st1)->Some_0;
    crate::util::lemma_split_encode(4, spv::SPV_INSTRUCTION_OP_LOAD);
    lemma_cfg_step(w, labels, 565, st2, (n - 2) as nat, stop);
    let st3 = exec_cfg(w, 565, spv::SPV_INSTRUCTION_OP_LOAD as int, st2)->Some_0;
    crate::util::lemma_split_encode(5, spv::SPV_INSTRUCTION_OP_ACCESS_CHAIN);
    lemma_cfg_step(w, labels, 569, st3, (n - 3) as nat, stop);
    let st4 = exec_cfg(w, 569, spv::SPV_INSTRUCTION_OP_ACCESS_CHAIN as int, st3)->Some_0;
    crate::util::lemma_split_encode(4, spv::SPV_INSTRUCTION_OP_LOAD);
    lemma_cfg_step(w, labels, 574, st4, (n - 4) as nat, stop);
    let st5 = exec_cfg(w, 574, spv::SPV_INSTRUCTION_OP_LOAD as int, st4)->Some_0;
    crate::util::lemma_split_encode(4, spv::SPV_INSTRUCTION_OP_S_NEGATE);
    lemma_cfg_step(w, labels, 578, st5, (n - 5) as nat, stop);
    let st6 = exec_cfg(w, 578, spv::SPV_INSTRUCTION_OP_S_NEGATE as int, st5)->Some_0;
    crate::util::lemma_split_encode(5, spv::SPV_INSTRUCTION_OP_COMPOSITE_CONSTRUCT);
    assert forall|k: int| 0 <= k < 2 implies #[trigger] st6.f.vals.contains_key(w[582 + 3 + k]) by {
        if k == 0 {} else if k == 1 {} else {}
    }
    lemma_cfg_step(w, labels, 582, st6, (n - 6) as nat, stop);
    let st7 = exec_cfg(w, 582, spv::SPV_INSTRUCTION_OP_COMPOSITE_CONSTRUCT as int, st6)->Some_0;
    crate::util::lemma_split_encode(3, spv::SPV_INSTRUCTION_OP_STORE);
    lemma_cfg_step(w, labels, 587, st7, (n - 7) as nat, stop);
    let st8 = exec_cfg(w, 587, spv::SPV_INSTRUCTION_OP_STORE as int, st7)->Some_0;
    crate::util::lemma_split_encode(2, spv::SPV_INSTRUCTION_OP_BRANCH);
    lemma_cfg_branch(w, labels, 590, st8, (n - 8) as nat, stop);
    let st9 = CfgFrame { prev: st8.cur, ..st8 };
    st9
}

#[verifier::spinoff_prover]
#[verifier::rlimit(60)]
proof fn lemma_cube_run_blk5(w: Seq<u32>, labels: Map<u32, int>, ib: int, t: CubeDirectionTypeInputs,
    c: CubeDirectionConstants, g: CfgFrame, xb: u32, yb: u32, zb: u32, n: nat, stop: int) -> (h: CfgFrame)
    requires
        0 <= ib,
        ib + 137 <= u32::MAX,
        w.len() == 710,
        labels == cube_labels(ib),
        n >= 10,
        stop >= 707,
        w[592] == spec_encode_word(2, spv::SPV_INSTRUCTION_OP_LABEL),
        w[593] == cid(ib, 113),
        w[594] == spec_encode_word(5, spv::SPV_INSTRUCTION_OP_ACCESS_CHAIN),
        w[596] == cid(ib, 120),
        w[597] == cid(ib, 1),
        w[598] == c.int_0,
        w[599] == spec_encode_word(4, spv::SPV_INSTRUCTION_OP_LOAD),
        w[600] == t.int_id,
        w[601] == cid(ib, 121),
        w[602] == cid(ib, 120),
        w[603] == spec_encode_word(4, spv::SPV_INSTRUCTION_OP_S_NEGATE),
        w[605] == cid(ib, 122),
        w[606] == cid(ib, 121),
        w[607] == spec_encode_word(5, spv::SPV_INSTRUCTION_OP_ACCESS_CHAIN),
        w[609] == cid(ib, 123),
        w[610] == cid(ib, 1),
        w[611] == c.int_1,
        w[612] == spec_encode_word(4, spv::SPV_INSTRUCTION_OP_LOAD),
        w[613] == t.int_id,
        w[614] == cid(ib, 124),
        w[615] == cid(ib, 123),
        w[616] == spec_encode_word(4, spv::SPV_INSTRUCTION_OP_S_NEGATE),
        w[618] == cid(ib, 125),
        w[619] == cid(ib, 124),
        w[620] == spec_encode_word(5, spv::SPV_INSTRUCTION_OP_COMPOSITE_CONSTRUCT),
        w[621] == t.v2int_id,
        w[622] == cid(ib, 126),
        w[623] == cid(ib, 122),
        w[624] == cid(ib, 125),
        w[625] == spec_encode_word(3, spv::SPV_INSTRUCTION_OP_STORE),
        w[626] == cid(ib, 14),
        w[627] == cid(ib, 126),
        w[628] == spec_encode_word(2, spv::SPV_INSTRUCTION_OP_BRANCH),
        w[629] == cid(ib, 111),
        cube_inv2(ib, t, c, g, xb, yb, zb),
        g.f.mem.contains_key((cid(ib, 6), -1int)),
    ensures
        run_cfg(w, labels, 592, g, n, stop) == run_cfg(w, labels, 630, h, (n - 10) as nat, stop),
        cube_inv2(ib, t, c, h, xb, yb, zb),
        h.f.mem.contains_key((cid(ib, 6), -1int)) && h.f.mem[(cid(ib, 6), -1int)] == g.f.mem[(cid(ib, 6), -1int)],
        h.f.mem.contains_key((cid(ib, 14), 0int)) && h.f.mem[(cid(ib, 14), 0int)] == neg_bits(xb as int),
        h.f.mem.contains_key((cid(ib, 14), 1int)) && h.f.mem[(cid(ib, 14), 1int)] == neg_bits(yb as int),
{
    crate::util::lemma_split_encode(2, spv::SPV_INSTRUCTION_OP_LABEL);
    lemma_cfg_step(w, labels, 592, g, (n - 0) as nat, stop);
    let st1 = exec_cfg(w, 592, spv::SPV_INSTRUCTION_OP_LABEL as int, g)->Some_0;
    crate::util::lemma_split_encode(5, spv::SPV_INSTRUCTION_OP_ACCESS_CHAIN);
    lemma_cfg_step(w, labels, 594, st1, (n - 1) as nat, stop);
    let st2 = exec_cfg(w, 594, spv::SPV_INSTRUCTION_OP_ACCESS_CHAIN as int, st1)->Some_0;
    crate::util::lemma_split_encode(4, spv::SPV_INSTRUCTION_OP_LOAD);
    lemma_cfg_step(w, labels, 599, st2, (n - 2) as nat, stop);
    let st3 = exec_cfg(w, 599, spv::SPV_INSTRUCTION_OP_LOAD as int, st2)->Some_0;
    crate::util::lemma_split_encode(4, spv::SPV_INSTRUCTION_OP_S_NEGATE);
    lemma_cfg_step(w, labels, 603, st3, (n - 3) as nat, stop);
    let st4 = exec_cfg(w, 603, spv::SPV_INSTRUCTION_OP_S_NEGATE as int, st3)->Some_0;
    crate::util::lemma_split_encode(5, spv::SPV_INSTRUCTION_OP_ACCESS_CHAIN);
    lemma_cfg_step(w, labels, 607, st4, (n - 4) as nat, stop);
    let st5 = exec_cfg(w, 607, spv::SPV_INSTRUCTION_OP_ACCESS_CHAIN as int, st4)->Some_0;
    crate::util::lemma_split_encode(4, spv::SPV_INSTRUCTION_OP_LOAD);
    lemma_cfg_step(w, labels, 612, st5, (n - 5) as nat, stop);
    let st6 = exec_cfg(w, 612, spv::SPV_INSTRUCTION_OP_LOAD as int, st5)->Some_0;
    crate::util::lemma_split_encode(4, spv::SPV_INSTRUCTION_OP_S_NEGATE);
    lemma_cfg_step(w, labels, 616, st6, (n - 6) as nat, stop);
    let st7 = exec_cfg(w, 616, spv::SPV_INSTRUCTION_OP_S_NEGATE as int, st6)->Some_0;
    crate::util::lemma_split_encode(5, spv::SPV_INSTRUCTION_OP_COMPOSITE_CONSTRUCT);
    assert forall|k: int| 0 <= k < 2 implies #[trigger] st7.f.vals.contains_key(w[620 + 3 + k]) by {
        if k == 0 {} else if k == 1 {} else {}
    }
    lemma_cfg_step(w, labels, 620, st7, (n - 7) as nat, stop);
    let st8 = exec_cfg(w, 620, spv::SPV_INSTRUCTION_OP_COMPOSITE_CONSTRUCT as int, st7)->Some_0;
    crate::util::lemma_split_encode(3, spv::SPV_INSTRUCTION_OP_STORE);
    lemma_cfg_step(w, labels, 625, st8, (n - 8) as nat, stop);
    let st9 = exec_cfg(w, 625, spv::SPV_INSTRUCTION_OP_STORE as int, st8)->Some_0;
    crate::util::lemma_split_encode(2, spv::SPV_INSTRUCTION_OP_BRANCH);
    lemma_cfg_branch(w, labels, 628, st9, (n - 9) as nat, stop);
    let st10 = CfgFrame { prev: st9.cur, ..st9 };
    st10
}

#[verifier::spinoff_prover]
#[verifier::rlimit(60)]
proof fn lemma_cube_run_m111(w: Seq<u32>, labels: Map<u32, int>, ib: int, t: CubeDirectionTypeInputs,
    c: CubeDirectionConstants, g: CfgFrame, xb: u32, yb: u32, zb: u32, n: nat, stop: int) -> (h: CfgFrame)
    requires
        0 <= ib,
        ib + 137 <= u32::MAX,
        w.len() == 710,
        labels == cube_labels(ib),
        n >= 4,
        stop >= 707,
        w[630] == spec_encode_word(2, spv::SPV_INSTRUCTION_OP_LABEL),
        w[631] == cid(ib, 111),
        w[632] == spec_encode_word(4, spv::SPV_INSTRUCTION_OP_LOAD),
        w[633] == t.v2int_id,
        w[634] == cid(ib, 127),
        w[635] == cid(ib, 14),
        w[636] == spec_encode_word(3, spv::SPV_INSTRUCTION_OP_STORE),
        w[637] == cid(ib, 13),
        w[638] == cid(ib, 127),
        w[639] == spec_encode_word(2, spv::SPV_INSTRUCTION_OP_BRANCH),
        w[640] == cid(ib, 100),
        cube_inv2(ib, t, c, g, xb, yb, zb),
        g.f.mem.contains_key((cid(ib, 6), -1int)),
        g.f.mem.contains_key((cid(ib, 14), 0int)) && g.f.mem.contains_key((cid(ib, 14), 1int)),
    ensures
        run_cfg(w, labels, 630, g, n, stop) == run_cfg(w, labels, 641, h, (n - 4) as nat, stop),
        cube_inv2(ib, t, c, h, xb, yb, zb),
        h.f.mem.contains_key((cid(ib, 6), -1int)) && h.f.mem[(cid(ib, 6), -1int)] == g.f.mem[(cid(ib, 6), -1int)],
        h.f.mem.contains_key((cid(ib, 13), 0int)) && h.f.mem[(cid(ib, 13), 0int)] == g.f.mem[(cid(ib, 14), 0int)],
        h.f.mem.contains_key((cid(ib, 13), 1int)) && h.f.mem[(cid(ib, 13), 1int)] == g.f.mem[(cid(ib, 14), 1int)],
{
    crate::util::lemma_split_encode(2, spv::SPV_INSTRUCTION_OP_LABEL);
    lemma_cfg_step(w, labels, 630, g, (n - 0) as nat, stop);
    let st1 = exec_cfg(w, 630, spv::SPV_INSTRUCTION_OP_LABEL as int, g)->Some_0;
    crate::util::lemma_split_encode(4, spv::SPV_INSTRUCTION_OP_LOAD);
    lemma_cfg_step(w, labels, 632, st1, (n - 1) as nat, stop);
    let st2 = exec_cfg(w, 632, spv::SPV_INSTRUCTION_OP_LOAD as int, st1)->Some_0;
    crate::util::lemma_split_encode(3, spv::SPV_INSTRUCTION_OP_STORE);
    lemma_cfg_step(w, labels, 636, st2, (n - 2) as nat, stop);
    let st3 = exec_cfg(w, 636, spv::SPV_INSTRUCTION_OP_STORE as int, st2)->Some_0;
    crate::util::lemma_split_encode(2, spv::SPV_INSTRUCTION_OP_BRANCH);
    lemma_cfg_branch(w, labels, 639, st3, (n - 3) as nat, stop);
    let st4 = CfgFrame { prev: st3.cur, ..st3 };
    st4
}

#[verifier::spinoff_prover]
#[verifier::rlimit(60)]
proof fn lemma_cube_run_m100(w: Seq<u32>, labels: Map<u32, int>, ib: int, t: CubeDirectionTypeInputs,
    c: CubeDirectionConstants, g: CfgFrame, xb: u32, yb: u32, zb: u32, n: nat, stop: int) -> (h: CfgFrame)
    requires
        0 <= ib,
        ib + 137 <= u32::MAX,
        w.len() == 710,
        labels == cube_labels(ib),
        n >= 4,
        stop >= 707,
        w[641] == spec_encode_word(2, spv::SPV_INSTRUCTION_OP_LABEL),
        w[642] == cid(ib, 100),
        w[643] == spec_encode_word(4, spv::SPV_INSTRUCTION_OP_LOAD),
        w[644] == t.v2int_id,
        w[645] == cid(ib, 128),
        w[646] == cid(ib, 13),
        w[647] == spec_encode_word(3, spv::SPV_INSTRUCTION_OP_STORE),
        w[648] == cid(ib, 12),
        w[649] == cid(ib, 128),
        w[650] == spec_encode_word(2, spv::SPV_INSTRUCTION_OP_BRANCH),
        w[651] == cid(ib, 90),
        cube_inv2(ib, t, c, g, xb, yb, zb),
        g.f.mem.contains_key((cid(ib, 6), -1int)),
        g.f.mem.contains_key((cid(ib, 13), 0int)) && g.f.mem.contains_key((cid(ib, 13), 1int)),
    ensures
        run_cfg(w, labels, 641, g, n, stop) == run_cfg(w, labels, 652, h, (n - 4) as nat, stop),
        cube_inv2(ib, t, c, h, xb, yb, zb),
        h.f.mem.contains_key((cid(ib, 6), -1int)) && h.f.mem[(cid(ib, 6), -1int)] == g.f.mem[(cid(ib, 6), -1int)],
        h.f.mem.contains_key((cid(ib, 12), 0int)) && h.f.mem[(cid(ib, 12), 0int)] == g.f.mem[(cid(ib, 13), 0int)],
        h.f.mem.contains_key((cid(ib, 12), 1int)) && h.f.mem[(cid(ib, 12), 1int)] == g.f.mem[(cid(ib, 13), 1int)],
{
    crate::util::lemma_split_encode(2, spv::SPV_INSTRUCTION_OP_LABEL);
    lemma_cfg_step(w, labels, 641, g, (n - 0) as nat, stop);
    let st1 = exec_cfg(w, 641, spv::SPV_INSTRUCTION_OP_LABEL as int, g)->Some_0;
    crate::util::lemma_split_encode(4, spv::SPV_INSTRUCTION_OP_LOAD);
    lemma_cfg_step(w, labels, 643, st1, (n - 1) as nat, stop);
    let st2 = exec_cfg(w, 643, spv::SPV_INSTRUCTION_OP_LOAD as int, st1)->Some_0;
    crate::util::lemma_split_encode(3, spv::SPV_INSTRUCTION_OP_STORE);
    lemma_cfg_step(w, labels, 647, st2, (n - 2) as nat, stop);
    let st3 = exec_cfg(w, 647, spv::SPV_INSTRUCTION_OP_STORE as int, st2)->Some_0;
    crate::util::lemma_split_encode(2, spv::SPV_INSTRUCTION_OP_BRANCH);
    lemma_cfg_branch(w, labels, 650, st3, (n - 3) as nat, stop);
    let st4 = CfgFrame { prev: st3.cur, ..st3 };
    st4
}

#[verifier::spinoff_prover]
#[verifier::rlimit(60)]
proof fn lemma_cube_run_m90(w: Seq<u32>, labels: Map<u32, int>, ib: int, t: CubeDirectionTypeInputs,
    c: CubeDirectionConstants, g: CfgFrame, xb: u32, yb: u32, zb: u32, n: nat, stop: int) -> (h: CfgFrame)
    requires
        0 <= ib,
        ib + 137 <= u32::MAX,
        w.len() == 710,
        labels == cube_labels(ib),
        n >= 4,
        stop >= 707,
        w[652] == spec_encode_word(2, spv::SPV_INSTRUCTION_OP_LABEL),
        w[653] == cid(ib, 90),
        w[654] == spec_encode_word(4, spv::SPV_INSTRUCTION_OP_LOAD),
        w[655] == t.v2int_id,
        w[656] == cid(ib, 129),
        w[657] == cid(ib, 12),
        w[658] == spec_encode_word(3, spv::SPV_INSTRUCTION_OP_STORE),
        w[659] == cid(ib, 11),
        w[660] == cid(ib, 129),
        w[661] == spec_encode_word(2, spv::SPV_INSTRUCTION_OP_BRANCH),
        w[662] == cid(ib, 79),
        cube_inv2(ib, t, c, g, xb, yb, zb),
        g.f.mem.contains_key((cid(ib, 6), -1int)),
        g.f.mem.contains_key((cid(ib, 12), 0int)) && g.f.mem.contains_key((cid(ib, 12), 1int)),
    ensures
        run_cfg(w, labels, 652, g, n, stop) == run_cfg(w, labels, 663, h, (n - 4) as nat, stop),
        cube_inv2(ib, t, c, h, xb, yb, zb),
        h.f.mem.contains_key((cid(ib, 6), -1int)) && h.f.mem[(cid(ib, 6), -1int)] == g.f.mem[(cid(ib, 6), -1int)],
        h.f.mem.contains_key((cid(ib, 11), 0int)) && h.f.mem[(cid(ib, 11), 0int)] == g.f.mem[(cid(ib, 12), 0int)],
        h.f.mem.contains_key((cid(ib, 11), 1int)) && h.f.mem[(cid(ib, 11), 1int)] == g.f.mem[(cid(ib, 12), 1int)],
{
    crate::util::lemma_split_encode(2, spv::SPV_INSTRUCTION_OP_LABEL);
    lemma_cfg_step(w, labels, 652, g, (n - 0) as nat, stop);
    let st1 = exec_cfg(w, 652, spv::SPV_INSTRUCTION_OP_LABEL as int, g)->Some_0;
    crate::util::lemma_split_encode(4, spv::SPV_INSTRUCTION_OP_LOAD);
    lemma_cfg_step(w, labels, 654, st1, (n - 1) as nat, stop);
    let st2 = exec_cfg(w, 654, spv::SPV_INSTRUCTION_OP_LOAD as int, st1)->Some_0;
    crate::util::lemma_split_encode(3, spv::SPV_INSTRUCTION_OP_STORE);
    lemma_cfg_step(w, labels, 658, st2, (n - 2) as nat, stop);
    let st3 = exec_cfg(w, 658, spv::SPV_INSTRUCTION_OP_STORE as int, st2)->Some_0;
    crate::util::lemma_split_encode(2, spv::SPV_INSTRUCTION_OP_BRANCH);
    lemma_cfg_branch(w, labels, 661, st3, (n - 3) as nat, stop);
    let st4 = CfgFrame { prev: st3.cur, ..st3 };
    st4
}

#[verifier::spinoff_prover]
#[verifier::rlimit(60)]
proof fn lemma_cube_run_m79(w: Seq<u32>, labels: Map<u32, int>, ib: int, t: CubeDirectionTypeInputs,
    c: CubeDirectionConstants, g: CfgFrame, xb: u32, yb: u32, zb: u32, n: nat, stop: int) -> (h: CfgFrame)
    requires
        0 <= ib,
        ib + 137 <= u32::MAX,
        w.len() == 710,
        labels == cube_labels(ib),
        n >= 4,
        stop >= 707,
        w[663] == spec_encode_word(2, spv::SPV_INSTRUCTION_OP_LABEL),
        w[664] == cid(ib, 79),
        w[665] == spec_encode_word(4, spv::SPV_INSTRUCTION_OP_LOAD),
        w[666] == t.v2int_id,
        w[667] == cid(ib, 130),
        w[668] == cid(ib, 11),
        w[669] == spec_encode_word(3, spv::SPV_INSTRUCTION_OP_STORE),
        w[670] == cid(ib, 10),
        w[671] == cid(ib, 130),
        w[672] == spec_encode_word(2, spv::SPV_INSTRUCTION_OP_BRANCH),
        w[673] == cid(ib, 67),
        cube_inv2(ib, t, c, g, xb, yb, zb),
        g.f.mem.contains_key((cid(ib, 6), -1int)),
        g.f.mem.contains_key((cid(ib, 11), 0int)) && g.f.mem.contains_key((cid(ib, 11), 1int)),
    ensures
        run_cfg(w, labels, 663, g, n, stop) == run_cfg(w, labels, 674, h, (n - 4) as nat, stop),
        cube_inv2(ib, t, c, h, xb, yb, zb),
        h.f.mem.contains_key((cid(ib, 6), -1int)) && h.f.mem[(cid(ib, 6), -1int)] == g.f.mem[(cid(ib, 6), -1int)],
        h.f.mem.contains_key((cid(ib, 10), 0int)) && h.f.mem[(cid(ib, 10), 0int)] == g.f.mem[(cid(ib, 11), 0int)],
        h.f.mem.contains_key((cid(ib, 10), 1int)) && h.f.mem[(cid(ib, 10), 1int)] == g.f.mem[(cid(ib, 11), 1int)],
{
    crate::util::lemma_split_encode(2, spv::SPV_INSTRUCTION_OP_LABEL);
    lemma_cfg_step(w, labels, 663, g, (n - 0) as nat, stop);
    let st1 = exec_cfg(w, 663, spv::SPV_INSTRUCTION_OP_LABEL as int, g)->Some_0;
    crate::util::lemma_split_encode(4, spv::SPV_INSTRUCTION_OP_LOAD);
    lemma_cfg_step(w, labels, 665, st1, (n - 1) as nat, stop);
    let st2 = exec_cfg(w, 665, spv::SPV_INSTRUCTION_OP_LOAD as int, st1)->Some_0;
    crate::util::lemma_split_encode(3, spv::SPV_INSTRUCTION_OP_STORE);
    lemma_cfg_step(w, labels, 669, st2, (n - 2) as nat, stop);
    let st3 = exec_cfg(w, 669, spv::SPV_INSTRUCTION_OP_STORE as int, st2)->Some_0;
    crate::util::lemma_split_encode(2, spv::SPV_INSTRUCTION_OP_BRANCH);
    lemma_cfg_branch(w, labels, 672, st3, (n - 3) as nat, stop);
    let st4 = CfgFrame { prev: st3.cur, ..st3 };
    st4
}

#[verifier::spinoff_prover]
#[verifier::rlimit(60)]
proof fn lemma_cube_run_fin(w: Seq<u32>, labels: Map<u32, int>, ib: int, t: CubeDirectionTypeInputs,
    c: CubeDirectionConstants, g: CfgFrame, xb: u32, yb: u32, zb: u32, n: nat, stop: int) -> (h: CfgFrame)
    requires
        0 <= ib,
        ib + 137 <= u32::MAX,
        w.len() == 710,
        labels == cube_labels(ib),
        n >= 8,
        stop >= 707,
        w[674] == spec_encode_word(2, spv::SPV_INSTRUCTION_OP_LABEL),
        w[675] == cid(ib, 67),
        w[676] == spec_encode_word(4, spv::SPV_INSTRUCTION_OP_LOAD),
        w[677] == t.v2int_id,
        w[678] == cid(ib, 131),
        w[679] == cid(ib, 10),
        w[680] == spec_encode_word(3, spv::SPV_INSTRUCTION_OP_STORE),
        w[681] == cid(ib, 9),
        w[682] == cid(ib, 131),
        w[683] == spec_encode_word(4, spv::SPV_INSTRUCTION_OP_LOAD),
        w[684] == t.v2int_id,
        w[685] == cid(ib, 132),
        w[686] == cid(ib, 9),
        w[687] == spec_encode_word(4, spv::SPV_INSTRUCTION_OP_LOAD),
        w[688] == t.int_id,
        w[689] == cid(ib, 133),
        w[690] == cid(ib, 6),
        w[691] == spec_encode_word(5, spv::SPV_INSTRUCTION_OP_COMPOSITE_EXTRACT),
        w[693] == cid(ib, 134),
        w[694] == cid(ib, 132),
        w[695] == 0,
        w[696] == spec_encode_word(5, spv::SPV_INSTRUCTION_OP_COMPOSITE_EXTRACT),
        w[698] == cid(ib, 135),
        w[699] == cid(ib, 132),
        w[700] == 1,
        w[701] == spec_encode_word(6, spv::SPV_INSTRUCTION_OP_COMPOSITE_CONSTRUCT),
        w[702] == t.v3int_id,
        w[703] == cid(ib, 136),
        w[704] == cid(ib, 134),
        w[705] == cid(ib, 135),
        w[706] == cid(ib, 133),
        cube_inv2(ib, t, c, g, xb, yb, zb),
        g.f.mem.contains_key((cid(ib, 6), -1int)),
        g.f.mem.contains_key((cid(ib, 10), 0int)) && g.f.mem.contains_key((cid(ib, 10), 1int)),
    ensures
        run_cfg(w, labels, 674, g, n, stop) == run_cfg(w, labels, 707, h, (n - 8) as nat, stop),
        h.vecs.contains_key(cid(ib, 136)) && h.vecs[cid(ib, 136)] == seq![g.f.mem[(cid(ib, 10), 0int)], g.f.mem[(cid(ib, 10), 1int)], g.f.mem[(cid(ib, 6), -1int)]],
{
    crate::util::lemma_split_encode(2, spv::SPV_INSTRUCTION_OP_LABEL);
    lemma_cfg_step(w, labels, 674, g, (n - 0) as nat, stop);
    let st1 = exec_cfg(w, 674, spv::SPV_INSTRUCTION_OP_LABEL as int, g)->Some_0;
    crate::util::lemma_split_encode(4, spv::SPV_INSTRUCTION_OP_LOAD);
    lemma_cfg_step(w, labels, 676, st1, (n - 1) as nat, stop);
    let st2 = exec_cfg(w, 676, spv::SPV_INSTRUCTION_OP_LOAD as int, st1)->Some_0;
    crate::util::lemma_split_encode(3, spv::SPV_INSTRUCTION_OP_STORE);
    lemma_cfg_step(w, labels, 680, st2, (n - 2) as nat, stop);
    let st3 = exec_cfg(w, 680, spv::SPV_INSTRUCTION_OP_STORE as int, st2)->Some_0;
    crate::util::lemma_split_encode(4, spv::SPV_INSTRUCTION_OP_LOAD);
    lemma_cfg_step(w, labels, 683, st3, (n - 3) as nat, stop);
    let st4 = exec_cfg(w, 683, spv::SPV_INSTRUCTION_OP_LOAD as int, st3)->Some_0;
    crate::util::lemma_split_encode(4, spv::SPV_INSTRUCTION_OP_LOAD);
    lemma_cfg_step(w, labels, 687, st4, (n - 4) as nat, stop);
    let st5 = exec_cfg(w, 687, spv::SPV_INSTRUCTION_OP_LOAD as int, st4)->Some_0;
    crate::util::lemma_split_encode(5, spv::SPV_INSTRUCTION_OP_COMPOSITE_EXTRACT);
    lemma_cfg_step(w, labels, 691, st5, (n - 5) as nat, stop);
    let st6 = exec_cfg(w, 691, spv::SPV_INSTRUCTION_OP_COMPOSITE_EXTRACT as int, st5)->Some_0;
    crate::util::lemma_split_encode(5, spv::SPV_INSTRUCTION_OP_COMPOSITE_EXTRACT);
    lemma_cfg_step(w, labels, 696, st6, (n - 6) as nat, stop);
    let st7 = exec_cfg(w, 696, spv::SPV_INSTRUCTION_OP_COMPOSITE_EXTRACT as int, st6)->Some_0;
    crate::util::lemma_split_encode(6, spv::SPV_INSTRUCTION_OP_COMPOSITE_CONSTRUCT);
    assert forall|k: int| 0 <= k < 3 implies #[trigger] st7.f.vals.contains_key(w[701 + 3 + k]) by {
        if k == 0 {} else if k == 1 {} else {}
    }
    lemma_cfg_step(w, labels, 701, st7, (n - 7) as nat, stop);
    let st8 = exec_cfg(w, 701, spv::SPV_INSTRUCTION_OP_COMPOSITE_CONSTRUCT as int, st7)->Some_0;
    assert(st8.vecs[cid(ib, 136)] =~= seq![g.f.mem[(cid(ib, 10), 0int)], g.f.mem[(cid(ib, 10), 1int)], g.f.mem[(cid(ib, 6), -1int)]]);
    st8
}

/// Runs the face selection from the block that stores the second flag: where it stands after
/// storing the face.
#[verifier::spinoff_prover]
#[verifier::rlimit(100)]
proof fn lemma_cube_face_tail(
    w: Seq<u32>,
    ib: int,
    t: CubeDirectionTypeInputs,
    function_type: u32,
    c: CubeDirectionConstants,
    glsl_std_id: u32,
    g: CfgFrame,
    xb: u32,
    yb: u32,
    zb: u32,
    n: nat,
    stop: int,
) -> (r: (CfgFrame, nat))
    requires
        w.len() == 710,
        w[197] == spec_encode_word(2, spv::SPV_INSTRUCTION_OP_LABEL),
        w[198] == cid(ib, 35),
        w[199] == spec_encode_word(7, spv::SPV_INSTRUCTION_OP_PHI),
        w[201] == cid(ib, 42),
        w[202] == cid(ib, 34),
        w[203] == cid(ib, 22),
        w[204] == cid(ib, 41),
        w[205] == cid(ib, 36),
        w[206] == spec_encode_word(3, spv::SPV_INSTRUCTION_OP_STORE),
        w[207] == cid(ib, 5),
        w[208] == cid(ib, 42),
        w[209] == spec_encode_word(4, spv::SPV_INSTRUCTION_OP_LOAD),
        w[210] == t.bool_id,
        w[211] == cid(ib, 43),
        w[212] == cid(ib, 4),
        w[213] == spec_encode_word(3, spv::SPV_INSTRUCTION_OP_SELECTION_MERGE),
        w[216] == spec_encode_word(4, spv::SPV_INSTRUCTION_OP_BRANCH_CONDITIONAL),
        w[217] == cid(ib, 43),
        w[218] == cid(ib, 45),
        w[219] == cid(ib, 46),
        w[220] == spec_encode_word(2, spv::SPV_INSTRUCTION_OP_LABEL),
        w[221] == cid(ib, 45),
        w[222] == spec_encode_word(5, spv::SPV_INSTRUCTION_OP_ACCESS_CHAIN),
        w[224] == cid(ib, 47),
        w[225] == cid(ib, 1),
        w[226] == c.int_0,
        w[227] == spec_encode_word(4, spv::SPV_INSTRUCTION_OP_LOAD),
        w[228] == t.int_id,
        w[229] == cid(ib, 48),
        w[230] == cid(ib, 47),
        w[231] == spec_encode_word(5, spv::SPV_INSTRUCTION_OP_S_GREATER_THAN),
        w[233] == cid(ib, 49),
        w[234] == cid(ib, 48),
        w[235] == c.int_0,
        w[236] == spec_encode_word(6, spv::SPV_INSTRUCTION_OP_SELECT),
        w[238] == cid(ib, 50),
        w[239] == cid(ib, 49),
        w[240] == c.int_0,
        w[241] == c.int_1,
        w[242] == spec_encode_word(3, spv::SPV_INSTRUCTION_OP_STORE),
        w[243] == cid(ib, 7),
        w[244] == cid(ib, 50),
        w[245] == spec_encode_word(2, spv::SPV_INSTRUCTION_OP_BRANCH),
        w[246] == cid(ib, 44),
        w[247] == spec_encode_word(2, spv::SPV_INSTRUCTION_OP_LABEL),
        w[248] == cid(ib, 46),
        w[249] == spec_encode_word(4, spv::SPV_INSTRUCTION_OP_LOAD),
        w[250] == t.bool_id,
        w[251] == cid(ib, 51),
        w[252] == cid(ib, 5),
        w[253] == spec_encode_word(3, spv::SPV_INSTRUCTION_OP_SELECTION_MERGE),
        w[256] == spec_encode_word(4, spv::SPV_INSTRUCTION_OP_BRANCH_CONDITIONAL),
        w[257] == cid(ib, 51),
        w[258] == cid(ib, 53),
        w[259] == cid(ib, 54),
        w[260] == spec_encode_word(2, spv::SPV_INSTRUCTION_OP_LABEL),
        w[261] == cid(ib, 53),
        w[262] == spec_encode_word(5, spv::SPV_INSTRUCTION_OP_ACCESS_CHAIN),
        w[264] == cid(ib, 55),
        w[265] == cid(ib, 1),
        w[266] == c.int_1,
        w[267] == spec_encode_word(4, spv::SPV_INSTRUCTION_OP_LOAD),
        w[268] == t.int_id,
        w[269] == cid(ib, 56),
        w[270] == cid(ib, 55),
        w[271] == spec_encode_word(5, spv::SPV_INSTRUCTION_OP_S_GREATER_THAN),
        w[273] == cid(ib, 57),
        w[274] == cid(ib, 56),
        w[275] == c.int_0,
        w[276] == spec_encode_word(6, spv::SPV_INSTRUCTION_OP_SELECT),
        w[278] == cid(ib, 58),
        w[279] == cid(ib, 57),
        w[280] == c.int_2,
        w[281] == c.int_3,
        w[282] == spec_encode_word(3, spv::SPV_INSTRUCTION_OP_STORE),
        w[283] == cid(ib, 8),
        w[284] == cid(ib, 58),
        w[285] == spec_encode_word(2, spv::SPV_INSTRUCTION_OP_BRANCH),
        w[286] == cid(ib, 52),
        w[287] == spec_encode_word(2, spv::SPV_INSTRUCTION_OP_LABEL),
        w[288] == cid(ib, 54),
        w[289] == spec_encode_word(5, spv::SPV_INSTRUCTION_OP_ACCESS_CHAIN),
        w[291] == cid(ib, 59),
        w[292] == cid(ib, 1),
        w[293] == c.int_2,
        w[294] == spec_encode_word(4, spv::SPV_INSTRUCTION_OP_LOAD),
        w[295] == t.int_id,
        w[296] == cid(ib, 60),
        w[297] == cid(ib, 59),
        w[298] == spec_encode_word(5, spv::SPV_INSTRUCTION_OP_S_GREATER_THAN),
        w[300] == cid(ib, 61),
        w[301] == cid(ib, 60),
        w[302] == c.int_0,
        w[303] == spec_encode_word(6, spv::SPV_INSTRUCTION_OP_SELECT),
        w[305] == cid(ib, 62),
        w[306] == cid(ib, 61),
        w[307] == c.int_4,
        w[308] == c.int_5,
        w[309] == spec_encode_word(3, spv::SPV_INSTRUCTION_OP_STORE),
        w[310] == cid(ib, 8),
        w[311] == cid(ib, 62),
        w[312] == spec_encode_word(2, spv::SPV_INSTRUCTION_OP_BRANCH),
        w[313] == cid(ib, 52),
        w[314] == spec_encode_word(2, spv::SPV_INSTRUCTION_OP_LABEL),
        w[315] == cid(ib, 52),
        w[316] == spec_encode_word(4, spv::SPV_INSTRUCTION_OP_LOAD),
        w[317] == t.int_id,
        w[318] == cid(ib, 63),
        w[319] == cid(ib, 8),
        w[320] == spec_encode_word(3, spv::SPV_INSTRUCTION_OP_STORE),
        w[321] == cid(ib, 7),
        w[322] == cid(ib, 63),
        w[323] == spec_encode_word(2, spv::SPV_INSTRUCTION_OP_BRANCH),
        w[324] == cid(ib, 44),
        w[325] == spec_encode_word(2, spv::SPV_INSTRUCTION_OP_LABEL),
        w[326] == cid(ib, 44),
        w[327] == spec_encode_word(4, spv::SPV_INSTRUCTION_OP_LOAD),
        w[328] == t.int_id,
        w[329] == cid(ib, 64),
        w[330] == cid(ib, 7),
        w[331] == spec_encode_word(3, spv::SPV_INSTRUCTION_OP_STORE),
        w[332] == cid(ib, 6),
        w[333] == cid(ib, 64),
        0 <= ib,
        ib + 137 <= u32::MAX,
        n >= 40,
        stop >= 334,
        cube_inv(ib, t, c, g, xb, yb, zb),
        g.f.mem.contains_key((cid(ib, 4), -1int)),
        (g.prev == cid(ib, 22) && g.f.vals.contains_key(cid(ib, 34))) || (g.prev == cid(ib, 36) && g.f.vals.contains_key(cid(ib, 41))),
    ensures
        r.1 <= 40,
        run_cfg(w, cube_labels(ib), 197, g, n, stop) == run_cfg(w, cube_labels(ib), 334, r.0, (n - r.1) as nat, stop),
        cube_inv(ib, t, c, r.0, xb, yb, zb),
        r.0.f.mem.contains_key((cid(ib, 6), -1int)),
        r.0.f.mem[(cid(ib, 6), -1int)] == if g.f.mem[(cid(ib, 4), -1int)] != 0 {
            cube_face(0, signed(xb as int))
        } else if (if g.prev == cid(ib, 22) { g.f.vals[cid(ib, 34)] } else { g.f.vals[cid(ib, 41)] }) != 0 {
            cube_face(1, signed(yb as int))
        } else {
            cube_face(2, signed(zb as int))
        },
{
    let labels = cube_labels(ib);
    crate::util::lemma_split_encode(4, spv::SPV_INSTRUCTION_OP_BRANCH_CONDITIONAL);
    let h5 = lemma_cube_run_y_flag(w, labels, ib, t, c, g, xb, yb, zb, n, stop);
    lemma_cfg_cond(w, labels, 216, h5, (n - 5) as nat, stop);
    let j5 = CfgFrame { prev: h5.cur, ..h5 };
    if h5.f.vals[cid(ib, 43)] != 0 {
        let h6 = lemma_cube_run_x_block(w, labels, ib, t, c, j5, xb, yb, zb, (n - 6) as nat, stop);
        let h7 = lemma_cube_run_face(w, labels, ib, t, c, h6, xb, yb, zb, (n - 13) as nat, stop);
        (h7, 16nat)
    } else {
        let r = lemma_cube_face_yz(w, ib, t, function_type, c, glsl_std_id, j5, xb, yb, zb, (n - 6) as nat, stop);
        (r.0, (r.1 + 6) as nat)
    }
}

/// Runs the face selection from the block taken when x is not the major axis.
#[verifier::spinoff_prover]
#[verifier::rlimit(100)]
proof fn lemma_cube_face_yz(
    w: Seq<u32>,
    ib: int,
    t: CubeDirectionTypeInputs,
    function_type: u32,
    c: CubeDirectionConstants,
    glsl_std_id: u32,
    g: CfgFrame,
    xb: u32,
    yb: u32,
    zb: u32,
    n: nat,
    stop: int,
) -> (r: (CfgFrame, nat))
    requires
        w.len() == 710,
        w[247] == spec_encode_word(2, spv::SPV_INSTRUCTION_OP_LABEL),
        w[248] == cid(ib, 46),
        w[249] == spec_encode_word(4, spv::SPV_INSTRUCTION_OP_LOAD),
        w[250] == t.bool_id,
        w[251] == cid(ib, 51),
        w[252] == cid(ib, 5),
        w[253] == spec_encode_word(3, spv::SPV_INSTRUCTION_OP_SELECTION_MERGE),
        w[256] == spec_encode_word(4, spv::SPV_INSTRUCTION_OP_BRANCH_CONDITIONAL),
        w[257] == cid(ib, 51),
        w[258] == cid(ib, 53),
        w[259] == cid(ib, 54),
        w[260] == spec_encode_word(2, spv::SPV_INSTRUCTION_OP_LABEL),
        w[261] == cid(ib, 53),
        w[262] == spec_encode_word(5, spv::SPV_INSTRUCTION_OP_ACCESS_CHAIN),
        w[264] == cid(ib, 55),
        w[265] == cid(ib, 1),
        w[266] == c.int_1,
        w[267] == spec_encode_word(4, spv::SPV_INSTRUCTION_OP_LOAD),
        w[268] == t.int_id,
        w[269] == cid(ib, 56),
        w[270] == cid(ib, 55),
        w[271] == spec_encode_word(5, spv::SPV_INSTRUCTION_OP_S_GREATER_THAN),
        w[273] == cid(ib, 57),
        w[274] == cid(ib, 56),
        w[275] == c.int_0,
        w[276] == spec_encode_word(6, spv::SPV_INSTRUCTION_OP_SELECT),
        w[278] == cid(ib, 58),
        w[279] == cid(ib, 57),
        w[280] == c.int_2,
        w[281] == c.int_3,
        w[282] == spec_encode_word(3, spv::SPV_INSTRUCTION_OP_STORE),
        w[283] == cid(ib, 8),
        w[284] == cid(ib, 58),
        w[285] == spec_encode_word(2, spv::SPV_INSTRUCTION_OP_BRANCH),
        w[286] == cid(ib, 52),
        w[287] == spec_encode_word(2, spv::SPV_INSTRUCTION_OP_LABEL),
        w[288] == cid(ib, 54),
        w[289] == spec_encode_word(5, spv::SPV_INSTRUCTION_OP_ACCESS_CHAIN),
        w[291] == cid(ib, 59),
        w[292] == cid(ib, 1),
        w[293] == c.int_2,
        w[294] == spec_encode_word(4, spv::SPV_INSTRUCTION_OP_LOAD),
        w[295] == t.int_id,
        w[296] == cid(ib, 60),
        w[297] == cid(ib, 59),
        w[298] == spec_encode_word(5, spv::SPV_INSTRUCTION_OP_S_GREATER_THAN),
        w[300] == cid(ib, 61),
        w[301] == cid(ib, 60),
        w[302] == c.int_0,
        w[303] == spec_encode_word(6, spv::SPV_INSTRUCTION_OP_SELECT),
        w[305] == cid(ib, 62),
        w[306] == cid(ib, 61),
        w[307] == c.int_4,
        w[308] == c.int_5,
        w[309] == spec_encode_word(3, spv::SPV_INSTRUCTION_OP_STORE),
        w[310] == cid(ib, 8),
        w[311] == cid(ib, 62),
        w[312] == spec_encode_word(2, spv::SPV_INSTRUCTION_OP_BRANCH),
        w[313] == cid(ib, 52),
        w[314] == spec_encode_word(2, spv::SPV_INSTRUCTION_OP_LABEL),
        w[315] == cid(ib, 52),
        w[316] == spec_encode_word(4, spv::SPV_INSTRUCTION_OP_LOAD),
        w[317] == t.int_id,
        w[318] == cid(ib, 63),
        w[319] == cid(ib, 8),
        w[320] == spec_encode_word(3, spv::SPV_INSTRUCTION_OP_STORE),
        w[321] == cid(ib, 7),
        w[322] == cid(ib, 63),
        w[323] == spec_encode_word(2, spv::SPV_INSTRUCTION_OP_BRANCH),
        w[324] == cid(ib, 44),
        w[325] == spec_encode_word(2, spv::SPV_INSTRUCTION_OP_LABEL),
        w[326] == cid(ib, 44),
        w[327] == spec_encode_word(4, spv::SPV_INSTRUCTION_OP_LOAD),
        w[328] == t.int_id,
        w[329] == cid(ib, 64),
        w[330] == cid(ib, 7),
        w[331] == spec_encode_word(3, spv::SPV_INSTRUCTION_OP_STORE),
        w[332] == cid(ib, 6),
        w[333] == cid(ib, 64),
        0 <= ib,
        ib + 137 <= u32::MAX,
        n >= 20,
        stop >= 334,
        cube_inv(ib, t, c, g, xb, yb, zb),
        g.f.mem.contains_key((cid(ib, 5), -1int)),
    ensures
        r.1 <= 20,
        run_cfg(w, cube_labels(ib), 247, g, n, stop)
            == run_cfg(w, cube_labels(ib), 334, r.0,
            (n - r.1) as nat, stop),
        cube_inv(ib, t, c, r.0, xb, yb, zb),
        r.0.f.mem.contains_key((cid(ib, 6), -1int)),
        r.0.f.mem[(cid(ib, 6), -1int)] == if g.f.mem[(cid(ib, 5), -1int)] != 0 {
            cube_face(1, signed(yb as int))
        } else {
            cube_face(2, signed(zb as int))
        },
{
    let labels = cube_labels(ib);
    crate::util::lemma_split_encode(4, spv::SPV_INSTRUCTION_OP_BRANCH_CONDITIONAL);
    let h6 = lemma_cube_run_not_x(w, labels, ib, t, c, g, xb, yb, zb, n, stop);
    lemma_cfg_cond(w, labels, 256, h6, (n - 3) as nat, stop);
    let j6 = CfgFrame { prev: h6.cur, ..h6 };
    let h7 = if h6.f.vals[cid(ib, 51)] != 0 {
        lemma_cube_run_y_block(w, labels, ib, t, c, j6, xb, yb, zb, (n - 4) as nat, stop)
    } else {
        lemma_cube_run_z_block(w, labels, ib, t, c, j6, xb, yb, zb, (n - 4) as nat, stop)
    };
    let h8 = lemma_cube_run_y_or_z(w, labels, ib, t, c, h7, xb, yb, zb, (n - 11) as nat, stop);
    let h9 = lemma_cube_run_face(w, labels, ib, t, c, h8, xb, yb, zb, (n - 15) as nat, stop);
    (h9, 18nat)
}

/// Runs the face selection from the block that stores the first flag.
#[verifier::spinoff_prover]
#[verifier::rlimit(100)]
proof fn lemma_cube_face_mid(
    w: Seq<u32>,
    ib: int,
    t: CubeDirectionTypeInputs,
    function_type: u32,
    c: CubeDirectionConstants,
    glsl_std_id: u32,
    g: CfgFrame,
    xb: u32,
    yb: u32,
    zb: u32,
    n: nat,
    stop: int,
) -> (r: (CfgFrame, nat))
    requires
        w.len() == 710,
        w[128] == spec_encode_word(2, spv::SPV_INSTRUCTION_OP_LABEL),
        w[129] == cid(ib, 22),
        w[130] == spec_encode_word(7, spv::SPV_INSTRUCTION_OP_PHI),
        w[132] == cid(ib, 29),
        w[133] == cid(ib, 21),
        w[134] == cid(ib, 2),
        w[135] == cid(ib, 28),
        w[136] == cid(ib, 23),
        w[137] == spec_encode_word(3, spv::SPV_INSTRUCTION_OP_STORE),
        w[138] == cid(ib, 4),
        w[139] == cid(ib, 29),
        w[140] == spec_encode_word(5, spv::SPV_INSTRUCTION_OP_ACCESS_CHAIN),
        w[142] == cid(ib, 30),
        w[143] == cid(ib, 3),
        w[144] == c.int_1,
        w[145] == spec_encode_word(4, spv::SPV_INSTRUCTION_OP_LOAD),
        w[146] == t.int_id,
        w[147] == cid(ib, 31),
        w[148] == cid(ib, 30),
        w[149] == spec_encode_word(5, spv::SPV_INSTRUCTION_OP_ACCESS_CHAIN),
        w[151] == cid(ib, 32),
        w[152] == cid(ib, 3),
        w[153] == c.int_0,
        w[154] == spec_encode_word(4, spv::SPV_INSTRUCTION_OP_LOAD),
        w[155] == t.int_id,
        w[156] == cid(ib, 33),
        w[157] == cid(ib, 32),
        w[158] == spec_encode_word(5, spv::SPV_INSTRUCTION_OP_S_GREATER_THAN),
        w[160] == cid(ib, 34),
        w[161] == cid(ib, 31),
        w[162] == cid(ib, 33),
        w[163] == spec_encode_word(3, spv::SPV_INSTRUCTION_OP_SELECTION_MERGE),
        w[166] == spec_encode_word(4, spv::SPV_INSTRUCTION_OP_BRANCH_CONDITIONAL),
        w[167] == cid(ib, 34),
        w[168] == cid(ib, 36),
        w[169] == cid(ib, 35),
        w[170] == spec_encode_word(2, spv::SPV_INSTRUCTION_OP_LABEL),
        w[171] == cid(ib, 36),
        w[172] == spec_encode_word(5, spv::SPV_INSTRUCTION_OP_ACCESS_CHAIN),
        w[174] == cid(ib, 37),
        w[175] == cid(ib, 3),
        w[176] == c.int_1,
        w[177] == spec_encode_word(4, spv::SPV_INSTRUCTION_OP_LOAD),
        w[178] == t.int_id,
        w[179] == cid(ib, 38),
        w[180] == cid(ib, 37),
        w[181] == spec_encode_word(5, spv::SPV_INSTRUCTION_OP_ACCESS_CHAIN),
        w[183] == cid(ib, 39),
        w[184] == cid(ib, 3),
        w[185] == c.int_2,
        w[186] == spec_encode_word(4, spv::SPV_INSTRUCTION_OP_LOAD),
        w[187] == t.int_id,
        w[188] == cid(ib, 40),
        w[189] == cid(ib, 39),
        w[190] == spec_encode_word(5, spv::SPV_INSTRUCTION_OP_S_GREATER_THAN_EQUAL),
        w[192] == cid(ib, 41),
        w[193] == cid(ib, 38),
        w[194] == cid(ib, 40),
        w[195] == spec_encode_word(2, spv::SPV_INSTRUCTION_OP_BRANCH),
        w[196] == cid(ib, 35),
        w[197] == spec_encode_word(2, spv::SPV_INSTRUCTION_OP_LABEL),
        w[198] == cid(ib, 35),
        w[199] == spec_encode_word(7, spv::SPV_INSTRUCTION_OP_PHI),
        w[201] == cid(ib, 42),
        w[202] == cid(ib, 34),
        w[203] == cid(ib, 22),
        w[204] == cid(ib, 41),
        w[205] == cid(ib, 36),
        w[206] == spec_encode_word(3, spv::SPV_INSTRUCTION_OP_STORE),
        w[207] == cid(ib, 5),
        w[208] == cid(ib, 42),
        w[209] == spec_encode_word(4, spv::SPV_INSTRUCTION_OP_LOAD),
        w[210] == t.bool_id,
        w[211] == cid(ib, 43),
        w[212] == cid(ib, 4),
        w[213] == spec_encode_word(3, spv::SPV_INSTRUCTION_OP_SELECTION_MERGE),
        w[216] == spec_encode_word(4, spv::SPV_INSTRUCTION_OP_BRANCH_CONDITIONAL),
        w[217] == cid(ib, 43),
        w[218] == cid(ib, 45),
        w[219] == cid(ib, 46),
        w[220] == spec_encode_word(2, spv::SPV_INSTRUCTION_OP_LABEL),
        w[221] == cid(ib, 45),
        w[222] == spec_encode_word(5, spv::SPV_INSTRUCTION_OP_ACCESS_CHAIN),
        w[224] == cid(ib, 47),
        w[225] == cid(ib, 1),
        w[226] == c.int_0,
        w[227] == spec_encode_word(4, spv::SPV_INSTRUCTION_OP_LOAD),
        w[228] == t.int_id,
        w[229] == cid(ib, 48),
        w[230] == cid(ib, 47),
        w[231] == spec_encode_word(5, spv::SPV_INSTRUCTION_OP_S_GREATER_THAN),
        w[233] == cid(ib, 49),
        w[234] == cid(ib, 48),
        w[235] == c.int_0,
        w[236] == spec_encode_word(6, spv::SPV_INSTRUCTION_OP_SELECT),
        w[238] == cid(ib, 50),
        w[239] == cid(ib, 49),
        w[240] == c.int_0,
        w[241] == c.int_1,
        w[242] == spec_encode_word(3, spv::SPV_INSTRUCTION_OP_STORE),
        w[243] == cid(ib, 7),
        w[244] == cid(ib, 50),
        w[245] == spec_encode_word(2, spv::SPV_INSTRUCTION_OP_BRANCH),
        w[246] == cid(ib, 44),
        w[247] == spec_encode_word(2, spv::SPV_INSTRUCTION_OP_LABEL),
        w[248] == cid(ib, 46),
        w[249] == spec_encode_word(4, spv::SPV_INSTRUCTION_OP_LOAD),
        w[250] == t.bool_id,
        w[251] == cid(ib, 51),
        w[252] == cid(ib, 5),
        w[253] == spec_encode_word(3, spv::SPV_INSTRUCTION_OP_SELECTION_MERGE),
        w[256] == spec_encode_word(4, spv::SPV_INSTRUCTION_OP_BRANCH_CONDITIONAL),
        w[257] == cid(ib, 51),
        w[258] == cid(ib, 53),
        w[259] == cid(ib, 54),
        w[260] == spec_encode_word(2, spv::SPV_INSTRUCTION_OP_LABEL),
        w[261] == cid(ib, 53),
        w[262] == spec_encode_word(5, spv::SPV_INSTRUCTION_OP_ACCESS_CHAIN),
        w[264] == cid(ib, 55),
        w[265] == cid(ib, 1),
        w[266] == c.int_1,
        w[267] == spec_encode_word(4, spv::SPV_INSTRUCTION_OP_LOAD),
        w[268] == t.int_id,
        w[269] == cid(ib, 56),
        w[270] == cid(ib, 55),
        w[271] == spec_encode_word(5, spv::SPV_INSTRUCTION_OP_S_GREATER_THAN),
        w[273] == cid(ib, 57),
        w[274] == cid(ib, 56),
        w[275] == c.int_0,
        w[276] == spec_encode_word(6, spv::SPV_INSTRUCTION_OP_SELECT),
        w[278] == cid(ib, 58),
        w[279] == cid(ib, 57),
        w[280] == c.int_2,
        w[281] == c.int_3,
        w[282] == spec_encode_word(3, spv::SPV_INSTRUCTION_OP_STORE),
        w[283] == cid(ib, 8),
        w[284] == cid(ib, 58),
        w[285] == spec_encode_word(2, spv::SPV_INSTRUCTION_OP_BRANCH),
        w[286] == cid(ib, 52),
        w[287] == spec_encode_word(2, spv::SPV_INSTRUCTION_OP_LABEL),
        w[288] == cid(ib, 54),
        w[289] == spec_encode_word(5, spv::SPV_INSTRUCTION_OP_ACCESS_CHAIN),
        w[291] == cid(ib, 59),
        w[292] == cid(ib, 1),
        w[293] == c.int_2,
        w[294] == spec_encode_word(4, spv::SPV_INSTRUCTION_OP_LOAD),
        w[295] == t.int_id,
        w[296] == cid(ib, 60),
        w[297] == cid(ib, 59),
        w[298] == spec_encode_word(5, spv::SPV_INSTRUCTION_OP_S_GREATER_THAN),
        w[300] == cid(ib, 61),
        w[301] == cid(ib, 60),
        w[302] == c.int_0,
        w[303] == spec_encode_word(6, spv::SPV_INSTRUCTION_OP_SELECT),
        w[305] == cid(ib, 62),
        w[306] == cid(ib, 61),
        w[307] == c.int_4,
        w[308] == c.int_5,
        w[309] == spec_encode_word(3, spv::SPV_INSTRUCTION_OP_STORE),
        w[310] == cid(ib, 8),
        w[311] == cid(ib, 62),
        w[312] == spec_encode_word(2, spv::SPV_INSTRUCTION_OP_BRANCH),
        w[313] == cid(ib, 52),
        w[314] == spec_encode_word(2, spv::SPV_INSTRUCTION_OP_LABEL),
        w[315] == cid(ib, 52),
        w[316] == spec_encode_word(4, spv::SPV_INSTRUCTION_OP_LOAD),
        w[317] == t.int_id,
        w[318] == cid(ib, 63),
        w[319] == cid(ib, 8),
        w[320] == spec_encode_word(3, spv::SPV_INSTRUCTION_OP_STORE),
        w[321] == cid(ib, 7),
        w[322] == cid(ib, 63),
        w[323] == spec_encode_word(2, spv::SPV_INSTRUCTION_OP_BRANCH),
        w[324] == cid(ib, 44),
        w[325] == spec_encode_word(2, spv::SPV_INSTRUCTION_OP_LABEL),
        w[326] == cid(ib, 44),
        w[327] == spec_encode_word(4, spv::SPV_INSTRUCTION_OP_LOAD),
        w[328] == t.int_id,
        w[329] == cid(ib, 64),
        w[330] == cid(ib, 7),
        w[331] == spec_encode_word(3, spv::SPV_INSTRUCTION_OP_STORE),
        w[332] == cid(ib, 6),
        w[333] == cid(ib, 64),
        0 <= ib,
        ib + 137 <= u32::MAX,
        n >= 60,
        stop >= 334,
        cube_inv(ib, t, c, g, xb, yb, zb),
        (g.prev == cid(ib, 2) && g.f.vals.contains_key(cid(ib, 21))) || (g.prev == cid(ib, 23) && g.f.vals.contains_key(cid(ib, 28))),
        xb != 0x8000_0000 && yb != 0x8000_0000 && zb != 0x8000_0000,
    ensures
        r.1 <= 60,
        run_cfg(w, cube_labels(ib), 128, g, n, stop) == run_cfg(w, cube_labels(ib), 334, r.0, (n - r.1) as nat, stop),
        cube_inv(ib, t, c, r.0, xb, yb, zb),
        r.0.f.mem.contains_key((cid(ib, 6), -1int)),
        r.0.f.mem[(cid(ib, 6), -1int)] == if (if g.prev == cid(ib, 2) { g.f.vals[cid(ib, 21)] } else { g.f.vals[cid(ib, 28)] }) != 0 {
            cube_face(0, signed(xb as int))
        } else if abs_int(signed(yb as int)) > abs_int(signed(xb as int)) && abs_int(signed(yb as int)) >= abs_int(signed(zb as int)) {
            cube_face(1, signed(yb as int))
        } else {
            cube_face(2, signed(zb as int))
        },
{
    let labels = cube_labels(ib);
    lemma_abs_bits(xb);
    lemma_abs_bits(yb);
    lemma_abs_bits(zb);
    crate::util::lemma_split_encode(4, spv::SPV_INSTRUCTION_OP_BRANCH_CONDITIONAL);
    let h3 = lemma_cube_run_x_flag(w, labels, ib, t, c, g, xb, yb, zb, n, stop);
    lemma_cfg_cond(w, labels, 166, h3, (n - 9) as nat, stop);
    let j3 = CfgFrame { prev: h3.cur, ..h3 };
    if h3.f.vals[cid(ib, 34)] != 0 {
        let h4 = lemma_cube_run_y_vs_z(w, labels, ib, t, c, j3, xb, yb, zb, (n - 10) as nat, stop);
        let r = lemma_cube_face_tail(w, ib, t, function_type, c, glsl_std_id, h4, xb, yb, zb, (n - 17) as nat, stop);
        (r.0, (r.1 + 17) as nat)
    } else {
        let r = lemma_cube_face_tail(w, ib, t, function_type, c, glsl_std_id, j3, xb, yb, zb, (n - 10) as nat, stop);
        (r.0, (r.1 + 10) as nat)
    }
}

/// Runs the face selection from the function's entry: where it stands after storing the face.
#[verifier::spinoff_prover]
#[verifier::rlimit(100)]
proof fn lemma_cube_select_face(
    w: Seq<u32>,
    ib: int,
    t: CubeDirectionTypeInputs,
    function_type: u32,
    c: CubeDirectionConstants,
    glsl_std_id: u32,
    vals: Map<u32, int>,
    xb: u32,
    yb: u32,
    zb: u32,
    n: nat,
    stop: int,
) -> (r: (CfgFrame, nat))
    requires
        w.len() == 710,
        w[0] == spec_encode_word(5, spv::SPV_INSTRUCTION_OP_FUNCTION),
        w[5] == spec_encode_word(3, spv::SPV_INSTRUCTION_OP_FUNCTION_PARAMETER),
        w[7] == cid(ib, 1),
        w[8] == spec_encode_word(2, spv::SPV_INSTRUCTION_OP_LABEL),
        w[9] == cid(ib, 2),
        w[10] == spec_encode_word(4, spv::SPV_INSTRUCTION_OP_VARIABLE),
        w[12] == cid(ib, 3),
        w[14] == spec_encode_word(4, spv::SPV_INSTRUCTION_OP_VARIABLE),
        w[16] == cid(ib, 4),
        w[18] == spec_encode_word(4, spv::SPV_INSTRUCTION_OP_VARIABLE),
        w[20] == cid(ib, 5),
        w[22] == spec_encode_word(4, spv::SPV_INSTRUCTION_OP_VARIABLE),
        w[24] == cid(ib, 6),
        w[26] == spec_encode_word(4, spv::SPV_INSTRUCTION_OP_VARIABLE),
        w[28] == cid(ib, 7),
        w[30] == spec_encode_word(4, spv::SPV_INSTRUCTION_OP_VARIABLE),
        w[32] == cid(ib, 8),
        w[34] == spec_encode_word(4, spv::SPV_INSTRUCTION_OP_VARIABLE),
        w[36] == cid(ib, 9),
        w[38] == spec_encode_word(4, spv::SPV_INSTRUCTION_OP_VARIABLE),
        w[40] == cid(ib, 10),
        w[42] == spec_encode_word(4, spv::SPV_INSTRUCTION_OP_VARIABLE),
        w[44] == cid(ib, 11),
        w[46] == spec_encode_word(4, spv::SPV_INSTRUCTION_OP_VARIABLE),
        w[48] == cid(ib, 12),
        w[50] == spec_encode_word(4, spv::SPV_INSTRUCTION_OP_VARIABLE),
        w[52] == cid(ib, 13),
        w[54] == spec_encode_word(4, spv::SPV_INSTRUCTION_OP_VARIABLE),
        w[56] == cid(ib, 14),
        w[58] == spec_encode_word(4, spv::SPV_INSTRUCTION_OP_LOAD),
        w[59] == t.v3int_id,
        w[60] == cid(ib, 15),
        w[61] == cid(ib, 1),
        w[62] == spec_encode_word(6, spv::SPV_INSTRUCTION_OP_EXT_INST),
        w[64] == cid(ib, 16),
        w[66] == spv::SPV_GLSL_STD_INSTRUCTION_SABS,
        w[67] == cid(ib, 15),
        w[68] == spec_encode_word(3, spv::SPV_INSTRUCTION_OP_STORE),
        w[69] == cid(ib, 3),
        w[70] == cid(ib, 16),
        w[71] == spec_encode_word(5, spv::SPV_INSTRUCTION_OP_ACCESS_CHAIN),
        w[73] == cid(ib, 17),
        w[74] == cid(ib, 3),
        w[75] == c.int_0,
        w[76] == spec_encode_word(4, spv::SPV_INSTRUCTION_OP_LOAD),
        w[77] == t.int_id,
        w[78] == cid(ib, 18),
        w[79] == cid(ib, 17),
        w[80] == spec_encode_word(5, spv::SPV_INSTRUCTION_OP_ACCESS_CHAIN),
        w[82] == cid(ib, 19),
        w[83] == cid(ib, 3),
        w[84] == c.int_1,
        w[85] == spec_encode_word(4, spv::SPV_INSTRUCTION_OP_LOAD),
        w[86] == t.int_id,
        w[87] == cid(ib, 20),
        w[88] == cid(ib, 19),
        w[89] == spec_encode_word(5, spv::SPV_INSTRUCTION_OP_S_GREATER_THAN_EQUAL),
        w[91] == cid(ib, 21),
        w[92] == cid(ib, 18),
        w[93] == cid(ib, 20),
        w[94] == spec_encode_word(3, spv::SPV_INSTRUCTION_OP_SELECTION_MERGE),
        w[97] == spec_encode_word(4, spv::SPV_INSTRUCTION_OP_BRANCH_CONDITIONAL),
        w[98] == cid(ib, 21),
        w[99] == cid(ib, 23),
        w[100] == cid(ib, 22),
        w[101] == spec_encode_word(2, spv::SPV_INSTRUCTION_OP_LABEL),
        w[102] == cid(ib, 23),
        w[103] == spec_encode_word(5, spv::SPV_INSTRUCTION_OP_ACCESS_CHAIN),
        w[105] == cid(ib, 24),
        w[106] == cid(ib, 3),
        w[107] == c.int_0,
        w[108] == spec_encode_word(4, spv::SPV_INSTRUCTION_OP_LOAD),
        w[109] == t.int_id,
        w[110] == cid(ib, 25),
        w[111] == cid(ib, 24),
        w[112] == spec_encode_word(5, spv::SPV_INSTRUCTION_OP_ACCESS_CHAIN),
        w[114] == cid(ib, 26),
        w[115] == cid(ib, 3),
        w[116] == c.int_2,
        w[117] == spec_encode_word(4, spv::SPV_INSTRUCTION_OP_LOAD),
        w[118] == t.int_id,
        w[119] == cid(ib, 27),
        w[120] == cid(ib, 26),
        w[121] == spec_encode_word(5, spv::SPV_INSTRUCTION_OP_S_GREATER_THAN_EQUAL),
        w[123] == cid(ib, 28),
        w[124] == cid(ib, 25),
        w[125] == cid(ib, 27),
        w[126] == spec_encode_word(2, spv::SPV_INSTRUCTION_OP_BRANCH),
        w[127] == cid(ib, 22),
        w[128] == spec_encode_word(2, spv::SPV_INSTRUCTION_OP_LABEL),
        w[129] == cid(ib, 22),
        w[130] == spec_encode_word(7, spv::SPV_INSTRUCTION_OP_PHI),
        w[132] == cid(ib, 29),
        w[133] == cid(ib, 21),
        w[134] == cid(ib, 2),
        w[135] == cid(ib, 28),
        w[136] == cid(ib, 23),
        w[137] == spec_encode_word(3, spv::SPV_INSTRUCTION_OP_STORE),
        w[138] == cid(ib, 4),
        w[139] == cid(ib, 29),
        w[140] == spec_encode_word(5, spv::SPV_INSTRUCTION_OP_ACCESS_CHAIN),
        w[142] == cid(ib, 30),
        w[143] == cid(ib, 3),
        w[144] == c.int_1,
        w[145] == spec_encode_word(4, spv::SPV_INSTRUCTION_OP_LOAD),
        w[146] == t.int_id,
        w[147] == cid(ib, 31),
        w[148] == cid(ib, 30),
        w[149] == spec_encode_word(5, spv::SPV_INSTRUCTION_OP_ACCESS_CHAIN),
        w[151] == cid(ib, 32),
        w[152] == cid(ib, 3),
        w[153] == c.int_0,
        w[154] == spec_encode_word(4, spv::SPV_INSTRUCTION_OP_LOAD),
        w[155] == t.int_id,
        w[156] == cid(ib, 33),
        w[157] == cid(ib, 32),
        w[158] == spec_encode_word(5, spv::SPV_INSTRUCTION_OP_S_GREATER_THAN),
        w[160] == cid(ib, 34),
        w[161] == cid(ib, 31),
        w[162] == cid(ib, 33),
        w[163] == spec_encode_word(3, spv::SPV_INSTRUCTION_OP_SELECTION_MERGE),
        w[166] == spec_encode_word(4, spv::SPV_INSTRUCTION_OP_BRANCH_CONDITIONAL),
        w[167] == cid(ib, 34),
        w[168] == cid(ib, 36),
        w[169] == cid(ib, 35),
        w[170] == spec_encode_word(2, spv::SPV_INSTRUCTION_OP_LABEL),
        w[171] == cid(ib, 36),
        w[172] == spec_encode_word(5, spv::SPV_INSTRUCTION_OP_ACCESS_CHAIN),
        w[174] == cid(ib, 37),
        w[175] == cid(ib, 3),
        w[176] == c.int_1,
        w[177] == spec_encode_word(4, spv::SPV_INSTRUCTION_OP_LOAD),
        w[178] == t.int_id,
        w[179] == cid(ib, 38),
        w[180] == cid(ib, 37),
        w[181] == spec_encode_word(5, spv::SPV_INSTRUCTION_OP_ACCESS_CHAIN),
        w[183] == cid(ib, 39),
        w[184] == cid(ib, 3),
        w[185] == c.int_2,
        w[186] == spec_encode_word(4, spv::SPV_INSTRUCTION_OP_LOAD),
        w[187] == t.int_id,
        w[188] == cid(ib, 40),
        w[189] == cid(ib, 39),
        w[190] == spec_encode_word(5, spv::SPV_INSTRUCTION_OP_S_GREATER_THAN_EQUAL),
        w[192] == cid(ib, 41),
        w[193] == cid(ib, 38),
        w[194] == cid(ib, 40),
        w[195] == spec_encode_word(2, spv::SPV_INSTRUCTION_OP_BRANCH),
        w[196] == cid(ib, 35),
        w[197] == spec_encode_word(2, spv::SPV_INSTRUCTION_OP_LABEL),
        w[198] == cid(ib, 35),
        w[199] == spec_encode_word(7, spv::SPV_INSTRUCTION_OP_PHI),
        w[201] == cid(ib, 42),
        w[202] == cid(ib, 34),
        w[203] == cid(ib, 22),
        w[204] == cid(ib, 41),
        w[205] == cid(ib, 36),
        w[206] == spec_encode_word(3, spv::SPV_INSTRUCTION_OP_STORE),
        w[207] == cid(ib, 5),
        w[208] == cid(ib, 42),
        w[209] == spec_encode_word(4, spv::SPV_INSTRUCTION_OP_LOAD),
        w[210] == t.bool_id,
        w[211] == cid(ib, 43),
        w[212] == cid(ib, 4),
        w[213] == spec_encode_word(3, spv::SPV_INSTRUCTION_OP_SELECTION_MERGE),
        w[216] == spec_encode_word(4, spv::SPV_INSTRUCTION_OP_BRANCH_CONDITIONAL),
        w[217] == cid(ib, 43),
        w[218] == cid(ib, 45),
        w[219] == cid(ib, 46),
        w[220] == spec_encode_word(2, spv::SPV_INSTRUCTION_OP_LABEL),
        w[221] == cid(ib, 45),
        w[222] == spec_encode_word(5, spv::SPV_INSTRUCTION_OP_ACCESS_CHAIN),
        w[224] == cid(ib, 47),
        w[225] == cid(ib, 1),
        w[226] == c.int_0,
        w[227] == spec_encode_word(4, spv::SPV_INSTRUCTION_OP_LOAD),
        w[228] == t.int_id,
        w[229] == cid(ib, 48),
        w[230] == cid(ib, 47),
        w[231] == spec_encode_word(5, spv::SPV_INSTRUCTION_OP_S_GREATER_THAN),
        w[233] == cid(ib, 49),
        w[234] == cid(ib, 48),
        w[235] == c.int_0,
        w[236] == spec_encode_word(6, spv::SPV_INSTRUCTION_OP_SELECT),
        w[238] == cid(ib, 50),
        w[239] == cid(ib, 49),
        w[240] == c.int_0,
        w[241] == c.int_1,
        w[242] == spec_encode_word(3, spv::SPV_INSTRUCTION_OP_STORE),
        w[243] == cid(ib, 7),
        w[244] == cid(ib, 50),
        w[245] == spec_encode_word(2, spv::SPV_INSTRUCTION_OP_BRANCH),
        w[246] == cid(ib, 44),
        w[247] == spec_encode_word(2, spv::SPV_INSTRUCTION_OP_LABEL),
        w[248] == cid(ib, 46),
        w[249] == spec_encode_word(4, spv::SPV_INSTRUCTION_OP_LOAD),
        w[250] == t.bool_id,
        w[251] == cid(ib, 51),
        w[252] == cid(ib, 5),
        w[253] == spec_encode_word(3, spv::SPV_INSTRUCTION_OP_SELECTION_MERGE),
        w[256] == spec_encode_word(4, spv::SPV_INSTRUCTION_OP_BRANCH_CONDITIONAL),
        w[257] == cid(ib, 51),
        w[258] == cid(ib, 53),
        w[259] == cid(ib, 54),
        w[260] == spec_encode_word(2, spv::SPV_INSTRUCTION_OP_LABEL),
        w[261] == cid(ib, 53),
        w[262] == spec_encode_word(5, spv::SPV_INSTRUCTION_OP_ACCESS_CHAIN),
        w[264] == cid(ib, 55),
        w[265] == cid(ib, 1),
        w[266] == c.int_1,
        w[267] == spec_encode_word(4, spv::SPV_INSTRUCTION_OP_LOAD),
        w[268] == t.int_id,
        w[269] == cid(ib, 56),
        w[270] == cid(ib, 55),
        w[271] == spec_encode_word(5, spv::SPV_INSTRUCTION_OP_S_GREATER_THAN),
        w[273] == cid(ib, 57),
        w[274] == cid(ib, 56),
        w[275] == c.int_0,
        w[276] == spec_encode_word(6, spv::SPV_INSTRUCTION_OP_SELECT),
        w[278] == cid(ib, 58),
        w[279] == cid(ib, 57),
        w[280] == c.int_2,
        w[281] == c.int_3,
        w[282] == spec_encode_word(3, spv::SPV_INSTRUCTION_OP_STORE),
        w[283] == cid(ib, 8),
        w[284] == cid(ib, 58),
        w[285] == spec_encode_word(2, spv::SPV_INSTRUCTION_OP_BRANCH),
        w[286] == cid(ib, 52),
        w[287] == spec_encode_word(2, spv::SPV_INSTRUCTION_OP_LABEL),
        w[288] == cid(ib, 54),
        w[289] == spec_encode_word(5, spv::SPV_INSTRUCTION_OP_ACCESS_CHAIN),
        w[291] == cid(ib, 59),
        w[292] == cid(ib, 1),
        w[293] == c.int_2,
        w[294] == spec_encode_word(4, spv::SPV_INSTRUCTION_OP_LOAD),
        w[295] == t.int_id,
        w[296] == cid(ib, 60),
        w[297] == cid(ib, 59),
        w[298] == spec_encode_word(5, spv::SPV_INSTRUCTION_OP_S_GREATER_THAN),
        w[300] == cid(ib, 61),
        w[301] == cid(ib, 60),
        w[302] == c.int_0,
        w[303] == spec_encode_word(6, spv::SPV_INSTRUCTION_OP_SELECT),
        w[305] == cid(ib, 62),
        w[306] == cid(ib, 61),
        w[307] == c.int_4,
        w[308] == c.int_5,
        w[309] == spec_encode_word(3, spv::SPV_INSTRUCTION_OP_STORE),
        w[310] == cid(ib, 8),
        w[311] == cid(ib, 62),
        w[312] == spec_encode_word(2, spv::SPV_INSTRUCTION_OP_BRANCH),
        w[313] == cid(ib, 52),
        w[314] == spec_encode_word(2, spv::SPV_INSTRUCTION_OP_LABEL),
        w[315] == cid(ib, 52),
        w[316] == spec_encode_word(4, spv::SPV_INSTRUCTION_OP_LOAD),
        w[317] == t.int_id,
        w[318] == cid(ib, 63),
        w[319] == cid(ib, 8),
        w[320] == spec_encode_word(3, spv::SPV_INSTRUCTION_OP_STORE),
        w[321] == cid(ib, 7),
        w[322] == cid(ib, 63),
        w[323] == spec_encode_word(2, spv::SPV_INSTRUCTION_OP_BRANCH),
        w[324] == cid(ib, 44),
        w[325] == spec_encode_word(2, spv::SPV_INSTRUCTION_OP_LABEL),
        w[326] == cid(ib, 44),
        w[327] == spec_encode_word(4, spv::SPV_INSTRUCTION_OP_LOAD),
        w[328] == t.int_id,
        w[329] == cid(ib, 64),
        w[330] == cid(ib, 7),
        w[331] == spec_encode_word(3, spv::SPV_INSTRUCTION_OP_STORE),
        w[332] == cid(ib, 6),
        w[333] == cid(ib, 64),
        0 <= ib,
        ib + 137 <= u32::MAX,
        cube_constants_hold(vals, c),
        cube_ids_apart(ib, c),
        cube_types_apart(t),
        xb != 0x8000_0000 && yb != 0x8000_0000 && zb != 0x8000_0000,
        n >= 100,
        stop >= 334,
    ensures
        r.1 <= 100,
        run_cfg(w, cube_labels(ib), 0, cube_entry(ib, t, vals, xb, yb, zb), n, stop) == run_cfg(w, cube_labels(ib),
            334, r.0, (n - r.1) as nat, stop),
        cube_inv(ib, t, c, r.0, xb, yb, zb),
        r.0.f.mem.contains_key((cid(ib, 6), -1int)),
        r.0.f.mem[(cid(ib, 6), -1int)] == cube_face_of(signed(xb as int), signed(yb as int), signed(zb as int)),
{
    let labels = cube_labels(ib);
    lemma_abs_bits(xb);
    lemma_abs_bits(yb);
    lemma_abs_bits(zb);
    crate::util::lemma_split_encode(4, spv::SPV_INSTRUCTION_OP_BRANCH_CONDITIONAL);
    let g0 = cube_entry(ib, t, vals, xb, yb, zb);
    let h1 = lemma_cube_run_entry(w, labels, ib, t, c, g0, xb, yb, zb, n, stop);
    lemma_cfg_cond(w, labels, 97, h1, (n - 24) as nat, stop);
    let j1 = CfgFrame { prev: h1.cur, ..h1 };
    if h1.f.vals[cid(ib, 21)] != 0 {
        let h2 = lemma_cube_run_x_vs_z(w, labels, ib, t, c, j1, xb, yb, zb, (n - 25) as nat, stop);
        let r = lemma_cube_face_mid(w, ib, t, function_type, c, glsl_std_id, h2, xb, yb, zb, (n - 32) as nat, stop);
        (r.0, (r.1 + 32) as nat)
    } else {
        let r = lemma_cube_face_mid(w, ib, t, function_type, c, glsl_std_id, j1, xb, yb, zb, (n - 25) as nat, stop);
        (r.0, (r.1 + 25) as nat)
    }
}

/// Runs the choice of the coordinates from where the face is stored: where it stands at the
/// function's return.
#[verifier::spinoff_prover]
#[verifier::rlimit(100)]
proof fn lemma_cube_select_coords(
    w: Seq<u32>,
    ib: int,
    t: CubeDirectionTypeInputs,
    function_type: u32,
    c: CubeDirectionConstants,
    glsl_std_id: u32,
    g: CfgFrame,
    xb: u32,
    yb: u32,
    zb: u32,
    n: nat,
) -> (r: (CfgFrame, nat))
    requires
        w.len() == 710,
        w[334] == spec_encode_word(4, spv::SPV_INSTRUCTION_OP_LOAD),
        w[335] == t.int_id,
        w[336] == cid(ib, 65),
        w[337] == cid(ib, 6),
        w[338] == spec_encode_word(5, spv::SPV_INSTRUCTION_OP_I_EQUAL),
        w[340] == cid(ib, 66),
        w[341] == cid(ib, 65),
        w[342] == c.int_0,
        w[343] == spec_encode_word(3, spv::SPV_INSTRUCTION_OP_SELECTION_MERGE),
        w[346] == spec_encode_word(4, spv::SPV_INSTRUCTION_OP_BRANCH_CONDITIONAL),
        w[347] == cid(ib, 66),
        w[348] == cid(ib, 68),
        w[349] == cid(ib, 69),
        w[350] == spec_encode_word(2, spv::SPV_INSTRUCTION_OP_LABEL),
        w[351] == cid(ib, 68),
        w[352] == spec_encode_word(5, spv::SPV_INSTRUCTION_OP_ACCESS_CHAIN),
        w[354] == cid(ib, 70),
        w[355] == cid(ib, 1),
        w[356] == c.int_2,
        w[357] == spec_encode_word(4, spv::SPV_INSTRUCTION_OP_LOAD),
        w[358] == t.int_id,
        w[359] == cid(ib, 71),
        w[360] == cid(ib, 70),
        w[361] == spec_encode_word(4, spv::SPV_INSTRUCTION_OP_S_NEGATE),
        w[363] == cid(ib, 72),
        w[364] == cid(ib, 71),
        w[365] == spec_encode_word(5, spv::SPV_INSTRUCTION_OP_ACCESS_CHAIN),
        w[367] == cid(ib, 73),
        w[368] == cid(ib, 1),
        w[369] == c.int_1,
        w[370] == spec_encode_word(4, spv::SPV_INSTRUCTION_OP_LOAD),
        w[371] == t.int_id,
        w[372] == cid(ib, 74),
        w[373] == cid(ib, 73),
        w[374] == spec_encode_word(4, spv::SPV_INSTRUCTION_OP_S_NEGATE),
        w[376] == cid(ib, 75),
        w[377] == cid(ib, 74),
        w[378] == spec_encode_word(5, spv::SPV_INSTRUCTION_OP_COMPOSITE_CONSTRUCT),
        w[379] == t.v2int_id,
        w[380] == cid(ib, 76),
        w[381] == cid(ib, 72),
        w[382] == cid(ib, 75),
        w[383] == spec_encode_word(3, spv::SPV_INSTRUCTION_OP_STORE),
        w[384] == cid(ib, 10),
        w[385] == cid(ib, 76),
        w[386] == spec_encode_word(2, spv::SPV_INSTRUCTION_OP_BRANCH),
        w[387] == cid(ib, 67),
        w[388] == spec_encode_word(2, spv::SPV_INSTRUCTION_OP_LABEL),
        w[389] == cid(ib, 69),
        w[390] == spec_encode_word(4, spv::SPV_INSTRUCTION_OP_LOAD),
        w[391] == t.int_id,
        w[392] == cid(ib, 77),
        w[393] == cid(ib, 6),
        w[394] == spec_encode_word(5, spv::SPV_INSTRUCTION_OP_I_EQUAL),
        w[396] == cid(ib, 78),
        w[397] == cid(ib, 77),
        w[398] == c.int_1,
        w[399] == spec_encode_word(3, spv::SPV_INSTRUCTION_OP_SELECTION_MERGE),
        w[402] == spec_encode_word(4, spv::SPV_INSTRUCTION_OP_BRANCH_CONDITIONAL),
        w[403] == cid(ib, 78),
        w[404] == cid(ib, 80),
        w[405] == cid(ib, 81),
        w[406] == spec_encode_word(2, spv::SPV_INSTRUCTION_OP_LABEL),
        w[407] == cid(ib, 80),
        w[408] == spec_encode_word(5, spv::SPV_INSTRUCTION_OP_ACCESS_CHAIN),
        w[410] == cid(ib, 82),
        w[411] == cid(ib, 1),
        w[412] == c.int_2,
        w[413] == spec_encode_word(4, spv::SPV_INSTRUCTION_OP_LOAD),
        w[414] == t.int_id,
        w[415] == cid(ib, 83),
        w[416] == cid(ib, 82),
        w[417] == spec_encode_word(5, spv::SPV_INSTRUCTION_OP_ACCESS_CHAIN),
        w[419] == cid(ib, 84),
        w[420] == cid(ib, 1),
        w[421] == c.int_1,
        w[422] == spec_encode_word(4, spv::SPV_INSTRUCTION_OP_LOAD),
        w[423] == t.int_id,
        w[424] == cid(ib, 85),
        w[425] == cid(ib, 84),
        w[426] == spec_encode_word(4, spv::SPV_INSTRUCTION_OP_S_NEGATE),
        w[428] == cid(ib, 86),
        w[429] == cid(ib, 85),
        w[430] == spec_encode_word(5, spv::SPV_INSTRUCTION_OP_COMPOSITE_CONSTRUCT),
        w[431] == t.v2int_id,
        w[432] == cid(ib, 87),
        w[433] == cid(ib, 83),
        w[434] == cid(ib, 86),
        w[435] == spec_encode_word(3, spv::SPV_INSTRUCTION_OP_STORE),
        w[436] == cid(ib, 11),
        w[437] == cid(ib, 87),
        w[438] == spec_encode_word(2, spv::SPV_INSTRUCTION_OP_BRANCH),
        w[439] == cid(ib, 79),
        w[440] == spec_encode_word(2, spv::SPV_INSTRUCTION_OP_LABEL),
        w[441] == cid(ib, 81),
        w[442] == spec_encode_word(4, spv::SPV_INSTRUCTION_OP_LOAD),
        w[443] == t.int_id,
        w[444] == cid(ib, 88),
        w[445] == cid(ib, 6),
        w[446] == spec_encode_word(5, spv::SPV_INSTRUCTION_OP_I_EQUAL),
        w[448] == cid(ib, 89),
        w[449] == cid(ib, 88),
        w[450] == c.int_2,
        w[451] == spec_encode_word(3, spv::SPV_INSTRUCTION_OP_SELECTION_MERGE),
        w[454] == spec_encode_word(4, spv::SPV_INSTRUCTION_OP_BRANCH_CONDITIONAL),
        w[455] == cid(ib, 89),
        w[456] == cid(ib, 91),
        w[457] == cid(ib, 92),
        w[458] == spec_encode_word(2, spv::SPV_INSTRUCTION_OP_LABEL),
        w[459] == cid(ib, 91),
        w[460] == spec_encode_word(5, spv::SPV_INSTRUCTION_OP_ACCESS_CHAIN),
        w[462] == cid(ib, 93),
        w[463] == cid(ib, 1),
        w[464] == c.int_0,
        w[465] == spec_encode_word(4, spv::SPV_INSTRUCTION_OP_LOAD),
        w[466] == t.int_id,
        w[467] == cid(ib, 94),
        w[468] == cid(ib, 93),
        w[469] == spec_encode_word(5, spv::SPV_INSTRUCTION_OP_ACCESS_CHAIN),
        w[471] == cid(ib, 95),
        w[472] == cid(ib, 1),
        w[473] == c.int_2,
        w[474] == spec_encode_word(4, spv::SPV_INSTRUCTION_OP_LOAD),
        w[475] == t.int_id,
        w[476] == cid(ib, 96),
        w[477] == cid(ib, 95),
        w[478] == spec_encode_word(5, spv::SPV_INSTRUCTION_OP_COMPOSITE_CONSTRUCT),
        w[479] == t.v2int_id,
        w[480] == cid(ib, 97),
        w[481] == cid(ib, 94),
        w[482] == cid(ib, 96),
        w[483] == spec_encode_word(3, spv::SPV_INSTRUCTION_OP_STORE),
        w[484] == cid(ib, 12),
        w[485] == cid(ib, 97),
        w[486] == spec_encode_word(2, spv::SPV_INSTRUCTION_OP_BRANCH),
        w[487] == cid(ib, 90),
        w[488] == spec_encode_word(2, spv::SPV_INSTRUCTION_OP_LABEL),
        w[489] == cid(ib, 92),
        w[490] == spec_encode_word(4, spv::SPV_INSTRUCTION_OP_LOAD),
        w[491] == t.int_id,
        w[492] == cid(ib, 98),
        w[493] == cid(ib, 6),
        w[494] == spec_encode_word(5, spv::SPV_INSTRUCTION_OP_I_EQUAL),
        w[496] == cid(ib, 99),
        w[497] == cid(ib, 98),
        w[498] == c.int_3,
        w[499] == spec_encode_word(3, spv::SPV_INSTRUCTION_OP_SELECTION_MERGE),
        w[502] == spec_encode_word(4, spv::SPV_INSTRUCTION_OP_BRANCH_CONDITIONAL),
        w[503] == cid(ib, 99),
        w[504] == cid(ib, 101),
        w[505] == cid(ib, 102),
        w[506] == spec_encode_word(2, spv::SPV_INSTRUCTION_OP_LABEL),
        w[507] == cid(ib, 101),
        w[508] == spec_encode_word(5, spv::SPV_INSTRUCTION_OP_ACCESS_CHAIN),
        w[510] == cid(ib, 103),
        w[511] == cid(ib, 1),
        w[512] == c.int_0,
        w[513] == spec_encode_word(4, spv::SPV_INSTRUCTION_OP_LOAD),
        w[514] == t.int_id,
        w[515] == cid(ib, 104),
        w[516] == cid(ib, 103),
        w[517] == spec_encode_word(5, spv::SPV_INSTRUCTION_OP_ACCESS_CHAIN),
        w[519] == cid(ib, 105),
        w[520] == cid(ib, 1),
        w[521] == c.int_2,
        w[522] == spec_encode_word(4, spv::SPV_INSTRUCTION_OP_LOAD),
        w[523] == t.int_id,
        w[524] == cid(ib, 106),
        w[525] == cid(ib, 105),
        w[526] == spec_encode_word(4, spv::SPV_INSTRUCTION_OP_S_NEGATE),
        w[528] == cid(ib, 107),
        w[529] == cid(ib, 106),
        w[530] == spec_encode_word(5, spv::SPV_INSTRUCTION_OP_COMPOSITE_CONSTRUCT),
        w[531] == t.v2int_id,
        w[532] == cid(ib, 108),
        w[533] == cid(ib, 104),
        w[534] == cid(ib, 107),
        w[535] == spec_encode_word(3, spv::SPV_INSTRUCTION_OP_STORE),
        w[536] == cid(ib, 13),
        w[537] == cid(ib, 108),
        w[538] == spec_encode_word(2, spv::SPV_INSTRUCTION_OP_BRANCH),
        w[539] == cid(ib, 100),
        w[540] == spec_encode_word(2, spv::SPV_INSTRUCTION_OP_LABEL),
        w[541] == cid(ib, 102),
        w[542] == spec_encode_word(4, spv::SPV_INSTRUCTION_OP_LOAD),
        w[543] == t.int_id,
        w[544] == cid(ib, 109),
        w[545] == cid(ib, 6),
        w[546] == spec_encode_word(5, spv::SPV_INSTRUCTION_OP_I_EQUAL),
        w[548] == cid(ib, 110),
        w[549] == cid(ib, 109),
        w[550] == c.int_4,
        w[551] == spec_encode_word(3, spv::SPV_INSTRUCTION_OP_SELECTION_MERGE),
        w[554] == spec_encode_word(4, spv::SPV_INSTRUCTION_OP_BRANCH_CONDITIONAL),
        w[555] == cid(ib, 110),
        w[556] == cid(ib, 112),
        w[557] == cid(ib, 113),
        w[558] == spec_encode_word(2, spv::SPV_INSTRUCTION_OP_LABEL),
        w[559] == cid(ib, 112),
        w[560] == spec_encode_word(5, spv::SPV_INSTRUCTION_OP_ACCESS_CHAIN),
        w[562] == cid(ib, 114),
        w[563] == cid(ib, 1),
        w[564] == c.int_0,
        w[565] == spec_encode_word(4, spv::SPV_INSTRUCTION_OP_LOAD),
        w[566] == t.int_id,
        w[567] == cid(ib, 115),
        w[568] == cid(ib, 114),
        w[569] == spec_encode_word(5, spv::SPV_INSTRUCTION_OP_ACCESS_CHAIN),
        w[571] == cid(ib, 116),
        w[572] == cid(ib, 1),
        w[573] == c.int_1,
        w[574] == spec_encode_word(4, spv::SPV_INSTRUCTION_OP_LOAD),
        w[575] == t.int_id,
        w[576] == cid(ib, 117),
        w[577] == cid(ib, 116),
        w[578] == spec_encode_word(4, spv::SPV_INSTRUCTION_OP_S_NEGATE),
        w[580] == cid(ib, 118),
        w[581] == cid(ib, 117),
        w[582] == spec_encode_word(5, spv::SPV_INSTRUCTION_OP_COMPOSITE_CONSTRUCT),
        w[583] == t.v2int_id,
        w[584] == cid(ib, 119),
        w[585] == cid(ib, 115),
        w[586] == cid(ib, 118),
        w[587] == spec_encode_word(3, spv::SPV_INSTRUCTION_OP_STORE),
        w[588] == cid(ib, 14),
        w[589] == cid(ib, 119),
        w[590] == spec_encode_word(2, spv::SPV_INSTRUCTION_OP_BRANCH),
        w[591] == cid(ib, 111),
        w[592] == spec_encode_word(2, spv::SPV_INSTRUCTION_OP_LABEL),
        w[593] == cid(ib, 113),
        w[594] == spec_encode_word(5, spv::SPV_INSTRUCTION_OP_ACCESS_CHAIN),
        w[596] == cid(ib, 120),
        w[597] == cid(ib, 1),
        w[598] == c.int_0,
        w[599] == spec_encode_word(4, spv::SPV_INSTRUCTION_OP_LOAD),
        w[600] == t.int_id,
        w[601] == cid(ib, 121),
        w[602] == cid(ib, 120),
        w[603] == spec_encode_word(4, spv::SPV_INSTRUCTION_OP_S_NEGATE),
        w[605] == cid(ib, 122),
        w[606] == cid(ib, 121),
        w[607] == spec_encode_word(5, spv::SPV_INSTRUCTION_OP_ACCESS_CHAIN),
        w[609] == cid(ib, 123),
        w[610] == cid(ib, 1),
        w[611] == c.int_1,
        w[612] == spec_encode_word(4, spv::SPV_INSTRUCTION_OP_LOAD),
        w[613] == t.int_id,
        w[614] == cid(ib, 124),
        w[615] == cid(ib, 123),
        w[616] == spec_encode_word(4, spv::SPV_INSTRUCTION_OP_S_NEGATE),
        w[618] == cid(ib, 125),
        w[619] == cid(ib, 124),
        w[620] == spec_encode_word(5, spv::SPV_INSTRUCTION_OP_COMPOSITE_CONSTRUCT),
        w[621] == t.v2int_id,
        w[622] == cid(ib, 126),
        w[623] == cid(ib, 122),
        w[624] == cid(ib, 125),
        w[625] == spec_encode_word(3, spv::SPV_INSTRUCTION_OP_STORE),
        w[626] == cid(ib, 14),
        w[627] == cid(ib, 126),
        w[628] == spec_encode_word(2, spv::SPV_INSTRUCTION_OP_BRANCH),
        w[629] == cid(ib, 111),
        w[630] == spec_encode_word(2, spv::SPV_INSTRUCTION_OP_LABEL),
        w[631] == cid(ib, 111),
        w[632] == spec_encode_word(4, spv::SPV_INSTRUCTION_OP_LOAD),
        w[633] == t.v2int_id,
        w[634] == cid(ib, 127),
        w[635] == cid(ib, 14),
        w[636] == spec_encode_word(3, spv::SPV_INSTRUCTION_OP_STORE),
        w[637] == cid(ib, 13),
        w[638] == cid(ib, 127),
        w[639] == spec_encode_word(2, spv::SPV_INSTRUCTION_OP_BRANCH),
        w[640] == cid(ib, 100),
        w[641] == spec_encode_word(2, spv::SPV_INSTRUCTION_OP_LABEL),
        w[642] == cid(ib, 100),
        w[643] == spec_encode_word(4, spv::SPV_INSTRUCTION_OP_LOAD),
        w[644] == t.v2int_id,
        w[645] == cid(ib, 128),
        w[646] == cid(ib, 13),
        w[647] == spec_encode_word(3, spv::SPV_INSTRUCTION_OP_STORE),
        w[648] == cid(ib, 12),
        w[649] == cid(ib, 128),
        w[650] == spec_encode_word(2, spv::SPV_INSTRUCTION_OP_BRANCH),
        w[651] == cid(ib, 90),
        w[652] == spec_encode_word(2, spv::SPV_INSTRUCTION_OP_LABEL),
        w[653] == cid(ib, 90),
        w[654] == spec_encode_word(4, spv::SPV_INSTRUCTION_OP_LOAD),
        w[655] == t.v2int_id,
        w[656] == cid(ib, 129),
        w[657] == cid(ib, 12),
        w[658] == spec_encode_word(3, spv::SPV_INSTRUCTION_OP_STORE),
        w[659] == cid(ib, 11),
        w[660] == cid(ib, 129),
        w[661] == spec_encode_word(2, spv::SPV_INSTRUCTION_OP_BRANCH),
        w[662] == cid(ib, 79),
        w[663] == spec_encode_word(2, spv::SPV_INSTRUCTION_OP_LABEL),
        w[664] == cid(ib, 79),
        w[665] == spec_encode_word(4, spv::SPV_INSTRUCTION_OP_LOAD),
        w[666] == t.v2int_id,
        w[667] == cid(ib, 130),
        w[668] == cid(ib, 11),
        w[669] == spec_encode_word(3, spv::SPV_INSTRUCTION_OP_STORE),
        w[670] == cid(ib, 10),
        w[671] == cid(ib, 130),
        w[672] == spec_encode_word(2, spv::SPV_INSTRUCTION_OP_BRANCH),
        w[673] == cid(ib, 67),
        w[674] == spec_encode_word(2, spv::SPV_INSTRUCTION_OP_LABEL),
        w[675] == cid(ib, 67),
        w[676] == spec_encode_word(4, spv::SPV_INSTRUCTION_OP_LOAD),
        w[677] == t.v2int_id,
        w[678] == cid(ib, 131),
        w[679] == cid(ib, 10),
        w[680] == spec_encode_word(3, spv::SPV_INSTRUCTION_OP_STORE),
        w[681] == cid(ib, 9),
        w[682] == cid(ib, 131),
        w[683] == spec_encode_word(4, spv::SPV_INSTRUCTION_OP_LOAD),
        w[684] == t.v2int_id,
        w[685] == cid(ib, 132),
        w[686] == cid(ib, 9),
        w[687] == spec_encode_word(4, spv::SPV_INSTRUCTION_OP_LOAD),
        w[688] == t.int_id,
        w[689] == cid(ib, 133),
        w[690] == cid(ib, 6),
        w[691] == spec_encode_word(5, spv::SPV_INSTRUCTION_OP_COMPOSITE_EXTRACT),
        w[693] == cid(ib, 134),
        w[694] == cid(ib, 132),
        w[695] == 0,
        w[696] == spec_encode_word(5, spv::SPV_INSTRUCTION_OP_COMPOSITE_EXTRACT),
        w[698] == cid(ib, 135),
        w[699] == cid(ib, 132),
        w[700] == 1,
        w[701] == spec_encode_word(6, spv::SPV_INSTRUCTION_OP_COMPOSITE_CONSTRUCT),
        w[702] == t.v3int_id,
        w[703] == cid(ib, 136),
        w[704] == cid(ib, 134),
        w[705] == cid(ib, 135),
        w[706] == cid(ib, 133),
        0 <= ib,
        ib + 137 <= u32::MAX,
        cube_inv2(ib, t, c, g, xb, yb, zb),
        g.f.mem.contains_key((cid(ib, 6), -1int)),
        0 <= g.f.mem[(cid(ib, 6), -1int)] < 6,
        n >= 60,
    ensures
        r.1 <= 60,
        run_cfg(w, cube_labels(ib), 334, g, n, 707)
            == run_cfg(w, cube_labels(ib), 707, r.0,
            (n - r.1) as nat, 707),
        r.0.vecs.contains_key(cid(ib, 136)),
        r.0.vecs[cid(ib, 136)] == ({
            let f = g.f.mem[(cid(ib, 6), -1int)];
            let (a, b) = if f == 0 {
                (neg_bits(zb as int), neg_bits(yb as int))
            } else if f == 1 {
                (zb as int, neg_bits(yb as int))
            } else if f == 2 {
                (xb as int, zb as int)
            } else if f == 3 {
                (xb as int, neg_bits(zb as int))
            } else if f == 4 {
                (xb as int, neg_bits(yb as int))
            } else {
                (neg_bits(xb as int), neg_bits(yb as int))
            };
            seq![a, b, f]
        }),
{
    let labels = cube_labels(ib);
    let stop = 707int;
    crate::util::lemma_split_encode(4, spv::SPV_INSTRUCTION_OP_BRANCH_CONDITIONAL);
    let h58 = lemma_cube_run_disp0(w, labels, ib, t, c, g, xb, yb, zb, (n - 0) as nat, stop);
    lemma_cfg_cond(w, labels, 346, h58, (n - 3) as nat, stop);
    let j59 = CfgFrame { prev: h58.cur, ..h58 };
    if h58.f.vals[cid(ib, 66)] != 0 {
        let h60 = lemma_cube_run_blk0(w, labels, ib, t, c, j59, xb, yb, zb, (n - 4) as nat, stop);
        let h61 = lemma_cube_run_fin(w, labels, ib, t, c, h60, xb, yb, zb, (n - 14) as nat, stop);
        (h61, 22nat)
    } else {
        let h62 = lemma_cube_run_disp1(w, labels, ib, t, c, j59, xb, yb, zb, (n - 4) as nat, stop);
        lemma_cfg_cond(w, labels, 402, h62, (n - 8) as nat, stop);
        let j63 = CfgFrame { prev: h62.cur, ..h62 };
        if h62.f.vals[cid(ib, 78)] != 0 {
            let h64 = lemma_cube_run_blk1(w, labels, ib, t, c, j63, xb, yb, zb, (n - 9) as nat, stop);
            let h65 = lemma_cube_run_m79(w, labels, ib, t, c, h64, xb, yb, zb, (n - 18) as nat, stop);
            let h66 = lemma_cube_run_fin(w, labels, ib, t, c, h65, xb, yb, zb, (n - 22) as nat, stop);
            (h66, 30nat)
        } else {
            let h67 = lemma_cube_run_disp2(w, labels, ib, t, c, j63, xb, yb, zb, (n - 9) as nat, stop);
            lemma_cfg_cond(w, labels, 454, h67, (n - 13) as nat, stop);
            let j68 = CfgFrame { prev: h67.cur, ..h67 };
            if h67.f.vals[cid(ib, 89)] != 0 {
                let h69 = lemma_cube_run_blk2(w, labels, ib, t, c, j68, xb, yb, zb, (n - 14) as nat, stop);
                let h70 = lemma_cube_run_m90(w, labels, ib, t, c, h69, xb, yb, zb, (n - 22) as nat, stop);
                let h71 = lemma_cube_run_m79(w, labels, ib, t, c, h70, xb, yb, zb, (n - 26) as nat, stop);
                let h72 = lemma_cube_run_fin(w, labels, ib, t, c, h71, xb, yb, zb, (n - 30) as nat, stop);
                (h72, 38nat)
            } else {
                let h73 = lemma_cube_run_disp3(w, labels, ib, t, c, j68, xb, yb, zb, (n - 14) as nat, stop);
                lemma_cfg_cond(w, labels, 502, h73, (n - 18) as nat, stop);
                let j74 = CfgFrame { prev: h73.cur, ..h73 };
                if h73.f.vals[cid(ib, 99)] != 0 {
                    let h75 = lemma_cube_run_blk3(w, labels, ib, t, c, j74, xb, yb, zb, (n - 19) as nat, stop);
                    let h76 = lemma_cube_run_m100(w, labels, ib, t, c, h75, xb, yb, zb, (n - 28) as nat, stop);
                    let h77 = lemma_cube_run_m90(w, labels, ib, t, c, h76, xb, yb, zb, (n - 32) as nat, stop);
                    let h78 = lemma_cube_run_m79(w, labels, ib, t, c, h77, xb, yb, zb, (n - 36) as nat, stop);
                    let h79 = lemma_cube_run_fin(w, labels, ib, t, c, h78, xb, yb, zb, (n - 40) as nat, stop);
                    (h79, 48nat)
                } else {
                    let h80 = lemma_cube_run_disp4(w, labels, ib, t, c, j74, xb, yb, zb, (n - 19) as nat, stop);
                    lemma_cfg_cond(w, labels, 554, h80, (n - 23) as nat, stop);
                    let j81 = CfgFrame { prev: h80.cur, ..h80 };
                    if h80.f.vals[cid(ib, 110)] != 0 {
                        let h82 = lemma_cube_run_blk4(w, labels, ib, t, c, j81, xb, yb, zb, (n - 24) as nat, stop);
                        let h83 = lemma_cube_run_m111(w, labels, ib, t, c, h82, xb, yb, zb, (n - 33) as nat, stop);
                        let h84 = lemma_cube_run_m100(w, labels, ib, t, c, h83, xb, yb, zb, (n - 37) as nat, stop);
                        let h85 = lemma_cube_run_m90(w, labels, ib, t, c, h84, xb, yb, zb, (n - 41) as nat, stop);
                        let h86 = lemma_cube_run_m79(w, labels, ib, t, c, h85, xb, yb, zb, (n - 45) as nat, stop);
                        let h87 = lemma_cube_run_fin(w, labels, ib, t, c, h86, xb, yb, zb, (n - 49) as nat, stop);
                        (h87, 57nat)
                    } else {
                        let h88 = lemma_cube_run_blk5(w, labels, ib, t, c, j81, xb, yb, zb, (n - 24) as nat, stop);
                        let h89 = lemma_cube_run_m111(w, labels, ib, t, c, h88, xb, yb, zb, (n - 34) as nat, stop);
                        let h90 = lemma_cube_run_m100(w, labels, ib, t, c, h89, xb, yb, zb, (n - 38) as nat, stop);
                        let h91 = lemma_cube_run_m90(w, labels, ib, t, c, h90, xb, yb, zb, (n - 42) as nat, stop);
                        let h92 = lemma_cube_run_m79(w, labels, ib, t, c, h91, xb, yb, zb, (n - 46) as nat, stop);
                        let h93 = lemma_cube_run_fin(w, labels, ib, t, c, h92, xb, yb, zb, (n - 50) as nat, stop);
                        (h93, 58nat)
                    }
                }
            }
        }
    }
}

/// The cube direction function maps a direction to the face of its major axis: run from its
/// entry on a direction `(x, y, z)` (32-bit patterns behind its parameter, none the most
/// negative integer, whose absolute value does not fit), it reaches the point after storing
/// the face in its face variable with the layer of the standard cube face order +X, -X, +Y,
/// -Y, +Z, -Z: a direction whose largest-magnitude component is z gets layer 4 when z > 0
/// and 5 otherwise, and likewise 0 or 1 for x and 2 or 3 for y.
pub proof fn lemma_cube_direction_face(
    ib: int,
    t: CubeDirectionTypeInputs,
    function_type: u32,
    c: CubeDirectionConstants,
    glsl_std_id: u32,
    vals: Map<u32, int>,
    xb: u32,
    yb: u32,
    zb: u32,
)
    requires
        0 <= ib,
        ib + 137 <= u32::MAX,
        cube_constants_hold(vals, c),
        cube_ids_apart(ib, c),
        cube_types_apart(t),
        xb != 0x8000_0000 && yb != 0x8000_0000 && zb != 0x8000_0000,
    ensures
        labels_mark(cube_direction_words(ib, t, function_type, c, glsl_std_id), cube_labels(ib)),
        run_cfg(cube_direction_words(ib, t, function_type, c, glsl_std_id), cube_labels(ib), 0,
            cube_entry(ib, t, vals, xb, yb, zb), 100, 334) matches Some(g) && g.f.mem.contains_key((cid(ib, 6), -1int))
            && g.f.mem[(cid(ib, 6), -1int)] == cube_face_of(signed(xb as int), signed(yb as int), signed(zb as int)),
{
    let w = cube_direction_words(ib, t, function_type, c, glsl_std_id);
    lemma_cube_prefix(ib, t, function_type, c, glsl_std_id);
    lemma_cube_words_entry(ib, t, function_type, c, glsl_std_id);
    lemma_cube_words_x_vs_z(ib, t, function_type, c, glsl_std_id);
    lemma_cube_words_x_flag(ib, t, function_type, c, glsl_std_id);
    lemma_cube_words_y_vs_z(ib, t, function_type, c, glsl_std_id);
    lemma_cube_words_y_flag(ib, t, function_type, c, glsl_std_id);
    lemma_cube_words_x_block(ib, t, function_type, c, glsl_std_id);
    lemma_cube_words_not_x(ib, t, function_type, c, glsl_std_id);
    lemma_cube_words_y_block(ib, t, function_type, c, glsl_std_id);
    lemma_cube_words_z_block(ib, t, function_type, c, glsl_std_id);
    lemma_cube_words_y_or_z(ib, t, function_type, c, glsl_std_id);
    lemma_cube_words_face(ib, t, function_type, c, glsl_std_id);
    let r = lemma_cube_select_face(w, ib, t, function_type, c, glsl_std_id, vals, xb, yb, zb, 100, 334);
    lemma_cfg_stop(cube_direction_words(ib, t, function_type, c, glsl_std_id), cube_labels(ib), r.0, (100 - r.1) as nat, 334);
    lemma_cube_labels_mark(ib, t, function_type, c, glsl_std_id);
}

/// The cube direction function returns the arrayed coordinate of a direction: run from its
/// entry on a direction `(x, y, z)` (as above), it reaches its `OpReturnValue` with the vector
/// `(s, t, layer)`, the layer that of the face of the major axis and `(s, t)` the direction's
/// coordinate on that face.
#[verifier::spinoff_prover]
#[verifier::rlimit(100)]
pub proof fn lemma_cube_direction_to_arrayed(
    ib: int,
    t: CubeDirectionTypeInputs,
    function_type: u32,
    c: CubeDirectionConstants,
    glsl_std_id: u32,
    vals: Map<u32, int>,
    xb: u32,
    yb: u32,
    zb: u32,
)
    requires
        0 <= ib,
        ib + 137 <= u32::MAX,
        cube_constants_hold(vals, c),
        cube_ids_apart(ib, c),
        cube_types_apart(t),
        xb != 0x8000_0000 && yb != 0x8000_0000 && zb != 0x8000_0000,
    ensures
        ({
            let w = cube_direction_words(ib, t, function_type, c, glsl_std_id);
            &&& spec_loword(w[707]) == spv::SPV_INSTRUCTION_OP_RETURN_VALUE as int
            &&& w[708] == cid(ib, 136)
        }),
        run_cfg(cube_direction_words(ib, t, function_type, c, glsl_std_id), cube_labels(ib), 0,
            cube_entry(ib, t, vals, xb, yb, zb), 200, 707) matches Some(g) && g.vecs.contains_key(cid(ib, 136)) && {
            let v = g.vecs[cid(ib, 136)];
            let x = signed(xb as int);
            let y = signed(yb as int);
            let z = signed(zb as int);
            let face = cube_face_of(x, y, z);
            &&& v.len() == 3
            &&& signed(v[0]) == cube_coords(face, x, y, z).0
            &&& signed(v[1]) == cube_coords(face, x, y, z).1
            &&& v[2] == face
        },
{
    let w = cube_direction_words(ib, t, function_type, c, glsl_std_id);
    lemma_cube_prefix(ib, t, function_type, c, glsl_std_id);
    lemma_cube_words_entry(ib, t, function_type, c, glsl_std_id);
    lemma_cube_words_x_vs_z(ib, t, function_type, c, glsl_std_id);
    lemma_cube_words_x_flag(ib, t, function_type, c, glsl_std_id);
    lemma_cube_words_y_vs_z(ib, t, function_type, c, glsl_std_id);
    lemma_cube_words_y_flag(ib, t, function_type, c, glsl_std_id);
    lemma_cube_words_x_block(ib, t, function_type, c, glsl_std_id);
    lemma_cube_words_not_x(ib, t, function_type, c, glsl_std_id);
    lemma_cube_words_y_block(ib, t, function_type, c, glsl_std_id);
    lemma_cube_words_z_block(ib, t, function_type, c, glsl_std_id);
    lemma_cube_words_y_or_z(ib, t, function_type, c, glsl_std_id);
    lemma_cube_words_face(ib, t, function_type, c, glsl_std_id);
    lemma_cube_words_disp0(ib, t, function_type, c, glsl_std_id);
    lemma_cube_words_blk0(ib, t, function_type, c, glsl_std_id);
    lemma_cube_words_disp1(ib, t, function_type, c, glsl_std_id);
    lemma_cube_words_blk1(ib, t, function_type, c, glsl_std_id);
    lemma_cube_words_disp2(ib, t, function_type, c, glsl_std_id);
    lemma_cube_words_blk2(ib, t, function_type, c, glsl_std_id);
    lemma_cube_words_disp3(ib, t, function_type, c, glsl_std_id);
    lemma_cube_words_blk3(ib, t, function_type, c, glsl_std_id);
    lemma_cube_words_disp4(ib, t, function_type, c, glsl_std_id);
    lemma_cube_words_blk4(ib, t, function_type, c, glsl_std_id);
    lemma_cube_words_blk5(ib, t, function_type, c, glsl_std_id);
    lemma_cube_words_m111(ib, t, function_type, c, glsl_std_id);
    lemma_cube_words_m100(ib, t, function_type, c, glsl_std_id);
    lemma_cube_words_m90(ib, t, function_type, c, glsl_std_id);
    lemma_cube_words_m79(ib, t, function_type, c, glsl_std_id);
    lemma_cube_words_fin(ib, t, function_type, c, glsl_std_id);
    let w = cube_direction_words(ib, t, function_type, c, glsl_std_id);
    let labels = cube_labels(ib);
    lemma_cube_words_fin(ib, t, function_type, c, glsl_std_id);
    crate::util::lemma_split_encode(2, spv::SPV_INSTRUCTION_OP_RETURN_VALUE);
    let r1 = lemma_cube_select_face(w, ib, t, function_type, c, glsl_std_id, vals, xb, yb, zb, 200, 707);
    assert(cube_inv2(ib, t, c, r1.0, xb, yb, zb));
    let r2 = lemma_cube_select_coords(w, ib, t, function_type, c, glsl_std_id, r1.0, xb, yb, zb, (200 - r1.1) as nat);
    lemma_cfg_stop(w, labels, r2.0, ((200 - r1.1) as nat - r2.1) as nat, 707);
    lemma_cube_coords_signed(r1.0.f.mem[(cid(ib, 6), -1int)], xb, yb, zb, r2.0.vecs[cid(ib, 136)]);
}

/// The coordinates the function builds, read as signed integers.
proof fn lemma_cube_coords_signed(f: int, xb: u32, yb: u32, zb: u32, v: Seq<int>)
    requires
        0 <= f < 6,
        xb != 0x8000_0000 && yb != 0x8000_0000 && zb != 0x8000_0000,
        v == ({
            let (a, b) = if f == 0 {
                (neg_bits(zb as int), neg_bits(yb as int))
            } else if f == 1 {
                (zb as int, neg_bits(yb as int))
            } else if f == 2 {
                (xb as int, zb as int)
            } else if f == 3 {
                (xb as int, neg_bits(zb as int))
            } else if f == 4 {
                (xb as int, neg_bits(yb as int))
            } else {
                (neg_bits(xb as int), neg_bits(yb as int))
            };
            seq![a, b, f]
        }),
    ensures
        v.len() == 3,
        signed(v[0]) == cube_coords(f, signed(xb as int), signed(yb as int), signed(zb as int)).0,
        signed(v[1]) == cube_coords(f, signed(xb as int), signed(yb as int), signed(zb as int)).1,
        v[2] == f,
{
    lemma_neg_bits(xb);
    lemma_neg_bits(yb);
    lemma_neg_bits(zb);
}

/// Each label of the cube direction function sits where `cube_labels` says.
proof fn lemma_cube_labels_mark(
    ib: int,
    t: CubeDirectionTypeInputs,
    function_type: u32,
    c: CubeDirectionConstants,
    glsl_std_id: u32,
)
    requires
        0 <= ib,
        ib + 137 <= u32::MAX,
    ensures
        labels_mark(cube_direction_words(ib, t, function_type, c, glsl_std_id), cube_labels(ib)),
{
    lemma_cube_prefix(ib, t, function_type, c, glsl_std_id);
    lemma_cube_words_entry(ib, t, function_type, c, glsl_std_id);
    lemma_cube_words_x_vs_z(ib, t, function_type, c, glsl_std_id);
    lemma_cube_words_x_flag(ib, t, function_type, c, glsl_std_id);
    lemma_cube_words_y_vs_z(ib, t, function_type, c, glsl_std_id);
    lemma_cube_words_y_flag(ib, t, function_type, c, glsl_std_id);
    lemma_cube_words_x_block(ib, t, function_type, c, glsl_std_id);
    lemma_cube_words_not_x(ib, t, function_type, c, glsl_std_id);
    lemma_cube_words_y_block(ib, t, function_type, c, glsl_std_id);
    lemma_cube_words_z_block(ib, t, function_type, c, glsl_std_id);
    lemma_cube_words_y_or_z(ib, t, function_type, c, glsl_std_id);
    lemma_cube_words_face(ib, t, function_type, c, glsl_std_id);
    lemma_cube_words_disp0(ib, t, function_type, c, glsl_std_id);
    lemma_cube_words_blk0(ib, t, function_type, c, glsl_std_id);
    lemma_cube_words_disp1(ib, t, function_type, c, glsl_std_id);
    lemma_cube_words_blk1(ib, t, function_type, c, glsl_std_id);
    lemma_cube_words_disp2(ib, t, function_type, c, glsl_std_id);
    lemma_cube_words_blk2(ib, t, function_type, c, glsl_std_id);
    lemma_cube_words_disp3(ib, t, function_type, c, glsl_std_id);
    lemma_cube_words_blk3(ib, t, function_type, c, glsl_std_id);
    lemma_cube_words_disp4(ib, t, function_type, c, glsl_std_id);
    lemma_cube_words_blk4(ib, t, function_type, c, glsl_std_id);
    lemma_cube_words_blk5(ib, t, function_type, c, glsl_std_id);
    lemma_cube_words_m111(ib, t, function_type, c, glsl_std_id);
    lemma_cube_words_m100(ib, t, function_type, c, glsl_std_id);
    lemma_cube_words_m90(ib, t, function_type, c, glsl_std_id);
    lemma_cube_words_m79(ib, t, function_type, c, glsl_std_id);
    lemma_cube_words_fin(ib, t, function_type, c, glsl_std_id);
    crate::util::lemma_split_encode(2, spv::SPV_INSTRUCTION_OP_LABEL);
}

fn emit_cube_direction_part_0(
    out: &mut Vec<u32>,
    ib: u32,
    t: CubeDirectionTypeInputs,
    function_type: u32,
    c: CubeDirectionConstants,
    glsl_std_id: u32,
)
    requires
        ib + 137 <= u32::MAX,
    ensures
        final(out)@ == cube_direction_part_0(old(out)@, ib as int, t, function_type, c, glsl_std_id),
{
    let int_id = t.int_id;
    let v3int_id = t.v3int_id;
    let ptr_v3int_id = t.ptr_v3int_id;
    let ptr_int_id = t.ptr_int_id;
    let ptr_bool_id = t.ptr_bool_id;
    let ptr_v2int_id = t.ptr_v2int_id;
    let int_0 = c.int_0;
    let func_id: u32 = ib + 0;
    let r: u32 = ib + 1;
    let label_12: u32 = ib + 2;
    let a: u32 = ib + 3;
    let x: u32 = ib + 4;
    let y: u32 = ib + 5;
    let face: u32 = ib + 6;
    let var_53: u32 = ib + 7;
    let var_64: u32 = ib + 8;
    let st: u32 = ib + 9;
    let var_87: u32 = ib + 10;
    let var_100: u32 = ib + 11;
    let var_112: u32 = ib + 12;
    let var_123: u32 = ib + 13;
    let var_135: u32 = ib + 14;
    let res_14: u32 = ib + 15;
    let res_15: u32 = ib + 16;
    let res_22: u32 = ib + 17;
    let res_23: u32 = ib + 18;
    emit5(out, encode_word(5, spv::SPV_INSTRUCTION_OP_FUNCTION), v3int_id, func_id, spv::SPV_FUNCTION_CONTROL_INLINE, function_type);
    emit3(out, encode_word(3, spv::SPV_INSTRUCTION_OP_FUNCTION_PARAMETER), ptr_v3int_id, r);
    emit2(out, encode_word(2, spv::SPV_INSTRUCTION_OP_LABEL), label_12);
    emit4(out, encode_word(4, spv::SPV_INSTRUCTION_OP_VARIABLE), ptr_v3int_id, a, spv::SPV_STORAGE_CLASS_FUNCTION);
    emit4(out, encode_word(4, spv::SPV_INSTRUCTION_OP_VARIABLE), ptr_bool_id, x, spv::SPV_STORAGE_CLASS_FUNCTION);
    emit4(out, encode_word(4, spv::SPV_INSTRUCTION_OP_VARIABLE), ptr_bool_id, y, spv::SPV_STORAGE_CLASS_FUNCTION);
    emit4(out, encode_word(4, spv::SPV_INSTRUCTION_OP_VARIABLE), ptr_int_id, face, spv::SPV_STORAGE_CLASS_FUNCTION);
    emit4(out, encode_word(4, spv::SPV_INSTRUCTION_OP_VARIABLE), ptr_int_id, var_53, spv::SPV_STORAGE_CLASS_FUNCTION);
    emit4(out, encode_word(4, spv::SPV_INSTRUCTION_OP_VARIABLE), ptr_int_id, var_64, spv::SPV_STORAGE_CLASS_FUNCTION);
    emit4(out, encode_word(4, spv::SPV_INSTRUCTION_OP_VARIABLE), ptr_v2int_id, st, spv::SPV_STORAGE_CLASS_FUNCTION);
    emit4(out, encode_word(4, spv::SPV_INSTRUCTION_OP_VARIABLE), ptr_v2int_id, var_87, spv::SPV_STORAGE_CLASS_FUNCTION);
    emit4(out, encode_word(4, spv::SPV_INSTRUCTION_OP_VARIABLE), ptr_v2int_id, var_100, spv::SPV_STORAGE_CLASS_FUNCTION);
    emit4(out, encode_word(4, spv::SPV_INSTRUCTION_OP_VARIABLE), ptr_v2int_id, var_112, spv::SPV_STORAGE_CLASS_FUNCTION);
    emit4(out, encode_word(4, spv::SPV_INSTRUCTION_OP_VARIABLE), ptr_v2int_id, var_123, spv::SPV_STORAGE_CLASS_FUNCTION);
    emit4(out, encode_word(4, spv::SPV_INSTRUCTION_OP_VARIABLE), ptr_v2int_id, var_135, spv::SPV_STORAGE_CLASS_FUNCTION);
    emit4(out, encode_word(4, spv::SPV_INSTRUCTION_OP_LOAD), v3int_id, res_14, r);
    emit6(out, encode_word(6, spv::SPV_INSTRUCTION_OP_EXT_INST), v3int_id, res_15, glsl_std_id, spv::SPV_GLSL_STD_INSTRUCTION_SABS, res_14);
    emit3(out, encode_word(3, spv::SPV_INSTRUCTION_OP_STORE), a, res_15);
    emit5(out, encode_word(5, spv::SPV_INSTRUCTION_OP_ACCESS_CHAIN), ptr_int_id, res_22, a, int_0);
    emit4(out, encode_word(4, spv::SPV_INSTRUCTION_OP_LOAD), int_id, res_23, res_22);
}

fn emit_cube_direction_part_1(
    out: &mut Vec<u32>,
    ib: u32,
    t: CubeDirectionTypeInputs,
    function_type: u32,
    c: CubeDirectionConstants,
    glsl_std_id: u32,
)
    requires
        ib + 137 <= u32::MAX,
    ensures
        final(out)@ == cube_direction_part_1(old(out)@, ib as int, t, function_type, c, glsl_std_id),
{
    let int_id = t.int_id;
    let bool_id = t.bool_id;
    let ptr_int_id = t.ptr_int_id;
    let int_0 = c.int_0;
    let int_1 = c.int_1;
    let int_2 = c.int_2;
    let label_12: u32 = ib + 2;
    let a: u32 = ib + 3;
    let x: u32 = ib + 4;
    let res_23: u32 = ib + 18;
    let res_25: u32 = ib + 19;
    let res_26: u32 = ib + 20;
    let res_27: u32 = ib + 21;
    let label_29: u32 = ib + 22;
    let label_28: u32 = ib + 23;
    let res_30: u32 = ib + 24;
    let res_31: u32 = ib + 25;
    let res_33: u32 = ib + 26;
    let res_34: u32 = ib + 27;
    let res_35: u32 = ib + 28;
    let res_36: u32 = ib + 29;
    let res_38: u32 = ib + 30;
    let res_39: u32 = ib + 31;
    let res_40: u32 = ib + 32;
    let res_41: u32 = ib + 33;
    let res_42: u32 = ib + 34;
    emit5(out, encode_word(5, spv::SPV_INSTRUCTION_OP_ACCESS_CHAIN), ptr_int_id, res_25, a, int_1);
    emit4(out, encode_word(4, spv::SPV_INSTRUCTION_OP_LOAD), int_id, res_26, res_25);
    emit5(out, encode_word(5, spv::SPV_INSTRUCTION_OP_S_GREATER_THAN_EQUAL), bool_id, res_27, res_23, res_26);
    emit3(out, encode_word(3, spv::SPV_INSTRUCTION_OP_SELECTION_MERGE), label_29, 0);
    emit4(out, encode_word(4, spv::SPV_INSTRUCTION_OP_BRANCH_CONDITIONAL), res_27, label_28, label_29);
    emit2(out, encode_word(2, spv::SPV_INSTRUCTION_OP_LABEL), label_28);
    emit5(out, encode_word(5, spv::SPV_INSTRUCTION_OP_ACCESS_CHAIN), ptr_int_id, res_30, a, int_0);
    emit4(out, encode_word(4, spv::SPV_INSTRUCTION_OP_LOAD), int_id, res_31, res_30);
    emit5(out, encode_word(5, spv::SPV_INSTRUCTION_OP_ACCESS_CHAIN), ptr_int_id, res_33, a, int_2);
    emit4(out, encode_word(4, spv::SPV_INSTRUCTION_OP_LOAD), int_id, res_34, res_33);
    emit5(out, encode_word(5, spv::SPV_INSTRUCTION_OP_S_GREATER_THAN_EQUAL), bool_id, res_35, res_31, res_34);
    emit2(out, encode_word(2, spv::SPV_INSTRUCTION_OP_BRANCH), label_29);
    emit2(out, encode_word(2, spv::SPV_INSTRUCTION_OP_LABEL), label_29);
    emit7(out, encode_word(7, spv::SPV_INSTRUCTION_OP_PHI), bool_id, res_36, res_27, label_12, res_35, label_28);
    emit3(out, encode_word(3, spv::SPV_INSTRUCTION_OP_STORE), x, res_36);
    emit5(out, encode_word(5, spv::SPV_INSTRUCTION_OP_ACCESS_CHAIN), ptr_int_id, res_38, a, int_1);
    emit4(out, encode_word(4, spv::SPV_INSTRUCTION_OP_LOAD), int_id, res_39, res_38);
    emit5(out, encode_word(5, spv::SPV_INSTRUCTION_OP_ACCESS_CHAIN), ptr_int_id, res_40, a, int_0);
    emit4(out, encode_word(4, spv::SPV_INSTRUCTION_OP_LOAD), int_id, res_41, res_40);
    emit5(out, encode_word(5, spv::SPV_INSTRUCTION_OP_S_GREATER_THAN), bool_id, res_42, res_39, res_41);
}

fn emit_cube_direction_part_2(
    out: &mut Vec<u32>,
    ib: u32,
    t: CubeDirectionTypeInputs,
    function_type: u32,
    c: CubeDirectionConstants,
    glsl_std_id: u32,
)
    requires
        ib + 137 <= u32::MAX,
    ensures
        final(out)@ == cube_direction_part_2(old(out)@, ib as int, t, function_type, c, glsl_std_id),
{
    let int_id = t.int_id;
    let bool_id = t.bool_id;
    let ptr_int_id = t.ptr_int_id;
    let int_0 = c.int_0;
    let int_1 = c.int_1;
    let int_2 = c.int_2;
    let r: u32 = ib + 1;
    let a: u32 = ib + 3;
    let x: u32 = ib + 4;
    let y: u32 = ib + 5;
    let label_29: u32 = ib + 22;
    let res_42: u32 = ib + 34;
    let label_44: u32 = ib + 35;
    let label_43: u32 = ib + 36;
    let res_45: u32 = ib + 37;
    let res_46: u32 = ib + 38;
    let res_47: u32 = ib + 39;
    let res_48: u32 = ib + 40;
    let res_49: u32 = ib + 41;
    let res_50: u32 = ib + 42;
    let res_52: u32 = ib + 43;
    let label_55: u32 = ib + 44;
    let label_54: u32 = ib + 45;
    let label_62: u32 = ib + 46;
    let res_56: u32 = ib + 47;
    let res_57: u32 = ib + 48;
    let res_59: u32 = ib + 49;
    let res_61: u32 = ib + 50;
    emit3(out, encode_word(3, spv::SPV_INSTRUCTION_OP_SELECTION_MERGE), label_44, 0);
    emit4(out, encode_word(4, spv::SPV_INSTRUCTION_OP_BRANCH_CONDITIONAL), res_42, label_43, label_44);
    emit2(out, encode_word(2, spv::SPV_INSTRUCTION_OP_LABEL), label_43);
    emit5(out, encode_word(5, spv::SPV_INSTRUCTION_OP_ACCESS_CHAIN), ptr_int_id, res_45, a, int_1);
    emit4(out, encode_word(4, spv::SPV_INSTRUCTION_OP_LOAD), int_id, res_46, res_45);
    emit5(out, encode_word(5, spv::SPV_INSTRUCTION_OP_ACCESS_CHAIN), ptr_int_id, res_47, a, int_2);
    emit4(out, encode_word(4, spv::SPV_INSTRUCTION_OP_LOAD), int_id, res_48, res_47);
    emit5(out, encode_word(5, spv::SPV_INSTRUCTION_OP_S_GREATER_THAN_EQUAL), bool_id, res_49, res_46, res_48);
    emit2(out, encode_word(2, spv::SPV_INSTRUCTION_OP_BRANCH), label_44);
    emit2(out, encode_word(2, spv::SPV_INSTRUCTION_OP_LABEL), label_44);
    emit7(out, encode_word(7, spv::SPV_INSTRUCTION_OP_PHI), bool_id, res_50, res_42, label_29, res_49, label_43);
    emit3(out, encode_word(3, spv::SPV_INSTRUCTION_OP_STORE), y, res_50);
    emit4(out, encode_word(4, spv::SPV_INSTRUCTION_OP_LOAD), bool_id, res_52, x);
    emit3(out, encode_word(3, spv::SPV_INSTRUCTION_OP_SELECTION_MERGE), label_55, 0);
    emit4(out, encode_word(4, spv::SPV_INSTRUCTION_OP_BRANCH_CONDITIONAL), res_52, label_54, label_62);
    emit2(out, encode_word(2, spv::SPV_INSTRUCTION_OP_LABEL), label_54);
    emit5(out, encode_word(5, spv::SPV_INSTRUCTION_OP_ACCESS_CHAIN), ptr_int_id, res_56, r, int_0);
    emit4(out, encode_word(4, spv::SPV_INSTRUCTION_OP_LOAD), int_id, res_57, res_56);
    emit5(out, encode_word(5, spv::SPV_INSTRUCTION_OP_S_GREATER_THAN), bool_id, res_59, res_57, int_0);
    emit6(out, encode_word(6, spv::SPV_INSTRUCTION_OP_SELECT), int_id, res_61, res_59, int_0, int_1);
}

fn emit_cube_direction_part_3(
    out: &mut Vec<u32>,
    ib: u32,
    t: CubeDirectionTypeInputs,
    function_type: u32,
    c: CubeDirectionConstants,
    glsl_std_id: u32,
)
    requires
        ib + 137 <= u32::MAX,
    ensures
        final(out)@ == cube_direction_part_3(old(out)@, ib as int, t, function_type, c, glsl_std_id),
{
    let int_id = t.int_id;
    let bool_id = t.bool_id;
    let ptr_int_id = t.ptr_int_id;
    let int_0 = c.int_0;
    let int_1 = c.int_1;
    let int_2 = c.int_2;
    let int_3 = c.int_3;
    let int_4 = c.int_4;
    let int_5 = c.int_5;
    let r: u32 = ib + 1;
    let y: u32 = ib + 5;
    let var_53: u32 = ib + 7;
    let var_64: u32 = ib + 8;
    let label_55: u32 = ib + 44;
    let label_62: u32 = ib + 46;
    let res_61: u32 = ib + 50;
    let res_63: u32 = ib + 51;
    let label_66: u32 = ib + 52;
    let label_65: u32 = ib + 53;
    let label_73: u32 = ib + 54;
    let res_67: u32 = ib + 55;
    let res_68: u32 = ib + 56;
    let res_69: u32 = ib + 57;
    let res_72: u32 = ib + 58;
    let res_74: u32 = ib + 59;
    let res_75: u32 = ib + 60;
    let res_76: u32 = ib + 61;
    let res_79: u32 = ib + 62;
    emit3(out, encode_word(3, spv::SPV_INSTRUCTION_OP_STORE), var_53, res_61);
    emit2(out, encode_word(2, spv::SPV_INSTRUCTION_OP_BRANCH), label_55);
    emit2(out, encode_word(2, spv::SPV_INSTRUCTION_OP_LABEL), label_62);
    emit4(out, encode_word(4, spv::SPV_INSTRUCTION_OP_LOAD), bool_id, res_63, y);
    emit3(out, encode_word(3, spv::SPV_INSTRUCTION_OP_SELECTION_MERGE), label_66, 0);
    emit4(out, encode_word(4, spv::SPV_INSTRUCTION_OP_BRANCH_CONDITIONAL), res_63, label_65, label_73);
    emit2(out, encode_word(2, spv::SPV_INSTRUCTION_OP_LABEL), label_65);
    emit5(out, encode_word(5, spv::SPV_INSTRUCTION_OP_ACCESS_CHAIN), ptr_int_id, res_67, r, int_1);
    emit4(out, encode_word(4, spv::SPV_INSTRUCTION_OP_LOAD), int_id, res_68, res_67);
    emit5(out, encode_word(5, spv::SPV_INSTRUCTION_OP_S_GREATER_THAN), bool_id, res_69, res_68, int_0);
    emit6(out, encode_word(6, spv::SPV_INSTRUCTION_OP_SELECT), int_id, res_72, res_69, int_2, int_3);
    emit3(out, encode_word(3, spv::SPV_INSTRUCTION_OP_STORE), var_64, res_72);
    emit2(out, encode_word(2, spv::SPV_INSTRUCTION_OP_BRANCH), label_66);
    emit2(out, encode_word(2, spv::SPV_INSTRUCTION_OP_LABEL), label_73);
    emit5(out, encode_word(5, spv::SPV_INSTRUCTION_OP_ACCESS_CHAIN), ptr_int_id, res_74, r, int_2);
    emit4(out, encode_word(4, spv::SPV_INSTRUCTION_OP_LOAD), int_id, res_75, res_74);
    emit5(out, encode_word(5, spv::SPV_INSTRUCTION_OP_S_GREATER_THAN), bool_id, res_76, res_75, int_0);
    emit6(out, encode_word(6, spv::SPV_INSTRUCTION_OP_SELECT), int_id, res_79, res_76, int_4, int_5);
    emit3(out, encode_word(3, spv::SPV_INSTRUCTION_OP_STORE), var_64, res_79);
    emit2(out, encode_word(2, spv::SPV_INSTRUCTION_OP_BRANCH), label_66);
}

fn emit_cube_direction_part_4(
    out: &mut Vec<u32>,
    ib: u32,
    t: CubeDirectionTypeInputs,
    function_type: u32,
    c: CubeDirectionConstants,
    glsl_std_id: u32,
)
    requires
        ib + 137 <= u32::MAX,
    ensures
        final(out)@ == cube_direction_part_4(old(out)@, ib as int, t, function_type, c, glsl_std_id),
{
    let int_id = t.int_id;
    let v2int_id = t.v2int_id;
    let bool_id = t.bool_id;
    let ptr_int_id = t.ptr_int_id;
    let int_0 = c.int_0;
    let int_1 = c.int_1;
    let int_2 = c.int_2;
    let r: u32 = ib + 1;
    let face: u32 = ib + 6;
    let var_53: u32 = ib + 7;
    let var_64: u32 = ib + 8;
    let var_87: u32 = ib + 10;
    let label_55: u32 = ib + 44;
    let label_66: u32 = ib + 52;
    let res_80: u32 = ib + 63;
    let res_81: u32 = ib + 64;
    let res_85: u32 = ib + 65;
    let res_86: u32 = ib + 66;
    let label_89: u32 = ib + 67;
    let label_88: u32 = ib + 68;
    let label_97: u32 = ib + 69;
    let res_90: u32 = ib + 70;
    let res_91: u32 = ib + 71;
    let res_92: u32 = ib + 72;
    let res_93: u32 = ib + 73;
    let res_94: u32 = ib + 74;
    let res_95: u32 = ib + 75;
    let res_96: u32 = ib + 76;
    emit2(out, encode_word(2, spv::SPV_INSTRUCTION_OP_LABEL), label_66);
    emit4(out, encode_word(4, spv::SPV_INSTRUCTION_OP_LOAD), int_id, res_80, var_64);
    emit3(out, encode_word(3, spv::SPV_INSTRUCTION_OP_STORE), var_53, res_80);
    emit2(out, encode_word(2, spv::SPV_INSTRUCTION_OP_BRANCH), label_55);
    emit2(out, encode_word(2, spv::SPV_INSTRUCTION_OP_LABEL), label_55);
    emit4(out, encode_word(4, spv::SPV_INSTRUCTION_OP_LOAD), int_id, res_81, var_53);
    emit3(out, encode_word(3, spv::SPV_INSTRUCTION_OP_STORE), face, res_81);
    emit4(out, encode_word(4, spv::SPV_INSTRUCTION_OP_LOAD), int_id, res_85, face);
    emit5(out, encode_word(5, spv::SPV_INSTRUCTION_OP_I_EQUAL), bool_id, res_86, res_85, int_0);
    emit3(out, encode_word(3, spv::SPV_INSTRUCTION_OP_SELECTION_MERGE), label_89, 0);
    emit4(out, encode_word(4, spv::SPV_INSTRUCTION_OP_BRANCH_CONDITIONAL), res_86, label_88, label_97);
    emit2(out, encode_word(2, spv::SPV_INSTRUCTION_OP_LABEL), label_88);
    emit5(out, encode_word(5, spv::SPV_INSTRUCTION_OP_ACCESS_CHAIN), ptr_int_id, res_90, r, int_2);
    emit4(out, encode_word(4, spv::SPV_INSTRUCTION_OP_LOAD), int_id, res_91, res_90);
    emit4(out, encode_word(4, spv::SPV_INSTRUCTION_OP_S_NEGATE), int_id, res_92, res_91);
    emit5(out, encode_word(5, spv::SPV_INSTRUCTION_OP_ACCESS_CHAIN), ptr_int_id, res_93, r, int_1);
    emit4(out, encode_word(4, spv::SPV_INSTRUCTION_OP_LOAD), int_id, res_94, res_93);
    emit4(out, encode_word(4, spv::SPV_INSTRUCTION_OP_S_NEGATE), int_id, res_95, res_94);
    emit5(out, encode_word(5, spv::SPV_INSTRUCTION_OP_COMPOSITE_CONSTRUCT), v2int_id, res_96, res_92, res_95);
    emit3(out, encode_word(3, spv::SPV_INSTRUCTION_OP_STORE), var_87, res_96);
}

fn emit_cube_direction_part_5(
    out: &mut Vec<u32>,
    ib: u32,
    t: CubeDirectionTypeInputs,
    function_type: u32,
    c: CubeDirectionConstants,
    glsl_std_id: u32,
)
    requires
        ib + 137 <= u32::MAX,
    ensures
        final(out)@ == cube_direction_part_5(old(out)@, ib as int, t, function_type, c, glsl_std_id),
{
    let int_id = t.int_id;
    let v2int_id = t.v2int_id;
    let bool_id = t.bool_id;
    let ptr_int_id = t.ptr_int_id;
    let int_1 = c.int_1;
    let int_2 = c.int_2;
    let r: u32 = ib + 1;
    let face: u32 = ib + 6;
    let var_100: u32 = ib + 11;
    let label_89: u32 = ib + 67;
    let label_97: u32 = ib + 69;
    let res_98: u32 = ib + 77;
    let res_99: u32 = ib + 78;
    let label_102: u32 = ib + 79;
    let label_101: u32 = ib + 80;
    let label_109: u32 = ib + 81;
    let res_103: u32 = ib + 82;
    let res_104: u32 = ib + 83;
    let res_105: u32 = ib + 84;
    let res_106: u32 = ib + 85;
    let res_107: u32 = ib + 86;
    let res_108: u32 = ib + 87;
    let res_110: u32 = ib + 88;
    let res_111: u32 = ib + 89;
    let label_114: u32 = ib + 90;
    let label_113: u32 = ib + 91;
    let label_120: u32 = ib + 92;
    emit2(out, encode_word(2, spv::SPV_INSTRUCTION_OP_BRANCH), label_89);
    emit2(out, encode_word(2, spv::SPV_INSTRUCTION_OP_LABEL), label_97);
    emit4(out, encode_word(4, spv::SPV_INSTRUCTION_OP_LOAD), int_id, res_98, face);
    emit5(out, encode_word(5, spv::SPV_INSTRUCTION_OP_I_EQUAL), bool_id, res_99, res_98, int_1);
    emit3(out, encode_word(3, spv::SPV_INSTRUCTION_OP_SELECTION_MERGE), label_102, 0);
    emit4(out, encode_word(4, spv::SPV_INSTRUCTION_OP_BRANCH_CONDITIONAL), res_99, label_101, label_109);
    emit2(out, encode_word(2, spv::SPV_INSTRUCTION_OP_LABEL), label_101);
    emit5(out, encode_word(5, spv::SPV_INSTRUCTION_OP_ACCESS_CHAIN), ptr_int_id, res_103, r, int_2);
    emit4(out, encode_word(4, spv::SPV_INSTRUCTION_OP_LOAD), int_id, res_104, res_103);
    emit5(out, encode_word(5, spv::SPV_INSTRUCTION_OP_ACCESS_CHAIN), ptr_int_id, res_105, r, int_1);
    emit4(out, encode_word(4, spv::SPV_INSTRUCTION_OP_LOAD), int_id, res_106, res_105);
    emit4(out, encode_word(4, spv::SPV_INSTRUCTION_OP_S_NEGATE), int_id, res_107, res_106);
    emit5(out, encode_word(5, spv::SPV_INSTRUCTION_OP_COMPOSITE_CONSTRUCT), v2int_id, res_108, res_104, res_107);
    emit3(out, encode_word(3, spv::SPV_INSTRUCTION_OP_STORE), var_100, res_108);
    emit2(out, encode_word(2, spv::SPV_INSTRUCTION_OP_BRANCH), label_102);
    emit2(out, encode_word(2, spv::SPV_INSTRUCTION_OP_LABEL), label_109);
    emit4(out, encode_word(4, spv::SPV_INSTRUCTION_OP_LOAD), int_id, res_110, face);
    emit5(out, encode_word(5, spv::SPV_INSTRUCTION_OP_I_EQUAL), bool_id, res_111, res_110, int_2);
    emit3(out, encode_word(3, spv::SPV_INSTRUCTION_OP_SELECTION_MERGE), label_114, 0);
    emit4(out, encode_word(4, spv::SPV_INSTRUCTION_OP_BRANCH_CONDITIONAL), res_111, label_113, label_120);
}

fn emit_cube_direction_part_6(
    out: &mut Vec<u32>,
    ib: u32,
    t: CubeDirectionTypeInputs,
    function_type: u32,
    c: CubeDirectionConstants,
    glsl_std_id: u32,
)
    requires
        ib + 137 <= u32::MAX,
    ensures
        final(out)@ == cube_direction_part_6(old(out)@, ib as int, t, function_type, c, glsl_std_id),
{
    let int_id = t.int_id;
    let v2int_id = t.v2int_id;
    let bool_id = t.bool_id;
    let ptr_int_id = t.ptr_int_id;
    let int_0 = c.int_0;
    let int_2 = c.int_2;
    let int_3 = c.int_3;
    let r: u32 = ib + 1;
    let face: u32 = ib + 6;
    let var_112: u32 = ib + 12;
    let label_114: u32 = ib + 90;
    let label_113: u32 = ib + 91;
    let label_120: u32 = ib + 92;
    let res_115: u32 = ib + 93;
    let res_116: u32 = ib + 94;
    let res_117: u32 = ib + 95;
    let res_118: u32 = ib + 96;
    let res_119: u32 = ib + 97;
    let res_121: u32 = ib + 98;
    let res_122: u32 = ib + 99;
    let label_125: u32 = ib + 100;
    let label_124: u32 = ib + 101;
    let label_132: u32 = ib + 102;
    let res_126: u32 = ib + 103;
    let res_127: u32 = ib + 104;
    let res_128: u32 = ib + 105;
    let res_129: u32 = ib + 106;
    let res_130: u32 = ib + 107;
    let res_131: u32 = ib + 108;
    emit2(out, encode_word(2, spv::SPV_INSTRUCTION_OP_LABEL), label_113);
    emit5(out, encode_word(5, spv::SPV_INSTRUCTION_OP_ACCESS_CHAIN), ptr_int_id, res_115, r, int_0);
    emit4(out, encode_word(4, spv::SPV_INSTRUCTION_OP_LOAD), int_id, res_116, res_115);
    emit5(out, encode_word(5, spv::SPV_INSTRUCTION_OP_ACCESS_CHAIN), ptr_int_id, res_117, r, int_2);
    emit4(out, encode_word(4, spv::SPV_INSTRUCTION_OP_LOAD), int_id, res_118, res_117);
    emit5(out, encode_word(5, spv::SPV_INSTRUCTION_OP_COMPOSITE_CONSTRUCT), v2int_id, res_119, res_116, res_118);
    emit3(out, encode_word(3, spv::SPV_INSTRUCTION_OP_STORE), var_112, res_119);
    emit2(out, encode_word(2, spv::SPV_INSTRUCTION_OP_BRANCH), label_114);
    emit2(out, encode_word(2, spv::SPV_INSTRUCTION_OP_LABEL), label_120);
    emit4(out, encode_word(4, spv::SPV_INSTRUCTION_OP_LOAD), int_id, res_121, face);
    emit5(out, encode_word(5, spv::SPV_INSTRUCTION_OP_I_EQUAL), bool_id, res_122, res_121, int_3);
    emit3(out, encode_word(3, spv::SPV_INSTRUCTION_OP_SELECTION_MERGE), label_125, 0);
    emit4(out, encode_word(4, spv::SPV_INSTRUCTION_OP_BRANCH_CONDITIONAL), res_122, label_124, label_132);
    emit2(out, encode_word(2, spv::SPV_INSTRUCTION_OP_LABEL), label_124);
    emit5(out, encode_word(5, spv::SPV_INSTRUCTION_OP_ACCESS_CHAIN), ptr_int_id, res_126, r, int_0);
    emit4(out, encode_word(4, spv::SPV_INSTRUCTION_OP_LOAD), int_id, res_127, res_126);
    emit5(out, encode_word(5, spv::SPV_INSTRUCTION_OP_ACCESS_CHAIN), ptr_int_id, res_128, r, int_2);
    emit4(out, encode_word(4, spv::SPV_INSTRUCTION_OP_LOAD), int_id, res_129, res_128);
    emit4(out, encode_word(4, spv::SPV_INSTRUCTION_OP_S_NEGATE), int_id, res_130, res_129);
    emit5(out, encode_word(5, spv::SPV_INSTRUCTION_OP_COMPOSITE_CONSTRUCT), v2int_id, res_131, res_127, res_130);
}

fn emit_cube_direction_part_7(
    out: &mut Vec<u32>,
    ib: u32,
    t: CubeDirectionTypeInputs,
    function_type: u32,
    c: CubeDirectionConstants,
    glsl_std_id: u32,
)
    requires
        ib + 137 <= u32::MAX,
    ensures
        final(out)@ == cube_direction_part_7(old(out)@, ib as int, t, function_type, c, glsl_std_id),
{
    let int_id = t.int_id;
    let v2int_id = t.v2int_id;
    let bool_id = t.bool_id;
    let ptr_int_id = t.ptr_int_id;
    let int_0 = c.int_0;
    let int_1 = c.int_1;
    let int_4 = c.int_4;
    let r: u32 = ib + 1;
    let face: u32 = ib + 6;
    let var_123: u32 = ib + 13;
    let var_135: u32 = ib + 14;
    let label_125: u32 = ib + 100;
    let label_132: u32 = ib + 102;
    let res_131: u32 = ib + 108;
    let res_133: u32 = ib + 109;
    let res_134: u32 = ib + 110;
    let label_137: u32 = ib + 111;
    let label_136: u32 = ib + 112;
    let label_144: u32 = ib + 113;
    let res_138: u32 = ib + 114;
    let res_139: u32 = ib + 115;
    let res_140: u32 = ib + 116;
    let res_141: u32 = ib + 117;
    let res_142: u32 = ib + 118;
    let res_143: u32 = ib + 119;
    let res_145: u32 = ib + 120;
    let res_146: u32 = ib + 121;
    let res_147: u32 = ib + 122;
    emit3(out, encode_word(3, spv::SPV_INSTRUCTION_OP_STORE), var_123, res_131);
    emit2(out, encode_word(2, spv::SPV_INSTRUCTION_OP_BRANCH), label_125);
    emit2(out, encode_word(2, spv::SPV_INSTRUCTION_OP_LABEL), label_132);
    emit4(out, encode_word(4, spv::SPV_INSTRUCTION_OP_LOAD), int_id, res_133, face);
    emit5(out, encode_word(5, spv::SPV_INSTRUCTION_OP_I_EQUAL), bool_id, res_134, res_133, int_4);
    emit3(out, encode_word(3, spv::SPV_INSTRUCTION_OP_SELECTION_MERGE), label_137, 0);
    emit4(out, encode_word(4, spv::SPV_INSTRUCTION_OP_BRANCH_CONDITIONAL), res_134, label_136, label_144);
    emit2(out, encode_word(2, spv::SPV_INSTRUCTION_OP_LABEL), label_136);
    emit5(out, encode_word(5, spv::SPV_INSTRUCTION_OP_ACCESS_CHAIN), ptr_int_id, res_138, r, int_0);
    emit4(out, encode_word(4, spv::SPV_INSTRUCTION_OP_LOAD), int_id, res_139, res_138);
    emit5(out, encode_word(5, spv::SPV_INSTRUCTION_OP_ACCESS_CHAIN), ptr_int_id, res_140, r, int_1);
    emit4(out, encode_word(4, spv::SPV_INSTRUCTION_OP_LOAD), int_id, res_141, res_140);
    emit4(out, encode_word(4, spv::SPV_INSTRUCTION_OP_S_NEGATE), int_id, res_142, res_141);
    emit5(out, encode_word(5, spv::SPV_INSTRUCTION_OP_COMPOSITE_CONSTRUCT), v2int_id, res_143, res_139, res_142);
    emit3(out, encode_word(3, spv::SPV_INSTRUCTION_OP_STORE), var_135, res_143);
    emit2(out, encode_word(2, spv::SPV_INSTRUCTION_OP_BRANCH), label_137);
    emit2(out, encode_word(2, spv::SPV_INSTRUCTION_OP_LABEL), label_144);
    emit5(out, encode_word(5, spv::SPV_INSTRUCTION_OP_ACCESS_CHAIN), ptr_int_id, res_145, r, int_0);
    emit4(out, encode_word(4, spv::SPV_INSTRUCTION_OP_LOAD), int_id, res_146, res_145);
    emit4(out, encode_word(4, spv::SPV_INSTRUCTION_OP_S_NEGATE), int_id, res_147, res_146);
}

fn emit_cube_direction_part_8(
    out: &mut Vec<u32>,
    ib: u32,
    t: CubeDirectionTypeInputs,
    function_type: u32,
    c: CubeDirectionConstants,
    glsl_std_id: u32,
)
    requires
        ib + 137 <= u32::MAX,
    ensures
        final(out)@ == cube_direction_part_8(old(out)@, ib as int, t, function_type, c, glsl_std_id),
{
    let int_id = t.int_id;
    let v2int_id = t.v2int_id;
    let ptr_int_id = t.ptr_int_id;
    let int_1 = c.int_1;
    let r: u32 = ib + 1;
    let var_100: u32 = ib + 11;
    let var_112: u32 = ib + 12;
    let var_123: u32 = ib + 13;
    let var_135: u32 = ib + 14;
    let label_102: u32 = ib + 79;
    let label_114: u32 = ib + 90;
    let label_125: u32 = ib + 100;
    let label_137: u32 = ib + 111;
    let res_147: u32 = ib + 122;
    let res_148: u32 = ib + 123;
    let res_149: u32 = ib + 124;
    let res_150: u32 = ib + 125;
    let res_151: u32 = ib + 126;
    let res_152: u32 = ib + 127;
    let res_153: u32 = ib + 128;
    let res_154: u32 = ib + 129;
    let res_155: u32 = ib + 130;
    emit5(out, encode_word(5, spv::SPV_INSTRUCTION_OP_ACCESS_CHAIN), ptr_int_id, res_148, r, int_1);
    emit4(out, encode_word(4, spv::SPV_INSTRUCTION_OP_LOAD), int_id, res_149, res_148);
    emit4(out, encode_word(4, spv::SPV_INSTRUCTION_OP_S_NEGATE), int_id, res_150, res_149);
    emit5(out, encode_word(5, spv::SPV_INSTRUCTION_OP_COMPOSITE_CONSTRUCT), v2int_id, res_151, res_147, res_150);
    emit3(out, encode_word(3, spv::SPV_INSTRUCTION_OP_STORE), var_135, res_151);
    emit2(out, encode_word(2, spv::SPV_INSTRUCTION_OP_BRANCH), label_137);
    emit2(out, encode_word(2, spv::SPV_INSTRUCTION_OP_LABEL), label_137);
    emit4(out, encode_word(4, spv::SPV_INSTRUCTION_OP_LOAD), v2int_id, res_152, var_135);
    emit3(out, encode_word(3, spv::SPV_INSTRUCTION_OP_STORE), var_123, res_152);
    emit2(out, encode_word(2, spv::SPV_INSTRUCTION_OP_BRANCH), label_125);
    emit2(out, encode_word(2, spv::SPV_INSTRUCTION_OP_LABEL), label_125);
    emit4(out, encode_word(4, spv::SPV_INSTRUCTION_OP_LOAD), v2int_id, res_153, var_123);
    emit3(out, encode_word(3, spv::SPV_INSTRUCTION_OP_STORE), var_112, res_153);
    emit2(out, encode_word(2, spv::SPV_INSTRUCTION_OP_BRANCH), label_114);
    emit2(out, encode_word(2, spv::SPV_INSTRUCTION_OP_LABEL), label_114);
    emit4(out, encode_word(4, spv::SPV_INSTRUCTION_OP_LOAD), v2int_id, res_154, var_112);
    emit3(out, encode_word(3, spv::SPV_INSTRUCTION_OP_STORE), var_100, res_154);
    emit2(out, encode_word(2, spv::SPV_INSTRUCTION_OP_BRANCH), label_102);
    emit2(out, encode_word(2, spv::SPV_INSTRUCTION_OP_LABEL), label_102);
    emit4(out, encode_word(4, spv::SPV_INSTRUCTION_OP_LOAD), v2int_id, res_155, var_100);
}

fn emit_cube_direction_part_9(
    out: &mut Vec<u32>,
    ib: u32,
    t: CubeDirectionTypeInputs,
    function_type: u32,
    c: CubeDirectionConstants,
    glsl_std_id: u32,
)
    requires
        ib + 137 <= u32::MAX,
    ensures
        final(out)@ == cube_direction_part_9(old(out)@, ib as int, t, function_type, c, glsl_std_id),
{
    let int_id = t.int_id;
    let v3int_id = t.v3int_id;
    let v2int_id = t.v2int_id;

    let face: u32 = ib + 6;
    let st: u32 = ib + 9;
    let var_87: u32 = ib + 10;
    let label_89: u32 = ib + 67;
    let res_155: u32 = ib + 130;
    let res_156: u32 = ib + 131;
    let res_157: u32 = ib + 132;
    let res_158: u32 = ib + 133;
    let res_159: u32 = ib + 134;
    let res_160: u32 = ib + 135;
    let res_161: u32 = ib + 136;
    emit3(out, encode_word(3, spv::SPV_INSTRUCTION_OP_STORE), var_87, res_155);
    emit2(out, encode_word(2, spv::SPV_INSTRUCTION_OP_BRANCH), label_89);
    emit2(out, encode_word(2, spv::SPV_INSTRUCTION_OP_LABEL), label_89);
    emit4(out, encode_word(4, spv::SPV_INSTRUCTION_OP_LOAD), v2int_id, res_156, var_87);
    emit3(out, encode_word(3, spv::SPV_INSTRUCTION_OP_STORE), st, res_156);
    emit4(out, encode_word(4, spv::SPV_INSTRUCTION_OP_LOAD), v2int_id, res_157, st);
    emit4(out, encode_word(4, spv::SPV_INSTRUCTION_OP_LOAD), int_id, res_158, face);
    emit5(out, encode_word(5, spv::SPV_INSTRUCTION_OP_COMPOSITE_EXTRACT), int_id, res_159, res_157, 0);
    emit5(out, encode_word(5, spv::SPV_INSTRUCTION_OP_COMPOSITE_EXTRACT), int_id, res_160, res_157, 1);
    emit6(out, encode_word(6, spv::SPV_INSTRUCTION_OP_COMPOSITE_CONSTRUCT), v3int_id, res_161, res_159, res_160, res_158);
    emit2(out, encode_word(2, spv::SPV_INSTRUCTION_OP_RETURN_VALUE), res_161);
    emit1(out, encode_word(1, spv::SPV_INSTRUCTION_OP_FUNCTION_END));
}

/// Defines the cube direction function, with the next 137 ids from `ib`; returns its id.
pub fn image_cube_direction_to_arrayed_spv(
    ib: &mut u32,
    ty_inputs: CubeDirectionTypeInputs,
    function_type: CubeDirectionFunctionType,
    constants: CubeDirectionConstants,
    glsl_std_id: u32,
) -> (r: (u32, Vec<u32>))
    requires
        *old(ib) + 137 <= u32::MAX,
    ensures
        *final(ib) == *old(ib) + 137,
        r.0 == *old(ib),
        r.1@ == cube_direction_words(*old(ib) as int, ty_inputs, function_type.0, constants, glsl_std_id),
{

    // %_imageCubeDirectionToArrayed_vi3_ = OpFunction %v3int None %_function_type
    //       %r = OpFunctionParameter %_ptr_Function_v3int
    //      %12 = OpLabel
    //       %a = OpVariable %_ptr_Function_v3int Function
    //       %x = OpVariable %_ptr_Function_bool Function
    //       %y = OpVariable %_ptr_Function_bool Function
    //    %face = OpVariable %_ptr_Function_int Function
    //      %53 = OpVariable %_ptr_Function_int Function
    //      %64 = OpVariable %_ptr_Function_int Function
    //      %st = OpVariable %_ptr_Function_v2int Function
    //      %87 = OpVariable %_ptr_Function_v2int Function
    //     %100 = OpVariable %_ptr_Function_v2int Function
    //     %112 = OpVariable %_ptr_Function_v2int Function
    //     %123 = OpVariable %_ptr_Function_v2int Function
    //     %135 = OpVariable %_ptr_Function_v2int Function
    //      %14 = OpLoad %v3int %r
    //      %15 = OpExtInst %v3int %1 SAbs %14
    //            OpStore %a %15
    //      %22 = OpAccessChain %_ptr_Function_int %a %int_0
    //      %23 = OpLoad %int %22
    //      %25 = OpAccessChain %_ptr_Function_int %a %int_1
    //      %26 = OpLoad %int %25
    //      %27 = OpSGreaterThanEqual %bool %23 %26
    //            OpSelectionMerge %29 None
    //            OpBranchConditional %27 %28 %29
    //      %28 = OpLabel
    //      %30 = OpAccessChain %_ptr_Function_int %a %int_0
    //      %31 = OpLoad %int %30
    //      %33 = OpAccessChain %_ptr_Function_int %a %int_2
    //      %34 = OpLoad %int %33
    //      %35 = OpSGreaterThanEqual %bool %31 %34
    //            OpBranch %29
    //      %29 = OpLabel
    //      %36 = OpPhi %bool %27 %12 %35 %28
    //            OpStore %x %36
    //      %38 = OpAccessChain %_ptr_Function_int %a %int_1
    //      %39 = OpLoad %int %38
    //      %40 = OpAccessChain %_ptr_Function_int %a %int_0
    //      %41 = OpLoad %int %40
    //      %42 = OpSGreaterThan %bool %39 %41
    //            OpSelectionMerge %44 None
    //            OpBranchConditional %42 %43 %44
    //      %43 = OpLabel
    //      %45 = OpAccessChain %_ptr_Function_int %a %int_1
    //      %46 = OpLoad %int %45
    //      %47 = OpAccessChain %_ptr_Function_int %a %int_2
    //      %48 = OpLoad %int %47
    //      %49 = OpSGreaterThanEqual %bool %46 %48
    //            OpBranch %44
    //      %44 = OpLabel
    //      %50 = OpPhi %bool %42 %29 %49 %43
    //            OpStore %y %50
    //      %52 = OpLoad %bool %x
    //            OpSelectionMerge %55 None
    //            OpBranchConditional %52 %54 %62
    //      %54 = OpLabel
    //      %56 = OpAccessChain %_ptr_Function_int %r %int_0
    //      %57 = OpLoad %int %56
    //      %59 = OpSGreaterThan %bool %57 %int_0
    //      %61 = OpSelect %int %59 %int_0 %int_1
    //            OpStore %53 %61
    //            OpBranch %55
    //      %62 = OpLabel
    //      %63 = OpLoad %bool %y
    //            OpSelectionMerge %66 None
    //            OpBranchConditional %63 %65 %73
    //      %65 = OpLabel
    //      %67 = OpAccessChain %_ptr_Function_int %r %int_1
    //      %68 = OpLoad %int %67
    //      %69 = OpSGreaterThan %bool %68 %int_0
    //      %72 = OpSelect %int %69 %int_2 %int_3
    //            OpStore %64 %72
    //            OpBranch %66
    //      %73 = OpLabel
    //      %74 = OpAccessChain %_ptr_Function_int %r %int_2
    //      %75 = OpLoad %int %74
    //      %76 = OpSGreaterThan %bool %75 %int_0
    //      %79 = OpSelect %int %76 %int_4 %int_5
    //            OpStore %64 %79
    //            OpBranch %66
    //      %66 = OpLabel
    //      %80 = OpLoad %int %64
    //            OpStore %53 %80
    //            OpBranch %55
    //      %55 = OpLabel
    //      %81 = OpLoad %int %53
    //            OpStore %face %81
    //      %85 = OpLoad %int %face
    //      %86 = OpIEqual %bool %85 %int_0
    //            OpSelectionMerge %89 None
    //            OpBranchConditional %86 %88 %97
    //      %88 = OpLabel
    //      %90 = OpAccessChain %_ptr_Function_int %r %int_2
    //      %91 = OpLoad %int %90
    //      %92 = OpSNegate %int %91
    //      %93 = OpAccessChain %_ptr_Function_int %r %int_1
    //      %94 = OpLoad %int %93
    //      %95 = OpSNegate %int %94
    //      %96 = OpCompositeConstruct %v2int %92 %95
    //            OpStore %87 %96
    //            OpBranch %89
    //      %97 = OpLabel
    //      %98 = OpLoad %int %face
    //      %99 = OpIEqual %bool %98 %int_1
    //            OpSelectionMerge %102 None
    //            OpBranchConditional %99 %101 %109
    //     %101 = OpLabel
    //     %103 = OpAccessChain %_ptr_Function_int %r %int_2
    //     %104 = OpLoad %int %103
    //     %105 = OpAccessChain %_ptr_Function_int %r %int_1
    //     %106 = OpLoad %int %105
    //     %107 = OpSNegate %int %106
    //     %108 = OpCompositeConstruct %v2int %104 %107
    //            OpStore %100 %108
    //            OpBranch %102
    //     %109 = OpLabel
    //     %110 = OpLoad %int %face
    //     %111 = OpIEqual %bool %110 %int_2
    //            OpSelectionMerge %114 None
    //            OpBranchConditional %111 %113 %120
    //     %113 = OpLabel
    //     %115 = OpAccessChain %_ptr_Function_int %r %int_0
    //     %116 = OpLoad %int %115
    //     %117 = OpAccessChain %_ptr_Function_int %r %int_2
    //     %118 = OpLoad %int %117
    //     %119 = OpCompositeConstruct %v2int %116 %118
    //            OpStore %112 %119
    //            OpBranch %114
    //     %120 = OpLabel
    //     %121 = OpLoad %int %face
    //     %122 = OpIEqual %bool %121 %int_3
    //            OpSelectionMerge %125 None
    //            OpBranchConditional %122 %124 %132
    //     %124 = OpLabel
    //     %126 = OpAccessChain %_ptr_Function_int %r %int_0
    //     %127 = OpLoad %int %126
    //     %128 = OpAccessChain %_ptr_Function_int %r %int_2
    //     %129 = OpLoad %int %128
    //     %130 = OpSNegate %int %129
    //     %131 = OpCompositeConstruct %v2int %127 %130
    //            OpStore %123 %131
    //            OpBranch %125
    //     %132 = OpLabel
    //     %133 = OpLoad %int %face
    //     %134 = OpIEqual %bool %133 %int_4
    //            OpSelectionMerge %137 None
    //            OpBranchConditional %134 %136 %144
    //     %136 = OpLabel
    //     %138 = OpAccessChain %_ptr_Function_int %r %int_0
    //     %139 = OpLoad %int %138
    //     %140 = OpAccessChain %_ptr_Function_int %r %int_1
    //     %141 = OpLoad %int %140
    //     %142 = OpSNegate %int %141
    //     %143 = OpCompositeConstruct %v2int %139 %142
    //            OpStore %135 %143
    //            OpBranch %137
    //     %144 = OpLabel
    //     %145 = OpAccessChain %_ptr_Function_int %r %int_0
    //     %146 = OpLoad %int %145
    //     %147 = OpSNegate %int %146
    //     %148 = OpAccessChain %_ptr_Function_int %r %int_1
    //     %149 = OpLoad %int %148
    //     %150 = OpSNegate %int %149
    //     %151 = OpCompositeConstruct %v2int %147 %150
    //            OpStore %135 %151
    //            OpBranch %137
    //     %137 = OpLabel
    //     %152 = OpLoad %v2int %135
    //            OpStore %123 %152
    //            OpBranch %125
    //     %125 = OpLabel
    //     %153 = OpLoad %v2int %123
    //            OpStore %112 %153
    //            OpBranch %114
    //     %114 = OpLabel
    //     %154 = OpLoad %v2int %112
    //            OpStore %100 %154
    //            OpBranch %102
    //     %102 = OpLabel
    //     %155 = OpLoad %v2int %100
    //            OpStore %87 %155
    //            OpBranch %89
    //      %89 = OpLabel
    //     %156 = OpLoad %v2int %87
    //            OpStore %st %156
    //     %157 = OpLoad %v2int %st
    //     %158 = OpLoad %int %face
    //     %159 = OpCompositeExtract %int %157 0
    //     %160 = OpCompositeExtract %int %157 1
    //     %161 = OpCompositeConstruct %v3int %159 %160 %158
    //            OpReturnValue %161
    //            OpFunctionEnd

    // The function takes the next 137 ids: the function itself, its parameter, its first
    // label, its variables and then every result and label in the order they are listed.
    let function_type = function_type.0;
    let func_id = *ib;
    *ib = *ib + 137;

    let mut spv: Vec<u32> = Vec::new();
    emit_cube_direction_part_0(&mut spv, func_id, ty_inputs, function_type, constants, glsl_std_id);
    emit_cube_direction_part_1(&mut spv, func_id, ty_inputs, function_type, constants, glsl_std_id);
    emit_cube_direction_part_2(&mut spv, func_id, ty_inputs, function_type, constants, glsl_std_id);
    emit_cube_direction_part_3(&mut spv, func_id, ty_inputs, function_type, constants, glsl_std_id);
    emit_cube_direction_part_4(&mut spv, func_id, ty_inputs, function_type, constants, glsl_std_id);
    emit_cube_direction_part_5(&mut spv, func_id, ty_inputs, function_type, constants, glsl_std_id);
    emit_cube_direction_part_6(&mut spv, func_id, ty_inputs, function_type, constants, glsl_std_id);
    emit_cube_direction_part_7(&mut spv, func_id, ty_inputs, function_type, constants, glsl_std_id);
    emit_cube_direction_part_8(&mut spv, func_id, ty_inputs, function_type, constants, glsl_std_id);
    emit_cube_direction_part_9(&mut spv, func_id, ty_inputs, function_type, constants, glsl_std_id);
    (func_id, spv)
}

} // verus!
