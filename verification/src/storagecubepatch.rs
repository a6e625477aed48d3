use vstd::prelude::*;

pub mod cube_direction_to_axis;

use crate::correction::{CorrectionMap, CorrectionType};
use crate::immediatespatch::body_of;
use crate::spv;
use crate::splitbindingarray::inc;
use crate::storagecubepatch::cube_direction_to_axis::{
    cube_constants_words, cube_direction_words, cube_fn_type_words, image_cube_direction_to_arrayed_constants_spv,
    image_cube_direction_to_arrayed_fn_type, image_cube_direction_to_arrayed_spv, CubeDirectionConstants,
    CubeDirectionTypeInputs,
};
use crate::util::decorate::{
    added_decorations, affected_corrections, affected_sets, decorate, sets_view, AffectedDecoration, DecorateIn,
};
use crate::util::ensure::{
    ensure_ext_inst_import, ensure_type_bool, ensure_type_int, ensure_type_pointer, ensure_type_vector,
    ensured_bool_decl, ensured_bool_id, ensured_bound, ensured_decl, ensured_id, import_words, imports_readable,
    is_first_accepted, some_accepted,
};
use crate::util::function::{function_label, get_function_label_index_of_instruction_index};
use crate::util::instruction::{
    collect_words, contains_u32, fill_nops, fits_in_memory, idxs_reach, instruction_idxs, is_tiled, lemma_op_starts_reach,
    lemma_starts_step, lemma_tiles_inside, min_reach, nops_over, op_at, op_starts, operands_fit, starts, starts_from,
    terminates_from, tiles, wc_at, wf_stream,
};
use crate::util::pointer::lemma_tiles_terminates;
use crate::util::{
    encode_word, fuse_final, hiword, loword, insert_new_instructions, insert_views, inserted, lemma_inserted_some,
    prune_noops, spec_encode_word, strip_nops, InsertView, InstructionInsert, WordInsert,
};
use vstd::slice::slice_subrange;
use vstd::string::StringSliceAdditionalSpecFns;

verus! {

/// `OpImageFetch`, `OpImageRead` and `OpImageWrite`: the image accesses that take integer
/// coordinates.
pub open spec fn is_image_access(op: int) -> bool {
    op == spv::SPV_INSTRUCTION_OP_IMAGE_FETCH as int || op == spv::SPV_INSTRUCTION_OP_IMAGE_READ as int
        || op == spv::SPV_INSTRUCTION_OP_IMAGE_WRITE as int
}

/// The image accesses of `s`, in stream order.
pub open spec fn image_accesses(s: Seq<u32>) -> Seq<usize> {
    starts(s).filter(|k: usize| is_image_access(op_at(s, k as int)))
}

/// Offset of the image operand of the access at `k`.
pub open spec fn image_operand(s: Seq<u32>, k: usize) -> int {
    if op_at(s, k as int) == spv::SPV_INSTRUCTION_OP_IMAGE_WRITE as int {
        1
    } else {
        3
    }
}

/// Offset of the coordinate operand of the access at `k`.
pub open spec fn coordinate_operand(s: Seq<u32>, k: usize) -> int {
    if op_at(s, k as int) == spv::SPV_INSTRUCTION_OP_IMAGE_WRITE as int {
        2
    } else {
        4
    }
}

/// The last offset of `l`, or `d` when it is larger or `l` is empty.
pub open spec fn last_or(l: Seq<usize>, d: usize) -> usize {
    if l.len() > 0 && l.last() > d {
        l.last()
    } else {
        d
    }
}

/// Where the new types go: after the last `OpTypeInt`, `OpTypeBool`, `OpTypeVector` or
/// `OpTypePointer`.
pub open spec fn cube_header_position(s: Seq<u32>) -> usize {
    last_or(op_starts(s, spv::SPV_INSTRUCTION_OP_TYPE_POINTER as int),
        last_or(op_starts(s, spv::SPV_INSTRUCTION_OP_TYPE_VECTOR as int),
            last_or(op_starts(s, spv::SPV_INSTRUCTION_OP_TYPE_BOOL as int),
                last_or(op_starts(s, spv::SPV_INSTRUCTION_OP_TYPE_INT as int), 0))))
}

/// Nothing to patch: no vector type, no image type or no image access.
pub open spec fn cube_untouched(s: Seq<u32>) -> bool {
    ||| op_starts(s, spv::SPV_INSTRUCTION_OP_TYPE_VECTOR as int).len() == 0
    ||| op_starts(s, spv::SPV_INSTRUCTION_OP_TYPE_IMAGE as int).len() == 0
    ||| image_accesses(s).len() == 0
}

/// A `Function` pointer type to `ty`, found or declared with the fresh id `b`.
pub open spec fn fn_ptr_id(s: Seq<u32>, ty: u32, b: int) -> u32 {
    ensured_id(s, op_starts(s, spv::SPV_INSTRUCTION_OP_TYPE_POINTER as int), spv::SPV_STORAGE_CLASS_FUNCTION, ty, b as u32)
}

pub open spec fn fn_ptr_bound(s: Seq<u32>, ty: u32, b: int) -> int {
    ensured_bound(s, op_starts(s, spv::SPV_INSTRUCTION_OP_TYPE_POINTER as int), spv::SPV_STORAGE_CLASS_FUNCTION, ty, b)
}

pub open spec fn fn_ptr_decl(s: Seq<u32>, ty: u32, b: int) -> Seq<u32> {
    ensured_decl(s, op_starts(s, spv::SPV_INSTRUCTION_OP_TYPE_POINTER as int), spv::SPV_INSTRUCTION_OP_TYPE_POINTER,
        spv::SPV_STORAGE_CLASS_FUNCTION, ty, b as u32)
}

/// An `OpTypeVector` of `count` components of `ty`, found or declared with the fresh id `b`.
pub open spec fn vector_id(s: Seq<u32>, ty: u32, count: u32, b: int) -> u32 {
    ensured_id(s, op_starts(s, spv::SPV_INSTRUCTION_OP_TYPE_VECTOR as int), ty, count, b as u32)
}

pub open spec fn vector_bound(s: Seq<u32>, ty: u32, count: u32, b: int) -> int {
    ensured_bound(s, op_starts(s, spv::SPV_INSTRUCTION_OP_TYPE_VECTOR as int), ty, count, b)
}

pub open spec fn vector_decl(s: Seq<u32>, ty: u32, count: u32, b: int) -> Seq<u32> {
    ensured_decl(s, op_starts(s, spv::SPV_INSTRUCTION_OP_TYPE_VECTOR as int), spv::SPV_INSTRUCTION_OP_TYPE_VECTOR, ty,
        count, b as u32)
}

/// A type and a `Function` pointer to it, the type being `ty` when there was one, found or
/// declared from the bound `b`: the two ids, the declarations and the new bound.
pub open spec fn with_fn_ptr(s: Seq<u32>, ty: (u32, Seq<u32>, int)) -> (u32, u32, Seq<u32>, int) {
    (ty.0, fn_ptr_id(s, ty.0, ty.2), ty.1 + fn_ptr_decl(s, ty.0, ty.2), fn_ptr_bound(s, ty.0, ty.2))
}

/// The boolean type, found or declared with the fresh id `b`.
pub open spec fn bool_type(s: Seq<u32>, b: int) -> (u32, Seq<u32>, int) {
    let bools = op_starts(s, spv::SPV_INSTRUCTION_OP_TYPE_BOOL as int);
    (ensured_bool_id(s, bools, b as u32), ensured_bool_decl(bools, b as u32), if bools.len() > 0 { b } else { b + 1 })
}

/// The signed 32-bit integer type, found or declared with the fresh id `b`.
pub open spec fn int32_type(s: Seq<u32>, b: int) -> (u32, Seq<u32>, int) {
    let ints = op_starts(s, spv::SPV_INSTRUCTION_OP_TYPE_INT as int);
    (ensured_id(s, ints, 32, spv::SPV_SIGNEDNESS_SIGNED, b as u32),
        ensured_decl(s, ints, spv::SPV_INSTRUCTION_OP_TYPE_INT, 32, spv::SPV_SIGNEDNESS_SIGNED, b as u32),
        ensured_bound(s, ints, 32, spv::SPV_SIGNEDNESS_SIGNED, b))
}

/// The vector type of `count` components of `ty`, found or declared with the fresh id `b`.
pub open spec fn vector_type(s: Seq<u32>, ty: u32, count: u32, b: int) -> (u32, Seq<u32>, int) {
    (vector_id(s, ty, count, b), vector_decl(s, ty, count, b), vector_bound(s, ty, count, b))
}

/// The types the cube direction function uses, found in `s` or declared with fresh ids from
/// `b`: their ids, the declarations and the bound after them.
pub open spec fn cube_types(s: Seq<u32>, b: int) -> (CubeDirectionTypeInputs, Seq<u32>, int) {
    let bools = with_fn_ptr(s, bool_type(s, b));
    let ints = with_fn_ptr(s, int32_type(s, bools.3));
    let v3 = with_fn_ptr(s, vector_type(s, ints.0, 3, ints.3));
    let v2 = with_fn_ptr(s, vector_type(s, ints.0, 2, v3.3));
    (CubeDirectionTypeInputs {
        int_id: ints.0,
        v3int_id: v3.0,
        v2int_id: v2.0,
        bool_id: bools.0,
        ptr_v3int_id: v3.1,
        ptr_int_id: ints.1,
        ptr_bool_id: bools.1,
        ptr_v2int_id: v2.1,
    }, bools.2 + ints.2 + v3.2 + v2.2, v2.3)
}

/// The bytes of `GLSL.std.`.
pub open spec fn glsl_std_prefix() -> Seq<u8> {
    seq![71u8, 76u8, 83u8, 76u8, 46u8, 115u8, 116u8, 100u8, 46u8]
}

/// The bytes of `GLSL.std.450`.
pub open spec fn glsl_std_450() -> Seq<u8> {
    glsl_std_prefix() + seq![52u8, 53u8, 48u8]
}

/// An instruction set name starting with `GLSL.std.`.
pub open spec fn glsl_std_named(name: Seq<u8>) -> bool {
    name.len() >= 9 && name.subrange(0, 9) == glsl_std_prefix()
}

/// `j` is the first listed import named `GLSL.std.*`.
pub open spec fn first_glsl_import(s: Seq<u32>, imports: Seq<usize>, j: int) -> bool {
    is_first_accepted(s, imports, |n: Seq<u8>| glsl_std_named(n), j)
}

/// The `GLSL.std.450` import: the first import named `GLSL.std.*`, or a new import with the
/// fresh id `b`; its id, its declaration and the bound after it.
pub open spec fn cube_glsl(s: Seq<u32>, b: int) -> (u32, Seq<u32>, int) {
    let imports = op_starts(s, spv::SPV_INSTRUCTION_OP_EXT_INST_IMPORT as int);
    if some_accepted(s, imports, |n: Seq<u8>| glsl_std_named(n)) {
        let j = choose|j: int| #[trigger] first_glsl_import(s, imports, j);
        (s[imports[j] + 1], Seq::empty(), b)
    } else {
        (b as u32, import_words(b as u32, glsl_std_450()), b + 1)
    }
}

/// The ids of the cube image types.
pub open spec fn cube_image_ids(s: Seq<u32>) -> Set<u32> {
    let images = op_starts(s, spv::SPV_INSTRUCTION_OP_TYPE_IMAGE as int);
    Set::new(|id: u32| exists|j: int| 0 <= j < images.len() && s[#[trigger] images[j] + 3] == spv::SPV_DIMENSION_CUBE
        && s[images[j] + 1] == id)
}

/// The ids of the pointer types to cube images.
pub open spec fn cube_pointer_ids(s: Seq<u32>) -> Set<u32> {
    let pointers = op_starts(s, spv::SPV_INSTRUCTION_OP_TYPE_POINTER as int);
    Set::new(|id: u32| exists|j: int| 0 <= j < pointers.len() && cube_image_ids(s).contains(s[#[trigger] pointers[j] + 3])
        && s[pointers[j] + 1] == id)
}

/// The variables, then the function parameters, whose type points to a cube image.
pub open spec fn cube_loadables(s: Seq<u32>) -> Seq<usize> {
    (op_starts(s, spv::SPV_INSTRUCTION_OP_VARIABLE as int) + op_starts(s, spv::SPV_INSTRUCTION_OP_FUNCTION_PARAMETER as int))
        .filter(|v: usize| cube_pointer_ids(s).contains(s[v + 1]))
}

/// The ids of those variables and parameters.
pub open spec fn cube_loadable_ids(s: Seq<u32>) -> Seq<u32> {
    cube_loadables(s).map_values(|v: usize| s[v + 2])
}

/// The ids of the cube images loaded from them.
pub open spec fn cube_loaded_ids(s: Seq<u32>) -> Set<u32> {
    let loads = op_starts(s, spv::SPV_INSTRUCTION_OP_LOAD as int);
    Set::new(|id: u32| exists|j: int| 0 <= j < loads.len() && cube_loadable_ids(s).contains(s[#[trigger] loads[j] + 3])
        && s[loads[j] + 2] == id)
}

/// The image accesses of loaded cube images.
pub open spec fn cube_accesses(s: Seq<u32>) -> Seq<usize> {
    image_accesses(s).filter(|k: usize| cube_loaded_ids(s).contains(s[k + image_operand(s, k)]))
}

/// `v` with the cube image types among the first `k` image types made two-dimensional and
/// arrayed; the other image types are left as they are.
pub open spec fn flattened(v: Seq<u32>, images: Seq<usize>, k: int) -> Seq<u32>
    decreases k,
{
    if k <= 0 {
        v
    } else {
        let i = images[k - 1];
        let prev = flattened(v, images, k - 1);
        if v[i + 3] == spv::SPV_DIMENSION_CUBE {
            prev.update(i + 3, spv::SPV_DIMENSION_2D).update(i + 5, 1)
        } else {
            prev
        }
    }
}

/// The temporary variable that holds the coordinate of a patched access.
pub open spec fn access_variable_words(t: CubeDirectionTypeInputs, temp: u32) -> Seq<u32> {
    seq![spec_encode_word(4, spv::SPV_INSTRUCTION_OP_VARIABLE), t.ptr_v3int_id, temp, spv::SPV_STORAGE_CLASS_FUNCTION]
}

/// The patched access at `k`: the coordinate stored into `temp`, passed to the cube
/// direction function `f`, and the access repeated with the function's result `temp + 1`
/// as its coordinate.
pub open spec fn access_words(s: Seq<u32>, k: usize, t: CubeDirectionTypeInputs, f: u32, temp: u32) -> Seq<u32> {
    seq![
        spec_encode_word(3, spv::SPV_INSTRUCTION_OP_STORE), temp, s[k + coordinate_operand(s, k)],
        spec_encode_word(5, spv::SPV_INSTRUCTION_OP_FUNCTION_CALL), t.v3int_id, (temp + 1) as u32, f, temp,
    ] + s.subrange(k as int, k + wc_at(s, k as int)).update(coordinate_operand(s, k), (temp + 1) as u32)
}

/// The inserts for the first `n` patched accesses, the `j`-th with the ids `b + 2 * j` and
/// `b + 2 * j + 1`.
pub open spec fn access_inserts(s: Seq<u32>, ops: Seq<usize>, t: CubeDirectionTypeInputs, f: u32, b: int, n: int)
    -> Seq<InsertView>
    decreases n,
{
    if n <= 0 {
        Seq::empty()
    } else {
        let k = ops[n - 1];
        let temp = (b + 2 * (n - 1)) as u32;
        access_inserts(s, ops, t, f, b, n - 1) + seq![
            (function_label(s, k)->0, access_variable_words(t, temp)),
            (k, access_words(s, k, t, f, temp)),
        ]
    }
}

/// The bound after the types and the instruction set import: the cube direction function's
/// type takes this id, its constants the next six, the function itself the one after them.
pub open spec fn cube_definitions_base(s: Seq<u32>, b: int) -> int {
    cube_glsl(s, cube_types(s, b).2).2
}

/// The declarations that go with the types: the types, the instruction set import, the
/// function type and the constants.
#[verifier::opaque]
pub open spec fn cube_header_words(s: Seq<u32>, b: int) -> Seq<u32> {
    let ct = cube_types(s, b);
    let cg = cube_glsl(s, ct.2);
    ct.1 + cg.1 + cube_fn_type_words(cg.2 as u32, ct.0) + cube_constants_words(cg.2 + 1, ct.0.int_id)
}

/// The definition of the cube direction function.
#[verifier::opaque]
pub open spec fn cube_function_words(s: Seq<u32>, b: int) -> Seq<u32> {
    let ct = cube_types(s, b);
    let cg = cube_glsl(s, ct.2);
    let b9 = cg.2;
    let constants = CubeDirectionConstants {
        int_0: (b9 + 1) as u32,
        int_1: (b9 + 2) as u32,
        int_2: (b9 + 3) as u32,
        int_3: (b9 + 4) as u32,
        int_4: (b9 + 5) as u32,
        int_5: (b9 + 6) as u32,
    };
    cube_direction_words(b9 + 7, ct.0, b9 as u32, constants, cg.0)
}

/// The result of patching a module body `s` whose instruction bound is `b`: the body with
/// the new types, the access rewrites and the cube direction function, and the new bound.
pub open spec fn cube_result(s: Seq<u32>, b: int) -> (Option<Seq<u32>>, int) {
    let t = cube_types(s, b).0;
    let b9 = cube_definitions_base(s, b);
    let ops = cube_accesses(s);
    let images = op_starts(s, spv::SPV_INSTRUCTION_OP_TYPE_IMAGE as int);
    let patched = nops_over(flattened(s, images, images.len() as int), s, ops);
    let inserts = seq![(cube_header_position(s), cube_header_words(s, b))]
        + access_inserts(s, ops, t, (b9 + 7) as u32, b9 + 144, ops.len() as int);
    (match inserted(s, patched, Seq::<WordInsert>::empty(), inserts) {
        Some(v) => Some(v + cube_function_words(s, b)),
        None => None,
    }, b9 + 144 + 2 * ops.len())
}

/// The affected decorations: each loaded variable or parameter keeps its id.
pub open spec fn cube_affected(s: Seq<u32>) -> Seq<AffectedDecoration> {
    cube_loadable_ids(s).map_values(|id: u32| AffectedDecoration {
        original_res_id: id,
        new_res_id: id,
        correction_type: CorrectionType::ConvertStorageCube,
    })
}

/// What patching reads of a module it changes: no cube image is already arrayed, import names
/// are valid UTF-8, every patched access lies in a function with a label, and the new ids fit.
pub open spec fn cube_ready(s: Seq<u32>, b: int) -> bool {
    let images = op_starts(s, spv::SPV_INSTRUCTION_OP_TYPE_IMAGE as int);
    &&& forall|j: int| 0 <= j < images.len() ==> !(s[#[trigger] images[j] + 3] == spv::SPV_DIMENSION_CUBE && s[images[j] + 5] == 1)
    &&& imports_readable(s, op_starts(s, spv::SPV_INSTRUCTION_OP_EXT_INST_IMPORT as int))
    &&& forall|j: int| 0 <= j < cube_accesses(s).len() ==> (#[trigger] function_label(s, cube_accesses(s)[j])) is Some
        && coordinate_operand(s, cube_accesses(s)[j]) < wc_at(s, cube_accesses(s)[j] as int)
    &&& cube_result(s, b).1 <= u32::MAX
}

/// Whether an instruction set name starts with `GLSL.std.`.
fn is_glsl_std(name: &str) -> (r: bool)
    ensures
        r == glsl_std_named(name.spec_bytes()),
{
    let b = name.as_bytes();
    if b.len() < 9 {
        return false;
    }
    let r = b[0] == 71 && b[1] == 76 && b[2] == 83 && b[3] == 76 && b[4] == 46 && b[5] == 115 && b[6] == 116
        && b[7] == 100 && b[8] == 46;
    proof {
        let p = glsl_std_prefix();
        if r {
            assert(b@.subrange(0, 9) =~= p);
        } else if b@.subrange(0, 9) == p {
            assert(b@[0] == b@.subrange(0, 9)[0]);
            assert(b@[1] == b@.subrange(0, 9)[1]);
            assert(b@[2] == b@.subrange(0, 9)[2]);
            assert(b@[3] == b@.subrange(0, 9)[3]);
            assert(b@[4] == b@.subrange(0, 9)[4]);
            assert(b@[5] == b@.subrange(0, 9)[5]);
            assert(b@[6] == b@.subrange(0, 9)[6]);
            assert(b@[7] == b@.subrange(0, 9)[7]);
            assert(b@[8] == b@.subrange(0, 9)[8]);
        }
    }
    r
}

/// Flattening changes no word but the dimension and arrayed operands of cube image types:
/// every other image type, and every other instruction, is left as it was.
pub proof fn lemma_flattened_changes_only_cubes(v: Seq<u32>, images: Seq<usize>, k: int, p: int)
    requires
        0 <= k <= images.len(),
        idxs_reach(v, images, 7),
        0 <= p < v.len(),
        flattened(v, images, k)[p] != v[p],
    ensures
        exists|j: int| 0 <= j < k && v[#[trigger] images[j] + 3] == spv::SPV_DIMENSION_CUBE
            && (p == images[j] + 3 || p == images[j] + 5),
    decreases k,
{
    lemma_flattened_len(v, images, k);
    if k > 0 {
        let i = images[k - 1];
        let prev = flattened(v, images, k - 1);
        lemma_flattened_len(v, images, k - 1);
        if v[i + 3] == spv::SPV_DIMENSION_CUBE && (p == i + 3 || p == i + 5) {
            assert(v[images[k - 1] + 3] == spv::SPV_DIMENSION_CUBE);
        } else {
            assert(prev[p] != v[p]);
            lemma_flattened_changes_only_cubes(v, images, k - 1, p);
        }
    }
}

proof fn lemma_flattened_len(v: Seq<u32>, images: Seq<usize>, k: int)
    requires
        k <= images.len(),
        idxs_reach(v, images, 7),
    ensures
        flattened(v, images, k).len() == v.len(),
    decreases k,
{
    if k > 0 {
        lemma_flattened_len(v, images, k - 1);
    }
}

/// Makes every cube image type two-dimensional and arrayed; returns the ids of the cube images.
fn flatten_image_types(new_spv: &mut Vec<u32>, spv: &[u32], images: &[usize]) -> (r: Vec<u32>)
    requires
        old(new_spv)@ == spv@,
        images@ == op_starts(spv@, spv::SPV_INSTRUCTION_OP_TYPE_IMAGE as int),
        idxs_reach(spv@, images@, 7),
        forall|j: int| 0 <= j < images@.len() ==> !(spv@[#[trigger] images@[j] + 3] == spv::SPV_DIMENSION_CUBE
            && spv@[images@[j] + 5] == 1),
    ensures
        final(new_spv)@ == flattened(spv@, images@, images@.len() as int),
        forall|x: u32| r@.contains(x) <==> cube_image_ids(spv@).contains(x),
{
    let ghost s = spv@;
    let mut out: Vec<u32> = Vec::new();
    let mut k: usize = 0;
    while k < images.len()
        invariant
            s == spv@,
            images@ == op_starts(s, spv::SPV_INSTRUCTION_OP_TYPE_IMAGE as int),
            idxs_reach(s, images@, 7),
            k <= images@.len(),
            new_spv@ == flattened(s, images@, k as int),
            new_spv@.len() == s.len(),
            forall|x: u32| #![trigger out@.contains(x)] out@.contains(x) <==> exists|j: int| 0 <= j < k
                && s[#[trigger] images@[j] + 3] == spv::SPV_DIMENSION_CUBE && s[images@[j] + 1] == x,
        decreases images@.len() - k,
    {
        let i = images[k];
        assert(images@[k as int] + 7 < s.len());
        assert(s.len() == spv.len());
        let dim = spv[i + 3];
        let ghost before = out@;
        proof {
            lemma_flattened_len(s, images@, k as int);
        }
        if dim == spv::SPV_DIMENSION_CUBE {
            out.push(spv[i + 1]);
            new_spv.set(i + 3, spv::SPV_DIMENSION_2D);
            new_spv.set(i + 5, 1);
        }
        proof {
            assert forall|x: u32| #![trigger out@.contains(x)] out@.contains(x) <==> exists|j: int| 0 <= j < k + 1
                && s[#[trigger] images@[j] + 3] == spv::SPV_DIMENSION_CUBE && s[images@[j] + 1] == x by {
                if dim == spv::SPV_DIMENSION_CUBE {
                    vstd::seq_lib::lemma_seq_contains_after_push(before, s[i + 1], x);
                }
                if exists|j: int| 0 <= j < k + 1 && s[#[trigger] images@[j] + 3] == spv::SPV_DIMENSION_CUBE && s[images@[j] + 1] == x {
                    let j = choose|j: int| 0 <= j < k + 1 && s[#[trigger] images@[j] + 3] == spv::SPV_DIMENSION_CUBE && s[images@[j] + 1] == x;
                    if j < k {
                        assert(before.contains(x));
                    }
                }
                if before.contains(x) {
                    let j = choose|j: int| 0 <= j < k && s[#[trigger] images@[j] + 3] == spv::SPV_DIMENSION_CUBE && s[images@[j] + 1] == x;
                    assert(0 <= j < k + 1);
                }
            }
        }
        k = k + 1;
    }
    out
}

/// The ids of the listed pointer types whose pointee is one of `pointees`.
fn pointers_to(spv: &[u32], pointers: &[usize], pointees: &Vec<u32>, Ghost(set): Ghost<Set<u32>>) -> (r: Vec<u32>)
    requires
        idxs_reach(spv@, pointers@, 3),
        forall|x: u32| pointees@.contains(x) <==> set.contains(x),
    ensures
        forall|x: u32| r@.contains(x) <==> exists|j: int| 0 <= j < pointers@.len()
            && set.contains(spv@[#[trigger] pointers@[j] + 3]) && spv@[pointers@[j] + 1] == x,
{
    let ghost s = spv@;
    let mut out: Vec<u32> = Vec::new();
    let mut k: usize = 0;
    while k < pointers.len()
        invariant
            s == spv@,
            idxs_reach(s, pointers@, 3),
            forall|x: u32| pointees@.contains(x) <==> set.contains(x),
            k <= pointers@.len(),
            forall|x: u32| #![trigger out@.contains(x)] out@.contains(x) <==> exists|j: int| 0 <= j < k
                && set.contains(s[#[trigger] pointers@[j] + 3]) && s[pointers@[j] + 1] == x,
        decreases pointers@.len() - k,
    {
        let p = pointers[k];
        assert(pointers@[k as int] + 3 < s.len());
        assert(s.len() == spv.len());
        let hit = contains_u32(pointees, spv[p + 3]);
        let ghost before = out@;
        if hit {
            out.push(spv[p + 1]);
        }
        proof {
            assert forall|x: u32| #![trigger out@.contains(x)] out@.contains(x) <==> exists|j: int| 0 <= j < k + 1
                && set.contains(s[#[trigger] pointers@[j] + 3]) && s[pointers@[j] + 1] == x by {
                if hit {
                    vstd::seq_lib::lemma_seq_contains_after_push(before, s[p + 1], x);
                }
                if exists|j: int| 0 <= j < k + 1 && set.contains(s[#[trigger] pointers@[j] + 3]) && s[pointers@[j] + 1] == x {
                    let j = choose|j: int| 0 <= j < k + 1 && set.contains(s[#[trigger] pointers@[j] + 3]) && s[pointers@[j] + 1] == x;
                    if j < k {
                        assert(before.contains(x));
                    }
                }
                if before.contains(x) {
                    let j = choose|j: int| 0 <= j < k && set.contains(s[#[trigger] pointers@[j] + 3]) && s[pointers@[j] + 1] == x;
                    assert(0 <= j < k + 1);
                }
            }
        }
        k = k + 1;
    }
    out
}

/// The listed variables and parameters whose type is one of `types`.
fn typed_with(spv: &[u32], idxs: &Vec<usize>, types: &Vec<u32>, Ghost(set): Ghost<Set<u32>>) -> (r: Vec<usize>)
    requires
        idxs_reach(spv@, idxs@, 2),
        forall|x: u32| types@.contains(x) <==> set.contains(x),
    ensures
        r@ == idxs@.filter(|v: usize| set.contains(spv@[v + 1])),
{
    let ghost s = spv@;
    let ghost pred = |v: usize| set.contains(s[v + 1]);
    let mut out: Vec<usize> = Vec::new();
    let mut k: usize = 0;
    assert(idxs@.take(0) =~= Seq::<usize>::empty());
    while k < idxs.len()
        invariant
            s == spv@,
            pred == (|v: usize| set.contains(s[v + 1])),
            k <= idxs@.len(),
            idxs_reach(s, idxs@, 2),
            forall|x: u32| types@.contains(x) <==> set.contains(x),
            out@ == idxs@.take(k as int).filter(pred),
        decreases idxs@.len() - k,
    {
        let v = idxs[k];
        assert(idxs@[k as int] + 2 < s.len());
        assert(s.len() == spv.len());
        proof {
            assert(idxs@.take(k + 1) =~= idxs@.take(k as int).push(v));
            idxs@.take(k as int).lemma_filter_push(v, pred);
        }
        if contains_u32(types, spv[v + 1]) {
            out.push(v);
        }
        k = k + 1;
    }
    assert(idxs@.take(k as int) =~= idxs@);
    out
}

/// The results of the listed loads whose pointer is one of `pointers`.
fn loaded_from(spv: &[u32], loads: &[usize], pointers: &Vec<u32>) -> (r: Vec<u32>)
    requires
        idxs_reach(spv@, loads@, 3),
    ensures
        forall|x: u32| r@.contains(x) <==> exists|j: int| 0 <= j < loads@.len()
            && pointers@.contains(spv@[#[trigger] loads@[j] + 3]) && spv@[loads@[j] + 2] == x,
{
    let ghost s = spv@;
    let mut out: Vec<u32> = Vec::new();
    let mut k: usize = 0;
    while k < loads.len()
        invariant
            s == spv@,
            idxs_reach(s, loads@, 3),
            k <= loads@.len(),
            forall|x: u32| #![trigger out@.contains(x)] out@.contains(x) <==> exists|j: int| 0 <= j < k
                && pointers@.contains(s[#[trigger] loads@[j] + 3]) && s[loads@[j] + 2] == x,
        decreases loads@.len() - k,
    {
        let l = loads[k];
        assert(loads@[k as int] + 3 < s.len());
        assert(s.len() == spv.len());
        let hit = contains_u32(pointers, spv[l + 3]);
        let ghost before = out@;
        if hit {
            out.push(spv[l + 2]);
        }
        proof {
            assert forall|x: u32| #![trigger out@.contains(x)] out@.contains(x) <==> exists|j: int| 0 <= j < k + 1
                && pointers@.contains(s[#[trigger] loads@[j] + 3]) && s[loads@[j] + 2] == x by {
                if hit {
                    vstd::seq_lib::lemma_seq_contains_after_push(before, s[l + 2], x);
                }
                if exists|j: int| 0 <= j < k + 1 && pointers@.contains(s[#[trigger] loads@[j] + 3]) && s[loads@[j] + 2] == x {
                    let j = choose|j: int| 0 <= j < k + 1 && pointers@.contains(s[#[trigger] loads@[j] + 3]) && s[loads@[j] + 2] == x;
                    if j < k {
                        assert(before.contains(x));
                    }
                }
                if before.contains(x) {
                    let j = choose|j: int| 0 <= j < k && pointers@.contains(s[#[trigger] loads@[j] + 3]) && s[loads@[j] + 2] == x;
                    assert(0 <= j < k + 1);
                }
            }
        }
        k = k + 1;
    }
    out
}

/// The offsets of the image accesses of the stream, in stream order.
fn image_access_idxs(spv: &[u32]) -> (r: Vec<usize>)
    requires
        terminates_from(spv@, 0),
        fits_in_memory(spv@),
    ensures
        r@ == image_accesses(spv@),
{
    let ghost s = spv@;
    let ghost pred = |k: usize| is_image_access(op_at(s, k as int));
    let mut out: Vec<usize> = Vec::new();
    let mut idx: usize = 0;
    let ghost mut done: Seq<usize> = Seq::empty();
    while idx < spv.len()
        invariant
            s == spv@,
            pred == (|k: usize| is_image_access(op_at(s, k as int))),
            fits_in_memory(s),
            terminates_from(s, idx as int),
            done + starts_from(s, idx as int) == starts(s),
            out@ == done.filter(pred),
        decreases s.len() + 0x10000 - idx,
    {
        proof {
            lemma_starts_step(s, idx as int);
        }
        let op = loword(spv[idx]);
        if op == spv::SPV_INSTRUCTION_OP_IMAGE_FETCH || op == spv::SPV_INSTRUCTION_OP_IMAGE_READ
            || op == spv::SPV_INSTRUCTION_OP_IMAGE_WRITE {
            out.push(idx);
        }
        let w = hiword(spv[idx]);
        proof {
            done.lemma_filter_push(idx, pred);
            done = done.push(idx);
            assert(done + starts_from(s, idx + w) =~= starts(s));
        }
        idx = idx + w as usize;
    }
    proof {
        assert(starts_from(s, idx as int) =~= Seq::<usize>::empty());
        assert(done =~= starts(s));
    }
    out
}

/// Every image access is an instruction of the stream with its image and coordinate operands.
proof fn lemma_accesses_reach(s: Seq<u32>)
    requires
        operands_fit(s),
    ensures
        forall|j: int| 0 <= j < image_accesses(s).len() ==> starts(s).contains(#[trigger] image_accesses(s)[j])
            && image_accesses(s)[j] + coordinate_operand(s, image_accesses(s)[j]) < s.len()
            && image_operand(s, image_accesses(s)[j]) < coordinate_operand(s, image_accesses(s)[j]),
{
    let pred = |k: usize| is_image_access(op_at(s, k as int));
    assert forall|j: int| 0 <= j < image_accesses(s).len() implies starts(s).contains(#[trigger] image_accesses(s)[j])
        && image_accesses(s)[j] + coordinate_operand(s, image_accesses(s)[j]) < s.len()
        && image_operand(s, image_accesses(s)[j]) < coordinate_operand(s, image_accesses(s)[j]) by {
        let k = image_accesses(s)[j];
        starts(s).lemma_filter_pred(pred, j);
        assert(starts(s).filter(pred).contains(k));
        starts(s).lemma_filter_contains_rev(pred, k);
        let i = choose|i: int| 0 <= i < starts(s).len() && starts(s)[i] == k;
        assert(starts(s)[i] + min_reach(op_at(s, starts(s)[i] as int)) < s.len());
    }
}

/// The listed image accesses whose image is one of `images`.
fn accesses_of(spv: &[u32], accesses: &Vec<usize>, images: &Vec<u32>, Ghost(set): Ghost<Set<u32>>) -> (r: Vec<usize>)
    requires
        accesses@ == image_accesses(spv@),
        forall|j: int| 0 <= j < accesses@.len() ==> #[trigger] accesses@[j] + coordinate_operand(spv@, accesses@[j]) < spv@.len()
            && image_operand(spv@, accesses@[j]) < coordinate_operand(spv@, accesses@[j]),
        forall|x: u32| images@.contains(x) <==> set.contains(x),
    ensures
        r@ == accesses@.filter(|k: usize| set.contains(spv@[k + image_operand(spv@, k)])),
{
    let ghost s = spv@;
    let ghost pred = |k: usize| set.contains(s[k + image_operand(s, k)]);
    let mut out: Vec<usize> = Vec::new();
    let mut j: usize = 0;
    assert(accesses@.take(0) =~= Seq::<usize>::empty());
    while j < accesses.len()
        invariant
            s == spv@,
            pred == (|k: usize| set.contains(s[k + image_operand(s, k)])),
            j <= accesses@.len(),
            forall|i: int| 0 <= i < accesses@.len() ==> #[trigger] accesses@[i] + coordinate_operand(s, accesses@[i]) < s.len()
                && image_operand(s, accesses@[i]) < coordinate_operand(s, accesses@[i]),
            forall|x: u32| images@.contains(x) <==> set.contains(x),
            out@ == accesses@.take(j as int).filter(pred),
        decreases accesses@.len() - j,
    {
        let k = accesses[j];
        assert(accesses@[j as int] + coordinate_operand(s, accesses@[j as int]) < s.len());
        assert(s.len() == spv.len());
        let off: usize = if loword(spv[k]) == spv::SPV_INSTRUCTION_OP_IMAGE_WRITE { 1 } else { 3 };
        proof {
            assert(accesses@.take(j + 1) =~= accesses@.take(j as int).push(k));
            accesses@.take(j as int).lemma_filter_push(k, pred);
        }
        if contains_u32(images, spv[k + off]) {
            out.push(k);
        }
        j = j + 1;
    }
    assert(accesses@.take(j as int) =~= accesses@);
    out
}

fn last_or_exec(l: &Vec<usize>, d: usize) -> (r: usize)
    ensures
        r == last_or(l@, d),
{
    if l.len() > 0 && l[l.len() - 1] > d {
        l[l.len() - 1]
    } else {
        d
    }
}

/// With a vector type in the stream, the new types go after an instruction of the stream.
proof fn lemma_header_position_listed(s: Seq<u32>)
    requires
        op_starts(s, spv::SPV_INSTRUCTION_OP_TYPE_VECTOR as int).len() > 0,
        operands_fit(s),
    ensures
        starts(s).contains(cube_header_position(s)),
{
    let ints = op_starts(s, spv::SPV_INSTRUCTION_OP_TYPE_INT as int);
    let bools = op_starts(s, spv::SPV_INSTRUCTION_OP_TYPE_BOOL as int);
    let vecs = op_starts(s, spv::SPV_INSTRUCTION_OP_TYPE_VECTOR as int);
    let ptrs = op_starts(s, spv::SPV_INSTRUCTION_OP_TYPE_POINTER as int);
    lemma_op_starts_reach(s, spv::SPV_INSTRUCTION_OP_TYPE_INT as int);
    lemma_op_starts_reach(s, spv::SPV_INSTRUCTION_OP_TYPE_BOOL as int);
    lemma_op_starts_reach(s, spv::SPV_INSTRUCTION_OP_TYPE_VECTOR as int);
    lemma_op_starts_reach(s, spv::SPV_INSTRUCTION_OP_TYPE_POINTER as int);
    let a = last_or(ints, 0);
    let b = last_or(bools, a);
    let c = last_or(vecs, b);
    let d = last_or(ptrs, c);
    // `c` is the last vector type or an earlier listed offset larger than it.
    assert(vecs[vecs.len() - 1] == vecs.last());
    assert(c == vecs.last() || c == b);
    assert(a == 0 || ints.contains(a));
    if a != 0 {
        let j = choose|j: int| 0 <= j < ints.len() && ints[j] == a;
        assert(starts(s).contains(ints[j]));
    }
    if b != a {
        assert(bools[bools.len() - 1] == b);
        assert(starts(s).contains(bools[bools.len() - 1]));
    }
    if c != b {
        assert(starts(s).contains(vecs[vecs.len() - 1]));
    } else {
        // `b` exceeds the last vector type, so it is no default zero.
        assert(b >= vecs.last());
        assert(vecs.last() > 0 || b == vecs.last() || b > 0);
        if b == 0 {
            assert(vecs.last() == 0);
            assert(c == vecs.last());
        }
    }
    assert(starts(s).contains(c)) by {
        if c == vecs.last() {
            assert(starts(s).contains(vecs[vecs.len() - 1]));
        } else if b != a {
            assert(starts(s).contains(bools[bools.len() - 1]));
        } else if a != 0 {
            let j = choose|j: int| 0 <= j < ints.len() && ints[j] == a;
            assert(starts(s).contains(ints[j]));
        }
    }
    if d != c {
        assert(starts(s).contains(ptrs[ptrs.len() - 1]));
    }
}

/// Appends, for each listed access, the temporary variable holding its coordinate and the
/// rewritten access, taking two ids per access.
fn access_rewrites(
    spv: &[u32],
    ops: &Vec<usize>,
    t: CubeDirectionTypeInputs,
    f: u32,
    ib: &mut u32,
    inserts: &mut Vec<InstructionInsert>,
)
    requires
        terminates_from(spv@, 0),
        fits_in_memory(spv@),
        forall|j: int| 0 <= j < ops@.len() ==> (#[trigger] function_label(spv@, ops@[j])) is Some
            && ops@[j] + wc_at(spv@, ops@[j] as int) <= spv@.len()
            && coordinate_operand(spv@, ops@[j]) < wc_at(spv@, ops@[j] as int),
        *old(ib) + 2 * ops@.len() <= u32::MAX,
    ensures
        *final(ib) == *old(ib) + 2 * ops@.len(),
        insert_views(final(inserts)@) == insert_views(old(inserts)@)
            + access_inserts(spv@, ops@, t, f, *old(ib) as int, ops@.len() as int),
{
    let ghost s = spv@;
    let ghost b = *ib as int;
    let ghost base = insert_views(inserts@);
    let mut k: usize = 0;
    assert(insert_views(inserts@) =~= base + access_inserts(s, ops@, t, f, b, 0));
    while k < ops.len()
        invariant
            s == spv@,
            terminates_from(s, 0),
            fits_in_memory(s),
            forall|j: int| 0 <= j < ops@.len() ==> (#[trigger] function_label(s, ops@[j])) is Some
                && ops@[j] + wc_at(s, ops@[j] as int) <= s.len()
                && coordinate_operand(s, ops@[j]) < wc_at(s, ops@[j] as int),
            b + 2 * ops@.len() <= u32::MAX,
            k <= ops@.len(),
            *ib == b + 2 * k,
            insert_views(inserts@) == base + access_inserts(s, ops@, t, f, b, k as int),
        decreases ops@.len() - k,
    {
        let op = ops[k];
        assert(function_label(s, ops@[k as int]) is Some);
        assert(s.len() == spv.len());
        let wc = hiword(spv[op]) as usize;
        let coord: usize = if loword(spv[op]) == spv::SPV_INSTRUCTION_OP_IMAGE_WRITE { 2 } else { 4 };
        let temp_id = inc(ib);
        let label = get_function_label_index_of_instruction_index(spv, op);
        let var_words = vec![encode_word(4, spv::SPV_INSTRUCTION_OP_VARIABLE), t.ptr_v3int_id, temp_id,
            spv::SPV_STORAGE_CLASS_FUNCTION];
        let output_id = inc(ib);
        let mut words = vec![
            encode_word(3, spv::SPV_INSTRUCTION_OP_STORE), temp_id, spv[op + coord],
            encode_word(5, spv::SPV_INSTRUCTION_OP_FUNCTION_CALL), t.v3int_id, output_id, f, temp_id,
        ];
        let ghost head = words@;
        let mut q: usize = 0;
        while q < wc
            invariant
                s == spv@,
                op + wc <= s.len(),
                s.len() == spv.len(),
                q <= wc,
                words@ == head + s.subrange(op as int, op + q),
            decreases wc - q,
        {
            words.push(spv[op + q]);
            proof {
                assert(words@ =~= head + s.subrange(op as int, op + q + 1));
            }
            q = q + 1;
        }
        words.set(8 + coord, output_id);
        proof {
            assert(words@ =~= access_words(s, op, t, f, temp_id));
            assert(var_words@ =~= access_variable_words(t, temp_id));
        }
        let ghost before = inserts@;
        inserts.push(InstructionInsert { previous_spv_idx: label, instruction: var_words });
        inserts.push(InstructionInsert { previous_spv_idx: op, instruction: words });
        proof {
            assert(insert_views(inserts@) =~= insert_views(before) + seq![
                (function_label(s, op)->0, access_variable_words(t, temp_id)),
                (op, access_words(s, op, t, f, temp_id)),
            ]);
            assert(access_inserts(s, ops@, t, f, b, k + 1) == access_inserts(s, ops@, t, f, b, k as int) + seq![
                (function_label(s, op)->0, access_variable_words(t, temp_id)),
                (op, access_words(s, op, t, f, temp_id)),
            ]);
            assert(insert_views(inserts@) =~= base + access_inserts(s, ops@, t, f, b, k + 1));
        }
        k = k + 1;
    }
}

proof fn lemma_nothing_added(s: Seq<u32>, decs: Seq<usize>, affected: Seq<AffectedDecoration>, k: int)
    requires
        k <= affected.len(),
        forall|j: int| 0 <= j < affected.len() ==> (#[trigger] affected[j]).new_res_id == affected[j].original_res_id,
    ensures
        added_decorations(s, decs, affected, k).len() == 0,
    decreases k,
{
    if k > 0 {
        lemma_nothing_added(s, decs, affected, k - 1);
        assert(affected[k - 1].new_res_id == affected[k - 1].original_res_id);
    }
}

fn cube_affected_list(ids: &Vec<u32>) -> (r: Vec<AffectedDecoration>)
    ensures
        r@ == ids@.map_values(|id: u32| AffectedDecoration {
            original_res_id: id,
            new_res_id: id,
            correction_type: CorrectionType::ConvertStorageCube,
        }),
{
    let mut out: Vec<AffectedDecoration> = Vec::new();
    let mut k: usize = 0;
    while k < ids.len()
        invariant
            k <= ids@.len(),
            out@ == ids@.take(k as int).map_values(|id: u32| AffectedDecoration {
                original_res_id: id,
                new_res_id: id,
                correction_type: CorrectionType::ConvertStorageCube,
            }),
        decreases ids@.len() - k,
    {
        out.push(AffectedDecoration {
            original_res_id: ids[k],
            new_res_id: ids[k],
            correction_type: CorrectionType::ConvertStorageCube,
        });
        proof {
            assert(ids@.take(k + 1) =~= ids@.take(k as int).push(ids@[k as int]));
            assert(out@ =~= ids@.take(k + 1).map_values(|id: u32| AffectedDecoration {
                original_res_id: id,
                new_res_id: id,
                correction_type: CorrectionType::ConvertStorageCube,
            }));
        }
        k = k + 1;
    }
    assert(ids@.take(k as int) =~= ids@);
    out
}

/// Finds or declares the types of the cube direction function.
proof fn lemma_cube_bounds(s: Seq<u32>, b: int)
    ensures
        b <= cube_types(s, b).2 <= b + 8,
        forall|x: int| x <= #[trigger] cube_glsl(s, x).2 <= x + 1,
{
    let bt = bool_type(s, b);
    let bp = with_fn_ptr(s, bt);
    crate::util::ensure::lemma_ensured_bound(s, op_starts(s, spv::SPV_INSTRUCTION_OP_TYPE_POINTER as int),
        spv::SPV_STORAGE_CLASS_FUNCTION, bt.0, bt.2);
    let it = int32_type(s, bp.3);
    crate::util::ensure::lemma_ensured_bound(s, op_starts(s, spv::SPV_INSTRUCTION_OP_TYPE_INT as int), 32,
        spv::SPV_SIGNEDNESS_SIGNED, bp.3);
    let ip = with_fn_ptr(s, it);
    crate::util::ensure::lemma_ensured_bound(s, op_starts(s, spv::SPV_INSTRUCTION_OP_TYPE_POINTER as int),
        spv::SPV_STORAGE_CLASS_FUNCTION, it.0, it.2);
    let v3t = vector_type(s, ip.0, 3, ip.3);
    crate::util::ensure::lemma_ensured_bound(s, op_starts(s, spv::SPV_INSTRUCTION_OP_TYPE_VECTOR as int), ip.0, 3, ip.3);
    let v3p = with_fn_ptr(s, v3t);
    crate::util::ensure::lemma_ensured_bound(s, op_starts(s, spv::SPV_INSTRUCTION_OP_TYPE_POINTER as int),
        spv::SPV_STORAGE_CLASS_FUNCTION, v3t.0, v3t.2);
    let v2t = vector_type(s, ip.0, 2, v3p.3);
    crate::util::ensure::lemma_ensured_bound(s, op_starts(s, spv::SPV_INSTRUCTION_OP_TYPE_VECTOR as int), ip.0, 2, v3p.3);
    crate::util::ensure::lemma_ensured_bound(s, op_starts(s, spv::SPV_INSTRUCTION_OP_TYPE_POINTER as int),
        spv::SPV_STORAGE_CLASS_FUNCTION, v2t.0, v2t.2);
}

/// The patched accesses are whole instructions of the stream.
proof fn lemma_cube_accesses_inside(s: Seq<u32>)
    requires
        wf_stream(s),
    ensures
        forall|j: int| 0 <= j < cube_accesses(s).len() ==> starts(s).contains(#[trigger] cube_accesses(s)[j])
            && cube_accesses(s)[j] < s.len()
            && cube_accesses(s)[j] + wc_at(s, cube_accesses(s)[j] as int) <= s.len(),
{
    let pred = |k: usize| cube_loaded_ids(s).contains(s[k + image_operand(s, k)]);
    lemma_accesses_reach(s);
    lemma_tiles_inside(s, 0);
    crate::util::instruction::lemma_starts_from_bounds(s, 0);
    assert forall|j: int| 0 <= j < cube_accesses(s).len() implies starts(s).contains(#[trigger] cube_accesses(s)[j])
        && cube_accesses(s)[j] < s.len()
        && cube_accesses(s)[j] + wc_at(s, cube_accesses(s)[j] as int) <= s.len() by {
        let k = cube_accesses(s)[j];
        assert(image_accesses(s).filter(pred).contains(k));
        image_accesses(s).lemma_filter_contains_rev(pred, k);
        let i = choose|i: int| 0 <= i < image_accesses(s).len() && image_accesses(s)[i] == k;
        assert(starts(s).contains(image_accesses(s)[i]));
        let q = choose|q: int| 0 <= q < starts(s).len() && starts(s)[q] == k;
        assert(starts_from(s, 0)[q] + wc_at(s, starts_from(s, 0)[q] as int) <= s.len());
    }
}

/// Every insert of the access rewrites follows an instruction of the stream.
proof fn lemma_access_inserts_anchored(s: Seq<u32>, ops: Seq<usize>, t: CubeDirectionTypeInputs, f: u32, b: int, n: int)
    requires
        0 <= n <= ops.len(),
        forall|j: int| 0 <= j < ops.len() ==> starts(s).contains(#[trigger] ops[j])
            && starts(s).contains(function_label(s, ops[j])->0),
    ensures
        access_inserts(s, ops, t, f, b, n).len() == 2 * n,
        forall|i: int| 0 <= i < access_inserts(s, ops, t, f, b, n).len()
            ==> starts(s).contains((#[trigger] access_inserts(s, ops, t, f, b, n)[i]).0),
    decreases n,
{
    if n > 0 {
        lemma_access_inserts_anchored(s, ops, t, f, b, n - 1);
        let prev = access_inserts(s, ops, t, f, b, n - 1);
        let k = ops[n - 1];
        let temp = (b + 2 * (n - 1)) as u32;
        let last = seq![(function_label(s, k)->0, access_variable_words(t, temp)), (k, access_words(s, k, t, f, temp))];
        assert(access_inserts(s, ops, t, f, b, n) == prev + last);
        assert forall|i: int| 0 <= i < access_inserts(s, ops, t, f, b, n).len()
            implies starts(s).contains((#[trigger] access_inserts(s, ops, t, f, b, n)[i]).0) by {
            if i < prev.len() {
                assert(access_inserts(s, ops, t, f, b, n)[i] == prev[i]);
            } else if i == prev.len() {
                assert(access_inserts(s, ops, t, f, b, n)[i] == last[0]);
            } else {
                assert(access_inserts(s, ops, t, f, b, n)[i] == last[1]);
            }
        }
    }
}

/// Finds or declares a `Function` pointer type to `ty`.
fn ensure_fn_ptr(
    spv: &[u32],
    op_type_pointer_idxs: &Vec<usize>,
    instruction_bound: &mut u32,
    header_words: &mut Vec<u32>,
    ty: u32,
    Ghost(prev): Ghost<(u32, Seq<u32>, int)>,
) -> (r: u32)
    requires
        op_type_pointer_idxs@ == op_starts(spv@, spv::SPV_INSTRUCTION_OP_TYPE_POINTER as int),
        idxs_reach(spv@, op_type_pointer_idxs@, 3),
        prev.0 == ty,
        prev.2 == *old(instruction_bound),
        prev.2 < u32::MAX,
    ensures
        prev.2 <= with_fn_ptr(spv@, prev).3,
        r == with_fn_ptr(spv@, prev).1,
        final(header_words)@ == old(header_words)@ + fn_ptr_decl(spv@, ty, prev.2),
        *final(instruction_bound) == with_fn_ptr(spv@, prev).3,
        with_fn_ptr(spv@, prev).3 <= prev.2 + 1,
{
    proof {
        crate::util::ensure::lemma_ensured_bound(spv@, op_type_pointer_idxs@, spv::SPV_STORAGE_CLASS_FUNCTION, ty, prev.2);
    }
    ensure_type_pointer(spv, op_type_pointer_idxs, instruction_bound, header_words, spv::SPV_STORAGE_CLASS_FUNCTION, ty)
}

/// Finds or declares the types of the cube direction function.
fn ensure_cube_types(
    spv: &[u32],
    op_type_bool_idxs: &Vec<usize>,
    op_type_pointer_idxs: &Vec<usize>,
    op_type_int_idxs: &Vec<usize>,
    op_type_vector_idxs: &Vec<usize>,
    instruction_bound: &mut u32,
    header_words: &mut Vec<u32>,
) -> (r: CubeDirectionTypeInputs)
    requires
        op_type_bool_idxs@ == op_starts(spv@, spv::SPV_INSTRUCTION_OP_TYPE_BOOL as int),
        op_type_pointer_idxs@ == op_starts(spv@, spv::SPV_INSTRUCTION_OP_TYPE_POINTER as int),
        op_type_int_idxs@ == op_starts(spv@, spv::SPV_INSTRUCTION_OP_TYPE_INT as int),
        op_type_vector_idxs@ == op_starts(spv@, spv::SPV_INSTRUCTION_OP_TYPE_VECTOR as int),
        idxs_reach(spv@, op_type_bool_idxs@, 1),
        idxs_reach(spv@, op_type_pointer_idxs@, 3),
        idxs_reach(spv@, op_type_int_idxs@, 3),
        idxs_reach(spv@, op_type_vector_idxs@, 3),
        *old(instruction_bound) + 8 < u32::MAX,
    ensures
        r == cube_types(spv@, *old(instruction_bound) as int).0,
        final(header_words)@ == old(header_words)@ + cube_types(spv@, *old(instruction_bound) as int).1,
        *final(instruction_bound) == cube_types(spv@, *old(instruction_bound) as int).2,
        cube_types(spv@, *old(instruction_bound) as int).2 <= *old(instruction_bound) + 8,
{
    let ghost s = spv@;
    let ghost h0 = header_words@;
    let ghost b = *instruction_bound as int;
    let ghost bt = bool_type(s, b);
    let bool_id = ensure_type_bool(spv, op_type_bool_idxs, instruction_bound, header_words);
    let bool_ptr_id = ensure_fn_ptr(spv, op_type_pointer_idxs, instruction_bound, header_words, bool_id, Ghost(bt));
    let ghost bp = with_fn_ptr(s, bt);
    assert(header_words@ =~= h0 + bp.2);
    let ghost it = int32_type(s, bp.3);
    let int32_id = ensure_type_int(spv, op_type_int_idxs, instruction_bound, header_words, 32, spv::SPV_SIGNEDNESS_SIGNED);
    proof {
        crate::util::ensure::lemma_ensured_bound(s, op_type_int_idxs@, 32, spv::SPV_SIGNEDNESS_SIGNED, bp.3);
    }
    let int32_ptr_id = ensure_fn_ptr(spv, op_type_pointer_idxs, instruction_bound, header_words, int32_id, Ghost(it));
    let ghost ip = with_fn_ptr(s, it);
    assert(header_words@ =~= h0 + bp.2 + ip.2);
    let ghost v3t = vector_type(s, int32_id, 3, ip.3);
    proof {
        crate::util::ensure::lemma_ensured_bound(s, op_type_vector_idxs@, int32_id, 3, ip.3);
    }
    let v3int32_id = ensure_type_vector(spv, op_type_vector_idxs, instruction_bound, header_words, int32_id, 3);
    let v3int32_ptr_id = ensure_fn_ptr(spv, op_type_pointer_idxs, instruction_bound, header_words, v3int32_id, Ghost(v3t));
    let ghost v3p = with_fn_ptr(s, v3t);
    assert(header_words@ =~= h0 + bp.2 + ip.2 + v3p.2);
    let ghost v2t = vector_type(s, int32_id, 2, v3p.3);
    proof {
        crate::util::ensure::lemma_ensured_bound(s, op_type_vector_idxs@, int32_id, 2, v3p.3);
    }
    let v2int32_id = ensure_type_vector(spv, op_type_vector_idxs, instruction_bound, header_words, int32_id, 2);
    let v2int32_ptr_id = ensure_fn_ptr(spv, op_type_pointer_idxs, instruction_bound, header_words, v2int32_id, Ghost(v2t));
    let ghost v2p = with_fn_ptr(s, v2t);
    assert(header_words@ =~= h0 + (bp.2 + ip.2 + v3p.2 + v2p.2));
    CubeDirectionTypeInputs {
        int_id: int32_id,
        v3int_id: v3int32_id,
        v2int_id: v2int32_id,
        bool_id,
        ptr_v3int_id: v3int32_ptr_id,
        ptr_int_id: int32_ptr_id,
        ptr_bool_id: bool_ptr_id,
        ptr_v2int_id: v2int32_ptr_id,
    }
}

/// Finds or declares the `GLSL.std.450` instruction set import.
fn ensure_glsl_std(
    spv: &[u32],
    op_ext_inst_import_idxs: &Vec<usize>,
    instruction_bound: &mut u32,
    header_words: &mut Vec<u32>,
) -> (r: u32)
    requires
        fits_in_memory(spv@),
        op_ext_inst_import_idxs@ == op_starts(spv@, spv::SPV_INSTRUCTION_OP_EXT_INST_IMPORT as int),
        imports_readable(spv@, op_ext_inst_import_idxs@),
        cube_glsl(spv@, *old(instruction_bound) as int).2 <= u32::MAX,
    ensures
        r == cube_glsl(spv@, *old(instruction_bound) as int).0,
        final(header_words)@ == old(header_words)@ + cube_glsl(spv@, *old(instruction_bound) as int).1,
        *final(instruction_bound) == cube_glsl(spv@, *old(instruction_bound) as int).2,
{
    let ghost s = spv@;
    let ghost h0 = header_words@;
    let ghost cg = cube_glsl(s, *instruction_bound as int);
    let template = "GLSL.std.450";
    proof {
        reveal_strlit("GLSL.std.450");
        assert(vstd::string::is_ascii(template));
        vstd::string::is_ascii_spec_bytes(template);
        assert(template.spec_bytes() =~= glsl_std_450());
    }
    let glsl_std_id = ensure_ext_inst_import(spv, &op_ext_inst_import_idxs, instruction_bound, header_words,
        is_glsl_std, template, Ghost(|n: Seq<u8>| glsl_std_named(n)));
    proof {
        let accepts = |n: Seq<u8>| glsl_std_named(n);
        if some_accepted(s, op_ext_inst_import_idxs@, accepts) {
            let j = choose|j: int| is_first_accepted(s, op_ext_inst_import_idxs@, accepts, j)
                && glsl_std_id == s[op_ext_inst_import_idxs@[j] + 1];
            lemma_first_glsl_unique(s, op_ext_inst_import_idxs@, j);
            assert(header_words@ =~= h0 + cg.1);
        }
    }
    glsl_std_id
}


proof fn lemma_first_glsl_unique(s: Seq<u32>, imports: Seq<usize>, j: int)
    requires
        first_glsl_import(s, imports, j),
    ensures
        (choose|i: int| #[trigger] first_glsl_import(s, imports, i)) == j,
{
    let c = choose|i: int| #[trigger] first_glsl_import(s, imports, i);
    assert(first_glsl_import(s, imports, c));
    if c < j {
        assert(!glsl_std_named(crate::util::ensure::import_name_bytes(s, imports[c])));
    } else if c > j {
        assert(!glsl_std_named(crate::util::ensure::import_name_bytes(s, imports[j])));
    }
}

/// Makes every image type two-dimensional and arrayed; returns the accesses of cube images
/// and the ids of the variables and parameters they are loaded from.
fn find_cube_accesses(
    new_spv: &mut Vec<u32>,
    spv: &[u32],
    op_type_image_idxs: &Vec<usize>,
    op_type_pointer_idxs: &Vec<usize>,
    op_variable_idxs: &Vec<usize>,
    op_function_parameter_idxs: &Vec<usize>,
    op_load_idxs: &Vec<usize>,
    image_access_idxs: &Vec<usize>,
) -> (r: (Vec<usize>, Vec<u32>))
    requires
        old(new_spv)@ == spv@,
        operands_fit(spv@),
        op_type_image_idxs@ == op_starts(spv@, spv::SPV_INSTRUCTION_OP_TYPE_IMAGE as int),
        op_type_pointer_idxs@ == op_starts(spv@, spv::SPV_INSTRUCTION_OP_TYPE_POINTER as int),
        op_variable_idxs@ == op_starts(spv@, spv::SPV_INSTRUCTION_OP_VARIABLE as int),
        op_function_parameter_idxs@ == op_starts(spv@, spv::SPV_INSTRUCTION_OP_FUNCTION_PARAMETER as int),
        op_load_idxs@ == op_starts(spv@, spv::SPV_INSTRUCTION_OP_LOAD as int),
        image_access_idxs@ == image_accesses(spv@),
        forall|j: int| 0 <= j < op_type_image_idxs@.len() ==> !(spv@[#[trigger] op_type_image_idxs@[j] + 3] == spv::SPV_DIMENSION_CUBE
            && spv@[op_type_image_idxs@[j] + 5] == 1),
    ensures
        final(new_spv)@ == flattened(spv@, op_type_image_idxs@, op_type_image_idxs@.len() as int),
        r.0@ == cube_accesses(spv@),
        r.1@ == cube_loadable_ids(spv@),
{
    let ghost s = spv@;
    proof {
        lemma_op_starts_reach(s, spv::SPV_INSTRUCTION_OP_TYPE_IMAGE as int);
        lemma_op_starts_reach(s, spv::SPV_INSTRUCTION_OP_TYPE_POINTER as int);
        lemma_op_starts_reach(s, spv::SPV_INSTRUCTION_OP_VARIABLE as int);
        lemma_op_starts_reach(s, spv::SPV_INSTRUCTION_OP_FUNCTION_PARAMETER as int);
        lemma_op_starts_reach(s, spv::SPV_INSTRUCTION_OP_LOAD as int);
        lemma_accesses_reach(s);
    }
    let cube_image_id_list = flatten_image_types(new_spv, spv, op_type_image_idxs);

    let cube_pointer_id_list = pointers_to(spv, op_type_pointer_idxs, &cube_image_id_list, Ghost(cube_image_ids(s)));
    let mut variables_and_parameters = op_variable_idxs.clone();
    let mut parameters = op_function_parameter_idxs.clone();
    variables_and_parameters.append(&mut parameters);
    proof {
        assert forall|j: int| 0 <= j < variables_and_parameters@.len() implies #[trigger] variables_and_parameters@[j] + 2 < s.len() by {
            if j < op_variable_idxs@.len() {
                assert(variables_and_parameters@[j] == op_variable_idxs@[j]);
            } else {
                assert(variables_and_parameters@[j] == op_function_parameter_idxs@[j - op_variable_idxs@.len()]);
            }
        }
    }
    let loadables = typed_with(spv, &variables_and_parameters, &cube_pointer_id_list, Ghost(cube_pointer_ids(s)));
    assert(loadables@ == cube_loadables(s));
    proof {
        let pred = |v: usize| cube_pointer_ids(s).contains(s[v + 1]);
        assert forall|j: int| 0 <= j < loadables@.len() implies #[trigger] loadables@[j] + 2 < s.len() by {
            let v = loadables@[j];
            assert(variables_and_parameters@.filter(pred).contains(v));
            variables_and_parameters@.lemma_filter_contains_rev(pred, v);
        }
    }
    let loadable_ids = collect_words(spv, &loadables, 2);
    assert(loadable_ids@ =~= cube_loadable_ids(s));
    let loaded_ids = loaded_from(spv, op_load_idxs, &loadable_ids);
    let cube_ops = accesses_of(spv, image_access_idxs, &loaded_ids, Ghost(cube_loaded_ids(s)));
    assert(cube_ops@ == cube_accesses(s));

    (cube_ops, loadable_ids)
}

/// Finds or declares the types and the instruction set import, and defines the constants,
/// the type and the body of the cube direction function.
fn cube_definitions(
    spv: &Vec<u32>,
    op_type_bool_idxs: &Vec<usize>,
    op_type_pointer_idxs: &Vec<usize>,
    op_type_int_idxs: &Vec<usize>,
    op_type_vector_idxs: &Vec<usize>,
    op_ext_inst_import_idxs: &Vec<usize>,
    instruction_bound: &mut u32,
) -> (r: (CubeDirectionTypeInputs, Vec<u32>, u32, Vec<u32>))
    requires
        wf_stream(spv@),
        op_type_bool_idxs@ == op_starts(spv@, spv::SPV_INSTRUCTION_OP_TYPE_BOOL as int),
        op_type_pointer_idxs@ == op_starts(spv@, spv::SPV_INSTRUCTION_OP_TYPE_POINTER as int),
        op_type_int_idxs@ == op_starts(spv@, spv::SPV_INSTRUCTION_OP_TYPE_INT as int),
        op_type_vector_idxs@ == op_starts(spv@, spv::SPV_INSTRUCTION_OP_TYPE_VECTOR as int),
        op_ext_inst_import_idxs@ == op_starts(spv@, spv::SPV_INSTRUCTION_OP_EXT_INST_IMPORT as int),
        imports_readable(spv@, op_ext_inst_import_idxs@),
        cube_definitions_base(spv@, *old(instruction_bound) as int) + 144 <= u32::MAX,
    ensures
        r.0 == cube_types(spv@, *old(instruction_bound) as int).0,
        r.1@ == cube_header_words(spv@, *old(instruction_bound) as int),
        r.2 == cube_definitions_base(spv@, *old(instruction_bound) as int) + 7,
        r.3@ == cube_function_words(spv@, *old(instruction_bound) as int),
        *final(instruction_bound) == cube_definitions_base(spv@, *old(instruction_bound) as int) + 144,
{
    let ghost s = spv@;
    let ghost b0 = *instruction_bound as int;
    proof {
        lemma_op_starts_reach(s, spv::SPV_INSTRUCTION_OP_TYPE_POINTER as int);
        lemma_op_starts_reach(s, spv::SPV_INSTRUCTION_OP_TYPE_INT as int);
        lemma_op_starts_reach(s, spv::SPV_INSTRUCTION_OP_TYPE_BOOL as int);
        lemma_op_starts_reach(s, spv::SPV_INSTRUCTION_OP_TYPE_VECTOR as int);
        lemma_cube_bounds(s, b0);
        reveal(cube_header_words);
        reveal(cube_function_words);
    }
    let ghost ct = cube_types(s, b0);
    let ghost cg = cube_glsl(s, ct.2);
    let mut header_words: Vec<u32> = Vec::new();
    let type_inputs = ensure_cube_types(spv, op_type_bool_idxs, op_type_pointer_idxs, op_type_int_idxs,
        op_type_vector_idxs, instruction_bound, &mut header_words);
    let glsl_std_id = ensure_glsl_std(spv, op_ext_inst_import_idxs, instruction_bound, &mut header_words);
    let int32_id = type_inputs.int_id;

    let (function_type, mut function_type_words) = image_cube_direction_to_arrayed_fn_type(instruction_bound, type_inputs);
    header_words.append(&mut function_type_words);

    // 3. Insert the required constants
    let (constants, mut constants_words) = image_cube_direction_to_arrayed_constants_spv(instruction_bound, int32_id);
    header_words.append(&mut constants_words);

    // 4. Define the cube direction function
    let (function_id, mut function_definition_words) = image_cube_direction_to_arrayed_spv(instruction_bound,
        type_inputs, function_type, constants, glsl_std_id);

    (type_inputs, header_words, function_id, function_definition_words)
}

/// The body with the new types, the access rewrites and the cube direction function, and the
/// new instruction bound; records the corrections.
#[verifier::rlimit(60)]
fn cube_patched_body(
    spv: &Vec<u32>,
    new_spv: Vec<u32>,
    instruction_bound: u32,
    corrections: &mut Option<CorrectionMap>,
    op_type_image_idxs: &Vec<usize>,
    op_type_pointer_idxs: &Vec<usize>,
    op_variable_idxs: &Vec<usize>,
    op_load_idxs: &Vec<usize>,
    op_type_int_idxs: &Vec<usize>,
    op_type_bool_idxs: &Vec<usize>,
    op_type_vector_idxs: &Vec<usize>,
    op_ext_inst_import_idxs: &Vec<usize>,
    op_function_parameter_idxs: &Vec<usize>,
    op_decorate_idxs: &Vec<usize>,
    image_access_idxs: &Vec<usize>,
) -> (r: (Vec<u32>, u32))
    requires
        new_spv@ == spv@,
        wf_stream(spv@),
        !cube_untouched(spv@),
        cube_ready(spv@, instruction_bound as int),
        op_type_image_idxs@ == op_starts(spv@, spv::SPV_INSTRUCTION_OP_TYPE_IMAGE as int),
        op_type_pointer_idxs@ == op_starts(spv@, spv::SPV_INSTRUCTION_OP_TYPE_POINTER as int),
        op_variable_idxs@ == op_starts(spv@, spv::SPV_INSTRUCTION_OP_VARIABLE as int),
        op_load_idxs@ == op_starts(spv@, spv::SPV_INSTRUCTION_OP_LOAD as int),
        op_type_int_idxs@ == op_starts(spv@, spv::SPV_INSTRUCTION_OP_TYPE_INT as int),
        op_type_bool_idxs@ == op_starts(spv@, spv::SPV_INSTRUCTION_OP_TYPE_BOOL as int),
        op_type_vector_idxs@ == op_starts(spv@, spv::SPV_INSTRUCTION_OP_TYPE_VECTOR as int),
        op_ext_inst_import_idxs@ == op_starts(spv@, spv::SPV_INSTRUCTION_OP_EXT_INST_IMPORT as int),
        op_function_parameter_idxs@ == op_starts(spv@, spv::SPV_INSTRUCTION_OP_FUNCTION_PARAMETER as int),
        op_decorate_idxs@ == op_starts(spv@, spv::SPV_INSTRUCTION_OP_DECORATE as int),
        image_access_idxs@ == image_accesses(spv@),
    ensures
        cube_result(spv@, instruction_bound as int).0 == Some(r.0@),
        r.1 == cube_result(spv@, instruction_bound as int).1,
        ({
            let s = spv@;
            let decs = op_starts(s, spv::SPV_INSTRUCTION_OP_DECORATE as int);
            let n = cube_affected(s).len() as int;
            &&& *old(corrections) is None ==> *final(corrections) is None
            &&& *old(corrections) matches Some(m0) ==> *final(corrections) matches Some(m1) && {
                &&& sets_view(m1.sets) == affected_corrections(s, decs, cube_affected(s), sets_view(m0.sets), n)
                &&& (m1.sets is Some) == (m0.sets is Some || affected_sets(s, decs, cube_affected(s), n) != Set::<u32>::empty())
                &&& m1.immediates_set == m0.immediates_set
                &&& m1.immediates_set_mode == m0.immediates_set_mode
            }
        }),
{
    let ghost s = spv@;
    let ghost b0 = instruction_bound as int;
    let mut new_spv = new_spv;
    let mut instruction_bound = instruction_bound;
    proof {
        lemma_tiles_terminates(s, 0);
        lemma_op_starts_reach(s, spv::SPV_INSTRUCTION_OP_TYPE_IMAGE as int);
        lemma_op_starts_reach(s, spv::SPV_INSTRUCTION_OP_TYPE_POINTER as int);
        lemma_op_starts_reach(s, spv::SPV_INSTRUCTION_OP_TYPE_INT as int);
        lemma_op_starts_reach(s, spv::SPV_INSTRUCTION_OP_TYPE_BOOL as int);
        lemma_op_starts_reach(s, spv::SPV_INSTRUCTION_OP_TYPE_VECTOR as int);
        lemma_op_starts_reach(s, spv::SPV_INSTRUCTION_OP_DECORATE as int);
        lemma_accesses_reach(s);
        lemma_cube_bounds(s, b0);
    }
    let header_position = last_or_exec(op_type_pointer_idxs,
        last_or_exec(op_type_vector_idxs, last_or_exec(op_type_bool_idxs, last_or_exec(op_type_int_idxs, 0))));

    // 2. Insert the required types
    let (type_inputs, header_words, function_id, mut function_definition_words) = cube_definitions(spv,
        op_type_bool_idxs, op_type_pointer_idxs, op_type_int_idxs, op_type_vector_idxs, op_ext_inst_import_idxs,
        &mut instruction_bound);

    // 5. Make image types two-dimensional and arrayed, and find the accesses of cube images
    let (cube_ops, loadable_ids) = find_cube_accesses(&mut new_spv, spv, op_type_image_idxs, op_type_pointer_idxs,
        op_variable_idxs, op_function_parameter_idxs, op_load_idxs, image_access_idxs);

    // 7. Rewrite the accesses of cube images
    proof {
        lemma_cube_accesses_inside(s);
        lemma_flattened_len(s, op_type_image_idxs@, op_type_image_idxs@.len() as int);
    }
    let mut instruction_inserts: Vec<InstructionInsert> = Vec::new();
    instruction_inserts.push(InstructionInsert { previous_spv_idx: header_position, instruction: header_words });
    let ghost b0_rewrites = instruction_bound as int;
    let ghost header_views = insert_views(instruction_inserts@);
    assert(header_views =~= seq![(cube_header_position(s), cube_header_words(s, b0))]);
    access_rewrites(spv, &cube_ops, type_inputs, function_id, &mut instruction_bound, &mut instruction_inserts);
    fill_nops(&mut new_spv, spv, &cube_ops);

    // 8. Record the corrections
    let affected = cube_affected_list(&loadable_ids);
    let mut unused_inserts: Vec<InstructionInsert> = Vec::new();
    let first_op_decorate_idx = if op_decorate_idxs.len() > 0 { Some(op_decorate_idxs[0]) } else { None };
    proof {
        lemma_nothing_added(s, op_decorate_idxs@, affected@, affected@.len() as int);
    }
    decorate(DecorateIn {
        spv: spv,
        instruction_inserts: &mut unused_inserts,
        first_op_deocrate_idx: first_op_decorate_idx,
        op_decorate_idxs: op_decorate_idxs,
        affected_decorations: &affected,
        corrections,
    });

    // 9. Insert the new instructions
    let word_inserts: Vec<WordInsert> = Vec::new();
    proof {
        let ops = cube_ops@;
        let labels = op_starts(s, spv::SPV_INSTRUCTION_OP_LABEL as int);
        lemma_op_starts_reach(s, spv::SPV_INSTRUCTION_OP_LABEL as int);
        assert forall|j: int| 0 <= j < ops.len() implies starts(s).contains(#[trigger] ops[j])
            && starts(s).contains(function_label(s, ops[j])->0) by {
            assert(function_label(s, cube_accesses(s)[j]) is Some);
            let f = crate::util::function::enclosing_function(s, ops[j])->0;
            crate::util::function::lemma_first_after_listed(labels, f);
            let i = choose|i: int| 0 <= i < labels.len() && labels[i] == function_label(s, ops[j])->0;
            assert(starts(s).contains(labels[i]));
        }
        lemma_access_inserts_anchored(s, ops, type_inputs, function_id, b0_rewrites, ops.len() as int);
        lemma_header_position_listed(s);
        lemma_tiles_inside(s, 0);
        crate::util::instruction::lemma_starts_from_bounds(s, 0);
        let views = insert_views(instruction_inserts@);
        assert forall|j: int| 0 <= j < views.len() implies (#[trigger] views[j]).0 < s.len()
            && views[j].0 + crate::util::spec_hiword(s[views[j].0 as int]) <= new_spv@.len() by {
            let a = views[j].0;
            if j == 0 {
                assert(starts(s).contains(a));
            } else {
                assert(views[j] == access_inserts(s, ops, type_inputs, function_id, b0_rewrites, ops.len() as int)[j - 1]);
                assert(starts(s).contains(a));
            }
            let q = choose|q: int| 0 <= q < starts(s).len() && starts(s)[q] == a;
            assert(starts_from(s, 0)[q] + wc_at(s, starts_from(s, 0)[q] as int) <= s.len());
        }
        lemma_inserted_some(s, new_spv@, views);
    }
    insert_new_instructions(spv, &mut new_spv, &word_inserts, &instruction_inserts);
    new_spv.append(&mut function_definition_words);
    (new_spv, instruction_bound)
}

/// Whether every `OpExtInstImport` is whole and names its instruction set in valid UTF-8.
fn imports_are_readable(spv: &[u32], imports: &Vec<usize>) -> (r: bool)
    requires
        fits_in_memory(spv@),
        idxs_reach(spv@, imports@, 1),
    ensures
        r == imports_readable(spv@, imports@),
{
    let ghost s = spv@;
    let mut j: usize = 0;
    while j < imports.len()
        invariant
            s == spv@,
            fits_in_memory(s),
            idxs_reach(s, imports@, 1),
            j <= imports@.len(),
            forall|q: int| 0 <= q < j ==> {
                &&& 2 <= crate::util::spec_hiword(s[#[trigger] imports@[q] as int])
                &&& imports@[q] + crate::util::spec_hiword(s[imports@[q] as int]) <= s.len()
                &&& vstd::utf8::valid_utf8(crate::util::words_to_bytes(crate::util::ensure::import_name_words(s, imports@[q])))
            },
        decreases imports@.len() - j,
    {
        let idx = imports[j];
        assert(imports@[j as int] + 1 < s.len());
        let wc = hiword(spv[idx]) as usize;
        if wc < 2 || wc > spv.len() - idx {
            return false;
        }
        let name = slice_subrange(spv, idx + 2, idx + wc);
        assert(name@ == crate::util::ensure::import_name_words(s, idx));
        if crate::util::literal_to_string_le(name).is_err() {
            return false;
        }
        j = j + 1;
    }
    true
}

/// Whether a module body (the words after the header) with the instruction bound `bound` can
/// be patched: it is left alone, or it is ready (see `cube_ready`).
pub fn is_cube_ready(spv: &[u32], bound: u32) -> (r: bool)
    requires
        wf_stream(spv@),
    ensures
        r == (!cube_untouched(spv@) ==> cube_ready(spv@, bound as int)),
{
    let ghost s = spv@;
    proof {
        lemma_tiles_terminates(s, 0);
        lemma_op_starts_reach(s, spv::SPV_INSTRUCTION_OP_TYPE_IMAGE as int);
        lemma_op_starts_reach(s, spv::SPV_INSTRUCTION_OP_TYPE_POINTER as int);
        lemma_op_starts_reach(s, spv::SPV_INSTRUCTION_OP_TYPE_INT as int);
        lemma_op_starts_reach(s, spv::SPV_INSTRUCTION_OP_TYPE_BOOL as int);
        lemma_op_starts_reach(s, spv::SPV_INSTRUCTION_OP_TYPE_VECTOR as int);
        lemma_op_starts_reach(s, spv::SPV_INSTRUCTION_OP_EXT_INST_IMPORT as int);
        lemma_cube_bounds(s, bound as int);
        lemma_cube_accesses_inside(s);
    }
    let images = instruction_idxs(spv, spv::SPV_INSTRUCTION_OP_TYPE_IMAGE);
    let vectors = instruction_idxs(spv, spv::SPV_INSTRUCTION_OP_TYPE_VECTOR);
    let accesses = image_access_idxs(spv);
    if vectors.len() == 0 || images.len() == 0 || accesses.len() == 0 {
        return true;
    }
    let mut j: usize = 0;
    while j < images.len()
        invariant
            s == spv@,
            images@ == op_starts(s, spv::SPV_INSTRUCTION_OP_TYPE_IMAGE as int),
            idxs_reach(s, images@, 7),
            !cube_untouched(s),
            j <= images@.len(),
            forall|q: int| 0 <= q < j ==> !(s[#[trigger] images@[q] + 3] == spv::SPV_DIMENSION_CUBE
                && s[images@[q] + 5] == 1),
        decreases images@.len() - j,
    {
        assert(images@[j as int] + 7 < s.len());
        assert(s.len() == spv.len());
        if spv[images[j] + 3] == spv::SPV_DIMENSION_CUBE && spv[images[j] + 5] == 1 {
            return false;
        }
        j = j + 1;
    }
    let imports = instruction_idxs(spv, spv::SPV_INSTRUCTION_OP_EXT_INST_IMPORT);
    if !imports_are_readable(spv, &imports) {
        return false;
    }
    let pointers = instruction_idxs(spv, spv::SPV_INSTRUCTION_OP_TYPE_POINTER);
    let variables = instruction_idxs(spv, spv::SPV_INSTRUCTION_OP_VARIABLE);
    let parameters = instruction_idxs(spv, spv::SPV_INSTRUCTION_OP_FUNCTION_PARAMETER);
    let loads = instruction_idxs(spv, spv::SPV_INSTRUCTION_OP_LOAD);
    let mut scratch = vstd::slice::slice_to_vec(spv);
    let (ops, _) = find_cube_accesses(&mut scratch, spv, &images, &pointers, &variables, &parameters, &loads, &accesses);
    let mut k: usize = 0;
    while k < ops.len()
        invariant
            s == spv@,
            terminates_from(s, 0),
            fits_in_memory(s),
            ops@ == cube_accesses(s),
            !cube_untouched(s),
            forall|j: int| 0 <= j < cube_accesses(s).len() ==> cube_accesses(s)[j] < s.len(),
            k <= ops@.len(),
            forall|q: int| 0 <= q < k ==> (#[trigger] function_label(s, ops@[q])) is Some
                && coordinate_operand(s, ops@[q]) < wc_at(s, ops@[q] as int),
        decreases ops@.len() - k,
    {
        let op = ops[k];
        if crate::util::function::find_function_label(spv, op).is_none() {
            return false;
        }
        assert(cube_accesses(s)[k as int] < s.len());
        let coordinate: u16 = if loword(spv[op]) == spv::SPV_INSTRUCTION_OP_IMAGE_WRITE { 2 } else { 4 };
        if coordinate >= hiword(spv[op]) {
            return false;
        }
        k = k + 1;
    }
    if bound as u64 + 8 >= u32::MAX as u64 {
        return false;
    }
    let bools = instruction_idxs(spv, spv::SPV_INSTRUCTION_OP_TYPE_BOOL);
    let ints = instruction_idxs(spv, spv::SPV_INSTRUCTION_OP_TYPE_INT);
    let mut ib = bound;
    let mut header: Vec<u32> = Vec::new();
    let _ = ensure_cube_types(spv, &bools, &pointers, &ints, &vectors, &mut ib, &mut header);
    if ib == u32::MAX {
        return false;
    }
    let _ = ensure_glsl_std(spv, &imports, &mut ib, &mut header);
    let n = ops.len() as u64;
    if n > 0x8000_0000 {
        return false;
    }
    (ib as u64) + 144 + 2 * n <= u32::MAX as u64
}

/// Perform the operation on a `Vec<u32>`.
/// Use [u8_slice_to_u32_vec] to convert a `&[u8]` into a `Vec<u32>`.
///
/// Rewrites cube storage images as two-dimensional arrayed images, and each fetch, read or
/// write of one to go through a function that turns its cube direction into a layer and
/// a position; records a correction for each affected binding.
#[verifier::rlimit(60)]
pub fn storagecubepatch(in_spv: &[u32], corrections: &mut Option<CorrectionMap>) -> (r: Result<Vec<u32>, ()>)
    requires
        in_spv@.len() >= spv::SPV_HEADER_LENGTH,
        in_spv@[spv::SPV_HEADER_MAGIC_NUM_OFFSET as int] == spv::SPV_HEADER_MAGIC,
        wf_stream(body_of(in_spv@)),
        !cube_untouched(body_of(in_spv@))
            ==> cube_ready(body_of(in_spv@), in_spv@[spv::SPV_HEADER_INSTRUCTION_BOUND_OFFSET as int] as int),
    ensures
        cube_untouched(body_of(in_spv@)) ==> (r matches Ok(out) && out@ == in_spv@ && *final(corrections) == *old(corrections)),
        !cube_untouched(body_of(in_spv@)) ==> {
            let s = body_of(in_spv@);
            let result = cube_result(s, in_spv@[spv::SPV_HEADER_INSTRUCTION_BOUND_OFFSET as int] as int);
            let decs = op_starts(s, spv::SPV_INSTRUCTION_OP_DECORATE as int);
            let n = cube_affected(s).len() as int;
            &&& result.0 is Some
            &&& fits_in_memory(result.0->0) && tiles(result.0->0) ==> (r matches Ok(out)
                && out@ == in_spv@.subrange(0, spv::SPV_HEADER_LENGTH as int).update(
                    spv::SPV_HEADER_INSTRUCTION_BOUND_OFFSET as int, result.1 as u32) + strip_nops(result.0->0))
            &&& !(fits_in_memory(result.0->0) && tiles(result.0->0)) ==> r is Err
            &&& *old(corrections) is None ==> *final(corrections) is None
            &&& *old(corrections) matches Some(m0) ==> *final(corrections) matches Some(m1) && {
                &&& sets_view(m1.sets) == affected_corrections(s, decs, cube_affected(s), sets_view(m0.sets), n)
                &&& (m1.sets is Some) == (m0.sets is Some || affected_sets(s, decs, cube_affected(s), n) != Set::<u32>::empty())
                &&& m1.immediates_set == m0.immediates_set
                &&& m1.immediates_set_mode == m0.immediates_set_mode
            }
        },
{
    let ghost s = body_of(in_spv@);
    let mut instruction_bound = in_spv[spv::SPV_HEADER_INSTRUCTION_BOUND_OFFSET];
    let ghost b0 = instruction_bound as int;
    let spv_header = vstd::slice::slice_to_vec(slice_subrange(in_spv, 0, spv::SPV_HEADER_LENGTH));
    let spv = vstd::slice::slice_to_vec(slice_subrange(in_spv, spv::SPV_HEADER_LENGTH, in_spv.len()));
    assert(spv@ == s);
    let mut new_spv = vstd::slice::slice_to_vec(slice_subrange(in_spv, spv::SPV_HEADER_LENGTH, in_spv.len()));

    // 1. Find the instructions we need
    proof {
        lemma_tiles_terminates(s, 0);
        lemma_op_starts_reach(s, spv::SPV_INSTRUCTION_OP_TYPE_IMAGE as int);
        lemma_op_starts_reach(s, spv::SPV_INSTRUCTION_OP_TYPE_POINTER as int);
        lemma_op_starts_reach(s, spv::SPV_INSTRUCTION_OP_VARIABLE as int);
        lemma_op_starts_reach(s, spv::SPV_INSTRUCTION_OP_LOAD as int);
        lemma_op_starts_reach(s, spv::SPV_INSTRUCTION_OP_TYPE_INT as int);
        lemma_op_starts_reach(s, spv::SPV_INSTRUCTION_OP_TYPE_BOOL as int);
        lemma_op_starts_reach(s, spv::SPV_INSTRUCTION_OP_TYPE_VECTOR as int);
        lemma_op_starts_reach(s, spv::SPV_INSTRUCTION_OP_FUNCTION_PARAMETER as int);
        lemma_op_starts_reach(s, spv::SPV_INSTRUCTION_OP_DECORATE as int);
        lemma_accesses_reach(s);
    }
    let op_type_image_idxs = instruction_idxs(&spv, spv::SPV_INSTRUCTION_OP_TYPE_IMAGE);
    let op_type_pointer_idxs = instruction_idxs(&spv, spv::SPV_INSTRUCTION_OP_TYPE_POINTER);
    let op_variable_idxs = instruction_idxs(&spv, spv::SPV_INSTRUCTION_OP_VARIABLE);
    let op_load_idxs = instruction_idxs(&spv, spv::SPV_INSTRUCTION_OP_LOAD);
    let op_type_int_idxs = instruction_idxs(&spv, spv::SPV_INSTRUCTION_OP_TYPE_INT);
    let op_type_bool_idxs = instruction_idxs(&spv, spv::SPV_INSTRUCTION_OP_TYPE_BOOL);
    let op_type_vector_idxs = instruction_idxs(&spv, spv::SPV_INSTRUCTION_OP_TYPE_VECTOR);
    let op_ext_inst_import_idxs = instruction_idxs(&spv, spv::SPV_INSTRUCTION_OP_EXT_INST_IMPORT);
    let op_function_parameter_idxs = instruction_idxs(&spv, spv::SPV_INSTRUCTION_OP_FUNCTION_PARAMETER);
    let op_decorate_idxs = instruction_idxs(&spv, spv::SPV_INSTRUCTION_OP_DECORATE);
    let image_access_idxs = image_access_idxs(&spv);

    if op_type_vector_idxs.len() == 0 || op_type_image_idxs.len() == 0 || image_access_idxs.len() == 0 {
        return Ok(vstd::slice::slice_to_vec(in_spv));
    }

    let (mut new_spv, instruction_bound) = cube_patched_body(&spv, new_spv, instruction_bound, corrections,
        &op_type_image_idxs, &op_type_pointer_idxs, &op_variable_idxs, &op_load_idxs, &op_type_int_idxs,
        &op_type_bool_idxs, &op_type_vector_idxs, &op_ext_inst_import_idxs, &op_function_parameter_idxs,
        &op_decorate_idxs, &image_access_idxs);
    if !is_tiled(&new_spv) {
        return Err(());
    }

    // 10. Remove the instructions that have been overwritten
    prune_noops(&mut new_spv);

    // 11. Write the new header and the new code
    Ok(fuse_final(spv_header, new_spv, instruction_bound))
}

} // verus!
