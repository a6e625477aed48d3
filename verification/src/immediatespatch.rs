use std::collections::HashSet;

use vstd::prelude::*;

pub mod layout;
pub mod relayout;
pub mod type_registry;

use crate::correction::{CorrectionMap, ImmediatesSetMode};
use crate::immediatespatch::layout::SpecType;
use crate::immediatespatch::relayout::{
    lemma_relayout_type_len, registry_consistent, relayout_id, relayout_ok, relayout_type_recursive,
};
use crate::immediatespatch::type_registry::{
    all_readable, build_type_registry, registry_fold, registry_view, type_decl_readable, BuildTypeRegistryIn,
};
use crate::spv;
use crate::util::correct_decorate::{
    decorate_map_set_bindings, lemma_set_entries_inside, sorted_entries_exist, sorted_set_entries,
};
use crate::util::instruction::{
    fits_in_memory, idxs_reach, instruction_idxs, is_tiled, lemma_op_starts_reach, lemma_starts_len, lemma_tiles_inside, op_at,
    op_starts, starts, starts_from, tiles, wc_at, wf_stream,
};
use crate::util::pointer::lemma_tiles_terminates;
use crate::util::sort::{lemma_usize_leq_total, usize_leq};
use crate::util::{
    concat_instructions, encode_word, fuse_final, insert_new_instructions, lemma_inserted_same_anchor, prune_noops,
    insert_views, same_anchor, spec_encode_word, strip_nops, InsertView, InstructionInsert, WordInsert,
};
use vstd::slice::slice_subrange;

verus! {

/// The instructions after the header.
pub open spec fn body_of(in_spv: Seq<u32>) -> Seq<u32> {
    in_spv.subrange(spv::SPV_HEADER_LENGTH as int, in_spv.len() as int)
}

pub open spec fn decorations_of(s: Seq<u32>) -> Seq<usize> {
    op_starts(s, spv::SPV_INSTRUCTION_OP_DECORATE as int)
}

pub open spec fn member_decorations_of(s: Seq<u32>) -> Seq<usize> {
    op_starts(s, spv::SPV_INSTRUCTION_OP_MEMBER_DECORATE as int)
}

pub open spec fn type_pointers_of(s: Seq<u32>) -> Seq<usize> {
    op_starts(s, spv::SPV_INSTRUCTION_OP_TYPE_POINTER as int)
}

/// The `OpVariable`s in the `PushConstant` storage class, in stream order.
pub open spec fn push_constant_variables(s: Seq<u32>) -> Seq<usize> {
    op_starts(s, spv::SPV_INSTRUCTION_OP_VARIABLE as int).filter(|v: usize| s[v + 3] == spv::SPV_STORAGE_CLASS_PUSH_CONSTANT)
}

/// The type that pointer type `ptr_id` points to, from the first listed `OpTypePointer`
/// declaring it.
pub open spec fn pointee(s: Seq<u32>, tps: Seq<usize>, ptr_id: u32) -> Option<u32>
    decreases tps.len(),
{
    if tps.len() == 0 {
        None
    } else if s[tps[0] + 1] == ptr_id {
        Some(s[tps[0] + 3])
    } else {
        pointee(s, tps.drop_first(), ptr_id)
    }
}

/// The block type of the push-constant variable at `v`.
pub open spec fn block_struct_id(s: Seq<u32>, v: usize) -> u32 {
    pointee(s, type_pointers_of(s), s[v + 1])->0
}

/// The highest descriptor set named by a listed `DescriptorSet` decoration.
pub open spec fn max_descriptor_set(s: Seq<u32>, decs: Seq<usize>) -> Option<u32>
    decreases decs.len(),
{
    if decs.len() == 0 {
        None
    } else {
        let prev = max_descriptor_set(s, decs.drop_last());
        let d = decs.last();
        if s[d + 2] == spv::SPV_DECORATION_DESCRIPTOR_SET {
            match prev {
                Some(m) => Some(if m >= s[d + 3] { m } else { s[d + 3] }),
                None => Some(s[d + 3]),
            }
        } else {
            prev
        }
    }
}

/// The set after the highest descriptor set in use, 0 when there is none.
pub open spec fn next_free_set(s: Seq<u32>) -> int {
    match max_descriptor_set(s, decorations_of(s)) {
        Some(m) => m + 1,
        None => 0,
    }
}

/// The set mode in effect: the given one, `Absolute` when none is given.
pub open spec fn mode_or_default(mode: Option<ImmediatesSetMode>) -> ImmediatesSetMode {
    match mode {
        Some(m) => m,
        None => ImmediatesSetMode::Absolute,
    }
}

/// Whether choosing the set looks at the sets in use.
pub open spec fn uses_free_set(requested: Option<u32>, mode: ImmediatesSetMode) -> bool {
    requested is None || mode != ImmediatesSetMode::Absolute
}

/// The descriptor set that receives the converted immediates.
pub open spec fn immediates_target_set(s: Seq<u32>, requested: Option<u32>, mode: ImmediatesSetMode) -> int {
    match requested {
        None => next_free_set(s),
        Some(set) => match mode {
            ImmediatesSetMode::MaxUpTo => if next_free_set(s) < set { next_free_set(s) } else { set as int },
            ImmediatesSetMode::MaxPlusOneUpTo => if next_free_set(s) < set { next_free_set(s) + 1 } else { set as int },
            ImmediatesSetMode::Absolute => set as int,
        },
    }
}

/// The first binding handed out: one past the decoration offset of the last binding of the
/// target set in binding order, 0 when the set has none.
pub open spec fn starting_binding(s: Seq<u32>, set: u32) -> int {
    let l = sorted_set_entries(s, decorations_of(s), set![set], set);
    if l.len() == 0 {
        0
    } else {
        l.last().0 + 1
    }
}

/// `OpDecorate`s placing variable `var_id` in `set` at `binding`.
pub open spec fn set_binding_decorations(var_id: u32, set: u32, binding: u32) -> Seq<u32> {
    seq![
        spec_encode_word(4, spv::SPV_INSTRUCTION_OP_DECORATE), var_id, spv::SPV_DECORATION_DESCRIPTOR_SET, set,
        spec_encode_word(4, spv::SPV_INSTRUCTION_OP_DECORATE), var_id, spv::SPV_DECORATION_BINDING, binding,
    ]
}

/// The decorations of the first `k` push-constant variables, with consecutive bindings.
pub open spec fn immediates_decorations(s: Seq<u32>, pcs: Seq<usize>, set: u32, start: int, k: int) -> Seq<u32>
    decreases k,
{
    if k <= 0 {
        Seq::empty()
    } else {
        immediates_decorations(s, pcs, set, start, k - 1) + set_binding_decorations(s[pcs[k - 1] + 2], set, (start + k - 1) as u32)
    }
}

/// `v` with every push-constant storage class (of the listed pointer types and variables)
/// made `Uniform`.
pub open spec fn uniform_storage(s: Seq<u32>, v: Seq<u32>) -> Seq<u32> {
    Seq::new(v.len(), |p: int|
        if (exists|j: int| 0 <= j < type_pointers_of(s).len() && #[trigger] type_pointers_of(s)[j] + 2 == p
                && s[p] == spv::SPV_STORAGE_CLASS_PUSH_CONSTANT)
            || (exists|j: int| 0 <= j < push_constant_variables(s).len() && #[trigger] push_constant_variables(s)[j] + 3 == p) {
            spv::SPV_STORAGE_CLASS_UNIFORM
        } else {
            v[p]
        })
}


/// Every type declaration the registry reads, in stream order.
pub open spec fn type_decl_order(s: Seq<u32>) -> Seq<usize> {
    (op_starts(s, spv::SPV_INSTRUCTION_OP_TYPE_FLOAT as int) + op_starts(s, spv::SPV_INSTRUCTION_OP_TYPE_INT as int)
        + op_starts(s, spv::SPV_INSTRUCTION_OP_TYPE_VECTOR as int) + op_starts(s, spv::SPV_INSTRUCTION_OP_TYPE_MATRIX as int)
        + op_starts(s, spv::SPV_INSTRUCTION_OP_TYPE_ARRAY as int) + op_starts(s, spv::SPV_INSTRUCTION_OP_TYPE_STRUCT as int))
        .sort_by(usize_leq())
}

/// The registry of the stream's scalar, vector, matrix, array and struct types.
pub open spec fn immediates_registry(s: Seq<u32>) -> Map<u32, SpecType> {
    registry_fold(s, op_starts(s, spv::SPV_INSTRUCTION_OP_CONSTANT as int), type_decl_order(s))
}

/// The std140 layouts of the blocks of the first `k` push-constant variables, written in turn.
pub open spec fn relayout_blocks(s: Seq<u32>, v: Seq<u32>, pcs: Seq<usize>, k: int) -> Seq<u32>
    decreases k,
{
    if k <= 0 {
        v
    } else {
        relayout_id(s, relayout_blocks(s, v, pcs, k - 1), immediates_registry(s), decorations_of(s),
            member_decorations_of(s), block_struct_id(s, pcs[k - 1]))
    }
}

/// The instructions after the header once the push constants are uniforms in `set`: the
/// blocks laid out by std140, the storage classes changed, and the new set and binding
/// decorations placed after the first `OpDecorate`.
pub open spec fn immediates_body(s: Seq<u32>, set: u32) -> Seq<u32> {
    let pcs = push_constant_variables(s);
    let v2 = uniform_storage(s, relayout_blocks(s, s, pcs, pcs.len() as int));
    let a = decorations_of(s)[0];
    let p = a + wc_at(s, a as int);
    v2.take(p) + immediates_decorations(s, pcs, set, starting_binding(s, set), pcs.len() as int) + v2.skip(p)
}

fn find_push_constant_variables(spv: &[u32], op_variable_idxs: &[usize]) -> (r: Vec<usize>)
    requires
        idxs_reach(spv@, op_variable_idxs@, 3),
    ensures
        r@ == op_variable_idxs@.filter(|v: usize| spv@[v + 3] == spv::SPV_STORAGE_CLASS_PUSH_CONSTANT),
{
    let ghost s = spv@;
    let ghost vars = op_variable_idxs@;
    let ghost pred = |v: usize| s[v + 3] == spv::SPV_STORAGE_CLASS_PUSH_CONSTANT;
    let mut out: Vec<usize> = Vec::new();
    let mut k: usize = 0;
    proof {
        assert(vars.take(0) =~= Seq::<usize>::empty());
    }
    while k < op_variable_idxs.len()
        invariant
            s == spv@,
            vars == op_variable_idxs@,
            pred == (|v: usize| s[v + 3] == spv::SPV_STORAGE_CLASS_PUSH_CONSTANT),
            idxs_reach(s, vars, 3),
            k <= vars.len(),
            out@ == vars.take(k as int).filter(pred),
        decreases vars.len() - k,
    {
        let v_idx = op_variable_idxs[k];
        assert(vars[k as int] + 3 < s.len());
        assert(s.len() == spv.len());
        proof {
            assert(vars.take(k + 1) =~= vars.take(k as int).push(v_idx));
            vars.take(k as int).lemma_filter_push(v_idx, pred);
        }
        if spv[v_idx + 3] == spv::SPV_STORAGE_CLASS_PUSH_CONSTANT {
            out.push(v_idx);
        }
        k = k + 1;
    }
    proof {
        assert(vars.take(k as int) =~= vars);
    }
    out
}

fn find_pointee(spv: &[u32], op_type_pointer_idxs: &[usize], ptr_id: u32) -> (r: Option<u32>)
    requires
        idxs_reach(spv@, op_type_pointer_idxs@, 3),
    ensures
        r == pointee(spv@, op_type_pointer_idxs@, ptr_id),
{
    let ghost tps = op_type_pointer_idxs@;
    let mut j: usize = 0;
    assert(tps.skip(0) =~= tps);
    while j < op_type_pointer_idxs.len()
        invariant
            j <= tps.len(),
            tps == op_type_pointer_idxs@,
            idxs_reach(spv@, tps, 3),
            pointee(spv@, tps, ptr_id) == pointee(spv@, tps.skip(j as int), ptr_id),
        decreases tps.len() - j,
    {
        let tp_idx = op_type_pointer_idxs[j];
        assert(tps[j as int] + 3 < spv@.len());
        assert(spv@.len() == spv.len());
        assert(tps.skip(j as int)[0] == tp_idx);
        if spv[tp_idx + 1] == ptr_id {
            return Some(spv[tp_idx + 3]);
        }
        assert(tps.skip(j as int).drop_first() =~= tps.skip(j + 1));
        j = j + 1;
    }
    None
}

fn find_max_descriptor_set(spv: &[u32], op_decorate_idxs: &[usize]) -> (r: Option<u32>)
    requires
        idxs_reach(spv@, op_decorate_idxs@, 3),
    ensures
        r == max_descriptor_set(spv@, op_decorate_idxs@),
{
    let ghost decs = op_decorate_idxs@;
    let mut max: Option<u32> = None;
    let mut k: usize = 0;
    proof {
        assert(decs.take(0) =~= Seq::<usize>::empty());
    }
    while k < op_decorate_idxs.len()
        invariant
            k <= decs.len(),
            decs == op_decorate_idxs@,
            idxs_reach(spv@, decs, 3),
            max == max_descriptor_set(spv@, decs.take(k as int)),
        decreases decs.len() - k,
    {
        let d_idx = op_decorate_idxs[k];
        assert(decs[k as int] + 3 < spv@.len());
        assert(spv@.len() == spv.len());
        proof {
            assert(decs.take(k + 1).drop_last() =~= decs.take(k as int));
            assert(decs.take(k + 1).last() == d_idx);
        }
        if spv[d_idx + 2] == spv::SPV_DECORATION_DESCRIPTOR_SET {
            let value = spv[d_idx + 3];
            max = match max {
                Some(m) => Some(if m >= value { m } else { value }),
                None => Some(value),
            };
        }
        k = k + 1;
    }
    proof {
        assert(decs.take(k as int) =~= decs);
    }
    max
}

fn set_uniform_storage(spv: &[u32], new_spv: &mut Vec<u32>, op_type_pointer_idxs: &[usize], pc_variables: &[usize])
    requires
        idxs_reach(spv@, op_type_pointer_idxs@, 3),
        idxs_reach(spv@, pc_variables@, 3),
        op_type_pointer_idxs@ == type_pointers_of(spv@),
        pc_variables@ == push_constant_variables(spv@),
        old(new_spv)@.len() == spv@.len(),
    ensures
        final(new_spv)@ == uniform_storage(spv@, old(new_spv)@),
{
    let ghost s = spv@;
    let ghost tps = op_type_pointer_idxs@;
    let ghost pcs = pc_variables@;
    let ghost v0 = new_spv@;
    let mut k: usize = 0;
    while k < op_type_pointer_idxs.len()
        invariant
            s == spv@,
            tps == op_type_pointer_idxs@,
            idxs_reach(s, tps, 3),
            new_spv@.len() == s.len(),
            k <= tps.len(),
            forall|p: int| 0 <= p < s.len() ==> #[trigger] new_spv@[p] == if exists|j: int| 0 <= j < k && #[trigger] tps[j] + 2 == p
                && s[p] == spv::SPV_STORAGE_CLASS_PUSH_CONSTANT {
                spv::SPV_STORAGE_CLASS_UNIFORM
            } else {
                v0[p]
            },
        decreases tps.len() - k,
    {
        let tp_idx = op_type_pointer_idxs[k];
        assert(tps[k as int] + 3 < s.len());
        assert(s.len() == spv.len());
        if spv[tp_idx + 2] == spv::SPV_STORAGE_CLASS_PUSH_CONSTANT {
            new_spv.set(tp_idx + 2, spv::SPV_STORAGE_CLASS_UNIFORM);
        }
        assert forall|p: int| 0 <= p < s.len() implies #[trigger] new_spv@[p] == if exists|j: int| 0 <= j < k + 1 && #[trigger] tps[j] + 2 == p
            && s[p] == spv::SPV_STORAGE_CLASS_PUSH_CONSTANT {
            spv::SPV_STORAGE_CLASS_UNIFORM
        } else {
            v0[p]
        } by {
            if exists|j: int| 0 <= j < k + 1 && #[trigger] tps[j] + 2 == p && s[p] == spv::SPV_STORAGE_CLASS_PUSH_CONSTANT {
                let j = choose|j: int| 0 <= j < k + 1 && #[trigger] tps[j] + 2 == p && s[p] == spv::SPV_STORAGE_CLASS_PUSH_CONSTANT;
                if j < k {
                    assert(exists|j: int| 0 <= j < k && #[trigger] tps[j] + 2 == p && s[p] == spv::SPV_STORAGE_CLASS_PUSH_CONSTANT);
                }
            }
        }
        k = k + 1;
    }
    let ghost v1 = new_spv@;
    let mut k: usize = 0;
    while k < pc_variables.len()
        invariant
            s == spv@,
            pcs == pc_variables@,
            idxs_reach(s, pcs, 3),
            new_spv@.len() == s.len(),
            k <= pcs.len(),
            forall|p: int| 0 <= p < s.len() ==> #[trigger] new_spv@[p] == if exists|j: int| 0 <= j < k && #[trigger] pcs[j] + 3 == p {
                spv::SPV_STORAGE_CLASS_UNIFORM
            } else {
                v1[p]
            },
        decreases pcs.len() - k,
    {
        let v_idx = pc_variables[k];
        assert(pcs[k as int] + 3 < s.len());
        assert(s.len() == spv.len());
        new_spv.set(v_idx + 3, spv::SPV_STORAGE_CLASS_UNIFORM);
        assert forall|p: int| 0 <= p < s.len() implies #[trigger] new_spv@[p] == if exists|j: int| 0 <= j < k + 1 && #[trigger] pcs[j] + 3 == p {
            spv::SPV_STORAGE_CLASS_UNIFORM
        } else {
            v1[p]
        } by {
            if exists|j: int| 0 <= j < k + 1 && #[trigger] pcs[j] + 3 == p {
                let j = choose|j: int| 0 <= j < k + 1 && #[trigger] pcs[j] + 3 == p;
                if j < k {
                    assert(exists|j: int| 0 <= j < k && #[trigger] pcs[j] + 3 == p);
                }
            }
        }
        k = k + 1;
    }
    assert(new_spv@ =~= uniform_storage(s, v0));
}


/// The type declarations of a well-formed stream have the words the registry reads.
proof fn lemma_type_decls_readable(s: Seq<u32>)
    requires
        wf_stream(s),
    ensures
        all_readable(s, type_decl_order(s)),
{
    let cat = op_starts(s, spv::SPV_INSTRUCTION_OP_TYPE_FLOAT as int) + op_starts(s, spv::SPV_INSTRUCTION_OP_TYPE_INT as int)
        + op_starts(s, spv::SPV_INSTRUCTION_OP_TYPE_VECTOR as int) + op_starts(s, spv::SPV_INSTRUCTION_OP_TYPE_MATRIX as int)
        + op_starts(s, spv::SPV_INSTRUCTION_OP_TYPE_ARRAY as int) + op_starts(s, spv::SPV_INSTRUCTION_OP_TYPE_STRUCT as int);
    lemma_usize_leq_total();
    cat.lemma_sort_by_ensures(usize_leq());
    lemma_tiles_inside(s, 0);
    lemma_op_starts_reach(s, spv::SPV_INSTRUCTION_OP_TYPE_FLOAT as int);
    lemma_op_starts_reach(s, spv::SPV_INSTRUCTION_OP_TYPE_INT as int);
    lemma_op_starts_reach(s, spv::SPV_INSTRUCTION_OP_TYPE_VECTOR as int);
    lemma_op_starts_reach(s, spv::SPV_INSTRUCTION_OP_TYPE_MATRIX as int);
    lemma_op_starts_reach(s, spv::SPV_INSTRUCTION_OP_TYPE_ARRAY as int);
    lemma_op_starts_reach(s, spv::SPV_INSTRUCTION_OP_TYPE_STRUCT as int);
    let order = type_decl_order(s);
    assert forall|j: int| 0 <= j < order.len() implies type_decl_readable(s, #[trigger] order[j]) by {
        let x = order[j];
        assert(order.contains(x));
        assert(cat.contains(x));
        let i = choose|i: int| 0 <= i < cat.len() && cat[i] == x;
        let ops = seq![spv::SPV_INSTRUCTION_OP_TYPE_FLOAT as int, spv::SPV_INSTRUCTION_OP_TYPE_INT as int,
            spv::SPV_INSTRUCTION_OP_TYPE_VECTOR as int, spv::SPV_INSTRUCTION_OP_TYPE_MATRIX as int,
            spv::SPV_INSTRUCTION_OP_TYPE_ARRAY as int, spv::SPV_INSTRUCTION_OP_TYPE_STRUCT as int];
        assert(exists|o: int, k: int| 0 <= o < 6 && 0 <= k < op_starts(s, ops[o]).len() && op_starts(s, ops[o])[k] == x) by {
            let l0 = op_starts(s, ops[0]).len() as int;
            let l1 = op_starts(s, ops[1]).len() as int;
            let l2 = op_starts(s, ops[2]).len() as int;
            let l3 = op_starts(s, ops[3]).len() as int;
            let l4 = op_starts(s, ops[4]).len() as int;
            if i < l0 {
                assert(op_starts(s, ops[0])[i] == x);
            } else if i < l0 + l1 {
                assert(op_starts(s, ops[1])[i - l0] == x);
            } else if i < l0 + l1 + l2 {
                assert(op_starts(s, ops[2])[i - l0 - l1] == x);
            } else if i < l0 + l1 + l2 + l3 {
                assert(op_starts(s, ops[3])[i - l0 - l1 - l2] == x);
            } else if i < l0 + l1 + l2 + l3 + l4 {
                assert(op_starts(s, ops[4])[i - l0 - l1 - l2 - l3] == x);
            } else {
                assert(op_starts(s, ops[5])[i - l0 - l1 - l2 - l3 - l4] == x);
            }
        }
        let (o, k) = choose|o: int, k: int| 0 <= o < 6 && 0 <= k < op_starts(s, ops[o]).len() && op_starts(s, ops[o])[k] == x;
        assert(op_at(s, x as int) == ops[o]);
        assert(starts(s).contains(x));
        let m = choose|m: int| 0 <= m < starts(s).len() && starts(s)[m] == x;
        assert(starts_from(s, 0)[m] + wc_at(s, starts_from(s, 0)[m] as int) <= s.len());
    }
}

proof fn lemma_decorations_concat(s: Seq<u32>, instrs: Seq<InsertView>, pcs: Seq<usize>, set: u32, start: int, k: int)
    requires
        0 <= k <= instrs.len(),
        k <= pcs.len(),
        forall|i: int| 0 <= i < k ==> (#[trigger] instrs[i]).1
            == set_binding_decorations(s[pcs[i] + 2], set, (start + i) as u32),
    ensures
        concat_instructions(instrs, k) == immediates_decorations(s, pcs, set, start, k),
    decreases k,
{
    if k > 0 {
        lemma_decorations_concat(s, instrs, pcs, set, start, k - 1);
        assert(instrs[k - 1].1 == set_binding_decorations(s[pcs[k - 1] + 2], set, (start + k - 1) as u32));
    }
}

proof fn lemma_relayout_blocks_len(s: Seq<u32>, v: Seq<u32>, pcs: Seq<usize>, k: int)
    ensures
        relayout_blocks(s, v, pcs, k).len() == v.len(),
    decreases k,
{
    if k > 0 {
        lemma_relayout_blocks_len(s, v, pcs, k - 1);
        let reg = immediates_registry(s);
        let id = block_struct_id(s, pcs[k - 1]);
        if reg.contains_key(id) {
            lemma_relayout_type_len(s, relayout_blocks(s, v, pcs, k - 1), reg, decorations_of(s), member_decorations_of(s), reg[id]);
        }
    }
}

/// What converting the push constants of a module needs of it beyond a valid header and a
/// well-formed body: a first `OpDecorate` to place the new decorations after, a declared
/// pointer type for each push-constant variable, a type registry shaped as trees whose block
/// layouts compute, and room for one more descriptor set when the set in use is consulted.
pub open spec fn immediates_convertible(body: Seq<u32>, requested: Option<u32>, mode: ImmediatesSetMode) -> bool {
    let pcs = push_constant_variables(body);
    let reg = immediates_registry(body);
    pcs.len() > 0 ==> {
        &&& decorations_of(body).len() > 0
        &&& forall|j: int| 0 <= j < pcs.len() ==> (#[trigger] pointee(body, type_pointers_of(body), body[pcs[j] + 1])) is Some
        &&& registry_consistent(reg)
        &&& forall|j: int| 0 <= j < pcs.len() && reg.contains_key(#[trigger] block_struct_id(body, pcs[j]))
            ==> relayout_ok(reg, reg[block_struct_id(body, pcs[j])])
        &&& uses_free_set(requested, mode) ==> next_free_set(body) <= u32::MAX
    }
}

/// Use [u8_slice_to_u32_vec] to convert a `&[u8]` into a `Vec<u32>`.
///
/// Converts push constants into a uniform buffer: their blocks get the std140 layout, their
/// pointer types and variables the `Uniform` storage class, and each variable a descriptor
/// set and binding. The set is recorded in `corrections`. A module without push constants is
/// returned as it is.
#[verifier::rlimit(60)]
pub fn immediatespatch(in_spv: &[u32], corrections: &mut CorrectionMap) -> (r: Result<Vec<u32>, ()>)
    requires
        in_spv@.len() >= spv::SPV_HEADER_LENGTH,
        in_spv@[spv::SPV_HEADER_MAGIC_NUM_OFFSET as int] == spv::SPV_HEADER_MAGIC,
        wf_stream(body_of(in_spv@)),
        immediates_convertible(body_of(in_spv@), old(corrections).immediates_set, mode_or_default(old(corrections).immediates_set_mode)),
    ensures
        push_constant_variables(body_of(in_spv@)).len() == 0 ==> {
            &&& (r matches Ok(out) && out@ == in_spv@)
            &&& *final(corrections) == *old(corrections)
        },
        push_constant_variables(body_of(in_spv@)).len() > 0 ==> {
            let set = immediates_target_set(body_of(in_spv@), old(corrections).immediates_set,
                mode_or_default(old(corrections).immediates_set_mode)) as u32;
            let after = immediates_body(body_of(in_spv@), set);
            &&& final(corrections).immediates_set == Some(set)
            &&& final(corrections).sets == old(corrections).sets
            &&& final(corrections).immediates_set_mode == old(corrections).immediates_set_mode
            &&& fits_in_memory(after) && tiles(after) ==> (r matches Ok(out)
                && out@ == in_spv@.subrange(0, spv::SPV_HEADER_LENGTH as int) + strip_nops(after))
            &&& !(fits_in_memory(after) && tiles(after)) ==> r is Err
        },
{
    let ghost s = body_of(in_spv@);
    let instruction_bound = in_spv[spv::SPV_HEADER_INSTRUCTION_BOUND_OFFSET];
    let spv_header = vstd::slice::slice_to_vec(slice_subrange(in_spv, 0, spv::SPV_HEADER_LENGTH));
    let spv = vstd::slice::slice_to_vec(slice_subrange(in_spv, spv::SPV_HEADER_LENGTH, in_spv.len()));
    assert(spv@ == s);
    let mut new_spv = vstd::slice::slice_to_vec(slice_subrange(in_spv, spv::SPV_HEADER_LENGTH, in_spv.len()));

    // 1. Find locations of instructions we need
    proof {
        lemma_tiles_terminates(s, 0);
        lemma_op_starts_reach(s, spv::SPV_INSTRUCTION_OP_VARIABLE as int);
        lemma_op_starts_reach(s, spv::SPV_INSTRUCTION_OP_TYPE_POINTER as int);
        lemma_op_starts_reach(s, spv::SPV_INSTRUCTION_OP_DECORATE as int);
        lemma_op_starts_reach(s, spv::SPV_INSTRUCTION_OP_MEMBER_DECORATE as int);
        lemma_op_starts_reach(s, spv::SPV_INSTRUCTION_OP_CONSTANT as int);
    }
    let op_variable_idxs = instruction_idxs(&spv, spv::SPV_INSTRUCTION_OP_VARIABLE);
    let op_type_pointer_idxs = instruction_idxs(&spv, spv::SPV_INSTRUCTION_OP_TYPE_POINTER);
    let op_decorate_idxs = instruction_idxs(&spv, spv::SPV_INSTRUCTION_OP_DECORATE);
    let op_member_decorate_idxs = instruction_idxs(&spv, spv::SPV_INSTRUCTION_OP_MEMBER_DECORATE);

    // 2. Find all `OpVariable` that is a `PushConstant`
    let pc_variables = find_push_constant_variables(&spv, &op_variable_idxs);
    let ghost pcs = pc_variables@;
    assert(pcs == push_constant_variables(s));
    if pc_variables.len() == 0 {
        return Ok(vstd::slice::slice_to_vec(in_spv));
    }
    proof {
        assert forall|j: int| 0 <= j < pcs.len() implies #[trigger] pcs[j] + 3 < s.len() by {
            let pred = |v: usize| s[v + 3] == spv::SPV_STORAGE_CLASS_PUSH_CONSTANT;
            op_starts(s, spv::SPV_INSTRUCTION_OP_VARIABLE as int).lemma_filter_pred(pred, j);
            assert(op_starts(s, spv::SPV_INSTRUCTION_OP_VARIABLE as int).filter(pred).contains(pcs[j]));
            op_starts(s, spv::SPV_INSTRUCTION_OP_VARIABLE as int).lemma_filter_contains_rev(pred, pcs[j]);
        }
    }

    let op_type_float_idxs = instruction_idxs(&spv, spv::SPV_INSTRUCTION_OP_TYPE_FLOAT);
    let op_type_int_idxs = instruction_idxs(&spv, spv::SPV_INSTRUCTION_OP_TYPE_INT);
    let op_type_vector_idxs = instruction_idxs(&spv, spv::SPV_INSTRUCTION_OP_TYPE_VECTOR);
    let op_type_matrix_idxs = instruction_idxs(&spv, spv::SPV_INSTRUCTION_OP_TYPE_MATRIX);
    let op_type_array_idxs = instruction_idxs(&spv, spv::SPV_INSTRUCTION_OP_TYPE_ARRAY);
    let op_type_struct_idxs = instruction_idxs(&spv, spv::SPV_INSTRUCTION_OP_TYPE_STRUCT);
    let op_constant_idxs = instruction_idxs(&spv, spv::SPV_INSTRUCTION_OP_CONSTANT);

    // 3. Find underlying type of variables
    let mut block_struct_ids: Vec<u32> = Vec::new();
    let mut k: usize = 0;
    while k < pc_variables.len()
        invariant
            s == spv@,
            pcs == pc_variables@,
            pcs == push_constant_variables(s),
            op_type_pointer_idxs@ == type_pointers_of(s),
            idxs_reach(s, type_pointers_of(s), 3),
            forall|j: int| 0 <= j < pcs.len() ==> #[trigger] pcs[j] + 3 < s.len(),
            forall|j: int| 0 <= j < pcs.len() ==> (#[trigger] pointee(s, type_pointers_of(s), s[pcs[j] + 1])) is Some,
            k <= pcs.len(),
            block_struct_ids@.len() == k,
            forall|j: int| 0 <= j < k ==> #[trigger] block_struct_ids@[j] == block_struct_id(s, pcs[j]),
        decreases pcs.len() - k,
    {
        let v_idx = pc_variables[k];
        assert(pcs[k as int] + 3 < s.len());
        let ptr_id = spv[v_idx + 1];
        let found = find_pointee(&spv, &op_type_pointer_idxs, ptr_id);
        assert(found is Some);
        block_struct_ids.push(found.unwrap());
        k = k + 1;
    }

    // 4. Build a registry of every relevant OpType*
    proof {
        lemma_type_decls_readable(s);
    }
    let type_registry = build_type_registry(BuildTypeRegistryIn {
        spv: spv.as_slice(),
        op_type_float_idxs: op_type_float_idxs.as_slice(),
        op_type_int_idxs: op_type_int_idxs.as_slice(),
        op_type_vector_idxs: op_type_vector_idxs.as_slice(),
        op_type_matrix_idxs: op_type_matrix_idxs.as_slice(),
        op_type_array_idxs: op_type_array_idxs.as_slice(),
        op_type_struct_idxs: op_type_struct_idxs.as_slice(),
        op_constant_idxs: op_constant_idxs.as_slice(),
    });
    let ghost reg = immediates_registry(s);
    assert(registry_view(type_registry@) == reg);

    // 5. Rewrite Offset / ArrayStride / MatrixStride decoration
    let mut k: usize = 0;
    while k < block_struct_ids.len()
        invariant
            s == spv@,
            pcs == push_constant_variables(s),
            reg == immediates_registry(s),
            registry_view(type_registry@) == reg,
            registry_consistent(reg),
            forall|j: int| 0 <= j < pcs.len() && reg.contains_key(#[trigger] block_struct_id(s, pcs[j]))
                ==> relayout_ok(reg, reg[block_struct_id(s, pcs[j])]),
            op_decorate_idxs@ == decorations_of(s),
            op_member_decorate_idxs@ == member_decorations_of(s),
            idxs_reach(s, decorations_of(s), 3),
            idxs_reach(s, member_decorations_of(s), 4),
            block_struct_ids@.len() == pcs.len(),
            forall|j: int| 0 <= j < pcs.len() ==> #[trigger] block_struct_ids@[j] == block_struct_id(s, pcs[j]),
            k <= pcs.len(),
            new_spv@ == relayout_blocks(s, s, pcs, k as int),
            new_spv@.len() == s.len(),
        decreases pcs.len() - k,
    {
        let id = block_struct_ids[k];
        assert(id == block_struct_id(s, pcs[k as int]));
        let ghost before = new_spv@;
        relayout_type_recursive(spv.as_slice(), new_spv.as_mut_slice(), id, &type_registry,
            op_decorate_idxs.as_slice(), op_member_decorate_idxs.as_slice());
        proof {
            lemma_relayout_blocks_len(s, s, pcs, k + 1);
        }
        k = k + 1;
    }

    // 6. Correct OpTypePointer and OpVariable PushConstant -> Uniform
    let ghost v1 = new_spv@;
    set_uniform_storage(spv.as_slice(), &mut new_spv, op_type_pointer_idxs.as_slice(), pc_variables.as_slice());

    // 7. Place new uniforms in the set after the last set.
    let requested = corrections.immediates_set;
    let mode = match corrections.immediates_set_mode {
        Some(m) => m,
        None => ImmediatesSetMode::Absolute,
    };
    let max_set = find_max_descriptor_set(spv.as_slice(), op_decorate_idxs.as_slice());
    let target_set: u32 = match requested {
        Some(set) => match mode {
            ImmediatesSetMode::MaxUpTo => {
                let next = match max_set {
                    Some(m) => m + 1,
                    None => 0,
                };
                if next < set { next } else { set }
            },
            ImmediatesSetMode::MaxPlusOneUpTo => {
                let next = match max_set {
                    Some(m) => m + 1,
                    None => 0,
                };
                if next < set { next + 1 } else { set }
            },
            ImmediatesSetMode::Absolute => set,
        },
        None => match max_set {
            Some(m) => m + 1,
            None => 0,
        },
    };
    assert(target_set == immediates_target_set(s, requested, mode));

    let mut target_filter: HashSet<u32> = HashSet::new();
    target_filter.insert(target_set);
    assert(target_filter@ =~= set![target_set]);
    let set_bindings = decorate_map_set_bindings(spv.as_slice(), op_decorate_idxs.as_slice(), &target_filter);
    let entries = set_bindings.get(&target_set).unwrap();
    let starting_binding: usize = if entries.len() == 0 {
        0
    } else {
        assert(entries@.last() == sorted_set_entries(s, decorations_of(s), set![target_set], target_set).last());
        proof {
            lemma_set_entry_inside(s, target_set, (entries@.len() - 1) as int);
        }
        entries[entries.len() - 1].0 + 1
    };
    assert(starting_binding == self::starting_binding(s, target_set));

    let first_op_decorate_idx = op_decorate_idxs[0];
    proof {
        lemma_starts_len(s);
        let vars = op_starts(s, spv::SPV_INSTRUCTION_OP_VARIABLE as int);
        vars.lemma_filter_len(|v: usize| s[v + 3] == spv::SPV_STORAGE_CLASS_PUSH_CONSTANT);
        starts(s).lemma_filter_len(|k: usize| op_at(s, k as int) == spv::SPV_INSTRUCTION_OP_VARIABLE as int);
        assert(pcs.len() <= s.len());
    }
    let mut instruction_inserts: Vec<InstructionInsert> = Vec::new();
    let mut k: usize = 0;
    while k < pc_variables.len()
        invariant
            s == spv@,
            pcs == pc_variables@,
            forall|j: int| 0 <= j < pcs.len() ==> #[trigger] pcs[j] + 3 < s.len(),
            starting_binding <= s.len(),
            pcs.len() <= s.len(),
            fits_in_memory(s),
            k <= pcs.len(),
            instruction_inserts@.len() == k,
            forall|i: int| 0 <= i < k ==> (#[trigger] instruction_inserts@[i]).previous_spv_idx == first_op_decorate_idx,
            forall|i: int| 0 <= i < k ==> (#[trigger] instruction_inserts@[i]).instruction@
                == set_binding_decorations(s[pcs[i] + 2], target_set, (starting_binding + i) as u32),
        decreases pcs.len() - k,
    {
        let var_id = spv[pc_variables[k] + 2];
        let binding = (starting_binding + k) as u32;
        let instruction = vec![
            encode_word(4, spv::SPV_INSTRUCTION_OP_DECORATE), var_id, spv::SPV_DECORATION_DESCRIPTOR_SET, target_set,
            encode_word(4, spv::SPV_INSTRUCTION_OP_DECORATE), var_id, spv::SPV_DECORATION_BINDING, binding,
        ];
        assert(instruction@ =~= set_binding_decorations(var_id, target_set, binding));
        instruction_inserts.push(InstructionInsert { previous_spv_idx: first_op_decorate_idx, instruction });
        k = k + 1;
    }

    corrections.immediates_set = Some(target_set);

    // 8. Insert New Instructions
    let ghost v2 = new_spv@;
    proof {
        lemma_relayout_blocks_len(s, s, pcs, pcs.len() as int);
        assert(v2 == uniform_storage(s, relayout_blocks(s, s, pcs, pcs.len() as int)));
        lemma_tiles_inside(s, 0);
        assert(starts(s).contains(first_op_decorate_idx));
        let m = choose|m: int| 0 <= m < starts(s).len() && starts(s)[m] == first_op_decorate_idx;
        assert(starts_from(s, 0)[m] + wc_at(s, starts_from(s, 0)[m] as int) <= s.len());
        let views = insert_views(instruction_inserts@);
        assert forall|j: int| 0 <= j < views.len() implies (#[trigger] views[j]).0 == first_op_decorate_idx by {
            assert(views[j].0 == instruction_inserts@[j].previous_spv_idx);
        }
        assert forall|j: int| 0 <= j < views.len() implies (#[trigger] views[j]).1
            == set_binding_decorations(s[pcs[j] + 2], target_set, (starting_binding + j) as u32) by {
            assert(views[j].1 == instruction_inserts@[j].instruction@);
        }
        lemma_inserted_same_anchor(s, v2, views, first_op_decorate_idx);
        lemma_decorations_concat(s, insert_views(instruction_inserts@), pcs, target_set, starting_binding as int, pcs.len() as int);
    }
    let no_words: Vec<WordInsert> = Vec::new();
    assert(no_words@ =~= Seq::<WordInsert>::empty());
    insert_new_instructions(spv.as_slice(), &mut new_spv, no_words.as_slice(), instruction_inserts.as_slice());
    assert(new_spv@ =~= immediates_body(s, target_set));

    // 9. Remove Instructions that have been Whited Out.
    if !is_tiled(new_spv.as_slice()) {
        return Err(());
    }
    prune_noops(&mut new_spv);

    // 10. Write New Header and New Code
    let out = fuse_final(spv_header, new_spv, instruction_bound);
    assert(out@ =~= in_spv@.subrange(0, spv::SPV_HEADER_LENGTH as int) + strip_nops(immediates_body(s, target_set)));
    Ok(out)
}

/// The binding decorations of a set lie inside the stream.
proof fn lemma_set_entry_inside(s: Seq<u32>, set: u32, k: int)
    requires
        wf_stream(s),
        sorted_entries_exist(s, decorations_of(s), set![set], set),
        0 <= k < sorted_set_entries(s, decorations_of(s), set![set], set).len(),
    ensures
        sorted_set_entries(s, decorations_of(s), set![set], set)[k].0 + 3 < s.len(),
{
    lemma_op_starts_reach(s, spv::SPV_INSTRUCTION_OP_DECORATE as int);
    lemma_set_entries_inside(s, decorations_of(s), set![set], set, k);
}

} // verus!
