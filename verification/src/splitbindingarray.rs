use vstd::prelude::*;

use crate::correction::{CorrectionMap, CorrectionType};
use crate::immediatespatch::body_of;
use crate::spv;
use crate::splitbindingarray::accesses::{
    accesses_rewritten, array_accesses, arrayed_samplers, find_array_accesses, find_arrayed_samplers,
    lemma_listed_inside, rewrite_accesses,
};
use crate::splitbindingarray::arrays::{
    array_length, arrayed_resources, find_array_length, find_array_pointers, find_arrayed_resources,
    has_nested_arrays, lemma_array_pointers_reach, lemma_arrayed_inside, nested_arrays, ArrayedEntry,
};
use crate::splitbindingarray::calls::{calls_rewritten, nop_unused_targets, rewrite_calls, unused_targets_nopped};
use crate::splitbindingarray::unroll::{
    element_affected, function_types_rewritten, lemma_split_affected_slots, op_at_is_parameter, rewrite_function_types,
    split_affected, unroll_arrays, unrolled, FunctionTypeChange,
};
use crate::util::correct_decorate::{
    check_corrections_fit, correct_decorate, corrected_stream, corrections_fit, CorrectDecorateIn,
};
use crate::util::decorate::{
    added_decorations, affected_corrections, affected_sets, affected_slot, decorate, lemma_added_needs_decoration,
    lemma_same_slots, recorded, sets_view, AffectedDecoration, CorrectionsView, DecorateIn, DecorateOut,
};
use crate::util::function::enclosing_function;
use crate::util::instruction::{
    check_idxs_reach, fits_in_memory, idxs_reach, instruction_idxs, is_tiled, lemma_op_starts_reach, op_starts,
    terminates_from, tiles, wc_at, wf_stream,
};
use crate::util::pointer::lemma_tiles_terminates;
use crate::util::{
    anchors_inside, check_anchors, fuse_final, insert_new_instructions, insert_views, inserted, lemma_inserted_some,
    prune_noops, strip_nops, InsertView, InstructionInsert, WordInsert,
};
use vstd::slice::slice_subrange;

pub mod accesses;
pub mod arrays;
pub mod calls;
pub mod unroll;
pub mod rechain_instructions;
pub mod select_template;

verus! {

/// Takes the next id from the instruction bound.
pub fn inc(ib: &mut u32) -> (r: u32)
    requires
        *old(ib) < u32::MAX,
    ensures
        r == *old(ib),
        *final(ib) == *old(ib) + 1,
{
    *ib += 1;
    *ib - 1
}

/// The lengths of the binding arrays, in the order of `arrayed_resources`.
pub open spec fn split_lengths(s: Seq<u32>) -> Seq<u32> {
    Seq::new(arrayed_resources(s).len(), |k: int| array_length(s, arrayed_resources(s)[k].1)->0)
}

/// What splitting the binding arrays asks to record: for each binding array variable of `N`
/// elements, `N-1` corrections of its set and binding.
pub open spec fn split_requests(s: Seq<u32>) -> Seq<AffectedDecoration> {
    let arrayed = arrayed_resources(s);
    split_affected(s, arrayed, split_lengths(s), Seq::new(arrayed.len(), |k: int| 0u32), arrayed.len() as int)
}

/// What the splitting needs of a module: no array of binding arrays, a length for each binding
/// array, a function around each binding array parameter, and a type to place the new
/// declarations after.
pub open spec fn split_ready(s: Seq<u32>) -> bool {
    let arrayed = arrayed_resources(s);
    &&& !nested_arrays(s)
    &&& forall|j: int| 0 <= j < arrayed.len() ==> array_length(s, (#[trigger] arrayed[j]).1) is Some
    &&& forall|j: int| 0 <= j < arrayed.len() ==> op_at_is_parameter(s, (#[trigger] arrayed[j]).0)
        ==> enclosing_function(s, arrayed[j].0) is Some
    &&& op_starts(s, spv::SPV_INSTRUCTION_OP_TYPE_INT as int).len() > 0
        || op_starts(s, spv::SPV_INSTRUCTION_OP_TYPE_POINTER as int).len() > 0
}

/// Where the new type declarations go: after the last `OpTypeInt` or `OpTypePointer`,
/// whichever comes later.
pub open spec fn types_anchor(ints: Seq<usize>, pointers: Seq<usize>) -> usize {
    if ints.len() == 0 {
        pointers.last()
    } else if pointers.len() == 0 || pointers.last() < ints.last() {
        ints.last()
    } else {
        pointers.last()
    }
}

/// The instructions that may use an access chain: loads, stores, access chains and copies.
pub open spec fn split_dependents(s: Seq<u32>) -> Seq<usize> {
    op_starts(s, spv::SPV_INSTRUCTION_OP_LOAD as int) + op_starts(s, spv::SPV_INSTRUCTION_OP_STORE as int)
        + op_starts(s, spv::SPV_INSTRUCTION_OP_ACCESS_CHAIN as int)
        + op_starts(s, spv::SPV_INSTRUCTION_OP_IN_BOUNDS_ACCESS_CHAIN as int)
        + op_starts(s, spv::SPV_INSTRUCTION_OP_COPY_MEMORY as int)
}

/// The access chains into binding arrays, with the position of the array.
pub open spec fn split_accesses(s: Seq<u32>) -> Seq<(usize, usize)> {
    let acs = op_starts(s, spv::SPV_INSTRUCTION_OP_ACCESS_CHAIN as int)
        + op_starts(s, spv::SPV_INSTRUCTION_OP_IN_BOUNDS_ACCESS_CHAIN as int);
    array_accesses(s, acs, arrayed_resources(s), acs.len() as int)
}

/// The sampler type an inner switch loads, the module's first `OpTypeSampler`.
pub open spec fn split_sampler_type(s: Seq<u32>) -> Option<u32> {
    let samplers = op_starts(s, spv::SPV_INSTRUCTION_OP_TYPE_SAMPLER as int);
    if samplers.len() > 0 {
        Some(s[samplers[0] + 1])
    } else {
        None
    }
}

/// The body after the binding arrays were unrolled, the function types rewritten, the access
/// chains and calls rewritten and the unused decorations and names of the arrays removed,
/// with its instruction inserts, the next free id and the descriptor sets whose bindings are to
/// be corrected; `None` when one step cannot be done.
pub open spec fn split_rewritten(s: Seq<u32>, b: int) -> Option<(Seq<u32>, Seq<InsertView>, int, Set<u32>)> {
    let arrayed = arrayed_resources(s);
    let n = arrayed.len() as int;
    let lengths = split_lengths(s);
    let ptrs = op_starts(s, spv::SPV_INSTRUCTION_OP_TYPE_POINTER as int);
    let decs = op_starts(s, spv::SPV_INSTRUCTION_OP_DECORATE as int);
    let names = op_starts(s, spv::SPV_INSTRUCTION_OP_NAME as int);
    let tfs = op_starts(s, spv::SPV_INSTRUCTION_OP_TYPE_FUNCTION as int);
    let calls = op_starts(s, spv::SPV_INSTRUCTION_OP_FUNCTION_CALL as int);
    let ints = op_starts(s, spv::SPV_INSTRUCTION_OP_TYPE_INT as int);
    match unrolled(s, ptrs, decs, names, arrayed, lengths, (Seq::empty(), b, s, Seq::empty(), Seq::empty(), Seq::empty()),
        n) {
        None => None,
        Some(u) => match function_types_rewritten(s, u.2, u.3, tfs, u.5, tfs.len() as int) {
            None => None,
            Some(f) => {
                let bases = u.0;
                let accesses = split_accesses(s);
                let loads = op_starts(s, spv::SPV_INSTRUCTION_OP_LOAD as int);
                let map = arrayed_samplers(s, accesses, arrayed, loads, op_starts(s,
                    spv::SPV_INSTRUCTION_OP_SAMPLED_IMAGE as int), accesses.len() as int);
                match accesses_rewritten(s, accesses, arrayed, lengths, bases, loads, split_dependents(s), map,
                    split_sampler_type(s), (f.0, u.1, u.4), accesses.len() as int) {
                    None => None,
                    Some(a) => match calls_rewritten(s, a.0, a.2, calls, arrayed, lengths, bases, calls.len() as int) {
                        None => None,
                        Some(c) => {
                            let v = unused_targets_nopped(s, unused_targets_nopped(s, c.0, decs, arrayed, decs.len() as int),
                                names, arrayed, names.len() as int);
                            let affected = split_affected(s, arrayed, lengths, bases, n);
                            let added = added_decorations(s, decs, affected, affected.len() as int);
                            let inserts = seq![(types_anchor(ints, ptrs), f.1)] + c.1 + Seq::new(added.len(),
                                |j: int| (decs[0], added[j]));
                            Some((v, inserts, a.1, affected_sets(s, decs, affected, affected.len() as int)))
                        },
                    },
                }
            },
        }
    }
}

/// The body of the split module and its instruction bound, from a body `s` whose bound is
/// `b`: the rewritten body with its inserts placed, the bindings of the split arrays'
/// descriptor sets corrected, and the `OpNop`s removed; `None` when a step cannot be done
/// or the result is not a stream of whole instructions.
pub open spec fn split_result(s: Seq<u32>, b: int) -> Option<(Seq<u32>, int)> {
    if arrayed_resources(s).len() == 0 {
        Some((strip_nops(s), b))
    } else {
        match split_rewritten(s, b) {
            None => None,
            Some(r) => if !anchors_inside(s, r.0, r.1) {
                None
            } else {
                let w = inserted(s, r.0, Seq::empty(), r.1)->Some_0;
                let sets = r.3;
                if !(fits_in_memory(w) && tiles(w) && idxs_reach(w, op_starts(w, spv::SPV_INSTRUCTION_OP_DECORATE as int), 3)
                    && corrections_fit(w, sets)) {
                    None
                } else {
                    let x = corrected_stream(w, sets);
                    if !(fits_in_memory(x) && tiles(x)) {
                        None
                    } else {
                        Some((strip_nops(x), r.2))
                    }
                }
            },
        }
    }
}

/// The corrections `m` holds at a set and binding, none when it has no entry there.
pub open spec fn recorded_at(m: CorrectionsView, set: u32, binding: u32) -> Seq<CorrectionType> {
    if m.contains_key(set) && m[set].contains_key(binding) {
        m[set][binding]
    } else {
        Seq::empty()
    }
}

/// Recording affected decorations that all copy the resource `id`, whose set and binding
/// are `slot`, appends one correction of their kind per decoration at `slot`.
proof fn lemma_repeated_corrections(
    s: Seq<u32>,
    decs: Seq<usize>,
    affected: Seq<AffectedDecoration>,
    m: CorrectionsView,
    k: int,
    id: u32,
    slot: (u32, u32),
)
    requires
        1 <= k <= affected.len(),
        forall|j: int| 0 <= j < affected.len() ==> (#[trigger] affected[j]).original_res_id == id
            && affected[j].correction_type == CorrectionType::SplitBindingArray,
        affected_slot(s, decs, AffectedDecoration {
            original_res_id: id,
            new_res_id: id,
            correction_type: CorrectionType::SplitBindingArray,
        }) == Some(slot),
    ensures
        affected_corrections(s, decs, affected, m, k).contains_key(slot.0),
        affected_corrections(s, decs, affected, m, k)[slot.0].contains_key(slot.1),
        recorded_at(affected_corrections(s, decs, affected, m, k), slot.0, slot.1)
            == recorded_at(m, slot.0, slot.1) + Seq::new(k as nat, |i: int| CorrectionType::SplitBindingArray),
    decreases k,
{
    let a = affected[k - 1];
    assert(affected_slot(s, decs, a) == Some(slot));
    let prev = affected_corrections(s, decs, affected, m, k - 1);
    if k > 1 {
        lemma_repeated_corrections(s, decs, affected, m, k - 1, id, slot);
    }
    let next = recorded(prev, slot.0, slot.1, CorrectionType::SplitBindingArray);
    assert(affected_corrections(s, decs, affected, m, k) == next);
    assert(recorded_at(next, slot.0, slot.1) == recorded_at(prev, slot.0, slot.1).push(CorrectionType::SplitBindingArray));
    if k == 1 {
        assert(prev == m);
    }
    assert(recorded_at(m, slot.0, slot.1) + Seq::new(k as nat, |i: int| CorrectionType::SplitBindingArray)
        =~= (recorded_at(m, slot.0, slot.1) + Seq::new((k - 1) as nat, |i: int| CorrectionType::SplitBindingArray))
            .push(CorrectionType::SplitBindingArray));
}

/// For an `N` sized binding array variable, splitting asks for `N-1` corrections of kind
/// `SplitBindingArray` at the array's set and binding: in a module whose only binding array
/// is such a variable, with `N` at least two, the corrections recorded there are those there
/// before followed by `N-1` of that kind.
pub proof fn lemma_split_corrections_of_one_array(s: Seq<u32>, m: CorrectionsView)
    requires
        arrayed_resources(s).len() == 1,
        !op_at_is_parameter(s, arrayed_resources(s)[0].0),
        split_lengths(s)[0] >= 2,
        affected_slot(s, op_starts(s, spv::SPV_INSTRUCTION_OP_DECORATE as int), AffectedDecoration {
            original_res_id: s[arrayed_resources(s)[0].0 + 2],
            new_res_id: s[arrayed_resources(s)[0].0 + 2],
            correction_type: CorrectionType::SplitBindingArray,
        }) is Some,
    ensures
        ({
            let decs = op_starts(s, spv::SPV_INSTRUCTION_OP_DECORATE as int);
            let id = s[arrayed_resources(s)[0].0 + 2];
            let slot = affected_slot(s, decs, AffectedDecoration {
                original_res_id: id,
                new_res_id: id,
                correction_type: CorrectionType::SplitBindingArray,
            })->0;
            let requests = split_requests(s);
            let n = split_lengths(s)[0];
            &&& requests.len() == n - 1
            &&& recorded_at(affected_corrections(s, decs, requests, m, requests.len() as int), slot.0, slot.1)
                == recorded_at(m, slot.0, slot.1) + Seq::new((n - 1) as nat, |i: int| CorrectionType::SplitBindingArray)
        }),
{
    let decs = op_starts(s, spv::SPV_INSTRUCTION_OP_DECORATE as int);
    let arrayed = arrayed_resources(s);
    let id = s[arrayed[0].0 + 2];
    let slot = affected_slot(s, decs, AffectedDecoration {
        original_res_id: id,
        new_res_id: id,
        correction_type: CorrectionType::SplitBindingArray,
    })->0;
    let requests = split_requests(s);
    let zeros = Seq::new(arrayed.len(), |k: int| 0u32);
    let n = split_lengths(s)[0];
    assert(split_affected(s, arrayed, split_lengths(s), zeros, 0) =~= Seq::<AffectedDecoration>::empty());
    assert(requests =~= element_affected(s, arrayed[0], n, 0u32));
    lemma_repeated_corrections(s, decs, requests, m, requests.len() as int, id, slot);
}

/// The offset of the last `OpTypeInt` or `OpTypePointer`, after which the new declarations go.
fn types_header_position(ints: &Vec<usize>, pointers: &Vec<usize>) -> (r: usize)
    requires
        ints@.len() > 0 || pointers@.len() > 0,
    ensures
        (ints@.len() > 0 && r == ints@.last()) || (pointers@.len() > 0 && r == pointers@.last()),
        r == types_anchor(ints@, pointers@),
{
    if ints.len() == 0 {
        pointers[pointers.len() - 1]
    } else if pointers.len() == 0 || pointers[pointers.len() - 1] < ints[ints.len() - 1] {
        ints[ints.len() - 1]
    } else {
        pointers[pointers.len() - 1]
    }
}

/// The lengths of the binding arrays.
fn array_lengths(spv: &[u32], constants: &Vec<usize>, arrayed: &Vec<ArrayedEntry>) -> (r: Vec<u32>)
    requires
        constants@ == op_starts(spv@, spv::SPV_INSTRUCTION_OP_CONSTANT as int),
        idxs_reach(spv@, constants@, 3),
        forall|j: int| 0 <= j < arrayed@.len() ==> (#[trigger] arrayed@[j]).1 + 3 < spv@.len(),
        forall|j: int| 0 <= j < arrayed@.len() ==> array_length(spv@, (#[trigger] arrayed@[j]).1) is Some,
    ensures
        r@ == Seq::new(arrayed@.len(), |k: int| array_length(spv@, arrayed@[k].1)->0),
{
    let mut out: Vec<u32> = Vec::new();
    let mut k: usize = 0;
    while k < arrayed.len()
        invariant
            k <= arrayed@.len(),
            constants@ == op_starts(spv@, spv::SPV_INSTRUCTION_OP_CONSTANT as int),
            idxs_reach(spv@, constants@, 3),
            forall|j: int| 0 <= j < arrayed@.len() ==> (#[trigger] arrayed@[j]).1 + 3 < spv@.len(),
            forall|j: int| 0 <= j < arrayed@.len() ==> array_length(spv@, (#[trigger] arrayed@[j]).1) is Some,
            out@ == Seq::new(k as nat, |q: int| array_length(spv@, arrayed@[q].1)->0),
        decreases arrayed@.len() - k,
    {
        assert(arrayed@[k as int].1 + 3 < spv@.len());
        assert(array_length(spv@, arrayed@[k as int].1) is Some);
        let length = find_array_length(spv, constants, arrayed[k].1).unwrap();
        out.push(length);
        proof {
            assert(out@ =~= Seq::new((k + 1) as nat, |q: int| array_length(spv@, arrayed@[q].1)->0));
        }
        k = k + 1;
    }
    out
}

/// Whether a module body (the words after the header) is ready for splitting: see
/// `split_ready`.
pub fn is_split_ready(spv: &[u32]) -> (r: bool)
    requires
        wf_stream(spv@),
    ensures
        r == split_ready(spv@),
{
    let ghost s = spv@;
    proof {
        lemma_tiles_terminates(s, 0);
        lemma_op_starts_reach(s, spv::SPV_INSTRUCTION_OP_TYPE_INT as int);
        lemma_op_starts_reach(s, spv::SPV_INSTRUCTION_OP_TYPE_ARRAY as int);
        lemma_op_starts_reach(s, spv::SPV_INSTRUCTION_OP_TYPE_POINTER as int);
        lemma_op_starts_reach(s, spv::SPV_INSTRUCTION_OP_TYPE_IMAGE as int);
        lemma_op_starts_reach(s, spv::SPV_INSTRUCTION_OP_TYPE_SAMPLER as int);
        lemma_op_starts_reach(s, spv::SPV_INSTRUCTION_OP_CONSTANT as int);
        lemma_op_starts_reach(s, spv::SPV_INSTRUCTION_OP_VARIABLE as int);
        lemma_op_starts_reach(s, spv::SPV_INSTRUCTION_OP_FUNCTION_PARAMETER as int);
        lemma_array_pointers_reach(s);
        lemma_arrayed_inside(s);
    }
    let ints = instruction_idxs(spv, spv::SPV_INSTRUCTION_OP_TYPE_INT);
    let arrays = instruction_idxs(spv, spv::SPV_INSTRUCTION_OP_TYPE_ARRAY);
    let pointers = instruction_idxs(spv, spv::SPV_INSTRUCTION_OP_TYPE_POINTER);
    let images = instruction_idxs(spv, spv::SPV_INSTRUCTION_OP_TYPE_IMAGE);
    let samplers = instruction_idxs(spv, spv::SPV_INSTRUCTION_OP_TYPE_SAMPLER);
    let constants = instruction_idxs(spv, spv::SPV_INSTRUCTION_OP_CONSTANT);
    let variables = instruction_idxs(spv, spv::SPV_INSTRUCTION_OP_VARIABLE);
    let parameters = instruction_idxs(spv, spv::SPV_INSTRUCTION_OP_FUNCTION_PARAMETER);
    if ints.len() == 0 && pointers.len() == 0 {
        return false;
    }
    let aps = find_array_pointers(spv, &pointers, &arrays, &images, &samplers);
    if has_nested_arrays(spv, &arrays, &aps) {
        return false;
    }
    let arrayed = find_arrayed_resources(spv, &variables, &parameters, &aps);
    let mut k: usize = 0;
    while k < arrayed.len()
        invariant
            s == spv@,
            wf_stream(s),
            terminates_from(s, 0),
            arrayed@ == arrayed_resources(s),
            constants@ == op_starts(s, spv::SPV_INSTRUCTION_OP_CONSTANT as int),
            idxs_reach(s, constants@, 3),
            forall|j: int| 0 <= j < arrayed_resources(s).len() ==> {
                let e = #[trigger] arrayed_resources(s)[j];
                &&& e.0 + 2 < s.len()
                &&& e.1 + 3 < s.len()
            },
            k <= arrayed@.len(),
            forall|j: int| 0 <= j < k ==> array_length(s, (#[trigger] arrayed@[j]).1) is Some,
            forall|j: int| 0 <= j < k ==> op_at_is_parameter(s, (#[trigger] arrayed@[j]).0)
                ==> enclosing_function(s, arrayed@[j].0) is Some,
        decreases arrayed@.len() - k,
    {
        let (vfp, ta, _) = arrayed[k];
        assert(arrayed_resources(s)[k as int].1 + 3 < s.len());
        if find_array_length(spv, &constants, ta).is_none() {
            return false;
        }
        if crate::util::loword(spv[vfp]) != spv::SPV_INSTRUCTION_OP_VARIABLE
            && crate::util::function::get_enclosing_function_index(spv, vfp).is_none() {
            return false;
        }
        k = k + 1;
    }
    true
}

/// Perform the operation on a `Vec<u32>`.
/// Use [u8_slice_to_u32_vec] to convert a `&[u8]` into a `Vec<u32>`.
///
/// Splits each binding array variable or parameter into one variable or parameter per element:
/// accesses become switches over the index, calls pass the elements, and the first element
/// keeps the array's decorations. For an `N` sized array, `N-1` corrections of its binding are
/// recorded. The only opaque types an array may hold are images and samplers.
#[verifier::rlimit(60)]
pub fn splitbindingarray(in_spv: &[u32], corrections: &mut CorrectionMap) -> (r: Result<Vec<u32>, ()>)
    requires
        in_spv@.len() >= spv::SPV_HEADER_LENGTH,
        in_spv@[spv::SPV_HEADER_MAGIC_NUM_OFFSET as int] == spv::SPV_HEADER_MAGIC,
        wf_stream(body_of(in_spv@)),
        split_ready(body_of(in_spv@)),
    ensures
        final(corrections).immediates_set == old(corrections).immediates_set,
        final(corrections).immediates_set_mode == old(corrections).immediates_set_mode,
        arrayed_resources(body_of(in_spv@)).len() == 0 ==> {
            &&& (r matches Ok(out) && out@ == in_spv@.subrange(0, spv::SPV_HEADER_LENGTH as int)
                + strip_nops(body_of(in_spv@)))
            &&& *final(corrections) == *old(corrections)
        },
        r is Ok ==> {
            let s = body_of(in_spv@);
            let decs = op_starts(s, spv::SPV_INSTRUCTION_OP_DECORATE as int);
            let requests = split_requests(s);
            &&& sets_view(final(corrections).sets)
                == affected_corrections(s, decs, requests, sets_view(old(corrections).sets), requests.len() as int)
            &&& (final(corrections).sets is Some) == (old(corrections).sets is Some
                || affected_sets(s, decs, requests, requests.len() as int) != Set::<u32>::empty())
        },
        ({
            let x = split_result(body_of(in_spv@), in_spv@[spv::SPV_HEADER_INSTRUCTION_BOUND_OFFSET as int] as int);
            &&& r is Ok <==> x is Some
            &&& r matches Ok(out) ==> x->Some_0.1 <= u32::MAX && out@ == in_spv@.subrange(0, spv::SPV_HEADER_LENGTH as int)
                .update(spv::SPV_HEADER_INSTRUCTION_BOUND_OFFSET as int, x->Some_0.1 as u32) + x->Some_0.0
        }),
        r matches Ok(out) ==> out@.len() >= spv::SPV_HEADER_LENGTH
            && out@.subrange(0, spv::SPV_HEADER_LENGTH as int) == in_spv@.subrange(0, spv::SPV_HEADER_LENGTH as int).update(
                spv::SPV_HEADER_INSTRUCTION_BOUND_OFFSET as int, out@[spv::SPV_HEADER_INSTRUCTION_BOUND_OFFSET as int])
            && out@[spv::SPV_HEADER_INSTRUCTION_BOUND_OFFSET as int] >= in_spv@[spv::SPV_HEADER_INSTRUCTION_BOUND_OFFSET as int],
{
    let ghost s = body_of(in_spv@);
    let mut instruction_bound = in_spv[spv::SPV_HEADER_INSTRUCTION_BOUND_OFFSET];
    let ghost b0 = instruction_bound as int;
    let spv_header = vstd::slice::slice_to_vec(slice_subrange(in_spv, 0, spv::SPV_HEADER_LENGTH));
    let spv = vstd::slice::slice_to_vec(slice_subrange(in_spv, spv::SPV_HEADER_LENGTH, in_spv.len()));
    assert(spv@ == s);
    let mut new_spv = vstd::slice::slice_to_vec(slice_subrange(in_spv, spv::SPV_HEADER_LENGTH, in_spv.len()));

    // 1. Find the instructions we need
    proof {
        lemma_tiles_terminates(s, 0);
        lemma_op_starts_reach(s, spv::SPV_INSTRUCTION_OP_TYPE_INT as int);
        lemma_op_starts_reach(s, spv::SPV_INSTRUCTION_OP_TYPE_ARRAY as int);
        lemma_op_starts_reach(s, spv::SPV_INSTRUCTION_OP_TYPE_POINTER as int);
        lemma_op_starts_reach(s, spv::SPV_INSTRUCTION_OP_TYPE_IMAGE as int);
        lemma_op_starts_reach(s, spv::SPV_INSTRUCTION_OP_TYPE_SAMPLER as int);
        lemma_op_starts_reach(s, spv::SPV_INSTRUCTION_OP_CONSTANT as int);
        lemma_op_starts_reach(s, spv::SPV_INSTRUCTION_OP_VARIABLE as int);
        lemma_op_starts_reach(s, spv::SPV_INSTRUCTION_OP_FUNCTION_PARAMETER as int);
        lemma_op_starts_reach(s, spv::SPV_INSTRUCTION_OP_FUNCTION as int);
        lemma_op_starts_reach(s, spv::SPV_INSTRUCTION_OP_DECORATE as int);
        lemma_op_starts_reach(s, spv::SPV_INSTRUCTION_OP_NAME as int);
        lemma_op_starts_reach(s, spv::SPV_INSTRUCTION_OP_LOAD as int);
        lemma_op_starts_reach(s, spv::SPV_INSTRUCTION_OP_SAMPLED_IMAGE as int);
        lemma_listed_inside(s, spv::SPV_INSTRUCTION_OP_TYPE_FUNCTION as int);
        lemma_listed_inside(s, spv::SPV_INSTRUCTION_OP_ACCESS_CHAIN as int);
        lemma_listed_inside(s, spv::SPV_INSTRUCTION_OP_IN_BOUNDS_ACCESS_CHAIN as int);
        lemma_listed_inside(s, spv::SPV_INSTRUCTION_OP_LOAD as int);
        lemma_listed_inside(s, spv::SPV_INSTRUCTION_OP_STORE as int);
        lemma_listed_inside(s, spv::SPV_INSTRUCTION_OP_COPY_MEMORY as int);
        lemma_listed_inside(s, spv::SPV_INSTRUCTION_OP_FUNCTION_CALL as int);
        lemma_listed_inside(s, spv::SPV_INSTRUCTION_OP_DECORATE as int);
        lemma_listed_inside(s, spv::SPV_INSTRUCTION_OP_NAME as int);
    }
    let op_type_int_idxs = instruction_idxs(&spv, spv::SPV_INSTRUCTION_OP_TYPE_INT);
    let op_type_array_idxs = instruction_idxs(&spv, spv::SPV_INSTRUCTION_OP_TYPE_ARRAY);
    let op_type_pointer_idxs = instruction_idxs(&spv, spv::SPV_INSTRUCTION_OP_TYPE_POINTER);
    let op_type_image_idxs = instruction_idxs(&spv, spv::SPV_INSTRUCTION_OP_TYPE_IMAGE);
    let op_type_sampler_idxs = instruction_idxs(&spv, spv::SPV_INSTRUCTION_OP_TYPE_SAMPLER);
    let op_constant_idxs = instruction_idxs(&spv, spv::SPV_INSTRUCTION_OP_CONSTANT);
    let op_variable_idxs = instruction_idxs(&spv, spv::SPV_INSTRUCTION_OP_VARIABLE);
    let op_access_chain_idxs = instruction_idxs(&spv, spv::SPV_INSTRUCTION_OP_ACCESS_CHAIN);
    let op_in_bounds_access_chain_idxs = instruction_idxs(&spv, spv::SPV_INSTRUCTION_OP_IN_BOUNDS_ACCESS_CHAIN);
    let op_load_idxs = instruction_idxs(&spv, spv::SPV_INSTRUCTION_OP_LOAD);
    let op_store_idxs = instruction_idxs(&spv, spv::SPV_INSTRUCTION_OP_STORE);
    let op_copy_memory_idxs = instruction_idxs(&spv, spv::SPV_INSTRUCTION_OP_COPY_MEMORY);
    let op_type_function_idxs = instruction_idxs(&spv, spv::SPV_INSTRUCTION_OP_TYPE_FUNCTION);
    let op_function_parameter_idxs = instruction_idxs(&spv, spv::SPV_INSTRUCTION_OP_FUNCTION_PARAMETER);
    let op_function_call_idxs = instruction_idxs(&spv, spv::SPV_INSTRUCTION_OP_FUNCTION_CALL);
    let op_decorate_idxs = instruction_idxs(&spv, spv::SPV_INSTRUCTION_OP_DECORATE);
    let op_name_idxs = instruction_idxs(&spv, spv::SPV_INSTRUCTION_OP_NAME);
    let op_sampled_image_idxs = instruction_idxs(&spv, spv::SPV_INSTRUCTION_OP_SAMPLED_IMAGE);

    // 2. OpTypeArray -> OpTypePointer -> OpVariable / OpFunctionParameter
    let array_pointers = find_array_pointers(&spv, &op_type_pointer_idxs, &op_type_array_idxs, &op_type_image_idxs,
        &op_type_sampler_idxs);
    proof {
        lemma_array_pointers_reach(s);
        lemma_arrayed_inside(s);
    }
    let arrayed = find_arrayed_resources(&spv, &op_variable_idxs, &op_function_parameter_idxs, &array_pointers);
    assert(arrayed@ == arrayed_resources(s));
    if arrayed.len() == 0 {
        prune_noops(&mut new_spv);
        let out = fuse_final(spv_header, new_spv, instruction_bound);
        assert(out@ =~= in_spv@.subrange(0, spv::SPV_HEADER_LENGTH as int) + strip_nops(s));
        assert(in_spv@.subrange(0, spv::SPV_HEADER_LENGTH as int).update(spv::SPV_HEADER_INSTRUCTION_BOUND_OFFSET as int,
            b0 as u32) =~= in_spv@.subrange(0, spv::SPV_HEADER_LENGTH as int));
        return Ok(out);
    }

    // 3. Build the lengths
    let lengths = array_lengths(&spv, &op_constant_idxs, &arrayed);
    assert(lengths@ =~= split_lengths(s));

    // 4. Unroll array variables
    let types_header_position = types_header_position(&op_type_int_idxs, &op_type_pointer_idxs);
    let mut types_header: Vec<u32> = Vec::new();
    let mut instruction_inserts: Vec<InstructionInsert> = Vec::new();
    let mut affected_decorations: Vec<AffectedDecoration> = Vec::new();
    let mut function_type_changes: Vec<FunctionTypeChange> = Vec::new();
    assert(insert_views(instruction_inserts@) =~= Seq::<InsertView>::empty());
    assert(new_spv@ == s);
    let bases = match unroll_arrays(&spv, &mut new_spv, &mut instruction_bound, &mut types_header,
        &mut instruction_inserts, &mut affected_decorations, &mut function_type_changes, &arrayed, &lengths,
        &op_type_pointer_idxs, &op_decorate_idxs, &op_name_idxs) {
        Ok(bases) => bases,
        Err(e) => {
            assert(split_rewritten(s, b0) is None);
            return Err(e);
        },
    };
    let ghost u = unrolled(s, op_type_pointer_idxs@, op_decorate_idxs@, op_name_idxs@, arrayed@, lengths@,
        (Seq::empty(), b0, s, Seq::empty(), Seq::empty(), Seq::empty()), arrayed@.len() as int)->Some_0;
    assert(bases@ == u.0 && instruction_bound == u.1 && new_spv@ == u.2 && types_header@ == u.3
        && insert_views(instruction_inserts@) == u.4 && function_type_changes@ == u.5);
    assert(affected_decorations@ =~= split_affected(s, arrayed@, lengths@, bases@, arrayed@.len() as int));

    // 5. Change affected OpTypeFunction
    match rewrite_function_types(&spv, &mut new_spv, &mut types_header, &op_type_function_idxs, &function_type_changes) {
        Ok(()) => {},
        Err(e) => {
            assert(split_rewritten(s, b0) is None);
            return Err(e);
        },
    }
    let ghost f = function_types_rewritten(s, u.2, u.3, op_type_function_idxs@, u.5, op_type_function_idxs@.len() as int)->Some_0;
    assert(new_spv@ == f.0 && types_header@ == f.1);

    let mut access_chain_idxs = op_access_chain_idxs.clone();
    let mut more = op_in_bounds_access_chain_idxs.clone();
    access_chain_idxs.append(&mut more);
    proof {
        let a = op_access_chain_idxs@;
        let b = op_in_bounds_access_chain_idxs@;
        assert forall|j: int| 0 <= j < access_chain_idxs@.len() implies #[trigger] access_chain_idxs@[j] + 4 < s.len()
            && access_chain_idxs@[j] + wc_at(s, access_chain_idxs@[j] as int) <= s.len() by {
            if j < a.len() {
                assert(access_chain_idxs@[j] == a[j]);
            } else {
                assert(access_chain_idxs@[j] == b[j - a.len()]);
            }
        }
    }
    assert(access_chain_idxs@ =~= op_access_chain_idxs@ + op_in_bounds_access_chain_idxs@);
    let accesses = find_array_accesses(&spv, &access_chain_idxs, &arrayed);
    assert(accesses@ == split_accesses(s));
    proof {
        assert forall|j: int| 0 <= j < accesses@.len() implies (#[trigger] accesses@[j]).0 + 4 < s.len()
            && accesses@[j].0 + wc_at(s, accesses@[j].0 as int) <= s.len() && accesses@[j].1 < arrayed@.len() by {
            let q = choose|q: int| 0 <= q < access_chain_idxs@.len() && access_chain_idxs@[q] == accesses@[j].0;
            assert(access_chain_idxs@[q] + 4 < s.len());
        }
    }

    // 6. Trace array samplers into a map
    let arrayed_sampler_map = find_arrayed_samplers(&spv, &accesses, &arrayed, &op_load_idxs, &op_sampled_image_idxs);

    // 7. Replace OpAccessChain with selection
    let mut dependents = op_load_idxs.clone();
    let mut more = op_store_idxs.clone();
    dependents.append(&mut more);
    let mut more = op_access_chain_idxs.clone();
    dependents.append(&mut more);
    let mut more = op_in_bounds_access_chain_idxs.clone();
    dependents.append(&mut more);
    let mut more = op_copy_memory_idxs.clone();
    dependents.append(&mut more);
    proof {
        let l = op_load_idxs@;
        let st = op_store_idxs@;
        let a = op_access_chain_idxs@;
        let b = op_in_bounds_access_chain_idxs@;
        let c = op_copy_memory_idxs@;
        assert(dependents@ =~= l + st + a + b + c);
        assert forall|j: int| 0 <= j < dependents@.len() implies (#[trigger] dependents@[j]) + 2 < s.len()
            && dependents@[j] + wc_at(s, dependents@[j] as int) <= s.len() by {
            if j < l.len() {
                assert(dependents@[j] == l[j]);
            } else if j < l.len() + st.len() {
                assert(dependents@[j] == st[j - l.len()]);
            } else if j < l.len() + st.len() + a.len() {
                assert(dependents@[j] == a[j - l.len() - st.len()]);
            } else if j < l.len() + st.len() + a.len() + b.len() {
                assert(dependents@[j] == b[j - l.len() - st.len() - a.len()]);
            } else {
                assert(dependents@[j] == c[j - l.len() - st.len() - a.len() - b.len()]);
            }
        }
    }
    let sampler_type = if op_type_sampler_idxs.len() > 0 { Some(spv[op_type_sampler_idxs[0] + 1]) } else { None };
    assert(sampler_type == split_sampler_type(s));
    assert(dependents@ == split_dependents(s));
    match rewrite_accesses(&spv, &mut new_spv, &mut instruction_bound, &mut instruction_inserts, &accesses, &arrayed,
        &lengths, &bases, &op_load_idxs, &dependents, &arrayed_sampler_map, sampler_type) {
        Ok(()) => {},
        Err(e) => {
            assert(split_rewritten(s, b0) is None);
            return Err(e);
        },
    }
    let ghost a = accesses_rewritten(s, accesses@, arrayed@, lengths@, bases@, op_load_idxs@, dependents@,
        arrayed_sampler_map@, sampler_type, (f.0, u.1, u.4), accesses@.len() as int)->Some_0;
    assert(new_spv@ == a.0 && instruction_bound == a.1 && insert_views(instruction_inserts@) == a.2);

    // 8. Replace all OpFunctionCall references of arrayed resources
    match rewrite_calls(&spv, &mut new_spv, &mut instruction_inserts, &op_function_call_idxs, &arrayed, &lengths,
        &bases) {
        Ok(()) => {},
        Err(e) => {
            assert(split_rewritten(s, b0) is None);
            return Err(e);
        },
    }
    let ghost c = calls_rewritten(s, a.0, a.2, op_function_call_idxs@, arrayed@, lengths@, bases@,
        op_function_call_idxs@.len() as int)->Some_0;
    assert(new_spv@ == c.0 && insert_views(instruction_inserts@) == c.1);
    let ghost c_inserts = instruction_inserts@;

    // 9, 10. Remove the OpDecorate / OpName of array parameters
    nop_unused_targets(&spv, &mut new_spv, &op_decorate_idxs, &arrayed);
    nop_unused_targets(&spv, &mut new_spv, &op_name_idxs, &arrayed);

    // 11. OpDecorate
    let ghost decs = op_decorate_idxs@;
    proof {
        let n = affected_decorations@.len() as int;
        if added_decorations(s, decs, affected_decorations@, n).len() > 0 {
            lemma_added_needs_decoration(s, decs, affected_decorations@, n);
        }
    }
    let first_op_deocrate_idx = if op_decorate_idxs.len() > 0 { Some(op_decorate_idxs[0]) } else { None };
    let mut taken = CorrectionMap { sets: None, immediates_set: None, immediates_set_mode: None };
    core::mem::swap(&mut taken, corrections);
    let ghost m0 = taken;
    let mut wrapped = Some(taken);
    let DecorateOut { descriptor_sets_to_correct } = decorate(DecorateIn {
        spv: spv.as_slice(),
        instruction_inserts: &mut instruction_inserts,
        first_op_deocrate_idx,
        op_decorate_idxs: op_decorate_idxs.as_slice(),
        affected_decorations: affected_decorations.as_slice(),
        corrections: &mut wrapped,
    });
    let mut restored = wrapped.unwrap();
    core::mem::swap(&mut restored, corrections);
    let ghost rw = split_rewritten(s, b0)->Some_0;
    proof {
        let added = added_decorations(s, decs, affected_decorations@, affected_decorations@.len() as int);
        let want = c.1 + Seq::new(added.len(), |j: int| (decs[0], added[j]));
        assert(instruction_inserts@.len() == c_inserts.len() + added.len());
        assert(insert_views(c_inserts) == c.1);
        assert forall|i: int| 0 <= i < want.len() implies #[trigger] insert_views(instruction_inserts@)[i] == want[i] by {
            if i < c_inserts.len() {
                assert(instruction_inserts@[i] == c_inserts[i]);
                assert(insert_views(c_inserts)[i] == c.1[i]);
            } else {
                let k = i - c_inserts.len();
                let ins = instruction_inserts@[c_inserts.len() + k];
                assert(ins.instruction@ == added[k]);
                assert(first_op_deocrate_idx is Some);
                assert(ins.previous_spv_idx == decs[0]);
            }
        }
        assert(insert_views(instruction_inserts@) =~= want);
    }
    proof {
        let requests = split_requests(s);
        let n = arrayed@.len() as int;
        assert(arrayed@ == arrayed_resources(s));
        assert(lengths@ =~= split_lengths(s));
        lemma_split_affected_slots(s, arrayed@, lengths@, bases@, Seq::new(arrayed@.len(), |k: int| 0u32), n);
        lemma_same_slots(s, decs, affected_decorations@, requests, sets_view(m0.sets), affected_decorations@.len() as int);
    }

    // 12. Insert New Instructions
    let ghost before_header = insert_views(instruction_inserts@);
    let ghost header_words = types_header@;
    instruction_inserts.insert(0, InstructionInsert { previous_spv_idx: types_header_position, instruction: types_header });
    assert(insert_views(instruction_inserts@) =~= seq![(types_header_position, header_words)] + before_header);
    assert(new_spv@ == rw.0 && insert_views(instruction_inserts@) == rw.1 && instruction_bound == rw.2);
    assert(descriptor_sets_to_correct@ == rw.3);
    if !check_anchors(spv.as_slice(), &new_spv, &instruction_inserts) {
        return Err(());
    }
    proof {
        assert(insert_views(instruction_inserts@).len() == instruction_inserts.len());
        lemma_inserted_some(s, new_spv@, insert_views(instruction_inserts@));
    }
    let no_words: Vec<WordInsert> = Vec::new();
    assert(no_words@ =~= Seq::<WordInsert>::empty());
    insert_new_instructions(spv.as_slice(), &mut new_spv, no_words.as_slice(), instruction_inserts.as_slice());

    // 13. Correct OpDecorate Bindings
    if !is_tiled(new_spv.as_slice()) {
        return Err(());
    }
    proof {
        lemma_tiles_terminates(new_spv@, 0);
    }
    let new_decorate_idxs = instruction_idxs(new_spv.as_slice(), spv::SPV_INSTRUCTION_OP_DECORATE);
    if !check_idxs_reach(new_spv.as_slice(), new_decorate_idxs.as_slice(), 3) {
        return Err(());
    }
    if !check_corrections_fit(new_spv.as_slice(), &descriptor_sets_to_correct) {
        return Err(());
    }
    correct_decorate(CorrectDecorateIn { new_spv: new_spv.as_mut_slice(), descriptor_sets_to_correct });
    if !is_tiled(new_spv.as_slice()) {
        return Err(());
    }
    prune_noops(&mut new_spv);

    // 14. Write New Header and New Code
    let out = fuse_final(spv_header, new_spv, instruction_bound);
    assert(out@.subrange(0, spv::SPV_HEADER_LENGTH as int) =~= in_spv@.subrange(0, spv::SPV_HEADER_LENGTH as int).update(
        spv::SPV_HEADER_INSTRUCTION_BOUND_OFFSET as int, out@[spv::SPV_HEADER_INSTRUCTION_BOUND_OFFSET as int]));
    assert(out@[spv::SPV_HEADER_INSTRUCTION_BOUND_OFFSET as int] == instruction_bound);
    Ok(out)
}

} // verus!
