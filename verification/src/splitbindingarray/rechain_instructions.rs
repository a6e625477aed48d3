use vstd::prelude::*;

use crate::spv;
use crate::splitbindingarray::inc;
use crate::util::instruction::{
    fits_in_memory, lemma_starts_from_bounds, lemma_starts_step, op_at, starts, starts_from,
    terminates_from,
};
use crate::util::{hiword, loword, spec_hiword, spec_loword};

verus! {

/// Write instructions end a chain without producing a result.
pub open spec fn is_write_op(op: int) -> bool {
    op == spv::SPV_INSTRUCTION_OP_STORE as int || op == spv::SPV_INSTRUCTION_OP_COPY_MEMORY as int
        || op == spv::SPV_INSTRUCTION_OP_IMAGE_WRITE as int
}

/// The last instruction of the snippet produces a result.
pub open spec fn ends_with_result(s: Seq<u32>) -> bool {
    !is_write_op(op_at(s, starts(s).last() as int))
}

/// The number of fresh ids a rechaining takes: one per instruction that produces a result.
pub open spec fn rechain_temps(s: Seq<u32>) -> int {
    if ends_with_result(s) {
        starts(s).len() as int
    } else {
        starts(s).len() - 1
    }
}

/// The id the `j`-th instruction of the chain reads: the target for the first, the previous
/// instruction's fresh result otherwise.
pub open spec fn chain_source(j: int, ib0: u32, target_id: u32) -> u32 {
    if j == 0 {
        target_id
    } else {
        (ib0 + j - 1) as u32
    }
}

/// Rechaining the `j`-th instruction, at offset `off`, of the snippet being patched `v`:
/// an instruction with a result reads the chain source (an `OpSampledImage` in its sampler
/// operand when rotating) and gets the fresh result `ib0 + j`; a final write stores the
/// source, into its pointer operand when flipping and from its object operand otherwise.
/// `None` when a word to patch lies outside the snippet.
pub open spec fn rechain_step(
    v: Seq<u32>,
    off: usize,
    j: int,
    has_result: bool,
    ib0: u32,
    target_id: u32,
    flip_store_into: bool,
    rotate_image_sampler: bool,
) -> Option<Seq<u32>> {
    let src = chain_source(j, ib0, target_id);
    if has_result {
        let operand = if rotate_image_sampler && spec_loword(v[off as int]) == spv::SPV_INSTRUCTION_OP_SAMPLED_IMAGE as int {
            off + 4
        } else {
            off + 3
        };
        if operand < v.len() && off + 2 < v.len() {
            Some(v.update(operand, src).update(off + 2, (ib0 + j) as u32))
        } else {
            None
        }
    } else if flip_store_into {
        if off + 2 < v.len() {
            Some(v.update(off + 2, src))
        } else {
            None
        }
    } else {
        if off + 1 < v.len() {
            Some(v.update(off + 1, src))
        } else {
            None
        }
    }
}

/// The snippet after rechaining its first `k` instructions.
pub open spec fn rechain_prefix(
    s: Seq<u32>,
    k: int,
    ib0: u32,
    target_id: u32,
    flip_store_into: bool,
    rotate_image_sampler: bool,
) -> Option<Seq<u32>>
    decreases k,
{
    if k <= 0 {
        Some(s)
    } else {
        match rechain_prefix(s, k - 1, ib0, target_id, flip_store_into, rotate_image_sampler) {
            Some(v) => rechain_step(v, starts(s)[k - 1], k - 1,
                k - 1 < starts(s).len() - 1 || ends_with_result(s), ib0, target_id, flip_store_into,
                rotate_image_sampler),
            None => None,
        }
    }
}

/// The snippet with all its instructions rechained.
pub open spec fn rechained(
    s: Seq<u32>,
    ib0: u32,
    target_id: u32,
    flip_store_into: bool,
    rotate_image_sampler: bool,
) -> Option<Seq<u32>> {
    rechain_prefix(s, starts(s).len() as int, ib0, target_id, flip_store_into, rotate_image_sampler)
}

//
// Take the any chain of instructions with the following form:
// OpSomething %result_type_id %result_id %input ...
//
// New temp variables are properly chained between instructions.
//
// The final instruction's `[idx+2]` is replaced with `%target_id`
//
// The final instruction can be a write operation.
// Write instructions are specially checked for because they follow a different convention.
// The following are considered valid write instructions:
// OpStore, OpCopyMemory, OpImageWrite
//
// `flip_store_into` specifically changes `%a = %result` to `%result = %a`
// `chain_sampler_over_image` specifically changes OpImageSampled to chain to the sampler.
//
/// Rechains a snippet so that its first instruction reads `target_id` and each following
/// instruction reads its predecessor's fresh result; returns the patched snippet and, when
/// the last instruction produces a result, its result type and fresh result id.
pub fn rechain_instructions_with_target_id(
    ib: &mut u32,
    snippet: &[u32],
    target_id: u32,
    flip_store_into: bool,
    rotate_image_sampler: bool,
) -> (r: (Vec<u32>, Option<(u32, u32)>))
    requires
        snippet@.len() > 0,
        terminates_from(snippet@, 0),
        fits_in_memory(snippet@),
        starts(snippet@).last() + 2 < snippet@.len(),
        rechained(snippet@, *old(ib), target_id, flip_store_into, rotate_image_sampler) is Some,
        *old(ib) + rechain_temps(snippet@) <= u32::MAX,
    ensures
        Some(r.0@) == rechained(snippet@, *old(ib), target_id, flip_store_into, rotate_image_sampler),
        *final(ib) == *old(ib) + rechain_temps(snippet@),
        ends_with_result(snippet@) ==> r.1 == Some((r.0@[starts(snippet@).last() + 1], r.0@[starts(snippet@).last() + 2])),
        !ends_with_result(snippet@) ==> r.1 is None,
{
    let ghost s = snippet@;
    let ghost ib0 = *ib;
    let mut instruction_offsets: Vec<usize> = Vec::new();
    let mut idx: usize = 0;
    let ghost mut done: Seq<usize> = Seq::empty();
    while idx < snippet.len()
        invariant
            s == snippet@,
            fits_in_memory(s),
            terminates_from(s, idx as int),
            done + starts_from(s, idx as int) == starts(s),
            instruction_offsets@ == done,
        decreases s.len() + 0x10000 - idx,
    {
        proof {
            lemma_starts_step(s, idx as int);
        }
        instruction_offsets.push(idx);
        let w = hiword(snippet[idx]);
        proof {
            done = done.push(idx);
            assert(done + starts_from(s, idx + w) =~= starts(s));
        }
        idx = idx + w as usize;
    }
    proof {
        assert(starts_from(s, idx as int) =~= Seq::<usize>::empty());
        assert(instruction_offsets@ =~= starts(s));
        lemma_starts_from_bounds(s, 0);
    }
    let last_j = instruction_offsets.len() - 1;
    let last_off = instruction_offsets[last_j];
    let last_op = loword(snippet[last_off]);
    let returns_result = !(last_op == spv::SPV_INSTRUCTION_OP_STORE || last_op == spv::SPV_INSTRUCTION_OP_COPY_MEMORY
        || last_op == spv::SPV_INSTRUCTION_OP_IMAGE_WRITE);

    let mut patched = vstd::slice::slice_to_vec(snippet);
    let mut current_source = target_id;
    let mut j: usize = 0;
    while j < instruction_offsets.len()
        invariant
            s == snippet@,
            instruction_offsets@ == starts(s),
            last_j == starts(s).len() - 1,
            returns_result == ends_with_result(s),
            j <= instruction_offsets@.len(),
            rechained(s, ib0, target_id, flip_store_into, rotate_image_sampler) is Some,
            ib0 + rechain_temps(s) <= u32::MAX,
            Some(patched@) == rechain_prefix(s, j as int, ib0, target_id, flip_store_into, rotate_image_sampler),
            patched@.len() == s.len(),
            fits_in_memory(s),
            last_off == starts(s)[last_j as int],
            last_off + 2 < s.len(),
            j < instruction_offsets@.len() ==> current_source == chain_source(j as int, ib0, target_id),
            j < instruction_offsets@.len() ==> *ib == ib0 + j,
            j == instruction_offsets@.len() ==> *ib == ib0 + rechain_temps(s),
            j == instruction_offsets@.len() && returns_result ==> current_source == (ib0 + j - 1) as u32,
        decreases instruction_offsets@.len() - j,
    {
        proof {
            lemma_prefix_some(s, j as int + 1, starts(s).len() as int, ib0, target_id, flip_store_into, rotate_image_sampler);
        }
        let off = instruction_offsets[j];
        proof {
            assert(rechain_prefix(s, j + 1, ib0, target_id, flip_store_into, rotate_image_sampler)
                == rechain_step(patched@, off, j as int, j < last_j || returns_result, ib0, target_id,
                    flip_store_into, rotate_image_sampler));
        }
        if j < last_j || returns_result {
            let new_temp = inc(ib);
            if rotate_image_sampler && loword(patched[off]) == spv::SPV_INSTRUCTION_OP_SAMPLED_IMAGE {
                patched.set(off + 4, current_source);
            } else {
                patched.set(off + 3, current_source);
            }
            patched.set(off + 2, new_temp);
            current_source = new_temp;
        } else if flip_store_into {
            patched.set(off + 2, current_source);
        } else {
            patched.set(off + 1, current_source);
        }
        j = j + 1;
    }

    let underlying_type_and_target = (patched[last_off + 1], patched[last_off + 2]);

    (patched, if returns_result { Some(underlying_type_and_target) } else { None })
}

/// A rechaining that succeeds for all instructions succeeds for each prefix of them.
pub proof fn lemma_prefix_some(
    s: Seq<u32>,
    k: int,
    n: int,
    ib0: u32,
    target_id: u32,
    flip: bool,
    rotate: bool,
)
    requires
        0 <= k <= n,
        rechain_prefix(s, n, ib0, target_id, flip, rotate) is Some,
    ensures
        rechain_prefix(s, k, ib0, target_id, flip, rotate) is Some,
    decreases n - k,
{
    if k < n {
        lemma_prefix_some(s, k + 1, n, ib0, target_id, flip, rotate);
    }
}

// Intended to run alongside the previous function with the same snippet properties.
// If the last instruction is not an expected store operation, return the final result type and id.
/// The result type and id of the snippet's last instruction, unless it is a write.
pub fn get_last_instruction_result_type_and_id(snippet: &[u32]) -> (r: Option<(u32, u32)>)
    requires
        snippet@.len() > 0,
        terminates_from(snippet@, 0),
        fits_in_memory(snippet@),
        ends_with_result(snippet@) ==> starts(snippet@).last() + 2 < snippet@.len(),
    ensures
        ends_with_result(snippet@) ==> r == Some((snippet@[starts(snippet@).last() + 1], snippet@[starts(snippet@).last() + 2])),
        !ends_with_result(snippet@) ==> r is None,
{
    let last_off = crate::util::instruction::get_last_instruction_index(snippet);
    proof {
        lemma_starts_from_bounds(snippet@, 0);
    }
    let last_op = loword(snippet[last_off]);
    let returns_result = !(last_op == spv::SPV_INSTRUCTION_OP_STORE || last_op == spv::SPV_INSTRUCTION_OP_COPY_MEMORY
        || last_op == spv::SPV_INSTRUCTION_OP_IMAGE_WRITE);
    if returns_result {
        Some((snippet[last_off + 1], snippet[last_off + 2]))
    } else {
        None
    }
}

} // verus!
