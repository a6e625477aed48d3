use vstd::prelude::*;

use crate::spv;
use crate::util::{hiword, spec_hiword, InstructionInsert};

verus! {

// For storage textures the decorations of a cloned variable are copied to the clone. For
// WebGPU, copying `OpDecorate` is enough, and only some of these decorations matter there.

/// The decorations that a clone takes over from the variable it was cloned from.
pub open spec fn is_copied_decoration(decoration: u32) -> bool {
    ||| decoration == spv::SPV_DECORATION_NON_WRITABLE
    ||| decoration == spv::SPV_DECORATION_NON_READABLE
    ||| decoration == spv::SPV_DECORATION_COHERENT
    ||| decoration == spv::SPV_DECORATION_VOLATILE
    ||| decoration == spv::SPV_DECORATION_RESTRICT
    ||| decoration == spv::SPV_DECORATION_ALIASED
    ||| decoration == spv::SPV_DECORATION_RELAXED_PRECISION
}

fn copies_decoration(decoration: u32) -> (r: bool)
    ensures
        r == is_copied_decoration(decoration),
{
    decoration == spv::SPV_DECORATION_NON_WRITABLE || decoration == spv::SPV_DECORATION_NON_READABLE
        || decoration == spv::SPV_DECORATION_COHERENT || decoration == spv::SPV_DECORATION_VOLATILE
        || decoration == spv::SPV_DECORATION_RESTRICT || decoration == spv::SPV_DECORATION_ALIASED
        || decoration == spv::SPV_DECORATION_RELAXED_PRECISION
}

/// The `OpDecorate` at `idx` decorates `old_id` with a decoration that is copied.
pub open spec fn copied_from(s: Seq<u32>, idx: usize, old_id: u32) -> bool {
    s[idx + 1] == old_id && is_copied_decoration(s[idx + 2])
}

/// The listed decorations that are copied, in list order.
pub open spec fn copy_sources(s: Seq<u32>, idxs: Seq<usize>, old_id: u32) -> Seq<usize> {
    idxs.filter(|idx: usize| copied_from(s, idx, old_id))
}

/// The decoration at `idx`, applied to `new_id` instead.
pub open spec fn decoration_copy(s: Seq<u32>, idx: usize, new_id: u32) -> Seq<u32> {
    s.subrange(idx as int, idx + spec_hiword(s[idx as int])).update(1, new_id)
}

/// Every listed decoration has its target and decoration words, and those that are copied
/// lie whole inside the stream with at least a target word.
pub open spec fn copy_readable(s: Seq<u32>, idxs: Seq<usize>, old_id: u32) -> bool {
    forall|j: int| 0 <= j < idxs.len() ==> {
        &&& #[trigger] idxs[j] + 2 < s.len()
        &&& copied_from(s, idxs[j], old_id) ==> 2 <= spec_hiword(s[idxs[j] as int])
            && idxs[j] + spec_hiword(s[idxs[j] as int]) <= s.len()
    }
}

pub struct CopyDecorateIn<'a> {
    pub spv: &'a [u32],
    pub op_decorate_idxs: &'a [usize],
    pub instruction_inserts: &'a mut Vec<InstructionInsert>,
    pub old_id: u32,
    pub new_id: u32,
}

/// Queues a copy, for `new_id`, of each listed decoration of `old_id` that a clone takes
/// over. All copies go right after the first decoration copied, in list order.
pub fn copy_decorate(cd_in: CopyDecorateIn)
    requires
        copy_readable(cd_in.spv@, cd_in.op_decorate_idxs@, cd_in.old_id),
    ensures
        final(cd_in.instruction_inserts)@.len() == old(cd_in.instruction_inserts)@.len()
            + copy_sources(cd_in.spv@, cd_in.op_decorate_idxs@, cd_in.old_id).len(),
        forall|i: int| 0 <= i < old(cd_in.instruction_inserts)@.len() ==>
            #[trigger] final(cd_in.instruction_inserts)@[i] == old(cd_in.instruction_inserts)@[i],
        forall|j: int| 0 <= j < copy_sources(cd_in.spv@, cd_in.op_decorate_idxs@, cd_in.old_id).len() ==> {
            let ins = #[trigger] final(cd_in.instruction_inserts)@[old(cd_in.instruction_inserts)@.len() + j];
            &&& ins.previous_spv_idx == copy_sources(cd_in.spv@, cd_in.op_decorate_idxs@, cd_in.old_id)[0]
            &&& ins.instruction@ == decoration_copy(cd_in.spv@,
                copy_sources(cd_in.spv@, cd_in.op_decorate_idxs@, cd_in.old_id)[j], cd_in.new_id)
        },
{
    let CopyDecorateIn { spv, op_decorate_idxs, instruction_inserts, old_id, new_id } = cd_in;
    let ghost s = spv@;
    let ghost idxs = op_decorate_idxs@;
    let ghost pred = |idx: usize| copied_from(s, idx, old_id);
    let ghost base = instruction_inserts@;
    let mut first_target_idx: Option<usize> = None;
    let mut k: usize = 0;
    proof {
        assert(idxs.take(0) =~= Seq::<usize>::empty());
    }
    while k < op_decorate_idxs.len()
        invariant
            s == spv@,
            idxs == op_decorate_idxs@,
            pred == (|idx: usize| copied_from(s, idx, old_id)),
            copy_readable(s, idxs, old_id),
            k <= idxs.len(),
            instruction_inserts@.len() == base.len() + idxs.take(k as int).filter(pred).len(),
            forall|i: int| 0 <= i < base.len() ==> #[trigger] instruction_inserts@[i] == base[i],
            first_target_idx == if idxs.take(k as int).filter(pred).len() == 0 { None::<usize> } else {
                Some(idxs.take(k as int).filter(pred)[0]) },
            forall|j: int| 0 <= j < idxs.take(k as int).filter(pred).len() ==> {
                let ins = #[trigger] instruction_inserts@[base.len() + j];
                &&& ins.previous_spv_idx == idxs.take(k as int).filter(pred)[0]
                &&& ins.instruction@ == decoration_copy(s, idxs.take(k as int).filter(pred)[j], new_id)
            },
        decreases idxs.len() - k,
    {
        let idx = op_decorate_idxs[k];
        let ghost done = idxs.take(k as int);
        proof {
            assert(idxs.take(k + 1) =~= done.push(idx));
            done.lemma_filter_push(idx, pred);
            assert(idxs[k as int] + 2 < s.len());
            assert(s.len() == spv.len());
        }
        let target_id = spv[idx + 1];
        let decoration = spv[idx + 2];
        if target_id == old_id && copies_decoration(decoration) {
            let word_count = hiword(spv[idx]) as usize;
            let first = match first_target_idx {
                Some(f) => f,
                None => {
                    first_target_idx = Some(idx);
                    idx
                },
            };
            let mut instruction_copy = vstd::slice::slice_to_vec(&spv[idx..idx + word_count]);
            instruction_copy.set(1, new_id);
            let ghost before = instruction_inserts@;
            instruction_inserts.push(InstructionInsert { previous_spv_idx: first, instruction: instruction_copy });
            proof {
                assert(pred(idx));
                assert(done.push(idx).filter(pred) == done.filter(pred).push(idx));
                assert(instruction_copy@ =~= decoration_copy(s, idx, new_id));
                assert forall|j: int| 0 <= j < idxs.take(k + 1).filter(pred).len() implies {
                    let ins = #[trigger] instruction_inserts@[base.len() + j];
                    &&& ins.previous_spv_idx == idxs.take(k + 1).filter(pred)[0]
                    &&& ins.instruction@ == decoration_copy(s, idxs.take(k + 1).filter(pred)[j], new_id)
                } by {
                    if j < done.filter(pred).len() {
                        assert(instruction_inserts@[base.len() + j] == before[base.len() + j]);
                    }
                }
            }
        } else {
            proof {
                assert(!pred(idx));
                assert(done.push(idx).filter(pred) == done.filter(pred));
            }
        }
        k = k + 1;
    }
    proof {
        assert(idxs.take(k as int) =~= idxs);
    }
}

} // verus!
