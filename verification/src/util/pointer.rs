use vstd::prelude::*;

use crate::util::hiword;
use crate::util::instruction::{
    fits_in_memory, lemma_starts_from_bounds, lemma_starts_step, starts, starts_from, tiles_from,
    wc_at,
};

verus! {

// This exists only for the sake of punctuality.
#[derive(Debug, Clone, Copy)]
pub struct TracedIntermediate {
    pub idx: usize,
    pub result_type_id: u32,
}

/// The instruction at `k` comes before `limit` and has the shape `%id = OpXXX %type ...`.
pub open spec fn defines_before(s: Seq<u32>, id: u32, limit: usize, k: usize) -> bool {
    k < limit && wc_at(s, k as int) > 2 && s[k + 2] == id
}

/// Offsets of the instructions before `limit` that have the shape `%id = OpXXX %type ...`.
pub open spec fn intermediate_candidates(s: Seq<u32>, id: u32, limit: usize) -> Seq<usize> {
    starts(s).filter(|k: usize| defines_before(s, id, limit, k))
}

// If we are given an instruction that takes an immediate value, we need a way of knowing its
// underlying type and pointer type.
// That is hard to do because we cannot know instruction this stems from.
// We will assume that some instruction close by follows the form:
// `%result = OpXXXXXX %result_type ...`
/// The last instruction before `instruction_idx` of the form `%id = OpXXX %type ...`, with
/// that type.
pub fn trace_previous_intermediate_id(
    spv: &[u32],
    id: u32,
    instruction_idx: usize,
) -> (r: Option<TracedIntermediate>)
    requires
        tiles_from(spv@, 0),
        fits_in_memory(spv@),
        instruction_idx <= spv@.len(),
    ensures
        intermediate_candidates(spv@, id, instruction_idx).len() == 0 ==> r is None,
        intermediate_candidates(spv@, id, instruction_idx).len() > 0 ==> (r matches Some(t) && {
            let k = intermediate_candidates(spv@, id, instruction_idx).last();
            t.idx == k && t.result_type_id == spv@[k + 1]
        }),
{
    let ghost s = spv@;
    let ghost pred = |k: usize| defines_before(s, id, instruction_idx, k);
    let mut spv_idx: usize = 0;
    let mut last_type_id: Option<TracedIntermediate> = None;
    let ghost mut done: Seq<usize> = Seq::empty();
    proof {
        lemma_tiles_terminates(s, 0);
    }
    while spv_idx < instruction_idx
        invariant
            s == spv@,
            pred == (|k: usize| defines_before(s, id, instruction_idx, k)),
            fits_in_memory(s),
            tiles_from(s, spv_idx as int),
            instruction_idx <= s.len(),
            spv_idx <= s.len(),
            done + starts_from(s, spv_idx as int) == starts(s),
            done.filter(pred).len() == 0 ==> last_type_id is None,
            done.filter(pred).len() > 0 ==> (last_type_id matches Some(t) && t.idx == done.filter(pred).last()
                && t.result_type_id == s[t.idx + 1]),
        decreases s.len() - spv_idx,
    {
        proof {
            lemma_starts_step(s, spv_idx as int);
        }
        let op = spv[spv_idx];
        let word_count = hiword(op);
        if word_count > 2 && spv[spv_idx + 2] == id {
            last_type_id = Some(TracedIntermediate { idx: spv_idx, result_type_id: spv[spv_idx + 1] });
        }
        proof {
            done.lemma_filter_push(spv_idx, pred);
            done = done.push(spv_idx);
            assert(done + starts_from(s, spv_idx + word_count) =~= starts(s));
        }
        spv_idx = spv_idx + word_count as usize;
    }
    proof {
        lemma_starts_from_bounds(s, spv_idx as int);
        let rest = starts_from(s, spv_idx as int);
        assert(rest.filter(pred) =~= Seq::<usize>::empty()) by {
            if rest.filter(pred).len() > 0 {
                let k = rest.filter(pred)[0];
                assert(rest.filter(pred).contains(k));
                rest.lemma_filter_contains_rev(pred, k);
                let j = choose|j: int| 0 <= j < rest.len() && rest[j] == k;
                assert(rest[j] >= spv_idx);
            }
        }
        Seq::filter_distributes_over_add(done, rest, pred);
        assert(done.filter(pred) + rest.filter(pred) =~= done.filter(pred));
    }
    last_type_id
}

/// A stream of whole instructions is walked to its end without meeting a zero word count.
pub proof fn lemma_tiles_terminates(s: Seq<u32>, i: int)
    requires
        tiles_from(s, i),
    ensures
        crate::util::instruction::terminates_from(s, i),
    decreases s.len() - i,
{
    if i < s.len() && i + wc_at(s, i) < s.len() {
        lemma_tiles_terminates(s, i + wc_at(s, i));
    }
}

} // verus!
