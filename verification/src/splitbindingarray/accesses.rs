use vstd::prelude::*;

use crate::spv;
use crate::splitbindingarray::arrays::{arrayed_index, ArrayedEntry};
use crate::splitbindingarray::calls::arrayed_with_id;
use crate::splitbindingarray::rechain_instructions::{
    ends_with_result, get_last_instruction_result_type_and_id, rechain_instructions_with_target_id, rechain_temps, rechained,
};
use crate::splitbindingarray::select_template::{
    has_rechain_room, lemma_select_room, phi_pairs, rechain_room, rechain_select, select_template_spv, switch_targets,
};
use crate::splitbindingarray::unroll::{nop_range, nopped};
use crate::util::instruction::{
    fits_in_memory, idxs_reach, is_tiled, lemma_op_starts_reach, op_at, lemma_starts_from_bounds, lemma_tiles_inside, last_start, min_reach,
    op_starts, operands_fit, starts, starts_from, terminates_from, tiles, wc_at, wf_stream,
};
use crate::util::opaque_trace::{
    loaded_opaque_traces, nop_fills, offsets_fit, offsets_inside, reconstruct_opaque_trace_and_overwrite, trace_fits,
    trace_loaded_opaques, trace_offsets, words_of, OpaqueImageOp, OpaqueLoadTrace,
};
use crate::util::pointer::lemma_tiles_terminates;
use crate::util::{
    encode_word, hiword, insert_views, loword, spec_encode_word, spec_hiword, spec_loword, InsertView, InstructionInsert,
};

verus! {

/// An access chain into a binding array: its offset and the position of the array among the
/// binding arrays.
pub type ArrayAccess = (usize, usize);

/// The first `j` access chains whose base is a binding array, each with the position of the
/// first binding array of that id.
pub open spec fn array_accesses(s: Seq<u32>, acs: Seq<usize>, arrayed: Seq<ArrayedEntry>, j: int) -> Seq<ArrayAccess>
    decreases j,
{
    if j <= 0 {
        Seq::empty()
    } else {
        let prev = array_accesses(s, acs, arrayed, j - 1);
        match arrayed_index(s, arrayed, s[acs[j - 1] + 3]) {
            Some(k) => prev.push((acs[j - 1], k)),
            None => prev,
        }
    }
}

/// The access chains whose base is a binding array, with the position of that array.
pub(crate) fn find_array_accesses(spv: &[u32], access_chains: &Vec<usize>, arrayed: &Vec<ArrayedEntry>) -> (r: Vec<ArrayAccess>)
    requires
        idxs_reach(spv@, access_chains@, 4),
        forall|j: int| 0 <= j < arrayed@.len() ==> (#[trigger] arrayed@[j]).0 + 2 < spv@.len(),
    ensures
        r@ == array_accesses(spv@, access_chains@, arrayed@, access_chains@.len() as int),
        forall|j: int| 0 <= j < r@.len() ==> access_chains@.contains((#[trigger] r@[j]).0) && r@[j].1 < arrayed@.len(),
{
    let ghost s = spv@;
    let mut out: Vec<ArrayAccess> = Vec::new();
    let mut j: usize = 0;
    while j < access_chains.len()
        invariant
            s == spv@,
            j <= access_chains@.len(),
            idxs_reach(s, access_chains@, 4),
            forall|q: int| 0 <= q < arrayed@.len() ==> (#[trigger] arrayed@[q]).0 + 2 < s.len(),
            out@ == array_accesses(s, access_chains@, arrayed@, j as int),
            forall|q: int| 0 <= q < out@.len() ==> access_chains@.contains((#[trigger] out@[q]).0) && out@[q].1 < arrayed@.len(),
        decreases access_chains@.len() - j,
    {
        let ac = access_chains[j];
        assert(access_chains@[j as int] + 4 < s.len());
        assert(s.len() == spv.len());
        match arrayed_with_id(spv, arrayed, spv[ac + 3]) {
            Some(k) => {
                out.push((ac, k));
                proof {
                    assert(access_chains@[j as int] == ac);
                }
            },
            None => {},
        }
        j = j + 1;
    }
    out
}

/// The first `i` listed `OpSampledImage`s whose sampler is `id`, each with the access chain
/// and the array's position.
pub open spec fn samplers_of(s: Seq<u32>, sis: Seq<usize>, id: u32, ac: usize, k: usize, i: int)
    -> Seq<(usize, usize, usize)>
    decreases i,
{
    if i <= 0 {
        Seq::empty()
    } else if s[sis[i - 1] + 4] == id {
        samplers_of(s, sis, id, ac, k, i - 1).push((sis[i - 1], ac, k))
    } else {
        samplers_of(s, sis, id, ac, k, i - 1)
    }
}

/// The entries for the first `l` loads: each load of the access chain's result `res` gives
/// the `OpSampledImage`s that sample with what it loads.
pub open spec fn load_samplers(s: Seq<u32>, loads: Seq<usize>, sis: Seq<usize>, res: u32, ac: usize, k: usize, l: int)
    -> Seq<(usize, usize, usize)>
    decreases l,
{
    if l <= 0 {
        Seq::empty()
    } else if s[loads[l - 1] + 3] == res {
        load_samplers(s, loads, sis, res, ac, k, l - 1) + samplers_of(s, sis, s[loads[l - 1] + 2], ac, k, sis.len() as int)
    } else {
        load_samplers(s, loads, sis, res, ac, k, l - 1)
    }
}

/// The entries for the first `a` accesses: those into arrays of images or samplers.
pub open spec fn arrayed_samplers(s: Seq<u32>, accesses: Seq<ArrayAccess>, arrayed: Seq<ArrayedEntry>, loads: Seq<usize>,
    sis: Seq<usize>, a: int) -> Seq<(usize, usize, usize)>
    decreases a,
{
    if a <= 0 {
        Seq::empty()
    } else {
        let prev = arrayed_samplers(s, accesses, arrayed, loads, sis, a - 1);
        let (ac, k) = accesses[a - 1];
        if arrayed[k as int].2 {
            prev + load_samplers(s, loads, sis, s[ac + 2], ac, k, loads.len() as int)
        } else {
            prev
        }
    }
}

/// For each `OpSampledImage` whose sampler is loaded from an access chain into an array of
/// samplers: the `OpSampledImage`, the access chain and the array's position. A later entry
/// for the same `OpSampledImage` replaces an earlier one.
pub(crate) fn find_arrayed_samplers(
    spv: &[u32],
    accesses: &Vec<ArrayAccess>,
    arrayed: &Vec<ArrayedEntry>,
    loads: &Vec<usize>,
    sampled_images: &Vec<usize>,
) -> (r: Vec<(usize, usize, usize)>)
    requires
        forall|j: int| 0 <= j < accesses@.len() ==> (#[trigger] accesses@[j]).0 + 4 < spv@.len()
            && accesses@[j].1 < arrayed@.len(),
        idxs_reach(spv@, loads@, 3),
        idxs_reach(spv@, sampled_images@, 4),
    ensures
        r@ == arrayed_samplers(spv@, accesses@, arrayed@, loads@, sampled_images@, accesses@.len() as int),
        forall|j: int| 0 <= j < r@.len() ==> sampled_images@.contains((#[trigger] r@[j]).0) && r@[j].2 < arrayed@.len()
            && r@[j].1 + 4 < spv@.len(),
{
    let ghost s = spv@;
    let ghost sis = sampled_images@;
    let mut out: Vec<(usize, usize, usize)> = Vec::new();
    let mut a: usize = 0;
    while a < accesses.len()
        invariant
            s == spv@,
            sis == sampled_images@,
            a <= accesses@.len(),
            forall|j: int| 0 <= j < accesses@.len() ==> (#[trigger] accesses@[j]).0 + 4 < s.len()
                && accesses@[j].1 < arrayed@.len(),
            idxs_reach(s, loads@, 3),
            idxs_reach(s, sis, 4),
            out@ == arrayed_samplers(s, accesses@, arrayed@, loads@, sis, a as int),
            forall|j: int| 0 <= j < out@.len() ==> sis.contains((#[trigger] out@[j]).0) && out@[j].2 < arrayed@.len()
                && out@[j].1 + 4 < s.len(),
        decreases accesses@.len() - a,
    {
        let (ac, k) = accesses[a];
        assert(accesses@[a as int].0 + 4 < s.len());
        assert(s.len() == spv.len());
        let ghost o1 = out@;
        if arrayed[k].2 {
            let access_result_id = spv[ac + 2];
            let mut l: usize = 0;
            while l < loads.len()
                invariant
                    s == spv@,
                    sis == sampled_images@,
                    s.len() == spv.len(),
                    l <= loads@.len(),
                    k < arrayed@.len(),
                    idxs_reach(s, loads@, 3),
                    idxs_reach(s, sis, 4),
                    access_result_id == s[ac + 2],
                    out@ == o1 + load_samplers(s, loads@, sis, access_result_id, ac, k, l as int),
                    forall|j: int| 0 <= j < out@.len() ==> sis.contains((#[trigger] out@[j]).0)
                        && out@[j].2 < arrayed@.len() && out@[j].1 + 4 < s.len(),
                    ac + 4 < s.len(),
                decreases loads@.len() - l,
            {
                let load = loads[l];
                assert(loads@[l as int] + 3 < s.len());
                let ghost o2 = out@;
                if spv[load + 3] == access_result_id {
                    let result_id = spv[load + 2];
                    let mut i: usize = 0;
                    while i < sampled_images.len()
                        invariant
                            s == spv@,
                            sis == sampled_images@,
                            s.len() == spv.len(),
                            i <= sis.len(),
                            k < arrayed@.len(),
                            idxs_reach(s, sis, 4),
                            out@ == o2 + samplers_of(s, sis, result_id, ac, k, i as int),
                            forall|j: int| 0 <= j < out@.len() ==> sis.contains((#[trigger] out@[j]).0)
                                && out@[j].2 < arrayed@.len() && out@[j].1 + 4 < s.len(),
                            ac + 4 < s.len(),
                        decreases sis.len() - i,
                    {
                        let si = sampled_images[i];
                        assert(sis[i as int] + 4 < s.len());
                        if spv[si + 4] == result_id {
                            out.push((si, ac, k));
                            proof {
                                assert(sis[i as int] == si);
                                assert(out@ =~= o2 + samplers_of(s, sis, result_id, ac, k, i + 1));
                            }
                        }
                        i = i + 1;
                    }
                    proof {
                        assert(out@ =~= o1 + load_samplers(s, loads@, sis, access_result_id, ac, k, l + 1));
                    }
                }
                l = l + 1;
            }
            proof {
                assert(out@ =~= arrayed_samplers(s, accesses@, arrayed@, loads@, sis, a + 1));
            }
        } else {
            proof {
                assert(out@ =~= arrayed_samplers(s, accesses@, arrayed@, loads@, sis, a + 1));
            }
        }
        a = a + 1;
    }
    out
}

/// The access chain and array of the latest of the first `j` entries for the `OpSampledImage`
/// at `si`.
pub open spec fn latest_sampler(map: Seq<(usize, usize, usize)>, si: usize, j: int) -> Option<(usize, usize)>
    decreases j,
{
    if j <= 0 {
        None
    } else if map[j - 1].0 == si {
        Some((map[j - 1].1, map[j - 1].2))
    } else {
        latest_sampler(map, si, j - 1)
    }
}

/// The access chain and array that the latest entry for the `OpSampledImage` at `si` records.
pub(crate) fn arrayed_sampler_of(map: &Vec<(usize, usize, usize)>, si: usize) -> (r: Option<(usize, usize)>)
    ensures
        r == latest_sampler(map@, si, map@.len() as int),
        r matches Some(v) ==> exists|j: int| 0 <= j < map@.len() && (#[trigger] map@[j]).0 == si && map@[j].1 == v.0
            && map@[j].2 == v.1,
{
    let mut j: usize = map.len();
    while j > 0
        invariant
            j <= map@.len(),
            latest_sampler(map@, si, map@.len() as int) == latest_sampler(map@, si, j as int),
        decreases j,
    {
        j = j - 1;
        if map[j].0 == si {
            proof {
                assert(map@[j as int].0 == si);
            }
            return Some((map[j].1, map[j].2));
        }
    }
    None
}

/// No later entry is for the same `OpSampledImage` as the entry `j`.
pub open spec fn kept_entry(map: Seq<(usize, usize, usize)>, j: int) -> bool {
    forall|l: int| j < l < map.len() ==> (#[trigger] map[l]).0 != map[j].0
}

/// Whether the access chain at `ac` is the one the latest entry for some `OpSampledImage`
/// records.
pub(crate) fn is_inner_sampler_access(map: &Vec<(usize, usize, usize)>, ac: usize) -> (r: bool)
    ensures
        r == exists|j: int| 0 <= j < map@.len() && (#[trigger] map@[j]).1 == ac && kept_entry(map@, j),
{
    let mut j: usize = 0;
    while j < map.len()
        invariant
            j <= map@.len(),
            forall|q: int| 0 <= q < j ==> !((#[trigger] map@[q]).1 == ac && kept_entry(map@, q)),
        decreases map@.len() - j,
    {
        if map[j].1 == ac {
            // Only the latest entry for its `OpSampledImage` is kept.
            let mut later = j + 1;
            let mut replaced = false;
            while later < map.len()
                invariant
                    j < later <= map@.len(),
                    replaced <==> exists|l: int| j < l < later && (#[trigger] map@[l]).0 == map@[j as int].0,
                decreases map@.len() - later,
            {
                if map[later].0 == map[j].0 {
                    replaced = true;
                    proof {
                        assert(map@[later as int].0 == map@[j as int].0);
                    }
                }
                later = later + 1;
            }
            if !replaced {
                proof {
                    assert(kept_entry(map@, j as int));
                    assert(map@[j as int].1 == ac);
                }
                return true;
            }
            proof {
                let l = choose|l: int| j < l < later && (#[trigger] map@[l]).0 == map@[j as int].0;
                assert(!kept_entry(map@, j as int));
            }
        }
        j = j + 1;
    }
    false
}

/// The instructions with a given opcode lie whole in a well-formed stream.
pub proof fn lemma_listed_inside(s: Seq<u32>, op: int)
    requires
        wf_stream(s),
    ensures
        forall|j: int| 0 <= j < op_starts(s, op).len() ==> #[trigger] op_starts(s, op)[j] < s.len()
            && op_starts(s, op)[j] + wc_at(s, op_starts(s, op)[j] as int) <= s.len()
            && op_starts(s, op)[j] + min_reach(op) < s.len(),
{
    lemma_op_starts_reach(s, op);
    lemma_tiles_inside(s, 0);
    lemma_starts_from_bounds(s, 0);
    assert forall|j: int| 0 <= j < op_starts(s, op).len() implies #[trigger] op_starts(s, op)[j] < s.len()
        && op_starts(s, op)[j] + wc_at(s, op_starts(s, op)[j] as int) <= s.len()
        && op_starts(s, op)[j] + min_reach(op) < s.len() by {
        let k = op_starts(s, op)[j];
        assert(starts(s).contains(k));
        let q = choose|q: int| 0 <= q < starts(s).len() && starts(s)[q] == k;
        assert(starts_from(s, 0)[q] + wc_at(s, starts_from(s, 0)[q] as int) <= s.len());
    }
}

/// The result type and id of the snippet's last instruction, unless it is a write.
pub open spec fn last_result(snippet: Seq<u32>) -> Option<(u32, u32)> {
    if ends_with_result(snippet) {
        Some((snippet[starts(snippet).last() + 1], snippet[starts(snippet).last() + 2]))
    } else {
        None
    }
}

/// What `get_last_instruction_result_type_and_id` reads of a snippet and what
/// `rechain_instructions_with_target_id` returns for it agree: both have a result exactly when
/// the last instruction is not a write; then both give the last instruction's result type,
/// the former its result id in the snippet and the latter the last fresh id it took, one
/// below the bound after the rechaining. Each instruction before the last holds the words
/// its rechaining writes (at least four words, five for a rotated `OpSampledImage`).
pub proof fn lemma_rechain_agrees_with_last_result(s: Seq<u32>, ib0: u32, target: u32, flip: bool, rotate: bool)
    requires
        fits_in_memory(s),
        starts(s).len() > 0,
        starts(s).last() + 2 < s.len(),
        crate::splitbindingarray::select_template::rewrites_stay_inside(s, rotate),
        rechained(s, ib0, target, flip, rotate) is Some,
    ensures
        last_result(s) is Some <==> ends_with_result(s),
        ends_with_result(s) ==> {
            let c = rechained(s, ib0, target, flip, rotate)->Some_0;
            let k = starts(s).last();
            &&& last_result(s) == Some((s[k + 1], s[k + 2]))
            &&& c[k + 1] == last_result(s)->Some_0.0
            &&& c[k + 2] == (ib0 + rechain_temps(s) - 1) as u32
        },
{
    if ends_with_result(s) {
        crate::splitbindingarray::select_template::lemma_rechained_keeps_last_result(s, ib0, target, flip, rotate);
    }
}

/// A switch over `length` elements can be made of copies of `snippet`: it is a nonempty
/// stream of whole instructions with room for the rewritten operands, the elements' ids and
/// the switch's word counts fit, and so do the ids taken from `ib`.
pub open spec fn switch_fits(snippet: Seq<u32>, rotate: bool, ib: int, base_id: u32, length: u32) -> bool {
    &&& snippet.len() > 0
    &&& fits_in_memory(snippet)
    &&& tiles(snippet)
    &&& rechain_room(snippet, rotate)
    &&& length <= 0x7ffd
    &&& base_id + length <= u32::MAX
    &&& ib + length + 2 + (length + 1) * snippet.len() <= u32::MAX
}

/// A switch over the elements of a binding array, each case a copy of `snippet` rechained onto
/// the element, or `Err` when the copies cannot be made or the ids run out.
fn switch_over(
    ib: &mut u32,
    base_id: u32,
    index_id: u32,
    length: u32,
    snippet: &Vec<u32>,
    flip_store_into: bool,
    rotate_image_sampler: bool,
) -> (r: Result<Vec<u32>, ()>)
    ensures
        r is Ok <==> switch_fits(snippet@, rotate_image_sampler, *old(ib) as int, base_id, length),
        r matches Ok(w) ==> {
            let sel = rechain_select(snippet@, flip_store_into, rotate_image_sampler, *old(ib) as int, base_id, index_id,
                length as int, last_result(snippet@));
            &&& sel is Some
            &&& w@ == sel->Some_0.0
            &&& *final(ib) == sel->Some_0.1
        },
        r is Err ==> *final(ib) == *old(ib),
        *final(ib) >= *old(ib),
{
    if snippet.len() == 0 || !is_tiled(snippet.as_slice()) {
        return Err(());
    }
    proof {
        lemma_tiles_terminates(snippet@, 0);
    }
    if !has_rechain_room(snippet.as_slice(), rotate_image_sampler) {
        return Err(());
    }
    proof {
        crate::util::instruction::lemma_starts_from_first(snippet@, 0);
        crate::util::instruction::lemma_starts_from_bounds(snippet@, 0);
        assert(starts(snippet@)[starts(snippet@).len() - 1]
            + crate::splitbindingarray::select_template::room_needed(snippet@, starts(snippet@).len() - 1, rotate_image_sampler)
            < snippet@.len());
    }
    let underlying_type_and_target_id = get_last_instruction_result_type_and_id(snippet.as_slice());
    assert(underlying_type_and_target_id == last_result(snippet@));
    if length > 0x7ffd || u32::MAX - base_id < length {
        return Err(());
    }
    let copies = length as u64 + 1;
    let words = snippet.len() as u64;
    assert(copies * words <= 0x7ffe * 0x2000_0000) by (nonlinear_arith)
        requires
            copies <= 0x7ffe,
            words < 0x2000_0000;
    assert(copies * words == (length + 1) * snippet@.len());
    if (*ib as u64) + (length as u64) + 2 + copies * words > u32::MAX as u64 {
        return Err(());
    }
    proof {
        crate::util::instruction::lemma_starts_len(snippet@);
        lemma_select_room(snippet@, flip_store_into, rotate_image_sampler, *ib as int, base_id, index_id, length as int,
            underlying_type_and_target_id);
        let t = crate::splitbindingarray::rechain_instructions::rechain_temps(snippet@);
        assert(t <= words);
        assert((length + 1) * t <= copies * words) by (nonlinear_arith)
            requires
                0 <= t <= words,
                copies == length + 1;
        assert((length + 1) * t >= 0) by (nonlinear_arith)
            requires
                0 <= t;
    }
    Ok(select_template_spv(ib, base_id, index_id, length as usize, snippet.as_slice(), flip_store_into,
        rotate_image_sampler, underlying_type_and_target_id))
}

/// The last label that the `OpLabel`s met walking `w` from `idx` before offset `last` give,
/// `label` when there is none; the walk stops at a zero word count.
pub open spec fn merge_label_from(w: Seq<u32>, last: int, idx: int, label: u32) -> u32
    decreases last - idx,
{
    if idx < 0 || idx >= last || idx >= w.len() {
        label
    } else {
        let wc = spec_hiword(w[idx]);
        let next = if spec_loword(w[idx]) == spv::SPV_INSTRUCTION_OP_LABEL as int && idx + 1 < w.len() {
            w[idx + 1]
        } else {
            label
        };
        if wc == 0 {
            label
        } else if wc > last - idx {
            next
        } else {
            merge_label_from(w, last, idx + wc, next)
        }
    }
}

/// The label of the merge block of a switch built by `select_template_spv`: the last
/// `OpLabel` before its last instruction.
fn merge_label_of(words: &Vec<u32>, last: usize) -> (r: u32)
    ensures
        r == merge_label_from(words@, last as int, 0, 0),
{
    let mut label: u32 = 0;
    let mut idx: usize = 0;
    while idx < last && idx < words.len()
        invariant
            merge_label_from(words@, last as int, 0, 0) == merge_label_from(words@, last as int, idx as int, label),
        decreases last - idx,
    {
        let wc = hiword(words[idx]) as usize;
        if wc == 0 {
            return label;
        }
        if loword(words[idx]) == spv::SPV_INSTRUCTION_OP_LABEL && idx + 1 < words.len() {
            label = words[idx + 1];
        }
        if wc > last - idx {
            return label;
        }
        idx = idx + wc;
    }
    label
}

/// The inner switch of a nested case with its `OpPhi`, when it has one, given the fresh id
/// `ib`: the words, the output and the next free id.
pub open spec fn with_fresh_phi(inner: Seq<u32>, ib: int) -> Option<(Seq<u32>, Option<u32>, int)> {
    let phi_idx = last_start(inner);
    if phi_idx < inner.len() && inner.len() - phi_idx > 2
        && spec_loword(inner[phi_idx as int]) == spv::SPV_INSTRUCTION_OP_PHI as int {
        if ib >= u32::MAX {
            None
        } else {
            Some((inner.update(phi_idx + 2, ib as u32), Some(ib as u32), ib + 1))
        }
    } else {
        Some((inner, None, ib))
    }
}

/// One case of a nested switch, from the free id `ib`: the image load rechained onto
/// `target_id`, then the switch over the samplers of `inner_template` with the loaded image
/// at `image_pos`, its `OpPhi` given a fresh id. Its words, the inner switch's output, the
/// inner merge label and the next free id; `None` when it cannot be built.
pub open spec fn nested_case_spec(
    image_load: Seq<u32>,
    inner_template: Seq<u32>,
    image_pos: int,
    target_id: u32,
    sampler_base: u32,
    sampler_index: u32,
    sampler_length: u32,
    ib: int,
) -> Option<(Seq<u32>, Option<u32>, u32, int)> {
    if !(image_load.len() > 0 && fits_in_memory(image_load) && tiles(image_load) && rechain_room(image_load, false)
        && ib + image_load.len() <= u32::MAX && ends_with_result(image_load) && 0 <= image_pos < inner_template.len()) {
        None
    } else {
        let load = rechained(image_load, ib as u32, target_id, false, false)->Some_0;
        let ib1 = ib + rechain_temps(image_load);
        let new_image_id = load[starts(image_load).last() + 2];
        let inner_snippet = inner_template.update(image_pos, new_image_id);
        if !switch_fits(inner_snippet, true, ib1, sampler_base, sampler_length) {
            None
        } else {
            let sel = rechain_select(inner_snippet, false, true, ib1, sampler_base, sampler_index, sampler_length as int,
                last_result(inner_snippet))->Some_0;
            let inner = sel.0;
            if !(inner.len() > 0 && fits_in_memory(inner) && tiles(inner)) {
                None
            } else {
                let label = merge_label_from(inner, last_start(inner) as int, 0, 0);
                match with_fresh_phi(inner, sel.1) {
                    Some((w, o, ib2)) => Some((load + w, o, label, ib2)),
                    None => None,
                }
            }
        }
    }
}

/// One case of a switch over an image array whose image is sampled with an element of a
/// sampler array: the image load rechained onto `target_id`, then a switch over the sampler
/// array, each case loading its sampler and sampling the loaded image. Returns the words,
/// the id of the inner switch's result (its `OpPhi` given a fresh id) and the label of the
/// inner merge block.
fn nested_case(
    ib: &mut u32,
    target_id: u32,
    image_load: &Vec<u32>,
    inner_template: &Vec<u32>,
    image_pos: usize,
    sampler_base: u32,
    sampler_index: u32,
    sampler_length: u32,
) -> (r: Result<(Vec<u32>, Option<u32>, u32), ()>)
    ensures
        ({
            let c = nested_case_spec(image_load@, inner_template@, image_pos as int, target_id, sampler_base,
                sampler_index, sampler_length, *old(ib) as int);
            &&& r is Ok <==> c is Some
            &&& r matches Ok((w, o, l)) ==> w@ == c->Some_0.0 && o == c->Some_0.1 && l == c->Some_0.2
                && *final(ib) == c->Some_0.3
        }),
        *final(ib) >= *old(ib),
{
    let ghost ib0 = *ib as int;
    if image_load.len() == 0 || !is_tiled(image_load.as_slice()) {
        return Err(());
    }
    proof {
        lemma_tiles_terminates(image_load@, 0);
        crate::util::instruction::lemma_starts_len(image_load@);
    }
    if !has_rechain_room(image_load.as_slice(), false) {
        return Err(());
    }
    if (*ib as u64) + (image_load.len() as u64) > u32::MAX as u64 {
        return Err(());
    }
    proof {
        crate::splitbindingarray::select_template::lemma_rechained_room(image_load@, *ib, target_id, false, false);
        crate::util::instruction::lemma_starts_from_bounds(image_load@, 0);
        assert(starts(image_load@)[starts(image_load@).len() - 1]
            + crate::splitbindingarray::select_template::room_needed(image_load@, starts(image_load@).len() - 1, false)
            < image_load@.len());
    }
    proof {
        crate::util::instruction::lemma_starts_from_first(image_load@, 0);
    }
    let (mut words, image_out) = rechain_instructions_with_target_id(ib, image_load.as_slice(), target_id, false, false);
    let ghost load = words@;
    let new_image_id = match image_out {
        Some((_, id)) => id,
        None => {
            return Err(());
        },
    };
    if image_pos >= inner_template.len() {
        return Err(());
    }
    let mut inner_snippet = inner_template.clone();
    inner_snippet.set(image_pos, new_image_id);
    assert(inner_snippet@ == inner_template@.update(image_pos as int, new_image_id));
    let mut inner = switch_over(ib, sampler_base, sampler_index, sampler_length, &inner_snippet, false, true)?;
    let ghost sel_ib = *ib as int;
    if inner.len() == 0 || !is_tiled(inner.as_slice()) {
        return Err(());
    }
    proof {
        lemma_tiles_terminates(inner@, 0);
    }
    let phi_idx = crate::util::instruction::get_last_instruction_index(inner.as_slice());
    let inner_merge = merge_label_of(&inner, phi_idx);
    let ghost old_inner = inner@;
    let mut output: Option<u32> = None;
    if phi_idx < inner.len() && inner.len() - phi_idx > 2 && loword(inner[phi_idx]) == spv::SPV_INSTRUCTION_OP_PHI {
        if *ib == u32::MAX {
            return Err(());
        }
        let id = crate::splitbindingarray::inc(ib);
        inner.set(phi_idx + 2, id);
        output = Some(id);
    }
    proof {
        assert(with_fresh_phi(old_inner, sel_ib) == Some((inner@, output, *ib as int)));
    }
    words.append(&mut inner);
    assert(words@ == load + with_fresh_phi(old_inner, sel_ib)->Some_0.0);
    Ok((words, output, inner_merge))
}

/// The first `n` cases of a nested switch whose labels start at `first`, with the ids from
/// `ib`: their words, the outputs of the inner switches and their merge labels, whether every
/// case had an output, and the next free id; `None` when a case cannot be built.
pub open spec fn nested_cases(
    image_load: Seq<u32>,
    inner_template: Seq<u32>,
    image_pos: int,
    base_id: u32,
    length: u32,
    first: int,
    sampler_base: u32,
    sampler_index: u32,
    sampler_length: u32,
    ib: int,
    n: int,
) -> Option<(Seq<u32>, Seq<u32>, Seq<u32>, bool, int)>
    decreases n,
{
    if n <= 0 {
        Some((Seq::empty(), Seq::empty(), Seq::empty(), true, ib))
    } else {
        match nested_cases(image_load, inner_template, image_pos, base_id, length, first, sampler_base, sampler_index,
            sampler_length, ib, n - 1) {
            None => None,
            Some(p) => {
                let i = n - 1;
                let label = if i < length { first + i } else { first + length };
                let target = if i < length { base_id + i } else { base_id as int };
                match nested_case_spec(image_load, inner_template, image_pos, target as u32, sampler_base, sampler_index,
                    sampler_length, p.4) {
                    None => None,
                    Some(c) => Some((
                        p.0 + seq![spec_encode_word(2, spv::SPV_INSTRUCTION_OP_LABEL), label as u32] + c.0
                            + seq![spec_encode_word(2, spv::SPV_INSTRUCTION_OP_BRANCH), (first + length + 1) as u32],
                        if c.1 is Some { p.1.push(c.1->0) } else { p.1 },
                        if c.1 is Some { p.2.push(c.2) } else { p.2 },
                        p.3 && c.1 is Some,
                        c.3,
                    )),
                }
            },
        }
    }
}

/// Once a case of a nested switch cannot be built, no longer run of its cases can be.
proof fn lemma_nested_cases_stay_none(
    image_load: Seq<u32>,
    inner_template: Seq<u32>,
    image_pos: int,
    base_id: u32,
    length: u32,
    first: int,
    sampler_base: u32,
    sampler_index: u32,
    sampler_length: u32,
    ib: int,
    n: int,
    m: int,
)
    requires
        n <= m,
        nested_cases(image_load, inner_template, image_pos, base_id, length, first, sampler_base, sampler_index,
            sampler_length, ib, n) is None,
    ensures
        nested_cases(image_load, inner_template, image_pos, base_id, length, first, sampler_base, sampler_index,
            sampler_length, ib, m) is None,
    decreases m - n,
{
    if n < m {
        lemma_nested_cases_stay_none(image_load, inner_template, image_pos, base_id, length, first, sampler_base,
            sampler_index, sampler_length, ib, n, m - 1);
    }
}

/// The nested switch over `length` images, from the free id `ib`: its words and the next free
/// id; `None` when it cannot be built.
pub open spec fn nested_switch_spec(
    image_load: Seq<u32>,
    inner_template: Seq<u32>,
    image_pos: int,
    base_id: u32,
    index_id: u32,
    length: u32,
    sampler_base: u32,
    sampler_index: u32,
    sampler_length: u32,
    ib: int,
) -> Option<(Seq<u32>, int)> {
    if !(inner_template.len() > 0 && fits_in_memory(inner_template) && tiles(inner_template)
        && rechain_room(inner_template, true) && length <= 0x7ffd && base_id + length <= u32::MAX
        && ib + length + 2 <= u32::MAX) {
        None
    } else {
        let merge = (ib + length + 1) as u32;
        let head = seq![
            spec_encode_word(3, spv::SPV_INSTRUCTION_OP_SELECTION_MERGE), merge, spv::SPV_SELECTION_CONTROL_NONE,
            spec_encode_word((3 + 2 * length) as u16, spv::SPV_INSTRUCTION_OP_SWITCH), index_id, (ib + length) as u32,
        ] + switch_targets(Seq::new(length as nat, |i: int| (ib + i) as u32));
        match nested_cases(image_load, inner_template, image_pos, base_id, length, ib, sampler_base, sampler_index,
            sampler_length, ib + length + 2, length + 1) {
            None => None,
            Some(c) => {
                let body = head + c.0 + seq![spec_encode_word(2, spv::SPV_INSTRUCTION_OP_LABEL), merge];
                match last_result(inner_template) {
                    None => Some((body, c.4)),
                    Some(rt) => if c.3 {
                        Some((body + seq![
                            spec_encode_word((3 + 2 * (length + 1)) as u16, spv::SPV_INSTRUCTION_OP_PHI), rt.0, rt.1,
                        ] + phi_pairs(c.1, c.2), c.4))
                    } else {
                        None
                    },
                }
            },
        }
    }
}

/// A switch over an image array whose image is sampled with an element of a sampler array:
/// each case (and the default, on the first image) loads its image and switches over the
/// sampler array; when the sampling has a result, an `OpPhi` gathers the results of the
/// inner switches, each coming from its inner merge block.
fn nested_switch_over(
    ib: &mut u32,
    base_id: u32,
    index_id: u32,
    length: u32,
    image_load: &Vec<u32>,
    inner_template: &Vec<u32>,
    image_pos: usize,
    sampler_base: u32,
    sampler_index: u32,
    sampler_length: u32,
) -> (r: Result<Vec<u32>, ()>)
    ensures
        ({
            let n = nested_switch_spec(image_load@, inner_template@, image_pos as int, base_id, index_id, length,
                sampler_base, sampler_index, sampler_length, *old(ib) as int);
            &&& r is Ok <==> n is Some
            &&& r matches Ok(w) ==> w@ == n->Some_0.0 && *final(ib) == n->Some_0.1
        }),
        *final(ib) >= *old(ib),
{
    if inner_template.len() == 0 || !is_tiled(inner_template.as_slice()) {
        return Err(());
    }
    proof {
        lemma_tiles_terminates(inner_template@, 0);
    }
    if !has_rechain_room(inner_template.as_slice(), true) {
        return Err(());
    }
    proof {
        crate::util::instruction::lemma_starts_from_bounds(inner_template@, 0);
        crate::util::instruction::lemma_starts_len(inner_template@);
        assert(starts(inner_template@)[starts(inner_template@).len() - 1]
            + crate::splitbindingarray::select_template::room_needed(inner_template@, starts(inner_template@).len() - 1, true)
            < inner_template@.len());
    }
    let underlying_type_and_target_id = get_last_instruction_result_type_and_id(inner_template.as_slice());
    assert(underlying_type_and_target_id == last_result(inner_template@));
    if length > 0x7ffd || u32::MAX - base_id < length {
        return Err(());
    }
    if (*ib as u64) + (length as u64) + 2 > u32::MAX as u64 {
        return Err(());
    }
    let first = *ib;
    let ghost ib0 = *ib;
    *ib = *ib + length + 2;
    let default_label = first + length;
    let merge_label = first + length + 1;
    let mut out: Vec<u32> = Vec::new();
    out.push(encode_word(3, spv::SPV_INSTRUCTION_OP_SELECTION_MERGE));
    out.push(merge_label);
    out.push(spv::SPV_SELECTION_CONTROL_NONE);
    out.push(encode_word((3 + 2 * length) as u16, spv::SPV_INSTRUCTION_OP_SWITCH));
    out.push(index_id);
    out.push(default_label);
    let ghost head0 = out@;
    let ghost labels = Seq::new(length as nat, |q: int| (first + q) as u32);
    let mut i: u32 = 0;
    while i < length
        invariant
            i <= length,
            first + length + 2 <= u32::MAX,
            labels == Seq::new(length as nat, |q: int| (first + q) as u32),
            out@ == head0 + switch_targets(labels.take(i as int)),
        decreases length - i,
    {
        out.push(i);
        out.push(first + i);
        proof {
            assert(switch_targets(labels.take(i + 1)) =~= switch_targets(labels.take(i as int)).push(i).push((first + i) as u32));
        }
        i = i + 1;
    }
    assert(labels.take(length as int) =~= labels);
    let ghost head = out@;
    let mut outputs: Vec<u32> = Vec::new();
    let mut preds: Vec<u32> = Vec::new();
    let mut all_out = true;
    let mut i: u32 = 0;
    while i <= length
        invariant
            length <= 0x7ffd,
            base_id + length <= u32::MAX,
            first + length + 2 <= u32::MAX,
            first == ib0,
            default_label == first + length,
            merge_label == first + length + 1,
            outputs@.len() == preds@.len(),
            outputs@.len() <= i,
            i <= length + 1,
            *ib >= ib0,
            ib0 == *old(ib),
            nested_cases(image_load@, inner_template@, image_pos as int, base_id, length, first as int, sampler_base,
                sampler_index, sampler_length, first + length + 2, i as int) matches Some(c) && out@ == head + c.0
                && outputs@ == c.1 && preds@ == c.2 && all_out == c.3 && *ib == c.4,
            all_out ==> outputs@.len() == i,
        decreases length + 1 - i,
    {
        let ghost prev = out@;
        let label = if i < length { first + i } else { default_label };
        let target = if i < length { base_id + i } else { base_id };
        out.push(encode_word(2, spv::SPV_INSTRUCTION_OP_LABEL));
        out.push(label);
        let case = nested_case(ib, target, image_load, inner_template, image_pos, sampler_base, sampler_index,
            sampler_length);
        let (mut words, output, inner_merge) = match case {
            Ok(t) => t,
            Err(e) => {
                proof {
                    lemma_nested_cases_stay_none(image_load@, inner_template@, image_pos as int, base_id, length,
                        first as int, sampler_base, sampler_index, sampler_length, first + length + 2, i + 1,
                        length + 1);
                }
                return Err(e);
            },
        };
        let ghost cw = words@;
        out.append(&mut words);
        match output {
            Some(o) => {
                outputs.push(o);
                preds.push(inner_merge);
            },
            None => {
                all_out = false;
            },
        }
        out.push(encode_word(2, spv::SPV_INSTRUCTION_OP_BRANCH));
        out.push(merge_label);
        proof {
            let c = nested_cases(image_load@, inner_template@, image_pos as int, base_id, length, first as int,
                sampler_base, sampler_index, sampler_length, first + length + 2, i as int)->Some_0;
            assert(out@ =~= head + (c.0 + seq![spec_encode_word(2, spv::SPV_INSTRUCTION_OP_LABEL), label] + cw
                + seq![spec_encode_word(2, spv::SPV_INSTRUCTION_OP_BRANCH), merge_label]));
        }
        i = i + 1;
    }
    out.push(encode_word(2, spv::SPV_INSTRUCTION_OP_LABEL));
    out.push(merge_label);
    match underlying_type_and_target_id {
        Some((result_type_id, target_id)) => {
            if !all_out || outputs.len() != length as usize + 1 {
                return Err(());
            }
            out.push(encode_word((3 + 2 * (length + 1)) as u16, spv::SPV_INSTRUCTION_OP_PHI));
            out.push(result_type_id);
            out.push(target_id);
            let ghost pre = out@;
            let mut k: usize = 0;
            while k < outputs.len()
                invariant
                    k <= outputs@.len(),
                    outputs@.len() == preds@.len(),
                    out@ == pre + phi_pairs(outputs@.take(k as int), preds@.take(k as int)),
                decreases outputs@.len() - k,
            {
                out.push(outputs[k]);
                out.push(preds[k]);
                proof {
                    assert(phi_pairs(outputs@.take(k + 1), preds@.take(k + 1)) =~= phi_pairs(
                        outputs@.take(k as int),
                        preds@.take(k as int),
                    ).push(outputs@[k as int]).push(preds@[k as int]));
                }
                k = k + 1;
            }
            assert(outputs@.take(outputs@.len() as int) =~= outputs@);
            assert(preds@.take(preds@.len() as int) =~= preds@);
        },
        None => {},
    }
    Ok(out)
}

/// The first `j` listed instructions whose operand at offset 3 is `id`.
pub open spec fn pointing(s: Seq<u32>, idxs: Seq<usize>, id: u32, j: int) -> Seq<usize>
    decreases j,
{
    if j <= 0 {
        Seq::empty()
    } else if s[idxs[j - 1] + 3] == id {
        pointing(s, idxs, id, j - 1).push(idxs[j - 1])
    } else {
        pointing(s, idxs, id, j - 1)
    }
}

/// The listed instructions whose operand at offset 3 is `id`.
fn pointing_to(spv: &[u32], idxs: &Vec<usize>, id: u32) -> (r: Vec<usize>)
    requires
        idxs_reach(spv@, idxs@, 3),
    ensures
        r@ == pointing(spv@, idxs@, id, idxs@.len() as int),
        forall|j: int| 0 <= j < r@.len() ==> idxs@.contains(#[trigger] r@[j]),
{
    let mut out: Vec<usize> = Vec::new();
    let mut j: usize = 0;
    while j < idxs.len()
        invariant
            j <= idxs@.len(),
            idxs_reach(spv@, idxs@, 3),
            out@ == pointing(spv@, idxs@, id, j as int),
            forall|q: int| 0 <= q < out@.len() ==> idxs@.contains(#[trigger] out@[q]),
        decreases idxs@.len() - j,
    {
        let l = idxs[j];
        assert(idxs@[j as int] + 3 < spv@.len());
        assert(spv@.len() == spv.len());
        if spv[l + 3] == id {
            out.push(l);
            proof {
                assert(idxs@[j as int] == l);
            }
        }
        j = j + 1;
    }
    out
}

/// What the rewriting of the accesses works on: the new words, the next free id and the
/// instruction inserts.
pub type RewriteState = (Seq<u32>, int, Seq<InsertView>);

/// `v` with each of the first `l` listed loads that reads `id` overwritten.
pub open spec fn loads_nopped(s: Seq<u32>, v: Seq<u32>, loads: Seq<usize>, id: u32, l: int) -> Seq<u32>
    decreases l,
{
    if l <= 0 {
        v
    } else {
        let p = loads_nopped(s, v, loads, id, l - 1);
        let load = loads[l - 1] as int;
        if s[load + 3] == id {
            nopped(p, load, load + wc_at(s, load))
        } else {
            p
        }
    }
}

/// The access chain and array of the sampler that the trace's sampling takes from a sampler
/// array, if it does.
pub open spec fn trace_sampler(map: Seq<(usize, usize, usize)>, t: OpaqueLoadTrace) -> Option<(usize, usize)> {
    match t.next {
        OpaqueImageOp::Sampled(op) => latest_sampler(map, op.idx, map.len() as int),
        _ => None,
    }
}

/// The template of the inner switch of a nested switch: a load of the sampler, then the
/// instructions that follow the image load.
pub open spec fn nested_inner_template(sw: Seq<u32>, sampler_type_id: u32) -> Seq<u32> {
    seq![spec_encode_word(4, spv::SPV_INSTRUCTION_OP_LOAD), sampler_type_id, 0u32, 0u32] + sw.skip(
        spec_hiword(sw[0]) as int,
    )
}

/// The switch that stands for a traced image chain, from the free id `ib`: its words and the
/// next free id; `None` when it cannot be built.
pub open spec fn trace_switch(
    s: Seq<u32>,
    map: Seq<(usize, usize, usize)>,
    lengths: Seq<u32>,
    bases: Seq<u32>,
    sampler_type: Option<u32>,
    base_id: u32,
    index_id: u32,
    length: u32,
    t: OpaqueLoadTrace,
    ib: int,
) -> Option<(Seq<u32>, int)> {
    let sw = words_of(s, trace_offsets(t));
    match trace_sampler(map, t) {
        Some(sampler) => match sampler_type {
            None => None,
            Some(sampler_type_id) => {
                let wc = spec_hiword(sw[0]) as int;
                if sw.len() == 0 || wc == 0 || wc >= sw.len() {
                    None
                } else {
                    nested_switch_spec(sw.take(wc), nested_inner_template(sw, sampler_type_id), 7, base_id, index_id,
                        length, bases[sampler.1 as int], s[sampler.0 + 4], lengths[sampler.1 as int], ib)
                }
            },
        },
        None => if switch_fits(sw, false, ib, base_id, length) {
            rechain_select(sw, false, false, ib, base_id, index_id, length as int, last_result(sw))
        } else {
            None
        },
    }
}

/// The state after the first `q` traced image chains were replaced by switches.
pub open spec fn traces_rewritten(
    s: Seq<u32>,
    map: Seq<(usize, usize, usize)>,
    lengths: Seq<u32>,
    bases: Seq<u32>,
    sampler_type: Option<u32>,
    base_id: u32,
    index_id: u32,
    length: u32,
    traces: Seq<OpaqueLoadTrace>,
    st: RewriteState,
    q: int,
) -> Option<RewriteState>
    decreases q,
{
    if q <= 0 {
        Some(st)
    } else {
        match traces_rewritten(s, map, lengths, bases, sampler_type, base_id, index_id, length, traces, st, q - 1) {
            None => None,
            Some(p) => {
                let t = traces[q - 1];
                let offs = trace_offsets(t);
                if !(offsets_inside(s, offs) && offsets_fit(p.0, offs)) {
                    None
                } else {
                    match trace_switch(s, map, lengths, bases, sampler_type, base_id, index_id, length, t, p.1) {
                        None => None,
                        Some(w) => Some((nop_fills(p.0, offs), w.1, p.2.push((t.spec_last_result_id(), w.0)))),
                    }
                }
            },
        }
    }
}

/// The instruction at `idx` uses the result `id`: a store or copy through it or into it, or
/// another instruction with it as the operand at offset 3.
pub open spec fn uses_result(s: Seq<u32>, idx: int, id: u32) -> bool {
    let op = op_at(s, idx);
    if op == spv::SPV_INSTRUCTION_OP_STORE as int || op == spv::SPV_INSTRUCTION_OP_COPY_MEMORY as int {
        s[idx + 1] == id || s[idx + 2] == id
    } else {
        idx + 3 < s.len() && s[idx + 3] == id
    }
}

/// The instruction at `idx` stores or copies into the result `id`.
pub open spec fn stores_into(s: Seq<u32>, idx: int, id: u32) -> bool {
    let op = op_at(s, idx);
    (op == spv::SPV_INSTRUCTION_OP_STORE as int || op == spv::SPV_INSTRUCTION_OP_COPY_MEMORY as int) && s[idx + 2] == id
}

/// The template of the switch for an instruction at `idx` that uses the access chain at `ac`:
/// the access chain without its first index, then the instruction.
pub open spec fn dependent_snippet(s: Seq<u32>, ac: int, idx: int) -> Seq<u32> {
    seq![
        spec_encode_word((wc_at(s, ac) - 1) as u16, spv::SPV_INSTRUCTION_OP_ACCESS_CHAIN), s[ac + 1], s[ac + 2], s[ac + 3],
    ] + s.subrange(ac + 5, ac + wc_at(s, ac)) + s.subrange(idx, idx + wc_at(s, idx))
}

/// The state after the first `d` listed instructions that use the access chain at `ac` were
/// replaced by switches.
pub open spec fn dependents_rewritten(
    s: Seq<u32>,
    dependents: Seq<usize>,
    ac: int,
    base_id: u32,
    index_id: u32,
    length: u32,
    st: RewriteState,
    d: int,
) -> Option<RewriteState>
    decreases d,
{
    if d <= 0 {
        Some(st)
    } else {
        match dependents_rewritten(s, dependents, ac, base_id, index_id, length, st, d - 1) {
            None => None,
            Some(p) => {
                let idx = dependents[d - 1] as int;
                let id = s[ac + 2];
                let op = op_at(s, idx);
                if uses_result(s, idx, id) && ac != idx {
                    if op == spv::SPV_INSTRUCTION_OP_ACCESS_CHAIN as int
                        || op == spv::SPV_INSTRUCTION_OP_IN_BOUNDS_ACCESS_CHAIN as int || wc_at(s, ac) < 5 {
                        None
                    } else {
                        let sn = dependent_snippet(s, ac, idx);
                        if switch_fits(sn, false, p.1, base_id, length) {
                            match rechain_select(sn, stores_into(s, idx, id), false, p.1, base_id, index_id,
                                length as int, last_result(sn)) {
                                None => None,
                                Some(w) => Some((nopped(p.0, idx, idx + wc_at(s, idx)), w.1, p.2.push(
                                    (idx as usize, w.0),
                                ))),
                            }
                        } else {
                            None
                        }
                    }
                } else {
                    Some(p)
                }
            },
        }
    }
}

/// The state after the access chain `a` into a binding array, and what uses it, was
/// rewritten: the access chain is overwritten; for an image or sampler array, the loads of
/// an inner sampler access are overwritten, and otherwise each traced image chain becomes a
/// switch; for a buffer array, each instruction that uses the access chain becomes a switch.
pub open spec fn access_rewritten(
    s: Seq<u32>,
    accesses: Seq<ArrayAccess>,
    arrayed: Seq<ArrayedEntry>,
    lengths: Seq<u32>,
    bases: Seq<u32>,
    loads: Seq<usize>,
    dependents: Seq<usize>,
    map: Seq<(usize, usize, usize)>,
    sampler_type: Option<u32>,
    st: RewriteState,
    a: int,
) -> Option<RewriteState> {
    let ac = accesses[a].0;
    let k = accesses[a].1 as int;
    let v = nopped(st.0, ac as int, ac + wc_at(s, ac as int));
    let id = s[ac + 2];
    let index_id = s[ac + 4];
    if arrayed[k].2 {
        if exists|j: int| 0 <= j < map.len() && (#[trigger] map[j]).1 == ac && kept_entry(map, j) {
            Some((loads_nopped(s, v, loads, id, loads.len() as int), st.1, st.2))
        } else {
            let traces = loaded_opaque_traces(s, pointing(s, loads, id, loads.len() as int));
            traces_rewritten(s, map, lengths, bases, sampler_type, bases[k], index_id, lengths[k], traces,
                (v, st.1, st.2), traces.len() as int)
        }
    } else {
        dependents_rewritten(s, dependents, ac as int, bases[k], index_id, lengths[k], (v, st.1, st.2),
            dependents.len() as int)
    }
}

/// The state after the first `a` access chains into binding arrays were rewritten.
pub open spec fn accesses_rewritten(
    s: Seq<u32>,
    accesses: Seq<ArrayAccess>,
    arrayed: Seq<ArrayedEntry>,
    lengths: Seq<u32>,
    bases: Seq<u32>,
    loads: Seq<usize>,
    dependents: Seq<usize>,
    map: Seq<(usize, usize, usize)>,
    sampler_type: Option<u32>,
    st: RewriteState,
    a: int,
) -> Option<RewriteState>
    decreases a,
{
    if a <= 0 {
        Some(st)
    } else {
        match accesses_rewritten(s, accesses, arrayed, lengths, bases, loads, dependents, map, sampler_type, st, a - 1) {
            None => None,
            Some(p) => access_rewritten(s, accesses, arrayed, lengths, bases, loads, dependents, map, sampler_type, p,
                a - 1),
        }
    }
}

proof fn lemma_traces_stay_none(
    s: Seq<u32>,
    map: Seq<(usize, usize, usize)>,
    lengths: Seq<u32>,
    bases: Seq<u32>,
    sampler_type: Option<u32>,
    base_id: u32,
    index_id: u32,
    length: u32,
    traces: Seq<OpaqueLoadTrace>,
    st: RewriteState,
    q: int,
    m: int,
)
    requires
        q <= m,
        traces_rewritten(s, map, lengths, bases, sampler_type, base_id, index_id, length, traces, st, q) is None,
    ensures
        traces_rewritten(s, map, lengths, bases, sampler_type, base_id, index_id, length, traces, st, m) is None,
    decreases m - q,
{
    if q < m {
        lemma_traces_stay_none(s, map, lengths, bases, sampler_type, base_id, index_id, length, traces, st, q, m - 1);
    }
}

proof fn lemma_dependents_stay_none(
    s: Seq<u32>,
    dependents: Seq<usize>,
    ac: int,
    base_id: u32,
    index_id: u32,
    length: u32,
    st: RewriteState,
    d: int,
    m: int,
)
    requires
        d <= m,
        dependents_rewritten(s, dependents, ac, base_id, index_id, length, st, d) is None,
    ensures
        dependents_rewritten(s, dependents, ac, base_id, index_id, length, st, m) is None,
    decreases m - d,
{
    if d < m {
        lemma_dependents_stay_none(s, dependents, ac, base_id, index_id, length, st, d, m - 1);
    }
}

proof fn lemma_accesses_stay_none(
    s: Seq<u32>,
    accesses: Seq<ArrayAccess>,
    arrayed: Seq<ArrayedEntry>,
    lengths: Seq<u32>,
    bases: Seq<u32>,
    loads: Seq<usize>,
    dependents: Seq<usize>,
    map: Seq<(usize, usize, usize)>,
    sampler_type: Option<u32>,
    st: RewriteState,
    a: int,
    m: int,
)
    requires
        a <= m,
        accesses_rewritten(s, accesses, arrayed, lengths, bases, loads, dependents, map, sampler_type, st, a) is None,
    ensures
        accesses_rewritten(s, accesses, arrayed, lengths, bases, loads, dependents, map, sampler_type, st, m) is None,
    decreases m - a,
{
    if a < m {
        lemma_accesses_stay_none(s, accesses, arrayed, lengths, bases, loads, dependents, map, sampler_type, st, a,
            m - 1);
    }
}

/// Replaces each access chain into a binding array, and what depends on it, by switches over
/// the array's elements; where an image array's image is sampled with an element of a sampler
/// array, the switch over the images holds one over the samplers in each case. `Err` when a
/// switch cannot be built or an access chain into a binding array is itself accessed.
#[verifier::rlimit(50)]
pub(crate) fn rewrite_accesses(
    spv: &[u32],
    new_spv: &mut Vec<u32>,
    ib: &mut u32,
    inserts: &mut Vec<InstructionInsert>,
    accesses: &Vec<ArrayAccess>,
    arrayed: &Vec<ArrayedEntry>,
    lengths: &Vec<u32>,
    bases: &Vec<u32>,
    loads: &Vec<usize>,
    dependents: &Vec<usize>,
    map: &Vec<(usize, usize, usize)>,
    sampler_type: Option<u32>,
) -> (r: Result<(), ()>)
    requires
        forall|j: int| 0 <= j < map@.len() ==> (#[trigger] map@[j]).1 + 4 < spv@.len() && map@[j].2 < arrayed@.len(),
        wf_stream(spv@),
        old(new_spv)@.len() == spv@.len(),
        lengths@.len() == arrayed@.len(),
        bases@.len() == arrayed@.len(),
        forall|j: int| 0 <= j < accesses@.len() ==> (#[trigger] accesses@[j]).0 + 4 < spv@.len()
            && accesses@[j].0 + wc_at(spv@, accesses@[j].0 as int) <= spv@.len()
            && accesses@[j].1 < arrayed@.len(),
        loads@ == op_starts(spv@, spv::SPV_INSTRUCTION_OP_LOAD as int),
        forall|j: int| 0 <= j < dependents@.len() ==> (#[trigger] dependents@[j]) + 2 < spv@.len()
            && dependents@[j] + wc_at(spv@, dependents@[j] as int) <= spv@.len(),
    ensures
        final(new_spv)@.len() == spv@.len(),
        *final(ib) >= *old(ib),
        ({
            let w = accesses_rewritten(spv@, accesses@, arrayed@, lengths@, bases@, loads@, dependents@, map@,
                sampler_type, (old(new_spv)@, *old(ib) as int, insert_views(old(inserts)@)), accesses@.len() as int);
            &&& r is Ok <==> w is Some
            &&& r is Ok ==> final(new_spv)@ == w->Some_0.0 && *final(ib) == w->Some_0.1
                && insert_views(final(inserts)@) == w->Some_0.2
        }),
{
    let ghost s = spv@;
    let ghost ib0 = *ib;
    let ghost st0: RewriteState = (new_spv@, *ib as int, insert_views(inserts@));
    proof {
        lemma_listed_inside(s, spv::SPV_INSTRUCTION_OP_LOAD as int);
        lemma_tiles_terminates(s, 0);
    }
    let mut a: usize = 0;
    while a < accesses.len()
        invariant
            s == spv@,
            *ib >= ib0,
            ib0 == *old(ib),
            st0 == (old(new_spv)@, *old(ib) as int, insert_views(old(inserts)@)),
            accesses_rewritten(s, accesses@, arrayed@, lengths@, bases@, loads@, dependents@, map@, sampler_type, st0,
                a as int) == Some((new_spv@, *ib as int, insert_views(inserts@))),
            wf_stream(s),
            terminates_from(s, 0),
            new_spv@.len() == s.len(),
            lengths@.len() == arrayed@.len(),
            bases@.len() == arrayed@.len(),
            forall|j: int| 0 <= j < accesses@.len() ==> (#[trigger] accesses@[j]).0 + 4 < s.len()
                && accesses@[j].0 + wc_at(s, accesses@[j].0 as int) <= s.len()
                && accesses@[j].1 < arrayed@.len(),
            loads@ == op_starts(s, spv::SPV_INSTRUCTION_OP_LOAD as int),
            forall|j: int| 0 <= j < loads@.len() ==> #[trigger] loads@[j] < s.len()
                && loads@[j] + wc_at(s, loads@[j] as int) <= s.len()
                && loads@[j] + min_reach(spv::SPV_INSTRUCTION_OP_LOAD as int) < s.len(),
            forall|j: int| 0 <= j < dependents@.len() ==> (#[trigger] dependents@[j]) + 2 < s.len()
                && dependents@[j] + wc_at(s, dependents@[j] as int) <= s.len(),
            a <= accesses@.len(),
            forall|j: int| 0 <= j < map@.len() ==> (#[trigger] map@[j]).1 + 4 < s.len() && map@[j].2 < arrayed@.len(),
        decreases accesses@.len() - a,
    {
        let ghost pre: RewriteState = (new_spv@, *ib as int, insert_views(inserts@));
        let (ac, k) = accesses[a];
        assert(accesses@[a as int].0 + 4 < s.len());
        assert(s.len() == spv.len());
        let ac_word_count = hiword(spv[ac]) as usize;
        nop_range(new_spv, ac, ac + ac_word_count);
        let ghost v = new_spv@;
        let ghost ib_a = *ib as int;
        let ghost ins_a = insert_views(inserts@);
        let old_result_id = spv[ac + 2];
        let index_0_id = spv[ac + 4];
        let length = lengths[k];
        let base_id = bases[k];

        if arrayed[k].2 {
            if is_inner_sampler_access(map, ac) {
                let mut l: usize = 0;
                while l < loads.len()
                    invariant
                        s == spv@,
                        s.len() == spv.len(),
                        new_spv@.len() == s.len(),
                        forall|j: int| 0 <= j < loads@.len() ==> #[trigger] loads@[j] < s.len()
                            && loads@[j] + wc_at(s, loads@[j] as int) <= s.len()
                            && loads@[j] + min_reach(spv::SPV_INSTRUCTION_OP_LOAD as int) < s.len(),
                        l <= loads@.len(),
                        new_spv@ == loads_nopped(s, v, loads@, old_result_id, l as int),
                        v.len() == s.len(),
                    decreases loads@.len() - l,
                {
                    let load = loads[l];
                    assert(loads@[l as int] + 3 < s.len());
                    if spv[load + 3] == old_result_id {
                        let wc = hiword(spv[load]) as usize;
                        nop_range(new_spv, load, load + wc);
                    }
                    l = l + 1;
                }
            } else {
                let load_idxs = pointing_to(spv, loads, old_result_id);
                proof {
                    assert forall|j: int| 0 <= j < load_idxs@.len() implies #[trigger] load_idxs@[j] + 2 < s.len() by {
                        assert(loads@.contains(load_idxs@[j]));
                        let q = choose|q: int| 0 <= q < loads@.len() && loads@[q] == load_idxs@[j];
                        assert(loads@[q] + 3 < s.len());
                    }
                }
                let traces = trace_loaded_opaques(spv, load_idxs.as_slice());
                let ghost tst: RewriteState = (v, ib_a, ins_a);
                assert(access_rewritten(s, accesses@, arrayed@, lengths@, bases@, loads@, dependents@, map@, sampler_type,
                    pre, a as int) == traces_rewritten(s, map@, lengths@, bases@, sampler_type, base_id, index_0_id,
                    length, traces@, tst, traces@.len() as int));
                let mut q: usize = 0;
                while q < traces.len()
                    invariant
                        s == spv@,
                        s.len() == spv.len(),
                        new_spv@.len() == s.len(),
                        q <= traces@.len(),
                        *ib >= ib0,
                        ib0 == *old(ib),
                        lengths@.len() == arrayed@.len(),
                        bases@.len() == arrayed@.len(),
                        forall|j: int| 0 <= j < map@.len() ==> (#[trigger] map@[j]).1 + 4 < s.len()
                            && map@[j].2 < arrayed@.len(),
                        traces_rewritten(s, map@, lengths@, bases@, sampler_type, base_id, index_0_id, length, traces@,
                            tst, q as int) == Some((new_spv@, *ib as int, insert_views(inserts@))),
                        accesses_rewritten(s, accesses@, arrayed@, lengths@, bases@, loads@, dependents@, map@,
                            sampler_type, st0, a as int) == Some(pre),
                        st0 == (old(new_spv)@, *old(ib) as int, insert_views(old(inserts)@)),
                        access_rewritten(s, accesses@, arrayed@, lengths@, bases@, loads@, dependents@, map@,
                            sampler_type, pre, a as int) == traces_rewritten(s, map@, lengths@, bases@, sampler_type,
                            base_id, index_0_id, length, traces@, tst, traces@.len() as int),
                        a < accesses@.len(),
                    decreases traces@.len() - q,
                {
                    let trace = traces[q];
                    let sampler = match trace.next {
                        OpaqueImageOp::Sampled(op) => arrayed_sampler_of(map, op.idx),
                        _ => None,
                    };
                    assert(sampler == trace_sampler(map@, trace));
                    if !trace_fits(spv, new_spv.as_slice(), &trace) {
                        proof {
                            lemma_traces_stay_none(s, map@, lengths@, bases@, sampler_type, base_id, index_0_id, length,
                                traces@, tst, q + 1, traces@.len() as int);
                            lemma_accesses_stay_none(s, accesses@, arrayed@, lengths@, bases@, loads@, dependents@,
                                map@, sampler_type, st0, a + 1, accesses@.len() as int);
                        }
                        return Err(());
                    }
                    let ghost old_new = new_spv@;
                    let switch_instructions = reconstruct_opaque_trace_and_overwrite(spv, new_spv.as_mut_slice(), &trace);
                    proof {
                        crate::util::opaque_trace::lemma_nop_fills_len(old_new, crate::util::opaque_trace::trace_offsets(trace));
                    }
                    let ghost sw = switch_instructions@;
                    let ghost ib_q = *ib as int;
                    let switch_result = match sampler {
                        Some((sampler_ac, sk)) => {
                            // The image and the sampler both come from binding arrays: switch
                            // over the images, and in each case over the samplers.
                            match sampler_type {
                                Some(sampler_type_id) => {
                                    if switch_instructions.len() == 0 {
                                        Err(())
                                    } else {
                                        let image_load_wc = hiword(switch_instructions[0]) as usize;
                                        if image_load_wc == 0 || image_load_wc >= switch_instructions.len() {
                                            Err(())
                                        } else {
                                            let mut image_load: Vec<u32> = Vec::new();
                                            let mut w: usize = 0;
                                            while w < image_load_wc
                                                invariant
                                                    image_load_wc < switch_instructions@.len(),
                                                    w <= image_load_wc,
                                                    image_load@ == switch_instructions@.take(w as int),
                                                decreases image_load_wc - w,
                                            {
                                                image_load.push(switch_instructions[w]);
                                                proof {
                                                    assert(switch_instructions@.take(w + 1) =~= switch_instructions@.take(
                                                        w as int,
                                                    ).push(switch_instructions@[w as int]));
                                                }
                                                w = w + 1;
                                            }
                                            let mut inner_template: Vec<u32> = Vec::new();
                                            inner_template.push(encode_word(4, spv::SPV_INSTRUCTION_OP_LOAD));
                                            inner_template.push(sampler_type_id);
                                            inner_template.push(0);
                                            inner_template.push(0);
                                            let ghost head4 = inner_template@;
                                            let mut w: usize = image_load_wc;
                                            while w < switch_instructions.len()
                                                invariant
                                                    image_load_wc <= w <= switch_instructions@.len(),
                                                    inner_template@ == head4 + switch_instructions@.subrange(
                                                        image_load_wc as int,
                                                        w as int,
                                                    ),
                                                decreases switch_instructions@.len() - w,
                                            {
                                                inner_template.push(switch_instructions[w]);
                                                proof {
                                                    assert(switch_instructions@.subrange(image_load_wc as int, w + 1)
                                                        =~= switch_instructions@.subrange(image_load_wc as int, w as int).push(
                                                        switch_instructions@[w as int],
                                                    ));
                                                }
                                                w = w + 1;
                                            }
                                            assert(inner_template@ =~= nested_inner_template(sw, sampler_type_id));
                                            proof {
                                                let j = choose|j: int| 0 <= j < map@.len() && (#[trigger] map@[j]).0
                                                    == match trace.next {
                                                    OpaqueImageOp::Sampled(op) => op.idx,
                                                    _ => 0,
                                                } && map@[j].1 == sampler_ac && map@[j].2 == sk;
                                                assert(map@[j].1 + 4 < s.len());
                                            }
                                            let sampler_index = spv[sampler_ac + 4];
                                            nested_switch_over(ib, base_id, index_0_id, length, &image_load,
                                                &inner_template, 7, bases[sk], sampler_index, lengths[sk])
                                        }
                                    }
                                },
                                None => Err(()),
                            }
                        },
                        None => switch_over(ib, base_id, index_0_id, length, &switch_instructions, false, false),
                    };
                    let switch = match switch_result {
                        Ok(w) => w,
                        Err(e) => {
                            proof {
                                lemma_traces_stay_none(s, map@, lengths@, bases@, sampler_type, base_id, index_0_id,
                                    length, traces@, tst, q + 1, traces@.len() as int);
                                lemma_accesses_stay_none(s, accesses@, arrayed@, lengths@, bases@, loads@, dependents@,
                                    map@, sampler_type, st0, a + 1, accesses@.len() as int);
                            }
                            return Err(e);
                        },
                    };
                    let ghost old_inserts = inserts@;
                    let ghost sw_words = switch@;
                    let last = trace.last_result_id();
                    inserts.push(InstructionInsert { previous_spv_idx: last, instruction: switch });
                    proof {
                        assert(insert_views(inserts@) =~= insert_views(old_inserts).push((last, sw_words)));
                    }
                    q = q + 1;
                }
            }
        } else {
            let ghost dst: RewriteState = (v, ib_a, ins_a);
            assert(access_rewritten(s, accesses@, arrayed@, lengths@, bases@, loads@, dependents@, map@, sampler_type,
                pre, a as int) == dependents_rewritten(s, dependents@, ac as int, base_id, index_0_id, length, dst,
                dependents@.len() as int));
            let mut d: usize = 0;
            while d < dependents.len()
                invariant
                    s == spv@,
                    s.len() == spv.len(),
                    new_spv@.len() == s.len(),
                    *ib >= ib0,
                    ib0 == *old(ib),
                    ac + 4 < s.len(),
                    ac + ac_word_count <= s.len(),
                    ac_word_count == wc_at(s, ac as int),
                    old_result_id == s[ac + 2],
                    forall|j: int| 0 <= j < dependents@.len() ==> (#[trigger] dependents@[j]) + 2 < s.len()
                        && dependents@[j] + wc_at(s, dependents@[j] as int) <= s.len(),
                    d <= dependents@.len(),
                    dependents_rewritten(s, dependents@, ac as int, base_id, index_0_id, length, dst, d as int) == Some(
                        (new_spv@, *ib as int, insert_views(inserts@)),
                    ),
                    accesses_rewritten(s, accesses@, arrayed@, lengths@, bases@, loads@, dependents@, map@,
                        sampler_type, st0, a as int) == Some(pre),
                    st0 == (old(new_spv)@, *old(ib) as int, insert_views(old(inserts)@)),
                    access_rewritten(s, accesses@, arrayed@, lengths@, bases@, loads@, dependents@, map@,
                        sampler_type, pre, a as int) == dependents_rewritten(s, dependents@, ac as int, base_id,
                        index_0_id, length, dst, dependents@.len() as int),
                    a < accesses@.len(),
                decreases dependents@.len() - d,
            {
                let idx = dependents[d];
                assert(dependents@[d as int] + 2 < s.len());
                let word_count = hiword(spv[idx]) as usize;
                let instruction = loword(spv[idx]);
                let mut flip_store_into = false;
                let is_dependent = if instruction == spv::SPV_INSTRUCTION_OP_STORE
                    || instruction == spv::SPV_INSTRUCTION_OP_COPY_MEMORY {
                    let source_id = spv[idx + 1];
                    let dest_id = spv[idx + 2];
                    if dest_id == old_result_id {
                        flip_store_into = true;
                    }
                    source_id == old_result_id || dest_id == old_result_id
                } else {
                    idx + 3 < spv.len() && spv[idx + 3] == old_result_id
                };
                assert(is_dependent == uses_result(s, idx as int, old_result_id));
                assert(flip_store_into == stores_into(s, idx as int, old_result_id));
                if is_dependent && ac != idx {
                    if instruction == spv::SPV_INSTRUCTION_OP_ACCESS_CHAIN
                        || instruction == spv::SPV_INSTRUCTION_OP_IN_BOUNDS_ACCESS_CHAIN || ac_word_count < 5 {
                        proof {
                            lemma_dependents_stay_none(s, dependents@, ac as int, base_id, index_0_id, length, dst,
                                d + 1, dependents@.len() as int);
                            lemma_accesses_stay_none(s, accesses@, arrayed@, lengths@, bases@, loads@, dependents@,
                                map@, sampler_type, st0, a + 1, accesses@.len() as int);
                        }
                        return Err(());
                    }
                    let mut new_instructions: Vec<u32> = Vec::new();
                    new_instructions.push(encode_word((ac_word_count - 1) as u16, spv::SPV_INSTRUCTION_OP_ACCESS_CHAIN));
                    new_instructions.push(spv[ac + 1]);
                    new_instructions.push(spv[ac + 2]);
                    new_instructions.push(spv[ac + 3]);
                    let ghost head = new_instructions@;
                    let mut w: usize = ac + 5;
                    while w < ac + ac_word_count
                        invariant
                            s == spv@,
                            s.len() == spv.len(),
                            ac + ac_word_count <= s.len(),
                            ac + 5 <= w <= ac + ac_word_count,
                            new_instructions@ == head + s.subrange(ac + 5, w as int),
                        decreases ac + ac_word_count - w,
                    {
                        new_instructions.push(spv[w]);
                        proof {
                            assert(s.subrange(ac + 5, w + 1) =~= s.subrange(ac + 5, w as int).push(s[w as int]));
                        }
                        w = w + 1;
                    }
                    let ghost middle = new_instructions@;
                    let mut w: usize = idx;
                    while w < idx + word_count
                        invariant
                            s == spv@,
                            s.len() == spv.len(),
                            idx + word_count <= s.len(),
                            idx <= w <= idx + word_count,
                            new_instructions@ == middle + s.subrange(idx as int, w as int),
                        decreases idx + word_count - w,
                    {
                        new_instructions.push(spv[w]);
                        proof {
                            assert(s.subrange(idx as int, w + 1) =~= s.subrange(idx as int, w as int).push(s[w as int]));
                        }
                        w = w + 1;
                    }
                    assert(new_instructions@ =~= dependent_snippet(s, ac as int, idx as int));
                    nop_range(new_spv, idx, idx + word_count);
                    let switch = match switch_over(ib, base_id, index_0_id, length, &new_instructions, flip_store_into,
                        false) {
                        Ok(w) => w,
                        Err(e) => {
                            proof {
                                lemma_dependents_stay_none(s, dependents@, ac as int, base_id, index_0_id, length, dst,
                                    d + 1, dependents@.len() as int);
                                lemma_accesses_stay_none(s, accesses@, arrayed@, lengths@, bases@, loads@,
                                    dependents@, map@, sampler_type, st0, a + 1, accesses@.len() as int);
                            }
                            return Err(e);
                        },
                    };
                    let ghost old_inserts = inserts@;
                    let ghost sw_words = switch@;
                    inserts.push(InstructionInsert { previous_spv_idx: idx, instruction: switch });
                    proof {
                        assert(insert_views(inserts@) =~= insert_views(old_inserts).push((idx, sw_words)));
                    }
                }
                d = d + 1;
            }
        }
        a = a + 1;
    }
    Ok(())
}

} // verus!
