use vstd::prelude::*;

use crate::spv;
use crate::util::{encode_word, hiword, loword, spec_encode_word, spec_hiword, spec_loword};

verus! {

/// Instruction streams are bounded well below the address space: a slice of words
/// holds at most `isize::MAX` bytes on every target.
pub open spec fn fits_in_memory(s: Seq<u32>) -> bool {
    s.len() < 0x2000_0000
}

/// Word count of the instruction whose first word is at `i`.
pub open spec fn wc_at(s: Seq<u32>, i: int) -> int {
    spec_hiword(s[i])
}

/// Opcode of the instruction whose first word is at `i`.
pub open spec fn op_at(s: Seq<u32>, i: int) -> int {
    spec_loword(s[i])
}

/// Offsets of the instructions met when walking `s` from offset `i`, each instruction's
/// word count leading to the next one. The walk stops at the end of the stream or at a
/// zero word count.
pub open spec fn starts_from(s: Seq<u32>, i: int) -> Seq<usize>
    decreases s.len() - i,
{
    if 0 <= i < s.len() && wc_at(s, i) >= 1 {
        seq![i as usize] + if i + wc_at(s, i) < s.len() {
            starts_from(s, i + wc_at(s, i))
        } else {
            Seq::<usize>::empty()
        }
    } else {
        Seq::<usize>::empty()
    }
}

/// Offsets of all instructions of `s`.
pub open spec fn starts(s: Seq<u32>) -> Seq<usize> {
    starts_from(s, 0)
}

/// Walking from `i` by word counts reaches the end of the stream (possibly overshooting it)
/// without meeting a zero word count.
pub open spec fn terminates_from(s: Seq<u32>, i: int) -> bool
    decreases s.len() - i,
{
    if i < 0 {
        false
    } else if i >= s.len() {
        true
    } else if wc_at(s, i) >= 1 {
        if i + wc_at(s, i) >= s.len() {
            true
        } else {
            terminates_from(s, i + wc_at(s, i))
        }
    } else {
        false
    }
}

/// Walking from `i` by word counts lands exactly on the end of the stream: the stream is a
/// sequence of whole instructions.
pub open spec fn tiles_from(s: Seq<u32>, i: int) -> bool
    decreases s.len() - i,
{
    if i == s.len() {
        true
    } else if 0 <= i < s.len() && wc_at(s, i) >= 1 && i + wc_at(s, i) <= s.len() {
        if i + wc_at(s, i) == s.len() {
            true
        } else {
            tiles_from(s, i + wc_at(s, i))
        }
    } else {
        false
    }
}

/// The stream is a sequence of whole instructions.
pub open spec fn tiles(s: Seq<u32>) -> bool {
    tiles_from(s, 0)
}

/// Offsets of the instructions of `s` with opcode `op`, in stream order.
pub open spec fn op_starts(s: Seq<u32>, op: int) -> Seq<usize> {
    starts(s).filter(|k: usize| op_at(s, k as int) == op)
}

/// The last instruction offset of a stream, or 0 when there is none.
pub open spec fn last_start(s: Seq<u32>) -> usize {
    if starts(s).len() == 0 {
        0
    } else {
        starts(s).last()
    }
}

/// One step of a walk.
pub proof fn lemma_starts_step(s: Seq<u32>, i: int)
    requires
        0 <= i < s.len(),
        wc_at(s, i) >= 1,
    ensures
        starts_from(s, i) == seq![i as usize] + starts_from(s, i + wc_at(s, i)),
{
    if i + wc_at(s, i) >= s.len() {
        assert(starts_from(s, i + wc_at(s, i)) =~= Seq::<usize>::empty());
    }
}

/// The offsets met from `i` are strictly increasing, start at `i` or later and lie inside
/// the stream.
pub proof fn lemma_starts_from_bounds(s: Seq<u32>, i: int)
    requires
        fits_in_memory(s),
    ensures
        forall|j: int| 0 <= j < starts_from(s, i).len() ==> i <= #[trigger] starts_from(s, i)[j] < s.len(),
        forall|j: int, k: int|
            0 <= j < k < starts_from(s, i).len() ==> #[trigger] starts_from(s, i)[j] < #[trigger] starts_from(s, i)[k],
        forall|j: int| 0 <= j < starts_from(s, i).len() ==> wc_at(s, #[trigger] starts_from(s, i)[j] as int) >= 1,
    decreases s.len() - i,
{
    if 0 <= i < s.len() && wc_at(s, i) >= 1 {
        let t = if i + wc_at(s, i) < s.len() {
            starts_from(s, i + wc_at(s, i))
        } else {
            Seq::<usize>::empty()
        };
        if i + wc_at(s, i) < s.len() {
            lemma_starts_from_bounds(s, i + wc_at(s, i));
        }
        let r = starts_from(s, i);
        assert(r == seq![i as usize] + t);
        assert forall|j: int| 0 <= j < r.len() implies i <= #[trigger] r[j] < s.len() && wc_at(s, r[j] as int) >= 1 by {
            if j > 0 {
                assert(r[j] == t[j - 1]);
            }
        }
        assert forall|j: int, k: int| 0 <= j < k < r.len() implies #[trigger] r[j] < #[trigger] r[k] by {
            assert(r[k] == t[k - 1]);
            if j > 0 {
                assert(r[j] == t[j - 1]);
            }
        }
    }
}

/// The offsets met from `i` on: `i` itself (when inside the stream) and those met after it.
pub proof fn lemma_starts_from_first(s: Seq<u32>, i: int)
    requires
        fits_in_memory(s),
        0 <= i < s.len(),
        wc_at(s, i) >= 1,
    ensures
        starts_from(s, i).len() >= 1,
        starts_from(s, i)[0] == i,
{
}

/// Walks the stream and returns the offset of its last instruction (0 for an empty stream).
pub fn get_last_instruction_index(instructions: &[u32]) -> (r: usize)
    requires
        terminates_from(instructions@, 0),
        fits_in_memory(instructions@),
    ensures
        r == last_start(instructions@),
{
    let ghost s = instructions@;
    let mut last_off: usize = 0;
    let mut idx: usize = 0;
    let ghost mut done: Seq<usize> = Seq::empty();
    while idx < instructions.len()
        invariant
            s == instructions@,
            fits_in_memory(s),
            terminates_from(s, idx as int),
            done + starts_from(s, idx as int) == starts(s),
            done.len() == 0 ==> last_off == 0,
            done.len() > 0 ==> last_off == done.last(),
            idx <= s.len() || starts_from(s, idx as int).len() == 0,
        decreases s.len() + 0x10000 - idx,
    {
        proof {
            lemma_starts_step(s, idx as int);
        }
        last_off = idx;
        let w = hiword(instructions[idx]);
        proof {
            done = done.push(idx);
            assert(done + starts_from(s, idx + w) =~= starts(s));
        }
        idx = idx + w as usize;
    }
    proof {
        assert(starts_from(s, idx as int) =~= Seq::<usize>::empty());
        assert(done =~= starts(s));
    }
    last_off
}

/// Offsets of every instruction of the stream with the given opcode, in stream order.
pub fn instruction_idxs(spv: &[u32], opcode: u16) -> (r: Vec<usize>)
    requires
        terminates_from(spv@, 0),
        fits_in_memory(spv@),
    ensures
        r@ == op_starts(spv@, opcode as int),
{
    let ghost s = spv@;
    let ghost pred = |k: usize| op_at(s, k as int) == opcode as int;
    let mut out: Vec<usize> = Vec::new();
    let mut idx: usize = 0;
    let ghost mut done: Seq<usize> = Seq::empty();
    while idx < spv.len()
        invariant
            s == spv@,
            pred == (|k: usize| op_at(s, k as int) == opcode as int),
            fits_in_memory(s),
            terminates_from(s, idx as int),
            done + starts_from(s, idx as int) == starts(s),
            out@ == done.filter(pred),
        decreases s.len() + 0x10000 - idx,
    {
        proof {
            lemma_starts_step(s, idx as int);
        }
        let op = loword(spv[idx]);
        if op == opcode {
            out.push(idx);
        }
        let w = hiword(spv[idx]);
        proof {
            done.lemma_filter_push(idx, pred);
            done = done.push(idx);
            assert(done + starts_from(s, idx + w) =~= starts(s));
        }
        idx = idx + w as usize;
    }
    proof {
        assert(starts_from(s, idx as int) =~= Seq::<usize>::empty());
        assert(done =~= starts(s));
    }
    out
}

/// The highest word offset, relative to an instruction's first word, that the
/// transformations read of an instruction with opcode `op`. For most opcodes these are
/// operands the SPIR-V grammar requires; an `OpDecorate` is read up to its fourth word even
/// when the decoration has no literal, which the following instruction then provides.
pub open spec fn min_reach(op: int) -> int {
    if op == spv::SPV_INSTRUCTION_OP_TYPE_IMAGE as int {
        7
    } else if op == spv::SPV_INSTRUCTION_OP_MEMBER_DECORATE as int || op == spv::SPV_INSTRUCTION_OP_SAMPLED_IMAGE as int
        || op == spv::SPV_INSTRUCTION_OP_ACCESS_CHAIN as int || op == spv::SPV_INSTRUCTION_OP_IN_BOUNDS_ACCESS_CHAIN as int
        || op == spv::SPV_INSTRUCTION_OP_FUNCTION as int || op == spv::SPV_INSTRUCTION_OP_IMAGE_FETCH as int
        || op == spv::SPV_INSTRUCTION_OP_IMAGE_READ as int {
        4
    } else if op == spv::SPV_INSTRUCTION_OP_LOAD as int || op == spv::SPV_INSTRUCTION_OP_DECORATE as int
        || op == spv::SPV_INSTRUCTION_OP_VARIABLE as int || op == spv::SPV_INSTRUCTION_OP_TYPE_POINTER as int
        || op == spv::SPV_INSTRUCTION_OP_TYPE_INT as int || op == spv::SPV_INSTRUCTION_OP_TYPE_VECTOR as int
        || op == spv::SPV_INSTRUCTION_OP_TYPE_MATRIX as int || op == spv::SPV_INSTRUCTION_OP_TYPE_ARRAY as int
        || op == spv::SPV_INSTRUCTION_OP_CONSTANT as int || op == spv::SPV_INSTRUCTION_OP_FUNCTION_CALL as int
        || op == spv::SPV_INSTRUCTION_OP_IS_NAN as int || op == spv::SPV_INSTRUCTION_OP_IS_INF as int
        || op == spv::SPV_INSTRUCTION_OP_IMAGE_GATHER as int || op == spv::SPV_INSTRUCTION_OP_IMAGE_DREF_GATHER as int
        || op == spv::SPV_INSTRUCTION_OP_IMAGE_SPARSE_READ as int || op == spv::SPV_INSTRUCTION_OP_IMAGE_TEXEL_POINTER as int
        || (spv::SPV_INSTRUCTION_OP_IMAGE_SAMPLE_IMPLICIT_LOD as int <= op
            <= spv::SPV_INSTRUCTION_OP_IMAGE_SAMPLE_PROJ_DREF_EXPLICIT_LOD as int) {
        3
    } else if op == spv::SPV_INSTRUCTION_OP_STORE as int || op == spv::SPV_INSTRUCTION_OP_COPY_MEMORY as int
        || op == spv::SPV_INSTRUCTION_OP_IMAGE_WRITE as int || op == spv::SPV_INSTRUCTION_OP_TYPE_FLOAT as int
        || op == spv::SPV_INSTRUCTION_OP_FUNCTION_PARAMETER as int || op == spv::SPV_INSTRUCTION_OP_TYPE_FUNCTION as int {
        2
    } else {
        1
    }
}

/// Every instruction has the words that are read of it.
pub open spec fn operands_fit(s: Seq<u32>) -> bool {
    forall|j: int| 0 <= j < starts(s).len() ==> #[trigger] starts(s)[j] + min_reach(op_at(s, starts(s)[j] as int)) < s.len()
}

/// A stream of whole instructions, each with the words the transformations read of it.
pub open spec fn wf_stream(s: Seq<u32>) -> bool {
    &&& tiles(s)
    &&& fits_in_memory(s)
    &&& operands_fit(s)
}

/// Offsets in `idxs` are followed by at least `reach` more words.
pub open spec fn idxs_reach(s: Seq<u32>, idxs: Seq<usize>, reach: int) -> bool {
    forall|j: int| 0 <= j < idxs.len() ==> #[trigger] idxs[j] + reach < s.len()
}

/// The instructions with a given opcode in a well-formed stream have the words read of them.
pub proof fn lemma_op_starts_reach(s: Seq<u32>, op: int)
    requires
        operands_fit(s),
    ensures
        idxs_reach(s, op_starts(s, op), min_reach(op)),
        forall|j: int| 0 <= j < op_starts(s, op).len() ==> op_at(s, #[trigger] op_starts(s, op)[j] as int) == op,
        forall|j: int| 0 <= j < op_starts(s, op).len() ==> starts(s).contains(#[trigger] op_starts(s, op)[j]),
{
    let pred = |k: usize| op_at(s, k as int) == op;
    assert forall|j: int| 0 <= j < op_starts(s, op).len() implies
        #[trigger] op_starts(s, op)[j] + min_reach(op) < s.len()
        && op_at(s, op_starts(s, op)[j] as int) == op
        && starts(s).contains(op_starts(s, op)[j]) by {
        let k = op_starts(s, op)[j];
        starts(s).lemma_filter_pred(pred, j);
        assert(starts(s).filter(pred).contains(k));
        starts(s).lemma_filter_contains_rev(pred, k);
        let i = choose|i: int| 0 <= i < starts(s).len() && starts(s)[i] == k;
        assert(starts(s)[i] + min_reach(op_at(s, starts(s)[i] as int)) < s.len());
    }
}

/// In a stream of whole instructions every instruction lies inside the stream.
pub proof fn lemma_tiles_inside(s: Seq<u32>, i: int)
    requires
        tiles_from(s, i),
        fits_in_memory(s),
    ensures
        forall|j: int| 0 <= j < starts_from(s, i).len() ==>
            #[trigger] starts_from(s, i)[j] + wc_at(s, starts_from(s, i)[j] as int) <= s.len(),
    decreases s.len() - i,
{
    if 0 <= i < s.len() {
        let w = wc_at(s, i);
        let t = if i + w < s.len() { starts_from(s, i + w) } else { Seq::<usize>::empty() };
        if i + w < s.len() {
            lemma_tiles_inside(s, i + w);
        }
        assert(starts_from(s, i) == seq![i as usize] + t);
        assert forall|j: int| 0 <= j < starts_from(s, i).len() implies
            #[trigger] starts_from(s, i)[j] + wc_at(s, starts_from(s, i)[j] as int) <= s.len() by {
            if j > 0 {
                assert(starts_from(s, i)[j] == t[j - 1]);
            } else {
                assert(starts_from(s, i)[j] == i);
            }
        }
    }
}

} // verus!

verus! {

/// Whether a stream is a sequence of whole instructions, small enough to walk.
pub fn is_tiled(spv: &[u32]) -> (r: bool)
    ensures
        r == (fits_in_memory(spv@) && tiles(spv@)),
{
    let ghost s = spv@;
    if spv.len() >= 0x2000_0000 {
        return false;
    }
    let mut idx: usize = 0;
    while idx < spv.len()
        invariant
            s == spv@,
            fits_in_memory(s),
            idx <= s.len(),
            tiles_from(s, idx as int) == tiles_from(s, 0),
        decreases s.len() - idx,
    {
        let word_count = hiword(spv[idx]) as usize;
        if word_count == 0 || idx + word_count > spv.len() {
            return false;
        }
        idx = idx + word_count;
    }
    true
}

/// The highest word offset read of an instruction with opcode `op`.
fn min_reach_of(op: u16) -> (r: usize)
    ensures
        r == min_reach(op as int),
{
    if op == spv::SPV_INSTRUCTION_OP_TYPE_IMAGE {
        7
    } else if op == spv::SPV_INSTRUCTION_OP_MEMBER_DECORATE || op == spv::SPV_INSTRUCTION_OP_SAMPLED_IMAGE
        || op == spv::SPV_INSTRUCTION_OP_ACCESS_CHAIN || op == spv::SPV_INSTRUCTION_OP_IN_BOUNDS_ACCESS_CHAIN
        || op == spv::SPV_INSTRUCTION_OP_FUNCTION || op == spv::SPV_INSTRUCTION_OP_IMAGE_FETCH
        || op == spv::SPV_INSTRUCTION_OP_IMAGE_READ {
        4
    } else if op == spv::SPV_INSTRUCTION_OP_LOAD || op == spv::SPV_INSTRUCTION_OP_DECORATE
        || op == spv::SPV_INSTRUCTION_OP_VARIABLE || op == spv::SPV_INSTRUCTION_OP_TYPE_POINTER
        || op == spv::SPV_INSTRUCTION_OP_TYPE_INT || op == spv::SPV_INSTRUCTION_OP_TYPE_VECTOR
        || op == spv::SPV_INSTRUCTION_OP_TYPE_MATRIX || op == spv::SPV_INSTRUCTION_OP_TYPE_ARRAY
        || op == spv::SPV_INSTRUCTION_OP_CONSTANT || op == spv::SPV_INSTRUCTION_OP_FUNCTION_CALL
        || op == spv::SPV_INSTRUCTION_OP_IS_NAN || op == spv::SPV_INSTRUCTION_OP_IS_INF
        || op == spv::SPV_INSTRUCTION_OP_IMAGE_GATHER || op == spv::SPV_INSTRUCTION_OP_IMAGE_DREF_GATHER
        || op == spv::SPV_INSTRUCTION_OP_IMAGE_SPARSE_READ || op == spv::SPV_INSTRUCTION_OP_IMAGE_TEXEL_POINTER
        || (spv::SPV_INSTRUCTION_OP_IMAGE_SAMPLE_IMPLICIT_LOD <= op
            && op <= spv::SPV_INSTRUCTION_OP_IMAGE_SAMPLE_PROJ_DREF_EXPLICIT_LOD) {
        3
    } else if op == spv::SPV_INSTRUCTION_OP_STORE || op == spv::SPV_INSTRUCTION_OP_COPY_MEMORY
        || op == spv::SPV_INSTRUCTION_OP_IMAGE_WRITE || op == spv::SPV_INSTRUCTION_OP_TYPE_FLOAT
        || op == spv::SPV_INSTRUCTION_OP_FUNCTION_PARAMETER || op == spv::SPV_INSTRUCTION_OP_TYPE_FUNCTION {
        2
    } else {
        1
    }
}

/// Whether a stream is well formed: whole instructions, small enough to walk, each with
/// the words the transformations read of it.
pub fn is_wf_stream(spv: &[u32]) -> (r: bool)
    ensures
        r == wf_stream(spv@),
{
    let ghost s = spv@;
    if !is_tiled(spv) {
        return false;
    }
    proof {
        crate::util::pointer::lemma_tiles_terminates(s, 0);
        lemma_starts_from_bounds(s, 0);
    }
    let mut idx: usize = 0;
    let ghost mut done: Seq<usize> = Seq::empty();
    while idx < spv.len()
        invariant
            s == spv@,
            fits_in_memory(s),
            tiles(s),
            terminates_from(s, idx as int),
            done + starts_from(s, idx as int) == starts(s),
            forall|j: int| 0 <= j < done.len() ==> #[trigger] done[j] + min_reach(op_at(s, done[j] as int)) < s.len(),
        decreases s.len() + 0x10000 - idx,
    {
        proof {
            lemma_starts_step(s, idx as int);
        }
        let reach = min_reach_of(loword(spv[idx]));
        if reach >= spv.len() - idx {
            proof {
                assert(starts(s)[done.len() as int] == idx);
            }
            return false;
        }
        let w = hiword(spv[idx]);
        proof {
            done = done.push(idx);
            assert(done + starts_from(s, idx + w) =~= starts(s));
        }
        idx = idx + w as usize;
    }
    proof {
        assert(starts_from(s, idx as int) =~= Seq::<usize>::empty());
        assert(done =~= starts(s));
    }
    true
}

} // verus!

verus! {

proof fn lemma_increasing_at_least_index(l: Seq<usize>, j: int)
    requires
        forall|a: int, b: int| 0 <= a < b < l.len() ==> #[trigger] l[a] < #[trigger] l[b],
        0 <= j < l.len(),
    ensures
        l[j] >= j,
    decreases j,
{
    if j > 0 {
        lemma_increasing_at_least_index(l, j - 1);
        assert(l[j - 1] < l[j]);
    }
}

/// A stream holds at most as many instructions as words.
pub proof fn lemma_starts_len(s: Seq<u32>)
    requires
        fits_in_memory(s),
    ensures
        starts(s).len() <= s.len(),
{
    lemma_starts_from_bounds(s, 0);
    let l = starts(s);
    if l.len() > 0 {
        lemma_increasing_at_least_index(l, l.len() - 1);
    }
}

} // verus!

verus! {

/// Whether every listed offset is followed by at least `reach` more words.
pub fn check_idxs_reach(spv: &[u32], idxs: &[usize], reach: usize) -> (r: bool)
    ensures
        r == idxs_reach(spv@, idxs@, reach as int),
{
    let mut j: usize = 0;
    while j < idxs.len()
        invariant
            j <= idxs@.len(),
            forall|i: int| 0 <= i < j ==> #[trigger] idxs@[i] + reach < spv@.len(),
        decreases idxs@.len() - j,
    {
        if idxs[j] >= spv.len() || spv.len() - idxs[j] <= reach {
            assert(!(idxs@[j as int] + reach < spv@.len()));
            return false;
        }
        j = j + 1;
    }
    true
}

/// `v` with every word of each listed instruction of `s` overwritten by a one-word `OpNop`.
pub open spec fn nops_over(v: Seq<u32>, s: Seq<u32>, removed: Seq<usize>) -> Seq<u32> {
    Seq::new(v.len(), |p: int|
        if exists|j: int| 0 <= j < removed.len() && #[trigger] removed[j] <= p < removed[j] + wc_at(s, removed[j] as int) {
            spec_encode_word(1, spv::SPV_INSTRUCTION_OP_NOP)
        } else {
            v[p]
        })
}

/// A run of one-word `OpNop`s in front of a stream position from which the stream tiles
/// tiles too.
proof fn lemma_nop_run_tiles(v: Seq<u32>, q: int, e: int)
    requires
        0 <= q <= e <= v.len(),
        forall|p: int| q <= p < e ==> #[trigger] v[p] == spec_encode_word(1, spv::SPV_INSTRUCTION_OP_NOP),
        tiles_from(v, e),
    ensures
        tiles_from(v, q),
    decreases e - q,
{
    if q < e {
        lemma_nop_run_tiles(v, q + 1, e);
        crate::util::lemma_split_encode(1, spv::SPV_INSTRUCTION_OP_NOP);
        assert(wc_at(v, q) == 1);
    }
}

/// Overwriting whole instructions of a stream that tiles by one-word `OpNop`s keeps it
/// tiling, from any instruction on whose overwritten instructions either come later or end
/// before it.
proof fn lemma_nops_over_tiles_from(s: Seq<u32>, removed: Seq<usize>, i: int)
    requires
        0 <= i <= s.len(),
        fits_in_memory(s),
        tiles_from(s, i),
        forall|j: int| 0 <= j < removed.len() ==> starts_from(s, i).contains(#[trigger] removed[j])
            || removed[j] + wc_at(s, removed[j] as int) <= i,
    ensures
        tiles_from(nops_over(s, s, removed), i),
    decreases s.len() - i,
{
    let v = nops_over(s, s, removed);
    if i < s.len() {
        let w = wc_at(s, i);
        lemma_starts_step(s, i);
        lemma_starts_from_bounds(s, i + w);
        assert forall|j: int| 0 <= j < removed.len() implies starts_from(s, i + w).contains(#[trigger] removed[j])
            || removed[j] + wc_at(s, removed[j] as int) <= i + w by {
            if starts_from(s, i).contains(removed[j]) && removed[j] != i {
                let q = choose|q: int| 0 <= q < starts_from(s, i).len() && starts_from(s, i)[q] == removed[j];
                assert(q >= 1);
                assert(starts_from(s, i + w)[q - 1] == removed[j]);
            }
        }
        if i + w < s.len() {
            lemma_nops_over_tiles_from(s, removed, i + w);
        }
        assert(tiles_from(v, i + w));
        if exists|j: int| 0 <= j < removed.len() && removed[j] == i {
            let j0 = choose|j: int| 0 <= j < removed.len() && removed[j] == i;
            assert forall|p: int| i <= p < i + w implies #[trigger] v[p] == spec_encode_word(1, spv::SPV_INSTRUCTION_OP_NOP) by {
                assert(removed[j0] <= p < removed[j0] + wc_at(s, removed[j0] as int));
            }
            lemma_nop_run_tiles(v, i, i + w);
        } else {
            assert forall|j: int| 0 <= j < removed.len() implies !(#[trigger] removed[j] <= i
                && i < removed[j] + wc_at(s, removed[j] as int)) by {
                if starts_from(s, i).contains(removed[j]) {
                    let q = choose|q: int| 0 <= q < starts_from(s, i).len() && starts_from(s, i)[q] == removed[j];
                    lemma_starts_from_bounds(s, i);
                    assert(removed[j] >= i);
                }
            }
            assert(v[i] == s[i]);
        }
    }
}

/// Overwriting whole instructions of a stream that tiles by one-word `OpNop`s keeps it
/// tiling.
pub proof fn lemma_nops_over_tiles(s: Seq<u32>, removed: Seq<usize>)
    requires
        fits_in_memory(s),
        tiles(s),
        forall|j: int| 0 <= j < removed.len() ==> starts(s).contains(#[trigger] removed[j]),
    ensures
        tiles(nops_over(s, s, removed)),
        nops_over(s, s, removed).len() == s.len(),
{
    lemma_nops_over_tiles_from(s, removed, 0);
}

/// Overwrites every word of each listed instruction with a one-word `OpNop`.
pub fn fill_nops(new_spv: &mut Vec<u32>, spv: &[u32], removed: &Vec<usize>)
    requires
        old(new_spv)@.len() == spv@.len(),
        forall|j: int| 0 <= j < removed@.len() ==> #[trigger] removed@[j] < spv@.len()
            && removed@[j] + wc_at(spv@, removed@[j] as int) <= spv@.len(),
    ensures
        final(new_spv)@ == nops_over(old(new_spv)@, spv@, removed@),
{
    let ghost s = spv@;
    let ghost v0 = new_spv@;
    let nop = encode_word(1, spv::SPV_INSTRUCTION_OP_NOP);
    let mut j: usize = 0;
    proof {
        assert(new_spv@ =~= nops_over(v0, s, removed@.take(0)));
    }
    while j < removed.len()
        invariant
            s == spv@,
            nop == spec_encode_word(1, spv::SPV_INSTRUCTION_OP_NOP),
            j <= removed@.len(),
            forall|i: int| 0 <= i < removed@.len() ==> #[trigger] removed@[i] < s.len()
                && removed@[i] + wc_at(s, removed@[i] as int) <= s.len(),
            v0.len() == s.len(),
            new_spv@ == nops_over(v0, s, removed@.take(j as int)),
        decreases removed@.len() - j,
    {
        let r = removed[j];
        assert(removed@[j as int] + wc_at(s, removed@[j as int] as int) <= s.len());
        assert(s.len() == spv.len());
        let end = r + hiword(spv[r]) as usize;
        let ghost prev = new_spv@;
        let mut q: usize = r;
        while q < end
            invariant
                s == spv@,
                nop == spec_encode_word(1, spv::SPV_INSTRUCTION_OP_NOP),
                r <= q <= end,
                end <= s.len(),
                prev.len() == s.len(),
                new_spv@.len() == s.len(),
                forall|p: int| 0 <= p < s.len() ==> #[trigger] new_spv@[p] == if r <= p < q { nop } else { prev[p] },
            decreases end - q,
        {
            new_spv.set(q, nop);
            q = q + 1;
        }
        proof {
            let taken = removed@.take(j + 1);
            assert(taken =~= removed@.take(j as int).push(r));
            assert forall|p: int| 0 <= p < s.len() implies #[trigger] new_spv@[p] == nops_over(v0, s, taken)[p] by {
                if exists|i: int| 0 <= i < removed@.take(j as int).len()
                    && #[trigger] removed@.take(j as int)[i] <= p < removed@.take(j as int)[i] + wc_at(s, removed@.take(j as int)[i] as int) {
                    let i = choose|i: int| 0 <= i < removed@.take(j as int).len()
                        && #[trigger] removed@.take(j as int)[i] <= p < removed@.take(j as int)[i] + wc_at(s, removed@.take(j as int)[i] as int);
                    assert(taken[i] == removed@.take(j as int)[i]);
                }
                if exists|i: int| 0 <= i < taken.len() && #[trigger] taken[i] <= p < taken[i] + wc_at(s, taken[i] as int) {
                    let i = choose|i: int| 0 <= i < taken.len() && #[trigger] taken[i] <= p < taken[i] + wc_at(s, taken[i] as int);
                    if i < j {
                        assert(removed@.take(j as int)[i] == taken[i]);
                    } else {
                        assert(taken[i] == r);
                    }
                }
                if r <= p < end {
                    assert(taken[j as int] == r);
                }
            }
            assert(new_spv@ =~= nops_over(v0, s, taken));
        }
        j = j + 1;
    }
    assert(removed@.take(j as int) =~= removed@);
}

/// Whether `x` is one of the elements of `v`.
pub fn contains_u32(v: &Vec<u32>, x: u32) -> (r: bool)
    ensures
        r == v@.contains(x),
{
    let mut j: usize = 0;
    while j < v.len()
        invariant
            j <= v@.len(),
            forall|i: int| 0 <= i < j ==> v@[i] != x,
        decreases v@.len() - j,
    {
        if v[j] == x {
            return true;
        }
        j = j + 1;
    }
    false
}


/// The words at offset `off` of the listed instructions.
pub fn collect_words(spv: &[u32], idxs: &[usize], off: usize) -> (r: Vec<u32>)
    requires
        forall|j: int| 0 <= j < idxs@.len() ==> #[trigger] idxs@[j] + off < spv@.len(),
    ensures
        r@.len() == idxs@.len(),
        forall|j: int| 0 <= j < idxs@.len() ==> #[trigger] r@[j] == spv@[idxs@[j] + off],
{
    let mut out: Vec<u32> = Vec::new();
    let mut j: usize = 0;
    while j < idxs.len()
        invariant
            j <= idxs@.len(),
            forall|i: int| 0 <= i < idxs@.len() ==> #[trigger] idxs@[i] + off < spv@.len(),
            out@.len() == j,
            forall|i: int| 0 <= i < j ==> #[trigger] out@[i] == spv@[idxs@[i] + off],
        decreases idxs@.len() - j,
    {
        assert(idxs@[j as int] + off < spv@.len());
        assert(spv@.len() == spv.len());
        out.push(spv[idxs[j] + off]);
        j = j + 1;
    }
    out
}

/// The first listed instruction whose word at offset `off` is `id`.
pub open spec fn first_where(s: Seq<u32>, l: Seq<usize>, off: int, id: u32) -> Option<usize>
    decreases l.len(),
{
    if l.len() == 0 {
        None
    } else if s[l[0] + off] == id {
        Some(l[0])
    } else {
        first_where(s, l.drop_first(), off, id)
    }
}

/// The first listed instruction whose word at offset `off` is `id`.
pub fn find_first_where(spv: &[u32], l: &Vec<usize>, off: usize, id: u32) -> (r: Option<usize>)
    requires
        idxs_reach(spv@, l@, off as int),
    ensures
        r == first_where(spv@, l@, off as int, id),
{
    let ghost s = spv@;
    let mut j: usize = 0;
    assert(l@.skip(0) =~= l@);
    while j < l.len()
        invariant
            s == spv@,
            j <= l@.len(),
            idxs_reach(s, l@, off as int),
            first_where(s, l@.skip(j as int), off as int, id) == first_where(s, l@, off as int, id),
        decreases l@.len() - j,
    {
        let k = l[j];
        assert(l@[j as int] + off < s.len());
        assert(s.len() == spv.len());
        assert(l@.skip(j as int)[0] == k);
        assert(l@.skip(j as int).drop_first() =~= l@.skip(j + 1));
        if spv[k + off] == id {
            return Some(k);
        }
        j = j + 1;
    }
    assert(l@.skip(j as int).len() == 0);
    None
}

pub proof fn lemma_first_where_listed(s: Seq<u32>, l: Seq<usize>, off: int, id: u32)
    ensures
        first_where(s, l, off, id) matches Some(k) ==> l.contains(k) && s[k + off] == id,
    decreases l.len(),
{
    if l.len() > 0 && s[l[0] + off] != id {
        lemma_first_where_listed(s, l.drop_first(), off, id);
        if first_where(s, l, off, id) is Some {
            let k = first_where(s, l, off, id)->0;
            let i = choose|i: int| 0 <= i < l.drop_first().len() && l.drop_first()[i] == k;
            assert(l[i + 1] == k);
        }
    } else if l.len() > 0 {
        assert(l[0] == first_where(s, l, off, id)->0);
    }
}

} // verus!
