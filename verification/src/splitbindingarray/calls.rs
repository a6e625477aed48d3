use vstd::prelude::*;

use crate::spv;
use crate::splitbindingarray::arrays::{arrayed_index, arrayed_index_from, ArrayedEntry};
use crate::splitbindingarray::unroll::{nop_range, nopped};
use crate::util::instruction::wc_at;
use crate::util::{encode_word, hiword, insert_views, spec_encode_word, InsertView, InstructionInsert};

verus! {

/// The offset of the first argument of an `OpFunctionCall`.
pub const ARGUMENT_OFFSET: usize = 4;

/// The position of the first binding array whose variable or parameter has the id `id`.
pub(crate) fn arrayed_with_id(spv: &[u32], arrayed: &Vec<ArrayedEntry>, id: u32) -> (r: Option<usize>)
    requires
        forall|j: int| 0 <= j < arrayed@.len() ==> (#[trigger] arrayed@[j]).0 + 2 < spv@.len(),
    ensures
        r == arrayed_index(spv@, arrayed@, id),
        r matches Some(k) ==> k < arrayed@.len() && spv@[arrayed@[k as int].0 + 2] == id,
        r is None ==> forall|j: int| 0 <= j < arrayed@.len() ==> spv@[(#[trigger] arrayed@[j]).0 + 2] != id,
{
    let mut k: usize = 0;
    while k < arrayed.len()
        invariant
            k <= arrayed@.len(),
            forall|j: int| 0 <= j < arrayed@.len() ==> (#[trigger] arrayed@[j]).0 + 2 < spv@.len(),
            forall|j: int| 0 <= j < k ==> spv@[(#[trigger] arrayed@[j]).0 + 2] != id,
            arrayed_index(spv@, arrayed@, id) == arrayed_index_from(spv@, arrayed@, id, k as int),
        decreases arrayed@.len() - k,
    {
        assert(arrayed@[k as int].0 + 2 < spv@.len());
        assert(spv@.len() == spv.len());
        if spv[arrayed[k].0 + 2] == id {
            return Some(k);
        }
        k = k + 1;
    }
    None
}

/// The arguments that stand for the argument `id`: the elements of the binding array with that
/// id, or `id` itself; `None` when the array has more elements than a call can take.
pub open spec fn expanded_argument(s: Seq<u32>, arrayed: Seq<ArrayedEntry>, lengths: Seq<u32>, bases: Seq<u32>, id: u32)
    -> Option<Seq<u32>>
{
    match arrayed_index(s, arrayed, id) {
        Some(k) => if lengths[k as int] > 0xffff {
            None
        } else {
            Some(Seq::new(lengths[k as int] as nat, |i: int| (bases[k as int] + i) as u32))
        },
        None => Some(seq![id]),
    }
}

/// The expanded first `n` arguments of the call at `call`; `None` when one cannot be expanded.
pub open spec fn call_arguments(
    s: Seq<u32>,
    arrayed: Seq<ArrayedEntry>,
    lengths: Seq<u32>,
    bases: Seq<u32>,
    call: int,
    n: int,
) -> Option<Seq<u32>>
    decreases n,
{
    if n <= 0 {
        Some(Seq::empty())
    } else {
        match call_arguments(s, arrayed, lengths, bases, call, n - 1) {
            None => None,
            Some(a) => match expanded_argument(s, arrayed, lengths, bases, s[call + ARGUMENT_OFFSET + n - 1]) {
                None => None,
                Some(e) => Some(a + e),
            },
        }
    }
}

/// The number of arguments of an `OpFunctionCall` of `wc` words.
pub open spec fn argument_count(wc: int) -> int {
    if wc >= ARGUMENT_OFFSET { wc - ARGUMENT_OFFSET } else { 0 }
}

/// The words and instruction inserts after the first `c` listed calls were rewritten, from
/// `new0` and `ins0`; `None` when one of them cannot be.
pub open spec fn calls_rewritten(
    s: Seq<u32>,
    new0: Seq<u32>,
    ins0: Seq<InsertView>,
    calls: Seq<usize>,
    arrayed: Seq<ArrayedEntry>,
    lengths: Seq<u32>,
    bases: Seq<u32>,
    c: int,
) -> Option<(Seq<u32>, Seq<InsertView>)>
    decreases c,
{
    if c <= 0 {
        Some((new0, ins0))
    } else {
        match calls_rewritten(s, new0, ins0, calls, arrayed, lengths, bases, c - 1) {
            None => None,
            Some(p) => {
                let call = calls[c - 1] as int;
                let wc = wc_at(s, call);
                match call_arguments(s, arrayed, lengths, bases, call, argument_count(wc)) {
                    None => None,
                    Some(a) => if wc >= ARGUMENT_OFFSET && a.len() != wc - ARGUMENT_OFFSET {
                        if a.len() > 0xffff - ARGUMENT_OFFSET {
                            None
                        } else {
                            Some((nopped(p.0, call, call + wc), p.1.push((call as usize, seq![
                                spec_encode_word((a.len() + ARGUMENT_OFFSET) as u16, spv::SPV_INSTRUCTION_OP_FUNCTION_CALL),
                                s[call + 1], s[call + 2], s[call + 3],
                            ] + a))))
                        }
                    } else {
                        Some(p)
                    },
                }
            },
        }
    }
}

proof fn lemma_call_arguments_stay_none(
    s: Seq<u32>,
    arrayed: Seq<ArrayedEntry>,
    lengths: Seq<u32>,
    bases: Seq<u32>,
    call: int,
    n: int,
    m: int,
)
    requires
        n <= m,
        call_arguments(s, arrayed, lengths, bases, call, n) is None,
    ensures
        call_arguments(s, arrayed, lengths, bases, call, m) is None,
    decreases m - n,
{
    if n < m {
        lemma_call_arguments_stay_none(s, arrayed, lengths, bases, call, n, m - 1);
    }
}

proof fn lemma_calls_rewritten_stay_none(
    s: Seq<u32>,
    new0: Seq<u32>,
    ins0: Seq<InsertView>,
    calls: Seq<usize>,
    arrayed: Seq<ArrayedEntry>,
    lengths: Seq<u32>,
    bases: Seq<u32>,
    c: int,
    m: int,
)
    requires
        c <= m,
        calls_rewritten(s, new0, ins0, calls, arrayed, lengths, bases, c) is None,
    ensures
        calls_rewritten(s, new0, ins0, calls, arrayed, lengths, bases, m) is None,
    decreases m - c,
{
    if c < m {
        lemma_calls_rewritten_stay_none(s, new0, ins0, calls, arrayed, lengths, bases, c, m - 1);
    }
}

/// Rewrites each `OpFunctionCall` that passes a binding array so that it passes the array's
/// elements in its place, one argument per element; calls that pass none are left alone.
/// `Err` when a rewritten call would not fit in one instruction.
pub(crate) fn rewrite_calls(
    spv: &[u32],
    new_spv: &mut Vec<u32>,
    inserts: &mut Vec<InstructionInsert>,
    calls: &Vec<usize>,
    arrayed: &Vec<ArrayedEntry>,
    lengths: &Vec<u32>,
    bases: &Vec<u32>,
) -> (r: Result<(), ()>)
    requires
        old(new_spv)@.len() == spv@.len(),
        lengths@.len() == arrayed@.len(),
        bases@.len() == arrayed@.len(),
        forall|j: int| 0 <= j < arrayed@.len() ==> (#[trigger] arrayed@[j]).0 + 2 < spv@.len(),
        forall|j: int| 0 <= j < arrayed@.len() ==> #[trigger] bases@[j] + lengths@[j] <= u32::MAX,
        forall|j: int| 0 <= j < calls@.len() ==> (#[trigger] calls@[j]) + 3 < spv@.len()
            && calls@[j] + wc_at(spv@, calls@[j] as int) <= spv@.len(),
    ensures
        final(new_spv)@.len() == spv@.len(),
        ({
            let w = calls_rewritten(spv@, old(new_spv)@, insert_views(old(inserts)@), calls@, arrayed@, lengths@, bases@,
                calls@.len() as int);
            &&& r is Ok <==> w is Some
            &&& r is Ok ==> final(new_spv)@ == w->Some_0.0 && insert_views(final(inserts)@) == w->Some_0.1
        }),
{
    let ghost s = spv@;
    let ghost new0 = new_spv@;
    let ghost ins0 = insert_views(inserts@);
    let mut c: usize = 0;
    while c < calls.len()
        invariant
            s == spv@,
            new_spv@.len() == s.len(),
            calls_rewritten(s, new0, ins0, calls@, arrayed@, lengths@, bases@, c as int) == Some(
                (new_spv@, insert_views(inserts@)),
            ),
            new0 == old(new_spv)@,
            ins0 == insert_views(old(inserts)@),
            lengths@.len() == arrayed@.len(),
            bases@.len() == arrayed@.len(),
            forall|j: int| 0 <= j < arrayed@.len() ==> (#[trigger] arrayed@[j]).0 + 2 < s.len(),
            forall|j: int| 0 <= j < arrayed@.len() ==> #[trigger] bases@[j] + lengths@[j] <= u32::MAX,
            forall|j: int| 0 <= j < calls@.len() ==> (#[trigger] calls@[j]) + 3 < s.len()
                && calls@[j] + wc_at(s, calls@[j] as int) <= s.len(),
            c <= calls@.len(),
        decreases calls@.len() - c,
    {
        let call = calls[c];
        assert(calls@[c as int] + 3 < s.len());
        assert(s.len() == spv.len());
        let word_count = hiword(spv[call]) as usize;
        let ghost prev = calls_rewritten(s, new0, ins0, calls@, arrayed@, lengths@, bases@, c as int)->Some_0;
        let mut arguments: Vec<u32> = Vec::new();
        let mut p: usize = call + ARGUMENT_OFFSET;
        while p < call + word_count
            invariant
                s == spv@,
                s.len() == spv.len(),
                call + word_count <= s.len(),
                word_count == wc_at(s, call as int),
                call + ARGUMENT_OFFSET <= p,
                p <= call + word_count || p == call + ARGUMENT_OFFSET,
                call_arguments(s, arrayed@, lengths@, bases@, call as int, p - call - ARGUMENT_OFFSET) == Some(
                    arguments@,
                ),
                calls_rewritten(s, new0, ins0, calls@, arrayed@, lengths@, bases@, c as int) == Some(
                    (new_spv@, insert_views(inserts@)),
                ),
                new0 == old(new_spv)@,
                ins0 == insert_views(old(inserts)@),
                c < calls@.len(),
                calls@[c as int] == call,
                new_spv@.len() == s.len(),
                forall|j: int| 0 <= j < arrayed@.len() ==> (#[trigger] arrayed@[j]).0 + 2 < s.len(),
                forall|j: int| 0 <= j < arrayed@.len() ==> #[trigger] bases@[j] + lengths@[j] <= u32::MAX,
                lengths@.len() == arrayed@.len(),
                bases@.len() == arrayed@.len(),
                arguments@.len() <= 0x10000 * (p - call),
            decreases call + word_count - p,
        {
            let argument_id = spv[p];
            let ghost n = p - call - ARGUMENT_OFFSET;
            let ghost before = arguments@;
            match arrayed_with_id(spv, arrayed, argument_id) {
                Some(k) => {
                    let base_id = bases[k];
                    let length = lengths[k];
                    assert(bases@[k as int] + lengths@[k as int] <= u32::MAX);
                    if length > 0xffff {
                        proof {
                            lemma_call_arguments_stay_none(s, arrayed@, lengths@, bases@, call as int, n + 1,
                                argument_count(word_count as int));
                            lemma_calls_rewritten_stay_none(s, new0, ins0, calls@, arrayed@, lengths@, bases@, c + 1,
                                calls@.len() as int);
                        }
                        return Err(());
                    }
                    let mut i: u32 = 0;
                    while i < length
                        invariant
                            i <= length <= 0xffff,
                            base_id + length <= u32::MAX,
                            arguments@.len() + (length - i) <= 0x10000 * (p + 1 - call),
                            arguments@ == before + Seq::new(i as nat, |q: int| (base_id + q) as u32),
                        decreases length - i,
                    {
                        arguments.push(base_id + i);
                        proof {
                            assert(Seq::new((i + 1) as nat, |q: int| (base_id + q) as u32) =~= Seq::new(
                                i as nat,
                                |q: int| (base_id + q) as u32,
                            ).push((base_id + i) as u32));
                        }
                        i = i + 1;
                    }
                    assert(expanded_argument(s, arrayed@, lengths@, bases@, argument_id) == Some(
                        Seq::new(length as nat, |q: int| (base_id + q) as u32),
                    ));
                },
                None => {
                    arguments.push(argument_id);
                    assert(expanded_argument(s, arrayed@, lengths@, bases@, argument_id) == Some(seq![argument_id]));
                    assert(arguments@ =~= before + seq![argument_id]);
                },
            }
            assert(s[call + ARGUMENT_OFFSET + (n + 1) - 1] == argument_id);
            assert(call_arguments(s, arrayed@, lengths@, bases@, call as int, n + 1) == Some(arguments@));
            p = p + 1;
        }
        let ghost a = arguments@;
        assert(p - call - ARGUMENT_OFFSET == argument_count(word_count as int));
        if word_count >= ARGUMENT_OFFSET && arguments.len() != word_count - ARGUMENT_OFFSET {
            if arguments.len() > 0xffff - ARGUMENT_OFFSET {
                proof {
                    lemma_calls_rewritten_stay_none(s, new0, ins0, calls@, arrayed@, lengths@, bases@, c + 1,
                        calls@.len() as int);
                }
                return Err(());
            }
            nop_range(new_spv, call, call + word_count);
            let mut new_instruction: Vec<u32> = Vec::new();
            new_instruction.push(encode_word((arguments.len() + ARGUMENT_OFFSET) as u16, spv::SPV_INSTRUCTION_OP_FUNCTION_CALL));
            new_instruction.push(spv[call + 1]);
            new_instruction.push(spv[call + 2]);
            new_instruction.push(spv[call + 3]);
            new_instruction.append(&mut arguments);
            let ghost old_inserts = inserts@;
            let ghost instr = new_instruction@;
            inserts.push(InstructionInsert { previous_spv_idx: call, instruction: new_instruction });
            proof {
                assert(instr =~= seq![
                    spec_encode_word((a.len() + ARGUMENT_OFFSET) as u16, spv::SPV_INSTRUCTION_OP_FUNCTION_CALL),
                    s[call + 1], s[call + 2], s[call + 3],
                ] + a);
                assert(insert_views(inserts@) =~= insert_views(old_inserts).push((call, instr)));
            }
        }
        c = c + 1;
    }
    Ok(())
}

/// `new0` after the first `j` listed instructions whose target is a binding array variable or
/// parameter, and still holds it there, were overwritten.
pub open spec fn unused_targets_nopped(s: Seq<u32>, new0: Seq<u32>, idxs: Seq<usize>, arrayed: Seq<ArrayedEntry>, j: int)
    -> Seq<u32>
    decreases j,
{
    if j <= 0 {
        new0
    } else {
        let prev = unused_targets_nopped(s, new0, idxs, arrayed, j - 1);
        let idx = idxs[j - 1] as int;
        if prev[idx + 1] == s[idx + 1] && arrayed_index(s, arrayed, s[idx + 1]) is Some {
            nopped(prev, idx, idx + wc_at(s, idx))
        } else {
            prev
        }
    }
}

/// Overwrites each listed instruction (an `OpDecorate` or `OpName`) whose target is a binding
/// array variable or parameter and was not moved to its first element.
pub(crate) fn nop_unused_targets(spv: &[u32], new_spv: &mut Vec<u32>, idxs: &Vec<usize>, arrayed: &Vec<ArrayedEntry>)
    requires
        old(new_spv)@.len() == spv@.len(),
        forall|j: int| 0 <= j < arrayed@.len() ==> (#[trigger] arrayed@[j]).0 + 2 < spv@.len(),
        forall|j: int| 0 <= j < idxs@.len() ==> (#[trigger] idxs@[j]) + 1 < spv@.len()
            && idxs@[j] + wc_at(spv@, idxs@[j] as int) <= spv@.len(),
    ensures
        final(new_spv)@ == unused_targets_nopped(spv@, old(new_spv)@, idxs@, arrayed@, idxs@.len() as int),
        final(new_spv)@.len() == spv@.len(),
{
    let ghost s = spv@;
    let ghost new0 = new_spv@;
    let mut j: usize = 0;
    while j < idxs.len()
        invariant
            s == spv@,
            new_spv@.len() == s.len(),
            new0 == old(new_spv)@,
            new_spv@ == unused_targets_nopped(s, new0, idxs@, arrayed@, j as int),
            forall|q: int| 0 <= q < arrayed@.len() ==> (#[trigger] arrayed@[q]).0 + 2 < s.len(),
            forall|q: int| 0 <= q < idxs@.len() ==> (#[trigger] idxs@[q]) + 1 < s.len()
                && idxs@[q] + wc_at(s, idxs@[q] as int) <= s.len(),
            j <= idxs@.len(),
        decreases idxs@.len() - j,
    {
        let idx = idxs[j];
        assert(idxs@[j as int] + 1 < s.len());
        assert(s.len() == spv.len());
        let target = spv[idx + 1];
        if new_spv[idx + 1] == target && arrayed_with_id(spv, arrayed, target).is_some() {
            let wc = hiword(spv[idx]) as usize;
            nop_range(new_spv, idx, idx + wc);
        }
        j = j + 1;
    }
}

} // verus!
