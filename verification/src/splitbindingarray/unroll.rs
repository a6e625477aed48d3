use vstd::prelude::*;

use crate::correction::CorrectionType;
use crate::spv;
use crate::splitbindingarray::arrays::{arrayed_resources, ArrayedEntry};
use crate::util::decorate::AffectedDecoration;
use crate::util::ensure::{ensure_type_pointer, ensured_bound, ensured_decl, ensured_id};
use crate::util::function::{
    enclosing_function, functions_of, get_enclosing_function_index, get_function_from_parameter, parameter_entry,
};
use crate::util::instruction::{fits_in_memory, idxs_reach, op_starts, terminates_from, wc_at};
use crate::util::{
    encode_word, hiword, insert_views, loword, spec_encode_word, spec_hiword, InsertView, InstructionInsert,
};

verus! {

/// A parameter of binding array type to expand in a function type: the function type's id,
/// the parameter's position, the pointer type of its elements and the array's length.
pub type FunctionTypeChange = (u32, usize, u32, u32);

/// `v` with the words `start..end` overwritten by one-word `OpNop`s.
pub open spec fn nopped(v: Seq<u32>, start: int, end: int) -> Seq<u32> {
    Seq::new(v.len(), |p: int| if start <= p < end { spec_encode_word(1, spv::SPV_INSTRUCTION_OP_NOP) } else { v[p] })
}

/// Overwrites the words `start..end` of `v` with one-word `OpNop`s.
pub(crate) fn nop_range(v: &mut Vec<u32>, start: usize, end: usize)
    requires
        start <= end <= old(v)@.len(),
    ensures
        final(v)@ == nopped(old(v)@, start as int, end as int),
{
    let ghost v0 = v@;
    let nop = encode_word(1, spv::SPV_INSTRUCTION_OP_NOP);
    let mut q = start;
    while q < end
        invariant
            start <= q <= end <= v0.len(),
            v@.len() == v0.len(),
            nop == spec_encode_word(1, spv::SPV_INSTRUCTION_OP_NOP),
            forall|p: int| 0 <= p < v0.len() ==> #[trigger] v@[p] == if start <= p < q { nop } else { v0[p] },
        decreases end - q,
    {
        v.set(q, nop);
        q = q + 1;
    }
    assert(v@ =~= Seq::new(v0.len(), |p: int| if start <= p < end {
        spec_encode_word(1, spv::SPV_INSTRUCTION_OP_NOP)
    } else {
        v0[p]
    }));
}

/// The word `p` is the operand at offset 1 of one of the first `j` listed instructions, and
/// holds `old_id` in `s`.
pub open spec fn retargeted(s: Seq<u32>, idxs: Seq<usize>, old_id: u32, p: int, j: int) -> bool {
    s[p] == old_id && exists|q: int| 0 <= q < j && #[trigger] idxs[q] + 1 == p
}

/// Replaces the word at offset 1 of each listed instruction that holds `old_id` by `new_id`.
pub(crate) fn retarget(v: &mut Vec<u32>, spv: &[u32], idxs: &Vec<usize>, old_id: u32, new_id: u32)
    requires
        old(v)@.len() == spv@.len(),
        idxs_reach(spv@, idxs@, 1),
    ensures
        final(v)@ == retargeted_words(spv@, old(v)@, idxs@, old_id, new_id),
{
    let ghost v0 = v@;
    let mut j: usize = 0;
    while j < idxs.len()
        invariant
            j <= idxs@.len(),
            v@.len() == spv@.len(),
            v0.len() == spv@.len(),
            idxs_reach(spv@, idxs@, 1),
            forall|p: int| 0 <= p < v0.len() ==> #[trigger] v@[p] == if retargeted(spv@, idxs@, old_id, p, j as int) {
                new_id
            } else {
                v0[p]
            },
        decreases idxs@.len() - j,
    {
        let d = idxs[j];
        assert(idxs@[j as int] + 1 < spv@.len());
        assert(spv@.len() == spv.len());
        let ghost prev = v@;
        if spv[d + 1] == old_id {
            v.set(d + 1, new_id);
        }
        assert forall|p: int| 0 <= p < v0.len() implies #[trigger] v@[p] == if retargeted(spv@, idxs@, old_id, p, j + 1) {
            new_id
        } else {
            v0[p]
        } by {
            if p == d + 1 {
                assert(idxs@[j as int] + 1 == p);
            } else {
                assert(prev[p] == v@[p]);
                if retargeted(spv@, idxs@, old_id, p, j + 1) {
                    let q = choose|q: int| 0 <= q < j + 1 && #[trigger] idxs@[q] + 1 == p;
                    assert(q != j);
                    assert(retargeted(spv@, idxs@, old_id, p, j as int));
                } else {
                    assert(!retargeted(spv@, idxs@, old_id, p, j as int));
                }
            }
        }
        j = j + 1;
    }
    assert(v@ =~= Seq::new(v0.len(), |p: int| if retargeted(spv@, idxs@, old_id, p, idxs@.len() as int) {
        new_id
    } else {
        v0[p]
    }));
}

/// The affected decorations of one binding array: none for a parameter; for a variable of
/// `length` elements, one for each element after the first, which takes the variable's
/// decorations over.
pub open spec fn element_affected(s: Seq<u32>, e: ArrayedEntry, length: u32, base: u32) -> Seq<AffectedDecoration> {
    if op_at_is_parameter(s, e.0) || length == 0 {
        Seq::empty()
    } else {
        Seq::new((length - 1) as nat, |i: int| AffectedDecoration {
            original_res_id: s[e.0 + 2],
            new_res_id: (base + 1 + i) as u32,
            correction_type: CorrectionType::SplitBindingArray,
        })
    }
}

/// The affected decorations of the first `k` binding arrays.
pub open spec fn split_affected(s: Seq<u32>, arrayed: Seq<ArrayedEntry>, lengths: Seq<u32>, bases: Seq<u32>, k: int)
    -> Seq<AffectedDecoration>
    decreases k,
{
    if k <= 0 {
        Seq::empty()
    } else {
        split_affected(s, arrayed, lengths, bases, k - 1) + element_affected(s, arrayed[k - 1], lengths[k - 1], bases[k - 1])
    }
}

/// The storage class of the elements of a binding array: uniform constant for images and
/// samplers, uniform for buffers.
pub open spec fn element_class(opaque: bool) -> u32 {
    if opaque {
        spv::SPV_STORAGE_CLASS_UNIFORM_CONSTANT
    } else {
        spv::SPV_STORAGE_CLASS_UNIFORM
    }
}

/// `v` with the operand at offset 1 of each listed instruction that holds `old_id` in `s` set
/// to `new_id`.
pub open spec fn retargeted_words(s: Seq<u32>, v: Seq<u32>, idxs: Seq<usize>, old_id: u32, new_id: u32) -> Seq<u32> {
    Seq::new(v.len(), |p: int| if retargeted(s, idxs, old_id, p, idxs.len() as int) { new_id } else { v[p] })
}

/// The `OpVariable`s of the first `n` elements of a binding array, with ids from `base`.
pub open spec fn element_variables(type_pointer: u32, base: u32, class: u32, n: int) -> Seq<u32>
    decreases n,
{
    if n <= 0 {
        Seq::empty()
    } else {
        element_variables(type_pointer, base, class, n - 1) + seq![
            spec_encode_word(4, spv::SPV_INSTRUCTION_OP_VARIABLE),
            type_pointer,
            (base + n - 1) as u32,
            class,
        ]
    }
}

/// The `OpFunctionParameter`s of the first `n` elements of a binding array, with ids from
/// `base`.
pub open spec fn element_parameters(type_pointer: u32, base: u32, n: int) -> Seq<u32>
    decreases n,
{
    if n <= 0 {
        Seq::empty()
    } else {
        element_parameters(type_pointer, base, n - 1) + seq![
            spec_encode_word(3, spv::SPV_INSTRUCTION_OP_FUNCTION_PARAMETER),
            type_pointer,
            (base + n - 1) as u32,
        ]
    }
}

/// What unrolling the binding arrays works on: the bases of the element ids, the next free
/// id, the new words, the header, the instruction inserts and the function type changes.
pub type UnrollState = (Seq<u32>, int, Seq<u32>, Seq<u32>, Seq<InsertView>, Seq<FunctionTypeChange>);

/// The state after the first `k` binding arrays were unrolled, from `st0`: for each array,
/// the pointer type of its elements is looked up (taking a fresh id when it is not declared),
/// one id per element is taken and the array's declaration is overwritten; a variable gets one
/// variable per element, declared in the header after the pointer type, and its decorations
/// and names go to its first element; a parameter gets one parameter per element, inserted
/// after it, and its function type is recorded for expansion. `None` when the ids run out.
pub open spec fn unrolled(
    s: Seq<u32>,
    pointers: Seq<usize>,
    decorates: Seq<usize>,
    names: Seq<usize>,
    arrayed: Seq<ArrayedEntry>,
    lengths: Seq<u32>,
    st0: UnrollState,
    k: int,
) -> Option<UnrollState>
    decreases k,
{
    if k <= 0 {
        Some(st0)
    } else {
        match unrolled(s, pointers, decorates, names, arrayed, lengths, st0, k - 1) {
            None => None,
            Some(p) => {
                let e = arrayed[k - 1];
                let vfp = e.0 as int;
                if p.1 >= u32::MAX {
                    None
                } else {
                    let class = element_class(e.2);
                    let under = s[e.1 + 2];
                    let after = ensured_bound(s, pointers, class, under, p.1);
                    let tp = ensured_id(s, pointers, class, under, p.1 as u32);
                    let length = lengths[k - 1];
                    if u32::MAX - after < length {
                        None
                    } else {
                        let base = after as u32;
                        let v = nopped(p.2, vfp, vfp + wc_at(s, vfp));
                        if !op_at_is_parameter(s, e.0) {
                            let old_id = s[vfp + 2];
                            Some((
                                p.0.push(base),
                                after + length,
                                retargeted_words(s, retargeted_words(s, v, decorates, old_id, base), names, old_id, base),
                                p.3 + ensured_decl(s, pointers, spv::SPV_INSTRUCTION_OP_TYPE_POINTER, class, under,
                                    p.1 as u32) + element_variables(tp, base, class, length as int),
                                p.4,
                                p.5,
                            ))
                        } else {
                            Some((
                                p.0.push(base),
                                after + length,
                                v,
                                p.3,
                                p.4.push((e.0, element_parameters(tp, base, length as int))),
                                p.5.push((s[enclosing_function(s, e.0)->0 + 4], parameter_entry(s, e.0).parameter_index,
                                    tp, length)),
                            ))
                        }
                    }
                }
            },
        }
    }
}

proof fn lemma_unrolled_stay_none(
    s: Seq<u32>,
    pointers: Seq<usize>,
    decorates: Seq<usize>,
    names: Seq<usize>,
    arrayed: Seq<ArrayedEntry>,
    lengths: Seq<u32>,
    st0: UnrollState,
    k: int,
    m: int,
)
    requires
        k <= m,
        unrolled(s, pointers, decorates, names, arrayed, lengths, st0, k) is None,
    ensures
        unrolled(s, pointers, decorates, names, arrayed, lengths, st0, m) is None,
    decreases m - k,
{
    if k < m {
        lemma_unrolled_stay_none(s, pointers, decorates, names, arrayed, lengths, st0, k, m - 1);
    }
}

/// Declares the variables of each binding array element (or, for a parameter, inserts the
/// parameters), overwrites the array variables and parameters, renames the decorations and
/// names of the array variables to their first element, and records the affected bindings
/// and the function types to expand. Returns the bases of the element ids, or `Err` when the
/// ids run out.
pub(crate) fn unroll_arrays(
    spv: &[u32],
    new_spv: &mut Vec<u32>,
    ib: &mut u32,
    header: &mut Vec<u32>,
    inserts: &mut Vec<InstructionInsert>,
    affected: &mut Vec<AffectedDecoration>,
    changes: &mut Vec<FunctionTypeChange>,
    arrayed: &Vec<ArrayedEntry>,
    lengths: &Vec<u32>,
    pointers: &Vec<usize>,
    decorates: &Vec<usize>,
    names: &Vec<usize>,
) -> (r: Result<Vec<u32>, ()>)
    requires
        terminates_from(spv@, 0),
        fits_in_memory(spv@),
        old(new_spv)@.len() == spv@.len(),
        lengths@.len() == arrayed@.len(),
        forall|j: int| 0 <= j < arrayed@.len() ==> (#[trigger] arrayed@[j]).0 + 2 < spv@.len()
            && arrayed@[j].0 + wc_at(spv@, arrayed@[j].0 as int) <= spv@.len()
            && arrayed@[j].1 + 3 < spv@.len()
            && (op_at_is_parameter(spv@, arrayed@[j].0) ==> enclosing_function(spv@, arrayed@[j].0) is Some),
        idxs_reach(spv@, pointers@, 3),
        idxs_reach(spv@, decorates@, 1),
        idxs_reach(spv@, names@, 1),
        idxs_reach(spv@, functions_of(spv@), 4),
    ensures
        final(new_spv)@.len() == spv@.len(),
        *final(ib) >= *old(ib),
        ({
            let u = unrolled(spv@, pointers@, decorates@, names@, arrayed@, lengths@, (Seq::empty(), *old(ib) as int,
                old(new_spv)@, old(header)@, insert_views(old(inserts)@), old(changes)@), arrayed@.len() as int);
            &&& r is Ok <==> u is Some
            &&& r matches Ok(bases) ==> bases@ == u->Some_0.0 && *final(ib) == u->Some_0.1 && final(new_spv)@
                == u->Some_0.2 && final(header)@ == u->Some_0.3 && insert_views(final(inserts)@) == u->Some_0.4
                && final(changes)@ == u->Some_0.5
        }),
        r matches Ok(bases) ==> {
            &&& bases@.len() == arrayed@.len()
            &&& forall|j: int| 0 <= j < arrayed@.len() ==> #[trigger] bases@[j] + lengths@[j] <= u32::MAX
            &&& final(affected)@ == old(affected)@ + split_affected(spv@, arrayed@, lengths@, bases@, arrayed@.len() as int)
        },
{
    let ghost s = spv@;
    let ghost a0 = affected@;
    let ghost ib0 = *ib;
    let ghost st0: UnrollState = (Seq::empty(), *ib as int, new_spv@, header@, insert_views(inserts@), changes@);
    let mut bases: Vec<u32> = Vec::new();
    let mut k: usize = 0;
    while k < arrayed.len()
        invariant
            s == spv@,
            terminates_from(s, 0),
            fits_in_memory(s),
            new_spv@.len() == s.len(),
            lengths@.len() == arrayed@.len(),
            forall|j: int| 0 <= j < arrayed@.len() ==> (#[trigger] arrayed@[j]).0 + 2 < s.len()
                && arrayed@[j].0 + wc_at(s, arrayed@[j].0 as int) <= s.len()
                && arrayed@[j].1 + 3 < s.len()
                && (op_at_is_parameter(s, arrayed@[j].0) ==> enclosing_function(s, arrayed@[j].0) is Some),
            idxs_reach(s, pointers@, 3),
            idxs_reach(s, decorates@, 1),
            idxs_reach(s, names@, 1),
            idxs_reach(s, functions_of(s), 4),
            k <= arrayed@.len(),
            bases@.len() == k,
            forall|j: int| 0 <= j < k ==> #[trigger] bases@[j] + lengths@[j] <= u32::MAX,
            affected@ == a0 + split_affected(s, arrayed@, lengths@, bases@, k as int),
            *ib >= ib0,
            ib0 == *old(ib),
            st0 == (Seq::<u32>::empty(), *old(ib) as int, old(new_spv)@, old(header)@, insert_views(old(inserts)@),
                old(changes)@),
            unrolled(s, pointers@, decorates@, names@, arrayed@, lengths@, st0, k as int) == Some(
                (bases@, *ib as int, new_spv@, header@, insert_views(inserts@), changes@),
            ),
        decreases arrayed@.len() - k,
    {
        let (vfp, ta, opaque) = arrayed[k];
        assert(arrayed@[k as int].0 + 2 < s.len());
        assert(s.len() == spv.len());
        let ghost pk: UnrollState = (bases@, *ib as int, new_spv@, header@, insert_views(inserts@), changes@);
        let wc = hiword(spv[vfp]) as usize;
        nop_range(new_spv, vfp, vfp + wc);
        let ghost v = new_spv@;

        let mut new_type_instructions: Vec<u32> = Vec::new();
        let underlying_type_id = spv[ta + 2];
        let class = if opaque { spv::SPV_STORAGE_CLASS_UNIFORM_CONSTANT } else { spv::SPV_STORAGE_CLASS_UNIFORM };
        assert(class == element_class(arrayed@[k as int].2));
        if *ib == u32::MAX {
            proof {
                lemma_unrolled_stay_none(s, pointers@, decorates@, names@, arrayed@, lengths@, st0, k + 1, arrayed@.len() as int);
            }
            return Err(());
        }
        proof {
            crate::util::ensure::lemma_ensured_bound(s, pointers@, class, underlying_type_id, *ib as int);
        }
        let type_pointer_id = ensure_type_pointer(spv, pointers.as_slice(), ib, &mut new_type_instructions, class,
            underlying_type_id);
        let ghost decl = new_type_instructions@;
        let length = lengths[k];
        let base_id = *ib;
        if u32::MAX - *ib < length {
            proof {
                lemma_unrolled_stay_none(s, pointers@, decorates@, names@, arrayed@, lengths@, st0, k + 1, arrayed@.len() as int);
            }
            return Err(());
        }
        *ib = *ib + length;

        if loword(spv[vfp]) == spv::SPV_INSTRUCTION_OP_VARIABLE {
            let mut i: u32 = 0;
            while i < length
                invariant
                    i <= length,
                    base_id + length <= u32::MAX,
                    new_type_instructions@ == decl + element_variables(type_pointer_id, base_id, class, i as int),
                decreases length - i,
            {
                new_type_instructions.push(encode_word(4, spv::SPV_INSTRUCTION_OP_VARIABLE));
                new_type_instructions.push(type_pointer_id);
                new_type_instructions.push(base_id + i);
                new_type_instructions.push(class);
                proof {
                    assert(new_type_instructions@ =~= decl + element_variables(type_pointer_id, base_id, class, i + 1));
                }
                i = i + 1;
            }
            let ghost h = header@;
            let ghost nt = new_type_instructions@;
            header.append(&mut new_type_instructions);
            assert(header@ =~= h + nt);
            let old_result_id = spv[vfp + 2];
            retarget(new_spv, spv, decorates, old_result_id, base_id);
            retarget(new_spv, spv, names, old_result_id, base_id);
            let ghost before = affected@;
            let ghost entry = Seq::new((i_start(length)) as nat, |q: int| AffectedDecoration {
                original_res_id: old_result_id,
                new_res_id: (base_id + 1 + q) as u32,
                correction_type: CorrectionType::SplitBindingArray,
            });
            let mut i: u32 = 1;
            while i < length
                invariant
                    1 <= i,
                    length > 0 ==> i <= length,
                    length == 0 ==> i == 1,
                    base_id + length <= u32::MAX,
                    affected@ == before + entry.take(i - 1),
                    entry.len() == i_start(length),
                    forall|q: int| 0 <= q < entry.len() ==> #[trigger] entry[q] == (AffectedDecoration {
                        original_res_id: old_result_id,
                        new_res_id: (base_id + 1 + q) as u32,
                        correction_type: CorrectionType::SplitBindingArray,
                    }),
                decreases length - i,
            {
                affected.push(AffectedDecoration {
                    original_res_id: old_result_id,
                    new_res_id: base_id + i,
                    correction_type: CorrectionType::SplitBindingArray,
                });
                proof {
                    assert(entry.take(i as int) =~= entry.take(i - 1).push(entry[i - 1]));
                }
                i = i + 1;
            }
            proof {
                if length > 0 {
                    assert(entry.take(i - 1) =~= entry);
                } else {
                    assert(entry.take(i - 1) =~= Seq::<AffectedDecoration>::empty());
                }
            }
        } else {
            let mut new_param_instructions: Vec<u32> = Vec::new();
            let mut i: u32 = 0;
            while i < length
                invariant
                    i <= length,
                    base_id + length <= u32::MAX,
                    new_param_instructions@ == element_parameters(type_pointer_id, base_id, i as int),
                decreases length - i,
            {
                new_param_instructions.push(encode_word(3, spv::SPV_INSTRUCTION_OP_FUNCTION_PARAMETER));
                new_param_instructions.push(type_pointer_id);
                new_param_instructions.push(base_id + i);
                proof {
                    assert(new_param_instructions@ =~= element_parameters(type_pointer_id, base_id, i + 1));
                }
                i = i + 1;
            }
            let ghost old_inserts = inserts@;
            let ghost params = new_param_instructions@;
            inserts.push(InstructionInsert { previous_spv_idx: vfp, instruction: new_param_instructions });
            assert(insert_views(inserts@) =~= insert_views(old_inserts).push((vfp, params)));
            assert(op_at_is_parameter(s, arrayed@[k as int].0));
            let function_idx = get_enclosing_function_index(spv, vfp).unwrap();
            proof {
                crate::util::function::lemma_last_before_listed(functions_of(s), vfp);
                let q = choose|q: int| 0 <= q < functions_of(s).len() && functions_of(s)[q] == function_idx;
                assert(functions_of(s)[q] + 4 < s.len());
                assert forall|q: int| 0 <= q < functions_of(s).len() implies #[trigger] functions_of(s)[q] + 2 < s.len() by {
                    assert(functions_of(s)[q] + 4 < s.len());
                }
            }
            let function_type_id = spv[function_idx + 4];
            let entry = get_function_from_parameter(spv, vfp);
            changes.push((function_type_id, entry.parameter_index, type_pointer_id, length));
        }
        let ghost bases0 = bases@;
        bases.push(base_id);
        proof {
            lemma_split_affected_prefix(s, arrayed@, lengths@, bases0, bases@, k as int);
            assert(bases@[k as int] == base_id);
            assert(lengths@[k as int] == length);
            assert(arrayed@[k as int] == (vfp, ta, opaque));
            assert(unrolled(s, pointers@, decorates@, names@, arrayed@, lengths@, st0, k + 1) == Some(
                (bases@, *ib as int, new_spv@, header@, insert_views(inserts@), changes@),
            ));
        }
        k = k + 1;
    }
    Ok(bases)
}

/// The affected decorations of the first `k` arrays read only the first `k` bases.
proof fn lemma_split_affected_prefix(s: Seq<u32>, arrayed: Seq<ArrayedEntry>, lengths: Seq<u32>, b1: Seq<u32>, b2: Seq<u32>, k: int)
    requires
        0 <= k <= b1.len(),
        k <= b2.len(),
        forall|j: int| 0 <= j < k ==> b1[j] == b2[j],
    ensures
        split_affected(s, arrayed, lengths, b1, k) == split_affected(s, arrayed, lengths, b2, k),
    decreases k,
{
    if k > 0 {
        lemma_split_affected_prefix(s, arrayed, lengths, b1, b2, k - 1);
    }
}

/// The affected decorations of the first `k` arrays, whatever the bases, agree on their
/// original resources and correction kinds.
pub proof fn lemma_split_affected_slots(s: Seq<u32>, arrayed: Seq<ArrayedEntry>, lengths: Seq<u32>, b1: Seq<u32>, b2: Seq<u32>, k: int)
    ensures
        split_affected(s, arrayed, lengths, b1, k).len() == split_affected(s, arrayed, lengths, b2, k).len(),
        forall|j: int| 0 <= j < split_affected(s, arrayed, lengths, b1, k).len() ==>
            (#[trigger] split_affected(s, arrayed, lengths, b1, k)[j]).original_res_id
                == split_affected(s, arrayed, lengths, b2, k)[j].original_res_id
            && split_affected(s, arrayed, lengths, b1, k)[j].correction_type
                == split_affected(s, arrayed, lengths, b2, k)[j].correction_type,
    decreases k,
{
    if k > 0 {
        lemma_split_affected_slots(s, arrayed, lengths, b1, b2, k - 1);
        let p1 = split_affected(s, arrayed, lengths, b1, k - 1);
        let p2 = split_affected(s, arrayed, lengths, b2, k - 1);
        let e1 = element_affected(s, arrayed[k - 1], lengths[k - 1], b1[k - 1]);
        let e2 = element_affected(s, arrayed[k - 1], lengths[k - 1], b2[k - 1]);
        assert forall|j: int| 0 <= j < split_affected(s, arrayed, lengths, b1, k).len() implies
            (#[trigger] split_affected(s, arrayed, lengths, b1, k)[j]).original_res_id
                == split_affected(s, arrayed, lengths, b2, k)[j].original_res_id
            && split_affected(s, arrayed, lengths, b1, k)[j].correction_type
                == split_affected(s, arrayed, lengths, b2, k)[j].correction_type by {
            if j < p1.len() {
                assert(split_affected(s, arrayed, lengths, b1, k)[j] == p1[j]);
                assert(split_affected(s, arrayed, lengths, b2, k)[j] == p2[j]);
            } else {
                assert(split_affected(s, arrayed, lengths, b1, k)[j] == e1[j - p1.len()]);
                assert(split_affected(s, arrayed, lengths, b2, k)[j] == e2[j - p1.len()]);
            }
        }
    }
}

/// The number of elements after the first of an array of `length` elements.
pub open spec fn i_start(length: u32) -> int {
    if length == 0 { 0 } else { length - 1 }
}

/// The instruction at `k` is not an `OpVariable`, so the unrolling treats it as a parameter.
pub open spec fn op_at_is_parameter(s: Seq<u32>, k: usize) -> bool {
    crate::util::instruction::op_at(s, k as int) != spv::SPV_INSTRUCTION_OP_VARIABLE as int
}

/// The changes among the first `c` that are to the function type `id`, in their order.
pub open spec fn changes_for(changes: Seq<FunctionTypeChange>, id: u32, c: int) -> Seq<FunctionTypeChange>
    decreases c,
{
    if c <= 0 {
        Seq::empty()
    } else {
        let p = changes_for(changes, id, c - 1);
        if changes[c - 1].0 == id {
            p.push(changes[c - 1])
        } else {
            p
        }
    }
}

/// The first `i` parameters of the function type at `tf` with the changes `mine` made, the
/// changes taken in order: a parameter at the position of the next change becomes one
/// parameter of its element pointer type per element. Also returns how many changes were used.
pub open spec fn expanded_params(s: Seq<u32>, tf: int, mine: Seq<FunctionTypeChange>, i: int) -> (Seq<u32>, int)
    decreases i,
{
    if i <= 0 {
        (Seq::empty(), 0)
    } else {
        let p = expanded_params(s, tf, mine, i - 1);
        let ci = p.1;
        if ci < mine.len() && mine[ci].1 == i - 1 {
            (p.0 + Seq::new(mine[ci].3 as nat, |n: int| mine[ci].2), ci + 1)
        } else {
            (p.0.push(s[tf + 3 + i - 1]), ci)
        }
    }
}

/// The words and header after the first `j` listed function types were rewritten, from
/// `new0` and `header0`; `None` when one of them cannot be.
pub open spec fn function_types_rewritten(
    s: Seq<u32>,
    new0: Seq<u32>,
    header0: Seq<u32>,
    type_functions: Seq<usize>,
    changes: Seq<FunctionTypeChange>,
    j: int,
) -> Option<(Seq<u32>, Seq<u32>)>
    decreases j,
{
    if j <= 0 {
        Some((new0, header0))
    } else {
        match function_types_rewritten(s, new0, header0, type_functions, changes, j - 1) {
            None => None,
            Some(p) => {
                let tf = type_functions[j - 1] as int;
                let id = s[tf + 1];
                let mine = changes_for(changes, id, changes.len() as int);
                let wc = wc_at(s, tf);
                if mine.len() == 0 {
                    Some(p)
                } else if wc < 3 {
                    None
                } else {
                    let params = expanded_params(s, tf, mine, wc - 3).0;
                    if params.len() > 0xffff - 3 {
                        None
                    } else {
                        Some((nopped(p.0, tf, tf + wc), p.1 + seq![
                            spec_encode_word((3 + params.len()) as u16, spv::SPV_INSTRUCTION_OP_TYPE_FUNCTION),
                            id,
                            s[tf + 2],
                        ] + params))
                    }
                }
            },
        }
    }
}

proof fn lemma_function_types_stay_none(
    s: Seq<u32>,
    new0: Seq<u32>,
    header0: Seq<u32>,
    type_functions: Seq<usize>,
    changes: Seq<FunctionTypeChange>,
    j: int,
    m: int,
)
    requires
        j <= m,
        function_types_rewritten(s, new0, header0, type_functions, changes, j) is None,
    ensures
        function_types_rewritten(s, new0, header0, type_functions, changes, m) is None,
    decreases m - j,
{
    if j < m {
        lemma_function_types_stay_none(s, new0, header0, type_functions, changes, j, m - 1);
    }
}

/// Rewrites each function type with binding array parameters: the old one is overwritten and
/// a new one, with each such parameter expanded into one parameter per element, is declared
/// in `header`. `Err` when a function type is too short or the new one too long.
pub(crate) fn rewrite_function_types(
    spv: &[u32],
    new_spv: &mut Vec<u32>,
    header: &mut Vec<u32>,
    type_functions: &Vec<usize>,
    changes: &Vec<FunctionTypeChange>,
) -> (r: Result<(), ()>)
    requires
        old(new_spv)@.len() == spv@.len(),
        forall|j: int| 0 <= j < type_functions@.len() ==> #[trigger] type_functions@[j] + 2 < spv@.len()
            && type_functions@[j] + wc_at(spv@, type_functions@[j] as int) <= spv@.len(),
    ensures
        final(new_spv)@.len() == spv@.len(),
        ({
            let w = function_types_rewritten(spv@, old(new_spv)@, old(header)@, type_functions@, changes@,
                type_functions@.len() as int);
            &&& r is Ok <==> w is Some
            &&& r is Ok ==> final(new_spv)@ == w->Some_0.0 && final(header)@ == w->Some_0.1
        }),
{
    let ghost s = spv@;
    let ghost new0 = new_spv@;
    let ghost header0 = header@;
    let mut j: usize = 0;
    while j < type_functions.len()
        invariant
            s == spv@,
            new_spv@.len() == s.len(),
            new0 == old(new_spv)@,
            header0 == old(header)@,
            function_types_rewritten(s, new0, header0, type_functions@, changes@, j as int) == Some(
                (new_spv@, header@),
            ),
            j <= type_functions@.len(),
            forall|q: int| 0 <= q < type_functions@.len() ==> #[trigger] type_functions@[q] + 2 < s.len()
                && type_functions@[q] + wc_at(s, type_functions@[q] as int) <= s.len(),
        decreases type_functions@.len() - j,
    {
        let tf = type_functions[j];
        assert(type_functions@[j as int] + 2 < s.len());
        assert(s.len() == spv.len());
        let tf_result_id = spv[tf + 1];
        // The changes to this function type, in the order they were found.
        let mut mine: Vec<FunctionTypeChange> = Vec::new();
        let mut c: usize = 0;
        while c < changes.len()
            invariant
                c <= changes@.len(),
                mine@ == changes_for(changes@, tf_result_id, c as int),
            decreases changes@.len() - c,
        {
            if changes[c].0 == tf_result_id {
                mine.push(changes[c]);
            }
            c = c + 1;
        }
        if mine.len() > 0 {
            let tf_wc = hiword(spv[tf]) as usize;
            if tf_wc < 3 {
                proof {
                    lemma_function_types_stay_none(s, new0, header0, type_functions@, changes@, j + 1,
                        type_functions@.len() as int);
                }
                return Err(());
            }
            let num_params = tf_wc - 3;
            let mut new_params: Vec<u32> = Vec::new();
            let mut change_i: usize = 0;
            let mut i: usize = 0;
            while i < num_params
                invariant
                    i <= num_params,
                    num_params + 3 == tf_wc,
                    tf + tf_wc <= s.len(),
                    s == spv@,
                    s.len() == spv.len(),
                    change_i <= mine@.len(),
                    (new_params@, change_i as int) == expanded_params(s, tf as int, mine@, i as int),
                decreases num_params - i,
            {
                let ghost before = new_params@;
                if change_i < mine.len() && mine[change_i].1 == i {
                    let (_, _, type_ptr, length) = mine[change_i];
                    let mut n: u32 = 0;
                    while n < length
                        invariant
                            n <= length,
                            new_params@ == before + Seq::new(n as nat, |q: int| type_ptr),
                        decreases length - n,
                    {
                        new_params.push(type_ptr);
                        proof {
                            assert(Seq::new((n + 1) as nat, |q: int| type_ptr) =~= Seq::new(n as nat, |q: int| type_ptr).push(
                                type_ptr,
                            ));
                        }
                        n = n + 1;
                    }
                    change_i = change_i + 1;
                } else {
                    new_params.push(spv[tf + 3 + i]);
                }
                i = i + 1;
            }
            nop_range(new_spv, tf, tf + tf_wc);
            if new_params.len() > 0xffff - 3 {
                proof {
                    lemma_function_types_stay_none(s, new0, header0, type_functions@, changes@, j + 1,
                        type_functions@.len() as int);
                }
                return Err(());
            }
            let new_wc = (3 + new_params.len()) as u16;
            let ghost params = new_params@;
            let ghost h = header@;
            header.push(encode_word(new_wc, spv::SPV_INSTRUCTION_OP_TYPE_FUNCTION));
            header.push(tf_result_id);
            header.push(spv[tf + 2]);
            header.append(&mut new_params);
            assert(header@ =~= h + seq![
                spec_encode_word(new_wc, spv::SPV_INSTRUCTION_OP_TYPE_FUNCTION),
                tf_result_id,
                s[tf + 2],
            ] + params);
        }
        j = j + 1;
    }
    Ok(())
}

} // verus!
