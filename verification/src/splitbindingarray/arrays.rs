use vstd::prelude::*;

use crate::spv;
use crate::util::instruction::{
    find_first_where, first_where, idxs_reach, lemma_first_where_listed, lemma_op_starts_reach, lemma_starts_from_bounds,
    lemma_tiles_inside, op_starts, starts, starts_from, wc_at, wf_stream,
};

verus! {

/// A binding array: the instruction declaring it or a pointer to it (an `OpTypePointer`, an
/// `OpVariable` or an `OpFunctionParameter`), its `OpTypeArray`, and whether the array holds
/// images or samplers.
pub type ArrayedEntry = (usize, usize, bool);

/// A storage class that binding arrays live in.
pub open spec fn is_resource_class(c: u32) -> bool {
    c == spv::SPV_STORAGE_CLASS_UNIFORM_CONSTANT || c == spv::SPV_STORAGE_CLASS_UNIFORM
}

/// The array type at `ta` holds images or samplers.
pub open spec fn holds_opaque(s: Seq<u32>, ta: usize) -> bool {
    let opaque = op_starts(s, spv::SPV_INSTRUCTION_OP_TYPE_IMAGE as int) + op_starts(s, spv::SPV_INSTRUCTION_OP_TYPE_SAMPLER as int);
    exists|j: int| 0 <= j < opaque.len() && #[trigger] s[opaque[j] + 1] == s[ta + 2]
}

/// The binding array the pointer type at `tp` points to, if any.
pub open spec fn array_pointer_of(s: Seq<u32>, tp: usize) -> Option<ArrayedEntry> {
    if is_resource_class(s[tp + 2]) {
        match first_where(s, op_starts(s, spv::SPV_INSTRUCTION_OP_TYPE_ARRAY as int), 1, s[tp + 3]) {
            Some(ta) => Some((tp, ta, holds_opaque(s, ta))),
            None => None,
        }
    } else {
        None
    }
}

/// The pointer types to binding arrays, in stream order.
pub open spec fn array_pointers(s: Seq<u32>) -> Seq<ArrayedEntry> {
    op_starts(s, spv::SPV_INSTRUCTION_OP_TYPE_POINTER as int).filter_map(|tp: usize| array_pointer_of(s, tp))
}

/// The first listed pointer type with the id `id`.
pub open spec fn first_pointer_with_id(s: Seq<u32>, aps: Seq<ArrayedEntry>, id: u32) -> Option<ArrayedEntry>
    decreases aps.len(),
{
    if aps.len() == 0 {
        None
    } else if s[aps[0].0 + 1] == id {
        Some(aps[0])
    } else {
        first_pointer_with_id(s, aps.drop_first(), id)
    }
}

/// The binding array the variable or parameter at `vfp` holds, if any.
pub open spec fn arrayed_of(s: Seq<u32>, vfp: usize) -> Option<ArrayedEntry> {
    match first_pointer_with_id(s, array_pointers(s), s[vfp + 1]) {
        Some(e) => Some((vfp, e.1, e.2)),
        None => None,
    }
}

/// The variables, then the function parameters, holding binding arrays.
pub open spec fn arrayed_resources(s: Seq<u32>) -> Seq<ArrayedEntry> {
    (op_starts(s, spv::SPV_INSTRUCTION_OP_VARIABLE as int) + op_starts(s, spv::SPV_INSTRUCTION_OP_FUNCTION_PARAMETER as int))
        .filter_map(|vfp: usize| arrayed_of(s, vfp))
}

/// Some array type has a binding array as its element type.
pub open spec fn nested_arrays(s: Seq<u32>) -> bool {
    let arrays = op_starts(s, spv::SPV_INSTRUCTION_OP_TYPE_ARRAY as int);
    let aps = array_pointers(s);
    exists|i: int, j: int| 0 <= i < arrays.len() && 0 <= j < aps.len()
        && #[trigger] s[aps[j].1 + 1] == #[trigger] s[arrays[i] + 2] && arrays[i] != aps[j].1
}

/// The position of the first binding array, from position `k` on, whose variable or parameter
/// has the id `id`.
pub open spec fn arrayed_index_from(s: Seq<u32>, arrayed: Seq<ArrayedEntry>, id: u32, k: int) -> Option<usize>
    decreases arrayed.len() - k,
{
    if k < 0 || k >= arrayed.len() {
        None
    } else if s[arrayed[k].0 + 2] == id {
        Some(k as usize)
    } else {
        arrayed_index_from(s, arrayed, id, k + 1)
    }
}

/// The position of the first binding array whose variable or parameter has the id `id`.
pub open spec fn arrayed_index(s: Seq<u32>, arrayed: Seq<ArrayedEntry>, id: u32) -> Option<usize> {
    arrayed_index_from(s, arrayed, id, 0)
}

/// The length of the array type at `ta`: the value of the first `OpConstant` with its length id.
pub open spec fn array_length(s: Seq<u32>, ta: usize) -> Option<u32> {
    match first_where(s, op_starts(s, spv::SPV_INSTRUCTION_OP_CONSTANT as int), 2, s[ta + 3]) {
        Some(c) => Some(s[c + 3]),
        None => None,
    }
}

/// Whether the id `id` is declared by an image or sampler type.
fn is_opaque_type(spv: &[u32], images: &Vec<usize>, samplers: &Vec<usize>, ta: usize) -> (r: bool)
    requires
        images@ == op_starts(spv@, spv::SPV_INSTRUCTION_OP_TYPE_IMAGE as int),
        samplers@ == op_starts(spv@, spv::SPV_INSTRUCTION_OP_TYPE_SAMPLER as int),
        idxs_reach(spv@, images@, 1),
        idxs_reach(spv@, samplers@, 1),
        ta + 2 < spv@.len(),
    ensures
        r == holds_opaque(spv@, ta),
{
    let ghost s = spv@;
    let ghost opaque = images@ + samplers@;
    assert(s.len() == spv.len());
    let element = spv[ta + 2];
    let mut j: usize = 0;
    while j < images.len()
        invariant
            s == spv@,
            s.len() == spv.len(),
            ta + 2 < s.len(),
            images@ == op_starts(s, spv::SPV_INSTRUCTION_OP_TYPE_IMAGE as int),
            samplers@ == op_starts(s, spv::SPV_INSTRUCTION_OP_TYPE_SAMPLER as int),
            j <= images@.len(),
            opaque == images@ + samplers@,
            idxs_reach(s, images@, 1),
            element == s[ta + 2],
            forall|i: int| 0 <= i < j ==> s[#[trigger] opaque[i] + 1] != element,
        decreases images@.len() - j,
    {
        assert(images@[j as int] + 1 < s.len());
        assert(opaque[j as int] == images@[j as int]);
        if spv[images[j] + 1] == element {
            assert(s[opaque[j as int] + 1] == element);
            return true;
        }
        j = j + 1;
    }
    let mut k: usize = 0;
    while k < samplers.len()
        invariant
            s == spv@,
            s.len() == spv.len(),
            ta + 2 < s.len(),
            images@ == op_starts(s, spv::SPV_INSTRUCTION_OP_TYPE_IMAGE as int),
            samplers@ == op_starts(s, spv::SPV_INSTRUCTION_OP_TYPE_SAMPLER as int),
            k <= samplers@.len(),
            opaque == images@ + samplers@,
            idxs_reach(s, samplers@, 1),
            element == s[ta + 2],
            forall|i: int| 0 <= i < images@.len() + k ==> s[#[trigger] opaque[i] + 1] != element,
        decreases samplers@.len() - k,
    {
        assert(samplers@[k as int] + 1 < s.len());
        assert(opaque[images@.len() + k] == samplers@[k as int]);
        if spv[samplers[k] + 1] == element {
            assert(s[opaque[images@.len() + k] + 1] == element);
            return true;
        }
        k = k + 1;
    }
    false
}

/// The pointer types to binding arrays.
pub fn find_array_pointers(
    spv: &[u32],
    pointers: &Vec<usize>,
    arrays: &Vec<usize>,
    images: &Vec<usize>,
    samplers: &Vec<usize>,
) -> (r: Vec<ArrayedEntry>)
    requires
        pointers@ == op_starts(spv@, spv::SPV_INSTRUCTION_OP_TYPE_POINTER as int),
        arrays@ == op_starts(spv@, spv::SPV_INSTRUCTION_OP_TYPE_ARRAY as int),
        images@ == op_starts(spv@, spv::SPV_INSTRUCTION_OP_TYPE_IMAGE as int),
        samplers@ == op_starts(spv@, spv::SPV_INSTRUCTION_OP_TYPE_SAMPLER as int),
        idxs_reach(spv@, pointers@, 3),
        idxs_reach(spv@, arrays@, 3),
        idxs_reach(spv@, images@, 1),
        idxs_reach(spv@, samplers@, 1),
    ensures
        r@ == array_pointers(spv@),
{
    let ghost s = spv@;
    let ghost f = |tp: usize| array_pointer_of(s, tp);
    let mut out: Vec<ArrayedEntry> = Vec::new();
    let mut k: usize = 0;
    assert(pointers@.take(0) =~= Seq::<usize>::empty());
    while k < pointers.len()
        invariant
            s == spv@,
            f == (|tp: usize| array_pointer_of(s, tp)),
            k <= pointers@.len(),
            pointers@ == op_starts(s, spv::SPV_INSTRUCTION_OP_TYPE_POINTER as int),
            arrays@ == op_starts(s, spv::SPV_INSTRUCTION_OP_TYPE_ARRAY as int),
            images@ == op_starts(s, spv::SPV_INSTRUCTION_OP_TYPE_IMAGE as int),
            samplers@ == op_starts(s, spv::SPV_INSTRUCTION_OP_TYPE_SAMPLER as int),
            idxs_reach(s, pointers@, 3),
            idxs_reach(s, arrays@, 3),
            idxs_reach(s, images@, 1),
            idxs_reach(s, samplers@, 1),
            out@ == pointers@.take(k as int).filter_map(f),
        decreases pointers@.len() - k,
    {
        let tp = pointers[k];
        assert(pointers@[k as int] + 3 < s.len());
        assert(s.len() == spv.len());
        proof {
            pointers@.lemma_filter_map_take_succ(f, k as int);
            lemma_first_where_listed(s, arrays@, 1, s[tp + 3]);
        }
        let class = spv[tp + 2];
        if class == spv::SPV_STORAGE_CLASS_UNIFORM_CONSTANT || class == spv::SPV_STORAGE_CLASS_UNIFORM {
            match find_first_where(spv, arrays, 1, spv[tp + 3]) {
                Some(ta) => {
                    proof {
                        let i = choose|i: int| 0 <= i < arrays@.len() && arrays@[i] == ta;
                        assert(arrays@[i] + 3 < s.len());
                    }
                    let opaque = is_opaque_type(spv, images, samplers, ta);
                    out.push((tp, ta, opaque));
                },
                None => {},
            }
        }
        k = k + 1;
    }
    assert(pointers@.take(k as int) =~= pointers@);
    out
}

pub proof fn lemma_array_pointers_reach(s: Seq<u32>)
    requires
        idxs_reach(s, op_starts(s, spv::SPV_INSTRUCTION_OP_TYPE_POINTER as int), 3),
        idxs_reach(s, op_starts(s, spv::SPV_INSTRUCTION_OP_TYPE_ARRAY as int), 3),
    ensures
        forall|j: int| 0 <= j < array_pointers(s).len() ==> #[trigger] array_pointers(s)[j].0 + 3 < s.len()
            && array_pointers(s)[j].1 + 3 < s.len(),
{
    let ptrs = op_starts(s, spv::SPV_INSTRUCTION_OP_TYPE_POINTER as int);
    let arrays = op_starts(s, spv::SPV_INSTRUCTION_OP_TYPE_ARRAY as int);
    let f = |tp: usize| array_pointer_of(s, tp);
    assert forall|j: int| 0 <= j < array_pointers(s).len() implies #[trigger] array_pointers(s)[j].0 + 3 < s.len()
        && array_pointers(s)[j].1 + 3 < s.len() by {
        let e = array_pointers(s)[j];
        assert(ptrs.filter_map(f).contains(e));
        ptrs.lemma_filter_map_contains(f, e);
        let i = choose|i: int| 0 <= i < ptrs.len() && f(ptrs[i]) == Some(e);
        lemma_first_where_listed(s, arrays, 1, s[ptrs[i] + 3]);
        let q = choose|q: int| 0 <= q < arrays.len() && arrays[q] == e.1;
        assert(arrays[q] + 3 < s.len());
    }
}

fn find_pointer_with_id(spv: &[u32], aps: &Vec<ArrayedEntry>, id: u32) -> (r: Option<ArrayedEntry>)
    requires
        forall|j: int| 0 <= j < aps@.len() ==> #[trigger] aps@[j].0 + 1 < spv@.len(),
    ensures
        r == first_pointer_with_id(spv@, aps@, id),
{
    let ghost s = spv@;
    let mut j: usize = 0;
    assert(aps@.skip(0) =~= aps@);
    while j < aps.len()
        invariant
            s == spv@,
            j <= aps@.len(),
            forall|i: int| 0 <= i < aps@.len() ==> #[trigger] aps@[i].0 + 1 < s.len(),
            first_pointer_with_id(s, aps@.skip(j as int), id) == first_pointer_with_id(s, aps@, id),
        decreases aps@.len() - j,
    {
        let e = aps[j];
        assert(aps@[j as int].0 + 1 < s.len());
        assert(s.len() == spv.len());
        assert(aps@.skip(j as int)[0] == e);
        assert(aps@.skip(j as int).drop_first() =~= aps@.skip(j + 1));
        if spv[e.0 + 1] == id {
            return Some(e);
        }
        j = j + 1;
    }
    assert(aps@.skip(j as int).len() == 0);
    None
}

/// The variables, then the function parameters, holding binding arrays.
pub fn find_arrayed_resources(
    spv: &[u32],
    variables: &Vec<usize>,
    parameters: &Vec<usize>,
    aps: &Vec<ArrayedEntry>,
) -> (r: Vec<ArrayedEntry>)
    requires
        variables@ == op_starts(spv@, spv::SPV_INSTRUCTION_OP_VARIABLE as int),
        parameters@ == op_starts(spv@, spv::SPV_INSTRUCTION_OP_FUNCTION_PARAMETER as int),
        idxs_reach(spv@, variables@, 2),
        idxs_reach(spv@, parameters@, 2),
        aps@ == array_pointers(spv@),
        forall|j: int| 0 <= j < aps@.len() ==> (#[trigger] aps@[j]).0 + 3 < spv@.len() && aps@[j].1 + 3 < spv@.len(),
    ensures
        r@ == arrayed_resources(spv@),
{
    let ghost s = spv@;
    let mut all = variables.clone();
    let mut more = parameters.clone();
    all.append(&mut more);
    let ghost vps = all@;
    assert(vps == variables@ + parameters@);
    assert forall|j: int| 0 <= j < vps.len() implies #[trigger] vps[j] + 2 < s.len() by {
        if j < variables@.len() {
            assert(vps[j] == variables@[j]);
        } else {
            assert(vps[j] == parameters@[j - variables@.len()]);
        }
    }
    let ghost f = |vfp: usize| arrayed_of(s, vfp);
    let mut out: Vec<ArrayedEntry> = Vec::new();
    let mut k: usize = 0;
    assert(vps.take(0) =~= Seq::<usize>::empty());
    while k < all.len()
        invariant
            s == spv@,
            f == (|vfp: usize| arrayed_of(s, vfp)),
            vps == all@,
            k <= vps.len(),
            forall|j: int| 0 <= j < vps.len() ==> #[trigger] vps[j] + 2 < s.len(),
            aps@ == array_pointers(s),
            forall|j: int| 0 <= j < aps@.len() ==> (#[trigger] aps@[j]).0 + 3 < s.len() && aps@[j].1 + 3 < s.len(),
            out@ == vps.take(k as int).filter_map(f),
        decreases vps.len() - k,
    {
        let vfp = all[k];
        assert(vps[k as int] + 2 < s.len());
        assert(s.len() == spv.len());
        proof {
            vps.lemma_filter_map_take_succ(f, k as int);
        }
        match find_pointer_with_id(spv, aps, spv[vfp + 1]) {
            Some(e) => {
                out.push((vfp, e.1, e.2));
            },
            None => {},
        }
        k = k + 1;
    }
    assert(vps.take(k as int) =~= vps);
    out
}

/// Whether some array type has a binding array as its element type.
pub fn has_nested_arrays(spv: &[u32], arrays: &Vec<usize>, aps: &Vec<ArrayedEntry>) -> (r: bool)
    requires
        arrays@ == op_starts(spv@, spv::SPV_INSTRUCTION_OP_TYPE_ARRAY as int),
        idxs_reach(spv@, arrays@, 3),
        aps@ == array_pointers(spv@),
        forall|j: int| 0 <= j < aps@.len() ==> (#[trigger] aps@[j]).0 + 3 < spv@.len() && aps@[j].1 + 3 < spv@.len(),
    ensures
        r == nested_arrays(spv@),
{
    let ghost s = spv@;
    let mut i: usize = 0;
    while i < arrays.len()
        invariant
            s == spv@,
            i <= arrays@.len(),
            arrays@ == op_starts(s, spv::SPV_INSTRUCTION_OP_TYPE_ARRAY as int),
            idxs_reach(s, arrays@, 3),
            aps@ == array_pointers(s),
            forall|j: int| 0 <= j < aps@.len() ==> (#[trigger] aps@[j]).0 + 3 < s.len() && aps@[j].1 + 3 < s.len(),
            forall|a: int, j: int| 0 <= a < i && 0 <= j < aps@.len() ==>
                !(#[trigger] s[aps@[j].1 + 1] == #[trigger] s[arrays@[a] + 2] && arrays@[a] != aps@[j].1),
        decreases arrays@.len() - i,
    {
        let ta = arrays[i];
        assert(arrays@[i as int] + 3 < s.len());
        assert(s.len() == spv.len());
        let mut j: usize = 0;
        while j < aps.len()
            invariant
                s == spv@,
                s.len() == spv.len(),
                arrays@ == op_starts(s, spv::SPV_INSTRUCTION_OP_TYPE_ARRAY as int),
                aps@ == array_pointers(s),
                i < arrays@.len(),
                ta == arrays@[i as int],
                ta + 3 < s.len(),
                j <= aps@.len(),
                forall|q: int| 0 <= q < aps@.len() ==> (#[trigger] aps@[q]).0 + 3 < s.len() && aps@[q].1 + 3 < s.len(),
                forall|q: int| 0 <= q < j ==> !(s[#[trigger] aps@[q].1 + 1] == s[ta + 2] && ta != aps@[q].1),
            decreases aps@.len() - j,
        {
            let e = aps[j];
            assert(aps@[j as int].1 + 3 < s.len());
            if spv[e.1 + 1] == spv[ta + 2] && ta != e.1 {
                assert(s[aps@[j as int].1 + 1] == s[arrays@[i as int] + 2]);
                return true;
            }
            j = j + 1;
        }
        i = i + 1;
    }
    false
}

/// The length of the array type at `ta`.
pub fn find_array_length(spv: &[u32], constants: &Vec<usize>, ta: usize) -> (r: Option<u32>)
    requires
        constants@ == op_starts(spv@, spv::SPV_INSTRUCTION_OP_CONSTANT as int),
        idxs_reach(spv@, constants@, 3),
        ta + 3 < spv@.len(),
    ensures
        r == array_length(spv@, ta),
{
    proof {
        lemma_first_where_listed(spv@, constants@, 2, spv@[ta + 3]);
    }
    assert(spv@.len() == spv.len());
    match find_first_where(spv, constants, 2, spv[ta + 3]) {
        Some(c) => {
            proof {
                let i = choose|i: int| 0 <= i < constants@.len() && constants@[i] == c;
                assert(constants@[i] + 3 < spv@.len());
            }
            Some(spv[c + 3])
        },
        None => None,
    }
}

/// The pointer type a lookup by id finds is one of those listed.
proof fn lemma_first_pointer_listed(s: Seq<u32>, aps: Seq<ArrayedEntry>, id: u32)
    ensures
        first_pointer_with_id(s, aps, id) matches Some(e) ==> aps.contains(e),
    decreases aps.len(),
{
    if aps.len() > 0 && s[aps[0].0 + 1] != id {
        lemma_first_pointer_listed(s, aps.drop_first(), id);
        if first_pointer_with_id(s, aps, id) is Some {
            let e = first_pointer_with_id(s, aps, id)->0;
            let i = choose|i: int| 0 <= i < aps.drop_first().len() && aps.drop_first()[i] == e;
            assert(aps[i + 1] == e);
        }
    } else if aps.len() > 0 {
        assert(aps[0] == aps[0]);
    }
}

/// Each binding array variable or parameter is a whole instruction of a well-formed stream,
/// and its array type has the words that are read of it.
pub proof fn lemma_arrayed_inside(s: Seq<u32>)
    requires
        wf_stream(s),
    ensures
        forall|j: int| 0 <= j < arrayed_resources(s).len() ==> {
            let e = #[trigger] arrayed_resources(s)[j];
            &&& e.0 + 2 < s.len()
            &&& e.0 + wc_at(s, e.0 as int) <= s.len()
            &&& e.1 + 3 < s.len()
            &&& starts(s).contains(e.0)
        },
{
    let vars = op_starts(s, spv::SPV_INSTRUCTION_OP_VARIABLE as int);
    let params = op_starts(s, spv::SPV_INSTRUCTION_OP_FUNCTION_PARAMETER as int);
    let vps = vars + params;
    let f = |vfp: usize| arrayed_of(s, vfp);
    lemma_op_starts_reach(s, spv::SPV_INSTRUCTION_OP_VARIABLE as int);
    lemma_op_starts_reach(s, spv::SPV_INSTRUCTION_OP_FUNCTION_PARAMETER as int);
    lemma_op_starts_reach(s, spv::SPV_INSTRUCTION_OP_TYPE_POINTER as int);
    lemma_op_starts_reach(s, spv::SPV_INSTRUCTION_OP_TYPE_ARRAY as int);
    lemma_array_pointers_reach(s);
    lemma_tiles_inside(s, 0);
    lemma_starts_from_bounds(s, 0);
    assert forall|j: int| 0 <= j < arrayed_resources(s).len() implies {
        let e = #[trigger] arrayed_resources(s)[j];
        &&& e.0 + 2 < s.len()
        &&& e.0 + wc_at(s, e.0 as int) <= s.len()
        &&& e.1 + 3 < s.len()
        &&& starts(s).contains(e.0)
    } by {
        let e = arrayed_resources(s)[j];
        assert(vps.filter_map(f).contains(e));
        vps.lemma_filter_map_contains(f, e);
        let vfp = choose|t: usize| vps.contains(t) && f(t) == Some(e);
        let i = choose|i: int| 0 <= i < vps.len() && vps[i] == vfp;
        if i < vars.len() {
            assert(vars[i] == vfp);
            assert(vars[i] + 3 < s.len());
            assert(starts(s).contains(vars[i]));
        } else {
            assert(params[i - vars.len()] == vfp);
            assert(params[i - vars.len()] + 2 < s.len());
            assert(starts(s).contains(params[i - vars.len()]));
        }
        assert(vps[i] + 2 < s.len());
        assert(arrayed_of(s, vfp) == Some(e));
        lemma_first_pointer_listed(s, array_pointers(s), s[vfp + 1]);
        assert(first_pointer_with_id(s, array_pointers(s), s[vfp + 1]) is Some);
        let pe = first_pointer_with_id(s, array_pointers(s), s[vfp + 1])->0;
        let q = choose|q: int| 0 <= q < array_pointers(s).len() && array_pointers(s)[q] == pe;
        assert(array_pointers(s)[q].0 + 3 < s.len());
        assert(array_pointers(s)[q].1 + 3 < s.len());
        assert(e.1 == pe.1);
        let m = choose|m: int| 0 <= m < starts(s).len() && starts(s)[m] == vfp;
        assert(starts_from(s, 0)[m] + wc_at(s, starts_from(s, 0)[m] as int) <= s.len());
    }
}

} // verus!
