use std::collections::HashMap;

use vstd::prelude::*;

use crate::correction::{CorrectionBinding, CorrectionMap, CorrectionSet, CorrectionType};
use crate::immediatespatch::body_of;
use crate::spv;
use crate::util::correct_decorate::{check_corrections_fit, corrected_stream, corrections_fit, correct_decorate, CorrectDecorateIn};
use crate::util::decorate::{
    added_decorations, adds_decorations, affected_corrections, lemma_added_needs_decoration, affected_sets, decorate, decoration_value, sets_view,
    set_view, AffectedDecoration, CorrectionsView, DecorateIn, DecorateOut,
};
use crate::util::instruction::{
    check_idxs_reach, fits_in_memory, idxs_reach, instruction_idxs, is_tiled, lemma_op_starts_reach, lemma_tiles_inside,
    op_starts, starts, starts_from, tiles, wc_at, wf_stream,
};
use crate::util::pointer::lemma_tiles_terminates;
use crate::util::keys::{ascending, ascending_keys, insert_ascending, lemma_ascending_unique, sorted_map_keys};
use crate::util::{
    fuse_final, hiword, insert_new_instructions, insert_views, inserted, lemma_inserted_some, prune_noops, spec_hiword,
    strip_nops, InsertView, InstructionInsert, WordInsert,
};
use vstd::slice::slice_subrange;

verus! {

/// A variable to add to one shader so that its layout mirrors the other's: a copy, with id
/// `new_res_id`, of the resource at `set` / `binding`, for a correction of `correction_type`.
#[derive(Debug, Clone, Copy, PartialEq, Eq, Structural)]
pub struct NewVariable {
    pub set: u32,
    pub binding: u32,
    pub new_res_id: u32,
    pub correction_type: CorrectionType,
}

/// The first entry of `ll` that is `Some(c)`.
pub open spec fn first_some(ll: Seq<Option<CorrectionType>>, c: CorrectionType) -> Option<int>
    decreases ll.len(),
{
    if ll.len() == 0 {
        None
    } else if ll[0] == Some(c) {
        Some(0)
    } else {
        match first_some(ll.drop_first(), c) {
            Some(i) => Some(i + 1),
            None => None,
        }
    }
}

/// `ll` with its first `Some(c)` cleared.
pub open spec fn clear_first(ll: Seq<Option<CorrectionType>>, c: CorrectionType) -> Seq<Option<CorrectionType>> {
    match first_some(ll, c) {
        Some(i) => ll.update(i, None),
        None => ll,
    }
}

/// The corrections of `l`, each cleared when matched by one of `r`'s in turn.
pub open spec fn unmatched(l: Seq<CorrectionType>, r: Seq<CorrectionType>) -> Seq<Option<CorrectionType>>
    decreases r.len(),
{
    if r.len() == 0 {
        l.map_values(|c: CorrectionType| Some(c))
    } else {
        clear_first(unmatched(l, r.drop_last()), r.last())
    }
}

/// The variables for the first `k` entries of `ll`, with the binding offset and the next id
/// after them: each uncleared entry gives a variable with the next id, at the binding moved
/// up by the cleared entries before it.
pub open spec fn mirrored_variables(ll: Seq<Option<CorrectionType>>, set: u32, binding: u32, ib: u32, k: int)
    -> (Seq<NewVariable>, int, int)
    decreases k,
{
    if k <= 0 {
        (Seq::empty(), 0, ib as int)
    } else {
        let prev = mirrored_variables(ll, set, binding, ib, k - 1);
        match ll[k - 1] {
            Some(c) => (prev.0.push(NewVariable {
                set,
                binding: (binding + prev.1) as u32,
                new_res_id: prev.2 as u32,
                correction_type: c,
            }), prev.1, prev.2 + 1),
            None => (prev.0, prev.1 + 1, prev.2),
        }
    }
}

/// Every binding and id handed out, and every offset counted, fits in a word.
pub open spec fn mirrored_fits(ll: Seq<Option<CorrectionType>>, set: u32, binding: u32, ib: u32, k: int) -> bool
    decreases k,
{
    if k <= 0 {
        true
    } else {
        let prev = mirrored_variables(ll, set, binding, ib, k - 1);
        &&& mirrored_fits(ll, set, binding, ib, k - 1)
        &&& match ll[k - 1] {
            Some(_) => binding + prev.1 <= u32::MAX && prev.2 + 1 <= u32::MAX,
            None => prev.1 + 1 <= u32::MAX,
        }
    }
}

fn clear_first_match(ll: &mut Vec<Option<CorrectionType>>, c: CorrectionType)
    ensures
        final(ll)@ == clear_first(old(ll)@, c),
        final(ll)@.len() == old(ll)@.len(),
{
    let ghost l0 = ll@;
    let mut i: usize = 0;
    assert(l0.skip(0) =~= l0);
    while i < ll.len()
        invariant
            ll@ == l0,
            l0 == old(ll)@,
            i <= l0.len(),
            forall|j: int| 0 <= j < i ==> l0[j] != Some(c),
            first_some(l0, c) == match first_some(l0.skip(i as int), c) {
                Some(k) => Some(k + i),
                None => None,
            },
        decreases l0.len() - i,
    {
        let found = match ll[i] {
            Some(x) => x == c,
            None => false,
        };
        assert(l0.skip(i as int)[0] == l0[i as int]);
        if found {
            assert(first_some(l0.skip(i as int), c) == Some(0int));
            assert(first_some(l0, c) == Some(i as int));
            ll.set(i, None);
            assert(ll@ =~= l0.update(i as int, None));
            return;
        }
        assert(l0.skip(i as int).drop_first() =~= l0.skip(i + 1));
        i = i + 1;
    }
    assert(l0.skip(i as int) =~= Seq::<Option<CorrectionType>>::empty());
}

/// The corrections of `l` that `r` does not match, each cleared as `r` matches it.
fn unmatched_corrections(l: &CorrectionBinding, r: &CorrectionBinding) -> (ll: Vec<Option<CorrectionType>>)
    ensures
        ll@ == unmatched(l.corrections@, r.corrections@),
        ll@.len() == l.corrections@.len(),
{
    let ghost lc = l.corrections@;
    let ghost rc = r.corrections@;
    let mut ll: Vec<Option<CorrectionType>> = Vec::new();
    let mut k: usize = 0;
    while k < l.corrections.len()
        invariant
            lc == l.corrections@,
            k <= lc.len(),
            ll@ == lc.take(k as int).map_values(|c: CorrectionType| Some(c)),
        decreases lc.len() - k,
    {
        ll.push(Some(l.corrections[k]));
        assert(ll@ =~= lc.take(k + 1).map_values(|c: CorrectionType| Some(c)));
        k = k + 1;
    }
    assert(lc.take(k as int) =~= lc);
    assert(ll@ == unmatched(lc, rc.take(0)));
    let mut j: usize = 0;
    while j < r.corrections.len()
        invariant
            lc == l.corrections@,
            rc == r.corrections@,
            j <= rc.len(),
            ll@ == unmatched(lc, rc.take(j as int)),
            ll@.len() == lc.len(),
        decreases rc.len() - j,
    {
        proof {
            assert(rc.take(j + 1).drop_last() =~= rc.take(j as int));
            assert(rc.take(j + 1).last() == rc[j as int]);
        }
        clear_first_match(&mut ll, r.corrections[j]);
        j = j + 1;
    }
    assert(rc.take(j as int) =~= rc);
    ll
}

/// Adds to `new_variables` the corrections of `l` that `r` lacks: each correction of `r`
/// accounts for the first equal correction of `l` not yet accounted for. The rest get new
/// ids from `instruction_bound`, at the binding moved up by the accounted corrections
/// before them.
pub fn push_affected_decorations(
    new_variables: &mut Vec<NewVariable>,
    instruction_bound: &mut u32,
    set: u32,
    binding: u32,
    l: &CorrectionBinding,
    r: &CorrectionBinding,
)
    requires
        mirrored_fits(unmatched(l.corrections@, r.corrections@), set, binding, *old(instruction_bound),
            l.corrections@.len() as int),
    ensures
        ({
            let m = mirrored_variables(unmatched(l.corrections@, r.corrections@), set, binding, *old(instruction_bound),
                l.corrections@.len() as int);
            &&& final(new_variables)@ == old(new_variables)@ + m.0
            &&& *final(instruction_bound) == m.2
        }),
{
    let ll = unmatched_corrections(l, r);
    let ghost lu = ll@;
    let ghost base = new_variables@;
    let ghost ib0 = *instruction_bound;
    let mut offset: u32 = 0;
    let mut k: usize = 0;
    while k < ll.len()
        invariant
            lu == ll@,
            k <= lu.len(),
            mirrored_fits(lu, set, binding, ib0, lu.len() as int),
            new_variables@ == base + mirrored_variables(lu, set, binding, ib0, k as int).0,
            offset == mirrored_variables(lu, set, binding, ib0, k as int).1,
            *instruction_bound == mirrored_variables(lu, set, binding, ib0, k as int).2,
        decreases lu.len() - k,
    {
        proof {
            lemma_mirrored_fits_prefix(lu, set, binding, ib0, lu.len() as int, k + 1);
        }
        match ll[k] {
            Some(correction) => {
                *instruction_bound = *instruction_bound + 1;
                let new_res_id = *instruction_bound - 1;
                new_variables.push(NewVariable { set, binding: binding + offset, new_res_id, correction_type: correction });
            },
            None => {
                offset = offset + 1;
            },
        }
        k = k + 1;
    }
}

proof fn lemma_mirrored_fits_prefix(ll: Seq<Option<CorrectionType>>, set: u32, binding: u32, ib: u32, n: int, k: int)
    requires
        mirrored_fits(ll, set, binding, ib, n),
        0 <= k <= n,
    ensures
        mirrored_fits(ll, set, binding, ib, k),
    decreases n - k,
{
    if k < n {
        lemma_mirrored_fits_prefix(ll, set, binding, ib, n - 1, k);
    }
}


/// Some listed `Binding` decoration gives `id` the binding `binding`.
pub open spec fn has_binding_decoration(s: Seq<u32>, decs: Seq<usize>, id: u32, binding: u32) -> bool {
    exists|j: int| 0 <= j < decs.len() && s[#[trigger] decs[j] + 2] == spv::SPV_DECORATION_BINDING
        && s[decs[j] + 3] == binding && s[decs[j] + 1] == id
}

/// The target of the first of `rest` that is a `DescriptorSet` decoration with `set` whose
/// target some decoration of `decs` gives `binding`.
pub open spec fn resource_at_from(s: Seq<u32>, decs: Seq<usize>, rest: Seq<usize>, set: u32, binding: u32) -> Option<u32>
    decreases rest.len(),
{
    if rest.len() == 0 {
        None
    } else {
        let d = rest[0];
        if s[d + 2] == spv::SPV_DECORATION_DESCRIPTOR_SET && s[d + 3] == set && has_binding_decoration(s, decs, s[d + 1], binding) {
            Some(s[d + 1])
        } else {
            resource_at_from(s, decs, rest.drop_first(), set, binding)
        }
    }
}

/// The resource in `set` at `binding`.
pub open spec fn resource_at(s: Seq<u32>, set: u32, binding: u32) -> Option<u32> {
    let decs = op_starts(s, spv::SPV_INSTRUCTION_OP_DECORATE as int);
    resource_at_from(s, decs, decs, set, binding)
}

/// The first listed `OpVariable` whose result is `id`.
pub open spec fn variable_of(s: Seq<u32>, vars: Seq<usize>, id: u32) -> Option<usize>
    decreases vars.len(),
{
    if vars.len() == 0 {
        None
    } else if s[vars[0] + 2] == id {
        Some(vars[0])
    } else {
        variable_of(s, vars.drop_first(), id)
    }
}

/// The variable of the resource a new variable copies.
pub open spec fn mirror_source(s: Seq<u32>, nv: NewVariable) -> usize {
    variable_of(s, op_starts(s, spv::SPV_INSTRUCTION_OP_VARIABLE as int), resource_at(s, nv.set, nv.binding)->0)->0
}

/// The variable at `idx` with result `new_id` instead.
pub open spec fn variable_copy(s: Seq<u32>, idx: usize, new_id: u32) -> Seq<u32> {
    s.subrange(idx as int, idx + wc_at(s, idx as int)).update(2, new_id)
}

pub open spec fn mirror_affected(s: Seq<u32>, nvs: Seq<NewVariable>) -> Seq<AffectedDecoration> {
    Seq::new(nvs.len(), |j: int| AffectedDecoration {
        original_res_id: s[mirror_source(s, nvs[j]) + 2],
        new_res_id: nvs[j].new_res_id,
        correction_type: nvs[j].correction_type,
    })
}

/// The new variables, each after the variable it copies, then their set and binding
/// decorations after the first `OpDecorate`.
pub open spec fn mirror_inserts(s: Seq<u32>, nvs: Seq<NewVariable>) -> Seq<InsertView> {
    let decs = op_starts(s, spv::SPV_INSTRUCTION_OP_DECORATE as int);
    let added = added_decorations(s, decs, mirror_affected(s, nvs), nvs.len() as int);
    Seq::new(nvs.len(), |j: int| (mirror_source(s, nvs[j]), variable_copy(s, mirror_source(s, nvs[j]), nvs[j].new_res_id)))
        + Seq::new(added.len(), |j: int| (decs[0], added[j]))
}

pub open spec fn mirror_sets(s: Seq<u32>, nvs: Seq<NewVariable>) -> Set<u32> {
    affected_sets(s, op_starts(s, spv::SPV_INSTRUCTION_OP_DECORATE as int), mirror_affected(s, nvs), nvs.len() as int)
}

/// The body with the new variables and decorations inserted.
pub open spec fn mirror_inserted(s: Seq<u32>, nvs: Seq<NewVariable>) -> Seq<u32> {
    inserted(s, s, Seq::<WordInsert>::empty(), mirror_inserts(s, nvs))->0
}

/// The inserted body can have its bindings corrected: it is a stream of whole
/// instructions whose decorations have their literal and whose corrected bindings fit.
pub open spec fn mirror_correctable(a: Seq<u32>, sets: Set<u32>) -> bool {
    &&& fits_in_memory(a)
    &&& tiles(a)
    &&& idxs_reach(a, op_starts(a, spv::SPV_INSTRUCTION_OP_DECORATE as int), 3)
    &&& corrections_fit(a, sets)
}

/// Every new variable copies a declared variable of a resource with its set and binding.
pub open spec fn mirror_sources_exist(s: Seq<u32>, nvs: Seq<NewVariable>) -> bool {
    forall|j: int| 0 <= j < nvs.len() ==> {
        &&& (#[trigger] resource_at(s, nvs[j].set, nvs[j].binding)) is Some
        &&& variable_of(s, op_starts(s, spv::SPV_INSTRUCTION_OP_VARIABLE as int), resource_at(s, nvs[j].set, nvs[j].binding)->0) is Some
        &&& wc_at(s, mirror_source(s, nvs[j]) as int) >= 3
    }
}


/// The body with the mirrored variables can have its bindings corrected and be walked.
pub open spec fn patch_succeeds(in_spv: Seq<u32>, nvs: Seq<NewVariable>) -> bool {
    let s = body_of(in_spv);
    let a = mirror_inserted(s, nvs);
    let sets = mirror_sets(s, nvs);
    let c = corrected_stream(a, sets);
    mirror_correctable(a, sets) && fits_in_memory(c) && tiles(c)
}

/// The module with the mirrored variables: the header with the new bound, then the body
/// with the variables inserted, the bindings corrected and the `OpNop`s left out.
pub open spec fn patched(in_spv: Seq<u32>, nvs: Seq<NewVariable>, bound: u32) -> Seq<u32> {
    let s = body_of(in_spv);
    in_spv.subrange(0, spv::SPV_HEADER_LENGTH as int).update(spv::SPV_HEADER_INSTRUCTION_BOUND_OFFSET as int, bound)
        + strip_nops(corrected_stream(mirror_inserted(s, nvs), mirror_sets(s, nvs)))
}

/// The corrections after mirroring: untracked stays untracked; tracked gains one correction
/// per mirrored variable whose original has a set and a binding.
pub open spec fn corrections_patched(
    in_spv: Seq<u32>,
    nvs: Seq<NewVariable>,
    before: Option<CorrectionMap>,
    after: Option<CorrectionMap>,
) -> bool {
    let s = body_of(in_spv);
    let decs = op_starts(s, spv::SPV_INSTRUCTION_OP_DECORATE as int);
    let affected = mirror_affected(s, nvs);
    &&& before is None ==> after is None
    &&& before matches Some(m0) ==> after matches Some(m1) && {
        &&& sets_view(m1.sets) == affected_corrections(s, decs, affected, sets_view(m0.sets), nvs.len() as int)
        &&& (m1.sets is Some) == (m0.sets is Some || mirror_sets(s, nvs) != Set::<u32>::empty())
        &&& m1.immediates_set == m0.immediates_set
        &&& m1.immediates_set_mode == m0.immediates_set_mode
    }
}

fn find_binding_decoration(spv: &[u32], op_decorate_idxs: &[usize], id: u32, binding: u32) -> (r: bool)
    requires
        idxs_reach(spv@, op_decorate_idxs@, 3),
    ensures
        r == has_binding_decoration(spv@, op_decorate_idxs@, id, binding),
{
    let ghost decs = op_decorate_idxs@;
    let mut j: usize = 0;
    while j < op_decorate_idxs.len()
        invariant
            j <= decs.len(),
            decs == op_decorate_idxs@,
            idxs_reach(spv@, decs, 3),
            forall|i: int| 0 <= i < j ==> !(spv@[#[trigger] decs[i] + 2] == spv::SPV_DECORATION_BINDING
                && spv@[decs[i] + 3] == binding && spv@[decs[i] + 1] == id),
        decreases decs.len() - j,
    {
        let idx = op_decorate_idxs[j];
        assert(decs[j as int] + 3 < spv@.len());
        assert(spv@.len() == spv.len());
        if spv[idx + 2] == spv::SPV_DECORATION_BINDING && spv[idx + 3] == binding && spv[idx + 1] == id {
            return true;
        }
        j = j + 1;
    }
    false
}

fn find_resource(spv: &[u32], op_decorate_idxs: &[usize], set: u32, binding: u32) -> (r: Option<u32>)
    requires
        idxs_reach(spv@, op_decorate_idxs@, 3),
    ensures
        r == resource_at_from(spv@, op_decorate_idxs@, op_decorate_idxs@, set, binding),
{
    let ghost decs = op_decorate_idxs@;
    let mut j: usize = 0;
    assert(decs.skip(0) =~= decs);
    while j < op_decorate_idxs.len()
        invariant
            j <= decs.len(),
            decs == op_decorate_idxs@,
            idxs_reach(spv@, decs, 3),
            resource_at_from(spv@, decs, decs, set, binding) == resource_at_from(spv@, decs, decs.skip(j as int), set, binding),
        decreases decs.len() - j,
    {
        let d_idx = op_decorate_idxs[j];
        assert(decs[j as int] + 3 < spv@.len());
        assert(spv@.len() == spv.len());
        assert(decs.skip(j as int)[0] == d_idx);
        let target_id = spv[d_idx + 1];
        if spv[d_idx + 2] == spv::SPV_DECORATION_DESCRIPTOR_SET && spv[d_idx + 3] == set
            && find_binding_decoration(spv, op_decorate_idxs, target_id, binding) {
            return Some(target_id);
        }
        assert(decs.skip(j as int).drop_first() =~= decs.skip(j + 1));
        j = j + 1;
    }
    None
}

fn find_variable(spv: &[u32], op_variable_idxs: &[usize], id: u32) -> (r: Option<usize>)
    requires
        idxs_reach(spv@, op_variable_idxs@, 3),
    ensures
        r == variable_of(spv@, op_variable_idxs@, id),
{
    let ghost vars = op_variable_idxs@;
    let mut j: usize = 0;
    assert(vars.skip(0) =~= vars);
    while j < op_variable_idxs.len()
        invariant
            j <= vars.len(),
            vars == op_variable_idxs@,
            idxs_reach(spv@, vars, 3),
            variable_of(spv@, vars, id) == variable_of(spv@, vars.skip(j as int), id),
        decreases vars.len() - j,
    {
        let v_idx = op_variable_idxs[j];
        assert(vars[j as int] + 3 < spv@.len());
        assert(spv@.len() == spv.len());
        assert(vars.skip(j as int)[0] == v_idx);
        if spv[v_idx + 2] == id {
            return Some(v_idx);
        }
        assert(vars.skip(j as int).drop_first() =~= vars.skip(j + 1));
        j = j + 1;
    }
    None
}

/// Adds the new variables to a module: each a copy of the variable of the resource at its
/// set and binding, given that set and binding by new decorations and recorded in
/// `corrections`; then the bindings of the touched sets are corrected and the module gets
/// `new_instruction_bound`. It is an error when the module with the new instructions can
/// no longer have its bindings corrected or be walked.
pub fn patch_spv_decorations(
    in_spv: &[u32],
    corrections: &mut Option<CorrectionMap>,
    new_instruction_bound: u32,
    affected_decorations: &[NewVariable],
) -> (r: Result<Vec<u32>, ()>)
    requires
        in_spv@.len() >= spv::SPV_HEADER_LENGTH,
        in_spv@[spv::SPV_HEADER_MAGIC_NUM_OFFSET as int] == spv::SPV_HEADER_MAGIC,
        wf_stream(body_of(in_spv@)),
        mirror_sources_exist(body_of(in_spv@), affected_decorations@),
    ensures
        patch_succeeds(in_spv@, affected_decorations@) ==> (r matches Ok(out)
            && out@ == patched(in_spv@, affected_decorations@, new_instruction_bound)),
        !patch_succeeds(in_spv@, affected_decorations@) ==> r is Err,
        corrections_patched(in_spv@, affected_decorations@, *old(corrections), *final(corrections)),
{
    let ghost s = body_of(in_spv@);
    let ghost nvs = affected_decorations@;
    let spv_header = vstd::slice::slice_to_vec(slice_subrange(in_spv, 0, spv::SPV_HEADER_LENGTH));
    let spv = vstd::slice::slice_to_vec(slice_subrange(in_spv, spv::SPV_HEADER_LENGTH, in_spv.len()));
    assert(spv@ == s);
    let mut new_spv = vstd::slice::slice_to_vec(slice_subrange(in_spv, spv::SPV_HEADER_LENGTH, in_spv.len()));

    // 1. Find locations instructions we need
    proof {
        lemma_tiles_terminates(s, 0);
        lemma_op_starts_reach(s, spv::SPV_INSTRUCTION_OP_DECORATE as int);
        lemma_op_starts_reach(s, spv::SPV_INSTRUCTION_OP_VARIABLE as int);
        lemma_tiles_inside(s, 0);
    }
    let op_decorate_idxs = instruction_idxs(&spv, spv::SPV_INSTRUCTION_OP_DECORATE);
    let op_variable_idxs = instruction_idxs(&spv, spv::SPV_INSTRUCTION_OP_VARIABLE);
    let ghost decs = op_decorate_idxs@;
    let first_op_deocrate_idx = if op_decorate_idxs.len() > 0 { Some(op_decorate_idxs[0]) } else { None };

    // 2. Convert and insert new variables
    let mut instruction_inserts: Vec<InstructionInsert> = Vec::new();
    let mut affected: Vec<AffectedDecoration> = Vec::new();
    let mut k: usize = 0;
    while k < affected_decorations.len()
        invariant
            s == spv@,
            nvs == affected_decorations@,
            wf_stream(s),
            mirror_sources_exist(s, nvs),
            decs == op_decorate_idxs@,
            decs == op_starts(s, spv::SPV_INSTRUCTION_OP_DECORATE as int),
            op_variable_idxs@ == op_starts(s, spv::SPV_INSTRUCTION_OP_VARIABLE as int),
            idxs_reach(s, decs, 3),
            idxs_reach(s, op_variable_idxs@, 3),
            forall|j: int| 0 <= j < starts_from(s, 0).len() ==>
                #[trigger] starts_from(s, 0)[j] + wc_at(s, starts_from(s, 0)[j] as int) <= s.len(),
            forall|j: int| 0 <= j < op_starts(s, spv::SPV_INSTRUCTION_OP_VARIABLE as int).len()
                ==> starts(s).contains(#[trigger] op_starts(s, spv::SPV_INSTRUCTION_OP_VARIABLE as int)[j]),
            k <= nvs.len(),
            instruction_inserts@.len() == k,
            affected@.len() == k,
            forall|j: int| 0 <= j < k ==> insert_views(instruction_inserts@)[j]
                == #[trigger] mirror_inserts(s, nvs)[j],
            forall|j: int| 0 <= j < k ==> #[trigger] affected@[j] == mirror_affected(s, nvs)[j],
        decreases nvs.len() - k,
    {
        let nv = affected_decorations[k];
        assert(resource_at(s, nvs[k as int].set, nvs[k as int].binding) is Some);
        let original_variable_id = find_resource(&spv, &op_decorate_idxs, nv.set, nv.binding).unwrap();
        let original_variable_idx = find_variable(&spv, &op_variable_idxs, original_variable_id).unwrap();
        let ghost src = mirror_source(s, nv);
        assert(original_variable_idx == src);
        proof {
            lemma_variable_of_listed(s, op_variable_idxs@, original_variable_id);
            let i = choose|i: int| 0 <= i < op_variable_idxs@.len() && op_variable_idxs@[i] == src;
            assert(starts(s).contains(src));
            let m = choose|m: int| 0 <= m < starts(s).len() && starts(s)[m] == src;
            assert(starts_from(s, 0)[m] + wc_at(s, starts_from(s, 0)[m] as int) <= s.len());
        }
        let word_count = hiword(spv[original_variable_idx]) as usize;
        let mut new_variable = vstd::slice::slice_to_vec(slice_subrange(spv.as_slice(), original_variable_idx,
            original_variable_idx + word_count));
        new_variable.set(2, nv.new_res_id);
        assert(new_variable@ =~= variable_copy(s, src, nv.new_res_id));
        let ghost before = instruction_inserts@;
        instruction_inserts.push(InstructionInsert { previous_spv_idx: original_variable_idx, instruction: new_variable });
        let ghost abefore = affected@;
        affected.push(AffectedDecoration {
            original_res_id: spv[original_variable_idx + 2],
            new_res_id: nv.new_res_id,
            correction_type: nv.correction_type,
        });
        proof {
            assert forall|j: int| 0 <= j < k + 1 implies insert_views(instruction_inserts@)[j]
                == #[trigger] mirror_inserts(s, nvs)[j] by {
                if j < k {
                    assert(instruction_inserts@[j] == before[j]);
                    assert(insert_views(before)[j] == mirror_inserts(s, nvs)[j]);
                }
            }
            assert forall|j: int| 0 <= j < k + 1 implies #[trigger] affected@[j] == mirror_affected(s, nvs)[j] by {
                if j < k {
                    assert(affected@[j] == abefore[j]);
                }
            }
        }
        k = k + 1;
    }
    assert(affected@ =~= mirror_affected(s, nvs));

    // 3. Insert new OpDecorate
    let ghost base = instruction_inserts@;
    let ghost added = added_decorations(s, decs, affected@, affected@.len() as int);
    proof {
        if added.len() > 0 {
            lemma_added_needs_decoration(s, decs, affected@, affected@.len() as int);
        }
    }
    let DecorateOut { descriptor_sets_to_correct } = decorate(DecorateIn {
        spv: spv.as_slice(),
        instruction_inserts: &mut instruction_inserts,
        first_op_deocrate_idx,
        op_decorate_idxs: op_decorate_idxs.as_slice(),
        affected_decorations: affected.as_slice(),
        corrections,
    });
    let ghost views = insert_views(instruction_inserts@);
    proof {
        assert forall|j: int| 0 <= j < views.len() implies (#[trigger] views[j]) == mirror_inserts(s, nvs)[j] by {
            if j < nvs.len() {
                assert(instruction_inserts@[j] == base[j]);
                assert(insert_views(base)[j] == mirror_inserts(s, nvs)[j]);
            } else {
                assert(instruction_inserts@[j] == instruction_inserts@[base.len() + (j - base.len())]);
            }
        }
        assert(views =~= mirror_inserts(s, nvs));
        assert forall|j: int| 0 <= j < views.len() implies (#[trigger] views[j]).0 < s.len()
            && views[j].0 + spec_hiword(s[views[j].0 as int]) <= s.len() by {
            lemma_mirror_anchor(s, nvs, j);
        }
        assert(views.len() == instruction_inserts.len());
        lemma_inserted_some(s, s, views);
    }

    // 4. Insert New Instructions
    let no_words: Vec<WordInsert> = Vec::new();
    assert(no_words@ =~= Seq::<WordInsert>::empty());
    insert_new_instructions(spv.as_slice(), &mut new_spv, no_words.as_slice(), instruction_inserts.as_slice());
    let ghost a = new_spv@;
    assert(a == mirror_inserted(s, nvs));

    // 5. Correct OpDecorate Bindings
    if !is_tiled(new_spv.as_slice()) {
        return Err(());
    }
    proof {
        lemma_tiles_terminates(a, 0);
    }
    let new_decorate_idxs = instruction_idxs(new_spv.as_slice(), spv::SPV_INSTRUCTION_OP_DECORATE);
    if !check_idxs_reach(new_spv.as_slice(), new_decorate_idxs.as_slice(), 3) {
        return Err(());
    }
    if !check_corrections_fit(new_spv.as_slice(), &descriptor_sets_to_correct) {
        return Err(());
    }
    correct_decorate(CorrectDecorateIn { new_spv: new_spv.as_mut_slice(), descriptor_sets_to_correct });

    // 6. Remove Instructions that have been Whited Out.
    if !is_tiled(new_spv.as_slice()) {
        return Err(());
    }
    prune_noops(&mut new_spv);

    // 7. Write New Header and New Code
    let out = fuse_final(spv_header, new_spv, new_instruction_bound);
    Ok(out)
}

proof fn lemma_variable_of_listed(s: Seq<u32>, vars: Seq<usize>, id: u32)
    requires
        variable_of(s, vars, id) is Some,
    ensures
        vars.contains(variable_of(s, vars, id)->0),
    decreases vars.len(),
{
    if s[vars[0] + 2] != id {
        lemma_variable_of_listed(s, vars.drop_first(), id);
        let i = choose|i: int| 0 <= i < vars.drop_first().len() && vars.drop_first()[i] == variable_of(s, vars, id)->0;
        assert(vars[i + 1] == variable_of(s, vars, id)->0);
    } else {
        assert(vars[0] == variable_of(s, vars, id)->0);
    }
}


/// Every insert of the mirrored variables follows a whole instruction of the body.
proof fn lemma_mirror_anchor(s: Seq<u32>, nvs: Seq<NewVariable>, j: int)
    requires
        wf_stream(s),
        mirror_sources_exist(s, nvs),
        0 <= j < mirror_inserts(s, nvs).len(),
    ensures
        mirror_inserts(s, nvs)[j].0 < s.len(),
        mirror_inserts(s, nvs)[j].0 + spec_hiword(s[mirror_inserts(s, nvs)[j].0 as int]) <= s.len(),
{
    let decs = op_starts(s, spv::SPV_INSTRUCTION_OP_DECORATE as int);
    let vars = op_starts(s, spv::SPV_INSTRUCTION_OP_VARIABLE as int);
    let added = added_decorations(s, decs, mirror_affected(s, nvs), nvs.len() as int);
    lemma_tiles_inside(s, 0);
    lemma_op_starts_reach(s, spv::SPV_INSTRUCTION_OP_DECORATE as int);
    lemma_op_starts_reach(s, spv::SPV_INSTRUCTION_OP_VARIABLE as int);
    lemma_starts_inside(s);
    let x = mirror_inserts(s, nvs)[j].0;
    if j < nvs.len() {
        assert(x == mirror_source(s, nvs[j]));
        assert(resource_at(s, nvs[j].set, nvs[j].binding) is Some);
        lemma_variable_of_listed(s, vars, resource_at(s, nvs[j].set, nvs[j].binding)->0);
        let i = choose|i: int| 0 <= i < vars.len() && vars[i] == x;
        assert(starts(s).contains(x));
    } else {
        lemma_added_needs_decoration(s, decs, mirror_affected(s, nvs), nvs.len() as int);
        assert(x == decs[0]);
        assert(starts(s).contains(x));
    }
    let m = choose|m: int| 0 <= m < starts(s).len() && starts(s)[m] == x;
    assert(starts_from(s, 0)[m] + wc_at(s, starts_from(s, 0)[m] as int) <= s.len());
}

proof fn lemma_starts_inside(s: Seq<u32>)
    requires
        wf_stream(s),
    ensures
        forall|m: int| 0 <= m < starts(s).len() ==> #[trigger] starts(s)[m] < s.len(),
{
    crate::util::instruction::lemma_starts_from_bounds(s, 0);
}


proof fn lemma_first_some_at(ll: Seq<Option<CorrectionType>>, c: CorrectionType, i: int)
    requires
        0 <= i < ll.len(),
        ll[i] == Some(c),
        forall|k: int| 0 <= k < i ==> ll[k] != Some(c),
    ensures
        first_some(ll, c) == Some(i),
    decreases i,
{
    if i > 0 {
        assert(ll[0] != Some(c));
        assert forall|k: int| 0 <= k < i - 1 implies ll.drop_first()[k] != Some(c) by {
            assert(ll.drop_first()[k] == ll[k + 1]);
        }
        lemma_first_some_at(ll.drop_first(), c, i - 1);
    }
}

proof fn lemma_unmatched_self_prefix(l: Seq<CorrectionType>, j: int)
    requires
        0 <= j <= l.len(),
    ensures
        unmatched(l, l.take(j)) == Seq::new(l.len(), |k: int| if k < j { None } else { Some(l[k]) }),
    decreases j,
{
    if j == 0 {
        assert(l.take(0) =~= Seq::<CorrectionType>::empty());
        assert(l.map_values(|c: CorrectionType| Some(c)) =~= Seq::new(l.len(), |k: int| if k < 0 { None } else { Some(l[k]) }));
    } else {
        lemma_unmatched_self_prefix(l, j - 1);
        let ll = unmatched(l, l.take(j - 1));
        assert(l.take(j).drop_last() =~= l.take(j - 1));
        assert(l.take(j).last() == l[j - 1]);
        lemma_first_some_at(ll, l[j - 1], j - 1);
        assert(ll.update(j - 1, None) =~= Seq::new(l.len(), |k: int| if k < j { None } else { Some(l[k]) }));
    }
}

proof fn lemma_nothing_mirrored(ll: Seq<Option<CorrectionType>>, set: u32, binding: u32, ib: u32, k: int)
    requires
        0 <= k <= ll.len(),
        forall|i: int| 0 <= i < ll.len() ==> #[trigger] ll[i] is None,
    ensures
        mirrored_variables(ll, set, binding, ib, k).0 == Seq::<NewVariable>::empty(),
        mirrored_variables(ll, set, binding, ib, k).2 == ib,
    decreases k,
{
    if k > 0 {
        lemma_nothing_mirrored(ll, set, binding, ib, k - 1);
        assert(ll[k - 1] is None);
    }
}

/// Mirroring a binding onto one with the same corrections adds no variable and takes no id.
pub proof fn lemma_mirror_of_same_corrections_adds_nothing(l: Seq<CorrectionType>, set: u32, binding: u32, ib: u32)
    ensures
        mirrored_variables(unmatched(l, l), set, binding, ib, l.len() as int).0 == Seq::<NewVariable>::empty(),
        mirrored_variables(unmatched(l, l), set, binding, ib, l.len() as int).2 == ib,
{
    lemma_unmatched_self_prefix(l, l.len() as int);
    assert(l.take(l.len() as int) =~= l);
    lemma_nothing_mirrored(unmatched(l, l), set, binding, ib, l.len() as int);
}


/// The corrections equal to `c`.
pub open spec fn is_kind(c: CorrectionType) -> spec_fn(CorrectionType) -> bool {
    |x: CorrectionType| x == c
}

/// The entries holding the correction `c`.
pub open spec fn holds_kind(c: CorrectionType) -> spec_fn(Option<CorrectionType>) -> bool {
    |o: Option<CorrectionType>| o == Some(c)
}

/// The variables carrying the correction `c`.
pub open spec fn carries_kind(c: CorrectionType) -> spec_fn(NewVariable) -> bool {
    |v: NewVariable| v.correction_type == c
}

/// How many of the corrections are `c`.
pub open spec fn count_of(l: Seq<CorrectionType>, c: CorrectionType) -> nat {
    l.filter(is_kind(c)).len()
}

/// How many entries are `Some(c)`.
pub open spec fn some_count(ll: Seq<Option<CorrectionType>>, c: CorrectionType) -> nat {
    ll.filter(holds_kind(c)).len()
}

/// How many of the variables carry the correction `c`.
pub open spec fn kind_count(vs: Seq<NewVariable>, c: CorrectionType) -> nat {
    vs.filter(carries_kind(c)).len()
}

/// Counting over a sequence: its first element, then the rest.
proof fn lemma_filter_len_first<A>(s: Seq<A>, p: spec_fn(A) -> bool)
    requires
        s.len() > 0,
    ensures
        s.filter(p).len() == (if p(s[0]) { 1int } else { 0int }) + s.drop_first().filter(p).len(),
{
    let head = seq![s[0]];
    assert(s =~= head + s.drop_first());
    Seq::filter_distributes_over_add(head, s.drop_first(), p);
    assert(Seq::<A>::empty().push(s[0]) =~= head);
    Seq::<A>::empty().lemma_filter_len_push(p, s[0]);
    Seq::<A>::empty().lemma_filter_len(p);
}

/// The first `Some(c)` lies in `ll`, and no `Some(c)` comes before it.
proof fn lemma_first_some_found(ll: Seq<Option<CorrectionType>>, c: CorrectionType)
    ensures
        first_some(ll, c) matches Some(i) ==> 0 <= i < ll.len() && ll[i] == Some(c),
    decreases ll.len(),
{
    if ll.len() > 0 && ll[0] != Some(c) {
        lemma_first_some_found(ll.drop_first(), c);
    }
}

/// Clearing the first `Some(x)` takes one `x` away, when there is one.
proof fn lemma_clear_first_count(ll: Seq<Option<CorrectionType>>, x: CorrectionType, c: CorrectionType)
    ensures
        first_some(ll, x) is None <==> some_count(ll, x) == 0,
        clear_first(ll, x).len() == ll.len(),
        some_count(clear_first(ll, x), c) == if x == c && some_count(ll, c) > 0 {
            some_count(ll, c) - 1
        } else {
            some_count(ll, c) as int
        },
    decreases ll.len(),
{
    if ll.len() == 0 {
        ll.lemma_filter_len(holds_kind(x));
        ll.lemma_filter_len(holds_kind(c));
    } else {
        let rest = ll.drop_first();
        lemma_clear_first_count(rest, x, c);
        lemma_filter_len_first(ll, holds_kind(x));
        lemma_filter_len_first(ll, holds_kind(c));
        if ll[0] == Some(x) {
            let cl = ll.update(0, None);
            assert(clear_first(ll, x) == cl);
            assert(cl.drop_first() =~= rest);
            lemma_filter_len_first(cl, holds_kind(c));
        } else {
            lemma_first_some_found(rest, x);
            match first_some(rest, x) {
                Some(j) => {
                    let cl = ll.update(j + 1, None);
                    assert(clear_first(ll, x) == cl);
                    assert(cl.drop_first() =~= rest.update(j, None));
                    assert(clear_first(rest, x) == rest.update(j, None));
                    assert(cl[0] == ll[0]);
                    lemma_filter_len_first(cl, holds_kind(c));
                },
                None => {
                    assert(clear_first(ll, x) == ll);
                },
            }
        }
    }
}

/// Every correction of `l`, as an entry: as many `Some(c)` as `l` has `c`.
proof fn lemma_some_count_of_all(l: Seq<CorrectionType>, c: CorrectionType)
    ensures
        l.map_values(|x: CorrectionType| Some(x)).len() == l.len(),
        some_count(l.map_values(|x: CorrectionType| Some(x)), c) == count_of(l, c),
    decreases l.len(),
{
    let f = |x: CorrectionType| Some(x);
    if l.len() == 0 {
        l.lemma_filter_len(is_kind(c));
        l.map_values(f).lemma_filter_len(holds_kind(c));
    } else {
        lemma_some_count_of_all(l.drop_last(), c);
        assert(l =~= l.drop_last().push(l.last()));
        assert(l.map_values(f) =~= l.drop_last().map_values(f).push(Some(l.last())));
        l.drop_last().lemma_filter_len_push(is_kind(c), l.last());
        l.drop_last().map_values(f).lemma_filter_len_push(holds_kind(c), Some(l.last()));
    }
}

/// The entries of `l` left unmatched by `r`: of each correction, as many as `l` has more
/// than `r`.
proof fn lemma_unmatched_count(l: Seq<CorrectionType>, r: Seq<CorrectionType>, c: CorrectionType)
    ensures
        unmatched(l, r).len() == l.len(),
        some_count(unmatched(l, r), c) == if count_of(l, c) > count_of(r, c) {
            count_of(l, c) - count_of(r, c)
        } else {
            0int
        },
    decreases r.len(),
{
    if r.len() == 0 {
        lemma_some_count_of_all(l, c);
        assert(l.map_values(|x: CorrectionType| Some(x)) =~= l.map_values(|c: CorrectionType| Some(c)));
        r.lemma_filter_len(is_kind(c));
    } else {
        let x = r.last();
        lemma_unmatched_count(l, r.drop_last(), c);
        lemma_unmatched_count(l, r.drop_last(), x);
        lemma_clear_first_count(unmatched(l, r.drop_last()), x, c);
        assert(r =~= r.drop_last().push(x));
        r.drop_last().lemma_filter_len_push(is_kind(c), x);
    }
}

/// The variables for the first `k` entries carry each correction as often as those entries
/// hold it.
proof fn lemma_mirrored_kinds(ll: Seq<Option<CorrectionType>>, set: u32, binding: u32, ib: u32, k: int, c: CorrectionType)
    requires
        0 <= k <= ll.len(),
    ensures
        kind_count(mirrored_variables(ll, set, binding, ib, k).0, c) == some_count(ll.take(k), c),
    decreases k,
{
    if k == 0 {
        mirrored_variables(ll, set, binding, ib, 0).0.lemma_filter_len(carries_kind(c));
        ll.take(0).lemma_filter_len(holds_kind(c));
    } else {
        lemma_mirrored_kinds(ll, set, binding, ib, k - 1, c);
        let prev = mirrored_variables(ll, set, binding, ib, k - 1);
        assert(ll.take(k) =~= ll.take(k - 1).push(ll[k - 1]));
        ll.take(k - 1).lemma_filter_len_push(holds_kind(c), ll[k - 1]);
        match ll[k - 1] {
            Some(cc) => {
                let v = NewVariable {
                    set,
                    binding: (binding + prev.1) as u32,
                    new_res_id: prev.2 as u32,
                    correction_type: cc,
                };
                prev.0.lemma_filter_len_push(carries_kind(c), v);
            },
            None => {},
        }
    }
}

/// Mirroring one binding onto another adds, of each correction, as many variables as the
/// first binding has more of it than the second (none when it has no more).
pub proof fn lemma_mirror_adds_what_the_other_lacks(
    l: Seq<CorrectionType>,
    r: Seq<CorrectionType>,
    set: u32,
    binding: u32,
    ib: u32,
    c: CorrectionType,
)
    ensures
        kind_count(mirrored_variables(unmatched(l, r), set, binding, ib, l.len() as int).0, c)
            == if count_of(l, c) > count_of(r, c) { count_of(l, c) - count_of(r, c) } else { 0int },
{
    lemma_unmatched_count(l, r, c);
    lemma_mirrored_kinds(unmatched(l, r), set, binding, ib, l.len() as int, c);
    assert(unmatched(l, r).take(l.len() as int) =~= unmatched(l, r));
}

/// The corrections a side records, by set and binding (none when it records nothing).
pub open spec fn corrections_of(c: Option<CorrectionMap>) -> CorrectionsView {
    match c {
        Some(m) => sets_view(m.sets),
        None => Map::empty(),
    }
}

pub open spec fn bindings_of(m: CorrectionsView, set: u32) -> Map<u32, Seq<CorrectionType>> {
    if m.contains_key(set) { m[set] } else { Map::empty() }
}

pub open spec fn corrections_at(b: Map<u32, Seq<CorrectionType>>, binding: u32) -> Seq<CorrectionType> {
    if b.contains_key(binding) { b[binding] } else { Seq::empty() }
}

/// Mirroring the first `k` bindings (in increasing order) of one side's set onto the other
/// side: the other side's new variables and next id.
pub open spec fn mirror_bindings(
    set: u32,
    from: Map<u32, Seq<CorrectionType>>,
    to: Map<u32, Seq<CorrectionType>>,
    nvs: Seq<NewVariable>,
    ib: u32,
    k: int,
) -> (Seq<NewVariable>, int)
    decreases k,
{
    if k <= 0 {
        (nvs, ib as int)
    } else {
        let prev = mirror_bindings(set, from, to, nvs, ib, k - 1);
        let binding = ascending_keys(from.dom())[k - 1];
        let l = corrections_at(from, binding);
        let m = mirrored_variables(unmatched(l, corrections_at(to, binding)), set, binding, prev.1 as u32, l.len() as int);
        (prev.0 + m.0, m.2)
    }
}

/// Every id and binding handed out while mirroring the first `k` bindings fits in a word.
pub open spec fn mirror_bindings_fit(
    set: u32,
    from: Map<u32, Seq<CorrectionType>>,
    to: Map<u32, Seq<CorrectionType>>,
    nvs: Seq<NewVariable>,
    ib: u32,
    k: int,
) -> bool
    decreases k,
{
    if k <= 0 {
        true
    } else {
        let prev = mirror_bindings(set, from, to, nvs, ib, k - 1);
        let binding = ascending_keys(from.dom())[k - 1];
        let l = corrections_at(from, binding);
        &&& mirror_bindings_fit(set, from, to, nvs, ib, k - 1)
        &&& prev.1 <= u32::MAX
        &&& mirrored_fits(unmatched(l, corrections_at(to, binding)), set, binding, prev.1 as u32, l.len() as int)
    }
}

/// The plan after mirroring the first `k` sets (in increasing order, over the sets of both
/// sides): the left side's new variables and next id, then the right side's.
pub open spec fn mirror_plan(left: CorrectionsView, right: CorrectionsView, left_ib: u32, right_ib: u32, k: int)
    -> (Seq<NewVariable>, int, Seq<NewVariable>, int)
    decreases k,
{
    if k <= 0 {
        (Seq::empty(), left_ib as int, Seq::empty(), right_ib as int)
    } else {
        let prev = mirror_plan(left, right, left_ib, right_ib, k - 1);
        let set = ascending_keys(left.dom() + right.dom())[k - 1];
        let lb = bindings_of(left, set);
        let rb = bindings_of(right, set);
        let r = mirror_bindings(set, lb, rb, prev.2, prev.3 as u32, ascending_keys(lb.dom()).len() as int);
        let l = mirror_bindings(set, rb, lb, prev.0, prev.1 as u32, ascending_keys(rb.dom()).len() as int);
        (l.0, l.1, r.0, r.1)
    }
}

/// Every id and binding handed out while mirroring the first `k` sets fits in a word.
pub open spec fn mirror_plan_fits(left: CorrectionsView, right: CorrectionsView, left_ib: u32, right_ib: u32, k: int) -> bool
    decreases k,
{
    if k <= 0 {
        true
    } else {
        let prev = mirror_plan(left, right, left_ib, right_ib, k - 1);
        let set = ascending_keys(left.dom() + right.dom())[k - 1];
        let lb = bindings_of(left, set);
        let rb = bindings_of(right, set);
        &&& mirror_plan_fits(left, right, left_ib, right_ib, k - 1)
        &&& prev.1 <= u32::MAX
        &&& prev.3 <= u32::MAX
        &&& mirror_bindings_fit(set, lb, rb, prev.2, prev.3 as u32, ascending_keys(lb.dom()).len() as int)
        &&& mirror_bindings_fit(set, rb, lb, prev.0, prev.1 as u32, ascending_keys(rb.dom()).len() as int)
    }
}


/// Mirroring is symmetric: with the two sides swapped, the plan swaps too (what the left
/// side gains from the right is what the right side gains as the second argument), and so
/// does whether it fits.
pub proof fn lemma_mirror_plan_swap(left: CorrectionsView, right: CorrectionsView, left_ib: u32, right_ib: u32, k: int)
    ensures
        ({
            let p = mirror_plan(left, right, left_ib, right_ib, k);
            mirror_plan(right, left, right_ib, left_ib, k) == (p.2, p.3, p.0, p.1)
        }),
        mirror_plan_fits(right, left, right_ib, left_ib, k) == mirror_plan_fits(left, right, left_ib, right_ib, k),
    decreases k,
{
    if k > 0 {
        lemma_mirror_plan_swap(left, right, left_ib, right_ib, k - 1);
        assert(left.dom() + right.dom() =~= right.dom() + left.dom());
    }
}

/// The corrections of a set's bindings.
pub open spec fn bindings_view(b: HashMap<u32, CorrectionBinding>) -> Map<u32, Seq<CorrectionType>> {
    b@.map_values(|cb: CorrectionBinding| cb.corrections@)
}

fn mirror_set_bindings(
    new_variables: &mut Vec<NewVariable>,
    instruction_bound: &mut u32,
    set: u32,
    from: &HashMap<u32, CorrectionBinding>,
    to: &HashMap<u32, CorrectionBinding>,
)
    requires
        mirror_bindings_fit(set, bindings_view(*from), bindings_view(*to), old(new_variables)@, *old(instruction_bound),
            ascending_keys(bindings_view(*from).dom()).len() as int),
    ensures
        ({
            let m = mirror_bindings(set, bindings_view(*from), bindings_view(*to), old(new_variables)@,
                *old(instruction_bound), ascending_keys(bindings_view(*from).dom()).len() as int);
            &&& final(new_variables)@ == m.0
            &&& *final(instruction_bound) == m.1
        }),
{
    let ghost fv = bindings_view(*from);
    let ghost tv = bindings_view(*to);
    let ghost nv0 = new_variables@;
    let ghost ib0 = *instruction_bound;
    let keys = sorted_map_keys(from);
    assert(fv.dom() =~= from@.dom());
    let ghost n = keys@.len() as int;
    let empty = CorrectionBinding { corrections: Vec::new() };
    let mut k: usize = 0;
    while k < keys.len()
        invariant
            keys@ == ascending_keys(fv.dom()),
            keys@.to_set() == from@.dom(),
            fv == bindings_view(*from),
            tv == bindings_view(*to),
            empty.corrections@ == Seq::<CorrectionType>::empty(),
            k <= n,
            n == keys@.len(),
            mirror_bindings_fit(set, fv, tv, nv0, ib0, n),
            new_variables@ == mirror_bindings(set, fv, tv, nv0, ib0, k as int).0,
            *instruction_bound == mirror_bindings(set, fv, tv, nv0, ib0, k as int).1,
        decreases n - k,
    {
        let binding = keys[k];
        proof {
            lemma_mirror_bindings_fit_prefix(set, fv, tv, nv0, ib0, n, k + 1);
            assert(keys@.to_set().contains(binding));
        }
        let l = from.get(&binding).unwrap();
        let r = match to.get(&binding) {
            Some(r) => r,
            None => &empty,
        };
        assert(l.corrections@ == corrections_at(fv, binding));
        assert(r.corrections@ == corrections_at(tv, binding));
        push_affected_decorations(new_variables, instruction_bound, set, binding, l, r);
        k = k + 1;
    }
}

proof fn lemma_mirror_bindings_fit_prefix(
    set: u32,
    from: Map<u32, Seq<CorrectionType>>,
    to: Map<u32, Seq<CorrectionType>>,
    nvs: Seq<NewVariable>,
    ib: u32,
    n: int,
    k: int,
)
    requires
        mirror_bindings_fit(set, from, to, nvs, ib, n),
        0 <= k <= n,
    ensures
        mirror_bindings_fit(set, from, to, nvs, ib, k),
    decreases n - k,
{
    if k < n {
        lemma_mirror_bindings_fit_prefix(set, from, to, nvs, ib, n - 1, k);
    }
}

proof fn lemma_mirror_plan_fits_prefix(left: CorrectionsView, right: CorrectionsView, left_ib: u32, right_ib: u32, n: int, k: int)
    requires
        mirror_plan_fits(left, right, left_ib, right_ib, n),
        0 <= k <= n,
    ensures
        mirror_plan_fits(left, right, left_ib, right_ib, k),
    decreases n - k,
{
    if k < n {
        lemma_mirror_plan_fits_prefix(left, right, left_ib, right_ib, n - 1, k);
    }
}

fn sets_or_empty<'a>(c: &'a Option<CorrectionMap>, empty: &'a HashMap<u32, CorrectionSet>) -> (r: &'a HashMap<u32, CorrectionSet>)
    requires
        empty@ == Map::<u32, CorrectionSet>::empty(),
    ensures
        r@.map_values(|cs: CorrectionSet| set_view(cs)) == corrections_of(*c),
{
    match c {
        Some(m) => match &m.sets {
            Some(sets) => sets,
            None => {
                assert(empty@.map_values(|cs: CorrectionSet| set_view(cs)) =~= Map::<u32, Map<u32, Seq<CorrectionType>>>::empty());
                empty
            },
        },
        None => {
            assert(empty@.map_values(|cs: CorrectionSet| set_view(cs)) =~= Map::<u32, Map<u32, Seq<CorrectionType>>>::empty());
            empty
        },
    }
}

fn bindings_or_empty<'a>(cs: Option<&'a CorrectionSet>, empty: &'a HashMap<u32, CorrectionBinding>) -> (r: &'a HashMap<u32, CorrectionBinding>)
    requires
        empty@ == Map::<u32, CorrectionBinding>::empty(),
    ensures
        cs matches Some(c) ==> r == &c.bindings,
        cs is None ==> r@ == Map::<u32, CorrectionBinding>::empty(),
{
    match cs {
        Some(c) => &c.bindings,
        None => empty,
    }
}

/// What mirroring needs of the two shaders: the new variables and ids of the plan fit in
/// words, and each side that gains variables is a module that can take them.
pub open spec fn mirror_ready(
    left_spv: Seq<u32>,
    left: Option<CorrectionMap>,
    right_spv: Seq<u32>,
    right: Option<CorrectionMap>,
) -> bool {
    let lv = corrections_of(left);
    let rv = corrections_of(right);
    let n = ascending_keys(lv.dom() + rv.dom()).len() as int;
    let plan = mirror_plan(lv, rv, left_spv[spv::SPV_HEADER_INSTRUCTION_BOUND_OFFSET as int],
        right_spv[spv::SPV_HEADER_INSTRUCTION_BOUND_OFFSET as int], n);
    &&& left_spv.len() >= spv::SPV_HEADER_LENGTH
    &&& right_spv.len() >= spv::SPV_HEADER_LENGTH
    &&& mirror_plan_fits(lv, rv, left_spv[spv::SPV_HEADER_INSTRUCTION_BOUND_OFFSET as int],
        right_spv[spv::SPV_HEADER_INSTRUCTION_BOUND_OFFSET as int], n)
    &&& plan.1 <= u32::MAX
    &&& plan.3 <= u32::MAX
    &&& plan.0.len() > 0 ==> {
        &&& left_spv[spv::SPV_HEADER_MAGIC_NUM_OFFSET as int] == spv::SPV_HEADER_MAGIC
        &&& wf_stream(body_of(left_spv))
        &&& mirror_sources_exist(body_of(left_spv), plan.0)
    }
    &&& plan.2.len() > 0 ==> {
        &&& right_spv[spv::SPV_HEADER_MAGIC_NUM_OFFSET as int] == spv::SPV_HEADER_MAGIC
        &&& wf_stream(body_of(right_spv))
        &&& mirror_sources_exist(body_of(right_spv), plan.2)
    }
}

/// The plan of new variables for two shaders: (left's, left's bound, right's, right's bound).
pub open spec fn mirror_plan_of(
    left_spv: Seq<u32>,
    left: Option<CorrectionMap>,
    right_spv: Seq<u32>,
    right: Option<CorrectionMap>,
) -> (Seq<NewVariable>, int, Seq<NewVariable>, int) {
    let lv = corrections_of(left);
    let rv = corrections_of(right);
    mirror_plan(lv, rv, left_spv[spv::SPV_HEADER_INSTRUCTION_BOUND_OFFSET as int],
        right_spv[spv::SPV_HEADER_INSTRUCTION_BOUND_OFFSET as int], ascending_keys(lv.dom() + rv.dom()).len() as int)
}

/// Mirroring two shaders is symmetric: swapping them swaps the new variables each side
/// gets, and whether mirroring can be done; every correction of one side that the other
/// lacks becomes a variable of the other side, whichever side it is.
pub proof fn lemma_mirror_symmetric(
    left_spv: Seq<u32>,
    left: Option<CorrectionMap>,
    right_spv: Seq<u32>,
    right: Option<CorrectionMap>,
)
    ensures
        ({
            let p = mirror_plan_of(left_spv, left, right_spv, right);
            mirror_plan_of(right_spv, right, left_spv, left) == (p.2, p.3, p.0, p.1)
        }),
        mirror_ready(right_spv, right, left_spv, left) == mirror_ready(left_spv, left, right_spv, right),
{
    let lv = corrections_of(left);
    let rv = corrections_of(right);
    let lib = left_spv[spv::SPV_HEADER_INSTRUCTION_BOUND_OFFSET as int];
    let rib = right_spv[spv::SPV_HEADER_INSTRUCTION_BOUND_OFFSET as int];
    assert(lv.dom() + rv.dom() =~= rv.dom() + lv.dom());
    let n = ascending_keys(lv.dom() + rv.dom()).len() as int;
    lemma_mirror_plan_swap(lv, rv, lib, rib, n);
}

/// The sets of either side, in increasing order.
fn scan_sets(left_map: &HashMap<u32, CorrectionSet>, right_map: &HashMap<u32, CorrectionSet>) -> (r: Vec<u32>)
    ensures
        r@ == ascending_keys(left_map@.dom() + right_map@.dom()),
{
    let ghost lv = left_map@;
    let ghost rv = right_map@;
    let mut scan_set_idxs = sorted_map_keys(left_map);
    let right_keys = sorted_map_keys(right_map);
    let mut j: usize = 0;
    while j < right_keys.len()
        invariant
            ascending(scan_set_idxs@),
            scan_set_idxs@.to_set() == lv.dom() + right_keys@.take(j as int).to_set(),
            j <= right_keys@.len(),
        decreases right_keys@.len() - j,
    {
        let ghost before = scan_set_idxs@.to_set();
        insert_ascending(&mut scan_set_idxs, right_keys[j]);
        proof {
            assert(right_keys@.take(j + 1).to_set() =~= right_keys@.take(j as int).to_set().insert(right_keys@[j as int])) by {
                assert forall|y: u32| right_keys@.take(j + 1).to_set().contains(y)
                    <==> right_keys@.take(j as int).to_set().insert(right_keys@[j as int]).contains(y) by {
                    if right_keys@.take(j + 1).contains(y) {
                        let i = choose|i: int| 0 <= i < j + 1 && #[trigger] right_keys@.take(j + 1)[i] == y;
                        if i < j {
                            assert(right_keys@.take(j as int)[i] == y);
                        }
                    }
                    if right_keys@.take(j as int).contains(y) {
                        let i = choose|i: int| 0 <= i < j && #[trigger] right_keys@.take(j as int)[i] == y;
                        assert(right_keys@.take(j + 1)[i] == y);
                    }
                    if y == right_keys@[j as int] {
                        assert(right_keys@.take(j + 1)[j as int] == y);
                    }
                }
            }
            assert(scan_set_idxs@.to_set() =~= lv.dom() + right_keys@.take(j + 1).to_set());
        }
        j = j + 1;
    }
    proof {
        assert(right_keys@.take(j as int) =~= right_keys@);
        assert(scan_set_idxs@.to_set() =~= lv.dom() + rv.dom());
        lemma_ascending_unique(scan_set_idxs@, ascending_keys(lv.dom() + rv.dom()));
    }
    scan_set_idxs
}

/// Reflect one set of patched uniforms onto another shader with the same underlying set of
/// uniforms.
/// This is important for ensuring patched vertex and fragment shaders have the same layout.
/// This is because some transformations occur based off what instructions appear, so as a result,
/// the vertex and fragment shader may have a different layout after a set of transformations
///
/// The sets of both sides are visited in increasing order, and in each set first the left
/// bindings and then the right bindings, in increasing order: each binding's corrections
/// that the other side lacks become new variables of the other side.
pub fn mirrorpatch(
    left_spv: &[u32],
    left_corrections: &mut Option<CorrectionMap>,
    right_spv: &[u32],
    right_corrections: &mut Option<CorrectionMap>,
) -> (r: Result<(Option<Vec<u32>>, Option<Vec<u32>>), ()>)
    requires
        *old(left_corrections) is Some || *old(right_corrections) is Some ==>
            mirror_ready(left_spv@, *old(left_corrections), right_spv@, *old(right_corrections)),
    ensures
        *old(left_corrections) is None && *old(right_corrections) is None ==> {
            &&& r == Ok::<(Option<Vec<u32>>, Option<Vec<u32>>), ()>((None, None))
            &&& *final(left_corrections) == *old(left_corrections)
            &&& *final(right_corrections) == *old(right_corrections)
        },
        *old(left_corrections) is Some || *old(right_corrections) is Some ==> ({
            let plan = mirror_plan_of(left_spv@, *old(left_corrections), right_spv@, *old(right_corrections));
            let left_ok = plan.0.len() == 0 || patch_succeeds(left_spv@, plan.0);
            let right_ok = plan.2.len() == 0 || patch_succeeds(right_spv@, plan.2);
            &&& plan.0.len() == 0 ==> *final(left_corrections) == *old(left_corrections)
            &&& plan.0.len() > 0 ==> corrections_patched(left_spv@, plan.0, *old(left_corrections), *final(left_corrections))
            &&& (!left_ok || plan.2.len() == 0) ==> *final(right_corrections) == *old(right_corrections)
            &&& (left_ok && plan.2.len() > 0) ==> corrections_patched(right_spv@, plan.2, *old(right_corrections), *final(right_corrections))
            &&& !(left_ok && right_ok) ==> r is Err
            &&& (left_ok && right_ok) ==> (r matches Ok((lo, ro)) && {
                &&& plan.0.len() == 0 ==> lo is None
                &&& plan.0.len() > 0 ==> (lo matches Some(out) && out@ == patched(left_spv@, plan.0, plan.1 as u32))
                &&& plan.2.len() == 0 ==> ro is None
                &&& plan.2.len() > 0 ==> (ro matches Some(out) && out@ == patched(right_spv@, plan.2, plan.3 as u32))
            })
        }),
{
    if left_corrections.is_none() && right_corrections.is_none() {
        return Ok((None, None));
    }
    let ghost lv = corrections_of(*left_corrections);
    let ghost rv = corrections_of(*right_corrections);
    let mut left_instruction_bound = left_spv[spv::SPV_HEADER_INSTRUCTION_BOUND_OFFSET];
    let mut right_instruction_bound = right_spv[spv::SPV_HEADER_INSTRUCTION_BOUND_OFFSET];
    let ghost lib0 = left_instruction_bound;
    let ghost rib0 = right_instruction_bound;
    let mut left_affected_decorations: Vec<NewVariable> = Vec::new();
    let mut right_affected_decorations: Vec<NewVariable> = Vec::new();
    {
        let empty_sets: HashMap<u32, CorrectionSet> = HashMap::new();
        let empty_bindings: HashMap<u32, CorrectionBinding> = HashMap::new();
        let left_map = sets_or_empty(left_corrections, &empty_sets);
        let right_map = sets_or_empty(right_corrections, &empty_sets);
        assert(left_map@.dom() =~= lv.dom());
        assert(right_map@.dom() =~= rv.dom());
        let scan_set_idxs = scan_sets(left_map, right_map);
        let ghost n = scan_set_idxs@.len() as int;
        let mut k: usize = 0;
        while k < scan_set_idxs.len()
            invariant
                scan_set_idxs@ == ascending_keys(lv.dom() + rv.dom()),
                n == scan_set_idxs@.len(),
                k <= n,
                left_map@.map_values(|cs: CorrectionSet| set_view(cs)) == lv,
                right_map@.map_values(|cs: CorrectionSet| set_view(cs)) == rv,
                empty_bindings@ == Map::<u32, CorrectionBinding>::empty(),
                mirror_plan_fits(lv, rv, lib0, rib0, n),
                left_affected_decorations@ == mirror_plan(lv, rv, lib0, rib0, k as int).0,
                left_instruction_bound == mirror_plan(lv, rv, lib0, rib0, k as int).1,
                right_affected_decorations@ == mirror_plan(lv, rv, lib0, rib0, k as int).2,
                right_instruction_bound == mirror_plan(lv, rv, lib0, rib0, k as int).3,
            decreases n - k,
        {
            let set_idx = scan_set_idxs[k];
            proof {
                lemma_mirror_plan_fits_prefix(lv, rv, lib0, rib0, n, k + 1);
            }
            let left_bindings = bindings_or_empty(left_map.get(&set_idx), &empty_bindings);
            let right_bindings = bindings_or_empty(right_map.get(&set_idx), &empty_bindings);
            assert(bindings_view(*left_bindings) =~= bindings_of(lv, set_idx));
            assert(bindings_view(*right_bindings) =~= bindings_of(rv, set_idx));
            mirror_set_bindings(&mut right_affected_decorations, &mut right_instruction_bound, set_idx, left_bindings, right_bindings);
            mirror_set_bindings(&mut left_affected_decorations, &mut left_instruction_bound, set_idx, right_bindings, left_bindings);
            k = k + 1;
        }
    }
    let l = if left_affected_decorations.len() > 0 {
        match patch_spv_decorations(left_spv, left_corrections, left_instruction_bound, left_affected_decorations.as_slice()) {
            Ok(out) => Some(out),
            Err(()) => {
                return Err(());
            },
        }
    } else {
        None
    };
    let r = if right_affected_decorations.len() > 0 {
        match patch_spv_decorations(right_spv, right_corrections, right_instruction_bound, right_affected_decorations.as_slice()) {
            Ok(out) => Some(out),
            Err(()) => {
                return Err(());
            },
        }
    } else {
        None
    };
    Ok((l, r))
}

/// Whether every binding and id handed out for the entries of `ll` fits in a word.
fn mirrored_fit(ll: &Vec<Option<CorrectionType>>, set: u32, binding: u32, ib: u32) -> (r: bool)
    ensures
        r == mirrored_fits(ll@, set, binding, ib, ll@.len() as int),
{
    let ghost lu = ll@;
    let mut offset: u64 = 0;
    let mut id: u64 = ib as u64;
    let mut k: usize = 0;
    while k < ll.len()
        invariant
            lu == ll@,
            k <= lu.len(),
            mirrored_fits(lu, set, binding, ib, k as int),
            offset == mirrored_variables(lu, set, binding, ib, k as int).1,
            id == mirrored_variables(lu, set, binding, ib, k as int).2,
            offset <= u32::MAX,
            id <= u32::MAX,
        decreases lu.len() - k,
    {
        match ll[k] {
            Some(_) => {
                if binding as u64 + offset > u32::MAX as u64 || id + 1 > u32::MAX as u64 {
                    proof {
                        if mirrored_fits(lu, set, binding, ib, lu.len() as int) {
                            lemma_mirrored_fits_prefix(lu, set, binding, ib, lu.len() as int, k + 1);
                        }
                    }
                    return false;
                }
                id = id + 1;
            },
            None => {
                if offset + 1 > u32::MAX as u64 {
                    proof {
                        if mirrored_fits(lu, set, binding, ib, lu.len() as int) {
                            lemma_mirrored_fits_prefix(lu, set, binding, ib, lu.len() as int, k + 1);
                        }
                    }
                    return false;
                }
                offset = offset + 1;
            },
        }
        k = k + 1;
    }
    true
}

/// Mirrors one side's set onto the other side's when every binding and id fits in a word, and
/// says whether they do; when they do not, the new variables and the bound are left partly
/// done.
fn try_mirror_set_bindings(
    new_variables: &mut Vec<NewVariable>,
    instruction_bound: &mut u32,
    set: u32,
    from: &HashMap<u32, CorrectionBinding>,
    to: &HashMap<u32, CorrectionBinding>,
) -> (ok: bool)
    ensures
        ok == mirror_bindings_fit(set, bindings_view(*from), bindings_view(*to), old(new_variables)@,
            *old(instruction_bound), ascending_keys(bindings_view(*from).dom()).len() as int),
        ok ==> ({
            let m = mirror_bindings(set, bindings_view(*from), bindings_view(*to), old(new_variables)@,
                *old(instruction_bound), ascending_keys(bindings_view(*from).dom()).len() as int);
            &&& final(new_variables)@ == m.0
            &&& *final(instruction_bound) == m.1
        }),
{
    let ghost fv = bindings_view(*from);
    let ghost tv = bindings_view(*to);
    let ghost nv0 = new_variables@;
    let ghost ib0 = *instruction_bound;
    let keys = sorted_map_keys(from);
    assert(fv.dom() =~= from@.dom());
    let ghost n = keys@.len() as int;
    let empty = CorrectionBinding { corrections: Vec::new() };
    let mut k: usize = 0;
    while k < keys.len()
        invariant
            keys@ == ascending_keys(fv.dom()),
            keys@.to_set() == from@.dom(),
            fv == bindings_view(*from),
            tv == bindings_view(*to),
            nv0 == old(new_variables)@,
            ib0 == *old(instruction_bound),
            empty.corrections@ == Seq::<CorrectionType>::empty(),
            k <= n,
            n == keys@.len(),
            mirror_bindings_fit(set, fv, tv, nv0, ib0, k as int),
            new_variables@ == mirror_bindings(set, fv, tv, nv0, ib0, k as int).0,
            *instruction_bound == mirror_bindings(set, fv, tv, nv0, ib0, k as int).1,
        decreases n - k,
    {
        let binding = keys[k];
        proof {
            assert(keys@.to_set().contains(binding));
        }
        let l = from.get(&binding).unwrap();
        let r = match to.get(&binding) {
            Some(r) => r,
            None => &empty,
        };
        assert(l.corrections@ == corrections_at(fv, binding));
        assert(r.corrections@ == corrections_at(tv, binding));
        let ll = unmatched_corrections(l, r);
        if !mirrored_fit(&ll, set, binding, *instruction_bound) {
            proof {
                if mirror_bindings_fit(set, fv, tv, nv0, ib0, n) {
                    lemma_mirror_bindings_fit_prefix(set, fv, tv, nv0, ib0, n, k + 1);
                }
            }
            return false;
        }
        push_affected_decorations(new_variables, instruction_bound, set, binding, l, r);
        k = k + 1;
    }
    true
}

/// Whether each new variable has a resource at its set and binding, declared by a variable of
/// at least three words, in the module body `spv`.
fn sources_exist(spv: &[u32], nvs: &Vec<NewVariable>) -> (r: bool)
    requires
        wf_stream(spv@),
    ensures
        r == mirror_sources_exist(spv@, nvs@),
{
    let ghost s = spv@;
    proof {
        lemma_tiles_terminates(s, 0);
        lemma_op_starts_reach(s, spv::SPV_INSTRUCTION_OP_DECORATE as int);
        lemma_op_starts_reach(s, spv::SPV_INSTRUCTION_OP_VARIABLE as int);
    }
    let decs = instruction_idxs(spv, spv::SPV_INSTRUCTION_OP_DECORATE);
    let vars = instruction_idxs(spv, spv::SPV_INSTRUCTION_OP_VARIABLE);
    let mut j: usize = 0;
    while j < nvs.len()
        invariant
            s == spv@,
            decs@ == op_starts(s, spv::SPV_INSTRUCTION_OP_DECORATE as int),
            vars@ == op_starts(s, spv::SPV_INSTRUCTION_OP_VARIABLE as int),
            idxs_reach(s, decs@, 3),
            idxs_reach(s, vars@, 3),
            j <= nvs@.len(),
            forall|q: int| 0 <= q < j ==> {
                &&& (#[trigger] resource_at(s, nvs@[q].set, nvs@[q].binding)) is Some
                &&& variable_of(s, op_starts(s, spv::SPV_INSTRUCTION_OP_VARIABLE as int),
                    resource_at(s, nvs@[q].set, nvs@[q].binding)->0) is Some
                &&& wc_at(s, mirror_source(s, nvs@[q]) as int) >= 3
            },
        decreases nvs@.len() - j,
    {
        let nv = nvs[j];
        let id = match find_resource(spv, decs.as_slice(), nv.set, nv.binding) {
            Some(id) => id,
            None => {
                assert(resource_at(s, nvs@[j as int].set, nvs@[j as int].binding) is None);
                return false;
            },
        };
        let v = match find_variable(spv, vars.as_slice(), id) {
            Some(v) => v,
            None => {
                assert(resource_at(s, nvs@[j as int].set, nvs@[j as int].binding) is Some);
                return false;
            },
        };
        proof {
            lemma_variable_of_listed(s, vars@, id);
            let i = choose|i: int| 0 <= i < vars@.len() && vars@[i] == v;
            assert(vars@[i] + 3 < s.len());
        }
        if hiword(spv[v]) < 3 {
            assert(mirror_source(s, nvs@[j as int]) == v);
            assert(resource_at(s, nvs@[j as int].set, nvs@[j as int].binding) is Some);
            return false;
        }
        j = j + 1;
    }
    true
}

/// Whether two shaders and their corrections can be mirrored: exactly `mirror_ready`.
pub fn is_mirror_ready(
    left_spv: &[u32],
    left_corrections: &Option<CorrectionMap>,
    right_spv: &[u32],
    right_corrections: &Option<CorrectionMap>,
) -> (r: bool)
    ensures
        r == mirror_ready(left_spv@, *left_corrections, right_spv@, *right_corrections),
{
    if left_spv.len() < spv::SPV_HEADER_LENGTH || right_spv.len() < spv::SPV_HEADER_LENGTH {
        return false;
    }
    let ghost lv = corrections_of(*left_corrections);
    let ghost rv = corrections_of(*right_corrections);
    let mut left_ib = left_spv[spv::SPV_HEADER_INSTRUCTION_BOUND_OFFSET];
    let mut right_ib = right_spv[spv::SPV_HEADER_INSTRUCTION_BOUND_OFFSET];
    let ghost lib0 = left_ib;
    let ghost rib0 = right_ib;
    let mut left_nvs: Vec<NewVariable> = Vec::new();
    let mut right_nvs: Vec<NewVariable> = Vec::new();
    let empty_sets: HashMap<u32, CorrectionSet> = HashMap::new();
    let empty_bindings: HashMap<u32, CorrectionBinding> = HashMap::new();
    let left_map = sets_or_empty(left_corrections, &empty_sets);
    let right_map = sets_or_empty(right_corrections, &empty_sets);
    assert(left_map@.dom() =~= lv.dom());
    assert(right_map@.dom() =~= rv.dom());
    let scan_set_idxs = scan_sets(left_map, right_map);
    let ghost n = scan_set_idxs@.len() as int;
    let mut k: usize = 0;
    while k < scan_set_idxs.len()
        invariant
            scan_set_idxs@ == ascending_keys(lv.dom() + rv.dom()),
            n == scan_set_idxs@.len(),
            k <= n,
            left_map@.map_values(|cs: CorrectionSet| set_view(cs)) == lv,
            right_map@.map_values(|cs: CorrectionSet| set_view(cs)) == rv,
            empty_bindings@ == Map::<u32, CorrectionBinding>::empty(),
            mirror_plan_fits(lv, rv, lib0, rib0, k as int),
            left_nvs@ == mirror_plan(lv, rv, lib0, rib0, k as int).0,
            left_ib == mirror_plan(lv, rv, lib0, rib0, k as int).1,
            right_nvs@ == mirror_plan(lv, rv, lib0, rib0, k as int).2,
            right_ib == mirror_plan(lv, rv, lib0, rib0, k as int).3,
            lv == corrections_of(*left_corrections),
            rv == corrections_of(*right_corrections),
            lib0 == left_spv@[spv::SPV_HEADER_INSTRUCTION_BOUND_OFFSET as int],
            rib0 == right_spv@[spv::SPV_HEADER_INSTRUCTION_BOUND_OFFSET as int],
            left_spv@.len() >= spv::SPV_HEADER_LENGTH,
            right_spv@.len() >= spv::SPV_HEADER_LENGTH,
        decreases n - k,
    {
        let set_idx = scan_set_idxs[k];
        let left_bindings = bindings_or_empty(left_map.get(&set_idx), &empty_bindings);
        let right_bindings = bindings_or_empty(right_map.get(&set_idx), &empty_bindings);
        assert(bindings_view(*left_bindings) =~= bindings_of(lv, set_idx));
        assert(bindings_view(*right_bindings) =~= bindings_of(rv, set_idx));
        if !try_mirror_set_bindings(&mut right_nvs, &mut right_ib, set_idx, left_bindings, right_bindings) {
            proof {
                if mirror_plan_fits(lv, rv, lib0, rib0, n) {
                    lemma_mirror_plan_fits_prefix(lv, rv, lib0, rib0, n, k + 1);
                }
            }
            return false;
        }
        if !try_mirror_set_bindings(&mut left_nvs, &mut left_ib, set_idx, right_bindings, left_bindings) {
            proof {
                if mirror_plan_fits(lv, rv, lib0, rib0, n) {
                    lemma_mirror_plan_fits_prefix(lv, rv, lib0, rib0, n, k + 1);
                }
            }
            return false;
        }
        k = k + 1;
    }
    if left_nvs.len() > 0 {
        if left_spv[spv::SPV_HEADER_MAGIC_NUM_OFFSET] != spv::SPV_HEADER_MAGIC {
            return false;
        }
        let body = slice_subrange(left_spv, spv::SPV_HEADER_LENGTH, left_spv.len());
        assert(body@ == body_of(left_spv@));
        if !crate::util::instruction::is_wf_stream(body) || !sources_exist(body, &left_nvs) {
            return false;
        }
    }
    if right_nvs.len() > 0 {
        if right_spv[spv::SPV_HEADER_MAGIC_NUM_OFFSET] != spv::SPV_HEADER_MAGIC {
            return false;
        }
        let body = slice_subrange(right_spv, spv::SPV_HEADER_LENGTH, right_spv.len());
        assert(body@ == body_of(right_spv@));
        if !crate::util::instruction::is_wf_stream(body) || !sources_exist(body, &right_nvs) {
            return false;
        }
    }
    true
}

} // verus!
