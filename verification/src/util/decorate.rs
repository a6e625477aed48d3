use std::collections::{HashMap, HashSet};

use vstd::prelude::*;

use crate::correction::{CorrectionBinding, CorrectionMap, CorrectionSet, CorrectionType};
use crate::spv;
use crate::util::instruction::idxs_reach;
use crate::util::{encode_word, spec_encode_word, InstructionInsert};

verus! {

broadcast use vstd::std_specs::hash::group_hash_axioms;

/// A resource that was added beside an existing one: the new resource `new_res_id` takes
/// the descriptor set and binding of `original_res_id` and is recorded as a correction of
/// `correction_type` there. A resource converted in place has both ids equal.
#[derive(Debug, Clone, Copy, PartialEq, Eq, Structural)]
pub struct AffectedDecoration {
    pub original_res_id: u32,
    pub new_res_id: u32,
    pub correction_type: CorrectionType,
}

/// The literal of the first listed decoration of `id` with `decoration`.
pub open spec fn decoration_value(s: Seq<u32>, decs: Seq<usize>, id: u32, decoration: u32) -> Option<u32>
    decreases decs.len(),
{
    if decs.len() == 0 {
        None
    } else if s[decs[0] + 1] == id && s[decs[0] + 2] == decoration {
        Some(s[decs[0] + 3])
    } else {
        decoration_value(s, decs.drop_first(), id, decoration)
    }
}

/// The corrections of a map, by set and binding.
pub type CorrectionsView = Map<u32, Map<u32, Seq<CorrectionType>>>;

pub open spec fn set_view(cs: CorrectionSet) -> Map<u32, Seq<CorrectionType>> {
    cs.bindings@.map_values(|b: CorrectionBinding| b.corrections@)
}

pub open spec fn sets_view(sets: Option<HashMap<u32, CorrectionSet>>) -> CorrectionsView {
    match sets {
        Some(m) => m@.map_values(|cs: CorrectionSet| set_view(cs)),
        None => Map::empty(),
    }
}

/// `m` with `ct` appended to the corrections of `set` / `binding`.
pub open spec fn recorded(m: CorrectionsView, set: u32, binding: u32, ct: CorrectionType) -> CorrectionsView {
    let bs = if m.contains_key(set) { m[set] } else { Map::empty() };
    let cs = if bs.contains_key(binding) { bs[binding] } else { Seq::empty() };
    m.insert(set, bs.insert(binding, cs.push(ct)))
}

/// The set and binding of the resource an affected decoration copies, when it has both.
pub open spec fn affected_slot(s: Seq<u32>, decs: Seq<usize>, a: AffectedDecoration) -> Option<(u32, u32)> {
    match (decoration_value(s, decs, a.original_res_id, spv::SPV_DECORATION_DESCRIPTOR_SET),
        decoration_value(s, decs, a.original_res_id, spv::SPV_DECORATION_BINDING)) {
        (Some(set), Some(binding)) => Some((set, binding)),
        _ => None,
    }
}

/// The descriptor sets the first `k` affected decorations touch.
pub open spec fn affected_sets(s: Seq<u32>, decs: Seq<usize>, affected: Seq<AffectedDecoration>, k: int) -> Set<u32>
    decreases k,
{
    if k <= 0 {
        Set::empty()
    } else {
        let prev = affected_sets(s, decs, affected, k - 1);
        match affected_slot(s, decs, affected[k - 1]) {
            Some((set, _)) => prev.insert(set),
            None => prev,
        }
    }
}

/// The corrections after recording the first `k` affected decorations.
pub open spec fn affected_corrections(s: Seq<u32>, decs: Seq<usize>, affected: Seq<AffectedDecoration>, m: CorrectionsView, k: int)
    -> CorrectionsView
    decreases k,
{
    if k <= 0 {
        m
    } else {
        let prev = affected_corrections(s, decs, affected, m, k - 1);
        match affected_slot(s, decs, affected[k - 1]) {
            Some((set, binding)) => recorded(prev, set, binding, affected[k - 1].correction_type),
            None => prev,
        }
    }
}

/// `OpDecorate`s giving `id` the descriptor set and binding `slot`.
pub open spec fn slot_decorations(id: u32, slot: (u32, u32)) -> Seq<u32> {
    seq![
        spec_encode_word(4, spv::SPV_INSTRUCTION_OP_DECORATE), id, spv::SPV_DECORATION_DESCRIPTOR_SET, slot.0,
        spec_encode_word(4, spv::SPV_INSTRUCTION_OP_DECORATE), id, spv::SPV_DECORATION_BINDING, slot.1,
    ]
}

/// Whether an affected decoration adds decorations for a new resource.
pub open spec fn adds_decorations(s: Seq<u32>, decs: Seq<usize>, a: AffectedDecoration) -> bool {
    affected_slot(s, decs, a) is Some && a.new_res_id != a.original_res_id
}

/// The decorations added for the first `k` affected decorations, one group per new resource.
pub open spec fn added_decorations(s: Seq<u32>, decs: Seq<usize>, affected: Seq<AffectedDecoration>, k: int) -> Seq<Seq<u32>>
    decreases k,
{
    if k <= 0 {
        Seq::empty()
    } else {
        let prev = added_decorations(s, decs, affected, k - 1);
        let a = affected[k - 1];
        if adds_decorations(s, decs, a) {
            prev.push(slot_decorations(a.new_res_id, affected_slot(s, decs, a)->0))
        } else {
            prev
        }
    }
}

pub struct DecorateIn<'a> {
    pub spv: &'a [u32],
    pub instruction_inserts: &'a mut Vec<InstructionInsert>,
    pub first_op_deocrate_idx: Option<usize>,
    pub op_decorate_idxs: &'a [usize],
    pub affected_decorations: &'a [AffectedDecoration],
    pub corrections: &'a mut Option<CorrectionMap>,
}

pub struct DecorateOut {
    pub descriptor_sets_to_correct: HashSet<u32>,
}

fn find_decoration_value(spv: &[u32], op_decorate_idxs: &[usize], id: u32, decoration: u32) -> (r: Option<u32>)
    requires
        idxs_reach(spv@, op_decorate_idxs@, 3),
    ensures
        r == decoration_value(spv@, op_decorate_idxs@, id, decoration),
{
    let ghost decs = op_decorate_idxs@;
    let mut j: usize = 0;
    assert(decs.skip(0) =~= decs);
    while j < op_decorate_idxs.len()
        invariant
            j <= decs.len(),
            decs == op_decorate_idxs@,
            idxs_reach(spv@, decs, 3),
            decoration_value(spv@, decs, id, decoration) == decoration_value(spv@, decs.skip(j as int), id, decoration),
        decreases decs.len() - j,
    {
        let d_idx = op_decorate_idxs[j];
        assert(decs[j as int] + 3 < spv@.len());
        assert(spv@.len() == spv.len());
        assert(decs.skip(j as int)[0] == d_idx);
        if spv[d_idx + 1] == id && spv[d_idx + 2] == decoration {
            return Some(spv[d_idx + 3]);
        }
        assert(decs.skip(j as int).drop_first() =~= decs.skip(j + 1));
        j = j + 1;
    }
    None
}

/// Appends `ct` to the corrections of `set` / `binding`, creating the entries it needs.
pub fn record_correction(map: &mut CorrectionMap, set: u32, binding: u32, ct: CorrectionType)
    ensures
        final(map).sets is Some,
        sets_view(final(map).sets) == recorded(sets_view(old(map).sets), set, binding, ct),
        final(map).immediates_set == old(map).immediates_set,
        final(map).immediates_set_mode == old(map).immediates_set_mode,
{
    let ghost m0 = sets_view(map.sets);
    let mut sets = match map.sets.take() {
        Some(s) => s,
        None => HashMap::new(),
    };
    assert(sets@.map_values(|cs: CorrectionSet| set_view(cs)) =~= m0);
    let mut cs = match sets.remove(&set) {
        Some(cs) => cs,
        None => CorrectionSet { bindings: HashMap::new() },
    };
    let ghost bs0 = if m0.contains_key(set) { m0[set] } else { Map::empty() };
    assert(set_view(cs) =~= bs0);
    let mut cb = match cs.bindings.remove(&binding) {
        Some(cb) => cb,
        None => CorrectionBinding { corrections: Vec::new() },
    };
    let ghost c0 = if bs0.contains_key(binding) { bs0[binding] } else { Seq::<CorrectionType>::empty() };
    assert(cb.corrections@ =~= c0);
    cb.corrections.push(ct);
    let ghost bsr = cs.bindings@;
    cs.bindings.insert(binding, cb);
    assert(set_view(cs) =~= bs0.insert(binding, c0.push(ct)));
    sets.insert(set, cs);
    map.sets = Some(sets);
    assert(sets_view(map.sets) =~= recorded(m0, set, binding, ct));
}


/// Gives each new resource among the affected decorations the descriptor set and binding of
/// the resource it was added beside, with `OpDecorate`s placed after the first `OpDecorate`,
/// and records each affected decoration as a correction of that set and binding. Affected
/// decorations whose original resource lacks a set or a binding are passed over. Returns
/// the descriptor sets whose bindings need correcting.
pub fn decorate(d_in: DecorateIn) -> (r: DecorateOut)
    requires
        idxs_reach(d_in.spv@, d_in.op_decorate_idxs@, 3),
        added_decorations(d_in.spv@, d_in.op_decorate_idxs@, d_in.affected_decorations@,
            d_in.affected_decorations@.len() as int).len() > 0 ==> d_in.first_op_deocrate_idx is Some,
    ensures
        ({
            let s = d_in.spv@;
            let decs = d_in.op_decorate_idxs@;
            let affected = d_in.affected_decorations@;
            let n = affected.len() as int;
            let added = added_decorations(s, decs, affected, n);
            let base = old(d_in.instruction_inserts)@;
            &&& r.descriptor_sets_to_correct@ == affected_sets(s, decs, affected, n)
            &&& final(d_in.instruction_inserts)@.len() == base.len() + added.len()
            &&& forall|i: int| 0 <= i < base.len() ==> #[trigger] final(d_in.instruction_inserts)@[i] == base[i]
            &&& forall|j: int| 0 <= j < added.len() ==> {
                let ins = #[trigger] final(d_in.instruction_inserts)@[base.len() + j];
                &&& ins.previous_spv_idx == d_in.first_op_deocrate_idx->0
                &&& ins.instruction@ == added[j]
            }
            &&& *old(d_in.corrections) is None ==> *final(d_in.corrections) is None
            &&& *old(d_in.corrections) matches Some(m0) ==> *final(d_in.corrections) matches Some(m1) && {
                &&& sets_view(m1.sets) == affected_corrections(s, decs, affected, sets_view(m0.sets), n)
                &&& (m1.sets is Some) == (m0.sets is Some || affected_sets(s, decs, affected, n) != Set::<u32>::empty())
                &&& m1.immediates_set == m0.immediates_set
                &&& m1.immediates_set_mode == m0.immediates_set_mode
            }
        }),
{
    let DecorateIn {
        spv,
        instruction_inserts,
        first_op_deocrate_idx,
        op_decorate_idxs,
        affected_decorations,
        corrections,
    } = d_in;
    let ghost s = spv@;
    let ghost decs = op_decorate_idxs@;
    let ghost affected = affected_decorations@;
    let ghost base = instruction_inserts@;
    let ghost c0 = *corrections;
    let mut descriptor_sets_to_correct: HashSet<u32> = HashSet::new();
    let mut k: usize = 0;
    while k < affected_decorations.len()
        invariant
            s == spv@,
            decs == op_decorate_idxs@,
            affected == affected_decorations@,
            idxs_reach(s, decs, 3),
            added_decorations(s, decs, affected, affected.len() as int).len() > 0 ==> first_op_deocrate_idx is Some,
            k <= affected.len(),
            descriptor_sets_to_correct@ == affected_sets(s, decs, affected, k as int),
            instruction_inserts@.len() == base.len() + added_decorations(s, decs, affected, k as int).len(),
            forall|i: int| 0 <= i < base.len() ==> #[trigger] instruction_inserts@[i] == base[i],
            forall|j: int| 0 <= j < added_decorations(s, decs, affected, k as int).len() ==> {
                let ins = #[trigger] instruction_inserts@[base.len() + j];
                &&& ins.previous_spv_idx == first_op_deocrate_idx->0
                &&& ins.instruction@ == added_decorations(s, decs, affected, k as int)[j]
            },
            c0 is None ==> *corrections is None,
            c0 matches Some(m0) ==> *corrections matches Some(m1) && {
                &&& sets_view(m1.sets) == affected_corrections(s, decs, affected, sets_view(m0.sets), k as int)
                &&& (m1.sets is Some) == (m0.sets is Some || affected_sets(s, decs, affected, k as int) != Set::<u32>::empty())
                &&& m1.immediates_set == m0.immediates_set
                &&& m1.immediates_set_mode == m0.immediates_set_mode
            },
        decreases affected.len() - k,
    {
        let a = affected_decorations[k];
        let set = find_decoration_value(spv, op_decorate_idxs, a.original_res_id, spv::SPV_DECORATION_DESCRIPTOR_SET);
        let binding = find_decoration_value(spv, op_decorate_idxs, a.original_res_id, spv::SPV_DECORATION_BINDING);
        proof {
            lemma_added_prefix(s, decs, affected, k + 1, affected.len() as int);
        }
        match (set, binding) {
            (Some(set), Some(binding)) => {
                descriptor_sets_to_correct.insert(set);
                assert(affected_slot(s, decs, affected[k as int]) == Some((set, binding)));
                assert(affected_sets(s, decs, affected, k + 1).contains(set));
                match corrections.as_mut() {
                    Some(map) => {
                        record_correction(map, set, binding, a.correction_type);
                    },
                    None => {},
                }
                if a.new_res_id != a.original_res_id {
                    let first = first_op_deocrate_idx.unwrap();
                    let instruction = vec![
                        encode_word(4, spv::SPV_INSTRUCTION_OP_DECORATE), a.new_res_id, spv::SPV_DECORATION_DESCRIPTOR_SET, set,
                        encode_word(4, spv::SPV_INSTRUCTION_OP_DECORATE), a.new_res_id, spv::SPV_DECORATION_BINDING, binding,
                    ];
                    assert(instruction@ =~= slot_decorations(a.new_res_id, (set, binding)));
                    let ghost before = instruction_inserts@;
                    instruction_inserts.push(InstructionInsert { previous_spv_idx: first, instruction });
                    proof {
                        assert forall|i: int| 0 <= i < base.len() implies #[trigger] instruction_inserts@[i] == base[i] by {
                            assert(instruction_inserts@[i] == before[i]);
                        }
                        assert forall|j: int| 0 <= j < added_decorations(s, decs, affected, k + 1).len() implies {
                            let ins = #[trigger] instruction_inserts@[base.len() + j];
                            &&& ins.previous_spv_idx == first_op_deocrate_idx->0
                            &&& ins.instruction@ == added_decorations(s, decs, affected, k + 1)[j]
                        } by {
                            if j < added_decorations(s, decs, affected, k as int).len() {
                                assert(instruction_inserts@[base.len() + j] == before[base.len() + j]);
                            }
                        }
                    }
                }
            },
            _ => {
                assert(affected_slot(s, decs, affected[k as int]) is None);
            },
        }
        k = k + 1;
    }
    DecorateOut { descriptor_sets_to_correct }
}

proof fn lemma_added_prefix(s: Seq<u32>, decs: Seq<usize>, affected: Seq<AffectedDecoration>, k: int, n: int)
    requires
        0 <= k <= n,
    ensures
        added_decorations(s, decs, affected, k).len() <= added_decorations(s, decs, affected, n).len(),
    decreases n - k,
{
    if k < n {
        lemma_added_prefix(s, decs, affected, k, n - 1);
    }
}

/// Added decorations copy existing ones, so there are some.
pub proof fn lemma_added_needs_decoration(s: Seq<u32>, decs: Seq<usize>, affected: Seq<AffectedDecoration>, k: int)
    requires
        added_decorations(s, decs, affected, k).len() > 0,
    ensures
        decs.len() > 0,
    decreases k,
{
    if k > 0 {
        if added_decorations(s, decs, affected, k - 1).len() > 0 {
            lemma_added_needs_decoration(s, decs, affected, k - 1);
        } else {
            let a = affected[k - 1];
            assert(adds_decorations(s, decs, a));
            assert(decoration_value(s, decs, a.original_res_id, spv::SPV_DECORATION_DESCRIPTOR_SET) is Some);
        }
    }
}

/// Affected decorations that agree on their original resources and correction kinds touch
/// the same sets and record the same corrections, whatever their new resources.
pub proof fn lemma_same_slots(
    s: Seq<u32>,
    decs: Seq<usize>,
    a1: Seq<AffectedDecoration>,
    a2: Seq<AffectedDecoration>,
    m: CorrectionsView,
    n: int,
)
    requires
        0 <= n <= a1.len(),
        n <= a2.len(),
        forall|j: int| 0 <= j < n ==> (#[trigger] a1[j]).original_res_id == a2[j].original_res_id
            && a1[j].correction_type == a2[j].correction_type,
    ensures
        affected_corrections(s, decs, a1, m, n) == affected_corrections(s, decs, a2, m, n),
        affected_sets(s, decs, a1, n) == affected_sets(s, decs, a2, n),
    decreases n,
{
    if n > 0 {
        lemma_same_slots(s, decs, a1, a2, m, n - 1);
        assert(a1[n - 1].original_res_id == a2[n - 1].original_res_id);
        assert(affected_slot(s, decs, a1[n - 1]) == affected_slot(s, decs, a2[n - 1]));
    }
}

} // verus!
