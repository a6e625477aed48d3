use std::collections::{HashMap, HashSet};

use vstd::prelude::*;
use vstd::std_specs::hash::spec_hash_keys_iter;
use vstd::std_specs::iter::IteratorSpec;

use crate::spv;
use crate::util::instruction::{
    fits_in_memory, idxs_reach, instruction_idxs, lemma_op_starts_reach, op_starts, operands_fit,
    terminates_from,
};

verus! {

broadcast use vstd::std_specs::hash::group_hash_axioms;

/// What the decorations of one id say about its resource: its descriptor set (if one in the
/// filter) and its binding with the decoration's offset.
pub type BindingCandidate = (Option<u32>, Option<(usize, u32)>);

/// One decoration's effect on the candidates: a `DescriptorSet` in the filter or a `Binding`
/// replaces what was recorded for its target; other decorations change nothing.
pub open spec fn candidate_step(
    s: Seq<u32>,
    filter: Set<u32>,
    m: Map<u32, BindingCandidate>,
    d: usize,
) -> Map<u32, BindingCandidate> {
    let id = s[d + 1];
    let ty = s[d + 2];
    let value = s[d + 3];
    let prev: BindingCandidate = if m.contains_key(id) { m[id] } else { (None, None) };
    if ty == spv::SPV_DECORATION_DESCRIPTOR_SET && filter.contains(value) {
        m.insert(id, (Some(value), prev.1))
    } else if ty == spv::SPV_DECORATION_BINDING {
        m.insert(id, (prev.0, Some((d, value))))
    } else {
        m
    }
}

/// The candidates after the listed decorations, in order.
pub open spec fn binding_candidates(s: Seq<u32>, decs: Seq<usize>, filter: Set<u32>) -> Map<u32, BindingCandidate>
    decreases decs.len(),
{
    if decs.len() == 0 {
        Map::empty()
    } else {
        candidate_step(s, filter, binding_candidates(s, decs.drop_last(), filter), decs.last())
    }
}

/// The bindings, with their decoration offsets, of the resources in descriptor set `set`.
pub open spec fn set_entries(s: Seq<u32>, decs: Seq<usize>, filter: Set<u32>, set: u32) -> Set<(usize, u32)> {
    Set::new(|e: (usize, u32)| exists|id: u32| #[trigger] binding_candidates(s, decs, filter).contains_key(id)
        && binding_candidates(s, decs, filter)[id] == (Some(set), Some(e)))
}

/// Binding entries ordered by binding, then by the decorated id.
pub open spec fn entry_lt(s: Seq<u32>, a: (usize, u32), b: (usize, u32)) -> bool {
    a.1 < b.1 || (a.1 == b.1 && s[a.0 + 1] < s[b.0 + 1])
}

pub open spec fn strictly_sorted_entries(s: Seq<u32>, l: Seq<(usize, u32)>) -> bool {
    forall|i: int, j: int| 0 <= i < j < l.len() ==> entry_lt(s, #[trigger] l[i], #[trigger] l[j])
}

/// The bindings of descriptor set `set`, ordered by binding and then by decorated id.
pub open spec fn sorted_set_entries(s: Seq<u32>, decs: Seq<usize>, filter: Set<u32>, set: u32) -> Seq<(usize, u32)> {
    choose|l: Seq<(usize, u32)>| strictly_sorted_entries(s, l) && l.to_set() == set_entries(s, decs, filter, set)
}

/// Some list strictly sorted by binding and id holds exactly the bindings of the set.
pub open spec fn sorted_entries_exist(s: Seq<u32>, decs: Seq<usize>, filter: Set<u32>, set: u32) -> bool {
    exists|l: Seq<(usize, u32)>| strictly_sorted_entries(s, l) && l.to_set() == set_entries(s, decs, filter, set)
}

/// Every listed decoration has the words read of it.
pub open spec fn decorations_readable(s: Seq<u32>, decs: Seq<usize>) -> bool {
    forall|j: int| 0 <= j < decs.len() ==> #[trigger] decs[j] + 3 < s.len()
}

fn find_candidate(c: &Vec<(u32, Option<u32>, Option<(usize, u32)>)>, id: u32) -> (r: Option<usize>)
    ensures
        r matches Some(i) ==> i < c@.len() && c@[i as int].0 == id,
        r is None ==> forall|i: int| 0 <= i < c@.len() ==> #[trigger] c@[i].0 != id,
{
    let mut i: usize = 0;
    while i < c.len()
        invariant
            i <= c@.len(),
            forall|j: int| 0 <= j < i ==> #[trigger] c@[j].0 != id,
        decreases c@.len() - i,
    {
        if c[i].0 == id {
            return Some(i);
        }
        i = i + 1;
    }
    None
}

fn insert_entry_sorted(spv: &[u32], out: &mut Vec<(usize, u32)>, e: (usize, u32))
    requires
        strictly_sorted_entries(spv@, old(out)@),
        forall|j: int| 0 <= j < old(out)@.len() ==> (#[trigger] old(out)@[j]).0 + 1 < spv@.len(),
        e.0 + 1 < spv@.len(),
        forall|j: int| 0 <= j < old(out)@.len() ==> (#[trigger] old(out)@[j]) != e ==> entry_lt(spv@, old(out)@[j], e) || entry_lt(spv@, e, old(out)@[j]),
        !old(out)@.contains(e),
    ensures
        strictly_sorted_entries(spv@, final(out)@),
        forall|j: int| 0 <= j < final(out)@.len() ==> (#[trigger] final(out)@[j]).0 + 1 < spv@.len(),
        final(out)@.to_set() == old(out)@.to_set().insert(e),
        final(out)@.len() == old(out)@.len() + 1,
{
    let ghost s = spv@;
    let mut pos: usize = 0;
    while pos < out.len() && (out[pos].1 < e.1 || (out[pos].1 == e.1 && spv[out[pos].0 + 1] < spv[e.0 + 1]))
        invariant
            pos <= out@.len(),
            forall|j: int| 0 <= j < out@.len() ==> (#[trigger] out@[j]).0 + 1 < spv@.len(),
            e.0 + 1 < spv@.len(),
            forall|j: int| 0 <= j < pos ==> entry_lt(s, #[trigger] out@[j], e),
            s == spv@,
            s.len() == spv.len(),
        decreases out@.len() - pos,
    {
        pos = pos + 1;
    }
    let ghost before = out@;
    proof {
        if pos < before.len() {
            assert(!entry_lt(s, before[pos as int], e));
            assert(before[pos as int] != e);
            assert(entry_lt(s, e, before[pos as int]));
        }
    }
    out.insert(pos, e);
    proof {
        assert forall|i: int, j: int| 0 <= i < j < out@.len() implies entry_lt(s, #[trigger] out@[i], #[trigger] out@[j]) by {
            if j < pos {
                assert(out@[i] == before[i] && out@[j] == before[j]);
            } else if j == pos {
                assert(out@[i] == before[i]);
            } else if i < pos {
                assert(out@[i] == before[i] && out@[j] == before[j - 1]);
                assert(entry_lt(s, before[i], e));
                assert(entry_lt(s, e, before[pos as int]));
                if j - 1 > pos {
                    assert(entry_lt(s, before[pos as int], before[j - 1]));
                }
            } else if i == pos {
                assert(out@[j] == before[j - 1]);
                if j - 1 > pos {
                    assert(entry_lt(s, before[pos as int], before[j - 1]));
                }
            } else {
                assert(out@[i] == before[i - 1] && out@[j] == before[j - 1]);
            }
        }
        assert forall|j: int| 0 <= j < out@.len() implies (#[trigger] out@[j]).0 + 1 < spv@.len() by {
            if j < pos {
                assert(out@[j] == before[j]);
            } else if j > pos {
                assert(out@[j] == before[j - 1]);
            }
        }
        assert(out@.to_set() =~= before.to_set().insert(e)) by {
            assert forall|x: (usize, u32)| out@.to_set().contains(x) <==> before.to_set().insert(e).contains(x) by {
                if out@.contains(x) {
                    let k = choose|k: int| 0 <= k < out@.len() && out@[k] == x;
                    if k < pos {
                        assert(before[k] == x);
                    } else if k > pos {
                        assert(before[k - 1] == x);
                    }
                }
                if before.contains(x) {
                    let k = choose|k: int| 0 <= k < before.len() && before[k] == x;
                    if k < pos {
                        assert(out@[k] == x);
                    } else {
                        assert(out@[k + 1] == x);
                    }
                }
                if x == e {
                    assert(out@[pos as int] == e);
                }
            }
        }
    }
}

/// Two lists strictly sorted by binding and id with the same entries are the same list.
pub proof fn lemma_strictly_sorted_unique(s: Seq<u32>, l1: Seq<(usize, u32)>, l2: Seq<(usize, u32)>)
    requires
        strictly_sorted_entries(s, l1),
        strictly_sorted_entries(s, l2),
        l1.to_set() == l2.to_set(),
    ensures
        l1 == l2,
    decreases l1.len() + l2.len(),
{
    if l1.len() == 0 {
        if l2.len() > 0 {
            assert(l2.to_set().contains(l2[0]));
            assert(!l1.to_set().contains(l2[0]));
        }
        assert(l1 =~= l2);
    } else if l2.len() == 0 {
        assert(l1.to_set().contains(l1[0]));
        assert(!l2.to_set().contains(l1[0]));
    } else {
        assert(l1.to_set().contains(l1[0]));
        assert(l2.to_set().contains(l1[0]));
        let j = choose|j: int| 0 <= j < l2.len() && l2[j] == l1[0];
        assert(l2.to_set().contains(l2[0]));
        let i = choose|i: int| 0 <= i < l1.len() && l1[i] == l2[0];
        if j > 0 {
            assert(entry_lt(s, l2[0], l2[j]));
            if i > 0 {
                assert(entry_lt(s, l1[0], l1[i]));
            }
            assert(false);
        }
        assert(l1[0] == l2[0]);
        let t1 = l1.drop_first();
        let t2 = l2.drop_first();
        assert(strictly_sorted_entries(s, t1)) by {
            assert forall|a: int, b: int| 0 <= a < b < t1.len() implies entry_lt(s, #[trigger] t1[a], #[trigger] t1[b]) by {
                assert(t1[a] == l1[a + 1] && t1[b] == l1[b + 1]);
            }
        }
        assert(strictly_sorted_entries(s, t2)) by {
            assert forall|a: int, b: int| 0 <= a < b < t2.len() implies entry_lt(s, #[trigger] t2[a], #[trigger] t2[b]) by {
                assert(t2[a] == l2[a + 1] && t2[b] == l2[b + 1]);
            }
        }
        assert(t1.to_set() =~= t2.to_set()) by {
            assert forall|x: (usize, u32)| t1.to_set().contains(x) implies t2.to_set().contains(x) by {
                let a = choose|a: int| 0 <= a < t1.len() && t1[a] == x;
                assert(l1[a + 1] == x);
                assert(entry_lt(s, l1[0], x));
                assert(l2.to_set().contains(x));
                let b = choose|b: int| 0 <= b < l2.len() && l2[b] == x;
                assert(b != 0);
                assert(t2[b - 1] == x);
            }
            assert forall|x: (usize, u32)| t2.to_set().contains(x) implies t1.to_set().contains(x) by {
                let a = choose|a: int| 0 <= a < t2.len() && t2[a] == x;
                assert(l2[a + 1] == x);
                assert(entry_lt(s, l2[0], x));
                assert(l1.to_set().contains(x));
                let b = choose|b: int| 0 <= b < l1.len() && l1[b] == x;
                assert(b != 0);
                assert(t1[b - 1] == x);
            }
        }
        lemma_strictly_sorted_unique(s, t1, t2);
        assert(t1.len() == l1.len() - 1);
        assert(t2.len() == l2.len() - 1);
        assert(t1.len() == t2.len());
        assert(l1.len() == l2.len());
        assert(l1 =~= l2) by {
            assert forall|k: int| 0 <= k < l1.len() implies l1[k] == l2[k] by {
                if k > 0 {
                    assert(l1[k] == t1[k - 1] && l2[k] == t2[k - 1]);
                }
            }
        }
    }
}

/// The candidate list models the candidates: distinct ids, each with its recorded value,
/// each binding recorded from a readable decoration of that id.
spec fn candidates_inv(
    s: Seq<u32>,
    c: Seq<(u32, Option<u32>, Option<(usize, u32)>)>,
    m: Map<u32, BindingCandidate>,
) -> bool {
    &&& forall|i: int, j: int| 0 <= i < j < c.len() ==> #[trigger] c[i].0 != #[trigger] c[j].0
    &&& forall|id: u32| #[trigger] m.contains_key(id) <==> exists|i: int| 0 <= i < c.len() && #[trigger] c[i].0 == id
    &&& forall|i: int| 0 <= i < c.len() ==> #[trigger] m[c[i].0] == (c[i].1, c[i].2)
    &&& forall|i: int| 0 <= i < c.len() ==> ((#[trigger] c[i]).2 matches Some(e) ==> e.0 + 3 < s.len() && s[e.0 + 1] == c[i].0)
}

/// For each descriptor set of the filter, the bindings of its resources with the offsets of
/// their `Binding` decorations, ordered by binding and then by decorated id. A resource is in
/// the set named by its last `DescriptorSet` decoration in the filter, and has the binding
/// of its last `Binding` decoration.
pub fn decorate_map_set_bindings(
    spv: &[u32],
    op_decorate_idxs: &[usize],
    set_filter: &HashSet<u32>,
) -> (r: HashMap<u32, Vec<(usize, u32)>>)
    requires
        decorations_readable(spv@, op_decorate_idxs@),
    ensures
        r@.dom() == set_filter@,
        forall|set: u32| #[trigger] set_filter@.contains(set) ==> r@[set]@ == sorted_set_entries(spv@, op_decorate_idxs@, set_filter@, set),
        forall|set: u32| #[trigger] set_filter@.contains(set) ==> sorted_entries_exist(spv@, op_decorate_idxs@, set_filter@, set),
{
    let ghost s = spv@;
    let ghost decs = op_decorate_idxs@;
    let ghost filter = set_filter@;
    let mut candidates: Vec<(u32, Option<u32>, Option<(usize, u32)>)> = Vec::new();
    let mut k: usize = 0;
    proof {
        assert(decs.take(0) =~= Seq::<usize>::empty());
    }
    while k < op_decorate_idxs.len()
        invariant
            s == spv@,
            decs == op_decorate_idxs@,
            filter == set_filter@,
            decorations_readable(s, decs),
            k <= decs.len(),
            candidates_inv(s, candidates@, binding_candidates(s, decs.take(k as int), filter)),
        decreases decs.len() - k,
    {
        let d_idx = op_decorate_idxs[k];
        assert(d_idx + 3 < spv.len());
        let result_id = spv[d_idx + 1];
        let type_ = spv[d_idx + 2];
        let value = spv[d_idx + 3];
        let ghost m0 = binding_candidates(s, decs.take(k as int), filter);
        proof {
            assert(decs.take(k + 1).drop_last() =~= decs.take(k as int));
            assert(decs.take(k + 1).last() == d_idx);
        }
        let ghost m1 = binding_candidates(s, decs.take(k + 1), filter);
        let is_set = type_ == spv::SPV_DECORATION_DESCRIPTOR_SET && set_filter.contains(&value);
        if is_set || type_ == spv::SPV_DECORATION_BINDING {
            let ghost before = candidates@;
            match find_candidate(&candidates, result_id) {
                Some(i) => {
                    let (cid, cset, cbinding) = candidates[i];
                    if is_set {
                        candidates.set(i, (cid, Some(value), cbinding));
                    } else {
                        candidates.set(i, (cid, cset, Some((d_idx, value))));
                    }
                    proof {
                        assert(m1 == candidate_step(s, filter, m0, d_idx));
                        assert forall|id: u32| #[trigger] m1.contains_key(id) <==> exists|j: int| 0 <= j < candidates@.len() && #[trigger] candidates@[j].0 == id by {
                            if id == result_id {
                                assert(candidates@[i as int].0 == id);
                            }
                            if m1.contains_key(id) && id != result_id {
                                let j = choose|j: int| 0 <= j < before.len() && #[trigger] before[j].0 == id;
                                assert(candidates@[j].0 == id);
                            }
                            if exists|j: int| 0 <= j < candidates@.len() && #[trigger] candidates@[j].0 == id {
                                let j = choose|j: int| 0 <= j < candidates@.len() && #[trigger] candidates@[j].0 == id;
                                assert(before[j].0 == id);
                            }
                        }
                        assert forall|j: int| 0 <= j < candidates@.len() implies #[trigger] m1[candidates@[j].0] == (candidates@[j].1, candidates@[j].2) by {
                            if j != i {
                                assert(candidates@[j] == before[j]);
                                assert(before[j].0 != before[i as int].0);
                            }
                        }
                    }
                },
                None => {
                    if is_set {
                        candidates.push((result_id, Some(value), None));
                    } else {
                        candidates.push((result_id, None, Some((d_idx, value))));
                    }
                    proof {
                        assert(!m0.contains_key(result_id));
                        assert forall|id: u32| #[trigger] m1.contains_key(id) <==> exists|j: int| 0 <= j < candidates@.len() && #[trigger] candidates@[j].0 == id by {
                            if m1.contains_key(id) && id != result_id {
                                let j = choose|j: int| 0 <= j < before.len() && #[trigger] before[j].0 == id;
                                assert(candidates@[j].0 == id);
                            }
                            if id == result_id {
                                assert(candidates@[before.len() as int].0 == id);
                            }
                            if exists|j: int| 0 <= j < candidates@.len() && #[trigger] candidates@[j].0 == id {
                                let j = choose|j: int| 0 <= j < candidates@.len() && #[trigger] candidates@[j].0 == id;
                                if j < before.len() {
                                    assert(before[j].0 == id);
                                }
                            }
                        }
                        assert forall|j: int| 0 <= j < candidates@.len() implies #[trigger] m1[candidates@[j].0] == (candidates@[j].1, candidates@[j].2) by {
                            if j < before.len() {
                                assert(candidates@[j] == before[j]);
                                assert(before[j].0 != result_id);
                            }
                        }
                    }
                },
            }
        }
        k = k + 1;
    }
    proof {
        assert(decs.take(k as int) =~= decs);
    }
    let ghost m = binding_candidates(s, decs, filter);

    let mut result: HashMap<u32, Vec<(usize, u32)>> = HashMap::new();
    proof {
        let keys = spec_hash_keys_iter(set_filter).remaining().unref();
        assert(keys.to_set() == filter);
        assert forall|x: u32| #[trigger] filter.contains(x) implies exists|j: int| 0 <= j < keys.len() && keys[j] == x by {
            assert(keys.to_set().contains(x));
        }
    }
    for set in it: set_filter.iter()
        invariant
            s == spv@,
            decs == op_decorate_idxs@,
            filter == set_filter@,
            m == binding_candidates(s, decs, filter),
            candidates_inv(s, candidates@, m),
            it.seq().unref().to_set() == filter,
            forall|x: u32| #[trigger] result@.contains_key(x) ==> filter.contains(x),
            forall|x: u32| #[trigger] filter.contains(x) ==> result@.contains_key(x)
                || exists|j: int| it.index() <= j < it.seq().len() && #[trigger] it.seq().unref()[j] == x,
            forall|x: u32| #[trigger] result@.contains_key(x) ==> result@[x]@ == sorted_set_entries(s, decs, filter, x),
            forall|x: u32| #[trigger] result@.contains_key(x) ==> sorted_entries_exist(s, decs, filter, x),
    {
        let ghost prev_index = it.index();
        let set = *set;
        proof {
            assert(it.seq().unref()[prev_index] == set);
            assert(it.seq().unref().to_set().contains(set));
        }
        let mut bindings: Vec<(usize, u32)> = Vec::new();
        let mut i: usize = 0;
        while i < candidates.len()
            invariant
                s == spv@,
                candidates_inv(s, candidates@, m),
                i <= candidates@.len(),
                strictly_sorted_entries(s, bindings@),
                forall|j: int| 0 <= j < bindings@.len() ==> (#[trigger] bindings@[j]).0 + 1 < s.len(),
                bindings@.to_set() == Set::new(|e: (usize, u32)| exists|j: int| 0 <= j < i && #[trigger] candidates@[j] == (candidates@[j].0, Some(set), Some(e))),
            decreases candidates@.len() - i,
        {
            let c = candidates[i];
            let ghost before = bindings@;
            if c.1 == Some(set) {
                if let Some(e) = c.2 {
                    proof {
                        assert(e.0 + 3 < s.len() && s[e.0 + 1] == c.0);
                        assert forall|j: int| 0 <= j < before.len() implies (#[trigger] before[j]) != e ==> entry_lt(s, before[j], e) || entry_lt(s, e, before[j]) by {
                            assert(before.to_set().contains(before[j]));
                            let jj = choose|jj: int| 0 <= jj < i && #[trigger] candidates@[jj] == (candidates@[jj].0, Some(set), Some(before[j]));
                            assert(candidates@[jj].0 != c.0);
                        }
                        if before.contains(e) {
                            let j = choose|j: int| 0 <= j < before.len() && before[j] == e;
                            assert(before.to_set().contains(before[j]));
                            let jj = choose|jj: int| 0 <= jj < i && #[trigger] candidates@[jj] == (candidates@[jj].0, Some(set), Some(before[j]));
                            assert(candidates@[jj].0 != c.0);
                        }
                    }
                    insert_entry_sorted(spv, &mut bindings, e);
                }
            }
            proof {
                assert(bindings@.to_set() =~= Set::new(|e: (usize, u32)| exists|j: int| 0 <= j < i + 1 && #[trigger] candidates@[j] == (candidates@[j].0, Some(set), Some(e)))) by {
                    assert forall|e: (usize, u32)| bindings@.to_set().contains(e) <==> exists|j: int| 0 <= j < i + 1 && #[trigger] candidates@[j] == (candidates@[j].0, Some(set), Some(e)) by {
                        if exists|j: int| 0 <= j < i + 1 && #[trigger] candidates@[j] == (candidates@[j].0, Some(set), Some(e)) {
                            let j = choose|j: int| 0 <= j < i + 1 && #[trigger] candidates@[j] == (candidates@[j].0, Some(set), Some(e));
                            if j < i {
                                assert(before.to_set().contains(e));
                            }
                        }
                    }
                }
            }
            i = i + 1;
        }
        proof {
            assert(bindings@.to_set() =~= set_entries(s, decs, filter, set)) by {
                assert forall|e: (usize, u32)| bindings@.to_set().contains(e) <==> set_entries(s, decs, filter, set).contains(e) by {
                    if bindings@.to_set().contains(e) {
                        let j = choose|j: int| 0 <= j < i && #[trigger] candidates@[j] == (candidates@[j].0, Some(set), Some(e));
                        assert(m.contains_key(candidates@[j].0));
                    }
                    if set_entries(s, decs, filter, set).contains(e) {
                        let id = choose|id: u32| #[trigger] m.contains_key(id) && m[id] == (Some(set), Some(e));
                        let j = choose|j: int| 0 <= j < candidates@.len() && #[trigger] candidates@[j].0 == id;
                        assert(candidates@[j] == (candidates@[j].0, Some(set), Some(e)));
                    }
                }
            }
            let l = sorted_set_entries(s, decs, filter, set);
            assert(strictly_sorted_entries(s, l) && l.to_set() == set_entries(s, decs, filter, set));
            lemma_strictly_sorted_unique(s, bindings@, l);
            assert(sorted_entries_exist(s, decs, filter, set));
        }
        result.insert(set, bindings);
    }
    assert(result@.dom() =~= filter);
    result
}

} // verus!

verus! {

/// A recorded binding comes from a listed decoration of the id it is recorded for.
proof fn lemma_candidate_origin(s: Seq<u32>, decs: Seq<usize>, filter: Set<u32>, id: u32)
    requires
        binding_candidates(s, decs, filter).contains_key(id),
        binding_candidates(s, decs, filter)[id].1 is Some,
    ensures
        s[(binding_candidates(s, decs, filter)[id].1->0).0 + 1] == id,
        decs.contains((binding_candidates(s, decs, filter)[id].1->0).0),
    decreases decs.len(),
{
    let prev = binding_candidates(s, decs.drop_last(), filter);
    let d = decs.last();
    let m = binding_candidates(s, decs, filter);
    assert(m == candidate_step(s, filter, prev, d));
    let e = m[id].1->0;
    if s[d + 2] == spv::SPV_DECORATION_BINDING && s[d + 1] == id && !(s[d + 2] == spv::SPV_DECORATION_DESCRIPTOR_SET && filter.contains(s[d + 3])) {
        assert(e.0 == d);
        assert(decs[decs.len() - 1] == d);
    } else {
        assert(prev.contains_key(id));
        assert(prev[id].1 == m[id].1);
        lemma_candidate_origin(s, decs.drop_last(), filter, id);
        let k = choose|k: int| 0 <= k < decs.drop_last().len() && decs.drop_last()[k] == e.0;
        assert(decs[k] == e.0);
    }
}

/// An entry of a set's bindings is the recorded binding of the id its decoration names.
proof fn lemma_entry_origin(s: Seq<u32>, decs: Seq<usize>, filter: Set<u32>, set: u32, e: (usize, u32))
    requires
        set_entries(s, decs, filter, set).contains(e),
    ensures
        binding_candidates(s, decs, filter).contains_key(s[e.0 + 1]),
        binding_candidates(s, decs, filter)[s[e.0 + 1]] == (Some(set), Some(e)),
        decs.contains(e.0),
{
    let m = binding_candidates(s, decs, filter);
    let id = choose|id: u32| #[trigger] m.contains_key(id) && m[id] == (Some(set), Some(e));
    lemma_candidate_origin(s, decs, filter, id);
}

/// The binding decorations of the listed sets lie inside the stream, and no decoration is
/// listed twice, in one set or in two.
proof fn lemma_entry_positions(
    s: Seq<u32>,
    decs: Seq<usize>,
    filter: Set<u32>,
    set1: u32,
    k1: int,
    set2: u32,
    k2: int,
)
    requires
        decorations_readable(s, decs),
        sorted_entries_exist(s, decs, filter, set1),
        sorted_entries_exist(s, decs, filter, set2),
        0 <= k1 < sorted_set_entries(s, decs, filter, set1).len(),
        0 <= k2 < sorted_set_entries(s, decs, filter, set2).len(),
    ensures
        sorted_set_entries(s, decs, filter, set1)[k1].0 + 3 < s.len(),
        sorted_set_entries(s, decs, filter, set1)[k1].0 == sorted_set_entries(s, decs, filter, set2)[k2].0
            ==> set1 == set2 && k1 == k2,
{
    let l1 = sorted_set_entries(s, decs, filter, set1);
    let l2 = sorted_set_entries(s, decs, filter, set2);
    let e1 = l1[k1];
    let e2 = l2[k2];
    assert(l1.to_set().contains(e1));
    assert(l2.to_set().contains(e2));
    lemma_entry_origin(s, decs, filter, set1, e1);
    lemma_entry_origin(s, decs, filter, set2, e2);
    let j = choose|j: int| 0 <= j < decs.len() && decs[j] == e1.0;
    assert(decs[j] + 3 < s.len());
    if e1.0 == e2.0 {
        assert(set1 == set2 && e1 == e2);
        if k1 < k2 {
            assert(entry_lt(s, l1[k1], l1[k2]));
        } else if k2 < k1 {
            assert(entry_lt(s, l1[k2], l1[k1]));
        }
    }
}

/// The binding decorations of a set lie inside the stream.
pub proof fn lemma_set_entries_inside(s: Seq<u32>, decs: Seq<usize>, filter: Set<u32>, set: u32, k: int)
    requires
        decorations_readable(s, decs),
        sorted_entries_exist(s, decs, filter, set),
        0 <= k < sorted_set_entries(s, decs, filter, set).len(),
    ensures
        sorted_set_entries(s, decs, filter, set)[k].0 + 3 < s.len(),
{
    lemma_entry_positions(s, decs, filter, set, k, set, k);
}

/// How many entries up to and including the `k`th repeat the binding of the entry before.
pub open spec fn repeats_up_to(l: Seq<(usize, u32)>, k: int) -> int
    decreases k,
{
    if k <= 0 {
        0
    } else {
        repeats_up_to(l, k - 1) + if l[k].1 == l[k - 1].1 { 1int } else { 0int }
    }
}

/// The binding given to the `k`th entry: its own binding moved up by the repeats so far.
pub open spec fn corrected_binding(l: Seq<(usize, u32)>, k: int) -> int {
    l[k].1 + repeats_up_to(l, k)
}

/// The bindings of a descriptor set of the stream, ordered by binding and decorated id.
pub open spec fn set_list(s: Seq<u32>, filter: Set<u32>, set: u32) -> Seq<(usize, u32)> {
    sorted_set_entries(s, op_starts(s, spv::SPV_INSTRUCTION_OP_DECORATE as int), filter, set)
}

/// Offset `p` holds the binding of a resource in one of the filtered sets.
pub open spec fn rewritten(s: Seq<u32>, filter: Set<u32>, p: int) -> bool {
    exists|set: u32, k: int| #![trigger set_list(s, filter, set)[k]]
        filter.contains(set) && 0 <= k < set_list(s, filter, set).len() && set_list(s, filter, set)[k].0 + 3 == p
}

/// Every corrected binding fits in a word.
pub open spec fn corrections_fit(s: Seq<u32>, filter: Set<u32>) -> bool {
    forall|set: u32, k: int| #![trigger set_list(s, filter, set)[k]]
        filter.contains(set) && 0 <= k < set_list(s, filter, set).len() ==> corrected_binding(set_list(s, filter, set), k) <= u32::MAX
}

/// The stream with the binding of every resource in a filtered set replaced by its
/// corrected binding.
pub open spec fn corrected_stream(s: Seq<u32>, filter: Set<u32>) -> Seq<u32> {
    Seq::new(s.len(), |p: int|
        if rewritten(s, filter, p) {
            let (set, k) = choose|set: u32, k: int| #![trigger set_list(s, filter, set)[k]]
                filter.contains(set) && 0 <= k < set_list(s, filter, set).len() && set_list(s, filter, set)[k].0 + 3 == p;
            corrected_binding(set_list(s, filter, set), k) as u32
        } else {
            s[p]
        })
}

proof fn lemma_repeats_bound(l: Seq<(usize, u32)>, k: int)
    ensures
        0 <= repeats_up_to(l, k),
        k >= 0 ==> repeats_up_to(l, k) <= k,
    decreases k,
{
    if k > 0 {
        lemma_repeats_bound(l, k - 1);
    }
}

pub struct CorrectDecorateIn<'a> {
    pub new_spv: &'a mut [u32],
    pub descriptor_sets_to_correct: HashSet<u32>,
}

/// Renumbers the bindings of the given descriptor sets after new resources were added
/// beside old ones with the same binding. Within a set, resources are taken in order of
/// binding and then of id; each resource whose binding repeats the one before it moves the
/// rest of the set up by one.
#[verifier::rlimit(40)]
pub fn correct_decorate(cd_in: CorrectDecorateIn)
    requires
        terminates_from(old(cd_in.new_spv)@, 0),
        fits_in_memory(old(cd_in.new_spv)@),
        idxs_reach(old(cd_in.new_spv)@, op_starts(old(cd_in.new_spv)@, spv::SPV_INSTRUCTION_OP_DECORATE as int), 3),
        corrections_fit(old(cd_in.new_spv)@, cd_in.descriptor_sets_to_correct@),
    ensures
        final(cd_in.new_spv)@.len() == old(cd_in.new_spv)@.len(),
        forall|set: u32, k: int| #![trigger set_list(old(cd_in.new_spv)@, cd_in.descriptor_sets_to_correct@, set)[k]]
            cd_in.descriptor_sets_to_correct@.contains(set)
            && 0 <= k < set_list(old(cd_in.new_spv)@, cd_in.descriptor_sets_to_correct@, set).len() ==>
            final(cd_in.new_spv)@[set_list(old(cd_in.new_spv)@, cd_in.descriptor_sets_to_correct@, set)[k].0 + 3]
                == corrected_binding(set_list(old(cd_in.new_spv)@, cd_in.descriptor_sets_to_correct@, set), k),
        forall|p: int| 0 <= p < old(cd_in.new_spv)@.len() && !rewritten(old(cd_in.new_spv)@, cd_in.descriptor_sets_to_correct@, p)
            ==> #[trigger] final(cd_in.new_spv)@[p] == old(cd_in.new_spv)@[p],
        final(cd_in.new_spv)@ == corrected_stream(old(cd_in.new_spv)@, cd_in.descriptor_sets_to_correct@),
{
    let CorrectDecorateIn { new_spv, descriptor_sets_to_correct } = cd_in;
    let ghost s = new_spv@;
    let ghost filter = descriptor_sets_to_correct@;
    let op_decorate_idxs = instruction_idxs(new_spv, spv::SPV_INSTRUCTION_OP_DECORATE);
    let ghost decs = op_decorate_idxs@;
    let set_bindings = decorate_map_set_bindings(new_spv, &op_decorate_idxs, &descriptor_sets_to_correct);
    let ghost keys = spec_hash_keys_iter(&descriptor_sets_to_correct).remaining().unref();
    let ghost mut done: int = 0;
    proof {
        assert(keys.to_set() == filter);
        assert(keys.no_duplicates()) by {
            let r = spec_hash_keys_iter(&descriptor_sets_to_correct).remaining();
            assert(r.no_duplicates());
            assert forall|i: int, j: int| 0 <= i < keys.len() && 0 <= j < keys.len() && i != j implies keys[i] != keys[j] by {
                assert(keys[i] == *r[i] && keys[j] == *r[j]);
            }
        }
    }
    for set_ref in it: descriptor_sets_to_correct.iter()
        invariant
            s.len() == new_spv@.len(),
            fits_in_memory(s),
            decs == op_starts(s, spv::SPV_INSTRUCTION_OP_DECORATE as int),
            decorations_readable(s, decs),
            corrections_fit(s, filter),
            filter == descriptor_sets_to_correct@,
            set_bindings@.dom() == filter,
            forall|x: u32| #[trigger] filter.contains(x) ==> set_bindings@[x]@ == sorted_set_entries(s, decs, filter, x),
            forall|x: u32| #[trigger] filter.contains(x) ==> sorted_entries_exist(s, decs, filter, x),
            keys == it.seq().unref(),
            done == it.index(),
            keys.to_set() == filter,
            keys.no_duplicates(),
            forall|j: int, k: int| #![trigger set_list(s, filter, keys[j])[k]]
                0 <= j < done && 0 <= k < set_list(s, filter, keys[j]).len() ==>
                new_spv@[set_list(s, filter, keys[j])[k].0 + 3] == corrected_binding(set_list(s, filter, keys[j]), k),
            forall|p: int| 0 <= p < s.len() && !(exists|j: int, k: int| #![trigger set_list(s, filter, keys[j])[k]]
                0 <= j < done && 0 <= k < set_list(s, filter, keys[j]).len()
                && set_list(s, filter, keys[j])[k].0 + 3 == p) ==> #[trigger] new_spv@[p] == s[p],
    {
        let ghost u = keys;
        let ghost idx0 = done;
        let set = *set_ref;
        proof {
            assert(u[idx0] == set);
            assert(u.to_set().contains(set));
        }
        let ghost l = set_list(s, filter, set);
        let bindings = set_bindings.get(&set).unwrap();
        assert(bindings@ == l);
        let mut prev_binding: Option<u32> = None;
        let mut increment: u32 = 0;
        let mut k: usize = 0;
        while k < bindings.len()
            invariant
                s.len() == new_spv@.len(),
                fits_in_memory(s),
                decs == op_starts(s, spv::SPV_INSTRUCTION_OP_DECORATE as int),
                decorations_readable(s, decs),
                corrections_fit(s, filter),
                filter.contains(set),
                forall|x: u32| #[trigger] filter.contains(x) ==> sorted_entries_exist(s, decs, filter, x),
                bindings@ == l,
                l == set_list(s, filter, set),
                u.no_duplicates(),
                0 <= idx0 < u.len(),
                u[idx0] == set,
                forall|j: int| 0 <= j < idx0 ==> filter.contains(#[trigger] u[j]),
                k <= l.len(),
                increment == repeats_up_to(l, k - 1),
                prev_binding == if k == 0 { None } else { Some(l[k - 1].1) },
                forall|j: int, k2: int| #![trigger set_list(s, filter, u[j])[k2]]
                    0 <= j < idx0 && 0 <= k2 < set_list(s, filter, u[j]).len() ==>
                    new_spv@[set_list(s, filter, u[j])[k2].0 + 3] == corrected_binding(set_list(s, filter, u[j]), k2),
                forall|k2: int| 0 <= k2 < k ==> new_spv@[#[trigger] l[k2].0 + 3] == corrected_binding(l, k2),
                forall|p: int| 0 <= p < s.len() && !(exists|j: int, k2: int| #![trigger set_list(s, filter, u[j])[k2]]
                    0 <= j < idx0 && 0 <= k2 < set_list(s, filter, u[j]).len()
                    && set_list(s, filter, u[j])[k2].0 + 3 == p)
                    && !(exists|k2: int| 0 <= k2 < k && #[trigger] l[k2].0 + 3 == p) ==> #[trigger] new_spv@[p] == s[p],
            decreases l.len() - k,
        {
            let (d_idx, binding) = bindings[k];
            proof {
                lemma_entry_positions(s, decs, filter, set, k as int, set, k as int);
                assert(l[k as int] == (d_idx, binding));
                assert(d_idx + 3 < s.len());
            }
            match prev_binding {
                Some(pb) => {
                    if pb == binding {
                        increment = increment + 1;
                    }
                },
                None => {},
            }
            assert(increment == repeats_up_to(l, k as int));
            assert(corrected_binding(l, k as int) <= u32::MAX);
            let ghost before = new_spv@;
            new_spv[d_idx + 3] = binding + increment;
            proof {
                assert forall|j: int, k2: int| #![trigger set_list(s, filter, u[j])[k2]]
                    0 <= j < idx0 && 0 <= k2 < set_list(s, filter, u[j]).len() implies
                    new_spv@[set_list(s, filter, u[j])[k2].0 + 3] == corrected_binding(set_list(s, filter, u[j]), k2) by {
                    assert(filter.contains(u[j]));
                    lemma_entry_positions(s, decs, filter, u[j], k2, set, k as int);
                    assert(u[j] != u[idx0]);
                }
                assert forall|k2: int| 0 <= k2 < k + 1 implies new_spv@[#[trigger] l[k2].0 + 3] == corrected_binding(l, k2) by {
                    if k2 < k {
                        lemma_entry_positions(s, decs, filter, set, k2, set, k as int);
                    }
                }
                assert forall|p: int| 0 <= p < s.len() && !(exists|j: int, k2: int| #![trigger set_list(s, filter, u[j])[k2]]
                    0 <= j < idx0 && 0 <= k2 < set_list(s, filter, u[j]).len()
                    && set_list(s, filter, u[j])[k2].0 + 3 == p)
                    && !(exists|k2: int| 0 <= k2 < k + 1 && #[trigger] l[k2].0 + 3 == p) implies #[trigger] new_spv@[p] == s[p] by {
                    assert(l[k as int].0 + 3 != p);
                    assert(before[p] == s[p]);
                }
            }
            prev_binding = Some(binding);
            k = k + 1;
        }
        proof {
            assert forall|j: int, k2: int| #![trigger set_list(s, filter, keys[j])[k2]]
                0 <= j < idx0 + 1 && 0 <= k2 < set_list(s, filter, keys[j]).len() implies
                new_spv@[set_list(s, filter, keys[j])[k2].0 + 3] == corrected_binding(set_list(s, filter, keys[j]), k2) by {
                if j == idx0 {
                    assert(l[k2] == set_list(s, filter, keys[j])[k2]);
                }
            }
            done = done + 1;
        }
    }
    proof {
        assert forall|set: u32, k: int| #![trigger set_list(s, filter, set)[k]]
            filter.contains(set) && 0 <= k < set_list(s, filter, set).len() implies
            new_spv@[set_list(s, filter, set)[k].0 + 3] == corrected_binding(set_list(s, filter, set), k) by {
            let u = keys;
            assert(done == u.len());
            assert(u.to_set().contains(set));
            let j = choose|j: int| 0 <= j < u.len() && u[j] == set;
            assert(set_list(s, filter, u[j])[k] == set_list(s, filter, set)[k]);
        }
        assert forall|p: int| 0 <= p < s.len() && !rewritten(s, filter, p) implies #[trigger] new_spv@[p] == s[p] by {
            let u = keys;
            if exists|j: int, k: int| #![trigger set_list(s, filter, u[j])[k]]
                0 <= j < u.len() && 0 <= k < set_list(s, filter, u[j]).len() && set_list(s, filter, u[j])[k].0 + 3 == p {
                let (j, k) = choose|j: int, k: int| #![trigger set_list(s, filter, u[j])[k]]
                    0 <= j < u.len() && 0 <= k < set_list(s, filter, u[j]).len() && set_list(s, filter, u[j])[k].0 + 3 == p;
                assert(u.to_set().contains(u[j]));
                assert(filter.contains(u[j]));
                assert(rewritten(s, filter, p));
            }
        }
        assert forall|p: int| 0 <= p < s.len() implies #[trigger] new_spv@[p] == corrected_stream(s, filter)[p] by {
            if rewritten(s, filter, p) {
                let (set, k) = choose|set: u32, k: int| #![trigger set_list(s, filter, set)[k]]
                    filter.contains(set) && 0 <= k < set_list(s, filter, set).len() && set_list(s, filter, set)[k].0 + 3 == p;
                assert(new_spv@[set_list(s, filter, set)[k].0 + 3] == corrected_binding(set_list(s, filter, set), k));
            }
        }
        assert(new_spv@ =~= corrected_stream(s, filter));
    }
}


/// Whether every binding that correcting the filtered sets writes fits in a word.
pub fn check_corrections_fit(spv: &[u32], filter: &HashSet<u32>) -> (r: bool)
    requires
        terminates_from(spv@, 0),
        fits_in_memory(spv@),
        idxs_reach(spv@, op_starts(spv@, spv::SPV_INSTRUCTION_OP_DECORATE as int), 3),
    ensures
        r == corrections_fit(spv@, filter@),
{
    let ghost s = spv@;
    let ghost fs = filter@;
    let op_decorate_idxs = instruction_idxs(spv, spv::SPV_INSTRUCTION_OP_DECORATE);
    let ghost decs = op_decorate_idxs@;
    let set_bindings = decorate_map_set_bindings(spv, &op_decorate_idxs, filter);
    let ghost keys = spec_hash_keys_iter(filter).remaining().unref();
    let ghost mut done: int = 0;
    proof {
        assert(keys.to_set() == fs);
    }
    for set_ref in it: filter.iter()
        invariant
            s == spv@,
            fits_in_memory(s),
            decs == op_starts(s, spv::SPV_INSTRUCTION_OP_DECORATE as int),
            fs == filter@,
            set_bindings@.dom() == fs,
            forall|x: u32| #[trigger] fs.contains(x) ==> set_bindings@[x]@ == sorted_set_entries(s, decs, fs, x),
            keys == it.seq().unref(),
            done == it.index(),
            keys.to_set() == fs,
            forall|j: int, k: int| #![trigger set_list(s, fs, keys[j])[k]]
                0 <= j < done && 0 <= k < set_list(s, fs, keys[j]).len() ==>
                corrected_binding(set_list(s, fs, keys[j]), k) <= u32::MAX,
    {
        let set = *set_ref;
        let ghost idx0 = done;
        proof {
            assert(keys[idx0] == set);
            assert(keys.to_set().contains(set));
        }
        let ghost l = set_list(s, fs, set);
        let bindings = set_bindings.get(&set).unwrap();
        assert(bindings@ == l);
        let mut prev_binding: Option<u32> = None;
        let mut increment: u64 = 0;
        let mut k: usize = 0;
        while k < bindings.len()
            invariant
                s == spv@,
                fits_in_memory(s),
                bindings@ == l,
                k <= l.len(),
                fs.contains(set),
                fs == filter@,
                l == set_list(s, fs, set),
                increment == repeats_up_to(l, k - 1),
                prev_binding == if k == 0 { None } else { Some(l[k - 1].1) },
                forall|k2: int| 0 <= k2 < k ==> corrected_binding(l, k2) <= u32::MAX,
            decreases l.len() - k,
        {
            let (_, binding) = bindings[k];
            match prev_binding {
                Some(pb) => {
                    if pb == binding {
                        proof {
                            lemma_repeats_bound(l, k as int);
                        }
                        increment = increment + 1;
                    }
                },
                None => {},
            }
            assert(increment == repeats_up_to(l, k as int));
            if increment > (0xffff_ffff - binding) as u64 {
                assert(corrected_binding(l, k as int) > u32::MAX);
                assert(l[k as int] == set_list(s, fs, set)[k as int]);
                return false;
            }
            prev_binding = Some(binding);
            k = k + 1;
        }
        proof {
            assert forall|j: int, k2: int| #![trigger set_list(s, fs, keys[j])[k2]]
                0 <= j < idx0 + 1 && 0 <= k2 < set_list(s, fs, keys[j]).len() implies
                corrected_binding(set_list(s, fs, keys[j]), k2) <= u32::MAX by {
                if j == idx0 {
                    assert(l[k2] == set_list(s, fs, keys[j])[k2]);
                }
            }
            done = done + 1;
        }
    }
    proof {
        assert forall|set: u32, k: int| #![trigger set_list(s, fs, set)[k]]
            fs.contains(set) && 0 <= k < set_list(s, fs, set).len() implies
            corrected_binding(set_list(s, fs, set), k) <= u32::MAX by {
            assert(done == keys.len());
            assert(keys.to_set().contains(set));
            let j = choose|j: int| 0 <= j < keys.len() && keys[j] == set;
            assert(set_list(s, fs, keys[j])[k] == set_list(s, fs, set)[k]);
        }
    }
    true
}

} // verus!
