use vstd::prelude::*;

use crate::immediatespatch::body_of;
use crate::spv;
use crate::util::function::{
    enclosing_function, get_function_from_parameter, lemma_last_before_listed, parameter_entry, trace_function_argument_to_variables,
    trace_readable, traced_variables, calls_readable, functions_of, reached_entries, some_entry_passes, FunctionParameterEntry, TraceFunctionArgumentToVariablesIn,
};
use crate::util::instruction::{
    collect_words, contains_u32, fill_nops, fits_in_memory, idxs_reach, instruction_idxs, nops_over, is_tiled, lemma_op_starts_reach, lemma_tiles_inside, op_starts, starts,
    starts_from, tiles, wc_at, wf_stream,
};
use crate::util::pointer::lemma_tiles_terminates;
use crate::util::{encode_word, fuse_final, hiword, prune_noops, spec_encode_word, spec_hiword, strip_nops};
use vstd::seq_lib::lemma_seq_contains_after_push;
use vstd::slice::slice_subrange;

verus! {

pub open spec fn idxs_of(s: Seq<u32>, op: u16) -> Seq<usize> {
    op_starts(s, op as int)
}

/// The ids of the `OpTypeSampler`s.
pub open spec fn sampler_type_ids(s: Seq<u32>) -> Set<u32> {
    Set::new(|id: u32| exists|j: int| 0 <= j < idxs_of(s, spv::SPV_INSTRUCTION_OP_TYPE_SAMPLER).len()
        && s[#[trigger] idxs_of(s, spv::SPV_INSTRUCTION_OP_TYPE_SAMPLER)[j] + 1] == id)
}

/// The images and samplers that `OpSampledImage`s combine.
pub open spec fn sampled_ids(s: Seq<u32>) -> Set<u32> {
    Set::new(|id: u32| exists|j: int| 0 <= j < idxs_of(s, spv::SPV_INSTRUCTION_OP_SAMPLED_IMAGE).len() && {
        let i = #[trigger] idxs_of(s, spv::SPV_INSTRUCTION_OP_SAMPLED_IMAGE)[j];
        s[i + 3] == id || s[i + 4] == id
    })
}

/// The `OpTypePointer` at `tp` points to a sampled (not storage) image type or a sampler type.
pub open spec fn opaque_pointer(s: Seq<u32>, tp: usize) -> bool {
    ||| exists|j: int| 0 <= j < idxs_of(s, spv::SPV_INSTRUCTION_OP_TYPE_IMAGE).len() && {
        let ti = #[trigger] idxs_of(s, spv::SPV_INSTRUCTION_OP_TYPE_IMAGE)[j];
        s[ti + 7] != 2 && s[ti + 1] == s[tp + 3]
    }
    ||| sampler_type_ids(s).contains(s[tp + 3])
}

/// The ids of the pointer types to sampled images and samplers.
pub open spec fn opaque_pointer_ids(s: Seq<u32>) -> Set<u32> {
    Set::new(|id: u32| exists|j: int| 0 <= j < idxs_of(s, spv::SPV_INSTRUCTION_OP_TYPE_POINTER).len()
        && s[#[trigger] idxs_of(s, spv::SPV_INSTRUCTION_OP_TYPE_POINTER)[j] + 1] == id
        && opaque_pointer(s, idxs_of(s, spv::SPV_INSTRUCTION_OP_TYPE_POINTER)[j]))
}

/// The `OpVariable` at `v` holds a sampled image or a sampler.
pub open spec fn opaque_variable(s: Seq<u32>, v: usize) -> bool {
    opaque_pointer_ids(s).contains(s[v + 1])
}

/// A later `OpVariable` of a sampled image or a sampler declares the id of the one at `v`
/// again; the later one is the one considered.
pub open spec fn redeclared(s: Seq<u32>, v: usize) -> bool {
    let vars = idxs_of(s, spv::SPV_INSTRUCTION_OP_VARIABLE);
    exists|k: int| 0 <= k < vars.len() && #[trigger] vars[k] > v && opaque_variable(s, vars[k]) && s[vars[k] + 2] == s[v + 2]
}

/// The ids of variables holding sampled images or samplers.
pub open spec fn opaque_variable_ids(s: Seq<u32>) -> Set<u32> {
    let vars = idxs_of(s, spv::SPV_INSTRUCTION_OP_VARIABLE);
    Set::new(|id: u32| exists|k: int| 0 <= k < vars.len() && opaque_variable(s, vars[k]) && #[trigger] s[vars[k] + 2] == id)
}

/// The function parameters that are loaded from.
pub open spec fn loaded_parameters(s: Seq<u32>) -> Seq<usize> {
    let loads = idxs_of(s, spv::SPV_INSTRUCTION_OP_LOAD);
    idxs_of(s, spv::SPV_INSTRUCTION_OP_FUNCTION_PARAMETER).filter(|p: usize|
        exists|j: int| 0 <= j < loads.len() && #[trigger] s[loads[j] + 3] == s[p + 2])
}

/// An `OpLoad` of a variable holding a sampled image or a sampler, whose result an
/// `OpSampledImage` combines, uses `id`.
pub open spec fn loaded_directly(s: Seq<u32>, id: u32) -> bool {
    let loads = idxs_of(s, spv::SPV_INSTRUCTION_OP_LOAD);
    exists|j: int| 0 <= j < loads.len() && sampled_ids(s).contains(s[#[trigger] loads[j] + 2])
        && s[loads[j] + 3] == id && opaque_variable_ids(s).contains(id)
}

/// A call passes the variable `id`, directly or through other functions, for a parameter
/// that is loaded from.
pub open spec fn passed_to_loaded_parameter(s: Seq<u32>, id: u32) -> bool {
    let vars = idxs_of(s, spv::SPV_INSTRUCTION_OP_VARIABLE);
    let params = idxs_of(s, spv::SPV_INSTRUCTION_OP_FUNCTION_PARAMETER);
    let calls = idxs_of(s, spv::SPV_INSTRUCTION_OP_FUNCTION_CALL);
    let lp = loaded_parameters(s);
    exists|j: int, k: int| 0 <= j < lp.len()
        && 0 <= k < traced_variables(s, vars, params, calls, parameter_entry(s, lp[j])).len()
        && s[#[trigger] traced_variables(s, vars, params, calls, parameter_entry(s, lp[j]))[k] + 2] == id
}

/// The variables that are used: those loaded into a sampled image, and those passed (also
/// through other functions) for a parameter that is loaded from.
pub open spec fn used_ids(s: Seq<u32>) -> Set<u32> {
    Set::new(|id: u32| loaded_directly(s, id) || passed_to_loaded_parameter(s, id))
}

/// The `OpVariable` at `v` holds a sampled image or a sampler that nothing uses.
pub open spec fn unused_variable(s: Seq<u32>, v: usize) -> bool {
    opaque_variable(s, v) && !redeclared(s, v) && !used_ids(s).contains(s[v + 2])
}

/// The ids of the variables that nothing uses.
pub open spec fn unused_ids(s: Seq<u32>) -> Set<u32> {
    let vars = idxs_of(s, spv::SPV_INSTRUCTION_OP_VARIABLE);
    Set::new(|id: u32| exists|k: int| 0 <= k < vars.len() && unused_variable(s, vars[k]) && #[trigger] s[vars[k] + 2] == id)
}

/// The listed instructions whose first operand is one of `ids`.
pub open spec fn targeting(s: Seq<u32>, idxs: Seq<usize>, ids: Set<u32>) -> Seq<usize> {
    idxs.filter(|d: usize| ids.contains(s[d + 1]))
}

/// The instructions removed: the unused variables, then the decorations and the names of
/// their ids.
pub open spec fn removed_instructions(s: Seq<u32>) -> Seq<usize> {
    idxs_of(s, spv::SPV_INSTRUCTION_OP_VARIABLE).filter(|v: usize| unused_variable(s, v))
        + targeting(s, idxs_of(s, spv::SPV_INSTRUCTION_OP_DECORATE), unused_ids(s))
        + targeting(s, idxs_of(s, spv::SPV_INSTRUCTION_OP_NAME), unused_ids(s))
}

fn find_opaque_pointer_ids(
    spv: &[u32],
    tps: &[usize],
    images: &[usize],
    sampler_ids: &Vec<u32>,
) -> (r: Vec<u32>)
    requires
        idxs_reach(spv@, tps@, 3),
        idxs_reach(spv@, images@, 7),
        tps@ == idxs_of(spv@, spv::SPV_INSTRUCTION_OP_TYPE_POINTER),
        images@ == idxs_of(spv@, spv::SPV_INSTRUCTION_OP_TYPE_IMAGE),
        forall|x: u32| sampler_ids@.contains(x) <==> sampler_type_ids(spv@).contains(x),
    ensures
        forall|x: u32| r@.contains(x) <==> opaque_pointer_ids(spv@).contains(x),
{
    let ghost s = spv@;
    let mut out: Vec<u32> = Vec::new();
    let mut j: usize = 0;
    while j < tps.len()
        invariant
            s == spv@,
            j <= tps@.len(),
            idxs_reach(s, tps@, 3),
            idxs_reach(s, images@, 7),
            tps@ == idxs_of(s, spv::SPV_INSTRUCTION_OP_TYPE_POINTER),
            images@ == idxs_of(s, spv::SPV_INSTRUCTION_OP_TYPE_IMAGE),
            forall|x: u32| sampler_ids@.contains(x) <==> sampler_type_ids(s).contains(x),
            forall|x: u32| out@.contains(x) <==> exists|i: int| 0 <= i < j && s[#[trigger] tps@[i] + 1] == x && opaque_pointer(s, tps@[i]),
        decreases tps@.len() - j,
    {
        let tp = tps[j];
        assert(tps@[j as int] + 3 < s.len());
        assert(s.len() == spv.len());
        let pointee = spv[tp + 3];
        let mut is_image = false;
        let mut i: usize = 0;
        while i < images.len()
            invariant
                s == spv@,
                i <= images@.len(),
                idxs_reach(s, images@, 7),
                is_image == exists|q: int| 0 <= q < i && s[#[trigger] images@[q] + 7] != 2 && s[images@[q] + 1] == pointee,
            decreases images@.len() - i,
        {
            let ti = images[i];
            assert(images@[i as int] + 7 < s.len());
            assert(s.len() == spv.len());
            if spv[ti + 7] != 2 && spv[ti + 1] == pointee {
                is_image = true;
            }
            i = i + 1;
        }
        let opaque = is_image || contains_u32(sampler_ids, pointee);
        assert(opaque == opaque_pointer(s, tp));
        let ghost before = out@;
        if opaque {
            out.push(spv[tp + 1]);
        }
        proof {
            assert forall|x: u32| out@.contains(x) <==> exists|i: int| 0 <= i < j + 1 && s[#[trigger] tps@[i] + 1] == x && opaque_pointer(s, tps@[i]) by {
                if out@.contains(x) {
                    let k = choose|k: int| 0 <= k < out@.len() && out@[k] == x;
                    if k < before.len() {
                        assert(before.contains(x));
                    } else {
                        assert(s[tps@[j as int] + 1] == x && opaque_pointer(s, tps@[j as int]));
                    }
                }
                if exists|i: int| 0 <= i < j + 1 && s[#[trigger] tps@[i] + 1] == x && opaque_pointer(s, tps@[i]) {
                    let i = choose|i: int| 0 <= i < j + 1 && s[#[trigger] tps@[i] + 1] == x && opaque_pointer(s, tps@[i]);
                    if i < j {
                        assert(before.contains(x));
                        let k = choose|k: int| 0 <= k < before.len() && before[k] == x;
                        assert(out@[k] == x);
                    } else {
                        assert(out@[before.len() as int] == x);
                    }
                }
            }
        }
        j = j + 1;
    }
    out
}

/// Whether each listed `OpVariable` holds a sampled image or a sampler.
fn opaque_variable_flags(spv: &[u32], vars: &[usize], opaque_ptrs: &Vec<u32>) -> (r: Vec<bool>)
    requires
        idxs_reach(spv@, vars@, 2),
        forall|x: u32| opaque_ptrs@.contains(x) <==> opaque_pointer_ids(spv@).contains(x),
    ensures
        r@.len() == vars@.len(),
        forall|k: int| 0 <= k < vars@.len() ==> #[trigger] r@[k] == opaque_variable(spv@, vars@[k]),
{
    let mut out: Vec<bool> = Vec::new();
    let mut k: usize = 0;
    while k < vars.len()
        invariant
            k <= vars@.len(),
            idxs_reach(spv@, vars@, 2),
            forall|x: u32| opaque_ptrs@.contains(x) <==> opaque_pointer_ids(spv@).contains(x),
            out@.len() == k,
            forall|i: int| 0 <= i < k ==> #[trigger] out@[i] == opaque_variable(spv@, vars@[i]),
        decreases vars@.len() - k,
    {
        assert(vars@[k as int] + 2 < spv@.len());
        assert(spv@.len() == spv.len());
        out.push(contains_u32(opaque_ptrs, spv[vars[k] + 1]));
        k = k + 1;
    }
    out
}

/// The ids of the listed variables that hold a sampled image or a sampler.
fn opaque_variable_id_list(spv: &[u32], vars: &[usize], flags: &Vec<bool>) -> (r: Vec<u32>)
    requires
        idxs_reach(spv@, vars@, 2),
        vars@ == idxs_of(spv@, spv::SPV_INSTRUCTION_OP_VARIABLE),
        flags@.len() == vars@.len(),
        forall|k: int| 0 <= k < vars@.len() ==> #[trigger] flags@[k] == opaque_variable(spv@, vars@[k]),
    ensures
        forall|x: u32| r@.contains(x) <==> opaque_variable_ids(spv@).contains(x),
{
    let ghost s = spv@;
    let mut out: Vec<u32> = Vec::new();
    let mut k: usize = 0;
    while k < vars.len()
        invariant
            s == spv@,
            k <= vars@.len(),
            idxs_reach(s, vars@, 2),
            flags@.len() == vars@.len(),
            forall|i: int| 0 <= i < vars@.len() ==> #[trigger] flags@[i] == opaque_variable(s, vars@[i]),
            forall|x: u32| out@.contains(x) <==> exists|i: int| 0 <= i < k && opaque_variable(s, vars@[i]) && #[trigger] s[vars@[i] + 2] == x,
        decreases vars@.len() - k,
    {
        assert(vars@[k as int] + 2 < s.len());
        assert(s.len() == spv.len());
        let ghost before = out@;
        if flags[k] {
            out.push(spv[vars[k] + 2]);
        }
        proof {
            assert forall|x: u32| out@.contains(x) <==> exists|i: int| 0 <= i < k + 1 && opaque_variable(s, vars@[i]) && #[trigger] s[vars@[i] + 2] == x by {
                if flags@[k as int] {
                    lemma_seq_contains_after_push(before, s[vars@[k as int] + 2], x);
                }
                if exists|i: int| 0 <= i < k + 1 && opaque_variable(s, vars@[i]) && #[trigger] s[vars@[i] + 2] == x {
                    let i = choose|i: int| 0 <= i < k + 1 && opaque_variable(s, vars@[i]) && #[trigger] s[vars@[i] + 2] == x;
                    if i == k {
                        assert(flags@[i]);
                    }
                }
            }
        }
        k = k + 1;
    }
    out
}

/// Whether a later variable holding a sampled image or a sampler declares the id of the one
/// at `v` again.
fn is_redeclared(spv: &[u32], vars: &[usize], flags: &Vec<bool>, v: usize) -> (r: bool)
    requires
        idxs_reach(spv@, vars@, 2),
        v + 2 < spv@.len(),
        vars@ == idxs_of(spv@, spv::SPV_INSTRUCTION_OP_VARIABLE),
        flags@.len() == vars@.len(),
        forall|k: int| 0 <= k < vars@.len() ==> #[trigger] flags@[k] == opaque_variable(spv@, vars@[k]),
    ensures
        r == redeclared(spv@, v),
{
    let ghost s = spv@;
    let mut k: usize = 0;
    while k < vars.len()
        invariant
            s == spv@,
            k <= vars@.len(),
            v + 2 < s.len(),
            vars@ == idxs_of(s, spv::SPV_INSTRUCTION_OP_VARIABLE),
            idxs_reach(s, vars@, 2),
            flags@.len() == vars@.len(),
            forall|i: int| 0 <= i < vars@.len() ==> #[trigger] flags@[i] == opaque_variable(s, vars@[i]),
            forall|i: int| 0 <= i < k ==> !(#[trigger] vars@[i] > v && opaque_variable(s, vars@[i]) && s[vars@[i] + 2] == s[v + 2]),
        decreases vars@.len() - k,
    {
        assert(vars@[k as int] + 2 < s.len());
        assert(s.len() == spv.len());
        if vars[k] > v && flags[k] && spv[vars[k] + 2] == spv[v + 2] {
            assert(idxs_of(s, spv::SPV_INSTRUCTION_OP_VARIABLE)[k as int] > v);
            return true;
        }
        k = k + 1;
    }
    false
}

/// The variables that loads combined into sampled images read.
fn direct_uses(spv: &[u32], loads: &[usize], sampled: &Vec<u32>, opaque_var_ids: &Vec<u32>) -> (r: Vec<u32>)
    requires
        idxs_reach(spv@, loads@, 3),
        loads@ == idxs_of(spv@, spv::SPV_INSTRUCTION_OP_LOAD),
        forall|x: u32| sampled@.contains(x) <==> sampled_ids(spv@).contains(x),
        forall|x: u32| opaque_var_ids@.contains(x) <==> opaque_variable_ids(spv@).contains(x),
    ensures
        forall|x: u32| r@.contains(x) <==> loaded_directly(spv@, x),
{
    let ghost s = spv@;
    let mut out: Vec<u32> = Vec::new();
    let mut j: usize = 0;
    while j < loads.len()
        invariant
            s == spv@,
            j <= loads@.len(),
            idxs_reach(s, loads@, 3),
            forall|x: u32| sampled@.contains(x) <==> sampled_ids(s).contains(x),
            forall|x: u32| opaque_var_ids@.contains(x) <==> opaque_variable_ids(s).contains(x),
            forall|x: u32| out@.contains(x) <==> exists|i: int| 0 <= i < j && sampled_ids(s).contains(s[#[trigger] loads@[i] + 2])
                && s[loads@[i] + 3] == x && opaque_variable_ids(s).contains(x),
        decreases loads@.len() - j,
    {
        assert(loads@[j as int] + 3 < s.len());
        assert(s.len() == spv.len());
        let l = loads[j];
        let ghost before = out@;
        let hit = contains_u32(sampled, spv[l + 2]) && contains_u32(opaque_var_ids, spv[l + 3]);
        if hit {
            out.push(spv[l + 3]);
        }
        proof {
            assert forall|x: u32| out@.contains(x) <==> exists|i: int| 0 <= i < j + 1 && sampled_ids(s).contains(s[#[trigger] loads@[i] + 2])
                && s[loads@[i] + 3] == x && opaque_variable_ids(s).contains(x) by {
                if hit {
                    lemma_seq_contains_after_push(before, s[l + 3], x);
                }
                if exists|i: int| 0 <= i < j + 1 && sampled_ids(s).contains(s[#[trigger] loads@[i] + 2])
                    && s[loads@[i] + 3] == x && opaque_variable_ids(s).contains(x) {
                    let i = choose|i: int| 0 <= i < j + 1 && sampled_ids(s).contains(s[#[trigger] loads@[i] + 2])
                        && s[loads@[i] + 3] == x && opaque_variable_ids(s).contains(x);
                    if i == j {
                        assert(hit);
                    }
                }
            }
        }
        j = j + 1;
    }
    out
}

/// The function parameters that some load reads from, in stream order.
fn loaded_parameter_list(spv: &[u32], params: &[usize], load_ptrs: &Vec<u32>) -> (r: Vec<usize>)
    requires
        idxs_reach(spv@, params@, 2),
        params@ == idxs_of(spv@, spv::SPV_INSTRUCTION_OP_FUNCTION_PARAMETER),
        forall|x: u32| load_ptrs@.contains(x) <==> exists|j: int| 0 <= j < idxs_of(spv@, spv::SPV_INSTRUCTION_OP_LOAD).len()
            && #[trigger] spv@[idxs_of(spv@, spv::SPV_INSTRUCTION_OP_LOAD)[j] + 3] == x,
    ensures
        r@ == loaded_parameters(spv@),
{
    let ghost s = spv@;
    let ghost loads = idxs_of(s, spv::SPV_INSTRUCTION_OP_LOAD);
    let ghost pred = |p: usize| exists|j: int| 0 <= j < loads.len() && #[trigger] s[loads[j] + 3] == s[p + 2];
    let mut out: Vec<usize> = Vec::new();
    let mut k: usize = 0;
    assert(params@.take(0) =~= Seq::<usize>::empty());
    while k < params.len()
        invariant
            s == spv@,
            loads == idxs_of(s, spv::SPV_INSTRUCTION_OP_LOAD),
            pred == (|p: usize| exists|j: int| 0 <= j < loads.len() && #[trigger] s[loads[j] + 3] == s[p + 2]),
            k <= params@.len(),
            idxs_reach(s, params@, 2),
            forall|x: u32| load_ptrs@.contains(x) <==> exists|j: int| 0 <= j < loads.len() && #[trigger] s[loads[j] + 3] == x,
            out@ == params@.take(k as int).filter(pred),
        decreases params@.len() - k,
    {
        let p = params[k];
        assert(params@[k as int] + 2 < s.len());
        assert(s.len() == spv.len());
        proof {
            assert(params@.take(k + 1) =~= params@.take(k as int).push(p));
            params@.take(k as int).lemma_filter_push(p, pred);
        }
        if contains_u32(load_ptrs, spv[p + 2]) {
            out.push(p);
        }
        k = k + 1;
    }
    assert(params@.take(k as int) =~= params@);
    out
}

proof fn lemma_traced_listed(s: Seq<u32>, vars: Seq<usize>, params: Seq<usize>, calls: Seq<usize>, e: FunctionParameterEntry)
    ensures
        forall|k: int| 0 <= k < traced_variables(s, vars, params, calls, e).len()
            ==> vars.contains(#[trigger] traced_variables(s, vars, params, calls, e)[k]),
{
    let es = reached_entries(s, params, calls, e, (params.len() + 1) as nat);
    let pred = |v: usize| some_entry_passes(s, calls, es, s[v + 2]);
    assert(traced_variables(s, vars, params, calls, e) == vars.filter(pred));
    assert forall|k: int| 0 <= k < traced_variables(s, vars, params, calls, e).len()
        implies vars.contains(#[trigger] traced_variables(s, vars, params, calls, e)[k]) by {
        let v = vars.filter(pred)[k];
        assert(vars.filter(pred).contains(v));
        vars.lemma_filter_contains_rev(pred, v);
    }
}

proof fn lemma_loaded_listed(s: Seq<u32>)
    ensures
        forall|j: int| 0 <= j < loaded_parameters(s).len()
            ==> idxs_of(s, spv::SPV_INSTRUCTION_OP_FUNCTION_PARAMETER).contains(#[trigger] loaded_parameters(s)[j]),
{
    let loads = idxs_of(s, spv::SPV_INSTRUCTION_OP_LOAD);
    let params = idxs_of(s, spv::SPV_INSTRUCTION_OP_FUNCTION_PARAMETER);
    let pred = |p: usize| exists|j: int| 0 <= j < loads.len() && #[trigger] s[loads[j] + 3] == s[p + 2];
    assert(loaded_parameters(s) == params.filter(pred));
    assert forall|j: int| 0 <= j < loaded_parameters(s).len() implies params.contains(#[trigger] loaded_parameters(s)[j]) by {
        let p = params.filter(pred)[j];
        assert(params.filter(pred).contains(p));
        params.lemma_filter_contains_rev(pred, p);
    }
}

/// The variables that calls pass, directly or through other functions, for the parameters
/// that are loaded from.
fn traced_uses(spv: &[u32], vars: &[usize], params: &[usize], calls: &[usize], lp: &Vec<usize>) -> (r: Vec<u32>)
    requires
        trace_readable(spv@, vars@, params@, calls@),
        vars@ == idxs_of(spv@, spv::SPV_INSTRUCTION_OP_VARIABLE),
        params@ == idxs_of(spv@, spv::SPV_INSTRUCTION_OP_FUNCTION_PARAMETER),
        calls@ == idxs_of(spv@, spv::SPV_INSTRUCTION_OP_FUNCTION_CALL),
        lp@ == loaded_parameters(spv@),
    ensures
        forall|x: u32| r@.contains(x) <==> passed_to_loaded_parameter(spv@, x),
{
    let ghost s = spv@;
    proof {
        lemma_loaded_listed(s);
    }
    let mut out: Vec<u32> = Vec::new();
    let mut j: usize = 0;
    while j < lp.len()
        invariant
            s == spv@,
            j <= lp@.len(),
            trace_readable(s, vars@, params@, calls@),
            vars@ == idxs_of(s, spv::SPV_INSTRUCTION_OP_VARIABLE),
            params@ == idxs_of(s, spv::SPV_INSTRUCTION_OP_FUNCTION_PARAMETER),
            calls@ == idxs_of(s, spv::SPV_INSTRUCTION_OP_FUNCTION_CALL),
            lp@ == loaded_parameters(s),
            forall|i: int| 0 <= i < lp@.len() ==> params@.contains(#[trigger] lp@[i]),
            forall|x: u32| out@.contains(x) <==> exists|i: int, k: int| 0 <= i < j
                && 0 <= k < traced_variables(s, vars@, params@, calls@, parameter_entry(s, lp@[i])).len()
                && s[#[trigger] traced_variables(s, vars@, params@, calls@, parameter_entry(s, lp@[i]))[k] + 2] == x,
        decreases lp@.len() - j,
    {
        let p = lp[j];
        proof {
            assert(params@.contains(p));
            let q = choose|q: int| 0 <= q < params@.len() && params@[q] == p;
            assert(enclosing_function(s, params@[q]) is Some);
        }
        let entry = get_function_from_parameter(spv, p);
        let mut scratch: Vec<usize> = Vec::new();
        let tv = trace_function_argument_to_variables(TraceFunctionArgumentToVariablesIn {
            spv,
            op_variable_idxs: vars,
            op_function_parameter_idxs: params,
            op_function_call_idxs: calls,
            entry,
            traced_function_call_idxs: &mut scratch,
        });
        let ghost t = traced_variables(s, vars@, params@, calls@, parameter_entry(s, lp@[j as int]));
        assert(tv@ == t);
        proof {
            lemma_traced_listed(s, vars@, params@, calls@, parameter_entry(s, lp@[j as int]));
        }
        let ghost before = out@;
        assert(forall|x: u32| before.contains(x) <==> exists|i: int, k: int| 0 <= i < j
            && 0 <= k < traced_variables(s, vars@, params@, calls@, parameter_entry(s, lp@[i])).len()
            && s[#[trigger] traced_variables(s, vars@, params@, calls@, parameter_entry(s, lp@[i]))[k] + 2] == x);
        let mut k: usize = 0;
        while k < tv.len()
            invariant
                s == spv@,
                tv@ == t,
                k <= t.len(),
                idxs_reach(s, vars@, 2),
                forall|i: int| 0 <= i < t.len() ==> vars@.contains(#[trigger] t[i]),
                forall|x: u32| #![trigger out@.contains(x)] out@.contains(x) <==> before.contains(x) || exists|i: int| 0 <= i < k && #[trigger] s[t[i] + 2] == x,
            decreases t.len() - k,
        {
            let v = tv[k];
            proof {
                assert(vars@.contains(t[k as int]));
                let q = choose|q: int| 0 <= q < vars@.len() && vars@[q] == v;
                assert(vars@[q] + 2 < s.len());
            }
            assert(s.len() == spv.len());
            let ghost mid = out@;
            out.push(spv[v + 2]);
            proof {
                assert forall|x: u32| #![trigger out@.contains(x)] out@.contains(x) <==> before.contains(x) || exists|i: int| 0 <= i < k + 1 && #[trigger] s[t[i] + 2] == x by {
                    lemma_seq_contains_after_push(mid, s[v + 2], x);
                    if exists|i: int| 0 <= i < k + 1 && #[trigger] s[t[i] + 2] == x {
                        let i = choose|i: int| 0 <= i < k + 1 && #[trigger] s[t[i] + 2] == x;
                        if i < k {
                            assert(exists|i2: int| 0 <= i2 < k && #[trigger] s[t[i2] + 2] == x);
                            assert(mid.contains(x));
                        }
                    }
                    if mid.contains(x) {
                        assert(before.contains(x) || exists|i: int| 0 <= i < k && #[trigger] s[t[i] + 2] == x);
                        if !before.contains(x) {
                            let i = choose|i: int| 0 <= i < k && #[trigger] s[t[i] + 2] == x;
                            assert(0 <= i < k + 1 && s[t[i] + 2] == x);
                        }
                    }
                }
            }
            k = k + 1;
        }
        proof {
            assert forall|x: u32| out@.contains(x) implies exists|i: int, k: int| 0 <= i < j + 1
                && 0 <= k < traced_variables(s, vars@, params@, calls@, parameter_entry(s, lp@[i])).len()
                && s[#[trigger] traced_variables(s, vars@, params@, calls@, parameter_entry(s, lp@[i]))[k] + 2] == x by {
                if before.contains(x) {
                    let (i, k2) = choose|i: int, k: int| 0 <= i < j
                        && 0 <= k < traced_variables(s, vars@, params@, calls@, parameter_entry(s, lp@[i])).len()
                        && s[#[trigger] traced_variables(s, vars@, params@, calls@, parameter_entry(s, lp@[i]))[k] + 2] == x;
                    assert(0 <= i < j + 1);
                } else {
                    let i = choose|i: int| 0 <= i < t.len() && #[trigger] s[t[i] + 2] == x;
                    assert(s[traced_variables(s, vars@, params@, calls@, parameter_entry(s, lp@[j as int]))[i] + 2] == x);
                }
            }
            assert forall|x: u32| (exists|i: int, k: int| 0 <= i < j + 1
                && 0 <= k < traced_variables(s, vars@, params@, calls@, parameter_entry(s, lp@[i])).len()
                && s[#[trigger] traced_variables(s, vars@, params@, calls@, parameter_entry(s, lp@[i]))[k] + 2] == x)
                implies out@.contains(x) by {
                let (i, k2) = choose|i: int, k: int| 0 <= i < j + 1
                    && 0 <= k < traced_variables(s, vars@, params@, calls@, parameter_entry(s, lp@[i])).len()
                    && s[#[trigger] traced_variables(s, vars@, params@, calls@, parameter_entry(s, lp@[i]))[k] + 2] == x;
                if i == j {
                    assert(s[t[k2] + 2] == x);
                } else {
                    assert(before.contains(x));
                }
            }
        }
        j = j + 1;
    }
    out
}

/// The variables that hold a sampled image or a sampler and that nothing uses, with their ids.
fn unused_variables(spv: &[u32], vars: &[usize], flags: &Vec<bool>, used: &Vec<u32>) -> (r: (Vec<usize>, Vec<u32>))
    requires
        idxs_reach(spv@, vars@, 2),
        vars@ == idxs_of(spv@, spv::SPV_INSTRUCTION_OP_VARIABLE),
        flags@.len() == vars@.len(),
        forall|k: int| 0 <= k < vars@.len() ==> #[trigger] flags@[k] == opaque_variable(spv@, vars@[k]),
        forall|x: u32| used@.contains(x) <==> used_ids(spv@).contains(x),
    ensures
        r.0@ == vars@.filter(|v: usize| unused_variable(spv@, v)),
        forall|x: u32| r.1@.contains(x) <==> unused_ids(spv@).contains(x),
{
    let ghost s = spv@;
    let ghost pred = |v: usize| unused_variable(s, v);
    let mut out: Vec<usize> = Vec::new();
    let mut ids: Vec<u32> = Vec::new();
    let mut k: usize = 0;
    assert(vars@.take(0) =~= Seq::<usize>::empty());
    while k < vars.len()
        invariant
            s == spv@,
            pred == (|v: usize| unused_variable(s, v)),
            k <= vars@.len(),
            idxs_reach(s, vars@, 2),
            vars@ == idxs_of(s, spv::SPV_INSTRUCTION_OP_VARIABLE),
            flags@.len() == vars@.len(),
            forall|i: int| 0 <= i < vars@.len() ==> #[trigger] flags@[i] == opaque_variable(s, vars@[i]),
            forall|x: u32| used@.contains(x) <==> used_ids(s).contains(x),
            out@ == vars@.take(k as int).filter(pred),
            forall|x: u32| #![trigger ids@.contains(x)] ids@.contains(x) <==> exists|i: int| 0 <= i < k && unused_variable(s, vars@[i]) && #[trigger] s[vars@[i] + 2] == x,
        decreases vars@.len() - k,
    {
        let v = vars[k];
        assert(vars@[k as int] + 2 < s.len());
        assert(s.len() == spv.len());
        let unused = flags[k] && !is_redeclared(spv, vars, flags, v) && !contains_u32(used, spv[v + 2]);
        assert(unused == unused_variable(s, v));
        proof {
            assert(vars@.take(k + 1) =~= vars@.take(k as int).push(v));
            vars@.take(k as int).lemma_filter_push(v, pred);
        }
        let ghost before = ids@;
        if unused {
            out.push(v);
            ids.push(spv[v + 2]);
        }
        proof {
            assert forall|x: u32| #![trigger ids@.contains(x)] ids@.contains(x) <==> exists|i: int| 0 <= i < k + 1 && unused_variable(s, vars@[i]) && #[trigger] s[vars@[i] + 2] == x by {
                if unused {
                    lemma_seq_contains_after_push(before, s[v + 2], x);
                }
                if exists|i: int| 0 <= i < k + 1 && unused_variable(s, vars@[i]) && #[trigger] s[vars@[i] + 2] == x {
                    let i = choose|i: int| 0 <= i < k + 1 && unused_variable(s, vars@[i]) && #[trigger] s[vars@[i] + 2] == x;
                    if i < k {
                        assert(before.contains(x));
                    }
                }
                if before.contains(x) {
                    let i = choose|i: int| 0 <= i < k && unused_variable(s, vars@[i]) && #[trigger] s[vars@[i] + 2] == x;
                    assert(0 <= i < k + 1);
                }
            }
        }
        k = k + 1;
    }
    assert(vars@.take(k as int) =~= vars@);
    (out, ids)
}

/// The listed instructions whose first operand is one of `ids`.
fn targeting_list(spv: &[u32], idxs: &[usize], ids: &Vec<u32>, Ghost(set): Ghost<Set<u32>>) -> (r: Vec<usize>)
    requires
        idxs_reach(spv@, idxs@, 1),
        forall|x: u32| ids@.contains(x) <==> set.contains(x),
    ensures
        r@ == targeting(spv@, idxs@, set),
{
    let ghost s = spv@;
    let ghost pred = |d: usize| set.contains(s[d + 1]);
    let mut out: Vec<usize> = Vec::new();
    let mut k: usize = 0;
    assert(idxs@.take(0) =~= Seq::<usize>::empty());
    while k < idxs.len()
        invariant
            s == spv@,
            pred == (|d: usize| set.contains(s[d + 1])),
            k <= idxs@.len(),
            idxs_reach(s, idxs@, 1),
            forall|x: u32| ids@.contains(x) <==> set.contains(x),
            out@ == idxs@.take(k as int).filter(pred),
        decreases idxs@.len() - k,
    {
        let d = idxs[k];
        assert(idxs@[k as int] + 1 < s.len());
        assert(s.len() == spv.len());
        proof {
            assert(idxs@.take(k + 1) =~= idxs@.take(k as int).push(d));
            idxs@.take(k as int).lemma_filter_push(d, pred);
        }
        if contains_u32(ids, spv[d + 1]) {
            out.push(d);
        }
        k = k + 1;
    }
    assert(idxs@.take(k as int) =~= idxs@);
    out
}

/// Every `OpFunctionParameter` lies inside a function definition.
pub open spec fn parameters_enclosed(s: Seq<u32>) -> bool {
    let params = idxs_of(s, spv::SPV_INSTRUCTION_OP_FUNCTION_PARAMETER);
    forall|j: int| 0 <= j < params.len() ==> (#[trigger] enclosing_function(s, params[j])) is Some
}

/// Whether every function parameter of a module body lies inside a function.
pub fn has_enclosed_parameters(spv: &[u32]) -> (r: bool)
    requires
        wf_stream(spv@),
    ensures
        r == parameters_enclosed(spv@),
{
    let ghost s = spv@;
    proof {
        lemma_tiles_terminates(s, 0);
    }
    let params = instruction_idxs(spv, spv::SPV_INSTRUCTION_OP_FUNCTION_PARAMETER);
    let mut j: usize = 0;
    while j < params.len()
        invariant
            s == spv@,
            wf_stream(s),
            crate::util::instruction::terminates_from(s, 0),
            params@ == idxs_of(s, spv::SPV_INSTRUCTION_OP_FUNCTION_PARAMETER),
            j <= params@.len(),
            forall|q: int| 0 <= q < j ==> (#[trigger] enclosing_function(s, params@[q])) is Some,
        decreases params@.len() - j,
    {
        if crate::util::function::get_enclosing_function_index(spv, params[j]).is_none() {
            return false;
        }
        j = j + 1;
    }
    true
}

/// The body with the unused sampled-image and sampler variables, their decorations and their
/// names overwritten by `OpNop`s.
pub open spec fn pruned_body(s: Seq<u32>) -> Seq<u32> {
    nops_over(s, s, removed_instructions(s))
}

proof fn lemma_filter_listed<A>(l: Seq<A>, pred: spec_fn(A) -> bool)
    ensures
        forall|i: int| 0 <= i < l.filter(pred).len() ==> l.contains(#[trigger] l.filter(pred)[i]),
{
    assert forall|i: int| 0 <= i < l.filter(pred).len() implies l.contains(#[trigger] l.filter(pred)[i]) by {
        let x = l.filter(pred)[i];
        assert(l.filter(pred).contains(x));
        l.lemma_filter_contains_rev(pred, x);
    }
}

proof fn lemma_words_listed(s: Seq<u32>, idxs: Seq<usize>, off: int, words: Seq<u32>)
    requires
        words.len() == idxs.len(),
        forall|j: int| 0 <= j < idxs.len() ==> #[trigger] words[j] == s[idxs[j] + off],
    ensures
        forall|x: u32| words.contains(x) <==> exists|j: int| 0 <= j < idxs.len() && #[trigger] s[idxs[j] + off] == x,
{
    assert forall|x: u32| words.contains(x) <==> exists|j: int| 0 <= j < idxs.len() && #[trigger] s[idxs[j] + off] == x by {
        if words.contains(x) {
            let j = choose|j: int| 0 <= j < words.len() && words[j] == x;
            assert(s[idxs[j] + off] == x);
        }
        if exists|j: int| 0 <= j < idxs.len() && #[trigger] s[idxs[j] + off] == x {
            let j = choose|j: int| 0 <= j < idxs.len() && #[trigger] s[idxs[j] + off] == x;
            assert(words[j] == x);
        }
    }
}

/// Removes the variables of sampled images and samplers that no `OpSampledImage` combines,
/// directly or through a function parameter, together with their decorations and names.
///
/// Always succeeds: overwriting whole instructions keeps the stream a sequence of whole
/// instructions.
pub fn pruneunuseddref(in_spv: &[u32]) -> (r: Result<Vec<u32>, ()>)
    requires
        in_spv@.len() >= spv::SPV_HEADER_LENGTH,
        in_spv@[spv::SPV_HEADER_MAGIC_NUM_OFFSET as int] == spv::SPV_HEADER_MAGIC,
        wf_stream(body_of(in_spv@)),
        loaded_parameters(body_of(in_spv@)).len() > 0 ==> parameters_enclosed(body_of(in_spv@)),
    ensures
        r matches Ok(out)
            && out@ == in_spv@.subrange(0, spv::SPV_HEADER_LENGTH as int) + strip_nops(pruned_body(body_of(in_spv@))),
        tiles(pruned_body(body_of(in_spv@))),
{
    let ghost s = body_of(in_spv@);
    let instruction_bound = in_spv[spv::SPV_HEADER_INSTRUCTION_BOUND_OFFSET];
    let spv_header = vstd::slice::slice_to_vec(slice_subrange(in_spv, 0, spv::SPV_HEADER_LENGTH));
    let spv = vstd::slice::slice_to_vec(slice_subrange(in_spv, spv::SPV_HEADER_LENGTH, in_spv.len()));
    assert(spv@ == s);
    let mut new_spv = vstd::slice::slice_to_vec(slice_subrange(in_spv, spv::SPV_HEADER_LENGTH, in_spv.len()));

    // 1. Find the instructions we need
    proof {
        lemma_tiles_terminates(s, 0);
        lemma_op_starts_reach(s, spv::SPV_INSTRUCTION_OP_TYPE_POINTER as int);
        lemma_op_starts_reach(s, spv::SPV_INSTRUCTION_OP_TYPE_IMAGE as int);
        lemma_op_starts_reach(s, spv::SPV_INSTRUCTION_OP_TYPE_SAMPLER as int);
        lemma_op_starts_reach(s, spv::SPV_INSTRUCTION_OP_SAMPLED_IMAGE as int);
        lemma_op_starts_reach(s, spv::SPV_INSTRUCTION_OP_VARIABLE as int);
        lemma_op_starts_reach(s, spv::SPV_INSTRUCTION_OP_LOAD as int);
        lemma_op_starts_reach(s, spv::SPV_INSTRUCTION_OP_FUNCTION as int);
        lemma_op_starts_reach(s, spv::SPV_INSTRUCTION_OP_FUNCTION_PARAMETER as int);
        lemma_op_starts_reach(s, spv::SPV_INSTRUCTION_OP_FUNCTION_CALL as int);
        lemma_op_starts_reach(s, spv::SPV_INSTRUCTION_OP_DECORATE as int);
        lemma_op_starts_reach(s, spv::SPV_INSTRUCTION_OP_NAME as int);
    }
    let op_type_pointer_idxs = instruction_idxs(&spv, spv::SPV_INSTRUCTION_OP_TYPE_POINTER);
    let op_type_image_idxs = instruction_idxs(&spv, spv::SPV_INSTRUCTION_OP_TYPE_IMAGE);
    let op_type_sampler_idxs = instruction_idxs(&spv, spv::SPV_INSTRUCTION_OP_TYPE_SAMPLER);
    let op_sampled_image_idxs = instruction_idxs(&spv, spv::SPV_INSTRUCTION_OP_SAMPLED_IMAGE);
    let op_variable_idxs = instruction_idxs(&spv, spv::SPV_INSTRUCTION_OP_VARIABLE);
    let op_load_idxs = instruction_idxs(&spv, spv::SPV_INSTRUCTION_OP_LOAD);
    let op_function_parameter_idxs = instruction_idxs(&spv, spv::SPV_INSTRUCTION_OP_FUNCTION_PARAMETER);
    let op_function_call_idxs = instruction_idxs(&spv, spv::SPV_INSTRUCTION_OP_FUNCTION_CALL);
    let op_decorate_idxs = instruction_idxs(&spv, spv::SPV_INSTRUCTION_OP_DECORATE);
    let op_name_idxs = instruction_idxs(&spv, spv::SPV_INSTRUCTION_OP_NAME);

    let sampler_ids = collect_words(&spv, &op_type_sampler_idxs, 1);
    let mut sampled = collect_words(&spv, &op_sampled_image_idxs, 3);
    let mut sampled_samplers = collect_words(&spv, &op_sampled_image_idxs, 4);
    let load_pointers = collect_words(&spv, &op_load_idxs, 3);
    proof {
        lemma_words_listed(s, op_type_sampler_idxs@, 1, sampler_ids@);
        lemma_words_listed(s, op_sampled_image_idxs@, 3, sampled@);
        lemma_words_listed(s, op_sampled_image_idxs@, 4, sampled_samplers@);
        lemma_words_listed(s, op_load_idxs@, 3, load_pointers@);
    }
    let ghost images = sampled@;
    let ghost samplers = sampled_samplers@;
    sampled.append(&mut sampled_samplers);
    proof {
        assert forall|x: u32| sampled@.contains(x) <==> sampled_ids(s).contains(x) by {
            assert(sampled@ == images + samplers);
            vstd::seq_lib::lemma_seq_concat_contains_all_elements(images, samplers, x);
            if images.contains(x) {
                let j = choose|j: int| 0 <= j < op_sampled_image_idxs@.len() && #[trigger] s[op_sampled_image_idxs@[j] + 3] == x;
                assert(s[idxs_of(s, spv::SPV_INSTRUCTION_OP_SAMPLED_IMAGE)[j] + 3] == x);
            }
            if samplers.contains(x) {
                let j = choose|j: int| 0 <= j < op_sampled_image_idxs@.len() && #[trigger] s[op_sampled_image_idxs@[j] + 4] == x;
                assert(s[idxs_of(s, spv::SPV_INSTRUCTION_OP_SAMPLED_IMAGE)[j] + 4] == x);
            }
            if sampled_ids(s).contains(x) {
                let j = choose|j: int| 0 <= j < idxs_of(s, spv::SPV_INSTRUCTION_OP_SAMPLED_IMAGE).len() && {
                    let i = #[trigger] idxs_of(s, spv::SPV_INSTRUCTION_OP_SAMPLED_IMAGE)[j];
                    s[i + 3] == x || s[i + 4] == x
                };
                if s[op_sampled_image_idxs@[j] + 3] == x {
                    assert(images.contains(x));
                } else {
                    assert(samplers.contains(x));
                }
            }
        }
    }

    // 2. Find the pointer types to sampled images and samplers
    let opaque_pointers = find_opaque_pointer_ids(&spv, &op_type_pointer_idxs, &op_type_image_idxs, &sampler_ids);

    // 3. Find the variables of those pointer types
    let opaque_flags = opaque_variable_flags(&spv, &op_variable_idxs, &opaque_pointers);
    let opaque_ids = opaque_variable_id_list(&spv, &op_variable_idxs, &opaque_flags);

    // 4. Find the variables loaded into sampled images
    let mut used = direct_uses(&spv, &op_load_idxs, &sampled, &opaque_ids);

    // 5. Find the function parameters that are loaded from
    let loaded_params = loaded_parameter_list(&spv, &op_function_parameter_idxs, &load_pointers);

    // 6. Trace the variables passed for those parameters
    let ghost direct = used@;
    if loaded_params.len() > 0 {
        proof {
            assert forall|j: int| 0 <= j < functions_of(s).len() implies #[trigger] functions_of(s)[j] + 2 < s.len() by {
                assert(functions_of(s)[j] + 4 < s.len());
            }
            lemma_tiles_inside(s, 0);
            assert forall|j: int| 0 <= j < op_function_call_idxs@.len() implies #[trigger] op_function_call_idxs@[j] + 3 < s.len()
                && op_function_call_idxs@[j] + wc_at(s, op_function_call_idxs@[j] as int) <= s.len() by {
                let x = op_function_call_idxs@[j];
                assert(starts(s).contains(x));
                let q = choose|q: int| 0 <= q < starts(s).len() && starts(s)[q] == x;
                assert(starts_from(s, 0)[q] + wc_at(s, starts_from(s, 0)[q] as int) <= s.len());
            }
            assert(parameters_enclosed(s));
            assert(trace_readable(s, op_variable_idxs@, op_function_parameter_idxs@, op_function_call_idxs@));
        }
        let mut traced = traced_uses(&spv, &op_variable_idxs, &op_function_parameter_idxs, &op_function_call_idxs, &loaded_params);
        let ghost traced_ids = traced@;
        used.append(&mut traced);
        proof {
            assert forall|x: u32| used@.contains(x) <==> used_ids(s).contains(x) by {
                vstd::seq_lib::lemma_seq_concat_contains_all_elements(direct, traced_ids, x);
            }
        }
    } else {
        proof {
            assert forall|x: u32| used@.contains(x) <==> used_ids(s).contains(x) by {
                assert(!passed_to_loaded_parameter(s, x));
            }
        }
    }

    // 7. Find the unused variables, then their decorations and names
    let (mut removed, unused) = unused_variables(&spv, &op_variable_idxs, &opaque_flags, &used);
    let mut unused_decorates = targeting_list(&spv, &op_decorate_idxs, &unused, Ghost(unused_ids(s)));
    let mut unused_names = targeting_list(&spv, &op_name_idxs, &unused, Ghost(unused_ids(s)));
    let ghost rv = removed@;
    let ghost rd = unused_decorates@;
    let ghost rn = unused_names@;
    removed.append(&mut unused_decorates);
    removed.append(&mut unused_names);
    assert(removed@ == removed_instructions(s));

    // 8. Overwrite them
    proof {
        lemma_filter_listed(op_variable_idxs@, |v: usize| unused_variable(s, v));
        lemma_filter_listed(op_decorate_idxs@, |d: usize| unused_ids(s).contains(s[d + 1]));
        lemma_filter_listed(op_name_idxs@, |d: usize| unused_ids(s).contains(s[d + 1]));
        lemma_tiles_inside(s, 0);
        vstd::seq_lib::lemma_seq_concat_contains_all_elements(rv, rd, 0);
        assert forall|j: int| 0 <= j < removed@.len() implies #[trigger] removed@[j] < s.len()
            && removed@[j] + wc_at(s, removed@[j] as int) <= s.len() by {
            let x = removed@[j];
            let l = if j < rv.len() {
                assert(x == rv[j]);
                op_variable_idxs@
            } else if j < rv.len() + rd.len() {
                assert(x == rd[j - rv.len()]);
                op_decorate_idxs@
            } else {
                assert(x == rn[j - rv.len() - rd.len()]);
                op_name_idxs@
            };
            assert(l.contains(x));
            let i = choose|i: int| 0 <= i < l.len() && l[i] == x;
            assert(starts(s).contains(x));
            let q = choose|q: int| 0 <= q < starts(s).len() && starts(s)[q] == x;
            assert(starts_from(s, 0)[q] + wc_at(s, starts_from(s, 0)[q] as int) <= s.len());
            crate::util::instruction::lemma_starts_from_bounds(s, 0);
        }
        assert forall|j: int| 0 <= j < removed@.len() implies starts(s).contains(#[trigger] removed@[j]) by {
            let x = removed@[j];
            if j < rv.len() {
                assert(x == rv[j]);
                assert(op_variable_idxs@.contains(x));
            } else if j < rv.len() + rd.len() {
                assert(x == rd[j - rv.len()]);
                assert(op_decorate_idxs@.contains(x));
            } else {
                assert(x == rn[j - rv.len() - rd.len()]);
                assert(op_name_idxs@.contains(x));
            }
        }
        crate::util::instruction::lemma_nops_over_tiles(s, removed@);
    }
    fill_nops(&mut new_spv, &spv, &removed);
    prune_noops(&mut new_spv);

    // 9. Write the header and the new code
    let out = fuse_final(spv_header, new_spv, instruction_bound);
    assert(out@ == in_spv@.subrange(0, spv::SPV_HEADER_LENGTH as int) + strip_nops(pruned_body(s)));
    Ok(out)
}

} // verus!
