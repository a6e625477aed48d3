use vstd::prelude::*;

use crate::spv;
use crate::util::instruction::{
    fits_in_memory, idxs_reach, instruction_idxs, op_starts, terminates_from, wc_at,
};
use crate::util::spec_hiword;
use crate::util::hiword;

verus! {

/// The last listed offset before `idx`.
pub open spec fn last_before(l: Seq<usize>, idx: usize) -> Option<usize>
    decreases l.len(),
{
    if l.len() == 0 {
        None
    } else if l.last() < idx {
        Some(l.last())
    } else {
        last_before(l.drop_last(), idx)
    }
}

/// The first listed offset after `idx`.
pub open spec fn first_after(l: Seq<usize>, idx: usize) -> Option<usize>
    decreases l.len(),
{
    if l.len() == 0 {
        None
    } else if l[0] > idx {
        Some(l[0])
    } else {
        first_after(l.drop_first(), idx)
    }
}

pub open spec fn functions_of(s: Seq<u32>) -> Seq<usize> {
    op_starts(s, spv::SPV_INSTRUCTION_OP_FUNCTION as int)
}

pub open spec fn parameters_of(s: Seq<u32>) -> Seq<usize> {
    op_starts(s, spv::SPV_INSTRUCTION_OP_FUNCTION_PARAMETER as int)
}

/// The `OpFunction` whose definition holds the instruction at `idx`.
pub open spec fn enclosing_function(s: Seq<u32>, idx: usize) -> Option<usize> {
    last_before(functions_of(s), idx)
}

/// The first `OpLabel` of the function holding the instruction at `idx`: where the function's
/// local variables go.
pub open spec fn function_label(s: Seq<u32>, idx: usize) -> Option<usize> {
    match enclosing_function(s, idx) {
        Some(f) => first_after(op_starts(s, spv::SPV_INSTRUCTION_OP_LABEL as int), f),
        None => None,
    }
}

/// A function parameter, named by its function's id and its position among the parameters.
#[derive(Debug, Clone, Copy, PartialEq, Eq, Structural)]
pub struct FunctionParameterEntry {
    pub function_id: u32,
    pub parameter_index: usize,
}

/// The entry of the `OpFunctionParameter` at `p`.
pub open spec fn parameter_entry(s: Seq<u32>, p: usize) -> FunctionParameterEntry {
    let f = enclosing_function(s, p)->0;
    FunctionParameterEntry {
        function_id: s[f + 2],
        parameter_index: parameters_of(s).filter(|x: usize| f < x && x < p).len() as usize,
    }
}

fn find_last_before(l: &Vec<usize>, idx: usize) -> (r: Option<usize>)
    ensures
        r == last_before(l@, idx),
{
    let mut j: usize = l.len();
    assert(l@.take(j as int) =~= l@);
    while j > 0
        invariant
            j <= l@.len(),
            last_before(l@, idx) == last_before(l@.take(j as int), idx),
        decreases j,
    {
        assert(l@.take(j as int).last() == l@[j - 1]);
        if l[j - 1] < idx {
            return Some(l[j - 1]);
        }
        assert(l@.take(j as int).drop_last() =~= l@.take(j - 1));
        j = j - 1;
    }
    assert(l@.take(0) =~= Seq::<usize>::empty());
    None
}

fn find_first_after(l: &Vec<usize>, idx: usize) -> (r: Option<usize>)
    ensures
        r == first_after(l@, idx),
{
    let mut j: usize = 0;
    assert(l@.skip(0) =~= l@);
    while j < l.len()
        invariant
            j <= l@.len(),
            first_after(l@, idx) == first_after(l@.skip(j as int), idx),
        decreases l@.len() - j,
    {
        assert(l@.skip(j as int)[0] == l@[j as int]);
        if l[j] > idx {
            return Some(l[j]);
        }
        assert(l@.skip(j as int).drop_first() =~= l@.skip(j + 1));
        j = j + 1;
    }
    assert(l@.skip(j as int) =~= Seq::<usize>::empty());
    None
}

/// The offset of the first `OpLabel` of the function holding the instruction at `idx`.
pub fn get_function_label_index_of_instruction_index(spv: &[u32], idx: usize) -> (r: usize)
    requires
        terminates_from(spv@, 0),
        fits_in_memory(spv@),
        function_label(spv@, idx) is Some,
    ensures
        Some(r) == function_label(spv@, idx),
{
    let functions = instruction_idxs(spv, spv::SPV_INSTRUCTION_OP_FUNCTION);
    let labels = instruction_idxs(spv, spv::SPV_INSTRUCTION_OP_LABEL);
    let f = find_last_before(&functions, idx).unwrap();
    find_first_after(&labels, f).unwrap()
}

/// The offset of the first `OpLabel` of the function holding the instruction at `idx`, if
/// there is one.
pub fn find_function_label(spv: &[u32], idx: usize) -> (r: Option<usize>)
    requires
        terminates_from(spv@, 0),
        fits_in_memory(spv@),
    ensures
        r == function_label(spv@, idx),
{
    let functions = instruction_idxs(spv, spv::SPV_INSTRUCTION_OP_FUNCTION);
    let labels = instruction_idxs(spv, spv::SPV_INSTRUCTION_OP_LABEL);
    match find_last_before(&functions, idx) {
        Some(f) => find_first_after(&labels, f),
        None => None,
    }
}

fn count_between(l: &Vec<usize>, lo: usize, hi: usize) -> (r: usize)
    ensures
        r == l@.filter(|x: usize| lo < x && x < hi).len(),
{
    let ghost pred = |x: usize| lo < x && x < hi;
    let mut n: usize = 0;
    let mut j: usize = 0;
    assert(l@.take(0) =~= Seq::<usize>::empty());
    while j < l.len()
        invariant
            j <= l@.len(),
            pred == (|x: usize| lo < x && x < hi),
            n == l@.take(j as int).filter(pred).len(),
            n <= j,
        decreases l@.len() - j,
    {
        proof {
            assert(l@.take(j + 1) =~= l@.take(j as int).push(l@[j as int]));
            l@.take(j as int).lemma_filter_push(l@[j as int], pred);
        }
        if lo < l[j] && l[j] < hi {
            n = n + 1;
        }
        j = j + 1;
    }
    assert(l@.take(j as int) =~= l@);
    n
}

/// The offset of the `OpFunction` whose definition holds the instruction at `idx`.
pub fn get_enclosing_function_index(spv: &[u32], idx: usize) -> (r: Option<usize>)
    requires
        terminates_from(spv@, 0),
        fits_in_memory(spv@),
    ensures
        r == enclosing_function(spv@, idx),
{
    let functions = instruction_idxs(spv, spv::SPV_INSTRUCTION_OP_FUNCTION);
    find_last_before(&functions, idx)
}

/// The entry of the function parameter declared at `fp_idx`.
pub fn get_function_from_parameter(spv: &[u32], fp_idx: usize) -> (r: FunctionParameterEntry)
    requires
        terminates_from(spv@, 0),
        fits_in_memory(spv@),
        enclosing_function(spv@, fp_idx) is Some,
        idxs_reach(spv@, functions_of(spv@), 2),
    ensures
        r == parameter_entry(spv@, fp_idx),
{
    let functions = instruction_idxs(spv, spv::SPV_INSTRUCTION_OP_FUNCTION);
    let parameters = instruction_idxs(spv, spv::SPV_INSTRUCTION_OP_FUNCTION_PARAMETER);
    let f = find_last_before(&functions, fp_idx).unwrap();
    proof {
        lemma_last_before_listed(functions@, fp_idx);
        let j = choose|j: int| 0 <= j < functions@.len() && functions@[j] == f;
        assert(functions@[j] + 2 < spv@.len());
    }
    FunctionParameterEntry { function_id: spv[f + 2], parameter_index: count_between(&parameters, f, fp_idx) }
}

pub proof fn lemma_first_after_listed(l: Seq<usize>, idx: usize)
    requires
        first_after(l, idx) is Some,
    ensures
        l.contains(first_after(l, idx)->0),
    decreases l.len(),
{
    if l[0] <= idx {
        lemma_first_after_listed(l.drop_first(), idx);
        let j = choose|j: int| 0 <= j < l.drop_first().len() && l.drop_first()[j] == first_after(l, idx)->0;
        assert(l[j + 1] == first_after(l, idx)->0);
    } else {
        assert(l[0] == first_after(l, idx)->0);
    }
}

pub proof fn lemma_last_before_listed(l: Seq<usize>, idx: usize)
    requires
        last_before(l, idx) is Some,
    ensures
        l.contains(last_before(l, idx)->0),
        last_before(l, idx)->0 < idx,
    decreases l.len(),
{
    if l.last() >= idx {
        lemma_last_before_listed(l.drop_last(), idx);
        let j = choose|j: int| 0 <= j < l.drop_last().len() && l.drop_last()[j] == last_before(l, idx)->0;
        assert(l[j] == last_before(l, idx)->0);
    } else {
        assert(l[l.len() - 1] == l.last());
    }
}


/// The argument at position `k` of the `OpFunctionCall` at `c`, when it has one.
pub open spec fn call_argument(s: Seq<u32>, c: usize, k: usize) -> Option<u32> {
    if 4 + k < wc_at(s, c as int) {
        Some(s[c + 4 + k])
    } else {
        None
    }
}

/// Some listed call of `e`'s function passes `id` for `e`'s parameter.
pub open spec fn passes_to(s: Seq<u32>, calls: Seq<usize>, e: FunctionParameterEntry, id: u32) -> bool {
    exists|j: int| 0 <= j < calls.len() && s[calls[j] + 3] == e.function_id
        && #[trigger] call_argument(s, calls[j], e.parameter_index) == Some(id)
}

/// Some entry of `es` receives `id` from a call.
pub open spec fn some_entry_passes(s: Seq<u32>, calls: Seq<usize>, es: Set<FunctionParameterEntry>, id: u32) -> bool {
    exists|e: FunctionParameterEntry| es.contains(e) && #[trigger] passes_to(s, calls, e, id)
}

/// The entries one step further: those of the parameters that a call to a reached entry
/// passes for it.
pub open spec fn next_entries(s: Seq<u32>, params: Seq<usize>, calls: Seq<usize>, es: Set<FunctionParameterEntry>)
    -> Set<FunctionParameterEntry>
{
    es + Set::new(|e2: FunctionParameterEntry| exists|j: int| 0 <= j < params.len()
        && e2 == #[trigger] parameter_entry(s, params[j]) && some_entry_passes(s, calls, es, s[params[j] + 2]))
}

/// The parameters reached from `e` in `k` steps through calls.
pub open spec fn reached_entries(s: Seq<u32>, params: Seq<usize>, calls: Seq<usize>, e: FunctionParameterEntry, k: nat)
    -> Set<FunctionParameterEntry>
    decreases k,
{
    if k == 0 {
        set![e]
    } else {
        next_entries(s, params, calls, reached_entries(s, params, calls, e, (k - 1) as nat))
    }
}

/// The variables whose ids calls pass, directly or through other function parameters, for
/// the parameter `e`, in list order.
pub open spec fn traced_variables(s: Seq<u32>, vars: Seq<usize>, params: Seq<usize>, calls: Seq<usize>, e: FunctionParameterEntry)
    -> Seq<usize>
{
    let es = reached_entries(s, params, calls, e, (params.len() + 1) as nat);
    vars.filter(|v: usize| some_entry_passes(s, calls, es, s[v + 2]))
}

/// The calls of the functions whose parameters were reached, in list order.
pub open spec fn traced_calls(s: Seq<u32>, params: Seq<usize>, calls: Seq<usize>, e: FunctionParameterEntry) -> Seq<usize> {
    let es = reached_entries(s, params, calls, e, (params.len() + 1) as nat);
    calls.filter(|c: usize| exists|e2: FunctionParameterEntry| es.contains(e2) && e2.function_id == s[c + 3])
}

/// Every listed call is whole and names its callee.
pub open spec fn calls_readable(s: Seq<u32>, calls: Seq<usize>) -> bool {
    forall|j: int| 0 <= j < calls.len() ==> #[trigger] calls[j] + 3 < s.len()
        && calls[j] + wc_at(s, calls[j] as int) <= s.len()
}

pub struct TraceFunctionArgumentToVariablesIn<'a> {
    pub spv: &'a [u32],
    pub op_variable_idxs: &'a [usize],
    pub op_function_parameter_idxs: &'a [usize],
    pub op_function_call_idxs: &'a [usize],
    pub entry: FunctionParameterEntry,
    pub traced_function_call_idxs: &'a mut Vec<usize>,
}

fn entry_passes(spv: &[u32], calls: &[usize], e: FunctionParameterEntry, id: u32) -> (r: bool)
    requires
        calls_readable(spv@, calls@),
    ensures
        r == passes_to(spv@, calls@, e, id),
{
    let mut j: usize = 0;
    while j < calls.len()
        invariant
            j <= calls@.len(),
            calls_readable(spv@, calls@),
            forall|i: int| 0 <= i < j ==> !(spv@[calls@[i] + 3] == e.function_id
                && #[trigger] call_argument(spv@, calls@[i], e.parameter_index) == Some(id)),
        decreases calls@.len() - j,
    {
        let c = calls[j];
        assert(calls@[j as int] + 3 < spv@.len());
        assert(spv@.len() == spv.len());
        let word_count = hiword(spv[c]) as usize;
        if spv[c + 3] == e.function_id && e.parameter_index < word_count && word_count - e.parameter_index > 4 {
            if spv[c + 4 + e.parameter_index] == id {
                assert(call_argument(spv@, calls@[j as int], e.parameter_index) == Some(id));
                return true;
            }
        }
        j = j + 1;
    }
    false
}

fn any_entry_passes(spv: &[u32], calls: &[usize], es: &Vec<FunctionParameterEntry>, id: u32) -> (r: bool)
    requires
        calls_readable(spv@, calls@),
    ensures
        r == some_entry_passes(spv@, calls@, es@.to_set(), id),
{
    let mut j: usize = 0;
    while j < es.len()
        invariant
            j <= es@.len(),
            calls_readable(spv@, calls@),
            forall|i: int| 0 <= i < j ==> !passes_to(spv@, calls@, #[trigger] es@[i], id),
        decreases es@.len() - j,
    {
        if entry_passes(spv, calls, es[j], id) {
            assert(es@.to_set().contains(es@[j as int]));
            return true;
        }
        j = j + 1;
    }
    proof {
        if some_entry_passes(spv@, calls@, es@.to_set(), id) {
            let e = choose|e: FunctionParameterEntry| es@.to_set().contains(e) && #[trigger] passes_to(spv@, calls@, e, id);
            let i = choose|i: int| 0 <= i < es@.len() && es@[i] == e;
            assert(!passes_to(spv@, calls@, es@[i], id));
        }
    }
    false
}


/// What tracing reads of a stream: whole calls, variables and parameters with their ids,
/// and each parameter inside a function.
pub open spec fn trace_readable(s: Seq<u32>, vars: Seq<usize>, params: Seq<usize>, calls: Seq<usize>) -> bool {
    &&& terminates_from(s, 0)
    &&& fits_in_memory(s)
    &&& calls_readable(s, calls)
    &&& idxs_reach(s, vars, 2)
    &&& idxs_reach(s, params, 2)
    &&& idxs_reach(s, functions_of(s), 2)
    &&& forall|j: int| 0 <= j < params.len() ==> (#[trigger] enclosing_function(s, params[j])) is Some
}

fn next_round(
    spv: &[u32],
    calls: &[usize],
    params: &[usize],
    param_entries: &Vec<FunctionParameterEntry>,
    es: &Vec<FunctionParameterEntry>,
) -> (r: Vec<FunctionParameterEntry>)
    requires
        calls_readable(spv@, calls@),
        idxs_reach(spv@, params@, 2),
        param_entries@.len() == params@.len(),
        forall|j: int| 0 <= j < params@.len() ==> #[trigger] param_entries@[j] == parameter_entry(spv@, params@[j]),
    ensures
        r@.to_set() == next_entries(spv@, params@, calls@, es@.to_set()),
{
    let ghost es_set = es@.to_set();
    let mut next: Vec<FunctionParameterEntry> = Vec::new();
    let mut i: usize = 0;
    while i < es.len()
        invariant
            i <= es@.len(),
            next@ == es@.take(i as int),
        decreases es@.len() - i,
    {
        next.push(es[i]);
        assert(es@.take(i + 1) =~= es@.take(i as int).push(es@[i as int]));
        i = i + 1;
    }
    assert(es@.take(i as int) =~= es@);
    let mut j: usize = 0;
    while j < params.len()
        invariant
            j <= params@.len(),
            calls_readable(spv@, calls@),
            idxs_reach(spv@, params@, 2),
            param_entries@.len() == params@.len(),
            forall|k: int| 0 <= k < params@.len() ==> #[trigger] param_entries@[k] == parameter_entry(spv@, params@[k]),
            es_set == es@.to_set(),
            next@.to_set() == es_set + Set::new(|e2: FunctionParameterEntry| exists|k: int| 0 <= k < j
                && e2 == #[trigger] parameter_entry(spv@, params@[k]) && some_entry_passes(spv@, calls@, es_set, spv@[params@[k] + 2])),
        decreases params@.len() - j,
    {
        let p = params[j];
        assert(params@[j as int] + 2 < spv@.len());
        assert(spv@.len() == spv.len());
        let ghost before = next@;
        let passes = any_entry_passes(spv, calls, es, spv[p + 2]);
        if passes {
            next.push(param_entries[j]);
        }
        proof {
            let old_new = Set::new(|e2: FunctionParameterEntry| exists|k: int| 0 <= k < j
                && e2 == #[trigger] parameter_entry(spv@, params@[k]) && some_entry_passes(spv@, calls@, es_set, spv@[params@[k] + 2]));
            let new_new = Set::new(|e2: FunctionParameterEntry| exists|k: int| 0 <= k < j + 1
                && e2 == #[trigger] parameter_entry(spv@, params@[k]) && some_entry_passes(spv@, calls@, es_set, spv@[params@[k] + 2]));
            if passes {
                assert(new_new =~= old_new.insert(param_entries@[j as int])) by {
                    assert forall|e2: FunctionParameterEntry| new_new.contains(e2) <==> old_new.insert(param_entries@[j as int]).contains(e2) by {
                        if new_new.contains(e2) {
                            let k = choose|k: int| 0 <= k < j + 1 && e2 == #[trigger] parameter_entry(spv@, params@[k])
                                && some_entry_passes(spv@, calls@, es_set, spv@[params@[k] + 2]);
                            if k < j {
                                assert(old_new.contains(e2));
                            }
                        }
                        if old_new.contains(e2) {
                            let k = choose|k: int| 0 <= k < j && e2 == #[trigger] parameter_entry(spv@, params@[k])
                                && some_entry_passes(spv@, calls@, es_set, spv@[params@[k] + 2]);
                            assert(new_new.contains(e2));
                        }
                        if e2 == param_entries@[j as int] {
                            assert(e2 == parameter_entry(spv@, params@[j as int]));
                            assert(new_new.contains(e2));
                        }
                    }
                }
                assert(next@.to_set() =~= before.to_set().insert(param_entries@[j as int])) by {
                    assert forall|e2: FunctionParameterEntry| next@.to_set().contains(e2) <==> before.to_set().insert(param_entries@[j as int]).contains(e2) by {
                        if next@.contains(e2) {
                            let k = choose|k: int| 0 <= k < next@.len() && next@[k] == e2;
                            if k < before.len() {
                                assert(before[k] == e2);
                            }
                        }
                        if before.contains(e2) {
                            let k = choose|k: int| 0 <= k < before.len() && before[k] == e2;
                            assert(next@[k] == e2);
                        }
                        if e2 == param_entries@[j as int] {
                            assert(next@[before.len() as int] == e2);
                        }
                    }
                }
                assert(next@.to_set() =~= es_set + new_new);
            } else {
                assert(new_new =~= old_new) by {
                    assert forall|e2: FunctionParameterEntry| new_new.contains(e2) implies old_new.contains(e2) by {
                        let k = choose|k: int| 0 <= k < j + 1 && e2 == #[trigger] parameter_entry(spv@, params@[k])
                            && some_entry_passes(spv@, calls@, es_set, spv@[params@[k] + 2]);
                        if k == j {
                            assert(false);
                        }
                    }
                }
            }
        }
        j = j + 1;
    }
    proof {
        assert(next@.to_set() =~= next_entries(spv@, params@, calls@, es_set));
    }
    next
}

/// The variables whose ids calls pass, directly or through the parameters of other
/// functions, for the parameter `entry`; the calls of every function reached are appended
/// to `traced_function_call_idxs`.
pub fn trace_function_argument_to_variables(t_in: TraceFunctionArgumentToVariablesIn) -> (r: Vec<usize>)
    requires
        trace_readable(t_in.spv@, t_in.op_variable_idxs@, t_in.op_function_parameter_idxs@, t_in.op_function_call_idxs@),
    ensures
        r@ == traced_variables(t_in.spv@, t_in.op_variable_idxs@, t_in.op_function_parameter_idxs@,
            t_in.op_function_call_idxs@, t_in.entry),
        final(t_in.traced_function_call_idxs)@ == old(t_in.traced_function_call_idxs)@
            + traced_calls(t_in.spv@, t_in.op_function_parameter_idxs@, t_in.op_function_call_idxs@, t_in.entry),
{
    let TraceFunctionArgumentToVariablesIn {
        spv,
        op_variable_idxs,
        op_function_parameter_idxs,
        op_function_call_idxs,
        entry,
        traced_function_call_idxs,
    } = t_in;
    let ghost s = spv@;
    let ghost params = op_function_parameter_idxs@;
    let ghost calls = op_function_call_idxs@;
    let ghost vars = op_variable_idxs@;
    let mut param_entries: Vec<FunctionParameterEntry> = Vec::new();
    let mut j: usize = 0;
    while j < op_function_parameter_idxs.len()
        invariant
            s == spv@,
            params == op_function_parameter_idxs@,
            trace_readable(s, vars, params, calls),
            j <= params.len(),
            param_entries@.len() == j,
            forall|k: int| 0 <= k < j ==> #[trigger] param_entries@[k] == parameter_entry(s, params[k]),
        decreases params.len() - j,
    {
        assert(enclosing_function(s, params[j as int]) is Some);
        param_entries.push(get_function_from_parameter(spv, op_function_parameter_idxs[j]));
        j = j + 1;
    }
    let mut es: Vec<FunctionParameterEntry> = Vec::new();
    es.push(entry);
    proof {
        assert(es@ =~= seq![entry]);
        assert(es@.to_set() =~= set![entry]) by {
            assert forall|x: FunctionParameterEntry| es@.to_set().contains(x) <==> set![entry].contains(x) by {
                if x == entry {
                    assert(es@[0] == x);
                }
            }
        }
    }
    let mut round: usize = 0;
    loop
        invariant_except_break
            round <= params.len(),
            es@.to_set() == reached_entries(s, params, calls, entry, round as nat),
        invariant
            s == spv@,
            params == op_function_parameter_idxs@,
            calls == op_function_call_idxs@,
            trace_readable(s, vars, params, calls),
            param_entries@.len() == params.len(),
            forall|k: int| 0 <= k < params.len() ==> #[trigger] param_entries@[k] == parameter_entry(s, params[k]),
        ensures
            es@.to_set() == reached_entries(s, params, calls, entry, (params.len() + 1) as nat),
        decreases params.len() - round,
    {
        es = next_round(spv, op_function_call_idxs, op_function_parameter_idxs, &param_entries, &es);
        if round == op_function_parameter_idxs.len() {
            break;
        }
        round = round + 1;
    }
    let ghost es_set = es@.to_set();
    assert(es_set == reached_entries(s, params, calls, entry, (params.len() + 1) as nat));
    let ghost vpred = |v: usize| some_entry_passes(s, calls, es_set, s[v + 2]);
    let mut out: Vec<usize> = Vec::new();
    let mut k: usize = 0;
    assert(vars.take(0) =~= Seq::<usize>::empty());
    while k < op_variable_idxs.len()
        invariant
            s == spv@,
            vars == op_variable_idxs@,
            calls == op_function_call_idxs@,
            trace_readable(s, vars, params, calls),
            es_set == es@.to_set(),
            vpred == (|v: usize| some_entry_passes(s, calls, es_set, s[v + 2])),
            k <= vars.len(),
            out@ == vars.take(k as int).filter(vpred),
        decreases vars.len() - k,
    {
        let v = op_variable_idxs[k];
        assert(vars[k as int] + 2 < s.len());
        assert(s.len() == spv.len());
        proof {
            assert(vars.take(k + 1) =~= vars.take(k as int).push(v));
            vars.take(k as int).lemma_filter_push(v, vpred);
        }
        if any_entry_passes(spv, op_function_call_idxs, &es, spv[v + 2]) {
            out.push(v);
        }
        k = k + 1;
    }
    assert(vars.take(k as int) =~= vars);
    let ghost base = traced_function_call_idxs@;
    let ghost cpred = |c: usize| exists|e2: FunctionParameterEntry| es_set.contains(e2) && e2.function_id == s[c + 3];
    let mut k: usize = 0;
    assert(calls.take(0) =~= Seq::<usize>::empty());
    while k < op_function_call_idxs.len()
        invariant
            s == spv@,
            calls == op_function_call_idxs@,
            trace_readable(s, vars, params, calls),
            es_set == es@.to_set(),
            cpred == (|c: usize| exists|e2: FunctionParameterEntry| es_set.contains(e2) && e2.function_id == s[c + 3]),
            k <= calls.len(),
            traced_function_call_idxs@ == base + calls.take(k as int).filter(cpred),
        decreases calls.len() - k,
    {
        let c = op_function_call_idxs[k];
        assert(calls[k as int] + 3 < s.len());
        assert(s.len() == spv.len());
        proof {
            assert(calls.take(k + 1) =~= calls.take(k as int).push(c));
            calls.take(k as int).lemma_filter_push(c, cpred);
        }
        let callee = spv[c + 3];
        let mut found = false;
        let mut i: usize = 0;
        while i < es.len()
            invariant
                i <= es@.len(),
                found == exists|q: int| 0 <= q < i && es@[q].function_id == callee,
            decreases es@.len() - i,
        {
            if es[i].function_id == callee {
                found = true;
            }
            i = i + 1;
        }
        proof {
            if found {
                let q = choose|q: int| 0 <= q < i && es@[q].function_id == callee;
                assert(es_set.contains(es@[q]));
            } else {
                if cpred(c) {
                    let e2 = choose|e2: FunctionParameterEntry| es_set.contains(e2) && e2.function_id == s[c + 3];
                    let q = choose|q: int| 0 <= q < es@.len() && es@[q] == e2;
                    assert(false);
                }
            }
        }
        if found {
            traced_function_call_idxs.push(c);
        }
        proof {
            assert(traced_function_call_idxs@ =~= base + calls.take(k + 1).filter(cpred));
        }
        k = k + 1;
    }
    assert(calls.take(k as int) =~= calls);
    out
}

} // verus!
