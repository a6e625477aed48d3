use vstd::prelude::*;

use crate::spv;
use crate::splitbindingarray::inc;
use crate::splitbindingarray::rechain_instructions::{
    rechain_prefix, ends_with_result, rechain_instructions_with_target_id, rechain_temps, rechained,
};
use crate::util::instruction::{fits_in_memory, starts, starts_from, terminates_from};
use crate::util::{encode_word, spec_encode_word, spec_loword};

verus! {

/// The case values and labels of an `OpSwitch`: `0 %labels[0] 1 %labels[1] ...`.
pub open spec fn switch_targets(labels: Seq<u32>) -> Seq<u32> {
    Seq::new(2 * labels.len(), |j: int| if j % 2 == 0 { (j / 2) as u32 } else { labels[j / 2] })
}

/// The value and parent label pairs of an `OpPhi`.
pub open spec fn phi_pairs(outputs: Seq<u32>, labels: Seq<u32>) -> Seq<u32> {
    Seq::new(2 * labels.len(), |j: int| if j % 2 == 0 { outputs[j / 2] } else { labels[j / 2] })
}

/// The output of a rechained copy of `snippet`: the result id of its last instruction, when
/// it has one.
pub open spec fn rechain_output(snippet: Seq<u32>, copy: Seq<u32>) -> Option<u32> {
    if ends_with_result(snippet) {
        Some(copy[starts(snippet).last() + 2])
    } else {
        None
    }
}

/// The first `k` cases of a switch over copies of `snippet`, case `i` labelled `labels[i]`
/// and rechained onto `base + i`, the ids taken from `ib`: their words, their outputs and
/// the next free id; `None` when a copy cannot be rechained.
pub open spec fn rechain_cases(
    snippet: Seq<u32>,
    flip: bool,
    rotate: bool,
    base: int,
    labels: Seq<u32>,
    merge: u32,
    ib: int,
    k: int,
) -> Option<(Seq<u32>, Seq<u32>, int)>
    decreases k,
{
    if k <= 0 {
        Some((Seq::empty(), Seq::empty(), ib))
    } else {
        match rechain_cases(snippet, flip, rotate, base, labels, merge, ib, k - 1) {
            None => None,
            Some(prev) => match rechained(snippet, prev.2 as u32, (base + k - 1) as u32, flip, rotate) {
                None => None,
                Some(c) => Some((
                    prev.0 + seq![spec_encode_word(2, spv::SPV_INSTRUCTION_OP_LABEL), labels[k - 1]] + c
                        + seq![spec_encode_word(2, spv::SPV_INSTRUCTION_OP_BRANCH), merge],
                    match rechain_output(snippet, c) {
                        Some(o) => prev.1.push(o),
                        None => prev.1,
                    },
                    prev.2 + rechain_temps(snippet),
                )),
            },
        }
    }
}

/// A switch on `index_id` over `length` copies of `snippet`, the copy of case `i` rechained
/// onto `base + i` and the default one onto `base`, with the ids from `ib`; when a result is
/// asked for, an `OpPhi` gathers the outputs into it. Its words and the next free id.
pub open spec fn rechain_select(
    snippet: Seq<u32>,
    flip: bool,
    rotate: bool,
    ib: int,
    base: u32,
    index_id: u32,
    length: int,
    result: Option<(u32, u32)>,
) -> Option<(Seq<u32>, int)> {
    let labels = Seq::new(length as nat, |i: int| (ib + i) as u32);
    let default = (ib + length) as u32;
    let merge = (ib + length + 1) as u32;
    let head = seq![
        spec_encode_word(3, spv::SPV_INSTRUCTION_OP_SELECTION_MERGE), merge, spv::SPV_SELECTION_CONTROL_NONE,
        spec_encode_word((3 + 2 * length) as u16, spv::SPV_INSTRUCTION_OP_SWITCH), index_id, default,
    ] + switch_targets(labels);
    match rechain_cases(snippet, flip, rotate, base as int, labels, merge, ib + length + 2, length) {
        None => None,
        Some(cases) => match rechained(snippet, cases.2 as u32, base, flip, rotate) {
            None => None,
            Some(d) => {
                let body = head + cases.0 + seq![spec_encode_word(2, spv::SPV_INSTRUCTION_OP_LABEL), default] + d
                    + seq![spec_encode_word(2, spv::SPV_INSTRUCTION_OP_BRANCH), merge,
                        spec_encode_word(2, spv::SPV_INSTRUCTION_OP_LABEL), merge];
                match result {
                    None => Some((body, cases.2 + rechain_temps(snippet))),
                    Some(rt) => Some((body + seq![
                        spec_encode_word((3 + 2 * (length + 1)) as u16, spv::SPV_INSTRUCTION_OP_PHI), rt.0, rt.1,
                    ] + phi_pairs(cases.1, labels) + seq![rechain_output(snippet, d)->0, default],
                        cases.2 + rechain_temps(snippet))),
                }
            },
        },
    }
}

/// Rechaining keeps the snippet's length.
proof fn lemma_rechain_prefix_len(s: Seq<u32>, k: int, ib0: u32, target: u32, flip: bool, rotate: bool)
    requires
        rechain_prefix(s, k, ib0, target, flip, rotate) is Some,
    ensures
        rechain_prefix(s, k, ib0, target, flip, rotate)->Some_0.len() == s.len(),
    decreases k,
{
    if k > 0 {
        lemma_rechain_prefix_len(s, k - 1, ib0, target, flip, rotate);
    }
}

/// The first `k` cases: case `i` starts at `i * (4 + n)` (for a snippet of `n` words), with
/// its label `labels[i]`, then the snippet rechained onto `base + i` with the ids from
/// `ib + i * t` (`t` the ids one copy takes), then the branch to the merge block.
proof fn lemma_cases_layout(snippet: Seq<u32>, flip: bool, rotate: bool, base: int, labels: Seq<u32>, merge: u32, ib: int,
    k: int)
    requires
        0 <= k,
        rechain_cases(snippet, flip, rotate, base, labels, merge, ib, k) is Some,
    ensures
        ({
            let cs = rechain_cases(snippet, flip, rotate, base, labels, merge, ib, k)->Some_0;
            let n = snippet.len() as int;
            let t = rechain_temps(snippet);
            &&& cs.0.len() == k * (4 + n)
            &&& cs.2 == ib + k * t
            &&& forall|i: int| #![trigger rechain_prefix(snippet, starts(snippet).len() as int, (ib + i * t) as u32,
                (base + i) as u32, flip, rotate)] 0 <= i < k ==> {
                let off = i * (4 + n);
                &&& rechained(snippet, (ib + i * t) as u32, (base + i) as u32, flip, rotate) is Some
                &&& cs.0[off] == spec_encode_word(2, spv::SPV_INSTRUCTION_OP_LABEL)
                &&& cs.0[off + 1] == labels[i]
                &&& cs.0.subrange(off + 2, off + 2 + n) == rechained(snippet, (ib + i * t) as u32, (base + i) as u32,
                    flip, rotate)->Some_0
            }
        }),
    decreases k,
{
    if k > 0 {
        lemma_cases_layout(snippet, flip, rotate, base, labels, merge, ib, k - 1);
        let prev = rechain_cases(snippet, flip, rotate, base, labels, merge, ib, k - 1)->Some_0;
        let cs = rechain_cases(snippet, flip, rotate, base, labels, merge, ib, k)->Some_0;
        let n = snippet.len() as int;
        let t = rechain_temps(snippet);
        let c = rechained(snippet, prev.2 as u32, (base + k - 1) as u32, flip, rotate)->Some_0;
        lemma_rechain_prefix_len(snippet, starts(snippet).len() as int, prev.2 as u32, (base + k - 1) as u32, flip, rotate);
        assert(cs.0 == prev.0 + seq![spec_encode_word(2, spv::SPV_INSTRUCTION_OP_LABEL), labels[k - 1]] + c
            + seq![spec_encode_word(2, spv::SPV_INSTRUCTION_OP_BRANCH), merge]);
        assert(cs.2 == prev.2 + t);
        assert(c.len() == n);
        assert(prev.2 == ib + (k - 1) * t);
        assert((k - 1) * (4 + n) + (4 + n) == k * (4 + n)) by (nonlinear_arith);
        assert(ib + (k - 1) * t + t == ib + k * t) by (nonlinear_arith);
        assert forall|i: int| #![trigger rechain_prefix(snippet, starts(snippet).len() as int, (ib + i * t) as u32,
            (base + i) as u32, flip, rotate)] 0 <= i < k implies {
            let off = i * (4 + n);
            &&& rechained(snippet, (ib + i * t) as u32, (base + i) as u32, flip, rotate) is Some
            &&& cs.0[off] == spec_encode_word(2, spv::SPV_INSTRUCTION_OP_LABEL)
            &&& cs.0[off + 1] == labels[i]
            &&& cs.0.subrange(off + 2, off + 2 + n) == rechained(snippet, (ib + i * t) as u32, (base + i) as u32,
                flip, rotate)->Some_0
        } by {
            let off = i * (4 + n);
            if i < k - 1 {
                assert(off + 4 + n <= (k - 1) * (4 + n)) by (nonlinear_arith)
                    requires 0 <= i < k - 1, n >= 0, off == i * (4 + n);
                assert(cs.0.subrange(off + 2, off + 2 + n) =~= prev.0.subrange(off + 2, off + 2 + n));
                assert(cs.0[off] == prev.0[off]);
                assert(cs.0[off + 1] == prev.0[off + 1]);
            } else {
                assert(off == (k - 1) * (4 + n));
                assert(cs.0.subrange(off + 2, off + 2 + n) =~= c);
            }
        }
    }
}

/// The literals and labels of a switch's targets: the `i`-th pair is the literal `i` and
/// the label `labels[i]`.
pub proof fn lemma_switch_targets_pairs(labels: Seq<u32>)
    ensures
        switch_targets(labels).len() == 2 * labels.len(),
        forall|i: int| 0 <= i < labels.len() ==> #[trigger] switch_targets(labels)[2 * i] == i as u32
            && switch_targets(labels)[2 * i + 1] == labels[i],
{
    assert forall|i: int| 0 <= i < labels.len() implies #[trigger] switch_targets(labels)[2 * i] == i as u32
        && switch_targets(labels)[2 * i + 1] == labels[i] by {
        assert((2 * i) % 2 == 0 && (2 * i) / 2 == i) by (nonlinear_arith) requires 0 <= i;
        assert((2 * i + 1) % 2 == 1 && (2 * i + 1) / 2 == i) by (nonlinear_arith) requires 0 <= i;
    }
}

/// A switch over the elements of a binding array reads element `i` for the index value `i`:
/// its `OpSwitch` on `index_id` pairs each literal `i < length` with a label, and the case of
/// that label holds the snippet rechained onto the element `base + i`.
pub proof fn lemma_select_reads_element_of_index(
    snippet: Seq<u32>,
    flip: bool,
    rotate: bool,
    ib: int,
    base: u32,
    index_id: u32,
    length: int,
    result: Option<(u32, u32)>,
    i: int,
)
    requires
        0 <= i < length,
        rechain_select(snippet, flip, rotate, ib, base, index_id, length, result) is Some,
    ensures
        ({
            let w = rechain_select(snippet, flip, rotate, ib, base, index_id, length, result)->Some_0.0;
            let n = snippet.len() as int;
            let t = rechain_temps(snippet);
            let label = w[6 + 2 * i + 1];
            let case = 6 + 2 * length + i * (4 + n);
            &&& spec_loword(w[3]) == spv::SPV_INSTRUCTION_OP_SWITCH as int
            &&& w[4] == index_id
            &&& w[6 + 2 * i] == i as u32
            &&& w[case] == spec_encode_word(2, spv::SPV_INSTRUCTION_OP_LABEL)
            &&& w[case + 1] == label
            &&& w.subrange(case + 2, case + 2 + n) == rechained(snippet, (ib + length + 2 + i * t) as u32,
                (base + i) as u32, flip, rotate)->Some_0
        }),
{
    let labels = Seq::new(length as nat, |j: int| (ib + j) as u32);
    let default = (ib + length) as u32;
    let merge = (ib + length + 1) as u32;
    let head = seq![
        spec_encode_word(3, spv::SPV_INSTRUCTION_OP_SELECTION_MERGE), merge, spv::SPV_SELECTION_CONTROL_NONE,
        spec_encode_word((3 + 2 * length) as u16, spv::SPV_INSTRUCTION_OP_SWITCH), index_id, default,
    ] + switch_targets(labels);
    let cs = rechain_cases(snippet, flip, rotate, base as int, labels, merge, ib + length + 2, length)->Some_0;
    let d = rechained(snippet, cs.2 as u32, base, flip, rotate)->Some_0;
    let body = head + cs.0 + seq![spec_encode_word(2, spv::SPV_INSTRUCTION_OP_LABEL), default] + d
        + seq![spec_encode_word(2, spv::SPV_INSTRUCTION_OP_BRANCH), merge,
            spec_encode_word(2, spv::SPV_INSTRUCTION_OP_LABEL), merge];
    let w = rechain_select(snippet, flip, rotate, ib, base, index_id, length, result)->Some_0.0;
    let hc = head + cs.0;
    assert(w.len() >= hc.len() && forall|j: int| 0 <= j < hc.len() ==> w[j] == hc[j]) by {
        assert(forall|j: int| 0 <= j < hc.len() ==> body[j] == hc[j]);
        match result {
            None => {
                assert(w == body);
            },
            Some(rt) => {
                let tail = seq![
                    spec_encode_word((3 + 2 * (length + 1)) as u16, spv::SPV_INSTRUCTION_OP_PHI), rt.0, rt.1,
                ] + phi_pairs(cs.1, labels) + seq![rechain_output(snippet, d)->0, default];
                assert(w == body + tail);
            },
        }
    }
    lemma_switch_targets_pairs(labels);
    lemma_cases_layout(snippet, flip, rotate, base as int, labels, merge, ib + length + 2, length);
    let n = snippet.len() as int;
    let t = rechain_temps(snippet);
    let off = i * (4 + n);
    assert(rechain_prefix(snippet, starts(snippet).len() as int, (ib + length + 2 + i * t) as u32, (base + i) as u32,
        flip, rotate) is Some);
    assert(off + 4 + n <= length * (4 + n)) by (nonlinear_arith) requires 0 <= i < length, n >= 0, off == i * (4 + n);
    assert(head.len() == 6 + 2 * length);
    assert(hc[6 + 2 * i] == switch_targets(labels)[2 * i]);
    assert(w[6 + 2 * i] == hc[6 + 2 * i]);
    assert(w[6 + 2 * i + 1] == hc[6 + 2 * i + 1]);
    assert(w[3] == hc[3]);
    crate::util::lemma_split_encode((3 + 2 * length) as u16, spv::SPV_INSTRUCTION_OP_SWITCH);
    assert(w[4] == hc[4]);
    let case = 6 + 2 * length + off;
    assert(w[case] == hc[case]);
    assert(w[case + 1] == hc[case + 1]);
    assert(w.subrange(case + 2, case + 2 + n) =~= cs.0.subrange(off + 2, off + 2 + n)) by {
        assert forall|j: int| 0 <= j < n implies #[trigger] w.subrange(case + 2, case + 2 + n)[j]
            == cs.0.subrange(off + 2, off + 2 + n)[j] by {
            assert(w[case + 2 + j] == hc[case + 2 + j]);
        }
    }
}

proof fn lemma_cases_prefix(snippet: Seq<u32>, flip: bool, rotate: bool, base: int, labels: Seq<u32>, merge: u32, ib: int,
    j: int, k: int)
    requires
        0 <= j <= k,
        rechain_temps(snippet) >= 0,
        rechain_cases(snippet, flip, rotate, base, labels, merge, ib, k) is Some,
    ensures
        rechain_cases(snippet, flip, rotate, base, labels, merge, ib, j) is Some,
        ib <= rechain_cases(snippet, flip, rotate, base, labels, merge, ib, j)->Some_0.2,
        j < k ==> rechain_cases(snippet, flip, rotate, base, labels, merge, ib, j)->Some_0.2 + rechain_temps(snippet)
            <= rechain_cases(snippet, flip, rotate, base, labels, merge, ib, k)->Some_0.2,
    decreases k,
{
    if k > 0 {
        lemma_cases_prefix(snippet, flip, rotate, base, labels, merge, ib, k - 1, k - 1);
        if j < k {
            lemma_cases_prefix(snippet, flip, rotate, base, labels, merge, ib, j, k - 1);
        }
    }
}

proof fn lemma_temps_nonneg(snippet: Seq<u32>)
    requires
        snippet.len() > 0,
        terminates_from(snippet, 0),
        fits_in_memory(snippet),
    ensures
        rechain_temps(snippet) >= 0,
{
    assert(crate::util::instruction::wc_at(snippet, 0) >= 1);
    crate::util::instruction::lemma_starts_from_first(snippet, 0);
}

/// Appends one case: its label, a copy of `snippet` rechained onto `target`, and the branch to
/// the merge block; records the copy's output.
fn push_rechained_case(
    spv: &mut Vec<u32>,
    outputs: &mut Vec<u32>,
    ib: &mut u32,
    snippet: &[u32],
    label: u32,
    target: u32,
    merge: u32,
    flip_store_into: bool,
    rotate_image_sampler: bool,
)
    requires
        snippet@.len() > 0,
        terminates_from(snippet@, 0),
        fits_in_memory(snippet@),
        starts(snippet@).last() + 2 < snippet@.len(),
        rechained(snippet@, *old(ib), target, flip_store_into, rotate_image_sampler) is Some,
        *old(ib) + rechain_temps(snippet@) <= u32::MAX,
    ensures
        ({
            let c = rechained(snippet@, *old(ib), target, flip_store_into, rotate_image_sampler)->Some_0;
            &&& final(spv)@ == old(spv)@ + seq![spec_encode_word(2, spv::SPV_INSTRUCTION_OP_LABEL), label] + c
                + seq![spec_encode_word(2, spv::SPV_INSTRUCTION_OP_BRANCH), merge]
            &&& final(outputs)@ == match rechain_output(snippet@, c) {
                Some(o) => old(outputs)@.push(o),
                None => old(outputs)@,
            }
            &&& *final(ib) == *old(ib) + rechain_temps(snippet@)
        }),
{
    let ghost s0 = spv@;
    spv.push(encode_word(2, spv::SPV_INSTRUCTION_OP_LABEL));
    spv.push(label);
    let (mut instructions, output) = rechain_instructions_with_target_id(ib, snippet, target, flip_store_into,
        rotate_image_sampler);
    let ghost copy = instructions@;
    spv.append(&mut instructions);
    match output {
        Some((_, id)) => {
            outputs.push(id);
        },
        None => {},
    }
    spv.push(encode_word(2, spv::SPV_INSTRUCTION_OP_BRANCH));
    spv.push(merge);
    assert(spv@ =~= s0 + seq![spec_encode_word(2, spv::SPV_INSTRUCTION_OP_LABEL), label] + copy
        + seq![spec_encode_word(2, spv::SPV_INSTRUCTION_OP_BRANCH), merge]);
}

proof fn lemma_cases_outputs(snippet: Seq<u32>, flip: bool, rotate: bool, base: int, labels: Seq<u32>, merge: u32, ib: int, k: int)
    requires
        0 <= k,
        ends_with_result(snippet),
        rechain_cases(snippet, flip, rotate, base, labels, merge, ib, k) is Some,
    ensures
        rechain_cases(snippet, flip, rotate, base, labels, merge, ib, k)->Some_0.1.len() == k,
    decreases k,
{
    if k > 0 {
        lemma_cases_outputs(snippet, flip, rotate, base, labels, merge, ib, k - 1);
    }
}

/// The head of a switch with `length` cases: the selection merge and the `OpSwitch`, with the
/// case labels, the default label and the merge label taken from `ib` in that order.
fn switch_head(ib: &mut u32, length: usize, index_id: u32) -> (r: (Vec<u32>, Vec<u32>))
    requires
        *old(ib) + length + 2 <= u32::MAX,
        3 + 2 * length < 0x10000,
    ensures
        r.1@ == Seq::new(length as nat, |i: int| (*old(ib) + i) as u32),
        r.0@ == seq![
            spec_encode_word(3, spv::SPV_INSTRUCTION_OP_SELECTION_MERGE), (*old(ib) + length + 1) as u32,
            spv::SPV_SELECTION_CONTROL_NONE, spec_encode_word((3 + 2 * length) as u16, spv::SPV_INSTRUCTION_OP_SWITCH),
            index_id, (*old(ib) + length) as u32,
        ] + switch_targets(r.1@),
        *final(ib) == *old(ib) + length + 2,
{
    let ghost ib0 = *ib as int;
    let ghost n = length as int;
    let ghost labels_spec = Seq::new(length as nat, |i: int| (ib0 + i) as u32);
    // The labels of the cases, the default and the merge block
    let mut case_labels: Vec<u32> = Vec::new();
    let mut i: usize = 0;
    while i < length
        invariant
            i <= length,
            n == length,
            *ib == ib0 + i,
            ib0 + n + 2 <= u32::MAX,
            case_labels@ == Seq::new(i as nat, |q: int| (ib0 + q) as u32),
        decreases length - i,
    {
        let label = inc(ib);
        case_labels.push(label);
        proof {
            assert(case_labels@ =~= Seq::new((i + 1) as nat, |q: int| (ib0 + q) as u32));
        }
        i = i + 1;
    }
    assert(case_labels@ =~= labels_spec);
    let default_label = inc(ib);
    let merge_label = inc(ib);

    let mut spv: Vec<u32> = vec![
        encode_word(3, spv::SPV_INSTRUCTION_OP_SELECTION_MERGE), merge_label, spv::SPV_SELECTION_CONTROL_NONE,
        encode_word(3 + 2 * length as u16, spv::SPV_INSTRUCTION_OP_SWITCH), index_id, default_label,
    ];
    let ghost head0 = spv@;
    let mut i: usize = 0;
    while i < length
        invariant
            i <= length,
            n == length,
            labels_spec.len() == n,
            case_labels@ == labels_spec,
            spv@ == head0 + switch_targets(labels_spec).take(2 * i),
        decreases length - i,
    {
        spv.push(i as u32);
        spv.push(case_labels[i]);
        proof {
            assert(spv@ =~= head0 + switch_targets(labels_spec).take(2 * (i + 1)));
        }
        i = i + 1;
    }
    assert(switch_targets(labels_spec).take(2 * n) =~= switch_targets(labels_spec));

    (spv, case_labels)
}

/// A switch on `index_id` over `length` copies of `snippet`, the copy of case `i` rechained
/// onto the variable `base_id + i` and the default one onto `base_id`; when
/// `result_type_and_id` is given, an `OpPhi` of that type and id gathers the copies' outputs.
pub fn select_template_spv(
    ib: &mut u32,
    base_id: u32,
    index_id: u32,
    length: usize,
    snippet: &[u32],
    flip_store_into: bool,
    rotate_image_sampler: bool,
    result_type_and_id: Option<(u32, u32)>,
) -> (r: Vec<u32>)
    requires
        snippet@.len() > 0,
        terminates_from(snippet@, 0),
        fits_in_memory(snippet@),
        starts(snippet@).last() + 2 < snippet@.len(),
        rechain_select(snippet@, flip_store_into, rotate_image_sampler, *old(ib) as int, base_id, index_id, length as int,
            result_type_and_id) is Some,
        rechain_select(snippet@, flip_store_into, rotate_image_sampler, *old(ib) as int, base_id, index_id, length as int,
            result_type_and_id)->Some_0.1 <= u32::MAX,
        result_type_and_id is Some ==> ends_with_result(snippet@),
        base_id + length <= u32::MAX,
        3 + 2 * (length + 1) < 0x10000,
    ensures
        r@ == rechain_select(snippet@, flip_store_into, rotate_image_sampler, *old(ib) as int, base_id, index_id,
            length as int, result_type_and_id)->Some_0.0,
        *final(ib) == rechain_select(snippet@, flip_store_into, rotate_image_sampler, *old(ib) as int, base_id, index_id,
            length as int, result_type_and_id)->Some_0.1,
{
    let ghost ib0 = *ib as int;
    let ghost n = length as int;
    let ghost labels_spec = Seq::new(length as nat, |i: int| (ib0 + i) as u32);
    let ghost sel = rechain_select(snippet@, flip_store_into, rotate_image_sampler, ib0, base_id, index_id, n,
        result_type_and_id)->0;
    let ghost merge_spec = (ib0 + n + 1) as u32;
    let ghost cases_spec = rechain_cases(snippet@, flip_store_into, rotate_image_sampler, base_id as int, labels_spec,
        merge_spec, ib0 + n + 2, n);
    assert(cases_spec is Some);
    proof {
        lemma_temps_nonneg(snippet@);
        lemma_cases_prefix(snippet@, flip_store_into, rotate_image_sampler, base_id as int, labels_spec, merge_spec,
            ib0 + n + 2, 0, n);
    }

    // The labels of the cases, the default and the merge block, and the switch
    let (mut spv, case_labels) = switch_head(ib, length, index_id);
    proof {
        assert(case_labels@ =~= labels_spec);
    }
    let default_label: u32 = *ib - 2;
    let merge_label: u32 = *ib - 1;

    // The cases
    let ghost head = spv@;
    let mut outputs: Vec<u32> = Vec::new();
    proof {
        lemma_temps_nonneg(snippet@);
    }
    let mut i: usize = 0;
    while i < length
        invariant
            i <= length,
            n == length,
            labels_spec.len() == n,
            case_labels@ == labels_spec,
            merge_label == merge_spec,
            base_id + length <= u32::MAX,
            snippet@.len() > 0,
            terminates_from(snippet@, 0),
            fits_in_memory(snippet@),
            starts(snippet@).last() + 2 < snippet@.len(),
            rechain_temps(snippet@) >= 0,
            rechain_cases(snippet@, flip_store_into, rotate_image_sampler, base_id as int, labels_spec, merge_spec, ib0 + n + 2, n) is Some,
            rechain_cases(snippet@, flip_store_into, rotate_image_sampler, base_id as int, labels_spec, merge_spec, ib0 + n + 2, n)->Some_0.2
                + rechain_temps(snippet@) <= u32::MAX,
            spv@ == head + rechain_cases(snippet@, flip_store_into, rotate_image_sampler, base_id as int, labels_spec, merge_spec,
                ib0 + n + 2, i as int)->Some_0.0,
            outputs@ == rechain_cases(snippet@, flip_store_into, rotate_image_sampler, base_id as int, labels_spec, merge_spec,
                ib0 + n + 2, i as int)->Some_0.1,
            *ib == rechain_cases(snippet@, flip_store_into, rotate_image_sampler, base_id as int, labels_spec, merge_spec,
                ib0 + n + 2, i as int)->Some_0.2,
        decreases length - i,
    {
        proof {
            lemma_cases_prefix(snippet@, flip_store_into, rotate_image_sampler, base_id as int, labels_spec, merge_spec,
                ib0 + n + 2, i + 1, n);
            lemma_cases_prefix(snippet@, flip_store_into, rotate_image_sampler, base_id as int, labels_spec, merge_spec,
                ib0 + n + 2, i as int, i + 1);
        }
        let ghost before = spv@;
        push_rechained_case(&mut spv, &mut outputs, ib, snippet, case_labels[i], base_id + i as u32, merge_label,
            flip_store_into, rotate_image_sampler);
        proof {
            assert(spv@ =~= head + rechain_cases(snippet@, flip_store_into, rotate_image_sampler, base_id as int, labels_spec,
                merge_spec, ib0 + n + 2, i + 1)->Some_0.0);
        }
        i = i + 1;
    }

    let ghost cases_words = spv@;
    proof {
        if result_type_and_id is Some {
            lemma_cases_outputs(snippet@, flip_store_into, rotate_image_sampler, base_id as int, labels_spec, merge_spec,
                ib0 + n + 2, n);
        }
    }
    finish_select(&mut spv, &outputs, ib, snippet, base_id, &case_labels, default_label, merge_label, flip_store_into,
        rotate_image_sampler, result_type_and_id, Ghost(length as int));
    proof {
        lemma_cases_prefix(snippet@, flip_store_into, rotate_image_sampler, base_id as int, labels_spec, merge_spec,
            ib0 + n + 2, n, n);
    }
    assert(spv@ =~= sel.0);
    spv
}

/// Appends the default case, the merge block and, when a result is asked for, the phi of the
/// outputs.
#[verifier::rlimit(40)]
fn finish_select(
    spv: &mut Vec<u32>,
    outputs: &Vec<u32>,
    ib: &mut u32,
    snippet: &[u32],
    base_id: u32,
    case_labels: &Vec<u32>,
    default_label: u32,
    merge_label: u32,
    flip_store_into: bool,
    rotate_image_sampler: bool,
    result_type_and_id: Option<(u32, u32)>,
    Ghost(n): Ghost<int>,
)
    requires
        snippet@.len() > 0,
        terminates_from(snippet@, 0),
        fits_in_memory(snippet@),
        starts(snippet@).last() + 2 < snippet@.len(),
        rechained(snippet@, *old(ib), base_id, flip_store_into, rotate_image_sampler) is Some,
        *old(ib) + rechain_temps(snippet@) <= u32::MAX,
        case_labels@.len() == n,
        result_type_and_id is Some ==> ends_with_result(snippet@) && outputs@.len() == n,
        3 + 2 * (n + 1) < 0x10000,
    ensures
        ({
            let d = rechained(snippet@, *old(ib), base_id, flip_store_into, rotate_image_sampler)->Some_0;
            let body = old(spv)@ + seq![spec_encode_word(2, spv::SPV_INSTRUCTION_OP_LABEL), default_label] + d
                + seq![spec_encode_word(2, spv::SPV_INSTRUCTION_OP_BRANCH), merge_label,
                    spec_encode_word(2, spv::SPV_INSTRUCTION_OP_LABEL), merge_label];
            &&& final(spv)@ == match result_type_and_id {
                None => body,
                Some(rt) => body + seq![spec_encode_word((3 + 2 * (n + 1)) as u16, spv::SPV_INSTRUCTION_OP_PHI), rt.0, rt.1]
                    + phi_pairs(outputs@, case_labels@) + seq![rechain_output(snippet@, d)->Some_0, default_label],
            }
            &&& *final(ib) == *old(ib) + rechain_temps(snippet@)
        }),
{
    let length = case_labels.len();
    // The default case
    spv.push(encode_word(2, spv::SPV_INSTRUCTION_OP_LABEL));
    spv.push(default_label);
    let (mut instructions, default_output) = rechain_instructions_with_target_id(ib, snippet, base_id,
        flip_store_into, rotate_image_sampler);
    spv.append(&mut instructions);
    spv.push(encode_word(2, spv::SPV_INSTRUCTION_OP_BRANCH));
    spv.push(merge_label);
    spv.push(encode_word(2, spv::SPV_INSTRUCTION_OP_LABEL));
    spv.push(merge_label);

    // The phi of the outputs
    match result_type_and_id {
        Some((result_type_id, target_id)) => {
            spv.push(encode_word(3 + 2 * (length as u16 + 1), spv::SPV_INSTRUCTION_OP_PHI));
            spv.push(result_type_id);
            spv.push(target_id);
            let ghost before = spv@;
            let mut i: usize = 0;
            while i < length
                invariant
                    i <= length,
                    n == length,
                    
                    
                    outputs@.len() == length,
                    case_labels@.len() == n,
                    spv@ == before + phi_pairs(outputs@, case_labels@).take(2 * i),
                decreases length - i,
            {
                spv.push(outputs[i]);
                spv.push(case_labels[i]);
                proof {
                    assert(spv@ =~= before + phi_pairs(outputs@, case_labels@).take(2 * (i + 1)));
                }
                i = i + 1;
            }
            assert(phi_pairs(outputs@, case_labels@).take(2 * n) =~= phi_pairs(outputs@, case_labels@));
            let (_, default_id) = default_output.unwrap();
            spv.push(default_id);
            spv.push(default_label);
        },
        None => {},
    }
    proof {
        let d = rechained(snippet@, *old(ib), base_id, flip_store_into, rotate_image_sampler)->Some_0;
        assert(*ib == *old(ib) + rechain_temps(snippet@));
    }
}

/// How many words after its first the rechaining writes of the `j`-th instruction of
/// `snippet`: an operand (the sampler, at most one word further, when rotating) for an
/// instruction with a result, the pointer or the object of a final write.
pub open spec fn room_needed(snippet: Seq<u32>, j: int, rotate: bool) -> int {
    if j < starts(snippet).len() - 1 || ends_with_result(snippet) {
        if rotate { 4 } else { 3 }
    } else {
        2
    }
}

/// Every instruction of `snippet` is followed by the words its rechaining writes, so each
/// rewritten operand lies in the snippet.
pub open spec fn rechain_room(snippet: Seq<u32>, rotate: bool) -> bool {
    forall|j: int| 0 <= j < starts(snippet).len() ==> #[trigger] starts(snippet)[j] + room_needed(snippet, j, rotate)
        < snippet.len()
}

proof fn lemma_rechain_prefix_room(s: Seq<u32>, k: int, ib0: u32, target: u32, flip: bool, rotate: bool)
    requires
        0 <= k <= starts(s).len(),
        rechain_room(s, rotate),
    ensures
        rechain_prefix(s, k, ib0, target, flip, rotate) is Some,
        rechain_prefix(s, k, ib0, target, flip, rotate)->Some_0.len() == s.len(),
    decreases k,
{
    if k > 0 {
        lemma_rechain_prefix_room(s, k - 1, ib0, target, flip, rotate);
        assert(starts(s)[k - 1] + room_needed(s, k - 1, rotate) < s.len());
    }
}

/// Each instruction before the last holds the words its rechaining writes.
pub open spec fn rewrites_stay_inside(s: Seq<u32>, rotate: bool) -> bool {
    forall|j: int| 0 <= j < starts(s).len() - 1 ==> #[trigger] starts(s)[j] + room_needed(s, j, rotate) < starts(s)[j + 1]
}

proof fn lemma_prefix_keeps_last_type(s: Seq<u32>, k: int, ib0: u32, target: u32, flip: bool, rotate: bool)
    requires
        0 <= k < starts(s).len(),
        fits_in_memory(s),
        rechain_prefix(s, k, ib0, target, flip, rotate) is Some,
        rewrites_stay_inside(s, rotate),
        starts(s).last() + 2 < s.len(),
    ensures
        rechain_prefix(s, k, ib0, target, flip, rotate)->Some_0.len() == s.len(),
        rechain_prefix(s, k, ib0, target, flip, rotate)->Some_0[starts(s).last() + 1] == s[starts(s).last() + 1],
    decreases k,
{
    if k > 0 {
        crate::splitbindingarray::rechain_instructions::lemma_prefix_some(s, k - 1, k, ib0, target, flip, rotate);
        lemma_prefix_keeps_last_type(s, k - 1, ib0, target, flip, rotate);
        crate::util::instruction::lemma_starts_from_bounds(s, 0);
        let j = k - 1;
        assert(starts(s)[j] + room_needed(s, j, rotate) < starts(s)[j + 1]);
        if j + 1 < starts(s).len() - 1 {
            assert(starts(s)[j + 1] < starts(s)[starts(s).len() - 1]);
        }
    }
}

/// Rechaining a snippet that ends with a result keeps its last instruction's result type and
/// gives it the last fresh id taken, one below the bound after the rechaining: what
/// `get_last_instruction_result_type_and_id` reads of the snippet and what
/// `rechain_instructions_with_target_id` returns agree on the type, and the id returned is
/// the last one taken.
pub proof fn lemma_rechained_keeps_last_result(s: Seq<u32>, ib0: u32, target: u32, flip: bool, rotate: bool)
    requires
        s.len() > 0,
        fits_in_memory(s),
        starts(s).len() > 0,
        ends_with_result(s),
        starts(s).last() + 2 < s.len(),
        rewrites_stay_inside(s, rotate),
        rechained(s, ib0, target, flip, rotate) is Some,
    ensures
        rechained(s, ib0, target, flip, rotate)->Some_0[starts(s).last() + 1] == s[starts(s).last() + 1],
        rechained(s, ib0, target, flip, rotate)->Some_0[starts(s).last() + 2] == (ib0 + rechain_temps(s) - 1) as u32,
{
    let n = starts(s).len() as int;
    crate::splitbindingarray::rechain_instructions::lemma_prefix_some(s, n - 1, n, ib0, target, flip, rotate);
    lemma_prefix_keeps_last_type(s, n - 1, ib0, target, flip, rotate);
}

/// With room for its operands, a snippet can be rechained onto any target with any ids.
pub proof fn lemma_rechained_room(s: Seq<u32>, ib0: u32, target: u32, flip: bool, rotate: bool)
    requires
        rechain_room(s, rotate),
    ensures
        rechained(s, ib0, target, flip, rotate) is Some,
{
    lemma_rechain_prefix_room(s, starts(s).len() as int, ib0, target, flip, rotate);
}

proof fn lemma_cases_room(snippet: Seq<u32>, flip: bool, rotate: bool, base: int, labels: Seq<u32>, merge: u32, ib: int, k: int)
    requires
        0 <= k,
        rechain_room(snippet, rotate),
    ensures
        rechain_cases(snippet, flip, rotate, base, labels, merge, ib, k) is Some,
        rechain_cases(snippet, flip, rotate, base, labels, merge, ib, k)->Some_0.2 == ib + k * rechain_temps(snippet),
    decreases k,
{
    if k > 0 {
        lemma_cases_room(snippet, flip, rotate, base, labels, merge, ib, k - 1);
        let prev = rechain_cases(snippet, flip, rotate, base, labels, merge, ib, k - 1)->Some_0;
        lemma_rechained_room(snippet, prev.2 as u32, (base + k - 1) as u32, flip, rotate);
        let t = rechain_temps(snippet);
        assert(ib + (k - 1) * t + t == ib + k * t) by (nonlinear_arith);
        assert(rechain_cases(snippet, flip, rotate, base, labels, merge, ib, k)->Some_0.2 == prev.2 + t);
    }
}

/// With room for its operands, a switch over copies of `snippet` can be built; it takes
/// `length + 2` labels and the ids of `length + 1` copies.
pub proof fn lemma_select_room(snippet: Seq<u32>, flip: bool, rotate: bool, ib: int, base: u32, index_id: u32, length: int,
    result: Option<(u32, u32)>)
    requires
        0 <= length,
        rechain_room(snippet, rotate),
    ensures
        rechain_select(snippet, flip, rotate, ib, base, index_id, length, result) is Some,
        rechain_select(snippet, flip, rotate, ib, base, index_id, length, result)->Some_0.1
            == ib + length + 2 + (length + 1) * rechain_temps(snippet),
{
    let labels = Seq::new(length as nat, |i: int| (ib + i) as u32);
    let merge = (ib + length + 1) as u32;
    lemma_cases_room(snippet, flip, rotate, base as int, labels, merge, ib + length + 2, length);
    let cases = rechain_cases(snippet, flip, rotate, base as int, labels, merge, ib + length + 2, length)->Some_0;
    lemma_rechained_room(snippet, cases.2 as u32, base, flip, rotate);
    let t = rechain_temps(snippet);
    assert(length * t + t == (length + 1) * t) by (nonlinear_arith);
}

/// Whether every instruction of `snippet` is followed by the words its rechaining writes.
pub fn has_rechain_room(snippet: &[u32], rotate: bool) -> (r: bool)
    requires
        terminates_from(snippet@, 0),
        fits_in_memory(snippet@),
    ensures
        r == rechain_room(snippet@, rotate),
{
    let ghost s = snippet@;
    proof {
        crate::util::instruction::lemma_starts_from_bounds(s, 0);
    }
    let ends_with_result = !starts_len_positive(snippet) || {
        let last = crate::util::instruction::get_last_instruction_index(snippet);
        let op = crate::util::loword(snippet[last]);
        !(op == spv::SPV_INSTRUCTION_OP_STORE || op == spv::SPV_INSTRUCTION_OP_COPY_MEMORY
            || op == spv::SPV_INSTRUCTION_OP_IMAGE_WRITE)
    };
    let mut idx: usize = 0;
    let ghost mut done: Seq<usize> = Seq::empty();
    while idx < snippet.len()
        invariant
            s == snippet@,
            fits_in_memory(s),
            terminates_from(s, idx as int),
            done + starts_from(s, idx as int) == starts(s),
            starts(s).len() > 0 ==> ends_with_result == crate::splitbindingarray::rechain_instructions::ends_with_result(s),
            forall|j: int| 0 <= j < done.len() ==> #[trigger] starts(s)[j] + room_needed(s, j, rotate) < s.len(),
        decreases s.len() + 0x10000 - idx,
    {
        proof {
            crate::util::instruction::lemma_starts_step(s, idx as int);
        }
        let w = crate::util::hiword(snippet[idx]);
        let is_last = w as usize >= snippet.len() - idx;
        let need: usize = if !is_last || ends_with_result {
            if rotate { 4 } else { 3 }
        } else {
            2
        };
        proof {
            let j = done.len() as int;
            assert(starts(s)[j] == idx);
            if is_last {
                assert(starts_from(s, idx + w) =~= Seq::<usize>::empty());
                assert(j == starts(s).len() - 1);
            } else {
                assert(terminates_from(s, idx + w));
                assert(crate::util::instruction::wc_at(s, idx + w) >= 1);
                crate::util::instruction::lemma_starts_from_first(s, idx + w);
                assert(j < starts(s).len() - 1);
            }
            assert(need == room_needed(s, j, rotate));
        }
        if need >= snippet.len() - idx {
            return false;
        }
        proof {
            done = done.push(idx);
            assert(done + starts_from(s, idx + w) =~= starts(s));
        }
        idx = idx + w as usize;
    }
    proof {
        assert(starts_from(s, idx as int) =~= Seq::<usize>::empty());
        assert(done =~= starts(s));
    }
    true
}

fn starts_len_positive(snippet: &[u32]) -> (r: bool)
    requires
        terminates_from(snippet@, 0),
        fits_in_memory(snippet@),
    ensures
        r == (starts(snippet@).len() > 0),
{
    if snippet.len() == 0 {
        assert(starts(snippet@) =~= Seq::<usize>::empty());
        false
    } else {
        proof {
            assert(crate::util::instruction::wc_at(snippet@, 0) >= 1);
            crate::util::instruction::lemma_starts_from_first(snippet@, 0);
        }
        true
    }
}

} // verus!
