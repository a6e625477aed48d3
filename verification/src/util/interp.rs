use vstd::prelude::*;

use crate::spv;
use crate::util::{spec_hiword, spec_loword};

verus! {

/// What a function body has computed so far: the values of its result ids (integers as their
/// 32-bit patterns, booleans as 1 and 0), where its pointer ids point (a variable, and a
/// component of it or -1 for the whole variable), and what memory holds there.
pub struct Frame {
    pub vals: Map<u32, int>,
    pub ptrs: Map<u32, (u32, int)>,
    pub mem: Map<(u32, int), int>,
}

/// How running straight-line code ends: a returned value, a branch to a label (with the
/// state at that point), or an instruction this model does not give a meaning.
pub enum Outcome {
    Returned(int),
    Branched(u32, Frame),
    Stuck,
}

/// A 32-bit pattern read as a two's complement integer.
pub open spec fn signed(v: int) -> int {
    if v >= 0x8000_0000 {
        v - 0x1_0000_0000
    } else {
        v
    }
}

pub open spec fn flag(b: bool) -> int {
    if b {
        1
    } else {
        0
    }
}

pub open spec fn with_val(f: Frame, id: u32, v: int) -> Frame {
    Frame { vals: f.vals.insert(id, v), ..f }
}

/// Two operands read as values, combined by `g` into the result id.
pub open spec fn binary(w: Seq<u32>, pc: int, f: Frame, g: spec_fn(int, int) -> int) -> Option<Frame> {
    if f.vals.contains_key(w[pc + 3]) && f.vals.contains_key(w[pc + 4]) {
        Some(with_val(f, w[pc + 2], g(f.vals[w[pc + 3]], f.vals[w[pc + 4]])))
    } else {
        None
    }
}

/// The effect of the instruction at `pc` (opcode `op`), `None` when this model gives it none.
pub open spec fn exec(w: Seq<u32>, pc: int, op: int, f: Frame) -> Option<Frame> {
    if op == spv::SPV_INSTRUCTION_OP_FUNCTION as int || op == spv::SPV_INSTRUCTION_OP_LABEL as int {
        Some(f)
    } else if op == spv::SPV_INSTRUCTION_OP_FUNCTION_PARAMETER as int || op == spv::SPV_INSTRUCTION_OP_VARIABLE as int {
        Some(Frame { ptrs: f.ptrs.insert(w[pc + 2], (w[pc + 2], -1)), ..f })
    } else if op == spv::SPV_INSTRUCTION_OP_LOAD as int {
        if f.ptrs.contains_key(w[pc + 3]) && f.mem.contains_key(f.ptrs[w[pc + 3]]) {
            Some(with_val(f, w[pc + 2], f.mem[f.ptrs[w[pc + 3]]]))
        } else {
            None
        }
    } else if op == spv::SPV_INSTRUCTION_OP_STORE as int {
        if f.ptrs.contains_key(w[pc + 1]) && f.vals.contains_key(w[pc + 2]) {
            Some(Frame { mem: f.mem.insert(f.ptrs[w[pc + 1]], f.vals[w[pc + 2]]), ..f })
        } else {
            None
        }
    } else if op == spv::SPV_INSTRUCTION_OP_ACCESS_CHAIN as int {
        if f.ptrs.contains_key(w[pc + 3]) && f.vals.contains_key(w[pc + 4]) {
            Some(Frame { ptrs: f.ptrs.insert(w[pc + 2], (f.ptrs[w[pc + 3]].0, f.vals[w[pc + 4]])), ..f })
        } else {
            None
        }
    } else if op == spv::SPV_INSTRUCTION_OP_BITCAST as int {
        if f.vals.contains_key(w[pc + 3]) {
            Some(with_val(f, w[pc + 2], f.vals[w[pc + 3]]))
        } else {
            None
        }
    } else if op == spv::SPV_INSTRUCTION_OP_SHIFT_RIGHT_LOGICAL as int {
        binary(w, pc, f, |a: int, b: int| ((a as u32) >> (b as u32)) as int)
    } else if op == spv::SPV_INSTRUCTION_OP_BITWISE_AND as int {
        binary(w, pc, f, |a: int, b: int| ((a as u32) & (b as u32)) as int)
    } else if op == spv::SPV_INSTRUCTION_OP_I_EQUAL as int {
        binary(w, pc, f, |a: int, b: int| flag(a == b))
    } else if op == spv::SPV_INSTRUCTION_OP_I_NOT_EQUAL as int {
        binary(w, pc, f, |a: int, b: int| flag(a != b))
    } else if op == spv::SPV_INSTRUCTION_OP_LOGICAL_AND as int {
        binary(w, pc, f, |a: int, b: int| flag(a != 0 && b != 0))
    } else if op == spv::SPV_INSTRUCTION_OP_S_GREATER_THAN as int {
        binary(w, pc, f, |a: int, b: int| flag(signed(a) > signed(b)))
    } else if op == spv::SPV_INSTRUCTION_OP_SELECT as int {
        if f.vals.contains_key(w[pc + 3]) && f.vals.contains_key(w[pc + 4]) && f.vals.contains_key(w[pc + 5]) {
            Some(with_val(f, w[pc + 2], if f.vals[w[pc + 3]] != 0 { f.vals[w[pc + 4]] } else { f.vals[w[pc + 5]] }))
        } else {
            None
        }
    } else {
        None
    }
}

/// Runs the straight-line code of `w` from the instruction at `pc`, for at most `fuel`
/// instructions, up to its `OpReturnValue` or `OpBranch`.
pub open spec fn run(w: Seq<u32>, pc: int, f: Frame, fuel: nat) -> Outcome
    decreases fuel,
{
    if fuel == 0 || pc < 0 || pc >= w.len() {
        Outcome::Stuck
    } else {
        let op = spec_loword(w[pc]);
        let wc = spec_hiword(w[pc]);
        if wc < 1 || pc + wc > w.len() {
            Outcome::Stuck
        } else if op == spv::SPV_INSTRUCTION_OP_RETURN_VALUE as int {
            if f.vals.contains_key(w[pc + 1]) {
                Outcome::Returned(f.vals[w[pc + 1]])
            } else {
                Outcome::Stuck
            }
        } else if op == spv::SPV_INSTRUCTION_OP_BRANCH as int {
            Outcome::Branched(w[pc + 1], f)
        } else {
            match exec(w, pc, op, f) {
                Some(g) => run(w, pc + wc, g, (fuel - 1) as nat),
                None => Outcome::Stuck,
            }
        }
    }
}

/// One step of `run`: an instruction other than a return or a branch, with a meaning, moves
/// on to the next one.
pub proof fn lemma_run_step(w: Seq<u32>, pc: int, f: Frame, n: nat)
    requires
        n > 0,
        0 <= pc < w.len(),
        spec_hiword(w[pc]) >= 1,
        pc + spec_hiword(w[pc]) <= w.len(),
        spec_loword(w[pc]) != spv::SPV_INSTRUCTION_OP_RETURN_VALUE as int,
        spec_loword(w[pc]) != spv::SPV_INSTRUCTION_OP_BRANCH as int,
        exec(w, pc, spec_loword(w[pc]), f) is Some,
    ensures
        run(w, pc, f, n) == run(w, pc + spec_hiword(w[pc]), exec(w, pc, spec_loword(w[pc]), f)->Some_0, (n - 1) as nat),
{
}

/// A frame of a function with blocks and branches: the straight-line frame, the vector
/// values, the component count of each vector type, and the labels of the current block and
/// of the block control came from.
pub struct CfgFrame {
    pub f: Frame,
    pub vecs: Map<u32, Seq<int>>,
    pub vec_len: Map<u32, nat>,
    pub cur: u32,
    pub prev: u32,
}

/// The absolute value of a 32-bit pattern read as a two's complement integer, as a pattern.
pub open spec fn abs_bits(v: int) -> int {
    if signed(v) < 0 {
        0x1_0000_0000 - v
    } else {
        v
    }
}

/// The negation of a 32-bit pattern, as a pattern (two's complement).
pub open spec fn neg_bits(v: int) -> int {
    if v == 0 {
        0
    } else {
        0x1_0000_0000 - v
    }
}

/// The effect of the instruction at `pc` in a function with blocks: whole-vector loads and
/// stores, the GLSL `SAbs` of a vector, signed `>=` and negation, building and taking apart
/// vectors, block labels and `OpPhi`, and otherwise what `exec` gives.
pub open spec fn exec_cfg(w: Seq<u32>, pc: int, op: int, g: CfgFrame) -> Option<CfgFrame> {
    if op == spv::SPV_INSTRUCTION_OP_LOAD as int && g.vec_len.contains_key(w[pc + 1]) {
        if g.f.ptrs.contains_key(w[pc + 3]) && (forall|k: int| 0 <= k < g.vec_len[w[pc + 1]]
            ==> #[trigger] g.f.mem.contains_key((g.f.ptrs[w[pc + 3]].0, k))) {
            let base = g.f.ptrs[w[pc + 3]].0;
            Some(CfgFrame {
                vecs: g.vecs.insert(w[pc + 2], Seq::new(g.vec_len[w[pc + 1]], |k: int| g.f.mem[(base, k)])),
                ..g
            })
        } else {
            None
        }
    } else if op == spv::SPV_INSTRUCTION_OP_EXT_INST as int {
        if w[pc + 4] == spv::SPV_GLSL_STD_INSTRUCTION_SABS && g.vecs.contains_key(w[pc + 5]) {
            Some(CfgFrame { vecs: g.vecs.insert(w[pc + 2], g.vecs[w[pc + 5]].map_values(|v: int| abs_bits(v))), ..g })
        } else {
            None
        }
    } else if op == spv::SPV_INSTRUCTION_OP_STORE as int && g.vecs.contains_key(w[pc + 2]) {
        if g.f.ptrs.contains_key(w[pc + 1]) {
            let base = g.f.ptrs[w[pc + 1]].0;
            let v = g.vecs[w[pc + 2]];
            Some(CfgFrame {
                f: Frame {
                    mem: g.f.mem.union_prefer_right(
                        Map::new(|key: (u32, int)| key.0 == base && 0 <= key.1 < v.len(), |key: (u32, int)| v[key.1]),
                    ),
                    ..g.f
                },
                ..g
            })
        } else {
            None
        }
    } else if op == spv::SPV_INSTRUCTION_OP_S_GREATER_THAN_EQUAL as int {
        match binary(w, pc, g.f, |a: int, b: int| flag(signed(a) >= signed(b))) {
            Some(f) => Some(CfgFrame { f, ..g }),
            None => None,
        }
    } else if op == spv::SPV_INSTRUCTION_OP_S_NEGATE as int {
        if g.f.vals.contains_key(w[pc + 3]) {
            Some(CfgFrame { f: with_val(g.f, w[pc + 2], neg_bits(g.f.vals[w[pc + 3]])), ..g })
        } else {
            None
        }
    } else if op == spv::SPV_INSTRUCTION_OP_COMPOSITE_CONSTRUCT as int && g.vec_len.contains_key(w[pc + 1]) {
        let n = spec_hiword(w[pc]) - 3;
        if n == g.vec_len[w[pc + 1]] && (forall|k: int| 0 <= k < n ==> #[trigger] g.f.vals.contains_key(w[pc + 3 + k])) {
            Some(CfgFrame { vecs: g.vecs.insert(w[pc + 2], Seq::new(n as nat, |k: int| g.f.vals[w[pc + 3 + k]])), ..g })
        } else {
            None
        }
    } else if op == spv::SPV_INSTRUCTION_OP_COMPOSITE_EXTRACT as int {
        if g.vecs.contains_key(w[pc + 3]) && w[pc + 4] < g.vecs[w[pc + 3]].len() {
            Some(CfgFrame { f: with_val(g.f, w[pc + 2], g.vecs[w[pc + 3]][w[pc + 4] as int]), ..g })
        } else {
            None
        }
    } else if op == spv::SPV_INSTRUCTION_OP_SELECTION_MERGE as int {
        Some(g)
    } else if op == spv::SPV_INSTRUCTION_OP_LABEL as int {
        Some(CfgFrame { cur: w[pc + 1], ..g })
    } else if op == spv::SPV_INSTRUCTION_OP_PHI as int {
        if g.prev == w[pc + 4] && g.f.vals.contains_key(w[pc + 3]) {
            Some(CfgFrame { f: with_val(g.f, w[pc + 2], g.f.vals[w[pc + 3]]), ..g })
        } else if g.prev == w[pc + 6] && g.f.vals.contains_key(w[pc + 5]) {
            Some(CfgFrame { f: with_val(g.f, w[pc + 2], g.f.vals[w[pc + 5]]), ..g })
        } else {
            None
        }
    } else {
        match exec(w, pc, op, g.f) {
            Some(f) => Some(CfgFrame { f, ..g }),
            None => None,
        }
    }
}

/// Runs a function with blocks from the instruction at `pc` until it reaches `stop`, for at
/// most `fuel` instructions; a branch goes to the position `labels` gives its label.
#[verifier::opaque]
pub open spec fn run_cfg(w: Seq<u32>, labels: Map<u32, int>, pc: int, g: CfgFrame, fuel: nat, stop: int) -> Option<CfgFrame>
    decreases fuel,
{
    if pc == stop {
        Some(g)
    } else if fuel == 0 || pc < 0 || pc >= w.len() {
        None
    } else {
        let op = spec_loword(w[pc]);
        let wc = spec_hiword(w[pc]);
        if wc < 1 || pc + wc > w.len() {
            None
        } else if op == spv::SPV_INSTRUCTION_OP_BRANCH as int {
            if labels.contains_key(w[pc + 1]) {
                run_cfg(w, labels, labels[w[pc + 1]], CfgFrame { prev: g.cur, ..g }, (fuel - 1) as nat, stop)
            } else {
                None
            }
        } else if op == spv::SPV_INSTRUCTION_OP_BRANCH_CONDITIONAL as int {
            if g.f.vals.contains_key(w[pc + 1]) && labels.contains_key(w[pc + 2]) && labels.contains_key(w[pc + 3]) {
                let target = if g.f.vals[w[pc + 1]] != 0 { w[pc + 2] } else { w[pc + 3] };
                run_cfg(w, labels, labels[target], CfgFrame { prev: g.cur, ..g }, (fuel - 1) as nat, stop)
            } else {
                None
            }
        } else {
            match exec_cfg(w, pc, op, g) {
                Some(h) => run_cfg(w, labels, pc + wc, h, (fuel - 1) as nat, stop),
                None => None,
            }
        }
    }
}

/// Each label of `labels` sits where the map says: an `OpLabel` of that id.
pub open spec fn labels_mark(w: Seq<u32>, labels: Map<u32, int>) -> bool {
    forall|l: u32| #[trigger] labels.contains_key(l) ==> {
        &&& 0 <= labels[l]
        &&& labels[l] + 1 < w.len()
        &&& w[labels[l]] == crate::util::spec_encode_word(2, spv::SPV_INSTRUCTION_OP_LABEL)
        &&& w[labels[l] + 1] == l
    }
}

/// One step of `run_cfg` over an instruction other than a branch.
pub proof fn lemma_cfg_step(w: Seq<u32>, labels: Map<u32, int>, pc: int, g: CfgFrame, n: nat, stop: int)
    requires
        n > 0,
        pc != stop,
        0 <= pc < w.len(),
        spec_hiword(w[pc]) >= 1,
        pc + spec_hiword(w[pc]) <= w.len(),
        spec_loword(w[pc]) != spv::SPV_INSTRUCTION_OP_BRANCH as int,
        spec_loword(w[pc]) != spv::SPV_INSTRUCTION_OP_BRANCH_CONDITIONAL as int,
        exec_cfg(w, pc, spec_loword(w[pc]), g) is Some,
    ensures
        run_cfg(w, labels, pc, g, n, stop) == run_cfg(w, labels, pc + spec_hiword(w[pc]),
            exec_cfg(w, pc, spec_loword(w[pc]), g)->Some_0, (n - 1) as nat, stop),
{
    reveal(run_cfg);
}

/// One step of `run_cfg` over an `OpBranch`.
pub proof fn lemma_cfg_branch(w: Seq<u32>, labels: Map<u32, int>, pc: int, g: CfgFrame, n: nat, stop: int)
    requires
        n > 0,
        pc != stop,
        0 <= pc < w.len(),
        spec_hiword(w[pc]) >= 1,
        pc + spec_hiword(w[pc]) <= w.len(),
        spec_loword(w[pc]) == spv::SPV_INSTRUCTION_OP_BRANCH as int,
        labels.contains_key(w[pc + 1]),
    ensures
        run_cfg(w, labels, pc, g, n, stop) == run_cfg(w, labels, labels[w[pc + 1]], CfgFrame { prev: g.cur, ..g },
            (n - 1) as nat, stop),
{
    reveal(run_cfg);
}

/// One step of `run_cfg` over an `OpBranchConditional`.
pub proof fn lemma_cfg_cond(w: Seq<u32>, labels: Map<u32, int>, pc: int, g: CfgFrame, n: nat, stop: int)
    requires
        n > 0,
        pc != stop,
        0 <= pc < w.len(),
        spec_hiword(w[pc]) >= 1,
        pc + spec_hiword(w[pc]) <= w.len(),
        spec_loword(w[pc]) == spv::SPV_INSTRUCTION_OP_BRANCH_CONDITIONAL as int,
        g.f.vals.contains_key(w[pc + 1]),
        labels.contains_key(w[pc + 2]),
        labels.contains_key(w[pc + 3]),
    ensures
        run_cfg(w, labels, pc, g, n, stop) == run_cfg(w, labels,
            labels[if g.f.vals[w[pc + 1]] != 0 { w[pc + 2] } else { w[pc + 3] }], CfgFrame { prev: g.cur, ..g },
            (n - 1) as nat, stop),
{
    reveal(run_cfg);
}

/// `run_cfg` at its stopping point gives the state there.
pub proof fn lemma_cfg_stop(w: Seq<u32>, labels: Map<u32, int>, g: CfgFrame, n: nat, stop: int)
    ensures
        run_cfg(w, labels, stop, g, n, stop) == Some(g),
{
    reveal(run_cfg);
}

} // verus!
