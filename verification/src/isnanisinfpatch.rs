use vstd::prelude::*;

pub mod isnan_isinf;
pub mod shared;

use crate::isnanisinfpatch::isnan_isinf::{is_nan_is_inf_spv, is_nan_is_inf_words};
use crate::isnanisinfpatch::shared::{
    nan_inf_constant_words, nan_inf_fn_type_spv, nan_inf_fn_type_words, nan_inf_shared_constants_spv,
};
use crate::immediatespatch::body_of;
use crate::spv;
use crate::util::ensure::{ensure_type_int, ensure_type_pointer, ensured_bound, ensured_decl, ensured_id};
use crate::util::function::{find_function_label, function_label, get_function_label_index_of_instruction_index};
use crate::util::instruction::{
    find_first_where, first_where, lemma_first_where_listed, fits_in_memory, idxs_reach, instruction_idxs, is_tiled, lemma_op_starts_reach, lemma_tiles_inside, op_at, op_starts,
    starts, starts_from, terminates_from, tiles, wc_at, wf_stream,
};
use crate::util::pointer::{intermediate_candidates, lemma_tiles_terminates, trace_previous_intermediate_id};
use crate::util::{
    encode_word, fuse_final, hiword, loword, insert_new_instructions, insert_views, inserted, lemma_inserted_some, prune_noops,
    spec_encode_word, strip_nops, InsertView, InstructionInsert, WordInsert,
};
use vstd::slice::slice_subrange;

verus! {

/// Which float test a replacement function performs.
#[derive(Debug, Clone, Copy, PartialEq, Eq, Hash, Structural)]
pub enum IsNanOrIsInf {
    IsNan,
    IsInf,
}

/// The unsigned integer type (and its function-storage pointer type) the float tests
/// reinterpret floats as.
#[derive(Debug, Clone, Copy, PartialEq, Eq, Hash, Structural)]
pub struct NanInfSharedTypeInputs {
    pub uint_id: u32,
    pub ptr_uint_id: u32,
}

/// The types one replacement function works on: its boolean result, its float argument and
/// the function-storage pointer to that float.
#[derive(Debug, Clone, Copy, PartialEq, Eq, Hash, Structural)]
pub struct NanInfSharedFunctionInputs {
    pub bool_id: u32,
    pub float_id: u32,
    pub ptr_float_id: u32,
}

/// The id of the `OpTypeFunction` of a replacement function.
#[derive(Debug, Clone, Copy, PartialEq, Eq, Hash, Structural)]
pub struct NanInfFunctionType(pub u32);

/// The ids of the integer constants the float tests use.
#[derive(Debug, Clone, Copy, PartialEq, Eq, Hash, Structural)]
pub struct NanInfSharedConstants {
    pub uint_23: u32,
    pub uint_255: u32,
    pub uint_8388607: u32,
    pub uint_0: u32,
}

/// One float test to replace: the test, the types of its replacement function, the type of
/// its argument and, for vectors, their component count.
#[derive(Debug, Clone, Copy, PartialEq, Eq, Structural)]
pub struct NanInfTest {
    pub test: IsNanOrIsInf,
    pub inputs: NanInfSharedFunctionInputs,
    pub float_type_id: u32,
    pub component_count: Option<u32>,
}

/// The `OpIsNan`s, then the `OpIsInf`s.
pub open spec fn nan_inf_ops(s: Seq<u32>) -> Seq<usize> {
    op_starts(s, spv::SPV_INSTRUCTION_OP_IS_NAN as int) + op_starts(s, spv::SPV_INSTRUCTION_OP_IS_INF as int)
}

/// The test the instruction at `k` performs.
pub open spec fn test_of(s: Seq<u32>, k: usize) -> IsNanOrIsInf {
    if op_at(s, k as int) == spv::SPV_INSTRUCTION_OP_IS_NAN as int {
        IsNanOrIsInf::IsNan
    } else {
        IsNanOrIsInf::IsInf
    }
}

/// The type of the argument of the test at `k`: the result type of the last instruction
/// before it that defines the argument.
pub open spec fn argument_type(s: Seq<u32>, k: usize) -> u32 {
    s[intermediate_candidates(s, s[k + 3], k).last() + 1]
}

/// A type and, when it is a vector type, its component type and count.
pub open spec fn underlying(s: Seq<u32>, ty: u32) -> (u32, Option<u32>) {
    match first_where(s, op_starts(s, spv::SPV_INSTRUCTION_OP_TYPE_VECTOR as int), 1, ty) {
        Some(v) => (s[v + 2], Some(s[v + 3])),
        None => (ty, None),
    }
}

/// The tests of the first `j` instructions, the pointer types declared for their float
/// types, and the bound after those declarations.
pub open spec fn nan_inf_tests(s: Seq<u32>, b: int, j: int) -> (Seq<NanInfTest>, Seq<u32>, int)
    decreases j,
{
    if j <= 0 {
        (Seq::empty(), Seq::empty(), b)
    } else {
        let prev = nan_inf_tests(s, b, j - 1);
        let k = nan_inf_ops(s)[j - 1];
        let ft = argument_type(s, k);
        let uf = underlying(s, ft);
        let pointer = first_where(s, op_starts(s, spv::SPV_INSTRUCTION_OP_TYPE_POINTER as int), 3, uf.0);
        let pf = match pointer {
            Some(p) => s[p + 1],
            None => prev.2 as u32,
        };
        let decl = match pointer {
            Some(p) => Seq::empty(),
            None => seq![spec_encode_word(4, spv::SPV_INSTRUCTION_OP_TYPE_POINTER), prev.2 as u32,
                spv::SPV_STORAGE_CLASS_FUNCTION, uf.0],
        };
        let ub = underlying(s, s[k + 1]);
        let test = NanInfTest {
            test: test_of(s, k),
            inputs: NanInfSharedFunctionInputs { bool_id: ub.0, float_id: uf.0, ptr_float_id: pf },
            float_type_id: ft,
            component_count: ub.1,
        };
        (prev.0.push(test), prev.1 + decl, if pointer is Some { prev.2 } else { prev.2 + 1 })
    }
}

/// The distinct elements of `l`, in the order they first occur.
pub open spec fn distinct(l: Seq<NanInfTest>) -> Seq<NanInfTest>
    decreases l.len(),
{
    if l.len() == 0 {
        l
    } else {
        let p = distinct(l.drop_last());
        if p.contains(l.last()) {
            p
        } else {
            p.push(l.last())
        }
    }
}

/// The first of the first `n` keys with the function inputs `x`, or -1.
pub open spec fn first_with_inputs(keys: Seq<NanInfTest>, x: NanInfSharedFunctionInputs, n: int) -> int
    decreases n,
{
    if n <= 0 {
        -1
    } else {
        let p = first_with_inputs(keys, x, n - 1);
        if p >= 0 {
            p
        } else if keys[n - 1].inputs == x {
            n - 1
        } else {
            -1
        }
    }
}

/// The first of the first `n` keys with the test `t` on the function inputs `x`, or -1.
pub open spec fn first_with_test(keys: Seq<NanInfTest>, t: IsNanOrIsInf, x: NanInfSharedFunctionInputs, n: int) -> int
    decreases n,
{
    if n <= 0 {
        -1
    } else {
        let p = first_with_test(keys, t, x, n - 1);
        if p >= 0 {
            p
        } else if keys[n - 1].test == t && keys[n - 1].inputs == x {
            n - 1
        } else {
            -1
        }
    }
}

/// The position of `t` among the first `n` keys, or -1.
pub open spec fn key_index(keys: Seq<NanInfTest>, t: NanInfTest, n: int) -> int
    decreases n,
{
    if n <= 0 {
        -1
    } else {
        let p = key_index(keys, t, n - 1);
        if p >= 0 {
            p
        } else if keys[n - 1] == t {
            n - 1
        } else {
            -1
        }
    }
}

/// The function type of key `i`: the one declared for the first key with its inputs, key `j`
/// taking the ids from `b + 19 * j`.
pub open spec fn key_function_type(keys: Seq<NanInfTest>, b: int, i: int) -> u32 {
    (b + 19 * first_with_inputs(keys, keys[i].inputs, i + 1)) as u32
}

/// The replacement function of key `i`: the one defined for the first key with its test and
/// inputs.
pub open spec fn key_function(keys: Seq<NanInfTest>, b: int, i: int) -> u32 {
    (b + 19 * first_with_test(keys, keys[i].test, keys[i].inputs, i + 1) + 1) as u32
}

/// The function types declared for the first `n` keys.
pub open spec fn key_function_types(keys: Seq<NanInfTest>, b: int, n: int) -> Seq<u32>
    decreases n,
{
    if n <= 0 {
        Seq::empty()
    } else {
        let i = n - 1;
        key_function_types(keys, b, i) + if first_with_inputs(keys, keys[i].inputs, n) == i {
            nan_inf_fn_type_words((b + 19 * i) as u32, keys[i].inputs.bool_id, keys[i].inputs.ptr_float_id)
        } else {
            Seq::empty()
        }
    }
}

/// The replacement functions defined for the first `n` keys.
pub open spec fn key_functions(keys: Seq<NanInfTest>, b: int, ty: NanInfSharedTypeInputs, c: NanInfSharedConstants, n: int)
    -> Seq<u32>
    decreases n,
{
    if n <= 0 {
        Seq::empty()
    } else {
        let i = n - 1;
        key_functions(keys, b, ty, c, i) + if first_with_test(keys, keys[i].test, keys[i].inputs, n) == i {
            is_nan_is_inf_words(b + 19 * i + 1, keys[i].test, ty, keys[i].inputs, key_function_type(keys, b, i), c)
        } else {
            Seq::empty()
        }
    }
}

/// The largest component count of the first `j` tests, 0 when none is a vector test.
pub open spec fn max_components(tests: Seq<NanInfTest>, j: int) -> nat
    decreases j,
{
    if j <= 0 {
        0
    } else {
        let p = max_components(tests, j - 1);
        match tests[j - 1].component_count {
            Some(c) => if c > p { c as nat } else { p },
            None => p,
        }
    }
}

/// The unsigned indices `0` to `n - 1`, with ids from `b`.
pub open spec fn index_constant_words(uint_id: u32, b: int, n: int) -> Seq<u32>
    decreases n,
{
    if n <= 0 {
        Seq::empty()
    } else {
        index_constant_words(uint_id, b, n - 1) + seq![spec_encode_word(4, spv::SPV_INSTRUCTION_OP_CONSTANT), uint_id,
            (b + n - 1) as u32, (n - 1) as u32]
    }
}

/// The instructions testing component `n` of a vector argument: the vector is stored in its
/// temporary variable, the component is loaded through an access chain and stored in the
/// float variable `param`, and the replacement function `f` is called on it.
pub open spec fn component_words(s: Seq<u32>, k: usize, t: NanInfTest, f: u32, param: int, index_base: int, n: int) -> Seq<u32> {
    let temp_vector = (param + 1) as u32;
    let accessed = (param + 2 + 3 * n) as u32;
    let loaded = (param + 3 + 3 * n) as u32;
    let result = (param + 4 + 3 * n) as u32;
    seq![
        spec_encode_word(3, spv::SPV_INSTRUCTION_OP_STORE), temp_vector, s[k + 3],
        spec_encode_word(5, spv::SPV_INSTRUCTION_OP_ACCESS_CHAIN), t.inputs.ptr_float_id, accessed, temp_vector,
            (index_base + n) as u32,
        spec_encode_word(4, spv::SPV_INSTRUCTION_OP_LOAD), t.inputs.float_id, loaded, accessed,
        spec_encode_word(3, spv::SPV_INSTRUCTION_OP_STORE), param as u32, loaded,
        spec_encode_word(5, spv::SPV_INSTRUCTION_OP_FUNCTION_CALL), t.inputs.bool_id, result, f, param as u32,
    ]
}

/// The component tests of the first `n` components.
pub open spec fn components_words(s: Seq<u32>, k: usize, t: NanInfTest, f: u32, param: int, index_base: int, n: int) -> Seq<u32>
    decreases n,
{
    if n <= 0 {
        Seq::empty()
    } else {
        components_words(s, k, t, f, param, index_base, n - 1) + component_words(s, k, t, f, param, index_base, n - 1)
    }
}

/// The results of the first `n` component tests.
pub open spec fn component_results(param: int, n: int) -> Seq<u32> {
    Seq::new(n as nat, |i: int| (param + 4 + 3 * i) as u32)
}

/// What replaces the test at `k`, with the replacement function `f` and the ids from `param`:
/// the instructions in place of the test, the temporary variables, and the next free id.
pub open spec fn test_rewrite(s: Seq<u32>, k: usize, t: NanInfTest, f: u32, param: int, index_base: int)
    -> (Seq<u32>, Seq<u32>, int)
{
    let variable = seq![spec_encode_word(4, spv::SPV_INSTRUCTION_OP_VARIABLE), t.inputs.ptr_float_id, param as u32,
        spv::SPV_STORAGE_CLASS_FUNCTION];
    match t.component_count {
        Some(c) => {
            let p = first_where(s, op_starts(s, spv::SPV_INSTRUCTION_OP_TYPE_POINTER as int), 3, t.float_type_id)->0;
            let vector_variable = seq![spec_encode_word(4, spv::SPV_INSTRUCTION_OP_VARIABLE), s[p + 1], (param + 1) as u32,
                spv::SPV_STORAGE_CLASS_FUNCTION];
            (components_words(s, k, t, f, param, index_base, c as int)
                + seq![spec_encode_word((3 + c) as u16, spv::SPV_INSTRUCTION_OP_COMPOSITE_CONSTRUCT), s[k + 1], s[k + 2]]
                + component_results(param, c as int),
                variable + vector_variable, param + 2 + 3 * c)
        },
        None => (seq![
            spec_encode_word(3, spv::SPV_INSTRUCTION_OP_STORE), param as u32, s[k + 3],
            spec_encode_word(5, spv::SPV_INSTRUCTION_OP_FUNCTION_CALL), s[k + 1], s[k + 2], f, param as u32,
        ], variable, param + 1),
    }
}

/// The inserts replacing the first `j` tests, the ids taken from `b`, and the next free id.
pub open spec fn test_inserts(s: Seq<u32>, tests: Seq<NanInfTest>, keys: Seq<NanInfTest>, key_base: int, index_base: int, b: int, j: int)
    -> (Seq<InsertView>, int)
    decreases j,
{
    if j <= 0 {
        (Seq::empty(), b)
    } else {
        let prev = test_inserts(s, tests, keys, key_base, index_base, b, j - 1);
        let k = nan_inf_ops(s)[j - 1];
        let t = tests[j - 1];
        let f = key_function(keys, key_base, key_index(keys, t, keys.len() as int));
        let r = test_rewrite(s, k, t, f, prev.1, index_base);
        (prev.0 + seq![(k, r.0), (function_label(s, k)->0, r.1)], r.2)
    }
}

/// `v` with the first four words of each listed instruction overwritten by one-word `OpNop`s.
pub open spec fn nops4_over(v: Seq<u32>, ks: Seq<usize>) -> Seq<u32> {
    Seq::new(v.len(), |p: int|
        if exists|j: int| 0 <= j < ks.len() && #[trigger] ks[j] <= p < ks[j] + 4 {
            spec_encode_word(1, spv::SPV_INSTRUCTION_OP_NOP)
        } else {
            v[p]
        })
}

/// The ids the replacements share: the unsigned integer type, the pointer to it, the
/// constants; and the first id after them.
pub open spec fn nan_inf_shared_ids(s: Seq<u32>, b: int) -> (NanInfSharedTypeInputs, NanInfSharedConstants, Seq<u32>, int) {
    let ints = op_starts(s, spv::SPV_INSTRUCTION_OP_TYPE_INT as int);
    let pointers = op_starts(s, spv::SPV_INSTRUCTION_OP_TYPE_POINTER as int);
    let unsigned = spv::SPV_SIGNEDNESS_UNSIGNED;
    let function = spv::SPV_STORAGE_CLASS_FUNCTION;
    let uint_id = ensured_id(s, ints, 32, unsigned, b as u32);
    let b1 = ensured_bound(s, ints, 32, unsigned, b);
    let uint_ptr = ensured_id(s, pointers, function, uint_id, b1 as u32);
    let b2 = ensured_bound(s, pointers, function, uint_id, b1);
    let decls = ensured_decl(s, ints, spv::SPV_INSTRUCTION_OP_TYPE_INT, 32, unsigned, b as u32)
        + ensured_decl(s, pointers, spv::SPV_INSTRUCTION_OP_TYPE_POINTER, function, uint_id, b1 as u32)
        + nan_inf_constant_words(b2, uint_id);
    (NanInfSharedTypeInputs { uint_id: uint_id, ptr_uint_id: uint_ptr },
        NanInfSharedConstants {
            uint_23: b2 as u32,
            uint_255: (b2 + 1) as u32,
            uint_8388607: (b2 + 2) as u32,
            uint_0: (b2 + 3) as u32,
        }, decls, b2 + 4)
}

/// The result of replacing the float tests of a module body `s` whose instruction bound is
/// `b`: the body with the shared declarations, the rewrites and the replacement functions,
/// and the new bound.
pub open spec fn nan_inf_result(s: Seq<u32>, b: int) -> (Option<Seq<u32>>, int) {
    let ops = nan_inf_ops(s);
    let anchor = op_starts(s, spv::SPV_INSTRUCTION_OP_TYPE_POINTER as int).last();
    let shared = nan_inf_shared_ids(s, b);
    let tb = nan_inf_tests(s, shared.3, ops.len() as int);
    let tests = tb.0;
    let keys = distinct(tests);
    let key_base = tb.2;
    let index_base = key_base + 19 * keys.len();
    let m = max_components(tests, tests.len() as int) as int;
    let rewrites = test_inserts(s, tests, keys, key_base, index_base, index_base + m, ops.len() as int);
    let header = shared.2 + tb.1 + key_function_types(keys, key_base, keys.len() as int);
    let inserts = seq![(anchor, header), (anchor, index_constant_words(shared.0.uint_id, index_base, m))] + rewrites.0;
    (match inserted(s, nops4_over(s, ops), Seq::<WordInsert>::empty(), inserts) {
        Some(v) => Some(v + key_functions(keys, key_base, shared.0, shared.1, keys.len() as int)),
        None => None,
    }, rewrites.1)
}

/// Nothing to replace: no float test, or no pointer type to place the declarations after.
pub open spec fn nan_inf_untouched(s: Seq<u32>) -> bool {
    nan_inf_ops(s).len() == 0 || op_starts(s, spv::SPV_INSTRUCTION_OP_TYPE_POINTER as int).len() == 0
}

/// What replacing reads of a module it changes: each test's argument is defined before it
/// by an instruction with a result type, its argument and result agree on being vectors
/// and on their sizes, a vector argument's type has a pointer type, each test lies in a
/// function with a label, the float types are 32 bits wide, and the new ids fit.
pub open spec fn nan_inf_ready(s: Seq<u32>, b: int) -> bool {
    let ops = nan_inf_ops(s);
    let shared = nan_inf_shared_ids(s, b);
    let tests = nan_inf_tests(s, shared.3, ops.len() as int).0;
    let keys = distinct(tests);
    &&& forall|j: int| 0 <= j < ops.len() ==> (#[trigger] intermediate_candidates(s, s[ops[j] + 3], ops[j])).len() > 0
    &&& forall|j: int| 0 <= j < ops.len() ==> #[trigger] underlying(s, argument_type(s, ops[j])).1 == underlying(s, s[ops[j] + 1]).1
    &&& forall|j: int| 0 <= j < ops.len() ==> (#[trigger] function_label(s, ops[j])) is Some
    &&& forall|j: int| 0 <= j < tests.len() ==> ((#[trigger] tests[j]).component_count matches Some(c) ==> {
        &&& first_where(s, op_starts(s, spv::SPV_INSTRUCTION_OP_TYPE_POINTER as int), 3, tests[j].float_type_id) is Some
        &&& c + 3 < 0x10000
    })
    &&& forall|i: int| 0 <= i < keys.len() ==> (first_where(s, op_starts(s, spv::SPV_INSTRUCTION_OP_TYPE_FLOAT as int), 1,
        (#[trigger] keys[i]).inputs.float_id) matches Some(f) && s[f + 2] == 32)
    &&& nan_inf_result(s, b).1 <= u32::MAX
}

/// The first of the first `n` keys with the function inputs `x`, or `n` when there is none.
fn first_key_with_inputs(keys: &Vec<NanInfTest>, x: NanInfSharedFunctionInputs, n: usize) -> (r: usize)
    requires
        n <= keys@.len(),
    ensures
        r <= n,
        first_with_inputs(keys@, x, n as int) == if r < n { r as int } else { -1 },
{
    let mut j: usize = 0;
    while j < n
        invariant
            j <= n <= keys@.len(),
            first_with_inputs(keys@, x, j as int) == -1,
        decreases n - j,
    {
        if keys[j].inputs == x {
            proof {
                lemma_first_with_inputs_stays(keys@, x, j + 1, n as int);
            }
            return j;
        }
        j = j + 1;
    }
    n
}

proof fn lemma_first_with_inputs_stays(keys: Seq<NanInfTest>, x: NanInfSharedFunctionInputs, m: int, n: int)
    requires
        0 < m <= n,
        first_with_inputs(keys, x, m) >= 0,
    ensures
        first_with_inputs(keys, x, n) == first_with_inputs(keys, x, m),
    decreases n - m,
{
    if n > m {
        lemma_first_with_inputs_stays(keys, x, m, n - 1);
    }
}

proof fn lemma_first_with_inputs_prefix(keys: Seq<NanInfTest>, x: NanInfSharedFunctionInputs, n: int, m: int)
    requires
        0 <= first_with_inputs(keys, x, n) < m <= n,
    ensures
        first_with_inputs(keys, x, m) == first_with_inputs(keys, x, n),
    decreases n,
{
    if m < n {
        if first_with_inputs(keys, x, n - 1) >= 0 {
            lemma_first_with_inputs_prefix(keys, x, n - 1, m);
        }
    }
}

proof fn lemma_first_with_inputs_prefix_first(keys: Seq<NanInfTest>, x: NanInfSharedFunctionInputs, n: int)
    requires
        first_with_inputs(keys, x, n) == n - 1,
        n > 0,
    ensures
        keys[n - 1].inputs == x,
        first_with_inputs(keys, keys[n - 1].inputs, n) == n - 1,
{
    lemma_first_with_inputs_range(keys, x, n - 1);
}

proof fn lemma_first_with_inputs_range(keys: Seq<NanInfTest>, x: NanInfSharedFunctionInputs, n: int)
    requires
        n >= 0,
    ensures
        first_with_inputs(keys, x, n) < n,
    decreases n,
{
    if n > 0 {
        lemma_first_with_inputs_range(keys, x, n - 1);
    }
}

proof fn lemma_first_with_test_prefix_first(keys: Seq<NanInfTest>, t: IsNanOrIsInf, x: NanInfSharedFunctionInputs, n: int)
    requires
        first_with_test(keys, t, x, n) == n - 1,
        n > 0,
    ensures
        keys[n - 1].test == t && keys[n - 1].inputs == x,
{
    lemma_first_with_test_range(keys, t, x, n - 1);
}

proof fn lemma_first_with_test_range(keys: Seq<NanInfTest>, t: IsNanOrIsInf, x: NanInfSharedFunctionInputs, n: int)
    requires
        n >= 0,
    ensures
        first_with_test(keys, t, x, n) < n,
    decreases n,
{
    if n > 0 {
        lemma_first_with_test_range(keys, t, x, n - 1);
    }
}

proof fn lemma_first_with_test_prefix(keys: Seq<NanInfTest>, t: IsNanOrIsInf, x: NanInfSharedFunctionInputs, n: int, m: int)
    requires
        0 <= first_with_test(keys, t, x, n) < m <= n,
    ensures
        first_with_test(keys, t, x, m) == first_with_test(keys, t, x, n),
    decreases n,
{
    if m < n {
        if first_with_test(keys, t, x, n - 1) >= 0 {
            lemma_first_with_test_prefix(keys, t, x, n - 1, m);
        }
    }
}

/// The first of the first `n` keys with the test `t` on the inputs `x`, or `n` when there is
/// none.
fn first_key_with_test(keys: &Vec<NanInfTest>, t: IsNanOrIsInf, x: NanInfSharedFunctionInputs, n: usize) -> (r: usize)
    requires
        n <= keys@.len(),
    ensures
        r <= n,
        first_with_test(keys@, t, x, n as int) == if r < n { r as int } else { -1 },
{
    let mut j: usize = 0;
    while j < n
        invariant
            j <= n <= keys@.len(),
            first_with_test(keys@, t, x, j as int) == -1,
        decreases n - j,
    {
        if keys[j].test == t && keys[j].inputs == x {
            proof {
                lemma_first_with_test_stays(keys@, t, x, j + 1, n as int);
            }
            return j;
        }
        j = j + 1;
    }
    n
}

proof fn lemma_first_with_test_stays(keys: Seq<NanInfTest>, t: IsNanOrIsInf, x: NanInfSharedFunctionInputs, m: int, n: int)
    requires
        0 < m <= n,
        first_with_test(keys, t, x, m) >= 0,
    ensures
        first_with_test(keys, t, x, n) == first_with_test(keys, t, x, m),
    decreases n - m,
{
    if n > m {
        lemma_first_with_test_stays(keys, t, x, m, n - 1);
    }
}

/// The position of `t` among the first `n` keys, or `n` when it is not there.
fn find_key(keys: &Vec<NanInfTest>, t: NanInfTest, n: usize) -> (r: usize)
    requires
        n <= keys@.len(),
    ensures
        r <= n,
        key_index(keys@, t, n as int) == if r < n { r as int } else { -1 },
{
    let mut j: usize = 0;
    while j < n
        invariant
            j <= n <= keys@.len(),
            key_index(keys@, t, j as int) == -1,
        decreases n - j,
    {
        if keys[j] == t {
            proof {
                lemma_key_index_stays(keys@, t, j + 1, n as int);
            }
            return j;
        }
        j = j + 1;
    }
    n
}

proof fn lemma_key_index_stays(keys: Seq<NanInfTest>, t: NanInfTest, m: int, n: int)
    requires
        0 < m <= n,
        key_index(keys, t, m) >= 0,
    ensures
        key_index(keys, t, n) == key_index(keys, t, m),
    decreases n - m,
{
    if n > m {
        lemma_key_index_stays(keys, t, m, n - 1);
    }
}

/// The distinct tests, in the order they first occur.
fn distinct_tests(tests: &Vec<NanInfTest>) -> (r: Vec<NanInfTest>)
    ensures
        r@ == distinct(tests@),
{
    let mut out: Vec<NanInfTest> = Vec::new();
    let mut j: usize = 0;
    assert(tests@.take(0) =~= Seq::<NanInfTest>::empty());
    while j < tests.len()
        invariant
            j <= tests@.len(),
            out@ == distinct(tests@.take(j as int)),
        decreases tests@.len() - j,
    {
        let t = tests[j];
        let n = out.len();
        let p = find_key(&out, t, n);
        proof {
            assert(tests@.take(j + 1).drop_last() =~= tests@.take(j as int));
            assert(tests@.take(j + 1).last() == t);
            lemma_key_index_contains(out@, t, n as int);
        }
        if p == n {
            out.push(t);
        }
        j = j + 1;
    }
    assert(tests@.take(j as int) =~= tests@);
    out
}

proof fn lemma_key_index_contains(keys: Seq<NanInfTest>, t: NanInfTest, n: int)
    requires
        n == keys.len(),
    ensures
        keys.contains(t) <==> key_index(keys, t, n) >= 0,
        key_index(keys, t, n) >= 0 ==> keys[key_index(keys, t, n)] == t && key_index(keys, t, n) < n,
{
    lemma_key_index_prefix(keys, t, n);
    if keys.contains(t) {
        let i = choose|i: int| 0 <= i < keys.len() && keys[i] == t;
        if key_index(keys, t, n) < 0 {
            lemma_key_index_none(keys, t, n, i);
        }
    }
}

proof fn lemma_key_index_prefix(keys: Seq<NanInfTest>, t: NanInfTest, n: int)
    requires
        n <= keys.len(),
    ensures
        key_index(keys, t, n) >= 0 ==> keys[key_index(keys, t, n)] == t && 0 <= key_index(keys, t, n) < n,
        key_index(keys, t, n) >= -1,
    decreases n,
{
    if n > 0 {
        lemma_key_index_prefix(keys, t, n - 1);
    }
}

proof fn lemma_key_index_none(keys: Seq<NanInfTest>, t: NanInfTest, n: int, i: int)
    requires
        0 <= i < n <= keys.len(),
        keys[i] == t,
    ensures
        key_index(keys, t, n) >= 0,
    decreases n,
{
    if i < n - 1 {
        lemma_key_index_none(keys, t, n - 1, i);
    }
}

/// A type and, when it is a vector type, its component type and count.
fn underlying_type(spv: &[u32], vecs: &Vec<usize>, ty: u32) -> (r: (u32, Option<u32>))
    requires
        vecs@ == op_starts(spv@, spv::SPV_INSTRUCTION_OP_TYPE_VECTOR as int),
        idxs_reach(spv@, vecs@, 3),
    ensures
        r == underlying(spv@, ty),
{
    proof {
        lemma_first_where_listed(spv@, vecs@, 1, ty);
    }
    match find_first_where(spv, vecs, 1, ty) {
        Some(v) => {
            proof {
                let i = choose|i: int| 0 <= i < vecs@.len() && vecs@[i] == v;
                assert(vecs@[i] + 3 < spv@.len());
                assert(spv@.len() == spv.len());
            }
            (spv[v + 2], Some(spv[v + 3]))
        },
        None => (ty, None),
    }
}

proof fn lemma_tests_bound_grows(s: Seq<u32>, b: int, j: int, n: int)
    requires
        0 <= j <= n,
    ensures
        nan_inf_tests(s, b, j).2 <= nan_inf_tests(s, b, n).2,
        b <= nan_inf_tests(s, b, j).2,
        nan_inf_tests(s, b, j).0.len() == j,
    decreases n,
{
    if n > j {
        lemma_tests_bound_grows(s, b, j, n - 1);
        lemma_tests_bound_grows(s, b, n - 1, n - 1);
    } else if n > 0 {
        lemma_tests_bound_grows(s, b, n - 1, n - 1);
    }
}

/// Describes each test, declaring a pointer type to its float type where there is none.
fn collect_tests(
    spv: &[u32],
    ops: &Vec<usize>,
    ptrs: &Vec<usize>,
    vecs: &Vec<usize>,
    ib: &mut u32,
    header: &mut Vec<u32>,
) -> (r: Vec<NanInfTest>)
    requires
        wf_stream(spv@),
        ops@ == nan_inf_ops(spv@),
        idxs_reach(spv@, ops@, 3),
        ptrs@ == op_starts(spv@, spv::SPV_INSTRUCTION_OP_TYPE_POINTER as int),
        idxs_reach(spv@, ptrs@, 3),
        vecs@ == op_starts(spv@, spv::SPV_INSTRUCTION_OP_TYPE_VECTOR as int),
        idxs_reach(spv@, vecs@, 3),
        forall|j: int| 0 <= j < ops@.len() ==> (#[trigger] intermediate_candidates(spv@, spv@[ops@[j] + 3], ops@[j])).len() > 0,
        nan_inf_tests(spv@, *old(ib) as int, ops@.len() as int).2 <= u32::MAX,
    ensures
        r@ == nan_inf_tests(spv@, *old(ib) as int, ops@.len() as int).0,
        final(header)@ == old(header)@ + nan_inf_tests(spv@, *old(ib) as int, ops@.len() as int).1,
        *final(ib) == nan_inf_tests(spv@, *old(ib) as int, ops@.len() as int).2,
{
    let ghost s = spv@;
    let ghost b = *ib as int;
    let ghost h0 = header@;
    let ghost n = ops@.len() as int;
    let mut tests: Vec<NanInfTest> = Vec::new();
    let mut j: usize = 0;
    assert(header@ =~= h0 + nan_inf_tests(s, b, 0).1);
    while j < ops.len()
        invariant
            s == spv@,
            wf_stream(s),
            n == ops@.len(),
            ops@ == nan_inf_ops(s),
            idxs_reach(s, ops@, 3),
            ptrs@ == op_starts(s, spv::SPV_INSTRUCTION_OP_TYPE_POINTER as int),
            idxs_reach(s, ptrs@, 3),
            vecs@ == op_starts(s, spv::SPV_INSTRUCTION_OP_TYPE_VECTOR as int),
            idxs_reach(s, vecs@, 3),
            forall|i: int| 0 <= i < ops@.len() ==> (#[trigger] intermediate_candidates(s, s[ops@[i] + 3], ops@[i])).len() > 0,
            nan_inf_tests(s, b, n).2 <= u32::MAX,
            j <= n,
            tests@ == nan_inf_tests(s, b, j as int).0,
            header@ == h0 + nan_inf_tests(s, b, j as int).1,
            *ib == nan_inf_tests(s, b, j as int).2,
        decreases n - j,
    {
        let k = ops[j];
        assert(ops@[j as int] + 3 < s.len());
        assert(s.len() == spv.len());
        assert(intermediate_candidates(s, s[ops@[j as int] + 3], ops@[j as int]).len() > 0);
        proof {
            lemma_tiles_terminates(s, 0);
            lemma_tests_bound_grows(s, b, j + 1, n);
        }
        let traced = trace_previous_intermediate_id(spv, spv[k + 3], k);
        let float_type_id = traced.unwrap().result_type_id;
        let (float_id, _float_count) = underlying_type(spv, vecs, float_type_id);
        proof {
            lemma_first_where_listed(s, ptrs@, 3, float_id);
        }
        let ghost prev_bound = *ib;
        let ptr_float_id = match find_first_where(spv, ptrs, 3, float_id) {
            Some(p) => {
                proof {
                    let i = choose|i: int| 0 <= i < ptrs@.len() && ptrs@[i] == p;
                    assert(ptrs@[i] + 3 < s.len());
                    assert(s.len() == spv.len());
                }
                spv[p + 1]
            },
            None => {
                let new_id = *ib;
                *ib = *ib + 1;
                header.push(encode_word(4, spv::SPV_INSTRUCTION_OP_TYPE_POINTER));
                header.push(new_id);
                header.push(spv::SPV_STORAGE_CLASS_FUNCTION);
                header.push(float_id);
                new_id
            },
        };
        let (bool_id, bool_count) = underlying_type(spv, vecs, spv[k + 1]);
        let test = if loword(spv[k]) == spv::SPV_INSTRUCTION_OP_IS_NAN { IsNanOrIsInf::IsNan } else { IsNanOrIsInf::IsInf };
        tests.push(NanInfTest {
            test,
            inputs: NanInfSharedFunctionInputs { bool_id, float_id, ptr_float_id },
            float_type_id,
            component_count: bool_count,
        });
        proof {
            let prev = nan_inf_tests(s, b, j as int);
            let next = nan_inf_tests(s, b, j + 1);
            assert(header@ =~= h0 + next.1);
        }
        j = j + 1;
    }
    tests
}

/// Declares the function type and defines the replacement function of each key, sharing
/// them between keys with the same inputs (and test); returns each key's function.
fn define_functions(
    keys: &Vec<NanInfTest>,
    ty: NanInfSharedTypeInputs,
    constants: NanInfSharedConstants,
    ib: &mut u32,
    header: &mut Vec<u32>,
    definitions: &mut Vec<u32>,
) -> (r: Vec<u32>)
    requires
        *old(ib) + 19 * keys@.len() <= u32::MAX,
    ensures
        r@.len() == keys@.len(),
        forall|i: int| 0 <= i < keys@.len() ==> #[trigger] r@[i] == key_function(keys@, *old(ib) as int, i),
        final(header)@ == old(header)@ + key_function_types(keys@, *old(ib) as int, keys@.len() as int),
        final(definitions)@ == old(definitions)@ + key_functions(keys@, *old(ib) as int, ty, constants, keys@.len() as int),
        *final(ib) == *old(ib) + 19 * keys@.len(),
{
    let ghost b = *ib as int;
    let ghost h0 = header@;
    let ghost d0 = definitions@;
    let mut function_types: Vec<u32> = Vec::new();
    let mut functions: Vec<u32> = Vec::new();
    let mut i: usize = 0;
    assert(header@ =~= h0 + key_function_types(keys@, b, 0));
    assert(definitions@ =~= d0 + key_functions(keys@, b, ty, constants, 0));
    while i < keys.len()
        invariant
            b + 19 * keys@.len() <= u32::MAX,
            i <= keys@.len(),
            *ib == b + 19 * i,
            function_types@.len() == i,
            functions@.len() == i,
            forall|q: int| 0 <= q < i ==> #[trigger] function_types@[q] == key_function_type(keys@, b, q),
            forall|q: int| 0 <= q < i ==> #[trigger] functions@[q] == key_function(keys@, b, q),
            header@ == h0 + key_function_types(keys@, b, i as int),
            definitions@ == d0 + key_functions(keys@, b, ty, constants, i as int),
        decreases keys@.len() - i,
    {
        let key = keys[i];
        let (function_type, mut type_words) = nan_inf_fn_type_spv(ib, key.inputs);
        let p = first_key_with_inputs(keys, key.inputs, i + 1);
        proof {
            assert(first_with_inputs(keys@, key.inputs, i + 1) >= 0) by {
                if first_with_inputs(keys@, key.inputs, i as int) >= 0 {
                } else {
                    assert(keys@[i as int].inputs == key.inputs);
                }
            }
        }
        let ghost before_header = header@;
        let fn_type = if p == i {
            header.append(&mut type_words);
            function_type.0
        } else {
            proof {
                lemma_first_with_inputs_prefix(keys@, key.inputs, i + 1, p + 1);
                lemma_first_with_inputs_prefix_first(keys@, key.inputs, p + 1);
            }
            function_types[p]
        };
        assert(fn_type == key_function_type(keys@, b, i as int));
        function_types.push(fn_type);
        let (function_id, mut function_words) = is_nan_is_inf_spv(ib, key.test, ty, key.inputs,
            NanInfFunctionType(fn_type), constants);
        let q = first_key_with_test(keys, key.test, key.inputs, i + 1);
        proof {
            assert(first_with_test(keys@, key.test, key.inputs, i + 1) >= 0) by {
                if first_with_test(keys@, key.test, key.inputs, i as int) >= 0 {
                } else {
                    assert(keys@[i as int].test == key.test && keys@[i as int].inputs == key.inputs);
                }
            }
        }
        let f = if q == i {
            definitions.append(&mut function_words);
            function_id
        } else {
            proof {
                lemma_first_with_test_prefix(keys@, key.test, key.inputs, i + 1, q + 1);
                lemma_first_with_test_prefix_first(keys@, key.test, key.inputs, q + 1);
            }
            functions[q]
        };
        assert(f == key_function(keys@, b, i as int));
        functions.push(f);
        proof {
            assert(header@ =~= h0 + key_function_types(keys@, b, i + 1));
            assert(definitions@ =~= d0 + key_functions(keys@, b, ty, constants, i + 1));
        }
        i = i + 1;
    }
    functions
}

/// The largest component count of the tests, 0 when none is a vector test.
fn largest_component_count(tests: &Vec<NanInfTest>) -> (r: u32)
    ensures
        r == max_components(tests@, tests@.len() as int),
{
    let mut m: u32 = 0;
    let mut j: usize = 0;
    while j < tests.len()
        invariant
            j <= tests@.len(),
            m == max_components(tests@, j as int),
        decreases tests@.len() - j,
    {
        match tests[j].component_count {
            Some(c) => {
                if c > m {
                    m = c;
                }
            },
            None => {},
        }
        j = j + 1;
    }
    m
}

/// The unsigned indices `0` to `n - 1`, with ids from `*ib`.
fn index_constants(uint_id: u32, n: u32, ib: &mut u32) -> (r: Vec<u32>)
    requires
        *old(ib) + n <= u32::MAX,
    ensures
        r@ == index_constant_words(uint_id, *old(ib) as int, n as int),
        *final(ib) == *old(ib) + n,
{
    let ghost b = *ib as int;
    let mut out: Vec<u32> = Vec::new();
    let mut k: u32 = 0;
    while k < n
        invariant
            k <= n,
            b + n <= u32::MAX,
            *ib == b + k,
            out@ == index_constant_words(uint_id, b, k as int),
        decreases n - k,
    {
        let id = *ib;
        *ib = *ib + 1;
        out.push(encode_word(4, spv::SPV_INSTRUCTION_OP_CONSTANT));
        out.push(uint_id);
        out.push(id);
        out.push(k);
        proof {
            assert(out@ =~= index_constant_words(uint_id, b, k + 1));
        }
        k = k + 1;
    }
    out
}

proof fn lemma_distinct_contains(l: Seq<NanInfTest>)
    ensures
        forall|i: int| 0 <= i < l.len() ==> distinct(l).contains(#[trigger] l[i]),
        forall|i: int| 0 <= i < distinct(l).len() ==> l.contains(#[trigger] distinct(l)[i]),
    decreases l.len(),
{
    if l.len() > 0 {
        let p = l.drop_last();
        lemma_distinct_contains(p);
        assert forall|i: int| 0 <= i < l.len() implies distinct(l).contains(#[trigger] l[i]) by {
            if i < l.len() - 1 {
                assert(l[i] == p[i]);
                assert(distinct(p).contains(p[i]));
                if !distinct(p).contains(l.last()) {
                    let q = choose|q: int| 0 <= q < distinct(p).len() && distinct(p)[q] == p[i];
                    assert(distinct(l)[q] == p[i]);
                }
            } else if !distinct(p).contains(l.last()) {
                assert(distinct(l)[distinct(p).len() as int] == l.last());
            }
        }
        assert forall|i: int| 0 <= i < distinct(l).len() implies l.contains(#[trigger] distinct(l)[i]) by {
            if i < distinct(p).len() {
                assert(distinct(l)[i] == distinct(p)[i]);
                let q = choose|q: int| 0 <= q < p.len() && p[q] == distinct(p)[i];
                assert(l[q] == p[q]);
            } else {
                assert(distinct(l)[i] == l.last());
                assert(l[l.len() - 1] == l.last());
            }
        }
    }
}

/// The components tests of a vector test, with the ids from `*ib`; returns their results.
fn component_tests(
    spv: &[u32],
    k: usize,
    t: NanInfTest,
    f: u32,
    index_base: u32,
    count: u32,
    ib: &mut u32,
    words: &mut Vec<u32>,
    param: u32,
) -> (r: Vec<u32>)
    requires
        k + 3 < spv@.len(),
        *old(ib) == param + 2,
        *old(ib) + 3 * count <= u32::MAX,
        index_base + count <= u32::MAX,
        old(words)@ == Seq::<u32>::empty(),
    ensures
        final(words)@ == components_words(spv@, k, t, f, param as int, index_base as int, count as int),
        r@ == component_results(param as int, count as int),
        *final(ib) == *old(ib) + 3 * count,
{
    let mut results: Vec<u32> = Vec::new();
    let mut n: u32 = 0;
    while n < count
        invariant
            k + 3 < spv@.len(),
            n <= count,
            param + 2 + 3 * count <= u32::MAX,
            index_base + count <= u32::MAX,
            *ib == param + 2 + 3 * n,
            words@ == components_words(spv@, k, t, f, param as int, index_base as int, n as int),
            results@ == component_results(param as int, n as int),
        decreases count - n,
    {
        let accessed_id = *ib;
        *ib = *ib + 1;
        let loaded_id = *ib;
        *ib = *ib + 1;
        let result_id = *ib;
        *ib = *ib + 1;
        let temp_vector_id = param + 1;
        let ghost before = words@;
        assert(spv@.len() == spv.len());
        words.push(encode_word(3, spv::SPV_INSTRUCTION_OP_STORE));
        words.push(temp_vector_id);
        words.push(spv[k + 3]);
        words.push(encode_word(5, spv::SPV_INSTRUCTION_OP_ACCESS_CHAIN));
        words.push(t.inputs.ptr_float_id);
        words.push(accessed_id);
        words.push(temp_vector_id);
        words.push(index_base + n);
        words.push(encode_word(4, spv::SPV_INSTRUCTION_OP_LOAD));
        words.push(t.inputs.float_id);
        words.push(loaded_id);
        words.push(accessed_id);
        words.push(encode_word(3, spv::SPV_INSTRUCTION_OP_STORE));
        words.push(param);
        words.push(loaded_id);
        words.push(encode_word(5, spv::SPV_INSTRUCTION_OP_FUNCTION_CALL));
        words.push(t.inputs.bool_id);
        words.push(result_id);
        words.push(f);
        words.push(param);
        results.push(result_id);
        proof {
            assert(words@ =~= before + component_words(spv@, k, t, f, param as int, index_base as int, n as int));
            assert(results@ =~= component_results(param as int, n + 1));
        }
        n = n + 1;
    }
    results
}


proof fn lemma_test_inserts_bound(s: Seq<u32>, tests: Seq<NanInfTest>, keys: Seq<NanInfTest>, key_base: int, index_base: int,
    b: int, j: int, n: int)
    requires
        0 <= j <= n,
    ensures
        test_inserts(s, tests, keys, key_base, index_base, b, j).1 <= test_inserts(s, tests, keys, key_base, index_base, b, n).1,
        b <= test_inserts(s, tests, keys, key_base, index_base, b, j).1,
    decreases n,
{
    if n > j {
        lemma_test_inserts_bound(s, tests, keys, key_base, index_base, b, j, n - 1);
        lemma_test_inserts_bound(s, tests, keys, key_base, index_base, b, n - 1, n - 1);
    } else if n > 0 {
        lemma_test_inserts_bound(s, tests, keys, key_base, index_base, b, n - 1, n - 1);
    }
}

/// Replaces each test by a call of its replacement function (one per component for vectors),
/// with the temporary variables the calls need.
fn rewrite_tests(
    spv: &[u32],
    ops: &Vec<usize>,
    ptrs: &Vec<usize>,
    tests: &Vec<NanInfTest>,
    keys: &Vec<NanInfTest>,
    functions: &Vec<u32>,
    Ghost(key_base): Ghost<int>,
    index_base: u32,
    ib: &mut u32,
    inserts: &mut Vec<InstructionInsert>,
)
    requires
        terminates_from(spv@, 0),
        fits_in_memory(spv@),
        ops@ == nan_inf_ops(spv@),
        idxs_reach(spv@, ops@, 3),
        ptrs@ == op_starts(spv@, spv::SPV_INSTRUCTION_OP_TYPE_POINTER as int),
        idxs_reach(spv@, ptrs@, 3),
        tests@.len() == ops@.len(),
        forall|j: int| 0 <= j < tests@.len() ==> keys@.contains(#[trigger] tests@[j]),
        functions@.len() == keys@.len(),
        forall|i: int| 0 <= i < keys@.len() ==> #[trigger] functions@[i] == key_function(keys@, key_base, i),
        forall|j: int| 0 <= j < ops@.len() ==> (#[trigger] function_label(spv@, ops@[j])) is Some,
        forall|j: int| 0 <= j < tests@.len() ==> ((#[trigger] tests@[j]).component_count matches Some(c) ==> {
            &&& first_where(spv@, ptrs@, 3, tests@[j].float_type_id) is Some
            &&& c + 3 < 0x10000
            &&& index_base + c <= u32::MAX
        }),
        test_inserts(spv@, tests@, keys@, key_base, index_base as int, *old(ib) as int, ops@.len() as int).1 <= u32::MAX,
    ensures
        insert_views(final(inserts)@) == insert_views(old(inserts)@)
            + test_inserts(spv@, tests@, keys@, key_base, index_base as int, *old(ib) as int, ops@.len() as int).0,
        *final(ib) == test_inserts(spv@, tests@, keys@, key_base, index_base as int, *old(ib) as int, ops@.len() as int).1,
{
    let ghost s = spv@;
    let ghost b = *ib as int;
    let ghost n = ops@.len() as int;
    let ghost base = insert_views(inserts@);
    let mut j: usize = 0;
    assert(insert_views(inserts@) =~= base + test_inserts(s, tests@, keys@, key_base, index_base as int, b, 0).0);
    while j < ops.len()
        invariant
            s == spv@,
            terminates_from(s, 0),
            fits_in_memory(s),
            n == ops@.len(),
            ops@ == nan_inf_ops(s),
            idxs_reach(s, ops@, 3),
            ptrs@ == op_starts(s, spv::SPV_INSTRUCTION_OP_TYPE_POINTER as int),
            idxs_reach(s, ptrs@, 3),
            tests@.len() == ops@.len(),
            forall|i: int| 0 <= i < tests@.len() ==> keys@.contains(#[trigger] tests@[i]),
            functions@.len() == keys@.len(),
            forall|i: int| 0 <= i < keys@.len() ==> #[trigger] functions@[i] == key_function(keys@, key_base, i),
            forall|i: int| 0 <= i < ops@.len() ==> (#[trigger] function_label(s, ops@[i])) is Some,
            forall|i: int| 0 <= i < tests@.len() ==> ((#[trigger] tests@[i]).component_count matches Some(c) ==> {
                &&& first_where(s, ptrs@, 3, tests@[i].float_type_id) is Some
                &&& c + 3 < 0x10000
                &&& index_base + c <= u32::MAX
            }),
            test_inserts(s, tests@, keys@, key_base, index_base as int, b, n).1 <= u32::MAX,
            j <= n,
            *ib == test_inserts(s, tests@, keys@, key_base, index_base as int, b, j as int).1,
            insert_views(inserts@) == base + test_inserts(s, tests@, keys@, key_base, index_base as int, b, j as int).0,
        decreases n - j,
    {
        let k = ops[j];
        let t = tests[j];
        assert(ops@[j as int] + 3 < s.len());
        assert(s.len() == spv.len());
        assert(function_label(s, ops@[j as int]) is Some);
        proof {
            lemma_test_inserts_bound(s, tests@, keys@, key_base, index_base as int, b, j + 1, n);
            lemma_key_index_contains(keys@, t, keys@.len() as int);
        }
        let ki = find_key(keys, t, keys.len());
        let f = functions[ki];
        let ghost prev = test_inserts(s, tests@, keys@, key_base, index_base as int, b, j as int);
        let ghost r = test_rewrite(s, k, t, f, prev.1, index_base as int);
        let param_id = *ib;
        *ib = *ib + 1;
        let label = get_function_label_index_of_instruction_index(spv, k);
        let mut variables = vec![encode_word(4, spv::SPV_INSTRUCTION_OP_VARIABLE), t.inputs.ptr_float_id, param_id,
            spv::SPV_STORAGE_CLASS_FUNCTION];
        let mut words: Vec<u32> = Vec::new();
        match t.component_count {
            Some(count) => {
                proof {
                    lemma_first_where_listed(s, ptrs@, 3, t.float_type_id);
                }
                let p = find_first_where(spv, ptrs, 3, t.float_type_id).unwrap();
                proof {
                    let i = choose|i: int| 0 <= i < ptrs@.len() && ptrs@[i] == p;
                    assert(ptrs@[i] + 3 < s.len());
                }
                let temp_vector_id = *ib;
                *ib = *ib + 1;
                variables.push(encode_word(4, spv::SPV_INSTRUCTION_OP_VARIABLE));
                variables.push(spv[p + 1]);
                variables.push(temp_vector_id);
                variables.push(spv::SPV_STORAGE_CLASS_FUNCTION);
                let mut results = component_tests(spv, k, t, f, index_base, count, ib, &mut words, param_id);
                words.push(encode_word(3 + count as u16, spv::SPV_INSTRUCTION_OP_COMPOSITE_CONSTRUCT));
                words.push(spv[k + 1]);
                words.push(spv[k + 2]);
                words.append(&mut results);
            },
            None => {
                words.push(encode_word(3, spv::SPV_INSTRUCTION_OP_STORE));
                words.push(param_id);
                words.push(spv[k + 3]);
                words.push(encode_word(5, spv::SPV_INSTRUCTION_OP_FUNCTION_CALL));
                words.push(spv[k + 1]);
                words.push(spv[k + 2]);
                words.push(f);
                words.push(param_id);
            },
        }
        proof {
            assert(words@ =~= r.0);
            assert(variables@ =~= r.1);
        }
        let ghost before = inserts@;
        inserts.push(InstructionInsert { previous_spv_idx: k, instruction: words });
        inserts.push(InstructionInsert { previous_spv_idx: label, instruction: variables });
        proof {
            assert(insert_views(inserts@) =~= insert_views(before) + seq![(k, r.0), (function_label(s, k)->0, r.1)]);
            assert(insert_views(inserts@) =~= base + test_inserts(s, tests@, keys@, key_base, index_base as int, b, j + 1).0);
        }
        j = j + 1;
    }
}

/// Overwrites the first four words of each listed instruction with one-word `OpNop`s.
fn fill_nops4(new_spv: &mut Vec<u32>, ks: &Vec<usize>)
    requires
        forall|j: int| 0 <= j < ks@.len() ==> #[trigger] ks@[j] + 4 <= old(new_spv)@.len(),
    ensures
        final(new_spv)@ == nops4_over(old(new_spv)@, ks@),
{
    let ghost v0 = new_spv@;
    let nop = encode_word(1, spv::SPV_INSTRUCTION_OP_NOP);
    let mut j: usize = 0;
    assert(new_spv@ =~= nops4_over(v0, ks@.take(0)));
    while j < ks.len()
        invariant
            j <= ks@.len(),
            nop == spec_encode_word(1, spv::SPV_INSTRUCTION_OP_NOP),
            forall|i: int| 0 <= i < ks@.len() ==> #[trigger] ks@[i] + 4 <= v0.len(),
            new_spv@ == nops4_over(v0, ks@.take(j as int)),
            new_spv@.len() == v0.len(),
        decreases ks@.len() - j,
    {
        let k = ks[j];
        assert(ks@[j as int] + 4 <= v0.len());
        let ghost prev = new_spv@;
        assert(k + 4 <= new_spv.len());
        new_spv.set(k, nop);
        new_spv.set(k + 1, nop);
        new_spv.set(k + 2, nop);
        new_spv.set(k + 3, nop);
        proof {
            let taken = ks@.take(j + 1);
            assert(taken =~= ks@.take(j as int).push(k));
            assert forall|p: int| 0 <= p < v0.len() implies #[trigger] new_spv@[p] == nops4_over(v0, taken)[p] by {
                if exists|i: int| 0 <= i < ks@.take(j as int).len() && #[trigger] ks@.take(j as int)[i] <= p < ks@.take(j as int)[i] + 4 {
                    let i = choose|i: int| 0 <= i < ks@.take(j as int).len() && #[trigger] ks@.take(j as int)[i] <= p < ks@.take(j as int)[i] + 4;
                    assert(taken[i] == ks@.take(j as int)[i]);
                }
                if exists|i: int| 0 <= i < taken.len() && #[trigger] taken[i] <= p < taken[i] + 4 {
                    let i = choose|i: int| 0 <= i < taken.len() && #[trigger] taken[i] <= p < taken[i] + 4;
                    if i < j {
                        assert(ks@.take(j as int)[i] == taken[i]);
                    }
                }
                if k <= p < k + 4 {
                    assert(taken[j as int] == k);
                }
            }
            assert(new_spv@ =~= nops4_over(v0, taken));
        }
        j = j + 1;
    }
    assert(ks@.take(j as int) =~= ks@);
}

/// Every rewrite follows an instruction of the stream.
proof fn lemma_test_inserts_anchored(s: Seq<u32>, tests: Seq<NanInfTest>, keys: Seq<NanInfTest>, key_base: int,
    index_base: int, b: int, n: int)
    requires
        0 <= n <= nan_inf_ops(s).len(),
        forall|j: int| 0 <= j < nan_inf_ops(s).len() ==> starts(s).contains(#[trigger] nan_inf_ops(s)[j])
            && starts(s).contains(function_label(s, nan_inf_ops(s)[j])->0),
    ensures
        forall|i: int| 0 <= i < test_inserts(s, tests, keys, key_base, index_base, b, n).0.len()
            ==> starts(s).contains((#[trigger] test_inserts(s, tests, keys, key_base, index_base, b, n).0[i]).0),
    decreases n,
{
    if n > 0 {
        lemma_test_inserts_anchored(s, tests, keys, key_base, index_base, b, n - 1);
        let prev = test_inserts(s, tests, keys, key_base, index_base, b, n - 1);
        let k = nan_inf_ops(s)[n - 1];
        let t = tests[n - 1];
        let f = key_function(keys, key_base, key_index(keys, t, keys.len() as int));
        let r = test_rewrite(s, k, t, f, prev.1, index_base);
        let last = seq![(k, r.0), (function_label(s, k)->0, r.1)];
        let all = test_inserts(s, tests, keys, key_base, index_base, b, n).0;
        assert(all == prev.0 + last);
        assert forall|i: int| 0 <= i < all.len() implies starts(s).contains((#[trigger] all[i]).0) by {
            if i < prev.0.len() {
                assert(all[i] == prev.0[i]);
            } else if i == prev.0.len() {
                assert(all[i] == last[0]);
            } else {
                assert(all[i] == last[1]);
            }
        }
    }
}

proof fn lemma_ops_listed(s: Seq<u32>)
    requires
        wf_stream(s),
    ensures
        idxs_reach(s, nan_inf_ops(s), 3),
        forall|j: int| 0 <= j < nan_inf_ops(s).len() ==> starts(s).contains(#[trigger] nan_inf_ops(s)[j]),
{
    let nans = op_starts(s, spv::SPV_INSTRUCTION_OP_IS_NAN as int);
    let infs = op_starts(s, spv::SPV_INSTRUCTION_OP_IS_INF as int);
    lemma_op_starts_reach(s, spv::SPV_INSTRUCTION_OP_IS_NAN as int);
    lemma_op_starts_reach(s, spv::SPV_INSTRUCTION_OP_IS_INF as int);
    assert forall|j: int| 0 <= j < nan_inf_ops(s).len() implies #[trigger] nan_inf_ops(s)[j] + 3 < s.len()
        && starts(s).contains(nan_inf_ops(s)[j]) by {
        if j < nans.len() {
            assert(nan_inf_ops(s)[j] == nans[j]);
        } else {
            assert(nan_inf_ops(s)[j] == infs[j - nans.len()]);
        }
    }
}

/// The body with the shared declarations, the rewrites and the replacement functions, and
/// the new instruction bound.
#[verifier::rlimit(60)]
fn nan_inf_patched_body(
    spv: &Vec<u32>,
    new_spv: Vec<u32>,
    instruction_bound: u32,
    ops: &Vec<usize>,
    ptrs: &Vec<usize>,
    vecs: &Vec<usize>,
) -> (r: (Vec<u32>, u32))
    requires
        new_spv@ == spv@,
        wf_stream(spv@),
        !nan_inf_untouched(spv@),
        nan_inf_ready(spv@, instruction_bound as int),
        ops@ == nan_inf_ops(spv@),
        ptrs@ == op_starts(spv@, spv::SPV_INSTRUCTION_OP_TYPE_POINTER as int),
        vecs@ == op_starts(spv@, spv::SPV_INSTRUCTION_OP_TYPE_VECTOR as int),
    ensures
        nan_inf_result(spv@, instruction_bound as int).0 == Some(r.0@),
        r.1 == nan_inf_result(spv@, instruction_bound as int).1,
{
    let ghost s = spv@;
    let ghost b0 = instruction_bound as int;
    let mut new_spv = new_spv;
    let mut ib = instruction_bound;
    proof {
        lemma_tiles_terminates(s, 0);
        lemma_op_starts_reach(s, spv::SPV_INSTRUCTION_OP_TYPE_POINTER as int);
        lemma_op_starts_reach(s, spv::SPV_INSTRUCTION_OP_TYPE_VECTOR as int);
        lemma_ops_listed(s);
    }
    let ghost shared = nan_inf_shared_ids(s, b0);
    let ghost tb = nan_inf_tests(s, shared.3, ops@.len() as int);
    let ghost keys_spec = distinct(tb.0);
    let ghost key_base = tb.2;
    let ghost index_base = key_base + 19 * keys_spec.len();
    let ghost m = max_components(tb.0, tb.0.len() as int) as int;
    let ghost rewrites = test_inserts(s, tb.0, keys_spec, key_base, index_base, index_base + m, ops@.len() as int);
    proof {
        lemma_tests_bound_grows(s, shared.3, ops@.len() as int, ops@.len() as int);
        lemma_test_inserts_bound(s, tb.0, keys_spec, key_base, index_base, index_base + m, ops@.len() as int, ops@.len() as int);
        assert(rewrites.1 <= u32::MAX);
    }
    let anchor = ptrs[ptrs.len() - 1];

    // 1. The unsigned integer type, a pointer to it and the shared constants, reusing the
    // declarations the module already has
    let ints = instruction_idxs(spv.as_slice(), spv::SPV_INSTRUCTION_OP_TYPE_INT);
    proof {
        lemma_op_starts_reach(s, spv::SPV_INSTRUCTION_OP_TYPE_INT as int);
        crate::util::ensure::lemma_ensured_bound(s, ints@, 32, spv::SPV_SIGNEDNESS_UNSIGNED, ib as int);
        let b1 = ensured_bound(s, ints@, 32, spv::SPV_SIGNEDNESS_UNSIGNED, ib as int);
        let u = ensured_id(s, ints@, 32, spv::SPV_SIGNEDNESS_UNSIGNED, ib);
        crate::util::ensure::lemma_ensured_bound(s, ptrs@, spv::SPV_STORAGE_CLASS_FUNCTION, u, b1);
        assert(ib as int == b0);
        assert(shared.3 <= u32::MAX);
    }
    let mut header: Vec<u32> = Vec::new();
    let uint_id = ensure_type_int(spv.as_slice(), ints.as_slice(), &mut ib, &mut header, 32, spv::SPV_SIGNEDNESS_UNSIGNED);
    proof {
        crate::util::ensure::lemma_ensured_bound(s, ptrs@, spv::SPV_STORAGE_CLASS_FUNCTION, uint_id, ib as int);
    }
    let uint_ptr_id = ensure_type_pointer(spv.as_slice(), ptrs.as_slice(), &mut ib, &mut header,
        spv::SPV_STORAGE_CLASS_FUNCTION, uint_id);
    let type_inputs = NanInfSharedTypeInputs { uint_id, ptr_uint_id: uint_ptr_id };
    let (constants, mut constant_words) = nan_inf_shared_constants_spv(&mut ib, type_inputs);
    header.append(&mut constant_words);
    assert(type_inputs == shared.0);
    assert(constants == shared.1);
    assert(header@ =~= shared.2);
    assert(ib == shared.3);

    // 2. Describe the tests
    let tests = collect_tests(spv, ops, ptrs, vecs, &mut ib, &mut header);
    let keys = distinct_tests(&tests);

    // 3. Declare the function types and define the replacement functions
    let mut definitions: Vec<u32> = Vec::new();
    let functions = define_functions(&keys, type_inputs, constants, &mut ib, &mut header, &mut definitions);
    assert(definitions@ =~= key_functions(keys_spec, key_base, shared.0, shared.1, keys_spec.len() as int));

    // 4. The indices for vector components
    let max_count = largest_component_count(&tests);
    let index_base_id = ib;
    let index_words = index_constants(uint_id, max_count, &mut ib);

    // 5. Rewrite the tests
    let mut instruction_inserts: Vec<InstructionInsert> = Vec::new();
    instruction_inserts.push(InstructionInsert { previous_spv_idx: anchor, instruction: header });
    instruction_inserts.push(InstructionInsert { previous_spv_idx: anchor, instruction: index_words });
    let ghost head_views = insert_views(instruction_inserts@);
    proof {
        lemma_distinct_contains(tb.0);
        assert forall|j: int| 0 <= j < tests@.len() implies ((#[trigger] tests@[j]).component_count matches Some(c) ==> {
            &&& first_where(s, ptrs@, 3, tests@[j].float_type_id) is Some
            &&& c + 3 < 0x10000
            &&& index_base_id + c <= u32::MAX
        }) by {
            if tests@[j].component_count is Some {
                lemma_max_components_bound(tb.0, tb.0.len() as int, j);
            }
        }
    }
    rewrite_tests(spv, ops, ptrs, &tests, &keys, &functions, Ghost(key_base), index_base_id, &mut ib,
        &mut instruction_inserts);
    fill_nops4(&mut new_spv, ops);

    // 6. Insert the new instructions
    let word_inserts: Vec<WordInsert> = Vec::new();
    let insert_count = instruction_inserts.len();
    proof {
        let views = insert_views(instruction_inserts@);
        assert(views.len() == insert_count);
        let labels = op_starts(s, spv::SPV_INSTRUCTION_OP_LABEL as int);
        lemma_op_starts_reach(s, spv::SPV_INSTRUCTION_OP_LABEL as int);
        assert forall|j: int| 0 <= j < nan_inf_ops(s).len() implies starts(s).contains(#[trigger] nan_inf_ops(s)[j])
            && starts(s).contains(function_label(s, nan_inf_ops(s)[j])->0) by {
            assert(function_label(s, nan_inf_ops(s)[j]) is Some);
            let f = crate::util::function::enclosing_function(s, nan_inf_ops(s)[j])->0;
            crate::util::function::lemma_first_after_listed(labels, f);
            let i = choose|i: int| 0 <= i < labels.len() && labels[i] == function_label(s, nan_inf_ops(s)[j])->0;
            assert(starts(s).contains(labels[i]));
        }
        lemma_test_inserts_anchored(s, tb.0, keys_spec, key_base, index_base, index_base + m, ops@.len() as int);
        lemma_tiles_inside(s, 0);
        crate::util::instruction::lemma_starts_from_bounds(s, 0);
        assert(starts(s).contains(ptrs@[ptrs@.len() - 1]));
        assert forall|j: int| 0 <= j < views.len() implies (#[trigger] views[j]).0 < s.len()
            && views[j].0 + crate::util::spec_hiword(s[views[j].0 as int]) <= new_spv@.len() by {
            let a = views[j].0;
            if j < 2 {
                assert(views[j] == head_views[j]);
                assert(starts(s).contains(a));
            } else {
                assert(views[j] == rewrites.0[j - 2]);
                assert(starts(s).contains(a));
            }
            let q = choose|q: int| 0 <= q < starts(s).len() && starts(s)[q] == a;
            assert(starts_from(s, 0)[q] + wc_at(s, starts_from(s, 0)[q] as int) <= s.len());
        }
        lemma_inserted_some(s, new_spv@, views);
    }
    proof {
        assert(keys@ == keys_spec);
        assert(anchor == ptrs@.last());
        assert(header@ == shared.2 + tb.1 + key_function_types(keys_spec, key_base, keys_spec.len() as int));
        assert(index_base_id == index_base);
        assert(max_count == m);
        assert(index_words@ == index_constant_words(shared.0.uint_id, index_base, m));
        assert(ib == rewrites.1);
        assert(new_spv@ == nops4_over(s, nan_inf_ops(s)));
        assert(insert_views(instruction_inserts@) == seq![(anchor, header@), (anchor, index_words@)] + rewrites.0);
    }
    insert_new_instructions(spv, &mut new_spv, &word_inserts, &instruction_inserts);
    new_spv.append(&mut definitions);
    (new_spv, ib)
}

proof fn lemma_max_components_bound(tests: Seq<NanInfTest>, n: int, j: int)
    requires
        0 <= j < n <= tests.len(),
        tests[j].component_count is Some,
    ensures
        tests[j].component_count->0 <= max_components(tests, n),
    decreases n,
{
    if j < n - 1 {
        lemma_max_components_bound(tests, n - 1, j);
    }
}

/// Perform the operation on a `Vec<u32>`.
/// The ids the rewrites of the first `j` tests take: one for a scalar test, two and three per
/// component for a vector test.
pub open spec fn test_ids(tests: Seq<NanInfTest>, j: int) -> int
    decreases j,
{
    if j <= 0 {
        0
    } else {
        test_ids(tests, j - 1) + match tests[j - 1].component_count {
            Some(c) => 2 + 3 * c,
            None => 1,
        }
    }
}

proof fn lemma_test_inserts_ids(s: Seq<u32>, tests: Seq<NanInfTest>, keys: Seq<NanInfTest>, key_base: int,
    index_base: int, b: int, j: int)
    requires
        0 <= j,
    ensures
        test_inserts(s, tests, keys, key_base, index_base, b, j).1 == b + test_ids(tests, j),
        test_ids(tests, j) >= j,
    decreases j,
{
    if j > 0 {
        lemma_test_inserts_ids(s, tests, keys, key_base, index_base, b, j - 1);
    }
}

proof fn lemma_test_ids_grow(tests: Seq<NanInfTest>, j: int, n: int)
    requires
        0 <= j <= n,
    ensures
        test_ids(tests, j) + (n - j) <= test_ids(tests, n),
    decreases n - j,
{
    if j < n {
        lemma_test_ids_grow(tests, j + 1, n);
    }
}

proof fn lemma_tests_bound_at_most(s: Seq<u32>, b: int, j: int)
    requires
        0 <= j,
    ensures
        nan_inf_tests(s, b, j).2 <= b + j,
    decreases j,
{
    if j > 0 {
        lemma_tests_bound_at_most(s, b, j - 1);
    }
}

/// Whether replacing the float tests of the module body `spv`, whose instruction bound is
/// `instruction_bound`, can be done: true when there is nothing to replace, and otherwise
/// exactly when `nan_inf_ready` holds.
pub fn is_nan_inf_ready(spv: &[u32], instruction_bound: u32) -> (r: bool)
    requires
        wf_stream(spv@),
    ensures
        r == (!nan_inf_untouched(spv@) ==> nan_inf_ready(spv@, instruction_bound as int)),
{
    let ghost s = spv@;
    let ghost b = instruction_bound as int;
    proof {
        lemma_tiles_terminates(s, 0);
        lemma_op_starts_reach(s, spv::SPV_INSTRUCTION_OP_TYPE_POINTER as int);
        lemma_op_starts_reach(s, spv::SPV_INSTRUCTION_OP_TYPE_VECTOR as int);
        lemma_op_starts_reach(s, spv::SPV_INSTRUCTION_OP_TYPE_FLOAT as int);
        lemma_op_starts_reach(s, spv::SPV_INSTRUCTION_OP_TYPE_INT as int);
        lemma_ops_listed(s);
    }
    let ptrs = instruction_idxs(spv, spv::SPV_INSTRUCTION_OP_TYPE_POINTER);
    let vecs = instruction_idxs(spv, spv::SPV_INSTRUCTION_OP_TYPE_VECTOR);
    let floats = instruction_idxs(spv, spv::SPV_INSTRUCTION_OP_TYPE_FLOAT);
    let ints = instruction_idxs(spv, spv::SPV_INSTRUCTION_OP_TYPE_INT);
    let mut ops = instruction_idxs(spv, spv::SPV_INSTRUCTION_OP_IS_NAN);
    let mut infs = instruction_idxs(spv, spv::SPV_INSTRUCTION_OP_IS_INF);
    ops.append(&mut infs);
    assert(ops@ == nan_inf_ops(s));
    if ops.len() == 0 || ptrs.len() == 0 {
        return true;
    }
    let ghost n = ops@.len() as int;
    let ghost shared = nan_inf_shared_ids(s, b);
    let ghost tb = nan_inf_tests(s, shared.3, n);
    let ghost keys_spec = distinct(tb.0);
    let ghost m_spec = max_components(tb.0, tb.0.len() as int) as int;
    let ghost index_base = tb.2 + 19 * keys_spec.len();
    let ghost result = nan_inf_result(s, b).1;
    proof {
        lemma_tests_bound_grows(s, shared.3, 0, n);
        lemma_tests_bound_grows(s, shared.3, n, n);
        lemma_test_inserts_ids(s, tb.0, keys_spec, tb.2, index_base, index_base + m_spec, n);
        assert(result == index_base + m_spec + test_ids(tb.0, n));
        lemma_distinct_contains(tb.0);
        assert(keys_spec.contains(tb.0[0]));
        let u = ensured_id(s, op_starts(s, spv::SPV_INSTRUCTION_OP_TYPE_INT as int), 32, spv::SPV_SIGNEDNESS_UNSIGNED,
            b as u32);
        let b1 = ensured_bound(s, op_starts(s, spv::SPV_INSTRUCTION_OP_TYPE_INT as int), 32,
            spv::SPV_SIGNEDNESS_UNSIGNED, b);
        crate::util::ensure::lemma_ensured_bound(s, op_starts(s, spv::SPV_INSTRUCTION_OP_TYPE_INT as int), 32,
            spv::SPV_SIGNEDNESS_UNSIGNED, b);
        crate::util::ensure::lemma_ensured_bound(s, op_starts(s, spv::SPV_INSTRUCTION_OP_TYPE_POINTER as int),
            spv::SPV_STORAGE_CLASS_FUNCTION, u, b1);
        assert(shared.3 >= b + 4);
        assert(result >= shared.3 + n);
    }

    // Each test's argument is defined before it, agrees with the result on being a vector,
    // and the test lies in a function with a label.
    let mut j: usize = 0;
    while j < ops.len()
        invariant
            s == spv@,
            wf_stream(s),
            terminates_from(s, 0),
            ops@ == nan_inf_ops(s),
            idxs_reach(s, ops@, 3),
            vecs@ == op_starts(s, spv::SPV_INSTRUCTION_OP_TYPE_VECTOR as int),
            idxs_reach(s, vecs@, 3),
            j <= ops@.len(),
            !nan_inf_untouched(s),
            b == instruction_bound,
            forall|i: int| 0 <= i < j ==> (#[trigger] intermediate_candidates(s, s[ops@[i] + 3], ops@[i])).len() > 0,
            forall|i: int| 0 <= i < j ==> #[trigger] underlying(s, argument_type(s, ops@[i])).1 == underlying(s,
                s[ops@[i] + 1]).1,
            forall|i: int| 0 <= i < j ==> (#[trigger] function_label(s, ops@[i])) is Some,
        decreases ops@.len() - j,
    {
        let k = ops[j];
        assert(ops@[j as int] + 3 < s.len());
        assert(s.len() == spv.len());
        proof {
            crate::util::instruction::lemma_tiles_inside(s, 0);
        }
        match trace_previous_intermediate_id(spv, spv[k + 3], k) {
            None => {
                assert(intermediate_candidates(s, s[ops@[j as int] + 3], ops@[j as int]).len() == 0);
                return false;
            },
            Some(t) => {
                let (_, argument_count) = underlying_type(spv, &vecs, t.result_type_id);
                let (_, result_count) = underlying_type(spv, &vecs, spv[k + 1]);
                if argument_count != result_count {
                    assert(underlying(s, argument_type(s, ops@[j as int])).1 != underlying(s, s[ops@[j as int] + 1]).1);
                    return false;
                }
                if find_function_label(spv, k).is_none() {
                    assert(function_label(s, ops@[j as int]) is None);
                    return false;
                }
            },
        }
        j = j + 1;
    }

    // The ids fit.
    if instruction_bound as u64 + 24 > u32::MAX as u64 {
        return false;
    }
    let mut ib = instruction_bound;
    let mut header: Vec<u32> = Vec::new();
    proof {
        crate::util::ensure::lemma_ensured_bound(s, ints@, 32, spv::SPV_SIGNEDNESS_UNSIGNED, ib as int);
        let b1 = ensured_bound(s, ints@, 32, spv::SPV_SIGNEDNESS_UNSIGNED, ib as int);
        let u = ensured_id(s, ints@, 32, spv::SPV_SIGNEDNESS_UNSIGNED, ib);
        crate::util::ensure::lemma_ensured_bound(s, ptrs@, spv::SPV_STORAGE_CLASS_FUNCTION, u, b1);
    }
    let uint_id = ensure_type_int(spv, ints.as_slice(), &mut ib, &mut header, 32, spv::SPV_SIGNEDNESS_UNSIGNED);
    let uint_ptr_id = ensure_type_pointer(spv, ptrs.as_slice(), &mut ib, &mut header, spv::SPV_STORAGE_CLASS_FUNCTION,
        uint_id);
    let type_inputs = NanInfSharedTypeInputs { uint_id, ptr_uint_id: uint_ptr_id };
    let (_constants, _constant_words) = nan_inf_shared_constants_spv(&mut ib, type_inputs);
    assert(ib == shared.3);
    if ops.len() as u64 > u32::MAX as u64 || ib as u64 + ops.len() as u64 > u32::MAX as u64 {
        return false;
    }
    proof {
        lemma_tests_bound_at_most(s, shared.3, n);
    }
    let tests = collect_tests(spv, &ops, &ptrs, &vecs, &mut ib, &mut header);
    let keys = distinct_tests(&tests);
    let max_count = largest_component_count(&tests);
    if keys.len() > 0x1000_0000 {
        return false;
    }
    let mut total: u64 = ib as u64 + 19 * (keys.len() as u64) + max_count as u64;
    proof {
        lemma_test_ids_grow(tb.0, 0, n);
    }
    if total > u32::MAX as u64 {
        return false;
    }
    let mut q: usize = 0;
    while q < tests.len()
        invariant
            tests@ == tb.0,
            tests@.len() == n,
            q <= n,
            total == index_base + m_spec + test_ids(tb.0, q as int),
            total <= u32::MAX,
            result == index_base + m_spec + test_ids(tb.0, n),
            result == nan_inf_result(s, b).1,
            !nan_inf_untouched(s),
            b == instruction_bound,
            s == spv@,
        decreases n - q,
    {
        let step: u64 = match tests[q].component_count {
            Some(c) => 2 + 3 * (c as u64),
            None => 1,
        };
        total = total + step;
        if total > u32::MAX as u64 {
            proof {
                lemma_test_ids_grow(tb.0, q + 1, n);
            }
            return false;
        }
        q = q + 1;
    }
    assert(result <= u32::MAX);

    // Vector tests have a pointer type to their vector type and few components, and every
    // float type is 32 bits wide.
    let mut q: usize = 0;
    while q < tests.len()
        invariant
            s == spv@,
            tests@ == tb.0,
            tests@.len() == n,
            q <= n,
            !nan_inf_untouched(s),
            b == instruction_bound,
            n == nan_inf_ops(s).len(),
            shared == nan_inf_shared_ids(s, b),
            tb == nan_inf_tests(s, shared.3, n),
            keys_spec == distinct(tb.0),
            ptrs@ == op_starts(s, spv::SPV_INSTRUCTION_OP_TYPE_POINTER as int),
            idxs_reach(s, ptrs@, 3),
            floats@ == op_starts(s, spv::SPV_INSTRUCTION_OP_TYPE_FLOAT as int),
            idxs_reach(s, floats@, 2),
            forall|i: int| 0 <= i < q ==> ((#[trigger] tb.0[i]).component_count matches Some(c) ==> {
                &&& first_where(s, ptrs@, 3, tb.0[i].float_type_id) is Some
                &&& c + 3 < 0x10000
            }),
            forall|i: int| 0 <= i < q ==> (first_where(s, floats@, 1, (#[trigger] tb.0[i]).inputs.float_id) matches Some(f)
                && s[f + 2] == 32),
        decreases n - q,
    {
        let t = tests[q];
        match t.component_count {
            Some(c) => {
                if find_first_where(spv, &ptrs, 3, t.float_type_id).is_none() || c >= 0x10000 - 3 {
                    return false;
                }
            },
            None => {},
        }
        proof {
            lemma_first_where_listed(s, floats@, 1, t.inputs.float_id);
        }
        match find_first_where(spv, &floats, 1, t.inputs.float_id) {
            Some(f) => {
                proof {
                    let i = choose|i: int| 0 <= i < floats@.len() && floats@[i] == f;
                    assert(floats@[i] + 2 < s.len());
                    assert(s.len() == spv.len());
                }
                if spv[f + 2] != 32 {
                    proof {
                        lemma_distinct_contains(tb.0);
                        assert(keys_spec.contains(tb.0[q as int]));
                    }
                    return false;
                }
            },
            None => {
                proof {
                    lemma_distinct_contains(tb.0);
                    assert(keys_spec.contains(tb.0[q as int]));
                }
                return false;
            },
        }
        q = q + 1;
    }
    proof {
        lemma_distinct_contains(tb.0);
        assert forall|i: int| 0 <= i < keys_spec.len() implies (first_where(s, floats@, 1,
            (#[trigger] keys_spec[i]).inputs.float_id) matches Some(f) && s[f + 2] == 32) by {
            assert(tb.0.contains(keys_spec[i]));
        }
    }
    true
}

/// Use [u8_slice_to_u32_vec] to convert a `&[u8]` into a `Vec<u32>`.
/// Does not produce any side effects or corrections.
///
/// Replaces each `OpIsNan` and `OpIsInf` by calls of functions that test the bits of their
/// 32-bit float arguments.
pub fn isnanisinfpatch(in_spv: &[u32]) -> (r: Result<Vec<u32>, ()>)
    requires
        in_spv@.len() >= spv::SPV_HEADER_LENGTH,
        in_spv@[spv::SPV_HEADER_MAGIC_NUM_OFFSET as int] == spv::SPV_HEADER_MAGIC,
        wf_stream(body_of(in_spv@)),
        !nan_inf_untouched(body_of(in_spv@))
            ==> nan_inf_ready(body_of(in_spv@), in_spv@[spv::SPV_HEADER_INSTRUCTION_BOUND_OFFSET as int] as int),
    ensures
        nan_inf_untouched(body_of(in_spv@)) ==> (r matches Ok(out) && out@ == in_spv@),
        !nan_inf_untouched(body_of(in_spv@)) ==> {
            let result = nan_inf_result(body_of(in_spv@), in_spv@[spv::SPV_HEADER_INSTRUCTION_BOUND_OFFSET as int] as int);
            &&& result.0 is Some
            &&& fits_in_memory(result.0->0) && tiles(result.0->0) ==> (r matches Ok(out)
                && out@ == in_spv@.subrange(0, spv::SPV_HEADER_LENGTH as int).update(
                    spv::SPV_HEADER_INSTRUCTION_BOUND_OFFSET as int, result.1 as u32) + strip_nops(result.0->0))
            &&& !(fits_in_memory(result.0->0) && tiles(result.0->0)) ==> r is Err
        },
{
    let ghost s = body_of(in_spv@);
    let instruction_bound = in_spv[spv::SPV_HEADER_INSTRUCTION_BOUND_OFFSET];
    let spv_header = vstd::slice::slice_to_vec(slice_subrange(in_spv, 0, spv::SPV_HEADER_LENGTH));
    let spv = vstd::slice::slice_to_vec(slice_subrange(in_spv, spv::SPV_HEADER_LENGTH, in_spv.len()));
    assert(spv@ == s);
    let new_spv = vstd::slice::slice_to_vec(slice_subrange(in_spv, spv::SPV_HEADER_LENGTH, in_spv.len()));

    // 1. Find the instructions we need
    proof {
        lemma_tiles_terminates(s, 0);
    }
    let op_type_pointer_idxs = instruction_idxs(&spv, spv::SPV_INSTRUCTION_OP_TYPE_POINTER);
    let op_type_vector_idxs = instruction_idxs(&spv, spv::SPV_INSTRUCTION_OP_TYPE_VECTOR);
    let mut ops = instruction_idxs(&spv, spv::SPV_INSTRUCTION_OP_IS_NAN);
    let mut op_is_inf_idxs = instruction_idxs(&spv, spv::SPV_INSTRUCTION_OP_IS_INF);
    ops.append(&mut op_is_inf_idxs);

    if ops.len() == 0 || op_type_pointer_idxs.len() == 0 {
        return Ok(vstd::slice::slice_to_vec(in_spv));
    }

    // 2. Declare, define and rewrite
    let (mut new_spv, instruction_bound) = nan_inf_patched_body(&spv, new_spv, instruction_bound, &ops,
        &op_type_pointer_idxs, &op_type_vector_idxs);
    if !is_tiled(&new_spv) {
        return Err(());
    }

    // 3. Remove the instructions that have been overwritten
    prune_noops(&mut new_spv);

    // 4. Write the new header and the new code
    Ok(fuse_final(spv_header, new_spv, instruction_bound))
}

} // verus!
