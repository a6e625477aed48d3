use vstd::prelude::*;
use vstd::string::StringSliceAdditionalSpecFns;
use vstd::utf8::{decode_utf8, valid_utf8};

use crate::spv::{
    SPV_INSTRUCTION_OP_EXT_INST_IMPORT, SPV_INSTRUCTION_OP_TYPE_BOOL, SPV_INSTRUCTION_OP_TYPE_INT,
    SPV_INSTRUCTION_OP_TYPE_POINTER, SPV_INSTRUCTION_OP_TYPE_VECTOR,
};
use crate::util::instruction::fits_in_memory;
use crate::util::{
    bytes_to_words, encode_word, hiword, literal_to_string_le, spec_encode_word, spec_hiword,
    string_to_literal_le, words_to_bytes, zero_padded,
};

verus! {

/// The instruction at `idx` has the operands `a` and `b` after its result id.
pub open spec fn two_word_match(spv: Seq<u32>, idx: usize, a: u32, b: u32) -> bool {
    spv[idx + 2] == a && spv[idx + 3] == b
}

/// `j` is the first position of `idxs` whose instruction has the operands `a` and `b`.
pub open spec fn is_first_two_word_match(spv: Seq<u32>, idxs: Seq<usize>, a: u32, b: u32, j: int) -> bool {
    &&& 0 <= j < idxs.len()
    &&& two_word_match(spv, idxs[j], a, b)
    &&& forall|k: int| 0 <= k < j ==> !two_word_match(spv, #[trigger] idxs[k], a, b)
}

/// Some position of `idxs` holds an instruction with the operands `a` and `b`.
pub open spec fn has_two_word_match(spv: Seq<u32>, idxs: Seq<usize>, a: u32, b: u32) -> bool {
    exists|j: int| 0 <= j < idxs.len() && two_word_match(spv, #[trigger] idxs[j], a, b)
}

/// Every listed instruction has the words that are read of it.
pub open spec fn idxs_readable(spv: Seq<u32>, idxs: Seq<usize>, reach: int) -> bool {
    forall|j: int| 0 <= j < idxs.len() ==> #[trigger] idxs[j] + reach < spv.len()
}

/// The first position of `idxs` whose instruction has the operands `a` and `b`.
pub open spec fn first_two_word_match(spv: Seq<u32>, idxs: Seq<usize>, a: u32, b: u32) -> int {
    choose|j: int| is_first_two_word_match(spv, idxs, a, b, j)
}

/// The id that looking for a declaration with the operands `a` and `b` gives: the first
/// match's result id, or else the fresh id `bound`.
pub closed spec fn ensured_id(spv: Seq<u32>, idxs: Seq<usize>, a: u32, b: u32, bound: u32) -> u32 {
    if has_two_word_match(spv, idxs, a, b) {
        spv[idxs[first_two_word_match(spv, idxs, a, b)] + 1]
    } else {
        bound
    }
}

/// The instruction bound after that lookup.
pub closed spec fn ensured_bound(spv: Seq<u32>, idxs: Seq<usize>, a: u32, b: u32, bound: int) -> int {
    if has_two_word_match(spv, idxs, a, b) {
        bound
    } else {
        bound + 1
    }
}

/// The declaration that lookup adds: none when there is a match.
pub closed spec fn ensured_decl(spv: Seq<u32>, idxs: Seq<usize>, opcode: u16, a: u32, b: u32, bound: u32) -> Seq<u32> {
    if has_two_word_match(spv, idxs, a, b) {
        Seq::empty()
    } else {
        seq![spec_encode_word(4, opcode), bound, a, b]
    }
}

/// The id of the first `OpTypeBool`, or else the fresh id `bound`.
pub closed spec fn ensured_bool_id(spv: Seq<u32>, idxs: Seq<usize>, bound: u32) -> u32 {
    if idxs.len() > 0 {
        spv[idxs[0] + 1]
    } else {
        bound
    }
}

/// The `OpTypeBool` declaration that lookup adds: none when there is one.
pub closed spec fn ensured_bool_decl(idxs: Seq<usize>, bound: u32) -> Seq<u32> {
    if idxs.len() > 0 {
        Seq::empty()
    } else {
        seq![spec_encode_word(2, SPV_INSTRUCTION_OP_TYPE_BOOL), bound]
    }
}

/// What looking for a declaration with the operands `a` and `b` gives: the first match's
/// result id, the bound unchanged and no declaration when there is one; else the fresh id
/// `bound`, the bound one higher and a declaration of `bound` with those operands.
pub proof fn lemma_ensured(spv: Seq<u32>, idxs: Seq<usize>, opcode: u16, a: u32, b: u32, bound: u32)
    ensures
        ensured_id(spv, idxs, a, b, bound) == if has_two_word_match(spv, idxs, a, b) {
            spv[idxs[first_two_word_match(spv, idxs, a, b)] + 1]
        } else {
            bound
        },
        ensured_bound(spv, idxs, a, b, bound as int) == if has_two_word_match(spv, idxs, a, b) {
            bound as int
        } else {
            bound + 1
        },
        ensured_decl(spv, idxs, opcode, a, b, bound) == if has_two_word_match(spv, idxs, a, b) {
            Seq::<u32>::empty()
        } else {
            seq![spec_encode_word(4, opcode), bound, a, b]
        },
{
}

/// What looking for an `OpTypeBool` gives: the first one's result id and no declaration when
/// there is one; else the fresh id `bound` and its declaration.
pub proof fn lemma_ensured_bool(spv: Seq<u32>, idxs: Seq<usize>, bound: u32)
    ensures
        ensured_bool_id(spv, idxs, bound) == if idxs.len() > 0 { spv[idxs[0] + 1] } else { bound },
        ensured_bool_decl(idxs, bound) == if idxs.len() > 0 {
            Seq::<u32>::empty()
        } else {
            seq![spec_encode_word(2, SPV_INSTRUCTION_OP_TYPE_BOOL), bound]
        },
{
}

/// Looking for a declaration takes at most one fresh id.
pub proof fn lemma_ensured_bound(spv: Seq<u32>, idxs: Seq<usize>, a: u32, b: u32, bound: int)
    ensures
        bound <= ensured_bound(spv, idxs, a, b, bound) <= bound + 1,
{
}

proof fn lemma_first_match_unique(spv: Seq<u32>, idxs: Seq<usize>, a: u32, b: u32, j: int)
    requires
        is_first_two_word_match(spv, idxs, a, b, j),
    ensures
        first_two_word_match(spv, idxs, a, b) == j,
{
    let c = first_two_word_match(spv, idxs, a, b);
    assert(is_first_two_word_match(spv, idxs, a, b, c));
    if c < j {
        assert(!two_word_match(spv, idxs[c], a, b));
    } else if c > j {
        assert(!two_word_match(spv, idxs[j], a, b));
    }
}

fn find_two_word_match(spv: &[u32], idxs: &[usize], a: u32, b: u32) -> (r: Option<usize>)
    requires
        idxs_readable(spv@, idxs@, 3),
    ensures
        r is Some <==> has_two_word_match(spv@, idxs@, a, b),
        r matches Some(j) ==> is_first_two_word_match(spv@, idxs@, a, b, j as int),
{
    let mut j: usize = 0;
    while j < idxs.len()
        invariant
            j <= idxs@.len(),
            idxs_readable(spv@, idxs@, 3),
            forall|k: int| 0 <= k < j ==> !two_word_match(spv@, #[trigger] idxs@[k], a, b),
        decreases idxs@.len() - j,
    {
        let idx = idxs[j];
        assert(idx + 3 < spv.len());
        if spv[idx + 2] == a && spv[idx + 3] == b {
            return Some(j);
        }
        j = j + 1;
    }
    None
}

fn ensure_two_word(
    spv: &[u32],
    idxs: &[usize],
    instruction_bound: &mut u32,
    header: &mut Vec<u32>,
    opcode: u16,
    a: u32,
    b: u32,
) -> (r: u32)
    requires
        idxs_readable(spv@, idxs@, 3),
        !has_two_word_match(spv@, idxs@, a, b) ==> *old(instruction_bound) < u32::MAX,
    ensures
        r == ensured_id(spv@, idxs@, a, b, *old(instruction_bound)),
        *final(instruction_bound) == ensured_bound(spv@, idxs@, a, b, *old(instruction_bound) as int),
        final(header)@ == old(header)@ + ensured_decl(spv@, idxs@, opcode, a, b, *old(instruction_bound)),
{
    match find_two_word_match(spv, idxs, a, b) {
        Some(j) => {
            let idx = idxs[j];
            assert(idx + 3 < spv.len());
            proof {
                lemma_first_match_unique(spv@, idxs@, a, b, j as int);
                assert(old(header)@ + Seq::<u32>::empty() =~= old(header)@);
            }
            spv[idx + 1]
        },
        None => {
            let new_id = *instruction_bound;
            *instruction_bound += 1;
            header.push(encode_word(4, opcode));
            header.push(new_id);
            header.push(a);
            header.push(b);
            proof {
                assert(final(header)@ =~= old(header)@ + seq![spec_encode_word(4, opcode), new_id, a, b]);
            }
            new_id
        },
    }
}

/// The result id of the first `OpTypeInt` with the given width and signedness, declared
/// at the end of `header` with a fresh id when there is none.
pub fn ensure_type_int(
    spv: &[u32],
    op_type_int_idxs: &[usize],
    instruction_bound: &mut u32,
    header: &mut Vec<u32>,
    template_width: u32,
    template_signedness: u32,
) -> (r: u32)
    requires
        idxs_readable(spv@, op_type_int_idxs@, 3),
        !has_two_word_match(spv@, op_type_int_idxs@, template_width, template_signedness)
            ==> *old(instruction_bound) < u32::MAX,
    ensures
        r == ensured_id(spv@, op_type_int_idxs@, template_width, template_signedness, *old(instruction_bound)),
        *final(instruction_bound) == ensured_bound(spv@, op_type_int_idxs@, template_width, template_signedness, *old(instruction_bound) as int),
        final(header)@ == old(header)@ + ensured_decl(spv@, op_type_int_idxs@, SPV_INSTRUCTION_OP_TYPE_INT, template_width, template_signedness,
            *old(instruction_bound)),
{
    ensure_two_word(spv, op_type_int_idxs, instruction_bound, header, SPV_INSTRUCTION_OP_TYPE_INT,
        template_width, template_signedness)
}

/// The result id of the first `OpTypeVector` with the given component type and count,
/// declared at the end of `header` with a fresh id when there is none.
pub fn ensure_type_vector(
    spv: &[u32],
    op_type_vector_idxs: &[usize],
    instruction_bound: &mut u32,
    header: &mut Vec<u32>,
    template_component_type_id: u32,
    template_component_count: u32,
) -> (r: u32)
    requires
        idxs_readable(spv@, op_type_vector_idxs@, 3),
        !has_two_word_match(spv@, op_type_vector_idxs@, template_component_type_id, template_component_count)
            ==> *old(instruction_bound) < u32::MAX,
    ensures
        r == ensured_id(spv@, op_type_vector_idxs@, template_component_type_id, template_component_count, *old(instruction_bound)),
        *final(instruction_bound) == ensured_bound(spv@, op_type_vector_idxs@, template_component_type_id, template_component_count, *old(instruction_bound) as int),
        final(header)@ == old(header)@ + ensured_decl(spv@, op_type_vector_idxs@, SPV_INSTRUCTION_OP_TYPE_VECTOR, template_component_type_id, template_component_count,
            *old(instruction_bound)),
{
    ensure_two_word(spv, op_type_vector_idxs, instruction_bound, header, SPV_INSTRUCTION_OP_TYPE_VECTOR,
        template_component_type_id, template_component_count)
}

/// The result id of the first `OpTypePointer` with the given storage class and pointee
/// type, declared at the end of `header` with a fresh id when there is none.
pub fn ensure_type_pointer(
    spv: &[u32],
    op_type_pointer_idxs: &[usize],
    instruction_bound: &mut u32,
    header: &mut Vec<u32>,
    template_storage_class: u32,
    template_underlying_type_id: u32,
) -> (r: u32)
    requires
        idxs_readable(spv@, op_type_pointer_idxs@, 3),
        !has_two_word_match(spv@, op_type_pointer_idxs@, template_storage_class, template_underlying_type_id)
            ==> *old(instruction_bound) < u32::MAX,
    ensures
        r == ensured_id(spv@, op_type_pointer_idxs@, template_storage_class, template_underlying_type_id, *old(instruction_bound)),
        *final(instruction_bound) == ensured_bound(spv@, op_type_pointer_idxs@, template_storage_class, template_underlying_type_id, *old(instruction_bound) as int),
        final(header)@ == old(header)@ + ensured_decl(spv@, op_type_pointer_idxs@, SPV_INSTRUCTION_OP_TYPE_POINTER, template_storage_class, template_underlying_type_id,
            *old(instruction_bound)),
{
    ensure_two_word(spv, op_type_pointer_idxs, instruction_bound, header, SPV_INSTRUCTION_OP_TYPE_POINTER,
        template_storage_class, template_underlying_type_id)
}

/// The result id of the first `OpTypeBool`, declared at the end of `header` with a fresh id
/// when there is none.
pub fn ensure_type_bool(
    spv: &[u32],
    op_type_bool_idxs: &[usize],
    instruction_bound: &mut u32,
    header: &mut Vec<u32>,
) -> (r: u32)
    requires
        idxs_readable(spv@, op_type_bool_idxs@, 1),
        op_type_bool_idxs@.len() == 0 ==> *old(instruction_bound) < u32::MAX,
    ensures
        r == ensured_bool_id(spv@, op_type_bool_idxs@, *old(instruction_bound)),
        *final(instruction_bound) == *old(instruction_bound) + if op_type_bool_idxs@.len() > 0 { 0int } else { 1int },
        final(header)@ == old(header)@ + ensured_bool_decl(op_type_bool_idxs@, *old(instruction_bound)),
{
    if op_type_bool_idxs.len() > 0 {
        let idx = op_type_bool_idxs[0];
        assert(idx + 1 < spv.len());
        assert(old(header)@ + Seq::<u32>::empty() =~= old(header)@);
        spv[idx + 1]
    } else {
        let new_id = *instruction_bound;
        *instruction_bound += 1;
        header.push(encode_word(2, SPV_INSTRUCTION_OP_TYPE_BOOL));
        header.push(new_id);
        proof {
            assert(final(header)@ =~= old(header)@ + seq![spec_encode_word(2, SPV_INSTRUCTION_OP_TYPE_BOOL), new_id]);
        }
        new_id
    }
}

/// The name operand of the `OpExtInstImport` at `idx`: its words after the result id.
pub open spec fn import_name_words(spv: Seq<u32>, idx: usize) -> Seq<u32> {
    spv.subrange(idx + 2, idx + spec_hiword(spv[idx as int]))
}

/// Every listed `OpExtInstImport` is whole and names its instruction set in valid UTF-8.
pub open spec fn imports_readable(spv: Seq<u32>, idxs: Seq<usize>) -> bool {
    forall|j: int|
        0 <= j < idxs.len() ==> {
            &&& 2 <= spec_hiword(spv[#[trigger] idxs[j] as int])
            &&& idxs[j] + spec_hiword(spv[idxs[j] as int]) <= spv.len()
            &&& valid_utf8(words_to_bytes(import_name_words(spv, idxs[j])))
        }
}

/// The bytes of the name of the `OpExtInstImport` at `idx`.
pub open spec fn import_name_bytes(spv: Seq<u32>, idx: usize) -> Seq<u8> {
    words_to_bytes(import_name_words(spv, idx))
}

/// `j` is the first listed import whose name `accepts` holds of.
pub open spec fn is_first_accepted(spv: Seq<u32>, idxs: Seq<usize>, accepts: spec_fn(Seq<u8>) -> bool, j: int) -> bool {
    &&& 0 <= j < idxs.len()
    &&& accepts(import_name_bytes(spv, idxs[j]))
    &&& forall|k: int| 0 <= k < j ==> !accepts(#[trigger] import_name_bytes(spv, idxs[k]))
}

/// Some listed import has a name that `accepts` holds of.
pub open spec fn some_accepted(spv: Seq<u32>, idxs: Seq<usize>, accepts: spec_fn(Seq<u8>) -> bool) -> bool {
    exists|j: int| 0 <= j < idxs.len() && accepts(#[trigger] import_name_bytes(spv, idxs[j]))
}

/// The `OpExtInstImport` of `name`, with id `id`.
pub open spec fn import_words(id: u32, name: Seq<u8>) -> Seq<u32> {
    seq![spec_encode_word((2 + bytes_to_words(zero_padded(name)).len()) as u16, SPV_INSTRUCTION_OP_EXT_INST_IMPORT), id]
        + bytes_to_words(zero_padded(name))
}

/// The result id of the first listed `OpExtInstImport` whose name the filter accepts, or,
/// when the filter accepts none, the fresh id of an `OpExtInstImport` of `template`
/// appended to `header`. What the filter answers is `accepts` of the name's bytes.
pub fn ensure_ext_inst_import<F: Fn(&str) -> bool>(
    spv: &[u32],
    op_ext_inst_import_idxs: &[usize],
    instruction_bound: &mut u32,
    header: &mut Vec<u32>,
    filter: F,
    template: &str,
    Ghost(accepts): Ghost<spec_fn(Seq<u8>) -> bool>,
) -> (r: u32)
    requires
        fits_in_memory(spv@),
        imports_readable(spv@, op_ext_inst_import_idxs@),
        forall|s: &str| #[trigger] filter.requires((s,)),
        forall|s: &str, b: bool| #[trigger] filter.ensures((s,), b) ==> b == accepts(s.spec_bytes()),
        !some_accepted(spv@, op_ext_inst_import_idxs@, accepts) ==> *old(instruction_bound) < u32::MAX,
        template.spec_bytes().len() <= 0x3_FFF4,
    ensures
        some_accepted(spv@, op_ext_inst_import_idxs@, accepts) ==> {
            &&& exists|j: int| is_first_accepted(spv@, op_ext_inst_import_idxs@, accepts, j)
                && r == spv@[op_ext_inst_import_idxs@[j] + 1]
            &&& *final(instruction_bound) == *old(instruction_bound)
            &&& final(header)@ == old(header)@
        },
        !some_accepted(spv@, op_ext_inst_import_idxs@, accepts) ==> {
            &&& r == *old(instruction_bound)
            &&& *final(instruction_bound) == *old(instruction_bound) + 1
            &&& final(header)@ == old(header)@ + import_words(r, template.spec_bytes())
        },
{
    let mut j: usize = 0;
    while j < op_ext_inst_import_idxs.len()
        invariant
            j <= op_ext_inst_import_idxs@.len(),
            fits_in_memory(spv@),
            imports_readable(spv@, op_ext_inst_import_idxs@),
            forall|s: &str| #[trigger] filter.requires((s,)),
            forall|s: &str, b: bool| #[trigger] filter.ensures((s,), b) ==> b == accepts(s.spec_bytes()),
            forall|k: int| 0 <= k < j ==> !accepts(#[trigger] import_name_bytes(spv@, op_ext_inst_import_idxs@[k])),
        decreases op_ext_inst_import_idxs@.len() - j,
    {
        let idx = op_ext_inst_import_idxs[j];
        assert(idx + spec_hiword(spv@[idx as int]) <= spv.len());
        let word_count = hiword(spv[idx]) as usize;
        let name = &spv[idx + 2..idx + word_count];
        match literal_to_string_le(name) {
            Ok(extension) => {
                proof {
                    assert(name@ == import_name_words(spv@, idx));
                    vstd::utf8::decode_utf8_encode_utf8(import_name_bytes(spv@, idx));
                }
                let accepted = filter(extension.as_str());
                assert(accepted == accepts(import_name_bytes(spv@, op_ext_inst_import_idxs@[j as int])));
                if accepted {
                    assert(is_first_accepted(spv@, op_ext_inst_import_idxs@, accepts, j as int));
                    return spv[idx + 1];
                }
            },
            Err(_) => {
                assert(false);
            },
        }
        j = j + 1;
    }
    let ext = string_to_literal_le(template);
    let new_id = *instruction_bound;
    *instruction_bound += 1;
    header.push(encode_word(2 + ext.len() as u16, SPV_INSTRUCTION_OP_EXT_INST_IMPORT));
    header.push(new_id);
    let mut k: usize = 0;
    let ghost base = header@;
    while k < ext.len()
        invariant
            k <= ext@.len(),
            header@ == base + ext@.subrange(0, k as int),
        decreases ext@.len() - k,
    {
        header.push(ext[k]);
        proof {
            assert(header@ =~= base + ext@.subrange(0, k + 1));
        }
        k = k + 1;
    }
    proof {
        assert(ext@.subrange(0, k as int) =~= ext@);
    }
    new_id
}

} // verus!
