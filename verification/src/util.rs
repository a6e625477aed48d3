use vstd::prelude::*;
use vstd::utf8::{decode_utf8, valid_utf8};
use vstd::string::StringSliceAdditionalSpecFns;

pub mod copy_decorate;
pub mod correct_decorate;
pub mod decorate;
pub mod ensure;
pub mod function;
pub mod instruction;
pub mod interp;
pub mod keys;
pub mod opaque_trace;
pub mod pointer;
pub mod sort;

use crate::spv::{SPV_HEADER_INSTRUCTION_BOUND_OFFSET, SPV_INSTRUCTION_OP_NOP};
use crate::util::instruction::{fits_in_memory, op_at, tiles_from, wc_at};


verus! {

/// The upper half of a word: the word count of an instruction's first word.
pub open spec fn spec_hiword(value: u32) -> int {
    value as int / 0x10000
}

/// The lower half of a word: the opcode of an instruction's first word.
pub open spec fn spec_loword(value: u32) -> int {
    value as int % 0x10000
}

/// The word built from a word count and an opcode.
pub open spec fn spec_encode_word(hi: u16, lo: u16) -> u32 {
    (hi as int * 0x10000 + lo as int) as u32
}

pub fn hiword(value: u32) -> (r: u16)
    ensures
        r == spec_hiword(value),
{
    assert(((value >> 16u32) & 0xFFFFu32) == value / 0x10000) by (bit_vector);
    ((value >> 16) & 0xFFFF) as u16
}

pub fn loword(value: u32) -> (r: u16)
    ensures
        r == spec_loword(value),
{
    assert((value & 0xFFFFu32) == value % 0x10000) by (bit_vector);
    (value & 0xFFFF) as u16
}

pub fn encode_word(hiword: u16, loword: u16) -> (r: u32)
    ensures
        r == spec_encode_word(hiword, loword),
        r as int == hiword as int * 0x10000 + loword as int,
{
    assert((((hiword as u32) << 16u32) | (loword as u32)) == (hiword as u32) * 0x10000 + (loword as u32)) by (bit_vector);
    ((hiword as u32) << 16) | (loword as u32)
}

/// Splitting a word and joining the halves gives the word back.
pub proof fn lemma_encode_split(value: u32)
    ensures
        spec_encode_word(spec_hiword(value) as u16, spec_loword(value) as u16) == value,
{
}

/// Joining two halves and splitting the word gives the halves back.
pub proof fn lemma_split_encode(hi: u16, lo: u16)
    ensures
        spec_hiword(spec_encode_word(hi, lo)) == hi,
        spec_loword(spec_encode_word(hi, lo)) == lo,
{
}

/// Byte `k` (0 = least significant) of a word.
pub open spec fn byte_of(w: u32, k: int) -> u8 {
    if k == 0 {
        (w % 0x100) as u8
    } else if k == 1 {
        ((w / 0x100) % 0x100) as u8
    } else if k == 2 {
        ((w / 0x10000) % 0x100) as u8
    } else {
        (w / 0x1000000) as u8
    }
}

/// The word whose little-endian bytes are `b0, b1, b2, b3`.
pub open spec fn le_word(b0: u8, b1: u8, b2: u8, b3: u8) -> u32 {
    (b0 as int + b1 as int * 0x100 + b2 as int * 0x10000 + b3 as int * 0x1000000) as u32
}

/// The bytes of a sequence of words, each word little-endian.
pub open spec fn words_to_bytes(ws: Seq<u32>) -> Seq<u8> {
    Seq::new(4 * ws.len(), |j: int| byte_of(ws[j / 4], j % 4))
}

/// The words made of each group of four bytes, little-endian; trailing bytes that do not
/// fill a word are not part of any word.
pub open spec fn bytes_to_words(bs: Seq<u8>) -> Seq<u32> {
    Seq::new(bs.len() / 4, |i: int| le_word(bs[4 * i], bs[4 * i + 1], bs[4 * i + 2], bs[4 * i + 3]))
}

/// Number of zero bytes that pad a byte string to a whole number of words.
pub open spec fn pad_len(n: nat) -> nat {
    ((4 - n % 4) % 4) as nat
}

/// A byte string padded with zero bytes to a whole number of words.
pub open spec fn zero_padded(bs: Seq<u8>) -> Seq<u8> {
    bs + Seq::new(pad_len(bs.len()), |i: int| 0u8)
}

proof fn lemma_le_word_bytes(w: u32)
    ensures
        le_word(byte_of(w, 0), byte_of(w, 1), byte_of(w, 2), byte_of(w, 3)) == w,
{
    assert((w % 0x100) + ((w / 0x100) % 0x100) * 0x100 + ((w / 0x10000) % 0x100) * 0x10000 + (w / 0x1000000) * 0x1000000 == w) by (nonlinear_arith);
}

proof fn lemma_bytes_le_word(b0: u8, b1: u8, b2: u8, b3: u8)
    ensures
        byte_of(le_word(b0, b1, b2, b3), 0) == b0,
        byte_of(le_word(b0, b1, b2, b3), 1) == b1,
        byte_of(le_word(b0, b1, b2, b3), 2) == b2,
        byte_of(le_word(b0, b1, b2, b3), 3) == b3,
{
    let w = b0 as int + b1 as int * 0x100 + b2 as int * 0x10000 + b3 as int * 0x1000000;
    assert(0 <= w < 0x1_0000_0000) by (nonlinear_arith)
        requires w == b0 as int + b1 as int * 0x100 + b2 as int * 0x10000 + b3 as int * 0x1000000,
            0 <= b0 < 256, 0 <= b1 < 256, 0 <= b2 < 256, 0 <= b3 < 256;
    assert(w % 0x100 == b0) by (nonlinear_arith)
        requires w == b0 as int + b1 as int * 0x100 + b2 as int * 0x10000 + b3 as int * 0x1000000,
            0 <= b0 < 256, 0 <= b1 < 256, 0 <= b2 < 256, 0 <= b3 < 256;
    assert((w / 0x100) % 0x100 == b1) by (nonlinear_arith)
        requires w == b0 as int + b1 as int * 0x100 + b2 as int * 0x10000 + b3 as int * 0x1000000,
            0 <= b0 < 256, 0 <= b1 < 256, 0 <= b2 < 256, 0 <= b3 < 256;
    assert((w / 0x10000) % 0x100 == b2) by (nonlinear_arith)
        requires w == b0 as int + b1 as int * 0x100 + b2 as int * 0x10000 + b3 as int * 0x1000000,
            0 <= b0 < 256, 0 <= b1 < 256, 0 <= b2 < 256, 0 <= b3 < 256;
    assert(w / 0x1000000 == b3) by (nonlinear_arith)
        requires w == b0 as int + b1 as int * 0x100 + b2 as int * 0x10000 + b3 as int * 0x1000000,
            0 <= b0 < 256, 0 <= b1 < 256, 0 <= b2 < 256, 0 <= b3 < 256;
}

/// Reading words back from the bytes of words gives the words.
pub proof fn lemma_words_bytes_roundtrip(ws: Seq<u32>)
    ensures
        bytes_to_words(words_to_bytes(ws)) == ws,
{
    let bs = words_to_bytes(ws);
    let r = bytes_to_words(bs);
    assert(r.len() == ws.len());
    assert forall|i: int| 0 <= i < ws.len() implies r[i] == ws[i] by {
        assert((4 * i) / 4 == i && (4 * i) % 4 == 0);
        assert((4 * i + 1) / 4 == i && (4 * i + 1) % 4 == 1);
        assert((4 * i + 2) / 4 == i && (4 * i + 2) % 4 == 2);
        assert((4 * i + 3) / 4 == i && (4 * i + 3) % 4 == 3);
        lemma_le_word_bytes(ws[i]);
    }
    assert(r =~= ws);
}

/// Writing out the words read from a whole number of words' bytes gives the bytes.
pub proof fn lemma_bytes_words_roundtrip(bs: Seq<u8>)
    requires
        bs.len() % 4 == 0,
    ensures
        words_to_bytes(bytes_to_words(bs)) == bs,
{
    let ws = bytes_to_words(bs);
    let r = words_to_bytes(ws);
    assert(r.len() == bs.len());
    assert forall|j: int| 0 <= j < bs.len() implies r[j] == bs[j] by {
        let i = j / 4;
        let k = j % 4;
        assert(j == 4 * i + k);
        assert(0 <= i < ws.len());
        lemma_bytes_le_word(bs[4 * i], bs[4 * i + 1], bs[4 * i + 2], bs[4 * i + 3]);
    }
    assert(r =~= bs);
}

fn push_word_le_bytes(bytes: &mut Vec<u8>, word: u32)
    ensures
        final(bytes)@ == old(bytes)@ + seq![byte_of(word, 0), byte_of(word, 1), byte_of(word, 2), byte_of(word, 3)],
{
    assert((word & 0xFFu32) == word % 0x100) by (bit_vector);
    assert(((word >> 8u32) & 0xFFu32) == (word / 0x100) % 0x100) by (bit_vector);
    assert(((word >> 16u32) & 0xFFu32) == (word / 0x10000) % 0x100) by (bit_vector);
    assert(((word >> 24u32) & 0xFFu32) == word / 0x1000000) by (bit_vector);
    bytes.push((word & 0xFF) as u8);
    bytes.push(((word >> 8) & 0xFF) as u8);
    bytes.push(((word >> 16) & 0xFF) as u8);
    bytes.push(((word >> 24) & 0xFF) as u8);
}

/// The little-endian bytes of all the words, in order.
pub fn words_le_bytes(input: &[u32]) -> (r: Vec<u8>)
    requires
        fits_in_memory(input@),
    ensures
        r@ == words_to_bytes(input@),
{
    let mut bytes: Vec<u8> = Vec::new();
    let mut i: usize = 0;
    while i < input.len()
        invariant
            i <= input@.len(),
            fits_in_memory(input@),
            bytes@ == words_to_bytes(input@.subrange(0, i as int)),
        decreases input@.len() - i,
    {
        let ghost before = bytes@;
        push_word_le_bytes(&mut bytes, input[i]);
        proof {
            let next = words_to_bytes(input@.subrange(0, i + 1));
            assert forall|j: int| 0 <= j < next.len() implies bytes@[j] == next[j] by {
                if j < 4 * i {
                    assert(j / 4 < i);
                    assert(before[j] == byte_of(input@.subrange(0, i as int)[j / 4], j % 4));
                } else {
                    assert(j / 4 == i);
                }
            }
            assert(bytes@ =~= next);
        }
        i = i + 1;
    }
    proof {
        assert(input@.subrange(0, i as int) =~= input@);
    }
    bytes
}

/// The word made of four little-endian bytes.
pub fn word_from_le_bytes(b0: u8, b1: u8, b2: u8, b3: u8) -> (r: u32)
    ensures
        r == le_word(b0, b1, b2, b3),
{
    assert(((b0 as u32) | ((b1 as u32) << 8u32) | ((b2 as u32) << 16u32) | ((b3 as u32) << 24u32))
        == (b0 as u32) + (b1 as u32) * 0x100 + (b2 as u32) * 0x10000 + (b3 as u32) * 0x1000000) by (bit_vector);
    (b0 as u32) | ((b1 as u32) << 8) | ((b2 as u32) << 16) | ((b3 as u32) << 24)
}

/// The error `std::str::from_utf8` gives for bytes that are not valid UTF-8.
#[verifier::external_type_specification]
#[verifier::external_body]
pub struct ExUtf8Error(std::str::Utf8Error);

/// `std::str::from_utf8`: its documentation states that it returns the string slice whose
/// bytes are the given bytes exactly when they are valid UTF-8, and an error otherwise. What
/// the error holds (where the valid prefix ends) is not stated.
#[verifier::external_body]
fn str_from_utf8(v: &[u8]) -> (r: Result<&str, std::str::Utf8Error>)
    ensures
        r is Ok <==> valid_utf8(v@),
        r matches Ok(s) ==> s.spec_bytes() == v@,
{
    std::str::from_utf8(v)
}

/// Decodes a literal string operand: the words' little-endian bytes read as UTF-8.
pub fn literal_to_string_le(input: &[u32]) -> (r: Result<String, std::str::Utf8Error>)
    requires
        fits_in_memory(input@),
    ensures
        r is Ok <==> valid_utf8(words_to_bytes(input@)),
        r matches Ok(s) ==> s@ == decode_utf8(words_to_bytes(input@)),
{
    let bytes = words_le_bytes(input);
    match str_from_utf8(bytes.as_slice()) {
        Ok(s) => {
            proof {
                vstd::utf8::encode_utf8_decode_utf8(s@);
            }
            Ok(s.to_owned())
        },
        Err(e) => Err(e),
    }
}

/// Encodes a string as a literal string operand: its UTF-8 bytes, padded with zero bytes
/// to a whole number of words, packed four per word little-endian.
pub fn string_to_literal_le(s: &str) -> (r: Vec<u32>)
    ensures
        r@ == bytes_to_words(zero_padded(s.spec_bytes())),
{
    let bytes = s.as_bytes();
    let ghost bs = s.spec_bytes();
    let ghost padded = zero_padded(bs);
    let n = bytes.len();
    let words = n / 4 + if n % 4 == 0 { 0 } else { 1 };
    let mut out: Vec<u32> = Vec::new();
    let mut w: usize = 0;
    assert(padded.len() == 4 * words);
    while w < words
        invariant
            bytes@ == bs,
            n == bs.len(),
            padded == zero_padded(bs),
            padded.len() == 4 * words,
            words == n / 4 + if n % 4 == 0 { 0int } else { 1int },
            w <= words,
            out@ == bytes_to_words(padded).subrange(0, w as int),
        decreases words - w,
    {
        let i = 4 * w;
        assert(i < n);
        let b0 = bytes[i];
        let b1 = if n - i > 1 { bytes[i + 1] } else { 0u8 };
        let b2 = if n - i > 2 { bytes[i + 2] } else { 0u8 };
        let b3 = if n - i > 3 { bytes[i + 3] } else { 0u8 };
        proof {
            assert(b0 == padded[i as int]);
            assert(b1 == padded[i + 1]);
            assert(b2 == padded[i + 2]);
            assert(b3 == padded[i + 3]);
        }
        out.push(word_from_le_bytes(b0, b1, b2, b3));
        proof {
            assert(out@ =~= bytes_to_words(padded).subrange(0, w + 1));
        }
        w = w + 1;
    }
    proof {
        assert(out@ =~= bytes_to_words(padded));
    }
    out
}

/// Decoding the literal made of a string whose UTF-8 encoding is a whole number of words
/// gives the string back.
pub proof fn lemma_literal_roundtrip(s: &str)
    requires
        s.spec_bytes().len() % 4 == 0,
    ensures
        valid_utf8(words_to_bytes(bytes_to_words(zero_padded(s.spec_bytes())))),
        decode_utf8(words_to_bytes(bytes_to_words(zero_padded(s.spec_bytes())))) == s@,
{
    let bs = s.spec_bytes();
    assert(zero_padded(bs) =~= bs);
    lemma_bytes_words_roundtrip(bs);
    vstd::utf8::encode_utf8_valid_utf8(s@);
    vstd::utf8::encode_utf8_decode_utf8(s@);
}

/// Re-encoding a decoded literal gives the literal back.
pub proof fn lemma_literal_reencode(ws: Seq<u32>)
    requires
        valid_utf8(words_to_bytes(ws)),
    ensures
        bytes_to_words(zero_padded(vstd::utf8::encode_utf8(decode_utf8(words_to_bytes(ws))))) == ws,
{
    let bs = words_to_bytes(ws);
    vstd::utf8::decode_utf8_encode_utf8(bs);
    assert(zero_padded(bs) =~= bs);
    lemma_words_bytes_roundtrip(ws);
}

/// The stream from `i` on with its `OpNop` instructions left out.
pub open spec fn strip_nops_from(s: Seq<u32>, i: int) -> Seq<u32>
    decreases s.len() - i,
{
    if 0 <= i < s.len() && wc_at(s, i) >= 1 {
        (if op_at(s, i) == SPV_INSTRUCTION_OP_NOP as int {
            Seq::<u32>::empty()
        } else {
            s.subrange(i, if i + wc_at(s, i) <= s.len() { i + wc_at(s, i) } else { s.len() as int })
        }) + if i + wc_at(s, i) < s.len() {
            strip_nops_from(s, i + wc_at(s, i))
        } else {
            Seq::<u32>::empty()
        }
    } else {
        Seq::<u32>::empty()
    }
}

/// The stream with its `OpNop` instructions left out.
pub open spec fn strip_nops(s: Seq<u32>) -> Seq<u32> {
    strip_nops_from(s, 0)
}

/// Removes every `OpNop` instruction (of any word count) from a stream of whole instructions.
pub fn prune_noops(new_spv: &mut Vec<u32>)
    requires
        tiles_from(old(new_spv)@, 0),
        fits_in_memory(old(new_spv)@),
    ensures
        final(new_spv)@ == strip_nops(old(new_spv)@),
{
    let ghost s = new_spv@;
    let mut out: Vec<u32> = Vec::new();
    let mut i_idx: usize = 0;
    while i_idx < new_spv.len()
        invariant
            new_spv@ == s,
            fits_in_memory(s),
            tiles_from(s, i_idx as int),
            i_idx <= s.len(),
            out@ + strip_nops_from(s, i_idx as int) == strip_nops(s),
        decreases s.len() - i_idx,
    {
        let op = new_spv[i_idx];
        let word_count = hiword(op);
        let instruction = loword(op);
        let end = i_idx + word_count as usize;
        let ghost before = out@;
        if instruction != SPV_INSTRUCTION_OP_NOP {
            let mut k = i_idx;
            while k < end
                invariant
                    new_spv@ == s,
                    i_idx <= k <= end <= s.len(),
                    out@ == before + s.subrange(i_idx as int, k as int),
                decreases end - k,
            {
                out.push(new_spv[k]);
                proof {
                    assert(out@ =~= before + s.subrange(i_idx as int, k + 1));
                }
                k = k + 1;
            }
        }
        proof {
            if end < s.len() {
                assert(strip_nops_from(s, i_idx as int) == (if instruction == SPV_INSTRUCTION_OP_NOP { Seq::<u32>::empty() } else { s.subrange(i_idx as int, end as int) }) + strip_nops_from(s, end as int));
            } else {
                assert(strip_nops_from(s, end as int) =~= Seq::<u32>::empty());
            }
            if instruction == SPV_INSTRUCTION_OP_NOP {
                assert(out@ == before);
            }
            assert(out@ + strip_nops_from(s, end as int) =~= strip_nops(s));
        }
        i_idx = end;
    }
    proof {
        assert(strip_nops_from(s, i_idx as int) =~= Seq::<u32>::empty());
        assert(out@ =~= strip_nops(s));
    }
    *new_spv = out;
}

/// The module made of a header, with its instruction bound replaced, and a body.
pub fn fuse_final(spv_header: Vec<u32>, new_spv: Vec<u32>, new_instruction_bound: u32) -> (r: Vec<u32>)
    requires
        spv_header@.len() > SPV_HEADER_INSTRUCTION_BOUND_OFFSET,
    ensures
        r@ == spv_header@.update(SPV_HEADER_INSTRUCTION_BOUND_OFFSET as int, new_instruction_bound) + new_spv@,
{
    let mut spv_header = spv_header;
    let mut new_spv = new_spv;
    spv_header.set(SPV_HEADER_INSTRUCTION_BOUND_OFFSET, new_instruction_bound);
    let mut out_spv = spv_header;
    out_spv.append(&mut new_spv);
    out_spv
}

/// A word to add to an instruction: placed after offset `idx`, with the word count of the
/// instruction whose first word is at `head_idx` raised by one.
#[derive(Debug, Clone, Copy)]
pub struct WordInsert {
    pub idx: usize,
    pub word: u32,
    pub head_idx: usize,
}

/// Instructions to place right after the instruction at `previous_spv_idx`.
#[derive(Debug)]
pub struct InstructionInsert {
    pub previous_spv_idx: usize,
    pub instruction: Vec<u32>,
}

/// What an instruction insert holds: the offset of the instruction it follows, and its words.
pub type InsertView = (usize, Seq<u32>);

pub open spec fn insert_views(instrs: Seq<InstructionInsert>) -> Seq<InsertView> {
    Seq::new(instrs.len(), |j: int| (instrs[j].previous_spv_idx, instrs[j].instruction@))
}

/// An insertion, named by its list (`true` for word inserts) and its position there.
pub type InsertRef = (bool, usize);

pub open spec fn insert_key(words: Seq<WordInsert>, instrs: Seq<InsertView>, r: InsertRef) -> int {
    if r.0 {
        words[r.1 as int].idx as int
    } else {
        instrs[r.1 as int].0 as int
    }
}

/// The number of leading elements of `s` whose key is at most `k`, counted up to the first
/// whose key is larger.
pub open spec fn first_greater(words: Seq<WordInsert>, instrs: Seq<InsertView>, s: Seq<InsertRef>, k: int) -> int
    decreases s.len(),
{
    if s.len() == 0 {
        0
    } else if insert_key(words, instrs, s[0]) > k {
        0
    } else {
        1 + first_greater(words, instrs, s.drop_first(), k)
    }
}

/// The insertions ordered by key, those with equal keys in their original order.
pub open spec fn stable_sorted(words: Seq<WordInsert>, instrs: Seq<InsertView>, s: Seq<InsertRef>) -> Seq<InsertRef>
    decreases s.len(),
{
    if s.len() == 0 {
        s
    } else {
        let prev = stable_sorted(words, instrs, s.drop_last());
        prev.insert(first_greater(words, instrs, prev, insert_key(words, instrs, s.last())), s.last())
    }
}

/// All insertions: the word inserts, then the instruction inserts.
pub open spec fn all_inserts(words: Seq<WordInsert>, instrs: Seq<InsertView>) -> Seq<InsertRef> {
    Seq::new(words.len(), |j: int| (true, j as usize)) + Seq::new(instrs.len(), |j: int| (false, j as usize))
}

/// Applying one insertion to the stream being built; `None` where the insertion would go
/// out of bounds or overflow a word count.
pub open spec fn apply_insert(
    spv: Seq<u32>,
    words: Seq<WordInsert>,
    instrs: Seq<InsertView>,
    v: Seq<u32>,
    r: InsertRef,
) -> Option<Seq<u32>> {
    if r.0 {
        let w = words[r.1 as int];
        if w.idx + 1 <= v.len() {
            let v1 = v.insert(w.idx + 1, w.word);
            if w.head_idx < v1.len() && spec_hiword(v1[w.head_idx as int]) + 1 < 0x10000 {
                Some(v1.update(w.head_idx as int, spec_encode_word((spec_hiword(v1[w.head_idx as int]) + 1) as u16,
                    spec_loword(v1[w.head_idx as int]) as u16)))
            } else {
                None
            }
        } else {
            None
        }
    } else {
        let ins = instrs[r.1 as int];
        if ins.0 < spv.len() {
            let p = ins.0 + spec_hiword(spv[ins.0 as int]);
            if p <= v.len() {
                Some(v.take(p) + ins.1 + v.skip(p))
            } else {
                None
            }
        } else {
            None
        }
    }
}

/// Applying the insertions from last to first.
pub open spec fn apply_inserts_rev(
    spv: Seq<u32>,
    words: Seq<WordInsert>,
    instrs: Seq<InsertView>,
    v: Seq<u32>,
    order: Seq<InsertRef>,
) -> Option<Seq<u32>>
    decreases order.len(),
{
    if order.len() == 0 {
        Some(v)
    } else {
        match apply_insert(spv, words, instrs, v, order.last()) {
            Some(v1) => apply_inserts_rev(spv, words, instrs, v1, order.drop_last()),
            None => None,
        }
    }
}

/// The stream after all insertions: ordered stably by their offsets, then applied from the
/// last to the first so that earlier offsets stay valid.
pub open spec fn inserted(
    spv: Seq<u32>,
    v: Seq<u32>,
    words: Seq<WordInsert>,
    instrs: Seq<InsertView>,
) -> Option<Seq<u32>> {
    apply_inserts_rev(spv, words, instrs, v, stable_sorted(words, instrs, all_inserts(words, instrs)))
}

fn key_of(word_inserts: &[WordInsert], instruction_inserts: &[InstructionInsert], r: InsertRef) -> (k: usize)
    requires
        r.0 ==> r.1 < word_inserts@.len(),
        !r.0 ==> r.1 < insert_views(instruction_inserts@).len(),
    ensures
        k == insert_key(word_inserts@, insert_views(instruction_inserts@), r),
{
    if r.0 {
        word_inserts[r.1].idx
    } else {
        instruction_inserts[r.1].previous_spv_idx
    }
}

pub open spec fn refs_valid(words: Seq<WordInsert>, instrs: Seq<InsertView>, s: Seq<InsertRef>) -> bool {
    forall|j: int| 0 <= j < s.len() ==> ((#[trigger] s[j]).0 ==> s[j].1 < words.len())
        && (!s[j].0 ==> s[j].1 < instrs.len())
}

proof fn lemma_first_greater_bounds(words: Seq<WordInsert>, instrs: Seq<InsertView>, s: Seq<InsertRef>, k: int)
    ensures
        0 <= first_greater(words, instrs, s, k) <= s.len(),
    decreases s.len(),
{
    if s.len() > 0 {
        lemma_first_greater_bounds(words, instrs, s.drop_first(), k);
    }
}

proof fn lemma_stable_sorted_valid(words: Seq<WordInsert>, instrs: Seq<InsertView>, s: Seq<InsertRef>)
    requires
        refs_valid(words, instrs, s),
    ensures
        refs_valid(words, instrs, stable_sorted(words, instrs, s)),
        stable_sorted(words, instrs, s).len() == s.len(),
    decreases s.len(),
{
    if s.len() > 0 {
        let prev = stable_sorted(words, instrs, s.drop_last());
        assert(refs_valid(words, instrs, s.drop_last())) by {
            assert forall|j: int| 0 <= j < s.drop_last().len() implies ((#[trigger] s.drop_last()[j]).0 ==> s.drop_last()[j].1 < words.len())
                && (!s.drop_last()[j].0 ==> s.drop_last()[j].1 < instrs.len()) by {
                assert(s.drop_last()[j] == s[j]);
            }
        }
        lemma_stable_sorted_valid(words, instrs, s.drop_last());
        let p = first_greater(words, instrs, prev, insert_key(words, instrs, s.last()));
        lemma_first_greater_bounds(words, instrs, prev, insert_key(words, instrs, s.last()));
        let r = prev.insert(p, s.last());
        assert forall|j: int| 0 <= j < r.len() implies ((#[trigger] r[j]).0 ==> r[j].1 < words.len())
            && (!r[j].0 ==> r[j].1 < instrs.len()) by {
            if j < p {
                assert(r[j] == prev[j]);
            } else if j == p {
                assert(r[j] == s[s.len() - 1]);
            } else {
                assert(r[j] == prev[j - 1]);
            }
        }
    }
}

fn insert_stably(word_inserts: &[WordInsert], instruction_inserts: &[InstructionInsert], out: &mut Vec<InsertRef>, x: InsertRef)
    requires
        refs_valid(word_inserts@, insert_views(instruction_inserts@), old(out)@),
        x.0 ==> x.1 < word_inserts@.len(),
        !x.0 ==> x.1 < insert_views(instruction_inserts@).len(),
    ensures
        final(out)@ == old(out)@.insert(
            first_greater(word_inserts@, insert_views(instruction_inserts@), old(out)@, insert_key(word_inserts@, insert_views(instruction_inserts@), x)),
            x,
        ),
        refs_valid(word_inserts@, insert_views(instruction_inserts@), final(out)@),
{
    let ghost words = word_inserts@;
    let ghost instrs = insert_views(instruction_inserts@);
    let xk = key_of(word_inserts, instruction_inserts, x);
    let mut pos: usize = 0;
    proof {
        assert(out@.skip(0) =~= out@);
    }
    while pos < out.len() && key_of(word_inserts, instruction_inserts, out[pos]) <= xk
        invariant
            pos <= out@.len(),
            refs_valid(words, instrs, out@),
            words == word_inserts@,
            instrs == insert_views(instruction_inserts@),
            first_greater(words, instrs, out@, xk as int) == pos + first_greater(words, instrs, out@.skip(pos as int), xk as int),
        decreases out@.len() - pos,
    {
        assert(out@.skip(pos as int)[0] == out@[pos as int]);
        assert(out@.skip(pos as int).drop_first() =~= out@.skip(pos + 1));
        pos = pos + 1;
    }
    proof {
        if pos < out@.len() {
            assert(out@.skip(pos as int)[0] == out@[pos as int]);
        }
    }
    let ghost before = out@;
    out.insert(pos, x);
    proof {
        assert forall|j: int| 0 <= j < out@.len() implies ((#[trigger] out@[j]).0 ==> out@[j].1 < words.len())
            && (!out@[j].0 ==> out@[j].1 < instrs.len()) by {
            if j < pos {
                assert(out@[j] == before[j]);
            } else if j > pos {
                assert(out@[j] == before[j - 1]);
            }
        }
    }
}

fn sort_inserts(word_inserts: &[WordInsert], instruction_inserts: &[InstructionInsert]) -> (r: Vec<InsertRef>)
    ensures
        r@ == stable_sorted(word_inserts@, insert_views(instruction_inserts@), all_inserts(word_inserts@, insert_views(instruction_inserts@))),
        refs_valid(word_inserts@, insert_views(instruction_inserts@), r@),
{
    let ghost words = word_inserts@;
    let ghost instrs = insert_views(instruction_inserts@);
    let ghost all = all_inserts(words, instrs);
    let mut out: Vec<InsertRef> = Vec::new();
    let mut k: usize = 0;
    proof {
        assert(all.take(0) =~= Seq::<InsertRef>::empty());
    }
    while k < word_inserts.len()
        invariant
            all == all_inserts(words, instrs),
            words == word_inserts@,
            instrs == insert_views(instruction_inserts@),
            k <= words.len(),
            out@ == stable_sorted(words, instrs, all.take(k as int)),
            refs_valid(words, instrs, out@),
        decreases words.len() - k,
    {
        let x: InsertRef = (true, k);
        proof {
            assert(x == all[k as int]);
            assert(all.take(k + 1).drop_last() =~= all.take(k as int));
            assert(all.take(k + 1).last() == x);
        }
        insert_stably(word_inserts, instruction_inserts, &mut out, x);
        k = k + 1;
    }
    let mut k2: usize = 0;
    while k2 < instruction_inserts.len()
        invariant
            all == all_inserts(words, instrs),
            words == word_inserts@,
            instrs == insert_views(instruction_inserts@),
            k == words.len(),
            k2 <= instrs.len(),
            out@ == stable_sorted(words, instrs, all.take(k + k2)),
            refs_valid(words, instrs, out@),
        decreases instrs.len() - k2,
    {
        let x: InsertRef = (false, k2);
        proof {
            assert(x == all[k + k2]);
            assert(all.take(k + k2 + 1).drop_last() =~= all.take(k + k2));
            assert(all.take(k + k2 + 1).last() == x);
        }
        insert_stably(word_inserts, instruction_inserts, &mut out, x);
        k2 = k2 + 1;
    }
    proof {
        assert(all.take(k + k2) =~= all);
    }
    out
}

pub fn insert_new_instructions(
    spv: &[u32],
    new_spv: &mut Vec<u32>,
    word_inserts: &[WordInsert],
    instruction_inserts: &[InstructionInsert],
)
    requires
        inserted(spv@, old(new_spv)@, word_inserts@, insert_views(instruction_inserts@)) is Some,
    ensures
        Some(final(new_spv)@) == inserted(spv@, old(new_spv)@, word_inserts@, insert_views(instruction_inserts@)),
{
    let ghost words = word_inserts@;
    let ghost instrs = insert_views(instruction_inserts@);
    let inserts = sort_inserts(word_inserts, instruction_inserts);
    let ghost order = inserts@;
    let mut i: usize = inserts.len();
    proof {
        assert(order.take(i as int) =~= order);
    }
    while i > 0
        invariant
            i <= order.len(),
            order == inserts@,
            refs_valid(words, instrs, order),
            words == word_inserts@,
            instrs == insert_views(instruction_inserts@),
            apply_inserts_rev(spv@, words, instrs, new_spv@, order.take(i as int))
                == inserted(spv@, old(new_spv)@, words, instrs),
            inserted(spv@, old(new_spv)@, words, instrs) is Some,
        decreases i,
    {
        let r = inserts[i - 1];
        proof {
            assert(order.take(i as int).last() == r);
            assert(order.take(i as int).drop_last() =~= order.take(i - 1));
        }
        let ghost v = new_spv@;
        proof {
            assert(order[i - 1] == r);
            assert(apply_insert(spv@, words, instrs, v, r) is Some);
        }
        if r.0 {
            let new_word = &word_inserts[r.1];
            assert(new_word.idx + 1 <= new_spv.len());
            new_spv.insert(new_word.idx + 1, new_word.word);
            let head = new_spv[new_word.head_idx];
            new_spv.set(new_word.head_idx, encode_word(hiword(head) + 1, loword(head)));
        } else {
            let new_instruction = &instruction_inserts[r.1];
            let p0 = new_instruction.previous_spv_idx;
            let offset = hiword(spv[p0]);
            let mut idx: usize = 0;
            let ghost p = p0 + offset;
            while idx < new_instruction.instruction.len()
                invariant
                    p0 < spv@.len(),
                    p == p0 + spec_hiword(spv@[p0 as int]),
                    offset == spec_hiword(spv@[p0 as int]),
                    p <= v.len(),
                    idx <= new_instruction.instruction@.len(),
                    new_spv@ == v.take(p) + new_instruction.instruction@.take(idx as int) + v.skip(p),
                decreases new_instruction.instruction@.len() - idx,
            {
                assert(p + idx <= new_spv.len());
                new_spv.insert(p0 + offset as usize + idx, new_instruction.instruction[idx]);
                proof {
                    assert(new_spv@ =~= v.take(p) + new_instruction.instruction@.take(idx + 1) + v.skip(p));
                }
                idx = idx + 1;
            }
            proof {
                assert(new_instruction.instruction@.take(idx as int) =~= new_instruction.instruction@);
            }
        }
        i = i - 1;
    }
}


/// The instructions of the first `k` instruction inserts, one after the other.
pub open spec fn concat_instructions(instrs: Seq<InsertView>, k: int) -> Seq<u32>
    decreases k,
{
    if k <= 0 {
        Seq::empty()
    } else {
        concat_instructions(instrs, k - 1) + instrs[k - 1].1
    }
}

/// Instruction inserts that all follow the same instruction.
pub open spec fn same_anchor(instrs: Seq<InsertView>, anchor: usize) -> bool {
    forall|j: int| 0 <= j < instrs.len() ==> (#[trigger] instrs[j]).0 == anchor
}

proof fn lemma_first_greater_all_below(words: Seq<WordInsert>, instrs: Seq<InsertView>, s: Seq<InsertRef>, k: int)
    requires
        forall|j: int| 0 <= j < s.len() ==> insert_key(words, instrs, #[trigger] s[j]) <= k,
    ensures
        first_greater(words, instrs, s, k) == s.len(),
    decreases s.len(),
{
    if s.len() > 0 {
        assert(insert_key(words, instrs, s[0]) <= k);
        assert forall|j: int| 0 <= j < s.drop_first().len() implies insert_key(words, instrs, #[trigger] s.drop_first()[j]) <= k by {
            assert(s.drop_first()[j] == s[j + 1]);
        }
        lemma_first_greater_all_below(words, instrs, s.drop_first(), k);
    }
}

/// Instruction inserts with a common anchor keep their order.
proof fn lemma_same_anchor_order(instrs: Seq<InsertView>, anchor: usize, n: int)
    requires
        same_anchor(instrs, anchor),
        0 <= n <= instrs.len(),
        instrs.len() <= usize::MAX,
    ensures
        stable_sorted(Seq::<WordInsert>::empty(), instrs, Seq::new(n as nat, |j: int| (false, j as usize)))
            == Seq::new(n as nat, |j: int| (false, j as usize)),
    decreases n,
{
    let words = Seq::<WordInsert>::empty();
    let s = Seq::new(n as nat, |j: int| (false, j as usize));
    if n > 0 {
        let t = Seq::new((n - 1) as nat, |j: int| (false, j as usize));
        assert(s.drop_last() =~= t);
        lemma_same_anchor_order(instrs, anchor, n - 1);
        assert(insert_key(words, instrs, s.last()) == anchor);
        assert forall|j: int| 0 <= j < t.len() implies insert_key(words, instrs, #[trigger] t[j]) <= anchor by {
            assert(instrs[j].0 == anchor);
        }
        lemma_first_greater_all_below(words, instrs, t, anchor as int);
        assert(t.insert(t.len() as int, s.last()) =~= s);
    } else {
        assert(s =~= Seq::<InsertRef>::empty());
    }
}

proof fn lemma_apply_same_anchor(spv: Seq<u32>, instrs: Seq<InsertView>, anchor: usize, v: Seq<u32>, n: int)
    requires
        same_anchor(instrs, anchor),
        0 <= n <= instrs.len(),
        instrs.len() <= usize::MAX,
        anchor < spv.len(),
        anchor + spec_hiword(spv[anchor as int]) <= v.len(),
    ensures
        apply_inserts_rev(spv, Seq::<WordInsert>::empty(), instrs, v, Seq::new(n as nat, |j: int| (false, j as usize)))
            == Some(v.take(anchor + spec_hiword(spv[anchor as int])) + concat_instructions(instrs, n)
                + v.skip(anchor + spec_hiword(spv[anchor as int]))),
    decreases n,
{
    let words = Seq::<WordInsert>::empty();
    let p = anchor + spec_hiword(spv[anchor as int]);
    let s = Seq::new(n as nat, |j: int| (false, j as usize));
    if n > 0 {
        let t = Seq::new((n - 1) as nat, |j: int| (false, j as usize));
        assert(s.drop_last() =~= t);
        assert(s.last() == (false, (n - 1) as usize));
        let ins = instrs[n - 1];
        assert(ins.0 == anchor);
        let v1 = v.take(p) + ins.1 + v.skip(p);
        assert(apply_insert(spv, words, instrs, v, s.last()) == Some(v1));
        lemma_apply_same_anchor(spv, instrs, anchor, v1, n - 1);
        assert(v1.take(p) =~= v.take(p));
        assert(v1.skip(p) =~= ins.1 + v.skip(p));
        assert(v1.take(p) + concat_instructions(instrs, n - 1) + v1.skip(p)
            =~= v.take(p) + concat_instructions(instrs, n) + v.skip(p));
    } else {
        assert(s =~= Seq::<InsertRef>::empty());
        assert(v.take(p) + concat_instructions(instrs, 0) + v.skip(p) =~= v);
    }
}

/// Instructions that all follow one instruction are placed right after it, in list order.
pub proof fn lemma_inserted_same_anchor(spv: Seq<u32>, v: Seq<u32>, instrs: Seq<InsertView>, anchor: usize)
    requires
        same_anchor(instrs, anchor),
        instrs.len() <= usize::MAX,
        anchor < spv.len(),
        anchor + spec_hiword(spv[anchor as int]) <= v.len(),
    ensures
        inserted(spv, v, Seq::<WordInsert>::empty(), instrs)
            == Some(v.take(anchor + spec_hiword(spv[anchor as int])) + concat_instructions(instrs, instrs.len() as int)
                + v.skip(anchor + spec_hiword(spv[anchor as int]))),
{
    let words = Seq::<WordInsert>::empty();
    let n = instrs.len() as int;
    assert(all_inserts(words, instrs) =~= Seq::new(n as nat, |j: int| (false, j as usize)));
    lemma_same_anchor_order(instrs, anchor, n);
    lemma_apply_same_anchor(spv, instrs, anchor, v, n);
}


/// Every instruction insert follows an instruction lying inside `spv` and ends inside `v`.
pub open spec fn anchors_inside(spv: Seq<u32>, v: Seq<u32>, instrs: Seq<InsertView>) -> bool {
    forall|j: int| 0 <= j < instrs.len() ==> (#[trigger] instrs[j]).0 < spv.len()
        && instrs[j].0 + spec_hiword(spv[instrs[j].0 as int]) <= v.len()
}

/// Whether every instruction insert follows an instruction lying inside `spv` and ends
/// inside `v`.
pub fn check_anchors(spv: &[u32], v: &Vec<u32>, inserts: &Vec<InstructionInsert>) -> (r: bool)
    ensures
        r == anchors_inside(spv@, v@, insert_views(inserts@)),
{
    let ghost views = insert_views(inserts@);
    let mut j: usize = 0;
    while j < inserts.len()
        invariant
            j <= inserts@.len(),
            views == insert_views(inserts@),
            forall|q: int| 0 <= q < j ==> (#[trigger] views[q]).0 < spv@.len()
                && views[q].0 + spec_hiword(spv@[views[q].0 as int]) <= v@.len(),
        decreases inserts@.len() - j,
    {
        let a = inserts[j].previous_spv_idx;
        assert(views[j as int].0 == a);
        if a >= spv.len() {
            return false;
        }
        if hiword(spv[a]) as usize > v.len() || a > v.len() - hiword(spv[a]) as usize {
            return false;
        }
        j = j + 1;
    }
    true
}

proof fn lemma_apply_all_some(spv: Seq<u32>, instrs: Seq<InsertView>, v: Seq<u32>, order: Seq<InsertRef>)
    requires
        refs_valid(Seq::<WordInsert>::empty(), instrs, order),
        anchors_inside(spv, v, instrs),
    ensures
        apply_inserts_rev(spv, Seq::<WordInsert>::empty(), instrs, v, order) is Some,
    decreases order.len(),
{
    let words = Seq::<WordInsert>::empty();
    if order.len() > 0 {
        let r = order.last();
        assert(order[order.len() - 1] == r);
        assert(!r.0);
        let ins = instrs[r.1 as int];
        let p = ins.0 + spec_hiword(spv[ins.0 as int]);
        let v1 = v.take(p) + ins.1 + v.skip(p);
        assert(apply_insert(spv, words, instrs, v, r) == Some(v1));
        assert(refs_valid(words, instrs, order.drop_last())) by {
            assert forall|j: int| 0 <= j < order.drop_last().len() implies ((#[trigger] order.drop_last()[j]).0 ==> order.drop_last()[j].1 < words.len())
                && (!order.drop_last()[j].0 ==> order.drop_last()[j].1 < instrs.len()) by {
                assert(order.drop_last()[j] == order[j]);
            }
        }
        assert(anchors_inside(spv, v1, instrs));
        lemma_apply_all_some(spv, instrs, v1, order.drop_last());
    }
}

/// Instruction inserts that each follow an instruction inside the stream can all be made.
pub proof fn lemma_inserted_some(spv: Seq<u32>, v: Seq<u32>, instrs: Seq<InsertView>)
    requires
        anchors_inside(spv, v, instrs),
        instrs.len() <= usize::MAX,
    ensures
        inserted(spv, v, Seq::<WordInsert>::empty(), instrs) is Some,
{
    let words = Seq::<WordInsert>::empty();
    let all = all_inserts(words, instrs);
    assert(refs_valid(words, instrs, all)) by {
        assert forall|j: int| 0 <= j < all.len() implies ((#[trigger] all[j]).0 ==> all[j].1 < words.len())
            && (!all[j].0 ==> all[j].1 < instrs.len()) by {
            assert(all[j] == (false, j as usize));
        }
    }
    lemma_stable_sorted_valid(words, instrs, all);
    lemma_apply_all_some(spv, instrs, v, stable_sorted(words, instrs, all));
}

} // verus!
