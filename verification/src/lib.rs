//! Transformations of SPIR-V modules that make them acceptable to WebGPU shader
//! translators, with the word-level helpers they are built from.
use vstd::prelude::*;

pub mod correction;
pub mod immediatespatch;
pub mod isnanisinfpatch;
pub mod mirrorpatch;
pub mod pruneunuseddref;
pub mod splitbindingarray;
pub mod spv;
pub mod storagecubepatch;
pub mod util;

use crate::util::instruction::fits_in_memory;
use crate::util::{bytes_to_words, word_from_le_bytes, words_le_bytes, words_to_bytes};

verus! {

/// Helper to convert a `&[u8]` into a `Vec<u32>`: each group of four bytes, little-endian.
pub fn u8_slice_to_u32_vec(vec: &[u8]) -> (r: Vec<u32>)
    requires
        vec@.len() % 4 == 0,
    ensures
        r@ == bytes_to_words(vec@),
{
    let n = vec.len();
    let mut out: Vec<u32> = Vec::new();
    let mut i: usize = 0;
    while i < n
        invariant
            n == vec@.len(),
            n % 4 == 0,
            i % 4 == 0,
            i <= n,
            out@ == bytes_to_words(vec@).subrange(0, (i / 4) as int),
        decreases n - i,
    {
        out.push(word_from_le_bytes(vec[i], vec[i + 1], vec[i + 2], vec[i + 3]));
        proof {
            assert(out@ =~= bytes_to_words(vec@).subrange(0, (i / 4) + 1));
        }
        i = i + 4;
    }
    proof {
        assert(out@ =~= bytes_to_words(vec@));
    }
    out
}

/// Helper to convert a `&[u32]` into a `Vec<u8>`: each word's bytes, little-endian.
pub fn u32_slice_to_u8_vec(vec: &[u32]) -> (r: Vec<u8>)
    requires
        fits_in_memory(vec@),
    ensures
        r@ == words_to_bytes(vec@),
{
    words_le_bytes(vec)
}

} // verus!
