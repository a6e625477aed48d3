use vstd::prelude::*;

use crate::spv;
use crate::util::instruction::{
    fits_in_memory, lemma_starts_step, op_at, operands_fit, starts, starts_from, terminates_from,
};
use crate::util::pointer::lemma_tiles_terminates;
use crate::util::{encode_word, hiword, loword, spec_encode_word, spec_hiword};

verus! {

// Opaque types cannot be operated on in the same way as non-opaque types.
// We need tools to trace the instruction chain up to the point an opaque type becomes a
// non-opaque: from the `OpLoad` of a texture, storage texture or sampler to the image
// instruction that consumes it, possibly through an `OpSampledImage`.
//
// Textures:
// - OpLoad
//     - OpImageFetch / OpImageGather / OpImageDrefGather
//     - OpSampledImage (DAG NODE)
//         - OpImageSample{,Dref,Proj,ProjDref}{Implicit,Explicit}Lod
//         - OpImageGather / OpImageDrefGather
// Storage Textures:
// - OpLoad
//     - OpImageRead / OpImageWrite / OpImageSparseRead / OpImageTexelPointer
// Samplers:
// - OpLoad
//     - OpSampledImage (DAG NODE)
//
// Handling the sampler's `OpSampledImage` separately keeps the chains a tree, or just a `struct`.

#[derive(Debug, Clone, Copy, PartialEq, Eq, Structural)]
pub struct OpaqueLoadTrace {
    pub load_idx: usize,
    pub next: OpaqueImageOp,
}

#[derive(Debug, Clone, Copy, PartialEq, Eq, Structural)]
pub enum OpaqueImageOp {
    RawImage(RawImageOp),
    RawStorage(StorageTextureOp),
    Sampled(SampledImageOp),
}

#[derive(Debug, Clone, Copy, PartialEq, Eq, Structural)]
pub enum RawImageOp {
    Fetch(usize),
    Gather(usize),
    DrefGather(usize),
}

#[derive(Debug, Clone, Copy, PartialEq, Eq, Structural)]
pub struct SampledImageOp {
    pub idx: usize,
    pub next: SampledImageVariant,
}

#[derive(Debug, Clone, Copy, PartialEq, Eq, Structural)]
pub enum SampledImageVariant {
    SampleImplicitLod(usize),
    SampleExplicitLod(usize),
    SampleDrefImplicitLod(usize),
    SampleDrefExplicitLod(usize),
    SampleProjImplicitLod(usize),
    SampleProjExplicitLod(usize),
    SampleProjDrefImplicitLod(usize),
    SampleProjDrefExplicitLod(usize),
    Gather(usize),
    DrefGather(usize),
}

#[derive(Debug, Clone, Copy, PartialEq, Eq, Structural)]
pub enum StorageTextureOp {
    Read(usize),
    Write(usize),
    SparseRead(usize),
    TexelPointer(usize),
}

impl RawImageOp {
    pub open spec fn spec_result_idx(self) -> usize {
        match self {
            RawImageOp::Fetch(i) | RawImageOp::Gather(i) | RawImageOp::DrefGather(i) => i,
        }
    }

    /// Offset of the image instruction.
    pub fn result_idx(&self) -> (r: usize)
        ensures
            r == self.spec_result_idx(),
    {
        match self {
            RawImageOp::Fetch(i) | RawImageOp::Gather(i) | RawImageOp::DrefGather(i) => *i,
        }
    }
}

impl SampledImageVariant {
    pub open spec fn spec_result_idx(self) -> usize {
        match self {
            SampledImageVariant::SampleImplicitLod(i)
            | SampledImageVariant::SampleExplicitLod(i)
            | SampledImageVariant::SampleDrefImplicitLod(i)
            | SampledImageVariant::SampleDrefExplicitLod(i)
            | SampledImageVariant::SampleProjImplicitLod(i)
            | SampledImageVariant::SampleProjExplicitLod(i)
            | SampledImageVariant::SampleProjDrefImplicitLod(i)
            | SampledImageVariant::SampleProjDrefExplicitLod(i)
            | SampledImageVariant::Gather(i)
            | SampledImageVariant::DrefGather(i) => i,
        }
    }

    /// Offset of the sampling instruction.
    pub fn result_idx(&self) -> (r: usize)
        ensures
            r == self.spec_result_idx(),
    {
        match self {
            SampledImageVariant::SampleImplicitLod(i)
            | SampledImageVariant::SampleExplicitLod(i)
            | SampledImageVariant::SampleDrefImplicitLod(i)
            | SampledImageVariant::SampleDrefExplicitLod(i)
            | SampledImageVariant::SampleProjImplicitLod(i)
            | SampledImageVariant::SampleProjExplicitLod(i)
            | SampledImageVariant::SampleProjDrefImplicitLod(i)
            | SampledImageVariant::SampleProjDrefExplicitLod(i)
            | SampledImageVariant::Gather(i)
            | SampledImageVariant::DrefGather(i) => *i,
        }
    }
}

impl StorageTextureOp {
    pub open spec fn spec_result_idx(self) -> usize {
        match self {
            StorageTextureOp::Read(i)
            | StorageTextureOp::SparseRead(i)
            | StorageTextureOp::TexelPointer(i)
            | StorageTextureOp::Write(i) => i,
        }
    }

    // OpImageWrite has no result; all other storage ops do.
    /// Offset of the storage image instruction.
    pub fn result_idx(&self) -> (r: usize)
        ensures
            r == self.spec_result_idx(),
    {
        match self {
            StorageTextureOp::Read(i)
            | StorageTextureOp::SparseRead(i)
            | StorageTextureOp::TexelPointer(i)
            | StorageTextureOp::Write(i) => *i,
        }
    }
}

impl OpaqueLoadTrace {
    pub open spec fn spec_last_result_id(self) -> usize {
        match self.next {
            OpaqueImageOp::RawImage(op) => op.spec_result_idx(),
            OpaqueImageOp::RawStorage(op) => op.spec_result_idx(),
            OpaqueImageOp::Sampled(op) => op.next.spec_result_idx(),
        }
    }

    /// Offset of the last instruction of the chain.
    pub fn last_result_id(&self) -> (r: usize)
        ensures
            r == self.spec_last_result_id(),
    {
        match self.next {
            OpaqueImageOp::RawImage(raw_image_op) => raw_image_op.result_idx(),
            OpaqueImageOp::RawStorage(storage_texture_op) => storage_texture_op.result_idx(),
            OpaqueImageOp::Sampled(sampled_image_op) => sampled_image_op.next.result_idx(),
        }
    }
}

pub open spec fn is_raw_image_op(op: int) -> bool {
    op == spv::SPV_INSTRUCTION_OP_IMAGE_FETCH as int || op == spv::SPV_INSTRUCTION_OP_IMAGE_GATHER as int
        || op == spv::SPV_INSTRUCTION_OP_IMAGE_DREF_GATHER as int
}

pub open spec fn is_sample_op(op: int) -> bool {
    spv::SPV_INSTRUCTION_OP_IMAGE_SAMPLE_IMPLICIT_LOD as int <= op
        <= spv::SPV_INSTRUCTION_OP_IMAGE_SAMPLE_PROJ_DREF_EXPLICIT_LOD as int
}

pub open spec fn is_storage_op(op: int) -> bool {
    op == spv::SPV_INSTRUCTION_OP_IMAGE_READ as int || op == spv::SPV_INSTRUCTION_OP_IMAGE_WRITE as int
        || op == spv::SPV_INSTRUCTION_OP_IMAGE_SPARSE_READ as int
        || op == spv::SPV_INSTRUCTION_OP_IMAGE_TEXEL_POINTER as int
}

/// The last listed `OpLoad` whose result is `id`.
pub open spec fn load_for(s: Seq<u32>, loads: Seq<usize>, id: u32) -> Option<usize>
    decreases loads.len(),
{
    if loads.len() == 0 {
        None
    } else if s[loads.last() + 2] == id {
        Some(loads.last())
    } else {
        load_for(s, loads.drop_last(), id)
    }
}

pub open spec fn raw_op_of(op: int, k: usize) -> RawImageOp {
    if op == spv::SPV_INSTRUCTION_OP_IMAGE_FETCH as int {
        RawImageOp::Fetch(k)
    } else if op == spv::SPV_INSTRUCTION_OP_IMAGE_GATHER as int {
        RawImageOp::Gather(k)
    } else {
        RawImageOp::DrefGather(k)
    }
}

pub open spec fn storage_op_of(op: int, k: usize) -> StorageTextureOp {
    if op == spv::SPV_INSTRUCTION_OP_IMAGE_READ as int {
        StorageTextureOp::Read(k)
    } else if op == spv::SPV_INSTRUCTION_OP_IMAGE_WRITE as int {
        StorageTextureOp::Write(k)
    } else if op == spv::SPV_INSTRUCTION_OP_IMAGE_SPARSE_READ as int {
        StorageTextureOp::SparseRead(k)
    } else {
        StorageTextureOp::TexelPointer(k)
    }
}

pub open spec fn sample_variant_of(op: int, k: usize) -> SampledImageVariant {
    if op == spv::SPV_INSTRUCTION_OP_IMAGE_SAMPLE_IMPLICIT_LOD as int {
        SampledImageVariant::SampleImplicitLod(k)
    } else if op == spv::SPV_INSTRUCTION_OP_IMAGE_SAMPLE_EXPLICIT_LOD as int {
        SampledImageVariant::SampleExplicitLod(k)
    } else if op == spv::SPV_INSTRUCTION_OP_IMAGE_SAMPLE_DREF_IMPLICIT_LOD as int {
        SampledImageVariant::SampleDrefImplicitLod(k)
    } else if op == spv::SPV_INSTRUCTION_OP_IMAGE_SAMPLE_DREF_EXPLICIT_LOD as int {
        SampledImageVariant::SampleDrefExplicitLod(k)
    } else if op == spv::SPV_INSTRUCTION_OP_IMAGE_SAMPLE_PROJ_IMPLICIT_LOD as int {
        SampledImageVariant::SampleProjImplicitLod(k)
    } else if op == spv::SPV_INSTRUCTION_OP_IMAGE_SAMPLE_PROJ_EXPLICIT_LOD as int {
        SampledImageVariant::SampleProjExplicitLod(k)
    } else if op == spv::SPV_INSTRUCTION_OP_IMAGE_SAMPLE_PROJ_DREF_IMPLICIT_LOD as int {
        SampledImageVariant::SampleProjDrefImplicitLod(k)
    } else {
        SampledImageVariant::SampleProjDrefExplicitLod(k)
    }
}

/// The image operand of a storage image instruction: `OpImageWrite` names it first.
pub open spec fn storage_image_id(s: Seq<u32>, k: usize) -> u32 {
    if op_at(s, k as int) == spv::SPV_INSTRUCTION_OP_IMAGE_WRITE as int {
        s[k + 1]
    } else {
        s[k + 3]
    }
}

/// The chain from a listed load to a fetch or gather on the loaded image.
pub open spec fn raw_trace(s: Seq<u32>, loads: Seq<usize>, k: usize) -> Option<OpaqueLoadTrace> {
    match load_for(s, loads, s[k + 3]) {
        Some(l) => Some(OpaqueLoadTrace { load_idx: l, next: OpaqueImageOp::RawImage(raw_op_of(op_at(s, k as int), k)) }),
        None => None,
    }
}

/// The chain from a listed load to a storage image instruction on the loaded image.
pub open spec fn storage_trace(s: Seq<u32>, loads: Seq<usize>, k: usize) -> Option<OpaqueLoadTrace> {
    match load_for(s, loads, storage_image_id(s, k)) {
        Some(l) => Some(OpaqueLoadTrace { load_idx: l, next: OpaqueImageOp::RawStorage(storage_op_of(op_at(s, k as int), k)) }),
        None => None,
    }
}

/// `(result id, offset, load offset)` of an `OpSampledImage` whose image is a listed load.
pub open spec fn sampled_entry(s: Seq<u32>, loads: Seq<usize>, k: usize) -> Option<(u32, usize, usize)> {
    match load_for(s, loads, s[k + 3]) {
        Some(l) => Some((s[k + 2], k, l)),
        None => None,
    }
}

/// The first entry whose result id is `id`.
pub open spec fn first_entry(entries: Seq<(u32, usize, usize)>, id: u32) -> Option<(u32, usize, usize)>
    decreases entries.len(),
{
    if entries.len() == 0 {
        None
    } else if entries[0].0 == id {
        Some(entries[0])
    } else {
        first_entry(entries.drop_first(), id)
    }
}

/// The chain from a listed load through an `OpSampledImage` to a sampling instruction.
pub open spec fn sample_trace(s: Seq<u32>, entries: Seq<(u32, usize, usize)>, k: usize) -> Option<OpaqueLoadTrace> {
    match first_entry(entries, s[k + 3]) {
        Some(e) => Some(OpaqueLoadTrace {
            load_idx: e.2,
            next: OpaqueImageOp::Sampled(SampledImageOp { idx: e.1, next: sample_variant_of(op_at(s, k as int), k) }),
        }),
        None => None,
    }
}

/// The chain from a listed load through an `OpSampledImage` to a gather.
pub open spec fn gather_trace(s: Seq<u32>, entries: Seq<(u32, usize, usize)>, k: usize) -> Option<OpaqueLoadTrace> {
    match first_entry(entries, s[k + 3]) {
        Some(e) => if op_at(s, k as int) == spv::SPV_INSTRUCTION_OP_IMAGE_GATHER as int {
            Some(OpaqueLoadTrace {
                load_idx: e.2,
                next: OpaqueImageOp::Sampled(SampledImageOp { idx: e.1, next: SampledImageVariant::Gather(k) }),
            })
        } else if op_at(s, k as int) == spv::SPV_INSTRUCTION_OP_IMAGE_DREF_GATHER as int {
            Some(OpaqueLoadTrace {
                load_idx: e.2,
                next: OpaqueImageOp::Sampled(SampledImageOp { idx: e.1, next: SampledImageVariant::DrefGather(k) }),
            })
        } else {
            None
        },
        None => None,
    }
}

pub open spec fn raw_idxs(s: Seq<u32>) -> Seq<usize> {
    starts(s).filter(|k: usize| is_raw_image_op(op_at(s, k as int)))
}

pub open spec fn sample_idxs(s: Seq<u32>) -> Seq<usize> {
    starts(s).filter(|k: usize| is_sample_op(op_at(s, k as int)))
}

pub open spec fn storage_idxs(s: Seq<u32>) -> Seq<usize> {
    starts(s).filter(|k: usize| is_storage_op(op_at(s, k as int)))
}

pub open spec fn sampled_image_idxs(s: Seq<u32>) -> Seq<usize> {
    starts(s).filter(|k: usize| op_at(s, k as int) == spv::SPV_INSTRUCTION_OP_SAMPLED_IMAGE as int)
}

pub open spec fn sampled_entries(s: Seq<u32>, loads: Seq<usize>) -> Seq<(u32, usize, usize)> {
    sampled_image_idxs(s).filter_map(|k: usize| sampled_entry(s, loads, k))
}

/// Every chain from a listed load to the image instruction that consumes it: fetches and
/// gathers on the image, then storage image instructions, then sampling instructions through
/// an `OpSampledImage`, then gathers through an `OpSampledImage`; each group in stream order.
pub open spec fn loaded_opaque_traces(s: Seq<u32>, loads: Seq<usize>) -> Seq<OpaqueLoadTrace> {
    let entries = sampled_entries(s, loads);
    raw_idxs(s).filter_map(|k: usize| raw_trace(s, loads, k))
        + storage_idxs(s).filter_map(|k: usize| storage_trace(s, loads, k))
        + sample_idxs(s).filter_map(|k: usize| sample_trace(s, entries, k))
        + raw_idxs(s).filter_map(|k: usize| gather_trace(s, entries, k))
}

/// Every listed instruction and every instruction with an opcode in `pred` is readable.
pub open spec fn listed_readable(s: Seq<u32>, idxs: Seq<usize>, reach: int) -> bool {
    forall|j: int| 0 <= j < idxs.len() ==> #[trigger] idxs[j] + reach < s.len()
}

fn find_load(spv: &[u32], load_idxs: &[usize], id: u32) -> (r: Option<usize>)
    requires
        listed_readable(spv@, load_idxs@, 2),
    ensures
        r == load_for(spv@, load_idxs@, id),
{
    let mut j: usize = load_idxs.len();
    assert(load_idxs@.take(j as int) =~= load_idxs@);
    while j > 0
        invariant
            j <= load_idxs@.len(),
            listed_readable(spv@, load_idxs@, 2),
            load_for(spv@, load_idxs@, id) == load_for(spv@, load_idxs@.take(j as int), id),
        decreases j,
    {
        let l = load_idxs[j - 1];
        assert(l + 2 < spv.len());
        assert(load_idxs@.take(j as int).last() == l);
        if spv[l + 2] == id {
            return Some(l);
        }
        assert(load_idxs@.take(j as int).drop_last() =~= load_idxs@.take(j - 1));
        j = j - 1;
    }
    None
}

fn find_entry(entries: &Vec<(u32, usize, usize)>, id: u32) -> (r: Option<(u32, usize, usize)>)
    ensures
        r == first_entry(entries@, id),
{
    let mut j: usize = 0;
    assert(entries@.skip(0) =~= entries@);
    while j < entries.len()
        invariant
            j <= entries@.len(),
            first_entry(entries@, id) == first_entry(entries@.skip(j as int), id),
        decreases entries@.len() - j,
    {
        assert(entries@.skip(j as int)[0] == entries@[j as int]);
        if entries[j].0 == id {
            return Some(entries[j]);
        }
        assert(entries@.skip(j as int).drop_first() =~= entries@.skip(j + 1));
        j = j + 1;
    }
    None
}

// Generally, spv[idx + 1] => result type, spv[idx + 2] => result, spv[idx + 3] => image / sampled image
/// Every chain from the listed loads to the image instructions that consume them.
pub fn trace_loaded_opaques(spv: &[u32], load_idxs: &[usize]) -> (r: Vec<OpaqueLoadTrace>)
    requires
        terminates_from(spv@, 0),
        fits_in_memory(spv@),
        operands_fit(spv@),
        listed_readable(spv@, load_idxs@, 2),
    ensures
        r@ == loaded_opaque_traces(spv@, load_idxs@),
{
    let ghost s = spv@;
    let ghost loads = load_idxs@;
    let ghost p_si = |k: usize| op_at(s, k as int) == spv::SPV_INSTRUCTION_OP_SAMPLED_IMAGE as int;
    let ghost p_raw = |k: usize| is_raw_image_op(op_at(s, k as int));
    let ghost p_sample = |k: usize| is_sample_op(op_at(s, k as int));
    let ghost p_storage = |k: usize| is_storage_op(op_at(s, k as int));
    let mut op_sampled_image_idxs: Vec<usize> = Vec::new();
    let mut raw_image_op_idxs: Vec<usize> = Vec::new();
    let mut sampled_image_op_idxs: Vec<usize> = Vec::new();
    let mut storage_op_idxs: Vec<usize> = Vec::new();

    let mut spv_idx: usize = 0;
    let ghost mut done: Seq<usize> = Seq::empty();
    while spv_idx < spv.len()
        invariant
            s == spv@,
            fits_in_memory(s),
            terminates_from(s, spv_idx as int),
            done + starts_from(s, spv_idx as int) == starts(s),
            p_si == (|k: usize| op_at(s, k as int) == spv::SPV_INSTRUCTION_OP_SAMPLED_IMAGE as int),
            p_raw == (|k: usize| is_raw_image_op(op_at(s, k as int))),
            p_sample == (|k: usize| is_sample_op(op_at(s, k as int))),
            p_storage == (|k: usize| is_storage_op(op_at(s, k as int))),
            op_sampled_image_idxs@ == done.filter(p_si),
            raw_image_op_idxs@ == done.filter(p_raw),
            sampled_image_op_idxs@ == done.filter(p_sample),
            storage_op_idxs@ == done.filter(p_storage),
        decreases s.len() + 0x10000 - spv_idx,
    {
        proof {
            lemma_starts_step(s, spv_idx as int);
        }
        let op = spv[spv_idx];
        let word_count = hiword(op);
        let instruction = loword(op);
        if instruction == spv::SPV_INSTRUCTION_OP_SAMPLED_IMAGE {
            op_sampled_image_idxs.push(spv_idx);
        } else if instruction == spv::SPV_INSTRUCTION_OP_IMAGE_FETCH || instruction == spv::SPV_INSTRUCTION_OP_IMAGE_GATHER
            || instruction == spv::SPV_INSTRUCTION_OP_IMAGE_DREF_GATHER {
            raw_image_op_idxs.push(spv_idx);
        } else if spv::SPV_INSTRUCTION_OP_IMAGE_SAMPLE_IMPLICIT_LOD <= instruction
            && instruction <= spv::SPV_INSTRUCTION_OP_IMAGE_SAMPLE_PROJ_DREF_EXPLICIT_LOD {
            sampled_image_op_idxs.push(spv_idx);
        } else if instruction == spv::SPV_INSTRUCTION_OP_IMAGE_READ || instruction == spv::SPV_INSTRUCTION_OP_IMAGE_WRITE
            || instruction == spv::SPV_INSTRUCTION_OP_IMAGE_SPARSE_READ
            || instruction == spv::SPV_INSTRUCTION_OP_IMAGE_TEXEL_POINTER {
            storage_op_idxs.push(spv_idx);
        }
        proof {
            done.lemma_filter_push(spv_idx, p_si);
            done.lemma_filter_push(spv_idx, p_raw);
            done.lemma_filter_push(spv_idx, p_sample);
            done.lemma_filter_push(spv_idx, p_storage);
            done = done.push(spv_idx);
            assert(done + starts_from(s, spv_idx + word_count) =~= starts(s));
        }
        spv_idx = spv_idx + word_count as usize;
    }
    proof {
        assert(starts_from(s, spv_idx as int) =~= Seq::<usize>::empty());
        assert(done =~= starts(s));
        lemma_filter_reach(s, p_si, 4);
        lemma_filter_reach(s, p_raw, 3);
        lemma_filter_reach(s, p_sample, 3);
        lemma_filter_reach(s, p_storage, 2);
    }

    let mut results: Vec<OpaqueLoadTrace> = Vec::new();

    let ghost f_raw = |k: usize| raw_trace(s, loads, k);
    let mut i: usize = 0;
    while i < raw_image_op_idxs.len()
        invariant
            s == spv@,
            loads == load_idxs@,
            listed_readable(s, loads, 2),
            listed_readable(s, raw_image_op_idxs@, 3),
            forall|j: int| 0 <= j < raw_image_op_idxs@.len() ==> is_raw_image_op(op_at(s, #[trigger] raw_image_op_idxs@[j] as int)),
            f_raw == (|k: usize| raw_trace(s, loads, k)),
            i <= raw_image_op_idxs@.len(),
            results@ == raw_image_op_idxs@.take(i as int).filter_map(f_raw),
        decreases raw_image_op_idxs@.len() - i,
    {
        let idx = raw_image_op_idxs[i];
        assert(idx + 3 < spv.len());
        let instruction = loword(spv[idx]);
        let loaded_image_id = spv[idx + 3];
        proof {
            raw_image_op_idxs@.lemma_filter_map_take_succ(f_raw, i as int);
        }
        if let Some(load_idx) = find_load(spv, load_idxs, loaded_image_id) {
            let op = if instruction == spv::SPV_INSTRUCTION_OP_IMAGE_FETCH {
                RawImageOp::Fetch(idx)
            } else if instruction == spv::SPV_INSTRUCTION_OP_IMAGE_GATHER {
                RawImageOp::Gather(idx)
            } else {
                RawImageOp::DrefGather(idx)
            };
            results.push(OpaqueLoadTrace { load_idx, next: OpaqueImageOp::RawImage(op) });
        }
        i = i + 1;
    }
    proof {
        assert(raw_image_op_idxs@.take(i as int) =~= raw_image_op_idxs@);
    }
    let ghost part1 = results@;

    let ghost f_storage = |k: usize| storage_trace(s, loads, k);
    let mut i: usize = 0;
    while i < storage_op_idxs.len()
        invariant
            s == spv@,
            loads == load_idxs@,
            listed_readable(s, loads, 2),
            listed_readable(s, storage_op_idxs@, 2),
            forall|j: int| 0 <= j < storage_op_idxs@.len() ==> is_storage_op(op_at(s, #[trigger] storage_op_idxs@[j] as int)),
            forall|j: int| 0 <= j < storage_op_idxs@.len() ==>
                #[trigger] storage_op_idxs@[j] + crate::util::instruction::min_reach(op_at(s, storage_op_idxs@[j] as int)) < s.len(),
            f_storage == (|k: usize| storage_trace(s, loads, k)),
            i <= storage_op_idxs@.len(),
            results@ == part1 + storage_op_idxs@.take(i as int).filter_map(f_storage),
        decreases storage_op_idxs@.len() - i,
    {
        let idx = storage_op_idxs[i];
        assert(idx + 2 < spv.len());
        let instruction = loword(spv[idx]);
        let image_id = if instruction == spv::SPV_INSTRUCTION_OP_IMAGE_WRITE {
            spv[idx + 1]
        } else {
            assert(idx + 3 < spv.len());
            spv[idx + 3]
        };
        proof {
            storage_op_idxs@.lemma_filter_map_take_succ(f_storage, i as int);
        }
        if let Some(load_idx) = find_load(spv, load_idxs, image_id) {
            let op = if instruction == spv::SPV_INSTRUCTION_OP_IMAGE_READ {
                StorageTextureOp::Read(idx)
            } else if instruction == spv::SPV_INSTRUCTION_OP_IMAGE_WRITE {
                StorageTextureOp::Write(idx)
            } else if instruction == spv::SPV_INSTRUCTION_OP_IMAGE_SPARSE_READ {
                StorageTextureOp::SparseRead(idx)
            } else {
                StorageTextureOp::TexelPointer(idx)
            };
            results.push(OpaqueLoadTrace { load_idx, next: OpaqueImageOp::RawStorage(op) });
        }
        i = i + 1;
    }
    proof {
        assert(storage_op_idxs@.take(i as int) =~= storage_op_idxs@);
    }
    let ghost part2 = results@;

    // (result_id, sampled_image_idx, load_idx) for OpSampledImage nodes rooted at our loads
    let ghost f_entry = |k: usize| sampled_entry(s, loads, k);
    let mut sampled_image_entries: Vec<(u32, usize, usize)> = Vec::new();
    let mut i: usize = 0;
    while i < op_sampled_image_idxs.len()
        invariant
            s == spv@,
            loads == load_idxs@,
            listed_readable(s, loads, 2),
            listed_readable(s, op_sampled_image_idxs@, 4),
            f_entry == (|k: usize| sampled_entry(s, loads, k)),
            i <= op_sampled_image_idxs@.len(),
            sampled_image_entries@ == op_sampled_image_idxs@.take(i as int).filter_map(f_entry),
        decreases op_sampled_image_idxs@.len() - i,
    {
        let idx = op_sampled_image_idxs[i];
        assert(idx + 4 < spv.len());
        proof {
            op_sampled_image_idxs@.lemma_filter_map_take_succ(f_entry, i as int);
        }
        if let Some(load_idx) = find_load(spv, load_idxs, spv[idx + 3]) {
            sampled_image_entries.push((spv[idx + 2], idx, load_idx));
        }
        i = i + 1;
    }
    proof {
        assert(op_sampled_image_idxs@.take(i as int) =~= op_sampled_image_idxs@);
    }
    let ghost entries = sampled_image_entries@;

    let ghost f_sample = |k: usize| sample_trace(s, entries, k);
    let mut i: usize = 0;
    while i < sampled_image_op_idxs.len()
        invariant
            s == spv@,
            entries == sampled_image_entries@,
            listed_readable(s, sampled_image_op_idxs@, 3),
            forall|j: int| 0 <= j < sampled_image_op_idxs@.len() ==> is_sample_op(op_at(s, #[trigger] sampled_image_op_idxs@[j] as int)),
            f_sample == (|k: usize| sample_trace(s, entries, k)),
            i <= sampled_image_op_idxs@.len(),
            results@ == part2 + sampled_image_op_idxs@.take(i as int).filter_map(f_sample),
        decreases sampled_image_op_idxs@.len() - i,
    {
        let idx = sampled_image_op_idxs[i];
        assert(idx + 3 < spv.len());
        let instruction = loword(spv[idx]);
        proof {
            sampled_image_op_idxs@.lemma_filter_map_take_succ(f_sample, i as int);
        }
        if let Some(entry) = find_entry(&sampled_image_entries, spv[idx + 3]) {
            let variant = if instruction == spv::SPV_INSTRUCTION_OP_IMAGE_SAMPLE_IMPLICIT_LOD {
                SampledImageVariant::SampleImplicitLod(idx)
            } else if instruction == spv::SPV_INSTRUCTION_OP_IMAGE_SAMPLE_EXPLICIT_LOD {
                SampledImageVariant::SampleExplicitLod(idx)
            } else if instruction == spv::SPV_INSTRUCTION_OP_IMAGE_SAMPLE_DREF_IMPLICIT_LOD {
                SampledImageVariant::SampleDrefImplicitLod(idx)
            } else if instruction == spv::SPV_INSTRUCTION_OP_IMAGE_SAMPLE_DREF_EXPLICIT_LOD {
                SampledImageVariant::SampleDrefExplicitLod(idx)
            } else if instruction == spv::SPV_INSTRUCTION_OP_IMAGE_SAMPLE_PROJ_IMPLICIT_LOD {
                SampledImageVariant::SampleProjImplicitLod(idx)
            } else if instruction == spv::SPV_INSTRUCTION_OP_IMAGE_SAMPLE_PROJ_EXPLICIT_LOD {
                SampledImageVariant::SampleProjExplicitLod(idx)
            } else if instruction == spv::SPV_INSTRUCTION_OP_IMAGE_SAMPLE_PROJ_DREF_IMPLICIT_LOD {
                SampledImageVariant::SampleProjDrefImplicitLod(idx)
            } else {
                SampledImageVariant::SampleProjDrefExplicitLod(idx)
            };
            results.push(OpaqueLoadTrace {
                load_idx: entry.2,
                next: OpaqueImageOp::Sampled(SampledImageOp { idx: entry.1, next: variant }),
            });
        }
        i = i + 1;
    }
    proof {
        assert(sampled_image_op_idxs@.take(i as int) =~= sampled_image_op_idxs@);
    }
    let ghost part3 = results@;

    let ghost f_gather = |k: usize| gather_trace(s, entries, k);
    let mut i: usize = 0;
    while i < raw_image_op_idxs.len()
        invariant
            s == spv@,
            entries == sampled_image_entries@,
            listed_readable(s, raw_image_op_idxs@, 3),
            f_gather == (|k: usize| gather_trace(s, entries, k)),
            i <= raw_image_op_idxs@.len(),
            results@ == part3 + raw_image_op_idxs@.take(i as int).filter_map(f_gather),
        decreases raw_image_op_idxs@.len() - i,
    {
        let idx = raw_image_op_idxs[i];
        assert(idx + 3 < spv.len());
        let instruction = loword(spv[idx]);
        proof {
            raw_image_op_idxs@.lemma_filter_map_take_succ(f_gather, i as int);
        }
        if let Some(entry) = find_entry(&sampled_image_entries, spv[idx + 3]) {
            if instruction == spv::SPV_INSTRUCTION_OP_IMAGE_GATHER {
                results.push(OpaqueLoadTrace {
                    load_idx: entry.2,
                    next: OpaqueImageOp::Sampled(SampledImageOp { idx: entry.1, next: SampledImageVariant::Gather(idx) }),
                });
            } else if instruction == spv::SPV_INSTRUCTION_OP_IMAGE_DREF_GATHER {
                results.push(OpaqueLoadTrace {
                    load_idx: entry.2,
                    next: OpaqueImageOp::Sampled(SampledImageOp { idx: entry.1, next: SampledImageVariant::DrefGather(idx) }),
                });
            }
        }
        i = i + 1;
    }
    proof {
        assert(raw_image_op_idxs@.take(i as int) =~= raw_image_op_idxs@);
        assert(results@ =~= loaded_opaque_traces(s, loads));
    }
    results
}

/// The instructions of a well-formed stream chosen by an opcode predicate have the words
/// read of them, when every opcode the predicate accepts reaches that far.
proof fn lemma_filter_reach(s: Seq<u32>, pred: spec_fn(usize) -> bool, reach: int)
    requires
        operands_fit(s),
        forall|k: usize| #[trigger] pred(k) ==> crate::util::instruction::min_reach(op_at(s, k as int)) >= reach,
    ensures
        listed_readable(s, starts(s).filter(pred), reach),
        forall|j: int| 0 <= j < starts(s).filter(pred).len() ==> pred(#[trigger] starts(s).filter(pred)[j]),
        forall|j: int| 0 <= j < starts(s).filter(pred).len() ==>
            #[trigger] starts(s).filter(pred)[j] + crate::util::instruction::min_reach(op_at(s, starts(s).filter(pred)[j] as int)) < s.len(),
{
    assert forall|j: int| 0 <= j < starts(s).filter(pred).len() implies
        #[trigger] starts(s).filter(pred)[j] + reach < s.len() && pred(starts(s).filter(pred)[j])
        && starts(s).filter(pred)[j] + crate::util::instruction::min_reach(op_at(s, starts(s).filter(pred)[j] as int)) < s.len() by {
        let k = starts(s).filter(pred)[j];
        starts(s).lemma_filter_pred(pred, j);
        assert(starts(s).filter(pred).contains(k));
        starts(s).lemma_filter_contains_rev(pred, k);
        let i = choose|i: int| 0 <= i < starts(s).len() && starts(s)[i] == k;
        assert(starts(s)[i] + crate::util::instruction::min_reach(op_at(s, starts(s)[i] as int)) < s.len());
    }
}

/// The words of the instruction at `idx`.
pub open spec fn instr_words(s: Seq<u32>, idx: usize) -> Seq<u32> {
    s.subrange(idx as int, idx + spec_hiword(s[idx as int]))
}

/// The stream with the instruction at `idx` overwritten by one-word `OpNop`s.
pub open spec fn nop_fill(v: Seq<u32>, idx: usize) -> Seq<u32> {
    Seq::new(v.len(), |i: int| if idx <= i < idx + spec_hiword(v[idx as int]) {
        spec_encode_word(1, spv::SPV_INSTRUCTION_OP_NOP)
    } else {
        v[i]
    })
}

/// The stream with the instructions at `offs` overwritten in turn; each instruction's extent
/// is read from the stream as it stands when its turn comes.
pub open spec fn nop_fills(v: Seq<u32>, offs: Seq<usize>) -> Seq<u32>
    decreases offs.len(),
{
    if offs.len() == 0 {
        v
    } else {
        nop_fills(nop_fill(v, offs[0]), offs.drop_first())
    }
}

/// Overwriting instructions by `OpNop`s keeps the stream's length.
pub proof fn lemma_nop_fills_len(v: Seq<u32>, offs: Seq<usize>)
    ensures
        nop_fills(v, offs).len() == v.len(),
    decreases offs.len(),
{
    if offs.len() > 0 {
        lemma_nop_fills_len(nop_fill(v, offs[0]), offs.drop_first());
    }
}

/// Each overwrite in turn stays inside the stream.
pub open spec fn fills_ok(v: Seq<u32>, offs: Seq<usize>) -> bool
    decreases offs.len(),
{
    offs.len() == 0 || (offs[0] < v.len() && offs[0] + spec_hiword(v[offs[0] as int]) <= v.len()
        && fills_ok(nop_fill(v, offs[0]), offs.drop_first()))
}

/// The words of the instructions at `offs`, in order.
pub open spec fn words_of(s: Seq<u32>, offs: Seq<usize>) -> Seq<u32>
    decreases offs.len(),
{
    if offs.len() == 0 {
        Seq::empty()
    } else {
        instr_words(s, offs[0]) + words_of(s, offs.drop_first())
    }
}

/// The offsets of the instructions of a chain: the load, the `OpSampledImage` if any, and
/// the consuming instruction.
pub open spec fn trace_offsets(t: OpaqueLoadTrace) -> Seq<usize> {
    match t.next {
        OpaqueImageOp::RawImage(op) => seq![t.load_idx, op.spec_result_idx()],
        OpaqueImageOp::RawStorage(op) => seq![t.load_idx, op.spec_result_idx()],
        OpaqueImageOp::Sampled(op) => seq![t.load_idx, op.idx, op.next.spec_result_idx()],
    }
}

/// Every offset holds a whole instruction of `s`.
pub open spec fn offsets_inside(s: Seq<u32>, offs: Seq<usize>) -> bool {
    forall|j: int| 0 <= j < offs.len() ==> #[trigger] offs[j] < s.len() && offs[j] + spec_hiword(s[offs[j] as int]) <= s.len()
}

fn take_instruction(spv: &[u32], idx: usize) -> (r: &[u32])
    requires
        idx < spv@.len(),
        idx + spec_hiword(spv@[idx as int]) <= spv@.len(),
    ensures
        r@ == instr_words(spv@, idx),
{
    let word_count = hiword(spv[idx]) as usize;
    &spv[idx..idx + word_count]
}

fn write_nop_instruction(new_spv: &mut [u32], idx: usize)
    requires
        idx < old(new_spv)@.len(),
        idx + spec_hiword(old(new_spv)@[idx as int]) <= old(new_spv)@.len(),
    ensures
        final(new_spv)@ == nop_fill(old(new_spv)@, idx),
{
    let word_count = hiword(new_spv[idx]) as usize;
    let end = idx + word_count;
    let nop = encode_word(1, spv::SPV_INSTRUCTION_OP_NOP);
    let mut k = idx;
    while k < end
        invariant
            idx <= k <= end <= new_spv@.len(),
            end == idx + spec_hiword(old(new_spv)@[idx as int]),
            new_spv@.len() == old(new_spv)@.len(),
            nop == spec_encode_word(1, spv::SPV_INSTRUCTION_OP_NOP),
            forall|i: int| 0 <= i < new_spv@.len() ==> #[trigger] new_spv@[i] == if idx <= i < k { nop } else { old(new_spv)@[i] },
        decreases end - k,
    {
        new_spv[k] = nop;
        k = k + 1;
    }
    assert(new_spv@ =~= nop_fill(old(new_spv)@, idx));
}

/// Copies the instructions of a chain out of `spv`, in chain order, and overwrites them in
/// `new_spv` with `OpNop`s.
pub fn reconstruct_opaque_trace_and_overwrite(
    spv: &[u32],
    new_spv: &mut [u32],
    trace: &OpaqueLoadTrace,
) -> (r: Vec<u32>)
    requires
        offsets_inside(spv@, trace_offsets(*trace)),
        fills_ok(old(new_spv)@, trace_offsets(*trace)),
    ensures
        r@ == words_of(spv@, trace_offsets(*trace)),
        final(new_spv)@ == nop_fills(old(new_spv)@, trace_offsets(*trace)),
{
    let ghost offs = trace_offsets(*trace);
    let ghost v0 = new_spv@;
    assert(offs[0] == trace.load_idx);
    let mut out = vstd::slice::slice_to_vec(take_instruction(spv, trace.load_idx));
    write_nop_instruction(new_spv, trace.load_idx);
    let ghost v1 = new_spv@;
    match &trace.next {
        OpaqueImageOp::RawImage(op) => {
            let op_idx = op.result_idx();
            assert(offs[1] == op_idx);
            let w = take_instruction(spv, op_idx);
            let mut k: usize = 0;
            let ghost base = out@;
            while k < w.len()
                invariant
                    k <= w@.len(),
                    out@ == base + w@.subrange(0, k as int),
                decreases w@.len() - k,
            {
                out.push(w[k]);
                assert(out@ =~= base + w@.subrange(0, k + 1));
                k = k + 1;
            }
            assert(offs.drop_first()[0] == op_idx);
            assert(fills_ok(v1, offs.drop_first()));
            write_nop_instruction(new_spv, op_idx);
            proof {
                assert(w@.subrange(0, k as int) =~= w@);
                assert(offs.drop_first().drop_first() =~= Seq::<usize>::empty());
                assert(words_of(spv@, offs.drop_first()) =~= instr_words(spv@, op_idx) + words_of(spv@, offs.drop_first().drop_first()));
                assert(out@ =~= words_of(spv@, offs));
                assert(nop_fills(v0, offs) == nop_fills(v1, offs.drop_first()));
                assert(nop_fills(v1, offs.drop_first()) == nop_fills(nop_fill(v1, op_idx), offs.drop_first().drop_first()));
            }
        },
        OpaqueImageOp::RawStorage(op) => {
            let op_idx = op.result_idx();
            assert(offs[1] == op_idx);
            let w = take_instruction(spv, op_idx);
            let mut k: usize = 0;
            let ghost base = out@;
            while k < w.len()
                invariant
                    k <= w@.len(),
                    out@ == base + w@.subrange(0, k as int),
                decreases w@.len() - k,
            {
                out.push(w[k]);
                assert(out@ =~= base + w@.subrange(0, k + 1));
                k = k + 1;
            }
            assert(offs.drop_first()[0] == op_idx);
            assert(fills_ok(v1, offs.drop_first()));
            write_nop_instruction(new_spv, op_idx);
            proof {
                assert(w@.subrange(0, k as int) =~= w@);
                assert(offs.drop_first().drop_first() =~= Seq::<usize>::empty());
                assert(words_of(spv@, offs.drop_first()) =~= instr_words(spv@, op_idx) + words_of(spv@, offs.drop_first().drop_first()));
                assert(out@ =~= words_of(spv@, offs));
                assert(nop_fills(v0, offs) == nop_fills(v1, offs.drop_first()));
                assert(nop_fills(v1, offs.drop_first()) == nop_fills(nop_fill(v1, op_idx), offs.drop_first().drop_first()));
            }
        },
        OpaqueImageOp::Sampled(sampled) => {
            let si_idx = sampled.idx;
            let op_idx = sampled.next.result_idx();
            assert(offs[1] == si_idx);
            assert(offs[2] == op_idx);
            let w1 = take_instruction(spv, si_idx);
            let mut k: usize = 0;
            let ghost base = out@;
            while k < w1.len()
                invariant
                    k <= w1@.len(),
                    out@ == base + w1@.subrange(0, k as int),
                decreases w1@.len() - k,
            {
                out.push(w1[k]);
                assert(out@ =~= base + w1@.subrange(0, k + 1));
                k = k + 1;
            }
            assert(offs.drop_first()[0] == si_idx);
            assert(fills_ok(v1, offs.drop_first()));
            write_nop_instruction(new_spv, si_idx);
            let ghost v2 = new_spv@;
            assert(offs.drop_first().drop_first()[0] == op_idx);
            assert(fills_ok(v2, offs.drop_first().drop_first()));
            let w2 = take_instruction(spv, op_idx);
            let mut k2: usize = 0;
            let ghost base2 = out@;
            while k2 < w2.len()
                invariant
                    k2 <= w2@.len(),
                    out@ == base2 + w2@.subrange(0, k2 as int),
                decreases w2@.len() - k2,
            {
                out.push(w2[k2]);
                assert(out@ =~= base2 + w2@.subrange(0, k2 + 1));
                k2 = k2 + 1;
            }
            write_nop_instruction(new_spv, op_idx);
            proof {
                assert(w1@.subrange(0, k as int) =~= w1@);
                assert(w2@.subrange(0, k2 as int) =~= w2@);
                let o1 = offs.drop_first();
                let o2 = o1.drop_first();
                assert(o2.drop_first() =~= Seq::<usize>::empty());
                assert(o1[0] == si_idx);
                assert(o2[0] == op_idx);
                assert(words_of(spv@, o2) =~= instr_words(spv@, op_idx) + words_of(spv@, o2.drop_first()));
                assert(words_of(spv@, o1) =~= instr_words(spv@, si_idx) + words_of(spv@, o2));
                assert(out@ =~= words_of(spv@, offs));
                assert(nop_fills(v0, offs) == nop_fills(v1, o1));
                assert(nop_fills(v1, o1) == nop_fills(v2, o2));
                assert(nop_fills(v2, o2) == nop_fills(nop_fill(v2, op_idx), o2.drop_first()));
            }
        },
    }
    out
}

/// Each offset holds an instruction of `v` that ends inside it.
pub open spec fn offsets_fit(v: Seq<u32>, offs: Seq<usize>) -> bool {
    forall|j: int| 0 <= j < offs.len() ==> #[trigger] offs[j] < v.len() && offs[j] + spec_hiword(v[offs[j] as int]) <= v.len()
}

proof fn lemma_nop_fill_keeps_fit(v: Seq<u32>, idx: usize, offs: Seq<usize>)
    requires
        idx < v.len(),
        idx + spec_hiword(v[idx as int]) <= v.len(),
        offsets_fit(v, offs),
    ensures
        offsets_fit(nop_fill(v, idx), offs),
{
    let w = nop_fill(v, idx);
    assert forall|j: int| 0 <= j < offs.len() implies #[trigger] offs[j] < w.len() && offs[j] + spec_hiword(w[offs[j] as int]) <= w.len() by {
        let o = offs[j];
        if idx <= o < idx + spec_hiword(v[idx as int]) {
            assert(w[o as int] == spec_encode_word(1, spv::SPV_INSTRUCTION_OP_NOP));
            crate::util::lemma_split_encode(1, spv::SPV_INSTRUCTION_OP_NOP);
        }
    }
}

/// Offsets that each hold an instruction ending inside the stream can be overwritten in turn.
pub proof fn lemma_offsets_fit_fills_ok(v: Seq<u32>, offs: Seq<usize>)
    requires
        offsets_fit(v, offs),
    ensures
        fills_ok(v, offs),
    decreases offs.len(),
{
    if offs.len() > 0 {
        assert(offs[0] < v.len());
        assert(offsets_fit(v, offs.drop_first())) by {
            assert forall|j: int| 0 <= j < offs.drop_first().len() implies #[trigger] offs.drop_first()[j] < v.len()
                && offs.drop_first()[j] + spec_hiword(v[offs.drop_first()[j] as int]) <= v.len() by {
                assert(offs.drop_first()[j] == offs[j + 1]);
            }
        }
        lemma_nop_fill_keeps_fit(v, offs[0], offs.drop_first());
        lemma_offsets_fit_fills_ok(nop_fill(v, offs[0]), offs.drop_first());
    }
}

fn offset_fits(v: &[u32], o: usize) -> (r: bool)
    ensures
        r == (o < v@.len() && o + spec_hiword(v@[o as int]) <= v@.len()),
{
    o < v.len() && crate::util::hiword(v[o]) as usize <= v.len() - o
}

/// Whether the instructions of a chain lie whole in both streams.
pub fn trace_fits(spv: &[u32], new_spv: &[u32], trace: &OpaqueLoadTrace) -> (r: bool)
    ensures
        r == (offsets_inside(spv@, trace_offsets(*trace)) && offsets_fit(new_spv@, trace_offsets(*trace))),
        r ==> offsets_inside(spv@, trace_offsets(*trace)) && fills_ok(new_spv@, trace_offsets(*trace)),
{
    let ghost offs = trace_offsets(*trace);
    let mut ok = offset_fits(spv, trace.load_idx) && offset_fits(new_spv, trace.load_idx);
    match &trace.next {
        OpaqueImageOp::RawImage(op) => {
            let i = op.result_idx();
            ok = ok && offset_fits(spv, i) && offset_fits(new_spv, i);
        },
        OpaqueImageOp::RawStorage(op) => {
            let i = op.result_idx();
            ok = ok && offset_fits(spv, i) && offset_fits(new_spv, i);
        },
        OpaqueImageOp::Sampled(op) => {
            let i = op.next.result_idx();
            ok = ok && offset_fits(spv, op.idx) && offset_fits(new_spv, op.idx) && offset_fits(spv, i)
                && offset_fits(new_spv, i);
        },
    }
    proof {
        if ok {
            assert(offsets_fit(new_spv@, offs));
            lemma_offsets_fit_fills_ok(new_spv@, offs);
        } else {
            if offsets_inside(spv@, offs) && offsets_fit(new_spv@, offs) {
                assert(offs[0] < spv@.len());
                assert(offs[1] < spv@.len());
                assert(offs[0] < new_spv@.len());
                assert(offs[1] < new_spv@.len());
                if offs.len() > 2 {
                    assert(offs[2] < spv@.len());
                    assert(offs[2] < new_spv@.len());
                }
            }
        }
    }
    ok
}

} // verus!
