use spirv_webgpu_transform::spv::{
    SPV_INSTRUCTION_OP_IMAGE_FETCH, SPV_INSTRUCTION_OP_IMAGE_GATHER,
    SPV_INSTRUCTION_OP_IMAGE_SAMPLE_IMPLICIT_LOD, SPV_INSTRUCTION_OP_IMAGE_WRITE,
    SPV_INSTRUCTION_OP_LOAD, SPV_INSTRUCTION_OP_NOP, SPV_INSTRUCTION_OP_SAMPLED_IMAGE,
};
use spirv_webgpu_transform::util::encode_word;
use spirv_webgpu_transform::util::opaque_trace::{
    reconstruct_opaque_trace_and_overwrite, trace_loaded_opaques, OpaqueImageOp, OpaqueLoadTrace,
    RawImageOp, SampledImageOp, SampledImageVariant, StorageTextureOp,
};

#[test]
fn raw_image_fetch() {
    let spv: &[u32] = &[
        // %20 = OpLoad %10 %30
        encode_word(4, SPV_INSTRUCTION_OP_LOAD),
        10,
        20,
        30,
        // %21 = OpImageFetch %11 %20 %40
        encode_word(5, SPV_INSTRUCTION_OP_IMAGE_FETCH),
        11,
        21,
        20,
        40,
    ];
    let traces = trace_loaded_opaques(spv, &[0]);
    assert_eq!(traces.len(), 1);
    assert!(matches!(
        traces[0],
        OpaqueLoadTrace {
            load_idx: 0,
            next: OpaqueImageOp::RawImage(RawImageOp::Fetch(4))
        }
    ));
}

#[test]
fn sampled_image_implicit_lod() {
    let spv: &[u32] = &[
        // %20 = OpLoad %10 %30
        encode_word(4, SPV_INSTRUCTION_OP_LOAD),
        10,
        20,
        30,
        // %21 = OpLoad %11 %31
        encode_word(4, SPV_INSTRUCTION_OP_LOAD),
        11,
        21,
        31,
        // %22 = OpSampledImage %12 %20 %21
        encode_word(5, SPV_INSTRUCTION_OP_SAMPLED_IMAGE),
        12,
        22,
        20,
        21,
        // %23 = OpImageSampleImplicitLod %13 %22 %40
        encode_word(5, SPV_INSTRUCTION_OP_IMAGE_SAMPLE_IMPLICIT_LOD),
        13,
        23,
        22,
        40,
    ];
    let traces = trace_loaded_opaques(spv, &[0]);
    assert_eq!(traces.len(), 1);
    assert!(matches!(
        traces[0],
        OpaqueLoadTrace {
            load_idx: 0,
            next: OpaqueImageOp::Sampled(SampledImageOp {
                idx: 8,
                next: SampledImageVariant::SampleImplicitLod(13),
            })
        }
    ));
}

#[test]
fn storage_image_write() {
    let spv: &[u32] = &[
        // %20 = OpLoad %10 %30
        encode_word(4, SPV_INSTRUCTION_OP_LOAD),
        10,
        20,
        30,
        // OpImageWrite %20 %40 %50
        encode_word(4, SPV_INSTRUCTION_OP_IMAGE_WRITE),
        20,
        40,
        50,
    ];
    let traces = trace_loaded_opaques(spv, &[0]);
    assert_eq!(traces.len(), 1);
    assert!(matches!(
        traces[0],
        OpaqueLoadTrace {
            load_idx: 0,
            next: OpaqueImageOp::RawStorage(StorageTextureOp::Write(4))
        }
    ));
}

#[test]
fn gather_through_sampled_image_and_directly() {
    let spv: &[u32] = &[
        encode_word(4, SPV_INSTRUCTION_OP_LOAD), 10, 20, 30,
        encode_word(5, SPV_INSTRUCTION_OP_SAMPLED_IMAGE), 12, 22, 20, 21,
        // %23 = OpImageGather %13 %22 ...
        encode_word(5, SPV_INSTRUCTION_OP_IMAGE_GATHER), 13, 23, 22, 40,
        // %24 = OpImageGather %13 %20 ...
        encode_word(5, SPV_INSTRUCTION_OP_IMAGE_GATHER), 13, 24, 20, 40,
    ];
    let traces = trace_loaded_opaques(spv, &[0]);
    assert_eq!(
        traces,
        vec![
            OpaqueLoadTrace { load_idx: 0, next: OpaqueImageOp::RawImage(RawImageOp::Gather(14)) },
            OpaqueLoadTrace {
                load_idx: 0,
                next: OpaqueImageOp::Sampled(SampledImageOp { idx: 4, next: SampledImageVariant::Gather(9) }),
            },
        ]
    );
    assert_eq!(traces[1].last_result_id(), 9);
}

#[test]
fn untraced_load_gives_nothing() {
    let spv: &[u32] = &[
        encode_word(4, SPV_INSTRUCTION_OP_LOAD), 10, 20, 30,
        encode_word(5, SPV_INSTRUCTION_OP_IMAGE_FETCH), 11, 21, 99, 40,
    ];
    assert_eq!(trace_loaded_opaques(spv, &[0]), vec![]);
}

#[test]
fn reconstruct_copies_and_whites_out() {
    let spv: Vec<u32> = vec![
        encode_word(4, SPV_INSTRUCTION_OP_LOAD), 10, 20, 30,
        encode_word(5, SPV_INSTRUCTION_OP_IMAGE_FETCH), 11, 21, 20, 40,
    ];
    let mut new_spv = spv.clone();
    let trace = OpaqueLoadTrace { load_idx: 0, next: OpaqueImageOp::RawImage(RawImageOp::Fetch(4)) };
    let out = reconstruct_opaque_trace_and_overwrite(&spv, &mut new_spv, &trace);
    assert_eq!(out, spv);
    assert_eq!(new_spv, vec![encode_word(1, SPV_INSTRUCTION_OP_NOP); 9]);
}
