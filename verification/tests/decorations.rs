use std::collections::HashSet;

use spirv_webgpu_transform::correction::{CorrectionMap, CorrectionType};
use spirv_webgpu_transform::mirrorpatch::{patch_spv_decorations, NewVariable};
use spirv_webgpu_transform::spv::{
    SPV_DECORATION_BINDING, SPV_DECORATION_DESCRIPTOR_SET, SPV_DECORATION_NON_WRITABLE, SPV_DECORATION_RESTRICT,
    SPV_HEADER_MAGIC, SPV_INSTRUCTION_OP_DECORATE, SPV_INSTRUCTION_OP_VARIABLE,
};
use spirv_webgpu_transform::util::copy_decorate::{copy_decorate, CopyDecorateIn};
use spirv_webgpu_transform::util::correct_decorate::{correct_decorate, decorate_map_set_bindings, CorrectDecorateIn};
use spirv_webgpu_transform::util::decorate::{decorate, AffectedDecoration, DecorateIn};
use spirv_webgpu_transform::util::encode_word;
use spirv_webgpu_transform::util::InstructionInsert;

fn deco(id: u32, decoration: u32, value: u32) -> [u32; 4] {
    [encode_word(4, SPV_INSTRUCTION_OP_DECORATE), id, decoration, value]
}

fn three_resources() -> Vec<u32> {
    [
        deco(10, SPV_DECORATION_DESCRIPTOR_SET, 0), deco(10, SPV_DECORATION_BINDING, 0),
        deco(11, SPV_DECORATION_DESCRIPTOR_SET, 0), deco(11, SPV_DECORATION_BINDING, 0),
        deco(12, SPV_DECORATION_DESCRIPTOR_SET, 0), deco(12, SPV_DECORATION_BINDING, 1),
        deco(13, SPV_DECORATION_DESCRIPTOR_SET, 1), deco(13, SPV_DECORATION_BINDING, 0),
        deco(14, SPV_DECORATION_DESCRIPTOR_SET, 1), deco(14, SPV_DECORATION_BINDING, 0),
    ]
    .concat()
}

#[test]
fn set_bindings_are_ordered_by_binding_then_id() {
    let spv = three_resources();
    let idxs: Vec<usize> = (0..10).map(|i| i * 4).collect();
    let filter: HashSet<u32> = [0].into_iter().collect();
    let map = decorate_map_set_bindings(&spv, &idxs, &filter);
    assert_eq!(map.len(), 1);
    assert_eq!(map[&0], vec![(4, 0), (12, 0), (20, 1)]);
}

#[test]
fn repeated_bindings_move_the_rest_of_the_set_up() {
    let mut spv = three_resources();
    let original = spv.clone();
    correct_decorate(CorrectDecorateIn {
        new_spv: &mut spv,
        descriptor_sets_to_correct: [0].into_iter().collect(),
    });
    assert_eq!(spv[7], 0);
    assert_eq!(spv[15], 1);
    assert_eq!(spv[23], 2);
    // Set 1 is not corrected.
    assert_eq!(spv[31], 0);
    assert_eq!(spv[39], 0);
    let changed: Vec<usize> = (0..spv.len()).filter(|&i| spv[i] != original[i]).collect();
    assert_eq!(changed, vec![15, 23]);
}

#[test]
fn copied_decorations_follow_the_first_copied_one() {
    let spv = vec![
        encode_word(3, SPV_INSTRUCTION_OP_DECORATE), 5, SPV_DECORATION_NON_WRITABLE,
        encode_word(4, SPV_INSTRUCTION_OP_DECORATE), 5, SPV_DECORATION_BINDING, 0,
        encode_word(3, SPV_INSTRUCTION_OP_DECORATE), 5, SPV_DECORATION_RESTRICT,
        encode_word(3, SPV_INSTRUCTION_OP_DECORATE), 6, SPV_DECORATION_RESTRICT,
    ];
    let mut inserts: Vec<InstructionInsert> = vec![];
    copy_decorate(CopyDecorateIn {
        spv: &spv,
        op_decorate_idxs: &[0, 3, 7, 10],
        instruction_inserts: &mut inserts,
        old_id: 5,
        new_id: 9,
    });
    assert_eq!(inserts.len(), 2);
    assert_eq!(inserts[0].previous_spv_idx, 0);
    assert_eq!(inserts[0].instruction, vec![encode_word(3, SPV_INSTRUCTION_OP_DECORATE), 9, SPV_DECORATION_NON_WRITABLE]);
    assert_eq!(inserts[1].previous_spv_idx, 0);
    assert_eq!(inserts[1].instruction, vec![encode_word(3, SPV_INSTRUCTION_OP_DECORATE), 9, SPV_DECORATION_RESTRICT]);
}

#[test]
fn new_resources_take_the_slot_of_their_original_and_are_recorded() {
    let spv = [deco(5, SPV_DECORATION_DESCRIPTOR_SET, 1), deco(5, SPV_DECORATION_BINDING, 2)].concat();
    let mut inserts: Vec<InstructionInsert> = vec![];
    let mut corrections = Some(CorrectionMap::default());
    let out = decorate(DecorateIn {
        spv: &spv,
        instruction_inserts: &mut inserts,
        first_op_deocrate_idx: Some(0),
        op_decorate_idxs: &[0, 4],
        affected_decorations: &[
            AffectedDecoration { original_res_id: 5, new_res_id: 9, correction_type: CorrectionType::SplitCombined },
            AffectedDecoration { original_res_id: 7, new_res_id: 8, correction_type: CorrectionType::SplitCombined },
            AffectedDecoration { original_res_id: 5, new_res_id: 5, correction_type: CorrectionType::ConvertStorageCube },
        ],
        corrections: &mut corrections,
    });
    assert_eq!(out.descriptor_sets_to_correct, [1].into_iter().collect());
    assert_eq!(inserts.len(), 1);
    assert_eq!(inserts[0].previous_spv_idx, 0);
    assert_eq!(inserts[0].instruction, [deco(9, SPV_DECORATION_DESCRIPTOR_SET, 1), deco(9, SPV_DECORATION_BINDING, 2)].concat());
    let sets = corrections.unwrap().sets.unwrap();
    assert_eq!(
        sets[&1].bindings[&2].corrections,
        vec![CorrectionType::SplitCombined, CorrectionType::ConvertStorageCube]
    );

    let mut untracked: Option<CorrectionMap> = None;
    let mut inserts: Vec<InstructionInsert> = vec![];
    decorate(DecorateIn {
        spv: &spv,
        instruction_inserts: &mut inserts,
        first_op_deocrate_idx: Some(0),
        op_decorate_idxs: &[0, 4],
        affected_decorations: &[AffectedDecoration { original_res_id: 5, new_res_id: 9, correction_type: CorrectionType::SplitCombined }],
        corrections: &mut untracked,
    });
    assert!(untracked.is_none());
}

#[test]
fn mirrored_variables_are_copied_decorated_and_renumbered() {
    let mut module = vec![SPV_HEADER_MAGIC, 0x0001_0000, 0, 6, 0];
    module.extend_from_slice(&deco(5, SPV_DECORATION_DESCRIPTOR_SET, 0));
    module.extend_from_slice(&deco(5, SPV_DECORATION_BINDING, 0));
    module.extend_from_slice(&[encode_word(4, SPV_INSTRUCTION_OP_VARIABLE), 3, 5, 0]);
    let mut corrections = Some(CorrectionMap::default());
    let out = patch_spv_decorations(
        &module,
        &mut corrections,
        21,
        &[NewVariable { set: 0, binding: 0, new_res_id: 20, correction_type: CorrectionType::SplitCombined }],
    )
    .unwrap();
    let mut expected = vec![SPV_HEADER_MAGIC, 0x0001_0000, 0, 21, 0];
    expected.extend_from_slice(&deco(5, SPV_DECORATION_DESCRIPTOR_SET, 0));
    expected.extend_from_slice(&deco(20, SPV_DECORATION_DESCRIPTOR_SET, 0));
    expected.extend_from_slice(&deco(20, SPV_DECORATION_BINDING, 1));
    expected.extend_from_slice(&deco(5, SPV_DECORATION_BINDING, 0));
    expected.extend_from_slice(&[encode_word(4, SPV_INSTRUCTION_OP_VARIABLE), 3, 5, 0]);
    expected.extend_from_slice(&[encode_word(4, SPV_INSTRUCTION_OP_VARIABLE), 3, 20, 0]);
    assert_eq!(out, expected);
    let sets = corrections.unwrap().sets.unwrap();
    assert_eq!(sets[&0].bindings[&0].corrections, vec![CorrectionType::SplitCombined]);
}
