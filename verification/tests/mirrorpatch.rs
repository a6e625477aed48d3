use spirv_webgpu_transform::correction::{CorrectionBinding, CorrectionType};
use spirv_webgpu_transform::mirrorpatch::{push_affected_decorations, NewVariable};

#[test]
fn test_push_affected_decorations() {
    let l = CorrectionBinding {
        corrections: vec![
            CorrectionType::SplitCombined,
            CorrectionType::SplitDrefRegular,
            CorrectionType::SplitDrefRegular,
            CorrectionType::SplitCombined,
            CorrectionType::SplitDrefComparison,
        ],
    };

    let r = CorrectionBinding {
        corrections: vec![
            CorrectionType::SplitDrefRegular,
            CorrectionType::SplitDrefComparison,
        ],
    };

    let mut affected = vec![];
    push_affected_decorations(&mut affected, &mut 0, 0, 0, &l, &r);
    assert_eq!(
        affected,
        vec![
            NewVariable {
                set: 0,
                binding: 0,
                new_res_id: 0,
                correction_type: CorrectionType::SplitCombined,
            },
            NewVariable {
                set: 0,
                binding: 1,
                new_res_id: 1,
                correction_type: CorrectionType::SplitDrefRegular,
            },
            NewVariable {
                set: 0,
                binding: 1,
                new_res_id: 2,
                correction_type: CorrectionType::SplitCombined,
            },
        ]
    );

    let mut affected = vec![];
    push_affected_decorations(&mut affected, &mut 0, 0, 0, &r, &l);
    assert_eq!(affected, vec![]);
}

#[test]
fn mirrored_variables_take_ids_from_the_bound_and_keep_existing_entries() {
    let l = CorrectionBinding { corrections: vec![CorrectionType::SplitBindingArray, CorrectionType::ConvertStorageCube] };
    let r = CorrectionBinding { corrections: vec![] };
    let existing = NewVariable { set: 9, binding: 9, new_res_id: 9, correction_type: CorrectionType::SplitCombined };
    let mut affected = vec![existing];
    let mut ib = 40u32;
    push_affected_decorations(&mut affected, &mut ib, 3, 7, &l, &r);
    assert_eq!(ib, 42);
    assert_eq!(
        affected,
        vec![
            existing,
            NewVariable { set: 3, binding: 7, new_res_id: 40, correction_type: CorrectionType::SplitBindingArray },
            NewVariable { set: 3, binding: 7, new_res_id: 41, correction_type: CorrectionType::ConvertStorageCube },
        ]
    );
}

#[test]
fn matched_corrections_only_move_later_bindings() {
    let l = CorrectionBinding { corrections: vec![CorrectionType::SplitDrefComparison, CorrectionType::SplitCombined] };
    let r = CorrectionBinding { corrections: vec![CorrectionType::SplitDrefComparison] };
    let mut affected = vec![];
    let mut ib = 5u32;
    push_affected_decorations(&mut affected, &mut ib, 1, 2, &l, &r);
    assert_eq!(ib, 6);
    assert_eq!(
        affected,
        vec![NewVariable { set: 1, binding: 3, new_res_id: 5, correction_type: CorrectionType::SplitCombined }]
    );
}

use spirv_webgpu_transform::correction::{CorrectionMap, CorrectionSet};
use spirv_webgpu_transform::mirrorpatch::{is_mirror_ready, mirrorpatch};
use spirv_webgpu_transform::spv::{
    SPV_DECORATION_BINDING, SPV_DECORATION_DESCRIPTOR_SET, SPV_HEADER_MAGIC, SPV_INSTRUCTION_OP_DECORATE,
    SPV_INSTRUCTION_OP_VARIABLE,
};
use spirv_webgpu_transform::util::encode_word;
use std::collections::HashMap;

fn one_resource_module(bound: u32) -> Vec<u32> {
    vec![
        SPV_HEADER_MAGIC, 0x0001_0000, 0, bound, 0,
        encode_word(4, SPV_INSTRUCTION_OP_DECORATE), 5, SPV_DECORATION_DESCRIPTOR_SET, 0,
        encode_word(4, SPV_INSTRUCTION_OP_DECORATE), 5, SPV_DECORATION_BINDING, 0,
        encode_word(4, SPV_INSTRUCTION_OP_VARIABLE), 3, 5, 0,
    ]
}

#[test]
fn without_corrections_nothing_is_mirrored() {
    let module = one_resource_module(6);
    let out = mirrorpatch(&module, &mut None, &module, &mut None).unwrap();
    assert_eq!(out, (None, None));
}

#[test]
fn a_split_on_one_side_adds_the_variable_to_the_other() {
    let left = one_resource_module(6);
    let right = one_resource_module(6);
    let mut bindings = HashMap::new();
    bindings.insert(0, CorrectionBinding { corrections: vec![CorrectionType::SplitCombined] });
    let mut sets = HashMap::new();
    sets.insert(0, CorrectionSet { bindings });
    let mut left_corrections = Some(CorrectionMap { sets: Some(sets), ..Default::default() });
    let mut right_corrections = None;
    let (l, r) = mirrorpatch(&left, &mut left_corrections, &right, &mut right_corrections).unwrap();
    assert!(l.is_none());
    assert!(right_corrections.is_none());
    let expected = vec![
        SPV_HEADER_MAGIC, 0x0001_0000, 0, 7, 0,
        encode_word(4, SPV_INSTRUCTION_OP_DECORATE), 5, SPV_DECORATION_DESCRIPTOR_SET, 0,
        encode_word(4, SPV_INSTRUCTION_OP_DECORATE), 6, SPV_DECORATION_DESCRIPTOR_SET, 0,
        encode_word(4, SPV_INSTRUCTION_OP_DECORATE), 6, SPV_DECORATION_BINDING, 1,
        encode_word(4, SPV_INSTRUCTION_OP_DECORATE), 5, SPV_DECORATION_BINDING, 0,
        encode_word(4, SPV_INSTRUCTION_OP_VARIABLE), 3, 5, 0,
        encode_word(4, SPV_INSTRUCTION_OP_VARIABLE), 3, 6, 0,
    ];
    assert_eq!(r, Some(expected));
    let left_sets = left_corrections.unwrap().sets.unwrap();
    assert_eq!(left_sets[&0].bindings[&0].corrections, vec![CorrectionType::SplitCombined]);
}

#[test]
fn mirroring_adds_of_each_kind_what_the_other_side_lacks() {
    let l = CorrectionBinding {
        corrections: vec![
            CorrectionType::SplitBindingArray,
            CorrectionType::SplitBindingArray,
            CorrectionType::SplitCombined,
            CorrectionType::SplitBindingArray,
        ],
    };
    let r = CorrectionBinding {
        corrections: vec![CorrectionType::SplitBindingArray, CorrectionType::SplitDrefRegular],
    };
    let mut affected = vec![];
    let mut ib = 10u32;
    push_affected_decorations(&mut affected, &mut ib, 1, 2, &l, &r);
    let count = |c: CorrectionType| affected.iter().filter(|v| v.correction_type == c).count();
    assert_eq!(count(CorrectionType::SplitBindingArray), 2);
    assert_eq!(count(CorrectionType::SplitCombined), 1);
    assert_eq!(count(CorrectionType::SplitDrefRegular), 0);
    assert_eq!(affected.len(), 3);
    assert_eq!(ib, 13);
}

#[test]
fn readiness_of_mirroring() {
    let module = one_resource_module(6);
    let mut bindings = HashMap::new();
    bindings.insert(0, CorrectionBinding { corrections: vec![CorrectionType::SplitCombined] });
    let mut sets = HashMap::new();
    sets.insert(0, CorrectionSet { bindings });
    let corrections = Some(CorrectionMap { sets: Some(sets), ..Default::default() });
    assert!(is_mirror_ready(&module, &corrections, &module, &None));
    // The other side has no resource at the set and binding to copy.
    let mut empty = module.clone();
    empty.truncate(5);
    assert!(!is_mirror_ready(&module, &corrections, &empty, &None));
    // The other side's ids run out.
    let full = one_resource_module(u32::MAX);
    assert!(!is_mirror_ready(&module, &corrections, &full, &None));
}
