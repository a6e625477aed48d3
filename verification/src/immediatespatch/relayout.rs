use std::collections::HashMap;

use vstd::prelude::*;

use crate::immediatespatch::layout::{
    align_ok, array_stride, column_ok, column_scalar_width, column_vec_count, kind_view, layout_struct,
    lemma_members_view, matrix_stride, matrix_stride_ok, members_view, round_up_ok, size_ok, spec_array_stride,
    spec_base_align, spec_column_scalar_width, spec_column_vec_count, spec_matrix_stride, spec_size_of,
    spec_struct_fold, struct_ok, type_view, LayoutRule, SpecType, SpecTypeKind, Type, TypeKind,
};
use crate::immediatespatch::type_registry::{registry_view, TypeRegistry};
use crate::spv;
use crate::util::instruction::idxs_reach;

verus! {

broadcast use vstd::std_specs::hash::group_hash_axioms;

/// Each type of the registry and each of its parts is the registered type of its id, where
/// that id is registered: the registry is a forest of type trees.
pub open spec fn type_consistent(reg: Map<u32, SpecType>, t: SpecType) -> bool
    decreases t, 1int,
{
    &&& reg.contains_key(t.id) ==> reg[t.id] == t
    &&& match t.kind {
        SpecTypeKind::Scalar { .. } => true,
        SpecTypeKind::Vector { component, .. } => type_consistent(reg, *component),
        SpecTypeKind::Matrix { column, .. } => type_consistent(reg, *column),
        SpecTypeKind::Array { element, .. } => type_consistent(reg, *element),
        SpecTypeKind::Struct { members } => members_consistent(reg, members, members.len() as int),
    }
}

pub open spec fn members_consistent(reg: Map<u32, SpecType>, ms: Seq<SpecType>, k: int) -> bool
    decreases ms, k,
{
    if k <= 0 || k > ms.len() {
        true
    } else {
        members_consistent(reg, ms, k - 1) && type_consistent(reg, ms[k - 1])
    }
}

pub open spec fn registry_consistent(reg: Map<u32, SpecType>) -> bool {
    forall|id: u32| #[trigger] reg.contains_key(id) ==> reg[id].id == id && type_consistent(reg, reg[id])
}

/// The column of a matrix member, or of a member that is an array of matrices.
pub open spec fn member_matrix_column(m: SpecType) -> Option<SpecType> {
    match m.kind {
        SpecTypeKind::Matrix { column, .. } => Some(*column),
        SpecTypeKind::Array { element, .. } => match element.kind {
            SpecTypeKind::Matrix { column, .. } => Some(*column),
            _ => None,
        },
        _ => None,
    }
}

/// The uniform buffer matrix stride of a matrix with the given column.
pub open spec fn column_stride(column: SpecType) -> int {
    spec_matrix_stride(spec_column_vec_count(column.kind), spec_column_scalar_width(column.kind), LayoutRule::Std140)
}

/// The new layout of a type can be computed: every struct met lays out without overflow,
/// every array stride and matrix stride computes.
pub open spec fn relayout_ok(reg: Map<u32, SpecType>, t: SpecType) -> bool
    decreases t, 1int,
{
    match t.kind {
        SpecTypeKind::Struct { members } => struct_ok(members, LayoutRule::Std140)
            && members_relayout_ok(reg, members, members.len() as int),
        SpecTypeKind::Array { element, .. } => {
            &&& size_ok(element.kind, LayoutRule::Std140)
            &&& align_ok(element.kind, LayoutRule::Std140)
            &&& round_up_ok(spec_size_of(element.kind, LayoutRule::Std140), spec_base_align(element.kind, LayoutRule::Std140))
            &&& reg.contains_key(element.id) ==> relayout_ok(reg, *element)
        },
        _ => true,
    }
}

pub open spec fn members_relayout_ok(reg: Map<u32, SpecType>, ms: Seq<SpecType>, k: int) -> bool
    decreases ms, k,
{
    if k <= 0 || k > ms.len() {
        true
    } else {
        &&& members_relayout_ok(reg, ms, k - 1)
        &&& member_matrix_column(ms[k - 1]) matches Some(c) ==> column_ok(c.kind)
            && matrix_stride_ok(spec_column_vec_count(c.kind), spec_column_scalar_width(c.kind))
        &&& reg.contains_key(ms[k - 1].id) ==> relayout_ok(reg, ms[k - 1])
    }
}

/// Offset `p` holds the literal of a listed `OpMemberDecorate` of member `member` of
/// `target` with `decoration`.
pub open spec fn member_decoration_at(s: Seq<u32>, mdecs: Seq<usize>, target: u32, member: u32, decoration: u32, p: int) -> bool {
    exists|j: int| 0 <= j < mdecs.len() && #[trigger] mdecs[j] + 4 == p && s[mdecs[j] + 1] == target
        && s[mdecs[j] + 2] == member && s[mdecs[j] + 3] == decoration
}

/// `v` with the literal of each such member decoration set to `value`.
pub open spec fn patch_member(
    s: Seq<u32>,
    v: Seq<u32>,
    mdecs: Seq<usize>,
    target: u32,
    member: u32,
    decoration: u32,
    value: u32,
) -> Seq<u32> {
    Seq::new(v.len(), |p: int| if member_decoration_at(s, mdecs, target, member, decoration, p) { value } else { v[p] })
}

/// Offset `p` holds the literal of a listed `OpDecorate` of `target` with `decoration`.
pub open spec fn decoration_at(s: Seq<u32>, decs: Seq<usize>, target: u32, decoration: u32, p: int) -> bool {
    exists|j: int| 0 <= j < decs.len() && #[trigger] decs[j] + 3 == p && s[decs[j] + 1] == target && s[decs[j] + 2] == decoration
}

/// `v` with the literal of each such decoration set to `value`.
pub open spec fn patch_decoration(s: Seq<u32>, v: Seq<u32>, decs: Seq<usize>, target: u32, decoration: u32, value: u32) -> Seq<u32> {
    Seq::new(v.len(), |p: int| if decoration_at(s, decs, target, decoration, p) { value } else { v[p] })
}

/// The first `k` member offsets of `target` set, in member order.
pub open spec fn patch_offsets(s: Seq<u32>, v: Seq<u32>, mdecs: Seq<usize>, target: u32, offsets: Seq<int>, k: int) -> Seq<u32>
    decreases k,
{
    if k <= 0 {
        v
    } else {
        patch_member(s, patch_offsets(s, v, mdecs, target, offsets, k - 1), mdecs, target, (k - 1) as u32,
            spv::SPV_DECORATION_OFFSET, offsets[k - 1] as u32)
    }
}

/// The std140 layout written for a type and, through the registry, for the types inside it:
/// a struct's member offsets, then for each member in turn its matrix stride (for matrices
/// and arrays of matrices) and its own layout; an array's stride, then its element's layout.
pub open spec fn relayout_type(
    s: Seq<u32>,
    v: Seq<u32>,
    reg: Map<u32, SpecType>,
    decs: Seq<usize>,
    mdecs: Seq<usize>,
    t: SpecType,
) -> Seq<u32>
    decreases t, 1int,
{
    match t.kind {
        SpecTypeKind::Struct { members } => {
            let v1 = patch_offsets(s, v, mdecs, t.id, spec_struct_fold(members, LayoutRule::Std140).0, members.len() as int);
            relayout_members(s, v1, reg, decs, mdecs, t.id, members, members.len() as int)
        },
        SpecTypeKind::Array { element, .. } => {
            let v1 = patch_decoration(s, v, decs, t.id, spv::SPV_DECORATION_ARRAY_STRIDE,
                spec_array_stride(element.kind, LayoutRule::Std140) as u32);
            if reg.contains_key(element.id) {
                relayout_type(s, v1, reg, decs, mdecs, *element)
            } else {
                v1
            }
        },
        _ => v,
    }
}

/// The first `k` members of struct `target` handled in turn.
pub open spec fn relayout_members(
    s: Seq<u32>,
    v: Seq<u32>,
    reg: Map<u32, SpecType>,
    decs: Seq<usize>,
    mdecs: Seq<usize>,
    target: u32,
    ms: Seq<SpecType>,
    k: int,
) -> Seq<u32>
    decreases ms, k,
{
    if k <= 0 || k > ms.len() {
        v
    } else {
        let prev = relayout_members(s, v, reg, decs, mdecs, target, ms, k - 1);
        let m = ms[k - 1];
        let v1 = match member_matrix_column(m) {
            Some(c) => patch_member(s, prev, mdecs, target, (k - 1) as u32, spv::SPV_DECORATION_MATRIX_STRIDE,
                column_stride(c) as u32),
            None => prev,
        };
        if reg.contains_key(m.id) {
            relayout_type(s, v1, reg, decs, mdecs, m)
        } else {
            v1
        }
    }
}

/// The layout written for the registered type `type_id`; nothing for an unregistered id.
pub open spec fn relayout_id(
    s: Seq<u32>,
    v: Seq<u32>,
    reg: Map<u32, SpecType>,
    decs: Seq<usize>,
    mdecs: Seq<usize>,
    type_id: u32,
) -> Seq<u32> {
    if reg.contains_key(type_id) {
        relayout_type(s, v, reg, decs, mdecs, reg[type_id])
    } else {
        v
    }
}

proof fn lemma_members_consistent_elem(reg: Map<u32, SpecType>, ms: Seq<SpecType>, k: int, i: int)
    requires
        members_consistent(reg, ms, k),
        0 <= i < k <= ms.len(),
    ensures
        type_consistent(reg, ms[i]),
    decreases k,
{
    if i < k - 1 {
        lemma_members_consistent_elem(reg, ms, k - 1, i);
    }
}

proof fn lemma_members_relayout_ok_elem(reg: Map<u32, SpecType>, ms: Seq<SpecType>, k: int, i: int)
    requires
        members_relayout_ok(reg, ms, k),
        0 <= i < k <= ms.len(),
    ensures
        member_matrix_column(ms[i]) matches Some(c) ==> column_ok(c.kind)
            && matrix_stride_ok(spec_column_vec_count(c.kind), spec_column_scalar_width(c.kind)),
        reg.contains_key(ms[i].id) ==> relayout_ok(reg, ms[i]),
    decreases k,
{
    if i < k - 1 {
        lemma_members_relayout_ok_elem(reg, ms, k - 1, i);
    }
}

fn patch_member_decoration_literal(
    spv: &[u32],
    new_spv: &mut [u32],
    op_member_decorate_idxs: &[usize],
    target_id: u32,
    member: u32,
    decoration: u32,
    new_value: u32,
)
    requires
        idxs_reach(spv@, op_member_decorate_idxs@, 4),
        old(new_spv)@.len() == spv@.len(),
    ensures
        final(new_spv)@ == patch_member(spv@, old(new_spv)@, op_member_decorate_idxs@, target_id, member, decoration, new_value),
{
    let ghost s = spv@;
    let ghost mdecs = op_member_decorate_idxs@;
    let mut k: usize = 0;
    while k < op_member_decorate_idxs.len()
        invariant
            s == spv@,
            mdecs == op_member_decorate_idxs@,
            idxs_reach(s, mdecs, 4),
            new_spv@.len() == s.len(),
            k <= mdecs.len(),
            forall|p: int| 0 <= p < s.len() ==> #[trigger] new_spv@[p] == if exists|j: int| 0 <= j < k && #[trigger] mdecs[j] + 4 == p
                && s[mdecs[j] + 1] == target_id && s[mdecs[j] + 2] == member && s[mdecs[j] + 3] == decoration {
                new_value
            } else {
                old(new_spv)@[p]
            },
        decreases mdecs.len() - k,
    {
        let md_idx = op_member_decorate_idxs[k];
        assert(mdecs[k as int] + 4 < s.len());
        assert(s.len() == spv.len());
        if spv[md_idx + 1] == target_id && spv[md_idx + 2] == member && spv[md_idx + 3] == decoration {
            new_spv[md_idx + 4] = new_value;
        }
        assert forall|p: int| 0 <= p < s.len() implies #[trigger] new_spv@[p] == if exists|j: int| 0 <= j < k + 1 && #[trigger] mdecs[j] + 4 == p
            && s[mdecs[j] + 1] == target_id && s[mdecs[j] + 2] == member && s[mdecs[j] + 3] == decoration {
            new_value
        } else {
            old(new_spv)@[p]
        } by {
            if exists|j: int| 0 <= j < k + 1 && #[trigger] mdecs[j] + 4 == p
                && s[mdecs[j] + 1] == target_id && s[mdecs[j] + 2] == member && s[mdecs[j] + 3] == decoration {
                let j = choose|j: int| 0 <= j < k + 1 && #[trigger] mdecs[j] + 4 == p
                    && s[mdecs[j] + 1] == target_id && s[mdecs[j] + 2] == member && s[mdecs[j] + 3] == decoration;
                if j < k {
                    assert(exists|j: int| 0 <= j < k && #[trigger] mdecs[j] + 4 == p
                        && s[mdecs[j] + 1] == target_id && s[mdecs[j] + 2] == member && s[mdecs[j] + 3] == decoration);
                }
            }
        }
        k = k + 1;
    }
    assert(new_spv@ =~= patch_member(s, old(new_spv)@, mdecs, target_id, member, decoration, new_value));
}

fn patch_decoration_literal(
    spv: &[u32],
    new_spv: &mut [u32],
    op_decorate_idxs: &[usize],
    target_id: u32,
    decoration: u32,
    new_value: u32,
)
    requires
        idxs_reach(spv@, op_decorate_idxs@, 3),
        old(new_spv)@.len() == spv@.len(),
    ensures
        final(new_spv)@ == patch_decoration(spv@, old(new_spv)@, op_decorate_idxs@, target_id, decoration, new_value),
{
    let ghost s = spv@;
    let ghost decs = op_decorate_idxs@;
    let mut k: usize = 0;
    while k < op_decorate_idxs.len()
        invariant
            s == spv@,
            decs == op_decorate_idxs@,
            idxs_reach(s, decs, 3),
            new_spv@.len() == s.len(),
            k <= decs.len(),
            forall|p: int| 0 <= p < s.len() ==> #[trigger] new_spv@[p] == if exists|j: int| 0 <= j < k && #[trigger] decs[j] + 3 == p
                && s[decs[j] + 1] == target_id && s[decs[j] + 2] == decoration {
                new_value
            } else {
                old(new_spv)@[p]
            },
        decreases decs.len() - k,
    {
        let d_idx = op_decorate_idxs[k];
        assert(decs[k as int] + 3 < s.len());
        assert(s.len() == spv.len());
        if spv[d_idx + 1] == target_id && spv[d_idx + 2] == decoration {
            new_spv[d_idx + 3] = new_value;
        }
        assert forall|p: int| 0 <= p < s.len() implies #[trigger] new_spv@[p] == if exists|j: int| 0 <= j < k + 1 && #[trigger] decs[j] + 3 == p
            && s[decs[j] + 1] == target_id && s[decs[j] + 2] == decoration {
            new_value
        } else {
            old(new_spv)@[p]
        } by {
            if exists|j: int| 0 <= j < k + 1 && #[trigger] decs[j] + 3 == p
                && s[decs[j] + 1] == target_id && s[decs[j] + 2] == decoration {
                let j = choose|j: int| 0 <= j < k + 1 && #[trigger] decs[j] + 3 == p
                    && s[decs[j] + 1] == target_id && s[decs[j] + 2] == decoration;
                if j < k {
                    assert(exists|j: int| 0 <= j < k && #[trigger] decs[j] + 3 == p
                        && s[decs[j] + 1] == target_id && s[decs[j] + 2] == decoration);
                }
            }
        }
        k = k + 1;
    }
    assert(new_spv@ =~= patch_decoration(s, old(new_spv)@, decs, target_id, decoration, new_value));
}


proof fn lemma_patch_offsets_len(s: Seq<u32>, v: Seq<u32>, mdecs: Seq<usize>, target: u32, offsets: Seq<int>, k: int)
    ensures
        patch_offsets(s, v, mdecs, target, offsets, k).len() == v.len(),
    decreases k,
{
    if k > 0 {
        lemma_patch_offsets_len(s, v, mdecs, target, offsets, k - 1);
    }
}

/// Writing a layout keeps the stream's length.
pub proof fn lemma_relayout_type_len(s: Seq<u32>, v: Seq<u32>, reg: Map<u32, SpecType>, decs: Seq<usize>, mdecs: Seq<usize>, t: SpecType)
    ensures
        relayout_type(s, v, reg, decs, mdecs, t).len() == v.len(),
    decreases t, 1int,
{
    match t.kind {
        SpecTypeKind::Struct { members } => {
            let v1 = patch_offsets(s, v, mdecs, t.id, spec_struct_fold(members, LayoutRule::Std140).0, members.len() as int);
            lemma_patch_offsets_len(s, v, mdecs, t.id, spec_struct_fold(members, LayoutRule::Std140).0, members.len() as int);
            lemma_relayout_members_len(s, v1, reg, decs, mdecs, t.id, members, members.len() as int);
        },
        SpecTypeKind::Array { element, .. } => {
            let v1 = patch_decoration(s, v, decs, t.id, spv::SPV_DECORATION_ARRAY_STRIDE,
                spec_array_stride(element.kind, LayoutRule::Std140) as u32);
            if reg.contains_key(element.id) {
                lemma_relayout_type_len(s, v1, reg, decs, mdecs, *element);
            }
        },
        _ => {},
    }
}

proof fn lemma_relayout_members_len(
    s: Seq<u32>,
    v: Seq<u32>,
    reg: Map<u32, SpecType>,
    decs: Seq<usize>,
    mdecs: Seq<usize>,
    target: u32,
    ms: Seq<SpecType>,
    k: int,
)
    ensures
        relayout_members(s, v, reg, decs, mdecs, target, ms, k).len() == v.len(),
    decreases ms, k,
{
    if !(k <= 0 || k > ms.len()) {
        lemma_relayout_members_len(s, v, reg, decs, mdecs, target, ms, k - 1);
        let prev = relayout_members(s, v, reg, decs, mdecs, target, ms, k - 1);
        let m = ms[k - 1];
        let v1 = match member_matrix_column(m) {
            Some(c) => patch_member(s, prev, mdecs, target, (k - 1) as u32, spv::SPV_DECORATION_MATRIX_STRIDE,
                column_stride(c) as u32),
            None => prev,
        };
        if reg.contains_key(m.id) {
            lemma_relayout_type_len(s, v1, reg, decs, mdecs, m);
        }
    }
}

/// The column of a matrix member
/// The column of a matrix member, or of a member that is an array of matrices.
fn matrix_column_of(member: &Type) -> (r: Option<&Type>)
    ensures
        match member_matrix_column(type_view(*member)) {
            Some(c) => r matches Some(col) && type_view(*col) == c,
            None => r is None,
        },
{
    match &member.kind {
        TypeKind::Matrix { column, .. } => Some(&**column),
        TypeKind::Array { element, .. } => match &element.kind {
            TypeKind::Matrix { column, .. } => {
                assert(type_view(**element).kind == kind_view(element.kind));
                Some(&**column)
            },
            _ => {
                assert(type_view(**element).kind == kind_view(element.kind));
                None
            },
        },
        _ => None,
    }
}

/// Writes the std140 layout of the registered type `type_id` and of the types inside it:
/// struct member offsets and matrix strides, and array strides.
pub fn relayout_type_recursive(
    spv: &[u32],
    new_spv: &mut [u32],
    type_id: u32,
    registry: &TypeRegistry,
    op_decorate_idxs: &[usize],
    op_member_decorate_idxs: &[usize],
)
    requires
        idxs_reach(spv@, op_decorate_idxs@, 3),
        idxs_reach(spv@, op_member_decorate_idxs@, 4),
        old(new_spv)@.len() == spv@.len(),
        registry_consistent(registry_view(registry@)),
        registry_view(registry@).contains_key(type_id) ==> relayout_ok(registry_view(registry@), registry_view(registry@)[type_id]),
    ensures
        final(new_spv)@ == relayout_id(spv@, old(new_spv)@, registry_view(registry@), op_decorate_idxs@, op_member_decorate_idxs@, type_id),
    decreases registry_view(registry@)[type_id],
{
    let ghost s = spv@;
    let ghost reg = registry_view(registry@);
    let ghost decs = op_decorate_idxs@;
    let ghost mdecs = op_member_decorate_idxs@;
    let ghost v0 = new_spv@;
    let ty = match registry.get(&type_id) {
        Some(t) => t,
        None => {
            return;
        },
    };
    let ghost t = reg[type_id];
    assert(registry@.contains_key(type_id));
    assert(reg.contains_key(type_id));
    assert(t == type_view(*ty));
    assert(type_consistent(reg, t));
    match &ty.kind {
        TypeKind::Struct { members } => {
            proof {
                lemma_members_view(members@);
            }
            let ghost ms = members_view(members@);
            assert(t.kind == SpecTypeKind::Struct { members: ms });
            let layout = layout_struct(members.as_slice(), LayoutRule::Std140);
            let ghost offs = spec_struct_fold(ms, LayoutRule::Std140).0;
            let mut i: usize = 0;
            while i < layout.member_offsets.len()
                invariant
                    s == spv@,
                    decs == op_decorate_idxs@,
                    mdecs == op_member_decorate_idxs@,
                    idxs_reach(s, mdecs, 4),
                    new_spv@.len() == s.len(),
                    layout.member_offsets@.len() == ms.len(),
                    forall|j: int| 0 <= j < ms.len() ==> #[trigger] layout.member_offsets@[j] == offs[j],
                    i <= ms.len(),
                    new_spv@ == patch_offsets(s, v0, mdecs, type_id, offs, i as int),
                decreases ms.len() - i,
            {
                patch_member_decoration_literal(spv, new_spv, op_member_decorate_idxs, type_id, i as u32,
                    spv::SPV_DECORATION_OFFSET, layout.member_offsets[i]);
                proof {
                    assert(offs[i as int] as u32 == layout.member_offsets@[i as int]);
                }
                i = i + 1;
            }
            let ghost v1 = new_spv@;
            let mut i: usize = 0;
            while i < members.len()
                invariant
                    s == spv@,
                    reg == registry_view(registry@),
                    decs == op_decorate_idxs@,
                    mdecs == op_member_decorate_idxs@,
                    idxs_reach(s, decs, 3),
                    idxs_reach(s, mdecs, 4),
                    new_spv@.len() == s.len(),
                    registry_consistent(reg),
                    reg.contains_key(type_id),
                    t == reg[type_id],
                    t.kind == (SpecTypeKind::Struct { members: ms }),
                    ms == members_view(members@),
                    ms.len() == members@.len(),
                    forall|j: int| 0 <= j < ms.len() ==> #[trigger] ms[j] == type_view(members@[j]),
                    members_consistent(reg, ms, ms.len() as int),
                    members_relayout_ok(reg, ms, ms.len() as int),
                    i <= ms.len(),
                    new_spv@ == relayout_members(s, v1, reg, decs, mdecs, type_id, ms, i as int),
                decreases ms.len() - i,
            {
                let member = &members[i];
                proof {
                    lemma_members_consistent_elem(reg, ms, ms.len() as int, i as int);
                    lemma_members_relayout_ok_elem(reg, ms, ms.len() as int, i as int);
                }
                let ghost m = ms[i as int];
                assert(m == type_view(*member));
                let ghost before = new_spv@;
                match matrix_column_of(member) {
                    Some(column) => {
                        let col_count = column_vec_count(column);
                        let scalar_w = column_scalar_width(column);
                        let new_stride = matrix_stride(col_count, scalar_w, LayoutRule::Std140);
                        patch_member_decoration_literal(spv, new_spv, op_member_decorate_idxs, type_id, i as u32,
                            spv::SPV_DECORATION_MATRIX_STRIDE, new_stride);
                    },
                    None => {},
                }
                let ghost v2 = new_spv@;
                if registry.contains_key(&member.id) {
                    proof {
                        lemma_relayout_type_len(s, v2, reg, decs, mdecs, m);
                        assert(reg.contains_key(m.id));
                        assert(reg[m.id] == m);
                        assert(decreases_to!(ms => ms[i as int]));
                    }
                    relayout_type_recursive(spv, new_spv, member.id, registry, op_decorate_idxs, op_member_decorate_idxs);
                }
                i = i + 1;
            }
            proof {
                lemma_patch_offsets_len(s, v0, mdecs, type_id, offs, ms.len() as int);
                assert(t.id == type_id);
                assert(v1 == patch_offsets(s, v0, mdecs, t.id, offs, ms.len() as int));
                assert(new_spv@ == relayout_type(s, v0, reg, decs, mdecs, t));
            }
        },
        TypeKind::Array { element, .. } => {
            let ghost e = type_view(**element);
            assert(t.kind matches SpecTypeKind::Array { element: el, .. } && *el == e);
            let new_stride = array_stride(&element.kind, LayoutRule::Std140);
            patch_decoration_literal(spv, new_spv, op_decorate_idxs, type_id, spv::SPV_DECORATION_ARRAY_STRIDE, new_stride);
            if registry.contains_key(&element.id) {
                proof {
                    assert(type_consistent(reg, e));
                    assert(reg[e.id] == e);
                }
                relayout_type_recursive(spv, new_spv, element.id, registry, op_decorate_idxs, op_member_decorate_idxs);
            }
            proof {
                assert(t.id == type_id);
            }
        },
        _ => {},
    }
}

} // verus!
