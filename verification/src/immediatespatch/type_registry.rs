use std::collections::HashMap;

use vstd::prelude::*;

use crate::immediatespatch::layout::{
    kind_view, lemma_members_view, members_view, type_view, SpecType, SpecTypeKind, Type,
    TypeKind,
};
use crate::spv;
use crate::util::instruction::{op_at, wc_at};
use crate::util::sort::{sort_usizes, usize_leq};
use crate::util::{hiword, loword, spec_hiword};

verus! {

broadcast use vstd::std_specs::hash::group_hash_axioms;

pub type TypeRegistry = HashMap<u32, Type>;

pub struct BuildTypeRegistryIn<'a> {
    pub spv: &'a [u32],
    pub op_type_float_idxs: &'a [usize],
    pub op_type_int_idxs: &'a [usize],
    pub op_type_vector_idxs: &'a [usize],
    pub op_type_matrix_idxs: &'a [usize],
    pub op_type_array_idxs: &'a [usize],
    pub op_type_struct_idxs: &'a [usize],
    pub op_constant_idxs: &'a [usize],
}

/// The literal of the first listed `OpConstant` whose result is `id`.
pub open spec fn first_constant_value(s: Seq<u32>, consts: Seq<usize>, id: u32) -> Option<u32>
    decreases consts.len(),
{
    if consts.len() == 0 {
        None
    } else if s[consts[0] + 2] == id {
        Some(s[consts[0] + 3])
    } else {
        first_constant_value(s, consts.drop_first(), id)
    }
}

/// The members of the `OpTypeStruct` at `idx`, when the registry holds all of them.
pub open spec fn struct_members(s: Seq<u32>, reg: Map<u32, SpecType>, idx: usize) -> Option<Seq<SpecType>> {
    let n = wc_at(s, idx as int) - 2;
    if forall|m: int| 0 <= m < n ==> reg.contains_key(#[trigger] s[idx + 2 + m]) {
        Some(Seq::new(if n > 0 { n as nat } else { 0 }, |m: int| reg[s[idx + 2 + m]]))
    } else {
        None
    }
}

/// Registering the type declared at `idx`: scalars always, composite types when the
/// registry holds their parts (and an array's length is a listed constant).
pub open spec fn registry_step(s: Seq<u32>, consts: Seq<usize>, reg: Map<u32, SpecType>, idx: usize) -> Map<u32, SpecType> {
    let op = op_at(s, idx as int);
    let id = s[idx + 1];
    if op == spv::SPV_INSTRUCTION_OP_TYPE_FLOAT as int || op == spv::SPV_INSTRUCTION_OP_TYPE_INT as int {
        reg.insert(id, SpecType { id, kind: SpecTypeKind::Scalar { width_bytes: s[idx + 2] / 8 } })
    } else if op == spv::SPV_INSTRUCTION_OP_TYPE_VECTOR as int {
        if reg.contains_key(s[idx + 2]) {
            reg.insert(id, SpecType { id, kind: SpecTypeKind::Vector { component: Box::new(reg[s[idx + 2]]), count: s[idx + 3] } })
        } else {
            reg
        }
    } else if op == spv::SPV_INSTRUCTION_OP_TYPE_MATRIX as int {
        if reg.contains_key(s[idx + 2]) {
            reg.insert(id, SpecType { id, kind: SpecTypeKind::Matrix { column: Box::new(reg[s[idx + 2]]), cols: s[idx + 3] } })
        } else {
            reg
        }
    } else if op == spv::SPV_INSTRUCTION_OP_TYPE_ARRAY as int {
        match first_constant_value(s, consts, s[idx + 3]) {
            Some(len) => if reg.contains_key(s[idx + 2]) {
                reg.insert(id, SpecType { id, kind: SpecTypeKind::Array { element: Box::new(reg[s[idx + 2]]), len } })
            } else {
                reg
            },
            None => reg,
        }
    } else if op == spv::SPV_INSTRUCTION_OP_TYPE_STRUCT as int {
        match struct_members(s, reg, idx) {
            Some(members) => reg.insert(id, SpecType { id, kind: SpecTypeKind::Struct { members } }),
            None => reg,
        }
    } else {
        reg
    }
}

/// The registry after registering the types declared at `idxs`, in order.
pub open spec fn registry_fold(s: Seq<u32>, consts: Seq<usize>, idxs: Seq<usize>) -> Map<u32, SpecType>
    decreases idxs.len(),
{
    if idxs.len() == 0 {
        Map::empty()
    } else {
        registry_step(s, consts, registry_fold(s, consts, idxs.drop_last()), idxs.last())
    }
}

/// Every type declaration listed in the inputs, in stream order.
pub open spec fn registry_order(b: BuildTypeRegistryIn) -> Seq<usize> {
    (b.op_type_float_idxs@ + b.op_type_int_idxs@ + b.op_type_vector_idxs@ + b.op_type_matrix_idxs@
        + b.op_type_array_idxs@ + b.op_type_struct_idxs@).sort_by(usize_leq())
}

/// The words read of a listed type declaration are inside the stream.
pub open spec fn type_decl_readable(s: Seq<u32>, idx: usize) -> bool {
    let op = op_at(s, idx as int);
    &&& idx + 1 < s.len()
    &&& (op == spv::SPV_INSTRUCTION_OP_TYPE_FLOAT as int || op == spv::SPV_INSTRUCTION_OP_TYPE_INT as int) ==> idx + 2 < s.len()
    &&& (op == spv::SPV_INSTRUCTION_OP_TYPE_VECTOR as int || op == spv::SPV_INSTRUCTION_OP_TYPE_MATRIX as int
        || op == spv::SPV_INSTRUCTION_OP_TYPE_ARRAY as int) ==> idx + 3 < s.len()
    &&& op == spv::SPV_INSTRUCTION_OP_TYPE_STRUCT as int ==> idx + wc_at(s, idx as int) <= s.len()
}

pub open spec fn all_readable(s: Seq<u32>, idxs: Seq<usize>) -> bool {
    forall|j: int| 0 <= j < idxs.len() ==> type_decl_readable(s, #[trigger] idxs[j])
}

/// The registry's view: each entry viewed.
pub open spec fn registry_view(reg: Map<u32, Type>) -> Map<u32, SpecType> {
    reg.map_values(|t: Type| type_view(t))
}

/// A copy of a type with the same view.
pub fn clone_type(t: &Type) -> (r: Type)
    ensures
        type_view(r) == type_view(*t),
    decreases t, 0int,
{
    let kind = match &t.kind {
        TypeKind::Scalar { width_bytes } => TypeKind::Scalar { width_bytes: *width_bytes },
        TypeKind::Vector { component, count } => TypeKind::Vector { component: Box::new(clone_type(component)), count: *count },
        TypeKind::Matrix { column, cols } => TypeKind::Matrix { column: Box::new(clone_type(column)), cols: *cols },
        TypeKind::Array { element, len } => TypeKind::Array { element: Box::new(clone_type(element)), len: *len },
        TypeKind::Struct { members } => TypeKind::Struct { members: clone_members(members) },
    };
    Type { id: t.id, kind }
}

fn clone_members(members: &Vec<Type>) -> (r: Vec<Type>)
    ensures
        members_view(r@) == members_view(members@),
    decreases members@, 1int,
{
    let mut out: Vec<Type> = Vec::new();
    let mut k: usize = 0;
    while k < members.len()
        invariant
            k <= members@.len(),
            out@.len() == k,
            forall|i: int| 0 <= i < k ==> type_view(#[trigger] out@[i]) == type_view(members@[i]),
        decreases members@.len() - k,
    {
        out.push(clone_type(&members[k]));
        k = k + 1;
    }
    proof {
        lemma_members_view(out@);
        lemma_members_view(members@);
        assert(members_view(out@) =~= members_view(members@));
    }
    out
}

fn find_constant_value(spv: &[u32], consts: &[usize], id: u32) -> (r: Option<u32>)
    requires
        forall|j: int| 0 <= j < consts@.len() ==> #[trigger] consts@[j] + 3 < spv@.len(),
    ensures
        r == first_constant_value(spv@, consts@, id),
{
    let mut j: usize = 0;
    assert(consts@.skip(0) =~= consts@);
    while j < consts.len()
        invariant
            j <= consts@.len(),
            forall|i: int| 0 <= i < consts@.len() ==> #[trigger] consts@[i] + 3 < spv@.len(),
            first_constant_value(spv@, consts@, id) == first_constant_value(spv@, consts@.skip(j as int), id),
        decreases consts@.len() - j,
    {
        let c = consts[j];
        assert(c + 3 < spv.len());
        assert(consts@.skip(j as int)[0] == c);
        if spv[c + 2] == id {
            return Some(spv[c + 3]);
        }
        assert(consts@.skip(j as int).drop_first() =~= consts@.skip(j + 1));
        j = j + 1;
    }
    None
}

fn append_idxs(out: &mut Vec<usize>, idxs: &[usize])
    ensures
        final(out)@ == old(out)@ + idxs@,
{
    let mut k: usize = 0;
    while k < idxs.len()
        invariant
            k <= idxs@.len(),
            out@ == old(out)@ + idxs@.take(k as int),
        decreases idxs@.len() - k,
    {
        out.push(idxs[k]);
        assert(idxs@.take(k + 1) =~= idxs@.take(k as int).push(idxs@[k as int]));
        k = k + 1;
    }
    assert(idxs@.take(k as int) =~= idxs@);
}

/// Registers, in stream order, every listed scalar, vector, matrix, array and struct type
/// whose parts are registered; an array's length is the first listed constant with its id.
pub fn build_type_registry(build_in: BuildTypeRegistryIn) -> (r: TypeRegistry)
    requires
        all_readable(build_in.spv@, registry_order(build_in)),
        forall|j: int| 0 <= j < build_in.op_constant_idxs@.len() ==> #[trigger] build_in.op_constant_idxs@[j] + 3 < build_in.spv@.len(),
    ensures
        registry_view(r@) == registry_fold(build_in.spv@, build_in.op_constant_idxs@, registry_order(build_in)),
{
    let ghost order = registry_order(build_in);
    let BuildTypeRegistryIn {
        spv,
        op_type_float_idxs,
        op_type_int_idxs,
        op_type_vector_idxs,
        op_type_matrix_idxs,
        op_type_array_idxs,
        op_type_struct_idxs,
        op_constant_idxs,
    } = build_in;
    let mut all: Vec<usize> = Vec::new();
    append_idxs(&mut all, op_type_float_idxs);
    append_idxs(&mut all, op_type_int_idxs);
    append_idxs(&mut all, op_type_vector_idxs);
    append_idxs(&mut all, op_type_matrix_idxs);
    append_idxs(&mut all, op_type_array_idxs);
    append_idxs(&mut all, op_type_struct_idxs);
    // Make sure to walk in order
    let all_idxs = sort_usizes(&all);
    assert(all_idxs@ == order);

    let ghost s = spv@;
    let ghost consts = op_constant_idxs@;
    let mut reg: TypeRegistry = HashMap::new();
    let mut k: usize = 0;
    while k < all_idxs.len()
        invariant
            s == spv@,
            consts == op_constant_idxs@,
            all_idxs@ == order,
            all_readable(s, order),
            forall|j: int| 0 <= j < consts.len() ==> #[trigger] consts[j] + 3 < s.len(),
            k <= order.len(),
            registry_view(reg@) == registry_fold(s, consts, order.take(k as int)),
        decreases order.len() - k,
    {
        let idx = all_idxs[k];
        proof {
            assert(type_decl_readable(s, order[k as int]));
            assert(order.take(k + 1).drop_last() =~= order.take(k as int));
            assert(order.take(k + 1).last() == idx);
        }
        let ghost before = registry_view(reg@);
        let op = spv[idx];
        let word_count = hiword(op) as usize;
        let instruction = loword(op);
        let id = spv[idx + 1];

        if instruction == spv::SPV_INSTRUCTION_OP_TYPE_FLOAT || instruction == spv::SPV_INSTRUCTION_OP_TYPE_INT {
            let width_bytes = spv[idx + 2] / 8;
            reg.insert(id, Type { id, kind: TypeKind::Scalar { width_bytes } });
            proof {
                assert(registry_view(reg@) =~= before.insert(id, SpecType { id, kind: SpecTypeKind::Scalar { width_bytes } }));
            }
        } else if instruction == spv::SPV_INSTRUCTION_OP_TYPE_VECTOR {
            let comp_id = spv[idx + 2];
            let count = spv[idx + 3];
            match reg.get(&comp_id) {
                Some(component) => {
                    let component = clone_type(component);
                    let ghost cv = type_view(component);
                    reg.insert(id, Type { id, kind: TypeKind::Vector { component: Box::new(component), count } });
                    proof {
                        assert(registry_view(reg@) =~= before.insert(id, SpecType { id, kind: SpecTypeKind::Vector { component: Box::new(before[comp_id]), count } }));
                    }
                },
                None => {},
            }
        } else if instruction == spv::SPV_INSTRUCTION_OP_TYPE_MATRIX {
            let col_id = spv[idx + 2];
            let cols = spv[idx + 3];
            match reg.get(&col_id) {
                Some(column) => {
                    let column = clone_type(column);
                    reg.insert(id, Type { id, kind: TypeKind::Matrix { column: Box::new(column), cols } });
                    proof {
                        assert(registry_view(reg@) =~= before.insert(id, SpecType { id, kind: SpecTypeKind::Matrix { column: Box::new(before[col_id]), cols } }));
                    }
                },
                None => {},
            }
        } else if instruction == spv::SPV_INSTRUCTION_OP_TYPE_ARRAY {
            let elem_id = spv[idx + 2];
            let len_id = spv[idx + 3];
            let maybe_len = find_constant_value(spv, op_constant_idxs, len_id);
            match maybe_len {
                Some(len) => match reg.get(&elem_id) {
                    Some(element) => {
                        let element = clone_type(element);
                        reg.insert(id, Type { id, kind: TypeKind::Array { element: Box::new(element), len } });
                        proof {
                            assert(registry_view(reg@) =~= before.insert(id, SpecType { id, kind: SpecTypeKind::Array { element: Box::new(before[elem_id]), len } }));
                        }
                    },
                    None => {},
                },
                None => {},
            }
        } else if instruction == spv::SPV_INSTRUCTION_OP_TYPE_STRUCT {
            let mut members: Vec<Type> = Vec::new();
            let mut complete = true;
            let mut m_word: usize = 2;
            assert(idx + word_count <= spv.len());
            while complete && m_word < word_count
                invariant
                    s == spv@,
                    idx + word_count <= s.len(),
                    word_count == wc_at(s, idx as int),
                    2 <= m_word,
                    m_word <= word_count || m_word == 2,
                    s.len() <= usize::MAX,
                    before == registry_view(reg@),
                    members@.len() == m_word - 2,
                    forall|m: int| 0 <= m < m_word - 2 ==> before.contains_key(#[trigger] s[idx + 2 + m]),
                    forall|m: int| 0 <= m < m_word - 2 ==> type_view(#[trigger] members@[m]) == before[s[idx + 2 + m]],
                    !complete ==> struct_members(s, before, idx) is None,
                decreases word_count - m_word + if complete { 1int } else { 0int },
            {
                let member_id = spv[idx + m_word];
                match reg.get(&member_id) {
                    Some(member) => {
                        members.push(clone_type(member));
                    },
                    None => {
                        complete = false;
                        proof {
                            let m = m_word - 2;
                            assert(s[idx + 2 + m] == member_id);
                            assert(!before.contains_key(s[idx + 2 + m]));
                        }
                    },
                }
                if complete {
                    m_word = m_word + 1;
                }
            }
            if complete {
                proof {
                    lemma_members_view(members@);
                    let sm = struct_members(s, before, idx);
                    assert(sm is Some);
                    assert(members_view(members@) =~= sm.unwrap());
                }
                reg.insert(id, Type { id, kind: TypeKind::Struct { members } });
                proof {
                    assert(registry_view(reg@) =~= before.insert(id, SpecType { id, kind: SpecTypeKind::Struct { members: struct_members(s, before, idx).unwrap() } }));
                }
            }
        }
        k = k + 1;
    }
    proof {
        assert(order.take(k as int) =~= order);
    }
    reg
}

} // verus!
