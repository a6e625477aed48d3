// SPIR-V / Vulkan buffer layout rules.
//
// The conversion this patch performs is std430 -> std140:
// bump array / struct base alignment to 16, and bump `ArrayStride` / `MatrixStride` to >=16.
use vstd::prelude::*;

verus! {

#[derive(Debug, Clone, Copy, PartialEq, Eq, Structural)]
pub enum LayoutRule {
    /// "Standard Storage Buffer Layout"
    /// Push constants use this one.
    Std430,
    /// "Standard Uniform Buffer Layout"
    /// Arrays and structs have their base alignment rounded up to a multiple of 16.
    Std140,
}

#[derive(Debug)]
pub struct Type {
    pub id: u32,
    pub kind: TypeKind,
}

#[derive(Debug)]
pub enum TypeKind {
    Scalar { width_bytes: u32 },
    Vector { component: Box<Type>, count: u32 },
    Matrix { column: Box<Type>, cols: u32 },
    Array { element: Box<Type>, len: u32 },
    Struct { members: Vec<Type> },
}

pub struct StructLayout {
    pub member_offsets: Vec<u32>,
    pub size: u32,
    pub align: u32,
}

pub enum SpecTypeKind {
    Scalar { width_bytes: u32 },
    Vector { component: Box<SpecType>, count: u32 },
    Matrix { column: Box<SpecType>, cols: u32 },
    Array { element: Box<SpecType>, len: u32 },
    Struct { members: Seq<SpecType> },
}

pub struct SpecType {
    pub id: u32,
    pub kind: SpecTypeKind,
}

pub open spec fn type_view(t: Type) -> SpecType
    decreases t, 1int,
{
    SpecType { id: t.id, kind: kind_view(t.kind) }
}

pub open spec fn kind_view(k: TypeKind) -> SpecTypeKind
    decreases k, 0int,
{
    match k {
        TypeKind::Scalar { width_bytes } => SpecTypeKind::Scalar { width_bytes },
        TypeKind::Vector { component, count } => SpecTypeKind::Vector { component: Box::new(type_view(*component)), count },
        TypeKind::Matrix { column, cols } => SpecTypeKind::Matrix { column: Box::new(type_view(*column)), cols },
        TypeKind::Array { element, len } => SpecTypeKind::Array { element: Box::new(type_view(*element)), len },
        TypeKind::Struct { members } => SpecTypeKind::Struct { members: members_view(members@) },
    }
}

pub open spec fn members_view(ms: Seq<Type>) -> Seq<SpecType>
    decreases ms, 0int,
{
    if ms.len() == 0 {
        Seq::empty()
    } else {
        members_view(ms.drop_last()).push(type_view(ms.last()))
    }
}


pub open spec fn u32_fits(x: int) -> bool {
    0 <= x <= u32::MAX
}

/// `a` is a power of two.
pub open spec fn is_pow2(a: int) -> bool {
    exists|n: nat| n < 32 && a == #[trigger] vstd::arithmetic::power2::pow2(n)
}

/// The least multiple of `a` that is at least `x`.
pub open spec fn round_up_to(x: int, a: int) -> int {
    ((x + a - 1) / a) * a
}

/// `x + a - 1` with the bits below `a`'s cleared: what rounding computes for any `a`.
pub open spec fn masked_round_up(x: int, a: int) -> int {
    (((x + a - 1) as u32) & !((a - 1) as u32)) as int
}

/// `x` rounded up to the alignment `a`: the least multiple of `a` that is at least `x` when
/// `a` is a power of two, as alignments are; for another `a`, the bit mask of `a - 1` is
/// cleared all the same.
pub open spec fn spec_round_up(x: int, a: int) -> int {
    if is_pow2(a) {
        round_up_to(x, a)
    } else {
        masked_round_up(x, a)
    }
}

/// The least multiple of `a` that is at least `x` is a multiple of `a`, and lies in
/// `x..x + a`.
pub proof fn lemma_round_up_to(x: int, a: int)
    requires
        0 <= x,
        1 <= a,
    ensures
        round_up_to(x, a) % a == 0,
        x <= round_up_to(x, a) < x + a,
{
    let y = x + a - 1;
    vstd::arithmetic::div_mod::lemma_fundamental_div_mod(y, a);
    vstd::arithmetic::mul::lemma_mul_is_commutative(a, y / a);
    vstd::arithmetic::div_mod::lemma_mod_multiples_basic(y / a, a);
    assert(0 <= y % a < a) by {
        vstd::arithmetic::div_mod::lemma_mod_bound(y, a);
    }
}

/// For a power of two, clearing the low bits rounds up to the least multiple.
pub proof fn lemma_masked_round_up(x: int, a: int)
    requires
        round_up_ok(x, a),
        is_pow2(a),
    ensures
        masked_round_up(x, a) == round_up_to(x, a),
{
    let y = (x + a - 1) as u32;
    let n = choose|n: nat| n < 32 && a == #[trigger] vstd::arithmetic::power2::pow2(n);
    let m = (a - 1) as u32;
    assert(m == vstd::bits::low_bits_mask(n) as u32);
    vstd::bits::lemma_u32_low_bits_mask_is_mod(y, n);
    assert((y & !m) == y - (y & m)) by (bit_vector);
    vstd::arithmetic::div_mod::lemma_fundamental_div_mod(y as int, a);
    vstd::arithmetic::mul::lemma_mul_is_commutative(a, (y as int) / a);
}

/// Rounding up computes without overflow.
pub open spec fn round_up_ok(x: int, a: int) -> bool {
    0 <= x && 1 <= a && x + a <= u32::MAX
}

pub fn round_up(x: u32, a: u32) -> (r: u32)
    requires
        round_up_ok(x as int, a as int),
    ensures
        r == spec_round_up(x as int, a as int),
{
    proof {
        if is_pow2(a as int) {
            lemma_masked_round_up(x as int, a as int);
        }
    }
    (x + a - 1) & !(a - 1)
}

pub open spec fn max_int(a: int, b: int) -> int {
    if a >= b {
        a
    } else {
        b
    }
}

/// The factor between a vector's alignment and its component's: 2 for two components,
/// 4 for three or four; other counts are unsupported.
pub open spec fn vec_align_factor(count: int) -> int {
    if count == 2 {
        2
    } else if count == 3 || count == 4 {
        4
    } else {
        0
    }
}

pub open spec fn is_aggregate(t: SpecTypeKind) -> bool {
    t is Array || t is Struct
}

/// The base alignment of a type under a layout rule.
pub open spec fn spec_base_align(t: SpecTypeKind, rule: LayoutRule) -> int
    decreases t,
{
    let inner = match t {
        SpecTypeKind::Scalar { width_bytes } => width_bytes as int,
        SpecTypeKind::Vector { component, count } => vec_align_factor(count as int) * spec_base_align(component.kind, rule),
        SpecTypeKind::Matrix { column, .. } => spec_base_align(column.kind, rule),
        SpecTypeKind::Array { element, .. } => spec_base_align(element.kind, rule),
        SpecTypeKind::Struct { members } => spec_members_max_align(members, rule),
    };
    if rule == LayoutRule::Std140 && is_aggregate(t) {
        max_int(inner, 16)
    } else {
        inner
    }
}

/// The largest base alignment of the members, 4 when there are none.
pub open spec fn spec_members_max_align(ms: Seq<SpecType>, rule: LayoutRule) -> int
    decreases ms,
{
    if ms.len() == 0 {
        4
    } else if ms.len() == 1 {
        spec_base_align(ms[0].kind, rule)
    } else {
        max_int(spec_members_max_align(ms.drop_last(), rule), spec_base_align(ms.last().kind, rule))
    }
}

/// The base alignment computes without overflow and without an unsupported vector size.
pub open spec fn align_ok(t: SpecTypeKind, rule: LayoutRule) -> bool
    decreases t,
{
    match t {
        SpecTypeKind::Scalar { .. } => true,
        SpecTypeKind::Vector { component, count } => {
            &&& vec_align_factor(count as int) != 0
            &&& align_ok(component.kind, rule)
            &&& u32_fits(vec_align_factor(count as int) * spec_base_align(component.kind, rule))
        },
        SpecTypeKind::Matrix { column, .. } => align_ok(column.kind, rule),
        SpecTypeKind::Array { element, .. } => align_ok(element.kind, rule),
        SpecTypeKind::Struct { members } => members_align_ok(members, rule),
    }
}

pub open spec fn members_align_ok(ms: Seq<SpecType>, rule: LayoutRule) -> bool
    decreases ms,
{
    if ms.len() == 0 {
        true
    } else {
        members_align_ok(ms.drop_last(), rule) && align_ok(ms.last().kind, rule)
    }
}

/// The component count of a matrix column (1 for a scalar column).
pub open spec fn spec_column_vec_count(column: SpecTypeKind) -> int {
    match column {
        SpecTypeKind::Vector { count, .. } => count as int,
        _ => 1,
    }
}

/// The scalar width of a matrix column.
pub open spec fn spec_column_scalar_width(column: SpecTypeKind) -> int {
    match column {
        SpecTypeKind::Vector { component, .. } => match component.kind {
            SpecTypeKind::Scalar { width_bytes } => width_bytes as int,
            _ => 0,
        },
        SpecTypeKind::Scalar { width_bytes } => width_bytes as int,
        _ => 0,
    }
}

/// A matrix column is a scalar or a vector of scalars.
pub open spec fn column_ok(column: SpecTypeKind) -> bool {
    match column {
        SpecTypeKind::Vector { component, .. } => component.kind is Scalar,
        SpecTypeKind::Scalar { .. } => true,
        _ => false,
    }
}

/// The alignment of a matrix column vector of `n` components of width `w`.
pub open spec fn column_vec_align(n: int, w: int) -> int {
    if n == 1 {
        w
    } else if n == 2 {
        2 * w
    } else {
        4 * w
    }
}

pub open spec fn spec_matrix_stride(n: int, w: int, rule: LayoutRule) -> int {
    let raw = spec_round_up(n * w, column_vec_align(n, w));
    if rule == LayoutRule::Std140 {
        max_int(raw, 16)
    } else {
        raw
    }
}

/// The matrix stride computes without overflow and the column has at most four components.
pub open spec fn matrix_stride_ok(n: int, w: int) -> bool {
    &&& 1 <= n <= 4
    &&& 0 <= w
    &&& u32_fits(4 * w)
    &&& round_up_ok(n * w, column_vec_align(n, w))
}

/// The size a type occupies under a layout rule.
pub open spec fn spec_size_of(t: SpecTypeKind, rule: LayoutRule) -> int
    decreases t, 0int,
{
    match t {
        SpecTypeKind::Scalar { width_bytes } => width_bytes as int,
        SpecTypeKind::Vector { component, count } => count as int * spec_size_of(component.kind, rule),
        SpecTypeKind::Matrix { column, cols } => cols as int * spec_matrix_stride(
            spec_column_vec_count(column.kind),
            spec_column_scalar_width(column.kind),
            rule,
        ),
        SpecTypeKind::Array { element, len } => spec_array_stride(element.kind, rule) * len as int,
        SpecTypeKind::Struct { members } => spec_struct_size(members, rule),
    }
}

/// An array's stride: its element's size rounded up to the element's alignment, at least
/// 16 under the uniform buffer layout.
pub open spec fn spec_array_stride(elem: SpecTypeKind, rule: LayoutRule) -> int
    decreases elem, 1int,
{
    let raw = spec_round_up(spec_size_of(elem, rule), spec_base_align(elem, rule));
    if rule == LayoutRule::Std140 {
        max_int(raw, 16)
    } else {
        raw
    }
}

/// Laying out the members in turn: their offsets, the offset after the last one and the
/// largest alignment met (at least 4).
pub open spec fn spec_struct_fold(ms: Seq<SpecType>, rule: LayoutRule) -> (Seq<int>, int, int)
    decreases ms, 0int,
{
    if ms.len() == 0 {
        (Seq::empty(), 0, 4)
    } else {
        let prev = spec_struct_fold(ms.drop_last(), rule);
        let a = spec_base_align(ms.last().kind, rule);
        let o = spec_round_up(prev.1, a);
        (prev.0.push(o), o + spec_size_of(ms.last().kind, rule), max_int(prev.2, a))
    }
}

/// A struct's size: the end of its last member rounded up to its alignment.
pub open spec fn spec_struct_size(ms: Seq<SpecType>, rule: LayoutRule) -> int
    decreases ms, 1int,
{
    spec_round_up(spec_struct_fold(ms, rule).1, spec_struct_fold(ms, rule).2)
}

/// The size computes without overflow and without an unsupported vector or matrix shape.
pub open spec fn size_ok(t: SpecTypeKind, rule: LayoutRule) -> bool
    decreases t, 0int,
{
    match t {
        SpecTypeKind::Scalar { .. } => true,
        SpecTypeKind::Vector { component, count } => {
            &&& size_ok(component.kind, rule)
            &&& u32_fits(count as int * spec_size_of(component.kind, rule))
        },
        SpecTypeKind::Matrix { column, cols } => {
            &&& column_ok(column.kind)
            &&& matrix_stride_ok(spec_column_vec_count(column.kind), spec_column_scalar_width(column.kind))
            &&& u32_fits(cols as int * spec_matrix_stride(
                spec_column_vec_count(column.kind),
                spec_column_scalar_width(column.kind),
                rule,
            ))
        },
        SpecTypeKind::Array { element, len } => {
            &&& size_ok(element.kind, rule)
            &&& align_ok(element.kind, rule)
            &&& round_up_ok(spec_size_of(element.kind, rule), spec_base_align(element.kind, rule))
            &&& u32_fits(spec_array_stride(element.kind, rule) * len as int)
        },
        SpecTypeKind::Struct { members } => struct_ok(members, rule),
    }
}

/// Laying out the members computes without overflow.
pub open spec fn struct_fold_ok(ms: Seq<SpecType>, rule: LayoutRule) -> bool
    decreases ms, 0int,
{
    if ms.len() == 0 {
        true
    } else {
        let prev = spec_struct_fold(ms.drop_last(), rule);
        let a = spec_base_align(ms.last().kind, rule);
        &&& struct_fold_ok(ms.drop_last(), rule)
        &&& align_ok(ms.last().kind, rule)
        &&& size_ok(ms.last().kind, rule)
        &&& round_up_ok(prev.1, a)
        &&& u32_fits(spec_round_up(prev.1, a) + spec_size_of(ms.last().kind, rule))
    }
}

pub open spec fn struct_ok(ms: Seq<SpecType>, rule: LayoutRule) -> bool
    decreases ms, 1int,
{
    &&& struct_fold_ok(ms, rule)
    &&& round_up_ok(spec_struct_fold(ms, rule).1, spec_struct_fold(ms, rule).2)
}

proof fn lemma_members_align_ok_prefix(ms: Seq<SpecType>, k: int, rule: LayoutRule)
    requires
        members_align_ok(ms, rule),
        0 <= k <= ms.len(),
    ensures
        members_align_ok(ms.take(k), rule),
        forall|i: int| 0 <= i < k ==> align_ok(#[trigger] ms[i].kind, rule),
    decreases ms.len() - k,
{
    if k < ms.len() {
        lemma_members_align_ok_prefix(ms, k + 1, rule);
        assert(ms.take(k + 1).drop_last() =~= ms.take(k));
        assert(ms.take(k + 1).last() == ms[k]);
    } else {
        assert(ms.take(k) =~= ms);
        assert forall|i: int| 0 <= i < k implies align_ok(#[trigger] ms[i].kind, rule) by {
            lemma_members_align_ok_elem(ms, i, rule);
        }
    }
}

proof fn lemma_members_align_ok_elem(ms: Seq<SpecType>, i: int, rule: LayoutRule)
    requires
        members_align_ok(ms, rule),
        0 <= i < ms.len(),
    ensures
        align_ok(ms[i].kind, rule),
    decreases ms.len(),
{
    if i < ms.len() - 1 {
        lemma_members_align_ok_elem(ms.drop_last(), i, rule);
    }
}

/// The base alignment of a type under a layout rule.
pub fn base_align(t: &TypeKind, rule: LayoutRule) -> (r: u32)
    requires
        align_ok(kind_view(*t), rule),
    ensures
        r == spec_base_align(kind_view(*t), rule),
    decreases t, 0int,
{
    let inner = match t {
        // A scalar's base alignment is its scalar alignment.
        TypeKind::Scalar { width_bytes } => *width_bytes,
        // Two components take twice the component's alignment, three or four take four times.
        TypeKind::Vector { component, count } => {
            if *count == 2 {
                2 * base_align(&component.kind, rule)
            } else {
                4 * base_align(&component.kind, rule)
            }
        },
        // A column-major matrix aligns as its column vector type.
        TypeKind::Matrix { column, .. } => base_align(&column.kind, rule),
        // An array aligns as its element type.
        TypeKind::Array { element, .. } => base_align(&element.kind, rule),
        // A structure aligns as its most aligned member.
        TypeKind::Struct { members } => members_max_align(members, rule),
    };
    // Under the uniform buffer layout, array and struct base alignments are rounded
    // up to a multiple of 16; the storage buffer layout (and push constants) omit this rule.
    match t {
        TypeKind::Array { .. } | TypeKind::Struct { .. } => {
            if rule == LayoutRule::Std140 {
                if inner >= 16 { inner } else { 16 }
            } else {
                inner
            }
        },
        _ => inner,
    }
}

/// The largest base alignment of the members, 4 when there are none.
fn members_max_align(members: &Vec<Type>, rule: LayoutRule) -> (r: u32)
    requires
        members_align_ok(members_view(members@), rule),
    ensures
        r == spec_members_max_align(members_view(members@), rule),
    decreases members@, 1int,
{
    proof {
        lemma_members_view(members@);
    }
    let ghost ms = members_view(members@);
    let mut cur: Option<u32> = None;
    let mut k: usize = 0;
    while k < members.len()
        invariant
            ms == members_view(members@),
            ms.len() == members@.len(),
            forall|i: int| 0 <= i < ms.len() ==> #[trigger] ms[i] == type_view(members@[i]),
            members_align_ok(ms, rule),
            k <= ms.len(),
            k == 0 ==> cur is None,
            k > 0 ==> cur == Some(spec_members_max_align(ms.take(k as int), rule) as u32),
            k > 0 ==> u32_fits(spec_members_max_align(ms.take(k as int), rule)),
        decreases ms.len() - k,
    {
        proof {
            lemma_members_align_ok_prefix(ms, k + 1, rule);
            assert(ms.take(k + 1).drop_last() =~= ms.take(k as int));
            assert(ms.take(k + 1).last() == ms[k as int]);
            lemma_align_fits(ms[k as int].kind, rule);
            lemma_members_max_fits(ms.take(k + 1), rule);
        }
        let a = base_align(&members[k].kind, rule);
        cur = match cur {
            None => Some(a),
            Some(c) => Some(if c >= a { c } else { a }),
        };
        k = k + 1;
    }
    proof {
        assert(ms.take(k as int) =~= ms);
    }
    match cur {
        Some(c) => c,
        None => 4,
    }
}

/// A computable base alignment fits in a word.
pub proof fn lemma_align_fits(t: SpecTypeKind, rule: LayoutRule)
    requires
        align_ok(t, rule),
    ensures
        u32_fits(spec_base_align(t, rule)),
    decreases t,
{
    match t {
        SpecTypeKind::Scalar { .. } => {},
        SpecTypeKind::Vector { component, count } => {},
        SpecTypeKind::Matrix { column, .. } => {
            lemma_align_fits(column.kind, rule);
        },
        SpecTypeKind::Array { element, .. } => {
            lemma_align_fits(element.kind, rule);
        },
        SpecTypeKind::Struct { members } => {
            lemma_members_max_fits(members, rule);
        },
    }
}

proof fn lemma_members_max_fits(ms: Seq<SpecType>, rule: LayoutRule)
    requires
        members_align_ok(ms, rule),
    ensures
        u32_fits(spec_members_max_align(ms, rule)),
    decreases ms,
{
    if ms.len() > 0 {
        lemma_members_max_fits(ms.drop_last(), rule);
        lemma_align_fits(ms.last().kind, rule);
        if ms.len() == 1 {
            assert(ms.last() == ms[0]);
        }
    }
}

/// The component count of a matrix column (1 for a scalar column).
pub fn column_vec_count(column: &Type) -> (r: u32)
    requires
        column_ok(kind_view(column.kind)),
    ensures
        r == spec_column_vec_count(kind_view(column.kind)),
{
    match &column.kind {
        TypeKind::Vector { count, .. } => *count,
        _ => 1,
    }
}

/// The scalar width of a matrix column.
pub fn column_scalar_width(column: &Type) -> (r: u32)
    requires
        column_ok(kind_view(column.kind)),
    ensures
        r == spec_column_scalar_width(kind_view(column.kind)),
{
    match &column.kind {
        TypeKind::Vector { component, .. } => {
            assert(type_view(**component).kind == kind_view(component.kind));
            match &component.kind {
                TypeKind::Scalar { width_bytes } => *width_bytes,
                _ => 0,
            }
        },
        TypeKind::Scalar { width_bytes } => *width_bytes,
        _ => 0,
    }
}

// `column_vec_count` is the component count of one column for a ColMajor matrix, or one row for a RowMajor matrix.
// The stride is the size of that column / row rounded up to its own vector base alignment and to 16 under std140.
pub fn matrix_stride(column_vec_count: u32, scalar_w: u32, rule: LayoutRule) -> (r: u32)
    requires
        matrix_stride_ok(column_vec_count as int, scalar_w as int),
    ensures
        r == spec_matrix_stride(column_vec_count as int, scalar_w as int, rule),
{
    let vec_align = if column_vec_count == 1 {
        scalar_w
    } else if column_vec_count == 2 {
        2 * scalar_w
    } else {
        4 * scalar_w
    };
    let raw = round_up(column_vec_count * scalar_w, vec_align);
    if rule == LayoutRule::Std140 {
        if raw >= 16 { raw } else { 16 }
    } else {
        raw
    }
}

/// The size a type occupies under a layout rule. Vectors are packed tightly: the padding
/// after a three-component vector comes from the next member's alignment.
pub fn size_of(t: &TypeKind, rule: LayoutRule) -> (r: u32)
    requires
        size_ok(kind_view(*t), rule),
    ensures
        r == spec_size_of(kind_view(*t), rule),
    decreases t, 0int,
{
    match t {
        TypeKind::Scalar { width_bytes } => *width_bytes,
        TypeKind::Vector { component, count } => *count * size_of(&component.kind, rule),
        TypeKind::Matrix { column, cols } => {
            let col_count = column_vec_count(column);
            let scalar_w = column_scalar_width(column);
            *cols * matrix_stride(col_count, scalar_w, rule)
        },
        TypeKind::Array { element, len } => array_stride(&element.kind, rule) * *len,
        TypeKind::Struct { members } => layout_struct(members.as_slice(), rule).size,
    }
}

// "An array's `ArrayStride` is equal to its element's consumed size rounded up to the array's base alignment."  Under Standard
// Uniform Buffer Layout the element's base alignment is itself >= 16, so the resulting stride is also >= 16.
pub fn array_stride(elem: &TypeKind, rule: LayoutRule) -> (r: u32)
    requires
        size_ok(kind_view(*elem), rule),
        align_ok(kind_view(*elem), rule),
        round_up_ok(spec_size_of(kind_view(*elem), rule), spec_base_align(kind_view(*elem), rule)),
    ensures
        r == spec_array_stride(kind_view(*elem), rule),
    decreases elem, 1int,
{
    let align = base_align(elem, rule);
    let raw = round_up(size_of(elem, rule), align);
    if rule == LayoutRule::Std140 {
        if raw >= 16 { raw } else { 16 }
    } else {
        raw
    }
}

proof fn lemma_struct_fold_ok_prefix(ms: Seq<SpecType>, k: int, rule: LayoutRule)
    requires
        struct_fold_ok(ms, rule),
        0 <= k <= ms.len(),
    ensures
        struct_fold_ok(ms.take(k), rule),
    decreases ms.len() - k,
{
    if k < ms.len() {
        lemma_struct_fold_ok_prefix(ms, k + 1, rule);
        assert(ms.take(k + 1).drop_last() =~= ms.take(k));
    } else {
        assert(ms.take(k) =~= ms);
    }
}

proof fn lemma_struct_fold_len(ms: Seq<SpecType>, rule: LayoutRule)
    ensures
        spec_struct_fold(ms, rule).0.len() == ms.len(),
        spec_struct_fold(ms, rule).2 >= 4 || ms.len() == 0,
        spec_struct_fold(ms, rule).2 >= 4,
    decreases ms,
{
    if ms.len() > 0 {
        lemma_struct_fold_len(ms.drop_last(), rule);
    }
}

// Compute member offsets and total size for an `OpTypeStruct`.
//
// "The members are assigned consecutive offsets starting from zero, with each member's offset adjusted upwards to satisfy its base alignment."
// "The structure's size is the offset of the last member, plus the size of the last member, rounded up to a multiple of the structure's base alignment."
pub fn layout_struct(members: &[Type], rule: LayoutRule) -> (r: StructLayout)
    requires
        struct_ok(members_view(members@), rule),
    ensures
        r.member_offsets@.len() == members@.len(),
        forall|i: int| 0 <= i < members@.len() ==> #[trigger] r.member_offsets@[i] == spec_struct_fold(members_view(members@), rule).0[i],
        r.size == spec_struct_size(members_view(members@), rule),
        r.align == spec_struct_fold(members_view(members@), rule).2,
    decreases members@, 1int,
{
    proof {
        lemma_members_view(members@);
    }
    let ghost ms = members_view(members@);
    let mut offset: u32 = 0;
    let mut offsets: Vec<u32> = Vec::new();
    let mut align: u32 = 4;
    let mut k: usize = 0;
    while k < members.len()
        invariant
            ms == members_view(members@),
            ms.len() == members@.len(),
            forall|i: int| 0 <= i < ms.len() ==> #[trigger] ms[i] == type_view(members@[i]),
            struct_fold_ok(ms, rule),
            k <= ms.len(),
            offsets@.len() == k,
            forall|i: int| 0 <= i < k ==> #[trigger] offsets@[i] == spec_struct_fold(ms.take(k as int), rule).0[i],
            offset == spec_struct_fold(ms.take(k as int), rule).1,
            align == spec_struct_fold(ms.take(k as int), rule).2,
        decreases ms.len() - k,
    {
        proof {
            lemma_struct_fold_ok_prefix(ms, k + 1, rule);
            assert(ms.take(k + 1).drop_last() =~= ms.take(k as int));
            assert(ms.take(k + 1).last() == ms[k as int]);
            lemma_struct_fold_len(ms.take(k as int), rule);
        }
        let m = &members[k];
        let a = base_align(&m.kind, rule);
        offset = round_up(offset, a);
        offsets.push(offset);
        offset = offset + size_of(&m.kind, rule);
        align = if align >= a { align } else { a };
        k = k + 1;
    }
    proof {
        assert(ms.take(k as int) =~= ms);
    }
    let size = round_up(offset, align);
    StructLayout { member_offsets: offsets, size, align }
}

/// The view of a member list has one view per member.
pub proof fn lemma_members_view(ms: Seq<Type>)
    ensures
        members_view(ms).len() == ms.len(),
        forall|i: int| 0 <= i < ms.len() ==> #[trigger] members_view(ms)[i] == type_view(ms[i]),
    decreases ms.len(),
{
    if ms.len() > 0 {
        lemma_members_view(ms.drop_last());
        assert forall|i: int| 0 <= i < ms.len() implies #[trigger] members_view(ms)[i] == type_view(ms[i]) by {
            if i < ms.len() - 1 {
                assert(ms.drop_last()[i] == ms[i]);
            }
        }
    }
}

/// The scalar widths SPIR-V has (1, 2, 4 or 8 bytes), vectors of two to four scalars and
/// matrices of such columns, all the way down.
pub open spec fn spirv_widths(t: SpecTypeKind) -> bool
    decreases t,
{
    match t {
        SpecTypeKind::Scalar { width_bytes } => width_bytes == 1 || width_bytes == 2 || width_bytes == 4
            || width_bytes == 8,
        SpecTypeKind::Vector { component, count } => 2 <= count <= 4 && component.kind is Scalar && spirv_widths(
            component.kind,
        ),
        SpecTypeKind::Matrix { column, .. } => column_ok(column.kind) && spirv_widths(column.kind),
        SpecTypeKind::Array { element, .. } => spirv_widths(element.kind),
        SpecTypeKind::Struct { members } => members_spirv_widths(members),
    }
}

pub open spec fn members_spirv_widths(ms: Seq<SpecType>) -> bool
    decreases ms,
{
    if ms.len() == 0 {
        true
    } else {
        members_spirv_widths(ms.drop_last()) && spirv_widths(ms.last().kind)
    }
}

/// The alignments such types can have: powers of two up to 32.
pub open spec fn small_align(a: int) -> bool {
    a == 1 || a == 2 || a == 4 || a == 8 || a == 16 || a == 32
}

proof fn lemma_small_align_pow2(a: int)
    requires
        small_align(a),
    ensures
        is_pow2(a),
{
    vstd::arithmetic::power2::lemma2_to64();
    if a == 1 {
        assert(a == vstd::arithmetic::power2::pow2(0));
    } else if a == 2 {
        assert(a == vstd::arithmetic::power2::pow2(1));
    } else if a == 4 {
        assert(a == vstd::arithmetic::power2::pow2(2));
    } else if a == 8 {
        assert(a == vstd::arithmetic::power2::pow2(3));
    } else if a == 16 {
        assert(a == vstd::arithmetic::power2::pow2(4));
    } else {
        assert(a == vstd::arithmetic::power2::pow2(5));
    }
}

proof fn lemma_std140_align_small(t: SpecTypeKind)
    requires
        spirv_widths(t),
    ensures
        small_align(spec_base_align(t, LayoutRule::Std140)),
        is_aggregate(t) ==> spec_base_align(t, LayoutRule::Std140) >= 16,
    decreases t,
{
    match t {
        SpecTypeKind::Scalar { width_bytes } => {
            assert(spec_base_align(t, LayoutRule::Std140) == width_bytes as int);
            assert(width_bytes == 1 || width_bytes == 2 || width_bytes == 4 || width_bytes == 8);
        },
        SpecTypeKind::Vector { component, count } => {
            let w = component.kind->width_bytes;
            assert(spirv_widths(component.kind));
            assert(w == 1 || w == 2 || w == 4 || w == 8);
            assert(spec_base_align(component.kind, LayoutRule::Std140) == w as int);
            assert(spec_base_align(t, LayoutRule::Std140) == vec_align_factor(count as int) * w);
            assert(small_align(vec_align_factor(count as int) * w)) by {
                if count == 2 {
                } else {
                }
            }
        },
        SpecTypeKind::Matrix { column, .. } => {
            lemma_std140_align_small(column.kind);
        },
        SpecTypeKind::Array { element, .. } => {
            lemma_std140_align_small(element.kind);
        },
        SpecTypeKind::Struct { members } => {
            lemma_std140_members_align_small(members);
        },
    }
}

proof fn lemma_std140_members_align_small(ms: Seq<SpecType>)
    requires
        members_spirv_widths(ms),
    ensures
        small_align(spec_members_max_align(ms, LayoutRule::Std140)),
    decreases ms,
{
    if ms.len() > 0 {
        lemma_std140_members_align_small(ms.drop_last());
        lemma_std140_align_small(ms.last().kind);
        if ms.len() == 1 {
            assert(ms.last() == ms[0]);
        }
    }
}

/// Under the uniform buffer layout a matrix stride of SPIR-V's columns is 16 or 32.
proof fn lemma_std140_matrix_stride(n: int, w: int)
    requires
        1 <= n <= 4,
        w == 1 || w == 2 || w == 4 || w == 8,
    ensures
        spec_matrix_stride(n, w, LayoutRule::Std140) == 16 || spec_matrix_stride(n, w, LayoutRule::Std140) == 32,
{
    let va = column_vec_align(n, w);
    assert(small_align(va));
    lemma_small_align_pow2(va);
    assert(spec_matrix_stride(n, w, LayoutRule::Std140) == max_int(round_up_to(n * w, va), 16));
    if w == 1 {
        if n == 1 {
            assert(n * w == 1) by (nonlinear_arith) requires n == 1, w == 1;
            assert(va == 1);
            assert(round_up_to(1, 1) == 1) by (nonlinear_arith);
        } else if n == 2 {
            assert(n * w == 2) by (nonlinear_arith) requires n == 2, w == 1;
            assert(va == 2);
            assert(round_up_to(2, 2) == 2) by (nonlinear_arith);
        } else if n == 3 {
            assert(n * w == 3) by (nonlinear_arith) requires n == 3, w == 1;
            assert(va == 4);
            assert(round_up_to(3, 4) == 4) by (nonlinear_arith);
        } else {
            assert(n * w == 4) by (nonlinear_arith) requires n == 4, w == 1;
            assert(va == 4);
            assert(round_up_to(4, 4) == 4) by (nonlinear_arith);
        }
    } else if w == 2 {
        if n == 1 {
            assert(n * w == 2) by (nonlinear_arith) requires n == 1, w == 2;
            assert(va == 2);
            assert(round_up_to(2, 2) == 2) by (nonlinear_arith);
        } else if n == 2 {
            assert(n * w == 4) by (nonlinear_arith) requires n == 2, w == 2;
            assert(va == 4);
            assert(round_up_to(4, 4) == 4) by (nonlinear_arith);
        } else if n == 3 {
            assert(n * w == 6) by (nonlinear_arith) requires n == 3, w == 2;
            assert(va == 8);
            assert(round_up_to(6, 8) == 8) by (nonlinear_arith);
        } else {
            assert(n * w == 8) by (nonlinear_arith) requires n == 4, w == 2;
            assert(va == 8);
            assert(round_up_to(8, 8) == 8) by (nonlinear_arith);
        }
    } else if w == 4 {
        if n == 1 {
            assert(n * w == 4) by (nonlinear_arith) requires n == 1, w == 4;
            assert(va == 4);
            assert(round_up_to(4, 4) == 4) by (nonlinear_arith);
        } else if n == 2 {
            assert(n * w == 8) by (nonlinear_arith) requires n == 2, w == 4;
            assert(va == 8);
            assert(round_up_to(8, 8) == 8) by (nonlinear_arith);
        } else if n == 3 {
            assert(n * w == 12) by (nonlinear_arith) requires n == 3, w == 4;
            assert(va == 16);
            assert(round_up_to(12, 16) == 16) by (nonlinear_arith);
        } else {
            assert(n * w == 16) by (nonlinear_arith) requires n == 4, w == 4;
            assert(va == 16);
            assert(round_up_to(16, 16) == 16) by (nonlinear_arith);
        }
    } else {
        if n == 1 {
            assert(n * w == 8) by (nonlinear_arith) requires n == 1, w == 8;
            assert(va == 8);
            assert(round_up_to(8, 8) == 8) by (nonlinear_arith);
        } else if n == 2 {
            assert(n * w == 16) by (nonlinear_arith) requires n == 2, w == 8;
            assert(va == 16);
            assert(round_up_to(16, 16) == 16) by (nonlinear_arith);
        } else if n == 3 {
            assert(n * w == 24) by (nonlinear_arith) requires n == 3, w == 8;
            assert(va == 32);
            assert(round_up_to(24, 32) == 32) by (nonlinear_arith);
        } else {
            assert(n * w == 32) by (nonlinear_arith) requires n == 4, w == 8;
            assert(va == 32);
            assert(round_up_to(32, 32) == 32) by (nonlinear_arith);
        }
    }
}

/// Under the uniform buffer layout an array's stride is at least 16 bytes, and for the types
/// SPIR-V has a multiple of 16: an element is never packed tighter than a four-component
/// vector of 32-bit scalars.
pub proof fn lemma_std140_array_stride(elem: SpecTypeKind)
    ensures
        spec_array_stride(elem, LayoutRule::Std140) >= 16,
        spirv_widths(elem) ==> spec_array_stride(elem, LayoutRule::Std140) % 16 == 0,
{
    if spirv_widths(elem) {
        let rule = LayoutRule::Std140;
        let a = spec_base_align(elem, rule);
        let sz = spec_size_of(elem, rule);
        lemma_std140_align_small(elem);
        lemma_small_align_pow2(a);
        let raw = round_up_to(sz, a);
        assert(raw == ((sz + a - 1) / a) * a);
        vstd::arithmetic::div_mod::lemma_mod_multiples_basic((sz + a - 1) / a, a);
        assert(raw % a == 0);
        match elem {
            SpecTypeKind::Scalar { width_bytes } => {
                assert(sz == width_bytes as int);
                lemma_round_up_to(sz, a);
            },
            SpecTypeKind::Vector { component, count } => {
                let w = component.kind->width_bytes;
                assert(spec_size_of(component.kind, rule) == w as int);
                assert(spec_base_align(component.kind, rule) == w as int);
                assert(sz == count as int * w);
                assert(a == vec_align_factor(count as int) * w);
                lemma_round_up_to(sz, a);
            },
            SpecTypeKind::Matrix { column, cols } => {
                let n = spec_column_vec_count(column.kind);
                let w = spec_column_scalar_width(column.kind);
                let va = column_vec_align(n, w);
                assert(spirv_widths(column.kind));
                match column.kind {
                    SpecTypeKind::Vector { component, count } => {
                        assert(spirv_widths(component.kind));
                        assert(w == component.kind->width_bytes);
                    },
                    _ => {},
                }
                assert(w == 1 || w == 2 || w == 4 || w == 8);
                assert(1 <= n <= 4);
                lemma_small_align_pow2(va);
                let ms = spec_matrix_stride(n, w, rule);
                lemma_std140_matrix_stride(n, w);
                assert(sz == cols as int * ms);
                vstd::arithmetic::div_mod::lemma_mod_multiples_basic(cols as int * (ms / 16), 16);
                assert(cols as int * ms == (cols as int * (ms / 16)) * 16) by (nonlinear_arith)
                    requires ms == 16 || ms == 32;
                assert(sz % 16 == 0);
                assert(sz >= 0);
                lemma_round_up_to(sz, a);
                let k = sz / 16;
                assert(sz == 16 * k);
                assert(raw % 16 == 0);
            },
            _ => {
                assert(a == 16 || a == 32);
            },
        }
    }
}

} // verus!
