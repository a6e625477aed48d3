use std::collections::HashMap;

use vstd::prelude::*;

verus! {

// Stacked corrections (running one transformation on the output of another) are not
// reconciled with each other.

/// What to insert for one binding that a transformation added after an existing one.
#[derive(Debug, Clone, Copy, PartialEq, Eq, Hash, Structural)]
pub enum CorrectionType {
    /// A combined image sampler has been split, a new `sampler` object should be inserted.
    SplitCombined,
    /// A mixed depth texture / sampler has been duplicated, insert the same object again with a `Regular` bind type.
    SplitDrefRegular,
    /// A mixed depth texture / sampler has been duplicated, insert the same object again with a
    /// `Comparison` bind type.
    SplitDrefComparison,
    /// A storage cube texture has been converted into a storage texture 2D array, change the dimension.
    ConvertStorageCube,
    /// A binding array has been split into new variables. Insert the same resource again.
    /// For an `N` sized array, expect `N-1` entries.
    SplitBindingArray,
}

#[derive(Debug, Clone, Default, PartialEq, Eq)]
pub struct CorrectionBinding {
    /// In order, what additional bindings have been appended to this one.
    pub corrections: Vec<CorrectionType>,
}

#[derive(Debug, Clone, Default, PartialEq, Eq)]
pub struct CorrectionSet {
    pub bindings: HashMap<u32, CorrectionBinding>,
}

/// How the descriptor set of converted immediates is chosen from a requested set.
#[derive(Debug, Clone, Copy, PartialEq, Eq, Default, Structural)]
pub enum ImmediatesSetMode {
    /// Use the requested set.
    #[default]
    Absolute,
    /// Use the set after the highest set in use, but no more than the requested set.
    MaxUpTo,
    /// Use the set two after the highest set in use when that is below the requested set,
    /// and the requested set otherwise.
    MaxPlusOneUpTo,
}

/// Lookup a set and a binding for a list of [`CorrectionType`].
/// In order, insert a new variable for each, see [`CorrectionType`] for what type of object should
/// be inserted for each variant.
#[derive(Debug, Clone, Default, PartialEq, Eq)]
pub struct CorrectionMap {
    pub sets: Option<HashMap<u32, CorrectionSet>>,
    /// The max set plus one, representing the location of immediates converted to uniforms
    pub immediates_set: Option<u32>,
    /// How `immediates_set`, when given, chooses the set of converted immediates.
    pub immediates_set_mode: Option<ImmediatesSetMode>,
}

/// An optional word as a C caller sees it: `some` is 1 when `value` is meaningful.
#[derive(Debug, Default)]
pub struct SpvTransformOptionalU32 {
    pub some: u8,
    pub value: u32,
}

/// The correction kinds as a C caller numbers them, in the order of [`CorrectionType`].
pub enum TransformCorrectionType {
    SpirvWebgpuTransformCorrectionTypeSplitCombined,
    SpirvWebgpuTransformCorrectionTypeSplitDrefRegular,
    SpirvWebgpuTransformCorrectionTypeSplitDrefComparison,
    SpirvWebgpuTransformCorrectionTypeConvertStorageCube,
    SpirvWebgpuTransformCorrectionTypeSplitBindingArray,
}

} // verus!
