use vstd::prelude::*;

verus! {

/// What a modifier acts upon.
#[derive(Debug, Clone, Copy, Hash, PartialEq, Eq, Structural)]
pub enum ModifierTarget {
    /// Production of a resource
    Resource,
    /// Unit training speed
    Training,
}

/// How modifiers of the same target combine.
#[derive(Debug, Clone, Copy, Hash, PartialEq, Eq, Structural)]
pub enum StackingBehaviour {
    /// Magnitudes are summed, then added to the base of 1
    Additive,
    /// Each magnitude multiplies the total by (1 + magnitude)
    Multiplicative,
    /// Only the highest magnitude of each stacking group applies
    HighestOnly,
}

} // verus!
