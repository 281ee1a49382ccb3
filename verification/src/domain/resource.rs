use vstd::prelude::*;

verus! {

/// The resources of the game.
#[derive(Debug, Clone, Copy, Hash, PartialEq, Eq, Structural)]
pub enum ResourceType {
    Population,
    Food,
    Wood,
    Stone,
    Gold,
}

} // verus!
