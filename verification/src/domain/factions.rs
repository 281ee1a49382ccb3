use vstd::prelude::*;

verus! {

/// The faction a player or a building belongs to. Players start as
/// `Neutral` until they choose a faction.
#[derive(Clone, Copy, Debug, PartialEq, Eq, Structural)]
pub enum FactionCode {
    Neutral,
    Human,
    Orc,
    Elf,
    Goblin,
}

} // verus!
