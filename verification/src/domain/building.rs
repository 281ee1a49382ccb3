use vstd::prelude::*;

use crate::domain::factions::FactionCode;

verus! {

/// Identifier of a building definition.
pub type BuildingKey = i32;

/// A building definition. Timestamps are Unix seconds; identifiers of other
/// records are the 128-bit values of their UUIDs.
#[derive(Clone, Debug, PartialEq, Eq)]
pub struct Building {
    pub id: BuildingKey,
    pub name: String,
    pub max_level: i32,
    pub max_count: i32,
    pub faction: FactionCode,
    pub starter: bool,
    pub created_at: i64,
    pub updated_at: i64,
}

/// A prerequisite of a building level: another building at some level, or a
/// researched technology node.
#[derive(Clone, Debug, PartialEq, Eq)]
pub struct BuildingRequirement {
    pub id: u128,
    pub building_level_id: u128,
    pub required_building_id: Option<BuildingKey>,
    pub required_building_level: Option<i32>,
    pub required_tech_id: Option<u128>,
    pub required_tech_level: Option<i32>,
    pub created_at: i64,
    pub updated_at: i64,
}

impl BuildingRequirement {
    /// A requirement on another building names the level it requires.
    pub open spec fn wf(self) -> bool {
        self.required_building_id is Some ==> self.required_building_level is Some
    }
}

/// The resource costs and duration of one level of a building.
#[derive(Clone, Debug, PartialEq, Eq)]
pub struct BuildingLevel {
    pub id: u128,
    pub building_id: BuildingKey,
    pub building_level: i32,
    pub upgrade_seconds: i64,
    pub req_food: Option<i64>,
    pub req_wood: Option<i64>,
    pub req_stone: Option<i64>,
    pub req_gold: Option<i64>,
}

} // verus!
