use vstd::prelude::*;

use crate::domain::building::BuildingKey;

verus! {

/// Identifier of a player (the 128-bit value of its UUID).
pub type PlayerKey = u128;

/// Identifier of a player's building (the 128-bit value of its UUID).
pub type PlayerBuildingKey = u128;

/// Amounts of food, wood, stone and gold, in that order.
pub type ResourceAmounts = (i64, i64, i64, i64);

/// A player's stored resources and storage caps. Times are Unix microseconds.
#[derive(Clone, Copy, Debug, PartialEq, Eq)]
pub struct PlayerResource {
    pub player_id: PlayerKey,
    pub food: i64,
    pub wood: i64,
    pub stone: i64,
    pub gold: i64,
    pub food_cap: i64,
    pub wood_cap: i64,
    pub stone_cap: i64,
    pub gold_cap: i64,
    pub produced_at: i64,
    pub collected_at: i64,
}

/// Resources produced but not yet collected.
#[derive(Clone, Copy, Debug, PartialEq, Eq)]
pub struct PlayerAccumulator {
    pub player_id: PlayerKey,
    pub food: i64,
    pub wood: i64,
    pub stone: i64,
    pub gold: i64,
}

/// A building owned by a player; `upgrade_finishes_at` is the RFC 3339 time
/// at which a running construction or upgrade completes.
#[derive(Clone, Debug, PartialEq, Eq)]
pub struct PlayerBuilding {
    pub id: PlayerBuildingKey,
    pub player_id: PlayerKey,
    pub building_id: BuildingKey,
    pub level: i32,
    pub upgrade_finishes_at: Option<String>,
}

/// A building a player is about to construct.
#[derive(Clone, Debug, PartialEq, Eq)]
pub struct NewPlayerBuilding {
    pub player_id: PlayerKey,
    pub building_id: BuildingKey,
    pub level: Option<i32>,
    pub upgrade_finishes_at: Option<String>,
}

} // verus!
