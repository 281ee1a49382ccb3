//! Decisions taken when a player's profile changes.
use vstd::prelude::*;

use crate::domain::factions::FactionCode;

verus! {

/// A change sets the faction to a different one.
pub open spec fn faction_changes(new_faction: Option<FactionCode>, old_faction: FactionCode) -> bool {
    new_faction is Some && new_faction != Some(old_faction)
}

/// Whether resource production is to be scheduled after an update: exactly
/// when a neutral player picks a faction.
pub fn should_schedule_production(new_faction: Option<FactionCode>, old_faction: FactionCode) -> (b: bool)
    ensures
        b == (faction_changes(new_faction, old_faction) && old_faction == FactionCode::Neutral),
{
    let faction_changed = match new_faction {
        Some(f) => f != old_faction,
        None => false,
    };
    faction_changed && old_faction == FactionCode::Neutral
}

} // verus!
