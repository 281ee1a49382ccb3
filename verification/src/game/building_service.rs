//! Decisions of the building service: construction limited by the count
//! the player may own, upgrades limited by the maximum level, and
//! confirmation once the stored upgrade time has passed.
use vstd::prelude::*;

use crate::domain::building::BuildingLevel;
use crate::domain::error::{fails_with, Error, ErrorKind};
use crate::domain::player::{PlayerBuilding, PlayerResource, ResourceAmounts};
use crate::game::buildings::building_operations::{
    can_afford, has_enough_resources, level_cost, level_cost_of,
};
use crate::time::{parse_utc_text, utc_text_instant};

verus! {

/// Decides a construction: refused when the player cannot pay the level,
/// then when the player already owns the maximum number (`can_construct`
/// false); otherwise the level's cost is to be deducted.
pub fn check_construct(
    bld_lvl: &BuildingLevel,
    res: &PlayerResource,
    can_construct: bool,
) -> (r: Result<ResourceAmounts, Error>)
    ensures
        !can_afford(*res, level_cost(*bld_lvl)) ==> fails_with(
            r,
            ErrorKind::ConstructBuildingError,
            "Not enough resources",
        ),
        can_afford(*res, level_cost(*bld_lvl)) && !can_construct ==> fails_with(
            r,
            ErrorKind::ConstructBuildingError,
            "Max buildings reached",
        ),
        can_afford(*res, level_cost(*bld_lvl)) && can_construct ==> r == Ok::<
            ResourceAmounts,
            Error,
        >(level_cost(*bld_lvl)),
{
    if !has_enough_resources(res, bld_lvl) {
        return Err(Error::new(ErrorKind::ConstructBuildingError, "Not enough resources"));
    }
    if !can_construct {
        return Err(Error::new(ErrorKind::ConstructBuildingError, "Max buildings reached"));
    }
    Ok(level_cost_of(bld_lvl))
}

/// The maximum level, 0 when unknown.
pub open spec fn max_level_or_zero(max_level: Option<i32>) -> i32 {
    match max_level {
        Some(l) => l,
        None => 0,
    }
}

/// Decides an upgrade: refused when the player cannot pay the next level,
/// then when the building already stands at the maximum level (0 when
/// unknown); otherwise the level's cost is to be deducted.
pub fn check_upgrade(
    player_bld: &PlayerBuilding,
    max_level: Option<i32>,
    bld_lvl: &BuildingLevel,
    res: &PlayerResource,
) -> (r: Result<ResourceAmounts, Error>)
    ensures
        !can_afford(*res, level_cost(*bld_lvl)) ==> fails_with(
            r,
            ErrorKind::UpgradeBuildingError,
            "Not enough resources",
        ),
        can_afford(*res, level_cost(*bld_lvl)) && player_bld.level >= max_level_or_zero(max_level)
            ==> fails_with(r, ErrorKind::UpgradeBuildingError, "Building is at max level"),
        can_afford(*res, level_cost(*bld_lvl)) && player_bld.level < max_level_or_zero(max_level)
            ==> r == Ok::<ResourceAmounts, Error>(level_cost(*bld_lvl)),
{
    if !has_enough_resources(res, bld_lvl) {
        return Err(Error::new(ErrorKind::UpgradeBuildingError, "Not enough resources"));
    }
    let max = match max_level {
        Some(l) => l,
        None => 0,
    };
    if player_bld.level >= max {
        return Err(Error::new(ErrorKind::UpgradeBuildingError, "Building is at max level"));
    }
    Ok(level_cost_of(bld_lvl))
}

/// Decides a confirmation at time `now` (Unix microseconds): refused when no
/// upgrade time is stored, when it cannot be read as a UTC time, or while it
/// lies after `now`; `Ok` means the level is to be raised by one.
pub fn check_confirm(upgrade_time: &Option<String>, now: i64) -> (r: Result<(), Error>)
    ensures
        upgrade_time is None ==> fails_with(
            r,
            ErrorKind::ConfirmUpgradeError,
            "Building is not upgrading",
        ),
        upgrade_time matches Some(t) ==> match utc_text_instant(t@) {
            None => fails_with(r, ErrorKind::ConfirmUpgradeError, "Invalid time format"),
            Some(time) => if time <= now {
                r is Ok
            } else {
                fails_with(r, ErrorKind::ConfirmUpgradeError, "Upgrade time has not passed")
            },
        },
{
    match upgrade_time {
        None => Err(Error::new(ErrorKind::ConfirmUpgradeError, "Building is not upgrading")),
        Some(t) => match parse_utc_text(t.as_str()) {
            None => Err(Error::new(ErrorKind::ConfirmUpgradeError, "Invalid time format")),
            Some(time) => {
                if time <= now {
                    Ok(())
                } else {
                    Err(Error::new(ErrorKind::ConfirmUpgradeError, "Upgrade time has not passed"))
                }
            },
        },
    }
}

} // verus!
