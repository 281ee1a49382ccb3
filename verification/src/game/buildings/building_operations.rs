//! Decisions of building construction, upgrade and upgrade confirmation.
//! The caller reads the player's data, hands it over, and carries out the
//! order that comes back (deducting the resources and storing the building
//! in one transaction).
use vstd::prelude::*;

use crate::domain::building::{BuildingKey, BuildingLevel};
use crate::domain::error::{fails_with, Error, ErrorKind};
use crate::domain::player::{NewPlayerBuilding, PlayerBuilding, PlayerKey, PlayerResource, ResourceAmounts};
use crate::game::buildings::requirement_operations::{BuildingAvailability, BuildingLock};
use crate::time::{
    format_rfc3339, parse_rfc3339, rfc3339_instant, rfc3339_text, INSTANT_RANGE_MICROS,
    MICROS_PER_SECOND, RFC3339_MAX_MICROS, RFC3339_MIN_MICROS,
};

verus! {

/// The resources a building level costs; a missing amount costs nothing.
pub open spec fn level_cost(l: BuildingLevel) -> ResourceAmounts {
    (
        match l.req_food { Some(v) => v, None => 0 },
        match l.req_wood { Some(v) => v, None => 0 },
        match l.req_stone { Some(v) => v, None => 0 },
        match l.req_gold { Some(v) => v, None => 0 },
    )
}

/// The player holds at least `cost` of every resource.
pub open spec fn can_afford(res: PlayerResource, cost: ResourceAmounts) -> bool {
    &&& res.food >= cost.0
    &&& res.wood >= cost.1
    &&& res.stone >= cost.2
    &&& res.gold >= cost.3
}

/// The instant `secs` seconds after `now` (both representable as dates).
pub open spec fn eta_micros(now: i64, secs: i64) -> int {
    now + secs * MICROS_PER_SECOND
}

/// `now` and the instant `secs` seconds later can both be written as dates.
pub open spec fn eta_in_range(now: i64, secs: i64) -> bool {
    &&& -INSTANT_RANGE_MICROS <= now <= INSTANT_RANGE_MICROS
    &&& -INSTANT_RANGE_MICROS <= eta_micros(now, secs) <= INSTANT_RANGE_MICROS
}

/// The instant `secs` seconds after `now` lies in the years 0 to 9999, whose
/// RFC 3339 text reads back as the same instant.
pub open spec fn eta_readable(now: i64, secs: i64) -> bool {
    RFC3339_MIN_MICROS <= eta_micros(now, secs) <= RFC3339_MAX_MICROS
}

/// A running upgrade whose finishing time is `finishes_at` may be confirmed
/// at `now`: the time reads as RFC 3339 and does not lie after `now`.
pub open spec fn confirmable(finishes_at: Option<Seq<char>>, now: i64) -> bool {
    &&& finishes_at matches Some(t)
    &&& rfc3339_instant(t) matches Some(eta)
    &&& now >= eta
}

/// What constructing a building does: take the resources, and store the new
/// building at level 0 with its construction finishing at the given time.
#[derive(Debug)]
pub struct ConstructionOrder {
    pub deduction: ResourceAmounts,
    pub building: NewPlayerBuilding,
}

/// What starting an upgrade does: take the resources, and set the time at
/// which the upgrade finishes.
#[derive(Debug)]
pub struct UpgradeOrder {
    pub deduction: ResourceAmounts,
    pub upgrade_finishes_at: String,
}

/// The resources a building level costs.
pub fn level_cost_of(bld_lvl: &BuildingLevel) -> (c: ResourceAmounts)
    ensures
        c == level_cost(*bld_lvl),
{
    (
        match bld_lvl.req_food { Some(v) => v, None => 0 },
        match bld_lvl.req_wood { Some(v) => v, None => 0 },
        match bld_lvl.req_stone { Some(v) => v, None => 0 },
        match bld_lvl.req_gold { Some(v) => v, None => 0 },
    )
}

/// Whether the player holds enough of every resource a level costs.
pub fn has_enough_resources(res: &PlayerResource, bld_lvl: &BuildingLevel) -> (b: bool)
    ensures
        b == can_afford(*res, level_cost(*bld_lvl)),
{
    let cost = level_cost_of(bld_lvl);
    let has_enough_food = res.food >= cost.0;
    let has_enough_wood = res.wood >= cost.1;
    let has_enough_stone = res.stone >= cost.2;
    let has_enough_gold = res.gold >= cost.3;
    has_enough_food && has_enough_wood && has_enough_stone && has_enough_gold
}

/// Among `locks` is the lock of a building whose allowed count is owned.
pub open spec fn has_count_lock(locks: Seq<BuildingLock>) -> bool {
    exists|i: int| 0 <= i < locks.len() && #[trigger] locks[i] is MaxCountReached
}

/// Among `locks` is an unmet requirement (a building level or a technology).
pub open spec fn has_requirement_lock(locks: Seq<BuildingLock>) -> bool {
    exists|i: int| 0 <= i < locks.len() && !(#[trigger] locks[i] is MaxCountReached)
}

/// Which kinds of lock `locks` holds: the count lock, and any requirement lock.
pub fn lock_kinds(locks: &Vec<BuildingLock>) -> (r: (bool, bool))
    ensures
        r.0 == has_count_lock(locks@),
        r.1 == has_requirement_lock(locks@),
{
    let mut count = false;
    let mut requirement = false;
    let mut i: usize = 0;
    while i < locks.len()
        invariant
            i <= locks@.len(),
            count == exists|j: int| 0 <= j < i && #[trigger] locks@[j] is MaxCountReached,
            requirement == exists|j: int| 0 <= j < i && !(#[trigger] locks@[j] is MaxCountReached),
        decreases locks@.len() - i,
    {
        match &locks[i] {
            BuildingLock::MaxCountReached => {
                count = true;
            },
            _ => {
                requirement = true;
            },
        }
        i = i + 1;
    }
    (count, requirement)
}

/// The RFC 3339 text of the instant `secs` seconds after `now`.
fn eta_text(now: i64, secs: i64) -> (t: String)
    requires
        eta_in_range(now, secs),
    ensures
        t@ == rfc3339_text(eta_micros(now, secs)),
        eta_readable(now, secs) ==> rfc3339_instant(t@) == Some(eta_micros(now, secs) as i64),
{
    let eta = (now as i128 + secs as i128 * MICROS_PER_SECOND as i128) as i64;
    format_rfc3339(eta).unwrap()
}

/// Decides the construction of building `bld_id` by `player_id` at time
/// `now` (Unix microseconds), from the availability of the building, the
/// level 0 data and the player's resources: refused while the building is
/// not buildable (as "Max buildings reached" when the player owns the
/// allowed count, else for its unmet requirements), then while the player
/// cannot pay; otherwise the order takes the level's cost and stores the
/// building at level 0, finishing `upgrade_seconds` after `now`.
pub fn construct_building(
    player_id: &PlayerKey,
    bld_id: &BuildingKey,
    bld_avail: &BuildingAvailability,
    bld_lvl: &BuildingLevel,
    res: &PlayerResource,
    now: i64,
) -> (r: Result<ConstructionOrder, Error>)
    requires
        eta_in_range(now, bld_lvl.upgrade_seconds),
    ensures
        !bld_avail.buildable && has_count_lock(bld_avail.locks@) ==> fails_with(r, ErrorKind::ConstructBuildingError,
            "Max buildings reached",
        ),
        !bld_avail.buildable && !has_count_lock(bld_avail.locks@) ==> fails_with(r, ErrorKind::ConstructBuildingError,
            "Building has locks, cannot construct",
        ),
        bld_avail.buildable && !can_afford(*res, level_cost(*bld_lvl)) ==> fails_with(r, ErrorKind::ConstructBuildingError, "Not enough resources"),
        bld_avail.buildable && can_afford(*res, level_cost(*bld_lvl)) ==> (r matches Ok(o) && {
            &&& o.deduction == level_cost(*bld_lvl)
            &&& o.building.player_id == *player_id
            &&& o.building.building_id == *bld_id
            &&& o.building.level == Some(0i32)
            &&& o.building.upgrade_finishes_at matches Some(t) && t@ == rfc3339_text(
                eta_micros(now, bld_lvl.upgrade_seconds),
            )
            &&& eta_readable(now, bld_lvl.upgrade_seconds) ==> (o.building.upgrade_finishes_at matches Some(t)
                && rfc3339_instant(t@) == Some(eta_micros(now, bld_lvl.upgrade_seconds) as i64))
        }),
{
    if !bld_avail.buildable {
        let (count_lock, _) = lock_kinds(&bld_avail.locks);
        if count_lock {
            return Err(Error::new(ErrorKind::ConstructBuildingError, "Max buildings reached"));
        }
        return Err(
            Error::new(ErrorKind::ConstructBuildingError, "Building has locks, cannot construct"),
        );
    }
    if !has_enough_resources(res, bld_lvl) {
        return Err(Error::new(ErrorKind::ConstructBuildingError, "Not enough resources"));
    }
    let eta = eta_text(now, bld_lvl.upgrade_seconds);
    Ok(
        ConstructionOrder {
            deduction: level_cost_of(bld_lvl),
            building: NewPlayerBuilding {
                player_id: *player_id,
                building_id: *bld_id,
                level: Some(0),
                upgrade_finishes_at: Some(eta),
            },
        },
    )
}

/// The maximum level, 0 when unknown.
pub open spec fn max_level_or_zero(max_level: Option<i32>) -> i32 {
    match max_level {
        Some(l) => l,
        None => 0,
    }
}

/// Decides the start of an upgrade at time `now` (Unix microseconds), from
/// the availability of the building, its current level and the maximum level
/// of its kind (0 when unknown), the data of its next level and the player's
/// resources: refused while a requirement of the building is unmet (owning
/// the allowed count of it, which counts this very building, does not keep
/// it from being upgraded), then while the player cannot pay, then when the
/// building already stands at the maximum level;
/// otherwise the order takes the level's cost and lets the upgrade finish
/// `upgrade_seconds` after `now`.
pub fn upgrade_building(
    bld_avail: &BuildingAvailability,
    level: i32,
    max_level: Option<i32>,
    bld_lvl: &BuildingLevel,
    res: &PlayerResource,
    now: i64,
) -> (r: Result<UpgradeOrder, Error>)
    requires
        eta_in_range(now, bld_lvl.upgrade_seconds),
    ensures
        has_requirement_lock(bld_avail.locks@) ==> fails_with(r, ErrorKind::UpgradeBuildingError,
            "Building has locks",
        ),
        !has_requirement_lock(bld_avail.locks@) && !can_afford(*res, level_cost(*bld_lvl)) ==> fails_with(r, ErrorKind::UpgradeBuildingError, "Not enough resources"),
        !has_requirement_lock(bld_avail.locks@) && can_afford(*res, level_cost(*bld_lvl)) && level >= max_level_or_zero(max_level) ==> fails_with(r, ErrorKind::UpgradeBuildingError, "Building is at max level"),
        !has_requirement_lock(bld_avail.locks@) && can_afford(*res, level_cost(*bld_lvl)) && level < max_level_or_zero(max_level) ==> (r matches Ok(o) && {
            &&& o.deduction == level_cost(*bld_lvl)
            &&& o.upgrade_finishes_at@ == rfc3339_text(eta_micros(now, bld_lvl.upgrade_seconds))
            &&& eta_readable(now, bld_lvl.upgrade_seconds) ==> rfc3339_instant(o.upgrade_finishes_at@)
                == Some(eta_micros(now, bld_lvl.upgrade_seconds) as i64)
        }),
{
    let (_, requirement_lock) = lock_kinds(&bld_avail.locks);
    if requirement_lock {
        return Err(Error::new(ErrorKind::UpgradeBuildingError, "Building has locks"));
    }
    if !has_enough_resources(res, bld_lvl) {
        return Err(Error::new(ErrorKind::UpgradeBuildingError, "Not enough resources"));
    }
    let max = match max_level {
        Some(l) => l,
        None => 0,
    };
    if level >= max {
        return Err(Error::new(ErrorKind::UpgradeBuildingError, "Building is at max level"));
    }
    let eta = eta_text(now, bld_lvl.upgrade_seconds);
    Ok(UpgradeOrder { deduction: level_cost_of(bld_lvl), upgrade_finishes_at: eta })
}

/// Decides whether the running upgrade of a building may be confirmed at
/// time `now` (Unix microseconds): refused when none runs, when its finishing
/// time is not RFC 3339 text, or while that time lies after `now`; once
/// confirmed, the building stands one level higher.
pub fn confirm_upgrade(player_bld: &PlayerBuilding, now: i64) -> (r: Result<PlayerBuilding, Error>)
    requires
        player_bld.level < i32::MAX,
    ensures
        r matches Ok(b) ==> b == (PlayerBuilding { level: (player_bld.level + 1) as i32, ..*player_bld }),
        r is Ok <==> confirmable(
            match player_bld.upgrade_finishes_at {
                Some(t) => Some(t@),
                None => None,
            },
            now,
        ),
        player_bld.upgrade_finishes_at is None ==> fails_with(r, ErrorKind::ConfirmUpgradeError,
            "Building is not upgrading",
        ),
        player_bld.upgrade_finishes_at matches Some(t) ==> match rfc3339_instant(t@) {
            None => fails_with(r, ErrorKind::ConfirmUpgradeError,
                "Invalid time format",
            ),
            Some(eta) => if now >= eta {
                r is Ok
            } else {
                fails_with(r, ErrorKind::ConfirmUpgradeError,
                    "Upgrade time has not passed",
                )
            },
        },
{
    match &player_bld.upgrade_finishes_at {
        None => Err(Error::new(ErrorKind::ConfirmUpgradeError, "Building is not upgrading")),
        Some(eta) => {
            match parse_rfc3339(eta.as_str()) {
                None => Err(Error::new(ErrorKind::ConfirmUpgradeError, "Invalid time format")),
                Some(upgrade_finishes_at) => {
                    if now >= upgrade_finishes_at {
                        Ok(
                            PlayerBuilding {
                                id: player_bld.id,
                                player_id: player_bld.player_id,
                                building_id: player_bld.building_id,
                                level: player_bld.level + 1,
                                upgrade_finishes_at: Some(eta.clone()),
                            },
                        )
                    } else {
                        Err(
                            Error::new(
                                ErrorKind::ConfirmUpgradeError,
                                "Upgrade time has not passed",
                            ),
                        )
                    }
                },
            }
        },
    }
}

/// An upgrade can be confirmed exactly from the instant it finishes on: when
/// an upgrade ordered at `now` for `secs` seconds finishes in the years 0 to
/// 9999, its finishing text (as `upgrade_building` orders it) is confirmable
/// at `later` exactly when `later` is at or after `now + secs` seconds.
pub proof fn lemma_upgrade_confirmable_from_eta(finishes_at: Seq<char>, now: i64, secs: i64, later: i64)
    requires
        eta_readable(now, secs),
        rfc3339_instant(finishes_at) == Some(eta_micros(now, secs) as i64),
    ensures
        confirmable(Some(finishes_at), later) <==> later >= eta_micros(now, secs),
{
}

} // verus!
