use empire::domain::building::{Building, BuildingLevel};
use empire::domain::error::ErrorKind;
use empire::domain::factions::FactionCode;
use empire::domain::player::{PlayerBuilding, PlayerResource};
use empire::game::building_service::{check_confirm, check_construct, check_upgrade};
use empire::game::buildings::building_operations::{
    confirm_upgrade, construct_building, has_enough_resources, level_cost_of, upgrade_building,
};
use empire::game::buildings::requirement_operations::{
    BuildingAvailability, BuildingLock, ConstructionInfo,
};
use empire::game::player_operations::should_schedule_production;

const SECOND: i64 = 1_000_000;
// 2024-01-01T00:00:00Z
const NEW_YEAR: i64 = 1_704_067_200 * SECOND;

fn level(food: Option<i64>, gold: Option<i64>, seconds: i64) -> BuildingLevel {
    BuildingLevel {
        id: 1,
        building_id: 3,
        building_level: 1,
        upgrade_seconds: seconds,
        req_food: food,
        req_wood: None,
        req_stone: Some(5),
        req_gold: gold,
    }
}

fn resources(amount: i64) -> PlayerResource {
    PlayerResource {
        player_id: 1,
        food: amount,
        wood: amount,
        stone: amount,
        gold: amount,
        food_cap: 1000,
        wood_cap: 1000,
        stone_cap: 1000,
        gold_cap: 1000,
        produced_at: 0,
        collected_at: 0,
    }
}

fn availability(buildable: bool) -> BuildingAvailability {
    with_locks(if buildable { vec![] } else { vec![BuildingLock::MaxCountReached] })
}

fn with_locks(locks: Vec<BuildingLock>) -> BuildingAvailability {
    BuildingAvailability {
        building: Building {
            id: 3,
            name: "Farm".to_string(),
            max_level: 10,
            max_count: 4,
            faction: FactionCode::Neutral,
            starter: false,
            created_at: 0,
            updated_at: 0,
        },
        buildable: locks.is_empty(),
        current_count: 0,
        max_count: 4,
        locks,
        construction: ConstructionInfo::default(),
    }
}

fn building(upgrade_finishes_at: Option<String>) -> PlayerBuilding {
    PlayerBuilding { id: 8, player_id: 1, building_id: 3, level: 2, upgrade_finishes_at }
}

#[test]
fn costs_count_missing_amounts_as_zero() {
    assert_eq!(level_cost_of(&level(Some(10), None, 0)), (10, 0, 5, 0));
    assert!(has_enough_resources(&resources(10), &level(Some(10), None, 0)));
    assert!(!has_enough_resources(&resources(9), &level(Some(10), None, 0)));
}

#[test]
fn construction_orders_level_zero_with_eta() {
    let order = construct_building(&1, &3, &availability(true), &level(Some(10), Some(2), 90), &resources(50), NEW_YEAR)
        .unwrap();
    assert_eq!(order.deduction, (10, 0, 5, 2));
    assert_eq!(order.building.level, Some(0));
    assert_eq!(order.building.upgrade_finishes_at.as_deref(), Some("2024-01-01T00:01:30+00:00"));
}

#[test]
fn construction_refusals() {
    let full = construct_building(&1, &3, &availability(false), &level(None, None, 0), &resources(50), 0);
    assert_eq!(full.unwrap_err().description, "Max buildings reached");
    let tech = BuildingLock::TechNodeRequired { node_id: 4 };
    let locked = construct_building(&1, &3, &with_locks(vec![tech]), &level(None, None, 0), &resources(50), 0);
    assert_eq!(locked.unwrap_err().description, "Building has locks, cannot construct");
    let both = with_locks(vec![BuildingLock::MaxCountReached, tech]);
    let err = construct_building(&1, &3, &both, &level(None, None, 0), &resources(50), 0).unwrap_err();
    assert_eq!(err.description, "Max buildings reached");
    let poor = construct_building(&1, &3, &availability(true), &level(Some(100), None, 0), &resources(50), 0);
    let err = poor.unwrap_err();
    assert_eq!(err.kind, ErrorKind::ConstructBuildingError);
    assert_eq!(err.description, "Not enough resources");
}

#[test]
fn upgrade_then_confirm_after_eta() {
    let order = upgrade_building(&availability(true), 2, Some(10), &level(Some(1), None, 60), &resources(50), NEW_YEAR).unwrap();
    assert_eq!(order.upgrade_finishes_at, "2024-01-01T00:01:00+00:00");
    let upgrading = building(Some(order.upgrade_finishes_at.clone()));
    let early = confirm_upgrade(&upgrading, NEW_YEAR + 59 * SECOND).unwrap_err();
    assert_eq!(early.description, "Upgrade time has not passed");
    let confirmed = confirm_upgrade(&upgrading, NEW_YEAR + 60 * SECOND).unwrap();
    assert_eq!(confirmed.level, 3);
    assert_eq!(confirmed.id, upgrading.id);
}

#[test]
fn confirm_refusals() {
    assert_eq!(confirm_upgrade(&building(None), 0).unwrap_err().description, "Building is not upgrading");
    let garbled = confirm_upgrade(&building(Some("soon".to_string())), 0).unwrap_err();
    assert_eq!(garbled.kind, ErrorKind::ConfirmUpgradeError);
    assert_eq!(garbled.description, "Invalid time format");
}

#[test]
fn upgrade_refusals() {
    let required = BuildingLock::BuildingLevelRequired { building: 7, current: 1, required: 3 };
    let locked = upgrade_building(&with_locks(vec![required]), 2, Some(10), &level(None, None, 0), &resources(50), 0);
    assert_eq!(locked.unwrap_err().description, "Building has locks");
    let poor = upgrade_building(&availability(true), 2, Some(10), &level(None, Some(60), 0), &resources(50), 0);
    assert_eq!(poor.unwrap_err().kind, ErrorKind::UpgradeBuildingError);
}

#[test]
fn owning_the_allowed_count_does_not_stop_upgrades() {
    let full = availability(false);
    let order = upgrade_building(&full, 1, Some(10), &level(Some(1), None, 60), &resources(50), NEW_YEAR).unwrap();
    assert_eq!(order.deduction, (1, 0, 5, 0));
    let at_max = upgrade_building(&full, 10, Some(10), &level(None, None, 0), &resources(50), 0);
    assert_eq!(at_max.unwrap_err().description, "Building is at max level");
}

#[test]
fn upgrades_stop_at_the_max_level() {
    let at_max = upgrade_building(&availability(true), 10, Some(10), &level(None, None, 0), &resources(50), 0);
    let err = at_max.unwrap_err();
    assert_eq!(err.kind, ErrorKind::UpgradeBuildingError);
    assert_eq!(err.description, "Building is at max level");
    let unknown = upgrade_building(&availability(true), 0, None, &level(None, None, 0), &resources(50), 0);
    assert_eq!(unknown.unwrap_err().description, "Building is at max level");
}

#[test]
fn service_checks() {
    assert_eq!(check_construct(&level(Some(10), None, 0), &resources(20), true).unwrap(), (10, 0, 5, 0));
    assert_eq!(
        check_construct(&level(Some(10), None, 0), &resources(20), false).unwrap_err().description,
        "Max buildings reached"
    );
    assert_eq!(
        check_construct(&level(Some(30), None, 0), &resources(20), false).unwrap_err().description,
        "Not enough resources"
    );
    assert_eq!(check_upgrade(&building(None), Some(3), &level(None, None, 0), &resources(20)).unwrap(), (0, 0, 5, 0));
    assert_eq!(
        check_upgrade(&building(None), Some(2), &level(None, None, 0), &resources(20)).unwrap_err().description,
        "Building is at max level"
    );
    assert_eq!(
        check_upgrade(&building(None), None, &level(None, None, 0), &resources(20)).unwrap_err().description,
        "Building is at max level"
    );
}

#[test]
fn service_confirm_reads_utc_times() {
    let at = Some("2024-01-01T00:01:00Z".to_string());
    assert!(check_confirm(&at, NEW_YEAR + 60 * SECOND).is_ok());
    assert_eq!(check_confirm(&at, NEW_YEAR).unwrap_err().description, "Upgrade time has not passed");
    assert_eq!(check_confirm(&None, NEW_YEAR).unwrap_err().description, "Building is not upgrading");
    assert_eq!(
        check_confirm(&Some("later".to_string()), NEW_YEAR).unwrap_err().description,
        "Invalid time format"
    );
}

#[test]
fn finishing_times_keep_fractions_and_read_back() {
    let now = NEW_YEAR + 1_500_000;
    let order = upgrade_building(&availability(true), 2, Some(10), &level(None, None, 30), &resources(50), now).unwrap();
    assert_eq!(order.upgrade_finishes_at, "2024-01-01T00:00:31.500+00:00");
    let upgrading = building(Some(order.upgrade_finishes_at.clone()));
    assert!(confirm_upgrade(&upgrading, now + 30 * SECOND - 1).is_err());
    assert!(confirm_upgrade(&upgrading, now + 30 * SECOND).is_ok());
    // the service reads UTC times with any offset
    let shifted = Some("2024-01-01T01:00:00+01:00".to_string());
    assert!(check_confirm(&shifted, NEW_YEAR).is_ok());
    assert!(check_confirm(&shifted, NEW_YEAR - 1).is_err());
}

#[test]
fn production_starts_when_a_neutral_player_picks_a_faction() {
    assert!(should_schedule_production(Some(FactionCode::Goblin), FactionCode::Neutral));
    assert!(!should_schedule_production(Some(FactionCode::Neutral), FactionCode::Neutral));
    assert!(!should_schedule_production(None, FactionCode::Neutral));
    assert!(!should_schedule_production(Some(FactionCode::Human), FactionCode::Goblin));
}
