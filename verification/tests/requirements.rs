use std::collections::HashMap;

use chrono::Utc;
use empire::domain::building::{Building, BuildingRequirement};
use empire::domain::factions::FactionCode;
use empire::game::buildings::requirement_operations::{
    gen_avail_data, gen_avail_list, parse_req_lock, BuildingLock, ConstructionInfo,
};
use uuid::Uuid;

fn make_test_building(id: i32, max_count: i32) -> Building {
    Building {
        id,
        name: format!("Test Building {}", id),
        max_level: 10,
        max_count,
        faction: FactionCode::Neutral,
        starter: false,
        created_at: Utc::now().timestamp(),
        updated_at: Utc::now().timestamp(),
    }
}

fn make_building_requirement(
    required_building_id: i32,
    required_building_level: i32,
) -> BuildingRequirement {
    BuildingRequirement {
        id: Uuid::now_v7().as_u128(),
        building_level_id: Uuid::now_v7().as_u128(),
        required_building_id: Some(required_building_id),
        required_building_level: Some(required_building_level),
        required_tech_id: None,
        required_tech_level: None,
        created_at: Utc::now().timestamp(),
        updated_at: Utc::now().timestamp(),
    }
}

fn make_tech_requirement(node: u128) -> BuildingRequirement {
    BuildingRequirement {
        id: Uuid::now_v7().as_u128(),
        building_level_id: Uuid::now_v7().as_u128(),
        required_building_id: None,
        required_building_level: None,
        required_tech_id: Some(node),
        required_tech_level: Some(1),
        created_at: Utc::now().timestamp(),
        updated_at: Utc::now().timestamp(),
    }
}

#[test]
fn test_gen_avail_data_buildable_when_no_locks() {
    let building = make_test_building(1, 5);
    let data = (0, 5, None); // count=0, max_count=5, no max_level yet
    let requirements: Vec<BuildingRequirement> = vec![];

    let availability = gen_avail_data(
        building.clone(),
        data,
        requirements,
        ConstructionInfo::default(),
    );

    assert!(availability.buildable);
    assert!(availability.locks.is_empty());
    assert_eq!(availability.current_count, 0);
    assert_eq!(availability.max_count, 5);
    assert_eq!(availability.building.id, building.id);
}

#[test]
fn test_gen_avail_list_mixed_availability() {
    // Building 1: buildable (count 0, max 5, no requirements)
    let bld1 = make_test_building(1, 5);
    // Building 2: locked due to max count reached (count 3, max 3)
    let bld2 = make_test_building(2, 3);

    let mut buildings = HashMap::new();
    buildings.insert(1, bld1);
    buildings.insert(2, bld2);

    let mut bld_data = HashMap::new();
    bld_data.insert(1, (0_i64, 5_i32, None)); // buildable
    bld_data.insert(2, (3_i64, 3_i32, Some(3))); // at max count

    let reqs_and_info: HashMap<i32, (Vec<BuildingRequirement>, ConstructionInfo)> =
        HashMap::new();

    let availability_list = gen_avail_list(buildings, bld_data, reqs_and_info);

    assert_eq!(availability_list.len(), 2);

    let bld1_avail = availability_list
        .iter()
        .find(|a| a.building.id == 1)
        .unwrap();
    assert!(bld1_avail.buildable);
    assert!(bld1_avail.locks.is_empty());

    let bld2_avail = availability_list
        .iter()
        .find(|a| a.building.id == 2)
        .unwrap();
    assert!(!bld2_avail.buildable);
    assert_eq!(bld2_avail.locks.len(), 1);
    assert_eq!(bld2_avail.locks[0], BuildingLock::MaxCountReached);
}

#[test]
fn test_parse_req_lock_returns_none_when_level_met() {
    // Requirement: Building 1 must be at level 2
    let req = make_building_requirement(1, 2);
    // Player has building at level 3, which meets the requirement
    let result = parse_req_lock(&2, &req, 3);
    assert!(
        result.is_none(),
        "Should return None when requirement is met"
    );
}

#[test]
fn test_parse_req_lock_returns_lock_when_level_not_met() {
    // Requirement: Building 1 must be at level 3
    let req = make_building_requirement(1, 3);
    // Player has building at level 2, which does NOT meet the requirement
    let result = parse_req_lock(&2, &req, 2);
    assert!(
        result.is_some(),
        "Should return a lock when requirement is not met"
    );
    assert_eq!(
        result.unwrap(),
        BuildingLock::BuildingLevelRequired {
            building: 1,
            current: 2,
            required: 3,
        }
    );
}

#[test]
fn test_gen_avail_list_checks_required_building_level_not_target_building_level() {
    // Building 1: Keep (the required building) - player has it at level 1
    let keep = make_test_building(1, 1);
    // Building 2: Warehouse (requires Keep level 1) - player has none yet
    let warehouse = make_test_building(2, 5);

    let mut buildings = HashMap::new();
    buildings.insert(1, keep);
    buildings.insert(2, warehouse);

    let mut bld_data = HashMap::new();
    // Keep: count=1, max_count=1, max_level=1 (player has one at level 1)
    bld_data.insert(1, (1_i64, 1_i32, Some(1)));
    // Warehouse: count=0, max_count=5, max_level=None (player has none)
    bld_data.insert(2, (0_i64, 5_i32, None));

    // Warehouse requires Keep at level 1
    let warehouse_req = make_building_requirement(1, 1);
    let mut reqs_and_info: HashMap<i32, (Vec<BuildingRequirement>, ConstructionInfo)> =
        HashMap::new();
    reqs_and_info.insert(2, (vec![warehouse_req], ConstructionInfo::default()));

    let availability_list = gen_avail_list(buildings, bld_data, reqs_and_info);

    let warehouse_avail = availability_list
        .iter()
        .find(|a| a.building.id == 2)
        .expect("Warehouse should be in the list");

    let has_building_level_lock = warehouse_avail
        .locks
        .iter()
        .any(|lock| matches!(lock, BuildingLock::BuildingLevelRequired { .. }));

    assert!(
        !has_building_level_lock,
        "Warehouse should NOT have BuildingLevelRequired lock since player has Keep at level 1. \
        Found locks: {:?}",
        warehouse_avail.locks
    );
    assert!(
        warehouse_avail.buildable,
        "Warehouse should be buildable when Keep level requirement is met"
    );
}

#[test]
fn test_gen_avail_list_locks_when_required_level_not_met() {
    // Building 1: Keep - player has it at level 1
    let keep = make_test_building(1, 1);
    // Building 3: Barracks (requires Keep level 3)
    let barracks = make_test_building(3, 3);

    let mut buildings = HashMap::new();
    buildings.insert(1, keep);
    buildings.insert(3, barracks);

    let mut bld_data = HashMap::new();
    // Keep: player has one at level 1
    bld_data.insert(1, (1_i64, 1_i32, Some(1)));
    // Barracks: player has none
    bld_data.insert(3, (0_i64, 3_i32, None));

    // Barracks requires Keep at level 3
    let barracks_req = make_building_requirement(1, 3);
    let mut reqs_and_info: HashMap<i32, (Vec<BuildingRequirement>, ConstructionInfo)> =
        HashMap::new();
    reqs_and_info.insert(3, (vec![barracks_req], ConstructionInfo::default()));

    let availability_list = gen_avail_list(buildings, bld_data, reqs_and_info);

    let barracks_avail = availability_list
        .iter()
        .find(|a| a.building.id == 3)
        .expect("Barracks should be in the list");

    let building_level_lock = barracks_avail.locks.iter().find(|lock| {
        matches!(
            lock,
            BuildingLock::BuildingLevelRequired {
                building: 1,
                required: 3,
                ..
            }
        )
    });

    assert!(
        building_level_lock.is_some(),
        "Barracks should have BuildingLevelRequired lock for Keep level 3"
    );

    if let Some(BuildingLock::BuildingLevelRequired { current, .. }) = building_level_lock {
        assert_eq!(
            *current, 1,
            "Lock should show Keep's current level (1), not Barracks' level (0)"
        );
    }

    assert!(
        !barracks_avail.buildable,
        "Barracks should not be buildable when Keep level requirement is not met"
    );
}

#[test]
fn tech_requirement_always_locks() {
    let req = make_tech_requirement(77);
    assert_eq!(
        parse_req_lock(&4, &req, 10),
        Some(BuildingLock::TechNodeRequired { node_id: 77 })
    );
}

#[test]
fn count_lock_comes_before_requirement_locks() {
    let building = make_test_building(5, 1);
    let reqs = vec![make_building_requirement(1, 4), make_tech_requirement(9)];
    let availability = gen_avail_data(building, (1, 1, Some(2)), reqs, ConstructionInfo::default());
    assert!(!availability.buildable);
    assert_eq!(availability.locks.len(), 3);
    assert_eq!(availability.locks[0], BuildingLock::MaxCountReached);
    assert_eq!(
        availability.locks[1],
        BuildingLock::BuildingLevelRequired { building: 1, current: 2, required: 4 }
    );
    assert_eq!(availability.locks[2], BuildingLock::TechNodeRequired { node_id: 9 });
}
