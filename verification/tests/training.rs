use empire::domain::error::ErrorKind;
use empire::domain::player::{PlayerBuilding, PlayerResource};
use empire::domain::resource::ResourceType;
use empire::job_queue::{JobPriority, JobType};
use empire::domain::unit::{TrainingQueueEntry, TrainingStatus, UnitCost, UnitType};
use empire::game::units::training_operations::{
    check_cancel, get_total_cost, needs_completion, refund_is_due, start_training,
    complete_training, training_job_payload, training_job_request, validate_building_ownership,
    validate_building_unit_match, with_job_id, MAX_QUEUE_PER_BUILDING,
};

fn cost(resource: ResourceType, amount: i64) -> UnitCost {
    UnitCost { id: 1, unit_id: 9, resource, amount }
}

fn resources(amount: i64) -> PlayerResource {
    PlayerResource {
        player_id: 1,
        food: amount,
        wood: amount,
        stone: amount,
        gold: amount,
        food_cap: 1000,
        wood_cap: 1000,
        stone_cap: 1000,
        gold_cap: 1000,
        produced_at: 0,
        collected_at: 0,
    }
}

fn barracks(owner: u128) -> PlayerBuilding {
    PlayerBuilding { id: 5, player_id: owner, building_id: 2, level: 1, upgrade_finishes_at: None }
}

fn entry(player_id: u128, status: TrainingStatus) -> TrainingQueueEntry {
    TrainingQueueEntry {
        id: 77,
        player_id,
        building_id: 5,
        unit_id: 9,
        quantity: 3,
        started_at: 0,
        completed_at: None,
        status,
        job_id: None,
    }
}

#[test]
fn total_cost_multiplies_per_unit_costs() {
    let costs = vec![cost(ResourceType::Food, 10), cost(ResourceType::Gold, 4), cost(ResourceType::Population, 1)];
    assert_eq!(get_total_cost(&costs, 3), (30, 0, 0, 12));
    assert_eq!(get_total_cost(&vec![], 3), (0, 0, 0, 0));
}

#[test]
fn start_training_orders_an_entry() {
    let costs = vec![cost(ResourceType::Food, 10)];
    let order = start_training(&1, &5, &9, 2, &barracks(1), true, &resources(100), &costs, 0).unwrap();
    assert_eq!(order.deduction, (20, 0, 0, 0));
    assert_eq!(order.entry.quantity, 2);
    assert_eq!(order.entry.status, Some(TrainingStatus::InProgress));
    assert_eq!(order.entry.job_id, None);
}

#[test]
fn start_training_refusals() {
    let costs = vec![cost(ResourceType::Wood, 10)];
    let kind = |r: Result<_, empire::domain::error::Error>| r.unwrap_err().kind;
    assert_eq!(kind(start_training(&1, &5, &9, 0, &barracks(1), true, &resources(100), &costs, 0)), ErrorKind::InvalidQuantityError);
    assert_eq!(kind(start_training(&1, &5, &9, 1, &barracks(2), true, &resources(100), &costs, 0)), ErrorKind::StartTrainingError);
    assert_eq!(kind(start_training(&1, &5, &9, 1, &barracks(1), false, &resources(100), &costs, 0)), ErrorKind::InvalidBuildingTypeError);
    assert_eq!(kind(start_training(&1, &5, &9, 20, &barracks(1), true, &resources(100), &costs, 0)), ErrorKind::InsufficientResourcesError);
    let full = start_training(&1, &5, &9, 1, &barracks(1), true, &resources(100), &costs, MAX_QUEUE_PER_BUILDING);
    let err = full.unwrap_err();
    assert_eq!(err.kind, ErrorKind::StartTrainingError);
    assert_eq!(err.description, "Failed to start training");
}

#[test]
fn validations() {
    assert!(validate_building_ownership(&barracks(1), &1).is_ok());
    assert_eq!(validate_building_ownership(&barracks(1), &2).unwrap_err().description, "Building not found");
    assert!(validate_building_unit_match(true).is_ok());
    assert_eq!(
        validate_building_unit_match(false).unwrap_err().kind,
        ErrorKind::InvalidBuildingTypeError
    );
}

#[test]
fn cancellation_rules() {
    assert!(check_cancel(&entry(1, TrainingStatus::InProgress), &1).is_ok());
    assert!(check_cancel(&entry(1, TrainingStatus::Pending), &1).is_ok());
    assert_eq!(check_cancel(&entry(1, TrainingStatus::Pending), &2).unwrap_err().description, "Training entry not found");
    assert_eq!(
        check_cancel(&entry(1, TrainingStatus::Completed), &1).unwrap_err().description,
        "Training cannot be cancelled"
    );
    assert!(refund_is_due(&(0, 0, 1, 0)));
    assert!(!refund_is_due(&(0, 0, 0, 0)));
}

#[test]
fn completion_is_idempotent() {
    assert!(needs_completion(&entry(1, TrainingStatus::InProgress)));
    assert!(!needs_completion(&entry(1, TrainingStatus::Completed)));
    assert!(!needs_completion(&entry(1, TrainingStatus::Cancelled)));
    let p = training_job_payload(&entry(1, TrainingStatus::InProgress));
    assert_eq!((p.training_queue_entry_id, p.player_id, p.unit_id, p.quantity), (77, 1, 9, 3));
}

#[test]
fn stored_names_read_back() {
    for t in [UnitType::Infantry, UnitType::Ranged, UnitType::Cavalry, UnitType::Artillery, UnitType::Magical] {
        assert_eq!(UnitType::from_text(t.as_str()), Ok(t));
    }
    for s in [TrainingStatus::Pending, TrainingStatus::InProgress, TrainingStatus::Completed, TrainingStatus::Cancelled] {
        assert_eq!(TrainingStatus::from_text(s.as_str()), Ok(s));
    }
    assert_eq!(TrainingStatus::InProgress.as_str(), "in_progress");
    assert_eq!(UnitType::from_text("archer"), Err("Unrecognized enum variant: archer".to_string()));
    assert_eq!(TrainingStatus::from_text("done"), Err("Unrecognized enum variant: done".to_string()));
}

#[test]
fn the_completion_job_runs_when_training_ends() {
    let e = entry(1, TrainingStatus::InProgress);
    let (job_type, payload, priority, run_at) = training_job_request(&e, 1_000_000, 90_000_000);
    assert_eq!(job_type, JobType::Training);
    assert_eq!(priority, JobPriority::Normal);
    assert_eq!(run_at, 91_000_000);
    assert_eq!(payload.training_queue_entry_id, 77);
    assert_eq!(payload.quantity, 3);
    let linked = with_job_id(&e, 4242);
    assert_eq!(linked.job_id, Some(4242));
    assert_eq!(linked.id, e.id);
    assert_eq!(linked.status, e.status);
}

#[test]
fn completing_twice_adds_the_units_once() {
    let e = entry(1, TrainingStatus::InProgress);
    let (done, owned) = complete_training(&e, 10, 500).unwrap();
    assert_eq!(done.status, TrainingStatus::Completed);
    assert_eq!(done.completed_at, Some(500));
    assert_eq!(owned, 13);
    let (again, owned_again) = complete_training(&done, owned, 900).unwrap();
    assert_eq!(again, done);
    assert_eq!(owned_again, 13);
    let cancelled = entry(1, TrainingStatus::Cancelled);
    assert_eq!(complete_training(&cancelled, 10, 0).unwrap(), (cancelled, 10));
    let err = complete_training(&e, i64::MAX, 0).unwrap_err();
    assert_eq!(err.description, "Failed to complete training");
}
