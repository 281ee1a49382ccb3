//! Decisions of unit training: what a batch costs, when a request is
//! refused, what is stored for an accepted one, and when a training can be
//! cancelled or still has to be completed.
use vstd::prelude::*;

use crate::domain::error::{fails_with, Error, ErrorKind};
use crate::domain::player::{PlayerBuilding, PlayerBuildingKey, PlayerKey, PlayerResource, ResourceAmounts};
use crate::domain::resource::ResourceType;
use crate::domain::unit::{NewTrainingQueueEntry, TrainingQueueEntry, TrainingStatus, UnitCost, UnitKey};
use crate::job_queue::{JobKey, JobPriority, JobType};

verus! {

/// Maximum number of concurrent training entries per building
pub const MAX_QUEUE_PER_BUILDING: i64 = 5;

/// Job payload for training completion jobs.
#[derive(Debug, Clone, Copy, PartialEq, Eq)]
pub struct TrainingJobPayload {
    pub training_queue_entry_id: u128,
    pub player_id: PlayerKey,
    pub unit_id: UnitKey,
    pub quantity: i32,
}

/// The per-unit cost in resource `r`: the last cost listed for it, 0 when
/// none is.
pub open spec fn unit_cost_in(costs: Seq<UnitCost>, r: ResourceType) -> int
    decreases costs.len(),
{
    if costs.len() == 0 {
        0
    } else if costs.last().resource == r {
        costs.last().amount as int
    } else {
        unit_cost_in(costs.drop_last(), r)
    }
}

/// The cost of training `quantity` units, in food, wood, stone and gold.
pub open spec fn total_cost(costs: Seq<UnitCost>, quantity: i32) -> (int, int, int, int) {
    (
        unit_cost_in(costs, ResourceType::Food) * quantity,
        unit_cost_in(costs, ResourceType::Wood) * quantity,
        unit_cost_in(costs, ResourceType::Stone) * quantity,
        unit_cost_in(costs, ResourceType::Gold) * quantity,
    )
}

/// Every cost in food, wood, stone or gold, times `quantity`, fits in 64 bits.
pub open spec fn costs_fit(costs: Seq<UnitCost>, quantity: i32) -> bool {
    forall|i: int|
        0 <= i < costs.len() && costs[i].resource != ResourceType::Population ==> i64::MIN <= (
        #[trigger] costs[i]).amount * quantity <= i64::MAX
}

/// The cost of training `quantity` units whose per-unit costs are `costs`;
/// a resource listed twice costs what its last listing says, and population
/// costs are ignored.
pub fn get_total_cost(costs: &Vec<UnitCost>, quantity: i32) -> (r: ResourceAmounts)
    requires
        costs_fit(costs@, quantity),
    ensures
        (r.0 as int, r.1 as int, r.2 as int, r.3 as int) == total_cost(costs@, quantity),
{
    let mut food: i64 = 0;
    let mut wood: i64 = 0;
    let mut stone: i64 = 0;
    let mut gold: i64 = 0;
    let n = costs.len();
    let mut i: usize = 0;
    while i < n
        invariant
            n == costs@.len(),
            i <= n,
            costs_fit(costs@, quantity),
            food == unit_cost_in(costs@.take(i as int), ResourceType::Food) * quantity,
            wood == unit_cost_in(costs@.take(i as int), ResourceType::Wood) * quantity,
            stone == unit_cost_in(costs@.take(i as int), ResourceType::Stone) * quantity,
            gold == unit_cost_in(costs@.take(i as int), ResourceType::Gold) * quantity,
        decreases n - i,
    {
        let cost = &costs[i];
        proof {
            assert(costs@.take(i + 1).drop_last() =~= costs@.take(i as int));
            assert(costs@.take(i + 1).last() == costs@[i as int]);
        }
        match cost.resource {
            ResourceType::Food => food = cost.amount * quantity as i64,
            ResourceType::Wood => wood = cost.amount * quantity as i64,
            ResourceType::Stone => stone = cost.amount * quantity as i64,
            ResourceType::Gold => gold = cost.amount * quantity as i64,
            ResourceType::Population => {},
        }
        i = i + 1;
    }
    assert(costs@.take(n as int) =~= costs@);
    (food, wood, stone, gold)
}

/// The building belongs to the player; else `StartTrainingError`.
pub fn validate_building_ownership(player_bld: &PlayerBuilding, player_id: &PlayerKey) -> (r: Result<(), Error>)
    ensures
        player_bld.player_id == *player_id ==> r is Ok,
        player_bld.player_id != *player_id ==> fails_with(
            r,
            ErrorKind::StartTrainingError,
            "Building not found",
        ),
{
    if player_bld.player_id != *player_id {
        return Err(Error::new(ErrorKind::StartTrainingError, "Building not found"));
    }
    Ok(())
}

/// The building trains the unit's class (`can_train`); else
/// `InvalidBuildingTypeError`.
pub fn validate_building_unit_match(can_train: bool) -> (r: Result<(), Error>)
    ensures
        can_train ==> r is Ok,
        !can_train ==> fails_with(
            r,
            ErrorKind::InvalidBuildingTypeError,
            "Building cannot train this unit type",
        ),
{
    if !can_train {
        return Err(
            Error::new(ErrorKind::InvalidBuildingTypeError, "Building cannot train this unit type"),
        );
    }
    Ok(())
}

/// What an accepted training request does: take the resources and store a
/// training entry in progress.
#[derive(Debug)]
pub struct TrainingOrder {
    pub deduction: ResourceAmounts,
    pub entry: NewTrainingQueueEntry,
}

/// Decides a request of `player_id` to train `quantity` units of `unit_id` at
/// the player's building `building_id` (stored as `player_bld`), given whether
/// the building trains the unit's class, the player's resources, the unit's
/// costs and how many trainings are active at the building. Refusals, in
/// order: a quantity that is not positive, a building of another player, a
/// building that does not train the unit, resources short of the cost; a
/// full queue (`MAX_QUEUE_PER_BUILDING` active trainings) fails the stored
/// step, reported as `StartTrainingError`. Otherwise the order takes the cost
/// and stores an entry in progress without a job yet.
pub fn start_training(
    player_id: &PlayerKey,
    building_id: &PlayerBuildingKey,
    unit_id: &UnitKey,
    quantity: i32,
    player_bld: &PlayerBuilding,
    can_train: bool,
    res: &PlayerResource,
    costs: &Vec<UnitCost>,
    active_count: i64,
) -> (r: Result<TrainingOrder, Error>)
    requires
        quantity > 0 ==> costs_fit(costs@, quantity),
    ensures
        quantity <= 0 ==> fails_with(r, ErrorKind::InvalidQuantityError, "Quantity must be positive"),
        quantity > 0 && player_bld.player_id != *player_id ==> fails_with(
            r,
            ErrorKind::StartTrainingError,
            "Building not found",
        ),
        quantity > 0 && player_bld.player_id == *player_id && !can_train ==> fails_with(
            r,
            ErrorKind::InvalidBuildingTypeError,
            "Building cannot train this unit type",
        ),
        ({
            let c = total_cost(costs@, quantity);
            let ok_so_far = quantity > 0 && player_bld.player_id == *player_id && can_train;
            &&& ok_so_far && !affordable(*res, c) ==> fails_with(
                r,
                ErrorKind::InsufficientResourcesError,
                "Not enough resources",
            )
            &&& ok_so_far && affordable(*res, c) && active_count >= MAX_QUEUE_PER_BUILDING
                ==> fails_with(r, ErrorKind::StartTrainingError, "Failed to start training")
            &&& ok_so_far && affordable(*res, c) && active_count < MAX_QUEUE_PER_BUILDING ==> (
            r matches Ok(o) && {
                &&& (o.deduction.0 as int, o.deduction.1 as int, o.deduction.2 as int, o.deduction.3 as int) == c
                &&& o.entry == NewTrainingQueueEntry {
                    player_id: *player_id,
                    building_id: *building_id,
                    unit_id: *unit_id,
                    quantity,
                    status: Some(TrainingStatus::InProgress),
                    job_id: None,
                }
            })
        }),
{
    if quantity <= 0 {
        return Err(Error::new(ErrorKind::InvalidQuantityError, "Quantity must be positive"));
    }
    validate_building_ownership(player_bld, player_id)?;
    validate_building_unit_match(can_train)?;
    let costs = get_total_cost(costs, quantity);
    let has_food = res.food >= costs.0;
    let has_wood = res.wood >= costs.1;
    let has_stone = res.stone >= costs.2;
    let has_gold = res.gold >= costs.3;
    if !(has_food && has_wood && has_stone && has_gold) {
        return Err(Error::new(ErrorKind::InsufficientResourcesError, "Not enough resources"));
    }
    if active_count >= MAX_QUEUE_PER_BUILDING {
        return Err(Error::new(ErrorKind::StartTrainingError, "Failed to start training"));
    }
    Ok(
        TrainingOrder {
            deduction: costs,
            entry: NewTrainingQueueEntry {
                player_id: *player_id,
                building_id: *building_id,
                unit_id: *unit_id,
                quantity,
                status: Some(TrainingStatus::InProgress),
                job_id: None,
            },
        },
    )
}

/// The player holds at least the cost `c` of every resource.
pub open spec fn affordable(res: PlayerResource, c: (int, int, int, int)) -> bool {
    &&& res.food >= c.0
    &&& res.wood >= c.1
    &&& res.stone >= c.2
    &&& res.gold >= c.3
}

/// Decides whether `player_id` may cancel a training entry: refused when
/// the entry is another player's, or already completed or cancelled.
pub fn check_cancel(entry: &TrainingQueueEntry, player_id: &PlayerKey) -> (r: Result<(), Error>)
    ensures
        entry.player_id != *player_id ==> fails_with(
            r,
            ErrorKind::CancelTrainingError,
            "Training entry not found",
        ),
        entry.player_id == *player_id && (entry.status == TrainingStatus::Completed
            || entry.status == TrainingStatus::Cancelled) ==> fails_with(
            r,
            ErrorKind::CancelTrainingError,
            "Training cannot be cancelled",
        ),
        entry.player_id == *player_id && entry.status != TrainingStatus::Completed && entry.status
            != TrainingStatus::Cancelled ==> r is Ok,
{
    if entry.player_id != *player_id {
        return Err(Error::new(ErrorKind::CancelTrainingError, "Training entry not found"));
    }
    if entry.status == TrainingStatus::Completed || entry.status == TrainingStatus::Cancelled {
        return Err(Error::new(ErrorKind::CancelTrainingError, "Training cannot be cancelled"));
    }
    Ok(())
}

/// A refund is paid out only when some amount of it is positive.
pub fn refund_is_due(refund: &ResourceAmounts) -> (b: bool)
    ensures
        b == (refund.0 > 0 || refund.1 > 0 || refund.2 > 0 || refund.3 > 0),
{
    refund.0 > 0 || refund.1 > 0 || refund.2 > 0 || refund.3 > 0
}

/// A training still has to be completed (its units added) unless it is
/// already completed or was cancelled; completing is thus idempotent.
pub fn needs_completion(entry: &TrainingQueueEntry) -> (b: bool)
    ensures
        b == (entry.status != TrainingStatus::Completed && entry.status
            != TrainingStatus::Cancelled),
{
    !(entry.status == TrainingStatus::Completed || entry.status == TrainingStatus::Cancelled)
}

/// The job payload that completes a stored training entry.
pub fn training_job_payload(entry: &TrainingQueueEntry) -> (p: TrainingJobPayload)
    ensures
        p == (TrainingJobPayload {
            training_queue_entry_id: entry.id,
            player_id: entry.player_id,
            unit_id: entry.unit_id,
            quantity: entry.quantity,
        }),
{
    TrainingJobPayload {
        training_queue_entry_id: entry.id,
        player_id: entry.player_id,
        unit_id: entry.unit_id,
        quantity: entry.quantity,
    }
}

/// The job that completes a stored training entry started at `now` and
/// lasting `duration` (both in microseconds): a training job of normal
/// priority, carrying the entry's payload, run when the training ends.
pub fn training_job_request(entry: &TrainingQueueEntry, now: i64, duration: i64) -> (r: (
    JobType,
    TrainingJobPayload,
    JobPriority,
    i64,
))
    requires
        i64::MIN <= now + duration <= i64::MAX,
    ensures
        r.0 == JobType::Training,
        r.1 == (TrainingJobPayload {
            training_queue_entry_id: entry.id,
            player_id: entry.player_id,
            unit_id: entry.unit_id,
            quantity: entry.quantity,
        }),
        r.2 == JobPriority::Normal,
        r.3 == now + duration,
{
    (JobType::Training, training_job_payload(entry), JobPriority::Normal, now + duration)
}

/// The stored entry once the job `job_id` that completes it is scheduled.
pub fn with_job_id(entry: &TrainingQueueEntry, job_id: JobKey) -> (e: TrainingQueueEntry)
    ensures
        e == (TrainingQueueEntry { job_id: Some(job_id), ..*entry }),
{
    TrainingQueueEntry { job_id: Some(job_id), ..*entry }
}

/// A training once completed at `now`, with `owned` units of its kind held
/// by its player: units added and the entry marked completed, unless it was
/// already completed or cancelled, which changes nothing.
pub open spec fn completion_of(entry: TrainingQueueEntry, owned: int, now: i64) -> (TrainingQueueEntry, int) {
    if entry.status == TrainingStatus::Completed || entry.status == TrainingStatus::Cancelled {
        (entry, owned)
    } else {
        (
            TrainingQueueEntry { status: TrainingStatus::Completed, completed_at: Some(now), ..entry },
            owned + entry.quantity,
        )
    }
}

/// Completes a training at `now` for a player holding `owned` units of its
/// kind: the entry and the new number of units, as `completion_of` says;
/// refused when that number would not fit in 64 bits.
pub fn complete_training(entry: &TrainingQueueEntry, owned: i64, now: i64) -> (r: Result<(TrainingQueueEntry, i64), Error>)
    ensures
        r matches Ok((e, n)) ==> (e, n as int) == completion_of(*entry, owned as int, now),
        r is Err ==> fails_with(r, ErrorKind::CompleteTrainingError, "Failed to complete training"),
        (i64::MIN <= completion_of(*entry, owned as int, now).1 <= i64::MAX) <==> r is Ok,
{
    if !needs_completion(entry) {
        return Ok((*entry, owned));
    }
    match owned.checked_add(entry.quantity as i64) {
        Some(n) => Ok((TrainingQueueEntry { status: TrainingStatus::Completed, completed_at: Some(now), ..*entry }, n)),
        None => Err(Error::new(ErrorKind::CompleteTrainingError, "Failed to complete training")),
    }
}

/// Completing a training is idempotent: completing it again, at any later
/// time, changes neither the entry nor the player's units.
pub proof fn lemma_complete_training_idempotent(entry: TrainingQueueEntry, owned: int, now: i64, later: i64)
    ensures
        completion_of(completion_of(entry, owned, now).0, completion_of(entry, owned, now).1, later)
            == completion_of(entry, owned, now),
{
}

} // verus!
