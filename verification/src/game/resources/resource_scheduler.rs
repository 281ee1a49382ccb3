//! The jobs that keep resource production going.
use vstd::prelude::*;

use crate::domain::player::PlayerKey;
use crate::job_queue::{JobPriority, JobType, ProductionJobPayload};

verus! {

/// How long after one production the next one runs, in microseconds.
pub const PRODUCTION_INTERVAL_MICROS: i64 = 120_000_000;

/// A production job: its type, payload, priority and start time.
pub type ProductionJob = (JobType, ProductionJobPayload, JobPriority, i64);

/// The job producing resources for `player_id` at `produce_at`.
pub open spec fn production_job_for(player_id: PlayerKey, produce_at: i64) -> ProductionJob {
    (
        JobType::Resource,
        ProductionJobPayload::ProduceResources { players_id: player_id },
        JobPriority::Normal,
        produce_at,
    )
}

/// The job that `schedule_production` enqueues: a resource job of normal
/// priority producing for the player at `produce_at`.
pub fn production_job(player_id: PlayerKey, produce_at: i64) -> (j: ProductionJob)
    ensures
        j == production_job_for(player_id, produce_at),
{
    (
        JobType::Resource,
        ProductionJobPayload::ProduceResources { players_id: player_id },
        JobPriority::Normal,
        produce_at,
    )
}

/// The jobs that `batch_schedule_production` enqueues: one production job
/// per player, in order.
pub fn production_jobs(player_keys: &Vec<PlayerKey>, produce_at: i64) -> (jobs: Vec<ProductionJob>)
    ensures
        jobs@.len() == player_keys@.len(),
        forall|i: int|
            0 <= i < player_keys@.len() ==> #[trigger] jobs@[i] == production_job_for(player_keys@[i], produce_at),
{
    let mut jobs: Vec<ProductionJob> = Vec::new();
    let mut i: usize = 0;
    while i < player_keys.len()
        invariant
            i <= player_keys@.len(),
            jobs@.len() == i,
            forall|j: int| 0 <= j < i ==> #[trigger] jobs@[j] == production_job_for(player_keys@[j], produce_at),
        decreases player_keys@.len() - i,
    {
        jobs.push(production_job(player_keys[i], produce_at));
        i = i + 1;
    }
    jobs
}

/// When the next production runs after one at `now`: two minutes later;
/// `None` when that instant does not fit in 64 bits.
pub fn next_production_at(now: i64) -> (t: Option<i64>)
    ensures
        match t {
            Some(t) => t == now + PRODUCTION_INTERVAL_MICROS,
            None => now + PRODUCTION_INTERVAL_MICROS > i64::MAX,
        },
{
    now.checked_add(PRODUCTION_INTERVAL_MICROS)
}

} // verus!
