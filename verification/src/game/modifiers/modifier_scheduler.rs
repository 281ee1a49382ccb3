//! The jobs that maintain modifiers: expiring them, recalculating the
//! resources they affect, and refreshing cached totals.
use vstd::prelude::*;

use crate::domain::player::PlayerKey;
use crate::domain::resource::ResourceType;
use crate::job_queue::{JobPriority, JobType};

verus! {

/// Work to do for a player's modifiers.
#[derive(Debug, Clone, PartialEq, Eq)]
pub enum ModifierJobPayload {
    /// An active modifier (the 128-bit value of its UUID) runs out
    ExpireModifier { modifier_id: u128, player_id: PlayerKey },
    /// The production of these resources is to be recalculated
    RecalculateResources { player_id: PlayerKey, resource_types: Vec<ResourceType> },
    /// The player's cached totals are to be refreshed
    UpdateModifierCache { player_id: PlayerKey },
}

/// A modifier job: its type, payload, priority and start time.
pub type ModifierJob = (JobType, ModifierJobPayload, JobPriority, i64);

/// The job expiring a modifier: normal priority, at its expiry.
pub fn expiration_job(modifier_id: u128, player_id: PlayerKey, expires_at: i64) -> (j: ModifierJob)
    ensures
        j == (
            JobType::Modifier,
            ModifierJobPayload::ExpireModifier { modifier_id, player_id },
            JobPriority::Normal,
            expires_at,
        ),
{
    (JobType::Modifier, ModifierJobPayload::ExpireModifier { modifier_id, player_id }, JobPriority::Normal, expires_at)
}

/// The job recalculating a player's resources: high priority, since it
/// affects the player's resources, and run at once.
pub fn recalculation_job(player_id: PlayerKey, resource_types: Vec<ResourceType>, now: i64) -> (j: ModifierJob)
    ensures
        j == (
            JobType::Modifier,
            ModifierJobPayload::RecalculateResources { player_id, resource_types },
            JobPriority::High,
            now,
        ),
{
    (
        JobType::Modifier,
        ModifierJobPayload::RecalculateResources { player_id, resource_types },
        JobPriority::High,
        now,
    )
}

/// The job refreshing a player's cached totals: low priority, at `run_at`.
pub open spec fn cache_update_job_for(player_id: PlayerKey, run_at: i64) -> ModifierJob {
    (JobType::Modifier, ModifierJobPayload::UpdateModifierCache { player_id }, JobPriority::Low, run_at)
}

/// The job refreshing a player's cached totals.
pub fn cache_update_job(player_id: PlayerKey, run_at: i64) -> (j: ModifierJob)
    ensures
        j == cache_update_job_for(player_id, run_at),
{
    (JobType::Modifier, ModifierJobPayload::UpdateModifierCache { player_id }, JobPriority::Low, run_at)
}

/// The jobs refreshing the cached totals of several players, in order.
pub fn cache_update_jobs(player_ids: &Vec<PlayerKey>, run_at: i64) -> (jobs: Vec<ModifierJob>)
    ensures
        jobs@.len() == player_ids@.len(),
        forall|i: int| 0 <= i < player_ids@.len() ==> #[trigger] jobs@[i] == cache_update_job_for(player_ids@[i], run_at),
{
    let mut jobs: Vec<ModifierJob> = Vec::new();
    let mut i: usize = 0;
    while i < player_ids.len()
        invariant
            i <= player_ids@.len(),
            jobs@.len() == i,
            forall|j: int| 0 <= j < i ==> #[trigger] jobs@[j] == cache_update_job_for(player_ids@[j], run_at),
        decreases player_ids@.len() - i,
    {
        jobs.push(cache_update_job(player_ids[i], run_at));
        i = i + 1;
    }
    jobs
}

} // verus!
