use empire::domain::resource::ResourceType;
use empire::game::modifiers::modifier_scheduler::{
    cache_update_job, cache_update_jobs, expiration_job, recalculation_job, ModifierJobPayload,
};
use empire::game::resources::resource_scheduler::{next_production_at, production_job, production_jobs};
use empire::job_queue::{JobPriority, JobType, ProductionJobPayload};

#[test]
fn production_jobs_are_normal_resource_jobs() {
    let (t, p, prio, at) = production_job(9, 1000);
    assert_eq!(t, JobType::Resource);
    assert_eq!(p, ProductionJobPayload::ProduceResources { players_id: 9 });
    assert_eq!(prio, JobPriority::Normal);
    assert_eq!(at, 1000);
    let jobs = production_jobs(&vec![1, 2, 3], 5);
    assert_eq!(jobs.len(), 3);
    assert_eq!(jobs[2].1, ProductionJobPayload::ProduceResources { players_id: 3 });
}

#[test]
fn next_production_is_two_minutes_later() {
    assert_eq!(next_production_at(0), Some(120_000_000));
    assert_eq!(next_production_at(i64::MAX), None);
}

#[test]
fn modifier_jobs_have_their_priorities() {
    let (t, p, prio, at) = expiration_job(5, 6, 700);
    assert_eq!((t, prio, at), (JobType::Modifier, JobPriority::Normal, 700));
    assert_eq!(p, ModifierJobPayload::ExpireModifier { modifier_id: 5, player_id: 6 });
    let (_, p, prio, at) = recalculation_job(6, vec![ResourceType::Food], 800);
    assert_eq!((prio, at), (JobPriority::High, 800));
    assert_eq!(
        p,
        ModifierJobPayload::RecalculateResources { player_id: 6, resource_types: vec![ResourceType::Food] }
    );
    let (_, p, prio, _) = cache_update_job(6, 900);
    assert_eq!(prio, JobPriority::Low);
    assert_eq!(p, ModifierJobPayload::UpdateModifierCache { player_id: 6 });
    assert_eq!(cache_update_jobs(&vec![1, 2], 3).len(), 2);
}
