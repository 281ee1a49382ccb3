use empire::job_queue::{
    complete_job, fail_job, get_next_job_of_type, is_runnable, is_stuck, lock_job, new_job,
    new_jobs, pick_next_job, reclaim_stuck_jobs, retry_after_failure, JobPriority, JobRecord,
    JobStatus, JobType, JOB_TIMEOUT_SECONDS, MAX_RETRIES, STUCK_JOB_ERROR,
};

fn job(id: u128, status: JobStatus, priority: i32, run_at: i64) -> JobRecord {
    JobRecord {
        id,
        job_type: JobType::Resource,
        status,
        run_at,
        retries: 0,
        max_retries: 3,
        priority,
        locked_at: None,
        last_error: None,
        locked_by: None,
    }
}

#[test]
fn new_jobs_are_pending_with_standard_limits() {
    let j = new_job(JobType::Training, "{}".to_string(), JobPriority::High, 42);
    assert_eq!(j.status, JobStatus::Pending);
    assert_eq!(j.priority, 0);
    assert_eq!(j.max_retries, MAX_RETRIES);
    assert_eq!(j.timeout_seconds, JOB_TIMEOUT_SECONDS);
    assert_eq!(j.run_at, 42);
    assert_eq!(JobPriority::Low.value(), 100);
    let jobs = new_jobs(vec![
        (JobType::Modifier, "a".to_string(), JobPriority::Normal, 1),
        (JobType::Resource, "b".to_string(), JobPriority::Low, 2),
    ]);
    assert_eq!(jobs.len(), 2);
    assert_eq!(jobs[0].payload, "a");
    assert_eq!(jobs[1].priority, 100);
}

#[test]
fn the_most_urgent_due_job_is_picked() {
    let jobs = vec![
        job(1, JobStatus::Pending, 50, 10),
        job(2, JobStatus::Pending, 0, 90),
        job(3, JobStatus::Pending, 0, 200),
        job(4, JobStatus::Completed, 0, 0),
        job(5, JobStatus::Pending, 0, 20),
    ];
    assert_eq!(pick_next_job(&jobs, JobType::Resource, 100), Some(4));
    assert_eq!(pick_next_job(&jobs, JobType::Modifier, 100), None);
    assert_eq!(pick_next_job(&jobs, JobType::Resource, 5), None);
}

#[test]
fn failed_jobs_run_again_while_retries_remain() {
    let mut failed = job(1, JobStatus::Failed, 0, 0);
    failed.retries = 3;
    assert!(is_runnable(&failed, JobType::Resource, 0));
    failed.retries = 4;
    assert!(!is_runnable(&failed, JobType::Resource, 0));
    let mut locked = job(2, JobStatus::Pending, 0, 0);
    locked.locked_at = Some(0);
    assert!(!is_runnable(&locked, JobType::Resource, 0));
}

#[test]
fn stuck_jobs() {
    let mut running = job(1, JobStatus::InProgress, 0, 0);
    running.locked_at = Some(0);
    assert!(!is_stuck(&running, 5_000_000));
    assert!(is_stuck(&running, 5_000_001));
    running.status = JobStatus::Pending;
    assert!(!is_stuck(&running, 10_000_000));
}

#[test]
fn backoff_doubles_up_to_five_minutes() {
    assert_eq!(retry_after_failure(0, false), (0, 0));
    assert_eq!(retry_after_failure(0, true), (1, 30));
    assert_eq!(retry_after_failure(1, true), (2, 60));
    assert_eq!(retry_after_failure(3, true), (4, 240));
    assert_eq!(retry_after_failure(4, true), (5, 300));
    assert_eq!(retry_after_failure(40, false), (40, 300));
}

#[test]
fn stuck_jobs_are_reclaimed_as_failed() {
    let mut running = job(1, JobStatus::InProgress, 0, 0);
    running.locked_at = Some(0);
    running.locked_by = Some("worker-a".to_string());
    let mut fresh = job(2, JobStatus::InProgress, 0, 0);
    fresh.locked_at = Some(9_000_000);
    let mut jobs = vec![running, fresh.clone()];
    reclaim_stuck_jobs(&mut jobs, 10_000_000);
    assert_eq!(jobs[0].status, JobStatus::Failed);
    assert_eq!(jobs[0].last_error.as_deref(), Some("Job timed out after 5min"));
    assert_eq!(jobs[0].last_error.as_deref(), Some(STUCK_JOB_ERROR));
    assert_eq!(jobs[0].locked_at, None);
    assert_eq!(jobs[0].locked_by, None);
    assert_eq!(jobs[1], fresh);
}

#[test]
fn the_next_job_is_locked_by_its_worker() {
    let mut jobs = vec![
        job(1, JobStatus::Pending, 50, 10),
        job(2, JobStatus::Pending, 0, 20),
        job(3, JobStatus::Completed, 0, 0),
    ];
    let picked = get_next_job_of_type(&mut jobs, "worker-7", JobType::Resource, 100);
    assert_eq!(picked, Some(1));
    assert_eq!(jobs[1].status, JobStatus::InProgress);
    assert_eq!(jobs[1].locked_at, Some(100));
    assert_eq!(jobs[1].locked_by.as_deref(), Some("worker-7"));
    assert_eq!(jobs[0].status, JobStatus::Pending);
    assert_eq!(get_next_job_of_type(&mut jobs, "worker-7", JobType::Modifier, 100), None);
}

#[test]
fn a_reclaimed_job_can_be_taken_again_at_once() {
    let mut stuck = job(1, JobStatus::InProgress, 0, 0);
    stuck.locked_at = Some(0);
    let mut jobs = vec![stuck];
    let picked = get_next_job_of_type(&mut jobs, "w", JobType::Resource, 6_000_000);
    assert_eq!(picked, Some(0));
    assert_eq!(jobs[0].status, JobStatus::InProgress);
    assert_eq!(jobs[0].last_error.as_deref(), Some("Job timed out after 5min"));
    assert_eq!(jobs[0].locked_at, Some(6_000_000));
}

#[test]
fn locking_and_completing_keep_the_job() {
    let mut j = job(4, JobStatus::Pending, 50, 7);
    j.last_error = Some("earlier".to_string());
    let locked = lock_job(&j, "w1", 8);
    assert_eq!(locked.status, JobStatus::InProgress);
    assert_eq!(locked.last_error.as_deref(), Some("earlier"));
    let done = complete_job(&locked);
    assert_eq!(done.status, JobStatus::Completed);
    assert_eq!(done.locked_at, None);
    assert_eq!(done.locked_by, None);
    assert_eq!(done.run_at, 7);
}

#[test]
fn a_failed_job_waits_out_its_backoff() {
    let mut j = job(5, JobStatus::InProgress, 0, 0);
    j.locked_at = Some(1);
    j.locked_by = Some("w".to_string());
    let first = fail_job(&j, "boom", 1_000);
    assert_eq!(first.status, JobStatus::Failed);
    assert_eq!(first.retries, 0);
    assert_eq!(first.run_at, 1_000);
    assert_eq!(first.last_error.as_deref(), Some("boom"));
    assert_eq!(first.locked_at, None);
    assert_eq!(first.locked_by, None);
    let second = fail_job(&first, "again", 2_000);
    assert_eq!(second.retries, 1);
    assert_eq!(second.run_at, 2_000 + 30_000_000);
    assert_eq!(second.last_error.as_deref(), Some("again"));
}
