//! Policy of the background job queue: how jobs are created, which job a
//! worker takes next and how it is locked, when a stuck job is reclaimed,
//! and what completing or failing a job records, including how long a
//! failed job waits before its next attempt. Instants are Unix microseconds.
use vstd::arithmetic::power2::{lemma2_to64, lemma_pow2_unfold, pow2};
use vstd::prelude::*;

use crate::domain::player::PlayerKey;

verus! {

/// Identifier of a job (the 128-bit value of its UUID).
pub type JobKey = u128;

/// How urgent a job is; lower ranks run first.
#[derive(Debug, Clone, Copy, PartialEq, Eq, Structural)]
pub enum JobPriority {
    High,
    Normal,
    Low,
}

impl JobPriority {
    /// The stored rank of a priority.
    pub open spec fn rank(self) -> i32 {
        match self {
            JobPriority::High => 0,
            JobPriority::Normal => 50,
            JobPriority::Low => 100,
        }
    }

    /// The stored rank of this priority: 0, 50 or 100.
    pub fn value(&self) -> (v: i32)
        ensures
            v == self.rank(),
    {
        match self {
            JobPriority::High => 0,
            JobPriority::Normal => 50,
            JobPriority::Low => 100,
        }
    }
}

/// The kind of work a job does.
#[derive(Debug, Clone, Copy, PartialEq, Eq, Structural)]
pub enum JobType {
    Modifier,
    Resource,
    Training,
}

/// Where a job stands.
#[derive(Debug, Clone, Copy, PartialEq, Eq, Structural)]
pub enum JobStatus {
    Pending,
    InProgress,
    Completed,
    Failed,
}

/// How many times a failed job is retried.
pub const MAX_RETRIES: i32 = 3;

/// How long a job may run, in seconds.
pub const JOB_TIMEOUT_SECONDS: i32 = 300;

/// The error recorded on a job that was reclaimed as stuck.
pub const STUCK_JOB_ERROR: &'static str = "Job timed out after 5min";

/// How long a job may stay locked before it is taken as stuck, in microseconds.
pub const STUCK_AFTER_MICROS: i64 = 5_000_000;

/// The longest wait before a retry, in seconds.
pub const MAX_BACKOFF_SECONDS: i64 = 300;

/// The wait before the first retry, in seconds.
pub const BASE_BACKOFF_SECONDS: i64 = 30;

/// A job about to be stored; `payload` is its JSON text.
#[derive(Debug, Clone, PartialEq, Eq)]
pub struct NewJob {
    pub job_type: JobType,
    pub status: JobStatus,
    pub payload: String,
    pub run_at: i64,
    pub last_error: Option<String>,
    pub max_retries: i32,
    pub priority: i32,
    pub timeout_seconds: i32,
}

/// A stored job, as far as scheduling reads it.
#[derive(Debug, Clone, PartialEq, Eq)]
pub struct JobRecord {
    pub id: JobKey,
    pub job_type: JobType,
    pub status: JobStatus,
    pub run_at: i64,
    pub retries: i32,
    pub max_retries: i32,
    pub priority: i32,
    pub locked_at: Option<i64>,
    pub last_error: Option<String>,
    pub locked_by: Option<String>,
}

/// A job request: type, JSON payload, priority and start time.
pub type JobRequest = (JobType, String, JobPriority, i64);

/// The job that `enqueue` stores for a request: pending, no error yet, the
/// standard retry count and timeout, and the rank of its priority.
pub open spec fn job_for(job_type: JobType, payload: String, priority: JobPriority, run_at: i64) -> NewJob {
    NewJob {
        job_type,
        status: JobStatus::Pending,
        payload,
        run_at,
        last_error: None,
        max_retries: MAX_RETRIES,
        priority: priority.rank(),
        timeout_seconds: JOB_TIMEOUT_SECONDS,
    }
}

/// The job to store for a request.
pub fn new_job(job_type: JobType, payload: String, priority: JobPriority, run_at: i64) -> (j: NewJob)
    ensures
        j == job_for(job_type, payload, priority, run_at),
{
    NewJob {
        job_type,
        status: JobStatus::Pending,
        payload,
        run_at,
        last_error: None,
        max_retries: MAX_RETRIES,
        priority: priority.value(),
        timeout_seconds: JOB_TIMEOUT_SECONDS,
    }
}

/// The jobs to store for a batch of requests, in order.
pub fn new_jobs(requests: Vec<JobRequest>) -> (jobs: Vec<NewJob>)
    ensures
        jobs@.len() == requests@.len(),
        forall|i: int|
            0 <= i < requests@.len() ==> #[trigger] jobs@[i] == job_for(
                requests@[i].0,
                requests@[i].1,
                requests@[i].2,
                requests@[i].3,
            ),
{
    let mut requests = requests;
    let ghost reqs = requests@;
    let n = requests.len();
    let mut jobs: Vec<NewJob> = Vec::new();
    let mut rest: Vec<JobRequest> = Vec::new();
    // take the requests from the back, then put the jobs in order
    while requests.len() > 0
        invariant
            requests@ == reqs.take(requests@.len() as int),
            requests@.len() <= n,
            n == reqs.len(),
            rest@.len() == n - requests@.len(),
            forall|i: int|
                0 <= i < rest@.len() ==> #[trigger] rest@[i] == reqs[n - 1 - i],
        decreases requests@.len(),
    {
        let r = requests.pop().unwrap();
        rest.push(r);
        assert(requests@ =~= reqs.take(requests@.len() as int));
    }
    while rest.len() > 0
        invariant
            n == reqs.len(),
            jobs@.len() + rest@.len() == n,
            forall|i: int| 0 <= i < rest@.len() ==> #[trigger] rest@[i] == reqs[n - 1 - i],
            forall|i: int|
                0 <= i < jobs@.len() ==> #[trigger] jobs@[i] == job_for(
                    reqs[i].0,
                    reqs[i].1,
                    reqs[i].2,
                    reqs[i].3,
                ),
        decreases rest@.len(),
    {
        let (job_type, payload, priority, run_at) = rest.pop().unwrap();
        jobs.push(new_job(job_type, payload, priority, run_at));
    }
    jobs
}

/// A running job has stayed locked for longer than `STUCK_AFTER_MICROS`
/// before `now`, and is to be marked failed and unlocked.
pub open spec fn stuck(job: JobRecord, now: i64) -> bool {
    &&& job.status == JobStatus::InProgress
    &&& job.locked_at matches Some(t) && t < now - STUCK_AFTER_MICROS
}

/// Whether a job is stuck at `now`.
pub fn is_stuck(job: &JobRecord, now: i64) -> (b: bool)
    ensures
        b == stuck(*job, now),
{
    match job.locked_at {
        Some(t) => job.status == JobStatus::InProgress && (t as i128) < (now as i128)
            - STUCK_AFTER_MICROS as i128,
        None => false,
    }
}

/// A job a worker for `job_type` may take at `now`: pending, or failed
/// with retries left; due; unlocked; and of that type.
pub open spec fn runnable(job: JobRecord, job_type: JobType, now: i64) -> bool {
    &&& (job.status == JobStatus::Pending || (job.status == JobStatus::Failed && job.retries
        <= job.max_retries))
    &&& job.run_at <= now
    &&& job.locked_at is None
    &&& job.job_type == job_type
}

/// Whether a job may be taken at `now` by a worker for `job_type`.
pub fn is_runnable(job: &JobRecord, job_type: JobType, now: i64) -> (b: bool)
    ensures
        b == runnable(*job, job_type, now),
{
    (job.status == JobStatus::Pending || (job.status == JobStatus::Failed && job.retries
        <= job.max_retries)) && job.run_at <= now && job.locked_at.is_none() && job.job_type
        == job_type
}

/// `a` comes before `b`: a lower priority rank, or the same rank and an
/// earlier start.
pub open spec fn runs_before(a: JobRecord, b: JobRecord) -> bool {
    a.priority < b.priority || (a.priority == b.priority && a.run_at < b.run_at)
}

/// `r` is the job a worker for `job_type` takes from `jobs` at `now`: a
/// runnable job that no runnable job comes before (by priority rank, then
/// start time), or none when no job is runnable.
pub open spec fn next_pick(jobs: Seq<JobRecord>, r: Option<usize>, job_type: JobType, now: i64) -> bool {
    &&& r is None <==> !(exists|i: int| 0 <= i < jobs.len() && runnable(#[trigger] jobs[i], job_type, now))
    &&& r matches Some(i) ==> i < jobs.len() && runnable(jobs[i as int], job_type, now)
    &&& r matches Some(i) ==> forall|j: int|
        0 <= j < jobs.len() && runnable(#[trigger] jobs[j], job_type, now) ==> !runs_before(
            jobs[j],
            jobs[i as int],
        )
}

/// The job a worker for `job_type` takes at `now`.
pub fn pick_next_job(jobs: &Vec<JobRecord>, job_type: JobType, now: i64) -> (r: Option<usize>)
    ensures
        next_pick(jobs@, r, job_type, now),
{
    let n = jobs.len();
    let mut best: Option<usize> = None;
    let mut i: usize = 0;
    while i < n
        invariant
            n == jobs@.len(),
            i <= n,
            best is None <==> !(exists|j: int| 0 <= j < i && runnable(#[trigger] jobs@[j], job_type, now)),
            best matches Some(b) ==> b < i && runnable(jobs@[b as int], job_type, now),
            best matches Some(b) ==> forall|j: int|
                0 <= j < i && runnable(#[trigger] jobs@[j], job_type, now) ==> !runs_before(
                    jobs@[j],
                    jobs@[b as int],
                ),
        decreases n - i,
    {
        if is_runnable(&jobs[i], job_type, now) {
            match best {
                None => {
                    best = Some(i);
                },
                Some(b) => {
                    let cand = &jobs[i];
                    let cur = &jobs[b];
                    if cand.priority < cur.priority || (cand.priority == cur.priority
                        && cand.run_at < cur.run_at) {
                        best = Some(i);
                    }
                },
            }
        }
        i = i + 1;
    }
    best
}

/// The retry count after a failure: it grows by one when the job had
/// failed before (it carries an error), else stays.
pub open spec fn retries_after(retries: i32, failed_before: bool) -> int {
    if failed_before {
        retries + 1
    } else {
        retries as int
    }
}

/// The wait before the next attempt: `30 * 2^(retries - 1)` seconds, at most
/// 300, and none before the first retry.
pub open spec fn backoff_for(retries: int) -> int {
    if retries > 0 {
        let b = BASE_BACKOFF_SECONDS * pow2((retries - 1) as nat);
        if b < MAX_BACKOFF_SECONDS {
            b
        } else {
            MAX_BACKOFF_SECONDS as int
        }
    } else {
        0
    }
}

/// How a failed job is rescheduled: its new retry count and the wait before
/// its next attempt, in seconds. The count must stay small enough for the
/// wait to be computed in 64 bits.
pub fn retry_after_failure(retries: i32, failed_before: bool) -> (r: (i32, i64))
    requires
        retries_after(retries, failed_before) <= 59,
    ensures
        r.0 == retries_after(retries, failed_before),
        r.1 == backoff_for(r.0 as int),
{
    let new_retries: i32 = if failed_before {
        retries + 1
    } else {
        retries
    };
    if new_retries <= 0 {
        return (new_retries, 0);
    }
    // doubling past the cap cannot bring the wait under it again
    let mut b: i64 = BASE_BACKOFF_SECONDS;
    let mut k: i32 = 1;
    proof {
        lemma2_to64();
    }
    while k < new_retries && b < MAX_BACKOFF_SECONDS
        invariant
            1 <= k <= new_retries,
            new_retries <= 59,
            b == BASE_BACKOFF_SECONDS * pow2((k - 1) as nat),
        decreases new_retries - k,
    {
        proof {
            lemma_pow2_unfold(k as nat);
        }
        b = b * 2;
        k = k + 1;
    }
    proof {
        if k < new_retries {
            lemma_pow2_grows(BASE_BACKOFF_SECONDS * pow2((k - 1) as nat), (k - 1) as nat, (new_retries - 1) as nat);
        }
    }
    let wait = if b < MAX_BACKOFF_SECONDS {
        b
    } else {
        MAX_BACKOFF_SECONDS
    };
    (new_retries, wait)
}

proof fn lemma_pow2_grows(b: int, e1: nat, e2: nat)
    requires
        e1 <= e2,
        b == BASE_BACKOFF_SECONDS * pow2(e1),
    ensures
        BASE_BACKOFF_SECONDS * pow2(e2) >= b,
    decreases e2 - e1,
{
    if e1 < e2 {
        lemma_pow2_unfold((e1 + 1) as nat);
        lemma_pow2_grows(BASE_BACKOFF_SECONDS * pow2((e1 + 1) as nat), (e1 + 1) as nat, e2);
    }
}

/// `a` and `b` are the same job with the same schedule and retry state.
pub open spec fn same_job(a: JobRecord, b: JobRecord) -> bool {
    &&& a.id == b.id
    &&& a.job_type == b.job_type
    &&& a.run_at == b.run_at
    &&& a.retries == b.retries
    &&& a.max_retries == b.max_retries
    &&& a.priority == b.priority
}

/// `after` is `before` once stuck jobs are reclaimed at `now`: a stuck job
/// becomes failed, unlocked, with `STUCK_JOB_ERROR` as its error; any other
/// job stays as it was.
pub open spec fn reclaimed(before: JobRecord, after: JobRecord, now: i64) -> bool {
    if stuck(before, now) {
        &&& same_job(before, after)
        &&& after.status == JobStatus::Failed
        &&& after.last_error matches Some(e) && e@ == STUCK_JOB_ERROR@
        &&& after.locked_at is None
        &&& after.locked_by is None
    } else {
        after == before
    }
}

/// Every job of `after` is the job of `before` at the same place, reclaimed at `now`.
pub open spec fn reclaim_of(before: Seq<JobRecord>, after: Seq<JobRecord>, now: i64) -> bool {
    &&& after.len() == before.len()
    &&& forall|k: int| 0 <= k < before.len() ==> reclaimed(before[k], #[trigger] after[k], now)
}

/// `after` is `before` taken by `worker` at `now`: running, locked at `now`
/// by that worker, all else unchanged.
pub open spec fn locked_by_worker(before: JobRecord, after: JobRecord, worker: Seq<char>, now: i64) -> bool {
    &&& same_job(before, after)
    &&& after.last_error == before.last_error
    &&& after.status == JobStatus::InProgress
    &&& after.locked_at == Some(now)
    &&& after.locked_by matches Some(w) && w@ == worker
}

/// `after` is `jobs` once the job at `r`, if any, is taken by `worker` at `now`.
pub open spec fn claimed_in(jobs: Seq<JobRecord>, after: Seq<JobRecord>, r: Option<usize>, worker: Seq<char>, now: i64) -> bool {
    match r {
        None => after == jobs,
        Some(i) => {
            &&& after.len() == jobs.len()
            &&& locked_by_worker(jobs[i as int], after[i as int], worker, now)
            &&& forall|k: int| 0 <= k < jobs.len() && k != i ==> #[trigger] after[k] == jobs[k]
        },
    }
}

fn copy_text(t: &Option<String>) -> (r: Option<String>)
    ensures
        r == *t,
{
    match t {
        Some(s) => Some(s.clone()),
        None => None,
    }
}

/// Marks every job that is stuck at `now` as failed and unlocks it.
pub fn reclaim_stuck_jobs(jobs: &mut Vec<JobRecord>, now: i64)
    ensures
        reclaim_of(old(jobs)@, final(jobs)@, now),
{
    let ghost before = jobs@;
    let n = jobs.len();
    let mut i: usize = 0;
    while i < n
        invariant
            n == before.len(),
            jobs@.len() == n,
            i <= n,
            forall|k: int| 0 <= k < i ==> reclaimed(before[k], #[trigger] jobs@[k], now),
            forall|k: int| i <= k < n ==> #[trigger] jobs@[k] == before[k],
        decreases n - i,
    {
        if is_stuck(&jobs[i], now) {
            let j = &jobs[i];
            let failed = JobRecord {
                id: j.id,
                job_type: j.job_type,
                status: JobStatus::Failed,
                run_at: j.run_at,
                retries: j.retries,
                max_retries: j.max_retries,
                priority: j.priority,
                locked_at: None,
                last_error: Some(STUCK_JOB_ERROR.to_owned()),
                locked_by: None,
            };
            jobs.set(i, failed);
        }
        i = i + 1;
    }
}

/// The job taken by `worker_id` at `now`: running and locked by that worker.
pub fn lock_job(job: &JobRecord, worker_id: &str, now: i64) -> (r: JobRecord)
    ensures
        locked_by_worker(*job, r, worker_id@, now),
{
    JobRecord {
        id: job.id,
        job_type: job.job_type,
        status: JobStatus::InProgress,
        run_at: job.run_at,
        retries: job.retries,
        max_retries: job.max_retries,
        priority: job.priority,
        locked_at: Some(now),
        last_error: copy_text(&job.last_error),
        locked_by: Some(worker_id.to_owned()),
    }
}

/// Takes the next job of `requested_type` for `worker_id` at `now`: first
/// reclaims the stuck jobs, then picks the next runnable job and locks it.
/// Returns its place, or `None` when no job is runnable.
pub fn get_next_job_of_type(
    jobs: &mut Vec<JobRecord>,
    worker_id: &str,
    requested_type: JobType,
    now: i64,
) -> (r: Option<usize>)
    ensures
        exists|mid: Seq<JobRecord>|
            #[trigger] reclaim_of(old(jobs)@, mid, now) && next_pick(mid, r, requested_type, now)
                && claimed_in(mid, final(jobs)@, r, worker_id@, now),
{
    reclaim_stuck_jobs(jobs, now);
    let ghost mid = jobs@;
    let r = pick_next_job(jobs, requested_type, now);
    match r {
        Some(i) => {
            let locked = lock_job(&jobs[i], worker_id, now);
            jobs.set(i, locked);
        },
        None => {},
    }
    assert(reclaim_of(old(jobs)@, mid, now) && next_pick(mid, r, requested_type, now)
        && claimed_in(mid, jobs@, r, worker_id@, now));
    r
}

/// A job once taken by a worker is not runnable, so no other worker takes
/// it until it is completed, failed or reclaimed.
pub proof fn lemma_taken_job_is_not_runnable(
    before: JobRecord,
    after: JobRecord,
    worker: Seq<char>,
    now: i64,
    job_type: JobType,
    later: i64,
)
    requires
        locked_by_worker(before, after, worker, now),
    ensures
        !runnable(after, job_type, later),
{
}

/// `after` is `job` marked completed and unlocked, all else unchanged.
pub open spec fn completed(job: JobRecord, after: JobRecord) -> bool {
    &&& same_job(job, after)
    &&& after.last_error == job.last_error
    &&& after.status == JobStatus::Completed
    &&& after.locked_at is None
    &&& after.locked_by is None
}

/// The job once it has completed.
pub fn complete_job(job: &JobRecord) -> (r: JobRecord)
    ensures
        completed(*job, r),
{
    JobRecord {
        id: job.id,
        job_type: job.job_type,
        status: JobStatus::Completed,
        run_at: job.run_at,
        retries: job.retries,
        max_retries: job.max_retries,
        priority: job.priority,
        locked_at: None,
        last_error: copy_text(&job.last_error),
        locked_by: None,
    }
}

/// `after` is `job` failed at `now` with `error`: failed, unlocked, the error
/// stored, the retry count raised when it had failed before, and its next
/// attempt put off by the back-off of that count.
pub open spec fn failed(job: JobRecord, after: JobRecord, error: Seq<char>, now: i64) -> bool {
    &&& after.id == job.id
    &&& after.job_type == job.job_type
    &&& after.max_retries == job.max_retries
    &&& after.priority == job.priority
    &&& after.status == JobStatus::Failed
    &&& after.retries == retries_after(job.retries, job.last_error is Some)
    &&& after.run_at == now + backoff_for(after.retries as int) * 1_000_000
    &&& after.last_error matches Some(e) && e@ == error
    &&& after.locked_at is None
    &&& after.locked_by is None
}

/// The job once it has failed at `now` with `error`.
pub fn fail_job(job: &JobRecord, error: &str, now: i64) -> (r: JobRecord)
    requires
        retries_after(job.retries, job.last_error is Some) <= 59,
        now <= i64::MAX - MAX_BACKOFF_SECONDS * 1_000_000,
    ensures
        failed(*job, r, error@, now),
{
    let (retries, wait) = retry_after_failure(job.retries, job.last_error.is_some());
    JobRecord {
        id: job.id,
        job_type: job.job_type,
        status: JobStatus::Failed,
        run_at: now + wait * 1_000_000,
        retries,
        max_retries: job.max_retries,
        priority: job.priority,
        locked_at: None,
        last_error: Some(error.to_owned()),
        locked_by: None,
    }
}

/// Work to do for a player's resources.
#[derive(Debug, Clone, Copy, PartialEq, Eq)]
pub enum ProductionJobPayload {
    ProduceResources { players_id: PlayerKey },
    CollectResources { players_id: PlayerKey },
}

} // verus!
