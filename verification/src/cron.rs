//! Scheduled jobs: their definitions, whether they run, and when they last and next run.

use vstd::prelude::*;
use crate::clock::{new_uuid, now_timestamp, MAX_TIMESTAMP};
use crate::error::AppError;
use crate::rbac::lists_map;
use crate::store::{record_entries, Record, Store};
use crate::text::concat3;

verus! {

/// How many seconds after being started a job next runs.
pub const NEXT_RUN_DELAY: i64 = 60;

/// A scheduled job.
#[derive(Debug)]
pub struct CronJob {
    pub id: String,
    pub name: String,
    pub expression: String,
    pub command: String,
    pub running: bool,
    pub last_run: Option<i64>,
    pub next_run: Option<i64>,
    pub created_at: i64,
}

/// The value of a job.
pub struct CronJobView {
    pub id: Seq<char>,
    pub name: Seq<char>,
    pub expression: Seq<char>,
    pub command: Seq<char>,
    pub running: bool,
    pub last_run: Option<i64>,
    pub next_run: Option<i64>,
    pub created_at: i64,
}

impl View for CronJob {
    type V = CronJobView;

    open spec fn view(&self) -> CronJobView {
        CronJobView {
            id: self.id@,
            name: self.name@,
            expression: self.expression@,
            command: self.command@,
            running: self.running,
            last_run: self.last_run,
            next_run: self.next_run,
            created_at: self.created_at,
        }
    }
}

impl Record for CronJob {
    open spec fn key_of(v: CronJobView) -> Seq<char> {
        v.id
    }

    fn key(&self) -> (r: &str) {
        self.id.as_str()
    }

    fn duplicate(&self) -> (r: Self) {
        CronJob {
            id: self.id.clone(),
            name: self.name.clone(),
            expression: self.expression.clone(),
            command: self.command.clone(),
            running: self.running,
            last_run: self.last_run,
            next_run: self.next_run,
            created_at: self.created_at,
        }
    }
}

/// What a user gives to add a job.
#[derive(Debug)]
pub struct CronJobCreate {
    pub name: String,
    pub expression: String,
    pub command: String,
}

/// A new job under `id`, created at `now`: not running, never run.
pub open spec fn new_job(id: Seq<char>, name: Seq<char>, expression: Seq<char>, command: Seq<char>, now: i64) -> CronJobView {
    CronJobView { id, name, expression, command, running: false, last_run: None, next_run: None, created_at: now }
}

/// The jobs after `id` is started at `now`: running, next run a minute later.
pub open spec fn started_at(m: Map<Seq<char>, CronJobView>, id: Seq<char>, now: i64) -> Map<Seq<char>, CronJobView> {
    m.insert(id, CronJobView { running: true, next_run: Some((now + NEXT_RUN_DELAY) as i64), ..m[id] })
}

/// The jobs after `id` is run at `now`.
pub open spec fn ran_at(m: Map<Seq<char>, CronJobView>, id: Seq<char>, now: i64) -> Map<Seq<char>, CronJobView> {
    m.insert(id, CronJobView { last_run: Some(now), ..m[id] })
}

/// The jobs, by id.
pub struct CronManager {
    jobs: Store<CronJob>,
}

impl CronManager {
    /// The jobs, by id.
    pub closed spec fn jobs_view(&self) -> Map<Seq<char>, CronJobView> {
        self.jobs.view_map()
    }

    /// The manager's invariant: each id is held once.
    pub closed spec fn wf(&self) -> bool {
        self.jobs.wf()
    }

    /// No jobs.
    pub fn new() -> (r: Self)
        ensures
            r.wf(),
            r.jobs_view() == Map::<Seq<char>, CronJobView>::empty(),
    {
        CronManager { jobs: Store::new() }
    }

    /// Adds a job under `id`, created at `now`, and returns it.
    pub fn add_job_at(&mut self, job: CronJobCreate, id: String, now: i64) -> (r: Result<CronJob, AppError>)
        requires
            old(self).wf(),
        ensures
            final(self).wf(),
            r is Ok,
            match r {
                Ok(j) => j@ == new_job(id@, job.name@, job.expression@, job.command@, now)
                    && final(self).jobs_view() == old(self).jobs_view().insert(id@, j@),
                Err(_) => false,
            },
    {
        let j = CronJob {
            id,
            name: job.name,
            expression: job.expression,
            command: job.command,
            running: false,
            last_run: None,
            next_run: None,
            created_at: now,
        };
        let copy = j.duplicate();
        self.jobs.insert(j);
        Ok(copy)
    }

    /// Adds a job under a fresh random id, created now, and returns it.
    pub fn add_job(&mut self, job: CronJobCreate) -> (r: Result<CronJob, AppError>)
        requires
            old(self).wf(),
        ensures
            final(self).wf(),
            r is Ok,
            match r {
                Ok(j) => j@.created_at < MAX_TIMESTAMP
                    && j@ == new_job(j@.id, job.name@, job.expression@, job.command@, j@.created_at)
                    && final(self).jobs_view() == old(self).jobs_view().insert(j@.id, j@),
                Err(_) => false,
            },
    {
        let id = new_uuid();
        let now = now_timestamp();
        self.add_job_at(job, id, now)
    }

    /// Starts the job `job_id` at `now`: it runs, next a minute later. `NotFound` when
    /// there is no such job.
    pub fn start_job_at(&mut self, job_id: &str, now: i64) -> (r: Result<bool, AppError>)
        requires
            old(self).wf(),
            0 <= now < MAX_TIMESTAMP,
        ensures
            final(self).wf(),
            r is Ok <==> old(self).jobs_view().dom().contains(job_id@),
            match r {
                Ok(b) => b && final(self).jobs_view() == started_at(old(self).jobs_view(), job_id@, now),
                Err(e) => e is NotFound && e.message() == "Job "@ + job_id@ + " not found"@
                    && final(self).jobs_view() == old(self).jobs_view(),
            },
    {
        match self.jobs.get_copy(job_id) {
            Some(mut j) => {
                j.running = true;
                j.next_run = Some(now + NEXT_RUN_DELAY);
                self.jobs.insert(j);
                Ok(true)
            },
            None => Err(AppError::NotFound(concat3("Job ", job_id, " not found"))),
        }
    }

    /// Starts the job `job_id` now.
    pub fn start_job(&mut self, job_id: &str) -> (r: Result<bool, AppError>)
        requires
            old(self).wf(),
        ensures
            final(self).wf(),
            r is Ok <==> old(self).jobs_view().dom().contains(job_id@),
            match r {
                Ok(b) => b && exists|now: i64| 0 <= now < MAX_TIMESTAMP
                    && final(self).jobs_view() == #[trigger] started_at(old(self).jobs_view(), job_id@, now),
                Err(e) => e is NotFound && e.message() == "Job "@ + job_id@ + " not found"@
                    && final(self).jobs_view() == old(self).jobs_view(),
            },
    {
        let now = now_timestamp();
        self.start_job_at(job_id, now)
    }

    /// Stops the job `job_id`; `NotFound` when there is none.
    pub fn stop_job(&mut self, job_id: &str) -> (r: Result<bool, AppError>)
        requires
            old(self).wf(),
        ensures
            final(self).wf(),
            r is Ok <==> old(self).jobs_view().dom().contains(job_id@),
            match r {
                Ok(b) => b && final(self).jobs_view() == old(self).jobs_view().insert(job_id@,
                    CronJobView { running: false, ..old(self).jobs_view()[job_id@] }),
                Err(e) => e is NotFound && e.message() == "Job "@ + job_id@ + " not found"@
                    && final(self).jobs_view() == old(self).jobs_view(),
            },
    {
        match self.jobs.get_copy(job_id) {
            Some(mut j) => {
                j.running = false;
                self.jobs.insert(j);
                Ok(true)
            },
            None => Err(AppError::NotFound(concat3("Job ", job_id, " not found"))),
        }
    }

    /// Removes the job `job_id`; whether there was one.
    pub fn remove_job(&mut self, job_id: &str) -> (r: Result<bool, AppError>)
        requires
            old(self).wf(),
        ensures
            final(self).wf(),
            r == Ok::<bool, AppError>(old(self).jobs_view().dom().contains(job_id@)),
            final(self).jobs_view() == old(self).jobs_view().remove(job_id@),
    {
        let removed = self.jobs.remove(job_id);
        Ok(removed.is_some())
    }

    /// The job `job_id`, if there is one.
    pub fn get_job(&self, job_id: &str) -> (r: Option<CronJob>)
        requires
            self.wf(),
        ensures
            match r {
                Some(j) => self.jobs_view().dom().contains(job_id@) && j@ == self.jobs_view()[job_id@],
                None => !self.jobs_view().dom().contains(job_id@),
            },
    {
        self.jobs.get_copy(job_id)
    }

    /// Every job, once each.
    pub fn list_jobs(&self) -> (r: Vec<CronJob>)
        requires
            self.wf(),
        ensures
            lists_map(record_entries(r@).map_values(|e: (Seq<char>, CronJobView)| e.0), r@.map_values(|x: CronJob| x@), self.jobs_view()),
    {
        self.jobs.values()
    }

    /// Records that the job `job_id` ran at `now`; `NotFound` when there is none.
    pub fn run_now_at(&mut self, job_id: &str, now: i64) -> (r: Result<(), AppError>)
        requires
            old(self).wf(),
        ensures
            final(self).wf(),
            r is Ok <==> old(self).jobs_view().dom().contains(job_id@),
            match r {
                Ok(_) => final(self).jobs_view() == ran_at(old(self).jobs_view(), job_id@, now),
                Err(e) => e is NotFound && e.message() == "Job "@ + job_id@ + " not found"@
                    && final(self).jobs_view() == old(self).jobs_view(),
            },
    {
        match self.jobs.get_copy(job_id) {
            Some(mut j) => {
                j.last_run = Some(now);
                self.jobs.insert(j);
                Ok(())
            },
            None => Err(AppError::NotFound(concat3("Job ", job_id, " not found"))),
        }
    }

    /// Records that the job `job_id` ran now; `NotFound` when there is none.
    pub fn run_now(&mut self, job_id: &str) -> (r: Result<(), AppError>)
        requires
            old(self).wf(),
        ensures
            final(self).wf(),
            r is Ok <==> old(self).jobs_view().dom().contains(job_id@),
            match r {
                Ok(_) => exists|now: i64| 0 <= now < MAX_TIMESTAMP
                    && final(self).jobs_view() == #[trigger] ran_at(old(self).jobs_view(), job_id@, now),
                Err(e) => e is NotFound && e.message() == "Job "@ + job_id@ + " not found"@
                    && final(self).jobs_view() == old(self).jobs_view(),
            },
    {
        let now = now_timestamp();
        self.run_now_at(job_id, now)
    }

    /// Records that the job `job_id` ran now, if there is one.
    pub fn update_last_run(&mut self, job_id: &str)
        requires
            old(self).wf(),
        ensures
            final(self).wf(),
            old(self).jobs_view().dom().contains(job_id@) ==> exists|now: i64| 0 <= now < MAX_TIMESTAMP
                && final(self).jobs_view() == #[trigger] ran_at(old(self).jobs_view(), job_id@, now),
            !old(self).jobs_view().dom().contains(job_id@) ==> final(self).jobs_view() == old(self).jobs_view(),
    {
        let _ = self.run_now(job_id);
    }
}

} // verus!
