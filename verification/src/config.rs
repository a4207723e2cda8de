//! Backup jobs and the configuration kept on each backup drive.
use vstd::prelude::*;
use crate::text::{decimal, push_decimal, push_str, string_of, views_of};
use crate::paths::{file_name, file_name_of};

verus! {

/// Name of the configuration file at the root of a backup drive.
pub const CONFIG_FILENAME: &'static str = "backer-upper.toml";

/// How a job treats files that disappeared from its source.
#[derive(Debug, Clone, Copy, PartialEq, Eq, Structural)]
pub enum SyncMode {
    /// A mirror: files deleted from the source are deleted from the copy.
    Backup,
    /// An archive: the copy keeps files deleted from the source.
    Media,
}

/// One folder to copy to the drive.
#[derive(Debug, Clone)]
pub struct SyncJob {
    pub name: String,
    /// Folder on this computer.
    pub source: String,
    /// Folder on the drive, relative to its root unless absolute.
    pub destination: String,
    /// rsync exclude patterns.
    pub excludes: Vec<String>,
    pub mode: SyncMode,
    pub enabled: bool,
}

/// The configuration stored on a backup drive.
#[derive(Debug, Clone)]
pub struct Config {
    pub jobs: Vec<SyncJob>,
    /// When the last backup completed (RFC 3339 text), if one did.
    pub last_backup: Option<String>,
}

/// What a job says, as plain values.
pub struct JobView {
    pub name: Seq<char>,
    pub source: Seq<char>,
    pub destination: Seq<char>,
    pub excludes: Seq<Seq<char>>,
    pub mode: SyncMode,
    pub enabled: bool,
}

impl View for SyncJob {
    type V = JobView;

    open spec fn view(&self) -> JobView {
        JobView {
            name: self.name@,
            source: self.source@,
            destination: self.destination@,
            excludes: views_of(self.excludes@),
            mode: self.mode,
            enabled: self.enabled,
        }
    }
}

/// What a configuration says, as plain values.
pub struct ConfigView {
    pub jobs: Seq<JobView>,
    pub last_backup: Option<Seq<char>>,
}

/// The views of the jobs of `jobs`.
pub open spec fn job_views(jobs: Seq<SyncJob>) -> Seq<JobView> {
    Seq::new(jobs.len(), |i: int| jobs[i]@)
}

pub open spec fn opt_view(o: Option<String>) -> Option<Seq<char>> {
    match o {
        Some(s) => Some(s@),
        None => None,
    }
}

impl View for Config {
    type V = ConfigView;

    open spec fn view(&self) -> ConfigView {
        ConfigView { jobs: job_views(self.jobs@), last_backup: opt_view(self.last_backup) }
    }
}

/// The destination a new job for `source` gets: the source's last path
/// component, or `backup` when it has none.
pub open spec fn default_destination(source: Seq<char>) -> Seq<char> {
    match file_name(source) {
        Some(n) => n,
        None => "backup"@,
    }
}

/// The job `SyncJob::new` makes.
pub open spec fn is_new_job(job: JobView, name: Seq<char>, source: Seq<char>) -> bool {
    job == JobView {
        name,
        source,
        destination: default_destination(source),
        excludes: seq![],
        mode: SyncMode::Backup,
        enabled: true,
    }
}

/// The name the `n`-th job added through the job list gets (counting from 1).
pub open spec fn numbered_job_name(n: nat) -> Seq<char> {
    "Job "@ + decimal(n)
}

impl SyncJob {
    /// A new, enabled mirror job from `source` into a folder of the same name.
    pub fn new(name: String, source: String) -> (job: SyncJob)
        ensures
            is_new_job(job@, name@, source@),
    {
        let destination = match file_name_of(source.as_str()) {
            Some(n) => n,
            None => {
                let mut v: Vec<char> = Vec::new();
                push_str(&mut v, "backup");
                string_of(v.as_slice())
            },
        };
        let job = SyncJob {
            name,
            source,
            destination,
            excludes: Vec::new(),
            mode: SyncMode::Backup,
            enabled: true,
        };
        assert(job@.excludes =~= seq![]);
        job
    }
}

/// A copy of `v` with equal strings.
pub fn copy_strings(v: &Vec<String>) -> (r: Vec<String>)
    ensures
        r@ == v@,
{
    let mut r: Vec<String> = Vec::new();
    let mut i: usize = 0;
    while i < v.len()
        invariant
            i <= v@.len(),
            r@ == v@.take(i as int),
        decreases v@.len() - i,
    {
        r.push(v[i].clone());
        assert(r@ =~= v@.take(i + 1));
        i += 1;
    }
    assert(v@.take(v@.len() as int) =~= v@);
    r
}

/// A copy of `job` with equal fields.
pub fn copy_job(job: &SyncJob) -> (r: SyncJob)
    ensures
        r@ == job@,
{
    SyncJob {
        name: job.name.clone(),
        source: job.source.clone(),
        destination: job.destination.clone(),
        excludes: copy_strings(&job.excludes),
        mode: job.mode,
        enabled: job.enabled,
    }
}

/// The name `Job <n>`.
pub fn numbered_job(n: u64) -> (s: String)
    ensures
        s@ == numbered_job_name(n as nat),
{
    let mut v: Vec<char> = Vec::new();
    push_str(&mut v, "Job ");
    push_decimal(&mut v, n);
    string_of(v.as_slice())
}

/// Why a job could not be removed.
#[derive(Debug, Clone, Copy, PartialEq, Eq, Structural)]
pub enum JobError {
    /// No job has that index.
    OutOfRange,
}

impl JobError {
    /// The message shown for this error.
    pub fn message(&self) -> (s: String)
        ensures
            s@ == "Job index out of range"@,
    {
        let mut v: Vec<char> = Vec::new();
        push_str(&mut v, "Job index out of range");
        string_of(v.as_slice())
    }
}

impl Config {
    /// The configuration a new drive starts with: one job backing up `home`.
    pub fn new_for_home(home: String) -> (c: Config)
        ensures
            c@.jobs.len() == 1,
            is_new_job(c@.jobs[0], "Home"@, home@),
            c@.last_backup is None,
    {
        let mut v: Vec<char> = Vec::new();
        push_str(&mut v, "Home");
        let name = string_of(v.as_slice());
        let mut jobs: Vec<SyncJob> = Vec::new();
        jobs.push(SyncJob::new(name, home));
        Config { jobs, last_backup: None }
    }

    /// Appends a new job named `Job <count + 1>` backing up `home`.
    pub fn add_job(&mut self, home: String)
        requires
            old(self).jobs@.len() < u64::MAX,
        ensures
            final(self)@.jobs.len() == old(self)@.jobs.len() + 1,
            final(self)@.jobs.drop_last() == old(self)@.jobs,
            is_new_job(
                final(self)@.jobs.last(),
                numbered_job_name((old(self)@.jobs.len() + 1) as nat),
                home@,
            ),
            final(self)@.last_backup == old(self)@.last_backup,
    {
        let n = self.jobs.len() as u64 + 1;
        let job = SyncJob::new(numbered_job(n), home);
        self.jobs.push(job);
        assert(self@.jobs.drop_last() =~= old(self)@.jobs);
    }

    /// Removes the job at `idx`; refused when there is no such job.
    pub fn delete_job(&mut self, idx: usize) -> (r: Result<(), JobError>)
        ensures
            r is Ok <==> idx < old(self)@.jobs.len(),
            r is Ok ==> final(self)@.jobs == old(self)@.jobs.remove(idx as int),
            r is Err ==> final(self)@ == old(self)@,
            final(self)@.last_backup == old(self)@.last_backup,
    {
        if idx < self.jobs.len() {
            self.jobs.remove(idx);
            assert(self@.jobs =~= old(self)@.jobs.remove(idx as int));
            Ok(())
        } else {
            Err(JobError::OutOfRange)
        }
    }

    /// Turns the job at `idx` on or off; does nothing when there is no such job.
    pub fn set_enabled(&mut self, idx: usize, enabled: bool) -> (changed: bool)
        ensures
            changed <==> idx < old(self)@.jobs.len(),
            changed ==> final(self)@.jobs == old(self)@.jobs.update(
                idx as int,
                JobView { enabled, ..old(self)@.jobs[idx as int] },
            ),
            !changed ==> final(self)@ == old(self)@,
            final(self)@.last_backup == old(self)@.last_backup,
    {
        if idx < self.jobs.len() {
            let mut job = copy_job(&self.jobs[idx]);
            job.enabled = enabled;
            self.jobs.set(idx, job);
            assert(self@.jobs =~= old(self)@.jobs.update(
                idx as int,
                JobView { enabled, ..old(self)@.jobs[idx as int] },
            ));
            true
        } else {
            false
        }
    }

    /// Stores `job` at `idx`, or appends it when `idx` is past the last job.
    pub fn put_job(&mut self, idx: usize, job: SyncJob)
        ensures
            idx < old(self)@.jobs.len() ==> final(self)@.jobs == old(self)@.jobs.update(idx as int, job@),
            idx >= old(self)@.jobs.len() ==> final(self)@.jobs == old(self)@.jobs.push(job@),
            final(self)@.last_backup == old(self)@.last_backup,
    {
        let ghost jv = job@;
        if idx < self.jobs.len() {
            self.jobs.set(idx, job);
            assert(self@.jobs =~= old(self)@.jobs.update(idx as int, jv));
        } else {
            self.jobs.push(job);
            assert(self@.jobs =~= old(self)@.jobs.push(jv));
        }
    }
}

/// A copy of a list of jobs with equal views.
pub fn copy_jobs(jobs: &Vec<SyncJob>) -> (r: Vec<SyncJob>)
    ensures
        job_views(r@) == job_views(jobs@),
{
    let mut r: Vec<SyncJob> = Vec::new();
    let mut i: usize = 0;
    while i < jobs.len()
        invariant
            i <= jobs@.len(),
            r@.len() == i,
            job_views(r@) == job_views(jobs@).take(i as int),
        decreases jobs@.len() - i,
    {
        let j = copy_job(&jobs[i]);
        assert(j@ == jobs@[i as int]@);
        let ghost before = r@;
        r.push(j);
        assert(r@ == before.push(j));
        assert forall|k: int| 0 <= k < i + 1 implies job_views(r@)[k] == job_views(jobs@)[k] by {
            if k < i {
                assert(r@[k] == before[k]);
                assert(job_views(before)[k] == job_views(jobs@).take(i as int)[k]);
            }
        }
        assert(job_views(r@) =~= job_views(jobs@).take(i + 1));
        i += 1;
    }
    assert(job_views(jobs@).take(jobs@.len() as int) =~= job_views(jobs@));
    r
}

/// A copy of a configuration with an equal view.
pub fn copy_config(c: &Config) -> (r: Config)
    ensures
        r@ == c@,
{
    let last = match &c.last_backup {
        Some(s) => Some(s.clone()),
        None => None,
    };
    Config { jobs: copy_jobs(&c.jobs), last_backup: last }
}


/// Deleting the job that was just added (see `Config::add_job` and
/// `Config::delete_job`) gives the jobs back as they were.
pub proof fn deleting_the_added_job_restores(before: ConfigView, added: ConfigView)
    requires
        added.jobs.len() == before.jobs.len() + 1,
        added.jobs.drop_last() == before.jobs,
    ensures
        added.jobs.remove(before.jobs.len() as int) == before.jobs,
{
    assert(added.jobs.remove(before.jobs.len() as int) =~= added.jobs.drop_last());
}

} // verus!
