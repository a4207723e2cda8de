//! What the application's commands decide: the drive list as the user
//! interface receives it, the state kept between commands (the open drive,
//! its configuration, the running backup), and the answers to each command.
use vstd::prelude::*;
use crate::backup::{command_line, enabled_jobs, format_duration, owned, rsync_arg_list};
use crate::config::{copy_config, job_views, numbered_job_name, Config, ConfigView, JobView, SyncJob};
use crate::drives::{display_name_of, opt_view, Drive, DriveView};
use crate::text::{push_str, string_of, views_of};

verus! {

// ───────────────────────────── drives for the user interface ─────────────────────────────

/// A drive as the user interface receives it: its fields, the name to show
/// and whether it is mounted.
pub struct DriveJson {
    pub device: String,
    pub label: Option<String>,
    pub fstype: Option<String>,
    pub size: Option<String>,
    pub mountpoint: Option<String>,
    pub is_encrypted: bool,
    pub luks_parent: Option<String>,
    pub model: Option<String>,
    pub vendor: Option<String>,
    pub tran: Option<String>,
    pub dev_type: String,
    pub display_name: String,
    pub is_mounted: bool,
}

impl DriveJson {
    /// The user-interface form of a drive.
    pub fn from_drive(d: Drive) -> (j: DriveJson)
        ensures
            j.device@ == d@.device,
            opt_view(j.label) == d@.label,
            opt_view(j.fstype) == d@.fstype,
            opt_view(j.size) == d@.size,
            opt_view(j.mountpoint) == d@.mountpoint,
            j.is_encrypted == d@.is_encrypted,
            opt_view(j.luks_parent) == d@.luks_parent,
            opt_view(j.model) == d@.model,
            opt_view(j.vendor) == d@.vendor,
            opt_view(j.tran) == d@.tran,
            j.dev_type@ == d@.dev_type,
            j.display_name@ == display_name_of(d@),
            j.is_mounted == d@.mountpoint is Some,
    {
        let display_name = d.display_name();
        let is_mounted = d.is_mounted();
        DriveJson {
            display_name,
            is_mounted,
            device: d.device,
            label: d.label,
            fstype: d.fstype,
            size: d.size,
            mountpoint: d.mountpoint,
            is_encrypted: d.is_encrypted,
            luks_parent: d.luks_parent,
            model: d.model,
            vendor: d.vendor,
            tran: d.tran,
            dev_type: d.dev_type,
        }
    }
}

/// The message when the drive to open is no longer there.
pub open spec fn drive_not_found(device: Seq<char>) -> Seq<char> {
    "Drive "@ + device + " not found"@
}

/// Takes the first drive of `drives` whose device is `device`.
pub fn take_drive(list: Vec<Drive>, device: &str) -> (r: Result<Drive, String>)
    ensures
        match r {
            Ok(d) => exists|i: int|
                0 <= i < list@.len() && #[trigger] list@[i]@ == d@ && d@.device == device@ && forall|
                    j: int,
                | 0 <= j < i ==> list@[j]@.device != device@,
            Err(e) => e@ == drive_not_found(device@) && forall|i: int|
                0 <= i < list@.len() ==> list@[i]@.device != device@,
        },
{
    let dv = crate::text::chars_of(device);
    let mut drives = list;
    let ghost all = drives@;
    let mut i: usize = 0;
    while i < drives.len()
        invariant
            drives@ == all,
            all == list@,
            i <= all.len(),
            dv@ == device@,
            forall|j: int| 0 <= j < i ==> all[j]@.device != device@,
        decreases all.len() - i,
    {
        let cv = crate::text::chars_of(drives[i].device.as_str());
        if crate::text::chars_eq(cv.as_slice(), dv.as_slice()) {
            let d = drives.swap_remove(i);
            assert(d == all[i as int]);
            assert(0 <= i < all.len() && all[i as int]@ == d@ && d@.device == device@);
            assert(list@[i as int]@ == d@);
            return Ok(d);
        }
        i += 1;
    }
    let mut v: Vec<char> = Vec::new();
    push_str(&mut v, "Drive ");
    push_str(&mut v, device);
    push_str(&mut v, " not found");
    Err(string_of(v.as_slice()))
}

/// What opening a drive takes.
pub enum OpenPlan {
    /// It is mounted already, at this folder.
    AlreadyMounted(String),
    /// It is encrypted: ask for the passphrase first.
    NeedsPassword,
    /// Mount it through udisks2.
    Mount,
}

/// How a drive is opened: a mounted drive is used where it is mounted (at
/// `/` when no mount point is known), an encrypted one needs the passphrase,
/// any other is mounted.
pub fn open_plan(drive: &Drive) -> (p: OpenPlan)
    ensures
        drive@.mountpoint is Some ==> (p matches OpenPlan::AlreadyMounted(m) && m@
            == drive@.mountpoint->0),
        drive@.mountpoint is None && drive.is_encrypted ==> p is NeedsPassword,
        drive@.mountpoint is None && !drive.is_encrypted ==> p is Mount,
{
    if drive.is_mounted() {
        match &drive.mountpoint {
            Some(m) => OpenPlan::AlreadyMounted(m.clone()),
            None => OpenPlan::AlreadyMounted(owned("/")),
        }
    } else if drive.is_encrypted {
        OpenPlan::NeedsPassword
    } else {
        OpenPlan::Mount
    }
}

/// The message when mounting the drive to open failed.
pub open spec fn mount_failure(err: Seq<char>) -> Seq<char> {
    "Mount failed: "@ + err
}

/// The message when mounting the drive to open failed with `err`.
pub fn mount_failure_message(err: &str) -> (m: String)
    ensures
        m@ == mount_failure(err@),
{
    let mut v: Vec<char> = Vec::new();
    push_str(&mut v, "Mount failed: ");
    push_str(&mut v, err);
    string_of(v.as_slice())
}

// ───────────────────────────── the session ─────────────────────────────

/// The state kept between commands.
pub struct Session {
    pub mount_point: Option<String>,
    /// The device udisks2 mounted, or the LUKS container that was unlocked.
    pub mounted_device: Option<String>,
    /// The unlocked LUKS volume, when the drive is encrypted.
    pub mapper_name: Option<String>,
    pub config: Option<Config>,
    pub config_dirty: bool,
    pub backup_running: bool,
    pub backup_finished_msg: Option<String>,
    pub format_running: bool,
    pub status_msg: Option<String>,
    pub is_restore: bool,
}

pub open spec fn config_view(c: Option<Config>) -> Option<ConfigView> {
    match c {
        Some(c) => Some(c@),
        None => None,
    }
}

/// The reply when a command needs a drive's configuration and none is loaded.
pub open spec fn no_config() -> Seq<char> {
    "No config loaded"@
}

/// The reply when a command needs both a configuration and a mount point.
pub open spec fn no_config_or_mount() -> Seq<char> {
    "No config or mount point"@
}

/// The reply when a job index is out of range.
pub open spec fn job_out_of_range() -> Seq<char> {
    "Job index out of range"@
}

/// What to unmount and lock when the drive is ejected.
pub enum EjectPlan {
    /// Unmount the unlocked volume, then lock the LUKS container.
    UnmountAndLock { cleartext: String, luks: String },
    /// Unmount the device.
    Unmount { device: String },
    /// Nothing is open.
    Nothing,
}

/// What the session learns from a look at the backup's progress.
pub struct BackupCheck {
    /// Whether the backup is still running.
    pub running: bool,
    /// Whether it completed just now: the time of the backup is to be
    /// recorded in the configuration, and the configuration saved when it has
    /// no unsaved changes.
    pub completed_now: bool,
}

impl Session {
    /// A session with no drive open.
    pub fn new() -> (s: Session)
        ensures
            s.mount_point is None,
            s.mounted_device is None,
            s.mapper_name is None,
            s.config is None,
            !s.config_dirty,
            !s.backup_running,
            s.backup_finished_msg is None,
            !s.format_running,
            s.status_msg is None,
            !s.is_restore,
    {
        Session {
            mount_point: None,
            mounted_device: None,
            mapper_name: None,
            config: None,
            config_dirty: false,
            backup_running: false,
            backup_finished_msg: None,
            format_running: false,
            status_msg: None,
            is_restore: false,
        }
    }

    /// Records a drive opened at `mount_point` with its configuration: an
    /// unlocked LUKS volume is remembered with its container.
    pub fn opened(&mut self, drive: &Drive, mount_point: String, config: Config)
        ensures
            *final(self) == (Session {
                mount_point: final(self).mount_point,
                mounted_device: final(self).mounted_device,
                mapper_name: final(self).mapper_name,
                config: final(self).config,
                config_dirty: final(self).config_dirty,
                ..*old(self)
            }),
            opt_view(final(self).mount_point) == Some(mount_point@),
            match drive@.luks_parent {
                Some(p) => opt_view(final(self).mapper_name) == Some(drive@.device) && opt_view(
                    final(self).mounted_device,
                ) == Some(p),
                None => opt_view(final(self).mounted_device) == Some(drive@.device)
                    && final(self).mapper_name == old(self).mapper_name,
            },
            config_view(final(self).config) == Some(config@),
            !final(self).config_dirty,
            final(self).backup_running == old(self).backup_running,
    {
        self.mount_point = Some(mount_point);
        match &drive.luks_parent {
            Some(p) => {
                self.mapper_name = Some(drive.device.clone());
                self.mounted_device = Some(p.clone());
            },
            None => {
                self.mounted_device = Some(drive.device.clone());
            },
        }
        self.config = Some(config);
        self.config_dirty = false;
    }

    /// Records a LUKS container `luks_device` unlocked as `cleartext` and
    /// mounted at `mount_point`.
    pub fn unlocked(&mut self, luks_device: String, cleartext: String, mount_point: String, config: Config)
        ensures
            *final(self) == (Session {
                mounted_device: final(self).mounted_device,
                mapper_name: final(self).mapper_name,
                mount_point: final(self).mount_point,
                config: final(self).config,
                config_dirty: final(self).config_dirty,
                ..*old(self)
            }),
            opt_view(final(self).mounted_device) == Some(luks_device@),
            opt_view(final(self).mapper_name) == Some(cleartext@),
            opt_view(final(self).mount_point) == Some(mount_point@),
            config_view(final(self).config) == Some(config@),
            !final(self).config_dirty,
            final(self).backup_running == old(self).backup_running,
    {
        self.mounted_device = Some(luks_device);
        self.mapper_name = Some(cleartext);
        self.mount_point = Some(mount_point);
        self.config = Some(config);
        self.config_dirty = false;
    }

    /// Replaces the configuration with one edited by the user.
    pub fn update_config(&mut self, config: Config)
        ensures
            *final(self) == (Session {
                config: final(self).config,
                config_dirty: final(self).config_dirty,
                ..*old(self)
            }),
            config_view(final(self).config) == Some(config@),
            final(self).config_dirty,
            final(self).mount_point == old(self).mount_point,
    {
        self.config = Some(config);
        self.config_dirty = true;
    }

    /// Adds a job named `Job <n>` backing up `home`, `n` being the new number
    /// of jobs; answers the new configuration, or that none is loaded.
    pub fn add_job(&mut self, home: String) -> (r: Result<Config, String>)
        requires
            old(self).config matches Some(c) ==> c.jobs@.len() < u64::MAX,
        ensures
            *final(self) == (Session {
                config: final(self).config,
                config_dirty: final(self).config_dirty,
                ..*old(self)
            }),
            match old(self).config {
                Some(c) => {
                    &&& final(self).config_dirty
                    &&& config_view(final(self).config) matches Some(n) && n.jobs.drop_last() == c@.jobs
                        && n.jobs.len() == c@.jobs.len() + 1 && crate::config::is_new_job(
                        n.jobs.last(),
                        numbered_job_name((c@.jobs.len() + 1) as nat),
                        home@,
                    ) && n.last_backup == c@.last_backup
                    &&& r matches Ok(cfg) && config_view(final(self).config) == Some(cfg@)
                },
                None => r matches Err(e) && e@ == no_config() && final(self).config is None
                    && final(self).config_dirty == old(self).config_dirty,
            },
    {
        match &mut self.config {
            Some(cfg) => {
                cfg.add_job(home);
                self.config_dirty = true;
                match &self.config {
                    Some(c) => Ok(copy_config(c)),
                    None => Err(owned("No config loaded")),
                }
            },
            None => Err(owned("No config loaded")),
        }
    }

    /// Deletes the job at `idx`; answers the new configuration, or why not.
    pub fn delete_job(&mut self, idx: usize) -> (r: Result<Config, String>)
        ensures
            *final(self) == (Session {
                config: final(self).config,
                config_dirty: final(self).config_dirty,
                ..*old(self)
            }),
            match old(self).config {
                Some(c) => if idx < c@.jobs.len() {
                    &&& final(self).config_dirty
                    &&& config_view(final(self).config) matches Some(n) && n.jobs == c@.jobs.remove(
                        idx as int,
                    ) && n.last_backup == c@.last_backup
                    &&& r matches Ok(cfg) && config_view(final(self).config) == Some(cfg@)
                } else {
                    r matches Err(e) && e@ == job_out_of_range() && config_view(final(self).config)
                        == config_view(old(self).config) && final(self).config_dirty == old(
                        self,
                    ).config_dirty
                },
                None => r matches Err(e) && e@ == no_config() && final(self).config is None
                    && final(self).config_dirty == old(self).config_dirty,
            },
    {
        match &mut self.config {
            Some(cfg) => {
                if idx < cfg.jobs.len() {
                    let _ = cfg.delete_job(idx);
                    self.config_dirty = true;
                    match &self.config {
                        Some(c) => Ok(copy_config(c)),
                        None => Err(owned("No config loaded")),
                    }
                } else {
                    Err(owned("Job index out of range"))
                }
            },
            None => Err(owned("No config loaded")),
        }
    }

    /// What a save needs: the configuration and where the drive is mounted,
    /// or why it cannot be done.
    pub fn can_save(&self) -> (r: Result<(), String>)
        ensures
            r is Ok <==> (self.config is Some && self.mount_point is Some),
            r matches Err(e) ==> e@ == no_config_or_mount(),
    {
        if self.config.is_some() && self.mount_point.is_some() {
            Ok(())
        } else {
            Err(owned("No config or mount point"))
        }
    }

    /// The configuration was saved: it no longer has unsaved changes.
    pub fn saved(&mut self)
        ensures
            *final(self) == (Session {
                config_dirty: final(self).config_dirty,
                ..*old(self)
            }),
            !final(self).config_dirty,
            config_view(final(self).config) == config_view(old(self).config),
            final(self).mount_point == old(self).mount_point,
    {
        self.config_dirty = false;
    }

    /// What ejecting the open drive takes: an unlocked volume is unmounted and
    /// its container locked; a plain device is unmounted.
    pub fn eject_plan(&self) -> (p: EjectPlan)
        ensures
            match (self.mapper_name, self.mounted_device) {
                (Some(c), Some(l)) => p matches EjectPlan::UnmountAndLock { cleartext, luks } && cleartext@
                    == c@ && luks@ == l@,
                (None, Some(d)) => p matches EjectPlan::Unmount { device } && device@ == d@,
                _ => p is Nothing,
            },
    {
        match (&self.mapper_name, &self.mounted_device) {
            (Some(c), Some(l)) => EjectPlan::UnmountAndLock { cleartext: c.clone(), luks: l.clone() },
            (None, Some(d)) => EjectPlan::Unmount { device: d.clone() },
            _ => EjectPlan::Nothing,
        }
    }

    /// The drive was ejected: nothing is open any more.
    pub fn ejected(&mut self)
        ensures
            *final(self) == (Session {
                mount_point: final(self).mount_point,
                mounted_device: final(self).mounted_device,
                mapper_name: final(self).mapper_name,
                config: final(self).config,
                config_dirty: final(self).config_dirty,
                backup_finished_msg: final(self).backup_finished_msg,
                ..*old(self)
            }),
            final(self).mount_point is None,
            final(self).mounted_device is None,
            final(self).mapper_name is None,
            final(self).config is None,
            !final(self).config_dirty,
            final(self).backup_finished_msg is None,
            final(self).backup_running == old(self).backup_running,
    {
        self.mount_point = None;
        self.mounted_device = None;
        self.mapper_name = None;
        self.config = None;
        self.config_dirty = false;
        self.backup_finished_msg = None;
    }

    /// A backup starts: refused without a configuration and a mount point.
    pub fn start_backup(&mut self) -> (r: Result<(), String>)
        ensures
            *final(self) == (Session {
                backup_running: final(self).backup_running,
                backup_finished_msg: final(self).backup_finished_msg,
                ..*old(self)
            }),
            r is Ok <==> (old(self).config is Some && old(self).mount_point is Some),
            r matches Err(e) ==> e@ == no_config_or_mount() && final(self).backup_running == old(
                self,
            ).backup_running,
            r is Ok ==> final(self).backup_running && final(self).backup_finished_msg is None,
            config_view(final(self).config) == config_view(old(self).config),
            final(self).mount_point == old(self).mount_point,
    {
        if self.config.is_none() || self.mount_point.is_none() {
            return Err(owned("No config or mount point"));
        }
        self.backup_running = true;
        self.backup_finished_msg = None;
        Ok(())
    }

    /// Looks at the backup's progress: once it is finished or failed, the
    /// session stops counting it as running and keeps the message that ends
    /// it (see `backup_end_message`).
    pub fn check_backup(
        &mut self,
        finished: bool,
        cancelled: bool,
        error: &Option<String>,
        elapsed_secs: u64,
    ) -> (c: BackupCheck)
        ensures
            *final(self) == (Session {
                backup_running: final(self).backup_running,
                backup_finished_msg: final(self).backup_finished_msg,
                ..*old(self)
            }),
            c.running == (old(self).backup_running && !finished && error is None),
            old(self).backup_running && (finished || error is Some) ==> !final(self).backup_running
                && opt_view(final(self).backup_finished_msg) == Some(
                crate::backup::backup_end_message_spec(cancelled, opt_view(*error), elapsed_secs as nat),
            ) && c.completed_now == (!cancelled && error is None),
            !(old(self).backup_running && (finished || error is Some)) ==> final(self).backup_running
                == old(self).backup_running && final(self).backup_finished_msg == old(
                self,
            ).backup_finished_msg && !c.completed_now,
            config_view(final(self).config) == config_view(old(self).config),
            final(self).config_dirty == old(self).config_dirty,
    {
        let running = self.backup_running && !finished && error.is_none();
        if self.backup_running && (finished || error.is_some()) {
            self.backup_running = false;
            let mut v: Vec<char> = Vec::new();
            let completed = if cancelled {
                push_str(&mut v, "Backup cancelled.");
                false
            } else {
                match error {
                    Some(e) => {
                        push_str(&mut v, "Backup failed: ");
                        push_str(&mut v, e.as_str());
                        false
                    },
                    None => {
                        push_str(&mut v, "Backup complete in ");
                        let d = format_duration(elapsed_secs);
                        push_str(&mut v, d.as_str());
                        push_str(&mut v, "!");
                        true
                    },
                }
            };
            assert(v@ =~= crate::backup::backup_end_message_spec(cancelled, opt_view(*error), elapsed_secs as nat));
            self.backup_finished_msg = Some(string_of(v.as_slice()));
            BackupCheck { running, completed_now: completed }
        } else {
            BackupCheck { running, completed_now: false }
        }
    }

    /// Looks at the format's progress: once it is finished the session stops
    /// counting it as running.
    pub fn check_format(&mut self, finished: bool)
        ensures
            *final(self) == (Session {
                format_running: final(self).format_running,
                ..*old(self)
            }),
            final(self).format_running == (old(self).format_running && !finished),
            final(self).backup_running == old(self).backup_running,
    {
        if self.format_running && finished {
            self.format_running = false;
        }
    }

    /// A backup has just completed at `when`: the configuration records it as
    /// the last backup. The answer says whether the configuration is to be
    /// saved now, which it is unless it holds changes the user has not saved.
    pub fn backup_recorded(&mut self, when: String) -> (save: bool)
        ensures
            *final(self) == (Session {
                config: final(self).config,
                ..*old(self)
            }),
            save == !old(self).config_dirty,
            match config_view(old(self).config) {
                Some(c) => config_view(final(self).config) == Some(
                    ConfigView { last_backup: Some(when@), ..c },
                ),
                None => final(self).config is None,
            },
    {
        match &mut self.config {
            Some(cfg) => {
                cfg.last_backup = Some(when);
            },
            None => {},
        }
        !self.config_dirty
    }
}

// ───────────────────────────── previews ─────────────────────────────

/// A job's rsync command as shown before a backup.
pub struct PreviewCommand {
    pub name: String,
    pub cmd: String,
}

/// The commands a backup would run: for each enabled job, its name and its
/// rsync command line; nothing without a configuration and a mount point.
pub open spec fn preview_list(config: Option<ConfigView>, mount_point: Option<Seq<char>>) -> Seq<
    (Seq<char>, Seq<char>),
> {
    match (config, mount_point) {
        (Some(c), Some(mp)) => {
            let jobs = enabled_jobs(c.jobs);
            Seq::new(
                jobs.len(),
                |i: int| (jobs[i].name, command_line(rsync_arg_list("-av"@, jobs[i], mp))),
            )
        },
        _ => seq![],
    }
}

/// The commands a backup would run (see `preview_list`).
pub fn preview_commands(config: &Option<Config>, mount_point: &Option<String>) -> (r: Vec<PreviewCommand>)
    ensures
        Seq::new(r@.len(), |i: int| (r@[i].name@, r@[i].cmd@)) == preview_list(
            config_view(*config),
            opt_view(*mount_point),
        ),
{
    match (config, mount_point) {
        (Some(cfg), Some(mp)) => {
            let jobs = crate::backup::enabled_jobs_of(cfg);
            let ghost want = enabled_jobs(cfg@.jobs);
            let mut out: Vec<PreviewCommand> = Vec::new();
            let mut i: usize = 0;
            while i < jobs.len()
                invariant
                    i <= jobs@.len(),
                    job_views(jobs@) == want,
                    out@.len() == i,
                    forall|k: int|
                        0 <= k < i ==> (#[trigger] out@[k]).name@ == want[k].name && out@[k].cmd@
                            == command_line(rsync_arg_list("-av"@, want[k], mp@)),
                decreases jobs@.len() - i,
            {
                let cmd = crate::backup::rsync_command_string(&jobs[i], mp.as_str());
                assert(jobs@[i as int]@ == want[i as int]);
                out.push(PreviewCommand { name: jobs[i].name.clone(), cmd });
                i += 1;
            }
            assert(Seq::new(out@.len(), |k: int| (out@[k].name@, out@[k].cmd@)) =~= preview_list(
                config_view(*config),
                opt_view(*mount_point),
            ));
            out
        },
        _ => {
            let out: Vec<PreviewCommand> = Vec::new();
            assert(Seq::new(out@.len(), |k: int| (out@[k].name@, out@[k].cmd@)) =~= preview_list(
                config_view(*config),
                opt_view(*mount_point),
            ));
            out
        },
    }
}


/// A step of ejecting the open drive.
pub enum EjectAction {
    /// Unmount this device (`udisksctl unmount`).
    Unmount(String),
    /// Lock this LUKS container (`udisksctl lock`).
    Lock(String),
    /// Power off this device (`udisksctl power-off`); how that goes does not
    /// change the outcome.
    PowerOff(String),
    /// The eject is over: the drive is gone (`Ok`), or the reason it could not
    /// be released, in which case the session stays as it was.
    Done(Result<(), String>),
}

/// The first step of ejecting by `plan`: unmount, or nothing to do.
pub fn first_eject_action(plan: &EjectPlan) -> (a: EjectAction)
    ensures
        match plan {
            EjectPlan::UnmountAndLock { cleartext, .. } => a matches EjectAction::Unmount(d) && d@ == cleartext@,
            EjectPlan::Unmount { device } => a matches EjectAction::Unmount(d) && d@ == device@,
            EjectPlan::Nothing => a matches EjectAction::Done(Ok(())),
        },
{
    match plan {
        EjectPlan::UnmountAndLock { cleartext, .. } => EjectAction::Unmount(cleartext.clone()),
        EjectPlan::Unmount { device } => EjectAction::Unmount(device.clone()),
        EjectPlan::Nothing => EjectAction::Done(Ok(())),
    }
}

/// The step after `done` went as `result`: a failed unmount or lock ends the
/// eject with its error; an unlocked volume is locked after it is unmounted;
/// the released device is powered off; and once it is, the eject is over
/// whatever powering off gave.
pub fn next_eject_action(plan: &EjectPlan, done: &EjectAction, result: Result<(), String>) -> (a: EjectAction)
    ensures
        match done {
            EjectAction::Unmount(_) | EjectAction::Lock(_) => match result {
                Err(e) => a matches EjectAction::Done(Err(x)) && x@ == e@,
                Ok(()) => match (done, plan) {
                    (EjectAction::Unmount(_), EjectPlan::UnmountAndLock { luks, .. }) => a matches EjectAction::Lock(
                        l,
                    ) && l@ == luks@,
                    (EjectAction::Unmount(_), EjectPlan::Unmount { device }) => a matches EjectAction::PowerOff(
                        d,
                    ) && d@ == device@,
                    (EjectAction::Lock(_), EjectPlan::UnmountAndLock { luks, .. }) => a matches EjectAction::PowerOff(
                        d,
                    ) && d@ == luks@,
                    _ => a matches EjectAction::Done(Ok(())),
                },
            },
            EjectAction::PowerOff(_) => a matches EjectAction::Done(Ok(())),
            EjectAction::Done(r) => match r {
                Ok(()) => a matches EjectAction::Done(Ok(())),
                Err(e) => a matches EjectAction::Done(Err(x)) && x@ == e@,
            },
        },
{
    match done {
        EjectAction::Unmount(_) | EjectAction::Lock(_) => match result {
            Err(e) => EjectAction::Done(Err(e)),
            Ok(()) => match (done, plan) {
                (EjectAction::Unmount(_), EjectPlan::UnmountAndLock { luks, .. }) => EjectAction::Lock(luks.clone()),
                (EjectAction::Unmount(_), EjectPlan::Unmount { device }) => EjectAction::PowerOff(device.clone()),
                (EjectAction::Lock(_), EjectPlan::UnmountAndLock { luks, .. }) => EjectAction::PowerOff(luks.clone()),
                _ => EjectAction::Done(Ok(())),
            },
        },
        EjectAction::PowerOff(_) => EjectAction::Done(Ok(())),
        EjectAction::Done(r) => match r {
            Ok(()) => EjectAction::Done(Ok(())),
            Err(e) => EjectAction::Done(Err(e.clone())),
        },
    }
}

} // verus!
