//! What the screens of the desktop edition decide: which screen shows, the
//! drive list, the job editor, and what happens once a backup ends.
use vstd::prelude::*;
use crate::backup::{backup_end_message_spec, owned};
use crate::config::{copy_job, Config, ConfigView, JobView, SyncJob, SyncMode};
use crate::desktop::drives::Drive;
use crate::drives::{display_name_of, opt_view};
use crate::text::{
    chars_of, is_white_space, join, lines, lines_from, lines_of, push_chars, push_joined, push_str,
    string_of, strip_cr, trim, trim_chars, trim_end, trim_start, views_of,
};

verus! {

/// The screens of the desktop edition.
#[derive(Debug, Clone, Copy, PartialEq, Eq, Structural)]
pub enum Screen {
    DriveSelect,
    PasswordPrompt,
    ConfigEditor,
    Backup,
    /// Editing the job at this index (past the last job for a new one).
    JobEdit(usize),
}

/// The line a drive gets in the drive list: its name, size and filesystem
/// type, and `[LUKS]` when it is encrypted.
pub open spec fn drive_line(d: crate::drives::DriveView) -> Seq<char> {
    display_name_of(d) + " "@ + (match d.size {
        Some(s) => s,
        None => seq![],
    }) + " "@ + (match d.fstype {
        Some(s) => s,
        None => seq![],
    }) + (if d.is_encrypted {
        " [LUKS]"@
    } else {
        seq![]
    })
}

/// The line a drive gets in the drive list (see `drive_line`).
pub fn drive_label(d: &Drive) -> (s: String)
    ensures
        s@ == drive_line(d@),
{
    let mut v: Vec<char> = Vec::new();
    let name = d.display_name();
    push_str(&mut v, name.as_str());
    push_str(&mut v, " ");
    match &d.size {
        Some(s) => push_str(&mut v, s.as_str()),
        None => {},
    }
    push_str(&mut v, " ");
    match &d.fstype {
        Some(s) => push_str(&mut v, s.as_str()),
        None => {},
    }
    if d.is_encrypted {
        push_str(&mut v, " [LUKS]");
    }
    assert(v@ =~= drive_line(d@));
    string_of(v.as_slice())
}

/// The device-mapper name a LUKS drive is unlocked as: `backer-` and the
/// first eight characters of its UUID without dashes (`backer` when it has
/// no UUID).
pub open spec fn mapper_name_for(uuid: Option<Seq<char>>) -> Seq<char> {
    let u = crate::text::remove_char(
        match uuid {
            Some(u) => u,
            None => "backer"@,
        },
        '-',
    );
    "backer-"@ + if u.len() <= 8 {
        u
    } else {
        u.take(8)
    }
}

/// The device-mapper name a LUKS drive is unlocked as (see `mapper_name_for`).
pub fn mapper_name(uuid: &Option<String>) -> (s: String)
    ensures
        s@ == mapper_name_for(opt_view(*uuid)),
{
    let raw = match uuid {
        Some(u) => chars_of(u.as_str()),
        None => chars_of("backer"),
    };
    let u = crate::text::remove_char_exec(raw.as_slice(), '-');
    let n = if u.len() <= 8 {
        u.len()
    } else {
        8
    };
    let short = crate::text::prefix(u.as_slice(), n);
    let mut v: Vec<char> = Vec::new();
    push_str(&mut v, "backer-");
    push_chars(&mut v, short.as_slice());
    assert(u@.take(u@.len() as int) =~= u@);
    string_of(v.as_slice())
}

// ───────────────────────────── the job editor ─────────────────────────────

/// The fields of the job editor.
pub struct JobForm {
    pub name: String,
    pub source: String,
    pub dest: String,
    /// The exclude patterns, one per line.
    pub excludes: String,
    pub mode: SyncMode,
    pub enabled: bool,
}

/// The exclude patterns as the editor shows them: one per line.
pub open spec fn excludes_text(excludes: Seq<Seq<char>>) -> Seq<char> {
    join(excludes, seq!['\n'])
}

/// The exclude patterns the editor's text gives: its lines, trimmed, without
/// the blank ones.
pub open spec fn excludes_of(text: Seq<char>) -> Seq<Seq<char>> {
    crate::format::nonblank_lines(lines(text))
}

/// The editor's fields for `job`.
pub fn job_form(job: &SyncJob) -> (f: JobForm)
    ensures
        f.name@ == job@.name,
        f.source@ == job@.source,
        f.dest@ == job@.destination,
        f.excludes@ == excludes_text(job@.excludes),
        f.mode == job.mode,
        f.enabled == job.enabled,
{
    let mut v: Vec<char> = Vec::new();
    push_joined(&mut v, job.excludes.as_slice(), "\n");
    proof {
        reveal_strlit("\n");
        assert("\n"@ =~= seq!['\n']);
    }
    JobForm {
        name: job.name.clone(),
        source: job.source.clone(),
        dest: job.destination.clone(),
        excludes: string_of(v.as_slice()),
        mode: job.mode,
        enabled: job.enabled,
    }
}

/// The job the editor's fields describe.
pub fn job_from_form(f: &JobForm) -> (job: SyncJob)
    ensures
        job@ == (JobView {
            name: f.name@,
            source: f.source@,
            destination: f.dest@,
            excludes: excludes_of(f.excludes@),
            mode: f.mode,
            enabled: f.enabled,
        }),
{
    let tv = chars_of(f.excludes.as_str());
    let ls = lines_of(tv.as_slice());
    let ghost all = lines(f.excludes@);
    let mut ex: Vec<String> = Vec::new();
    let mut i: usize = 0;
    while i < ls.len()
        invariant
            i <= ls@.len(),
            ls@.len() == all.len(),
            all == lines(f.excludes@),
            forall|k: int| 0 <= k < ls@.len() ==> #[trigger] ls@[k]@ == all[k],
            views_of(ex@) == crate::format::nonblank_lines(all.take(i as int)),
        decreases ls@.len() - i,
    {
        assert(all.take(i + 1).drop_last() =~= all.take(i as int));
        assert(all.take(i + 1).last() == ls@[i as int]@);
        let t = trim_chars(ls[i].as_slice());
        if t.len() > 0 {
            let line = string_of(t.as_slice());
            proof {
                crate::text::lemma_views_push(ex@, line);
            }
            ex.push(line);
            assert(views_of(ex@) =~= crate::format::nonblank_lines(all.take(i + 1)));
        }
        i += 1;
    }
    assert(all.take(ls@.len() as int) =~= all);
    SyncJob {
        name: f.name.clone(),
        source: f.source.clone(),
        destination: f.dest.clone(),
        excludes: ex,
        mode: f.mode,
        enabled: f.enabled,
    }
}

// ───────────────────────────── the screens ─────────────────────────────

/// The state of the desktop edition's screens.
pub struct ScreenState {
    pub screen: Screen,
    pub drives: Vec<Drive>,
    pub selected_drive_idx: Option<usize>,
    pub password: String,
    pub password_error: Option<String>,
    pub mount_point: Option<String>,
    pub mapper_name: Option<String>,
    pub config: Option<Config>,
    pub config_dirty: bool,
    pub backup_running: bool,
    pub backup_finished_msg: Option<String>,
    pub form: JobForm,
    pub status_msg: Option<String>,
}

pub open spec fn config_view(c: Option<Config>) -> Option<ConfigView> {
    match c {
        Some(c) => Some(c@),
        None => None,
    }
}

/// What opening the selected drive takes.
pub enum MountPlan {
    /// No drive is selected.
    NoDrive,
    /// It is mounted at this folder already.
    Mounted(String),
    /// Ask for the passphrase.
    AskPassword,
    /// Mount the device.
    Mount { device: String, uuid: Option<String> },
}

impl ScreenState {
    /// The state at start: the drive list, nothing selected.
    pub fn new() -> (s: ScreenState)
        ensures
            s.screen == Screen::DriveSelect,
            s.drives@.len() == 0,
            s.selected_drive_idx is None,
            s.password@.len() == 0,
            s.config is None,
            !s.config_dirty,
            !s.backup_running,
            s.password_error is None,
            s.mount_point is None,
            s.mapper_name is None,
            s.backup_finished_msg is None,
            s.status_msg is None,
            s.form.name@.len() == 0,
            s.form.source@.len() == 0,
            s.form.dest@.len() == 0,
            s.form.excludes@.len() == 0,
            s.form.mode == SyncMode::Backup,
            s.form.enabled,
    {
        ScreenState {
            screen: Screen::DriveSelect,
            drives: Vec::new(),
            selected_drive_idx: None,
            password: String::new(),
            password_error: None,
            mount_point: None,
            mapper_name: None,
            config: None,
            config_dirty: false,
            backup_running: false,
            backup_finished_msg: None,
            form: JobForm {
                name: String::new(),
                source: String::new(),
                dest: String::new(),
                excludes: String::new(),
                mode: SyncMode::Backup,
                enabled: true,
            },
            status_msg: None,
        }
    }

    /// The selected drive, when the selection is in the list.
    pub fn selected_drive(&self) -> (d: Option<&Drive>)
        ensures
            match self.selected_drive_idx {
                Some(i) => if i < self.drives@.len() {
                    d matches Some(x) && *x == self.drives@[i as int]
                } else {
                    d is None
                },
                None => d is None,
            },
    {
        match self.selected_drive_idx {
            Some(i) => if i < self.drives.len() {
                Some(&self.drives[i])
            } else {
                None
            },
            None => None,
        }
    }

    /// How the selected drive is opened: a mounted one where it is mounted
    /// (at `/` when no mount point is known), an encrypted one after asking
    /// for the passphrase, any other by mounting it.
    pub fn mount_plan(&mut self) -> (p: MountPlan)
        ensures
            *final(self) == (ScreenState {
                screen: final(self).screen,
                ..*old(self)
            }),
            final(self).selected_drive_idx == old(self).selected_drive_idx,
            final(self).drives@ == old(self).drives@,
            match old(self).selected_drive_idx {
                Some(i) if i < old(self).drives@.len() => {
                    let d = old(self).drives@[i as int];
                    if d.mountpoint is Some {
                        (p matches MountPlan::Mounted(m) && m@ == d.mountpoint->0@) && final(self).screen
                            == old(self).screen
                    } else if d.is_encrypted {
                        p is AskPassword && final(self).screen == Screen::PasswordPrompt
                    } else {
                        (p matches MountPlan::Mount { device, uuid } && device@ == d.device@ && opt_view(
                            uuid,
                        ) == opt_view(d.uuid)) && final(self).screen == old(self).screen
                    }
                },
                _ => p is NoDrive && final(self).screen == old(self).screen,
            },
    {
        let plan = match self.selected_drive() {
            None => MountPlan::NoDrive,
            Some(d) => {
                if d.is_mounted() {
                    match &d.mountpoint {
                        Some(m) => MountPlan::Mounted(m.clone()),
                        None => MountPlan::Mounted(owned("/")),
                    }
                } else if d.is_encrypted {
                    MountPlan::AskPassword
                } else {
                    MountPlan::Mount {
                        device: d.device.clone(),
                        uuid: match &d.uuid {
                            Some(u) => Some(u.clone()),
                            None => None,
                        },
                    }
                }
            },
        };
        if let MountPlan::AskPassword = plan {
            self.screen = Screen::PasswordPrompt;
        }
        plan
    }

    /// The drive is open at `mount_point` with `config` (or, when the
    /// configuration could not be read, the default one and the reason):
    /// the configuration editor shows.
    pub fn opened(&mut self, mount_point: String, config: Config, error: Option<String>)
        ensures
            *final(self) == (ScreenState {
                mount_point: final(self).mount_point,
                config: final(self).config,
                config_dirty: final(self).config_dirty,
                status_msg: final(self).status_msg,
                screen: final(self).screen,
                ..*old(self)
            }),
            opt_view(final(self).mount_point) == Some(mount_point@),
            config_view(final(self).config) == Some(config@),
            final(self).screen == Screen::ConfigEditor,
            error is None ==> !final(self).config_dirty && final(self).status_msg == old(self).status_msg,
            error matches Some(e) ==> final(self).config_dirty == old(self).config_dirty && opt_view(
                final(self).status_msg,
            ) == Some("Config error: "@ + e@),
    {
        self.mount_point = Some(mount_point);
        match error {
            None => {
                self.config = Some(config);
                self.config_dirty = false;
            },
            Some(e) => {
                let mut v: Vec<char> = Vec::new();
                push_str(&mut v, "Config error: ");
                push_str(&mut v, e.as_str());
                self.status_msg = Some(string_of(v.as_slice()));
                self.config = Some(config);
            },
        }
        self.screen = Screen::ConfigEditor;
    }

    /// Leaves the passphrase prompt for the drive list, forgetting what was typed.
    pub fn cancel_password(&mut self)
        ensures
            *final(self) == (ScreenState {
                screen: final(self).screen,
                password: final(self).password,
                password_error: final(self).password_error,
                ..*old(self)
            }),
            final(self).screen == Screen::DriveSelect,
            final(self).password@.len() == 0,
            final(self).password_error is None,
    {
        self.screen = Screen::DriveSelect;
        self.password = String::new();
        self.password_error = None;
    }

    /// Opens the editor on the job at `idx`; does nothing when there is none.
    pub fn start_editing_job(&mut self, idx: usize)
        ensures
            *final(self) == (ScreenState {
                form: final(self).form,
                screen: final(self).screen,
                ..*old(self)
            }),
            match config_view(old(self).config) {
                Some(c) => if idx < c.jobs.len() {
                    final(self).screen == Screen::JobEdit(idx) && final(self).form.name@ == c.jobs[idx as int].name
                        && final(self).form.source@ == c.jobs[idx as int].source
                        && final(self).form.dest@ == c.jobs[idx as int].destination
                        && final(self).form.excludes@ == excludes_text(c.jobs[idx as int].excludes)
                        && final(self).form.mode == c.jobs[idx as int].mode
                        && final(self).form.enabled == c.jobs[idx as int].enabled
                } else {
                    final(self).screen == old(self).screen
                },
                None => final(self).screen == old(self).screen,
            },
            config_view(final(self).config) == config_view(old(self).config),
            final(self).config_dirty == old(self).config_dirty,
            final(self).mount_point == old(self).mount_point,
            final(self).backup_running == old(self).backup_running,
    {
        match &self.config {
            Some(cfg) => {
                if idx < cfg.jobs.len() {
                    self.form = job_form(&cfg.jobs[idx]);
                    self.screen = Screen::JobEdit(idx);
                }
            },
            None => {},
        }
    }

    /// Saves the editor's job at `idx`, or appends it when `idx` is past the
    /// last job, and goes back to the configuration editor.
    pub fn commit_job_edit(&mut self, idx: usize)
        ensures
            *final(self) == (ScreenState {
                config: final(self).config,
                config_dirty: final(self).config_dirty,
                screen: final(self).screen,
                ..*old(self)
            }),
            final(self).screen == Screen::ConfigEditor,
            match config_view(old(self).config) {
                Some(c) => final(self).config_dirty && config_view(final(self).config) == Some(
                    ConfigView {
                        jobs: if idx < c.jobs.len() {
                            c.jobs.update(idx as int, job_from_form_spec(old(self).form))
                        } else {
                            c.jobs.push(job_from_form_spec(old(self).form))
                        },
                        ..c
                    },
                ),
                None => final(self).config is None && final(self).config_dirty == old(self).config_dirty,
            },
    {
        let job = job_from_form(&self.form);
        match &mut self.config {
            Some(cfg) => {
                cfg.put_job(idx, job);
                self.config_dirty = true;
            },
            None => {},
        }
        self.screen = Screen::ConfigEditor;
    }

    /// Turns a job on or off from the job list.
    pub fn toggle_job(&mut self, idx: usize, enabled: bool)
        ensures
            *final(self) == (ScreenState {
                config: final(self).config,
                config_dirty: final(self).config_dirty,
                ..*old(self)
            }),
            match config_view(old(self).config) {
                Some(c) => if idx < c.jobs.len() {
                    final(self).config_dirty && config_view(final(self).config) == Some(
                        ConfigView {
                            jobs: c.jobs.update(idx as int, JobView { enabled, ..c.jobs[idx as int] }),
                            ..c
                        },
                    )
                } else {
                    config_view(final(self).config) == Some(c) && final(self).config_dirty == old(
                        self,
                    ).config_dirty
                },
                None => final(self).config is None && final(self).config_dirty == old(self).config_dirty,
            },
    {
        match &mut self.config {
            Some(cfg) => {
                if cfg.set_enabled(idx, enabled) {
                    self.config_dirty = true;
                }
            },
            None => {},
        }
    }

    /// Adds a job named `Job <n>` backing up `home` and opens it in the editor.
    pub fn add_job(&mut self, home: String)
        requires
            old(self).config matches Some(c) ==> c.jobs@.len() < u64::MAX,
        ensures
            *final(self) == (ScreenState {
                config: final(self).config,
                config_dirty: final(self).config_dirty,
                form: final(self).form,
                screen: final(self).screen,
                ..*old(self)
            }),
            match config_view(old(self).config) {
                Some(c) => final(self).config_dirty && final(self).screen == Screen::JobEdit(
                    c.jobs.len() as usize,
                ) && (config_view(final(self).config) matches Some(n) && n.jobs.drop_last()
                    == c.jobs && n.jobs.len() == c.jobs.len() + 1 && crate::config::is_new_job(
                    n.jobs.last(),
                    crate::config::numbered_job_name((c.jobs.len() + 1) as nat),
                    home@,
                )) && final(self).form.name@ == crate::config::numbered_job_name((c.jobs.len() + 1) as nat)
                    && final(self).form.source@ == home@ && final(self).form.dest@
                    == crate::config::default_destination(home@) && final(self).form.excludes@.len() == 0
                    && final(self).form.mode == SyncMode::Backup && final(self).form.enabled,
                None => *final(self) == *old(self),
            },
    {
        let added: Option<usize> = match &mut self.config {
            Some(cfg) => {
                let idx = cfg.jobs.len();
                cfg.add_job(home);
                Some(idx)
            },
            None => None,
        };
        if let Some(idx) = added {
            self.config_dirty = true;
            self.start_editing_job(idx);
        }
    }

    /// A backup starts: the backup screen shows. Needs a configuration and a
    /// mount point; without them nothing happens.
    pub fn start_backup(&mut self) -> (started: bool)
        ensures
            *final(self) == (ScreenState {
                backup_running: final(self).backup_running,
                backup_finished_msg: final(self).backup_finished_msg,
                screen: final(self).screen,
                ..*old(self)
            }),
            started <==> (old(self).config is Some && old(self).mount_point is Some),
            started ==> final(self).backup_running && final(self).backup_finished_msg is None
                && final(self).screen == Screen::Backup,
            !started ==> final(self).screen == old(self).screen && final(self).backup_running == old(
                self,
            ).backup_running,
    {
        if self.config.is_none() || self.mount_point.is_none() {
            return false;
        }
        self.backup_running = true;
        self.backup_finished_msg = None;
        self.screen = Screen::Backup;
        true
    }

    /// Looks at the backup: once it is finished or failed it no longer runs,
    /// and the message that ends it is kept. Answers whether it completed just
    /// now, in which case the time of the backup is to be recorded and the
    /// configuration saved when it has no unsaved changes.
    pub fn check_backup(&mut self, finished: bool, error: &Option<String>, elapsed_secs: u64) -> (completed: bool)
        ensures
            *final(self) == (ScreenState {
                backup_running: final(self).backup_running,
                backup_finished_msg: final(self).backup_finished_msg,
                ..*old(self)
            }),
            old(self).backup_running && (finished || error is Some) ==> !final(self).backup_running
                && opt_view(final(self).backup_finished_msg) == Some(
                backup_end_message_spec(false, opt_view(*error), elapsed_secs as nat),
            ) && completed == (error is None),
            !(old(self).backup_running && (finished || error is Some)) ==> final(self).backup_running
                == old(self).backup_running && !completed,
            config_view(final(self).config) == config_view(old(self).config),
    {
        if self.backup_running && (finished || error.is_some()) {
            self.backup_running = false;
            let mut v: Vec<char> = Vec::new();
            let completed = match error {
                Some(e) => {
                    push_str(&mut v, "Backup failed: ");
                    push_str(&mut v, e.as_str());
                    false
                },
                None => {
                    push_str(&mut v, "Backup complete in ");
                    let d = crate::backup::format_duration(elapsed_secs);
                    push_str(&mut v, d.as_str());
                    push_str(&mut v, "!");
                    true
                },
            };
            assert(v@ =~= backup_end_message_spec(false, opt_view(*error), elapsed_secs as nat));
            self.backup_finished_msg = Some(string_of(v.as_slice()));
            completed
        } else {
            false
        }
    }
}

/// The job the editor's fields describe (see `job_from_form`).
pub open spec fn job_from_form_spec(f: JobForm) -> JobView {
    JobView {
        name: f.name@,
        source: f.source@,
        destination: f.dest@,
        excludes: excludes_of(f.excludes@),
        mode: f.mode,
        enabled: f.enabled,
    }
}


impl ScreenState {
    /// The drive list was read again: it replaces the old one, or the reason
    /// it could not be read is shown.
    pub fn drives_refreshed(&mut self, result: Result<Vec<Drive>, String>)
        ensures
            *final(self) == (ScreenState {
                drives: final(self).drives,
                status_msg: final(self).status_msg,
                ..*old(self)
            }),
            match result {
                Ok(d) => final(self).drives@ == d@ && final(self).status_msg is None,
                Err(e) => final(self).drives@ == old(self).drives@ && opt_view(final(self).status_msg)
                    == Some("Error listing drives: "@ + e@),
            },
    {
        match result {
            Ok(d) => {
                self.drives = d;
                self.status_msg = None;
            },
            Err(e) => {
                let mut v: Vec<char> = Vec::new();
                push_str(&mut v, "Error listing drives: ");
                push_str(&mut v, e.as_str());
                self.status_msg = Some(string_of(v.as_slice()));
            },
        }
    }

    /// Mounting a plain drive failed: the reason is shown.
    pub fn mount_failed(&mut self, err: &str)
        ensures
            *final(self) == (ScreenState {
                status_msg: final(self).status_msg,
                ..*old(self)
            }),
            opt_view(final(self).status_msg) == Some("Mount failed: "@ + err@),
            final(self).screen == old(self).screen,
    {
        let mut v: Vec<char> = Vec::new();
        push_str(&mut v, "Mount failed: ");
        push_str(&mut v, err);
        self.status_msg = Some(string_of(v.as_slice()));
    }

    /// The passphrase was tried: when it opened the drive, what was typed is
    /// forgotten; otherwise the prompt shows why. Answers whether it opened.
    pub fn unlocked(&mut self, result: Result<(), String>) -> (ok: bool)
        ensures
            *final(self) == (ScreenState {
                password: final(self).password,
                password_error: final(self).password_error,
                ..*old(self)
            }),
            ok == (result is Ok),
            ok ==> final(self).password@.len() == 0 && final(self).password_error is None,
            result matches Err(e) ==> opt_view(final(self).password_error) == Some(
                "Unlock failed: "@ + e@,
            ) && final(self).password == old(self).password,
            final(self).screen == old(self).screen,
    {
        match result {
            Ok(()) => {
                self.password = String::new();
                self.password_error = None;
                true
            },
            Err(e) => {
                let mut v: Vec<char> = Vec::new();
                push_str(&mut v, "Unlock failed: ");
                push_str(&mut v, e.as_str());
                self.password_error = Some(string_of(v.as_slice()));
                false
            },
        }
    }

    /// Mounting the unlocked drive failed: the prompt shows why.
    pub fn unlocked_mount_failed(&mut self, err: &str)
        ensures
            *final(self) == (ScreenState {
                password_error: final(self).password_error,
                ..*old(self)
            }),
            opt_view(final(self).password_error) == Some("Mount failed: "@ + err@),
            final(self).screen == old(self).screen,
    {
        let mut v: Vec<char> = Vec::new();
        push_str(&mut v, "Mount failed: ");
        push_str(&mut v, err);
        self.password_error = Some(string_of(v.as_slice()));
    }

    /// The unlocked drive, opened as the mapper volume `mapper`, is mounted
    /// at `mount_point` (see `opened`).
    pub fn unlocked_and_opened(&mut self, mapper: String, mount_point: String, config: Config, error: Option<String>)
        ensures
            *final(self) == (ScreenState {
                mapper_name: final(self).mapper_name,
                mount_point: final(self).mount_point,
                config: final(self).config,
                config_dirty: final(self).config_dirty,
                status_msg: final(self).status_msg,
                screen: final(self).screen,
                ..*old(self)
            }),
            opt_view(final(self).mapper_name) == Some(mapper@),
            opt_view(final(self).mount_point) == Some(mount_point@),
            config_view(final(self).config) == Some(config@),
            final(self).screen == Screen::ConfigEditor,
            error is None ==> !final(self).config_dirty && final(self).status_msg == old(self).status_msg,
            error matches Some(e) ==> final(self).config_dirty == old(self).config_dirty && opt_view(
                final(self).status_msg,
            ) == Some("Config error: "@ + e@),
    {
        self.opened(mount_point, config, error);
        self.mapper_name = Some(mapper);
    }

    /// The configuration was written, or could not be: on success it has no
    /// unsaved changes left.
    pub fn config_saved(&mut self, result: Result<(), String>)
        ensures
            *final(self) == (ScreenState {
                config_dirty: final(self).config_dirty,
                status_msg: final(self).status_msg,
                ..*old(self)
            }),
            match result {
                Ok(()) => !final(self).config_dirty && opt_view(final(self).status_msg) == Some(
                    "Configuration saved."@,
                ),
                Err(e) => final(self).config_dirty == old(self).config_dirty && opt_view(
                    final(self).status_msg,
                ) == Some("Save failed: "@ + e@),
            },
    {
        match result {
            Ok(()) => {
                self.config_dirty = false;
                self.status_msg = Some(owned("Configuration saved."));
            },
            Err(e) => {
                let mut v: Vec<char> = Vec::new();
                push_str(&mut v, "Save failed: ");
                push_str(&mut v, e.as_str());
                self.status_msg = Some(string_of(v.as_slice()));
            },
        }
    }
}


impl ScreenState {
    /// A backup completed at `when`: the configuration records it. Answers
    /// whether the configuration is to be saved now, which it is when it had
    /// no unsaved changes.
    pub fn backup_recorded(&mut self, when: String) -> (save: bool)
        ensures
            *final(self) == (ScreenState {
                config: final(self).config,
                ..*old(self)
            }),
            save == !old(self).config_dirty,
            final(self).config_dirty == old(self).config_dirty,
            opt_view(final(self).mount_point) == opt_view(old(self).mount_point),
            match config_view(old(self).config) {
                Some(c) => config_view(final(self).config) == Some(
                    ConfigView { last_backup: Some(when@), ..c },
                ),
                None => final(self).config is None,
            },
    {
        match &mut self.config {
            Some(cfg) => {
                cfg.last_backup = Some(when);
            },
            None => {},
        }
        !self.config_dirty
    }
}


proof fn lemma_trim_start_tail(s: Seq<char>)
    ensures
        trim_start(s).len() <= s.len(),
        trim_start(s).len() > 0 ==> trim_start(s).last() == s.last(),
    decreases s.len(),
{
    if s.len() > 0 && is_white_space(s[0]) {
        lemma_trim_start_tail(s.drop_first());
    }
}

proof fn lemma_trim_end_shorter(s: Seq<char>)
    ensures
        trim_end(s).len() <= s.len(),
        s.len() > 0 && is_white_space(s.last()) ==> trim_end(s).len() < s.len(),
    decreases s.len(),
{
    if s.len() > 0 && is_white_space(s.last()) {
        lemma_trim_end_shorter(s.drop_last());
    }
}

/// A trimmed, non-empty text does not end in white space.
proof fn lemma_trimmed_last(x: Seq<char>)
    requires
        x.len() > 0,
        trim(x) == x,
    ensures
        !is_white_space(x.last()),
{
    let t = trim_start(x);
    lemma_trim_start_tail(x);
    lemma_trim_end_shorter(t);
}

/// Text without line breaks stays in the line being read.
proof fn lemma_lines_plain(s: Seq<char>, t: Seq<char>, cur: Seq<char>)
    requires
        !s.contains('\n'),
    ensures
        lines_from(s + t, cur) == lines_from(t, cur + s),
    decreases s.len(),
{
    if s.len() == 0 {
        assert(s + t =~= t);
        assert(cur + s =~= cur);
    } else {
        assert(s[0] != '\n') by {
            if s[0] == '\n' {
                assert(s.contains('\n'));
            }
        }
        let r = s.drop_first();
        assert(!r.contains('\n')) by {
            if r.contains('\n') {
                let i = choose|i: int| 0 <= i < r.len() && r[i] == '\n';
                assert(s[i + 1] == '\n');
            }
        }
        assert((s + t).drop_first() =~= r + t);
        assert((s + t)[0] == s[0]);
        lemma_lines_plain(r, t, cur.push(s[0]));
        assert(cur.push(s[0]) + r =~= cur + s);
    }
}

/// Patterns the editor shows unchanged: not empty, trimmed, on one line.
pub open spec fn editable_patterns(xs: Seq<Seq<char>>) -> bool {
    forall|i: int| 0 <= i < xs.len() ==> #[trigger] xs[i].len() > 0 && trim(xs[i]) == xs[i] && !xs[i].contains('\n')
}

proof fn lemma_lines_of_joined(xs: Seq<Seq<char>>)
    requires
        xs.len() > 0,
        editable_patterns(xs),
    ensures
        lines(join(xs, seq!['\n'])) == xs,
    decreases xs.len(),
{
    let x0 = xs[0];
    assert(xs[0].len() > 0 && trim(xs[0]) == xs[0] && !xs[0].contains('\n'));
    if xs.len() == 1 {
        assert(x0 + seq![] =~= x0);
        lemma_lines_plain(x0, seq![], seq![]);
        assert(seq![] + x0 =~= x0);
        assert(lines(join(xs, seq!['\n'])) =~= xs);
    } else {
        let rest = xs.drop_first();
        assert(editable_patterns(rest)) by {
            assert forall|i: int| 0 <= i < rest.len() implies #[trigger] rest[i].len() > 0 && trim(rest[i])
                == rest[i] && !rest[i].contains('\n') by {
                assert(rest[i] == xs[i + 1]);
            }
        }
        lemma_lines_of_joined(rest);
        crate::text::lemma_join_front(xs, seq!['\n']);
        let tail = seq!['\n'] + join(rest, seq!['\n']);
        assert(x0 + seq!['\n'] + join(rest, seq!['\n']) =~= x0 + tail);
        lemma_lines_plain(x0, tail, seq![]);
        assert(seq![] + x0 =~= x0);
        assert(tail[0] == '\n');
        assert(tail.drop_first() =~= join(rest, seq!['\n']));
        lemma_trimmed_last(x0);
        assert(x0.last() != '\r') by {
            if x0.last() == '\r' {
                assert(is_white_space('\r'));
            }
        }
        assert(strip_cr(x0) == x0);
        assert(lines(join(xs, seq!['\n'])) =~= seq![x0] + rest);
        assert(seq![x0] + rest =~= xs);
    }
}

proof fn lemma_nonblank_kept(xs: Seq<Seq<char>>)
    requires
        editable_patterns(xs),
    ensures
        crate::format::nonblank_lines(xs) == xs,
    decreases xs.len(),
{
    if xs.len() > 0 {
        let ys = xs.drop_last();
        assert(editable_patterns(ys)) by {
            assert forall|i: int| 0 <= i < ys.len() implies #[trigger] ys[i].len() > 0 && trim(ys[i]) == ys[i]
                && !ys[i].contains('\n') by {
                assert(ys[i] == xs[i]);
            }
        }
        lemma_nonblank_kept(ys);
        assert(xs[xs.len() - 1].len() > 0 && trim(xs[xs.len() - 1]) == xs[xs.len() - 1]);
        assert(ys.push(xs.last()) =~= xs);
    }
}

/// Editing a job keeps it: the job the editor's fields give back, for a job
/// whose exclude patterns are not empty, trimmed and on one line each, is the
/// job the editor was opened on.
pub proof fn editing_keeps_a_job(job: JobView)
    requires
        editable_patterns(job.excludes),
    ensures
        excludes_of(excludes_text(job.excludes)) == job.excludes,
        (JobView { excludes: excludes_of(excludes_text(job.excludes)), ..job }) == job,
{
    if job.excludes.len() == 0 {
        assert(excludes_text(job.excludes) == Seq::<char>::empty());
        assert(lines(Seq::<char>::empty()) =~= Seq::<Seq<char>>::empty());
        assert(excludes_of(excludes_text(job.excludes)) =~= job.excludes);
    } else {
        lemma_lines_of_joined(job.excludes);
        lemma_nonblank_kept(job.excludes);
    }
}

} // verus!
