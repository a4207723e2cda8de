//! Formatting in the desktop edition: the drive is always encrypted with LUKS
//! and formatted as btrfs, it is erased with `wipefs` rather than zeroed, and
//! the run stops at the first failure, except that the mapper volume is
//! closed again once `mkfs.btrfs` has run.
use vstd::prelude::*;
use crate::backup::owned;
use crate::drives::{first_partition, partition_path};
use crate::format::{
    advance_step, advance_to, count_advances, device_ready, doas_passphrase_step, doas_step,
    doas_step_view, lemma_count_concat, mapper_device, mapper_name, output_lines, partition_missing,
    asks_for, awaits, preflight, preflight_failure, preflight_log, push_step, step_views, strings, waiting_for,
    ActionView, Awaiting, CommandOutput, FormatAction, FormatRequest, FormatStep, LaunchFailure,
    Preflight, PreflightFacts, StepView,
};
use crate::text::{push_signed_decimal, push_str, signed_decimal, string_of, trim, views_of};

pub use crate::format::{DriveInfo, FormatProgress};

verus! {

/// The steps that erase the drive and, for a whole disk, partition it and
/// wait for the partition.
pub open spec fn wipe_plan(device: Seq<char>, is_disk: bool) -> Seq<StepView> {
    let wipe = doas_step_view(seq!["wipefs"@, "-a"@, device], false, false);
    if is_disk {
        seq![
            advance_step("Wiping drive"@),
            wipe,
            advance_step("Creating partition"@),
            doas_step_view(
                seq!["parted"@, "-s"@, device, "mklabel"@, "gpt"@, "mkpart"@, "primary"@, "0%"@, "100%"@],
                false,
                false,
            ),
            StepView { preview: None, action: ActionView::WaitForDevice(first_partition(device)) },
        ]
    } else {
        seq![advance_step("Wiping partition"@), wipe]
    }
}

/// The steps that make the partition `part` a LUKS2 container (the
/// passphrase goes on standard input), open it as the mapper volume and
/// check that the volume is there.
pub open spec fn encrypt_plan(part: Seq<char>) -> Seq<StepView> {
    seq![
        advance_step("Encrypting with LUKS"@),
        doas_step_view(
            seq!["cryptsetup"@, "luksFormat"@, "--type"@, "luks2"@, "--batch-mode"@, "--key-file"@, "-"@, part],
            true,
            false,
        ),
        advance_step("Formatting filesystem (btrfs)"@),
        doas_step_view(seq!["cryptsetup"@, "luksOpen"@, "--key-file"@, "-"@, part, mapper_name()], true, false),
        StepView { preview: None, action: ActionView::CheckDevice(mapper_device()) },
    ]
}

/// The steps before `mkfs.btrfs` of formatting `device`: a whole disk gets a
/// GPT table with one partition, which is then encrypted; a partition is
/// encrypted itself.
pub open spec fn desktop_plan(device: Seq<char>, is_disk: bool) -> Seq<StepView> {
    let part = if is_disk {
        first_partition(device)
    } else {
        device
    };
    wipe_plan(device, is_disk) + encrypt_plan(part)
}

/// The `mkfs.btrfs` command that formats the mapper volume with `label`.
pub open spec fn mkfs_args(label: Seq<char>) -> Seq<Seq<char>> {
    seq!["mkfs.btrfs"@, "-L"@, label, mapper_device()]
}

/// The command that closes the mapper volume.
pub open spec fn close_args() -> Seq<Seq<char>> {
    seq!["cryptsetup"@, "luksClose"@, mapper_name()]
}

fn push_owned(v: &mut Vec<String>, s: String)
    ensures
        views_of(final(v)@) == views_of(old(v)@).push(s@),
{
    proof {
        crate::text::lemma_views_push(v@, s);
    }
    v.push(s);
}

/// The steps before `mkfs.btrfs` (see `desktop_plan`).
pub fn desktop_format_steps(device: &str, is_disk: bool) -> (steps: Vec<FormatStep>)
    ensures
        step_views(steps@) == desktop_plan(device@, is_disk),
{
    let mut steps: Vec<FormatStep> = Vec::new();
    let mut wipe = strings(&["wipefs", "-a"]);
    push_owned(&mut wipe, owned(device));
    assert(views_of(wipe@) =~= seq!["wipefs"@, "-a"@, device@]);
    let part: String = if is_disk {
        push_step(&mut steps, advance_to(owned("Wiping drive")));
        push_step(&mut steps, doas_step(wipe));
        push_step(&mut steps, advance_to(owned("Creating partition")));
        let mut pa = strings(&["parted", "-s"]);
        push_owned(&mut pa, owned(device));
        push_owned(&mut pa, owned("mklabel"));
        push_owned(&mut pa, owned("gpt"));
        push_owned(&mut pa, owned("mkpart"));
        push_owned(&mut pa, owned("primary"));
        push_owned(&mut pa, owned("0%"));
        push_owned(&mut pa, owned("100%"));
        assert(views_of(pa@) =~= seq![
            "parted"@,
            "-s"@,
            device@,
            "mklabel"@,
            "gpt"@,
            "mkpart"@,
            "primary"@,
            "0%"@,
            "100%"@,
        ]);
        push_step(&mut steps, doas_step(pa));
        let p = partition_path(device);
        push_step(&mut steps, FormatStep { preview: None, action: FormatAction::WaitForDevice(p.clone()) });
        p
    } else {
        push_step(&mut steps, advance_to(owned("Wiping partition")));
        push_step(&mut steps, doas_step(wipe));
        owned(device)
    };
    let ghost head = step_views(steps@);
    assert(head =~= wipe_plan(device@, is_disk));
    push_step(&mut steps, advance_to(owned("Encrypting with LUKS")));
    let mut lf = strings(&["cryptsetup", "luksFormat", "--type", "luks2", "--batch-mode", "--key-file", "-"]);
    push_owned(&mut lf, part.clone());
    assert(views_of(lf@) =~= seq![
        "cryptsetup"@,
        "luksFormat"@,
        "--type"@,
        "luks2"@,
        "--batch-mode"@,
        "--key-file"@,
        "-"@,
        part@,
    ]);
    push_step(&mut steps, doas_passphrase_step(lf));
    push_step(&mut steps, advance_to(owned("Formatting filesystem (btrfs)")));
    let mut lo = strings(&["cryptsetup", "luksOpen", "--key-file", "-"]);
    push_owned(&mut lo, part);
    push_owned(&mut lo, owned("backer-upper-format"));
    assert(views_of(lo@) =~= seq!["cryptsetup"@, "luksOpen"@, "--key-file"@, "-"@, part@, mapper_name()]);
    push_step(&mut steps, doas_passphrase_step(lo));
    push_step(
        &mut steps,
        FormatStep {
            preview: None,
            action: FormatAction::CheckDevice(owned("/dev/mapper/backer-upper-format")),
        },
    );
    let ghost pv = if is_disk {
        first_partition(device@)
    } else {
        device@
    };
    assert(step_views(steps@) =~= head + encrypt_plan(pv));
    steps
}


/// What a desktop format run needs done next.
pub enum DesktopRequest {
    /// The next step of the plan.
    Step(FormatRequest),
    /// Run `mkfs_args` through `doas` without logging it, then log
    /// `close_log`, run `close_args` whatever became of `mkfs.btrfs`, and
    /// report both with `formatted`.
    FormatAndClose { mkfs_args: Vec<String>, close_args: Vec<String>, close_log: String },
}

/// The message when the mapper volume did not appear.
pub open spec fn mapper_unavailable(path: Seq<char>) -> Seq<char> {
    "Mapper device "@ + path + " did not appear after luksOpen. Cannot continue with mkfs.btrfs."@
}

/// The failure that `mkfs.btrfs` ended with, if any: it could not be run, or
/// it exited unsuccessfully (code -1 when a signal ended it).
pub open spec fn mkfs_failure(mkfs: Result<CommandOutput, LaunchFailure>) -> Option<Seq<char>> {
    match mkfs {
        Err(_) => Some("failed to run mkfs.btrfs"@),
        Ok(o) => if o.success {
            None
        } else {
            Some(
                "mkfs.btrfs failed (exit "@ + signed_decimal(
                    match o.code {
                        Some(c) => c as int,
                        None => -1,
                    },
                ) + "): "@ + trim(crate::bytes::lossy_text(o.stderr@)),
            )
        },
    }
}

/// The log lines after the volume was closed: the output of `mkfs.btrfs`,
/// then, when it succeeded and `luksClose` ran, the output of `luksClose`.
pub open spec fn format_close_lines(
    mkfs: Result<CommandOutput, LaunchFailure>,
    close: Result<CommandOutput, LaunchFailure>,
) -> Seq<Seq<char>> {
    match mkfs {
        Err(_) => seq![],
        Ok(o) => output_lines(o.stdout@, o.stderr@) + if o.success {
            match close {
                Ok(c) => output_lines(c.stdout@, c.stderr@),
                Err(_) => seq![],
            }
        } else {
            seq![]
        },
    }
}

/// A desktop format in progress: the steps of `desktop_plan` in order, then
/// `mkfs.btrfs` and `luksClose`. The first failure ends it.
pub struct DesktopFormatRun {
    pub steps: Vec<FormatStep>,
    pub label: String,
    /// Index of the next step.
    pub next: usize,
    /// The failure that ended the run, once there is one.
    pub failure: Option<String>,
    pub awaiting: Option<Awaiting>,
    /// Whether `mkfs.btrfs` was asked for.
    pub formatted: bool,
}

impl DesktopFormatRun {
    /// A run that formats `device` as an encrypted btrfs drive named `label`.
    pub fn new(device: &str, is_disk: bool, label: &str) -> (r: DesktopFormatRun)
        ensures
            step_views(r.steps@) == desktop_plan(device@, is_disk),
            r.label@ == label@,
            r.next == 0,
            r.failure is None,
            r.awaiting is None,
            !r.formatted,
    {
        DesktopFormatRun {
            steps: desktop_format_steps(device, is_disk),
            label: owned(label),
            next: 0,
            failure: None,
            awaiting: None,
            formatted: false,
        }
    }

    /// The next thing to do: the next step while nothing failed, then
    /// `mkfs.btrfs` with `luksClose`; `None` once the run is over.
    pub fn next_request(&mut self) -> (r: Option<DesktopRequest>)
        requires
            old(self).next <= old(self).steps@.len(),
        ensures
            final(self).steps@ == old(self).steps@,
            final(self).label == old(self).label,
            final(self).failure == old(self).failure,
            final(self).next <= final(self).steps@.len(),
            old(self).failure is Some ==> r is None && final(self).next == old(self).next
                && final(self).formatted == old(self).formatted,
            old(self).failure is None && old(self).next < old(self).steps@.len() ==> final(self).next
                == old(self).next + 1 && final(self).formatted == old(self).formatted && (r matches Some(
                DesktopRequest::Step(q),
            ) && asks_for(q, old(self).steps@[old(self).next as int]@)) && awaits(
                final(self).awaiting,
                old(self).steps@[old(self).next as int]@,
            ),
            old(self).failure is None && old(self).next == old(self).steps@.len() && !old(self).formatted
                ==> final(self).formatted && final(self).next == old(self).next && (r matches Some(
                DesktopRequest::FormatAndClose { mkfs_args: m, close_args: c, close_log: l },
            ) && views_of(m@) == mkfs_args(old(self).label@) && views_of(c@) == close_args()
                && l@ == crate::format::command_log_line(close_args())),
            old(self).failure is None && old(self).next == old(self).steps@.len() && old(self).formatted
                ==> r is None && final(self).formatted && final(self).next == old(self).next,
    {
        if self.failure.is_some() {
            return None;
        }
        if self.next < self.steps.len() {
            let k = self.next;
            self.next = k + 1;
            match &self.steps[k].action {
                FormatAction::Advance(name) => {
                    let n = name.clone();
                    self.awaiting = None;
                    Some(DesktopRequest::Step(FormatRequest::Advance(n)))
                },
                FormatAction::Doas { args, needs_passphrase, is_cleanup } => {
                    let a = crate::config::copy_strings(args);
                    let pw = *needs_passphrase;
                    let c = *is_cleanup;
                    self.awaiting = Some(Awaiting::Command { is_cleanup: c });
                    Some(DesktopRequest::Step(FormatRequest::Run { args: a, with_passphrase: pw }))
                },
                FormatAction::WaitForDevice(path) => {
                    let p = path.clone();
                    let q = path.clone();
                    let mut v: Vec<char> = Vec::new();
                    push_str(&mut v, "Waiting for ");
                    push_str(&mut v, path.as_str());
                    push_str(&mut v, " to appear\u{2026}");
                    let announce = string_of(v.as_slice());
                    self.awaiting = Some(Awaiting::Wait(q));
                    Some(DesktopRequest::Step(FormatRequest::WaitFor { path: p, announce }))
                },
                FormatAction::CheckDevice(path) => {
                    let p = path.clone();
                    let q = path.clone();
                    self.awaiting = Some(Awaiting::Check(q));
                    Some(DesktopRequest::Step(FormatRequest::Check { path: p }))
                },
            }
        } else if !self.formatted {
            self.formatted = true;
            let mut m = strings(&["mkfs.btrfs", "-L"]);
            push_owned(&mut m, self.label.clone());
            push_owned(&mut m, owned("/dev/mapper/backer-upper-format"));
            assert(views_of(m@) =~= mkfs_args(self.label@));
            let c = strings(&["cryptsetup", "luksClose", "backer-upper-format"]);
            assert(views_of(c@) =~= close_args());
            let l = crate::format::command_log(&c);
            Some(DesktopRequest::FormatAndClose { mkfs_args: m, close_args: c, close_log: l })
        } else {
            None
        }
    }
}


fn ready_line(path: &str) -> (s: String)
    ensures
        s@ == device_ready(path@),
{
    let mut v: Vec<char> = Vec::new();
    push_str(&mut v, "\u{2713} ");
    push_str(&mut v, path);
    push_str(&mut v, " is ready");
    string_of(v.as_slice())
}

impl DesktopFormatRun {
    /// Reports how a command asked for by `next_request` ended: a failure ends
    /// the run.
    pub fn command_done(&mut self, result: Result<(), String>)
        ensures
            final(self).steps@ == old(self).steps@,
            final(self).label == old(self).label,
            final(self).next == old(self).next,
            final(self).formatted == old(self).formatted,
            final(self).awaiting is None,
            final(self).failure == (match (old(self).failure, result, old(self).awaiting) {
                (None, Err(e), Some(Awaiting::Command { .. })) => Some(e),
                _ => old(self).failure,
            }),
    {
        let was_command = match &self.awaiting {
            Some(Awaiting::Command { .. }) => true,
            _ => false,
        };
        self.awaiting = None;
        if self.failure.is_none() && was_command {
            if let Err(e) = result {
                self.failure = Some(e);
            }
        }
    }

    /// Reports whether the awaited device node is there. Returns the line to
    /// log when it is; when it is not, the run has failed.
    pub fn device_seen(&mut self, present: bool) -> (line: Option<String>)
        ensures
            final(self).steps@ == old(self).steps@,
            final(self).label == old(self).label,
            final(self).next == old(self).next,
            final(self).formatted == old(self).formatted,
            final(self).awaiting is None,
            match old(self).awaiting {
                Some(Awaiting::Wait(p)) => if present {
                    (line matches Some(l) && l@ == device_ready(p@)) && final(self).failure == old(self).failure
                } else {
                    line is None && (old(self).failure is None ==> (final(self).failure matches Some(e)
                        && e@ == partition_missing(p@))) && (old(self).failure is Some ==> final(self).failure == old(self).failure)
                },
                Some(Awaiting::Check(p)) => if present {
                    (line matches Some(l) && l@ == device_ready(p@)) && final(self).failure == old(self).failure
                } else {
                    line is None && (old(self).failure is None ==> (final(self).failure matches Some(e)
                        && e@ == mapper_unavailable(p@))) && (old(self).failure is Some ==> final(self).failure == old(self).failure)
                },
                _ => line is None && final(self).failure == old(self).failure,
            },
    {
        let aw = self.awaiting.take();
        match aw {
            Some(Awaiting::Wait(p)) => {
                if present {
                    Some(ready_line(p.as_str()))
                } else {
                    if self.failure.is_none() {
                        let mut v: Vec<char> = Vec::new();
                        push_str(&mut v, "Partition device ");
                        push_str(&mut v, p.as_str());
                        push_str(
                            &mut v,
                            " did not appear after partitioning. Try replugging the drive and running again.",
                        );
                        self.failure = Some(string_of(v.as_slice()));
                    }
                    None
                }
            },
            Some(Awaiting::Check(p)) => {
                if present {
                    Some(ready_line(p.as_str()))
                } else {
                    if self.failure.is_none() {
                        let mut v: Vec<char> = Vec::new();
                        push_str(&mut v, "Mapper device ");
                        push_str(&mut v, p.as_str());
                        push_str(&mut v, " did not appear after luksOpen. Cannot continue with mkfs.btrfs.");
                        self.failure = Some(string_of(v.as_slice()));
                    }
                    None
                }
            },
            _ => None,
        }
    }
}


impl DesktopFormatRun {
    /// Reports how `mkfs.btrfs` and then `luksClose` ended (`luksClose` ran
    /// after it whatever happened). The output of `mkfs.btrfs` is logged, and
    /// when it succeeded that of `luksClose` too; a failure of `mkfs.btrfs`
    /// ends the run, one of `luksClose` is passed over.
    pub fn formatted(
        &mut self,
        progress: &mut FormatProgress,
        mkfs: &Result<CommandOutput, LaunchFailure>,
        close: &Result<CommandOutput, LaunchFailure>,
    )
        ensures
            final(self).steps@ == old(self).steps@,
            final(self).label == old(self).label,
            final(self).next == old(self).next,
            final(self).formatted == old(self).formatted,
            final(self).awaiting is None,
            old(self).failure is Some ==> final(self).failure == old(self).failure,
            old(self).failure is None ==> crate::format::opt_view(final(self).failure) == mkfs_failure(
                *mkfs,
            ),
            final(progress)@ == (crate::format::FormatProgressView {
                log: old(progress)@.log + format_close_lines(*mkfs, *close),
                ..old(progress)@
            }),
    {
        self.awaiting = None;
        match mkfs {
            Err(_) => {
                assert(progress@.log =~= old(progress)@.log + format_close_lines(*mkfs, *close));
                if self.failure.is_none() {
                    self.failure = Some(owned("failed to run mkfs.btrfs"));
                }
            },
            Ok(o) => {
                crate::format::append_output(progress, o.stdout.as_slice(), o.stderr.as_slice());
                if !o.success {
                    assert(progress@.log =~= old(progress)@.log + format_close_lines(*mkfs, *close));
                    if self.failure.is_none() {
                        let mut v: Vec<char> = Vec::new();
                        push_str(&mut v, "mkfs.btrfs failed (exit ");
                        let c: i32 = match o.code {
                            Some(c) => c,
                            None => -1,
                        };
                        push_signed_decimal(&mut v, c);
                        push_str(&mut v, "): ");
                        let err = crate::bytes::utf8_lossy(o.stderr.as_slice());
                        let t = crate::text::trim_str(err.as_str());
                        crate::text::push_chars(&mut v, t.as_slice());
                        assert(Some(v@) == mkfs_failure(*mkfs));
                        self.failure = Some(string_of(v.as_slice()));
                    }
                } else {
                    match close {
                        Ok(c) => {
                            crate::format::append_output(progress, c.stdout.as_slice(), c.stderr.as_slice());
                        },
                        Err(_) => {},
                    }
                    assert(progress@.log =~= old(progress)@.log + format_close_lines(*mkfs, *close));
                }
            },
        }
    }

    /// The outcome of the run: the failure that ended it, if any.
    pub fn outcome(&self) -> (r: Result<(), String>)
        ensures
            match self.failure {
                Some(e) => r matches Err(x) && x@ == e@,
                None => r is Ok,
            },
    {
        match &self.failure {
            Some(e) => Err(e.clone()),
            None => Ok(()),
        }
    }
}

/// The number of stages of a desktop format, shown as its total steps: four
/// for a whole disk, three for a partition.
pub fn desktop_stage_total(is_disk: bool) -> (n: usize)
    ensures
        n == (if is_disk {
            4nat
        } else {
            3nat
        }),
{
    if is_disk {
        4
    } else {
        3
    }
}

/// The total shown is the number of stages that a run without failure goes
/// through: every stage of the plan is counted, and no other.
pub proof fn desktop_stage_total_counts_stages(device: Seq<char>, is_disk: bool)
    ensures
        count_advances(desktop_plan(device, is_disk)) == (if is_disk {
            4nat
        } else {
            3nat
        }),
{
    let part = if is_disk {
        first_partition(device)
    } else {
        device
    };
    lemma_count_concat(wipe_plan(device, is_disk), encrypt_plan(part));
    reveal_with_fuel(count_advances, 6);
}


/// A desktop format run that only exists once the safety checks passed: the
/// checks' outcome, and the run (see `DesktopFormatRun::new`) exactly when
/// nothing was refused.
pub fn checked_desktop_run(device: &str, is_disk: bool, label: &str, facts: &PreflightFacts) -> (r: (
    Preflight,
    Option<DesktopFormatRun>,
))
    ensures
        crate::format::opt_view(r.0.error) == preflight_failure(device@, is_disk, *facts),
        views_of(r.0.log@) == preflight_log(device@, is_disk, *facts),
        r.1 is Some <==> preflight_failure(device@, is_disk, *facts) is None,
        r.1 matches Some(run) ==> step_views(run.steps@) == desktop_plan(device@, is_disk) && run.label@
            == label@ && run.next == 0 && run.failure is None && run.awaiting is None && !run.formatted,
{
    let checks = preflight(device, is_disk, facts);
    if checks.error.is_some() {
        (checks, None)
    } else {
        (checks, Some(DesktopFormatRun::new(device, is_disk, label)))
    }
}

} // verus!
