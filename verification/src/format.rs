//! Formatting a drive for backups: the commands that erase, partition,
//! encrypt and format it, the preview shown before, the safety checks run
//! first, the order in which the commands run and stop, and the progress
//! shown meanwhile.
use vstd::prelude::*;
use crate::backup::owned;
use crate::bytes::{lossy_text, utf8_lossy};
use crate::drives::{
    element, first_partition, flag_set, flag_set_of, json_element, json_member, json_text_value, member,
    parse_json, partition_path, scalar_member, scalar_of, JsonNode, JsonScalar,
};
use crate::text::{
    chars_of, join, lines, lines_of, push_chars, push_joined, push_signed_decimal, push_str,
    signed_decimal, string_of, trim, trim_chars, trim_str, views_of,
};

verus! {

// ───────────────────────────── progress ─────────────────────────────

/// What the user sees of a running format.
#[derive(Debug, Clone)]
pub struct FormatProgress {
    pub step: usize,
    pub total_steps: usize,
    pub step_name: String,
    pub log: Vec<String>,
    pub finished: bool,
    pub error: Option<String>,
}

pub struct FormatProgressView {
    pub step: nat,
    pub total_steps: nat,
    pub step_name: Seq<char>,
    pub log: Seq<Seq<char>>,
    pub finished: bool,
    pub error: Option<Seq<char>>,
}

pub open spec fn opt_view(o: Option<String>) -> Option<Seq<char>> {
    match o {
        Some(s) => Some(s@),
        None => None,
    }
}

impl View for FormatProgress {
    type V = FormatProgressView;

    open spec fn view(&self) -> FormatProgressView {
        FormatProgressView {
            step: self.step as nat,
            total_steps: self.total_steps as nat,
            step_name: self.step_name@,
            log: views_of(self.log@),
            finished: self.finished,
            error: opt_view(self.error),
        }
    }
}

/// The progress of a format that has not started.
pub open spec fn fresh_progress(total_steps: nat) -> FormatProgressView {
    FormatProgressView {
        step: 0,
        total_steps,
        step_name: seq![],
        log: seq![],
        finished: false,
        error: None,
    }
}

impl Default for FormatProgress {
    fn default() -> (p: FormatProgress)
        ensures
            p@ == fresh_progress(0),
    {
        let p = FormatProgress {
            step: 0,
            total_steps: 0,
            step_name: String::new(),
            log: Vec::new(),
            finished: false,
            error: None,
        };
        assert(p@.log =~= seq![]);
        p
    }
}

/// Adds a line to the format log.
pub fn log(progress: &mut FormatProgress, msg: &str)
    ensures
        final(progress)@ == (FormatProgressView { log: old(progress)@.log.push(msg@), ..old(progress)@ }),
{
    let line = owned(msg);
    proof {
        crate::text::lemma_views_push(progress.log@, line);
    }
    progress.log.push(line);
}

/// The log line that announces a step.
pub open spec fn step_banner(name: Seq<char>) -> Seq<char> {
    ">>> "@ + name
}

/// Moves on to the next step, named `name`, and announces it in the log.
pub fn advance(progress: &mut FormatProgress, name: &str)
    requires
        old(progress).step < usize::MAX,
    ensures
        final(progress)@ == (FormatProgressView {
            step: old(progress)@.step + 1,
            step_name: name@,
            log: old(progress)@.log.push(step_banner(name@)),
            ..old(progress)@
        }),
{
    progress.step = progress.step + 1;
    progress.step_name = owned(name);
    let mut v: Vec<char> = Vec::new();
    push_str(&mut v, ">>> ");
    push_str(&mut v, name);
    let line = string_of(v.as_slice());
    proof {
        crate::text::lemma_views_push(progress.log@, line);
    }
    progress.log.push(line);
}

/// The lines of `text` that are not blank, trimmed.
pub open spec fn nonblank_lines(ls: Seq<Seq<char>>) -> Seq<Seq<char>>
    decreases ls.len(),
{
    if ls.len() == 0 {
        seq![]
    } else if trim(ls.last()).len() == 0 {
        nonblank_lines(ls.drop_last())
    } else {
        nonblank_lines(ls.drop_last()).push(trim(ls.last()))
    }
}

/// The log lines a command's output gives: the non-blank lines of its
/// standard output, then those of its error output, each trimmed.
pub open spec fn output_lines(stdout: Seq<u8>, stderr: Seq<u8>) -> Seq<Seq<char>> {
    nonblank_lines(lines(lossy_text(stdout))) + nonblank_lines(lines(lossy_text(stderr)))
}

fn push_nonblank_lines(log: &mut Vec<String>, bytes: &[u8])
    ensures
        views_of(final(log)@) == views_of(old(log)@) + nonblank_lines(lines(lossy_text(bytes@))),
{
    let text = utf8_lossy(bytes);
    let tv = chars_of(text.as_str());
    let ls = lines_of(tv.as_slice());
    let ghost all = lines(lossy_text(bytes@));
    let ghost start = views_of(log@);
    let mut i: usize = 0;
    while i < ls.len()
        invariant
            i <= ls@.len(),
            ls@.len() == all.len(),
            forall|k: int| 0 <= k < ls@.len() ==> #[trigger] ls@[k]@ == all[k],
            views_of(log@) == start + nonblank_lines(all.take(i as int)),
        decreases ls@.len() - i,
    {
        assert(all.take(i + 1).drop_last() =~= all.take(i as int));
        assert(all.take(i + 1).last() == ls@[i as int]@);
        let t = trim_chars(ls[i].as_slice());
        if t.len() > 0 {
            let line = string_of(t.as_slice());
            proof {
                crate::text::lemma_views_push(log@, line);
            }
            log.push(line);
            assert(views_of(log@) =~= start + nonblank_lines(all.take(i + 1)));
        }
        i += 1;
    }
    assert(all.take(ls@.len() as int) =~= all);
}

/// Adds a command's output to the log (see `output_lines`).
pub fn append_output(progress: &mut FormatProgress, stdout: &[u8], stderr: &[u8])
    ensures
        final(progress)@ == (FormatProgressView {
            log: old(progress)@.log + output_lines(stdout@, stderr@),
            ..old(progress)@
        }),
{
    push_nonblank_lines(&mut progress.log, stdout);
    push_nonblank_lines(&mut progress.log, stderr);
    assert(progress@.log =~= old(progress)@.log + output_lines(stdout@, stderr@));
}

// ───────────────────────────── the steps ─────────────────────────────

/// Name of the device-mapper volume used while formatting an encrypted drive.
pub open spec fn mapper_name() -> Seq<char> {
    "backer-upper-format"@
}

/// The device of that volume.
pub open spec fn mapper_device() -> Seq<char> {
    "/dev/mapper/backer-upper-format"@
}

/// What a step of a format does.
pub enum FormatAction {
    /// A new stage begins; the progress moves on.
    Advance(String),
    /// A command run with root rights through `doas`.
    Doas { args: Vec<String>, needs_passphrase: bool, is_cleanup: bool },
    /// Wait until the device node appears.
    WaitForDevice(String),
    /// Check that the device node exists.
    CheckDevice(String),
}

/// One step of a format. Both the preview and the run are made from the same
/// steps; `preview` is the line shown to the user, `None` for steps that run
/// no command.
pub struct FormatStep {
    pub preview: Option<String>,
    pub action: FormatAction,
}

pub enum ActionView {
    Advance(Seq<char>),
    Doas { args: Seq<Seq<char>>, needs_passphrase: bool, is_cleanup: bool },
    WaitForDevice(Seq<char>),
    CheckDevice(Seq<char>),
}

pub struct StepView {
    pub preview: Option<Seq<char>>,
    pub action: ActionView,
}

impl View for FormatAction {
    type V = ActionView;

    open spec fn view(&self) -> ActionView {
        match self {
            FormatAction::Advance(n) => ActionView::Advance(n@),
            FormatAction::Doas { args, needs_passphrase, is_cleanup } => ActionView::Doas {
                args: views_of(args@),
                needs_passphrase: *needs_passphrase,
                is_cleanup: *is_cleanup,
            },
            FormatAction::WaitForDevice(p) => ActionView::WaitForDevice(p@),
            FormatAction::CheckDevice(p) => ActionView::CheckDevice(p@),
        }
    }
}

impl View for FormatStep {
    type V = StepView;

    open spec fn view(&self) -> StepView {
        StepView { preview: opt_view(self.preview), action: self.action@ }
    }
}

pub open spec fn step_views(v: Seq<FormatStep>) -> Seq<StepView> {
    Seq::new(v.len(), |i: int| v[i]@)
}

/// The line shown for a command run through `doas`.
pub open spec fn doas_line(args: Seq<Seq<char>>) -> Seq<char> {
    "doas "@ + join(args, " "@)
}

pub open spec fn advance_step(name: Seq<char>) -> StepView {
    StepView { preview: None, action: ActionView::Advance(name) }
}

pub open spec fn doas_step_view(args: Seq<Seq<char>>, needs_passphrase: bool, is_cleanup: bool) -> StepView {
    StepView {
        preview: Some(doas_line(args)),
        action: ActionView::Doas { args, needs_passphrase, is_cleanup },
    }
}

/// The steps of formatting `device` with a `fstype` filesystem labelled
/// `label`. A whole disk is zeroed, given a GPT table with one partition, and
/// its partition is waited for; a partition is zeroed. Then, when encrypting,
/// the partition becomes a LUKS2 container (the passphrase is given on
/// standard input), is opened as the mapper volume, the volume is checked,
/// formatted and closed again; otherwise the partition is formatted directly.
pub open spec fn format_plan(
    device: Seq<char>,
    is_disk: bool,
    label: Seq<char>,
    fstype: Seq<char>,
    encrypt: bool,
) -> Seq<StepView> {
    let part = if is_disk {
        first_partition(device)
    } else {
        device
    };
    plan_head(device, is_disk) + plan_tail(part, label, fstype, encrypt)
}

/// The steps that erase the drive and, for a whole disk, partition it.
pub open spec fn plan_head(device: Seq<char>, is_disk: bool) -> Seq<StepView> {
    let zero = doas_step_view(seq!["dd"@, "if=/dev/zero"@, "of="@ + device, "bs=4M"@], false, false);
    if is_disk {
        seq![
            advance_step("Zeroing drive"@),
            zero,
            advance_step("Creating partition"@),
            doas_step_view(
                seq!["parted"@, "-s"@, device, "mklabel"@, "gpt"@, "mkpart"@, "primary"@, "0%"@, "100%"@],
                false,
                false,
            ),
            StepView { preview: None, action: ActionView::WaitForDevice(first_partition(device)) },
        ]
    } else {
        seq![advance_step("Zeroing partition"@), zero]
    }
}

/// The steps that encrypt (when asked) and format the partition `part`.
pub open spec fn plan_tail(part: Seq<char>, label: Seq<char>, fstype: Seq<char>, encrypt: bool) -> Seq<
    StepView,
> {
    let mkfs = "mkfs."@ + fstype;
    let fmt_name = "Formatting filesystem ("@ + fstype + ")"@;
    if encrypt {
        seq![
            advance_step("Encrypting with LUKS"@),
            doas_step_view(
                seq!["cryptsetup"@, "luksFormat"@, "--type"@, "luks2"@, "--batch-mode"@, "--key-file"@, "-"@, part],
                true,
                false,
            ),
            advance_step(fmt_name),
            doas_step_view(
                seq!["cryptsetup"@, "luksOpen"@, "--key-file"@, "-"@, part, mapper_name()],
                true,
                false,
            ),
            StepView { preview: None, action: ActionView::CheckDevice(mapper_device()) },
            doas_step_view(seq![mkfs, "-L"@, label, mapper_device()], false, false),
            doas_step_view(seq!["cryptsetup"@, "luksClose"@, mapper_name()], false, true),
        ]
    } else {
        seq![advance_step(fmt_name), doas_step_view(seq![mkfs, "-L"@, label, part], false, false)]
    }
}

/// Builds a `Vec<String>` from string literals.
pub(crate) fn strings(parts: &[&str]) -> (v: Vec<String>)
    ensures
        views_of(v@) == Seq::new(parts@.len(), |i: int| parts@[i]@),
{
    let mut v: Vec<String> = Vec::new();
    let mut i: usize = 0;
    while i < parts.len()
        invariant
            i <= parts@.len(),
            views_of(v@) == Seq::new(i as nat, |k: int| parts@[k]@),
        decreases parts@.len() - i,
    {
        let s = owned(parts[i]);
        proof {
            crate::text::lemma_views_push(v@, s);
        }
        v.push(s);
        assert(views_of(v@) =~= Seq::new((i + 1) as nat, |k: int| parts@[k]@));
        i += 1;
    }
    v
}

/// A step that runs a command through `doas`, shown as `doas <args>`.
fn doas_step_with(args: Vec<String>, needs_passphrase: bool, is_cleanup: bool) -> (s: FormatStep)
    ensures
        s@ == doas_step_view(views_of(args@), needs_passphrase, is_cleanup),
{
    let mut v: Vec<char> = Vec::new();
    push_str(&mut v, "doas ");
    push_joined(&mut v, args.as_slice(), " ");
    FormatStep {
        preview: Some(string_of(v.as_slice())),
        action: FormatAction::Doas { args, needs_passphrase, is_cleanup },
    }
}

/// A step that runs `args` through `doas`.
pub fn doas_step(args: Vec<String>) -> (s: FormatStep)
    ensures
        s@ == doas_step_view(views_of(args@), false, false),
{
    doas_step_with(args, false, false)
}

/// A step that runs `args` through `doas` with the passphrase on its input.
pub fn doas_passphrase_step(args: Vec<String>) -> (s: FormatStep)
    ensures
        s@ == doas_step_view(views_of(args@), true, false),
{
    doas_step_with(args, true, false)
}

/// A step that runs `args` through `doas` even after an earlier step failed.
pub fn doas_cleanup_step(args: Vec<String>) -> (s: FormatStep)
    ensures
        s@ == doas_step_view(views_of(args@), false, true),
{
    doas_step_with(args, false, true)
}

pub(crate) fn advance_to(name: String) -> (s: FormatStep)
    ensures
        s@ == advance_step(name@),
{
    FormatStep { preview: None, action: FormatAction::Advance(name) }
}

fn concat(a: &str, b: &str) -> (s: String)
    ensures
        s@ == a@ + b@,
{
    let mut v: Vec<char> = Vec::new();
    push_str(&mut v, a);
    push_str(&mut v, b);
    string_of(v.as_slice())
}

pub(crate) fn push_step(steps: &mut Vec<FormatStep>, s: FormatStep)
    ensures
        step_views(final(steps)@) == step_views(old(steps)@).push(s@),
{
    let ghost sv = s@;
    steps.push(s);
    assert(step_views(steps@) =~= step_views(old(steps)@).push(sv));
}

/// The steps of a format (see `format_plan`).
pub fn build_format_steps(
    device: &str,
    is_disk: bool,
    label: &str,
    fstype: &str,
    encrypt: bool,
) -> (steps: Vec<FormatStep>)
    ensures
        step_views(steps@) == format_plan(device@, is_disk, label@, fstype@, encrypt),
{
    let mut steps: Vec<FormatStep> = Vec::new();
    let mkfs = concat("mkfs.", fstype);
    let mut fname: Vec<char> = Vec::new();
    push_str(&mut fname, "Formatting filesystem (");
    push_str(&mut fname, fstype);
    push_str(&mut fname, ")");
    let fmt_name = string_of(fname.as_slice());
    assert(fmt_name@ =~= "Formatting filesystem ("@ + fstype@ + ")"@);
    let dd_args = {
        let mut a = strings(&["dd", "if=/dev/zero"]);
        let of = concat("of=", device);
        proof {
            crate::text::lemma_views_push(a@, of);
        }
        a.push(of);
        let bs = owned("bs=4M");
        proof {
            crate::text::lemma_views_push(a@, bs);
        }
        a.push(bs);
        a
    };
    assert(views_of(dd_args@) =~= seq!["dd"@, "if=/dev/zero"@, "of="@ + device@, "bs=4M"@]);
    let partition = if is_disk {
        let part = partition_path(device);
        push_step(&mut steps, advance_to(owned("Zeroing drive")));
        push_step(&mut steps, doas_step(dd_args));
        push_step(&mut steps, advance_to(owned("Creating partition")));
        let mut pa = strings(&["parted", "-s"]);
        let d = owned(device);
        proof {
            crate::text::lemma_views_push(pa@, d);
        }
        pa.push(d);
        let rest = strings(&["mklabel", "gpt", "mkpart", "primary", "0%", "100%"]);
        let ghost pa0 = views_of(pa@);
        let mut k: usize = 0;
        while k < rest.len()
            invariant
                k <= rest@.len(),
                views_of(pa@) == pa0 + views_of(rest@).take(k as int),
            decreases rest@.len() - k,
        {
            let s = rest[k].clone();
            proof {
                crate::text::lemma_views_push(pa@, s);
            }
            pa.push(s);
            assert(views_of(rest@).take(k + 1) =~= views_of(rest@).take(k as int).push(rest@[k as int]@));
            assert(views_of(pa@) =~= pa0 + views_of(rest@).take(k + 1));
            k += 1;
        }
        assert(views_of(rest@).take(rest@.len() as int) =~= views_of(rest@));
        assert(views_of(pa@) =~= seq![
            "parted"@,
            "-s"@,
            device@,
            "mklabel"@,
            "gpt"@,
            "mkpart"@,
            "primary"@,
            "0%"@,
            "100%"@,
        ]);
        push_step(&mut steps, doas_step(pa));
        push_step(
            &mut steps,
            FormatStep { preview: None, action: FormatAction::WaitForDevice(part.clone()) },
        );
        part
    } else {
        push_step(&mut steps, advance_to(owned("Zeroing partition")));
        push_step(&mut steps, doas_step(dd_args));
        owned(device)
    };
    let ghost head = step_views(steps@);
    assert(head =~= plan_head(device@, is_disk));
    let ghost part = partition@;
    assert(part == (if is_disk {
        first_partition(device@)
    } else {
        device@
    }));
    if encrypt {
        push_step(&mut steps, advance_to(owned("Encrypting with LUKS")));
        let mut lf = strings(&["cryptsetup", "luksFormat", "--type", "luks2", "--batch-mode", "--key-file", "-"]);
        let p1 = partition.clone();
        proof {
            crate::text::lemma_views_push(lf@, p1);
        }
        lf.push(p1);
        assert(views_of(lf@) =~= seq![
            "cryptsetup"@,
            "luksFormat"@,
            "--type"@,
            "luks2"@,
            "--batch-mode"@,
            "--key-file"@,
            "-"@,
            partition@,
        ]);
        push_step(&mut steps, doas_passphrase_step(lf));
        push_step(&mut steps, advance_to(fmt_name));
        let mut lo = strings(&["cryptsetup", "luksOpen", "--key-file", "-"]);
        let p2 = partition.clone();
        proof {
            crate::text::lemma_views_push(lo@, p2);
        }
        lo.push(p2);
        let m = owned("backer-upper-format");
        proof {
            crate::text::lemma_views_push(lo@, m);
        }
        lo.push(m);
        assert(views_of(lo@) =~= seq!["cryptsetup"@, "luksOpen"@, "--key-file"@, "-"@, partition@, mapper_name()]);
        push_step(&mut steps, doas_passphrase_step(lo));
        push_step(
            &mut steps,
            FormatStep {
                preview: None,
                action: FormatAction::CheckDevice(owned("/dev/mapper/backer-upper-format")),
            },
        );
        let mut mk: Vec<String> = Vec::new();
        proof {
            crate::text::lemma_views_push(mk@, mkfs);
        }
        mk.push(mkfs);
        let l = owned(label);
        let md = owned("/dev/mapper/backer-upper-format");
        let r0 = owned("-L");
        proof {
            crate::text::lemma_views_push(mk@, r0);
        }
        mk.push(r0);
        proof {
            crate::text::lemma_views_push(mk@, l);
        }
        mk.push(l);
        proof {
            crate::text::lemma_views_push(mk@, md);
        }
        mk.push(md);
        assert(views_of(mk@) =~= seq!["mkfs."@ + fstype@, "-L"@, label@, mapper_device()]);
        push_step(&mut steps, doas_step(mk));
        let lc = strings(&["cryptsetup", "luksClose", "backer-upper-format"]);
        assert(views_of(lc@) =~= seq!["cryptsetup"@, "luksClose"@, mapper_name()]);
        push_step(&mut steps, doas_cleanup_step(lc));
    } else {
        push_step(&mut steps, advance_to(fmt_name));
        let mut mk: Vec<String> = Vec::new();
        proof {
            crate::text::lemma_views_push(mk@, mkfs);
        }
        mk.push(mkfs);
        let l0 = owned("-L");
        proof {
            crate::text::lemma_views_push(mk@, l0);
        }
        mk.push(l0);
        let l = owned(label);
        proof {
            crate::text::lemma_views_push(mk@, l);
        }
        mk.push(l);
        proof {
            crate::text::lemma_views_push(mk@, partition);
        }
        mk.push(partition);
        assert(views_of(mk@) =~= seq!["mkfs."@ + fstype@, "-L"@, label@, part]);
        push_step(&mut steps, doas_step(mk));
    }
    assert(step_views(steps@) =~= head + plan_tail(part, label@, fstype@, encrypt));
    assert(step_views(steps@) =~= format_plan(device@, is_disk, label@, fstype@, encrypt));
    steps
}

/// The lines shown before formatting: the preview of each step that has one.
pub open spec fn previews(steps: Seq<StepView>) -> Seq<Seq<char>>
    decreases steps.len(),
{
    if steps.len() == 0 {
        seq![]
    } else {
        match steps.last().preview {
            Some(p) => previews(steps.drop_last()).push(p),
            None => previews(steps.drop_last()),
        }
    }
}

/// The commands a format would run, as shown to the user before it starts.
pub fn format_command_preview(
    device: &str,
    is_disk: bool,
    label: &str,
    fstype: &str,
    encrypt: bool,
) -> (lines: Vec<String>)
    ensures
        views_of(lines@) == previews(format_plan(device@, is_disk, label@, fstype@, encrypt)),
{
    let steps = build_format_steps(device, is_disk, label, fstype, encrypt);
    let ghost all = step_views(steps@);
    let mut out: Vec<String> = Vec::new();
    let mut i: usize = 0;
    while i < steps.len()
        invariant
            i <= steps@.len(),
            all == step_views(steps@),
            views_of(out@) == previews(all.take(i as int)),
        decreases steps@.len() - i,
    {
        assert(all.take(i + 1).drop_last() =~= all.take(i as int));
        assert(all.take(i + 1).last() == steps@[i as int]@);
        match &steps[i].preview {
            Some(p) => {
                let line = p.clone();
                proof {
                    crate::text::lemma_views_push(out@, line);
                }
                out.push(line);
            },
            None => {},
        }
        i += 1;
    }
    assert(all.take(steps@.len() as int) =~= all);
    out
}

/// The number of stages (`Advance` steps) among `steps`.
pub open spec fn count_advances(steps: Seq<StepView>) -> nat
    decreases steps.len(),
{
    if steps.len() == 0 {
        0
    } else {
        count_advances(steps.drop_last()) + if steps.last().action is Advance {
            1nat
        } else {
            0nat
        }
    }
}

/// The number of stages a format goes through, shown as its total steps.
pub fn format_step_count(
    device: &str,
    is_disk: bool,
    label: &str,
    fstype: &str,
    encrypt: bool,
) -> (n: usize)
    ensures
        n == count_advances(format_plan(device@, is_disk, label@, fstype@, encrypt)),
{
    let steps = build_format_steps(device, is_disk, label, fstype, encrypt);
    let ghost all = step_views(steps@);
    let mut n: usize = 0;
    let mut i: usize = 0;
    while i < steps.len()
        invariant
            i <= steps@.len(),
            all == step_views(steps@),
            n == count_advances(all.take(i as int)),
            n <= i,
        decreases steps@.len() - i,
    {
        assert(all.take(i + 1).drop_last() =~= all.take(i as int));
        assert(all.take(i + 1).last() == steps@[i as int]@);
        match &steps[i].action {
            FormatAction::Advance(_) => {
                n = n + 1;
            },
            _ => {},
        }
        i += 1;
    }
    assert(all.take(steps@.len() as int) =~= all);
    n
}

pub(crate) proof fn lemma_count_concat(a: Seq<StepView>, b: Seq<StepView>)
    ensures
        count_advances(a + b) == count_advances(a) + count_advances(b),
    decreases b.len(),
{
    if b.len() == 0 {
        assert(a + b =~= a);
    } else {
        assert((a + b).drop_last() =~= a + b.drop_last());
        lemma_count_concat(a, b.drop_last());
    }
}

#[verifier::spinoff_prover]
#[verifier::rlimit(40)]
/// A format goes through two stages for a partition and three for a whole
/// disk (erasing, partitioning), plus one more when it encrypts.
pub proof fn format_stage_count(
    device: Seq<char>,
    is_disk: bool,
    label: Seq<char>,
    fstype: Seq<char>,
    encrypt: bool,
)
    ensures
        count_advances(format_plan(device, is_disk, label, fstype, encrypt)) == (if is_disk {
            2nat
        } else {
            1nat
        }) + (if encrypt {
            2nat
        } else {
            1nat
        }),
{
    let part = if is_disk {
        first_partition(device)
    } else {
        device
    };
    let h = plan_head(device, is_disk);
    let t = plan_tail(part, label, fstype, encrypt);
    lemma_count_concat(h, t);
    reveal_with_fuel(count_advances, 8);
}

/// The preview cannot differ from what runs: a step is shown exactly when it
/// runs a command, and it is shown as `doas` followed by that command's
/// arguments. The passphrase only ever goes to `cryptsetup`, and the only
/// step that runs after a failure is the final `luksClose` of an encrypting
/// format.
pub proof fn preview_matches_commands(
    device: Seq<char>,
    is_disk: bool,
    label: Seq<char>,
    fstype: Seq<char>,
    encrypt: bool,
)
    ensures
        forall|i: int|
            0 <= i < format_plan(device, is_disk, label, fstype, encrypt).len() ==> (
            #[trigger] format_plan(device, is_disk, label, fstype, encrypt)[i]).shows_its_command(
                encrypt,
                i == format_plan(device, is_disk, label, fstype, encrypt).len() - 1,
            ),
{
    let part = if is_disk {
        first_partition(device)
    } else {
        device
    };
    let h = plan_head(device, is_disk);
    let t = plan_tail(part, label, fstype, encrypt);
    let p = format_plan(device, is_disk, label, fstype, encrypt);
    assert(p == h + t);
    assert forall|i: int| 0 <= i < p.len() implies (#[trigger] p[i]).shows_its_command(
        encrypt,
        i == p.len() - 1,
    ) by {
        if i < h.len() {
            assert(p[i] == h[i]);
        } else {
            assert(p[i] == t[i - h.len()]);
        }
    }
}

impl StepView {
    /// A step is shown exactly when it runs a command, as that command; only
    /// `cryptsetup` gets the passphrase; a cleanup step is the `luksClose` of
    /// the mapper volume, and comes last, in an encrypting format.
    pub open spec fn shows_its_command(self, encrypt: bool, is_last: bool) -> bool {
        &&& (self.preview is Some <==> self.action is Doas)
        &&& match self.action {
            ActionView::Doas { args, needs_passphrase, is_cleanup } => {
                &&& self.preview == Some(doas_line(args))
                &&& (needs_passphrase ==> args.len() > 0 && args[0] == "cryptsetup"@)
                &&& (is_cleanup ==> encrypt && is_last && args == seq![
                    "cryptsetup"@,
                    "luksClose"@,
                    mapper_name(),
                ])
            },
            _ => true,
        }
    }
}

// ───────────────────────────── running the steps ─────────────────────────────

/// What a format run needs done next.
pub enum FormatRequest {
    /// Move the progress on to the stage named here.
    Advance(String),
    /// Run a command through `doas`, writing the passphrase to its input when
    /// asked; report with `command_done`.
    Run { args: Vec<String>, with_passphrase: bool },
    /// Log `announce`, then wait for the device node `path` to appear; report
    /// with `device_seen`.
    WaitFor { path: String, announce: String },
    /// See whether the device node exists; report with `device_seen`.
    Check { path: String },
}

/// What a run waits to hear about.
pub enum Awaiting {
    Command { is_cleanup: bool },
    Wait(String),
    Check(String),
}

/// Whether the request `q` asks for what `step` does.
pub open spec fn asks_for(q: FormatRequest, step: StepView) -> bool {
    match step.action {
        ActionView::Advance(n) => q matches FormatRequest::Advance(m) && m@ == n,
        ActionView::Doas { args, needs_passphrase, .. } => q matches FormatRequest::Run {
            args: a,
            with_passphrase,
        } && views_of(a@) == args && with_passphrase == needs_passphrase,
        ActionView::WaitForDevice(p) => q matches FormatRequest::WaitFor { path, announce } && path@ == p
            && announce@ == waiting_for(p),
        ActionView::CheckDevice(p) => q matches FormatRequest::Check { path } && path@ == p,
    }
}

/// What a run waits to hear about once it asked for `step`.
pub open spec fn awaits(a: Option<Awaiting>, step: StepView) -> bool {
    match step.action {
        ActionView::Advance(_) => a is None,
        ActionView::Doas { is_cleanup, .. } => a matches Some(Awaiting::Command { is_cleanup: c })
            && c == is_cleanup,
        ActionView::WaitForDevice(p) => a matches Some(Awaiting::Wait(x)) && x@ == p,
        ActionView::CheckDevice(p) => a matches Some(Awaiting::Check(x)) && x@ == p,
    }
}

/// A format in progress: it walks the steps in order. Once a step fails, the
/// remaining steps are passed over except the cleanup steps, and the first
/// failure is the outcome.
pub struct FormatRun {
    pub steps: Vec<FormatStep>,
    /// Index of the next step to look at.
    pub next: usize,
    /// The first failure, once there is one.
    pub pending: Option<String>,
    pub awaiting: Option<Awaiting>,
}

/// Whether the step runs even after a failure.
pub open spec fn is_cleanup_step(s: StepView) -> bool {
    match s.action {
        ActionView::Doas { is_cleanup, .. } => is_cleanup,
        _ => false,
    }
}

/// Whether a run, failed or not, passes over a step without doing it.
pub open spec fn skipped(s: StepView, failed: bool) -> bool {
    failed && !is_cleanup_step(s)
}

/// The message when the partition did not appear.
pub open spec fn partition_missing(path: Seq<char>) -> Seq<char> {
    "Partition device "@ + path
        + " did not appear after partitioning. Try replugging the drive and running again."@
}

/// The message when the mapper volume did not appear.
pub open spec fn mapper_missing(path: Seq<char>) -> Seq<char> {
    "Mapper device "@ + path + " did not appear after luksOpen. Cannot continue."@
}

/// The log line once a device node is there.
pub open spec fn device_ready(path: Seq<char>) -> Seq<char> {
    "\u{2713} "@ + path + " is ready"@
}

/// The log line before waiting for a device node.
pub open spec fn waiting_for(path: Seq<char>) -> Seq<char> {
    "Waiting for "@ + path + " to appear\u{2026}"@
}

fn text3(a: &str, b: &str, c: &str) -> (s: String)
    ensures
        s@ == a@ + b@ + c@,
{
    let mut v: Vec<char> = Vec::new();
    push_str(&mut v, a);
    push_str(&mut v, b);
    push_str(&mut v, c);
    string_of(v.as_slice())
}

impl FormatRun {
    /// The step looked at last.
    pub open spec fn last_taken(&self) -> StepView {
        self.steps@[self.next - 1]@
    }

    /// A run of the steps of formatting `device` (see `format_plan`).
    pub fn new(device: &str, is_disk: bool, label: &str, fstype: &str, encrypt: bool) -> (r: FormatRun)
        ensures
            step_views(r.steps@) == format_plan(device@, is_disk, label@, fstype@, encrypt),
            r.next == 0,
            r.pending is None,
            r.awaiting is None,
    {
        FormatRun {
            steps: build_format_steps(device, is_disk, label, fstype, encrypt),
            next: 0,
            pending: None,
            awaiting: None,
        }
    }

    /// The next thing to do, or `None` when the run is over. Steps that a
    /// failure makes pointless are passed over; stages are announced only
    /// while nothing failed; cleanup commands run whatever happened before.
    pub fn next_request(&mut self) -> (r: Option<FormatRequest>)
        requires
            old(self).next <= old(self).steps@.len(),
        ensures
            step_views(final(self).steps@) == step_views(old(self).steps@),
            final(self).pending == old(self).pending,
            old(self).next <= final(self).next <= final(self).steps@.len(),
            r is None ==> final(self).next == final(self).steps@.len() && final(self).awaiting is None,
            r is Some ==> final(self).next > old(self).next && !skipped(
                final(self).steps@[final(self).next - 1]@,
                old(self).pending is Some,
            ),
            forall|k: int|
                old(self).next <= k < (if r is Some {
                    final(self).next - 1
                } else {
                    final(self).next as int
                }) ==> skipped(#[trigger] final(self).steps@[k]@, old(self).pending is Some),
            old(self).pending is None && old(self).next < old(self).steps@.len() ==> final(self).next
                == old(self).next + 1 && (r matches Some(q) && asks_for(q, old(self).steps@[old(self).next as int]@))
                && awaits(final(self).awaiting, old(self).steps@[old(self).next as int]@),
            r matches Some(FormatRequest::Advance(n)) ==> old(self).pending is None
                && final(self).last_taken().action == ActionView::Advance(n@)
                && final(self).awaiting is None,
            r matches Some(FormatRequest::Run { args, with_passphrase }) ==> (final(self).last_taken().action
                == (ActionView::Doas {
                args: views_of(args@),
                needs_passphrase: with_passphrase,
                is_cleanup: is_cleanup_step(final(self).last_taken()),
            })) && (final(self).awaiting matches Some(Awaiting::Command { is_cleanup })
                && is_cleanup == is_cleanup_step(final(self).last_taken())),
            r matches Some(FormatRequest::WaitFor { path, announce }) ==> final(self).last_taken().action
                == ActionView::WaitForDevice(path@) && announce@ == waiting_for(path@) && (final(
                self).awaiting matches Some(Awaiting::Wait(p)) && p@ == path@),
            r matches Some(FormatRequest::Check { path }) ==> final(self).last_taken().action
                == ActionView::CheckDevice(path@) && (final(self).awaiting matches Some(
                Awaiting::Check(p),
            ) && p@ == path@),
    {
        let failed = self.pending.is_some();
        while self.next < self.steps.len()
            invariant
                step_views(self.steps@) == step_views(old(self).steps@),
                self.steps@ == old(self).steps@,
                self.pending == old(self).pending,
                failed == old(self).pending is Some,
                old(self).next <= self.next <= self.steps@.len(),
                !failed ==> self.next == old(self).next,
                forall|k: int|
                    old(self).next <= k < self.next ==> skipped(
                        #[trigger] self.steps@[k]@,
                        failed,
                    ),
            decreases self.steps@.len() - self.next,
        {
            let k = self.next;
            self.next = k + 1;
            match &self.steps[k].action {
                FormatAction::Advance(name) => {
                    if !failed {
                        let n = name.clone();
                        self.awaiting = None;
                        return Some(FormatRequest::Advance(n));
                    }
                },
                FormatAction::Doas { args, needs_passphrase, is_cleanup } => {
                    if !failed || *is_cleanup {
                        let a = crate::config::copy_strings(args);
                        let pw = *needs_passphrase;
                        let c = *is_cleanup;
                        self.awaiting = Some(Awaiting::Command { is_cleanup: c });
                        return Some(FormatRequest::Run { args: a, with_passphrase: pw });
                    }
                },
                FormatAction::WaitForDevice(path) => {
                    if !failed {
                        let p = path.clone();
                        let q = path.clone();
                        let announce = text3("Waiting for ", path.as_str(), " to appear\u{2026}");
                        self.awaiting = Some(Awaiting::Wait(q));
                        return Some(FormatRequest::WaitFor { path: p, announce });
                    }
                },
                FormatAction::CheckDevice(path) => {
                    if !failed {
                        let p = path.clone();
                        let q = path.clone();
                        self.awaiting = Some(Awaiting::Check(q));
                        return Some(FormatRequest::Check { path: p });
                    }
                },
            }
        }
        self.awaiting = None;
        None
    }

    /// Reports how a command ended: the first failure of a step that is not a
    /// cleanup step becomes the outcome of the run.
    pub fn command_done(&mut self, result: Result<(), String>)
        ensures
            final(self).steps@ == old(self).steps@,
            final(self).next == old(self).next,
            final(self).awaiting is None,
            final(self).pending == (match (old(self).pending, result, old(self).awaiting) {
                (None, Err(e), Some(Awaiting::Command { is_cleanup: false })) => Some(e),
                _ => old(self).pending,
            }),
    {
        let cleanup = match &self.awaiting {
            Some(Awaiting::Command { is_cleanup }) => *is_cleanup,
            _ => true,
        };
        self.awaiting = None;
        if self.pending.is_none() && !cleanup {
            if let Err(e) = result {
                self.pending = Some(e);
            }
        }
    }

    /// Reports whether the awaited device node is there. Returns the line to
    /// log when it is; when it is not, the run has failed.
    pub fn device_seen(&mut self, present: bool) -> (line: Option<String>)
        ensures
            final(self).steps@ == old(self).steps@,
            final(self).next == old(self).next,
            final(self).awaiting is None,
            match old(self).awaiting {
                Some(Awaiting::Wait(p)) => if present {
                    (line matches Some(l) && l@ == device_ready(p@)) && final(self).pending == old(
                        self,
                    ).pending
                } else {
                    line is None && (final(self).pending matches Some(e) && e@ == partition_missing(
                        p@,
                    ))
                },
                Some(Awaiting::Check(p)) => if present {
                    (line matches Some(l) && l@ == device_ready(p@)) && final(self).pending == old(
                        self,
                    ).pending
                } else {
                    line is None && (final(self).pending matches Some(e) && e@ == mapper_missing(p@))
                },
                _ => line is None && final(self).pending == old(self).pending,
            },
    {
        let aw = self.awaiting.take();
        match aw {
            Some(Awaiting::Wait(p)) => {
                if present {
                    Some(text3("\u{2713} ", p.as_str(), " is ready"))
                } else {
                    self.pending = Some(
                        text3(
                            "Partition device ",
                            p.as_str(),
                            " did not appear after partitioning. Try replugging the drive and running again.",
                        ),
                    );
                    None
                }
            },
            Some(Awaiting::Check(p)) => {
                if present {
                    Some(text3("\u{2713} ", p.as_str(), " is ready"))
                } else {
                    self.pending = Some(
                        text3(
                            "Mapper device ",
                            p.as_str(),
                            " did not appear after luksOpen. Cannot continue.",
                        ),
                    );
                    None
                }
            },
            _ => None,
        }
    }

    /// The outcome of the run: the first failure, if any.
    pub fn outcome(&self) -> (r: Result<(), String>)
        ensures
            match self.pending {
                Some(e) => r matches Err(x) && x@ == e@,
                None => r is Ok,
            },
    {
        match &self.pending {
            Some(e) => Err(e.clone()),
            None => Ok(()),
        }
    }
}

// ───────────────────────────── command messages ─────────────────────────────

/// The log line of a command about to run: `$ doas` and its arguments.
pub open spec fn command_log_line(args: Seq<Seq<char>>) -> Seq<char> {
    "$ "@ + doas_line(args)
}

/// The failure of a command that ran and exited unsuccessfully: its command
/// line, exit code (-1 when it was killed by a signal) and trimmed error output.
pub open spec fn command_failure(args: Seq<Seq<char>>, code: int, stderr: Seq<u8>) -> Seq<char> {
    doas_line(args) + " failed (exit "@ + crate::text::signed_decimal(code) + "): "@ + trim(
        lossy_text(stderr),
    )
}

/// The failure of a command that could not be started.
pub open spec fn spawn_failure(args: Seq<Seq<char>>) -> Seq<char> {
    "failed to spawn: "@ + doas_line(args)
}

/// The log line of a command about to run.
pub fn command_log(args: &Vec<String>) -> (s: String)
    ensures
        s@ == command_log_line(views_of(args@)),
{
    let mut v: Vec<char> = Vec::new();
    push_str(&mut v, "$ ");
    push_str(&mut v, "doas ");
    push_joined(&mut v, args.as_slice(), " ");
    assert(v@ =~= command_log_line(views_of(args@)));
    string_of(v.as_slice())
}

/// The message of a command that exited unsuccessfully.
pub fn command_failure_message(args: &Vec<String>, code: Option<i32>, stderr: &[u8]) -> (s: String)
    ensures
        s@ == command_failure(
            views_of(args@),
            match code {
                Some(c) => c as int,
                None => -1,
            },
            stderr@,
        ),
{
    let mut v: Vec<char> = Vec::new();
    push_str(&mut v, "doas ");
    push_joined(&mut v, args.as_slice(), " ");
    push_str(&mut v, " failed (exit ");
    let c: i32 = match code {
        Some(c) => c,
        None => -1,
    };
    push_signed_decimal(&mut v, c);
    push_str(&mut v, "): ");
    let err = utf8_lossy(stderr);
    let t = trim_str(err.as_str());
    push_chars(&mut v, t.as_slice());
    assert(v@ =~= command_failure(
        views_of(args@),
        match code {
            Some(c) => c as int,
            None => -1,
        },
        stderr@,
    ));
    string_of(v.as_slice())
}

/// The message of a command that could not be started.
pub fn spawn_failure_message(args: &Vec<String>) -> (s: String)
    ensures
        s@ == spawn_failure(views_of(args@)),
{
    let mut v: Vec<char> = Vec::new();
    push_str(&mut v, "failed to spawn: ");
    push_str(&mut v, "doas ");
    push_joined(&mut v, args.as_slice(), " ");
    assert(v@ =~= spawn_failure(views_of(args@)));
    string_of(v.as_slice())
}

/// How a command that was started ended: its exit status and its output.
pub struct CommandOutput {
    pub success: bool,
    /// The exit code; `None` when a signal ended it.
    pub code: Option<i32>,
    pub stdout: Vec<u8>,
    pub stderr: Vec<u8>,
}

/// Why a command gave no output.
pub enum LaunchFailure {
    /// It could not be started.
    NotStarted,
    /// It started, but waiting for it failed.
    WaitFailed,
}

/// The failure of a command whose end could not be waited for.
pub open spec fn wait_failure() -> Seq<char> {
    "wait_with_output"@
}

/// What a command through `doas` comes to: its output goes to the log; it
/// succeeded, or failed with `command_failure`, `spawn_failure` or
/// `wait_failure`.
pub open spec fn command_result(args: Seq<Seq<char>>, out: Result<CommandOutput, LaunchFailure>) -> Result<
    (),
    Seq<char>,
> {
    match out {
        Ok(o) => if o.success {
            Ok(())
        } else {
            Err(
                command_failure(
                    args,
                    match o.code {
                        Some(c) => c as int,
                        None => -1,
                    },
                    o.stderr@,
                ),
            )
        },
        Err(LaunchFailure::NotStarted) => Err(spawn_failure(args)),
        Err(LaunchFailure::WaitFailed) => Err(wait_failure()),
    }
}

/// The views of a result that carries a `String` error.
pub open spec fn result_view(r: Result<(), String>) -> Result<(), Seq<char>> {
    match r {
        Ok(()) => Ok(()),
        Err(e) => Err(e@),
    }
}

/// Records how a command through `doas` ended: when it ran, its output is
/// logged (see `append_output`); the answer is `command_result`.
pub fn command_finished(
    progress: &mut FormatProgress,
    args: &Vec<String>,
    out: &Result<CommandOutput, LaunchFailure>,
) -> (r: Result<(), String>)
    ensures
        result_view(r) == command_result(views_of(args@), *out),
        final(progress)@ == (FormatProgressView {
            log: old(progress)@.log + match out {
                Ok(o) => output_lines(o.stdout@, o.stderr@),
                Err(_) => seq![],
            },
            ..old(progress)@
        }),
{
    match out {
        Ok(o) => {
            append_output(progress, o.stdout.as_slice(), o.stderr.as_slice());
            if o.success {
                Ok(())
            } else {
                Err(command_failure_message(args, o.code, o.stderr.as_slice()))
            }
        },
        Err(LaunchFailure::NotStarted) => {
            assert(progress@.log =~= old(progress)@.log + seq![]);
            Err(spawn_failure_message(args))
        },
        Err(LaunchFailure::WaitFailed) => {
            assert(progress@.log =~= old(progress)@.log + seq![]);
            Err(owned("wait_with_output"))
        },
    }
}

// ───────────────────────────── before and after ─────────────────────────────

/// The progress of a format about to start with `total` stages.
pub fn start_progress(total: usize) -> (p: FormatProgress)
    ensures
        p@ == fresh_progress(total as nat),
{
    let mut p = FormatProgress::default();
    p.total_steps = total;
    p
}

/// The message of a successful format.
pub open spec fn ready_message(label: Seq<char>) -> Seq<char> {
    "\u{2713} Drive '"@ + label
        + "' is ready. Unplug and replug it, then select it to start backing up."@
}

/// The message of a failed format.
pub open spec fn failed_message(err: Seq<char>) -> Seq<char> {
    "\u{2717} Format failed: "@ + err
}

/// Marks the format as done: every stage complete, named `Done`, and the
/// log ends with a blank line and the ready message.
pub fn finish_success(progress: &mut FormatProgress, label: &str)
    ensures
        final(progress)@ == (FormatProgressView {
            finished: true,
            step: old(progress)@.total_steps,
            step_name: "Done"@,
            log: old(progress)@.log.push(seq![]).push(ready_message(label@)),
            ..old(progress)@
        }),
{
    progress.finished = true;
    progress.step = progress.total_steps;
    progress.step_name = owned("Done");
    let blank = String::new();
    proof {
        crate::text::lemma_views_push(progress.log@, blank);
    }
    progress.log.push(blank);
    let mut v: Vec<char> = Vec::new();
    push_str(&mut v, "\u{2713} Drive '");
    push_str(&mut v, label);
    push_str(&mut v, "' is ready. Unplug and replug it, then select it to start backing up.");
    let msg = string_of(v.as_slice());
    assert(msg@ =~= ready_message(label@));
    proof {
        crate::text::lemma_views_push(progress.log@, msg);
    }
    progress.log.push(msg);
}

/// Marks the format as failed with `err`; the log ends with a blank line and
/// the failure.
pub fn finish_failure(progress: &mut FormatProgress, err: String)
    ensures
        final(progress)@ == (FormatProgressView {
            finished: true,
            error: Some(err@),
            log: old(progress)@.log.push(seq![]).push(failed_message(err@)),
            ..old(progress)@
        }),
{
    let mut v: Vec<char> = Vec::new();
    push_str(&mut v, "\u{2717} Format failed: ");
    push_str(&mut v, err.as_str());
    let msg = string_of(v.as_slice());
    progress.error = Some(err);
    progress.finished = true;
    let blank = String::new();
    proof {
        crate::text::lemma_views_push(progress.log@, blank);
    }
    progress.log.push(blank);
    proof {
        crate::text::lemma_views_push(progress.log@, msg);
    }
    progress.log.push(msg);
}

// ───────────────────────────── what is mounted ─────────────────────────────

/// The device a line of `/proc/mounts` names: its first word, or nothing.
pub open spec fn mount_source(line: Seq<char>) -> Seq<char> {
    let w = crate::text::words(line);
    if w.len() > 0 {
        w[0]
    } else {
        seq![]
    }
}

/// The devices the lines of a mount table name, in order.
pub open spec fn mount_sources_of(mounts: Seq<char>) -> Seq<Seq<char>> {
    Seq::new(lines(mounts).len(), |i: int| mount_source(lines(mounts)[i]))
}

/// The devices named by the lines of the mount table `mounts`.
pub fn mount_sources(mounts: &str) -> (r: Vec<String>)
    ensures
        views_of(r@) == mount_sources_of(mounts@),
{
    let mv = chars_of(mounts);
    let ls = lines_of(mv.as_slice());
    let mut r: Vec<String> = Vec::new();
    let mut i: usize = 0;
    while i < ls.len()
        invariant
            i <= ls@.len(),
            ls@.len() == lines(mounts@).len(),
            forall|k: int| 0 <= k < ls@.len() ==> #[trigger] ls@[k]@ == lines(mounts@)[k],
            views_of(r@) == mount_sources_of(mounts@).take(i as int),
        decreases ls@.len() - i,
    {
        let w = crate::text::words_of(ls[i].as_slice());
        let src = if w.len() > 0 {
            string_of(w[0].as_slice())
        } else {
            String::new()
        };
        assert(src@ == mount_source(lines(mounts@)[i as int]));
        proof {
            crate::text::lemma_views_push(r@, src);
        }
        r.push(src);
        assert(views_of(r@) =~= mount_sources_of(mounts@).take(i + 1));
        i += 1;
    }
    assert(mount_sources_of(mounts@).take(ls@.len() as int) =~= mount_sources_of(mounts@));
    r
}

pub open spec fn opt_views(v: Seq<Option<String>>) -> Seq<Option<Seq<char>>> {
    Seq::new(v.len(), |i: int| opt_view(v[i]))
}

/// Whether the mount table lists `dev`: a line names it, or names a path that
/// resolves to the same file as `dev` (`canonical` is where `dev` resolves,
/// `canonical_sources[i]` where the `i`-th named device does, when they do).
pub open spec fn is_listed_mounted(
    dev: Seq<char>,
    canonical: Option<Seq<char>>,
    sources: Seq<Seq<char>>,
    canonical_sources: Seq<Option<Seq<char>>>,
) -> bool {
    exists|i: int| 0 <= i < sources.len() && #[trigger] names_at(dev, canonical, sources, canonical_sources, i)
}

/// Whether the `i`-th line of the mount table names `dev`, directly or
/// through the file it resolves to.
pub open spec fn names_at(
    dev: Seq<char>,
    canonical: Option<Seq<char>>,
    sources: Seq<Seq<char>>,
    canonical_sources: Seq<Option<Seq<char>>>,
    i: int,
) -> bool {
    sources[i] == dev || (canonical is Some && canonical_sources[i] == canonical)
}

/// Whether the mount table lists `dev` (see `is_listed_mounted`).
pub fn device_is_mounted(
    dev: &str,
    canonical: &Option<String>,
    sources: &Vec<String>,
    canonical_sources: &Vec<Option<String>>,
) -> (b: bool)
    requires
        sources@.len() == canonical_sources@.len(),
    ensures
        b == is_listed_mounted(
            dev@,
            opt_view(*canonical),
            views_of(sources@),
            opt_views(canonical_sources@),
        ),
{
    let dv = chars_of(dev);
    let mut i: usize = 0;
    while i < sources.len()
        invariant
            sources@.len() == canonical_sources@.len(),
            i <= sources@.len(),
            dv@ == dev@,
            forall|j: int|
                0 <= j < i ==> !#[trigger] names_at(
                    dev@,
                    opt_view(*canonical),
                    views_of(sources@),
                    opt_views(canonical_sources@),
                    j,
                ),
        decreases sources@.len() - i,
    {
        let sv = chars_of(sources[i].as_str());
        let same_name = crate::text::chars_eq(sv.as_slice(), dv.as_slice());
        let same_file = match canonical {
            Some(c) => match &canonical_sources[i] {
                Some(cs) => {
                    let a = chars_of(c.as_str());
                    let b = chars_of(cs.as_str());
                    let e = crate::text::chars_eq(a.as_slice(), b.as_slice());
                    assert(e == (opt_views(canonical_sources@)[i as int] == opt_view(*canonical)));
                    e
                },
                None => false,
            },
            None => false,
        };
        assert(views_of(sources@)[i as int] == sources@[i as int]@);
        assert(same_name == (views_of(sources@)[i as int] == dev@));
        assert(same_file == (opt_view(*canonical) is Some && opt_views(canonical_sources@)[i as int]
            == opt_view(*canonical)));
        assert((same_name || same_file) == names_at(
            dev@,
            opt_view(*canonical),
            views_of(sources@),
            opt_views(canonical_sources@),
            i as int,
        ));
        if same_name || same_file {
            return true;
        }
        i += 1;
    }
    false
}

/// What is mounted of a drive about to be formatted: the device itself, or
/// else, for a whole disk, its first partition when that exists and is mounted.
pub open spec fn mounted_target(
    device: Seq<char>,
    is_disk: bool,
    device_mounted: bool,
    partition_mounted: bool,
) -> Option<Seq<char>> {
    if device_mounted {
        Some(device)
    } else if is_disk && partition_mounted {
        Some(first_partition(device))
    } else {
        None
    }
}

/// What must be unmounted before formatting (see `mounted_target`).
pub fn find_mounted_device(
    device: &str,
    is_disk: bool,
    device_mounted: bool,
    partition_mounted: bool,
) -> (r: Option<String>)
    ensures
        opt_view(r) == mounted_target(device@, is_disk, device_mounted, partition_mounted),
{
    if device_mounted {
        Some(owned(device))
    } else if is_disk && partition_mounted {
        Some(partition_path(device))
    } else {
        None
    }
}

/// The stage shown while a mounted drive is unmounted before formatting.
pub open spec fn unmount_stage() -> Seq<char> {
    "Unmounting drive"@
}

/// A mounted drive is unmounted before formatting: one more stage, which
/// starts now.
pub fn start_unmount_stage(progress: &mut FormatProgress)
    requires
        old(progress).step < usize::MAX,
        old(progress).total_steps < usize::MAX,
    ensures
        final(progress)@ == (FormatProgressView {
            step: old(progress)@.step + 1,
            total_steps: old(progress)@.total_steps + 1,
            step_name: unmount_stage(),
            log: old(progress)@.log.push(step_banner(unmount_stage())),
            ..old(progress)@
        }),
{
    progress.total_steps = progress.total_steps + 1;
    advance(progress, "Unmounting drive");
}

/// The failure when the drive could not be unmounted before formatting.
pub open spec fn unmount_failure(dev: Seq<char>) -> Seq<char> {
    "Failed to unmount "@ + dev + " before formatting"@
}

pub fn unmount_failure_message(dev: &str) -> (s: String)
    ensures
        s@ == unmount_failure(dev@),
{
    text3("Failed to unmount ", dev, " before formatting")
}

// ───────────────────────────── safety checks ─────────────────────────────

/// What lsblk said when asked again about the device.
pub enum LsblkAnswer {
    /// lsblk could not be run.
    Failed,
    /// Its output was not JSON.
    Unparsable,
    /// The `hotplug` and `rm` fields of its first block device.
    Flags { hotplug: JsonScalar, rm: JsonScalar },
}

/// What the safety checks found out about the device, gathered in order; a
/// check after the first one that fails is not looked at.
pub struct PreflightFacts {
    /// Whether the device is a block device; `None` when its metadata could
    /// not be read.
    pub block_device: Option<bool>,
    pub lsblk: LsblkAnswer,
    /// Whether the mount table lists the device.
    pub device_mounted: bool,
    /// Whether its first partition exists and the mount table lists it.
    pub partition_mounted: bool,
    /// Whether `/dev/mapper/backer-upper-format` exists.
    pub mapper_exists: bool,
}

/// Whether lsblk reports the device as hotplug or removable.
pub open spec fn lsblk_removable(a: LsblkAnswer) -> bool {
    match a {
        LsblkAnswer::Flags { hotplug, rm } => flag_set(hotplug) || flag_set(rm),
        _ => false,
    }
}

/// The outcome of the safety checks: the lines logged and the failure, if any.
pub struct Preflight {
    pub log: Vec<String>,
    pub error: Option<String>,
}

pub open spec fn access_failure(device: Seq<char>) -> Seq<char> {
    "Cannot access "@ + device + ": file not found or permission denied"@
}

pub open spec fn not_block_failure(device: Seq<char>) -> Seq<char> {
    device + " is not a block device"@
}

pub open spec fn not_removable_failure(device: Seq<char>) -> Seq<char> {
    "SAFETY ABORT: "@ + device
        + " is not a hotplug/removable device. Refusing to format a drive that may be an internal system disk."@
}

pub open spec fn mounted_failure(device: Seq<char>) -> Seq<char> {
    "SAFETY ABORT: "@ + device + " is currently mounted. Unmount or eject it before formatting."@
}

pub open spec fn partition_mounted_failure(partition: Seq<char>) -> Seq<char> {
    "SAFETY ABORT: partition "@ + partition
        + " is currently mounted. Unmount or eject it before formatting."@
}

pub open spec fn mapper_busy_failure() -> Seq<char> {
    "SAFETY ABORT: /dev/mapper/backer-upper-format already exists, likely left open by a previous failed format attempt. Close it first:\n  doas cryptsetup luksClose backer-upper-format"@
}

/// The failure of the safety checks, checked in this order: the device must
/// be a readable block device that lsblk reports as hotplug or removable,
/// neither it nor (for a whole disk) its first partition may be mounted, and
/// the mapper volume name must be free.
pub open spec fn preflight_failure(device: Seq<char>, is_disk: bool, f: PreflightFacts) -> Option<
    Seq<char>,
> {
    match f.block_device {
        None => Some(access_failure(device)),
        Some(false) => Some(not_block_failure(device)),
        Some(true) => match f.lsblk {
            LsblkAnswer::Failed => Some("lsblk re-check failed"@),
            LsblkAnswer::Unparsable => Some("lsblk output could not be parsed"@),
            _ => if !lsblk_removable(f.lsblk) {
                Some(not_removable_failure(device))
            } else if f.device_mounted {
                Some(mounted_failure(device))
            } else if is_disk && f.partition_mounted {
                Some(partition_mounted_failure(first_partition(device)))
            } else if f.mapper_exists {
                Some(mapper_busy_failure())
            } else {
                None
            },
        },
    }
}

/// The lines the safety checks log: a heading, then one line for each check
/// passed, then a closing line when all passed.
pub open spec fn preflight_log(device: Seq<char>, is_disk: bool, f: PreflightFacts) -> Seq<Seq<char>> {
    let l0 = seq!["--- Pre-flight checks ---"@];
    let l1 = l0.push("\u{2713} "@ + device + " exists and is a block device"@);
    let l2 = l1.push("\u{2713} "@ + device + " is hotplug/removable"@);
    let l3 = l2.push("\u{2713} "@ + device + " is not mounted"@);
    let l4 = l3.push("\u{2713} Mapper slot is free"@).push("--- All checks passed, starting format ---"@);
    if f.block_device != Some(true) {
        l0
    } else if !lsblk_removable(f.lsblk) {
        l1
    } else if f.device_mounted || (is_disk && f.partition_mounted) {
        l2
    } else if f.mapper_exists {
        l3
    } else {
        l4
    }
}

fn push_line(log: &mut Vec<String>, parts: &[&str])
    ensures
        views_of(final(log)@) == views_of(old(log)@).push(crate::text::concat_all(
            Seq::new(parts@.len(), |i: int| parts@[i]@),
        )),
{
    let mut v: Vec<char> = Vec::new();
    let mut i: usize = 0;
    while i < parts.len()
        invariant
            i <= parts@.len(),
            v@ == crate::text::concat_all(Seq::new(i as nat, |k: int| parts@[k]@)),
        decreases parts@.len() - i,
    {
        push_str(&mut v, parts[i]);
        assert(Seq::new((i + 1) as nat, |k: int| parts@[k]@).drop_last() =~= Seq::new(
            i as nat,
            |k: int| parts@[k]@,
        ));
        i += 1;
    }
    let line = string_of(v.as_slice());
    proof {
        crate::text::lemma_views_push(log@, line);
    }
    log.push(line);
}

/// The safety checks run before anything is written to a drive.
pub fn preflight(device: &str, is_disk: bool, facts: &PreflightFacts) -> (r: Preflight)
    ensures
        opt_view(r.error) == preflight_failure(device@, is_disk, *facts),
        views_of(r.log@) == preflight_log(device@, is_disk, *facts),
{
    let mut log: Vec<String> = Vec::new();
    proof {
        reveal_with_fuel(crate::text::concat_all, 4);
    }
    push_line(&mut log, &["--- Pre-flight checks ---"]);
    match facts.block_device {
        None => {
            return Preflight {
                log,
                error: Some(text3("Cannot access ", device, ": file not found or permission denied")),
            };
        },
        Some(false) => {
            let mut v = chars_of(device);
            push_str(&mut v, " is not a block device");
            return Preflight { log, error: Some(string_of(v.as_slice())) };
        },
        Some(true) => {},
    }
    push_line(&mut log, &["\u{2713} ", device, " exists and is a block device"]);
    let removable = match &facts.lsblk {
        LsblkAnswer::Failed => {
            return Preflight { log, error: Some(owned("lsblk re-check failed")) };
        },
        LsblkAnswer::Unparsable => {
            return Preflight { log, error: Some(owned("lsblk output could not be parsed")) };
        },
        LsblkAnswer::Flags { hotplug, rm } => flag_set_of(hotplug) || flag_set_of(rm),
    };
    if !removable {
        return Preflight {
            log,
            error: Some(
                text3(
                    "SAFETY ABORT: ",
                    device,
                    " is not a hotplug/removable device. Refusing to format a drive that may be an internal system disk.",
                ),
            ),
        };
    }
    push_line(&mut log, &["\u{2713} ", device, " is hotplug/removable"]);
    if facts.device_mounted {
        return Preflight {
            log,
            error: Some(
                text3(
                    "SAFETY ABORT: ",
                    device,
                    " is currently mounted. Unmount or eject it before formatting.",
                ),
            ),
        };
    }
    if is_disk && facts.partition_mounted {
        let partition = partition_path(device);
        return Preflight {
            log,
            error: Some(
                text3(
                    "SAFETY ABORT: partition ",
                    partition.as_str(),
                    " is currently mounted. Unmount or eject it before formatting.",
                ),
            ),
        };
    }
    push_line(&mut log, &["\u{2713} ", device, " is not mounted"]);
    if facts.mapper_exists {
        return Preflight {
            log,
            error: Some(
                owned(
                    "SAFETY ABORT: /dev/mapper/backer-upper-format already exists, likely left open by a previous failed format attempt. Close it first:\n  doas cryptsetup luksClose backer-upper-format",
                ),
            ),
        };
    }
    push_line(&mut log, &["\u{2713} Mapper slot is free"]);
    push_line(&mut log, &["--- All checks passed, starting format ---"]);
    Preflight { log, error: None }
}

/// Formatting only goes ahead on a removable block device that is not
/// mounted, whose first partition (for a whole disk) is not mounted, and
/// while the mapper volume name is free; in every other case the safety
/// checks refuse.
pub proof fn preflight_protects(device: Seq<char>, is_disk: bool, f: PreflightFacts)
    ensures
        preflight_failure(device, is_disk, f) is None <==> (f.block_device == Some(true)
            && lsblk_removable(f.lsblk) && !f.device_mounted && !(is_disk && f.partition_mounted)
            && !f.mapper_exists),
{
}

// ───────────────────────────── looking at a drive before formatting ─────────────────────────────

/// What the user is shown about a drive before formatting it.
#[derive(Debug, Clone)]
pub struct DriveInfo {
    pub lsblk_text: String,
    pub df_text: Option<String>,
    pub ls_text: Option<String>,
    pub note: Option<String>,
    pub finished: bool,
}

impl Default for DriveInfo {
    fn default() -> (d: DriveInfo)
        ensures
            d.lsblk_text@ == Seq::<char>::empty(),
            d.df_text is None,
            d.ls_text is None,
            d.note is None,
            !d.finished,
    {
        DriveInfo { lsblk_text: String::new(), df_text: None, ls_text: None, note: None, finished: false }
    }
}

/// The note that ends a look at a drive before it is mounted: an encrypted
/// drive cannot be read, a drive without a filesystem has nothing to show.
pub open spec fn probe_note(fstype: Option<Seq<char>>) -> Option<Seq<char>> {
    match fstype {
        Some(t) => if t == "crypto_LUKS"@ {
            Some("Encrypted (LUKS) \u{2014} contents cannot be read without the passphrase."@)
        } else if t.len() == 0 {
            Some("No filesystem detected on this device."@)
        } else {
            None
        },
        None => Some("No filesystem detected on this device."@),
    }
}

/// The note for a drive's filesystem type, when it ends the look.
pub fn probe_note_for(fstype: &Option<String>) -> (n: Option<String>)
    ensures
        opt_view(n) == probe_note(opt_view(*fstype)),
{
    match fstype {
        Some(t) => {
            let tv = chars_of(t.as_str());
            if crate::text::chars_eq_str(tv.as_slice(), "crypto_LUKS") {
                Some(owned("Encrypted (LUKS) \u{2014} contents cannot be read without the passphrase."))
            } else if tv.len() == 0 {
                Some(owned("No filesystem detected on this device."))
            } else {
                None
            }
        },
        None => Some(owned("No filesystem detected on this device.")),
    }
}

/// A command's output when it is not blank.
pub open spec fn nonblank_text(text: Seq<char>) -> Option<Seq<char>> {
    if trim(text).len() > 0 {
        Some(text)
    } else {
        None
    }
}

pub fn nonblank(text: String) -> (r: Option<String>)
    ensures
        opt_view(r) == nonblank_text(text@),
{
    let t = trim_str(text.as_str());
    if t.len() > 0 {
        Some(text)
    } else {
        None
    }
}

/// The lsblk summary shown for a drive: its output, trimmed.
pub fn summary_text(text: &str) -> (r: String)
    ensures
        r@ == trim(text@),
{
    let t = trim_str(text);
    string_of(t.as_slice())
}

/// The note when the drive could not be mounted to look at it.
pub open spec fn mount_preview_failure(err: Seq<char>) -> Seq<char> {
    "Could not mount for preview: "@ + err
}

pub fn mount_preview_failure_message(err: &str) -> (s: String)
    ensures
        s@ == mount_preview_failure(err@),
{
    let mut v: Vec<char> = Vec::new();
    push_str(&mut v, "Could not mount for preview: ");
    push_str(&mut v, err);
    string_of(v.as_slice())
}

/// The first mount point in `lsblk -n -o MOUNTPOINT` output: its first line
/// that is not blank, trimmed.
pub open spec fn first_mountpoint(text: Seq<char>) -> Option<Seq<char>> {
    let ls = nonblank_lines(lines(text));
    if ls.len() > 0 {
        Some(ls[0])
    } else {
        None
    }
}

pub fn first_mountpoint_of(text: &str) -> (r: Option<String>)
    ensures
        opt_view(r) == first_mountpoint(text@),
{
    let mut found: Vec<String> = Vec::new();
    let tv = chars_of(text);
    let ls = lines_of(tv.as_slice());
    let ghost all = lines(text@);
    let mut i: usize = 0;
    while i < ls.len()
        invariant
            i <= ls@.len(),
            ls@.len() == all.len(),
            all == lines(text@),
            forall|k: int| 0 <= k < ls@.len() ==> #[trigger] ls@[k]@ == all[k],
            views_of(found@) == nonblank_lines(all.take(i as int)),
        decreases ls@.len() - i,
    {
        assert(all.take(i + 1).drop_last() =~= all.take(i as int));
        assert(all.take(i + 1).last() == ls@[i as int]@);
        let t = trim_chars(ls[i].as_slice());
        if t.len() > 0 {
            let line = string_of(t.as_slice());
            proof {
                crate::text::lemma_views_push(found@, line);
            }
            found.push(line);
            assert(views_of(found@) =~= nonblank_lines(all.take(i + 1)));
        }
        i += 1;
    }
    assert(all.take(ls@.len() as int) =~= all);
    if found.len() > 0 {
        Some(found[0].clone())
    } else {
        None
    }
}


/// A format run that only exists once the safety checks passed: the checks'
/// outcome, and the run of the steps (see `FormatRun::new`) exactly when
/// nothing was refused.
pub fn checked_format_run(
    device: &str,
    is_disk: bool,
    label: &str,
    fstype: &str,
    encrypt: bool,
    facts: &PreflightFacts,
) -> (r: (Preflight, Option<FormatRun>))
    ensures
        opt_view(r.0.error) == preflight_failure(device@, is_disk, *facts),
        views_of(r.0.log@) == preflight_log(device@, is_disk, *facts),
        r.1 is Some <==> preflight_failure(device@, is_disk, *facts) is None,
        r.1 matches Some(run) ==> step_views(run.steps@) == format_plan(device@, is_disk, label@, fstype@, encrypt)
            && run.next == 0 && run.pending is None && run.awaiting is None,
{
    let checks = preflight(device, is_disk, facts);
    if checks.error.is_some() {
        (checks, None)
    } else {
        (checks, Some(FormatRun::new(device, is_disk, label, fstype, encrypt)))
    }
}


/// The log lines (see `command_log_line`) of the commands among `steps`, in order.
pub open spec fn command_lines(steps: Seq<StepView>) -> Seq<Seq<char>>
    decreases steps.len(),
{
    if steps.len() == 0 {
        seq![]
    } else {
        match steps.last().action {
            ActionView::Doas { args, .. } => command_lines(steps.drop_last()).push(command_log_line(args)),
            _ => command_lines(steps.drop_last()),
        }
    }
}

/// Each preview line as a logged command: `$ ` in front.
pub open spec fn logged_previews(ps: Seq<Seq<char>>) -> Seq<Seq<char>> {
    Seq::new(ps.len(), |i: int| "$ "@ + ps[i])
}

/// Whether a step is shown exactly when it runs a command, as that command.
pub open spec fn shown_as_run(s: StepView) -> bool {
    &&& (s.preview is Some <==> s.action is Doas)
    &&& (s.action matches ActionView::Doas { args, .. } ==> s.preview == Some(doas_line(args)))
}

proof fn lemma_command_lines(steps: Seq<StepView>)
    requires
        forall|i: int| 0 <= i < steps.len() ==> shown_as_run(#[trigger] steps[i]),
    ensures
        command_lines(steps) == logged_previews(previews(steps)),
    decreases steps.len(),
{
    if steps.len() > 0 {
        let init = steps.drop_last();
        assert forall|i: int| 0 <= i < init.len() implies shown_as_run(#[trigger] init[i]) by {
            assert(init[i] == steps[i]);
        }
        lemma_command_lines(init);
        let last = steps.last();
        assert(shown_as_run(steps[steps.len() - 1]));
        match last.action {
            ActionView::Doas { args, .. } => {
                assert(logged_previews(previews(steps)) =~= logged_previews(previews(init)).push(
                    "$ "@ + doas_line(args),
                ));
            },
            _ => {
                assert(last.preview is None);
                assert(logged_previews(previews(steps)) =~= logged_previews(previews(init)));
            },
        }
    }
}

/// A format without failure runs exactly the commands its preview shows, in
/// the same order: a run takes the steps of the plan one after the other
/// while nothing failed (see `FormatRun::next_request`), and the log lines of
/// the commands among them are the preview's lines, each after `$ `.
pub proof fn run_logs_match_preview(
    device: Seq<char>,
    is_disk: bool,
    label: Seq<char>,
    fstype: Seq<char>,
    encrypt: bool,
)
    ensures
        command_lines(format_plan(device, is_disk, label, fstype, encrypt)) == logged_previews(
            previews(format_plan(device, is_disk, label, fstype, encrypt)),
        ),
{
    let p = format_plan(device, is_disk, label, fstype, encrypt);
    preview_matches_commands(device, is_disk, label, fstype, encrypt);
    assert forall|i: int| 0 <= i < p.len() implies shown_as_run(#[trigger] p[i]) by {
        assert(p[i].shows_its_command(encrypt, i == p.len() - 1));
    }
    lemma_command_lines(p);
}


/// A step of looking at a drive before formatting it.
pub enum ProbeStep {
    /// The look is over, with this note.
    Finish(Option<String>),
    /// Read the usage and the top folder of the filesystem mounted at
    /// `mount_point`, then unmount the drive again when `unmount_after`.
    Look { mount_point: String, unmount_after: bool },
    /// Mount the drive first; report with `probe_after_mount`.
    Mount,
}

/// The first step of a look at a drive with the filesystem type `fstype`,
/// mounted at `mounted_at` if anywhere: a drive that cannot be read ends the
/// look with its note, a mounted one is read where it is (and left mounted),
/// any other is mounted first.
pub fn probe_first_step(fstype: &Option<String>, mounted_at: &Option<String>) -> (s: ProbeStep)
    ensures
        match probe_note(opt_view(*fstype)) {
            Some(n) => s matches ProbeStep::Finish(Some(m)) && m@ == n,
            None => match mounted_at {
                Some(mp) => s matches ProbeStep::Look { mount_point, unmount_after } && mount_point@ == mp@
                    && !unmount_after,
                None => s is Mount,
            },
        },
{
    match probe_note_for(fstype) {
        Some(n) => ProbeStep::Finish(Some(n)),
        None => match mounted_at {
            Some(mp) => ProbeStep::Look { mount_point: mp.clone(), unmount_after: false },
            None => ProbeStep::Mount,
        },
    }
}

/// The step after mounting the drive to look at it: read it where it was
/// mounted and unmount it afterwards, or end the look with why it could not
/// be mounted.
pub fn probe_after_mount(result: Result<String, String>) -> (s: ProbeStep)
    ensures
        match result {
            Ok(mp) => s matches ProbeStep::Look { mount_point, unmount_after } && mount_point@ == mp@
                && unmount_after,
            Err(e) => s matches ProbeStep::Finish(Some(m)) && m@ == mount_preview_failure(e@),
        },
{
    match result {
        Ok(mp) => ProbeStep::Look { mount_point: mp, unmount_after: true },
        Err(e) => ProbeStep::Finish(Some(mount_preview_failure_message(e.as_str()))),
    }
}


/// Starts a command through `doas`: its command line goes to the log, and
/// the answer is what to write to its input, the passphrase when the step
/// asks for it and nothing otherwise.
pub fn command_started(progress: &mut FormatProgress, args: &Vec<String>, with_passphrase: bool, passphrase: &str) -> (input: Option<String>)
    ensures
        final(progress)@ == (FormatProgressView {
            log: old(progress)@.log.push(command_log_line(views_of(args@))),
            ..old(progress)@
        }),
        opt_view(input) == (if with_passphrase {
            Some(passphrase@)
        } else {
            None
        }),
{
    let line = command_log(args);
    log(progress, line.as_str());
    if with_passphrase {
        Some(owned(passphrase))
    } else {
        None
    }
}

/// A command through `doas` from start to end (see `command_started` and
/// `command_finished`): the log it leaves after `log`, its answer, and the
/// input it was given.
pub open spec fn command_run(
    log: Seq<Seq<char>>,
    args: Seq<Seq<char>>,
    with_passphrase: bool,
    passphrase: Seq<char>,
    out: Result<CommandOutput, LaunchFailure>,
) -> (Seq<Seq<char>>, Result<(), Seq<char>>, Option<Seq<char>>) {
    (
        log.push(command_log_line(args)) + match out {
            Ok(o) => output_lines(o.stdout@, o.stderr@),
            Err(_) => seq![],
        },
        command_result(args, out),
        if with_passphrase {
            Some(passphrase)
        } else {
            None
        },
    )
}

/// The passphrase never reaches the log or an error: two runs of a command
/// that differ only in the passphrase, with the same output, leave the same
/// log and give the same answer; the passphrase only goes to the command's
/// input, and only when the step asks for it.
pub proof fn passphrase_only_goes_to_input(
    log: Seq<Seq<char>>,
    args: Seq<Seq<char>>,
    with_passphrase: bool,
    pw1: Seq<char>,
    pw2: Seq<char>,
    out: Result<CommandOutput, LaunchFailure>,
)
    ensures
        command_run(log, args, with_passphrase, pw1, out).0 == command_run(log, args, with_passphrase, pw2, out).0,
        command_run(log, args, with_passphrase, pw1, out).1 == command_run(log, args, with_passphrase, pw2, out).1,
        command_run(log, args, with_passphrase, pw1, out).2 == (if with_passphrase {
            Some(pw1)
        } else {
            None
        }),
{
}


/// The `hotplug` and `rm` fields of the first entry of `blockdevices` in
/// lsblk's JSON value `json` (`Other` where there is none).
pub fn flags_of_json(json: &JsonNode) -> (a: LsblkAnswer)
    ensures
        ({
            let first = element(member(Some(*json), "blockdevices"@), 0);
            a matches LsblkAnswer::Flags { hotplug, rm } && hotplug == scalar_of(
                member(first, "hotplug"@),
            ) && rm == scalar_of(member(first, "rm"@))
        }),
{
    let first = match json_member(json, "blockdevices") {
        Some(b) => json_element(b, 0),
        None => None,
    };
    match first {
        Some(d) => LsblkAnswer::Flags { hotplug: scalar_member(d, "hotplug"), rm: scalar_member(d, "rm") },
        None => LsblkAnswer::Flags { hotplug: JsonScalar::Other, rm: JsonScalar::Other },
    }
}

/// What lsblk said when asked again about the device, from its output: not
/// readable when the output is not a JSON text, and otherwise what
/// `flags_of_json` reads from its value.
pub fn lsblk_flags(stdout: &[u8]) -> (a: LsblkAnswer)
    ensures
        match json_text_value(stdout@) {
            None => a is Unparsable,
            Some(j) => {
                let first = element(member(Some(j), "blockdevices"@), 0);
                a matches LsblkAnswer::Flags { hotplug, rm } && hotplug == scalar_of(
                    member(first, "hotplug"@),
                ) && rm == scalar_of(member(first, "rm"@))
            },
        },
{
    match parse_json(stdout) {
        None => LsblkAnswer::Unparsable,
        Some(json) => flags_of_json(&json),
    }
}



/// The command a step runs through `doas`; nothing for another step.
pub open spec fn doas_command(s: StepView) -> Seq<Seq<char>> {
    match s.action {
        ActionView::Doas { args, .. } => args,
        _ => seq![],
    }
}

/// Whether `t` names the first partition of the disk `device`: the disk's
/// name followed by `1` or by `p1`.
pub open spec fn is_partition_of(t: Seq<char>, device: Seq<char>) -> bool {
    t == device + "1"@ || t == device + "p1"@
}

/// Where the filesystem goes. Without encryption, a whole disk gets its
/// filesystem on its new partition (see `is_partition_of`), never on the disk
/// device, whose partition table the step before wrote; a partition is
/// formatted in place. With encryption, that same partition is made the LUKS
/// container and the filesystem goes on the opened volume
/// `/dev/mapper/backer-upper-format`. Every format has a filesystem step,
/// with the label asked for.
#[verifier::rlimit(60)]
pub proof fn filesystem_goes_on_the_partition(
    device: Seq<char>,
    is_disk: bool,
    label: Seq<char>,
    fstype: Seq<char>,
    encrypt: bool,
)
    ensures
        ({
            let p = format_plan(device, is_disk, label, fstype, encrypt);
            &&& exists|i: int|
                0 <= i < p.len() && doas_command(#[trigger] p[i]) == seq![
                    "mkfs."@ + fstype,
                    "-L"@,
                    label,
                    doas_command(p[i]).last(),
                ]
            &&& forall|i: int|
                0 <= i < p.len() && doas_command(#[trigger] p[i]).len() > 0 && doas_command(p[i])[0]
                    == "mkfs."@ + fstype ==> {
                    let c = doas_command(p[i]);
                    &&& c.len() == 4
                    &&& encrypt ==> c.last() == "/dev/mapper/backer-upper-format"@
                    &&& !encrypt && !is_disk ==> c.last() == device
                    &&& !encrypt && is_disk ==> c.last() != device && is_partition_of(c.last(), device)
                }
            &&& forall|i: int|
                0 <= i < p.len() && doas_command(#[trigger] p[i]).len() > 1 && doas_command(p[i])[0]
                    == "cryptsetup"@ && doas_command(p[i])[1] == "luksFormat"@ ==> {
                    let c = doas_command(p[i]);
                    &&& !is_disk ==> c.last() == device
                    &&& is_disk ==> c.last() != device && is_partition_of(c.last(), device)
                }
        }),
{
    reveal_strlit("mkfs.");
    reveal_strlit("dd");
    reveal_strlit("parted");
    reveal_strlit("cryptsetup");
    reveal_strlit("luksFormat");
    reveal_strlit("luksOpen");
    reveal_strlit("luksClose");
    reveal_strlit("1");
    reveal_strlit("p1");
    let part = if is_disk {
        first_partition(device)
    } else {
        device
    };
    if is_disk {
        assert(is_partition_of(part, device));
        assert(part.len() > device.len());
    }
    let h = plan_head(device, is_disk);
    let t = plan_tail(part, label, fstype, encrypt);
    let p = format_plan(device, is_disk, label, fstype, encrypt);
    assert(p == h + t);
    let mk = "mkfs."@ + fstype;
    assert(mk[0] == 'm');
    assert("dd"@[0] == 'd');
    assert("parted"@[0] == 'p');
    assert("cryptsetup"@[0] == 'c');
    assert("luksOpen"@ != "luksFormat"@) by {
        assert("luksOpen"@[4] != "luksFormat"@[4]);
    }
    assert("luksClose"@ != "luksFormat"@) by {
        assert("luksClose"@[4] != "luksFormat"@[4]);
    }
    let k: int = if encrypt {
        h.len() + 5int
    } else {
        h.len() + 1int
    };
    assert(p[k] == t[k - h.len()]);
    assert(doas_command(p[k]) =~= seq![mk, "-L"@, label, doas_command(p[k]).last()]);
    assert forall|i: int|
        0 <= i < p.len() && doas_command(#[trigger] p[i]).len() > 0 && doas_command(p[i])[0]
            == mk implies {
        let c = doas_command(p[i]);
        &&& c.len() == 4
        &&& encrypt ==> c.last() == "/dev/mapper/backer-upper-format"@
        &&& !encrypt && !is_disk ==> c.last() == device
        &&& !encrypt && is_disk ==> c.last() != device && is_partition_of(c.last(), device)
    } by {
        if i < h.len() {
            assert(p[i] == h[i]);
        } else {
            assert(p[i] == t[i - h.len()]);
        }
    }
    assert forall|i: int|
        0 <= i < p.len() && doas_command(#[trigger] p[i]).len() > 1 && doas_command(p[i])[0]
            == "cryptsetup"@ && doas_command(p[i])[1] == "luksFormat"@ implies {
        let c = doas_command(p[i]);
        &&& !is_disk ==> c.last() == device
        &&& is_disk ==> c.last() != device && is_partition_of(c.last(), device)
    } by {
        if i < h.len() {
            assert(p[i] == h[i]);
        } else {
            assert(p[i] == t[i - h.len()]);
        }
    }
}

} // verus!
