//! Backups in the desktop edition: rsync also compresses, the progress is
//! read from the percentage and the summary lines, and snapshots are named
//! by the time they are taken.
use vstd::prelude::*;
use crate::backup::{
    check_counts, check_counts_of, command_line, command_line_of, is_progress_line, named_file,
    named_file_of, no_update, or_zero, owned, rsync_arg_list, rsync_args_with_flag, RsyncUpdate,
    RsyncUpdateView, SnapshotCommand, SnapshotOutcome,
};
use crate::config::SyncJob;
use crate::paths::{join, push_join};
use crate::text::{
    chars_of, contains, contains_str, find_char, find_char_exec, lemma_find_char_found, parse_u64,
    parse_u64_chars, prefix, push_str, remove_char, remove_char_exec, starts_with, starts_with_str,
    string_of, trim, views_of, words, words_of,
};

verus! {

/// The rsync arguments of one job in the desktop edition (archive, verbose
/// and compressed).
pub fn rsync_args(job: &SyncJob, drive_root: &str) -> (args: Vec<String>)
    ensures
        views_of(args@) == rsync_arg_list("-avz"@, job@, drive_root@),
{
    rsync_args_with_flag("-avz", job, drive_root)
}

/// The rsync command of a job as a line a shell can run.
pub fn rsync_command_string(job: &SyncJob, drive_root: &str) -> (s: String)
    ensures
        s@ == command_line(rsync_arg_list("-avz"@, job@, drive_root@)),
{
    let args = rsync_args(job, drive_root);
    command_line_of(&args)
}

/// The percentage of a progress line: the last word before `%`.
pub open spec fn percent_text(t: Seq<char>) -> Option<Seq<char>> {
    match find_char(t, '%') {
        Some(p) => {
            let parts = words(t.take(p));
            if parts.len() > 0 {
                Some(parts[parts.len() - 1])
            } else {
                None
            }
        },
        None => None,
    }
}

/// Whether a line is a summary line that gives the size of the transfer.
pub open spec fn is_summary_line(t: Seq<char>) -> bool {
    contains(t, "ir-chk="@) || starts_with(t, "Total"@)
}

/// The size a summary line gives: its first word without thousands
/// separators, when that is a number above 0.
pub open spec fn summary_bytes(t: Seq<char>) -> Option<u64> {
    let parts = words(t);
    if parts.len() > 0 {
        let b = or_zero(parse_u64(remove_char(parts[0], ',')));
        if b > 0 {
            Some(b)
        } else {
            None
        }
    } else {
        None
    }
}

/// What a line of rsync output says in the desktop edition, once trimmed: a
/// summary line (one with `ir-chk=`, or starting with `Total`) gives the
/// size of the transfer from its first field, even when it also carries the
/// `xfr#` counter; any other progress line gives the percentage and the file
/// counts; and any other line may name the current file.
pub open spec fn rsync_update(line: Seq<char>) -> RsyncUpdateView {
    let t = trim(line);
    if is_summary_line(t) {
        RsyncUpdateView { bytes_total: summary_bytes(t), ..no_update() }
    } else if is_progress_line(t) {
        RsyncUpdateView { percent: percent_text(t), files: check_counts(t), ..no_update() }
    } else {
        RsyncUpdateView { current_file: named_file(t), ..no_update() }
    }
}

fn percent_text_of(t: &[char]) -> (r: Option<String>)
    ensures
        match r {
            Some(p) => percent_text(t@) == Some(p@),
            None => percent_text(t@) is None,
        },
{
    proof {
        lemma_find_char_found(t@, '%');
    }
    match find_char_exec(t, '%') {
        None => None,
        Some(p) => {
            let before = prefix(t, p);
            let parts = words_of(before.as_slice());
            if parts.len() > 0 {
                Some(string_of(parts[parts.len() - 1].as_slice()))
            } else {
                None
            }
        },
    }
}

fn summary_bytes_of(t: &[char]) -> (r: Option<u64>)
    ensures
        r == summary_bytes(t@),
{
    let parts = words_of(t);
    if parts.len() > 0 {
        let digits = remove_char_exec(parts[0].as_slice(), ',');
        let b = match parse_u64_chars(digits.as_slice()) {
            Some(v) => v,
            None => 0,
        };
        if b > 0 {
            Some(b)
        } else {
            None
        }
    } else {
        None
    }
}

/// What one line of rsync's output says (see `rsync_update`).
pub fn parse_rsync_line(line: &str) -> (u: RsyncUpdate)
    ensures
        u@ == rsync_update(line@),
{
    let t = crate::text::trim_str(line);
    let t = t.as_slice();
    let mut u = RsyncUpdate {
        transfer: None,
        percent: None,
        files: None,
        bytes_total: None,
        current_file: None,
    };
    if contains_str(t, "ir-chk=") || starts_with_str(t, "Total") {
        u.bytes_total = summary_bytes_of(t);
    } else if contains_str(t, "to-chk=") || contains_str(t, "xfr#") {
        u.percent = percent_text_of(t);
        u.files = check_counts_of(t);
    } else {
        u.current_file = named_file_of(t);
    }
    u
}

/// The snapshot command of the desktop edition for a drive at `root`, named
/// `snapshot-<stamp>`: `btrfs subvolume snapshot -r <root>
/// <root>/.snapshots/snapshot-<stamp>`.
pub open spec fn stamped_snapshot(root: Seq<char>, stamp: Seq<char>) -> (Seq<Seq<char>>, Seq<char>, Seq<char>) {
    let name = "snapshot-"@ + stamp;
    let dir = join(root, ".snapshots"@);
    (seq!["btrfs"@, "subvolume"@, "snapshot"@, "-r"@, root, join(dir, name)], dir, name)
}

/// The snapshot command for a drive at `root` with the time stamp `stamp`.
pub fn stamped_snapshot_command(root: &str, stamp: &str) -> (c: SnapshotCommand)
    ensures
        (views_of(c.argv@), c.dir@, c.name@) == stamped_snapshot(root@, stamp@),
        c.cwd is None,
{
    let mut nv: Vec<char> = Vec::new();
    push_str(&mut nv, "snapshot-");
    push_str(&mut nv, stamp);
    let name = string_of(nv.as_slice());
    let mut dv: Vec<char> = Vec::new();
    push_join(&mut dv, root, ".snapshots");
    let dir = string_of(dv.as_slice());
    let mut tv: Vec<char> = Vec::new();
    push_join(&mut tv, dir.as_str(), name.as_str());
    let target = string_of(tv.as_slice());
    let mut argv: Vec<String> = Vec::new();
    let parts = ["btrfs", "subvolume", "snapshot", "-r"];
    let mut i: usize = 0;
    while i < 4
        invariant
            i <= 4,
            views_of(argv@) == Seq::new(i as nat, |k: int| parts@[k]@),
        decreases 4 - i,
    {
        let s = owned(parts[i]);
        proof {
            crate::text::lemma_views_push(argv@, s);
        }
        argv.push(s);
        assert(views_of(argv@) =~= Seq::new((i + 1) as nat, |k: int| parts@[k]@));
        i += 1;
    }
    let r = owned(root);
    proof {
        crate::text::lemma_views_push(argv@, r);
    }
    argv.push(r);
    proof {
        crate::text::lemma_views_push(argv@, target);
    }
    argv.push(target);
    assert(views_of(argv@) =~= stamped_snapshot(root@, stamp@).0);
    SnapshotCommand { name, dir, argv, cwd: None }
}

/// The log line of how the snapshot went in the desktop edition.
pub open spec fn snapshot_report_line(name: Seq<char>, outcome: SnapshotOutcome) -> Seq<char> {
    match outcome {
        SnapshotOutcome::SpawnFailed(e) => "Warning: btrfs snapshot failed: "@ + e@,
        SnapshotOutcome::Failed { code, .. } => "Warning: btrfs snapshot exited "@
            + crate::text::signed_decimal(
            match code {
                Some(c) => c as int,
                None => -1,
            },
        ),
        SnapshotOutcome::Succeeded => "Snapshot created: "@ + name,
    }
}

/// The log line of how the snapshot went (see `snapshot_report_line`).
pub fn snapshot_report(name: &str, outcome: &SnapshotOutcome) -> (s: String)
    ensures
        s@ == snapshot_report_line(name@, *outcome),
{
    let mut v: Vec<char> = Vec::new();
    match outcome {
        SnapshotOutcome::SpawnFailed(e) => {
            push_str(&mut v, "Warning: btrfs snapshot failed: ");
            push_str(&mut v, e.as_str());
        },
        SnapshotOutcome::Failed { code, .. } => {
            push_str(&mut v, "Warning: btrfs snapshot exited ");
            let c: i32 = match code {
                Some(c) => *c,
                None => -1,
            };
            crate::text::push_signed_decimal(&mut v, c);
        },
        SnapshotOutcome::Succeeded => {
            push_str(&mut v, "Snapshot created: ");
            push_str(&mut v, name);
        },
    }
    string_of(v.as_slice())
}


/// In the desktop edition too, a line names the file being copied only when
/// it is nothing else: the file is the whole trimmed line, which is not
/// empty, holds no `%`, and starts with none of `sending`, `receiving`,
/// `sent` and `total`; and a line of that kind that is neither a summary line
/// nor a progress line does name its file.
pub proof fn current_file_is_a_plain_line(line: Seq<char>)
    ensures
        trim(line).contains('%') ==> rsync_update(line).current_file is None,
        rsync_update(line).current_file matches Some(f) ==> f == trim(line) && f.len() > 0
            && !f.contains('%') && !starts_with(f, "sending"@) && !starts_with(f, "receiving"@)
            && !starts_with(f, "sent"@) && !starts_with(f, "total"@),
        ({
            let t = trim(line);
            &&& t.len() > 0
            &&& !t.contains('%')
            &&& !starts_with(t, "sending"@)
            &&& !starts_with(t, "receiving"@)
            &&& !starts_with(t, "sent"@)
            &&& !starts_with(t, "total"@)
            &&& !starts_with(t, "Total"@)
            &&& !contains(t, "to-chk="@)
            &&& !contains(t, "xfr#"@)
            &&& !contains(t, "ir-chk="@)
        }) ==> rsync_update(line).current_file == Some(trim(line)),
{
}

} // verus!
