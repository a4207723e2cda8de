use backer_upper::backup::{
    command_line_of, format_duration, parse_rsync_line, push_log_line, rsync_args,
    rsync_command_string, segments_of, shell_quote, snapshot_report, BackupAction, BackupRun,
    RsyncEnd, SnapshotOutcome,
};
use backer_upper::config::{Config, SyncJob, SyncMode};

fn job(name: &str, source: &str, dest: &str, excludes: &[&str], mode: SyncMode, enabled: bool) -> SyncJob {
    SyncJob {
        name: name.to_string(),
        source: source.to_string(),
        destination: dest.to_string(),
        excludes: excludes.iter().map(|s| s.to_string()).collect(),
        mode,
        enabled,
    }
}

#[test]
fn format_duration_seconds_minutes_hours() {
    assert_eq!(format_duration(0), "0s");
    assert_eq!(format_duration(42), "42s");
    assert_eq!(format_duration(59), "59s");
    assert_eq!(format_duration(60), "1m 0s");
    assert_eq!(format_duration(187), "3m 7s");
    assert_eq!(format_duration(3599), "59m 59s");
    assert_eq!(format_duration(3600), "1h 0m");
    assert_eq!(format_duration(7500), "2h 5m");
}

#[test]
fn rsync_args_of_a_mirror_job() {
    let j = job("Docs", "/home/u/docs", "docs", &["*.tmp", "cache"], SyncMode::Backup, true);
    let args = rsync_args(&j, "/mnt/drive");
    assert_eq!(
        args,
        vec![
            "-av",
            "--info=progress2",
            "--no-inc-recursive",
            "--partial-dir=.rsync-partial",
            "--delete",
            "--exclude=*.tmp",
            "--exclude=cache",
            "/home/u/docs/",
            "/mnt/drive/docs/",
        ]
    );
}

#[test]
fn rsync_args_of_an_archive_job_keep_deleted_files() {
    let j = job("Media", "/srv/media", "/abs/media", &[], SyncMode::Media, true);
    let args = rsync_args(&j, "/mnt/drive/");
    assert_eq!(
        args,
        vec![
            "-av",
            "--info=progress2",
            "--no-inc-recursive",
            "--partial-dir=.rsync-partial",
            "/srv/media/",
            "/abs/media/",
        ]
    );
}

#[test]
fn shell_quote_leaves_plain_words_alone() {
    assert_eq!(shell_quote("plain-word_1/x.txt"), "plain-word_1/x.txt");
    assert_eq!(shell_quote(""), "");
}

#[test]
fn shell_quote_quotes_special_characters() {
    assert_eq!(shell_quote("has space"), "'has space'");
    assert_eq!(shell_quote("*.tmp"), "'*.tmp'");
    assert_eq!(shell_quote("it's"), "'it'\\''s'");
}

#[test]
fn command_line_quotes_each_argument() {
    let args = vec!["-av".to_string(), "--exclude=my file".to_string(), "/src/".to_string()];
    assert_eq!(command_line_of(&args), "rsync -av '--exclude=my file' /src/");
}

#[test]
fn rsync_command_string_of_a_job() {
    let j = job("Pics", "/home/u/My Pictures", "pics", &[], SyncMode::Media, true);
    assert_eq!(
        rsync_command_string(&j, "/mnt/d"),
        "rsync -av --info=progress2 --no-inc-recursive --partial-dir=.rsync-partial '/home/u/My Pictures/' /mnt/d/pics/"
    );
}

#[test]
fn progress_line_gives_bytes_percent_and_counts() {
    let u = parse_rsync_line("  1,234,567  45%   10.00MB/s    0:00:12 (xfr#3, to-chk=17/42)  ");
    let t = u.transfer.expect("transfer point");
    assert_eq!(t.bytes, 1234567);
    assert_eq!(t.percent, "45");
    assert_eq!(u.files, Some((42, 25)));
    assert!(u.current_file.is_none());
}

#[test]
fn progress_line_without_counter() {
    let u = parse_rsync_line("  2,048 100%  1.00kB/s  0:00:00 (xfr#1, ir-chk=1000/1001)");
    let t = u.transfer.expect("transfer point");
    assert_eq!(t.bytes, 2048);
    assert_eq!(t.percent, "100");
    assert_eq!(u.files, None);
}

#[test]
fn counter_with_unparsable_numbers_counts_zero() {
    let u = parse_rsync_line("x to-chk=abc/7)");
    assert_eq!(u.files, Some((7, 7)));
}

#[test]
fn scan_line_says_nothing() {
    let u = parse_rsync_line("  ir-chk=100/200");
    assert!(u.transfer.is_none());
    assert!(u.files.is_none());
    assert!(u.current_file.is_none());
}

#[test]
fn other_lines_name_the_current_file() {
    assert_eq!(parse_rsync_line("  docs/report.pdf ").current_file.as_deref(), Some("docs/report.pdf"));
    assert!(parse_rsync_line("sending incremental file list").current_file.is_none());
    assert!(parse_rsync_line("sent 1,234 bytes  received 56 bytes").current_file.is_none());
    assert!(parse_rsync_line("total size is 99  speedup is 1.00").current_file.is_none());
    assert!(parse_rsync_line("   ").current_file.is_none());
}

#[test]
fn carriage_returns_split_segments() {
    let segs = segments_of("  a \r\r b\r  ");
    assert_eq!(segs, vec!["a", "b"]);
}

#[test]
fn log_keeps_the_newest_lines() {
    let mut log: Vec<String> = (0..501).map(|i| i.to_string()).collect();
    push_log_line(&mut log, "new".to_string());
    assert_eq!(log.len(), 501);
    assert_eq!(log[0], "1");
    assert_eq!(log[500], "new");
    let mut short = vec!["a".to_string()];
    push_log_line(&mut short, "b".to_string());
    assert_eq!(short, vec!["a", "b"]);
}

fn two_job_config() -> Config {
    Config {
        jobs: vec![
            job("Docs", "/home/u/docs", "docs", &[], SyncMode::Backup, true),
            job("Off", "/home/u/off", "off", &[], SyncMode::Backup, false),
            job("Pics", "/home/u/pics", "pics", &[], SyncMode::Media, true),
        ],
        last_backup: None,
    }
}

#[test]
fn backup_runs_enabled_jobs_in_order_then_snapshots() {
    let cfg = two_job_config();
    let mut run = BackupRun::new(&cfg, "/mnt/d", "-av", false);
    assert_eq!(run.total_jobs(), 2);
    let mut started = Vec::new();
    loop {
        match run.next_step(false) {
            BackupAction::StartJob { index, name, dest } => {
                started.push((index, name, dest));
                match run.folder_ready() {
                    BackupAction::RunRsync { args } => assert_eq!(args.last().map(|s| s.as_str()), Some(format!("{}/", started.last().unwrap().2).as_str())),
                    _ => panic!("expected rsync"),
                }
                assert!(run.job_ended(RsyncEnd::Exited { success: true, code: Some(0) }, false).is_none());
            }
            BackupAction::Snapshot => break,
            _ => panic!("unexpected action"),
        }
    }
    assert_eq!(
        started,
        vec![
            (0, "Docs".to_string(), "/mnt/d/docs".to_string()),
            (1, "Pics".to_string(), "/mnt/d/pics".to_string()),
        ]
    );
    assert!(run.over);
}

#[test]
fn vanished_files_exit_code_is_not_a_failure() {
    let cfg = two_job_config();
    let mut run = BackupRun::new(&cfg, "/mnt/d", "-av", false);
    let _ = run.next_step(false);
    assert!(run.job_ended(RsyncEnd::Exited { success: false, code: Some(24) }, false).is_none());
    assert_eq!(run.current, 1);
}

#[test]
fn failing_rsync_stops_the_backup() {
    let cfg = two_job_config();
    let mut run = BackupRun::new(&cfg, "/mnt/d", "-av", false);
    let _ = run.next_step(false);
    match run.job_ended(RsyncEnd::Exited { success: false, code: Some(23) }, false) {
        Some(BackupAction::Fail(m)) => assert_eq!(m, "rsync exited with code 23 for job \"Docs\""),
        _ => panic!("expected failure"),
    }
    assert!(run.over);
}

#[test]
fn killed_rsync_reports_code_minus_one() {
    let cfg = two_job_config();
    let mut run = BackupRun::new(&cfg, "/mnt/d", "-av", false);
    let _ = run.next_step(false);
    match run.job_ended(RsyncEnd::Exited { success: false, code: None }, false) {
        Some(BackupAction::Fail(m)) => assert_eq!(m, "rsync exited with code -1 for job \"Docs\""),
        _ => panic!("expected failure"),
    }
}

#[test]
fn wait_and_spawn_and_folder_failures() {
    let cfg = two_job_config();
    let mut run = BackupRun::new(&cfg, "/mnt/d", "-av", false);
    let _ = run.next_step(false);
    match run.job_ended(RsyncEnd::WaitFailed("boom".to_string()), false) {
        Some(BackupAction::Fail(m)) => assert_eq!(m, "rsync wait error: boom"),
        _ => panic!("expected failure"),
    }
    let mut run = BackupRun::new(&cfg, "/mnt/d", "-av", false);
    match run.spawn_failed("No such file or directory") {
        BackupAction::Fail(m) => assert_eq!(m, "failed to spawn rsync: No such file or directory"),
        _ => panic!("expected failure"),
    }
    let mut run = BackupRun::new(&cfg, "/mnt/d", "-av", false);
    match run.folder_failed("/mnt/d/docs", "Permission denied") {
        BackupAction::Fail(m) => assert_eq!(m, "mkdir /mnt/d/docs: Permission denied"),
        _ => panic!("expected failure"),
    }
}

#[test]
fn cancellation_stops_or_snapshots() {
    let cfg = two_job_config();
    let mut run = BackupRun::new(&cfg, "/mnt/d", "-av", false);
    assert!(matches!(run.next_step(true), BackupAction::Stop));
    let mut run = BackupRun::new(&cfg, "/mnt/d", "-avz", true);
    let _ = run.next_step(false);
    assert!(matches!(
        run.job_ended(RsyncEnd::Exited { success: true, code: Some(0) }, true),
        Some(BackupAction::Snapshot)
    ));
}

#[test]
fn snapshot_reports() {
    assert_eq!(snapshot_report("2024-05-01", &SnapshotOutcome::Succeeded), vec!["Snapshot created: 2024-05-01"]);
    assert_eq!(
        snapshot_report("x", &SnapshotOutcome::SpawnFailed("not found".to_string())),
        vec!["Warning: btrfs snapshot failed: not found"]
    );
    let r = snapshot_report(
        "x",
        &SnapshotOutcome::Failed {
            code: Some(1),
            stderr: b"  \n".to_vec(),
            mount_info: Some(b"TARGET OPTIONS\n/mnt/d ro\n".to_vec()),
            subvolume_info: Some(b"1\n2\n3\n4\n5\n6\n7\n".to_vec()),
        },
    );
    assert_eq!(
        r,
        vec![
            "Warning: btrfs snapshot exited 1",
            "  mount: TARGET OPTIONS\n/mnt/d ro",
            "  1",
            "  2",
            "  3",
            "  4",
            "  5",
            "  6",
        ]
    );
    let r = snapshot_report(
        "x",
        &SnapshotOutcome::Failed { code: Some(1), stderr: b"ERROR: not a subvolume\n".to_vec(), mount_info: None, subvolume_info: None },
    );
    assert_eq!(r, vec!["Warning: btrfs snapshot failed: ERROR: not a subvolume"]);
}

#[test]
fn command_line_keeps_each_argument_in_one_word() {
    let j = job("Q", "/home/u/it's here", "dest dir", &["a;b", "$HOME"], SyncMode::Backup, true);
    assert_eq!(
        rsync_command_string(&j, "/mnt/d"),
        "rsync -av --info=progress2 --no-inc-recursive --partial-dir=.rsync-partial --delete '--exclude=a;b' '--exclude=$HOME' '/home/u/it'\\''s here/' '/mnt/d/dest dir/'"
    );
}

#[test]
fn logged_segments_are_clean() {
    for seg in segments_of("\r  12%  \r\r\tfile one\r \r") {
        assert!(!seg.is_empty());
        assert_eq!(seg.trim(), seg);
        assert!(!seg.contains('\r'));
    }
    assert_eq!(segments_of("\r  12%  \r\r\tfile one\r \r"), vec!["12%", "file one"]);
}

#[test]
fn dated_snapshot_command_of_a_drive() {
    let c = backer_upper::backup::dated_snapshot_command("/mnt/d", "2024-05-01".to_string());
    assert_eq!(c.name, "2024-05-01");
    assert_eq!(c.dir, "/mnt/d/snapshots");
    assert_eq!(c.argv, vec!["doas", "btrfs", "subvolume", "snapshot", "-r", ".", "/mnt/d/snapshots/2024-05-01"]);
    assert_eq!(c.cwd.as_deref(), Some("/mnt/d"));
}
