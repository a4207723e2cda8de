use backer_upper::format::{probe_after_mount, probe_first_step, ProbeStep};
use backer_upper::drives::JsonScalar;
use backer_upper::format::{
    advance, append_output, command_failure_message, command_finished, command_log,
    device_is_mounted, find_mounted_device, finish_failure, finish_success, first_mountpoint_of,
    format_command_preview, format_step_count, log, mount_preview_failure_message, mount_sources,
    nonblank, preflight, probe_note_for, spawn_failure_message, start_progress, summary_text,
    unmount_failure_message, CommandOutput, FormatProgress, FormatRequest, FormatRun, LaunchFailure,
    LsblkAnswer, PreflightFacts,
};

fn strings(v: &[&str]) -> Vec<String> {
    v.iter().map(|s| s.to_string()).collect()
}

#[test]
fn preview_of_an_encrypted_disk_format() {
    let lines = format_command_preview("/dev/sdb", true, "BACKUP", "btrfs", true);
    assert_eq!(
        lines,
        vec![
            "doas dd if=/dev/zero of=/dev/sdb bs=4M",
            "doas parted -s /dev/sdb mklabel gpt mkpart primary 0% 100%",
            "doas cryptsetup luksFormat --type luks2 --batch-mode --key-file - /dev/sdb1",
            "doas cryptsetup luksOpen --key-file - /dev/sdb1 backer-upper-format",
            "doas mkfs.btrfs -L BACKUP /dev/mapper/backer-upper-format",
            "doas cryptsetup luksClose backer-upper-format",
        ]
    );
}

#[test]
fn preview_of_a_plain_partition_format() {
    let lines = format_command_preview("/dev/nvme1n1p1", false, "Media", "ext4", false);
    assert_eq!(
        lines,
        vec!["doas dd if=/dev/zero of=/dev/nvme1n1p1 bs=4M", "doas mkfs.ext4 -L Media /dev/nvme1n1p1"]
    );
}

#[test]
fn stage_counts() {
    assert_eq!(format_step_count("/dev/sdb", true, "L", "btrfs", true), 4);
    assert_eq!(format_step_count("/dev/sdb", true, "L", "btrfs", false), 3);
    assert_eq!(format_step_count("/dev/sdb1", false, "L", "btrfs", true), 3);
    assert_eq!(format_step_count("/dev/sdb1", false, "L", "btrfs", false), 2);
}

#[test]
fn run_of_a_plain_partition_succeeds() {
    let mut run = FormatRun::new("/dev/sdb1", false, "L", "ext4", false);
    let mut seen = Vec::new();
    while let Some(req) = run.next_request() {
        match req {
            FormatRequest::Advance(n) => seen.push(format!("stage {n}")),
            FormatRequest::Run { args, with_passphrase } => {
                assert!(!with_passphrase);
                seen.push(args.join(" "));
                run.command_done(Ok(()));
            }
            _ => panic!("no waiting in a plain partition format"),
        }
    }
    assert_eq!(
        seen,
        vec!["stage Zeroing partition", "dd if=/dev/zero of=/dev/sdb1 bs=4M", "stage Formatting filesystem (ext4)", "mkfs.ext4 -L L /dev/sdb1"]
    );
    assert_eq!(run.outcome(), Ok(()));
}

#[test]
fn failed_step_skips_the_rest_but_still_closes_the_volume() {
    let mut run = FormatRun::new("/dev/sdb", true, "L", "btrfs", true);
    let mut ran = Vec::new();
    let mut waits = 0;
    while let Some(req) = run.next_request() {
        match req {
            FormatRequest::Advance(_) => {}
            FormatRequest::Run { args, with_passphrase } => {
                ran.push((args[0].clone(), with_passphrase));
                let r = if args[0] == "cryptsetup" && args[1] == "luksOpen" { Err("open failed".to_string()) } else { Ok(()) };
                run.command_done(r);
            }
            FormatRequest::WaitFor { path, announce } => {
                waits += 1;
                assert_eq!(path, "/dev/sdb1");
                assert_eq!(announce, "Waiting for /dev/sdb1 to appear\u{2026}");
                assert_eq!(run.device_seen(true), Some("\u{2713} /dev/sdb1 is ready".to_string()));
            }
            FormatRequest::Check { .. } => panic!("the check comes after the failed step"),
        }
    }
    assert_eq!(waits, 1);
    assert_eq!(
        ran,
        vec![
            ("dd".to_string(), false),
            ("parted".to_string(), false),
            ("cryptsetup".to_string(), true),
            ("cryptsetup".to_string(), true),
            ("cryptsetup".to_string(), false),
        ]
    );
    assert_eq!(run.outcome(), Err("open failed".to_string()));
}

#[test]
fn missing_partition_and_mapper_fail_the_run() {
    let mut run = FormatRun::new("/dev/sdb", true, "L", "btrfs", false);
    loop {
        match run.next_request() {
            Some(FormatRequest::WaitFor { .. }) => {
                assert_eq!(run.device_seen(false), None);
            }
            Some(FormatRequest::Run { .. }) => run.command_done(Ok(())),
            Some(_) => {}
            None => break,
        }
    }
    assert_eq!(
        run.outcome(),
        Err("Partition device /dev/sdb1 did not appear after partitioning. Try replugging the drive and running again.".to_string())
    );
    let mut run = FormatRun::new("/dev/sdc1", false, "L", "btrfs", true);
    loop {
        match run.next_request() {
            Some(FormatRequest::Check { path }) => {
                assert_eq!(path, "/dev/mapper/backer-upper-format");
                assert_eq!(run.device_seen(false), None);
            }
            Some(FormatRequest::Run { .. }) => run.command_done(Ok(())),
            Some(_) => {}
            None => break,
        }
    }
    assert_eq!(
        run.outcome(),
        Err("Mapper device /dev/mapper/backer-upper-format did not appear after luksOpen. Cannot continue.".to_string())
    );
}

#[test]
fn command_messages() {
    let args = strings(&["wipefs", "-a", "/dev/sdb"]);
    assert_eq!(command_log(&args), "$ doas wipefs -a /dev/sdb");
    assert_eq!(
        command_failure_message(&args, Some(1), b"  wipefs: error: /dev/sdb: probing failed\n"),
        "doas wipefs -a /dev/sdb failed (exit 1): wipefs: error: /dev/sdb: probing failed"
    );
    assert_eq!(command_failure_message(&args, None, b""), "doas wipefs -a /dev/sdb failed (exit -1): ");
    assert_eq!(spawn_failure_message(&args), "failed to spawn: doas wipefs -a /dev/sdb");
    assert_eq!(unmount_failure_message("/dev/sdb1"), "Failed to unmount /dev/sdb1 before formatting");
    assert_eq!(mount_preview_failure_message("busy"), "Could not mount for preview: busy");
}

#[test]
fn command_finished_logs_output_and_reports() {
    let args = strings(&["parted", "-s", "/dev/sdb"]);
    let mut p = start_progress(3);
    let ok = Ok(CommandOutput { success: true, code: Some(0), stdout: b"one\n\n  two  \n".to_vec(), stderr: b"warn\n".to_vec() });
    assert_eq!(command_finished(&mut p, &args, &ok), Ok(()));
    assert_eq!(p.log, vec!["one", "two", "warn"]);
    let bad = Ok(CommandOutput { success: false, code: Some(2), stdout: Vec::new(), stderr: b"bad disk\n".to_vec() });
    assert_eq!(command_finished(&mut p, &args, &bad), Err("doas parted -s /dev/sdb failed (exit 2): bad disk".to_string()));
    assert_eq!(p.log, vec!["one", "two", "warn", "bad disk"]);
    assert_eq!(
        command_finished(&mut p, &args, &Err(LaunchFailure::NotStarted)),
        Err("failed to spawn: doas parted -s /dev/sdb".to_string())
    );
    assert_eq!(command_finished(&mut p, &args, &Err(LaunchFailure::WaitFailed)), Err("wait_with_output".to_string()));
    assert_eq!(p.log.len(), 4);
}

#[test]
fn progress_log_and_stages() {
    let mut p = start_progress(2);
    assert_eq!(p.total_steps, 2);
    assert_eq!(p.step, 0);
    advance(&mut p, "Zeroing drive");
    assert_eq!(p.step, 1);
    assert_eq!(p.step_name, "Zeroing drive");
    log(&mut p, "$ doas dd");
    append_output(&mut p, b"", b"  \n");
    assert_eq!(p.log, vec![">>> Zeroing drive", "$ doas dd"]);
    finish_success(&mut p, "BACKUP");
    assert!(p.finished);
    assert_eq!(p.step, 2);
    assert_eq!(p.step_name, "Done");
    assert_eq!(
        p.log[2..].to_vec(),
        vec!["".to_string(), "\u{2713} Drive 'BACKUP' is ready. Unplug and replug it, then select it to start backing up.".to_string()]
    );
    let mut q = FormatProgress::default();
    finish_failure(&mut q, "boom".to_string());
    assert!(q.finished);
    assert_eq!(q.error.as_deref(), Some("boom"));
    assert_eq!(q.log, vec!["", "\u{2717} Format failed: boom"]);
}

fn facts() -> PreflightFacts {
    PreflightFacts {
        block_device: Some(true),
        lsblk: LsblkAnswer::Flags { hotplug: JsonScalar::Bool(true), rm: JsonScalar::Other },
        device_mounted: false,
        partition_mounted: false,
        mapper_exists: false,
    }
}

#[test]
fn preflight_passes_on_a_free_removable_drive() {
    let r = preflight("/dev/sdb", true, &facts());
    assert_eq!(r.error, None);
    assert_eq!(
        r.log,
        vec![
            "--- Pre-flight checks ---",
            "\u{2713} /dev/sdb exists and is a block device",
            "\u{2713} /dev/sdb is hotplug/removable",
            "\u{2713} /dev/sdb is not mounted",
            "\u{2713} Mapper slot is free",
            "--- All checks passed, starting format ---",
        ]
    );
}

#[test]
fn preflight_refusals() {
    let mut f = facts();
    f.block_device = None;
    assert_eq!(preflight("/dev/x", false, &f).error.as_deref(), Some("Cannot access /dev/x: file not found or permission denied"));
    f.block_device = Some(false);
    let r = preflight("/dev/x", false, &f);
    assert_eq!(r.error.as_deref(), Some("/dev/x is not a block device"));
    assert_eq!(r.log, vec!["--- Pre-flight checks ---"]);
    let mut f = facts();
    f.lsblk = LsblkAnswer::Failed;
    assert_eq!(preflight("/dev/x", false, &f).error.as_deref(), Some("lsblk re-check failed"));
    f.lsblk = LsblkAnswer::Unparsable;
    assert_eq!(preflight("/dev/x", false, &f).error.as_deref(), Some("lsblk output could not be parsed"));
    f.lsblk = LsblkAnswer::Flags { hotplug: JsonScalar::Str("0".to_string()), rm: JsonScalar::Bool(false) };
    assert_eq!(
        preflight("/dev/sda", true, &f).error.as_deref(),
        Some("SAFETY ABORT: /dev/sda is not a hotplug/removable device. Refusing to format a drive that may be an internal system disk.")
    );
    f.lsblk = LsblkAnswer::Flags { hotplug: JsonScalar::Other, rm: JsonScalar::Str("1".to_string()) };
    assert_eq!(preflight("/dev/sda", true, &f).error, None);
    let mut f = facts();
    f.device_mounted = true;
    assert_eq!(
        preflight("/dev/sdb", true, &f).error.as_deref(),
        Some("SAFETY ABORT: /dev/sdb is currently mounted. Unmount or eject it before formatting.")
    );
    let mut f = facts();
    f.partition_mounted = true;
    assert_eq!(
        preflight("/dev/sdb", true, &f).error.as_deref(),
        Some("SAFETY ABORT: partition /dev/sdb1 is currently mounted. Unmount or eject it before formatting.")
    );
    assert_eq!(preflight("/dev/sdb1", false, &f).error, None);
    let mut f = facts();
    f.mapper_exists = true;
    let r = preflight("/dev/sdb", true, &f);
    assert_eq!(
        r.error.as_deref(),
        Some("SAFETY ABORT: /dev/mapper/backer-upper-format already exists, likely left open by a previous failed format attempt. Close it first:\n  doas cryptsetup luksClose backer-upper-format")
    );
    assert_eq!(r.log.len(), 4);
}

#[test]
fn mount_table_lookups() {
    let table = "/dev/sda2 / ext4 rw 0 0\n/dev/sdb1 /media/b vfat rw 0 0\n\nproc /proc proc rw 0 0\n";
    let sources = mount_sources(table);
    assert_eq!(sources, vec!["/dev/sda2", "/dev/sdb1", "", "proc"]);
    let none: Vec<Option<String>> = vec![None; sources.len()];
    assert!(device_is_mounted("/dev/sdb1", &None, &sources, &none));
    assert!(!device_is_mounted("/dev/sdc1", &None, &sources, &none));
    let mut canon = none.clone();
    canon[1] = Some("/dev/sdc1".to_string());
    assert!(device_is_mounted("/dev/disk/by-label/B", &Some("/dev/sdc1".to_string()), &sources, &canon));
    assert_eq!(find_mounted_device("/dev/sdb", true, true, true).as_deref(), Some("/dev/sdb"));
    assert_eq!(find_mounted_device("/dev/sdb", true, false, true).as_deref(), Some("/dev/sdb1"));
    assert_eq!(find_mounted_device("/dev/sdb", false, false, true), None);
    assert_eq!(find_mounted_device("/dev/sdb", true, false, false), None);
}

#[test]
fn probe_notes_and_texts() {
    assert_eq!(
        probe_note_for(&Some("crypto_LUKS".to_string())).as_deref(),
        Some("Encrypted (LUKS) \u{2014} contents cannot be read without the passphrase.")
    );
    assert_eq!(probe_note_for(&None).as_deref(), Some("No filesystem detected on this device."));
    assert_eq!(probe_note_for(&Some(String::new())).as_deref(), Some("No filesystem detected on this device."));
    assert_eq!(probe_note_for(&Some("ext4".to_string())), None);
    assert_eq!(nonblank(" \n ".to_string()), None);
    assert_eq!(nonblank("Filesystem Size\n".to_string()).as_deref(), Some("Filesystem Size\n"));
    assert_eq!(summary_text("\nNAME SIZE\nsdb 8G\n\n"), "NAME SIZE\nsdb 8G");
    assert_eq!(first_mountpoint_of("\n  \n /run/media/u/B \n/other\n").as_deref(), Some("/run/media/u/B"));
    assert_eq!(first_mountpoint_of(" \n"), None);
}

#[test]
fn unmounting_first_adds_a_stage() {
    let mut p = start_progress(4);
    backer_upper::format::start_unmount_stage(&mut p);
    assert_eq!(p.total_steps, 5);
    assert_eq!(p.step, 1);
    assert_eq!(p.step_name, "Unmounting drive");
    assert_eq!(p.log, vec![">>> Unmounting drive"]);
}

#[test]
fn no_run_without_passing_checks() {
    let mut f = facts();
    f.device_mounted = true;
    let (checks, run) = backer_upper::format::checked_format_run("/dev/sdb", true, "L", "btrfs", true, &f);
    assert!(run.is_none());
    assert_eq!(checks.error.as_deref(), Some("SAFETY ABORT: /dev/sdb is currently mounted. Unmount or eject it before formatting."));
    let (checks, run) = backer_upper::format::checked_format_run("/dev/sdb", true, "L", "btrfs", true, &facts());
    assert_eq!(checks.error, None);
    let run = run.expect("checks passed");
    assert_eq!(run.next, 0);
    assert_eq!(run.steps.len(), 12);
    let (checks, run) = backer_upper::desktop::format::checked_desktop_run("/dev/sdb1", false, "L", &f);
    assert!(run.is_none());
    assert!(checks.error.is_some());
    let (_, run) = backer_upper::desktop::format::checked_desktop_run("/dev/sdb1", false, "L", &facts());
    assert_eq!(run.expect("checks passed").steps.len(), 7);
}

#[test]
fn run_without_failure_logs_the_previewed_commands() {
    let preview = format_command_preview("/dev/sdb", true, "B", "btrfs", true);
    let mut run = FormatRun::new("/dev/sdb", true, "B", "btrfs", true);
    let mut logged = Vec::new();
    while let Some(req) = run.next_request() {
        match req {
            FormatRequest::Run { args, .. } => {
                logged.push(command_log(&args));
                run.command_done(Ok(()));
            }
            FormatRequest::WaitFor { .. } | FormatRequest::Check { .. } => {
                run.device_seen(true);
            }
            FormatRequest::Advance(_) => {}
        }
    }
    let expected: Vec<String> = preview.iter().map(|p| format!("$ {p}")).collect();
    assert_eq!(logged, expected);
}

#[test]
fn probe_steps() {
    match probe_first_step(&Some("crypto_LUKS".to_string()), &None) {
        ProbeStep::Finish(Some(n)) => assert!(n.starts_with("Encrypted (LUKS)")),
        _ => panic!("expected a note"),
    }
    match probe_first_step(&Some("ext4".to_string()), &Some("/media/x".to_string())) {
        ProbeStep::Look { mount_point, unmount_after } => {
            assert_eq!(mount_point, "/media/x");
            assert!(!unmount_after);
        }
        _ => panic!("expected a look"),
    }
    assert!(matches!(probe_first_step(&Some("ext4".to_string()), &None), ProbeStep::Mount));
    match probe_after_mount(Ok("/run/media/u/X".to_string())) {
        ProbeStep::Look { mount_point, unmount_after } => {
            assert_eq!(mount_point, "/run/media/u/X");
            assert!(unmount_after);
        }
        _ => panic!("expected a look"),
    }
    match probe_after_mount(Err("busy".to_string())) {
        ProbeStep::Finish(Some(n)) => assert_eq!(n, "Could not mount for preview: busy"),
        _ => panic!("expected a note"),
    }
}

#[test]
fn passphrase_goes_only_to_the_input() {
    let args = strings(&["cryptsetup", "luksOpen", "--key-file", "-", "/dev/sdb1", "backer-upper-format"]);
    let out = Ok(CommandOutput { success: false, code: Some(2), stdout: Vec::new(), stderr: b"No key available\n".to_vec() });
    let mut p1 = start_progress(1);
    let mut p2 = start_progress(1);
    let i1 = backer_upper::format::command_started(&mut p1, &args, true, "s3cret");
    let i2 = backer_upper::format::command_started(&mut p2, &args, true, "other pw");
    assert_eq!(i1.as_deref(), Some("s3cret"));
    assert_eq!(i2.as_deref(), Some("other pw"));
    let r1 = command_finished(&mut p1, &args, &out);
    let r2 = command_finished(&mut p2, &args, &out);
    assert_eq!(r1, r2);
    assert_eq!(p1.log, p2.log);
    assert_eq!(p1.log[0], "$ doas cryptsetup luksOpen --key-file - /dev/sdb1 backer-upper-format");
    assert!(p1.log.iter().all(|l| !l.contains("s3cret")));
    let mut p3 = start_progress(1);
    assert_eq!(backer_upper::format::command_started(&mut p3, &args, false, "s3cret"), None);
}
