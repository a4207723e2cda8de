use backer_upper::backup::SnapshotOutcome;
use backer_upper::config::{Config, SyncJob, SyncMode};
use backer_upper::desktop::backup::{parse_rsync_line, rsync_args, rsync_command_string, snapshot_report, stamped_snapshot_command};
use backer_upper::desktop::drives::{
    drives_from_lsblk, lock_luks, mount_device, udisks2_obj_path, unmount_and_close, unmount_device,
    unmount_filesystem, Drive, UdisksInterface, UdisksMethod,
};
use backer_upper::desktop::format::{desktop_format_steps, desktop_stage_total, DesktopFormatRun, DesktopRequest};
use backer_upper::desktop::ui::{drive_label, job_form, job_from_form, mapper_name, MountPlan, Screen, ScreenState};
use backer_upper::drives::{BlockDevice, JsonScalar};
use backer_upper::format::{CommandOutput, FormatProgress, FormatRequest, LaunchFailure};

fn drive(device: &str) -> Drive {
    Drive {
        device: device.to_string(),
        label: None,
        uuid: None,
        fstype: None,
        size: None,
        mountpoint: None,
        is_encrypted: false,
        model: None,
        vendor: None,
        tran: None,
    }
}

#[test]
fn desktop_rsync_compresses() {
    let j = SyncJob::new("Home".to_string(), "/home/u".to_string());
    assert_eq!(
        rsync_args(&j, "/mnt/d"),
        vec!["-avz", "--info=progress2", "--no-inc-recursive", "--partial-dir=.rsync-partial", "--delete", "/home/u/", "/mnt/d/u/"]
    );
    assert_eq!(
        rsync_command_string(&j, "/mnt/d"),
        "rsync -avz --info=progress2 --no-inc-recursive --partial-dir=.rsync-partial --delete /home/u/ /mnt/d/u/"
    );
}

#[test]
fn desktop_progress_reading() {
    let u = parse_rsync_line("  1,234  12.5%  1.00MB/s  0:00:01 (xfr#1, to-chk=9/10)");
    assert_eq!(u.percent.as_deref(), Some("12.5"));
    assert_eq!(u.files, Some((10, 1)));
    assert!(u.transfer.is_none());
    let u = parse_rsync_line("  1,048,576 ir-chk=10/20");
    assert_eq!(u.bytes_total, Some(1048576));
    let u = parse_rsync_line("Total bytes sent: 5");
    assert_eq!(u.bytes_total, None);
    let u = parse_rsync_line(" photos/a.jpg ");
    assert_eq!(u.current_file.as_deref(), Some("photos/a.jpg"));
}

#[test]
fn desktop_snapshot_command_and_report() {
    let c = stamped_snapshot_command("/mnt/d", "20240501-120000");
    assert_eq!(c.name, "snapshot-20240501-120000");
    assert_eq!(c.dir, "/mnt/d/.snapshots");
    assert_eq!(c.argv, vec!["btrfs", "subvolume", "snapshot", "-r", "/mnt/d", "/mnt/d/.snapshots/snapshot-20240501-120000"]);
    assert!(c.cwd.is_none());
    assert_eq!(snapshot_report("s", &SnapshotOutcome::Succeeded), "Snapshot created: s");
    assert_eq!(
        snapshot_report("s", &SnapshotOutcome::Failed { code: None, stderr: Vec::new(), mount_info: None, subvolume_info: None }),
        "Warning: btrfs snapshot exited -1"
    );
}

#[test]
fn desktop_drive_list_drops_luks_details() {
    let mapping = BlockDevice {
        path: JsonScalar::Str("/dev/mapper/x".to_string()),
        label: JsonScalar::Other,
        uuid: JsonScalar::Other,
        fstype: JsonScalar::Str("btrfs".to_string()),
        size: JsonScalar::Other,
        mountpoint: JsonScalar::Other,
        hotplug: JsonScalar::Bool(true),
        dev_type: JsonScalar::Str("crypt".to_string()),
        vendor: JsonScalar::Other,
        model: JsonScalar::Other,
        tran: JsonScalar::Other,
        children: None,
    };
    let part = BlockDevice {
        path: JsonScalar::Str("/dev/sdb1".to_string()),
        label: JsonScalar::Other,
        uuid: JsonScalar::Other,
        fstype: JsonScalar::Str("crypto_LUKS".to_string()),
        size: JsonScalar::Str("8G".to_string()),
        mountpoint: JsonScalar::Other,
        hotplug: JsonScalar::Bool(true),
        dev_type: JsonScalar::Str("part".to_string()),
        vendor: JsonScalar::Other,
        model: JsonScalar::Other,
        tran: JsonScalar::Other,
        children: Some(vec![mapping]),
    };
    let drives = drives_from_lsblk(&vec![part]);
    assert_eq!(drives.len(), 1);
    assert_eq!(drives[0].device, "/dev/mapper/x");
    assert!(drives[0].is_encrypted);
}

#[test]
fn desktop_udisks_calls() {
    assert_eq!(udisks2_obj_path("/dev/sdb1"), "/org/freedesktop/UDisks2/block_devices/sdb1");
    let c = mount_device("/dev/sdb1");
    assert_eq!(c.object, "/org/freedesktop/UDisks2/block_devices/sdb1");
    assert_eq!(c.interface, UdisksInterface::Filesystem);
    assert_eq!(c.method, UdisksMethod::Mount);
    let c = unmount_device("/dev/sdb1");
    assert_eq!(c.object, "/org/freedesktop/UDisks2/block_devices/sdb1");
    assert_eq!(c.method, UdisksMethod::Unmount);
    let c = unmount_filesystem("/org/freedesktop/UDisks2/block_devices/dm_2d0");
    assert_eq!(c.object, "/org/freedesktop/UDisks2/block_devices/dm_2d0");
    let c = lock_luks("/dev/sdc2");
    assert_eq!(c.object, "/org/freedesktop/UDisks2/block_devices/sdc2");
    assert_eq!(c.interface, UdisksInterface::Encrypted);
    assert_eq!(c.method, UdisksMethod::Lock);
    let calls = unmount_and_close("/dev/dm-1", "/org/freedesktop/UDisks2/block_devices/dm_2d1", "/dev/sdb1");
    assert_eq!(calls.len(), 2);
    assert_eq!(calls[0].object, "/org/freedesktop/UDisks2/block_devices/dm_2d1");
    assert_eq!(calls[0].method, UdisksMethod::Unmount);
    assert_eq!(calls[1].object, "/org/freedesktop/UDisks2/block_devices/sdb1");
    assert_eq!(calls[1].method, UdisksMethod::Lock);
    let calls = unmount_and_close("/dev/sdc1", "", "");
    assert_eq!(calls.len(), 1);
    assert_eq!(calls[0].object, "/org/freedesktop/UDisks2/block_devices/sdc1");
    assert_eq!(calls[0].interface, UdisksInterface::Filesystem);
    assert_eq!(calls[0].method, UdisksMethod::Unmount);
}

#[test]
fn desktop_format_steps_and_totals() {
    let steps = desktop_format_steps("/dev/sdb", true);
    let previews: Vec<String> = steps.iter().filter_map(|s| s.preview.clone()).collect();
    assert_eq!(
        previews,
        vec![
            "doas wipefs -a /dev/sdb",
            "doas parted -s /dev/sdb mklabel gpt mkpart primary 0% 100%",
            "doas cryptsetup luksFormat --type luks2 --batch-mode --key-file - /dev/sdb1",
            "doas cryptsetup luksOpen --key-file - /dev/sdb1 backer-upper-format",
        ]
    );
    assert_eq!(desktop_stage_total(true), 4);
    assert_eq!(desktop_stage_total(false), 3);
}

fn ok_output(out: &[u8]) -> Result<CommandOutput, LaunchFailure> {
    Ok(CommandOutput { success: true, code: Some(0), stdout: out.to_vec(), stderr: Vec::new() })
}

#[test]
fn desktop_format_run_to_the_end() {
    let mut run = DesktopFormatRun::new("/dev/sdb1", false, "BACKUP");
    let mut progress = FormatProgress::default();
    let mut stages = Vec::new();
    let mut commands = Vec::new();
    loop {
        match run.next_request() {
            None => break,
            Some(DesktopRequest::Step(FormatRequest::Advance(n))) => stages.push(n),
            Some(DesktopRequest::Step(FormatRequest::Run { args, with_passphrase })) => {
                commands.push((args.join(" "), with_passphrase));
                run.command_done(Ok(()));
            }
            Some(DesktopRequest::Step(FormatRequest::Check { path })) => {
                assert_eq!(path, "/dev/mapper/backer-upper-format");
                assert_eq!(run.device_seen(true).as_deref(), Some("\u{2713} /dev/mapper/backer-upper-format is ready"));
            }
            Some(DesktopRequest::Step(FormatRequest::WaitFor { .. })) => panic!("a partition is not waited for"),
            Some(DesktopRequest::FormatAndClose { mkfs_args, close_args, close_log }) => {
                assert_eq!(mkfs_args, vec!["mkfs.btrfs", "-L", "BACKUP", "/dev/mapper/backer-upper-format"]);
                assert_eq!(close_args, vec!["cryptsetup", "luksClose", "backer-upper-format"]);
                assert_eq!(close_log, "$ doas cryptsetup luksClose backer-upper-format");
                run.formatted(&mut progress, &ok_output(b"btrfs-progs v6\n"), &ok_output(b"closed\n"));
            }
        }
    }
    assert_eq!(stages, vec!["Wiping partition", "Encrypting with LUKS", "Formatting filesystem (btrfs)"]);
    assert_eq!(
        commands,
        vec![
            ("wipefs -a /dev/sdb1".to_string(), false),
            ("cryptsetup luksFormat --type luks2 --batch-mode --key-file - /dev/sdb1".to_string(), true),
            ("cryptsetup luksOpen --key-file - /dev/sdb1 backer-upper-format".to_string(), true),
        ]
    );
    assert_eq!(progress.log, vec!["btrfs-progs v6", "closed"]);
    assert_eq!(run.outcome(), Ok(()));
}

#[test]
fn desktop_format_stops_at_the_first_failure() {
    let mut run = DesktopFormatRun::new("/dev/sdb", true, "B");
    let mut count = 0;
    while let Some(req) = run.next_request() {
        match req {
            DesktopRequest::Step(FormatRequest::Run { .. }) => {
                count += 1;
                run.command_done(Err("wipefs failed".to_string()));
            }
            DesktopRequest::Step(FormatRequest::Advance(_)) => {}
            _ => panic!("nothing runs after the failure"),
        }
    }
    assert_eq!(count, 1);
    assert_eq!(run.outcome(), Err("wipefs failed".to_string()));

    let mut run = DesktopFormatRun::new("/dev/sdb", true, "B");
    while let Some(req) = run.next_request() {
        match req {
            DesktopRequest::Step(FormatRequest::Run { .. }) => run.command_done(Ok(())),
            DesktopRequest::Step(FormatRequest::WaitFor { path, announce }) => {
                assert_eq!(path, "/dev/sdb1");
                assert_eq!(announce, "Waiting for /dev/sdb1 to appear\u{2026}");
                assert_eq!(run.device_seen(true).as_deref(), Some("\u{2713} /dev/sdb1 is ready"));
            }
            DesktopRequest::Step(FormatRequest::Check { .. }) => {
                assert_eq!(run.device_seen(false), None);
            }
            DesktopRequest::Step(FormatRequest::Advance(_)) => {}
            DesktopRequest::FormatAndClose { .. } => panic!("mkfs does not run without the mapper"),
        }
    }
    assert_eq!(
        run.outcome(),
        Err("Mapper device /dev/mapper/backer-upper-format did not appear after luksOpen. Cannot continue with mkfs.btrfs.".to_string())
    );
}

#[test]
fn desktop_mkfs_failures() {
    let mut run = DesktopFormatRun::new("/dev/sdb1", false, "B");
    let mut p = FormatProgress::default();
    run.formatted(
        &mut p,
        &Ok(CommandOutput { success: false, code: Some(1), stdout: b"out\n".to_vec(), stderr: b" ERROR: bad \n".to_vec() }),
        &ok_output(b"closed\n"),
    );
    assert_eq!(run.outcome(), Err("mkfs.btrfs failed (exit 1): ERROR: bad".to_string()));
    assert_eq!(p.log, vec!["out", "ERROR: bad"]);
    let mut run = DesktopFormatRun::new("/dev/sdb1", false, "B");
    let mut p = FormatProgress::default();
    run.formatted(&mut p, &Err(LaunchFailure::NotStarted), &ok_output(b"closed\n"));
    assert_eq!(run.outcome(), Err("failed to run mkfs.btrfs".to_string()));
    assert!(p.log.is_empty());
}

#[test]
fn drive_labels_and_mapper_names() {
    let mut d = drive("/dev/sdb1");
    d.size = Some("8G".to_string());
    d.fstype = Some("crypto_LUKS".to_string());
    d.is_encrypted = true;
    assert_eq!(drive_label(&d), "/dev/sdb1 8G crypto_LUKS [LUKS]");
    assert_eq!(drive_label(&drive("/dev/sdc")), "/dev/sdc  ");
    assert_eq!(mapper_name(&Some("1234-abcd-ef00".to_string())), "backer-1234abcd");
    assert_eq!(mapper_name(&Some("ab-c".to_string())), "backer-abc");
    assert_eq!(mapper_name(&None), "backer-backer");
}

#[test]
fn job_editor_round_trip() {
    let mut j = SyncJob::new("Docs".to_string(), "/home/u/docs".to_string());
    j.excludes = vec!["*.tmp".to_string(), "cache".to_string()];
    j.mode = SyncMode::Media;
    let mut f = job_form(&j);
    assert_eq!(f.excludes, "*.tmp\ncache");
    f.excludes = "  *.log \n\n  \nnode_modules".to_string();
    let back = job_from_form(&f);
    assert_eq!(back.excludes, vec!["*.log", "node_modules"]);
    assert_eq!(back.name, "Docs");
    assert_eq!(back.mode, SyncMode::Media);
}

#[test]
fn screens_from_drive_selection_to_backup() {
    let mut s = ScreenState::new();
    assert_eq!(s.screen, Screen::DriveSelect);
    assert!(matches!(s.mount_plan(), MountPlan::NoDrive));
    let mut enc = drive("/dev/sdb1");
    enc.is_encrypted = true;
    s.drives_refreshed(Ok(vec![drive("/dev/sdc1"), enc]));
    s.selected_drive_idx = Some(1);
    assert!(matches!(s.mount_plan(), MountPlan::AskPassword));
    assert_eq!(s.screen, Screen::PasswordPrompt);
    s.password = "secret".to_string();
    assert!(!s.unlocked(Err("bad".to_string())));
    assert_eq!(s.password_error.as_deref(), Some("Unlock failed: bad"));
    assert!(s.unlocked(Ok(())));
    assert!(s.password.is_empty());
    s.unlocked_and_opened("backer-1234".to_string(), "/mnt/b".to_string(), Config::new_for_home("/home/u".to_string()), None);
    assert_eq!(s.screen, Screen::ConfigEditor);
    assert_eq!(s.mapper_name.as_deref(), Some("backer-1234"));
    s.add_job("/home/u/music".to_string());
    assert_eq!(s.screen, Screen::JobEdit(1));
    assert_eq!(s.form.name, "Job 2");
    s.form.name = "Music".to_string();
    s.commit_job_edit(1);
    assert_eq!(s.screen, Screen::ConfigEditor);
    assert_eq!(s.config.as_ref().unwrap().jobs[1].name, "Music");
    s.toggle_job(0, false);
    assert!(!s.config.as_ref().unwrap().jobs[0].enabled);
    assert!(s.config_dirty);
    s.config_saved(Ok(()));
    assert!(!s.config_dirty);
    assert_eq!(s.status_msg.as_deref(), Some("Configuration saved."));
    assert!(s.start_backup());
    assert_eq!(s.screen, Screen::Backup);
    assert!(!s.check_backup(false, &None, 3));
    assert!(s.check_backup(true, &None, 3661));
    assert_eq!(s.backup_finished_msg.as_deref(), Some("Backup complete in 1h 1m!"));
    assert!(s.backup_recorded("2024-05-01T10:00:00+02:00".to_string()));
    assert_eq!(s.config.as_ref().unwrap().last_backup.as_deref(), Some("2024-05-01T10:00:00+02:00"));
}

#[test]
fn screens_report_errors() {
    let mut s = ScreenState::new();
    s.drives_refreshed(Err("lsblk failed".to_string()));
    assert_eq!(s.status_msg.as_deref(), Some("Error listing drives: lsblk failed"));
    s.mount_failed("busy");
    assert_eq!(s.status_msg.as_deref(), Some("Mount failed: busy"));
    s.unlocked_mount_failed("no fs");
    assert_eq!(s.password_error.as_deref(), Some("Mount failed: no fs"));
    s.opened("/m".to_string(), Config::new_for_home("/h".to_string()), Some("bad toml".to_string()));
    assert_eq!(s.status_msg.as_deref(), Some("Config error: bad toml"));
    s.config_saved(Err("read-only".to_string()));
    assert_eq!(s.status_msg.as_deref(), Some("Save failed: read-only"));
    assert!(s.start_backup());
    assert!(!s.check_backup(true, &Some("disk full".to_string()), 1));
    assert_eq!(s.backup_finished_msg.as_deref(), Some("Backup failed: disk full"));
    let mut mounted = drive("/dev/sdd1");
    mounted.mountpoint = Some("/media/d".to_string());
    s.drives_refreshed(Ok(vec![mounted]));
    s.selected_drive_idx = Some(0);
    match s.mount_plan() {
        MountPlan::Mounted(m) => assert_eq!(m, "/media/d"),
        _ => panic!("expected mounted"),
    }
    s.cancel_password();
    assert_eq!(s.screen, Screen::DriveSelect);
}

#[test]
fn editing_a_job_without_changes_keeps_it() {
    let mut j = SyncJob::new("Docs".to_string(), "/home/u/docs".to_string());
    j.excludes = vec!["*.tmp".to_string(), ".cache/".to_string(), "a b".to_string()];
    j.enabled = false;
    let back = job_from_form(&job_form(&j));
    assert_eq!(back.name, j.name);
    assert_eq!(back.source, j.source);
    assert_eq!(back.destination, j.destination);
    assert_eq!(back.excludes, j.excludes);
    assert_eq!(back.mode, j.mode);
    assert_eq!(back.enabled, j.enabled);
    let none = SyncJob::new("N".to_string(), "/n".to_string());
    assert!(job_from_form(&job_form(&none)).excludes.is_empty());
}

#[test]
fn adding_a_job_opens_the_editor_on_it() {
    let mut s = ScreenState::new();
    s.opened("/m".to_string(), Config::new_for_home("/home/u".to_string()), None);
    s.form.name = "stale".to_string();
    s.form.excludes = "old".to_string();
    s.add_job("/srv/photos".to_string());
    assert_eq!(s.screen, Screen::JobEdit(1));
    assert_eq!(s.form.name, "Job 2");
    assert_eq!(s.form.source, "/srv/photos");
    assert_eq!(s.form.dest, "photos");
    assert_eq!(s.form.excludes, "");
    assert_eq!(s.form.mode, SyncMode::Backup);
    assert!(s.form.enabled);
}

#[test]
fn desktop_summary_line_gives_the_total() {
    let u = parse_rsync_line("      2,048,576,000 100%  123.45MB/s    0:00:16 (xfr#1234, ir-chk=0/5678)");
    assert_eq!(u.bytes_total, Some(2048576000));
    assert_eq!(u.percent, None);
    assert_eq!(u.files, None);
}
