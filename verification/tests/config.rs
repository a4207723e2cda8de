use backer_upper::commands::{first_eject_action, next_eject_action, EjectAction};
use backer_upper::commands::{open_plan, preview_commands, take_drive, DriveJson, EjectPlan, OpenPlan, Session};
use backer_upper::config::{numbered_job, Config, JobError, SyncJob, SyncMode, CONFIG_FILENAME};
use backer_upper::drives::Drive;

fn drive(device: &str) -> Drive {
    Drive {
        device: device.to_string(),
        label: None,
        uuid: None,
        fstype: None,
        size: None,
        mountpoint: None,
        is_encrypted: false,
        luks_parent: None,
        model: None,
        vendor: None,
        tran: None,
        dev_type: "part".to_string(),
    }
}

#[test]
fn config_file_name() {
    assert_eq!(CONFIG_FILENAME, "backer-upper.toml");
}

#[test]
fn new_job_copies_into_a_folder_of_the_same_name() {
    let j = SyncJob::new("Home".to_string(), "/home/alice".to_string());
    assert_eq!(j.name, "Home");
    assert_eq!(j.source, "/home/alice");
    assert_eq!(j.destination, "alice");
    assert!(j.excludes.is_empty());
    assert_eq!(j.mode, SyncMode::Backup);
    assert!(j.enabled);
    assert_eq!(SyncJob::new("x".to_string(), "/".to_string()).destination, "backup");
    assert_eq!(SyncJob::new("x".to_string(), "".to_string()).destination, "backup");
    assert_eq!(SyncJob::new("x".to_string(), "/data/photos/".to_string()).destination, "photos");
    assert_eq!(SyncJob::new("x".to_string(), "/data/..".to_string()).destination, "backup");
}

#[test]
fn default_config_backs_up_home() {
    let c = Config::new_for_home("/home/bob".to_string());
    assert_eq!(c.jobs.len(), 1);
    assert_eq!(c.jobs[0].name, "Home");
    assert_eq!(c.jobs[0].destination, "bob");
    assert_eq!(c.last_backup, None);
}

#[test]
fn adding_and_deleting_jobs() {
    let mut c = Config::new_for_home("/home/bob".to_string());
    c.add_job("/home/bob".to_string());
    assert_eq!(c.jobs.len(), 2);
    assert_eq!(c.jobs[1].name, "Job 2");
    assert_eq!(numbered_job(17), "Job 17");
    assert_eq!(c.delete_job(5), Err(JobError::OutOfRange));
    assert_eq!(JobError::OutOfRange.message(), "Job index out of range");
    assert_eq!(c.delete_job(1), Ok(()));
    assert_eq!(c.jobs.len(), 1);
    assert_eq!(c.jobs[0].name, "Home");
}

#[test]
fn enabling_and_putting_jobs() {
    let mut c = Config::new_for_home("/home/bob".to_string());
    assert!(c.set_enabled(0, false));
    assert!(!c.jobs[0].enabled);
    assert!(!c.set_enabled(3, true));
    let j = SyncJob::new("New".to_string(), "/srv".to_string());
    c.put_job(7, j.clone());
    assert_eq!(c.jobs.len(), 2);
    assert_eq!(c.jobs[1].name, "New");
    let mut k = j;
    k.name = "Renamed".to_string();
    c.put_job(1, k);
    assert_eq!(c.jobs.len(), 2);
    assert_eq!(c.jobs[1].name, "Renamed");
}

#[test]
fn drive_json_carries_display_name() {
    let mut d = drive("/dev/sdb1");
    d.label = Some("B".to_string());
    d.mountpoint = Some("/m".to_string());
    let j = DriveJson::from_drive(d);
    assert_eq!(j.device, "/dev/sdb1");
    assert_eq!(j.display_name, "B");
    assert!(j.is_mounted);
}

#[test]
fn take_drive_finds_by_device() {
    let list = vec![drive("/dev/sdb1"), drive("/dev/sdc1")];
    assert_eq!(take_drive(list.clone(), "/dev/sdc1").unwrap().device, "/dev/sdc1");
    assert_eq!(take_drive(list, "/dev/sdz").unwrap_err(), "Drive /dev/sdz not found");
}

#[test]
fn open_plans() {
    let mut d = drive("/dev/sdb1");
    assert!(matches!(open_plan(&d), OpenPlan::Mount));
    d.is_encrypted = true;
    assert!(matches!(open_plan(&d), OpenPlan::NeedsPassword));
    d.mountpoint = Some("/media/x".to_string());
    match open_plan(&d) {
        OpenPlan::AlreadyMounted(m) => assert_eq!(m, "/media/x"),
        _ => panic!("expected mounted"),
    }
}

#[test]
fn session_without_config_refuses() {
    let mut s = Session::new();
    assert_eq!(s.add_job("/home/u".to_string()).unwrap_err(), "No config loaded");
    assert_eq!(s.delete_job(0).unwrap_err(), "No config loaded");
    assert_eq!(s.can_save(), Err("No config or mount point".to_string()));
    assert_eq!(s.start_backup(), Err("No config or mount point".to_string()));
    assert!(matches!(s.eject_plan(), EjectPlan::Nothing));
    assert!(preview_commands(&s.config, &s.mount_point).is_empty());
}

#[test]
fn session_with_an_opened_drive() {
    let mut s = Session::new();
    let cfg = Config::new_for_home("/home/u".to_string());
    s.opened(&drive("/dev/sdb1"), "/media/b".to_string(), cfg);
    assert_eq!(s.mount_point.as_deref(), Some("/media/b"));
    match s.eject_plan() {
        EjectPlan::Unmount { device } => assert_eq!(device, "/dev/sdb1"),
        _ => panic!("expected unmount"),
    }
    let c = s.add_job("/home/u/music".to_string()).unwrap();
    assert_eq!(c.jobs.len(), 2);
    assert_eq!(c.jobs[1].name, "Job 2");
    assert_eq!(c.jobs[1].destination, "music");
    assert!(s.config_dirty);
    assert_eq!(s.delete_job(9).unwrap_err(), "Job index out of range");
    let c = s.delete_job(0).unwrap();
    assert_eq!(c.jobs.len(), 1);
    assert_eq!(s.can_save(), Ok(()));
    s.saved();
    assert!(!s.config_dirty);
    let previews = preview_commands(&s.config, &s.mount_point);
    assert_eq!(previews.len(), 1);
    assert_eq!(previews[0].name, "Job 2");
    assert_eq!(
        previews[0].cmd,
        "rsync -av --info=progress2 --no-inc-recursive --partial-dir=.rsync-partial --delete /home/u/music/ /media/b/music/"
    );
    s.ejected();
    assert!(s.mount_point.is_none());
    assert!(s.config.is_none());
}

#[test]
fn unlocked_drive_is_ejected_by_unmount_and_lock() {
    let mut s = Session::new();
    let mut mapping = drive("/dev/dm-0");
    mapping.luks_parent = Some("/dev/sdb1".to_string());
    s.opened(&mapping, "/media/b".to_string(), Config::new_for_home("/h".to_string()));
    match s.eject_plan() {
        EjectPlan::UnmountAndLock { cleartext, luks } => {
            assert_eq!(cleartext, "/dev/dm-0");
            assert_eq!(luks, "/dev/sdb1");
        }
        _ => panic!("expected unmount and lock"),
    }
    let mut s = Session::new();
    s.unlocked("/dev/sdc1".to_string(), "/dev/dm-3".to_string(), "/m".to_string(), Config::new_for_home("/h".to_string()));
    assert_eq!(s.mapper_name.as_deref(), Some("/dev/dm-3"));
    assert_eq!(s.mounted_device.as_deref(), Some("/dev/sdc1"));
}

#[test]
fn backup_end_messages() {
    let mut s = Session::new();
    s.opened(&drive("/dev/sdb1"), "/m".to_string(), Config::new_for_home("/h".to_string()));
    assert_eq!(s.start_backup(), Ok(()));
    let c = s.check_backup(false, false, &None, 5);
    assert!(c.running);
    assert!(!c.completed_now);
    let c = s.check_backup(true, false, &None, 187);
    assert!(!c.running);
    assert!(c.completed_now);
    assert_eq!(s.backup_finished_msg.as_deref(), Some("Backup complete in 3m 7s!"));
    assert!(!s.backup_running);
    assert_eq!(s.start_backup(), Ok(()));
    let c = s.check_backup(true, false, &Some("disk full".to_string()), 1);
    assert!(!c.completed_now);
    assert_eq!(s.backup_finished_msg.as_deref(), Some("Backup failed: disk full"));
    assert_eq!(s.start_backup(), Ok(()));
    let c = s.check_backup(true, true, &None, 1);
    assert!(!c.completed_now);
    assert_eq!(s.backup_finished_msg.as_deref(), Some("Backup cancelled."));
    s.format_running = true;
    s.check_format(false);
    assert!(s.format_running);
    s.check_format(true);
    assert!(!s.format_running);
}

#[test]
fn deleting_the_added_job_gives_the_jobs_back() {
    let mut c = Config::new_for_home("/home/bob".to_string());
    c.add_job("/srv/data".to_string());
    c.add_job("/srv/more".to_string());
    let before: Vec<String> = c.jobs.iter().map(|j| j.name.clone()).collect();
    c.add_job("/tmp/x".to_string());
    let last = c.jobs.len() - 1;
    assert_eq!(c.delete_job(last), Ok(()));
    let after: Vec<String> = c.jobs.iter().map(|j| j.name.clone()).collect();
    assert_eq!(before, after);
}

#[test]
fn mount_failure_message_names_the_reason() {
    assert_eq!(backer_upper::commands::mount_failure_message("not authorized"), "Mount failed: not authorized");
}

#[test]
fn eject_steps() {
    let plan = EjectPlan::UnmountAndLock { cleartext: "/dev/dm-0".to_string(), luks: "/dev/sdb1".to_string() };
    let a = first_eject_action(&plan);
    assert!(matches!(&a, EjectAction::Unmount(d) if d == "/dev/dm-0"));
    let a = next_eject_action(&plan, &a, Ok(()));
    assert!(matches!(&a, EjectAction::Lock(d) if d == "/dev/sdb1"));
    let b = next_eject_action(&plan, &a, Err("busy".to_string()));
    assert!(matches!(&b, EjectAction::Done(Err(e)) if e == "busy"));
    let a = next_eject_action(&plan, &a, Ok(()));
    assert!(matches!(&a, EjectAction::PowerOff(d) if d == "/dev/sdb1"));
    let a = next_eject_action(&plan, &a, Err("no power-off".to_string()));
    assert!(matches!(a, EjectAction::Done(Ok(()))));
    let plain = EjectPlan::Unmount { device: "/dev/sdc1".to_string() };
    let a = first_eject_action(&plain);
    let a = next_eject_action(&plain, &a, Ok(()));
    assert!(matches!(&a, EjectAction::PowerOff(d) if d == "/dev/sdc1"));
    assert!(matches!(first_eject_action(&EjectPlan::Nothing), EjectAction::Done(Ok(()))));
}
