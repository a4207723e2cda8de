use backer_upper::backup::{BackupAction, BackupStatus, RsyncUpdate, TransferPoint};
use backer_upper::commands::Session;
use backer_upper::config::Config;
use backer_upper::drives::{drives_from_tree, lsblk_tree, tree_of_json, JsonNode, JsonScalar};
use backer_upper::format::{flags_of_json, lsblk_flags, LsblkAnswer};

const LSBLK: &str = r#"{"blockdevices":[
  {"name":"nvme0n1","path":"/dev/nvme0n1","label":null,"uuid":null,"fstype":null,"size":"512G",
   "mountpoint":null,"hotplug":false,"type":"disk","vendor":null,"model":"Samsung SSD","tran":"nvme",
   "children":[{"name":"nvme0n1p1","path":"/dev/nvme0n1p1","label":null,"uuid":"11-22","fstype":"ext4",
     "size":"512G","mountpoint":"/","hotplug":false,"type":"part","vendor":null,"model":null,"tran":null}]},
  {"name":"sdb","path":"/dev/sdb","label":null,"uuid":null,"fstype":null,"size":"32G","mountpoint":null,
   "hotplug":true,"type":"disk","vendor":"SanDisk ","model":" Ultra","tran":"usb",
   "children":[{"name":"sdb1","path":"/dev/sdb1","label":"BACKUP","uuid":"ab-cd","fstype":"btrfs",
     "size":"31.9G","mountpoint":"/media/backup","hotplug":true,"type":"part","vendor":null,"model":null,"tran":null}]}
]}"#;

fn is_str(v: &JsonScalar, want: &str) -> bool {
    matches!(v, JsonScalar::Str(s) if s == want)
}

#[test]
fn lsblk_output_that_is_not_json_is_an_error() {
    for out in [&b"lsblk: command failed"[..], &b""[..], &b"{\"blockdevices\": ["[..]] {
        let tree = lsblk_tree(out);
        assert!(tree.is_none());
        assert_eq!(drives_from_tree(tree).unwrap_err(), "failed to parse lsblk JSON");
        let desk = backer_upper::desktop::drives::drives_from_tree(lsblk_tree(out));
        assert_eq!(desk.unwrap_err(), "failed to parse lsblk JSON");
    }
}

#[test]
fn lsblk_without_a_device_array_lists_no_drives() {
    for out in [&b"{\"blockdevices\":5}"[..], &b"{}"[..], &b"[1,2]"[..], &b"null"[..]] {
        let tree = lsblk_tree(out);
        assert!(matches!(tree, Some(None)));
        assert!(drives_from_tree(tree).unwrap().is_empty());
    }
    let empty = lsblk_tree(b"{\"blockdevices\":[]}");
    assert!(matches!(&empty, Some(Some(v)) if v.is_empty()));
    assert!(drives_from_tree(empty).unwrap().is_empty());
}

#[test]
fn lsblk_tree_reads_nested_devices() {
    let tree = lsblk_tree(LSBLK.as_bytes()).unwrap().unwrap();
    assert_eq!(tree.len(), 2);
    assert!(is_str(&tree[0].path, "/dev/nvme0n1"));
    assert!(matches!(tree[0].hotplug, JsonScalar::Bool(false)));
    assert!(matches!(tree[0].label, JsonScalar::Other));
    assert!(is_str(&tree[1].dev_type, "disk"));
    assert!(is_str(&tree[1].vendor, "SanDisk "));
    let kids = tree[1].children.as_ref().unwrap();
    assert_eq!(kids.len(), 1);
    assert!(is_str(&kids[0].path, "/dev/sdb1"));
    assert!(is_str(&kids[0].mountpoint, "/media/backup"));
    assert!(kids[0].children.is_none());
}

#[test]
fn lsblk_output_gives_the_removable_partitions() {
    let drives = drives_from_tree(lsblk_tree(LSBLK.as_bytes())).unwrap();
    assert_eq!(drives.len(), 1);
    let d = &drives[0];
    assert_eq!(d.device, "/dev/sdb1");
    assert_eq!(d.label.as_deref(), Some("BACKUP"));
    assert_eq!(d.uuid.as_deref(), Some("ab-cd"));
    assert_eq!(d.fstype.as_deref(), Some("btrfs"));
    assert_eq!(d.size.as_deref(), Some("31.9G"));
    assert_eq!(d.mountpoint.as_deref(), Some("/media/backup"));
    assert_eq!(d.vendor.as_deref(), Some("SanDisk "));
    assert_eq!(d.model.as_deref(), Some(" Ultra"));
    assert_eq!(d.tran.as_deref(), Some("usb"));
    assert_eq!(d.dev_type, "part");
    assert!(!d.is_encrypted);

    let desk = backer_upper::desktop::drives::drives_from_tree(lsblk_tree(LSBLK.as_bytes())).unwrap();
    assert_eq!(desk.len(), 1);
    assert_eq!(desk[0].device, "/dev/sdb1");
    assert_eq!(desk[0].label.as_deref(), Some("BACKUP"));
    assert_eq!(desk[0].vendor.as_deref(), Some("SanDisk "));
}

#[test]
fn lsblk_flags_reads_the_first_device() {
    assert!(matches!(lsblk_flags(b"not json"), LsblkAnswer::Unparsable));
    match lsblk_flags(br#"{"blockdevices":[{"hotplug":"1","rm":false},{"hotplug":true,"rm":true}]}"#) {
        LsblkAnswer::Flags { hotplug, rm } => {
            assert!(is_str(&hotplug, "1"));
            assert!(matches!(rm, JsonScalar::Bool(false)));
        }
        _ => panic!("expected flags"),
    }
    match lsblk_flags(br#"{"blockdevices":{"hotplug":true},"x":1}"#) {
        LsblkAnswer::Flags { hotplug, rm } => {
            assert!(matches!(hotplug, JsonScalar::Other));
            assert!(matches!(rm, JsonScalar::Other));
        }
        _ => panic!("expected flags"),
    }
    match lsblk_flags(br#"{"blockdevices":[{"rm":"1","rm":true}]}"#) {
        LsblkAnswer::Flags { rm, .. } => assert!(matches!(rm, JsonScalar::Bool(true))),
        _ => panic!("expected flags"),
    }
    match lsblk_flags(b"{}") {
        LsblkAnswer::Flags { hotplug, rm } => {
            assert!(matches!(hotplug, JsonScalar::Other));
            assert!(matches!(rm, JsonScalar::Other));
        }
        _ => panic!("expected flags"),
    }
}

#[test]
fn web_session_records_a_completed_backup() {
    let mut s = Session::new();
    assert!(s.backup_recorded("2024-05-01T10:00:00+02:00".to_string()));
    assert!(s.config.is_none());
    s.update_config(Config::new_for_home("/home/u".to_string()));
    s.config_dirty = false;
    assert!(s.backup_recorded("2024-05-01T10:00:00+02:00".to_string()));
    assert_eq!(s.config.as_ref().unwrap().last_backup.as_deref(), Some("2024-05-01T10:00:00+02:00"));
    s.config_dirty = true;
    assert!(!s.backup_recorded("2024-06-01T10:00:00+02:00".to_string()));
    assert_eq!(s.config.as_ref().unwrap().last_backup.as_deref(), Some("2024-06-01T10:00:00+02:00"));
    assert!(s.config_dirty);
}

#[test]
fn backup_status_follows_the_actions() {
    let mut st = BackupStatus::new();
    assert_eq!((st.current_job, st.total_jobs, st.finished), (0, 0, false));
    st.error = Some("old".to_string());
    st.cancelled = true;
    st.begin(3);
    assert_eq!((st.current_job, st.total_jobs), (0, 3));
    assert!(!st.finished && !st.cancelled && st.error.is_none());

    st.files_total = 9;
    st.bytes_total = 100;
    st.current_file = "x".to_string();
    st.record(&BackupAction::StartJob { index: 1, name: "Docs".to_string(), dest: "/m/docs".to_string() });
    assert_eq!(st.current_job, 1);
    assert_eq!(st.job_name, "Docs");
    assert_eq!((st.files_total, st.files_transferred, st.bytes_total, st.bytes_transferred), (0, 0, 0, 0));
    assert_eq!(st.current_file, "");

    st.record(&BackupAction::RunRsync { args: vec!["-av".to_string()] });
    assert_eq!(st.current_job, 1);
    assert!(st.error.is_none());

    let u = RsyncUpdate {
        transfer: Some(TransferPoint { bytes: 5, percent: "50".to_string() }),
        percent: None,
        files: Some((10, 4)),
        bytes_total: None,
        current_file: Some("docs/a.txt".to_string()),
    };
    st.record_counts(&u);
    assert_eq!((st.files_total, st.files_transferred), (10, 4));
    assert_eq!(st.current_file, "docs/a.txt");
    assert_eq!(st.bytes_transferred, 0);

    let mut failed = st.clone();
    failed.record(&BackupAction::Fail("rsync failed with exit code 23".to_string()));
    assert_eq!(failed.error.as_deref(), Some("rsync failed with exit code 23"));
    assert!(!failed.finished);
    assert_eq!(failed.current_job, 1);

    let mut stopped = st.clone();
    stopped.record(&BackupAction::Stop);
    assert_eq!(stopped.current_job, 3);
    assert!(!stopped.finished);

    st.record(&BackupAction::Snapshot);
    assert_eq!(st.current_job, 3);
    assert!(st.finished);
    assert!(st.error.is_none());
}

fn obj(members: Vec<(&str, JsonNode)>) -> JsonNode {
    JsonNode::Object(members.into_iter().map(|(k, v)| (k.to_string(), v)).collect())
}

fn text(v: &str) -> JsonNode {
    JsonNode::Str(v.to_string())
}

#[test]
fn tree_of_json_reads_devices_to_the_depth_given() {
    assert!(tree_of_json(&JsonNode::Other, 5).is_none());
    assert!(tree_of_json(&obj(vec![("blockdevices", obj(vec![]))]), 5).is_none());
    let part = obj(vec![("path", text("/dev/sdb1")), ("type", text("part")), ("size", JsonNode::Other)]);
    let disk = obj(vec![
        ("path", text("/dev/sdb")),
        ("hotplug", JsonNode::Bool(true)),
        ("children", JsonNode::Array(vec![part])),
        ("path", text("ignored: the first member of a name is read")),
    ]);
    let json = obj(vec![("blockdevices", JsonNode::Array(vec![disk]))]);
    let deep = tree_of_json(&json, 2).unwrap();
    assert_eq!(deep.len(), 1);
    assert!(is_str(&deep[0].path, "/dev/sdb"));
    assert!(matches!(deep[0].hotplug, JsonScalar::Bool(true)));
    assert!(matches!(deep[0].uuid, JsonScalar::Other));
    let kids = deep[0].children.as_ref().unwrap();
    assert!(is_str(&kids[0].dev_type, "part"));
    assert!(matches!(kids[0].size, JsonScalar::Other));
    let shallow = tree_of_json(&json, 0).unwrap();
    assert!(shallow[0].children.is_none());
}

#[test]
fn flags_of_json_reads_the_first_device() {
    let first = obj(vec![("hotplug", JsonNode::Bool(true)), ("rm", text("0"))]);
    let second = obj(vec![("hotplug", JsonNode::Bool(false))]);
    match flags_of_json(&obj(vec![("blockdevices", JsonNode::Array(vec![first, second]))])) {
        LsblkAnswer::Flags { hotplug, rm } => {
            assert!(matches!(hotplug, JsonScalar::Bool(true)));
            assert!(is_str(&rm, "0"));
        }
        _ => panic!("expected flags"),
    }
    match flags_of_json(&obj(vec![("blockdevices", JsonNode::Array(vec![]))])) {
        LsblkAnswer::Flags { hotplug, rm } => {
            assert!(matches!(hotplug, JsonScalar::Other));
            assert!(matches!(rm, JsonScalar::Other));
        }
        _ => panic!("expected flags"),
    }
}
