use backer_upper::drives::{
    drives_from_lsblk, hardware_name, partition_path, preferred_device_name, udisks2_obj_path,
    udisksctl_args, udisksctl_failure_message, unlock_failure_message, BlockDevice, Drive, JsonScalar,
};

fn s(v: &str) -> JsonScalar {
    JsonScalar::Str(v.to_string())
}

fn dev(path: &str, ty: &str) -> BlockDevice {
    BlockDevice {
        path: s(path),
        label: JsonScalar::Other,
        uuid: JsonScalar::Other,
        fstype: JsonScalar::Other,
        size: s("1G"),
        mountpoint: JsonScalar::Other,
        hotplug: JsonScalar::Bool(false),
        dev_type: s(ty),
        vendor: JsonScalar::Other,
        model: JsonScalar::Other,
        tran: JsonScalar::Other,
        children: None,
    }
}

fn drive(device: &str) -> Drive {
    Drive {
        device: device.to_string(),
        label: None,
        uuid: None,
        fstype: None,
        size: None,
        mountpoint: None,
        is_encrypted: false,
        luks_parent: None,
        model: None,
        vendor: None,
        tran: None,
        dev_type: "part".to_string(),
    }
}

#[test]
fn removable_disk_lists_its_partitions_with_disk_details() {
    let mut part = dev("/dev/sdb1", "part");
    part.label = s("BACKUP");
    part.fstype = s("btrfs");
    part.mountpoint = s("/media/backup");
    let mut disk = dev("/dev/sdb", "disk");
    disk.hotplug = JsonScalar::Bool(true);
    disk.vendor = s("SanDisk ");
    disk.model = s(" Ultra");
    disk.tran = s("usb");
    disk.children = Some(vec![part]);
    let internal = {
        let mut d = dev("/dev/nvme0n1", "disk");
        d.children = Some(vec![dev("/dev/nvme0n1p1", "part")]);
        d
    };
    let drives = drives_from_lsblk(&vec![internal, disk]);
    assert_eq!(drives.len(), 1);
    let d = &drives[0];
    assert_eq!(d.device, "/dev/sdb1");
    assert_eq!(d.label.as_deref(), Some("BACKUP"));
    assert_eq!(d.fstype.as_deref(), Some("btrfs"));
    assert_eq!(d.mountpoint.as_deref(), Some("/media/backup"));
    assert!(!d.is_encrypted);
    assert_eq!(d.vendor.as_deref(), Some("SanDisk "));
    assert_eq!(d.model.as_deref(), Some(" Ultra"));
    assert_eq!(d.tran.as_deref(), Some("usb"));
    assert_eq!(d.dev_type, "part");
    assert!(d.is_mounted());
    assert_eq!(d.display_name(), "BACKUP");
}

#[test]
fn hotplug_given_as_string_one_counts() {
    let mut disk = dev("/dev/sdc", "disk");
    disk.hotplug = s("1");
    let drives = drives_from_lsblk(&vec![disk]);
    assert_eq!(drives.len(), 1);
    assert_eq!(drives[0].device, "/dev/sdc");
    assert_eq!(drives[0].dev_type, "disk");
    let mut other = dev("/dev/sdd", "disk");
    other.hotplug = s("0");
    assert!(drives_from_lsblk(&vec![other]).is_empty());
}

#[test]
fn unlocked_luks_partition_lists_the_mapping_instead() {
    let mut mapping = dev("/dev/mapper/luks-1234", "crypt");
    mapping.fstype = s("btrfs");
    mapping.mountpoint = s("/run/media/u/B");
    let mut part = dev("/dev/sdb1", "part");
    part.fstype = s("crypto_LUKS");
    part.children = Some(vec![mapping]);
    let mut disk = dev("/dev/sdb", "disk");
    disk.hotplug = JsonScalar::Bool(true);
    disk.children = Some(vec![part]);
    let drives = drives_from_lsblk(&vec![disk]);
    assert_eq!(drives.len(), 1);
    assert_eq!(drives[0].device, "/dev/mapper/luks-1234");
    assert!(drives[0].is_encrypted);
    assert_eq!(drives[0].luks_parent.as_deref(), Some("/dev/sdb1"));
}

#[test]
fn locked_luks_partition_is_listed_encrypted() {
    let mut part = dev("/dev/sdb1", "part");
    part.fstype = s("crypto_LUKS");
    part.uuid = s("abcd-ef");
    let mut disk = dev("/dev/sdb", "disk");
    disk.hotplug = JsonScalar::Bool(true);
    disk.children = Some(vec![part]);
    let drives = drives_from_lsblk(&vec![disk]);
    assert_eq!(drives.len(), 1);
    assert!(drives[0].is_encrypted);
    assert_eq!(drives[0].luks_parent, None);
    assert_eq!(drives[0].uuid.as_deref(), Some("abcd-ef"));
}

#[test]
fn fixed_disk_is_never_listed() {
    let mut disk = dev("/dev/sda", "disk");
    disk.children = Some(vec![dev("/dev/sda1", "part"), dev("/dev/sda2", "part")]);
    assert!(drives_from_lsblk(&vec![disk]).is_empty());
}

#[test]
fn empty_fields_count_as_missing() {
    let mut disk = dev("/dev/sde", "disk");
    disk.hotplug = JsonScalar::Bool(true);
    disk.label = s("");
    disk.size = JsonScalar::Other;
    let drives = drives_from_lsblk(&vec![disk]);
    assert_eq!(drives[0].label, None);
    assert_eq!(drives[0].size, None);
    let mut nopath = dev("", "disk");
    nopath.hotplug = JsonScalar::Bool(true);
    assert!(drives_from_lsblk(&vec![nopath]).is_empty());
}

#[test]
fn display_name_falls_back_to_hardware_then_device() {
    let mut d = drive("/dev/sdb1");
    assert_eq!(d.display_name(), "/dev/sdb1");
    d.vendor = Some("  Kingston ".to_string());
    assert_eq!(d.display_name(), "Kingston");
    d.model = Some("DataTraveler".to_string());
    assert_eq!(d.display_name(), "Kingston DataTraveler");
    d.label = Some(String::new());
    assert_eq!(d.display_name(), "Kingston DataTraveler");
    d.label = Some("Photos".to_string());
    assert_eq!(d.display_name(), "Photos");
    assert_eq!(hardware_name(&None, &Some(" X ".to_string())), "X");
    assert_eq!(hardware_name(&None, &None), "");
}

#[test]
fn partition_path_after_digit_uses_p() {
    assert_eq!(partition_path("/dev/sdb"), "/dev/sdb1");
    assert_eq!(partition_path("/dev/nvme0n1"), "/dev/nvme0n1p1");
    assert_eq!(partition_path("/dev/mmcblk0"), "/dev/mmcblk0p1");
    assert_eq!(partition_path(""), "1");
}

#[test]
fn udisks2_object_path_encodes_the_name() {
    assert_eq!(udisks2_obj_path("/dev/sdb1", &None), "/org/freedesktop/UDisks2/block_devices/sdb1");
    assert_eq!(
        udisks2_obj_path("/dev/disk/by-uuid/x", &Some("/dev/dm-0".to_string())),
        "/org/freedesktop/UDisks2/block_devices/dm_0"
    );
    assert_eq!(
        udisks2_obj_path("/dev/mapper/luks-ab.c", &None),
        "/org/freedesktop/UDisks2/block_devices/mapper_luks_ab_c"
    );
    assert_eq!(udisks2_obj_path("sdz", &None), "/org/freedesktop/UDisks2/block_devices/sdz");
}

#[test]
fn unlock_errors_become_wrong_passphrase() {
    assert_eq!(
        unlock_failure_message("org.freedesktop.UDisks2.Error.Failed: Error unlocking /dev/sdb1: Failed to activate device: Operation not permitted"),
        "Wrong passphrase"
    );
    assert_eq!(unlock_failure_message("No key available with this passphrase"), "Wrong passphrase");
    assert_eq!(unlock_failure_message("Device busy"), "Unlock failed: Device busy");
}

#[test]
fn preferred_device_drops_trailing_nuls() {
    assert_eq!(preferred_device_name(b"/dev/dm-0\0"), "/dev/dm-0");
    assert_eq!(preferred_device_name(b"/dev/dm-1\0\0\0"), "/dev/dm-1");
    assert_eq!(preferred_device_name(b"/dev/dm-2"), "/dev/dm-2");
    assert_eq!(preferred_device_name(&[0xff, 0xfe, 0]), "");
}

#[test]
fn udisksctl_commands_and_errors() {
    assert_eq!(udisksctl_args("unmount", "/dev/sdb1"), vec!["unmount", "--no-user-interaction", "-b", "/dev/sdb1"]);
    assert_eq!(udisksctl_args("power-off", "/dev/sdb"), vec!["power-off", "--no-user-interaction", "-b", "/dev/sdb"]);
    assert_eq!(udisksctl_failure_message("lock", "  Error locking\n"), "udisksctl lock: Error locking");
}
