//! Drives in the desktop edition: the same choice of removable drives,
//! without the LUKS parent and device type, and udisks2 object paths made
//! from the device name as given.
use vstd::prelude::*;
use crate::drives::{
    display_name_of, hardware_name, opt_view, push_udisks2_path, removable_drives, udisks2_path,
    BlockDevice, DriveView,
};
use crate::text::string_of;

verus! {

/// A drive that can be backed up to.
#[derive(Debug, Clone)]
pub struct Drive {
    pub device: String,
    pub label: Option<String>,
    pub uuid: Option<String>,
    pub fstype: Option<String>,
    pub size: Option<String>,
    pub mountpoint: Option<String>,
    pub is_encrypted: bool,
    pub model: Option<String>,
    pub vendor: Option<String>,
    pub tran: Option<String>,
}

/// The fields the desktop edition keeps of a drive.
pub open spec fn desktop_view(d: DriveView) -> DriveView {
    DriveView { luks_parent: None, dev_type: seq![], ..d }
}

impl View for Drive {
    type V = DriveView;

    open spec fn view(&self) -> DriveView {
        DriveView {
            device: self.device@,
            label: opt_view(self.label),
            uuid: opt_view(self.uuid),
            fstype: opt_view(self.fstype),
            size: opt_view(self.size),
            mountpoint: opt_view(self.mountpoint),
            is_encrypted: self.is_encrypted,
            luks_parent: None,
            model: opt_view(self.model),
            vendor: opt_view(self.vendor),
            tran: opt_view(self.tran),
            dev_type: seq![],
        }
    }
}

impl Drive {
    /// Whether the drive has a mount point.
    pub fn is_mounted(&self) -> (b: bool)
        ensures
            b == self.mountpoint is Some,
    {
        self.mountpoint.is_some()
    }

    /// The name shown for the drive: its label, else vendor and model, else
    /// its device path.
    pub fn display_name(&self) -> (s: String)
        ensures
            s@ == display_name_of(self@),
    {
        if let Some(label) = &self.label {
            if !label.as_str().is_empty() {
                return label.clone();
            }
        }
        let hw = hardware_name(&self.vendor, &self.model);
        if !hw.as_str().is_empty() {
            return hw;
        }
        self.device.clone()
    }
}

/// The views of a list of drives.
pub open spec fn drive_views(v: Seq<Drive>) -> Seq<DriveView> {
    Seq::new(v.len(), |i: int| v[i]@)
}

/// The removable drives among the devices of lsblk's `blockdevices` list, as
/// the desktop edition keeps them.
pub fn drives_from_lsblk(devices: &Vec<BlockDevice>) -> (drives: Vec<Drive>)
    ensures
        drive_views(drives@) == Seq::new(
            removable_drives(devices@).len(),
            |i: int| desktop_view(removable_drives(devices@)[i]),
        ),
{
    let all = crate::drives::drives_from_lsblk(devices);
    let ghost want = removable_drives(devices@);
    let mut out: Vec<Drive> = Vec::new();
    let mut i: usize = 0;
    let mut rest = all;
    let ghost full = rest@;
    while i < rest.len()
        invariant
            rest@ == full,
            crate::drives::drive_views(full) == want,
            i <= full.len(),
            out@.len() == i,
            forall|k: int| 0 <= k < i ==> #[trigger] out@[k]@ == desktop_view(want[k]),
        decreases full.len() - i,
    {
        let d = &rest[i];
        assert(d@ == want[i as int]);
        let nd = Drive {
            device: d.device.clone(),
            label: d.label.clone(),
            uuid: d.uuid.clone(),
            fstype: d.fstype.clone(),
            size: d.size.clone(),
            mountpoint: d.mountpoint.clone(),
            is_encrypted: d.is_encrypted,
            model: d.model.clone(),
            vendor: d.vendor.clone(),
            tran: d.tran.clone(),
        };
        assert(nd@ == desktop_view(want[i as int]));
        out.push(nd);
        i += 1;
    }
    assert(drive_views(out@) =~= Seq::new(want.len(), |k: int| desktop_view(want[k])));
    out
}

/// The udisks2 object path of a device, from its name as given.
pub fn udisks2_obj_path(device: &str) -> (p: String)
    ensures
        p@ == udisks2_path(device@),
{
    let mut out: Vec<char> = Vec::new();
    push_udisks2_path(&mut out, device);
    string_of(out.as_slice())
}


/// The udisks2 interface a call goes to.
#[derive(PartialEq, Eq, Structural, Clone, Copy, Debug)]
pub enum UdisksInterface {
    /// `org.freedesktop.UDisks2.Filesystem`
    Filesystem,
    /// `org.freedesktop.UDisks2.Encrypted`
    Encrypted,
}

/// A udisks2 method without arguments other than empty options.
#[derive(PartialEq, Eq, Structural, Clone, Copy, Debug)]
pub enum UdisksMethod {
    Mount,
    Unmount,
    Lock,
}

/// A call to make on the udisks2 D-Bus service.
pub struct UdisksCall {
    /// The object path of the device.
    pub object: String,
    pub interface: UdisksInterface,
    pub method: UdisksMethod,
}

/// Whether `c` calls `method` of `interface` on the object `object`.
pub open spec fn is_call(c: UdisksCall, object: Seq<char>, interface: UdisksInterface, method: UdisksMethod) -> bool {
    c.object@ == object && c.interface == interface && c.method == method
}

/// Mounting a plain device: `Filesystem.Mount` on its object; udisks2
/// answers with the mount point it chose.
pub fn mount_device(device: &str) -> (c: UdisksCall)
    ensures
        is_call(c, udisks2_path(device@), UdisksInterface::Filesystem, UdisksMethod::Mount),
{
    UdisksCall { object: udisks2_obj_path(device), interface: UdisksInterface::Filesystem, method: UdisksMethod::Mount }
}

/// Unmounting the filesystem whose object path is `obj_path`.
pub fn unmount_filesystem(obj_path: &str) -> (c: UdisksCall)
    ensures
        is_call(c, obj_path@, UdisksInterface::Filesystem, UdisksMethod::Unmount),
{
    UdisksCall {
        object: crate::backup::owned(obj_path),
        interface: UdisksInterface::Filesystem,
        method: UdisksMethod::Unmount,
    }
}

/// Unmounting a plain device by its `/dev/…` path.
pub fn unmount_device(device: &str) -> (c: UdisksCall)
    ensures
        is_call(c, udisks2_path(device@), UdisksInterface::Filesystem, UdisksMethod::Unmount),
{
    let p = udisks2_obj_path(device);
    unmount_filesystem(p.as_str())
}

/// Locking a LUKS device by its `/dev/…` path.
pub fn lock_luks(device: &str) -> (c: UdisksCall)
    ensures
        is_call(c, udisks2_path(device@), UdisksInterface::Encrypted, UdisksMethod::Lock),
{
    UdisksCall { object: udisks2_obj_path(device), interface: UdisksInterface::Encrypted, method: UdisksMethod::Lock }
}

/// The calls that close a drive, each made whatever became of the one
/// before: an unlocked drive (`cleartext_obj` is the object path of its
/// cleartext device) is unmounted there and its LUKS device `luks_device`
/// locked; a plain drive (`cleartext_obj` empty) has the filesystem on its
/// block device `device` unmounted.
pub fn unmount_and_close(device: &str, cleartext_obj: &str, luks_device: &str) -> (calls: Vec<UdisksCall>)
    ensures
        cleartext_obj@.len() > 0 ==> calls@.len() == 2 && is_call(
            calls@[0],
            cleartext_obj@,
            UdisksInterface::Filesystem,
            UdisksMethod::Unmount,
        ) && is_call(calls@[1], udisks2_path(luks_device@), UdisksInterface::Encrypted, UdisksMethod::Lock),
        cleartext_obj@.len() == 0 ==> calls@.len() == 1 && is_call(
            calls@[0],
            udisks2_path(device@),
            UdisksInterface::Filesystem,
            UdisksMethod::Unmount,
        ),
{
    let mut calls: Vec<UdisksCall> = Vec::new();
    if cleartext_obj.unicode_len() > 0 {
        calls.push(unmount_filesystem(cleartext_obj));
        calls.push(lock_luks(luks_device));
    } else {
        calls.push(unmount_device(device));
    }
    calls
}


/// The removable drives that lsblk's device tree gives (see
/// `crate::drives::lsblk_tree`), as the desktop edition keeps them: an error
/// when the output was not JSON, none when it listed no array of devices.
pub fn drives_from_tree(tree: Option<Option<Vec<BlockDevice>>>) -> (r: Result<Vec<Drive>, String>)
    ensures
        match tree {
            None => r matches Err(e) && e@ == crate::drives::lsblk_unreadable(),
            Some(None) => r matches Ok(v) && v@.len() == 0,
            Some(Some(devs)) => r matches Ok(v) && drive_views(v@) == Seq::new(
                removable_drives(devs@).len(),
                |i: int| desktop_view(removable_drives(devs@)[i]),
            ),
        },
{
    match tree {
        None => Err(crate::backup::owned("failed to parse lsblk JSON")),
        Some(None) => Ok(Vec::new()),
        Some(Some(devs)) => Ok(drives_from_lsblk(&devs)),
    }
}

} // verus!
