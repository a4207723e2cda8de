//! Removable drives: which block devices `lsblk` reports are offered to the
//! user, how they are named, and how udisks2 names them on D-Bus.
use vstd::prelude::*;
use vstd::utf8::{decode_utf8, valid_utf8};
use crate::bytes::utf8_decode;
use crate::text::{
    ascii_alnum, ascii_digit, chars_eq_str, chars_of, contains, contains_str, is_ascii_alnum,
    is_digit, push_chars, push_str, starts_with, starts_with_str, string_of, suffix, trim,
    trim_chars, trim_end_char, trim_end_char_exec, trim_str,
};

verus! {

// ───────────────────────────── lsblk's JSON ─────────────────────────────

/// A field of a JSON object as the drive logic reads it: a string, a boolean,
/// or anything else (missing, `null`, a number, an array or an object).
#[derive(Debug, Clone)]
pub enum JsonScalar {
    Str(String),
    Bool(bool),
    Other,
}

/// One entry of `lsblk --json`'s `blockdevices` tree, with the fields the
/// drive logic reads.
#[derive(Debug)]
pub struct BlockDevice {
    pub path: JsonScalar,
    pub label: JsonScalar,
    pub uuid: JsonScalar,
    pub fstype: JsonScalar,
    pub size: JsonScalar,
    pub mountpoint: JsonScalar,
    pub hotplug: JsonScalar,
    pub dev_type: JsonScalar,
    pub vendor: JsonScalar,
    pub model: JsonScalar,
    pub tran: JsonScalar,
    /// The `children` field, when it is an array.
    pub children: Option<Vec<BlockDevice>>,
}

/// A field that holds a non-empty string (`as_str()` filtered on non-empty).
pub open spec fn text_field(f: JsonScalar) -> Option<Seq<char>> {
    match f {
        JsonScalar::Str(s) => if s@.len() > 0 {
            Some(s@)
        } else {
            None
        },
        _ => None,
    }
}

/// A string field, or the empty string (`as_str().unwrap_or("")`).
pub open spec fn text_or_empty(f: JsonScalar) -> Seq<char> {
    match f {
        JsonScalar::Str(s) => s@,
        _ => seq![],
    }
}

/// Whether a field is the string `lit`.
pub open spec fn is_text_field(f: JsonScalar, lit: Seq<char>) -> bool {
    match f {
        JsonScalar::Str(s) => s@ == lit,
        _ => false,
    }
}

/// A flag that lsblk reports either as a boolean or as the string `"1"`.
pub open spec fn flag_set(f: JsonScalar) -> bool {
    match f {
        JsonScalar::Bool(b) => b,
        JsonScalar::Str(s) => s@ == "1"@,
        JsonScalar::Other => false,
    }
}

pub fn text_field_of(f: &JsonScalar) -> (r: Option<String>)
    ensures
        match r {
            Some(s) => text_field(*f) == Some(s@),
            None => text_field(*f) is None,
        },
{
    match f {
        JsonScalar::Str(s) => if s.as_str().is_empty() {
            None
        } else {
            Some(s.clone())
        },
        _ => None,
    }
}

pub fn text_or_empty_of(f: &JsonScalar) -> (r: String)
    ensures
        r@ == text_or_empty(*f),
{
    match f {
        JsonScalar::Str(s) => s.clone(),
        _ => String::new(),
    }
}

/// Whether a JSON flag is set (`as_bool() == Some(true)` or `as_str() == Some("1")`).
pub fn flag_set_of(f: &JsonScalar) -> (b: bool)
    ensures
        b == flag_set(*f),
{
    match f {
        JsonScalar::Bool(b) => *b,
        JsonScalar::Str(s) => {
            let v = chars_of(s.as_str());
            chars_eq_str(v.as_slice(), "1")
        },
        JsonScalar::Other => false,
    }
}

/// Whether a JSON field is the string `lit`.
fn is_text(f: &JsonScalar, lit: &str) -> (b: bool)
    ensures
        b == is_text_field(*f, lit@),
{
    match f {
        JsonScalar::Str(s) => {
            let v = chars_of(s.as_str());
            chars_eq_str(v.as_slice(), lit)
        },
        _ => false,
    }
}

// ───────────────────────────── drives ─────────────────────────────

/// A drive that can be backed up to or formatted.
#[derive(Debug, Clone)]
pub struct Drive {
    pub device: String,
    pub label: Option<String>,
    pub uuid: Option<String>,
    pub fstype: Option<String>,
    pub size: Option<String>,
    pub mountpoint: Option<String>,
    pub is_encrypted: bool,
    /// For an unlocked LUKS volume, the device of its encrypted partition.
    pub luks_parent: Option<String>,
    pub model: Option<String>,
    pub vendor: Option<String>,
    pub tran: Option<String>,
    pub dev_type: String,
}

/// What a drive says, as plain values.
pub struct DriveView {
    pub device: Seq<char>,
    pub label: Option<Seq<char>>,
    pub uuid: Option<Seq<char>>,
    pub fstype: Option<Seq<char>>,
    pub size: Option<Seq<char>>,
    pub mountpoint: Option<Seq<char>>,
    pub is_encrypted: bool,
    pub luks_parent: Option<Seq<char>>,
    pub model: Option<Seq<char>>,
    pub vendor: Option<Seq<char>>,
    pub tran: Option<Seq<char>>,
    pub dev_type: Seq<char>,
}

pub open spec fn opt_view(o: Option<String>) -> Option<Seq<char>> {
    match o {
        Some(s) => Some(s@),
        None => None,
    }
}

impl View for Drive {
    type V = DriveView;

    open spec fn view(&self) -> DriveView {
        DriveView {
            device: self.device@,
            label: opt_view(self.label),
            uuid: opt_view(self.uuid),
            fstype: opt_view(self.fstype),
            size: opt_view(self.size),
            mountpoint: opt_view(self.mountpoint),
            is_encrypted: self.is_encrypted,
            luks_parent: opt_view(self.luks_parent),
            model: opt_view(self.model),
            vendor: opt_view(self.vendor),
            tran: opt_view(self.tran),
            dev_type: self.dev_type@,
        }
    }
}

/// The name made of a drive's vendor and model, each trimmed: both with a
/// space between them, whichever is not blank, or nothing.
pub open spec fn hardware_name_of(vendor: Option<Seq<char>>, model: Option<Seq<char>>) -> Seq<char> {
    let v = trim(
        match vendor {
            Some(s) => s,
            None => seq![],
        },
    );
    let m = trim(
        match model {
            Some(s) => s,
            None => seq![],
        },
    );
    if v.len() > 0 && m.len() > 0 {
        v + seq![' '] + m
    } else if v.len() > 0 {
        v
    } else {
        m
    }
}

/// The name shown for a drive: its label when it has a non-empty one, else
/// its vendor and model when they are not blank, else its device path.
pub open spec fn display_name_of(d: DriveView) -> Seq<char> {
    if d.label matches Some(l) && l.len() > 0 {
        d.label->0
    } else if hardware_name_of(d.vendor, d.model).len() > 0 {
        hardware_name_of(d.vendor, d.model)
    } else {
        d.device
    }
}

fn trimmed_or_empty(s: &Option<String>) -> (t: Vec<char>)
    ensures
        t@ == trim(
            match opt_view(*s) {
                Some(x) => x,
                None => seq![],
            },
        ),
{
    match s {
        Some(x) => trim_str(x.as_str()),
        None => trim_chars(&[]),
    }
}

/// The vendor and model of a drive as one name (see `hardware_name_of`).
pub fn hardware_name(vendor: &Option<String>, model: &Option<String>) -> (s: String)
    ensures
        s@ == hardware_name_of(opt_view(*vendor), opt_view(*model)),
{
    let v = trimmed_or_empty(vendor);
    let m = trimmed_or_empty(model);
    let mut out: Vec<char> = Vec::new();
    if v.len() > 0 && m.len() > 0 {
        push_chars(&mut out, v.as_slice());
        out.push(' ');
        push_chars(&mut out, m.as_slice());
        assert(out@ =~= v@ + seq![' '] + m@);
    } else if v.len() > 0 {
        push_chars(&mut out, v.as_slice());
        assert(out@ =~= v@);
    } else {
        push_chars(&mut out, m.as_slice());
        assert(out@ =~= m@);
    }
    string_of(out.as_slice())
}

impl Drive {
    /// Whether the drive has a mount point.
    pub fn is_mounted(&self) -> (b: bool)
        ensures
            b == self.mountpoint is Some,
    {
        self.mountpoint.is_some()
    }

    /// The name shown for the drive (see `display_name_of`).
    pub fn display_name(&self) -> (s: String)
        ensures
            s@ == display_name_of(self@),
    {
        if let Some(label) = &self.label {
            if !label.as_str().is_empty() {
                return label.clone();
            }
        }
        let hw = hardware_name(&self.vendor, &self.model);
        if !hw.as_str().is_empty() {
            return hw;
        }
        self.device.clone()
    }
}

// ───────────────────────────── choosing drives ─────────────────────────────

/// The model, vendor and transport of the disk a device belongs to.
pub struct DiskMeta {
    pub model: Option<String>,
    pub vendor: Option<String>,
    pub tran: Option<String>,
}

pub struct MetaView {
    pub model: Option<Seq<char>>,
    pub vendor: Option<Seq<char>>,
    pub tran: Option<Seq<char>>,
}

impl View for DiskMeta {
    type V = MetaView;

    open spec fn view(&self) -> MetaView {
        MetaView { model: opt_view(self.model), vendor: opt_view(self.vendor), tran: opt_view(self.tran) }
    }
}

/// The disk details a device itself reports.
pub open spec fn meta_of(dev: BlockDevice) -> MetaView {
    MetaView { model: text_field(dev.model), vendor: text_field(dev.vendor), tran: text_field(dev.tran) }
}

/// Whether a device has a non-empty list of children.
pub open spec fn has_children(dev: BlockDevice) -> bool {
    match dev.children {
        Some(kids) => kids@.len() > 0,
        None => false,
    }
}

/// Whether one of the device's children is a LUKS mapping (`type` `crypt`).
pub open spec fn has_crypt_child(dev: BlockDevice) -> bool {
    match dev.children {
        Some(kids) => exists|i: int|
            0 <= i < kids@.len() && is_text_field((#[trigger] kids@[i]).dev_type, "crypt"@),
        None => false,
    }
}

/// The drive a device is listed as, or nothing. A device is listed when it is
/// removable itself or below a removable device (`hotplug`), has a path, and
/// is none of: a disk with partitions (its partitions are listed), a LUKS
/// mapping on a device that is not itself removable, or a partition whose
/// LUKS volume is unlocked (the mapping is listed instead).
pub open spec fn own_entry(
    dev: BlockDevice,
    hotplug: bool,
    parent_hotplug: bool,
    meta: MetaView,
    parent_device: Option<Seq<char>>,
) -> Seq<DriveView> {
    let ty = text_or_empty(dev.dev_type);
    if !hotplug || (ty == "disk"@ && has_children(dev)) || (ty == "crypt"@ && !parent_hotplug) || (ty
        == "part"@ && has_crypt_child(dev)) || text_or_empty(dev.path).len() == 0 {
        seq![]
    } else {
        seq![
            DriveView {
                device: text_or_empty(dev.path),
                label: text_field(dev.label),
                uuid: text_field(dev.uuid),
                fstype: text_field(dev.fstype),
                size: text_field(dev.size),
                mountpoint: text_field(dev.mountpoint),
                is_encrypted: text_field(dev.fstype) == Some("crypto_LUKS"@) || ty == "crypt"@,
                luks_parent: if ty == "crypt"@ {
                    parent_device
                } else {
                    None
                },
                model: meta.model,
                vendor: meta.vendor,
                tran: meta.tran,
                dev_type: ty,
            },
        ]
    }
}

/// The drives of a device and the devices below it, children first, in order.
pub open spec fn listed(
    dev: BlockDevice,
    parent_hotplug: bool,
    parent_meta: MetaView,
    parent_device: Option<Seq<char>>,
) -> Seq<DriveView>
    decreases dev, 0nat,
{
    let hotplug = flag_set(dev.hotplug) || parent_hotplug;
    let ty = text_or_empty(dev.dev_type);
    let meta = if ty == "disk"@ {
        meta_of(dev)
    } else {
        parent_meta
    };
    let below = match dev.children {
        Some(kids) => listed_all(kids@, hotplug, meta, Some(text_or_empty(dev.path))),
        None => seq![],
    };
    below + own_entry(dev, hotplug, parent_hotplug, meta, parent_device)
}

/// The drives of each device of `devs` in turn.
pub open spec fn listed_all(
    devs: Seq<BlockDevice>,
    parent_hotplug: bool,
    parent_meta: MetaView,
    parent_device: Option<Seq<char>>,
) -> Seq<DriveView>
    decreases devs, devs.len(),
{
    if devs.len() == 0 {
        seq![]
    } else {
        listed_all(devs.subrange(0, devs.len() - 1), parent_hotplug, parent_meta, parent_device)
            + listed(devs[devs.len() - 1], parent_hotplug, parent_meta, parent_device)
    }
}

/// The removable drives of lsblk's `blockdevices` list.
pub open spec fn removable_drives(devs: Seq<BlockDevice>) -> Seq<DriveView> {
    listed_all(devs, false, MetaView { model: None, vendor: None, tran: None }, None)
}

/// The views of the drives of `v`.
pub open spec fn drive_views(v: Seq<Drive>) -> Seq<DriveView> {
    Seq::new(v.len(), |i: int| v[i]@)
}

fn has_crypt_child_of(dev: &BlockDevice) -> (b: bool)
    ensures
        b == has_crypt_child(*dev),
{
    match &dev.children {
        Some(kids) => {
            let mut i: usize = 0;
            while i < kids.len()
                invariant
                    dev.children == Some(*kids),
                    i <= kids@.len(),
                    forall|j: int|
                        0 <= j < i ==> !is_text_field((#[trigger] kids@[j]).dev_type, "crypt"@),
                decreases kids@.len() - i,
            {
                if is_text(&kids[i].dev_type, "crypt") {
                    assert(is_text_field(kids@[i as int].dev_type, "crypt"@));
                    assert(dev.children == Some(*kids));
                    assert(has_crypt_child(*dev));
                    return true;
                }
                i += 1;
            }
            false
        },
        None => false,
    }
}

fn copy_opt(o: &Option<String>) -> (r: Option<String>)
    ensures
        opt_view(r) == opt_view(*o),
{
    match o {
        Some(s) => Some(s.clone()),
        None => None,
    }
}

/// Appends the drive a device is listed as, if any (see `own_entry`).
fn push_own_entry(
    dev: &BlockDevice,
    hotplug: bool,
    parent_hotplug: bool,
    meta: &DiskMeta,
    parent_device: &Option<String>,
    out: &mut Vec<Drive>,
)
    ensures
        drive_views(final(out)@) == drive_views(old(out)@) + own_entry(
            *dev,
            hotplug,
            parent_hotplug,
            meta@,
            opt_view(*parent_device),
        ),
{
    let ty = text_or_empty_of(&dev.dev_type);
    let tyv = chars_of(ty.as_str());
    let is_disk = chars_eq_str(tyv.as_slice(), "disk");
    let is_crypt = chars_eq_str(tyv.as_slice(), "crypt");
    let is_part = chars_eq_str(tyv.as_slice(), "part");
    let kids_nonempty = match &dev.children {
        Some(k) => k.len() > 0,
        None => false,
    };
    let device = text_or_empty_of(&dev.path);
    if !hotplug || (is_disk && kids_nonempty) || (is_crypt && !parent_hotplug) || (is_part
        && has_crypt_child_of(dev)) || device.as_str().is_empty() {
        assert(drive_views(out@) =~= drive_views(old(out)@) + seq![]);
        return;
    }
    let fstype = text_field_of(&dev.fstype);
    let is_luks = match &fstype {
        Some(f) => {
            let fv = chars_of(f.as_str());
            chars_eq_str(fv.as_slice(), "crypto_LUKS")
        },
        None => false,
    };
    let luks_parent = if is_crypt {
        copy_opt(parent_device)
    } else {
        None
    };
    let d = Drive {
        device,
        label: text_field_of(&dev.label),
        uuid: text_field_of(&dev.uuid),
        fstype,
        size: text_field_of(&dev.size),
        mountpoint: text_field_of(&dev.mountpoint),
        is_encrypted: is_luks || is_crypt,
        luks_parent,
        model: copy_opt(&meta.model),
        vendor: copy_opt(&meta.vendor),
        tran: copy_opt(&meta.tran),
        dev_type: ty,
    };
    let ghost dv = d@;
    out.push(d);
    assert(drive_views(out@) =~= drive_views(old(out)@).push(dv));
}

/// Appends the drives of `dev` and the devices below it (see `listed`).
pub fn collect_drives(
    dev: &BlockDevice,
    parent_hotplug: bool,
    parent_meta: &DiskMeta,
    parent_device: &Option<String>,
    out: &mut Vec<Drive>,
)
    ensures
        drive_views(final(out)@) == drive_views(old(out)@) + listed(
            *dev,
            parent_hotplug,
            parent_meta@,
            opt_view(*parent_device),
        ),
    decreases dev, 0nat,
{
    let hotplug = flag_set_of(&dev.hotplug) || parent_hotplug;
    let is_disk = is_text(&dev.dev_type, "disk");
    let meta = if is_disk {
        DiskMeta {
            model: text_field_of(&dev.model),
            vendor: text_field_of(&dev.vendor),
            tran: text_field_of(&dev.tran),
        }
    } else {
        DiskMeta {
            model: copy_opt(&parent_meta.model),
            vendor: copy_opt(&parent_meta.vendor),
            tran: copy_opt(&parent_meta.tran),
        }
    };
    proof {
        reveal_strlit("disk");
        assert("disk"@.len() == 4);
        assert(is_disk == (text_or_empty(dev.dev_type) == "disk"@));
        if is_disk {
            assert(meta@.model == meta_of(*dev).model);
            assert(meta@.vendor == meta_of(*dev).vendor);
            assert(meta@.tran == meta_of(*dev).tran);
        }
    }
    assert(meta@ == (if text_or_empty(dev.dev_type) == "disk"@ {
        meta_of(*dev)
    } else {
        parent_meta@
    }));
    let ghost start = drive_views(out@);
    match &dev.children {
        Some(kids) => {
            let path = Some(text_or_empty_of(&dev.path));
            collect_all(kids, hotplug, &meta, &path, out);
        },
        None => {},
    }
    let ghost mid = drive_views(out@);
    push_own_entry(dev, hotplug, parent_hotplug, &meta, parent_device, out);
    assert(drive_views(out@) =~= start + listed(
        *dev,
        parent_hotplug,
        parent_meta@,
        opt_view(*parent_device),
    ));
}

/// Appends the drives of each device of `devs` in turn (see `listed_all`).
pub fn collect_all(
    devs: &Vec<BlockDevice>,
    parent_hotplug: bool,
    parent_meta: &DiskMeta,
    parent_device: &Option<String>,
    out: &mut Vec<Drive>,
)
    ensures
        drive_views(final(out)@) == drive_views(old(out)@) + listed_all(
            devs@,
            parent_hotplug,
            parent_meta@,
            opt_view(*parent_device),
        ),
    decreases devs@, devs@.len(),
{
    let ghost start = drive_views(out@);
    let mut i: usize = 0;
    while i < devs.len()
        invariant
            i <= devs@.len(),
            drive_views(out@) == start + listed_all(
                devs@.subrange(0, i as int),
                parent_hotplug,
                parent_meta@,
                opt_view(*parent_device),
            ),
        decreases devs@.len() - i,
    {
        collect_drives(&devs[i], parent_hotplug, parent_meta, parent_device, out);
        let ghost pre = devs@.subrange(0, i + 1);
        assert(pre.subrange(0, pre.len() - 1) =~= devs@.subrange(0, i as int));
        assert(pre[pre.len() - 1] == devs@[i as int]);
        i += 1;
    }
    assert(devs@.subrange(0, devs@.len() as int) =~= devs@);
}

/// The removable drives among the devices of lsblk's `blockdevices` list.
pub fn drives_from_lsblk(devices: &Vec<BlockDevice>) -> (drives: Vec<Drive>)
    ensures
        drive_views(drives@) == removable_drives(devices@),
{
    let mut out: Vec<Drive> = Vec::new();
    let meta = DiskMeta { model: None, vendor: None, tran: None };
    collect_all(devices, false, &meta, &None, &mut out);
    assert(drive_views(out@) =~= removable_drives(devices@));
    out
}

// ───────────────────────────── reading lsblk's output ─────────────────────────────

#[verifier::external_type_specification]
#[verifier::external_body]
pub struct ExJsonValue(serde_json::Value);

/// A JSON value as lsblk's output is read: strings and booleans as they are,
/// arrays and objects with what they hold (an object lists each member once),
/// anything else (`null`, a number) as `Other`.
pub enum JsonNode {
    Str(String),
    Bool(bool),
    Array(Vec<JsonNode>),
    Object(Vec<(String, JsonNode)>),
    Other,
}

/// What serde_json reads from `bytes`: the value, when they are a JSON text.
pub uninterp spec fn json_text_value(bytes: Seq<u8>) -> Option<JsonNode>;

/// `serde_json::from_slice` into a `serde_json::Value`, taken over as a
/// `JsonNode`. Its result is named: the same bytes give the same value. What
/// value a text gives (the JSON grammar) is not spelled out.
#[verifier::external_body]
pub(crate) fn parse_json(bytes: &[u8]) -> (v: Option<JsonNode>)
    ensures
        v == json_text_value(bytes@),
{
    match serde_json::from_slice::<serde_json::Value>(bytes) {
        Ok(v) => Some(json_node(&v)),
        Err(_) => None,
    }
}

/// A `serde_json::Value` as a `JsonNode`, variant by variant; it converts
/// for `parse_json` and is called from nowhere else.
#[verifier::external_body]
fn json_node(v: &serde_json::Value) -> JsonNode {
    match v {
        serde_json::Value::String(s) => JsonNode::Str(s.clone()),
        serde_json::Value::Bool(b) => JsonNode::Bool(*b),
        serde_json::Value::Array(items) => {
            let mut out = Vec::new();
            for x in items { out.push(json_node(x)); }
            JsonNode::Array(out)
        },
        serde_json::Value::Object(members) => {
            let mut out = Vec::new();
            for (k, x) in members { out.push((k.clone(), json_node(x))); }
            JsonNode::Object(out)
        },
        _ => JsonNode::Other,
    }
}

/// The member `key` among the members of an object from the `i`-th on.
pub open spec fn member_from(ms: Seq<(String, JsonNode)>, key: Seq<char>, i: int) -> Option<JsonNode>
    decreases ms.len() - i,
{
    if i < 0 || i >= ms.len() {
        None
    } else if ms[i].0@ == key {
        Some(ms[i].1)
    } else {
        member_from(ms, key, i + 1)
    }
}

/// The member `key` of a JSON object; nothing when there is none or the
/// value is no object.
pub open spec fn member(j: Option<JsonNode>, key: Seq<char>) -> Option<JsonNode> {
    match j {
        Some(JsonNode::Object(ms)) => member_from(ms@, key, 0),
        _ => None,
    }
}

/// The element `i` of a JSON array; nothing when there is none or the value
/// is no array.
pub open spec fn element(j: Option<JsonNode>, i: int) -> Option<JsonNode> {
    match j {
        Some(JsonNode::Array(items)) => if 0 <= i < items@.len() {
            Some(items@[i])
        } else {
            None
        },
        _ => None,
    }
}

/// A JSON value as the drive logic reads a field: a string, a boolean, or
/// anything else, a missing field included.
pub open spec fn scalar_of(j: Option<JsonNode>) -> JsonScalar {
    match j {
        Some(JsonNode::Str(s)) => JsonScalar::Str(s),
        Some(JsonNode::Bool(b)) => JsonScalar::Bool(b),
        _ => JsonScalar::Other,
    }
}

/// The member `key` of `v` (see `member`).
pub(crate) fn json_member<'a>(v: &'a JsonNode, key: &str) -> (r: Option<&'a JsonNode>)
    ensures
        match r {
            Some(x) => member(Some(*v), key@) == Some(*x),
            None => member(Some(*v), key@) is None,
        },
{
    match v {
        JsonNode::Object(ms) => {
            let mut i: usize = 0;
            while i < ms.len()
                invariant
                    i <= ms@.len(),
                    member(Some(*v), key@) == member_from(ms@, key@, i as int),
                decreases ms@.len() - i,
            {
                let k = chars_of(ms[i].0.as_str());
                if chars_eq_str(k.as_slice(), key) {
                    return Some(&ms[i].1);
                }
                i += 1;
            }
            None
        },
        _ => None,
    }
}

/// The element `i` of `v` (see `element`).
pub(crate) fn json_element(v: &JsonNode, i: usize) -> (r: Option<&JsonNode>)
    ensures
        match r {
            Some(x) => element(Some(*v), i as int) == Some(*x),
            None => element(Some(*v), i as int) is None,
        },
{
    match v {
        JsonNode::Array(items) => if i < items.len() {
            Some(&items[i])
        } else {
            None
        },
        _ => None,
    }
}

/// The field `key` of `v` as the drive logic reads it (see `scalar_of`).
pub(crate) fn scalar_member(v: &JsonNode, key: &str) -> (s: JsonScalar)
    ensures
        s == scalar_of(member(Some(*v), key@)),
{
    match json_member(v, key) {
        Some(JsonNode::Str(s)) => JsonScalar::Str(s.clone()),
        Some(JsonNode::Bool(b)) => JsonScalar::Bool(*b),
        _ => JsonScalar::Other,
    }
}

/// Whether `d` is the entry of lsblk's device tree that `j` gives, read
/// `depth` levels deep: each field is the member of that name (`type` for
/// `dev_type`), and `children`, where `j` has an array there and a level is
/// left to read, holds its entries.
pub open spec fn device_read(d: BlockDevice, j: JsonNode, depth: nat) -> bool
    decreases depth, 0nat,
{
    let o = Some(j);
    &&& d.path == scalar_of(member(o, "path"@))
    &&& d.label == scalar_of(member(o, "label"@))
    &&& d.uuid == scalar_of(member(o, "uuid"@))
    &&& d.fstype == scalar_of(member(o, "fstype"@))
    &&& d.size == scalar_of(member(o, "size"@))
    &&& d.mountpoint == scalar_of(member(o, "mountpoint"@))
    &&& d.hotplug == scalar_of(member(o, "hotplug"@))
    &&& d.dev_type == scalar_of(member(o, "type"@))
    &&& d.vendor == scalar_of(member(o, "vendor"@))
    &&& d.model == scalar_of(member(o, "model"@))
    &&& d.tran == scalar_of(member(o, "tran"@))
    &&& if depth == 0 {
        d.children is None
    } else {
        match member(o, "children"@) {
            Some(JsonNode::Array(kids)) => d.children matches Some(cs) && devices_read(
                cs@,
                kids@,
                (depth - 1) as nat,
            ),
            _ => d.children is None,
        }
    }
}

/// Whether `ds` are the entries that the JSON values `js` give, one for one
/// (see `device_read`).
pub open spec fn devices_read(ds: Seq<BlockDevice>, js: Seq<JsonNode>, depth: nat) -> bool
    decreases depth, 1nat,
{
    &&& ds.len() == js.len()
    &&& forall|i: int| 0 <= i < ds.len() ==> device_read(#[trigger] ds[i], js[i], depth)
}

/// One entry of lsblk's device tree, with the devices below it, read
/// `depth_left` levels deep.
fn device_of(v: &JsonNode, depth_left: usize) -> (d: BlockDevice)
    ensures
        device_read(d, *v, depth_left as nat),
    decreases depth_left, 0nat,
{
    let children = if depth_left == 0 {
        None
    } else {
        match json_member(v, "children") {
            Some(JsonNode::Array(kids)) => Some(devices_of(kids, depth_left - 1)),
            _ => None,
        }
    };
    BlockDevice {
        path: scalar_member(v, "path"),
        label: scalar_member(v, "label"),
        uuid: scalar_member(v, "uuid"),
        fstype: scalar_member(v, "fstype"),
        size: scalar_member(v, "size"),
        mountpoint: scalar_member(v, "mountpoint"),
        hotplug: scalar_member(v, "hotplug"),
        dev_type: scalar_member(v, "type"),
        vendor: scalar_member(v, "vendor"),
        model: scalar_member(v, "model"),
        tran: scalar_member(v, "tran"),
        children,
    }
}

/// The entries that a JSON array of lsblk devices gives (see `device_of`).
fn devices_of(items: &Vec<JsonNode>, depth_left: usize) -> (devs: Vec<BlockDevice>)
    ensures
        devices_read(devs@, items@, depth_left as nat),
    decreases depth_left, 1nat,
{
    let mut out: Vec<BlockDevice> = Vec::new();
    let mut i: usize = 0;
    while i < items.len()
        invariant
            i <= items@.len(),
            out@.len() == i,
            forall|k: int| 0 <= k < i ==> device_read(#[trigger] out@[k], items@[k], depth_left as nat),
        decreases items@.len() - i,
    {
        out.push(device_of(&items[i], depth_left));
        i += 1;
    }
    out
}

/// The devices that lsblk's JSON value `json` lists under `blockdevices`,
/// each with the devices below it, read `depth` levels deep; `None` when
/// that member is not an array.
pub fn tree_of_json(json: &JsonNode, depth: usize) -> (tree: Option<Vec<BlockDevice>>)
    ensures
        match member(Some(*json), "blockdevices"@) {
            Some(JsonNode::Array(items)) => tree matches Some(devs) && devices_read(
                devs@,
                items@,
                depth as nat,
            ),
            _ => tree is None,
        },
{
    match json_member(json, "blockdevices") {
        Some(JsonNode::Array(items)) => Some(devices_of(items, depth)),
        _ => None,
    }
}

/// The device tree of lsblk's JSON output: `None` when the output is not a
/// JSON text, and otherwise what `tree_of_json` reads from its value. The
/// tree is read as deep as the output is long, and no JSON text nests deeper
/// than that.
pub fn lsblk_tree(stdout: &[u8]) -> (tree: Option<Option<Vec<BlockDevice>>>)
    ensures
        match json_text_value(stdout@) {
            None => tree is None,
            Some(j) => match member(Some(j), "blockdevices"@) {
                Some(JsonNode::Array(items)) => tree matches Some(Some(devs)) && devices_read(
                    devs@,
                    items@,
                    stdout@.len(),
                ),
                _ => tree matches Some(None),
            },
        },
{
    match parse_json(stdout) {
        None => None,
        Some(json) => Some(tree_of_json(&json, stdout.len())),
    }
}

/// The message when lsblk's output could not be read.
pub open spec fn lsblk_unreadable() -> Seq<char> {
    "failed to parse lsblk JSON"@
}

/// The removable drives that lsblk's device tree gives (see `lsblk_tree`):
/// an error when the output was not JSON, none when it listed no array of
/// devices, and otherwise those of `drives_from_lsblk`.
pub fn drives_from_tree(tree: Option<Option<Vec<BlockDevice>>>) -> (r: Result<Vec<Drive>, String>)
    ensures
        match tree {
            None => r matches Err(e) && e@ == lsblk_unreadable(),
            Some(None) => r matches Ok(v) && v@.len() == 0,
            Some(Some(devs)) => r matches Ok(v) && drive_views(v@) == removable_drives(devs@),
        },
{
    match tree {
        None => {
            let mut v: Vec<char> = Vec::new();
            push_str(&mut v, "failed to parse lsblk JSON");
            Err(string_of(v.as_slice()))
        },
        Some(None) => Ok(Vec::new()),
        Some(Some(devs)) => Ok(drives_from_lsblk(&devs)),
    }
}

// ───────────────────────────── what the listing promises ─────────────────────────────

/// What every listed drive satisfies: it has a device path, it is marked
/// encrypted exactly when it is a LUKS container or an unlocked LUKS mapping,
/// and only a mapping names the device it was unlocked from.
pub open spec fn consistent_drive(d: DriveView) -> bool {
    &&& d.device.len() > 0
    &&& d.is_encrypted == (d.fstype == Some("crypto_LUKS"@) || d.dev_type == "crypt"@)
    &&& (d.luks_parent is Some ==> d.dev_type == "crypt"@)
}

/// Whether a device or one below it is removable.
pub open spec fn any_hotplug(dev: BlockDevice) -> bool
    decreases dev, 0nat,
{
    flag_set(dev.hotplug) || match dev.children {
        Some(kids) => any_hotplug_all(kids@),
        None => false,
    }
}

/// Whether one of `devs`, or a device below one of them, is removable.
pub open spec fn any_hotplug_all(devs: Seq<BlockDevice>) -> bool
    decreases devs, devs.len(),
{
    if devs.len() == 0 {
        false
    } else {
        any_hotplug_all(devs.subrange(0, devs.len() - 1)) || any_hotplug(devs[devs.len() - 1])
    }
}

proof fn lemma_listed_consistent(
    dev: BlockDevice,
    ph: bool,
    meta: MetaView,
    pd: Option<Seq<char>>,
)
    ensures
        forall|i: int|
            0 <= i < listed(dev, ph, meta, pd).len() ==> consistent_drive(
                #[trigger] listed(dev, ph, meta, pd)[i],
            ),
    decreases dev, 0nat,
{
    let hotplug = flag_set(dev.hotplug) || ph;
    let ty = text_or_empty(dev.dev_type);
    let m = if ty == "disk"@ {
        meta_of(dev)
    } else {
        meta
    };
    let below = match dev.children {
        Some(kids) => {
            lemma_listed_all_consistent(kids@, hotplug, m, Some(text_or_empty(dev.path)));
            listed_all(kids@, hotplug, m, Some(text_or_empty(dev.path)))
        },
        None => seq![],
    };
    let own = own_entry(dev, hotplug, ph, m, pd);
    assert(listed(dev, ph, meta, pd) == below + own);
    assert forall|i: int| 0 <= i < (below + own).len() implies consistent_drive(
        #[trigger] (below + own)[i],
    ) by {
        if i < below.len() {
            assert((below + own)[i] == below[i]);
        } else {
            assert((below + own)[i] == own[i - below.len()]);
        }
    }
}

proof fn lemma_listed_all_consistent(
    devs: Seq<BlockDevice>,
    ph: bool,
    meta: MetaView,
    pd: Option<Seq<char>>,
)
    ensures
        forall|i: int|
            0 <= i < listed_all(devs, ph, meta, pd).len() ==> consistent_drive(
                #[trigger] listed_all(devs, ph, meta, pd)[i],
            ),
    decreases devs, devs.len(),
{
    if devs.len() > 0 {
        lemma_listed_all_consistent(devs.subrange(0, devs.len() - 1), ph, meta, pd);
        lemma_listed_consistent(devs[devs.len() - 1], ph, meta, pd);
        let a = listed_all(devs.subrange(0, devs.len() - 1), ph, meta, pd);
        let b = listed(devs[devs.len() - 1], ph, meta, pd);
        assert(listed_all(devs, ph, meta, pd) == a + b);
        assert forall|i: int| 0 <= i < (a + b).len() implies consistent_drive(#[trigger] (a + b)[i]) by {
            if i < a.len() {
                assert((a + b)[i] == a[i]);
            } else {
                assert((a + b)[i] == b[i - a.len()]);
            }
        }
    }
}

/// Every drive offered has a device path, is marked encrypted exactly when it
/// is a LUKS container or an unlocked LUKS mapping, and names a LUKS parent
/// only when it is such a mapping.
pub proof fn listed_drives_are_consistent(devices: Seq<BlockDevice>)
    ensures
        forall|i: int|
            0 <= i < removable_drives(devices).len() ==> consistent_drive(
                #[trigger] removable_drives(devices)[i],
            ),
{
    lemma_listed_all_consistent(devices, false, MetaView { model: None, vendor: None, tran: None }, None);
}

proof fn lemma_fixed_listed(dev: BlockDevice, meta: MetaView, pd: Option<Seq<char>>)
    requires
        !any_hotplug(dev),
    ensures
        listed(dev, false, meta, pd) == Seq::<DriveView>::empty(),
    decreases dev, 0nat,
{
    let ty = text_or_empty(dev.dev_type);
    let m = if ty == "disk"@ {
        meta_of(dev)
    } else {
        meta
    };
    match dev.children {
        Some(kids) => {
            lemma_fixed_listed_all(kids@, m, Some(text_or_empty(dev.path)));
        },
        None => {},
    }
    assert(listed(dev, false, meta, pd) =~= Seq::<DriveView>::empty());
}

proof fn lemma_fixed_listed_all(devs: Seq<BlockDevice>, meta: MetaView, pd: Option<Seq<char>>)
    requires
        !any_hotplug_all(devs),
    ensures
        listed_all(devs, false, meta, pd) == Seq::<DriveView>::empty(),
    decreases devs, devs.len(),
{
    if devs.len() > 0 {
        lemma_fixed_listed_all(devs.subrange(0, devs.len() - 1), meta, pd);
        lemma_fixed_listed(devs[devs.len() - 1], meta, pd);
        assert(listed_all(devs, false, meta, pd) =~= Seq::<DriveView>::empty());
    }
}

/// Only removable drives are offered: when no device in lsblk's tree is
/// marked hotplug, no drive is listed at all.
pub proof fn fixed_disks_are_never_listed(devices: Seq<BlockDevice>)
    requires
        !any_hotplug_all(devices),
    ensures
        removable_drives(devices).len() == 0,
{
    lemma_fixed_listed_all(devices, MetaView { model: None, vendor: None, tran: None }, None);
}

// ───────────────────────────── device names ─────────────────────────────

/// The first partition of a disk: `p1` after a name that ends in a digit
/// (`/dev/nvme0n1p1`), `1` otherwise (`/dev/sdb1`).
pub open spec fn first_partition(disk: Seq<char>) -> Seq<char> {
    if disk.len() > 0 && is_digit(disk.last()) {
        disk + "p1"@
    } else {
        disk + "1"@
    }
}

/// The device of the first partition of `disk`.
pub fn partition_path(disk: &str) -> (p: String)
    ensures
        p@ == first_partition(disk@),
{
    let mut v = chars_of(disk);
    if v.len() > 0 && ascii_digit(v[v.len() - 1]) {
        push_str(&mut v, "p1");
    } else {
        push_str(&mut v, "1");
    }
    string_of(v.as_slice())
}

/// How udisks2 writes a character of a device name in an object path: ASCII
/// letters, digits and `_` stay, anything else becomes `_`.
pub open spec fn object_path_char(c: char) -> char {
    if is_ascii_alnum(c) || c == '_' {
        c
    } else {
        '_'
    }
}

/// A device name without its `/dev/` prefix.
pub open spec fn without_dev(name: Seq<char>) -> Seq<char> {
    if starts_with(name, "/dev/"@) {
        name.skip(5)
    } else {
        name
    }
}

/// The udisks2 D-Bus object path of the block device named `name`.
pub open spec fn udisks2_path(name: Seq<char>) -> Seq<char> {
    let n = without_dev(name);
    "/org/freedesktop/UDisks2/block_devices/"@ + Seq::new(n.len(), |i: int| object_path_char(n[i]))
}

/// Appends the udisks2 object path of the device named `name`.
pub fn push_udisks2_path(out: &mut Vec<char>, name: &str)
    ensures
        final(out)@ == old(out)@ + udisks2_path(name@),
{
    let v = chars_of(name);
    proof {
        reveal_strlit("/dev/");
    }
    let n = if starts_with_str(v.as_slice(), "/dev/") {
        suffix(v.as_slice(), 5)
    } else {
        v
    };
    push_str(out, "/org/freedesktop/UDisks2/block_devices/");
    let ghost base = out@;
    let mut i: usize = 0;
    while i < n.len()
        invariant
            i <= n@.len(),
            out@ == base + Seq::new(i as nat, |k: int| object_path_char(n@[k])),
        decreases n@.len() - i,
    {
        let c = n[i];
        if ascii_alnum(c) || c == '_' {
            out.push(c);
        } else {
            out.push('_');
        }
        assert(out@ =~= base + Seq::new((i + 1) as nat, |k: int| object_path_char(n@[k])));
        i += 1;
    }
    assert(out@ =~= old(out)@ + udisks2_path(name@));
}

/// The udisks2 object path of `device`, from the path it resolves to when
/// symbolic links are followed (`resolved`, when that succeeded) or from the
/// name as given.
pub fn udisks2_obj_path(device: &str, resolved: &Option<String>) -> (p: String)
    ensures
        p@ == udisks2_path(
            match resolved {
                Some(r) => r@,
                None => device@,
            },
        ),
{
    let mut out: Vec<char> = Vec::new();
    match resolved {
        Some(r) => push_udisks2_path(&mut out, r.as_str()),
        None => push_udisks2_path(&mut out, device),
    }
    string_of(out.as_slice())
}

/// Object paths are well formed: after the udisks2 prefix they hold only
/// ASCII letters, digits and `_`.
pub proof fn object_paths_are_plain(name: Seq<char>)
    ensures
        starts_with(udisks2_path(name), "/org/freedesktop/UDisks2/block_devices/"@),
        forall|i: int|
            "/org/freedesktop/UDisks2/block_devices/"@.len() <= i < udisks2_path(name).len() ==> ({
                let c = #[trigger] udisks2_path(name)[i];
                is_ascii_alnum(c) || c == '_'
            }),
{
    let p = "/org/freedesktop/UDisks2/block_devices/"@;
    assert(udisks2_path(name).take(p.len() as int) =~= p);
}

// ───────────────────────────── unlocking ─────────────────────────────

/// The message for a failed unlock: udisks2 errors that mean the passphrase
/// did not open the volume become `Wrong passphrase`, any other error is
/// reported as it is.
pub open spec fn unlock_failure(err: Seq<char>) -> Seq<char> {
    if contains(err, "No key available"@) || contains(err, "Failed to activate"@) || contains(
        err,
        "Operation not permitted"@,
    ) {
        "Wrong passphrase"@
    } else {
        "Unlock failed: "@ + err
    }
}

/// The message shown when unlocking failed with the D-Bus error text `err`.
pub fn unlock_failure_message(err: &str) -> (m: String)
    ensures
        m@ == unlock_failure(err@),
{
    let e = chars_of(err);
    let mut out: Vec<char> = Vec::new();
    if contains_str(e.as_slice(), "No key available") || contains_str(
        e.as_slice(),
        "Failed to activate",
    ) || contains_str(e.as_slice(), "Operation not permitted") {
        push_str(&mut out, "Wrong passphrase");
    } else {
        push_str(&mut out, "Unlock failed: ");
        push_chars(&mut out, e.as_slice());
    }
    string_of(out.as_slice())
}

/// The device named by udisks2's `PreferredDevice` property: the bytes as
/// UTF-8 (nothing when they are not valid UTF-8) without trailing NULs.
pub open spec fn preferred_device(bytes: Seq<u8>) -> Seq<char> {
    trim_end_char(
        if valid_utf8(bytes) {
            decode_utf8(bytes)
        } else {
            seq![]
        },
        '\0',
    )
}

/// The device named by a `PreferredDevice` property value.
pub fn preferred_device_name(bytes: &[u8]) -> (d: String)
    ensures
        d@ == preferred_device(bytes@),
{
    let text = match utf8_decode(bytes) {
        Some(s) => chars_of(s.as_str()),
        None => Vec::new(),
    };
    let t = trim_end_char_exec(text.as_slice(), '\0');
    string_of(t.as_slice())
}

// ───────────────────────────── udisksctl ─────────────────────────────

/// The arguments of `udisksctl <verb>` on `device`, never asking the user.
pub open spec fn udisksctl_arg_list(verb: Seq<char>, device: Seq<char>) -> Seq<Seq<char>> {
    seq![verb, "--no-user-interaction"@, "-b"@, device]
}

/// The arguments of `udisksctl <verb>` on `device`.
pub fn udisksctl_args(verb: &str, device: &str) -> (args: Vec<String>)
    ensures
        crate::text::views_of(args@) == udisksctl_arg_list(verb@, device@),
{
    let mut args: Vec<String> = Vec::new();
    args.push(crate::backup::owned(verb));
    args.push(crate::backup::owned("--no-user-interaction"));
    args.push(crate::backup::owned("-b"));
    args.push(crate::backup::owned(device));
    assert(crate::text::views_of(args@) =~= udisksctl_arg_list(verb@, device@));
    args
}

/// The error of a failed `udisksctl <verb>`: the verb and its trimmed error output.
pub open spec fn udisksctl_failure(verb: Seq<char>, stderr: Seq<char>) -> Seq<char> {
    "udisksctl "@ + verb + ": "@ + trim(stderr)
}

/// The error message of a failed `udisksctl <verb>`.
pub fn udisksctl_failure_message(verb: &str, stderr: &str) -> (m: String)
    ensures
        m@ == udisksctl_failure(verb@, stderr@),
{
    let mut out: Vec<char> = Vec::new();
    push_str(&mut out, "udisksctl ");
    push_str(&mut out, verb);
    push_str(&mut out, ": ");
    let t = trim_str(stderr);
    push_chars(&mut out, t.as_slice());
    assert(out@ =~= udisksctl_failure(verb@, stderr@));
    string_of(out.as_slice())
}


/// Whether some device in the tree of `dev`, `dev` itself included, is of
/// type `disk`.
pub open spec fn any_disk(dev: BlockDevice) -> bool
    decreases dev, 0nat,
{
    is_text_field(dev.dev_type, "disk"@) || match dev.children {
        Some(kids) => any_disk_all(kids@),
        None => false,
    }
}

/// Whether some device in the trees of `devs` is of type `disk`.
pub open spec fn any_disk_all(devs: Seq<BlockDevice>) -> bool
    decreases devs, devs.len(),
{
    if devs.len() == 0 {
        false
    } else {
        any_disk_all(devs.subrange(0, devs.len() - 1)) || any_disk(devs[devs.len() - 1])
    }
}

/// Whether every drive of `ds` carries the model, vendor and transport `m`.
pub open spec fn all_carry(ds: Seq<DriveView>, m: MetaView) -> bool {
    forall|i: int|
        0 <= i < ds.len() ==> (#[trigger] ds[i]).model == m.model && ds[i].vendor == m.vendor
            && ds[i].tran == m.tran
}

proof fn lemma_concat_carry(a: Seq<DriveView>, b: Seq<DriveView>, m: MetaView)
    requires
        all_carry(a, m),
        all_carry(b, m),
    ensures
        all_carry(a + b, m),
{
    assert forall|i: int| 0 <= i < (a + b).len() implies #[trigger] (a + b)[i].model == m.model
        && (a + b)[i].vendor == m.vendor && (a + b)[i].tran == m.tran by {
        if i < a.len() {
            assert((a + b)[i] == a[i]);
        } else {
            assert((a + b)[i] == b[i - a.len()]);
        }
    }
}

proof fn lemma_no_disk_keeps_details(dev: BlockDevice, ph: bool, m: MetaView, pd: Option<Seq<char>>)
    requires
        !any_disk(dev),
    ensures
        all_carry(listed(dev, ph, m, pd), m),
    decreases dev, 0nat,
{
    reveal_strlit("disk");
    let hp = flag_set(dev.hotplug) || ph;
    assert(!is_text_field(dev.dev_type, "disk"@));
    assert("disk"@.len() == 4);
    assert(text_or_empty(dev.dev_type) != "disk"@);
    let below = match dev.children {
        Some(kids) => {
            lemma_no_disk_keeps_details_all(kids@, hp, m, Some(text_or_empty(dev.path)));
            listed_all(kids@, hp, m, Some(text_or_empty(dev.path)))
        },
        None => seq![],
    };
    let own = own_entry(dev, hp, ph, m, pd);
    assert(all_carry(own, m));
    lemma_concat_carry(below, own, m);
    assert(listed(dev, ph, m, pd) == below + own);
}

proof fn lemma_no_disk_keeps_details_all(
    devs: Seq<BlockDevice>,
    ph: bool,
    m: MetaView,
    pd: Option<Seq<char>>,
)
    requires
        !any_disk_all(devs),
    ensures
        all_carry(listed_all(devs, ph, m, pd), m),
    decreases devs, devs.len(),
{
    if devs.len() > 0 {
        let front = devs.subrange(0, devs.len() - 1);
        lemma_no_disk_keeps_details_all(front, ph, m, pd);
        lemma_no_disk_keeps_details(devs[devs.len() - 1], ph, m, pd);
        lemma_concat_carry(listed_all(front, ph, m, pd), listed(devs[devs.len() - 1], ph, m, pd), m);
    }
}

/// Every drive carries the model, vendor and transport of the disk it is on,
/// never those of a partition or a LUKS mapping: below a disk with no further
/// disk in its tree, each drive listed has the disk's own details (those it
/// reports as non-empty text); and devices with no disk above or among them
/// give drives with no such details at all.
pub proof fn drives_carry_their_disks_details(disk: BlockDevice, others: Seq<BlockDevice>)
    requires
        is_text_field(disk.dev_type, "disk"@),
        match disk.children {
            Some(kids) => !any_disk_all(kids@),
            None => true,
        },
    ensures
        all_carry(
            removable_drives(seq![disk]),
            MetaView {
                model: text_field(disk.model),
                vendor: text_field(disk.vendor),
                tran: text_field(disk.tran),
            },
        ),
        !any_disk_all(others) ==> all_carry(
            removable_drives(others),
            MetaView { model: None, vendor: None, tran: None },
        ),
{
    let none = MetaView { model: None, vendor: None, tran: None };
    let dm = MetaView {
        model: text_field(disk.model),
        vendor: text_field(disk.vendor),
        tran: text_field(disk.tran),
    };
    if !any_disk_all(others) {
        lemma_no_disk_keeps_details_all(others, false, none, None);
    }
    let hp = flag_set(disk.hotplug);
    assert(text_or_empty(disk.dev_type) == "disk"@);
    let below = match disk.children {
        Some(kids) => {
            lemma_no_disk_keeps_details_all(kids@, hp, dm, Some(text_or_empty(disk.path)));
            listed_all(kids@, hp, dm, Some(text_or_empty(disk.path)))
        },
        None => seq![],
    };
    let own = own_entry(disk, hp, false, dm, None);
    assert(all_carry(own, dm));
    lemma_concat_carry(below, own, dm);
    assert(listed(disk, false, none, None) == below + own);
    let one = seq![disk];
    assert(one.subrange(0, 0) =~= Seq::<BlockDevice>::empty());
    assert(listed_all(one, false, none, None) =~= listed_all(one.subrange(0, 0), false, none, None)
        + listed(disk, false, none, None));
}

} // verus!
