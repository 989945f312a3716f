//! Device nodes that a container can reach.

use vstd::prelude::*;
use crate::Error;
use crate::text::{decimal, push_decimal, split_on, split_on_exec, parse_unsigned, parse_unsigned_exec, str_eq, views};

verus! {

/// Kinds of special files.
#[derive(Clone, Copy, Debug, PartialEq, Eq, Hash, Structural)]
pub enum DeviceType {
    Block,
    Char,
    Socket,
    Fifo,
}

impl DeviceType {
    /// The kind's name, such as `char`.
    pub open spec fn spec_name(self) -> Seq<char> {
        match self {
            DeviceType::Block => "block"@,
            DeviceType::Char => "char"@,
            DeviceType::Socket => "socket"@,
            DeviceType::Fifo => "fifo"@,
        }
    }

    pub fn name(&self) -> (res: &'static str)
        ensures
            res@ == self.spec_name(),
    {
        match self {
            DeviceType::Block => "block",
            DeviceType::Char => "char",
            DeviceType::Socket => "socket",
            DeviceType::Fifo => "fifo",
        }
    }
}

/// Kind and device numbers of a special file.
#[derive(Clone, Copy, Debug, PartialEq, Eq, Hash, Structural)]
pub struct DeviceId {
    pub dev_type: DeviceType,
    pub major: u32,
    pub minor: u32,
}

/// A special file and the access that the collecting process had to it.
#[derive(Clone, Debug)]
pub struct Device {
    pub file: String,
    pub id: Option<DeviceId>,
    pub permissions: u32,
    pub user: u32,
    pub group: u32,
    pub read_access: bool,
    pub write_access: bool,
}

/// The special files found under `/dev`, and those that `mknod` could create.
#[derive(Clone, Debug)]
pub struct DeviceConfig {
    pub dev_devices: Vec<Device>,
    pub mknod_devices: Vec<Device>,
}


/// The file type bits of a file mode.
pub open spec fn file_type_bits(mode: u32) -> u32 {
    mode & 0o170000u32
}

/// The special file kind that a file mode gives, if any.
pub open spec fn device_type_of_mode(mode: u32) -> Option<DeviceType> {
    let t = file_type_bits(mode);
    if t == 0o060000u32 {
        Some(DeviceType::Block)
    } else if t == 0o020000u32 {
        Some(DeviceType::Char)
    } else if t == 0o140000u32 {
        Some(DeviceType::Socket)
    } else if t == 0o010000u32 {
        Some(DeviceType::Fifo)
    } else {
        None
    }
}

impl DeviceType {
    /// The special file kind of a file mode.
    pub fn from_mode(mode: u32) -> (res: Result<DeviceType, Error>)
        ensures
            match device_type_of_mode(mode) {
                Some(t) => res == Ok::<DeviceType, Error>(t),
                None => res matches Err(Error::ConversionFailed(m)) && m@ == "unknown device type"@,
            },
    {
        let t = mode & 0o170000u32;
        if t == 0o060000u32 {
            Ok(DeviceType::Block)
        } else if t == 0o020000u32 {
            Ok(DeviceType::Char)
        } else if t == 0o140000u32 {
            Ok(DeviceType::Socket)
        } else if t == 0o010000u32 {
            Ok(DeviceType::Fifo)
        } else {
            Err(Error::ConversionFailed(String::from_str("unknown device type")))
        }
    }
}

/// The major number of a device number, as the C library encodes it.
pub open spec fn dev_major(dev: u64) -> u32 {
    (((dev & 0x0000_0000_000f_ff00u64) >> 8u64) | ((dev & 0xffff_f000_0000_0000u64) >> 32u64)) as u32
}

/// The minor number of a device number, as the C library encodes it.
pub open spec fn dev_minor(dev: u64) -> u32 {
    (((dev & 0x0000_0000_0000_00ffu64) >> 0u64) | ((dev & 0x0000_0fff_fff0_0000u64) >> 12u64)) as u32
}

/// `libc::major`: the major number of a device number.
#[verifier::external_body]
fn major_of(dev: u64) -> (res: u32)
    ensures
        res == dev_major(dev),
{
    libc::major(dev)
}

/// `libc::minor`: the minor number of a device number.
#[verifier::external_body]
fn minor_of(dev: u64) -> (res: u32)
    ensures
        res == dev_minor(dev),
{
    libc::minor(dev)
}

/// What the metadata of a file under `/dev` gives: regular files and
/// directories are no devices, other kinds unknown to the evaluation are an
/// unknown mode, and otherwise the device's kind and numbers.
pub open spec fn device_id_of(mode: u32, rdev: u64) -> Option<Option<DeviceId>> {
    let t = file_type_bits(mode);
    if t == 0o100000u32 || t == 0o040000u32 {
        None
    } else {
        match device_type_of_mode(mode) {
            Some(dt) => Some(Some(DeviceId { dev_type: dt, major: dev_major(rdev), minor: dev_minor(rdev) })),
            None => Some(None),
        }
    }
}

impl Device {
    /// The identifier of the special file at `path` whose mode is `mode` and
    /// whose device number is `rdev`.
    pub fn id_from_metadata(path: &str, mode: u32, rdev: u64) -> (res: Result<DeviceId, Error>)
        ensures
            match device_id_of(mode, rdev) {
                None => res matches Err(Error::DeviceError { path: p, source }) && p@ == path@ && source is None,
                Some(None) => res matches Err(Error::ValueError { msg, val, path: p })
                    && msg@ == "Unkown st_mode"@ && val@ == decimal(mode as nat) && p@ == path@,
                Some(Some(id)) => res == Ok::<DeviceId, Error>(id),
            },
    {
        let file_type = mode & 0o170000u32;
        if file_type == 0o100000u32 || file_type == 0o040000u32 {
            return Err(Error::DeviceError { path: String::from_str(path), source: None });
        }
        let major = major_of(rdev);
        let minor = minor_of(rdev);
        match DeviceType::from_mode(mode) {
            Ok(t) => Ok(DeviceId { dev_type: t, major, minor }),
            Err(_) => {
                let mut val = String::new();
                push_decimal(&mut val, mode as u64);
                Err(Error::ValueError {
                    msg: String::from_str("Unkown st_mode"),
                    val,
                    path: String::from_str(path),
                })
            }
        }
    }

    /// The record of a special file: its permission bits are those of `mode`.
    pub fn from_parts(
        file: String,
        id: DeviceId,
        mode: u32,
        user: u32,
        group: u32,
        read_access: bool,
        write_access: bool,
    ) -> (res: Device)
        ensures
            res.file@ == file@,
            res.id == Some(id),
            res.permissions == mode & 0o777u32,
            res.user == user,
            res.group == group,
            res.read_access == read_access,
            res.write_access == write_access,
    {
        Device { file, id: Some(id), permissions: mode & 0o777u32, user, group, read_access, write_access }
    }
}

impl Device {
    /// The record of the special file at `path`, from its metadata (`mode`,
    /// `rdev`, `user`, `group`) and the access that opening it gave.
    pub fn from_metadata(
        path: &str,
        mode: u32,
        rdev: u64,
        user: u32,
        group: u32,
        read_access: bool,
        write_access: bool,
    ) -> (res: Result<Device, Error>)
        ensures
            match device_id_of(mode, rdev) {
                None => res matches Err(Error::DeviceError { path: p, source }) && p@ == path@ && source is None,
                Some(None) => res matches Err(Error::ValueError { msg, val, path: p })
                    && msg@ == "Unkown st_mode"@ && val@ == decimal(mode as nat) && p@ == path@,
                Some(Some(id)) => res matches Ok(d) && d.file@ == path@ && d.id == Some(id)
                    && d.permissions == mode & 0o777u32 && d.user == user && d.group == group
                    && d.read_access == read_access && d.write_access == write_access,
            },
    {
        let id = Device::id_from_metadata(path, mode, rdev)?;
        Ok(Device::from_parts(String::from_str(path), id, mode, user, group, read_access, write_access))
    }
}

// ---------------------------------------------------------------------------
// Devices that `mknod` can create

/// The largest major number tried.
pub open spec fn probe_major_max() -> nat {
    4096
}

/// The largest minor number tried.
pub open spec fn probe_minor_max() -> nat {
    256
}

/// One node that the search creates: every major number up to 4096, with
/// every minor number up to 256, first as a character device, then as a
/// block device.
#[derive(Clone, Copy, Debug, PartialEq, Eq, Structural)]
pub struct Probe {
    pub major: u64,
    pub minor: u64,
    pub block: bool,
}

impl Probe {
    /// The probe is in the searched range.
    pub open spec fn in_range(self) -> bool {
        self.major <= probe_major_max() && self.minor <= probe_minor_max()
    }

    /// The place of the probe in the order of the search.
    pub open spec fn index(self) -> int {
        (self.major * (probe_minor_max() + 1) + self.minor) * 2 + if self.block { 1int } else { 0int }
    }

    /// The kind of node that the probe creates.
    pub open spec fn spec_kind(self) -> DeviceType {
        if self.block { DeviceType::Block } else { DeviceType::Char }
    }

    pub fn kind(&self) -> (res: DeviceType)
        ensures
            res == self.spec_kind(),
    {
        if self.block { DeviceType::Block } else { DeviceType::Char }
    }

    /// The first node of the search.
    pub fn first() -> (res: Probe)
        ensures
            res.in_range(),
            res.index() == 0,
    {
        Probe { major: 0, minor: 0, block: false }
    }

    /// The node that follows this one in the search, if any.
    pub fn next(&self) -> (res: Option<Probe>)
        requires
            self.in_range(),
        ensures
            match res {
                Some(p) => p.in_range() && p.index() == self.index() + 1,
                None => self.index() == (probe_major_max() + 1) * (probe_minor_max() + 1) * 2 - 1,
            },
    {
        let m = self.major;
        let n = self.minor;
        if !self.block {
            Some(Probe { major: m, minor: n, block: true })
        } else if n < 256 {
            Some(Probe { major: m, minor: n + 1, block: false })
        } else if m < 4096 {
            assert((m + 1) * 257 == m * 257 + 257) by (nonlinear_arith);
            Some(Probe { major: m + 1, minor: 0, block: false })
        } else {
            None
        }
    }

    /// The device identifier of the node.
    pub fn id(&self) -> (res: DeviceId)
        requires
            self.in_range(),
        ensures
            res.dev_type == self.spec_kind(),
            res.major == self.major,
            res.minor == self.minor,
    {
        DeviceId { dev_type: self.kind(), major: self.major as u32, minor: self.minor as u32 }
    }
}

/// The law of the search's order: each node in the range has its own
/// place, and the places run without a gap from the first node to the last.
pub proof fn law_probe_order(p: Probe, q: Probe)
    requires
        p.in_range(),
        q.in_range(),
    ensures
        0 <= p.index() < (probe_major_max() + 1) * (probe_minor_max() + 1) * 2,
        p.index() == q.index() ==> p == q,
{
    if p.index() == q.index() {
        let pb: int = if p.block { 1 } else { 0 };
        let qb: int = if q.block { 1 } else { 0 };
        assert(pb == qb && p.major * 257 + p.minor == q.major * 257 + q.minor) by (nonlinear_arith)
            requires
                (p.major * 257 + p.minor) * 2 + pb == (q.major * 257 + q.minor) * 2 + qb,
                0 <= pb <= 1,
                0 <= qb <= 1;
        assert(p.major == q.major && p.minor == q.minor) by (nonlinear_arith)
            requires
                p.major * 257 + p.minor == q.major * 257 + q.minor,
                p.minor <= 256,
                q.minor <= 256;
    }
}

/// The name of the node that is created for device `kind` with numbers
/// `major` and `minor`: `char_<major>_<minor>` or `block_<major>_<minor>`.
pub open spec fn node_name(kind: DeviceType, major: nat, minor: nat) -> Seq<char> {
    (if kind == DeviceType::Block { "block_"@ } else { "char_"@ }) + decimal(major) + "_"@ + decimal(minor)
}

/// The name of the node created for a block or character device.
pub fn node_name_exec(kind: DeviceType, major: u64, minor: u64) -> (res: String)
    ensures
        res@ == node_name(kind, major as nat, minor as nat),
{
    let mut s = if kind == DeviceType::Block { String::from_str("block_") } else { String::from_str("char_") };
    push_decimal(&mut s, major);
    s.append("_");
    push_decimal(&mut s, minor);
    proof {
        reveal_strlit("block_");
        reveal_strlit("char_");
        reveal_strlit("_");
    }
    s
}

/// The permission bits that a node created for the search gets: read,
/// write and execute for its owner.
pub open spec fn node_permissions() -> u32 {
    0o700
}

/// The record of a node that the search created at `file`, kept where it
/// could be opened for reading or for writing.
pub fn mknod_device(file: String, id: DeviceId, user: u32, group: u32, read_access: bool, write_access: bool) -> (res: Option<Device>)
    ensures
        res is Some <==> (read_access || write_access),
        res matches Some(d) ==> d.file@ == file@ && d.id == Some(id) && d.permissions == node_permissions()
            && d.user == user && d.group == group && d.read_access == read_access && d.write_access == write_access,
{
    if read_access || write_access {
        Some(Device { file, id: Some(id), permissions: 0o700, user, group, read_access, write_access })
    } else {
        None
    }
}

/// The device numbers that an entry name under `/sys/dev/block` or
/// `/sys/dev/char` gives: `<major>:<minor>`, each a `u32`. `None` where the
/// name has no `:` or a number does not parse.
pub open spec fn sys_dev_numbers(name: Seq<char>) -> Option<(nat, nat)> {
    let t = split_on(name, ':');
    if t.len() >= 2 {
        match (parse_unsigned(t[0], 10, 0xffff_ffff), parse_unsigned(t[1], 10, 0xffff_ffff)) {
            (Ok(a), Ok(b)) => Some((a, b)),
            _ => None,
        }
    } else {
        None
    }
}

/// The device identifier of kind `kind` that the entry name `name` under
/// `/sys/dev` gives.
pub fn sys_dev_id(name: &str, kind: DeviceType) -> (res: Option<DeviceId>)
    ensures
        match sys_dev_numbers(name@) {
            Some((a, b)) => res == Some(DeviceId { dev_type: kind, major: a as u32, minor: b as u32 }),
            None => res is None,
        },
        res matches Some(id) ==> sys_dev_numbers(name@) == Some((id.major as nat, id.minor as nat)),
{
    let t = split_on_exec(name, ':');
    if t.len() < 2 {
        return None;
    }
    let a = parse_unsigned_exec(t[0].as_str(), 10, 0xffff_ffff);
    let b = parse_unsigned_exec(t[1].as_str(), 10, 0xffff_ffff);
    match (a, b) {
        (Ok(a), Ok(b)) => Some(DeviceId { dev_type: kind, major: a as u32, minor: b as u32 }),
        _ => None,
    }
}

// ---------------------------------------------------------------------------
// The devices under `/dev`, each once

/// Two records describe the same device node in the same way.
pub open spec fn same_device(a: Device, b: Device) -> bool {
    a.file@ == b.file@ && a.id == b.id && a.permissions == b.permissions && a.user == b.user
        && a.group == b.group && a.read_access == b.read_access && a.write_access == b.write_access
}

fn same_device_exec(a: &Device, b: &Device) -> (res: bool)
    ensures
        res == same_device(*a, *b),
{
    str_eq(a.file.as_str(), b.file.as_str()) && a.id == b.id && a.permissions == b.permissions && a.user == b.user
        && a.group == b.group && a.read_access == b.read_access && a.write_access == b.write_access
}

fn copy_device(d: &Device) -> (res: Device)
    ensures
        same_device(res, *d),
{
    Device {
        file: String::from_str(d.file.as_str()),
        id: d.id,
        permissions: d.permissions,
        user: d.user,
        group: d.group,
        read_access: d.read_access,
        write_access: d.write_access,
    }
}

/// `list` holds a record that describes `d` in the same way.
pub open spec fn has_same_device(list: Seq<Device>, d: Device) -> bool {
    exists|j: int| 0 <= j < list.len() && same_device(#[trigger] list[j], d)
}

fn holds_device(list: &Vec<Device>, d: &Device) -> (res: bool)
    ensures
        res == has_same_device(list@, *d),
{
    let mut k: usize = 0;
    while k < list.len()
        invariant
            0 <= k <= list@.len(),
            forall|j: int| 0 <= j < k ==> !same_device(#[trigger] list@[j], *d),
        decreases list@.len() - k,
    {
        if same_device_exec(&list[k], d) {
            return true;
        }
        k = k + 1;
    }
    false
}

/// The devices of `devs`, each once: no two records kept describe the same
/// device in the same way, every record of `devs` is described by one kept,
/// and every record kept describes one of `devs`.
pub fn unique_devices(devs: &Vec<Device>) -> (res: Vec<Device>)
    ensures
        forall|i: int, j: int| 0 <= i < j < res@.len() ==> !same_device(#[trigger] res@[i], #[trigger] res@[j]),
        forall|i: int| 0 <= i < devs@.len() ==> has_same_device(res@, #[trigger] devs@[i]),
        forall|j: int| 0 <= j < res@.len() ==> has_same_device(devs@, #[trigger] res@[j]),
{
    let mut res: Vec<Device> = Vec::new();
    let mut i: usize = 0;
    while i < devs.len()
        invariant
            0 <= i <= devs@.len(),
            forall|a: int, b: int| 0 <= a < b < res@.len() ==> !same_device(#[trigger] res@[a], #[trigger] res@[b]),
            forall|a: int| 0 <= a < i ==> has_same_device(res@, #[trigger] devs@[a]),
            forall|j: int| 0 <= j < res@.len() ==> has_same_device(devs@, #[trigger] res@[j]),
        decreases devs@.len() - i,
    {
        let ghost before = res@;
        if !holds_device(&res, &devs[i]) {
            let d = copy_device(&devs[i]);
            res.push(d);
            proof {
                assert forall|a: int| 0 <= a < i + 1 implies has_same_device(res@, #[trigger] devs@[a]) by {
                    if a == i {
                        assert(same_device(res@[before.len() as int], devs@[a]));
                    } else {
                        let j = choose|j: int| 0 <= j < before.len() && same_device(#[trigger] before[j], devs@[a]);
                        assert(res@[j] == before[j]);
                    }
                }
                assert forall|j: int| 0 <= j < res@.len() implies has_same_device(devs@, #[trigger] res@[j]) by {
                    if j < before.len() {
                        assert(res@[j] == before[j]);
                    }
                }
            }
        }
        i = i + 1;
    }
    res
}

} // verus!
