//! Data collected about a container's configuration, and the pure parts of
//! collecting it: parsers for procfs/sysfs contents and the decisions made on them.

use vstd::prelude::*;

pub mod caps;
pub mod cgroup;
pub mod chroot;
pub mod device;
pub mod fs;
pub mod seccomp;
pub mod user_ns;
pub mod uts;

verus! {

/// Kinds of Linux namespaces.
#[derive(Clone, Copy, Debug, PartialEq, Eq, Hash, Structural)]
pub enum NsType {
    Mount,
    Cgroup,
    Uts,
    Ipc,
    User,
    Pid,
    Network,
    Time,
}

/// All namespace kinds, in their canonical order.
pub open spec fn all_ns_types() -> Seq<NsType> {
    seq![
        NsType::Mount,
        NsType::Cgroup,
        NsType::Uts,
        NsType::Ipc,
        NsType::User,
        NsType::Pid,
        NsType::Network,
        NsType::Time,
    ]
}

impl NsType {
    /// Position of the kind in the canonical order.
    pub open spec fn index(self) -> int {
        match self {
            NsType::Mount => 0,
            NsType::Cgroup => 1,
            NsType::Uts => 2,
            NsType::Ipc => 3,
            NsType::User => 4,
            NsType::Pid => 5,
            NsType::Network => 6,
            NsType::Time => 7,
        }
    }

    /// The kind's protocol name, such as `TYPE_USER`.
    pub open spec fn spec_str_name(self) -> Seq<char> {
        match self {
            NsType::Mount => "TYPE_MOUNT"@,
            NsType::Cgroup => "TYPE_CGROUP"@,
            NsType::Uts => "TYPE_UTS"@,
            NsType::Ipc => "TYPE_IPC"@,
            NsType::User => "TYPE_USER"@,
            NsType::Pid => "TYPE_PID"@,
            NsType::Network => "TYPE_NETWORK"@,
            NsType::Time => "TYPE_TIME"@,
        }
    }

    /// The kind's variant name, as a debug listing shows it, such as `User`.
    pub open spec fn spec_debug_name(self) -> Seq<char> {
        match self {
            NsType::Mount => "Mount"@,
            NsType::Cgroup => "Cgroup"@,
            NsType::Uts => "Uts"@,
            NsType::Ipc => "Ipc"@,
            NsType::User => "User"@,
            NsType::Pid => "Pid"@,
            NsType::Network => "Network"@,
            NsType::Time => "Time"@,
        }
    }

    /// The name of the kind's entry under `/proc/<pid>/ns/`.
    pub open spec fn spec_proc_name(self) -> Seq<char> {
        match self {
            NsType::Mount => "mnt"@,
            NsType::Cgroup => "cgroup"@,
            NsType::Uts => "uts"@,
            NsType::Ipc => "ipc"@,
            NsType::User => "user"@,
            NsType::Pid => "pid"@,
            NsType::Network => "net"@,
            NsType::Time => "time"@,
        }
    }

    /// The kinds in canonical order.
    pub fn all() -> (res: Vec<NsType>)
        ensures
            res@ == all_ns_types(),
    {
        vec![
            NsType::Mount,
            NsType::Cgroup,
            NsType::Uts,
            NsType::Ipc,
            NsType::User,
            NsType::Pid,
            NsType::Network,
            NsType::Time,
        ]
    }

    pub fn as_str_name(&self) -> (res: &'static str)
        ensures
            res@ == self.spec_str_name(),
    {
        match self {
            NsType::Mount => "TYPE_MOUNT",
            NsType::Cgroup => "TYPE_CGROUP",
            NsType::Uts => "TYPE_UTS",
            NsType::Ipc => "TYPE_IPC",
            NsType::User => "TYPE_USER",
            NsType::Pid => "TYPE_PID",
            NsType::Network => "TYPE_NETWORK",
            NsType::Time => "TYPE_TIME",
        }
    }

    pub fn debug_name(&self) -> (res: &'static str)
        ensures
            res@ == self.spec_debug_name(),
    {
        match self {
            NsType::Mount => "Mount",
            NsType::Cgroup => "Cgroup",
            NsType::Uts => "Uts",
            NsType::Ipc => "Ipc",
            NsType::User => "User",
            NsType::Pid => "Pid",
            NsType::Network => "Network",
            NsType::Time => "Time",
        }
    }

    pub fn proc_name(&self) -> (res: &'static str)
        ensures
            res@ == self.spec_proc_name(),
    {
        match self {
            NsType::Mount => "mnt",
            NsType::Cgroup => "cgroup",
            NsType::Uts => "uts",
            NsType::Ipc => "ipc",
            NsType::User => "user",
            NsType::Pid => "pid",
            NsType::Network => "net",
            NsType::Time => "time",
        }
    }
}

/// Identifier of a namespace: device and inode of its `/proc/<pid>/ns/` entry.
#[derive(Clone, Copy, Debug, PartialEq, Eq, Hash, Structural)]
pub struct NsId {
    pub st_dev: u64,
    pub st_ino: u64,
}

/// A namespace of a process: its kind, its identifier and that of the user
/// namespace that owns it.
#[derive(Clone, Copy, Debug, PartialEq, Eq, Structural)]
pub struct NsInfo {
    pub ns_type: NsType,
    pub id: Option<NsId>,
    pub owner: Option<NsId>,
}

/// The namespaces that a container unshares, and those it shares with the host.
#[derive(Clone, Debug)]
pub struct NsConfig {
    pub unshared: Vec<NsInfo>,
    pub shared_host: Vec<NsInfo>,
}

/// The namespaces of `container` that are the host's: those whose
/// identifier is the one at the same position of `host`.
pub open spec fn shared_with_host(host: Seq<NsId>, container: Seq<NsInfo>) -> Seq<NsInfo>
    decreases container.len(),
{
    if container.len() == 0 {
        Seq::empty()
    } else {
        let rest = shared_with_host(host.drop_last(), container.drop_last());
        if container.last().id == Some(host.last()) { rest.push(container.last()) } else { rest }
    }
}

/// The namespaces of `container` that are not the host's.
pub open spec fn unshared_from_host(host: Seq<NsId>, container: Seq<NsInfo>) -> Seq<NsInfo>
    decreases container.len(),
{
    if container.len() == 0 {
        Seq::empty()
    } else {
        let rest = unshared_from_host(host.drop_last(), container.drop_last());
        if container.last().id == Some(host.last()) { rest } else { rest.push(container.last()) }
    }
}

impl NsConfig {
    /// Sorts the namespaces `container` of a container process by whether
    /// they are the host's: `host[k]` identifies the host process's namespace
    /// of the kind of `container[k]`. The order of `container` is kept.
    pub fn from_namespaces(host: &Vec<NsId>, container: &Vec<NsInfo>) -> (res: NsConfig)
        requires
            host@.len() == container@.len(),
        ensures
            res.shared_host@ == shared_with_host(host@, container@),
            res.unshared@ == unshared_from_host(host@, container@),
    {
        let mut shared_host: Vec<NsInfo> = Vec::new();
        let mut unshared: Vec<NsInfo> = Vec::new();
        let mut i: usize = 0;
        while i < container.len()
            invariant
                host@.len() == container@.len(),
                0 <= i <= container@.len(),
                shared_host@ == shared_with_host(host@.take(i as int), container@.take(i as int)),
                unshared@ == unshared_from_host(host@.take(i as int), container@.take(i as int)),
            decreases container@.len() - i,
        {
            assert(host@.take(i + 1).drop_last() =~= host@.take(i as int));
            assert(container@.take(i + 1).drop_last() =~= container@.take(i as int));
            if container[i].id == Some(host[i]) {
                shared_host.push(container[i]);
            } else {
                unshared.push(container[i]);
            }
            i = i + 1;
        }
        assert(host@.take(i as int) =~= host@);
        assert(container@.take(i as int) =~= container@);
        NsConfig { unshared, shared_host }
    }
}

/// Whether `v` holds each kind at most once, in canonical order.
pub open spec fn ns_canonical(v: Seq<NsType>) -> bool {
    forall|i: int, j: int| 0 <= i < j < v.len() ==> #[trigger] v[i].index() < #[trigger] v[j].index()
}

/// Whether `t` is in `v`.
pub fn ns_contains(v: &Vec<NsType>, t: NsType) -> (res: bool)
    ensures
        res == v@.contains(t),
{
    let mut i: usize = 0;
    while i < v.len()
        invariant
            0 <= i <= v.len(),
            forall|j: int| 0 <= j < i ==> v@[j] != t,
        decreases v.len() - i,
    {
        if v[i] == t {
            return true;
        }
        i = i + 1;
    }
    false
}

/// The kinds among the first `n` of the canonical order that satisfy `pred`.
pub open spec fn ns_select_upto(pred: spec_fn(NsType) -> bool, n: int) -> Seq<NsType>
    decreases n,
{
    if n <= 0 {
        Seq::empty()
    } else {
        let t = all_ns_types()[n - 1];
        ns_select_upto(pred, n - 1) + if pred(t) { seq![t] } else { Seq::empty() }
    }
}

/// The kinds that satisfy `pred`, in canonical order.
pub open spec fn ns_select(pred: spec_fn(NsType) -> bool) -> Seq<NsType> {
    ns_select_upto(pred, 8)
}

pub proof fn lemma_all_ns_types()
    ensures
        all_ns_types().len() == 8,
        forall|k: int| 0 <= k < 8 ==> (#[trigger] all_ns_types()[k]).index() == k,
        forall|t: NsType| 0 <= t.index() < 8 && all_ns_types()[t.index()] == t,
{
}

proof fn lemma_ns_select_upto(pred: spec_fn(NsType) -> bool, n: int)
    requires
        0 <= n <= 8,
    ensures
        forall|t: NsType| ns_select_upto(pred, n).contains(t) <==> (pred(t) && t.index() < n),
        forall|i: int| 0 <= i < ns_select_upto(pred, n).len() ==> (#[trigger] ns_select_upto(pred, n)[i]).index() < n,
        ns_canonical(ns_select_upto(pred, n)),
    decreases n,
{
    lemma_all_ns_types();
    if n > 0 {
        lemma_ns_select_upto(pred, n - 1);
        let prev = ns_select_upto(pred, n - 1);
        let t = all_ns_types()[n - 1];
        let cur = ns_select_upto(pred, n);
        assert forall|u: NsType| cur.contains(u) <==> (pred(u) && u.index() < n) by {
            if pred(u) && u.index() < n {
                if u.index() == n - 1 {
                    assert(u == t);
                    assert(cur[cur.len() - 1] == u);
                } else {
                    assert(prev.contains(u));
                    let k = choose|k: int| 0 <= k < prev.len() && prev[k] == u;
                    assert(cur[k] == u);
                }
            }
            if cur.contains(u) {
                let k = choose|k: int| 0 <= k < cur.len() && cur[k] == u;
                if k < prev.len() {
                    assert(prev[k] == u);
                    assert(prev.contains(u));
                } else {
                    assert(pred(t));
                    assert(cur[k] == t);
                }
            }
        }
        assert forall|i: int| 0 <= i < cur.len() implies (#[trigger] cur[i]).index() < n by {
            if i < prev.len() {
                assert(cur[i] == prev[i]);
            }
        }
        assert forall|i: int, j: int| 0 <= i < j < cur.len() implies #[trigger] cur[i].index() < #[trigger] cur[j].index() by {
            if j < prev.len() {
                assert(cur[i] == prev[i]);
                assert(cur[j] == prev[j]);
            } else {
                assert(cur[i] == prev[i]);
            }
        }
    }
}

/// What `ns_select` holds.
pub proof fn lemma_ns_select(pred: spec_fn(NsType) -> bool)
    ensures
        forall|t: NsType| ns_select(pred).contains(t) <==> pred(t),
        ns_canonical(ns_select(pred)),
{
    lemma_ns_select_upto(pred, 8);
    lemma_all_ns_types();
}

/// Where the configuration was collected.
#[derive(Clone, Debug)]
pub struct HostInfo {
    pub pids_container: Vec<i32>,
    pub pids_ref_container: Vec<i32>,
    pub pid_host: i32,
}

/// A container's configuration, as collected from the host and from inside
/// the container.
#[derive(Clone, Debug)]
pub struct Config {
    pub ns_config: Option<NsConfig>,
    pub caps_config: Option<caps::CapsConfig>,
    pub cgroup_config: Option<cgroup::CgroupConfig>,
    pub fs_config: Option<fs::FsConfig>,
    pub user_ns_config: Option<user_ns::UserNsConfig>,
    pub seccomp_config: Option<seccomp::SeccompConfig>,
    pub uts_config_host: Option<uts::UtsConfig>,
    pub uts_config_container: Option<uts::UtsConfig>,
    pub chroot_config: Option<chroot::ChrootConfig>,
    pub device_config: Option<device::DeviceConfig>,
    pub info: Option<HostInfo>,
}

} // verus!
