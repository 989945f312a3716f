//! Evaluation of a container's configuration: the configuration is sorted into
//! categories, each with the isolation mechanisms in place, the capabilities
//! held and the results of tests.

use vstd::prelude::*;
use crate::c_config::{NsType, NsId, NsInfo, NsConfig, ns_contains, ns_select, ns_select_upto, all_ns_types, lemma_all_ns_types};
use crate::c_config::caps::Capability;
use crate::c_config::device::{Device, DeviceId, DeviceType};
use crate::text::{decimal, push_decimal, views, join, lemma_join_step, push_joined, chars_of};
use crate::c_config::fs::MountNamespace;
use crate::c_config::Config;
use crate::c_config::cgroup::Controller;
use crate::c_config::seccomp::Mode;
use crate::c_config::user_ns::IdMapping;
use crate::text::{has_substring, contains_str, str_eq, path_has_prefix, path_starts_with};
use crate::Error;

verus! {

/// The outcome of a test.
#[derive(Clone, Debug)]
pub struct TestResult {
    pub passed: bool,
    pub valid: bool,
    pub info: Vec<String>,
}

/// The tests that an evaluation runs.
#[derive(Clone, Copy, Debug, PartialEq, Eq, Hash, Structural)]
pub enum TestName {
    ContainerSpecificHostname,
    ContainerSpecificDomainname,
    FlagMatchesHost,
    FlagMatchesRefcontainer,
    DevWhitelistCompliance,
    MknodWhitelistCompliance,
    CpuMaxLimited,
    MemoryMaxLimited,
    RequiredCgroupsControllersActive,
    UserNsMapsToNonRootUser,
    UserNsMappingUnique,
    SeccompEnabled,
}

impl TestName {
    /// The test's key in a report.
    pub open spec fn spec_name(self) -> Seq<char> {
        match self {
            TestName::ContainerSpecificHostname => "container_specific_hostname"@,
            TestName::ContainerSpecificDomainname => "container_specific_domainname"@,
            TestName::FlagMatchesHost => "flag_matches_host"@,
            TestName::FlagMatchesRefcontainer => "flag_matches_refcontainer"@,
            TestName::DevWhitelistCompliance => "dev_whitelist_compliance"@,
            TestName::MknodWhitelistCompliance => "mknod_whitelist_compliance"@,
            TestName::CpuMaxLimited => "cpu_max_limited"@,
            TestName::MemoryMaxLimited => "memory_max_limited"@,
            TestName::RequiredCgroupsControllersActive => ""@,
            TestName::UserNsMapsToNonRootUser => "user_ns_maps_to_non_root_user"@,
            TestName::UserNsMappingUnique => "user_ns_mapping_unique"@,
            TestName::SeccompEnabled => "seccomp_enabled"@,
        }
    }

    pub fn name(&self) -> (res: &'static str)
        ensures
            res@ == self.spec_name(),
    {
        match self {
            TestName::ContainerSpecificHostname => "container_specific_hostname",
            TestName::ContainerSpecificDomainname => "container_specific_domainname",
            TestName::FlagMatchesHost => "flag_matches_host",
            TestName::FlagMatchesRefcontainer => "flag_matches_refcontainer",
            TestName::DevWhitelistCompliance => "dev_whitelist_compliance",
            TestName::MknodWhitelistCompliance => "mknod_whitelist_compliance",
            TestName::CpuMaxLimited => "cpu_max_limited",
            TestName::MemoryMaxLimited => "memory_max_limited",
            TestName::RequiredCgroupsControllersActive => "",
            TestName::UserNsMapsToNonRootUser => "user_ns_maps_to_non_root_user",
            TestName::UserNsMappingUnique => "user_ns_mapping_unique",
            TestName::SeccompEnabled => "seccomp_enabled",
        }
    }
}

/// A test and its outcome.
#[derive(Clone, Debug)]
pub struct NamedTest {
    pub name: TestName,
    pub result: TestResult,
}

/// Namespaces that a category asks for, and those of them that are in place.
#[derive(Clone, Debug)]
pub struct Namespaces {
    pub active: Vec<NsType>,
    pub desired: Vec<NsType>,
}

/// Whether the container's root differs from the host's (`chroot`), and
/// whether the container additionally sees it as `/` (`pivot_root`).
#[derive(Clone, Copy, Debug, PartialEq, Eq, Structural)]
pub struct Chroot {
    pub chroot: bool,
    pub pivot_root: bool,
}

/// Whether cgroup controllers are active for the container.
#[derive(Clone, Copy, Debug, PartialEq, Eq, Structural)]
pub struct CgroupIsolation {
    pub cgroup: bool,
}

/// The isolation mechanisms of a category.
#[derive(Clone, Debug)]
pub struct IsolationMechanisms {
    pub namespaces: Option<Namespaces>,
    pub chroot: Option<Chroot>,
    pub cgroup: Option<CgroupIsolation>,
}

/// One category of the evaluation.
#[derive(Clone, Debug)]
pub struct Category {
    pub isolation: Option<IsolationMechanisms>,
    pub capabilities: Vec<Capability>,
    pub tests: Vec<NamedTest>,
    pub description: String,
}

/// The outcome of the first test named `name`, if there is one.
pub open spec fn find_test(tests: Seq<NamedTest>, name: TestName) -> Option<TestResult>
    decreases tests.len(),
{
    if tests.len() == 0 {
        None
    } else if tests[0].name == name {
        Some(tests[0].result)
    } else {
        find_test(tests.drop_first(), name)
    }
}

impl Category {
    /// The outcome of the test named `name`.
    pub fn test(&self, name: TestName) -> (res: Option<&TestResult>)
        ensures
            match find_test(self.tests@, name) {
                Some(t) => res == Some(&t),
                None => res is None,
            },
    {
        let mut i: usize = 0;
        assert(self.tests@.skip(0) =~= self.tests@);
        while i < self.tests.len()
            invariant
                0 <= i <= self.tests@.len(),
                find_test(self.tests@, name) == find_test(self.tests@.skip(i as int), name),
            decreases self.tests@.len() - i,
        {
            assert(self.tests@.skip(i as int).drop_first() =~= self.tests@.skip(i + 1));
            if self.tests[i].name == name {
                return Some(&self.tests[i].result);
            }
            i = i + 1;
        }
        None
    }
}

/// The categories of an evaluation.
#[derive(Clone, Debug)]
pub struct Categories {
    pub network: Category,
    pub filesystem: Category,
    pub devices: Category,
    pub resource_control: Category,
    pub process_control: Category,
    pub access_control: Category,
    pub time: Category,
    pub global: Category,
}

impl Categories {
    /// The categories, in the order in which they are reported.
    pub open spec fn seq(self) -> Seq<Category> {
        seq![
            self.network,
            self.filesystem,
            self.devices,
            self.resource_control,
            self.process_control,
            self.access_control,
            self.time,
            self.global,
        ]
    }
}

/// Where the configuration came from.
#[derive(Clone, Debug)]
pub struct EvalInfo {
    pub pids_container: Vec<i32>,
    pub pids_ref_container: Vec<i32>,
    pub pid_host: i32,
    pub container_root_host: String,
}

/// The evaluation of a container's configuration.
#[derive(Clone, Debug)]
pub struct EvalResult {
    pub unprivileged: bool,
    pub categories: Categories,
    pub info: Option<EvalInfo>,
}

// ---------------------------------------------------------------------------
// Helpers

/// Whether some entry of `ns_vec` is of kind `ns_type`.
pub fn contains_ns_type(ns_vec: &[NsInfo], ns_type: NsType) -> (res: bool)
    ensures
        res == exists|i: int| 0 <= i < ns_vec@.len() && (#[trigger] ns_vec@[i]).ns_type == ns_type,
{
    let mut i: usize = 0;
    while i < ns_vec.len()
        invariant
            0 <= i <= ns_vec@.len(),
            forall|j: int| 0 <= j < i ==> (#[trigger] ns_vec@[j]).ns_type != ns_type,
        decreases ns_vec@.len() - i,
    {
        if ns_vec[i].ns_type == ns_type {
            return true;
        }
        i = i + 1;
    }
    false
}

/// Whether `cap` is in `cap_set`.
pub fn capability_is_set(cap_set: &[Capability], cap: Capability) -> (res: bool)
    ensures
        res == cap_set@.contains(cap),
{
    let mut i: usize = 0;
    while i < cap_set.len()
        invariant
            0 <= i <= cap_set@.len(),
            forall|j: int| 0 <= j < i ==> cap_set@[j] != cap,
        decreases cap_set@.len() - i,
    {
        if cap_set[i] == cap {
            return true;
        }
        i = i + 1;
    }
    false
}

/// The capabilities of `list` that are in `held`, in the order of `list`.
pub open spec fn caps_held(list: Seq<Capability>, held: Seq<Capability>) -> Seq<Capability>
    decreases list.len(),
{
    if list.len() == 0 {
        Seq::empty()
    } else {
        caps_held(list.drop_last(), held) + if held.contains(list.last()) {
            seq![list.last()]
        } else {
            Seq::empty()
        }
    }
}

fn select_caps(list: &Vec<Capability>, held: &Vec<Capability>) -> (res: Vec<Capability>)
    ensures
        res@ == caps_held(list@, held@),
{
    let mut res: Vec<Capability> = Vec::new();
    let mut i: usize = 0;
    while i < list.len()
        invariant
            0 <= i <= list@.len(),
            res@ == caps_held(list@.take(i as int), held@),
        decreases list@.len() - i,
    {
        assert(list@.take(i + 1).drop_last() =~= list@.take(i as int));
        if capability_is_set(held.as_slice(), list[i]) {
            res.push(list[i]);
        }
        assert(res@ =~= caps_held(list@.take(i + 1), held@));
        i = i + 1;
    }
    assert(list@.take(list@.len() as int) =~= list@);
    res
}

/// The namespaces of a category that asks for the kinds `kinds`, when the
/// kinds `ns_set` are isolated: those asked for, and those of them isolated,
/// each in canonical order.
pub open spec fn category_ns(kinds: Seq<NsType>, ns_set: Seq<NsType>) -> (Seq<NsType>, Seq<NsType>) {
    (
        ns_select(|t: NsType| kinds.contains(t) && ns_set.contains(t)),
        ns_select(|t: NsType| kinds.contains(t)),
    )
}

fn select_namespaces(kinds: &Vec<NsType>, ns_set: &Vec<NsType>) -> (res: Namespaces)
    ensures
        res.active@ == category_ns(kinds@, ns_set@).0,
        res.desired@ == category_ns(kinds@, ns_set@).1,
{
    let ghost pa = |t: NsType| kinds@.contains(t) && ns_set@.contains(t);
    let ghost pd = |t: NsType| kinds@.contains(t);
    let all = NsType::all();
    let mut active: Vec<NsType> = Vec::new();
    let mut desired: Vec<NsType> = Vec::new();
    let mut i: usize = 0;
    while i < all.len()
        invariant
            all@ == all_ns_types(),
            0 <= i <= 8,
            pa == (|t: NsType| kinds@.contains(t) && ns_set@.contains(t)),
            pd == (|t: NsType| kinds@.contains(t)),
            active@ == ns_select_upto(pa, i as int),
            desired@ == ns_select_upto(pd, i as int),
        decreases 8 - i,
    {
        let t = all[i];
        let k = ns_contains(kinds, t);
        if k {
            desired.push(t);
            if ns_contains(ns_set, t) {
                active.push(t);
            }
        }
        assert(active@ =~= ns_select_upto(pa, i + 1));
        assert(desired@ =~= ns_select_upto(pd, i + 1));
        i = i + 1;
    }
    Namespaces { active, desired }
}

// ---------------------------------------------------------------------------
// Namespace ownership

/// The last of `s` of kind `t`, if any.
pub open spec fn last_of_type(s: Seq<NsInfo>, t: NsType) -> Option<NsInfo>
    decreases s.len(),
{
    if s.len() == 0 {
        None
    } else if s.last().ns_type == t {
        Some(s.last())
    } else {
        last_of_type(s.drop_last(), t)
    }
}

/// The first of `s` of kind `t`, if any.
pub open spec fn first_of_type(s: Seq<NsInfo>, t: NsType) -> Option<NsInfo>
    decreases s.len(),
{
    if s.len() == 0 {
        None
    } else if s[0].ns_type == t {
        Some(s[0])
    } else {
        first_of_type(s.drop_first(), t)
    }
}

/// Whether the container has a user namespace of its own.
pub open spec fn has_own_user_ns(cfg: NsConfig) -> bool {
    last_of_type(cfg.unshared@, NsType::User) is Some
}

/// The user namespace that the container's namespaces should be owned by:
/// the container's own, or else the host's.
pub open spec fn reference_user_ns(cfg: NsConfig) -> Option<NsId> {
    if has_own_user_ns(cfg) {
        last_of_type(cfg.unshared@, NsType::User)->0.id
    } else {
        first_of_type(cfg.shared_host@, NsType::User)->0.id
    }
}

/// Whether the kind `t` counts as isolated: the container has a namespace of
/// that kind owned by the reference user namespace; the container's own user
/// namespace always counts.
pub open spec fn ns_isolated(cfg: NsConfig, t: NsType) -> bool {
    (has_own_user_ns(cfg) && t == NsType::User) || (last_of_type(cfg.unshared@, t) is Some
        && last_of_type(cfg.unshared@, t)->0.owner == reference_user_ns(cfg))
}

/// Whether the namespace configuration holds what the evaluation reads.
pub open spec fn ns_config_complete(cfg: NsConfig) -> bool {
    &&& has_own_user_ns(cfg) ==> last_of_type(cfg.unshared@, NsType::User)->0.id is Some
    &&& !has_own_user_ns(cfg) ==> first_of_type(cfg.shared_host@, NsType::User) is Some
        && first_of_type(cfg.shared_host@, NsType::User)->0.id is Some
    &&& forall|t: NsType| #[trigger] last_of_type(cfg.unshared@, t) is Some ==> last_of_type(cfg.unshared@, t)->0.owner is Some
}

fn last_ns_of_type(s: &Vec<NsInfo>, t: NsType) -> (res: Option<NsInfo>)
    ensures
        res == last_of_type(s@, t),
{
    let mut i: usize = s.len();
    assert(s@.take(i as int) =~= s@);
    while i > 0
        invariant
            0 <= i <= s@.len(),
            last_of_type(s@, t) == last_of_type(s@.take(i as int), t),
        decreases i,
    {
        assert(s@.take(i as int).drop_last() =~= s@.take(i - 1));
        assert(s@.take(i as int).last() == s@[i - 1]);
        if s[i - 1].ns_type == t {
            return Some(s[i - 1]);
        }
        i = i - 1;
    }
    None
}

fn first_ns_of_type(s: &Vec<NsInfo>, t: NsType) -> (res: Option<NsInfo>)
    ensures
        res == first_of_type(s@, t),
{
    let mut i: usize = 0;
    assert(s@.skip(0) =~= s@);
    while i < s.len()
        invariant
            0 <= i <= s@.len(),
            first_of_type(s@, t) == first_of_type(s@.skip(i as int), t),
        decreases s@.len() - i,
    {
        assert(s@.skip(i as int).drop_first() =~= s@.skip(i + 1));
        assert(s@.skip(i as int)[0] == s@[i as int]);
        if s[i].ns_type == t {
            return Some(s[i]);
        }
        i = i + 1;
    }
    None
}

/// `last_of_type` finds a namespace exactly when one of that kind is listed,
/// and what it finds is a listed namespace of that kind.
pub proof fn lemma_last_of_type(s: Seq<NsInfo>, t: NsType)
    ensures
        (last_of_type(s, t) is Some) <==> (exists|i: int| 0 <= i < s.len() && (#[trigger] s[i]).ns_type == t),
        last_of_type(s, t) is Some ==> last_of_type(s, t)->0.ns_type == t && s.contains(last_of_type(s, t)->0),
    decreases s.len(),
{
    if s.len() > 0 {
        let r = s.drop_last();
        lemma_last_of_type(r, t);
        if s.last().ns_type == t {
            assert(s[s.len() - 1].ns_type == t);
        } else {
            if exists|i: int| 0 <= i < s.len() && (#[trigger] s[i]).ns_type == t {
                let i = choose|i: int| 0 <= i < s.len() && (#[trigger] s[i]).ns_type == t;
                assert(r[i] == s[i]);
            }
            if last_of_type(r, t) is Some {
                let k = choose|k: int| 0 <= k < r.len() && r[k] == last_of_type(r, t)->0;
                assert(s[k] == r[k]);
            }
        }
    }
}

/// Whether the container has a user namespace of its own, and the namespace
/// kinds that count as isolated, in canonical order. A user namespace of the
/// container's own always counts as isolated.
pub fn isolated_namespaces(cfg: &NsConfig) -> (res: (bool, Vec<NsType>))
    requires
        ns_config_complete(*cfg),
    ensures
        res.0 == has_own_user_ns(*cfg),
        res.0 <==> exists|i: int| 0 <= i < cfg.unshared@.len() && (#[trigger] cfg.unshared@[i]).ns_type == NsType::User,
        res.1@ == ns_select(|t: NsType| ns_isolated(*cfg, t)),
        res.0 ==> res.1@.contains(NsType::User),
        forall|t: NsType|
            #[trigger] res.1@.contains(t) ==> exists|i: int|
                0 <= i < cfg.unshared@.len() && (#[trigger] cfg.unshared@[i]).ns_type == t,
{
    let ghost pred = |t: NsType| ns_isolated(*cfg, t);
    let user_ns = last_ns_of_type(&cfg.unshared, NsType::User);
    let unprivileged = user_ns.is_some();
    let reference: Option<NsId> = match user_ns {
        Some(u) => u.id,
        None => match first_ns_of_type(&cfg.shared_host, NsType::User) {
            Some(h) => h.id,
            None => None,
        },
    };
    assert(reference == reference_user_ns(*cfg));
    let all = NsType::all();
    let mut set: Vec<NsType> = Vec::new();
    let mut i: usize = 0;
    while i < all.len()
        invariant
            all@ == all_ns_types(),
            0 <= i <= 8,
            pred == (|t: NsType| ns_isolated(*cfg, t)),
            unprivileged == has_own_user_ns(*cfg),
            reference == reference_user_ns(*cfg),
            set@ == ns_select_upto(pred, i as int),
        decreases 8 - i,
    {
        let t = all[i];
        let owned = match last_ns_of_type(&cfg.unshared, t) {
            Some(info) => info.owner == reference,
            None => false,
        };
        if (unprivileged && t == NsType::User) || owned {
            set.push(t);
        }
        assert(set@ =~= ns_select_upto(pred, i + 1));
        i = i + 1;
    }
    proof {
        lemma_last_of_type(cfg.unshared@, NsType::User);
        crate::c_config::lemma_ns_select(pred);
        assert forall|t: NsType| #[trigger] set@.contains(t) implies exists|i: int|
            0 <= i < cfg.unshared@.len() && (#[trigger] cfg.unshared@[i]).ns_type == t by {
            lemma_last_of_type(cfg.unshared@, t);
        }
    }
    (unprivileged, set)
}

// ---------------------------------------------------------------------------
// Device whitelists

/// The devices that are allowed: by kind and major number, by exact
/// identifier, and by exact identifier for containers with a user namespace
/// of their own.
#[derive(Clone, Debug)]
pub struct DevicePolicy {
    pub major_whitelist: Vec<(DeviceType, u32)>,
    pub whitelist_general: Vec<DeviceId>,
    pub whitelist_unprivileged: Vec<DeviceId>,
}

/// Whether device `dev` is allowed by `policy`; special files that are
/// neither character nor block devices are not checked.
pub open spec fn dev_allowed(dev: Device, unprivileged: bool, policy: DevicePolicy) -> bool {
    let id = dev.id->0;
    ||| !(id.dev_type == DeviceType::Char || id.dev_type == DeviceType::Block)
    ||| policy.major_whitelist@.contains((id.dev_type, id.major))
    ||| policy.whitelist_general@.contains(id)
    ||| (unprivileged && policy.whitelist_unprivileged@.contains(id))
}

/// How a device that is not allowed is reported, such as `char 1:3 at /dev/null`.
pub open spec fn dev_text(dev: Device) -> Seq<char> {
    let id = dev.id->0;
    id.dev_type.spec_name() + " "@ + decimal(id.major as nat) + ":"@ + decimal(id.minor as nat) + " at "@ + dev.file@
}

/// The reports of the devices of `devs` that are not allowed, in order.
pub open spec fn devs_not_allowed(devs: Seq<Device>, unprivileged: bool, policy: DevicePolicy) -> Seq<Seq<char>>
    decreases devs.len(),
{
    if devs.len() == 0 {
        Seq::empty()
    } else {
        devs_not_allowed(devs.drop_last(), unprivileged, policy) + if dev_allowed(devs.last(), unprivileged, policy) {
            Seq::empty()
        } else {
            seq![dev_text(devs.last())]
        }
    }
}

/// Whether every device of `devs` has an identifier.
pub open spec fn devs_identified(devs: Seq<Device>) -> bool {
    forall|i: int| 0 <= i < devs.len() ==> (#[trigger] devs[i]).id is Some
}

fn contains_major(v: &Vec<(DeviceType, u32)>, x: (DeviceType, u32)) -> (res: bool)
    ensures
        res == v@.contains(x),
{
    let mut i: usize = 0;
    while i < v.len()
        invariant
            0 <= i <= v@.len(),
            forall|j: int| 0 <= j < i ==> v@[j] != x,
        decreases v@.len() - i,
    {
        if v[i].0 == x.0 && v[i].1 == x.1 {
            return true;
        }
        i = i + 1;
    }
    false
}

fn contains_id(v: &Vec<DeviceId>, x: DeviceId) -> (res: bool)
    ensures
        res == v@.contains(x),
{
    let mut i: usize = 0;
    while i < v.len()
        invariant
            0 <= i <= v@.len(),
            forall|j: int| 0 <= j < i ==> v@[j] != x,
        decreases v@.len() - i,
    {
        if v[i] == x {
            return true;
        }
        i = i + 1;
    }
    false
}

/// Every character or block device whose kind and major number are not in
/// the major whitelist, and whose identifier is in neither exact whitelist
/// that applies, is reported; every report is that of such a device; and the
/// report is empty exactly when there is none. Special files of other kinds
/// are never reported.
pub proof fn law_device_reported_iff_unlisted(devs: Seq<Device>, unprivileged: bool, policy: DevicePolicy)
    requires
        devs_identified(devs),
    ensures
        forall|i: int|
            0 <= i < devs.len() && ({
                let id = (#[trigger] devs[i]).id->0;
                &&& (id.dev_type == DeviceType::Char || id.dev_type == DeviceType::Block)
                &&& !policy.major_whitelist@.contains((id.dev_type, id.major))
                &&& !policy.whitelist_general@.contains(id)
                &&& !(unprivileged && policy.whitelist_unprivileged@.contains(id))
            }) ==> devs_not_allowed(devs, unprivileged, policy).contains(dev_text(devs[i])),
        forall|j: int|
            0 <= j < devs_not_allowed(devs, unprivileged, policy).len() ==> exists|i: int|
                0 <= i < devs.len() && #[trigger] devs_not_allowed(devs, unprivileged, policy)[j] == dev_text(devs[i]) && ({
                    let id = (#[trigger] devs[i]).id->0;
                    &&& (id.dev_type == DeviceType::Char || id.dev_type == DeviceType::Block)
                    &&& !policy.major_whitelist@.contains((id.dev_type, id.major))
                    &&& !policy.whitelist_general@.contains(id)
                    &&& !(unprivileged && policy.whitelist_unprivileged@.contains(id))
                }),
        (devs_not_allowed(devs, unprivileged, policy).len() == 0) <==> forall|i: int|
            0 <= i < devs.len() ==> !({
                let id = (#[trigger] devs[i]).id->0;
                &&& (id.dev_type == DeviceType::Char || id.dev_type == DeviceType::Block)
                &&& !policy.major_whitelist@.contains((id.dev_type, id.major))
                &&& !policy.whitelist_general@.contains(id)
                &&& !(unprivileged && policy.whitelist_unprivileged@.contains(id))
            }),
    decreases devs.len(),
{
    if devs.len() > 0 {
        let r = devs.drop_last();
        let n = devs.len() - 1;
        let rep = devs_not_allowed(devs, unprivileged, policy);
        let rep_r = devs_not_allowed(r, unprivileged, policy);
        assert(devs_identified(r)) by {
            assert forall|i: int| 0 <= i < r.len() implies (#[trigger] r[i]).id is Some by {
                assert(r[i] == devs[i]);
            }
        }
        law_device_reported_iff_unlisted(r, unprivileged, policy);
        assert(devs.last() == devs[n]);
        assert forall|j: int| 0 <= j < rep_r.len() implies rep[j] == rep_r[j] by {}
        assert forall|i: int|
            0 <= i < devs.len() && ({
                let id = (#[trigger] devs[i]).id->0;
                &&& (id.dev_type == DeviceType::Char || id.dev_type == DeviceType::Block)
                &&& !policy.major_whitelist@.contains((id.dev_type, id.major))
                &&& !policy.whitelist_general@.contains(id)
                &&& !(unprivileged && policy.whitelist_unprivileged@.contains(id))
            }) implies rep.contains(dev_text(devs[i])) by {
            if i < n {
                assert(r[i] == devs[i]);
                let j = choose|j: int| 0 <= j < rep_r.len() && rep_r[j] == dev_text(r[i]);
                assert(rep[j] == rep_r[j]);
            } else {
                assert(rep[rep.len() - 1] == dev_text(devs[i]));
            }
        }
        assert forall|j: int| 0 <= j < rep.len() implies exists|i: int|
            0 <= i < devs.len() && #[trigger] rep[j] == dev_text(devs[i]) && ({
                let id = (#[trigger] devs[i]).id->0;
                &&& (id.dev_type == DeviceType::Char || id.dev_type == DeviceType::Block)
                &&& !policy.major_whitelist@.contains((id.dev_type, id.major))
                &&& !policy.whitelist_general@.contains(id)
                &&& !(unprivileged && policy.whitelist_unprivileged@.contains(id))
            }) by {
            if j < rep_r.len() {
                let i = choose|i: int|
                    0 <= i < r.len() && rep_r[j] == dev_text(r[i]) && ({
                        let id = (#[trigger] r[i]).id->0;
                        &&& (id.dev_type == DeviceType::Char || id.dev_type == DeviceType::Block)
                        &&& !policy.major_whitelist@.contains((id.dev_type, id.major))
                        &&& !policy.whitelist_general@.contains(id)
                        &&& !(unprivileged && policy.whitelist_unprivileged@.contains(id))
                    });
                assert(r[i] == devs[i]);
            } else {
                assert(rep[j] == dev_text(devs[n]));
            }
        }
        if rep.len() > 0 {
            assert(0 <= 0 < rep.len());
        }
    }
}

/// The test that every device of `devices` is allowed by the whitelists. A
/// character or block device that no whitelist allows is reported and makes
/// the test fail.
pub fn dev_whitelist_compliance(devices: &[Device], unprivileged: bool, policy: &DevicePolicy) -> (res: TestResult)
    requires
        devs_identified(devices@),
    ensures
        views(res.info@) == devs_not_allowed(devices@, unprivileged, *policy),
        res.passed == (devs_not_allowed(devices@, unprivileged, *policy).len() == 0),
        res.valid,
        forall|i: int|
            0 <= i < devices@.len() && ({
                let id = (#[trigger] devices@[i]).id->0;
                &&& (id.dev_type == DeviceType::Char || id.dev_type == DeviceType::Block)
                &&& !policy.major_whitelist@.contains((id.dev_type, id.major))
                &&& !policy.whitelist_general@.contains(id)
                &&& !(unprivileged && policy.whitelist_unprivileged@.contains(id))
            }) ==> !res.passed && views(res.info@).contains(dev_text(devices@[i])),
{
    let mut not_allowed_dev: Vec<String> = Vec::new();
    let mut i: usize = 0;
    while i < devices.len()
        invariant
            0 <= i <= devices@.len(),
            devs_identified(devices@),
            views(not_allowed_dev@) == devs_not_allowed(devices@.take(i as int), unprivileged, *policy),
        decreases devices@.len() - i,
    {
        let dev = &devices[i];
        assert(devices@.take(i + 1).drop_last() =~= devices@.take(i as int));
        assert(devices@.take(i + 1).last() == *dev);
        let id = dev.id.unwrap();
        let checked = id.dev_type == DeviceType::Char || id.dev_type == DeviceType::Block;
        let allowed = !checked || contains_major(&policy.major_whitelist, (id.dev_type, id.major))
            || contains_id(&policy.whitelist_general, id)
            || (unprivileged && contains_id(&policy.whitelist_unprivileged, id));
        assert(allowed == dev_allowed(*dev, unprivileged, *policy));
        let ghost prev = not_allowed_dev@;
        if !allowed {
            let mut text = String::from_str(id.dev_type.name());
            text.append(" ");
            push_decimal(&mut text, id.major as u64);
            text.append(":");
            push_decimal(&mut text, id.minor as u64);
            text.append(" at ");
            text.append(dev.file.as_str());
            assert(text@ =~= dev_text(*dev));
            not_allowed_dev.push(text);
            assert(views(not_allowed_dev@) =~= views(prev).push(dev_text(*dev)));
        }
        assert(views(not_allowed_dev@) =~= devs_not_allowed(devices@.take(i + 1), unprivileged, *policy));
        i = i + 1;
    }
    assert(devices@.take(devices@.len() as int) =~= devices@);
    proof {
        law_device_reported_iff_unlisted(devices@, unprivileged, *policy);
    }
    let passed = not_allowed_dev.len() == 0;
    TestResult { passed, valid: true, info: not_allowed_dev }
}

/// `idx` places the items of `a` in `b`: at increasing positions, each one
/// where an equal item stands.
pub open spec fn places_in<A>(a: Seq<A>, b: Seq<A>, idx: Seq<int>) -> bool {
    &&& idx.len() == a.len()
    &&& forall|i: int| 0 <= i < a.len() ==> 0 <= #[trigger] idx[i] < b.len() && a[i] == b[idx[i]]
    &&& forall|i: int, j: int| 0 <= i < j < idx.len() ==> #[trigger] idx[i] < #[trigger] idx[j]
}

/// `a` is a subsequence of `b`: its items stand in `b` in the same order.
pub open spec fn is_subsequence<A>(a: Seq<A>, b: Seq<A>) -> bool {
    exists|idx: Seq<int>| places_in(a, b, idx)
}

/// A container with a user namespace of its own is allowed every device that
/// one without is allowed, so its whitelist report is a subsequence of the
/// report for the same devices without one.
pub proof fn law_unprivileged_report_is_subsequence(devs: Seq<Device>, policy: DevicePolicy)
    ensures
        is_subsequence(devs_not_allowed(devs, true, policy), devs_not_allowed(devs, false, policy)),
    decreases devs.len(),
{
    let a = devs_not_allowed(devs, true, policy);
    let b = devs_not_allowed(devs, false, policy);
    if devs.len() == 0 {
        assert(places_in(a, b, Seq::<int>::empty()));
    } else {
        let rest = devs.drop_last();
        law_unprivileged_report_is_subsequence(rest, policy);
        let ra = devs_not_allowed(rest, true, policy);
        let rb = devs_not_allowed(rest, false, policy);
        let idx0 = choose|idx: Seq<int>| places_in(ra, rb, idx);
        let d = devs.last();
        if dev_allowed(d, false, policy) {
            assert(dev_allowed(d, true, policy));
            assert(a =~= ra);
            assert(b =~= rb);
            assert(places_in(a, b, idx0));
        } else if dev_allowed(d, true, policy) {
            assert(a =~= ra);
            assert(b =~= rb.push(dev_text(d)));
            assert forall|i: int| 0 <= i < a.len() implies 0 <= #[trigger] idx0[i] < b.len() && a[i] == b[idx0[i]] by {
                assert(b[idx0[i]] == rb[idx0[i]]);
            }
            assert(places_in(a, b, idx0));
        } else {
            assert(a =~= ra.push(dev_text(d)));
            assert(b =~= rb.push(dev_text(d)));
            let idx = idx0.push(rb.len() as int);
            assert forall|i: int| 0 <= i < a.len() implies 0 <= #[trigger] idx[i] < b.len() && a[i] == b[idx[i]] by {
                if i < ra.len() {
                    assert(idx[i] == idx0[i]);
                    assert(b[idx0[i]] == rb[idx0[i]]);
                }
            }
            assert forall|i: int, j: int| 0 <= i < j < idx.len() implies #[trigger] idx[i] < #[trigger] idx[j] by {
                if j < idx0.len() {
                    assert(idx[i] == idx0[i] && idx[j] == idx0[j]);
                } else {
                    assert(idx[i] == idx0[i]);
                }
            }
            assert(places_in(a, b, idx));
        }
    }
}

// ---------------------------------------------------------------------------
// Flag files

/// Whether `s` holds, at position `i`, a UUID in lower-case hexadecimal:
/// groups of 8, 4, 4, 4 and 12 digits separated by hyphens.
pub open spec fn uuid_at(s: Seq<char>, i: int) -> bool {
    0 <= i && i + 36 <= s.len() && forall|k: int| 0 <= k < 36 ==> uuid_char_ok(#[trigger] s[i + k], k)
}

/// Whether `c` may stand at position `k` of a UUID.
pub open spec fn uuid_char_ok(c: char, k: int) -> bool {
    if k == 8 || k == 13 || k == 18 || k == 23 {
        c == '-'
    } else {
        ('0' <= c && c <= '9') || ('a' <= c && c <= 'f')
    }
}

/// Whether a UUID occurs in `s`.
pub open spec fn has_uuid(s: Seq<char>) -> bool {
    exists|i: int| uuid_at(s, i)
}

fn uuid_at_exec(v: &Vec<char>, i: usize) -> (res: bool)
    requires
        i + 36 <= v@.len(),
    ensures
        res == uuid_at(v@, i as int),
{
    let mut k: usize = 0;
    let n = v.len();
    while k < 36
        invariant
            0 <= k <= 36,
            n == v@.len(),
            i + 36 <= v@.len(),
            forall|m: int| 0 <= m < k ==> uuid_char_ok(#[trigger] v@[i + m], m),
        decreases 36 - k,
    {
        let c = v[i + k];
        let ok = if k == 8 || k == 13 || k == 18 || k == 23 {
            c == '-'
        } else {
            ('0' <= c && c <= '9') || ('a' <= c && c <= 'f')
        };
        if !ok {
            assert(!uuid_char_ok(v@[i + k as int], k as int));
            return false;
        }
        k = k + 1;
    }
    true
}

/// Whether a UUID occurs in `s`.
pub fn contains_uuid(s: &str) -> (res: bool)
    ensures
        res == has_uuid(s@),
{
    let v = chars_of(s);
    if v.len() < 36 {
        assert forall|i: int| !uuid_at(s@, i) by {}
        return false;
    }
    let last = v.len() - 36;
    let mut i: usize = 0;
    while i <= last
        invariant
            v@ == s@,
            last + 36 == v@.len(),
            v@.len() <= usize::MAX,
            0 <= i <= last + 1,
            forall|k: int| 0 <= k < i ==> !uuid_at(s@, k),
        decreases last + 1 - i,
    {
        if uuid_at_exec(&v, i) {
            return true;
        }
        i = i + 1;
    }
    assert forall|k: int| !uuid_at(s@, k) by {}
    false
}

/// Whether a flag file found on the host counts: its name holds a UUID, and
/// it does not lie under the container's root as the host sees it.
pub open spec fn host_flag_counts(flag: Seq<char>, root: Seq<char>) -> bool {
    has_uuid(flag) && !path_has_prefix(flag, root)
}

/// The flags of `flags` that count (all of them, without `root`), each with `id`.
pub open spec fn flags_pairs(flags: Seq<Seq<char>>, id: NsId, root: Option<Seq<char>>) -> Seq<(Seq<char>, NsId)>
    decreases flags.len(),
{
    if flags.len() == 0 {
        Seq::empty()
    } else {
        flags_pairs(flags.drop_last(), id, root) + if root is None || host_flag_counts(flags.last(), root->0) {
            seq![(flags.last(), id)]
        } else {
            Seq::empty()
        }
    }
}

/// The flags that count, with the mount namespace each was found in, in order.
pub open spec fn flag_pairs(nss: Seq<MountNamespace>, root: Option<Seq<char>>) -> Seq<(Seq<char>, NsId)>
    decreases nss.len(),
{
    if nss.len() == 0 {
        Seq::empty()
    } else {
        flag_pairs(nss.drop_last(), root) + flags_pairs(views(nss.last().flag_files@), nss.last().ns_id->0, root)
    }
}

/// Index of the group of `key`, if there is one.
pub open spec fn group_index(groups: Seq<(Seq<char>, Seq<NsId>)>, key: Seq<char>) -> Option<int>
    decreases groups.len(),
{
    if groups.len() == 0 {
        None
    } else if groups.last().0 == key {
        match group_index(groups.drop_last(), key) {
            Some(i) => Some(i),
            None => Some(groups.len() - 1),
        }
    } else {
        group_index(groups.drop_last(), key)
    }
}

/// Adds one pair to the groups.
pub open spec fn group_step(groups: Seq<(Seq<char>, Seq<NsId>)>, pair: (Seq<char>, NsId)) -> Seq<(Seq<char>, Seq<NsId>)> {
    match group_index(groups, pair.0) {
        Some(i) => groups.update(i, (groups[i].0, groups[i].1.push(pair.1))),
        None => groups.push((pair.0, seq![pair.1])),
    }
}

/// The pairs grouped by flag, in order of first occurrence, each with the
/// namespaces it was found in, in order.
pub open spec fn group_pairs(pairs: Seq<(Seq<char>, NsId)>) -> Seq<(Seq<char>, Seq<NsId>)>
    decreases pairs.len(),
{
    if pairs.len() == 0 {
        Seq::empty()
    } else {
        group_step(group_pairs(pairs.drop_last()), pairs.last())
    }
}

/// A namespace identifier as text, such as `4:4026531841`.
pub open spec fn ns_id_text(id: NsId) -> Seq<char> {
    decimal(id.st_dev as nat) + ":"@ + decimal(id.st_ino as nat)
}

/// A group as text: the flag, a colon, and the namespaces.
pub open spec fn group_text(g: (Seq<char>, Seq<NsId>)) -> Seq<char> {
    g.0 + ": "@ + join(g.1.map_values(|id: NsId| ns_id_text(id)), ", "@)
}

/// What a flag check reports.
pub open spec fn flag_report(nss: Seq<MountNamespace>, root: Option<Seq<char>>) -> Seq<Seq<char>> {
    group_pairs(flag_pairs(nss, root)).map_values(|g: (Seq<char>, Seq<NsId>)| group_text(g))
}

/// Whether every mount namespace of `nss` has an identifier.
pub open spec fn nss_identified(nss: Seq<MountNamespace>) -> bool {
    forall|i: int| 0 <= i < nss.len() ==> (#[trigger] nss[i]).ns_id is Some
}

spec fn groups_view(g: Seq<(String, Vec<NsId>)>) -> Seq<(Seq<char>, Seq<NsId>)> {
    g.map_values(|x: (String, Vec<NsId>)| (x.0@, x.1@))
}

fn find_group(groups: &Vec<(String, Vec<NsId>)>, key: &String) -> (res: Option<usize>)
    ensures
        match group_index(groups_view(groups@), key@) {
            Some(i) => res == Some(i as usize),
            None => res is None,
        },
{
    let mut i: usize = 0;
    let n = groups.len();
    while i < groups.len()
        invariant
            0 <= i <= groups@.len(),
            n == groups@.len(),
            group_index(groups_view(groups@).take(i as int), key@) is None,
        decreases groups@.len() - i,
    {
        let ghost g = groups_view(groups@);
        assert(g.take(i + 1).drop_last() =~= g.take(i as int));
        assert(g.take(i + 1).last() == g[i as int]);
        if groups[i].0 == *key {
            proof {
                lemma_group_index_prefix(g, key@, i as int);
            }
            return Some(i);
        }
        i = i + 1;
    }
    assert(groups_view(groups@).take(n as int) =~= groups_view(groups@));
    None
}

/// The first group of a key is found in any prefix that holds it.
proof fn lemma_group_index_prefix(g: Seq<(Seq<char>, Seq<NsId>)>, key: Seq<char>, i: int)
    requires
        0 <= i < g.len(),
        g[i].0 == key,
        group_index(g.take(i), key) is None,
    ensures
        group_index(g, key) == Some(i),
    decreases g.len(),
{
    if g.len() - 1 > i {
        assert(g.drop_last().take(i) =~= g.take(i));
        assert(g.drop_last()[i] == g[i]);
        lemma_group_index_prefix(g.drop_last(), key, i);
    } else {
        assert(g.drop_last() =~= g.take(i));
    }
}

proof fn lemma_group_index_bounds(g: Seq<(Seq<char>, Seq<NsId>)>, key: Seq<char>)
    ensures
        group_index(g, key) matches Some(i) ==> 0 <= i < g.len() && g[i].0 == key,
    decreases g.len(),
{
    if g.len() > 0 {
        lemma_group_index_bounds(g.drop_last(), key);
    }
}

fn add_pair(groups: &mut Vec<(String, Vec<NsId>)>, flag: &String, id: NsId)
    ensures
        groups_view(final(groups)@) == group_step(groups_view(old(groups)@), (flag@, id)),
{
    proof {
        lemma_group_index_bounds(groups_view(groups@), flag@);
    }
    let n = groups.len();
    match find_group(groups, flag) {
        Some(i) => {
            let ghost g = groups_view(groups@);
            assert(group_index(g, flag@) == Some(i as int));
            let (k, mut ids) = groups.remove(i);
            ids.push(id);
            groups.insert(i, (k, ids));
            assert(groups_view(groups@) =~= g.update(i as int, (g[i as int].0, g[i as int].1.push(id))));
        }
        None => {
            let ghost g = groups_view(groups@);
            let mut ids: Vec<NsId> = Vec::new();
            ids.push(id);
            let key = flag.clone();
            groups.push((key, ids));
            assert(ids@ =~= seq![id]);
            assert(groups_view(groups@) =~= g.push((flag@, seq![id])));
        }
    }
}

fn render_groups(groups: &Vec<(String, Vec<NsId>)>) -> (res: Vec<String>)
    ensures
        views(res@) == groups_view(groups@).map_values(|g: (Seq<char>, Seq<NsId>)| group_text(g)),
{
    let mut res: Vec<String> = Vec::new();
    let mut i: usize = 0;
    while i < groups.len()
        invariant
            0 <= i <= groups@.len(),
            views(res@) == groups_view(groups@).take(i as int).map_values(|g: (Seq<char>, Seq<NsId>)| group_text(g)),
        decreases groups@.len() - i,
    {
        let (flag, ids) = &groups[i];
        let ghost names = ids@.map_values(|id: NsId| ns_id_text(id));
        let mut text = flag.clone();
        text.append(": ");
        let ghost start = text@;
        let mut j: usize = 0;
        while j < ids.len()
            invariant
                0 <= j <= ids@.len(),
                names == ids@.map_values(|id: NsId| ns_id_text(id)),
                text@ == start + join(names.take(j as int), ", "@),
            decreases ids@.len() - j,
        {
            proof {
                lemma_join_step(names, ", "@, j as int);
            }
            if j > 0 {
                text.append(", ");
            }
            push_decimal(&mut text, ids[j].st_dev);
            text.append(":");
            push_decimal(&mut text, ids[j].st_ino);
            proof {
                assert(names[j as int] == ns_id_text(ids@[j as int]));
                if j == 0 {
                    assert(join(names.take(0), ", "@) =~= Seq::<char>::empty());
                }
                assert(text@ =~= start + join(names.take(j + 1), ", "@));
            }
            j = j + 1;
        }
        assert(names.take(ids@.len() as int) =~= names);
        let ghost prev = res@;
        res.push(text);
        proof {
            let gv = groups_view(groups@);
            assert(gv[i as int] == (flag@, ids@));
            assert(views(res@) =~= views(prev).push(group_text(gv[i as int])));
            assert(gv.take(i + 1).map_values(|g: (Seq<char>, Seq<NsId>)| group_text(g))
                =~= gv.take(i as int).map_values(|g: (Seq<char>, Seq<NsId>)| group_text(g)).push(group_text(gv[i as int])));
        }
        i = i + 1;
    }
    assert(groups_view(groups@).take(groups@.len() as int) =~= groups_view(groups@));
    res
}

/// The flag files found in the mount namespaces `namespaces`, each with the
/// namespaces it was found in. With `root`, only flags whose name holds a
/// UUID and that do not lie under `root` are reported.
fn check_flags(namespaces: &Vec<MountNamespace>, root: Option<&str>) -> (res: Vec<String>)
    requires
        nss_identified(namespaces@),
    ensures
        views(res@) == flag_report(namespaces@, match root { Some(r) => Some(r@), None => None }),
{
    let ghost r: Option<Seq<char>> = match root { Some(r) => Some(r@), None => None };
    let mut groups: Vec<(String, Vec<NsId>)> = Vec::new();
    let mut i: usize = 0;
    assert(groups_view(groups@) =~= group_pairs(flag_pairs(namespaces@.take(0), r)));
    while i < namespaces.len()
        invariant
            0 <= i <= namespaces@.len(),
            nss_identified(namespaces@),
            r == (match root { Some(r) => Some(r@), None => None::<Seq<char>> }),
            groups_view(groups@) == group_pairs(flag_pairs(namespaces@.take(i as int), r)),
        decreases namespaces@.len() - i,
    {
        let ns = &namespaces[i];
        let id = ns.ns_id.unwrap();
        let ghost before = flag_pairs(namespaces@.take(i as int), r);
        let ghost flags = views(ns.flag_files@);
        let mut j: usize = 0;
        assert(before + flags_pairs(flags.take(0), id, r) =~= before);
        while j < ns.flag_files.len()
            invariant
                0 <= j <= ns.flag_files@.len(),
                flags == views(ns.flag_files@),
                r == (match root { Some(r) => Some(r@), None => None::<Seq<char>> }),
                groups_view(groups@) == group_pairs(before + flags_pairs(flags.take(j as int), id, r)),
            decreases ns.flag_files@.len() - j,
        {
            let flag = &ns.flag_files[j];
            let counts = match root {
                Some(base) => contains_uuid(flag.as_str()) && !path_starts_with(flag.as_str(), base),
                None => true,
            };
            assert(flags.take(j + 1).drop_last() =~= flags.take(j as int));
            assert(flags.take(j + 1).last() == flag@);
            let ghost p = before + flags_pairs(flags.take(j as int), id, r);
            if counts {
                add_pair(&mut groups, flag, id);
                assert((p.push((flag@, id))).drop_last() =~= p);
                assert(before + flags_pairs(flags.take(j + 1), id, r) =~= p.push((flag@, id)));
            } else {
                assert(before + flags_pairs(flags.take(j + 1), id, r) =~= p);
            }
            j = j + 1;
        }
        assert(flags.take(flags.len() as int) =~= flags);
        assert(namespaces@.take(i + 1).drop_last() =~= namespaces@.take(i as int));
        assert(namespaces@.take(i + 1).last() == *ns);
        i = i + 1;
    }
    assert(namespaces@.take(namespaces@.len() as int) =~= namespaces@);
    render_groups(&groups)
}

/// The flag files that the host sees outside the container's root
/// `root_dir`, each with the mount namespaces it was found in.
pub fn do_check_flags_host(namespaces: &Vec<MountNamespace>, root_dir: &str) -> (res: Vec<String>)
    requires
        nss_identified(namespaces@),
    ensures
        views(res@) == flag_report(namespaces@, Some(root_dir@)),
{
    check_flags(namespaces, Some(root_dir))
}

/// The flag files that the reference container sees, each with the mount
/// namespaces it was found in.
pub fn do_check_flags_refcontainer(namespaces: &Vec<MountNamespace>) -> (res: Vec<String>)
    requires
        nss_identified(namespaces@),
    ensures
        views(res@) == flag_report(namespaces@, None),
{
    check_flags(namespaces, None)
}

// ---------------------------------------------------------------------------
// Categories

/// What the evaluation is checked against: the device whitelists and the
/// cgroup controllers that must be active.
#[derive(Clone, Debug)]
pub struct EvalPolicy {
    pub devices: DevicePolicy,
    pub cgroup_controllers_required: Vec<Controller>,
}

/// The capabilities that the category `network` looks at.
pub open spec fn network_caps() -> Seq<Capability> {
    seq![Capability::CapNetAdmin, Capability::CapNetBindService, Capability::CapNetRaw]
}

fn network_cap_list() -> (res: Vec<Capability>)
    ensures
        res@ == network_caps(),
{
    vec![Capability::CapNetAdmin, Capability::CapNetBindService, Capability::CapNetRaw]
}

/// The capabilities that the category `filesystem` looks at.
pub open spec fn filesystem_caps() -> Seq<Capability> {
    seq![Capability::CapSysChroot, Capability::CapLinuxImmutable, Capability::CapLease]
}

fn filesystem_cap_list() -> (res: Vec<Capability>)
    ensures
        res@ == filesystem_caps(),
{
    vec![Capability::CapSysChroot, Capability::CapLinuxImmutable, Capability::CapLease]
}

/// The capabilities that the category `devices` looks at.
pub open spec fn devices_caps() -> Seq<Capability> {
    seq![Capability::CapMknod, Capability::CapSysRawio, Capability::CapSysTtyConfig]
}

fn devices_cap_list() -> (res: Vec<Capability>)
    ensures
        res@ == devices_caps(),
{
    vec![Capability::CapMknod, Capability::CapSysRawio, Capability::CapSysTtyConfig]
}

/// The capabilities that the category `resource_control` looks at.
pub open spec fn resource_control_caps() -> Seq<Capability> {
    seq![Capability::CapSysNice, Capability::CapSysResource]
}

fn resource_control_cap_list() -> (res: Vec<Capability>)
    ensures
        res@ == resource_control_caps(),
{
    vec![Capability::CapSysNice, Capability::CapSysResource]
}

/// The capabilities that the category `process_control` looks at.
pub open spec fn process_control_caps() -> Seq<Capability> {
    seq![Capability::CapSysPtrace, Capability::CapSysPacct, Capability::CapCheckpointRestore, Capability::CapKill, Capability::CapSysBoot]
}

fn process_control_cap_list() -> (res: Vec<Capability>)
    ensures
        res@ == process_control_caps(),
{
    vec![Capability::CapSysPtrace, Capability::CapSysPacct, Capability::CapCheckpointRestore, Capability::CapKill, Capability::CapSysBoot]
}

/// The capabilities that the category `access_control` looks at.
pub open spec fn access_control_caps() -> Seq<Capability> {
    seq![Capability::CapChown, Capability::CapDacOverride, Capability::CapDacReadSearch, Capability::CapFowner, Capability::CapFsetid, Capability::CapSetuid, Capability::CapSetgid, Capability::CapSetpcap, Capability::CapSetfcap, Capability::CapIpcOwner, Capability::CapMacOverride, Capability::CapMacAdmin]
}

fn access_control_cap_list() -> (res: Vec<Capability>)
    ensures
        res@ == access_control_caps(),
{
    vec![Capability::CapChown, Capability::CapDacOverride, Capability::CapDacReadSearch, Capability::CapFowner, Capability::CapFsetid, Capability::CapSetuid, Capability::CapSetgid, Capability::CapSetpcap, Capability::CapSetfcap, Capability::CapIpcOwner, Capability::CapMacOverride, Capability::CapMacAdmin]
}

/// The capabilities that the category `time` looks at.
pub open spec fn time_caps() -> Seq<Capability> {
    seq![Capability::CapSysTime]
}

fn time_cap_list() -> (res: Vec<Capability>)
    ensures
        res@ == time_caps(),
{
    vec![Capability::CapSysTime]
}

/// The capabilities that the category `global` looks at.
pub open spec fn global_caps() -> Seq<Capability> {
    seq![Capability::CapSysAdmin, Capability::CapAuditControl, Capability::CapAuditRead, Capability::CapAuditWrite, Capability::CapSysModule, Capability::CapSyslog, Capability::CapWakeAlarm, Capability::CapPerfmon, Capability::CapBpf, Capability::CapNetBroadcast, Capability::CapIpcLock, Capability::CapBlockSuspend]
}

fn global_cap_list() -> (res: Vec<Capability>)
    ensures
        res@ == global_caps(),
{
    vec![Capability::CapSysAdmin, Capability::CapAuditControl, Capability::CapAuditRead, Capability::CapAuditWrite, Capability::CapSysModule, Capability::CapSyslog, Capability::CapWakeAlarm, Capability::CapPerfmon, Capability::CapBpf, Capability::CapNetBroadcast, Capability::CapIpcLock, Capability::CapBlockSuspend]
}

/// The namespace kinds that the category `network` asks for.
pub open spec fn network_ns() -> Seq<NsType> {
    seq![NsType::Network, NsType::Uts]
}

fn network_ns_list() -> (res: Vec<NsType>)
    ensures
        res@ == network_ns(),
{
    vec![NsType::Network, NsType::Uts]
}

/// The namespace kinds that the category `filesystem` asks for.
pub open spec fn filesystem_ns() -> Seq<NsType> {
    seq![NsType::Mount]
}

fn filesystem_ns_list() -> (res: Vec<NsType>)
    ensures
        res@ == filesystem_ns(),
{
    vec![NsType::Mount]
}

/// The namespace kinds that the category `resource_control` asks for.
pub open spec fn resource_control_ns() -> Seq<NsType> {
    seq![NsType::Cgroup]
}

fn resource_control_ns_list() -> (res: Vec<NsType>)
    ensures
        res@ == resource_control_ns(),
{
    vec![NsType::Cgroup]
}

/// The namespace kinds that the category `process_control` asks for.
pub open spec fn process_control_ns() -> Seq<NsType> {
    seq![NsType::Pid, NsType::Ipc]
}

fn process_control_ns_list() -> (res: Vec<NsType>)
    ensures
        res@ == process_control_ns(),
{
    vec![NsType::Pid, NsType::Ipc]
}

/// The namespace kinds that the category `access_control` asks for.
pub open spec fn access_control_ns() -> Seq<NsType> {
    seq![NsType::User]
}

fn access_control_ns_list() -> (res: Vec<NsType>)
    ensures
        res@ == access_control_ns(),
{
    vec![NsType::User]
}

/// The namespace kinds that the category `time` asks for.
pub open spec fn time_ns() -> Seq<NsType> {
    seq![NsType::Time]
}

fn time_ns_list() -> (res: Vec<NsType>)
    ensures
        res@ == time_ns(),
{
    vec![NsType::Time]
}

/// The description of the category `network`.
pub open spec fn network_description() -> Seq<char> {
    "Network namespace and UTS namespace status, networking-related capabilities"@
}

/// The description of the category `filesystem`.
pub open spec fn filesystem_description() -> Seq<char> {
    "Container filesystem isolation (Mount namespace, Chroot), filesystem-related capabilities, filesystem configuration"@
}

/// The description of the category `devices`.
pub open spec fn devices_description() -> Seq<char> {
    "Capabilities related to device handling, device whitelist compliance"@
}

/// The description of the category `resource_control`.
pub open spec fn resource_control_description() -> Seq<char> {
    "Cgroup namespace, Cgroup status, capabilities related to resource managment, tests on Cgroup limits"@
}

/// The description of the category `process_control`.
pub open spec fn process_control_description() -> Seq<char> {
    "PID namespace and IPC namespace state, capabilities related to process handling/management"@
}

/// The description of the category `access_control`.
pub open spec fn access_control_description() -> Seq<char> {
    "User namespace status, capabilities related to access control management, tests on User namespace mapping"@
}

/// The description of the category `time`.
pub open spec fn time_description() -> Seq<char> {
    "Time namespace status, capabilities related to system clock interaction"@
}

/// The description of the category `global`.
pub open spec fn global_description() -> Seq<char> {
    "Default category for capabilities and tests not matching other categories"@
}

/// Whether `t` is a valid test named `name` that passed as `passed` and
/// recorded `info`.
pub open spec fn test_is(t: NamedTest, name: TestName, passed: bool, info: Seq<Seq<char>>) -> bool {
    t.name == name && t.result.passed == passed && t.result.valid && views(t.result.info@) == info
}

/// Whether `iso` holds the namespaces of a category asking for `kinds`, and
/// the root and cgroup information given.
pub open spec fn isolation_is(
    iso: Option<IsolationMechanisms>,
    kinds: Seq<NsType>,
    ns_set: Seq<NsType>,
    chroot: Option<Chroot>,
    cgroup: Option<CgroupIsolation>,
) -> bool {
    &&& iso is Some
    &&& iso->0.namespaces is Some
    &&& iso->0.namespaces->0.active@ == category_ns(kinds, ns_set).0
    &&& iso->0.namespaces->0.desired@ == category_ns(kinds, ns_set).1
    &&& iso->0.chroot == chroot
    &&& iso->0.cgroup == cgroup
}

fn isolation_for(kinds: &Vec<NsType>, ns_set: &Vec<NsType>, chroot: Option<Chroot>, cgroup: Option<CgroupIsolation>) -> (res: Option<IsolationMechanisms>)
    ensures
        isolation_is(res, kinds@, ns_set@, chroot, cgroup),
{
    Some(IsolationMechanisms { namespaces: Some(select_namespaces(kinds, ns_set)), chroot, cgroup })
}

fn named_test(name: TestName, passed: bool, info: Vec<String>) -> (res: NamedTest)
    ensures
        test_is(res, name, passed, views(info@)),
{
    NamedTest { name, result: TestResult { passed, valid: true, info } }
}

fn no_info() -> (res: Vec<String>)
    ensures
        views(res@) == Seq::<Seq<char>>::empty(),
{
    let v: Vec<String> = Vec::new();
    assert(views(v@) =~= Seq::<Seq<char>>::empty());
    v
}

fn one_empty_line() -> (res: Vec<String>)
    ensures
        views(res@) == seq![Seq::<char>::empty()],
{
    let mut v: Vec<String> = Vec::new();
    v.push(String::new());
    assert(views(v@) =~= seq![Seq::<char>::empty()]);
    v
}

/// Whether the configuration holds what the evaluation reads.
pub open spec fn evaluable(cfg: Config) -> bool {
    &&& cfg.ns_config is Some
    &&& ns_config_complete(cfg.ns_config->0)
    &&& cfg.caps_config is Some
    &&& cfg.uts_config_host is Some
    &&& cfg.uts_config_container is Some
    &&& cfg.chroot_config is Some
    &&& cfg.chroot_config->0.host is Some
    &&& cfg.chroot_config->0.container is Some
    &&& cfg.fs_config is Some
    &&& nss_identified(cfg.fs_config->0.host_namespaces@)
    &&& nss_identified(cfg.fs_config->0.ref_container_namespaces@)
    &&& cfg.device_config is Some
    &&& devs_identified(cfg.device_config->0.dev_devices@)
    &&& devs_identified(cfg.device_config->0.mknod_devices@)
    &&& cfg.cgroup_config is Some
    &&& cfg.user_ns_config is Some
    &&& cfg.seccomp_config is Some
    &&& cfg.info is Some
}

/// The capabilities that the container holds.
pub open spec fn held_caps(cfg: Config) -> Seq<Capability> {
    cfg.caps_config->0.cap_prm@
}

// --- network

/// The category `network`, for the isolated kinds `ns_set`.
pub open spec fn network_is(c: Category, cfg: Config, ns_set: Seq<NsType>) -> bool {
    let host = cfg.uts_config_host->0;
    let cont = cfg.uts_config_container->0;
    &&& isolation_is(c.isolation, network_ns(), ns_set, None, None)
    &&& c.capabilities@ == caps_held(network_caps(), held_caps(cfg))
    &&& c.tests@.len() == 2
    &&& test_is(c.tests@[0], TestName::ContainerSpecificHostname, host.hostname@ != cont.hostname@, Seq::empty())
    &&& test_is(c.tests@[1], TestName::ContainerSpecificDomainname, host.domainname@ != cont.domainname@, Seq::empty())
    &&& c.description@ == network_description()
}

fn category_network(config: &Config, ns_set: &Vec<NsType>) -> (res: Category)
    requires
        evaluable(*config),
    ensures
        network_is(res, *config, ns_set@),
{
    let host = config.uts_config_host.as_ref().unwrap();
    let cont = config.uts_config_container.as_ref().unwrap();
    let isolation = isolation_for(&network_ns_list(), ns_set, None, None);
    let capabilities = select_caps(&network_cap_list(), &config.caps_config.as_ref().unwrap().cap_prm);
    let mut tests: Vec<NamedTest> = Vec::new();
    tests.push(named_test(TestName::ContainerSpecificHostname, !(host.hostname == cont.hostname), no_info()));
    tests.push(named_test(TestName::ContainerSpecificDomainname, !(host.domainname == cont.domainname), no_info()));
    Category {
        isolation,
        capabilities,
        tests,
        description: String::from_str("Network namespace and UTS namespace status, networking-related capabilities"),
    }
}

// --- filesystem

/// The root configuration that the evaluation derives.
pub open spec fn chroot_of(cfg: Config) -> Chroot {
    let host = cfg.chroot_config->0.host->0;
    let cont = cfg.chroot_config->0.container->0;
    let chroot = host.st_dev != cont.st_dev || host.st_ino != cont.st_ino;
    Chroot { chroot, pivot_root: chroot && cont.path@ == "/"@ }
}

/// The category `filesystem`, for the isolated kinds `ns_set` and the
/// container's root `root` as the host sees it.
pub open spec fn filesystem_is(c: Category, cfg: Config, ns_set: Seq<NsType>, root: Seq<char>) -> bool {
    let fs = cfg.fs_config->0;
    let host_report = flag_report(fs.host_namespaces@, Some(root));
    let ref_report = flag_report(fs.ref_container_namespaces@, None);
    &&& isolation_is(c.isolation, filesystem_ns(), ns_set, Some(chroot_of(cfg)), None)
    &&& c.capabilities@ == caps_held(filesystem_caps(), held_caps(cfg))
    &&& c.tests@.len() == 2
    &&& test_is(c.tests@[0], TestName::FlagMatchesHost, host_report.len() == 0, host_report)
    &&& test_is(c.tests@[1], TestName::FlagMatchesRefcontainer, ref_report.len() == 0, ref_report)
    &&& c.description@ == filesystem_description()
}

fn category_filesystem(config: &Config, ns_set: &Vec<NsType>, container_root_host: &str) -> (res: Category)
    requires
        evaluable(*config),
    ensures
        filesystem_is(res, *config, ns_set@, container_root_host@),
{
    let chroot_config = config.chroot_config.as_ref().unwrap();
    let host_root = chroot_config.host.as_ref().unwrap();
    let container_root = chroot_config.container.as_ref().unwrap();
    let chroot = host_root.st_dev != container_root.st_dev || host_root.st_ino != container_root.st_ino;
    let pivot_root = chroot && str_eq(container_root.path.as_str(), "/");
    let isolation = isolation_for(&filesystem_ns_list(), ns_set, Some(Chroot { chroot, pivot_root }), None);
    let capabilities = select_caps(&filesystem_cap_list(), &config.caps_config.as_ref().unwrap().cap_prm);

    let fs = config.fs_config.as_ref().unwrap();
    let mut tests: Vec<NamedTest> = Vec::new();
    let flag_matches_host = do_check_flags_host(&fs.host_namespaces, container_root_host);
    let passed = flag_matches_host.len() == 0;
    tests.push(named_test(TestName::FlagMatchesHost, passed, flag_matches_host));
    let flag_matches_ref_container = do_check_flags_refcontainer(&fs.ref_container_namespaces);
    let passed = flag_matches_ref_container.len() == 0;
    tests.push(named_test(TestName::FlagMatchesRefcontainer, passed, flag_matches_ref_container));
    Category {
        isolation,
        capabilities,
        tests,
        description: String::from_str(
            "Container filesystem isolation (Mount namespace, Chroot), filesystem-related capabilities, filesystem configuration",
        ),
    }
}

// --- devices

/// The category `devices`, for the isolated kinds `ns_set`.
pub open spec fn devices_is(c: Category, cfg: Config, ns_set: Seq<NsType>, policy: DevicePolicy) -> bool {
    let d = cfg.device_config->0;
    let unprivileged = ns_set.contains(NsType::User);
    let dev_report = devs_not_allowed(d.dev_devices@, unprivileged, policy);
    let mknod_report = devs_not_allowed(d.mknod_devices@, unprivileged, policy);
    &&& c.isolation is None
    &&& c.capabilities@ == caps_held(devices_caps(), held_caps(cfg))
    &&& c.tests@.len() == 2
    &&& test_is(c.tests@[0], TestName::DevWhitelistCompliance, dev_report.len() == 0, dev_report)
    &&& test_is(c.tests@[1], TestName::MknodWhitelistCompliance, mknod_report.len() == 0, mknod_report)
    &&& c.description@ == devices_description()
}

fn category_devices(config: &Config, ns_set: &Vec<NsType>, policy: &DevicePolicy) -> (res: Category)
    requires
        evaluable(*config),
    ensures
        devices_is(res, *config, ns_set@, *policy),
{
    let capabilities = select_caps(&devices_cap_list(), &config.caps_config.as_ref().unwrap().cap_prm);
    let d = config.device_config.as_ref().unwrap();
    let unprivileged = ns_contains(ns_set, NsType::User);
    let mut tests: Vec<NamedTest> = Vec::new();
    let dev = dev_whitelist_compliance(d.dev_devices.as_slice(), unprivileged, policy);
    tests.push(NamedTest { name: TestName::DevWhitelistCompliance, result: dev });
    let mknod = dev_whitelist_compliance(d.mknod_devices.as_slice(), unprivileged, policy);
    tests.push(NamedTest { name: TestName::MknodWhitelistCompliance, result: mknod });
    Category {
        isolation: None,
        capabilities,
        tests,
        description: String::from_str("Capabilities related to device handling, device whitelist compliance"),
    }
}

// --- resource control

/// The outcome of a limit test on the interface file `name`, whose content
/// is `content` if the file was read: a limit passes when it does not say
/// `max`.
pub open spec fn limit_test_is(t: NamedTest, name: TestName, file: Seq<char>, content: Option<String>) -> bool {
    match content {
        Some(v) => test_is(t, name, !has_substring(v@, "max"@), seq![v@]),
        None => test_is(t, name, false, seq![file + " not available"@]),
    }
}

/// Whether every controller of `required` is among `active`.
pub open spec fn controllers_present(required: Seq<Controller>, active: Seq<Controller>) -> bool {
    forall|i: int| 0 <= i < required.len() ==> active.contains(#[trigger] required[i])
}

/// The category `resource_control`, for the isolated kinds `ns_set`.
pub open spec fn resource_control_is(c: Category, cfg: Config, ns_set: Seq<NsType>, required: Seq<Controller>) -> bool {
    let cg = cfg.cgroup_config->0;
    &&& isolation_is(
        c.isolation,
        resource_control_ns(),
        ns_set,
        None,
        Some(CgroupIsolation { cgroup: cg.controllers@.len() != 0 }),
    )
    &&& c.capabilities@ == caps_held(resource_control_caps(), held_caps(cfg))
    &&& c.tests@.len() == 3
    &&& limit_test_is(c.tests@[0], TestName::CpuMaxLimited, "cpu.max"@, cg.cpu_max)
    &&& limit_test_is(c.tests@[1], TestName::MemoryMaxLimited, "memory.max"@, cg.memory_max)
    &&& test_is(
        c.tests@[2],
        TestName::RequiredCgroupsControllersActive,
        controllers_present(required, cg.controllers@),
        Seq::empty(),
    )
    &&& c.description@ == resource_control_description()
}

fn contains_controller(v: &Vec<Controller>, c: Controller) -> (res: bool)
    ensures
        res == v@.contains(c),
{
    let mut i: usize = 0;
    while i < v.len()
        invariant
            0 <= i <= v@.len(),
            forall|j: int| 0 <= j < i ==> v@[j] != c,
        decreases v@.len() - i,
    {
        if v[i] == c {
            return true;
        }
        i = i + 1;
    }
    false
}

fn limit_test(name: TestName, file: &str, content: &Option<String>) -> (res: NamedTest)
    ensures
        limit_test_is(res, name, file@, *content),
{
    match content {
        Some(v) => {
            let passed = !contains_str(v.as_str(), "max");
            let mut info: Vec<String> = Vec::new();
            info.push(v.clone());
            assert(views(info@) =~= seq![v@]);
            named_test(name, passed, info)
        }
        None => {
            let mut msg = String::from_str(file);
            msg.append(" not available");
            let mut info: Vec<String> = Vec::new();
            info.push(msg);
            assert(views(info@) =~= seq![file@ + " not available"@]);
            named_test(name, false, info)
        }
    }
}

fn category_resource_control(config: &Config, ns_set: &Vec<NsType>, required: &Vec<Controller>) -> (res: Category)
    requires
        evaluable(*config),
    ensures
        resource_control_is(res, *config, ns_set@, required@),
{
    let cg = config.cgroup_config.as_ref().unwrap();
    let isolation = isolation_for(
        &resource_control_ns_list(),
        ns_set,
        None,
        Some(CgroupIsolation { cgroup: cg.controllers.len() != 0 }),
    );
    let capabilities = select_caps(&resource_control_cap_list(), &config.caps_config.as_ref().unwrap().cap_prm);
    let mut tests: Vec<NamedTest> = Vec::new();
    tests.push(limit_test(TestName::CpuMaxLimited, "cpu.max", &cg.cpu_max));
    tests.push(limit_test(TestName::MemoryMaxLimited, "memory.max", &cg.memory_max));

    let mut all_present = true;
    let mut i: usize = 0;
    while i < required.len()
        invariant
            0 <= i <= required@.len(),
            all_present == controllers_present(required@.take(i as int), cg.controllers@),
        decreases required@.len() - i,
    {
        if !contains_controller(&cg.controllers, required[i]) {
            all_present = false;
        }
        assert(controllers_present(required@.take(i + 1), cg.controllers@) == (controllers_present(
            required@.take(i as int),
            cg.controllers@,
        ) && cg.controllers@.contains(required@[i as int]))) by {
            assert forall|j: int| 0 <= j < i implies required@.take(i + 1)[j] == required@.take(i as int)[j] by {}
            if controllers_present(required@.take(i + 1), cg.controllers@) {
                assert(required@.take(i + 1)[i as int] == required@[i as int]);
            }
        }
        i = i + 1;
    }
    assert(required@.take(required@.len() as int) =~= required@);
    tests.push(named_test(TestName::RequiredCgroupsControllersActive, all_present, no_info()));
    Category {
        isolation,
        capabilities,
        tests,
        description: String::from_str(
            "Cgroup namespace, Cgroup status, capabilities related to resource managment, tests on Cgroup limits",
        ),
    }
}

// --- process control, time, global

/// The category `process_control`, for the isolated kinds `ns_set`.
pub open spec fn process_control_is(c: Category, cfg: Config, ns_set: Seq<NsType>) -> bool {
    &&& isolation_is(c.isolation, process_control_ns(), ns_set, None, None)
    &&& c.capabilities@ == caps_held(process_control_caps(), held_caps(cfg))
    &&& c.tests@.len() == 0
    &&& c.description@ == process_control_description()
}

fn category_process_control(config: &Config, ns_set: &Vec<NsType>) -> (res: Category)
    requires
        evaluable(*config),
    ensures
        process_control_is(res, *config, ns_set@),
{
    Category {
        isolation: isolation_for(&process_control_ns_list(), ns_set, None, None),
        capabilities: select_caps(&process_control_cap_list(), &config.caps_config.as_ref().unwrap().cap_prm),
        tests: Vec::new(),
        description: String::from_str(
            "PID namespace and IPC namespace state, capabilities related to process handling/management",
        ),
    }
}

/// The category `time`, for the isolated kinds `ns_set`.
pub open spec fn time_is(c: Category, cfg: Config, ns_set: Seq<NsType>) -> bool {
    &&& isolation_is(c.isolation, time_ns(), ns_set, None, None)
    &&& c.capabilities@ == caps_held(time_caps(), held_caps(cfg))
    &&& c.tests@.len() == 0
    &&& c.description@ == time_description()
}

fn category_time(config: &Config, ns_set: &Vec<NsType>) -> (res: Category)
    requires
        evaluable(*config),
    ensures
        time_is(res, *config, ns_set@),
{
    Category {
        isolation: isolation_for(&time_ns_list(), ns_set, None, None),
        capabilities: select_caps(&time_cap_list(), &config.caps_config.as_ref().unwrap().cap_prm),
        tests: Vec::new(),
        description: String::from_str("Time namespace status, capabilities related to system clock interaction"),
    }
}

/// The category `global`.
pub open spec fn global_is(c: Category, cfg: Config) -> bool {
    &&& c.isolation is None
    &&& c.capabilities@ == caps_held(global_caps(), held_caps(cfg))
    &&& c.tests@.len() == 0
    &&& c.description@ == global_description()
}

fn category_global(config: &Config) -> (res: Category)
    requires
        evaluable(*config),
    ensures
        global_is(res, *config),
{
    Category {
        isolation: None,
        capabilities: select_caps(&global_cap_list(), &config.caps_config.as_ref().unwrap().cap_prm),
        tests: Vec::new(),
        description: String::from_str("Default category for capabilities and tests not matching other categories"),
    }
}

// --- access control

/// Whether some mapping of `m` maps to the host's root user.
pub open spec fn maps_to_root(m: Seq<IdMapping>) -> bool {
    exists|i: int| 0 <= i < m.len() && (#[trigger] m[i]).parent == 0
}

/// The category `access_control`, for the isolated kinds `ns_set`.
pub open spec fn access_control_is(c: Category, cfg: Config, ns_set: Seq<NsType>) -> bool {
    let u = cfg.user_ns_config->0;
    let mode = cfg.seccomp_config->0.mode;
    let empty_line = seq![Seq::<char>::empty()];
    &&& isolation_is(c.isolation, access_control_ns(), ns_set, None, None)
    &&& c.capabilities@ == caps_held(access_control_caps(), held_caps(cfg))
    &&& c.tests@.len() == 3
    &&& test_is(c.tests@[0], TestName::UserNsMapsToNonRootUser, !maps_to_root(u.uid_map@), empty_line)
    &&& test_is(c.tests@[1], TestName::UserNsMappingUnique, u.unique_mapping, empty_line)
    &&& test_is(
        c.tests@[2],
        TestName::SeccompEnabled,
        mode == Mode::SeccompModeFilter || mode == Mode::SeccompModeStrict,
        empty_line,
    )
    &&& c.description@ == access_control_description()
}

fn category_access_control(config: &Config, ns_set: &Vec<NsType>) -> (res: Category)
    requires
        evaluable(*config),
    ensures
        access_control_is(res, *config, ns_set@),
{
    let u = config.user_ns_config.as_ref().unwrap();
    let mut to_root = false;
    let mut i: usize = 0;
    while i < u.uid_map.len()
        invariant
            0 <= i <= u.uid_map@.len(),
            to_root == exists|j: int| 0 <= j < i && (#[trigger] u.uid_map@[j]).parent == 0,
        decreases u.uid_map@.len() - i,
    {
        if u.uid_map[i].parent == 0 {
            to_root = true;
        }
        i = i + 1;
    }
    let mode = config.seccomp_config.as_ref().unwrap().mode;
    let mut tests: Vec<NamedTest> = Vec::new();
    tests.push(named_test(TestName::UserNsMapsToNonRootUser, !to_root, one_empty_line()));
    tests.push(named_test(TestName::UserNsMappingUnique, u.unique_mapping, one_empty_line()));
    tests.push(named_test(
        TestName::SeccompEnabled,
        mode == Mode::SeccompModeFilter || mode == Mode::SeccompModeStrict,
        one_empty_line(),
    ));
    Category {
        isolation: isolation_for(&access_control_ns_list(), ns_set, None, None),
        capabilities: select_caps(&access_control_cap_list(), &config.caps_config.as_ref().unwrap().cap_prm),
        tests,
        description: String::from_str(
            "User namespace status, capabilities related to access control management, tests on User namespace mapping",
        ),
    }
}

// ---------------------------------------------------------------------------
// The evaluation

/// The namespace kinds that count as isolated, in canonical order.
pub open spec fn isolated_set(cfg: Config) -> Seq<NsType> {
    ns_select(|t: NsType| ns_isolated(cfg.ns_config->0, t))
}

/// Whether `e` is the evaluation of `cfg`, when the host sees the container's
/// root at `root`, checked against `policy`.
pub open spec fn evaluation_is(e: EvalResult, cfg: Config, root: Seq<char>, policy: EvalPolicy) -> bool {
    let ns = isolated_set(cfg);
    let c = e.categories;
    let info = cfg.info->0;
    &&& e.unprivileged == has_own_user_ns(cfg.ns_config->0)
    &&& network_is(c.network, cfg, ns)
    &&& filesystem_is(c.filesystem, cfg, ns, root)
    &&& devices_is(c.devices, cfg, ns, policy.devices)
    &&& resource_control_is(c.resource_control, cfg, ns, policy.cgroup_controllers_required@)
    &&& process_control_is(c.process_control, cfg, ns)
    &&& access_control_is(c.access_control, cfg, ns)
    &&& time_is(c.time, cfg, ns)
    &&& global_is(c.global, cfg)
    &&& e.info is Some
    &&& e.info->0.pids_container@ == info.pids_container@
    &&& e.info->0.pids_ref_container@ == info.pids_ref_container@
    &&& e.info->0.pid_host == info.pid_host
    &&& e.info->0.container_root_host@ == root
}

/// No two tests of `tests` have the same name.
pub open spec fn test_names_distinct(tests: Seq<NamedTest>) -> bool {
    forall|i: int, j: int| 0 <= i < j < tests.len() ==> (#[trigger] tests[i]).name != (#[trigger] tests[j]).name
}

/// In every category of an evaluation, each test appears under its own
/// name: no two tests of a category share one.
pub proof fn law_test_names_distinct(e: EvalResult, cfg: Config, root: Seq<char>, policy: EvalPolicy)
    requires
        evaluation_is(e, cfg, root, policy),
    ensures
        forall|k: int| 0 <= k < 8 ==> test_names_distinct((#[trigger] e.categories.seq()[k]).tests@),
{
    let c = e.categories;
    assert(test_names_distinct(c.network.tests@));
    assert(test_names_distinct(c.filesystem.tests@));
    assert(test_names_distinct(c.devices.tests@));
    assert(test_names_distinct(c.resource_control.tests@));
    assert(test_names_distinct(c.process_control.tests@));
    assert(test_names_distinct(c.access_control.tests@));
    assert(test_names_distinct(c.time.tests@));
    assert(test_names_distinct(c.global.tests@));
}

/// A container with a user namespace of its own is evaluated as
/// unprivileged, and that user namespace counts as isolated: the category
/// `access_control` lists it as active.
pub proof fn law_own_user_ns_is_active(e: EvalResult, cfg: Config, root: Seq<char>, policy: EvalPolicy)
    requires
        evaluable(cfg),
        evaluation_is(e, cfg, root, policy),
    ensures
        e.unprivileged <==> exists|i: int|
            0 <= i < cfg.ns_config->0.unshared@.len() && (#[trigger] cfg.ns_config->0.unshared@[i]).ns_type
                == NsType::User,
        e.unprivileged ==> isolated_set(cfg).contains(NsType::User),
        e.unprivileged ==> e.categories.access_control.isolation->0.namespaces->0.active@.contains(NsType::User),
{
    let ns = isolated_set(cfg);
    lemma_last_of_type(cfg.ns_config->0.unshared@, NsType::User);
    crate::c_config::lemma_ns_select(|t: NsType| ns_isolated(cfg.ns_config->0, t));
    crate::c_config::lemma_ns_select(|t: NsType| access_control_ns().contains(t) && ns.contains(t));
    assert(access_control_ns()[0] == NsType::User);
}

/// The test that the required cgroup controllers are active passes exactly
/// when every controller that the policy requires is among the container's
/// active controllers: it fails as soon as one of them is missing.
pub proof fn law_required_controllers_all_active(e: EvalResult, cfg: Config, root: Seq<char>, policy: EvalPolicy)
    requires
        evaluable(cfg),
        evaluation_is(e, cfg, root, policy),
    ensures
        find_test(e.categories.resource_control.tests@, TestName::RequiredCgroupsControllersActive) matches Some(r)
            && r.valid && (r.passed <==> forall|i: int|
            0 <= i < policy.cgroup_controllers_required@.len() ==> cfg.cgroup_config->0.controllers@.contains(
                #[trigger] policy.cgroup_controllers_required@[i],
            )),
        forall|c: Controller|
            #[trigger] policy.cgroup_controllers_required@.contains(c) && !cfg.cgroup_config->0.controllers@.contains(c)
                ==> !find_test(e.categories.resource_control.tests@, TestName::RequiredCgroupsControllersActive)->0.passed,
{
    crate::assessment::lemma_find_test_at(
        e.categories.resource_control.tests@,
        2,
        TestName::RequiredCgroupsControllersActive,
    );
}

/// The test that the user namespace maps to a user other than root passes
/// exactly when no uid mapping has host id 0, whatever the ids inside the
/// namespace are.
pub proof fn law_non_root_mapping_iff_no_host_root(e: EvalResult, cfg: Config, root: Seq<char>, policy: EvalPolicy)
    requires
        evaluable(cfg),
        evaluation_is(e, cfg, root, policy),
    ensures
        find_test(e.categories.access_control.tests@, TestName::UserNsMapsToNonRootUser) matches Some(r) && r.valid
            && (r.passed <==> forall|i: int|
            0 <= i < cfg.user_ns_config->0.uid_map@.len() ==> (#[trigger] cfg.user_ns_config->0.uid_map@[i]).parent
                != 0),
{
    crate::assessment::lemma_find_test_at(e.categories.access_control.tests@, 0, TestName::UserNsMapsToNonRootUser);
}

fn copy_pids(v: &Vec<i32>) -> (res: Vec<i32>)
    ensures
        res@ == v@,
{
    let mut res: Vec<i32> = Vec::new();
    let mut i: usize = 0;
    while i < v.len()
        invariant
            0 <= i <= v@.len(),
            res@ == v@.take(i as int),
        decreases v@.len() - i,
    {
        res.push(v[i]);
        assert(res@ =~= v@.take(i + 1));
        i = i + 1;
    }
    assert(v@.take(v@.len() as int) =~= v@);
    res
}

impl EvalResult {
    /// Evaluates a container's configuration: works out which namespace
    /// kinds are isolated (owned by the container's own user namespace, or by
    /// the host's when it has none) and builds each category from them, the
    /// capabilities held and the collected data. `container_root_host` is
    /// where the host sees the container's root.
    pub fn from_config(config: &Config, container_root_host: &str, policy: &EvalPolicy) -> (res: Result<EvalResult, Error>)
        requires
            evaluable(*config),
        ensures
            res matches Ok(e) && evaluation_is(e, *config, container_root_host@, *policy),
    {
        let host_info = config.info.as_ref().unwrap();
        let info = EvalInfo {
            pids_container: copy_pids(&host_info.pids_container),
            pids_ref_container: copy_pids(&host_info.pids_ref_container),
            pid_host: host_info.pid_host,
            container_root_host: String::from_str(container_root_host),
        };
        let (unprivileged, ns_set) = isolated_namespaces(config.ns_config.as_ref().unwrap());
        let categories = Categories {
            network: category_network(config, &ns_set),
            filesystem: category_filesystem(config, &ns_set, container_root_host),
            devices: category_devices(config, &ns_set, &policy.devices),
            resource_control: category_resource_control(config, &ns_set, &policy.cgroup_controllers_required),
            process_control: category_process_control(config, &ns_set),
            access_control: category_access_control(config, &ns_set),
            time: category_time(config, &ns_set),
            global: category_global(config),
        };
        Ok(EvalResult { unprivileged, categories, info: Some(info) })
    }
}

// ---------------------------------------------------------------------------
// Checking what an evaluation reads

/// Whether the namespace configuration holds what the evaluation reads.
pub fn ns_config_is_complete(cfg: &NsConfig) -> (res: bool)
    ensures
        res == ns_config_complete(*cfg),
{
    let user = last_ns_of_type(&cfg.unshared, NsType::User);
    let user_ok = match user {
        Some(u) => u.id.is_some(),
        None => match first_ns_of_type(&cfg.shared_host, NsType::User) {
            Some(h) => h.id.is_some(),
            None => false,
        },
    };
    if !user_ok {
        return false;
    }
    let all = NsType::all();
    proof {
        lemma_all_ns_types();
    }
    let mut i: usize = 0;
    while i < all.len()
        invariant
            all@ == all_ns_types(),
            0 <= i <= 8,
            forall|k: int| 0 <= k < i ==> (#[trigger] last_of_type(cfg.unshared@, all_ns_types()[k]) is Some
                ==> last_of_type(cfg.unshared@, all_ns_types()[k])->0.owner is Some),
        decreases 8 - i,
    {
        match last_ns_of_type(&cfg.unshared, all[i]) {
            Some(info) => {
                if info.owner.is_none() {
                    return false;
                }
            }
            None => {}
        }
        i = i + 1;
    }
    proof {
        assert forall|t: NsType| #[trigger] last_of_type(cfg.unshared@, t) is Some
            implies last_of_type(cfg.unshared@, t)->0.owner is Some by {
            assert(all_ns_types()[t.index()] == t);
        }
    }
    true
}

fn namespaces_identified(nss: &Vec<MountNamespace>) -> (res: bool)
    ensures
        res == nss_identified(nss@),
{
    let mut i: usize = 0;
    while i < nss.len()
        invariant
            0 <= i <= nss@.len(),
            forall|k: int| 0 <= k < i ==> (#[trigger] nss@[k]).ns_id is Some,
        decreases nss@.len() - i,
    {
        if nss[i].ns_id.is_none() {
            return false;
        }
        i = i + 1;
    }
    true
}

fn devices_identified(devs: &Vec<Device>) -> (res: bool)
    ensures
        res == devs_identified(devs@),
{
    let mut i: usize = 0;
    while i < devs.len()
        invariant
            0 <= i <= devs@.len(),
            forall|k: int| 0 <= k < i ==> (#[trigger] devs@[k]).id is Some,
        decreases devs@.len() - i,
    {
        if devs[i].id.is_none() {
            return false;
        }
        i = i + 1;
    }
    true
}

/// Whether a configuration holds what the evaluation reads.
pub fn is_evaluable(cfg: &Config) -> (res: bool)
    ensures
        res == evaluable(*cfg),
{
    let ns_ok = match &cfg.ns_config {
        Some(n) => ns_config_is_complete(n),
        None => false,
    };
    let chroot_ok = match &cfg.chroot_config {
        Some(c) => c.host.is_some() && c.container.is_some(),
        None => false,
    };
    let fs_ok = match &cfg.fs_config {
        Some(f) => namespaces_identified(&f.host_namespaces) && namespaces_identified(&f.ref_container_namespaces),
        None => false,
    };
    let dev_ok = match &cfg.device_config {
        Some(d) => devices_identified(&d.dev_devices) && devices_identified(&d.mknod_devices),
        None => false,
    };
    ns_ok && cfg.caps_config.is_some() && cfg.uts_config_host.is_some() && cfg.uts_config_container.is_some()
        && chroot_ok && fs_ok && dev_ok && cfg.cgroup_config.is_some() && cfg.user_ns_config.is_some()
        && cfg.seccomp_config.is_some() && cfg.info.is_some()
}

} // verus!
