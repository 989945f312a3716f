//! Assessment of an evaluation against four security goals: no modification of
//! global resources (S1), restricted device access (S2), no leak of container
//! data (S3) and no impact on availability (S4).

use vstd::prelude::*;
use crate::c_config::{NsType, ns_contains, all_ns_types, ns_select, ns_select_upto};
use crate::c_config::caps::Capability;
use crate::config::cap_sec::{CapabilityRecord, cap_policy};
use crate::evaluation::{
    Category, Chroot, EvalResult, Namespaces, TestName, TestResult, find_test, evaluation_is, evaluable,
    isolated_set, devs_not_allowed, flag_report, caps_held, EvalPolicy, category_ns, resource_control_ns,
    network_caps, filesystem_caps, devices_caps, resource_control_caps, process_control_caps,
    access_control_caps, time_caps, global_caps, held_caps,
};
use crate::c_config::Config;
use crate::text::has_substring;
use crate::text::{views, join, bool_text, lemma_join_step, push_joined, bool_str};

verus! {

/// How critical a finding is, from least to most critical.
#[derive(Clone, Copy, Debug, PartialEq, Eq, Hash, Structural)]
pub enum Criticality {
    Unspecified,
    Okay,
    Info,
    Warn,
    Error,
}

impl Criticality {
    /// Position of the criticality in the order of increasing criticality.
    pub open spec fn rank(self) -> int {
        match self {
            Criticality::Unspecified => 0,
            Criticality::Okay => 1,
            Criticality::Info => 2,
            Criticality::Warn => 3,
            Criticality::Error => 4,
        }
    }

    /// The protocol name, such as `CRITICALITY_WARN`.
    pub open spec fn spec_str_name(self) -> Seq<char> {
        match self {
            Criticality::Unspecified => "CRITICALITY_UNSPECIFIED"@,
            Criticality::Okay => "CRITICALITY_OK"@,
            Criticality::Info => "CRITICALITY_INFO"@,
            Criticality::Warn => "CRITICALITY_WARN"@,
            Criticality::Error => "CRITICALITY_ERROR"@,
        }
    }

    /// The variant name, as a debug listing shows it, such as `Warn`.
    pub open spec fn spec_debug_name(self) -> Seq<char> {
        match self {
            Criticality::Unspecified => "Unspecified"@,
            Criticality::Okay => "Ok"@,
            Criticality::Info => "Info"@,
            Criticality::Warn => "Warn"@,
            Criticality::Error => "Error"@,
        }
    }

    pub fn as_str_name(&self) -> (res: &'static str)
        ensures
            res@ == self.spec_str_name(),
    {
        match self {
            Criticality::Unspecified => "CRITICALITY_UNSPECIFIED",
            Criticality::Okay => "CRITICALITY_OK",
            Criticality::Info => "CRITICALITY_INFO",
            Criticality::Warn => "CRITICALITY_WARN",
            Criticality::Error => "CRITICALITY_ERROR",
        }
    }

    pub fn debug_name(&self) -> (res: &'static str)
        ensures
            res@ == self.spec_debug_name(),
    {
        match self {
            Criticality::Unspecified => "Unspecified",
            Criticality::Okay => "Ok",
            Criticality::Info => "Info",
            Criticality::Warn => "Warn",
            Criticality::Error => "Error",
        }
    }

    /// The more critical of `self` and `other`.
    pub fn max(self, other: Criticality) -> (res: Criticality)
        ensures
            res == max_crit(self, other),
    {
        if self.rank_exec() < other.rank_exec() {
            other
        } else {
            self
        }
    }

    fn rank_exec(&self) -> (res: u8)
        ensures
            res == self.rank(),
    {
        match self {
            Criticality::Unspecified => 0,
            Criticality::Okay => 1,
            Criticality::Info => 2,
            Criticality::Warn => 3,
            Criticality::Error => 4,
        }
    }
}

/// The more critical of `a` and `b`.
pub open spec fn max_crit(a: Criticality, b: Criticality) -> Criticality {
    if a.rank() < b.rank() { b } else { a }
}

/// The result of assessing a goal: its criticality and the findings behind it.
#[derive(Clone, Debug)]
pub struct SecResult {
    pub state: Criticality,
    pub info: Vec<String>,
}

impl SecResult {
    /// An empty result.
    pub fn new() -> (res: SecResult)
        ensures
            res.state == Criticality::Unspecified,
            res.info@.len() == 0,
    {
        SecResult { state: Criticality::Unspecified, info: Vec::new() }
    }

    /// Records findings of criticality `c`.
    pub fn append(&mut self, c: Criticality, info: &Vec<String>)
        ensures
            final(self).state == max_crit(old(self).state, c),
            views(final(self).info@) == views(old(self).info@) + views(info@),
    {
        self.state = self.state.max(c);
        let ghost start = views(self.info@);
        let mut i: usize = 0;
        while i < info.len()
            invariant
                0 <= i <= info@.len(),
                self.state == max_crit(old(self).state, c),
                views(self.info@) == start + views(info@).take(i as int),
            decreases info@.len() - i,
        {
            let s = info[i].clone();
            let ghost prev = self.info@;
            self.info.push(s);
            assert(self.info@ =~= prev.push(s));
            assert(views(self.info@) =~= views(prev).push(s@));
            assert(views(info@).take(i + 1) =~= views(info@).take(i as int).push(info@[i as int]@));
            assert(views(self.info@) =~= start + views(info@).take(i + 1));
            i = i + 1;
        }
        assert(views(info@).take(info@.len() as int) =~= views(info@));
    }

    /// Records one finding of criticality `c`.
    fn append_one(&mut self, c: Criticality, msg: String)
        ensures
            final(self).state == max_crit(old(self).state, c),
            views(final(self).info@) == views(old(self).info@).push(msg@),
    {
        let v = vec![msg];
        self.append(c, &v);
        assert(views(v@) =~= seq![msg@]);
        assert(views(old(self).info@) + seq![msg@] =~= views(old(self).info@).push(msg@));
    }
}

// ---------------------------------------------------------------------------
// Messages

/// Findings of an invalid or failed test.
pub open spec fn test_msgs(name: Seq<char>, t: TestResult) -> Seq<Seq<char>> {
    (if !t.valid {
        seq!["test "@ + name + " was not valid, assessment result is ERROR"@]
    } else {
        Seq::empty()
    }) + (if !t.passed {
        seq!["test "@ + name + " did not pass, assessment result is ERROR"@]
    } else {
        Seq::empty()
    })
}

/// Whether a test was valid and passed.
pub open spec fn test_ok(t: TestResult) -> bool {
    t.valid && t.passed
}

/// The names of namespace kinds.
pub open spec fn ns_str_names(v: Seq<NsType>) -> Seq<Seq<char>> {
    v.map_values(|t: NsType| t.spec_str_name())
}

/// The debug names of namespace kinds.
pub open spec fn ns_debug_names(v: Seq<NsType>) -> Seq<Seq<char>> {
    v.map_values(|t: NsType| t.spec_debug_name())
}

/// Appends the names of the kinds in `v`, separated by `", "`.
fn push_ns_names(s: &mut String, v: &Vec<NsType>, debug: bool)
    ensures
        final(s)@ == old(s)@ + join(if debug { ns_debug_names(v@) } else { ns_str_names(v@) }, ", "@),
{
    let ghost names = if debug { ns_debug_names(v@) } else { ns_str_names(v@) };
    let ghost start = s@;
    let mut i: usize = 0;
    assert(names.take(0) =~= Seq::<Seq<char>>::empty());
    while i < v.len()
        invariant
            0 <= i <= v@.len(),
            names == (if debug { ns_debug_names(v@) } else { ns_str_names(v@) }),
            names.len() == v@.len(),
            s@ == start + join(names.take(i as int), ", "@),
        decreases v@.len() - i,
    {
        let name = if debug { v[i].debug_name() } else { v[i].as_str_name() };
        assert(name@ == names[i as int]);
        proof {
            lemma_join_step(names, ", "@, i as int);
        }
        push_joined(s, i == 0, ", ", name);
        proof {
            if i == 0 {
                assert(join(names.take(0), ", "@) =~= Seq::<char>::empty());
                assert(s@ =~= start + join(names.take(i + 1), ", "@));
            } else {
                assert(s@ =~= start + join(names.take(i + 1), ", "@));
            }
        }
        i = i + 1;
    }
    assert(names.take(v@.len() as int) =~= names);
}

// ---------------------------------------------------------------------------
// Tests

/// Assesses the outcome of a test that the container ran: a test that was not
/// valid, or did not pass, is an error.
pub fn assess_test(name: &str, test: &TestResult, sec_result: &mut SecResult)
    ensures
        final(sec_result).state == if test_ok(*test) {
            old(sec_result).state
        } else {
            max_crit(old(sec_result).state, Criticality::Error)
        },
        views(final(sec_result).info@) == views(old(sec_result).info@) + test_msgs(name@, *test),
{
    if !test.valid {
        let mut msg = String::from_str("test ");
        msg.append(name);
        msg.append(" was not valid, assessment result is ERROR");
        sec_result.append_one(Criticality::Error, msg);
    }
    if !test.passed {
        let mut msg = String::from_str("test ");
        msg.append(name);
        msg.append(" did not pass, assessment result is ERROR");
        sec_result.append_one(Criticality::Error, msg);
    }
    assert(views(sec_result.info@) =~= views(old(sec_result).info@) + test_msgs(name@, *test));
}

// ---------------------------------------------------------------------------
// Capabilities

/// Whether every kind in `a` is in `b`.
pub open spec fn ns_subset(a: Seq<NsType>, b: Seq<NsType>) -> bool {
    forall|i: int| 0 <= i < a.len() ==> b.contains(#[trigger] a[i])
}

fn ns_is_subset(a: &Vec<NsType>, b: &Vec<NsType>) -> (res: bool)
    ensures
        res == ns_subset(a@, b@),
{
    let mut i: usize = 0;
    while i < a.len()
        invariant
            0 <= i <= a@.len(),
            forall|j: int| 0 <= j < i ==> b@.contains(#[trigger] a@[j]),
        decreases a@.len() - i,
    {
        if !ns_contains(b, a[i]) {
            return false;
        }
        i = i + 1;
    }
    true
}

/// The finding when `CAP_SYS_CHROOT` is held without user and mount namespaces.
pub open spec fn chroot_ns_msg(ns: Seq<NsType>) -> Seq<char> {
    "CAP_SYS_CHROOT: active namespaces '{"@ + join(ns_debug_names(ns), ", "@)
        + "}' do not match required namespaces 'TYPE_USER, TYPE_MOUNT'"@
}

/// The finding when `CAP_SYS_CHROOT` is held without a separate root.
pub open spec fn chroot_conf_msg(c: Chroot) -> Seq<char> {
    "Result for CAP_SYS_CHROOT is Criticality::Error because of result for chroot tests (chroot: '"@
        + bool_text(c.chroot) + "',  pivot_root: '"@ + bool_text(c.pivot_root) + "')"@
}

/// The finding when `CAP_SYS_CHROOT` is held while goal S2 is not met.
pub open spec fn chroot_s2_msg(s2: Criticality) -> Seq<char> {
    "CAP_SYS_CHROOT: Criticality::Error because of result '"@ + s2.spec_debug_name()
        + "' for Goal S2"@
}

/// How holding `cap` is assessed when the namespaces `ns` are active, goal S2
/// was assessed as `s2` and the root is as `chroot` says: the criticality it
/// adds and the findings it records.
pub open spec fn cap_assessment(ns: Seq<NsType>, cap: Capability, s2: Criticality, chroot: Chroot)
    -> (Criticality, Seq<Seq<char>>)
{
    if cap == Capability::CapSysChroot {
        if !(ns.contains(NsType::User) && ns.contains(NsType::Mount)) {
            (Criticality::Error, seq![chroot_ns_msg(ns)])
        } else if !chroot.chroot || !chroot.pivot_root {
            (Criticality::Error, seq![chroot_conf_msg(chroot)])
        } else if s2 != Criticality::Okay {
            (s2, seq![chroot_s2_msg(s2)])
        } else {
            (Criticality::Okay, Seq::empty())
        }
    } else {
        let (ok, warn, default, notes) = cap_policy(cap)->0;
        if ok.len() > 0 && ns_subset(ok, ns) {
            (Criticality::Unspecified, Seq::empty())
        } else if warn.len() > 0 && ns_subset(warn, ns) {
            (
                Criticality::Warn,
                seq![cap.spec_name() + ": "@ + Criticality::Warn.spec_str_name() + ", description: "@ + notes],
            )
        } else {
            (
                default,
                seq![cap.spec_name() + ": "@ + default.spec_str_name() + " (default), description: "@ + notes],
            )
        }
    }
}

/// The criticality that holding the capabilities `caps` amounts to.
pub open spec fn caps_state(ns: Seq<NsType>, caps: Seq<Capability>, s2: Criticality, chroot: Chroot) -> Criticality
    decreases caps.len(),
{
    if caps.len() == 0 {
        Criticality::Unspecified
    } else {
        max_crit(caps_state(ns, caps.drop_last(), s2, chroot), cap_assessment(ns, caps.last(), s2, chroot).0)
    }
}

/// The findings that holding the capabilities `caps` gives, in order.
pub open spec fn caps_info(ns: Seq<NsType>, caps: Seq<Capability>, s2: Criticality, chroot: Chroot) -> Seq<Seq<char>>
    decreases caps.len(),
{
    if caps.len() == 0 {
        Seq::empty()
    } else {
        caps_info(ns, caps.drop_last(), s2, chroot) + cap_assessment(ns, caps.last(), s2, chroot).1
    }
}

/// The description of `cap` in the capability table.
pub open spec fn policy_notes(cap: Capability) -> Seq<char> {
    let (_, _, _, notes) = cap_policy(cap)->0;
    notes
}

/// Whether no capability in `caps` is `Unspecified`.
pub open spec fn caps_specified(caps: Seq<Capability>) -> bool {
    forall|i: int| 0 <= i < caps.len() ==> #[trigger] caps[i] != Capability::Unspecified
}

fn assess_chroot_cap(ns_set: &Vec<NsType>, result_goal_s2: Criticality, chroot_conf: &Chroot, sec_result: &mut SecResult)
    ensures
        final(sec_result).state == max_crit(
            old(sec_result).state,
            cap_assessment(ns_set@, Capability::CapSysChroot, result_goal_s2, *chroot_conf).0,
        ),
        views(final(sec_result).info@) == views(old(sec_result).info@) + cap_assessment(
            ns_set@,
            Capability::CapSysChroot,
            result_goal_s2,
            *chroot_conf,
        ).1,
{
    if !ns_contains(ns_set, NsType::User) || !ns_contains(ns_set, NsType::Mount) {
        let mut msg = String::from_str("CAP_SYS_CHROOT: active namespaces '{");
        push_ns_names(&mut msg, ns_set, true);
        msg.append("}' do not match required namespaces 'TYPE_USER, TYPE_MOUNT'");
        sec_result.append_one(Criticality::Error, msg);
        assert(views(sec_result.info@) =~= views(old(sec_result).info@) + seq![chroot_ns_msg(ns_set@)]);
    } else if !chroot_conf.chroot || !chroot_conf.pivot_root {
        let mut msg = String::from_str(
            "Result for CAP_SYS_CHROOT is Criticality::Error because of result for chroot tests (chroot: '",
        );
        msg.append(bool_str(chroot_conf.chroot));
        msg.append("',  pivot_root: '");
        msg.append(bool_str(chroot_conf.pivot_root));
        msg.append("')");
        sec_result.append_one(Criticality::Error, msg);
        assert(views(sec_result.info@) =~= views(old(sec_result).info@) + seq![chroot_conf_msg(*chroot_conf)]);
    } else if result_goal_s2 != Criticality::Okay {
        let mut msg = String::from_str("CAP_SYS_CHROOT: Criticality::Error because of result '");
        msg.append(result_goal_s2.debug_name());
        msg.append("' for Goal S2");
        sec_result.append_one(result_goal_s2, msg);
        assert(views(sec_result.info@) =~= views(old(sec_result).info@) + seq![chroot_s2_msg(result_goal_s2)]);
    } else {
        let empty: Vec<String> = Vec::new();
        sec_result.append(Criticality::Okay, &empty);
        assert(views(empty@) =~= Seq::<Seq<char>>::empty());
        assert(views(sec_result.info@) =~= views(old(sec_result).info@));
    }
}

fn assess_listed_cap(ns_set: &Vec<NsType>, cap: Capability, sec_result: &mut SecResult)
    requires
        cap != Capability::Unspecified,
        cap != Capability::CapSysChroot,
    ensures
        forall|s2: Criticality, c: Chroot| final(sec_result).state == max_crit(
            old(sec_result).state,
            #[trigger] cap_assessment(ns_set@, cap, s2, c).0,
        ) && views(final(sec_result).info@) == views(old(sec_result).info@) + cap_assessment(ns_set@, cap, s2, c).1,
{
    let record = CapabilityRecord::for_capability(cap).unwrap();
    let ok = record.ok();
    let warn = record.warn();
    if ok.len() > 0 && ns_is_subset(ok, ns_set) {
        assert(max_crit(old(sec_result).state, Criticality::Unspecified) == old(sec_result).state);
        assert(views(sec_result.info@) =~= views(old(sec_result).info@) + Seq::<Seq<char>>::empty());
    } else if warn.len() > 0 && ns_is_subset(warn, ns_set) {
        let mut msg = String::from_str(cap.name());
        msg.append(": ");
        msg.append(Criticality::Warn.as_str_name());
        msg.append(", description: ");
        msg.append(record.notes());
        sec_result.append_one(Criticality::Warn, msg);
        assert(views(sec_result.info@) =~= views(old(sec_result).info@)
            + seq![cap.spec_name() + ": "@ + Criticality::Warn.spec_str_name() + ", description: "@ + policy_notes(cap)]);
    } else {
        let d = record.default();
        let mut msg = String::from_str(cap.name());
        msg.append(": ");
        msg.append(d.as_str_name());
        msg.append(" (default), description: ");
        msg.append(record.notes());
        sec_result.append_one(d, msg);
        assert(views(sec_result.info@) =~= views(old(sec_result).info@)
            + seq![cap.spec_name() + ": "@ + d.spec_str_name() + " (default), description: "@ + policy_notes(cap)]);
    }
}

/// Assesses the capabilities `cap_set` held by the container, given the
/// active namespaces `ns_set`, the result of goal S2 and the root
/// configuration; each capability is looked up in the capability table.
pub fn assess_capabilities(
    ns_set: &Vec<NsType>,
    cap_set: &Vec<Capability>,
    result_goal_s2: Criticality,
    chroot_conf: &Chroot,
) -> (res: SecResult)
    requires
        caps_specified(cap_set@),
    ensures
        res.state == caps_state(ns_set@, cap_set@, result_goal_s2, *chroot_conf),
        views(res.info@) == caps_info(ns_set@, cap_set@, result_goal_s2, *chroot_conf),
{
    let mut sec_result = SecResult::new();
    let mut i: usize = 0;
    assert(cap_set@.take(0) =~= Seq::<Capability>::empty());
    assert(views(sec_result.info@) =~= Seq::<Seq<char>>::empty());
    while i < cap_set.len()
        invariant
            0 <= i <= cap_set@.len(),
            caps_specified(cap_set@),
            sec_result.state == caps_state(ns_set@, cap_set@.take(i as int), result_goal_s2, *chroot_conf),
            views(sec_result.info@) == caps_info(ns_set@, cap_set@.take(i as int), result_goal_s2, *chroot_conf),
        decreases cap_set@.len() - i,
    {
        let cap = cap_set[i];
        assert(cap_set@.take(i + 1).drop_last() =~= cap_set@.take(i as int));
        assert(cap_set@.take(i + 1).last() == cap);
        if cap == Capability::CapSysChroot {
            assess_chroot_cap(ns_set, result_goal_s2, chroot_conf, &mut sec_result);
        } else {
            assess_listed_cap(ns_set, cap, &mut sec_result);
            assert(sec_result.state == max_crit(
                caps_state(ns_set@, cap_set@.take(i as int), result_goal_s2, *chroot_conf),
                cap_assessment(ns_set@, cap, result_goal_s2, *chroot_conf).0,
            ));
        }
        i = i + 1;
    }
    assert(cap_set@.take(cap_set@.len() as int) =~= cap_set@);
    sec_result
}

// ---------------------------------------------------------------------------
// Goals

/// Goal S1: no modification of global resources.
#[derive(Clone, Debug)]
pub struct GoalS1GlobalResourceModification {
    pub description: String,
    pub result: Option<SecResult>,
    pub namespace_conf: Option<Namespaces>,
    pub capabilities: Vec<Capability>,
    pub chroot_conf: Option<Chroot>,
}

/// Goal S2: restricted access to devices.
#[derive(Clone, Debug)]
pub struct GoalS2RestrictedDeviceAccess {
    pub description: String,
    pub result: Option<SecResult>,
}

/// Goal S3: no leak of container data.
#[derive(Clone, Debug)]
pub struct GoalS3NoContainerDataLeak {
    pub description: String,
    pub result: Option<SecResult>,
}

/// Goal S4: no impact on availability.
#[derive(Clone, Debug)]
pub struct GoalS4NoAvaiabilityImpact {
    pub description: String,
    pub result: Option<SecResult>,
    pub cgroups_namespace_used: bool,
}

/// The assessment of an evaluation.
#[derive(Clone, Debug)]
pub struct AssessmentReport {
    pub unprivileged: bool,
    pub goal_s1: Option<GoalS1GlobalResourceModification>,
    pub goal_s2: Option<GoalS2RestrictedDeviceAccess>,
    pub goal_s3: Option<GoalS3NoContainerDataLeak>,
    pub goal_s4: Option<GoalS4NoAvaiabilityImpact>,
}

/// The outcome of the test `n` of category `c`.
pub open spec fn test_of(c: Category, n: TestName) -> TestResult {
    find_test(c.tests@, n)->0
}

/// The criticality after assessing test `t`, starting from `state`.
pub open spec fn after_test(state: Criticality, t: TestResult) -> Criticality {
    if test_ok(t) { state } else { max_crit(state, Criticality::Error) }
}

/// Whether an evaluation holds what the assessment reads: the isolation
/// information of the resource control and filesystem categories, the tests
/// that the goals look at, and no unspecified capability.
pub open spec fn assessable(e: EvalResult) -> bool {
    let c = e.categories;
    &&& c.resource_control.isolation is Some
    &&& c.resource_control.isolation->0.namespaces is Some
    &&& c.filesystem.isolation is Some
    &&& c.filesystem.isolation->0.chroot is Some
    &&& find_test(c.resource_control.tests@, TestName::CpuMaxLimited) is Some
    &&& find_test(c.resource_control.tests@, TestName::MemoryMaxLimited) is Some
    &&& find_test(c.access_control.tests@, TestName::UserNsMappingUnique) is Some
    &&& find_test(c.access_control.tests@, TestName::UserNsMapsToNonRootUser) is Some
    &&& find_test(c.filesystem.tests@, TestName::FlagMatchesRefcontainer) is Some
    &&& find_test(c.filesystem.tests@, TestName::FlagMatchesHost) is Some
    &&& find_test(c.devices.tests@, TestName::DevWhitelistCompliance) is Some
    &&& find_test(c.devices.tests@, TestName::MknodWhitelistCompliance) is Some
    &&& caps_specified(s1_caps(e))
}

impl EvalResult {
    /// Whether the evaluation holds what the assessment reads.
    pub fn is_assessable(&self) -> (res: bool)
        ensures
            res == assessable(*self),
    {
        let c = &self.categories;
        let rc_ok = match &c.resource_control.isolation {
            Some(iso) => iso.namespaces.is_some(),
            None => false,
        };
        let fs_ok = match &c.filesystem.isolation {
            Some(iso) => iso.chroot.is_some(),
            None => false,
        };
        rc_ok && fs_ok
            && c.resource_control.test(TestName::CpuMaxLimited).is_some()
            && c.resource_control.test(TestName::MemoryMaxLimited).is_some()
            && c.access_control.test(TestName::UserNsMappingUnique).is_some()
            && c.access_control.test(TestName::UserNsMapsToNonRootUser).is_some()
            && c.filesystem.test(TestName::FlagMatchesRefcontainer).is_some()
            && c.filesystem.test(TestName::FlagMatchesHost).is_some()
            && c.devices.test(TestName::DevWhitelistCompliance).is_some()
            && c.devices.test(TestName::MknodWhitelistCompliance).is_some()
            && all_caps_specified(self)
    }
}

fn caps_vec_specified(v: &Vec<Capability>) -> (res: bool)
    ensures
        res == caps_specified(v@),
{
    let mut i: usize = 0;
    while i < v.len()
        invariant
            0 <= i <= v@.len(),
            forall|j: int| 0 <= j < i ==> #[trigger] v@[j] != Capability::Unspecified,
        decreases v@.len() - i,
    {
        if v[i] == Capability::Unspecified {
            return false;
        }
        i = i + 1;
    }
    true
}

proof fn lemma_caps_specified_concat(a: Seq<Capability>, b: Seq<Capability>)
    ensures
        caps_specified(a + b) == (caps_specified(a) && caps_specified(b)),
{
    if caps_specified(a) && caps_specified(b) {
        assert forall|i: int| 0 <= i < (a + b).len() implies #[trigger] (a + b)[i] != Capability::Unspecified by {
            if i >= a.len() {
                assert((a + b)[i] == b[i - a.len()]);
            }
        }
    }
    if caps_specified(a + b) {
        assert forall|i: int| 0 <= i < a.len() implies #[trigger] a[i] != Capability::Unspecified by {
            assert((a + b)[i] == a[i]);
        }
        assert forall|i: int| 0 <= i < b.len() implies #[trigger] b[i] != Capability::Unspecified by {
            assert((a + b)[a.len() + i] == b[i]);
        }
    }
}

fn all_caps_specified(e: &EvalResult) -> (res: bool)
    ensures
        res == caps_specified(s1_caps(*e)),
{
    let c = &e.categories;
    proof {
        let s = c.network.capabilities@;
        let s = s + c.filesystem.capabilities@;
        lemma_caps_specified_concat(c.network.capabilities@, c.filesystem.capabilities@);
        lemma_caps_specified_concat(s, c.devices.capabilities@);
        let s = s + c.devices.capabilities@;
        lemma_caps_specified_concat(s, c.resource_control.capabilities@);
        let s = s + c.resource_control.capabilities@;
        lemma_caps_specified_concat(s, c.process_control.capabilities@);
        let s = s + c.process_control.capabilities@;
        lemma_caps_specified_concat(s, c.access_control.capabilities@);
        let s = s + c.access_control.capabilities@;
        lemma_caps_specified_concat(s, c.time.capabilities@);
        let s = s + c.time.capabilities@;
        lemma_caps_specified_concat(s, c.global.capabilities@);
    }
    caps_vec_specified(&c.network.capabilities) && caps_vec_specified(&c.filesystem.capabilities)
        && caps_vec_specified(&c.devices.capabilities)
        && caps_vec_specified(&c.resource_control.capabilities)
        && caps_vec_specified(&c.process_control.capabilities)
        && caps_vec_specified(&c.access_control.capabilities)
        && caps_vec_specified(&c.time.capabilities)
        && caps_vec_specified(&c.global.capabilities)
}

// --- S2

/// The criticality of goal S2.
pub open spec fn goal_s2_state(e: EvalResult) -> Criticality {
    let d = e.categories.devices;
    after_test(
        after_test(Criticality::Okay, test_of(d, TestName::DevWhitelistCompliance)),
        test_of(d, TestName::MknodWhitelistCompliance),
    )
}

/// The findings of goal S2.
pub open spec fn goal_s2_info(e: EvalResult) -> Seq<Seq<char>> {
    let d = e.categories.devices;
    test_msgs("dev_whitelist_compliance"@, test_of(d, TestName::DevWhitelistCompliance))
        + test_msgs("mknod_whitelist_compliance"@, test_of(d, TestName::MknodWhitelistCompliance))
}

fn assess_named_test(category: &Category, name: TestName, sec_result: &mut SecResult)
    requires
        find_test(category.tests@, name) is Some,
    ensures
        final(sec_result).state == after_test(old(sec_result).state, test_of(*category, name)),
        views(final(sec_result).info@) == views(old(sec_result).info@) + test_msgs(
            name.spec_name(),
            test_of(*category, name),
        ),
{
    let t = category.test(name).unwrap();
    assess_test(name.name(), t, sec_result);
}

fn assess_goal_s2(_unprivileged: bool, eval_result: &EvalResult) -> (res: Option<GoalS2RestrictedDeviceAccess>)
    requires
        assessable(*eval_result),
    ensures
        res matches Some(g) && g.result matches Some(r) && r.state == goal_s2_state(*eval_result)
            && views(r.info@) == goal_s2_info(*eval_result)
            && g.description@ == "Restriction of device access"@,
{
    let mut sec_result = SecResult::new();
    sec_result.state = Criticality::Okay;
    let d = &eval_result.categories.devices;
    assess_named_test(d, TestName::DevWhitelistCompliance, &mut sec_result);
    assess_named_test(d, TestName::MknodWhitelistCompliance, &mut sec_result);
    proof {
        assert(views(sec_result.info@) =~= goal_s2_info(*eval_result));
    }
    Some(GoalS2RestrictedDeviceAccess {
        description: String::from_str("Restriction of device access"),
        result: Some(sec_result),
    })
}

// --- S3

/// The criticality of goal S3.
pub open spec fn goal_s3_state(e: EvalResult) -> Criticality {
    let c = e.categories;
    after_test(
        after_test(
            after_test(Criticality::Okay, test_of(c.access_control, TestName::UserNsMappingUnique)),
            test_of(c.filesystem, TestName::FlagMatchesRefcontainer),
        ),
        test_of(c.filesystem, TestName::FlagMatchesHost),
    )
}

/// The findings of goal S3.
pub open spec fn goal_s3_info(e: EvalResult) -> Seq<Seq<char>> {
    let c = e.categories;
    test_msgs("user_ns_mapping_unique"@, test_of(c.access_control, TestName::UserNsMappingUnique))
        + test_msgs("flag_matches_refcontainer"@, test_of(c.filesystem, TestName::FlagMatchesRefcontainer))
        + test_msgs("flag_matches_host"@, test_of(c.filesystem, TestName::FlagMatchesHost))
}

fn assess_goal_s3(_unprivileged: bool, eval_result: &EvalResult) -> (res: Option<GoalS3NoContainerDataLeak>)
    requires
        assessable(*eval_result),
    ensures
        res matches Some(g) && g.result matches Some(r) && r.state == goal_s3_state(*eval_result)
            && views(r.info@) == goal_s3_info(*eval_result)
            && g.description@ == "No container data leak"@,
{
    let mut sec_result = SecResult::new();
    sec_result.state = Criticality::Okay;
    let c = &eval_result.categories;
    assess_named_test(&c.access_control, TestName::UserNsMappingUnique, &mut sec_result);
    assess_named_test(&c.filesystem, TestName::FlagMatchesRefcontainer, &mut sec_result);
    assess_named_test(&c.filesystem, TestName::FlagMatchesHost, &mut sec_result);
    proof {
        assert(views(sec_result.info@) =~= goal_s3_info(*eval_result));
    }
    Some(GoalS3NoContainerDataLeak {
        description: String::from_str("No container data leak"),
        result: Some(sec_result),
    })
}

// --- S4

/// The namespaces of the resource control category.
pub open spec fn rc_namespaces(e: EvalResult) -> Namespaces {
    e.categories.resource_control.isolation->0.namespaces->0
}

/// Whether the cgroup namespaces in place are those asked for.
pub open spec fn cgroup_ns_matches(e: EvalResult) -> bool {
    rc_namespaces(e).desired@ == rc_namespaces(e).active@
}

/// The finding when they are not.
pub open spec fn s4_ns_msg(n: Namespaces) -> Seq<char> {
    "Active namespaces ("@ + join(ns_str_names(n.active@), ", "@) + ") did not match desired ones ("@
        + join(ns_str_names(n.desired@), ", "@)
        + ") for category 'resource_control', assessment result for goal S4 is ERROR"@
}

/// The criticality of goal S4.
pub open spec fn goal_s4_state(e: EvalResult) -> Criticality {
    let rc = e.categories.resource_control;
    let start = if cgroup_ns_matches(e) { Criticality::Okay } else { max_crit(Criticality::Okay, Criticality::Error) };
    after_test(after_test(start, test_of(rc, TestName::CpuMaxLimited)), test_of(rc, TestName::MemoryMaxLimited))
}

/// The findings of goal S4.
pub open spec fn goal_s4_info(e: EvalResult) -> Seq<Seq<char>> {
    let rc = e.categories.resource_control;
    (if cgroup_ns_matches(e) { Seq::empty() } else { seq![s4_ns_msg(rc_namespaces(e))] })
        + test_msgs("cpu_max_limited"@, test_of(rc, TestName::CpuMaxLimited))
        + test_msgs("memory_max_limited"@, test_of(rc, TestName::MemoryMaxLimited))
}

fn ns_vec_eq(a: &Vec<NsType>, b: &Vec<NsType>) -> (res: bool)
    ensures
        res == (a@ == b@),
{
    if a.len() != b.len() {
        return false;
    }
    let mut i: usize = 0;
    while i < a.len()
        invariant
            a@.len() == b@.len(),
            0 <= i <= a@.len(),
            forall|j: int| 0 <= j < i ==> a@[j] == b@[j],
        decreases a@.len() - i,
    {
        if a[i] != b[i] {
            return false;
        }
        i = i + 1;
    }
    assert(a@ =~= b@);
    true
}

fn assess_goal_s4(_unprivileged: bool, eval_result: &EvalResult) -> (res: Option<GoalS4NoAvaiabilityImpact>)
    requires
        assessable(*eval_result),
    ensures
        res matches Some(g) && g.result matches Some(r) && r.state == goal_s4_state(*eval_result)
            && views(r.info@) == goal_s4_info(*eval_result)
            && g.cgroups_namespace_used == cgroup_ns_matches(*eval_result)
            && g.description@ == "No availability impact"@,
{
    let mut sec_result = SecResult::new();
    sec_result.state = Criticality::Okay;
    let rc = &eval_result.categories.resource_control;
    let ns = rc.isolation.as_ref().unwrap().namespaces.as_ref().unwrap();
    let used = ns_vec_eq(&ns.desired, &ns.active);
    if !used {
        let mut msg = String::from_str("Active namespaces (");
        push_ns_names(&mut msg, &ns.active, false);
        msg.append(") did not match desired ones (");
        push_ns_names(&mut msg, &ns.desired, false);
        msg.append(") for category 'resource_control', assessment result for goal S4 is ERROR");
        sec_result.append_one(Criticality::Error, msg);
    }
    assess_named_test(rc, TestName::CpuMaxLimited, &mut sec_result);
    assess_named_test(rc, TestName::MemoryMaxLimited, &mut sec_result);
    proof {
        assert(views(sec_result.info@) =~= goal_s4_info(*eval_result));
    }
    Some(GoalS4NoAvaiabilityImpact {
        description: String::from_str("No availability impact"),
        result: Some(sec_result),
        cgroups_namespace_used: used,
    })
}

// --- S1

/// The capabilities of all categories, in report order.
pub open spec fn s1_caps(e: EvalResult) -> Seq<Capability> {
    let c = e.categories;
    c.network.capabilities@ + c.filesystem.capabilities@ + c.devices.capabilities@
        + c.resource_control.capabilities@ + c.process_control.capabilities@
        + c.access_control.capabilities@ + c.time.capabilities@ + c.global.capabilities@
}

/// Whether category `c` lists namespace kind `t` as active (`active`) or as
/// desired (`!active`).
pub open spec fn cat_ns_has(c: Category, t: NsType, active: bool) -> bool {
    &&& c.isolation is Some
    &&& c.isolation->0.namespaces is Some
    &&& if active {
        c.isolation->0.namespaces->0.active@.contains(t)
    } else {
        c.isolation->0.namespaces->0.desired@.contains(t)
    }
}

/// Whether some category lists `t` as active (`active`) or desired (`!active`).
pub open spec fn any_cat_ns_has(e: EvalResult, t: NsType, active: bool) -> bool {
    let c = e.categories;
    cat_ns_has(c.network, t, active) || cat_ns_has(c.filesystem, t, active) || cat_ns_has(c.devices, t, active)
        || cat_ns_has(c.resource_control, t, active) || cat_ns_has(c.process_control, t, active)
        || cat_ns_has(c.access_control, t, active) || cat_ns_has(c.time, t, active)
        || cat_ns_has(c.global, t, active)
}

/// The namespace kinds active in some category, in canonical order.
pub open spec fn s1_active(e: EvalResult) -> Seq<NsType> {
    ns_select(|t: NsType| any_cat_ns_has(e, t, true))
}

/// The namespace kinds desired by some category, in canonical order.
pub open spec fn s1_desired(e: EvalResult) -> Seq<NsType> {
    ns_select(|t: NsType| any_cat_ns_has(e, t, false))
}

/// The namespace kinds desired by some category and active in none.
pub open spec fn s1_missing(e: EvalResult) -> Seq<NsType> {
    ns_select(|t: NsType| any_cat_ns_has(e, t, false) && !any_cat_ns_has(e, t, true))
}

/// The root configuration that the filesystem category records.
pub open spec fn s1_chroot(e: EvalResult) -> Chroot {
    e.categories.filesystem.isolation->0.chroot->0
}

/// The finding when the container's root is not separate.
pub open spec fn s1_chroot_msg(c: Chroot) -> Seq<char> {
    "goal_s1: Unexpected chroot config: chroot "@ + bool_text(c.chroot) + ", pivot_root: "@ + bool_text(c.pivot_root)
}

/// The finding when desired namespaces are not active.
pub open spec fn s1_missing_msg(missing: Seq<NsType>) -> Seq<char> {
    "Active namespaces do not match desired namespaces: "@ + join(ns_str_names(missing), ", "@)
}

/// Whether the container's root is not separate from the host's.
pub open spec fn chroot_bad(c: Chroot) -> bool {
    !c.chroot || !c.pivot_root
}

/// The criticality of goal S1, when goal S2 was assessed as `s2`.
pub open spec fn goal_s1_state(e: EvalResult, s2: Criticality) -> Criticality {
    let chroot = s1_chroot(e);
    let st1 = if chroot_bad(chroot) { max_crit(Criticality::Okay, Criticality::Error) } else { Criticality::Okay };
    let st2 = if s1_missing(e).len() > 0 { max_crit(st1, Criticality::Error) } else { st1 };
    let st3 = max_crit(st2, caps_state(s1_active(e), s1_caps(e), s2, chroot));
    after_test(st3, test_of(e.categories.access_control, TestName::UserNsMapsToNonRootUser))
}

/// The findings of goal S1, when goal S2 was assessed as `s2`.
pub open spec fn goal_s1_info(e: EvalResult, s2: Criticality) -> Seq<Seq<char>> {
    let chroot = s1_chroot(e);
    (if chroot_bad(chroot) { seq![s1_chroot_msg(chroot)] } else { Seq::empty() })
        + (if s1_missing(e).len() > 0 { seq![s1_missing_msg(s1_missing(e))] } else { Seq::empty() })
        + caps_info(s1_active(e), s1_caps(e), s2, chroot)
        + test_msgs(
            "user_ns_maps_to_non_root_user"@,
            test_of(e.categories.access_control, TestName::UserNsMapsToNonRootUser),
        )
}

fn cat_has_ns(c: &Category, t: NsType, active: bool) -> (res: bool)
    ensures
        res == cat_ns_has(*c, t, active),
{
    match &c.isolation {
        Some(iso) => match &iso.namespaces {
            Some(ns) => if active {
                ns_contains(&ns.active, t)
            } else {
                ns_contains(&ns.desired, t)
            },
            None => false,
        },
        None => false,
    }
}

fn any_cat_has_ns(e: &EvalResult, t: NsType, active: bool) -> (res: bool)
    ensures
        res == any_cat_ns_has(*e, t, active),
{
    let c = &e.categories;
    cat_has_ns(&c.network, t, active) || cat_has_ns(&c.filesystem, t, active)
        || cat_has_ns(&c.devices, t, active) || cat_has_ns(&c.resource_control, t, active)
        || cat_has_ns(&c.process_control, t, active) || cat_has_ns(&c.access_control, t, active)
        || cat_has_ns(&c.time, t, active) || cat_has_ns(&c.global, t, active)
}

/// The namespace kinds active (`active`) or desired (`!active`) in some
/// category; with `missing`, those desired and active in none.
fn collect_ns(e: &EvalResult, active: bool, missing: bool) -> (res: Vec<NsType>)
    ensures
        res@ == if missing {
            s1_missing(*e)
        } else if active {
            s1_active(*e)
        } else {
            s1_desired(*e)
        },
{
    let ghost pred = if missing {
        |t: NsType| any_cat_ns_has(*e, t, false) && !any_cat_ns_has(*e, t, true)
    } else if active {
        |t: NsType| any_cat_ns_has(*e, t, true)
    } else {
        |t: NsType| any_cat_ns_has(*e, t, false)
    };
    let all = NsType::all();
    let mut res: Vec<NsType> = Vec::new();
    let mut i: usize = 0;
    while i < all.len()
        invariant
            all@ == all_ns_types(),
            0 <= i <= 8,
            res@ == ns_select_upto(pred, i as int),
            pred == (if missing {
                |t: NsType| any_cat_ns_has(*e, t, false) && !any_cat_ns_has(*e, t, true)
            } else if active {
                |t: NsType| any_cat_ns_has(*e, t, true)
            } else {
                |t: NsType| any_cat_ns_has(*e, t, false)
            }),
        decreases 8 - i,
    {
        let t = all[i];
        let keep = if missing {
            any_cat_has_ns(e, t, false) && !any_cat_has_ns(e, t, true)
        } else {
            any_cat_has_ns(e, t, active)
        };
        assert(keep == pred(t));
        if keep {
            res.push(t);
        }
        assert(res@ =~= ns_select_upto(pred, i + 1));
        i = i + 1;
    }
    res
}

fn assess_goal_s1(
    _unprivileged: bool,
    eval_result: &EvalResult,
    result_goal_s2: Criticality,
) -> (res: Option<GoalS1GlobalResourceModification>)
    requires
        assessable(*eval_result),
    ensures
        res matches Some(g) && g.result matches Some(r)
            && r.state == goal_s1_state(*eval_result, result_goal_s2)
            && views(r.info@) == goal_s1_info(*eval_result, result_goal_s2)
            && g.namespace_conf is Some
            && g.namespace_conf->0.active@ == s1_active(*eval_result)
            && g.namespace_conf->0.desired@ == s1_desired(*eval_result)
            && g.capabilities@ == s1_caps(*eval_result)
            && g.chroot_conf == Some(s1_chroot(*eval_result))
            && g.description@ == "Restriction of global resource modification"@,
{
    let mut sec_result = SecResult::new();
    sec_result.state = Criticality::Okay;

    let active_ns = collect_ns(eval_result, true, false);
    let desired_ns = collect_ns(eval_result, false, false);

    let c = &eval_result.categories;
    let mut capabilities: Vec<Capability> = Vec::new();
    capabilities.extend_from_slice(c.network.capabilities.as_slice());
    capabilities.extend_from_slice(c.filesystem.capabilities.as_slice());
    capabilities.extend_from_slice(c.devices.capabilities.as_slice());
    capabilities.extend_from_slice(c.resource_control.capabilities.as_slice());
    capabilities.extend_from_slice(c.process_control.capabilities.as_slice());
    capabilities.extend_from_slice(c.access_control.capabilities.as_slice());
    capabilities.extend_from_slice(c.time.capabilities.as_slice());
    capabilities.extend_from_slice(c.global.capabilities.as_slice());
    assert(capabilities@ =~= s1_caps(*eval_result));

    let chroot_conf: Chroot = match &c.filesystem.isolation {
        Some(iso) => match iso.chroot {
            Some(ch) => ch,
            None => return None,
        },
        None => return None,
    };

    if !chroot_conf.chroot || !chroot_conf.pivot_root {
        let mut msg = String::from_str("goal_s1: Unexpected chroot config: chroot ");
        msg.append(bool_str(chroot_conf.chroot));
        msg.append(", pivot_root: ");
        msg.append(bool_str(chroot_conf.pivot_root));
        sec_result.append_one(Criticality::Error, msg);
    }

    let missing = collect_ns(eval_result, false, true);
    if missing.len() > 0 {
        let mut msg = String::from_str("Active namespaces do not match desired namespaces: ");
        push_ns_names(&mut msg, &missing, false);
        sec_result.append_one(Criticality::Error, msg);
    }

    let sec_result_caps = assess_capabilities(&active_ns, &capabilities, result_goal_s2, &chroot_conf);
    sec_result.append(sec_result_caps.state, &sec_result_caps.info);

    assess_named_test(&c.access_control, TestName::UserNsMapsToNonRootUser, &mut sec_result);
    proof {
        assert(views(sec_result.info@) =~= goal_s1_info(*eval_result, result_goal_s2));
    }

    let namespaces = Namespaces { active: active_ns, desired: desired_ns };
    Some(GoalS1GlobalResourceModification {
        description: String::from_str("Restriction of global resource modification"),
        result: Some(sec_result),
        namespace_conf: Some(namespaces),
        capabilities,
        chroot_conf: Some(chroot_conf),
    })
}

// --- The report

/// Assesses an evaluation against the four security goals. Goal S2 is
/// assessed first, as the assessment of `CAP_SYS_CHROOT` in goal S1 depends on
/// its result.
pub fn assess_eval_result(eval_result: &EvalResult) -> (res: AssessmentReport)
    requires
        assessable(*eval_result),
    ensures
        res.unprivileged == eval_result.unprivileged,
        res.goal_s2 matches Some(g) && g.result matches Some(r)
            && r.state == goal_s2_state(*eval_result)
            && views(r.info@) == goal_s2_info(*eval_result)
            && g.description@ == "Restriction of device access"@,
        res.goal_s1 matches Some(g) && g.result matches Some(r)
            && r.state == goal_s1_state(*eval_result, goal_s2_state(*eval_result))
            && views(r.info@) == goal_s1_info(*eval_result, goal_s2_state(*eval_result))
            && g.namespace_conf is Some
            && g.namespace_conf->0.active@ == s1_active(*eval_result)
            && g.namespace_conf->0.desired@ == s1_desired(*eval_result)
            && g.capabilities@ == s1_caps(*eval_result)
            && g.chroot_conf == Some(s1_chroot(*eval_result))
            && g.description@ == "Restriction of global resource modification"@,
        res.goal_s3 matches Some(g) && g.result matches Some(r)
            && r.state == goal_s3_state(*eval_result)
            && views(r.info@) == goal_s3_info(*eval_result)
            && g.description@ == "No container data leak"@,
        res.goal_s4 matches Some(g) && g.result matches Some(r)
            && r.state == goal_s4_state(*eval_result)
            && views(r.info@) == goal_s4_info(*eval_result)
            && g.cgroups_namespace_used == cgroup_ns_matches(*eval_result)
            && g.description@ == "No availability impact"@,
{
    let unprivileged = eval_result.unprivileged;
    let goal_s2 = assess_goal_s2(unprivileged, eval_result);
    let result_goal_s2 = match &goal_s2 {
        Some(g) => match &g.result {
            Some(r) => r.state,
            None => Criticality::Error,
        },
        None => Criticality::Error,
    };
    let goal_s1 = assess_goal_s1(unprivileged, eval_result, result_goal_s2);
    let goal_s3 = assess_goal_s3(unprivileged, eval_result);
    let goal_s4 = assess_goal_s4(unprivileged, eval_result);
    AssessmentReport { unprivileged, goal_s1, goal_s2, goal_s3, goal_s4 }
}

// ---------------------------------------------------------------------------
// Laws

/// Holding one more capability never makes the assessment of capabilities
/// less critical, and keeps the findings made so far.
pub proof fn law_capability_monotone(
    ns: Seq<NsType>,
    caps: Seq<Capability>,
    cap: Capability,
    s2: Criticality,
    chroot: Chroot,
)
    ensures
        caps_state(ns, caps.push(cap), s2, chroot).rank() >= caps_state(ns, caps, s2, chroot).rank(),
        caps_info(ns, caps, s2, chroot).is_prefix_of(caps_info(ns, caps.push(cap), s2, chroot)),
{
    assert(caps.push(cap).drop_last() =~= caps);
}

/// Whether holding `cap` is a finding: it is not for a capability whose
/// table entry names namespaces under which it is harmless and all of them
/// are active, nor for `CAP_SYS_CHROOT` with user and mount namespaces active,
/// a separate root reached by `pivot_root` and goal S2 assessed as `Okay`.
pub open spec fn cap_is_finding(ns: Seq<NsType>, cap: Capability, s2: Criticality, chroot: Chroot) -> bool {
    if cap == Capability::CapSysChroot {
        !(ns.contains(NsType::User) && ns.contains(NsType::Mount) && chroot.chroot && chroot.pivot_root
            && s2 == Criticality::Okay)
    } else {
        let (ok, _, _, _) = cap_policy(cap)->0;
        !(ok.len() > 0 && ns_subset(ok, ns))
    }
}

/// The number of capabilities of `caps` whose holding is a finding.
pub open spec fn findings_count(ns: Seq<NsType>, caps: Seq<Capability>, s2: Criticality, chroot: Chroot) -> nat
    decreases caps.len(),
{
    if caps.len() == 0 {
        0
    } else {
        findings_count(ns, caps.drop_last(), s2, chroot) + if cap_is_finding(ns, caps.last(), s2, chroot) { 1nat } else { 0nat }
    }
}

/// The criticality of the capabilities `caps` with the capability at `k`
/// taken out and assessed last.
proof fn lemma_caps_extract_state(ns: Seq<NsType>, caps: Seq<Capability>, k: int, s2: Criticality, chroot: Chroot)
    requires
        0 <= k < caps.len(),
    ensures
        caps_state(ns, caps, s2, chroot)
            == max_crit(caps_state(ns, caps.remove(k), s2, chroot), cap_assessment(ns, caps[k], s2, chroot).0),
    decreases caps.len(),
{
    let dl = caps.drop_last();
    if k == caps.len() - 1 {
        assert(caps.remove(k) =~= dl);
    } else {
        let r = caps.remove(k);
        lemma_caps_extract_state(ns, dl, k, s2, chroot);
        assert(dl.remove(k) =~= r.drop_last());
        assert(r.last() == caps.last());
        assert(dl[k] == caps[k]);
    }
}

/// The findings of the capabilities `caps` with the capability at `k`
/// taken out and assessed last, as a multiset.
#[verifier::spinoff_prover]
proof fn lemma_caps_extract_info(ns: Seq<NsType>, caps: Seq<Capability>, k: int, s2: Criticality, chroot: Chroot)
    requires
        0 <= k < caps.len(),
    ensures
        caps_info(ns, caps, s2, chroot).to_multiset() =~= caps_info(ns, caps.remove(k), s2, chroot).to_multiset().add(
            cap_assessment(ns, caps[k], s2, chroot).1.to_multiset(),
        ),
    decreases caps.len(),
{
    broadcast use vstd::multiset::group_multiset_axioms;
    let dl = caps.drop_last();
    let last_info = cap_assessment(ns, caps.last(), s2, chroot).1;
    vstd::seq_lib::lemma_multiset_commutative(caps_info(ns, dl, s2, chroot), last_info);
    if k == caps.len() - 1 {
        assert(caps.remove(k) =~= dl);
    } else {
        let r = caps.remove(k);
        lemma_caps_extract_info(ns, dl, k, s2, chroot);
        assert(dl.remove(k) =~= r.drop_last());
        assert(r.last() == caps.last());
        assert(dl[k] == caps[k]);
        vstd::seq_lib::lemma_multiset_commutative(caps_info(ns, r.drop_last(), s2, chroot), last_info);
    }
}

/// The order in which capabilities are held does not matter: holding the
/// same capabilities in another order gives the same criticality and the
/// same findings, in another order; and there is one finding for each
/// capability whose holding is a finding.
#[verifier::spinoff_prover]
pub proof fn law_capabilities_order_irrelevant(
    ns: Seq<NsType>,
    caps: Seq<Capability>,
    other: Seq<Capability>,
    s2: Criticality,
    chroot: Chroot,
)
    requires
        other.to_multiset() =~= caps.to_multiset(),
    ensures
        caps_state(ns, other, s2, chroot) == caps_state(ns, caps, s2, chroot),
        caps_info(ns, other, s2, chroot).to_multiset() =~= caps_info(ns, caps, s2, chroot).to_multiset(),
        caps_info(ns, caps, s2, chroot).len() == findings_count(ns, caps, s2, chroot),
    decreases caps.len(),
{
    broadcast use vstd::multiset::group_multiset_axioms;
    broadcast use vstd::seq_lib::group_to_multiset_ensures;
    vstd::seq_lib::to_multiset_len(other);
    vstd::seq_lib::to_multiset_len(caps);
    if caps.len() == 0 {
        assert(other =~= caps);
    } else {
        let x = caps.last();
        let dl = caps.drop_last();
        assert(caps =~= dl.push(x));
        assert(caps.to_multiset().count(x) > 0);
        assert(other.contains(x));
        let k = choose|k: int| 0 <= k < other.len() && other[k] == x;
        let r = other.remove(k);
        assert(r.to_multiset() =~= dl.to_multiset());
        law_capabilities_order_irrelevant(ns, dl, r, s2, chroot);
        lemma_caps_extract_state(ns, other, k, s2, chroot);
        lemma_caps_extract_info(ns, other, k, s2, chroot);
        vstd::seq_lib::lemma_multiset_commutative(caps_info(ns, dl, s2, chroot), cap_assessment(ns, x, s2, chroot).1);
        if cap_is_finding(ns, x, s2, chroot) {
            assert(cap_assessment(ns, x, s2, chroot).1.len() == 1);
        } else {
            assert(cap_assessment(ns, x, s2, chroot).1.len() == 0);
        }
    }
}

/// The criticality of the capabilities is at least that of each one held.
pub proof fn lemma_caps_state_bounds(ns: Seq<NsType>, caps: Seq<Capability>, s2: Criticality, chroot: Chroot, i: int)
    requires
        0 <= i < caps.len(),
    ensures
        caps_state(ns, caps, s2, chroot).rank() >= cap_assessment(ns, caps[i], s2, chroot).0.rank(),
    decreases caps.len(),
{
    if i < caps.len() - 1 {
        lemma_caps_state_bounds(ns, caps.drop_last(), s2, chroot, i);
        assert(caps.drop_last()[i] == caps[i]);
    }
}

/// Holding `CAP_SYS_CHROOT` with user and mount namespaces active and a
/// separate root makes goal S1 at least as critical as goal S2.
pub proof fn law_chroot_capability_follows_s2(e: EvalResult, s2: Criticality)
    requires
        s1_caps(e).contains(Capability::CapSysChroot),
        s1_active(e).contains(NsType::User),
        s1_active(e).contains(NsType::Mount),
        !chroot_bad(s1_chroot(e)),
    ensures
        goal_s1_state(e, s2).rank() >= s2.rank(),
{
    let caps = s1_caps(e);
    let i = choose|i: int| 0 <= i < caps.len() && caps[i] == Capability::CapSysChroot;
    lemma_caps_state_bounds(s1_active(e), caps, s2, s1_chroot(e), i);
}

/// The criticality of each goal is at least `Okay`.
pub proof fn law_goals_at_least_okay(e: EvalResult, s2: Criticality)
    ensures
        goal_s1_state(e, s2).rank() >= 1,
        goal_s2_state(e).rank() >= 1,
        goal_s3_state(e).rank() >= 1,
        goal_s4_state(e).rank() >= 1,
{
}

proof fn lemma_cap_okay_iff_silent(ns: Seq<NsType>, cap: Capability, s2: Criticality, chroot: Chroot)
    requires
        cap != Capability::Unspecified,
        s2 != Criticality::Unspecified,
    ensures
        (cap_assessment(ns, cap, s2, chroot).0.rank() <= 1) <==> cap_assessment(ns, cap, s2, chroot).1.len() == 0,
{
}

proof fn lemma_caps_okay_iff_silent(ns: Seq<NsType>, caps: Seq<Capability>, s2: Criticality, chroot: Chroot)
    requires
        caps_specified(caps),
        s2 != Criticality::Unspecified,
    ensures
        (caps_state(ns, caps, s2, chroot).rank() <= 1) <==> caps_info(ns, caps, s2, chroot).len() == 0,
    decreases caps.len(),
{
    if caps.len() > 0 {
        assert(caps_specified(caps.drop_last()));
        lemma_caps_okay_iff_silent(ns, caps.drop_last(), s2, chroot);
        lemma_cap_okay_iff_silent(ns, caps.last(), s2, chroot);
    }
}

/// A goal is assessed as `Okay` exactly when it records no findings (for goal
/// S1, when goal S2 was assessed).
pub proof fn law_okay_iff_no_findings(e: EvalResult, s2: Criticality)
    requires
        assessable(e),
        s2 != Criticality::Unspecified,
    ensures
        (goal_s1_state(e, s2) == Criticality::Okay) <==> goal_s1_info(e, s2).len() == 0,
        (goal_s2_state(e) == Criticality::Okay) <==> goal_s2_info(e).len() == 0,
        (goal_s3_state(e) == Criticality::Okay) <==> goal_s3_info(e).len() == 0,
        (goal_s4_state(e) == Criticality::Okay) <==> goal_s4_info(e).len() == 0,
        goal_s2_state(e) != Criticality::Unspecified,
{
    lemma_caps_okay_iff_silent(s1_active(e), s1_caps(e), s2, s1_chroot(e));
}

proof fn lemma_cap_name_first(cap: Capability)
    requires
        cap != Capability::Unspecified,
    ensures
        cap.spec_name().len() > 0,
        cap.spec_name()[0] == 'C',
{
    match cap {
        Capability::Unspecified => {},
        Capability::CapChown => reveal_strlit("CAP_CHOWN"),
        Capability::CapDacOverride => reveal_strlit("CAP_DAC_OVERRIDE"),
        Capability::CapDacReadSearch => reveal_strlit("CAP_DAC_READ_SEARCH"),
        Capability::CapFowner => reveal_strlit("CAP_FOWNER"),
        Capability::CapFsetid => reveal_strlit("CAP_FSETID"),
        Capability::CapKill => reveal_strlit("CAP_KILL"),
        Capability::CapSetgid => reveal_strlit("CAP_SETGID"),
        Capability::CapSetuid => reveal_strlit("CAP_SETUID"),
        Capability::CapSetpcap => reveal_strlit("CAP_SETPCAP"),
        Capability::CapLinuxImmutable => reveal_strlit("CAP_LINUX_IMMUTABLE"),
        Capability::CapNetBindService => reveal_strlit("CAP_NET_BIND_SERVICE"),
        Capability::CapNetBroadcast => reveal_strlit("CAP_NET_BROADCAST"),
        Capability::CapNetAdmin => reveal_strlit("CAP_NET_ADMIN"),
        Capability::CapNetRaw => reveal_strlit("CAP_NET_RAW"),
        Capability::CapIpcLock => reveal_strlit("CAP_IPC_LOCK"),
        Capability::CapIpcOwner => reveal_strlit("CAP_IPC_OWNER"),
        Capability::CapSysModule => reveal_strlit("CAP_SYS_MODULE"),
        Capability::CapSysRawio => reveal_strlit("CAP_SYS_RAWIO"),
        Capability::CapSysChroot => reveal_strlit("CAP_SYS_CHROOT"),
        Capability::CapSysPtrace => reveal_strlit("CAP_SYS_PTRACE"),
        Capability::CapSysPacct => reveal_strlit("CAP_SYS_PACCT"),
        Capability::CapSysAdmin => reveal_strlit("CAP_SYS_ADMIN"),
        Capability::CapSysBoot => reveal_strlit("CAP_SYS_BOOT"),
        Capability::CapSysNice => reveal_strlit("CAP_SYS_NICE"),
        Capability::CapSysResource => reveal_strlit("CAP_SYS_RESOURCE"),
        Capability::CapSysTime => reveal_strlit("CAP_SYS_TIME"),
        Capability::CapSysTtyConfig => reveal_strlit("CAP_SYS_TTY_CONFIG"),
        Capability::CapMknod => reveal_strlit("CAP_MKNOD"),
        Capability::CapLease => reveal_strlit("CAP_LEASE"),
        Capability::CapAuditWrite => reveal_strlit("CAP_AUDIT_WRITE"),
        Capability::CapAuditControl => reveal_strlit("CAP_AUDIT_CONTROL"),
        Capability::CapSetfcap => reveal_strlit("CAP_SETFCAP"),
        Capability::CapMacOverride => reveal_strlit("CAP_MAC_OVERRIDE"),
        Capability::CapMacAdmin => reveal_strlit("CAP_MAC_ADMIN"),
        Capability::CapSyslog => reveal_strlit("CAP_SYSLOG"),
        Capability::CapWakeAlarm => reveal_strlit("CAP_WAKE_ALARM"),
        Capability::CapBlockSuspend => reveal_strlit("CAP_BLOCK_SUSPEND"),
        Capability::CapAuditRead => reveal_strlit("CAP_AUDIT_READ"),
        Capability::CapPerfmon => reveal_strlit("CAP_PERFMON"),
        Capability::CapBpf => reveal_strlit("CAP_BPF"),
        Capability::CapCheckpointRestore => reveal_strlit("CAP_CHECKPOINT_RESTORE"),
    }
}

/// Each finding that holding the capabilities `caps` gives starts with the
/// capability's name or with `Result for`.
proof fn lemma_caps_info_first(ns: Seq<NsType>, caps: Seq<Capability>, s2: Criticality, chroot: Chroot)
    requires
        caps_specified(caps),
    ensures
        forall|j: int| 0 <= j < caps_info(ns, caps, s2, chroot).len() ==> (#[trigger] caps_info(ns, caps, s2, chroot)[j]).len() > 0
            && (caps_info(ns, caps, s2, chroot)[j][0] == 'C' || caps_info(ns, caps, s2, chroot)[j][0] == 'R'),
    decreases caps.len(),
{
    if caps.len() > 0 {
        let rest = caps.drop_last();
        let cap = caps.last();
        assert(caps_specified(rest));
        assert(cap == caps[caps.len() - 1]);
        lemma_caps_info_first(ns, rest, s2, chroot);
        let prev = caps_info(ns, rest, s2, chroot);
        let lines = cap_assessment(ns, cap, s2, chroot).1;
        reveal_strlit("CAP_SYS_CHROOT: active namespaces '{");
        reveal_strlit("Result for CAP_SYS_CHROOT is Criticality::Error because of result for chroot tests (chroot: '");
        reveal_strlit("CAP_SYS_CHROOT: Criticality::Error because of result '");
        lemma_cap_name_first(cap);
        assert forall|j: int| 0 <= j < lines.len() implies (#[trigger] lines[j]).len() > 0 && (lines[j][0] == 'C' || lines[j][0] == 'R') by {
            assert(j == 0);
        }
        let all = caps_info(ns, caps, s2, chroot);
        assert(all == prev + lines);
        assert forall|j: int| 0 <= j < all.len() implies (#[trigger] all[j]).len() > 0 && (all[j][0] == 'C' || all[j][0] == 'R') by {
            if j < prev.len() {
                assert(all[j] == prev[j]);
            } else {
                assert(all[j] == lines[j - prev.len()]);
            }
        }
    }
}

proof fn lemma_categories_seq(e: EvalResult)
    ensures
        e.categories.seq().len() == 8,
        e.categories.seq()[0] == e.categories.network,
        e.categories.seq()[1] == e.categories.filesystem,
        e.categories.seq()[2] == e.categories.devices,
        e.categories.seq()[3] == e.categories.resource_control,
        e.categories.seq()[4] == e.categories.process_control,
        e.categories.seq()[5] == e.categories.access_control,
        e.categories.seq()[6] == e.categories.time,
        e.categories.seq()[7] == e.categories.global,
{
}

proof fn lemma_any_cat_ns_has(e: EvalResult, t: NsType, active: bool)
    ensures
        any_cat_ns_has(e, t, active) <==> exists|k: int| 0 <= k < 8 && cat_ns_has(#[trigger] e.categories.seq()[k], t, active),
{
    lemma_categories_seq(e);
    let s = e.categories.seq();
    if exists|k: int| 0 <= k < 8 && cat_ns_has(#[trigger] e.categories.seq()[k], t, active) {
        let k = choose|k: int| 0 <= k < 8 && cat_ns_has(#[trigger] e.categories.seq()[k], t, active);
        assert(k == 0 || k == 1 || k == 2 || k == 3 || k == 4 || k == 5 || k == 6 || k == 7);
    }
}

/// Goal S1 finds that the active namespaces do not match the desired ones
/// for exactly the namespace kinds that some category lists as desired and
/// no category lists as active, each named once, in canonical order. When
/// there is such a kind, goal S1 records the finding that names them and is
/// assessed as an error; when there is none, no finding of goal S1 speaks of
/// namespaces that do not match.
pub proof fn law_s1_missing_namespaces(e: EvalResult, s2: Criticality)
    requires
        assessable(e),
    ensures
        forall|t: NsType|
            #[trigger] s1_missing(e).contains(t) <==> ((exists|k: int|
                0 <= k < 8 && (#[trigger] e.categories.seq()[k]).isolation is Some
                    && e.categories.seq()[k].isolation->0.namespaces is Some
                    && e.categories.seq()[k].isolation->0.namespaces->0.desired@.contains(t)) && !(exists|k: int|
                0 <= k < 8 && (#[trigger] e.categories.seq()[k]).isolation is Some
                    && e.categories.seq()[k].isolation->0.namespaces is Some
                    && e.categories.seq()[k].isolation->0.namespaces->0.active@.contains(t))),
        forall|i: int, j: int| 0 <= i < j < s1_missing(e).len() ==> s1_missing(e)[i] != s1_missing(e)[j],
        (s1_missing(e).len() > 0) ==> goal_s1_state(e, s2) == Criticality::Error && goal_s1_info(e, s2).contains(
            "Active namespaces do not match desired namespaces: "@ + join(ns_str_names(s1_missing(e)), ", "@),
        ),
        (s1_missing(e).len() > 0) <==> exists|j: int|
            0 <= j < goal_s1_info(e, s2).len() && (#[trigger] goal_s1_info(e, s2)[j]).len() >= 51
                && goal_s1_info(e, s2)[j].subrange(0, 51) == "Active namespaces do not match desired namespaces: "@,
{
    let p = "Active namespaces do not match desired namespaces: "@;
    reveal_strlit("Active namespaces do not match desired namespaces: ");
    assert(p.len() == 51);
    let pred = |t: NsType| any_cat_ns_has(e, t, false) && !any_cat_ns_has(e, t, true);
    crate::c_config::lemma_ns_select(pred);
    lemma_categories_seq(e);
    assert forall|t: NsType|
        #[trigger] s1_missing(e).contains(t) <==> ((exists|k: int|
            0 <= k < 8 && (#[trigger] e.categories.seq()[k]).isolation is Some
                && e.categories.seq()[k].isolation->0.namespaces is Some
                && e.categories.seq()[k].isolation->0.namespaces->0.desired@.contains(t)) && !(exists|k: int|
            0 <= k < 8 && (#[trigger] e.categories.seq()[k]).isolation is Some
                && e.categories.seq()[k].isolation->0.namespaces is Some
                && e.categories.seq()[k].isolation->0.namespaces->0.active@.contains(t))) by {
        lemma_any_cat_ns_has(e, t, false);
        lemma_any_cat_ns_has(e, t, true);
    }
    let m = s1_missing(e);
    assert forall|i: int, j: int| 0 <= i < j < m.len() implies m[i] != m[j] by {
        assert(m[i].index() < m[j].index());
    }
    if m.len() > 0 {
        let chroot = s1_chroot(e);
        let a: Seq<Seq<char>> = if chroot_bad(chroot) { seq![s1_chroot_msg(chroot)] } else { Seq::empty() };
        let b = seq![s1_missing_msg(m)];
        let c = caps_info(s1_active(e), s1_caps(e), s2, chroot);
        let d = test_msgs("user_ns_maps_to_non_root_user"@, test_of(e.categories.access_control, TestName::UserNsMapsToNonRootUser));
        assert(goal_s1_info(e, s2) == a + b + c + d);
        assert((a + b + c + d)[a.len() as int] == s1_missing_msg(m));
        assert(s1_missing_msg(m).subrange(0, 51) =~= p);
    } else {
        let chroot = s1_chroot(e);
        let a: Seq<Seq<char>> = if chroot_bad(chroot) { seq![s1_chroot_msg(chroot)] } else { Seq::empty() };
        let c = caps_info(s1_active(e), s1_caps(e), s2, chroot);
        let d = test_msgs("user_ns_maps_to_non_root_user"@, test_of(e.categories.access_control, TestName::UserNsMapsToNonRootUser));
        let info = goal_s1_info(e, s2);
        assert(info == a + Seq::<Seq<char>>::empty() + c + d);
        assert(a + Seq::<Seq<char>>::empty() =~= a);
        reveal_strlit("goal_s1: Unexpected chroot config: chroot ");
        reveal_strlit("test ");
        lemma_caps_info_first(s1_active(e), s1_caps(e), s2, chroot);
        assert forall|j: int| 0 <= j < info.len() implies !((#[trigger] info[j]).len() >= 51 && info[j].subrange(0, 51) == p) by {
            assert(info[j].len() > 0 && info[j][0] != 'A') by {
                if j < a.len() {
                    assert(info[j] == a[j]);
                } else if j < a.len() + c.len() {
                    assert(info[j] == c[j - a.len()]);
                } else {
                    assert(info[j] == d[j - a.len() - c.len()]);
                }
            }
            if info[j].len() >= 51 && info[j].subrange(0, 51) == p {
                assert(info[j].subrange(0, 51)[0] == info[j][0]);
            }
        }
    }
}

/// The test at position `k` is the one found by its name, when no earlier
/// test has that name.
pub proof fn lemma_find_test_at(tests: Seq<crate::evaluation::NamedTest>, k: int, name: TestName)
    requires
        0 <= k < tests.len(),
        tests[k].name == name,
        forall|j: int| 0 <= j < k ==> (#[trigger] tests[j]).name != name,
    ensures
        find_test(tests, name) == Some(tests[k].result),
    decreases k,
{
    if k > 0 {
        assert forall|j: int| 0 <= j < k - 1 implies (#[trigger] tests.drop_first()[j]).name != name by {
            assert(tests.drop_first()[j] == tests[j + 1]);
        }
        lemma_find_test_at(tests.drop_first(), k - 1, name);
    }
}

proof fn lemma_caps_held_specified(list: Seq<Capability>, held: Seq<Capability>)
    requires
        caps_specified(list),
    ensures
        caps_specified(caps_held(list, held)),
    decreases list.len(),
{
    if list.len() > 0 {
        assert(caps_specified(list.drop_last()));
        lemma_caps_held_specified(list.drop_last(), held);
        let prev = caps_held(list.drop_last(), held);
        let cur = caps_held(list, held);
        assert forall|i: int| 0 <= i < cur.len() implies #[trigger] cur[i] != Capability::Unspecified by {
            if i < prev.len() {
                assert(cur[i] == prev[i]);
            } else {
                assert(cur[i] == list.last());
            }
        }
    }
}

/// The evaluation of a complete configuration can always be assessed.
pub proof fn law_evaluation_is_assessable(e: EvalResult, cfg: Config, root: Seq<char>, policy: EvalPolicy)
    requires
        evaluable(cfg),
        evaluation_is(e, cfg, root, policy),
    ensures
        assessable(e),
{
    let c = e.categories;
    lemma_find_test_at(c.resource_control.tests@, 0, TestName::CpuMaxLimited);
    lemma_find_test_at(c.resource_control.tests@, 1, TestName::MemoryMaxLimited);
    lemma_find_test_at(c.access_control.tests@, 0, TestName::UserNsMapsToNonRootUser);
    lemma_find_test_at(c.access_control.tests@, 1, TestName::UserNsMappingUnique);
    lemma_find_test_at(c.filesystem.tests@, 0, TestName::FlagMatchesHost);
    lemma_find_test_at(c.filesystem.tests@, 1, TestName::FlagMatchesRefcontainer);
    lemma_find_test_at(c.devices.tests@, 0, TestName::DevWhitelistCompliance);
    lemma_find_test_at(c.devices.tests@, 1, TestName::MknodWhitelistCompliance);
    let h = held_caps(cfg);
    lemma_caps_held_specified(network_caps(), h);
    lemma_caps_held_specified(filesystem_caps(), h);
    lemma_caps_held_specified(devices_caps(), h);
    lemma_caps_held_specified(resource_control_caps(), h);
    lemma_caps_held_specified(process_control_caps(), h);
    lemma_caps_held_specified(access_control_caps(), h);
    lemma_caps_held_specified(time_caps(), h);
    lemma_caps_held_specified(global_caps(), h);
    let s = c.network.capabilities@;
    lemma_caps_specified_concat(s, c.filesystem.capabilities@);
    let s = s + c.filesystem.capabilities@;
    lemma_caps_specified_concat(s, c.devices.capabilities@);
    let s = s + c.devices.capabilities@;
    lemma_caps_specified_concat(s, c.resource_control.capabilities@);
    let s = s + c.resource_control.capabilities@;
    lemma_caps_specified_concat(s, c.process_control.capabilities@);
    let s = s + c.process_control.capabilities@;
    lemma_caps_specified_concat(s, c.access_control.capabilities@);
    let s = s + c.access_control.capabilities@;
    lemma_caps_specified_concat(s, c.time.capabilities@);
    let s = s + c.time.capabilities@;
    lemma_caps_specified_concat(s, c.global.capabilities@);
}

/// Device access is assessed as restricted (goal S2 `Okay`) exactly when every
/// device found under `/dev` and every device that `mknod` could create is
/// allowed by the whitelists.
pub proof fn law_s2_okay_iff_devices_whitelisted(e: EvalResult, cfg: Config, root: Seq<char>, policy: EvalPolicy)
    requires
        evaluable(cfg),
        evaluation_is(e, cfg, root, policy),
    ensures
        (goal_s2_state(e) == Criticality::Okay) <==> {
            let d = cfg.device_config->0;
            let unprivileged = isolated_set(cfg).contains(NsType::User);
            &&& devs_not_allowed(d.dev_devices@, unprivileged, policy.devices).len() == 0
            &&& devs_not_allowed(d.mknod_devices@, unprivileged, policy.devices).len() == 0
        },
{
    let c = e.categories;
    lemma_find_test_at(c.devices.tests@, 0, TestName::DevWhitelistCompliance);
    lemma_find_test_at(c.devices.tests@, 1, TestName::MknodWhitelistCompliance);
}

/// Container data is assessed as not leaking (goal S3 `Okay`) exactly when no
/// other user namespace maps the container's host user IDs, and no flag file
/// written inside the container is seen by the reference container or by the
/// host outside the container's root.
pub proof fn law_s3_okay_iff_no_leak(e: EvalResult, cfg: Config, root: Seq<char>, policy: EvalPolicy)
    requires
        evaluable(cfg),
        evaluation_is(e, cfg, root, policy),
    ensures
        (goal_s3_state(e) == Criticality::Okay) <==> {
            let fs = cfg.fs_config->0;
            &&& cfg.user_ns_config->0.unique_mapping
            &&& flag_report(fs.host_namespaces@, Some(root)).len() == 0
            &&& flag_report(fs.ref_container_namespaces@, None).len() == 0
        },
{
    let c = e.categories;
    lemma_find_test_at(c.access_control.tests@, 1, TestName::UserNsMappingUnique);
    lemma_find_test_at(c.filesystem.tests@, 0, TestName::FlagMatchesHost);
    lemma_find_test_at(c.filesystem.tests@, 1, TestName::FlagMatchesRefcontainer);
}

/// Availability is assessed as unaffected (goal S4 `Okay`) exactly when the
/// container has a cgroup namespace of its own and both `cpu.max` and
/// `memory.max` set a limit.
pub proof fn law_s4_okay_iff_limited(e: EvalResult, cfg: Config, root: Seq<char>, policy: EvalPolicy)
    requires
        evaluable(cfg),
        evaluation_is(e, cfg, root, policy),
    ensures
        (goal_s4_state(e) == Criticality::Okay) <==> {
            let cg = cfg.cgroup_config->0;
            &&& isolated_set(cfg).contains(NsType::Cgroup)
            &&& cg.cpu_max is Some && !has_substring(cg.cpu_max->0@, "max"@)
            &&& cg.memory_max is Some && !has_substring(cg.memory_max->0@, "max"@)
        },
{
    let c = e.categories;
    lemma_find_test_at(c.resource_control.tests@, 0, TestName::CpuMaxLimited);
    lemma_find_test_at(c.resource_control.tests@, 1, TestName::MemoryMaxLimited);
    let ns = isolated_set(cfg);
    let (active, desired) = category_ns(resource_control_ns(), ns);
    crate::c_config::lemma_ns_select(|t: NsType| resource_control_ns().contains(t) && ns.contains(t));
    crate::c_config::lemma_ns_select(|t: NsType| resource_control_ns().contains(t));
    crate::c_config::lemma_all_ns_types();
    assert(resource_control_ns().contains(NsType::Cgroup)) by {
        assert(resource_control_ns()[0] == NsType::Cgroup);
    }
    if ns.contains(NsType::Cgroup) {
        assert(desired.contains(NsType::Cgroup));
        assert(active.contains(NsType::Cgroup));
        assert forall|t: NsType| resource_control_ns().contains(t) implies t == NsType::Cgroup by {
            let k = choose|k: int| 0 <= k < resource_control_ns().len() && resource_control_ns()[k] == t;
            assert(k == 0);
        }
        assert(desired.len() == 1) by {
            if desired.len() > 1 {
                assert(desired.contains(desired[0]));
                assert(desired.contains(desired[1]));
                assert(desired[0] == NsType::Cgroup && desired[1] == NsType::Cgroup);
            }
        }
        assert(active.len() == 1) by {
            if active.len() > 1 {
                assert(active.contains(active[0]));
                assert(active.contains(active[1]));
                assert(active[0] == NsType::Cgroup && active[1] == NsType::Cgroup);
            }
        }
        assert(active =~= desired);
    } else {
        assert(!active.contains(NsType::Cgroup));
        assert(desired.contains(NsType::Cgroup));
    }
}

} // verus!
