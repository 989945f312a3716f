//! Linux capabilities and the capability sets of a process.

use vstd::prelude::*;
use crate::Error;
use crate::text::{IntErrorKind, parse_unsigned, tokens, views, has_substring, is_ascii_ws};

verus! {

/// Linux capabilities. The number of each, as `to_i32` gives it, is its
/// Linux number plus one; `Unspecified` is zero.
#[derive(Clone, Copy, Debug, PartialEq, Eq, Hash, Structural)]
pub enum Capability {
    Unspecified,
    CapChown,
    CapDacOverride,
    CapDacReadSearch,
    CapFowner,
    CapFsetid,
    CapKill,
    CapSetgid,
    CapSetuid,
    CapSetpcap,
    CapLinuxImmutable,
    CapNetBindService,
    CapNetBroadcast,
    CapNetAdmin,
    CapNetRaw,
    CapIpcLock,
    CapIpcOwner,
    CapSysModule,
    CapSysRawio,
    CapSysChroot,
    CapSysPtrace,
    CapSysPacct,
    CapSysAdmin,
    CapSysBoot,
    CapSysNice,
    CapSysResource,
    CapSysTime,
    CapSysTtyConfig,
    CapMknod,
    CapLease,
    CapAuditWrite,
    CapAuditControl,
    CapSetfcap,
    CapMacOverride,
    CapMacAdmin,
    CapSyslog,
    CapWakeAlarm,
    CapBlockSuspend,
    CapAuditRead,
    CapPerfmon,
    CapBpf,
    CapCheckpointRestore,
}

impl Capability {
    /// The capability's number.
    pub open spec fn value(self) -> int {
        match self {
            Capability::Unspecified => 0,
            Capability::CapChown => 1,
            Capability::CapDacOverride => 2,
            Capability::CapDacReadSearch => 3,
            Capability::CapFowner => 4,
            Capability::CapFsetid => 5,
            Capability::CapKill => 6,
            Capability::CapSetgid => 7,
            Capability::CapSetuid => 8,
            Capability::CapSetpcap => 9,
            Capability::CapLinuxImmutable => 10,
            Capability::CapNetBindService => 11,
            Capability::CapNetBroadcast => 12,
            Capability::CapNetAdmin => 13,
            Capability::CapNetRaw => 14,
            Capability::CapIpcLock => 15,
            Capability::CapIpcOwner => 16,
            Capability::CapSysModule => 17,
            Capability::CapSysRawio => 18,
            Capability::CapSysChroot => 19,
            Capability::CapSysPtrace => 20,
            Capability::CapSysPacct => 21,
            Capability::CapSysAdmin => 22,
            Capability::CapSysBoot => 23,
            Capability::CapSysNice => 24,
            Capability::CapSysResource => 25,
            Capability::CapSysTime => 26,
            Capability::CapSysTtyConfig => 27,
            Capability::CapMknod => 28,
            Capability::CapLease => 29,
            Capability::CapAuditWrite => 30,
            Capability::CapAuditControl => 31,
            Capability::CapSetfcap => 32,
            Capability::CapMacOverride => 33,
            Capability::CapMacAdmin => 34,
            Capability::CapSyslog => 35,
            Capability::CapWakeAlarm => 36,
            Capability::CapBlockSuspend => 37,
            Capability::CapAuditRead => 38,
            Capability::CapPerfmon => 39,
            Capability::CapBpf => 40,
            Capability::CapCheckpointRestore => 41,
        }
    }

    /// The capability's name, such as `CAP_CHOWN`.
    pub open spec fn spec_name(self) -> Seq<char> {
        match self {
            Capability::Unspecified => "UNSPECIFIED"@,
            Capability::CapChown => "CAP_CHOWN"@,
            Capability::CapDacOverride => "CAP_DAC_OVERRIDE"@,
            Capability::CapDacReadSearch => "CAP_DAC_READ_SEARCH"@,
            Capability::CapFowner => "CAP_FOWNER"@,
            Capability::CapFsetid => "CAP_FSETID"@,
            Capability::CapKill => "CAP_KILL"@,
            Capability::CapSetgid => "CAP_SETGID"@,
            Capability::CapSetuid => "CAP_SETUID"@,
            Capability::CapSetpcap => "CAP_SETPCAP"@,
            Capability::CapLinuxImmutable => "CAP_LINUX_IMMUTABLE"@,
            Capability::CapNetBindService => "CAP_NET_BIND_SERVICE"@,
            Capability::CapNetBroadcast => "CAP_NET_BROADCAST"@,
            Capability::CapNetAdmin => "CAP_NET_ADMIN"@,
            Capability::CapNetRaw => "CAP_NET_RAW"@,
            Capability::CapIpcLock => "CAP_IPC_LOCK"@,
            Capability::CapIpcOwner => "CAP_IPC_OWNER"@,
            Capability::CapSysModule => "CAP_SYS_MODULE"@,
            Capability::CapSysRawio => "CAP_SYS_RAWIO"@,
            Capability::CapSysChroot => "CAP_SYS_CHROOT"@,
            Capability::CapSysPtrace => "CAP_SYS_PTRACE"@,
            Capability::CapSysPacct => "CAP_SYS_PACCT"@,
            Capability::CapSysAdmin => "CAP_SYS_ADMIN"@,
            Capability::CapSysBoot => "CAP_SYS_BOOT"@,
            Capability::CapSysNice => "CAP_SYS_NICE"@,
            Capability::CapSysResource => "CAP_SYS_RESOURCE"@,
            Capability::CapSysTime => "CAP_SYS_TIME"@,
            Capability::CapSysTtyConfig => "CAP_SYS_TTY_CONFIG"@,
            Capability::CapMknod => "CAP_MKNOD"@,
            Capability::CapLease => "CAP_LEASE"@,
            Capability::CapAuditWrite => "CAP_AUDIT_WRITE"@,
            Capability::CapAuditControl => "CAP_AUDIT_CONTROL"@,
            Capability::CapSetfcap => "CAP_SETFCAP"@,
            Capability::CapMacOverride => "CAP_MAC_OVERRIDE"@,
            Capability::CapMacAdmin => "CAP_MAC_ADMIN"@,
            Capability::CapSyslog => "CAP_SYSLOG"@,
            Capability::CapWakeAlarm => "CAP_WAKE_ALARM"@,
            Capability::CapBlockSuspend => "CAP_BLOCK_SUSPEND"@,
            Capability::CapAuditRead => "CAP_AUDIT_READ"@,
            Capability::CapPerfmon => "CAP_PERFMON"@,
            Capability::CapBpf => "CAP_BPF"@,
            Capability::CapCheckpointRestore => "CAP_CHECKPOINT_RESTORE"@,
        }
    }

    pub fn to_i32(&self) -> (res: i32)
        ensures
            res == self.value(),
    {
        match self {
            Capability::Unspecified => 0,
            Capability::CapChown => 1,
            Capability::CapDacOverride => 2,
            Capability::CapDacReadSearch => 3,
            Capability::CapFowner => 4,
            Capability::CapFsetid => 5,
            Capability::CapKill => 6,
            Capability::CapSetgid => 7,
            Capability::CapSetuid => 8,
            Capability::CapSetpcap => 9,
            Capability::CapLinuxImmutable => 10,
            Capability::CapNetBindService => 11,
            Capability::CapNetBroadcast => 12,
            Capability::CapNetAdmin => 13,
            Capability::CapNetRaw => 14,
            Capability::CapIpcLock => 15,
            Capability::CapIpcOwner => 16,
            Capability::CapSysModule => 17,
            Capability::CapSysRawio => 18,
            Capability::CapSysChroot => 19,
            Capability::CapSysPtrace => 20,
            Capability::CapSysPacct => 21,
            Capability::CapSysAdmin => 22,
            Capability::CapSysBoot => 23,
            Capability::CapSysNice => 24,
            Capability::CapSysResource => 25,
            Capability::CapSysTime => 26,
            Capability::CapSysTtyConfig => 27,
            Capability::CapMknod => 28,
            Capability::CapLease => 29,
            Capability::CapAuditWrite => 30,
            Capability::CapAuditControl => 31,
            Capability::CapSetfcap => 32,
            Capability::CapMacOverride => 33,
            Capability::CapMacAdmin => 34,
            Capability::CapSyslog => 35,
            Capability::CapWakeAlarm => 36,
            Capability::CapBlockSuspend => 37,
            Capability::CapAuditRead => 38,
            Capability::CapPerfmon => 39,
            Capability::CapBpf => 40,
            Capability::CapCheckpointRestore => 41,
        }
    }

    /// The capability with number `v`, if there is one.
    pub fn from_i32(v: i32) -> (res: Option<Capability>)
        ensures
            0 <= v <= 41 <==> res is Some,
            res matches Some(c) ==> c.value() == v,
    {
        match v {
            0 => Some(Capability::Unspecified),
            1 => Some(Capability::CapChown),
            2 => Some(Capability::CapDacOverride),
            3 => Some(Capability::CapDacReadSearch),
            4 => Some(Capability::CapFowner),
            5 => Some(Capability::CapFsetid),
            6 => Some(Capability::CapKill),
            7 => Some(Capability::CapSetgid),
            8 => Some(Capability::CapSetuid),
            9 => Some(Capability::CapSetpcap),
            10 => Some(Capability::CapLinuxImmutable),
            11 => Some(Capability::CapNetBindService),
            12 => Some(Capability::CapNetBroadcast),
            13 => Some(Capability::CapNetAdmin),
            14 => Some(Capability::CapNetRaw),
            15 => Some(Capability::CapIpcLock),
            16 => Some(Capability::CapIpcOwner),
            17 => Some(Capability::CapSysModule),
            18 => Some(Capability::CapSysRawio),
            19 => Some(Capability::CapSysChroot),
            20 => Some(Capability::CapSysPtrace),
            21 => Some(Capability::CapSysPacct),
            22 => Some(Capability::CapSysAdmin),
            23 => Some(Capability::CapSysBoot),
            24 => Some(Capability::CapSysNice),
            25 => Some(Capability::CapSysResource),
            26 => Some(Capability::CapSysTime),
            27 => Some(Capability::CapSysTtyConfig),
            28 => Some(Capability::CapMknod),
            29 => Some(Capability::CapLease),
            30 => Some(Capability::CapAuditWrite),
            31 => Some(Capability::CapAuditControl),
            32 => Some(Capability::CapSetfcap),
            33 => Some(Capability::CapMacOverride),
            34 => Some(Capability::CapMacAdmin),
            35 => Some(Capability::CapSyslog),
            36 => Some(Capability::CapWakeAlarm),
            37 => Some(Capability::CapBlockSuspend),
            38 => Some(Capability::CapAuditRead),
            39 => Some(Capability::CapPerfmon),
            40 => Some(Capability::CapBpf),
            41 => Some(Capability::CapCheckpointRestore),
            _ => None,
        }
    }

    /// The capability's name, such as `CAP_CHOWN`.
    pub fn name(&self) -> (res: &'static str)
        ensures
            res@ == self.spec_name(),
    {
        match self {
            Capability::Unspecified => "UNSPECIFIED",
            Capability::CapChown => "CAP_CHOWN",
            Capability::CapDacOverride => "CAP_DAC_OVERRIDE",
            Capability::CapDacReadSearch => "CAP_DAC_READ_SEARCH",
            Capability::CapFowner => "CAP_FOWNER",
            Capability::CapFsetid => "CAP_FSETID",
            Capability::CapKill => "CAP_KILL",
            Capability::CapSetgid => "CAP_SETGID",
            Capability::CapSetuid => "CAP_SETUID",
            Capability::CapSetpcap => "CAP_SETPCAP",
            Capability::CapLinuxImmutable => "CAP_LINUX_IMMUTABLE",
            Capability::CapNetBindService => "CAP_NET_BIND_SERVICE",
            Capability::CapNetBroadcast => "CAP_NET_BROADCAST",
            Capability::CapNetAdmin => "CAP_NET_ADMIN",
            Capability::CapNetRaw => "CAP_NET_RAW",
            Capability::CapIpcLock => "CAP_IPC_LOCK",
            Capability::CapIpcOwner => "CAP_IPC_OWNER",
            Capability::CapSysModule => "CAP_SYS_MODULE",
            Capability::CapSysRawio => "CAP_SYS_RAWIO",
            Capability::CapSysChroot => "CAP_SYS_CHROOT",
            Capability::CapSysPtrace => "CAP_SYS_PTRACE",
            Capability::CapSysPacct => "CAP_SYS_PACCT",
            Capability::CapSysAdmin => "CAP_SYS_ADMIN",
            Capability::CapSysBoot => "CAP_SYS_BOOT",
            Capability::CapSysNice => "CAP_SYS_NICE",
            Capability::CapSysResource => "CAP_SYS_RESOURCE",
            Capability::CapSysTime => "CAP_SYS_TIME",
            Capability::CapSysTtyConfig => "CAP_SYS_TTY_CONFIG",
            Capability::CapMknod => "CAP_MKNOD",
            Capability::CapLease => "CAP_LEASE",
            Capability::CapAuditWrite => "CAP_AUDIT_WRITE",
            Capability::CapAuditControl => "CAP_AUDIT_CONTROL",
            Capability::CapSetfcap => "CAP_SETFCAP",
            Capability::CapMacOverride => "CAP_MAC_OVERRIDE",
            Capability::CapMacAdmin => "CAP_MAC_ADMIN",
            Capability::CapSyslog => "CAP_SYSLOG",
            Capability::CapWakeAlarm => "CAP_WAKE_ALARM",
            Capability::CapBlockSuspend => "CAP_BLOCK_SUSPEND",
            Capability::CapAuditRead => "CAP_AUDIT_READ",
            Capability::CapPerfmon => "CAP_PERFMON",
            Capability::CapBpf => "CAP_BPF",
            Capability::CapCheckpointRestore => "CAP_CHECKPOINT_RESTORE",
        }
    }

    /// Bit index of the first capability in a capability mask.
    pub fn first() -> (res: u64)
        ensures
            res == 0,
    {
        (Capability::CapChown.to_i32() - 1) as u64
    }

    /// Bit index of the last capability in a capability mask.
    pub fn last() -> (res: u64)
        ensures
            res == 40,
    {
        (Capability::CapCheckpointRestore.to_i32() - 1) as u64
    }
}

/// Each capability has its own number, from 0 to 41: decoding a number
/// gives back the capability it came from.
pub proof fn law_capability_numbers_distinct(a: Capability, b: Capability)
    ensures
        0 <= a.value() <= 41,
        a.value() == b.value() ==> a == b,
{
}

/// Whether bit `i` of `mask` is set.
pub open spec fn bit_set(mask: u64, i: int) -> bool {
    0 <= i < 64 && (mask >> (i as u64)) & 1u64 == 1u64
}

/// Whether `v` lists, in increasing order of number, exactly the
/// capabilities whose bit (number minus one) is set in `mask`.
pub open spec fn caps_of_mask(v: Seq<Capability>, mask: u64) -> bool {
    &&& forall|c: Capability| v.contains(c) <==> (c != Capability::Unspecified && bit_set(mask, c.value() - 1))
    &&& forall|i: int, j: int| 0 <= i < j < v.len() ==> #[trigger] v[i].value() < #[trigger] v[j].value()
}

/// The capabilities whose bits are set in `mask`, in increasing order.
pub fn caps_from_mask(mask: u64) -> (res: Vec<Capability>)
    ensures
        caps_of_mask(res@, mask),
{
    let mut res: Vec<Capability> = Vec::new();
    let mut i: u64 = Capability::first();
    let last = Capability::last();
    while i <= last
        invariant
            0 <= i <= 41,
            last == 40,
            forall|c: Capability| res@.contains(c) <==> (c != Capability::Unspecified && c.value() - 1 < i && bit_set(mask, c.value() - 1)),
            forall|a: int, b: int| 0 <= a < b < res@.len() ==> #[trigger] res@[a].value() < #[trigger] res@[b].value(),
            forall|a: int| 0 <= a < res@.len() ==> 1 <= #[trigger] res@[a].value() <= i,
        decreases 41 - i,
    {
        let set = (mask & (1u64 << i)) > 0;
        assert(set == ((mask >> i) & 1u64 == 1u64)) by (bit_vector)
            requires
                i < 64,
                set == ((mask & (1u64 << i)) > 0),
        ;
        if set {
            let c = Capability::from_i32((i + 1) as i32).unwrap();
            let ghost old_res = res@;
            res.push(c);
            assert forall|d: Capability| res@.contains(d) <==> (d != Capability::Unspecified && d.value() - 1 < i + 1 && bit_set(mask, d.value() - 1)) by {
                if d == c {
                    assert(res@[res@.len() - 1] == c);
                } else if res@.contains(d) {
                    let k = choose|k: int| 0 <= k < res@.len() && res@[k] == d;
                    assert(old_res.contains(d)) by {
                        assert(old_res[k] == d);
                    }
                } else if old_res.contains(d) {
                    let k = choose|k: int| 0 <= k < old_res.len() && old_res[k] == d;
                    assert(res@[k] == d);
                }
            }
        } else {
            assert forall|d: Capability| res@.contains(d) <==> (d != Capability::Unspecified && d.value() - 1 < i + 1 && bit_set(mask, d.value() - 1)) by {
                if res@.contains(d) {
                    let k = choose|k: int| 0 <= k < res@.len() && res@[k] == d;
                    assert(1 <= res@[k].value() <= i);
                }
            }
        }
        i = i + 1;
    }
    assert forall|c: Capability| res@.contains(c) <==> (c != Capability::Unspecified && bit_set(mask, c.value() - 1)) by {
        assert(c.value() <= 41);
    }
    res
}

/// The capability sets of a process, as `/proc/<pid>/status` lists them.
#[derive(Clone, Copy, Debug, PartialEq, Eq, Hash, Structural)]
pub enum CapSet {
    CapInh,
    CapPrm,
    CapEff,
    CapBnd,
    CapAmb,
}

/// The capability sets, in the order in which they are read.
pub open spec fn all_cap_sets() -> Seq<CapSet> {
    seq![CapSet::CapInh, CapSet::CapPrm, CapSet::CapEff, CapSet::CapBnd, CapSet::CapAmb]
}

impl CapSet {
    /// The set's name, as it prefixes its line of `/proc/<pid>/status`.
    pub open spec fn spec_name(self) -> Seq<char> {
        match self {
            CapSet::CapInh => "CapInh"@,
            CapSet::CapPrm => "CapPrm"@,
            CapSet::CapEff => "CapEff"@,
            CapSet::CapBnd => "CapBnd"@,
            CapSet::CapAmb => "CapAmb"@,
        }
    }

    pub fn name(&self) -> (res: &'static str)
        ensures
            res@ == self.spec_name(),
    {
        match self {
            CapSet::CapInh => "CapInh",
            CapSet::CapPrm => "CapPrm",
            CapSet::CapEff => "CapEff",
            CapSet::CapBnd => "CapBnd",
            CapSet::CapAmb => "CapAmb",
        }
    }

    /// All capability sets.
    pub fn list() -> (res: Vec<CapSet>)
        ensures
            res@ == all_cap_sets(),
    {
        vec![CapSet::CapInh, CapSet::CapPrm, CapSet::CapEff, CapSet::CapBnd, CapSet::CapAmb]
    }
}

proof fn lemma_set_name_nonempty(set: CapSet)
    ensures
        set.spec_name().len() > 0,
        !is_ascii_ws(set.spec_name()[0]),
{
    reveal_strlit("CapInh");
    reveal_strlit("CapPrm");
    reveal_strlit("CapEff");
    reveal_strlit("CapBnd");
    reveal_strlit("CapAmb");
}

/// Index of the first of `lines` that holds the name of `set`, if any.
pub open spec fn set_line_index(lines: Seq<Seq<char>>, set: CapSet) -> Option<int>
    decreases lines.len(),
{
    if lines.len() == 0 {
        None
    } else if has_substring(lines[0], set.spec_name()) {
        Some(0)
    } else {
        match set_line_index(lines.drop_first(), set) {
            Some(i) => Some(i + 1),
            None => None,
        }
    }
}

proof fn lemma_set_line_index(lines: Seq<Seq<char>>, set: CapSet)
    ensures
        match set_line_index(lines, set) {
            Some(i) => 0 <= i < lines.len() && has_substring(lines[i], set.spec_name())
                && forall|j: int| 0 <= j < i ==> !has_substring(#[trigger] lines[j], set.spec_name()),
            None => forall|j: int| 0 <= j < lines.len() ==> !has_substring(#[trigger] lines[j], set.spec_name()),
        },
    decreases lines.len(),
{
    if lines.len() > 0 {
        lemma_set_line_index(lines.drop_first(), set);
        if !has_substring(lines[0], set.spec_name()) {
            match set_line_index(lines.drop_first(), set) {
                Some(i) => {
                    assert forall|j: int| 0 <= j < i + 1 implies !has_substring(#[trigger] lines[j], set.spec_name()) by {
                        if j > 0 {
                            assert(lines[j] == lines.drop_first()[j - 1]);
                        }
                    }
                }
                None => {
                    assert forall|j: int| 0 <= j < lines.len() implies !has_substring(#[trigger] lines[j], set.spec_name()) by {
                        if j > 0 {
                            assert(lines[j] == lines.drop_first()[j - 1]);
                        }
                    }
                }
            }
        }
    }
}

/// The first line that names `set`.
pub fn find_set_line(lines: &Vec<String>, set: CapSet) -> (res: Option<usize>)
    ensures
        match set_line_index(views(lines@), set) {
            Some(i) => res == Some(i as usize),
            None => res is None,
        },
{
    proof {
        lemma_set_line_index(views(lines@), set);
    }
    let mut i: usize = 0;
    while i < lines.len()
        invariant
            0 <= i <= lines@.len(),
            forall|j: int| 0 <= j < i ==> !has_substring(#[trigger] views(lines@)[j], set.spec_name()),
        decreases lines@.len() - i,
    {
        assert(views(lines@)[i as int] == lines@[i as int]@);
        if crate::text::contains_str(lines[i].as_str(), set.name()) {
            proof {
                lemma_set_line_index(views(lines@), set);
                assert(views(lines@)[i as int] == lines@[i as int]@);
                match set_line_index(views(lines@), set) {
                    Some(i0) => {
                        if i0 < i {
                            assert(!has_substring(views(lines@)[i0], set.spec_name()));
                        }
                    }
                    None => {
                        assert(!has_substring(views(lines@)[i as int], set.spec_name()));
                    }
                }
            }
            return Some(i);
        }
        i = i + 1;
    }
    None
}

/// The mask that a status line gives: its last token, read as hexadecimal.
pub open spec fn line_mask(line: Seq<char>) -> Result<nat, IntErrorKind> {
    parse_unsigned(tokens(line).last(), 16, u64::MAX as nat)
}

/// A character that is not whitespace yields a token.
pub proof fn lemma_tokens_nonempty(s: Seq<char>, j: int)
    requires
        0 <= j < s.len(),
        !is_ascii_ws(s[j]),
    ensures
        tokens(s).len() > 0,
    decreases s.len(),
{
    if is_ascii_ws(s[0]) {
        assert(s.drop_first()[j - 1] == s[j]);
        lemma_tokens_nonempty(s.drop_first(), j - 1);
    }
}

/// The capabilities that a status line of a capability set lists.
pub fn decode_status_line(line: &str) -> (res: Result<Vec<Capability>, Error>)
    requires
        tokens(line@).len() > 0,
    ensures
        match line_mask(line@) {
            Ok(m) => res matches Ok(v) && caps_of_mask(v@, m as u64),
            Err(e) => res matches Err(Error::ConversionFailed(msg)) && msg@ == e.spec_message(),
        },
{
    let toks = crate::text::split_ascii_whitespace(line);
    assert(views(toks@).last() == toks@[toks@.len() - 1]@);
    let last = toks.len() - 1;
    match crate::text::parse_unsigned_exec(toks[last].as_str(), 16, u64::MAX) {
        Ok(mask) => Ok(caps_from_mask(mask)),
        Err(e) => Err(Error::ConversionFailed(String::from_str(e.message()))),
    }
}

/// The five capability sets of a process.
#[derive(Clone, Debug)]
pub struct CapsConfig {
    pub cap_inh: Vec<Capability>,
    pub cap_prm: Vec<Capability>,
    pub cap_eff: Vec<Capability>,
    pub cap_bnd: Vec<Capability>,
    pub cap_amb: Vec<Capability>,
}

/// Whether every capability set has a line among `lines`.
pub open spec fn status_lists_all_sets(lines: Seq<Seq<char>>) -> bool {
    forall|k: int| 0 <= k < 5 ==> set_line_index(lines, #[trigger] all_cap_sets()[k]) is Some
}

/// The mask that the line of `set` gives.
pub open spec fn set_mask(lines: Seq<Seq<char>>, set: CapSet) -> Result<nat, IntErrorKind> {
    line_mask(lines[set_line_index(lines, set)->0])
}

/// Whether every capability set has a line among `lines`.
pub fn status_has_all_sets(lines: &Vec<String>) -> (res: bool)
    ensures
        res == status_lists_all_sets(views(lines@)),
{
    let sets = CapSet::list();
    let mut k: usize = 0;
    while k < sets.len()
        invariant
            sets@ == all_cap_sets(),
            0 <= k <= 5,
            forall|m: int| 0 <= m < k ==> set_line_index(views(lines@), #[trigger] all_cap_sets()[m]) is Some,
        decreases 5 - k,
    {
        if find_set_line(lines, sets[k]).is_none() {
            return false;
        }
        k = k + 1;
    }
    true
}

/// The capability sets that the lines of `/proc/<pid>/status` list. Sets are
/// read in the order `CapInh`, `CapPrm`, `CapEff`, `CapBnd`, `CapAmb`; the
/// first whose mask cannot be read gives the error.
pub fn caps_config_from_status(lines: &Vec<String>) -> (res: Result<CapsConfig, Error>)
    requires
        status_lists_all_sets(views(lines@)),
    ensures
        (forall|k: int| 0 <= k < 5 ==> set_mask(views(lines@), #[trigger] all_cap_sets()[k]) is Ok)
            <==> res is Ok,
        res matches Ok(cfg) ==> {
            &&& caps_of_mask(cfg.cap_inh@, set_mask(views(lines@), CapSet::CapInh)->Ok_0 as u64)
            &&& caps_of_mask(cfg.cap_prm@, set_mask(views(lines@), CapSet::CapPrm)->Ok_0 as u64)
            &&& caps_of_mask(cfg.cap_eff@, set_mask(views(lines@), CapSet::CapEff)->Ok_0 as u64)
            &&& caps_of_mask(cfg.cap_bnd@, set_mask(views(lines@), CapSet::CapBnd)->Ok_0 as u64)
            &&& caps_of_mask(cfg.cap_amb@, set_mask(views(lines@), CapSet::CapAmb)->Ok_0 as u64)
        },
        res matches Err(Error::ConversionFailed(msg)) ==> exists|k: int| 0 <= k < 5
            && (forall|j: int| 0 <= j < k ==> (#[trigger] set_mask(views(lines@), all_cap_sets()[j])) is Ok)
            && set_mask(views(lines@), all_cap_sets()[k]) is Err
            && msg@ == set_mask(views(lines@), all_cap_sets()[k])->Err_0.spec_message(),
        res is Err ==> res matches Err(Error::ConversionFailed(_)),
{
    let inh = decode_set(lines, CapSet::CapInh);
    let inh = match inh { Ok(v) => v, Err(e) => {
        assert(set_mask(views(lines@), all_cap_sets()[0]) is Err);
        assert(forall|j: int| 0 <= j < 0 ==> (#[trigger] set_mask(views(lines@), all_cap_sets()[j])) is Ok);
        return Err(e)
    } };
    let prm = decode_set(lines, CapSet::CapPrm);
    let prm = match prm { Ok(v) => v, Err(e) => {
        assert(set_mask(views(lines@), all_cap_sets()[1]) is Err);
        assert(forall|j: int| 0 <= j < 1 ==> (#[trigger] set_mask(views(lines@), all_cap_sets()[j])) is Ok);
        return Err(e)
    } };
    let eff = decode_set(lines, CapSet::CapEff);
    let eff = match eff { Ok(v) => v, Err(e) => {
        assert(set_mask(views(lines@), all_cap_sets()[2]) is Err);
        assert(forall|j: int| 0 <= j < 2 ==> (#[trigger] set_mask(views(lines@), all_cap_sets()[j])) is Ok);
        return Err(e)
    } };
    let bnd = decode_set(lines, CapSet::CapBnd);
    let bnd = match bnd { Ok(v) => v, Err(e) => {
        assert(set_mask(views(lines@), all_cap_sets()[3]) is Err);
        assert(forall|j: int| 0 <= j < 3 ==> (#[trigger] set_mask(views(lines@), all_cap_sets()[j])) is Ok);
        return Err(e)
    } };
    let amb = decode_set(lines, CapSet::CapAmb);
    let amb = match amb { Ok(v) => v, Err(e) => {
        assert(set_mask(views(lines@), all_cap_sets()[4]) is Err);
        assert(forall|j: int| 0 <= j < 4 ==> (#[trigger] set_mask(views(lines@), all_cap_sets()[j])) is Ok);
        return Err(e)
    } };
    assert forall|k: int| 0 <= k < 5 implies set_mask(views(lines@), #[trigger] all_cap_sets()[k]) is Ok by {}
    Ok(CapsConfig { cap_inh: inh, cap_prm: prm, cap_eff: eff, cap_bnd: bnd, cap_amb: amb })
}

fn decode_set(lines: &Vec<String>, set: CapSet) -> (res: Result<Vec<Capability>, Error>)
    requires
        set_line_index(views(lines@), set) is Some,
    ensures
        match set_mask(views(lines@), set) {
            Ok(m) => res matches Ok(v) && caps_of_mask(v@, m as u64),
            Err(e) => res matches Err(Error::ConversionFailed(msg)) && msg@ == e.spec_message(),
        },
{
    proof {
        lemma_set_line_index(views(lines@), set);
    }
    let n = lines.len();
    let i = find_set_line(lines, set).unwrap();
    proof {
        lemma_set_line_index(views(lines@), set);
        lemma_set_name_nonempty(set);
        let i0 = set_line_index(views(lines@), set)->0;
        assert(0 <= i0 < views(lines@).len() == n);
        let line = views(lines@)[i as int];
        assert(has_substring(line, set.spec_name()));
        assert(line == lines@[i as int]@);
        let p = choose|p: int| crate::text::occurs_at(line, set.spec_name(), p);
        assert(line[p] == set.spec_name()[0]) by {
            assert(line.subrange(p, p + set.spec_name().len())[0] == line[p]);
        }
        lemma_tokens_nonempty(line, p);
    }
    decode_status_line(lines[i].as_str())
}

} // verus!
