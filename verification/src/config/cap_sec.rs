//! The assessment table for capabilities: for each capability, the namespaces
//! under which holding it is harmless or worth a warning, the criticality
//! otherwise, and a description.

use vstd::prelude::*;
use crate::assessment::Criticality;
use crate::c_config::NsType;
use crate::c_config::caps::Capability;

verus! {

/// How holding a capability is assessed.
#[derive(Clone, Debug)]
pub struct CapabilityRecord {
    ok: Vec<NsType>,
    warn: Vec<NsType>,
    default: Criticality,
    notes: String,
}

/// The table entry of a capability: namespaces under which it is harmless,
/// namespaces under which it gives a warning, the criticality otherwise, and
/// its description. `Unspecified` has no entry.
pub open spec fn cap_policy(cap: Capability) -> Option<(Seq<NsType>, Seq<NsType>, Criticality, Seq<char>)> {
    match cap {
        Capability::Unspecified => None,
        Capability::CapAuditControl => Some((seq![NsType::User], seq![], Criticality::Error, "Manage kernel auditing (activation, rules, etc.)"@)),
        Capability::CapAuditRead => Some((seq![NsType::User], seq![], Criticality::Warn, "Allows reading audit log via netlink"@)),
        Capability::CapAuditWrite => Some((seq![NsType::User], seq![], Criticality::Error, "Allows writing to audit log"@)),
        Capability::CapBlockSuspend => Some((seq![NsType::User], seq![], Criticality::Warn, "Allows blocking system suspend"@)),
        Capability::CapBpf => Some((seq![NsType::User], seq![], Criticality::Error, "Allows privileged BPF operations"@)),
        Capability::CapCheckpointRestore => Some((seq![NsType::User, NsType::Pid], seq![], Criticality::Error, "Allows writing to /proc/sys/kernel/ns_last_pid, clonse set_tid-feature, read /proc/pid/map_files"@)),
        Capability::CapChown => Some((seq![NsType::User], seq![], Criticality::Error, "Arbitrary changes to file uids / gids"@)),
        Capability::CapDacOverride => Some((seq![NsType::User], seq![], Criticality::Warn, "Allows bypassing DAC"@)),
        Capability::CapDacReadSearch => Some((seq![NsType::User], seq![], Criticality::Error, "Bypass permissions of files/directories, create link to file by fd, allows open_by_handle_at (https://www.exploit-db.com/exploits/33808)"@)),
        Capability::CapFowner => Some((seq![NsType::User], seq![], Criticality::Error, "Bypass file owner permission checks"@)),
        Capability::CapFsetid => Some((seq![NsType::User], seq![], Criticality::Error, "Functionality related to the set UID and set GID bits, e.g. not clearing them when modifying a file"@)),
        Capability::CapIpcLock => Some((seq![NsType::User], seq![], Criticality::Error, "Lock memory, allocate memory via huge pages"@)),
        Capability::CapIpcOwner => Some((seq![NsType::User, NsType::Ipc], seq![], Criticality::Error, "Bypass permission checks on System V IPC objects"@)),
        Capability::CapKill => Some((seq![NsType::User], seq![NsType::Pid], Criticality::Error, "Bypass permission checks for sending signals"@)),
        Capability::CapLease => Some((seq![NsType::User], seq![], Criticality::Error, "Leases on arbitrary files"@)),
        Capability::CapLinuxImmutable => Some((seq![NsType::User], seq![], Criticality::Error, "Set FS_APPEND_FL and FS_IMMUTABLE_FL inode flags"@)),
        Capability::CapMacAdmin => Some((seq![NsType::User], seq![], Criticality::Error, "Allow MAC configuration or state changes"@)),
        Capability::CapMacOverride => Some((seq![NsType::User], seq![], Criticality::Error, "Smack LSM: Allow Mandatory Access Control override"@)),
        Capability::CapMknod => Some((seq![NsType::User], seq![], Criticality::Info, "Use of  the mknod system call to create device nodes"@)),
        Capability::CapNetAdmin => Some((seq![NsType::User], seq![], Criticality::Error, "Allows various network-related operations"@)),
        Capability::CapNetBindService => Some((seq![NsType::User], seq![NsType::Network], Criticality::Error, "Bind socket to privileged ports"@)),
        Capability::CapNetBroadcast => Some((seq![NsType::User, NsType::Network], seq![], Criticality::Error, "Unused capability, related to socket broadcasts / listening to multicast transmissions"@)),
        Capability::CapNetRaw => Some((seq![NsType::User], seq![NsType::Network], Criticality::Error, "Use RAW and PACKET sockets"@)),
        Capability::CapPerfmon => Some((seq![NsType::User], seq![], Criticality::Warn, "Allows performance monitoring related functionality"@)),
        Capability::CapSetgid => Some((seq![NsType::User], seq![], Criticality::Error, "Allows arbitrary manipulation of process GID"@)),
        Capability::CapSetfcap => Some((seq![NsType::User], seq![], Criticality::Error, "Allows setting arbitrary capabilities on a file"@)),
        Capability::CapSetpcap => Some((seq![NsType::User], seq![], Criticality::Error, "Depending on whether file caps are supported: allows manipulation of cap perm set"@)),
        Capability::CapSetuid => Some((seq![NsType::User], seq![], Criticality::Error, "Allows arbitrary manipulations of process UID"@)),
        Capability::CapSysAdmin => Some((seq![NsType::User], seq![], Criticality::Error, "Overloaded Capability, defacto root"@)),
        Capability::CapSysBoot => Some((seq![NsType::User, NsType::Pid], seq![], Criticality::Error, "System reboot; allows to load new kernel"@)),
        Capability::CapSysChroot => Some((seq![], seq![], Criticality::Error, "Perform chroot; join mount namespaces"@)),
        Capability::CapSysModule => Some((seq![NsType::User], seq![], Criticality::Error, "Allows loading/unloading of kernel modules"@)),
        Capability::CapSysNice => Some((seq![NsType::User], seq![], Criticality::Warn, "Allows various operations regarding process scheduling"@)),
        Capability::CapSysPacct => Some((seq![NsType::User], seq![], Criticality::Warn, "Switch process accounting on or off"@)),
        Capability::CapSysPtrace => Some((seq![NsType::User], seq![NsType::Pid], Criticality::Error, "Allow tracing processes via ptrace"@)),
        Capability::CapSysRawio => Some((seq![NsType::User], seq![], Criticality::Error, "Grants access to /dev/mem, /dev/kmem and others"@)),
        Capability::CapSysResource => Some((seq![NsType::User], seq![], Criticality::Error, "Allows various resource-related operations"@)),
        Capability::CapSysTime => Some((seq![NsType::User], seq![], Criticality::Error, "Set system clock and realtime clock"@)),
        Capability::CapSysTtyConfig => Some((seq![NsType::User], seq![], Criticality::Error, "vhangup system call, various privileged ioctl operations"@)),
        Capability::CapSyslog => Some((seq![NsType::User], seq![], Criticality::Error, "Privileged operations on the system log; view kernel addresses via procfs and others"@)),
        Capability::CapWakeAlarm => Some((seq![NsType::User], seq![], Criticality::Error, "Set CLOCK_REALTIME_ALARM, CLOCK_BOOTTIME_ALARM"@)),
    }
}

impl CapabilityRecord {
    /// The table entry of `cap`, if it has one.
    pub fn for_capability(cap: Capability) -> (res: Option<CapabilityRecord>)
        ensures
            match cap_policy(cap) {
                Some(p) => res matches Some(r) && r.spec_ok() == p.0 && r.spec_warn() == p.1 && r.spec_default() == p.2 && r.spec_notes() == p.3,
                None => res is None,
            },
    {
        match cap {
            Capability::Unspecified => None,
            Capability::CapAuditControl => Some(CapabilityRecord { ok: vec![NsType::User], warn: vec![], default: Criticality::Error, notes: String::from_str("Manage kernel auditing (activation, rules, etc.)") }),
            Capability::CapAuditRead => Some(CapabilityRecord { ok: vec![NsType::User], warn: vec![], default: Criticality::Warn, notes: String::from_str("Allows reading audit log via netlink") }),
            Capability::CapAuditWrite => Some(CapabilityRecord { ok: vec![NsType::User], warn: vec![], default: Criticality::Error, notes: String::from_str("Allows writing to audit log") }),
            Capability::CapBlockSuspend => Some(CapabilityRecord { ok: vec![NsType::User], warn: vec![], default: Criticality::Warn, notes: String::from_str("Allows blocking system suspend") }),
            Capability::CapBpf => Some(CapabilityRecord { ok: vec![NsType::User], warn: vec![], default: Criticality::Error, notes: String::from_str("Allows privileged BPF operations") }),
            Capability::CapCheckpointRestore => Some(CapabilityRecord { ok: vec![NsType::User, NsType::Pid], warn: vec![], default: Criticality::Error, notes: String::from_str("Allows writing to /proc/sys/kernel/ns_last_pid, clonse set_tid-feature, read /proc/pid/map_files") }),
            Capability::CapChown => Some(CapabilityRecord { ok: vec![NsType::User], warn: vec![], default: Criticality::Error, notes: String::from_str("Arbitrary changes to file uids / gids") }),
            Capability::CapDacOverride => Some(CapabilityRecord { ok: vec![NsType::User], warn: vec![], default: Criticality::Warn, notes: String::from_str("Allows bypassing DAC") }),
            Capability::CapDacReadSearch => Some(CapabilityRecord { ok: vec![NsType::User], warn: vec![], default: Criticality::Error, notes: String::from_str("Bypass permissions of files/directories, create link to file by fd, allows open_by_handle_at (https://www.exploit-db.com/exploits/33808)") }),
            Capability::CapFowner => Some(CapabilityRecord { ok: vec![NsType::User], warn: vec![], default: Criticality::Error, notes: String::from_str("Bypass file owner permission checks") }),
            Capability::CapFsetid => Some(CapabilityRecord { ok: vec![NsType::User], warn: vec![], default: Criticality::Error, notes: String::from_str("Functionality related to the set UID and set GID bits, e.g. not clearing them when modifying a file") }),
            Capability::CapIpcLock => Some(CapabilityRecord { ok: vec![NsType::User], warn: vec![], default: Criticality::Error, notes: String::from_str("Lock memory, allocate memory via huge pages") }),
            Capability::CapIpcOwner => Some(CapabilityRecord { ok: vec![NsType::User, NsType::Ipc], warn: vec![], default: Criticality::Error, notes: String::from_str("Bypass permission checks on System V IPC objects") }),
            Capability::CapKill => Some(CapabilityRecord { ok: vec![NsType::User], warn: vec![NsType::Pid], default: Criticality::Error, notes: String::from_str("Bypass permission checks for sending signals") }),
            Capability::CapLease => Some(CapabilityRecord { ok: vec![NsType::User], warn: vec![], default: Criticality::Error, notes: String::from_str("Leases on arbitrary files") }),
            Capability::CapLinuxImmutable => Some(CapabilityRecord { ok: vec![NsType::User], warn: vec![], default: Criticality::Error, notes: String::from_str("Set FS_APPEND_FL and FS_IMMUTABLE_FL inode flags") }),
            Capability::CapMacAdmin => Some(CapabilityRecord { ok: vec![NsType::User], warn: vec![], default: Criticality::Error, notes: String::from_str("Allow MAC configuration or state changes") }),
            Capability::CapMacOverride => Some(CapabilityRecord { ok: vec![NsType::User], warn: vec![], default: Criticality::Error, notes: String::from_str("Smack LSM: Allow Mandatory Access Control override") }),
            Capability::CapMknod => Some(CapabilityRecord { ok: vec![NsType::User], warn: vec![], default: Criticality::Info, notes: String::from_str("Use of  the mknod system call to create device nodes") }),
            Capability::CapNetAdmin => Some(CapabilityRecord { ok: vec![NsType::User], warn: vec![], default: Criticality::Error, notes: String::from_str("Allows various network-related operations") }),
            Capability::CapNetBindService => Some(CapabilityRecord { ok: vec![NsType::User], warn: vec![NsType::Network], default: Criticality::Error, notes: String::from_str("Bind socket to privileged ports") }),
            Capability::CapNetBroadcast => Some(CapabilityRecord { ok: vec![NsType::User, NsType::Network], warn: vec![], default: Criticality::Error, notes: String::from_str("Unused capability, related to socket broadcasts / listening to multicast transmissions") }),
            Capability::CapNetRaw => Some(CapabilityRecord { ok: vec![NsType::User], warn: vec![NsType::Network], default: Criticality::Error, notes: String::from_str("Use RAW and PACKET sockets") }),
            Capability::CapPerfmon => Some(CapabilityRecord { ok: vec![NsType::User], warn: vec![], default: Criticality::Warn, notes: String::from_str("Allows performance monitoring related functionality") }),
            Capability::CapSetgid => Some(CapabilityRecord { ok: vec![NsType::User], warn: vec![], default: Criticality::Error, notes: String::from_str("Allows arbitrary manipulation of process GID") }),
            Capability::CapSetfcap => Some(CapabilityRecord { ok: vec![NsType::User], warn: vec![], default: Criticality::Error, notes: String::from_str("Allows setting arbitrary capabilities on a file") }),
            Capability::CapSetpcap => Some(CapabilityRecord { ok: vec![NsType::User], warn: vec![], default: Criticality::Error, notes: String::from_str("Depending on whether file caps are supported: allows manipulation of cap perm set") }),
            Capability::CapSetuid => Some(CapabilityRecord { ok: vec![NsType::User], warn: vec![], default: Criticality::Error, notes: String::from_str("Allows arbitrary manipulations of process UID") }),
            Capability::CapSysAdmin => Some(CapabilityRecord { ok: vec![NsType::User], warn: vec![], default: Criticality::Error, notes: String::from_str("Overloaded Capability, defacto root") }),
            Capability::CapSysBoot => Some(CapabilityRecord { ok: vec![NsType::User, NsType::Pid], warn: vec![], default: Criticality::Error, notes: String::from_str("System reboot; allows to load new kernel") }),
            Capability::CapSysChroot => Some(CapabilityRecord { ok: vec![], warn: vec![], default: Criticality::Error, notes: String::from_str("Perform chroot; join mount namespaces") }),
            Capability::CapSysModule => Some(CapabilityRecord { ok: vec![NsType::User], warn: vec![], default: Criticality::Error, notes: String::from_str("Allows loading/unloading of kernel modules") }),
            Capability::CapSysNice => Some(CapabilityRecord { ok: vec![NsType::User], warn: vec![], default: Criticality::Warn, notes: String::from_str("Allows various operations regarding process scheduling") }),
            Capability::CapSysPacct => Some(CapabilityRecord { ok: vec![NsType::User], warn: vec![], default: Criticality::Warn, notes: String::from_str("Switch process accounting on or off") }),
            Capability::CapSysPtrace => Some(CapabilityRecord { ok: vec![NsType::User], warn: vec![NsType::Pid], default: Criticality::Error, notes: String::from_str("Allow tracing processes via ptrace") }),
            Capability::CapSysRawio => Some(CapabilityRecord { ok: vec![NsType::User], warn: vec![], default: Criticality::Error, notes: String::from_str("Grants access to /dev/mem, /dev/kmem and others") }),
            Capability::CapSysResource => Some(CapabilityRecord { ok: vec![NsType::User], warn: vec![], default: Criticality::Error, notes: String::from_str("Allows various resource-related operations") }),
            Capability::CapSysTime => Some(CapabilityRecord { ok: vec![NsType::User], warn: vec![], default: Criticality::Error, notes: String::from_str("Set system clock and realtime clock") }),
            Capability::CapSysTtyConfig => Some(CapabilityRecord { ok: vec![NsType::User], warn: vec![], default: Criticality::Error, notes: String::from_str("vhangup system call, various privileged ioctl operations") }),
            Capability::CapSyslog => Some(CapabilityRecord { ok: vec![NsType::User], warn: vec![], default: Criticality::Error, notes: String::from_str("Privileged operations on the system log; view kernel addresses via procfs and others") }),
            Capability::CapWakeAlarm => Some(CapabilityRecord { ok: vec![NsType::User], warn: vec![], default: Criticality::Error, notes: String::from_str("Set CLOCK_REALTIME_ALARM, CLOCK_BOOTTIME_ALARM") }),
        }
    }

    pub fn ok(&self) -> (res: &Vec<NsType>)
        ensures
            res@ == self.spec_ok(),
    {
        &self.ok
    }

    pub fn warn(&self) -> (res: &Vec<NsType>)
        ensures
            res@ == self.spec_warn(),
    {
        &self.warn
    }

    pub fn default(&self) -> (res: Criticality)
        ensures
            res == self.spec_default(),
    {
        self.default
    }

    pub fn notes(&self) -> (res: &str)
        ensures
            res@ == self.spec_notes(),
    {
        self.notes.as_str()
    }

    pub closed spec fn spec_ok(&self) -> Seq<NsType> {
        self.ok@
    }

    pub closed spec fn spec_warn(&self) -> Seq<NsType> {
        self.warn@
    }

    pub closed spec fn spec_default(&self) -> Criticality {
        self.default
    }

    pub closed spec fn spec_notes(&self) -> Seq<char> {
        self.notes@
    }
}

} // verus!
