//! Seccomp mode of a process.

use vstd::prelude::*;
use crate::Error;
use crate::text::{IntErrorKind, parse_unsigned, parse_unsigned_exec, chars_of, push_char};

verus! {

/// Seccomp modes.
#[derive(Clone, Copy, Debug, PartialEq, Eq, Hash, Structural)]
pub enum Mode {
    Unspecified,
    SeccompModeDisabled,
    SeccompModeStrict,
    SeccompModeFilter,
}

impl Mode {
    /// The mode's name, such as `SECCOMP_MODE_FILTER`.
    pub open spec fn spec_name(self) -> Seq<char> {
        match self {
            Mode::Unspecified => "UNSPECIFIED"@,
            Mode::SeccompModeDisabled => "SECCOMP_MODE_DISABLED"@,
            Mode::SeccompModeStrict => "SECCOMP_MODE_STRICT"@,
            Mode::SeccompModeFilter => "SECCOMP_MODE_FILTER"@,
        }
    }

    pub fn name(&self) -> (res: &'static str)
        ensures
            res@ == self.spec_name(),
    {
        match self {
            Mode::Unspecified => "UNSPECIFIED",
            Mode::SeccompModeDisabled => "SECCOMP_MODE_DISABLED",
            Mode::SeccompModeStrict => "SECCOMP_MODE_STRICT",
            Mode::SeccompModeFilter => "SECCOMP_MODE_FILTER",
        }
    }

    /// The mode with the kernel's number `value`: 0 disabled, 1 strict, 2 filter.
    pub fn from_value(value: u32) -> (res: Result<Mode, Error>)
        ensures
            value == 0 ==> res == Ok::<Mode, Error>(Mode::SeccompModeDisabled),
            value == 1 ==> res == Ok::<Mode, Error>(Mode::SeccompModeStrict),
            value == 2 ==> res == Ok::<Mode, Error>(Mode::SeccompModeFilter),
            value > 2 ==> (res matches Err(Error::ConversionFailed(m)) && m@ == "unknown seccomp mode"@),
    {
        if value == 0 {
            Ok(Mode::SeccompModeDisabled)
        } else if value == 1 {
            Ok(Mode::SeccompModeStrict)
        } else if value == 2 {
            Ok(Mode::SeccompModeFilter)
        } else {
            Err(Error::ConversionFailed(String::from_str("unknown seccomp mode")))
        }
    }
}

/// The ASCII digits of `s`, in order.
pub open spec fn digits_only(s: Seq<char>) -> Seq<char>
    decreases s.len(),
{
    if s.len() == 0 {
        Seq::empty()
    } else {
        digits_only(s.drop_last()) + if '0' <= s.last() && s.last() <= '9' {
            seq![s.last()]
        } else {
            Seq::empty()
        }
    }
}

/// Whether `line` is the `Seccomp:` line of `/proc/<pid>/status`.
pub fn is_seccomp_line(line: &str) -> (res: bool)
    ensures
        res == "Seccomp:"@.is_prefix_of(line@),
{
    crate::text::starts_with_str(line, "Seccomp:")
}

/// The number that the `Seccomp:` line gives: its digits, read as a 32-bit
/// unsigned number.
pub fn seccomp_value(line: &str) -> (res: Result<u32, IntErrorKind>)
    ensures
        match parse_unsigned(digits_only(line@), 10, u32::MAX as nat) {
            Ok(v) => res == Ok::<u32, IntErrorKind>(v as u32),
            Err(e) => res == Err::<u32, IntErrorKind>(e),
        },
{
    let v = chars_of(line);
    let mut digits = String::new();
    let mut i: usize = 0;
    while i < v.len()
        invariant
            v@ == line@,
            0 <= i <= v@.len(),
            digits@ == digits_only(v@.take(i as int)),
        decreases v@.len() - i,
    {
        assert(v@.take(i + 1).drop_last() =~= v@.take(i as int));
        if '0' <= v[i] && v[i] <= '9' {
            push_char(&mut digits, v[i]);
        }
        assert(digits@ =~= digits_only(v@.take(i + 1)));
        i = i + 1;
    }
    assert(v@.take(v@.len() as int) =~= v@);
    match parse_unsigned_exec(digits.as_str(), 10, u32::MAX as u64) {
        Ok(n) => Ok(n as u32),
        Err(e) => Err(e),
    }
}

/// The outcome of trying a system call.
#[derive(Clone, Debug)]
pub struct SyscallResult {
    pub success: bool,
    pub info: String,
}

/// A system call tried, and its outcome.
#[derive(Clone, Debug)]
pub struct NamedSyscallResult {
    pub name: String,
    pub result: SyscallResult,
}

/// The seccomp mode of a process and the system calls tried in it.
#[derive(Clone, Debug)]
pub struct SeccompConfig {
    pub mode: Mode,
    pub syscall_map: Vec<NamedSyscallResult>,
}

} // verus!
