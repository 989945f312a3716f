//! Container isolation checks: the data gathered about a container, its
//! evaluation into categories of isolation mechanisms and tests, and the
//! assessment of that evaluation against security goals.

use vstd::prelude::*;

pub mod text;
pub mod c_config;
pub mod config;
pub mod evaluation;
pub mod assessment;
pub mod process;

verus! {

/// Declares the standard library's I/O error, which errors of this crate carry.
#[verifier::external_type_specification]
#[verifier::external_body]
pub struct ExIoError(std::io::Error);

/// Declares the path buffer type of the standard library.
#[verifier::external_type_specification]
#[verifier::external_body]
pub struct ExPathBuf(std::path::PathBuf);

/// Declares the error number type of the `nix` crate.
#[verifier::external_type_specification]
#[verifier::external_body]
pub struct ExErrno(nix::errno::Errno);

/// Errors of the library.
#[derive(Debug)]
pub enum Error {
    ValueError { msg: String, val: String, path: String },
    ConversionFailed(String),
    MyIoError { path: String, source: std::io::Error },
    SyscallError { name: String, retval: i32, errno: i32, errno_msg: String },
    IoError { source: std::io::Error },
    IoctlFailed(nix::errno::Errno),
    NixError { source: nix::errno::Errno },
    CgroupError,
    DeviceError { path: String, source: Option<std::io::Error> },
    BacktraceError { msg: String, inner: std::io::Error },
}

pub type Result<T> = std::result::Result<T, Error>;

/// `e.to_string()` of the standard library: the text of an I/O error.
/// Nothing is stated of the text, which the operating system supplies.
#[verifier::external_body]
fn io_error_text(e: &std::io::Error) -> (res: String)
{
    e.to_string()
}

/// `e.to_string()` of the `nix` crate: an error number's name and
/// description. Nothing is stated of the text.
#[verifier::external_body]
fn errno_text(e: &nix::errno::Errno) -> (res: String)
{
    e.to_string()
}

/// `format!("{e:?}")` of the `nix` crate: an error number's name. Nothing is
/// stated of the text.
#[verifier::external_body]
fn errno_debug_text(e: &nix::errno::Errno) -> (res: String)
{
    format!("{e:?}")
}

impl Error {
    /// The text that describes the error. The texts of I/O errors and error
    /// numbers come from outside and close the message.
    pub fn message(&self) -> (res: String)
        ensures
            match self {
                Error::ValueError { msg, val, path } => res@ == msg@ + ": '"@ + val@ + "' at '"@ + path@ + "'"@,
                Error::ConversionFailed(m) => res@ == "ConversionFailed: "@ + m@,
                Error::MyIoError { path, .. } => ("Failed to access file at '"@ + path@ + "': "@).is_prefix_of(res@),
                Error::SyscallError { name, retval, errno, .. } => res@ == "Syscall through libc failed: '"@ + name@
                    + "', ret: "@ + crate::text::signed_decimal(*retval as int) + ", errno: "@
                    + crate::text::hex((*errno as u32) as nat),
                Error::IoError { .. } => "IoError: "@.is_prefix_of(res@),
                Error::IoctlFailed(_) => "Ioctl failed: "@.is_prefix_of(res@),
                Error::NixError { .. } => "NixError: "@.is_prefix_of(res@),
                Error::CgroupError => res@ == "Cgroup v1 is not supported"@,
                Error::DeviceError { path, .. } => res@ == "'"@ + path@ + "' does not point to a device node"@,
                Error::BacktraceError { msg, .. } => (" "@ + msg@ + " : "@).is_prefix_of(res@),
            },
    {
        match self {
            Error::ValueError { msg, val, path } => {
                let mut s = msg.clone();
                s.append(": '");
                s.append(val.as_str());
                s.append("' at '");
                s.append(path.as_str());
                s.append("'");
                s
            }
            Error::ConversionFailed(m) => {
                let mut s = String::from_str("ConversionFailed: ");
                s.append(m.as_str());
                s
            }
            Error::MyIoError { path, source } => {
                let mut s = String::from_str("Failed to access file at '");
                s.append(path.as_str());
                s.append("': ");
                let ghost head = s@;
                let t = io_error_text(source);
                s.append(t.as_str());
                assert(s@ == head + t@);
                assert(s@.subrange(0, head.len() as int) =~= head);
                s
            }
            Error::SyscallError { name, retval, errno, .. } => {
                let mut s = String::from_str("Syscall through libc failed: '");
                s.append(name.as_str());
                s.append("', ret: ");
                crate::text::push_signed_decimal(&mut s, *retval as i64);
                s.append(", errno: ");
                crate::text::push_hex(&mut s, (*errno as u32) as u64);
                s
            }
            Error::IoError { source } => {
                let mut s = String::from_str("IoError: ");
                let ghost head = s@;
                let t = io_error_text(source);
                s.append(t.as_str());
                assert(s@.subrange(0, head.len() as int) =~= head);
                s
            }
            Error::IoctlFailed(e) => {
                let mut s = String::from_str("Ioctl failed: ");
                let ghost head = s@;
                let t = errno_debug_text(e);
                s.append(t.as_str());
                assert(s@.subrange(0, head.len() as int) =~= head);
                s
            }
            Error::NixError { source } => {
                let mut s = String::from_str("NixError: ");
                let ghost head = s@;
                let t = errno_text(source);
                s.append(t.as_str());
                assert(s@.subrange(0, head.len() as int) =~= head);
                s
            }
            Error::CgroupError => String::from_str("Cgroup v1 is not supported"),
            Error::DeviceError { path, .. } => {
                let mut s = String::from_str("'");
                s.append(path.as_str());
                s.append("' does not point to a device node");
                s
            }
            Error::BacktraceError { msg, inner } => {
                let mut s = String::from_str(" ");
                s.append(msg.as_str());
                s.append(" : ");
                let ghost head = s@;
                let t = io_error_text(inner);
                s.append(t.as_str());
                assert(s@.subrange(0, head.len() as int) =~= head);
                s
            }
        }
    }
}

/// `path.display().to_string()` of the standard library: the path as text,
/// with bytes that are not UTF-8 replaced. Nothing is stated of the text, as
/// a `PathBuf` has no view here.
#[verifier::external_body]
fn path_display_string(path: &std::path::PathBuf) -> (res: String)
{
    path.display().to_string()
}

/// An I/O error on the file at `path`.
pub fn map_io_error(path: &std::path::PathBuf, e: std::io::Error) -> (res: Error)
    ensures
        res matches Error::MyIoError { source, .. } && source == e,
{
    Error::MyIoError { path: path_display_string(path), source: e }
}

/// An I/O error on the file at `path`.
pub fn map_io_error_str(path: &str, e: std::io::Error) -> (res: Error)
    ensures
        res matches Error::MyIoError { path: p, source } && p@ == path@ && source == e,
{
    Error::MyIoError { path: String::from_str(path), source: e }
}

/// `path` does not name a device node; `e` is the error met, if any.
pub fn map_device_error(path: std::path::PathBuf, e: Option<std::io::Error>) -> (res: Error)
    ensures
        res matches Error::DeviceError { source, .. } && source == e,
{
    Error::DeviceError { path: path_display_string(&path), source: e }
}

} // verus!
