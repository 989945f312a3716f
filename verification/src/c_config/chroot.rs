//! The root directories of the host and of the container.

use vstd::prelude::*;

verus! {

/// A process's root directory: the path that `/proc/<pid>/root` links to,
/// and the inode and device of the directory.
#[derive(Clone, Debug)]
pub struct Root {
    pub path: String,
    pub st_ino: u64,
    pub st_dev: u64,
}

/// The roots of a host process and of a container process.
#[derive(Clone, Debug)]
pub struct ChrootConfig {
    pub host: Option<Root>,
    pub container: Option<Root>,
}

} // verus!
