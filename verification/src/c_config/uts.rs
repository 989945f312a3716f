//! Host and domain names as seen from a UTS namespace.

use vstd::prelude::*;

verus! {

/// The host name and domain name that a process sees.
#[derive(Clone, Debug)]
pub struct UtsConfig {
    pub hostname: String,
    pub domainname: String,
}

} // verus!
