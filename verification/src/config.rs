//! Fixed tables that the evaluation and the assessment rely on.

pub mod cap_sec;
