//! What the surrounding process hands the pipeline about itself.

use vstd::prelude::*;
use crate::text::{contains_lower, contains_seq, lower_seq};

verus! {

/// Facts about the running program that operations consult: where the
/// executable lives, the crate version, and the project repository.
#[derive(Clone, Debug)]
pub struct Context {
    pub exe_path: String,
    pub exe_dir: String,
    pub version: &'static str,
    pub repo_url: &'static str,
}

/// Whether the executable runs out of a build tree rather than an installed
/// location; self-update refuses such a binary unless forced.
pub fn is_dev_exe(path: &str) -> (r: bool)
    ensures
        r == (contains_seq(lower_seq(path@), "\\target\\debug\\"@) || contains_seq(
            lower_seq(path@),
            "\\target\\release\\"@,
        )),
{
    contains_lower(path, "\\target\\debug\\") || contains_lower(path, "\\target\\release\\")
}

} // verus!
