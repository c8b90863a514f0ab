//! Where files are read and written when the platform's usual directories are overridden.

use crate::utils::{hex16, push_hex16};
use vstd::prelude::*;

verus! {

/// A root directory for all files, for platforms without the usual directories, and for tests.
#[derive(Debug, Clone)]
pub struct OverRide {
    path: String,
}

impl OverRide {
    /// The root directory.
    pub closed spec fn path_view(&self) -> Seq<char> {
        self.path@
    }

    /// All files will be read and written under this root directory.
    pub fn new(path: &str) -> (r: Self)
        ensures
            r.path_view() == path@,
    {
        OverRide { path: path.to_owned() }
    }

    /// The root directory, where configuration, cache and data all go.
    pub fn path(&self) -> (r: &str)
        ensures
            r@ == self.path_view(),
    {
        self.path.as_str()
    }
}

/// The name of a directory for a test run, from a random number: `qp2p_tests_` and the number
/// in sixteen hexadecimal digits.
pub fn test_dir_name(random: u64) -> (r: String)
    ensures
        r@ == "qp2p_tests_"@ + hex16(random),
{
    let mut out = String::from_str("qp2p_tests_");
    push_hex16(&mut out, random);
    out
}

} // verus!
