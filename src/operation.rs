//! The operations the archiver offers.
use vstd::prelude::*;

verus! {

/// An operation requested by the user.
pub enum Operation {
    /// Extracts `file` into `output`, a directory for archives or a file for
    /// single compressed files.
    Extract { file: String, output: Option<String> },
}

} // verus!
