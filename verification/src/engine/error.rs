//! What stops a reconciliation cycle.

use vstd::prelude::*;

verus! {

/// Why a cycle's decisions could not be completed.
#[derive(Debug, Clone, Copy, PartialEq, Eq, Structural)]
pub enum ReconcileError {
    /// A record reports a failed import but names no output path.
    MissingOutputPath,
}

impl ReconcileError {
    /// A short description for logs.
    pub fn message(&self) -> (text: &'static str)
        ensures
            text@ == "a queue record with a failed import has no output path"@,
    {
        "a queue record with a failed import has no output path"
    }
}

} // verus!
