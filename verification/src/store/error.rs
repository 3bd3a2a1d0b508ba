//! What the store refuses.

use vstd::prelude::*;

verus! {

/// A write that the store cannot carry out.
#[derive(Debug, Clone, Copy, PartialEq, Eq, Structural)]
pub enum StoreError {
    /// Two download rows share a `download_id`.
    DuplicateDownload,
    /// A cue file's identifier is already in use, or two cue file rows share
    /// an identifier or a path.
    DuplicateCueFile,
    /// A track's identifier is already in use, or two track rows share an
    /// identifier or a path.
    DuplicateTrack,
}

impl StoreError {
    /// A short description for logs.
    pub fn message(&self) -> (text: &'static str)
        ensures
            text@ == match *self {
                StoreError::DuplicateDownload => "duplicate download row"@,
                StoreError::DuplicateCueFile => "duplicate cue file row"@,
                StoreError::DuplicateTrack => "duplicate track row"@,
            },
    {
        match self {
            StoreError::DuplicateDownload => "duplicate download row",
            StoreError::DuplicateCueFile => "duplicate cue file row",
            StoreError::DuplicateTrack => "duplicate track row",
        }
    }
}

} // verus!
