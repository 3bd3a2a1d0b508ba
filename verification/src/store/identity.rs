//! What makes two downloads, cue files or tracks the same.

use vstd::prelude::*;
use vstd::std_specs::cmp::PartialEqSpecImpl;
use crate::store::entities::{CueFile, Download};
use crate::store::rows::Track;

verus! {

/// Downloads are the same where their `download_id` is.
impl PartialEq for Download {
    fn eq(&self, other: &Self) -> (same: bool) {
        self.download_id == other.download_id
    }
}

impl PartialEqSpecImpl for Download {
    open spec fn obeys_eq_spec() -> bool {
        true
    }

    open spec fn eq_spec(&self, other: &Self) -> bool {
        self.download_id@ == other.download_id@
    }
}

/// Cue files are the same where their `path` is.
impl PartialEq for CueFile {
    fn eq(&self, other: &Self) -> (same: bool) {
        self.path == other.path
    }
}

impl PartialEqSpecImpl for CueFile {
    open spec fn obeys_eq_spec() -> bool {
        true
    }

    open spec fn eq_spec(&self, other: &Self) -> bool {
        self.path@ == other.path@
    }
}

/// Tracks are the same where their `path` and their `download_id` are.
impl PartialEq for Track {
    fn eq(&self, other: &Self) -> (same: bool) {
        self.path == other.path && self.download_id == other.download_id
    }
}

impl PartialEqSpecImpl for Track {
    open spec fn obeys_eq_spec() -> bool {
        true
    }

    open spec fn eq_spec(&self, other: &Self) -> bool {
        self.path@ == other.path@ && self.download_id@ == other.download_id@
    }
}

impl Eq for Download {

}

impl Eq for CueFile {

}

impl Eq for Track {

}

} // verus!
