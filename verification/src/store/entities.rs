//! Downloads and cue files as the engine handles them: a row together with
//! the rows below it.

use vstd::prelude::*;
use crate::store::model::{CueFileView, DownloadView};
use crate::store::rows::{CueFileRow, DownloadRow, Track};
use crate::store::seqs::views;

verus! {

/// One cue sheet found under a download's output directory, with the tracks
/// that were split from it.
#[derive(Debug)]
pub struct CueFile {
    pub id: u128,
    pub download_id: String,
    pub path: String,
    pub tracks: Vec<Track>,
}

/// One item of the remote queue under local tracking, with its cue files.
#[derive(Debug)]
pub struct Download {
    pub download_id: String,
    pub title: String,
    pub status: String,
    pub output_path: String,
    pub tracked_download_state: String,
    pub cue_files: Vec<CueFile>,
    pub split_complete: bool,
}

impl View for CueFile {
    type V = CueFileView;

    open spec fn view(&self) -> CueFileView {
        CueFileView {
            id: self.id,
            download_id: self.download_id@,
            path: self.path@,
            tracks: views(self.tracks@),
        }
    }
}

impl View for Download {
    type V = DownloadView;

    open spec fn view(&self) -> DownloadView {
        DownloadView {
            download_id: self.download_id@,
            title: self.title@,
            status: self.status@,
            output_path: self.output_path@,
            tracked_download_state: self.tracked_download_state@,
            cue_files: views(self.cue_files@),
            split_complete: self.split_complete,
        }
    }
}

impl CueFile {
    /// The cue file's own row, without its tracks.
    pub fn row(&self) -> (row: CueFileRow)
        ensures
            row@ == self@.row(),
    {
        CueFileRow {
            id: self.id,
            path: self.path.clone(),
            download_id: self.download_id.clone(),
        }
    }
}

impl Download {
    /// The download's own row, without its cue files.
    pub fn row(&self) -> (row: DownloadRow)
        ensures
            row@ == self@.row(),
    {
        DownloadRow {
            download_id: self.download_id.clone(),
            title: self.title.clone(),
            status: self.status.clone(),
            output_path: self.output_path.clone(),
            tracked_download_state: self.tracked_download_state.clone(),
            split_complete: self.split_complete,
        }
    }
}

} // verus!
