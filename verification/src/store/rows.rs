//! The rows of the three tables, and their mathematical views.

use vstd::prelude::*;

verus! {

/// Mathematical view of a row of the downloads table.
pub struct DownloadRowView {
    pub download_id: Seq<char>,
    pub title: Seq<char>,
    pub status: Seq<char>,
    pub output_path: Seq<char>,
    pub tracked_download_state: Seq<char>,
    pub split_complete: bool,
}

/// Mathematical view of a row of the cue files table.
pub struct CueFileRowView {
    pub id: u128,
    pub path: Seq<char>,
    pub download_id: Seq<char>,
}

/// Mathematical view of a track, which is also a row of the tracks table.
pub struct TrackView {
    pub id: u128,
    pub path: Seq<char>,
    pub cue_file_id: u128,
    pub download_id: Seq<char>,
}

/// One row of the downloads table, keyed by `download_id`.
#[derive(Debug)]
pub struct DownloadRow {
    pub download_id: String,
    pub title: String,
    pub status: String,
    pub output_path: String,
    pub tracked_download_state: String,
    pub split_complete: bool,
}

/// One row of the cue files table, keyed by `id`.
#[derive(Debug)]
pub struct CueFileRow {
    pub id: u128,
    pub path: String,
    pub download_id: String,
}

/// One audio file produced by splitting a cue sheet. It is stored as it is:
/// a row of the tracks table, keyed by `id`.
#[derive(Debug)]
pub struct Track {
    pub id: u128,
    pub path: String,
    pub cue_file_id: u128,
    pub download_id: String,
}

impl View for DownloadRow {
    type V = DownloadRowView;

    open spec fn view(&self) -> DownloadRowView {
        DownloadRowView {
            download_id: self.download_id@,
            title: self.title@,
            status: self.status@,
            output_path: self.output_path@,
            tracked_download_state: self.tracked_download_state@,
            split_complete: self.split_complete,
        }
    }
}

impl View for CueFileRow {
    type V = CueFileRowView;

    open spec fn view(&self) -> CueFileRowView {
        CueFileRowView { id: self.id, path: self.path@, download_id: self.download_id@ }
    }
}

impl View for Track {
    type V = TrackView;

    open spec fn view(&self) -> TrackView {
        TrackView {
            id: self.id,
            path: self.path@,
            cue_file_id: self.cue_file_id,
            download_id: self.download_id@,
        }
    }
}

impl DownloadRow {
    /// An independent copy of the row.
    pub fn duplicate(&self) -> (row: DownloadRow)
        ensures
            row@ == self@,
    {
        DownloadRow {
            download_id: self.download_id.clone(),
            title: self.title.clone(),
            status: self.status.clone(),
            output_path: self.output_path.clone(),
            tracked_download_state: self.tracked_download_state.clone(),
            split_complete: self.split_complete,
        }
    }
}

impl CueFileRow {
    /// An independent copy of the row.
    pub fn duplicate(&self) -> (row: CueFileRow)
        ensures
            row@ == self@,
    {
        CueFileRow { id: self.id, path: self.path.clone(), download_id: self.download_id.clone() }
    }
}

impl Track {
    /// An independent copy of the track.
    pub fn duplicate(&self) -> (row: Track)
        ensures
            row@ == self@,
    {
        Track {
            id: self.id,
            path: self.path.clone(),
            cue_file_id: self.cue_file_id,
            download_id: self.download_id.clone(),
        }
    }
}

} // verus!
