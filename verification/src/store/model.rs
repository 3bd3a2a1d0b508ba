//! The mathematical model of the store: three tables and the journal of
//! writes that still have to be made durable.

use vstd::prelude::*;
use crate::store::rows::{CueFileRowView, DownloadRowView, TrackView};
use crate::store::seqs::distinct_by;

verus! {

/// Mathematical view of one durable write.
pub enum StatementView {
    InsertDownload(DownloadRowView),
    UpdateDownload(DownloadRowView),
    InsertCueFile(CueFileRowView),
    InsertTrack(TrackView),
    DeleteTracksOfDownload(Seq<char>),
    DeleteCueFilesOfDownload(Seq<char>),
    DeleteDownload(Seq<char>),
    DeleteTracksOfCueFile(u128),
    DeleteCueFile(u128),
    DeleteTrack(u128),
}

/// Mathematical view of the store.
pub struct StoreView {
    pub downloads: Seq<DownloadRowView>,
    pub cue_files: Seq<CueFileRowView>,
    pub tracks: Seq<TrackView>,
    pub journal: Seq<StatementView>,
}

/// Mathematical view of a cue file together with the tracks split from it.
pub struct CueFileView {
    pub id: u128,
    pub download_id: Seq<char>,
    pub path: Seq<char>,
    pub tracks: Seq<TrackView>,
}

/// Mathematical view of a download together with its cue files.
pub struct DownloadView {
    pub download_id: Seq<char>,
    pub title: Seq<char>,
    pub status: Seq<char>,
    pub output_path: Seq<char>,
    pub tracked_download_state: Seq<char>,
    pub cue_files: Seq<CueFileView>,
    pub split_complete: bool,
}

impl CueFileView {
    /// The cue file's own row.
    pub open spec fn row(self) -> CueFileRowView {
        CueFileRowView { id: self.id, path: self.path, download_id: self.download_id }
    }
}

impl DownloadView {
    /// The download's own row.
    pub open spec fn row(self) -> DownloadRowView {
        DownloadRowView {
            download_id: self.download_id,
            title: self.title,
            status: self.status,
            output_path: self.output_path,
            tracked_download_state: self.tracked_download_state,
            split_complete: self.split_complete,
        }
    }
}

/// The key of a download row.
pub open spec fn download_key() -> spec_fn(DownloadRowView) -> Seq<char> {
    |d: DownloadRowView| d.download_id
}

/// The key of a cue file row.
pub open spec fn cue_file_key() -> spec_fn(CueFileRowView) -> u128 {
    |c: CueFileRowView| c.id
}

/// The path of a cue file row.
pub open spec fn cue_file_path() -> spec_fn(CueFileRowView) -> Seq<char> {
    |c: CueFileRowView| c.path
}

/// The key of a track row.
pub open spec fn track_key() -> spec_fn(TrackView) -> u128 {
    |t: TrackView| t.id
}

/// The path of a track row.
pub open spec fn track_path() -> spec_fn(TrackView) -> Seq<char> {
    |t: TrackView| t.path
}

/// A cue file that was just found: no tracks yet.
pub open spec fn new_cue_file(download_id: Seq<char>, path: Seq<char>, id: u128) -> CueFileView {
    CueFileView { id, download_id, path, tracks: Seq::empty() }
}

/// A track that was just split from a cue file.
pub open spec fn new_track(cue_file: CueFileView, path: Seq<char>, id: u128) -> TrackView {
    TrackView { id, path, cue_file_id: cue_file.id, download_id: cue_file.download_id }
}

/// Whether completion is kept from one store to the next: a download that
/// was marked as split completely and still has a row is still marked so.
pub open spec fn completion_kept(before: StoreView, after: StoreView) -> bool {
    forall|i: int, j: int|
        0 <= i < before.downloads.len() && 0 <= j < after.downloads.len() && (
        #[trigger] before.downloads[i]).download_id == (#[trigger] after.downloads[j]).download_id
            && before.downloads[i].split_complete ==> after.downloads[j].split_complete
}

/// Whether the journal accounts for the way from one store to the next: the
/// journal only grew, and the writes that were added, carried out in order
/// on the tables of `before`, give the tables of `after`.
pub open spec fn journaled(before: StoreView, after: StoreView) -> bool {
    &&& before.journal.len() <= after.journal.len()
    &&& after.journal.take(before.journal.len() as int) == before.journal
    &&& after.same_tables(before.replay(after.journal.skip(before.journal.len() as int)))
}

/// What an update leaves in a row: the key and the output path stay, the
/// other columns are taken from `new`.
pub open spec fn updated_row(row: DownloadRowView, new: DownloadRowView) -> DownloadRowView {
    if row.download_id == new.download_id {
        DownloadRowView {
            download_id: row.download_id,
            title: new.title,
            status: new.status,
            output_path: row.output_path,
            tracked_download_state: new.tracked_download_state,
            split_complete: new.split_complete,
        }
    } else {
        row
    }
}

impl StoreView {
    /// The store with no rows and nothing to write.
    pub open spec fn empty() -> StoreView {
        StoreView {
            downloads: Seq::empty(),
            cue_files: Seq::empty(),
            tracks: Seq::empty(),
            journal: Seq::empty(),
        }
    }

    /// Whether the downloads table holds a row with this key.
    pub open spec fn has_download(self, download_id: Seq<char>) -> bool {
        exists|i: int|
            0 <= i < self.downloads.len() && (#[trigger] self.downloads[i]).download_id
                == download_id
    }

    /// Whether the download has a row that is marked as split completely.
    pub open spec fn completed(self, download_id: Seq<char>) -> bool {
        exists|i: int|
            0 <= i < self.downloads.len() && (#[trigger] self.downloads[i]).download_id
                == download_id && self.downloads[i].split_complete
    }

    /// Whether a cue file is recorded at this path.
    pub open spec fn has_cue_path(self, path: Seq<char>) -> bool {
        exists|i: int| 0 <= i < self.cue_files.len() && (#[trigger] self.cue_files[i]).path == path
    }

    /// Whether a cue file row has this identifier.
    pub open spec fn has_cue_id(self, id: u128) -> bool {
        exists|i: int| 0 <= i < self.cue_files.len() && (#[trigger] self.cue_files[i]).id == id
    }

    /// Whether a track is recorded at this path.
    pub open spec fn has_track_path(self, path: Seq<char>) -> bool {
        exists|i: int| 0 <= i < self.tracks.len() && (#[trigger] self.tracks[i]).path == path
    }

    /// Whether a track row has this identifier.
    pub open spec fn has_track_id(self, id: u128) -> bool {
        exists|i: int| 0 <= i < self.tracks.len() && (#[trigger] self.tracks[i]).id == id
    }

    /// Keys and paths identify rows: no two downloads share a `download_id`,
    /// no two cue files share an `id` or a `path`, and no two tracks share an
    /// `id` or a `path`.
    pub open spec fn wf(self) -> bool {
        &&& distinct_by(self.downloads, download_key())
        &&& distinct_by(self.cue_files, cue_file_key())
        &&& distinct_by(self.cue_files, cue_file_path())
        &&& distinct_by(self.tracks, track_key())
        &&& distinct_by(self.tracks, track_path())
    }

    /// The tables after one write; the journal is left alone.
    pub open spec fn apply(self, stmt: StatementView) -> StoreView {
        match stmt {
            StatementView::InsertDownload(row) => StoreView {
                downloads: self.downloads.push(row),
                ..self
            },
            StatementView::UpdateDownload(row) => StoreView {
                downloads: self.downloads.map_values(|r: DownloadRowView| updated_row(r, row)),
                ..self
            },
            StatementView::InsertCueFile(row) => StoreView {
                cue_files: self.cue_files.push(row),
                ..self
            },
            StatementView::InsertTrack(row) => StoreView { tracks: self.tracks.push(row), ..self },
            StatementView::DeleteTracksOfDownload(id) => StoreView {
                tracks: self.tracks.filter(|t: TrackView| t.download_id != id),
                ..self
            },
            StatementView::DeleteCueFilesOfDownload(id) => StoreView {
                cue_files: self.cue_files.filter(|c: CueFileRowView| c.download_id != id),
                ..self
            },
            StatementView::DeleteDownload(id) => StoreView {
                downloads: self.downloads.filter(|d: DownloadRowView| d.download_id != id),
                ..self
            },
            StatementView::DeleteTracksOfCueFile(id) => StoreView {
                tracks: self.tracks.filter(|t: TrackView| t.cue_file_id != id),
                ..self
            },
            StatementView::DeleteCueFile(id) => StoreView {
                cue_files: self.cue_files.filter(|c: CueFileRowView| c.id != id),
                ..self
            },
            StatementView::DeleteTrack(id) => StoreView {
                tracks: self.tracks.filter(|t: TrackView| t.id != id),
                ..self
            },
        }
    }

    /// The tables after the writes were carried out in order.
    pub open spec fn replay(self, stmts: Seq<StatementView>) -> StoreView
        decreases stmts.len(),
    {
        if stmts.len() == 0 {
            self
        } else {
            self.replay(stmts.drop_last()).apply(stmts.last())
        }
    }

    /// Whether two stores hold the same rows.
    pub open spec fn same_tables(self, other: StoreView) -> bool {
        &&& self.downloads == other.downloads
        &&& self.cue_files == other.cue_files
        &&& self.tracks == other.tracks
    }

    /// The store after one write was carried out and entered in the journal.
    pub open spec fn execute(self, stmt: StatementView) -> StoreView {
        StoreView { journal: self.journal.push(stmt), ..self.apply(stmt) }
    }
}

impl StoreView {
    /// The tracks recorded under a cue file, in table order.
    pub open spec fn tracks_of(self, cue_file_id: u128) -> Seq<TrackView> {
        self.tracks.filter(|t: TrackView| t.cue_file_id == cue_file_id)
    }

    /// A cue file row together with its tracks.
    pub open spec fn cue_file(self, row: CueFileRowView) -> CueFileView {
        CueFileView {
            id: row.id,
            download_id: row.download_id,
            path: row.path,
            tracks: self.tracks_of(row.id),
        }
    }

    /// The cue files recorded under a download, in table order, each with its
    /// tracks.
    pub open spec fn cue_files_of(self, download_id: Seq<char>) -> Seq<CueFileView> {
        self.cue_files.filter(|c: CueFileRowView| c.download_id == download_id).map_values(
            |c: CueFileRowView| self.cue_file(c),
        )
    }

    /// A download row together with its cue files.
    pub open spec fn download(self, row: DownloadRowView) -> DownloadView {
        DownloadView {
            download_id: row.download_id,
            title: row.title,
            status: row.status,
            output_path: row.output_path,
            tracked_download_state: row.tracked_download_state,
            cue_files: self.cue_files_of(row.download_id),
            split_complete: row.split_complete,
        }
    }

    /// Every download in table order, each with its full subtree.
    pub open spec fn all(self) -> Seq<DownloadView> {
        self.downloads.map_values(|d: DownloadRowView| self.download(d))
    }
}

impl StoreView {
    /// Upsert of a download's own row: an existing row is updated in place, a
    /// new key is inserted.
    pub open spec fn save_download_row(self, row: DownloadRowView) -> StoreView {
        if self.has_download(row.download_id) {
            self.execute(StatementView::UpdateDownload(row))
        } else {
            self.execute(StatementView::InsertDownload(row))
        }
    }

    /// Whether recording the cue file succeeds: its path is already there,
    /// or its identifier is still free.
    pub open spec fn cue_file_saves(self, row: CueFileRowView) -> bool {
        self.has_cue_path(row.path) || !self.has_cue_id(row.id)
    }

    /// Recording a cue file: nothing happens where the path is already there
    /// (the first insert wins) or where the identifier is taken; otherwise
    /// the row is inserted.
    pub open spec fn save_cue_file(self, row: CueFileRowView) -> StoreView {
        if self.has_cue_path(row.path) || self.has_cue_id(row.id) {
            self
        } else {
            self.execute(StatementView::InsertCueFile(row))
        }
    }

    /// Whether recording the track succeeds: its path is already there, or
    /// its identifier is still free.
    pub open spec fn track_saves(self, track: TrackView) -> bool {
        self.has_track_path(track.path) || !self.has_track_id(track.id)
    }

    /// Recording a track: nothing happens where the path is already there or
    /// where the identifier is taken; otherwise the row is inserted.
    pub open spec fn save_track(self, track: TrackView) -> StoreView {
        if self.has_track_path(track.path) || self.has_track_id(track.id) {
            self
        } else {
            self.execute(StatementView::InsertTrack(track))
        }
    }

    /// Whether every cue file of the sequence can be recorded, one after the
    /// other.
    pub open spec fn cue_files_save(self, cue_files: Seq<CueFileView>) -> bool
        decreases cue_files.len(),
    {
        if cue_files.len() == 0 {
            true
        } else {
            self.cue_file_saves(cue_files[0].row()) && self.save_cue_file(
                cue_files[0].row(),
            ).cue_files_save(cue_files.skip(1))
        }
    }

    /// Recording the cue files of the sequence one after the other, up to the
    /// first that cannot be recorded.
    pub open spec fn save_cue_files(self, cue_files: Seq<CueFileView>) -> StoreView
        decreases cue_files.len(),
    {
        if cue_files.len() == 0 || !self.cue_file_saves(cue_files[0].row()) {
            self
        } else {
            self.save_cue_file(cue_files[0].row()).save_cue_files(cue_files.skip(1))
        }
    }

    /// Whether saving the download succeeds.
    pub open spec fn download_saves(self, download: DownloadView) -> bool {
        self.save_download_row(download.row()).cue_files_save(download.cue_files)
    }

    /// Saving a download: its own row is upserted, then each cue file
    /// attached to it is recorded.
    pub open spec fn save_download(self, download: DownloadView) -> StoreView {
        self.save_download_row(download.row()).save_cue_files(download.cue_files)
    }

    /// Cascading delete of a download: its tracks, then its cue files, then
    /// its own row.
    pub open spec fn delete_download(self, download_id: Seq<char>) -> StoreView {
        self.execute(StatementView::DeleteTracksOfDownload(download_id)).execute(
            StatementView::DeleteCueFilesOfDownload(download_id),
        ).execute(StatementView::DeleteDownload(download_id))
    }

    /// Cascading delete of a cue file: its tracks, then its own row.
    pub open spec fn delete_cue_file(self, id: u128) -> StoreView {
        self.execute(StatementView::DeleteTracksOfCueFile(id)).execute(
            StatementView::DeleteCueFile(id),
        )
    }

    /// Delete of one track.
    pub open spec fn delete_track(self, id: u128) -> StoreView {
        self.execute(StatementView::DeleteTrack(id))
    }
}

} // verus!
