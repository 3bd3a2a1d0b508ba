//! The executable store: the three tables held in memory, and the journal of
//! the writes made to them.

use vstd::prelude::*;
use crate::store::error::StoreError;
use crate::store::model::{
    cue_file_key,
    cue_file_path,
    download_key,
    track_key,
    track_path,
    StatementView,
    StoreView,
};
use crate::store::rows::{
    CueFileRow,
    CueFileRowView,
    DownloadRow,
    DownloadRowView,
    Track,
    TrackView,
};
use crate::store::scan::{
    cue_file_ids_distinct,
    cue_file_paths_distinct,
    cue_files_without,
    cue_files_without_download,
    downloads_distinct,
    downloads_updated,
    downloads_without,
    track_ids_distinct,
    track_paths_distinct,
    tracks_without,
    tracks_without_cue_file,
    tracks_without_download,
};
use crate::store::seqs::{distinct_by, views};

verus! {

/// One durable write. The holder of the backing database carries each one out
/// in the order of the journal.
#[derive(Debug)]
pub enum Statement {
    /// Add a row to the downloads table.
    InsertDownload(DownloadRow),
    /// Set title, status, tracked download state and completion flag of the
    /// row with the same `download_id`.
    UpdateDownload(DownloadRow),
    /// Add a row to the cue files table.
    InsertCueFile(CueFileRow),
    /// Add a row to the tracks table.
    InsertTrack(Track),
    /// Remove every track that belongs to the download.
    DeleteTracksOfDownload(String),
    /// Remove every cue file that belongs to the download.
    DeleteCueFilesOfDownload(String),
    /// Remove the download's own row.
    DeleteDownload(String),
    /// Remove every track that belongs to the cue file.
    DeleteTracksOfCueFile(u128),
    /// Remove the cue file's own row.
    DeleteCueFile(u128),
    /// Remove one track.
    DeleteTrack(u128),
}

impl View for Statement {
    type V = StatementView;

    open spec fn view(&self) -> StatementView {
        match self {
            Statement::InsertDownload(row) => StatementView::InsertDownload(row@),
            Statement::UpdateDownload(row) => StatementView::UpdateDownload(row@),
            Statement::InsertCueFile(row) => StatementView::InsertCueFile(row@),
            Statement::InsertTrack(row) => StatementView::InsertTrack(row@),
            Statement::DeleteTracksOfDownload(id) => StatementView::DeleteTracksOfDownload(id@),
            Statement::DeleteCueFilesOfDownload(id) => StatementView::DeleteCueFilesOfDownload(id@),
            Statement::DeleteDownload(id) => StatementView::DeleteDownload(id@),
            Statement::DeleteTracksOfCueFile(id) => StatementView::DeleteTracksOfCueFile(*id),
            Statement::DeleteCueFile(id) => StatementView::DeleteCueFile(*id),
            Statement::DeleteTrack(id) => StatementView::DeleteTrack(*id),
        }
    }
}

impl Statement {
    /// An independent copy of the statement.
    pub fn duplicate(&self) -> (stmt: Statement)
        ensures
            stmt@ == self@,
    {
        match self {
            Statement::InsertDownload(row) => Statement::InsertDownload(row.duplicate()),
            Statement::UpdateDownload(row) => Statement::UpdateDownload(row.duplicate()),
            Statement::InsertCueFile(row) => Statement::InsertCueFile(row.duplicate()),
            Statement::InsertTrack(row) => Statement::InsertTrack(row.duplicate()),
            Statement::DeleteTracksOfDownload(id) => Statement::DeleteTracksOfDownload(id.clone()),
            Statement::DeleteCueFilesOfDownload(id) => Statement::DeleteCueFilesOfDownload(
                id.clone(),
            ),
            Statement::DeleteDownload(id) => Statement::DeleteDownload(id.clone()),
            Statement::DeleteTracksOfCueFile(id) => Statement::DeleteTracksOfCueFile(*id),
            Statement::DeleteCueFile(id) => Statement::DeleteCueFile(*id),
            Statement::DeleteTrack(id) => Statement::DeleteTrack(*id),
        }
    }
}

/// The store: downloads, cue files and tracks, each table in insertion order.
#[derive(Debug)]
pub struct Store {
    downloads: Vec<DownloadRow>,
    cue_files: Vec<CueFileRow>,
    tracks: Vec<Track>,
    journal: Vec<Statement>,
}

impl View for Store {
    type V = StoreView;

    closed spec fn view(&self) -> StoreView {
        StoreView {
            downloads: views(self.downloads@),
            cue_files: views(self.cue_files@),
            tracks: views(self.tracks@),
            journal: views(self.journal@),
        }
    }
}

/// The error that a set of rows is refused with, if any: downloads are
/// looked at first, then cue files, then tracks.
pub open spec fn rows_refused(
    downloads: Seq<DownloadRowView>,
    cue_files: Seq<CueFileRowView>,
    tracks: Seq<TrackView>,
) -> Option<StoreError> {
    if !distinct_by(downloads, download_key()) {
        Some(StoreError::DuplicateDownload)
    } else if !distinct_by(cue_files, cue_file_key()) || !distinct_by(cue_files, cue_file_path()) {
        Some(StoreError::DuplicateCueFile)
    } else if !distinct_by(tracks, track_key()) || !distinct_by(tracks, track_path()) {
        Some(StoreError::DuplicateTrack)
    } else {
        None
    }
}

impl Store {
    /// A store without rows and with an empty journal.
    pub fn new() -> (store: Store)
        ensures
            store@ == StoreView::empty(),
            store@.wf(),
    {
        let store = Store {
            downloads: Vec::new(),
            cue_files: Vec::new(),
            tracks: Vec::new(),
            journal: Vec::new(),
        };
        assert(store@.downloads =~= Seq::empty());
        assert(store@.cue_files =~= Seq::empty());
        assert(store@.tracks =~= Seq::empty());
        assert(store@.journal =~= Seq::empty());
        store
    }

    /// The store that holds the given rows, as they were read from the
    /// backing database, with an empty journal. Rows in which a key or a
    /// path occurs twice are refused.
    pub fn from_rows(downloads: Vec<DownloadRow>, cue_files: Vec<CueFileRow>, tracks: Vec<Track>) -> (res:
        Result<Store, StoreError>)
        ensures
            match res {
                Ok(store) => rows_refused(views(downloads@), views(cue_files@), views(tracks@))
                    is None && store@.wf() && store@ == (StoreView {
                    downloads: views(downloads@),
                    cue_files: views(cue_files@),
                    tracks: views(tracks@),
                    journal: Seq::empty(),
                }),
                Err(e) => rows_refused(views(downloads@), views(cue_files@), views(tracks@))
                    == Some(e),
            },
    {
        if !downloads_distinct(&downloads) {
            return Err(StoreError::DuplicateDownload);
        }
        if !cue_file_ids_distinct(&cue_files) || !cue_file_paths_distinct(&cue_files) {
            return Err(StoreError::DuplicateCueFile);
        }
        if !track_ids_distinct(&tracks) || !track_paths_distinct(&tracks) {
            return Err(StoreError::DuplicateTrack);
        }
        let store = Store { downloads, cue_files, tracks, journal: Vec::new() };
        assert(views(store.journal@) =~= Seq::empty());
        Ok(store)
    }

    /// The downloads table, in insertion order.
    pub fn downloads(&self) -> (rows: &Vec<DownloadRow>)
        ensures
            views(rows@) == self@.downloads,
    {
        &self.downloads
    }

    /// The cue files table, in insertion order.
    pub fn cue_files(&self) -> (rows: &Vec<CueFileRow>)
        ensures
            views(rows@) == self@.cue_files,
    {
        &self.cue_files
    }

    /// The tracks table, in insertion order.
    pub fn tracks(&self) -> (rows: &Vec<Track>)
        ensures
            views(rows@) == self@.tracks,
    {
        &self.tracks
    }

    /// The writes made since the journal was last taken, oldest first.
    pub fn journal(&self) -> (stmts: &Vec<Statement>)
        ensures
            views(stmts@) == self@.journal,
    {
        &self.journal
    }

    /// Hands out the journal and leaves an empty one; the tables stay as they
    /// are.
    pub fn take_journal(&mut self) -> (stmts: Vec<Statement>)
        ensures
            views(stmts@) == old(self)@.journal,
            final(self)@ == (StoreView { journal: Seq::empty(), ..old(self)@ }),
    {
        let mut stmts: Vec<Statement> = Vec::new();
        std::mem::swap(&mut self.journal, &mut stmts);
        assert(views(self.journal@) =~= Seq::empty());
        stmts
    }

    /// Whether the downloads table holds a row with this key.
    pub fn has_download(&self, download_id: &String) -> (found: bool)
        ensures
            found == self@.has_download(download_id@),
    {
        let mut i: usize = 0;
        while i < self.downloads.len()
            invariant
                i <= self.downloads.len(),
                forall|k: int| 0 <= k < i ==> (#[trigger] self@.downloads[k]).download_id
                    != download_id@,
            decreases self.downloads.len() - i,
        {
            if self.downloads[i].download_id == *download_id {
                assert(self@.downloads[i as int].download_id == download_id@);
                return true;
            }
            i += 1;
        }
        false
    }

    /// Whether a cue file was recorded at this path.
    pub fn has_cue_path(&self, path: &String) -> (found: bool)
        ensures
            found == self@.has_cue_path(path@),
    {
        let mut i: usize = 0;
        while i < self.cue_files.len()
            invariant
                i <= self.cue_files.len(),
                forall|k: int| 0 <= k < i ==> (#[trigger] self@.cue_files[k]).path != path@,
            decreases self.cue_files.len() - i,
        {
            if self.cue_files[i].path == *path {
                assert(self@.cue_files[i as int].path == path@);
                return true;
            }
            i += 1;
        }
        false
    }

    /// Whether a cue file row has this identifier.
    pub fn has_cue_id(&self, id: u128) -> (found: bool)
        ensures
            found == self@.has_cue_id(id),
    {
        let mut i: usize = 0;
        while i < self.cue_files.len()
            invariant
                i <= self.cue_files.len(),
                forall|k: int| 0 <= k < i ==> (#[trigger] self@.cue_files[k]).id != id,
            decreases self.cue_files.len() - i,
        {
            if self.cue_files[i].id == id {
                assert(self@.cue_files[i as int].id == id);
                return true;
            }
            i += 1;
        }
        false
    }

    /// Whether a track was recorded at this path.
    pub fn has_track_path(&self, path: &String) -> (found: bool)
        ensures
            found == self@.has_track_path(path@),
    {
        let mut i: usize = 0;
        while i < self.tracks.len()
            invariant
                i <= self.tracks.len(),
                forall|k: int| 0 <= k < i ==> (#[trigger] self@.tracks[k]).path != path@,
            decreases self.tracks.len() - i,
        {
            if self.tracks[i].path == *path {
                assert(self@.tracks[i as int].path == path@);
                return true;
            }
            i += 1;
        }
        false
    }

    /// Whether a track row has this identifier.
    pub fn has_track_id(&self, id: u128) -> (found: bool)
        ensures
            found == self@.has_track_id(id),
    {
        let mut i: usize = 0;
        while i < self.tracks.len()
            invariant
                i <= self.tracks.len(),
                forall|k: int| 0 <= k < i ==> (#[trigger] self@.tracks[k]).id != id,
            decreases self.tracks.len() - i,
        {
            if self.tracks[i].id == id {
                assert(self@.tracks[i as int].id == id);
                return true;
            }
            i += 1;
        }
        false
    }

    /// Carries out one write on the tables and enters it in the journal.
    pub(crate) fn execute(&mut self, stmt: Statement)
        ensures
            final(self)@ == old(self)@.execute(stmt@),
    {
        let entry = stmt.duplicate();
        match stmt {
            Statement::InsertDownload(row) => {
                self.downloads.push(row);
                assert(views(self.downloads@) =~= views(old(self).downloads@).push(row@));
            },
            Statement::UpdateDownload(row) => {
                self.downloads = downloads_updated(&self.downloads, &row);
            },
            Statement::InsertCueFile(row) => {
                self.cue_files.push(row);
                assert(views(self.cue_files@) =~= views(old(self).cue_files@).push(row@));
            },
            Statement::InsertTrack(row) => {
                self.tracks.push(row);
                assert(views(self.tracks@) =~= views(old(self).tracks@).push(row@));
            },
            Statement::DeleteTracksOfDownload(id) => {
                self.tracks = tracks_without_download(&self.tracks, &id);
            },
            Statement::DeleteCueFilesOfDownload(id) => {
                self.cue_files = cue_files_without_download(&self.cue_files, &id);
            },
            Statement::DeleteDownload(id) => {
                self.downloads = downloads_without(&self.downloads, &id);
            },
            Statement::DeleteTracksOfCueFile(id) => {
                self.tracks = tracks_without_cue_file(&self.tracks, id);
            },
            Statement::DeleteCueFile(id) => {
                self.cue_files = cue_files_without(&self.cue_files, id);
            },
            Statement::DeleteTrack(id) => {
                self.tracks = tracks_without(&self.tracks, id);
            },
        }
        self.journal.push(entry);
        assert(views(self.journal@) =~= views(old(self).journal@).push(entry@));
    }
}

} // verus!
