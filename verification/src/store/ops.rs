//! Idempotent saves and cascading deletes.

use vstd::prelude::*;
use crate::store::entities::{CueFile, Download};
use crate::store::error::StoreError;
use crate::store::ids::{fresh_id, ID_FORM_MASK, ID_FORM_RANDOM};
use crate::store::journal::{
    lemma_journaled_delete_cue_file,
    lemma_journaled_delete_download,
    lemma_journaled_execute,
    lemma_journaled_save_cue_file,
    lemma_journaled_save_download,
    lemma_journaled_save_track,
};
use crate::store::laws::{
    lemma_delete_download_cascades,
    lemma_delete_keeps_wf,
    lemma_save_cue_file_keeps_wf,
    lemma_save_download_keeps_wf,
    lemma_save_keeps_completion,
    lemma_save_track_keeps_wf,
};
use crate::store::model::{
    completion_kept,
    journaled,
    new_cue_file,
    new_track,
    CueFileView,
    DownloadView,
    StatementView,
};
use crate::store::rows::Track;
use crate::store::seqs::views;
use crate::store::table::{Statement, Store};

verus! {

impl Track {
    /// Records the track unless one is already recorded at its path. Fails,
    /// changing nothing, where the path is new and the identifier is taken.
    pub fn save(&self, store: &mut Store) -> (res: Result<(), StoreError>)
        ensures
            final(store)@ == old(store)@.save_track(self@),
            res is Ok <==> old(store)@.track_saves(self@),
            res is Err ==> res == Err::<(), StoreError>(StoreError::DuplicateTrack),
            old(store)@.wf() ==> final(store)@.wf(),
            journaled(old(store)@, final(store)@),
    {
        proof {
            lemma_journaled_save_track(store@, self@);
            if store@.wf() {
                lemma_save_track_keeps_wf(store@, self@);
            }
        }
        if store.has_track_path(&self.path) {
            Ok(())
        } else if store.has_track_id(self.id) {
            Err(StoreError::DuplicateTrack)
        } else {
            store.execute(Statement::InsertTrack(self.duplicate()));
            Ok(())
        }
    }

    /// Removes the track's row.
    pub fn delete(&self, store: &mut Store)
        ensures
            final(store)@ == old(store)@.delete_track(self.id),
            old(store)@.wf() ==> final(store)@.wf(),
            journaled(old(store)@, final(store)@),
    {
        proof {
            lemma_journaled_execute(store@, StatementView::DeleteTrack(self.id));
            if store@.wf() {
                lemma_delete_keeps_wf(store@, StatementView::DeleteTrack(self.id));
            }
        }
        store.execute(Statement::DeleteTrack(self.id));
    }
}

impl CueFile {
    /// Records the cue file unless one is already recorded at its path; its
    /// tracks are not written. Fails, changing nothing, where the path is new
    /// and the identifier is taken.
    pub fn save(&self, store: &mut Store) -> (res: Result<(), StoreError>)
        ensures
            final(store)@ == old(store)@.save_cue_file(self@.row()),
            res is Ok <==> old(store)@.cue_file_saves(self@.row()),
            res is Err ==> res == Err::<(), StoreError>(StoreError::DuplicateCueFile),
            old(store)@.wf() ==> final(store)@.wf(),
            journaled(old(store)@, final(store)@),
    {
        proof {
            lemma_journaled_save_cue_file(store@, self@.row());
            if store@.wf() {
                lemma_save_cue_file_keeps_wf(store@, self@.row());
            }
        }
        if store.has_cue_path(&self.path) {
            Ok(())
        } else if store.has_cue_id(self.id) {
            Err(StoreError::DuplicateCueFile)
        } else {
            store.execute(Statement::InsertCueFile(self.row()));
            Ok(())
        }
    }

    /// Removes the cue file's tracks and then its own row, and empties the
    /// track list held in memory.
    pub fn delete(&mut self, store: &mut Store)
        ensures
            final(store)@ == old(store)@.delete_cue_file(old(self).id),
            final(self).id == old(self).id,
            final(self).download_id == old(self).download_id,
            final(self).path == old(self).path,
            final(self).tracks@ == Seq::<Track>::empty(),
            old(store)@.wf() ==> final(store)@.wf(),
            journaled(old(store)@, final(store)@),
    {
        proof {
            lemma_journaled_delete_cue_file(store@, self.id);
            if store@.wf() {
                let first = StatementView::DeleteTracksOfCueFile(self.id);
                lemma_delete_keeps_wf(store@, first);
                lemma_delete_keeps_wf(store@.execute(first), StatementView::DeleteCueFile(self.id));
            }
        }
        store.execute(Statement::DeleteTracksOfCueFile(self.id));
        self.tracks = Vec::new();
        store.execute(Statement::DeleteCueFile(self.id));
    }

    /// Records a track with the given identifier under this cue file and
    /// appends it to the track list held in memory. Where a track is already
    /// recorded at the path, no row is written. Where the path is new and the
    /// identifier is taken, nothing changes and the call fails.
    pub fn add_track_with_id(&mut self, store: &mut Store, path: String, id: u128) -> (res: Result<
        (),
        StoreError,
    >)
        ensures
            final(store)@ == old(store)@.save_track(new_track(old(self)@, path@, id)),
            res is Ok <==> old(store)@.track_saves(new_track(old(self)@, path@, id)),
            res is Ok ==> final(self)@ == (CueFileView {
                tracks: old(self)@.tracks.push(new_track(old(self)@, path@, id)),
                ..old(self)@
            }),
            res is Err ==> res == Err::<(), StoreError>(StoreError::DuplicateTrack) && *final(self)
                == *old(self),
            old(store)@.wf() ==> final(store)@.wf(),
            journaled(old(store)@, final(store)@),
    {
        let track = Track {
            id,
            cue_file_id: self.id,
            download_id: self.download_id.clone(),
            path,
        };
        match track.save(store) {
            Ok(()) => {
                self.tracks.push(track);
                assert(views(self.tracks@) =~= views(old(self).tracks@).push(track@));
                Ok(())
            },
            Err(e) => Err(e),
        }
    }

    /// Records a track under this cue file with a freshly generated
    /// identifier: whatever identifier was generated, the outcome is that of
    /// [`CueFile::add_track_with_id`] with it.
    pub fn add_track(&mut self, store: &mut Store, path: String) -> (res: Result<(), StoreError>)
        ensures
            exists|id: u128|
                {
                    let track = #[trigger] new_track(old(self)@, path@, id);
                    &&& id & ID_FORM_MASK == ID_FORM_RANDOM
                    &&& final(store)@ == old(store)@.save_track(track)
                    &&& res is Ok <==> old(store)@.track_saves(track)
                    &&& res is Ok ==> final(self)@ == (CueFileView {
                        tracks: old(self)@.tracks.push(track),
                        ..old(self)@
                    })
                    &&& res is Err ==> res == Err::<(), StoreError>(StoreError::DuplicateTrack)
                        && final(self)@ == old(self)@
                },
            old(store)@.has_track_path(path@) ==> res is Ok && final(store)@ == old(store)@,
            old(store)@.wf() ==> final(store)@.wf(),
            journaled(old(store)@, final(store)@),
    {
        let id = fresh_id();
        let res = self.add_track_with_id(store, path, id);
        assert(new_track(old(self)@, path@, id).path == path@);
        res
    }
}

impl Download {
    /// Upserts the download's own row, then records each cue file attached
    /// to it, stopping at the first that cannot be recorded. However often a
    /// download is saved, the table holds one row for its key.
    pub fn save(&self, store: &mut Store) -> (res: Result<(), StoreError>)
        ensures
            final(store)@ == old(store)@.save_download(self@),
            res is Ok <==> old(store)@.download_saves(self@),
            res is Err ==> res == Err::<(), StoreError>(StoreError::DuplicateCueFile),
            old(store)@.wf() ==> final(store)@.wf() && final(store)@.has_download(
                self@.download_id,
            ),
            old(store)@.wf() && (self.split_complete || !old(store)@.completed(self@.download_id))
                ==> completion_kept(old(store)@, final(store)@),
            journaled(old(store)@, final(store)@),
    {
        proof {
            lemma_journaled_save_download(store@, self@);
            if store@.wf() {
                lemma_save_download_keeps_wf(store@, self@);
                if self.split_complete || !store@.completed(self@.download_id) {
                    lemma_save_keeps_completion(store@, self@);
                }
            }
        }
        if store.has_download(&self.download_id) {
            store.execute(Statement::UpdateDownload(self.row()));
        } else {
            store.execute(Statement::InsertDownload(self.row()));
        }
        let ghost start = store@;
        let ghost all = self@.cue_files;
        let mut i: usize = 0;
        assert(all.skip(0) =~= all);
        while i < self.cue_files.len()
            invariant
                i <= self.cue_files.len(),
                all == views(self.cue_files@),
                all == self@.cue_files,
                start == old(store)@.save_download_row(self@.row()),
                journaled(old(store)@, old(store)@.save_download(self@)),
                old(store)@.wf() ==> old(store)@.save_download(self@).wf() && old(
                    store,
                )@.save_download(self@).has_download(self@.download_id),
                old(store)@.wf() && (self.split_complete || !old(store)@.completed(
                    self@.download_id,
                )) ==> completion_kept(old(store)@, old(store)@.save_download(self@)),
                start.cue_files_save(all) == store@.cue_files_save(all.skip(i as int)),
                start.save_cue_files(all) == store@.save_cue_files(all.skip(i as int)),
            decreases self.cue_files.len() - i,
        {
            let ghost before = store@;
            assert(all.skip(i as int)[0] == self.cue_files[i as int]@);
            assert(all.skip(i as int).skip(1) =~= all.skip(i as int + 1));
            match self.cue_files[i].save(store) {
                Ok(()) => {},
                Err(e) => {
                    assert(!before.cue_files_save(all.skip(i as int)));
                    assert(before.save_cue_files(all.skip(i as int)) == before);
                    return Err(e);
                },
            }
            i += 1;
        }
        assert(all.skip(i as int).len() == 0);
        Ok(())
    }

    /// Removes the download's tracks, then its cue files, then its own row,
    /// and empties the cue file list held in memory. Afterwards no row of
    /// any table refers to the download.
    pub fn delete(&mut self, store: &mut Store)
        ensures
            final(store)@ == old(store)@.delete_download(old(self)@.download_id),
            final(self)@ == (DownloadView { cue_files: Seq::empty(), ..old(self)@ }),
            !final(store)@.has_download(old(self)@.download_id),
            forall|i: int|
                0 <= i < final(store)@.cue_files.len() ==> (
                #[trigger] final(store)@.cue_files[i]).download_id != old(self)@.download_id,
            forall|i: int|
                0 <= i < final(store)@.tracks.len() ==> (
                #[trigger] final(store)@.tracks[i]).download_id != old(self)@.download_id,
            old(store)@.wf() ==> final(store)@.wf(),
            journaled(old(store)@, final(store)@),
    {
        proof {
            lemma_journaled_delete_download(store@, self@.download_id);
            lemma_delete_download_cascades(store@, self@.download_id);
        }
        store.execute(Statement::DeleteTracksOfDownload(self.download_id.clone()));
        store.execute(Statement::DeleteCueFilesOfDownload(self.download_id.clone()));
        self.cue_files = Vec::new();
        store.execute(Statement::DeleteDownload(self.download_id.clone()));
        assert(views(self.cue_files@) =~= Seq::empty());
    }

    /// Records a cue file with the given identifier under this download,
    /// appends it to the cue file list held in memory and hands it out.
    /// Where a cue file is already recorded at the path, no row is written.
    /// Where the path is new and the identifier is taken, nothing changes
    /// and the call fails.
    pub fn add_cue_file_with_id(&mut self, store: &mut Store, path: String, id: u128) -> (res:
        Result<&mut CueFile, StoreError>)
        ensures
            final(store)@ == old(store)@.save_cue_file(
                new_cue_file(old(self)@.download_id, path@, id).row(),
            ),
            res is Ok <==> old(store)@.cue_file_saves(
                new_cue_file(old(self)@.download_id, path@, id).row(),
            ),
            match res {
                Ok(cue_file) => (*cue_file)@ == new_cue_file(old(self)@.download_id, path@, id)
                    && final(self)@ == (DownloadView {
                    cue_files: old(self)@.cue_files.push((*final(cue_file))@),
                    ..old(self)@
                }),
                Err(e) => e == StoreError::DuplicateCueFile && final(self)@ == old(self)@,
            },
            old(store)@.wf() ==> final(store)@.wf(),
            journaled(old(store)@, final(store)@),
    {
        let cue_file = CueFile { id, download_id: self.download_id.clone(), path, tracks: Vec::new() };
        assert(views(cue_file.tracks@) =~= Seq::empty());
        match cue_file.save(store) {
            Ok(()) => {
                let ghost before = self.cue_files@;
                self.cue_files.push(cue_file);
                let last = self.cue_files.len() - 1;
                let handle = &mut self.cue_files[last];
                proof {
                    assert(after_borrow(self.cue_files)@ =~= before.push(*final(handle)));
                    assert(views(after_borrow(self.cue_files)@) =~= views(before).push(
                        (*final(handle))@,
                    ));
                }
                Ok(handle)
            },
            Err(e) => Err(e),
        }
    }

    /// Records a cue file under this download with a freshly generated
    /// identifier: whatever identifier was generated, the outcome is that of
    /// [`Download::add_cue_file_with_id`] with it.
    pub fn add_cue_file(&mut self, store: &mut Store, path: String) -> (res: Result<
        &mut CueFile,
        StoreError,
    >)
        ensures
            exists|id: u128|
                {
                    let cue = #[trigger] new_cue_file(old(self)@.download_id, path@, id);
                    &&& id & ID_FORM_MASK == ID_FORM_RANDOM
                    &&& final(store)@ == old(store)@.save_cue_file(cue.row())
                    &&& res is Ok <==> old(store)@.cue_file_saves(cue.row())
                    &&& match res {
                        Ok(cue_file) => (*cue_file)@ == cue && final(self)@ == (DownloadView {
                            cue_files: old(self)@.cue_files.push((*final(cue_file))@),
                            ..old(self)@
                        }),
                        Err(e) => e == StoreError::DuplicateCueFile && final(self)@ == old(self)@,
                    }
                },
            old(store)@.has_cue_path(path@) ==> res is Ok && final(store)@ == old(store)@,
            old(store)@.wf() ==> final(store)@.wf(),
            journaled(old(store)@, final(store)@),
    {
        let id = fresh_id();
        let res = self.add_cue_file_with_id(store, path, id);
        assert(new_cue_file(old(self)@.download_id, path@, id).row().path == path@);
        res
    }
}

} // verus!
