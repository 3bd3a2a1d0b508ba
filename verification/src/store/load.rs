//! Reading the hierarchy back from the tables.

use vstd::prelude::*;
use crate::store::entities::{CueFile, Download};
use crate::store::rows::{CueFileRowView, Track, TrackView};
use crate::store::seqs::{lemma_filter_step, views};
use crate::store::table::Store;

verus! {

impl Track {
    /// The tracks recorded under a cue file, in table order.
    pub fn find(store: &Store, cue_file_id: u128) -> (tracks: Vec<Track>)
        ensures
            views(tracks@) == store@.tracks_of(cue_file_id),
    {
        let rows = store.tracks();
        let ghost pred = |t: TrackView| t.cue_file_id == cue_file_id;
        let mut tracks: Vec<Track> = Vec::new();
        let mut i: usize = 0;
        assert(views(rows@).take(0).filter(pred) =~= views(tracks@)) by {
            reveal(Seq::filter);
        }
        while i < rows.len()
            invariant
                i <= rows.len(),
                pred == |t: TrackView| t.cue_file_id == cue_file_id,
                views(tracks@) == views(rows@).take(i as int).filter(pred),
            decreases rows.len() - i,
        {
            proof {
                lemma_filter_step(views(rows@), pred, i as int);
            }
            if rows[i].cue_file_id == cue_file_id {
                let track = rows[i].duplicate();
                let ghost before = tracks@;
                tracks.push(track);
                assert(views(tracks@) =~= views(before).push(track@));
            }
            i += 1;
        }
        assert(views(rows@).take(rows.len() as int) =~= views(rows@));
        tracks
    }
}

impl CueFile {
    /// The cue files recorded under a download, in table order, each with
    /// its tracks.
    pub fn find(store: &Store, download_id: &String) -> (cue_files: Vec<CueFile>)
        ensures
            views(cue_files@) == store@.cue_files_of(download_id@),
    {
        let rows = store.cue_files();
        let ghost pred = |c: CueFileRowView| c.download_id == download_id@;
        let ghost whole = |c: CueFileRowView| store@.cue_file(c);
        let mut cue_files: Vec<CueFile> = Vec::new();
        let mut i: usize = 0;
        assert(views(rows@).take(0).filter(pred).map_values(whole) =~= views(cue_files@)) by {
            reveal(Seq::filter);
        }
        while i < rows.len()
            invariant
                i <= rows.len(),
                views(rows@) == store@.cue_files,
                pred == |c: CueFileRowView| c.download_id == download_id@,
                whole == |c: CueFileRowView| store@.cue_file(c),
                views(cue_files@) == views(rows@).take(i as int).filter(pred).map_values(whole),
            decreases rows.len() - i,
        {
            proof {
                lemma_filter_step(views(rows@), pred, i as int);
            }
            if rows[i].download_id == *download_id {
                let cue_file = CueFile {
                    id: rows[i].id,
                    download_id: rows[i].download_id.clone(),
                    path: rows[i].path.clone(),
                    tracks: Track::find(store, rows[i].id),
                };
                let ghost before = cue_files@;
                cue_files.push(cue_file);
                assert(cue_file@ == whole(rows[i as int]@));
                assert(views(cue_files@) =~= views(before).push(cue_file@));
                assert(views(rows@).take(i as int + 1).filter(pred).map_values(whole) =~= views(
                    rows@,
                ).take(i as int).filter(pred).map_values(whole).push(whole(rows[i as int]@)));
            }
            i += 1;
        }
        assert(views(rows@).take(rows.len() as int) =~= views(rows@));
        cue_files
    }
}

impl Download {
    /// Every download in table order, each with its cue files and their
    /// tracks.
    pub fn all(store: &Store) -> (downloads: Vec<Download>)
        ensures
            views(downloads@) == store@.all(),
    {
        let rows = store.downloads();
        let mut downloads: Vec<Download> = Vec::new();
        let mut i: usize = 0;
        while i < rows.len()
            invariant
                i <= rows.len(),
                views(rows@) == store@.downloads,
                downloads.len() == i,
                forall|k: int| 0 <= k < i ==> (#[trigger] downloads[k])@ == store@.download(rows[k]@),
            decreases rows.len() - i,
        {
            let download = Download {
                download_id: rows[i].download_id.clone(),
                title: rows[i].title.clone(),
                status: rows[i].status.clone(),
                output_path: rows[i].output_path.clone(),
                tracked_download_state: rows[i].tracked_download_state.clone(),
                cue_files: CueFile::find(store, &rows[i].download_id),
                split_complete: rows[i].split_complete,
            };
            downloads.push(download);
            i += 1;
        }
        assert(views(downloads@) =~= store@.all());
        downloads
    }
}

} // verus!
