//! The steps that follow a cycle's decisions: recognising cue sheets, closing
//! a download after its walk, and cleaning up a download that left the queue.

use vstd::prelude::*;
use vstd::string::StrSliceExecFns;
use crate::engine::laws::{lemma_cleaned_up, lemma_journaled_cleaned_up};
use crate::engine::model::{
    cleaned_up,
    cue_files_deleted,
    cue_sheet_name,
    finished,
    track_paths,
    tracks_deleted,
};
use crate::store::entities::Download;
use crate::store::error::StoreError;
use crate::store::model::{completion_kept, journaled, DownloadView};
use crate::store::rows::{Track, TrackView};
use crate::store::seqs::views;
use crate::store::table::Store;

verus! {

/// Whether a directory entry is a cue sheet: a regular file whose name ends
/// in `cue`.
pub fn is_cue_sheet(is_file: bool, file_name: &str) -> (cue: bool)
    ensures
        cue == cue_sheet_name(is_file, file_name@),
{
    if !is_file {
        return false;
    }
    let n = file_name.unicode_len();
    if n < 3 {
        return false;
    }
    let matches = file_name.get_char(n - 3) == 'c' && file_name.get_char(n - 2) == 'u'
        && file_name.get_char(n - 1) == 'e';
    proof {
        let tail = file_name@.subrange(n - 3, n as int);
        if matches {
            assert(tail =~= seq!['c', 'u', 'e']);
        } else {
            assert(tail[0] == file_name@[n - 3] && tail[1] == file_name@[n - 2] && tail[2]
                == file_name@[n - 1]);
        }
    }
    matches
}

/// Marks the download as split completely and saves it. To be called once
/// the walk of its output directory is over, however many cue sheets were
/// found.
pub fn finish(download: &mut Download, store: &mut Store) -> (res: Result<(), StoreError>)
    ensures
        final(download)@ == finished(old(download)@),
        final(store)@ == old(store)@.save_download(finished(old(download)@)),
        res is Ok <==> old(store)@.download_saves(finished(old(download)@)),
        res is Err ==> res == Err::<(), StoreError>(StoreError::DuplicateCueFile),
        old(store)@.wf() ==> final(store)@.wf() && completion_kept(old(store)@, final(store)@),
        journaled(old(store)@, final(store)@),
{
    download.split_complete = true;
    download.save(store)
}

/// The paths of the track files that were split from the download's cue
/// sheets, cue file by cue file. These are the files to remove when the
/// download is cleaned up.
pub fn track_files(download: &Download) -> (paths: Vec<String>)
    ensures
        views(paths@) == track_paths(download@.cue_files),
{
    let ghost cues = download@.cue_files;
    let mut paths: Vec<String> = Vec::new();
    let mut i: usize = 0;
    assert(views(paths@) =~= track_paths(cues.take(0)));
    while i < download.cue_files.len()
        invariant
            i <= download.cue_files.len(),
            cues == views(download.cue_files@),
            views(paths@) == track_paths(cues.take(i as int)),
        decreases download.cue_files.len() - i,
    {
        let cue_file = &download.cue_files[i];
        let ghost head = views(paths@);
        let ghost tail = cue_file@.tracks.map_values(|t: TrackView| t.path);
        let mut j: usize = 0;
        while j < cue_file.tracks.len()
            invariant
                j <= cue_file.tracks.len(),
                tail == cue_file@.tracks.map_values(|t: TrackView| t.path),
                views(paths@) == head + tail.take(j as int),
            decreases cue_file.tracks.len() - j,
        {
            let path = cue_file.tracks[j].path.clone();
            let ghost before = paths@;
            paths.push(path);
            assert(views(paths@) =~= views(before).push(path@));
            assert(tail.take(j as int + 1) =~= tail.take(j as int).push(path@));
            j += 1;
        }
        proof {
            assert(tail.take(tail.len() as int) =~= tail);
            assert(cues.take(i as int + 1).drop_last() =~= cues.take(i as int));
            assert(cues.take(i as int + 1).last() == cue_file@);
        }
        i += 1;
    }
    assert(cues.take(cues.len() as int) =~= cues);
    paths
}

/// Deletes the rows of each track, one after the other.
fn delete_tracks(tracks: &Vec<Track>, store: &mut Store)
    ensures
        final(store)@ == tracks_deleted(old(store)@, views(tracks@)),
{
    let ghost all = views(tracks@);
    let mut i: usize = 0;
    assert(all.skip(0) =~= all);
    while i < tracks.len()
        invariant
            i <= tracks.len(),
            all == views(tracks@),
            tracks_deleted(old(store)@, all) == tracks_deleted(store@, all.skip(i as int)),
        decreases tracks.len() - i,
    {
        assert(all.skip(i as int)[0] == tracks[i as int]@);
        assert(all.skip(i as int).skip(1) =~= all.skip(i as int + 1));
        tracks[i].delete(store);
        i += 1;
    }
    assert(all.skip(i as int).len() == 0);
}

/// Removes everything that the store holds of a download that left the
/// remote queue: its tracks and cue files one by one, then the download
/// with what may be left under its key. The cue file list held in memory is
/// emptied.
pub fn clean_up(download: &mut Download, store: &mut Store)
    ensures
        final(store)@ == cleaned_up(old(store)@, old(download)@),
        final(download)@ == (DownloadView { cue_files: Seq::empty(), ..old(download)@ }),
        !final(store)@.has_download(old(download)@.download_id),
        forall|i: int|
            0 <= i < final(store)@.cue_files.len() ==> (
            #[trigger] final(store)@.cue_files[i]).download_id != old(download)@.download_id,
        forall|i: int|
            0 <= i < final(store)@.tracks.len() ==> (#[trigger] final(store)@.tracks[i]).download_id
                != old(download)@.download_id,
        old(store)@.wf() ==> final(store)@.wf() && completion_kept(old(store)@, final(store)@),
        journaled(old(store)@, final(store)@),
{
    proof {
        lemma_journaled_cleaned_up(store@, download@);
        lemma_cleaned_up(store@, download@);
    }
    let ghost all = download@.cue_files;
    let mut i: usize = 0;
    assert(all.skip(0) =~= all);
    while i < download.cue_files.len()
        invariant
            i <= download.cue_files.len(),
            download@.row() == old(download)@.row(),
            all.len() == download.cue_files.len(),
            all.skip(i as int) == views(download.cue_files@).skip(i as int),
            cue_files_deleted(old(store)@, all) == cue_files_deleted(store@, all.skip(i as int)),
        decreases download.cue_files.len() - i,
    {
        let ghost before = views(download.cue_files@);
        assert(all.skip(i as int)[0] == before.skip(i as int)[0]);
        assert(all.skip(i as int).skip(1) =~= all.skip(i as int + 1));
        assert(before.skip(i as int).skip(1) =~= before.skip(i as int + 1));
        let cue_file = &mut download.cue_files[i];
        delete_tracks(&cue_file.tracks, store);
        cue_file.delete(store);
        assert(views(download.cue_files@).skip(i as int + 1) =~= before.skip(i as int + 1));
        i += 1;
    }
    assert(all.skip(i as int).len() == 0);
    download.delete(store);
}

} // verus!
