//! What holds of the store's operations, whatever the store and the values.

use vstd::prelude::*;
use crate::store::model::{
    completion_kept,
    cue_file_key,
    cue_file_path,
    download_key,
    track_key,
    track_path,
    CueFileView,
    DownloadView,
    StatementView,
    StoreView,
};
use crate::store::rows::{CueFileRowView, DownloadRowView, TrackView};
use crate::store::seqs::{distinct_by, lemma_filter_distinct, lemma_filter_members};

verus! {

/// A delete leaves keys and paths distinct.
pub proof fn lemma_delete_keeps_wf(s: StoreView, stmt: StatementView)
    requires
        s.wf(),
        stmt is DeleteTracksOfDownload || stmt is DeleteCueFilesOfDownload
            || stmt is DeleteDownload || stmt is DeleteTracksOfCueFile || stmt is DeleteCueFile
            || stmt is DeleteTrack,
    ensures
        s.execute(stmt).wf(),
{
    match stmt {
        StatementView::DeleteTracksOfDownload(id) => {
            let pred = |t: TrackView| t.download_id != id;
            lemma_filter_distinct(s.tracks, pred, track_key());
            lemma_filter_distinct(s.tracks, pred, track_path());
        },
        StatementView::DeleteCueFilesOfDownload(id) => {
            let pred = |c: CueFileRowView| c.download_id != id;
            lemma_filter_distinct(s.cue_files, pred, cue_file_key());
            lemma_filter_distinct(s.cue_files, pred, cue_file_path());
        },
        StatementView::DeleteDownload(id) => {
            let pred = |d: DownloadRowView| d.download_id != id;
            lemma_filter_distinct(s.downloads, pred, download_key());
        },
        StatementView::DeleteTracksOfCueFile(id) => {
            let pred = |t: TrackView| t.cue_file_id != id;
            lemma_filter_distinct(s.tracks, pred, track_key());
            lemma_filter_distinct(s.tracks, pred, track_path());
        },
        StatementView::DeleteCueFile(id) => {
            let pred = |c: CueFileRowView| c.id != id;
            lemma_filter_distinct(s.cue_files, pred, cue_file_key());
            lemma_filter_distinct(s.cue_files, pred, cue_file_path());
        },
        StatementView::DeleteTrack(id) => {
            let pred = |t: TrackView| t.id != id;
            lemma_filter_distinct(s.tracks, pred, track_key());
            lemma_filter_distinct(s.tracks, pred, track_path());
        },
        _ => {},
    }
}

/// Upserting a download's row leaves keys and paths distinct, and the row's
/// key present.
pub proof fn lemma_save_download_row_keeps_wf(s: StoreView, row: DownloadRowView)
    requires
        s.wf(),
    ensures
        s.save_download_row(row).wf(),
        s.save_download_row(row).has_download(row.download_id),
        s.save_download_row(row).cue_files == s.cue_files,
        s.save_download_row(row).tracks == s.tracks,
{
    let after = s.save_download_row(row);
    if s.has_download(row.download_id) {
        let k = choose|k: int|
            0 <= k < s.downloads.len() && (#[trigger] s.downloads[k]).download_id
                == row.download_id;
        assert(after.downloads[k].download_id == row.download_id);
        assert forall|i: int, j: int| 0 <= i < j < after.downloads.len() implies download_key()(
            #[trigger] after.downloads[i],
        ) != download_key()(#[trigger] after.downloads[j]) by {
            assert(after.downloads[i].download_id == s.downloads[i].download_id);
            assert(after.downloads[j].download_id == s.downloads[j].download_id);
            assert(download_key()(s.downloads[i]) != download_key()(s.downloads[j]));
        }
    } else {
        assert(after.downloads[s.downloads.len() as int].download_id == row.download_id);
        assert forall|i: int, j: int| 0 <= i < j < after.downloads.len() implies download_key()(
            #[trigger] after.downloads[i],
        ) != download_key()(#[trigger] after.downloads[j]) by {
            if j < s.downloads.len() {
                assert(download_key()(s.downloads[i]) != download_key()(s.downloads[j]));
            } else {
                assert(s.downloads[i].download_id != row.download_id);
            }
        }
    }
}

/// Recording a cue file leaves keys and paths distinct and touches neither
/// the downloads nor the tracks.
pub proof fn lemma_save_cue_file_keeps_wf(s: StoreView, row: CueFileRowView)
    requires
        s.wf(),
    ensures
        s.save_cue_file(row).wf(),
        s.save_cue_file(row).downloads == s.downloads,
        s.save_cue_file(row).tracks == s.tracks,
{
    let after = s.save_cue_file(row);
    if !(s.has_cue_path(row.path) || s.has_cue_id(row.id)) {
        assert forall|i: int, j: int| 0 <= i < j < after.cue_files.len() implies cue_file_key()(
            #[trigger] after.cue_files[i],
        ) != cue_file_key()(#[trigger] after.cue_files[j]) by {
            if j < s.cue_files.len() {
                assert(cue_file_key()(s.cue_files[i]) != cue_file_key()(s.cue_files[j]));
            } else {
                assert(s.cue_files[i].id != row.id);
            }
        }
        assert forall|i: int, j: int| 0 <= i < j < after.cue_files.len() implies cue_file_path()(
            #[trigger] after.cue_files[i],
        ) != cue_file_path()(#[trigger] after.cue_files[j]) by {
            if j < s.cue_files.len() {
                assert(cue_file_path()(s.cue_files[i]) != cue_file_path()(s.cue_files[j]));
            } else {
                assert(s.cue_files[i].path != row.path);
            }
        }
    }
}

/// Recording a track leaves keys and paths distinct and touches neither the
/// downloads nor the cue files.
pub proof fn lemma_save_track_keeps_wf(s: StoreView, track: TrackView)
    requires
        s.wf(),
    ensures
        s.save_track(track).wf(),
        s.save_track(track).downloads == s.downloads,
        s.save_track(track).cue_files == s.cue_files,
{
    let after = s.save_track(track);
    if !(s.has_track_path(track.path) || s.has_track_id(track.id)) {
        assert forall|i: int, j: int| 0 <= i < j < after.tracks.len() implies track_key()(
            #[trigger] after.tracks[i],
        ) != track_key()(#[trigger] after.tracks[j]) by {
            if j < s.tracks.len() {
                assert(track_key()(s.tracks[i]) != track_key()(s.tracks[j]));
            } else {
                assert(s.tracks[i].id != track.id);
            }
        }
        assert forall|i: int, j: int| 0 <= i < j < after.tracks.len() implies track_path()(
            #[trigger] after.tracks[i],
        ) != track_path()(#[trigger] after.tracks[j]) by {
            if j < s.tracks.len() {
                assert(track_path()(s.tracks[i]) != track_path()(s.tracks[j]));
            } else {
                assert(s.tracks[i].path != track.path);
            }
        }
    }
}

/// Recording a sequence of cue files leaves keys and paths distinct and
/// touches neither the downloads nor the tracks.
pub proof fn lemma_save_cue_files_keeps_wf(s: StoreView, cue_files: Seq<CueFileView>)
    requires
        s.wf(),
    ensures
        s.save_cue_files(cue_files).wf(),
        s.save_cue_files(cue_files).downloads == s.downloads,
        s.save_cue_files(cue_files).tracks == s.tracks,
    decreases cue_files.len(),
{
    if cue_files.len() > 0 && s.cue_file_saves(cue_files[0].row()) {
        lemma_save_cue_file_keeps_wf(s, cue_files[0].row());
        lemma_save_cue_files_keeps_wf(s.save_cue_file(cue_files[0].row()), cue_files.skip(1));
    }
}

/// Saving a download leaves keys and paths distinct, and its key present.
pub proof fn lemma_save_download_keeps_wf(s: StoreView, download: DownloadView)
    requires
        s.wf(),
    ensures
        s.save_download(download).wf(),
        s.save_download(download).has_download(download.download_id),
        s.save_download(download).tracks == s.tracks,
{
    lemma_save_download_row_keeps_wf(s, download.row());
    lemma_save_cue_files_keeps_wf(s.save_download_row(download.row()), download.cue_files);
}

/// Idempotent save: a second save under the same `download_id`, with the
/// same or with other values in the remaining fields, adds no row to the
/// downloads table, and no two rows of it share a `download_id`.
pub proof fn lemma_save_twice_one_row(s: StoreView, first: DownloadView, second: DownloadView)
    requires
        s.wf(),
        first.download_id == second.download_id,
    ensures
        s.save_download(first).save_download(second).downloads.len() == s.save_download(
            first,
        ).downloads.len(),
        distinct_by(s.save_download(first).save_download(second).downloads, download_key()),
        s.save_download(first).save_download(second).has_download(first.download_id),
{
    let once = s.save_download(first);
    lemma_save_download_keeps_wf(s, first);
    lemma_save_download_keeps_wf(once, second);
    lemma_save_cue_files_keeps_wf(once.save_download_row(second.row()), second.cue_files);
}

/// Idempotent cue file insert: recording a cue file at a path that is
/// already present changes nothing.
pub proof fn lemma_cue_file_at_known_path(s: StoreView, row: CueFileRowView)
    requires
        s.has_cue_path(row.path),
    ensures
        s.save_cue_file(row) == s,
        s.cue_file_saves(row),
{
}

/// Idempotent cue file insert: once a cue file was recorded at a path,
/// recording any cue file at that path changes nothing.
pub proof fn lemma_cue_file_twice(s: StoreView, first: CueFileRowView, second: CueFileRowView)
    requires
        s.cue_file_saves(first),
        first.path == second.path,
    ensures
        s.save_cue_file(first).save_cue_file(second) == s.save_cue_file(first),
        s.save_cue_file(first).cue_files.len() <= s.cue_files.len() + 1,
{
    let once = s.save_cue_file(first);
    if !s.has_cue_path(first.path) {
        assert(once.cue_files[s.cue_files.len() as int].path == first.path);
    }
    assert(once.has_cue_path(second.path));
}

/// Idempotent track insert: recording a track at a path that is already
/// present changes nothing.
pub proof fn lemma_track_at_known_path(s: StoreView, track: TrackView)
    requires
        s.has_track_path(track.path),
    ensures
        s.save_track(track) == s,
        s.track_saves(track),
{
}

/// Idempotent track insert: once a track was recorded at a path, recording
/// any track at that path changes nothing.
pub proof fn lemma_track_twice(s: StoreView, first: TrackView, second: TrackView)
    requires
        s.track_saves(first),
        first.path == second.path,
    ensures
        s.save_track(first).save_track(second) == s.save_track(first),
        s.save_track(first).tracks.len() <= s.tracks.len() + 1,
{
    let once = s.save_track(first);
    if !s.has_track_path(first.path) {
        assert(once.tracks[s.tracks.len() as int].path == first.path);
    }
    assert(once.has_track_path(second.path));
}

/// Cascading delete: after a download was deleted, no download, cue file or
/// track row refers to its `download_id`, rows of other downloads are all
/// still there, and keys and paths stay distinct.
pub proof fn lemma_delete_download_cascades(s: StoreView, download_id: Seq<char>)
    ensures
        !s.delete_download(download_id).has_download(download_id),
        forall|i: int|
            0 <= i < s.delete_download(download_id).cue_files.len() ==> (
            #[trigger] s.delete_download(download_id).cue_files[i]).download_id != download_id,
        forall|i: int|
            0 <= i < s.delete_download(download_id).tracks.len() ==> (#[trigger] s.delete_download(
                download_id,
            ).tracks[i]).download_id != download_id,
        forall|d: DownloadRowView|
            d.download_id != download_id ==> (s.delete_download(download_id).downloads.contains(d)
                <==> s.downloads.contains(d)),
        forall|c: CueFileRowView|
            c.download_id != download_id ==> (s.delete_download(download_id).cue_files.contains(c)
                <==> s.cue_files.contains(c)),
        forall|t: TrackView|
            t.download_id != download_id ==> (s.delete_download(download_id).tracks.contains(t)
                <==> s.tracks.contains(t)),
        s.wf() ==> s.delete_download(download_id).wf(),
{
    let after = s.delete_download(download_id);
    let keep_d = |d: DownloadRowView| d.download_id != download_id;
    let keep_c = |c: CueFileRowView| c.download_id != download_id;
    let keep_t = |t: TrackView| t.download_id != download_id;
    assert(after.downloads == s.downloads.filter(keep_d));
    assert(after.cue_files == s.cue_files.filter(keep_c));
    assert(after.tracks == s.tracks.filter(keep_t));
    lemma_filter_members(s.downloads, keep_d);
    lemma_filter_members(s.cue_files, keep_c);
    lemma_filter_members(s.tracks, keep_t);
    assert forall|i: int| 0 <= i < after.downloads.len() implies (
    #[trigger] after.downloads[i]).download_id != download_id by {
        assert(after.downloads.contains(after.downloads[i]));
    }
    assert forall|i: int| 0 <= i < after.cue_files.len() implies (
    #[trigger] after.cue_files[i]).download_id != download_id by {
        assert(after.cue_files.contains(after.cue_files[i]));
    }
    assert forall|i: int| 0 <= i < after.tracks.len() implies (
    #[trigger] after.tracks[i]).download_id != download_id by {
        assert(after.tracks.contains(after.tracks[i]));
    }
    if s.wf() {
        let s1 = s.execute(StatementView::DeleteTracksOfDownload(download_id));
        lemma_delete_keeps_wf(s, StatementView::DeleteTracksOfDownload(download_id));
        let s2 = s1.execute(StatementView::DeleteCueFilesOfDownload(download_id));
        lemma_delete_keeps_wf(s1, StatementView::DeleteCueFilesOfDownload(download_id));
        lemma_delete_keeps_wf(s2, StatementView::DeleteDownload(download_id));
    }
}

/// Completion is kept by a store that does not change its downloads.
pub proof fn lemma_same_downloads_keep_completion(before: StoreView, after: StoreView)
    requires
        before.wf(),
        after.downloads == before.downloads,
    ensures
        completion_kept(before, after),
{
    assert forall|i: int, j: int|
        0 <= i < before.downloads.len() && 0 <= j < after.downloads.len() && (
        #[trigger] before.downloads[i]).download_id == (#[trigger] after.downloads[j]).download_id
            && before.downloads[i].split_complete implies after.downloads[j].split_complete by {
        if i < j {
            assert(download_key()(before.downloads[i]) != download_key()(before.downloads[j]));
        } else if j < i {
            assert(download_key()(before.downloads[j]) != download_key()(before.downloads[i]));
        }
    }
}

/// Completion is kept by a store that only drops download rows.
pub proof fn lemma_fewer_downloads_keep_completion(
    before: StoreView,
    after: StoreView,
    pred: spec_fn(DownloadRowView) -> bool,
)
    requires
        before.wf(),
        after.downloads == before.downloads.filter(pred),
    ensures
        completion_kept(before, after),
{
    lemma_filter_members(before.downloads, pred);
    assert forall|i: int, j: int|
        0 <= i < before.downloads.len() && 0 <= j < after.downloads.len() && (
        #[trigger] before.downloads[i]).download_id == (#[trigger] after.downloads[j]).download_id
            && before.downloads[i].split_complete implies after.downloads[j].split_complete by {
        assert(after.downloads.contains(after.downloads[j]));
        assert(before.downloads.contains(after.downloads[j]));
        let m = choose|m: int|
            0 <= m < before.downloads.len() && before.downloads[m] == after.downloads[j];
        if i < m {
            assert(download_key()(before.downloads[i]) != download_key()(before.downloads[m]));
        } else if m < i {
            assert(download_key()(before.downloads[m]) != download_key()(before.downloads[i]));
        }
    }
}

/// Completion is kept by every delete.
pub proof fn lemma_delete_keeps_completion(s: StoreView, stmt: StatementView)
    requires
        s.wf(),
        stmt is DeleteTracksOfDownload || stmt is DeleteCueFilesOfDownload
            || stmt is DeleteDownload || stmt is DeleteTracksOfCueFile || stmt is DeleteCueFile
            || stmt is DeleteTrack,
    ensures
        completion_kept(s, s.execute(stmt)),
{
    let after = s.execute(stmt);
    match stmt {
        StatementView::DeleteDownload(id) => {
            lemma_fewer_downloads_keep_completion(
                s,
                after,
                |d: DownloadRowView| d.download_id != id,
            );
        },
        _ => {
            lemma_same_downloads_keep_completion(s, after);
        },
    }
}

/// Monotonic completion under saves: a save keeps completion unless it
/// writes an incomplete download over a row that is marked complete.
pub proof fn lemma_save_keeps_completion(s: StoreView, download: DownloadView)
    requires
        s.wf(),
        download.split_complete || !s.completed(download.download_id),
    ensures
        completion_kept(s, s.save_download(download)),
{
    let row = download.row();
    let mid = s.save_download_row(row);
    let after = s.save_download(download);
    lemma_save_download_row_keeps_wf(s, row);
    lemma_save_cue_files_keeps_wf(mid, download.cue_files);
    assert(after.downloads == mid.downloads);
    assert forall|i: int, j: int|
        0 <= i < s.downloads.len() && 0 <= j < after.downloads.len() && (
        #[trigger] s.downloads[i]).download_id == (#[trigger] after.downloads[j]).download_id
            && s.downloads[i].split_complete implies after.downloads[j].split_complete by {
        if s.has_download(row.download_id) {
            if i < j {
                assert(download_key()(s.downloads[i]) != download_key()(s.downloads[j]));
            } else if j < i {
                assert(download_key()(s.downloads[j]) != download_key()(s.downloads[i]));
            }
        } else {
            if j < s.downloads.len() {
                if i < j {
                    assert(download_key()(s.downloads[i]) != download_key()(s.downloads[j]));
                } else if j < i {
                    assert(download_key()(s.downloads[j]) != download_key()(s.downloads[i]));
                }
            }
        }
    }
}

/// Completion is kept by a store that only adds download rows.
pub proof fn lemma_more_downloads_keep_completion(before: StoreView, after: StoreView)
    requires
        after.wf(),
        before.downloads.len() <= after.downloads.len(),
        after.downloads.take(before.downloads.len() as int) == before.downloads,
    ensures
        completion_kept(before, after),
{
    let n = before.downloads.len() as int;
    assert forall|i: int, j: int|
        0 <= i < before.downloads.len() && 0 <= j < after.downloads.len() && (
        #[trigger] before.downloads[i]).download_id == (#[trigger] after.downloads[j]).download_id
            && before.downloads[i].split_complete implies after.downloads[j].split_complete by {
        assert(after.downloads.take(n)[i] == after.downloads[i]);
        if i < j {
            assert(download_key()(after.downloads[i]) != download_key()(after.downloads[j]));
        } else if j < i {
            assert(download_key()(after.downloads[j]) != download_key()(after.downloads[i]));
        }
    }
}

/// What was recorded is read back: a cue file that was inserted comes last
/// among the cue files of its download, with its tracks, and the cue files
/// of other downloads are as before.
pub proof fn lemma_cue_file_is_read_back(s: StoreView, row: CueFileRowView)
    requires
        !s.has_cue_path(row.path),
        !s.has_cue_id(row.id),
    ensures
        s.save_cue_file(row).cue_files_of(row.download_id) == s.cue_files_of(row.download_id).push(
            s.cue_file(row),
        ),
        forall|other: Seq<char>|
            other != row.download_id ==> #[trigger] s.save_cue_file(row).cue_files_of(other)
                == s.cue_files_of(other),
{
    reveal(Seq::filter);
    let after = s.save_cue_file(row);
    assert(after.cue_files.drop_last() =~= s.cue_files);
    assert(after.tracks == s.tracks);
    let whole_after = |c: CueFileRowView| after.cue_file(c);
    let whole = |c: CueFileRowView| s.cue_file(c);
    assert forall|c: CueFileRowView| #[trigger] whole_after(c) == whole(c) by {}
    assert forall|other: Seq<char>| true implies #[trigger] after.cue_files_of(other) == if other
        == row.download_id {
        s.cue_files_of(other).push(s.cue_file(row))
    } else {
        s.cue_files_of(other)
    } by {
        let pred = |c: CueFileRowView| c.download_id == other;
        let kept = s.cue_files.filter(pred);
        if other == row.download_id {
            assert(after.cue_files.filter(pred) == kept.push(row));
            assert(kept.push(row).map_values(whole_after) =~= kept.map_values(whole).push(
                s.cue_file(row),
            ));
        } else {
            assert(after.cue_files.filter(pred) == kept);
            assert(kept.map_values(whole_after) =~= kept.map_values(whole));
        }
    }
}

/// What was recorded is read back: a track that was inserted comes last
/// among the tracks of its cue file, and the tracks of other cue files are
/// as before.
pub proof fn lemma_track_is_read_back(s: StoreView, track: TrackView)
    requires
        !s.has_track_path(track.path),
        !s.has_track_id(track.id),
    ensures
        s.save_track(track).tracks_of(track.cue_file_id) == s.tracks_of(track.cue_file_id).push(
            track,
        ),
        forall|other: u128|
            other != track.cue_file_id ==> #[trigger] s.save_track(track).tracks_of(other)
                == s.tracks_of(other),
{
    reveal(Seq::filter);
    let after = s.save_track(track);
    assert(after.tracks.drop_last() =~= s.tracks);
    assert forall|other: u128| true implies #[trigger] after.tracks_of(other) == if other
        == track.cue_file_id {
        s.tracks_of(other).push(track)
    } else {
        s.tracks_of(other)
    } by {
        let pred = |t: TrackView| t.cue_file_id == other;
        assert(after.tracks.filter(pred) == if pred(track) {
            s.tracks.filter(pred).push(track)
        } else {
            s.tracks.filter(pred)
        });
    }
}

/// Once a download was deleted, reading the downloads back gives none with
/// its `download_id`.
pub proof fn lemma_deleted_download_is_not_read_back(s: StoreView, download_id: Seq<char>)
    ensures
        forall|i: int|
            0 <= i < s.delete_download(download_id).all().len() ==> (#[trigger] s.delete_download(
                download_id,
            ).all()[i]).download_id != download_id,
{
    let after = s.delete_download(download_id);
    lemma_delete_download_cascades(s, download_id);
    assert forall|i: int| 0 <= i < after.all().len() implies (#[trigger] after.all()[i]).download_id
        != download_id by {
        assert(after.all()[i].download_id == after.downloads[i].download_id);
    }
}

/// A save drops no download row: a key that had a row still has one, and
/// the key of the saved download has one.
pub proof fn lemma_save_download_keeps_rows(s: StoreView, download: DownloadView)
    ensures
        s.save_download(download).has_download(download.download_id),
        forall|id: Seq<char>| s.has_download(id) ==> #[trigger] s.save_download(
            download,
        ).has_download(id),
{
    let row = download.row();
    let mid = s.save_download_row(row);
    let after = s.save_download(download);
    assert(after.downloads == mid.downloads) by {
        lemma_cue_files_leave_downloads(mid, download.cue_files);
    }
    if s.has_download(row.download_id) {
        let k = choose|k: int|
            0 <= k < s.downloads.len() && (#[trigger] s.downloads[k]).download_id
                == row.download_id;
        assert(mid.downloads[k].download_id == row.download_id);
    } else {
        assert(mid.downloads[s.downloads.len() as int].download_id == row.download_id);
    }
    assert forall|id: Seq<char>| s.has_download(id) implies #[trigger] after.has_download(id) by {
        let k = choose|k: int|
            0 <= k < s.downloads.len() && (#[trigger] s.downloads[k]).download_id == id;
        assert(mid.downloads[k].download_id == id);
    }
}

/// Recording cue files leaves the downloads and the tracks alone.
pub proof fn lemma_cue_files_leave_downloads(s: StoreView, cue_files: Seq<CueFileView>)
    ensures
        s.save_cue_files(cue_files).downloads == s.downloads,
        s.save_cue_files(cue_files).tracks == s.tracks,
    decreases cue_files.len(),
{
    if cue_files.len() > 0 && s.cue_file_saves(cue_files[0].row()) {
        lemma_cue_files_leave_downloads(s.save_cue_file(cue_files[0].row()), cue_files.skip(1));
    }
}

} // verus!
