//! The decisions of one reconciliation cycle, as mathematics.

use vstd::prelude::*;
use crate::lidarr::RecordView;
use crate::store::model::{CueFileView, DownloadView, StoreView};
use crate::store::rows::TrackView;

verus! {

/// Whether the remote queue still lists the download.
pub open spec fn listed(download_id: Seq<char>, records: Seq<RecordView>) -> bool {
    exists|i: int| 0 <= i < records.len() && (#[trigger] records[i]).download_id == download_id
}

/// Whether a download with this key is among the given ones.
pub open spec fn among(download_id: Seq<char>, downloads: Seq<DownloadView>) -> bool {
    exists|i: int|
        0 <= i < downloads.len() && (#[trigger] downloads[i]).download_id == download_id
}

/// The known downloads that the remote queue no longer lists.
pub open spec fn to_delete(known: Seq<DownloadView>, records: Seq<RecordView>) -> Seq<
    DownloadView,
> {
    known.filter(|d: DownloadView| !listed(d.download_id, records))
}

/// The known downloads that are still listed and were split completely.
pub open spec fn processed(known: Seq<DownloadView>, records: Seq<RecordView>) -> Seq<
    DownloadView,
> {
    known.filter(|d: DownloadView| listed(d.download_id, records)).filter(
        |d: DownloadView| d.split_complete,
    )
}

/// The known downloads that are still listed and still have to be split.
pub open spec fn pending(known: Seq<DownloadView>, records: Seq<RecordView>) -> Seq<
    DownloadView,
> {
    known.filter(|d: DownloadView| listed(d.download_id, records)).filter(
        |d: DownloadView| !d.split_complete,
    )
}

/// The records that belong to no processed download.
pub open spec fn unprocessed(records: Seq<RecordView>, done: Seq<DownloadView>) -> Seq<
    RecordView,
> {
    records.filter(|r: RecordView| !among(r.download_id, done))
}

/// Whether the record reports a download that completed and whose import
/// failed.
pub open spec fn import_failed(record: RecordView) -> bool {
    record.status == "completed"@ && record.tracked_download_state == "importFailed"@
}

/// Whether the record starts a new download: it reports a failed import and
/// no download of the queue has its key.
pub open spec fn admitted(record: RecordView, queue: Seq<DownloadView>) -> bool {
    import_failed(record) && !among(record.download_id, queue)
}

/// The download that a record starts.
pub open spec fn new_download(record: RecordView) -> DownloadView {
    DownloadView {
        download_id: record.download_id,
        title: record.title,
        status: record.status,
        output_path: record.output_path.unwrap(),
        tracked_download_state: record.tracked_download_state,
        cue_files: Seq::empty(),
        split_complete: false,
    }
}

/// The state while records are taken into the queue of work.
pub struct Intake {
    /// The downloads that have to be split, in order.
    pub queue: Seq<DownloadView>,
    /// The store, with every new download saved.
    pub store: StoreView,
    /// Whether an admitted record without an output path stopped the intake.
    pub stopped: bool,
}

/// Takes the records in, one after the other: each admitted record becomes a
/// new download that is saved and appended to the queue. The first admitted
/// record that has no output path stops the intake.
pub open spec fn intake(queue: Seq<DownloadView>, store: StoreView, records: Seq<RecordView>) -> Intake
    decreases records.len(),
{
    if records.len() == 0 {
        Intake { queue, store, stopped: false }
    } else if !admitted(records[0], queue) {
        intake(queue, store, records.skip(1))
    } else if records[0].output_path is None {
        Intake { queue, store, stopped: true }
    } else {
        intake(
            queue.push(new_download(records[0])),
            store.save_download(new_download(records[0])),
            records.skip(1),
        )
    }
}

/// The outcome of a cycle's decisions on a store and a queue snapshot.
pub open spec fn reconciled(store: StoreView, records: Seq<RecordView>) -> Intake {
    intake(
        pending(store.all(), records),
        store,
        unprocessed(records, processed(store.all(), records)),
    )
}

/// Whether a directory entry is a cue sheet: a regular file whose name ends
/// in `cue`.
pub open spec fn cue_sheet_name(is_file: bool, file_name: Seq<char>) -> bool {
    is_file && file_name.len() >= 3 && file_name.subrange(file_name.len() - 3, file_name.len() as int)
        == seq!['c', 'u', 'e']
}

/// The download as it is saved once its directory was walked.
pub open spec fn finished(download: DownloadView) -> DownloadView {
    DownloadView { split_complete: true, ..download }
}

/// The paths of all tracks under the cue files, cue file by cue file.
pub open spec fn track_paths(cue_files: Seq<CueFileView>) -> Seq<Seq<char>>
    decreases cue_files.len(),
{
    if cue_files.len() == 0 {
        Seq::empty()
    } else {
        track_paths(cue_files.drop_last()) + cue_files.last().tracks.map_values(
            |t: TrackView| t.path,
        )
    }
}

/// The store after each of the tracks was deleted, one after the other.
pub open spec fn tracks_deleted(store: StoreView, tracks: Seq<TrackView>) -> StoreView
    decreases tracks.len(),
{
    if tracks.len() == 0 {
        store
    } else {
        tracks_deleted(store.delete_track(tracks[0].id), tracks.skip(1))
    }
}

/// The store after each of the cue files was deleted, one after the other:
/// first its tracks, then the cue file itself.
pub open spec fn cue_files_deleted(store: StoreView, cue_files: Seq<CueFileView>) -> StoreView
    decreases cue_files.len(),
{
    if cue_files.len() == 0 {
        store
    } else {
        cue_files_deleted(
            tracks_deleted(store, cue_files[0].tracks).delete_cue_file(cue_files[0].id),
            cue_files.skip(1),
        )
    }
}

/// The store after a download was cleaned up: its tracks and cue files one by
/// one, then the cascading delete of the download.
pub open spec fn cleaned_up(store: StoreView, download: DownloadView) -> StoreView {
    cue_files_deleted(store, download.cue_files).delete_download(download.download_id)
}

} // verus!
