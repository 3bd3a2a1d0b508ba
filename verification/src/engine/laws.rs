//! What holds of a cycle's decisions, whatever the store and the queue.

use vstd::prelude::*;
use crate::engine::model::{
    admitted,
    among,
    import_failed,
    cleaned_up,
    cue_files_deleted,
    intake,
    listed,
    new_download,
    pending,
    processed,
    reconciled,
    to_delete,
    tracks_deleted,
    unprocessed,
};
use crate::lidarr::RecordView;
use crate::store::journal::{
    lemma_journaled_chain,
    lemma_journaled_delete_cue_file,
    lemma_journaled_delete_download,
    lemma_journaled_execute,
    lemma_journaled_same,
    lemma_journaled_save_download,
};
use crate::store::laws::{
    lemma_delete_download_cascades,
    lemma_delete_keeps_wf,
    lemma_fewer_downloads_keep_completion,
    lemma_more_downloads_keep_completion,
    lemma_save_download_keeps_rows,
    lemma_save_download_keeps_wf,
};
use crate::store::model::{
    completion_kept,
    download_key,
    journaled,
    CueFileView,
    DownloadView,
    StatementView,
    StoreView,
};
use crate::store::rows::{DownloadRowView, TrackView};
use crate::store::seqs::{lemma_filter_members, lemma_filter_splits};

verus! {

/// Whether exactly one of three statements holds.
pub open spec fn exactly_one(a: bool, b: bool, c: bool) -> bool {
    (a && !b && !c) || (!a && b && !c) || (!a && !b && c)
}

/// Partition completeness: whatever the queue snapshot and the known
/// downloads, each known download is put in exactly one of the three
/// classes: to delete, processed, or still to be split. Nothing is dropped
/// and nothing is counted twice.
pub proof fn lemma_partition_complete(known: Seq<DownloadView>, records: Seq<RecordView>)
    ensures
        known.to_multiset() =~= to_delete(known, records).to_multiset().add(
            processed(known, records).to_multiset(),
        ).add(pending(known, records).to_multiset()),
        known.len() == to_delete(known, records).len() + processed(known, records).len() + pending(
            known,
            records,
        ).len(),
        forall|d: DownloadView| #[trigger]
            known.contains(d) ==> exactly_one(
                to_delete(known, records).contains(d),
                processed(known, records).contains(d),
                pending(known, records).contains(d),
            ),
        forall|d: DownloadView|
            (to_delete(known, records).contains(d) || processed(known, records).contains(d)
                || pending(known, records).contains(d)) ==> #[trigger] known.contains(d),
{
    let inside = |d: DownloadView| listed(d.download_id, records);
    let outside = |d: DownloadView| !listed(d.download_id, records);
    let complete = |d: DownloadView| d.split_complete;
    let open = |d: DownloadView| !d.split_complete;
    let still = known.filter(inside);
    assert(to_delete(known, records) == known.filter(outside));
    assert(processed(known, records) == still.filter(complete));
    assert(pending(known, records) == still.filter(open));
    lemma_filter_splits(known, inside, outside);
    lemma_filter_splits(still, complete, open);
    lemma_filter_members(known, inside);
    lemma_filter_members(known, outside);
    lemma_filter_members(still, complete);
    lemma_filter_members(still, open);
}

/// Whether every download row whose key one of the records names is in the
/// queue of work already.
pub open spec fn listed_rows_queued(
    store: StoreView,
    records: Seq<RecordView>,
    queue: Seq<DownloadView>,
) -> bool {
    forall|i: int|
        0 <= i < store.downloads.len() && listed(
            (#[trigger] store.downloads[i]).download_id,
            records,
        ) ==> among(store.downloads[i].download_id, queue)
}

/// Taking records in only adds download rows: the rows that were there stay
/// as they are, before the new ones, and cue files and tracks are not
/// touched.
pub proof fn lemma_intake_extends(
    queue: Seq<DownloadView>,
    store: StoreView,
    records: Seq<RecordView>,
)
    requires
        store.wf(),
        listed_rows_queued(store, records, queue),
    ensures
        intake(queue, store, records).store.wf(),
        store.downloads.len() <= intake(queue, store, records).store.downloads.len(),
        intake(queue, store, records).store.downloads.take(store.downloads.len() as int)
            == store.downloads,
        intake(queue, store, records).store.cue_files == store.cue_files,
        intake(queue, store, records).store.tracks == store.tracks,
        queue.len() <= intake(queue, store, records).queue.len(),
        intake(queue, store, records).queue.take(queue.len() as int) == queue,
        forall|i: int|
            queue.len() <= i < intake(queue, store, records).queue.len() ==> !store.has_download(
                (#[trigger] intake(queue, store, records).queue[i]).download_id,
            ),
    decreases records.len(),
{
    let n = store.downloads.len() as int;
    if records.len() == 0 {
        assert(store.downloads.take(n) =~= store.downloads);
        assert(queue.take(queue.len() as int) =~= queue);
    } else {
        let rest = records.skip(1);
        assert forall|id: Seq<char>| listed(id, rest) implies listed(id, records) by {
            let k = choose|k: int| 0 <= k < rest.len() && (#[trigger] rest[k]).download_id == id;
            assert(records[k + 1].download_id == id);
        }
        if !admitted(records[0], queue) {
            lemma_intake_extends(queue, store, rest);
        } else if records[0].output_path is None {
            assert(store.downloads.take(n) =~= store.downloads);
            assert(queue.take(queue.len() as int) =~= queue);
        } else {
            let fresh = new_download(records[0]);
            let longer = queue.push(fresh);
            let saved = store.save_download(fresh);
            assert(listed(fresh.download_id, records));
            assert(!store.has_download(fresh.download_id)) by {
                if store.has_download(fresh.download_id) {
                    let k = choose|k: int|
                        0 <= k < store.downloads.len() && (
                        #[trigger] store.downloads[k]).download_id == fresh.download_id;
                    assert(among(store.downloads[k].download_id, queue));
                }
            }
            lemma_save_download_keeps_wf(store, fresh);
            assert(saved.downloads =~= store.downloads.push(fresh.row()));
            assert(saved.cue_files == store.cue_files);
            assert(listed_rows_queued(saved, rest, longer)) by {
                assert forall|i: int|
                    0 <= i < saved.downloads.len() && listed(
                        (#[trigger] saved.downloads[i]).download_id,
                        rest,
                    ) implies among(saved.downloads[i].download_id, longer) by {
                    if i < n {
                        assert(saved.downloads[i] == store.downloads[i]);
                        assert(among(store.downloads[i].download_id, queue));
                        let k = choose|k: int|
                            0 <= k < queue.len() && (#[trigger] queue[k]).download_id
                                == store.downloads[i].download_id;
                        assert(longer[k].download_id == saved.downloads[i].download_id);
                    } else {
                        assert(longer[queue.len() as int].download_id == fresh.download_id);
                    }
                }
            }
            lemma_intake_extends(longer, saved, rest);
            let out = intake(queue, store, records);
            assert(out == intake(longer, saved, rest));
            assert(out.store.downloads.take(n) =~= out.store.downloads.take(n + 1).take(n));
            assert(saved.downloads.take(n) =~= store.downloads);
            assert(out.queue.take(queue.len() as int) =~= out.queue.take(longer.len() as int).take(
                queue.len() as int,
            ));
            assert(longer.take(queue.len() as int) =~= queue);
            assert forall|i: int| queue.len() <= i < out.queue.len() implies !store.has_download(
                (#[trigger] out.queue[i]).download_id,
            ) by {
                if i == queue.len() {
                    assert(out.queue.take(longer.len() as int)[i] == out.queue[i]);
                } else if store.has_download(out.queue[i].download_id) {
                    let k = choose|k: int|
                        0 <= k < store.downloads.len() && (
                        #[trigger] store.downloads[k]).download_id == out.queue[i].download_id;
                    assert(saved.downloads[k].download_id == out.queue[i].download_id);
                }
            }
        }
    }
}

/// Monotonic completion over a cycle's decisions: they only add download
/// rows, for keys that the store did not hold. Rows that were there stay as
/// they are, so a download that was marked as split completely stays marked;
/// cue files and tracks are not touched; and the downloads that were still
/// to be split come first in the queue of work.
pub proof fn lemma_reconciled_extends(store: StoreView, records: Seq<RecordView>)
    requires
        store.wf(),
    ensures
        reconciled(store, records).store.wf(),
        completion_kept(store, reconciled(store, records).store),
        store.downloads.len() <= reconciled(store, records).store.downloads.len(),
        reconciled(store, records).store.downloads.take(store.downloads.len() as int)
            == store.downloads,
        reconciled(store, records).store.cue_files == store.cue_files,
        reconciled(store, records).store.tracks == store.tracks,
        pending(store.all(), records).len() <= reconciled(store, records).queue.len(),
        reconciled(store, records).queue.take(pending(store.all(), records).len() as int)
            == pending(store.all(), records),
{
    let known = store.all();
    let queue = pending(known, records);
    let rest = unprocessed(records, processed(known, records));
    lemma_reconciled_queues_listed_rows(store, records);
    lemma_intake_extends(queue, store, rest);
    lemma_more_downloads_keep_completion(store, reconciled(store, records).store);
}

/// Deleting tracks one by one leaves keys and paths distinct and touches
/// neither the downloads nor the cue files.
pub proof fn lemma_tracks_deleted(store: StoreView, tracks: Seq<TrackView>)
    requires
        store.wf(),
    ensures
        tracks_deleted(store, tracks).wf(),
        tracks_deleted(store, tracks).downloads == store.downloads,
        tracks_deleted(store, tracks).cue_files == store.cue_files,
    decreases tracks.len(),
{
    if tracks.len() > 0 {
        lemma_delete_keeps_wf(store, StatementView::DeleteTrack(tracks[0].id));
        lemma_tracks_deleted(store.delete_track(tracks[0].id), tracks.skip(1));
    }
}

/// Deleting cue files one by one leaves keys and paths distinct and does not
/// touch the downloads.
pub proof fn lemma_cue_files_deleted(store: StoreView, cue_files: Seq<CueFileView>)
    requires
        store.wf(),
    ensures
        cue_files_deleted(store, cue_files).wf(),
        cue_files_deleted(store, cue_files).downloads == store.downloads,
    decreases cue_files.len(),
{
    if cue_files.len() > 0 {
        let id = cue_files[0].id;
        let s1 = tracks_deleted(store, cue_files[0].tracks);
        lemma_tracks_deleted(store, cue_files[0].tracks);
        let s2 = s1.execute(StatementView::DeleteTracksOfCueFile(id));
        lemma_delete_keeps_wf(s1, StatementView::DeleteTracksOfCueFile(id));
        lemma_delete_keeps_wf(s2, StatementView::DeleteCueFile(id));
        lemma_cue_files_deleted(s1.delete_cue_file(id), cue_files.skip(1));
    }
}

/// Cascading delete on clean-up: once a download was cleaned up, no
/// download, cue file or track row refers to its `download_id`; the other
/// download rows are all still there; keys and paths stay distinct and
/// completion is kept.
pub proof fn lemma_cleaned_up(store: StoreView, download: DownloadView)
    ensures
        !cleaned_up(store, download).has_download(download.download_id),
        forall|i: int|
            0 <= i < cleaned_up(store, download).cue_files.len() ==> (#[trigger] cleaned_up(
                store,
                download,
            ).cue_files[i]).download_id != download.download_id,
        forall|i: int|
            0 <= i < cleaned_up(store, download).tracks.len() ==> (#[trigger] cleaned_up(
                store,
                download,
            ).tracks[i]).download_id != download.download_id,
        store.wf() ==> cleaned_up(store, download).wf() && completion_kept(
            store,
            cleaned_up(store, download),
        ) && cleaned_up(store, download).downloads == store.downloads.filter(
            |d: DownloadRowView| d.download_id != download.download_id,
        ),
{
    let before = cue_files_deleted(store, download.cue_files);
    lemma_delete_download_cascades(before, download.download_id);
    if store.wf() {
        lemma_cue_files_deleted(store, download.cue_files);
        lemma_fewer_downloads_keep_completion(
            store,
            cleaned_up(store, download),
            |d: DownloadRowView| d.download_id != download.download_id,
        );
    }
}

/// The journal accounts for what taking records in does to the store.
pub proof fn lemma_journaled_intake(
    queue: Seq<DownloadView>,
    store: StoreView,
    records: Seq<RecordView>,
)
    ensures
        journaled(store, intake(queue, store, records).store),
    decreases records.len(),
{
    if records.len() == 0 {
        lemma_journaled_same(store);
    } else if !admitted(records[0], queue) {
        lemma_journaled_intake(queue, store, records.skip(1));
    } else if records[0].output_path is None {
        lemma_journaled_same(store);
    } else {
        let fresh = new_download(records[0]);
        let saved = store.save_download(fresh);
        lemma_journaled_save_download(store, fresh);
        lemma_journaled_intake(queue.push(fresh), saved, records.skip(1));
        lemma_journaled_chain(store, saved, intake(queue, store, records).store);
    }
}

/// The journal accounts for what a cycle's decisions do to the store.
pub proof fn lemma_journaled_reconciled(store: StoreView, records: Seq<RecordView>)
    ensures
        journaled(store, reconciled(store, records).store),
{
    lemma_journaled_intake(
        pending(store.all(), records),
        store,
        unprocessed(records, processed(store.all(), records)),
    );
}

/// The journal accounts for the deleting of tracks one by one.
pub proof fn lemma_journaled_tracks_deleted(store: StoreView, tracks: Seq<TrackView>)
    ensures
        journaled(store, tracks_deleted(store, tracks)),
    decreases tracks.len(),
{
    if tracks.len() == 0 {
        lemma_journaled_same(store);
    } else {
        let next = store.delete_track(tracks[0].id);
        lemma_journaled_execute(store, StatementView::DeleteTrack(tracks[0].id));
        lemma_journaled_tracks_deleted(next, tracks.skip(1));
        lemma_journaled_chain(store, next, tracks_deleted(store, tracks));
    }
}

/// The journal accounts for the deleting of cue files one by one.
pub proof fn lemma_journaled_cue_files_deleted(store: StoreView, cue_files: Seq<CueFileView>)
    ensures
        journaled(store, cue_files_deleted(store, cue_files)),
    decreases cue_files.len(),
{
    if cue_files.len() == 0 {
        lemma_journaled_same(store);
    } else {
        let s1 = tracks_deleted(store, cue_files[0].tracks);
        let s2 = s1.delete_cue_file(cue_files[0].id);
        lemma_journaled_tracks_deleted(store, cue_files[0].tracks);
        lemma_journaled_delete_cue_file(s1, cue_files[0].id);
        lemma_journaled_chain(store, s1, s2);
        lemma_journaled_cue_files_deleted(s2, cue_files.skip(1));
        lemma_journaled_chain(store, s2, cue_files_deleted(store, cue_files));
    }
}

/// The journal accounts for the clean-up of a download.
pub proof fn lemma_journaled_cleaned_up(store: StoreView, download: DownloadView)
    ensures
        journaled(store, cleaned_up(store, download)),
{
    let before = cue_files_deleted(store, download.cue_files);
    lemma_journaled_cue_files_deleted(store, download.cue_files);
    lemma_journaled_delete_download(before, download.download_id);
    lemma_journaled_chain(store, before, cleaned_up(store, download));
}

/// What taking records in achieves. The queue of work keeps what it held and
/// gains, at its end, new downloads only: not yet split, without cue files,
/// each with a row in the store. No download row is dropped. And unless the
/// intake stopped, every record that reports a failed import has its
/// download in the queue of work.
pub proof fn lemma_intake_complete(
    queue: Seq<DownloadView>,
    store: StoreView,
    records: Seq<RecordView>,
)
    ensures
        queue.len() <= intake(queue, store, records).queue.len(),
        intake(queue, store, records).queue.take(queue.len() as int) == queue,
        forall|id: Seq<char>|
            store.has_download(id) ==> #[trigger] intake(queue, store, records).store.has_download(
                id,
            ),
        forall|i: int|
            queue.len() <= i < intake(queue, store, records).queue.len() ==> {
                let download = #[trigger] intake(queue, store, records).queue[i];
                &&& !download.split_complete
                &&& download.cue_files.len() == 0
                &&& intake(queue, store, records).store.has_download(download.download_id)
            },
        !intake(queue, store, records).stopped ==> forall|k: int|
            0 <= k < records.len() && import_failed(#[trigger] records[k]) ==> among(
                records[k].download_id,
                intake(queue, store, records).queue,
            ),
    decreases records.len(),
{
    let out = intake(queue, store, records);
    let n = queue.len() as int;
    if records.len() == 0 {
        assert(queue.take(n) =~= queue);
    } else {
        let rest = records.skip(1);
        if !admitted(records[0], queue) {
            lemma_intake_complete(queue, store, rest);
            if !out.stopped {
                assert forall|k: int|
                    0 <= k < records.len() && import_failed(#[trigger] records[k]) implies among(
                    records[k].download_id,
                    out.queue,
                ) by {
                    if k == 0 {
                        let p = choose|p: int|
                            0 <= p < queue.len() && (#[trigger] queue[p]).download_id
                                == records[0].download_id;
                        assert(out.queue.take(n)[p] == out.queue[p]);
                    } else {
                        assert(rest[k - 1] == records[k]);
                    }
                }
            }
        } else if records[0].output_path is None {
            assert(queue.take(n) =~= queue);
        } else {
            let fresh = new_download(records[0]);
            let longer = queue.push(fresh);
            let saved = store.save_download(fresh);
            lemma_save_download_keeps_rows(store, fresh);
            lemma_intake_complete(longer, saved, rest);
            assert(out == intake(longer, saved, rest));
            assert(out.queue.take(n) =~= out.queue.take(n + 1).take(n));
            assert(longer.take(n) =~= queue);
            assert(out.queue.take(n + 1)[n] == out.queue[n]);
            assert(out.queue[n] == fresh);
            assert forall|i: int| queue.len() <= i < out.queue.len() implies {
                let download = #[trigger] out.queue[i];
                &&& !download.split_complete
                &&& download.cue_files.len() == 0
                &&& out.store.has_download(download.download_id)
            } by {
                if i == n {
                    assert(saved.has_download(fresh.download_id));
                }
            }
            if !out.stopped {
                assert forall|k: int|
                    0 <= k < records.len() && import_failed(#[trigger] records[k]) implies among(
                    records[k].download_id,
                    out.queue,
                ) by {
                    if k == 0 {
                        assert(out.queue[n].download_id == records[0].download_id);
                    } else {
                        assert(rest[k - 1] == records[k]);
                    }
                }
            }
        }
    }
}

/// No re-queueing: a download that is marked as split completely is never
/// put in the queue of work, whatever the queue snapshot says.
pub proof fn lemma_completed_not_requeued(store: StoreView, records: Seq<RecordView>)
    requires
        store.wf(),
    ensures
        forall|i: int|
            0 <= i < reconciled(store, records).queue.len() ==> !store.completed(
                (#[trigger] reconciled(store, records).queue[i]).download_id,
            ),
{
    let known = store.all();
    let waiting = pending(known, records);
    let out = reconciled(store, records);
    let inside = |d: DownloadView| listed(d.download_id, records);
    let open = |d: DownloadView| !d.split_complete;
    let still = known.filter(inside);
    lemma_filter_members(known, inside);
    lemma_filter_members(still, open);
    lemma_reconciled_extends(store, records);
    lemma_reconciled_queues_listed_rows(store, records);
    lemma_intake_extends(waiting, store, unprocessed(records, processed(known, records)));
    assert forall|i: int| 0 <= i < out.queue.len() implies !store.completed(
        (#[trigger] out.queue[i]).download_id,
    ) by {
        let id = out.queue[i].download_id;
        if store.completed(id) {
            let p = choose|p: int|
                0 <= p < store.downloads.len() && (#[trigger] store.downloads[p]).download_id == id
                    && store.downloads[p].split_complete;
            if i < waiting.len() {
                assert(out.queue.take(waiting.len() as int)[i] == out.queue[i]);
                let d = waiting[i];
                assert(waiting.contains(d));
                assert(still.contains(d) && open(d));
                assert(known.contains(d));
                let m = choose|m: int| 0 <= m < known.len() && known[m] == d;
                assert(store.downloads[m].download_id == id);
                assert(store.downloads[m].split_complete == d.split_complete);
                if m < p {
                    assert(download_key()(store.downloads[m]) != download_key()(store.downloads[p]));
                } else if p < m {
                    assert(download_key()(store.downloads[p]) != download_key()(store.downloads[m]));
                }
            } else {
                assert(store.has_download(id));
            }
        }
    }
}

/// Every download row whose key the unprocessed records name is waiting to
/// be split.
pub proof fn lemma_reconciled_queues_listed_rows(store: StoreView, records: Seq<RecordView>)
    ensures
        listed_rows_queued(
            store,
            unprocessed(records, processed(store.all(), records)),
            pending(store.all(), records),
        ),
{
    let known = store.all();
    let done = processed(known, records);
    let queue = pending(known, records);
    let rest = unprocessed(records, done);
    let inside = |d: DownloadView| listed(d.download_id, records);
    let complete = |d: DownloadView| d.split_complete;
    let open = |d: DownloadView| !d.split_complete;
    let fresh = |r: RecordView| !among(r.download_id, done);
    let still = known.filter(inside);
    lemma_filter_members(known, inside);
    lemma_filter_members(still, complete);
    lemma_filter_members(still, open);
    lemma_filter_members(records, fresh);
    assert forall|i: int|
        0 <= i < store.downloads.len() && listed(
            (#[trigger] store.downloads[i]).download_id,
            rest,
        ) implies among(store.downloads[i].download_id, queue) by {
        let id = store.downloads[i].download_id;
        let k = choose|k: int| 0 <= k < rest.len() && (#[trigger] rest[k]).download_id == id;
        assert(rest.contains(rest[k]));
        assert(records.contains(rest[k]) && fresh(rest[k]));
        let m = choose|m: int| 0 <= m < records.len() && records[m] == rest[k];
        assert(records[m].download_id == id);
        let d = known[i];
        assert(d == store.download(store.downloads[i]));
        assert(known.contains(d));
        assert(inside(d));
        assert(still.contains(d));
        if d.split_complete {
            assert(done.contains(d));
            let p = choose|p: int| 0 <= p < done.len() && done[p] == d;
            assert(done[p].download_id == id);
            assert(among(id, done));
        } else {
            assert(open(d));
            assert(queue.contains(d));
            let p = choose|p: int| 0 <= p < queue.len() && queue[p] == d;
            assert(queue[p].download_id == id);
        }
    }
}

/// Nothing is missed: unless the cycle was stopped, every record that
/// reports a failed import belongs to a download that has a row in the store
/// and is either processed already or in the queue of work.
pub proof fn lemma_reconciled_complete(store: StoreView, records: Seq<RecordView>)
    ensures
        !reconciled(store, records).stopped ==> forall|k: int|
            0 <= k < records.len() && import_failed(#[trigger] records[k]) ==> {
                &&& reconciled(store, records).store.has_download(records[k].download_id)
                &&& among(records[k].download_id, processed(store.all(), records)) || among(
                    records[k].download_id,
                    reconciled(store, records).queue,
                )
            },
{
    let known = store.all();
    let done = processed(known, records);
    let waiting = pending(known, records);
    let rest = unprocessed(records, done);
    let out = reconciled(store, records);
    let inside = |d: DownloadView| listed(d.download_id, records);
    let complete = |d: DownloadView| d.split_complete;
    let open = |d: DownloadView| !d.split_complete;
    let fresh = |r: RecordView| !among(r.download_id, done);
    let still = known.filter(inside);
    lemma_filter_members(known, inside);
    lemma_filter_members(still, complete);
    lemma_filter_members(still, open);
    lemma_filter_members(records, fresh);
    lemma_intake_complete(waiting, store, rest);
    if !out.stopped {
        assert forall|k: int|
            0 <= k < records.len() && import_failed(#[trigger] records[k]) implies {
            &&& out.store.has_download(records[k].download_id)
            &&& among(records[k].download_id, done) || among(records[k].download_id, out.queue)
        } by {
            let id = records[k].download_id;
            if among(id, done) {
                let p = choose|p: int| 0 <= p < done.len() && (#[trigger] done[p]).download_id == id;
                assert(done.contains(done[p]));
                assert(still.contains(done[p]));
                assert(known.contains(done[p]));
                let m = choose|m: int| 0 <= m < known.len() && known[m] == done[p];
                assert(store.downloads[m].download_id == id);
                assert(store.has_download(id));
            } else {
                assert(records.contains(records[k]));
                assert(fresh(records[k]));
                assert(rest.contains(records[k]));
                let q = choose|q: int| 0 <= q < rest.len() && rest[q] == records[k];
                assert(import_failed(rest[q]));
                assert(among(rest[q].download_id, out.queue));
                let j = choose|j: int|
                    0 <= j < out.queue.len() && (#[trigger] out.queue[j]).download_id == id;
                if j < waiting.len() {
                    assert(out.queue.take(waiting.len() as int)[j] == out.queue[j]);
                    assert(waiting.contains(waiting[j]));
                    assert(still.contains(waiting[j]));
                    assert(known.contains(waiting[j]));
                    let m = choose|m: int| 0 <= m < known.len() && known[m] == waiting[j];
                    assert(store.downloads[m].download_id == id);
                    assert(store.has_download(id));
                }
            }
        }
    }
}

} // verus!
