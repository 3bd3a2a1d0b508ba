//! One reconciliation cycle: which downloads are cleaned up, which are left
//! alone and which are split.

use vstd::prelude::*;
use vstd::string::StringExecFns;
use crate::engine::error::ReconcileError;
use crate::engine::laws::{
    lemma_completed_not_requeued,
    lemma_journaled_intake,
    lemma_journaled_reconciled,
    lemma_reconciled_extends,
};
use crate::engine::model::{
    among,
    import_failed,
    intake,
    listed,
    new_download,
    processed,
    reconciled,
    to_delete,
    unprocessed,
};
use crate::lidarr::{Queue, Record, RecordView};
use crate::store::entities::Download;
use crate::store::model::{completion_kept, journaled, DownloadView};
use crate::store::seqs::{lemma_filter_step, views};
use crate::store::table::Store;

verus! {

/// Whether a record of the queue snapshot has this key.
pub fn is_listed(download_id: &String, records: &Vec<Record>) -> (found: bool)
    ensures
        found == listed(download_id@, views(records@)),
{
    let mut i: usize = 0;
    while i < records.len()
        invariant
            i <= records.len(),
            forall|k: int| 0 <= k < i ==> (#[trigger] views(records@)[k]).download_id
                != download_id@,
        decreases records.len() - i,
    {
        if records[i].download_id == *download_id {
            assert(views(records@)[i as int].download_id == download_id@);
            return true;
        }
        i += 1;
    }
    false
}

/// Whether one of the downloads has this key.
pub fn is_among(download_id: &String, downloads: &Vec<Download>) -> (found: bool)
    ensures
        found == among(download_id@, views(downloads@)),
{
    let mut i: usize = 0;
    while i < downloads.len()
        invariant
            i <= downloads.len(),
            forall|k: int| 0 <= k < i ==> (#[trigger] views(downloads@)[k]).download_id
                != download_id@,
        decreases downloads.len() - i,
    {
        if downloads[i].download_id == *download_id {
            assert(views(downloads@)[i as int].download_id == download_id@);
            return true;
        }
        i += 1;
    }
    false
}

/// Splits the known downloads into those that the queue snapshot still lists
/// and those that it no longer lists, each part in the order of the input.
pub fn partition_listed(known: Vec<Download>, records: &Vec<Record>) -> (parts: (
    Vec<Download>,
    Vec<Download>,
))
    ensures
        views(parts.0@) == views(known@).filter(
            |d: DownloadView| listed(d.download_id, views(records@)),
        ),
        views(parts.1@) == views(known@).filter(
            |d: DownloadView| !listed(d.download_id, views(records@)),
        ),
{
    let ghost all = views(known@);
    let ghost inside = |d: DownloadView| listed(d.download_id, views(records@));
    let ghost outside = |d: DownloadView| !listed(d.download_id, views(records@));
    let mut kept: Vec<Download> = Vec::new();
    let mut gone: Vec<Download> = Vec::new();
    assert(all.take(0).filter(inside) =~= views(kept@) && all.take(0).filter(outside) =~= views(
        gone@,
    )) by {
        reveal(Seq::filter);
    }
    for download in it: known
        invariant
            all == views(it.seq()),
            inside == |d: DownloadView| listed(d.download_id, views(records@)),
            outside == |d: DownloadView| !listed(d.download_id, views(records@)),
            views(kept@) == all.take(it.index() as int).filter(inside),
            views(gone@) == all.take(it.index() as int).filter(outside),
    {
        proof {
            lemma_filter_step(all, inside, it.index() as int);
            lemma_filter_step(all, outside, it.index() as int);
        }
        if is_listed(&download.download_id, records) {
            let ghost before = kept@;
            kept.push(download);
            assert(views(kept@) =~= views(before).push(download@));
        } else {
            let ghost before = gone@;
            gone.push(download);
            assert(views(gone@) =~= views(before).push(download@));
        }
    }
    assert(all.take(all.len() as int) =~= all);
    (kept, gone)
}

/// Splits the listed downloads into those that were split completely and
/// those that still have to be split, each part in the order of the input.
pub fn partition_complete(listed: Vec<Download>) -> (parts: (Vec<Download>, Vec<Download>))
    ensures
        views(parts.0@) == views(listed@).filter(|d: DownloadView| d.split_complete),
        views(parts.1@) == views(listed@).filter(|d: DownloadView| !d.split_complete),
{
    let ghost all = views(listed@);
    let ghost complete = |d: DownloadView| d.split_complete;
    let ghost open = |d: DownloadView| !d.split_complete;
    let mut done: Vec<Download> = Vec::new();
    let mut waiting: Vec<Download> = Vec::new();
    assert(all.take(0).filter(complete) =~= views(done@) && all.take(0).filter(open) =~= views(
        waiting@,
    )) by {
        reveal(Seq::filter);
    }
    for download in it: listed
        invariant
            all == views(it.seq()),
            complete == |d: DownloadView| d.split_complete,
            open == |d: DownloadView| !d.split_complete,
            views(done@) == all.take(it.index() as int).filter(complete),
            views(waiting@) == all.take(it.index() as int).filter(open),
    {
        proof {
            lemma_filter_step(all, complete, it.index() as int);
            lemma_filter_step(all, open, it.index() as int);
        }
        if download.split_complete {
            let ghost before = done@;
            done.push(download);
            assert(views(done@) =~= views(before).push(download@));
        } else {
            let ghost before = waiting@;
            waiting.push(download);
            assert(views(waiting@) =~= views(before).push(download@));
        }
    }
    assert(all.take(all.len() as int) =~= all);
    (done, waiting)
}

/// The records that belong to none of the processed downloads, in the
/// order of the input.
pub fn unprocessed_records(records: Vec<Record>, done: &Vec<Download>) -> (rest: Vec<Record>)
    ensures
        views(rest@) == unprocessed(views(records@), views(done@)),
{
    let ghost all = views(records@);
    let ghost fresh = |r: RecordView| !among(r.download_id, views(done@));
    let mut rest: Vec<Record> = Vec::new();
    assert(all.take(0).filter(fresh) =~= views(rest@)) by {
        reveal(Seq::filter);
    }
    for record in it: records
        invariant
            all == views(it.seq()),
            fresh == |r: RecordView| !among(r.download_id, views(done@)),
            views(rest@) == all.take(it.index() as int).filter(fresh),
    {
        proof {
            lemma_filter_step(all, fresh, it.index() as int);
        }
        if !is_among(&record.download_id, done) {
            let ghost before = rest@;
            rest.push(record);
            assert(views(rest@) =~= views(before).push(record@));
        }
    }
    assert(all.take(all.len() as int) =~= all);
    rest
}

/// Whether the record reports a download that completed and whose import
/// failed.
pub fn is_import_failed(record: &Record) -> (failed: bool)
    ensures
        failed == import_failed(record@),
{
    let completed = String::from_str("completed");
    let import_failed = String::from_str("importFailed");
    record.status == completed && record.tracked_download_state == import_failed
}

/// Takes the records in, one after the other: each record that reports a
/// failed import and whose key is not yet in the queue of work becomes a new
/// download, which is saved and appended to the queue. The first such record
/// without an output path stops the intake with an error; what was taken in
/// before it stays.
pub fn take_in(records: Vec<Record>, queue: &mut Vec<Download>, store: &mut Store) -> (res: Result<
    (),
    ReconcileError,
>)
    ensures
        views(final(queue)@) == intake(views(old(queue)@), old(store)@, views(records@)).queue,
        final(store)@ == intake(views(old(queue)@), old(store)@, views(records@)).store,
        res is Err <==> intake(views(old(queue)@), old(store)@, views(records@)).stopped,
        res is Err ==> res == Err::<(), ReconcileError>(ReconcileError::MissingOutputPath),
        journaled(old(store)@, final(store)@),
{
    proof {
        lemma_journaled_intake(views(queue@), store@, views(records@));
    }
    let ghost all = views(records@);
    let ghost goal = intake(views(queue@), store@, all);
    assert(all.skip(0) =~= all);
    for record in it: records
        invariant
            all == views(it.seq()),
            all == views(records@),
            goal == intake(views(old(queue)@), old(store)@, all),
            journaled(old(store)@, goal.store),
            goal == intake(views(queue@), store@, all.skip(it.index() as int)),
    {
        let ghost rest = all.skip(it.index() as int);
        assert(rest[0] == record@);
        assert(rest.skip(1) =~= all.skip(it.index() as int + 1));
        if is_import_failed(&record) && !is_among(&record.download_id, queue) {
            match record.output_path {
                None => {
                    return Err(ReconcileError::MissingOutputPath);
                },
                Some(output_path) => {
                    let download = Download {
                        title: record.title,
                        status: record.status,
                        output_path,
                        download_id: record.download_id,
                        tracked_download_state: record.tracked_download_state,
                        cue_files: Vec::new(),
                        split_complete: false,
                    };
                    assert(download@ =~= new_download(record@)) by {
                        assert(views(download.cue_files@) =~= Seq::empty());
                    }
                    let _ = download.save(store);
                    let ghost before = queue@;
                    queue.push(download);
                    assert(views(queue@) =~= views(before).push(download@));
                },
            }
        }
    }
    assert(all.skip(all.len() as int).len() == 0);
    Ok(())
}

/// What one cycle decided.
#[derive(Debug)]
pub struct Cycle {
    /// Downloads that the remote queue no longer lists: their files and rows
    /// are to be removed.
    pub to_delete: Vec<Download>,
    /// Downloads that are still listed and were split before: nothing is
    /// done with them.
    pub processed: Vec<Download>,
    /// Downloads whose output directories are to be walked and split: those
    /// known and not yet complete, followed by the ones that this cycle
    /// created.
    pub process_queue: Vec<Download>,
}

/// The decisions of one cycle. The known downloads are read from the store
/// and compared with the queue snapshot; records that report a failed
/// import and belong to no known download become new downloads, saved in
/// the store. An admitted record without an output path stops the cycle
/// with an error; the downloads created before it stay saved. A download
/// that is marked as split completely is never queued for work again.
pub fn reconcile(store: &mut Store, queue: Queue) -> (res: Result<Cycle, ReconcileError>)
    ensures
        final(store)@ == reconciled(old(store)@, views(queue.records@)).store,
        res is Err <==> reconciled(old(store)@, views(queue.records@)).stopped,
        res is Err ==> res->Err_0 == ReconcileError::MissingOutputPath,
        res is Ok ==> {
            let cycle = res->Ok_0;
            &&& views(cycle.to_delete@) == to_delete(old(store)@.all(), views(queue.records@))
            &&& views(cycle.processed@) == processed(old(store)@.all(), views(queue.records@))
            &&& views(cycle.process_queue@) == reconciled(
                old(store)@,
                views(queue.records@),
            ).queue
        },
        old(store)@.wf() ==> final(store)@.wf() && completion_kept(old(store)@, final(store)@),
        old(store)@.wf() && res is Ok ==> forall|i: int|
            0 <= i < res->Ok_0.process_queue.len() ==> !old(store)@.completed(
                (#[trigger] views(res->Ok_0.process_queue@)[i]).download_id,
            ),
        journaled(old(store)@, final(store)@),
{
    proof {
        lemma_journaled_reconciled(store@, views(queue.records@));
        if store@.wf() {
            lemma_reconciled_extends(store@, views(queue.records@));
            lemma_completed_not_requeued(store@, views(queue.records@));
        }
    }
    let known = Download::all(store);
    let (in_queue, to_delete) = partition_listed(known, &queue.records);
    let (processed, mut process_queue) = partition_complete(in_queue);
    let rest = unprocessed_records(queue.records, &processed);
    match take_in(rest, &mut process_queue, store) {
        Ok(()) => Ok(Cycle { to_delete, processed, process_queue }),
        Err(e) => Err(e),
    }
}

} // verus!
