//! Splitting one cue sheet: the cue file is recorded, the splitter's
//! invocation is worked out, and what the splitter reports is recorded as
//! tracks.

use vstd::prelude::*;
use crate::settings::Settings;
use crate::shnsplit::command::{splitter_arguments, CueEntry, SplitCommand};
use crate::shnsplit::diagnostics::{output_files, reported};
use crate::shnsplit::files::{first_occurrences, CueSheet};
use crate::shnsplit::model::{
    lemma_journaled_recorded,
    lemma_recorded,
    lemma_recorded_stops,
    recorded,
};
use crate::store::entities::{CueFile, Download};
use crate::store::error::StoreError;
use crate::store::model::{
    completion_kept,
    journaled,
    new_cue_file,
    new_track,
    CueFileView,
    DownloadView,
};
use crate::store::seqs::views;
use crate::store::table::Store;

verus! {

/// Why a cue sheet could not be split.
#[derive(Debug, Clone, Copy, PartialEq, Eq, Structural)]
pub enum SplitError {
    /// The store refused a write.
    Store(StoreError),
    /// The cue sheet could not be read.
    UnreadableCueSheet,
}

/// Records the results that the splitter reported: one track for each name,
/// in order, each under a freshly generated identifier. Whatever identifiers
/// were generated, the outcome is that of recording the names under them;
/// the first track that cannot be saved ends the recording with an error,
/// and what was recorded before it stays.
pub fn record_outputs(cue_file: &mut CueFile, store: &mut Store, names: Vec<String>) -> (res: Result<
    (),
    StoreError,
>)
    ensures
        exists|ids: Seq<u128>|
            {
                let outcome = #[trigger] recorded(old(cue_file)@, old(store)@, views(names@), ids);
                &&& ids.len() == names.len()
                &&& final(cue_file)@ == outcome.cue_file
                &&& final(store)@ == outcome.store
                &&& res is Ok <==> outcome.ok
            },
        res is Err ==> res == Err::<(), StoreError>(StoreError::DuplicateTrack),
        res is Ok ==> final(cue_file)@.tracks.len() == old(cue_file)@.tracks.len() + names.len(),
        res is Ok ==> forall|k: int|
            0 <= k < names.len() ==> final(store)@.has_track_path(#[trigger] views(names@)[k]),
        old(store)@.wf() ==> final(store)@.wf() && completion_kept(old(store)@, final(store)@),
        journaled(old(store)@, final(store)@),
{
    let ghost all = views(names@);
    let ghost mut ids: Seq<u128> = Seq::empty();
    assert(all.take(0) =~= Seq::empty());
    for name in it: names
        invariant
            all == views(it.seq()),
            all == views(names@),
            ids.len() == it.index(),
            recorded(old(cue_file)@, old(store)@, all.take(it.index() as int), ids).ok,
            cue_file@ == recorded(
                old(cue_file)@,
                old(store)@,
                all.take(it.index() as int),
                ids,
            ).cue_file,
            store@ == recorded(old(cue_file)@, old(store)@, all.take(it.index() as int), ids).store,
    {
        let ghost before_cue = cue_file@;
        let ghost before_store = store@;
        let ghost upto = all.take(it.index() as int + 1);
        let res = cue_file.add_track(store, name);
        proof {
            let id = choose|id: u128|
                {
                    let track = #[trigger] new_track(before_cue, name@, id);
                    &&& store@ == before_store.save_track(track)
                    &&& res is Ok <==> before_store.track_saves(track)
                    &&& res is Ok ==> cue_file@.tracks == before_cue.tracks.push(track)
                    &&& cue_file@.id == before_cue.id
                    &&& cue_file@.download_id == before_cue.download_id
                    &&& cue_file@.path == before_cue.path
                    &&& res is Err ==> cue_file@ == before_cue
                };
            let old_ids = ids;
            ids = ids.push(id);
            assert(upto.drop_last() =~= all.take(it.index() as int));
            assert(ids.drop_last() =~= old_ids);
            assert(upto.last() == name@);
        }
        match res {
            Ok(()) => {},
            Err(e) => {
                proof {
                    let n = all.len() as int;
                    let k = it.index() as int + 1;
                    let padded = ids + Seq::new((n - k) as nat, |i: int| 0u128);
                    assert(padded.take(k) =~= ids);
                    assert(all.take(k) =~= upto);
                    lemma_recorded_stops(old(cue_file)@, old(store)@, all, padded, k);
                    assert(!recorded(old(cue_file)@, old(store)@, all, padded).ok);
                    lemma_recorded(old(cue_file)@, old(store)@, all, padded);
                    lemma_journaled_recorded(old(cue_file)@, old(store)@, all, padded);
                }
                return Err(e);
            },
        }
    }
    proof {
        assert(all.take(all.len() as int) =~= all);
        lemma_recorded(old(cue_file)@, old(store)@, all, ids);
        lemma_journaled_recorded(old(cue_file)@, old(store)@, all, ids);
    }
    Ok(())
}

/// Records the tracks that the splitter's diagnostics report. The names are
/// those of [`output_files`]; they are recorded as [`record_outputs`] does.
pub fn record_tracks(cue_file: &mut CueFile, store: &mut Store, diagnostics: &str) -> (res: Result<
    (),
    StoreError,
>)
    ensures
        exists|ids: Seq<u128>|
            {
                let outcome = #[trigger] recorded(
                    old(cue_file)@,
                    old(store)@,
                    reported(diagnostics@),
                    ids,
                );
                &&& ids.len() == reported(diagnostics@).len()
                &&& final(cue_file)@ == outcome.cue_file
                &&& final(store)@ == outcome.store
                &&& res is Ok <==> outcome.ok
            },
        res is Err ==> res == Err::<(), StoreError>(StoreError::DuplicateTrack),
        res is Ok ==> final(cue_file)@.tracks.len() == old(cue_file)@.tracks.len() + reported(
            diagnostics@,
        ).len(),
        res is Ok ==> forall|k: int|
            0 <= k < reported(diagnostics@).len() ==> final(store)@.has_track_path(
                #[trigger] reported(diagnostics@)[k],
            ),
        old(store)@.wf() ==> final(store)@.wf() && completion_kept(old(store)@, final(store)@),
        journaled(old(store)@, final(store)@),
{
    let names = output_files(diagnostics);
    record_outputs(cue_file, store, names)
}

/// Whether the invocation is the one that splits the sheet found at `entry`
/// under the given settings: the configured program, run in the cue sheet's
/// directory, on the audio files that the sheet names, each of them once.
pub open spec fn command_for(
    command: SplitCommand,
    settings: &Settings,
    entry: &CueEntry,
    sheet: &CueSheet,
) -> bool {
    &&& command.program@ == settings.shnsplit.path@
    &&& command.working_dir@ == entry.dir@
    &&& views(command.args@) == splitter_arguments(
        entry.file_name@,
        entry.dir@,
        settings.shnsplit.format@,
        settings.shnsplit.overwrite,
        first_occurrences(views(sheet.files@)),
    )
}

/// The download with one more cue file.
pub open spec fn with_cue_file(download: DownloadView, cue_file: CueFileView) -> DownloadView {
    DownloadView { cue_files: download.cue_files.push(cue_file), ..download }
}

/// Starts the split of one cue sheet. The cue file is recorded under the
/// download first, under a freshly generated identifier, whether or not one
/// is recorded at its path already. Then the splitter's invocation is worked
/// out from the settings, the place of the cue sheet and the audio files
/// that the sheet names. `sheet` is what the cue parser made of the file,
/// `None` where it could not read it.
///
/// Whatever identifier was generated: where the store refuses the cue file,
/// nothing changes and the call fails with the store's error. Otherwise the
/// cue file is appended to the download, and the call fails with
/// [`SplitError::UnreadableCueSheet`] where there is no sheet, and else hands
/// out the recorded cue file, for the tracks that the splitter will report,
/// together with the invocation.
pub fn split<'a>(
    download: &'a mut Download,
    store: &mut Store,
    settings: &Settings,
    entry: &CueEntry,
    sheet: Option<&CueSheet>,
) -> (res: Result<(&'a mut CueFile, SplitCommand), SplitError>)
    ensures
        exists|id: u128|
            {
                let cue = #[trigger] new_cue_file(old(download)@.download_id, entry.path@, id);
                &&& final(store)@ == old(store)@.save_cue_file(cue.row())
                &&& if !old(store)@.cue_file_saves(cue.row()) {
                    &&& res is Err
                    &&& res->Err_0 == SplitError::Store(StoreError::DuplicateCueFile)
                    &&& final(download)@ == old(download)@
                } else {
                    match sheet {
                        None => {
                            &&& res is Err
                            &&& res->Err_0 == SplitError::UnreadableCueSheet
                            &&& final(download)@ == with_cue_file(old(download)@, cue)
                        },
                        Some(sheet) => {
                            &&& res is Ok
                            &&& (*res->Ok_0.0)@ == cue
                            &&& final(download)@ == with_cue_file(
                                old(download)@,
                                (*final(res->Ok_0.0))@,
                            )
                            &&& command_for(res->Ok_0.1, settings, entry, sheet)
                        },
                    }
                }
            },
        old(store)@.has_cue_path(entry.path@) ==> final(store)@ == old(store)@ && (res is Ok
            <==> sheet is Some),
        old(store)@.wf() ==> final(store)@.wf() && completion_kept(old(store)@, final(store)@),
        journaled(old(store)@, final(store)@),
{
    let cue_file = match download.add_cue_file(store, entry.path.clone()) {
        Ok(cue_file) => cue_file,
        Err(e) => {
            return Err(SplitError::Store(e));
        },
    };
    match sheet {
        None => Err(SplitError::UnreadableCueSheet),
        Some(sheet) => {
            let files = sheet.audio_files();
            let command = SplitCommand::new(&settings.shnsplit, entry, files);
            Ok((cue_file, command))
        },
    }
}

} // verus!
