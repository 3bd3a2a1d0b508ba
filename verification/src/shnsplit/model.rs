//! What recording the splitter's results does, as mathematics.

use vstd::prelude::*;
use crate::store::journal::{
    lemma_journaled_chain,
    lemma_journaled_same,
    lemma_journaled_save_track,
};
use crate::store::laws::{lemma_same_downloads_keep_completion, lemma_save_track_keeps_wf};
use crate::store::model::{completion_kept, journaled, new_track, CueFileView, StoreView};
use crate::store::rows::TrackView;

verus! {

/// A cue file and the store while the tracks of a split are recorded.
pub struct Recorded {
    pub cue_file: CueFileView,
    pub store: StoreView,
    /// Whether every track so far could be recorded.
    pub ok: bool,
}

/// Records one track for each name, in order, the i-th under the i-th
/// identifier: the track is saved in the store and appended to the cue
/// file. The first track that cannot be saved stops the recording.
pub open spec fn recorded(
    cue_file: CueFileView,
    store: StoreView,
    names: Seq<Seq<char>>,
    ids: Seq<u128>,
) -> Recorded
    decreases names.len(),
{
    if names.len() == 0 {
        Recorded { cue_file, store, ok: true }
    } else {
        let before = recorded(cue_file, store, names.drop_last(), ids.drop_last());
        let track = new_track(before.cue_file, names.last(), ids.last());
        if !before.ok || !before.store.track_saves(track) {
            Recorded { ok: false, ..before }
        } else {
            Recorded {
                cue_file: CueFileView {
                    tracks: before.cue_file.tracks.push(track),
                    ..before.cue_file
                },
                store: before.store.save_track(track),
                ok: true,
            }
        }
    }
}

/// Once the recording stopped, further names change nothing.
pub proof fn lemma_recorded_stops(
    cue_file: CueFileView,
    store: StoreView,
    names: Seq<Seq<char>>,
    ids: Seq<u128>,
    k: int,
)
    requires
        ids.len() == names.len(),
        0 <= k <= names.len(),
        !recorded(cue_file, store, names.take(k), ids.take(k)).ok,
    ensures
        recorded(cue_file, store, names, ids) == recorded(
            cue_file,
            store,
            names.take(k),
            ids.take(k),
        ),
    decreases names.len(),
{
    if k == names.len() {
        assert(names.take(k) =~= names);
        assert(ids.take(k) =~= ids);
    } else {
        assert(names.drop_last().take(k) =~= names.take(k));
        assert(ids.drop_last().take(k) =~= ids.take(k));
        lemma_recorded_stops(cue_file, store, names.drop_last(), ids.drop_last(), k);
    }
}

/// What recording the splitter's results changes and what it leaves alone.
/// The cue file keeps its identity and, where every track could be
/// recorded, gains one track for each name, in order, each under the cue
/// file's own keys; then every name has a track row. The store's downloads
/// and cue files are not touched, so completion is kept, and keys and paths
/// stay distinct.
pub proof fn lemma_recorded(
    cue_file: CueFileView,
    store: StoreView,
    names: Seq<Seq<char>>,
    ids: Seq<u128>,
)
    requires
        ids.len() == names.len(),
    ensures
        recorded(cue_file, store, names, ids).cue_file.id == cue_file.id,
        recorded(cue_file, store, names, ids).cue_file.download_id == cue_file.download_id,
        recorded(cue_file, store, names, ids).cue_file.path == cue_file.path,
        recorded(cue_file, store, names, ids).store.downloads == store.downloads,
        recorded(cue_file, store, names, ids).store.cue_files == store.cue_files,
        store.tracks.len() <= recorded(cue_file, store, names, ids).store.tracks.len()
            <= store.tracks.len() + names.len(),
        recorded(cue_file, store, names, ids).ok ==> {
            let after = recorded(cue_file, store, names, ids);
            &&& after.cue_file.tracks.len() == cue_file.tracks.len() + names.len()
            &&& after.cue_file.tracks.take(cue_file.tracks.len() as int) == cue_file.tracks
            &&& forall|k: int|
                0 <= k < names.len() ==> #[trigger] after.cue_file.tracks[cue_file.tracks.len() + k]
                    == (TrackView {
                    id: ids[k],
                    path: names[k],
                    cue_file_id: cue_file.id,
                    download_id: cue_file.download_id,
                })
            &&& forall|k: int| 0 <= k < names.len() ==> after.store.has_track_path(#[trigger] names[k])
        },
        store.wf() ==> recorded(cue_file, store, names, ids).store.wf() && completion_kept(
            store,
            recorded(cue_file, store, names, ids).store,
        ),
    decreases names.len(),
{
    let after = recorded(cue_file, store, names, ids);
    if names.len() == 0 {
        assert(cue_file.tracks.take(cue_file.tracks.len() as int) =~= cue_file.tracks);
    } else {
        let n = names.len() - 1;
        let before = recorded(cue_file, store, names.drop_last(), ids.drop_last());
        lemma_recorded(cue_file, store, names.drop_last(), ids.drop_last());
        let track = new_track(before.cue_file, names.last(), ids.last());
        if store.wf() {
            lemma_save_track_keeps_wf(before.store, track);
        }
        if after.ok {
            let base = cue_file.tracks.len() as int;
            assert(after.cue_file.tracks.take(base) =~= before.cue_file.tracks.take(base));
            assert forall|k: int| 0 <= k < names.len() implies #[trigger] after.cue_file.tracks[base
                + k] == (TrackView {
                id: ids[k],
                path: names[k],
                cue_file_id: cue_file.id,
                download_id: cue_file.download_id,
            }) by {
                if k < n {
                    assert(after.cue_file.tracks[base + k] == before.cue_file.tracks[base + k]);
                    assert(names.drop_last()[k] == names[k]);
                    assert(ids.drop_last()[k] == ids[k]);
                }
            }
            assert forall|k: int| 0 <= k < names.len() implies after.store.has_track_path(
                #[trigger] names[k],
            ) by {
                if k < n {
                    assert(names.drop_last()[k] == names[k]);
                    assert(before.store.has_track_path(names.drop_last()[k]));
                    let m = choose|m: int|
                        0 <= m < before.store.tracks.len() && (
                        #[trigger] before.store.tracks[m]).path == names[k];
                    assert(after.store.tracks[m].path == names[k]);
                } else if !before.store.has_track_path(track.path) {
                    assert(after.store.tracks[before.store.tracks.len() as int].path == names[k]);
                }
            }
        }
        if store.wf() {
            lemma_same_downloads_keep_completion(store, after.store);
        }
    }
}

/// The journal accounts for what recording the splitter's results does to
/// the store.
pub proof fn lemma_journaled_recorded(
    cue_file: CueFileView,
    store: StoreView,
    names: Seq<Seq<char>>,
    ids: Seq<u128>,
)
    ensures
        journaled(store, recorded(cue_file, store, names, ids).store),
    decreases names.len(),
{
    if names.len() == 0 {
        lemma_journaled_same(store);
    } else {
        let before = recorded(cue_file, store, names.drop_last(), ids.drop_last());
        let track = new_track(before.cue_file, names.last(), ids.last());
        lemma_journaled_recorded(cue_file, store, names.drop_last(), ids.drop_last());
        lemma_journaled_save_track(before.store, track);
        lemma_journaled_chain(store, before.store, before.store.save_track(track));
    }
}

} // verus!
