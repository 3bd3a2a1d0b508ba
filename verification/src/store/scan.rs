//! Table scans: the rows that a delete leaves, and the rows after an update.

use vstd::prelude::*;
use crate::store::model::{
    cue_file_key,
    cue_file_path,
    download_key,
    track_key,
    track_path,
    updated_row,
};
use crate::store::rows::{
    CueFileRow,
    CueFileRowView,
    DownloadRow,
    DownloadRowView,
    Track,
    TrackView,
};
use crate::store::seqs::{distinct_by, lemma_filter_step, views};

verus! {

/// The download rows with another key than `download_id`.
pub(crate) fn downloads_without(rows: &Vec<DownloadRow>, download_id: &String) -> (kept: Vec<DownloadRow>)
    ensures
        views(kept@) == views(rows@).filter(|d: DownloadRowView| d.download_id != download_id@),
{
    let ghost pred = |d: DownloadRowView| d.download_id != download_id@;
    let mut kept: Vec<DownloadRow> = Vec::new();
    let mut i: usize = 0;
    assert(views(rows@).take(0).filter(pred) =~= views(kept@)) by {
        reveal(Seq::filter);
    }
    while i < rows.len()
        invariant
            i <= rows.len(),
            pred == |d: DownloadRowView| d.download_id != download_id@,
            views(kept@) == views(rows@).take(i as int).filter(pred),
        decreases rows.len() - i,
    {
        proof {
            lemma_filter_step(views(rows@), pred, i as int);
        }
        if rows[i].download_id != *download_id {
            let row = rows[i].duplicate();
            let ghost before = kept@;
            kept.push(row);
            assert(views(kept@) =~= views(before).push(row@));
        }
        i += 1;
    }
    assert(views(rows@).take(rows.len() as int) =~= views(rows@));
    kept
}

/// The cue file rows that belong to another download than `download_id`.
pub(crate) fn cue_files_without_download(rows: &Vec<CueFileRow>, download_id: &String) -> (kept: Vec<CueFileRow>)
    ensures
        views(kept@) == views(rows@).filter(|c: CueFileRowView| c.download_id != download_id@),
{
    let ghost pred = |c: CueFileRowView| c.download_id != download_id@;
    let mut kept: Vec<CueFileRow> = Vec::new();
    let mut i: usize = 0;
    assert(views(rows@).take(0).filter(pred) =~= views(kept@)) by {
        reveal(Seq::filter);
    }
    while i < rows.len()
        invariant
            i <= rows.len(),
            pred == |c: CueFileRowView| c.download_id != download_id@,
            views(kept@) == views(rows@).take(i as int).filter(pred),
        decreases rows.len() - i,
    {
        proof {
            lemma_filter_step(views(rows@), pred, i as int);
        }
        if rows[i].download_id != *download_id {
            let row = rows[i].duplicate();
            let ghost before = kept@;
            kept.push(row);
            assert(views(kept@) =~= views(before).push(row@));
        }
        i += 1;
    }
    assert(views(rows@).take(rows.len() as int) =~= views(rows@));
    kept
}

/// The cue file rows with another key than `id`.
pub(crate) fn cue_files_without(rows: &Vec<CueFileRow>, id: u128) -> (kept: Vec<CueFileRow>)
    ensures
        views(kept@) == views(rows@).filter(|c: CueFileRowView| c.id != id),
{
    let ghost pred = |c: CueFileRowView| c.id != id;
    let mut kept: Vec<CueFileRow> = Vec::new();
    let mut i: usize = 0;
    assert(views(rows@).take(0).filter(pred) =~= views(kept@)) by {
        reveal(Seq::filter);
    }
    while i < rows.len()
        invariant
            i <= rows.len(),
            pred == |c: CueFileRowView| c.id != id,
            views(kept@) == views(rows@).take(i as int).filter(pred),
        decreases rows.len() - i,
    {
        proof {
            lemma_filter_step(views(rows@), pred, i as int);
        }
        if rows[i].id != id {
            let row = rows[i].duplicate();
            let ghost before = kept@;
            kept.push(row);
            assert(views(kept@) =~= views(before).push(row@));
        }
        i += 1;
    }
    assert(views(rows@).take(rows.len() as int) =~= views(rows@));
    kept
}

/// The track rows that belong to another download than `download_id`.
pub(crate) fn tracks_without_download(rows: &Vec<Track>, download_id: &String) -> (kept: Vec<Track>)
    ensures
        views(kept@) == views(rows@).filter(|t: TrackView| t.download_id != download_id@),
{
    let ghost pred = |t: TrackView| t.download_id != download_id@;
    let mut kept: Vec<Track> = Vec::new();
    let mut i: usize = 0;
    assert(views(rows@).take(0).filter(pred) =~= views(kept@)) by {
        reveal(Seq::filter);
    }
    while i < rows.len()
        invariant
            i <= rows.len(),
            pred == |t: TrackView| t.download_id != download_id@,
            views(kept@) == views(rows@).take(i as int).filter(pred),
        decreases rows.len() - i,
    {
        proof {
            lemma_filter_step(views(rows@), pred, i as int);
        }
        if rows[i].download_id != *download_id {
            let row = rows[i].duplicate();
            let ghost before = kept@;
            kept.push(row);
            assert(views(kept@) =~= views(before).push(row@));
        }
        i += 1;
    }
    assert(views(rows@).take(rows.len() as int) =~= views(rows@));
    kept
}

/// The track rows that belong to another cue file than `cue_file_id`.
pub(crate) fn tracks_without_cue_file(rows: &Vec<Track>, cue_file_id: u128) -> (kept: Vec<Track>)
    ensures
        views(kept@) == views(rows@).filter(|t: TrackView| t.cue_file_id != cue_file_id),
{
    let ghost pred = |t: TrackView| t.cue_file_id != cue_file_id;
    let mut kept: Vec<Track> = Vec::new();
    let mut i: usize = 0;
    assert(views(rows@).take(0).filter(pred) =~= views(kept@)) by {
        reveal(Seq::filter);
    }
    while i < rows.len()
        invariant
            i <= rows.len(),
            pred == |t: TrackView| t.cue_file_id != cue_file_id,
            views(kept@) == views(rows@).take(i as int).filter(pred),
        decreases rows.len() - i,
    {
        proof {
            lemma_filter_step(views(rows@), pred, i as int);
        }
        if rows[i].cue_file_id != cue_file_id {
            let row = rows[i].duplicate();
            let ghost before = kept@;
            kept.push(row);
            assert(views(kept@) =~= views(before).push(row@));
        }
        i += 1;
    }
    assert(views(rows@).take(rows.len() as int) =~= views(rows@));
    kept
}

/// The track rows with another key than `id`.
pub(crate) fn tracks_without(rows: &Vec<Track>, id: u128) -> (kept: Vec<Track>)
    ensures
        views(kept@) == views(rows@).filter(|t: TrackView| t.id != id),
{
    let ghost pred = |t: TrackView| t.id != id;
    let mut kept: Vec<Track> = Vec::new();
    let mut i: usize = 0;
    assert(views(rows@).take(0).filter(pred) =~= views(kept@)) by {
        reveal(Seq::filter);
    }
    while i < rows.len()
        invariant
            i <= rows.len(),
            pred == |t: TrackView| t.id != id,
            views(kept@) == views(rows@).take(i as int).filter(pred),
        decreases rows.len() - i,
    {
        proof {
            lemma_filter_step(views(rows@), pred, i as int);
        }
        if rows[i].id != id {
            let row = rows[i].duplicate();
            let ghost before = kept@;
            kept.push(row);
            assert(views(kept@) =~= views(before).push(row@));
        }
        i += 1;
    }
    assert(views(rows@).take(rows.len() as int) =~= views(rows@));
    kept
}

/// The download rows after the row keyed like `new` took over its title,
/// status, tracked download state and completion flag.
pub(crate) fn downloads_updated(rows: &Vec<DownloadRow>, new: &DownloadRow) -> (out: Vec<DownloadRow>)
    ensures
        views(out@) == views(rows@).map_values(|r: DownloadRowView| updated_row(r, new@)),
{
    let mut out: Vec<DownloadRow> = Vec::new();
    let mut i: usize = 0;
    while i < rows.len()
        invariant
            i <= rows.len(),
            out.len() == i,
            forall|k: int| 0 <= k < i ==> (#[trigger] out[k])@ == updated_row(rows[k]@, new@),
        decreases rows.len() - i,
    {
        let row = if rows[i].download_id == new.download_id {
            DownloadRow {
                download_id: rows[i].download_id.clone(),
                title: new.title.clone(),
                status: new.status.clone(),
                output_path: rows[i].output_path.clone(),
                tracked_download_state: new.tracked_download_state.clone(),
                split_complete: new.split_complete,
            }
        } else {
            rows[i].duplicate()
        };
        out.push(row);
        i += 1;
    }
    assert(views(out@) =~= views(rows@).map_values(|r: DownloadRowView| updated_row(r, new@)));
    out
}

/// Whether no two download rows share a `download_id`.
pub(crate) fn downloads_distinct(rows: &Vec<DownloadRow>) -> (distinct: bool)
    ensures
        distinct == distinct_by(views(rows@), download_key()),
{
    let mut j: usize = 0;
    while j < rows.len()
        invariant
            j <= rows.len(),
            forall|a: int, b: int|
                0 <= a < b < j ==> download_key()(#[trigger] views(rows@)[a]) != download_key()(
                    #[trigger] views(rows@)[b],
                ),
        decreases rows.len() - j,
    {
        let mut i: usize = 0;
        while i < j
            invariant
                i <= j < rows.len(),
                forall|a: int|
                    0 <= a < i ==> download_key()(#[trigger] views(rows@)[a]) != download_key()(
                        views(rows@)[j as int],
                    ),
            decreases j - i,
        {
            if rows[i].download_id == rows[j].download_id {
                assert(download_key()(views(rows@)[i as int]) == download_key()(views(rows@)[j as int]));
                return false;
            }
            i += 1;
        }
        j += 1;
    }
    true
}

/// Whether no two cue file rows share an `id`.
pub(crate) fn cue_file_ids_distinct(rows: &Vec<CueFileRow>) -> (distinct: bool)
    ensures
        distinct == distinct_by(views(rows@), cue_file_key()),
{
    let mut j: usize = 0;
    while j < rows.len()
        invariant
            j <= rows.len(),
            forall|a: int, b: int|
                0 <= a < b < j ==> cue_file_key()(#[trigger] views(rows@)[a]) != cue_file_key()(
                    #[trigger] views(rows@)[b],
                ),
        decreases rows.len() - j,
    {
        let mut i: usize = 0;
        while i < j
            invariant
                i <= j < rows.len(),
                forall|a: int|
                    0 <= a < i ==> cue_file_key()(#[trigger] views(rows@)[a]) != cue_file_key()(
                        views(rows@)[j as int],
                    ),
            decreases j - i,
        {
            if rows[i].id == rows[j].id {
                assert(cue_file_key()(views(rows@)[i as int]) == cue_file_key()(views(rows@)[j as int]));
                return false;
            }
            i += 1;
        }
        j += 1;
    }
    true
}

/// Whether no two cue file rows share a `path`.
pub(crate) fn cue_file_paths_distinct(rows: &Vec<CueFileRow>) -> (distinct: bool)
    ensures
        distinct == distinct_by(views(rows@), cue_file_path()),
{
    let mut j: usize = 0;
    while j < rows.len()
        invariant
            j <= rows.len(),
            forall|a: int, b: int|
                0 <= a < b < j ==> cue_file_path()(#[trigger] views(rows@)[a]) != cue_file_path()(
                    #[trigger] views(rows@)[b],
                ),
        decreases rows.len() - j,
    {
        let mut i: usize = 0;
        while i < j
            invariant
                i <= j < rows.len(),
                forall|a: int|
                    0 <= a < i ==> cue_file_path()(#[trigger] views(rows@)[a]) != cue_file_path()(
                        views(rows@)[j as int],
                    ),
            decreases j - i,
        {
            if rows[i].path == rows[j].path {
                assert(cue_file_path()(views(rows@)[i as int]) == cue_file_path()(views(rows@)[j as int]));
                return false;
            }
            i += 1;
        }
        j += 1;
    }
    true
}

/// Whether no two track rows share an `id`.
pub(crate) fn track_ids_distinct(rows: &Vec<Track>) -> (distinct: bool)
    ensures
        distinct == distinct_by(views(rows@), track_key()),
{
    let mut j: usize = 0;
    while j < rows.len()
        invariant
            j <= rows.len(),
            forall|a: int, b: int|
                0 <= a < b < j ==> track_key()(#[trigger] views(rows@)[a]) != track_key()(
                    #[trigger] views(rows@)[b],
                ),
        decreases rows.len() - j,
    {
        let mut i: usize = 0;
        while i < j
            invariant
                i <= j < rows.len(),
                forall|a: int|
                    0 <= a < i ==> track_key()(#[trigger] views(rows@)[a]) != track_key()(
                        views(rows@)[j as int],
                    ),
            decreases j - i,
        {
            if rows[i].id == rows[j].id {
                assert(track_key()(views(rows@)[i as int]) == track_key()(views(rows@)[j as int]));
                return false;
            }
            i += 1;
        }
        j += 1;
    }
    true
}

/// Whether no two track rows share a `path`.
pub(crate) fn track_paths_distinct(rows: &Vec<Track>) -> (distinct: bool)
    ensures
        distinct == distinct_by(views(rows@), track_path()),
{
    let mut j: usize = 0;
    while j < rows.len()
        invariant
            j <= rows.len(),
            forall|a: int, b: int|
                0 <= a < b < j ==> track_path()(#[trigger] views(rows@)[a]) != track_path()(
                    #[trigger] views(rows@)[b],
                ),
        decreases rows.len() - j,
    {
        let mut i: usize = 0;
        while i < j
            invariant
                i <= j < rows.len(),
                forall|a: int|
                    0 <= a < i ==> track_path()(#[trigger] views(rows@)[a]) != track_path()(
                        views(rows@)[j as int],
                    ),
            decreases j - i,
        {
            if rows[i].path == rows[j].path {
                assert(track_path()(views(rows@)[i as int]) == track_path()(views(rows@)[j as int]));
                return false;
            }
            i += 1;
        }
        j += 1;
    }
    true
}

} // verus!
