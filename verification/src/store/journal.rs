//! The journal accounts for every change of the tables.

use vstd::prelude::*;
use crate::store::model::{journaled, CueFileView, DownloadView, StatementView, StoreView};
use crate::store::rows::{CueFileRowView, DownloadRowView, TrackView};

verus! {

/// Writes carried out on stores with the same rows give the same rows.
pub proof fn lemma_replay_same_tables(s: StoreView, t: StoreView, stmts: Seq<StatementView>)
    requires
        s.same_tables(t),
    ensures
        s.replay(stmts).same_tables(t.replay(stmts)),
    decreases stmts.len(),
{
    if stmts.len() > 0 {
        lemma_replay_same_tables(s, t, stmts.drop_last());
    }
}

/// Carrying out two runs of writes one after the other is carrying out
/// their concatenation.
pub proof fn lemma_replay_concat(s: StoreView, first: Seq<StatementView>, second: Seq<StatementView>)
    ensures
        s.replay(first + second) == s.replay(first).replay(second),
    decreases second.len(),
{
    if second.len() == 0 {
        assert(first + second =~= first);
    } else {
        assert((first + second).drop_last() =~= first + second.drop_last());
        assert((first + second).last() == second.last());
        lemma_replay_concat(s, first, second.drop_last());
    }
}

/// The journal accounts for a store that did not change.
pub proof fn lemma_journaled_same(s: StoreView)
    ensures
        journaled(s, s),
{
    assert(s.journal.take(s.journal.len() as int) =~= s.journal);
    assert(s.journal.skip(s.journal.len() as int) =~= Seq::empty());
}

/// The journal accounts for one write.
pub proof fn lemma_journaled_execute(s: StoreView, stmt: StatementView)
    ensures
        journaled(s, s.execute(stmt)),
{
    let after = s.execute(stmt);
    let n = s.journal.len() as int;
    assert(after.journal.take(n) =~= s.journal);
    assert(after.journal.skip(n) =~= seq![stmt]);
    assert(seq![stmt].drop_last() =~= Seq::empty());
    assert(s.replay(seq![stmt]) == s.replay(Seq::empty()).apply(stmt));
}

/// Where the journal accounts for two steps, it accounts for both together.
pub proof fn lemma_journaled_chain(a: StoreView, b: StoreView, c: StoreView)
    requires
        journaled(a, b),
        journaled(b, c),
    ensures
        journaled(a, c),
{
    let na = a.journal.len() as int;
    let nb = b.journal.len() as int;
    let first = b.journal.skip(na);
    let second = c.journal.skip(nb);
    assert(c.journal.take(na) =~= c.journal.take(nb).take(na));
    assert(c.journal.skip(na) =~= first + second) by {
        assert(c.journal.take(nb) == b.journal);
        assert forall|i: int| 0 <= i < c.journal.len() - na implies c.journal.skip(na)[i] == (first
            + second)[i] by {
            if i < nb - na {
                assert(c.journal.take(nb)[na + i] == c.journal[na + i]);
            }
        }
    }
    lemma_replay_concat(a, first, second);
    lemma_replay_same_tables(b, a.replay(first), second);
}

/// The journal accounts for the upsert of a download's row.
pub proof fn lemma_journaled_save_download_row(s: StoreView, row: DownloadRowView)
    ensures
        journaled(s, s.save_download_row(row)),
{
    lemma_journaled_execute(s, StatementView::UpdateDownload(row));
    lemma_journaled_execute(s, StatementView::InsertDownload(row));
}

/// The journal accounts for the recording of a cue file.
pub proof fn lemma_journaled_save_cue_file(s: StoreView, row: CueFileRowView)
    ensures
        journaled(s, s.save_cue_file(row)),
{
    lemma_journaled_same(s);
    lemma_journaled_execute(s, StatementView::InsertCueFile(row));
}

/// The journal accounts for the recording of a track.
pub proof fn lemma_journaled_save_track(s: StoreView, track: TrackView)
    ensures
        journaled(s, s.save_track(track)),
{
    lemma_journaled_same(s);
    lemma_journaled_execute(s, StatementView::InsertTrack(track));
}

/// The journal accounts for the recording of a sequence of cue files.
pub proof fn lemma_journaled_save_cue_files(s: StoreView, cue_files: Seq<CueFileView>)
    ensures
        journaled(s, s.save_cue_files(cue_files)),
    decreases cue_files.len(),
{
    if cue_files.len() == 0 || !s.cue_file_saves(cue_files[0].row()) {
        lemma_journaled_same(s);
    } else {
        let next = s.save_cue_file(cue_files[0].row());
        lemma_journaled_save_cue_file(s, cue_files[0].row());
        lemma_journaled_save_cue_files(next, cue_files.skip(1));
        lemma_journaled_chain(s, next, next.save_cue_files(cue_files.skip(1)));
    }
}

/// The journal accounts for the save of a download.
pub proof fn lemma_journaled_save_download(s: StoreView, download: DownloadView)
    ensures
        journaled(s, s.save_download(download)),
{
    let mid = s.save_download_row(download.row());
    lemma_journaled_save_download_row(s, download.row());
    lemma_journaled_save_cue_files(mid, download.cue_files);
    lemma_journaled_chain(s, mid, s.save_download(download));
}

/// The journal accounts for the cascading delete of a download.
pub proof fn lemma_journaled_delete_download(s: StoreView, download_id: Seq<char>)
    ensures
        journaled(s, s.delete_download(download_id)),
{
    let s1 = s.execute(StatementView::DeleteTracksOfDownload(download_id));
    let s2 = s1.execute(StatementView::DeleteCueFilesOfDownload(download_id));
    let s3 = s2.execute(StatementView::DeleteDownload(download_id));
    lemma_journaled_execute(s, StatementView::DeleteTracksOfDownload(download_id));
    lemma_journaled_execute(s1, StatementView::DeleteCueFilesOfDownload(download_id));
    lemma_journaled_execute(s2, StatementView::DeleteDownload(download_id));
    lemma_journaled_chain(s, s1, s2);
    lemma_journaled_chain(s, s2, s3);
}

/// The journal accounts for the cascading delete of a cue file.
pub proof fn lemma_journaled_delete_cue_file(s: StoreView, id: u128)
    ensures
        journaled(s, s.delete_cue_file(id)),
{
    let s1 = s.execute(StatementView::DeleteTracksOfCueFile(id));
    lemma_journaled_execute(s, StatementView::DeleteTracksOfCueFile(id));
    lemma_journaled_execute(s1, StatementView::DeleteCueFile(id));
    lemma_journaled_chain(s, s1, s1.execute(StatementView::DeleteCueFile(id)));
}

} // verus!
