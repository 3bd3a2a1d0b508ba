use splittarr::store::ids::{ID_FORM_MASK, ID_FORM_RANDOM};
use splittarr::store::rows::{CueFileRow, DownloadRow};
use splittarr::store::table::Statement;
use splittarr::store::{CueFile, Download, Store, StoreError, Track};

fn download(id: &str, complete: bool) -> Download {
    Download {
        download_id: id.to_string(),
        title: "Title".to_string(),
        status: "completed".to_string(),
        output_path: "/downloads/x".to_string(),
        tracked_download_state: "importFailed".to_string(),
        cue_files: vec![],
        split_complete: complete,
    }
}

fn download_row(id: &str) -> DownloadRow {
    DownloadRow {
        download_id: id.to_string(),
        title: "Title".to_string(),
        status: "completed".to_string(),
        output_path: "/downloads/x".to_string(),
        tracked_download_state: "importFailed".to_string(),
        split_complete: false,
    }
}

fn cue_row(id: u128, path: &str, download_id: &str) -> CueFileRow {
    CueFileRow { id, path: path.to_string(), download_id: download_id.to_string() }
}

fn track(id: u128, path: &str, cue_file_id: u128, download_id: &str) -> Track {
    Track { id, path: path.to_string(), cue_file_id, download_id: download_id.to_string() }
}

#[test]
fn new_store_is_empty() {
    let store = Store::new();
    assert!(store.downloads().is_empty());
    assert!(store.cue_files().is_empty());
    assert!(store.tracks().is_empty());
    assert!(store.journal().is_empty());
    assert!(Download::all(&store).is_empty());
}

#[test]
fn first_save_inserts_the_row() {
    let mut store = Store::new();
    assert_eq!(download("X", false).save(&mut store), Ok(()));
    assert_eq!(store.downloads().len(), 1);
    assert_eq!(store.downloads()[0].download_id, "X");
    assert!(!store.downloads()[0].split_complete);
    assert_eq!(store.journal().len(), 1);
    assert!(matches!(&store.journal()[0], Statement::InsertDownload(row) if row.download_id == "X"));
}

#[test]
fn saving_twice_keeps_one_row() {
    let mut store = Store::new();
    let first = download("X", false);
    assert!(first.save(&mut store).is_ok());
    assert!(first.save(&mut store).is_ok());
    assert_eq!(store.downloads().len(), 1);
    let mut second = download("X", true);
    second.title = "Other".to_string();
    second.status = "downloading".to_string();
    second.tracked_download_state = "imported".to_string();
    assert!(second.save(&mut store).is_ok());
    assert_eq!(store.downloads().len(), 1);
    assert_eq!(store.downloads()[0].title, "Other");
    assert_eq!(store.downloads()[0].status, "downloading");
    assert_eq!(store.downloads()[0].tracked_download_state, "imported");
    assert!(store.downloads()[0].split_complete);
    assert!(matches!(&store.journal()[1], Statement::UpdateDownload(_)));
    assert!(matches!(&store.journal()[2], Statement::UpdateDownload(_)));
}

#[test]
fn update_keeps_the_output_path() {
    let mut store = Store::new();
    assert!(download("X", false).save(&mut store).is_ok());
    let mut moved = download("X", false);
    moved.output_path = "/elsewhere".to_string();
    assert!(moved.save(&mut store).is_ok());
    assert_eq!(store.downloads()[0].output_path, "/downloads/x");
}

#[test]
fn update_touches_only_its_own_row() {
    let mut store = Store::new();
    assert!(download("X", false).save(&mut store).is_ok());
    assert!(download("Y", false).save(&mut store).is_ok());
    assert!(download("Y", true).save(&mut store).is_ok());
    assert_eq!(store.downloads().len(), 2);
    assert!(!store.downloads()[0].split_complete);
    assert!(store.downloads()[1].split_complete);
}

#[test]
fn save_records_attached_cue_files() {
    let mut store = Store::new();
    let mut d = download("X", false);
    d.cue_files.push(CueFile {
        id: 7,
        download_id: "X".to_string(),
        path: "/downloads/x/a.cue".to_string(),
        tracks: vec![track(1, "/downloads/x/01.flac", 7, "X")],
    });
    assert_eq!(d.save(&mut store), Ok(()));
    assert_eq!(store.cue_files().len(), 1);
    assert_eq!(store.cue_files()[0].id, 7);
    assert!(store.tracks().is_empty());
    assert_eq!(d.save(&mut store), Ok(()));
    assert_eq!(store.cue_files().len(), 1);
}

#[test]
fn save_stops_at_a_cue_file_with_a_taken_id() {
    let mut store = Store::new();
    let mut other = download("Y", false);
    assert!(other.add_cue_file_with_id(&mut store, "/y/a.cue".to_string(), 7).is_ok());
    let mut d = download("X", false);
    d.cue_files.push(CueFile { id: 7, download_id: "X".to_string(), path: "/x/a.cue".to_string(), tracks: vec![] });
    d.cue_files.push(CueFile { id: 8, download_id: "X".to_string(), path: "/x/b.cue".to_string(), tracks: vec![] });
    assert_eq!(d.save(&mut store), Err(StoreError::DuplicateCueFile));
    assert_eq!(store.downloads().len(), 1);
    assert_eq!(store.downloads()[0].download_id, "X");
    assert_eq!(store.cue_files().len(), 1);
}

#[test]
fn cue_file_at_known_path_is_not_recorded_again() {
    let mut store = Store::new();
    let mut d = download("X", false);
    assert!(d.save(&mut store).is_ok());
    {
        let cue = d.add_cue_file_with_id(&mut store, "/x/a.cue".to_string(), 1).unwrap();
        assert_eq!(cue.id, 1);
        assert_eq!(cue.download_id, "X");
        assert_eq!(cue.path, "/x/a.cue");
        assert!(cue.tracks.is_empty());
    }
    assert_eq!(store.cue_files().len(), 1);
    let writes = store.journal().len();
    {
        let cue = d.add_cue_file_with_id(&mut store, "/x/a.cue".to_string(), 2).unwrap();
        assert_eq!(cue.id, 2);
    }
    assert_eq!(store.cue_files().len(), 1);
    assert_eq!(store.cue_files()[0].id, 1);
    assert_eq!(store.journal().len(), writes);
    assert_eq!(d.cue_files.len(), 2);
}

#[test]
fn cue_file_with_taken_id_is_refused() {
    let mut store = Store::new();
    let mut d = download("X", false);
    assert!(d.add_cue_file_with_id(&mut store, "/x/a.cue".to_string(), 1).is_ok());
    let res = d.add_cue_file_with_id(&mut store, "/x/b.cue".to_string(), 1);
    assert!(matches!(res, Err(StoreError::DuplicateCueFile)));
    assert_eq!(store.cue_files().len(), 1);
    assert_eq!(d.cue_files.len(), 1);
}

#[test]
fn track_at_known_path_is_not_recorded_again() {
    let mut store = Store::new();
    let mut d = download("X", false);
    let cue = d.add_cue_file_with_id(&mut store, "/x/a.cue".to_string(), 1).unwrap();
    assert_eq!(cue.add_track_with_id(&mut store, "01.flac".to_string(), 10), Ok(()));
    assert_eq!(store.tracks().len(), 1);
    assert_eq!(store.tracks()[0].id, 10);
    assert_eq!(store.tracks()[0].cue_file_id, 1);
    assert_eq!(store.tracks()[0].download_id, "X");
    assert_eq!(store.tracks()[0].path, "01.flac");
    let writes = store.journal().len();
    assert_eq!(cue.add_track_with_id(&mut store, "01.flac".to_string(), 11), Ok(()));
    assert_eq!(store.tracks().len(), 1);
    assert_eq!(store.journal().len(), writes);
    assert_eq!(cue.tracks.len(), 2);
}

#[test]
fn track_with_taken_id_is_refused() {
    let mut store = Store::new();
    let mut d = download("X", false);
    let cue = d.add_cue_file_with_id(&mut store, "/x/a.cue".to_string(), 1).unwrap();
    assert_eq!(cue.add_track_with_id(&mut store, "01.flac".to_string(), 10), Ok(()));
    assert_eq!(
        cue.add_track_with_id(&mut store, "02.flac".to_string(), 10),
        Err(StoreError::DuplicateTrack)
    );
    assert_eq!(store.tracks().len(), 1);
    assert_eq!(cue.tracks.len(), 1);
}

#[test]
fn generated_ids_are_random_uuids() {
    let mut store = Store::new();
    let mut d = download("X", false);
    let cue = d.add_cue_file(&mut store, "/x/a.cue".to_string()).unwrap();
    assert_eq!(cue.id & ID_FORM_MASK, ID_FORM_RANDOM);
    assert_eq!(cue.add_track(&mut store, "01.flac".to_string()), Ok(()));
    assert_eq!(cue.add_track(&mut store, "02.flac".to_string()), Ok(()));
    assert_eq!(cue.tracks[0].id & ID_FORM_MASK, ID_FORM_RANDOM);
    assert_ne!(cue.tracks[0].id, cue.tracks[1].id);
    assert_ne!(cue.tracks[0].id, cue.id);
    assert_eq!(store.tracks().len(), 2);
}

#[test]
fn all_reads_the_hierarchy_back() {
    let mut store = Store::new();
    let mut x = download("X", false);
    let mut y = download("Y", true);
    assert!(x.save(&mut store).is_ok());
    assert!(y.save(&mut store).is_ok());
    {
        let cue = x.add_cue_file_with_id(&mut store, "/x/a.cue".to_string(), 1).unwrap();
        assert!(cue.add_track_with_id(&mut store, "/x/01.flac".to_string(), 10).is_ok());
    }
    {
        let cue = y.add_cue_file_with_id(&mut store, "/y/a.cue".to_string(), 2).unwrap();
        assert!(cue.add_track_with_id(&mut store, "/y/01.flac".to_string(), 20).is_ok());
    }
    {
        let cue = x.add_cue_file_with_id(&mut store, "/x/b.cue".to_string(), 3).unwrap();
        assert!(cue.add_track_with_id(&mut store, "/x/02.flac".to_string(), 30).is_ok());
        assert!(cue.add_track_with_id(&mut store, "/x/03.flac".to_string(), 31).is_ok());
    }
    let all = Download::all(&store);
    assert_eq!(all.len(), 2);
    assert_eq!(all[0].download_id, "X");
    assert!(!all[0].split_complete);
    assert_eq!(all[0].cue_files.len(), 2);
    assert_eq!(all[0].cue_files[0].path, "/x/a.cue");
    assert_eq!(all[0].cue_files[0].tracks.len(), 1);
    assert_eq!(all[0].cue_files[1].path, "/x/b.cue");
    assert_eq!(all[0].cue_files[1].tracks.len(), 2);
    assert_eq!(all[0].cue_files[1].tracks[1].path, "/x/03.flac");
    assert_eq!(all[1].download_id, "Y");
    assert!(all[1].split_complete);
    assert_eq!(all[1].cue_files.len(), 1);
    assert_eq!(all[1].cue_files[0].tracks[0].id, 20);
    assert_eq!(CueFile::find(&store, &"Y".to_string()).len(), 1);
    assert_eq!(Track::find(&store, 3).len(), 2);
    assert!(Track::find(&store, 4).is_empty());
}

#[test]
fn delete_cascades() {
    let mut store = Store::new();
    let mut x = download("X", false);
    let mut y = download("Y", false);
    assert!(x.save(&mut store).is_ok());
    assert!(y.save(&mut store).is_ok());
    {
        let cue = x.add_cue_file_with_id(&mut store, "/x/a.cue".to_string(), 1).unwrap();
        assert!(cue.add_track_with_id(&mut store, "/x/01.flac".to_string(), 10).is_ok());
    }
    {
        let cue = y.add_cue_file_with_id(&mut store, "/y/a.cue".to_string(), 2).unwrap();
        assert!(cue.add_track_with_id(&mut store, "/y/01.flac".to_string(), 20).is_ok());
    }
    let _ = store.take_journal();
    x.delete(&mut store);
    assert!(x.cue_files.is_empty());
    assert_eq!(store.downloads().len(), 1);
    assert_eq!(store.downloads()[0].download_id, "Y");
    assert_eq!(store.cue_files().len(), 1);
    assert_eq!(store.cue_files()[0].download_id, "Y");
    assert_eq!(store.tracks().len(), 1);
    assert_eq!(store.tracks()[0].download_id, "Y");
    let journal = store.journal();
    assert_eq!(journal.len(), 3);
    assert!(matches!(&journal[0], Statement::DeleteTracksOfDownload(id) if id == "X"));
    assert!(matches!(&journal[1], Statement::DeleteCueFilesOfDownload(id) if id == "X"));
    assert!(matches!(&journal[2], Statement::DeleteDownload(id) if id == "X"));
}

#[test]
fn cue_file_delete_takes_its_tracks() {
    let mut store = Store::new();
    let mut x = download("X", false);
    assert!(x.add_cue_file_with_id(&mut store, "/x/a.cue".to_string(), 1).is_ok());
    assert!(x.add_cue_file_with_id(&mut store, "/x/b.cue".to_string(), 2).is_ok());
    assert!(x.cue_files[0].add_track_with_id(&mut store, "/x/01.flac".to_string(), 10).is_ok());
    assert!(x.cue_files[1].add_track_with_id(&mut store, "/x/02.flac".to_string(), 20).is_ok());
    x.cue_files[0].delete(&mut store);
    assert!(x.cue_files[0].tracks.is_empty());
    assert_eq!(x.cue_files[0].id, 1);
    assert_eq!(store.cue_files().len(), 1);
    assert_eq!(store.cue_files()[0].id, 2);
    assert_eq!(store.tracks().len(), 1);
    assert_eq!(store.tracks()[0].id, 20);
}

#[test]
fn track_delete_removes_one_row() {
    let mut store = Store::new();
    let mut x = download("X", false);
    let cue = x.add_cue_file_with_id(&mut store, "/x/a.cue".to_string(), 1).unwrap();
    assert!(cue.add_track_with_id(&mut store, "/x/01.flac".to_string(), 10).is_ok());
    assert!(cue.add_track_with_id(&mut store, "/x/02.flac".to_string(), 11).is_ok());
    cue.tracks[0].delete(&mut store);
    assert_eq!(store.tracks().len(), 1);
    assert_eq!(store.tracks()[0].id, 11);
    assert!(store.has_track_id(11));
    assert!(!store.has_track_id(10));
    assert!(store.has_track_path(&"/x/02.flac".to_string()));
    assert!(!store.has_track_path(&"/x/01.flac".to_string()));
}

#[test]
fn lookups_answer_for_each_table() {
    let mut store = Store::new();
    let mut x = download("X", false);
    assert!(x.save(&mut store).is_ok());
    assert!(x.add_cue_file_with_id(&mut store, "/x/a.cue".to_string(), 1).is_ok());
    assert!(store.has_download(&"X".to_string()));
    assert!(!store.has_download(&"Y".to_string()));
    assert!(store.has_cue_path(&"/x/a.cue".to_string()));
    assert!(!store.has_cue_path(&"/x/b.cue".to_string()));
    assert!(store.has_cue_id(1));
    assert!(!store.has_cue_id(2));
}

#[test]
fn take_journal_empties_it_and_keeps_the_rows() {
    let mut store = Store::new();
    assert!(download("X", false).save(&mut store).is_ok());
    let journal = store.take_journal();
    assert_eq!(journal.len(), 1);
    assert!(store.journal().is_empty());
    assert_eq!(store.downloads().len(), 1);
}

#[test]
fn from_rows_takes_consistent_rows() {
    let store = Store::from_rows(
        vec![download_row("X"), download_row("Y")],
        vec![cue_row(1, "/x/a.cue", "X"), cue_row(2, "/y/a.cue", "Y")],
        vec![track(10, "/x/01.flac", 1, "X"), track(11, "/x/02.flac", 1, "X")],
    )
    .unwrap();
    assert_eq!(store.downloads().len(), 2);
    assert_eq!(store.cue_files().len(), 2);
    assert_eq!(store.tracks().len(), 2);
    assert!(store.journal().is_empty());
    let all = Download::all(&store);
    assert_eq!(all[0].cue_files[0].tracks.len(), 2);
    assert!(all[1].cue_files[0].tracks.is_empty());
}

#[test]
fn from_rows_refuses_duplicates() {
    let twice = Store::from_rows(vec![download_row("X"), download_row("X")], vec![], vec![]);
    assert!(matches!(twice, Err(StoreError::DuplicateDownload)));
    let same_id = Store::from_rows(
        vec![],
        vec![cue_row(1, "/x/a.cue", "X"), cue_row(1, "/x/b.cue", "X")],
        vec![],
    );
    assert!(matches!(same_id, Err(StoreError::DuplicateCueFile)));
    let same_path = Store::from_rows(
        vec![],
        vec![cue_row(1, "/x/a.cue", "X"), cue_row(2, "/x/a.cue", "X")],
        vec![],
    );
    assert!(matches!(same_path, Err(StoreError::DuplicateCueFile)));
    let track_id = Store::from_rows(
        vec![],
        vec![],
        vec![track(1, "/x/01.flac", 1, "X"), track(1, "/x/02.flac", 1, "X")],
    );
    assert!(matches!(track_id, Err(StoreError::DuplicateTrack)));
    let track_path = Store::from_rows(
        vec![],
        vec![],
        vec![track(1, "/x/01.flac", 1, "X"), track(2, "/x/01.flac", 1, "X")],
    );
    assert!(matches!(track_path, Err(StoreError::DuplicateTrack)));
    let first_wins = Store::from_rows(
        vec![download_row("X"), download_row("X")],
        vec![cue_row(1, "/x/a.cue", "X"), cue_row(1, "/x/b.cue", "X")],
        vec![],
    );
    assert!(matches!(first_wins, Err(StoreError::DuplicateDownload)));
}

#[test]
fn errors_describe_themselves() {
    assert_eq!(StoreError::DuplicateDownload.message(), "duplicate download row");
    assert_eq!(StoreError::DuplicateCueFile.message(), "duplicate cue file row");
    assert_eq!(StoreError::DuplicateTrack.message(), "duplicate track row");
}

#[test]
fn downloads_are_the_same_by_key() {
    let mut other = download("X", true);
    other.title = "Another title".to_string();
    assert!(download("X", false) == other);
    assert!(download("X", false) != download("Y", false));
}

#[test]
fn cue_files_are_the_same_by_path() {
    let a = CueFile { id: 1, download_id: "X".to_string(), path: "/x/a.cue".to_string(), tracks: vec![] };
    let b = CueFile {
        id: 2,
        download_id: "Y".to_string(),
        path: "/x/a.cue".to_string(),
        tracks: vec![track(1, "/x/01.flac", 2, "Y")],
    };
    let c = CueFile { id: 1, download_id: "X".to_string(), path: "/x/b.cue".to_string(), tracks: vec![] };
    assert!(a == b);
    assert!(a != c);
}

#[test]
fn tracks_are_the_same_by_path_and_download() {
    assert!(track(1, "/x/01.flac", 1, "X") == track(2, "/x/01.flac", 3, "X"));
    assert!(track(1, "/x/01.flac", 1, "X") != track(1, "/x/01.flac", 1, "Y"));
    assert!(track(1, "/x/01.flac", 1, "X") != track(1, "/x/02.flac", 1, "X"));
}

#[test]
fn rows_and_statements_copy_field_by_field() {
    let row = download_row("X").duplicate();
    assert_eq!(row.download_id, "X");
    assert_eq!(row.output_path, "/downloads/x");
    let cue = cue_row(5, "/x/a.cue", "X").duplicate();
    assert_eq!((cue.id, cue.path.as_str(), cue.download_id.as_str()), (5, "/x/a.cue", "X"));
    let t = track(9, "/x/01.flac", 5, "X").duplicate();
    assert_eq!((t.id, t.cue_file_id, t.path.as_str(), t.download_id.as_str()), (9, 5, "/x/01.flac", "X"));
    assert!(matches!(Statement::DeleteTrack(9).duplicate(), Statement::DeleteTrack(9)));
    assert!(matches!(
        Statement::InsertCueFile(cue_row(5, "/x/a.cue", "X")).duplicate(),
        Statement::InsertCueFile(row) if row.id == 5 && row.path == "/x/a.cue"
    ));
    assert!(matches!(
        Statement::DeleteDownload("X".to_string()).duplicate(),
        Statement::DeleteDownload(id) if id == "X"
    ));
}

#[test]
fn entities_give_their_own_rows() {
    let mut d = download("X", true);
    d.cue_files.push(CueFile {
        id: 7,
        download_id: "X".to_string(),
        path: "/x/a.cue".to_string(),
        tracks: vec![track(1, "/x/01.flac", 7, "X")],
    });
    let row = d.row();
    assert_eq!(row.download_id, "X");
    assert_eq!(row.title, "Title");
    assert_eq!(row.status, "completed");
    assert_eq!(row.output_path, "/downloads/x");
    assert_eq!(row.tracked_download_state, "importFailed");
    assert!(row.split_complete);
    let cue = d.cue_files[0].row();
    assert_eq!((cue.id, cue.path.as_str(), cue.download_id.as_str()), (7, "/x/a.cue", "X"));
}

#[test]
fn track_save_is_idempotent() {
    let mut store = Store::new();
    let t = track(1, "/x/01.flac", 7, "X");
    assert_eq!(t.save(&mut store), Ok(()));
    assert_eq!(t.save(&mut store), Ok(()));
    assert_eq!(track(2, "/x/01.flac", 8, "Y").save(&mut store), Ok(()));
    assert_eq!(store.tracks().len(), 1);
    assert_eq!(store.tracks()[0].id, 1);
    assert_eq!(store.journal().len(), 1);
    assert_eq!(track(1, "/x/02.flac", 7, "X").save(&mut store), Err(StoreError::DuplicateTrack));
    assert_eq!(store.tracks().len(), 1);
}

#[test]
fn cue_file_save_is_idempotent() {
    let mut store = Store::new();
    let cue = CueFile { id: 1, download_id: "X".to_string(), path: "/x/a.cue".to_string(), tracks: vec![] };
    assert_eq!(cue.save(&mut store), Ok(()));
    assert_eq!(cue.save(&mut store), Ok(()));
    assert_eq!(store.cue_files().len(), 1);
    assert_eq!(store.journal().len(), 1);
    let clash = CueFile { id: 1, download_id: "X".to_string(), path: "/x/b.cue".to_string(), tracks: vec![] };
    assert_eq!(clash.save(&mut store), Err(StoreError::DuplicateCueFile));
    assert_eq!(store.cue_files().len(), 1);
}
