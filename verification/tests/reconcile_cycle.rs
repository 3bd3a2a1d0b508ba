use splittarr::engine::cycle::{
    is_among, is_import_failed, is_listed, partition_complete, partition_listed, reconcile,
    take_in, unprocessed_records,
};
use splittarr::engine::error::ReconcileError;
use splittarr::engine::work::{clean_up, finish, is_cue_sheet, track_files};
use splittarr::lidarr::{Queue, Record};
use splittarr::settings::Lidarr;
use splittarr::store::table::Statement;
use splittarr::store::{Download, Store};

fn record(id: &str, status: &str, state: &str, output_path: Option<&str>) -> Record {
    let mut record = Record::default();
    record.download_id = id.to_string();
    record.title = format!("Title {}", id);
    record.status = status.to_string();
    record.tracked_download_state = state.to_string();
    record.output_path = output_path.map(|p| p.to_string());
    record
}

fn failed(id: &str) -> Record {
    record(id, "completed", "importFailed", Some("/downloads/out"))
}

fn queue(records: Vec<Record>) -> Queue {
    let mut queue = Queue::default();
    queue.records = records;
    queue
}

fn download(id: &str, complete: bool) -> Download {
    Download {
        download_id: id.to_string(),
        title: "Title".to_string(),
        status: "completed".to_string(),
        output_path: "/downloads/x".to_string(),
        tracked_download_state: "importFailed".to_string(),
        cue_files: vec![],
        split_complete: complete,
    }
}

fn ids(downloads: &Vec<Download>) -> Vec<String> {
    downloads.iter().map(|d| d.download_id.clone()).collect()
}

#[test]
fn failed_import_becomes_a_download() {
    let mut store = Store::new();
    let cycle = reconcile(&mut store, queue(vec![failed("X")])).unwrap();
    assert!(cycle.to_delete.is_empty());
    assert!(cycle.processed.is_empty());
    assert_eq!(cycle.process_queue.len(), 1);
    let created = &cycle.process_queue[0];
    assert_eq!(created.download_id, "X");
    assert_eq!(created.title, "Title X");
    assert_eq!(created.status, "completed");
    assert_eq!(created.tracked_download_state, "importFailed");
    assert_eq!(created.output_path, "/downloads/out");
    assert!(created.cue_files.is_empty());
    assert!(!created.split_complete);
    assert_eq!(store.downloads().len(), 1);
    assert_eq!(store.downloads()[0].download_id, "X");
    assert!(!store.downloads()[0].split_complete);
}

#[test]
fn walk_without_cue_sheets_completes_the_download() {
    let mut store = Store::new();
    let mut cycle = reconcile(&mut store, queue(vec![failed("X")])).unwrap();
    let mut created = cycle.process_queue.remove(0);
    assert_eq!(finish(&mut created, &mut store), Ok(()));
    assert!(created.split_complete);
    assert_eq!(store.downloads().len(), 1);
    assert!(store.downloads()[0].split_complete);
    assert!(store.cue_files().is_empty());
    assert!(store.tracks().is_empty());
}

#[test]
fn completed_download_is_left_alone() {
    let mut store = Store::new();
    let mut cycle = reconcile(&mut store, queue(vec![failed("X")])).unwrap();
    let mut created = cycle.process_queue.remove(0);
    {
        let cue = created.add_cue_file_with_id(&mut store, "/downloads/out/a.cue".to_string(), 1).unwrap();
        assert!(cue.add_track_with_id(&mut store, "/downloads/out/01.flac".to_string(), 10).is_ok());
    }
    assert_eq!(finish(&mut created, &mut store), Ok(()));
    let _ = store.take_journal();
    let next = reconcile(&mut store, queue(vec![failed("X")])).unwrap();
    assert!(next.to_delete.is_empty());
    assert!(next.process_queue.is_empty());
    assert_eq!(ids(&next.processed), vec!["X".to_string()]);
    assert_eq!(next.processed[0].cue_files.len(), 1);
    assert_eq!(next.processed[0].cue_files[0].tracks.len(), 1);
    assert!(store.journal().is_empty());
    assert_eq!(store.downloads().len(), 1);
    assert_eq!(store.cue_files().len(), 1);
    assert_eq!(store.tracks().len(), 1);
    assert!(store.downloads()[0].split_complete);
}

#[test]
fn download_that_left_the_queue_is_cleaned_up() {
    let mut store = Store::new();
    let mut cycle = reconcile(&mut store, queue(vec![failed("X"), failed("Y")])).unwrap();
    let mut x = cycle.process_queue.remove(0);
    {
        let cue = x.add_cue_file_with_id(&mut store, "/downloads/out/a.cue".to_string(), 1).unwrap();
        assert!(cue.add_track_with_id(&mut store, "/downloads/out/01.flac".to_string(), 10).is_ok());
        assert!(cue.add_track_with_id(&mut store, "/downloads/out/02.flac".to_string(), 11).is_ok());
    }
    assert!(finish(&mut x, &mut store).is_ok());
    let mut next = reconcile(&mut store, queue(vec![failed("Y")])).unwrap();
    assert_eq!(ids(&next.to_delete), vec!["X".to_string()]);
    assert!(next.processed.is_empty());
    assert_eq!(ids(&next.process_queue), vec!["Y".to_string()]);
    let gone = &mut next.to_delete[0];
    assert_eq!(
        track_files(gone),
        vec!["/downloads/out/01.flac".to_string(), "/downloads/out/02.flac".to_string()]
    );
    let _ = store.take_journal();
    clean_up(gone, &mut store);
    assert!(gone.cue_files.is_empty());
    assert_eq!(store.downloads().len(), 1);
    assert_eq!(store.downloads()[0].download_id, "Y");
    assert!(store.cue_files().is_empty());
    assert!(store.tracks().is_empty());
    let journal = store.journal();
    assert_eq!(journal.len(), 7);
    assert!(matches!(&journal[0], Statement::DeleteTrack(10)));
    assert!(matches!(&journal[1], Statement::DeleteTrack(11)));
    assert!(matches!(&journal[2], Statement::DeleteTracksOfCueFile(1)));
    assert!(matches!(&journal[3], Statement::DeleteCueFile(1)));
    assert!(matches!(&journal[4], Statement::DeleteTracksOfDownload(id) if id == "X"));
    assert!(matches!(&journal[5], Statement::DeleteCueFilesOfDownload(id) if id == "X"));
    assert!(matches!(&journal[6], Statement::DeleteDownload(id) if id == "X"));
}

#[test]
fn every_known_download_lands_in_one_class() {
    let mut store = Store::new();
    for (id, complete) in [("A", true), ("B", false), ("C", true), ("D", false), ("E", false)] {
        assert!(download(id, complete).save(&mut store).is_ok());
    }
    let records = vec![
        record("A", "completed", "imported", None),
        record("B", "downloading", "downloading", None),
        failed("E"),
        failed("F"),
    ];
    let cycle = reconcile(&mut store, queue(records)).unwrap();
    assert_eq!(ids(&cycle.to_delete), vec!["C".to_string(), "D".to_string()]);
    assert_eq!(ids(&cycle.processed), vec!["A".to_string()]);
    assert_eq!(
        ids(&cycle.process_queue),
        vec!["B".to_string(), "E".to_string(), "F".to_string()]
    );
    assert_eq!(store.downloads().len(), 6);
    assert_eq!(store.downloads()[5].download_id, "F");
    assert!(store.downloads()[0].split_complete);
    assert!(store.downloads()[2].split_complete);
}

#[test]
fn records_that_do_not_report_a_failed_import_are_ignored() {
    let mut store = Store::new();
    let records = vec![
        record("A", "completed", "imported", Some("/a")),
        record("B", "downloading", "importFailed", Some("/b")),
        record("C", "Completed", "importFailed", Some("/c")),
        record("D", "completed", "importfailed", Some("/d")),
    ];
    let cycle = reconcile(&mut store, queue(records)).unwrap();
    assert!(cycle.process_queue.is_empty());
    assert!(store.downloads().is_empty());
    assert!(store.journal().is_empty());
}

#[test]
fn a_key_that_occurs_twice_is_taken_in_once() {
    let mut store = Store::new();
    let cycle = reconcile(&mut store, queue(vec![failed("X"), failed("X")])).unwrap();
    assert_eq!(cycle.process_queue.len(), 1);
    assert_eq!(store.downloads().len(), 1);
}

#[test]
fn record_of_a_processed_download_is_not_taken_in_again() {
    let mut store = Store::new();
    assert!(download("X", true).save(&mut store).is_ok());
    let _ = store.take_journal();
    let cycle = reconcile(&mut store, queue(vec![failed("X")])).unwrap();
    assert!(cycle.process_queue.is_empty());
    assert_eq!(cycle.processed.len(), 1);
    assert!(store.journal().is_empty());
}

#[test]
fn failed_import_without_output_path_stops_the_cycle() {
    let mut store = Store::new();
    let records = vec![
        failed("A"),
        record("B", "completed", "importFailed", None),
        failed("C"),
    ];
    let res = reconcile(&mut store, queue(records));
    assert!(matches!(res, Err(ReconcileError::MissingOutputPath)));
    assert_eq!(store.downloads().len(), 1);
    assert_eq!(store.downloads()[0].download_id, "A");
    assert_eq!(
        ReconcileError::MissingOutputPath.message(),
        "a queue record with a failed import has no output path"
    );
}

#[test]
fn missing_output_path_matters_only_for_admitted_records() {
    let mut store = Store::new();
    let records = vec![record("A", "downloading", "downloading", None)];
    assert!(reconcile(&mut store, queue(records)).is_ok());
}

#[test]
fn partitions_keep_the_order() {
    let known = vec![download("A", true), download("B", false), download("C", false)];
    let records = vec![failed("C"), failed("A")];
    let (listed, gone) = partition_listed(known, &records);
    assert_eq!(ids(&listed), vec!["A".to_string(), "C".to_string()]);
    assert_eq!(ids(&gone), vec!["B".to_string()]);
    let (done, todo) = partition_complete(listed);
    assert_eq!(ids(&done), vec!["A".to_string()]);
    assert_eq!(ids(&todo), vec!["C".to_string()]);
    let rest = unprocessed_records(records, &done);
    assert_eq!(rest.len(), 1);
    assert_eq!(rest[0].download_id, "C");
    assert!(is_listed(&"A".to_string(), &vec![failed("A")]));
    assert!(!is_listed(&"B".to_string(), &vec![failed("A")]));
    assert!(is_among(&"C".to_string(), &todo));
    assert!(!is_among(&"A".to_string(), &todo));
}

#[test]
fn take_in_appends_to_the_queue() {
    let mut store = Store::new();
    let mut work = vec![download("A", false)];
    let res = take_in(vec![failed("A"), failed("B")], &mut work, &mut store);
    assert_eq!(res, Ok(()));
    assert_eq!(ids(&work), vec!["A".to_string(), "B".to_string()]);
    assert_eq!(store.downloads().len(), 1);
    assert_eq!(store.downloads()[0].download_id, "B");
}

#[test]
fn import_failed_needs_both_values() {
    assert!(is_import_failed(&failed("X")));
    assert!(!is_import_failed(&record("X", "completed", "imported", None)));
    assert!(!is_import_failed(&record("X", "queued", "importFailed", None)));
    assert!(!is_import_failed(&record("X", "", "", None)));
}

#[test]
fn cue_sheets_are_files_whose_name_ends_in_cue() {
    assert!(is_cue_sheet(true, "album.cue"));
    assert!(is_cue_sheet(true, "cue"));
    assert!(is_cue_sheet(true, "barbecue"));
    assert!(is_cue_sheet(true, "\u{30de}\u{30b8}.cue"));
    assert!(!is_cue_sheet(false, "album.cue"));
    assert!(!is_cue_sheet(true, "album.CUE"));
    assert!(!is_cue_sheet(true, "album.cue.bak"));
    assert!(!is_cue_sheet(true, "ue"));
    assert!(!is_cue_sheet(true, ""));
    assert!(!is_cue_sheet(true, "album.flac"));
}

#[test]
fn finish_saves_the_cue_files_found() {
    let mut store = Store::new();
    let mut d = download("X", false);
    assert!(d.save(&mut store).is_ok());
    assert!(d.add_cue_file_with_id(&mut store, "/x/a.cue".to_string(), 1).is_ok());
    let _ = store.take_journal();
    assert_eq!(finish(&mut d, &mut store), Ok(()));
    assert!(d.split_complete);
    assert_eq!(store.journal().len(), 1);
    assert!(matches!(&store.journal()[0], Statement::UpdateDownload(row) if row.split_complete));
    assert_eq!(store.cue_files().len(), 1);
}

#[test]
fn track_files_lists_every_track_in_order() {
    let mut store = Store::new();
    let mut d = download("X", false);
    assert!(track_files(&d).is_empty());
    assert!(d.add_cue_file_with_id(&mut store, "/x/a.cue".to_string(), 1).is_ok());
    assert!(d.add_cue_file_with_id(&mut store, "/x/b.cue".to_string(), 2).is_ok());
    assert!(d.add_cue_file_with_id(&mut store, "/x/c.cue".to_string(), 3).is_ok());
    assert!(d.cue_files[0].add_track_with_id(&mut store, "1".to_string(), 10).is_ok());
    assert!(d.cue_files[2].add_track_with_id(&mut store, "2".to_string(), 11).is_ok());
    assert!(d.cue_files[2].add_track_with_id(&mut store, "3".to_string(), 12).is_ok());
    assert_eq!(track_files(&d), vec!["1".to_string(), "2".to_string(), "3".to_string()]);
}

#[test]
fn clean_up_of_an_unknown_download_changes_no_row() {
    let mut store = Store::new();
    assert!(download("Y", true).save(&mut store).is_ok());
    let mut stranger = download("X", false);
    clean_up(&mut stranger, &mut store);
    assert_eq!(store.downloads().len(), 1);
    assert!(store.downloads()[0].split_complete);
}

#[test]
fn queue_address_is_built_from_the_base_address() {
    let lidarr = Lidarr { url: "http://lidarr:8686".to_string(), api_key: "SECRET-REDACTED".to_string() };
    assert_eq!(Queue::url(&lidarr), "http://lidarr:8686/api/v1/queue");
    assert_eq!(Queue::api_key_header(), "x-api-key");
}
