use splittarr::settings::{Cue, Lidarr, Settings, Shnsplit};
use splittarr::shnsplit::command::{CueEntry, SplitCommand};
use splittarr::shnsplit::diagnostics::{captured_names, output_files, output_group, output_pattern};
use splittarr::shnsplit::files::CueSheet;
use splittarr::shnsplit::orchestrator::{record_outputs, record_tracks, split, SplitError};
use splittarr::store::{CueFile, Download, Store, StoreError};

fn settings(overwrite: bool) -> Settings {
    Settings {
        data_dir: "/data".to_string(),
        check_frequency_seconds: 60,
        cue: Cue { strict: false },
        lidarr: Lidarr { url: "http://lidarr".to_string(), api_key: "SECRET-REDACTED".to_string() },
        shnsplit: Shnsplit {
            path: "shnsplit".to_string(),
            overwrite,
            format: "%p - %a - %n - %t".to_string(),
        },
    }
}

fn entry() -> CueEntry {
    CueEntry {
        path: "/downloads/album/disc.cue".to_string(),
        dir: "/downloads/album".to_string(),
        file_name: "disc.cue".to_string(),
    }
}

fn sheet(files: &[&str]) -> CueSheet {
    CueSheet {
        title: Some("Loveless".to_string()),
        performer: Some("My Bloody Valentine".to_string()),
        files: files.iter().map(|f| f.to_string()).collect(),
    }
}

fn download(id: &str) -> Download {
    Download {
        download_id: id.to_string(),
        title: "Title".to_string(),
        status: "completed".to_string(),
        output_path: "/downloads/album".to_string(),
        tracked_download_state: "importFailed".to_string(),
        cue_files: vec![],
        split_complete: false,
    }
}

fn cue_file() -> CueFile {
    CueFile { id: 1, download_id: "X".to_string(), path: "/downloads/album/disc.cue".to_string(), tracks: vec![] }
}

fn strings(values: &[&str]) -> Vec<String> {
    values.iter().map(|v| v.to_string()).collect()
}

const TWO_LINES: &str = "shnsplit: warning: discarding initial zero-valued split point\n\
Splitting [album.flac] (41:03.22) --> [Artist - Album - 01 - First.flac] (3:10.05) : 100% OK\n\
Splitting [album.flac] (41:03.22) --> [Artist - Album - 02 - Second.flac] (4:02.61) : 100% OK\n";

#[test]
fn audio_file_named_twice_is_passed_once() {
    let s = sheet(&["album.flac", "album.flac"]);
    assert_eq!(s.audio_files(), strings(&["album.flac"]));
    let mut store = Store::new();
    let mut d = download("X");
    let (_, command) = split(&mut d, &mut store, &settings(true), &entry(), Some(&s)).unwrap();
    let passed = command.args.iter().filter(|a| a.as_str() == "album.flac").count();
    assert_eq!(passed, 1);
    assert_eq!(command.args.len(), 11);
}

#[test]
fn audio_files_keep_the_order_of_first_mention() {
    let s = sheet(&["b.wav", "a.wav", "b.wav", "c.wav", "a.wav"]);
    assert_eq!(s.audio_files(), strings(&["b.wav", "a.wav", "c.wav"]));
    assert!(sheet(&[]).audio_files().is_empty());
}

#[test]
fn command_follows_the_splitter_contract() {
    let command = SplitCommand::new(&settings(true).shnsplit, &entry(), strings(&["a.flac", "b.flac"]));
    assert_eq!(command.program, "shnsplit");
    assert_eq!(command.working_dir, "/downloads/album");
    assert_eq!(
        command.args,
        strings(&[
            "-f",
            "disc.cue",
            "-d",
            "/downloads/album",
            "-t",
            "%p - %a - %n - %t",
            "-O",
            "always",
            "-o",
            "flac flac -s -8 -o %f -",
            "a.flac",
            "b.flac",
        ])
    );
}

#[test]
fn overwrite_off_passes_never() {
    let command = SplitCommand::new(&settings(false).shnsplit, &entry(), vec![]);
    assert_eq!(command.args[7], "never");
    assert_eq!(command.args.len(), 10);
    assert_eq!(settings(false).shnsplit.overwrite_policy(), "never");
    assert_eq!(settings(true).shnsplit.overwrite_policy(), "always");
}

#[test]
fn split_records_the_cue_file_first() {
    let mut store = Store::new();
    let mut d = download("X");
    {
        let (cue, command) =
            split(&mut d, &mut store, &settings(true), &entry(), Some(&sheet(&["album.flac"]))).unwrap();
        assert_eq!(cue.path, "/downloads/album/disc.cue");
        assert_eq!(cue.download_id, "X");
        assert!(cue.tracks.is_empty());
        assert_eq!(command.args[10], "album.flac");
    }
    assert_eq!(d.cue_files.len(), 1);
    assert_eq!(store.cue_files().len(), 1);
    assert_eq!(store.cue_files()[0].path, "/downloads/album/disc.cue");
    assert_eq!(store.cue_files()[0].download_id, "X");
    assert_eq!(store.cue_files()[0].id, d.cue_files[0].id);
}

#[test]
fn split_of_a_known_cue_sheet_adds_no_row() {
    let mut store = Store::new();
    let mut d = download("X");
    assert!(split(&mut d, &mut store, &settings(true), &entry(), Some(&sheet(&["a.flac"]))).is_ok());
    let writes = store.journal().len();
    assert!(split(&mut d, &mut store, &settings(true), &entry(), Some(&sheet(&["a.flac"]))).is_ok());
    assert_eq!(store.cue_files().len(), 1);
    assert_eq!(store.journal().len(), writes);
    assert_eq!(d.cue_files.len(), 2);
}

#[test]
fn unreadable_cue_sheet_is_reported_after_the_cue_file_was_recorded() {
    let mut store = Store::new();
    let mut d = download("X");
    let res = split(&mut d, &mut store, &settings(true), &entry(), None);
    assert!(matches!(res, Err(SplitError::UnreadableCueSheet)));
    assert_eq!(store.cue_files().len(), 1);
    assert_eq!(d.cue_files.len(), 1);
}

#[test]
fn two_reported_tracks_give_two_rows() {
    let mut store = Store::new();
    let mut d = download("X");
    let (cue, _) =
        split(&mut d, &mut store, &settings(true), &entry(), Some(&sheet(&["album.flac"]))).unwrap();
    assert_eq!(record_tracks(cue, &mut store, TWO_LINES), Ok(()));
    assert_eq!(cue.tracks.len(), 2);
    assert_eq!(cue.tracks[0].path, "Artist - Album - 01 - First.flac");
    assert_eq!(cue.tracks[1].path, "Artist - Album - 02 - Second.flac");
    let cue_id = cue.id;
    assert_eq!(store.tracks().len(), 2);
    assert_eq!(store.tracks()[0].path, "Artist - Album - 01 - First.flac");
    assert_eq!(store.tracks()[1].path, "Artist - Album - 02 - Second.flac");
    assert_eq!(store.tracks()[0].cue_file_id, cue_id);
    assert_eq!(store.tracks()[1].cue_file_id, cue_id);
    assert_eq!(store.tracks()[0].download_id, "X");
    let all = Download::all(&store);
    assert!(all.is_empty());
    assert!(d.save(&mut store).is_ok());
    let all = Download::all(&store);
    assert_eq!(all[0].cue_files[0].tracks.len(), 2);
}

#[test]
fn diagnostics_without_a_match_record_nothing() {
    let mut store = Store::new();
    let mut cue = cue_file();
    assert_eq!(record_tracks(&mut cue, &mut store, "shnsplit: error: cannot open file\n"), Ok(()));
    assert_eq!(record_tracks(&mut cue, &mut store, ""), Ok(()));
    assert!(cue.tracks.is_empty());
    assert!(store.tracks().is_empty());
    assert!(store.journal().is_empty());
}

#[test]
fn recording_the_same_report_twice_adds_no_row() {
    let mut store = Store::new();
    let mut cue = cue_file();
    assert_eq!(record_tracks(&mut cue, &mut store, TWO_LINES), Ok(()));
    let writes = store.journal().len();
    assert_eq!(record_tracks(&mut cue, &mut store, TWO_LINES), Ok(()));
    assert_eq!(store.tracks().len(), 2);
    assert_eq!(store.journal().len(), writes);
    assert_eq!(cue.tracks.len(), 4);
}

#[test]
fn output_files_takes_the_output_of_each_match() {
    assert_eq!(
        output_files(TWO_LINES),
        strings(&["Artist - Album - 01 - First.flac", "Artist - Album - 02 - Second.flac"])
    );
    assert_eq!(
        output_files("Splitting [in.wav] (1:00) --> [out 1.flac] (0:30) :Splitting [in.wav] (1:00) --> [out 2.flac] (0:30) :"),
        strings(&["out 1.flac", "out 2.flac"])
    );
    assert!(output_files("Splitting [in.wav] (1:00) --> [] (0:30) :").is_empty());
    assert!(output_files("Splitting [in.wav] (1:00) --> [out.flac] (0:30)").is_empty());
    assert!(output_files("splitting [in.wav] (1:00) --> [out.flac] (0:30) :").is_empty());
    assert_eq!(
        output_files("Splitting [a] (b) --> [\u{30de}\u{30b8}.flac] (c) : ok"),
        strings(&["\u{30de}\u{30b8}.flac"])
    );
}

#[test]
fn pattern_names_the_output_group() {
    assert!(output_pattern().starts_with("Splitting "));
    assert!(output_pattern().contains("(?P<output_file>"));
    assert_eq!(output_group(), "output_file");
}

#[test]
fn captured_names_skips_what_was_not_captured() {
    assert!(captured_names(None).is_empty());
    assert!(captured_names(Some(vec![])).is_empty());
    assert_eq!(
        captured_names(Some(vec![Some("a".to_string()), None, Some("b".to_string()), None])),
        strings(&["a", "b"])
    );
}

#[test]
fn record_outputs_appends_one_track_per_name() {
    let mut store = Store::new();
    let mut cue = cue_file();
    assert_eq!(record_outputs(&mut cue, &mut store, strings(&["1", "2", "1"])), Ok(()));
    assert_eq!(cue.tracks.len(), 3);
    assert_eq!(cue.tracks[2].path, "1");
    assert_eq!(cue.tracks[0].cue_file_id, 1);
    assert_eq!(cue.tracks[0].download_id, "X");
    assert_eq!(store.tracks().len(), 2);
    assert_eq!(record_outputs(&mut cue, &mut store, vec![]), Ok(()));
    assert_eq!(cue.tracks.len(), 3);
}

#[test]
fn split_error_carries_the_store_error() {
    let err = SplitError::Store(StoreError::DuplicateCueFile);
    assert_ne!(err, SplitError::UnreadableCueSheet);
    assert_eq!(err, SplitError::Store(StoreError::DuplicateCueFile));
}
