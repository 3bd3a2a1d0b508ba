//! The invocation of the external splitter.

use vstd::prelude::*;
use vstd::string::StringExecFns;
use crate::settings::Shnsplit;
use crate::store::seqs::views;

verus! {

/// A cue sheet found during the walk of an output directory: its full path,
/// the directory that holds it, and its file name.
#[derive(Debug)]
pub struct CueEntry {
    pub path: String,
    pub dir: String,
    pub file_name: String,
}

/// One invocation of the splitter: the program, the directory it runs in and
/// its arguments.
#[derive(Debug)]
pub struct SplitCommand {
    pub program: String,
    pub working_dir: String,
    pub args: Vec<String>,
}

/// The value of the splitter's overwrite option.
pub open spec fn overwrite_policy(overwrite: bool) -> Seq<char> {
    if overwrite {
        "always"@
    } else {
        "never"@
    }
}

/// The splitter's arguments: the cue sheet, the output directory, the naming
/// template, the overwrite policy and the encoder, followed by the audio
/// files.
pub open spec fn splitter_arguments(
    file_name: Seq<char>,
    dir: Seq<char>,
    format: Seq<char>,
    overwrite: bool,
    files: Seq<Seq<char>>,
) -> Seq<Seq<char>> {
    seq![
        "-f"@,
        file_name,
        "-d"@,
        dir,
        "-t"@,
        format,
        "-O"@,
        overwrite_policy(overwrite),
        "-o"@,
        "flac flac -s -8 -o %f -"@,
    ] + files
}

impl SplitCommand {
    /// The invocation that splits the cue sheet into the given audio files'
    /// tracks: the configured program, run in the cue sheet's directory.
    pub fn new(shnsplit: &Shnsplit, entry: &CueEntry, files: Vec<String>) -> (command: SplitCommand)
        ensures
            command.program@ == shnsplit.path@,
            command.working_dir@ == entry.dir@,
            views(command.args@) == splitter_arguments(
                entry.file_name@,
                entry.dir@,
                shnsplit.format@,
                shnsplit.overwrite,
                views(files@),
            ),
    {
        let mut args: Vec<String> = Vec::new();
        args.push(String::from_str("-f"));
        args.push(entry.file_name.clone());
        args.push(String::from_str("-d"));
        args.push(entry.dir.clone());
        args.push(String::from_str("-t"));
        args.push(shnsplit.format.clone());
        args.push(String::from_str("-O"));
        args.push(String::from_str(shnsplit.overwrite_policy()));
        args.push(String::from_str("-o"));
        args.push(String::from_str("flac flac -s -8 -o %f -"));
        let ghost fixed = views(args@);
        assert(fixed =~= splitter_arguments(
            entry.file_name@,
            entry.dir@,
            shnsplit.format@,
            shnsplit.overwrite,
            Seq::empty(),
        ));
        let ghost names = views(files@);
        for file in it: files
            invariant
                names == views(it.seq()),
                views(args@) == fixed + names.take(it.index() as int),
        {
            let ghost before = args@;
            args.push(file);
            assert(views(args@) =~= views(before).push(file@));
            assert(names.take(it.index() as int + 1) =~= names.take(it.index() as int).push(
                file@,
            ));
        }
        assert(names.take(names.len() as int) =~= names);
        assert(fixed + names =~= splitter_arguments(
            entry.file_name@,
            entry.dir@,
            shnsplit.format@,
            shnsplit.overwrite,
            names,
        ));
        SplitCommand { program: shnsplit.path.clone(), working_dir: entry.dir.clone(), args }
    }
}

} // verus!
