//! Reading the splitter's diagnostics: which track files it reports.

use vstd::prelude::*;
use crate::store::seqs::views;

verus! {

/// What the regex engine finds: `None` where the pattern is not a valid
/// expression; otherwise, for each match of the pattern in the text, from
/// left to right and without overlap, the text that the named group
/// captured, or `None` where the group took no part in the match.
pub uninterp spec fn regex_captures(pattern: Seq<char>, group: Seq<char>, text: Seq<char>) -> Option<
    Seq<Option<Seq<char>>>,
>;

/// The views of the captures of each match.
pub open spec fn capture_views(matches: Option<Vec<Option<String>>>) -> Option<
    Seq<Option<Seq<char>>>,
> {
    match matches {
        None => None,
        Some(found) => Some(
            Seq::new(
                found.len() as nat,
                |i: int|
                    match found[i] {
                        None => None,
                        Some(text) => Some(text@),
                    },
            ),
        ),
    }
}

/// Compiles the pattern with `regex::Regex::new` and walks the matches that
/// `Regex::captures_iter` yields on the text, taking from each the text of
/// the named group (`Captures::name`, `Match::as_str`). The result is what
/// the engine computes from these three strings; nothing else is claimed.
#[verifier::external_body]
fn captures_of(pattern: &str, group: &str, text: &str) -> (matches: Option<Vec<Option<String>>>)
    ensures
        capture_views(matches) == regex_captures(pattern@, group@, text@),
{
    match regex::Regex::new(pattern) {
        Ok(re) => Some(
            re.captures_iter(text).map(|c| c.name(group).map(|m| m.as_str().to_string())).collect(),
        ),
        Err(_) => None,
    }
}

/// The line that the splitter writes for each track,
/// `Splitting [INPUT] (LENGTH) --> [OUTPUT] (LENGTH) :`, as an expression
/// with one named group for each of the four parts.
pub open spec fn output_pattern_text() -> Seq<char> {
    r"Splitting \[(?P<input_file>[^]]+)] \((?P<input_length>[^)]+)\) --> \[(?P<output_file>[^]]+)] \((?P<output_length>[^)]+)\) :"@
}

/// The name of the group that captures the written file.
pub open spec fn output_group_text() -> Seq<char> {
    "output_file"@
}

/// The expression that finds the lines which report a written track.
pub fn output_pattern() -> (pattern: &'static str)
    ensures
        pattern@ == output_pattern_text(),
{
    r"Splitting \[(?P<input_file>[^]]+)] \((?P<input_length>[^)]+)\) --> \[(?P<output_file>[^]]+)] \((?P<output_length>[^)]+)\) :"
}

/// The name of the group that captures the written file.
pub fn output_group() -> (group: &'static str)
    ensures
        group@ == output_group_text(),
{
    "output_file"
}

/// The texts that were captured, in order; matches without a capture and an
/// invalid pattern contribute nothing.
pub open spec fn captured(matches: Option<Seq<Option<Seq<char>>>>) -> Seq<Seq<char>>
    decreases
        (match matches {
            Some(found) => found.len(),
            None => 0,
        }),
{
    match matches {
        None => Seq::empty(),
        Some(found) => if found.len() == 0 {
            Seq::empty()
        } else {
            match found.last() {
                Some(text) => captured(Some(found.drop_last())).push(text),
                None => captured(Some(found.drop_last())),
            }
        },
    }
}

/// The texts that were captured, in order.
pub fn captured_names(matches: Option<Vec<Option<String>>>) -> (names: Vec<String>)
    ensures
        views(names@) == captured(capture_views(matches)),
{
    let mut names: Vec<String> = Vec::new();
    match matches {
        None => {
            assert(views(names@) =~= Seq::empty());
        },
        Some(found) => {
            let ghost all = capture_views(Some(found))->Some_0;
            assert(views(names@) =~= captured(Some(all.take(0))));
            for capture in it: found
                invariant
                    all == capture_views(Some(found))->Some_0,
                    all.len() == it.seq().len(),
                    forall|k: int|
                        0 <= k < all.len() ==> all[k] == match #[trigger] it.seq()[k] {
                            None => None::<Seq<char>>,
                            Some(text) => Some(text@),
                        },
                    views(names@) == captured(Some(all.take(it.index() as int))),
            {
                let ghost upto = all.take(it.index() as int + 1);
                assert(upto.drop_last() =~= all.take(it.index() as int));
                match capture {
                    Some(text) => {
                        let ghost before = names@;
                        names.push(text);
                        assert(views(names@) =~= views(before).push(text@));
                        assert(upto.last() == Some(text@));
                    },
                    None => {
                        assert(upto.last() == None::<Seq<char>>);
                    },
                }
            }
            assert(all.take(all.len() as int) =~= all);
        },
    }
    names
}

/// The track files that the splitter's diagnostics report: what the output
/// group captured in each match of the output pattern.
pub open spec fn reported(diagnostics: Seq<char>) -> Seq<Seq<char>> {
    captured(regex_captures(output_pattern_text(), output_group_text(), diagnostics))
}

/// The track files that the splitter's diagnostics report, in the order of
/// the report.
pub fn output_files(diagnostics: &str) -> (names: Vec<String>)
    ensures
        views(names@) == reported(diagnostics@),
{
    captured_names(captures_of(output_pattern(), output_group(), diagnostics))
}

} // verus!
