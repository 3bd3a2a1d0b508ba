//! The audio files that a cue sheet refers to.

use vstd::prelude::*;
use crate::store::seqs::views;

verus! {

/// What was read from a cue sheet: the disc's title and performer, and the
/// name of the audio file of each FILE entry, in the order of the sheet.
#[derive(Debug)]
pub struct CueSheet {
    pub title: Option<String>,
    pub performer: Option<String>,
    pub files: Vec<String>,
}

/// The names in the order of their first occurrence, each once.
pub open spec fn first_occurrences(names: Seq<Seq<char>>) -> Seq<Seq<char>>
    decreases names.len(),
{
    if names.len() == 0 {
        Seq::empty()
    } else if names.drop_last().contains(names.last()) {
        first_occurrences(names.drop_last())
    } else {
        first_occurrences(names.drop_last()).push(names.last())
    }
}

/// Calls `itertools::Itertools::unique` on the names and collects what it
/// yields. As that adaptor is documented: an item that was already produced
/// is left out, and the items that stay keep their order, so that of equal
/// names the first one stays.
#[verifier::external_body]
fn unique_in_order(names: Vec<String>) -> (unique: Vec<String>)
    ensures
        views(unique@) == first_occurrences(views(names@)),
{
    itertools::Itertools::unique(names.into_iter()).collect()
}

impl CueSheet {
    /// The audio files that the sheet refers to, each once, in the order in
    /// which the sheet first names them.
    pub fn audio_files(&self) -> (files: Vec<String>)
        ensures
            views(files@) == first_occurrences(views(self.files@)),
    {
        let mut names: Vec<String> = Vec::new();
        let mut i: usize = 0;
        while i < self.files.len()
            invariant
                i <= self.files.len(),
                views(names@) == views(self.files@).take(i as int),
            decreases self.files.len() - i,
        {
            let name = self.files[i].clone();
            let ghost before = names@;
            names.push(name);
            assert(views(names@) =~= views(before).push(name@));
            assert(views(self.files@).take(i as int + 1) =~= views(self.files@).take(
                i as int,
            ).push(name@));
            i += 1;
        }
        assert(views(self.files@).take(self.files.len() as int) =~= views(self.files@));
        unique_in_order(names)
    }
}

/// A name occurs among the first occurrences exactly if it occurs at all,
/// and no name occurs among them twice.
pub proof fn lemma_first_occurrences(names: Seq<Seq<char>>)
    ensures
        first_occurrences(names).no_duplicates(),
        forall|name: Seq<char>| #[trigger]
            first_occurrences(names).contains(name) <==> names.contains(name),
    decreases names.len(),
{
    if names.len() > 0 {
        let rest = names.drop_last();
        let last = names.last();
        let head = first_occurrences(rest);
        lemma_first_occurrences(rest);
        assert forall|name: Seq<char>| #[trigger]
            first_occurrences(names).contains(name) <==> names.contains(name) by {
            if names.contains(name) {
                let k = choose|k: int| 0 <= k < names.len() && names[k] == name;
                if k < rest.len() {
                    assert(rest[k] == name);
                    assert(rest.contains(name));
                    assert(head.contains(name));
                    let m = choose|m: int| 0 <= m < head.len() && head[m] == name;
                    assert(first_occurrences(names)[m] == name);
                } else if rest.contains(last) {
                    assert(head.contains(name));
                } else {
                    assert(first_occurrences(names)[head.len() as int] == name);
                }
            }
            if first_occurrences(names).contains(name) {
                let m = choose|m: int|
                    0 <= m < first_occurrences(names).len() && first_occurrences(names)[m] == name;
                if m < head.len() {
                    assert(head[m] == name);
                    assert(head.contains(name));
                    assert(rest.contains(name));
                    let k = choose|k: int| 0 <= k < rest.len() && rest[k] == name;
                    assert(names[k] == name);
                } else {
                    assert(names[names.len() - 1] == name);
                }
            }
        }
        if !rest.contains(last) {
            assert forall|i: int, j: int|
                0 <= i < head.len() + 1 && 0 <= j < head.len() + 1 && i != j implies head.push(
                last,
            )[i] != head.push(last)[j] by {
                if i < head.len() && j < head.len() {
                } else if i < head.len() {
                    assert(head.contains(head[i]));
                } else {
                    assert(head.contains(head[j]));
                }
            }
        }
    }
}

} // verus!
