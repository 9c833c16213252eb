//! Notes: Markdown files below a folder named `notes`. A note whose metadata says
//! `spaced: true` has been turned into cards and is left out of the list.

use vstd::prelude::*;
use crate::error::{Fault, FrontmatterError, ValueError};
use crate::frontmatter::{metadata_of, read_fm};
use crate::paths::{has_extension, has_segment, path_has_extension, path_has_segment, WalkedFile};
use crate::yaml::{value_of, Node, Yaml};

verus! {

/// Whether the metadata says that the note is spaced. No `spaced` entry means
/// that it is not.
pub open spec fn spaced_of(entries: Seq<(Node, Node)>) -> Result<bool, Fault> {
    match value_of(entries, "spaced"@) {
        None => Ok(false),
        Some(Node::Bool(spaced)) => Ok(spaced),
        Some(_) => Err(Fault::Value),
    }
}

/// Whether the note whose file holds `s` is spaced.
pub open spec fn file_spaced(s: Seq<char>) -> Result<bool, Fault> {
    match metadata_of(s) {
        Ok(entries) => spaced_of(entries),
        Err(fault) => Err(fault),
    }
}

/// Whether a result of the library says what was expected of it.
pub open spec fn tells(got: Result<bool, FrontmatterError>, expected: Result<bool, Fault>) -> bool {
    match got {
        Ok(flag) => expected == Ok::<_, Fault>(flag),
        Err(e) => expected == Err::<bool, _>(e.fault()),
    }
}

/// Whether the note whose file holds `text` is spaced.
pub fn is_spaced(text: &str) -> (spaced: Result<bool, FrontmatterError>)
    ensures
        tells(spaced, file_spaced(text@)),
{
    match read_fm(text) {
        Ok(metadata) => match metadata.get("spaced") {
            None => Ok(false),
            Some(Yaml::Bool(spaced)) => Ok(*spaced),
            Some(_) => Err(FrontmatterError::ValueError(ValueError::new())),
        },
        Err(e) => Err(e),
    }
}

/// Whether a path is that of a note: a file with the extension `md` below a
/// folder named `notes`. The folder is looked for in the canonical path, the
/// extension in the path as given.
pub open spec fn note_path(path: Seq<char>, canonical_path: Seq<char>) -> bool {
    has_segment(canonical_path, "notes"@) && has_extension(path, "md"@)
}

/// Whether a path is that of a note.
pub fn is_note_path(path: &str, canonical_path: &str) -> (yes: bool)
    ensures
        yes == note_path(path@, canonical_path@),
{
    path_has_segment(canonical_path, "notes") && path_has_extension(path, "md")
}

/// The places in `files` of the notes to list, in the order of `files`: every
/// note where `all` is set, else those that are not spaced. The first note whose
/// metadata cannot be read is a fault; with `all` set no metadata is read.
pub open spec fn listed(files: Seq<WalkedFile>, all: bool) -> Result<Seq<usize>, Fault>
    decreases files.len(),
{
    if files.len() == 0 {
        Ok(Seq::empty())
    } else {
        let last = files.last();
        match listed(files.drop_last(), all) {
            Ok(places) => if !note_path(last.path@, last.canonical_path@) {
                Ok(places)
            } else if all {
                Ok(places.push((files.len() - 1) as usize))
            } else {
                match file_spaced(last.text@) {
                    Ok(true) => Ok(places),
                    Ok(false) => Ok(places.push((files.len() - 1) as usize)),
                    Err(fault) => Err(fault),
                }
            },
            Err(fault) => Err(fault),
        }
    }
}

/// A fault among the first files is the fault of the whole.
proof fn lemma_listed_stops(files: Seq<WalkedFile>, all: bool, upto: int)
    requires
        0 <= upto <= files.len(),
    ensures
        listed(files.take(upto), all) is Err ==> listed(files, all) == listed(files.take(upto), all),
    decreases files.len() - upto,
{
    if upto < files.len() {
        assert(files.take(upto + 1).drop_last() =~= files.take(upto));
        lemma_listed_stops(files, all, upto + 1);
    } else {
        assert(files.take(upto) =~= files);
    }
}

/// Picks the notes to list from the files of a walk, and returns their places in
/// `files`, in the order of the walk.
pub fn get_notes(files: &Vec<WalkedFile>, all: bool) -> (notes: Result<
    Vec<usize>,
    FrontmatterError,
>)
    ensures
        match notes {
            Ok(places) => listed(files@, all) == Ok::<_, Fault>(places@),
            Err(e) => listed(files@, all) == Err::<Seq<usize>, _>(e.fault()),
        },
{
    let mut places: Vec<usize> = Vec::new();
    let mut at: usize = 0;
    while at < files.len()
        invariant
            at <= files.len(),
            listed(files@.take(at as int), all) == Ok::<_, Fault>(places@),
        decreases files.len() - at,
    {
        let file = &files[at];
        proof {
            let seen = files@.take(at + 1);
            assert(seen.drop_last() =~= files@.take(at as int));
            assert(seen.last() == files@[at as int]);
            lemma_listed_stops(files@, all, at + 1);
        }
        if is_note_path(file.path.as_str(), file.canonical_path.as_str()) {
            if all {
                places.push(at);
            } else {
                match is_spaced(file.text.as_str()) {
                    Ok(true) => {},
                    Ok(false) => {
                        places.push(at);
                    },
                    Err(e) => {
                        return Err(e);
                    },
                }
            }
        }
        at = at + 1;
    }
    assert(files@.take(at as int) =~= files@);
    Ok(places)
}

} // verus!
