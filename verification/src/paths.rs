//! Paths as texts: the segments between slashes, and the extension of the file
//! name.

use vstd::prelude::*;
use crate::text::{chars_of, matches_at, occurs_at};

verus! {

/// A file that the walk of a directory came by: its path as the walk gave it, its
/// path made canonical, and its text.
#[derive(Debug)]
pub struct WalkedFile {
    pub path: String,
    pub canonical_path: String,
    pub text: String,
}

/// Whether a segment of `path` begins at `at` and is exactly `name`.
pub open spec fn segment_at(path: Seq<char>, name: Seq<char>, at: int) -> bool {
    &&& occurs_at(path, name, at)
    &&& (at == 0 || path[at - 1] == '/')
    &&& (at + name.len() == path.len() || path[at + name.len()] == '/')
}

/// Whether one of the segments of `path` is exactly `name`.
pub open spec fn has_segment(path: Seq<char>, name: Seq<char>) -> bool {
    exists|at: int| segment_at(path, name, at)
}

/// The place of the last `c` in `s`, or -1 where there is none.
pub open spec fn last_index(s: Seq<char>, c: char) -> int
    decreases s.len(),
{
    if s.len() == 0 {
        -1
    } else if s.last() == c {
        s.len() - 1
    } else {
        last_index(s.drop_last(), c)
    }
}

/// The extension of the file that `path` names: what follows the last dot of the
/// file name, where the name has a dot that is not its first character. The file
/// name is what follows the last slash.
pub open spec fn extension_of(path: Seq<char>) -> Option<Seq<char>> {
    let dot = last_index(path, '.');
    let slash = last_index(path, '/');
    if dot > slash + 1 {
        Some(path.subrange(dot + 1, path.len() as int))
    } else {
        None
    }
}

/// Whether `path` names a file with the extension `extension`.
pub open spec fn has_extension(path: Seq<char>, extension: Seq<char>) -> bool {
    extension_of(path) == Some(extension)
}

/// Finds the last `c` in `s`; the length of `s` stands for "none".
fn find_last(s: &Vec<char>, c: char) -> (place: usize)
    ensures
        place <= s.len(),
        place < s.len() ==> last_index(s@, c) == place,
        place == s.len() ==> last_index(s@, c) == -1,
{
    let mut end: usize = s.len();
    assert(s@.take(end as int) =~= s@);
    while end > 0
        invariant
            end <= s.len(),
            last_index(s@, c) == last_index(s@.take(end as int), c),
        decreases end,
    {
        if s[end - 1] == c {
            return end - 1;
        }
        assert(s@.take(end as int).drop_last() =~= s@.take(end - 1));
        end = end - 1;
    } 
    assert(s@.take(s.len() as int) =~= s@) ;
    s.len()
}

/// Whether one of the segments of `path` is exactly `name`.
pub fn path_has_segment(path: &str, name: &str) -> (found: bool)
    ensures
        found == has_segment(path@, name@),
{
    let whole = chars_of(path);
    let part = chars_of(name);
    if part.len() > whole.len() {
        assert forall|j: int| !segment_at(path@, name@, j) by {}
        return false;
    }
    let last = whole.len() - part.len();
    let mut at: usize = 0;
    loop
        invariant
            whole@ == path@,
            part@ == name@,
            last == whole.len() - part.len(),
            at <= last,
            forall|j: int| 0 <= j < at ==> !segment_at(path@, name@, j),
        decreases last - at,
    {
        if matches_at(&whole, &part, at) && (at == 0 || whole[at - 1] == '/') && (at == last
            || whole[at + part.len()] == '/') {
            assert(segment_at(path@, name@, at as int));
            return true;
        }
        if at == last {
            assert forall|j: int| !segment_at(path@, name@, j) by {}
            return false;
        }
        at = at + 1;
    }
}

/// Whether `path` names a file with the extension `extension`.
pub fn path_has_extension(path: &str, extension: &str) -> (found: bool)
    ensures
        found == has_extension(path@, extension@),
{
    let path = chars_of(path);
    let extension = chars_of(extension);
    let dot = find_last(&path, '.');
    let slash = find_last(&path, '/');
    if dot == path.len() {
        return false;
    }
    if slash < path.len() && dot <= slash + 1 {
        return false;
    }
    if slash == path.len() && dot == 0 {
        return false;
    }
    let found = path.len() - (dot + 1) == extension.len() && matches_at(&path, &extension, dot + 1);
    found
}

} // verus!
