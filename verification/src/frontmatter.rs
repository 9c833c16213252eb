//! The split of a card's file into a metadata block and a body.
//!
//! A file may open with a block of metadata between two lines that hold `---` and
//! nothing else. What follows the block, less one blank line, is the body. A file
//! that does not open with such a line, or in which the block is never closed, is
//! all body. Lines end in a line feed, which a carriage return may precede.
//!
//! The split loses nothing: the block is handed on with the line endings it has
//! in the file, the body is the rest of the file character for character, and a
//! file composed from a block and a body splits into the same two.

use vstd::prelude::*;
use crate::error::{Fault, FrontmatterError};
use crate::text::{chars_of, slice_text};
use crate::yaml::{
    error_message,
    mapping_text,
    parse_mapping,
    yaml_parse,
    yaml_text,
    Metadata,
    Node,
};

verus! {

/// The length of the line ending that stands at `q`: 1 for a line feed, 2 for a
/// carriage return with a line feed, 0 where there is neither.
pub open spec fn line_ending(s: Seq<char>, q: int) -> int {
    if 0 <= q < s.len() && s[q] == '\n' {
        1
    } else if 0 <= q && q + 1 < s.len() && s[q] == '\r' && s[q + 1] == '\n' {
        2
    } else {
        0
    }
}

/// Whether a line begins at `p`.
pub open spec fn line_start(s: Seq<char>, p: int) -> bool {
    p == 0 || (0 < p <= s.len() && s[p - 1] == '\n')
}

/// Whether the line that begins at `p` is a delimiter: `---`, then the end of the
/// line or of the text.
pub open spec fn delimiter_at(s: Seq<char>, p: int) -> bool {
    &&& 0 <= p
    &&& p + 3 <= s.len()
    &&& line_start(s, p)
    &&& s[p] == '-'
    &&& s[p + 1] == '-'
    &&& s[p + 2] == '-'
    &&& (p + 3 == s.len() || line_ending(s, p + 3) > 0)
}

/// The position after the delimiter line at `p`.
pub open spec fn past_delimiter(s: Seq<char>, p: int) -> int {
    p + 3 + line_ending(s, p + 3)
}

/// The first delimiter line at or after `from`, if there is one.
pub open spec fn next_delimiter(s: Seq<char>, from: int) -> Option<int>
    decreases s.len() - from,
{
    if from < 0 || from >= s.len() {
        None
    } else if delimiter_at(s, from) {
        Some(from)
    } else {
        next_delimiter(s, from + 1)
    }
}

/// Where a text divides: the metadata block stands in `block_from..block_to`, the
/// body begins at `body_from`.
pub struct Division {
    pub block_from: int,
    pub block_to: int,
    pub body_from: int,
}

/// How `s` divides, or `None` where it has no metadata block: where it does not
/// open with a delimiter line, or no second delimiter line closes the block.
pub open spec fn division(s: Seq<char>) -> Option<Division> {
    if delimiter_at(s, 0) && line_ending(s, 3) > 0 {
        let from = past_delimiter(s, 0);
        match next_delimiter(s, from) {
            Some(to) => {
                let rest = past_delimiter(s, to);
                Some(
                    Division {
                        block_from: from,
                        block_to: to,
                        body_from: rest + line_ending(s, rest),
                    },
                )
            },
            None => None,
        }
    } else {
        None
    }
}

/// The text of the metadata block of `s`: its lines, each with its line ending.
pub open spec fn block_of(s: Seq<char>) -> Option<Seq<char>> {
    match division(s) {
        Some(d) => Some(s.subrange(d.block_from, d.block_to)),
        None => None,
    }
}

/// The body of `s`: what follows the metadata block and at most one blank line
/// after it, or all of `s` where it has no block.
pub open spec fn body_of(s: Seq<char>) -> Seq<char> {
    match division(s) {
        Some(d) => s.subrange(d.body_from, s.len() as int),
        None => s,
    }
}

/// The line that opens a block.
pub open spec fn opening() -> Seq<char> {
    seq!['-', '-', '-', '\n']
}

/// The line that closes a block, and the blank line after it.
pub open spec fn closing() -> Seq<char> {
    seq!['-', '-', '-', '\n', '\n']
}

/// The file that holds `block` as its metadata and `body` as its body.
pub open spec fn composed(block: Seq<char>, body: Seq<char>) -> Seq<char> {
    opening() + block + closing() + body
}

/// Whether `block` can stand between two delimiter lines: its last line is ended,
/// and none of its lines is a delimiter.
pub open spec fn framable(block: Seq<char>) -> bool {
    &&& block.len() > 0 ==> block.last() == '\n'
    &&& forall|p: int| 0 <= p < block.len() ==> !delimiter_at(block, p)
}

/// No delimiter line between `from` and `to`: the search for one goes on at `to`.
proof fn lemma_next_delimiter_skips(s: Seq<char>, from: int, to: int)
    requires
        0 <= from <= to <= s.len(),
        forall|p: int| from <= p < to ==> !delimiter_at(s, p),
    ensures
        next_delimiter(s, from) == next_delimiter(s, to),
    decreases to - from,
{
    if from < to {
        lemma_next_delimiter_skips(s, from + 1, to);
    }
}

/// A composed file splits into the block and the body it was composed from.
pub proof fn lemma_split_composed(block: Seq<char>, body: Seq<char>)
    requires
        framable(block),
    ensures
        block_of(composed(block, body)) == Some(block),
        body_of(composed(block, body)) == body,
{
    let s = composed(block, body);
    let n = block.len() as int;
    assert(s.len() == 4 + n + 5 + body.len());
    assert(s[0] == '-' && s[1] == '-' && s[2] == '-' && s[3] == '\n');
    assert(forall|k: int| 0 <= k < n ==> s[4 + k] == block[k]);
    assert(s[4 + n] == '-' && s[5 + n] == '-' && s[6 + n] == '-' && s[7 + n] == '\n' && s[8 + n]
        == '\n');
    assert(forall|k: int| 0 <= k < body.len() ==> s[9 + n + k] == body[k]);
    assert(delimiter_at(s, 0));
    assert(line_ending(s, 3) == 1);
    assert(past_delimiter(s, 0) == 4);
    assert forall|p: int| 4 <= p < 4 + n implies !delimiter_at(s, p) by {
        if delimiter_at(s, p) {
            let q = p - 4;
            assert(block[n - 1] == '\n');
            assert(q + 3 <= n);
            assert(line_start(block, q));
            assert(q + 3 < n);
            if block[q + 3] == '\n' {
                assert(line_ending(block, q + 3) == 1);
            } else {
                assert(s[p + 3] == '\r');
                assert(q + 4 < n);
                assert(line_ending(block, q + 3) == 2);
            }
            assert(delimiter_at(block, q));
        }
    }
    lemma_next_delimiter_skips(s, 4, 4 + n);
    assert(delimiter_at(s, 4 + n));
    assert(next_delimiter(s, 4 + n) == Some(4 + n));
    assert(past_delimiter(s, 4 + n) == 8 + n);
    assert(line_ending(s, 8 + n) == 1);
    let d = division(s).unwrap();
    assert(d.block_from == 4 && d.block_to == 4 + n && d.body_from == 9 + n);
    assert(s.subrange(4, 4 + n) =~= block);
    assert(s.subrange(9 + n, s.len() as int) =~= body);
}

/// The length of the line ending that stands at `q`.
fn line_ending_at(chars: &Vec<char>, q: usize) -> (len: usize)
    ensures
        len == line_ending(chars@, q as int),
        len <= 2,
        len > 0 ==> q + len <= chars.len(),
{
    if q < chars.len() && chars[q] == '\n' {
        1
    } else if q < chars.len() && chars.len() - q > 1 && chars[q] == '\r' && chars[q + 1] == '\n' {
        2
    } else {
        0
    }
}

/// Whether the line that begins at `p` is a delimiter.
fn is_delimiter_at(chars: &Vec<char>, p: usize) -> (yes: bool)
    ensures
        yes == delimiter_at(chars@, p as int),
{
    if chars.len() < 3 || p > chars.len() - 3 {
        return false;
    }
    if p > 0 && chars[p - 1] != '\n' {
        return false;
    }
    if chars[p] != '-' || chars[p + 1] != '-' || chars[p + 2] != '-' {
        return false;
    }
    p + 3 == chars.len() || line_ending_at(chars, p + 3) > 0
}

/// Finds the first delimiter line at or after `from`.
fn find_delimiter(chars: &Vec<char>, from: usize) -> (found: Option<usize>)
    ensures
        match found {
            Some(p) => next_delimiter(chars@, from as int) == Some(p as int) && from <= p
                && delimiter_at(chars@, p as int),
            None => next_delimiter(chars@, from as int) is None,
        },
{
    let mut at: usize = from;
    while at < chars.len()
        invariant
            from <= at,
            next_delimiter(chars@, from as int) == next_delimiter(chars@, at as int),
        decreases chars.len() - at,
    {
        if is_delimiter_at(chars, at) {
            return Some(at);
        }
        at = at + 1;
    }
    None
}

/// Where a text divides, in positions that fit the machine.
struct Bounds {
    block_from: usize,
    block_to: usize,
    body_from: usize,
}

/// Finds the metadata block and the start of the body.
fn divide(chars: &Vec<char>) -> (found: Option<Bounds>)
    ensures
        match found {
            Some(b) => division(chars@) == Some(
                Division {
                    block_from: b.block_from as int,
                    block_to: b.block_to as int,
                    body_from: b.body_from as int,
                },
            ) && b.block_from <= b.block_to <= b.body_from <= chars.len(),
            None => division(chars@) is None,
        },
{
    if !is_delimiter_at(chars, 0) {
        return None;
    }
    let first = line_ending_at(chars, 3);
    if first == 0 {
        return None;
    }
    let from = 3 + first;
    match find_delimiter(chars, from) {
        Some(to) => {
            assert(to + 3 <= chars.len());
            let rest = to + 3 + line_ending_at(chars, to + 3);
            let body_from = rest + line_ending_at(chars, rest);
            Some(Bounds { block_from: from, block_to: to, body_from })
        },
        None => None,
    }
}

/// The text of the metadata block of `text`, if it has one.
pub fn frontmatter_text(text: &str) -> (block: Option<String>)
    ensures
        match block {
            Some(b) => block_of(text@) == Some(b@),
            None => block_of(text@) is None,
        },
{
    let chars = chars_of(text);
    match divide(&chars) {
        Some(b) => Some(slice_text(text, b.block_from, b.block_to)),
        None => None,
    }
}

/// The body of `text`: what follows its metadata block, less one blank line, or
/// all of it where it has no block.
pub fn read_body(text: &str) -> (body: String)
    ensures
        body@ == body_of(text@),
{
    let chars = chars_of(text);
    match divide(&chars) {
        Some(b) => slice_text(text, b.body_from, chars.len()),
        None => {
            assert(text@.subrange(0, text@.len() as int) =~= text@);
            slice_text(text, 0, chars.len())
        },
    }
}

/// Both parts of `text` in one pass: the text of its metadata block, if it has
/// one, and its body.
pub fn split_text(text: &str) -> (parts: (Option<String>, String))
    ensures
        match parts.0 {
            Some(b) => block_of(text@) == Some(b@),
            None => block_of(text@) is None,
        },
        parts.1@ == body_of(text@),
{
    let chars = chars_of(text);
    match divide(&chars) {
        Some(b) => (
            Some(slice_text(text, b.block_from, b.block_to)),
            slice_text(text, b.body_from, chars.len()),
        ),
        None => {
            assert(text@.subrange(0, text@.len() as int) =~= text@);
            (None, slice_text(text, 0, chars.len()))
        },
    }
}

/// Whether `block` can stand between two delimiter lines.
pub fn is_framable(block: &str) -> (yes: bool)
    ensures
        yes == framable(block@),
{
    let chars = chars_of(block);
    if chars.len() > 0 && chars[chars.len() - 1] != '\n' {
        return false;
    }
    match find_delimiter(&chars, 0) {
        Some(p) => false,
        None => {
            proof {
                lemma_no_delimiter(chars@, 0);
            }
            true
        },
    }
}

/// Where the search finds nothing, no line is a delimiter.
proof fn lemma_no_delimiter(s: Seq<char>, from: int)
    requires
        0 <= from,
        next_delimiter(s, from) is None,
    ensures
        forall|p: int| from <= p < s.len() ==> !delimiter_at(s, p),
    decreases s.len() - from,
{
    if from < s.len() {
        lemma_no_delimiter(s, from + 1);
    }
}

/// Composes the file that holds `block` as its metadata and `body` as its body.
pub fn compose(block: &str, body: &str) -> (file: String)
    ensures
        file@ == composed(block@, body@),
{
    proof {
        reveal_strlit("---\n");
        reveal_strlit("---\n\n");
    }
    let mut file = String::from_str("---\n");
    assert(file@ =~= opening());
    file.append(block);
    file.append("---\n\n");
    assert("---\n\n"@ =~= closing());
    file.append(body);
    file
}

/// The mapping that a metadata block holds: what `serde_yaml` reads from its
/// text, or a parse fault where it reads no mapping.
pub open spec fn mapping_of(block: Seq<char>) -> Result<Seq<(Node, Node)>, Fault> {
    match yaml_parse(block) {
        Some(entries) => Ok(entries),
        None => Err(Fault::Parse),
    }
}

/// The metadata of a file: the mapping that its block holds, or no entry at all
/// where it has no block.
pub open spec fn metadata_of(s: Seq<char>) -> Result<Seq<(Node, Node)>, Fault> {
    match block_of(s) {
        Some(block) => mapping_of(block),
        None => Ok(Seq::empty()),
    }
}

/// The file that holds `entries` as its metadata and `body` as its body: the text
/// that `serde_yaml` writes for the entries, between delimiter lines, then a blank
/// line and the body. There is none where `serde_yaml` writes no text, or writes
/// one that cannot stand between delimiter lines.
pub open spec fn file_of(entries: Seq<(Node, Node)>, body: Seq<char>) -> Result<Seq<char>, Fault> {
    match yaml_text(entries) {
        Some(block) => if framable(block) {
            Ok(composed(block, body))
        } else {
            Err(Fault::Serialize)
        },
        None => Err(Fault::Serialize),
    }
}

/// A file that was written reads back as it was written: its body is the body
/// that went in, character for character, and its metadata is what `serde_yaml`
/// reads from the very text that it wrote for the metadata that went in.
pub proof fn lemma_written_reads_back(entries: Seq<(Node, Node)>, body: Seq<char>)
    requires
        file_of(entries, body) is Ok,
    ensures
        body_of(file_of(entries, body)->Ok_0) == body,
        block_of(file_of(entries, body)->Ok_0) == yaml_text(entries),
        metadata_of(file_of(entries, body)->Ok_0) == mapping_of(yaml_text(entries)->Some_0),
{
    lemma_split_composed(yaml_text(entries)->Some_0, body);
}

/// Reads the mapping of a metadata block.
fn read_block(block: &str) -> (read: Result<Metadata, FrontmatterError>)
    ensures
        match read {
            Ok(metadata) => mapping_of(block@) == Ok::<_, Fault>(metadata@),
            Err(e) => mapping_of(block@) == Err::<Seq<(Node, Node)>, _>(e.fault()),
        },
{
    match parse_mapping(block) {
        Ok(metadata) => Ok(metadata),
        Err(e) => Err(FrontmatterError::ParseError(error_message(&e))),
    }
}

/// Reads the metadata of a file. A file without a metadata block has none; a
/// block that is no well-formed mapping is an error.
pub fn read_fm(text: &str) -> (read: Result<Metadata, FrontmatterError>)
    ensures
        match read {
            Ok(metadata) => metadata_of(text@) == Ok::<_, Fault>(metadata@),
            Err(e) => metadata_of(text@) == Err::<Seq<(Node, Node)>, _>(e.fault()),
        },
{
    match frontmatter_text(text) {
        Some(block) => read_block(block.as_str()),
        None => Ok(Metadata::new()),
    }
}

/// Reads the metadata and the body of a file in one pass. Both are what
/// [`read_fm`] and [`read_body`] give.
pub fn read_fm_and_body(text: &str) -> (read: Result<(Metadata, String), FrontmatterError>)
    ensures
        match read {
            Ok(parts) => metadata_of(text@) == Ok::<_, Fault>(parts.0@) && parts.1@ == body_of(
                text@,
            ),
            Err(e) => metadata_of(text@) == Err::<Seq<(Node, Node)>, _>(e.fault()),
        },
{
    let (block, body) = split_text(text);
    match block {
        Some(block) => match read_block(block.as_str()) {
            Ok(metadata) => Ok((metadata, body)),
            Err(e) => Err(e),
        },
        None => Ok((Metadata::new(), body)),
    }
}

/// Writes a file that holds `fm` as its metadata and `body` as its body. The text
/// that `serde_yaml` gives for the metadata is checked before it is framed, so
/// that what is written splits again into that text and `body`.
pub fn write_fm_and_body(fm: &Metadata, body: &str) -> (written: Result<String, FrontmatterError>)
    ensures
        match written {
            Ok(file) => file_of(fm@, body@) == Ok::<_, Fault>(file@),
            Err(e) => file_of(fm@, body@) == Err::<Seq<char>, _>(e.fault()),
        },
{
    match mapping_text(fm) {
        Ok(block) => {
            if is_framable(block.as_str()) {
                Ok(compose(block.as_str(), body))
            } else {
                Err(
                    FrontmatterError::SerializeError(
                        String::from_str("the metadata holds a line that reads as a delimiter"),
                    ),
                )
            }
        },
        Err(e) => Err(FrontmatterError::SerializeError(error_message(&e))),
    }
}

} // verus!
