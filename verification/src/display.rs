//! The text of a card as it is shown.
//!
//! The body of a card is a run of sides with a line of three hyphens between
//! them. A card is shown side by side: with side `n` on screen, the sides up to
//! `n` stand one after the other, separated as they are in the file. Comments are
//! taken out, and each line is wrapped to the width of the terminal.
//!
//! Finding the comments is left to `regex`, wrapping a line to `textwrap`.

use vstd::prelude::*;
use crate::text::{chars_of, matches_at, occurs_at, slice_text};

verus! {

/// The first place at or after `from` where `pattern` stands in `s`.
pub open spec fn first_match(s: Seq<char>, pattern: Seq<char>, from: int) -> Option<int>
    decreases s.len() - from,
{
    if from < 0 || from + pattern.len() > s.len() {
        None
    } else if occurs_at(s, pattern, from) {
        Some(from)
    } else if from < s.len() {
        first_match(s, pattern, from + 1)
    } else {
        None
    }
}

/// The pieces into which the separator `sep` divides what `s` holds from `from`
/// on: the separator is looked for from left to right, and what stands between
/// two finds is a piece, be it empty. A text without the separator is one piece.
pub open spec fn pieces_from(s: Seq<char>, sep: Seq<char>, from: int) -> Seq<Seq<char>>
    decreases s.len() - from,
{
    match first_match(s, sep, from) {
        Some(at) => if sep.len() > 0 && 0 <= from <= at && at + sep.len() <= s.len() {
            seq![s.subrange(from, at)] + pieces_from(s, sep, at + sep.len())
        } else {
            seq![s.subrange(from, s.len() as int)]
        },
        None => seq![s.subrange(from, s.len() as int)],
    }
}

/// The pieces into which `sep` divides `s`.
pub open spec fn pieces(s: Seq<char>, sep: Seq<char>) -> Seq<Seq<char>> {
    pieces_from(s, sep, 0)
}

/// The parts one after the other, with `sep` between each two.
pub open spec fn joined(parts: Seq<Seq<char>>, sep: Seq<char>) -> Seq<char>
    decreases parts.len(),
{
    if parts.len() == 0 {
        Seq::empty()
    } else if parts.len() == 1 {
        parts[0]
    } else {
        joined(parts.drop_last(), sep) + sep + parts.last()
    }
}

/// What a list of texts holds.
pub open spec fn texts(list: Seq<String>) -> Seq<Seq<char>> {
    Seq::new(list.len(), |i: int| list[i]@)
}

/// The line that stands between two sides of a card.
pub open spec fn side_separator() -> Seq<char> {
    "\n---\n"@
}

/// The sides of a card with the body `body`. There is always one.
pub open spec fn sides_of(body: Seq<char>) -> Seq<Seq<char>> {
    pieces(body, side_separator())
}

/// What the search finds is a match at or after its start, and the first one.
pub proof fn lemma_first_match(s: Seq<char>, pattern: Seq<char>, from: int)
    requires
        0 <= from,
    ensures
        match first_match(s, pattern, from) {
            Some(at) => from <= at && occurs_at(s, pattern, at) && forall|j: int|
                from <= j < at ==> !occurs_at(s, pattern, j),
            None => forall|j: int| from <= j ==> !occurs_at(s, pattern, j),
        },
    decreases s.len() - from,
{
    if from + pattern.len() <= s.len() && !occurs_at(s, pattern, from) && from < s.len() {
        lemma_first_match(s, pattern, from + 1);
    }
}

/// A text divides into at least one piece.
pub proof fn lemma_pieces_exist(s: Seq<char>, sep: Seq<char>, from: int)
    ensures
        pieces_from(s, sep, from).len() >= 1,
{
}

/// A part put before a list of parts is joined to them by the separator.
pub proof fn lemma_joined_front(first: Seq<char>, rest: Seq<Seq<char>>, sep: Seq<char>)
    requires
        rest.len() >= 1,
    ensures
        joined(seq![first] + rest, sep) == first + sep + joined(rest, sep),
    decreases rest.len(),
{
    let all = seq![first] + rest;
    if rest.len() == 1 {
        assert(all.drop_last() =~= seq![first]);
        assert(joined(all.drop_last(), sep) == first);
        assert(all.last() == rest[0]);
    } else {
        assert(all.drop_last() =~= seq![first] + rest.drop_last());
        lemma_joined_front(first, rest.drop_last(), sep);
        assert(all.last() == rest.last());
        assert(joined(all, sep) =~= first + sep + joined(rest, sep));
    }
}

/// Dividing a text loses nothing: its pieces, joined by the separator, are the
/// text.
pub proof fn lemma_joined_pieces(s: Seq<char>, sep: Seq<char>, from: int)
    requires
        0 <= from <= s.len(),
    ensures
        joined(pieces_from(s, sep, from), sep) == s.subrange(from, s.len() as int),
    decreases s.len() - from,
{
    lemma_first_match(s, sep, from);
    match first_match(s, sep, from) {
        Some(at) => {
            if sep.len() > 0 {
                let rest = pieces_from(s, sep, at + sep.len());
                lemma_joined_pieces(s, sep, at + sep.len());
                lemma_pieces_exist(s, sep, at + sep.len());
                lemma_joined_front(s.subrange(from, at), rest, sep);
                assert(s.subrange(from, at) + sep + s.subrange(at + sep.len(), s.len() as int)
                    =~= s.subrange(from, s.len() as int));
            }
        },
        None => {},
    }
}

/// The sides of a card, joined by the separator, are its body.
pub proof fn lemma_sides_hold_body(body: Seq<char>)
    ensures
        joined(sides_of(body), side_separator()) == body,
        sides_of(body).len() >= 1,
{
    lemma_joined_pieces(body, side_separator(), 0);
    assert(body.subrange(0, body.len() as int) =~= body);
}

/// Finds the first place at or after `from` where `pattern` stands in `s`.
fn find(s: &Vec<char>, pattern: &Vec<char>, from: usize) -> (found: Option<usize>)
    ensures
        match found {
            Some(at) => first_match(s@, pattern@, from as int) == Some(at as int) && from <= at
                && at + pattern.len() <= s.len(),
            None => first_match(s@, pattern@, from as int) is None,
        },
{
    if pattern.len() > s.len() || from > s.len() - pattern.len() {
        return None;
    }
    let last = s.len() - pattern.len();
    let mut at: usize = from;
    loop
        invariant
            last == s.len() - pattern.len(),
            from <= at <= last,
            first_match(s@, pattern@, from as int) == first_match(s@, pattern@, at as int),
        decreases last - at,
    {
        if matches_at(s, pattern, at) {
            return Some(at);
        }
        if at == last {
            assert(first_match(s@, pattern@, at + 1) is None);
            return None;
        }
        at = at + 1;
    }
}

/// Divides `text` at every `sep`.
pub fn split_on(text: &str, sep: &str) -> (parts: Vec<String>)
    ensures
        texts(parts@) == pieces(text@, sep@),
        parts.len() >= 1,
{
    let s = chars_of(text);
    let pattern = chars_of(sep);
    let mut parts: Vec<String> = Vec::new();
    let mut from: usize = 0;
    loop
        invariant
            s@ == text@,
            pattern@ == sep@,
            from <= s.len(),
            pieces(text@, sep@) == texts(parts@) + pieces_from(text@, sep@, from as int),
        decreases s.len() - from,
    {
        let found = if pattern.len() > 0 {
            find(&s, &pattern, from)
        } else {
            proof {
                lemma_first_match(s@, pattern@, from as int);
            }
            None
        };
        match found {
            Some(at) => {
                let ghost before = texts(parts@);
                parts.push(slice_text(text, from, at));
                assert(texts(parts@) =~= before + seq![text@.subrange(from as int, at as int)]);
                assert(before + (seq![text@.subrange(from as int, at as int)] + pieces_from(
                    text@,
                    sep@,
                    at + pattern.len(),
                )) =~= texts(parts@) + pieces_from(text@, sep@, at + pattern.len()));
                from = at + pattern.len();
            },
            None => {
                let ghost before = texts(parts@);
                parts.push(slice_text(text, from, s.len()));
                assert(texts(parts@) =~= before + seq![text@.subrange(from as int, s.len() as int)]);
                return parts;
            },
        }
    }
}

/// The sides of a card with the body `body`.
pub fn sides(body: &str) -> (parts: Vec<String>)
    ensures
        texts(parts@) == sides_of(body@),
        parts.len() >= 1,
{
    split_on(body, "\n---\n")
}

/// Joins the first `count` of `parts`, or all of them where they are fewer, with
/// `sep` between each two.
pub fn join(parts: &Vec<String>, count: usize, sep: &str) -> (whole: String)
    ensures
        whole@ == joined(
            texts(parts@).take(
                if count <= parts.len() {
                    count as int
                } else {
                    parts.len() as int
                },
            ),
            sep@,
        ),
{
    let count = if count <= parts.len() {
        count
    } else {
        parts.len()
    };
    let mut whole = String::new();
    let mut at: usize = 0;
    while at < count
        invariant
            at <= count <= parts.len(),
            whole@ == joined(texts(parts@).take(at as int), sep@),
        decreases count - at,
    {
        proof {
            let seen = texts(parts@).take(at + 1);
            assert(seen.drop_last() =~= texts(parts@).take(at as int));
            assert(seen.last() == parts@[at as int]@);
        }
        if at > 0 {
            whole.append(sep);
        }
        whole.append(parts[at].as_str());
        proof {
            if at == 0 {
                assert(whole@ =~= parts@[0]@);
            }
        }
        at = at + 1;
    }
    whole
}

/// What `text` is without the matches of the regular expression `pattern`, as
/// `regex` finds them; `None` where `pattern` is no regular expression.
pub uninterp spec fn without_matches(pattern: Seq<char>, text: Seq<char>) -> Option<Seq<char>>;

/// The lines into which `textwrap` wraps `line` for a terminal `width` columns
/// wide.
pub uninterp spec fn wrapped(line: Seq<char>, width: usize) -> Seq<Seq<char>>;

/// Builds the regular expression with `Regex::new` and replaces each of its
/// matches by nothing with `Regex::replace_all`. The result is a function of the
/// two texts alone; [`without_matches`] is its name.
#[verifier::external_body]
fn remove_matches(pattern: &str, text: &str) -> (left: Option<String>)
    ensures
        match left {
            Some(rest) => without_matches(pattern@, text@) == Some(rest@),
            None => without_matches(pattern@, text@) is None,
        },
{
    regex::Regex::new(pattern).ok().map(|re| re.replace_all(text, "").into_owned())
}

/// Calls `textwrap::wrap` with a width and no other option. The result is a
/// function of the line and the width alone; [`wrapped`] is its name.
#[verifier::external_body]
fn wrap_line(line: &str, width: usize) -> (lines: Vec<String>)
    ensures
        texts(lines@) == wrapped(line@, width),
{
    textwrap::wrap(line, width).into_iter().map(|l| l.into_owned()).collect()
}

/// A comment: from `<!--` to the next `-->`, with up to two line feeds after it.
pub open spec fn comment_pattern() -> Seq<char> {
    "<!--([^-]|-[^-]|--[^>])*-->\n{0,2}"@
}

/// The end of a line on a terminal in raw mode.
pub open spec fn line_break() -> Seq<char> {
    "\r\n"@
}

/// Each of `lines` wrapped to `width` columns, its wrapped lines joined by a line
/// break.
pub open spec fn wrapped_lines(lines: Seq<Seq<char>>, width: usize) -> Seq<Seq<char>> {
    Seq::new(lines.len(), |i: int| joined(wrapped(lines[i], width), line_break()))
}

/// The text without its comments, every line wrapped to `width` columns, with a
/// line break after each line but the last.
pub open spec fn laid_out(text: Seq<char>, width: usize) -> Option<Seq<char>> {
    match without_matches(comment_pattern(), text) {
        Some(rest) => Some(joined(wrapped_lines(pieces(rest, "\n"@), width), line_break())),
        None => None,
    }
}

/// The sides of a card that are on screen when side `side` is shown: the sides up
/// to it, one after the other as they stand in the file.
pub open spec fn shown_sides(parts: Seq<Seq<char>>, side: int) -> Seq<char> {
    joined(
        parts.take(
            if side + 1 <= parts.len() {
                side + 1
            } else {
                parts.len() as int
            },
        ),
        side_separator(),
    )
}

/// Lays out a text for the screen: takes out the comments and wraps every line to
/// `width` columns.
pub fn lay_out(text: &str, width: usize) -> (screen: Option<String>)
    ensures
        match screen {
            Some(shown) => laid_out(text@, width) == Some(shown@),
            None => laid_out(text@, width) is None,
        },
{
    let rest = match remove_matches("<!--([^-]|-[^-]|--[^>])*-->\n{0,2}", text) {
        Some(rest) => rest,
        None => {
            return None;
        },
    };
    let lines = split_on(rest.as_str(), "\n");
    let mut done: Vec<String> = Vec::new();
    let mut at: usize = 0;
    while at < lines.len()
        invariant
            at <= lines.len(),
            texts(done@) == wrapped_lines(texts(lines@), width).take(at as int),
        decreases lines.len() - at,
    {
        let parts = wrap_line(lines[at].as_str(), width);
        let line = join(&parts, parts.len(), "\r\n");
        assert(texts(parts@).take(parts.len() as int) =~= texts(parts@));
        let ghost before = texts(done@);
        done.push(line);
        assert(texts(done@) =~= before.push(line@));
        assert(texts(done@) =~= wrapped_lines(texts(lines@), width).take(at + 1));
        at = at + 1;
    }
    assert(wrapped_lines(texts(lines@), width).take(at as int) =~= wrapped_lines(
        texts(lines@),
        width,
    ));
    let screen = join(&done, done.len(), "\r\n");
    assert(texts(done@).take(done.len() as int) =~= texts(done@));
    Some(screen)
}

/// The text of a card for the screen, with its sides up to `side` shown, on a
/// terminal `width` columns wide. `sides` are the sides of the card.
pub fn print_card(sides: &Vec<String>, side: usize, width: usize) -> (screen: Option<String>)
    ensures
        match screen {
            Some(shown) => laid_out(shown_sides(texts(sides@), side as int), width) == Some(shown@),
            None => laid_out(shown_sides(texts(sides@), side as int), width) is None,
        },
{
    let count = if side < sides.len() {
        side + 1
    } else {
        sides.len()
    };
    let text = join(sides, count, "\n---\n");
    lay_out(text.as_str(), width)
}

} // verus!
