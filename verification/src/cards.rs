//! Cards: their review history, their archive flag, and which of them are due.
//!
//! A card is a file. Its metadata holds its history under `reviews`, a sequence
//! of mappings with a `date` and a `remembered` flag, oldest first, and may hold
//! an `archived` flag. Every change to a card is a change to the text of its
//! file: the functions here take the text and return the new text, and leave
//! reading and writing the file to the caller.

use vstd::prelude::*;
use crate::algorithms::{due, leitner_on, ReviewEvent};
use crate::calendar::{
    clock_day,
    date_error_message,
    date_of_text,
    day_pattern,
    format_date,
    parse_date,
    text_of_date,
};
use crate::error::{Fault, FrontmatterError, ReviewHistoryError};
use crate::frontmatter::{
    body_of,
    file_of,
    lemma_written_reads_back,
    metadata_of,
    read_fm,
    read_fm_and_body,
    write_fm_and_body,
};
use crate::paths::{
    has_extension,
    has_segment,
    path_has_extension,
    path_has_segment,
    WalkedFile,
};
use crate::text::same_text;
use crate::yaml::{
    find_entry,
    find_key,
    lemma_find_key,
    lemma_mapping_view,
    lemma_sequence_view,
    lemma_with_entry,
    nodes,
    pairs,
    value_of,
    with_entry,
    without_entry,
    Metadata,
    Node,
    Yaml,
};

verus! {

/// The review that a mapping records: its `date`, a text that reads as a day, and
/// its `remembered` flag.
pub open spec fn event_of(item: Node) -> Result<ReviewEvent, Fault> {
    match item {
        Node::Mapping(fields) => match value_of(fields, "date"@) {
            Some(Node::String(text)) => match date_of_text(text, day_pattern()) {
                Some(date) => match value_of(fields, "remembered"@) {
                    Some(Node::Bool(remembered)) => Ok(ReviewEvent { date, remembered }),
                    _ => Err(Fault::Value),
                },
                None => Err(Fault::Date),
            },
            _ => Err(Fault::Value),
        },
        _ => Err(Fault::Value),
    }
}

/// The reviews that a sequence records, in its order; the fault of the first item
/// that records none.
pub open spec fn events_of(items: Seq<Node>) -> Result<Seq<ReviewEvent>, Fault>
    decreases items.len(),
{
    if items.len() == 0 {
        Ok(Seq::empty())
    } else {
        match events_of(items.drop_last()) {
            Ok(events) => match event_of(items.last()) {
                Ok(event) => Ok(events.push(event)),
                Err(fault) => Err(fault),
            },
            Err(fault) => Err(fault),
        }
    }
}

/// The review history in a card's metadata. No `reviews` entry, or an empty one,
/// is an empty history.
pub open spec fn history_of(entries: Seq<(Node, Node)>) -> Result<Seq<ReviewEvent>, Fault> {
    match value_of(entries, "reviews"@) {
        None => Ok(Seq::empty()),
        Some(Node::Null) => Ok(Seq::empty()),
        Some(Node::Sequence(items)) => events_of(items),
        Some(_) => Err(Fault::Value),
    }
}

/// The mapping that records one review.
pub open spec fn review_item(date: Seq<char>, remembered: bool) -> Node {
    Node::Mapping(
        seq![
            (Node::String("date"@), Node::String(date)),
            (Node::String("remembered"@), Node::Bool(remembered)),
        ],
    )
}

/// The metadata with one more review at the end of its history. A history that is
/// no sequence is a fault.
pub open spec fn marked(entries: Seq<(Node, Node)>, date: Seq<char>, remembered: bool) -> Result<
    Seq<(Node, Node)>,
    Fault,
> {
    let item = review_item(date, remembered);
    match value_of(entries, "reviews"@) {
        None => Ok(with_entry(entries, "reviews"@, Node::Sequence(seq![item]))),
        Some(Node::Null) => Ok(with_entry(entries, "reviews"@, Node::Sequence(seq![item]))),
        Some(Node::Sequence(items)) => Ok(
            with_entry(entries, "reviews"@, Node::Sequence(items.push(item))),
        ),
        Some(_) => Err(Fault::Value),
    }
}

/// The metadata without the last review of its history; an empty history stays
/// empty. Metadata without a history, or with one that is no sequence, is a fault.
pub open spec fn unmarked(entries: Seq<(Node, Node)>) -> Result<Seq<(Node, Node)>, Fault> {
    match value_of(entries, "reviews"@) {
        Some(Node::Sequence(items)) => Ok(
            with_entry(
                entries,
                "reviews"@,
                Node::Sequence(
                    if items.len() > 0 {
                        items.drop_last()
                    } else {
                        items
                    },
                ),
            ),
        ),
        _ => Err(Fault::Value),
    }
}

/// Whether the metadata says that the card is archived. No `archived` entry means
/// that it is not.
pub open spec fn archived_of(entries: Seq<(Node, Node)>) -> Result<bool, Fault> {
    match value_of(entries, "archived"@) {
        None => Ok(false),
        Some(Node::Bool(archived)) => Ok(archived),
        Some(_) => Err(Fault::Value),
    }
}

/// The metadata with its archive flag set to `archived`.
pub open spec fn with_archived(entries: Seq<(Node, Node)>, archived: bool) -> Seq<(Node, Node)> {
    with_entry(entries, "archived"@, Node::Bool(archived))
}

/// The text that stands for the day `today` in a file, provided that it reads
/// back as `today`.
pub open spec fn stamp(today: i32) -> Option<Seq<char>> {
    match text_of_date(today, day_pattern()) {
        Some(text) => if date_of_text(text, day_pattern()) == Some(today) {
            Some(text)
        } else {
            None
        },
        None => None,
    }
}

/// The names of the entries that the library reads differ from one another.
pub proof fn lemma_names_differ()
    ensures
        "reviews"@ != "archived"@,
        "date"@ != "remembered"@,
{
    reveal_strlit("reviews");
    reveal_strlit("archived");
    reveal_strlit("date");
    reveal_strlit("remembered");
    assert("reviews"@.len() != "archived"@.len());
    assert("date"@.len() != "remembered"@.len());
}

/// The review that [`review_item`] records is the one that went in, where the
/// date's text reads as a day.
proof fn lemma_item_reads_back(text: Seq<char>, date: i32, remembered: bool)
    requires
        date_of_text(text, day_pattern()) == Some(date),
    ensures
        event_of(review_item(text, remembered)) == Ok::<_, Fault>(ReviewEvent { date, remembered }),
{
    lemma_names_differ();
    let fields = review_item(text, remembered)->Mapping_0;
    assert(find_key(fields, "date"@, 0) == Some(0int));
    assert(find_key(fields, "remembered"@, 1) == Some(1int));
    assert(find_key(fields, "remembered"@, 0) == Some(1int));
}

/// A history with one more item records one more review.
pub proof fn lemma_events_push(items: Seq<Node>, item: Node)
    ensures
        events_of(items.push(item)) == match events_of(items) {
            Ok(events) => match event_of(item) {
                Ok(event) => Ok(events.push(event)),
                Err(fault) => Err(fault),
            },
            Err(fault) => Err(fault),
        },
{
    assert(items.push(item).drop_last() =~= items);
}

/// Marking a card adds the review to the end of its history: where the history
/// could be read before, it reads afterwards as it did, followed by a review of
/// the day of the mark.
pub proof fn lemma_mark_extends(entries: Seq<(Node, Node)>, today: i32, remembered: bool)
    requires
        stamp(today) is Some,
        history_of(entries) is Ok,
    ensures
        marked(entries, stamp(today)->Some_0, remembered) is Ok,
        history_of(marked(entries, stamp(today)->Some_0, remembered)->Ok_0) == Ok::<_, Fault>(
            history_of(entries)->Ok_0.push(ReviewEvent { date: today, remembered }),
        ),
{
    let text = stamp(today)->Some_0;
    let item = review_item(text, remembered);
    lemma_item_reads_back(text, today, remembered);
    match value_of(entries, "reviews"@) {
        Some(Node::Sequence(items)) => {
            lemma_with_entry(entries, "reviews"@, Node::Sequence(items.push(item)), "reviews"@);
            lemma_events_push(items, item);
        },
        _ => {
            lemma_with_entry(entries, "reviews"@, Node::Sequence(seq![item]), "reviews"@);
            assert(seq![item] =~= Seq::<Node>::empty().push(item));
            lemma_events_push(Seq::empty(), item);
        },
    }
}

/// Unmarking a card that was just marked gives back the history it had: the
/// review that marking added is the one that unmarking removes.
pub proof fn lemma_unmark_undoes_mark(entries: Seq<(Node, Node)>, text: Seq<char>, remembered: bool)
    requires
        marked(entries, text, remembered) is Ok,
    ensures
        unmarked(marked(entries, text, remembered)->Ok_0) is Ok,
        history_of(unmarked(marked(entries, text, remembered)->Ok_0)->Ok_0) == history_of(entries),
        archived_of(unmarked(marked(entries, text, remembered)->Ok_0)->Ok_0) == archived_of(entries),
{
    lemma_names_differ();
    let item = review_item(text, remembered);
    let after = marked(entries, text, remembered)->Ok_0;
    match value_of(entries, "reviews"@) {
        Some(Node::Sequence(items)) => {
            let grown = Node::Sequence(items.push(item));
            lemma_with_entry(entries, "reviews"@, grown, "archived"@);
            assert(items.push(item).drop_last() =~= items);
            lemma_with_entry(after, "reviews"@, Node::Sequence(items), "archived"@);
        },
        _ => {
            let grown = Node::Sequence(seq![item]);
            lemma_with_entry(entries, "reviews"@, grown, "archived"@);
            assert(seq![item].drop_last() =~= Seq::<Node>::empty());
            lemma_with_entry(after, "reviews"@, Node::Sequence(Seq::empty()), "archived"@);
        },
    }
}

/// Setting the archive flag leaves the history as it is, and the flag reads back
/// as it was set.
pub proof fn lemma_archive_keeps_history(entries: Seq<(Node, Node)>, archived: bool)
    ensures
        history_of(with_archived(entries, archived)) == history_of(entries),
        archived_of(with_archived(entries, archived)) == Ok::<_, Fault>(archived),
{
    lemma_names_differ();
    lemma_with_entry(entries, "archived"@, Node::Bool(archived), "reviews"@);
}

/// Reads the review that `item` records.
fn read_event(item: &Yaml) -> (read: Result<ReviewEvent, ReviewHistoryError>)
    ensures
        match read {
            Ok(event) => event_of(item@) == Ok::<_, Fault>(event),
            Err(e) => event_of(item@) == Err::<ReviewEvent, _>(e.fault()),
        },
{
    match item {
        Yaml::Mapping(fields) => {
            proof {
                lemma_mapping_view(*fields);
                lemma_find_key(pairs(fields@), "date"@, 0);
                lemma_find_key(pairs(fields@), "remembered"@, 0);
            }
            let date = match find_entry(fields, "date") {
                Some(i) => match &fields[i].1 {
                    Yaml::String(text) => match parse_date(text.as_str(), "%Y-%m-%d") {
                        Ok(date) => date,
                        Err(e) => {
                            return Err(ReviewHistoryError::DateParseError(date_error_message(&e)));
                        },
                    },
                    _ => {
                        return Err(ReviewHistoryError::ValueError);
                    },
                },
                None => {
                    return Err(ReviewHistoryError::ValueError);
                },
            };
            match find_entry(fields, "remembered") {
                Some(i) => match &fields[i].1 {
                    Yaml::Bool(remembered) => Ok(ReviewEvent { date, remembered: *remembered }),
                    _ => Err(ReviewHistoryError::ValueError),
                },
                None => Err(ReviewHistoryError::ValueError),
            }
        },
        _ => Err(ReviewHistoryError::ValueError),
    }
}

/// Reads the reviews that `items` record, in their order.
fn read_events(items: &Vec<Yaml>) -> (read: Result<Vec<ReviewEvent>, ReviewHistoryError>)
    ensures
        match read {
            Ok(events) => events_of(nodes(items@)) == Ok::<_, Fault>(events@),
            Err(e) => events_of(nodes(items@)) == Err::<Seq<ReviewEvent>, _>(e.fault()),
        },
{
    let mut events: Vec<ReviewEvent> = Vec::new();
    let mut at: usize = 0;
    while at < items.len()
        invariant
            at <= items.len(),
            events_of(nodes(items@).take(at as int)) == Ok::<_, Fault>(events@),
        decreases items.len() - at,
    {
        proof {
            let seen = nodes(items@).take(at + 1);
            assert(seen.drop_last() =~= nodes(items@).take(at as int));
            assert(seen.last() == items@[at as int]@);
            lemma_events_stop(nodes(items@), at + 1);
        }
        match read_event(&items[at]) {
            Ok(event) => {
                events.push(event);
            },
            Err(e) => {
                return Err(e);
            },
        }
        at = at + 1;
    }
    assert(nodes(items@).take(at as int) =~= nodes(items@));
    Ok(events)
}

/// A fault among the first items of a history is the fault of the whole.
proof fn lemma_events_stop(items: Seq<Node>, upto: int)
    requires
        0 <= upto <= items.len(),
    ensures
        events_of(items.take(upto)) is Err ==> events_of(items) == events_of(items.take(upto)),
    decreases items.len() - upto,
{
    if upto < items.len() {
        assert(items.take(upto + 1).drop_last() =~= items.take(upto));
        lemma_events_stop(items, upto + 1);
    } else {
        assert(items.take(upto) =~= items);
    }
}

/// Reads the review history from a card's metadata.
pub fn review_history(metadata: &Metadata) -> (read: Result<Vec<ReviewEvent>, ReviewHistoryError>)
    ensures
        match read {
            Ok(events) => history_of(metadata@) == Ok::<_, Fault>(events@),
            Err(e) => history_of(metadata@) == Err::<Seq<ReviewEvent>, _>(e.fault()),
        },
{
    match metadata.get("reviews") {
        None => Ok(Vec::new()),
        Some(Yaml::Null) => Ok(Vec::new()),
        Some(Yaml::Sequence(items)) => {
            proof {
                lemma_sequence_view(*items);
            }
            read_events(items)
        },
        Some(_) => Err(ReviewHistoryError::ValueError),
    }
}

/// The mapping that records a review on the day written as `date`.
pub fn get_review_item(date: String, remembered: bool) -> (item: Yaml)
    ensures
        item@ == review_item(date@, remembered),
{
    let mut fields: Vec<(Yaml, Yaml)> = Vec::new();
    fields.push((Yaml::String(String::from_str("date")), Yaml::String(date)));
    fields.push((Yaml::String(String::from_str("remembered")), Yaml::Bool(remembered)));
    proof {
        lemma_mapping_view(fields);
        assert(pairs(fields@) =~= review_item(date@, remembered)->Mapping_0);
    }
    Yaml::Mapping(fields)
}

/// Adds a review to the end of the history in `metadata`. Metadata whose history
/// is no sequence is left as it is.
pub fn add_review(metadata: &mut Metadata, date: String, remembered: bool) -> (done: Result<
    (),
    ReviewHistoryError,
>)
    ensures
        match done {
            Ok(_) => marked(old(metadata)@, date@, remembered) == Ok::<_, Fault>(final(metadata)@),
            Err(e) => marked(old(metadata)@, date@, remembered) == Err::<Seq<(Node, Node)>, _>(
                e.fault(),
            ) && final(metadata)@ == old(metadata)@,
        },
{
    let item = get_review_item(date, remembered);
    match metadata.position("reviews") {
        None => {
            let mut items: Vec<Yaml> = Vec::new();
            items.push(item);
            proof {
                lemma_sequence_view(items);
                assert(nodes(items@) =~= seq![item@]);
            }
            metadata.insert("reviews", Yaml::Sequence(items));
            Ok(())
        },
        Some(i) => {
            proof {
                lemma_find_key(metadata@, "reviews"@, 0);
            }
            let fits = match &metadata.entries[i].1 {
                Yaml::Sequence(_) => true,
                Yaml::Null => true,
                _ => false,
            };
            if !fits {
                return Err(ReviewHistoryError::ValueError);
            }
            let entry = metadata.entries.remove(i);
            let mut items: Vec<Yaml> = match entry.1 {
                Yaml::Sequence(items) => {
                    proof {
                        lemma_sequence_view(items);
                    }
                    items
                },
                _ => Vec::new(),
            };
            let ghost before = nodes(items@);
            items.push(item);
            proof {
                lemma_sequence_view(items);
                assert(nodes(items@) =~= before.push(item@));
                assert(before.len() == 0 ==> before.push(item@) =~= seq![item@]);
            }
            metadata.entries.insert(i, (entry.0, Yaml::Sequence(items)));
            assert(metadata@ =~= marked(old(metadata)@, date@, remembered)->Ok_0);
            Ok(())
        },
    }
}

/// Removes the last review from the history in `metadata`. Metadata without a
/// history, or with one that is no sequence, is left as it is.
pub fn remove_review(metadata: &mut Metadata) -> (done: Result<(), ReviewHistoryError>)
    ensures
        match done {
            Ok(_) => unmarked(old(metadata)@) == Ok::<_, Fault>(final(metadata)@),
            Err(e) => unmarked(old(metadata)@) == Err::<Seq<(Node, Node)>, _>(e.fault())
                && final(metadata)@ == old(metadata)@,
        },
{
    match metadata.position("reviews") {
        None => Err(ReviewHistoryError::ValueError),
        Some(i) => {
            proof {
                lemma_find_key(metadata@, "reviews"@, 0);
            }
            let fits = match &metadata.entries[i].1 {
                Yaml::Sequence(_) => true,
                _ => false,
            };
            if !fits {
                return Err(ReviewHistoryError::ValueError);
            }
            let entry = metadata.entries.remove(i);
            let mut items: Vec<Yaml> = match entry.1 {
                Yaml::Sequence(items) => {
                    proof {
                        lemma_sequence_view(items);
                    }
                    items
                },
                _ => Vec::new(),
            };
            let ghost before = nodes(items@);
            items.pop();
            proof {
                lemma_sequence_view(items);
                if before.len() > 0 {
                    assert(nodes(items@) =~= before.drop_last());
                } else {
                    assert(nodes(items@) =~= before);
                }
            }
            metadata.entries.insert(i, (entry.0, Yaml::Sequence(items)));
            assert(metadata@ =~= unmarked(old(metadata)@)->Ok_0);
            Ok(())
        },
    }
}

/// Whether `metadata` says that the card is archived.
pub fn is_archived(metadata: &Metadata) -> (read: Result<bool, ReviewHistoryError>)
    ensures
        match read {
            Ok(archived) => archived_of(metadata@) == Ok::<_, Fault>(archived),
            Err(e) => archived_of(metadata@) == Err::<bool, _>(e.fault()),
        },
{
    match metadata.get("archived") {
        None => Ok(false),
        Some(Yaml::Bool(archived)) => Ok(*archived),
        Some(_) => Err(ReviewHistoryError::ValueError),
    }
}

/// Sets the archive flag in `metadata`.
pub fn set_archived(metadata: &mut Metadata, archived: bool)
    ensures
        final(metadata)@ == with_archived(old(metadata)@, archived),
{
    metadata.insert("archived", Yaml::Bool(archived));
}

/// Writes the day `today` as it stands in a file, and checks that it reads back
/// as `today`.
pub fn date_stamp(today: i32) -> (written: Option<String>)
    ensures
        match written {
            Some(text) => stamp(today) == Some(text@),
            None => stamp(today) is None,
        },
{
    match format_date(today, "%Y-%m-%d") {
        Some(text) => match parse_date(text.as_str(), "%Y-%m-%d") {
            Ok(day) => if day == today {
                Some(text)
            } else {
                None
            },
            Err(_) => None,
        },
        None => None,
    }
}

/// Whether a result of the library says what was expected of it.
pub open spec fn tells_text(
    got: Result<String, ReviewHistoryError>,
    expected: Result<Seq<char>, Fault>,
) -> bool {
    match got {
        Ok(text) => expected == Ok::<_, Fault>(text@),
        Err(e) => expected == Err::<Seq<char>, _>(e.fault()),
    }
}

/// Whether a result of the library says what was expected of it.
pub open spec fn tells_flag(
    got: Result<bool, ReviewHistoryError>,
    expected: Result<bool, Fault>,
) -> bool {
    match got {
        Ok(flag) => expected == Ok::<_, Fault>(flag),
        Err(e) => expected == Err::<bool, _>(e.fault()),
    }
}

/// Whether a result of the library says what was expected of it.
pub open spec fn tells_places(
    got: Result<Vec<usize>, ReviewHistoryError>,
    expected: Result<Seq<usize>, Fault>,
) -> bool {
    match got {
        Ok(places) => expected == Ok::<_, Fault>(places@),
        Err(e) => expected == Err::<Seq<usize>, _>(e.fault()),
    }
}

/// Turns an error of the metadata block into one of the history.
fn from_frontmatter(e: FrontmatterError) -> (error: ReviewHistoryError)
    ensures
        error.fault() == e.fault(),
{
    ReviewHistoryError::FrontmatterError(e)
}

/// The review history of the card whose file holds `s`.
pub open spec fn file_history(s: Seq<char>) -> Result<Seq<ReviewEvent>, Fault> {
    match metadata_of(s) {
        Ok(entries) => history_of(entries),
        Err(fault) => Err(fault),
    }
}

/// Reads the review history of the card whose file holds `text`.
pub fn read_review_history(text: &str) -> (read: Result<Vec<ReviewEvent>, ReviewHistoryError>)
    ensures
        match read {
            Ok(events) => file_history(text@) == Ok::<_, Fault>(events@),
            Err(e) => file_history(text@) == Err::<Seq<ReviewEvent>, _>(e.fault()),
        },
{
    match read_fm(text) {
        Ok(metadata) => review_history(&metadata),
        Err(e) => Err(from_frontmatter(e)),
    }
}

/// The file `s` after its card was reviewed on the day `today`: its metadata with
/// one more review, its body as it was.
pub open spec fn marked_file(s: Seq<char>, remembered: bool, today: i32) -> Result<
    Seq<char>,
    Fault,
> {
    match metadata_of(s) {
        Ok(entries) => match stamp(today) {
            Some(date) => match marked(entries, date, remembered) {
                Ok(after) => file_of(after, body_of(s)),
                Err(fault) => Err(fault),
            },
            None => Err(Fault::Date),
        },
        Err(fault) => Err(fault),
    }
}

/// Records a review of the day `today` in the file of a card, and returns the
/// file's new text.
pub fn mark_on(text: &str, remembered: bool, today: i32) -> (written: Result<
    String,
    ReviewHistoryError,
>)
    ensures
        tells_text(written, marked_file(text@, remembered, today)),
{
    let (mut metadata, body) = match read_fm_and_body(text) {
        Ok(parts) => parts,
        Err(e) => {
            return Err(from_frontmatter(e));
        },
    };
    let date = match date_stamp(today) {
        Some(date) => date,
        None => {
            return Err(
                ReviewHistoryError::DateParseError(
                    String::from_str("today's date cannot be written as year, month and day"),
                ),
            );
        },
    };
    match add_review(&mut metadata, date, remembered) {
        Ok(_) => {},
        Err(e) => {
            return Err(e);
        },
    }
    match write_fm_and_body(&metadata, body.as_str()) {
        Ok(file) => Ok(file),
        Err(e) => Err(from_frontmatter(e)),
    }
}

/// Records a review of today in the file of a card, and returns the file's new
/// text. The day is asked of the clock.
pub fn mark(text: &str, remembered: bool) -> (written: Result<String, ReviewHistoryError>)
    ensures
        exists|today: i32| tells_text(written, marked_file(text@, remembered, today)),
{
    let today = clock_day();
    let written = mark_on(text, remembered, today);
    assert(tells_text(written, marked_file(text@, remembered, today)));
    written
}

/// The file `s` after the last review of its card was taken back.
pub open spec fn unmarked_file(s: Seq<char>) -> Result<Seq<char>, Fault> {
    match metadata_of(s) {
        Ok(entries) => match unmarked(entries) {
            Ok(after) => file_of(after, body_of(s)),
            Err(fault) => Err(fault),
        },
        Err(fault) => Err(fault),
    }
}

/// Takes the last review out of the file of a card, and returns the file's new
/// text.
pub fn unmark(text: &str) -> (written: Result<String, ReviewHistoryError>)
    ensures
        tells_text(written, unmarked_file(text@)),
{
    let (mut metadata, body) = match read_fm_and_body(text) {
        Ok(parts) => parts,
        Err(e) => {
            return Err(from_frontmatter(e));
        },
    };
    match remove_review(&mut metadata) {
        Ok(_) => {},
        Err(e) => {
            return Err(e);
        },
    }
    match write_fm_and_body(&metadata, body.as_str()) {
        Ok(file) => Ok(file),
        Err(e) => Err(from_frontmatter(e)),
    }
}

/// The file `s` with the archive flag of its card set to `archived`.
pub open spec fn archived_file(s: Seq<char>, archived: bool) -> Result<Seq<char>, Fault> {
    match metadata_of(s) {
        Ok(entries) => file_of(with_archived(entries, archived), body_of(s)),
        Err(fault) => Err(fault),
    }
}

/// Marking a card, unmarking it and setting its archive flag leave its body as it
/// is: the new file, split again, has the body of the old one, character for
/// character.
pub proof fn lemma_changes_keep_body(s: Seq<char>, remembered: bool, today: i32, archived: bool)
    ensures
        marked_file(s, remembered, today) is Ok ==> body_of(marked_file(s, remembered, today)->Ok_0)
            == body_of(s),
        unmarked_file(s) is Ok ==> body_of(unmarked_file(s)->Ok_0) == body_of(s),
        archived_file(s, archived) is Ok ==> body_of(archived_file(s, archived)->Ok_0) == body_of(s),
{
    if marked_file(s, remembered, today) is Ok {
        let after = marked(metadata_of(s)->Ok_0, stamp(today)->Some_0, remembered)->Ok_0;
        lemma_written_reads_back(after, body_of(s));
    }
    if unmarked_file(s) is Ok {
        lemma_written_reads_back(unmarked(metadata_of(s)->Ok_0)->Ok_0, body_of(s));
    }
    if archived_file(s, archived) is Ok {
        lemma_written_reads_back(with_archived(metadata_of(s)->Ok_0, archived), body_of(s));
    }
}

/// Sets the archive flag in the file of a card, and returns the file's new text.
pub fn mark_archived(text: &str, archived: bool) -> (written: Result<String, ReviewHistoryError>)
    ensures
        tells_text(written, archived_file(text@, archived)),
{
    let (mut metadata, body) = match read_fm_and_body(text) {
        Ok(parts) => parts,
        Err(e) => {
            return Err(from_frontmatter(e));
        },
    };
    set_archived(&mut metadata, archived);
    match write_fm_and_body(&metadata, body.as_str()) {
        Ok(file) => Ok(file),
        Err(e) => Err(from_frontmatter(e)),
    }
}

/// The file `s` with the history of its card cleared: without its `reviews`
/// entry, and without a metadata block where that was its only entry.
pub open spec fn cleared_file(s: Seq<char>) -> Result<Seq<char>, Fault> {
    match metadata_of(s) {
        Ok(entries) => {
            let rest = without_entry(entries, "reviews"@);
            if rest.len() == 0 {
                Ok(body_of(s))
            } else {
                file_of(rest, body_of(s))
            }
        },
        Err(fault) => Err(fault),
    }
}

/// Clears the history in the file of a card, and returns the file's new text.
pub fn clear_history(text: &str) -> (written: Result<String, FrontmatterError>)
    ensures
        match written {
            Ok(file) => cleared_file(text@) == Ok::<_, Fault>(file@),
            Err(e) => cleared_file(text@) == Err::<Seq<char>, _>(e.fault()),
        },
{
    let (mut metadata, body) = match read_fm_and_body(text) {
        Ok(parts) => parts,
        Err(e) => {
            return Err(e);
        },
    };
    metadata.remove("reviews");
    if metadata.is_empty() {
        Ok(body)
    } else {
        write_fm_and_body(&metadata, body.as_str())
    }
}

/// Whether the card whose file holds `s` is to be reviewed on the day `today`.
/// Under the algorithm `all` every card is; under any other, a card is unless it
/// is archived or not yet due.
pub open spec fn review_time_of(s: Seq<char>, algorithm: Seq<char>, today: i32) -> Result<
    bool,
    Fault,
> {
    if algorithm == "all"@ {
        Ok(true)
    } else {
        match metadata_of(s) {
            Ok(entries) => match archived_of(entries) {
                Ok(true) => Ok(false),
                Ok(false) => match history_of(entries) {
                    Ok(history) => Ok(due(history, today)),
                    Err(fault) => Err(fault),
                },
                Err(fault) => Err(fault),
            },
            Err(fault) => Err(fault),
        }
    }
}

/// Whether the card whose file holds `text` is to be reviewed on the day `today`.
pub fn review_time_on(text: &str, algorithm: &str, today: i32) -> (time: Result<
    bool,
    ReviewHistoryError,
>)
    ensures
        tells_flag(time, review_time_of(text@, algorithm@, today)),
{
    if same_text(algorithm, "all") {
        return Ok(true);
    }
    let metadata = match read_fm(text) {
        Ok(metadata) => metadata,
        Err(e) => {
            return Err(from_frontmatter(e));
        },
    };
    match is_archived(&metadata) {
        Ok(true) => Ok(false),
        Ok(false) => match review_history(&metadata) {
            Ok(history) => Ok(leitner_on(&history, today)),
            Err(e) => Err(e),
        },
        Err(e) => Err(e),
    }
}

/// Whether the card whose file holds `text` is to be reviewed today. The day is
/// asked of the clock.
pub fn review_time(text: &str, algorithm: &str) -> (time: Result<bool, ReviewHistoryError>)
    ensures
        exists|today: i32| tells_flag(time, review_time_of(text@, algorithm@, today)),
{
    let today = clock_day();
    let time = review_time_on(text, algorithm, today);
    assert(tells_flag(time, review_time_of(text@, algorithm@, today)));
    time
}

/// Whether a path is that of a card: a Markdown file below a folder named
/// `cards`. The folder is looked for in the canonical path, the extension in the
/// path as given.
pub open spec fn card_path(path: Seq<char>, canonical_path: Seq<char>) -> bool {
    &&& has_segment(canonical_path, "cards"@)
    &&& (has_extension(path, "md"@) || has_extension(path, "markdown"@))
}

/// Whether a path is that of a card.
pub fn is_card_path(path: &str, canonical_path: &str) -> (yes: bool)
    ensures
        yes == card_path(path@, canonical_path@),
{
    path_has_segment(canonical_path, "cards") && (path_has_extension(path, "md")
        || path_has_extension(path, "markdown"))
}

/// The places in `files` of the cards to review on the day `today`, in the order
/// of `files`. The first card whose metadata cannot be read is a fault.
pub open spec fn selected(files: Seq<WalkedFile>, algorithm: Seq<char>, today: i32) -> Result<
    Seq<usize>,
    Fault,
>
    decreases files.len(),
{
    if files.len() == 0 {
        Ok(Seq::empty())
    } else {
        let last = files.last();
        match selected(files.drop_last(), algorithm, today) {
            Ok(places) => if card_path(last.path@, last.canonical_path@) {
                match review_time_of(last.text@, algorithm, today) {
                    Ok(true) => Ok(places.push((files.len() - 1) as usize)),
                    Ok(false) => Ok(places),
                    Err(fault) => Err(fault),
                }
            } else {
                Ok(places)
            },
            Err(fault) => Err(fault),
        }
    }
}

/// A fault among the first files is the fault of the whole.
proof fn lemma_selected_stops(files: Seq<WalkedFile>, algorithm: Seq<char>, today: i32, upto: int)
    requires
        0 <= upto <= files.len(),
    ensures
        selected(files.take(upto), algorithm, today) is Err ==> selected(files, algorithm, today)
            == selected(files.take(upto), algorithm, today),
    decreases files.len() - upto,
{
    if upto < files.len() {
        assert(files.take(upto + 1).drop_last() =~= files.take(upto));
        lemma_selected_stops(files, algorithm, today, upto + 1);
    } else {
        assert(files.take(upto) =~= files);
    }
}

/// Picks the cards to review on the day `today` from the files of a walk, and
/// returns their places in `files`, in the order of the walk.
pub fn get_cards_on(files: &Vec<WalkedFile>, algorithm: &str, today: i32) -> (cards: Result<
    Vec<usize>,
    ReviewHistoryError,
>)
    ensures
        tells_places(cards, selected(files@, algorithm@, today)),
{
    let mut places: Vec<usize> = Vec::new();
    let mut at: usize = 0;
    while at < files.len()
        invariant
            at <= files.len(),
            selected(files@.take(at as int), algorithm@, today) == Ok::<_, Fault>(places@),
        decreases files.len() - at,
    {
        let file = &files[at];
        proof {
            let seen = files@.take(at + 1);
            assert(seen.drop_last() =~= files@.take(at as int));
            assert(seen.last() == files@[at as int]);
            lemma_selected_stops(files@, algorithm@, today, at + 1);
        }
        if is_card_path(file.path.as_str(), file.canonical_path.as_str()) {
            match review_time_on(file.text.as_str(), algorithm, today) {
                Ok(true) => {
                    places.push(at);
                },
                Ok(false) => {},
                Err(e) => {
                    return Err(e);
                },
            }
        }
        at = at + 1;
    }
    assert(files@.take(at as int) =~= files@);
    Ok(places)
}

/// Picks the cards to review today from the files of a walk. The day is asked of
/// the clock.
pub fn get_cards(files: &Vec<WalkedFile>, algorithm: &str) -> (cards: Result<
    Vec<usize>,
    ReviewHistoryError,
>)
    ensures
        exists|today: i32| tells_places(cards, selected(files@, algorithm@, today)),
{
    let today = clock_day();
    let cards = get_cards_on(files, algorithm, today);
    assert(tells_places(cards, selected(files@, algorithm@, today)));
    cards
}

/// What a line of input answers to the question whether to go on: yes, no, or
/// nothing that can be understood. An empty line is a no.
pub open spec fn answer_of(line: Seq<char>) -> Option<bool> {
    if line == "Y\n"@ || line == "y\n"@ || line == "YES\n"@ || line == "Yes\n"@ || line
        == "yes\n"@ {
        Some(true)
    } else if line == "\n"@ || line == "N\n"@ || line == "n\n"@ || line == "NO\n"@ || line
        == "No\n"@ || line == "no\n"@ {
        Some(false)
    } else {
        None
    }
}

/// Reads the answer to the question whether to go on from a line of input.
pub fn confirmation(line: &str) -> (answer: Option<bool>)
    ensures
        answer == answer_of(line@),
{
    if same_text(line, "Y\n") || same_text(line, "y\n") || same_text(line, "YES\n") || same_text(
        line,
        "Yes\n",
    ) || same_text(line, "yes\n") {
        Some(true)
    } else if same_text(line, "\n") || same_text(line, "N\n") || same_text(line, "n\n")
        || same_text(line, "NO\n") || same_text(line, "No\n") || same_text(line, "no\n") {
        Some(false)
    } else {
        None
    }
}

} // verus!
