//! The metadata of a file as a tree of values.
//!
//! [`Yaml`] mirrors the value type of `serde_yaml`, variant for variant. Scalars
//! that the library reads (booleans, strings), sequences and mappings are held as
//! plain values; numbers and tagged values are carried through as `serde_yaml`
//! made them. A mapping is the list of its entries in the order of the file.
//!
//! Reading and writing YAML text is left to `serde_yaml`; everything else here is
//! the library's own and proved.

use vstd::prelude::*;
use crate::text::same_text;

verus! {

/// `serde_yaml::Value`, as an opaque type: the wrappers turn it into [`Yaml`] and
/// back, and nothing else looks into it.
#[verifier::external_type_specification]
#[verifier::external_body]
pub struct ExValue(serde_yaml::Value);

/// `serde_yaml::Number`, as an opaque type: a number is carried through as it was
/// read.
#[verifier::external_type_specification]
#[verifier::external_body]
pub struct ExNumber(serde_yaml::Number);

/// `serde_yaml::value::TaggedValue`, as an opaque type: a tagged value is carried
/// through as it was read, with all that stands below it.
#[verifier::external_type_specification]
#[verifier::external_body]
pub struct ExTaggedValue(serde_yaml::value::TaggedValue);

/// `serde_yaml::Error`, as an opaque type: only its message is taken from it.
#[verifier::external_type_specification]
#[verifier::external_body]
pub struct ExError(serde_yaml::Error);

/// A YAML value.
#[derive(Debug, PartialEq)]
pub enum Yaml {
    Null,
    Bool(bool),
    Number(serde_yaml::Number),
    String(String),
    Sequence(Vec<Yaml>),
    Mapping(Vec<(Yaml, Yaml)>),
    Tagged(Box<serde_yaml::value::TaggedValue>),
}

/// What a [`Yaml`] value holds: the same tree, with texts as sequences of
/// characters.
pub enum Node {
    Null,
    Bool(bool),
    Number(serde_yaml::Number),
    String(Seq<char>),
    Sequence(Seq<Node>),
    Mapping(Seq<(Node, Node)>),
    Tagged(serde_yaml::value::TaggedValue),
}

/// What `value` holds.
pub open spec fn node_of(value: Yaml) -> Node
    decreases value,
{
    match value {
        Yaml::Null => Node::Null,
        Yaml::Bool(b) => Node::Bool(b),
        Yaml::Number(n) => Node::Number(n),
        Yaml::String(s) => Node::String(s@),
        Yaml::Sequence(items) => Node::Sequence(
            Seq::new(
                items@.len(),
                |i: int|
                    if 0 <= i < items@.len() {
                        node_of(items@[i])
                    } else {
                        Node::Null
                    },
            ),
        ),
        Yaml::Mapping(entries) => Node::Mapping(
            Seq::new(
                entries@.len(),
                |i: int|
                    if 0 <= i < entries@.len() {
                        (node_of(entries@[i].0), node_of(entries@[i].1))
                    } else {
                        (Node::Null, Node::Null)
                    },
            ),
        ),
        Yaml::Tagged(t) => Node::Tagged(*t),
    }
}

impl View for Yaml {
    type V = Node;

    open spec fn view(&self) -> Node {
        node_of(*self)
    }
}

/// What a list of values holds.
pub open spec fn nodes(items: Seq<Yaml>) -> Seq<Node> {
    Seq::new(items.len(), |i: int| items[i]@)
}

/// What a list of entries holds.
pub open spec fn pairs(entries: Seq<(Yaml, Yaml)>) -> Seq<(Node, Node)> {
    Seq::new(entries.len(), |i: int| (entries[i].0@, entries[i].1@))
}

/// A sequence holds what its items hold.
pub proof fn lemma_sequence_view(items: Vec<Yaml>)
    ensures
        Yaml::Sequence(items)@ == Node::Sequence(nodes(items@)),
{
    assert(Yaml::Sequence(items)@->Sequence_0 =~= nodes(items@));
}

/// A mapping holds what its entries hold.
pub proof fn lemma_mapping_view(entries: Vec<(Yaml, Yaml)>)
    ensures
        Yaml::Mapping(entries)@ == Node::Mapping(pairs(entries@)),
{
    assert(Yaml::Mapping(entries)@->Mapping_0 =~= pairs(entries@));
}

/// The place of the first entry at or after `from` whose key is the string `key`.
pub open spec fn find_key(entries: Seq<(Node, Node)>, key: Seq<char>, from: int) -> Option<int>
    decreases entries.len() - from,
{
    if from < 0 || from >= entries.len() {
        None
    } else if entries[from].0 == Node::String(key) {
        Some(from)
    } else {
        find_key(entries, key, from + 1)
    }
}

/// The value that stands under the string `key`.
pub open spec fn value_of(entries: Seq<(Node, Node)>, key: Seq<char>) -> Option<Node> {
    match find_key(entries, key, 0) {
        Some(i) => Some(entries[i].1),
        None => None,
    }
}

/// The entries with `value` under `key`: in place of what stood there, or as a
/// new last entry.
pub open spec fn with_entry(entries: Seq<(Node, Node)>, key: Seq<char>, value: Node) -> Seq<
    (Node, Node),
> {
    match find_key(entries, key, 0) {
        Some(i) => entries.update(i, (Node::String(key), value)),
        None => entries.push((Node::String(key), value)),
    }
}

/// The entries without the one under `key`; the others keep their order.
pub open spec fn without_entry(entries: Seq<(Node, Node)>, key: Seq<char>) -> Seq<(Node, Node)> {
    match find_key(entries, key, 0) {
        Some(i) => entries.remove(i),
        None => entries,
    }
}

/// What the search finds is in range, holds the key, and is the first to do so.
pub proof fn lemma_find_key(entries: Seq<(Node, Node)>, key: Seq<char>, from: int)
    requires
        0 <= from,
    ensures
        match find_key(entries, key, from) {
            Some(i) => from <= i < entries.len() && entries[i].0 == Node::String(key) && forall|
                j: int,
            |
                from <= j < i ==> entries[j].0 != Node::String(key),
            None => forall|j: int| from <= j < entries.len() ==> entries[j].0 != Node::String(key),
        },
    decreases entries.len() - from,
{
    if from < entries.len() && entries[from].0 != Node::String(key) {
        lemma_find_key(entries, key, from + 1);
    }
}

/// The first entry that holds the key is what the search finds.
pub proof fn lemma_find_key_is(entries: Seq<(Node, Node)>, key: Seq<char>, from: int, at: int)
    requires
        0 <= from <= at < entries.len(),
        entries[at].0 == Node::String(key),
        forall|j: int| from <= j < at ==> entries[j].0 != Node::String(key),
    ensures
        find_key(entries, key, from) == Some(at),
    decreases at - from,
{
    if from < at {
        lemma_find_key_is(entries, key, from + 1, at);
    }
}

/// No entry holds the key: the search finds nothing.
pub proof fn lemma_find_key_none(entries: Seq<(Node, Node)>, key: Seq<char>, from: int)
    requires
        0 <= from,
        forall|j: int| from <= j < entries.len() ==> entries[j].0 != Node::String(key),
    ensures
        find_key(entries, key, from) is None,
    decreases entries.len() - from,
{
    if from < entries.len() {
        lemma_find_key_none(entries, key, from + 1);
    }
}

/// What was put under a key is found there, and the other keys hold what they held.
pub proof fn lemma_with_entry(
    entries: Seq<(Node, Node)>,
    key: Seq<char>,
    value: Node,
    other: Seq<char>,
)
    ensures
        value_of(with_entry(entries, key, value), key) == Some(value),
        other != key ==> value_of(with_entry(entries, key, value), other) == value_of(entries, other),
{
    let after = with_entry(entries, key, value);
    lemma_find_key(entries, key, 0);
    match find_key(entries, key, 0) {
        Some(i) => {
            lemma_find_key_is(after, key, 0, i);
        },
        None => {
            lemma_find_key_is(after, key, 0, entries.len() as int);
        },
    }
    if other != key {
        lemma_find_key(entries, other, 0);
        match find_key(entries, other, 0) {
            Some(j) => {
                lemma_find_key_is(after, other, 0, j);
            },
            None => {
                lemma_find_key_none(after, other, 0);
            },
        }
    }
}

/// The place of the first of `entries` whose key is the string `key`.
pub fn find_entry(entries: &Vec<(Yaml, Yaml)>, key: &str) -> (place: Option<usize>)
    ensures
        match place {
            Some(i) => find_key(pairs(entries@), key@, 0) == Some(i as int) && i < entries.len(),
            None => find_key(pairs(entries@), key@, 0) is None,
        },
{
    let mut at: usize = 0;
    while at < entries.len()
        invariant
            find_key(pairs(entries@), key@, 0) == find_key(pairs(entries@), key@, at as int),
        decreases entries.len() - at,
    {
        let found = match &entries[at].0 {
            Yaml::String(name) => same_text(name.as_str(), key),
            _ => false,
        };
        if found {
            return Some(at);
        }
        at = at + 1;
    }
    None
}

/// The metadata of a file: the entries of its mapping, in the order of the file.
#[derive(Debug, PartialEq)]
pub struct Metadata {
    pub entries: Vec<(Yaml, Yaml)>,
}

impl View for Metadata {
    type V = Seq<(Node, Node)>;

    open spec fn view(&self) -> Seq<(Node, Node)> {
        pairs(self.entries@)
    }
}

impl Metadata {
    /// Metadata without an entry.
    pub fn new() -> (metadata: Metadata)
        ensures
            metadata@ == Seq::<(Node, Node)>::empty(),
    {
        let metadata = Metadata { entries: Vec::new() };
        assert(metadata@ =~= Seq::<(Node, Node)>::empty());
        metadata
    }

    /// The number of entries.
    pub fn len(&self) -> (len: usize)
        ensures
            len == self@.len(),
    {
        self.entries.len()
    }

    /// Whether there is no entry.
    pub fn is_empty(&self) -> (empty: bool)
        ensures
            empty == (self@.len() == 0),
    {
        self.entries.len() == 0
    }

    /// The place of the first entry whose key is the string `key`.
    pub fn position(&self, key: &str) -> (place: Option<usize>)
        ensures
            match place {
                Some(i) => find_key(self@, key@, 0) == Some(i as int) && i < self.entries.len(),
                None => find_key(self@, key@, 0) is None,
            },
    {
        find_entry(&self.entries, key)
    }

    /// The value that stands under the string `key`.
    pub fn get(&self, key: &str) -> (value: Option<&Yaml>)
        ensures
            match value {
                Some(v) => value_of(self@, key@) == Some(v@),
                None => value_of(self@, key@) is None,
            },
    {
        match self.position(key) {
            Some(i) => Some(&self.entries[i].1),
            None => None,
        }
    }

    /// Puts `value` under the string `key`: in place of what stood there, or as a
    /// new last entry.
    pub fn insert(&mut self, key: &str, value: Yaml)
        ensures
            final(self)@ == with_entry(old(self)@, key@, value@),
    {
        let name = Yaml::String(key.to_owned());
        match self.position(key) {
            Some(i) => {
                self.entries.remove(i);
                self.entries.insert(i, (name, value));
                assert(self@ =~= with_entry(old(self)@, key@, value@));
            },
            None => {
                self.entries.push((name, value));
                assert(self@ =~= with_entry(old(self)@, key@, value@));
            },
        }
    }

    /// Takes out the entry under the string `key`, if there is one, and returns
    /// its value.
    pub fn remove(&mut self, key: &str) -> (value: Option<Yaml>)
        ensures
            final(self)@ == without_entry(old(self)@, key@),
            match value {
                Some(v) => value_of(old(self)@, key@) == Some(v@),
                None => value_of(old(self)@, key@) is None,
            },
    {
        match self.position(key) {
            Some(i) => {
                let entry = self.entries.remove(i);
                assert(self@ =~= without_entry(old(self)@, key@));
                Some(entry.1)
            },
            None => None,
        }
    }
}

/// The mapping that `serde_yaml` reads from a text, or `None` where it reads none.
pub uninterp spec fn yaml_parse(text: Seq<char>) -> Option<Seq<(Node, Node)>>;

/// The text that `serde_yaml` writes for a mapping, or `None` where it writes none.
pub uninterp spec fn yaml_text(entries: Seq<(Node, Node)>) -> Option<Seq<char>>;

/// Turns a value of `serde_yaml` into the library's, variant for variant, for
/// [`parse_mapping`]. Nothing is claimed of it.
#[verifier::external_body]
fn lift(value: serde_yaml::Value) -> Yaml {
    match value {
        serde_yaml::Value::Null => Yaml::Null,
        serde_yaml::Value::Bool(b) => Yaml::Bool(b),
        serde_yaml::Value::Number(n) => Yaml::Number(n),
        serde_yaml::Value::String(s) => Yaml::String(s),
        serde_yaml::Value::Sequence(items) => Yaml::Sequence(items.into_iter().map(lift).collect()),
        serde_yaml::Value::Mapping(m) => Yaml::Mapping(
            m.into_iter().map(|(k, v)| (lift(k), lift(v))).collect(),
        ),
        serde_yaml::Value::Tagged(t) => Yaml::Tagged(t),
    }
}

/// Turns a value of the library into one of `serde_yaml`, variant for variant, for
/// [`mapping_text`]. Nothing is claimed of it.
#[verifier::external_body]
fn lower(value: &Yaml) -> serde_yaml::Value {
    match value {
        Yaml::Null => serde_yaml::Value::Null,
        Yaml::Bool(b) => serde_yaml::Value::Bool(*b),
        Yaml::Number(n) => serde_yaml::Value::Number(n.clone()),
        Yaml::String(s) => serde_yaml::Value::String(s.clone()),
        Yaml::Sequence(items) => serde_yaml::Value::Sequence(items.iter().map(lower).collect()),
        Yaml::Mapping(entries) => serde_yaml::Value::Mapping(
            entries.iter().map(|(k, v)| (lower(k), lower(v))).collect(),
        ),
        Yaml::Tagged(t) => serde_yaml::Value::Tagged(t.clone()),
    }
}

/// Calls `serde_yaml::from_str` for a mapping. The result is a function of the
/// text alone; [`yaml_parse`] is its name.
#[verifier::external_body]
pub(crate) fn parse_mapping(text: &str) -> (parsed: Result<Metadata, serde_yaml::Error>)
    ensures
        match parsed {
            Ok(metadata) => yaml_parse(text@) == Some(metadata@),
            Err(_) => yaml_parse(text@) is None,
        },
{
    serde_yaml::from_str::<serde_yaml::Mapping>(text).map(
        |m| Metadata { entries: m.into_iter().map(|(k, v)| (lift(k), lift(v))).collect() },
    )
}

/// Calls `serde_yaml::to_string` on a mapping. The result is a function of the
/// mapping alone; [`yaml_text`] is its name.
#[verifier::external_body]
pub(crate) fn mapping_text(metadata: &Metadata) -> (written: Result<String, serde_yaml::Error>)
    ensures
        match written {
            Ok(text) => yaml_text(metadata@) == Some(text@),
            Err(_) => yaml_text(metadata@) is None,
        },
{
    let mapping: serde_yaml::Mapping =
        metadata.entries.iter().map(|(k, v)| (lower(k), lower(v))).collect();
    serde_yaml::to_string(&mapping)
}

/// The message of an error of `serde_yaml`, as its `Display` gives it.
#[verifier::external_body]
pub(crate) fn error_message(error: &serde_yaml::Error) -> String {
    error.to_string()
}

} // verus!
