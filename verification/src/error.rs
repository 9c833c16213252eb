//! What can go wrong with a file's metadata.

use vstd::prelude::*;

verus! {

/// The kind of an error, without its message.
#[derive(Clone, Copy, Debug, PartialEq, Eq, Structural)]
pub enum Fault {
    /// The metadata block is no well-formed mapping.
    Parse,
    /// The metadata cannot be written as a block.
    Serialize,
    /// A field of the metadata has the wrong shape.
    Value,
    /// A date does not read as year, month and day.
    Date,
}

/// A value of the wrong shape, with or without a message.
#[derive(Debug)]
pub struct ValueError {
    message: Option<String>,
}

impl View for ValueError {
    type V = Option<Seq<char>>;

    closed spec fn view(&self) -> Option<Seq<char>> {
        match self.message {
            Some(m) => Some(m@),
            None => None,
        }
    }
}

impl ValueError {
    /// An error without a message.
    pub fn new() -> (error: Self)
        ensures
            error@ is None,
    {
        ValueError { message: None }
    }

    /// An error with a message.
    pub fn from(message: String) -> (error: Self)
        ensures
            error@ == Some(message@),
    {
        ValueError { message: Some(message) }
    }

    /// The message, if the error has one.
    pub fn message(&self) -> (message: Option<&String>)
        ensures
            match message {
                Some(m) => self@ == Some(m@),
                None => self@ is None,
            },
    {
        match &self.message {
            Some(m) => Some(m),
            None => None,
        }
    }

    /// The text of the error as it is shown: `ValueError`, then a colon and the
    /// message where there is one.
    pub open spec fn shown(self) -> Seq<char> {
        match self@ {
            Some(m) => "ValueError: "@ + m,
            None => "ValueError"@,
        }
    }

    /// The error as a line of text.
    pub fn describe(&self) -> (text: String)
        ensures
            text@ == self.shown(),
    {
        match &self.message {
            Some(m) => {
                let mut text = String::from_str("ValueError: ");
                text.append(m.as_str());
                text
            },
            None => String::from_str("ValueError"),
        }
    }
}

/// An error in reading or writing the metadata block of a file.
#[derive(Debug)]
pub enum FrontmatterError {
    /// The block is no well-formed mapping; with the parser's message.
    ParseError(String),
    /// The metadata cannot be written as a block; with the reason.
    SerializeError(String),
    /// A field has the wrong shape.
    ValueError(ValueError),
}

impl FrontmatterError {
    /// The kind of the error.
    pub open spec fn fault(self) -> Fault {
        match self {
            FrontmatterError::ParseError(_) => Fault::Parse,
            FrontmatterError::SerializeError(_) => Fault::Serialize,
            FrontmatterError::ValueError(_) => Fault::Value,
        }
    }

    /// The kind of the error.
    pub fn kind(&self) -> (fault: Fault)
        ensures
            fault == self.fault(),
    {
        match self {
            FrontmatterError::ParseError(_) => Fault::Parse,
            FrontmatterError::SerializeError(_) => Fault::Serialize,
            FrontmatterError::ValueError(_) => Fault::Value,
        }
    }

    /// The text of the error as it is shown: the message it carries.
    pub open spec fn shown(self) -> Seq<char> {
        match self {
            FrontmatterError::ParseError(m) => m@,
            FrontmatterError::SerializeError(m) => m@,
            FrontmatterError::ValueError(e) => e.shown(),
        }
    }

    /// The error as a line of text.
    pub fn describe(&self) -> (text: String)
        ensures
            text@ == self.shown(),
    {
        match self {
            FrontmatterError::ParseError(m) => m.clone(),
            FrontmatterError::SerializeError(m) => m.clone(),
            FrontmatterError::ValueError(e) => e.describe(),
        }
    }
}

/// An error in reading or changing the review history of a card.
#[derive(Debug)]
pub enum ReviewHistoryError {
    /// The metadata block could not be read or written.
    FrontmatterError(FrontmatterError),
    /// A review's date does not read as year, month and day; with the parser's
    /// message.
    DateParseError(String),
    /// The history, or a review in it, has the wrong shape.
    ValueError,
}

impl ReviewHistoryError {
    /// The kind of the error.
    pub open spec fn fault(self) -> Fault {
        match self {
            ReviewHistoryError::FrontmatterError(e) => e.fault(),
            ReviewHistoryError::DateParseError(_) => Fault::Date,
            ReviewHistoryError::ValueError => Fault::Value,
        }
    }

    /// The kind of the error.
    pub fn kind(&self) -> (fault: Fault)
        ensures
            fault == self.fault(),
    {
        match self {
            ReviewHistoryError::FrontmatterError(e) => e.kind(),
            ReviewHistoryError::DateParseError(_) => Fault::Date,
            ReviewHistoryError::ValueError => Fault::Value,
        }
    }

    /// The text of the error as it is shown.
    pub open spec fn shown(self) -> Seq<char> {
        match self {
            ReviewHistoryError::FrontmatterError(e) => e.shown(),
            ReviewHistoryError::DateParseError(m) => m@,
            ReviewHistoryError::ValueError => "ValueError"@,
        }
    }

    /// The error as a line of text.
    pub fn describe(&self) -> (text: String)
        ensures
            text@ == self.shown(),
    {
        match self {
            ReviewHistoryError::FrontmatterError(e) => e.describe(),
            ReviewHistoryError::DateParseError(m) => m.clone(),
            ReviewHistoryError::ValueError => String::from_str("ValueError"),
        }
    }
}

} // verus!
