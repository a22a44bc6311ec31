//! The failures that a command can end in.

use crate::numerals::{nat_text, write_u64};
use crate::text::to_text;
use vstd::prelude::*;
use vstd::string::*;

verus! {

/// Why a command was refused. Each variant carries the text that its
/// message names.
#[derive(Debug)]
pub enum CustomError {
    /// A file could not be opened, read or written; the text describes
    /// the failure.
    IoError(String),
    TableNotFound(String),
    TableAlreadyExists(String),
    RecordAlreadyExists(String),
    InvalidKey(String),
    ScreenInvalidForCommand(String, String),
    ParseError(String),
    FieldParseError(String),
    ValueParseError(String),
    ConditionParseError(String),
    MissingKeyword(String),
    ItemWithIndexNotFound(String, String),
    MissingField(String),
    YouGotLost(),
    UnknownCommand(String),
    UnknownField(String),
    InvalidIndex(usize),
    WrongKeyType(),
}

/// A failure with its texts as character sequences.
pub ghost enum ErrorView {
    IoError(Seq<char>),
    TableNotFound(Seq<char>),
    TableAlreadyExists(Seq<char>),
    RecordAlreadyExists(Seq<char>),
    InvalidKey(Seq<char>),
    ScreenInvalidForCommand(Seq<char>, Seq<char>),
    ParseError(Seq<char>),
    FieldParseError(Seq<char>),
    ValueParseError(Seq<char>),
    ConditionParseError(Seq<char>),
    MissingKeyword(Seq<char>),
    ItemWithIndexNotFound(Seq<char>, Seq<char>),
    MissingField(Seq<char>),
    YouGotLost,
    UnknownCommand(Seq<char>),
    UnknownField(Seq<char>),
    InvalidIndex(nat),
    WrongKeyType,
}

impl View for CustomError {
    type V = ErrorView;

    open spec fn view(&self) -> ErrorView {
        match self {
            CustomError::IoError(s) => ErrorView::IoError(s@),
            CustomError::TableNotFound(s) => ErrorView::TableNotFound(s@),
            CustomError::TableAlreadyExists(s) => ErrorView::TableAlreadyExists(s@),
            CustomError::RecordAlreadyExists(s) => ErrorView::RecordAlreadyExists(s@),
            CustomError::InvalidKey(s) => ErrorView::InvalidKey(s@),
            CustomError::ScreenInvalidForCommand(a, b) => ErrorView::ScreenInvalidForCommand(
                a@,
                b@,
            ),
            CustomError::ParseError(s) => ErrorView::ParseError(s@),
            CustomError::FieldParseError(s) => ErrorView::FieldParseError(s@),
            CustomError::ValueParseError(s) => ErrorView::ValueParseError(s@),
            CustomError::ConditionParseError(s) => ErrorView::ConditionParseError(s@),
            CustomError::MissingKeyword(s) => ErrorView::MissingKeyword(s@),
            CustomError::ItemWithIndexNotFound(a, b) => ErrorView::ItemWithIndexNotFound(a@, b@),
            CustomError::MissingField(s) => ErrorView::MissingField(s@),
            CustomError::YouGotLost() => ErrorView::YouGotLost,
            CustomError::UnknownCommand(s) => ErrorView::UnknownCommand(s@),
            CustomError::UnknownField(s) => ErrorView::UnknownField(s@),
            CustomError::InvalidIndex(i) => ErrorView::InvalidIndex(*i as nat),
            CustomError::WrongKeyType() => ErrorView::WrongKeyType,
        }
    }
}

impl ErrorView {
    /// The message shown for this failure.
    pub open spec fn message(self) -> Seq<char> {
        match self {
            ErrorView::IoError(s) => "Failed to read file: "@ + s,
            ErrorView::TableNotFound(s) => "Table not found: "@ + s,
            ErrorView::TableAlreadyExists(s) => "Table already exists: "@ + s,
            ErrorView::RecordAlreadyExists(s) => "Record already exists: "@ + s,
            ErrorView::InvalidKey(s) => s + " is empty"@,
            ErrorView::ScreenInvalidForCommand(a, b) => "Invalid COmmand Screen Combination: "@ + a
                + " "@ + b,
            ErrorView::ParseError(s) => "Failed to parse integer: "@ + s,
            ErrorView::FieldParseError(s) => "Failed to parse field: "@ + s,
            ErrorView::ValueParseError(s) => "Failed to parse value: "@ + s,
            ErrorView::ConditionParseError(s) => "Failed to parse condition: "@ + s,
            ErrorView::MissingKeyword(s) => "Missing keyword: "@ + s,
            ErrorView::ItemWithIndexNotFound(a, b) => a + " with index "@ + b + " not found"@,
            ErrorView::MissingField(s) => s + " is empty"@,
            ErrorView::YouGotLost => "You somehow got lost"@,
            ErrorView::UnknownCommand(s) => "Unknown Command: "@ + s,
            ErrorView::UnknownField(s) => "Unknown Field: "@ + s,
            ErrorView::InvalidIndex(i) => "Invalid index: "@ + nat_text(i),
            ErrorView::WrongKeyType => "Invalid Key Type"@,
        }
    }
}

/// `prefix` followed by `detail`.
fn prefixed(prefix: &str, detail: &String) -> (r: String)
    ensures
        r@ == prefix@ + detail@,
{
    let mut r: String = String::from_str(prefix);
    r.append(detail.as_str());
    r
}

/// `detail` followed by `suffix`.
fn suffixed(detail: &String, suffix: &str) -> (r: String)
    ensures
        r@ == detail@ + suffix@,
{
    let mut r: String = detail.clone();
    r.append(suffix);
    r
}

impl CustomError {
    /// The message shown for this failure.
    pub fn to_string(&self) -> (r: String)
        ensures
            r@ == self@.message(),
    {
        match self {
            CustomError::IoError(s) => prefixed("Failed to read file: ", s),
            CustomError::TableNotFound(s) => prefixed("Table not found: ", s),
            CustomError::TableAlreadyExists(s) => prefixed("Table already exists: ", s),
            CustomError::RecordAlreadyExists(s) => prefixed("Record already exists: ", s),
            CustomError::InvalidKey(s) => suffixed(s, " is empty"),
            CustomError::ScreenInvalidForCommand(a, b) => {
                let mut r: String = prefixed("Invalid COmmand Screen Combination: ", a);
                r.append(" ");
                r.append(b.as_str());
                r
            },
            CustomError::ParseError(s) => prefixed("Failed to parse integer: ", s),
            CustomError::FieldParseError(s) => prefixed("Failed to parse field: ", s),
            CustomError::ValueParseError(s) => prefixed("Failed to parse value: ", s),
            CustomError::ConditionParseError(s) => prefixed("Failed to parse condition: ", s),
            CustomError::MissingKeyword(s) => prefixed("Missing keyword: ", s),
            CustomError::ItemWithIndexNotFound(a, b) => {
                let mut r: String = suffixed(a, " with index ");
                r.append(b.as_str());
                r.append(" not found");
                r
            },
            CustomError::MissingField(s) => suffixed(s, " is empty"),
            CustomError::YouGotLost() => String::from_str("You somehow got lost"),
            CustomError::UnknownCommand(s) => prefixed("Unknown Command: ", s),
            CustomError::UnknownField(s) => prefixed("Unknown Field: ", s),
            CustomError::InvalidIndex(i) => {
                let digits: String = to_text(&write_u64(*i as u64));
                prefixed("Invalid index: ", &digits)
            },
            CustomError::WrongKeyType() => String::from_str("Invalid Key Type"),
        }
    }
}

/// A result with its texts as character sequences.
pub open spec fn text_result(r: Result<String, CustomError>) -> Result<Seq<char>, ErrorView> {
    match r {
        Ok(s) => Ok(s@),
        Err(e) => Err(e@),
    }
}

} // verus!
