//! What can go wrong in an operation on a document.
use vstd::prelude::*;

use crate::json::SelectValueType;

verus! {

/// The reason why an operation failed.
#[derive(Debug, PartialEq, Eq)]
pub enum Error {
    /// Nothing is at the path.
    PathDoesntExist,
    /// The value at the path is of another kind than the operation is for.
    WrongType { expected: SelectValueType, found: SelectValueType },
    /// The text that was given is JSON of another kind than the operation is for.
    WrongInput { expected: SelectValueType, text: String },
    /// The text that was given is not a JSON number.
    BadInputNumber,
    /// The result of the arithmetic is not a number.
    NotANumber,
    /// The index is outside the array.
    IndexOutOfBounds,
    /// The string would be longer than a string of a document can be.
    StringTooLong,
    /// The size is greater than a `usize` can tell.
    SizeOverflow,
    /// The subscribers of the key could not be told.
    NotifyFailed,
    /// The text that was given could not be read.
    Parse(String),
}

impl Error {
    /// The text of an error that says the same whatever the operation was about.
    pub fn text(&self) -> (r: Option<&'static str>)
        ensures
            match *self {
                Error::BadInputNumber => r == Some("bad input number"),
                Error::NotANumber => r == Some("result is not a number"),
                Error::IndexOutOfBounds => r == Some("ERR index out of bounds"),
                Error::NotifyFailed => r == Some("failed notify key space event"),
                _ => r is None,
            },
    {
        match self {
            Error::BadInputNumber => Some("bad input number"),
            Error::NotANumber => Some("result is not a number"),
            Error::IndexOutOfBounds => Some("ERR index out of bounds"),
            Error::NotifyFailed => Some("failed notify key space event"),
            _ => None,
        }
    }
}

}
