//! The errors that the operations on a message report.

use vstd::prelude::*;
use vstd::string::*;

verus! {

/// Why an operation on a message failed.
#[derive(Debug)]
pub enum Error {
    /// A parameter was asked for by a key that the message does not hold.
    KeyNotFound(String),
    /// An input broke a rule of syntax; the text says which.
    BadFormat(String),
    /// The encoder gave up before it wrote anything; the text says why.
    SerializeError(String),
}

/// An [`Error`] with its texts as sequences of characters.
pub enum ErrorView {
    KeyNotFound(Seq<char>),
    BadFormat(Seq<char>),
    SerializeError(Seq<char>),
}

impl View for Error {
    type V = ErrorView;

    open spec fn view(&self) -> ErrorView {
        match self {
            Error::KeyNotFound(key) => ErrorView::KeyNotFound(key@),
            Error::BadFormat(detail) => ErrorView::BadFormat(detail@),
            Error::SerializeError(detail) => ErrorView::SerializeError(detail@),
        }
    }
}

impl ErrorView {
    /// The sentence that describes the error to a reader.
    pub open spec fn text(self) -> Seq<char> {
        match self {
            ErrorView::KeyNotFound(key) => "Parameter '"@ + key + "' not found"@,
            ErrorView::BadFormat(detail) => "Bad format; "@ + detail,
            ErrorView::SerializeError(detail) => "Unable to serialize; "@ + detail,
        }
    }
}

impl Error {
    /// Describes the error in one sentence.
    pub fn to_text(&self) -> (r: String)
        ensures
            r@ == self@.text(),
    {
        match self {
            Error::KeyNotFound(key) => {
                let mut s = "Parameter '".to_string();
                s.append(key.as_str());
                s.append("' not found");
                s
            },
            Error::BadFormat(detail) => {
                let mut s = "Bad format; ".to_string();
                s.append(detail.as_str());
                s
            },
            Error::SerializeError(detail) => {
                let mut s = "Unable to serialize; ".to_string();
                s.append(detail.as_str());
                s
            },
        }
    }
}

} // verus!
