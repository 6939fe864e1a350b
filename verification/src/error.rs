//! The error type shared by every operation.

use vstd::prelude::*;
use vstd::string::StringExecFns;

verus! {

/// Why an operation failed. Every error ends the call that met it: nothing is retried, and
/// no partial result comes with it.
#[derive(Debug)]
pub enum Error {
    /// The driver failed; the text is the driver's own, handed on as it came.
    Sql(String),
    /// The migration engine failed; the text is the engine's own.
    Migration(String),
    /// No pool is open under this identifier.
    DatabaseNotLoaded(String),
    /// A value or a column type that has no representation here.
    UnsupportedDatatype(String),
    /// The identifier has no scheme, or one that names no backend.
    InvalidDbUrl(String),
}

/// An error with its text as a character sequence.
pub enum ErrorView {
    Sql(Seq<char>),
    Migration(Seq<char>),
    DatabaseNotLoaded(Seq<char>),
    UnsupportedDatatype(Seq<char>),
    InvalidDbUrl(Seq<char>),
}

impl View for Error {
    type V = ErrorView;

    open spec fn view(&self) -> ErrorView {
        match *self {
            Error::Sql(text) => ErrorView::Sql(text@),
            Error::Migration(text) => ErrorView::Migration(text@),
            Error::DatabaseNotLoaded(name) => ErrorView::DatabaseNotLoaded(name@),
            Error::UnsupportedDatatype(name) => ErrorView::UnsupportedDatatype(name@),
            Error::InvalidDbUrl(url) => ErrorView::InvalidDbUrl(url@),
        }
    }
}

impl ErrorView {
    /// The human-readable text that stands for the error at the boundary.
    pub open spec fn message(self) -> Seq<char> {
        match self {
            ErrorView::Sql(text) => text,
            ErrorView::Migration(text) => text,
            ErrorView::DatabaseNotLoaded(name) => "database "@ + name + " not loaded"@,
            ErrorView::UnsupportedDatatype(name) => "unsupported datatype: "@ + name,
            ErrorView::InvalidDbUrl(url) => "invalid connection url: "@ + url,
        }
    }
}

impl Error {
    /// The human-readable text that is handed to the caller in place of the error.
    pub fn message(&self) -> (r: String)
        ensures
            r@ == self@.message(),
    {
        match self {
            Error::Sql(text) => text.clone(),
            Error::Migration(text) => text.clone(),
            Error::DatabaseNotLoaded(name) => {
                let mut s = String::from_str("database ");
                s.append(name.as_str());
                s.append(" not loaded");
                s
            },
            Error::UnsupportedDatatype(name) => {
                let mut s = String::from_str("unsupported datatype: ");
                s.append(name.as_str());
                s
            },
            Error::InvalidDbUrl(url) => {
                let mut s = String::from_str("invalid connection url: ");
                s.append(url.as_str());
                s
            },
        }
    }
}

} // verus!
