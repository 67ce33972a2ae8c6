//! The ways in which reading a statement fails.

use vstd::prelude::*;

verus! {

/// Why a row, and with it the whole batch, was rejected.
#[derive(Clone, Debug, PartialEq, Eq)]
pub enum Error {
    /// The date of a row is not in day/month/year form. Holds the text that
    /// stood in its place.
    InvalidDate(String),
    /// A row has no description.
    MissingDescription,
    /// A row names no account.
    MissingAccount,
}

/// An `Error` with its text as a sequence of characters.
pub enum ErrorView {
    InvalidDate(Seq<char>),
    MissingDescription,
    MissingAccount,
}

impl View for Error {
    type V = ErrorView;

    open spec fn view(&self) -> ErrorView {
        match *self {
            Error::InvalidDate(text) => ErrorView::InvalidDate(text@),
            Error::MissingDescription => ErrorView::MissingDescription,
            Error::MissingAccount => ErrorView::MissingAccount,
        }
    }
}

} // verus!
