//! The typed failures of the repository.

use vstd::prelude::*;

verus! {

/// How a list store failed to carry out a command.
#[derive(Debug)]
pub enum BackendFailure {
    /// The store or the connection to it reported an error.
    Reported {
        /// The error code of the reply, where it had one.
        code: Option<String>,
        /// The text that came with it, where there was any.
        detail: Option<String>,
    },
    /// The reply was of a kind that the command does not have.
    UnexpectedReply,
    /// The list holds as many items as a length can count.
    ListFull,
}

/// A `BackendFailure` as plain values.
pub enum BackendFailureView {
    Reported { code: Option<Seq<char>>, detail: Option<Seq<char>> },
    UnexpectedReply,
    ListFull,
}

/// An optional text as plain values.
pub open spec fn optional_text(text: Option<String>) -> Option<Seq<char>> {
    match text {
        Some(text) => Some(text@),
        None => None,
    }
}

impl View for BackendFailure {
    type V = BackendFailureView;

    open spec fn view(&self) -> BackendFailureView {
        match self {
            BackendFailure::Reported { code, detail } => BackendFailureView::Reported {
                code: optional_text(*code),
                detail: optional_text(*detail),
            },
            BackendFailure::UnexpectedReply => BackendFailureView::UnexpectedReply,
            BackendFailure::ListFull => BackendFailureView::ListFull,
        }
    }
}

/// Why a repository operation failed.
#[derive(Debug)]
pub enum RepositoryError {
    /// The call to the list store failed: connection, protocol, or an error
    /// that the store reported.
    BackendError(BackendFailure),
    /// A record could not be written as text, or a stored text is no record.
    /// It holds the error of the JSON reader where it was the reader that
    /// refused the text, and nothing where the text was JSON but no record.
    SerializationError(Option<serde_json::Error>),
    /// No element exists at the index that the operation named.
    IndexOutOfRange,
    /// No connection to the list store could be had.
    PoolExhausted,
}

/// A `RepositoryError` as plain values: its kind, and what a store reported.
pub enum RepositoryErrorView {
    BackendError(BackendFailureView),
    SerializationError,
    IndexOutOfRange,
    PoolExhausted,
}

impl View for RepositoryError {
    type V = RepositoryErrorView;

    open spec fn view(&self) -> RepositoryErrorView {
        match self {
            RepositoryError::BackendError(failure) => RepositoryErrorView::BackendError(failure@),
            RepositoryError::SerializationError(_) => RepositoryErrorView::SerializationError,
            RepositoryError::IndexOutOfRange => RepositoryErrorView::IndexOutOfRange,
            RepositoryError::PoolExhausted => RepositoryErrorView::PoolExhausted,
        }
    }
}

impl From<serde_json::Error> for RepositoryError {
    fn from(error: serde_json::Error) -> (converted: RepositoryError) {
        RepositoryError::SerializationError(Some(error))
    }
}

impl vstd::std_specs::convert::FromSpecImpl<serde_json::Error> for RepositoryError {
    open spec fn obeys_from_spec() -> bool {
        true
    }

    open spec fn from_spec(error: serde_json::Error) -> RepositoryError {
        RepositoryError::SerializationError(Some(error))
    }
}

} // verus!
