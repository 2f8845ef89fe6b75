//! The ways in which a request can fail.

use vstd::prelude::*;

verus! {

/// Why a request failed.
#[derive(Debug)]
pub enum QuestError {
    /// The task that the request names does not exist.
    NotFound,
    /// No verification strategy is registered for the task's type.
    UnsupportedVerificationType,
    /// The outside check could not be made; the caller may try again.
    ExternalCheckFailed(String),
    /// The store could not be reached.
    StoreUnavailable,
    /// Every task id is taken.
    IdSpaceExhausted,
}

/// The mathematical value of a [`QuestError`].
pub enum ErrorView {
    NotFound,
    UnsupportedVerificationType,
    ExternalCheckFailed(Seq<char>),
    StoreUnavailable,
    IdSpaceExhausted,
}

impl View for QuestError {
    type V = ErrorView;

    open spec fn view(&self) -> ErrorView {
        match self {
            QuestError::NotFound => ErrorView::NotFound,
            QuestError::UnsupportedVerificationType => ErrorView::UnsupportedVerificationType,
            QuestError::ExternalCheckFailed(reason) => ErrorView::ExternalCheckFailed(reason@),
            QuestError::StoreUnavailable => ErrorView::StoreUnavailable,
            QuestError::IdSpaceExhausted => ErrorView::IdSpaceExhausted,
        }
    }
}

/// The code under which an error is reported to the caller.
pub open spec fn code_of(e: ErrorView) -> u16 {
    match e {
        ErrorView::NotFound => 404,
        ErrorView::UnsupportedVerificationType => 500,
        ErrorView::ExternalCheckFailed(_) => 503,
        ErrorView::StoreUnavailable => 500,
        ErrorView::IdSpaceExhausted => 507,
    }
}

impl QuestError {
    /// Whether the same request may succeed if it is made again: true of a
    /// failed outside check only.
    pub fn is_retryable(&self) -> (yes: bool)
        ensures
            yes == (self@ is ExternalCheckFailed),
    {
        match self {
            QuestError::ExternalCheckFailed(_) => true,
            _ => false,
        }
    }

    /// The code under which the error is reported. It depends on the kind of
    /// error alone, never on the reason that an outside check gave.
    pub fn code(&self) -> (code: u16)
        ensures
            code == code_of(self@),
    {
        match self {
            QuestError::NotFound => 404,
            QuestError::UnsupportedVerificationType => 500,
            QuestError::ExternalCheckFailed(_) => 503,
            QuestError::StoreUnavailable => 500,
            QuestError::IdSpaceExhausted => 507,
        }
    }
}

} // verus!
