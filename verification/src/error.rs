//! What can go wrong with a command or a submission.

use vstd::prelude::*;
use vstd::string::StringExecFns;

verus! {

#[derive(Debug, PartialEq, Eq)]
pub enum Error {
    /// The request does not carry the token that was agreed on.
    InvalidToken,
    /// What arrived is not a filled dialog.
    InvalidSubmission,
    /// No command has this name.
    CommandNotFound(String),
    /// No dialog comes back under this name.
    SubmissionNotFound(String),
    /// An address was needed and none was given.
    InvalidArgument,
    /// The store has no entry for the address.
    NotFound,
    /// The platform did not do what it was asked to.
    BadResponse,
}

/// What an error holds, as mathematical values.
pub enum ErrorView {
    InvalidToken,
    InvalidSubmission,
    CommandNotFound(Seq<char>),
    SubmissionNotFound(Seq<char>),
    InvalidArgument,
    NotFound,
    BadResponse,
}

impl View for Error {
    type V = ErrorView;

    open spec fn view(&self) -> ErrorView {
        match self {
            Error::InvalidToken => ErrorView::InvalidToken,
            Error::InvalidSubmission => ErrorView::InvalidSubmission,
            Error::CommandNotFound(c) => ErrorView::CommandNotFound(c@),
            Error::SubmissionNotFound(c) => ErrorView::SubmissionNotFound(c@),
            Error::InvalidArgument => ErrorView::InvalidArgument,
            Error::NotFound => ErrorView::NotFound,
            Error::BadResponse => ErrorView::BadResponse,
        }
    }
}

/// The error in words.
pub open spec fn message_of(e: ErrorView) -> Seq<char> {
    match e {
        ErrorView::InvalidToken => "Invalid token"@,
        ErrorView::InvalidSubmission => "Invalid submission"@,
        ErrorView::CommandNotFound(c) => "No such command: "@ + c,
        ErrorView::SubmissionNotFound(c) => "No such submission: "@ + c,
        ErrorView::InvalidArgument => "Invalid argument"@,
        ErrorView::NotFound => "IP not found"@,
        ErrorView::BadResponse => "Bad Slack Response"@,
    }
}

impl Error {
    /// The error in words.
    pub fn message(&self) -> (s: String)
        ensures
            s@ == message_of(self@),
    {
        match self {
            Error::InvalidToken => "Invalid token".to_owned(),
            Error::InvalidSubmission => "Invalid submission".to_owned(),
            Error::CommandNotFound(c) => {
                let mut s = "No such command: ".to_owned();
                s.append(c.as_str());
                s
            },
            Error::SubmissionNotFound(c) => {
                let mut s = "No such submission: ".to_owned();
                s.append(c.as_str());
                s
            },
            Error::InvalidArgument => "Invalid argument".to_owned(),
            Error::NotFound => "IP not found".to_owned(),
            Error::BadResponse => "Bad Slack Response".to_owned(),
        }
    }
}

} // verus!
