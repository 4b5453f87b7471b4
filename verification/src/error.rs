//! What can go wrong while a role is assumed.

use vstd::prelude::*;
use vstd::string::StringExecFns;

verus! {

/// Why a role could not be assumed.
#[derive(Debug, Clone, PartialEq, Eq)]
pub enum AssumeError {
    /// The profile has no configured role.
    UnknownProfile(String),
    /// A command could not be run at all; the reason is the system's.
    CommandFailed(String),
    /// The session of the profile is not valid.
    SessionNotLoggedIn,
    /// The login ended without success.
    ReauthenticationFailed,
    /// The exchange wrote to its error stream; the text is what it wrote.
    ExchangeRejected(String),
    /// The exchange wrote no answer that could be understood.
    ExchangeResponseMalformed,
    /// The credentials file could not be written; the reason is the system's.
    StoreWriteError(String),
}

/// An error, with the texts of its strings.
pub enum ErrorView {
    UnknownProfile(Seq<char>),
    CommandFailed(Seq<char>),
    SessionNotLoggedIn,
    ReauthenticationFailed,
    ExchangeRejected(Seq<char>),
    ExchangeResponseMalformed,
    StoreWriteError(Seq<char>),
}

impl View for AssumeError {
    type V = ErrorView;

    open spec fn view(&self) -> ErrorView {
        match self {
            AssumeError::UnknownProfile(profile) => ErrorView::UnknownProfile(profile@),
            AssumeError::CommandFailed(reason) => ErrorView::CommandFailed(reason@),
            AssumeError::SessionNotLoggedIn => ErrorView::SessionNotLoggedIn,
            AssumeError::ReauthenticationFailed => ErrorView::ReauthenticationFailed,
            AssumeError::ExchangeRejected(text) => ErrorView::ExchangeRejected(text@),
            AssumeError::ExchangeResponseMalformed => ErrorView::ExchangeResponseMalformed,
            AssumeError::StoreWriteError(reason) => ErrorView::StoreWriteError(reason@),
        }
    }
}

/// The line that tells the operator of an error.
pub open spec fn message_of(error: ErrorView) -> Seq<char> {
    match error {
        ErrorView::UnknownProfile(profile) => "Role not found for profile: "@ + profile,
        ErrorView::CommandFailed(reason) => "Could not run the command: "@ + reason,
        ErrorView::SessionNotLoggedIn => "You are not logged in"@,
        ErrorView::ReauthenticationFailed => "Could not log in"@,
        ErrorView::ExchangeRejected(text) => "Role could not be assumed: "@ + text,
        ErrorView::ExchangeResponseMalformed => "Could not handle output"@,
        ErrorView::StoreWriteError(reason) => "Could not write the credentials: "@ + reason,
    }
}

/// The exit code of the process for an error: one for each kind, none of
/// them zero.
pub open spec fn exit_code_of(error: ErrorView) -> u8 {
    match error {
        ErrorView::UnknownProfile(_) => 3,
        ErrorView::CommandFailed(_) => 4,
        ErrorView::SessionNotLoggedIn => 5,
        ErrorView::ReauthenticationFailed => 6,
        ErrorView::ExchangeRejected(_) => 7,
        ErrorView::ExchangeResponseMalformed => 8,
        ErrorView::StoreWriteError(_) => 9,
    }
}

/// Whether two errors are of one kind.
pub open spec fn same_kind(first: ErrorView, second: ErrorView) -> bool {
    match (first, second) {
        (ErrorView::UnknownProfile(_), ErrorView::UnknownProfile(_)) => true,
        (ErrorView::CommandFailed(_), ErrorView::CommandFailed(_)) => true,
        (ErrorView::SessionNotLoggedIn, ErrorView::SessionNotLoggedIn) => true,
        (ErrorView::ReauthenticationFailed, ErrorView::ReauthenticationFailed) => true,
        (ErrorView::ExchangeRejected(_), ErrorView::ExchangeRejected(_)) => true,
        (ErrorView::ExchangeResponseMalformed, ErrorView::ExchangeResponseMalformed) => true,
        (ErrorView::StoreWriteError(_), ErrorView::StoreWriteError(_)) => true,
        _ => false,
    }
}

/// Errors have one exit code exactly when they are of one kind, and no
/// exit code is that of success or of a failure to start.
pub proof fn lemma_exit_codes(first: ErrorView, second: ErrorView)
    ensures
        exit_code_of(first) == exit_code_of(second) <==> same_kind(first, second),
        exit_code_of(first) > 2,
{
}

impl AssumeError {
    /// The line that tells the operator of the error.
    pub fn message(&self) -> (line: String)
        ensures
            line@ == message_of(self@),
    {
        match self {
            AssumeError::UnknownProfile(profile) => "Role not found for profile: ".to_owned().concat(
                profile.as_str(),
            ),
            AssumeError::CommandFailed(reason) => "Could not run the command: ".to_owned().concat(reason.as_str()),
            AssumeError::SessionNotLoggedIn => "You are not logged in".to_owned(),
            AssumeError::ReauthenticationFailed => "Could not log in".to_owned(),
            AssumeError::ExchangeRejected(text) => "Role could not be assumed: ".to_owned().concat(text.as_str()),
            AssumeError::ExchangeResponseMalformed => "Could not handle output".to_owned(),
            AssumeError::StoreWriteError(reason) => "Could not write the credentials: ".to_owned().concat(
                reason.as_str(),
            ),
        }
    }

    /// The exit code of the process for the error.
    pub fn exit_code(&self) -> (code: u8)
        ensures
            code == exit_code_of(self@),
    {
        match self {
            AssumeError::UnknownProfile(_) => 3,
            AssumeError::CommandFailed(_) => 4,
            AssumeError::SessionNotLoggedIn => 5,
            AssumeError::ReauthenticationFailed => 6,
            AssumeError::ExchangeRejected(_) => 7,
            AssumeError::ExchangeResponseMalformed => 8,
            AssumeError::StoreWriteError(_) => 9,
        }
    }
}

} // verus!
