use vstd::prelude::*;
use crate::text::chars::extend_text;
use crate::text::chars::text_of;
use crate::text::number::decimal;
use crate::text::number::push_decimal;

verus! {

/// How long one fetch may take, in seconds.
pub const FETCH_TIMEOUT_SECS: u64 = 30;

/// What the transport reports of one GET request.
#[derive(Debug, PartialEq, Eq)]
pub enum Transfer {
    /// No answer came within the time allowed.
    TimedOut(String),
    /// The request failed on the way.
    Failed(String),
    /// An answer came, with this status, for which `reason` is the usual
    /// phrase. `body` is its text, or why the text could not be had; it
    /// counts only under a status of success.
    Answered { status: u16, reason: String, body: Result<String, String> },
}

/// Why a feed could not be had.
#[derive(Debug, PartialEq, Eq)]
pub enum FetchError {
    /// No answer came within the time allowed.
    Timeout(String),
    /// The request failed on the way.
    Transport(String),
    /// The answer had this status, which is not one of success, with this
    /// phrase for it.
    HttpStatus { status: u16, reason: String },
    /// The answer was one of success, and its text could not be had.
    Decode(String),
}

/// Whether `status` says that the request succeeded.
pub open spec fn is_success(status: u16) -> bool {
    200 <= status <= 299
}

/// The text of the feed that `transfer` brought, or why it brought none.
pub open spec fn fetched(transfer: Transfer) -> Result<String, FetchError> {
    match transfer {
        Transfer::TimedOut(detail) => Err(FetchError::Timeout(detail)),
        Transfer::Failed(detail) => Err(FetchError::Transport(detail)),
        Transfer::Answered { status, reason, body } => if is_success(status) {
            match body {
                Ok(text) => Ok(text),
                Err(detail) => Err(FetchError::Decode(detail)),
            }
        } else {
            Err(FetchError::HttpStatus { status, reason })
        },
    }
}

/// What is reported of `error`: of a status, that it is an HTTP error,
/// with its number and its phrase; of any other error, what the transport
/// said of it.
pub open spec fn failure_text(error: FetchError) -> Seq<char> {
    match error {
        FetchError::Timeout(detail) => detail@,
        FetchError::Transport(detail) => detail@,
        FetchError::HttpStatus { status, reason } => "HTTP error: "@ + decimal(status as nat)
            + " "@ + reason@,
        FetchError::Decode(detail) => detail@,
    }
}

/// Whether `status` says that the request succeeded.
pub fn status_is_success(status: u16) -> (yes: bool)
    ensures
        yes == is_success(status),
{
    200 <= status && status <= 299
}

/// The text of the feed that `transfer` brought, or why it brought none:
/// a transfer that timed out or failed gives that error, an answer with a
/// status outside 200 to 299 gives the status and its phrase, and an
/// answer of success gives its text, or the reason why the text could not
/// be had.
pub fn fetch_result(transfer: Transfer) -> (result: Result<String, FetchError>)
    ensures
        result == fetched(transfer),
{
    match transfer {
        Transfer::TimedOut(detail) => Err(FetchError::Timeout(detail)),
        Transfer::Failed(detail) => Err(FetchError::Transport(detail)),
        Transfer::Answered { status, reason, body } => {
            if status_is_success(status) {
                match body {
                    Ok(text) => Ok(text),
                    Err(detail) => Err(FetchError::Decode(detail)),
                }
            } else {
                Err(FetchError::HttpStatus { status, reason })
            }
        },
    }
}

impl FetchError {
    /// What is reported of this error.
    pub fn message(&self) -> (text: String)
        ensures
            text@ == failure_text(*self),
    {
        let mut out: Vec<char> = Vec::new();
        match self {
            FetchError::Timeout(detail) => {
                extend_text(&mut out, detail.as_str());
            },
            FetchError::Transport(detail) => {
                extend_text(&mut out, detail.as_str());
            },
            FetchError::HttpStatus { status, reason } => {
                extend_text(&mut out, "HTTP error: ");
                push_decimal(&mut out, *status as u64);
                extend_text(&mut out, " ");
                extend_text(&mut out, reason.as_str());
            },
            FetchError::Decode(detail) => {
                extend_text(&mut out, detail.as_str());
            },
        }
        text_of(&out)
    }
}

} // verus!
