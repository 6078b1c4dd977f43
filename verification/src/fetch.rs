//! Asking the joke service: where to ask, and how to read what came back.

use crate::category::Category;
use crate::text::{decimal, push_decimal};
use vstd::prelude::*;
use vstd::string::StringExecFns;

verus! {

/// Why a joke could not be fetched.
#[derive(Debug, PartialEq, Eq)]
pub enum FetchError {
    /// The service could not be reached; `cause` says why.
    Transport { cause: String },
    /// The service answered with a status other than success.
    Status { code: u16 },
    /// The service answered, but the body could not be read as text; `cause`
    /// says why.
    Body { cause: String },
}

/// What came of one request to the joke service, before it is judged.
#[derive(Debug, PartialEq, Eq)]
pub enum Transfer {
    /// No answer came; `cause` says why.
    Failed { cause: String },
    /// An answer came, with this status; `body` is its text, or else the
    /// reason for which it could not be read as text.
    Answered { status: u16, body: Result<String, String> },
}

/// The address of the joke service; the name of a category follows it.
pub const JOKE_SERVICE: &'static str = "https://v2.jokeapi.dev/joke/";

/// The query that asks the joke service for plain text.
pub const PLAIN_TEXT_QUERY: &'static str = "?format=txt";

/// What the cause of an answer without success begins with; the status code
/// follows it.
pub const STATUS_CAUSE_PREFIX: &'static str = "HTTP status ";

/// The address at which the joke service hands out jokes of `category` as
/// plain text.
pub open spec fn joke_url_text(category: Category) -> Seq<char> {
    JOKE_SERVICE@ + category.name() + PLAIN_TEXT_QUERY@
}

/// The address to ask for a joke of `category`, as plain text.
pub fn joke_url(category: Category) -> (url: String)
    ensures
        url@ == joke_url_text(category),
{
    let mut url = String::from_str(JOKE_SERVICE);
    url.append(category.as_str());
    url.append(PLAIN_TEXT_QUERY);
    url
}

/// Whether a status code reports success, that is, lies in the range 2xx.
pub open spec fn is_success_status(status: u16) -> bool {
    200 <= status < 300
}

/// What a transfer amounts to: the body of an answer with a success status
/// whose body could be read, whatever that body holds; otherwise the error
/// that tells which of the three things went wrong.
pub open spec fn outcome_of(transfer: Transfer) -> Result<String, FetchError> {
    match transfer {
        Transfer::Failed { cause } => Err(FetchError::Transport { cause }),
        Transfer::Answered { status, body } => if !is_success_status(status) {
            Err(FetchError::Status { code: status })
        } else {
            match body {
                Ok(text) => Ok(text),
                Err(cause) => Err(FetchError::Body { cause }),
            }
        },
    }
}

/// Judges a transfer: the joke text, or the reason for which there is none.
/// A body is taken as it is, even an empty one.
pub fn fetch_outcome(transfer: Transfer) -> (outcome: Result<String, FetchError>)
    ensures
        outcome == outcome_of(transfer),
{
    match transfer {
        Transfer::Failed { cause } => Err(FetchError::Transport { cause }),
        Transfer::Answered { status, body } => {
            if status < 200 || status >= 300 {
                Err(FetchError::Status { code: status })
            } else {
                match body {
                    Ok(text) => Ok(text),
                    Err(cause) => Err(FetchError::Body { cause }),
                }
            }
        },
    }
}

impl FetchError {
    /// The cause of the failure in words: the cause that was reported, or,
    /// for an answer without success, its status code.
    pub open spec fn cause_text(self) -> Seq<char> {
        match self {
            FetchError::Transport { cause } => cause@,
            FetchError::Status { code } => STATUS_CAUSE_PREFIX@ + decimal(code as nat),
            FetchError::Body { cause } => cause@,
        }
    }

    /// The cause of the failure in words.
    pub fn cause(&self) -> (text: String)
        ensures
            text@ == self.cause_text(),
    {
        match self {
            FetchError::Transport { cause } => cause.clone(),
            FetchError::Status { code } => {
                let mut text = String::from_str(STATUS_CAUSE_PREFIX);
                push_decimal(&mut text, *code as u64);
                text
            },
            FetchError::Body { cause } => cause.clone(),
        }
    }
}

/// A transfer succeeds exactly when an answer came with a success status and
/// a readable body, and then with that body.
pub proof fn success_is_a_readable_2xx(transfer: Transfer)
    ensures
        outcome_of(transfer) is Ok <==> (transfer matches Transfer::Answered { status, body }
            && is_success_status(status) && body is Ok),
        outcome_of(transfer) matches Ok(text) ==> transfer->body == Ok::<String, String>(text),
{
}

} // verus!
