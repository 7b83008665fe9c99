//! The API's single error type: every handler answers failures with one of these,
//! which becomes an HTTP status and a JSON body `{"error": message}`.

use vstd::prelude::*;
use vstd::string::StringExecFns;

verus! {

/// The kinds of failure, each with its HTTP status.
#[derive(Clone, Copy, PartialEq, Eq, Structural, Debug)]
pub enum ErrorKind {
    NotFound,
    Unauthorized,
    Forbidden,
    BadRequest,
    Internal,
    TooManyRequests,
}

impl ErrorKind {
    pub open spec fn spec_status(self) -> u16 {
        match self {
            ErrorKind::NotFound => 404,
            ErrorKind::Unauthorized => 401,
            ErrorKind::Forbidden => 403,
            ErrorKind::BadRequest => 400,
            ErrorKind::Internal => 500,
            ErrorKind::TooManyRequests => 429,
        }
    }

    /// The words that open the error's text form.
    pub open spec fn spec_label(self) -> Seq<char> {
        match self {
            ErrorKind::NotFound => "Not Found: "@,
            ErrorKind::Unauthorized => "Unauthorized: "@,
            ErrorKind::Forbidden => "Forbidden: "@,
            ErrorKind::BadRequest => "Bad Request: "@,
            ErrorKind::Internal => "Internal Server Error: "@,
            ErrorKind::TooManyRequests => "Too Many Requests: "@,
        }
    }
}

/// A failure to report to the client, with the message shown to it.
#[derive(Debug)]
pub enum AppError {
    NotFound(String),
    Unauthorized(String),
    Forbidden(String),
    BadRequest(String),
    Internal(String),
    TooManyRequests(String),
}

impl View for AppError {
    type V = (ErrorKind, Seq<char>);

    open spec fn view(&self) -> (ErrorKind, Seq<char>) {
        match self {
            AppError::NotFound(m) => (ErrorKind::NotFound, m@),
            AppError::Unauthorized(m) => (ErrorKind::Unauthorized, m@),
            AppError::Forbidden(m) => (ErrorKind::Forbidden, m@),
            AppError::BadRequest(m) => (ErrorKind::BadRequest, m@),
            AppError::Internal(m) => (ErrorKind::Internal, m@),
            AppError::TooManyRequests(m) => (ErrorKind::TooManyRequests, m@),
        }
    }
}

impl AppError {
    /// An error of the given kind with the given message.
    pub fn new(kind: ErrorKind, message: String) -> (e: AppError)
        ensures
            e@ == (kind, message@),
    {
        match kind {
            ErrorKind::NotFound => AppError::NotFound(message),
            ErrorKind::Unauthorized => AppError::Unauthorized(message),
            ErrorKind::Forbidden => AppError::Forbidden(message),
            ErrorKind::BadRequest => AppError::BadRequest(message),
            ErrorKind::Internal => AppError::Internal(message),
            ErrorKind::TooManyRequests => AppError::TooManyRequests(message),
        }
    }

    /// An error of the given kind whose message is the given text.
    pub fn with_text(kind: ErrorKind, message: &str) -> (e: AppError)
        ensures
            e@ == (kind, message@),
    {
        AppError::new(kind, String::from_str(message))
    }

    pub fn kind(&self) -> (k: ErrorKind)
        ensures
            k == self@.0,
    {
        match self {
            AppError::NotFound(_) => ErrorKind::NotFound,
            AppError::Unauthorized(_) => ErrorKind::Unauthorized,
            AppError::Forbidden(_) => ErrorKind::Forbidden,
            AppError::BadRequest(_) => ErrorKind::BadRequest,
            AppError::Internal(_) => ErrorKind::Internal,
            AppError::TooManyRequests(_) => ErrorKind::TooManyRequests,
        }
    }

    /// The HTTP status of the response.
    pub fn status_code(&self) -> (s: u16)
        ensures
            s == self@.0.spec_status(),
    {
        match self {
            AppError::NotFound(_) => 404,
            AppError::Unauthorized(_) => 401,
            AppError::Forbidden(_) => 403,
            AppError::BadRequest(_) => 400,
            AppError::Internal(_) => 500,
            AppError::TooManyRequests(_) => 429,
        }
    }

    /// The message of the response body's `error` field.
    pub fn message(&self) -> (m: &String)
        ensures
            m@ == self@.1,
    {
        match self {
            AppError::NotFound(m) => m,
            AppError::Unauthorized(m) => m,
            AppError::Forbidden(m) => m,
            AppError::BadRequest(m) => m,
            AppError::Internal(m) => m,
            AppError::TooManyRequests(m) => m,
        }
    }

    /// The text form of the error (what `Display` shows): its label, then its message.
    pub fn to_display_string(&self) -> (s: String)
        ensures
            s@ == self@.0.spec_label() + self@.1,
    {
        let label = match self {
            AppError::NotFound(_) => "Not Found: ",
            AppError::Unauthorized(_) => "Unauthorized: ",
            AppError::Forbidden(_) => "Forbidden: ",
            AppError::BadRequest(_) => "Bad Request: ",
            AppError::Internal(_) => "Internal Server Error: ",
            AppError::TooManyRequests(_) => "Too Many Requests: ",
        };
        let s = String::from_str(label);
        s.concat(self.message().as_str())
    }
}


/// The database error codes of a unique-constraint violation: PostgreSQL `23505`,
/// SQLite `2067` (unique) and `1555` (primary key), MySQL `1062`.
pub open spec fn spec_unique_violation_code(code: Seq<char>) -> bool {
    code == "23505"@ || code == "2067"@ || code == "1555"@ || code == "1062"@
}

/// Whether a database error code reports a duplicate key (an insert that would repeat a
/// unique value).
pub fn is_unique_violation_code(code: &str) -> (b: bool)
    ensures
        b == spec_unique_violation_code(code@),
{
    crate::assistant::str_is(code, "23505") || crate::assistant::str_is(code, "2067")
        || crate::assistant::str_is(code, "1555") || crate::assistant::str_is(code, "1062")
}

} // verus!
