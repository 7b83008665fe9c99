//! Field rules of request bodies: lengths counted in characters, and e-mail syntax.
//! A request whose body breaks a rule is refused with the rule's message, or with
//! `Girdi doğrulama hatası` when the rule has none.

use vstd::prelude::*;
use vstd::string::{StrSliceExecFns, StringExecFns};
use crate::error::{AppError, ErrorKind};
use crate::text::{extend_str, string_from_chars};

verus! {

/// The message shown when the broken rule has no message of its own.
pub const DEFAULT_MESSAGE: &'static str = "Girdi doğrulama hatası";

/// A length in characters lies within the optional bounds.
pub open spec fn length_within(s: Seq<char>, min: Option<u64>, max: Option<u64>) -> bool {
    (match min {
        Some(m) => s.len() >= m,
        None => true,
    }) && (match max {
        Some(m) => s.len() <= m,
        None => true,
    })
}

/// An absent value satisfies a length rule; a present one must meet it.
pub open spec fn opt_length_within(s: Option<Seq<char>>, min: Option<u64>, max: Option<u64>) -> bool {
    match s {
        Some(v) => length_within(v, min, max),
        None => true,
    }
}

/// The view of an optional string.
pub open spec fn opt_string_view(s: &Option<String>) -> Option<Seq<char>> {
    match s {
        Some(v) => Some(v@),
        None => None,
    }
}

/// Characters in a string slice (`chars().count()`).
pub fn char_count(s: &str) -> (n: usize)
    ensures
        n == s@.len(),
{
    s.unicode_len()
}

pub fn length_ok(s: &str, min: Option<u64>, max: Option<u64>) -> (b: bool)
    ensures
        b == length_within(s@, min, max),
{
    let n = char_count(s) as u64;
    (match min {
        Some(m) => n >= m,
        None => true,
    }) && (match max {
        Some(m) => n <= m,
        None => true,
    })
}

pub fn opt_length_ok(s: &Option<String>, min: Option<u64>, max: Option<u64>) -> (b: bool)
    ensures
        b == opt_length_within(opt_string_view(s), min, max),
{
    match s {
        Some(v) => length_ok(v.as_str(), min, max),
        None => true,
    }
}

/// What `validator::ValidateEmail::validate_email` answers for a text: the part
/// before the last `@` must be at most 64 characters of the permitted user syntax, and
/// the part after it a domain name of at most 255 characters (or its IDN form).
pub uninterp spec fn spec_valid_email(s: Seq<char>) -> bool;

/// `validator::ValidateEmail::validate_email`; its answer is named by
/// `spec_valid_email`. Claimed beyond the name: a text without `@` is refused, which
/// the function checks before anything else.
#[verifier::external_body]
pub fn valid_email(s: &str) -> (b: bool)
    ensures
        b == spec_valid_email(s@),
        !crate::text::spec_contains(s@, seq!['@']) ==> !b,
{
    validator::ValidateEmail::validate_email(&s)
}

/// An absent e-mail satisfies an e-mail rule; a present one must be valid.
pub open spec fn opt_valid_email(s: Option<Seq<char>>) -> bool {
    match s {
        Some(v) => spec_valid_email(v),
        None => true,
    }
}

pub fn opt_email_ok(s: &Option<String>) -> (b: bool)
    ensures
        b == opt_valid_email(opt_string_view(s)),
{
    match s {
        Some(v) => valid_email(v.as_str()),
        None => true,
    }
}

/// A body that has passed its field rules: what the handler of a validated JSON body
/// receives.
pub struct ValidatedJson<T>(pub T);

/// The `400 Bad Request` answer to a body that breaks a rule, with the rule's message.
pub fn rejection(message: String) -> (e: crate::error::AppError)
    ensures
        e@ == (crate::error::ErrorKind::BadRequest, message@),
{
    crate::error::AppError::new(crate::error::ErrorKind::BadRequest, message)
}

/// The answer to a body that is not well-formed JSON for its type: `400 Bad Request`
/// with the parser's explanation.
pub fn malformed_body(explanation: &str) -> (e: crate::error::AppError)
    ensures
        e@ == (crate::error::ErrorKind::BadRequest, "Geçersiz JSON: "@ + explanation@),
{
    crate::error::AppError::new(
        crate::error::ErrorKind::BadRequest,
        String::from_str("Geçersiz JSON: ").concat(explanation),
    )
}

/// The answer to a request body that does not pass its checks: the message of the first
/// failed check that has one, or "Girdi doğrulama hatası" when there is none (or it is
/// empty).
pub open spec fn spec_validation_message(first: Option<Seq<char>>) -> Seq<char> {
    match first {
        Some(m) => if m.len() > 0 { m } else { "Girdi doğrulama hatası"@ },
        None => "Girdi doğrulama hatası"@,
    }
}

/// Answers a request body that does not pass its checks, `Bad Request` with the message
/// of `spec_validation_message`.
pub fn validation_rejection(first: Option<&str>) -> (e: AppError)
    ensures
        e@ == (ErrorKind::BadRequest, spec_validation_message(match first {
            Some(m) => Some(m@),
            None => None,
        })),
{
    match first {
        Some(m) => if m.unicode_len() > 0 {
            AppError::with_text(ErrorKind::BadRequest, m)
        } else {
            AppError::with_text(ErrorKind::BadRequest, "Girdi doğrulama hatası")
        },
        None => AppError::with_text(ErrorKind::BadRequest, "Girdi doğrulama hatası"),
    }
}

/// Answers a request body that is not the JSON expected: `Bad Request` with
/// "Geçersiz JSON: " and the reader's complaint.
pub fn json_rejection(detail: &str) -> (e: AppError)
    ensures
        e@ == (ErrorKind::BadRequest, "Geçersiz JSON: "@ + detail@),
{
    let mut v: Vec<char> = Vec::new();
    extend_str(&mut v, "Geçersiz JSON: ");
    extend_str(&mut v, detail);
    AppError::new(ErrorKind::BadRequest, string_from_chars(v.as_slice()))
}

} // verus!
