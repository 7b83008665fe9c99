//! The AI commentator: the Gemini endpoint it calls, the answer schema of monthly
//! batches, and how a reply of the model is read.

use vstd::prelude::*;
use crate::service_errors::BotError;
use crate::text::{char_vec, extend_str, string_from_chars, trim, spec_trim};
use vstd::string::StringExecFns;

verus! {

/// The AI commentator (Gemini).
pub struct BotService;

/// Structured-output schema of a monthly batch: one comment (`yorum`) per day (`tarih`,
/// `YYYY-MM-DD`).
pub const BOT_OUTPUT_SCHEMA: &'static str = "{\n      \"type\": \"object\",\n      \"properties\": {\n        \"yorum_listesi\": {\n          \"type\": \"array\",\n          \"description\": \"Günlük yemek yorumlarının listesi\",\n          \"items\": {\n            \"type\": \"object\",\n            \"properties\": {\n              \"tarih\": {\n                \"type\": \"string\",\n                \"description\": \"Yemek günü, ISO 8601 formatında: YYYY-MM-DD (örn. 2026-04-01)\"\n              },\n              \"yorum\": {\n                \"type\": \"string\",\n                \"description\": \"O güne ait Kepçe Bot yorumu.\"\n              }\n            },\n            \"required\": [\"tarih\", \"yorum\"]\n          }\n        }\n      },\n      \"required\": [\"yorum_listesi\"]\n    }";

impl BotService {
    /// The `generateContent` endpoint of a Gemini model.
    pub fn endpoint(model: &str) -> (r: String)
        ensures
            r@ == "https://generativelanguage.googleapis.com/v1beta/models/"@ + model@ + ":generateContent"@,
    {
        let mut out: Vec<char> = Vec::new();
        extend_str(&mut out, "https://generativelanguage.googleapis.com/v1beta/models/");
        extend_str(&mut out, model);
        extend_str(&mut out, ":generateContent");
        string_from_chars(out.as_slice())
    }

    /// The error for a refused request, with the body Gemini sent.
    pub fn refusal(body: &str) -> (r: BotError)
        ensures
            r matches BotError::ApiError(m) && m@ == "Gemini API Error: "@ + body@,
    {
        let mut out: Vec<char> = Vec::new();
        extend_str(&mut out, "Gemini API Error: ");
        extend_str(&mut out, body);
        BotError::ApiError(string_from_chars(out.as_slice()))
    }

    /// The comment in a reply: the text of the first part of the first candidate,
    /// trimmed; a reply without one is an unexpected format.
    pub fn reply_text(first_part: Option<&str>) -> (r: Result<String, BotError>)
        ensures
            match first_part {
                Some(t) => r matches Ok(s) && s@ == spec_trim(t@),
                None => r matches Err(BotError::ApiError(m)) && m@ == "Beklenmeyen JSON formatı"@,
            },
    {
        match first_part {
            Some(t) => {
                let v = trim(t);
                Ok(string_from_chars(v.as_slice()))
            },
            None => Err(BotError::ApiError(String::from_str("Beklenmeyen JSON formatı"))),
        }
    }
}

} // verus!
