//! Developer projects, API keys and their usage.

use vstd::prelude::*;
use vstd::string::StringExecFns;
use crate::validation::{length_within, opt_length_within, opt_string_view, spec_valid_email, opt_valid_email, length_ok, opt_length_ok, valid_email, opt_email_ok};

verus! {

/// A new developer project.
pub struct CreateProjectDto {
    pub name: String,
}

impl CreateProjectDto {
    /// The message of the first field that breaks its rule, in field order
    /// (`None` when every field is valid).
    pub open spec fn spec_error(&self) -> Option<Seq<char>> {
        if !length_within(self.name@, Some(4), Some(30)) {
            Some("Proje ismi 4-30 karakter arasında olmalıdır"@)
        } else {
            None
        }
    }

    /// Checks every field rule; gives the message of the first broken one.
    pub fn validate(&self) -> (r: Option<String>)
        ensures
            match r {
                Some(m) => self.spec_error() == Some(m@),
                None => self.spec_error() is None,
            },
    {
        if !length_ok(self.name.as_str(), Some(4), Some(30)) {
            return Some(String::from_str("Proje ismi 4-30 karakter arasında olmalıdır"));
        }
        None
    }
}

/// Requests and errors of an API key on one day.
pub struct ApiUsageDto {
    pub date: String,
    pub requests: i32,
    pub errors: i32,
}

} // verus!
