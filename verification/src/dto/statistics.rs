//! Statistics pages.

use vstd::prelude::*;
use vstd::string::StringExecFns;
use crate::validation::{length_within, opt_length_within, opt_string_view, spec_valid_email, opt_valid_email, length_ok, opt_length_ok, valid_email, opt_email_ok};

verus! {

/// A recent moderation action.
pub struct RecentActionDto {
    pub action: String,
    pub category: String,
    pub action_type: String,
    pub created_at: String,
}

/// A tag with how often it was used.
pub struct TrendingTagDto {
    pub name: String,
    pub count: i64,
    pub category: String,
}

/// A moderator with the reports they resolved.
pub struct ContributorDto {
    pub nickname: String,
    pub avatar_url: Option<String>,
    pub resolved_count: i32,
}

/// Report handling figures.
pub struct HumanityStatsDto {
    pub resolved_reports: i64,
    pub pending_reports: i64,
    pub total_reports: i64,
    pub resolution_rate: Option<i32>,
    pub contributors: Vec<ContributorDto>,
}

} // verus!
