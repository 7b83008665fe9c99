//! Reactions to comments.

use vstd::prelude::*;
use vstd::string::StringExecFns;
use crate::validation::{length_within, opt_length_within, opt_string_view, spec_valid_email, opt_valid_email, length_ok, opt_length_ok, valid_email, opt_email_ok};

verus! {

/// Up and down votes of a comment, with the viewer's own vote.
pub struct ReactionSummaryDto {
    pub upvotes: i32,
    pub downvotes: i32,
    pub my_vote: Option<crate::dto::comment::ReactionTypeDto>,
}

} // verus!
