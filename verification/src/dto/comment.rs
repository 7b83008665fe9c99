//! Comments and reactions exchanged with clients.

use vstd::prelude::*;
use vstd::string::StringExecFns;
use crate::validation::{length_within, opt_length_within, opt_string_view, spec_valid_email, opt_valid_email, length_ok, opt_length_ok, valid_email, opt_email_ok};

verus! {

/// How a comment or vote judges what it is about.
#[derive(Clone, Copy, Debug, PartialEq, Eq, Structural)]
pub enum Sentiment {
    Positive,
    Negative,
    Neutral,
}

/// A reaction to a comment.
#[derive(Clone, Copy, Debug, PartialEq, Eq, Structural)]
pub enum ReactionTypeDto {
    Up,
    Down,
}

} // verus!

verus! {

/// New text of a comment.
pub struct UpdateCommentDto {
    pub comment: String,
}

impl UpdateCommentDto {
    /// The message of the first field that breaks its rule, in field order
    /// (`None` when every field is valid).
    pub open spec fn spec_error(&self) -> Option<Seq<char>> {
        if !length_within(self.comment@, Some(1), Some(500)) {
            Some("Yorum 1 ile 500 karakter arasında olmalıdır"@)
        } else {
            None
        }
    }

    /// Checks every field rule; gives the message of the first broken one.
    pub fn validate(&self) -> (r: Option<String>)
        ensures
            match r {
                Some(m) => self.spec_error() == Some(m@),
                None => self.spec_error() is None,
            },
    {
        if !length_ok(self.comment.as_str(), Some(1), Some(500)) {
            return Some(String::from_str("Yorum 1 ile 500 karakter arasında olmalıdır"));
        }
        None
    }
}

/// Reaction counts of a comment, with the viewer's own reaction.
pub struct ReactionSummaryDto {
    pub up: i32,
    pub down: i32,
    pub my_vote: Option<ReactionTypeDto>,
}

/// The author of a comment as lists show it.
pub struct UserSummaryDto {
    pub id: u128,
    pub nickname: String,
    pub avatar_url: Option<String>,
}

/// A comment as lists and threads show it, with its replies. Ids are the 128-bit values
/// of the UUIDs; the creation time is the stored time as text.
pub struct CommentResponseDto {
    pub id: u128,
    pub menu_id: i32,
    pub parent_id: Option<u128>,
    pub parent_username: Option<String>,
    pub dish_name: Option<String>,
    pub comment: Option<String>,
    pub sentiment: Sentiment,
    pub is_tabldot: bool,
    pub user: UserSummaryDto,
    pub reaction_summary: ReactionSummaryDto,
    pub children: Vec<CommentResponseDto>,
    pub created_at: String,
    pub is_deleted: bool,
    pub deletion_type: Option<String>,
    pub is_blocked: bool,
    pub is_edited: bool,
}

} // verus!
