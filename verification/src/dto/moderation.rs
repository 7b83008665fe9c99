//! Moderation panel bodies and answers.

use vstd::prelude::*;
use vstd::string::StringExecFns;
use crate::validation::{length_within, opt_length_within, opt_string_view, spec_valid_email, opt_valid_email, length_ok, opt_length_ok, valid_email, opt_email_ok};

verus! {

/// Filters of the pending-menu list.
pub struct GetMenusQuery {
    pub status: Option<String>,
    pub city_slug: Option<String>,
    pub month: Option<String>,
}

/// A complaint about a comment.
pub struct ReportCommentRequestDto {
    pub reason: String,
}

impl ReportCommentRequestDto {
    /// The message of the first field that breaks its rule, in field order
    /// (`None` when every field is valid).
    pub open spec fn spec_error(&self) -> Option<Seq<char>> {
        if !length_within(self.reason@, Some(1), Some(500)) {
            Some("Şikayet nedeni 1 ile 500 karakter arasında olmalıdır"@)
        } else {
            None
        }
    }

    /// Checks every field rule; gives the message of the first broken one.
    pub fn validate(&self) -> (r: Option<String>)
        ensures
            match r {
                Some(m) => self.spec_error() == Some(m@),
                None => self.spec_error() is None,
            },
    {
        if !length_ok(self.reason.as_str(), Some(1), Some(500)) {
            return Some(String::from_str("Şikayet nedeni 1 ile 500 karakter arasında olmalıdır"));
        }
        None
    }
}

/// A request for an AI-written comment about a dish.
pub struct BotGenerateRequestDto {
    pub dish_name: String,
    pub sentiment: String,
}

impl BotGenerateRequestDto {
    /// The message of the first field that breaks its rule, in field order
    /// (`None` when every field is valid).
    pub open spec fn spec_error(&self) -> Option<Seq<char>> {
        if !length_within(self.dish_name@, Some(1), Some(200)) {
            Some("Yemek adı 1 ile 200 karakter arasında olmalıdır"@)
        } else if !length_within(self.sentiment@, Some(1), Some(20)) {
            Some("Sentiment geçersiz"@)
        } else {
            None
        }
    }

    /// Checks every field rule; gives the message of the first broken one.
    pub fn validate(&self) -> (r: Option<String>)
        ensures
            match r {
                Some(m) => self.spec_error() == Some(m@),
                None => self.spec_error() is None,
            },
    {
        if !length_ok(self.dish_name.as_str(), Some(1), Some(200)) {
            return Some(String::from_str("Yemek adı 1 ile 200 karakter arasında olmalıdır"));
        }
        if !length_ok(self.sentiment.as_str(), Some(1), Some(20)) {
            return Some(String::from_str("Sentiment geçersiz"));
        }
        None
    }
}

/// An AI-written comment.
pub struct BotGenerateResponseDto {
    pub generated_comment: String,
}

/// New bot commentary of a menu.
pub struct UpdateMenuCommentaryDto {
    pub content: String,
}

impl UpdateMenuCommentaryDto {
    /// The message of the first field that breaks its rule, in field order
    /// (`None` when every field is valid).
    pub open spec fn spec_error(&self) -> Option<Seq<char>> {
        if !length_within(self.content@, Some(1), Some(1000)) {
            Some("Girdi doğrulama hatası"@)
        } else {
            None
        }
    }

    /// Checks every field rule; gives the message of the first broken one.
    pub fn validate(&self) -> (r: Option<String>)
        ensures
            match r {
                Some(m) => self.spec_error() == Some(m@),
                None => self.spec_error() is None,
            },
    {
        if !length_ok(self.content.as_str(), Some(1), Some(1000)) {
            return Some(String::from_str("Girdi doğrulama hatası"));
        }
        None
    }
}

/// A dish of a menu, for editing.
pub struct MenuDishItemDto {
    pub id: i32,
    pub name: String,
}

/// The dishes a menu should hold.
pub struct UpdateMenuItemsDto {
    pub dish_ids: Vec<i32>,
}

/// Flags to change on an account.
pub struct UpdateUserDto {
    pub is_verified: Option<bool>,
    pub is_admin: Option<bool>,
    pub is_banned: Option<bool>,
}

/// New status of an account.
pub struct UpdateUserStatusDto {
    pub status: String,
}

/// A new tag.
pub struct CreateTagDto {
    pub name: String,
    pub category: String,
    pub sort_order: i32,
}

impl CreateTagDto {
    /// The message of the first field that breaks its rule, in field order
    /// (`None` when every field is valid).
    pub open spec fn spec_error(&self) -> Option<Seq<char>> {
        if !length_within(self.name@, Some(1), Some(100)) {
            Some("Girdi doğrulama hatası"@)
        } else if !length_within(self.category@, Some(1), Some(50)) {
            Some("Girdi doğrulama hatası"@)
        } else {
            None
        }
    }

    /// Checks every field rule; gives the message of the first broken one.
    pub fn validate(&self) -> (r: Option<String>)
        ensures
            match r {
                Some(m) => self.spec_error() == Some(m@),
                None => self.spec_error() is None,
            },
    {
        if !length_ok(self.name.as_str(), Some(1), Some(100)) {
            return Some(String::from_str("Girdi doğrulama hatası"));
        }
        if !length_ok(self.category.as_str(), Some(1), Some(50)) {
            return Some(String::from_str("Girdi doğrulama hatası"));
        }
        None
    }
}

/// How a report was resolved.
pub struct ResolveReportDto {
    pub action_taken: String,
}

impl ResolveReportDto {
    /// The message of the first field that breaks its rule, in field order
    /// (`None` when every field is valid).
    pub open spec fn spec_error(&self) -> Option<Seq<char>> {
        if !length_within(self.action_taken@, Some(1), Some(255)) {
            Some("Girdi doğrulama hatası"@)
        } else {
            None
        }
    }

    /// Checks every field rule; gives the message of the first broken one.
    pub fn validate(&self) -> (r: Option<String>)
        ensures
            match r {
                Some(m) => self.spec_error() == Some(m@),
                None => self.spec_error() is None,
            },
    {
        if !length_ok(self.action_taken.as_str(), Some(1), Some(255)) {
            return Some(String::from_str("Girdi doğrulama hatası"));
        }
        None
    }
}

/// City of a menu under moderation.
pub struct MenuModerationCityDto {
    pub name: String,
}

/// A menu under moderation.
pub struct MenuModerationResponseDto {
    pub id: i32,
    pub date: String,
    pub meal_type: String,
    pub status: String,
    pub bot_commentary: Option<String>,
    pub city: Option<MenuModerationCityDto>,
}

/// Author of a vote under moderation.
pub struct VoteModerationUserDto {
    pub username: String,
}

/// Reactions of a vote under moderation.
pub struct VoteModerationReactionSummaryDto {
    pub up: i32,
    pub down: i32,
}

/// A tag.
pub struct TagResponseDto {
    pub id: i32,
    pub name: String,
    pub category: String,
}

/// A new system incident.
pub struct CreateIncidentDto {
    pub component: String,
    pub title: String,
    pub message: String,
    pub impact: String,
}

impl CreateIncidentDto {
    /// The message of the first field that breaks its rule, in field order
    /// (`None` when every field is valid).
    pub open spec fn spec_error(&self) -> Option<Seq<char>> {
        if !length_within(self.component@, Some(1), Some(100)) {
            Some("Girdi doğrulama hatası"@)
        } else if !length_within(self.title@, Some(1), Some(255)) {
            Some("Girdi doğrulama hatası"@)
        } else if !length_within(self.message@, Some(1), None) {
            Some("Girdi doğrulama hatası"@)
        } else if !length_within(self.impact@, Some(1), Some(50)) {
            Some("Girdi doğrulama hatası"@)
        } else {
            None
        }
    }

    /// Checks every field rule; gives the message of the first broken one.
    pub fn validate(&self) -> (r: Option<String>)
        ensures
            match r {
                Some(m) => self.spec_error() == Some(m@),
                None => self.spec_error() is None,
            },
    {
        if !length_ok(self.component.as_str(), Some(1), Some(100)) {
            return Some(String::from_str("Girdi doğrulama hatası"));
        }
        if !length_ok(self.title.as_str(), Some(1), Some(255)) {
            return Some(String::from_str("Girdi doğrulama hatası"));
        }
        if !length_ok(self.message.as_str(), Some(1), None) {
            return Some(String::from_str("Girdi doğrulama hatası"));
        }
        if !length_ok(self.impact.as_str(), Some(1), Some(50)) {
            return Some(String::from_str("Girdi doğrulama hatası"));
        }
        None
    }
}

/// New status of an incident.
pub struct UpdateIncidentDto {
    pub status: String,
}

impl UpdateIncidentDto {
    /// The message of the first field that breaks its rule, in field order
    /// (`None` when every field is valid).
    pub open spec fn spec_error(&self) -> Option<Seq<char>> {
        if !length_within(self.status@, Some(1), Some(50)) {
            Some("Girdi doğrulama hatası"@)
        } else {
            None
        }
    }

    /// Checks every field rule; gives the message of the first broken one.
    pub fn validate(&self) -> (r: Option<String>)
        ensures
            match r {
                Some(m) => self.spec_error() == Some(m@),
                None => self.spec_error() is None,
            },
    {
        if !length_ok(self.status.as_str(), Some(1), Some(50)) {
            return Some(String::from_str("Girdi doğrulama hatası"));
        }
        None
    }
}

/// An incident as the administrators see it.
pub struct IncidentAdminDto {
    pub id: i32,
    pub component: String,
    pub title: String,
    pub message: String,
    pub status: String,
    pub impact: String,
    pub created_at: Option<String>,
    pub resolved_at: Option<String>,
}

/// A warning to send to a user.
pub struct WarnUserDto {
    pub message: String,
}

impl WarnUserDto {
    /// The message of the first field that breaks its rule, in field order
    /// (`None` when every field is valid).
    pub open spec fn spec_error(&self) -> Option<Seq<char>> {
        if !length_within(self.message@, Some(1), Some(1000)) {
            Some("Uyarı mesajı 1 ile 1000 karakter arasında olmalıdır"@)
        } else {
            None
        }
    }

    /// Checks every field rule; gives the message of the first broken one.
    pub fn validate(&self) -> (r: Option<String>)
        ensures
            match r {
                Some(m) => self.spec_error() == Some(m@),
                None => self.spec_error() is None,
            },
    {
        if !length_ok(self.message.as_str(), Some(1), Some(1000)) {
            return Some(String::from_str("Uyarı mesajı 1 ile 1000 karakter arasında olmalıdır"));
        }
        None
    }
}

/// Which city and month to export for the bot.
pub struct BotExportMonthlyQuery {
    pub city_slug: String,
    pub month: String,
}

/// Bot commentaries to attach to the menus of a city.
pub struct InjectBotCommentsDto {
    pub city_slug: String,
    pub comments: Vec<InjectBotCommentEntryDto>,
}

impl InjectBotCommentsDto {
    /// The message of the first field that breaks its rule, in field order
    /// (`None` when every field is valid).
    pub open spec fn spec_error(&self) -> Option<Seq<char>> {
        if !length_within(self.city_slug@, Some(1), None) {
            Some("Şehir slug boş olamaz"@)
        } else {
            None
        }
    }

    /// Checks every field rule; gives the message of the first broken one.
    pub fn validate(&self) -> (r: Option<String>)
        ensures
            match r {
                Some(m) => self.spec_error() == Some(m@),
                None => self.spec_error() is None,
            },
    {
        if !length_ok(self.city_slug.as_str(), Some(1), None) {
            return Some(String::from_str("Şehir slug boş olamaz"));
        }
        None
    }
}

/// A bot commentary for one date.
pub struct InjectBotCommentEntryDto {
    pub date: String,
    pub commentary: String,
}

impl InjectBotCommentEntryDto {
    /// The message of the first field that breaks its rule, in field order
    /// (`None` when every field is valid).
    pub open spec fn spec_error(&self) -> Option<Seq<char>> {
        if !length_within(self.date@, Some(1), None) {
            Some("Tarih boş olamaz"@)
        } else if !length_within(self.commentary@, Some(1), Some(2000)) {
            Some("Yorum 1-2000 karakter arası olmalı"@)
        } else {
            None
        }
    }

    /// Checks every field rule; gives the message of the first broken one.
    pub fn validate(&self) -> (r: Option<String>)
        ensures
            match r {
                Some(m) => self.spec_error() == Some(m@),
                None => self.spec_error() is None,
            },
    {
        if !length_ok(self.date.as_str(), Some(1), None) {
            return Some(String::from_str("Tarih boş olamaz"));
        }
        if !length_ok(self.commentary.as_str(), Some(1), Some(2000)) {
            return Some(String::from_str("Yorum 1-2000 karakter arası olmalı"));
        }
        None
    }
}

/// How many menus got a commentary.
pub struct InjectBotCommentsResponseDto {
    pub updated_count: usize,
}

} // verus!
