//! Accounts, sign-in and profile data exchanged with clients.

use vstd::prelude::*;
use vstd::string::StringExecFns;
use crate::validation::{length_within, opt_length_within, opt_string_view, spec_valid_email, opt_valid_email, length_ok, opt_length_ok, valid_email, opt_email_ok};
use crate::text::{spec_trim, trim_chars, char_vec, string_from_chars};

verus! {

/// What an account may do.
#[derive(Clone, Copy, Debug, PartialEq, Eq, Structural)]
pub enum UserRole {
    User,
    Admin,
    SystemBot,
}

/// A submitted name that is empty or only whitespace counts as no name; any other is
/// kept trimmed.
pub open spec fn spec_blank_to_none(s: Option<Seq<char>>) -> Option<Seq<char>> {
    match s {
        Some(v) => if spec_trim(v).len() == 0 { None } else { Some(spec_trim(v)) },
        None => None,
    }
}

/// Reads an optional text field: blank becomes absent, anything else is trimmed.
pub fn empty_string_as_none(s: Option<String>) -> (r: Option<String>)
    ensures
        opt_string_view(&r) == spec_blank_to_none(opt_string_view(&s)),
{
    match s {
        Some(v) => {
            let t = trim_chars(char_vec(v.as_str()).as_slice());
            if t.len() == 0 {
                None
            } else {
                Some(string_from_chars(t.as_slice()))
            }
        },
        None => None,
    }
}

} // verus!

verus! {

/// A notification to mark as read.
pub struct NotificationMarkReadDto {
    pub id: i32,
}

/// Sign-in with an e-mail address or a username.
pub struct LoginRequestDto {
    pub identifier: String,
    pub password: String,
    pub remember: Option<bool>,
}

impl LoginRequestDto {
    /// The message of the first field that breaks its rule, in field order
    /// (`None` when every field is valid).
    pub open spec fn spec_error(&self) -> Option<Seq<char>> {
        if !length_within(self.identifier@, Some(3), None) {
            Some("Kullanıcı adı veya e-posta en az 3 karakter olmalıdır"@)
        } else if !length_within(self.password@, Some(1), Some(128)) {
            Some("Lütfen şifrenizi giriniz"@)
        } else {
            None
        }
    }

    /// Checks every field rule; gives the message of the first broken one.
    pub fn validate(&self) -> (r: Option<String>)
        ensures
            match r {
                Some(m) => self.spec_error() == Some(m@),
                None => self.spec_error() is None,
            },
    {
        if !length_ok(self.identifier.as_str(), Some(3), None) {
            return Some(String::from_str("Kullanıcı adı veya e-posta en az 3 karakter olmalıdır"));
        }
        if !length_ok(self.password.as_str(), Some(1), Some(128)) {
            return Some(String::from_str("Lütfen şifrenizi giriniz"));
        }
        None
    }
}

/// A request for a sign-in link by e-mail.
pub struct PasswordlessRequestDto {
    pub email: String,
}

impl PasswordlessRequestDto {
    /// The message of the first field that breaks its rule, in field order
    /// (`None` when every field is valid).
    pub open spec fn spec_error(&self) -> Option<Seq<char>> {
        if !spec_valid_email(self.email@) {
            Some("Geçerli bir e-posta adresi giriniz"@)
        } else {
            None
        }
    }

    /// Checks every field rule; gives the message of the first broken one.
    pub fn validate(&self) -> (r: Option<String>)
        ensures
            match r {
                Some(m) => self.spec_error() == Some(m@),
                None => self.spec_error() is None,
            },
    {
        if !valid_email(self.email.as_str()) {
            return Some(String::from_str("Geçerli bir e-posta adresi giriniz"));
        }
        None
    }
}

/// Sign-in with the token of an e-mailed link.
pub struct PasswordlessLoginDto {
    pub token: String,
}

/// A new account; without a username one is derived from the e-mail address.
pub struct RegisterRequestDto {
    pub username: Option<String>,
    pub email: String,
    pub password: String,
}

impl RegisterRequestDto {
    /// The message of the first field that breaks its rule, in field order
    /// (`None` when every field is valid).
    pub open spec fn spec_error(&self) -> Option<Seq<char>> {
        if !opt_length_within(opt_string_view(&self.username), Some(3), Some(30)) {
            Some("Kullanıcı adı 3-30 karakter arasında olmalıdır"@)
        } else if !spec_valid_email(self.email@) {
            Some("Geçerli bir e-posta adresi giriniz"@)
        } else if !length_within(self.password@, Some(8), Some(128)) {
            Some("Şifre 8-128 karakter arasında olmalıdır"@)
        } else {
            None
        }
    }

    /// Checks every field rule; gives the message of the first broken one.
    pub fn validate(&self) -> (r: Option<String>)
        ensures
            match r {
                Some(m) => self.spec_error() == Some(m@),
                None => self.spec_error() is None,
            },
    {
        if !opt_length_ok(&self.username, Some(3), Some(30)) {
            return Some(String::from_str("Kullanıcı adı 3-30 karakter arasında olmalıdır"));
        }
        if !valid_email(self.email.as_str()) {
            return Some(String::from_str("Geçerli bir e-posta adresi giriniz"));
        }
        if !length_ok(self.password.as_str(), Some(8), Some(128)) {
            return Some(String::from_str("Şifre 8-128 karakter arasında olmalıdır"));
        }
        None
    }
}

/// Level of a user and progress towards the next one.
pub struct LevelProgressDto {
    pub level: i32,
    pub title: String,
    pub progress_percent: i32,
    pub karma_in_level: i32,
    pub karma_for_next: i32,
}

/// A dish, by id and name.
pub struct SimpleDishDto {
    pub dish_id: i32,
    pub name: String,
}

/// An author whose comments a user favourited.
pub struct FavoriteAuthorDto {
    pub username: String,
    pub favorite_count: i32,
}

/// Changes to one's own profile; absent fields stay as they are.
pub struct UpdateProfileDto {
    pub username: Option<String>,
    pub email: Option<String>,
    pub current_password: Option<String>,
    pub password: Option<String>,
    pub bio: Option<String>,
    pub default_city_slug: Option<String>,
    pub opt_out_statistics: Option<bool>,
}

impl UpdateProfileDto {
    /// The message of the first field that breaks its rule, in field order
    /// (`None` when every field is valid).
    pub open spec fn spec_error(&self) -> Option<Seq<char>> {
        if !opt_length_within(opt_string_view(&self.username), Some(3), Some(30)) {
            Some("Kullanıcı adı 3-30 karakter arasında olmalıdır"@)
        } else if !opt_valid_email(opt_string_view(&self.email)) {
            Some("Geçerli bir e-posta adresi giriniz"@)
        } else if !opt_length_within(opt_string_view(&self.password), Some(8), Some(128)) {
            Some("Yeni şifre 8-128 karakter arasında olmalıdır"@)
        } else {
            None
        }
    }

    /// Checks every field rule; gives the message of the first broken one.
    pub fn validate(&self) -> (r: Option<String>)
        ensures
            match r {
                Some(m) => self.spec_error() == Some(m@),
                None => self.spec_error() is None,
            },
    {
        if !opt_length_ok(&self.username, Some(3), Some(30)) {
            return Some(String::from_str("Kullanıcı adı 3-30 karakter arasında olmalıdır"));
        }
        if !opt_email_ok(&self.email) {
            return Some(String::from_str("Geçerli bir e-posta adresi giriniz"));
        }
        if !opt_length_ok(&self.password, Some(8), Some(128)) {
            return Some(String::from_str("Yeni şifre 8-128 karakter arasında olmalıdır"));
        }
        None
    }
}

/// Deleting one's account needs the current password.
pub struct DeleteAccountDto {
    pub password: String,
}

impl DeleteAccountDto {
    /// The message of the first field that breaks its rule, in field order
    /// (`None` when every field is valid).
    pub open spec fn spec_error(&self) -> Option<Seq<char>> {
        if !length_within(self.password@, Some(1), Some(128)) {
            Some("Lütfen şifrenizi giriniz"@)
        } else {
            None
        }
    }

    /// Checks every field rule; gives the message of the first broken one.
    pub fn validate(&self) -> (r: Option<String>)
        ensures
            match r {
                Some(m) => self.spec_error() == Some(m@),
                None => self.spec_error() is None,
            },
    {
        if !length_ok(self.password.as_str(), Some(1), Some(128)) {
            return Some(String::from_str("Lütfen şifrenizi giriniz"));
        }
        None
    }
}

/// What a user's dashboard lists: favourite and pinned dishes, the comments the user
/// upvoted lately, and the authors whose comments the user favoured.
pub struct UserDashboardStatsDto {
    pub favorite_meals: Vec<SimpleDishDto>,
    pub pinned_meals: Vec<SimpleDishDto>,
    pub favorite_comments: Vec<crate::dto::comment::CommentResponseDto>,
    pub favorite_authors: Vec<FavoriteAuthorDto>,
}

} // verus!
