//! Query strings and bodies of the HTTP routes, their field rules, and how the routes
//! read them: menu dates, the month of the sitemap index, city references and the
//! dietary mode.

use vstd::prelude::*;
use crate::calendar::{CalendarDate, parse_date, parsed_date, date_of_parse, date_from_ymd, date_of};
use crate::error::{AppError, ErrorKind};
use crate::assistant::{str_is, all_digits, digits_value, spec_parse_u32, parse_u32};
use crate::text::{char_vec, to_lowercase, spec_to_lowercase, string_from_chars, is_digit};
use crate::validation::{length_within, length_ok, spec_valid_email, valid_email, DEFAULT_MESSAGE};
use crate::oauth::{split_on, split_chars};
use vstd::string::StringExecFns;

verus! {

/// Search of the dish catalogue.
pub struct DishStatsQuery {
    pub search: Option<String>,
}

/// A dish to add to or remove from favourites.
pub struct DishToggleDto {
    pub dish_id: i32,
}

/// Query of the e-mail verification link.
pub struct VerifyEmailQuery {
    pub token: String,
}

/// What Google sends back to the sign-in callback.
pub struct GoogleCallbackQuery {
    pub code: Option<String>,
    pub state: Option<String>,
    pub error: Option<String>,
}

/// Paging of a comment thread's top-level comments.
pub struct CommentTreeQuery {
    pub limit: Option<u64>,
    pub offset: Option<u64>,
}

/// Filter of the archive's years.
pub struct ArchiveYearsQuery {
    pub city: Option<String>,
}

/// Dietary mode of a menu request.
pub struct MenuDetailQueryDto {
    pub dietary_type: Option<String>,
}

/// Filters of the menu listing.
pub struct MenuFilterQueryDto {
    pub city: Option<String>,
    pub date: Option<String>,
    pub dietary_type: Option<String>,
    pub year: Option<i32>,
    pub month: Option<u32>,
}

/// A vote on a menu (`positive`, `negative` or `neutral`).
pub struct VoteMenuDto {
    pub sentiment: String,
}

/// A city of the public API.
pub struct CityResponseDto {
    pub id: i32,
    pub name: String,
    pub slug: String,
    pub has_celiac: bool,
}

/// The month of the sitemap index, as `YYYY-MM`.
pub struct MenuIndexQuery {
    pub month: String,
}

/// Dietary mode of a public menu request.
pub struct MenuQuery {
    pub dietary_type: Option<String>,
}

/// Size, city and time window of a statistics listing.
pub struct LimitQuery {
    pub limit: Option<u64>,
    pub city_slug: Option<String>,
    pub timeframe: Option<String>,
}

/// A request for a password-reset e-mail.
pub struct ForgotPasswordDto {
    pub email: String,
}

impl ForgotPasswordDto {
    /// The message of the broken rule, if any: the address must be an e-mail address.
    pub open spec fn spec_error(&self) -> Option<Seq<char>> {
        if !spec_valid_email(self.email@) {
            Some(DEFAULT_MESSAGE@)
        } else {
            None
        }
    }

    /// Checks the rule; gives the message when it is broken.
    pub fn validate(&self) -> (r: Option<String>)
        ensures
            match r {
                Some(m) => self.spec_error() == Some(m@),
                None => self.spec_error() is None,
            },
    {
        if !valid_email(self.email.as_str()) {
            return Some(String::from_str(DEFAULT_MESSAGE));
        }
        None
    }
}

/// A new password, with the token of the reset e-mail.
pub struct ResetPasswordDto {
    pub token: String,
    pub new_password: String,
}

impl ResetPasswordDto {
    /// The message of the broken rule, if any: the password has 8 to 128 characters.
    pub open spec fn spec_error(&self) -> Option<Seq<char>> {
        if !length_within(self.new_password@, Some(8), Some(128)) {
            Some("Şifre 8-128 karakter arasında olmalıdır"@)
        } else {
            None
        }
    }

    /// Checks the rule; gives the message when it is broken.
    pub fn validate(&self) -> (r: Option<String>)
        ensures
            match r {
                Some(m) => self.spec_error() == Some(m@),
                None => self.spec_error() is None,
            },
    {
        if !length_ok(self.new_password.as_str(), Some(8), Some(128)) {
            return Some(String::from_str("Şifre 8-128 karakter arasında olmalıdır"));
        }
        None
    }
}

/// A message sent through the contact form.
pub struct SubmitContactDto {
    pub email: String,
    pub report_type: String,
    pub subject: String,
    pub description: String,
}

impl SubmitContactDto {
    /// The message of the first broken rule, in field order: a valid e-mail address, a
    /// subject of 3 to 150 characters, a message of 10 to 2000 characters.
    pub open spec fn spec_error(&self) -> Option<Seq<char>> {
        if !spec_valid_email(self.email@) {
            Some("Geçerli bir e-posta giriniz."@)
        } else if !length_within(self.subject@, Some(3), Some(150)) {
            Some("Konu 3 ile 150 karakter arasında olmalıdır."@)
        } else if !length_within(self.description@, Some(10), Some(2000)) {
            Some("Mesaj en az 10, en fazla 2000 karakter olmalıdır."@)
        } else {
            None
        }
    }

    /// Checks every rule; gives the message of the first broken one.
    pub fn validate(&self) -> (r: Option<String>)
        ensures
            match r {
                Some(m) => self.spec_error() == Some(m@),
                None => self.spec_error() is None,
            },
    {
        if !valid_email(self.email.as_str()) {
            return Some(String::from_str("Geçerli bir e-posta giriniz."));
        }
        if !length_ok(self.subject.as_str(), Some(3), Some(150)) {
            return Some(String::from_str("Konu 3 ile 150 karakter arasında olmalıdır."));
        }
        if !length_ok(self.description.as_str(), Some(10), Some(2000)) {
            return Some(String::from_str("Mesaj en az 10, en fazla 2000 karakter olmalıdır."));
        }
        None
    }
}

/// Celiac mode is asked for with the dietary type `celiac`.
pub fn is_celiac_mode(dietary_type: &Option<String>) -> (r: bool)
    ensures
        r == (crate::validation::opt_string_view(dietary_type) == Some("celiac"@)),
{
    match dietary_type {
        Some(d) => str_is(d.as_str(), "celiac"),
        None => false,
    }
}

/// The message of a menu date that cannot be read.
pub open spec fn bad_date_message() -> Seq<char> {
    "Geçersiz tarih formatı. YYYY-MM-DD veya 'today' kullanılmalıdır."@
}

/// The day a menu listing asks for: none, `today`, or an ISO date.
pub open spec fn spec_filter_date(date: Option<Seq<char>>, today: CalendarDate) -> Result<Option<CalendarDate>, (ErrorKind, Seq<char>)> {
    match date {
        None => Ok(None),
        Some(s) => if s == "today"@ {
            Ok(Some(today))
        } else {
            match date_of_parse(parsed_date(s, "%Y-%m-%d"@)) {
                Some(d) => Ok(Some(d)),
                None => Err((ErrorKind::BadRequest, bad_date_message())),
            }
        },
    }
}

/// Reads the day of a menu listing.
pub fn filter_date(date: Option<&str>, today: CalendarDate) -> (r: Result<Option<CalendarDate>, AppError>)
    ensures
        match r {
            Ok(d) => spec_filter_date(match date { Some(s) => Some(s@), None => None }, today) == Ok::<Option<CalendarDate>, (ErrorKind, Seq<char>)>(d),
            Err(e) => spec_filter_date(match date { Some(s) => Some(s@), None => None }, today) == Err::<Option<CalendarDate>, (ErrorKind, Seq<char>)>(e@),
        },
{
    match date {
        None => Ok(None),
        Some(s) => if str_is(s, "today") {
            Ok(Some(today))
        } else {
            match parse_date(s, "%Y-%m-%d") {
                Some(d) => Ok(Some(d)),
                None => Err(AppError::with_text(
                    ErrorKind::BadRequest,
                    "Geçersiz tarih formatı. YYYY-MM-DD veya 'today' kullanılmalıdır.",
                )),
            }
        },
    }
}

/// `str::parse::<i32>`: an optional sign, then one or more ASCII digits whose value fits.
pub open spec fn spec_parse_i32(s: Seq<char>) -> Option<i32> {
    if s.len() > 0 && s[0] == '-' {
        let body = s.skip(1);
        if body.len() > 0 && all_digits(body) && digits_value(body) <= 2147483648 {
            Some((-(digits_value(body) as int)) as i32)
        } else {
            None
        }
    } else {
        match spec_parse_u32(s) {
            Some(v) => if v <= i32::MAX { Some(v as i32) } else { None },
            None => None,
        }
    }
}

/// Parses a signed 32-bit decimal number the way `str::parse::<i32>` does.
pub fn parse_i32(s: &[char]) -> (r: Option<i32>)
    ensures
        r == spec_parse_i32(s@),
{
    if s.len() > 0 && s[0] == '-' {
        let body = crate::text::slice_chars(s, 1, s.len());
        assert(body@ =~= s@.skip(1));
        if body.len() == 0 {
            return None;
        }
        if body.len() > 0 && body[0] == '+' {
            assert(!is_digit(body@[0]));
            return None;
        }
        match parse_u32(body.as_slice()) {
            Some(v) => {
                if v <= 2147483648 {
                    let r: i64 = -(v as i64);
                    Some(r as i32)
                } else {
                    None
                }
            },
            None => None,
        }
    } else {
        match parse_u32(s) {
            Some(v) => if v <= 2147483647 { Some(v as i32) } else { None },
            None => None,
        }
    }
}

/// The range of days of the sitemap index month `YYYY-MM`: its first day and the first
/// day of the next month; the errors name the part that cannot be read.
pub open spec fn spec_index_range(month: Seq<char>) -> Result<(CalendarDate, CalendarDate), (ErrorKind, Seq<char>)> {
    let parts = split_on(month, '-');
    if parts.len() != 2 {
        Err((ErrorKind::BadRequest, "Ay formatı YYYY-MM olmalıdır."@))
    } else {
        match spec_parse_i32(parts[0]) {
            None => Err((ErrorKind::BadRequest, "Geçersiz yıl."@)),
            Some(y) => match spec_parse_u32(parts[1]) {
                None => Err((ErrorKind::BadRequest, "Geçersiz ay."@)),
                Some(m) => if !(1 <= m <= 12) {
                    Err((ErrorKind::BadRequest, "Geçersiz ay."@))
                } else {
                    match date_of(y as int, m as int, 1) {
                        None => Err((ErrorKind::BadRequest, "Geçersiz ay."@)),
                        Some(start) => {
                            let (ny, nm) = if m == 12 { (y + 1, 1int) } else { (y as int, m + 1) };
                            match date_of(ny, nm, 1) {
                                None => Err((ErrorKind::BadRequest, "Geçersiz ay."@)),
                                Some(end) => Ok((start, end)),
                            }
                        },
                    }
                },
            },
        }
    }
}

/// Reads the month of the sitemap index.
pub fn index_range(month: &str) -> (r: Result<(CalendarDate, CalendarDate), AppError>)
    ensures
        match r {
            Ok(p) => spec_index_range(month@) == Ok::<(CalendarDate, CalendarDate), (ErrorKind, Seq<char>)>(p),
            Err(e) => spec_index_range(month@) == Err::<(CalendarDate, CalendarDate), (ErrorKind, Seq<char>)>(e@),
        },
{
    let mv = char_vec(month);
    let parts = split_chars(mv.as_slice(), '-');
    if parts.len() != 2 {
        return Err(AppError::with_text(ErrorKind::BadRequest, "Ay formatı YYYY-MM olmalıdır."));
    }
    proof {
        assert(parts@.map_values(|w: Vec<char>| w@)[0] == parts@[0]@);
        assert(parts@.map_values(|w: Vec<char>| w@)[1] == parts@[1]@);
    }
    let y = match parse_i32(parts[0].as_slice()) {
        Some(y) => y,
        None => return Err(AppError::with_text(ErrorKind::BadRequest, "Geçersiz yıl.")),
    };
    let m = match parse_u32(parts[1].as_slice()) {
        Some(m) => m,
        None => return Err(AppError::with_text(ErrorKind::BadRequest, "Geçersiz ay.")),
    };
    if !(1 <= m && m <= 12) {
        return Err(AppError::with_text(ErrorKind::BadRequest, "Geçersiz ay."));
    }
    let start = match date_from_ymd(y, m, 1) {
        Some(d) => d,
        None => return Err(AppError::with_text(ErrorKind::BadRequest, "Geçersiz ay.")),
    };
    let (ny, nm) = if m == 12 { (y + 1, 1) } else { (y, m + 1) };
    match date_from_ymd(ny, nm, 1) {
        Some(end) => Ok((start, end)),
        None => Err(AppError::with_text(ErrorKind::BadRequest, "Geçersiz ay.")),
    }
}

/// How long the sitemap index of a month may be cached: an hour for the current month
/// (it still changes), a day for past months.
pub fn index_cache_ttl(month: &str, current_month: &str) -> (r: u32)
    ensures
        r == (if month@ == current_month@ { 3600u32 } else { 86400u32 }),
{
    if str_is(month, current_month) { 3600 } else { 86400 }
}

/// A city as a route names it: a number is its id, anything else its slug (lowercase).
#[derive(Debug, PartialEq, Eq)]
pub enum CityRef {
    Id(i32),
    Slug(String),
}

/// Reads a city reference.
pub fn city_ref(param: &str) -> (r: CityRef)
    ensures
        match r {
            CityRef::Id(id) => spec_parse_i32(param@) == Some(id),
            CityRef::Slug(s) => spec_parse_i32(param@) is None && s@ == spec_to_lowercase(param@),
        },
{
    let pv = char_vec(param);
    match parse_i32(pv.as_slice()) {
        Some(id) => CityRef::Id(id),
        None => CityRef::Slug(to_lowercase(param)),
    }
}

/// The slug of the city Cloudflare locates a visitor in: lowercase, spaces as hyphens.
pub open spec fn spec_detected_slug(cf_city: Seq<char>) -> Seq<char> {
    spec_to_lowercase(cf_city).map_values(|c: char| if c == ' ' { '-' } else { c })
}

/// The slug for Cloudflare's city name.
pub fn detected_city_slug(cf_city: &str) -> (r: String)
    ensures
        r@ == spec_detected_slug(cf_city@),
{
    let lower = to_lowercase(cf_city);
    let lv = char_vec(lower.as_str());
    let mut out: Vec<char> = Vec::new();
    let mut i: usize = 0;
    while i < lv.len()
        invariant
            i <= lv@.len(),
            out@ == lv@.take(i as int).map_values(|c: char| if c == ' ' { '-' } else { c }),
        decreases lv@.len() - i,
    {
        let c = lv[i];
        out.push(if c == ' ' { '-' } else { c });
        assert(out@ =~= lv@.take(i + 1).map_values(|c: char| if c == ' ' { '-' } else { c }));
        i = i + 1;
    }
    assert(lv@.take(lv@.len() as int) =~= lv@);
    string_from_chars(out.as_slice())
}

} // verus!
