//! Accounts: the kinds of tokens and how long each lives, how a sign-in names its user,
//! what a new account starts with, how a profile changes, and when sessions end.

use vstd::prelude::*;
use vstd::string::StringExecFns;
use crate::dto::user::{UserRole, UpdateProfileDto};
use crate::service_errors::AuthError;
use crate::error::{AppError, ErrorKind};
use crate::text::{char_vec, extend_str, extend_chars, string_from_chars, to_lowercase, spec_to_lowercase, index_of, lemma_index_of, find_char_from};

verus! {

/// The kinds of signed tokens; each has its own audience, so one kind is never taken
/// for another.
#[derive(Clone, Copy, Debug, PartialEq, Eq, Structural)]
pub enum TokenKind {
    Access,
    Refresh,
    Verify,
    Reset,
    Passwordless,
}

/// The audience a token of each kind carries.
pub open spec fn spec_audience(k: TokenKind) -> Seq<char> {
    match k {
        TokenKind::Access => "kepce-web"@,
        TokenKind::Refresh => "kepce-refresh"@,
        TokenKind::Verify => "kepce-verify"@,
        TokenKind::Reset => "kepce-reset"@,
        TokenKind::Passwordless => "kepce-passwordless"@,
    }
}

/// The audience of a token kind.
pub fn audience(k: TokenKind) -> (r: &'static str)
    ensures
        r@ == spec_audience(k),
{
    match k {
        TokenKind::Access => "kepce-web",
        TokenKind::Refresh => "kepce-refresh",
        TokenKind::Verify => "kepce-verify",
        TokenKind::Reset => "kepce-reset",
        TokenKind::Passwordless => "kepce-passwordless",
    }
}

/// Tokens of different kinds carry different audiences, so a token checked for one kind
/// is refused as any other.
pub proof fn lemma_audiences_distinct(a: TokenKind, b: TokenKind)
    requires
        a != b,
    ensures
        spec_audience(a) != spec_audience(b),
{
    reveal_strlit("kepce-web");
    reveal_strlit("kepce-refresh");
    reveal_strlit("kepce-verify");
    reveal_strlit("kepce-reset");
    reveal_strlit("kepce-passwordless");
    match (a, b) {
        (TokenKind::Access, _) => assert(spec_audience(a)[6] != spec_audience(b)[6]),
        (_, TokenKind::Access) => assert(spec_audience(a)[6] != spec_audience(b)[6]),
        (TokenKind::Verify, TokenKind::Reset) => assert(spec_audience(a)[8] != spec_audience(b)[8]),
        (TokenKind::Reset, TokenKind::Verify) => assert(spec_audience(a)[8] != spec_audience(b)[8]),
        (TokenKind::Reset, TokenKind::Refresh) => assert(spec_audience(a)[8] != spec_audience(b)[8]),
        (TokenKind::Refresh, TokenKind::Reset) => assert(spec_audience(a)[8] != spec_audience(b)[8]),
        _ => assert(spec_audience(a)[6] != spec_audience(b)[6]),
    }
}

/// How long a token of each kind lives, in seconds: access and sign-in links 15
/// minutes, refresh 30 days, e-mail verification 24 hours, password reset 1 hour.
pub open spec fn spec_lifetime(k: TokenKind) -> int {
    match k {
        TokenKind::Access => 900,
        TokenKind::Refresh => 2592000,
        TokenKind::Verify => 86400,
        TokenKind::Reset => 3600,
        TokenKind::Passwordless => 900,
    }
}

/// The issuer of every token.
pub open spec fn issuer() -> Seq<char> {
    "kepce"@
}

/// When a token of kind `k` issued at `now` (seconds since the epoch) expires.
pub fn expires_at(k: TokenKind, now: i64) -> (r: Option<i64>)
    ensures
        match r {
            Some(t) => t == now + spec_lifetime(k),
            None => now + spec_lifetime(k) > i64::MAX,
        },
{
    let life: i64 = match k {
        TokenKind::Access => 900,
        TokenKind::Refresh => 2592000,
        TokenKind::Verify => 86400,
        TokenKind::Reset => 3600,
        TokenKind::Passwordless => 900,
    };
    now.checked_add(life)
}

/// The text before the first `@` of an e-mail address (all of it without one).
pub open spec fn local_part(email: Seq<char>) -> Seq<char> {
    let i = index_of(email, '@');
    if i < 0 { email } else { email.take(i) }
}

/// The name a new account derives from its address: the local part, lowercased.
pub open spec fn spec_base_username(email: Seq<char>) -> Seq<char> {
    spec_to_lowercase(local_part(email))
}

/// Derives the base name of a new account from its address.
pub fn base_username(email: &str) -> (r: String)
    ensures
        r@ == spec_base_username(email@),
{
    let ev = char_vec(email);
    let cut = find_char_from(ev.as_slice(), '@', 0);
    proof {
        assert(ev@.skip(0) =~= ev@);
        lemma_index_of(email@, '@');
    }
    let local = match cut {
        Some(i) => {
            let mut v: Vec<char> = Vec::new();
            let mut k: usize = 0;
            while k < i
                invariant
                    i <= ev@.len(),
                    k <= i,
                    v@ == ev@.take(k as int),
                decreases i - k,
            {
                v.push(ev[k]);
                assert(v@ =~= ev@.take(k + 1));
                k = k + 1;
            }
            v
        },
        None => ev,
    };
    let ls = string_from_chars(local.as_slice());
    to_lowercase(ls.as_str())
}

/// The first name a sign-up tries: the name the user typed, lowercased, which is taken as
/// it is (`.1` false); or, with none typed, the base name from the address, which is then
/// held against the names already taken (`.1` true).
pub fn signup_username(requested: Option<&str>, email: &str) -> (r: (String, bool))
    ensures
        requested matches Some(u) ==> r.0@ == spec_to_lowercase(u@) && !r.1,
        requested is None ==> r.0@ == spec_base_username(email@) && r.1,
{
    match requested {
        Some(u) => (to_lowercase(u), false),
        None => (base_username(email), true),
    }
}

/// A further try at a free name: the base, `_`, and a lowercased random suffix.
pub open spec fn spec_username_candidate(base: Seq<char>, suffix: Seq<char>) -> Seq<char> {
    base + "_"@ + spec_to_lowercase(suffix)
}

/// Builds a further try at a free name.
pub fn username_candidate(base: &str, suffix: &str) -> (r: String)
    ensures
        r@ == spec_username_candidate(base@, suffix@),
{
    let lower = to_lowercase(suffix);
    let mut v: Vec<char> = Vec::new();
    extend_str(&mut v, base);
    extend_str(&mut v, "_");
    extend_str(&mut v, lower.as_str());
    string_from_chars(v.as_slice())
}

/// How many names a sign-up tries before it gives up.
pub const MAX_NAME_TRIES: u32 = 5;

/// After `attempt` taken names (counting the one just found taken), whether another
/// name may be tried.
pub fn may_try_another_name(attempt: u32) -> (r: bool)
    ensures
        r == (attempt < MAX_NAME_TRIES),
{
    attempt < MAX_NAME_TRIES
}

/// How a sign-in names its user: an identifier with `@` is an e-mail address, any other
/// a user name; either is compared lowercased.
pub open spec fn spec_login_lookup(identifier: Seq<char>) -> (bool, Seq<char>) {
    let l = spec_to_lowercase(identifier);
    (index_of(l, '@') >= 0, l)
}

/// Reads a sign-in identifier: whether it is an address, and the lowercased text.
pub fn login_lookup(identifier: &str) -> (r: (bool, String))
    ensures
        (r.0, r.1@) == spec_login_lookup(identifier@),
{
    let l = to_lowercase(identifier);
    let lv = char_vec(l.as_str());
    let at = find_char_from(lv.as_slice(), '@', 0);
    proof {
        assert(lv@.skip(0) =~= lv@);
    }
    (at.is_some(), l)
}

/// Whether an account may sign in.
#[derive(Clone, Copy, Debug, PartialEq, Eq, Structural)]
pub enum AccountStatus {
    Active,
    Suspended,
    Banned,
}

/// A stored account.
pub struct Account {
    pub id: u128,
    pub username: String,
    pub email: String,
    pub password_hash: String,
    pub role: UserRole,
    pub karma_score: i32,
    pub is_verified: bool,
    pub status: AccountStatus,
    pub avatar_url: Option<String>,
    pub bio: Option<String>,
    pub default_city_slug: Option<String>,
    pub token_version: i32,
    pub opt_out_statistics: bool,
    pub email_security: bool,
}

/// A suspended or banned account is turned away.
pub fn require_active(status: AccountStatus) -> (r: Result<(), AuthError>)
    ensures
        r is Ok <==> status == AccountStatus::Active,
        r matches Err(e) ==> e is AccountDisabled,
{
    match status {
        AccountStatus::Active => Ok(()),
        _ => Err(AuthError::AccountDisabled),
    }
}

/// A new account made by a sign-up: a plain, unverified user with no karma, the
/// security mails as asked.
pub fn new_account(
    id: u128,
    username: String,
    email: String,
    password_hash: String,
    default_city_slug: Option<String>,
    email_security: Option<bool>,
) -> (r: Account)
    ensures
        r.id == id && r.username == username && r.email == email && r.password_hash == password_hash,
        r.default_city_slug == default_city_slug,
        r.role == UserRole::User && r.karma_score == 0 && !r.is_verified && r.status == AccountStatus::Active,
        r.avatar_url is None && r.bio is None && r.token_version == 0 && !r.opt_out_statistics,
        r.email_security == (email_security == Some(true)),
{
    Account {
        id,
        username,
        email,
        password_hash,
        role: UserRole::User,
        karma_score: 0,
        is_verified: false,
        status: AccountStatus::Active,
        avatar_url: None,
        bio: None,
        default_city_slug,
        token_version: 0,
        opt_out_statistics: false,
        email_security: match email_security {
            Some(b) => b,
            None => false,
        },
    }
}

/// A new account made by a Google sign-in: verified (Google checked the address), with
/// the lowercased address and Google's picture.
pub fn new_google_account(id: u128, username: String, email: &str, password_hash: String, picture: Option<String>) -> (r: Account)
    ensures
        r.id == id && r.username == username && r.email@ == spec_to_lowercase(email@) && r.password_hash == password_hash,
        r.avatar_url == picture,
        r.role == UserRole::User && r.karma_score == 0 && r.is_verified && r.status == AccountStatus::Active,
        r.bio is None && r.default_city_slug is None && r.token_version == 0 && !r.opt_out_statistics && !r.email_security,
{
    Account {
        id,
        username,
        email: to_lowercase(email),
        password_hash,
        role: UserRole::User,
        karma_score: 0,
        is_verified: true,
        status: AccountStatus::Active,
        avatar_url: picture,
        bio: None,
        default_city_slug: None,
        token_version: 0,
        opt_out_statistics: false,
        email_security: false,
    }
}

/// A Google sign-in of an existing account: refused unless it is active; an account
/// without a picture takes Google's.
pub fn google_sign_in(acct: &mut Account, picture: Option<String>) -> (r: Result<(), AuthError>)
    ensures
        old(acct).status != AccountStatus::Active ==> (r matches Err(AuthError::AccountDisabled)) && *final(acct) == *old(acct),
        old(acct).status == AccountStatus::Active ==> r is Ok
            && final(acct).avatar_url == (if old(acct).avatar_url is None && picture is Some { picture } else { old(acct).avatar_url })
            && final(acct).id == old(acct).id && final(acct).username == old(acct).username
            && final(acct).token_version == old(acct).token_version && final(acct).role == old(acct).role,
{
    if acct.status != AccountStatus::Active {
        return Err(AuthError::AccountDisabled);
    }
    if acct.avatar_url.is_none() && picture.is_some() {
        acct.avatar_url = picture;
    }
    Ok(())
}

/// What a profile change needs settled before it is applied: whether the current
/// password was given and matches, whether the new name or address is taken by another
/// account, the hash of the new password, and the cleaned biography.
pub struct ProfileChecks {
    pub password_matches: bool,
    pub username_taken: bool,
    pub email_taken: bool,
    pub new_password_hash: Option<String>,
    pub sanitized_bio: Option<String>,
}

/// A change of name, address or password asks for the current password.
pub open spec fn needs_password(dto: &UpdateProfileDto) -> bool {
    dto.username is Some || dto.email is Some || dto.password is Some
}

/// Whether a profile change asks for the current password.
pub fn profile_needs_password(dto: &UpdateProfileDto) -> (r: bool)
    ensures
        r == needs_password(dto),
{
    dto.username.is_some() || dto.email.is_some() || dto.password.is_some()
}

/// Applies a profile change. Refused when the current password is needed and does not
/// match, or when the new name or address belongs to another account; otherwise each
/// given field changes, and a new password ends every session (the token version
/// grows by one).
pub fn apply_profile_update(acct: &mut Account, dto: UpdateProfileDto, checks: ProfileChecks) -> (r: Result<(), AuthError>)
    requires
        old(acct).token_version < i32::MAX,
        dto.password is Some ==> checks.new_password_hash is Some,
    ensures
        needs_password(&dto) && !checks.password_matches ==> (r matches Err(AuthError::InvalidCredentials)) && *final(acct) == *old(acct),
        !(needs_password(&dto) && !checks.password_matches) && dto.username is Some && checks.username_taken
            ==> (r matches Err(AuthError::UserAlreadyExists)) && *final(acct) == *old(acct),
        !(needs_password(&dto) && !checks.password_matches) && !(dto.username is Some && checks.username_taken)
            && dto.email is Some && checks.email_taken
            ==> (r matches Err(AuthError::UserAlreadyExists)) && *final(acct) == *old(acct),
        r is Ok ==> ({
            &&& final(acct).id == old(acct).id
            &&& final(acct).role == old(acct).role
            &&& final(acct).status == old(acct).status
            &&& final(acct).username == (match dto.username { Some(u) => u, None => old(acct).username })
            &&& final(acct).email == (match dto.email { Some(e) => e, None => old(acct).email })
            &&& final(acct).password_hash == (match dto.password { Some(_) => checks.new_password_hash->0, None => old(acct).password_hash })
            &&& final(acct).token_version == (if dto.password is Some { old(acct).token_version + 1 } else { old(acct).token_version as int })
            &&& final(acct).bio == (if dto.bio is Some { checks.sanitized_bio } else { old(acct).bio })
            &&& final(acct).default_city_slug == (if dto.default_city_slug is Some { dto.default_city_slug } else { old(acct).default_city_slug })
            &&& final(acct).opt_out_statistics == (match dto.opt_out_statistics { Some(b) => b, None => old(acct).opt_out_statistics })
        }),
        r is Ok <==> !(needs_password(&dto) && !checks.password_matches) && !(dto.username is Some && checks.username_taken)
            && !(dto.email is Some && checks.email_taken),
{
    if profile_needs_password(&dto) && !checks.password_matches {
        return Err(AuthError::InvalidCredentials);
    }
    if dto.username.is_some() && checks.username_taken {
        return Err(AuthError::UserAlreadyExists);
    }
    if dto.email.is_some() && checks.email_taken {
        return Err(AuthError::UserAlreadyExists);
    }
    let UpdateProfileDto { username, email, current_password: _, password, bio, default_city_slug, opt_out_statistics } = dto;
    if let Some(u) = username {
        acct.username = u;
    }
    if let Some(e) = email {
        acct.email = e;
    }
    if password.is_some() {
        if let Some(h) = checks.new_password_hash {
            acct.password_hash = h;
        }
        acct.token_version = acct.token_version + 1;
    }
    if bio.is_some() {
        acct.bio = checks.sanitized_bio;
    }
    if default_city_slug.is_some() {
        acct.default_city_slug = default_city_slug;
    }
    if let Some(b) = opt_out_statistics {
        acct.opt_out_statistics = b;
    }
    Ok(())
}

/// A password reset: the new hash is stored and every session ends (the token version
/// grows by one).
pub fn reset_password(acct: &mut Account, new_password_hash: String)
    requires
        old(acct).token_version < i32::MAX,
    ensures
        final(acct).password_hash == new_password_hash,
        final(acct).token_version == old(acct).token_version + 1,
        final(acct).id == old(acct).id && final(acct).username == old(acct).username && final(acct).email == old(acct).email,
{
    acct.password_hash = new_password_hash;
    acct.token_version = acct.token_version + 1;
}

/// The answer of an e-mail verification link: `Ok(true)` when the account was already
/// verified (nothing changes), refused when the link was used before, else the account
/// becomes verified and `Ok(false)` is returned.
pub fn verify_email(acct: &mut Account, link_used: bool) -> (r: Result<bool, AuthError>)
    ensures
        old(acct).is_verified ==> r == Ok::<bool, AuthError>(true) && *final(acct) == *old(acct),
        !old(acct).is_verified && link_used ==> (r matches Err(AuthError::TokenError(m))
            && m@ == "Bu doğrulama bağlantısı geçersiz veya daha önce kullanılmış."@) && *final(acct) == *old(acct),
        !old(acct).is_verified && !link_used ==> r == Ok::<bool, AuthError>(false) && final(acct).is_verified
            && final(acct).id == old(acct).id && final(acct).token_version == old(acct).token_version,
{
    if acct.is_verified {
        return Ok(true);
    }
    if link_used {
        return Err(AuthError::TokenError(String::from_str("Bu doğrulama bağlantısı geçersiz veya daha önce kullanılmış.")));
    }
    acct.is_verified = true;
    Ok(false)
}

/// The answer of a sign-in link, once its token has been read: a link used before is
/// refused, then a link whose account is gone (`None`), then one whose account is not
/// active (`Some(status)`); otherwise the sign-in goes ahead.
pub fn passwordless_decision(link_used: bool, account: Option<AccountStatus>) -> (r: Result<(), AuthError>)
    ensures
        link_used ==> (r matches Err(AuthError::TokenError(m))
            && m@ == "Bu giriş bağlantısı zaten kullanılmış. Lütfen yeni bir bağlantı isteyin."@),
        !link_used && account is None ==> r matches Err(AuthError::InvalidCredentials),
        !link_used && account == Some(AccountStatus::Active) ==> r is Ok,
        !link_used && account is Some && account != Some(AccountStatus::Active) ==> (r matches Err(
            AuthError::AccountDisabled,
        )),
{
    if link_used {
        return Err(
            AuthError::TokenError(
                String::from_str("Bu giriş bağlantısı zaten kullanılmış. Lütfen yeni bir bağlantı isteyin."),
            ),
        );
    }
    match account {
        None => Err(AuthError::InvalidCredentials),
        Some(st) => require_active(st),
    }
}

/// The answer to a refresh: refused when the session is gone (`session_found` false),
/// when the account is gone (`None`), or when it is not active; otherwise the role to
/// put in the new access token.
pub fn refresh_decision(session_found: bool, account: Option<(AccountStatus, UserRole)>) -> (r: Result<UserRole, AppError>)
    ensures
        !session_found ==> (r matches Err(e) && e@ == (ErrorKind::Unauthorized, "Oturumunuz sonlandırılmış. Lütfen tekrar giriş yapın."@)),
        session_found && account is None ==> (r matches Err(e) && e@ == (ErrorKind::Unauthorized, "Kullanıcı bulunamadı."@)),
        session_found && (account matches Some((s, _)) && s != AccountStatus::Active)
            ==> (r matches Err(e) && e@ == (ErrorKind::Forbidden, "Hesabınız askıya alınmış veya yasaklanmış."@)),
        session_found ==> match account {
            Some((s, role)) => s == AccountStatus::Active ==> r == Ok::<UserRole, AppError>(role),
            None => true,
        },
{
    if !session_found {
        return Err(AppError::with_text(ErrorKind::Unauthorized, "Oturumunuz sonlandırılmış. Lütfen tekrar giriş yapın."));
    }
    match account {
        None => Err(AppError::with_text(ErrorKind::Unauthorized, "Kullanıcı bulunamadı.")),
        Some((status, role)) => {
            if status != AccountStatus::Active {
                Err(AppError::with_text(ErrorKind::Forbidden, "Hesabınız askıya alınmış veya yasaklanmış."))
            } else {
                Ok(role)
            }
        },
    }
}

/// What a signed token says: whose it is, until when, who issued it and for what.
/// Access tokens also carry the user's name and role; refresh tokens carry "remember
/// me" and the session they belong to.
pub struct TokenClaims {
    pub sub: u128,
    pub exp: i64,
    pub iss: String,
    pub aud: String,
    pub username: Option<String>,
    pub role: Option<UserRole>,
    pub remember: Option<bool>,
    pub session: Option<u128>,
}

/// A token's claims, by the characters of their strings.
pub struct TokenClaimsView {
    pub sub: u128,
    pub exp: i64,
    pub iss: Seq<char>,
    pub aud: Seq<char>,
    pub username: Option<Seq<char>>,
    pub role: Option<UserRole>,
    pub remember: Option<bool>,
    pub session: Option<u128>,
}

impl View for TokenClaims {
    type V = TokenClaimsView;

    open spec fn view(&self) -> TokenClaimsView {
        TokenClaimsView {
            sub: self.sub,
            exp: self.exp,
            iss: self.iss@,
            aud: self.aud@,
            username: match self.username {
                Some(u) => Some(u@),
                None => None,
            },
            role: self.role,
            remember: self.remember,
            session: self.session,
        }
    }
}

/// The claims of a new token of kind `k` for user `sub`, issued at `now`: `None` when
/// its expiry does not fit. The name and role go into access tokens only, "remember me"
/// and the session id into refresh tokens only.
pub fn token_claims(
    k: TokenKind,
    sub: u128,
    now: i64,
    username: &str,
    role: UserRole,
    remember: bool,
    session: u128,
) -> (r: Option<TokenClaims>)
    ensures
        match r {
            Some(c) => {
                &&& now + spec_lifetime(k) <= i64::MAX
                &&& c.sub == sub && c.exp == now + spec_lifetime(k)
                &&& c.iss@ == issuer() && c.aud@ == spec_audience(k)
                &&& (k == TokenKind::Access ==> (c.username matches Some(u) && u@ == username@) && c.role == Some(role))
                &&& (k != TokenKind::Access ==> c.username is None && c.role is None)
                &&& (k == TokenKind::Refresh ==> c.remember == Some(remember) && c.session == Some(session))
                &&& (k != TokenKind::Refresh ==> c.remember is None && c.session is None)
            },
            None => now + spec_lifetime(k) > i64::MAX,
        },
{
    let exp = match expires_at(k, now) {
        Some(e) => e,
        None => return None,
    };
    let is_access = match k { TokenKind::Access => true, _ => false };
    let is_refresh = match k { TokenKind::Refresh => true, _ => false };
    Some(TokenClaims {
        sub,
        exp,
        iss: String::from_str("kepce"),
        aud: String::from_str(audience(k)),
        username: if is_access { Some(String::from_str(username)) } else { None },
        role: if is_access { Some(role) } else { None },
        remember: if is_refresh { Some(remember) } else { None },
        session: if is_refresh { Some(session) } else { None },
    })
}

/// How long a user waits between two requests for a verification mail, in seconds.
pub const RESEND_COOLDOWN_SECS: u64 = 86400;

/// Above this many remembered users, ended cooldowns are forgotten first.
pub const COOLDOWN_SWEEP_ABOVE: usize = 1000;

/// The users who asked for a verification mail, each with the moment (seconds on a
/// monotonic clock) until which he must wait.
pub struct ResendCooldowns {
    pub entries: Vec<(u128, u64)>,
}

/// The place of `user`'s cooldown, if any.
pub open spec fn cooldown_index(s: Seq<(u128, u64)>, user: u128) -> Option<int>
    decreases s.len(),
{
    if s.len() == 0 {
        None
    } else {
        match cooldown_index(s.drop_last(), user) {
            Some(i) => Some(i),
            None => if s.last().0 == user { Some(s.len() - 1) } else { None },
        }
    }
}

proof fn lemma_cooldown_index(s: Seq<(u128, u64)>, user: u128)
    ensures
        match cooldown_index(s, user) {
            Some(i) => 0 <= i < s.len() && s[i].0 == user && forall|k: int| 0 <= k < i ==> (#[trigger] s[k]).0 != user,
            None => forall|k: int| 0 <= k < s.len() ==> (#[trigger] s[k]).0 != user,
        },
    decreases s.len(),
{
    if s.len() > 0 {
        lemma_cooldown_index(s.drop_last(), user);
        assert(forall|k: int| 0 <= k < s.len() - 1 ==> s.drop_last()[k] == s[k]);
    }
}

/// The moment until which `user` must wait, if he asked before.
pub open spec fn cooldown_of(s: Seq<(u128, u64)>, user: u128) -> Option<u64> {
    match cooldown_index(s, user) {
        Some(i) => Some(s[i].1),
        None => None,
    }
}

/// The cooldowns that have not ended at `now`, in order.
pub open spec fn live_cooldowns(s: Seq<(u128, u64)>, now: u64) -> Seq<(u128, u64)>
    decreases s.len(),
{
    if s.len() == 0 {
        s
    } else if s.last().1 > now {
        live_cooldowns(s.drop_last(), now).push(s.last())
    } else {
        live_cooldowns(s.drop_last(), now)
    }
}

/// The cooldowns after `user` is made to wait until `until`.
pub open spec fn set_cooldown(s: Seq<(u128, u64)>, user: u128, until: u64) -> Seq<(u128, u64)> {
    match cooldown_index(s, user) {
        Some(i) => s.update(i, (user, until)),
        None => s.push((user, until)),
    }
}

/// What the cooldowns look like when a request is judged: swept of ended ones when more
/// than 1000 users are remembered.
pub open spec fn judged_cooldowns(s: Seq<(u128, u64)>, now: u64) -> Seq<(u128, u64)> {
    if s.len() > COOLDOWN_SWEEP_ABOVE { live_cooldowns(s, now) } else { s }
}

impl ResendCooldowns {
    /// A request of `user` for a new verification mail at `now`: refused while his
    /// previous request's 24 hours have not passed; otherwise he must wait 24 hours from
    /// now for the next one.
    pub fn request(&mut self, user: u128, now: u64) -> (r: Result<(), AppError>)
        requires
            now + RESEND_COOLDOWN_SECS <= u64::MAX,
        ensures
            ({
                let s = judged_cooldowns(old(self).entries@, now);
                match cooldown_of(s, user) {
                    Some(u) if now < u => (r matches Err(e) && e@ == (ErrorKind::TooManyRequests,
                        "Lütfen yeni bir onay e-postası istemeden önce 24 saat bekleyiniz."@)) && final(self).entries@ == s,
                    _ => r is Ok && final(self).entries@ == set_cooldown(s, user, (now + RESEND_COOLDOWN_SECS) as u64),
                }
            }),
    {
        if self.entries.len() > COOLDOWN_SWEEP_ABOVE {
            let mut kept: Vec<(u128, u64)> = Vec::new();
            let mut i: usize = 0;
            assert(self.entries@.take(0) =~= Seq::<(u128, u64)>::empty());
            while i < self.entries.len()
                invariant
                    i <= self.entries@.len(),
                    self.entries@ == old(self).entries@,
                    kept@ == live_cooldowns(self.entries@.take(i as int), now),
                decreases self.entries@.len() - i,
            {
                proof {
                    assert(self.entries@.take(i + 1).drop_last() =~= self.entries@.take(i as int));
                    assert(self.entries@.take(i + 1).last() == self.entries@[i as int]);
                }
                if self.entries[i].1 > now {
                    kept.push(self.entries[i]);
                }
                i = i + 1;
            }
            assert(self.entries@.take(self.entries@.len() as int) =~= self.entries@);
            self.entries = kept;
        }
        let ghost s = self.entries@;
        assert(s == judged_cooldowns(old(self).entries@, now));
        let until = now + RESEND_COOLDOWN_SECS;
        let mut i: usize = 0;
        while i < self.entries.len()
            invariant
                i <= self.entries@.len(),
                self.entries@ == s,
                s == judged_cooldowns(old(self).entries@, now),
                until == now + RESEND_COOLDOWN_SECS,
                forall|k: int| 0 <= k < i ==> (#[trigger] self.entries@[k]).0 != user,
            decreases self.entries@.len() - i,
        {
            if self.entries[i].0 == user {
                proof {
                    lemma_cooldown_index(s, user);
                    let j = cooldown_index(s, user);
                    if j is Some {
                        let jj = j->0;
                        if jj < i {
                            assert(s[jj].0 != user);
                        } else if jj > i {
                            assert(s[i as int].0 != user);
                        }
                    }
                    assert(cooldown_index(s, user) == Some(i as int));
                }
                if now < self.entries[i].1 {
                    return Err(AppError::with_text(
                        ErrorKind::TooManyRequests,
                        "Lütfen yeni bir onay e-postası istemeden önce 24 saat bekleyiniz.",
                    ));
                }
                self.entries.set(i, (user, until));
                return Ok(());
            }
            i = i + 1;
        }
        proof {
            lemma_cooldown_index(s, user);
            let j = cooldown_index(s, user);
            if j is Some {
                assert(s[j->0].0 != user);
            }
        }
        self.entries.push((user, until));
        Ok(())
    }
}

/// A request that is let through makes the user wait 24 hours: the cooldowns then hold
/// the moment 24 hours later for him.
pub proof fn lemma_cooldown_set(s: Seq<(u128, u64)>, user: u128, until: u64)
    ensures
        cooldown_of(set_cooldown(s, user, until), user) == Some(until),
{
    lemma_cooldown_index(s, user);
    let t = set_cooldown(s, user, until);
    lemma_cooldown_index(t, user);
    match cooldown_index(s, user) {
        Some(i) => {
            match cooldown_index(t, user) {
                Some(j) => {
                    if j < i {
                        assert(t[j] == s[j]);
                    } else if j > i {
                        assert(t[i].0 == user);
                    }
                },
                None => { assert(t[i].0 == user); },
            }
        },
        None => {
            match cooldown_index(t, user) {
                Some(j) => {
                    if j < s.len() {
                        assert(t[j] == s[j]);
                    }
                },
                None => { assert(t[s.len() as int].0 == user); },
            }
        },
    }
}

} // verus!
