//! Passwords: stored as bcrypt hashes, and checked against them wherever an account
//! proves who it is (signing in, changing the profile, deleting the account).

use vstd::prelude::*;
use crate::accounts::{Account, AccountStatus, needs_password, new_account, new_google_account, reset_password};
use crate::dto::user::{UpdateProfileDto, UserRole};
use crate::error::{AppError, ErrorKind};
use crate::service_errors::AuthError;
use crate::text::{spec_to_lowercase, to_lowercase};
use vstd::string::StringExecFns;

verus! {

/// bcrypt's verdict on a password against a stored hash (`bcrypt::verify`): whether the
/// password, hashed with the cost and salt the stored hash names, gives the same hash;
/// `None` when the stored text is not a bcrypt hash.
pub uninterp spec fn bcrypt_verdict(password: Seq<char>, hash: Seq<char>) -> Option<bool>;

/// `bcrypt::verify`: its verdict is named by `bcrypt_verdict`; a stored text that is not
/// a bcrypt hash gives the error's text.
#[verifier::external_body]
fn verify_password(password: &str, hash: &str) -> (r: Result<bool, String>)
    ensures
        match r {
            Ok(b) => bcrypt_verdict(password@, hash@) == Some(b),
            Err(_) => bcrypt_verdict(password@, hash@) is None,
        },
{
    bcrypt::verify(password, hash).map_err(|e| e.to_string())
}

/// `bcrypt::hash` with `bcrypt::DEFAULT_COST`. The salt is drawn from the operating
/// system's randomness, so the hash differs from call to call; what holds of every
/// hash it returns is that `bcrypt::verify` accepts the password against it (both
/// truncate the password at 72 bytes alike). It fails only when no randomness can be
/// had, with the error's text.
#[verifier::external_body]
fn hash_password(password: &str) -> (r: Result<String, String>)
    ensures
        r matches Ok(h) ==> bcrypt_verdict(password@, h@) == Some(true),
{
    bcrypt::hash(password, bcrypt::DEFAULT_COST).map_err(|e| e.to_string())
}

/// The password is accepted against the stored hash.
pub open spec fn password_ok(password: Seq<char>, hash: Seq<char>) -> bool {
    bcrypt_verdict(password, hash) == Some(true)
}

/// Whether a password matches a stored hash, a malformed hash counting as a mismatch.
pub fn password_matches(password: &str, hash: &str) -> (b: bool)
    ensures
        b == password_ok(password@, hash@),
{
    match verify_password(password, hash) {
        Ok(b) => b,
        Err(_) => false,
    }
}

/// The sign-in check of an account found by its name or address: a suspended or banned
/// account is turned away; otherwise the password must match the stored hash, a
/// malformed stored hash being a failure of the security module.
pub fn check_login(status: AccountStatus, password: &str, hash: &str) -> (r: Result<(), AuthError>)
    ensures
        status != AccountStatus::Active ==> r matches Err(AuthError::AccountDisabled),
        status == AccountStatus::Active ==> (r is Ok <==> password_ok(password@, hash@)),
        status == AccountStatus::Active && bcrypt_verdict(password@, hash@) == Some(false) ==> r matches Err(
            AuthError::InvalidCredentials,
        ),
        status == AccountStatus::Active && bcrypt_verdict(password@, hash@) is None ==> r matches Err(
            AuthError::HashError(_),
        ),
{
    if status != AccountStatus::Active {
        return Err(AuthError::AccountDisabled);
    }
    match verify_password(password, hash) {
        Ok(true) => Ok(()),
        Ok(false) => Err(AuthError::InvalidCredentials),
        Err(e) => Err(AuthError::HashError(e)),
    }
}

/// Deleting one's account asks for the current password.
pub fn check_deletion(password: &str, hash: &str) -> (r: Result<(), AppError>)
    ensures
        r is Ok <==> password_ok(password@, hash@),
        r matches Err(e) ==> e@ == (ErrorKind::Unauthorized, "Şifre hatalı. Hesap silme işlemi iptal edildi."@),
{
    if password_matches(password, hash) {
        Ok(())
    } else {
        Err(AppError::with_text(ErrorKind::Unauthorized, "Şifre hatalı. Hesap silme işlemi iptal edildi."))
    }
}

/// A sign-up's account, its password stored as a bcrypt hash (see `new_account`); the
/// hashing can fail only for want of randomness.
pub fn register_account(
    id: u128,
    username: String,
    email: String,
    password: &str,
    default_city_slug: Option<String>,
    email_security: Option<bool>,
) -> (r: Result<Account, AuthError>)
    ensures
        r matches Err(e) ==> e is HashError,
        r matches Ok(a) ==> {
            &&& a.id == id && a.username == username && a.email == email
            &&& password_ok(password@, a.password_hash@)
            &&& a.default_city_slug == default_city_slug
            &&& a.role == UserRole::User && a.karma_score == 0 && !a.is_verified && a.status == AccountStatus::Active
            &&& a.avatar_url is None && a.bio is None && a.token_version == 0 && !a.opt_out_statistics
            &&& a.email_security == (email_security == Some(true))
        },
{
    match hash_password(password) {
        Ok(h) => Ok(new_account(id, username, email, h, default_city_slug, email_security)),
        Err(e) => Err(AuthError::HashError(e)),
    }
}

/// A Google sign-up's account: it signs in through Google only, so its stored hash is
/// of a throw-away password (`throwaway`, a fresh random text) that nobody knows.
pub fn register_google_account(
    id: u128,
    username: String,
    email: &str,
    picture: Option<String>,
    throwaway: &str,
) -> (r: Result<Account, AuthError>)
    ensures
        r matches Err(e) ==> e is HashError,
        r matches Ok(a) ==> {
            &&& a.id == id && a.username == username && a.email@ == spec_to_lowercase(email@)
            &&& password_ok(throwaway@, a.password_hash@)
            &&& a.avatar_url == picture
            &&& a.role == UserRole::User && a.karma_score == 0 && a.is_verified && a.status == AccountStatus::Active
        },
{
    match hash_password(throwaway) {
        Ok(h) => Ok(new_google_account(id, username, email, h, picture)),
        Err(e) => Err(AuthError::HashError(e)),
    }
}

/// A password reset: the new password is stored as a bcrypt hash and every session
/// ends (see `reset_password`); the account is untouched when hashing fails.
pub fn reset_account_password(acct: &mut Account, new_password: &str) -> (r: Result<(), AuthError>)
    requires
        old(acct).token_version < i32::MAX,
    ensures
        r matches Err(e) ==> e is HashError && *final(acct) == *old(acct),
        r is Ok ==> {
            &&& password_ok(new_password@, final(acct).password_hash@)
            &&& final(acct).token_version == old(acct).token_version + 1
            &&& final(acct).id == old(acct).id && final(acct).username == old(acct).username
            &&& final(acct).email == old(acct).email
        },
{
    match hash_password(new_password) {
        Ok(h) => {
            reset_password(acct, h);
            Ok(())
        },
        Err(e) => Err(AuthError::HashError(e)),
    }
}

/// The first administrator, made from the configured address and password when no
/// account has that address: named `admin`, with the lowercased address, verified and
/// active, its password stored as a bcrypt hash.
pub fn admin_account(id: u128, email: &str, password: &str) -> (r: Result<Account, AuthError>)
    ensures
        r matches Err(e) ==> e is HashError,
        r matches Ok(a) ==> {
            &&& a.id == id && a.username@ == "admin"@ && a.email@ == spec_to_lowercase(email@)
            &&& password_ok(password@, a.password_hash@)
            &&& a.role == UserRole::Admin && a.status == AccountStatus::Active && a.is_verified
            &&& a.karma_score == 0 && a.token_version == 0
        },
{
    match hash_password(password) {
        Ok(h) => Ok(Account {
            id,
            username: String::from_str("admin"),
            email: to_lowercase(email),
            password_hash: h,
            role: UserRole::Admin,
            karma_score: 0,
            is_verified: true,
            status: AccountStatus::Active,
            avatar_url: None,
            bio: None,
            default_city_slug: None,
            token_version: 0,
            opt_out_statistics: false,
            email_security: false,
        }),
        Err(e) => Err(AuthError::HashError(e)),
    }
}

/// The current password a profile change gives is accepted against the stored hash (no
/// current password counts as a wrong one).
pub open spec fn current_password_ok(dto: &UpdateProfileDto, hash: Seq<char>) -> bool {
    match dto.current_password {
        Some(p) => password_ok(p@, hash),
        None => false,
    }
}

/// A profile change, checked in the order the service checks it: a change of name,
/// address or password needs the current password; a new name or address must not be
/// another account's; a new password is stored as a bcrypt hash (a failure to hash
/// leaves the account as it was). Then `apply_profile_update` applies it.
pub fn update_profile(
    acct: &mut Account,
    dto: UpdateProfileDto,
    username_taken: bool,
    email_taken: bool,
    sanitized_bio: Option<String>,
) -> (r: Result<(), AuthError>)
    requires
        old(acct).token_version < i32::MAX,
    ensures
        needs_password(&dto) && !current_password_ok(&dto, old(acct).password_hash@) ==> (r matches Err(
            AuthError::InvalidCredentials,
        )) && *final(acct) == *old(acct),
        !(needs_password(&dto) && !current_password_ok(&dto, old(acct).password_hash@)) && dto.username is Some
            && username_taken ==> (r matches Err(AuthError::UserAlreadyExists)) && *final(acct) == *old(acct),
        !(needs_password(&dto) && !current_password_ok(&dto, old(acct).password_hash@)) && !(dto.username is Some
            && username_taken) && dto.email is Some && email_taken ==> (r matches Err(
            AuthError::UserAlreadyExists,
        )) && *final(acct) == *old(acct),
        r matches Err(AuthError::HashError(_)) ==> dto.password is Some && *final(acct) == *old(acct),
        r is Ok ==> !(needs_password(&dto) && !current_password_ok(&dto, old(acct).password_hash@))
            && !(dto.username is Some && username_taken) && !(dto.email is Some && email_taken),
        !(needs_password(&dto) && !current_password_ok(&dto, old(acct).password_hash@)) && !(dto.username is Some
            && username_taken) && !(dto.email is Some && email_taken) && dto.password is None ==> r is Ok,
        r is Ok ==> ({
            &&& final(acct).id == old(acct).id
            &&& final(acct).role == old(acct).role
            &&& final(acct).status == old(acct).status
            &&& final(acct).username == (match dto.username { Some(u) => u, None => old(acct).username })
            &&& final(acct).email == (match dto.email { Some(e) => e, None => old(acct).email })
            &&& (match dto.password {
                Some(p) => password_ok(p@, final(acct).password_hash@),
                None => final(acct).password_hash == old(acct).password_hash,
            })
            &&& final(acct).token_version == (if dto.password is Some { old(acct).token_version + 1 } else { old(acct).token_version as int })
            &&& final(acct).bio == (if dto.bio is Some { sanitized_bio } else { old(acct).bio })
            &&& final(acct).default_city_slug == (if dto.default_city_slug is Some { dto.default_city_slug } else { old(acct).default_city_slug })
            &&& final(acct).opt_out_statistics == (match dto.opt_out_statistics { Some(b) => b, None => old(acct).opt_out_statistics })
        }),
{
    let needs = crate::accounts::profile_needs_password(&dto);
    let matches = if needs {
        match &dto.current_password {
            Some(p) => password_matches(p.as_str(), acct.password_hash.as_str()),
            None => false,
        }
    } else {
        false
    };
    if needs && !matches {
        return Err(AuthError::InvalidCredentials);
    }
    if dto.username.is_some() && username_taken {
        return Err(AuthError::UserAlreadyExists);
    }
    if dto.email.is_some() && email_taken {
        return Err(AuthError::UserAlreadyExists);
    }
    let new_hash = match &dto.password {
        Some(p) => match hash_password(p.as_str()) {
            Ok(h) => Some(h),
            Err(e) => {
                return Err(AuthError::HashError(e));
            },
        },
        None => None,
    };
    let checks = crate::accounts::ProfileChecks {
        password_matches: matches,
        username_taken,
        email_taken,
        new_password_hash: new_hash,
        sanitized_bio,
    };
    crate::accounts::apply_profile_update(acct, dto, checks)
}

} // verus!
