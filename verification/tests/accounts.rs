use kepce_api::accounts::{
    apply_profile_update, audience, base_username, expires_at, google_sign_in, login_lookup, may_try_another_name,
    new_account, new_google_account, passwordless_decision, signup_username, refresh_decision, require_active, reset_password, username_candidate,
    verify_email, Account, AccountStatus, ProfileChecks, TokenKind,
};
use kepce_api::dto::user::{UpdateProfileDto, UserRole};
use kepce_api::service_errors::AuthError;

fn account() -> Account {
    new_account(1, "ali".to_string(), "ali@x.com".to_string(), "h0".to_string(), None, None)
}

fn no_change() -> UpdateProfileDto {
    UpdateProfileDto {
        username: None,
        email: None,
        current_password: None,
        password: None,
        bio: None,
        default_city_slug: None,
        opt_out_statistics: None,
    }
}

fn checks(ok: bool) -> ProfileChecks {
    ProfileChecks { password_matches: ok, username_taken: false, email_taken: false, new_password_hash: None, sanitized_bio: None }
}

#[test]
fn tokens() {
    assert_eq!(audience(TokenKind::Access), "kepce-web");
    assert_eq!(audience(TokenKind::Refresh), "kepce-refresh");
    assert_eq!(audience(TokenKind::Verify), "kepce-verify");
    assert_eq!(audience(TokenKind::Reset), "kepce-reset");
    assert_eq!(audience(TokenKind::Passwordless), "kepce-passwordless");
    assert_eq!(expires_at(TokenKind::Access, 1000), Some(1900));
    assert_eq!(expires_at(TokenKind::Refresh, 0), Some(2592000));
    assert_eq!(expires_at(TokenKind::Verify, 0), Some(86400));
    assert_eq!(expires_at(TokenKind::Reset, 0), Some(3600));
    assert_eq!(expires_at(TokenKind::Reset, i64::MAX), None);
}

#[test]
fn names_and_lookups() {
    assert_eq!(base_username("Ali.Veli@Example.com"), "ali.veli");
    assert_eq!(base_username("nobody"), "nobody");
    assert_eq!(username_candidate("ali", "AB12c"), "ali_ab12c");
    assert!(may_try_another_name(4));
    assert!(!may_try_another_name(5));
    assert_eq!(login_lookup("Ali@X.com"), (true, "ali@x.com".to_string()));
    assert_eq!(login_lookup("AliVeli"), (false, "aliveli".to_string()));
}

#[test]
fn new_accounts() {
    let a = new_account(1, "ali".to_string(), "ali@x.com".to_string(), "h".to_string(), Some("ankara".to_string()), Some(true));
    assert_eq!(a.role, UserRole::User);
    assert!(!a.is_verified && a.email_security && a.karma_score == 0 && a.token_version == 0);
    let g = new_google_account(2, "veli".to_string(), "Veli@Gmail.com", "h".to_string(), Some("p.png".to_string()));
    assert!(g.is_verified);
    assert_eq!(g.email, "veli@gmail.com");
    assert_eq!(g.avatar_url, Some("p.png".to_string()));
    assert!(require_active(AccountStatus::Active).is_ok());
    assert!(matches!(require_active(AccountStatus::Banned), Err(AuthError::AccountDisabled)));
}

#[test]
fn google_sign_in_keeps_own_picture() {
    let mut a = account();
    google_sign_in(&mut a, Some("g.png".to_string())).unwrap();
    assert_eq!(a.avatar_url, Some("g.png".to_string()));
    google_sign_in(&mut a, Some("h.png".to_string())).unwrap();
    assert_eq!(a.avatar_url, Some("g.png".to_string()));
    a.status = AccountStatus::Suspended;
    assert!(matches!(google_sign_in(&mut a, None), Err(AuthError::AccountDisabled)));
}

#[test]
fn profile_updates() {
    let mut a = account();
    let mut dto = no_change();
    dto.password = Some("newpassword".to_string());
    assert!(matches!(apply_profile_update(&mut a, dto, checks(false)), Err(AuthError::InvalidCredentials)));
    assert_eq!(a.token_version, 0);
    let mut dto = no_change();
    dto.password = Some("newpassword".to_string());
    let mut c = checks(true);
    c.new_password_hash = Some("h1".to_string());
    apply_profile_update(&mut a, dto, c).unwrap();
    assert_eq!((a.password_hash.as_str(), a.token_version), ("h1", 1));
    let mut dto = no_change();
    dto.username = Some("yeni".to_string());
    let mut c = checks(true);
    c.username_taken = true;
    assert!(matches!(apply_profile_update(&mut a, dto, c), Err(AuthError::UserAlreadyExists)));
    let mut dto = no_change();
    dto.bio = Some("<b>merhaba</b>".to_string());
    dto.opt_out_statistics = Some(true);
    let mut c = checks(false);
    c.sanitized_bio = Some("merhaba".to_string());
    apply_profile_update(&mut a, dto, c).unwrap();
    assert_eq!(a.bio, Some("merhaba".to_string()));
    assert!(a.opt_out_statistics);
    assert_eq!(a.username, "ali");
    reset_password(&mut a, "h2".to_string());
    assert_eq!(a.token_version, 2);
}

#[test]
fn email_verification_and_refresh() {
    let mut a = account();
    assert!(matches!(verify_email(&mut a, true), Err(AuthError::TokenError(_))));
    assert_eq!(verify_email(&mut a, false).unwrap(), false);
    assert!(a.is_verified);
    assert_eq!(verify_email(&mut a, true).unwrap(), true);
    assert_eq!(refresh_decision(false, None).unwrap_err().status_code(), 401);
    assert_eq!(refresh_decision(true, None).unwrap_err().message(), "Kullanıcı bulunamadı.");
    assert_eq!(refresh_decision(true, Some((AccountStatus::Banned, UserRole::User))).unwrap_err().status_code(), 403);
    assert_eq!(refresh_decision(true, Some((AccountStatus::Active, UserRole::Admin))).unwrap(), UserRole::Admin);
}

#[test]
fn verification_mail_cooldown() {
    use_cooldowns();
}

fn use_cooldowns() {
    let mut c = kepce_api::accounts::ResendCooldowns { entries: vec![] };
    assert!(c.request(5, 100).is_ok());
    let e = c.request(5, 100 + 86399).unwrap_err();
    assert_eq!(e.status_code(), 429);
    assert_eq!(e.message(), "Lütfen yeni bir onay e-postası istemeden önce 24 saat bekleyiniz.");
    assert!(c.request(6, 200).is_ok());
    assert!(c.request(5, 100 + 86400).is_ok());
    assert_eq!(c.entries, vec![(5, 100 + 2 * 86400), (6, 200 + 86400)]);
}

#[test]
fn claims_of_each_kind() {
    let a = kepce_api::accounts::token_claims(TokenKind::Access, 9, 1000, "ali", UserRole::Admin, true, 4).unwrap();
    assert_eq!((a.sub, a.exp, a.iss.as_str(), a.aud.as_str()), (9, 1900, "kepce", "kepce-web"));
    assert_eq!(a.username.as_deref(), Some("ali"));
    assert_eq!(a.role, Some(UserRole::Admin));
    assert!(a.remember.is_none() && a.session.is_none());
    let r = kepce_api::accounts::token_claims(TokenKind::Refresh, 9, 0, "ali", UserRole::User, true, 4).unwrap();
    assert_eq!((r.aud.as_str(), r.remember, r.session), ("kepce-refresh", Some(true), Some(4)));
    assert!(r.username.is_none() && r.role.is_none());
    assert!(kepce_api::accounts::token_claims(TokenKind::Verify, 9, i64::MAX, "", UserRole::User, false, 0).is_none());
}

#[test]
fn sign_in_links() {
    match passwordless_decision(true, Some(AccountStatus::Active)) {
        Err(AuthError::TokenError(m)) => {
            assert_eq!(m, "Bu giriş bağlantısı zaten kullanılmış. Lütfen yeni bir bağlantı isteyin.")
        },
        _ => panic!("a used link must be refused"),
    }
    assert!(matches!(passwordless_decision(false, None), Err(AuthError::InvalidCredentials)));
    assert!(matches!(passwordless_decision(false, Some(AccountStatus::Banned)), Err(AuthError::AccountDisabled)));
    assert!(matches!(passwordless_decision(false, Some(AccountStatus::Suspended)), Err(AuthError::AccountDisabled)));
    assert!(passwordless_decision(false, Some(AccountStatus::Active)).is_ok());
}

#[test]
fn sign_up_names() {
    let (name, check) = signup_username(Some("Flow_Test"), "flow_test@kepce.org");
    assert_eq!(name, "flow_test");
    assert!(!check);
    let (name, check) = signup_username(None, "Ayse.Yilmaz@Example.org");
    assert_eq!(name, "ayse.yilmaz");
    assert!(check);
}
