use kepce_api::accounts::{AccountStatus, Account};
use kepce_api::dto::user::{UpdateProfileDto, UserRole};
use kepce_api::passwords::{
    admin_account, check_deletion, check_login, password_matches, register_account, reset_account_password,
    update_profile,
};
use kepce_api::service_errors::AuthError;

fn registered(password: &str) -> Account {
    register_account(7, "ayse".to_string(), "ayse@example.com".to_string(), password, None, Some(true)).unwrap()
}

#[test]
fn a_registered_password_signs_in_and_a_wrong_one_does_not() {
    let a = registered("password123");
    assert!(a.password_hash.starts_with("$2b$12$"));
    assert_ne!(a.password_hash, "password123");
    assert!(check_login(AccountStatus::Active, "password123", &a.password_hash).is_ok());
    assert!(matches!(
        check_login(AccountStatus::Active, "wrong_password", &a.password_hash),
        Err(AuthError::InvalidCredentials)
    ));
    assert!(matches!(
        check_login(AccountStatus::Banned, "password123", &a.password_hash),
        Err(AuthError::AccountDisabled)
    ));
    assert!(matches!(check_login(AccountStatus::Active, "x", "not-a-hash"), Err(AuthError::HashError(_))));
    assert!(!password_matches("x", "not-a-hash"));
}

#[test]
fn deleting_asks_for_the_right_password() {
    let a = registered("password123");
    assert!(check_deletion("password123", &a.password_hash).is_ok());
    let e = check_deletion("nope", &a.password_hash).unwrap_err();
    assert_eq!(e.status_code(), 401);
    assert_eq!(e.message(), "Şifre hatalı. Hesap silme işlemi iptal edildi.");
}

#[test]
fn reset_stores_the_new_password_and_ends_sessions() {
    let mut a = registered("password123");
    reset_account_password(&mut a, "yenisifre99").unwrap();
    assert_eq!(a.token_version, 1);
    assert!(password_matches("yenisifre99", &a.password_hash));
    assert!(!password_matches("password123", &a.password_hash));
}

#[test]
fn profile_change_needs_the_current_password() {
    let mut a = registered("password123");
    let change = |current: Option<&str>| UpdateProfileDto {
        username: None,
        email: None,
        current_password: current.map(|s| s.to_string()),
        password: Some("yenisifre99".to_string()),
        bio: None,
        default_city_slug: None,
        opt_out_statistics: None,
    };
    assert!(matches!(update_profile(&mut a, change(None), false, false, None), Err(AuthError::InvalidCredentials)));
    assert!(matches!(
        update_profile(&mut a, change(Some("wrong")), false, false, None),
        Err(AuthError::InvalidCredentials)
    ));
    assert!(update_profile(&mut a, change(Some("password123")), false, false, None).is_ok());
    assert!(password_matches("yenisifre99", &a.password_hash));
    assert_eq!(a.token_version, 1);
}

#[test]
fn the_first_administrator() {
    let a = admin_account(1, "Admin@Kepce.org", "s3cret-pass").unwrap();
    assert_eq!((a.username.as_str(), a.email.as_str()), ("admin", "admin@kepce.org"));
    assert_eq!(a.role, UserRole::Admin);
    assert!(a.is_verified);
    assert!(password_matches("s3cret-pass", &a.password_hash));
}
