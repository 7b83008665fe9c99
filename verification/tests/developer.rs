use kepce_api::calendar::CalendarDate;
use kepce_api::developer::{ingestion_auth, IngestionPrincipal, check_project_name, new_api_key, require_developer, require_owner, usage_project, usage_series, UsageLog};
use kepce_api::service_errors::DeveloperError;
use kepce_api::error::AppError;

fn d(month: u32, day: u32) -> CalendarDate {
    CalendarDate { year: 2024, month, day }
}

#[test]
fn gates() {
    assert!(matches!(require_developer(None), Err(DeveloperError::Unauthorized)));
    assert!(matches!(require_developer(Some(false)), Err(DeveloperError::UnverifiedUser)));
    assert!(require_developer(Some(true)).is_ok());
    match check_project_name("   ") {
        Err(DeveloperError::InvalidInput(m)) => assert_eq!(m, "Proje ismi boş olamaz"),
        _ => panic!("blank names are refused"),
    }
    assert!(check_project_name(" x ").is_ok());
    assert!(matches!(require_owner(1, 2), Err(DeveloperError::Unauthorized)));
    assert!(require_owner(3, 3).is_ok());
}

#[test]
fn api_keys() {
    let random: Vec<u8> = (0u8..16).collect();
    let k = new_api_key(&random);
    assert_eq!(k.raw_key, "kp_live_000102030405060708090a0b0c0d0e0f");
    assert_eq!(k.key_prefix, "kp_live_00");
    assert_eq!(k.key_hash, kepce_api::digest::hash_token("kp_live_000102030405060708090a0b0c0d0e0f"));
    assert_eq!(k.key_hash.len(), 64);
}

#[test]
fn usage_windows() {
    assert_eq!(usage_project("all", None).unwrap(), None);
    assert_eq!(usage_project("x", Some(9)).unwrap(), Some(9));
    match usage_project("x", None) {
        Err(DeveloperError::InvalidInput(m)) => assert_eq!(m, "Geçersiz proje ID"),
        _ => panic!("unreadable project ids are refused"),
    }
    let logs = vec![
        UsageLog { date: d(3, 1), requests: 5, errors: 1 },
        UsageLog { date: d(2, 29), requests: 2, errors: 0 },
        UsageLog { date: d(3, 1), requests: 3, errors: 2 },
        UsageLog { date: d(2, 1), requests: 100, errors: 100 },
    ];
    let s = usage_series(d(3, 1), 3, &logs);
    assert_eq!(
        s,
        vec![("2024-02-28".to_string(), 0, 0), ("2024-02-29".to_string(), 2, 0), ("2024-03-01".to_string(), 8, 3)]
    );
    assert_eq!(usage_series(d(3, 1), 0, &logs), vec![("2024-03-01".to_string(), 8, 3)]);
    assert_eq!(usage_series(d(3, 1), -5, &vec![]).len(), 1);
}

fn unauthorized(m: &str) -> AppError {
    AppError::Unauthorized(m.to_string())
}

#[test]
fn ingestion_requests_are_made_by_a_user_or_a_key() {
    assert!(matches!(ingestion_auth(Some(Ok(5)), Some(Ok(9))), Ok(IngestionPrincipal::User(5))));
    // a failed session with no key decides
    assert!(matches!(ingestion_auth(Some(Err(unauthorized("Invalid or expired token"))), None),
        Err(AppError::Unauthorized(m)) if m == "Invalid or expired token"));
    // a stray cookie does not block a key
    assert!(matches!(ingestion_auth(Some(Err(unauthorized("Invalid or expired token"))), Some(Ok(9))),
        Ok(IngestionPrincipal::Developer(9))));
    assert!(matches!(ingestion_auth(None, Some(Err(unauthorized("Geçersiz veya pasif API Key")))),
        Err(AppError::Unauthorized(m)) if m == "Geçersiz veya pasif API Key"));
    assert!(matches!(ingestion_auth(None, None),
        Err(AppError::Unauthorized(m)) if m == "Bu işlem için giriş yapmalı veya geçerli bir X-API-Key sağlamalısınız."));
}
