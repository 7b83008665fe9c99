use kepce_api::calendar::CalendarDate;
use kepce_api::error::AppError;
use kepce_api::usage::{admit_api_key, api_key_hash, tier_limit, UsageTracker};

fn d(day: u32) -> CalendarDate {
    CalendarDate { year: 2024, month: 3, day }
}

#[test]
fn tiers() {
    assert_eq!(tier_limit("ticari"), 100000);
    assert_eq!(tier_limit("free"), 2500);
    assert_eq!(tier_limit(""), 2500);
}

#[test]
fn quota_is_enforced_per_day() {
    let mut t = UsageTracker::new();
    assert_eq!(t.cached_requests(7, d(1)), None);
    assert!(t.record_request(7, "free", false, d(1), 2498).is_ok());
    assert_eq!(t.cached_requests(7, d(1)), Some(2499));
    assert!(t.record_request(7, "free", true, d(1), 0).is_ok());
    assert_eq!(t.cached_requests(7, d(1)), Some(2500));
    let e = t.record_request(7, "free", false, d(1), 0).unwrap_err();
    assert_eq!(e, "Günlük API kullanım sınırına ulaştınız (Limit: 2500/gün).");
    assert_eq!(t.cached_requests(7, d(1)), Some(2500));
    assert_eq!(t.cached_requests(7, d(2)), None);
    assert!(t.record_request(7, "free", false, d(2), 0).is_ok());
    assert_eq!(t.cached_requests(7, d(2)), Some(1));
    let e = t.record_request(8, "ticari", false, d(2), 100000).unwrap_err();
    assert_eq!(e, "Günlük API kullanım sınırına ulaştınız (Limit: 100000/gün).");
    let b = t.take_buffer();
    assert_eq!(b.len(), 1);
    assert_eq!(b.get(&7), Some(&(3, 1)));
    assert!(t.take_buffer().is_empty());
}

#[test]
fn api_key_header_is_hashed() {
    assert!(matches!(api_key_hash(None), Err(AppError::Unauthorized(m)) if m == "API Key eksik (X-API-Key header'ı gerekli)"));
    assert_eq!(
        api_key_hash(Some("abc")).ok().unwrap(),
        "ba7816bf8f01cfea414140de5dae2223b00361a396177a9cb410ff61f20015ad"
    );
}

#[test]
fn api_keys_are_admitted_within_their_quota() {
    let mut t = UsageTracker::new();
    assert!(matches!(admit_api_key(&mut t, Err(()), d(1), 0), Err(AppError::Internal(m)) if m == "Veritabanı hatası"));
    assert!(matches!(admit_api_key(&mut t, Ok(None), d(1), 0),
        Err(AppError::Unauthorized(m)) if m == "Geçersiz veya pasif API Key"));
    assert_eq!(t.cached_requests(3, d(1)), None);
    assert!(matches!(admit_api_key(&mut t, Ok(Some((3, "free".to_string()))), d(1), 2499), Ok(3)));
    assert!(matches!(admit_api_key(&mut t, Ok(Some((3, "free".to_string()))), d(1), 0),
        Err(AppError::TooManyRequests(m)) if m == "Günlük API kullanım sınırına ulaştınız (Limit: 2500/gün)."));
    let b = t.take_buffer();
    assert_eq!(b.get(&3), Some(&(1, 0)));
}
