use kepce_api::client_ip::IpAddress;
use kepce_api::rate_limiter::{
    bypasses_limiter, classify_request, limit_request, rejection_text, retry_after_secs, subject_key, RateLimitCategory,
    RateLimitKey, RateLimiter,
};

#[test]
fn test_rate_limiter_triggers() {
    let mut rl = RateLimiter::new();
    let ip = IpAddress::V4(0, 0, 0, 0);
    for i in 0..5u64 {
        let r = limit_request(&mut rl, "/api/v1/auth/login", "POST", false, None, ip, Some("test-client-123"), 1_000 + i);
        assert!(r.is_ok());
    }
    let r = limit_request(&mut rl, "/api/v1/auth/login", "POST", false, None, ip, Some("test-client-123"), 1_005);
    let wait = r.unwrap_err();
    assert_eq!(retry_after_secs(wait), 11);
    assert!(wait > 11_000_000_000 && wait <= 12_000_000_000);
}

#[test]
fn six_logins_at_one_instant_wait_twelve_seconds() {
    let mut rl = RateLimiter::new();
    let ip = IpAddress::V4(192, 0, 2, 1);
    for _ in 0..5 {
        assert_eq!(limit_request(&mut rl, "/api/v1/auth/login", "POST", false, None, ip, None, 7), Ok(()));
    }
    let r = limit_request(&mut rl, "/api/v1/auth/login", "POST", false, None, ip, None, 7);
    assert_eq!(r, Err(12_000_000_000));
    assert_eq!(retry_after_secs(12_000_000_000), 12);
}

#[test]
fn spike_limit_comes_before_the_category() {
    let mut rl = RateLimiter::new();
    let ip = IpAddress::V4(192, 0, 2, 2);
    for _ in 0..10 {
        assert_eq!(limit_request(&mut rl, "/api/v1/menus", "GET", false, None, ip, None, 0), Ok(()));
    }
    // the eleventh request in the same second meets the spike limit of 10 a second
    assert_eq!(limit_request(&mut rl, "/api/v1/menus", "GET", false, Some(9), ip, None, 0), Err(100_000_000));
}

#[test]
fn unlimited_paths_and_keyed_ingestion_pass() {
    let mut rl = RateLimiter::new();
    let ip = IpAddress::V4(192, 0, 2, 3);
    for _ in 0..50 {
        assert_eq!(limit_request(&mut rl, "/assets/logo.png", "GET", false, None, ip, None, 0), Ok(()));
        assert_eq!(limit_request(&mut rl, "/api/v1/ingestion/submit", "POST", true, None, ip, None, 0), Ok(()));
    }
    for _ in 0..5 {
        assert_eq!(limit_request(&mut rl, "/api/v1/auth/login", "POST", false, None, ip, None, 0), Ok(()));
    }
}

#[test]
fn refused_request_is_allowed_after_the_announced_wait() {
    let mut rl = RateLimiter::new();
    let key = RateLimitKey::User(7);
    for _ in 0..3 {
        assert!(rl.check(&key, RateLimitCategory::Register, 0).is_ok());
    }
    let wait = rl.check(&key, RateLimitCategory::Register, 0).unwrap_err();
    // one token of a 3-per-60s bucket takes 20 s to come back
    assert_eq!(wait, 20_000_000_000);
    assert!(rl.check(&key, RateLimitCategory::Register, wait).is_ok());
}

#[test]
fn subjects_are_counted_apart() {
    let mut rl = RateLimiter::new();
    let a = RateLimitKey::User(1);
    let b = RateLimitKey::User(2);
    for _ in 0..5 {
        assert!(rl.check(&a, RateLimitCategory::Login, 0).is_ok());
    }
    assert!(rl.check(&a, RateLimitCategory::Login, 0).is_err());
    assert!(rl.check(&b, RateLimitCategory::Login, 0).is_ok());
    assert!(rl.check(&a, RateLimitCategory::Comment, 0).is_ok());
}

#[test]
fn category_rules() {
    assert_eq!(RateLimitCategory::Login.rules(), (5, 60));
    assert_eq!(RateLimitCategory::ForgotPassword.rules(), (3, 3600));
    assert_eq!(RateLimitCategory::SpikeArrest.rules(), (10, 1));
    assert_eq!(RateLimitCategory::General.rules(), (240, 60));
}

#[test]
fn classify_paths() {
    assert_eq!(classify_request("/api/v1/menus/3/vote", "GET"), Some(RateLimitCategory::Vote));
    assert_eq!(classify_request("/api/v1/comments", "POST"), Some(RateLimitCategory::Comment));
    assert_eq!(classify_request("/api/v1/comments", "GET"), Some(RateLimitCategory::General));
    assert_eq!(classify_request("/api/v1/auth/register", "POST"), Some(RateLimitCategory::Register));
    assert_eq!(classify_request("/api/v1/auth/reset-password", "POST"), Some(RateLimitCategory::ForgotPassword));
    assert_eq!(classify_request("/api/v1/auth/passwordless-login", "POST"), Some(RateLimitCategory::Login));
    assert_eq!(classify_request("/api/v1/auth/passwordless", "POST"), Some(RateLimitCategory::Passwordless));
    assert_eq!(classify_request("/api/v1/ingestion/menu", "POST"), Some(RateLimitCategory::Ingestion));
    assert_eq!(classify_request("/api/v1/assistant/chat", "POST"), Some(RateLimitCategory::Assistant));
    assert_eq!(classify_request("/health", "GET"), None);
}

#[test]
fn ingestion_with_key_skips_the_limiter() {
    assert!(bypasses_limiter(RateLimitCategory::Ingestion, true));
    assert!(!bypasses_limiter(RateLimitCategory::Ingestion, false));
    assert!(!bypasses_limiter(RateLimitCategory::Login, true));
}

#[test]
fn subject_prefers_the_user_then_the_client_id() {
    let ip = IpAddress::V4(10, 0, 0, 1);
    assert!(subject_key(Some(9), ip, Some("abc")).same_as(&RateLimitKey::User(9)));
    assert!(subject_key(None, ip, Some("abc")).same_as(&RateLimitKey::IpClient(ip, "abc".to_string())));
    assert!(subject_key(None, ip, None).same_as(&RateLimitKey::Ip(ip)));
    let long = "x".repeat(80);
    assert!(subject_key(None, ip, Some(&long)).same_as(&RateLimitKey::IpClient(ip, "x".repeat(64))));
}

#[test]
fn retry_after_is_whole_seconds_at_least_one() {
    assert_eq!(retry_after_secs(100_000_000), 1);
    assert_eq!(retry_after_secs(20_000_000_000), 20);
    assert_eq!(retry_after_secs(20_900_000_000), 20);
    assert_eq!(rejection_text(20), "Too Many Requests. Lütfen 20 saniye sonra tekrar deneyin.");
}

#[test]
fn at_most_a_window_and_its_refill_pass() {
    // Login: 5 per 60 s. A request every second for a minute (61 requests, T = 60 s)
    // may pass at most 5 + 5 * 60 / 60 = 10 times.
    let mut rl = RateLimiter::new();
    let key = RateLimitKey::User(3);
    let mut admitted = 0;
    for s in 0..=60u64 {
        if rl.check(&key, RateLimitCategory::Login, s * 1_000_000_000).is_ok() {
            admitted += 1;
        }
    }
    assert!(admitted <= 10);
    assert!(admitted >= 5);
}

#[test]
fn a_refusal_waits_at_least_100_ms() {
    let mut rl = RateLimiter::new();
    let key = RateLimitKey::User(4);
    for _ in 0..240 {
        assert!(rl.check(&key, RateLimitCategory::General, 0).is_ok());
    }
    let wait = rl.check(&key, RateLimitCategory::General, 0).unwrap_err();
    assert!(wait >= 100_000_000);
}
