use kepce_api::calendar::{istanbul_date, utc_date};
use kepce_api::validation::{char_count, json_rejection, length_ok, opt_length_ok, valid_email, validation_rejection};
use kepce_api::bot::BotService;
use kepce_api::calendar::CalendarDate;
use kepce_api::client_ip::{client_ip, is_trusted_proxy, IpAddress};
use kepce_api::config::{directive_from_file, Config};
use kepce_api::error::{AppError, ErrorKind};
use kepce_api::pagination::PaginationQuery;
use kepce_api::requests::{
    city_ref, detected_city_slug, filter_date, index_cache_ttl, index_range, is_celiac_mode, CityRef,
};
use kepce_api::service_errors::BotError;

fn date(year: i32, month: u32, day: u32) -> CalendarDate {
    CalendarDate { year, month, day }
}

#[test]
fn pagination_defaults_and_clamps() {
    let q = PaginationQuery { page: None, limit: None, offset: None };
    assert_eq!((q.page_num(), q.limit_num(), q.offset()), (1, 20, 0));
    let q = PaginationQuery { page: Some(3), limit: Some(500), offset: None };
    assert_eq!((q.page_num(), q.limit_num(), q.offset()), (3, 100, 200));
    let q = PaginationQuery { page: Some(0), limit: Some(0), offset: None };
    assert_eq!((q.page_num(), q.limit_num(), q.offset()), (1, 1, 0));
}

#[test]
fn pagination_offset_gives_the_page() {
    let q = PaginationQuery { page: None, limit: Some(10), offset: Some(25) };
    assert_eq!(q.page_num(), 3);
    assert_eq!(q.offset(), 25);
}

#[test]
fn forwarding_headers_are_believed_only_from_a_trusted_proxy() {
    let proxy = IpAddress::V4(10, 1, 2, 3);
    let outsider = IpAddress::V4(8, 8, 8, 8);
    let cf = IpAddress::V4(1, 2, 3, 4);
    let real = IpAddress::V4(5, 6, 7, 8);
    assert!(is_trusted_proxy(&proxy));
    assert!(is_trusted_proxy(&IpAddress::V4(172, 20, 0, 1)));
    assert!(!is_trusted_proxy(&IpAddress::V4(172, 32, 0, 1)));
    assert!(is_trusted_proxy(&IpAddress::V6(0, 0, 0, 0, 0, 0, 0, 1)));
    assert_eq!(client_ip(Some(proxy), Some(cf), Some(real), None), Some(cf));
    assert_eq!(client_ip(Some(proxy), None, Some(real), None), Some(real));
    assert_eq!(client_ip(Some(outsider), Some(cf), Some(real), None), Some(outsider));
    assert_eq!(client_ip(None, Some(cf), None, None), None);
}

#[test]
fn filter_date_reads_today_and_iso_dates() {
    let today = date(2026, 4, 9);
    assert_eq!(filter_date(None, today).unwrap(), None);
    assert_eq!(filter_date(Some("today"), today).unwrap(), Some(today));
    assert_eq!(filter_date(Some("2026-03-01"), today).unwrap(), Some(date(2026, 3, 1)));
    let err = filter_date(Some("01.03.2026"), today).unwrap_err();
    assert_eq!(err.status_code(), 400);
    assert_eq!(err.message(), "Geçersiz tarih formatı. YYYY-MM-DD veya 'today' kullanılmalıdır.");
}

#[test]
fn month_index_range_runs_to_the_next_month() {
    assert_eq!(index_range("2026-02").unwrap(), (date(2026, 2, 1), date(2026, 3, 1)));
    assert_eq!(index_range("2025-12").unwrap(), (date(2025, 12, 1), date(2026, 1, 1)));
    assert_eq!(index_range("2026").unwrap_err().message(), "Ay formatı YYYY-MM olmalıdır.");
    assert_eq!(index_range("2026-13").unwrap_err().message(), "Geçersiz ay.");
    assert_eq!(index_range("yyyy-02").unwrap_err().message(), "Geçersiz yıl.");
    assert_eq!(index_cache_ttl("2026-04", "2026-04"), 3600);
    assert_eq!(index_cache_ttl("2026-03", "2026-04"), 86400);
}

#[test]
fn city_references() {
    assert_eq!(city_ref("34"), CityRef::Id(34));
    assert_eq!(city_ref("Ankara"), CityRef::Slug("ankara".to_string()));
    assert_eq!(detected_city_slug("Sanli Urfa"), "sanli-urfa");
    assert!(is_celiac_mode(&Some("celiac".to_string())));
    assert!(!is_celiac_mode(&Some("vegan".to_string())));
    assert!(!is_celiac_mode(&None));
}

#[test]
fn bot_requests_and_replies() {
    assert_eq!(
        BotService::endpoint("gemini-flash-latest"),
        "https://generativelanguage.googleapis.com/v1beta/models/gemini-flash-latest:generateContent"
    );
    assert_eq!(BotService::reply_text(Some("  Afiyet olsun!\n")).unwrap(), "Afiyet olsun!");
    match BotService::reply_text(None) {
        Err(BotError::ApiError(m)) => assert_eq!(m, "Beklenmeyen JSON formatı"),
        _ => panic!("expected an unexpected-format error"),
    }
    match BotService::refusal("quota") {
        BotError::ApiError(m) => assert_eq!(m, "Gemini API Error: quota"),
        _ => panic!("expected an API error"),
    }
}

#[test]
fn errors_carry_status_and_text() {
    let e = AppError::with_text(ErrorKind::TooManyRequests, "yavaş");
    assert_eq!(e.status_code(), 429);
    assert_eq!(e.kind(), ErrorKind::TooManyRequests);
    assert_eq!(e.to_display_string(), "Too Many Requests: yavaş");
    assert_eq!(AppError::with_text(ErrorKind::NotFound, "yok").status_code(), 404);
    assert_eq!(AppError::with_text(ErrorKind::Internal, "x").to_display_string(), "Internal Server Error: x");
}

#[test]
fn config_from_env_values_fills_defaults() {
    let c = Config::from_env_values(
        "postgres://db".to_string(),
        "secret".to_string(),
        None,
        None,
        None,
        "directive".to_string(),
        None,
        None,
        Some("TRUE".to_string()),
        None,
        None,
        None,
        None,
        None,
    );
    assert_eq!(c.cors_origin, "http://localhost:5173");
    assert_eq!(c.gemini_model, "gemini-flash-latest");
    assert_eq!(c.resend_api_key, "mock_key");
    assert_eq!(c.base_url, "http://localhost:5173");
    assert!(c.cookie_secure);
    let c2 = Config::from_env_values(
        "postgres://db".to_string(),
        "secret".to_string(),
        Some("https://kepce.org".to_string()),
        None,
        Some("gemini-pro".to_string()),
        "directive".to_string(),
        None,
        None,
        None,
        None,
        None,
        None,
        None,
        None,
    );
    assert_eq!(c2.cors_origin, "https://kepce.org");
    assert_eq!(c2.gemini_model, "gemini-pro");
    assert!(c2.cookie_secure);
}

#[test]
fn directive_prefers_the_file() {
    assert_eq!(directive_from_file(Some("  kendi yönergem \n".to_string()), "yerleşik"), "kendi yönergem");
    assert_eq!(directive_from_file(None, "yerleşik"), "yerleşik");
}

#[test]
fn field_rules() {
    assert!(valid_email("test@example.com"));
    assert!(!valid_email("not-an-email"));
    assert_eq!(char_count("şifre"), 5);
    assert!(length_ok("abc", Some(3), Some(30)));
    assert!(!length_ok("ab", Some(3), Some(30)));
    assert!(opt_length_ok(&None, Some(3), Some(30)));
    assert!(!opt_length_ok(&Some("a".repeat(31)), Some(3), Some(30)));
}

#[test]
fn test_istanbul_offset() {
    assert_eq!(kepce_api::calendar::ISTANBUL_OFFSET_SECS, 3 * 3600);
}

#[test]
fn test_istanbul_today() {
    let now = std::time::SystemTime::now()
        .duration_since(std::time::UNIX_EPOCH)
        .unwrap()
        .as_secs() as i64;
    let today = kepce_api::calendar::istanbul_date(now).unwrap();
    assert!(today.year >= 2026);
}

#[test]
fn istanbul_day_starts_three_hours_before_utc() {
    // 2023-11-14 22:13:20 UTC is already the 15th in Istanbul
    assert_eq!(utc_date(1_700_000_000), Some(date(2023, 11, 14)));
    assert_eq!(istanbul_date(1_700_000_000), Some(date(2023, 11, 15)));
    assert_eq!(istanbul_date(0), Some(date(1970, 1, 1)));
    assert_eq!(istanbul_date(-10_801), Some(date(1969, 12, 31)));
    assert_eq!(istanbul_date(i64::MAX), None);
}

#[test]
fn duplicate_key_codes() {
    for code in ["23505", "2067", "1555", "1062"] {
        assert!(kepce_api::error::is_unique_violation_code(code));
    }
    assert!(!kepce_api::error::is_unique_violation_code("23503"));
    assert!(!kepce_api::error::is_unique_violation_code(""));
}

#[test]
fn session_cookie_round_trip_and_bearer_fallback() {
    let token = "eyJhbGciOiJIUzI1NiJ9.payload.sig";
    let header = format!("kepce_token={}", token);
    let got: String = kepce_api::session::cookie_token(&header).unwrap().into_iter().collect();
    assert_eq!(got, token);
    assert_eq!(
        kepce_api::session::session_token(Some("theme=dark; kepce_token=abc"), Some("Bearer xyz")),
        Some("abc".to_string())
    );
    assert_eq!(kepce_api::session::session_token(Some("theme=dark"), Some("Bearer xyz")), Some("xyz".to_string()));
    assert_eq!(kepce_api::session::session_token(None, Some("Basic xyz")), None);
}

#[test]
fn link_local_peers_are_not_trusted() {
    assert!(!is_trusted_proxy(&IpAddress::V4(169, 254, 1, 1)));
    assert!(!is_trusted_proxy(&IpAddress::V4(8, 8, 8, 8)));
    assert!(is_trusted_proxy(&IpAddress::V4(192, 168, 0, 2)));
    let peer = IpAddress::V4(169, 254, 1, 1);
    assert_eq!(client_ip(Some(peer), Some(IpAddress::V4(1, 2, 3, 4)), None, None), Some(peer));
}

#[test]
fn whitespace_is_the_unicode_set() {
    for c in ['\t', '\n', '\u{b}', '\u{c}', '\r', ' ', '\u{85}', '\u{a0}', '\u{1680}', '\u{2000}', '\u{200a}', '\u{2028}', '\u{2029}', '\u{202f}', '\u{205f}', '\u{3000}'] {
        assert!(kepce_api::text::is_whitespace(c));
        assert_eq!(kepce_api::text::is_whitespace(c), c.is_whitespace());
    }
    for c in ['a', '\u{200b}', '\u{feff}', '\u{180e}', '_'] {
        assert_eq!(kepce_api::text::is_whitespace(c), c.is_whitespace());
    }
    for n in 0u32..0x3100 {
        if let Some(c) = char::from_u32(n) {
            assert_eq!(kepce_api::text::is_whitespace(c), c.is_whitespace(), "{:x}", n);
        }
    }
}

#[test]
fn body_rejections() {
    match validation_rejection(Some("Kullanıcı adı en az 3 karakter olmalıdır")) {
        kepce_api::error::AppError::BadRequest(m) => assert_eq!(m, "Kullanıcı adı en az 3 karakter olmalıdır"),
        _ => panic!("a failed check is a bad request"),
    }
    match validation_rejection(Some("")) {
        kepce_api::error::AppError::BadRequest(m) => assert_eq!(m, "Girdi doğrulama hatası"),
        _ => panic!("a failed check is a bad request"),
    }
    match validation_rejection(None) {
        kepce_api::error::AppError::BadRequest(m) => assert_eq!(m, "Girdi doğrulama hatası"),
        _ => panic!("a failed check is a bad request"),
    }
    match json_rejection("missing field `email`") {
        kepce_api::error::AppError::BadRequest(m) => assert_eq!(m, "Geçersiz JSON: missing field `email`"),
        _ => panic!("unreadable JSON is a bad request"),
    }
}
