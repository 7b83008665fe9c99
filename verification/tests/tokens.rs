use kepce_api::accounts::{token_claims, TokenClaims, TokenKind};
use kepce_api::dto::user::UserRole;
use kepce_api::error::AppError;
use kepce_api::service_errors::AuthError;
use kepce_api::tokens::{
    authenticate, authenticate_at, claim_fields, issue_token, issue_token_at, decode_token, decode_token_at, link_subject, read_token,
    refresh_session, refresh_session_id, role_name, sign_token, token_expired, ClaimField,
};

const SECRET: &str = "test-secret";
const NOW: i64 = 1_700_000_000;
const USER: u128 = 0x67e5_5044_10b1_426f_9247_bb68_0e5f_e0c8;
const SESSION: u128 = 0x1111_2222_3333_4444_5555_6666_7777_8888;

fn claims(kind: TokenKind, now: i64) -> TokenClaims {
    token_claims(kind, USER, now, "ayse", UserRole::Admin, true, SESSION).unwrap()
}

fn signed(kind: TokenKind, now: i64) -> String {
    sign_token(&claims(kind, now), SECRET).ok().unwrap()
}

fn clock_now() -> i64 {
    std::time::SystemTime::now().duration_since(std::time::UNIX_EPOCH).unwrap().as_secs() as i64
}

#[test]
fn role_names() {
    assert_eq!(role_name(UserRole::User), "user");
    assert_eq!(role_name(UserRole::Admin), "admin");
    assert_eq!(role_name(UserRole::SystemBot), "system_bot");
}

#[test]
fn fields_of_an_access_token() {
    let f = claim_fields(&claims(TokenKind::Access, NOW));
    let names: Vec<&str> = f.iter().map(|(k, _)| k.as_str()).collect();
    assert_eq!(names, vec!["sub", "exp", "iss", "aud", "username", "role"]);
    assert!(matches!(&f[0].1, ClaimField::Text(t) if t == "67e55044-10b1-426f-9247-bb680e5fe0c8"));
    assert!(matches!(&f[1].1, ClaimField::Number(n) if *n == 1_700_000_900));
    assert!(matches!(&f[5].1, ClaimField::Text(t) if t == "admin"));
    let r = claim_fields(&claims(TokenKind::Refresh, NOW));
    let names: Vec<&str> = r.iter().map(|(k, _)| k.as_str()).collect();
    assert_eq!(names, vec!["sub", "exp", "iss", "aud", "rem", "jti"]);
}

#[test]
fn a_signed_token_reads_back() {
    for kind in [TokenKind::Access, TokenKind::Refresh, TokenKind::Verify, TokenKind::Reset, TokenKind::Passwordless] {
        let c = claims(kind, NOW);
        let t = sign_token(&c, SECRET).ok().unwrap();
        assert_eq!(t.split('.').count(), 3);
        let back = read_token(&t, kind, SECRET).ok().unwrap();
        assert_eq!(back.sub, c.sub);
        assert_eq!(back.exp, c.exp);
        assert_eq!(back.iss, "kepce");
        assert_eq!(back.aud, c.aud);
        assert_eq!(back.username, c.username);
        assert_eq!(back.role, c.role);
        assert_eq!(back.remember, c.remember);
        assert_eq!(back.session, c.session);
    }
}

#[test]
fn tokens_are_refused_for_another_audience_or_secret() {
    let t = signed(TokenKind::Access, NOW);
    assert_eq!(read_token(&t, TokenKind::Verify, SECRET).err().unwrap(), "InvalidAudience");
    assert_eq!(read_token(&t, TokenKind::Access, "other").err().unwrap(), "InvalidSignature");
    assert!(read_token("not-a-token", TokenKind::Access, SECRET).is_err());
}

#[test]
fn claims_that_do_not_fit_the_kind_are_unreadable() {
    // a verification token lacks the name and role of an access token
    let mut m = serde_json::Map::new();
    m.insert("sub".to_string(), serde_json::Value::from("67e55044-10b1-426f-9247-bb680e5fe0c8"));
    m.insert("exp".to_string(), serde_json::Value::from(1_700_000_900u64));
    m.insert("iss".to_string(), serde_json::Value::from("kepce"));
    m.insert("aud".to_string(), serde_json::Value::from("kepce-web"));
    let t = jsonwebtoken::encode(
        &jsonwebtoken::Header::default(),
        &m,
        &jsonwebtoken::EncodingKey::from_secret(SECRET.as_bytes()),
    )
    .unwrap();
    assert_eq!(read_token(&t, TokenKind::Access, SECRET).err().unwrap(), "Invalid token claims");
}

#[test]
fn expiry_has_a_minute_of_leeway() {
    assert!(!token_expired(100, 160));
    assert!(token_expired(100, 161));
    let t = signed(TokenKind::Access, NOW);
    let exp = (NOW + 900) as u64;
    assert!(decode_token_at(&t, TokenKind::Access, SECRET, exp + 60).is_ok());
    assert_eq!(decode_token_at(&t, TokenKind::Access, SECRET, exp + 61).err().unwrap(), "ExpiredSignature");
    assert!(decode_token(&t, TokenKind::Access, SECRET).is_err());
    let live = signed(TokenKind::Access, clock_now());
    assert_eq!(decode_token(&live, TokenKind::Access, SECRET).ok().unwrap().sub, USER);
}

#[test]
fn requests_are_authenticated_by_their_session_token() {
    let t = signed(TokenKind::Access, NOW);
    let at = (NOW + 10) as u64;
    match authenticate_at(None, None, SECRET, at) {
        Err(AppError::Unauthorized(m)) => assert_eq!(m, "Missing or invalid authorization header or cookie"),
        _ => panic!("a request without a token is refused"),
    }
    match authenticate_at(None, Some("Bearer nonsense"), SECRET, at) {
        Err(AppError::Unauthorized(m)) => assert_eq!(m, "Invalid or expired token"),
        _ => panic!("a bad token is refused"),
    }
    let cookie = format!("theme=dark; kepce_token={}", t);
    let u = authenticate_at(Some(&cookie), None, SECRET, at).ok().unwrap();
    assert_eq!((u.id, u.username.as_str(), u.role), (USER, "ayse", UserRole::Admin));
    let bearer = format!("Bearer {}", t);
    assert_eq!(authenticate_at(None, Some(&bearer), SECRET, at).ok().unwrap().id, USER);
    // a refresh token is no access token
    let refresh = format!("Bearer {}", signed(TokenKind::Refresh, NOW));
    assert!(authenticate_at(None, Some(&refresh), SECRET, at).is_err());
    let live = format!("Bearer {}", signed(TokenKind::Access, clock_now()));
    assert_eq!(authenticate(None, Some(&live), SECRET).ok().unwrap().id, USER);
}

#[test]
fn links_and_refresh_sessions() {
    let link = signed(TokenKind::Passwordless, clock_now());
    assert_eq!(link_subject(&link, TokenKind::Passwordless, SECRET).ok().unwrap(), USER);
    match link_subject(&link, TokenKind::Verify, SECRET) {
        Err(AuthError::TokenError(m)) => assert_eq!(m, "InvalidAudience"),
        _ => panic!("a sign-in link is no verification link"),
    }
    let old_link = signed(TokenKind::Verify, NOW);
    match link_subject(&old_link, TokenKind::Verify, SECRET) {
        Err(AuthError::TokenError(m)) => assert_eq!(m, "ExpiredSignature"),
        _ => panic!("an old link has expired"),
    }
    let refresh = signed(TokenKind::Refresh, clock_now());
    assert_eq!(refresh_session(&refresh, SECRET).ok().unwrap(), (USER, SESSION, true));
    let old = signed(TokenKind::Refresh, NOW);
    match refresh_session(&old, SECRET) {
        Err(AppError::Unauthorized(m)) => assert_eq!(m, "Geçersiz veya süresi dolmuş yenileme jetonu."),
        _ => panic!("an expired refresh token is refused"),
    }
    assert_eq!(refresh_session_id(&old, SECRET), Some(SESSION));
    assert_eq!(refresh_session_id(&signed(TokenKind::Access, NOW), SECRET), None);
}

#[test]
fn issued_tokens() {
    let t = issue_token_at(TokenKind::Verify, USER, NOW, "", UserRole::User, false, 0, SECRET).unwrap().ok().unwrap();
    let c = read_token(&t, TokenKind::Verify, SECRET).ok().unwrap();
    assert_eq!((c.sub, c.exp, c.aud.as_str()), (USER, NOW + 86400, "kepce-verify"));
    assert!(issue_token_at(TokenKind::Access, USER, i64::MAX - 100, "ayse", UserRole::User, false, 0, SECRET).is_none());
    let live = issue_token(TokenKind::Access, USER, "ayse", UserRole::User, false, 0, SECRET).unwrap().ok().unwrap();
    let bearer = format!("Bearer {}", live);
    let u = authenticate(None, Some(&bearer), SECRET).ok().unwrap();
    assert_eq!((u.id, u.username.as_str(), u.role), (USER, "ayse", UserRole::User));
}
