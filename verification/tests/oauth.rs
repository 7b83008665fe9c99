use kepce_api::oauth::{
    callback_precheck, callback_url, email_accepted, google_auth_url, hex_token, oauth_state_cookie,
    oauth_state_from_cookies, reply_error, session_cookies, state_matches, GoogleReply,
};

#[test]
fn state_cookie_roundtrip() {
    let header = "theme=dark; kepce_oauth_state=abc123 ; other=1";
    let st = oauth_state_from_cookies(header).unwrap();
    assert_eq!(st.iter().collect::<String>(), "abc123");
    assert!(state_matches(Some("abc123"), Some(&st)));
    assert!(!state_matches(Some("abc124"), Some(&st)));
    assert!(!state_matches(Some(""), Some(&[])));
    assert!(!state_matches(None, Some(&st)));
    assert!(oauth_state_from_cookies("kepce_oauth_state=a=b").is_none());
    assert!(oauth_state_from_cookies("").is_none());
    assert_eq!(
        oauth_state_cookie(Some("abc"), true),
        "kepce_oauth_state=abc; Path=/; HttpOnly; SameSite=Lax; Max-Age=300; Secure"
    );
    assert_eq!(oauth_state_cookie(None, false), "kepce_oauth_state=; Path=/; HttpOnly; SameSite=Lax; Max-Age=0");
}

#[test]
fn callback_decisions() {
    assert_eq!(callback_precheck(Some("access_denied".into()), true, Some("c".into())), Err("access_denied".to_string()));
    assert_eq!(callback_precheck(None, false, Some("c".into())), Err("invalid_oauth_state".to_string()));
    assert_eq!(callback_precheck(None, true, None), Err("missing_code".to_string()));
    assert_eq!(callback_precheck(None, true, Some("c".into())), Ok("c".to_string()));
    assert_eq!(reply_error(GoogleReply::NetworkError, true), Some("network_error"));
    assert_eq!(reply_error(GoogleReply::Refused, true), Some("token_exchange_failed"));
    assert_eq!(reply_error(GoogleReply::Refused, false), Some("userinfo_failed"));
    assert_eq!(reply_error(GoogleReply::Unreadable, false), Some("invalid_userinfo_response"));
    assert_eq!(reply_error(GoogleReply::Answered, false), None);
    assert!(email_accepted(Some(true)));
    assert!(!email_accepted(None));
    assert_eq!(callback_url("https://kepce.org", None, "missing_code"), "https://kepce.org/oauth/callback?error=missing_code");
    assert_eq!(callback_url("https://kepce.org", Some(true), ""), "https://kepce.org/oauth/callback?is_new=true");
}

#[test]
fn urls_and_cookies() {
    assert_eq!(
        google_auth_url("cid", "https://kepce.org/cb", "s1"),
        "https://accounts.google.com/o/oauth2/v2/auth?response_type=code&client_id=cid&redirect_uri=https://kepce.org/cb&scope=openid%20email%20profile&state=s1"
    );
    assert_eq!(hex_token(&[0, 15, 16, 255]), "000f10ff");
    let (a, r, l) = session_cookies("AT", "RT", false);
    assert_eq!(a, "kepce_token=AT; Path=/; HttpOnly; SameSite=Strict; ; Max-Age=900");
    assert_eq!(r, "kepce_refresh_token=RT; Path=/; HttpOnly; SameSite=Strict; ");
    assert_eq!(l, "kepce_logged_in=true; Path=/; SameSite=Strict; ");
    let (a, _, _) = session_cookies("AT", "RT", true);
    assert_eq!(a, "kepce_token=AT; Path=/; HttpOnly; SameSite=Strict; Secure; Max-Age=900");
}

#[test]
fn login_and_logout_cookies() {
    let (a, b, c) = kepce_api::oauth::login_cookies("A", "R", true, true);
    assert_eq!(a, "kepce_token=A; Path=/; HttpOnly; SameSite=Strict; Secure; Max-Age=900");
    assert_eq!(b, "kepce_refresh_token=R; Path=/; HttpOnly; SameSite=Strict; Secure; Max-Age=31536000");
    assert_eq!(c, "kepce_logged_in=true; Path=/; SameSite=Strict; Secure; Max-Age=31536000");
    let (_, b, c) = kepce_api::oauth::login_cookies("A", "R", false, false);
    assert_eq!(b, "kepce_refresh_token=R; Path=/; HttpOnly; SameSite=Strict; ");
    assert_eq!(c, "kepce_logged_in=true; Path=/; SameSite=Strict; ");
    let (a, b, c) = kepce_api::oauth::logout_cookies(true);
    assert_eq!(a, "kepce_token=; Path=/; HttpOnly; SameSite=Strict; Secure; Max-Age=0");
    assert_eq!(b, "kepce_refresh_token=; Path=/; HttpOnly; SameSite=Strict; Secure; Max-Age=0");
    assert_eq!(c, "kepce_logged_in=; Path=/; SameSite=Strict; Secure; Max-Age=0");
}

#[test]
fn refresh_cookie_is_found() {
    assert_eq!(kepce_api::session::refresh_cookie_token("a=1; kepce_refresh_token=xyz ; b=2"), Some("xyz".to_string()));
    assert_eq!(kepce_api::session::refresh_cookie_token("kepce_token=abc"), None);
}

#[test]
fn cors_settings() {
    use_cors();
}

fn use_cors() {
    match kepce_api::config::cors_origins(" * ") {
        kepce_api::config::CorsOrigins::Any => {}
        _ => panic!("a star allows any origin"),
    }
    match kepce_api::config::cors_origins("https://a.org, https://b.org") {
        kepce_api::config::CorsOrigins::List(v) => assert_eq!(v, vec!["https://a.org".to_string(), "https://b.org".to_string()]),
        _ => panic!("commas make a list"),
    }
    match kepce_api::config::cors_origins(" https://kepce.org ") {
        kepce_api::config::CorsOrigins::Single(o) => assert_eq!(o, "https://kepce.org"),
        _ => panic!("one origin"),
    }
}
