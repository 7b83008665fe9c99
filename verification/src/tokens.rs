//! Signed session and link tokens: the claims a token carries, how they are written for
//! signing, how a decoded token's claims are read back for each kind of token, and when
//! a token has expired.

use vstd::prelude::*;
use vstd::string::StringExecFns;
use crate::accounts::{TokenClaims, TokenKind, audience, spec_audience, token_claims, spec_lifetime};
use crate::avatars::{uuid_text, spec_uuid_text};
use crate::dto::user::UserRole;
use crate::reports::{parse_uuid, parsed_uuid};
use crate::assistant::str_is;
use crate::accounts::TokenClaimsView;
use crate::service_errors::AuthError;
use crate::error::{AppError, ErrorKind};
use crate::session::{session_token, spec_session_token};

verus! {

/// A claim's value as a decoded token holds it: `null`, a boolean, a number (with its
/// value where it is a non-negative integer that fits 64 bits), a string, or anything
/// else (an array or an object).
pub enum ClaimValue {
    Null,
    Flag(bool),
    Number(Option<u64>),
    Text(String),
    Other,
}

/// A claim's value, by the characters of its string.
pub enum ClaimValueView {
    Null,
    Flag(bool),
    Number(Option<u64>),
    Text(Seq<char>),
    Other,
}

impl View for ClaimValue {
    type V = ClaimValueView;

    open spec fn view(&self) -> ClaimValueView {
        match self {
            ClaimValue::Null => ClaimValueView::Null,
            ClaimValue::Flag(b) => ClaimValueView::Flag(*b),
            ClaimValue::Number(n) => ClaimValueView::Number(*n),
            ClaimValue::Text(s) => ClaimValueView::Text(s@),
            ClaimValue::Other => ClaimValueView::Other,
        }
    }
}

/// A claim's value as it is written for signing.
pub enum ClaimField {
    Flag(bool),
    Number(u64),
    Text(String),
}

/// A claim's value to sign, by the characters of its string.
pub enum ClaimFieldView {
    Flag(bool),
    Number(u64),
    Text(Seq<char>),
}

impl View for ClaimField {
    type V = ClaimFieldView;

    open spec fn view(&self) -> ClaimFieldView {
        match self {
            ClaimField::Flag(b) => ClaimFieldView::Flag(*b),
            ClaimField::Number(n) => ClaimFieldView::Number(*n),
            ClaimField::Text(s) => ClaimFieldView::Text(s@),
        }
    }
}

/// The claims read from a token, by name, in the order they came.
pub open spec fn claims_view(f: Seq<(String, ClaimValue)>) -> Seq<(Seq<char>, ClaimValueView)> {
    f.map_values(|p: (String, ClaimValue)| (p.0@, p.1@))
}

/// The claims to sign, by name.
pub open spec fn fields_view(f: Seq<(String, ClaimField)>) -> Seq<(Seq<char>, ClaimFieldView)> {
    f.map_values(|p: (String, ClaimField)| (p.0@, p.1@))
}

/// What `jsonwebtoken::decode` gives for a token signed with HMAC-SHA256 under `secret`,
/// checked for the issuer `kepce` and the audience `audience`, with its expiry left to
/// the caller: the payload's members in key order, or the error's text.
pub uninterp spec fn jwt_claims(token: Seq<char>, audience: Seq<char>, secret: Seq<char>) -> Result<
    Seq<(Seq<char>, ClaimValueView)>,
    Seq<char>,
>;

/// What `jsonwebtoken::encode` writes for a payload object with these members (the
/// default header, HMAC-SHA256 under `secret`).
pub uninterp spec fn signed_token(fields: Seq<(Seq<char>, ClaimFieldView)>, secret: Seq<char>) -> Seq<char>;

/// Claims a decoded token can carry, as the checks of `decode` leave them: no name
/// twice, an `iss` string only when it is `kepce`, an `aud` string only when it is the
/// audience asked for.
pub open spec fn checked_claims(f: Seq<(Seq<char>, ClaimValueView)>, aud: Seq<char>) -> bool {
    &&& forall|i: int, j: int| 0 <= i < j < f.len() ==> f[i].0 != f[j].0
    &&& forall|i: int|
        0 <= i < f.len() && f[i].0 == "iss"@ ==> (f[i].1 matches ClaimValueView::Text(t) ==> t == "kepce"@)
    &&& forall|i: int|
        0 <= i < f.len() && f[i].0 == "aud"@ ==> (f[i].1 matches ClaimValueView::Text(t) ==> t == aud)
}

/// `jsonwebtoken::decode` into a JSON object, with HMAC-SHA256, the issuer `kepce` and
/// the audience `audience`, and without the expiry check (which `token_expired` makes).
/// Its result is named by `jwt_claims`; the source (`validation.rs`, `validate`) shows
/// that a present `iss` or `aud` string equals the one asked for, and a JSON object has
/// no name twice.
#[verifier::external_body]
fn decode_claims(token: &str, audience: &str, secret: &str) -> (r: Result<Vec<(String, ClaimValue)>, String>)
    ensures
        match r {
            Ok(f) => jwt_claims(token@, audience@, secret@) == Ok::<Seq<(Seq<char>, ClaimValueView)>, Seq<char>>(
                claims_view(f@),
            ),
            Err(e) => jwt_claims(token@, audience@, secret@) == Err::<Seq<(Seq<char>, ClaimValueView)>, Seq<char>>(e@),
        },
        r matches Ok(f) ==> checked_claims(claims_view(f@), audience@),
{
    let mut v = jsonwebtoken::Validation::default();
    v.set_issuer(&["kepce"]);
    v.set_audience(&[audience]);
    v.validate_exp = false;
    let key = jsonwebtoken::DecodingKey::from_secret(secret.as_bytes());
    let m = jsonwebtoken::decode::<serde_json::Map<String, serde_json::Value>>(token, &key, &v);
    Ok(m.map_err(|e| e.to_string())?.claims.into_iter().map(|(k, x)| (k, match x {
        serde_json::Value::Null => ClaimValue::Null,
        serde_json::Value::Bool(b) => ClaimValue::Flag(b),
        serde_json::Value::Number(n) => ClaimValue::Number(n.as_u64()),
        serde_json::Value::String(s) => ClaimValue::Text(s),
        _ => ClaimValue::Other,
    })).collect())
}

/// `jsonwebtoken::encode` of the payload object with these members, under the default
/// header (HMAC-SHA256) and `secret`; its result is named by `signed_token`.
#[verifier::external_body]
fn encode_claims(fields: &Vec<(String, ClaimField)>, secret: &str) -> (r: Result<String, String>)
    ensures
        r matches Ok(t) ==> t@ == signed_token(fields_view(fields@), secret@),
{
    let m: serde_json::Map<String, serde_json::Value> = fields.iter().map(|(k, x)| (k.clone(), match x {
        ClaimField::Flag(b) => serde_json::Value::from(*b),
        ClaimField::Number(n) => serde_json::Value::from(*n),
        ClaimField::Text(s) => serde_json::Value::from(s.as_str()),
    })).collect();
    let key = jsonwebtoken::EncodingKey::from_secret(secret.as_bytes());
    jsonwebtoken::encode(&jsonwebtoken::Header::default(), &m, &key).map_err(|e| e.to_string())
}

/// `jsonwebtoken::get_current_timestamp`: the seconds since the epoch by the system clock.
#[verifier::external_body]
fn current_timestamp() -> (r: u64) {
    jsonwebtoken::get_current_timestamp()
}

/// The name of a role as tokens carry it.
pub open spec fn spec_role_name(r: UserRole) -> Seq<char> {
    match r {
        UserRole::User => "user"@,
        UserRole::Admin => "admin"@,
        UserRole::SystemBot => "system_bot"@,
    }
}

/// The role a token names, if the name is one.
pub open spec fn role_of_name(t: Seq<char>) -> Option<UserRole> {
    if t == "user"@ {
        Some(UserRole::User)
    } else if t == "admin"@ {
        Some(UserRole::Admin)
    } else if t == "system_bot"@ {
        Some(UserRole::SystemBot)
    } else {
        None
    }
}

/// The name of a role as tokens carry it.
pub fn role_name(r: UserRole) -> (s: &'static str)
    ensures
        s@ == spec_role_name(r),
{
    match r {
        UserRole::User => "user",
        UserRole::Admin => "admin",
        UserRole::SystemBot => "system_bot",
    }
}

fn role_from_name(t: &str) -> (r: Option<UserRole>)
    ensures
        r == role_of_name(t@),
{
    if str_is(t, "user") {
        Some(UserRole::User)
    } else if str_is(t, "admin") {
        Some(UserRole::Admin)
    } else if str_is(t, "system_bot") {
        Some(UserRole::SystemBot)
    } else {
        None
    }
}

/// The members a token is signed with: its subject (as a hyphenated UUID), expiry,
/// issuer and audience, then the name and role, "remember me" (`rem`) and the session
/// (`jti`, a UUID) where the claims have them.
pub open spec fn spec_claim_fields(c: TokenClaimsView) -> Seq<(Seq<char>, ClaimFieldView)> {
    seq![
        ("sub"@, ClaimFieldView::Text(spec_uuid_text(c.sub))),
        ("exp"@, ClaimFieldView::Number(c.exp as u64)),
        ("iss"@, ClaimFieldView::Text(c.iss)),
        ("aud"@, ClaimFieldView::Text(c.aud)),
    ] + match c.username {
        Some(u) => seq![("username"@, ClaimFieldView::Text(u))],
        None => Seq::empty(),
    } + match c.role {
        Some(r) => seq![("role"@, ClaimFieldView::Text(spec_role_name(r)))],
        None => Seq::empty(),
    } + match c.remember {
        Some(b) => seq![("rem"@, ClaimFieldView::Flag(b))],
        None => Seq::empty(),
    } + match c.session {
        Some(j) => seq![("jti"@, ClaimFieldView::Text(spec_uuid_text(j)))],
        None => Seq::empty(),
    }
}

fn text_field(name: &str, value: String) -> (r: (String, ClaimField))
    ensures
        r.0@ == name@,
        r.1@ == ClaimFieldView::Text(value@),
{
    (String::from_str(name), ClaimField::Text(value))
}

/// Writes the members a token is signed with (see `spec_claim_fields`).
pub fn claim_fields(c: &TokenClaims) -> (r: Vec<(String, ClaimField)>)
    ensures
        fields_view(r@) == spec_claim_fields(c@),
{
    let mut v: Vec<(String, ClaimField)> = Vec::new();
    v.push(text_field("sub", uuid_text(c.sub)));
    v.push((String::from_str("exp"), ClaimField::Number(c.exp as u64)));
    v.push(text_field("iss", c.iss.clone()));
    v.push(text_field("aud", c.aud.clone()));
    let ghost base = fields_view(v@);
    match &c.username {
        Some(u) => v.push(text_field("username", u.clone())),
        None => {},
    }
    let ghost with_name = fields_view(v@);
    match c.role {
        Some(r) => v.push(text_field("role", String::from_str(role_name(r)))),
        None => {},
    }
    let ghost with_role = fields_view(v@);
    match c.remember {
        Some(b) => v.push((String::from_str("rem"), ClaimField::Flag(b))),
        None => {},
    }
    let ghost with_rem = fields_view(v@);
    match c.session {
        Some(j) => v.push(text_field("jti", uuid_text(j))),
        None => {},
    }
    proof {
        let cv = c@;
        let s1 = match cv.username {
            Some(u) => seq![("username"@, ClaimFieldView::Text(u))],
            None => Seq::<(Seq<char>, ClaimFieldView)>::empty(),
        };
        let s2 = match cv.role {
            Some(r) => seq![("role"@, ClaimFieldView::Text(spec_role_name(r)))],
            None => Seq::<(Seq<char>, ClaimFieldView)>::empty(),
        };
        let s3 = match cv.remember {
            Some(b) => seq![("rem"@, ClaimFieldView::Flag(b))],
            None => Seq::<(Seq<char>, ClaimFieldView)>::empty(),
        };
        let s4 = match cv.session {
            Some(j) => seq![("jti"@, ClaimFieldView::Text(spec_uuid_text(j)))],
            None => Seq::<(Seq<char>, ClaimFieldView)>::empty(),
        };
        assert(with_name =~= base + s1);
        assert(with_role =~= base + s1 + s2);
        assert(with_rem =~= base + s1 + s2 + s3);
        assert(fields_view(v@) =~= base + s1 + s2 + s3 + s4);
    }
    v
}

/// Signs a token with the claims `c` under `secret`; a failure of the signer is a token
/// error with its text.
pub fn sign_token(c: &TokenClaims, secret: &str) -> (r: Result<String, AuthError>)
    ensures
        r matches Ok(t) ==> t@ == signed_token(spec_claim_fields(c@), secret@),
        r matches Err(e) ==> e is TokenError,
{
    let fields = claim_fields(c);
    match encode_claims(&fields, secret) {
        Ok(t) => Ok(t),
        Err(e) => Err(AuthError::TokenError(e)),
    }
}

/// The value of the first claim named `key` at or after `i`.
pub open spec fn claim_from(f: Seq<(Seq<char>, ClaimValueView)>, key: Seq<char>, i: int) -> Option<ClaimValueView>
    decreases f.len() - i,
{
    if i < 0 || i >= f.len() {
        None
    } else if f[i].0 == key {
        Some(f[i].1)
    } else {
        claim_from(f, key, i + 1)
    }
}

/// The value of the claim named `key`.
pub open spec fn claim_of(f: Seq<(Seq<char>, ClaimValueView)>, key: Seq<char>) -> Option<ClaimValueView> {
    claim_from(f, key, 0)
}

/// The claim `key` as a string.
pub open spec fn text_of(f: Seq<(Seq<char>, ClaimValueView)>, key: Seq<char>) -> Option<Seq<char>> {
    match claim_of(f, key) {
        Some(ClaimValueView::Text(t)) => Some(t),
        _ => None,
    }
}

/// The claim `key` as a UUID string.
pub open spec fn uuid_of(f: Seq<(Seq<char>, ClaimValueView)>, key: Seq<char>) -> Option<u128> {
    match text_of(f, key) {
        Some(t) => parsed_uuid(t),
        None => None,
    }
}

/// The claim `key` as a boolean.
pub open spec fn flag_of(f: Seq<(Seq<char>, ClaimValueView)>, key: Seq<char>) -> Option<bool> {
    match claim_of(f, key) {
        Some(ClaimValueView::Flag(b)) => Some(b),
        _ => None,
    }
}

/// The expiry: a non-negative integer that fits an `i64`.
pub open spec fn exp_of(f: Seq<(Seq<char>, ClaimValueView)>) -> Option<i64> {
    match claim_of(f, "exp"@) {
        Some(ClaimValueView::Number(Some(n))) => if n <= i64::MAX as u64 {
            Some(n as i64)
        } else {
            None
        },
        _ => None,
    }
}

/// The claims of a token of kind `k` read from its members: every token needs a UUID
/// subject, an expiry, an issuer and an audience string; an access token also a name and
/// a known role, a refresh token also "remember me" and a UUID session. Other members
/// are ignored; a member of the wrong type, or one missing, makes the token unreadable.
pub open spec fn spec_read_claims(f: Seq<(Seq<char>, ClaimValueView)>, k: TokenKind) -> Option<TokenClaimsView> {
    match (uuid_of(f, "sub"@), exp_of(f), text_of(f, "iss"@), text_of(f, "aud"@)) {
        (Some(sub), Some(exp), Some(iss), Some(aud)) => match k {
            TokenKind::Access => match (text_of(f, "username"@), text_of(f, "role"@)) {
                (Some(u), Some(rn)) => match role_of_name(rn) {
                    Some(role) => Some(
                        TokenClaimsView {
                            sub,
                            exp,
                            iss,
                            aud,
                            username: Some(u),
                            role: Some(role),
                            remember: None,
                            session: None,
                        },
                    ),
                    None => None,
                },
                _ => None,
            },
            TokenKind::Refresh => match (flag_of(f, "rem"@), uuid_of(f, "jti"@)) {
                (Some(rem), Some(jti)) => Some(
                    TokenClaimsView {
                        sub,
                        exp,
                        iss,
                        aud,
                        username: None,
                        role: None,
                        remember: Some(rem),
                        session: Some(jti),
                    },
                ),
                _ => None,
            },
            _ => Some(
                TokenClaimsView { sub, exp, iss, aud, username: None, role: None, remember: None, session: None },
            ),
        },
        _ => None,
    }
}

fn find_claim(f: &Vec<(String, ClaimValue)>, key: &str) -> (r: Option<usize>)
    ensures
        match r {
            Some(i) => i < f@.len() && claim_of(claims_view(f@), key@) == Some(f@[i as int].1@),
            None => claim_of(claims_view(f@), key@) is None,
        },
{
    let ghost s = claims_view(f@);
    let mut i: usize = 0;
    while i < f.len()
        invariant
            i <= f@.len(),
            s == claims_view(f@),
            s.len() == f@.len(),
            claim_from(s, key@, 0) == claim_from(s, key@, i as int),
        decreases f@.len() - i,
    {
        assert(s[i as int] == (f@[i as int].0@, f@[i as int].1@));
        if str_is(f[i].0.as_str(), key) {
            return Some(i);
        }
        i = i + 1;
    }
    None
}

fn text_claim(f: &Vec<(String, ClaimValue)>, key: &str) -> (r: Option<String>)
    ensures
        match r {
            Some(t) => text_of(claims_view(f@), key@) == Some(t@),
            None => text_of(claims_view(f@), key@) is None,
        },
{
    match find_claim(f, key) {
        Some(i) => match &f[i].1 {
            ClaimValue::Text(t) => Some(t.clone()),
            _ => None,
        },
        None => None,
    }
}

fn uuid_claim(f: &Vec<(String, ClaimValue)>, key: &str) -> (r: Option<u128>)
    ensures
        r == uuid_of(claims_view(f@), key@),
{
    match text_claim(f, key) {
        Some(t) => parse_uuid(t.as_str()),
        None => None,
    }
}

fn flag_claim(f: &Vec<(String, ClaimValue)>, key: &str) -> (r: Option<bool>)
    ensures
        r == flag_of(claims_view(f@), key@),
{
    match find_claim(f, key) {
        Some(i) => match &f[i].1 {
            ClaimValue::Flag(b) => Some(*b),
            _ => None,
        },
        None => None,
    }
}

fn exp_claim(f: &Vec<(String, ClaimValue)>) -> (r: Option<i64>)
    ensures
        r == exp_of(claims_view(f@)),
{
    match find_claim(f, "exp") {
        Some(i) => match &f[i].1 {
            ClaimValue::Number(Some(n)) => if *n <= i64::MAX as u64 {
                Some(*n as i64)
            } else {
                None
            },
            _ => None,
        },
        None => None,
    }
}

/// Reads the claims of a token of kind `k` from its members (see `spec_read_claims`).
pub fn read_claims(f: &Vec<(String, ClaimValue)>, k: TokenKind) -> (r: Option<TokenClaims>)
    ensures
        match r {
            Some(c) => spec_read_claims(claims_view(f@), k) == Some(c@),
            None => spec_read_claims(claims_view(f@), k) is None,
        },
{
    let sub = match uuid_claim(f, "sub") { Some(x) => x, None => return None };
    let exp = match exp_claim(f) { Some(x) => x, None => return None };
    let iss = match text_claim(f, "iss") { Some(x) => x, None => return None };
    let aud = match text_claim(f, "aud") { Some(x) => x, None => return None };
    match k {
        TokenKind::Access => {
            let u = match text_claim(f, "username") { Some(x) => x, None => return None };
            let rn = match text_claim(f, "role") { Some(x) => x, None => return None };
            let role = match role_from_name(rn.as_str()) { Some(x) => x, None => return None };
            Some(TokenClaims { sub, exp, iss, aud, username: Some(u), role: Some(role), remember: None, session: None })
        },
        TokenKind::Refresh => {
            let rem = match flag_claim(f, "rem") { Some(x) => x, None => return None };
            let jti = match uuid_claim(f, "jti") { Some(x) => x, None => return None };
            Some(TokenClaims { sub, exp, iss, aud, username: None, role: None, remember: Some(rem), session: Some(jti) })
        },
        _ => Some(TokenClaims { sub, exp, iss, aud, username: None, role: None, remember: None, session: None }),
    }
}

/// The text of a token whose members do not make the claims of its kind. (Decoding
/// straight into the claims of the kind, the decoder would name the member in a JSON
/// error; here the members are read apart from the decoder, so one text stands for all.)
pub open spec fn unreadable_claims() -> Seq<char> {
    "Invalid token claims"@
}

/// A token of kind `k` read under `secret`, expiry aside: the decoder's error text, the
/// text of unreadable claims, or the claims.
pub open spec fn spec_read_token(token: Seq<char>, k: TokenKind, secret: Seq<char>) -> Result<TokenClaimsView, Seq<char>> {
    match jwt_claims(token, spec_audience(k), secret) {
        Err(e) => Err(e),
        Ok(f) => match spec_read_claims(f, k) {
            Some(c) => Ok(c),
            None => Err(unreadable_claims()),
        },
    }
}

/// `r` is the result `s`, by views.
pub open spec fn claims_result(r: Result<TokenClaims, String>, s: Result<TokenClaimsView, Seq<char>>) -> bool {
    match (r, s) {
        (Ok(c), Ok(v)) => c@ == v,
        (Err(e), Err(t)) => e@ == t,
        _ => false,
    }
}

/// Reads a token of kind `k` under `secret`, without looking at its expiry (see
/// `spec_read_token`); the issuer is `kepce` and the audience that of `k`.
pub fn read_token(token: &str, k: TokenKind, secret: &str) -> (r: Result<TokenClaims, String>)
    ensures
        claims_result(r, spec_read_token(token@, k, secret@)),
        r matches Ok(c) ==> c.iss@ == "kepce"@ && c.aud@ == spec_audience(k),
{
    let aud = audience(k);
    match decode_claims(token, aud, secret) {
        Err(e) => Err(e),
        Ok(f) => match read_claims(&f, k) {
            Some(c) => {
                proof {
                    let s = claims_view(f@);
                    lemma_claim_found(s, "iss"@, 0);
                    lemma_claim_found(s, "aud"@, 0);
                }
                Ok(c)
            },
            None => Err(String::from_str("Invalid token claims")),
        },
    }
}

proof fn lemma_claim_found(f: Seq<(Seq<char>, ClaimValueView)>, key: Seq<char>, i: int)
    requires
        0 <= i,
    ensures
        claim_from(f, key, i) matches Some(v) ==> exists|j: int| i <= j < f.len() && f[j].0 == key && f[j].1 == v,
    decreases f.len() - i,
{
    if i < f.len() && f[i].0 != key {
        lemma_claim_found(f, key, i + 1);
    }
}

/// The expiry check of the decoder (`validation.rs`, `validate`: `exp < now - leeway`
/// with the default leeway of 60 seconds): a token has expired once its expiry lies more
/// than 60 seconds before `now`. The clock is taken to read past the first minute of
/// the epoch, where the decoder's subtraction would wrap.
pub open spec fn spec_expired(exp: i64, now: u64) -> bool {
    (exp as int) < (now as int) - 60
}

/// Whether a token with expiry `exp` has expired at `now` (see `spec_expired`).
pub fn token_expired(exp: i64, now: u64) -> (b: bool)
    ensures
        b == spec_expired(exp, now),
{
    (exp as i128) < (now as i128) - 60
}

/// The text of an expired token, as the decoder writes it.
pub open spec fn expired_text() -> Seq<char> {
    "ExpiredSignature"@
}

/// A token of kind `k` decoded under `secret` at the time `now`: as `spec_read_token`,
/// and an expired one is refused.
pub open spec fn spec_decode_at(token: Seq<char>, k: TokenKind, secret: Seq<char>, now: u64) -> Result<TokenClaimsView, Seq<char>> {
    match spec_read_token(token, k, secret) {
        Err(e) => Err(e),
        Ok(c) => if spec_expired(c.exp, now) {
            Err(expired_text())
        } else {
            Ok(c)
        },
    }
}

/// Decodes a token of kind `k` under `secret` at the time `now` (see `spec_decode_at`).
pub fn decode_token_at(token: &str, k: TokenKind, secret: &str, now: u64) -> (r: Result<TokenClaims, String>)
    ensures
        claims_result(r, spec_decode_at(token@, k, secret@, now)),
{
    match read_token(token, k, secret) {
        Err(e) => Err(e),
        Ok(c) => if token_expired(c.exp, now) {
            Err(String::from_str("ExpiredSignature"))
        } else {
            Ok(c)
        },
    }
}

/// Decodes a token of kind `k` under `secret` by the system clock: the result is that of
/// `decode_token_at` at the time the clock gave.
pub fn decode_token(token: &str, k: TokenKind, secret: &str) -> (r: Result<TokenClaims, String>)
    ensures
        exists|now: u64| claims_result(r, #[trigger] spec_decode_at(token@, k, secret@, now)),
{
    let now = current_timestamp();
    let r = decode_token_at(token, k, secret, now);
    assert(claims_result(r, spec_decode_at(token@, k, secret@, now)));
    r
}

/// The characters of a header, if it is there.
pub open spec fn opt_str(o: Option<&str>) -> Option<Seq<char>> {
    match o {
        Some(s) => Some(s@),
        None => None,
    }
}

/// The user a request is made by.
pub struct AuthenticatedUser {
    pub id: u128,
    pub username: String,
    pub role: UserRole,
}

/// The user of a request with the given `Cookie` and `Authorization` headers at `now`:
/// its session token (`spec_session_token`) must be there and decode as a live access
/// token. Either failure is answered `Unauthorized`, each with its own text.
pub open spec fn spec_authenticate_at(
    cookie: Option<Seq<char>>,
    authorization: Option<Seq<char>>,
    secret: Seq<char>,
    now: u64,
) -> Result<(u128, Seq<char>, UserRole), (ErrorKind, Seq<char>)> {
    match spec_session_token(cookie, authorization) {
        None => Err((ErrorKind::Unauthorized, "Missing or invalid authorization header or cookie"@)),
        Some(t) => match spec_decode_at(t, TokenKind::Access, secret, now) {
            Err(_) => Err((ErrorKind::Unauthorized, "Invalid or expired token"@)),
            Ok(c) => Ok((c.sub, c.username->Some_0, c.role->Some_0)),
        },
    }
}

/// `r` is the result `s`, by views.
pub open spec fn user_result(
    r: Result<AuthenticatedUser, AppError>,
    s: Result<(u128, Seq<char>, UserRole), (ErrorKind, Seq<char>)>,
) -> bool {
    match (r, s) {
        (Ok(u), Ok(v)) => u.id == v.0 && u.username@ == v.1 && u.role == v.2,
        (Err(e), Err(v)) => e@ == v,
        _ => false,
    }
}

/// Finds the user of a request at `now` (see `spec_authenticate_at`).
pub fn authenticate_at(cookie: Option<&str>, authorization: Option<&str>, secret: &str, now: u64) -> (r: Result<
    AuthenticatedUser,
    AppError,
>)
    ensures
        user_result(
            r,
            spec_authenticate_at(
                match cookie { Some(c) => Some(c@), None => None },
                match authorization { Some(a) => Some(a@), None => None },
                secret@,
                now,
            ),
        ),
{
    let token = match session_token(cookie, authorization) {
        None => return Err(AppError::with_text(ErrorKind::Unauthorized, "Missing or invalid authorization header or cookie")),
        Some(t) => t,
    };
    match decode_token_at(token.as_str(), TokenKind::Access, secret, now) {
        Err(_) => Err(AppError::with_text(ErrorKind::Unauthorized, "Invalid or expired token")),
        Ok(c) => match (c.username, c.role) {
            (Some(username), Some(role)) => Ok(AuthenticatedUser { id: c.sub, username, role }),
            _ => Err(AppError::with_text(ErrorKind::Unauthorized, "Invalid or expired token")),
        },
    }
}

/// Finds the user of a request by the system clock: the result is that of
/// `authenticate_at` at the time the clock gave.
pub fn authenticate(cookie: Option<&str>, authorization: Option<&str>, secret: &str) -> (r: Result<
    AuthenticatedUser,
    AppError,
>)
    ensures
        exists|now: u64|
            user_result(
                r,
                #[trigger] spec_authenticate_at(opt_str(cookie), opt_str(authorization), secret@, now),
            ),
{
    let now = current_timestamp();
    authenticate_at(cookie, authorization, secret, now)
}

/// The subject of a sign-in or verification link of kind `k`; a token the decoder
/// refuses is a token error with the decoder's text.
pub fn link_subject(token: &str, k: TokenKind, secret: &str) -> (r: Result<u128, AuthError>)
    ensures
        exists|now: u64|
            match #[trigger] spec_decode_at(token@, k, secret@, now) {
                Ok(c) => r == Ok::<u128, AuthError>(c.sub),
                Err(t) => r matches Err(AuthError::TokenError(m)) && m@ == t,
            },
{
    let now = current_timestamp();
    match decode_token_at(token, k, secret, now) {
        Ok(c) => Ok(c.sub),
        Err(e) => Err(AuthError::TokenError(e)),
    }
}

/// The session of a refresh token: its subject, session id and "remember me"; a token
/// that does not decode as a live refresh token is answered `Unauthorized`.
pub fn refresh_session(token: &str, secret: &str) -> (r: Result<(u128, u128, bool), AppError>)
    ensures
        exists|now: u64|
            match #[trigger] spec_decode_at(token@, TokenKind::Refresh, secret@, now) {
                Ok(c) => r == Ok::<(u128, u128, bool), AppError>((c.sub, c.session->Some_0, c.remember->Some_0)),
                Err(_) => r matches Err(e) && e@ == (
                    ErrorKind::Unauthorized,
                    "Geçersiz veya süresi dolmuş yenileme jetonu."@,
                ),
            },
{
    let now = current_timestamp();
    match decode_token_at(token, TokenKind::Refresh, secret, now) {
        Ok(c) => match (c.session, c.remember) {
            (Some(j), Some(rem)) => Ok((c.sub, j, rem)),
            _ => Err(AppError::with_text(ErrorKind::Unauthorized, "Geçersiz veya süresi dolmuş yenileme jetonu.")),
        },
        Err(_) => Err(AppError::with_text(ErrorKind::Unauthorized, "Geçersiz veya süresi dolmuş yenileme jetonu.")),
    }
}

/// The session id of a refresh token whatever its expiry (how the list of sessions marks
/// the current one), or `None` when it does not read as a refresh token.
pub fn refresh_session_id(token: &str, secret: &str) -> (r: Option<u128>)
    ensures
        match spec_read_token(token@, TokenKind::Refresh, secret@) {
            Ok(c) => r == c.session,
            Err(_) => r is None,
        },
{
    match read_token(token, TokenKind::Refresh, secret) {
        Ok(c) => c.session,
        Err(_) => None,
    }
}

/// `chrono::Utc::now().timestamp()`: the seconds since the epoch by the system clock.
#[verifier::external_body]
fn utc_now_timestamp() -> (r: i64) {
    chrono::Utc::now().timestamp()
}

/// What issuing a token of kind `k` for `sub` at `now` gives: nothing when the expiry
/// does not fit; else a token error, or the token signed under `secret` with the claims
/// of `token_claims` (expiry `now` plus the kind's lifetime, issuer `kepce`, the kind's
/// audience, the name and role in access tokens, "remember me" and the session in
/// refresh tokens).
pub open spec fn spec_issued(
    r: Option<Result<String, AuthError>>,
    k: TokenKind,
    sub: u128,
    now: i64,
    username: Seq<char>,
    role: UserRole,
    remember: bool,
    session: u128,
    secret: Seq<char>,
) -> bool {
    &&& (r is None <==> now + spec_lifetime(k) > i64::MAX)
    &&& (r matches Some(Ok(t)) ==> exists|c: TokenClaims|
        #![trigger spec_claim_fields(c@)]
        t@ == signed_token(spec_claim_fields(c@), secret) && c.sub == sub && c.exp == now + spec_lifetime(k)
            && c.iss@ == "kepce"@ && c.aud@ == spec_audience(k)
            && (k == TokenKind::Access ==> (c.username matches Some(u) && u@ == username) && c.role == Some(role))
            && (k != TokenKind::Access ==> c.username is None && c.role is None)
            && (k == TokenKind::Refresh ==> c.remember == Some(remember) && c.session == Some(session))
            && (k != TokenKind::Refresh ==> c.remember is None && c.session is None))
    &&& (r matches Some(Err(e)) ==> e is TokenError)
}

/// Issues a token of kind `k` for the user `sub` at the time `now`: the claims of
/// `token_claims` signed under `secret`. `None` when the expiry does not fit; a failure
/// of the signer is a token error.
pub fn issue_token_at(
    k: TokenKind,
    sub: u128,
    now: i64,
    username: &str,
    role: UserRole,
    remember: bool,
    session: u128,
    secret: &str,
) -> (r: Option<Result<String, AuthError>>)
    ensures
        spec_issued(r, k, sub, now, username@, role, remember, session, secret@),
{
    match token_claims(k, sub, now, username, role, remember, session) {
        None => None,
        Some(c) => {
            let r = sign_token(&c, secret);
            proof {
                if r is Ok {
                    assert(spec_claim_fields(c@) == spec_claim_fields(c@));
                }
            }
            Some(r)
        },
    }
}

/// Issues a token of kind `k` for the user `sub` by the system clock: the result is that
/// of `issue_token_at` at the time the clock gave.
pub fn issue_token(
    k: TokenKind,
    sub: u128,
    username: &str,
    role: UserRole,
    remember: bool,
    session: u128,
    secret: &str,
) -> (r: Option<Result<String, AuthError>>)
    ensures
        exists|now: i64| #[trigger] spec_issued(r, k, sub, now, username@, role, remember, session, secret@),
{
    let now = utc_now_timestamp();
    issue_token_at(k, sub, now, username, role, remember, session, secret)
}

} // verus!
