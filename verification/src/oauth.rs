//! Sign-in with Google: the authorization URL and the anti-forgery state cookie, how the
//! callback is checked, where it redirects on each failure, and the session cookies it
//! sets on success.

use vstd::prelude::*;
use crate::assistant::str_is;
use crate::text::{char_vec, extend_str, extend_chars, string_from_chars, trim_chars, spec_trim, slice_chars};
use vstd::string::StringExecFns;

verus! {

/// `str::split` by one character: the pieces between separators, empty ones included.
pub open spec fn split_on(s: Seq<char>, sep: char) -> Seq<Seq<char>>
    decreases s.len(),
{
    if s.len() == 0 {
        seq![Seq::empty()]
    } else {
        let p = split_on(s.drop_last(), sep);
        if s.last() == sep {
            p.push(Seq::empty())
        } else {
            p.update(p.len() - 1, p.last().push(s.last()))
        }
    }
}

pub proof fn lemma_split_nonempty(s: Seq<char>, sep: char)
    ensures
        split_on(s, sep).len() >= 1,
    decreases s.len(),
{
    if s.len() > 0 {
        lemma_split_nonempty(s.drop_last(), sep);
    }
}

/// Splits by one character.
pub fn split_chars(s: &[char], sep: char) -> (r: Vec<Vec<char>>)
    ensures
        r@.map_values(|w: Vec<char>| w@) == split_on(s@, sep),
{
    let mut out: Vec<Vec<char>> = Vec::new();
    out.push(Vec::new());
    let mut i: usize = 0;
    assert(s@.take(0) =~= Seq::<char>::empty());
    assert(out@.map_values(|w: Vec<char>| w@) =~= seq![Seq::<char>::empty()]);
    while i < s.len()
        invariant
            i <= s@.len(),
            out@.len() >= 1,
            out@.map_values(|w: Vec<char>| w@) == split_on(s@.take(i as int), sep),
        decreases s@.len() - i,
    {
        proof {
            assert(s@.take(i + 1).drop_last() =~= s@.take(i as int));
            assert(s@.take(i + 1).last() == s@[i as int]);
        }
        let ghost before = out@.map_values(|w: Vec<char>| w@);
        if s[i] == sep {
            out.push(Vec::new());
            assert(out@.map_values(|w: Vec<char>| w@) =~= before.push(Seq::<char>::empty()));
        } else {
            let mut last = out.pop().unwrap();
            last.push(s[i]);
            out.push(last);
            assert(out@.map_values(|w: Vec<char>| w@) =~= before.update(before.len() - 1, before.last().push(s@[i as int])));
        }
        i = i + 1;
    }
    assert(s@.take(s@.len() as int) =~= s@);
    out
}

/// The value of the OAuth state cookie in a `Cookie` header: the first `;`-separated
/// entry that, trimmed, splits on `=` into exactly the name `kepce_oauth_state` and a value.
pub open spec fn state_cookie_in(entries: Seq<Seq<char>>) -> Option<Seq<char>>
    decreases entries.len(),
{
    if entries.len() == 0 {
        None
    } else {
        let parts = split_on(spec_trim(entries[0]), '=');
        if parts.len() == 2 && parts[0] == "kepce_oauth_state"@ {
            Some(parts[1])
        } else {
            state_cookie_in(entries.drop_first())
        }
    }
}

/// The OAuth state remembered in the browser's cookies.
pub fn oauth_state_from_cookies(cookie_header: &str) -> (r: Option<Vec<char>>)
    ensures
        match r {
            Some(v) => state_cookie_in(split_on(cookie_header@, ';')) == Some(v@),
            None => state_cookie_in(split_on(cookie_header@, ';')) is None,
        },
{
    let hv = char_vec(cookie_header);
    let entries = split_chars(hv.as_slice(), ';');
    let ghost es = entries@.map_values(|w: Vec<char>| w@);
    let mut i: usize = 0;
    assert(es.skip(0) =~= es);
    while i < entries.len()
        invariant
            i <= entries@.len(),
            es == entries@.map_values(|w: Vec<char>| w@),
            es == split_on(cookie_header@, ';'),
            state_cookie_in(es) == state_cookie_in(es.skip(i as int)),
        decreases entries@.len() - i,
    {
        let t = trim_chars(entries[i].as_slice());
        let parts = split_chars(t.as_slice(), '=');
        proof {
            assert(es.skip(i as int)[0] == es[i as int]);
            assert(es.skip(i as int).drop_first() =~= es.skip(i + 1));
        }
        if parts.len() == 2 {
            let ghost pv = parts@.map_values(|w: Vec<char>| w@);
            let name = string_from_chars(parts[0].as_slice());
            if str_is(name.as_str(), "kepce_oauth_state") {
                assert(pv[0] == parts@[0]@);
                assert(pv[1] == parts@[1]@);
                return Some(slice_chars(parts[1].as_slice(), 0, parts[1].len()));
            }
        }
        i = i + 1;
    }
    assert(es.skip(i as int) =~= Seq::<Seq<char>>::empty());
    None
}

/// The state sent back by Google matches the remembered one (and is not empty).
pub open spec fn spec_state_matches(query_state: Option<Seq<char>>, expected: Option<Seq<char>>) -> bool {
    match (query_state, expected) {
        (Some(q), Some(e)) => q.len() > 0 && q == e,
        _ => false,
    }
}

/// Compares the returned state with the remembered one.
pub fn state_matches(query_state: Option<&str>, expected: Option<&[char]>) -> (r: bool)
    ensures
        r == spec_state_matches(
            match query_state {
                Some(q) => Some(q@),
                None => None,
            },
            match expected {
                Some(e) => Some(e@),
                None => None,
            },
        ),
{
    match (query_state, expected) {
        (Some(q), Some(e)) => {
            let qv = char_vec(q);
            qv.len() > 0 && crate::assistant::chars_equal(qv.as_slice(), e)
        },
        _ => false,
    }
}

/// The first checks of the callback: Google's own error, then the state, then the
/// authorization code. `Ok` carries the code; `Err` the error code to redirect with.
pub open spec fn spec_callback_precheck(
    error: Option<Seq<char>>,
    state_ok: bool,
    code: Option<Seq<char>>,
) -> Result<Seq<char>, Seq<char>> {
    match error {
        Some(e) => Err(e),
        None => if !state_ok {
            Err("invalid_oauth_state"@)
        } else {
            match code {
                Some(c) => Ok(c),
                None => Err("missing_code"@),
            }
        },
    }
}

/// Runs the first checks of the callback.
pub fn callback_precheck(error: Option<String>, state_ok: bool, code: Option<String>) -> (r: Result<String, String>)
    ensures
        match r {
            Ok(c) => spec_callback_precheck(crate::validation::opt_string_view(&error), state_ok, crate::validation::opt_string_view(&code)) == Ok::<Seq<char>, Seq<char>>(c@),
            Err(e) => spec_callback_precheck(crate::validation::opt_string_view(&error), state_ok, crate::validation::opt_string_view(&code)) == Err::<Seq<char>, Seq<char>>(e@),
        },
{
    match error {
        Some(e) => Err(e),
        None => if !state_ok {
            Err(String::from_str("invalid_oauth_state"))
        } else {
            match code {
                Some(c) => Ok(c),
                None => Err(String::from_str("missing_code")),
            }
        },
    }
}

/// What came of a call to Google during the callback.
#[derive(Clone, Copy, Debug, PartialEq, Eq, Structural)]
pub enum GoogleReply {
    /// The request did not reach Google.
    NetworkError,
    /// Google answered with an error status.
    Refused,
    /// The answer could not be read.
    Unreadable,
    /// The answer was read.
    Answered,
}

/// The error code the callback redirects with after the token exchange (`token`) or the
/// user-info request (`!token`), `None` when it succeeded.
pub open spec fn spec_reply_error(reply: GoogleReply, token: bool) -> Option<Seq<char>> {
    match reply {
        GoogleReply::NetworkError => Some("network_error"@),
        GoogleReply::Refused => Some(if token { "token_exchange_failed"@ } else { "userinfo_failed"@ }),
        GoogleReply::Unreadable => Some(if token { "invalid_token_response"@ } else { "invalid_userinfo_response"@ }),
        GoogleReply::Answered => None,
    }
}

/// The error code for a reply of Google.
pub fn reply_error(reply: GoogleReply, token: bool) -> (r: Option<&'static str>)
    ensures
        match r {
            Some(s) => spec_reply_error(reply, token) == Some(s@),
            None => spec_reply_error(reply, token) is None,
        },
{
    match reply {
        GoogleReply::NetworkError => Some("network_error"),
        GoogleReply::Refused => Some(if token { "token_exchange_failed" } else { "userinfo_failed" }),
        GoogleReply::Unreadable => Some(if token { "invalid_token_response" } else { "invalid_userinfo_response" }),
        GoogleReply::Answered => None,
    }
}

/// Only an address Google marks as verified may sign in.
pub fn email_accepted(email_verified: Option<bool>) -> (r: bool)
    ensures
        r == (email_verified == Some(true)),
{
    match email_verified {
        Some(b) => b,
        None => false,
    }
}

/// The page the callback sends the browser to: the frontend's callback page with an
/// error code, or with whether the account was just created.
pub open spec fn spec_callback_url(base_url: Seq<char>, outcome: Result<bool, Seq<char>>) -> Seq<char> {
    base_url + "/oauth/callback"@ + match outcome {
        Ok(is_new) => "?is_new="@ + if is_new { "true"@ } else { "false"@ },
        Err(e) => "?error="@ + e,
    }
}

/// Builds the page the callback redirects to.
pub fn callback_url(base_url: &str, is_new: Option<bool>, error: &str) -> (r: String)
    ensures
        r@ == spec_callback_url(base_url@, match is_new {
            Some(n) => Ok(n),
            None => Err(error@),
        }),
{
    let mut out = char_vec(base_url);
    extend_str(&mut out, "/oauth/callback");
    match is_new {
        Some(n) => {
            extend_str(&mut out, "?is_new=");
            extend_str(&mut out, if n { "true" } else { "false" });
        },
        None => {
            extend_str(&mut out, "?error=");
            extend_str(&mut out, error);
        },
    }
    string_from_chars(out.as_slice())
}

/// Google's consent page for this application, carrying the anti-forgery state.
pub open spec fn spec_auth_url(client_id: Seq<char>, redirect_uri: Seq<char>, state: Seq<char>) -> Seq<char> {
    "https://accounts.google.com/o/oauth2/v2/auth?response_type=code&client_id="@ + client_id
        + "&redirect_uri="@ + redirect_uri + "&scope=openid%20email%20profile&state="@ + state
}

/// Builds Google's consent page URL.
pub fn google_auth_url(client_id: &str, redirect_uri: &str, state: &str) -> (r: String)
    ensures
        r@ == spec_auth_url(client_id@, redirect_uri@, state@),
{
    let mut out: Vec<char> = Vec::new();
    extend_str(&mut out, "https://accounts.google.com/o/oauth2/v2/auth?response_type=code&client_id=");
    extend_str(&mut out, client_id);
    extend_str(&mut out, "&redirect_uri=");
    extend_str(&mut out, redirect_uri);
    extend_str(&mut out, "&scope=openid%20email%20profile&state=");
    extend_str(&mut out, state);
    string_from_chars(out.as_slice())
}

/// Lowercase hexadecimal digit.
pub open spec fn hex_digit(d: int) -> char {
    if d < 10 { (('0' as int) + d) as char } else { (('a' as int) + d - 10) as char }
}

/// Each byte as two lowercase hexadecimal digits.
pub open spec fn spec_hex(bytes: Seq<u8>) -> Seq<char>
    decreases bytes.len(),
{
    if bytes.len() == 0 {
        Seq::empty()
    } else {
        spec_hex(bytes.drop_last()) + seq![hex_digit(bytes.last() as int / 16), hex_digit(bytes.last() as int % 16)]
    }
}

fn hex_char(d: u8) -> (c: char)
    requires
        d < 16,
    ensures
        c == hex_digit(d as int),
{
    if d == 0 { '0' } else if d == 1 { '1' } else if d == 2 { '2' } else if d == 3 { '3' }
    else if d == 4 { '4' } else if d == 5 { '5' } else if d == 6 { '6' } else if d == 7 { '7' }
    else if d == 8 { '8' } else if d == 9 { '9' } else if d == 10 { 'a' } else if d == 11 { 'b' }
    else if d == 12 { 'c' } else if d == 13 { 'd' } else if d == 14 { 'e' } else { 'f' }
}

/// The bytes in lowercase hexadecimal (the state token is 16 random bytes so written).
pub fn hex_token(bytes: &[u8]) -> (r: String)
    ensures
        r@ == spec_hex(bytes@),
{
    let mut out: Vec<char> = Vec::new();
    let mut i: usize = 0;
    assert(bytes@.take(0) =~= Seq::<u8>::empty());
    while i < bytes.len()
        invariant
            i <= bytes@.len(),
            out@ == spec_hex(bytes@.take(i as int)),
        decreases bytes@.len() - i,
    {
        let b = bytes[i];
        out.push(hex_char(b / 16));
        out.push(hex_char(b % 16));
        proof {
            assert(bytes@.take(i + 1).drop_last() =~= bytes@.take(i as int));
            assert(bytes@.take(i + 1).last() == b);
            assert(out@ =~= spec_hex(bytes@.take(i + 1)));
        }
        i = i + 1;
    }
    assert(bytes@.take(bytes@.len() as int) =~= bytes@);
    string_from_chars(out.as_slice())
}

/// The `; Secure` attribute, when cookies must only travel over HTTPS.
pub open spec fn secure_suffix(secure: bool) -> Seq<char> {
    if secure { "; Secure"@ } else { Seq::empty() }
}

/// The cookie that remembers the OAuth state for five minutes.
pub open spec fn spec_state_cookie(state: Seq<char>, secure: bool) -> Seq<char> {
    "kepce_oauth_state="@ + state + "; Path=/; HttpOnly; SameSite=Lax; Max-Age=300"@ + secure_suffix(secure)
}

/// The cookie that forgets the OAuth state.
pub open spec fn spec_clear_state_cookie(secure: bool) -> Seq<char> {
    "kepce_oauth_state=; Path=/; HttpOnly; SameSite=Lax; Max-Age=0"@ + secure_suffix(secure)
}

/// Builds the state cookie (`Some(state)`) or the cookie that clears it (`None`).
pub fn oauth_state_cookie(state: Option<&str>, secure: bool) -> (r: String)
    ensures
        r@ == match state {
            Some(s) => spec_state_cookie(s@, secure),
            None => spec_clear_state_cookie(secure),
        },
{
    let mut out: Vec<char> = Vec::new();
    match state {
        Some(s) => {
            extend_str(&mut out, "kepce_oauth_state=");
            extend_str(&mut out, s);
            extend_str(&mut out, "; Path=/; HttpOnly; SameSite=Lax; Max-Age=300");
        },
        None => {
            extend_str(&mut out, "kepce_oauth_state=; Path=/; HttpOnly; SameSite=Lax; Max-Age=0");
        },
    }
    if secure {
        extend_str(&mut out, "; Secure");
    } else {
        assert(out@ =~= out@ + secure_suffix(secure));
    }
    string_from_chars(out.as_slice())
}

/// The session cookies of a signed-in browser: the 15-minute access token, the refresh
/// token, and the flag the frontend reads.
pub open spec fn spec_session_cookies(access: Seq<char>, refresh: Seq<char>, secure: bool) -> (Seq<char>, Seq<char>, Seq<char>) {
    let flag = if secure { "Secure"@ } else { Seq::empty() };
    (
        "kepce_token="@ + access + "; Path=/; HttpOnly; SameSite=Strict; "@ + flag + "; Max-Age=900"@,
        "kepce_refresh_token="@ + refresh + "; Path=/; HttpOnly; SameSite=Strict; "@ + flag,
        "kepce_logged_in=true; Path=/; SameSite=Strict; "@ + flag,
    )
}

/// Builds the session cookies.
pub fn session_cookies(access: &str, refresh: &str, secure: bool) -> (r: (String, String, String))
    ensures
        (r.0@, r.1@, r.2@) == spec_session_cookies(access@, refresh@, secure),
{
    let flag = if secure { "Secure" } else { "" };
    proof {
        reveal_strlit("");
    }
    let mut a: Vec<char> = Vec::new();
    extend_str(&mut a, "kepce_token=");
    extend_str(&mut a, access);
    extend_str(&mut a, "; Path=/; HttpOnly; SameSite=Strict; ");
    extend_str(&mut a, flag);
    extend_str(&mut a, "; Max-Age=900");
    let mut b: Vec<char> = Vec::new();
    extend_str(&mut b, "kepce_refresh_token=");
    extend_str(&mut b, refresh);
    extend_str(&mut b, "; Path=/; HttpOnly; SameSite=Strict; ");
    extend_str(&mut b, flag);
    let mut c: Vec<char> = Vec::new();
    extend_str(&mut c, "kepce_logged_in=true; Path=/; SameSite=Strict; ");
    extend_str(&mut c, flag);
    (string_from_chars(a.as_slice()), string_from_chars(b.as_slice()), string_from_chars(c.as_slice()))
}

/// The cookies of a password login or a refresh: with "remember me" the refresh and
/// logged-in cookies last a year, else they end with the browser session.
pub open spec fn spec_login_cookies(access: Seq<char>, refresh: Seq<char>, secure: bool, remember: bool) -> (Seq<char>, Seq<char>, Seq<char>) {
    let c = spec_session_cookies(access, refresh, secure);
    if remember {
        (c.0, c.1 + "; Max-Age=31536000"@, c.2 + "; Max-Age=31536000"@)
    } else {
        c
    }
}

/// Builds the cookies of a login or a refresh.
pub fn login_cookies(access: &str, refresh: &str, secure: bool, remember: bool) -> (r: (String, String, String))
    ensures
        (r.0@, r.1@, r.2@) == spec_login_cookies(access@, refresh@, secure, remember),
{
    let (a, b, c) = session_cookies(access, refresh, secure);
    if remember {
        let mut bv = char_vec(b.as_str());
        extend_str(&mut bv, "; Max-Age=31536000");
        let mut cv = char_vec(c.as_str());
        extend_str(&mut cv, "; Max-Age=31536000");
        (a, string_from_chars(bv.as_slice()), string_from_chars(cv.as_slice()))
    } else {
        (a, b, c)
    }
}

/// The cookies that end a session: each emptied, with `Max-Age=0`.
pub open spec fn spec_logout_cookies(secure: bool) -> (Seq<char>, Seq<char>, Seq<char>) {
    let flag = if secure { "Secure"@ } else { Seq::empty() };
    (
        "kepce_token=; Path=/; HttpOnly; SameSite=Strict; "@ + flag + "; Max-Age=0"@,
        "kepce_refresh_token=; Path=/; HttpOnly; SameSite=Strict; "@ + flag + "; Max-Age=0"@,
        "kepce_logged_in=; Path=/; SameSite=Strict; "@ + flag + "; Max-Age=0"@,
    )
}

/// Builds the cookies of a logout.
pub fn logout_cookies(secure: bool) -> (r: (String, String, String))
    ensures
        (r.0@, r.1@, r.2@) == spec_logout_cookies(secure),
{
    let flag = if secure { "Secure" } else { "" };
    proof {
        reveal_strlit("");
    }
    let mut a: Vec<char> = Vec::new();
    extend_str(&mut a, "kepce_token=; Path=/; HttpOnly; SameSite=Strict; ");
    extend_str(&mut a, flag);
    extend_str(&mut a, "; Max-Age=0");
    let mut b: Vec<char> = Vec::new();
    extend_str(&mut b, "kepce_refresh_token=; Path=/; HttpOnly; SameSite=Strict; ");
    extend_str(&mut b, flag);
    extend_str(&mut b, "; Max-Age=0");
    let mut c: Vec<char> = Vec::new();
    extend_str(&mut c, "kepce_logged_in=; Path=/; SameSite=Strict; ");
    extend_str(&mut c, flag);
    extend_str(&mut c, "; Max-Age=0");
    (string_from_chars(a.as_slice()), string_from_chars(b.as_slice()), string_from_chars(c.as_slice()))
}

} // verus!
