//! The session token of a request: from the `kepce_token` cookie, or else from an
//! `Authorization: Bearer` header.

use vstd::prelude::*;
use crate::text::{char_vec, find_char_from, index_of, lemma_index_of, slice_chars, spec_starts_with, spec_trim, starts_with_chars, string_from_chars, trim_chars};

verus! {

/// Name and `=` that open the session cookie.
pub open spec fn cookie_prefix() -> Seq<char> {
    "kepce_token="@
}

/// The value of the first pair opened by `prefix` (a name and `=`) in a `Cookie`
/// header: the header is cut at each `;`, each piece is trimmed, and the first piece
/// that starts with `prefix` gives the rest of that piece.
pub open spec fn spec_cookie_value(s: Seq<char>, prefix: Seq<char>) -> Option<Seq<char>>
    decreases s.len(),
{
    let e = index_of(s, ';');
    let piece = spec_trim(if e < 0 { s } else { s.take(e) });
    if spec_starts_with(piece, prefix) {
        Some(piece.skip(prefix.len() as int))
    } else if e < 0 {
        None
    } else {
        proof { lemma_index_of(s, ';'); }
        spec_cookie_value(s.skip(e + 1), prefix)
    }
}

/// The value of the session cookie `kepce_token` in a `Cookie` header.
pub open spec fn spec_cookie_token(s: Seq<char>) -> Option<Seq<char>> {
    spec_cookie_value(s, cookie_prefix())
}

/// Name and `=` that open the refresh cookie.
pub open spec fn refresh_prefix() -> Seq<char> {
    "kepce_refresh_token="@
}

/// The token of an `Authorization: Bearer <token>` header.
pub open spec fn spec_bearer_token(s: Seq<char>) -> Option<Seq<char>> {
    if spec_starts_with(s, "Bearer "@) {
        Some(s.skip("Bearer "@.len() as int))
    } else {
        None
    }
}

/// The session token: the cookie wins; the bearer header is the fallback.
pub open spec fn spec_session_token(cookie: Option<Seq<char>>, authorization: Option<Seq<char>>) -> Option<Seq<char>> {
    let from_cookie = match cookie {
        Some(c) => spec_cookie_token(c),
        None => None,
    };
    match from_cookie {
        Some(t) => Some(t),
        None => match authorization {
            Some(a) => spec_bearer_token(a),
            None => None,
        },
    }
}

/// The value of the cookie opened by `prefix` in a `Cookie` header, if there is one.
pub fn cookie_value(header: &str, prefix_text: &str) -> (r: Option<Vec<char>>)
    ensures
        match r {
            Some(v) => spec_cookie_value(header@, prefix_text@) == Some(v@),
            None => spec_cookie_value(header@, prefix_text@) is None,
        },
{
    let s = char_vec(header);
    let prefix = char_vec(prefix_text);
    let mut start: usize = 0;
    assert(s@.skip(0) =~= s@);
    loop
        invariant
            s@ == header@,
            prefix@ == prefix_text@,
            start <= s@.len(),
            spec_cookie_value(header@, prefix_text@) == spec_cookie_value(s@.skip(start as int), prefix_text@),
        decreases s@.len() - start,
    {
        let ghost rest = s@.skip(start as int);
        let found = find_char_from(s.as_slice(), ';', start);
        let end = match found {
            Some(e) => e,
            None => s.len(),
        };
        let piece = slice_chars(s.as_slice(), start, end);
        let t = trim_chars(piece.as_slice());
        proof {
            match found {
                Some(e) => {
                    assert(piece@ =~= rest.take(e - start));
                },
                None => {
                    assert(piece@ =~= rest);
                },
            }
        }
        if starts_with_chars(t.as_slice(), prefix.as_slice()) {
            let v = slice_chars(t.as_slice(), prefix.len(), t.len());
            assert(v@ =~= t@.skip(prefix@.len() as int));
            return Some(v);
        }
        match found {
            None => {
                return None;
            },
            Some(e) => {
                proof {
                    assert(rest.skip(e - start + 1) =~= s@.skip(e + 1));
                    assert(s@.len() == s.len());
                }
                start = e + 1;
            },
        }
    }
}

/// The value of the session cookie in a `Cookie` header, if there is one.
pub fn cookie_token(header: &str) -> (r: Option<Vec<char>>)
    ensures
        match r {
            Some(v) => spec_cookie_token(header@) == Some(v@),
            None => spec_cookie_token(header@) is None,
        },
{
    cookie_value(header, "kepce_token=")
}

/// The refresh token in a `Cookie` header (the `kepce_refresh_token` cookie), if any.
pub fn refresh_cookie_token(header: &str) -> (r: Option<String>)
    ensures
        match r {
            Some(v) => spec_cookie_value(header@, refresh_prefix()) == Some(v@),
            None => spec_cookie_value(header@, refresh_prefix()) is None,
        },
{
    match cookie_value(header, "kepce_refresh_token=") {
        Some(v) => Some(string_from_chars(v.as_slice())),
        None => None,
    }
}

/// The token of an `Authorization` header, if it is a bearer header.
pub fn bearer_token(header: &str) -> (r: Option<Vec<char>>)
    ensures
        match r {
            Some(v) => spec_bearer_token(header@) == Some(v@),
            None => spec_bearer_token(header@) is None,
        },
{
    let s = char_vec(header);
    let prefix = char_vec("Bearer ");
    if starts_with_chars(s.as_slice(), prefix.as_slice()) {
        let v = slice_chars(s.as_slice(), prefix.len(), s.len());
        assert(v@ =~= s@.skip(prefix@.len() as int));
        Some(v)
    } else {
        None
    }
}

/// The session token of a request, from its `Cookie` and `Authorization` headers (each
/// given when present and readable as text).
pub fn session_token(cookie: Option<&str>, authorization: Option<&str>) -> (r: Option<String>)
    ensures
        match r {
            Some(t) => spec_session_token(
                match cookie { Some(c) => Some(c@), None => None },
                match authorization { Some(a) => Some(a@), None => None },
            ) == Some(t@),
            None => spec_session_token(
                match cookie { Some(c) => Some(c@), None => None },
                match authorization { Some(a) => Some(a@), None => None },
            ) is None,
        },
{
    let from_cookie = match cookie {
        Some(c) => cookie_token(c),
        None => None,
    };
    match from_cookie {
        Some(t) => Some(string_from_chars(t.as_slice())),
        None => match authorization {
            Some(a) => match bearer_token(a) {
                Some(t) => Some(string_from_chars(t.as_slice())),
                None => None,
            },
            None => None,
        },
    }
}


/// A `Cookie` header that holds just the session pair `kepce_token=<token>`, with no
/// whitespace around it, gives back the token that was set (a cookie value holds no
/// `;`).
pub proof fn lemma_cookie_round_trip(token: Seq<char>)
    requires
        forall|j: int| 0 <= j < token.len() ==> token[j] != ';',
        spec_trim(cookie_prefix() + token) == cookie_prefix() + token,
    ensures
        spec_cookie_token(cookie_prefix() + token) == Some(token),
{
    reveal_strlit("kepce_token=");
    let p = cookie_prefix();
    let h = p + token;
    assert(p.len() == 12);
    lemma_index_of(h, ';');
    if index_of(h, ';') >= 0 {
        let k = index_of(h, ';');
        if k < 12 {
            assert(h[k] == p[k]);
        } else {
            assert(h[k] == token[k - 12]);
        }
    }
    assert(h.take(12) =~= p);
    assert(h.skip(12) =~= token);
}

} // verus!
