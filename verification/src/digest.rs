//! SHA-256 digests in hexadecimal: stored token hashes, API key hashes, response ETags
//! and the fingerprint of the menu chains, and the conditional answer an ETag allows.

use vstd::prelude::*;
use vstd::utf8::encode_utf8;
use sha2::Digest;
use crate::oauth::{spec_hex, hex_token};
use crate::text::{char_vec, trim, spec_trim, extend_str, extend_chars, string_from_chars, decimal_u128, spec_decimal, spec_join, join_with};
use crate::ordering::sort_by;
use crate::menu::{by_lex, char_views, sort_keys};

verus! {

/// The SHA-256 digest of some bytes.
pub uninterp spec fn sha256_of(bytes: Seq<u8>) -> Seq<u8>;

/// `sha2::Sha256` over `bytes`: the digest, named by `sha256_of`, is 32 bytes long.
#[verifier::external_body]
fn sha256(bytes: &[u8]) -> (r: Vec<u8>)
    ensures
        r@ == sha256_of(bytes@),
        r@.len() == 32,
{
    sha2::Sha256::digest(bytes).to_vec()
}

/// The SHA-256 digest of some bytes, in lowercase hexadecimal.
pub fn sha256_hex(bytes: &[u8]) -> (r: String)
    ensures
        r@ == spec_hex(sha256_of(bytes@)),
{
    let d = sha256(bytes);
    hex_token(d.as_slice())
}

/// The hash under which a token is stored: SHA-256 of its UTF-8 bytes, in hexadecimal.
pub fn hash_token(token: &str) -> (r: String)
    ensures
        r@ == spec_hex(sha256_of(encode_utf8(token@))),
{
    sha256_hex(token.as_bytes())
}

/// The fingerprint of the heads of all menu chains: `GENESIS_STATE` when there is none,
/// else the hash of the head hashes sorted and joined by `:`.
pub open spec fn spec_global_fingerprint(heads: Seq<Seq<char>>) -> Seq<char> {
    if heads.len() == 0 {
        "GENESIS_STATE"@
    } else {
        spec_hex(sha256_of(encode_utf8(spec_join(sort_by(heads, by_lex()), ":"@))))
    }
}

/// Computes the fingerprint of the chain heads.
pub fn global_fingerprint(heads: &Vec<String>) -> (r: String)
    ensures
        r@ == spec_global_fingerprint(heads@.map_values(|h: String| h@)),
{
    if heads.len() == 0 {
        return String::from_str("GENESIS_STATE");
    }
    let mut hv: Vec<Vec<char>> = Vec::new();
    let mut i: usize = 0;
    while i < heads.len()
        invariant
            i <= heads@.len(),
            char_views(hv@) =~= heads@.take(i as int).map_values(|h: String| h@),
        decreases heads@.len() - i,
    {
        hv.push(char_vec(heads[i].as_str()));
        proof {
            assert(heads@.take(i + 1).map_values(|h: String| h@) =~= heads@.take(i as int).map_values(|h: String| h@).push(heads@[i as int]@));
        }
        i = i + 1;
    }
    assert(heads@.take(heads@.len() as int) =~= heads@);
    let sorted = sort_keys(hv);
    let sep: Vec<char> = vec![':'];
    proof {
        assert(sep@ =~= ":"@) by {
            reveal_strlit(":");
        }
    }
    let joined = join_with(&sorted, sep.as_slice());
    let text = string_from_chars(joined.as_slice());
    proof {
        assert(char_views(sorted@) == sorted@.map_values(|w: Vec<char>| w@));
    }
    hash_token(text.as_str())
}

/// `s` without every leading repetition of `p` (`str::trim_start_matches`).
pub open spec fn strip_prefixes(s: Seq<char>, p: Seq<char>) -> Seq<char>
    decreases s.len(),
{
    if p.len() > 0 && p.len() <= s.len() && s.take(p.len() as int) == p {
        strip_prefixes(s.skip(p.len() as int), p)
    } else {
        s
    }
}

/// `s` without every trailing repetition of `p` (`str::trim_end_matches`).
pub open spec fn strip_suffixes(s: Seq<char>, p: Seq<char>) -> Seq<char>
    decreases s.len(),
{
    if p.len() > 0 && p.len() <= s.len() && s.skip(s.len() - p.len()) == p {
        strip_suffixes(s.take(s.len() - p.len()), p)
    } else {
        s
    }
}

/// `s` without the character `c` at either end (`str::trim_matches`).
pub open spec fn strip_char_both(s: Seq<char>, c: char) -> Seq<char>
    decreases s.len(),
{
    if s.len() > 0 && s[0] == c {
        strip_char_both(s.drop_first(), c)
    } else if s.len() > 0 && s.last() == c {
        strip_char_both(s.drop_last(), c)
    } else {
        s
    }
}

fn has_prefix_at(s: &Vec<char>, lo: usize, hi: usize, p: &[char]) -> (r: bool)
    requires
        lo <= hi <= s@.len(),
    ensures
        r == (p@.len() <= hi - lo && s@.subrange(lo as int, hi as int).take(p@.len() as int) == p@),
{
    if p.len() > hi - lo {
        return false;
    }
    let mut k: usize = 0;
    while k < p.len()
        invariant
            p@.len() <= hi - lo,
            lo <= hi <= s@.len(),
            k <= p@.len(),
            forall|j: int| 0 <= j < k ==> s@[lo + j] == p@[j],
        decreases p@.len() - k,
    {
        if s[lo + k] != p[k] {
            assert(s@.subrange(lo as int, hi as int).take(p@.len() as int)[k as int] != p@[k as int]);
            return false;
        }
        k = k + 1;
    }
    assert(s@.subrange(lo as int, hi as int).take(p@.len() as int) =~= p@);
    true
}

fn has_suffix_at(s: &Vec<char>, lo: usize, hi: usize, p: &[char]) -> (r: bool)
    requires
        lo <= hi <= s@.len(),
    ensures
        r == (p@.len() <= hi - lo && s@.subrange(lo as int, hi as int).skip(hi - lo - p@.len()) == p@),
{
    if p.len() > hi - lo {
        return false;
    }
    let base = hi - p.len();
    let mut k: usize = 0;
    while k < p.len()
        invariant
            p@.len() <= hi - lo,
            base == hi - p@.len(),
            lo <= hi <= s@.len(),
            k <= p@.len(),
            forall|j: int| 0 <= j < k ==> s@[base + j] == p@[j],
        decreases p@.len() - k,
    {
        if s[base + k] != p[k] {
            assert(s@.subrange(lo as int, hi as int).skip(hi - lo - p@.len())[k as int] != p@[k as int]);
            return false;
        }
        k = k + 1;
    }
    assert(s@.subrange(lo as int, hi as int).skip(hi - lo - p@.len()) =~= p@);
    true
}

/// The ETag value an `If-None-Match` header names: trimmed, without leading `W/`
/// markers, surrounding quotes and trailing `-gzip` markers.
pub open spec fn spec_clean_etag(h: Seq<char>) -> Seq<char> {
    strip_suffixes(strip_char_both(strip_prefixes(spec_trim(h), "W/"@), '"'), "-gzip"@)
}

/// Reads the ETag value of an `If-None-Match` header.
pub fn clean_etag(h: &str) -> (r: Vec<char>)
    ensures
        r@ == spec_clean_etag(h@),
{
    let t = trim(h);
    let wp: Vec<char> = vec!['W', '/'];
    let gz: Vec<char> = vec!['-', 'g', 'z', 'i', 'p'];
    proof {
        reveal_strlit("W/");
        reveal_strlit("-gzip");
        assert(wp@ =~= "W/"@);
        assert(gz@ =~= "-gzip"@);
    }
    let mut lo: usize = 0;
    let mut hi: usize = t.len();
    let ghost whole = t@;
    assert(whole.subrange(0, whole.len() as int) =~= whole);
    while has_prefix_at(&t, lo, hi, wp.as_slice())
        invariant
            lo <= hi == t@.len(),
            whole == t@,
            wp@.len() == 2,
            strip_prefixes(whole, wp@) == strip_prefixes(t@.subrange(lo as int, hi as int), wp@),
        decreases hi - lo,
    {
        assert(t@.subrange(lo as int, hi as int).skip(2) =~= t@.subrange(lo + 2, hi as int));
        lo = lo + 2;
    }
    let ghost after_w = t@.subrange(lo as int, hi as int);
    while lo < hi && t[lo] == '"'
        invariant
            lo <= hi <= t@.len(),
            strip_char_both(after_w, '"') == strip_char_both(t@.subrange(lo as int, hi as int), '"'),
        decreases hi - lo,
    {
        assert(t@.subrange(lo as int, hi as int).drop_first() =~= t@.subrange(lo + 1, hi as int));
        lo = lo + 1;
    }
    while lo < hi && t[hi - 1] == '"'
        invariant
            lo <= hi <= t@.len(),
            strip_char_both(after_w, '"') == strip_char_both(t@.subrange(lo as int, hi as int), '"'),
            lo < hi ==> t@[lo as int] != '"',
        decreases hi - lo,
    {
        assert(t@.subrange(lo as int, hi as int).drop_last() =~= t@.subrange(lo as int, hi - 1));
        hi = hi - 1;
        if lo < hi {
            assert(t@.subrange(lo as int, hi as int)[0] == t@[lo as int]);
        }
    }
    proof {
        let m = t@.subrange(lo as int, hi as int);
        if m.len() > 0 {
            assert(m[0] == t@[lo as int]);
            assert(m.last() == t@[hi - 1]);
        }
    }
    let ghost after_q = t@.subrange(lo as int, hi as int);
    while has_suffix_at(&t, lo, hi, gz.as_slice())
        invariant
            lo <= hi <= t@.len(),
            gz@.len() == 5,
            strip_suffixes(after_q, gz@) == strip_suffixes(t@.subrange(lo as int, hi as int), gz@),
        decreases hi - lo,
    {
        assert(t@.subrange(lo as int, hi as int).take(hi - lo - 5) =~= t@.subrange(lo as int, hi - 5));
        hi = hi - 5;
    }
    let mut out: Vec<char> = Vec::new();
    let mut k = lo;
    while k < hi
        invariant
            lo <= k <= hi <= t@.len(),
            out@ == t@.subrange(lo as int, k as int),
        decreases hi - k,
    {
        out.push(t[k]);
        assert(out@ =~= t@.subrange(lo as int, k + 1));
        k = k + 1;
    }
    out
}

/// What a cached JSON answer carries: whether the client's copy is current (so the
/// answer is `304 Not Modified` without a body), its ETag and its `Cache-Control`.
pub struct CachePlan {
    pub not_modified: bool,
    pub etag: String,
    pub cache_control: String,
}

/// The `Cache-Control` of a cached JSON answer.
pub open spec fn spec_cache_control(max_age: nat) -> Seq<char> {
    "public, max-age="@ + spec_decimal(max_age) + ", s-maxage=3600, stale-while-revalidate=86400"@
}

/// The answer to a request for JSON `body` with an optional `If-None-Match` header: the
/// ETag is the quoted hash of the body, and the client's copy is current when the header
/// names that hash or is `*`.
pub fn cache_plan(if_none_match: Option<&str>, body: &[u8], max_age_secs: u32) -> (r: CachePlan)
    ensures
        r.etag@ == "\""@ + spec_hex(sha256_of(body@)) + "\""@,
        r.cache_control@ == spec_cache_control(max_age_secs as nat),
        r.not_modified == (match if_none_match {
            Some(h) => spec_clean_etag(h@) == spec_hex(sha256_of(body@)) || spec_trim(h@) == "*"@,
            None => false,
        }),
{
    let hex = sha256_hex(body);
    let hv = char_vec(hex.as_str());
    let mut etag: Vec<char> = Vec::new();
    extend_str(&mut etag, "\"");
    extend_chars(&mut etag, hv.as_slice());
    extend_str(&mut etag, "\"");
    let mut cc: Vec<char> = Vec::new();
    extend_str(&mut cc, "public, max-age=");
    let n = decimal_u128(max_age_secs as u128);
    extend_chars(&mut cc, n.as_slice());
    extend_str(&mut cc, ", s-maxage=3600, stale-while-revalidate=86400");
    let not_modified = match if_none_match {
        Some(h) => {
            let c = clean_etag(h);
            let t = trim(h);
            let star: Vec<char> = vec!['*'];
            proof {
                reveal_strlit("*");
                assert(star@ =~= "*"@);
            }
            crate::assistant::chars_equal(c.as_slice(), hv.as_slice())
                || crate::assistant::chars_equal(t.as_slice(), star.as_slice())
        },
        None => false,
    };
    CachePlan {
        not_modified,
        etag: string_from_chars(etag.as_slice()),
        cache_control: string_from_chars(cc.as_slice()),
    }
}

} // verus!
