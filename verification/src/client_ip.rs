//! Client addresses: which peers are trusted reverse proxies, and which address a
//! request is attributed to.

use vstd::prelude::*;
use crate::text::{char_vec, find_char_from, index_of, slice_chars, spec_trim, string_from_chars, trim_chars};

verus! {

/// An IP address, by its octets (IPv4) or its 16-bit segments (IPv6).
#[derive(Clone, Copy, PartialEq, Eq, Structural, Debug, Hash)]
pub enum IpAddress {
    V4(u8, u8, u8, u8),
    V6(u16, u16, u16, u16, u16, u16, u16, u16),
}

/// The IPv4 address `0.0.0.0`, used when a request's peer is unknown.
pub open spec fn unspecified_v4() -> IpAddress {
    IpAddress::V4(0, 0, 0, 0)
}

pub fn unspecified() -> (ip: IpAddress)
    ensures
        ip == unspecified_v4(),
{
    IpAddress::V4(0, 0, 0, 0)
}

/// A trusted proxy: an IPv4 loopback (127.0.0.0/8) or RFC 1918 private (10.0.0.0/8,
/// 172.16.0.0/12, 192.168.0.0/16) address, or the IPv6 loopback `::1`. Forwarding
/// headers are believed only from such a peer: from anyone else they can be forged.
pub open spec fn spec_is_trusted_proxy(ip: IpAddress) -> bool {
    match ip {
        IpAddress::V4(a, b, _, _) => a == 127 || a == 10 || (a == 172 && 16 <= b && b <= 31) || (a
            == 192 && b == 168),
        IpAddress::V6(a, b, c, d, e, f, g, h) => a == 0 && b == 0 && c == 0 && d == 0 && e == 0 && f
            == 0 && g == 0 && h == 1,
    }
}

pub fn is_trusted_proxy(ip: &IpAddress) -> (b: bool)
    ensures
        b == spec_is_trusted_proxy(*ip),
{
    match ip {
        IpAddress::V4(a, b, _, _) => *a == 127 || *a == 10 || (*a == 172 && 16 <= *b && *b <= 31) || (
        *a == 192 && *b == 168),
        IpAddress::V6(a, b, c, d, e, f, g, h) => *a == 0 && *b == 0 && *c == 0 && *d == 0 && *e == 0
            && *f == 0 && *g == 0 && *h == 1,
    }
}

/// The last comma-separated element of `s` (the whole of `s` without a comma).
pub open spec fn last_element(s: Seq<char>) -> Seq<char>
    decreases s.len(),
{
    let e = index_of(s, ',');
    if e < 0 {
        s
    } else {
        proof { crate::text::lemma_index_of(s, ','); }
        last_element(s.skip(e + 1))
    }
}

/// The address a request is attributed to. Behind a trusted proxy, the first of
/// `CF-Connecting-IP`, `X-Real-IP` and the last element of `X-Forwarded-For` that
/// parses as an address wins; otherwise, and as the fallback, the peer's own address.
/// Each header is given by the address its candidate text parses to, if any
/// (`header_candidate` and `forwarded_candidate` give that text).
pub open spec fn spec_client_ip(
    peer: Option<IpAddress>,
    cf_connecting_ip: Option<IpAddress>,
    real_ip: Option<IpAddress>,
    forwarded_for: Option<IpAddress>,
) -> Option<IpAddress> {
    let trusted = match peer {
        Some(p) => spec_is_trusted_proxy(p),
        None => false,
    };
    if trusted && cf_connecting_ip is Some {
        cf_connecting_ip
    } else if trusted && real_ip is Some {
        real_ip
    } else if trusted && forwarded_for is Some {
        forwarded_for
    } else {
        peer
    }
}

/// The text of a single-address header that is parsed as an address: the value, trimmed.
pub fn header_candidate(h: &str) -> (r: String)
    ensures
        r@ == spec_trim(h@),
{
    let t = trim_chars(char_vec(h).as_slice());
    string_from_chars(t.as_slice())
}

/// The text of an `X-Forwarded-For` value that is parsed as an address: its last
/// comma-separated element (the one the nearest proxy appended), trimmed.
pub fn forwarded_candidate(h: &str) -> (r: String)
    ensures
        r@ == spec_trim(last_element(h@)),
{
    let last = last_comma_element(h);
    let t = trim_chars(last.as_slice());
    string_from_chars(t.as_slice())
}

/// The last comma-separated element of a header value.
pub fn last_comma_element(s: &str) -> (r: Vec<char>)
    ensures
        r@ == last_element(s@),
{
    let v = char_vec(s);
    let mut start: usize = 0;
    assert(v@.skip(0) =~= v@);
    loop
        invariant
            v@ == s@,
            start <= v@.len(),
            last_element(s@) == last_element(v@.skip(start as int)),
        decreases v@.len() - start,
    {
        let ghost rest = v@.skip(start as int);
        match find_char_from(v.as_slice(), ',', start) {
            None => {
                let r = slice_chars(v.as_slice(), start, v.len());
                assert(r@ =~= rest);
                return r;
            },
            Some(e) => {
                proof {
                    assert(rest.skip(e - start + 1) =~= v@.skip(e + 1));
                    assert(v@.len() == v.len());
                }
                start = e + 1;
            },
        }
    }
}

/// The address a request is attributed to, from its peer address and the addresses
/// its forwarding headers parse to.
pub fn client_ip(
    peer: Option<IpAddress>,
    cf_connecting_ip: Option<IpAddress>,
    real_ip: Option<IpAddress>,
    forwarded_for: Option<IpAddress>,
) -> (r: Option<IpAddress>)
    ensures
        r == spec_client_ip(peer, cf_connecting_ip, real_ip, forwarded_for),
{
    let trusted = match peer {
        Some(p) => is_trusted_proxy(&p),
        None => false,
    };
    if trusted && cf_connecting_ip.is_some() {
        cf_connecting_ip
    } else if trusted && real_ip.is_some() {
        real_ip
    } else if trusted && forwarded_for.is_some() {
        forwarded_for
    } else {
        peer
    }
}

/// A request whose peer is not a trusted proxy is attributed to the peer, whatever
/// its forwarding headers say.
pub proof fn lemma_untrusted_peer_wins(
    peer: IpAddress,
    cf: Option<IpAddress>,
    real_ip: Option<IpAddress>,
    fwd: Option<IpAddress>,
)
    requires
        !spec_is_trusted_proxy(peer),
    ensures
        spec_client_ip(Some(peer), cf, real_ip, fwd) == Some(peer),
{
}

} // verus!
