//! Profile pictures: which uploads are accepted, and where an accepted one is stored
//! and served from (named after the user's id, written as a UUID).

use vstd::prelude::*;
use crate::error::{AppError, ErrorKind};
use crate::assistant::str_is;
use crate::oauth::hex_digit;
use crate::text::{extend_str, string_from_chars};

verus! {

/// The hexadecimal digit `i` (from the most significant) of a 128-bit id.
pub open spec fn nibble(n: u128, i: int) -> int {
    ((n >> ((4 * (31 - i)) as u128)) & 15u128) as int
}

/// A 128-bit id as a UUID is written: 32 lowercase hexadecimal digits in groups of 8,
/// 4, 4, 4 and 12, joined by `-`.
pub open spec fn spec_uuid_text(n: u128) -> Seq<char> {
    let d = Seq::new(32, |i: int| hex_digit(nibble(n, i)));
    d.subrange(0, 8) + seq!['-'] + d.subrange(8, 12) + seq!['-'] + d.subrange(12, 16) + seq!['-'] + d.subrange(16, 20)
        + seq!['-'] + d.subrange(20, 32)
}

fn hex_digit_char(d: u128) -> (c: char)
    requires
        d < 16,
    ensures
        c == hex_digit(d as int),
{
    if d == 0 { '0' } else if d == 1 { '1' } else if d == 2 { '2' } else if d == 3 { '3' }
    else if d == 4 { '4' } else if d == 5 { '5' } else if d == 6 { '6' } else if d == 7 { '7' }
    else if d == 8 { '8' } else if d == 9 { '9' } else if d == 10 { 'a' } else if d == 11 { 'b' }
    else if d == 12 { 'c' } else if d == 13 { 'd' } else if d == 14 { 'e' } else { 'f' }
}

/// Writes a 128-bit id as a UUID.
pub fn uuid_text(n: u128) -> (r: String)
    ensures
        r@ == spec_uuid_text(n),
{
    let ghost d = Seq::new(32, |i: int| hex_digit(nibble(n, i)));
    let mut digits: Vec<char> = Vec::new();
    let mut i: u128 = 0;
    while i < 32
        invariant
            i <= 32,
            digits@ == d.take(i as int),
            d == Seq::new(32, |i: int| hex_digit(nibble(n, i))),
        decreases 32 - i,
    {
        let shift: u128 = 4 * (31 - i);
        let v = (n >> shift) & 15u128;
        assert(v < 16) by (bit_vector)
            requires v == (n >> shift) & 15u128;
        digits.push(hex_digit_char(v));
        assert(digits@ =~= d.take(i + 1));
        i = i + 1;
    }
    let mut out: Vec<char> = Vec::new();
    push_range(&mut out, &digits, 0, 8);
    out.push('-');
    push_range(&mut out, &digits, 8, 12);
    out.push('-');
    push_range(&mut out, &digits, 12, 16);
    out.push('-');
    push_range(&mut out, &digits, 16, 20);
    out.push('-');
    push_range(&mut out, &digits, 20, 32);
    proof {
        assert(out@ =~= spec_uuid_text(n));
    }
    string_from_chars(out.as_slice())
}

fn push_range(out: &mut Vec<char>, d: &Vec<char>, lo: usize, hi: usize)
    requires
        lo <= hi <= d@.len(),
    ensures
        final(out)@ == old(out)@ + d@.subrange(lo as int, hi as int),
{
    let ghost start = out@;
    let mut k = lo;
    while k < hi
        invariant
            lo <= k <= hi <= d@.len(),
            out@ == start + d@.subrange(lo as int, k as int),
            start == old(out)@,
        decreases hi - k,
    {
        out.push(d[k]);
        assert(out@ =~= start + d@.subrange(lo as int, k + 1));
        k = k + 1;
    }
}

/// The picture formats accepted.
#[derive(Clone, Copy, Debug, PartialEq, Eq, Structural)]
pub enum AvatarKind {
    Jpeg,
    Png,
    Webp,
}

impl AvatarKind {
    /// The extension the picture is stored with.
    pub open spec fn spec_extension(self) -> Seq<char> {
        match self {
            AvatarKind::Jpeg => "jpg"@,
            AvatarKind::Png => "png"@,
            AvatarKind::Webp => "webp"@,
        }
    }

    /// The extension the picture is stored with.
    pub fn extension(&self) -> (r: &'static str)
        ensures
            r@ == self.spec_extension(),
    {
        match self {
            AvatarKind::Jpeg => "jpg",
            AvatarKind::Png => "png",
            AvatarKind::Webp => "webp",
        }
    }
}

/// The format a declared content type names, if accepted.
pub open spec fn spec_avatar_kind(content_type: Seq<char>) -> Option<AvatarKind> {
    if content_type == "image/jpeg"@ {
        Some(AvatarKind::Jpeg)
    } else if content_type == "image/png"@ {
        Some(AvatarKind::Png)
    } else if content_type == "image/webp"@ {
        Some(AvatarKind::Webp)
    } else {
        None
    }
}

/// Reads the declared content type of an upload; other formats are refused.
pub fn avatar_kind(content_type: &str) -> (r: Result<AvatarKind, AppError>)
    ensures
        match r {
            Ok(k) => spec_avatar_kind(content_type@) == Some(k),
            Err(e) => spec_avatar_kind(content_type@) is None
                && e@ == (ErrorKind::BadRequest, "Sadece JPEG, PNG ve WebP formatları desteklenmektedir."@),
        },
{
    if str_is(content_type, "image/jpeg") {
        Ok(AvatarKind::Jpeg)
    } else if str_is(content_type, "image/png") {
        Ok(AvatarKind::Png)
    } else if str_is(content_type, "image/webp") {
        Ok(AvatarKind::Webp)
    } else {
        Err(AppError::with_text(ErrorKind::BadRequest, "Sadece JPEG, PNG ve WebP formatları desteklenmektedir."))
    }
}

/// The largest picture accepted, in bytes (2 MB).
pub const MAX_AVATAR_BYTES: usize = 2097152;

/// Whether the bytes start as a picture of the format does: the PNG signature, the JPEG
/// start marker, or a RIFF container of WebP data.
pub open spec fn signature_ok(k: AvatarKind, b: Seq<u8>) -> bool {
    match k {
        AvatarKind::Png => b.len() >= 8 && b.take(8) == seq![137u8, 80u8, 78u8, 71u8, 13u8, 10u8, 26u8, 10u8],
        AvatarKind::Jpeg => b.len() >= 2 && b[0] == 0xFFu8 && b[1] == 0xD8u8,
        AvatarKind::Webp => b.len() >= 12 && b.subrange(0, 4) == seq![82u8, 73u8, 70u8, 70u8]
            && b.subrange(8, 12) == seq![87u8, 69u8, 66u8, 80u8],
    }
}

fn bytes_at(b: &[u8], at: usize, expected: &[u8]) -> (r: bool)
    requires
        at + expected@.len() <= b@.len(),
    ensures
        r == (b@.subrange(at as int, at + expected@.len()) == expected@),
{
    let blen = b.len();
    let mut i: usize = 0;
    while i < expected.len()
        invariant
            at + expected@.len() <= b@.len(),
            b@.len() == blen,
            i <= expected@.len(),
            forall|j: int| 0 <= j < i ==> b@[at + j] == expected@[j],
        decreases expected@.len() - i,
    {
        if b[at + i] != expected[i] {
            assert(b@.subrange(at as int, at + expected@.len())[i as int] != expected@[i as int]);
            return false;
        }
        i = i + 1;
    }
    assert(b@.subrange(at as int, at + expected@.len()) =~= expected@);
    true
}

/// Checks an uploaded picture: at most 2 MB, and starting as its format does.
pub fn check_avatar(k: AvatarKind, data: &[u8]) -> (r: Result<(), AppError>)
    ensures
        data@.len() > MAX_AVATAR_BYTES ==> (r matches Err(e) && e@ == (ErrorKind::BadRequest, "Avatar boyutu 2MB'tan büyük olamaz."@)),
        data@.len() <= MAX_AVATAR_BYTES && !signature_ok(k, data@) ==> (r matches Err(e)
            && e@ == (ErrorKind::BadRequest, "Dosya imzası doğrulanamadı. Geçersiz veya bozuk resim dosyası."@)),
        data@.len() <= MAX_AVATAR_BYTES && signature_ok(k, data@) ==> r is Ok,
{
    if data.len() > MAX_AVATAR_BYTES {
        return Err(AppError::with_text(ErrorKind::BadRequest, "Avatar boyutu 2MB'tan büyük olamaz."));
    }
    let ok = match k {
        AvatarKind::Png => {
            let sig: [u8; 8] = [137, 80, 78, 71, 13, 10, 26, 10];
            proof {
                assert(sig@ =~= seq![137u8, 80u8, 78u8, 71u8, 13u8, 10u8, 26u8, 10u8]);
            }
            data.len() >= 8 && bytes_at(data, 0, &sig)
        },
        AvatarKind::Jpeg => data.len() >= 2 && data[0] == 0xFF && data[1] == 0xD8,
        AvatarKind::Webp => {
            let riff: [u8; 4] = [82, 73, 70, 70];
            let webp: [u8; 4] = [87, 69, 66, 80];
            proof {
                assert(riff@ =~= seq![82u8, 73u8, 70u8, 70u8]);
                assert(webp@ =~= seq![87u8, 69u8, 66u8, 80u8]);
            }
            data.len() >= 12 && bytes_at(data, 0, &riff) && bytes_at(data, 8, &webp)
        },
    };
    proof {
        if k == AvatarKind::Png && data@.len() >= 8 {
            assert(data@.subrange(0, 8) =~= data@.take(8));
        }
    }
    if !ok {
        return Err(AppError::with_text(ErrorKind::BadRequest, "Dosya imzası doğrulanamadı. Geçersiz veya bozuk resim dosyası."));
    }
    Ok(())
}

/// Where a user's picture is stored (`static/avatars/<id>.<ext>`) and the address it is
/// served at (`/static/avatars/<id>.<ext>`).
pub fn avatar_location(user: u128, k: AvatarKind) -> (r: (String, String))
    ensures
        r.0@ == "static/avatars/"@ + spec_uuid_text(user) + "."@ + k.spec_extension(),
        r.1@ == "/static/avatars/"@ + spec_uuid_text(user) + "."@ + k.spec_extension(),
{
    let id = uuid_text(user);
    let mut path: Vec<char> = Vec::new();
    extend_str(&mut path, "static/avatars/");
    extend_str(&mut path, id.as_str());
    extend_str(&mut path, ".");
    extend_str(&mut path, k.extension());
    let mut url: Vec<char> = Vec::new();
    extend_str(&mut url, "/static/avatars/");
    extend_str(&mut url, id.as_str());
    extend_str(&mut url, ".");
    extend_str(&mut url, k.extension());
    (string_from_chars(path.as_slice()), string_from_chars(url.as_slice()))
}

} // verus!
