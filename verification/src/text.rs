//! Character-level text helpers: conversions between `str`/`String` and `Vec<char>`,
//! trimming, substring search, and decimal rendering of integers.

use vstd::prelude::*;

verus! {

/// The characters of a string slice, in order.
pub fn char_vec(s: &str) -> (v: Vec<char>)
    ensures
        v@ == s@,
{
    let mut v: Vec<char> = Vec::new();
    for c in it: s.chars()
        invariant
            v@ == it.seq().take(it.index() as int),
    {
        v.push(c);
    }
    v
}

/// `String: FromIterator<char>`: the string whose characters are `v`, in order.
#[verifier::external_body]
pub fn string_from_chars(v: &[char]) -> (s: String)
    ensures
        s@ == v@,
{
    v.iter().collect()
}

/// `char::is_whitespace`: the characters with the Unicode `White_Space` property, that
/// is U+0009 to U+000D, U+0020, U+0085, U+00A0, U+1680, U+2000 to U+200A, U+2028,
/// U+2029, U+202F, U+205F and U+3000.
pub open spec fn spec_is_whitespace(c: char) -> bool {
    let n = c as u32;
    ||| 0x9 <= n <= 0xD
    ||| n == 0x20
    ||| n == 0x85
    ||| n == 0xA0
    ||| n == 0x1680
    ||| 0x2000 <= n <= 0x200A
    ||| n == 0x2028
    ||| n == 0x2029
    ||| n == 0x202F
    ||| n == 0x205F
    ||| n == 0x3000
}

/// Whether `c` is whitespace, as `char::is_whitespace` answers.
pub fn is_whitespace(c: char) -> (b: bool)
    ensures
        b == spec_is_whitespace(c),
{
    let n = c as u32;
    (0x9 <= n && n <= 0xD) || n == 0x20 || n == 0x85 || n == 0xA0 || n == 0x1680 || (0x2000 <= n && n
        <= 0x200A) || n == 0x2028 || n == 0x2029 || n == 0x202F || n == 0x205F || n == 0x3000
}

/// What `char::is_alphanumeric` answers for a character (Unicode Alphabetic or Numeric).
pub uninterp spec fn spec_is_alphanumeric(c: char) -> bool;

/// `char::is_alphanumeric`; its answer is named by `spec_is_alphanumeric`.
#[verifier::external_body]
pub fn is_alphanumeric(c: char) -> (b: bool)
    ensures
        b == spec_is_alphanumeric(c),
{
    c.is_alphanumeric()
}

/// What `str::to_lowercase` returns for a string (Unicode lowercase mapping).
pub uninterp spec fn spec_to_lowercase(s: Seq<char>) -> Seq<char>;

/// `str::to_lowercase`; its result is named by `spec_to_lowercase`.
#[verifier::external_body]
pub fn to_lowercase(s: &str) -> (r: String)
    ensures
        r@ == spec_to_lowercase(s@),
{
    s.to_lowercase()
}

/// What `str::to_uppercase` returns for a string (Unicode uppercase mapping).
pub uninterp spec fn spec_to_uppercase(s: Seq<char>) -> Seq<char>;

/// `str::to_uppercase`; its result is named by `spec_to_uppercase`.
#[verifier::external_body]
pub fn to_uppercase(s: &str) -> (r: String)
    ensures
        r@ == spec_to_uppercase(s@),
{
    s.to_uppercase()
}

/// An ASCII letter or digit.
pub open spec fn is_ascii_alnum(c: char) -> bool {
    ('a' <= c && c <= 'z') || ('A' <= c && c <= 'Z') || ('0' <= c && c <= '9')
}

pub fn ascii_alnum(c: char) -> (b: bool)
    ensures
        b == is_ascii_alnum(c),
{
    ('a' <= c && c <= 'z') || ('A' <= c && c <= 'Z') || ('0' <= c && c <= '9')
}

/// An ASCII decimal digit.
pub open spec fn is_digit(c: char) -> bool {
    '0' <= c && c <= '9'
}

/// The index of the first non-whitespace character at or after `i` (or the length).
pub open spec fn skip_ws_from(s: Seq<char>, i: int) -> int
    decreases s.len() - i,
{
    if i >= s.len() || i < 0 {
        if i < 0 { 0 } else { s.len() as int }
    } else if spec_is_whitespace(s[i]) {
        skip_ws_from(s, i + 1)
    } else {
        i
    }
}

/// The end of `s[lo..j]` once trailing whitespace is dropped.
pub open spec fn skip_ws_back(s: Seq<char>, j: int, lo: int) -> int
    decreases j - lo,
{
    if j <= lo {
        lo
    } else if spec_is_whitespace(s[j - 1]) {
        skip_ws_back(s, j - 1, lo)
    } else {
        j
    }
}

/// `str::trim`: the string without leading and trailing whitespace.
pub open spec fn spec_trim(s: Seq<char>) -> Seq<char> {
    let a = skip_ws_from(s, 0);
    s.subrange(a, skip_ws_back(s, s.len() as int, a))
}

proof fn lemma_skip_ws_back(s: Seq<char>, j: int, lo: int)
    requires
        0 <= lo <= j <= s.len(),
    ensures
        lo <= skip_ws_back(s, j, lo) <= j,
        skip_ws_back(s, j, lo) > lo ==> !spec_is_whitespace(s[skip_ws_back(s, j, lo) - 1]),
    decreases j - lo,
{
    if j > lo && spec_is_whitespace(s[j - 1]) {
        lemma_skip_ws_back(s, j - 1, lo);
    }
}

/// A text that neither starts nor ends with whitespace is its own trim.
proof fn lemma_trim_of_trimmed(t: Seq<char>)
    requires
        t.len() > 0 ==> !spec_is_whitespace(t[0]) && !spec_is_whitespace(t.last()),
    ensures
        spec_trim(t) == t,
{
    if t.len() == 0 {
        assert(t.subrange(0, 0) =~= t);
    } else {
        assert(skip_ws_from(t, 0) == 0);
        assert(skip_ws_back(t, t.len() as int, 0) == t.len());
        assert(t.subrange(0, t.len() as int) =~= t);
    }
}

proof fn lemma_skip_ws_from_prefix(s: Seq<char>, e: Seq<char>, i: int)
    requires
        0 <= i <= s.len(),
        skip_ws_from(s, i) < s.len(),
    ensures
        skip_ws_from(s + e, i) == skip_ws_from(s, i),
    decreases s.len() - i,
{
    assert((s + e)[i] == s[i]);
    if spec_is_whitespace(s[i]) {
        lemma_skip_ws_from_prefix(s, e, i + 1);
    }
}

proof fn lemma_skip_ws_back_past(t: Seq<char>, j: int, lo: int, k: int)
    requires
        0 <= lo <= k < j <= t.len(),
        !spec_is_whitespace(t[k]),
    ensures
        skip_ws_back(t, j, lo) > k,
    decreases j - lo,
{
    if spec_is_whitespace(t[j - 1]) {
        lemma_skip_ws_back_past(t, j - 1, lo, k);
    }
}

/// Text added after a text that is not all whitespace leaves its trim non-empty.
pub proof fn lemma_trim_nonempty_extend(s: Seq<char>, e: Seq<char>)
    requires
        spec_trim(s).len() > 0,
    ensures
        spec_trim(s + e).len() > 0,
{
    let a = skip_ws_from(s, 0);
    lemma_skip_ws_from(s, 0);
    lemma_skip_ws_back_bounds(s, s.len() as int, a);
    if a >= s.len() {
        assert(skip_ws_back(s, s.len() as int, a) == a);
    }
    assert(a < s.len());
    lemma_skip_ws_from_prefix(s, e, 0);
    let t = s + e;
    assert(t[a] == s[a]);
    lemma_skip_ws_back_past(t, t.len() as int, a, a);
    lemma_skip_ws_back_bounds(t, t.len() as int, a);
    let b = skip_ws_back(t, t.len() as int, a);
    assert(skip_ws_from(t, 0) == a);
    assert(spec_trim(t) == t.subrange(a, b));
    assert(spec_trim(t).len() == b - a);
}

/// Trimming twice is trimming once.
pub proof fn lemma_trim_idempotent(s: Seq<char>)
    ensures
        spec_trim(spec_trim(s)) == spec_trim(s),
{
    let a = skip_ws_from(s, 0);
    lemma_skip_ws_from_bounds(s, 0);
    lemma_skip_ws_from(s, 0);
    lemma_skip_ws_back(s, s.len() as int, a);
    let b = skip_ws_back(s, s.len() as int, a);
    let t = spec_trim(s);
    if t.len() > 0 {
        assert(t[0] == s[a]);
        assert(t.last() == s[b - 1]);
    }
    lemma_trim_of_trimmed(t);
}

/// `str::trim_start`: the string without leading whitespace.
pub open spec fn spec_trim_start(s: Seq<char>) -> Seq<char> {
    s.subrange(skip_ws_from(s, 0), s.len() as int)
}

proof fn lemma_skip_ws_from_bounds(s: Seq<char>, i: int)
    requires
        0 <= i <= s.len(),
    ensures
        i <= skip_ws_from(s, i) <= s.len(),
    decreases s.len() - i,
{
    if i < s.len() && spec_is_whitespace(s[i]) {
        lemma_skip_ws_from_bounds(s, i + 1);
    }
}

proof fn lemma_skip_ws_back_bounds(s: Seq<char>, j: int, lo: int)
    requires
        lo <= j,
    ensures
        lo <= skip_ws_back(s, j, lo) <= j,
    decreases j - lo,
{
    if j > lo && spec_is_whitespace(s[j - 1]) {
        lemma_skip_ws_back_bounds(s, j - 1, lo);
    }
}

/// The bounds `(a, b)` of the trimmed part of `s`.
pub fn trim_bounds(s: &[char]) -> (r: (usize, usize))
    ensures
        r.0 == skip_ws_from(s@, 0),
        r.1 == skip_ws_back(s@, s@.len() as int, r.0 as int),
        r.0 <= r.1 <= s@.len(),
{
    let mut a: usize = 0;
    while a < s.len() && is_whitespace(s[a])
        invariant
            a <= s@.len(),
            skip_ws_from(s@, 0) == skip_ws_from(s@, a as int),
        decreases s@.len() - a,
    {
        a = a + 1;
    }
    let mut b: usize = s.len();
    while b > a && is_whitespace(s[b - 1])
        invariant
            a <= b <= s@.len(),
            skip_ws_back(s@, s@.len() as int, a as int) == skip_ws_back(s@, b as int, a as int),
        decreases b,
    {
        b = b - 1;
    }
    (a, b)
}

/// `str::trim` on characters.
pub fn trim_chars(s: &[char]) -> (r: Vec<char>)
    ensures
        r@ == spec_trim(s@),
{
    let (a, b) = trim_bounds(s);
    slice_chars(s, a, b)
}

/// `str::trim` on a string slice.
pub fn trim(s: &str) -> (r: Vec<char>)
    ensures
        r@ == spec_trim(s@),
{
    let v = char_vec(s);
    trim_chars(v.as_slice())
}

/// `s[a..b]` as a new vector.
pub fn slice_chars(s: &[char], a: usize, b: usize) -> (r: Vec<char>)
    requires
        a <= b <= s@.len(),
    ensures
        r@ == s@.subrange(a as int, b as int),
{
    let mut r: Vec<char> = Vec::new();
    let mut i = a;
    while i < b
        invariant
            a <= i <= b,
            b <= s@.len(),
            r@ == s@.subrange(a as int, i as int),
        decreases b - i,
    {
        r.push(s[i]);
        i = i + 1;
    }
    r
}

/// `p` occurs in `s` starting at position `i`.
pub open spec fn occurs_at(s: Seq<char>, p: Seq<char>, i: int) -> bool {
    0 <= i && i + p.len() <= s.len() && s.subrange(i, i + p.len()) == p
}

/// `str::contains` with a string pattern.
pub open spec fn spec_contains(s: Seq<char>, p: Seq<char>) -> bool {
    exists|i: int| occurs_at(s, p, i)
}

/// `str::starts_with` with a string pattern.
pub open spec fn spec_starts_with(s: Seq<char>, p: Seq<char>) -> bool {
    p.len() <= s.len() && s.take(p.len() as int) == p
}

/// Whether `p` occurs in `s` at position `i`.
pub fn matches_at(s: &[char], p: &[char], i: usize) -> (b: bool)
    ensures
        b == occurs_at(s@, p@, i as int),
{
    if i > s.len() || p.len() > s.len() - i {
        return false;
    }
    let mut k: usize = 0;
    while k < p.len()
        invariant
            k <= p@.len(),
            i + p@.len() <= s@.len(),
            s@.len() == s.len(),
            forall|m: int| 0 <= m < k ==> s@[i + m] == p@[m],
        decreases p@.len() - k,
    {
        if s[i + k] != p[k] {
            assert(s@.subrange(i as int, i + p@.len())[k as int] != p@[k as int]);
            return false;
        }
        k = k + 1;
    }
    assert(s@.subrange(i as int, i + p@.len()) =~= p@);
    true
}

/// The first position at which `p` occurs in `s`, if any.
pub fn find_chars(s: &[char], p: &[char]) -> (r: Option<usize>)
    ensures
        r matches Some(i) ==> occurs_at(s@, p@, i as int)
            && forall|j: int| 0 <= j < i ==> !occurs_at(s@, p@, j),
        r is None ==> !spec_contains(s@, p@),
{
    if p.len() > s.len() {
        assert forall|j: int| !occurs_at(s@, p@, j) by {}
        return None;
    }
    let last = s.len() - p.len();
    let mut i: usize = 0;
    loop
        invariant
            last == s@.len() - p@.len(),
            i <= last,
            forall|j: int| 0 <= j < i ==> !occurs_at(s@, p@, j),
        ensures
            forall|j: int| 0 <= j <= last ==> !occurs_at(s@, p@, j),
        decreases last - i,
    {
        if matches_at(s, p, i) {
            return Some(i);
        }
        if i == last {
            break;
        }
        i = i + 1;
    }
    assert forall|j: int| !occurs_at(s@, p@, j) by {
        if 0 <= j <= last {
        }
    }
    None
}

/// `str::contains` on characters.
pub fn contains_chars(s: &[char], p: &[char]) -> (b: bool)
    ensures
        b == spec_contains(s@, p@),
{
    match find_chars(s, p) {
        Some(i) => {
            assert(occurs_at(s@, p@, i as int));
            true
        },
        None => false,
    }
}

/// `str::contains` with a string-slice pattern.
pub fn contains_str(s: &[char], p: &str) -> (b: bool)
    ensures
        b == spec_contains(s@, p@),
{
    let pv = char_vec(p);
    contains_chars(s, pv.as_slice())
}

/// `str::starts_with` on characters.
pub fn starts_with_chars(s: &[char], p: &[char]) -> (b: bool)
    ensures
        b == spec_starts_with(s@, p@),
{
    let b = matches_at(s, p, 0);
    proof {
        if b {
            assert(s@.subrange(0, p@.len() as int) =~= s@.take(p@.len() as int));
        }
        if spec_starts_with(s@, p@) {
            assert(s@.subrange(0, p@.len() as int) =~= s@.take(p@.len() as int));
        }
    }
    b
}

/// `str::starts_with` with a string-slice pattern.
pub fn starts_with_str(s: &[char], p: &str) -> (b: bool)
    ensures
        b == spec_starts_with(s@, p@),
{
    let pv = char_vec(p);
    starts_with_chars(s, pv.as_slice())
}

/// Decimal digits of a natural number (`Display` for unsigned integers).
pub open spec fn spec_decimal(n: nat) -> Seq<char>
    decreases n,
{
    if n < 10 {
        seq![digit_char(n)]
    } else {
        spec_decimal(n / 10).push(digit_char(n % 10))
    }
}

/// The ASCII digit for `0..=9`.
pub open spec fn digit_char(d: nat) -> char {
    if d == 0 { '0' }
    else if d == 1 { '1' }
    else if d == 2 { '2' }
    else if d == 3 { '3' }
    else if d == 4 { '4' }
    else if d == 5 { '5' }
    else if d == 6 { '6' }
    else if d == 7 { '7' }
    else if d == 8 { '8' }
    else { '9' }
}

/// `Display` for signed integers: an optional minus sign, then the digits.
pub open spec fn spec_int_decimal(n: int) -> Seq<char> {
    if n < 0 {
        seq!['-'] + spec_decimal((-n) as nat)
    } else {
        spec_decimal(n as nat)
    }
}

fn digit(d: u128) -> (c: char)
    requires
        d < 10,
    ensures
        c == digit_char(d as nat),
{
    if d == 0 { '0' }
    else if d == 1 { '1' }
    else if d == 2 { '2' }
    else if d == 3 { '3' }
    else if d == 4 { '4' }
    else if d == 5 { '5' }
    else if d == 6 { '6' }
    else if d == 7 { '7' }
    else if d == 8 { '8' }
    else { '9' }
}

/// The decimal rendering of `n`.
pub fn decimal_u128(n: u128) -> (r: Vec<char>)
    ensures
        r@ == spec_decimal(n as nat),
    decreases n,
{
    if n < 10 {
        let mut r: Vec<char> = Vec::new();
        r.push(digit(n));
        assert(r@ =~= seq![digit_char(n as nat)]);
        r
    } else {
        let mut r = decimal_u128(n / 10);
        r.push(digit(n % 10));
        r
    }
}

/// The decimal rendering of a signed `n`.
pub fn decimal_i128(n: i128) -> (r: Vec<char>)
    ensures
        r@ == spec_int_decimal(n as int),
{
    if n < 0 {
        let m: u128 = if n == i128::MIN {
            170141183460469231731687303715884105728u128
        } else {
            (-n) as u128
        };
        let d = decimal_u128(m);
        let mut r: Vec<char> = Vec::new();
        r.push('-');
        let mut i: usize = 0;
        while i < d.len()
            invariant
                i <= d@.len(),
                r@ == seq!['-'] + d@.take(i as int),
            decreases d@.len() - i,
        {
            r.push(d[i]);
            i = i + 1;
            assert(d@.take(i as int) =~= d@.take(i - 1).push(d@[i - 1]));
        }
        assert(d@.take(d@.len() as int) =~= d@);
        r
    } else {
        decimal_u128(n as u128)
    }
}

/// Appends `b` to `a`.
pub fn extend_chars(a: &mut Vec<char>, b: &[char])
    ensures
        final(a)@ == old(a)@ + b@,
{
    let mut i: usize = 0;
    let ghost a0 = a@;
    while i < b.len()
        invariant
            i <= b@.len(),
            a@ == a0 + b@.take(i as int),
        decreases b@.len() - i,
    {
        a.push(b[i]);
        i = i + 1;
        assert(b@.take(i as int) =~= b@.take(i - 1).push(b@[i - 1]));
    }
    assert(b@.take(b@.len() as int) =~= b@);
}

/// Appends the characters of a string slice to `a`.
pub fn extend_str(a: &mut Vec<char>, b: &str)
    ensures
        final(a)@ == old(a)@ + b@,
{
    let v = char_vec(b);
    extend_chars(a, v.as_slice());
}

/// The position of the first `c` in `s`, or -1.
pub open spec fn index_of(s: Seq<char>, c: char) -> int
    decreases s.len(),
{
    if s.len() == 0 {
        -1
    } else if s[0] == c {
        0
    } else {
        let r = index_of(s.drop_first(), c);
        if r < 0 { -1 } else { r + 1 }
    }
}

pub proof fn lemma_index_of(s: Seq<char>, c: char)
    ensures
        -1 <= index_of(s, c) < s.len(),
        index_of(s, c) >= 0 ==> s[index_of(s, c)] == c,
        forall|j: int| 0 <= j < s.len() && (index_of(s, c) < 0 || j < index_of(s, c)) ==> s[j] != c,
    decreases s.len(),
{
    if s.len() > 0 && s[0] != c {
        lemma_index_of(s.drop_first(), c);
        assert forall|j: int| 0 <= j < s.len() && (index_of(s, c) < 0 || j < index_of(s, c)) implies s[j] != c by {
            if j > 0 {
                assert(s.drop_first()[j - 1] == s[j]);
            }
        }
    }
}

/// A position is the first `c` when all before it differ and it holds `c`.
pub proof fn lemma_index_of_unique(s: Seq<char>, c: char, k: int)
    requires
        -1 <= k < s.len(),
        k >= 0 ==> s[k] == c,
        forall|j: int| 0 <= j < s.len() && (k < 0 || j < k) ==> s[j] != c,
    ensures
        index_of(s, c) == k,
{
    lemma_index_of(s, c);
    let r = index_of(s, c);
    if r >= 0 && (k < 0 || r < k) {
        assert(s[r] != c);
    }
    if k >= 0 && (r < 0 || k < r) {
        assert(s[k] != c);
    }
}

/// The position of the first `c` in `s[from..]`, counted from the start of `s`.
pub fn find_char_from(s: &[char], c: char, from: usize) -> (r: Option<usize>)
    requires
        from <= s@.len(),
    ensures
        match r {
            Some(i) => from <= i < s@.len() && index_of(s@.skip(from as int), c) == i - from,
            None => index_of(s@.skip(from as int), c) == -1,
        },
{
    let mut i = from;
    while i < s.len()
        invariant
            from <= i <= s@.len(),
            forall|j: int| from <= j < i ==> s@[j] != c,
        decreases s@.len() - i,
    {
        if s[i] == c {
            proof {
                lemma_index_of_unique(s@.skip(from as int), c, i - from);
            }
            return Some(i);
        }
        i = i + 1;
    }
    proof {
        lemma_index_of_unique(s@.skip(from as int), c, -1);
    }
    None
}

pub proof fn lemma_skip_ws_from(s: Seq<char>, i: int)
    requires
        0 <= i <= s.len(),
    ensures
        i <= skip_ws_from(s, i) <= s.len(),
        skip_ws_from(s, i) < s.len() ==> !spec_is_whitespace(s[skip_ws_from(s, i)]),
        forall|j: int| i <= j < skip_ws_from(s, i) ==> spec_is_whitespace(s[j]),
    decreases s.len() - i,
{
    if i < s.len() && spec_is_whitespace(s[i]) {
        lemma_skip_ws_from(s, i + 1);
    }
}

/// Skipping whitespace from `i` in `s` is skipping it from 0 in `s[i..]`.
pub proof fn lemma_skip_ws_from_shift(s: Seq<char>, i: int, j: int)
    requires
        0 <= i <= j <= s.len(),
    ensures
        skip_ws_from(s.skip(i), j - i) == skip_ws_from(s, j) - i,
    decreases s.len() - j,
{
    if j < s.len() {
        assert(s.skip(i)[j - i] == s[j]);
        if spec_is_whitespace(s[j]) {
            lemma_skip_ws_from_shift(s, i, j + 1);
        }
    }
}

/// The position of the first whitespace character in `s`, or -1.
pub open spec fn ws_index(s: Seq<char>) -> int
    decreases s.len(),
{
    if s.len() == 0 {
        -1
    } else if spec_is_whitespace(s[0]) {
        0
    } else {
        let r = ws_index(s.drop_first());
        if r < 0 { -1 } else { r + 1 }
    }
}

pub proof fn lemma_ws_index(s: Seq<char>)
    ensures
        -1 <= ws_index(s) < s.len(),
        ws_index(s) >= 0 ==> spec_is_whitespace(s[ws_index(s)]),
        forall|j: int| 0 <= j < s.len() && (ws_index(s) < 0 || j < ws_index(s)) ==> !spec_is_whitespace(s[j]),
    decreases s.len(),
{
    if s.len() > 0 && !spec_is_whitespace(s[0]) {
        lemma_ws_index(s.drop_first());
        assert forall|j: int| 0 <= j < s.len() && (ws_index(s) < 0 || j < ws_index(s)) implies !spec_is_whitespace(s[j]) by {
            if j > 0 {
                assert(s.drop_first()[j - 1] == s[j]);
            }
        }
    }
}

pub proof fn lemma_ws_index_unique(s: Seq<char>, k: int)
    requires
        -1 <= k < s.len(),
        k >= 0 ==> spec_is_whitespace(s[k]),
        forall|j: int| 0 <= j < s.len() && (k < 0 || j < k) ==> !spec_is_whitespace(s[j]),
    ensures
        ws_index(s) == k,
{
    lemma_ws_index(s);
    let r = ws_index(s);
    if r >= 0 && (k < 0 || r < k) {
        assert(!spec_is_whitespace(s[r]));
    }
    if k >= 0 && (r < 0 || k < r) {
        assert(spec_is_whitespace(s[k]));
    }
}

/// `str::split_whitespace`: the maximal runs of non-whitespace characters, in order.
pub open spec fn spec_words(s: Seq<char>) -> Seq<Seq<char>>
    decreases s.len(),
{
    let a = skip_ws_from(s, 0);
    if a >= s.len() {
        Seq::empty()
    } else {
        let rest = s.skip(a);
        let e = ws_index(rest);
        if e < 0 {
            seq![rest]
        } else {
            proof {
                lemma_skip_ws_from(s, 0);
                lemma_ws_index(rest);
                assert(rest[0] == s[a]);
            }
            seq![rest.take(e)] + spec_words(rest.skip(e))
        }
    }
}

/// The words of a string slice.
pub fn words(text: &[char]) -> (r: Vec<Vec<char>>)
    ensures
        r@.map_values(|w: Vec<char>| w@) == spec_words(text@),
{
    let mut out: Vec<Vec<char>> = Vec::new();
    let mut pos: usize = 0;
    assert(text@.skip(0) =~= text@);
    loop
        invariant
            pos <= text@.len(),
            spec_words(text@) == out@.map_values(|w: Vec<char>| w@) + spec_words(text@.skip(pos as int)),
        decreases text@.len() - pos,
    {
        let ghost t = text@.skip(pos as int);
        let mut a = pos;
        while a < text.len() && is_whitespace(text[a])
            invariant
                pos <= a <= text@.len(),
                skip_ws_from(text@, pos as int) == skip_ws_from(text@, a as int),
            decreases text@.len() - a,
        {
            a = a + 1;
        }
        proof {
            lemma_skip_ws_from_shift(text@, pos as int, pos as int);
            assert(t.skip(a - pos) =~= text@.skip(a as int));
        }
        if a == text.len() {
            proof {
                assert(out@.map_values(|w: Vec<char>| w@) + Seq::<Seq<char>>::empty() =~= out@.map_values(|w: Vec<char>| w@));
            }
            return out;
        }
        let mut e = a;
        while e < text.len() && !is_whitespace(text[e])
            invariant
                a <= e <= text@.len(),
                forall|j: int| a <= j < e ==> !spec_is_whitespace(text@[j]),
            decreases text@.len() - e,
        {
            e = e + 1;
        }
        let ghost rest = text@.skip(a as int);
        let w = slice_chars(text, a, e);
        proof {
            if e < text@.len() {
                lemma_ws_index_unique(rest, e - a);
                assert(w@ =~= rest.take(e - a));
                assert(rest.skip(e - a) =~= text@.skip(e as int));
            } else {
                lemma_ws_index_unique(rest, -1);
                assert(w@ =~= rest);
                assert(text@.skip(e as int) =~= Seq::<char>::empty());
                assert(spec_words(Seq::<char>::empty()) =~= Seq::<Seq<char>>::empty());
            }
        }
        let ghost before = out@.map_values(|w: Vec<char>| w@);
        out.push(w);
        proof {
            assert(out@.map_values(|w: Vec<char>| w@) =~= before.push(w@));
        }
        pos = e;
    }
}

/// Words joined by `sep`, as `[&str]::join` does.
pub open spec fn spec_join(ws: Seq<Seq<char>>, sep: Seq<char>) -> Seq<char>
    decreases ws.len(),
{
    if ws.len() == 0 {
        Seq::empty()
    } else if ws.len() == 1 {
        ws[0]
    } else {
        spec_join(ws.drop_last(), sep) + sep + ws.last()
    }
}

/// `ws[lo..hi]` joined by single spaces.
pub fn join_with_space(ws: &Vec<Vec<char>>, lo: usize, hi: usize) -> (r: Vec<char>)
    requires
        lo <= hi <= ws@.len(),
    ensures
        r@ == spec_join(ws@.map_values(|w: Vec<char>| w@).subrange(lo as int, hi as int), seq![' ']),
{
    let ghost all = ws@.map_values(|w: Vec<char>| w@);
    let mut r: Vec<char> = Vec::new();
    let mut i = lo;
    assert(all.subrange(lo as int, lo as int) =~= Seq::<Seq<char>>::empty());
    while i < hi
        invariant
            lo <= i <= hi,
            hi <= ws@.len(),
            all == ws@.map_values(|w: Vec<char>| w@),
            r@ == spec_join(all.subrange(lo as int, i as int), seq![' ']),
        decreases hi - i,
    {
        if i > lo {
            r.push(' ');
        }
        let ghost prev = r@;
        extend_chars(&mut r, ws[i].as_slice());
        proof {
            let sub = all.subrange(lo as int, i + 1);
            assert(sub.drop_last() =~= all.subrange(lo as int, i as int));
            assert(sub.last() == all[i as int]);
            assert(all[i as int] == ws@[i as int]@);
            if i == lo {
                assert(sub.len() == 1);
                assert(r@ =~= sub[0]);
            } else {
                assert(r@ =~= spec_join(sub.drop_last(), seq![' ']) + seq![' '] + sub.last());
            }
        }
        i = i + 1;
    }
    r
}

/// All of `ws` joined by `sep`, as `[String]::join` does.
pub fn join_with(ws: &Vec<Vec<char>>, sep: &[char]) -> (r: Vec<char>)
    ensures
        r@ == spec_join(ws@.map_values(|w: Vec<char>| w@), sep@),
{
    let ghost all = ws@.map_values(|w: Vec<char>| w@);
    let mut r: Vec<char> = Vec::new();
    let mut i: usize = 0;
    assert(all.take(0) =~= Seq::<Seq<char>>::empty());
    while i < ws.len()
        invariant
            i <= ws@.len(),
            all == ws@.map_values(|w: Vec<char>| w@),
            r@ == spec_join(all.take(i as int), sep@),
        decreases ws@.len() - i,
    {
        if i > 0 {
            extend_chars(&mut r, sep);
        }
        extend_chars(&mut r, ws[i].as_slice());
        proof {
            let sub = all.take(i + 1);
            assert(sub.drop_last() =~= all.take(i as int));
            assert(sub.last() == ws@[i as int]@);
            if i == 0 {
                assert(r@ =~= sub[0]);
            } else {
                assert(r@ =~= spec_join(sub.drop_last(), sep@) + sep@ + sub.last());
            }
        }
        i = i + 1;
    }
    assert(all.take(ws@.len() as int) =~= all);
    r
}

} // verus!
