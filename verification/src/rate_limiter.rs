//! In-memory token-bucket rate limiter, keyed by user, by IP and client id, or by IP.
//!
//! Every (key, category) pair owns a bucket that holds up to `max` tokens and refills
//! continuously at `max` tokens per window. A request takes one token; when the bucket
//! holds less than one token the request is refused together with the time to wait.
//! Token amounts are kept exactly: a bucket stores `tokens * window_nanos`, so that a
//! refill of `elapsed` nanoseconds adds exactly `elapsed * max` units.

use vstd::prelude::*;
use crate::client_ip::IpAddress;
use crate::text::{char_vec, contains_str, spec_contains, spec_starts_with, starts_with_str};

verus! {

/// What a request is doing, for the purpose of choosing its limit.
#[derive(Clone, Copy, PartialEq, Eq, Structural, Debug, Hash)]
pub enum RateLimitCategory {
    Login,
    Register,
    ForgotPassword,
    Passwordless,
    Ingestion,
    Vote,
    Comment,
    Assistant,
    SpikeArrest,
    General,
}

/// Nanoseconds in a second.
pub const NANOS_PER_SEC: u64 = 1_000_000_000;

/// The shortest wait a refusal announces (100 ms).
pub const MIN_WAIT_NANOS: u64 = 100_000_000;

impl RateLimitCategory {
    /// `(max requests, window in seconds)` of the category.
    pub open spec fn spec_rules(self) -> (usize, u64) {
        match self {
            RateLimitCategory::Login => (5, 60),
            RateLimitCategory::Register => (3, 60),
            RateLimitCategory::ForgotPassword => (3, 3600),
            RateLimitCategory::Passwordless => (3, 300),
            RateLimitCategory::Ingestion => (10, 3600),
            RateLimitCategory::Vote => (10, 60),
            RateLimitCategory::Comment => (5, 60),
            RateLimitCategory::Assistant => (15, 60),
            RateLimitCategory::SpikeArrest => (10, 1),
            RateLimitCategory::General => (240, 60),
        }
    }

    /// The limits of the category: at most `.0` requests per `.1` seconds.
    pub fn rules(&self) -> (r: (usize, u64))
        ensures
            r == self.spec_rules(),
            1 <= r.0 <= 240,
            1 <= r.1 <= 3600,
    {
        match self {
            RateLimitCategory::Login => (5, 60),
            RateLimitCategory::Register => (3, 60),
            RateLimitCategory::ForgotPassword => (3, 3600),
            RateLimitCategory::Passwordless => (3, 300),
            RateLimitCategory::Ingestion => (10, 3600),
            RateLimitCategory::Vote => (10, 60),
            RateLimitCategory::Comment => (5, 60),
            RateLimitCategory::Assistant => (15, 60),
            RateLimitCategory::SpikeArrest => (10, 1),
            RateLimitCategory::General => (240, 60),
        }
    }

    /// Requests allowed per window.
    pub open spec fn max_requests(self) -> nat {
        self.spec_rules().0 as nat
    }

    /// The window in nanoseconds; also the number of units that make one token.
    pub open spec fn window_nanos(self) -> nat {
        (self.spec_rules().1 * NANOS_PER_SEC) as nat
    }

    /// A full bucket, in units.
    pub open spec fn capacity(self) -> nat {
        self.max_requests() * self.window_nanos()
    }
}

proof fn lemma_category_bounds(c: RateLimitCategory)
    ensures
        1 <= c.max_requests() <= 240,
        NANOS_PER_SEC <= c.window_nanos() <= 3600 * NANOS_PER_SEC,
        c.window_nanos() <= c.capacity() <= 240 * 3600 * NANOS_PER_SEC,
{
    let m = c.max_requests();
    let w = c.window_nanos();
    assert(w <= m * w <= 240 * (3600 * NANOS_PER_SEC)) by (nonlinear_arith)
        requires
            1 <= m <= 240,
            w <= 3600 * NANOS_PER_SEC,
    ;
}

/// Who a limit applies to.
pub enum RateLimitKey {
    /// A signed-in user (the user id).
    User(u128),
    /// An IP address together with the browser's `X-Client-ID`.
    IpClient(IpAddress, String),
    /// An IP address alone.
    Ip(IpAddress),
}

/// The mathematical value of a key.
pub enum RateLimitKeyView {
    User(u128),
    IpClient(IpAddress, Seq<char>),
    Ip(IpAddress),
}

impl View for RateLimitKey {
    type V = RateLimitKeyView;

    open spec fn view(&self) -> RateLimitKeyView {
        match self {
            RateLimitKey::User(u) => RateLimitKeyView::User(*u),
            RateLimitKey::IpClient(ip, s) => RateLimitKeyView::IpClient(*ip, s@),
            RateLimitKey::Ip(ip) => RateLimitKeyView::Ip(*ip),
        }
    }
}

impl RateLimitKey {
    /// A copy of the key.
    pub fn duplicate(&self) -> (r: RateLimitKey)
        ensures
            r@ == self@,
    {
        match self {
            RateLimitKey::User(u) => RateLimitKey::User(*u),
            RateLimitKey::IpClient(ip, s) => RateLimitKey::IpClient(*ip, s.clone()),
            RateLimitKey::Ip(ip) => RateLimitKey::Ip(*ip),
        }
    }

    /// Whether two keys name the same subject.
    pub fn same_as(&self, other: &RateLimitKey) -> (b: bool)
        ensures
            b == (self@ == other@),
    {
        match (self, other) {
            (RateLimitKey::User(a), RateLimitKey::User(b)) => *a == *b,
            (RateLimitKey::IpClient(a, s), RateLimitKey::IpClient(b, t)) => *a == *b && *s == *t,
            (RateLimitKey::Ip(a), RateLimitKey::Ip(b)) => *a == *b,
            _ => false,
        }
    }
}

/// The bucket of one (key, category) pair.
pub struct Bucket {
    pub key: RateLimitKey,
    pub category: RateLimitCategory,
    /// Tokens held, in units of `1 / window_nanos` token.
    pub tokens: u64,
    /// When the bucket was last refilled, in nanoseconds.
    pub last: u64,
}

pub struct BucketView {
    pub key: RateLimitKeyView,
    pub category: RateLimitCategory,
    pub tokens: nat,
    pub last: nat,
}

impl View for Bucket {
    type V = BucketView;

    open spec fn view(&self) -> BucketView {
        BucketView {
            key: self.key@,
            category: self.category,
            tokens: self.tokens as nat,
            last: self.last as nat,
        }
    }
}

/// Nanoseconds from `last` to `now`, or zero if `now` is earlier.
pub open spec fn elapsed(last: nat, now: nat) -> nat {
    if now >= last {
        (now - last) as nat
    } else {
        0
    }
}

/// The units a bucket holds at `now`: a bucket seen for the first time is full;
/// otherwise it gains `max` units per elapsed nanosecond, up to its capacity.
pub open spec fn refill(entry: Option<(nat, nat)>, c: RateLimitCategory, now: nat) -> nat {
    match entry {
        None => c.capacity(),
        Some((tokens, last)) => {
            let gained = tokens + elapsed(last, now) * c.max_requests();
            if gained > c.capacity() {
                c.capacity()
            } else {
                gained
            }
        },
    }
}

/// The wait announced to a refused request: the time until the bucket holds a whole
/// token again (rounded up to a nanosecond), but never less than 100 ms.
pub open spec fn wait_nanos(units: nat, c: RateLimitCategory) -> nat {
    let missing = c.window_nanos() - units;
    let w = (missing + c.max_requests() - 1) / (c.max_requests() as int);
    if w < MIN_WAIT_NANOS {
        MIN_WAIT_NANOS as nat
    } else {
        w as nat
    }
}

/// One request against a bucket at `now`: the units left afterwards, and the verdict.
pub open spec fn take(entry: Option<(nat, nat)>, c: RateLimitCategory, now: nat) -> (
    nat,
    Result<(), nat>,
) {
    let units = refill(entry, c, now);
    if units < c.window_nanos() {
        (units, Err(wait_nanos(units, c)))
    } else {
        ((units - c.window_nanos()) as nat, Ok(()))
    }
}

/// The bucket state `e` has been idle for at least its whole window at `now`.
pub open spec fn expired(e: Option<(nat, nat)>, c: RateLimitCategory, now: nat) -> bool {
    match e {
        Some((_, last)) => elapsed(last, now) >= c.window_nanos(),
        None => false,
    }
}

/// The bucket has been idle for at least its whole window at `now`.
pub open spec fn bucket_idle(b: BucketView, now: nat) -> bool {
    elapsed(b.last, now) >= b.category.window_nanos()
}

/// A pair's state was left as it was, or forgotten because it had gone idle.
pub open spec fn kept_or_expired(
    before: Option<(nat, nat)>,
    after: Option<(nat, nat)>,
    c: RateLimitCategory,
    now: nat,
) -> bool {
    after == before || (after is None && expired(before, c, now))
}

/// The bucket `b` belongs to `(k, c)`.
pub open spec fn owns(b: BucketView, k: RateLimitKeyView, c: RateLimitCategory) -> bool {
    b.key == k && b.category == c
}

/// The first position at or after `i` whose bucket belongs to `(k, c)`, or -1.
pub open spec fn first_owner(s: Seq<BucketView>, k: RateLimitKeyView, c: RateLimitCategory, i: int) -> int
    decreases s.len() - i,
{
    if i < 0 || i >= s.len() {
        -1
    } else if owns(s[i], k, c) {
        i
    } else {
        first_owner(s, k, c, i + 1)
    }
}

/// The state `(units, last refill)` of the bucket of `(k, c)`, if there is one.
pub open spec fn lookup(s: Seq<BucketView>, k: RateLimitKeyView, c: RateLimitCategory) -> Option<(nat, nat)> {
    let i = first_owner(s, k, c, 0);
    if i < 0 {
        None
    } else {
        Some((s[i].tokens, s[i].last))
    }
}

proof fn lemma_first_owner_range(s: Seq<BucketView>, k: RateLimitKeyView, c: RateLimitCategory, i: int)
    requires
        0 <= i,
    ensures
        first_owner(s, k, c, i) == -1 || (i <= first_owner(s, k, c, i) < s.len()
            && owns(s[first_owner(s, k, c, i)], k, c)),
        first_owner(s, k, c, i) == -1 ==> forall|j: int| i <= j < s.len() ==> !owns(s[j], k, c),
        first_owner(s, k, c, i) != -1 ==> forall|j: int|
            i <= j < first_owner(s, k, c, i) ==> !owns(s[j], k, c),
    decreases s.len() - i,
{
    if i < s.len() && !owns(s[i], k, c) {
        lemma_first_owner_range(s, k, c, i + 1);
    }
}

/// Two sequences of buckets that agree on every bucket's owner agree on first owners.
proof fn lemma_first_owner_same_keys(
    s: Seq<BucketView>,
    t: Seq<BucketView>,
    k: RateLimitKeyView,
    c: RateLimitCategory,
    i: int,
)
    requires
        s.len() == t.len(),
        forall|j: int| 0 <= j < s.len() ==> s[j].key == t[j].key && s[j].category == t[j].category,
    ensures
        first_owner(s, k, c, i) == first_owner(t, k, c, i),
    decreases s.len() - i,
{
    if 0 <= i < s.len() && !owns(s[i], k, c) {
        lemma_first_owner_same_keys(s, t, k, c, i + 1);
    }
}

/// Appending a bucket leaves every earlier first owner in place.
proof fn lemma_first_owner_push(
    s: Seq<BucketView>,
    b: BucketView,
    k: RateLimitKeyView,
    c: RateLimitCategory,
    i: int,
)
    requires
        0 <= i <= s.len(),
    ensures
        first_owner(s.push(b), k, c, i) == if first_owner(s, k, c, i) != -1 {
            first_owner(s, k, c, i)
        } else if owns(b, k, c) {
            s.len() as int
        } else {
            -1
        },
    decreases s.len() - i,
{
    if i < s.len() {
        assert(s.push(b)[i] == s[i]);
        if !owns(s[i], k, c) {
            lemma_first_owner_push(s, b, k, c, i + 1);
        }
    } else {
        assert(s.push(b)[i] == b);
        if !owns(b, k, c) {
            assert(first_owner(s.push(b), k, c, i + 1) == -1);
        }
    }
}

/// No two buckets belong to the same pair, and no bucket holds more than its capacity.
pub open spec fn buckets_wf(s: Seq<BucketView>) -> bool {
    &&& forall|i: int, j: int|
        0 <= i < j < s.len() ==> !(#[trigger] s[i].key == #[trigger] s[j].key && s[i].category
            == s[j].category)
    &&& forall|i: int| 0 <= i < s.len() ==> #[trigger] s[i].tokens <= s[i].category.capacity()
}

/// The limiter: one bucket per (key, category) pair seen, and a counter of checks
/// that triggers a sweep of idle buckets every 5000 checks.
///
/// The buckets are a vector in which no pair occurs twice (`buckets_wf`), where a hash
/// map would be keyed by the pair: a key can hold a client id string, and vstd's
/// `HashMap` specification gives nothing for a key with a `String` in it, so a lookup
/// there could not be proved to find the pair's bucket.
pub struct RateLimiter {
    buckets: Vec<Bucket>,
    check_count: u64,
}

/// How many checks pass between two sweeps of idle buckets.
pub const SWEEP_EVERY: u64 = 5000;

impl RateLimiter {
    /// The buckets, in order.
    pub closed spec fn buckets(&self) -> Seq<BucketView> {
        self.buckets@.map_values(|b: Bucket| b@)
    }

    /// The number of checks made so far.
    pub closed spec fn checks(&self) -> nat {
        self.check_count as nat
    }

    /// The limiter's invariant.
    pub open spec fn wf(&self) -> bool {
        buckets_wf(self.buckets())
    }

    /// The state of the bucket of `(k, c)`.
    pub open spec fn entry(&self, k: RateLimitKeyView, c: RateLimitCategory) -> Option<(nat, nat)> {
        lookup(self.buckets(), k, c)
    }

    /// A limiter that has seen no request.
    pub fn new() -> (r: RateLimiter)
        ensures
            r.wf(),
            r.checks() == 0,
            forall|k: RateLimitKeyView, c: RateLimitCategory| r.entry(k, c) is None,
    {
        let r = RateLimiter { buckets: Vec::new(), check_count: 0 };
        assert(r.buckets() =~= Seq::<BucketView>::empty());
        r
    }

    /// Drops the buckets that have been idle for at least their whole window.
    fn sweep(&mut self, now: u64)
        requires
            old(self).wf(),
        ensures
            final(self).wf(),
            final(self).checks() == old(self).checks(),
            forall|k: RateLimitKeyView, c: RateLimitCategory| {
                let before = #[trigger] old(self).entry(k, c);
                let after = final(self).entry(k, c);
                kept_or_expired(before, after, c, now as nat)
            },
            forall|k: RateLimitKeyView, c: RateLimitCategory|
                #[trigger] final(self).entry(k, c) == if expired(old(self).entry(k, c), c, now as nat) {
                    None
                } else {
                    old(self).entry(k, c)
                },
    {
        let mut i: usize = 0;
        while i < self.buckets.len()
            invariant
                self.wf(),
                self.checks() == old(self).checks(),
                i <= self.buckets@.len(),
                forall|k: RateLimitKeyView, c: RateLimitCategory| {
                    let before = #[trigger] old(self).entry(k, c);
                    let after = self.entry(k, c);
                    kept_or_expired(before, after, c, now as nat)
                },
                forall|j: int| 0 <= j < i ==> !#[trigger] bucket_idle(self.buckets()[j], now as nat),
            decreases self.buckets@.len() - i,
        {
            let window = window_nanos_of(self.buckets[i].category);
            let last = self.buckets[i].last;
            let idle = if now >= last { now - last } else { 0 };
            if idle >= window {
                let ghost s = self.buckets();
                proof {
                    assert(s[i as int] == self.buckets@[i as int]@);
                }
                let _ = self.buckets.remove(i);
                proof {
                    assert(self.buckets() =~= s.remove(i as int));
                    lemma_remove_keeps_wf(s, i as int);
                    assert forall|k: RateLimitKeyView, c: RateLimitCategory|
                        #[trigger] lookup(self.buckets(), k, c) == if owns(s[i as int], k, c) {
                            None
                        } else {
                            lookup(s, k, c)
                        } by {
                        lemma_lookup_remove(s, i as int, k, c);
                    }
                    assert forall|k: RateLimitKeyView, c: RateLimitCategory| owns(s[i as int], k, c)
                        implies #[trigger] lookup(s, k, c) == Some((s[i as int].tokens, s[i as int].last)) by {
                        lemma_lookup_at(s, i as int);
                    }
                }
            } else {
                proof {
                    assert(self.buckets()[i as int] == self.buckets@[i as int]@);
                }
                i = i + 1;
            }
        }
        proof {
            assert forall|k: RateLimitKeyView, c: RateLimitCategory|
                #[trigger] self.entry(k, c) == if expired(old(self).entry(k, c), c, now as nat) {
                    None
                } else {
                    old(self).entry(k, c)
                } by {
                let sb = self.buckets();
                lemma_first_owner_range(sb, k, c, 0);
                let f = first_owner(sb, k, c, 0);
                if f >= 0 {
                    assert(!bucket_idle(sb[f], now as nat));
                    assert(!expired(self.entry(k, c), c, now as nat));
                }
            }
        }
    }

    /// One request of `key` in `category` at `now` (nanoseconds of a monotonic clock).
    /// Refills the bucket for the time elapsed since its last use, then takes one token:
    /// `Ok` when a whole token was there, otherwise `Err` with the nanoseconds to wait.
    /// Every 5000 checks, buckets idle for their whole window are dropped first; a
    /// dropped bucket was full anyway, so the verdict is the same as without the sweep.
    #[verifier::spinoff_prover]
    #[verifier::rlimit(40)]
    pub fn check(&mut self, key: &RateLimitKey, category: RateLimitCategory, now: u64) -> (r: Result<(), u64>)
        requires
            old(self).wf(),
        ensures
            final(self).wf(),
            final(self).checks() == if old(self).checks() == u64::MAX { 0 } else { old(self).checks() + 1 },
            ({
                let (units, verdict) = take(old(self).entry(key@, category), category, now as nat);
                &&& final(self).entry(key@, category) == Some((units, now as nat))
                &&& match r {
                    Ok(()) => verdict == Ok::<(), nat>(()),
                    Err(w) => verdict == Err::<(), nat>(w as nat),
                }
            }),
            forall|k: RateLimitKeyView, c: RateLimitCategory| !(k == key@ && c == category) ==> {
                let before = #[trigger] old(self).entry(k, c);
                let after = final(self).entry(k, c);
                kept_or_expired(before, after, c, now as nat)
            },
            check_post(*old(self), *final(self), key@, category, now as nat, r),
    {
        let count = self.check_count;
        self.check_count = if count == u64::MAX { 0 } else { count + 1 };
        let ghost pre = *self;
        let ghost before = self.buckets();
        if count % SWEEP_EVERY == 0 {
            self.sweep(now);
        }
        let ghost swept = self.buckets();
        proof {
            assert forall|k: RateLimitKeyView, c: RateLimitCategory|
                kept_or_expired(#[trigger] lookup(before, k, c), lookup(swept, k, c), c, now as nat) by {
                assert(pre.entry(k, c) == lookup(before, k, c));
            }
            // the sweep only forgets full buckets, which a request sees as new ones
            let e0 = lookup(before, key@, category);
            let e1 = lookup(swept, key@, category);
            if e1 != e0 {
                lemma_refill_idle(e0, category, now as nat);
            }
            assert(take(e1, category, now as nat) == take(e0, category, now as nat));
        }
        let (max_requests, window_secs) = category.rules();
        proof { lemma_category_bounds(category); }
        let max = max_requests as u64;
        let window: u64 = window_secs * NANOS_PER_SEC;
        let capacity: u64 = max * window;
        proof {
            assert(capacity == category.capacity());
        }
        let found = self.find_bucket(key, category);
        proof {
            lemma_first_owner_range(swept, key@, category, 0);
        }
        let units: u64 = match found {
            None => capacity,
            Some(i) => {
                let b = &self.buckets[i];
                let idle = if now >= b.last { now - b.last } else { 0 };
                let idle_capped = if idle > window { window } else { idle };
                proof {
                    assert(self.buckets()[i as int] == b@);
                    assert(swept[i as int].tokens <= swept[i as int].category.capacity());
                    assert(b.tokens <= capacity);
                    assert(idle_capped * max <= window * max) by (nonlinear_arith)
                        requires idle_capped <= window, max >= 0;
                }
                let gained = b.tokens + idle_capped * max;
                proof {
                    let t = b.tokens as nat;
                    let e = elapsed(b.last as nat, now as nat);
                    let m = max as nat;
                    if idle > window {
                        assert(e * m >= window * m) by (nonlinear_arith)
                            requires e >= window, m >= 0;
                        assert(window * m == capacity) by (nonlinear_arith)
                            requires capacity == m * window;
                    }
                }
                if gained > capacity { capacity } else { gained }
            },
        };
        proof {
            assert(units == refill(lookup(swept, key@, category), category, now as nat));
        }
        let result: Result<(), u64>;
        let left: u64;
        if units < window {
            let missing = window - units;
            let w = (missing + max - 1) / max;
            result = Err(if w < MIN_WAIT_NANOS { MIN_WAIT_NANOS } else { w });
            left = units;
        } else {
            result = Ok(());
            left = units - window;
        }
        let ghost s = self.buckets();
        match found {
            None => {
                let b = Bucket { key: key.duplicate(), category, tokens: left, last: now };
                self.buckets.push(b);
                proof {
                    assert(self.buckets() =~= s.push(b@));
                    lemma_push_new(s, b@);
                    assert forall|k: RateLimitKeyView, c: RateLimitCategory| !(k == key@ && c == category)
                        implies kept_or_expired(#[trigger] lookup(before, k, c), lookup(self.buckets(), k, c), c, now as nat) by {
                        assert(lookup(before, k, c) == lookup(before, k, c));
                    }
                }
            },
            Some(i) => {
                let b = Bucket { key: key.duplicate(), category, tokens: left, last: now };
                self.buckets.set(i, b);
                proof {
                    assert(self.buckets() =~= s.update(i as int, b@));
                    lemma_update_owner(s, i as int, b@);
                    assert forall|k: RateLimitKeyView, c: RateLimitCategory| !(k == key@ && c == category)
                        implies kept_or_expired(#[trigger] lookup(before, k, c), lookup(self.buckets(), k, c), c, now as nat) by {
                        assert(lookup(before, k, c) == lookup(before, k, c));
                    }
                }
            },
        }
        result
    }

    /// The position of the bucket of `(key, category)`, if there is one.
    fn find_bucket(&self, key: &RateLimitKey, category: RateLimitCategory) -> (r: Option<usize>)
        ensures
            match r {
                None => first_owner(self.buckets(), key@, category, 0) == -1,
                Some(i) => first_owner(self.buckets(), key@, category, 0) == i && i < self.buckets().len(),
            },
    {
        let mut i: usize = 0;
        while i < self.buckets.len()
            invariant
                i <= self.buckets@.len(),
                first_owner(self.buckets(), key@, category, 0) == first_owner(self.buckets(), key@, category, i as int),
            decreases self.buckets@.len() - i,
        {
            let b = &self.buckets[i];
            proof { assert(self.buckets()[i as int] == b@); }
            if b.category == category && b.key.same_as(key) {
                return Some(i);
            }
            i = i + 1;
        }
        None
    }
}

/// The window of a category in nanoseconds.
fn window_nanos_of(c: RateLimitCategory) -> (w: u64)
    ensures
        w == c.window_nanos(),
{
    let (_, secs) = c.rules();
    secs * NANOS_PER_SEC
}

/// A bucket idle for a whole window refills to full, exactly like a bucket never seen.
proof fn lemma_refill_idle(e: Option<(nat, nat)>, c: RateLimitCategory, now: nat)
    requires
        expired(e, c, now),
    ensures
        refill(e, c, now) == refill(None, c, now),
{
    let (t, last) = e.unwrap();
    let m = c.max_requests();
    let el = elapsed(last, now);
    let w = c.window_nanos();
    assert(el * m >= w * m) by (nonlinear_arith)
        requires el >= w;
    assert(w * m == m * w) by (nonlinear_arith);
}

/// With distinct owners, a bucket is the first (and only) owner of its own pair.
proof fn lemma_lookup_at(s: Seq<BucketView>, i: int)
    requires
        buckets_wf(s),
        0 <= i < s.len(),
    ensures
        first_owner(s, s[i].key, s[i].category, 0) == i,
        lookup(s, s[i].key, s[i].category) == Some((s[i].tokens, s[i].last)),
{
    let k = s[i].key;
    let c = s[i].category;
    lemma_first_owner_range(s, k, c, 0);
    let f = first_owner(s, k, c, 0);
    if f == -1 {
    } else if f < i {
        assert(s[f].key == s[i].key && s[f].category == s[i].category);
    } else if f > i {
    }
}

proof fn lemma_remove_keeps_wf(s: Seq<BucketView>, r: int)
    requires
        buckets_wf(s),
        0 <= r < s.len(),
    ensures
        buckets_wf(s.remove(r)),
{
    let t = s.remove(r);
    assert forall|i: int, j: int| 0 <= i < j < t.len() implies !(#[trigger] t[i].key == #[trigger] t[j].key
        && t[i].category == t[j].category) by {
        let a = if i < r { i } else { i + 1 };
        let b = if j < r { j } else { j + 1 };
        assert(t[i] == s[a] && t[j] == s[b]);
        assert(s[a].key == s[a].key);
        assert(s[b].key == s[b].key);
    }
    assert forall|i: int| 0 <= i < t.len() implies #[trigger] t[i].tokens <= t[i].category.capacity() by {
        let a = if i < r { i } else { i + 1 };
        assert(t[i] == s[a]);
        assert(s[a].tokens == s[a].tokens);
    }
}

/// Removing a bucket forgets its pair and leaves every other pair's state as it was.
proof fn lemma_lookup_remove(s: Seq<BucketView>, r: int, k: RateLimitKeyView, c: RateLimitCategory)
    requires
        buckets_wf(s),
        0 <= r < s.len(),
    ensures
        lookup(s.remove(r), k, c) == if owns(s[r], k, c) {
            None
        } else {
            lookup(s, k, c)
        },
{
    let t = s.remove(r);
    lemma_remove_keeps_wf(s, r);
    lemma_first_owner_range(s, k, c, 0);
    lemma_first_owner_range(t, k, c, 0);
    let fs = first_owner(s, k, c, 0);
    let ft = first_owner(t, k, c, 0);
    if owns(s[r], k, c) {
        if ft != -1 {
            let a = if ft < r { ft } else { ft + 1 };
            assert(t[ft] == s[a]);
            assert(s[a].key == s[r].key && s[a].category == s[r].category);
            assert(s[r].key == s[r].key);
            assert(s[a].key == s[a].key);
        }
    } else {
        if fs != -1 {
            let b = if fs < r { fs } else { fs - 1 };
            assert(t[b] == s[fs]);
            lemma_lookup_at(t, b);
            lemma_lookup_at(s, fs);
        } else if ft != -1 {
            let a = if ft < r { ft } else { ft + 1 };
            assert(t[ft] == s[a]);
        }
    }
}

/// Appending the bucket of a pair that had none keeps the invariant and gives that
/// pair its new state, leaving the others alone.
proof fn lemma_push_new(s: Seq<BucketView>, b: BucketView)
    requires
        buckets_wf(s),
        first_owner(s, b.key, b.category, 0) == -1,
        b.tokens <= b.category.capacity(),
    ensures
        buckets_wf(s.push(b)),
        lookup(s.push(b), b.key, b.category) == Some((b.tokens, b.last)),
        forall|k: RateLimitKeyView, c: RateLimitCategory| !(k == b.key && c == b.category) ==>
            #[trigger] lookup(s.push(b), k, c) == lookup(s, k, c),
{
    let t = s.push(b);
    lemma_first_owner_range(s, b.key, b.category, 0);
    assert forall|i: int, j: int| 0 <= i < j < t.len() implies !(#[trigger] t[i].key == #[trigger] t[j].key
        && t[i].category == t[j].category) by {
        if j == s.len() {
            assert(t[i] == s[i]);
            assert(!owns(s[i], b.key, b.category));
        } else {
            assert(t[i] == s[i] && t[j] == s[j]);
            assert(s[i].key == s[i].key);
            assert(s[j].key == s[j].key);
        }
    }
    assert forall|i: int| 0 <= i < t.len() implies #[trigger] t[i].tokens <= t[i].category.capacity() by {
        if i < s.len() {
            assert(t[i] == s[i]);
            assert(s[i].tokens == s[i].tokens);
        }
    }
    lemma_first_owner_push(s, b, b.key, b.category, 0);
    assert forall|k: RateLimitKeyView, c: RateLimitCategory| !(k == b.key && c == b.category) implies
        #[trigger] lookup(s.push(b), k, c) == lookup(s, k, c) by {
        lemma_first_owner_push(s, b, k, c, 0);
        lemma_first_owner_range(s, k, c, 0);
        let f = first_owner(s, k, c, 0);
        if f != -1 {
            assert(t[f] == s[f]);
        }
    }
}

/// Replacing the bucket at the first owner of its pair by one with the same owner keeps
/// the invariant and changes only that pair's state.
proof fn lemma_update_owner(s: Seq<BucketView>, i: int, b: BucketView)
    requires
        buckets_wf(s),
        0 <= i < s.len(),
        s[i].key == b.key && s[i].category == b.category,
        b.tokens <= b.category.capacity(),
    ensures
        buckets_wf(s.update(i, b)),
        lookup(s.update(i, b), b.key, b.category) == Some((b.tokens, b.last)),
        forall|k: RateLimitKeyView, c: RateLimitCategory| !(k == b.key && c == b.category) ==>
            #[trigger] lookup(s.update(i, b), k, c) == lookup(s, k, c),
{
    let t = s.update(i, b);
    assert forall|x: int, y: int| 0 <= x < y < t.len() implies !(#[trigger] t[x].key == #[trigger] t[y].key
        && t[x].category == t[y].category) by {
        assert(t[x].key == s[x].key && t[x].category == s[x].category);
        assert(t[y].key == s[y].key && t[y].category == s[y].category);
        assert(s[x].key == s[x].key);
        assert(s[y].key == s[y].key);
    }
    assert forall|x: int| 0 <= x < t.len() implies #[trigger] t[x].tokens <= t[x].category.capacity() by {
        if x != i {
            assert(t[x] == s[x]);
            assert(s[x].tokens == s[x].tokens);
        }
    }
    lemma_lookup_at(t, i);
    assert forall|k: RateLimitKeyView, c: RateLimitCategory| !(k == b.key && c == b.category) implies
        #[trigger] lookup(s.update(i, b), k, c) == lookup(s, k, c) by {
        lemma_first_owner_same_keys(s, t, k, c, 0);
        lemma_first_owner_range(s, k, c, 0);
        let f = first_owner(s, k, c, 0);
        if f != -1 {
            assert(f != i);
            assert(t[f] == s[f]);
        }
    }
}

/// The state of a pair after `j` requests made at the same instant `now`, starting
/// from a pair never seen before.
pub open spec fn burst_state(c: RateLimitCategory, now: nat, j: nat) -> Option<(nat, nat)> {
    if j == 0 {
        None
    } else {
        Some((((c.max_requests() - j) * c.window_nanos()) as nat, now))
    }
}

/// A subject seen for the first time may make `max` requests in the same instant, and
/// the next request in that instant is refused: the `j`-th request of such a burst
/// (counting from 0) is allowed exactly when `j < max`.
pub proof fn lemma_burst_then_refuse(c: RateLimitCategory, now: nat, j: nat)
    requires
        j <= c.max_requests(),
    ensures
        j < c.max_requests() ==> take(burst_state(c, now, j), c, now) == (
            ((c.max_requests() - (j + 1)) * c.window_nanos()) as nat,
            Ok::<(), nat>(()),
        ),
        j == c.max_requests() ==> take(burst_state(c, now, j), c, now).1 is Err,
        j < c.max_requests() ==> Some((take(burst_state(c, now, j), c, now).0, now)) == burst_state(c, now, j + 1),
{
    lemma_category_bounds(c);
    let m = c.max_requests();
    let w = c.window_nanos();
    assert(m * w == c.capacity());
    if j == 0 {
        assert((m - 1) * w == m * w - w) by (nonlinear_arith)
            requires m >= 1;
    } else {
        let units = ((m - j) * w) as nat;
        assert(elapsed(now, now) == 0);
        assert((m - j) * w <= m * w) by (nonlinear_arith)
            requires 1 <= j <= m, w >= 0;
        assert(refill(burst_state(c, now, j), c, now) == units);
        if j < m {
            assert((m - j) * w >= w) by (nonlinear_arith)
                requires j < m, w >= 0;
            assert((m - (j + 1)) * w == (m - j) * w - w) by (nonlinear_arith);
        } else {
            assert((m - j) * w == 0) by (nonlinear_arith)
                requires j == m;
        }
    }
}

/// A refused request announces a wait after which, with no other request in between,
/// the subject's next request is allowed.
pub proof fn lemma_wait_suffices(e: Option<(nat, nat)>, c: RateLimitCategory, now: nat)
    requires
        take(e, c, now).1 is Err,
    ensures
        ({
            let (units, verdict) = take(e, c, now);
            take(Some((units, now)), c, now + verdict->Err_0).1 is Ok
        }),
{
    lemma_category_bounds(c);
    let (units, verdict) = take(e, c, now);
    let wait = verdict->Err_0;
    let m = c.max_requests();
    let w = c.window_nanos();
    let missing = w - units;
    let q = (missing + m - 1) / (m as int);
    assert(q * m >= missing) by (nonlinear_arith)
        requires m >= 1, missing >= 0, q == (missing + m - 1) / (m as int);
    assert(wait >= q);
    assert(wait * m >= q * m) by (nonlinear_arith)
        requires wait >= q, m >= 0;
    assert(elapsed(now, now + wait) == wait);
    assert(m * w == c.capacity());
}

/// A refusal never announces less than 100 ms of waiting.
pub proof fn lemma_wait_floor(e: Option<(nat, nat)>, c: RateLimitCategory, now: nat)
    ensures
        take(e, c, now).1 matches Err(w) ==> w >= MIN_WAIT_NANOS,
{
}

/// A forgotten bucket answers like the kept one: when another pair's request at `now`
/// kept this pair's state or forgot it as idle (what `RateLimiter::check` promises of
/// every other pair), this pair's next request at any later instant gets the same
/// verdict and leaves the same state either way, so a request of one pair never changes
/// what another pair gets.
pub proof fn lemma_other_pairs_unaffected(
    before: Option<(nat, nat)>,
    after: Option<(nat, nat)>,
    c: RateLimitCategory,
    now: nat,
    later: nat,
)
    requires
        kept_or_expired(before, after, c, now),
        now <= later,
    ensures
        take(after, c, later) == take(before, c, later),
{
    if after != before {
        let (_, last) = before.unwrap();
        assert(elapsed(last, later) >= elapsed(last, now));
        lemma_refill_idle(before, c, later);
    }
}

/// The state and the number of admitted requests after requests of one pair at the
/// instants `times`, in order, from the state `e`.
pub open spec fn run_requests(e: Option<(nat, nat)>, c: RateLimitCategory, times: Seq<nat>) -> (
    Option<(nat, nat)>,
    nat,
)
    decreases times.len(),
{
    if times.len() == 0 {
        (e, 0)
    } else {
        let (e1, n1) = run_requests(e, c, times.drop_last());
        let (units, verdict) = take(e1, c, times.last());
        (Some((units, times.last())), n1 + if verdict is Ok { 1nat } else { 0nat })
    }
}

/// What one `RateLimiter::check` of `(key, c)` at `now` does to the pair's own state and
/// what it answers: the request is taken from the state before, the state after is what
/// remains at `now`, and `r` is the verdict (`Err` with the wait).
pub open spec fn check_step(
    pre: RateLimiter,
    post: RateLimiter,
    key: RateLimitKeyView,
    c: RateLimitCategory,
    now: nat,
    r: Result<(), u64>,
) -> bool {
    let (units, verdict) = take(pre.entry(key, c), c, now);
    &&& post.entry(key, c) == Some((units, now))
    &&& match r {
        Ok(()) => verdict == Ok::<(), nat>(()),
        Err(w) => verdict == Err::<(), nat>(w as nat),
    }
}

/// All that one `RateLimiter::check` of `(key, c)` at `now` promises: the pair's own
/// step (`check_step`), every other pair's state kept or forgotten as idle, and the
/// limiter's invariant kept.
pub open spec fn check_post(
    pre: RateLimiter,
    post: RateLimiter,
    key: RateLimitKeyView,
    c: RateLimitCategory,
    now: nat,
    r: Result<(), u64>,
) -> bool {
    &&& post.wf()
    &&& check_step(pre, post, key, c, now, r)
    &&& forall|k: RateLimitKeyView, c2: RateLimitCategory| !(k == key && c2 == c) ==> kept_or_expired(
        #[trigger] pre.entry(k, c2),
        post.entry(k, c2),
        c2,
        now,
    )
}

/// How many of the answers let the request through.
pub open spec fn admitted(rs: Seq<Result<(), u64>>) -> nat
    decreases rs.len(),
{
    if rs.len() == 0 {
        0
    } else {
        admitted(rs.drop_last()) + if rs.last() is Ok { 1nat } else { 0nat }
    }
}

/// A series of `RateLimiter::check` calls on one pair, at the instants `times`, goes as
/// `run_requests` says: the pair's state after them, and the number let through, are
/// those of `run_requests` from the pair's state before the first.
pub proof fn lemma_checks_follow_run(
    states: Seq<RateLimiter>,
    verdicts: Seq<Result<(), u64>>,
    key: RateLimitKeyView,
    c: RateLimitCategory,
    times: Seq<nat>,
)
    requires
        states.len() == times.len() + 1,
        verdicts.len() == times.len(),
        forall|i: int| 0 <= i < times.len() ==> check_step(#[trigger] states[i], states[i + 1], key, c, times[i], verdicts[i]),
    ensures
        run_requests(states[0].entry(key, c), c, times) == (states.last().entry(key, c), admitted(verdicts)),
    decreases times.len(),
{
    if times.len() > 0 {
        let n = times.len() - 1;
        let s2 = states.drop_last();
        let v2 = verdicts.drop_last();
        let t2 = times.drop_last();
        assert forall|i: int| 0 <= i < t2.len() implies check_step(#[trigger] s2[i], s2[i + 1], key, c, t2[i], v2[i]) by {
            assert(s2[i] == states[i] && s2[i + 1] == states[i + 1]);
            assert(check_step(states[i], states[i + 1], key, c, times[i], verdicts[i]));
        }
        lemma_checks_follow_run(s2, v2, key, c, t2);
        assert(s2.last() == states[n]);
        assert(check_step(states[n], states[n + 1], key, c, times[n], verdicts[n]));
        assert(states.last() == states[n + 1]);
    }
}

/// The limit over time, for the calls themselves: a series of `RateLimiter::check` calls
/// on one pair at instants that never go back lets at most `max + max · T / window`
/// requests through, `T` being the time from the first to the last call.
pub proof fn lemma_checks_window_limit(
    states: Seq<RateLimiter>,
    verdicts: Seq<Result<(), u64>>,
    key: RateLimitKeyView,
    c: RateLimitCategory,
    times: Seq<nat>,
)
    requires
        states.len() == times.len() + 1,
        verdicts.len() == times.len(),
        times.len() > 0,
        nondecreasing(times),
        forall|i: int| 0 <= i < times.len() ==> check_step(#[trigger] states[i], states[i + 1], key, c, times[i], verdicts[i]),
    ensures
        admitted(verdicts) * c.window_nanos() <= c.max_requests() * c.window_nanos() + c.max_requests() * (
        times.last() - times[0]),
{
    lemma_checks_follow_run(states, verdicts, key, c, times);
    lemma_window_limit(states[0].entry(key, c), c, times);
}

/// A fresh pair's calls at one instant: the first `max` are let through and the next is
/// refused (for a login, 5 requests pass and the sixth waits 12 seconds).
pub proof fn lemma_checks_burst(
    states: Seq<RateLimiter>,
    verdicts: Seq<Result<(), u64>>,
    key: RateLimitKeyView,
    c: RateLimitCategory,
    now: nat,
)
    requires
        states.len() == c.max_requests() + 2,
        verdicts.len() == c.max_requests() + 1,
        states[0].entry(key, c) is None,
        forall|i: int| 0 <= i < verdicts.len() ==> check_step(#[trigger] states[i], states[i + 1], key, c, now, verdicts[i]),
    ensures
        forall|i: int| 0 <= i < c.max_requests() ==> #[trigger] verdicts[i] is Ok,
        verdicts[c.max_requests() as int] is Err,
        verdicts[c.max_requests() as int] matches Err(w) ==> w as nat == wait_nanos(0, c),
{
    let m = c.max_requests();
    assert forall|j: nat| j <= m implies (#[trigger] states[j as int]).entry(key, c) == burst_state(c, now, j) by {
        lemma_burst_prefix(states, verdicts, key, c, now, j);
    }
    assert forall|i: int| 0 <= i < m implies #[trigger] verdicts[i] is Ok by {
        lemma_burst_then_refuse(c, now, i as nat);
        assert(states[i].entry(key, c) == burst_state(c, now, i as nat));
        assert(check_step(states[i], states[i + 1], key, c, now, verdicts[i]));
    }
    lemma_burst_then_refuse(c, now, m);
    assert(states[m as int].entry(key, c) == burst_state(c, now, m));
    assert(check_step(states[m as int], states[m as int + 1], key, c, now, verdicts[m as int]));
    lemma_category_bounds(c);
    assert((c.max_requests() - m) * c.window_nanos() == 0) by (nonlinear_arith)
        requires m == c.max_requests();
    assert(elapsed(now, now) == 0);
}

proof fn lemma_burst_prefix(
    states: Seq<RateLimiter>,
    verdicts: Seq<Result<(), u64>>,
    key: RateLimitKeyView,
    c: RateLimitCategory,
    now: nat,
    j: nat,
)
    requires
        states.len() == c.max_requests() + 2,
        verdicts.len() == c.max_requests() + 1,
        states[0].entry(key, c) is None,
        forall|i: int| 0 <= i < verdicts.len() ==> check_step(#[trigger] states[i], states[i + 1], key, c, now, verdicts[i]),
        j <= c.max_requests(),
    ensures
        states[j as int].entry(key, c) == burst_state(c, now, j),
    decreases j,
{
    if j > 0 {
        lemma_burst_prefix(states, verdicts, key, c, now, (j - 1) as nat);
        lemma_burst_then_refuse(c, now, (j - 1) as nat);
        assert(check_step(states[j - 1], states[j as int], key, c, now, verdicts[j - 1]));
    }
}

/// The instants never go back.
pub open spec fn nondecreasing(times: Seq<nat>) -> bool {
    forall|i: int, j: int| 0 <= i <= j < times.len() ==> times[i] <= times[j]
}

proof fn lemma_run_bound(e: Option<(nat, nat)>, c: RateLimitCategory, times: Seq<nat>)
    requires
        times.len() > 0,
        nondecreasing(times),
    ensures
        ({
            let (e2, n) = run_requests(e, c, times);
            &&& e2 matches Some((u, last)) && last == times.last()
                && u + n * c.window_nanos() <= c.capacity() + c.max_requests() * (times.last() - times[0])
        }),
    decreases times.len(),
{
    lemma_category_bounds(c);
    let m = c.max_requests();
    let w = c.window_nanos();
    let t = times.last();
    let dl = times.drop_last();
    if dl.len() == 0 {
        let (units, verdict) = take(e, c, t);
        assert(refill(e, c, t) <= c.capacity());
        assert(run_requests(e, c, dl) == (e, 0nat));
        let n: nat = if verdict is Ok { 1 } else { 0 };
        assert(n * w == if verdict is Ok { w } else { 0 }) by (nonlinear_arith)
            requires n == (if verdict is Ok { 1nat } else { 0nat });
        assert(m * (t - times[0]) == 0) by (nonlinear_arith)
            requires t == times[0];
    } else {
        assert(nondecreasing(dl)) by {
            assert forall|i: int, j: int| 0 <= i <= j < dl.len() implies dl[i] <= dl[j] by {
                assert(dl[i] == times[i] && dl[j] == times[j]);
            }
        }
        lemma_run_bound(e, c, dl);
        let (e1, n1) = run_requests(e, c, dl);
        let (u1, last1) = e1.unwrap();
        let t1 = dl.last();
        assert(t1 == times[times.len() - 2]);
        assert(t1 <= t);
        assert(dl[0] == times[0]);
        let r = refill(e1, c, t);
        assert(elapsed(last1, t) == t - t1);
        assert(r <= u1 + (t - t1) * m);
        let (units, verdict) = take(e1, c, t);
        let n: nat = n1 + if verdict is Ok { 1nat } else { 0nat };
        assert(u1 + n1 * w <= c.capacity() + m * (t1 - times[0]));
        assert(units + n * w <= r + n1 * w) by (nonlinear_arith)
            requires
                (verdict is Ok ==> units + w == r && n == n1 + 1),
                (verdict is Err ==> units == r && n == n1),
                verdict is Ok || verdict is Err;
        assert((t - t1) * m + m * (t1 - times[0]) == m * (t - times[0])) by (nonlinear_arith);
    }
}

/// Over any run of requests of one pair, a full bucket plus what the time between the
/// first and the last request refills bounds what is admitted: the admitted requests
/// times the window never exceed `max · window + max · T` for a run spanning `T`
/// nanoseconds, so at most `max + max · T / window` requests pass in `T` nanoseconds.
pub proof fn lemma_window_limit(e: Option<(nat, nat)>, c: RateLimitCategory, times: Seq<nat>)
    requires
        times.len() > 0,
        nondecreasing(times),
    ensures
        run_requests(e, c, times).1 * c.window_nanos() <= c.max_requests() * c.window_nanos()
            + c.max_requests() * (times.last() - times[0]),
{
    lemma_run_bound(e, c, times);
}

/// No bucket ever holds more than a full window's worth of requests.
pub proof fn lemma_entry_within_capacity(rl: &RateLimiter, k: RateLimitKeyView, c: RateLimitCategory)
    requires
        rl.wf(),
    ensures
        rl.entry(k, c) matches Some((units, _)) ==> units <= c.capacity(),
{
    let s = rl.buckets();
    lemma_first_owner_range(s, k, c, 0);
    let f = first_owner(s, k, c, 0);
    if f != -1 {
        assert(s[f].tokens <= s[f].category.capacity());
    }
}

/// The category of a request, from its path and method; `None` for paths outside the
/// API (static files and the like), which are not limited.
pub open spec fn spec_classify(path: Seq<char>, method: Seq<char>) -> Option<RateLimitCategory> {
    if spec_contains(path, "/vote"@) {
        Some(RateLimitCategory::Vote)
    } else if spec_starts_with(path, "/api/v1/comments"@) && (method == "POST"@ || method == "PUT"@) {
        Some(RateLimitCategory::Comment)
    } else if spec_starts_with(path, "/api/v1/auth/login"@) {
        Some(RateLimitCategory::Login)
    } else if spec_starts_with(path, "/api/v1/auth/register"@) {
        Some(RateLimitCategory::Register)
    } else if spec_starts_with(path, "/api/v1/auth/forgot-password"@) || spec_starts_with(
        path,
        "/api/v1/auth/reset-password"@,
    ) {
        Some(RateLimitCategory::ForgotPassword)
    } else if spec_starts_with(path, "/api/v1/auth/passwordless-login"@) {
        Some(RateLimitCategory::Login)
    } else if spec_starts_with(path, "/api/v1/auth/passwordless"@) {
        Some(RateLimitCategory::Passwordless)
    } else if spec_starts_with(path, "/api/v1/ingestion"@) {
        Some(RateLimitCategory::Ingestion)
    } else if spec_starts_with(path, "/api/v1/assistant"@) {
        Some(RateLimitCategory::Assistant)
    } else if spec_starts_with(path, "/api/v1/"@) {
        Some(RateLimitCategory::General)
    } else {
        None
    }
}

/// The category a request is limited under, from its path and its method name.
pub fn classify_request(path: &str, method: &str) -> (r: Option<RateLimitCategory>)
    ensures
        r == spec_classify(path@, method@),
{
    let p = char_vec(path);
    let m = char_vec(method);
    let is_write = {
        let post = char_vec("POST");
        let put = char_vec("PUT");
        same_chars(&m, &post) || same_chars(&m, &put)
    };
    if contains_str(&p, "/vote") {
        Some(RateLimitCategory::Vote)
    } else if starts_with_str(&p, "/api/v1/comments") && is_write {
        Some(RateLimitCategory::Comment)
    } else if starts_with_str(&p, "/api/v1/auth/login") {
        Some(RateLimitCategory::Login)
    } else if starts_with_str(&p, "/api/v1/auth/register") {
        Some(RateLimitCategory::Register)
    } else if starts_with_str(&p, "/api/v1/auth/forgot-password") || starts_with_str(
        &p,
        "/api/v1/auth/reset-password",
    ) {
        Some(RateLimitCategory::ForgotPassword)
    } else if starts_with_str(&p, "/api/v1/auth/passwordless-login") {
        Some(RateLimitCategory::Login)
    } else if starts_with_str(&p, "/api/v1/auth/passwordless") {
        Some(RateLimitCategory::Passwordless)
    } else if starts_with_str(&p, "/api/v1/ingestion") {
        Some(RateLimitCategory::Ingestion)
    } else if starts_with_str(&p, "/api/v1/assistant") {
        Some(RateLimitCategory::Assistant)
    } else if starts_with_str(&p, "/api/v1/") {
        Some(RateLimitCategory::General)
    } else {
        None
    }
}

/// Whether two character vectors are equal.
pub fn same_chars(a: &Vec<char>, b: &Vec<char>) -> (r: bool)
    ensures
        r == (a@ == b@),
{
    if a.len() != b.len() {
        return false;
    }
    let mut i: usize = 0;
    while i < a.len()
        invariant
            a@.len() == b@.len(),
            i <= a@.len(),
            forall|j: int| 0 <= j < i ==> a@[j] == b@[j],
        decreases a@.len() - i,
    {
        if a[i] != b[i] {
            return false;
        }
        i = i + 1;
    }
    assert(a@ =~= b@);
    true
}

/// Requests to the ingestion endpoint that carry an API key are limited by the
/// key's daily quota instead, and skip this limiter.
pub open spec fn spec_bypasses_limiter(c: RateLimitCategory, has_api_key: bool) -> bool {
    c == RateLimitCategory::Ingestion && has_api_key
}

pub fn bypasses_limiter(c: RateLimitCategory, has_api_key: bool) -> (b: bool)
    ensures
        b == spec_bypasses_limiter(c, has_api_key),
{
    c == RateLimitCategory::Ingestion && has_api_key
}

/// Longest client id kept from an `X-Client-ID` header, in characters.
pub const MAX_CLIENT_ID_CHARS: usize = 64;

/// The subject a request is counted against: the signed-in user if the session token
/// names one; otherwise the IP together with the client id (its first 64 characters);
/// otherwise the IP alone.
pub open spec fn spec_subject(user: Option<u128>, ip: IpAddress, client_id: Option<Seq<char>>) -> RateLimitKeyView {
    match user {
        Some(u) => RateLimitKeyView::User(u),
        None => match client_id {
            Some(cid) => RateLimitKeyView::IpClient(
                ip,
                if cid.len() > MAX_CLIENT_ID_CHARS { cid.take(MAX_CLIENT_ID_CHARS as int) } else { cid },
            ),
            None => RateLimitKeyView::Ip(ip),
        },
    }
}

pub fn subject_key(user: Option<u128>, ip: IpAddress, client_id: Option<&str>) -> (k: RateLimitKey)
    ensures
        k@ == spec_subject(user, ip, match client_id {
            Some(c) => Some(c@),
            None => None,
        }),
{
    match user {
        Some(u) => RateLimitKey::User(u),
        None => match client_id {
            Some(cid) => {
                let v = char_vec(cid);
                let n = if v.len() > MAX_CLIENT_ID_CHARS { MAX_CLIENT_ID_CHARS } else { v.len() };
                let kept = crate::text::slice_chars(v.as_slice(), 0, n);
                proof {
                    if v@.len() <= MAX_CLIENT_ID_CHARS {
                        assert(v@.subrange(0, n as int) =~= v@);
                    }
                }
                RateLimitKey::IpClient(ip, crate::text::string_from_chars(kept.as_slice()))
            },
            None => RateLimitKey::Ip(ip),
        },
    }
}

/// The `Retry-After` seconds announced for a wait: whole seconds, at least one.
pub open spec fn spec_retry_after(wait_nanos: nat) -> nat {
    let secs = wait_nanos / (NANOS_PER_SEC as nat);
    if secs < 1 { 1 } else { secs }
}

pub fn retry_after_secs(wait_nanos: u64) -> (s: u64)
    ensures
        s == spec_retry_after(wait_nanos as nat),
{
    let secs = wait_nanos / NANOS_PER_SEC;
    if secs < 1 { 1 } else { secs }
}

/// The body of a refusal that asks the client to wait `secs` seconds.
pub fn rejection_text(secs: u64) -> (r: String)
    ensures
        r@ == "Too Many Requests. Lütfen "@ + crate::text::spec_decimal(secs as nat) + " saniye sonra tekrar deneyin."@,
{
    let mut v: Vec<char> = Vec::new();
    crate::text::extend_str(&mut v, "Too Many Requests. Lütfen ");
    let n = crate::text::decimal_u128(secs as u128);
    crate::text::extend_chars(&mut v, n.as_slice());
    crate::text::extend_str(&mut v, " saniye sonra tekrar deneyin.");
    crate::text::string_from_chars(v.as_slice())
}

/// One request through the limiter, in the order the middleware checks it:
/// - a path outside the API has no category and passes untouched; so does an ingestion
///   request carrying an API key (its key's daily quota limits it instead);
/// - otherwise the peer address is first held to the spike limit (10 requests a second
///   per IP), and a refusal there answers at once;
/// - then the request's subject (`subject_key`: the signed-in user, else the IP with its
///   client id, else the IP) is held to its category's limit.
/// `Err` carries the nanoseconds to wait.
pub open spec fn limit_post(
    pre: RateLimiter,
    post: RateLimiter,
    category: Option<RateLimitCategory>,
    has_api_key: bool,
    subject: RateLimitKeyView,
    ip: IpAddress,
    now: nat,
    r: Result<(), u64>,
) -> bool {
    match category {
        None => r is Ok && post == pre,
        Some(c) => if spec_bypasses_limiter(c, has_api_key) {
            r is Ok && post == pre
        } else {
            exists|mid: RateLimiter, spike: Result<(), u64>|
                #![trigger check_post(pre, mid, RateLimitKeyView::Ip(ip), RateLimitCategory::SpikeArrest, now, spike)]
                check_post(pre, mid, RateLimitKeyView::Ip(ip), RateLimitCategory::SpikeArrest, now, spike) && (
                match spike {
                    Err(_) => r == spike && post == mid,
                    Ok(()) => check_post(mid, post, subject, c, now, r),
                })
        },
    }
}

/// Holds one request to the limits (see `limit_post`).
pub fn limit_request(
    rl: &mut RateLimiter,
    path: &str,
    method: &str,
    has_api_key: bool,
    user: Option<u128>,
    ip: IpAddress,
    client_id: Option<&str>,
    now: u64,
) -> (r: Result<(), u64>)
    requires
        old(rl).wf(),
    ensures
        final(rl).wf(),
        limit_post(
            *old(rl),
            *final(rl),
            spec_classify(path@, method@),
            has_api_key,
            spec_subject(user, ip, match client_id {
                Some(c) => Some(c@),
                None => None,
            }),
            ip,
            now as nat,
            r,
        ),
{
    let category = match classify_request(path, method) {
        None => return Ok(()),
        Some(c) => c,
    };
    if bypasses_limiter(category, has_api_key) {
        return Ok(());
    }
    let ghost pre = *rl;
    let spike = rl.check(&RateLimitKey::Ip(ip), RateLimitCategory::SpikeArrest, now);
    let ghost mid = *rl;
    proof {
        assert(check_post(pre, mid, RateLimitKeyView::Ip(ip), RateLimitCategory::SpikeArrest, now as nat, spike));
    }
    match spike {
        Err(w) => {
            proof {
                assert(check_post(pre, mid, RateLimitKeyView::Ip(ip), RateLimitCategory::SpikeArrest, now as nat, spike));
            }
            Err(w)
        },
        Ok(()) => {
            let key = subject_key(user, ip, client_id);
            let r = rl.check(&key, category, now);
            proof {
                assert(check_post(mid, *rl, key@, category, now as nat, r));
            }
            r
        },
    }
}

/// One request of a burst through `limit_request`, at the same instant as the others:
/// the IP's spike pair has seen `j` of them and the subject's pair `i`.
proof fn lemma_limit_burst_step(
    pre: RateLimiter,
    post: RateLimiter,
    c: RateLimitCategory,
    has_api_key: bool,
    subject: RateLimitKeyView,
    ip: IpAddress,
    now: nat,
    r: Result<(), u64>,
    i: nat,
    j: nat,
)
    requires
        limit_post(pre, post, Some(c), has_api_key, subject, ip, now, r),
        !spec_bypasses_limiter(c, has_api_key),
        c != RateLimitCategory::SpikeArrest,
        i <= c.max_requests(),
        j < RateLimitCategory::SpikeArrest.max_requests(),
        pre.entry(subject, c) == burst_state(c, now, i),
        pre.entry(RateLimitKeyView::Ip(ip), RateLimitCategory::SpikeArrest) == burst_state(
            RateLimitCategory::SpikeArrest,
            now,
            j,
        ),
    ensures
        post.entry(RateLimitKeyView::Ip(ip), RateLimitCategory::SpikeArrest) == burst_state(
            RateLimitCategory::SpikeArrest,
            now,
            j + 1,
        ),
        i < c.max_requests() ==> r is Ok && post.entry(subject, c) == burst_state(c, now, i + 1),
        i == c.max_requests() ==> (r matches Err(w) && w as nat == wait_nanos(0, c)),
{
    let sp = RateLimitCategory::SpikeArrest;
    let ipk = RateLimitKeyView::Ip(ip);
    let (mid, spike) = choose|mid: RateLimiter, spike: Result<(), u64>|
        #![trigger check_post(pre, mid, ipk, sp, now, spike)]
        check_post(pre, mid, ipk, sp, now, spike) && (match spike {
            Err(_) => r == spike && post == mid,
            Ok(()) => check_post(mid, post, subject, c, now, r),
        });
    lemma_burst_then_refuse(sp, now, j);
    assert(spike is Ok);
    assert(mid.entry(ipk, sp) == burst_state(sp, now, j + 1));
    assert(kept_or_expired(pre.entry(subject, c), mid.entry(subject, c), c, now));
    lemma_category_bounds(c);
    assert(elapsed(now, now) == 0);
    assert(mid.entry(subject, c) == pre.entry(subject, c));
    assert(kept_or_expired(mid.entry(ipk, sp), post.entry(ipk, sp), sp, now));
    lemma_category_bounds(sp);
    assert(post.entry(ipk, sp) == mid.entry(ipk, sp));
    lemma_burst_then_refuse(c, now, i);
    if i == c.max_requests() {
        assert((c.max_requests() - i) * c.window_nanos() == 0) by (nonlinear_arith)
            requires i == c.max_requests();
    }
}

/// A burst of requests of one category at one instant, from a subject and an IP that the
/// limiter has not seen, in a category of fewer requests than the spike limit: the first
/// `max` pass and the next is refused with the wait of an empty bucket; so six login
/// requests give five passes and then a refusal that asks for 12 seconds.
pub proof fn lemma_limit_burst(
    states: Seq<RateLimiter>,
    verdicts: Seq<Result<(), u64>>,
    path: Seq<char>,
    method: Seq<char>,
    has_api_key: bool,
    subject: RateLimitKeyView,
    ip: IpAddress,
    now: nat,
)
    requires
        spec_classify(path, method) matches Some(c) && !spec_bypasses_limiter(c, has_api_key)
            && c.max_requests() < RateLimitCategory::SpikeArrest.max_requests()
            && states.len() == c.max_requests() + 2 && verdicts.len() == c.max_requests() + 1
            && states[0].entry(subject, c) is None,
        states[0].entry(RateLimitKeyView::Ip(ip), RateLimitCategory::SpikeArrest) is None,
        forall|i: int|
            0 <= i < verdicts.len() ==> limit_post(
                #[trigger] states[i],
                states[i + 1],
                spec_classify(path, method),
                has_api_key,
                subject,
                ip,
                now,
                verdicts[i],
            ),
    ensures
        spec_classify(path, method) matches Some(c) && (forall|i: int|
            0 <= i < c.max_requests() ==> #[trigger] verdicts[i] is Ok) && (
        verdicts[c.max_requests() as int] matches Err(w) && w as nat == wait_nanos(0, c)),
        spec_classify(path, method) == Some(RateLimitCategory::Login) ==> verdicts.len() == 6
            && verdicts[5] == Err::<(), u64>(12_000_000_000),
{
    let c = spec_classify(path, method)->Some_0;
    let m = c.max_requests();
    let sp = RateLimitCategory::SpikeArrest;
    let ipk = RateLimitKeyView::Ip(ip);
    assert(c != sp);
    assert forall|k: nat| k <= m implies (#[trigger] states[k as int]).entry(subject, c) == burst_state(c, now, k)
        && states[k as int].entry(ipk, sp) == burst_state(sp, now, k)
        && forall|i: int| 0 <= i < k ==> #[trigger] verdicts[i] is Ok by {
        lemma_limit_burst_prefix(states, verdicts, path, method, has_api_key, subject, ip, now, k);
    }
    assert(limit_post(states[m as int], states[m as int + 1], Some(c), has_api_key, subject, ip, now, verdicts[m as int]));
    lemma_limit_burst_step(states[m as int], states[m as int + 1], c, has_api_key, subject, ip, now, verdicts[m as int], m, m);
    assert(states[m as int].entry(subject, c) == burst_state(c, now, m));
    if c == RateLimitCategory::Login {
        assert(wait_nanos(0, c) == 12_000_000_000);
    }
}

proof fn lemma_limit_burst_prefix(
    states: Seq<RateLimiter>,
    verdicts: Seq<Result<(), u64>>,
    path: Seq<char>,
    method: Seq<char>,
    has_api_key: bool,
    subject: RateLimitKeyView,
    ip: IpAddress,
    now: nat,
    k: nat,
)
    requires
        spec_classify(path, method) matches Some(c) && !spec_bypasses_limiter(c, has_api_key)
            && c.max_requests() < RateLimitCategory::SpikeArrest.max_requests()
            && states.len() == c.max_requests() + 2 && verdicts.len() == c.max_requests() + 1
            && states[0].entry(subject, c) is None && k <= c.max_requests(),
        states[0].entry(RateLimitKeyView::Ip(ip), RateLimitCategory::SpikeArrest) is None,
        forall|i: int|
            0 <= i < verdicts.len() ==> limit_post(
                #[trigger] states[i],
                states[i + 1],
                spec_classify(path, method),
                has_api_key,
                subject,
                ip,
                now,
                verdicts[i],
            ),
    ensures
        states[k as int].entry(subject, spec_classify(path, method)->Some_0) == burst_state(
            spec_classify(path, method)->Some_0,
            now,
            k,
        ),
        states[k as int].entry(RateLimitKeyView::Ip(ip), RateLimitCategory::SpikeArrest) == burst_state(
            RateLimitCategory::SpikeArrest,
            now,
            k,
        ),
        forall|i: int| 0 <= i < k ==> #[trigger] verdicts[i] is Ok,
    decreases k,
{
    if k > 0 {
        let c = spec_classify(path, method)->Some_0;
        lemma_limit_burst_prefix(states, verdicts, path, method, has_api_key, subject, ip, now, (k - 1) as nat);
        assert(limit_post(states[k - 1], states[k as int], Some(c), has_api_key, subject, ip, now, verdicts[k - 1]));
        lemma_limit_burst_step(
            states[k - 1],
            states[k as int],
            c,
            has_api_key,
            subject,
            ip,
            now,
            verdicts[k - 1],
            (k - 1) as nat,
            (k - 1) as nat,
        );
    }
}

/// A pair's state holds at least `k` whole tokens (a pair not seen yet holds a full
/// bucket).
#[verifier::opaque]
spec fn holds_tokens(e: Option<(nat, nat)>, c: RateLimitCategory, k: nat) -> bool {
    match e {
        None => true,
        Some((units, _)) => units >= k * c.window_nanos(),
    }
}

/// The state of a subject's pair after the first `j` requests of a burst that started at
/// `t0`, the last of them at `prev`: it holds between `max - j` whole tokens and that
/// plus what refilled since `t0`.
#[verifier::opaque]
spec fn burst_bounds(e: Option<(nat, nat)>, c: RateLimitCategory, j: nat, t0: nat, prev: nat) -> bool {
    if j == 0 {
        e is None
    } else {
        e matches Some((units, last)) && last == prev && t0 <= prev && units >= (c.max_requests() - j)
            * c.window_nanos() && units + j * c.window_nanos() <= c.max_requests() * c.window_nanos()
            + c.max_requests() * (prev - t0)
    }
}

/// `max` requests' worth of refill over the time from `t0` to `t` stays under one
/// window's worth of units.
#[verifier::opaque]
spec fn short_span(c: RateLimitCategory, t0: nat, t: nat) -> bool {
    c.max_requests() * (t - t0) < c.window_nanos()
}

proof fn lemma_refill_holds(e: Option<(nat, nat)>, c: RateLimitCategory, k: nat, now: nat)
    requires
        holds_tokens(e, c, k),
        k <= c.max_requests(),
    ensures
        refill(e, c, now) >= k * c.window_nanos(),
{
    reveal(holds_tokens);
    lemma_category_bounds(c);
    let w = c.window_nanos();
    let m = c.max_requests();
    assert(k * w <= m * w) by (nonlinear_arith)
        requires k <= m;
    assert(m * w == c.capacity());
    if let Some((units, last)) = e {
        assert(units + elapsed(last, now) * m >= units) by (nonlinear_arith);
    }
}

proof fn lemma_wait_at_most_empty(units: nat, c: RateLimitCategory)
    requires
        units < c.window_nanos(),
    ensures
        wait_nanos(units, c) <= wait_nanos(0, c),
{
    lemma_category_bounds(c);
    let m = c.max_requests() as int;
    let w = c.window_nanos() as int;
    vstd::arithmetic::div_mod::lemma_div_is_ordered(w - units + m - 1, w + m - 1, m);
}

/// One request of a burst spread over time through `limit_request`: `j` requests came
/// before it, the first at `t0`, the last at `prev`.
proof fn lemma_limit_span_step(
    pre: RateLimiter,
    post: RateLimiter,
    c: RateLimitCategory,
    has_api_key: bool,
    subject: RateLimitKeyView,
    ip: IpAddress,
    t0: nat,
    prev: nat,
    now: nat,
    r: Result<(), u64>,
    j: nat,
)
    requires
        limit_post(pre, post, Some(c), has_api_key, subject, ip, now, r),
        !spec_bypasses_limiter(c, has_api_key),
        c != RateLimitCategory::SpikeArrest,
        j <= c.max_requests(),
        j < RateLimitCategory::SpikeArrest.max_requests(),
        t0 <= prev <= now,
        j == 0 ==> t0 == now,
        short_span(c, t0, now),
        holds_tokens(
            pre.entry(RateLimitKeyView::Ip(ip), RateLimitCategory::SpikeArrest),
            RateLimitCategory::SpikeArrest,
            (RateLimitCategory::SpikeArrest.max_requests() - j) as nat,
        ),
        burst_bounds(pre.entry(subject, c), c, j, t0, prev),
    ensures
        holds_tokens(
            post.entry(RateLimitKeyView::Ip(ip), RateLimitCategory::SpikeArrest),
            RateLimitCategory::SpikeArrest,
            (RateLimitCategory::SpikeArrest.max_requests() - (j + 1)) as nat,
        ),
        j < c.max_requests() ==> r is Ok && burst_bounds(post.entry(subject, c), c, j + 1, t0, now),
        j == c.max_requests() ==> (r matches Err(w) && w as nat <= wait_nanos(0, c)),
{
    reveal(holds_tokens);
    reveal(burst_bounds);
    reveal(short_span);
    let sp = RateLimitCategory::SpikeArrest;
    let ipk = RateLimitKeyView::Ip(ip);
    let (mid, spike) = choose|mid: RateLimiter, spike: Result<(), u64>|
        #![trigger check_post(pre, mid, ipk, sp, now, spike)]
        check_post(pre, mid, ipk, sp, now, spike) && (match spike {
            Err(_) => r == spike && post == mid,
            Ok(()) => check_post(mid, post, subject, c, now, r),
        });
    lemma_category_bounds(c);
    lemma_category_bounds(sp);
    let ws = sp.window_nanos();
    let ks = (sp.max_requests() - j) as nat;
    lemma_refill_holds(pre.entry(ipk, sp), sp, ks, now);
    let rs = refill(pre.entry(ipk, sp), sp, now);
    assert(ks * ws >= ws) by (nonlinear_arith)
        requires ks >= 1;
    assert(spike is Ok);
    assert(mid.entry(ipk, sp) == Some(((rs - ws) as nat, now)));
    assert((ks - 1) * ws == ks * ws - ws) by (nonlinear_arith);
    assert(holds_tokens(mid.entry(ipk, sp), sp, (ks - 1) as nat));
    assert(kept_or_expired(mid.entry(ipk, sp), post.entry(ipk, sp), sp, now));
    let m = c.max_requests();
    let w = c.window_nanos();
    assert(now - t0 < w) by (nonlinear_arith)
        requires m * (now - t0) < w, m >= 1, now >= t0;
    assert(kept_or_expired(pre.entry(subject, c), mid.entry(subject, c), c, now));
    if j > 0 {
        assert(elapsed(prev, now) < w);
    }
    assert(mid.entry(subject, c) == pre.entry(subject, c));
    let e = pre.entry(subject, c);
    let units = refill(e, c, now);
    if j == 0 {
        assert(units == m * w);
        assert(m * w >= w) by (nonlinear_arith)
            requires m >= 1;
        assert((m - 1) * w == m * w - w) by (nonlinear_arith);
        assert((j + 1) * w == w) by (nonlinear_arith)
            requires j == 0;
        assert(m * (now - t0) == 0) by (nonlinear_arith)
            requires now == t0;
    } else {
        let (u, last) = e.unwrap();
        assert(u + elapsed(last, now) * m >= u) by (nonlinear_arith);
        assert(units >= (m - j) * w) by {
            assert((m - j) * w <= m * w) by (nonlinear_arith)
                requires j >= 1, w >= 0;
            assert(m * w == c.capacity());
        }
        assert(units <= u + (now - prev) * m);
        assert(m * (prev - t0) + (now - prev) * m == m * (now - t0)) by (nonlinear_arith)
            requires t0 <= prev <= now;
        assert(units + j * w <= m * w + m * (now - t0));
        if j < m {
            assert((m - j) * w >= w) by (nonlinear_arith)
                requires j < m, w >= 0;
            assert((m - (j + 1)) * w == (m - j) * w - w) by (nonlinear_arith);
            assert((j + 1) * w == j * w + w) by (nonlinear_arith);
        } else {
            assert(j * w == m * w) by (nonlinear_arith)
                requires j == m;
            assert(units < w);
            lemma_wait_at_most_empty(units, c);
        }
    }
}

/// A burst spread over time: from a subject and an IP the limiter has not seen, `max + 1`
/// requests of one category (of fewer requests than the spike limit) whose span `T`
/// is short enough that `max · T` stays under the category's window. The first `max`
/// pass, and the last is refused with a wait no longer than that of an empty bucket;
/// for six login requests within 12 seconds, five pass and the sixth is answered with a
/// `Retry-After` of 1 to 12 seconds.
pub proof fn lemma_limit_burst_in_span(
    states: Seq<RateLimiter>,
    verdicts: Seq<Result<(), u64>>,
    path: Seq<char>,
    method: Seq<char>,
    has_api_key: bool,
    subject: RateLimitKeyView,
    ip: IpAddress,
    times: Seq<nat>,
)
    requires
        spec_classify(path, method) matches Some(c) && !spec_bypasses_limiter(c, has_api_key)
            && c.max_requests() < RateLimitCategory::SpikeArrest.max_requests()
            && states.len() == c.max_requests() + 2 && verdicts.len() == c.max_requests() + 1
            && times.len() == c.max_requests() + 1 && states[0].entry(subject, c) is None
            && c.max_requests() * (times.last() - times[0]) < c.window_nanos(),
        states[0].entry(RateLimitKeyView::Ip(ip), RateLimitCategory::SpikeArrest) is None,
        nondecreasing(times),
        forall|i: int|
            0 <= i < verdicts.len() ==> limit_post(
                #[trigger] states[i],
                states[i + 1],
                spec_classify(path, method),
                has_api_key,
                subject,
                ip,
                times[i],
                verdicts[i],
            ),
    ensures
        spec_classify(path, method) matches Some(c) && (forall|i: int|
            0 <= i < c.max_requests() ==> #[trigger] verdicts[i] is Ok) && (
        verdicts[c.max_requests() as int] matches Err(w) && w as nat <= wait_nanos(0, c)
            && 1 <= spec_retry_after(w as nat)),
        spec_classify(path, method) == Some(RateLimitCategory::Login) ==> verdicts.len() == 6
            && (verdicts[5] matches Err(w) && 1 <= spec_retry_after(w as nat) <= 12),
{
    let c = spec_classify(path, method)->Some_0;
    let m = c.max_requests();
    assert(c != RateLimitCategory::SpikeArrest);
    assert(short_span(c, times[0], times.last())) by {
        reveal(short_span);
    }
    assert forall|i: int| 0 <= i < verdicts.len() implies limit_step(
        #[trigger] states[i],
        states[i + 1],
        spec_classify(path, method),
        has_api_key,
        subject,
        ip,
        times[i],
        verdicts[i],
    ) by {
        reveal(limit_step);
    }
    assert forall|k: nat| k <= m implies holds_tokens(
        (#[trigger] states[k as int]).entry(RateLimitKeyView::Ip(ip), RateLimitCategory::SpikeArrest),
        RateLimitCategory::SpikeArrest,
        (RateLimitCategory::SpikeArrest.max_requests() - k) as nat,
    ) && burst_bounds(states[k as int].entry(subject, c), c, k, times[0], if k == 0 { times[0] } else { times[k - 1] })
        && forall|i: int| 0 <= i < k ==> #[trigger] verdicts[i] is Ok by {
        lemma_limit_span_prefix(states, verdicts, spec_classify(path, method), c, has_api_key, subject, ip, times, k);
    }
    let prev = if m == 0 { times[0] } else { times[m - 1] };
    assert(times[0] <= prev <= times[m as int]);
    assert(times[m as int] == times.last());
    assert(limit_post(states[m as int], states[m as int + 1], Some(c), has_api_key, subject, ip, times[m as int], verdicts[m as int]));
    lemma_limit_span_step(
        states[m as int],
        states[m as int + 1],
        c,
        has_api_key,
        subject,
        ip,
        times[0],
        prev,
        times[m as int],
        verdicts[m as int],
        m,
    );
    if c == RateLimitCategory::Login {
        assert(wait_nanos(0, c) == 12_000_000_000);
    }
}

proof fn lemma_span_shorter(c: RateLimitCategory, t0: nat, now: nat, last: nat)
    requires
        short_span(c, t0, last),
        t0 <= now <= last,
    ensures
        short_span(c, t0, now),
{
    reveal(short_span);
    let m = c.max_requests();
    assert(m * (now - t0) <= m * (last - t0)) by (nonlinear_arith)
        requires t0 <= now <= last;
}

proof fn lemma_fresh_bounds(spike: Option<(nat, nat)>, e: Option<(nat, nat)>, c: RateLimitCategory, t0: nat)
    requires
        spike is None,
        e is None,
    ensures
        holds_tokens(spike, RateLimitCategory::SpikeArrest, RateLimitCategory::SpikeArrest.max_requests()),
        burst_bounds(e, c, 0, t0, t0),
{
    reveal(holds_tokens);
    reveal(burst_bounds);
}

/// `limit_post`, kept folded while a series of requests is reasoned about step by step.
#[verifier::opaque]
spec fn limit_step(
    pre: RateLimiter,
    post: RateLimiter,
    category: Option<RateLimitCategory>,
    has_api_key: bool,
    subject: RateLimitKeyView,
    ip: IpAddress,
    now: nat,
    r: Result<(), u64>,
) -> bool {
    limit_post(pre, post, category, has_api_key, subject, ip, now, r)
}

proof fn lemma_limit_span_prefix(
    states: Seq<RateLimiter>,
    verdicts: Seq<Result<(), u64>>,
    cat: Option<RateLimitCategory>,
    c: RateLimitCategory,
    has_api_key: bool,
    subject: RateLimitKeyView,
    ip: IpAddress,
    times: Seq<nat>,
    k: nat,
)
    requires
        cat == Some(c),
        !spec_bypasses_limiter(c, has_api_key),
        c != RateLimitCategory::SpikeArrest,
        c.max_requests() < RateLimitCategory::SpikeArrest.max_requests(),
        states.len() == c.max_requests() + 2,
        verdicts.len() == c.max_requests() + 1,
        times.len() == c.max_requests() + 1,
        states[0].entry(subject, c) is None,
        short_span(c, times[0], times.last()),
        k <= c.max_requests(),
        states[0].entry(RateLimitKeyView::Ip(ip), RateLimitCategory::SpikeArrest) is None,
        nondecreasing(times),
        forall|i: int|
            0 <= i < verdicts.len() ==> limit_step(
                #[trigger] states[i],
                states[i + 1],
                cat,
                has_api_key,
                subject,
                ip,
                times[i],
                verdicts[i],
            ),
    ensures
        holds_tokens(
            states[k as int].entry(RateLimitKeyView::Ip(ip), RateLimitCategory::SpikeArrest),
            RateLimitCategory::SpikeArrest,
            (RateLimitCategory::SpikeArrest.max_requests() - k) as nat,
        ),
        burst_bounds(states[k as int].entry(subject, c), c, k, times[0], if k == 0 { times[0] } else { times[k - 1] }),
        forall|i: int| 0 <= i < k ==> #[trigger] verdicts[i] is Ok,
    decreases k,
{
    if k == 0 {
        lemma_fresh_bounds(
            states[0].entry(RateLimitKeyView::Ip(ip), RateLimitCategory::SpikeArrest),
            states[0].entry(subject, c),
            c,
            times[0],
        );
    } else {
        let j = (k - 1) as nat;
        lemma_limit_span_prefix(states, verdicts, cat, c, has_api_key, subject, ip, times, j);
        let prev = if j == 0 { times[0] } else { times[j - 1] };
        let now = times[j as int];
        assert(times[0] <= prev <= now);
        assert(now <= times.last());
        lemma_span_shorter(c, times[0], now, times.last());
        let pre = states[j as int];
        let post = states[k as int];
        let r = verdicts[j as int];
        assert(limit_step(pre, post, cat, has_api_key, subject, ip, now, r));
        assert(limit_post(pre, post, cat, has_api_key, subject, ip, now, r)) by {
            reveal(limit_step);
        }
        lemma_limit_span_step(pre, post, c, has_api_key, subject, ip, times[0], prev, now, r, j);
        assert(times[k - 1] == now);
        assert forall|i: int| 0 <= i < k implies #[trigger] verdicts[i] is Ok by {
            if i == j {
                assert(r is Ok);
            }
        }
    }
}

/// A login request, `POST /api/v1/auth/login`, is limited as a login.
pub proof fn lemma_login_path_is_login()
    ensures
        spec_classify("/api/v1/auth/login"@, "POST"@) == Some(RateLimitCategory::Login),
{
    let path = "/api/v1/auth/login"@;
    let vote = "/vote"@;
    reveal_strlit("/api/v1/auth/login");
    reveal_strlit("/vote");
    reveal_strlit("/api/v1/comments");
    assert(path.len() == 18);
    assert(vote.len() == 5);
    assert(path[0] == '/' && path[1] == 'a' && path[2] == 'p' && path[3] == 'i' && path[4] == '/');
    assert(path[5] == 'v' && path[6] == '1' && path[7] == '/' && path[8] == 'a' && path[9] == 'u');
    assert(path[10] == 't' && path[11] == 'h' && path[12] == '/' && path[13] == 'l' && path[14] == 'o');
    assert(path[15] == 'g' && path[16] == 'i' && path[17] == 'n');
    assert(vote[0] == '/' && vote[1] == 'v' && vote[2] == 'o');
    assert forall|i: int| !crate::text::occurs_at(path, vote, i) by {
        if 0 <= i && i + 5 <= 18 {
            let w = path.subrange(i, i + 5);
            if w == vote {
                assert(path[i] == '/' && path[i + 1] == 'v' && path[i + 2] == 'o') by {
                    assert(w[0] == path[i]);
                    assert(w[1] == path[i + 1]);
                    assert(w[2] == path[i + 2]);
                }
                assert(i == 0 || i == 4 || i == 7 || i == 12);
            }
        }
    }
    assert(!spec_contains(path, vote));
    assert(path.take(16)[8] == 'a');
    assert("/api/v1/comments"@[8] == 'c');
    assert(!spec_starts_with(path, "/api/v1/comments"@));
    assert(path.take(18) =~= path);
    assert(spec_starts_with(path, "/api/v1/auth/login"@));
}

/// Six login requests within 12 seconds of each other, from a client the limiter has not
/// seen: the first five pass and the sixth is refused with a `Retry-After` of 1 to 12
/// seconds (`lemma_limit_burst_in_span` on the login path).
pub proof fn lemma_six_logins(
    states: Seq<RateLimiter>,
    verdicts: Seq<Result<(), u64>>,
    subject: RateLimitKeyView,
    ip: IpAddress,
    times: Seq<nat>,
)
    requires
        states.len() == 7,
        verdicts.len() == 6,
        times.len() == 6,
        nondecreasing(times),
        times.last() - times[0] < 12_000_000_000,
        states[0].entry(subject, RateLimitCategory::Login) is None,
        states[0].entry(RateLimitKeyView::Ip(ip), RateLimitCategory::SpikeArrest) is None,
        forall|i: int|
            0 <= i < 6 ==> limit_post(
                #[trigger] states[i],
                states[i + 1],
                spec_classify("/api/v1/auth/login"@, "POST"@),
                false,
                subject,
                ip,
                times[i],
                verdicts[i],
            ),
    ensures
        forall|i: int| 0 <= i < 5 ==> #[trigger] verdicts[i] is Ok,
        verdicts[5] matches Err(w) && 1 <= spec_retry_after(w as nat) <= 12,
{
    lemma_login_path_is_login();
    let c = RateLimitCategory::Login;
    assert(c.max_requests() == 5);
    assert(c.window_nanos() == 60_000_000_000);
    assert(times[0] <= times.last());
    assert(c.max_requests() * (times.last() - times[0]) < c.window_nanos());
    lemma_limit_burst_in_span(states, verdicts, "/api/v1/auth/login"@, "POST"@, false, subject, ip, times);
}

} // verus!
