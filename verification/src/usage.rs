//! The daily quota of API keys: a per-key count of today's requests (cached, read from
//! the store when the cache has no count for today), refused at the tier's limit, and a
//! buffer of accepted requests and errors that is flushed to the store in batches.

use vstd::prelude::*;
use std::collections::HashMap;
use crate::calendar::CalendarDate;
use crate::error::{AppError, ErrorKind};
use crate::digest::{sha256_of, hash_token};
use crate::oauth::spec_hex;
use vstd::utf8::encode_utf8;
use vstd::string::StringExecFns;
use crate::assistant::str_is;
use crate::text::{decimal_u128, extend_chars, extend_str, spec_decimal, string_from_chars};

verus! {

broadcast use vstd::std_specs::hash::group_hash_axioms;

/// The tracker's memory, keyed by the API key's id: the cached count of requests with
/// the day it counts, and the accepted requests and errors not yet written to the store.
pub struct UsageTracker {
    pub cache: HashMap<u128, (i32, CalendarDate)>,
    pub buffer: HashMap<u128, (i32, i32)>,
}

/// The daily limit of a tier: `ticari` keys get 100 000 requests, every other 2 500.
pub open spec fn spec_tier_limit(tier: Seq<char>) -> int {
    if tier == "ticari"@ { 100000 } else { 2500 }
}

/// Computes the daily limit of a tier.
pub fn tier_limit(tier: &str) -> (r: i32)
    ensures
        r == spec_tier_limit(tier@),
{
    if str_is(tier, "ticari") { 100000 } else { 2500 }
}

/// The cached count of `key` for `today`, if the cache holds one for that day.
pub open spec fn spec_cached(c: Map<u128, (i32, CalendarDate)>, key: u128, today: CalendarDate) -> Option<i32> {
    if c.contains_key(key) && c[key].1 == today {
        Some(c[key].0)
    } else {
        None
    }
}

/// The cache after `key`'s count is set to `n` for `today`.
pub open spec fn cache_set(c: Map<u128, (i32, CalendarDate)>, key: u128, n: i32, today: CalendarDate) -> Map<
    u128,
    (i32, CalendarDate),
> {
    c.insert(key, (n, today))
}

/// The buffered counts of `key` (zero when it has none).
pub open spec fn spec_buffered(b: Map<u128, (i32, i32)>, key: u128) -> (int, int) {
    if b.contains_key(key) {
        (b[key].0 as int, b[key].1 as int)
    } else {
        (0, 0)
    }
}

/// The buffer after one more accepted request of `key`, an error or not.
pub open spec fn buffer_add(b: Map<u128, (i32, i32)>, key: u128, is_error: bool) -> Map<u128, (i32, i32)> {
    let (r, e) = spec_buffered(b, key);
    b.insert(key, ((r + 1) as i32, (if is_error { e + 1 } else { e }) as i32))
}

/// The refusal of a key over its limit.
pub open spec fn limit_message(limit: int) -> Seq<char> {
    "Günlük API kullanım sınırına ulaştınız (Limit: "@ + spec_decimal(limit as nat) + "/gün)."@
}

impl UsageTracker {
    /// An empty tracker.
    pub fn new() -> (r: UsageTracker)
        ensures
            r.cache@ == Map::<u128, (i32, CalendarDate)>::empty(),
            r.buffer@ == Map::<u128, (i32, i32)>::empty(),
    {
        UsageTracker { cache: HashMap::new(), buffer: HashMap::new() }
    }

    /// The count of today's requests of `key` in the cache, if it has one for today
    /// (otherwise the caller reads it from the store).
    pub fn cached_requests(&self, key: u128, today: CalendarDate) -> (r: Option<i32>)
        ensures
            r == spec_cached(self.cache@, key, today),
    {
        match self.cache.get(&key) {
            Some(e) => if e.1 == today {
                Some(e.0)
            } else {
                None
            },
            None => None,
        }
    }

    fn set_cached(&mut self, key: u128, n: i32, today: CalendarDate)
        ensures
            final(self).cache@ == cache_set(old(self).cache@, key, n, today),
            final(self).buffer@ == old(self).buffer@,
    {
        self.cache.insert(key, (n, today));
    }

    fn add_buffered(&mut self, key: u128, is_error: bool)
        requires
            spec_buffered(old(self).buffer@, key).0 < i32::MAX,
            spec_buffered(old(self).buffer@, key).1 < i32::MAX,
        ensures
            final(self).buffer@ == buffer_add(old(self).buffer@, key, is_error),
            final(self).cache@ == old(self).cache@,
    {
        let (r, e) = match self.buffer.get(&key) {
            Some(v) => *v,
            None => (0, 0),
        };
        self.buffer.insert(key, (r + 1, if is_error { e + 1 } else { e }));
    }

    /// Counts one request of `key` on `today`. Today's count is the cached one, or else
    /// `stored_requests` (read from the store), which is then cached. At the tier's limit
    /// the request is refused and nothing else changes; otherwise the count grows by one
    /// and the request (and whether it failed) is buffered.
    pub fn record_request(&mut self, key: u128, tier: &str, is_error: bool, today: CalendarDate, stored_requests: i32) -> (r: Result<(), String>)
        requires
            spec_buffered(old(self).buffer@, key).0 < i32::MAX,
            spec_buffered(old(self).buffer@, key).1 < i32::MAX,
        ensures
            ({
                let current = match spec_cached(old(self).cache@, key, today) {
                    Some(c) => c,
                    None => stored_requests,
                };
                let limit = spec_tier_limit(tier@);
                let seen = match spec_cached(old(self).cache@, key, today) {
                    Some(c) => old(self).cache@,
                    None => cache_set(old(self).cache@, key, stored_requests, today),
                };
                &&& current >= limit ==> (r matches Err(m) && m@ == limit_message(limit))
                    && final(self).cache@ == seen && final(self).buffer@ == old(self).buffer@
                &&& current < limit ==> r is Ok
                    && final(self).cache@ == cache_set(seen, key, (current + 1) as i32, today)
                    && final(self).buffer@ == buffer_add(old(self).buffer@, key, is_error)
            }),
    {
        let limit = tier_limit(tier);
        let current = match self.cached_requests(key, today) {
            Some(c) => c,
            None => {
                self.set_cached(key, stored_requests, today);
                stored_requests
            },
        };
        if current >= limit {
            let mut m: Vec<char> = Vec::new();
            extend_str(&mut m, "Günlük API kullanım sınırına ulaştınız (Limit: ");
            let n = decimal_u128(limit as u128);
            extend_chars(&mut m, n.as_slice());
            extend_str(&mut m, "/gün).");
            return Err(string_from_chars(m.as_slice()));
        }
        self.set_cached(key, current + 1, today);
        self.add_buffered(key, is_error);
        Ok(())
    }

    /// Hands out the buffer to be written to the store, leaving it empty.
    pub fn take_buffer(&mut self) -> (r: HashMap<u128, (i32, i32)>)
        ensures
            r@ == old(self).buffer@,
            final(self).buffer@ == Map::<u128, (i32, i32)>::empty(),
            final(self).cache@ == old(self).cache@,
    {
        let mut out: HashMap<u128, (i32, i32)> = HashMap::new();
        std::mem::swap(&mut out, &mut self.buffer);
        out
    }
}

/// The stored hash of the key in a request's `X-API-Key` header; a request without the
/// header is refused.
pub fn api_key_hash(header: Option<&str>) -> (r: Result<String, AppError>)
    ensures
        header is None ==> (r matches Err(e) && e@ == (
            ErrorKind::Unauthorized,
            "API Key eksik (X-API-Key header'ı gerekli)"@,
        )),
        header matches Some(h) ==> (r matches Ok(s) && s@ == spec_hex(sha256_of(encode_utf8(h@)))),
{
    match header {
        None => Err(AppError::Unauthorized(String::from_str("API Key eksik (X-API-Key header'ı gerekli)"))),
        Some(h) => Ok(hash_token(h)),
    }
}

/// Admits a request made with an API key, once the key's hash has been looked up
/// (`found`: `Err` when the lookup failed, `Ok(None)` when no active key has that hash,
/// else the key's id and tier): a failed lookup and an unknown key are refused and
/// change nothing; a known key's request is counted against its daily quota
/// (`UsageTracker::record_request`, with `stored_requests` as today's stored count), and
/// a refusal there is answered "too many requests" with the quota's message.
pub fn admit_api_key(
    tracker: &mut UsageTracker,
    found: Result<Option<(u128, String)>, ()>,
    today: CalendarDate,
    stored_requests: i32,
) -> (r: Result<u128, AppError>)
    requires
        found matches Ok(Some((id, _))) ==> spec_buffered(old(tracker).buffer@, id).0 < i32::MAX
            && spec_buffered(old(tracker).buffer@, id).1 < i32::MAX,
    ensures
        found is Err ==> (r matches Err(e) && e@ == (ErrorKind::Internal, "Veritabanı hatası"@))
            && final(tracker).cache@ == old(tracker).cache@ && final(tracker).buffer@ == old(tracker).buffer@,
        found == Ok::<Option<(u128, String)>, ()>(None) ==> (r matches Err(e) && e@ == (
            ErrorKind::Unauthorized,
            "Geçersiz veya pasif API Key"@,
        )) && final(tracker).cache@ == old(tracker).cache@ && final(tracker).buffer@ == old(tracker).buffer@,
        found matches Ok(Some((id, tier))) ==> ({
            let current = match spec_cached(old(tracker).cache@, id, today) {
                Some(c) => c,
                None => stored_requests,
            };
            let limit = spec_tier_limit(tier@);
            let seen = match spec_cached(old(tracker).cache@, id, today) {
                Some(c) => old(tracker).cache@,
                None => cache_set(old(tracker).cache@, id, stored_requests, today),
            };
            &&& current >= limit ==> (r matches Err(e) && e@ == (ErrorKind::TooManyRequests, limit_message(limit)))
                && final(tracker).cache@ == seen && final(tracker).buffer@ == old(tracker).buffer@
            &&& current < limit ==> r == Ok::<u128, AppError>(id)
                && final(tracker).cache@ == cache_set(seen, id, (current + 1) as i32, today)
                && final(tracker).buffer@ == buffer_add(old(tracker).buffer@, id, false)
        }),
{
    match found {
        Err(()) => Err(AppError::Internal(String::from_str("Veritabanı hatası"))),
        Ok(None) => Err(AppError::Unauthorized(String::from_str("Geçersiz veya pasif API Key"))),
        Ok(Some((id, tier))) => match tracker.record_request(id, tier.as_str(), false, today, stored_requests) {
            Ok(()) => Ok(id),
            Err(m) => Err(AppError::TooManyRequests(m)),
        },
    }
}

/// Once a key's count for today reaches its limit, every further request of that day
/// is refused: the count never passes the limit through accepted requests.
pub proof fn lemma_count_stays_within_limit(
    c: Map<u128, (i32, CalendarDate)>,
    key: u128,
    today: CalendarDate,
    n: i32,
    limit: int,
)
    requires
        n < limit,
    ensures
        spec_cached(cache_set(c, key, (n + 1) as i32, today), key, today) == Some((n + 1) as i32),
        (n + 1) <= limit,
{
}

} // verus!
