//! The developer portal: who may make projects and keys, how a new API key is written
//! and stored, and the daily usage series of a user's keys.

use vstd::prelude::*;
use vstd::string::StringExecFns;
use vstd::utf8::encode_utf8;
use crate::calendar::{CalendarDate, date_text, format_date};
use crate::service_errors::DeveloperError;
use crate::error::{AppError, ErrorKind};
use crate::digest::{sha256_of, hash_token};
use crate::oauth::{spec_hex, hex_token};
use crate::system::{days_ending, last_days};
use crate::assistant::str_is;
use crate::text::{char_vec, trim, spec_trim, extend_str, string_from_chars};

verus! {

/// The author of a project or key must be a known, verified user.
pub fn require_developer(user_verified: Option<bool>) -> (r: Result<(), DeveloperError>)
    ensures
        user_verified is None ==> r matches Err(DeveloperError::Unauthorized),
        user_verified == Some(false) ==> r matches Err(DeveloperError::UnverifiedUser),
        user_verified == Some(true) ==> r is Ok,
{
    match user_verified {
        None => Err(DeveloperError::Unauthorized),
        Some(false) => Err(DeveloperError::UnverifiedUser),
        Some(true) => Ok(()),
    }
}

/// A project must have a name that is not blank.
pub fn check_project_name(name: &str) -> (r: Result<(), DeveloperError>)
    ensures
        spec_trim(name@).len() == 0 ==> (r matches Err(DeveloperError::InvalidInput(m)) && m@ == "Proje ismi boş olamaz"@),
        spec_trim(name@).len() > 0 ==> r is Ok,
{
    if trim(name).len() == 0 {
        Err(DeveloperError::InvalidInput(String::from_str("Proje ismi boş olamaz")))
    } else {
        Ok(())
    }
}

/// Only the owner of a project or key may change it.
pub fn require_owner(owner: u128, user: u128) -> (r: Result<(), DeveloperError>)
    ensures
        owner == user <==> r is Ok,
        r is Err ==> r matches Err(DeveloperError::Unauthorized),
{
    if owner != user { Err(DeveloperError::Unauthorized) } else { Ok(()) }
}

/// Who an ingestion request is made by: a signed-in user or the owner of an API key.
pub enum IngestionPrincipal {
    User(u128),
    Developer(u128),
}

/// Who may submit a menu: a request with a session (`user` is `Some`: the outcome of
/// reading it) is its user's when that succeeds; a failed session decides only when no
/// API key came (`key` is `None`), so that stray browser cookies do not block a key;
/// otherwise the key's outcome decides, and a request with neither is refused.
pub open spec fn spec_ingestion_auth(
    user: Option<Result<u128, AppError>>,
    key: Option<Result<u128, AppError>>,
) -> Result<IngestionPrincipal, (ErrorKind, Seq<char>)> {
    match (user, key) {
        (Some(Ok(u)), _) => Ok(IngestionPrincipal::User(u)),
        (Some(Err(e)), None) => Err(e@),
        (_, Some(Ok(k))) => Ok(IngestionPrincipal::Developer(k)),
        (_, Some(Err(e))) => Err(e@),
        (None, None) => Err(
            (ErrorKind::Unauthorized, "Bu işlem için giriş yapmalı veya geçerli bir X-API-Key sağlamalısınız."@),
        ),
    }
}

/// Decides who an ingestion request is made by (see `spec_ingestion_auth`).
pub fn ingestion_auth(
    user: Option<Result<u128, AppError>>,
    key: Option<Result<u128, AppError>>,
) -> (r: Result<IngestionPrincipal, AppError>)
    ensures
        match (r, spec_ingestion_auth(user, key)) {
            (Ok(p), Ok(q)) => p == q,
            (Err(e), Err(v)) => e@ == v,
            _ => false,
        },
{
    match user {
        Some(Ok(u)) => return Ok(IngestionPrincipal::User(u)),
        Some(Err(e)) => if key.is_none() {
            return Err(e);
        },
        None => {},
    }
    match key {
        Some(Ok(k)) => Ok(IngestionPrincipal::Developer(k)),
        Some(Err(e)) => Err(e),
        None => Err(
            AppError::Unauthorized(String::from_str("Bu işlem için giriş yapmalı veya geçerli bir X-API-Key sağlamalısınız.")),
        ),
    }
}

/// A new API key as shown once to its owner, its stored prefix, and the stored hash.
pub struct NewApiKey {
    pub raw_key: String,
    pub key_prefix: String,
    pub key_hash: String,
}

/// The key made from 16 random bytes: `kp_live_` and the bytes in hexadecimal (40
/// characters); its first 10 characters are kept to recognise it, and its hash to check
/// it.
pub open spec fn spec_api_key(random: Seq<u8>) -> Seq<char> {
    "kp_live_"@ + spec_hex(random)
}

proof fn lemma_hex_len(b: Seq<u8>)
    ensures
        spec_hex(b).len() == 2 * b.len(),
    decreases b.len(),
{
    if b.len() > 0 {
        lemma_hex_len(b.drop_last());
    }
}

/// Makes a new API key from 16 random bytes.
pub fn new_api_key(random: &[u8]) -> (r: NewApiKey)
    requires
        random@.len() == 16,
    ensures
        r.raw_key@ == spec_api_key(random@),
        r.raw_key@.len() == 40,
        r.key_prefix@ == spec_api_key(random@).take(10),
        r.key_hash@ == spec_hex(sha256_of(encode_utf8(spec_api_key(random@)))),
{
    let hex = hex_token(random);
    proof {
        lemma_hex_len(random@);
        reveal_strlit("kp_live_");
    }
    let mut key: Vec<char> = Vec::new();
    extend_str(&mut key, "kp_live_");
    extend_str(&mut key, hex.as_str());
    let mut prefix: Vec<char> = Vec::new();
    let mut i: usize = 0;
    while i < 10
        invariant
            key@.len() == 40,
            i <= 10,
            prefix@ == key@.take(i as int),
        decreases 10 - i,
    {
        prefix.push(key[i]);
        assert(prefix@ =~= key@.take(i + 1));
        i = i + 1;
    }
    let raw = string_from_chars(key.as_slice());
    let hash = hash_token(raw.as_str());
    NewApiKey { raw_key: raw, key_prefix: string_from_chars(prefix.as_slice()), key_hash: hash }
}

/// The project a usage query is about: every project for `all`, else the project whose
/// id is given.
pub fn usage_project(project_id: &str, id_parsed: Option<u128>) -> (r: Result<Option<u128>, DeveloperError>)
    ensures
        project_id@ == "all"@ ==> r == Ok::<Option<u128>, DeveloperError>(None),
        project_id@ != "all"@ ==> match id_parsed {
            Some(u) => r == Ok::<Option<u128>, DeveloperError>(Some(u)),
            None => r matches Err(DeveloperError::InvalidInput(m)) && m@ == "Geçersiz proje ID"@,
        },
{
    if str_is(project_id, "all") {
        return Ok(None);
    }
    match id_parsed {
        Some(u) => Ok(Some(u)),
        None => Err(DeveloperError::InvalidInput(String::from_str("Geçersiz proje ID"))),
    }
}

/// One day's logged requests and errors of one key.
pub struct UsageLog {
    pub date: CalendarDate,
    pub requests: i32,
    pub errors: i32,
}

/// The requests and errors logged on `day`.
pub open spec fn day_sums(logs: Seq<UsageLog>, day: CalendarDate) -> (int, int)
    decreases logs.len(),
{
    if logs.len() == 0 {
        (0, 0)
    } else {
        let (r, e) = day_sums(logs.drop_last(), day);
        if logs.last().date == day { (r + logs.last().requests, e + logs.last().errors) } else { (r, e) }
    }
}

/// The sums of every prefix of the logs, on every day, fit in `i32`.
pub open spec fn sums_fit(logs: Seq<UsageLog>) -> bool {
    forall|k: int, day: CalendarDate| 0 <= k <= logs.len() ==> {
        let s = #[trigger] day_sums(logs.take(k), day);
        &&& i32::MIN <= s.0 <= i32::MAX
        &&& i32::MIN <= s.1 <= i32::MAX
    }
}

/// The number of days a usage series covers: as asked, at least one.
pub open spec fn window(days: i32) -> nat {
    if days < 1 { 1 } else { days as nat }
}

fn sums_on(logs: &Vec<UsageLog>, day: CalendarDate) -> (r: (i32, i32))
    requires
        sums_fit(logs@),
    ensures
        (r.0 as int, r.1 as int) == day_sums(logs@, day),
{
    let mut req: i32 = 0;
    let mut err: i32 = 0;
    let mut i: usize = 0;
    assert(logs@.take(0) =~= Seq::<UsageLog>::empty());
    while i < logs.len()
        invariant
            i <= logs@.len(),
            sums_fit(logs@),
            (req as int, err as int) == day_sums(logs@.take(i as int), day),
        decreases logs@.len() - i,
    {
        proof {
            assert(logs@.take(i + 1).drop_last() =~= logs@.take(i as int));
            assert(logs@.take(i + 1).last() == logs@[i as int]);
            let s = day_sums(logs@.take(i + 1), day);
        }
        if logs[i].date == day {
            req = req + logs[i].requests;
            err = err + logs[i].errors;
        }
        i = i + 1;
    }
    assert(logs@.take(logs@.len() as int) =~= logs@);
    (req, err)
}

/// The daily usage of the window that ends `today`, oldest day first: each day written
/// `YYYY-MM-DD`, with the requests and errors logged on it (logs of other days are not
/// counted).
pub fn usage_series(today: CalendarDate, days: i32, logs: &Vec<UsageLog>) -> (r: Vec<(String, i32, i32)>)
    requires
        today.wf(),
        sums_fit(logs@),
    ensures
        r@.len() == days_ending(today, window(days)).len(),
        forall|k: int| 0 <= k < r@.len() ==> {
            let d = days_ending(today, window(days))[k];
            &&& (#[trigger] r@[k]).0@ == date_text(d)
            &&& (r@[k].1 as int, r@[k].2 as int) == day_sums(logs@, d)
        },
{
    let n: usize = if days < 1 { 1 } else { days as usize };
    let ds = last_days(today, n);
    let mut out: Vec<(String, i32, i32)> = Vec::new();
    let mut i: usize = 0;
    while i < ds.len()
        invariant
            i <= ds@.len(),
            ds@ == days_ending(today, window(days)),
            sums_fit(logs@),
            today.wf(),
            out@.len() == i,
            forall|k: int| 0 <= k < i ==> {
                let d = ds@[k];
                &&& (#[trigger] out@[k]).0@ == date_text(d)
                &&& (out@[k].1 as int, out@[k].2 as int) == day_sums(logs@, d)
            },
        decreases ds@.len() - i,
    {
        let d = ds[i];
        proof {
            lemma_days_ending_wf(today, window(days), i as int);
        }
        let (rq, er) = sums_on(logs, d);
        out.push((format_date(d), rq, er));
        i = i + 1;
    }
    out
}

proof fn lemma_days_ending_wf(t: CalendarDate, n: nat, k: int)
    requires
        t.wf(),
        0 <= k < days_ending(t, n).len(),
    ensures
        days_ending(t, n)[k].wf(),
    decreases n,
{
    if n > 1 {
        match crate::calendar::prev_day(t) {
            Some(p) => {
                let inner = days_ending(p, (n - 1) as nat);
                if k < inner.len() {
                    lemma_days_ending_wf(p, (n - 1) as nat, k);
                }
            },
            None => {},
        }
    }
}

} // verus!
