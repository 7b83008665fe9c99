//! How the statistics queries are shaped (time windows, filters, limits and order) and
//! how the moderation summary is computed from the counts the database returns.

use vstd::prelude::*;
use crate::assistant::str_is;
use crate::text::{char_vec, extend_str, extend_chars, string_from_chars};

verus! {

/// The SQL interval of a statistics timeframe (`daily`, `weekly`, `monthly`, `yearly`);
/// empty for any other or no timeframe (all time).
pub open spec fn spec_interval(timeframe: Option<Seq<char>>) -> Seq<char> {
    match timeframe {
        Some(t) => if t == "daily"@ {
            "1 day"@
        } else if t == "weekly"@ {
            "7 days"@
        } else if t == "monthly"@ {
            "30 days"@
        } else if t == "yearly"@ {
            "365 days"@
        } else {
            Seq::empty()
        },
        None => Seq::empty(),
    }
}

/// The SQL interval of a timeframe.
pub fn timeframe_interval(timeframe: Option<&str>) -> (r: &'static str)
    ensures
        r@ == spec_interval(match timeframe {
            Some(t) => Some(t@),
            None => None,
        }),
{
    proof {
        reveal_strlit("");
    }
    match timeframe {
        Some(t) => if str_is(t, "daily") {
            "1 day"
        } else if str_is(t, "weekly") {
            "7 days"
        } else if str_is(t, "monthly") {
            "30 days"
        } else if str_is(t, "yearly") {
            "365 days"
        } else {
            ""
        },
        None => "",
    }
}

/// The `WHERE` clause that keeps the reports of the time window (none for all time).
pub open spec fn spec_reports_filter(interval: Seq<char>) -> Seq<char> {
    if interval.len() == 0 {
        Seq::empty()
    } else {
        "WHERE created_at >= NOW() - INTERVAL '"@ + interval + "'"@
    }
}

/// The `WHERE` clause that keeps the comments removed in the time window.
pub open spec fn spec_deleted_comments_filter(interval: Seq<char>) -> Seq<char> {
    if interval.len() == 0 {
        "WHERE is_deleted = true"@
    } else {
        "WHERE is_deleted = true AND updated_at >= NOW() - INTERVAL '"@ + interval + "'"@
    }
}

/// Builds the report and removed-comment filters of a time window.
pub fn moderation_filters(interval: &str) -> (r: (String, String))
    ensures
        r.0@ == spec_reports_filter(interval@),
        r.1@ == spec_deleted_comments_filter(interval@),
{
    let iv = char_vec(interval);
    if iv.len() == 0 {
        let mut b: Vec<char> = Vec::new();
        extend_str(&mut b, "WHERE is_deleted = true");
        (string_from_chars(Vec::<char>::new().as_slice()), string_from_chars(b.as_slice()))
    } else {
        let mut a: Vec<char> = Vec::new();
        extend_str(&mut a, "WHERE created_at >= NOW() - INTERVAL '");
        extend_chars(&mut a, iv.as_slice());
        extend_str(&mut a, "'");
        let mut b: Vec<char> = Vec::new();
        extend_str(&mut b, "WHERE is_deleted = true AND updated_at >= NOW() - INTERVAL '");
        extend_chars(&mut b, iv.as_slice());
        extend_str(&mut b, "'");
        (string_from_chars(a.as_slice()), string_from_chars(b.as_slice()))
    }
}

/// The count the database reported for `status` (the last row for it), 0 when none.
pub open spec fn status_count(rows: Seq<(Seq<char>, i64)>, status: Seq<char>) -> i64
    decreases rows.len(),
{
    if rows.len() == 0 {
        0
    } else if rows.last().0 == status {
        rows.last().1
    } else {
        status_count(rows.drop_last(), status)
    }
}

/// Reads the pending, resolved and dismissed report counts from the rows of the
/// status query.
pub fn report_status_counts(rows: &Vec<(String, i64)>) -> (r: (i64, i64, i64))
    ensures
        r.0 == status_count(rows@.map_values(|p: (String, i64)| (p.0@, p.1)), "pending"@),
        r.1 == status_count(rows@.map_values(|p: (String, i64)| (p.0@, p.1)), "resolved"@),
        r.2 == status_count(rows@.map_values(|p: (String, i64)| (p.0@, p.1)), "dismissed"@),
{
    let ghost rs = rows@.map_values(|p: (String, i64)| (p.0@, p.1));
    let mut pending: i64 = 0;
    let mut resolved: i64 = 0;
    let mut dismissed: i64 = 0;
    let mut i: usize = 0;
    assert(rs.take(0) =~= Seq::<(Seq<char>, i64)>::empty());
    while i < rows.len()
        invariant
            i <= rows@.len(),
            rs == rows@.map_values(|p: (String, i64)| (p.0@, p.1)),
            pending == status_count(rs.take(i as int), "pending"@),
            resolved == status_count(rs.take(i as int), "resolved"@),
            dismissed == status_count(rs.take(i as int), "dismissed"@),
        decreases rows@.len() - i,
    {
        proof {
            reveal_strlit("pending");
            reveal_strlit("resolved");
            reveal_strlit("dismissed");
            assert("pending"@.len() == 7);
            assert("resolved"@.len() == 8);
            assert("dismissed"@.len() == 9);
            assert(rs.take(i + 1).drop_last() =~= rs.take(i as int));
            assert(rs.take(i + 1).last() == (rows@[i as int].0@, rows@[i as int].1));
        }
        let s = rows[i].0.as_str();
        let c = rows[i].1;
        if str_is(s, "pending") {
            pending = c;
        } else if str_is(s, "resolved") {
            resolved = c;
        } else if str_is(s, "dismissed") {
            dismissed = c;
        }
        i = i + 1;
    }
    assert(rs.take(rows@.len() as int) =~= rs);
    (pending, resolved, dismissed)
}

/// The share of closed (resolved or dismissed) reports in percent, rounded down; `None`
/// when there are no reports.
pub open spec fn spec_resolution_rate(pending: int, resolved: int, dismissed: int) -> Option<int> {
    let total = pending + resolved + dismissed;
    if total > 0 {
        Some((resolved + dismissed) * 100 / total)
    } else {
        None
    }
}

/// Summarizes the report counts: the total and the resolution rate.
pub fn resolution_summary(pending: i64, resolved: i64, dismissed: i64) -> (r: (i64, Option<i32>))
    requires
        pending >= 0,
        resolved >= 0,
        dismissed >= 0,
        (pending + resolved + dismissed) * 100 <= i64::MAX,
    ensures
        r.0 == pending + resolved + dismissed,
        match r.1 {
            Some(x) => spec_resolution_rate(pending as int, resolved as int, dismissed as int) == Some(x as int),
            None => spec_resolution_rate(pending as int, resolved as int, dismissed as int) is None,
        },
        r.1 matches Some(x) ==> 0 <= x <= 100,
{
    let total = pending + resolved + dismissed;
    if total > 0 {
        let closed = resolved + dismissed;
        let rate = closed * 100 / total;
        assert((closed * 100) as int / (total as int) <= 100) by (nonlinear_arith)
            requires
                0 <= closed <= total,
                total > 0,
        ;
        assert((closed * 100) as int / (total as int) >= 0) by (nonlinear_arith)
            requires
                0 <= closed,
                total > 0,
        ;
        (total, Some(rate as i32))
    } else {
        (total, None)
    }
}

/// The chart colour of a report category.
pub open spec fn spec_category_color(category: Seq<char>) -> Seq<char> {
    if category == "Hakaret & Küfür"@ {
        "#f43f5e"@
    } else if category == "Spam & Reklam"@ {
        "#f59e0b"@
    } else if category == "Yanıltıcı İçerik"@ {
        "#3b82f6"@
    } else {
        "#a855f7"@
    }
}

/// The chart colour of a report category.
pub fn category_color(category: &str) -> (r: &'static str)
    ensures
        r@ == spec_category_color(category@),
{
    if str_is(category, "Hakaret & Küfür") {
        "#f43f5e"
    } else if str_is(category, "Spam & Reklam") {
        "#f59e0b"
    } else if str_is(category, "Yanıltıcı İçerik") {
        "#3b82f6"
    } else {
        "#a855f7"
    }
}

/// The shape of a dish leaderboard query: best (`DESC`) or worst (`ASC`) first, at most
/// 100 rows, joined with menus and cities when a city is named, and filtered by the
/// time window.
pub struct LeaderboardPlan {
    pub order: &'static str,
    pub limit: i64,
    pub join_cities: bool,
    pub where_clause: String,
}

/// The `WHERE` clause of a leaderboard: the city condition (bound as parameter `$2`)
/// and the time-window condition, joined by `AND`.
pub open spec fn spec_leaderboard_where(has_city: bool, interval: Seq<char>) -> Seq<char> {
    let city = "ci.slug = $2"@;
    let window = "dv.created_at >= NOW() - INTERVAL '"@ + interval + "'"@;
    if has_city && interval.len() > 0 {
        "WHERE "@ + city + " AND "@ + window
    } else if has_city {
        "WHERE "@ + city
    } else if interval.len() > 0 {
        "WHERE "@ + window
    } else {
        Seq::empty()
    }
}

/// Plans a dish leaderboard query.
pub fn leaderboard_plan(limit: u64, is_top: bool, has_city: bool, timeframe: Option<&str>) -> (r: LeaderboardPlan)
    ensures
        r.order@ == (if is_top { "DESC"@ } else { "ASC"@ }),
        r.limit == (if limit < 100 { limit as int } else { 100 }),
        r.join_cities == has_city,
        r.where_clause@ == spec_leaderboard_where(has_city, spec_interval(match timeframe {
            Some(t) => Some(t@),
            None => None,
        })),
{
    let order = if is_top { "DESC" } else { "ASC" };
    let safe_limit: i64 = if limit < 100 { limit as i64 } else { 100 };
    let interval = timeframe_interval(timeframe);
    let iv = char_vec(interval);
    let mut w: Vec<char> = Vec::new();
    if has_city || iv.len() > 0 {
        extend_str(&mut w, "WHERE ");
    }
    if has_city {
        extend_str(&mut w, "ci.slug = $2");
    }
    if has_city && iv.len() > 0 {
        extend_str(&mut w, " AND ");
    }
    if iv.len() > 0 {
        extend_str(&mut w, "dv.created_at >= NOW() - INTERVAL '");
        extend_chars(&mut w, iv.as_slice());
        extend_str(&mut w, "'");
    }
    LeaderboardPlan { order, limit: safe_limit, join_cities: has_city, where_clause: string_from_chars(w.as_slice()) }
}

/// How a top reporter is shown: one who opted out of statistics is `Anonim` without a
/// picture; an unreadable name is `Bilinmeyen`.
pub fn contributor_entry(opt_out: bool, nickname: Option<String>, avatar_url: Option<String>) -> (r: (String, Option<String>))
    ensures
        opt_out ==> r.0@ == "Anonim"@ && r.1 is None,
        !opt_out ==> r.0@ == (match nickname { Some(n) => n@, None => "Bilinmeyen"@ }) && r.1 == avatar_url,
{
    if opt_out {
        (String::from_str("Anonim"), None)
    } else {
        let n = match nickname {
            Some(n) => n,
            None => String::from_str("Bilinmeyen"),
        };
        (n, avatar_url)
    }
}

/// The number of trending tags asked for, at most 50.
pub fn trending_limit(limit: u64) -> (r: i64)
    ensures
        r == (if limit < 50 { limit as int } else { 50 }),
{
    if limit < 50 { limit as i64 } else { 50 }
}

} // verus!
