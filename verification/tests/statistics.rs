use kepce_api::statistics::{
    category_color, leaderboard_plan, moderation_filters, report_status_counts, resolution_summary, timeframe_interval,
};

#[test]
fn timeframes() {
    assert_eq!(timeframe_interval(Some("daily")), "1 day");
    assert_eq!(timeframe_interval(Some("weekly")), "7 days");
    assert_eq!(timeframe_interval(Some("monthly")), "30 days");
    assert_eq!(timeframe_interval(Some("yearly")), "365 days");
    assert_eq!(timeframe_interval(Some("hourly")), "");
    assert_eq!(timeframe_interval(None), "");
    let (a, b) = moderation_filters("7 days");
    assert_eq!(a, "WHERE created_at >= NOW() - INTERVAL '7 days'");
    assert_eq!(b, "WHERE is_deleted = true AND updated_at >= NOW() - INTERVAL '7 days'");
    let (a, b) = moderation_filters("");
    assert_eq!((a.as_str(), b.as_str()), ("", "WHERE is_deleted = true"));
}

#[test]
fn report_summary() {
    let rows = vec![("resolved".to_string(), 6i64), ("pending".to_string(), 3), ("other".to_string(), 9), ("dismissed".to_string(), 1)];
    let (p, r, d) = report_status_counts(&rows);
    assert_eq!((p, r, d), (3, 6, 1));
    assert_eq!(resolution_summary(p, r, d), (10, Some(70)));
    assert_eq!(resolution_summary(0, 0, 0), (0, None));
    assert_eq!(resolution_summary(2, 0, 1), (3, Some(33)));
    assert_eq!(category_color("Spam & Reklam"), "#f59e0b");
    assert_eq!(category_color("Kural Dışı / Diğer"), "#a855f7");
}

#[test]
fn leaderboard_queries() {
    let p = leaderboard_plan(500, true, true, Some("weekly"));
    assert_eq!((p.order, p.limit, p.join_cities), ("DESC", 100, true));
    assert_eq!(p.where_clause, "WHERE ci.slug = $2 AND dv.created_at >= NOW() - INTERVAL '7 days'");
    let p = leaderboard_plan(5, false, false, None);
    assert_eq!((p.order, p.limit, p.where_clause.as_str()), ("ASC", 5, ""));
    let p = leaderboard_plan(5, false, false, Some("monthly"));
    assert_eq!(p.where_clause, "WHERE dv.created_at >= NOW() - INTERVAL '30 days'");
}

#[test]
fn contributors_and_trending_limits() {
    use_contributors();
}

fn use_contributors() {
    let (n, a) = kepce_api::statistics::contributor_entry(true, Some("ali".to_string()), Some("a.png".to_string()));
    assert_eq!((n.as_str(), a), ("Anonim", None));
    let (n, a) = kepce_api::statistics::contributor_entry(false, None, Some("a.png".to_string()));
    assert_eq!((n.as_str(), a.as_deref()), ("Bilinmeyen", Some("a.png")));
    assert_eq!(kepce_api::statistics::trending_limit(10), 10);
    assert_eq!(kepce_api::statistics::trending_limit(500), 50);
}
