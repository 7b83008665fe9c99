use kepce_api::profile::{badge_style, level_progress, level_title, profile_badges, user_profile, BadgeRecord, EarnedBadge, ProfileAccount, MAX_LEVEL_KARMA};
use kepce_api::dto::user::UserRole;

#[test]
fn levels_follow_the_square_rule() {
    let p = level_progress(0);
    assert_eq!((p.level, p.title.as_str(), p.progress_percent, p.karma_in_level, p.karma_for_next), (1, "Çırak", 0, 0, 10));
    let p = level_progress(-5);
    assert_eq!((p.level, p.karma_in_level), (1, 0));
    let p = level_progress(9);
    assert_eq!((p.level, p.progress_percent), (1, 90));
    let p = level_progress(10);
    assert_eq!((p.level, p.title.as_str(), p.karma_in_level, p.karma_for_next, p.progress_percent), (2, "Kalfalık Yolunda", 0, 30, 0));
    let p = level_progress(1420);
    assert_eq!((p.level, p.karma_in_level, p.karma_for_next, p.progress_percent), (12, 210, 230, 91));
    let p = level_progress(25);
    assert_eq!(p.progress_percent, 50);
    let p = level_progress(MAX_LEVEL_KARMA);
    assert_eq!(p.level, 14654);
    assert_eq!(MAX_LEVEL_KARMA, 2147397159);
    assert_eq!((p.karma_in_level, p.karma_for_next), (2147397159 - 2147104090, 2147397160 - 2147104090));
    assert_eq!(level_title(10), "Efsane Şef");
    assert_eq!(level_title(5), "Usta");
}

#[test]
fn badges_are_styled_by_name() {
    assert_eq!(badge_style("Sadakat Rozeti"), ("sadakat", "heart"));
    assert_eq!(badge_style("Yorum Ustası"), ("sosyal", "messageSquare"));
    assert_eq!(badge_style("Şikayet Avcısı"), ("denetim", "starFilled"));
    assert_eq!(badge_style("Veri Kahramanı"), ("veri", "database"));
    assert_eq!(badge_style("Level 5"), ("sadakat", "starFilled"));
    assert_eq!(badge_style("İlk Adım"), ("sadakat", "starFilled"));
}

fn catalogue() -> Vec<BadgeRecord> {
    vec![
        BadgeRecord { id: 1, name: "Sadakat Rozeti".to_string(), icon_url: None, description: Some("d".to_string()) },
        BadgeRecord { id: 2, name: "Yorum Ustası".to_string(), icon_url: Some("/i.png".to_string()), description: None },
        BadgeRecord { id: 3, name: "Veri Kahramanı".to_string(), icon_url: None, description: None },
    ]
}

#[test]
fn badges_unlock_from_the_earned_ones() {
    let earned = vec![
        EarnedBadge { badge_id: 3, awarded_at: Some("2026-01-02T00:00:00Z".to_string()) },
        EarnedBadge { badge_id: 3, awarded_at: None },
    ];
    let (badges, count) = profile_badges(catalogue(), &earned);
    assert_eq!(count, 1);
    assert_eq!(badges.len(), 3);
    assert!(!badges[0].unlocked && badges[0].count == 0 && badges[0].awarded_at.is_none());
    assert_eq!((badges[0].category.as_str(), badges[0].icon.as_deref()), ("sadakat", Some("heart")));
    assert_eq!(badges[1].icon_url.as_deref(), Some("/i.png"));
    assert!(badges[2].unlocked && badges[2].count == 1);
    assert_eq!(badges[2].awarded_at.as_deref(), Some("2026-01-02T00:00:00Z"));
    assert!(badges.iter().all(|b| b.karma_reward == 10 && !b.is_repeatable));
}

fn account() -> ProfileAccount {
    ProfileAccount {
        id: 42,
        username: "ayse".to_string(),
        role: UserRole::Admin,
        karma_score: 1420,
        is_verified: true,
        email: "ayse@example.com".to_string(),
        created_at: None,
        avatar_url: None,
        bio: Some("merhaba".to_string()),
        default_city_slug: Some("ankara".to_string()),
        google_id: Some("g-1".to_string()),
        opt_out_statistics: false,
    }
}

#[test]
fn private_fields_only_on_ones_own_profile() {
    let own = user_profile(account(), true, catalogue(), &vec![], "2026-05-01T00:00:00Z".to_string());
    assert_eq!(own.role, Some(UserRole::Admin));
    assert_eq!(own.email.as_deref(), Some("ayse@example.com"));
    assert_eq!(own.google_id.as_deref(), Some("g-1"));
    assert_eq!(own.is_admin, Some(true));
    assert_eq!((own.level, own.total_badges, own.badge_count), (12, 3, 0));
    assert_eq!(own.joined_at, "2026-05-01T00:00:00Z");
    let public = user_profile(account(), false, catalogue(), &vec![], "2026-05-01T00:00:00Z".to_string());
    assert_eq!(public.role, None);
    assert_eq!(public.email, None);
    assert_eq!(public.google_id, None);
    assert_eq!(public.is_admin, None);
    assert_eq!(public.bio.as_deref(), Some("merhaba"));
}
