use kepce_api::bot_feed::{feed_text, injection_plan, parse_bot_date, parse_month_range, FeedMenu};
use kepce_api::calendar::CalendarDate;
use kepce_api::dto::menu::MealType;
use kepce_api::service_errors::ModerationError;

fn d(year: i32, month: u32, day: u32) -> CalendarDate {
    CalendarDate { year, month, day }
}

#[test]
fn month_ranges_cover_the_month() {
    assert_eq!(parse_month_range("2024-02").unwrap(), (d(2024, 2, 1), d(2024, 3, 1)));
    assert_eq!(parse_month_range("2024-12").unwrap(), (d(2024, 12, 1), d(2025, 1, 1)));
    match parse_month_range("2024-13") {
        Err(ModerationError::InvalidMonth(m)) => assert_eq!(m, "2024-13"),
        _ => panic!("month 13 must be refused"),
    }
    assert!(matches!(parse_month_range("2024"), Err(ModerationError::InvalidMonth(_))));
    assert!(matches!(parse_month_range("2024-xx"), Err(ModerationError::InvalidMonth(_))));
}

#[test]
fn bot_dates_in_both_forms() {
    assert_eq!(parse_bot_date("2024-03-05"), Some(d(2024, 3, 5)));
    assert_eq!(parse_bot_date("  5 Mart 2024 "), Some(d(2024, 3, 5)));
    assert_eq!(parse_bot_date("5 MART 2024"), Some(d(2024, 3, 5)));
    assert_eq!(parse_bot_date("14 Şubat 2024"), Some(d(2024, 2, 14)));
    assert_eq!(parse_bot_date("31 Şubat 2024"), None);
    assert_eq!(parse_bot_date("5 Martt 2024"), None);
    assert_eq!(parse_bot_date("yarın"), None);
}

#[test]
fn feed_groups_menus_by_day() {
    let menus = vec![
        FeedMenu {
            date: d(2024, 3, 5),
            meal: MealType::Lunch,
            dishes: vec![("Mercimek Çorbası".to_string(), false), ("Pilav".to_string(), true)],
        },
        FeedMenu { date: d(2024, 3, 5), meal: MealType::Dinner, dishes: vec![("Kuru Fasulye".to_string(), false)] },
        FeedMenu { date: d(2024, 3, 6), meal: MealType::Lunch, dishes: vec![] },
    ];
    let text = feed_text(&menus);
    assert_eq!(
        text,
        "\n=== 2024-03-05 ===\n--- Öğle Yemeği ---\n- Mercimek Çorbası\n- Pilav (alternatif)\n\
         --- Akşam Yemeği ---\n- Kuru Fasulye\n\n=== 2024-03-06 ===\n--- Öğle Yemeği ---\n"
    );
    assert_eq!(feed_text(&vec![]), "");
}

#[test]
fn comments_become_stored_json() {
    let entries = vec![
        ("2024-03-05".to_string(), "Güzel \"menü\"\nyarın da".to_string()),
        ("6 Mart 2024".to_string(), "tab\there".to_string()),
    ];
    let plan = injection_plan(&entries).unwrap();
    assert_eq!(plan.len(), 2);
    assert_eq!(plan[0].0, d(2024, 3, 5));
    assert_eq!(plan[0].1, "{\"yorum\":\"Güzel \\\"menü\\\"\\nyarın da\"}");
    let back: serde_json::Value = serde_json::from_str(&plan[0].1).unwrap();
    assert_eq!(back["yorum"], "Güzel \"menü\"\nyarın da");
    assert_eq!(plan[1].0, d(2024, 3, 6));
    assert_eq!(plan[1].1, "{\"yorum\":\"tab\\there\"}");
    let bad = vec![("2024-03-05".to_string(), "ok".to_string()), ("dün".to_string(), "x".to_string())];
    match injection_plan(&bad) {
        Err(ModerationError::DateParseError(m)) => assert_eq!(m, "dün"),
        _ => panic!("an unreadable day refuses the batch"),
    }
}
