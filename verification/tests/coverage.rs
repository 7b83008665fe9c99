use kepce_api::coverage::{coverage_days, coverage_table, CoverageRow};

fn row(city: i32, name: &str, day: Option<i32>, meal: Option<&str>, menu: Option<i32>, approved: Option<bool>, dishes: Option<i32>) -> CoverageRow {
    CoverageRow {
        city_id: city,
        city_name: name.to_string(),
        city_slug: name.to_lowercase(),
        day,
        meal: meal.map(|m| m.to_string()),
        menu_id: menu,
        is_approved: approved,
        source: None,
        has_bot_commentary: None,
        dish_count: dishes,
    }
}

#[test]
fn days_of_the_table_month() {
    assert_eq!(coverage_days(2024, 2), 29);
    assert_eq!(coverage_days(2023, 2), 28);
    assert_eq!(coverage_days(1900, 2), 28);
    assert_eq!(coverage_days(2000, 2), 29);
    assert_eq!(coverage_days(2024, 4), 30);
    assert_eq!(coverage_days(2024, 12), 31);
    assert_eq!(coverage_days(2024, 13), 30);
}

#[test]
fn rows_group_by_city_day_and_meal() {
    let rows = vec![
        row(7, "Van", Some(3), Some("LUNCH"), Some(70), Some(true), Some(5)),
        row(2, "Ankara", None, None, None, None, None),
        row(7, "Van2", Some(1), Some("dinner"), Some(71), None, None),
        row(7, "Van", Some(3), Some("lunch"), Some(72), Some(false), Some(6)),
        row(7, "Van", Some(3), Some("breakfast"), Some(73), Some(true), Some(2)),
    ];
    let t = coverage_table(&rows);
    assert_eq!(t.len(), 2);
    assert_eq!((t[0].id, t[0].name.as_str(), t[0].slug.as_str()), (2, "Ankara", "ankara"));
    assert!(t[0].days.is_empty());
    assert_eq!((t[1].id, t[1].name.as_str()), (7, "Van"));
    let days: Vec<i32> = t[1].days.iter().map(|d| d.day).collect();
    assert_eq!(days, vec![1, 3]);
    let d1 = &t[1].days[0];
    assert_eq!(d1.meals.len(), 1);
    assert_eq!(d1.meals[0].meal, "dinner");
    assert_eq!(d1.meals[0].cell.menu_id, Some(71));
    assert!(!d1.meals[0].cell.is_approved);
    assert_eq!(d1.meals[0].cell.dish_count, 0);
    let d3 = &t[1].days[1];
    let meals: Vec<&str> = d3.meals.iter().map(|m| m.meal.as_str()).collect();
    assert_eq!(meals, vec!["lunch", "breakfast"]);
    assert_eq!(d3.meals[0].cell.menu_id, Some(72));
    assert_eq!(d3.meals[0].cell.dish_count, 6);
    assert!(d3.meals[1].cell.is_approved);
}
