use kepce_api::calendar::{date_from_ymd, CalendarDate};
use kepce_api::dto::menu::{DishMasterDataDto, MealType, MenuItemDto};
use kepce_api::menu::{
    assemble_menu, calculate_total_calories, compute_menu_dishes_signature, dish_label,
    format_calorie_range, history_record, item_placement, month_bounds, parse_alternative_from_history,
    select_alternatives, DishRecord, HistoryRecord, MenuContext, MenuDishRow, MenuStatus,
    PayloadDish, Placement,
};
use kepce_api::pricing::{insert_price, CityPricing, MealPricing, PeriodPricing, PriceInfo, PricingTable};

fn date(y: i32, m: u32, d: u32) -> CalendarDate {
    date_from_ymd(y, m, d).unwrap()
}

fn make_test_item(order_index: i32, is_alternative: bool, calories: Option<i32>) -> MenuItemDto {
    MenuItemDto {
        order_index,
        raw_name: "Test Yemek".into(),
        is_alternative,
        amount: None,
        calories,
        price_kurus: None,
        category: None,
        master_data: calories.map(|c| DishMasterDataDto {
            dish_id: 1,
            name: "Test Yemek".into(),
            is_celiac: false,
            is_vegan: false,
            is_vegetarian: false,
            estimated_calories: Some(c),
            total_votes: 0,
            positive_votes: 0,
            negative_votes: 0,
        }),
    }
}

fn named(order_index: i32, name: &str) -> MenuItemDto {
    MenuItemDto {
        order_index,
        raw_name: name.into(),
        is_alternative: false,
        amount: None,
        calories: None,
        price_kurus: None,
        category: None,
        master_data: None,
    }
}

#[test]
fn test_calculate_total_calories_empty() {
    assert_eq!(calculate_total_calories(&[]), None);
}

#[test]
fn test_calculate_total_calories_no_calories() {
    let items = vec![make_test_item(1, false, None), make_test_item(2, false, None)];
    assert_eq!(calculate_total_calories(&items), None);
}

#[test]
fn test_calculate_total_calories_sums_standard_items() {
    let items = vec![
        make_test_item(1, false, Some(250)),
        make_test_item(2, false, Some(450)),
        make_test_item(3, false, None),
    ];
    assert_eq!(calculate_total_calories(&items), Some(700));
}

#[test]
fn test_calculate_total_calories_ignores_alternatives() {
    let items = vec![
        make_test_item(1, false, Some(250)),
        make_test_item(2, true, Some(600)),
        make_test_item(3, false, Some(350)),
    ];
    assert_eq!(calculate_total_calories(&items), Some(600));
}

fn payload_named(name: &str, is_alternative: bool) -> PayloadDish {
    PayloadDish { text: None, name: Some(name.into()), raw_name: None, is_alternative: Some(is_alternative) }
}

fn payload_text(text: &str) -> PayloadDish {
    PayloadDish { text: Some(text.into()), name: None, raw_name: None, is_alternative: None }
}

#[test]
fn test_parse_alternative_from_history_dishes_array() {
    let hist = HistoryRecord {
        id: 10,
        source_type: "kykyemek".into(),
        dishes: Some(vec![payload_named("Mercimek Çorbası", false), payload_named("Kuru Fasulye", false)]),
    };
    let alt = parse_alternative_from_history(hist, &vec![false, false], MealType::Dinner).unwrap();
    assert_eq!(alt.id, Some(10));
    assert_eq!(alt.source_type, "kykyemek");
    assert_eq!(alt.meal_type, MealType::Dinner);
    assert_eq!(alt.items.len(), 2);
    assert_eq!(alt.items[0].raw_name, "Mercimek Çorbası");
    assert_eq!(alt.items[1].raw_name, "Kuru Fasulye");
}

#[test]
fn test_parse_alternative_from_history_filters_junk() {
    // The content guard judges "Veri yok. Menüye sahipseniz bize yazın" to be junk.
    let hist = HistoryRecord {
        id: 11,
        source_type: "kykmenu".into(),
        dishes: Some(vec![payload_text("Veri yok. Menüye sahipseniz bize yazın"), payload_text("Ezogelin Çorbası")]),
    };
    let alt = parse_alternative_from_history(hist, &vec![true, false], MealType::Dinner).unwrap();
    assert_eq!(alt.items.len(), 1);
    assert_eq!(alt.items[0].raw_name, "Ezogelin Çorbası");
    assert_eq!(alt.items[0].order_index, 1);
}

#[test]
fn test_compute_menu_dishes_signature_deduplication() {
    let items1 = vec![named(0, "Mercimek Çorbası"), named(1, "Pirinç Pilavı")];
    let items2 = vec![named(0, "  pirinç pilavı  "), named(1, "Mercimek Çorbası.")];
    assert_eq!(compute_menu_dishes_signature(&items1), compute_menu_dishes_signature(&items2));
}

#[test]
fn signature_is_sorted_and_skips_empty_names() {
    let items = vec![named(0, "Zeytin"), named(1, " ... "), named(2, "Ayran")];
    assert_eq!(compute_menu_dishes_signature(&items), vec!["ayran".to_string(), "zeytin".to_string()]);
}

#[test]
fn calorie_ranges() {
    assert_eq!(format_calorie_range(Some(1100), Some(1500)).as_deref(), Some("1100 - 1500 kcal"));
    assert_eq!(format_calorie_range(Some(900), None).as_deref(), Some("900 kcal"));
    assert_eq!(format_calorie_range(None, Some(-5)).as_deref(), Some("-5 kcal"));
    assert_eq!(format_calorie_range(None, None), None);
}

#[test]
fn placements() {
    assert_eq!(item_placement("NORMAL", false, false), Placement::Tray);
    assert_eq!(item_placement("AL GÖTÜR", false, false), Placement::Takeaway);
    assert_eq!(item_placement("Çölyak Menü", true, false), Placement::Dropped);
    assert_eq!(item_placement("colyak", false, true), Placement::Tray);
    assert_eq!(item_placement("NORMAL", true, true), Placement::Tray);
    assert_eq!(item_placement("NORMAL", false, true), Placement::Dropped);
    assert_eq!(item_placement("AL GÖTÜR", true, true), Placement::Dropped);
}

fn row(order_index: i32, package: &str, name: &str, dish: Option<DishRecord>, is_alternative: bool) -> MenuDishRow {
    MenuDishRow {
        order_index,
        package_name: package.into(),
        is_alternative,
        amount: None,
        calories: None,
        alias_name: name.into(),
        alias_is_junk: false,
        dish,
        detected_category: None,
    }
}

fn table_with_main_dish_price() -> PricingTable {
    let mut dinner = MealPricing { items: vec![], categories: vec![] };
    insert_price(&mut dinner.categories, "ANA YEMEK".into(), PriceInfo { amount: "200 g".into(), price_kurus: 5000 });
    PricingTable {
        cities: vec![CityPricing {
            city: "istanbul".into(),
            periods: vec![PeriodPricing {
                period_start: date(2025, 9, 1),
                period_end: date(2026, 8, 31),
                breakfast: None,
                lunch: None,
                dinner: Some(dinner),
            }],
        }],
    }
}

#[test]
fn assembled_menu_groups_packages() {
    let table = table_with_main_dish_price();
    let ctx = MenuContext { city_slug: "istanbul".into(), serve_date: date(2026, 5, 15), meal: MealType::Dinner, celiac_mode: false };
    let sote = DishRecord {
        id: 7,
        name: "Tavuk Sote".into(),
        category: Some("ana yemek".into()),
        is_celiac: false,
        is_vegan: false,
        is_vegetarian: false,
        estimated_calories: Some(400),
        total_votes: 3,
        positive_votes: 2,
        negative_votes: 1,
    };
    let mut junk = row(9, "NORMAL", "Veri yok", None, false);
    junk.alias_is_junk = true;
    let rows = vec![
        row(2, "NORMAL", "TAVUK SOTE", Some(sote), false),
        row(5, "PAKET B", "Ayran", None, true),
        row(1, "PAKET B", "Simit", None, false),
        row(5, "PAKET B", "Su", None, false),
        row(0, "PAKET A", "Sandviç", None, false),
        row(3, "ÇÖLYAK", "Glütensiz Ekmek", None, false),
        junk,
    ];
    let (tray, takeaways) = assemble_menu(rows, &table, &ctx);
    assert_eq!(tray.len(), 1);
    assert_eq!(tray[0].raw_name, "TAVUK SOTE");
    assert_eq!(tray[0].price_kurus, Some(5000));
    assert_eq!(tray[0].amount.as_deref(), Some("200 g"));
    assert_eq!(tray[0].master_data.as_ref().unwrap().positive_votes, 2);
    assert_eq!(takeaways.len(), 2);
    assert_eq!(takeaways[0].name, "PAKET A");
    assert_eq!(takeaways[1].name, "PAKET B");
    let b: Vec<&str> = takeaways[1].items.iter().map(|i| i.raw_name.as_str()).collect();
    assert_eq!(b, vec!["Simit", "Su", "Ayran"]);
}

#[test]
fn celiac_mode_keeps_only_gluten_free() {
    let table = PricingTable { cities: vec![] };
    let ctx = MenuContext { city_slug: "ankara".into(), serve_date: date(2026, 5, 15), meal: MealType::Lunch, celiac_mode: true };
    let rows = vec![
        row(0, "NORMAL", "Pilav", None, false),
        row(1, "ÇÖLYAK", "Glütensiz Ekmek", None, false),
        row(2, "AL GÖTÜR", "Tost", None, false),
    ];
    let (tray, takeaways) = assemble_menu(rows, &table, &ctx);
    assert_eq!(tray.len(), 1);
    assert_eq!(tray[0].raw_name, "Glütensiz Ekmek");
    assert_eq!(tray[0].price_kurus, None);
    assert!(takeaways.is_empty());
}

#[test]
fn alternatives_skip_own_source_repeats_and_duplicates() {
    let tray = vec![named(0, "Mercimek Çorbası"), named(1, "Pilav")];
    let rec = |id: i32, src: &str, names: &[&str]| {
        let dishes: Vec<PayloadDish> = names.iter().map(|n| payload_text(n)).collect();
        let verdicts = vec![false; dishes.len()];
        (HistoryRecord { id, source_type: src.into(), dishes: Some(dishes) }, verdicts)
    };
    let history = vec![
        rec(9, "kykyemek", &["Başka"]),
        rec(8, "kykmenu", &["pilav", "  Mercimek  Çorbası"]),
        rec(7, "kykmenu", &["Eski"]),
        rec(6, "forum", &["Kuru Fasulye"]),
        rec(5, "instagram", &["kuru fasulye."]),
        rec(4, "ogrenci", &[]),
    ];
    let alts = select_alternatives("kykyemek", &tray, history, MealType::Dinner);
    assert_eq!(alts.len(), 1);
    assert_eq!(alts[0].source_type, "forum");
    assert_eq!(alts[0].id, Some(6));
}

#[test]
fn payload_labels() {
    let d = PayloadDish { text: None, name: None, raw_name: Some("Ham".into()), is_alternative: None };
    assert_eq!(dish_label(&d).map(|s| s.as_str()), Some("Ham"));
    let d = PayloadDish { text: None, name: None, raw_name: None, is_alternative: None };
    assert_eq!(dish_label(&d), None);
}

#[test]
fn month_filter_bounds() {
    assert_eq!(month_bounds(2026, 12), Some((date(2026, 12, 1), date(2027, 1, 1))));
    assert_eq!(month_bounds(2026, 2), Some((date(2026, 2, 1), date(2026, 3, 1))));
    assert_eq!(month_bounds(2026, 13), None);
    assert!(MenuStatus::Approved.is_public());
    assert!(!MenuStatus::Pending.is_public());
    assert_eq!(MenuStatus::Rejected.wire_name(), "rejected");
}

fn text_dish(t: &str) -> PayloadDish {
    PayloadDish { text: Some(t.to_string()), name: None, raw_name: None, is_alternative: None }
}

#[test]
fn history_dishes_prefer_the_dishes_member() {
    let r = history_record(3, "ocr".to_string(), Some(vec![text_dish("Pilav")]), Some(vec![text_dish("Ayran")]));
    assert_eq!(r.id, 3);
    assert_eq!(r.source_type, "ocr");
    assert_eq!(r.dishes.as_ref().unwrap()[0].text.as_deref(), Some("Pilav"));
    let r = history_record(4, "ocr".to_string(), None, Some(vec![text_dish("Ayran")]));
    assert_eq!(r.dishes.as_ref().unwrap()[0].text.as_deref(), Some("Ayran"));
    assert!(history_record(5, "ocr".to_string(), None, None).dishes.is_none());
}
