use kepce_api::calendar::{date_from_ymd, CalendarDate};
use kepce_api::pricing::{
    get_pricing_info_for_city, insert_price, CityPricing, MealPricing, PeriodPricing, PriceInfo, PricingTable,
};

fn date(y: i32, m: u32, d: u32) -> CalendarDate {
    date_from_ymd(y, m, d).unwrap()
}

fn period(start: CalendarDate, end: CalendarDate, dinner: MealPricing) -> PeriodPricing {
    PeriodPricing { period_start: start, period_end: end, breakfast: None, lunch: None, dinner: Some(dinner) }
}

#[test]
fn test_pricing_date_matching_and_july_august_exclusion() {
    let mut dinner = MealPricing { items: vec![], categories: vec![] };
    insert_price(&mut dinner.categories, "ANA YEMEK".to_string(), PriceInfo { amount: "200 g".to_string(), price_kurus: 5000 });
    let p1 = period(date(2025, 9, 1), date(2026, 8, 31), dinner);

    let mut dinner_new = MealPricing { items: vec![], categories: vec![] };
    insert_price(&mut dinner_new.categories, "ANA YEMEK".to_string(), PriceInfo { amount: "200 g".to_string(), price_kurus: 6500 });
    let p2 = period(date(2026, 9, 1), date(2027, 8, 31), dinner_new);

    let table = PricingTable { cities: vec![CityPricing { city: "istanbul".to_string(), periods: vec![p1, p2] }] };
    let today = date(2026, 1, 1);

    let may_price = get_pricing_info_for_city(&table, "istanbul", Some(date(2026, 5, 15)), today, "dinner", Some("ANA YEMEK"), "TAVUK SOTE", None);
    assert!(may_price.is_some());
    assert_eq!(may_price.unwrap().price_kurus, 5000);

    let sept_price = get_pricing_info_for_city(&table, "istanbul", Some(date(2026, 9, 15)), today, "dinner", Some("ANA YEMEK"), "TAVUK SOTE", None);
    assert!(sept_price.is_some());
    assert_eq!(sept_price.unwrap().price_kurus, 6500);

    let july_price = get_pricing_info_for_city(&table, "istanbul", Some(date(2026, 7, 10)), today, "dinner", Some("ANA YEMEK"), "TAVUK SOTE", None);
    assert!(july_price.is_none());

    let ankara_price = get_pricing_info_for_city(&table, "ankara", Some(date(2026, 5, 15)), today, "dinner", Some("ANA YEMEK"), "TAVUK SOTE", None);
    assert!(ankara_price.is_some());
    assert_eq!(ankara_price.unwrap().price_kurus, 5000);
}

#[test]
fn item_price_wins_over_category_and_latest_period_is_fallback() {
    let mut dinner = MealPricing { items: vec![], categories: vec![] };
    insert_price(&mut dinner.categories, "ÇORBA".to_string(), PriceInfo { amount: "250 ml".to_string(), price_kurus: 1500 });
    insert_price(&mut dinner.items, "MERCIMEK".to_string(), PriceInfo { amount: "300 ml".to_string(), price_kurus: 1800 });
    insert_price(&mut dinner.items, "MERCIMEK".to_string(), PriceInfo { amount: "300 ml".to_string(), price_kurus: 1900 });
    assert_eq!(dinner.items.len(), 1);
    let table = PricingTable {
        cities: vec![CityPricing { city: "izmir".to_string(), periods: vec![period(date(2024, 1, 1), date(2024, 6, 30), dinner)] }],
    };
    let today = date(2026, 3, 3);
    let by_name = get_pricing_info_for_city(&table, "izmir", None, today, "dinner", Some("çorba"), "mercimek", None).unwrap();
    assert_eq!((by_name.amount.as_str(), by_name.price_kurus), ("300 ml", 1900));
    let by_cat = get_pricing_info_for_city(&table, "izmir", None, today, "dinner", Some("çorba"), "ezogelin", None).unwrap();
    assert_eq!(by_cat.price_kurus, 1500);
    let detected = get_pricing_info_for_city(&table, "izmir", None, today, "dinner", None, "ezogelin", Some("Çorba")).unwrap();
    assert_eq!(detected.price_kurus, 1500);
    assert!(get_pricing_info_for_city(&table, "izmir", None, today, "lunch", None, "mercimek", None).is_none());
    assert!(get_pricing_info_for_city(&table, "ankara", None, today, "dinner", None, "mercimek", None).is_none());
}
