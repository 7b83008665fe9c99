use kepce_api::calendar::CalendarDate;
use kepce_api::dto::menu::MealType;
use kepce_api::og_pages::{
    avatar_candidates, card_username, city_card, format_turkish_date, menu_card, page_card, thread_card, user_card_lines, DayMenu,
};

fn d(year: i32, month: u32, day: u32) -> CalendarDate {
    CalendarDate { year, month, day }
}

#[test]
fn turkish_dates() {
    assert_eq!(format_turkish_date(d(2024, 3, 5)), "5 Mart 2024");
    assert_eq!(format_turkish_date(d(2025, 8, 31)), "31 Ağustos 2025");
}

#[test]
fn menu_cards() {
    let c = menu_card(Some("Ankara".to_string()), d(2024, 3, 5), MealType::Lunch, 5, Some(800), Some(1200));
    assert_eq!(c.title.as_deref(), Some("Ankara"));
    assert_eq!(c.sub1, "5 Mart 2024 · Öğle Yemeği");
    assert_eq!(c.sub2.as_deref(), Some("5 Çeşit Yemek · 800-1200 kkal"));
    assert_eq!(c.badge.as_deref(), Some("Öğün"));
    assert_eq!(c.cache_control, "public, max-age=86400, s-maxage=604800");
    let c = menu_card(None, d(2024, 3, 5), MealType::Dinner, 3, None, Some(900));
    assert_eq!(c.title.as_deref(), Some("Menü"));
    assert_eq!(c.sub2.as_deref(), Some("3 Çeşit Yemek · 900 kkal"));
    let c = menu_card(None, d(2024, 3, 5), MealType::Breakfast, 0, None, None);
    assert_eq!(c.sub2.as_deref(), Some("0 Çeşit Yemek"));
}

#[test]
fn city_cards() {
    let ms = vec![
        DayMenu { dish_count: 4, min: Some(700), max: Some(900) },
        DayMenu { dish_count: 3, min: Some(500), max: None },
        DayMenu { dish_count: 2, min: Some(300), max: Some(400) },
    ];
    let c = city_card("İzmir".to_string(), d(2024, 3, 5), &ms);
    assert_eq!(c.sub1, "5 Mart 2024");
    assert_eq!(c.sub2.as_deref(), Some("9 Çeşit Yemek · 1000-1300 kkal"));
    assert_eq!(c.badge.as_deref(), Some("Günlük Menü"));
    let c = city_card("İzmir".to_string(), d(2024, 3, 5), &vec![DayMenu { dish_count: 2, min: None, max: None }]);
    assert_eq!(c.sub2.as_deref(), Some("2 Çeşit Yemek"));
    let c = city_card("İzmir".to_string(), d(2024, 3, 5), &vec![]);
    assert_eq!(c.sub2.as_deref(), Some("Günlük Yemekhane Listesi"));
}

#[test]
fn thread_and_user_cards() {
    let c = thread_card(Some("ayse".to_string()), Some((Some("Bursa".to_string()), d(2024, 3, 5))), 4, 10);
    assert_eq!(c.title.as_deref(), Some("Bursa · 5 Mart 2024"));
    assert_eq!(c.sub1, "@ayse tarafından başlatıldı");
    assert_eq!(c.sub2.as_deref(), Some("5 Yorum · 10 Oy"));
    assert_eq!(c.cache_control, "public, max-age=3600, s-maxage=86400");
    let c = thread_card(None, None, 0, 0);
    assert_eq!(c.title.as_deref(), Some("Kepçe · Tartışma"));
    assert_eq!(c.sub1, "@anonim tarafından başlatıldı");
    assert_eq!(card_username("@@ali"), "ali");
    let (a, b, c) = avatar_candidates("/uploads/a.png");
    assert_eq!((a.as_str(), b.as_str(), c.as_str()), ("static/uploads/a.png", "webapp/static/uploads/a.png", "uploads/a.png"));
    let (t, s) = user_card_lines("ali", 42, Some(d(2025, 11, 3)));
    assert_eq!(t, "@ali");
    assert_eq!(s, "42 Karma · Kasım 2025");
    assert_eq!(user_card_lines("ali", -3, None).1, "-3 Karma · 2026");
}

#[test]
fn page_cards() {
    let (t, s, b, c) = page_card("sss", true).unwrap();
    assert_eq!((t.as_str(), s.as_str(), b.as_str()), ("Sıkça Sorulan Sorular", "Site Hakkında Merak Edilenler", "Yardım"));
    assert_eq!(c, "public, max-age=86400, s-maxage=604800");
    let (_, s, _, c) = page_card("durum", false).unwrap();
    assert_eq!(s, "Kısmi Yavaşlama Mevcut");
    assert_eq!(c, "public, max-age=60");
    assert_eq!(page_card("durum", true).unwrap().1, "Tüm Sistemler Çalışıyor");
    assert!(page_card("yok", true).is_none());
}

#[test]
fn user_card_embeds_the_avatar_in_base64() {
    let joined = Some(kepce_api::calendar::CalendarDate { year: 2025, month: 3, day: 14 });
    let svg = kepce_api::og_pages::user_card_svg("ayse", 42, joined, Some(b"hi!?".as_slice()));
    assert!(svg.contains("data:image/jpeg;base64,aGkhPw==\""));
    assert!(svg.contains("@ayse"));
    assert!(svg.contains("42 Karma · Mart 2025"));
    assert!(svg.contains("Kullanıcı Profili"));
    let plain = kepce_api::og_pages::user_card_svg("ayse", 42, None, None);
    assert!(!plain.contains("base64"));
    assert!(plain.contains("42 Karma · 2026"));
}
