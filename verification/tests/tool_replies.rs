use kepce_api::calendar::{date_from_ymd, CalendarDate};
use kepce_api::dto::comment::{CommentResponseDto, ReactionSummaryDto, Sentiment, UserSummaryDto};
use kepce_api::dto::menu::MealType;
use kepce_api::dto::statistics::TrendingTagDto;
use kepce_api::tool_replies::{
    city_section, general_counts_text, latest_menu_section, leaderboard_text, menu_lines, menu_lookup_text,
    today_menu_section, top_comments_text, trending_tags_text, unknown_city_section, web_query, web_search_text,
    MealListing, RankedDish, SearchHit, SearchOutcome,
};

fn date(y: i32, m: u32, d: u32) -> CalendarDate {
    date_from_ymd(y, m, d).unwrap()
}

fn meals() -> Vec<MealListing> {
    vec![
        MealListing {
            meal: MealType::Breakfast,
            dish_names: vec!["Peynir".to_string(), "Zeytin".to_string()],
            calorie_range: None,
        },
        MealListing {
            meal: MealType::Dinner,
            dish_names: vec!["Mercimek Çorbası".to_string()],
            calorie_range: Some("900 - 1200 kcal".to_string()),
        },
    ]
}

fn comment(text: Option<&str>, nick: &str, dish: Option<&str>, up: i32) -> CommentResponseDto {
    CommentResponseDto {
        id: 1,
        menu_id: 1,
        parent_id: None,
        parent_username: None,
        dish_name: dish.map(|d| d.to_string()),
        comment: text.map(|t| t.to_string()),
        sentiment: Sentiment::Neutral,
        is_tabldot: false,
        user: UserSummaryDto { id: 2, nickname: nick.to_string(), avatar_url: None },
        reaction_summary: ReactionSummaryDto { up, down: 0, my_vote: None },
        children: vec![],
        created_at: "2024-05-06 12:00:00".to_string(),
        is_deleted: false,
        deletion_type: None,
        is_blocked: false,
        is_edited: false,
    }
}

#[test]
fn menu_lines_list_each_meal() {
    assert_eq!(
        menu_lines(&meals()),
        "Kahvaltı: Peynir, Zeytin (kalori: Belirtilmedi)\nAkşam Yemeği: Mercimek Çorbası (kalori: 900 - 1200 kcal)\n"
    );
    assert_eq!(menu_lines(&vec![]), "");
}

#[test]
fn city_sections() {
    assert_eq!(city_section("İstanbul", "istanbul"), "\n[secili_sehir]\nad: İstanbul\nslug: istanbul\n");
    assert_eq!(unknown_city_section("atlantis"), "\n[secili_sehir]\nslug: atlantis\n");
}

#[test]
fn today_menu_with_and_without_meals() {
    assert_eq!(
        today_menu_section(&meals()),
        "\n[bugunku_menu]\nKahvaltı: Peynir, Zeytin (kalori: Belirtilmedi)\nAkşam Yemeği: Mercimek Çorbası (kalori: 900 - 1200 kcal)\n"
    );
    assert_eq!(today_menu_section(&vec![]), "\n[bugunku_menu]\ndurum: Bugün için henüz menü girilmemiştir.\n");
}

#[test]
fn latest_menu_names_its_day() {
    let text = latest_menu_section(date(2024, 5, 6), &meals());
    assert!(text.starts_with("\n[sistemdeki_en_son_girilmis_menu: 2024-05-06 (Pazartesi)]\nKahvaltı: "));
}

#[test]
fn menu_lookup_replies() {
    let d = date(2024, 5, 7);
    assert_eq!(menu_lookup_text(false, d, Some(&meals())), "Şehir bilgisi bulunamadı.");
    assert_eq!(
        menu_lookup_text(true, d, Some(&vec![])),
        "Tarih: 2024-05-07 (Salı). Bu tarih için veritabanında kayıtlı bir menü bulunamadı."
    );
    assert_eq!(
        menu_lookup_text(true, d, None),
        "Tarih: 2024-05-07 (Salı). Menü sorgusu sırasında veritabanı hatası oluştu."
    );
    assert_eq!(
        menu_lookup_text(true, d, Some(&meals())),
        "Tarih: 2024-05-07 (Salı)\nKahvaltı: Peynir, Zeytin (kalori: Belirtilmedi)\nAkşam Yemeği: Mercimek Çorbası (kalori: 900 - 1200 kcal)\n"
    );
}

#[test]
fn leaderboard_replies() {
    let dishes = vec![
        RankedDish { name: "Mantı".to_string(), score: 40, total_votes: 50, rating_percent: Some("90".to_string()) },
        RankedDish { name: "Pilav".to_string(), score: -3, total_votes: 7, rating_percent: None },
    ];
    assert_eq!(
        leaderboard_text(true, Some(&dishes)),
        "En çok sevilen / en yüksek puanlı yemekler:\n1. Mantı (Toplam 50 oy, %90 beğeni)\n2. Pilav (Toplam 7 oy, -3 net puan)\n"
    );
    assert!(leaderboard_text(false, Some(&dishes)).starts_with("En az beğenilen / en çok eleştirilen yemekler:\n1. "));
    assert_eq!(leaderboard_text(true, Some(&vec![])), "Henüz oylanmış yemek istatistiği bulunmuyor.");
    assert_eq!(leaderboard_text(false, Some(&vec![])), "Henüz oylanmış olumsuz yemek kaydı bulunmuyor.");
    assert_eq!(leaderboard_text(false, None), "Yemek istatistiği sorgulanırken hata oluştu.");
}

#[test]
fn top_comment_replies() {
    let cs = vec![comment(Some("Harika"), "ayse", Some("Mantı"), 12), comment(None, "mehmet", None, 3)];
    assert_eq!(
        top_comments_text(Some(&cs)),
        "Öğrenciler tarafından en çok beğenilen / öne çıkan yorumlar:\n1. \"Harika\" - ayse (Mantı) (+12 beğeni)\n2. \"...\" - mehmet (+3 beğeni)\n"
    );
    assert_eq!(top_comments_text(Some(&vec![])), "Henüz öne çıkan bir yorum bulunmuyor.");
    assert_eq!(top_comments_text(None), "Yorum istatistikleri sorgulanırken hata oluştu.");
}

#[test]
fn trending_tag_replies() {
    let ts = vec![
        TrendingTagDto { name: "lezzetli".to_string(), count: 14, category: "taste".to_string() },
        TrendingTagDto { name: "tuzlu".to_string(), count: 2, category: "taste".to_string() },
    ];
    assert_eq!(
        trending_tags_text(Some(&ts)),
        "Son dönemde en çok kullanılan trend yemek etiketleri:\n1. #lezzetli (14 kez)\n2. #tuzlu (2 kez)\n"
    );
    assert_eq!(trending_tags_text(Some(&vec![])), "Henüz trend etiket verisi yok.");
    assert_eq!(trending_tags_text(None), "Etiket istatistikleri sorgulanırken hata oluştu.");
}

#[test]
fn general_counts_reply() {
    assert_eq!(
        general_counts_text(120, 45, 9),
        "Kepçe Platform Genel İstatistikleri:\n- Toplam Menü Kaydı: 120\n- Toplam Öğrenci Yorumu: 45\n- Kayıtlı Topluluk Üyesi: 9"
    );
}

#[test]
fn web_query_checks() {
    assert_eq!(web_query("  \t ", true), Err("Arama sorgusu belirtilmedi.".to_string()));
    assert_eq!(web_query(" yemekhane saatleri ", false), Err("Web arama servisi şu anda yapılandırılmamış.".to_string()));
    assert_eq!(web_query(" yemekhane saatleri ", true), Ok("yemekhane saatleri".to_string()));
}

#[test]
fn web_search_replies() {
    assert_eq!(web_search_text(&SearchOutcome::Unreachable), "Arama servisine şu anda ulaşılamıyor.");
    assert_eq!(web_search_text(&SearchOutcome::Unreadable), "Arama sonuçları ayrıştırılamadı.");
    assert_eq!(web_search_text(&SearchOutcome::Results(vec![])), "Arama sonucunda ilgili bilgi bulunamadı.");
    let hit = |t: Option<&str>| SearchHit {
        title: t.map(|x| x.to_string()),
        url: Some(" https://example.org ".to_string()),
        content: Some(" özet ".to_string()),
    };
    let one = web_search_text(&SearchOutcome::Results(vec![hit(Some(" Başlık ")), hit(None)]));
    assert_eq!(
        one,
        "Web Arama Sonuçları:\n[1] \"Başlık\" - https://example.org\nÖzet: özet\n\n[2] \"Başlıksız\" - https://example.org\nÖzet: özet\n\n"
    );
    let many: Vec<SearchHit> = (0..7).map(|_| hit(Some("x"))).collect();
    let text = web_search_text(&SearchOutcome::Results(many));
    assert!(text.contains("[5] "));
    assert!(!text.contains("[6] "));
}
