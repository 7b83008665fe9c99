use kepce_api::assistant::{
    classify_stream_line, days_in_month, estimate_tokens, format_weekday, generate_offline_fallback,
    live_header, menu_line, month_report, parse_date_arg, parse_month_arg, parse_u32, stats_category,
    tool_call_identity, tool_of, truncate_history, AssistantTool, ChatMessage, StatsCategory,
    StreamLine, CONTEXT_TOKEN_BUDGET,
};
use kepce_api::calendar::{date_from_ymd, format_date, CalendarDate};
use kepce_api::dto::menu::MealType;

fn date(y: i32, m: u32, d: u32) -> CalendarDate {
    date_from_ymd(y, m, d).unwrap()
}

fn message(content: &str) -> ChatMessage {
    ChatMessage {
        role: "user".to_string(),
        content: Some(content.to_string()),
        tool_calls: None,
        tool_call_id: None,
        name: None,
    }
}

#[test]
fn test_parse_date_arg() {
    let today = date(2026, 9, 1);

    assert_eq!(parse_date_arg("2026-06-30", today), Some(date(2026, 6, 30)));
    assert_eq!(parse_date_arg("\"2026-06-30\"", today), Some(date(2026, 6, 30)));
    assert_eq!(parse_date_arg("30.06.2026", today), Some(date(2026, 6, 30)));
    assert_eq!(parse_date_arg("dün", today), Some(date(2026, 8, 31)));
    assert_eq!(parse_date_arg("yarın", today), Some(date(2026, 9, 2)));
}

#[test]
fn test_parse_month_arg() {
    let today = date(2026, 9, 1);

    assert_eq!(parse_month_arg("2026-09", today), (2026, 9));
    assert_eq!(parse_month_arg("09.2026", today), (2026, 9));
    assert_eq!(parse_month_arg("eylül", today), (2026, 9));
    assert_eq!(parse_month_arg("bu ay", today), (2026, 9));
    assert_eq!(parse_month_arg("gelecek ay", today), (2026, 10));
    assert_eq!(parse_month_arg("geçen ay", today), (2026, 8));
}

#[test]
fn test_days_in_month() {
    assert_eq!(days_in_month(2026, 9), 30);
    assert_eq!(days_in_month(2026, 10), 31);
    assert_eq!(days_in_month(2026, 2), 28);
    assert_eq!(days_in_month(2024, 2), 29);
}

#[test]
fn days_in_month_outside_calendar() {
    assert_eq!(days_in_month(2026, 13), 30);
    assert_eq!(days_in_month(2026, 0), 31);
    assert_eq!(days_in_month(2026, 12), 31);
    assert_eq!(days_in_month(1900, 2), 28);
    assert_eq!(days_in_month(2000, 2), 29);
}

#[test]
fn parse_date_arg_other_forms() {
    let today = date(2026, 1, 1);
    assert_eq!(parse_date_arg("  '15-03-2026' ", today), Some(date(2026, 3, 15)));
    assert_eq!(parse_date_arg("Dün akşam", today), Some(date(2025, 12, 31)));
    assert_eq!(parse_date_arg("YARIN", today), None);
    assert_eq!(parse_date_arg("bilinmeyen", today), None);
    assert_eq!(parse_date_arg("2026-02-30", today), None);
}

#[test]
fn parse_month_arg_other_forms() {
    let today = date(2026, 12, 10);
    assert_eq!(parse_month_arg("gelecek ay", today), (2027, 1));
    assert_eq!(parse_month_arg("'2025/03'", today), (2025, 3));
    assert_eq!(parse_month_arg("Mart", today), (2026, 3));
    assert_eq!(parse_month_arg("13-2026", today), (2026, 12));
    let january = date(2026, 1, 5);
    assert_eq!(parse_month_arg("önceki ay", january), (2025, 12));
}

#[test]
fn parse_u32_follows_str_parse() {
    let p = |s: &str| parse_u32(&s.chars().collect::<Vec<char>>());
    assert_eq!(p("2026"), Some(2026));
    assert_eq!(p("+7"), Some(7));
    assert_eq!(p("+"), None);
    assert_eq!(p(""), None);
    assert_eq!(p("-1"), None);
    assert_eq!(p("4294967295"), Some(u32::MAX));
    assert_eq!(p("4294967296"), None);
    assert_eq!(p("12a"), None);
}

#[test]
fn weekday_names() {
    assert_eq!(format_weekday(date(2026, 9, 1)), "Salı");
    assert_eq!(format_weekday(date(1970, 1, 1)), "Perşembe");
    assert_eq!(format_weekday(date(2024, 2, 29)), "Perşembe");
    assert_eq!(format_weekday(date(2026, 9, 6)), "Pazar");
}

#[test]
fn token_estimate() {
    assert_eq!(estimate_tokens(""), 1);
    assert_eq!(estimate_tokens("abcdef"), 2);
    assert_eq!(estimate_tokens("a b c d e f g h i j"), 13);
    assert_eq!(estimate_tokens("merhaba"), 3);
}

#[test]
fn history_is_cut_to_the_budget() {
    let big = "x".repeat(3 * 20000);
    let messages = vec![message(&big), message(&big), message("son soru")];
    let (kept, dropped) = truncate_history(messages);
    assert_eq!(dropped, 2);
    assert_eq!(kept.len(), 1);
    assert_eq!(kept[0].content.as_deref(), Some("son soru"));

    let small = vec![message("bir"), message("iki")];
    let (kept, dropped) = truncate_history(small);
    assert_eq!(dropped, 0);
    assert_eq!(kept.len(), 2);
    assert_eq!(CONTEXT_TOKEN_BUDGET, 16384);
}

#[test]
fn offline_answers() {
    assert!(generate_offline_fallback("Kurallarını söyle", "").starts_with("Tüm sistem açık kaynaklı"));
    assert!(generate_offline_fallback("Yemek saatleri?", "").starts_with("KYK Yemek Saatleri"));
    assert_eq!(
        generate_offline_fallback("bugün menü ne", "<canli_veri>\n[bugunku_menu]\nKahvaltı: Peynir\n</canli_veri>  "),
        "Kepçe Bot çevrimdışı ancak bugünkü menü:\n<canli_veri>\n[bugunku_menu]\nKahvaltı: Peynir\n</canli_veri>"
    );
    assert_eq!(
        generate_offline_fallback("menü", "[bugunku_menu]\ndurum: yok"),
        "Bugün için kayıtlı menü bulunamadı veya model şu anda çevrimdışı."
    );
    assert!(generate_offline_fallback("merhaba", "").starts_with("Dil modeli şu anda çevrimdışı"));
}

#[test]
fn menu_lines() {
    let dishes = vec!["Mercimek Çorbası".to_string(), "Pilav".to_string()];
    assert_eq!(
        menu_line(MealType::Dinner, &dishes, &Some("1100 - 1500 kcal".to_string())),
        "Akşam Yemeği: Mercimek Çorbası, Pilav (kalori: 1100 - 1500 kcal)\n"
    );
    assert_eq!(menu_line(MealType::Breakfast, &vec![], &None), "Kahvaltı:  (kalori: Belirtilmedi)\n");
}

#[test]
fn month_report_lists_empty_days() {
    let dates = vec![date(2026, 2, 1), date(2026, 2, 1), date(2026, 2, 2)];
    let meals = vec![MealType::Breakfast, MealType::Dinner, MealType::Lunch];
    let report = month_report(2026, 2, "istanbul", &dates, &meals);
    assert!(report.starts_with("Şubat 2026 ayı menü durumu (istanbul):\n"));
    assert!(report.contains("- Toplam 28 günün 2 gününde menü kayıtlıdır.\n"));
    assert!(report.contains("- Toplam 1 kahvaltı, 1 akşam yemeği kaydı mevcuttur.\n"));
    assert!(report.contains("- Toplam 1 öğle yemeği kaydı mevcuttur.\n"));
    assert!(report.ends_with("- Henüz menüsü girilmemiş 26 gün bulunmaktadır.\n"));

    let all: Vec<CalendarDate> = (1..=28).map(|d| date(2026, 2, d)).collect();
    let meals = vec![MealType::Dinner; 28];
    let report = month_report(2026, 2, "ankara", &all, &meals);
    assert!(report.ends_with("- Ayın tüm günleri için menü eksiksiz girilmiştir.\n"));
    assert!(!report.contains("öğle"));

    let some: Vec<CalendarDate> = (1..=26).map(|d| date(2026, 2, d)).collect();
    let meals = vec![MealType::Breakfast; 26];
    let report = month_report(2026, 2, "izmir", &some, &meals);
    assert!(report.ends_with("- Menüsü henüz girilmemiş/boş günler: 27. gün (Cuma), 28. gün (Cumartesi)\n"));
}

#[test]
fn stream_lines() {
    assert_eq!(classify_stream_line("data: [DONE]"), StreamLine::Done);
    assert_eq!(classify_stream_line("  data:data: [DONE] "), StreamLine::Done);
    assert_eq!(classify_stream_line("data: {\"a\":1}"), StreamLine::Payload("{\"a\":1}".chars().collect()));
    assert_eq!(classify_stream_line(": keep-alive"), StreamLine::Other);
    assert_eq!(classify_stream_line(""), StreamLine::Other);
}

#[test]
fn tool_dispatch() {
    assert_eq!(tool_of("webde_ara"), AssistantTool::WebSearch);
    assert_eq!(tool_of("aylik_menu_durumu_sorgula"), AssistantTool::MonthlyStatus);
    assert_eq!(tool_of("istatistik_sorgula"), AssistantTool::Statistics);
    assert_eq!(tool_of("menu_sorgula"), AssistantTool::DailyMenu);
    assert_eq!(tool_of("bilinmeyen"), AssistantTool::DailyMenu);
    let (id, name) = tool_call_identity(String::new(), String::new());
    assert_eq!((id.as_str(), name.as_str()), ("call_1", "menu_sorgula"));
    let (id, name) = tool_call_identity("abc".to_string(), "webde_ara".to_string());
    assert_eq!((id.as_str(), name.as_str()), ("abc", "webde_ara"));
    assert_eq!(stats_category(None), StatsCategory::FavouriteDishes);
    assert_eq!(stats_category(Some("trend_etiketler")), StatsCategory::TrendingTags);
    assert_eq!(stats_category(Some("x")), StatsCategory::Unknown);
}

#[test]
fn live_context_header() {
    assert_eq!(
        live_header(date(2026, 7, 3), 9, 5),
        "<canli_veri>\n[zaman]\ntarih: 2026-07-03\ngun: Cuma\nsaat: 09:05\nyaz_sezonu: evet (kapali/nobetci)\n"
    );
    assert_eq!(
        live_header(date(2026, 9, 1), 18, 30),
        "<canli_veri>\n[zaman]\ntarih: 2026-09-01\ngun: Salı\nsaat: 18:30\nyaz_sezonu: hayir (aktif)\n"
    );
    assert_eq!(format_date(date(-5, 1, 2)), "-0005-01-02");
    assert_eq!(format_date(date(12345, 1, 2)), "+12345-01-02");
}

#[test]
fn history_keeps_what_fits() {
    let big = "x".repeat(3 * 10000);
    let messages = vec![message(&big), message(&big), message("son soru")];
    let (kept, dropped) = truncate_history(messages);
    assert_eq!(dropped, 1);
    assert_eq!(kept.len(), 2);
}

fn delta() -> kepce_api::assistant::StreamDelta {
    kepce_api::assistant::StreamDelta {
        reasoning: None,
        has_tool_call: false,
        tool_id: None,
        tool_name: None,
        tool_args: None,
        finish_reason: None,
        content: None,
    }
}

#[test]
fn stream_content_passes_until_a_tool_call_starts() {
    let st = kepce_api::assistant::ToolCallState { id: String::new(), name: String::new(), args: String::new(), is_tool_call: false };
    let mut d = delta();
    d.reasoning = Some("düşünüyorum".to_string());
    d.content = Some("Merhaba".to_string());
    let (st, out) = kepce_api::assistant::stream_step(st, d);
    assert_eq!(out.thought.as_deref(), Some("düşünüyorum"));
    assert_eq!(out.content.as_deref(), Some("Merhaba"));
    let mut d = delta();
    d.content = Some("<turn|>".to_string());
    let (st, out) = kepce_api::assistant::stream_step(st, d);
    assert_eq!(out.content, None);
    let mut d = delta();
    d.has_tool_call = true;
    d.tool_id = Some("c".to_string());
    d.tool_name = Some("menu_".to_string());
    d.tool_args = Some("{\"tar".to_string());
    d.content = Some("kayıp".to_string());
    let (st, out) = kepce_api::assistant::stream_step(st, d);
    assert_eq!(out.content, None);
    let mut d = delta();
    d.has_tool_call = true;
    d.tool_name = Some("sorgula".to_string());
    d.tool_args = Some("ih\":\"bugun\"}".to_string());
    let (st, _) = kepce_api::assistant::stream_step(st, d);
    assert_eq!((st.id.as_str(), st.name.as_str(), st.args.as_str()), ("c", "menu_sorgula", "{\"tarih\":\"bugun\"}"));
    assert!(st.is_tool_call && kepce_api::assistant::tool_requested(&st));
    let fresh = kepce_api::assistant::ToolCallState { id: String::new(), name: String::new(), args: String::new(), is_tool_call: false };
    let mut d = delta();
    d.finish_reason = Some("tool_calls".to_string());
    d.content = Some("x".to_string());
    let (st2, out) = kepce_api::assistant::stream_step(fresh, d);
    assert!(st2.is_tool_call);
    assert_eq!(out.content, None);
}
