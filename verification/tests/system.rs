use kepce_api::dto::system::HeadDto;
use kepce_api::calendar::CalendarDate;
use kepce_api::system::{check_chain, day_status, head_key, last_days, overall_status, status_history, ChainNode, IncidentRecord};

fn d(year: i32, month: u32, day: u32) -> CalendarDate {
    CalendarDate { year, month, day }
}

fn node(id: i32, root: Option<&str>, prev: Option<&str>) -> ChainNode {
    ChainNode { menu_id: id, stored_root: root.map(|s| s.to_string()), stored_prev: prev.map(|s| s.to_string()) }
}

#[test]
fn chain_links_are_checked() {
    let calc = vec!["h1".to_string(), "h2".to_string(), "h3".to_string()];
    let intact = vec![node(1, Some("h1"), None), node(2, Some("h2"), Some("h1")), node(3, Some("h3"), Some("h2"))];
    assert!(check_chain(&intact, &calc).is_empty());
    let broken = vec![node(1, Some("h1"), Some("x")), node(2, None, Some("h1")), node(3, Some("h3"), Some("h1"))];
    assert_eq!(check_chain(&broken, &calc), vec![0, 1, 2]);
    let tampered = vec![node(1, Some("h1"), None), node(2, Some("zz"), Some("h1")), node(3, Some("h3"), Some("h2"))];
    assert_eq!(check_chain(&tampered, &calc), vec![1]);
    assert_eq!(head_key("ankara", "lunch"), "menu:ankara:lunch");
}

fn inc(component: &str, status: &str, impact: &str, started: CalendarDate, resolved: Option<CalendarDate>) -> IncidentRecord {
    IncidentRecord {
        component: component.to_string(),
        status: status.to_string(),
        impact: impact.to_string(),
        started,
        resolved,
    }
}

#[test]
fn overall_status_from_incidents() {
    assert_eq!(overall_status(&vec![]), "aktif");
    let a = || inc("API Sunucusu", "resolved", "kesinti", d(2024, 3, 1), Some(d(2024, 3, 2)));
    let b = || inc("Botlar", "investigating", "yavas", d(2024, 3, 3), None);
    let c = || inc("Veritabanı", "open", "kesinti", d(2024, 3, 4), None);
    assert_eq!(overall_status(&vec![a()]), "aktif");
    assert_eq!(overall_status(&vec![a(), b()]), "yavas");
    assert_eq!(overall_status(&vec![c(), b()]), "kesinti");
    assert_eq!(overall_status(&vec![b(), c()]), "kesinti");
}

#[test]
fn daily_history() {
    let today = d(2024, 3, 2);
    assert_eq!(last_days(today, 3), vec![d(2024, 2, 29), d(2024, 3, 1), d(2024, 3, 2)]);
    assert_eq!(last_days(today, 0), vec![]);
    let incs = vec![
        inc("Botlar", "resolved", "yavas", d(2024, 2, 28), Some(d(2024, 2, 29))),
        inc("Botlar", "open", "kesinti", d(2024, 3, 2), None),
        inc("API Sunucusu", "open", "kesinti", d(2024, 1, 1), None),
    ];
    assert_eq!(day_status(&incs, "Botlar", d(2024, 2, 29), today), "yavas");
    assert_eq!(day_status(&incs, "Botlar", d(2024, 3, 1), today), "aktif");
    let h = status_history(&incs, "Botlar", today, 3);
    let statuses: Vec<&str> = h.iter().map(|(_, s)| s.as_str()).collect();
    assert_eq!(statuses, vec!["yavas", "aktif", "kesinti"]);
    assert_eq!(h[0].0, d(2024, 2, 29));
}

#[test]
fn health_report_counts_and_fingerprint() {
    let heads = vec![
        HeadDto { key: "menu:ankara:lunch".to_string(), hash: "bb".to_string() },
        HeadDto { key: "menu:izmir:dinner".to_string(), hash: "aa".to_string() },
    ];
    let r = kepce_api::system::system_health(0, 10, 20, 3, 1, heads);
    assert_eq!(r.status, "healthy");
    assert_eq!(r.total_nodes, 34);
    assert_eq!(r.node_counts[0], ("Menü node".to_string(), 10));
    assert_eq!(r.node_counts[3], ("Rapor node".to_string(), 1));
    assert_eq!(r.heads.len(), 2);
    assert_eq!(r.heads[0].key, "menu:ankara:lunch");
    let expected = kepce_api::digest::global_fingerprint(&vec!["aa".to_string(), "bb".to_string()]);
    assert_eq!(r.global_fingerprint, expected);
    assert_eq!(r.global_fingerprint.len(), 64);
    let down = kepce_api::system::system_health(2, 0, 0, 0, 0, vec![]);
    assert_eq!(down.status, "unhealthy");
    assert_eq!(down.global_fingerprint, "GENESIS_STATE");
}
