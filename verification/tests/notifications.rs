use kepce_api::notifications::{notification_allowed, push_payload, subscribe, PushSubscription, SubscribeRequest};

fn req(endpoint: &str) -> SubscribeRequest {
    SubscribeRequest {
        endpoint: endpoint.to_string(),
        p256dh: "k".to_string(),
        auth: "a".to_string(),
        city_id: None,
        breakfast_enabled: None,
        breakfast_time: None,
        dinner_enabled: Some(false),
        dinner_time: None,
        user_agent: None,
    }
}

#[test]
fn preferences_filter_kinds() {
    assert!(!notification_allowed("reply", false, true, true));
    assert!(notification_allowed("comment", true, false, false));
    assert!(!notification_allowed("like", true, false, true));
    assert!(!notification_allowed("moderation", true, true, false));
    assert!(notification_allowed("custom", false, false, false));
}

#[test]
fn push_payloads() {
    let p = push_payload("reply", "Yeni yanıt".to_string(), "Bir yanıt geldi".to_string(), Some("/yorumlar/1".to_string()));
    assert_eq!(p.tag.as_deref(), Some("notif-reply"));
    assert_eq!(p.icon.as_deref(), Some("/icons/icon-192.png"));
    assert_eq!(p.badge.as_deref(), Some("/icons/badge-72.png"));
    assert_eq!(p.url.as_deref(), Some("/yorumlar/1"));
}

#[test]
fn subscriptions() {
    match subscribe(None, req("  "), None) {
        Err(e) => assert_eq!(e.message(), "Geçersiz push abonelik bilgileri."),
        Ok(_) => panic!("blank endpoints are refused"),
    }
    let s = subscribe(None, req("https://push/1"), Some(7)).unwrap();
    assert_eq!(s.user_id, Some(7));
    assert!(s.breakfast_enabled && !s.dinner_enabled);
    assert_eq!((s.breakfast_time.as_str(), s.dinner_time.as_str()), ("07:30", "17:00"));
    let old = PushSubscription {
        user_id: Some(3),
        city_id: Some(6),
        endpoint: "https://push/1".to_string(),
        p256dh: "old".to_string(),
        auth: "old".to_string(),
        breakfast_enabled: false,
        breakfast_time: "08:00".to_string(),
        dinner_enabled: true,
        dinner_time: "18:00".to_string(),
        user_agent: Some("ua".to_string()),
    };
    let s = subscribe(Some(old), req("https://push/1"), None).unwrap();
    assert_eq!((s.user_id, s.city_id), (Some(3), Some(6)));
    assert_eq!((s.p256dh.as_str(), s.auth.as_str()), ("k", "a"));
    assert!(!s.breakfast_enabled && !s.dinner_enabled);
    assert_eq!(s.breakfast_time, "08:00");
    assert_eq!(s.user_agent.as_deref(), Some("ua"));
}
