use kepce_api::db_console::{check_console_query, sanitize_ident};

#[test]
fn test_sanitize_ident_valid() {
    assert_eq!(sanitize_ident("menus").unwrap(), "menus");
    assert_eq!(sanitize_ident("contact_messages").unwrap(), "contact_messages");
    assert_eq!(sanitize_ident("users_2026").unwrap(), "users_2026");
}

#[test]
fn test_sanitize_ident_rejects_sql_injection() {
    assert!(sanitize_ident("users; DROP TABLE menus;").is_err());
    assert!(sanitize_ident("menus--").is_err());
    assert!(sanitize_ident("menus' OR '1'='1").is_err());
    assert!(sanitize_ident("").is_err());
    assert!(sanitize_ident(&"a".repeat(70)).is_err());
}

#[test]
fn test_read_only_keyword_blocking() {
    let test_query = "DELETE FROM users WHERE id = 1";
    assert!(check_console_query(test_query, false).is_err());

    let safe_query = "SELECT * FROM users WHERE status = 'active'";
    assert!(check_console_query(safe_query, false).is_ok());
}

#[test]
fn write_mode_lets_a_forbidden_keyword_through() {
    assert!(check_console_query("DELETE FROM users WHERE id = 1", true).is_ok());
}

#[test]
fn keyword_inside_a_longer_word_is_not_blocked() {
    assert!(check_console_query("SELECT created_at FROM updates_log", false).is_ok());
}

#[test]
fn sanitized_names_sanitize_to_themselves() {
    let once = sanitize_ident("  menus\u{a0}\t").unwrap();
    assert_eq!(once, "menus");
    assert_eq!(sanitize_ident(&once).unwrap(), once);
}
