use kepce_api::dto::user::{empty_string_as_none, RegisterRequestDto};

fn register_from_json(json: &str) -> RegisterRequestDto {
    let v: serde_json::Value = serde_json::from_str(json).unwrap();
    let username = v.get("username").and_then(|u| u.as_str()).map(|s| s.to_string());
    RegisterRequestDto {
        username: empty_string_as_none(username),
        email: v["email"].as_str().unwrap().to_string(),
        password: v["password"].as_str().unwrap().to_string(),
    }
}

#[test]
fn test_register_request_empty_username_deserializes_to_none() {
    let json_empty = r#"{"email":"test@example.com","password":"password123","username":""}"#;
    let dto = register_from_json(json_empty);
    assert_eq!(dto.username, None);
    assert!(dto.validate().is_none());

    let json_whitespace = r#"{"email":"test@example.com","password":"password123","username":"   "}"#;
    let dto = register_from_json(json_whitespace);
    assert_eq!(dto.username, None);
    assert!(dto.validate().is_none());

    let json_null = r#"{"email":"test@example.com","password":"password123","username":null}"#;
    let dto = register_from_json(json_null);
    assert_eq!(dto.username, None);
    assert!(dto.validate().is_none());

    let json_omitted = r#"{"email":"test@example.com","password":"password123"}"#;
    let dto = register_from_json(json_omitted);
    assert_eq!(dto.username, None);
    assert!(dto.validate().is_none());
}

#[test]
fn test_register_request_valid_username() {
    let json = r#"{"email":"test@example.com","password":"password123","username":"ahmet"}"#;
    let dto = register_from_json(json);
    assert_eq!(dto.username, Some("ahmet".to_string()));
    assert!(dto.validate().is_none());
}

#[test]
fn test_register_request_short_username_fails_validation() {
    let json = r#"{"email":"test@example.com","password":"password123","username":"ab"}"#;
    let dto = register_from_json(json);
    assert_eq!(dto.username, Some("ab".to_string()));
    assert_eq!(
        dto.validate(),
        Some("Kullanıcı adı 3-30 karakter arasında olmalıdır".to_string())
    );
}

#[test]
fn username_is_trimmed_when_kept() {
    assert_eq!(empty_string_as_none(Some("  ahmet ".to_string())), Some("ahmet".to_string()));
}

#[test]
fn short_password_gives_the_password_message() {
    let dto = RegisterRequestDto {
        username: None,
        email: "test@example.com".to_string(),
        password: "short".to_string(),
    };
    assert_eq!(dto.validate(), Some("Şifre 8-128 karakter arasında olmalıdır".to_string()));
}

#[test]
fn bad_email_gives_the_email_message() {
    let dto = RegisterRequestDto {
        username: None,
        email: "not-an-email".to_string(),
        password: "password123".to_string(),
    };
    assert_eq!(dto.validate(), Some("Geçerli bir e-posta adresi giriniz".to_string()));
}
