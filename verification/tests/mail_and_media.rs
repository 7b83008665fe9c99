use kepce_api::avatars::{avatar_kind, avatar_location, check_avatar, uuid_text, AvatarKind};
use kepce_api::mail::{link_mail, mock_delivery, security_alert, LinkMail};

#[test]
fn link_mails() {
    let m = link_mail(LinkMail::Verification, "https://kepce.org", "T0K");
    assert_eq!(m.subject, "Kepçe Hesabınızı Doğrulayın");
    assert!(m.html.contains("<a href=\"https://kepce.org/auth/dogrula?token=T0K\" style="));
    assert!(m.html.contains("Bu bağlantı 24 saat boyunca geçerlidir."));
    assert!(m.html.starts_with("\n            <div style=\"font-family: sans-serif;"));
    let m = link_mail(LinkMail::Passwordless, "https://kepce.org", "x");
    assert_eq!(m.subject, "Kepçe Şifresiz Giriş Bağlantınız");
    assert!(m.html.contains("https://kepce.org/auth/sifresiz?token=x"));
    let m = link_mail(LinkMail::PasswordReset, "http://localhost:5173", "y");
    assert_eq!(m.subject, "Şifre Sıfırlama Talebi");
    assert!(m.html.contains("http://localhost:5173/auth/sifre-sifirla?token=y"));
    assert!(mock_delivery(""));
    assert!(mock_delivery("mock_key"));
    assert!(!mock_delivery("re_123"));
}

#[test]
fn security_alerts() {
    let m = security_alert("https://kepce.org", "ali", "Hesap Şifreniz Sıfırlandı", "Ayrıntı", "05.03.2024 10:00 (UTC)");
    assert_eq!(m.subject, "Kepçe Güvenlik Uyarısı: Hesap Şifreniz Sıfırlandı");
    assert!(m.html.contains("Merhaba <strong>@ali</strong>,"));
    assert!(m.html.contains("Zaman: 05.03.2024 10:00 (UTC)"));
    assert!(m.html.contains("<a href=\"https://kepce.org/ayarlar\""));
}

#[test]
fn uuids_are_written_like_the_uuid_crate() {
    for n in [0u128, 1, u128::MAX, 0x67e5504410b1426f9247bb680e5fe0c8] {
        assert_eq!(uuid_text(n), uuid::Uuid::from_u128(n).to_string());
    }
}

#[test]
fn avatars() {
    assert_eq!(avatar_kind("image/png").unwrap(), AvatarKind::Png);
    assert_eq!(avatar_kind("image/gif").unwrap_err().message(), "Sadece JPEG, PNG ve WebP formatları desteklenmektedir.");
    let png = [137u8, 80, 78, 71, 13, 10, 26, 10, 0, 0];
    assert!(check_avatar(AvatarKind::Png, &png).is_ok());
    assert!(check_avatar(AvatarKind::Jpeg, &[0xFF, 0xD8, 1]).is_ok());
    let webp = *b"RIFF\0\0\0\0WEBPxx";
    assert!(check_avatar(AvatarKind::Webp, &webp).is_ok());
    let e = check_avatar(AvatarKind::Jpeg, &png).unwrap_err();
    assert_eq!(e.message(), "Dosya imzası doğrulanamadı. Geçersiz veya bozuk resim dosyası.");
    let big = vec![0xFFu8; 2 * 1024 * 1024 + 1];
    assert_eq!(check_avatar(AvatarKind::Jpeg, &big).unwrap_err().message(), "Avatar boyutu 2MB'tan büyük olamaz.");
    let (path, url) = avatar_location(1, AvatarKind::Webp);
    assert_eq!(path, "static/avatars/00000000-0000-0000-0000-000000000001.webp");
    assert_eq!(url, "/static/avatars/00000000-0000-0000-0000-000000000001.webp");
}
