use kepce_api::dto::user::UserRole;
use kepce_api::reports::{
    check_comment_report, check_report, html_escape, parse_report_status, reply_mail, require_admin, ReportStatus,
    ReportTarget, SubmitReportDto,
};

fn report(t: &str, id: &str, reason: &str, description: Option<&str>) -> SubmitReportDto {
    SubmitReportDto {
        target_type: t.to_string(),
        target_id: id.to_string(),
        reason: reason.to_string(),
        description: description.map(|s| s.to_string()),
    }
}

#[test]
fn report_targets() {
    let uuid = "67e55044-10b1-426f-9247-bb680e5fe0c8";
    let n = 0x67e5504410b1426f9247bb680e5fe0c8u128;
    assert_eq!(check_report(&report("comment", uuid, "spam", None)).unwrap(), ReportTarget::Comment(n));
    assert_eq!(check_report(&report("user", uuid, "spam", None)).unwrap(), ReportTarget::User(n));
    assert_eq!(check_report(&report("menu", "42", "yanlış", None)).unwrap(), ReportTarget::Menu(42));
    assert_eq!(check_report(&report("bot", "-3", "bot_wrong", None)).unwrap(), ReportTarget::Bot(-3));
    assert_eq!(check_report(&report("comment", "x", "spam", None)).unwrap_err().message(), "Geçersiz yorum ID");
    assert_eq!(check_report(&report("menu", "4x", "spam", None)).unwrap_err().message(), "Geçersiz menü ID");
    assert_eq!(check_report(&report("user", "", "spam", None)).unwrap_err().message(), "Geçersiz kullanıcı ID");
    assert_eq!(check_report(&report("dish", "1", "spam", None)).unwrap_err().message(), "Bilinmeyen hedef türü.");
    assert_eq!(ReportTarget::Bot(1).kind_name(), "bot");
}

#[test]
fn open_reasons_need_a_description() {
    let e = check_report(&report("menu", "1", "other", Some("  "))).unwrap_err();
    assert_eq!(e.status_code(), 400);
    assert_eq!(e.message(), "Lütfen detaylı açıklama giriniz.");
    assert!(check_report(&report("menu", "1", "Diğer", None)).is_err());
    assert!(check_report(&report("menu", "1", "bot_other", Some("yanlış tarih"))).is_ok());
}

#[test]
fn comment_reports_and_statuses() {
    assert_eq!(check_comment_report(false, false).unwrap_err().status_code(), 404);
    assert_eq!(check_comment_report(true, true).unwrap_err().message(), "Zaten şikayetiniz var.");
    assert!(check_comment_report(true, false).is_ok());
    assert_eq!(parse_report_status("resolved").unwrap(), ReportStatus::Resolved);
    assert_eq!(parse_report_status("dismissed").unwrap().wire_name(), "dismissed");
    assert_eq!(parse_report_status("closed").unwrap_err().message(), "Invalid status");
    assert!(require_admin(UserRole::Admin).is_ok());
    assert_eq!(require_admin(UserRole::User).unwrap_err().status_code(), 403);
}

#[test]
fn reply_mails_escape_the_reply() {
    assert_eq!(html_escape("a<b & \"c\">").into_iter().collect::<String>(), "a&lt;b &amp; &quot;c&quot;&gt;");
    let (subject, body) = reply_mail("Soru", "<merhaba>");
    assert_eq!(subject, "Re: Soru - Kepçe Destek");
    assert!(body.contains("font-size: 15px;\">&lt;merhaba&gt;</div>"));
    assert!(body.starts_with("<div style=\"font-family"));
    assert!(body.ends_with("</p>\n        </div>"));
}
