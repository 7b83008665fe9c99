use kepce_api::accounts::AccountStatus;
use kepce_api::dto::user::UserRole;
use kepce_api::menu::MenuStatus;
use kepce_api::reports::ReportStatus;
use kepce_api::review::{
    bulk_status, complaint_names, decision_notice, page_info, purge_reports, role_label, settle_reports, status_label,
    CommentReport, Verdict,
};

fn rep(c: u128, status: ReportStatus) -> CommentReport {
    CommentReport { comment_id: c, status }
}

#[test]
fn verdicts_settle_reports() {
    let start = vec![rep(1, ReportStatus::Pending), rep(2, ReportStatus::Pending), rep(1, ReportStatus::Resolved)];
    let mut a = start.clone();
    settle_reports(&mut a, 1, Verdict::Approve);
    assert_eq!(a, vec![rep(1, ReportStatus::Dismissed), rep(2, ReportStatus::Pending), rep(1, ReportStatus::Resolved)]);
    let mut b = start.clone();
    settle_reports(&mut b, 1, Verdict::Reject);
    assert_eq!(b[0], rep(1, ReportStatus::Resolved));
    assert_eq!(b[1], rep(2, ReportStatus::Pending));
    settle_reports(&mut b, 1, Verdict::Reset);
    assert_eq!(b, vec![rep(1, ReportStatus::Pending), rep(2, ReportStatus::Pending), rep(1, ReportStatus::Pending)]);
    assert_eq!(purge_reports(&start, 1), vec![rep(2, ReportStatus::Pending)]);
}

#[test]
fn bulk_decisions() {
    assert_eq!(bulk_status("Approved").unwrap(), MenuStatus::Approved);
    assert_eq!(bulk_status("REJECTED").unwrap(), MenuStatus::Rejected);
    let e = bulk_status("pending").unwrap_err();
    assert_eq!(e.message(), "Geçersiz menü durumu (yalnızca 'approved' veya 'rejected')");
    let n = decision_notice(42, true);
    assert_eq!(n.kind, "moderation");
    assert_eq!(n.title, "Menü Gönderin Onaylandı");
    assert_eq!(n.action_label.as_deref(), Some("Menüyü Gör"));
    assert_eq!(n.action_href.as_deref(), Some("/menu/42"));
    let n = decision_notice(42, false);
    assert_eq!(n.title, "Menü Gönderin Reddedildi");
    assert!(n.action_label.is_none() && n.action_href.is_none());
}

#[test]
fn listings() {
    assert_eq!(role_label(UserRole::Admin), "admin");
    assert_eq!(role_label(UserRole::SystemBot), "unknown");
    assert_eq!(status_label(AccountStatus::Suspended), "suspended");
    assert_eq!(complaint_names(None, None), ("Anonim".to_string(), "Kullanıcı".to_string()));
    assert_eq!(complaint_names(Some("a".to_string()), Some("b".to_string())), ("a".to_string(), "b".to_string()));
    assert_eq!(page_info(0, 20, 0), (1, 1));
    assert_eq!(page_info(40, 20, 20), (2, 2));
    assert_eq!(page_info(41, 20, 40), (3, 3));
    assert_eq!(page_info(u64::MAX, 1, 5), (u64::MAX, 6));
}
