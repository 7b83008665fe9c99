use kepce_api::accounts::{new_account, AccountStatus};
use kepce_api::dto::user::UserRole;
use kepce_api::moderation::{blocked_relations, blocked_user_ids, check_block, check_comment_report, moderate_account, set_account_status, Block};
use kepce_api::service_errors::ModerationError;

#[test]
fn comment_reports_and_blocks() {
    assert!(matches!(check_comment_report(1, None, false), Err(ModerationError::CommentNotFound)));
    assert!(matches!(check_comment_report(1, Some(None), false), Err(ModerationError::CommentAlreadyDeleted)));
    assert!(matches!(check_comment_report(1, Some(Some(1)), false), Err(ModerationError::SelfReportNotAllowed)));
    assert!(matches!(check_comment_report(1, Some(Some(2)), true), Err(ModerationError::AlreadyReported)));
    assert!(check_comment_report(1, Some(Some(2)), false).is_ok());
    assert!(matches!(check_block(1, 1, true, false), Err(ModerationError::SelfBlockNotAllowed)));
    assert!(matches!(check_block(1, 2, false, false), Err(ModerationError::UserNotFound)));
    assert!(matches!(check_block(1, 2, true, true), Err(ModerationError::AlreadyBlocked)));
    assert!(check_block(1, 2, true, false).is_ok());
}

#[test]
fn isolation_is_both_ways() {
    let blocks = vec![
        Block { blocker: 5, blocked: 9 },
        Block { blocker: 3, blocked: 5 },
        Block { blocker: 9, blocked: 5 },
        Block { blocker: 7, blocked: 8 },
    ];
    assert_eq!(blocked_user_ids(&blocks, 5), vec![3, 9]);
    assert_eq!(blocked_user_ids(&blocks, 1), Vec::<u128>::new());
    let (mine, me) = blocked_relations(&blocks, 5);
    assert_eq!(mine, vec![9]);
    assert_eq!(me, vec![3, 9]);
}

#[test]
fn standing_changes_end_sessions() {
    let mut a = new_account(1, "ali".to_string(), "a@x.com".to_string(), "h".to_string(), None, None);
    match set_account_status(&mut a, "Unknown") {
        Err(ModerationError::DatabaseError(m)) => assert_eq!(m, "Geçersiz statü değeri"),
        _ => panic!("unknown standing"),
    }
    set_account_status(&mut a, "Suspended").unwrap();
    assert_eq!((a.status, a.token_version), (AccountStatus::Suspended, 1));
    set_account_status(&mut a, "ACTIVE").unwrap();
    assert_eq!((a.status, a.token_version), (AccountStatus::Active, 1));
    moderate_account(&mut a, Some(true), Some(true), Some(true));
    assert!(a.is_verified);
    assert_eq!(a.role, UserRole::Admin);
    assert_eq!((a.status, a.token_version), (AccountStatus::Banned, 2));
    moderate_account(&mut a, None, Some(false), Some(false));
    assert_eq!(a.role, UserRole::User);
    assert_eq!((a.status, a.token_version), (AccountStatus::Active, 2));
}
