use kepce_api::comment::{comment_deletion, plan_comment, top_comment_order, NewComment};
use kepce_api::service_errors::ReactionError;
use kepce_api::comment::{
    check_author, check_dish, check_menu, dish_vote_target, mask_comment, next_reply_depth, reply_notification,
    resolve_reply, review_rules, tally_reactions, ParentComment, StoredReaction, MAX_REPLY_DEPTH,
};
use kepce_api::dto::comment::{ReactionTypeDto, Sentiment};
use kepce_api::service_errors::CommentError;

#[test]
fn authors_and_targets() {
    assert!(matches!(check_author(None), Err(CommentError::UserNotFound)));
    assert!(matches!(check_author(Some(false)), Err(CommentError::UnverifiedUser)));
    assert!(check_author(Some(true)).is_ok());
    assert!(matches!(check_menu(false), Err(CommentError::MenuNotFound)));
    assert!(matches!(check_dish(false, true), Err(CommentError::DishNotFound)));
    assert!(matches!(check_dish(true, false), Err(CommentError::DishNotInMenu)));
    assert!(check_dish(true, true).is_ok());
}

#[test]
fn replies_inherit_and_respect_blocks() {
    let parent = ParentComment { menu_id: 4, dish_id: Some(9), author: Some(77) };
    assert_eq!(resolve_reply(4, None, &parent, &vec![]).unwrap(), Some(9));
    assert_eq!(resolve_reply(4, Some(9), &parent, &vec![1, 2]).unwrap(), Some(9));
    assert!(matches!(resolve_reply(5, None, &parent, &vec![]), Err(CommentError::InvalidOperation)));
    assert!(matches!(resolve_reply(4, Some(8), &parent, &vec![]), Err(CommentError::InvalidOperation)));
    assert!(matches!(resolve_reply(4, None, &parent, &vec![3, 77]), Err(CommentError::InvalidOperation)));
    let orphan = ParentComment { menu_id: 4, dish_id: None, author: None };
    assert_eq!(resolve_reply(4, None, &orphan, &vec![77]).unwrap(), None);
}

#[test]
fn reply_chains_are_bounded() {
    assert_eq!(MAX_REPLY_DEPTH, 10);
    let mut depth = 1;
    let mut steps = 0;
    while let Ok(d) = next_reply_depth(depth) {
        depth = d;
        steps += 1;
    }
    assert_eq!(steps, 8);
    assert_eq!(depth, 9);
}

#[test]
fn review_rules_follow_the_unified_model() {
    assert!(matches!(review_rules(&None, Sentiment::Neutral, false), Err(CommentError::InvalidOperation)));
    assert_eq!(review_rules(&Some("   ".into()), Sentiment::Positive, false).unwrap(), true);
    assert!(matches!(review_rules(&Some("güzel".into()), Sentiment::Negative, false), Err(CommentError::InvalidOperation)));
    assert_eq!(review_rules(&Some("güzel".into()), Sentiment::Negative, true).unwrap(), false);
    assert_eq!(review_rules(&Some("güzel".into()), Sentiment::Neutral, false).unwrap(), false);
    assert_eq!(dish_vote_target(true, Sentiment::Positive, Some(3)), Some(3));
    assert_eq!(dish_vote_target(true, Sentiment::Neutral, Some(3)), None);
    assert_eq!(dish_vote_target(false, Sentiment::Positive, Some(3)), None);
}

#[test]
fn reply_notifications_preview() {
    let long = "a".repeat(81);
    let (title, body, href) = reply_notification("ayse", Some(&long), 12, "abc");
    assert_eq!(title, "@ayse yorumuna yanıt verdi");
    assert_eq!(body, format!("{}...", "a".repeat(77)));
    assert_eq!(href, "/yorumlar/12?thread=abc");
    let exact = "b".repeat(80);
    assert_eq!(reply_notification("x", Some(&exact), 1, "p").1, exact);
    assert_eq!(reply_notification("x", None, 1, "p").1, "Bir yanıt bıraktı");
}

#[test]
fn reactions_are_tallied() {
    let rs = vec![
        StoredReaction { comment_id: 1, user_id: 10, reaction: ReactionTypeDto::Up },
        StoredReaction { comment_id: 1, user_id: 11, reaction: ReactionTypeDto::Down },
        StoredReaction { comment_id: 2, user_id: 10, reaction: ReactionTypeDto::Down },
        StoredReaction { comment_id: 1, user_id: 12, reaction: ReactionTypeDto::Up },
    ];
    let s = tally_reactions(&rs, 1, Some(10));
    assert_eq!((s.up, s.down, s.my_vote), (2, 1, Some(ReactionTypeDto::Up)));
    let s = tally_reactions(&rs, 2, None);
    assert_eq!((s.up, s.down, s.my_vote), (0, 1, None));
}

#[test]
fn comments_are_masked() {
    let m = mask_comment(Some("merhaba".into()), false, Some(("ali".into(), Some("a.png".into()))), false);
    assert_eq!((m.content.as_deref(), m.author_name.as_str(), m.avatar_url.as_deref()), (Some("merhaba"), "ali", Some("a.png")));
    let m = mask_comment(Some("merhaba".into()), true, Some(("ali".into(), Some("a.png".into()))), false);
    assert_eq!((m.content.as_deref(), m.author_name.as_str(), m.avatar_url, m.is_deleted, m.show_author_id), (Some("[Bu içerik silinmiş]"), "Bilinmeyen Kullanıcı", None, true, false));
    let m = mask_comment(Some("merhaba".into()), false, None, false);
    assert!(m.is_deleted);
    let m = mask_comment(Some("merhaba".into()), false, Some(("ali".into(), None)), true);
    assert_eq!((m.content.as_deref(), m.author_name.as_str(), m.is_deleted), (Some("[Bu içerik görüntülenemiyor]"), "Gizli Kullanıcı", false));
}

#[test]
fn deletion_rights_and_kind() {
    assert_eq!(comment_deletion(Some(Some(7)), 7, false).unwrap(), "user");
    assert_eq!(comment_deletion(Some(Some(7)), 8, true).unwrap(), "admin");
    assert!(matches!(comment_deletion(Some(Some(7)), 8, false), Err(ReactionError::Unauthorized)));
    assert!(matches!(comment_deletion(Some(None), 8, false), Err(ReactionError::Unauthorized)));
    assert!(matches!(comment_deletion(None, 8, true), Err(ReactionError::CommentNotFound)));
}

#[test]
fn top_comments_by_score_newest_first_on_ties() {
    // (up, down) of the candidates, newest first
    let reactions = vec![(1, 0), (5, 1), (3, 3), (4, 0), (0, 2)];
    assert_eq!(top_comment_order(&reactions, 10), vec![1, 3, 0, 2, 4]);
    assert_eq!(top_comment_order(&reactions, 2), vec![1, 3]);
    assert_eq!(top_comment_order(&vec![], 5), Vec::<usize>::new());
}

fn new_comment() -> NewComment {
    NewComment {
        user_verified: Some(true),
        menu_id: 4,
        menu_exists: true,
        dish_id: None,
        dish_exists: false,
        dish_in_menu: false,
        reply_to: None,
        blocked: vec![],
        ancestors: 0,
        comment: Some("Güzeldi".to_string()),
        sentiment: Sentiment::Neutral,
        is_tabldot: false,
    }
}

#[test]
fn comment_checks_run_in_order() {
    let ok = plan_comment(&new_comment()).ok().unwrap();
    assert_eq!(ok.dish_id, None);
    assert!(!ok.pure_vote);
    assert_eq!(ok.vote_dish, None);

    // the author is checked before the menu
    let mut c = new_comment();
    c.user_verified = Some(false);
    c.menu_exists = false;
    assert!(matches!(plan_comment(&c), Err(CommentError::UnverifiedUser)));
    c.user_verified = None;
    assert!(matches!(plan_comment(&c), Err(CommentError::UserNotFound)));

    // the menu before the dish
    let mut c = new_comment();
    c.menu_exists = false;
    c.dish_id = Some(9);
    assert!(matches!(plan_comment(&c), Err(CommentError::MenuNotFound)));

    // a dish is looked at only when one is named
    let mut c = new_comment();
    c.dish_id = Some(9);
    c.dish_exists = true;
    assert!(matches!(plan_comment(&c), Err(CommentError::DishNotInMenu)));
    c.dish_exists = false;
    assert!(matches!(plan_comment(&c), Err(CommentError::DishNotFound)));

    // the dish before the reply, the reply before the review rules
    let mut c = new_comment();
    c.reply_to = Some(None);
    c.sentiment = Sentiment::Positive;
    assert!(matches!(plan_comment(&c), Err(CommentError::ParentCommentNotFound)));
}

#[test]
fn a_reply_takes_its_parents_dish_and_votes_on_it() {
    let mut c = new_comment();
    c.reply_to = Some(Some(ParentComment { menu_id: 4, dish_id: Some(12), author: Some(77) }));
    c.comment = None;
    c.sentiment = Sentiment::Positive;
    c.is_tabldot = true;
    let plan = plan_comment(&c).ok().unwrap();
    assert_eq!(plan.dish_id, Some(12));
    assert!(plan.pure_vote);
    assert_eq!(plan.vote_dish, Some(12));

    c.blocked = vec![77];
    assert!(matches!(plan_comment(&c), Err(CommentError::InvalidOperation)));
    c.blocked = vec![];
    c.ancestors = 8;
    assert!(plan_comment(&c).is_ok());
    c.ancestors = 9;
    assert!(matches!(plan_comment(&c), Err(CommentError::InvalidOperation)));
}
