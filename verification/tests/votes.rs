use kepce_api::comment::StoredReaction;
use kepce_api::dto::comment::{ReactionTypeDto, Sentiment};
use kepce_api::service_errors::{ReactionError, VoteError};
use kepce_api::votes::{apply_reaction, toggle_reaction, vote_menu, vote_sentiment, DishVote, MenuBallot};

fn r(comment: u128, user: u128, reaction: ReactionTypeDto) -> StoredReaction {
    StoredReaction { comment_id: comment, user_id: user, reaction }
}

#[test]
fn reactions_toggle() {
    let mut rs = vec![r(1, 10, ReactionTypeDto::Up), r(1, 11, ReactionTypeDto::Down), r(2, 10, ReactionTypeDto::Down)];
    let s = toggle_reaction(&mut rs, 12, Some(true), 1, Some(Some(10)), &vec![], ReactionTypeDto::Up).unwrap();
    assert_eq!((s.up, s.down, s.my_vote), (2, 1, Some(ReactionTypeDto::Up)));
    let s = toggle_reaction(&mut rs, 12, Some(true), 1, Some(Some(10)), &vec![], ReactionTypeDto::Up).unwrap();
    assert_eq!((s.up, s.down, s.my_vote), (1, 1, None));
    let s = toggle_reaction(&mut rs, 10, Some(true), 1, Some(None), &vec![], ReactionTypeDto::Down).unwrap();
    assert_eq!((s.up, s.down, s.my_vote), (0, 2, Some(ReactionTypeDto::Down)));
    assert_eq!(rs.len(), 3);
    assert!(matches!(rs[0].reaction, ReactionTypeDto::Down));
}

#[test]
fn reactions_refused() {
    let mut rs = vec![r(1, 10, ReactionTypeDto::Up)];
    assert!(matches!(
        toggle_reaction(&mut rs, 5, None, 1, Some(Some(10)), &vec![], ReactionTypeDto::Up),
        Err(ReactionError::Unauthorized)
    ));
    assert!(matches!(
        toggle_reaction(&mut rs, 5, Some(false), 1, Some(Some(10)), &vec![], ReactionTypeDto::Up),
        Err(ReactionError::UnverifiedUser)
    ));
    assert!(matches!(
        toggle_reaction(&mut rs, 5, Some(true), 1, None, &vec![], ReactionTypeDto::Up),
        Err(ReactionError::CommentNotFound)
    ));
    assert!(matches!(
        toggle_reaction(&mut rs, 5, Some(true), 1, Some(Some(10)), &vec![3, 10], ReactionTypeDto::Up),
        Err(ReactionError::InvalidOperation)
    ));
    assert_eq!(rs.len(), 1);
}

#[test]
fn apply_reaction_replaces_in_place() {
    let mut rs = vec![r(1, 10, ReactionTypeDto::Up), r(1, 11, ReactionTypeDto::Up)];
    apply_reaction(&mut rs, 1, 10, ReactionTypeDto::Down);
    assert_eq!(rs.len(), 2);
    assert_eq!(rs[0].user_id, 10);
    assert!(matches!(rs[0].reaction, ReactionTypeDto::Down));
    apply_reaction(&mut rs, 1, 11, ReactionTypeDto::Up);
    assert_eq!(rs.len(), 1);
}

#[test]
fn vote_words() {
    assert_eq!(vote_sentiment("Positive").unwrap(), Sentiment::Positive);
    assert_eq!(vote_sentiment("NEGATIVE").unwrap(), Sentiment::Negative);
    assert_eq!(vote_sentiment("neutral").unwrap(), Sentiment::Neutral);
    assert_eq!(vote_sentiment("").unwrap(), Sentiment::Neutral);
    let e = vote_sentiment("great").unwrap_err();
    assert_eq!(e.status_code(), 400);
    assert_eq!(
        e.message(),
        "Geçersiz oy türü. Yalnızca 'positive', 'negative' veya 'neutral' kabul edilir."
    );
}

#[test]
fn menu_votes_reach_dishes_but_not_own_votes() {
    let mut b = MenuBallot {
        menu_vote: None,
        dish_votes: vec![
            DishVote { dish_id: 7, sentiment: Sentiment::Negative, explicit: true },
            DishVote { dish_id: 8, sentiment: Sentiment::Negative, explicit: false },
        ],
    };
    vote_menu(&mut b, Some(true), Sentiment::Positive, &vec![Some(7), None, Some(8), Some(9)]).unwrap();
    assert_eq!(b.menu_vote, Some(Sentiment::Positive));
    assert_eq!(
        b.dish_votes,
        vec![
            DishVote { dish_id: 7, sentiment: Sentiment::Negative, explicit: true },
            DishVote { dish_id: 8, sentiment: Sentiment::Positive, explicit: false },
            DishVote { dish_id: 9, sentiment: Sentiment::Positive, explicit: false },
        ]
    );
    vote_menu(&mut b, Some(true), Sentiment::Neutral, &vec![Some(7), Some(8), Some(9)]).unwrap();
    assert_eq!(b.menu_vote, None);
    assert_eq!(b.dish_votes, vec![DishVote { dish_id: 7, sentiment: Sentiment::Negative, explicit: true }]);
}

#[test]
fn menu_votes_refused() {
    let mut b = MenuBallot { menu_vote: Some(Sentiment::Negative), dish_votes: vec![] };
    match vote_menu(&mut b, None, Sentiment::Positive, &vec![Some(1)]) {
        Err(VoteError::DatabaseError(m)) => assert_eq!(m, "Kullanıcı bulunamadı"),
        _ => panic!("unknown user"),
    }
    assert!(matches!(vote_menu(&mut b, Some(false), Sentiment::Positive, &vec![Some(1)]), Err(VoteError::UnverifiedUser)));
    assert_eq!(b.menu_vote, Some(Sentiment::Negative));
    assert!(b.dish_votes.is_empty());
}
