//! The rules of comments and reviews: who may comment, what a reply inherits from the
//! comment it answers, how deep a thread may grow, which reviews may carry a verdict,
//! when a review counts as a vote on a dish, how deleted and blocked authors are masked,
//! how reactions are tallied, and how a thread is laid out and paged.

use vstd::prelude::*;
use crate::dto::comment::{Sentiment, ReactionTypeDto, ReactionSummaryDto};
use crate::service_errors::CommentError;
use crate::text::{char_vec, trim, spec_trim, extend_str, extend_chars, decimal_i128, spec_int_decimal, string_from_chars};
use vstd::string::StringExecFns;

verus! {

/// A reply chain may reach this many comments, counting the new reply.
pub const MAX_REPLY_DEPTH: usize = 10;

/// The author of a new comment must exist and have verified their e-mail address
/// (`None`: no such user; `Some(v)`: whether the user is verified).
pub fn check_author(user_verified: Option<bool>) -> (r: Result<(), CommentError>)
    ensures
        r == (match user_verified {
            None => Err(CommentError::UserNotFound),
            Some(false) => Err(CommentError::UnverifiedUser),
            Some(true) => Ok(()),
        }),
{
    match user_verified {
        None => Err(CommentError::UserNotFound),
        Some(false) => Err(CommentError::UnverifiedUser),
        Some(true) => Ok(()),
    }
}

/// The menu commented on must exist.
pub fn check_menu(menu_exists: bool) -> (r: Result<(), CommentError>)
    ensures
        r == (if menu_exists { Ok(()) } else { Err(CommentError::MenuNotFound) }),
{
    if menu_exists {
        Ok(())
    } else {
        Err(CommentError::MenuNotFound)
    }
}

/// A dish commented on must exist and be served on the menu.
pub fn check_dish(dish_exists: bool, dish_in_menu: bool) -> (r: Result<(), CommentError>)
    ensures
        r == (if !dish_exists {
            Err(CommentError::DishNotFound)
        } else if !dish_in_menu {
            Err(CommentError::DishNotInMenu)
        } else {
            Ok(())
        }),
{
    if !dish_exists {
        Err(CommentError::DishNotFound)
    } else if !dish_in_menu {
        Err(CommentError::DishNotInMenu)
    } else {
        Ok(())
    }
}

/// The comment a reply answers.
pub struct ParentComment {
    pub menu_id: i32,
    pub dish_id: Option<i32>,
    pub author: Option<u128>,
}

/// The dish a reply is about: a reply stays on its parent's menu and dish (a reply that
/// names no dish takes its parent's), and nobody may answer a user they blocked or who
/// blocked them (`blocked`: the ids on either side of a block with the replying user).
pub open spec fn spec_reply_dish(
    menu_id: i32,
    dish_id: Option<i32>,
    parent: ParentComment,
    blocked: Seq<u128>,
) -> Result<Option<i32>, CommentError> {
    if parent.menu_id != menu_id {
        Err(CommentError::InvalidOperation)
    } else if dish_id is Some && dish_id != parent.dish_id {
        Err(CommentError::InvalidOperation)
    } else if parent.author matches Some(a) && blocked.contains(a) {
        Err(CommentError::InvalidOperation)
    } else if dish_id is None {
        Ok(parent.dish_id)
    } else {
        Ok(dish_id)
    }
}

/// Checks a reply against the comment it answers and returns the dish it is about.
pub fn resolve_reply(
    menu_id: i32,
    dish_id: Option<i32>,
    parent: &ParentComment,
    blocked: &Vec<u128>,
) -> (r: Result<Option<i32>, CommentError>)
    ensures
        r == spec_reply_dish(menu_id, dish_id, *parent, blocked@),
{
    if parent.menu_id != menu_id {
        return Err(CommentError::InvalidOperation);
    }
    match dish_id {
        Some(d) => {
            match parent.dish_id {
                Some(p) => {
                    if d != p {
                        return Err(CommentError::InvalidOperation);
                    }
                },
                None => {
                    return Err(CommentError::InvalidOperation);
                },
            }
        },
        None => {},
    }
    match parent.author {
        Some(a) => {
            let mut i: usize = 0;
            while i < blocked.len()
                invariant
                    i <= blocked@.len(),
                    forall|j: int| 0 <= j < i ==> blocked@[j] != a,
                    parent.menu_id == menu_id,
                    !(dish_id is Some && dish_id != parent.dish_id),
                    parent.author == Some(a),
                decreases blocked@.len() - i,
            {
                if blocked[i] == a {
                    assert(blocked@[i as int] == a);
                    assert(blocked@.contains(a));
                    return Err(CommentError::InvalidOperation);
                }
                i = i + 1;
            }
        },
        None => {},
    }
    match dish_id {
        None => Ok(parent.dish_id),
        Some(_) => Ok(dish_id),
    }
}

/// One more step up a reply chain: the chain that already counts `depth` comments grows
/// by one; it is refused once it would reach `MAX_REPLY_DEPTH`.
pub fn next_reply_depth(depth: usize) -> (r: Result<usize, CommentError>)
    requires
        depth < MAX_REPLY_DEPTH,
    ensures
        r == (if depth + 1 >= MAX_REPLY_DEPTH {
            Err(CommentError::InvalidOperation)
        } else {
            Ok((depth + 1) as usize)
        }),
{
    if depth + 1 >= MAX_REPLY_DEPTH {
        Err(CommentError::InvalidOperation)
    } else {
        Ok(depth + 1)
    }
}

/// A review without text (none, or only whitespace) is a pure vote.
pub open spec fn is_pure_vote(comment: Option<Seq<char>>) -> bool {
    match comment {
        Some(c) => spec_trim(c).len() == 0,
        None => true,
    }
}

/// The rules of a review: a pure vote must take a side, and a written comment that is
/// not about the set meal (tabldot) must stay neutral. `Ok` says whether it is a pure vote.
pub open spec fn spec_review_rules(comment: Option<Seq<char>>, sentiment: Sentiment, is_tabldot: bool) -> Result<bool, CommentError> {
    if is_pure_vote(comment) {
        if sentiment == Sentiment::Neutral {
            Err(CommentError::InvalidOperation)
        } else {
            Ok(true)
        }
    } else if !is_tabldot && sentiment != Sentiment::Neutral {
        Err(CommentError::InvalidOperation)
    } else {
        Ok(false)
    }
}

/// Checks a review against the review rules.
pub fn review_rules(comment: &Option<String>, sentiment: Sentiment, is_tabldot: bool) -> (r: Result<bool, CommentError>)
    ensures
        r == spec_review_rules(crate::validation::opt_string_view(comment), sentiment, is_tabldot),
{
    let pure = match comment {
        Some(c) => trim(c.as_str()).len() == 0,
        None => true,
    };
    if pure {
        if sentiment == Sentiment::Neutral {
            Err(CommentError::InvalidOperation)
        } else {
            Ok(true)
        }
    } else if !is_tabldot && sentiment != Sentiment::Neutral {
        Err(CommentError::InvalidOperation)
    } else {
        Ok(false)
    }
}

/// The dish whose vote a new review sets: a set-meal review with a verdict on a dish.
pub fn dish_vote_target(is_tabldot: bool, sentiment: Sentiment, dish_id: Option<i32>) -> (r: Option<i32>)
    ensures
        r == (if is_tabldot && sentiment != Sentiment::Neutral { dish_id } else { None }),
{
    if is_tabldot && sentiment != Sentiment::Neutral {
        dish_id
    } else {
        None
    }
}

/// What the checks of a new comment read, in the order they read it: the author
/// (`None`: no such user; `Some(v)`: whether verified), the menu, the dish named (its
/// existence and whether the menu serves it; read only when a dish is named), the
/// comment answered (`None`: not a reply; `Some(None)`: no such comment), the ids on
/// either side of a block with the author, how many comments stand above the one
/// answered, and the review itself.
pub struct NewComment {
    pub user_verified: Option<bool>,
    pub menu_id: i32,
    pub menu_exists: bool,
    pub dish_id: Option<i32>,
    pub dish_exists: bool,
    pub dish_in_menu: bool,
    pub reply_to: Option<Option<ParentComment>>,
    pub blocked: Vec<u128>,
    pub ancestors: usize,
    pub comment: Option<String>,
    pub sentiment: Sentiment,
    pub is_tabldot: bool,
}

/// What an accepted comment is stored with: its dish (a reply's taken from the comment
/// answered), whether it is a pure vote, and the dish whose vote it sets, if any.
pub struct CommentPlan {
    pub dish_id: Option<i32>,
    pub pure_vote: bool,
    pub vote_dish: Option<i32>,
}

/// The checks of a new comment in the order the service makes them: author, menu,
/// dish, then for a reply the comment answered (found, same menu and dish, no block
/// between the authors, the chain not too deep), then the review rules. The first that
/// fails decides the error.
pub open spec fn spec_plan_comment(c: NewComment) -> Result<CommentPlan, CommentError> {
    if c.user_verified is None {
        Err(CommentError::UserNotFound)
    } else if c.user_verified == Some(false) {
        Err(CommentError::UnverifiedUser)
    } else if !c.menu_exists {
        Err(CommentError::MenuNotFound)
    } else if c.dish_id is Some && !c.dish_exists {
        Err(CommentError::DishNotFound)
    } else if c.dish_id is Some && !c.dish_in_menu {
        Err(CommentError::DishNotInMenu)
    } else {
        let dish: Result<Option<i32>, CommentError> = match c.reply_to {
            None => Ok(c.dish_id),
            Some(None) => Err(CommentError::ParentCommentNotFound),
            Some(Some(p)) => match spec_reply_dish(c.menu_id, c.dish_id, p, c.blocked@) {
                Err(e) => Err(e),
                Ok(d) => if c.ancestors + 1 >= MAX_REPLY_DEPTH {
                    Err(CommentError::InvalidOperation)
                } else {
                    Ok(d)
                },
            },
        };
        match dish {
            Err(e) => Err(e),
            Ok(d) => match spec_review_rules(crate::validation::opt_string_view(&c.comment), c.sentiment, c.is_tabldot) {
                Err(e) => Err(e),
                Ok(pure) => Ok(
                    CommentPlan {
                        dish_id: d,
                        pure_vote: pure,
                        vote_dish: if c.is_tabldot && c.sentiment != Sentiment::Neutral { d } else { None },
                    },
                ),
            },
        }
    }
}

/// Walks up a reply chain: the answered comment counts one, and each of the `ancestors`
/// comments above it one more; the walk is refused once the chain reaches
/// `MAX_REPLY_DEPTH`.
fn check_chain(ancestors: usize) -> (r: Result<(), CommentError>)
    ensures
        r == (if ancestors + 1 >= MAX_REPLY_DEPTH { Err(CommentError::InvalidOperation) } else { Ok::<(), CommentError>(()) }),
{
    let mut depth: usize = 1;
    let mut k: usize = 0;
    while k < ancestors
        invariant
            k <= ancestors,
            depth == k + 1,
            depth < MAX_REPLY_DEPTH,
        decreases ancestors - k,
    {
        match next_reply_depth(depth) {
            Err(e) => return Err(e),
            Ok(d) => depth = d,
        }
        k = k + 1;
    }
    Ok(())
}

/// Runs the checks of a new comment (see `spec_plan_comment`).
pub fn plan_comment(c: &NewComment) -> (r: Result<CommentPlan, CommentError>)
    ensures
        r == spec_plan_comment(*c),
{
    match check_author(c.user_verified) {
        Err(e) => return Err(e),
        Ok(()) => {},
    }
    match check_menu(c.menu_exists) {
        Err(e) => return Err(e),
        Ok(()) => {},
    }
    if c.dish_id.is_some() {
        match check_dish(c.dish_exists, c.dish_in_menu) {
            Err(e) => return Err(e),
            Ok(()) => {},
        }
    }
    let dish = match &c.reply_to {
        None => c.dish_id,
        Some(None) => return Err(CommentError::ParentCommentNotFound),
        Some(Some(p)) => {
            let d = match resolve_reply(c.menu_id, c.dish_id, p, &c.blocked) {
                Err(e) => return Err(e),
                Ok(d) => d,
            };
            match check_chain(c.ancestors) {
                Err(e) => return Err(e),
                Ok(()) => {},
            }
            d
        },
    };
    let pure = match review_rules(&c.comment, c.sentiment, c.is_tabldot) {
        Err(e) => return Err(e),
        Ok(p) => p,
    };
    Ok(CommentPlan { dish_id: dish, pure_vote: pure, vote_dish: dish_vote_target(c.is_tabldot, c.sentiment, dish) })
}

/// A notification preview: texts longer than 80 characters are cut to their first 77
/// characters followed by "...".
pub open spec fn spec_preview(text: Seq<char>) -> Seq<char> {
    if text.len() > 80 {
        text.take(77) + "..."@
    } else {
        text
    }
}

/// The notification sent to the author of the comment a reply answers: its title, its
/// preview of the reply ("Bir yanıt bıraktı" for a pure vote) and the link to the thread.
pub open spec fn spec_reply_notification(
    author_username: Seq<char>,
    content: Option<Seq<char>>,
    menu_id: i32,
    parent_id: Seq<char>,
) -> (Seq<char>, Seq<char>, Seq<char>) {
    let text = match content {
        Some(c) => c,
        None => "Bir yanıt bıraktı"@,
    };
    (
        "@"@ + author_username + " yorumuna yanıt verdi"@,
        spec_preview(text),
        "/yorumlar/"@ + spec_int_decimal(menu_id as int) + "?thread="@ + parent_id,
    )
}

/// Builds the reply notification: title, preview and link.
pub fn reply_notification(
    author_username: &str,
    content: Option<&str>,
    menu_id: i32,
    parent_id: &str,
) -> (r: (String, String, String))
    ensures
        (r.0@, r.1@, r.2@) == spec_reply_notification(
            author_username@,
            match content {
                Some(c) => Some(c@),
                None => None,
            },
            menu_id,
            parent_id@,
        ),
{
    let mut title: Vec<char> = Vec::new();
    extend_str(&mut title, "@");
    extend_str(&mut title, author_username);
    extend_str(&mut title, " yorumuna yanıt verdi");
    let text = match content {
        Some(c) => char_vec(c),
        None => char_vec("Bir yanıt bıraktı"),
    };
    let body = if text.len() > 80 {
        let mut b = crate::text::slice_chars(text.as_slice(), 0, 77);
        extend_str(&mut b, "...");
        assert(text@.subrange(0, 77) =~= text@.take(77));
        b
    } else {
        text
    };
    let mut href: Vec<char> = Vec::new();
    extend_str(&mut href, "/yorumlar/");
    let mv = decimal_i128(menu_id as i128);
    extend_chars(&mut href, mv.as_slice());
    extend_str(&mut href, "?thread=");
    extend_str(&mut href, parent_id);
    (string_from_chars(title.as_slice()), string_from_chars(body.as_slice()), string_from_chars(href.as_slice()))
}

/// A reaction stored for a comment.
pub struct StoredReaction {
    pub comment_id: u128,
    pub user_id: u128,
    pub reaction: ReactionTypeDto,
}

/// The up and down reactions of a comment among `rs`, and the current user's own
/// reaction (the last one of theirs).
pub open spec fn spec_tally(rs: Seq<StoredReaction>, comment: u128, me: Option<u128>) -> (int, int, Option<ReactionTypeDto>)
    decreases rs.len(),
{
    if rs.len() == 0 {
        (0, 0, None)
    } else {
        let (up, down, mine) = spec_tally(rs.drop_last(), comment, me);
        let r = rs.last();
        if r.comment_id != comment {
            (up, down, mine)
        } else {
            let is_mine = me == Some(r.user_id);
            match r.reaction {
                ReactionTypeDto::Up => (up + 1, down, if is_mine { Some(ReactionTypeDto::Up) } else { mine }),
                ReactionTypeDto::Down => (up, down + 1, if is_mine { Some(ReactionTypeDto::Down) } else { mine }),
            }
        }
    }
}

proof fn lemma_tally_bounded(rs: Seq<StoredReaction>, comment: u128, me: Option<u128>)
    ensures
        0 <= spec_tally(rs, comment, me).0 <= rs.len(),
        0 <= spec_tally(rs, comment, me).1 <= rs.len(),
    decreases rs.len(),
{
    if rs.len() > 0 {
        lemma_tally_bounded(rs.drop_last(), comment, me);
    }
}

/// Tallies the reactions of one comment.
pub fn tally_reactions(rs: &Vec<StoredReaction>, comment: u128, me: Option<u128>) -> (r: ReactionSummaryDto)
    requires
        rs@.len() <= i32::MAX,
    ensures
        (r.up as int, r.down as int, r.my_vote) == spec_tally(rs@, comment, me),
{
    let mut up: i32 = 0;
    let mut down: i32 = 0;
    let mut mine: Option<ReactionTypeDto> = None;
    let mut i: usize = 0;
    assert(rs@.take(0) =~= Seq::<StoredReaction>::empty());
    while i < rs.len()
        invariant
            i <= rs@.len() <= i32::MAX,
            (up as int, down as int, mine) == spec_tally(rs@.take(i as int), comment, me),
        decreases rs@.len() - i,
    {
        proof {
            assert(rs@.take(i + 1).drop_last() =~= rs@.take(i as int));
            assert(rs@.take(i + 1).last() == rs@[i as int]);
            lemma_tally_bounded(rs@.take(i as int), comment, me);
        }
        let r = &rs[i];
        if r.comment_id == comment {
            let is_mine = match me {
                Some(m) => m == r.user_id,
                None => false,
            };
            match r.reaction {
                ReactionTypeDto::Up => {
                    up = up + 1;
                    if is_mine {
                        mine = Some(ReactionTypeDto::Up);
                    }
                },
                ReactionTypeDto::Down => {
                    down = down + 1;
                    if is_mine {
                        mine = Some(ReactionTypeDto::Down);
                    }
                },
            }
        }
        i = i + 1;
    }
    assert(rs@.take(rs@.len() as int) =~= rs@);
    ReactionSummaryDto { up, down, my_vote: mine }
}

/// The placeholder name of an author whose account is gone.
pub open spec fn unknown_author() -> Seq<char> {
    "Bilinmeyen Kullanıcı"@
}

/// How a comment is shown to a reader: deleted comments (and comments of removed
/// accounts) and comments of blocked users are masked.
pub struct MaskedComment {
    pub content: Option<String>,
    pub author_name: String,
    pub avatar_url: Option<String>,
    pub is_deleted: bool,
    pub show_author_id: bool,
}

/// The masking rules: a comment is deleted when it was deleted or its author is gone;
/// a deleted comment reads "[Bu içerik silinmiş]" by "Bilinmeyen Kullanıcı", a comment of
/// a blocked author reads "[Bu içerik görüntülenemiyor]" by "Gizli Kullanıcı"; neither
/// shows an avatar, and a deleted comment hides its author's id.
pub open spec fn spec_mask(
    content: Option<Seq<char>>,
    deleted: bool,
    author: Option<(Seq<char>, Option<Seq<char>>)>,
    author_blocked: bool,
) -> (Option<Seq<char>>, Seq<char>, Option<Seq<char>>, bool, bool) {
    let name = match author {
        Some((n, _)) => n,
        None => unknown_author(),
    };
    let avatar = match author {
        Some((_, a)) => a,
        None => None,
    };
    let is_deleted = deleted || name == unknown_author();
    if is_deleted {
        (Some("[Bu içerik silinmiş]"@), unknown_author(), None, true, false)
    } else if author_blocked {
        (Some("[Bu içerik görüntülenemiyor]"@), "Gizli Kullanıcı"@, None, false, true)
    } else {
        (content, name, avatar, false, true)
    }
}

/// Masks a comment for a reader. `author` is the author's username and avatar, `None`
/// when the account is gone; `author_blocked` whether the reader and the author blocked
/// one another.
pub fn mask_comment(
    content: Option<String>,
    deleted: bool,
    author: Option<(String, Option<String>)>,
    author_blocked: bool,
) -> (r: MaskedComment)
    ensures
        (crate::validation::opt_string_view(&r.content), r.author_name@, crate::validation::opt_string_view(&r.avatar_url), r.is_deleted, r.show_author_id)
            == spec_mask(
            crate::validation::opt_string_view(&content),
            deleted,
            match author {
                Some((n, a)) => Some((n@, crate::validation::opt_string_view(&a))),
                None => None,
            },
            author_blocked,
        ),
{
    let (name, avatar) = match author {
        Some((n, a)) => (n, a),
        None => (String::from_str("Bilinmeyen Kullanıcı"), None),
    };
    let is_deleted = deleted || crate::assistant::str_is(name.as_str(), "Bilinmeyen Kullanıcı");
    if is_deleted {
        MaskedComment {
            content: Some(String::from_str("[Bu içerik silinmiş]")),
            author_name: String::from_str("Bilinmeyen Kullanıcı"),
            avatar_url: None,
            is_deleted: true,
            show_author_id: false,
        }
    } else if author_blocked {
        MaskedComment {
            content: Some(String::from_str("[Bu içerik görüntülenemiyor]")),
            author_name: String::from_str("Gizli Kullanıcı"),
            avatar_url: None,
            is_deleted: false,
            show_author_id: true,
        }
    } else {
        MaskedComment { content, author_name: name, avatar_url: avatar, is_deleted: false, show_author_id: true }
    }
}

/// Who may delete a comment, and how the deletion is recorded: an administrator may
/// delete any comment (recorded `admin`), a user only his own (recorded `user`).
/// `comment_author` is `None` for an unknown comment, `Some(None)` for one whose author
/// account is gone.
pub fn comment_deletion(comment_author: Option<Option<u128>>, user: u128, is_admin: bool) -> (r: Result<
    &'static str,
    crate::service_errors::ReactionError,
>)
    ensures
        comment_author is None ==> r matches Err(crate::service_errors::ReactionError::CommentNotFound),
        comment_author is Some && is_admin ==> (r matches Ok(k) && k@ == "admin"@),
        comment_author is Some && !is_admin && comment_author->Some_0 == Some(user) ==> (r matches Ok(k) && k@ == "user"@),
        comment_author is Some && !is_admin && comment_author->Some_0 != Some(user) ==> r matches Err(
            crate::service_errors::ReactionError::Unauthorized,
        ),
{
    match comment_author {
        None => Err(crate::service_errors::ReactionError::CommentNotFound),
        Some(author) => {
            if is_admin {
                Ok("admin")
            } else {
                match author {
                    Some(a) => if a == user {
                        Ok("user")
                    } else {
                        Err(crate::service_errors::ReactionError::Unauthorized)
                    },
                    None => Err(crate::service_errors::ReactionError::Unauthorized),
                }
            }
        },
    }
}

/// The score a comment is ranked by: its up votes less its down votes.
pub open spec fn score_of(up: i32, down: i32) -> int {
    up - down
}

/// The comments' positions with their scores.
pub open spec fn scored(reactions: Seq<(i32, i32)>) -> Seq<(int, int)> {
    Seq::new(reactions.len(), |i: int| (i, score_of(reactions[i].0, reactions[i].1)))
}

/// Higher scores first.
pub open spec fn by_score_desc() -> spec_fn((int, int), (int, int)) -> bool {
    |a: (int, int), b: (int, int)| a.1 >= b.1
}

/// The ranking of the top comments: positions of the candidates (given newest first) by
/// decreasing score, candidates with equal scores keeping their order, cut to `limit`.
pub open spec fn spec_top_order(reactions: Seq<(i32, i32)>, limit: nat) -> Seq<int> {
    let ranked = crate::ordering::sort_by(scored(reactions), by_score_desc());
    ranked.take(if limit < ranked.len() { limit as int } else { ranked.len() as int }).map_values(|p: (int, int)| p.0)
}

pub open spec fn pair_views(v: Seq<(usize, i64)>) -> Seq<(int, int)> {
    v.map_values(|p: (usize, i64)| (p.0 as int, p.1 as int))
}

/// Stable insertion sort by decreasing score.
fn sort_by_score(v: Vec<(usize, i64)>) -> (r: Vec<(usize, i64)>)
    ensures
        pair_views(r@) == crate::ordering::sort_by(pair_views(v@), by_score_desc()),
{
    let ghost orig = pair_views(v@);
    let mut src = v;
    let mut out: Vec<(usize, i64)> = Vec::new();
    let ghost mut k: int = 0;
    assert(orig.take(0) =~= Seq::<(int, int)>::empty());
    while src.len() > 0
        invariant
            0 <= k <= orig.len(),
            pair_views(src@) == orig.skip(k),
            pair_views(out@) == crate::ordering::sort_by(orig.take(k), by_score_desc()),
        decreases src@.len(),
    {
        let ghost before = src@;
        proof {
            assert(pair_views(before).len() == before.len());
            assert(orig.skip(k)[0] == orig[k]);
            assert(pair_views(before)[0] == orig[k]);
        }
        let x = src.remove(0);
        proof {
            assert(x == before[0]);
            assert forall|i: int| 0 <= i < src@.len() implies #[trigger] pair_views(src@)[i] == orig.skip(k + 1)[i] by {
                assert(src@[i] == before[i + 1]);
                assert(pair_views(before)[i + 1] == orig.skip(k)[i + 1]);
            }
            assert(pair_views(src@) =~= orig.skip(k + 1));
        }
        let ghost sv = pair_views(out@);
        let ghost xv = (x.0 as int, x.1 as int);
        let mut p = out.len();
        assert(sv.len() == out@.len());
        assert(sv.take(p as int) =~= sv);
        while p > 0 && !(out[p - 1].1 >= x.1)
            invariant
                p <= out@.len(),
                sv == pair_views(out@),
                xv == (x.0 as int, x.1 as int),
                crate::ordering::insert_position(sv, xv, by_score_desc()) == crate::ordering::insert_position(
                    sv.take(p as int),
                    xv,
                    by_score_desc(),
                ),
            decreases p,
        {
            assert(sv.take(p as int).drop_last() =~= sv.take(p - 1));
            assert(sv.take(p as int).last() == sv[p - 1]);
            p = p - 1;
        }
        proof {
            assert(sv.take(sv.len() as int) =~= sv);
            if p > 0 {
                assert(sv.take(p as int).last() == sv[p - 1]);
            }
            crate::ordering::lemma_insert_by(sv, xv, by_score_desc());
            assert(crate::ordering::insert_position(sv, xv, by_score_desc()) == p);
            assert(orig.take(k + 1).drop_last() =~= orig.take(k));
            assert(orig.take(k + 1).last() == xv);
        }
        out.insert(p, x);
        proof {
            assert(pair_views(out@) =~= sv.take(p as int).push(xv) + sv.skip(p as int));
            k = k + 1;
        }
    }
    assert(orig.take(k) =~= orig);
    out
}

/// Ranks the candidates for the top comments: given their reactions (up, down), newest
/// first, the positions of at most `limit` of them by decreasing score; among equal
/// scores the newer comes first.
pub fn top_comment_order(reactions: &Vec<(i32, i32)>, limit: u64) -> (r: Vec<usize>)
    ensures
        r@.map_values(|i: usize| i as int) == spec_top_order(reactions@, limit as nat),
{
    let mut v: Vec<(usize, i64)> = Vec::new();
    let mut i: usize = 0;
    while i < reactions.len()
        invariant
            i <= reactions@.len(),
            pair_views(v@) == scored(reactions@).take(i as int),
        decreases reactions@.len() - i,
    {
        let (up, down) = reactions[i];
        let ghost before = pair_views(v@);
        v.push((i, up as i64 - down as i64));
        proof {
            assert(pair_views(v@) =~= before.push((i as int, score_of(up, down))));
            assert(scored(reactions@).take(i + 1) =~= scored(reactions@).take(i as int).push(scored(reactions@)[i as int]));
        }
        i = i + 1;
    }
    proof {
        assert(scored(reactions@).take(i as int) =~= scored(reactions@));
    }
    let sorted = sort_by_score(v);
    proof {
        crate::ordering::lemma_sort_by_permutes(scored(reactions@), by_score_desc());
        assert(pair_views(sorted@).len() == sorted@.len());
    }
    let n = if (limit as u128) < (sorted.len() as u128) { limit as usize } else { sorted.len() };
    let mut out: Vec<usize> = Vec::new();
    let mut j: usize = 0;
    while j < n
        invariant
            j <= n <= sorted@.len(),
            out@.map_values(|i: usize| i as int) == pair_views(sorted@).take(j as int).map_values(|p: (int, int)| p.0),
        decreases n - j,
    {
        let ghost before = out@.map_values(|i: usize| i as int);
        out.push(sorted[j].0);
        proof {
            assert(out@.map_values(|i: usize| i as int) =~= before.push(sorted@[j as int].0 as int));
            assert(pair_views(sorted@).take(j + 1) =~= pair_views(sorted@).take(j as int).push(pair_views(sorted@)[j as int]));
        }
        j = j + 1;
    }
    out
}

/// Comment `a` is listed before comment `b` rightly: both are candidates, they differ,
/// and `a` scores at least as high.
pub open spec fn outranks(reactions: Seq<(i32, i32)>, a: int, b: int) -> bool {
    &&& 0 <= a < reactions.len()
    &&& 0 <= b < reactions.len()
    &&& a != b
    &&& score_of(reactions[a].0, reactions[a].1) >= score_of(reactions[b].0, reactions[b].1)
}

/// The top comments come in order of score: each scores at least as high as every one
/// listed after it, and none is listed twice.
pub proof fn lemma_top_order_ranked(reactions: Seq<(i32, i32)>, limit: nat)
    ensures
        forall|i: int, j: int|
            0 <= i < j < spec_top_order(reactions, limit).len() ==> outranks(
                reactions,
                #[trigger] spec_top_order(reactions, limit)[i],
                #[trigger] spec_top_order(reactions, limit)[j],
            ),
{
    broadcast use vstd::seq_lib::group_to_multiset_ensures;
    let le = by_score_desc();
    let sc = scored(reactions);
    assert forall|a: (int, int), b: (int, int)| #[trigger] le(a, b) || le(b, a) by {}
    assert forall|a: (int, int), b: (int, int), c: (int, int)| #[trigger] le(a, b) && #[trigger] le(b, c) implies le(a, c) by {}
    crate::ordering::lemma_sort_by_sorted(sc, le);
    crate::ordering::lemma_sort_by_permutes(sc, le);
    let ranked = crate::ordering::sort_by(sc, le);
    let top = spec_top_order(reactions, limit);
    let n = if limit < ranked.len() { limit as int } else { ranked.len() as int };
    assert forall|k: int| 0 <= k < ranked.len() implies 0 <= (#[trigger] ranked[k]).0 < reactions.len()
        && ranked[k].1 == score_of(reactions[ranked[k].0].0, reactions[ranked[k].0].1) by {
        assert(ranked.contains(ranked[k]));
        assert(ranked.to_multiset().count(ranked[k]) > 0);
        assert(sc.contains(ranked[k]));
        let m = choose|m: int| 0 <= m < sc.len() && sc[m] == ranked[k];
        assert(sc[m] == (m, score_of(reactions[m].0, reactions[m].1)));
    }
    assert forall|i: int, j: int| 0 <= i < j < top.len() implies outranks(reactions, #[trigger] top[i], #[trigger] top[j]) by {
        assert(top[i] == ranked[i].0);
        assert(top[j] == ranked[j].0);
        assert(le(ranked[i], ranked[j]));
        if ranked[i].0 == ranked[j].0 {
            assert(ranked[i] == ranked[j]);
            let x = ranked[i];
            assert(ranked.to_multiset().count(x) >= 2) by {
                let without = ranked.remove(i);
                assert(without[j - 1] == x);
                assert(without.contains(x));
                assert(ranked.to_multiset() =~= without.to_multiset().insert(x)) by {
                    vstd::seq_lib::lemma_seq_union_to_multiset_commutative(ranked.take(i), ranked.skip(i + 1));
                    assert(ranked =~= ranked.take(i) + seq![x] + ranked.skip(i + 1));
                    assert(without =~= ranked.take(i) + ranked.skip(i + 1));
                    vstd::seq_lib::lemma_multiset_commutative(ranked.take(i) + seq![x], ranked.skip(i + 1));
                    vstd::seq_lib::lemma_multiset_commutative(ranked.take(i), seq![x]);
                    vstd::seq_lib::lemma_multiset_commutative(ranked.take(i), ranked.skip(i + 1));
                }
            }
            assert(sc.to_multiset().count(x) <= 1) by {
                lemma_scored_unique(reactions, x);
            }
        }
    }
}

/// Each position occurs once in the scored list.
proof fn lemma_scored_unique(reactions: Seq<(i32, i32)>, x: (int, int))
    ensures
        scored(reactions).to_multiset().count(x) <= 1,
    decreases reactions.len(),
{
    broadcast use vstd::seq_lib::group_to_multiset_ensures;
    let sc = scored(reactions);
    if reactions.len() > 0 {
        let dl = reactions.drop_last();
        lemma_scored_unique(dl, x);
        assert(sc =~= scored(dl).push(sc.last()));
        if x == sc.last() {
            assert(!scored(dl).contains(x)) by {
                if scored(dl).contains(x) {
                    let m = choose|m: int| 0 <= m < scored(dl).len() && scored(dl)[m] == x;
                    assert(scored(dl)[m].0 == m);
                }
            }
        }
    }
}

} // verus!
