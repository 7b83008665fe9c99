//! What one click of a user changes: a reaction to a comment (a toggle), and a vote on
//! a whole menu, which the menu's dishes inherit unless the user voted on them himself.

use vstd::prelude::*;
use crate::dto::comment::{Sentiment, ReactionTypeDto, ReactionSummaryDto};
use crate::comment::{StoredReaction, spec_tally, tally_reactions};
use crate::service_errors::{ReactionError, VoteError};
use crate::error::{AppError, ErrorKind};
use crate::text::{to_lowercase, spec_to_lowercase};
use crate::assistant::str_is;

verus! {

/// The user's reaction after he clicks `target`: the same reaction again takes it back,
/// any other click makes `target` his reaction.
pub open spec fn spec_toggle(existing: Option<ReactionTypeDto>, target: ReactionTypeDto) -> Option<ReactionTypeDto> {
    if existing == Some(target) { None } else { Some(target) }
}

/// Clicking the same reaction twice leaves the user where he was, unless he had the other
/// reaction before (the first click replaces it, the second takes it back).
pub proof fn lemma_toggle_twice(existing: Option<ReactionTypeDto>, target: ReactionTypeDto)
    requires
        existing is None || existing == Some(target),
    ensures
        spec_toggle(spec_toggle(existing, target), target) == existing,
{
}

/// No user holds two reactions on one comment.
pub open spec fn one_per_user(rs: Seq<StoredReaction>) -> bool {
    forall|i: int, j: int|
        #![trigger rs[i], rs[j]]
        0 <= i < j < rs.len() ==> !(rs[i].comment_id == rs[j].comment_id && rs[i].user_id == rs[j].user_id)
}

/// Whether a stored reaction is the one of `user` on `comment`.
pub open spec fn is_reaction_of(r: StoredReaction, comment: u128, user: u128) -> bool {
    r.comment_id == comment && r.user_id == user
}

/// How the tallies of two consecutive runs of reactions add up.
pub open spec fn combine(
    a: (int, int, Option<ReactionTypeDto>),
    b: (int, int, Option<ReactionTypeDto>),
) -> (int, int, Option<ReactionTypeDto>) {
    (a.0 + b.0, a.1 + b.1, if b.2 is Some { b.2 } else { a.2 })
}

proof fn lemma_tally_concat(a: Seq<StoredReaction>, b: Seq<StoredReaction>, comment: u128, me: Option<u128>)
    ensures
        spec_tally(a + b, comment, me) == combine(spec_tally(a, comment, me), spec_tally(b, comment, me)),
    decreases b.len(),
{
    if b.len() == 0 {
        assert(a + b =~= a);
    } else {
        assert((a + b).drop_last() =~= a + b.drop_last());
        assert((a + b).last() == b.last());
        lemma_tally_concat(a, b.drop_last(), comment, me);
    }
}

proof fn lemma_tally_not_mine(s: Seq<StoredReaction>, comment: u128, user: u128)
    requires
        forall|k: int| 0 <= k < s.len() ==> !is_reaction_of(#[trigger] s[k], comment, user),
    ensures
        spec_tally(s, comment, Some(user)).2 is None,
    decreases s.len(),
{
    if s.len() > 0 {
        assert(!is_reaction_of(s[s.len() - 1], comment, user));
        lemma_tally_not_mine(s.drop_last(), comment, user);
    }
}

proof fn lemma_tally_single(x: StoredReaction, comment: u128, me: Option<u128>)
    ensures
        spec_tally(seq![x], comment, me) == (if x.comment_id != comment {
            (0int, 0int, None::<ReactionTypeDto>)
        } else {
            (
                if x.reaction == ReactionTypeDto::Up { 1int } else { 0int },
                if x.reaction == ReactionTypeDto::Down { 1int } else { 0int },
                if me == Some(x.user_id) { Some(x.reaction) } else { None },
            )
        }),
{
    reveal_with_fuel(spec_tally, 2);
    assert(seq![x].drop_last() =~= Seq::<StoredReaction>::empty());
}

/// The first place of the reaction of `user` on `comment`, if there is one.
pub open spec fn reaction_index(rs: Seq<StoredReaction>, comment: u128, user: u128) -> Option<int>
    decreases rs.len(),
{
    if rs.len() == 0 {
        None
    } else {
        match reaction_index(rs.drop_last(), comment, user) {
            Some(i) => Some(i),
            None => if is_reaction_of(rs.last(), comment, user) { Some(rs.len() - 1) } else { None },
        }
    }
}

proof fn lemma_reaction_index(rs: Seq<StoredReaction>, comment: u128, user: u128)
    ensures
        match reaction_index(rs, comment, user) {
            Some(i) => 0 <= i < rs.len() && is_reaction_of(rs[i], comment, user)
                && forall|k: int| 0 <= k < i ==> !is_reaction_of(#[trigger] rs[k], comment, user),
            None => forall|k: int| 0 <= k < rs.len() ==> !is_reaction_of(#[trigger] rs[k], comment, user),
        },
    decreases rs.len(),
{
    if rs.len() > 0 {
        lemma_reaction_index(rs.drop_last(), comment, user);
        assert(forall|k: int| 0 <= k < rs.len() - 1 ==> rs.drop_last()[k] == rs[k]);
    }
}

/// The reactions after `user` clicks `target` on `comment`: his reaction is taken back,
/// replaced in its place, or added at the end.
pub open spec fn spec_apply_reaction(rs: Seq<StoredReaction>, comment: u128, user: u128, target: ReactionTypeDto) -> Seq<StoredReaction> {
    match reaction_index(rs, comment, user) {
        Some(i) => if rs[i].reaction == target {
            rs.remove(i)
        } else {
            rs.update(i, StoredReaction { comment_id: comment, user_id: user, reaction: target })
        },
        None => rs.push(StoredReaction { comment_id: comment, user_id: user, reaction: target }),
    }
}

/// Records a click of `user` on reaction `target` of `comment`.
pub fn apply_reaction(rs: &mut Vec<StoredReaction>, comment: u128, user: u128, target: ReactionTypeDto)
    ensures
        final(rs)@ == spec_apply_reaction(old(rs)@, comment, user, target),
{
    let ghost old_rs = rs@;
    let mut i: usize = 0;
    while i < rs.len()
        invariant
            i <= rs@.len(),
            rs@ == old_rs,
            old_rs == old(rs)@,
            forall|k: int| 0 <= k < i ==> !is_reaction_of(#[trigger] rs@[k], comment, user),
        decreases rs@.len() - i,
    {
        if rs[i].comment_id == comment && rs[i].user_id == user {
            proof {
                lemma_reaction_index(old_rs, comment, user);
                let j = reaction_index(old_rs, comment, user);
                if j is None {
                    assert(!is_reaction_of(old_rs[i as int], comment, user));
                } else {
                    let jj = j->0;
                    if jj < i {
                        assert(!is_reaction_of(old_rs[jj], comment, user));
                    } else if jj > i {
                        assert(!is_reaction_of(old_rs[i as int], comment, user));
                    }
                }
                assert(reaction_index(old_rs, comment, user) == Some(i as int));
            }
            if rs[i].reaction == target {
                rs.remove(i);
                assert(rs@ == old_rs.remove(i as int));
            } else {
                rs.set(i, StoredReaction { comment_id: comment, user_id: user, reaction: target });
                assert(rs@ == old_rs.update(i as int, StoredReaction { comment_id: comment, user_id: user, reaction: target }));
            }
            assert(rs@ == spec_apply_reaction(old_rs, comment, user, target));
            return;
        }
        i = i + 1;
    }
    proof {
        lemma_reaction_index(old_rs, comment, user);
        let j = reaction_index(old_rs, comment, user);
        if j is Some {
            assert(!is_reaction_of(old_rs[j->0], comment, user));
        }
    }
    rs.push(StoredReaction { comment_id: comment, user_id: user, reaction: target });
}

/// The reactions of one comment: up, down, and the reaction of `user`.
pub open spec fn summary_of(rs: Seq<StoredReaction>, comment: u128, user: u128) -> (int, int, Option<ReactionTypeDto>) {
    spec_tally(rs, comment, Some(user))
}

/// One reaction of `kind` counts for that kind.
pub open spec fn count_of(kind: ReactionTypeDto, of: ReactionTypeDto) -> int {
    if kind == of { 1 } else { 0 }
}

/// A click keeps one reaction per user and comment; afterwards the user's reaction is
/// the toggle of what it was, and the counts of the comment move by that change alone.
#[verifier::spinoff_prover]
#[verifier::rlimit(40)]
pub proof fn lemma_apply_reaction(rs: Seq<StoredReaction>, comment: u128, user: u128, target: ReactionTypeDto)
    requires
        one_per_user(rs),
    ensures
        one_per_user(spec_apply_reaction(rs, comment, user, target)),
        ({
            let before = summary_of(rs, comment, user);
            let after = summary_of(spec_apply_reaction(rs, comment, user, target), comment, user);
            let gained = spec_toggle(before.2, target);
            &&& after.2 == gained
            &&& after.0 == before.0
                - (if before.2 is Some { count_of(before.2->0, ReactionTypeDto::Up) } else { 0 })
                + (if gained is Some { count_of(gained->0, ReactionTypeDto::Up) } else { 0 })
            &&& after.1 == before.1
                - (if before.2 is Some { count_of(before.2->0, ReactionTypeDto::Down) } else { 0 })
                + (if gained is Some { count_of(gained->0, ReactionTypeDto::Down) } else { 0 })
        }),
{
    lemma_reaction_index(rs, comment, user);
    let y = StoredReaction { comment_id: comment, user_id: user, reaction: target };
    let me = Some(user);
    match reaction_index(rs, comment, user) {
        Some(i) => {
            let a = rs.subrange(0, i);
            let b = rs.subrange(i + 1, rs.len() as int);
            let x = rs[i];
            assert(rs =~= a + seq![x] + b);
            assert forall|k: int| 0 <= k < a.len() implies !is_reaction_of(#[trigger] a[k], comment, user) by {
                assert(a[k] == rs[k]);
            }
            assert forall|k: int| 0 <= k < b.len() implies !is_reaction_of(#[trigger] b[k], comment, user) by {
                assert(b[k] == rs[i + 1 + k]);
                assert(!(rs[i].comment_id == rs[i + 1 + k].comment_id && rs[i].user_id == rs[i + 1 + k].user_id));
            }
            lemma_tally_not_mine(a, comment, user);
            lemma_tally_not_mine(b, comment, user);
            lemma_tally_concat(a + seq![x], b, comment, me);
            lemma_tally_concat(a, seq![x], comment, me);
            lemma_tally_single(x, comment, me);
            if x.reaction == target {
                let r = rs.remove(i);
                assert(r =~= a + b);
                lemma_tally_concat(a, b, comment, me);
                assert forall|p: int, q: int| 0 <= p < q < r.len() implies
                    !(r[p].comment_id == r[q].comment_id && r[p].user_id == r[q].user_id) by {
                    let pp = if p < i { p } else { p + 1 };
                    let qq = if q < i { q } else { q + 1 };
                    assert(r[p] == rs[pp] && r[q] == rs[qq]);
                    assert(rs[pp] == rs[pp] && rs[qq] == rs[qq]);
                }
            } else {
                let r = rs.update(i, y);
                assert(r =~= a + seq![y] + b);
                lemma_tally_concat(a + seq![y], b, comment, me);
                lemma_tally_concat(a, seq![y], comment, me);
                lemma_tally_single(y, comment, me);
                assert forall|p: int, q: int| 0 <= p < q < r.len() implies
                    !(r[p].comment_id == r[q].comment_id && r[p].user_id == r[q].user_id) by {
                    assert(rs[p] == rs[p] && rs[q] == rs[q]);
                }
                match x.reaction {
                    ReactionTypeDto::Up => {},
                    ReactionTypeDto::Down => {},
                }
            }
        },
        None => {
            let r = rs.push(y);
            lemma_tally_not_mine(rs, comment, user);
            lemma_tally_concat(rs, seq![y], comment, me);
            assert(rs + seq![y] =~= r);
            lemma_tally_single(y, comment, me);
            assert forall|p: int, q: int| 0 <= p < q < r.len() implies
                !(r[p].comment_id == r[q].comment_id && r[p].user_id == r[q].user_id) by {
                if q == rs.len() {
                    assert(!is_reaction_of(rs[p], comment, user));
                } else {
                    assert(rs[p] == rs[p] && rs[q] == rs[q]);
                }
            }
        },
    }
}

/// Whether `x` is among `v`.
pub fn contains_id(v: &Vec<u128>, x: u128) -> (r: bool)
    ensures
        r == v@.contains(x),
{
    let mut i: usize = 0;
    while i < v.len()
        invariant
            i <= v@.len(),
            forall|k: int| 0 <= k < i ==> v@[k] != x,
        decreases v@.len() - i,
    {
        if v[i] == x {
            return true;
        }
        i = i + 1;
    }
    false
}

/// A click on a reaction of a comment. Refused for an unknown user (`None`), an
/// unverified one, an unknown comment (`None`), and a comment whose author is among the
/// users blocked by or blocking the clicker; otherwise recorded, and the comment's new
/// counts and the clicker's own reaction are returned.
pub fn toggle_reaction(
    rs: &mut Vec<StoredReaction>,
    user: u128,
    user_verified: Option<bool>,
    comment: u128,
    comment_author: Option<Option<u128>>,
    blocked: &Vec<u128>,
    target: ReactionTypeDto,
) -> (r: Result<ReactionSummaryDto, ReactionError>)
    requires
        old(rs)@.len() < i32::MAX,
    ensures
        user_verified is None ==> (r matches Err(ReactionError::Unauthorized)) && final(rs)@ == old(rs)@,
        user_verified == Some(false) ==> (r matches Err(ReactionError::UnverifiedUser)) && final(rs)@ == old(rs)@,
        user_verified == Some(true) && comment_author is None ==> (r matches Err(ReactionError::CommentNotFound)) && final(rs)@ == old(rs)@,
        user_verified == Some(true) && (comment_author matches Some(Some(a)) && blocked@.contains(a))
            ==> (r matches Err(ReactionError::InvalidOperation)) && final(rs)@ == old(rs)@,
        user_verified == Some(true) && comment_author is Some && !(comment_author matches Some(Some(a)) && blocked@.contains(a))
            ==> final(rs)@ == spec_apply_reaction(old(rs)@, comment, user, target) && (r matches Ok(s)
                && (s.up as int, s.down as int, s.my_vote) == summary_of(final(rs)@, comment, user)),
{
    match user_verified {
        None => return Err(ReactionError::Unauthorized),
        Some(false) => return Err(ReactionError::UnverifiedUser),
        Some(true) => {},
    }
    let author = match comment_author {
        None => return Err(ReactionError::CommentNotFound),
        Some(a) => a,
    };
    if let Some(a) = author {
        if contains_id(blocked, a) {
            return Err(ReactionError::InvalidOperation);
        }
    }
    apply_reaction(rs, comment, user, target);
    proof {
        let o = old(rs)@;
        assert(spec_apply_reaction(o, comment, user, target).len() <= o.len() + 1) by {
            lemma_reaction_index(o, comment, user);
        }
    }
    Ok(tally_reactions(rs, comment, Some(user)))
}

/// The sentiment a menu vote names, in any case (`positive`, `negative`, `neutral` or
/// nothing, which is neutral).
pub open spec fn spec_vote_sentiment(text: Seq<char>) -> Option<Sentiment> {
    let t = spec_to_lowercase(text);
    if t == "positive"@ {
        Some(Sentiment::Positive)
    } else if t == "negative"@ {
        Some(Sentiment::Negative)
    } else if t == "neutral"@ || t == ""@ {
        Some(Sentiment::Neutral)
    } else {
        None
    }
}

/// The message for a menu vote of another kind.
pub open spec fn bad_vote_message() -> Seq<char> {
    "Geçersiz oy türü. Yalnızca 'positive', 'negative' veya 'neutral' kabul edilir."@
}

/// Reads the sentiment of a menu vote; another word is a bad request.
pub fn vote_sentiment(text: &str) -> (r: Result<Sentiment, AppError>)
    ensures
        match r {
            Ok(s) => spec_vote_sentiment(text@) == Some(s),
            Err(e) => spec_vote_sentiment(text@) is None && e@ == (ErrorKind::BadRequest, bad_vote_message()),
        },
{
    let t = to_lowercase(text);
    if str_is(t.as_str(), "positive") {
        Ok(Sentiment::Positive)
    } else if str_is(t.as_str(), "negative") {
        Ok(Sentiment::Negative)
    } else if str_is(t.as_str(), "neutral") || str_is(t.as_str(), "") {
        Ok(Sentiment::Neutral)
    } else {
        Err(AppError::with_text(
            ErrorKind::BadRequest,
            "Geçersiz oy türü. Yalnızca 'positive', 'negative' veya 'neutral' kabul edilir.",
        ))
    }
}

/// A user's vote on one dish of a menu: cast by himself (`explicit`) or inherited from
/// his vote on the whole menu.
#[derive(Clone, Copy, Debug, PartialEq, Eq, Structural)]
pub struct DishVote {
    pub dish_id: i32,
    pub sentiment: Sentiment,
    pub explicit: bool,
}

/// A user's votes on one menu: on the menu itself, and on its dishes.
pub struct MenuBallot {
    pub menu_vote: Option<Sentiment>,
    pub dish_votes: Vec<DishVote>,
}

/// The first place of a vote on dish `d`, if there is one.
pub open spec fn dish_index(vs: Seq<DishVote>, d: i32) -> Option<int>
    decreases vs.len(),
{
    if vs.len() == 0 {
        None
    } else {
        match dish_index(vs.drop_last(), d) {
            Some(i) => Some(i),
            None => if vs.last().dish_id == d { Some(vs.len() - 1) } else { None },
        }
    }
}

proof fn lemma_dish_index(vs: Seq<DishVote>, d: i32)
    ensures
        match dish_index(vs, d) {
            Some(i) => 0 <= i < vs.len() && vs[i].dish_id == d
                && forall|k: int| 0 <= k < i ==> (#[trigger] vs[k]).dish_id != d,
            None => forall|k: int| 0 <= k < vs.len() ==> (#[trigger] vs[k]).dish_id != d,
        },
    decreases vs.len(),
{
    if vs.len() > 0 {
        lemma_dish_index(vs.drop_last(), d);
        assert(forall|k: int| 0 <= k < vs.len() - 1 ==> vs.drop_last()[k] == vs[k]);
    }
}

/// The dish votes after the menu vote `s` reaches dish `d`: a vote the user cast himself
/// stays, an inherited one takes `s`, and a dish without a vote inherits `s`.
pub open spec fn inherit_one(vs: Seq<DishVote>, s: Sentiment, d: i32) -> Seq<DishVote> {
    match dish_index(vs, d) {
        Some(i) => if vs[i].explicit {
            vs
        } else {
            vs.update(i, DishVote { dish_id: d, sentiment: s, explicit: false })
        },
        None => vs.push(DishVote { dish_id: d, sentiment: s, explicit: false }),
    }
}

/// The dish votes after the menu vote `s` reaches each linked dish of the menu in turn
/// (a menu line whose alias has no dish is passed over).
pub open spec fn spec_inherit(vs: Seq<DishVote>, s: Sentiment, linked: Seq<Option<i32>>) -> Seq<DishVote>
    decreases linked.len(),
{
    if linked.len() == 0 {
        vs
    } else {
        let p = spec_inherit(vs, s, linked.drop_last());
        match linked.last() {
            Some(d) => inherit_one(p, s, d),
            None => p,
        }
    }
}

/// The dish votes the user cast himself, in order.
pub open spec fn explicit_votes(vs: Seq<DishVote>) -> Seq<DishVote>
    decreases vs.len(),
{
    if vs.len() == 0 {
        Seq::empty()
    } else {
        let p = explicit_votes(vs.drop_last());
        if vs.last().explicit { p.push(vs.last()) } else { p }
    }
}

/// A menu vote: a neutral one takes back the menu vote and every inherited dish vote;
/// another sets the menu vote and reaches every linked dish.
pub open spec fn spec_vote_menu(votes: Seq<DishVote>, s: Sentiment, linked: Seq<Option<i32>>) -> (Option<Sentiment>, Seq<DishVote>) {
    if s == Sentiment::Neutral {
        (None, explicit_votes(votes))
    } else {
        (Some(s), spec_inherit(votes, s, linked))
    }
}

fn inherit_vote(vs: &mut Vec<DishVote>, s: Sentiment, d: i32)
    ensures
        final(vs)@ == inherit_one(old(vs)@, s, d),
{
    let ghost start = vs@;
    let mut i: usize = 0;
    while i < vs.len()
        invariant
            i <= vs@.len(),
            vs@ == start,
            start == old(vs)@,
            forall|k: int| 0 <= k < i ==> (#[trigger] vs@[k]).dish_id != d,
        decreases vs@.len() - i,
    {
        if vs[i].dish_id == d {
            proof {
                lemma_dish_index(start, d);
                let j = dish_index(start, d);
                if j is Some {
                    let jj = j->0;
                    if jj < i {
                        assert(start[jj].dish_id != d);
                    } else if jj > i {
                        assert(start[i as int].dish_id != d);
                    }
                }
                assert(dish_index(start, d) == Some(i as int));
            }
            if !vs[i].explicit {
                vs.set(i, DishVote { dish_id: d, sentiment: s, explicit: false });
            }
            return;
        }
        i = i + 1;
    }
    proof {
        lemma_dish_index(start, d);
        let j = dish_index(start, d);
        if j is Some {
            assert(start[j->0].dish_id != d);
        }
    }
    vs.push(DishVote { dish_id: d, sentiment: s, explicit: false });
}

fn keep_explicit(vs: &Vec<DishVote>) -> (r: Vec<DishVote>)
    ensures
        r@ == explicit_votes(vs@),
{
    let mut out: Vec<DishVote> = Vec::new();
    let mut i: usize = 0;
    assert(vs@.take(0) =~= Seq::<DishVote>::empty());
    while i < vs.len()
        invariant
            i <= vs@.len(),
            out@ == explicit_votes(vs@.take(i as int)),
        decreases vs@.len() - i,
    {
        proof {
            assert(vs@.take(i + 1).drop_last() =~= vs@.take(i as int));
            assert(vs@.take(i + 1).last() == vs@[i as int]);
        }
        if vs[i].explicit {
            out.push(vs[i]);
        }
        i = i + 1;
    }
    assert(vs@.take(vs@.len() as int) =~= vs@);
    out
}

/// A user's vote on a menu. Refused for an unknown user (`None`) and an unverified one;
/// otherwise the menu vote and the dish votes change as `spec_vote_menu` says, the
/// dishes of the menu's lines being `linked`.
pub fn vote_menu(
    ballot: &mut MenuBallot,
    user_verified: Option<bool>,
    sentiment: Sentiment,
    linked: &Vec<Option<i32>>,
) -> (r: Result<(), VoteError>)
    ensures
        user_verified is None ==> (r matches Err(VoteError::DatabaseError(m)) && m@ == "Kullanıcı bulunamadı"@)
            && final(ballot).menu_vote == old(ballot).menu_vote && final(ballot).dish_votes@ == old(ballot).dish_votes@,
        user_verified == Some(false) ==> (r matches Err(VoteError::UnverifiedUser))
            && final(ballot).menu_vote == old(ballot).menu_vote && final(ballot).dish_votes@ == old(ballot).dish_votes@,
        user_verified == Some(true) ==> r is Ok
            && (final(ballot).menu_vote, final(ballot).dish_votes@) == spec_vote_menu(old(ballot).dish_votes@, sentiment, linked@),
{
    match user_verified {
        None => return Err(VoteError::DatabaseError(String::from_str("Kullanıcı bulunamadı"))),
        Some(false) => return Err(VoteError::UnverifiedUser),
        Some(true) => {},
    }
    if sentiment == Sentiment::Neutral {
        ballot.menu_vote = None;
        let kept = keep_explicit(&ballot.dish_votes);
        ballot.dish_votes = kept;
        return Ok(());
    }
    ballot.menu_vote = Some(sentiment);
    let ghost start = ballot.dish_votes@;
    let mut i: usize = 0;
    assert(linked@.take(0) =~= Seq::<Option<i32>>::empty());
    while i < linked.len()
        invariant
            i <= linked@.len(),
            start == old(ballot).dish_votes@,
            ballot.menu_vote == Some(sentiment),
            sentiment != Sentiment::Neutral,
            ballot.dish_votes@ == spec_inherit(start, sentiment, linked@.take(i as int)),
        decreases linked@.len() - i,
    {
        proof {
            assert(linked@.take(i + 1).drop_last() =~= linked@.take(i as int));
            assert(linked@.take(i + 1).last() == linked@[i as int]);
        }
        if let Some(d) = linked[i] {
            inherit_vote(&mut ballot.dish_votes, sentiment, d);
        }
        i = i + 1;
    }
    assert(linked@.take(linked@.len() as int) =~= linked@);
    Ok(())
}

/// Whether some vote on dish `d` was cast by the user himself or carries `s`.
pub open spec fn has_vote(vs: Seq<DishVote>, d: i32, s: Sentiment) -> bool {
    exists|k: int| 0 <= k < vs.len() && (#[trigger] vs[k]).dish_id == d && (vs[k].explicit || vs[k].sentiment == s)
}

/// A vote on a menu never changes a dish vote the user cast himself: each keeps its
/// place and value, and no vote is dropped.
pub proof fn lemma_inherit_keeps_explicit(vs: Seq<DishVote>, s: Sentiment, linked: Seq<Option<i32>>)
    ensures
        spec_inherit(vs, s, linked).len() >= vs.len(),
        forall|i: int| 0 <= i < vs.len() && (#[trigger] vs[i]).explicit ==> spec_inherit(vs, s, linked)[i] == vs[i],
    decreases linked.len(),
{
    if linked.len() > 0 {
        lemma_inherit_keeps_explicit(vs, s, linked.drop_last());
        let p = spec_inherit(vs, s, linked.drop_last());
        if let Some(d) = linked.last() {
            lemma_dish_index(p, d);
        }
    }
}

/// After a vote on a menu, every linked dish has a vote that is either the user's own
/// or the menu vote.
pub proof fn lemma_inherit_covers(vs: Seq<DishVote>, s: Sentiment, linked: Seq<Option<i32>>)
    ensures
        forall|j: int| 0 <= j < linked.len() && (#[trigger] linked[j]) is Some ==> has_vote(spec_inherit(vs, s, linked), linked[j]->0, s),
    decreases linked.len(),
{
    if linked.len() > 0 {
        let prev = linked.drop_last();
        lemma_inherit_covers(vs, s, prev);
        let p = spec_inherit(vs, s, prev);
        let r = spec_inherit(vs, s, linked);
        match linked.last() {
            None => {
                assert forall|j: int| 0 <= j < linked.len() && (#[trigger] linked[j]) is Some implies has_vote(r, linked[j]->0, s) by {
                    assert(prev[j] == linked[j]);
                }
            },
            Some(d) => {
                lemma_dish_index(p, d);
                assert forall|j: int| 0 <= j < linked.len() && (#[trigger] linked[j]) is Some implies has_vote(r, linked[j]->0, s) by {
                    let e = linked[j]->0;
                    if j == linked.len() - 1 {
                        match dish_index(p, d) {
                            Some(i) => { assert(r[i].dish_id == d); },
                            None => { assert(r[p.len() as int].dish_id == d); },
                        }
                    } else {
                        assert(prev[j] == linked[j]);
                        assert(has_vote(p, e, s));
                        let k = choose|k: int| 0 <= k < p.len() && (#[trigger] p[k]).dish_id == e && (p[k].explicit || p[k].sentiment == s);
                        match dish_index(p, d) {
                            Some(i) => {
                                if i == k {
                                    assert(r[k].dish_id == e);
                                } else {
                                    assert(r[k] == p[k]);
                                }
                            },
                            None => { assert(r[k] == p[k]); },
                        }
                    }
                }
            },
        }
    }
}

proof fn lemma_contains_push(s: Seq<DishVote>, x: DishVote, v: DishVote)
    ensures
        s.push(x).contains(v) <==> (s.contains(v) || x == v),
{
    if s.push(x).contains(v) {
        let k = choose|k: int| 0 <= k < s.push(x).len() && s.push(x)[k] == v;
        if k < s.len() {
            assert(s[k] == v);
        }
    }
    if s.contains(v) {
        let k = choose|k: int| 0 <= k < s.len() && s[k] == v;
        assert(s.push(x)[k] == v);
    }
    if x == v {
        assert(s.push(x)[s.len() as int] == v);
    }
}

/// A neutral vote leaves exactly the dish votes the user cast himself.
pub proof fn lemma_neutral_keeps_own(vs: Seq<DishVote>, v: DishVote)
    ensures
        explicit_votes(vs).contains(v) <==> (vs.contains(v) && v.explicit),
    decreases vs.len(),
{
    if vs.len() > 0 {
        let rest = vs.drop_last();
        let x = vs.last();
        lemma_neutral_keeps_own(rest, v);
        assert(rest.push(x) =~= vs);
        lemma_contains_push(rest, x, v);
        lemma_contains_push(explicit_votes(rest), x, v);
    }
}

} // verus!
