//! Moderation between users and by administrators: reporting a comment, blocking a
//! user, the users one is isolated from, and changes to an account's standing.

use vstd::prelude::*;
use vstd::string::StringExecFns;
use crate::accounts::{Account, AccountStatus};
use crate::dto::user::UserRole;
use crate::service_errors::ModerationError;
use crate::assistant::str_is;
use crate::text::{to_lowercase, spec_to_lowercase};

verus! {

/// A report of a comment by a user: refused for an unknown comment (`None`), a deleted
/// one (no author), one's own comment, and a comment one already reported.
pub fn check_comment_report(reporter: u128, comment_author: Option<Option<u128>>, already_reported: bool) -> (r: Result<(), ModerationError>)
    ensures
        comment_author is None ==> r matches Err(ModerationError::CommentNotFound),
        comment_author == Some(None::<u128>) ==> r matches Err(ModerationError::CommentAlreadyDeleted),
        comment_author == Some(Some(reporter)) ==> r matches Err(ModerationError::SelfReportNotAllowed),
        (comment_author matches Some(Some(a)) && a != reporter) ==> (already_reported <==> r matches Err(ModerationError::AlreadyReported)),
        r is Ok <==> (comment_author matches Some(Some(a)) && a != reporter && !already_reported),
{
    let author = match comment_author {
        None => return Err(ModerationError::CommentNotFound),
        Some(a) => a,
    };
    match author {
        None => Err(ModerationError::CommentAlreadyDeleted),
        Some(a) => {
            if a == reporter {
                Err(ModerationError::SelfReportNotAllowed)
            } else if already_reported {
                Err(ModerationError::AlreadyReported)
            } else {
                Ok(())
            }
        },
    }
}

/// A block of one user by another: refused for oneself, an unknown user, and a user
/// already blocked.
pub fn check_block(blocker: u128, blocked: u128, blocked_exists: bool, already_blocked: bool) -> (r: Result<(), ModerationError>)
    ensures
        blocker == blocked ==> r matches Err(ModerationError::SelfBlockNotAllowed),
        blocker != blocked && !blocked_exists ==> r matches Err(ModerationError::UserNotFound),
        blocker != blocked && blocked_exists && already_blocked ==> r matches Err(ModerationError::AlreadyBlocked),
        r is Ok <==> (blocker != blocked && blocked_exists && !already_blocked),
{
    if blocker == blocked {
        Err(ModerationError::SelfBlockNotAllowed)
    } else if !blocked_exists {
        Err(ModerationError::UserNotFound)
    } else if already_blocked {
        Err(ModerationError::AlreadyBlocked)
    } else {
        Ok(())
    }
}

/// A block between two users: who blocks whom.
#[derive(Clone, Copy, Debug, PartialEq, Eq, Structural)]
pub struct Block {
    pub blocker: u128,
    pub blocked: u128,
}

/// The other user of a block that involves `user`.
pub open spec fn partner(b: Block, user: u128) -> u128 {
    if b.blocker == user { b.blocked } else { b.blocker }
}

/// Whether `x` is isolated from `user` by one of the blocks: one of them blocked the
/// other.
pub open spec fn isolated(blocks: Seq<Block>, user: u128, x: u128) -> bool {
    exists|k: int| 0 <= k < blocks.len() && (blocks[k].blocker == user || blocks[k].blocked == user)
        && #[trigger] partner(blocks[k], user) == x
}

/// Whether `s` is strictly increasing.
pub open spec fn increasing(s: Seq<u128>) -> bool {
    forall|i: int, j: int| 0 <= i < j < s.len() ==> s[i] < s[j]
}

fn insert_id(v: &mut Vec<u128>, x: u128)
    requires
        increasing(old(v)@),
    ensures
        increasing(final(v)@),
        forall|y: u128| final(v)@.contains(y) <==> (old(v)@.contains(y) || y == x),
{
    let mut p: usize = 0;
    while p < v.len() && v[p] < x
        invariant
            p <= v@.len(),
            v@ == old(v)@,
            increasing(v@),
            forall|k: int| 0 <= k < p ==> v@[k] < x,
        decreases v@.len() - p,
    {
        p = p + 1;
    }
    if p < v.len() && v[p] == x {
        return;
    }
    let ghost before = v@;
    v.insert(p, x);
    proof {
        assert forall|i: int, j: int| 0 <= i < j < v@.len() implies v@[i] < v@[j] by {
            if j < p {
                assert(v@[i] == before[i] && v@[j] == before[j]);
            } else if j == p {
                assert(v@[i] == before[i]);
            } else if i < p {
                assert(v@[i] == before[i] && v@[j] == before[j - 1]);
                if j - 1 > p {
                    assert(before[p as int] < before[j - 1]);
                }
            } else if i == p {
                assert(v@[j] == before[j - 1]);
                if j - 1 > p {
                    assert(before[p as int] < before[j - 1]);
                }
            } else {
                assert(v@[i] == before[i - 1] && v@[j] == before[j - 1]);
            }
        }
        assert forall|y: u128| v@.contains(y) <==> (before.contains(y) || y == x) by {
            if v@.contains(y) {
                let k = choose|k: int| 0 <= k < v@.len() && v@[k] == y;
                if k < p {
                    assert(before[k] == y);
                } else if k > p {
                    assert(before[k - 1] == y);
                }
            }
            if before.contains(y) {
                let k = choose|k: int| 0 <= k < before.len() && before[k] == y;
                if k < p {
                    assert(v@[k] == y);
                } else {
                    assert(v@[k + 1] == y);
                }
            }
            if y == x {
                assert(v@[p as int] == y);
            }
        }
        assert(before == old(v)@);
        assert(forall|y: u128| v@.contains(y) <==> (old(v)@.contains(y) || y == x));
    }
}

/// The users `user` is isolated from (whom he blocked and who blocked him), each once,
/// in increasing order. `blocks` are the blocks that involve him.
pub fn blocked_user_ids(blocks: &Vec<Block>, user: u128) -> (r: Vec<u128>)
    ensures
        increasing(r@),
        forall|x: u128| #[trigger] r@.contains(x) <==> isolated(blocks@, user, x),
{
    let mut out: Vec<u128> = Vec::new();
    let mut i: usize = 0;
    while i < blocks.len()
        invariant
            i <= blocks@.len(),
            increasing(out@),
            forall|x: u128| #[trigger] out@.contains(x) <==> isolated(blocks@.take(i as int), user, x),
        decreases blocks@.len() - i,
    {
        let b = blocks[i];
        let ghost before = out@;
        let involved = b.blocker == user || b.blocked == user;
        if involved {
            let p = if b.blocker == user { b.blocked } else { b.blocker };
            insert_id(&mut out, p);
        }
        proof {
            let t = blocks@.take(i + 1);
            assert forall|x: u128| #[trigger] out@.contains(x) <==> isolated(t, user, x) by {
                if isolated(blocks@.take(i as int), user, x) {
                    let k = choose|k: int| 0 <= k < i && (blocks@.take(i as int)[k].blocker == user || blocks@.take(i as int)[k].blocked == user)
                        && #[trigger] partner(blocks@.take(i as int)[k], user) == x;
                    assert(t[k] == blocks@.take(i as int)[k]);
                }
                if isolated(t, user, x) {
                    let k = choose|k: int| 0 <= k < i + 1 && (t[k].blocker == user || t[k].blocked == user) && #[trigger] partner(t[k], user) == x;
                    if k < i {
                        assert(blocks@.take(i as int)[k] == t[k]);
                    } else {
                        assert(t[k] == b);
                    }
                }
                if involved && x == partner(b, user) {
                    assert(t[i as int] == b);
                }
            }
        }
        i = i + 1;
    }
    assert(blocks@.take(blocks@.len() as int) =~= blocks@);
    out
}

/// The blocks of `user` split in two: whom he blocked, and who blocked him, each in the
/// order of the blocks.
pub open spec fn spec_relations(blocks: Seq<Block>, user: u128) -> (Seq<u128>, Seq<u128>)
    decreases blocks.len(),
{
    if blocks.len() == 0 {
        (Seq::empty(), Seq::empty())
    } else {
        let (mine, me) = spec_relations(blocks.drop_last(), user);
        let b = blocks.last();
        if b.blocker == user {
            (mine.push(b.blocked), me)
        } else if b.blocked == user {
            (mine, me.push(b.blocker))
        } else {
            (mine, me)
        }
    }
}

/// Splits the blocks of `user` into whom he blocked and who blocked him.
pub fn blocked_relations(blocks: &Vec<Block>, user: u128) -> (r: (Vec<u128>, Vec<u128>))
    ensures
        (r.0@, r.1@) == spec_relations(blocks@, user),
{
    let mut mine: Vec<u128> = Vec::new();
    let mut me: Vec<u128> = Vec::new();
    let mut i: usize = 0;
    assert(blocks@.take(0) =~= Seq::<Block>::empty());
    while i < blocks.len()
        invariant
            i <= blocks@.len(),
            (mine@, me@) == spec_relations(blocks@.take(i as int), user),
        decreases blocks@.len() - i,
    {
        proof {
            assert(blocks@.take(i + 1).drop_last() =~= blocks@.take(i as int));
            assert(blocks@.take(i + 1).last() == blocks@[i as int]);
        }
        let b = blocks[i];
        if b.blocker == user {
            mine.push(b.blocked);
        } else if b.blocked == user {
            me.push(b.blocker);
        }
        i = i + 1;
    }
    assert(blocks@.take(blocks@.len() as int) =~= blocks@);
    (mine, me)
}

/// An account standing an administrator may set, named in any case.
pub open spec fn spec_status_word(s: Seq<char>) -> Option<AccountStatus> {
    let l = spec_to_lowercase(s);
    if l == "active"@ {
        Some(AccountStatus::Active)
    } else if l == "suspended"@ {
        Some(AccountStatus::Suspended)
    } else if l == "banned"@ {
        Some(AccountStatus::Banned)
    } else {
        None
    }
}

/// Sets an account's standing by its name: an unknown name is refused; a suspension or
/// ban ends all the account's sessions (its token version grows by one).
pub fn set_account_status(acct: &mut Account, status_text: &str) -> (r: Result<(), ModerationError>)
    requires
        old(acct).token_version < i32::MAX,
    ensures
        spec_status_word(status_text@) is None ==> (r matches Err(ModerationError::DatabaseError(m)) && m@ == "Geçersiz statü değeri"@)
            && *final(acct) == *old(acct),
        match spec_status_word(status_text@) {
            Some(s) => r is Ok && final(acct).status == s
                && final(acct).token_version == (if s == AccountStatus::Active { old(acct).token_version as int } else { old(acct).token_version + 1 })
                && final(acct).id == old(acct).id && final(acct).role == old(acct).role && final(acct).is_verified == old(acct).is_verified,
            None => true,
        },
{
    let l = to_lowercase(status_text);
    let status = if str_is(l.as_str(), "active") {
        AccountStatus::Active
    } else if str_is(l.as_str(), "suspended") {
        AccountStatus::Suspended
    } else if str_is(l.as_str(), "banned") {
        AccountStatus::Banned
    } else {
        return Err(ModerationError::DatabaseError(String::from_str("Geçersiz statü değeri")));
    };
    acct.status = status;
    if status != AccountStatus::Active {
        acct.token_version = acct.token_version + 1;
    }
    Ok(())
}

/// An administrator's change of an account: verified or not, administrator or plain
/// user, banned or active; a ban ends all the account's sessions.
pub fn moderate_account(acct: &mut Account, is_verified: Option<bool>, is_admin: Option<bool>, is_banned: Option<bool>)
    requires
        old(acct).token_version < i32::MAX,
    ensures
        final(acct).is_verified == (match is_verified { Some(v) => v, None => old(acct).is_verified }),
        final(acct).role == (match is_admin { Some(true) => UserRole::Admin, Some(false) => UserRole::User, None => old(acct).role }),
        final(acct).status == (match is_banned { Some(true) => AccountStatus::Banned, Some(false) => AccountStatus::Active, None => old(acct).status }),
        final(acct).token_version == (if is_banned == Some(true) { old(acct).token_version + 1 } else { old(acct).token_version as int }),
        final(acct).id == old(acct).id && final(acct).username == old(acct).username && final(acct).email == old(acct).email,
{
    if let Some(v) = is_verified {
        acct.is_verified = v;
    }
    if let Some(a) = is_admin {
        acct.role = if a { UserRole::Admin } else { UserRole::User };
    }
    if let Some(b) = is_banned {
        if b {
            acct.status = AccountStatus::Banned;
            acct.token_version = acct.token_version + 1;
        } else {
            acct.status = AccountStatus::Active;
        }
    }
}

} // verus!
