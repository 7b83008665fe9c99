//! The administrators' review queues: settling the reports of a comment, deciding many
//! submitted menus at once, and how users, comments and complaints are listed.

use vstd::prelude::*;
use vstd::string::StringExecFns;
use crate::reports::ReportStatus;
use crate::menu::MenuStatus;
use crate::accounts::AccountStatus;
use crate::dto::user::UserRole;
use crate::error::{AppError, ErrorKind};
use crate::assistant::str_is;
use crate::text::{to_lowercase, spec_to_lowercase, extend_str, extend_chars, decimal_i128, spec_int_decimal, string_from_chars};

verus! {

/// A report filed against a comment, and its status.
#[derive(Clone, Copy, Debug, PartialEq, Eq, Structural)]
pub struct CommentReport {
    pub comment_id: u128,
    pub status: ReportStatus,
}

/// What an administrator decides about a reported comment.
#[derive(Clone, Copy, Debug, PartialEq, Eq, Structural)]
pub enum Verdict {
    /// The comment stays; its pending reports are dismissed.
    Approve,
    /// The comment is removed; its pending reports are resolved.
    Reject,
    /// The comment stays; all its reports are open again.
    Reset,
}

/// A report after a verdict on comment `c`.
pub open spec fn settled(r: CommentReport, c: u128, v: Verdict) -> CommentReport {
    if r.comment_id != c {
        r
    } else {
        match v {
            Verdict::Approve => if r.status == ReportStatus::Pending { CommentReport { status: ReportStatus::Dismissed, ..r } } else { r },
            Verdict::Reject => if r.status == ReportStatus::Pending { CommentReport { status: ReportStatus::Resolved, ..r } } else { r },
            Verdict::Reset => CommentReport { status: ReportStatus::Pending, ..r },
        }
    }
}

/// Applies a verdict on comment `c` to the reports.
pub fn settle_reports(reports: &mut Vec<CommentReport>, c: u128, v: Verdict)
    ensures
        final(reports)@.len() == old(reports)@.len(),
        forall|i: int| 0 <= i < old(reports)@.len() ==> final(reports)@[i] == settled(old(reports)@[i], c, v),
{
    let mut i: usize = 0;
    while i < reports.len()
        invariant
            i <= reports@.len(),
            reports@.len() == old(reports)@.len(),
            forall|k: int| 0 <= k < i ==> reports@[k] == settled(old(reports)@[k], c, v),
            forall|k: int| i <= k < reports@.len() ==> reports@[k] == old(reports)@[k],
        decreases reports@.len() - i,
    {
        let r = reports[i];
        let n = if r.comment_id != c {
            r
        } else {
            match v {
                Verdict::Approve => if r.status == ReportStatus::Pending { CommentReport { comment_id: r.comment_id, status: ReportStatus::Dismissed } } else { r },
                Verdict::Reject => if r.status == ReportStatus::Pending { CommentReport { comment_id: r.comment_id, status: ReportStatus::Resolved } } else { r },
                Verdict::Reset => CommentReport { comment_id: r.comment_id, status: ReportStatus::Pending },
            }
        };
        reports.set(i, n);
        i = i + 1;
    }
}

/// After an approval or a rejection no report of the comment is left pending; after a
/// reset every report of it is; the reports of other comments never change.
pub proof fn lemma_verdicts(r: CommentReport, c: u128, v: Verdict)
    ensures
        r.comment_id != c ==> settled(r, c, v) == r,
        r.comment_id == c && v != Verdict::Reset ==> settled(r, c, v).status != ReportStatus::Pending,
        r.comment_id == c && v == Verdict::Reset ==> settled(r, c, v).status == ReportStatus::Pending,
        settled(r, c, v).comment_id == r.comment_id,
{
}

/// Removes a comment's reports (the comment itself is being purged).
pub fn purge_reports(reports: &Vec<CommentReport>, c: u128) -> (r: Vec<CommentReport>)
    ensures
        r@ == without_comment(reports@, c),
{
    let mut out: Vec<CommentReport> = Vec::new();
    let mut i: usize = 0;
    assert(reports@.take(0) =~= Seq::<CommentReport>::empty());
    while i < reports.len()
        invariant
            i <= reports@.len(),
            out@ == without_comment(reports@.take(i as int), c),
        decreases reports@.len() - i,
    {
        proof {
            assert(reports@.take(i + 1).drop_last() =~= reports@.take(i as int));
            assert(reports@.take(i + 1).last() == reports@[i as int]);
        }
        if reports[i].comment_id != c {
            out.push(reports[i]);
        }
        i = i + 1;
    }
    assert(reports@.take(reports@.len() as int) =~= reports@);
    out
}

/// The reports that are not about comment `c`, in order.
pub open spec fn without_comment(rs: Seq<CommentReport>, c: u128) -> Seq<CommentReport>
    decreases rs.len(),
{
    if rs.len() == 0 {
        rs
    } else if rs.last().comment_id == c {
        without_comment(rs.drop_last(), c)
    } else {
        without_comment(rs.drop_last(), c).push(rs.last())
    }
}

/// The status a bulk decision names, in any case: `approved` or `rejected`.
pub open spec fn spec_bulk_status(text: Seq<char>) -> Option<MenuStatus> {
    let l = spec_to_lowercase(text);
    if l == "approved"@ {
        Some(MenuStatus::Approved)
    } else if l == "rejected"@ {
        Some(MenuStatus::Rejected)
    } else {
        None
    }
}

/// Reads the status of a bulk decision; another word is a bad request.
pub fn bulk_status(text: &str) -> (r: Result<MenuStatus, AppError>)
    ensures
        match r {
            Ok(s) => spec_bulk_status(text@) == Some(s),
            Err(e) => spec_bulk_status(text@) is None
                && e@ == (ErrorKind::BadRequest, "Geçersiz menü durumu (yalnızca 'approved' veya 'rejected')"@),
        },
{
    let l = to_lowercase(text);
    if str_is(l.as_str(), "approved") {
        Ok(MenuStatus::Approved)
    } else if str_is(l.as_str(), "rejected") {
        Ok(MenuStatus::Rejected)
    } else {
        Err(AppError::with_text(ErrorKind::BadRequest, "Geçersiz menü durumu (yalnızca 'approved' veya 'rejected')"))
    }
}

/// The notice a submitter gets when an administrator decides his menu: kind
/// `moderation`, a title, a text, and for an approval a link to the menu.
pub struct DecisionNotice {
    pub kind: String,
    pub title: String,
    pub message: String,
    pub action_label: Option<String>,
    pub action_href: Option<String>,
}

/// Writes the notice of a decision on menu `menu_id`.
pub fn decision_notice(menu_id: i32, approved: bool) -> (r: DecisionNotice)
    ensures
        r.kind@ == "moderation"@,
        approved ==> r.title@ == "Menü Gönderin Onaylandı"@
            && r.message@ == "Gönderdiğin menü moderatörler tarafından incelendi ve yayına alındı."@
            && (r.action_label matches Some(l) && l@ == "Menüyü Gör"@)
            && (r.action_href matches Some(h) && h@ == "/menu/"@ + spec_int_decimal(menu_id as int)),
        !approved ==> r.title@ == "Menü Gönderin Reddedildi"@
            && r.message@ == "Gönderdiğin menü inceleme sonucunda uygun bulunmadı."@
            && r.action_label is None && r.action_href is None,
{
    if approved {
        let mut href: Vec<char> = Vec::new();
        extend_str(&mut href, "/menu/");
        let n = decimal_i128(menu_id as i128);
        extend_chars(&mut href, n.as_slice());
        DecisionNotice {
            kind: String::from_str("moderation"),
            title: String::from_str("Menü Gönderin Onaylandı"),
            message: String::from_str("Gönderdiğin menü moderatörler tarafından incelendi ve yayına alındı."),
            action_label: Some(String::from_str("Menüyü Gör")),
            action_href: Some(string_from_chars(href.as_slice())),
        }
    } else {
        DecisionNotice {
            kind: String::from_str("moderation"),
            title: String::from_str("Menü Gönderin Reddedildi"),
            message: String::from_str("Gönderdiğin menü inceleme sonucunda uygun bulunmadı."),
            action_label: None,
            action_href: None,
        }
    }
}

/// How the user list names a role: the bot account is `unknown`.
pub fn role_label(role: UserRole) -> (r: &'static str)
    ensures
        r@ == (match role {
            UserRole::Admin => "admin"@,
            UserRole::User => "user"@,
            UserRole::SystemBot => "unknown"@,
        }),
{
    match role {
        UserRole::Admin => "admin",
        UserRole::User => "user",
        UserRole::SystemBot => "unknown",
    }
}

/// How the user list names an account's standing.
pub fn status_label(status: AccountStatus) -> (r: &'static str)
    ensures
        r@ == (match status {
            AccountStatus::Active => "active"@,
            AccountStatus::Suspended => "suspended"@,
            AccountStatus::Banned => "banned"@,
        }),
{
    match status {
        AccountStatus::Active => "active",
        AccountStatus::Suspended => "suspended",
        AccountStatus::Banned => "banned",
    }
}

/// The names a complaint is listed with: the comment's author (`Anonim` when unknown)
/// and the reporter (`Kullanıcı` when unknown).
pub fn complaint_names(author: Option<String>, reporter: Option<String>) -> (r: (String, String))
    ensures
        r.0@ == (match author { Some(a) => a@, None => "Anonim"@ }),
        r.1@ == (match reporter { Some(x) => x@, None => "Kullanıcı"@ }),
{
    let a = match author {
        Some(a) => a,
        None => String::from_str("Anonim"),
    };
    let b = match reporter {
        Some(x) => x,
        None => String::from_str("Kullanıcı"),
    };
    (a, b)
}

/// The pages of a listing of `total` items, `limit` a page: at least one.
pub open spec fn spec_page_count(total: nat, limit: nat) -> nat {
    if total == 0 { 1 } else { ((total + limit - 1) / (limit as int)) as nat }
}

/// Counts the pages of a listing and the page an offset falls on (from 1).
pub fn page_info(total: u64, limit: u64, offset: u64) -> (r: (u64, u64))
    requires
        limit > 0,
        offset / limit < u64::MAX,
    ensures
        r.0 == spec_page_count(total as nat, limit as nat),
        r.1 == offset / limit + 1,
{
    let q = total / limit;
    let rem = total % limit;
    proof {
        if rem != 0 {
            assert(limit >= 2);
            assert(q <= total / 2) by (nonlinear_arith)
                requires limit >= 2, q == total / limit;
        }
    }
    let pages = if total == 0 { 1 } else { q + if rem == 0 { 0 } else { 1 } };
    proof {
        if total > 0 {
            let t = total as int;
            let l = limit as int;
            assert(t == l * (t / l) + t % l) by (nonlinear_arith)
                requires l > 0;
            if t % l == 0 {
                assert((t + l - 1) / l == t / l) by (nonlinear_arith)
                    requires l > 0, t == l * (t / l), t % l == 0;
            } else {
                assert((t + l - 1) / l == t / l + 1) by (nonlinear_arith)
                    requires l > 0, t == l * (t / l) + t % l, 0 < t % l < l;
            }
        }
    }
    (pages, offset / limit + 1)
}

} // verus!
