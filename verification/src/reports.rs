//! Reports of users about comments, menus, bot comments and users, the statuses of
//! reports and contact messages, and the mail that answers a contact message.

use vstd::prelude::*;
use crate::error::{AppError, ErrorKind};
use crate::dto::user::UserRole;
use crate::assistant::str_is;
use crate::requests::{spec_parse_i32, parse_i32};
use crate::text::{char_vec, trim, spec_trim, extend_str, extend_chars, string_from_chars};

verus! {

/// The 128-bit value of a UUID written in one of the forms `uuid` reads.
pub uninterp spec fn parsed_uuid(text: Seq<char>) -> Option<u128>;

/// `uuid::Uuid::parse_str`; its value, as a number, is named by `parsed_uuid`.
#[verifier::external_body]
pub(crate) fn parse_uuid(text: &str) -> (r: Option<u128>)
    ensures
        r == parsed_uuid(text@),
{
    match uuid::Uuid::parse_str(text) {
        Ok(u) => Some(u.as_u128()),
        Err(_) => None,
    }
}

/// What a report is about.
#[derive(Clone, Copy, Debug, PartialEq, Eq, Structural)]
pub enum ReportTarget {
    Comment(u128),
    Menu(i32),
    Bot(i32),
    User(u128),
}

impl ReportTarget {
    /// The type stored with the report.
    pub open spec fn spec_kind_name(self) -> Seq<char> {
        match self {
            ReportTarget::Comment(_) => "comment"@,
            ReportTarget::Menu(_) => "menu"@,
            ReportTarget::Bot(_) => "bot"@,
            ReportTarget::User(_) => "user"@,
        }
    }

    /// The type stored with the report.
    pub fn kind_name(&self) -> (r: &'static str)
        ensures
            r@ == self.spec_kind_name(),
    {
        match self {
            ReportTarget::Comment(_) => "comment",
            ReportTarget::Menu(_) => "menu",
            ReportTarget::Bot(_) => "bot",
            ReportTarget::User(_) => "user",
        }
    }
}

/// A report as submitted.
pub struct SubmitReportDto {
    pub target_type: String,
    pub target_id: String,
    pub reason: String,
    pub description: Option<String>,
}

/// Reasons that need a written description.
pub open spec fn needs_description(reason: Seq<char>) -> bool {
    reason == "other"@ || reason == "bot_other"@ || reason == "Diğer"@
}

/// What a report is about, read from its type and id.
pub open spec fn spec_report_target(target_type: Seq<char>, target_id: Seq<char>) -> Result<ReportTarget, Seq<char>> {
    if target_type == "comment"@ {
        match parsed_uuid(target_id) {
            Some(u) => Ok(ReportTarget::Comment(u)),
            None => Err("Geçersiz yorum ID"@),
        }
    } else if target_type == "menu"@ || target_type == "bot"@ {
        match spec_parse_i32(target_id) {
            Some(m) => Ok(if target_type == "menu"@ { ReportTarget::Menu(m) } else { ReportTarget::Bot(m) }),
            None => Err("Geçersiz menü ID"@),
        }
    } else if target_type == "user"@ {
        match parsed_uuid(target_id) {
            Some(u) => Ok(ReportTarget::User(u)),
            None => Err("Geçersiz kullanıcı ID"@),
        }
    } else {
        Err("Bilinmeyen hedef türü."@)
    }
}

/// The first check a report meets: an open reason ("other") needs a description that
/// is not blank; then the target must be readable. Every refusal is a bad request.
pub open spec fn spec_check_report(dto: &SubmitReportDto) -> Result<ReportTarget, Seq<char>> {
    if needs_description(dto.reason@) && (match dto.description { Some(d) => spec_trim(d@).len() == 0, None => true }) {
        Err("Lütfen detaylı açıklama giriniz."@)
    } else {
        spec_report_target(dto.target_type@, dto.target_id@)
    }
}

/// Checks a submitted report and reads its target.
pub fn check_report(dto: &SubmitReportDto) -> (r: Result<ReportTarget, AppError>)
    ensures
        match r {
            Ok(t) => spec_check_report(dto) == Ok::<ReportTarget, Seq<char>>(t),
            Err(e) => spec_check_report(dto) matches Err(m) && e@ == (ErrorKind::BadRequest, m),
        },
{
    let reason = dto.reason.as_str();
    let open_reason = str_is(reason, "other") || str_is(reason, "bot_other") || str_is(reason, "Diğer");
    let blank = match &dto.description {
        Some(d) => trim(d.as_str()).len() == 0,
        None => true,
    };
    if open_reason && blank {
        return Err(AppError::with_text(ErrorKind::BadRequest, "Lütfen detaylı açıklama giriniz."));
    }
    let tt = dto.target_type.as_str();
    let id = dto.target_id.as_str();
    if str_is(tt, "comment") {
        match parse_uuid(id) {
            Some(u) => Ok(ReportTarget::Comment(u)),
            None => Err(AppError::with_text(ErrorKind::BadRequest, "Geçersiz yorum ID")),
        }
    } else if str_is(tt, "menu") || str_is(tt, "bot") {
        let iv = char_vec(id);
        match parse_i32(iv.as_slice()) {
            Some(m) => {
                if str_is(tt, "menu") {
                    Ok(ReportTarget::Menu(m))
                } else {
                    Ok(ReportTarget::Bot(m))
                }
            },
            None => Err(AppError::with_text(ErrorKind::BadRequest, "Geçersiz menü ID")),
        }
    } else if str_is(tt, "user") {
        match parse_uuid(id) {
            Some(u) => Ok(ReportTarget::User(u)),
            None => Err(AppError::with_text(ErrorKind::BadRequest, "Geçersiz kullanıcı ID")),
        }
    } else {
        Err(AppError::with_text(ErrorKind::BadRequest, "Bilinmeyen hedef türü."))
    }
}

/// A report about a comment needs the comment, and a signed-in reporter may hold only
/// one pending report on it.
pub fn check_comment_report(comment_exists: bool, pending_report_of_reporter: bool) -> (r: Result<(), AppError>)
    ensures
        !comment_exists ==> (r matches Err(e) && e@ == (ErrorKind::NotFound, "Yorum bulunamadı."@)),
        comment_exists && pending_report_of_reporter ==> (r matches Err(e) && e@ == (ErrorKind::BadRequest, "Zaten şikayetiniz var."@)),
        comment_exists && !pending_report_of_reporter ==> r is Ok,
{
    if !comment_exists {
        return Err(AppError::with_text(ErrorKind::NotFound, "Yorum bulunamadı."));
    }
    if pending_report_of_reporter {
        return Err(AppError::with_text(ErrorKind::BadRequest, "Zaten şikayetiniz var."));
    }
    Ok(())
}

/// The status of a report or a contact message.
#[derive(Clone, Copy, Debug, PartialEq, Eq, Structural)]
pub enum ReportStatus {
    Pending,
    Resolved,
    Dismissed,
}

impl ReportStatus {
    /// The status as the store and the clients write it.
    pub open spec fn spec_wire_name(self) -> Seq<char> {
        match self {
            ReportStatus::Pending => "pending"@,
            ReportStatus::Resolved => "resolved"@,
            ReportStatus::Dismissed => "dismissed"@,
        }
    }

    /// The status as the store and the clients write it.
    pub fn wire_name(&self) -> (r: &'static str)
        ensures
            r@ == self.spec_wire_name(),
    {
        match self {
            ReportStatus::Pending => "pending",
            ReportStatus::Resolved => "resolved",
            ReportStatus::Dismissed => "dismissed",
        }
    }
}

/// Reads a new status; another word is a bad request.
pub fn parse_report_status(s: &str) -> (r: Result<ReportStatus, AppError>)
    ensures
        match r {
            Ok(st) => st.spec_wire_name() == s@,
            Err(e) => e@ == (ErrorKind::BadRequest, "Invalid status"@)
                && s@ != "pending"@ && s@ != "resolved"@ && s@ != "dismissed"@,
        },
{
    if str_is(s, "pending") {
        Ok(ReportStatus::Pending)
    } else if str_is(s, "resolved") {
        Ok(ReportStatus::Resolved)
    } else if str_is(s, "dismissed") {
        Ok(ReportStatus::Dismissed)
    } else {
        Err(AppError::with_text(ErrorKind::BadRequest, "Invalid status"))
    }
}

/// Reading a status back from its name gives the status.
pub proof fn lemma_status_names_distinct(a: ReportStatus, b: ReportStatus)
    requires
        a != b,
    ensures
        a.spec_wire_name() != b.spec_wire_name(),
{
    reveal_strlit("pending");
    reveal_strlit("resolved");
    reveal_strlit("dismissed");
    assert(a.spec_wire_name()[0] != b.spec_wire_name()[0]);
}

/// Only administrators handle reports and contact messages.
pub fn require_admin(role: UserRole) -> (r: Result<(), AppError>)
    ensures
        role == UserRole::Admin <==> r is Ok,
        r matches Err(e) ==> e@ == (ErrorKind::Forbidden, "Admins only"@),
{
    match role {
        UserRole::Admin => Ok(()),
        _ => Err(AppError::with_text(ErrorKind::Forbidden, "Admins only")),
    }
}

/// The text of a reply as it is put in the mail: `&`, `<`, `>` and `"` are escaped.
pub open spec fn spec_html_escape(s: Seq<char>) -> Seq<char>
    decreases s.len(),
{
    if s.len() == 0 {
        Seq::empty()
    } else {
        let c = s.last();
        spec_html_escape(s.drop_last()) + (if c == '&' {
            "&amp;"@
        } else if c == '<' {
            "&lt;"@
        } else if c == '>' {
            "&gt;"@
        } else if c == '"' {
            "&quot;"@
        } else {
            seq![c]
        })
    }
}

/// Escapes the text of a reply for the mail.
pub fn html_escape(s: &str) -> (r: Vec<char>)
    ensures
        r@ == spec_html_escape(s@),
{
    let sv = char_vec(s);
    let mut out: Vec<char> = Vec::new();
    let mut i: usize = 0;
    assert(sv@.take(0) =~= Seq::<char>::empty());
    while i < sv.len()
        invariant
            i <= sv@.len(),
            sv@ == s@,
            out@ == spec_html_escape(sv@.take(i as int)),
        decreases sv@.len() - i,
    {
        proof {
            assert(sv@.take(i + 1).drop_last() =~= sv@.take(i as int));
            assert(sv@.take(i + 1).last() == sv@[i as int]);
        }
        let c = sv[i];
        if c == '&' {
            extend_str(&mut out, "&amp;");
        } else if c == '<' {
            extend_str(&mut out, "&lt;");
        } else if c == '>' {
            extend_str(&mut out, "&gt;");
        } else if c == '"' {
            extend_str(&mut out, "&quot;");
        } else {
            out.push(c);
            assert(out@ =~= spec_html_escape(sv@.take(i as int)) + seq![c]);
        }
        i = i + 1;
    }
    assert(sv@.take(sv@.len() as int) =~= sv@);
    out
}

/// The opening of the reply mail, up to the escaped reply.
pub open spec fn reply_mail_head() -> Seq<char> {
    "<div style=\"font-family: -apple-system, BlinkMacSystemFont, 'Segoe UI', Roboto, Helvetica, Arial, sans-serif; line-height: 1.6; color: #222; max-width: 600px; margin: 0 auto; padding: 24px; border: 1px solid #eaeaea; border-radius: 8px;\">\n            <h2 style=\"color: #e5533d; margin-top: 0;\">Kepçe Destek Ekibi</h2>\n            <p>Merhaba,</p>\n            <p>İlettiğiniz mesaja istinaden yanıtımız aşağıdadır:</p>\n            <div style=\"background: #f8f9fa; border-left: 4px solid #e5533d; padding: 16px; margin: 20px 0; border-radius: 4px; white-space: pre-wrap; font-size: 15px;\">"@
}

/// The close of the reply mail, after the escaped reply.
pub open spec fn reply_mail_tail() -> Seq<char> {
    "</div>\n            <hr style=\"border: none; border-top: 1px solid #eee; margin: 24px 0;\" />\n            <p style=\"font-size: 12px; color: #777; margin-bottom: 0;\">Bu e-posta Kepçe Destek Sistemi üzerinden iletilmiştir.</p>\n        </div>"@
}

/// The subject and HTML body of the mail that answers a contact message.
pub fn reply_mail(original_subject: &str, reply_body: &str) -> (r: (String, String))
    ensures
        r.0@ == "Re: "@ + original_subject@ + " - Kepçe Destek"@,
        r.1@ == reply_mail_head() + spec_html_escape(reply_body@) + reply_mail_tail(),
{
    let mut subject: Vec<char> = Vec::new();
    extend_str(&mut subject, "Re: ");
    extend_str(&mut subject, original_subject);
    extend_str(&mut subject, " - Kepçe Destek");
    let mut body: Vec<char> = Vec::new();
    extend_str(&mut body, "<div style=\"font-family: -apple-system, BlinkMacSystemFont, 'Segoe UI', Roboto, Helvetica, Arial, sans-serif; line-height: 1.6; color: #222; max-width: 600px; margin: 0 auto; padding: 24px; border: 1px solid #eaeaea; border-radius: 8px;\">\n            <h2 style=\"color: #e5533d; margin-top: 0;\">Kepçe Destek Ekibi</h2>\n            <p>Merhaba,</p>\n            <p>İlettiğiniz mesaja istinaden yanıtımız aşağıdadır:</p>\n            <div style=\"background: #f8f9fa; border-left: 4px solid #e5533d; padding: 16px; margin: 20px 0; border-radius: 4px; white-space: pre-wrap; font-size: 15px;\">");
    let safe = html_escape(reply_body);
    extend_chars(&mut body, safe.as_slice());
    extend_str(&mut body, "</div>\n            <hr style=\"border: none; border-top: 1px solid #eee; margin: 24px 0;\" />\n            <p style=\"font-size: 12px; color: #777; margin-bottom: 0;\">Bu e-posta Kepçe Destek Sistemi üzerinden iletilmiştir.</p>\n        </div>");
    (string_from_chars(subject.as_slice()), string_from_chars(body.as_slice()))
}

} // verus!
