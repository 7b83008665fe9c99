//! The mails the site sends: sign-in links, address verification, password reset and
//! security alerts, each a subject and an HTML body around a link or the event.

use vstd::prelude::*;
use vstd::string::StringExecFns;
use crate::assistant::str_is;
use crate::text::{extend_str, string_from_chars};

verus! {

/// Mail goes nowhere (it is only logged) when the delivery key is empty or the mock key.
pub open spec fn spec_mock_delivery(api_key: Seq<char>) -> bool {
    api_key.len() == 0 || api_key == "mock_key"@
}

/// Whether mail is only logged.
pub fn mock_delivery(api_key: &str) -> (r: bool)
    ensures
        r == spec_mock_delivery(api_key@),
{
    proof {
        reveal_strlit("");
        assert(api_key@.len() == 0 ==> api_key@ =~= ""@);
    }
    str_is(api_key, "") || str_is(api_key, "mock_key")
}

/// The sender of every mail.
pub open spec fn sender() -> Seq<char> {
    "Kepçe <noreply@kepce.org>"@
}

/// A mail: subject and HTML body.
pub struct Mail {
    pub subject: String,
    pub html: String,
}

/// The kinds of link mails.
#[derive(Clone, Copy, Debug, PartialEq, Eq, Structural)]
pub enum LinkMail {
    /// A sign-in link (15 minutes).
    Passwordless,
    /// An address verification link (24 hours).
    Verification,
    /// A password reset link (1 hour).
    PasswordReset,
}

/// The page a link mail points to.
pub open spec fn link_path(k: LinkMail) -> Seq<char> {
    match k {
        LinkMail::Passwordless => "/auth/sifresiz?token="@,
        LinkMail::Verification => "/auth/dogrula?token="@,
        LinkMail::PasswordReset => "/auth/sifre-sifirla?token="@,
    }
}

/// The subject of a link mail.
pub open spec fn link_subject(k: LinkMail) -> Seq<char> {
    match k {
        LinkMail::Passwordless => "Kepçe Şifresiz Giriş Bağlantınız"@,
        LinkMail::Verification => "Kepçe Hesabınızı Doğrulayın"@,
        LinkMail::PasswordReset => "Şifre Sıfırlama Talebi"@,
    }
}

/// The HTML before the link.
pub open spec fn link_head(k: LinkMail) -> Seq<char> {
    match k {
        LinkMail::Passwordless => "\n            <div style=\"font-family: sans-serif; max-width: 600px; margin: 0 auto; padding: 20px;\">\n                <h2 style=\"color: #ff8717;\">Kepçe'ye Hoş Geldiniz</h2>\n                <p>Şifresiz giriş yapmak için aşağıdaki butona tıklayın:</p>\n                <a href=\""@,
        LinkMail::Verification => "\n            <div style=\"font-family: sans-serif; max-width: 600px; margin: 0 auto; padding: 20px;\">\n                <h2 style=\"color: #ff8717;\">Kepçe'ye Hoş Geldiniz!</h2>\n                <p>Hesabınızı doğrulamak için aşağıdaki butona tıklayın:</p>\n                <a href=\""@,
        LinkMail::PasswordReset => "\n            <div style=\"font-family: sans-serif; max-width: 600px; margin: 0 auto; padding: 20px;\">\n                <h2 style=\"color: #ff8717;\">Şifre Sıfırlama Talebi</h2>\n                <p>Şifrenizi sıfırlamak için aşağıdaki butona tıklayın:</p>\n                <a href=\""@,
    }
}

/// The HTML after the link.
pub open spec fn link_tail(k: LinkMail) -> Seq<char> {
    match k {
        LinkMail::Passwordless => "\" style=\"display: inline-block; padding: 12px 24px; background-color: #ff8717; color: white; text-decoration: none; border-radius: 6px; font-weight: bold; margin: 20px 0;\">Sisteme Giriş Yap</a>\n                <p style=\"color: #666; font-size: 14px;\">Bu bağlantı 15 dakika boyunca geçerlidir. Eğer bu talebi siz yapmadıysanız bu e-postayı görmezden gelebilirsiniz.</p>\n            </div>\n            "@,
        LinkMail::Verification => "\" style=\"display: inline-block; padding: 12px 24px; background-color: #ff8717; color: white; text-decoration: none; border-radius: 6px; font-weight: bold; margin: 20px 0;\">E-postamı Doğrula</a>\n                <p style=\"color: #666; font-size: 14px;\">Bu bağlantı 24 saat boyunca geçerlidir.</p>\n            </div>\n            "@,
        LinkMail::PasswordReset => "\" style=\"display: inline-block; padding: 12px 24px; background-color: #ff8717; color: white; text-decoration: none; border-radius: 6px; font-weight: bold; margin: 20px 0;\">Şifremi Sıfırla</a>\n                <p style=\"color: #666; font-size: 14px;\">Bu bağlantı 1 saat boyunca geçerlidir. Eğer bu talebi siz yapmadıysanız güvenliğiniz için şifrenizi değiştirmeyi düşünebilirsiniz.</p>\n            </div>\n            "@,
    }
}

fn link_texts(k: LinkMail) -> (r: (&'static str, &'static str, &'static str, &'static str))
    ensures
        r.0@ == link_path(k) && r.1@ == link_subject(k) && r.2@ == link_head(k) && r.3@ == link_tail(k),
{
    match k {
        LinkMail::Passwordless => ("/auth/sifresiz?token=", "Kepçe Şifresiz Giriş Bağlantınız", "\n            <div style=\"font-family: sans-serif; max-width: 600px; margin: 0 auto; padding: 20px;\">\n                <h2 style=\"color: #ff8717;\">Kepçe'ye Hoş Geldiniz</h2>\n                <p>Şifresiz giriş yapmak için aşağıdaki butona tıklayın:</p>\n                <a href=\"", "\" style=\"display: inline-block; padding: 12px 24px; background-color: #ff8717; color: white; text-decoration: none; border-radius: 6px; font-weight: bold; margin: 20px 0;\">Sisteme Giriş Yap</a>\n                <p style=\"color: #666; font-size: 14px;\">Bu bağlantı 15 dakika boyunca geçerlidir. Eğer bu talebi siz yapmadıysanız bu e-postayı görmezden gelebilirsiniz.</p>\n            </div>\n            "),
        LinkMail::Verification => ("/auth/dogrula?token=", "Kepçe Hesabınızı Doğrulayın", "\n            <div style=\"font-family: sans-serif; max-width: 600px; margin: 0 auto; padding: 20px;\">\n                <h2 style=\"color: #ff8717;\">Kepçe'ye Hoş Geldiniz!</h2>\n                <p>Hesabınızı doğrulamak için aşağıdaki butona tıklayın:</p>\n                <a href=\"", "\" style=\"display: inline-block; padding: 12px 24px; background-color: #ff8717; color: white; text-decoration: none; border-radius: 6px; font-weight: bold; margin: 20px 0;\">E-postamı Doğrula</a>\n                <p style=\"color: #666; font-size: 14px;\">Bu bağlantı 24 saat boyunca geçerlidir.</p>\n            </div>\n            "),
        LinkMail::PasswordReset => ("/auth/sifre-sifirla?token=", "Şifre Sıfırlama Talebi", "\n            <div style=\"font-family: sans-serif; max-width: 600px; margin: 0 auto; padding: 20px;\">\n                <h2 style=\"color: #ff8717;\">Şifre Sıfırlama Talebi</h2>\n                <p>Şifrenizi sıfırlamak için aşağıdaki butona tıklayın:</p>\n                <a href=\"", "\" style=\"display: inline-block; padding: 12px 24px; background-color: #ff8717; color: white; text-decoration: none; border-radius: 6px; font-weight: bold; margin: 20px 0;\">Şifremi Sıfırla</a>\n                <p style=\"color: #666; font-size: 14px;\">Bu bağlantı 1 saat boyunca geçerlidir. Eğer bu talebi siz yapmadıysanız güvenliğiniz için şifrenizi değiştirmeyi düşünebilirsiniz.</p>\n            </div>\n            "),
    }
}

/// The mail of a link of kind `k` carrying `token`, pointing to the site at `base_url`.
pub fn link_mail(k: LinkMail, base_url: &str, token: &str) -> (r: Mail)
    ensures
        r.subject@ == link_subject(k),
        r.html@ == link_head(k) + base_url@ + link_path(k) + token@ + link_tail(k),
{
    let (path, subject, head, tail) = link_texts(k);
    let mut v: Vec<char> = Vec::new();
    extend_str(&mut v, head);
    extend_str(&mut v, base_url);
    extend_str(&mut v, path);
    extend_str(&mut v, token);
    extend_str(&mut v, tail);
    Mail { subject: String::from_str(subject), html: string_from_chars(v.as_slice()) }
}

/// The pieces of a security alert around its holes: user, event, details, time, site.
pub open spec fn alert_pieces() -> Seq<Seq<char>> {
    seq!["\n            <div style=\"font-family: -apple-system, BlinkMacSystemFont, 'Segoe UI', Roboto, sans-serif; max-width: 540px; margin: 0 auto; padding: 24px; background-color: #ffffff; border: 1px solid #e2e8f0; border-radius: 12px;\">\n                <div style=\"margin-bottom: 20px;\">\n                    <h2 style=\"color: #ff8717; margin: 0 0 6px 0; font-size: 20px;\">Kepçe Güvenlik Bildirimi</h2>\n                    <p style=\"color: #475569; font-size: 15px; margin: 0;\">Merhaba <strong>@"@, "</strong>,</p>\n                </div>\n                <div style=\"background-color: #fff7ed; border-left: 4px solid #ff8717; padding: 14px 16px; margin-bottom: 20px; border-radius: 6px;\">\n                    <h3 style=\"margin: 0 0 6px 0; color: #c2410c; font-size: 15px;\">"@, "</h3>\n                    <p style=\"margin: 0; color: #7c2d12; font-size: 14px; line-height: 1.4;\">"@, "</p>\n                    <p style=\"margin: 8px 0 0 0; color: #9a3412; font-size: 12px;\">Zaman: "@, "</p>\n                </div>\n                <p style=\"color: #64748b; font-size: 13px; line-height: 1.5; margin: 0 0 16px 0;\">\n                    Bu işlemi siz gerçekleştirdiyseniz ek bir işlem yapmanıza gerek yoktur. Eğer bu işlem bilginiz dışında gerçekleştiyse lütfen derhal şifrenizi sıfırlayın.\n                </p>\n                <div style=\"border-top: 1px solid #f1f5f9; padding-top: 14px; text-align: center;\">\n                    <a href=\""@, "/ayarlar\" style=\"color: #ff8717; text-decoration: none; font-size: 13px; font-weight: 600;\">Hesap Güvenlik Ayarlarına Git &rarr;</a>\n                </div>\n            </div>\n            "@]
}

/// A security alert to `username` about `event_title`, with its details, the time it
/// happened as the site writes it, and a link to the security settings.
pub fn security_alert(base_url: &str, username: &str, event_title: &str, details: &str, time_text: &str) -> (r: Mail)
    ensures
        r.subject@ == "Kepçe Güvenlik Uyarısı: "@ + event_title@,
        r.html@ == alert_pieces()[0] + username@ + alert_pieces()[1] + event_title@ + alert_pieces()[2] + details@
            + alert_pieces()[3] + time_text@ + alert_pieces()[4] + base_url@ + alert_pieces()[5],
{
    let mut v: Vec<char> = Vec::new();
    extend_str(&mut v, "\n            <div style=\"font-family: -apple-system, BlinkMacSystemFont, 'Segoe UI', Roboto, sans-serif; max-width: 540px; margin: 0 auto; padding: 24px; background-color: #ffffff; border: 1px solid #e2e8f0; border-radius: 12px;\">\n                <div style=\"margin-bottom: 20px;\">\n                    <h2 style=\"color: #ff8717; margin: 0 0 6px 0; font-size: 20px;\">Kepçe Güvenlik Bildirimi</h2>\n                    <p style=\"color: #475569; font-size: 15px; margin: 0;\">Merhaba <strong>@");
    extend_str(&mut v, username);
    extend_str(&mut v, "</strong>,</p>\n                </div>\n                <div style=\"background-color: #fff7ed; border-left: 4px solid #ff8717; padding: 14px 16px; margin-bottom: 20px; border-radius: 6px;\">\n                    <h3 style=\"margin: 0 0 6px 0; color: #c2410c; font-size: 15px;\">");
    extend_str(&mut v, event_title);
    extend_str(&mut v, "</h3>\n                    <p style=\"margin: 0; color: #7c2d12; font-size: 14px; line-height: 1.4;\">");
    extend_str(&mut v, details);
    extend_str(&mut v, "</p>\n                    <p style=\"margin: 8px 0 0 0; color: #9a3412; font-size: 12px;\">Zaman: ");
    extend_str(&mut v, time_text);
    extend_str(&mut v, "</p>\n                </div>\n                <p style=\"color: #64748b; font-size: 13px; line-height: 1.5; margin: 0 0 16px 0;\">\n                    Bu işlemi siz gerçekleştirdiyseniz ek bir işlem yapmanıza gerek yoktur. Eğer bu işlem bilginiz dışında gerçekleştiyse lütfen derhal şifrenizi sıfırlayın.\n                </p>\n                <div style=\"border-top: 1px solid #f1f5f9; padding-top: 14px; text-align: center;\">\n                    <a href=\"");
    extend_str(&mut v, base_url);
    extend_str(&mut v, "/ayarlar\" style=\"color: #ff8717; text-decoration: none; font-size: 13px; font-weight: 600;\">Hesap Güvenlik Ayarlarına Git &rarr;</a>\n                </div>\n            </div>\n            ");
    let mut s: Vec<char> = Vec::new();
    extend_str(&mut s, "Kepçe Güvenlik Uyarısı: ");
    extend_str(&mut s, event_title);
    Mail { subject: string_from_chars(s.as_slice()), html: string_from_chars(v.as_slice()) }
}

} // verus!
