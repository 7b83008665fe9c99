//! The failures of each service, and the client-facing error each one becomes.
//! Storage and network failures carry the underlying error's text, which is logged
//! and never shown to the client.

use vstd::prelude::*;
use vstd::string::StringExecFns;
use crate::error::{AppError, ErrorKind};

verus! {

#[derive(Debug)]
pub enum UserError {
    NotFound,
    DatabaseError(String),
}

impl UserError {
    pub open spec fn spec_app_error(&self) -> (ErrorKind, Seq<char>) {
        match self {
            UserError::NotFound => (ErrorKind::NotFound, "User not found"@),
            UserError::DatabaseError(_) => (ErrorKind::Internal, "Database error"@),
        }
    }

    pub fn into_app_error(self) -> (e: AppError)
        ensures
            e@ == self.spec_app_error(),
    {
        match self {
            UserError::NotFound => AppError::with_text(ErrorKind::NotFound, "User not found"),
            UserError::DatabaseError(_) => AppError::with_text(ErrorKind::Internal, "Database error"),
        }
    }
}

#[derive(Debug)]
pub enum DeveloperError {
    NotFound,
    Unauthorized,
    UnverifiedUser,
    DatabaseError(String),
    InvalidInput(String),
}

impl DeveloperError {
    pub open spec fn spec_app_error(&self) -> (ErrorKind, Seq<char>) {
        match self {
            DeveloperError::NotFound => (ErrorKind::NotFound, "Bulunamadı"@),
            DeveloperError::Unauthorized => (ErrorKind::Forbidden, "Yetkisiz işlem"@),
            DeveloperError::UnverifiedUser => (
                ErrorKind::Forbidden,
                "Proje veya API anahtarı oluşturmak için e-postanızı onaylamalısınız."@,
            ),
            DeveloperError::InvalidInput(m) => (ErrorKind::BadRequest, m@),
            DeveloperError::DatabaseError(_) => (ErrorKind::Internal, "Veritabanı hatası"@),
        }
    }

    pub fn into_app_error(self) -> (e: AppError)
        ensures
            e@ == self.spec_app_error(),
    {
        match self {
            DeveloperError::NotFound => AppError::with_text(ErrorKind::NotFound, "Bulunamadı"),
            DeveloperError::Unauthorized => AppError::with_text(ErrorKind::Forbidden, "Yetkisiz işlem"),
            DeveloperError::UnverifiedUser => AppError::with_text(
                ErrorKind::Forbidden,
                "Proje veya API anahtarı oluşturmak için e-postanızı onaylamalısınız.",
            ),
            DeveloperError::InvalidInput(m) => AppError::new(ErrorKind::BadRequest, m),
            DeveloperError::DatabaseError(_) => AppError::with_text(ErrorKind::Internal, "Veritabanı hatası"),
        }
    }
}

#[derive(Debug)]
pub enum AuthError {
    UserAlreadyExists,
    InvalidCredentials,
    /// The account is banned or suspended.
    AccountDisabled,
    DatabaseError(String),
    HashError(String),
    TokenError(String),
}

impl AuthError {
    pub open spec fn spec_app_error(&self) -> (ErrorKind, Seq<char>) {
        match self {
            AuthError::UserAlreadyExists => (
                ErrorKind::BadRequest,
                "Bu e-posta veya kullanıcı adı sisteme zaten kayıtlı."@,
            ),
            AuthError::InvalidCredentials => (
                ErrorKind::Unauthorized,
                "Giriş bilgileri hatalı. Lütfen bilgilerinizi kontrol edin."@,
            ),
            AuthError::AccountDisabled => (
                ErrorKind::Forbidden,
                "Hesabınız askıya alınmış veya yasaklanmış. Destek ile iletişime geçin."@,
            ),
            AuthError::DatabaseError(_) => (
                ErrorKind::Internal,
                "Veritabanına ulaşılamıyor. Lütfen daha sonra tekrar deneyin."@,
            ),
            AuthError::HashError(_) => (
                ErrorKind::Internal,
                "Güvenlik modülü yanıt vermiyor. Lütfen daha sonra tekrar deneyin."@,
            ),
            AuthError::TokenError(_) => (
                ErrorKind::Internal,
                "Oturum anahtarı oluşturulamadı. Lütfen daha sonra tekrar deneyin."@,
            ),
        }
    }

    pub fn into_app_error(self) -> (e: AppError)
        ensures
            e@ == self.spec_app_error(),
    {
        match self {
            AuthError::UserAlreadyExists => AppError::with_text(
                ErrorKind::BadRequest,
                "Bu e-posta veya kullanıcı adı sisteme zaten kayıtlı.",
            ),
            AuthError::InvalidCredentials => AppError::with_text(
                ErrorKind::Unauthorized,
                "Giriş bilgileri hatalı. Lütfen bilgilerinizi kontrol edin.",
            ),
            AuthError::AccountDisabled => AppError::with_text(
                ErrorKind::Forbidden,
                "Hesabınız askıya alınmış veya yasaklanmış. Destek ile iletişime geçin.",
            ),
            AuthError::DatabaseError(_) => AppError::with_text(
                ErrorKind::Internal,
                "Veritabanına ulaşılamıyor. Lütfen daha sonra tekrar deneyin.",
            ),
            AuthError::HashError(_) => AppError::with_text(
                ErrorKind::Internal,
                "Güvenlik modülü yanıt vermiyor. Lütfen daha sonra tekrar deneyin.",
            ),
            AuthError::TokenError(_) => AppError::with_text(
                ErrorKind::Internal,
                "Oturum anahtarı oluşturulamadı. Lütfen daha sonra tekrar deneyin.",
            ),
        }
    }
}

#[derive(Debug)]
pub enum ModerationError {
    CommentNotFound,
    UserNotFound,
    SelfBlockNotAllowed,
    SelfReportNotAllowed,
    AlreadyReported,
    AlreadyBlocked,
    CommentAlreadyDeleted,
    DatabaseError(String),
    CityNotFound,
    NoMenusForMonth,
    InvalidMonth(String),
    DateParseError(String),
}

impl ModerationError {
    pub open spec fn spec_app_error(&self) -> (ErrorKind, Seq<char>) {
        match self {
            ModerationError::UserNotFound => (ErrorKind::NotFound, "User not found"@),
            ModerationError::CommentNotFound => (ErrorKind::NotFound, "Comment not found"@),
            ModerationError::SelfBlockNotAllowed => (ErrorKind::BadRequest, "Cannot block yourself"@),
            ModerationError::SelfReportNotAllowed => (ErrorKind::BadRequest, "Cannot report yourself"@),
            ModerationError::AlreadyReported => (ErrorKind::BadRequest, "Already reported"@),
            ModerationError::AlreadyBlocked => (ErrorKind::BadRequest, "Already blocked"@),
            ModerationError::CommentAlreadyDeleted => (ErrorKind::BadRequest, "Comment already deleted"@),
            ModerationError::DatabaseError(_) => (ErrorKind::Internal, "Database error"@),
            ModerationError::CityNotFound => (ErrorKind::NotFound, "Şehir bulunamadı"@),
            ModerationError::NoMenusForMonth => (ErrorKind::NotFound, "Bu ay için onaylı menü bulunamadı"@),
            ModerationError::InvalidMonth(m) => (ErrorKind::BadRequest, "Geçersiz ay formatı: "@ + m@),
            ModerationError::DateParseError(d) => (ErrorKind::BadRequest, "Tarih çözümlenemedi: "@ + d@),
        }
    }

    pub fn into_app_error(self) -> (e: AppError)
        ensures
            e@ == self.spec_app_error(),
    {
        match self {
            ModerationError::UserNotFound => AppError::with_text(ErrorKind::NotFound, "User not found"),
            ModerationError::CommentNotFound => AppError::with_text(ErrorKind::NotFound, "Comment not found"),
            ModerationError::SelfBlockNotAllowed => AppError::with_text(ErrorKind::BadRequest, "Cannot block yourself"),
            ModerationError::SelfReportNotAllowed => AppError::with_text(ErrorKind::BadRequest, "Cannot report yourself"),
            ModerationError::AlreadyReported => AppError::with_text(ErrorKind::BadRequest, "Already reported"),
            ModerationError::AlreadyBlocked => AppError::with_text(ErrorKind::BadRequest, "Already blocked"),
            ModerationError::CommentAlreadyDeleted => AppError::with_text(ErrorKind::BadRequest, "Comment already deleted"),
            ModerationError::DatabaseError(_) => AppError::with_text(ErrorKind::Internal, "Database error"),
            ModerationError::CityNotFound => AppError::with_text(ErrorKind::NotFound, "Şehir bulunamadı"),
            ModerationError::NoMenusForMonth => AppError::with_text(
                ErrorKind::NotFound,
                "Bu ay için onaylı menü bulunamadı",
            ),
            ModerationError::InvalidMonth(m) => AppError::new(
                ErrorKind::BadRequest,
                String::from_str("Geçersiz ay formatı: ").concat(m.as_str()),
            ),
            ModerationError::DateParseError(d) => AppError::new(
                ErrorKind::BadRequest,
                String::from_str("Tarih çözümlenemedi: ").concat(d.as_str()),
            ),
        }
    }
}

#[derive(Debug)]
pub enum IngestionError {
    CityNotFound,
    InvalidInput(String),
    FileTooLarge,
    TooManyFiles,
    InvalidFileType(String),
    IoError(String),
    DatabaseError(String),
}

impl IngestionError {
    pub open spec fn spec_app_error(&self) -> (ErrorKind, Seq<char>) {
        match self {
            IngestionError::CityNotFound => (ErrorKind::BadRequest, "Geçersiz şehir seçimi"@),
            IngestionError::InvalidInput(m) => (ErrorKind::BadRequest, m@),
            IngestionError::FileTooLarge => (ErrorKind::BadRequest, "Dosya boyutu çok büyük (Maks 20MB)"@),
            IngestionError::TooManyFiles => (ErrorKind::BadRequest, "En fazla 5 dosya gönderilebilir"@),
            IngestionError::InvalidFileType(n) => (
                ErrorKind::BadRequest,
                n@ + ": Geçersiz dosya formatı veya içeriği"@,
            ),
            IngestionError::IoError(_) => (ErrorKind::Internal, "Dosya kaydedilemedi"@),
            IngestionError::DatabaseError(_) => (ErrorKind::Internal, "Veritabanı hatası"@),
        }
    }

    pub fn into_app_error(self) -> (e: AppError)
        ensures
            e@ == self.spec_app_error(),
    {
        match self {
            IngestionError::CityNotFound => AppError::with_text(ErrorKind::BadRequest, "Geçersiz şehir seçimi"),
            IngestionError::InvalidInput(m) => AppError::new(ErrorKind::BadRequest, m),
            IngestionError::FileTooLarge => AppError::with_text(
                ErrorKind::BadRequest,
                "Dosya boyutu çok büyük (Maks 20MB)",
            ),
            IngestionError::TooManyFiles => AppError::with_text(
                ErrorKind::BadRequest,
                "En fazla 5 dosya gönderilebilir",
            ),
            IngestionError::InvalidFileType(n) => AppError::new(
                ErrorKind::BadRequest,
                n.concat(": Geçersiz dosya formatı veya içeriği"),
            ),
            IngestionError::IoError(_) => AppError::with_text(ErrorKind::Internal, "Dosya kaydedilemedi"),
            IngestionError::DatabaseError(_) => AppError::with_text(ErrorKind::Internal, "Veritabanı hatası"),
        }
    }
}

#[derive(Debug)]
pub enum StatsError {
    DatabaseError(String),
}

impl StatsError {
    pub open spec fn spec_app_error(&self) -> (ErrorKind, Seq<char>) {
        (ErrorKind::Internal, "Database error"@)
    }

    pub fn into_app_error(self) -> (e: AppError)
        ensures
            e@ == self.spec_app_error(),
    {
        AppError::with_text(ErrorKind::Internal, "Database error")
    }
}

/// Failures of the AI comment generator.
#[derive(Debug)]
pub enum BotError {
    NetworkError(String),
    ApiError(String),
}

impl BotError {
    pub open spec fn spec_app_error(&self) -> (ErrorKind, Seq<char>) {
        (ErrorKind::Internal, "AI yorum üretilemedi"@)
    }

    pub fn into_app_error(self) -> (e: AppError)
        ensures
            e@ == self.spec_app_error(),
    {
        AppError::with_text(ErrorKind::Internal, "AI yorum üretilemedi")
    }
}

#[derive(Debug)]
pub enum MenuError {
    NotFound,
    DatabaseError(String),
}

impl MenuError {
    pub open spec fn spec_app_error(&self) -> (ErrorKind, Seq<char>) {
        match self {
            MenuError::NotFound => (ErrorKind::NotFound, "Menu not found"@),
            MenuError::DatabaseError(_) => (ErrorKind::Internal, "Database error"@),
        }
    }

    pub fn into_app_error(self) -> (e: AppError)
        ensures
            e@ == self.spec_app_error(),
    {
        match self {
            MenuError::NotFound => AppError::with_text(ErrorKind::NotFound, "Menu not found"),
            MenuError::DatabaseError(_) => AppError::with_text(ErrorKind::Internal, "Database error"),
        }
    }
}

#[derive(Debug)]
pub enum VoteError {
    DatabaseError(String),
    MenuNotFound,
    UnverifiedUser,
}

impl VoteError {
    pub open spec fn spec_app_error(&self) -> (ErrorKind, Seq<char>) {
        match self {
            VoteError::MenuNotFound => (ErrorKind::NotFound, "Menu not found"@),
            VoteError::UnverifiedUser => (ErrorKind::Forbidden, "Oy vermek için e-postanızı onaylamalısınız."@),
            VoteError::DatabaseError(_) => (ErrorKind::Internal, "Database error"@),
        }
    }

    pub fn into_app_error(self) -> (e: AppError)
        ensures
            e@ == self.spec_app_error(),
    {
        match self {
            VoteError::MenuNotFound => AppError::with_text(ErrorKind::NotFound, "Menu not found"),
            VoteError::UnverifiedUser => AppError::with_text(
                ErrorKind::Forbidden,
                "Oy vermek için e-postanızı onaylamalısınız.",
            ),
            VoteError::DatabaseError(_) => AppError::with_text(ErrorKind::Internal, "Database error"),
        }
    }
}

#[derive(Debug)]
pub enum CommentError {
    UserNotFound,
    UnverifiedUser,
    MenuNotFound,
    DishNotFound,
    DishNotInMenu,
    ParentCommentNotFound,
    InvalidOperation,
    SpamDetected,
    DatabaseError(String),
}

impl CommentError {
    pub open spec fn spec_app_error(&self) -> (ErrorKind, Seq<char>) {
        match self {
            CommentError::MenuNotFound => (ErrorKind::NotFound, "Menü bulunamadı ya da zaten hiç var olmamıştı."@),
            CommentError::UserNotFound => (ErrorKind::NotFound, "Kullanıcı bulunamadı."@),
            CommentError::UnverifiedUser => (ErrorKind::Forbidden, "Yorum yapmak için e-postanızı onaylamalısınız."@),
            CommentError::DishNotFound => (ErrorKind::NotFound, "Yemek bulunamadı"@),
            CommentError::DishNotInMenu => (ErrorKind::BadRequest, "Menüde bu yemek mevcut değil"@),
            CommentError::ParentCommentNotFound => (ErrorKind::NotFound, "Baş yorum bulunamadı"@),
            CommentError::InvalidOperation => (ErrorKind::BadRequest, "Geçersiz işlem"@),
            CommentError::SpamDetected => (ErrorKind::BadRequest, "Bu içerik spam olarak işaretlendi."@),
            CommentError::DatabaseError(_) => (ErrorKind::Internal, "Veritabanı hatası"@),
        }
    }

    pub fn into_app_error(self) -> (e: AppError)
        ensures
            e@ == self.spec_app_error(),
    {
        match self {
            CommentError::MenuNotFound => AppError::with_text(
                ErrorKind::NotFound,
                "Menü bulunamadı ya da zaten hiç var olmamıştı.",
            ),
            CommentError::UserNotFound => AppError::with_text(ErrorKind::NotFound, "Kullanıcı bulunamadı."),
            CommentError::UnverifiedUser => AppError::with_text(
                ErrorKind::Forbidden,
                "Yorum yapmak için e-postanızı onaylamalısınız.",
            ),
            CommentError::DishNotFound => AppError::with_text(ErrorKind::NotFound, "Yemek bulunamadı"),
            CommentError::DishNotInMenu => AppError::with_text(ErrorKind::BadRequest, "Menüde bu yemek mevcut değil"),
            CommentError::ParentCommentNotFound => AppError::with_text(ErrorKind::NotFound, "Baş yorum bulunamadı"),
            CommentError::InvalidOperation => AppError::with_text(ErrorKind::BadRequest, "Geçersiz işlem"),
            CommentError::SpamDetected => AppError::with_text(
                ErrorKind::BadRequest,
                "Bu içerik spam olarak işaretlendi.",
            ),
            CommentError::DatabaseError(_) => AppError::with_text(ErrorKind::Internal, "Veritabanı hatası"),
        }
    }
}

#[derive(Debug)]
pub enum ReactionError {
    CommentNotFound,
    Unauthorized,
    UnverifiedUser,
    InvalidOperation,
    DatabaseError(String),
}

impl ReactionError {
    pub open spec fn spec_app_error(&self) -> (ErrorKind, Seq<char>) {
        match self {
            ReactionError::CommentNotFound => (ErrorKind::NotFound, "Comment not found"@),
            ReactionError::Unauthorized => (ErrorKind::Unauthorized, "Unauthorized to modify this comment"@),
            ReactionError::UnverifiedUser => (ErrorKind::Forbidden, "Oy kullanmak için e-postanızı onaylamalısınız."@),
            ReactionError::InvalidOperation => (ErrorKind::BadRequest, "Bu içerik üzerinde işlem yapılamaz."@),
            ReactionError::DatabaseError(_) => (ErrorKind::Internal, "Database error"@),
        }
    }

    pub fn into_app_error(self) -> (e: AppError)
        ensures
            e@ == self.spec_app_error(),
    {
        match self {
            ReactionError::CommentNotFound => AppError::with_text(ErrorKind::NotFound, "Comment not found"),
            ReactionError::Unauthorized => AppError::with_text(
                ErrorKind::Unauthorized,
                "Unauthorized to modify this comment",
            ),
            ReactionError::UnverifiedUser => AppError::with_text(
                ErrorKind::Forbidden,
                "Oy kullanmak için e-postanızı onaylamalısınız.",
            ),
            ReactionError::InvalidOperation => AppError::with_text(
                ErrorKind::BadRequest,
                "Bu içerik üzerinde işlem yapılamaz.",
            ),
            ReactionError::DatabaseError(_) => AppError::with_text(ErrorKind::Internal, "Database error"),
        }
    }
}

} // verus!
