//! Notifications: which kinds a user's preferences let through, what the web push of a
//! notification carries, and how a browser's push subscription is recorded.

use vstd::prelude::*;
use vstd::string::StringExecFns;
use crate::error::{AppError, ErrorKind};
use crate::assistant::str_is;
use crate::text::{trim, spec_trim, extend_str, string_from_chars};

verus! {

/// Whether a user with these preferences gets a notification of kind `kind`: replies
/// and comments follow the reply switch; interactions, likes and favourites the
/// interaction switch; system, moderation, announcement and achievement notices the
/// system switch; any other kind always goes through.
pub open spec fn spec_allowed(kind: Seq<char>, replies: bool, interactions: bool, system: bool) -> bool {
    if kind == "reply"@ || kind == "comment"@ {
        replies
    } else if kind == "interaction"@ || kind == "like"@ || kind == "favorite"@ {
        interactions
    } else if kind == "system"@ || kind == "moderation"@ || kind == "announcement"@ || kind == "achievement"@ {
        system
    } else {
        true
    }
}

/// Decides whether a notification reaches the user.
pub fn notification_allowed(kind: &str, replies: bool, interactions: bool, system: bool) -> (r: bool)
    ensures
        r == spec_allowed(kind@, replies, interactions, system),
{
    if str_is(kind, "reply") || str_is(kind, "comment") {
        replies
    } else if str_is(kind, "interaction") || str_is(kind, "like") || str_is(kind, "favorite") {
        interactions
    } else if str_is(kind, "system") || str_is(kind, "moderation") || str_is(kind, "announcement") || str_is(kind, "achievement") {
        system
    } else {
        true
    }
}

/// The web push of a notification.
pub struct PushPayload {
    pub title: String,
    pub body: String,
    pub icon: Option<String>,
    pub badge: Option<String>,
    pub tag: Option<String>,
    pub url: Option<String>,
}

/// Writes the web push of a notification: the site's icon and badge, and a tag per
/// kind so that a newer notice of a kind replaces the older one.
pub fn push_payload(kind: &str, title: String, message: String, action_href: Option<String>) -> (r: PushPayload)
    ensures
        r.title == title && r.body == message && r.url == action_href,
        r.icon matches Some(i) && i@ == "/icons/icon-192.png"@,
        r.badge matches Some(b) && b@ == "/icons/badge-72.png"@,
        r.tag matches Some(t) && t@ == "notif-"@ + kind@,
{
    let mut tag: Vec<char> = Vec::new();
    extend_str(&mut tag, "notif-");
    extend_str(&mut tag, kind);
    PushPayload {
        title,
        body: message,
        icon: Some(String::from_str("/icons/icon-192.png")),
        badge: Some(String::from_str("/icons/badge-72.png")),
        tag: Some(string_from_chars(tag.as_slice())),
        url: action_href,
    }
}

/// A browser's push subscription, as stored.
pub struct PushSubscription {
    pub user_id: Option<u128>,
    pub city_id: Option<i32>,
    pub endpoint: String,
    pub p256dh: String,
    pub auth: String,
    pub breakfast_enabled: bool,
    pub breakfast_time: String,
    pub dinner_enabled: bool,
    pub dinner_time: String,
    pub user_agent: Option<String>,
}

/// A subscription request.
pub struct SubscribeRequest {
    pub endpoint: String,
    pub p256dh: String,
    pub auth: String,
    pub city_id: Option<i32>,
    pub breakfast_enabled: Option<bool>,
    pub breakfast_time: Option<String>,
    pub dinner_enabled: Option<bool>,
    pub dinner_time: Option<String>,
    pub user_agent: Option<String>,
}

/// A request whose endpoint or keys are blank is refused.
pub open spec fn request_blank(req: &SubscribeRequest) -> bool {
    spec_trim(req.endpoint@).len() == 0 || spec_trim(req.p256dh@).len() == 0 || spec_trim(req.auth@).len() == 0
}

/// Records a subscription request: a new endpoint gets a subscription with both meal
/// reminders on (breakfast 07:30, dinner 17:00) unless asked otherwise; a known one keeps
/// what the request does not change and takes the new keys.
pub fn subscribe(existing: Option<PushSubscription>, req: SubscribeRequest, user: Option<u128>) -> (r: Result<PushSubscription, AppError>)
    ensures
        request_blank(&req) ==> (r matches Err(e) && e@ == (ErrorKind::BadRequest, "Geçersiz push abonelik bilgileri."@)),
        !request_blank(&req) ==> (r matches Ok(s) && {
            &&& s.p256dh == req.p256dh && s.auth == req.auth
            &&& match existing {
                None => {
                    &&& s.user_id == user && s.city_id == req.city_id && s.endpoint == req.endpoint
                    &&& s.breakfast_enabled == (match req.breakfast_enabled { Some(b) => b, None => true })
                    &&& s.breakfast_time@ == (match req.breakfast_time { Some(t) => t@, None => "07:30"@ })
                    &&& s.dinner_enabled == (match req.dinner_enabled { Some(b) => b, None => true })
                    &&& s.dinner_time@ == (match req.dinner_time { Some(t) => t@, None => "17:00"@ })
                    &&& s.user_agent == req.user_agent
                },
                Some(old_sub) => {
                    &&& s.endpoint == old_sub.endpoint
                    &&& s.user_id == (if user is Some { user } else { old_sub.user_id })
                    &&& s.city_id == (if req.city_id is Some { req.city_id } else { old_sub.city_id })
                    &&& s.breakfast_enabled == (match req.breakfast_enabled { Some(b) => b, None => old_sub.breakfast_enabled })
                    &&& s.breakfast_time == (match req.breakfast_time { Some(t) => t, None => old_sub.breakfast_time })
                    &&& s.dinner_enabled == (match req.dinner_enabled { Some(b) => b, None => old_sub.dinner_enabled })
                    &&& s.dinner_time == (match req.dinner_time { Some(t) => t, None => old_sub.dinner_time })
                    &&& s.user_agent == (if req.user_agent is Some { req.user_agent } else { old_sub.user_agent })
                },
            }
        }),
{
    if trim(req.endpoint.as_str()).len() == 0 || trim(req.p256dh.as_str()).len() == 0 || trim(req.auth.as_str()).len() == 0 {
        return Err(AppError::with_text(ErrorKind::BadRequest, "Geçersiz push abonelik bilgileri."));
    }
    let SubscribeRequest { endpoint, p256dh, auth, city_id, breakfast_enabled, breakfast_time, dinner_enabled, dinner_time, user_agent } = req;
    match existing {
        None => Ok(PushSubscription {
            user_id: user,
            city_id,
            endpoint,
            p256dh,
            auth,
            breakfast_enabled: match breakfast_enabled { Some(b) => b, None => true },
            breakfast_time: match breakfast_time { Some(t) => t, None => String::from_str("07:30") },
            dinner_enabled: match dinner_enabled { Some(b) => b, None => true },
            dinner_time: match dinner_time { Some(t) => t, None => String::from_str("17:00") },
            user_agent,
        }),
        Some(old_sub) => {
            let mut s = old_sub;
            if user.is_some() {
                s.user_id = user;
            }
            if city_id.is_some() {
                s.city_id = city_id;
            }
            s.p256dh = p256dh;
            s.auth = auth;
            if let Some(b) = breakfast_enabled {
                s.breakfast_enabled = b;
            }
            if let Some(t) = breakfast_time {
                s.breakfast_time = t;
            }
            if let Some(b) = dinner_enabled {
                s.dinner_enabled = b;
            }
            if let Some(t) = dinner_time {
                s.dinner_time = t;
            }
            if user_agent.is_some() {
                s.user_agent = user_agent;
            }
            Ok(s)
        },
    }
}

} // verus!
