//! Request-independent views of the signed-in user and of the page context.
use vstd::prelude::*;
use crate::system::{InjectionConfig, LinkCollection, Website};
use crate::text::{decimal, decimal_spec, prefers_english, priority_language, same_text};
use vstd::string::StringSliceAdditionalSpecFns;

verus! {

/// A stored account. Times are Unix seconds; `last_access_date` is a day
/// number (days since the Unix epoch).
pub struct User {
    pub id: i64,
    pub username: String,
    pub password_hash: String,
    pub email: String,
    pub role: String,
    pub active: bool,
    pub unread_notifications: i64,
    pub credit_score: i64,
    pub coins: i64,
    pub bio: String,
    pub address: String,
    pub timezone: String,
    pub language: String,
    pub public_email: bool,
    pub created_at: i64,
    pub updated_at: i64,
    pub last_access_date: i64,
    pub avatar_timestamp: i64,
}

impl User {
    /// How the account is named in logs: `name(uid: id)`.
    pub fn to_string(&self) -> (r: String)
        ensures
            r@ == self.username@ + "(uid: "@ + decimal_spec(self.id as int) + ")"@,
    {
        let mut s = self.username.clone();
        s.append("(uid: ");
        s.append(decimal(self.id).as_str());
        s.append(")");
        s
    }
}

/// Moderators and administrators may moderate.
pub open spec fn role_can_moderate(role: Seq<char>) -> bool {
    role == "moderator"@ || role == "administrator"@
}

/// Only administrators administrate.
pub open spec fn role_is_admin(role: Seq<char>) -> bool {
    role == "administrator"@
}

/// Whether the role `role` may moderate.
pub fn can_moderate(role: &str) -> (b: bool)
    ensures
        b == role_can_moderate(role@),
{
    same_text(role, "moderator") || same_text(role, "administrator")
}

/// Whether the role `role` is the administrator role.
pub fn is_admin(role: &str) -> (b: bool)
    ensures
        b == role_is_admin(role@),
{
    same_text(role, "administrator")
}

/// The signed-in user as kept in the session. `timezone` is the name of the
/// user's time zone; `last_access_date` is a day number.
pub struct CurrentUser {
    pub id: i64,
    pub username: String,
    pub is_moderator: bool,
    pub is_administrator: bool,
    pub unread_notifications: i64,
    pub timezone: String,
    pub avatar_timestamp: i64,
    pub last_access_date: i64,
}

impl CurrentUser {
    /// The session view of `user`, whose time zone name resolved to `timezone`.
    pub fn from_user(user: &User, timezone: String) -> (r: Self)
        ensures
            r.id == user.id,
            r.username@ == user.username@,
            r.is_moderator == role_can_moderate(user.role@),
            r.is_administrator == role_is_admin(user.role@),
            r.unread_notifications == user.unread_notifications,
            r.timezone@ == timezone@,
            r.avatar_timestamp == user.avatar_timestamp,
            r.last_access_date == user.last_access_date,
    {
        CurrentUser {
            id: user.id,
            username: user.username.clone(),
            is_moderator: can_moderate(user.role.as_str()),
            is_administrator: is_admin(user.role.as_str()),
            unread_notifications: user.unread_notifications,
            timezone,
            avatar_timestamp: user.avatar_timestamp,
            last_access_date: user.last_access_date,
        }
    }
}

/// A value taken from the shared application state.
pub struct GlobalContext<T>(pub T);

/// Something that knows the language a page is shown in.
pub trait LocaleProvider {
    fn locale(&self) -> &str;
}

/// What every page template needs: title, visitor, site settings, time zone
/// name, theme class and language.
pub struct VContext {
    pub title: String,
    pub current_user: Option<CurrentUser>,
    pub website: Website,
    pub links: Vec<LinkCollection>,
    pub injection: InjectionConfig,
    pub timezone: String,
    pub theme: String,
    pub language: String,
}

impl VContext {
    /// Whether the visitor is signed in and may moderate.
    pub fn is_moderator(&self) -> (b: bool)
        ensures
            b == (self.current_user matches Some(u) && u.is_moderator),
    {
        match &self.current_user {
            Some(u) => u.is_moderator,
            None => false,
        }
    }

    /// An empty context: no title or visitor, default site settings, UTC,
    /// the light theme and American English.
    pub fn empty() -> (r: Self)
        ensures
            r.title@.len() == 0,
            r.current_user is None,
            r.links@.len() == 0,
            r.timezone@ == "UTC"@,
            r.theme@ == "theme-light"@,
            r.language@ == "en_US"@,
    {
        VContext {
            title: String::new(),
            current_user: None,
            website: Website::default(),
            links: Vec::new(),
            injection: InjectionConfig::default(),
            timezone: String::from_str("UTC"),
            theme: String::from_str("theme-light"),
            language: String::from_str("en_US"),
        }
    }
}

impl LocaleProvider for VContext {
    /// The page's language.
    fn locale(&self) -> (r: &str)
        ensures
            r@ == self.language@,
    {
        self.language.as_str()
    }
}

/// How long ago something happened, as a page shows it.
#[derive(PartialEq, Eq, Structural, Debug, Clone, Copy)]
pub enum RelativeTime {
    /// More than a week ago, or in the future: show the date and time.
    Absolute,
    /// Less than a minute ago.
    JustNow,
    /// Earlier today, minutes ago.
    MinutesAgo(i64),
    /// Earlier today, hours ago.
    HoursAgo(i64),
    /// Yesterday, at the time shown.
    Yesterday,
    /// The day before yesterday, at the time shown.
    DayBeforeYesterday,
    /// That many calendar days ago: 3 or more, and at most 8, since less than
    /// eight full days have passed (7 days and some hours can span 8
    /// calendar days).
    DaysAgo(i64),
}

/// The display form for something `elapsed_secs` seconds ago that lies
/// `days_diff` calendar days before today in the viewer's time zone.
pub open spec fn relative_time_spec(elapsed_secs: i64, days_diff: i64) -> RelativeTime {
    if elapsed_secs / 86400 > 7 || elapsed_secs < 0 {
        RelativeTime::Absolute
    } else if days_diff == 0 {
        if elapsed_secs < 60 {
            RelativeTime::JustNow
        } else if elapsed_secs < 3600 {
            RelativeTime::MinutesAgo((elapsed_secs / 60) as i64)
        } else {
            RelativeTime::HoursAgo((elapsed_secs / 3600) as i64)
        }
    } else if days_diff == 1 {
        RelativeTime::Yesterday
    } else if days_diff == 2 {
        RelativeTime::DayBeforeYesterday
    } else {
        RelativeTime::DaysAgo(days_diff)
    }
}

/// How long ago something is shown, for every elapsed time and day gap:
/// the date itself for the future and for eight days or more; on the same
/// calendar day, "just now" under a minute, else the whole minutes (1 to
/// 59) under an hour, else the whole hours; then yesterday, the day before,
/// and otherwise the number of calendar days.
pub proof fn relative_time_law(elapsed_secs: i64, days_diff: i64)
    ensures
        ({
            let r = relative_time_spec(elapsed_secs, days_diff);
            &&& (r == RelativeTime::Absolute) <==> (elapsed_secs < 0 || elapsed_secs >= 8 * 86400)
            &&& (0 <= elapsed_secs < 8 * 86400 && days_diff == 0 && elapsed_secs < 60) ==> r
                == RelativeTime::JustNow
            &&& r matches RelativeTime::MinutesAgo(m) ==> days_diff == 0 && 1 <= m <= 59 && m * 60
                <= elapsed_secs < (m + 1) * 60
            &&& r matches RelativeTime::HoursAgo(h) ==> days_diff == 0 && 1 <= h && h * 3600
                <= elapsed_secs < (h + 1) * 3600
            &&& (0 <= elapsed_secs < 8 * 86400 && days_diff == 0 && 60 <= elapsed_secs) ==> (r is MinutesAgo
                || r is HoursAgo)
            &&& (0 <= elapsed_secs < 8 * 86400 && days_diff == 1) ==> r == RelativeTime::Yesterday
            &&& (0 <= elapsed_secs < 8 * 86400 && days_diff == 2) ==> r
                == RelativeTime::DayBeforeYesterday
            &&& (0 <= elapsed_secs < 8 * 86400 && days_diff != 0 && days_diff != 1 && days_diff != 2)
                ==> r == RelativeTime::DaysAgo(days_diff)
        }),
{
}

/// See [`relative_time_spec`].
pub fn relative_time(elapsed_secs: i64, days_diff: i64) -> (r: RelativeTime)
    ensures
        r == relative_time_spec(elapsed_secs, days_diff),
{
    if elapsed_secs < 0 {
        return RelativeTime::Absolute;
    }
    if elapsed_secs / 86400 > 7 {
        return RelativeTime::Absolute;
    }
    if days_diff == 0 {
        if elapsed_secs < 60 {
            RelativeTime::JustNow
        } else if elapsed_secs < 3600 {
            RelativeTime::MinutesAgo(elapsed_secs / 60)
        } else {
            RelativeTime::HoursAgo(elapsed_secs / 3600)
        }
    } else if days_diff == 1 {
        RelativeTime::Yesterday
    } else if days_diff == 2 {
        RelativeTime::DayBeforeYesterday
    } else {
        RelativeTime::DaysAgo(days_diff)
    }
}

/// A message page: error, information or success, with an optional link back.
pub struct ErrorTemplate {
    pub level: &'static str,
    pub message: String,
    pub return_url: Option<String>,
    pub ctx: VContext,
}

impl ErrorTemplate {
    /// An error message.
    pub fn error(message: &str) -> (r: Self)
        ensures
            r.level@ == "error"@,
            r.message@ == message@,
            r.return_url is None,
    {
        ErrorTemplate {
            level: "error",
            message: String::from_str(message),
            return_url: None,
            ctx: VContext::empty(),
        }
    }

    /// An informational message.
    pub fn info(message: &str) -> (r: Self)
        ensures
            r.level@ == "info"@,
            r.message@ == message@,
            r.return_url is None,
    {
        ErrorTemplate {
            level: "info",
            message: String::from_str(message),
            return_url: None,
            ctx: VContext::empty(),
        }
    }

    /// A success message.
    pub fn success(message: &str) -> (r: Self)
        ensures
            r.level@ == "success"@,
            r.message@ == message@,
            r.return_url is None,
    {
        ErrorTemplate {
            level: "success",
            message: String::from_str(message),
            return_url: None,
            ctx: VContext::empty(),
        }
    }

    /// The same message with a link back to `url`.
    pub fn with_return_url(self, url: &str) -> (r: Self)
        ensures
            r.level == self.level,
            r.message == self.message,
            r.return_url matches Some(u) && u@ == url@,
            r.ctx == self.ctx,
    {
        ErrorTemplate { return_url: Some(String::from_str(url)), ..self }
    }

    /// The same message shown in the page context `ctx`.
    pub fn with_context(self, ctx: VContext) -> (r: Self)
        ensures
            r.level == self.level,
            r.message == self.message,
            r.return_url == self.return_url,
            r.ctx == ctx,
    {
        ErrorTemplate { ctx, ..self }
    }
}

/// A page that announces something and then moves on to `url`.
pub struct RedirectTemplate {
    pub tips: String,
    pub url: String,
    pub ctx: VContext,
}

/// Events pushed to connected bots.
#[allow(inconsistent_fields)]
pub enum Message {
    Init,
    NewTopic { id: i64, title: String, username: String, node: String },
    NewComment {
        id: i64,
        topic_id: String,
        topic_title: String,
        username: String,
        node: String,
        content: String,
    },
    TopicAt { id: i64, username: String, content: String },
    CommentAt { id: i64, topic_id: i64, username: String, content: String },
}

/// The theme of a page: the `theme` cookie, `light` without one.
pub fn choose_theme(cookie: Option<&str>) -> (r: &str)
    ensures
        r@ == (match cookie {
            Some(c) => c@,
            None => "light"@,
        }),
{
    match cookie {
        Some(c) => c,
        None => "light",
    }
}

/// The language of a page: the `language` cookie; without one, the choice
/// made from the `Accept-Language` header; without that, `en_US`.
pub fn choose_language(cookie: Option<&str>, accept_language: Option<&str>) -> (r: String)
    ensures
        match cookie {
            Some(c) => r@ == c@,
            None => match accept_language {
                Some(h) => r@ == (if prefers_english(h.spec_bytes()) {
                    "en_US"@
                } else {
                    "zh_CN"@
                }),
                None => r@ == "en_US"@,
            },
        },
{
    match cookie {
        Some(c) => String::from_str(c),
        None => match accept_language {
            Some(h) => String::from_str(priority_language(h)),
            None => String::from_str("en_US"),
        },
    }
}

} // verus!
