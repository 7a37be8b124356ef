//! Notifications that members receive.
use vstd::prelude::*;

verus! {

broadcast use vstd::string::group_string_axioms;

/// A notification to be stored for a member: its kind (`category`), the
/// markup shown, the topic it links to, and optional JSON details.
pub struct Notify {
    pub user_id: i64,
    pub category: String,
    pub content: String,
    pub link_id: i64,
    pub meta: Option<String>,
}

/// A stored notification.
pub struct Notification {
    pub id: i64,
    pub user_id: i64,
    /// Seconds since the Unix epoch.
    pub created_at: i64,
    pub category: String,
    pub link_id: i64,
    pub content: String,
    pub meta: Option<String>,
}

/// Filters of a member's notifications.
pub struct NotificationSearch {
    pub user_id: i64,
    pub category: Option<String>,
}

impl Default for NotificationSearch {
    /// Member 0, every kind.
    fn default() -> (r: Self)
        ensures
            r.user_id == 0,
            r.category is None,
    {
        NotificationSearch { user_id: 0, category: None }
    }
}

impl Notify {
    fn with_category(user_id: i64, category: &str, content: String, link_id: i64) -> (r: Self)
        ensures
            r.user_id == user_id,
            r.category@ == category@,
            r.content@ == content@,
            r.link_id == link_id,
            r.meta is None,
    {
        Notify { user_id, category: String::from_str(category), content, link_id, meta: None }
    }

    /// Tells the author of topic `topic_id` of a reply.
    pub fn reply(user_id: i64, topic_id: i64, content: String) -> (r: Self)
        ensures
            r.user_id == user_id,
            r.category@ == "topic.reply"@,
            r.content@ == content@,
            r.link_id == topic_id,
            r.meta is None,
    {
        Self::with_category(user_id, "topic.reply", content, topic_id)
    }

    /// Tells the author that topic `topic_id` was moved.
    pub fn topic_move(user_id: i64, topic_id: i64, content: String) -> (r: Self)
        ensures
            r.user_id == user_id,
            r.category@ == "topic.move"@,
            r.content@ == content@,
            r.link_id == topic_id,
            r.meta is None,
    {
        Self::with_category(user_id, "topic.move", content, topic_id)
    }

    /// Tells the author that their reply under topic `topic_id` was removed.
    pub fn comment_delete(user_id: i64, topic_id: i64, content: String) -> (r: Self)
        ensures
            r.user_id == user_id,
            r.category@ == "comment.delete"@,
            r.content@ == content@,
            r.link_id == topic_id,
            r.meta is None,
    {
        Self::with_category(user_id, "comment.delete", content, topic_id)
    }

    /// Tells a member that they were mentioned in topic or reply `link_id`.
    pub fn at_user(user_id: i64, link_id: i64, content: String) -> (r: Self)
        ensures
            r.user_id == user_id,
            r.category@ == "topic.at_user"@,
            r.content@ == content@,
            r.link_id == link_id,
            r.meta is None,
    {
        Self::with_category(user_id, "topic.at_user", content, link_id)
    }
}

/// How long the notice of a mention in a reply waits, in seconds, so that
/// automatic moderation can remove the reply first.
pub const REPLY_MENTION_DELAY_SECS: u64 = 30;

} // verus!
