//! The administration API: its reply envelope, paging, and the rules for
//! changing users and topics.
use vstd::prelude::*;
use crate::pagination::PaginationQuery;
use crate::text::same_text;

verus! {

broadcast use vstd::string::group_string_axioms;

/// Reply code of a request that succeeded.
pub const CODE_OK: u32 = 0;

/// Reply code of a request that failed.
pub const CODE_FAIL: u32 = 100;

/// Reply code of a request without a valid administrator token.
pub const CODE_NO_TOKEN: u32 = 99;

/// The envelope of every reply of the administration API.
pub struct Data<T> {
    pub code: u32,
    pub data: Option<T>,
    pub message: Option<String>,
}

impl<T> Data<T> {
    /// A reply with the given parts.
    pub fn new(code: u32, data: Option<T>, message: Option<String>) -> (r: Self)
        ensures
            r.code == code,
            r.data == data,
            r.message == message,
    {
        Data { code, data, message }
    }

    /// A failure carrying `msg`.
    pub fn error(msg: &str) -> (r: Self)
        ensures
            r.code == CODE_FAIL,
            r.data is None,
            r.message matches Some(m) && m@ == msg@,
    {
        Data { code: CODE_FAIL, data: None, message: Some(String::from_str(msg)) }
    }

    /// A success carrying `data`.
    pub fn ok(data: T) -> (r: Self)
        ensures
            r.code == CODE_OK,
            r.data == Some(data),
            r.message matches Some(m) && m@ == "success"@,
    {
        Data { code: CODE_OK, data: Some(data), message: Some(String::from_str("success")) }
    }
}

impl Data<()> {
    /// A failure carrying `msg`, with no data.
    pub fn fail(msg: &str) -> (r: Self)
        ensures
            r.code == CODE_FAIL,
            r.data is None,
            r.message matches Some(m) && m@ == msg@,
    {
        Data { code: CODE_FAIL, data: None, message: Some(String::from_str(msg)) }
    }

    /// A success with no data.
    pub fn done() -> (r: Self)
        ensures
            r.code == CODE_OK,
            r.data is None,
            r.message matches Some(m) && m@ == "success"@,
    {
        Data { code: CODE_OK, data: None, message: Some(String::from_str("success")) }
    }

    /// The reply to a request without a valid token.
    pub fn missing_token() -> (r: Self)
        ensures
            r.code == CODE_NO_TOKEN,
            r.data is None,
            r.message matches Some(m) && m@ == "missing token"@,
    {
        Data { code: CODE_NO_TOKEN, data: None, message: Some(String::from_str("missing token")) }
    }
}

/// The page of a listing asked for in the query string.
pub struct PageExtractor(pub PaginationQuery);

impl PageExtractor {
    /// The page from the `p` and `per_page` parameters: page 1 and 20 per page
    /// where they are missing.
    pub fn from_params(p: Option<u32>, per_page: Option<u32>) -> (r: Self)
        ensures
            r.0.p == (match p {
                Some(v) => v,
                None => 1,
            }),
            r.0.per_page == (match per_page {
                Some(v) => v,
                None => 20,
            }),
    {
        let p = match p {
            Some(v) => v,
            None => 1,
        };
        let per_page = match per_page {
            Some(v) => v,
            None => 20,
        };
        PageExtractor(PaginationQuery { p, per_page })
    }
}

/// Filters of the user list.
pub struct UserSearch {
    pub username: Option<String>,
    pub active: Option<bool>,
    pub role: Option<String>,
}

/// `enable` or `disable`.
pub struct UserStatusForm {
    pub action: String,
}

/// A new role.
pub struct UserRoleForm {
    pub role: String,
}

/// A new password.
pub struct UserPasswordResetForm {
    pub password: String,
}

/// A new account made by an administrator.
pub struct UserCreateForm {
    pub username: String,
    pub email: String,
    pub password: String,
}

/// The id of the first administrator, whose account cannot be changed here.
pub const SUPER_ADMIN_ID: i64 = 1;

/// Why a change to a user is refused.
#[derive(PartialEq, Eq, Structural, Debug, Clone, Copy)]
pub enum UserAdminError {
    /// The first administrator's account is protected.
    SuperAdmin,
    /// The status action is neither `enable` nor `disable`.
    InvalidAction,
    /// The role is not `user`, `moderator` or `administrator`.
    InvalidRole,
}

/// The account `id` may be changed: it is not the first administrator's.
pub fn check_not_super_admin(id: i64) -> (r: Result<(), UserAdminError>)
    ensures
        r == (if id == SUPER_ADMIN_ID {
            Err(UserAdminError::SuperAdmin)
        } else {
            Ok(())
        }),
{
    if id == SUPER_ADMIN_ID {
        Err(UserAdminError::SuperAdmin)
    } else {
        Ok(())
    }
}

/// The new `active` flag of account `id` for a status action.
pub fn status_change(id: i64, action: &str) -> (r: Result<bool, UserAdminError>)
    ensures
        r == (if id == SUPER_ADMIN_ID {
            Err(UserAdminError::SuperAdmin)
        } else if action@ == "enable"@ {
            Ok(true)
        } else if action@ == "disable"@ {
            Ok(false)
        } else {
            Err(UserAdminError::InvalidAction)
        }),
{
    if id == SUPER_ADMIN_ID {
        return Err(UserAdminError::SuperAdmin);
    }
    if same_text(action, "enable") {
        Ok(true)
    } else if same_text(action, "disable") {
        Ok(false)
    } else {
        Err(UserAdminError::InvalidAction)
    }
}

/// The roles an account can have.
pub open spec fn valid_role_spec(role: Seq<char>) -> bool {
    role == "user"@ || role == "moderator"@ || role == "administrator"@
}

/// Whether account `id` may be given `role`.
pub fn check_role_change(id: i64, role: &str) -> (r: Result<(), UserAdminError>)
    ensures
        r == (if id == SUPER_ADMIN_ID {
            Err(UserAdminError::SuperAdmin)
        } else if !valid_role_spec(role@) {
            Err(UserAdminError::InvalidRole)
        } else {
            Ok(())
        }),
{
    if id == SUPER_ADMIN_ID {
        return Err(UserAdminError::SuperAdmin);
    }
    if same_text(role, "user") || same_text(role, "moderator") || same_text(role, "administrator") {
        Ok(())
    } else {
        Err(UserAdminError::InvalidRole)
    }
}

/// Filters of the administrators' topic list.
pub struct TopicSearch {
    pub query: Option<String>,
    pub node_id: Option<i64>,
}

/// `pin`, `unpin`, `lock` or `unlock`.
pub struct TopicUpdateForm {
    pub action: String,
}

/// A change an administrator makes to a topic.
#[derive(PartialEq, Eq, Structural, Debug, Clone, Copy)]
pub enum TopicFlagChange {
    /// Set the pinned flag to the value given.
    Pinned(bool),
    /// Set the locked flag to the value given.
    Locked(bool),
}

/// The flag change named by a topic action, or `None` for an unknown one.
pub fn topic_flag_change(action: &str) -> (r: Option<TopicFlagChange>)
    ensures
        r == (if action@ == "pin"@ {
            Some(TopicFlagChange::Pinned(true))
        } else if action@ == "unpin"@ {
            Some(TopicFlagChange::Pinned(false))
        } else if action@ == "lock"@ {
            Some(TopicFlagChange::Locked(true))
        } else if action@ == "unlock"@ {
            Some(TopicFlagChange::Locked(false))
        } else {
            None
        }),
{
    if same_text(action, "pin") {
        Some(TopicFlagChange::Pinned(true))
    } else if same_text(action, "unpin") {
        Some(TopicFlagChange::Pinned(false))
    } else if same_text(action, "lock") {
        Some(TopicFlagChange::Locked(true))
    } else if same_text(action, "unlock") {
        Some(TopicFlagChange::Locked(false))
    } else {
        None
    }
}

/// A new API token for a bot.
pub struct CreateTokenRequest {
    pub description: String,
    pub user_id: Option<i64>,
}

/// The account a new bot token belongs to: the one named in the request, or
/// the administrator who asks.
pub fn token_owner(req: &CreateTokenRequest, moderator_uid: i64) -> (r: i64)
    ensures
        r == (match req.user_id {
            Some(u) => u,
            None => moderator_uid,
        }),
{
    match req.user_id {
        Some(u) => u,
        None => moderator_uid,
    }
}

/// A test e-mail.
pub struct EmailForm {
    pub email: String,
    pub title: String,
    pub content: String,
}

} // verus!
