//! Account rules: who may register, login throttling, and password hashes.
use vstd::prelude::*;
use argon2::{PasswordHasher, PasswordVerifier};
use vstd::string::StringSliceAdditionalSpecFns;
use crate::common::{role_is_admin, User};
use crate::common::VContext;
use crate::system::RegisterConfig;
use crate::text::{
    contains, ends_with, has_prefix, has_suffix, is_valid_username, same_text, seq_contains,
    starts_with, trim, trim_spec, valid_username_spec,
};

verus! {

broadcast use vstd::string::group_string_axioms;

/// Why a new account is refused.
#[derive(PartialEq, Eq, Structural, Debug, Clone, Copy)]
pub enum RegisterError {
    /// The e-mail address is blank.
    EmailRequired,
    /// The user name is not words of letters and digits joined by `_`.
    UsernameFormat,
    /// The user name is shorter (in bytes) than the minimum given.
    UsernameTooShort(i64),
    /// The user name is longer (in bytes) than the maximum given.
    UsernameTooLong(i64),
    /// The password is shorter (in bytes) than the minimum given.
    PasswordTooShort(usize),
    /// An invitation code is required and none was given.
    InviteCodeRequired,
}

/// `name` is one of `names`.
pub open spec fn names_hold(names: Seq<String>, name: Seq<char>) -> bool {
    exists|i: int| 0 <= i < names.len() && #[trigger] names[i]@ == name
}

/// `name` begins with one of `prefixes`.
pub open spec fn prefixes_hold(prefixes: Seq<String>, name: Seq<char>) -> bool {
    exists|i: int| 0 <= i < prefixes.len() && starts_with(name, #[trigger] prefixes[i]@)
}

/// `name` ends with one of `suffixes`.
pub open spec fn suffixes_hold(suffixes: Seq<String>, name: Seq<char>) -> bool {
    exists|i: int| 0 <= i < suffixes.len() && ends_with(name, #[trigger] suffixes[i]@)
}

/// A user name that the settings list as reserved: a reserved name, or one
/// that begins with a reserved prefix or ends with a reserved suffix.  The
/// registration rules do not consult it.
pub open spec fn reserved_name_spec(cfg: RegisterConfig, name: Seq<char>) -> bool {
    names_hold(cfg.reserved_username@, name) || prefixes_hold(cfg.reserved_prefix@, name)
        || suffixes_hold(cfg.reserved_suffix@, name)
}

/// The first rule a new account breaks, checked in this order: blank e-mail,
/// malformed user name, user name too short, too long, password too short.
/// `ulen` and `plen` are the byte lengths of the user name and password.
pub open spec fn account_error_spec(
    cfg: RegisterConfig,
    username: Seq<char>,
    ulen: usize,
    email: Seq<char>,
    plen: usize,
) -> Option<RegisterError> {
    if trim_spec(email).len() == 0 {
        Some(RegisterError::EmailRequired)
    } else if !valid_username_spec(username) {
        Some(RegisterError::UsernameFormat)
    } else if cfg.min_username > (ulen as i64) {
        Some(RegisterError::UsernameTooShort(cfg.min_username))
    } else if cfg.max_username < (ulen as i64) {
        Some(RegisterError::UsernameTooLong(cfg.max_username))
    } else if plen < cfg.min_password_len {
        Some(RegisterError::PasswordTooShort(cfg.min_password_len))
    } else {
        None
    }
}

/// Whether `name` is one of `names`.
fn is_listed(names: &Vec<String>, name: &str) -> (b: bool)
    ensures
        b == names_hold(names@, name@),
{
    let mut i: usize = 0;
    while i < names.len()
        invariant
            i <= names@.len(),
            forall|k: int| 0 <= k < i ==> #[trigger] names@[k]@ != name@,
        decreases names.len() - i,
    {
        if same_text(names[i].as_str(), name) {
            return true;
        }
        i = i + 1;
    }
    false
}

/// Whether `name` begins with one of `prefixes`.
fn has_listed_prefix(prefixes: &Vec<String>, name: &str) -> (b: bool)
    ensures
        b == prefixes_hold(prefixes@, name@),
{
    let mut i: usize = 0;
    while i < prefixes.len()
        invariant
            i <= prefixes@.len(),
            forall|k: int| 0 <= k < i ==> !starts_with(name@, #[trigger] prefixes@[k]@),
        decreases prefixes.len() - i,
    {
        if has_prefix(name, prefixes[i].as_str()) {
            return true;
        }
        i = i + 1;
    }
    false
}

/// Whether `name` ends with one of `suffixes`.
fn has_listed_suffix(suffixes: &Vec<String>, name: &str) -> (b: bool)
    ensures
        b == suffixes_hold(suffixes@, name@),
{
    let mut i: usize = 0;
    while i < suffixes.len()
        invariant
            i <= suffixes@.len(),
            forall|k: int| 0 <= k < i ==> !ends_with(name@, #[trigger] suffixes@[k]@),
        decreases suffixes.len() - i,
    {
        if has_suffix(name, suffixes[i].as_str()) {
            return true;
        }
        i = i + 1;
    }
    false
}

/// Whether the settings list `name` as reserved (see [`reserved_name_spec`]).
pub fn is_reserved_name(cfg: &RegisterConfig, name: &str) -> (b: bool)
    ensures
        b == reserved_name_spec(*cfg, name@),
{
    is_listed(&cfg.reserved_username, name) || has_listed_prefix(&cfg.reserved_prefix, name)
        || has_listed_suffix(&cfg.reserved_suffix, name)
}

/// The first rule that a new account with these details breaks, if any.
pub fn check_new_account(cfg: &RegisterConfig, username: &str, email: &str, password: &str) -> (r:
    Option<RegisterError>)
    ensures
        r == account_error_spec(
            *cfg,
            username@,
            username.len(),
            email@,
            password.len(),
        ),
{
    if trim(email).is_empty() {
        return Some(RegisterError::EmailRequired);
    }
    if !is_valid_username(username) {
        return Some(RegisterError::UsernameFormat);
    }
    let ulen = #[verifier::truncate] (username.len() as i64);
    if cfg.min_username > ulen {
        return Some(RegisterError::UsernameTooShort(cfg.min_username));
    }
    if cfg.max_username < ulen {
        return Some(RegisterError::UsernameTooLong(cfg.max_username));
    }
    if password.len() < cfg.min_password_len {
        return Some(RegisterError::PasswordTooShort(cfg.min_password_len));
    }
    None
}

/// Checks a registration form. On success returns the invitation code to
/// use: the trimmed code when the site requires one, `None` otherwise.
pub fn check_registration(
    cfg: &RegisterConfig,
    username: &str,
    email: &str,
    password: &str,
    invite_code: Option<&str>,
) -> (r: Result<Option<String>, RegisterError>)
    ensures
        match account_error_spec(
            *cfg,
            username@,
            username.len(),
            email@,
            password.len(),
        ) {
            Some(e) => r == Err::<Option<String>, RegisterError>(e),
            None => if !cfg.invite_code_required {
                r matches Ok(None)
            } else {
                match invite_code {
                    Some(c) => if trim_spec(c@).len() > 0 {
                        r matches Ok(Some(s)) && s@ == trim_spec(c@)
                    } else {
                        r == Err::<Option<String>, RegisterError>(
                            RegisterError::InviteCodeRequired,
                        )
                    },
                    None => r == Err::<Option<String>, RegisterError>(
                        RegisterError::InviteCodeRequired,
                    ),
                }
            },
        },
{
    if let Some(e) = check_new_account(cfg, username, email, password) {
        return Err(e);
    }
    if !cfg.invite_code_required {
        return Ok(None);
    }
    match invite_code {
        Some(c) => {
            let t = trim(c);
            if t.is_empty() {
                Err(RegisterError::InviteCodeRequired)
            } else {
                Ok(Some(String::from_str(t)))
            }
        },
        None => Err(RegisterError::InviteCodeRequired),
    }
}

/// A login name with `@` is looked up as an e-mail address.
pub fn is_email_login(name: &str) -> (b: bool)
    ensures
        b == seq_contains(name@, seq!['@']),
{
    proof {
        reveal_strlit("@");
    }
    assert("@"@ =~= seq!['@']);
    contains(name, "@")
}

/// One hour in nanoseconds: how long failed password attempts are remembered.
pub const CHALLENGE_WINDOW_NANOS: i64 = 3_600_000_000_000;

/// Failed attempts allowed before logins are refused.
pub const MAX_FAILED_ATTEMPTS: i64 = 5;

/// Failed password attempts of one account and when the count expires
/// (Unix time in nanoseconds).
#[derive(PartialEq, Eq, Structural, Debug, Clone, Copy)]
pub struct PasswordChallengeCounter {
    pub count: i64,
    pub expires: i64,
}

/// Whether a password may be tried now.
#[derive(PartialEq, Eq, Structural, Debug, Clone, Copy)]
pub enum LoginGate {
    /// Five or more failures within the hour: refuse.
    TooManyAttempts,
    /// Try the password; the argument is the failures counted so far.
    Proceed(i64),
}

/// Whether a login at time `now` may try a password, given the saved
/// failure count: a live count of 5 or more refuses, a live count below that
/// is carried on, and an expired or missing count starts again from 0.
pub open spec fn login_gate_spec(counter: Option<PasswordChallengeCounter>, now: i64) -> LoginGate {
    match counter {
        None => LoginGate::Proceed(0),
        Some(c) => if c.count >= MAX_FAILED_ATTEMPTS && c.expires > now {
            LoginGate::TooManyAttempts
        } else if c.expires > now {
            LoginGate::Proceed(c.count)
        } else {
            LoginGate::Proceed(0)
        },
    }
}

/// See [`login_gate_spec`].
pub fn login_gate(counter: Option<PasswordChallengeCounter>, now: i64) -> (r: LoginGate)
    ensures
        r == login_gate_spec(counter, now),
{
    match counter {
        None => LoginGate::Proceed(0),
        Some(c) => {
            if c.count >= MAX_FAILED_ATTEMPTS && c.expires > now {
                LoginGate::TooManyAttempts
            } else if c.expires > now {
                LoginGate::Proceed(c.count)
            } else {
                LoginGate::Proceed(0)
            }
        },
    }
}

/// The counter stored after a failed attempt at time `now`, when `current`
/// failures were counted before it: one more, expiring an hour from now.
pub open spec fn failure_recorded_spec(current: i64, now: i64) -> PasswordChallengeCounter {
    PasswordChallengeCounter { count: (current + 1) as i64, expires: (now + CHALLENGE_WINDOW_NANOS) as i64 }
}

/// See [`failure_recorded_spec`].
pub fn failure_recorded(current: i64, now: i64) -> (r: PasswordChallengeCounter)
    requires
        current < i64::MAX,
        now <= i64::MAX - CHALLENGE_WINDOW_NANOS,
    ensures
        r == failure_recorded_spec(current, now),
{
    PasswordChallengeCounter { count: current + 1, expires: now + CHALLENGE_WINDOW_NANOS }
}

/// Login throttling: after a failure recorded at `t` on top of `current`
/// failures, a login at `now` within the following hour is refused exactly
/// when this was the fifth (or later) failure, and otherwise proceeds with
/// the count raised by one; from an hour after `t` on, logins proceed and
/// counting starts again from 0.
pub proof fn login_throttle_law(current: i64, t: i64, now: i64)
    requires
        current < i64::MAX,
        t <= i64::MAX - CHALLENGE_WINDOW_NANOS,
    ensures
        now < t + CHALLENGE_WINDOW_NANOS ==> login_gate_spec(
            Some(failure_recorded_spec(current, t)),
            now,
        ) == (if current + 1 >= MAX_FAILED_ATTEMPTS {
            LoginGate::TooManyAttempts
        } else {
            LoginGate::Proceed((current + 1) as i64)
        }),
        now >= t + CHALLENGE_WINDOW_NANOS ==> login_gate_spec(
            Some(failure_recorded_spec(current, t)),
            now,
        ) == LoginGate::Proceed(0),
{
}

/// What a login attempt with a known account comes to.
#[derive(PartialEq, Eq, Structural, Debug, Clone, Copy)]
pub enum LoginOutcome {
    /// Five or more failures within the hour: refused before the password is
    /// looked at.
    TooManyAttempts,
    /// Wrong password (or a stored hash that cannot be read); the counter to
    /// store is given.
    WrongPassword(PasswordChallengeCounter),
    /// Right password, but the account is disabled.
    Banned,
    /// Right password; the failure counter is cleared and the second factor
    /// is asked for.
    TotpRequired,
    /// Right password; the failure counter is cleared and the user is in.
    LoggedIn,
}

/// The outcome of a login at `now`: the failure count is looked at first,
/// then the password check (`password_ok`, `None` where the stored hash could
/// not be read), then whether the account is active, then whether it has a
/// second factor.
pub open spec fn login_outcome_spec(
    counter: Option<PasswordChallengeCounter>,
    now: i64,
    password_ok: Option<bool>,
    active: bool,
    has_totp: bool,
) -> LoginOutcome {
    match login_gate_spec(counter, now) {
        LoginGate::TooManyAttempts => LoginOutcome::TooManyAttempts,
        LoginGate::Proceed(n) => if password_ok != Some(true) {
            LoginOutcome::WrongPassword(failure_recorded_spec(n, now))
        } else if !active {
            LoginOutcome::Banned
        } else if has_totp {
            LoginOutcome::TotpRequired
        } else {
            LoginOutcome::LoggedIn
        },
    }
}

/// Decides a login attempt (see `login_outcome_spec`).
pub fn login_outcome(
    counter: Option<PasswordChallengeCounter>,
    now: i64,
    password_ok: Option<bool>,
    active: bool,
    has_totp: bool,
) -> (r: LoginOutcome)
    requires
        now <= i64::MAX - CHALLENGE_WINDOW_NANOS,
        counter matches Some(c) ==> c.count < i64::MAX,
    ensures
        r == login_outcome_spec(counter, now, password_ok, active, has_totp),
{
    match login_gate(counter, now) {
        LoginGate::TooManyAttempts => LoginOutcome::TooManyAttempts,
        LoginGate::Proceed(n) => {
            let ok = match password_ok {
                Some(b) => b,
                None => false,
            };
            if !ok {
                LoginOutcome::WrongPassword(failure_recorded(n, now))
            } else if !active {
                LoginOutcome::Banned
            } else if has_totp {
                LoginOutcome::TotpRequired
            } else {
                LoginOutcome::LoggedIn
            }
        },
    }
}

/// A password login of a known account: the throttle is checked first, the
/// password is checked against the stored argon2 hash only when the throttle
/// lets it through, then the account's state decides.  The outcome is
/// [`login_outcome_spec`] with argon2's answer for this password and hash.
pub fn login_attempt(
    counter: Option<PasswordChallengeCounter>,
    now: i64,
    password: &str,
    password_hash: &str,
    active: bool,
    has_totp: bool,
) -> (r: LoginOutcome)
    requires
        now <= i64::MAX - CHALLENGE_WINDOW_NANOS,
        counter matches Some(c) ==> c.count < i64::MAX,
    ensures
        r == login_outcome_spec(
            counter,
            now,
            argon2_verifies(password.spec_bytes(), password_hash@),
            active,
            has_totp,
        ),
{
    match login_gate(counter, now) {
        LoginGate::TooManyAttempts => LoginOutcome::TooManyAttempts,
        LoginGate::Proceed(_) => {
            let ok = verify_password(password, password_hash);
            login_outcome(counter, now, ok, active, has_totp)
        },
    }
}

/// The right password lets an active account in unless five failures are
/// still live; once they are, not even the right password does; and every
/// wrong password adds one failure to the live count.
pub proof fn login_attempt_law(c: PasswordChallengeCounter, now: i64, active: bool, has_totp: bool)
    requires
        now <= i64::MAX - CHALLENGE_WINDOW_NANOS,
        c.count < i64::MAX,
    ensures
        (c.count >= MAX_FAILED_ATTEMPTS && c.expires > now) ==> login_outcome_spec(
            Some(c),
            now,
            Some(true),
            active,
            has_totp,
        ) == LoginOutcome::TooManyAttempts,
        (c.count < MAX_FAILED_ATTEMPTS || c.expires <= now) && active ==> (login_outcome_spec(
            Some(c),
            now,
            Some(true),
            active,
            has_totp,
        ) is LoggedIn || login_outcome_spec(Some(c), now, Some(true), active, has_totp) is TotpRequired),
        (c.count < MAX_FAILED_ATTEMPTS && c.expires > now) ==> login_outcome_spec(
            Some(c),
            now,
            Some(false),
            active,
            has_totp,
        ) == LoginOutcome::WrongPassword(
            PasswordChallengeCounter { count: (c.count + 1) as i64, expires: (now + CHALLENGE_WINDOW_NANOS) as i64 },
        ),
        login_outcome_spec(None, now, Some(true), true, false) == LoginOutcome::LoggedIn,
{
}

/// What a failed or successful password does to the stored count, for every
/// saved counter: with no counter, or one that has expired, a wrong password
/// (or a hash that cannot be read) stores a count of exactly 1, expiring an
/// hour from now; with a live count below five it stores that count plus
/// one; a live count of five or more refuses before the password matters.
/// When the count does not refuse, the right password lets an active
/// account in (through the second factor where it has one) and a disabled
/// one is refused as banned.
pub proof fn failed_login_count_law(
    counter: Option<PasswordChallengeCounter>,
    now: i64,
    password_ok: Option<bool>,
    active: bool,
    has_totp: bool,
)
    requires
        now <= i64::MAX - CHALLENGE_WINDOW_NANOS,
        counter matches Some(c) ==> c.count < i64::MAX,
    ensures
        ({
            let r = login_outcome_spec(counter, now, password_ok, active, has_totp);
            let live = counter matches Some(c) && c.expires > now;
            let blocked = counter matches Some(c) && c.expires > now && c.count >= 5;
            &&& blocked ==> r == LoginOutcome::TooManyAttempts
            &&& (!live && password_ok != Some(true)) ==> r == LoginOutcome::WrongPassword(
                PasswordChallengeCounter { count: 1, expires: (now + 3_600_000_000_000) as i64 },
            )
            &&& (live && !blocked && password_ok != Some(true)) ==> r == LoginOutcome::WrongPassword(
                PasswordChallengeCounter {
                    count: (counter->0.count + 1) as i64,
                    expires: (now + 3_600_000_000_000) as i64,
                },
            )
            &&& (!blocked && password_ok == Some(true) && !active) ==> r == LoginOutcome::Banned
            &&& (!blocked && password_ok == Some(true) && active && has_totp) ==> r
                == LoginOutcome::TotpRequired
            &&& (!blocked && password_ok == Some(true) && active && !has_totp) ==> r
                == LoginOutcome::LoggedIn
        }),
{
}

/// Why an API token is refused to a user whose password was right.
#[derive(PartialEq, Eq, Structural, Debug, Clone, Copy)]
pub enum AdminAccessError {
    /// The account is disabled.
    Banned,
    /// The account is not an administrator.
    NotAdministrator,
}

/// Only active administrators get API tokens.
pub fn check_user_permissions(active: bool, role: &str) -> (r: Result<(), AdminAccessError>)
    ensures
        r == (if !active {
            Err(AdminAccessError::Banned)
        } else if !role_is_admin(role@) {
            Err(AdminAccessError::NotAdministrator)
        } else {
            Ok(())
        }),
{
    if !active {
        return Err(AdminAccessError::Banned);
    }
    if !crate::common::is_admin(role) {
        return Err(AdminAccessError::NotAdministrator);
    }
    Ok(())
}

/// What argon2 answers when `password` (as bytes) is checked against the
/// PHC string `hash`: `None` when `hash` cannot be read as a PHC string.
pub uninterp spec fn argon2_verifies(password: Seq<u8>, hash: Seq<char>) -> Option<bool>;

/// Checks `password` against a stored argon2 hash (argon2's
/// `PasswordHash::new` and `PasswordVerifier::verify_password`). Claims only
/// that the answer is argon2's for these arguments; `None` stands for a hash
/// that does not parse.
#[verifier::external_body]
pub fn verify_password(password: &str, password_hash: &str) -> (r: Option<bool>)
    ensures
        r == argon2_verifies(password.spec_bytes(), password_hash@),
{
    match argon2::PasswordHash::new(password_hash) {
        Ok(parsed) => Some(
            argon2::Argon2::default().verify_password(password.as_bytes(), &parsed).is_ok(),
        ),
        Err(_) => None,
    }
}

/// Hashes `password` with argon2 and a fresh random salt (argon2's
/// `PasswordHasher::hash_password`). The salt is random, so nothing fixes
/// the hash itself; the claim is only that a hash it returns verifies with
/// the same password.
#[verifier::external_body]
pub fn hash_password(password: &str) -> (r: Option<String>)
    ensures
        r matches Some(h) ==> argon2_verifies(password.spec_bytes(), h@) == Some(true),
{
    let salt = argon2::password_hash::SaltString::generate(
        &mut argon2::password_hash::rand_core::OsRng,
    );
    match argon2::Argon2::default().hash_password(password.as_bytes(), &salt) {
        Ok(h) => Some(h.to_string()),
        Err(_) => None,
    }
}

/// The registration form.
pub struct RegisterForm {
    pub username: String,
    pub email: String,
    pub password: String,
    pub token: String,
    pub turnstile_response: Option<String>,
    pub invite_code: Option<String>,
}

/// The login form.
pub struct LoginForm {
    pub username: String,
    pub password: String,
    pub token: String,
    pub remember_me: Option<String>,
    pub turnstile_response: Option<String>,
}

/// The login page.
pub struct AuthLoginTemplate {
    pub token: String,
    pub tips: String,
    pub username: String,
    pub password: String,
    pub turnstile: Option<(String, String)>,
    pub ctx: VContext,
}

/// The first registration step: asking for an e-mail address.
pub struct AuthRegisterZeroTemplate {
    pub token: String,
    pub email: String,
    pub tips: String,
    pub invite_code: String,
    pub turnstile: Option<(String, String)>,
    pub ctx: VContext,
}

/// The registration page.
pub struct AuthRegisterTemplate {
    pub username: String,
    pub password: String,
    pub email: String,
    pub invite_code: String,
    pub tips: String,
    pub token: String,
    pub register_config: RegisterConfig,
    pub turnstile: Option<(String, String)>,
    pub ctx: VContext,
}

/// The query of the registration page (from the e-mailed link).
pub struct RegisterFormQuery {
    pub token: Option<String>,
    pub email: Option<String>,
    pub invite_code: Option<String>,
}

/// The form that asks for a registration link.
pub struct GetRegisterLinkForm {
    pub token: String,
    pub email: String,
    pub turnstile_response: Option<String>,
    pub invite_code: Option<String>,
}

/// The e-mail that carries a registration link.
pub struct RegisterLinkTemplate {
    pub url: String,
}

/// The second-factor form.
pub struct LoginTotpForm {
    pub token: String,
    pub username: String,
    pub code: String,
    pub remember_me: Option<String>,
}

/// The query of the second-factor page.
pub struct LoginTotpQuery {
    pub token: String,
    pub username: String,
    pub remember_me: Option<String>,
}

/// The form that asks for a password reset.
pub struct ForgotPasswordForm {
    pub email: String,
    pub token: String,
    pub turnstile_response: Option<String>,
}

/// The page that asks for a password reset.
pub struct ForgotPasswordTemplate {
    pub email: String,
    pub tips: String,
    pub token: String,
    pub turnstile: Option<(String, String)>,
    pub ctx: VContext,
}

/// The e-mail that carries a password reset link.
pub struct ResetPasswordLinkTemplate {
    pub url: String,
}

/// The query of the password reset page.
pub struct ResetPasswordQuery {
    pub token: String,
    pub email: String,
}

/// The password reset page.
pub struct ResetPasswordTemplate {
    pub token: String,
    pub email: String,
    pub tips: String,
    pub ctx: VContext,
}

/// The password reset form.
pub struct ResetPasswordForm {
    pub token: String,
    pub email: String,
    pub password: String,
    pub confirm_password: String,
}

/// A request for an API token.
pub struct AccessTokenRequest {
    pub username: String,
    pub password: String,
}

/// The answer to a token request: the token, or a challenge token when a
/// second factor is still needed.
pub struct AccessTokenResponse {
    pub token: String,
    pub totp: bool,
    pub message: String,
}

/// The second factor of a token request.
pub struct TotpChallengeRequest {
    pub username: String,
    pub code: String,
}

/// The moderator identity behind an API token.
pub struct Moderator {
    pub uid: i64,
    pub username: String,
}

/// Why a registration link is not sent.
#[derive(PartialEq, Eq, Structural, Debug, Clone, Copy)]
pub enum LinkRequestError {
    /// Registration is closed.
    RegisterDisabled,
    /// Registration does not go through e-mail.
    EmailVerifyDisabled,
}

/// Whether registration links are sent at all.
pub fn check_link_request(cfg: &RegisterConfig) -> (r: Result<(), LinkRequestError>)
    ensures
        r == (if !cfg.enable {
            Err(LinkRequestError::RegisterDisabled)
        } else if !cfg.email_verify {
            Err(LinkRequestError::EmailVerifyDisabled)
        } else {
            Ok(())
        }),
{
    if !cfg.enable {
        return Err(LinkRequestError::RegisterDisabled);
    }
    if !cfg.email_verify {
        return Err(LinkRequestError::EmailVerifyDisabled);
    }
    Ok(())
}

/// The address a password reset is asked for: the typed address trimmed, or
/// `None` when it is blank.
pub fn reset_request_email(email: &str) -> (r: Option<&str>)
    ensures
        match r {
            Some(e) => e@ == trim_spec(email@) && e@.len() > 0,
            None => trim_spec(email@).len() == 0,
        },
{
    let t = trim(email);
    if t.is_empty() {
        None
    } else {
        Some(t)
    }
}

/// The administrator kept in the session at sign-in: only an account whose
/// role is exactly `moderator` gets one.
pub fn session_moderator(user: &User) -> (r: Option<Moderator>)
    ensures
        match r {
            Some(m) => user.role@ == "moderator"@ && m.uid == user.id && m.username@
                == user.username@,
            None => user.role@ != "moderator"@,
        },
{
    if same_text(user.role.as_str(), "moderator") {
        Some(Moderator { uid: user.id, username: user.username.clone() })
    } else {
        None
    }
}

/// The language cookie set at sign-in: the account's language, unless it is
/// empty.
pub fn language_cookie(user: &User) -> (r: Option<&str>)
    ensures
        match r {
            Some(l) => l@ == user.language@ && l@.len() > 0,
            None => user.language@.len() == 0,
        },
{
    if user.language.as_str().is_empty() {
        None
    } else {
        Some(user.language.as_str())
    }
}

/// The second-factor check of the administration API needs both a user name
/// and a code.
pub fn totp_request_complete(username: &str, code: &str) -> (b: bool)
    ensures
        b == (username@.len() > 0 && code@.len() > 0),
{
    !username.is_empty() && !code.is_empty()
}

} // verus!
