use nodecask::account::{
    avatar_cache_control, check_avatar_labels, check_avatar_size, checked_in_today, email_given,
    image_from_data_url, new_email_token_key, passwords_match, profile_update, register_token_key,
    totp_secret_set, totp_step, AvatarRefusal, TotpSettingsForm, TotpStep, UserCenterUpdateForm,
};
use nodecask::auth::{
    check_link_request, check_new_account, check_registration, check_user_permissions,
    failure_recorded, hash_password, is_email_login, is_reserved_name, login_attempt, login_gate, login_outcome,
    reset_request_email, verify_password, AdminAccessError, LinkRequestError, LoginGate,
    LoginOutcome, PasswordChallengeCounter, RegisterError, CHALLENGE_WINDOW_NANOS,
};
use nodecask::labels::{Labels, HENTAI, NEUTRAL, PORN};
use nodecask::rewards::{
    check_in, count_day, record_visit, validation_cases, visit_is_new, CheckInRefusal, DayCounter,
};
use nodecask::system::RegisterConfig;

fn reg_cfg() -> RegisterConfig {
    RegisterConfig::default()
}

#[test]
fn new_account_rules() {
    let c = reg_cfg();
    assert_eq!(check_new_account(&c, "bob", "  ", "secret1"), Some(RegisterError::EmailRequired));
    assert_eq!(check_new_account(&c, "bo b", "a@b.c", "secret1"), Some(RegisterError::UsernameFormat));
    assert_eq!(check_new_account(&c, "bo", "a@b.c", "secret1"), Some(RegisterError::UsernameTooShort(3)));
    assert_eq!(
        check_new_account(&c, &"a".repeat(21), "a@b.c", "secret1"),
        Some(RegisterError::UsernameTooLong(20))
    );
    // Names are measured in bytes.
    assert_eq!(check_new_account(&c, "用户", "a@b.c", "secret1"), None);
    assert_eq!(check_new_account(&c, "bob", "a@b.c", "12345"), Some(RegisterError::PasswordTooShort(6)));
    assert_eq!(check_new_account(&c, "bob", "a@b.c", "123456"), None);
}

#[test]
fn registration_with_invites() {
    let mut c = reg_cfg();
    assert_eq!(check_registration(&c, "bob", "a@b.c", "123456", Some(" X ")), Ok(None));
    c.invite_code_required = true;
    assert_eq!(check_registration(&c, "bob", "a@b.c", "123456", Some(" X ")), Ok(Some("X".to_string())));
    assert_eq!(
        check_registration(&c, "bob", "a@b.c", "123456", Some("  ")),
        Err(RegisterError::InviteCodeRequired)
    );
    assert_eq!(check_registration(&c, "bob", "a@b.c", "123456", None), Err(RegisterError::InviteCodeRequired));
    assert_eq!(check_registration(&c, "bob", "", "123456", None), Err(RegisterError::EmailRequired));
}

#[test]
fn registration_links() {
    let mut c = reg_cfg();
    assert_eq!(check_link_request(&c), Err(LinkRequestError::RegisterDisabled));
    c.enable = true;
    assert_eq!(check_link_request(&c), Err(LinkRequestError::EmailVerifyDisabled));
    c.email_verify = true;
    assert_eq!(check_link_request(&c), Ok(()));
    assert_eq!(register_token_key("a@b.c"), "register#a@b.c");
}

#[test]
fn login_names_and_resets() {
    assert!(is_email_login("a@b.c"));
    assert!(!is_email_login("bob"));
    assert_eq!(reset_request_email("  a@b.c "), Some("a@b.c"));
    assert_eq!(reset_request_email("   "), None);
}

#[test]
fn login_throttling() {
    let now = 1_000_000_000_000i64;
    assert_eq!(login_gate(None, now), LoginGate::Proceed(0));
    let live = PasswordChallengeCounter { count: 5, expires: now + 1 };
    assert_eq!(login_gate(Some(live), now), LoginGate::TooManyAttempts);
    let old = PasswordChallengeCounter { count: 9, expires: now };
    assert_eq!(login_gate(Some(old), now), LoginGate::Proceed(0));
    let some = PasswordChallengeCounter { count: 2, expires: now + 5 };
    assert_eq!(login_gate(Some(some), now), LoginGate::Proceed(2));
    let rec = failure_recorded(2, now);
    assert_eq!(rec, PasswordChallengeCounter { count: 3, expires: now + CHALLENGE_WINDOW_NANOS });
}

#[test]
fn five_failures_lock_out_for_an_hour() {
    let mut counter: Option<PasswordChallengeCounter> = None;
    let t = 10i64;
    for _ in 0..5 {
        match login_outcome(counter, t, Some(false), true, false) {
            LoginOutcome::WrongPassword(c) => counter = Some(c),
            other => panic!("unexpected {:?}", other),
        }
    }
    assert_eq!(login_outcome(counter, t + 1, Some(true), true, false), LoginOutcome::TooManyAttempts);
    assert_eq!(
        login_outcome(counter, t + CHALLENGE_WINDOW_NANOS, Some(true), true, false),
        LoginOutcome::LoggedIn
    );
    assert_eq!(login_outcome(None, t, Some(true), false, false), LoginOutcome::Banned);
    assert_eq!(login_outcome(None, t, Some(true), true, true), LoginOutcome::TotpRequired);
    assert_eq!(
        login_outcome(None, t, None, true, false),
        LoginOutcome::WrongPassword(PasswordChallengeCounter { count: 1, expires: t + CHALLENGE_WINDOW_NANOS })
    );
}

#[test]
fn password_hashes_verify() {
    let h = hash_password("correct horse").unwrap();
    assert_eq!(verify_password("correct horse", &h), Some(true));
    assert_eq!(verify_password("wrong", &h), Some(false));
    assert_eq!(verify_password("x", "not a hash"), None);
}

#[test]
fn api_access_rules() {
    assert_eq!(check_user_permissions(false, "administrator"), Err(AdminAccessError::Banned));
    assert_eq!(check_user_permissions(true, "moderator"), Err(AdminAccessError::NotAdministrator));
    assert_eq!(check_user_permissions(true, "administrator"), Ok(()));
}

#[test]
fn visits_and_check_ins() {
    let c = DayCounter { last_date: 100, days: 10, continuous_days: 3 };
    assert_eq!(count_day(c, 101), DayCounter { last_date: 101, days: 11, continuous_days: 4 });
    assert_eq!(count_day(c, 105), DayCounter { last_date: 105, days: 11, continuous_days: 1 });
    assert!(visit_is_new(100, 101));
    assert!(!visit_is_new(101, 101));
    assert_eq!(check_in(c, 100), Err(CheckInRefusal::AlreadyCheckedIn));
    let next = check_in(c, 101).unwrap();
    assert_eq!(next.continuous_days, 4);
    assert_eq!(check_in(next, 101), Err(CheckInRefusal::AlreadyCheckedIn));
    assert!(checked_in_today(Some(101), 101));
    assert!(!checked_in_today(None, 101));
}

#[test]
fn rewards_script_inputs() {
    let v = validation_cases();
    assert_eq!(v.len(), 62);
    assert_eq!(v[0], (1, 1, "2026-01-01"));
    assert_eq!(v[11], (-1, -1, "2026-01-01"));
    assert_eq!(v[12], (17, 7, "2026-01-01"));
    assert_eq!(v[13], (34, 14, "2026-01-01"));
    for i in 1..=50i32 {
        let days = (i * 17) % 1000;
        let continuous = (i * 7) % (days.max(0) + 1);
        assert_eq!(v[11 + i as usize], (days, continuous, "2026-01-01"));
    }
}

#[test]
fn member_settings() {
    assert!(passwords_match("a", "a"));
    assert!(!passwords_match("a", "b"));
    let p = profile_update(UserCenterUpdateForm {
        bio: Some("hi".to_string()),
        address: None,
        timezone: None,
        language: None,
        public_email: Some("on".to_string()),
    });
    assert_eq!(p.bio, "hi");
    assert_eq!(p.address, "");
    assert_eq!(p.timezone, "UTC");
    assert_eq!(p.language, "en_US");
    assert!(p.public_email);
    assert!(email_given(" a@b "));
    assert!(!email_given("  "));
    assert_eq!(new_email_token_key("x@y"), "new_email#x@y");
}

#[test]
fn avatar_rules() {
    assert_eq!(avatar_cache_control(Some(5)), "public, max-age=86400");
    assert_eq!(avatar_cache_control(Some(0)), "public, max-age=60");
    assert_eq!(avatar_cache_control(None), "public, max-age=60");
    assert_eq!(check_avatar_size(0), Err(AvatarRefusal::Empty));
    assert_eq!(check_avatar_size(2 * 1024 * 1024), Ok(()));
    assert_eq!(check_avatar_size(2 * 1024 * 1024 + 1), Err(AvatarRefusal::TooLarge));
    assert_eq!(check_avatar_labels(&Labels(HENTAI)), Err(AvatarRefusal::Unsafe));
    assert_eq!(check_avatar_labels(&Labels(PORN | NEUTRAL)), Err(AvatarRefusal::Unsafe));
    assert_eq!(check_avatar_labels(&Labels(NEUTRAL)), Ok(()));
}

#[test]
fn data_url_images() {
    let (mime, bytes) = image_from_data_url("data:image/png;base64,aGVsbG8=").unwrap();
    assert_eq!(mime, "image/png");
    assert_eq!(bytes, b"hello".to_vec());
    assert!(image_from_data_url("data:text/plain;base64,aGVsbG8=").is_none());
    assert!(image_from_data_url("data:image/png;base64,***").is_none());
    // The pattern wants a type of word characters, a payload, and no line break.
    assert!(image_from_data_url("data:image/;base64,aGVsbG8=").is_none());
    assert!(image_from_data_url("data:image/png;base64,").is_none());
    assert!(image_from_data_url("data:image/png;base64,aGVs\nbG8=").is_none());
    assert!(image_from_data_url("data:image/svg+xml;base64,aGVsbG8=").is_none());
    assert!(image_from_data_url(" data:image/png;base64,aGVsbG8=").is_none());
    let (mime, _) = image_from_data_url("data:image/jpeg;base64,aGVsbG8=").unwrap();
    assert_eq!(mime, "image/jpeg");
}

#[test]
fn reserved_names_are_listed_but_not_refused() {
    let mut c = reg_cfg();
    c.reserved_username = vec!["admin".to_string()];
    c.reserved_prefix = vec!["sys".to_string()];
    c.reserved_suffix = vec!["bot".to_string()];
    assert!(is_reserved_name(&c, "admin"));
    assert!(is_reserved_name(&c, "sysop"));
    assert!(is_reserved_name(&c, "newsbot"));
    assert!(!is_reserved_name(&c, "admins"));
    assert!(!is_reserved_name(&c, "robot_x"));
    // Registration does not consult the lists.
    assert_eq!(check_new_account(&c, "admin", "a@b.c", "secret1"), None);
    assert_eq!(check_registration(&c, "sysop", "a@b.c", "secret1", None), Ok(None));
}

#[test]
fn second_factor_steps() {
    let form = |action: &str, secret: Option<&str>| TotpSettingsForm {
        code: "123456".to_string(),
        secret: secret.map(|s| s.to_string()),
        action: action.to_string(),
    };
    assert_eq!(totp_step(&form("bind", Some("S")), false), TotpStep::VerifyAndBind);
    assert_eq!(totp_step(&form("bind", Some("S")), true), TotpStep::AlreadyBound);
    assert_eq!(totp_step(&form("bind", None), false), TotpStep::MissingSecret);
    assert_eq!(totp_step(&form("unbind", None), true), TotpStep::VerifyAndUnbind);
    assert_eq!(totp_step(&form("unbind", None), false), TotpStep::NotBound);
    assert_eq!(totp_step(&form("other", None), true), TotpStep::UnknownAction);
    assert!(totp_secret_set(Some("X")));
    assert!(!totp_secret_set(Some("")));
    assert!(!totp_secret_set(None));
}

#[test]
fn login_attempt_checks_the_stored_hash() {
    let h = hash_password("secret1").unwrap();
    assert!(matches!(login_attempt(None, 0, "secret1", &h, true, false), LoginOutcome::LoggedIn));
    assert!(matches!(login_attempt(None, 0, "secret1", &h, true, true), LoginOutcome::TotpRequired));
    assert!(matches!(login_attempt(None, 0, "secret1", &h, false, false), LoginOutcome::Banned));
    assert!(matches!(
        login_attempt(None, 0, "wrong", &h, true, false),
        LoginOutcome::WrongPassword(c) if c.count == 1
    ));
    assert!(matches!(
        login_attempt(None, 0, "secret1", "not a hash", true, false),
        LoginOutcome::WrongPassword(_)
    ));
    let blocked = PasswordChallengeCounter { count: 5, expires: CHALLENGE_WINDOW_NANOS };
    assert!(matches!(login_attempt(Some(blocked), 0, "secret1", &h, true, false), LoginOutcome::TooManyAttempts));
}

#[test]
fn visits_count_once_a_day() {
    let c = DayCounter { last_date: 10, days: 4, continuous_days: 2 };
    assert_eq!(record_visit(10, c, 11), Some(DayCounter { last_date: 11, days: 5, continuous_days: 3 }));
    assert_eq!(record_visit(9, c, 13), Some(DayCounter { last_date: 13, days: 5, continuous_days: 1 }));
    assert_eq!(record_visit(11, c, 11), None);
}
