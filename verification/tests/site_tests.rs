use nodecask::admin::{
    check_not_super_admin, check_role_change, status_change, token_owner, topic_flag_change,
    CreateTokenRequest, Data, PageExtractor, TopicFlagChange, UserAdminError, CODE_FAIL,
    CODE_NO_TOKEN, CODE_OK,
};
use nodecask::common::{can_moderate, is_admin, relative_time, LocaleProvider, RelativeTime, User, VContext};
use nodecask::files::{
    dir_name, download_disposition, file_name, moved_path, renamed_path, upload_path,
};
use nodecask::labels::{Labels, DRAWINGS, HENTAI, NEUTRAL, PORN, SEXY};
use nodecask::linkfilter::{element_changes, filter_rules, ElementKind};
use nodecask::notify::Notify;
use nodecask::pages::{
    accepts_html, normalize_page_path, not_found_reply, page_path, public_asset_name,
    theme_return_to, CustomPage, NotFoundReply,
};
use nodecask::system::{
    captcha_answer, mail_status, turnstile_outcome, reload_target, with_compiled_style,
    CaptchaRefusal, InjectionConfig, Limit, MailOutcome, SmtpConfig, TurnstileConfig,
};
use nodecask::wizard::{
    check_install, default_links, default_nodes, parse_u16, wizard_smtp, wizard_website,
    WizardForm, WizardRefusal, WizardTemplate,
};

#[test]
fn reply_envelopes() {
    let ok: Data<u32> = Data::ok(5);
    assert_eq!(ok.code, CODE_OK);
    assert_eq!(ok.data, Some(5));
    assert_eq!(ok.message.as_deref(), Some("success"));
    let err: Data<u32> = Data::error("bad");
    assert_eq!(err.code, CODE_FAIL);
    assert_eq!(err.data, None);
    assert_eq!(err.message.as_deref(), Some("bad"));
    assert_eq!(Data::fail("x").code, 100);
    assert_eq!(Data::done().code, 0);
    assert_eq!(Data::missing_token().code, CODE_NO_TOKEN);
    let n: Data<u8> = Data::new(7, None, None);
    assert_eq!(n.code, 7);
}

#[test]
fn paging_parameters() {
    let p = PageExtractor::from_params(None, None);
    assert_eq!((p.0.p, p.0.per_page), (1, 20));
    let q = PageExtractor::from_params(Some(3), Some(50));
    assert_eq!((q.0.p, q.0.per_page), (3, 50));
}

#[test]
fn user_administration() {
    assert_eq!(check_not_super_admin(1), Err(UserAdminError::SuperAdmin));
    assert_eq!(check_not_super_admin(2), Ok(()));
    assert_eq!(status_change(1, "enable"), Err(UserAdminError::SuperAdmin));
    assert_eq!(status_change(2, "enable"), Ok(true));
    assert_eq!(status_change(2, "disable"), Ok(false));
    assert_eq!(status_change(2, "ban"), Err(UserAdminError::InvalidAction));
    assert_eq!(check_role_change(2, "moderator"), Ok(()));
    assert_eq!(check_role_change(2, "root"), Err(UserAdminError::InvalidRole));
    assert_eq!(check_role_change(1, "user"), Err(UserAdminError::SuperAdmin));
}

#[test]
fn topic_administration() {
    assert_eq!(topic_flag_change("pin"), Some(TopicFlagChange::Pinned(true)));
    assert_eq!(topic_flag_change("unpin"), Some(TopicFlagChange::Pinned(false)));
    assert_eq!(topic_flag_change("lock"), Some(TopicFlagChange::Locked(true)));
    assert_eq!(topic_flag_change("unlock"), Some(TopicFlagChange::Locked(false)));
    assert_eq!(topic_flag_change("hide"), None);
    let req = CreateTokenRequest { description: "bot".to_string(), user_id: None };
    assert_eq!(token_owner(&req, 9), 9);
    let req2 = CreateTokenRequest { description: "bot".to_string(), user_id: Some(4) };
    assert_eq!(token_owner(&req2, 9), 4);
}

#[test]
fn roles_and_times() {
    assert!(can_moderate("moderator") && can_moderate("administrator"));
    assert!(!can_moderate("user"));
    assert!(is_admin("administrator") && !is_admin("moderator"));
    assert_eq!(relative_time(-1, 0), RelativeTime::Absolute);
    assert_eq!(relative_time(8 * 86400, 8), RelativeTime::Absolute);
    assert_eq!(relative_time(30, 0), RelativeTime::JustNow);
    assert_eq!(relative_time(150, 0), RelativeTime::MinutesAgo(2));
    assert_eq!(relative_time(7300, 0), RelativeTime::HoursAgo(2));
    assert_eq!(relative_time(7300, 1), RelativeTime::Yesterday);
    assert_eq!(relative_time(90000, 2), RelativeTime::DayBeforeYesterday);
    assert_eq!(relative_time(300000, 4), RelativeTime::DaysAgo(4));
}

#[test]
fn user_log_name() {
    let u = User {
        id: 12,
        username: "bob".to_string(),
        password_hash: String::new(),
        email: String::new(),
        role: "user".to_string(),
        active: true,
        unread_notifications: 0,
        credit_score: 0,
        coins: 0,
        bio: String::new(),
        address: String::new(),
        timezone: String::new(),
        language: String::new(),
        public_email: false,
        created_at: 0,
        updated_at: 0,
        last_access_date: 0,
        avatar_timestamp: 0,
    };
    assert_eq!(u.to_string(), "bob(uid: 12)");
}

#[test]
fn store_paths() {
    assert_eq!(file_name("a/b/c.png"), "c.png");
    assert_eq!(file_name("c.png"), "c.png");
    assert_eq!(dir_name("a/b/"), "b");
    assert_eq!(upload_path("", "x.txt"), "x.txt");
    assert_eq!(upload_path("docs//", "x.txt"), "docs/x.txt");
    assert_eq!(renamed_path("a/b/c.png", "d.png"), "a/b/d.png");
    assert_eq!(renamed_path("c.png", "d.png"), "d.png");
    assert_eq!(moved_path("a/b/c.png", "z/"), "z/c.png");
    assert_eq!(moved_path("a/b/c.png", ""), "c.png");
    assert_eq!(download_disposition("a/b.zip"), "attachment; filename=\"b.zip\"");
}

#[test]
fn moving_keeps_names() {
    for (p, d) in [("x/y/z.txt", "q"), ("z.txt", "a/b/"), ("a/", "b")] {
        let moved = moved_path(p, d);
        assert_eq!(file_name(&moved), file_name(p));
    }
}

#[test]
fn label_sets() {
    let l = Labels::from_flags(false, true, false, true, false);
    assert!(l.is_hentai() && l.is_porn());
    assert_eq!(l.names(), vec!["hentai", "porn"]);
    assert_eq!(l.to_string(), "hentai,porn");
    assert_eq!(Labels(DRAWINGS).union(Labels(SEXY)).0, 17);
    assert_eq!(Labels(HENTAI | NEUTRAL).intersection(Labels(NEUTRAL)).0, NEUTRAL);
    assert!(!Labels::default().is_porn());
    assert_eq!(Labels(PORN).to_string(), "porn");
    assert_eq!(Labels(0).to_string(), "");
}

#[test]
fn link_filter_rules_and_changes() {
    assert_eq!(filter_rules("a\r\n  b \n\nc\n"), vec!["a", "b", "", "c"]);
    assert!(filter_rules("").is_empty());
    assert_eq!(filter_rules("x"), vec!["x"]);
    let blocked = element_changes(ElementKind::Link, "http://ads", true, None);
    assert_eq!(
        blocked,
        vec![
            ("href", "#blocked".to_string()),
            ("class", "link-blocked".to_string()),
            ("title", "Original link http://ads blocked".to_string()),
        ]
    );
    let img = element_changes(ElementKind::Image, "i.png", true, Some("z".to_string()));
    assert_eq!(img[0], ("src", "#blocked".to_string()));
    assert_eq!(img[2], ("alt", "Original src i.png blocked".to_string()));
    let rewritten = element_changes(ElementKind::Image, "i.png", false, Some("j.png".to_string()));
    assert_eq!(rewritten, vec![("src", "j.png".to_string())]);
    assert!(element_changes(ElementKind::Link, "u", false, None).is_empty());
}

#[test]
fn pages_and_requests() {
    let md = CustomPage {
        id: 1,
        path: "about".to_string(),
        title: "About".to_string(),
        description: String::new(),
        content_type: "markdown".to_string(),
        content: "# Hi".to_string(),
        created_at: 0,
        updated_at: 0,
    };
    assert_eq!(md.get_render_content(), "<h1>Hi</h1>\n");
    let html = CustomPage { content_type: "html".to_string(), ..md };
    assert_eq!(html.get_render_content(), "# Hi");
    assert_eq!(normalize_page_path("  /about "), "about");
    assert_eq!(page_path("//help"), "help");
    assert_eq!(public_asset_name("/css/a.css"), "css/a.css");
    assert!(accepts_html(""));
    assert!(accepts_html("text/html,*/*"));
    assert!(!accepts_html("application/json"));
    assert_eq!(not_found_reply("application/json"), NotFoundReply::Json);
    assert_eq!(not_found_reply("image/png"), NotFoundReply::Bare);
    assert_eq!(not_found_reply("application/xml"), NotFoundReply::Html);
    assert_eq!(theme_return_to(Some("/b"), Some("/r")), "/b");
    assert_eq!(theme_return_to(None, Some("/r")), "/r");
    assert_eq!(theme_return_to(None, None), "/");
}

#[test]
fn system_settings() {
    assert_eq!(captcha_answer(false, None), Ok(None));
    assert_eq!(captcha_answer(true, Some("tok")), Ok(Some("tok")));
    assert_eq!(captcha_answer(true, Some("")), Err(CaptchaRefusal::Required));
    assert_eq!(captcha_answer(true, None), Err(CaptchaRefusal::Required));
    assert_eq!(mail_status(MailOutcome::NoServer), "drop");
    assert_eq!(mail_status(MailOutcome::Limited), "limited");
    assert_eq!(mail_status(MailOutcome::Sent), "sent");
    let limit = Limit { max_per_hour: 10, max_per_day: 0 };
    assert!(limit.allows(10, 1000));
    assert!(!limit.allows(11, 0));
    assert!(reload_target("site_info").is_some());
    assert!(reload_target("unknown").is_none());
    let mut t = TurnstileConfig::default();
    assert!(t.get_site_key("login").is_none());
    t.enable = true;
    t.site_key = "site".to_string();
    t.secret_key = "secret".to_string();
    t.hooks = vec!["login".to_string()];
    assert_eq!(t.get_site_key("login"), Some(("login".to_string(), "site".to_string())));
    assert!(t.get_site_key("topic").is_none());
    let smtp = SmtpConfig::default();
    assert_eq!(smtp.port, 465);
}

#[test]
fn injected_styles_compile() {
    let cfg = InjectionConfig {
        style: "a { b { color: red; } }".to_string(),
        style_compiled: String::new(),
        html_head: "<meta>".to_string(),
        html_body: String::new(),
    };
    let css = grass::from_string(cfg.style.clone(), &grass::Options::default()).ok();
    let done = with_compiled_style(cfg, css).unwrap();
    assert!(done.style_compiled.contains("a b"));
    assert_eq!(done.html_head, "<meta>");
    let bad = InjectionConfig {
        style: "a { color: ".to_string(),
        style_compiled: String::new(),
        html_head: String::new(),
        html_body: String::new(),
    };
    let css = grass::from_string(bad.style.clone(), &grass::Options::default()).ok();
    assert!(with_compiled_style(bad, css).is_none());
    let kept = with_compiled_style(InjectionConfig::default(), Some("x{}".to_string())).unwrap();
    assert_eq!(kept.style_compiled, "x{}");
}

fn wizard_form() -> WizardForm {
    WizardForm {
        site_name: "Cask".to_string(),
        site_domain: "https://cask.test".to_string(),
        site_desc: "desc".to_string(),
        admin_username: "admin".to_string(),
        admin_password: " ".to_string(),
        admin_email: "a@b.c".to_string(),
        smtp_host: Some("smtp.test".to_string()),
        smtp_port: Some("587".to_string()),
        smtp_user: None,
        smtp_pass: Some("p".to_string()),
        smtp_from_name: None,
        smtp_from_email: None,
        smtp_tls: true,
    }
}

#[test]
fn installation_rules() {
    let f = wizard_form();
    assert_eq!(check_install(&f, true, 0, 0), Err(WizardRefusal::AlreadyInstalled));
    assert_eq!(check_install(&f, false, 0, 3601), Err(WizardRefusal::TimedOut));
    assert_eq!(check_install(&f, false, 0, 3600), Ok(()));
    let mut g = wizard_form();
    g.site_name = "  ".to_string();
    assert_eq!(check_install(&g, false, 0, 0), Err(WizardRefusal::SiteNameRequired));
    let mut h = wizard_form();
    h.admin_password = String::new();
    assert_eq!(check_install(&h, false, 0, 0), Err(WizardRefusal::AdminPasswordRequired));
    let w = wizard_website(&f);
    assert_eq!(w.name, "Cask");
    assert_eq!(w.logo, "/public/logo.png");
    let smtp = wizard_smtp(&f).unwrap();
    assert_eq!(smtp.port, 587);
    assert_eq!(smtp.username, "");
    assert_eq!(smtp.password, "p");
    let mut bad_port = wizard_form();
    bad_port.smtp_port = Some("70000".to_string());
    assert!(wizard_smtp(&bad_port).is_none());
    let mut no_host = wizard_form();
    no_host.smtp_host = Some(String::new());
    assert!(wizard_smtp(&no_host).is_none());
}

#[test]
fn port_numbers() {
    assert_eq!(parse_u16("465"), Some(465));
    assert_eq!(parse_u16("+80"), Some(80));
    assert_eq!(parse_u16("65535"), Some(65535));
    assert_eq!(parse_u16("65536"), None);
    assert_eq!(parse_u16("0007"), Some(7));
    assert_eq!(parse_u16(""), None);
    assert_eq!(parse_u16("+"), None);
    assert_eq!(parse_u16("-1"), None);
    assert_eq!(parse_u16(" 1"), None);
    for s in ["0", "1", "80", "443", "65535", "65536", "99999", "12a", "+0"] {
        assert_eq!(parse_u16(s), s.parse::<u16>().ok());
    }
}

#[test]
fn installation_content() {
    let t = WizardTemplate::default();
    assert_eq!(t.site_name, "NodeCask");
    assert_eq!(t.smtp_port, "465");
    let first = WizardTemplate::first_page(Some("forum.test"));
    assert_eq!(first.site_domain, "https://forum.test");
    assert_eq!(WizardTemplate::first_page(None).site_domain, "https://localhost");
    let back = WizardTemplate::from_form(wizard_form());
    assert_eq!(back.smtp_user, "");
    assert_eq!(back.smtp_host, "smtp.test");
    let nodes = default_nodes();
    assert_eq!(nodes.len(), 8);
    assert_eq!(nodes[0].1, "trashed");
    assert!(!nodes[1].3);
    assert_eq!(nodes[7].1, "game");
    let links = default_links();
    assert_eq!(links.len(), 2);
    assert_eq!(links[0].links[3].url, "/help");
    assert!(links[1].links[0].blank);
}

#[test]
fn notifications() {
    let n = Notify::reply(3, 9, "hi".to_string());
    assert_eq!((n.user_id, n.category.as_str(), n.link_id), (3, "topic.reply", 9));
    assert_eq!(Notify::topic_move(1, 2, String::new()).category, "topic.move");
    assert_eq!(Notify::comment_delete(1, 2, String::new()).category, "comment.delete");
    assert_eq!(Notify::at_user(1, 2, String::new()).category, "topic.at_user");
}

#[test]
fn mailed_links() {
    let reg = nodecask::links::register_link("https://forum.test", "t0k", "a+b@c.d", Some("X 1")).unwrap();
    let mut expect = url::Url::parse("https://forum.test").unwrap().join("/register").unwrap();
    expect
        .query_pairs_mut()
        .append_pair("token", "t0k")
        .append_pair("email", "a+b@c.d");
    expect.query_pairs_mut().append_pair("invite_code", "X 1");
    assert_eq!(reg, expect.to_string());
    assert_eq!(reg, "https://forum.test/register?token=t0k&email=a%2Bb%40c.d&invite_code=X+1");
    let reset = nodecask::links::reset_password_link("https://forum.test/", "k", "e@f").unwrap();
    assert_eq!(reset, "https://forum.test/reset-password?token=k&email=e%40f");
    assert_eq!(
        nodecask::links::register_link("not a url", "t", "e", None),
        Err(nodecask::links::LinkError::InvalidDomain)
    );
    assert_eq!(
        nodecask::links::register_link("mailto:x@y", "t", "e", None),
        Err(nodecask::links::LinkError::JoinFailed)
    );
    assert_eq!(
        nodecask::links::totp_challenge_redirect("tk", "bob", Some("on")).unwrap(),
        "/login-totp-challenge?token=tk&username=bob&remember_me=on"
    );
    assert_eq!(
        nodecask::links::totp_challenge_redirect("tk", "bob", None).unwrap(),
        "/login-totp-challenge?token=tk&username=bob"
    );
    let (decoded, page) = nodecask::pages::requested_page("/%E5%85%B3%E4%BA%8E");
    assert_eq!(decoded, "/关于");
    assert_eq!(page, "关于");
}

#[test]
fn page_context_reports_its_language() {
    let mut ctx = VContext::empty();
    assert_eq!(ctx.locale(), "en_US");
    ctx.language = "zh_CN".to_string();
    assert_eq!(ctx.locale(), "zh_CN");
}

#[test]
fn turnstile_replies() {
    assert_eq!(turnstile_outcome(200, true, Some("login"), "login"), Some(true));
    assert_eq!(turnstile_outcome(200, true, Some("register"), "login"), Some(false));
    assert_eq!(turnstile_outcome(200, true, None, "login"), Some(false));
    assert_eq!(turnstile_outcome(200, false, Some("login"), "login"), Some(false));
    assert_eq!(turnstile_outcome(500, true, Some("login"), "login"), None);
    assert_eq!(turnstile_outcome(302, true, Some("login"), "login"), None);
}
