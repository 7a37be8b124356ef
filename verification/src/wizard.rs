//! The first-run installation form: when it is still open, what it needs,
//! and the settings it produces.
use vstd::prelude::*;
use crate::system::{Link, LinkCollection, Website};
use crate::text::{chars_of, trim, trim_spec};

verus! {

broadcast use vstd::string::group_string_axioms;

/// What the installation form submits.
pub struct WizardForm {
    pub site_name: String,
    pub site_domain: String,
    pub site_desc: String,
    pub admin_username: String,
    pub admin_password: String,
    pub admin_email: String,
    pub smtp_host: Option<String>,
    pub smtp_port: Option<String>,
    pub smtp_user: Option<String>,
    pub smtp_pass: Option<String>,
    pub smtp_from_name: Option<String>,
    pub smtp_from_email: Option<String>,
    pub smtp_tls: bool,
}

/// The installation page: a message, whether installation is over, and the
/// form fields to show again.
pub struct WizardTemplate {
    pub tips: String,
    pub success: bool,
    pub site_name: String,
    pub site_domain: String,
    pub site_desc: String,
    pub admin_username: String,
    pub admin_password: String,
    pub admin_email: String,
    pub smtp_host: String,
    pub smtp_port: String,
    pub smtp_user: String,
    pub smtp_pass: String,
    pub smtp_from_name: String,
    pub smtp_from_email: String,
    pub smtp_tls: bool,
}

impl Default for WizardTemplate {
    /// A site called "NodeCask" with an administrator `admin`, mail on port
    /// 465 over TLS; the other fields empty.
    fn default() -> (r: Self)
        ensures
            r.tips@.len() == 0,
            !r.success,
            r.site_name@ == "NodeCask"@,
            r.site_domain@.len() == 0,
            r.site_desc@ == "一个轻量级的论坛社区"@,
            r.admin_username@ == "admin"@,
            r.admin_password@.len() == 0,
            r.admin_email@.len() == 0,
            r.smtp_host@.len() == 0,
            r.smtp_port@ == "465"@,
            r.smtp_user@.len() == 0,
            r.smtp_pass@.len() == 0,
            r.smtp_from_name@.len() == 0,
            r.smtp_from_email@.len() == 0,
            r.smtp_tls,
    {
        WizardTemplate {
            tips: String::new(),
            success: false,
            site_name: String::from_str("NodeCask"),
            site_domain: String::new(),
            site_desc: String::from_str("一个轻量级的论坛社区"),
            admin_username: String::from_str("admin"),
            admin_password: String::new(),
            admin_email: String::new(),
            smtp_host: String::new(),
            smtp_port: String::from_str("465"),
            smtp_user: String::new(),
            smtp_pass: String::new(),
            smtp_from_name: String::new(),
            smtp_from_email: String::new(),
            smtp_tls: true,
        }
    }
}

/// The text of an optional field, empty when it is missing.
pub open spec fn or_empty(s: Option<String>) -> Seq<char> {
    match s {
        Some(v) => v@,
        None => Seq::empty(),
    }
}

fn take_or_empty(s: Option<String>) -> (r: String)
    ensures
        r@ == or_empty(s),
{
    match s {
        Some(v) => v,
        None => String::new(),
    }
}

impl WizardTemplate {
    /// The page that shows a submitted form again, with no message.
    pub fn from_form(form: WizardForm) -> (r: Self)
        ensures
            r.tips@.len() == 0,
            !r.success,
            r.site_name@ == form.site_name@,
            r.site_domain@ == form.site_domain@,
            r.site_desc@ == form.site_desc@,
            r.admin_username@ == form.admin_username@,
            r.admin_password@ == form.admin_password@,
            r.admin_email@ == form.admin_email@,
            r.smtp_host@ == or_empty(form.smtp_host),
            r.smtp_port@ == or_empty(form.smtp_port),
            r.smtp_user@ == or_empty(form.smtp_user),
            r.smtp_pass@ == or_empty(form.smtp_pass),
            r.smtp_from_name@ == or_empty(form.smtp_from_name),
            r.smtp_from_email@ == or_empty(form.smtp_from_email),
            r.smtp_tls == form.smtp_tls,
    {
        WizardTemplate {
            tips: String::new(),
            success: false,
            site_name: form.site_name,
            site_domain: form.site_domain,
            site_desc: form.site_desc,
            admin_username: form.admin_username,
            admin_password: form.admin_password,
            admin_email: form.admin_email,
            smtp_host: take_or_empty(form.smtp_host),
            smtp_port: take_or_empty(form.smtp_port),
            smtp_user: take_or_empty(form.smtp_user),
            smtp_pass: take_or_empty(form.smtp_pass),
            smtp_from_name: take_or_empty(form.smtp_from_name),
            smtp_from_email: take_or_empty(form.smtp_from_email),
            smtp_tls: form.smtp_tls,
        }
    }

    /// The first page of the installation, with the site's address taken from
    /// the request's `Host` header (`localhost` when there is none).
    pub fn first_page(host: Option<&str>) -> (r: Self)
        ensures
            r.site_domain@ == "https://"@ + (match host {
                Some(h) => h@,
                None => "localhost"@,
            }),
            r.site_name@ == "NodeCask"@,
            r.admin_username@ == "admin"@,
            r.smtp_port@ == "465"@,
            r.smtp_tls,
            !r.success,
    {
        let mut t = WizardTemplate::default();
        let mut d = String::from_str("https://");
        match host {
            Some(h) => d.append(h),
            None => d.append("localhost"),
        }
        t.site_domain = d;
        t
    }
}

/// How long the installation form stays open after start, in seconds.
pub const WIZARD_WINDOW_SECS: i64 = 3600;

/// Why the form is not processed, or which field it lacks.
#[derive(PartialEq, Eq, Structural, Debug, Clone, Copy)]
pub enum WizardRefusal {
    /// Installation is finished; the program is restarting.
    AlreadyInstalled,
    /// The form was opened more than an hour ago.
    TimedOut,
    SiteNameRequired,
    SiteDomainRequired,
    AdminUsernameRequired,
    AdminPasswordRequired,
    AdminEmailRequired,
}

/// Whether the form is processed: not once installation is over, not after
/// the hour that follows the start (`started_at`, `now` in seconds), and only
/// with a site name, a domain, an administrator name, password and address
/// (blank text does not count, but a password of spaces does).
pub fn check_install(form: &WizardForm, exiting: bool, started_at: i64, now: i64) -> (r: Result<
    (),
    WizardRefusal,
>)
    requires
        started_at <= i64::MAX - WIZARD_WINDOW_SECS,
    ensures
        r == (if exiting {
            Err(WizardRefusal::AlreadyInstalled)
        } else if started_at + WIZARD_WINDOW_SECS < now {
            Err(WizardRefusal::TimedOut)
        } else if trim_spec(form.site_name@).len() == 0 {
            Err(WizardRefusal::SiteNameRequired)
        } else if trim_spec(form.site_domain@).len() == 0 {
            Err(WizardRefusal::SiteDomainRequired)
        } else if trim_spec(form.admin_username@).len() == 0 {
            Err(WizardRefusal::AdminUsernameRequired)
        } else if form.admin_password@.len() == 0 {
            Err(WizardRefusal::AdminPasswordRequired)
        } else if trim_spec(form.admin_email@).len() == 0 {
            Err(WizardRefusal::AdminEmailRequired)
        } else {
            Ok(())
        }),
{
    if exiting {
        return Err(WizardRefusal::AlreadyInstalled);
    }
    if started_at + WIZARD_WINDOW_SECS < now {
        return Err(WizardRefusal::TimedOut);
    }
    if trim(form.site_name.as_str()).is_empty() {
        return Err(WizardRefusal::SiteNameRequired);
    }
    if trim(form.site_domain.as_str()).is_empty() {
        return Err(WizardRefusal::SiteDomainRequired);
    }
    if trim(form.admin_username.as_str()).is_empty() {
        return Err(WizardRefusal::AdminUsernameRequired);
    }
    if form.admin_password.as_str().is_empty() {
        return Err(WizardRefusal::AdminPasswordRequired);
    }
    if trim(form.admin_email.as_str()).is_empty() {
        return Err(WizardRefusal::AdminEmailRequired);
    }
    Ok(())
}

/// The site settings the form sets: its name, domain and description; the
/// rest as by default.
pub fn wizard_website(form: &WizardForm) -> (r: Website)
    ensures
        r.name@ == form.site_name@,
        r.domain@ == form.site_domain@,
        r.description@ == form.site_desc@,
        r.logo@ == "/public/logo.png"@,
        r.nickname@ == "NodeCask"@,
        r.keyword@.len() == 0,
        r.copyright@.len() == 0,
        r.about@.len() == 0,
{
    let mut w = Website::default();
    w.name = form.site_name.clone();
    w.domain = form.site_domain.clone();
    w.description = form.site_desc.clone();
    w
}

/// The credit given to the first administrator.
pub const ADMIN_INITIAL_SCORE: i64 = 999999;

// ---------------------------------------------------------------------------
// Port numbers
// ---------------------------------------------------------------------------
/// `c` is an ASCII digit.
pub open spec fn is_digit(c: char) -> bool {
    48 <= (c as u32) && (c as u32) <= 57
}

/// The number written by the decimal digits `s`.
pub open spec fn digits_value(s: Seq<char>) -> int
    decreases s.len(),
{
    if s.len() == 0 {
        0
    } else {
        digits_value(s.drop_last()) * 10 + ((s.last() as u32) - 48)
    }
}

/// `s` without one leading `+`.
pub open spec fn unsigned_digits(s: Seq<char>) -> Seq<char> {
    if s.len() > 0 && s[0] == '+' {
        s.drop_first()
    } else {
        s
    }
}

/// Every character of `d` is an ASCII digit.
pub open spec fn all_digits(d: Seq<char>) -> bool {
    forall|i: int| 0 <= i < d.len() ==> is_digit(#[trigger] d[i])
}

/// What `u16::from_str` makes of `s`: an optional `+`, then one or more
/// ASCII digits whose value is at most 65535.
pub open spec fn parse_u16_spec(s: Seq<char>) -> Option<u16> {
    let d = unsigned_digits(s);
    if d.len() > 0 && all_digits(d) && digits_value(d) <= 65535 {
        Some(digits_value(d) as u16)
    } else {
        None
    }
}

proof fn lemma_digits_value_nonneg(s: Seq<char>)
    requires
        forall|i: int| 0 <= i < s.len() ==> is_digit(#[trigger] s[i]),
    ensures
        digits_value(s) >= 0,
    decreases s.len(),
{
    if s.len() > 0 {
        assert(is_digit(s[s.len() - 1]));
        lemma_digits_value_nonneg(s.drop_last());
    }
}

proof fn lemma_digits_value_grows(s: Seq<char>, k: int)
    requires
        forall|i: int| 0 <= i < s.len() ==> is_digit(#[trigger] s[i]),
        0 <= k <= s.len(),
    ensures
        digits_value(s.take(k)) <= digits_value(s),
    decreases s.len() - k,
{
    if k < s.len() {
        lemma_digits_value_grows(s, k + 1);
        assert(s.take(k + 1).drop_last() =~= s.take(k));
        assert(is_digit(s.take(k + 1).last()));
        lemma_digits_value_nonneg(s.take(k));
    } else {
        assert(s.take(k) =~= s);
    }
}

/// `s.parse::<u16>().ok()`.
pub fn parse_u16(s: &str) -> (r: Option<u16>)
    ensures
        r == parse_u16_spec(s@),
{
    let v = chars_of(s);
    let start: usize = if v.len() > 0 && v[0] == '+' {
        1
    } else {
        0
    };
    let ghost d = unsigned_digits(s@);
    proof {
        assert(d =~= v@.skip(start as int));
    }
    if start == v.len() {
        return None;
    }
    let mut value: u32 = 0;
    let mut i: usize = start;
    while i < v.len()
        invariant
            v@ == s@,
            start <= i <= v@.len(),
            d == v@.skip(start as int),
            d == unsigned_digits(s@),
            forall|k: int| 0 <= k < i - start ==> is_digit(#[trigger] d[k]),
            value as int == digits_value(d.take(i - start)),
            value <= 65535,
        decreases v.len() - i,
    {
        let c = v[i];
        assert(d[i - start] == c);
        let u = c as u32;
        if !(48 <= u && u <= 57) {
            assert(!is_digit(d[i - start]));
            return None;
        }
        let digit = u - 48;
        proof {
            assert(d.take(i - start + 1).drop_last() =~= d.take(i - start));
            assert(d.take(i - start + 1).last() == c);
        }
        let next: u32 = value * 10 + digit;
        if next > 65535 {
            proof {
                assert forall|k: int| 0 <= k < i - start + 1 implies is_digit(#[trigger] d[k]) by {
                    if k == i - start {
                        assert(d[k] == c);
                    }
                }
                if all_digits(d) {
                    lemma_digits_value_grows(d, i - start + 1);
                }
            }
            return None;
        }
        value = next;
        i = i + 1;
    }
    proof {
        assert(d.take(i - start) =~= d);
    }
    Some(value as u16)
}

/// The mail settings the form gives: only with a host and a valid port.
pub struct WizardSmtp {
    pub from_name: String,
    pub from_mail: String,
    pub hostname: String,
    pub port: u16,
    pub tls_implicit: bool,
    pub username: String,
    pub password: String,
}

/// The mail settings of the form, or `None` where the host is missing or
/// empty, or the port is missing, empty or not a number from 0 to 65535.
pub fn wizard_smtp(form: &WizardForm) -> (r: Option<WizardSmtp>)
    ensures
        match r {
            Some(m) => {
                &&& (form.smtp_host matches Some(h) && h@.len() > 0 && m.hostname@ == h@)
                &&& (form.smtp_port matches Some(p) && p@.len() > 0 && parse_u16_spec(p@) == Some(
                    m.port,
                ))
                &&& m.username@ == or_empty(form.smtp_user)
                &&& m.password@ == or_empty(form.smtp_pass)
                &&& m.from_name@ == or_empty(form.smtp_from_name)
                &&& m.from_mail@ == or_empty(form.smtp_from_email)
                &&& m.tls_implicit == form.smtp_tls
            },
            None => !(form.smtp_host matches Some(h) && h@.len() > 0) || !(form.smtp_port matches Some(
                p,
            ) && p@.len() > 0 && parse_u16_spec(p@) is Some),
        },
{
    let host = match &form.smtp_host {
        Some(h) => {
            if h.as_str().is_empty() {
                return None;
            }
            h.clone()
        },
        None => {
            return None;
        },
    };
    let port = match &form.smtp_port {
        Some(p) => {
            if p.as_str().is_empty() {
                return None;
            }
            match parse_u16(p.as_str()) {
                Some(n) => n,
                None => {
                    return None;
                },
            }
        },
        None => {
            return None;
        },
    };
    let username = match &form.smtp_user {
        Some(s) => s.clone(),
        None => String::new(),
    };
    let password = match &form.smtp_pass {
        Some(s) => s.clone(),
        None => String::new(),
    };
    let from_name = match &form.smtp_from_name {
        Some(s) => s.clone(),
        None => String::new(),
    };
    let from_mail = match &form.smtp_from_email {
        Some(s) => s.clone(),
        None => String::new(),
    };
    Some(
        WizardSmtp {
            from_name,
            from_mail,
            hostname: host,
            port,
            tls_implicit: form.smtp_tls,
            username,
            password,
        },
    )
}

// ---------------------------------------------------------------------------
// Initial content
// ---------------------------------------------------------------------------
/// The boards made at installation, as (name, slug, description, listed,
/// hidden-and-read-only): the recycle bin and the board of unsorted topics,
/// hidden, isolated and read-only; then six listed boards.
pub open spec fn default_nodes_spec() -> Seq<(Seq<char>, Seq<char>, Seq<char>, bool)> {
    seq![
        ("回收站"@, "trashed"@, "查看系统删除帖子"@, false),
        ("未分类"@, "unclassified"@, "没有归属的帖子存在在这个节点。"@, false),
        ("日常"@, "daily"@, ""@, true),
        ("分享"@, "share"@, ""@, true),
        ("科技"@, "tech"@, ""@, true),
        ("金融"@, "finance"@, ""@, true),
        ("旅行"@, "travel"@, ""@, true),
        ("游戏"@, "game"@, ""@, true),
    ]
}

/// The boards made at installation (see `default_nodes_spec`); a board that
/// is not listed is also isolated and read-only.
pub fn default_nodes() -> (r: Vec<(&'static str, &'static str, &'static str, bool)>)
    ensures
        r@.map_values(|t: (&'static str, &'static str, &'static str, bool)| (t.0@, t.1@, t.2@, t.3))
            == default_nodes_spec(),
{
    let v = vec![
        ("回收站", "trashed", "查看系统删除帖子", false),
        ("未分类", "unclassified", "没有归属的帖子存在在这个节点。", false),
        ("日常", "daily", "", true),
        ("分享", "share", "", true),
        ("科技", "tech", "", true),
        ("金融", "finance", "", true),
        ("旅行", "travel", "", true),
        ("游戏", "game", "", true),
    ];
    proof {
        assert(v@.map_values(|t: (&'static str, &'static str, &'static str, bool)| (t.0@, t.1@, t.2@, t.3))
            =~= default_nodes_spec());
    }
    v
}

fn link(title: &str, url: &str, blank: bool) -> (r: Link)
    ensures
        r.title@ == title@,
        r.url@ == url@,
        r.description@.len() == 0,
        r.blank == blank,
{
    Link { title: String::from_str(title), url: String::from_str(url), description: String::new(), blank }
}

/// The footer made at installation: the site's own pages, and one friendly
/// link that opens in a new window.
pub fn default_links() -> (r: Vec<LinkCollection>)
    ensures
        r@.len() == 2,
        r@[0].title@ == "站内导航"@,
        r@[0].links@.len() == 4,
        r@[0].links@[0].title@ == "关于我们"@ && r@[0].links@[0].url@ == "/about"@ && !r@[0].links@[0].blank,
        r@[0].links@[1].title@ == "隐私政策"@ && r@[0].links@[1].url@ == "/privacy"@ && !r@[0].links@[1].blank,
        r@[0].links@[2].title@ == "网站规则"@ && r@[0].links@[2].url@ == "/rules"@ && !r@[0].links@[2].blank,
        r@[0].links@[3].title@ == "帮助信息"@ && r@[0].links@[3].url@ == "/help"@ && !r@[0].links@[3].blank,
        r@[1].title@ == "友情链接"@,
        r@[1].links@.len() == 1,
        r@[1].links@[0].title@ == "Github"@ && r@[1].links@[0].url@ == "https://github.com"@
            && r@[1].links@[0].blank,
        forall|i: int, j: int| 0 <= i < r@.len() && 0 <= j < r@[i].links@.len() ==> (#[trigger] r@[i].links@[j]).description@.len() == 0,
{
    let mut own: Vec<Link> = Vec::new();
    own.push(link("关于我们", "/about", false));
    own.push(link("隐私政策", "/privacy", false));
    own.push(link("网站规则", "/rules", false));
    own.push(link("帮助信息", "/help", false));
    let mut friends: Vec<Link> = Vec::new();
    friends.push(link("Github", "https://github.com", true));
    let mut out: Vec<LinkCollection> = Vec::new();
    out.push(LinkCollection { title: String::from_str("站内导航"), links: own });
    out.push(LinkCollection { title: String::from_str("友情链接"), links: friends });
    out
}

} // verus!
